//! YAML documents as plain data: the values that concept definitions are read from.
use vstd::prelude::*;
use std::iter::from_fn;
use yaml_rust::Yaml::{Array, Boolean, Hash as YamlHash, Integer, String as YamlString};
use yaml_rust::YamlLoader;
use self::YamlToken::{Bool, End, HashStart, Int, ListStart, Other, Str};

verus! {

/// A YAML value, as far as concept definitions read it.
pub enum YamlValue {
    Str(String),
    Int(i64),
    Bool(bool),
    List(Vec<YamlValue>),
    /// A hash: its keys and, at the same places, their values.
    Mapping(Vec<YamlValue>, Vec<YamlValue>),
    Other,
}

/// View of a [`YamlValue`].
pub enum YamlValueV {
    Str(Seq<char>),
    Int(int),
    Bool(bool),
    List(Seq<YamlValueV>),
    /// A hash: its keys and, at the same places, their values.
    Mapping(Seq<YamlValueV>, Seq<YamlValueV>),
    Other,
}

impl View for YamlValue {
    type V = YamlValueV;

    open spec fn view(&self) -> YamlValueV
        decreases self,
    {
        match self {
            YamlValue::Str(s) => YamlValueV::Str(s@),
            YamlValue::Int(i) => YamlValueV::Int(*i as int),
            YamlValue::Bool(b) => YamlValueV::Bool(*b),
            YamlValue::List(v) => YamlValueV::List(
                Seq::new(v@.len(), |i: int| if 0 <= i < v@.len() { v@[i]@ } else { YamlValueV::Other }),
            ),
            YamlValue::Mapping(k, v) => YamlValueV::Mapping(
                Seq::new(k@.len(), |i: int| if 0 <= i < k@.len() { k@[i]@ } else { YamlValueV::Other }),
                Seq::new(v@.len(), |i: int| if 0 <= i < v@.len() { v@[i]@ } else { YamlValueV::Other }),
            ),
            YamlValue::Other => YamlValueV::Other,
        }
    }
}

/// One step of a walk through YAML documents in document order: a scalar, the start of a
/// list or of a hash, or the end of the innermost one. A hash lists each key before its value.
pub enum YamlToken {
    Str(String),
    Int(i64),
    Bool(bool),
    Other,
    ListStart,
    HashStart,
    End,
}

/// View of a [`YamlToken`].
pub enum YamlTokenV {
    Str(Seq<char>),
    Int(int),
    Bool(bool),
    Other,
    ListStart,
    HashStart,
    End,
}

impl View for YamlToken {
    type V = YamlTokenV;

    open spec fn view(&self) -> YamlTokenV {
        match self {
            YamlToken::Str(s) => YamlTokenV::Str(s@),
            YamlToken::Int(i) => YamlTokenV::Int(*i as int),
            YamlToken::Bool(b) => YamlTokenV::Bool(*b),
            YamlToken::Other => YamlTokenV::Other,
            YamlToken::ListStart => YamlTokenV::ListStart,
            YamlToken::HashStart => YamlTokenV::HashStart,
            YamlToken::End => YamlTokenV::End,
        }
    }
}

/// The views of a sequence of tokens.
pub open spec fn tokens_view(t: Seq<YamlToken>) -> Seq<YamlTokenV> {
    t.map_values(|x: YamlToken| x@)
}

/// The walk through the list of documents that `yaml_rust::YamlLoader::load_from_str` loads
/// from a text, or `None` when the text is not valid YAML.
pub uninterp spec fn yaml_tokens(text: Seq<char>) -> Option<Seq<YamlTokenV>>;

/// Calls `yaml_rust::YamlLoader::load_from_str` and walks the list of loaded documents,
/// strings, integers and booleans kept, other scalars (floats, nulls, aliases, and the bad
/// values that the loader gives for an empty document or a tagged scalar that does not parse)
/// marked as other. The walk's own marker, not a YAML value, says where a list or hash ends.
/// The result is named, not stated: the YAML parser decides it.
#[verifier::external_body]
fn load_yaml_tokens(text: &str) -> (res: Option<Vec<YamlToken>>)
    ensures
        match res {
            Some(t) => yaml_tokens(text@) == Some(tokens_view(t@)),
            None => yaml_tokens(text@) is None,
        },
{
    let top = Array(YamlLoader::load_from_str(text).ok()?);
    let mut todo = vec![Some(&top)];
    Some(from_fn(|| Some(match todo.pop()? {
        None => End,
        Some(y) => match y {
            Array(a) => { todo.push(None); todo.extend(a.iter().rev().map(Some)); ListStart },
            YamlHash(h) => { todo.push(None); todo.extend(h.iter().rev().flat_map(|(k, v)| [v, k].map(Some))); HashStart },
            YamlString(s) => Str(s.clone()),
            Integer(i) => Int(*i),
            Boolean(b) => Bool(*b),
            _ => Other,
        },
    })).collect())
}

// ---------------------------------------------------------------------------------------------
// Values from tokens
// ---------------------------------------------------------------------------------------------

/// The value whose walk starts at `pos`, with the position after it; `fuel` bounds the depth
/// of the reading.
pub open spec fn value_at(t: Seq<YamlTokenV>, pos: int, fuel: nat) -> Option<(YamlValueV, int)>
    decreases fuel,
{
    if fuel == 0 || pos < 0 || pos >= t.len() {
        None
    } else {
        match t[pos] {
            YamlTokenV::Str(s) => Some((YamlValueV::Str(s), pos + 1)),
            YamlTokenV::Int(i) => Some((YamlValueV::Int(i), pos + 1)),
            YamlTokenV::Bool(b) => Some((YamlValueV::Bool(b), pos + 1)),
            YamlTokenV::Other => Some((YamlValueV::Other, pos + 1)),
            YamlTokenV::ListStart => match items_at(t, pos + 1, (fuel - 1) as nat) {
                Some((vs, next)) => Some((YamlValueV::List(vs), next)),
                None => None,
            },
            YamlTokenV::HashStart => match pairs_at(t, pos + 1, (fuel - 1) as nat) {
                Some((ks, vs, next)) => Some((YamlValueV::Mapping(ks, vs), next)),
                None => None,
            },
            YamlTokenV::End => None,
        }
    }
}

/// The items of a list whose walk continues at `pos`, up to and including its end.
pub open spec fn items_at(t: Seq<YamlTokenV>, pos: int, fuel: nat) -> Option<(Seq<YamlValueV>, int)>
    decreases fuel,
{
    if fuel == 0 || pos < 0 || pos >= t.len() {
        None
    } else if t[pos] is End {
        Some((Seq::empty(), pos + 1))
    } else {
        match value_at(t, pos, (fuel - 1) as nat) {
            Some((v, next)) => match items_at(t, next, (fuel - 1) as nat) {
                Some((vs, end)) => Some((seq![v] + vs, end)),
                None => None,
            },
            None => None,
        }
    }
}

/// The keys and values of a hash whose walk continues at `pos`, up to and including its end.
pub open spec fn pairs_at(t: Seq<YamlTokenV>, pos: int, fuel: nat) -> Option<(Seq<YamlValueV>, Seq<YamlValueV>, int)>
    decreases fuel,
{
    if fuel == 0 || pos < 0 || pos >= t.len() {
        None
    } else if t[pos] is End {
        Some((Seq::empty(), Seq::empty(), pos + 1))
    } else {
        match value_at(t, pos, (fuel - 1) as nat) {
            Some((k, after_key)) => match value_at(t, after_key, (fuel - 1) as nat) {
                Some((v, next)) => match pairs_at(t, next, (fuel - 1) as nat) {
                    Some((ks, vs, end)) => Some((seq![k] + ks, seq![v] + vs, end)),
                    None => None,
                },
                None => None,
            },
            None => None,
        }
    }
}

/// The documents that a walk describes: the walk must be that of one list, the list of
/// documents; `None` otherwise.
pub open spec fn docs_of_tokens(t: Seq<YamlTokenV>) -> Option<Seq<YamlValueV>> {
    match value_at(t, 0, 2 * t.len() + 1) {
        Some((YamlValueV::List(docs), end)) => if end == t.len() {
            Some(docs)
        } else {
            None
        },
        _ => None,
    }
}

/// The documents of a YAML text, `None` when it is not valid YAML.
pub open spec fn yaml_docs(text: Seq<char>) -> Option<Seq<YamlValueV>> {
    match yaml_tokens(text) {
        Some(t) => docs_of_tokens(t),
        None => None,
    }
}

/// The views of a sequence of values.
pub open spec fn values_view(v: Seq<YamlValue>) -> Seq<YamlValueV> {
    Seq::new(v.len(), |i: int| v[i]@)
}

fn value_from(t: &Vec<YamlToken>, pos: usize, fuel: u128) -> (res: Option<(YamlValue, usize)>)
    ensures
        match res {
            Some((v, next)) => value_at(tokens_view(t@), pos as int, fuel as nat) == Some(
                (v@, next as int),
            ),
            None => value_at(tokens_view(t@), pos as int, fuel as nat) is None,
        },
    decreases fuel,
{
    let ghost tv = tokens_view(t@);
    if fuel == 0 || pos >= t.len() {
        return None;
    }
    assert(tv[pos as int] == t@[pos as int]@);
    match &t[pos] {
        YamlToken::Str(s) => Some((YamlValue::Str(s.clone()), pos + 1)),
        YamlToken::Int(i) => Some((YamlValue::Int(*i), pos + 1)),
        YamlToken::Bool(b) => Some((YamlValue::Bool(*b), pos + 1)),
        YamlToken::Other => Some((YamlValue::Other, pos + 1)),
        YamlToken::ListStart => match items_from(t, pos + 1, fuel - 1) {
            Some((vs, next)) => {
                let v = YamlValue::List(vs);
                assert(v@ == YamlValueV::List(values_view(vs@))) by {
                    assert(v@->List_0 =~= values_view(vs@));
                }
                Some((v, next))
            },
            None => None,
        },
        YamlToken::HashStart => match pairs_from(t, pos + 1, fuel - 1) {
            Some((ks, vs, next)) => {
                let ghost kv = ks@;
                let ghost vv = vs@;
                let v = YamlValue::Mapping(ks, vs);
                assert(v@ == YamlValueV::Mapping(values_view(kv), values_view(vv))) by {
                    assert(v@->Mapping_0 =~= values_view(kv));
                    assert(v@->Mapping_1 =~= values_view(vv));
                }
                Some((v, next))
            },
            None => None,
        },
        YamlToken::End => None,
    }
}

fn items_from(t: &Vec<YamlToken>, pos: usize, fuel: u128) -> (res: Option<(Vec<YamlValue>, usize)>)
    ensures
        match res {
            Some((vs, next)) => items_at(tokens_view(t@), pos as int, fuel as nat) == Some(
                (values_view(vs@), next as int),
            ),
            None => items_at(tokens_view(t@), pos as int, fuel as nat) is None,
        },
    decreases fuel,
{
    let ghost tv = tokens_view(t@);
    if fuel == 0 || pos >= t.len() {
        return None;
    }
    assert(tv[pos as int] == t@[pos as int]@);
    if let YamlToken::End = &t[pos] {
        assert(values_view(Seq::<YamlValue>::empty()) =~= Seq::<YamlValueV>::empty());
        return Some((Vec::new(), pos + 1));
    }
    match value_from(t, pos, fuel - 1) {
        Some((v, next)) => match items_from(t, next, fuel - 1) {
            Some((vs, end)) => {
                let ghost rest = vs@;
                let mut all = vs;
                all.insert(0, v);
                assert(values_view(all@) =~= seq![v@] + values_view(rest));
                Some((all, end))
            },
            None => None,
        },
        None => None,
    }
}

fn pairs_from(t: &Vec<YamlToken>, pos: usize, fuel: u128) -> (res: Option<(Vec<YamlValue>, Vec<YamlValue>, usize)>)
    ensures
        match res {
            Some((ks, vs, next)) => pairs_at(tokens_view(t@), pos as int, fuel as nat) == Some(
                (values_view(ks@), values_view(vs@), next as int),
            ),
            None => pairs_at(tokens_view(t@), pos as int, fuel as nat) is None,
        },
    decreases fuel,
{
    let ghost tv = tokens_view(t@);
    if fuel == 0 || pos >= t.len() {
        return None;
    }
    assert(tv[pos as int] == t@[pos as int]@);
    if let YamlToken::End = &t[pos] {
        assert(values_view(Seq::<YamlValue>::empty()) =~= Seq::<YamlValueV>::empty());
        return Some((Vec::new(), Vec::new(), pos + 1));
    }
    match value_from(t, pos, fuel - 1) {
        Some((k, after_key)) => match value_from(t, after_key, fuel - 1) {
            Some((v, next)) => match pairs_from(t, next, fuel - 1) {
                Some((ks, vs, end)) => {
                    let ghost rk = ks@;
                    let ghost rv = vs@;
                    let ghost key = k@;
                    let ghost val = v@;
                    let mut all_k = ks;
                    let mut all_v = vs;
                    all_k.insert(0, k);
                    all_v.insert(0, v);
                    assert(values_view(all_k@) =~= seq![key] + values_view(rk));
                    assert(values_view(all_v@) =~= seq![val] + values_view(rv));
                    Some((all_k, all_v, end))
                },
                None => None,
            },
            None => None,
        },
        None => None,
    }
}

/// The documents that a walk describes, `None` when it is not the walk of one list.
pub fn docs_from_tokens(t: &Vec<YamlToken>) -> (res: Option<Vec<YamlValue>>)
    ensures
        match res {
            Some(vs) => docs_of_tokens(tokens_view(t@)) == Some(values_view(vs@)),
            None => docs_of_tokens(tokens_view(t@)) is None,
        },
{
    let fuel: u128 = 2 * (t.len() as u128) + 1;
    match value_from(t, 0, fuel) {
        Some((YamlValue::List(docs), end)) => {
            assert(YamlValue::List(docs)@->List_0 =~= values_view(docs@));
            if end == t.len() {
                Some(docs)
            } else {
                None
            }
        },
        _ => None,
    }
}

/// The documents of a YAML text, `None` when it is not valid YAML.
pub fn load_yaml(text: &str) -> (res: Option<Vec<YamlValue>>)
    ensures
        match res {
            Some(vs) => yaml_docs(text@) == Some(values_view(vs@)),
            None => yaml_docs(text@) is None,
        },
{
    match load_yaml_tokens(text) {
        Some(t) => docs_from_tokens(&t),
        None => None,
    }
}

} // verus!
