//! Concept definitions written in YAML: which nodes a document defines or refers to, and what
//! it says of each, as a plan for the knowledge base to carry out.
use vstd::prelude::*;
use crate::fragment::opt_view;
use crate::naming::{kebab_case, to_kebab_case};
use crate::text::strings_view;
use crate::markdown::{extract_yaml, markdown_events, yaml_of_events};
use crate::yaml::{load_yaml, values_view, yaml_docs, YamlValue, YamlValueV};

verus! {

// ---------------------------------------------------------------------------------------------
// Reading values
// ---------------------------------------------------------------------------------------------

/// The last place in `keys` that holds the text `key`, or -1.
pub open spec fn last_key_index(keys: Seq<YamlValueV>, key: Seq<char>) -> int
    decreases keys.len(),
{
    if keys.len() == 0 {
        -1
    } else if keys.last() == YamlValueV::Str(key) {
        keys.len() - 1
    } else {
        last_key_index(keys.drop_last(), key)
    }
}

/// The value stored under the text key `key` in a hash; `None` when the value is no hash or has
/// no such key, as indexing a `yaml_rust::Yaml` gives a bad value then.
pub open spec fn lookup(v: YamlValueV, key: Seq<char>) -> Option<YamlValueV> {
    match v {
        YamlValueV::Mapping(ks, vs) => {
            let i = last_key_index(ks, key);
            if 0 <= i < vs.len() {
                Some(vs[i])
            } else {
                None
            }
        },
        _ => None,
    }
}

/// The text of a value, if it is text.
pub open spec fn text_of(v: Option<YamlValueV>) -> Option<Seq<char>> {
    match v {
        Some(YamlValueV::Str(s)) => Some(s),
        _ => None,
    }
}

/// The kebab-case form of a text, if there is one.
pub open spec fn kebab_of(t: Option<Seq<char>>) -> Option<Seq<char>> {
    match t {
        Some(s) => Some(kebab_case(s)),
        None => None,
    }
}

/// Whether a value is `true`.
pub open spec fn flag_of(v: Option<YamlValueV>) -> bool {
    v == Some(YamlValueV::Bool(true))
}

proof fn lemma_last_key_index_range(keys: Seq<YamlValueV>, key: Seq<char>)
    ensures
        -1 <= last_key_index(keys, key) < keys.len(),
        last_key_index(keys, key) >= 0 ==> keys[last_key_index(keys, key)] == YamlValueV::Str(key),
    decreases keys.len(),
{
    if keys.len() > 0 {
        lemma_last_key_index_range(keys.drop_last(), key);
    }
}

/// The value stored under a text key of a hash.
pub fn lookup_value<'a>(v: &'a YamlValue, key: &str) -> (res: Option<&'a YamlValue>)
    ensures
        match res {
            Some(r) => lookup(v@, key@) == Some(r@),
            None => lookup(v@, key@) is None,
        },
{
    match v {
        YamlValue::Mapping(ks, vs) => {
            let ghost kv = values_view(ks@);
            assert(v@ == YamlValueV::Mapping(values_view(ks@), values_view(vs@))) by {
                assert(v@->Mapping_0 =~= values_view(ks@));
                assert(v@->Mapping_1 =~= values_view(vs@));
            }
            let wanted = key.to_owned();
            let mut i: usize = ks.len();
            assert(kv.take(ks.len() as int) =~= kv);
            while i > 0
                invariant
                    i <= ks.len(),
                    wanted@ == key@,
                    kv == values_view(ks@),
                    v@ == YamlValueV::Mapping(kv, values_view(vs@)),
                    last_key_index(kv, key@) == last_key_index(kv.take(i as int), key@),
                decreases i,
            {
                let ghost pre = kv.take(i as int);
                assert(pre.drop_last() =~= kv.take(i - 1));
                assert(pre.last() == ks@[i - 1]@);
                let is_key = match &ks[i - 1] {
                    YamlValue::Str(s) => s.eq(&wanted),
                    _ => false,
                };
                if is_key {
                    assert(pre.last() == YamlValueV::Str(key@));
                    assert(last_key_index(kv, key@) == i - 1);
                    if i - 1 < vs.len() {
                        assert(values_view(vs@)[i - 1] == vs@[i - 1]@);
                        return Some(&vs[i - 1]);
                    } else {
                        return None;
                    }
                }
                i = i - 1;
            }
            assert(kv.take(0) =~= Seq::<YamlValueV>::empty());
            None
        },
        _ => None,
    }
}

/// The text of a value, if it is text.
pub fn text_value(v: Option<&YamlValue>) -> (res: Option<&String>)
    ensures
        match res {
            Some(s) => text_of(opt_value_view(v)) == Some(s@),
            None => text_of(opt_value_view(v)) is None,
        },
{
    match v {
        Some(YamlValue::Str(s)) => Some(s),
        _ => None,
    }
}

/// The view of an optional value.
pub open spec fn opt_value_view(v: Option<&YamlValue>) -> Option<YamlValueV> {
    match v {
        Some(x) => Some(x@),
        None => None,
    }
}

// ---------------------------------------------------------------------------------------------
// The plan
// ---------------------------------------------------------------------------------------------

/// The node that an entry of a definition document is about.
pub enum NodeKey {
    /// The node with this (kebab-case) name: one the entry defines, or one it refers to.
    Named(String),
    /// A new node without a name, made for the entry at this place.
    Anonymous(usize),
}

/// View of a [`NodeKey`].
pub enum NodeKeyV {
    Named(Seq<char>),
    Anonymous(int),
}

impl View for NodeKey {
    type V = NodeKeyV;

    open spec fn view(&self) -> NodeKeyV {
        match self {
            NodeKey::Named(n) => NodeKeyV::Named(n@),
            NodeKey::Anonymous(i) => NodeKeyV::Anonymous(*i as int),
        }
    }
}

/// Why a definition document cannot be carried out.
#[derive(Debug, Clone, Copy, PartialEq, Eq, Structural)]
pub enum PlanError {
    /// The text is not valid YAML.
    NotYaml,
    /// The text holds no document.
    NoDocument,
    /// The first document is not a list of entries.
    NotASequence,
    /// An entry is not a hash.
    EntryNotAHash,
    /// An entry has a key that is not text.
    KeyNotText,
    /// A node's attribute list holds something that is not text.
    AttributeNotText,
    /// An implementation names no target.
    MissingTarget,
    /// An implementation has no integer output id.
    MissingOutputId,
    /// An implementation's documentation is not text.
    DocumentationNotText,
}

/// The node that the entry at place `i` is about: the one it defines, else the one it names,
/// else a new anonymous one.
pub open spec fn entry_key(e: YamlValueV, i: int) -> NodeKeyV {
    match text_of(lookup(e, "define"@)) {
        Some(n) => NodeKeyV::Named(kebab_case(n)),
        None => match text_of(lookup(e, "name"@)) {
            Some(n) => NodeKeyV::Named(kebab_case(n)),
            None => NodeKeyV::Anonymous(i),
        },
    }
}

/// The nodes that the entries are about, in order.
pub open spec fn entry_keys(es: Seq<YamlValueV>) -> Seq<NodeKeyV> {
    Seq::new(es.len(), |i: int| entry_key(es[i], i))
}

/// The nodes in the order in which entries first speak of them.
pub open spec fn distinct_keys(ks: Seq<NodeKeyV>) -> Seq<NodeKeyV>
    decreases ks.len(),
{
    if ks.len() == 0 {
        ks
    } else {
        let d = distinct_keys(ks.drop_last());
        if d.contains(ks.last()) {
            d
        } else {
            d.push(ks.last())
        }
    }
}

/// The value of key `f` for node `k`, taken from the last of the first `n` entries about `k`
/// that has the key: the entries about one node are merged, later keys winning.
pub open spec fn field_upto(es: Seq<YamlValueV>, n: int, k: NodeKeyV, f: Seq<char>) -> Option<YamlValueV>
    decreases n,
{
    if n <= 0 || n > es.len() {
        None
    } else if entry_key(es[n - 1], n - 1) == k && lookup(es[n - 1], f) is Some {
        lookup(es[n - 1], f)
    } else {
        field_upto(es, n - 1, k, f)
    }
}

/// The value of key `f` for node `k` in the merged entries about it.
pub open spec fn field(es: Seq<YamlValueV>, k: NodeKeyV, f: Seq<char>) -> Option<YamlValueV> {
    field_upto(es, es.len() as int, k, f)
}

/// Whether an entry marks its node as newly defined: it defines the node, or makes a new one.
pub open spec fn marks_new(e: YamlValueV) -> bool {
    text_of(lookup(e, "define"@)) is Some || text_of(lookup(e, "name"@)) is None
}

/// Whether node `k` is newly defined by some entry about it.
pub open spec fn newly_defined(es: Seq<YamlValueV>, k: NodeKeyV) -> bool {
    exists|i: int| 0 <= i < es.len() && entry_key(es[i], i) == k && marks_new(es[i])
}

/// What is wrong with an entry, if anything: it must be a hash with text keys.
pub open spec fn entry_error(e: YamlValueV) -> Option<PlanError> {
    match e {
        YamlValueV::Mapping(ks, vs) => if exists|i: int| 0 <= i < ks.len() && !(ks[i] is Str) {
            Some(PlanError::KeyNotText)
        } else {
            None
        },
        _ => Some(PlanError::EntryNotAHash),
    }
}

/// What is wrong with the first faulty one of the first `n` entries.
pub open spec fn first_entry_error(es: Seq<YamlValueV>, n: int) -> Option<PlanError>
    decreases n,
{
    if n <= 0 || n > es.len() {
        None
    } else {
        match first_entry_error(es, n - 1) {
            Some(e) => Some(e),
            None => entry_error(es[n - 1]),
        }
    }
}

/// The kebab-case form of a text value.
pub open spec fn kebab_item(v: YamlValueV) -> Seq<char> {
    match v {
        YamlValueV::Str(s) => kebab_case(s),
        _ => Seq::empty(),
    }
}

/// The attributes of a node: the kebab-case forms of the texts of its `attributes` list, none
/// when it has no list, and an error when the list holds something that is not text.
pub open spec fn attributes_of(v: Option<YamlValueV>) -> Result<Seq<Seq<char>>, PlanError> {
    match v {
        Some(YamlValueV::List(items)) => if forall|i: int| 0 <= i < items.len() ==> items[i] is Str {
            Ok(items.map_values(|x: YamlValueV| kebab_item(x)))
        } else {
            Err(PlanError::AttributeNotText)
        },
        _ => Ok(Seq::empty()),
    }
}

/// The first node among the first `n` of `keys` whose attribute list is faulty.
pub open spec fn first_attribute_error(es: Seq<YamlValueV>, keys: Seq<NodeKeyV>, n: int) -> Option<PlanError>
    decreases n,
{
    if n <= 0 || n > keys.len() {
        None
    } else {
        match first_attribute_error(es, keys, n - 1) {
            Some(e) => Some(e),
            None => match attributes_of(field(es, keys[n - 1], "attributes"@)) {
                Err(e) => Some(e),
                Ok(_) => None,
            },
        }
    }
}

/// What an implementation request says, in case its node turns out to be one.
pub struct ImplementPlanV {
    pub target: Seq<char>,
    pub attribute_logic: bool,
    pub force_own_module: bool,
    pub output_id: int,
    pub documentation: Option<Seq<char>>,
    pub target_in_document: bool,
    pub target_owner: Option<Seq<char>>,
    pub target_value: Option<Seq<char>>,
}

/// What the document says of an implementation request for node `k`: its target (kebab-case),
/// whether to activate attribute logic and a module of its own (both only when `true`), its
/// output id and documentation, and, when the document has entries about the target, the owner
/// and value archetypes they name. A missing target or output id, or documentation that is not
/// text, is an error, in that order.
pub open spec fn implement_of(es: Seq<YamlValueV>, k: NodeKeyV) -> Result<ImplementPlanV, PlanError> {
    match kebab_of(text_of(field(es, k, "target"@))) {
        None => Err(PlanError::MissingTarget),
        Some(t) => match field(es, k, "output_id"@) {
            Some(YamlValueV::Int(id)) => {
                let tk = NodeKeyV::Named(t);
                let plan = ImplementPlanV {
                    target: t,
                    attribute_logic: flag_of(field(es, k, "attribute_logic"@)),
                    force_own_module: flag_of(field(es, k, "force_own_module"@)),
                    output_id: id,
                    documentation: None,
                    target_in_document: entry_keys(es).contains(tk),
                    target_owner: kebab_of(text_of(field(es, tk, "owner_archetype"@))),
                    target_value: kebab_of(text_of(field(es, tk, "value_archetype"@))),
                };
                match field(es, k, "documentation"@) {
                    None => Ok(plan),
                    Some(YamlValueV::Str(d)) => Ok(ImplementPlanV { documentation: Some(d), ..plan }),
                    Some(_) => Err(PlanError::DocumentationNotText),
                }
            },
            _ => Err(PlanError::MissingOutputId),
        },
    }
}

/// What the document says of one node.
pub struct NodePlanV {
    pub node: NodeKeyV,
    pub newly_defined: bool,
    pub parent: Option<Seq<char>>,
    pub attributes: Seq<Seq<char>>,
    pub owner_archetype: Option<Seq<char>>,
    pub value_archetype: Option<Seq<char>>,
    pub implement: Result<ImplementPlanV, PlanError>,
}

/// What the document says of node `k`, from its merged entries: whether it is newly defined,
/// its parent, attributes, owner and value archetypes (kebab-case), and what applies if it is
/// an implementation request.
pub open spec fn node_plan(es: Seq<YamlValueV>, k: NodeKeyV) -> NodePlanV {
    NodePlanV {
        node: k,
        newly_defined: newly_defined(es, k),
        parent: kebab_of(text_of(field(es, k, "parent"@))),
        attributes: match attributes_of(field(es, k, "attributes"@)) {
            Ok(a) => a,
            Err(_) => Seq::empty(),
        },
        owner_archetype: kebab_of(text_of(field(es, k, "owner_archetype"@))),
        value_archetype: kebab_of(text_of(field(es, k, "value_archetype"@))),
        implement: implement_of(es, k),
    }
}

/// The names (kebab-case) of the nodes that the first `n` entries define, in order.
pub open spec fn defines_upto(es: Seq<YamlValueV>, n: int) -> Seq<Seq<char>>
    decreases n,
{
    if n <= 0 || n > es.len() {
        Seq::empty()
    } else {
        match text_of(lookup(es[n - 1], "define"@)) {
            Some(d) => defines_upto(es, n - 1).push(kebab_case(d)),
            None => defines_upto(es, n - 1),
        }
    }
}

/// A plan for the knowledge base: the nodes to create first, by name, and what to record of
/// each node the document speaks of, in the order in which it first speaks of them.
pub struct ConceptPlanV {
    pub defines: Seq<Seq<char>>,
    pub nodes: Seq<NodePlanV>,
}

/// The plan for a list of entries, or the error of the first faulty entry, else of the first
/// node with a faulty attribute list.
pub open spec fn plan_entries(es: Seq<YamlValueV>) -> Result<ConceptPlanV, PlanError> {
    match first_entry_error(es, es.len() as int) {
        Some(e) => Err(e),
        None => {
            let keys = distinct_keys(entry_keys(es));
            match first_attribute_error(es, keys, keys.len() as int) {
                Some(e) => Err(e),
                None => Ok(
                    ConceptPlanV {
                        defines: defines_upto(es, es.len() as int),
                        nodes: keys.map_values(|k: NodeKeyV| node_plan(es, k)),
                    },
                ),
            }
        },
    }
}

/// The plan for loaded YAML documents: the first document must be a list of entries.
pub open spec fn concept_plan(docs: Seq<YamlValueV>) -> Result<ConceptPlanV, PlanError> {
    if docs.len() == 0 {
        Err(PlanError::NoDocument)
    } else {
        match docs[0] {
            YamlValueV::List(es) => plan_entries(es),
            _ => Err(PlanError::NotASequence),
        }
    }
}

/// The plan for a YAML text.
pub open spec fn yaml_plan(text: Seq<char>) -> Result<ConceptPlanV, PlanError> {
    match yaml_docs(text) {
        None => Err(PlanError::NotYaml),
        Some(docs) => concept_plan(docs),
    }
}

// ---------------------------------------------------------------------------------------------
// Carrying out the reading
// ---------------------------------------------------------------------------------------------

/// What an implementation request says, in case its node turns out to be one.
pub struct ImplementPlan {
    /// The target archetype's name, in kebab case.
    pub target: String,
    /// Whether attribute logic is to be activated on the target.
    pub attribute_logic: bool,
    /// Whether the target gets a module of its own.
    pub force_own_module: bool,
    /// The output id of the implementation.
    pub output_id: i64,
    /// The documentation of the implementation.
    pub documentation: Option<String>,
    /// Whether the document has entries about the target.
    pub target_in_document: bool,
    /// The owner archetype that those entries name, in kebab case.
    pub target_owner: Option<String>,
    /// The value archetype that those entries name, in kebab case.
    pub target_value: Option<String>,
}

/// What the document says of one node.
pub struct NodePlan {
    /// The node.
    pub node: NodeKey,
    /// Whether an entry defines the node or makes it anew.
    pub newly_defined: bool,
    /// The parent archetype's name, in kebab case.
    pub parent: Option<String>,
    /// The attribute archetypes' names, in kebab case.
    pub attributes: Vec<String>,
    /// The owner archetype's name, in kebab case.
    pub owner_archetype: Option<String>,
    /// The value archetype's name, in kebab case.
    pub value_archetype: Option<String>,
    /// What applies if the node is an implementation request.
    pub implement: Result<ImplementPlan, PlanError>,
}

/// A plan for the knowledge base.
pub struct ConceptPlan {
    /// The names of the nodes to create first, in kebab case, in order.
    pub defines: Vec<String>,
    /// What to record of each node, in the order in which the document first speaks of it.
    pub nodes: Vec<NodePlan>,
}

/// View of an [`ImplementPlan`].
pub open spec fn implement_view(p: ImplementPlan) -> ImplementPlanV {
    ImplementPlanV {
        target: p.target@,
        attribute_logic: p.attribute_logic,
        force_own_module: p.force_own_module,
        output_id: p.output_id as int,
        documentation: opt_view(p.documentation),
        target_in_document: p.target_in_document,
        target_owner: opt_view(p.target_owner),
        target_value: opt_view(p.target_value),
    }
}

/// View of an [`ImplementPlan`] or of the error in its place.
pub open spec fn implement_result_view(r: Result<ImplementPlan, PlanError>) -> Result<ImplementPlanV, PlanError> {
    match r {
        Ok(p) => Ok(implement_view(p)),
        Err(e) => Err(e),
    }
}

/// View of a [`NodePlan`].
pub open spec fn node_plan_view(p: NodePlan) -> NodePlanV {
    NodePlanV {
        node: p.node@,
        newly_defined: p.newly_defined,
        parent: opt_view(p.parent),
        attributes: strings_view(p.attributes@),
        owner_archetype: opt_view(p.owner_archetype),
        value_archetype: opt_view(p.value_archetype),
        implement: implement_result_view(p.implement),
    }
}

/// View of a [`ConceptPlan`] or of the error in its place.
pub open spec fn plan_view(r: Result<ConceptPlan, PlanError>) -> Result<ConceptPlanV, PlanError> {
    match r {
        Ok(p) => Ok(
            ConceptPlanV {
                defines: strings_view(p.defines@),
                nodes: p.nodes@.map_values(|n: NodePlan| node_plan_view(n)),
            },
        ),
        Err(e) => Err(e),
    }
}

/// The views of a sequence of node keys.
pub open spec fn keys_view(ks: Seq<NodeKey>) -> Seq<NodeKeyV> {
    ks.map_values(|k: NodeKey| k@)
}

/// A copy of a node key.
fn copy_key(k: &NodeKey) -> (res: NodeKey)
    ensures
        res@ == k@,
{
    match k {
        NodeKey::Named(n) => NodeKey::Named(n.clone()),
        NodeKey::Anonymous(i) => NodeKey::Anonymous(*i),
    }
}

/// Whether two node keys are the same.
fn same_key(a: &NodeKey, b: &NodeKey) -> (res: bool)
    ensures
        res == (a@ == b@),
{
    match (a, b) {
        (NodeKey::Named(x), NodeKey::Named(y)) => x.eq(y),
        (NodeKey::Anonymous(x), NodeKey::Anonymous(y)) => *x == *y,
        _ => false,
    }
}

/// The kebab-case form of an optional text value.
fn kebab_text(v: Option<&YamlValue>) -> (res: Option<String>)
    ensures
        opt_view(res) == kebab_of(text_of(opt_value_view(v))),
{
    match text_value(v) {
        Some(s) => Some(to_kebab_case(s.as_str())),
        None => None,
    }
}

/// The node that the entry at place `i` is about.
fn entry_key_of(e: &YamlValue, i: usize) -> (res: NodeKey)
    ensures
        res@ == entry_key(e@, i as int),
{
    match text_value(lookup_value(e, "define")) {
        Some(n) => NodeKey::Named(to_kebab_case(n.as_str())),
        None => match text_value(lookup_value(e, "name")) {
            Some(n) => NodeKey::Named(to_kebab_case(n.as_str())),
            None => NodeKey::Anonymous(i),
        },
    }
}

/// The nodes that the entries are about, in order.
fn entry_keys_of(es: &Vec<YamlValue>) -> (res: Vec<NodeKey>)
    ensures
        keys_view(res@) == entry_keys(values_view(es@)),
{
    let ghost ev = values_view(es@);
    let mut res: Vec<NodeKey> = Vec::new();
    let mut i: usize = 0;
    while i < es.len()
        invariant
            i <= es.len(),
            ev == values_view(es@),
            res@.len() == i,
            forall|j: int| 0 <= j < i ==> (#[trigger] res@[j])@ == entry_key(ev[j], j),
        decreases es.len() - i,
    {
        assert(ev[i as int] == es@[i as int]@);
        res.push(entry_key_of(&es[i], i));
        i = i + 1;
    }
    assert(keys_view(res@) =~= entry_keys(ev));
    res
}

/// The nodes in the order in which they are first spoken of.
fn distinct_keys_of(ks: &Vec<NodeKey>) -> (res: Vec<NodeKey>)
    ensures
        keys_view(res@) == distinct_keys(keys_view(ks@)),
{
    let ghost kv = keys_view(ks@);
    let mut res: Vec<NodeKey> = Vec::new();
    let mut i: usize = 0;
    assert(kv.take(0) =~= Seq::<NodeKeyV>::empty());
    while i < ks.len()
        invariant
            i <= ks.len(),
            kv == keys_view(ks@),
            keys_view(res@) == distinct_keys(kv.take(i as int)),
        decreases ks.len() - i,
    {
        let ghost d = keys_view(res@);
        assert(kv.take(i + 1).drop_last() =~= kv.take(i as int));
        assert(kv.take(i + 1).last() == ks@[i as int]@);
        let mut found = false;
        let mut j: usize = 0;
        while j < res.len()
            invariant
                j <= res.len(),
                d == keys_view(res@),
                i < ks.len(),
                found == exists|m: int| 0 <= m < j && d[m] == ks@[i as int]@,
            decreases res.len() - j,
        {
            if same_key(&res[j], &ks[i]) {
                found = true;
            }
            assert(d[j as int] == res@[j as int]@);
            j = j + 1;
        }
        if !found {
            res.push(copy_key(&ks[i]));
            assert(keys_view(res@) =~= d.push(ks@[i as int]@));
        }
        proof {
            if found {
                let m = choose|m: int| 0 <= m < j && d[m] == ks@[i as int]@;
                assert(d.contains(d[m]));
            } else {
                assert(!d.contains(ks@[i as int]@));
            }
        }
        i = i + 1;
    }
    assert(kv.take(ks.len() as int) =~= kv);
    res
}

/// The value of key `f` for node `k` in the merged entries about it.
fn field_of<'a>(es: &'a Vec<YamlValue>, keys: &Vec<NodeKey>, k: &NodeKey, f: &str) -> (res: Option<&'a YamlValue>)
    requires
        keys_view(keys@) == entry_keys(values_view(es@)),
    ensures
        opt_value_view(res) == field(values_view(es@), k@, f@),
{
    let ghost ev = values_view(es@);
    assert(keys_view(keys@).len() == keys@.len());
    let mut n: usize = es.len();
    while n > 0
        invariant
            n <= es.len(),
            keys@.len() == es@.len(),
            ev == values_view(es@),
            keys_view(keys@) == entry_keys(ev),
            field(ev, k@, f@) == field_upto(ev, n as int, k@, f@),
        decreases n,
    {
        assert(ev[n - 1] == es@[n - 1]@);
        assert(keys_view(keys@)[n - 1] == keys@[n - 1]@);
        if same_key(&keys[n - 1], k) {
            match lookup_value(&es[n - 1], f) {
                Some(v) => {
                    return Some(v);
                },
                None => {},
            }
        }
        n = n - 1;
    }
    None
}

/// Whether node `k` is newly defined by some entry about it.
fn newly_defined_in(es: &Vec<YamlValue>, keys: &Vec<NodeKey>, k: &NodeKey) -> (res: bool)
    requires
        keys_view(keys@) == entry_keys(values_view(es@)),
    ensures
        res == newly_defined(values_view(es@), k@),
{
    let ghost ev = values_view(es@);
    assert(keys_view(keys@).len() == keys@.len());
    let mut i: usize = 0;
    while i < es.len()
        invariant
            i <= es.len(),
            keys@.len() == es@.len(),
            ev == values_view(es@),
            keys_view(keys@) == entry_keys(ev),
            forall|j: int| 0 <= j < i ==> !(entry_key(ev[j], j) == k@ && marks_new(ev[j])),
        decreases es.len() - i,
    {
        assert(ev[i as int] == es@[i as int]@);
        assert(keys_view(keys@)[i as int] == keys@[i as int]@);
        if same_key(&keys[i], k) {
            let defines = text_value(lookup_value(&es[i], "define")).is_some();
            let named = text_value(lookup_value(&es[i], "name")).is_some();
            if defines || !named {
                assert(entry_key(ev[i as int], i as int) == k@ && marks_new(ev[i as int]));
                return true;
            }
        }
        i = i + 1;
    }
    false
}

/// What is wrong with an entry, if anything.
fn entry_error_of(e: &YamlValue) -> (res: Option<PlanError>)
    ensures
        res == entry_error(e@),
{
    match e {
        YamlValue::Mapping(ks, vs) => {
            assert(e@->Mapping_0 =~= values_view(ks@));
            let mut i: usize = 0;
            while i < ks.len()
                invariant
                    i <= ks.len(),
                    e@->Mapping_0 == values_view(ks@),
                    e@ is Mapping,
                    forall|j: int| 0 <= j < i ==> (#[trigger] ks@[j]) is Str,
                decreases ks.len() - i,
            {
                match &ks[i] {
                    YamlValue::Str(_) => {},
                    _ => {
                        proof {
                            let w = ks@[i as int];
                            assert(!(w is Str));
                            assert(!(w@ is Str));
                            assert(e@->Mapping_0[i as int] == w@);
                            assert(0 <= i < e@->Mapping_0.len() && !(e@->Mapping_0[i as int] is Str));
                            assert(e@ == YamlValueV::Mapping(e@->Mapping_0, e@->Mapping_1));
                            assert(entry_error(e@) == Some(PlanError::KeyNotText));
                        }
                        return Some(PlanError::KeyNotText);
                    },
                }
                i = i + 1;
            }
            assert forall|j: int| 0 <= j < values_view(ks@).len() implies values_view(ks@)[j] is Str by {
                assert(ks@[j] is Str);
            }
            None
        },
        _ => Some(PlanError::EntryNotAHash),
    }
}

/// The attributes that an `attributes` value lists.
fn attributes_in(v: Option<&YamlValue>) -> (res: Result<Vec<String>, PlanError>)
    ensures
        match res {
            Ok(a) => attributes_of(opt_value_view(v)) == Ok::<Seq<Seq<char>>, PlanError>(strings_view(a@)),
            Err(e) => attributes_of(opt_value_view(v)) == Err::<Seq<Seq<char>>, PlanError>(e),
        },
{
    match v {
        Some(YamlValue::List(items)) => {
            let ghost iv = values_view(items@);
            assert(v.unwrap()@ == YamlValueV::List(iv)) by {
                assert(v.unwrap()@->List_0 =~= iv);
            }
            let mut res: Vec<String> = Vec::new();
            let mut i: usize = 0;
            while i < items.len()
                invariant
                    i <= items.len(),
                    iv == values_view(items@),
                    opt_value_view(v) == Some(YamlValueV::List(iv)),
                    forall|j: int| 0 <= j < i ==> iv[j] is Str,
                    strings_view(res@) == iv.take(i as int).map_values(|x: YamlValueV| kebab_item(x)),
                decreases items.len() - i,
            {
                assert(iv[i as int] == items@[i as int]@);
                let ghost before = strings_view(res@);
                match &items[i] {
                    YamlValue::Str(s) => {
                        res.push(to_kebab_case(s.as_str()));
                        assert(iv.take(i + 1) =~= iv.take(i as int).push(iv[i as int]));
                        assert(kebab_item(iv[i as int]) == kebab_case(s@));
                        assert(strings_view(res@) =~= before.push(kebab_case(s@)));
                        assert(strings_view(res@) =~= iv.take(i + 1).map_values(|x: YamlValueV| kebab_item(x)));
                    },
                    _ => {
                        proof {
                            let w = items@[i as int];
                            assert(!(w is Str));
                            assert(!(w@ is Str));
                            assert(!(iv[i as int] is Str));
                            assert(!(forall|j: int| 0 <= j < iv.len() ==> iv[j] is Str));
                            assert(opt_value_view(v) == Some(YamlValueV::List(iv)));
                            assert(attributes_of(opt_value_view(v)) == Err::<Seq<Seq<char>>, PlanError>(PlanError::AttributeNotText));
                        }
                        return Err(PlanError::AttributeNotText);
                    },
                }
                i = i + 1;
            }
            assert(iv.take(i as int) =~= iv);
            Ok(res)
        },
        _ => {
            assert(strings_view(Seq::<String>::empty()) =~= Seq::<Seq<char>>::empty());
            Ok(Vec::new())
        },
    }
}

/// Whether some entry is about node `k`.
fn spoken_of(keys: &Vec<NodeKey>, k: &NodeKey) -> (res: bool)
    ensures
        res == keys_view(keys@).contains(k@),
{
    let mut i: usize = 0;
    while i < keys.len()
        invariant
            i <= keys.len(),
            forall|j: int| 0 <= j < i ==> keys_view(keys@)[j] != k@,
        decreases keys.len() - i,
    {
        assert(keys_view(keys@)[i as int] == keys@[i as int]@);
        if same_key(&keys[i], k) {
            return true;
        }
        i = i + 1;
    }
    false
}

/// What the document says of an implementation request for node `k`.
fn implement_in(es: &Vec<YamlValue>, keys: &Vec<NodeKey>, k: &NodeKey) -> (res: Result<ImplementPlan, PlanError>)
    requires
        keys_view(keys@) == entry_keys(values_view(es@)),
    ensures
        implement_result_view(res) == implement_of(values_view(es@), k@),
{
    let target = match kebab_text(field_of(es, keys, k, "target")) {
        Some(t) => t,
        None => {
            return Err(PlanError::MissingTarget);
        },
    };
    let output_id = match field_of(es, keys, k, "output_id") {
        Some(YamlValue::Int(i)) => *i,
        _ => {
            return Err(PlanError::MissingOutputId);
        },
    };
    let attribute_logic = match field_of(es, keys, k, "attribute_logic") {
        Some(YamlValue::Bool(b)) => *b,
        _ => false,
    };
    let force_own_module = match field_of(es, keys, k, "force_own_module") {
        Some(YamlValue::Bool(b)) => *b,
        _ => false,
    };
    let documentation = match field_of(es, keys, k, "documentation") {
        None => None,
        Some(YamlValue::Str(d)) => Some(d.clone()),
        Some(_) => {
            return Err(PlanError::DocumentationNotText);
        },
    };
    let tk = NodeKey::Named(target.clone());
    let target_in_document = spoken_of(keys, &tk);
    let target_owner = kebab_text(field_of(es, keys, &tk, "owner_archetype"));
    let target_value = kebab_text(field_of(es, keys, &tk, "value_archetype"));
    Ok(
        ImplementPlan {
            target,
            attribute_logic,
            force_own_module,
            output_id,
            documentation,
            target_in_document,
            target_owner,
            target_value,
        },
    )
}

/// What the document says of node `k`.
fn node_plan_of(es: &Vec<YamlValue>, keys: &Vec<NodeKey>, k: &NodeKey) -> (res: NodePlan)
    requires
        keys_view(keys@) == entry_keys(values_view(es@)),
    ensures
        node_plan_view(res) == node_plan(values_view(es@), k@),
{
    let attributes = match attributes_in(field_of(es, keys, k, "attributes")) {
        Ok(a) => a,
        Err(_) => Vec::new(),
    };
    proof {
        assert(strings_view(Seq::<String>::empty()) =~= Seq::<Seq<char>>::empty());
    }
    NodePlan {
        node: copy_key(k),
        newly_defined: newly_defined_in(es, keys, k),
        parent: kebab_text(field_of(es, keys, k, "parent")),
        attributes,
        owner_archetype: kebab_text(field_of(es, keys, k, "owner_archetype")),
        value_archetype: kebab_text(field_of(es, keys, k, "value_archetype")),
        implement: implement_in(es, keys, k),
    }
}

/// The plan for a list of entries.
fn plan_for_entries(es: &Vec<YamlValue>) -> (res: Result<ConceptPlan, PlanError>)
    ensures
        plan_view(res) == plan_entries(values_view(es@)),
{
    let ghost ev = values_view(es@);
    let mut i: usize = 0;
    while i < es.len()
        invariant
            i <= es.len(),
            ev == values_view(es@),
            first_entry_error(ev, i as int) is None,
        decreases es.len() - i,
    {
        assert(ev[i as int] == es@[i as int]@);
        match entry_error_of(&es[i]) {
            Some(e) => {
                proof {
                    assert(first_entry_error(ev, (i + 1) as int) == Some(e));
                    lemma_first_error_stays(ev, (i + 1) as int);
                }
                return Err(e);
            },
            None => {},
        }
        i = i + 1;
    }
    let all_keys = entry_keys_of(es);
    let keys = distinct_keys_of(&all_keys);
    let ghost kv = keys_view(keys@);
    let mut n: usize = 0;
    let mut nodes: Vec<NodePlan> = Vec::new();
    while n < keys.len()
        invariant
            n <= keys.len(),
            ev == values_view(es@),
            keys_view(all_keys@) == entry_keys(ev),
            kv == keys_view(keys@),
            kv == distinct_keys(entry_keys(ev)),
            first_entry_error(ev, ev.len() as int) is None,
            first_attribute_error(ev, kv, n as int) is None,
            nodes@.len() == n,
            forall|j: int| 0 <= j < n ==> node_plan_view(#[trigger] nodes@[j]) == node_plan(ev, kv[j]),
        decreases keys.len() - n,
    {
        assert(kv[n as int] == keys@[n as int]@);
        match attributes_in(field_of(es, &all_keys, &keys[n], "attributes")) {
            Err(e) => {
                proof {
                    assert(first_attribute_error(ev, kv, (n + 1) as int) == Some(e));
                    lemma_first_attribute_error_stays(ev, kv, (n + 1) as int);
                }
                return Err(e);
            },
            Ok(_) => {},
        }
        nodes.push(node_plan_of(es, &all_keys, &keys[n]));
        n = n + 1;
    }
    let mut defines: Vec<String> = Vec::new();
    let mut d: usize = 0;
    while d < es.len()
        invariant
            d <= es.len(),
            ev == values_view(es@),
            strings_view(defines@) == defines_upto(ev, d as int),
        decreases es.len() - d,
    {
        assert(ev[d as int] == es@[d as int]@);
        match text_value(lookup_value(&es[d], "define")) {
            Some(name) => {
                defines.push(to_kebab_case(name.as_str()));
                assert(strings_view(defines@) =~= defines_upto(ev, (d + 1) as int));
            },
            None => {},
        }
        d = d + 1;
    }
    let plan = ConceptPlan { defines, nodes };
    proof {
        let want = kv.map_values(|k: NodeKeyV| node_plan(ev, k));
        assert(plan.nodes@.map_values(|x: NodePlan| node_plan_view(x)) =~= want);
    }
    Ok(plan)
}

proof fn lemma_first_error_stays(es: Seq<YamlValueV>, n: int)
    requires
        0 < n <= es.len(),
        first_entry_error(es, n) is Some,
    ensures
        first_entry_error(es, es.len() as int) == first_entry_error(es, n),
    decreases es.len() - n,
{
    if n < es.len() {
        lemma_first_error_stays(es, n + 1);
    }
}

proof fn lemma_first_attribute_error_stays(es: Seq<YamlValueV>, keys: Seq<NodeKeyV>, n: int)
    requires
        0 < n <= keys.len(),
        first_attribute_error(es, keys, n) is Some,
    ensures
        first_attribute_error(es, keys, keys.len() as int) == first_attribute_error(es, keys, n),
    decreases keys.len() - n,
{
    if n < keys.len() {
        lemma_first_attribute_error_stays(es, keys, n + 1);
    }
}

/// The plan for loaded YAML documents: what the entries of the first document, a list, say of
/// the nodes they define or refer to.
pub fn plan_concepts(docs: &Vec<YamlValue>) -> (res: Result<ConceptPlan, PlanError>)
    ensures
        plan_view(res) == concept_plan(values_view(docs@)),
{
    if docs.len() == 0 {
        return Err(PlanError::NoDocument);
    }
    assert(values_view(docs@)[0] == docs@[0]@);
    match &docs[0] {
        YamlValue::List(es) => {
            assert(docs@[0]@ == YamlValueV::List(values_view(es@))) by {
                assert(docs@[0]@->List_0 =~= values_view(es@));
            }
            plan_for_entries(es)
        },
        _ => Err(PlanError::NotASequence),
    }
}

/// Parses a YAML text into a plan for the concepts it defines: the YAML is loaded, and its
/// first document is read as a list of concept entries.
pub fn parse_yaml_plan(yaml: &str) -> (res: Result<ConceptPlan, PlanError>)
    ensures
        plan_view(res) == yaml_plan(yaml@),
{
    match load_yaml(yaml) {
        Some(docs) => plan_concepts(&docs),
        None => Err(PlanError::NotYaml),
    }
}

/// Whether `order` lists the places of `ids` by increasing id, places with equal ids in
/// increasing order.
pub open spec fn ordered_by_ids(ids: Seq<u64>, order: Seq<usize>) -> bool {
    forall|a: int, b: int|
        #![trigger order[a], order[b]]
        0 <= a < b < order.len() ==> ids[order[a] as int] < ids[order[b] as int] || (ids[order[a] as int]
            == ids[order[b] as int] && order[a] < order[b])
}

/// The order in which the nodes of a plan are recorded: the places of their knowledge base ids
/// from the smallest id up, each place once.
pub fn order_by_ids(ids: &Vec<u64>) -> (order: Vec<usize>)
    ensures
        order@.len() == ids@.len(),
        order@.no_duplicates(),
        forall|q: int| 0 <= q < order@.len() ==> #[trigger] order@[q] < ids@.len(),
        ordered_by_ids(ids@, order@),
{
    let mut order: Vec<usize> = Vec::new();
    let mut j: usize = 0;
    while j < ids.len()
        invariant
            j <= ids.len(),
            order@.len() == j,
            order@.no_duplicates(),
            forall|q: int| 0 <= q < order@.len() ==> #[trigger] order@[q] < j,
            ordered_by_ids(ids@, order@),
        decreases ids.len() - j,
    {
        let mut p: usize = 0;
        while p < order.len() && ids[order[p]] <= ids[j]
            invariant
                p <= order@.len() == j < ids.len(),
                forall|q: int| 0 <= q < order@.len() ==> #[trigger] order@[q] < j,
                forall|q: int| 0 <= q < p ==> ids@[#[trigger] order@[q] as int] <= ids@[j as int],
            decreases order.len() - p,
        {
            p = p + 1;
        }
        let ghost old_order = order@;
        order.insert(p, j);
        proof {
            assert(order@ == old_order.take(p as int).push(j) + old_order.skip(p as int));
            assert forall|q: int| 0 <= q < order@.len() implies #[trigger] order@[q] < j + 1 by {
                if q > p {
                    assert(order@[q] == old_order[q - 1]);
                }
            }
            assert forall|a: int, b: int| 0 <= a < b < order@.len() implies order@[a] != order@[b] by {
                if a < p && b < p {
                    assert(order@[a] == old_order[a] && order@[b] == old_order[b]);
                } else if a < p && b == p {
                    assert(order@[a] == old_order[a]);
                } else if a < p {
                    assert(order@[a] == old_order[a] && order@[b] == old_order[b - 1]);
                } else if a == p {
                    assert(order@[b] == old_order[b - 1]);
                } else {
                    assert(order@[a] == old_order[a - 1] && order@[b] == old_order[b - 1]);
                }
            }
            assert forall|a: int, b: int|
                #![trigger order@[a], order@[b]]
                0 <= a < b < order@.len() implies ids@[order@[a] as int] < ids@[order@[b] as int] || (
                ids@[order@[a] as int] == ids@[order@[b] as int] && order@[a] < order@[b]) by {
                if a < p && b < p {
                    assert(order@[a] == old_order[a] && order@[b] == old_order[b]);
                } else if a < p && b == p {
                    assert(order@[a] == old_order[a]);
                    assert(ids@[old_order[a] as int] <= ids@[j as int]);
                } else if a < p {
                    assert(order@[a] == old_order[a] && order@[b] == old_order[b - 1]);
                } else if a == p {
                    assert(order@[b] == old_order[b - 1]);
                    assert(ids@[old_order[p as int] as int] > ids@[j as int]);
                    if b - 1 > p {
                        assert(ids@[old_order[p as int] as int] <= ids@[old_order[b - 1] as int]);
                    }
                } else {
                    assert(order@[a] == old_order[a - 1] && order@[b] == old_order[b - 1]);
                }
            }
        }
        j = j + 1;
    }
    order
}

/// Extracts the YAML of a Markdown document and parses it into a plan for the concepts it
/// defines.
pub fn parse_md_plan(markdown: &str) -> (res: Result<ConceptPlan, PlanError>)
    ensures
        plan_view(res) == yaml_plan(yaml_of_events(markdown_events(markdown@))),
{
    let yaml = extract_yaml(markdown);
    parse_yaml_plan(yaml.as_str())
}

// ---------------------------------------------------------------------------------------------
// Merged entries
// ---------------------------------------------------------------------------------------------

/// The nodes in order of first mention are the nodes that the entries are about.
proof fn lemma_distinct_keys_contains(ks: Seq<NodeKeyV>)
    ensures
        forall|k: NodeKeyV| #[trigger] distinct_keys(ks).contains(k) <==> ks.contains(k),
    decreases ks.len(),
{
    if ks.len() > 0 {
        let ks0 = ks.drop_last();
        lemma_distinct_keys_contains(ks0);
        let d0 = distinct_keys(ks0);
        assert forall|k: NodeKeyV| #[trigger] distinct_keys(ks).contains(k) <==> ks.contains(k) by {
            if ks.contains(k) {
                let i = choose|i: int| 0 <= i < ks.len() && ks[i] == k;
                if i < ks.len() - 1 {
                    assert(ks0[i] == k);
                    assert(d0.contains(k));
                    if !d0.contains(ks.last()) {
                        let j = choose|j: int| 0 <= j < d0.len() && d0[j] == k;
                        assert(d0.push(ks.last())[j] == k);
                    }
                } else if !d0.contains(ks.last()) {
                    assert(d0.push(ks.last())[d0.len() as int] == k);
                }
            }
            if distinct_keys(ks).contains(k) {
                let j = choose|j: int| 0 <= j < distinct_keys(ks).len() && distinct_keys(ks)[j] == k;
                if d0.contains(ks.last()) {
                    assert(d0.contains(k));
                } else if j < d0.len() {
                    assert(d0[j] == k);
                    assert(d0.contains(k));
                } else {
                    assert(k == ks.last());
                }
                if d0.contains(k) {
                    let i = choose|i: int| 0 <= i < ks0.len() && ks0[i] == k;
                    assert(ks[i] == k);
                } else {
                    assert(ks[ks.len() - 1] == k);
                }
            }
        }
    }
}

/// A node has a value for a key only where some entry is about the node.
proof fn lemma_field_upto_mentioned(es: Seq<YamlValueV>, n: int, k: NodeKeyV, f: Seq<char>)
    requires
        field_upto(es, n, k, f) is Some,
    ensures
        entry_keys(es).contains(k),
    decreases n,
{
    if entry_key(es[n - 1], n - 1) == k && lookup(es[n - 1], f) is Some {
        assert(entry_keys(es)[n - 1] == k);
    } else {
        lemma_field_upto_mentioned(es, n - 1, k, f);
    }
}

/// The names that the first `n` entries define are the kebab-case forms of their `define`
/// texts.
proof fn lemma_defines_upto_contains(es: Seq<YamlValueV>, n: int, d: Seq<char>)
    requires
        0 <= n <= es.len(),
    ensures
        defines_upto(es, n).contains(d) <==> exists|i: int|
            0 <= i < n && #[trigger] text_of(lookup(es[i], "define"@)) is Some && kebab_case(
                text_of(lookup(es[i], "define"@))->Some_0,
            ) == d,
    decreases n,
{
    if n > 0 {
        lemma_defines_upto_contains(es, n - 1, d);
        let d0 = defines_upto(es, n - 1);
        match text_of(lookup(es[n - 1], "define"@)) {
            Some(t) => {
                assert(defines_upto(es, n) == d0.push(kebab_case(t)));
                if defines_upto(es, n).contains(d) {
                    let j = choose|j: int| 0 <= j < d0.len() + 1 && d0.push(kebab_case(t))[j] == d;
                    if j < d0.len() {
                        assert(d0[j] == d);
                        assert(d0.contains(d));
                    } else {
                        assert(text_of(lookup(es[n - 1], "define"@)) is Some);
                    }
                }
                if exists|i: int|
                    0 <= i < n && #[trigger] text_of(lookup(es[i], "define"@)) is Some && kebab_case(
                        text_of(lookup(es[i], "define"@))->Some_0,
                    ) == d {
                    let i = choose|i: int|
                        0 <= i < n && #[trigger] text_of(lookup(es[i], "define"@)) is Some && kebab_case(
                            text_of(lookup(es[i], "define"@))->Some_0,
                        ) == d;
                    if i < n - 1 {
                        assert(d0.contains(d));
                        let j = choose|j: int| 0 <= j < d0.len() && d0[j] == d;
                        assert(d0.push(kebab_case(t))[j] == d);
                    } else {
                        assert(d0.push(kebab_case(t))[d0.len() as int] == d);
                    }
                }
            },
            None => {
                assert(defines_upto(es, n) == d0);
            },
        }
    } else {
        assert(defines_upto(es, n) == Seq::<Seq<char>>::empty());
    }
}

/// A named node is newly defined exactly when an entry defines it.
proof fn lemma_newly_defined_named(es: Seq<YamlValueV>, d: Seq<char>)
    ensures
        newly_defined(es, NodeKeyV::Named(d)) <==> defines_upto(es, es.len() as int).contains(d),
{
    lemma_defines_upto_contains(es, es.len() as int, d);
    if newly_defined(es, NodeKeyV::Named(d)) {
        let i = choose|i: int|
            0 <= i < es.len() && entry_key(es[i], i) == NodeKeyV::Named(d) && marks_new(es[i]);
        assert(text_of(lookup(es[i], "define"@)) is Some);
    }
    if defines_upto(es, es.len() as int).contains(d) {
        let i = choose|i: int|
            0 <= i < es.len() && #[trigger] text_of(lookup(es[i], "define"@)) is Some && kebab_case(
                text_of(lookup(es[i], "define"@))->Some_0,
            ) == d;
        assert(entry_key(es[i], i) == NodeKeyV::Named(d) && marks_new(es[i]));
    }
}

/// A node without a name that an entry is about is new.
proof fn lemma_newly_defined_anonymous(es: Seq<YamlValueV>, j: int)
    requires
        entry_keys(es).contains(NodeKeyV::Anonymous(j)),
    ensures
        newly_defined(es, NodeKeyV::Anonymous(j)),
{
    let i = choose|i: int| 0 <= i < entry_keys(es).len() && entry_keys(es)[i] == NodeKeyV::Anonymous(j);
    assert(entry_key(es[i], i) == NodeKeyV::Anonymous(j));
    assert(marks_new(es[i]));
}

/// No attribute list of the first `n` nodes is faulty exactly when `first_attribute_error`
/// finds none.
proof fn lemma_first_attribute_error_none(es: Seq<YamlValueV>, keys: Seq<NodeKeyV>, n: int)
    requires
        0 <= n <= keys.len(),
    ensures
        first_attribute_error(es, keys, n) is None <==> forall|i: int|
            0 <= i < n ==> #[trigger] attributes_of(field(es, keys[i], "attributes"@)) is Ok,
    decreases n,
{
    if n > 0 {
        lemma_first_attribute_error_none(es, keys, n - 1);
    }
}

/// Whether `m` matches the nodes that the entries `es1` are about with those that `es2` are
/// about: a named node goes to the node with the same name, a node without a name to one
/// without a name, every node of `es1` to a node of `es2`, and every node of `es2` is matched.
pub open spec fn nodes_matched(
    es1: Seq<YamlValueV>,
    es2: Seq<YamlValueV>,
    m: spec_fn(NodeKeyV) -> NodeKeyV,
) -> bool {
    &&& forall|n: Seq<char>| #[trigger] m(NodeKeyV::Named(n)) == NodeKeyV::Named(n)
    &&& forall|i: int| #[trigger] m(NodeKeyV::Anonymous(i)) is Anonymous
    &&& forall|k: NodeKeyV| #[trigger] entry_keys(es1).contains(k) ==> entry_keys(es2).contains(m(k))
    &&& forall|k2: NodeKeyV|
        #[trigger] entry_keys(es2).contains(k2) ==> exists|k: NodeKeyV|
            #[trigger] entry_keys(es1).contains(k) && m(k) == k2
}

/// Whether a key is one that the plan reads of a node: not `define` or `name`, which only say
/// which node an entry is about, nor keys that the plan ignores.
pub open spec fn plan_key(f: Seq<char>) -> bool {
    ||| f == "parent"@
    ||| f == "attributes"@
    ||| f == "owner_archetype"@
    ||| f == "value_archetype"@
    ||| f == "target"@
    ||| f == "output_id"@
    ||| f == "attribute_logic"@
    ||| f == "force_own_module"@
    ||| f == "documentation"@
}

/// Whether the entries about each node of `es1`, once merged, give the same value for every key
/// that the plan reads as those about the matching node of `es2`.
pub open spec fn same_merged_fields(
    es1: Seq<YamlValueV>,
    es2: Seq<YamlValueV>,
    m: spec_fn(NodeKeyV) -> NodeKeyV,
) -> bool {
    forall|k: NodeKeyV, f: Seq<char>|
        entry_keys(es1).contains(k) && plan_key(f) ==> #[trigger] field(es1, k, f) == field(es2, m(k), f)
}

/// What is planned for a node, recorded for the node that `m` matches it with.
pub open spec fn renamed_plan(p: NodePlanV, m: spec_fn(NodeKeyV) -> NodeKeyV) -> NodePlanV {
    NodePlanV { node: m(p.node), ..p }
}

/// A named node that the entries of `es1` are not about has no values in `es2` either.
proof fn lemma_unmentioned_named(
    es1: Seq<YamlValueV>,
    es2: Seq<YamlValueV>,
    m: spec_fn(NodeKeyV) -> NodeKeyV,
    t: Seq<char>,
    f: Seq<char>,
)
    requires
        nodes_matched(es1, es2, m),
        same_merged_fields(es1, es2, m),
        plan_key(f),
    ensures
        entry_keys(es1).contains(NodeKeyV::Named(t)) == entry_keys(es2).contains(NodeKeyV::Named(t)),
        field(es1, NodeKeyV::Named(t), f) == field(es2, NodeKeyV::Named(t), f),
{
    let tk = NodeKeyV::Named(t);
    assert(m(tk) == tk);
    if entry_keys(es2).contains(tk) {
        let k = choose|k: NodeKeyV| #[trigger] entry_keys(es1).contains(k) && m(k) == tk;
        match k {
            NodeKeyV::Named(n) => {
                assert(m(NodeKeyV::Named(n)) == NodeKeyV::Named(n));
            },
            NodeKeyV::Anonymous(i) => {
                assert(m(NodeKeyV::Anonymous(i)) is Anonymous);
            },
        }
    }
    if entry_keys(es1).contains(tk) {
        assert(field(es1, tk, f) == field(es2, m(tk), f));
    } else {
        if field(es1, tk, f) is Some {
            lemma_field_upto_mentioned(es1, es1.len() as int, tk, f);
        }
        if field(es2, tk, f) is Some {
            lemma_field_upto_mentioned(es2, es2.len() as int, tk, f);
        }
    }
}

/// The plan for a node depends only on the merged entries about it and about its target, and
/// on which names are defined.
proof fn lemma_node_plan_matched(
    es1: Seq<YamlValueV>,
    es2: Seq<YamlValueV>,
    m: spec_fn(NodeKeyV) -> NodeKeyV,
    k: NodeKeyV,
)
    requires
        nodes_matched(es1, es2, m),
        same_merged_fields(es1, es2, m),
        defines_upto(es1, es1.len() as int) == defines_upto(es2, es2.len() as int),
        entry_keys(es1).contains(k),
    ensures
        node_plan(es2, m(k)) == renamed_plan(node_plan(es1, k), m),
{
    let k2 = m(k);
    assert(entry_keys(es2).contains(k2));
    match k {
        NodeKeyV::Named(n) => {
            assert(m(NodeKeyV::Named(n)) == NodeKeyV::Named(n));
            lemma_newly_defined_named(es1, n);
            lemma_newly_defined_named(es2, n);
        },
        NodeKeyV::Anonymous(i) => {
            assert(m(NodeKeyV::Anonymous(i)) is Anonymous);
            lemma_newly_defined_anonymous(es1, i);
            lemma_newly_defined_anonymous(es2, k2->Anonymous_0);
        },
    }
    assert(field(es1, k, "parent"@) == field(es2, k2, "parent"@));
    assert(field(es1, k, "attributes"@) == field(es2, k2, "attributes"@));
    assert(field(es1, k, "owner_archetype"@) == field(es2, k2, "owner_archetype"@));
    assert(field(es1, k, "value_archetype"@) == field(es2, k2, "value_archetype"@));
    assert(field(es1, k, "target"@) == field(es2, k2, "target"@));
    assert(field(es1, k, "output_id"@) == field(es2, k2, "output_id"@));
    assert(field(es1, k, "attribute_logic"@) == field(es2, k2, "attribute_logic"@));
    assert(field(es1, k, "force_own_module"@) == field(es2, k2, "force_own_module"@));
    assert(field(es1, k, "documentation"@) == field(es2, k2, "documentation"@));
    match kebab_of(text_of(field(es1, k, "target"@))) {
        Some(t) => {
            lemma_unmentioned_named(es1, es2, m, t, "owner_archetype"@);
            lemma_unmentioned_named(es1, es2, m, t, "value_archetype"@);
        },
        None => {},
    }
    assert(implement_of(es1, k) == implement_of(es2, k2));
}

/// The plan for a list of entries depends only on which names it defines, in which order, and
/// on what the entries about each node say once merged: a definition may be split over several
/// entries, by `define` and `name`, in any order, and lists whose entries merge to the same
/// values for each node give the same plan, up to the order in which the nodes are listed and
/// to which new nodes without a name stand for each other. Either both plans can be made or
/// neither can.
pub proof fn lemma_plan_from_merged_entries(
    es1: Seq<YamlValueV>,
    es2: Seq<YamlValueV>,
    m: spec_fn(NodeKeyV) -> NodeKeyV,
)
    requires
        first_entry_error(es1, es1.len() as int) is None,
        first_entry_error(es2, es2.len() as int) is None,
        nodes_matched(es1, es2, m),
        same_merged_fields(es1, es2, m),
        defines_upto(es1, es1.len() as int) == defines_upto(es2, es2.len() as int),
    ensures
        plan_entries(es1) is Ok <==> plan_entries(es2) is Ok,
        plan_entries(es1) is Ok ==> ({
            let p1 = plan_entries(es1)->Ok_0;
            let p2 = plan_entries(es2)->Ok_0;
            &&& p1.defines == p2.defines
            &&& forall|i: int|
                0 <= i < p1.nodes.len() ==> p2.nodes.contains(renamed_plan(#[trigger] p1.nodes[i], m))
            &&& forall|j: int|
                0 <= j < p2.nodes.len() ==> exists|i: int|
                    0 <= i < p1.nodes.len() && #[trigger] p2.nodes[j] == renamed_plan(
                        #[trigger] p1.nodes[i],
                        m,
                    )
        }),
{
    let keys1 = distinct_keys(entry_keys(es1));
    let keys2 = distinct_keys(entry_keys(es2));
    lemma_distinct_keys_contains(entry_keys(es1));
    lemma_distinct_keys_contains(entry_keys(es2));
    lemma_first_attribute_error_none(es1, keys1, keys1.len() as int);
    lemma_first_attribute_error_none(es2, keys2, keys2.len() as int);
    let attrs = "attributes"@;
    // A faulty attribute list of a node in one list is one of its match in the other.
    assert((forall|i: int| 0 <= i < keys1.len() ==> #[trigger] attributes_of(field(es1, keys1[i], attrs)) is Ok)
        <==> (forall|j: int| 0 <= j < keys2.len() ==> #[trigger] attributes_of(field(es2, keys2[j], attrs)) is Ok)) by {
        if forall|i: int| 0 <= i < keys1.len() ==> #[trigger] attributes_of(field(es1, keys1[i], attrs)) is Ok {
            assert forall|j: int| 0 <= j < keys2.len() implies #[trigger] attributes_of(field(es2, keys2[j], attrs)) is Ok by {
                assert(keys2.contains(keys2[j]));
                let k = choose|k: NodeKeyV| #[trigger] entry_keys(es1).contains(k) && m(k) == keys2[j];
                assert(keys1.contains(k));
                let i = choose|i: int| 0 <= i < keys1.len() && keys1[i] == k;
                assert(attributes_of(field(es1, keys1[i], attrs)) is Ok);
                assert(field(es1, k, attrs) == field(es2, m(k), attrs));
            }
        }
        if forall|j: int| 0 <= j < keys2.len() ==> #[trigger] attributes_of(field(es2, keys2[j], attrs)) is Ok {
            assert forall|i: int| 0 <= i < keys1.len() implies #[trigger] attributes_of(field(es1, keys1[i], attrs)) is Ok by {
                let k = keys1[i];
                assert(keys1.contains(k));
                assert(entry_keys(es2).contains(m(k)));
                assert(keys2.contains(m(k)));
                let j = choose|j: int| 0 <= j < keys2.len() && keys2[j] == m(k);
                assert(attributes_of(field(es2, keys2[j], attrs)) is Ok);
                assert(field(es1, k, attrs) == field(es2, m(k), attrs));
            }
        }
    }
    if plan_entries(es1) is Ok {
        let p1 = plan_entries(es1)->Ok_0;
        let p2 = plan_entries(es2)->Ok_0;
        assert(p1.nodes == keys1.map_values(|k: NodeKeyV| node_plan(es1, k)));
        assert(p2.nodes == keys2.map_values(|k: NodeKeyV| node_plan(es2, k)));
        assert forall|i: int| 0 <= i < p1.nodes.len() implies p2.nodes.contains(
            renamed_plan(#[trigger] p1.nodes[i], m),
        ) by {
            let k = keys1[i];
            assert(keys1.contains(k));
            lemma_node_plan_matched(es1, es2, m, k);
            assert(keys2.contains(m(k)));
            let j = choose|j: int| 0 <= j < keys2.len() && keys2[j] == m(k);
            assert(p2.nodes[j] == node_plan(es2, m(k)));
        }
        assert forall|j: int| 0 <= j < p2.nodes.len() implies exists|i: int|
            0 <= i < p1.nodes.len() && #[trigger] p2.nodes[j] == renamed_plan(
                #[trigger] p1.nodes[i],
                m,
            ) by {
            assert(keys2.contains(keys2[j]));
            let k = choose|k: NodeKeyV| #[trigger] entry_keys(es1).contains(k) && m(k) == keys2[j];
            assert(keys1.contains(k));
            let i = choose|i: int| 0 <= i < keys1.len() && keys1[i] == k;
            lemma_node_plan_matched(es1, es2, m, k);
            assert(p1.nodes[i] == node_plan(es1, k));
            assert(p2.nodes[j] == renamed_plan(p1.nodes[i], m));
        }
    }
}

} // verus!
