//! Converting concept names between naming conventions.
use vstd::prelude::*;
use crate::text::chars_of;

verus! {

/// What `heck::SnakeCase::to_snake_case` returns for a text: its words in lowercase, joined by
/// underscores.
pub uninterp spec fn snake_case(s: Seq<char>) -> Seq<char>;

/// What `heck::CamelCase::to_camel_case` returns for a text: its words capitalized and joined.
pub uninterp spec fn camel_case(s: Seq<char>) -> Seq<char>;

/// What `heck::KebabCase::to_kebab_case` returns for a text: its words in lowercase, joined by
/// hyphens.
pub uninterp spec fn kebab_case(s: Seq<char>) -> Seq<char>;

/// Calls `heck::KebabCase::to_kebab_case`; the result is named, not stated: heck's word
/// splitting decides it.
#[verifier::external_body]
pub(crate) fn to_kebab_case(s: &str) -> (res: String)
    ensures
        res@ == kebab_case(s@),
{
    heck::KebabCase::to_kebab_case(s)
}

/// Calls `heck::SnakeCase::to_snake_case`; the result is named, not stated: heck's word
/// splitting decides it.
#[verifier::external_body]
pub(crate) fn to_snake_case(s: &str) -> (res: String)
    ensures
        res@ == snake_case(s@),
{
    heck::SnakeCase::to_snake_case(s)
}

/// Calls `heck::CamelCase::to_camel_case`; the result is named, not stated: heck's word
/// splitting decides it.
#[verifier::external_body]
pub(crate) fn to_camel_case(s: &str) -> (res: String)
    ensures
        res@ == camel_case(s@),
{
    heck::CamelCase::to_camel_case(s)
}

/// A character with ASCII uppercase letters made lowercase.
pub open spec fn ascii_lower_char(c: char) -> char {
    if 'A' <= c && c <= 'Z' {
        (((c as u32) + 32) as u8) as char
    } else {
        c
    }
}

/// A text with ASCII uppercase letters made lowercase, as `str::to_ascii_lowercase` does.
pub open spec fn ascii_lowercase(s: Seq<char>) -> Seq<char> {
    s.map_values(|c: char| ascii_lower_char(c))
}

/// A text with ASCII uppercase letters made lowercase.
pub fn to_ascii_lowercase(s: &str) -> (res: String)
    ensures
        res@ == ascii_lowercase(s@),
{
    let v = chars_of(s);
    let mut res = String::new();
    let mut i: usize = 0;
    while i < v.len()
        invariant
            i <= v.len(),
            v@ == s@,
            res@ == ascii_lowercase(v@.take(i as int)),
        decreases v.len() - i,
    {
        let c = v[i];
        let l = if 'A' <= c && c <= 'Z' {
            let b = ((c as u32) + 32) as u8;
            b as char
        } else {
            c
        };
        assert(l == ascii_lower_char(c));
        res.push(l);
        i = i + 1;
        assert(res@ =~= ascii_lowercase(v@.take(i as int)));
    }
    assert(v@.take(v.len() as int) == v@);
    res
}

} // verus!
