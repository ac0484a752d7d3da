//! What a release does to a project's version and to its repository.
use vstd::prelude::*;
use crate::text::{chars_of, contains_char, split_char, string_from_range};

verus! {

/// The version a release gets: `None` when the version has no pre-release tag, else the
/// version without its tag (what precedes the first `-`).
pub open spec fn release_version_of(version: Seq<char>) -> Option<Seq<char>> {
    if contains_char(version, '-') {
        Some(split_char(version, '-')[0])
    } else {
        None
    }
}

/// The first piece of a text split at a character is what precedes its first occurrence; there
/// is a second piece exactly when the character occurs.
proof fn lemma_split_first(s: Seq<char>, c: char, k: int)
    requires
        0 <= k <= s.len(),
        forall|x: int| 0 <= x < k ==> s[x] != c,
        k < s.len() ==> s[k] == c,
    ensures
        split_char(s, c).len() >= 1,
        split_char(s, c)[0] == s.take(k),
        k == s.len() ==> split_char(s, c).len() == 1,
        k < s.len() ==> split_char(s, c).len() >= 2,
    decreases s.len(),
{
    if s.len() > 0 {
        let t = s.drop_last();
        if k < t.len() {
            lemma_split_first(t, c, k);
            assert(s.take(k) =~= t.take(k));
        } else {
            lemma_split_first(t, c, t.len() as int);
            assert(t.take(t.len() as int) =~= t);
            if k == t.len() {
                assert(s.take(k) =~= t);
            } else {
                assert(s.take(k) =~= s);
                assert(t.push(s.last()) =~= s);
            }
        }
    } else {
        assert(s.take(k) =~= Seq::<char>::empty());
    }
}

/// The version a release gets, with any pre-release tag (such as `-beta`) removed; `None` when
/// the version has none and stays as it is.
pub fn release_version(version: &str) -> (res: Option<String>)
    ensures
        match res {
            Some(r) => release_version_of(version@) == Some(r@),
            None => release_version_of(version@) is None,
        },
{
    let v = chars_of(version);
    let mut k: usize = 0;
    while k < v.len() && v[k] != '-'
        invariant
            k <= v.len(),
            v@ == version@,
            forall|x: int| 0 <= x < k ==> v@[x] != '-',
        decreases v.len() - k,
    {
        k = k + 1;
    }
    proof {
        lemma_split_first(v@, '-', k as int);
    }
    if k == v.len() {
        None
    } else {
        assert(v@[k as int] == '-');
        let r = string_from_range(&v, 0, k);
        assert(r@ =~= v@.take(k as int));
        Some(r)
    }
}

/// The branch that a release of `version` is prepared on.
pub fn release_branch(version: &str) -> (res: String)
    ensures
        res@ == "release/v"@ + version@,
{
    let mut b = "release/v".to_owned();
    b.append(version);
    b
}

/// The message of the commit that creates a release of `version`.
pub fn release_commit_message(version: &str) -> (res: String)
    ensures
        res@ == "Creating release v"@ + version@,
{
    let mut m = "Creating release v".to_owned();
    m.append(version);
    m
}

} // verus!
