//! Grouping, sorting and printing `use` declarations.
use vstd::prelude::*;
use crate::order::{
    stable_order, sort_by_keys, stable_sort_positions, keys_view, dedup, arrange_strings,
    chars_of_all, lex_lt, lemma_sort_by_keys_is_stable_sort, lemma_filter_pairwise,
    lemma_filter_count, lemma_dedup_sorted,
};
use crate::text::{
    starts_with, contains_seq, join, trim, strings_view, chars_of, has_prefix, has_substring,
    join_strings, trim_str, trim_start,
};

verus! {

// ---------------------------------------------------------------------------------------------
// Names for what `char`'s Unicode case functions return
// ---------------------------------------------------------------------------------------------

/// What `char::is_lowercase` says of a character outside ASCII: whether it has the Unicode
/// `Lowercase` property.
pub uninterp spec fn char_is_lowercase(c: char) -> bool;

/// What `char::to_uppercase` yields for a character outside ASCII, collected into text.
pub uninterp spec fn char_to_uppercase(c: char) -> Seq<char>;

/// What `char::to_lowercase` yields for a character outside ASCII, collected into text.
pub uninterp spec fn char_to_lowercase(c: char) -> Seq<char>;

/// Whether a character is ASCII.
pub open spec fn is_ascii_char(c: char) -> bool {
    (c as u32) < 128
}

/// Whether a character is an ASCII lowercase letter.
pub open spec fn is_ascii_lower(c: char) -> bool {
    'a' <= c && c <= 'z'
}

/// Whether a character is an ASCII uppercase letter.
pub open spec fn is_ascii_upper(c: char) -> bool {
    'A' <= c && c <= 'Z'
}

/// Whether a character is lowercase: among ASCII characters exactly the letters `a` to `z`,
/// elsewhere as the Unicode tables say.
pub open spec fn lowercase_char(c: char) -> bool {
    if is_ascii_char(c) {
        is_ascii_lower(c)
    } else {
        char_is_lowercase(c)
    }
}

/// The uppercase form of a character: an ASCII lowercase letter becomes its uppercase letter,
/// any other ASCII character stays as it is, others go by the Unicode tables.
pub open spec fn uppercase_text(c: char) -> Seq<char> {
    if is_ascii_char(c) {
        seq![if is_ascii_lower(c) { ((c as u32 - 32) as u8) as char } else { c }]
    } else {
        char_to_uppercase(c)
    }
}

/// The lowercase form of a character: an ASCII uppercase letter becomes its lowercase letter,
/// any other ASCII character stays as it is, others go by the Unicode tables.
pub open spec fn lowercase_text(c: char) -> Seq<char> {
    if is_ascii_char(c) {
        seq![if is_ascii_upper(c) { ((c as u32 + 32) as u8) as char } else { c }]
    } else {
        char_to_lowercase(c)
    }
}

/// Calls `char::is_lowercase`. On ASCII its result is stated (exactly the letters `a` to `z`
/// have the `Lowercase` property); elsewhere it is named, not stated: the Unicode tables
/// decide it.
#[verifier::external_body]
fn is_lowercase(c: char) -> (r: bool)
    ensures
        r == if (c as u32) < 128 {
            'a' <= c && c <= 'z'
        } else {
            char_is_lowercase(c)
        },
{
    c.is_lowercase()
}

/// Calls `char::to_uppercase` and collects the characters it yields. On ASCII its result is
/// stated (a lowercase letter maps to its uppercase letter, any other character to itself);
/// elsewhere it is named, not stated: the Unicode tables decide it.
#[verifier::external_body]
fn to_uppercase(c: char) -> (r: String)
    ensures
        r@ == if (c as u32) < 128 {
            seq![if 'a' <= c && c <= 'z' { ((c as u32 - 32) as u8) as char } else { c }]
        } else {
            char_to_uppercase(c)
        },
{
    c.to_uppercase().collect::<String>()
}

/// Calls `char::to_lowercase` and collects the characters it yields. On ASCII its result is
/// stated (an uppercase letter maps to its lowercase letter, any other character to itself);
/// elsewhere it is named, not stated: the Unicode tables decide it.
#[verifier::external_body]
fn to_lowercase(c: char) -> (r: String)
    ensures
        r@ == if (c as u32) < 128 {
            seq![if 'A' <= c && c <= 'Z' { ((c as u32 + 32) as u8) as char } else { c }]
        } else {
            char_to_lowercase(c)
        },
{
    c.to_lowercase().collect::<String>()
}

// ---------------------------------------------------------------------------------------------
// Specifications
// ---------------------------------------------------------------------------------------------

/// The views of a sequence of string slices.
pub open spec fn strs_view(s: Seq<&str>) -> Seq<Seq<char>> {
    s.map_values(|x: &str| x@)
}

/// The pieces of `s` between occurrences of `::`, matched from the left without overlap, as
/// `str::split("::")` gives them.
pub open spec fn split_path(s: Seq<char>) -> Seq<Seq<char>>
    decreases s.len(),
{
    if s.len() >= 2 && s[0] == ':' && s[1] == ':' {
        seq![Seq::empty()] + split_path(s.skip(2))
    } else if s.len() == 0 {
        seq![Seq::empty()]
    } else {
        let r = split_path(s.drop_first());
        r.update(0, seq![s[0]] + r[0])
    }
}

/// The path separator `::`.
pub open spec fn path_sep() -> Seq<char> {
    seq![':', ':']
}

/// The last segment of an import path: the item that is imported.
pub open spec fn import_name(i: Seq<char>) -> Seq<char> {
    split_path(i).last()
}

/// The segments of an import path before its last one, joined again.
pub open spec fn import_parent(i: Seq<char>) -> Seq<char> {
    join(split_path(i).drop_last(), path_sep())
}

/// Whether a name starts with a lowercase character (a module or function, not a type).
pub open spec fn starts_lowercase(n: Seq<char>) -> bool {
    n.len() > 0 && lowercase_char(n[0])
}

/// The text with the case of each character inverted, lowercase ones made uppercase and all
/// others made lowercase.
pub open spec fn invert_case(s: Seq<char>) -> Seq<char>
    decreases s.len(),
{
    if s.len() == 0 {
        s
    } else {
        invert_case(s.drop_last()) + if lowercase_char(s.last()) {
            uppercase_text(s.last())
        } else {
            lowercase_text(s.last())
        }
    }
}

/// Import lines sorted stably by their case-inverted text, so that modules come before types.
pub open spec fn sort_import_lines(lines: Seq<Seq<char>>) -> Seq<Seq<char>> {
    sort_by_keys(lines, lines.map_values(|l: Seq<char>| invert_case(l)))
}

/// The prefix `super::`.
pub open spec fn super_prefix() -> Seq<char> {
    seq!['s', 'u', 'p', 'e', 'r', ':', ':']
}

/// Whether an import refers to the parent module.
pub open spec fn is_super(l: Seq<char>) -> bool {
    starts_with(l, super_prefix())
}

/// Imports sorted: those of the parent module first, each part sorted by `sort_import_lines`,
/// empty lines left out.
pub open spec fn sorted_imports(imports: Seq<Seq<char>>) -> Seq<Seq<char>> {
    (sort_import_lines(imports.filter(|l: Seq<char>| is_super(l))) + sort_import_lines(
        imports.filter(|l: Seq<char>| !is_super(l)),
    )).filter(|l: Seq<char>| l.len() > 0)
}

/// The first position in `groups` whose path is `p`, or the number of groups if none is.
pub open spec fn group_index(groups: Seq<(Seq<char>, Seq<Seq<char>>)>, p: Seq<char>) -> int
    decreases groups.len(),
{
    if groups.len() == 0 {
        0
    } else if groups[0].0 == p {
        0
    } else {
        1 + group_index(groups.drop_first(), p)
    }
}

/// Imports gathered by parent path, in the order in which each path first appears, each with
/// the names imported from it in their order. Empty imports are left out.
pub open spec fn import_groups(imports: Seq<Seq<char>>) -> Seq<(Seq<char>, Seq<Seq<char>>)>
    decreases imports.len(),
{
    if imports.len() == 0 {
        Seq::empty()
    } else if imports.last().len() == 0 {
        import_groups(imports.drop_last())
    } else {
        let g = import_groups(imports.drop_last());
        let p = import_parent(imports.last());
        let n = import_name(imports.last());
        let k = group_index(g, p);
        if k < g.len() {
            g.update(k, (p, g[k].1.push(n)))
        } else {
            g.push((p, seq![n]))
        }
    }
}

/// Names sorted in the order of `str`, with repeats removed.
pub open spec fn sorted_names(names: Seq<Seq<char>>) -> Seq<Seq<char>> {
    dedup(sort_by_keys(names, names))
}

/// The separator `, `.
pub open spec fn comma_sep() -> Seq<char> {
    seq![',', ' ']
}

/// One `use` path for all the names imported from `path`: lowercase names first, then the
/// others, each part sorted without repeats; braces are used when there is more than one name.
pub open spec fn group_line(path: Seq<char>, names: Seq<Seq<char>>) -> Seq<char> {
    let lower = sorted_names(names.filter(|n: Seq<char>| starts_lowercase(n)));
    let upper = sorted_names(names.filter(|n: Seq<char>| !starts_lowercase(n)));
    let joined = join(lower + upper, comma_sep());
    if contains_seq(joined, comma_sep()) {
        path + path_sep() + seq!['{'] + joined + seq!['}']
    } else {
        path + path_sep() + names[0]
    }
}

/// The imports grouped by parent path, one `use` path per group.
pub open spec fn grouped_imports(imports: Seq<Seq<char>>) -> Seq<Seq<char>> {
    import_groups(imports).map_values(|g: (Seq<char>, Seq<Seq<char>>)| group_line(g.0, g.1))
}

/// Each path written as `<keyword> <path>;` on a line of its own.
pub open spec fn use_lines(keyword: Seq<char>, paths: Seq<Seq<char>>) -> Seq<char>
    decreases paths.len(),
{
    if paths.len() == 0 {
        Seq::empty()
    } else {
        use_lines(keyword, paths.drop_last()) + keyword + seq![' '] + paths.last() + seq![';', '\n']
    }
}

/// The declarations that bring `imports` into scope, grouped and sorted, one per line, with
/// `keyword` (`use` or `pub use`) in front.
pub open spec fn declarations_text(keyword: Seq<char>, imports: Seq<Seq<char>>) -> Seq<char> {
    trim(use_lines(keyword, sorted_imports(grouped_imports(imports))))
}

/// The keyword `use`.
pub open spec fn use_kw() -> Seq<char> {
    seq!['u', 's', 'e']
}

/// The keywords `pub use`.
pub open spec fn pub_use_kw() -> Seq<char> {
    seq!['p', 'u', 'b', ' ', 'u', 's', 'e']
}

/// The `use` declarations for a list of imports.
pub open spec fn imports_text(imports: Seq<Seq<char>>) -> Seq<char> {
    declarations_text(use_kw(), imports)
}

/// The `pub use` declarations for a list of re-exports.
pub open spec fn re_exports_text(exports: Seq<Seq<char>>) -> Seq<char> {
    declarations_text(pub_use_kw(), exports)
}

// ---------------------------------------------------------------------------------------------
// Laws
// ---------------------------------------------------------------------------------------------

/// Whether import `a` may come before import `b` in sorted order: an import of the parent
/// module never follows another import, and within the same part case-inverted text never
/// decreases.
pub open spec fn import_precedes(a: Seq<char>, b: Seq<char>) -> bool {
    &&& is_super(b) ==> is_super(a)
    &&& is_super(a) == is_super(b) ==> !lex_lt(invert_case(b), invert_case(a))
}

/// Every element of a part sorted by `sort_import_lines` is in the part, and the part is in
/// order by case-inverted text.
pub(crate) proof fn lemma_sort_import_lines(part: Seq<Seq<char>>)
    ensures
        sort_import_lines(part).to_multiset() == part.to_multiset(),
        forall|q: int|
            0 <= q < sort_import_lines(part).len() ==> part.contains(
                #[trigger] sort_import_lines(part)[q],
            ),
        forall|i: int, j: int|
            0 <= i < j < sort_import_lines(part).len() ==> !lex_lt(
                invert_case(#[trigger] sort_import_lines(part)[j]),
                invert_case(#[trigger] sort_import_lines(part)[i]),
            ),
{
    let keys = part.map_values(|l: Seq<char>| invert_case(l));
    lemma_sort_by_keys_is_stable_sort(part, keys);
    let o = stable_order(keys, part.len());
    let r = sort_import_lines(part);
    assert forall|q: int| 0 <= q < r.len() implies part.contains(#[trigger] r[q]) by {
        assert(r[q] == part[o[q]]);
    }
    assert forall|i: int, j: int| 0 <= i < j < r.len() implies !lex_lt(
        invert_case(#[trigger] r[j]),
        invert_case(#[trigger] r[i]),
    ) by {
        assert(r[i] == part[o[i]] && r[j] == part[o[j]]);
        assert(keys[o[i]] == invert_case(r[i]));
        assert(keys[o[j]] == invert_case(r[j]));
    }
}

/// Sorted imports put every import of the parent module first; within each of the two parts
/// no import comes before one whose case-inverted text is smaller, so that modules come before
/// types; empty imports are left out; and every other import is kept, as often as it occurs.
pub proof fn lemma_sorted_imports_order(imports: Seq<Seq<char>>)
    ensures
        forall|x: Seq<char>|
            #[trigger] sorted_imports(imports).to_multiset().count(x) == if x.len() > 0 {
                imports.to_multiset().count(x)
            } else {
                0
            },
        forall|i: int, j: int|
            0 <= i < j < sorted_imports(imports).len() ==> import_precedes(
                #[trigger] sorted_imports(imports)[i],
                #[trigger] sorted_imports(imports)[j],
            ),
        forall|i: int|
            0 <= i < sorted_imports(imports).len() ==> (#[trigger] sorted_imports(imports)[i]).len()
                > 0,
{
    broadcast use vstd::seq_lib::lemma_multiset_commutative, vstd::multiset::group_multiset_axioms;

    let sup = |l: Seq<char>| is_super(l);
    let other = |l: Seq<char>| !is_super(l);
    let ne = |l: Seq<char>| l.len() > 0;
    let sp = imports.filter(sup);
    let op = imports.filter(other);
    let a = sort_import_lines(sp);
    let b = sort_import_lines(op);
    let c = a + b;
    let r = c.filter(ne);
    assert(r == sorted_imports(imports));
    lemma_sort_import_lines(sp);
    lemma_sort_import_lines(op);
    assert forall|q: int| 0 <= q < a.len() implies is_super(#[trigger] a[q]) by {
        imports.lemma_filter_contains_rev(sup, a[q]);
        let k = choose|k: int| 0 <= k < sp.len() && sp[k] == a[q];
        imports.lemma_filter_pred(sup, k);
    }
    assert forall|q: int| 0 <= q < b.len() implies !is_super(#[trigger] b[q]) by {
        let k = choose|k: int| 0 <= k < op.len() && op[k] == b[q];
        imports.lemma_filter_pred(other, k);
    }
    let prec = |x: Seq<char>, y: Seq<char>| import_precedes(x, y);
    assert forall|i: int, j: int| 0 <= i < j < c.len() implies #[trigger] prec(c[i], c[j]) by {
        if j < a.len() {
            assert(c[i] == a[i] && c[j] == a[j]);
        } else if i < a.len() {
            assert(c[i] == a[i] && c[j] == b[j - a.len()]);
        } else {
            assert(c[i] == b[i - a.len()] && c[j] == b[j - a.len()]);
        }
    }
    lemma_filter_pairwise(c, ne, prec);
    assert forall|i: int, j: int| 0 <= i < j < r.len() implies import_precedes(
        #[trigger] r[i],
        #[trigger] r[j],
    ) by {
        assert(prec(r[i], r[j]));
    }
    assert forall|i: int| 0 <= i < r.len() implies (#[trigger] r[i]).len() > 0 by {
        c.lemma_filter_pred(ne, i);
    }
    assert forall|x: Seq<char>| #[trigger] r.to_multiset().count(x) == if x.len() > 0 {
        imports.to_multiset().count(x)
    } else {
        0
    } by {
        lemma_filter_count(c, ne, x);
        lemma_filter_count(imports, sup, x);
        lemma_filter_count(imports, other, x);
    }
}

/// Where `group_index` finds a path: after every group with another path, at the first group
/// with that path, if there is one.
pub(crate) proof fn lemma_group_index_props(groups: Seq<(Seq<char>, Seq<Seq<char>>)>, p: Seq<char>)
    ensures
        0 <= group_index(groups, p) <= groups.len(),
        forall|q: int| 0 <= q < group_index(groups, p) ==> (#[trigger] groups[q]).0 != p,
        group_index(groups, p) < groups.len() ==> groups[group_index(groups, p)].0 == p,
    decreases groups.len(),
{
    if groups.len() > 0 && groups[0].0 != p {
        let rest = groups.drop_first();
        lemma_group_index_props(rest, p);
        assert forall|q: int| 0 <= q < group_index(groups, p) implies (#[trigger] groups[q]).0
            != p by {
            if q > 0 {
                assert(groups[q] == rest[q - 1]);
            }
        }
    }
}

/// Whether a group with path `p` holds the name `n`.
pub open spec fn has_grouped(groups: Seq<(Seq<char>, Seq<Seq<char>>)>, p: Seq<char>, n: Seq<char>) -> bool {
    exists|k: int| 0 <= k < groups.len() && (#[trigger] groups[k]).0 == p && groups[k].1.contains(n)
}

/// Whether some non-empty import has parent path `p` and name `n`.
pub open spec fn imports_name(imports: Seq<Seq<char>>, p: Seq<char>, n: Seq<char>) -> bool {
    exists|i: int|
        0 <= i < imports.len() && (#[trigger] imports[i]).len() > 0 && import_parent(imports[i])
            == p && import_name(imports[i]) == n
}

/// Grouping imports gathers them together: no two groups have the same path, every non-empty
/// import has its name in the group of its parent path, and every name in a group comes from
/// an import with that parent path.
pub proof fn lemma_import_groups(imports: Seq<Seq<char>>)
    ensures
        forall|i: int, j: int|
            0 <= i < j < import_groups(imports).len() ==> (#[trigger] import_groups(imports)[i]).0
                != (#[trigger] import_groups(imports)[j]).0,
        forall|i: int|
            0 <= i < imports.len() && (#[trigger] imports[i]).len() > 0 ==> has_grouped(
                import_groups(imports),
                import_parent(imports[i]),
                import_name(imports[i]),
            ),
        forall|k: int, m: int|
            0 <= k < import_groups(imports).len() && 0 <= m < import_groups(imports)[k].1.len()
                ==> imports_name(
                imports,
                import_groups(imports)[k].0,
                #[trigger] import_groups(imports)[k].1[m],
            ),
    decreases imports.len(),
{
    if imports.len() > 0 {
        let rest = imports.drop_last();
        lemma_import_groups(rest);
        let g0 = import_groups(rest);
        let g = import_groups(imports);
        let last = imports.last();
        assert forall|i: int| 0 <= i < rest.len() implies #[trigger] rest[i] == imports[i] by {}
        if last.len() == 0 {
            assert(g == g0);
            assert forall|i: int| 0 <= i < imports.len() && (#[trigger] imports[i]).len() > 0
                implies has_grouped(g, import_parent(imports[i]), import_name(imports[i])) by {
                assert(imports[i] == rest[i]);
            }
            assert forall|k: int, m: int| 0 <= k < g.len() && 0 <= m < g[k].1.len() implies imports_name(
                imports,
                g[k].0,
                #[trigger] g[k].1[m],
            ) by {
                let i = choose|i: int|
                    0 <= i < rest.len() && (#[trigger] rest[i]).len() > 0 && import_parent(rest[i])
                        == g[k].0 && import_name(rest[i]) == g[k].1[m];
                assert(imports[i] == rest[i]);
            }
        } else {
            let p = import_parent(last);
            let n = import_name(last);
            let k0 = group_index(g0, p);
            lemma_group_index_props(g0, p);
            if k0 < g0.len() {
                assert(g == g0.update(k0, (p, g0[k0].1.push(n))));
                assert forall|i: int, j: int| 0 <= i < j < g.len() implies (#[trigger] g[i]).0
                    != (#[trigger] g[j]).0 by {
                    assert(g[i].0 == g0[i].0 && g[j].0 == g0[j].0);
                }
                assert forall|i: int| 0 <= i < imports.len() && (#[trigger] imports[i]).len() > 0
                    implies has_grouped(g, import_parent(imports[i]), import_name(imports[i])) by {
                    if i == imports.len() - 1 {
                        assert(g[k0].1 == g0[k0].1.push(n));
                        assert(g[k0].1[g0[k0].1.len() as int] == n);
                    } else {
                        assert(imports[i] == rest[i]);
                        let k = choose|k: int|
                            0 <= k < g0.len() && (#[trigger] g0[k]).0 == import_parent(rest[i])
                                && g0[k].1.contains(import_name(rest[i]));
                        let m = choose|m: int|
                            0 <= m < g0[k].1.len() && g0[k].1[m] == import_name(rest[i]);
                        assert(g[k].1[m] == g0[k].1[m]);
                        assert(g[k].0 == g0[k].0);
                    }
                }
                assert forall|k: int, m: int| 0 <= k < g.len() && 0 <= m < g[k].1.len() implies imports_name(
                    imports,
                    g[k].0,
                    #[trigger] g[k].1[m],
                ) by {
                    if k == k0 && m == g0[k0].1.len() {
                        assert(g[k].1[m] == n);
                        assert(imports[imports.len() - 1] == last);
                    } else {
                        assert(g[k].1[m] == g0[k].1[m]);
                        let i = choose|i: int|
                            0 <= i < rest.len() && (#[trigger] rest[i]).len() > 0 && import_parent(
                                rest[i],
                            ) == g0[k].0 && import_name(rest[i]) == g0[k].1[m];
                        assert(imports[i] == rest[i]);
                    }
                }
            } else {
                assert(g == g0.push((p, seq![n])));
                assert forall|i: int, j: int| 0 <= i < j < g.len() implies (#[trigger] g[i]).0
                    != (#[trigger] g[j]).0 by {
                    if j == g0.len() {
                        assert(g0[i].0 != p);
                    } else {
                        assert(g[i] == g0[i] && g[j] == g0[j]);
                    }
                }
                assert forall|i: int| 0 <= i < imports.len() && (#[trigger] imports[i]).len() > 0
                    implies has_grouped(g, import_parent(imports[i]), import_name(imports[i])) by {
                    if i == imports.len() - 1 {
                        assert(g[g0.len() as int].1[0] == n);
                    } else {
                        assert(imports[i] == rest[i]);
                        let k = choose|k: int|
                            0 <= k < g0.len() && (#[trigger] g0[k]).0 == import_parent(rest[i])
                                && g0[k].1.contains(import_name(rest[i]));
                        assert(g[k] == g0[k]);
                    }
                }
                assert forall|k: int, m: int| 0 <= k < g.len() && 0 <= m < g[k].1.len() implies imports_name(
                    imports,
                    g[k].0,
                    #[trigger] g[k].1[m],
                ) by {
                    if k == g0.len() {
                        assert(g[k].1[m] == n);
                        assert(imports[imports.len() - 1] == last);
                    } else {
                        assert(g[k] == g0[k]);
                        let i = choose|i: int|
                            0 <= i < rest.len() && (#[trigger] rest[i]).len() > 0 && import_parent(
                                rest[i],
                            ) == g0[k].0 && import_name(rest[i]) == g0[k].1[m];
                        assert(imports[i] == rest[i]);
                    }
                }
            }
        }
    }
}

/// The names imported from one path are listed in increasing order without repeats, each name
/// that was imported appearing.
pub proof fn lemma_sorted_names(names: Seq<Seq<char>>)
    ensures
        forall|i: int, j: int|
            0 <= i < j < sorted_names(names).len() ==> lex_lt(
                #[trigger] sorted_names(names)[i],
                #[trigger] sorted_names(names)[j],
            ),
        forall|x: Seq<char>| #[trigger] sorted_names(names).contains(x) <==> names.contains(x),
{
    broadcast use vstd::seq_lib::to_multiset_contains;

    lemma_sort_by_keys_is_stable_sort(names, names);
    let o = stable_order(names, names.len());
    let st = sort_by_keys(names, names);
    assert forall|i: int, j: int| 0 <= i < j < st.len() implies !lex_lt(
        #[trigger] st[j],
        #[trigger] st[i],
    ) by {
        assert(st[i] == names[o[i]] && st[j] == names[o[j]]);
    }
    lemma_dedup_sorted(st);
    let r = sorted_names(names);
    assert forall|x: Seq<char>| #[trigger] r.contains(x) <==> names.contains(x) by {
        assert(st.to_multiset().count(x) == names.to_multiset().count(x));
        if r.contains(x) {
            let i = choose|i: int| 0 <= i < r.len() && r[i] == x;
            assert(st.contains(r[i]));
        }
        if st.contains(x) {
            let i = choose|i: int| 0 <= i < st.len() && st[i] == x;
            assert(r.contains(st[i]));
        }
    }
}

/// No imports declare nothing.
pub proof fn lemma_no_imports_no_text()
    ensures
        imports_text(Seq::empty()) == Seq::<char>::empty(),
        re_exports_text(Seq::empty()) == Seq::<char>::empty(),
{
    let none = Seq::<Seq<char>>::empty();
    assert(import_groups(none) =~= Seq::<(Seq<char>, Seq<Seq<char>>)>::empty());
    assert(grouped_imports(none) =~= none);
    reveal(Seq::filter);
    assert(none.filter(|l: Seq<char>| is_super(l)) =~= none);
    assert(none.filter(|l: Seq<char>| !is_super(l)) =~= none);
    assert(sort_import_lines(none) =~= none);
    assert(sorted_imports(none) =~= none);
    assert(use_lines(use_kw(), none) =~= Seq::<char>::empty());
    assert(use_lines(pub_use_kw(), none) =~= Seq::<char>::empty());
    assert(trim_start(Seq::<char>::empty()) =~= Seq::<char>::empty());
}

// ---------------------------------------------------------------------------------------------
// Executable operations
// ---------------------------------------------------------------------------------------------

pub(crate) proof fn lemma_split_path_nonempty(s: Seq<char>)
    ensures
        split_path(s).len() >= 1,
    decreases s.len(),
{
    if s.len() >= 2 && s[0] == ':' && s[1] == ':' {
        lemma_split_path_nonempty(s.skip(2));
    } else if s.len() > 0 {
        lemma_split_path_nonempty(s.drop_first());
    }
}

/// The segments of an import path, as `str::split("::")` gives them.
pub fn split_import_path(s: &str) -> (res: Vec<String>)
    ensures
        strings_view(res@) == split_path(s@),
        res@.len() >= 1,
{
    let v = chars_of(s);
    let n = v.len();
    let mut done: Vec<String> = Vec::new();
    let mut cur = String::new();
    let mut i: usize = 0;
    proof {
        lemma_split_path_nonempty(s@);
        assert(v@.skip(0) == v@);
        let r = split_path(s@);
        assert(r == seq![r[0]] + r.drop_first());
        assert(Seq::<char>::empty() + r[0] == r[0]);
        assert(strings_view(done@) == Seq::<Seq<char>>::empty());
    }
    while i < n
        invariant
            i <= n == v.len(),
            v@ == s@,
            split_path(s@) == strings_view(done@).push(cur@ + split_path(v@.skip(i as int))[0])
                + split_path(v@.skip(i as int)).drop_first(),
        decreases n - i,
    {
        let ghost t = v@.skip(i as int);
        proof {
            lemma_split_path_nonempty(t);
            lemma_split_path_nonempty(t.drop_first());
        }
        if i + 1 < n && v[i] == ':' && v[i + 1] == ':' {
            proof {
                assert(t[0] == ':' && t[1] == ':');
                assert(t.skip(2) == v@.skip(i + 2));
                lemma_split_path_nonempty(t.skip(2));
                let r = split_path(t.skip(2));
                assert(split_path(t) == seq![Seq::<char>::empty()] + r);
                assert(split_path(t)[0] == Seq::<char>::empty());
                assert(split_path(t).drop_first() == r);
                assert(cur@ + Seq::<char>::empty() == cur@);
                assert(strings_view(done@.push(cur)) == strings_view(done@).push(cur@));
                assert(r == seq![r[0]] + r.drop_first());
                assert(Seq::<char>::empty() + r[0] == r[0]);
            }
            done.push(cur);
            cur = String::new();
            i = i + 2;
        } else {
            proof {
                assert(t.drop_first() == v@.skip(i + 1));
                let r = split_path(t.drop_first());
                assert(split_path(t) == r.update(0, seq![t[0]] + r[0]));
                assert(t[0] == v@[i as int]);
                assert(split_path(t).drop_first() == r.drop_first());
                assert(cur@.push(v@[i as int]) + r[0] == cur@ + (seq![t[0]] + r[0]));
            }
            cur.push(v[i]);
            i = i + 1;
        }
    }
    proof {
        assert(v@.skip(n as int) == Seq::<char>::empty());
        assert(split_path(Seq::<char>::empty()) == seq![Seq::<char>::empty()]);
        assert(cur@ + Seq::<char>::empty() == cur@);
        assert(strings_view(done@.push(cur)) == strings_view(done@).push(cur@));
    }
    done.push(cur);
    done
}

/// The text with the case of each character inverted.
fn invert_text_case(s: &str) -> (res: String)
    ensures
        res@ == invert_case(s@),
{
    let v = chars_of(s);
    let mut res = String::new();
    let mut i: usize = 0;
    while i < v.len()
        invariant
            i <= v.len(),
            v@ == s@,
            res@ == invert_case(v@.take(i as int)),
        decreases v.len() - i,
    {
        proof {
            assert(v@.take(i + 1).drop_last() == v@.take(i as int));
        }
        let c = v[i];
        if is_lowercase(c) {
            let u = to_uppercase(c);
            res.append(u.as_str());
        } else {
            let l = to_lowercase(c);
            res.append(l.as_str());
        }
        i = i + 1;
    }
    proof {
        assert(v@.take(v.len() as int) == v@);
    }
    res
}

/// Lines sorted stably by their case-inverted text.
fn sort_lines(lines: &Vec<String>) -> (res: Vec<String>)
    ensures
        strings_view(res@) == sort_import_lines(strings_view(lines@)),
{
    let ghost lv = strings_view(lines@);
    let mut keys: Vec<Vec<char>> = Vec::new();
    let mut i: usize = 0;
    while i < lines.len()
        invariant
            i <= lines.len(),
            lv == strings_view(lines@),
            keys@.len() == i,
            forall|k: int| 0 <= k < i ==> (#[trigger] keys@[k])@ == invert_case(lines@[k]@),
        decreases lines.len() - i,
    {
        let inv = invert_text_case(lines[i].as_str());
        keys.push(chars_of(inv.as_str()));
        i = i + 1;
    }
    proof {
        assert(keys_view(keys@) =~= lv.map_values(|l: Seq<char>| invert_case(l)));
    }
    let order = stable_sort_positions(&keys);
    arrange_strings(lines, &order, Ghost(stable_order(keys_view(keys@), keys@.len())))
}

/// Names sorted in the order of `str`, with repeats removed.
fn sort_names(names: &Vec<String>) -> (res: Vec<String>)
    ensures
        strings_view(res@) == sorted_names(strings_view(names@)),
{
    let keys = chars_of_all(names);
    let order = stable_sort_positions(&keys);
    let sorted = arrange_strings(names, &order, Ghost(stable_order(keys_view(keys@), keys@.len())));
    let ghost sv = strings_view(sorted@);
    let mut res: Vec<String> = Vec::new();
    let mut i: usize = 0;
    while i < sorted.len()
        invariant
            i <= sorted.len(),
            sv == strings_view(sorted@),
            strings_view(res@) == dedup(sv.take(i as int)),
        decreases sorted.len() - i,
    {
        proof {
            assert(sv.take(i + 1).drop_last() == sv.take(i as int));
        }
        let n = res.len();
        if n > 0 && res[n - 1] == sorted[i] {
        } else {
            res.push(sorted[i].clone());
            proof {
                assert(strings_view(res@) =~= dedup(sv.take(i as int)).push(sv[i as int]));
            }
        }
        i = i + 1;
    }
    proof {
        assert(sv.take(sorted.len() as int) == sv);
    }
    res
}

/// The strings on which `keep` holds, split from the others, both in the order in which they come.
fn partition_lowercase(names: &Vec<String>) -> (res: (Vec<String>, Vec<String>))
    ensures
        strings_view(res.0@) == strings_view(names@).filter(|n: Seq<char>| starts_lowercase(n)),
        strings_view(res.1@) == strings_view(names@).filter(|n: Seq<char>| !starts_lowercase(n)),
{
    let ghost nv = strings_view(names@);
    let mut lower: Vec<String> = Vec::new();
    let mut upper: Vec<String> = Vec::new();
    let mut i: usize = 0;
    while i < names.len()
        invariant
            i <= names.len(),
            nv == strings_view(names@),
            strings_view(lower@) == nv.take(i as int).filter(|n: Seq<char>| starts_lowercase(n)),
            strings_view(upper@) == nv.take(i as int).filter(|n: Seq<char>| !starts_lowercase(n)),
        decreases names.len() - i,
    {
        proof {
            reveal(Seq::filter);
            assert(nv.take(i + 1).drop_last() == nv.take(i as int));
            assert(nv.take(i + 1).last() == nv[i as int]);
        }
        let cs = chars_of(names[i].as_str());
        if cs.len() > 0 && is_lowercase(cs[0]) {
            lower.push(names[i].clone());
            proof {
                assert(strings_view(lower@) =~= nv.take(i as int).filter(
                    |n: Seq<char>| starts_lowercase(n),
                ).push(nv[i as int]));
            }
        } else {
            upper.push(names[i].clone());
            proof {
                assert(strings_view(upper@) =~= nv.take(i as int).filter(
                    |n: Seq<char>| !starts_lowercase(n),
                ).push(nv[i as int]));
            }
        }
        i = i + 1;
    }
    proof {
        assert(nv.take(names.len() as int) == nv);
    }
    (lower, upper)
}

/// The groups that parallel vectors of paths and name lists stand for.
pub open spec fn groups_view(paths: Seq<String>, names: Seq<Vec<String>>) -> Seq<
    (Seq<char>, Seq<Seq<char>>),
> {
    Seq::new(paths.len(), |k: int| (paths[k]@, strings_view(names[k]@)))
}

proof fn lemma_group_index_at(groups: Seq<(Seq<char>, Seq<Seq<char>>)>, p: Seq<char>, k: int)
    requires
        0 <= k <= groups.len(),
        forall|q: int| 0 <= q < k ==> (#[trigger] groups[q]).0 != p,
        k < groups.len() ==> groups[k].0 == p,
    ensures
        group_index(groups, p) == k,
    decreases k,
{
    if k > 0 {
        assert(groups[0].0 != p);
        assert forall|q: int| 0 <= q < k - 1 implies (#[trigger] groups.drop_first()[q]).0 != p by {
            assert(groups.drop_first()[q] == groups[q + 1]);
        }
        lemma_group_index_at(groups.drop_first(), p, k - 1);
    }
}

/// The parent path and the name of an import.
fn parent_and_name(import: &str) -> (res: (String, String))
    ensures
        res.0@ == import_parent(import@),
        res.1@ == import_name(import@),
{
    let mut pieces = split_import_path(import);
    let ghost all = strings_view(pieces@);
    let name = pieces.pop().unwrap();
    proof {
        assert(strings_view(pieces@) == all.drop_last());
    }
    let parent = join_strings(&pieces, "::");
    proof {
        reveal_strlit("::");
        assert("::"@ == path_sep());
    }
    (parent, name)
}

/// The `use` path for one group of names from `path`.
fn group_line_exec(path: &String, names: &Vec<String>) -> (res: String)
    requires
        names@.len() > 0,
    ensures
        res@ == group_line(path@, strings_view(names@)),
{
    let (lower, upper) = partition_lowercase(names);
    let lower_sorted = sort_names(&lower);
    let mut all = sort_names(&upper);
    let mut combined = lower_sorted;
    combined.append(&mut all);
    proof {
        assert(strings_view(combined@) =~= sorted_names(
            strings_view(names@).filter(|n: Seq<char>| starts_lowercase(n)),
        ) + sorted_names(strings_view(names@).filter(|n: Seq<char>| !starts_lowercase(n))));
    }
    let joined = join_strings(&combined, ", ");
    proof {
        reveal_strlit(", ");
        assert(", "@ == comma_sep());
        reveal_strlit("::{");
        reveal_strlit("}");
        reveal_strlit("::");
    }
    let mut res = path.clone();
    if has_substring(joined.as_str(), ", ") {
        res.append("::{");
        res.append(joined.as_str());
        res.append("}");
        proof {
            assert(res@ =~= path@ + path_sep() + seq!['{'] + joined@ + seq!['}']);
        }
    } else {
        res.append("::");
        res.append(names[0].as_str());
        proof {
            assert(res@ =~= path@ + path_sep() + names@[0]@);
        }
    }
    res
}

/// Imports grouped by parent path, one `use` path per group, groups in the order in which
/// their paths first appear.
fn group_import_list(imports: &Vec<String>) -> (res: Vec<String>)
    ensures
        strings_view(res@) == grouped_imports(strings_view(imports@)),
{
    let ghost iv = strings_view(imports@);
    let mut paths: Vec<String> = Vec::new();
    let mut names: Vec<Vec<String>> = Vec::new();
    let mut i: usize = 0;
    while i < imports.len()
        invariant
            i <= imports.len(),
            iv == strings_view(imports@),
            paths@.len() == names@.len(),
            groups_view(paths@, names@) == import_groups(iv.take(i as int)),
            forall|k: int| 0 <= k < names@.len() ==> (#[trigger] names@[k])@.len() > 0,
        decreases imports.len() - i,
    {
        let ghost g = groups_view(paths@, names@);
        proof {
            assert(iv.take(i + 1).drop_last() == iv.take(i as int));
            assert(iv.take(i + 1).last() == iv[i as int]);
        }
        if imports[i].as_str().is_empty() {
            i = i + 1;
            continue;
        }
        let (parent, name) = parent_and_name(imports[i].as_str());
        let mut k: usize = 0;
        while k < paths.len() && paths[k] != parent
            invariant
                k <= paths@.len(),
                g == groups_view(paths@, names@),
                forall|q: int| 0 <= q < k ==> (#[trigger] g[q]).0 != parent@,
            decreases paths.len() - k,
        {
            k = k + 1;
        }
        proof {
            lemma_group_index_at(g, parent@, k as int);
        }
        if k < paths.len() {
            let ghost old_names = names@;
            let ghost nm = name@;
            names[k].push(name);
            proof {
                assert(strings_view(names@[k as int]@) =~= strings_view(old_names[k as int]@).push(
                    nm,
                ));
                assert(groups_view(paths@, names@) =~~= g.update(
                    k as int,
                    (parent@, g[k as int].1.push(import_name(iv[i as int]))),
                ));
            }
        } else {
            paths.push(parent);
            let mut fresh: Vec<String> = Vec::new();
            fresh.push(name);
            names.push(fresh);
            proof {
                assert(strings_view(names@[k as int]@) =~= seq![import_name(iv[i as int])]);
                assert(groups_view(paths@, names@) =~~= g.push(
                    (import_parent(iv[i as int]), seq![import_name(iv[i as int])]),
                ));
            }
        }
        i = i + 1;
    }
    proof {
        assert(iv.take(imports.len() as int) == iv);
    }
    let ghost g = groups_view(paths@, names@);
    let mut res: Vec<String> = Vec::new();
    let mut k: usize = 0;
    while k < paths.len()
        invariant
            k <= paths@.len() == names@.len(),
            g == groups_view(paths@, names@),
            forall|q: int| 0 <= q < names@.len() ==> (#[trigger] names@[q])@.len() > 0,
            res@.len() == k,
            forall|q: int| 0 <= q < k ==> (#[trigger] res@[q])@ == group_line(g[q].0, g[q].1),
        decreases paths.len() - k,
    {
        let line = group_line_exec(&paths[k], &names[k]);
        res.push(line);
        k = k + 1;
    }
    proof {
        assert(strings_view(res@) =~= grouped_imports(iv));
    }
    res
}

/// The lines on which the filter holds, in order.
fn split_super(lines: &Vec<String>) -> (res: (Vec<String>, Vec<String>))
    ensures
        strings_view(res.0@) == strings_view(lines@).filter(|l: Seq<char>| is_super(l)),
        strings_view(res.1@) == strings_view(lines@).filter(|l: Seq<char>| !is_super(l)),
{
    let ghost lv = strings_view(lines@);
    let mut sup: Vec<String> = Vec::new();
    let mut other: Vec<String> = Vec::new();
    let mut i: usize = 0;
    while i < lines.len()
        invariant
            i <= lines.len(),
            lv == strings_view(lines@),
            strings_view(sup@) == lv.take(i as int).filter(|l: Seq<char>| is_super(l)),
            strings_view(other@) == lv.take(i as int).filter(|l: Seq<char>| !is_super(l)),
        decreases lines.len() - i,
    {
        proof {
            reveal(Seq::filter);
            assert(lv.take(i + 1).drop_last() == lv.take(i as int));
            assert(lv.take(i + 1).last() == lv[i as int]);
            reveal_strlit("super::");
            assert("super::"@ == super_prefix());
        }
        if has_prefix(lines[i].as_str(), "super::") {
            sup.push(lines[i].clone());
            proof {
                assert(strings_view(sup@) =~= lv.take(i as int).filter(
                    |l: Seq<char>| is_super(l),
                ).push(lv[i as int]));
            }
        } else {
            other.push(lines[i].clone());
            proof {
                assert(strings_view(other@) =~= lv.take(i as int).filter(
                    |l: Seq<char>| !is_super(l),
                ).push(lv[i as int]));
            }
        }
        i = i + 1;
    }
    proof {
        assert(lv.take(lines.len() as int) == lv);
    }
    (sup, other)
}

/// Import lines sorted, those of the parent module first, empty lines left out.
fn sort_import_list(lines: &Vec<String>) -> (res: Vec<String>)
    ensures
        strings_view(res@) == sorted_imports(strings_view(lines@)),
{
    let (sup, other) = split_super(lines);
    let mut sorted = sort_lines(&sup);
    let mut rest = sort_lines(&other);
    sorted.append(&mut rest);
    let ghost sv = strings_view(sorted@);
    proof {
        assert(sv =~= sort_import_lines(strings_view(lines@).filter(|l: Seq<char>| is_super(l)))
            + sort_import_lines(strings_view(lines@).filter(|l: Seq<char>| !is_super(l))));
    }
    let mut res: Vec<String> = Vec::new();
    let mut i: usize = 0;
    while i < sorted.len()
        invariant
            i <= sorted.len(),
            sv == strings_view(sorted@),
            strings_view(res@) == sv.take(i as int).filter(|l: Seq<char>| l.len() > 0),
        decreases sorted.len() - i,
    {
        proof {
            reveal(Seq::filter);
            assert(sv.take(i + 1).drop_last() == sv.take(i as int));
            assert(sv.take(i + 1).last() == sv[i as int]);
        }
        if !sorted[i].as_str().is_empty() {
            res.push(sorted[i].clone());
            proof {
                assert(strings_view(res@) =~= sv.take(i as int).filter(
                    |l: Seq<char>| l.len() > 0,
                ).push(sv[i as int]));
            }
        }
        i = i + 1;
    }
    proof {
        assert(sv.take(sorted.len() as int) == sv);
    }
    res
}

/// The strings of a slice of string slices.
fn to_strings(items: &[&str]) -> (res: Vec<String>)
    ensures
        strings_view(res@) == strs_view(items@),
{
    let mut res: Vec<String> = Vec::new();
    let mut i: usize = 0;
    while i < items.len()
        invariant
            i <= items@.len(),
            res@.len() == i,
            forall|k: int| 0 <= k < i ==> (#[trigger] res@[k])@ == items@[k]@,
        decreases items@.len() - i,
    {
        res.push(items[i].to_owned());
        i = i + 1;
    }
    proof {
        assert(strings_view(res@) =~= strs_view(items@));
    }
    res
}

/// Sort imports: those of the parent module first, each part ordered by case-inverted text,
/// empty lines left out.
pub fn sort_imports(imports: &[&str]) -> (res: Vec<String>)
    ensures
        strings_view(res@) == sorted_imports(strs_view(imports@)),
{
    let lines = to_strings(imports);
    sort_import_list(&lines)
}

/// Group imports by parent path, one `use` path per group.
pub fn group_imports(imports: &[&str]) -> (res: Vec<String>)
    ensures
        strings_view(res@) == grouped_imports(strs_view(imports@)),
{
    let lines = to_strings(imports);
    group_import_list(&lines)
}

/// Each path written as `<keyword> <path>;` on a line of its own, trimmed.
fn declarations(keyword: &str, imports: &Vec<String>) -> (res: String)
    ensures
        res@ == declarations_text(keyword@, strings_view(imports@)),
{
    let grouped = group_import_list(imports);
    let sorted = sort_import_list(&grouped);
    let ghost sv = strings_view(sorted@);
    let mut out = String::new();
    let mut i: usize = 0;
    while i < sorted.len()
        invariant
            i <= sorted.len(),
            sv == strings_view(sorted@),
            out@ == use_lines(keyword@, sv.take(i as int)),
        decreases sorted.len() - i,
    {
        proof {
            assert(sv.take(i + 1).drop_last() == sv.take(i as int));
            assert(sv.take(i + 1).last() == sv[i as int]);
        }
        out.append(keyword);
        out.push(' ');
        out.append(sorted[i].as_str());
        out.push(';');
        out.push('\n');
        i = i + 1;
        proof {
            assert(out@ =~= use_lines(keyword@, sv.take(i as int)));
        }
    }
    proof {
        assert(sv.take(sorted.len() as int) == sv);
    }
    trim_str(out.as_str())
}

/// The `use` declarations for a list of imports.
pub fn imports_str_of(imports: &Vec<String>) -> (res: String)
    ensures
        res@ == imports_text(strings_view(imports@)),
{
    let r = declarations("use", imports);
    proof {
        reveal_strlit("use");
        assert("use"@ == use_kw());
    }
    r
}

/// The `pub use` declarations for a list of re-exports.
pub fn re_exports_str_of(exports: &Vec<String>) -> (res: String)
    ensures
        res@ == re_exports_text(strings_view(exports@)),
{
    let r = declarations("pub use", exports);
    proof {
        reveal_strlit("pub use");
        assert("pub use"@ == pub_use_kw());
    }
    r
}

/// Serialize imports into `use` declarations, grouped by parent path and sorted.
pub fn imports_as_str(imports: &[&str]) -> (res: String)
    ensures
        res@ == imports_text(strs_view(imports@)),
{
    let lines = to_strings(imports);
    imports_str_of(&lines)
}

/// Serialize re-exports into `pub use` declarations, grouped by parent path and sorted.
pub fn re_exports_as_str(exports: &[&str]) -> (res: String)
    ensures
        res@ == re_exports_text(strs_view(exports@)),
{
    let lines = to_strings(exports);
    re_exports_str_of(&lines)
}

} // verus!
