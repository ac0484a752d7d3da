//! The `use` declarations of a list of imports do not depend on the order of the list or on
//! how often an import is repeated in it.
use vstd::prelude::*;
use crate::imports::{
    comma_sep, group_line, grouped_imports, has_grouped, import_groups, imports_name,
    imports_text, invert_case, is_ascii_char, is_super, lowercase_char, lowercase_text,
    uppercase_text, lemma_import_groups, lemma_sort_import_lines,
    lemma_sorted_names, re_exports_text, sort_import_lines, sorted_imports, sorted_names,
    starts_lowercase, split_path, import_parent, import_name, path_sep, lemma_split_path_nonempty,
};
use crate::order::{lemma_filter_count, lemma_lex_irreflexive, lemma_lex_total, lex_lt};
use crate::text::{contains_seq, join};

verus! {

/// Two sequences in strictly increasing order that hold the same elements are equal.
proof fn lemma_strictly_sorted_unique(a: Seq<Seq<char>>, b: Seq<Seq<char>>)
    requires
        forall|i: int, j: int| 0 <= i < j < a.len() ==> lex_lt(#[trigger] a[i], #[trigger] a[j]),
        forall|i: int, j: int| 0 <= i < j < b.len() ==> lex_lt(#[trigger] b[i], #[trigger] b[j]),
        forall|x: Seq<char>| a.contains(x) <==> b.contains(x),
    ensures
        a == b,
    decreases a.len(),
{
    if a.len() == 0 {
        if b.len() > 0 {
            assert(b.contains(b[0]));
        }
        assert(a =~= b);
    } else {
        if b.len() == 0 {
            assert(a.contains(a[0]));
        }
        let x = a.last();
        let y = b.last();
        assert(a.contains(x));
        assert(b.contains(y));
        if x != y {
            let i = choose|i: int| 0 <= i < a.len() && a[i] == y;
            let j = choose|j: int| 0 <= j < b.len() && b[j] == x;
            assert(lex_lt(y, x));
            assert(lex_lt(x, y));
            lemma_lex_total(x, y);
        }
        let a0 = a.drop_last();
        let b0 = b.drop_last();
        assert forall|z: Seq<char>| a0.contains(z) <==> b0.contains(z) by {
            if a0.contains(z) {
                let i = choose|i: int| 0 <= i < a0.len() && a0[i] == z;
                assert(a[i] == z && lex_lt(z, x));
                lemma_lex_irreflexive(z);
                assert(b.contains(z));
                let j = choose|j: int| 0 <= j < b.len() && b[j] == z;
                assert(j != b.len() - 1);
                assert(b0[j] == z);
            }
            if b0.contains(z) {
                let j = choose|j: int| 0 <= j < b0.len() && b0[j] == z;
                assert(b[j] == z && lex_lt(z, y));
                lemma_lex_irreflexive(z);
                assert(a.contains(z));
                let i = choose|i: int| 0 <= i < a.len() && a[i] == z;
                assert(i != a.len() - 1);
                assert(a0[i] == z);
            }
        }
        lemma_strictly_sorted_unique(a0, b0);
        assert(a =~= a0.push(x));
        assert(b =~= b0.push(y));
    }
}

/// Filtering two sequences that hold the same elements gives two that hold the same elements.
proof fn lemma_filter_same_elements(a: Seq<Seq<char>>, b: Seq<Seq<char>>, f: spec_fn(Seq<char>) -> bool)
    requires
        forall|x: Seq<char>| a.contains(x) <==> b.contains(x),
    ensures
        forall|x: Seq<char>| a.filter(f).contains(x) <==> (a.contains(x) && f(x)),
        forall|x: Seq<char>| b.filter(f).contains(x) <==> (b.contains(x) && f(x)),
{
    assert forall|x: Seq<char>| a.filter(f).contains(x) <==> (a.contains(x) && f(x)) by {
        if a.filter(f).contains(x) {
            a.lemma_filter_contains_rev(f, x);
            let k = choose|k: int| 0 <= k < a.filter(f).len() && a.filter(f)[k] == x;
            a.lemma_filter_pred(f, k);
        }
        if a.contains(x) && f(x) {
            let k = choose|k: int| 0 <= k < a.len() && a[k] == x;
            a.lemma_filter_contains(f, k);
        }
    }
    assert forall|x: Seq<char>| b.filter(f).contains(x) <==> (b.contains(x) && f(x)) by {
        if b.filter(f).contains(x) {
            b.lemma_filter_contains_rev(f, x);
            let k = choose|k: int| 0 <= k < b.filter(f).len() && b.filter(f)[k] == x;
            b.lemma_filter_pred(f, k);
        }
        if b.contains(x) && f(x) {
            let k = choose|k: int| 0 <= k < b.len() && b[k] == x;
            b.lemma_filter_contains(f, k);
        }
    }
}

/// Names that hold the same elements are sorted into the same sequence.
proof fn lemma_sorted_names_same(a: Seq<Seq<char>>, b: Seq<Seq<char>>)
    requires
        forall|x: Seq<char>| a.contains(x) <==> b.contains(x),
    ensures
        sorted_names(a) == sorted_names(b),
{
    lemma_sorted_names(a);
    lemma_sorted_names(b);
    let sa = sorted_names(a);
    let sb = sorted_names(b);
    assert forall|x: Seq<char>| sa.contains(x) <==> sb.contains(x) by {
        assert(sa.contains(x) <==> a.contains(x));
        assert(sb.contains(x) <==> b.contains(x));
    }
    lemma_strictly_sorted_unique(sa, sb);
}

/// A text joined from two or more parts holds the separator.
proof fn lemma_join_holds_sep(parts: Seq<Seq<char>>, sep: Seq<char>)
    requires
        parts.len() >= 2,
    ensures
        contains_seq(join(parts, sep), sep),
{
    let front = join(parts.drop_last(), sep);
    let s = join(parts, sep);
    assert(s == front + sep + parts.last());
    assert(s.subrange(front.len() as int, (front.len() + sep.len()) as int) =~= sep);
}

/// The `use` path of a group depends only on which names the group holds.
proof fn lemma_group_line_same(p: Seq<char>, a: Seq<Seq<char>>, b: Seq<Seq<char>>)
    requires
        a.len() > 0,
        b.len() > 0,
        forall|x: Seq<char>| a.contains(x) <==> b.contains(x),
    ensures
        group_line(p, a) == group_line(p, b),
{
    let lo = |n: Seq<char>| starts_lowercase(n);
    let up = |n: Seq<char>| !starts_lowercase(n);
    lemma_filter_same_elements(a, b, lo);
    lemma_filter_same_elements(a, b, up);
    assert forall|x: Seq<char>| a.filter(lo).contains(x) <==> b.filter(lo).contains(x) by {
        assert(a.contains(x) <==> b.contains(x));
    }
    assert forall|x: Seq<char>| a.filter(up).contains(x) <==> b.filter(up).contains(x) by {
        assert(a.contains(x) <==> b.contains(x));
    }
    lemma_sorted_names_same(a.filter(lo), b.filter(lo));
    lemma_sorted_names_same(a.filter(up), b.filter(up));
    let parts = sorted_names(a.filter(lo)) + sorted_names(a.filter(up));
    let joined = join(parts, comma_sep());
    if !contains_seq(joined, comma_sep()) {
        if parts.len() >= 2 {
            lemma_join_holds_sep(parts, comma_sep());
        }
        lemma_sorted_names(a.filter(lo));
        lemma_sorted_names(a.filter(up));
        // Every name is the only part, so both first names are that part.
        assert forall|x: Seq<char>| a.contains(x) implies x == parts[0] by {
            if starts_lowercase(x) {
                assert(a.filter(lo).contains(x));
                assert(sorted_names(a.filter(lo)).contains(x));
                let i = choose|i: int|
                    0 <= i < sorted_names(a.filter(lo)).len() && sorted_names(a.filter(lo))[i] == x;
                assert(parts[i] == x);
            } else {
                assert(a.filter(up).contains(x));
                assert(sorted_names(a.filter(up)).contains(x));
                let i = choose|i: int|
                    0 <= i < sorted_names(a.filter(up)).len() && sorted_names(a.filter(up))[i] == x;
                assert(parts[sorted_names(a.filter(lo)).len() + i] == x);
            }
        }
        assert(a.contains(a[0]));
        assert(b.contains(b[0]));
    }
}

/// Two sequences that hold each line equally often, both ordered by case-inverted text, are
/// equal where no two different lines have the same case-inverted text.
proof fn lemma_sorted_by_case_unique(a: Seq<Seq<char>>, b: Seq<Seq<char>>)
    requires
        a.to_multiset() == b.to_multiset(),
        forall|i: int, j: int|
            0 <= i < j < a.len() ==> !lex_lt(invert_case(#[trigger] a[j]), invert_case(#[trigger] a[i])),
        forall|i: int, j: int|
            0 <= i < j < b.len() ==> !lex_lt(invert_case(#[trigger] b[j]), invert_case(#[trigger] b[i])),
        forall|x: Seq<char>, y: Seq<char>|
            a.contains(x) && a.contains(y) && invert_case(x) == invert_case(y) ==> x == y,
    ensures
        a == b,
    decreases a.len(),
{
    broadcast use vstd::seq_lib::to_multiset_contains, vstd::seq_lib::to_multiset_len,
        vstd::seq_lib::to_multiset_build, vstd::multiset::group_multiset_axioms;

    assert(b.len() == a.len()) by {
        assert(a.to_multiset().len() == a.len());
        assert(b.to_multiset().len() == b.len());
    }
    if a.len() == 0 {
        assert(a =~= b);
    } else {
        let x = a.last();
        let y = b.last();
        assert(a.contains(x));
        assert(a.to_multiset().count(x) > 0);
        assert(b.contains(x));
        assert(b.to_multiset().count(y) > 0);
        assert(a.contains(y));
        if x != y {
            let i = choose|i: int| 0 <= i < a.len() && a[i] == y;
            let j = choose|j: int| 0 <= j < b.len() && b[j] == x;
            assert(i != a.len() - 1);
            assert(j != b.len() - 1);
            assert(!lex_lt(invert_case(x), invert_case(y)));
            assert(!lex_lt(invert_case(y), invert_case(x)));
            lemma_lex_total(invert_case(x), invert_case(y));
        }
        let a0 = a.drop_last();
        let b0 = b.drop_last();
        assert(a =~= a0.push(x));
        assert(b =~= b0.push(y));
        assert(a0.push(x).to_multiset() == a0.to_multiset().insert(x));
        assert(b0.push(y).to_multiset() == b0.to_multiset().insert(y));
        assert(a0.to_multiset() =~= b0.to_multiset()) by {
            assert forall|z: Seq<char>| a0.to_multiset().count(z) == b0.to_multiset().count(z) by {
                assert(x == y);
                assert(a.to_multiset().count(z) == b.to_multiset().count(z));
                assert(a.to_multiset().count(z) == a0.to_multiset().insert(x).count(z));
                assert(b.to_multiset().count(z) == b0.to_multiset().insert(x).count(z));
            }
        }
        assert forall|u: Seq<char>, v: Seq<char>|
            a0.contains(u) && a0.contains(v) && invert_case(u) == invert_case(v) implies u == v by {
            let i = choose|i: int| 0 <= i < a0.len() && a0[i] == u;
            let j = choose|j: int| 0 <= j < a0.len() && a0[j] == v;
            assert(a[i] == u && a[j] == v);
            assert(a.contains(u) && a.contains(v));
        }
        assert forall|i: int, j: int| 0 <= i < j < a0.len() implies !lex_lt(
            invert_case(#[trigger] a0[j]),
            invert_case(#[trigger] a0[i]),
        ) by {
            assert(a0[i] == a[i] && a0[j] == a[j]);
        }
        assert forall|i: int, j: int| 0 <= i < j < b0.len() implies !lex_lt(
            invert_case(#[trigger] b0[j]),
            invert_case(#[trigger] b0[i]),
        ) by {
            assert(b0[i] == b[i] && b0[j] == b[j]);
        }
        lemma_sorted_by_case_unique(a0, b0);
    }
}

/// Sorting two lists of lines that hold each line equally often gives the same lines in the
/// same order, where no two different lines have the same case-inverted text.
proof fn lemma_sorted_imports_same(a: Seq<Seq<char>>, b: Seq<Seq<char>>)
    requires
        a.to_multiset() == b.to_multiset(),
        forall|x: Seq<char>, y: Seq<char>|
            a.contains(x) && a.contains(y) && invert_case(x) == invert_case(y) ==> x == y,
    ensures
        sorted_imports(a) == sorted_imports(b),
{
    broadcast use vstd::seq_lib::to_multiset_contains;

    let sup = |l: Seq<char>| is_super(l);
    let other = |l: Seq<char>| !is_super(l);
    let parts = seq![sup, other];
    assert forall|k: int| 0 <= k < 2 implies #[trigger] sort_import_lines(a.filter(parts[k]))
        == sort_import_lines(b.filter(parts[k])) by {
        let f = parts[k];
        let pa = a.filter(f);
        let pb = b.filter(f);
        assert(pa.to_multiset() =~= pb.to_multiset()) by {
            assert forall|z: Seq<char>| pa.to_multiset().count(z) == pb.to_multiset().count(z) by {
                lemma_filter_count(a, f, z);
                lemma_filter_count(b, f, z);
            }
        }
        lemma_sort_import_lines(pa);
        lemma_sort_import_lines(pb);
        let sa = sort_import_lines(pa);
        let sb = sort_import_lines(pb);
        assert forall|x: Seq<char>, y: Seq<char>|
            sa.contains(x) && sa.contains(y) && invert_case(x) == invert_case(y) implies x == y by {
            let i = choose|i: int| 0 <= i < sa.len() && sa[i] == x;
            let j = choose|j: int| 0 <= j < sa.len() && sa[j] == y;
            assert(pa.contains(sa[i]) && pa.contains(sa[j]));
            a.lemma_filter_contains_rev(f, x);
            a.lemma_filter_contains_rev(f, y);
        }
        lemma_sorted_by_case_unique(sa, sb);
    }
    assert(sort_import_lines(a.filter(parts[0])) == sort_import_lines(b.filter(parts[0])));
    assert(sort_import_lines(a.filter(parts[1])) == sort_import_lines(b.filter(parts[1])));
}

/// Whether `lines` holds `line` at a position where `tags` holds `tag`.
spec fn tagged(lines: Seq<Seq<char>>, tags: Seq<Seq<char>>, tag: Seq<char>, line: Seq<char>) -> bool {
    exists|j: int| 0 <= j < lines.len() && tags[j] == tag && lines[j] == line
}

/// Two lists of lines, each line tagged by a distinct path, hold each line equally often where
/// the two lists have the same paths and each path tags the same line in both.
proof fn lemma_matched_multiset(
    a: Seq<Seq<char>>,
    b: Seq<Seq<char>>,
    ka: Seq<Seq<char>>,
    kb: Seq<Seq<char>>,
)
    requires
        a.len() == ka.len(),
        b.len() == kb.len(),
        ka.no_duplicates(),
        kb.no_duplicates(),
        forall|i: int| 0 <= i < a.len() ==> #[trigger] tagged(b, kb, ka[i], a[i]),
        forall|j: int| 0 <= j < b.len() ==> ka.contains(#[trigger] kb[j]),
    ensures
        a.to_multiset() == b.to_multiset(),
    decreases a.len(),
{
    broadcast use vstd::seq_lib::to_multiset_build, vstd::seq_lib::to_multiset_remove,
        vstd::multiset::group_multiset_axioms;

    if a.len() == 0 {
        if b.len() > 0 {
            assert(ka.contains(kb[0]));
        }
        assert(a =~= b);
    } else {
        let n = a.len() - 1;
        let j = choose|j: int| 0 <= j < b.len() && kb[j] == ka[n] && b[j] == a[n];
        let a0 = a.drop_last();
        let ka0 = ka.drop_last();
        let b0 = b.remove(j);
        let kb0 = kb.remove(j);
        assert(tagged(b, kb, ka[n], a[n]));
        assert forall|i: int| 0 <= i < a0.len() implies #[trigger] tagged(b0, kb0, ka0[i], a0[i]) by {
            assert(tagged(b, kb, ka[i], a[i]));
            assert(ka0[i] == ka[i] && a0[i] == a[i]);
            let m = choose|m: int| 0 <= m < b.len() && kb[m] == ka[i] && b[m] == a[i];
            assert(m != j);
            if m < j {
                assert(kb0[m] == kb[m] && b0[m] == b[m]);
            } else {
                assert(kb0[m - 1] == kb[m] && b0[m - 1] == b[m]);
            }
        }
        assert forall|m: int| 0 <= m < b0.len() implies ka0.contains(#[trigger] kb0[m]) by {
            let m1 = if m < j { m } else { m + 1 };
            assert(kb0[m] == kb[m1]);
            assert(ka.contains(kb[m1]));
            let i = choose|i: int| 0 <= i < ka.len() && ka[i] == kb[m1];
            assert(i != n);
            assert(ka0[i] == ka[i]);
        }
        assert forall|p: int, q: int| 0 <= p < ka0.len() && 0 <= q < ka0.len() && p != q implies ka0[p]
            != ka0[q] by {
            assert(ka0[p] == ka[p] && ka0[q] == ka[q]);
        }
        assert forall|p: int, q: int| 0 <= p < kb0.len() && 0 <= q < kb0.len() && p != q implies kb0[p]
            != kb0[q] by {
            let p1 = if p < j { p } else { p + 1 };
            let q1 = if q < j { q } else { q + 1 };
            assert(kb0[p] == kb[p1] && kb0[q] == kb[q1]);
        }
        lemma_matched_multiset(a0, b0, ka0, kb0);
        assert(a =~= a0.push(a[n]));
        assert(b0.to_multiset() == b.to_multiset().remove(b[j]));
        assert(a0.push(a[n]).to_multiset() == a0.to_multiset().insert(a[n]));
        assert(b.to_multiset().count(b[j]) > 0) by {
            broadcast use vstd::seq_lib::to_multiset_contains;

            assert(b.contains(b[j]));
        }
        assert(a.to_multiset() =~= b.to_multiset());
    }
}

/// Every group holds at least one name.
proof fn lemma_groups_nonempty(imports: Seq<Seq<char>>)
    ensures
        forall|k: int|
            0 <= k < import_groups(imports).len() ==> (#[trigger] import_groups(imports)[k]).1.len()
                > 0,
    decreases imports.len(),
{
    if imports.len() > 0 && imports.last().len() > 0 {
        let rest = imports.drop_last();
        lemma_groups_nonempty(rest);
        let g0 = import_groups(rest);
        let g = import_groups(imports);
        let p = crate::imports::import_parent(imports.last());
        let n = crate::imports::import_name(imports.last());
        let k0 = crate::imports::group_index(g0, p);
        crate::imports::lemma_group_index_props(g0, p);
        assert forall|k: int| 0 <= k < g.len() implies (#[trigger] g[k]).1.len() > 0 by {
            if k0 < g0.len() {
                assert(g == g0.update(k0, (p, g0[k0].1.push(n))));
                if k != k0 {
                    assert(g[k] == g0[k]);
                }
            } else {
                assert(g == g0.push((p, seq![n])));
                if k < g0.len() {
                    assert(g[k] == g0[k]);
                }
            }
        }
    } else if imports.len() > 0 {
        lemma_groups_nonempty(imports.drop_last());
        assert(import_groups(imports) == import_groups(imports.drop_last()));
    }
}

/// The names of a group are those of the imports with the group's path.
proof fn lemma_group_names(imports: Seq<Seq<char>>, k: int)
    requires
        0 <= k < import_groups(imports).len(),
    ensures
        forall|n: Seq<char>|
            import_groups(imports)[k].1.contains(n) <==> #[trigger] imports_name(
                imports,
                import_groups(imports)[k].0,
                n,
            ),
{
    lemma_import_groups(imports);
    let g = import_groups(imports);
    assert forall|n: Seq<char>| g[k].1.contains(n) <==> #[trigger] imports_name(imports, g[k].0, n) by {
        if g[k].1.contains(n) {
            let m = choose|m: int| 0 <= m < g[k].1.len() && g[k].1[m] == n;
            assert(imports_name(imports, g[k].0, g[k].1[m]));
        }
        if imports_name(imports, g[k].0, n) {
            let i = choose|i: int|
                0 <= i < imports.len() && (#[trigger] imports[i]).len() > 0 && crate::imports::import_parent(imports[i])
                    == g[k].0 && crate::imports::import_name(imports[i]) == n;
            assert(has_grouped(g, g[k].0, n));
            let k2 = choose|k2: int| 0 <= k2 < g.len() && (#[trigger] g[k2]).0 == g[k].0 && g[k2].1.contains(n);
            if k2 < k {
                assert(g[k2].0 != g[k].0);
            } else if k < k2 {
                assert(g[k].0 != g[k2].0);
            }
        }
    }
}

/// Lists of imports that hold the same imports import the same names from each path.
proof fn lemma_imports_name_same(a: Seq<Seq<char>>, b: Seq<Seq<char>>, p: Seq<char>, n: Seq<char>)
    requires
        forall|x: Seq<char>| a.contains(x) <==> b.contains(x),
    ensures
        imports_name(a, p, n) == imports_name(b, p, n),
{
    if imports_name(a, p, n) {
        let i = choose|i: int|
            0 <= i < a.len() && (#[trigger] a[i]).len() > 0 && crate::imports::import_parent(a[i]) == p
                && crate::imports::import_name(a[i]) == n;
        assert(a.contains(a[i]));
        let j = choose|j: int| 0 <= j < b.len() && b[j] == a[i];
        assert(b[j].len() > 0);
    }
    if imports_name(b, p, n) {
        let j = choose|j: int|
            0 <= j < b.len() && (#[trigger] b[j]).len() > 0 && crate::imports::import_parent(b[j]) == p
                && crate::imports::import_name(b[j]) == n;
        assert(b.contains(b[j]));
        let i = choose|i: int| 0 <= i < a.len() && a[i] == b[j];
        assert(a[i].len() > 0);
    }
}

/// The paths of the groups, in their order.
spec fn group_paths(imports: Seq<Seq<char>>) -> Seq<Seq<char>> {
    import_groups(imports).map_values(|g: (Seq<char>, Seq<Seq<char>>)| g.0)
}

/// Each group of one list of imports has a group with the same path and the same `use` path
/// among the groups of a list that holds the same imports.
proof fn lemma_group_matched(a: Seq<Seq<char>>, b: Seq<Seq<char>>, k: int)
    requires
        forall|x: Seq<char>| a.contains(x) <==> b.contains(x),
        0 <= k < import_groups(a).len(),
    ensures
        tagged(grouped_imports(b), group_paths(b), group_paths(a)[k], grouped_imports(a)[k]),
{
    let ga = import_groups(a);
    let gb = import_groups(b);
    let p = ga[k].0;
    lemma_groups_nonempty(a);
    lemma_groups_nonempty(b);
    lemma_group_names(a, k);
    let n0 = ga[k].1[0];
    assert(ga[k].1.contains(n0));
    assert(imports_name(a, p, n0));
    lemma_imports_name_same(a, b, p, n0);
    lemma_import_groups(b);
    let i = choose|i: int|
        0 <= i < b.len() && (#[trigger] b[i]).len() > 0 && crate::imports::import_parent(b[i]) == p
            && crate::imports::import_name(b[i]) == n0;
    assert(has_grouped(gb, p, n0));
    let j = choose|j: int| 0 <= j < gb.len() && (#[trigger] gb[j]).0 == p && gb[j].1.contains(n0);
    lemma_group_names(b, j);
    assert forall|x: Seq<char>| ga[k].1.contains(x) <==> gb[j].1.contains(x) by {
        assert(ga[k].1.contains(x) <==> imports_name(a, p, x));
        assert(gb[j].1.contains(x) <==> imports_name(b, p, x));
        lemma_imports_name_same(a, b, p, x);
    }
    lemma_group_line_same(p, ga[k].1, gb[j].1);
    assert(group_paths(b)[j] == p);
    assert(grouped_imports(b)[j] == grouped_imports(a)[k]);
}

/// Lists of imports that hold the same imports give each `use` path equally often.
proof fn lemma_grouped_multiset(a: Seq<Seq<char>>, b: Seq<Seq<char>>)
    requires
        forall|x: Seq<char>| a.contains(x) <==> b.contains(x),
    ensures
        grouped_imports(a).to_multiset() == grouped_imports(b).to_multiset(),
{
    lemma_import_groups(a);
    lemma_import_groups(b);
    let ka = group_paths(a);
    let kb = group_paths(b);
    assert forall|p: int, q: int| 0 <= p < ka.len() && 0 <= q < ka.len() && p != q implies ka[p]
        != ka[q] by {
        if p < q {
            assert(import_groups(a)[p].0 != import_groups(a)[q].0);
        } else {
            assert(import_groups(a)[q].0 != import_groups(a)[p].0);
        }
    }
    assert forall|p: int, q: int| 0 <= p < kb.len() && 0 <= q < kb.len() && p != q implies kb[p]
        != kb[q] by {
        if p < q {
            assert(import_groups(b)[p].0 != import_groups(b)[q].0);
        } else {
            assert(import_groups(b)[q].0 != import_groups(b)[p].0);
        }
    }
    assert forall|i: int| 0 <= i < grouped_imports(a).len() implies #[trigger] tagged(
        grouped_imports(b),
        kb,
        ka[i],
        grouped_imports(a)[i],
    ) by {
        lemma_group_matched(a, b, i);
    }
    assert forall|j: int| 0 <= j < grouped_imports(b).len() implies ka.contains(#[trigger] kb[j]) by {
        lemma_group_matched(b, a, j);
        let i = choose|i: int| 0 <= i < grouped_imports(a).len() && ka[i] == kb[j] && grouped_imports(a)[i] == grouped_imports(b)[j];
        assert(ka[i] == kb[j]);
    }
    lemma_matched_multiset(grouped_imports(a), grouped_imports(b), ka, kb);
}

/// The `use` declarations, and the `pub use` ones, of a list of imports depend only on which
/// imports the list holds: reordering it, or repeating some of its imports, changes nothing.
/// This holds wherever no two different `use` paths of the list have the same case-inverted
/// text, which is what orders them.
pub proof fn lemma_imports_order_irrelevant(xs: Seq<Seq<char>>, ys: Seq<Seq<char>>)
    requires
        forall|x: Seq<char>| xs.contains(x) <==> ys.contains(x),
        forall|a: Seq<char>, b: Seq<char>|
            grouped_imports(xs).contains(a) && grouped_imports(xs).contains(b) && invert_case(a)
                == invert_case(b) ==> a == b,
    ensures
        imports_text(xs) == imports_text(ys),
        re_exports_text(xs) == re_exports_text(ys),
{
    lemma_grouped_multiset(xs, ys);
    lemma_sorted_imports_same(grouped_imports(xs), grouped_imports(ys));
}

/// Whether every character of a text is ASCII.
pub open spec fn ascii_text(s: Seq<char>) -> bool {
    forall|i: int| 0 <= i < s.len() ==> is_ascii_char(#[trigger] s[i])
}

/// The case-inverted form of one ASCII character.
spec fn swap_ascii(c: char) -> char {
    if lowercase_char(c) {
        uppercase_text(c)[0]
    } else {
        lowercase_text(c)[0]
    }
}

/// On ASCII characters case inversion takes one character to one character, and no two
/// characters to the same one.
proof fn lemma_swap_ascii(a: char, b: char)
    requires
        is_ascii_char(a),
        is_ascii_char(b),
    ensures
        (if lowercase_char(a) { uppercase_text(a) } else { lowercase_text(a) }) == seq![swap_ascii(a)],
        swap_ascii(a) == swap_ascii(b) ==> a == b,
{
}

/// Case inversion of an ASCII text inverts each character in its place.
proof fn lemma_invert_case_ascii(s: Seq<char>)
    requires
        ascii_text(s),
    ensures
        invert_case(s).len() == s.len(),
        forall|i: int| 0 <= i < s.len() ==> #[trigger] invert_case(s)[i] == swap_ascii(s[i]),
    decreases s.len(),
{
    if s.len() > 0 {
        let s0 = s.drop_last();
        assert forall|i: int| 0 <= i < s0.len() implies is_ascii_char(#[trigger] s0[i]) by {
            assert(s0[i] == s[i]);
        }
        lemma_invert_case_ascii(s0);
        lemma_swap_ascii(s.last(), s.last());
        assert forall|i: int| 0 <= i < s.len() implies #[trigger] invert_case(s)[i] == swap_ascii(s[i]) by {
            if i < s.len() - 1 {
                assert(s0[i] == s[i]);
            }
        }
    }
}

/// Different ASCII texts have different case-inverted texts.
proof fn lemma_invert_case_injective(x: Seq<char>, y: Seq<char>)
    requires
        ascii_text(x),
        ascii_text(y),
        invert_case(x) == invert_case(y),
    ensures
        x == y,
{
    lemma_invert_case_ascii(x);
    lemma_invert_case_ascii(y);
    assert forall|i: int| 0 <= i < x.len() implies x[i] == y[i] by {
        assert(is_ascii_char(x[i]) && is_ascii_char(y[i]));
        assert(invert_case(x)[i] == swap_ascii(x[i]));
        assert(invert_case(y)[i] == swap_ascii(y[i]));
        lemma_swap_ascii(x[i], y[i]);
    }
    assert(x =~= y);
}

/// The segments of an ASCII path are ASCII.
proof fn lemma_split_path_ascii(s: Seq<char>)
    requires
        ascii_text(s),
    ensures
        forall|k: int| 0 <= k < split_path(s).len() ==> ascii_text(#[trigger] split_path(s)[k]),
    decreases s.len(),
{
    if s.len() >= 2 && s[0] == ':' && s[1] == ':' {
        let t = s.skip(2);
        assert forall|i: int| 0 <= i < t.len() implies is_ascii_char(#[trigger] t[i]) by {
            assert(t[i] == s[i + 2]);
        }
        lemma_split_path_ascii(t);
        let r = split_path(s);
        assert(r == seq![Seq::<char>::empty()] + split_path(t));
        assert forall|k: int| 0 <= k < r.len() implies ascii_text(#[trigger] r[k]) by {
            if k > 0 {
                assert(r[k] == split_path(t)[k - 1]);
            }
        }
    } else if s.len() > 0 {
        let t = s.drop_first();
        assert forall|i: int| 0 <= i < t.len() implies is_ascii_char(#[trigger] t[i]) by {
            assert(t[i] == s[i + 1]);
        }
        lemma_split_path_ascii(t);
        lemma_split_path_nonempty(t);
        let r0 = split_path(t);
        let r = split_path(s);
        assert(r == r0.update(0, seq![s[0]] + r0[0]));
        assert forall|k: int| 0 <= k < r.len() implies ascii_text(#[trigger] r[k]) by {
            if k == 0 {
                let h = seq![s[0]] + r0[0];
                assert(ascii_text(r0[0]));
                assert forall|i: int| 0 <= i < h.len() implies is_ascii_char(#[trigger] h[i]) by {
                    if i > 0 {
                        assert(h[i] == r0[0][i - 1]);
                    }
                }
            } else {
                assert(r[k] == r0[k]);
            }
        }
    } else {
        assert(split_path(s) == seq![Seq::<char>::empty()]);
        assert(ascii_text(Seq::<char>::empty()));
    }
}

/// Two ASCII texts one after the other make an ASCII text.
proof fn lemma_concat_ascii(a: Seq<char>, b: Seq<char>)
    requires
        ascii_text(a),
        ascii_text(b),
    ensures
        ascii_text(a + b),
{
    assert forall|i: int| 0 <= i < (a + b).len() implies is_ascii_char(#[trigger] (a + b)[i]) by {
        if i < a.len() {
            assert((a + b)[i] == a[i]);
        } else {
            assert((a + b)[i] == b[i - a.len()]);
        }
    }
}

/// ASCII parts joined with an ASCII separator make an ASCII text.
proof fn lemma_join_ascii(parts: Seq<Seq<char>>, sep: Seq<char>)
    requires
        forall|k: int| 0 <= k < parts.len() ==> ascii_text(#[trigger] parts[k]),
        ascii_text(sep),
    ensures
        ascii_text(join(parts, sep)),
    decreases parts.len(),
{
    if parts.len() == 0 {
        assert(ascii_text(Seq::<char>::empty()));
    } else if parts.len() == 1 {
        assert(ascii_text(parts[0]));
    } else {
        let p0 = parts.drop_last();
        assert forall|k: int| 0 <= k < p0.len() implies ascii_text(#[trigger] p0[k]) by {
            assert(p0[k] == parts[k]);
        }
        lemma_join_ascii(p0, sep);
        assert(ascii_text(parts.last()));
        lemma_concat_ascii(join(p0, sep), sep);
        lemma_concat_ascii(join(p0, sep) + sep, parts.last());
    }
}

/// The parent path and the name of an ASCII import are ASCII.
proof fn lemma_import_parts_ascii(x: Seq<char>)
    requires
        ascii_text(x),
    ensures
        ascii_text(import_parent(x)),
        ascii_text(import_name(x)),
{
    lemma_split_path_ascii(x);
    lemma_split_path_nonempty(x);
    let parts = split_path(x);
    assert(ascii_text(parts[parts.len() - 1]));
    assert forall|k: int| 0 <= k < parts.drop_last().len() implies ascii_text(
        #[trigger] parts.drop_last()[k],
    ) by {
        assert(parts.drop_last()[k] == parts[k]);
    }
    assert(ascii_text(path_sep()));
    lemma_join_ascii(parts.drop_last(), path_sep());
}

/// The `use` path of a group with an ASCII path and ASCII names is ASCII.
proof fn lemma_group_line_ascii(p: Seq<char>, names: Seq<Seq<char>>)
    requires
        ascii_text(p),
        names.len() > 0,
        forall|k: int| 0 <= k < names.len() ==> ascii_text(#[trigger] names[k]),
    ensures
        ascii_text(group_line(p, names)),
{
    let lo = |n: Seq<char>| starts_lowercase(n);
    let up = |n: Seq<char>| !starts_lowercase(n);
    let lower = sorted_names(names.filter(lo));
    let upper = sorted_names(names.filter(up));
    lemma_sorted_names(names.filter(lo));
    lemma_sorted_names(names.filter(up));
    let parts = lower + upper;
    assert forall|k: int| 0 <= k < parts.len() implies ascii_text(#[trigger] parts[k]) by {
        let x = parts[k];
        if k < lower.len() {
            assert(lower.contains(x));
            names.lemma_filter_contains_rev(lo, x);
        } else {
            assert(upper[k - lower.len()] == x);
            assert(upper.contains(x));
            names.lemma_filter_contains_rev(up, x);
        }
        let i = choose|i: int| 0 <= i < names.len() && names[i] == x;
        assert(ascii_text(names[i]));
    }
    assert(ascii_text(comma_sep()));
    lemma_join_ascii(parts, comma_sep());
    let joined = join(parts, comma_sep());
    assert(ascii_text(path_sep()));
    assert(ascii_text(seq!['{']));
    assert(ascii_text(seq!['}']));
    lemma_concat_ascii(p, path_sep());
    lemma_concat_ascii(p + path_sep(), seq!['{']);
    lemma_concat_ascii(p + path_sep() + seq!['{'], joined);
    lemma_concat_ascii(p + path_sep() + seq!['{'] + joined, seq!['}']);
    assert(ascii_text(names[0]));
    lemma_concat_ascii(p + path_sep(), names[0]);
}

/// The `use` paths of ASCII imports are ASCII.
proof fn lemma_grouped_ascii(xs: Seq<Seq<char>>)
    requires
        forall|k: int| 0 <= k < xs.len() ==> ascii_text(#[trigger] xs[k]),
    ensures
        forall|k: int| 0 <= k < grouped_imports(xs).len() ==> ascii_text(#[trigger] grouped_imports(xs)[k]),
{
    lemma_import_groups(xs);
    lemma_groups_nonempty(xs);
    let g = import_groups(xs);
    assert forall|k: int| 0 <= k < grouped_imports(xs).len() implies ascii_text(#[trigger] grouped_imports(xs)[k]) by {
        assert(imports_name(xs, g[k].0, g[k].1[0]));
        let i = choose|i: int|
            0 <= i < xs.len() && (#[trigger] xs[i]).len() > 0 && import_parent(xs[i]) == g[k].0
                && import_name(xs[i]) == g[k].1[0];
        lemma_import_parts_ascii(xs[i]);
        assert forall|m: int| 0 <= m < g[k].1.len() implies ascii_text(#[trigger] g[k].1[m]) by {
            assert(imports_name(xs, g[k].0, g[k].1[m]));
            let j = choose|j: int|
                0 <= j < xs.len() && (#[trigger] xs[j]).len() > 0 && import_parent(xs[j]) == g[k].0
                    && import_name(xs[j]) == g[k].1[m];
            lemma_import_parts_ascii(xs[j]);
        }
        lemma_group_line_ascii(g[k].0, g[k].1);
    }
}

/// The `use` declarations, and the `pub use` ones, of a list of ASCII imports depend only on
/// which imports the list holds: reordering it, or repeating some of its imports, changes
/// nothing.
pub proof fn lemma_ascii_imports_order_irrelevant(xs: Seq<Seq<char>>, ys: Seq<Seq<char>>)
    requires
        forall|k: int| 0 <= k < xs.len() ==> ascii_text(#[trigger] xs[k]),
        forall|x: Seq<char>| xs.contains(x) <==> ys.contains(x),
    ensures
        imports_text(xs) == imports_text(ys),
        re_exports_text(xs) == re_exports_text(ys),
{
    lemma_grouped_ascii(xs);
    let lines = grouped_imports(xs);
    assert forall|a: Seq<char>, b: Seq<char>|
        lines.contains(a) && lines.contains(b) && invert_case(a) == invert_case(b) implies a == b by {
        let i = choose|i: int| 0 <= i < lines.len() && lines[i] == a;
        let j = choose|j: int| 0 <= j < lines.len() && lines[j] == b;
        assert(ascii_text(lines[i]) && ascii_text(lines[j]));
        lemma_invert_case_injective(a, b);
    }
    lemma_imports_order_irrelevant(xs, ys);
}

} // verus!
