//! Lexicographic order on text and stable sorting by text keys.
use vstd::prelude::*;
use crate::text::{chars_of, strings_view};

verus! {

/// `a` comes strictly before `b` when both are compared character by character by code point,
/// a proper prefix coming first. This is the order of `str` and `String` in Rust, since UTF-8
/// preserves code point order byte by byte.
pub open spec fn lex_lt(a: Seq<char>, b: Seq<char>) -> bool
    decreases a.len(),
{
    if a.len() == 0 {
        b.len() > 0
    } else if b.len() == 0 {
        false
    } else if (a[0] as int) < (b[0] as int) {
        true
    } else if a[0] == b[0] {
        lex_lt(a.drop_first(), b.drop_first())
    } else {
        false
    }
}

/// No text comes before itself.
pub proof fn lemma_lex_irreflexive(a: Seq<char>)
    ensures
        !lex_lt(a, a),
    decreases a.len(),
{
    if a.len() > 0 {
        lemma_lex_irreflexive(a.drop_first());
    }
}

/// Of two different texts, one comes before the other, and never both.
pub proof fn lemma_lex_total(a: Seq<char>, b: Seq<char>)
    ensures
        a != b ==> (lex_lt(a, b) || lex_lt(b, a)),
        !(lex_lt(a, b) && lex_lt(b, a)),
    decreases a.len(),
{
    if a.len() > 0 && b.len() > 0 {
        lemma_lex_total(a.drop_first(), b.drop_first());
        if a[0] == b[0] && a.drop_first() == b.drop_first() {
            assert(a == seq![a[0]] + a.drop_first());
            assert(b == seq![b[0]] + b.drop_first());
        }
        if a[0] != b[0] {
            assert((a[0] as int) != (b[0] as int));
        }
    } else if a.len() == 0 && b.len() == 0 {
        assert(a == b);
    }
}

/// The order is transitive.
pub proof fn lemma_lex_transitive(a: Seq<char>, b: Seq<char>, c: Seq<char>)
    requires
        lex_lt(a, b),
        lex_lt(b, c),
    ensures
        lex_lt(a, c),
    decreases a.len(),
{
    if a.len() > 0 && b.len() > 0 && c.len() > 0 && a[0] == b[0] && b[0] == c[0] {
        lemma_lex_transitive(a.drop_first(), b.drop_first(), c.drop_first());
    }
}

/// Whether `a` comes strictly before `b` in the order `lex_lt`.
pub fn lex_less(a: &Vec<char>, b: &Vec<char>) -> (r: bool)
    ensures
        r == lex_lt(a@, b@),
{
    let mut i: usize = 0;
    assert(a@.skip(0) == a@);
    assert(b@.skip(0) == b@);
    while i < a.len() && i < b.len() && a[i] == b[i]
        invariant
            i <= a.len(),
            i <= b.len(),
            lex_lt(a@, b@) == lex_lt(a@.skip(i as int), b@.skip(i as int)),
        decreases a.len() - i,
    {
        proof {
            assert(a@.skip(i as int).drop_first() == a@.skip(i + 1));
            assert(b@.skip(i as int).drop_first() == b@.skip(i + 1));
        }
        i = i + 1;
    }
    proof {
        if i < a.len() {
            assert(a@.skip(i as int)[0] == a@[i as int]);
        }
        if i < b.len() {
            assert(b@.skip(i as int)[0] == b@[i as int]);
        }
    }
    if i == a.len() {
        i < b.len()
    } else if i == b.len() {
        false
    } else {
        a[i] < b[i]
    }
}

/// The first place in `order` whose key comes strictly after `k`: where an element with key `k`
/// goes so that it lands after every element with an equal key.
pub open spec fn first_greater(order: Seq<int>, keys: Seq<Seq<char>>, k: Seq<char>) -> int
    decreases order.len(),
{
    if order.len() == 0 {
        0
    } else if lex_lt(k, keys[order[0]]) {
        0
    } else {
        1 + first_greater(order.drop_first(), keys, k)
    }
}

/// The positions `0..n` of `keys`, ordered by key; positions with equal keys keep their order.
/// Built by inserting each position, in turn, after every earlier one whose key is not greater.
pub open spec fn stable_order(keys: Seq<Seq<char>>, n: nat) -> Seq<int>
    decreases n,
{
    if n == 0 {
        Seq::empty()
    } else {
        let o = stable_order(keys, (n - 1) as nat);
        let p = first_greater(o, keys, keys[n - 1]);
        o.take(p).push(n - 1) + o.skip(p)
    }
}

/// The elements of `s` in the order given by positions.
pub open spec fn arrange<A>(s: Seq<A>, order: Seq<int>) -> Seq<A> {
    order.map_values(|i: int| s[i])
}

/// `s` sorted stably by the keys that `keys` gives for each element.
pub open spec fn sort_by_keys<A>(s: Seq<A>, keys: Seq<Seq<char>>) -> Seq<A> {
    arrange(s, stable_order(keys, s.len()))
}

proof fn lemma_first_greater_at(order: Seq<int>, keys: Seq<Seq<char>>, k: Seq<char>, p: int)
    requires
        0 <= p <= order.len(),
        forall|q: int| 0 <= q < p ==> !lex_lt(k, #[trigger] keys[order[q]]),
        p < order.len() ==> lex_lt(k, keys[order[p]]),
    ensures
        first_greater(order, keys, k) == p,
    decreases p,
{
    if p > 0 {
        assert(!lex_lt(k, keys[order[0]]));
        assert forall|q: int| 0 <= q < p - 1 implies !lex_lt(
            k,
            #[trigger] keys[order.drop_first()[q]],
        ) by {
            assert(order.drop_first()[q] == order[q + 1]);
        }
        lemma_first_greater_at(order.drop_first(), keys, k, p - 1);
    }
}

pub proof fn lemma_stable_order_range(keys: Seq<Seq<char>>, n: nat)
    ensures
        stable_order(keys, n).len() == n,
        forall|q: int| 0 <= q < n ==> 0 <= #[trigger] stable_order(keys, n)[q] < n,
    decreases n,
{
    if n > 0 {
        lemma_stable_order_range(keys, (n - 1) as nat);
        let o = stable_order(keys, (n - 1) as nat);
        lemma_first_greater_range(o, keys, keys[n - 1]);
    }
}

proof fn lemma_first_greater_range(order: Seq<int>, keys: Seq<Seq<char>>, k: Seq<char>)
    ensures
        0 <= first_greater(order, keys, k) <= order.len(),
    decreases order.len(),
{
    if order.len() > 0 {
        lemma_first_greater_range(order.drop_first(), keys, k);
    }
}

/// Where `first_greater` puts a key: after every position whose key is not greater, before one
/// whose key is greater.
proof fn lemma_first_greater_props(order: Seq<int>, keys: Seq<Seq<char>>, k: Seq<char>)
    ensures
        0 <= first_greater(order, keys, k) <= order.len(),
        forall|q: int|
            0 <= q < first_greater(order, keys, k) ==> !lex_lt(k, #[trigger] keys[order[q]]),
        first_greater(order, keys, k) < order.len() ==> lex_lt(
            k,
            keys[order[first_greater(order, keys, k)]],
        ),
    decreases order.len(),
{
    if order.len() > 0 && !lex_lt(k, keys[order[0]]) {
        let rest = order.drop_first();
        lemma_first_greater_props(rest, keys, k);
        assert forall|q: int| 0 <= q < first_greater(order, keys, k) implies !lex_lt(
            k,
            #[trigger] keys[order[q]],
        ) by {
            if q > 0 {
                assert(order[q] == rest[q - 1]);
            }
        }
    }
}

/// Whether `order` lists positions by key, never a greater key before a smaller one, and
/// positions with equal keys in increasing order.
pub open spec fn stably_sorted(keys: Seq<Seq<char>>, order: Seq<int>) -> bool {
    forall|i: int, j: int|
        #![trigger order[i], order[j]]
        0 <= i < j < order.len() ==> !lex_lt(keys[order[j]], keys[order[i]]) && (keys[order[i]]
            == keys[order[j]] ==> order[i] < order[j])
}

/// The insertion order is a stable sort of the positions `0..n`.
proof fn lemma_stable_order_sorted(keys: Seq<Seq<char>>, n: nat)
    ensures
        stable_order(keys, n).len() == n,
        stably_sorted(keys, stable_order(keys, n)),
        forall|q: int| 0 <= q < n ==> 0 <= #[trigger] stable_order(keys, n)[q] < n,
    decreases n,
{
    if n > 0 {
        let m = (n - 1) as nat;
        lemma_stable_order_sorted(keys, m);
        let o = stable_order(keys, m);
        let k = keys[n - 1];
        let p = first_greater(o, keys, k);
        lemma_first_greater_props(o, keys, k);
        let o2 = o.take(p).push(n - 1) + o.skip(p);
        assert(stable_order(keys, n) == o2);
        assert forall|q: int| 0 <= q < n implies 0 <= #[trigger] o2[q] < n by {
            if q > p {
                assert(o2[q] == o[q - 1]);
            }
        }
        assert forall|i: int, j: int| 0 <= i < j < o2.len() implies !lex_lt(
            keys[#[trigger] o2[j]],
            keys[#[trigger] o2[i]],
        ) && (keys[o2[i]] == keys[o2[j]] ==> o2[i] < o2[j]) by {
            if j < p {
                assert(o2[i] == o[i] && o2[j] == o[j]);
            } else if j == p {
                assert(o2[i] == o[i]);
                assert(!lex_lt(k, keys[o[i]]));
            } else if i < p {
                assert(o2[i] == o[i] && o2[j] == o[j - 1]);
            } else if i == p {
                assert(o2[j] == o[j - 1]);
                let kj = keys[o[j - 1]];
                if lex_lt(kj, k) {
                    lemma_lex_transitive(kj, k, keys[o[p]]);
                    if p == j - 1 {
                        lemma_lex_irreflexive(kj);
                    } else {
                        assert(!lex_lt(keys[o[j - 1]], keys[o[p]]));
                    }
                }
                if kj == k {
                    if p == j - 1 {
                        lemma_lex_irreflexive(k);
                    } else {
                        assert(!lex_lt(keys[o[j - 1]], keys[o[p]]));
                    }
                }
            } else {
                assert(o2[i] == o[i - 1] && o2[j] == o[j - 1]);
            }
        }
    }
}

/// The elements arranged by the insertion order, as many of each as the first `n` elements hold.
proof fn lemma_stable_order_multiset<A>(s: Seq<A>, keys: Seq<Seq<char>>, n: nat)
    requires
        n <= s.len(),
    ensures
        arrange(s, stable_order(keys, n)).to_multiset() == s.take(n as int).to_multiset(),
    decreases n,
{
    broadcast use vstd::seq_lib::to_multiset_build, vstd::seq_lib::to_multiset_insert;

    if n == 0 {
        assert(arrange(s, stable_order(keys, 0)) =~= Seq::<A>::empty());
        assert(s.take(0) =~= Seq::<A>::empty());
    } else {
        let m = (n - 1) as nat;
        lemma_stable_order_multiset(s, keys, m);
        let o = stable_order(keys, m);
        let p = first_greater(o, keys, keys[n - 1]);
        lemma_first_greater_range(o, keys, keys[n - 1]);
        assert(stable_order(keys, n) =~= o.insert(p, n - 1));
        assert(arrange(s, o.insert(p, n - 1)) =~= arrange(s, o).insert(p, s[n - 1]));
        assert(s.take(n as int) =~= s.take(m as int).push(s[n - 1]));
    }
}

/// Sorting by keys is a stable sort: it rearranges the elements, keeping each as often as it
/// occurs; it never puts an element with a greater key before one with a smaller key; and
/// elements with equal keys keep their relative order.
pub proof fn lemma_sort_by_keys_is_stable_sort<A>(s: Seq<A>, keys: Seq<Seq<char>>)
    requires
        keys.len() == s.len(),
    ensures
        sort_by_keys(s, keys).to_multiset() == s.to_multiset(),
        stable_order(keys, s.len()).len() == s.len(),
        forall|q: int|
            0 <= q < s.len() ==> #[trigger] sort_by_keys(s, keys)[q] == s[stable_order(
                keys,
                s.len(),
            )[q]],
        stably_sorted(keys, stable_order(keys, s.len())),
        forall|q: int|
            0 <= q < s.len() ==> 0 <= #[trigger] stable_order(keys, s.len())[q] < s.len(),
{
    lemma_stable_order_sorted(keys, s.len());
    lemma_stable_order_multiset(s, keys, s.len());
    assert(s.take(s.len() as int) =~= s);
}

/// A relation that holds between every element and each later one still does after filtering.
pub proof fn lemma_filter_pairwise<A>(s: Seq<A>, f: spec_fn(A) -> bool, rel: spec_fn(A, A) -> bool)
    requires
        forall|i: int, j: int| 0 <= i < j < s.len() ==> #[trigger] rel(s[i], s[j]),
    ensures
        forall|i: int, j: int|
            0 <= i < j < s.filter(f).len() ==> #[trigger] rel(s.filter(f)[i], s.filter(f)[j]),
    decreases s.len(),
{
    if s.len() > 0 {
        let t = s.drop_last();
        assert forall|i: int, j: int| 0 <= i < j < t.len() implies #[trigger] rel(t[i], t[j]) by {
            assert(t[i] == s[i] && t[j] == s[j]);
        }
        lemma_filter_pairwise(t, f, rel);
        let r = s.filter(f);
        let rt = t.filter(f);
        reveal(Seq::filter);
        if !f(s.last()) {
            assert(r == rt);
        } else {
            assert(r == rt.push(s.last()));
            assert forall|i: int, j: int| 0 <= i < j < r.len() implies #[trigger] rel(r[i], r[j]) by {
                if j == r.len() - 1 {
                    assert(r[i] == rt[i]);
                    assert(rt.contains(rt[i])) by {
                        assert(0 <= i < rt.len());
                    }
                    t.lemma_filter_contains_rev(f, rt[i]);
                    let k = choose|k: int| 0 <= k < t.len() && t[k] == rt[i];
                    assert(t[k] == s[k]);
                    assert(rel(s[k], s[s.len() - 1]));
                } else {
                    assert(r[i] == rt[i] && r[j] == rt[j]);
                }
            }
        }
    }
}

/// A filtered sequence holds each element that passes the filter as often as the sequence does,
/// and no other.
pub proof fn lemma_filter_count<A>(s: Seq<A>, f: spec_fn(A) -> bool, x: A)
    ensures
        s.filter(f).to_multiset().count(x) == if f(x) {
            s.to_multiset().count(x)
        } else {
            0
        },
    decreases s.len(),
{
    broadcast use
        vstd::seq_lib::to_multiset_build,
        vstd::seq_lib::to_multiset_contains,
        vstd::multiset::group_multiset_axioms,
    ;

    reveal(Seq::filter);
    if s.len() == 0 {
        assert(s.filter(f).len() == 0);
        assert(!s.contains(x));
        assert(!s.filter(f).contains(x));
    } else {
        let t = s.drop_last();
        lemma_filter_count(t, f, x);
        assert(t.push(s.last()) =~= s);
    }
}

/// The positions `0..keys.len()` ordered stably by key.
pub fn stable_sort_positions(keys: &Vec<Vec<char>>) -> (order: Vec<usize>)
    ensures
        order@.len() == keys@.len(),
        forall|q: int|
            0 <= q < order@.len() ==> #[trigger] order@[q] as int == stable_order(
                keys_view(keys@),
                keys@.len(),
            )[q],
        forall|q: int| 0 <= q < order@.len() ==> #[trigger] order@[q] < keys@.len(),
        stable_order(keys_view(keys@), keys@.len()).len() == keys@.len(),
{
    proof {
        lemma_stable_order_range(keys_view(keys@), keys@.len());
    }
    let mut order: Vec<usize> = Vec::new();
    let ghost kv = keys_view(keys@);
    let mut j: usize = 0;
    while j < keys.len()
        invariant
            j <= keys.len(),
            kv == keys_view(keys@),
            order@.len() == j,
            forall|q: int|
                0 <= q < j ==> #[trigger] order@[q] as int == stable_order(kv, j as nat)[q],
            forall|q: int| 0 <= q < j ==> #[trigger] order@[q] < j,
        decreases keys.len() - j,
    {
        let ghost o = stable_order(kv, j as nat);
        proof {
            lemma_stable_order_range(kv, j as nat);
        }
        let mut p: usize = 0;
        while p < order.len() && !lex_less(&keys[j], &keys[order[p]])
            invariant
                p <= order.len() == j < keys.len(),
                kv == keys_view(keys@),
                o == stable_order(kv, j as nat),
                forall|q: int| 0 <= q < j ==> #[trigger] order@[q] as int == o[q],
                forall|q: int| 0 <= q < j ==> #[trigger] order@[q] < j,
                forall|q: int| 0 <= q < p ==> !lex_lt(kv[j as int], #[trigger] kv[o[q]]),
            decreases order.len() - p,
        {
            assert(kv[order@[p as int] as int] == keys@[order@[p as int] as int]@);
            p = p + 1;
        }
        proof {
            if p < order.len() {
                assert(kv[order@[p as int] as int] == keys@[order@[p as int] as int]@);
            }
            assert(kv[j as int] == keys@[j as int]@);
            lemma_first_greater_at(o, kv, kv[j as int], p as int);
        }
        order.insert(p, j);
        proof {
            let o2 = stable_order(kv, (j + 1) as nat);
            assert(o2 == o.take(p as int).push(j as int) + o.skip(p as int));
            assert forall|q: int| 0 <= q < j + 1 implies #[trigger] order@[q] as int == o2[q] by {
                if q < p {
                } else if q == p {
                } else {
                    assert(o2[q] == o[q - 1]);
                }
            }
        }
        j = j + 1;
    }
    order
}

/// The character views of a sequence of character vectors.
pub open spec fn keys_view(v: Seq<Vec<char>>) -> Seq<Seq<char>> {
    v.map_values(|k: Vec<char>| k@)
}

/// `s` without runs of repeated neighbours, as `Vec::dedup` leaves it.
pub open spec fn dedup<A>(s: Seq<A>) -> Seq<A>
    decreases s.len(),
{
    if s.len() == 0 {
        s
    } else {
        let d = dedup(s.drop_last());
        if d.len() > 0 && d.last() == s.last() {
            d
        } else {
            d.push(s.last())
        }
    }
}

/// Removing repeated neighbours from a sequence that never decreases leaves a strictly
/// increasing one with the same elements.
pub proof fn lemma_dedup_sorted(s: Seq<Seq<char>>)
    requires
        forall|i: int, j: int| 0 <= i < j < s.len() ==> !lex_lt(#[trigger] s[j], #[trigger] s[i]),
    ensures
        forall|i: int, j: int|
            0 <= i < j < dedup(s).len() ==> lex_lt(#[trigger] dedup(s)[i], #[trigger] dedup(s)[j]),
        forall|i: int| 0 <= i < dedup(s).len() ==> s.contains(#[trigger] dedup(s)[i]),
        forall|i: int| 0 <= i < s.len() ==> dedup(s).contains(#[trigger] s[i]),
        s.len() > 0 ==> dedup(s).len() > 0 && dedup(s).last() == s.last(),
    decreases s.len(),
{
    if s.len() > 0 {
        let t = s.drop_last();
        let x = s.last();
        assert forall|i: int, j: int| 0 <= i < j < t.len() implies !lex_lt(
            #[trigger] t[j],
            #[trigger] t[i],
        ) by {
            assert(t[i] == s[i] && t[j] == s[j]);
        }
        lemma_dedup_sorted(t);
        let d = dedup(t);
        assert forall|i: int| 0 <= i < d.len() implies exists|k: int|
            0 <= k < t.len() && t[k] == #[trigger] d[i] by {
            assert(t.contains(d[i]));
        }
        if d.len() > 0 && d.last() == x {
            assert(dedup(s) == d);
            assert forall|i: int| 0 <= i < d.len() implies s.contains(#[trigger] d[i]) by {
                let k = choose|k: int| 0 <= k < t.len() && t[k] == d[i];
                assert(s[k] == t[k]);
            }
            assert forall|i: int| 0 <= i < s.len() implies d.contains(#[trigger] s[i]) by {
                if i < t.len() {
                    assert(s[i] == t[i]);
                } else {
                    assert(d[d.len() - 1] == x);
                }
            }
        } else {
            let r = d.push(x);
            assert(dedup(s) == r);
            assert forall|i: int, j: int| 0 <= i < j < r.len() implies lex_lt(
                #[trigger] r[i],
                #[trigger] r[j],
            ) by {
                if j < d.len() {
                    assert(r[i] == d[i] && r[j] == d[j]);
                } else {
                    assert(r[i] == d[i] && r[j] == x);
                    let k = choose|k: int| 0 <= k < t.len() && t[k] == d[i];
                    assert(s[k] == d[i]);
                    assert(!lex_lt(s[s.len() - 1], s[k]));
                    if d[i] == x {
                        assert(t.len() > 0);
                        if i < d.len() - 1 {
                            assert(lex_lt(d[i], d[d.len() - 1]));
                            assert(d[d.len() - 1] == s[s.len() - 2]);
                            assert(!lex_lt(s[s.len() - 1], s[s.len() - 2]));
                        }
                    }
                    lemma_lex_total(d[i], x);
                }
            }
            assert forall|i: int| 0 <= i < r.len() implies s.contains(#[trigger] r[i]) by {
                if i < d.len() {
                    let k = choose|k: int| 0 <= k < t.len() && t[k] == d[i];
                    assert(s[k] == t[k]);
                } else {
                    assert(s[s.len() - 1] == x);
                }
            }
            assert forall|i: int| 0 <= i < s.len() implies r.contains(#[trigger] s[i]) by {
                if i < t.len() {
                    assert(s[i] == t[i]);
                    let k = choose|k: int| 0 <= k < d.len() && d[k] == t[i];
                    assert(r[k] == d[k]);
                } else {
                    assert(r[d.len() as int] == x);
                }
            }
        }
    }
}

/// Copies of the strings at the given positions, in that order.
pub(crate) fn arrange_strings(lines: &Vec<String>, order: &Vec<usize>, spec_order: Ghost<Seq<int>>) -> (res:
    Vec<String>)
    requires
        order@.len() == spec_order@.len(),
        forall|q: int| 0 <= q < order@.len() ==> #[trigger] order@[q] as int == spec_order@[q],
        forall|q: int| 0 <= q < order@.len() ==> #[trigger] order@[q] < lines@.len(),
    ensures
        strings_view(res@) == arrange(strings_view(lines@), spec_order@),
        res@.len() == order@.len(),
{
    let mut res: Vec<String> = Vec::new();
    let mut q: usize = 0;
    while q < order.len()
        invariant
            q <= order@.len() == spec_order@.len(),
            forall|k: int| 0 <= k < order@.len() ==> #[trigger] order@[k] as int == spec_order@[k],
            forall|k: int| 0 <= k < order@.len() ==> #[trigger] order@[k] < lines@.len(),
            res@.len() == q,
            forall|k: int| 0 <= k < q ==> (#[trigger] res@[k])@ == lines@[order@[k] as int]@,
        decreases order.len() - q,
    {
        res.push(lines[order[q]].clone());
        q = q + 1;
    }
    proof {
        assert(strings_view(res@) =~= arrange(strings_view(lines@), spec_order@));
    }
    res
}

/// The characters of each string.
pub fn chars_of_all(lines: &Vec<String>) -> (res: Vec<Vec<char>>)
    ensures
        keys_view(res@) == strings_view(lines@),
        res@.len() == lines@.len(),
{
    let mut res: Vec<Vec<char>> = Vec::new();
    let mut i: usize = 0;
    while i < lines.len()
        invariant
            i <= lines.len(),
            res@.len() == i,
            forall|k: int| 0 <= k < i ==> (#[trigger] res@[k])@ == lines@[k]@,
        decreases lines.len() - i,
    {
        res.push(chars_of(lines[i].as_str()));
        i = i + 1;
    }
    proof {
        assert(keys_view(res@) =~= strings_view(lines@));
    }
    res
}

} // verus!
