//! Character-level text operations used when rendering code, each with the mathematical
//! statement of what it computes.
use vstd::prelude::*;

verus! {

/// `String::push` appends one character to the end of the string.
pub assume_specification[ String::push ](s: &mut String, ch: char)
    ensures
        final(s)@ == old(s)@.push(ch),
;

// ---------------------------------------------------------------------------------------------
// Specifications
// ---------------------------------------------------------------------------------------------

/// Whether a character has the Unicode `White_Space` property, which is what `str::trim` strips.
pub open spec fn is_ws(c: char) -> bool {
    let u = c as u32;
    (9 <= u && u <= 13) || u == 32 || u == 0x85 || u == 0xa0 || u == 0x1680 || (0x2000 <= u && u
        <= 0x200a) || u == 0x2028 || u == 0x2029 || u == 0x202f || u == 0x205f || u == 0x3000
}

/// The text with leading whitespace removed.
pub open spec fn trim_start(s: Seq<char>) -> Seq<char>
    decreases s.len(),
{
    if s.len() > 0 && is_ws(s[0]) {
        trim_start(s.drop_first())
    } else {
        s
    }
}

/// The text with trailing whitespace removed.
pub open spec fn trim_end(s: Seq<char>) -> Seq<char>
    decreases s.len(),
{
    if s.len() > 0 && is_ws(s.last()) {
        trim_end(s.drop_last())
    } else {
        s
    }
}

/// The text with leading and trailing whitespace removed, as `str::trim` does.
pub open spec fn trim(s: Seq<char>) -> Seq<char> {
    trim_end(trim_start(s))
}

/// Pieces joined together with a separator between each neighbouring pair.
pub open spec fn join(parts: Seq<Seq<char>>, sep: Seq<char>) -> Seq<char>
    decreases parts.len(),
{
    if parts.len() == 0 {
        Seq::empty()
    } else if parts.len() == 1 {
        parts[0]
    } else {
        join(parts.drop_last(), sep) + sep + parts.last()
    }
}

/// The pieces that are not empty, in the order in which they come.
pub open spec fn drop_empty(parts: Seq<Seq<char>>) -> Seq<Seq<char>>
    decreases parts.len(),
{
    if parts.len() == 0 {
        parts
    } else if parts.last().len() > 0 {
        drop_empty(parts.drop_last()).push(parts.last())
    } else {
        drop_empty(parts.drop_last())
    }
}

/// The pieces of `s` between occurrences of `c`, as `str::split` with a character pattern
/// gives them: always one more piece than there are occurrences.
pub open spec fn split_char(s: Seq<char>, c: char) -> Seq<Seq<char>>
    decreases s.len(),
{
    if s.len() == 0 {
        seq![Seq::empty()]
    } else {
        let r = split_char(s.drop_last(), c);
        if s.last() == c {
            r.push(Seq::empty())
        } else {
            r.update(r.len() - 1, r.last().push(s.last()))
        }
    }
}

/// `n` space characters.
pub open spec fn spaces(n: nat) -> Seq<char> {
    Seq::new(n, |i: int| ' ')
}

/// A line with `prefix` put in front of it, or `blank` in its place when the line is empty.
pub open spec fn prefixed_line(prefix: Seq<char>, blank: Seq<char>, line: Seq<char>) -> Seq<char> {
    if line.len() == 0 {
        blank
    } else {
        prefix + line
    }
}

/// Every line of `s` with `prefix` put in front of it; empty lines become `blank`.
pub open spec fn prefix_lines(prefix: Seq<char>, blank: Seq<char>, s: Seq<char>) -> Seq<char> {
    join(
        split_char(s, '\n').map_values(|l: Seq<char>| prefixed_line(prefix, blank, l)),
        seq!['\n'],
    )
}

/// Every line of `s` shifted right by `n` spaces; empty lines stay empty so that no trailing
/// whitespace is produced.
pub open spec fn indent_lines(n: nat, s: Seq<char>) -> Seq<char> {
    prefix_lines(spaces(n), Seq::empty(), s)
}

/// Whether the character `c` occurs in `s`.
pub open spec fn contains_char(s: Seq<char>, c: char) -> bool {
    exists|i: int| 0 <= i < s.len() && s[i] == c
}

/// Number of bytes the character takes in UTF-8.
pub open spec fn char_utf8_len(c: char) -> nat {
    let u = c as u32;
    if u < 0x80 {
        1
    } else if u < 0x800 {
        2
    } else if u < 0x10000 {
        3
    } else {
        4
    }
}

/// Number of bytes the text takes in UTF-8, which is what `str::len` reports.
pub open spec fn utf8_len(s: Seq<char>) -> nat
    decreases s.len(),
{
    if s.len() == 0 {
        0
    } else {
        utf8_len(s.drop_last()) + char_utf8_len(s.last())
    }
}

/// Whether `p` is a prefix of `s`.
pub open spec fn starts_with(s: Seq<char>, p: Seq<char>) -> bool {
    p.len() <= s.len() && s.subrange(0, p.len() as int) == p
}

/// Whether `needle` occurs somewhere inside `s`.
pub open spec fn contains_seq(s: Seq<char>, needle: Seq<char>) -> bool {
    exists|i: int| 0 <= i <= s.len() - needle.len() && #[trigger] s.subrange(i, i + needle.len())
        == needle
}

// ---------------------------------------------------------------------------------------------
// Lemmas
// ---------------------------------------------------------------------------------------------

/// Trimming the front of a text amounts to skipping a run of whitespace.
pub proof fn lemma_trim_start_skip(s: Seq<char>, i: int)
    requires
        0 <= i <= s.len(),
        forall|k: int| 0 <= k < i ==> is_ws(#[trigger] s[k]),
    ensures
        trim_start(s) == trim_start(s.skip(i)),
    decreases i,
{
    if i > 0 {
        assert(s.skip(1) == s.drop_first());
        lemma_trim_start_skip(s.drop_first(), i - 1);
        assert(s.drop_first().skip(i - 1) == s.skip(i));
    } else {
        assert(s.skip(0) == s);
    }
}

/// Trimming the end of a text amounts to dropping a run of whitespace.
pub proof fn lemma_trim_end_take(s: Seq<char>, j: int)
    requires
        0 <= j <= s.len(),
        forall|k: int| j <= k < s.len() ==> is_ws(#[trigger] s[k]),
    ensures
        trim_end(s) == trim_end(s.take(j)),
    decreases s.len() - j,
{
    if j < s.len() {
        lemma_trim_end_take(s.drop_last(), j);
        assert(s.drop_last().take(j) == s.take(j));
    } else {
        assert(s.take(j) == s);
    }
}

/// A text holds whatever stands in its middle.
pub proof fn lemma_contains_middle(a: Seq<char>, b: Seq<char>, c: Seq<char>)
    ensures
        contains_seq(a + b + c, b),
{
    assert((a + b + c).subrange(a.len() as int, (a.len() + b.len()) as int) =~= b);
}

/// Trimming keeps every run of text that starts and ends with a character that is not
/// whitespace, at a position moved only by what was cut from the front.
pub proof fn lemma_trim_keeps(s: Seq<char>, p: int, len: int)
    requires
        0 <= p,
        0 < len,
        p + len <= s.len(),
        !is_ws(s[p]),
        !is_ws(s[p + len - 1]),
    ensures
        contains_seq(trim(s), s.subrange(p, p + len)),
{
    let i = lemma_trim_start_cut(s);
    let t = s.skip(i);
    assert(i <= p) by {
        if i > p {
            assert(is_ws(s[p]));
        }
    }
    let j = lemma_trim_end_cut(t);
    assert(j >= p - i + len) by {
        if j < p - i + len {
            assert(t[p - i + len - 1] == s[p + len - 1]);
        }
    }
    let r = t.take(j);
    assert(r.subrange(p - i, p - i + len) =~= s.subrange(p, p + len));
}

/// What trimming the front cuts: a run of whitespace.
pub proof fn lemma_trim_start_cut(s: Seq<char>) -> (i: int)
    ensures
        0 <= i <= s.len(),
        trim_start(s) == s.skip(i),
        forall|k: int| 0 <= k < i ==> is_ws(#[trigger] s[k]),
    decreases s.len(),
{
    if s.len() > 0 && is_ws(s[0]) {
        let i0 = lemma_trim_start_cut(s.drop_first());
        assert(s.drop_first().skip(i0) =~= s.skip(i0 + 1));
        assert forall|k: int| 0 <= k < i0 + 1 implies is_ws(#[trigger] s[k]) by {
            if k > 0 {
                assert(s[k] == s.drop_first()[k - 1]);
            }
        }
        i0 + 1
    } else {
        assert(s.skip(0) =~= s);
        0
    }
}

/// What trimming the end cuts: a run of whitespace.
pub proof fn lemma_trim_end_cut(s: Seq<char>) -> (j: int)
    ensures
        0 <= j <= s.len(),
        trim_end(s) == s.take(j),
        forall|k: int| j <= k < s.len() ==> is_ws(#[trigger] s[k]),
    decreases s.len(),
{
    if s.len() > 0 && is_ws(s.last()) {
        let j0 = lemma_trim_end_cut(s.drop_last());
        assert(s.drop_last().take(j0) =~= s.take(j0));
        assert forall|k: int| j0 <= k < s.len() implies is_ws(#[trigger] s[k]) by {
            if k < s.len() - 1 {
                assert(s[k] == s.drop_last()[k]);
            }
        }
        j0
    } else {
        assert(s.take(s.len() as int) =~= s);
        s.len() as int
    }
}

/// The join of pieces with one more piece appended.
pub proof fn lemma_join_push(parts: Seq<Seq<char>>, sep: Seq<char>, p: Seq<char>)
    ensures
        join(parts.push(p), sep) == if parts.len() == 0 {
            p
        } else {
            join(parts, sep) + sep + p
        },
{
    assert(parts.push(p).drop_last() == parts);
}

/// Splitting a text at a character always gives at least one piece.
pub proof fn lemma_split_char_nonempty(s: Seq<char>, c: char)
    ensures
        split_char(s, c).len() >= 1,
    decreases s.len(),
{
    if s.len() > 0 {
        lemma_split_char_nonempty(s.drop_last(), c);
    }
}

// ---------------------------------------------------------------------------------------------
// Executable operations
// ---------------------------------------------------------------------------------------------

/// Whether a character is whitespace in the sense of `is_ws`.
pub fn char_is_ws(c: char) -> (r: bool)
    ensures
        r == is_ws(c),
{
    let u = c as u32;
    (9 <= u && u <= 13) || u == 32 || u == 0x85 || u == 0xa0 || u == 0x1680 || (0x2000 <= u && u
        <= 0x200a) || u == 0x2028 || u == 0x2029 || u == 0x202f || u == 0x205f || u == 0x3000
}

/// The characters of a string slice, as a vector.
pub fn chars_of(s: &str) -> (res: Vec<char>)
    ensures
        res@ == s@,
{
    let mut res: Vec<char> = Vec::new();
    for c in it: s.chars()
        invariant
            res@ == it.seq().take(it.index() as int),
    {
        res.push(c);
    }
    res
}

/// A string made of the characters `v[lo..hi]`.
pub fn string_from_range(v: &Vec<char>, lo: usize, hi: usize) -> (res: String)
    requires
        lo <= hi <= v.len(),
    ensures
        res@ == v@.subrange(lo as int, hi as int),
{
    let mut res = String::new();
    let mut i = lo;
    while i < hi
        invariant
            lo <= i <= hi <= v.len(),
            res@ == v@.subrange(lo as int, i as int),
        decreases hi - i,
    {
        res.push(v[i]);
        i = i + 1;
        assert(res@ == v@.subrange(lo as int, i as int));
    }
    res
}

/// Appends the characters `v[lo..hi]` to `s`.
pub fn push_range(s: &mut String, v: &Vec<char>, lo: usize, hi: usize)
    requires
        lo <= hi <= v.len(),
    ensures
        final(s)@ == old(s)@ + v@.subrange(lo as int, hi as int),
{
    let mut i = lo;
    while i < hi
        invariant
            lo <= i <= hi <= v.len(),
            s@ == old(s)@ + v@.subrange(lo as int, i as int),
        decreases hi - i,
    {
        s.push(v[i]);
        i = i + 1;
        assert(s@ == old(s)@ + v@.subrange(lo as int, i as int));
    }
}

/// A copy of a string slice.
pub fn to_string(s: &str) -> (res: String)
    ensures
        res@ == s@,
{
    s.to_owned()
}

/// The concatenation of two string slices.
pub fn concat2(a: &str, b: &str) -> (res: String)
    ensures
        res@ == a@ + b@,
{
    let mut r = a.to_owned();
    r.append(b);
    r
}

/// The concatenation of three string slices.
pub fn concat3(a: &str, b: &str, c: &str) -> (res: String)
    ensures
        res@ == a@ + b@ + c@,
{
    let mut r = a.to_owned();
    r.append(b);
    r.append(c);
    r
}

/// The text with leading and trailing whitespace removed, as `str::trim` does.
pub fn trim_str(s: &str) -> (res: String)
    ensures
        res@ == trim(s@),
{
    let v = chars_of(s);
    let n = v.len();
    let mut i: usize = 0;
    while i < n && char_is_ws(v[i])
        invariant
            i <= n == v.len(),
            v@ == s@,
            forall|k: int| 0 <= k < i ==> is_ws(#[trigger] v@[k]),
        decreases n - i,
    {
        i = i + 1;
    }
    proof {
        lemma_trim_start_skip(v@, i as int);
        if i < n {
            assert(trim_start(v@.skip(i as int)) == v@.skip(i as int));
        } else {
            assert(v@.skip(i as int).len() == 0);
        }
    }
    let mut j: usize = n;
    while j > i && char_is_ws(v[j - 1])
        invariant
            i <= j <= n == v.len(),
            v@ == s@,
            i < n ==> !is_ws(v@[i as int]),
            forall|k: int| j <= k < n ==> is_ws(#[trigger] v@[k]),
        decreases j - i,
    {
        j = j - 1;
    }
    proof {
        let t = v@.skip(i as int);
        assert(trim_start(v@) == t);
        assert forall|k: int| j - i <= k < t.len() implies is_ws(#[trigger] t[k]) by {
            assert(t[k] == v@[k + i]);
        }
        lemma_trim_end_take(t, j - i);
        if j > i {
            assert(t.take(j - i).last() == v@[j - 1]);
            assert(trim_end(t.take(j - i)) == t.take(j - i));
        } else {
            assert(t.take(j - i).len() == 0);
        }
        assert(t.take(j - i) == v@.subrange(i as int, j as int));
    }
    string_from_range(&v, i, j)
}

/// The character views of a sequence of strings.
pub open spec fn strings_view(v: Seq<String>) -> Seq<Seq<char>> {
    v.map_values(|s: String| s@)
}

/// Dropping empty pieces from a sequence with one more piece.
pub proof fn lemma_drop_empty_push(parts: Seq<Seq<char>>, p: Seq<char>)
    ensures
        drop_empty(parts.push(p)) == if p.len() > 0 {
            drop_empty(parts).push(p)
        } else {
            drop_empty(parts)
        },
{
    assert(parts.push(p).drop_last() == parts);
}

/// The pieces joined with `sep` between neighbours.
pub fn join_strings(parts: &Vec<String>, sep: &str) -> (res: String)
    ensures
        res@ == join(strings_view(parts@), sep@),
{
    let mut res = String::new();
    let mut i: usize = 0;
    while i < parts.len()
        invariant
            i <= parts.len(),
            res@ == join(strings_view(parts@).take(i as int), sep@),
        decreases parts.len() - i,
    {
        proof {
            let v = strings_view(parts@);
            assert(v.take(i + 1) == v.take(i as int).push(v[i as int]));
            lemma_join_push(v.take(i as int), sep@, v[i as int]);
        }
        if i > 0 {
            res.append(sep);
        }
        res.append(parts[i].as_str());
        i = i + 1;
    }
    proof {
        assert(strings_view(parts@).take(parts.len() as int) == strings_view(parts@));
    }
    res
}

/// The non-empty pieces joined with `sep` between neighbours.
pub fn join_nonempty(parts: &Vec<String>, sep: &str) -> (res: String)
    ensures
        res@ == join(drop_empty(strings_view(parts@)), sep@),
{
    let mut res = String::new();
    let mut any = false;
    let mut i: usize = 0;
    while i < parts.len()
        invariant
            i <= parts.len(),
            res@ == join(drop_empty(strings_view(parts@).take(i as int)), sep@),
            any == (drop_empty(strings_view(parts@).take(i as int)).len() > 0),
        decreases parts.len() - i,
    {
        proof {
            let v = strings_view(parts@);
            assert(v.take(i + 1) == v.take(i as int).push(v[i as int]));
            lemma_drop_empty_push(v.take(i as int), v[i as int]);
            lemma_join_push(drop_empty(v.take(i as int)), sep@, v[i as int]);
        }
        if !parts[i].as_str().is_empty() {
            if any {
                res.append(sep);
            }
            res.append(parts[i].as_str());
            any = true;
        }
        i = i + 1;
    }
    proof {
        assert(strings_view(parts@).take(parts.len() as int) == strings_view(parts@));
    }
    res
}

/// The lines of `s` that precede its last line, each with its prefix and a newline.
pub open spec fn prefixed_done(prefix: Seq<char>, blank: Seq<char>, done: Seq<Seq<char>>) -> Seq<
    char,
> {
    if done.len() == 0 {
        Seq::empty()
    } else {
        join(done.map_values(|l: Seq<char>| prefixed_line(prefix, blank, l)), seq!['\n']) + seq![
            '\n',
        ]
    }
}

proof fn lemma_prefixed_done_push(
    prefix: Seq<char>,
    blank: Seq<char>,
    done: Seq<Seq<char>>,
    line: Seq<char>,
)
    ensures
        prefixed_done(prefix, blank, done.push(line)) == prefixed_done(prefix, blank, done)
            + prefixed_line(prefix, blank, line) + seq!['\n'],
{
    let f = |l: Seq<char>| prefixed_line(prefix, blank, l);
    assert(done.push(line).map_values(f) == done.map_values(f).push(f(line)));
    lemma_join_push(done.map_values(f), seq!['\n'], f(line));
}

proof fn lemma_prefix_lines_split(
    prefix: Seq<char>,
    blank: Seq<char>,
    done: Seq<Seq<char>>,
    line: Seq<char>,
)
    ensures
        join(
            done.push(line).map_values(|l: Seq<char>| prefixed_line(prefix, blank, l)),
            seq!['\n'],
        ) == prefixed_done(prefix, blank, done) + prefixed_line(prefix, blank, line),
{
    let f = |l: Seq<char>| prefixed_line(prefix, blank, l);
    assert(done.push(line).map_values(f) == done.map_values(f).push(f(line)));
    lemma_join_push(done.map_values(f), seq!['\n'], f(line));
}

/// Every line of `s` with `prefix` put in front of it; empty lines become `blank`.
pub fn prefix_each_line(s: &str, prefix: &str, blank: &str) -> (res: String)
    ensures
        res@ == prefix_lines(prefix@, blank@, s@),
{
    let v = chars_of(s);
    let mut acc = String::new();
    let mut cur = String::new();
    let ghost mut done: Seq<Seq<char>> = Seq::empty();
    let mut i: usize = 0;
    while i < v.len()
        invariant
            i <= v.len(),
            v@ == s@,
            split_char(v@.take(i as int), '\n') == done.push(cur@),
            acc@ == prefixed_done(prefix@, blank@, done),
        decreases v.len() - i,
    {
        let c = v[i];
        proof {
            assert(v@.take(i + 1).drop_last() == v@.take(i as int));
            assert(v@.take(i + 1).last() == c);
        }
        if c == '\n' {
            proof {
                lemma_prefixed_done_push(prefix@, blank@, done, cur@);
            }
            if cur.as_str().is_empty() {
                acc.append(blank);
            } else {
                acc.append(prefix);
                acc.append(cur.as_str());
            }
            acc.push('\n');
            proof {
                done = done.push(cur@);
            }
            cur = String::new();
        } else {
            cur.push(c);
        }
        i = i + 1;
    }
    proof {
        assert(v@.take(v.len() as int) == v@);
        lemma_prefix_lines_split(prefix@, blank@, done, cur@);
    }
    if cur.as_str().is_empty() {
        acc.append(blank);
    } else {
        acc.append(prefix);
        acc.append(cur.as_str());
    }
    acc
}

/// Every line of `s` shifted right by four spaces, leaving empty lines empty.
pub fn indent4(s: &str) -> (res: String)
    ensures
        res@ == indent_lines(4, s@),
{
    let r = prefix_each_line(s, "    ", "");
    proof {
        reveal_strlit("    ");
        reveal_strlit("");
        assert("    "@ =~= spaces(4));
        assert(""@ =~= Seq::<char>::empty());
    }
    r
}

/// Number of bytes the text takes in UTF-8.
pub fn utf8_length(s: &str) -> (n: u128)
    ensures
        n == utf8_len(s@),
        n <= 4 * (usize::MAX as int),
{
    let v = chars_of(s);
    let mut n: u128 = 0;
    let mut i: usize = 0;
    while i < v.len()
        invariant
            i <= v.len(),
            v@ == s@,
            n == utf8_len(v@.take(i as int)),
            n <= 4 * i,
        decreases v.len() - i,
    {
        proof {
            assert(v@.take(i + 1).drop_last() == v@.take(i as int));
        }
        let u = v[i] as u32;
        if u < 0x80 {
            n = n + 1;
        } else if u < 0x800 {
            n = n + 2;
        } else if u < 0x10000 {
            n = n + 3;
        } else {
            n = n + 4;
        }
        i = i + 1;
    }
    proof {
        assert(v@.take(v.len() as int) == v@);
    }
    n
}

/// The UTF-8 length of a prefix is at most that of the whole text.
pub proof fn lemma_utf8_len_prefix(s: Seq<char>, k: int)
    requires
        0 <= k <= s.len(),
    ensures
        utf8_len(s.take(k)) <= utf8_len(s),
    decreases s.len() - k,
{
    if k < s.len() {
        lemma_utf8_len_prefix(s, k + 1);
        assert(s.take(k + 1).drop_last() == s.take(k));
    } else {
        assert(s.take(k) == s);
    }
}

/// Whether the character `c` occurs in `s`.
pub fn has_char(s: &str, c: char) -> (r: bool)
    ensures
        r == contains_char(s@, c),
{
    let v = chars_of(s);
    let mut i: usize = 0;
    while i < v.len()
        invariant
            i <= v.len(),
            v@ == s@,
            forall|k: int| 0 <= k < i ==> v@[k] != c,
        decreases v.len() - i,
    {
        if v[i] == c {
            return true;
        }
        i = i + 1;
    }
    false
}

/// Whether `p` is a prefix of `s`.
pub fn has_prefix(s: &str, p: &str) -> (r: bool)
    ensures
        r == starts_with(s@, p@),
{
    let sv = chars_of(s);
    let pv = chars_of(p);
    if pv.len() > sv.len() {
        return false;
    }
    let mut i: usize = 0;
    while i < pv.len()
        invariant
            i <= pv.len() <= sv.len(),
            sv@ == s@,
            pv@ == p@,
            forall|k: int| 0 <= k < i ==> sv@[k] == pv@[k],
        decreases pv.len() - i,
    {
        if sv[i] != pv[i] {
            assert(sv@.subrange(0, pv.len() as int)[i as int] != pv@[i as int]);
            return false;
        }
        i = i + 1;
    }
    assert(sv@.subrange(0, pv.len() as int) == pv@);
    true
}

/// Whether `needle` occurs somewhere inside `s`.
pub fn has_substring(s: &str, needle: &str) -> (r: bool)
    ensures
        r == contains_seq(s@, needle@),
{
    let sv = chars_of(s);
    let nv = chars_of(needle);
    if nv.len() > sv.len() {
        proof {
            assert forall|i: int| 0 <= i <= s@.len() - needle@.len() implies #[trigger] s@.subrange(
                i,
                i + needle@.len(),
            ) != needle@ by {}
        }
        return false;
    }
    let last = sv.len() - nv.len();
    let mut i: usize = 0;
    while i <= last
        invariant
            last == sv.len() - nv.len(),
            nv.len() <= sv.len(),
            sv@ == s@,
            nv@ == needle@,
            forall|k: int| 0 <= k < i ==> #[trigger] sv@.subrange(k, k + nv.len()) != nv@,
        decreases last + 1 - i,
    {
        let mut j: usize = 0;
        let mut same = true;
        while j < nv.len()
            invariant
                j <= nv.len(),
                i <= last,
                last == sv.len() - nv.len(),
                sv@ == s@,
                nv@ == needle@,
                same == forall|k: int| 0 <= k < j ==> sv@[i + k] == nv@[k],
            decreases nv.len() - j,
        {
            if sv[i + j] != nv[j] {
                same = false;
            }
            j = j + 1;
        }
        if same {
            assert(sv@.subrange(i as int, i + nv.len()) == nv@);
            return true;
        } else {
            proof {
                let k0 = choose|k: int| 0 <= k < nv.len() && sv@[i + k] != nv@[k];
                assert(sv@.subrange(i as int, i + nv.len())[k0] != nv@[k0]);
            }
        }
        i = i + 1;
    }
    false
}

/// The lines of a text, as `str::split('\n')` gives them.
pub fn split_lines(s: &str) -> (res: Vec<String>)
    ensures
        strings_view(res@) == split_char(s@, '\n'),
{
    let v = chars_of(s);
    let mut done: Vec<String> = Vec::new();
    let mut cur = String::new();
    let mut i: usize = 0;
    while i < v.len()
        invariant
            i <= v.len(),
            v@ == s@,
            split_char(v@.take(i as int), '\n') == strings_view(done@).push(cur@),
        decreases v.len() - i,
    {
        proof {
            assert(v@.take(i + 1).drop_last() == v@.take(i as int));
            assert(v@.take(i + 1).last() == v@[i as int]);
        }
        if v[i] == '\n' {
            done.push(cur);
            cur = String::new();
            proof {
                assert(strings_view(done@) =~= split_char(v@.take(i as int), '\n'));
                assert(split_char(v@.take(i + 1), '\n') =~= strings_view(done@).push(cur@));
            }
        } else {
            let ghost before = split_char(v@.take(i as int), '\n');
            cur.push(v[i]);
            proof {
                assert(split_char(v@.take(i + 1), '\n') =~= strings_view(done@).push(cur@));
            }
        }
        i = i + 1;
    }
    proof {
        assert(v@.take(v.len() as int) == v@);
    }
    done.push(cur);
    proof {
        assert(strings_view(done@) =~= split_char(s@, '\n'));
    }
    done
}

/// The text with every occurrence of one character replaced by another.
pub open spec fn replace_char(s: Seq<char>, from: char, to: char) -> Seq<char> {
    s.map_values(|c: char| if c == from { to } else { c })
}

/// The text with every occurrence of one character replaced by another, as `str::replace`
/// does with a character pattern.
pub fn replace_char_in(s: &str, from: char, to: char) -> (res: String)
    ensures
        res@ == replace_char(s@, from, to),
{
    let v = chars_of(s);
    let mut res = String::new();
    let mut i: usize = 0;
    while i < v.len()
        invariant
            i <= v.len(),
            v@ == s@,
            res@ == replace_char(v@.take(i as int), from, to),
        decreases v.len() - i,
    {
        if v[i] == from {
            res.push(to);
        } else {
            res.push(v[i]);
        }
        i = i + 1;
        assert(res@ =~= replace_char(v@.take(i as int), from, to));
    }
    assert(v@.take(v.len() as int) == v@);
    res
}

} // verus!
