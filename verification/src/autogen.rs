//! Bookkeeping of generated files: the list of files generated in a run, and how a tracker
//! file gains a line without repeating one it already has.
use vstd::prelude::*;
use crate::text::{
    chars_of, lemma_split_char_nonempty, split_char, split_lines, string_from_range, strings_view,
};

verus! {

/// The file, relative to the project, that lists the generated files.
pub const AUTOGEN_TRACKER: &'static str = ".autogen.txt";

/// Records a file as generated.
pub fn track_autogen(files: &mut Vec<String>, filename: String)
    ensures
        final(files)@ == old(files)@.push(filename),
{
    files.push(filename);
}

/// A line as reading it back yields it: a line that a newline ended loses a carriage return
/// before that newline.
pub open spec fn read_back_line(l: Seq<char>, terminated: bool) -> Seq<char> {
    if terminated && l.len() > 0 && l.last() == '\r' {
        l.drop_last()
    } else {
        l
    }
}

/// The lines of a text as `BufRead::lines` yields them: split at newlines, without a final
/// empty piece, each newline-ended line without a carriage return before its newline.
pub open spec fn text_lines(t: Seq<char>) -> Seq<Seq<char>> {
    let parts = split_char(t, '\n');
    let ended = parts.drop_last().map_values(|l: Seq<char>| read_back_line(l, true));
    if parts.last().len() == 0 {
        ended
    } else {
        ended.push(parts.last())
    }
}

/// What to do to a file so that it holds a line.
pub enum LineAddition {
    /// The file does not exist: create it with this text.
    Create(String),
    /// The file lacks the line: append this text to it.
    Append(String),
    /// The file already has the line.
    Keep,
}

/// View of a [`LineAddition`].
pub enum LineAdditionV {
    Create(Seq<char>),
    Append(Seq<char>),
    Keep,
}

impl View for LineAddition {
    type V = LineAdditionV;

    open spec fn view(&self) -> LineAdditionV {
        match self {
            LineAddition::Create(s) => LineAdditionV::Create(s@),
            LineAddition::Append(s) => LineAdditionV::Append(s@),
            LineAddition::Keep => LineAdditionV::Keep,
        }
    }
}

/// What makes a file with text `existing` (`None` where there is no file) hold the line
/// `content`: a file is created with the line, and a file whose lines lack it gets it appended,
/// each time followed by a newline.
pub open spec fn planned_addition(existing: Option<Seq<char>>, content: Seq<char>) -> LineAdditionV {
    match existing {
        None => LineAdditionV::Create(content.push('\n')),
        Some(t) => if text_lines(t).contains(content) {
            LineAdditionV::Keep
        } else {
            LineAdditionV::Append(content.push('\n'))
        },
    }
}

/// The text of a file after an addition.
pub open spec fn text_after(existing: Option<Seq<char>>, a: LineAdditionV) -> Seq<char> {
    match a {
        LineAdditionV::Create(s) => s,
        LineAdditionV::Append(s) => existing.unwrap_or(Seq::empty()) + s,
        LineAdditionV::Keep => existing.unwrap_or(Seq::empty()),
    }
}

/// A line as reading it back yields it.
fn line_read_back(l: &String, terminated: bool) -> (res: String)
    ensures
        res@ == read_back_line(l@, terminated),
{
    let v = chars_of(l.as_str());
    if terminated && v.len() > 0 && v[v.len() - 1] == '\r' {
        string_from_range(&v, 0, v.len() - 1)
    } else {
        assert(v@.subrange(0, v.len() as int) =~= v@);
        string_from_range(&v, 0, v.len())
    }
}

/// Decides how a file with text `existing` (`None` where there is no file) comes to hold the
/// line `content`.
pub fn plan_line_addition(existing: Option<&str>, content: &str) -> (res: LineAddition)
    ensures
        res@ == planned_addition(
            match existing {
                Some(t) => Some(t@),
                None => None,
            },
            content@,
        ),
{
    let mut line = content.to_owned();
    line.push('\n');
    match existing {
        None => LineAddition::Create(line),
        Some(text) => {
            let parts = split_lines(text);
            let ghost pv = strings_view(parts@);
            let ghost lines = text_lines(text@);
            let wanted = content.to_owned();
            let n = parts.len();
            proof {
                lemma_split_char_nonempty(text@, '\n');
            }
            let ghost ended = pv.drop_last().map_values(|l: Seq<char>| read_back_line(l, true));
            let mut found = false;
            let mut i: usize = 0;
            while i + 1 < n
                invariant
                    n == parts.len() >= 1,
                    pv == strings_view(parts@),
                    pv == split_char(text@, '\n'),
                    wanted@ == content@,
                    i + 1 <= n,
                    ended == pv.drop_last().map_values(|l: Seq<char>| read_back_line(l, true)),
                    found == exists|k: int| 0 <= k < i && ended[k] == content@,
                decreases n - i,
            {
                let r = line_read_back(&parts[i], true);
                assert(ended[i as int] == r@);
                if r.eq(&wanted) {
                    found = true;
                }
                i = i + 1;
            }
            let last_empty = parts[n - 1].as_str().is_empty();
            if !last_empty && parts[n - 1].eq(&wanted) {
                found = true;
            }
            proof {
                assert(ended.len() == n - 1);
                if last_empty {
                    assert(lines == ended);
                } else {
                    assert(lines == ended.push(pv.last()));
                    if exists|k: int| 0 <= k < n - 1 && ended[k] == content@ {
                        let k = choose|k: int| 0 <= k < n - 1 && ended[k] == content@;
                        assert(lines[k] == content@);
                    }
                    if pv.last() == content@ {
                        assert(lines[n - 1] == content@);
                    }
                }
                if lines.contains(content@) {
                    let k = choose|k: int| 0 <= k < lines.len() && lines[k] == content@;
                    if k < n - 1 {
                        assert(ended[k] == content@);
                    }
                }
            }
            if found {
                LineAddition::Keep
            } else {
                LineAddition::Append(line)
            }
        },
    }
}

/// Splitting a text extended by a piece without newlines extends its last line.
proof fn lemma_split_extend(s: Seq<char>, t: Seq<char>)
    requires
        !t.contains('\n'),
    ensures
        split_char(s + t, '\n') == split_char(s, '\n').update(
            split_char(s, '\n').len() - 1,
            split_char(s, '\n').last() + t,
        ),
    decreases t.len(),
{
    lemma_split_char_nonempty(s, '\n');
    if t.len() == 0 {
        assert(s + t =~= s);
        assert(split_char(s, '\n').last() + t =~= split_char(s, '\n').last());
        assert(split_char(s, '\n').update(split_char(s, '\n').len() - 1, split_char(s, '\n').last())
            =~= split_char(s, '\n'));
    } else {
        let t0 = t.drop_last();
        assert(!t0.contains('\n')) by {
            if t0.contains('\n') {
                let k = choose|k: int| 0 <= k < t0.len() && t0[k] == '\n';
                assert(t[k] == '\n');
            }
        }
        lemma_split_extend(s, t0);
        assert((s + t).drop_last() =~= s + t0);
        assert((s + t).last() == t.last());
        assert(t.last() != '\n') by {
            assert(t[t.len() - 1] == t.last());
        }
        assert(split_char(s, '\n').last() + t =~= (split_char(s, '\n').last() + t0).push(t.last()));
        assert(split_char(s + t, '\n') =~= split_char(s, '\n').update(
            split_char(s, '\n').len() - 1,
            split_char(s, '\n').last() + t,
        ));
    }
}

/// Adding a line to a file is idempotent: once a line has been added, adding it again leaves
/// the file as it is. This holds for a line without newlines that does not end with a carriage
/// return, added to a file that is missing, empty, or ends with a newline.
pub proof fn lemma_line_addition_idempotent(existing: Option<Seq<char>>, content: Seq<char>)
    requires
        !content.contains('\n'),
        !(content.len() > 0 && content.last() == '\r'),
        existing matches Some(t) ==> (t.len() == 0 || t.last() == '\n'),
    ensures
        planned_addition(
            Some(text_after(existing, planned_addition(existing, content))),
            content,
        ) == LineAdditionV::Keep,
{
    let after = text_after(existing, planned_addition(existing, content));
    let e = existing.unwrap_or(Seq::empty());
    let base: Seq<char> = match planned_addition(existing, content) {
        LineAdditionV::Keep => e,
        LineAdditionV::Create(_) => Seq::empty(),
        LineAdditionV::Append(_) => e,
    };
    if planned_addition(existing, content) is Keep {
        assert(after == e);
        assert(text_lines(e).contains(content));
    } else {
        // The text is `base + content + "\n"`, where `base` is empty or ends with a newline.
        assert(after =~= base + content + seq!['\n']);
        lemma_split_char_nonempty(base, '\n');
        let pb = split_char(base, '\n');
        assert(pb.last().len() == 0) by {
            if base.len() > 0 {
                assert(base.last() == '\n');
                assert(base.drop_last().push(base.last()) =~= base);
                lemma_split_char_nonempty(base.drop_last(), '\n');
            }
        }
        lemma_split_extend(base, content);
        let pc = split_char(base + content, '\n');
        assert(pc == pb.update(pb.len() - 1, pb.last() + content));
        assert(pb.last() + content =~= content);
        assert((base + content + seq!['\n']).drop_last() =~= base + content);
        let pa = split_char(after, '\n');
        assert(pa == pc.push(Seq::empty()));
        assert(pa.drop_last() == pc);
        let lines = text_lines(after);
        assert(lines.len() == pc.len());
        assert(lines[pc.len() - 1] == read_back_line(pc[pc.len() - 1], true));
        assert(pc[pc.len() - 1] == content);
        assert(read_back_line(content, true) == content);
        assert(lines.contains(content));
    }
}

} // verus!
