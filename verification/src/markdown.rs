//! Extraction of the YAML code blocks of a Markdown document, together with block quotes that
//! continue a YAML block string left open at the end of a code block.
use vstd::prelude::*;
use pulldown_cmark::{CodeBlockKind, Event, Parser, Tag};
use crate::text::{
    chars_of, char_is_ws, is_ws, indent_lines, lemma_split_char_nonempty, lemma_trim_end_take,
    prefix_each_line, spaces,
    split_char, string_from_range, trim_end,
};

verus! {

/// What the YAML extraction reads of one event of the Markdown parser.
#[derive(Debug)]
pub enum MdEvent {
    /// Start of a fenced code block, with its info string.
    FenceStart(String),
    /// A piece of text.
    Text(String),
    /// End of a code block, fenced or indented.
    CodeBlockEnd,
    /// End of a block quote.
    BlockQuoteEnd,
    /// End of a paragraph.
    ParagraphEnd,
    /// Any other event, which the extraction ignores.
    Other,
}

/// View of an [`MdEvent`].
pub enum MdEventV {
    FenceStart(Seq<char>),
    Text(Seq<char>),
    CodeBlockEnd,
    BlockQuoteEnd,
    ParagraphEnd,
    Other,
}

impl View for MdEvent {
    type V = MdEventV;

    open spec fn view(&self) -> MdEventV {
        match self {
            MdEvent::FenceStart(info) => MdEventV::FenceStart(info@),
            MdEvent::Text(t) => MdEventV::Text(t@),
            MdEvent::CodeBlockEnd => MdEventV::CodeBlockEnd,
            MdEvent::BlockQuoteEnd => MdEventV::BlockQuoteEnd,
            MdEvent::ParagraphEnd => MdEventV::ParagraphEnd,
            MdEvent::Other => MdEventV::Other,
        }
    }
}

/// The views of a sequence of events.
pub open spec fn events_view(v: Seq<MdEvent>) -> Seq<MdEventV> {
    v.map_values(|e: MdEvent| e@)
}

/// The events that `pulldown_cmark::Parser` yields for a Markdown text, as the extraction reads
/// them.
pub uninterp spec fn markdown_events(markdown: Seq<char>) -> Seq<MdEventV>;

/// Runs `pulldown_cmark::Parser` over the text and keeps of each event what the extraction
/// reads; the events themselves are named, not stated: the CommonMark parser decides them.
#[verifier::external_body]
fn parse_markdown_events(markdown: &str) -> (events: Vec<MdEvent>)
    ensures
        events_view(events@) == markdown_events(markdown@),
{
    let mut events = Vec::new();
    for event in Parser::new(markdown) {
        events.push(match event {
            Event::Start(Tag::CodeBlock(CodeBlockKind::Fenced(info))) => MdEvent::FenceStart(info.to_string()),
            Event::Text(text) => MdEvent::Text(text.to_string()),
            Event::End(Tag::CodeBlock(_)) => MdEvent::CodeBlockEnd,
            Event::End(Tag::BlockQuote) => MdEvent::BlockQuoteEnd,
            Event::End(Tag::Paragraph) => MdEvent::ParagraphEnd,
            _ => MdEvent::Other,
        });
    }
    events
}

// ---------------------------------------------------------------------------------------------
// Specification
// ---------------------------------------------------------------------------------------------

/// Whether `s` ends with `p`.
pub open spec fn ends_with(s: Seq<char>, p: Seq<char>) -> bool {
    p.len() <= s.len() && s.subrange(s.len() - p.len(), s.len() as int) == p
}

/// The number of spaces at the start of a line.
pub open spec fn leading_spaces(s: Seq<char>) -> nat
    decreases s.len(),
{
    if s.len() > 0 && s[0] == ' ' {
        1 + leading_spaces(s.drop_first())
    } else {
        0
    }
}

/// The last line of a text: what follows its last newline.
pub open spec fn last_line(s: Seq<char>) -> Seq<char> {
    split_char(s, '\n').last()
}

/// What the extraction has gathered after some events: the YAML so far, whether a YAML code
/// block is open, whether quoted lines continue a block string, and their indentation.
pub struct ExtractionState {
    pub code: Seq<char>,
    pub in_yaml: bool,
    pub in_doc: bool,
    pub doc_indent: nat,
}

/// The state before any event.
pub open spec fn initial_extraction() -> ExtractionState {
    ExtractionState { code: Seq::empty(), in_yaml: false, in_doc: false, doc_indent: 0 }
}

/// Whether a piece of YAML leaves a block string open: its text, without trailing whitespace,
/// ends with the `|-` marker.
pub open spec fn opens_block_string(t: Seq<char>) -> bool {
    ends_with(trim_end(t), "|-"@)
}

/// The indentation of the lines of a block string opened by a piece of YAML: two more spaces
/// than the line that opens it.
pub open spec fn block_string_indent(t: Seq<char>) -> nat {
    leading_spaces(last_line(trim_end(t))) + 2
}

/// The state after one more event.
pub open spec fn extraction_step(st: ExtractionState, e: MdEventV) -> ExtractionState {
    match e {
        MdEventV::FenceStart(info) => if info == "yaml"@ || info == "yml"@ {
            ExtractionState { in_yaml: true, ..st }
        } else {
            st
        },
        MdEventV::Text(t) => if st.in_yaml {
            if opens_block_string(t) {
                ExtractionState {
                    code: st.code + t,
                    in_doc: true,
                    doc_indent: block_string_indent(t),
                    ..st
                }
            } else {
                ExtractionState { code: st.code + t, ..st }
            }
        } else if st.in_doc {
            ExtractionState { code: st.code + indent_lines(st.doc_indent, t) + seq!['\n'], ..st }
        } else {
            st
        },
        MdEventV::CodeBlockEnd => ExtractionState { in_yaml: false, ..st },
        MdEventV::BlockQuoteEnd => ExtractionState { in_doc: false, ..st },
        MdEventV::ParagraphEnd => if st.in_doc {
            ExtractionState { code: st.code + seq!['\n'], ..st }
        } else {
            st
        },
        MdEventV::Other => st,
    }
}

/// The state after a sequence of events.
pub open spec fn extraction_run(events: Seq<MdEventV>) -> ExtractionState
    decreases events.len(),
{
    if events.len() == 0 {
        initial_extraction()
    } else {
        extraction_step(extraction_run(events.drop_last()), events.last())
    }
}

/// The YAML gathered from a sequence of events, with a doubled final newline made single.
pub open spec fn yaml_of_events(events: Seq<MdEventV>) -> Seq<char> {
    let code = extraction_run(events).code;
    if ends_with(code, "\n\n"@) {
        code.drop_last()
    } else {
        code
    }
}

// ---------------------------------------------------------------------------------------------
// Lemmas
// ---------------------------------------------------------------------------------------------

/// The last line of a text starts after its last newline.
proof fn lemma_last_line(s: Seq<char>, k: int)
    requires
        0 <= k <= s.len(),
        forall|x: int| k <= x < s.len() ==> s[x] != '\n',
        k == 0 || s[k - 1] == '\n',
    ensures
        last_line(s) == s.subrange(k, s.len() as int),
    decreases s.len(),
{
    if s.len() == 0 {
        assert(s.subrange(k, 0) =~= Seq::<char>::empty());
    } else if s.len() == k {
        lemma_split_char_nonempty(s.drop_last(), '\n');
        assert(s.subrange(k, k) =~= Seq::<char>::empty());
    } else {
        let t = s.drop_last();
        lemma_split_char_nonempty(t, '\n');
        lemma_last_line(t, k);
        assert(s.subrange(k, s.len() as int) =~= t.subrange(k, t.len() as int).push(s.last()));
    }
}

/// A line that starts with exactly `i` spaces.
proof fn lemma_leading_spaces(s: Seq<char>, i: int)
    requires
        0 <= i <= s.len(),
        forall|x: int| 0 <= x < i ==> s[x] == ' ',
        i == s.len() || s[i] != ' ',
    ensures
        leading_spaces(s) == i,
    decreases i,
{
    if i > 0 {
        lemma_leading_spaces(s.drop_first(), i - 1);
    }
}

/// Whether an event opens a code block fenced as YAML.
pub open spec fn opens_yaml(e: MdEventV) -> bool {
    e matches MdEventV::FenceStart(info) && (info == "yaml"@ || info == "yml"@)
}

/// Without a code block fenced as YAML nothing is gathered.
proof fn lemma_no_yaml_run(events: Seq<MdEventV>)
    requires
        forall|i: int| 0 <= i < events.len() ==> !opens_yaml(#[trigger] events[i]),
    ensures
        extraction_run(events) == initial_extraction(),
    decreases events.len(),
{
    if events.len() > 0 {
        let t = events.drop_last();
        assert forall|i: int| 0 <= i < t.len() implies !opens_yaml(#[trigger] t[i]) by {
            assert(t[i] == events[i]);
        }
        lemma_no_yaml_run(t);
        assert(!opens_yaml(events[events.len() - 1]));
    }
}

/// A document without a code block fenced as `yaml` or `yml` yields no YAML: other code blocks,
/// text and quotes are never gathered on their own.
pub proof fn lemma_no_yaml_block_no_yaml(events: Seq<MdEventV>)
    requires
        forall|i: int| 0 <= i < events.len() ==> !opens_yaml(#[trigger] events[i]),
    ensures
        yaml_of_events(events) == Seq::<char>::empty(),
{
    lemma_no_yaml_run(events);
    reveal_strlit("\n\n");
}

// ---------------------------------------------------------------------------------------------
// Extraction
// ---------------------------------------------------------------------------------------------

/// For a piece of YAML that leaves a block string open, the indentation of the block string's
/// lines; `None` for any other piece.
fn block_string_prefix(t: &str) -> (res: Option<String>)
    ensures
        match res {
            Some(p) => opens_block_string(t@) && p@ == spaces(block_string_indent(t@)),
            None => !opens_block_string(t@),
        },
{
    let v = chars_of(t);
    let n = v.len();
    let mut j: usize = n;
    while j > 0 && char_is_ws(v[j - 1])
        invariant
            j <= n == v.len(),
            v@ == t@,
            forall|k: int| j <= k < n ==> is_ws(#[trigger] v@[k]),
        decreases j,
    {
        j = j - 1;
    }
    let ghost tr = v@.take(j as int);
    proof {
        lemma_trim_end_take(v@, j as int);
        if j > 0 {
            assert(tr.last() == v@[j - 1]);
        }
        assert(trim_end(tr) == tr);
        reveal_strlit("|-");
    }
    if !(j >= 2 && v[j - 2] == '|' && v[j - 1] == '-') {
        proof {
            if j >= 2 {
                assert(tr.subrange(j - 2, j as int)[0] == v@[j - 2]);
                assert(tr.subrange(j - 2, j as int)[1] == v@[j - 1]);
            }
        }
        return None;
    }
    assert(tr.subrange(j - 2, j as int) =~= "|-"@);
    let mut k: usize = j;
    while k > 0 && v[k - 1] != '\n'
        invariant
            k <= j <= n == v.len(),
            forall|x: int| k <= x < j ==> v@[x] != '\n',
        decreases k,
    {
        k = k - 1;
    }
    proof {
        lemma_last_line(tr, k as int);
    }
    let mut m: usize = k;
    let mut p = String::new();
    while m < j && v[m] == ' '
        invariant
            k <= m <= j <= n == v.len(),
            forall|x: int| k <= x < m ==> v@[x] == ' ',
            p@ == spaces((m - k) as nat),
        decreases j - m,
    {
        p.push(' ');
        m = m + 1;
        assert(p@ =~= spaces((m - k) as nat));
    }
    proof {
        let line = tr.subrange(k as int, j as int);
        lemma_leading_spaces(line, m - k);
    }
    p.push(' ');
    p.push(' ');
    assert(p@ =~= spaces(block_string_indent(t@)));
    Some(p)
}

/// The YAML that a sequence of Markdown events holds: the text of every code block fenced as
/// `yaml` or `yml`, in order, and, after a piece of YAML that leaves a `|-` block string open,
/// the lines of the block quotes that follow, indented to belong to that string.
pub fn yaml_from_events(events: &Vec<MdEvent>) -> (res: String)
    ensures
        res@ == yaml_of_events(events_view(events@)),
{
    let ghost ev = events_view(events@);
    let mut code = String::new();
    let mut in_yaml = false;
    let mut in_doc = false;
    let mut doc_prefix = String::new();
    let ghost mut doc_indent: nat = 0;
    let yaml = "yaml".to_owned();
    let yml = "yml".to_owned();
    let mut i: usize = 0;
    assert(ev.take(0) =~= Seq::<MdEventV>::empty());
    assert(code@ =~= Seq::<char>::empty());
    while i < events.len()
        invariant
            i <= events.len(),
            ev == events_view(events@),
            yaml@ == "yaml"@,
            yml@ == "yml"@,
            extraction_run(ev.take(i as int)) == (ExtractionState {
                code: code@,
                in_yaml,
                in_doc,
                doc_indent,
            }),
            doc_prefix@ == spaces(doc_indent),
        decreases events.len() - i,
    {
        proof {
            assert(ev.take(i + 1).drop_last() =~= ev.take(i as int));
            assert(ev.take(i + 1).last() == events@[i as int]@);
        }
        let ghost before = ExtractionState { code: code@, in_yaml, in_doc, doc_indent };
        let ghost e = events@[i as int]@;
        match &events[i] {
            MdEvent::FenceStart(info) => {
                if info.eq(&yaml) || info.eq(&yml) {
                    in_yaml = true;
                }
                assert(e == MdEventV::FenceStart(info@));
            },
            MdEvent::Text(t) => {
                if in_yaml {
                    match block_string_prefix(t.as_str()) {
                        Some(p) => {
                            in_doc = true;
                            doc_prefix = p;
                            proof {
                                doc_indent = block_string_indent(t@);
                            }
                        },
                        None => {},
                    }
                    code.append(t.as_str());
                    assert(e == MdEventV::Text(t@));
                    assert(code@ == before.code + t@);
                } else if in_doc {
                    let lines = prefix_each_line(t.as_str(), doc_prefix.as_str(), "");
                    proof {
                        reveal_strlit("");
                        assert(""@ =~= Seq::<char>::empty());
                    }
                    code.append(lines.as_str());
                    code.push('\n');
                    assert(code@ == before.code + indent_lines(doc_indent, t@) + seq!['\n']);
                    assert(e == MdEventV::Text(t@));
                }
            },
            MdEvent::CodeBlockEnd => {
                in_yaml = false;
            },
            MdEvent::BlockQuoteEnd => {
                in_doc = false;
            },
            MdEvent::ParagraphEnd => {
                if in_doc {
                    code.push('\n');
                }
            },
            MdEvent::Other => {},
        }
        assert(extraction_step(before, e).code == code@);
        assert(extraction_step(before, e).in_yaml == in_yaml);
        assert(extraction_step(before, e).in_doc == in_doc);
        assert(extraction_step(before, e).doc_indent == doc_indent);
        assert(extraction_step(before, e) == (ExtractionState {
            code: code@,
            in_yaml,
            in_doc,
            doc_indent,
        }));
        i = i + 1;
    }
    assert(ev.take(events.len() as int) =~= ev);
    let v = chars_of(code.as_str());
    let n = v.len();
    proof {
        reveal_strlit("\n\n");
    }
    if n >= 2 && v[n - 1] == '\n' && v[n - 2] == '\n' {
        assert(v@.subrange(n - 2, n as int) =~= "\n\n"@);
        let r = string_from_range(&v, 0, n - 1);
        assert(r@ =~= code@.drop_last());
        r
    } else {
        proof {
            if n >= 2 {
                assert(v@.subrange(n - 2, n as int)[0] == v@[n - 2]);
                assert(v@.subrange(n - 2, n as int)[1] == v@[n - 1]);
            }
        }
        code
    }
}

/// Extracts the YAML of a Markdown document: its code blocks fenced as `yaml` or `yml`, in
/// order, with the block quotes that continue a block string left open at a block's end.
pub fn extract_yaml(markdown: &str) -> (res: String)
    ensures
        res@ == yaml_of_events(markdown_events(markdown@)),
{
    let events = parse_markdown_events(markdown);
    yaml_from_events(&events)
}

/// The text of the code blocks fenced with the info string `lang` among some events, in order.
pub open spec fn fenced_code(events: Seq<MdEventV>, lang: Seq<char>) -> Seq<char>
    decreases events.len(),
{
    if events.len() == 0 {
        Seq::empty()
    } else {
        let before = fenced_code(events.drop_last(), lang);
        match events.last() {
            MdEventV::Text(t) => if in_fenced_block(events.drop_last(), lang) {
                before + t
            } else {
                before
            },
            _ => before,
        }
    }
}

/// Whether, after some events, a code block fenced with `lang` is open.
pub open spec fn in_fenced_block(events: Seq<MdEventV>, lang: Seq<char>) -> bool
    decreases events.len(),
{
    if events.len() == 0 {
        false
    } else {
        match events.last() {
            MdEventV::FenceStart(info) => info == lang,
            MdEventV::CodeBlockEnd => false,
            _ => in_fenced_block(events.drop_last(), lang),
        }
    }
}

/// The text of the code blocks fenced with the info string `lang`, in order.
pub fn fenced_code_from_events(events: &Vec<MdEvent>, lang: &str) -> (res: String)
    ensures
        res@ == fenced_code(events_view(events@), lang@),
{
    let ghost ev = events_view(events@);
    let wanted = lang.to_owned();
    let mut code = String::new();
    let mut open = false;
    let mut i: usize = 0;
    while i < events.len()
        invariant
            i <= events.len(),
            ev == events_view(events@),
            wanted@ == lang@,
            code@ == fenced_code(ev.take(i as int), lang@),
            open == in_fenced_block(ev.take(i as int), lang@),
        decreases events.len() - i,
    {
        proof {
            assert(ev.take(i + 1).drop_last() =~= ev.take(i as int));
            assert(ev.take(i + 1).last() == events@[i as int]@);
        }
        match &events[i] {
            MdEvent::FenceStart(info) => {
                open = info.eq(&wanted);
            },
            MdEvent::Text(t) => {
                if open {
                    code.append(t.as_str());
                }
            },
            MdEvent::CodeBlockEnd => {
                open = false;
            },
            _ => {},
        }
        i = i + 1;
    }
    assert(ev.take(events.len() as int) =~= ev);
    code
}

/// The Rust code of a Markdown document: the text of its code blocks fenced as `rust`, in
/// order.
pub fn extract_rust(markdown: &str) -> (res: String)
    ensures
        res@ == fenced_code(markdown_events(markdown@), "rust"@),
{
    let events = parse_markdown_events(markdown);
    fenced_code_from_events(&events, "rust")
}

} // verus!
