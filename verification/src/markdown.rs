//! Inline markdown: `**bold**`, `*italic*` and `` `code` `` spans inside a
//! chat line.
use vstd::prelude::*;

use crate::ansi::{SpecRun, StyledRun};
use crate::llm::{
    find_char_from, find_seq, prefix_assistant_label, prefix_system_label, prefix_you,
    spec_line_content, starts_with,
};
use crate::style::{AttrSet, Color, Style};
use crate::text::{chars_to_string, str_to_chars};

verus! {

pub open spec fn bold_style() -> Style {
    Style {
        fg: Option::None,
        bg: Option::None,
        attrs: AttrSet { bold: true, ..AttrSet::spec_empty() },
    }
}

pub open spec fn italic_style() -> Style {
    Style {
        fg: Option::None,
        bg: Option::None,
        attrs: AttrSet { italic: true, ..AttrSet::spec_empty() },
    }
}

pub open spec fn code_style() -> Style {
    crate::theme::fg_bold(Color::Cyan)
}

/// The first position at or after `from` where `pat` occurs.
pub open spec fn sfind(chars: Seq<char>, from: int, pat: Seq<char>) -> Option<int>
    decreases chars.len() - from,
{
    if from < 0 || from + pat.len() > chars.len() {
        Option::None
    } else if pat.len() == 0 {
        Option::Some(from)
    } else if chars.subrange(from, from + pat.len()) == pat {
        Option::Some(from)
    } else {
        sfind(chars, from + 1, pat)
    }
}

proof fn lemma_sfind_some(chars: Seq<char>, from: int, pat: Seq<char>, i: int)
    requires
        pat.len() >= 1,
        0 <= from <= i,
        i + pat.len() <= chars.len(),
        chars.subrange(i, i + pat.len()) == pat,
        forall|j: int| from <= j < i ==> #[trigger] chars.subrange(j, j + pat.len()) != pat,
    ensures
        sfind(chars, from, pat) == Option::Some(i),
    decreases i - from,
{
    if from < i {
        lemma_sfind_some(chars, from + 1, pat, i);
    }
}

proof fn lemma_sfind_none(chars: Seq<char>, from: int, pat: Seq<char>)
    requires
        pat.len() >= 1,
        0 <= from,
        forall|j: int|
            from <= j && j + pat.len() <= chars.len() ==> #[trigger] chars.subrange(
                j,
                j + pat.len(),
            ) != pat,
    ensures
        (sfind(chars, from, pat) is None),
    decreases chars.len() - from,
{
    if from + pat.len() <= chars.len() {
        lemma_sfind_none(chars, from + 1, pat);
    }
}

/// Where a found marker jumps the scan to: past the closing marker, but
/// always forward and never past the end.
pub open spec fn advance(chars: Seq<char>, i: int, target: int) -> int {
    let lo = if target > i + 1 {
        target
    } else {
        i + 1
    };
    if lo <= chars.len() {
        lo
    } else {
        chars.len() as int
    }
}

/// Gathered plain text flushed as one unstyled span.
pub open spec fn md_flush(spans: Seq<SpecRun>, buf: Seq<char>) -> Seq<SpecRun> {
    if buf.len() == 0 {
        spans
    } else {
        spans.push(SpecRun { text: buf, style: Style::spec_reset() })
    }
}

/// The single-pass scan: a doubled star or underscore opens bold up to its
/// closing pair; a single one opens italics up to its non-adjacent twin; a
/// backtick opens code up to the next backtick; an unclosed marker stays
/// literal text.
pub open spec fn md_loop(
    chars: Seq<char>,
    i: int,
    buf: Seq<char>,
    spans: Seq<SpecRun>,
) -> Seq<SpecRun>
    decreases chars.len() - i,
{
    if i < 0 || i >= chars.len() {
        let done = md_flush(spans, buf);
        if done.len() == 0 {
            seq![SpecRun { text: Seq::empty(), style: Style::spec_reset() }]
        } else {
            done
        }
    } else {
        let c = chars[i];
        if (c == '*' || c == '_') && i + 1 < chars.len() && chars[i + 1] == c {
            match sfind(chars, i + 2, seq![c, c]) {
                Option::Some(e) => {
                    let spans2 = md_flush(spans, buf).push(
                        SpecRun { text: chars.subrange(i + 2, e), style: bold_style() },
                    );
                    md_loop(chars, advance(chars, i, e + 2), Seq::empty(), spans2)
                },
                Option::None => md_loop(chars, i + 1, buf.push(c), spans),
            }
        } else if c == '*' || c == '_' {
            match sfind(chars, i + 1, seq![c]) {
                Option::Some(e) => {
                    if e > i + 1 {
                        let spans2 = md_flush(spans, buf).push(
                            SpecRun { text: chars.subrange(i + 1, e), style: italic_style() },
                        );
                        md_loop(chars, advance(chars, i, e + 1), Seq::empty(), spans2)
                    } else {
                        md_loop(chars, i + 1, buf.push(c), spans)
                    }
                },
                Option::None => md_loop(chars, i + 1, buf.push(c), spans),
            }
        } else if c == '`' {
            match sfind(chars, i + 1, seq![c]) {
                Option::Some(e) => {
                    let spans2 = md_flush(spans, buf).push(
                        SpecRun { text: chars.subrange(i + 1, e), style: code_style() },
                    );
                    md_loop(chars, advance(chars, i, e + 1), Seq::empty(), spans2)
                },
                Option::None => md_loop(chars, i + 1, buf.push(c), spans),
            }
        } else {
            md_loop(chars, i + 1, buf.push(c), spans)
        }
    }
}

pub open spec fn spec_parse_inline_md(s: Seq<char>) -> Seq<SpecRun> {
    md_loop(s, 0, Seq::empty(), Seq::empty())
}

/// Copy a character range into a string.
fn range_to_string(chars: &Vec<char>, from: usize, to: usize) -> (s: String)
    requires
        from <= to <= chars@.len(),
    ensures
        s@ == chars@.subrange(from as int, to as int),
{
    let mut v: Vec<char> = Vec::new();
    let mut i = from;
    proof {
        assert(v@ =~= chars@.subrange(from as int, to as int).take(0));
    }
    while i < to
        invariant
            from <= i <= to <= chars@.len(),
            v@ =~= chars@.subrange(from as int, to as int).take(i - from),
        decreases to - i,
    {
        v.push(chars[i]);
        proof {
            assert(chars@.subrange(from as int, to as int)[i - from] == chars@[i as int]);
            assert(v@ =~= chars@.subrange(from as int, to as int).take(i + 1 - from));
        }
        i = i + 1;
    }
    proof {
        assert(chars@.subrange(from as int, to as int).take(to - from) =~= chars@.subrange(
            from as int,
            to as int,
        ));
    }
    chars_to_string(&v)
}

/// Move the gathered plain text into the span list.
fn flush_buf(buf: &mut Vec<char>, spans: &mut Vec<StyledRun>)
    ensures
        final(spans).deep_view() == md_flush(old(spans).deep_view(), old(buf)@),
        final(buf)@ == Seq::<char>::empty(),
{
    if buf.len() > 0 {
        let ghost dv0 = spans.deep_view();
        let mut text: Vec<char> = Vec::new();
        core::mem::swap(buf, &mut text);
        let run = StyledRun { text: chars_to_string(&text), style: Style::reset() };
        let ghost rv = run@;
        spans.push(run);
        proof {
            assert(spans.deep_view() =~= dv0.push(rv));
        }
    }
}

/// Parse one line's inline markdown into styled spans.
pub fn parse_inline_md(text: &str) -> (spans: Vec<StyledRun>)
    ensures
        spans.deep_view() == spec_parse_inline_md(text@),
{
    let chars = str_to_chars(text);
    let n = chars.len();
    let mut spans: Vec<StyledRun> = Vec::new();
    let mut buf: Vec<char> = Vec::new();
    let mut i: usize = 0;
    let bold = Style {
        fg: Option::None,
        bg: Option::None,
        attrs: AttrSet { bold: true, ..AttrSet::empty() },
    };
    let italic = Style {
        fg: Option::None,
        bg: Option::None,
        attrs: AttrSet { italic: true, ..AttrSet::empty() },
    };
    let code = Style {
        fg: Option::Some(Color::Cyan),
        bg: Option::None,
        attrs: AttrSet { bold: true, ..AttrSet::empty() },
    };
    proof {
        assert(spans.deep_view() =~= Seq::<SpecRun>::empty());
    }
    while i < n
        invariant
            0 <= i <= n,
            n == chars@.len(),
            chars@ == text@,
            bold == bold_style(),
            italic == italic_style(),
            code == code_style(),
            spec_parse_inline_md(text@) == md_loop(chars@, i as int, buf@, spans.deep_view()),
        decreases n - i,
    {
        let c = chars[i];
        let doubled = (c == '*' || c == '_') && i + 1 < n && chars[i + 1] == c;
        if doubled {
            let mut pat: Vec<char> = Vec::new();
            pat.push(c);
            pat.push(c);
            proof {
                assert(pat@ =~= seq![c, c]);
            }
            match find_seq(chars.as_slice(), i + 2, pat.as_slice()) {
                Option::Some(e) => {
                    proof {
                        lemma_sfind_some(chars@, i + 2, pat@, e as int);
                        assert(advance(chars@, i as int, e + 2) == e + 2);
                    }
                    flush_buf(&mut buf, &mut spans);
                    let piece = range_to_string(&chars, i + 2, e);
                    let run = StyledRun { text: piece, style: bold };
                    let ghost rv = run@;
                    let ghost dv0 = spans.deep_view();
                    spans.push(run);
                    proof {
                        assert(spans.deep_view() =~= dv0.push(rv));
                    }
                    i = e + 2;
                },
                Option::None => {
                    proof {
                        lemma_sfind_none(chars@, i + 2, pat@);
                    }
                    buf.push(c);
                    i = i + 1;
                },
            }
        } else if c == '*' || c == '_' || c == '`' {
            proof {
                assert(i + 1 <= chars@.len());
            }
            match find_char_from(chars.as_slice(), i + 1, c) {
                Option::Some(e) => {
                    proof {
                        assert(chars@.subrange(e as int, e + 1) =~= seq![c]);
                        assert forall|j: int| i + 1 <= j < e implies #[trigger] chars@.subrange(
                            j,
                            j + 1,
                        ) != seq![c] by {
                            assert(chars@.subrange(j, j + 1)[0] == chars@[j]);
                            assert(seq![c][0] == c);
                            assert(chars@[j] != c);
                        }
                        lemma_sfind_some(chars@, i + 1, seq![c], e as int);
                    }
                    if c == '`' || e > i + 1 {
                        proof {
                            assert(advance(chars@, i as int, e + 1) == e + 1);
                        }
                        flush_buf(&mut buf, &mut spans);
                        let style = if c == '`' {
                            code
                        } else {
                            italic
                        };
                        let piece = range_to_string(&chars, i + 1, e);
                        let run = StyledRun { text: piece, style };
                        let ghost rv = run@;
                        let ghost dv0 = spans.deep_view();
                        spans.push(run);
                        proof {
                            assert(spans.deep_view() =~= dv0.push(rv));
                        }
                        i = e + 1;
                    } else {
                        buf.push(c);
                        i = i + 1;
                    }
                },
                Option::None => {
                    proof {
                        assert forall|j: int|
                            i + 1 <= j && j + 1 <= chars@.len() implies #[trigger] chars@.subrange(
                            j,
                            j + 1,
                        ) != seq![c] by {
                            assert(chars@.subrange(j, j + 1)[0] == chars@[j]);
                            assert(seq![c][0] == c);
                            assert(chars@[j] != c);
                        }
                        lemma_sfind_none(chars@, i + 1, seq![c]);
                    }
                    buf.push(c);
                    i = i + 1;
                },
            }
        } else {
            buf.push(c);
            i = i + 1;
        }
    }
    flush_buf(&mut buf, &mut spans);
    if spans.len() == 0 {
        let run = StyledRun { text: String::new(), style: Style::reset() };
        let ghost rv = run@;
        spans.push(run);
        proof {
            assert(spans.deep_view() =~= seq![rv]);
            assert(rv == (SpecRun { text: Seq::<char>::empty(), style: Style::spec_reset() }));
        }
    }
    spans
}

/// The colour of the assistant's role label.
pub open spec fn assistant_label_style() -> Style {
    Style { fg: Option::Some(Color::Rgb(205, 115, 80)), bg: Option::None, attrs: AttrSet::spec_empty() }
}

/// A heading marker followed by a space.
pub open spec fn heading(content: Seq<char>, level: int) -> bool {
    content.len() > level && (forall|j: int| 0 <= j < level ==> #[trigger] content[j] == '#')
        && content[level] == ' '
}

/// The style a rendered history line gives its role label.
pub open spec fn prefix_style_of(s: Seq<char>) -> Style {
    if starts_with(s, prefix_you()) {
        crate::theme::fg_only(Color::Green)
    } else if starts_with(s, prefix_assistant_label()) {
        assistant_label_style()
    } else if starts_with(s, prefix_system_label()) {
        crate::theme::fg_only(Color::DarkGray)
    } else {
        Style::spec_reset()
    }
}

/// What one rendered history line shows: its role label under that label's
/// colour, then the content — as one code-coloured span inside a fenced
/// block, as one heading-styled span under a heading marker, and otherwise
/// with its inline markdown parsed.
pub open spec fn md_line_spec(s: Seq<char>, in_code: bool) -> Seq<SpecRun> {
    if s.len() == 0 {
        seq![SpecRun { text: Seq::empty(), style: Style::spec_reset() }]
    } else {
        let content = spec_line_content(s);
        let prefix = s.take(s.len() - content.len());
        let head = if prefix.len() == 0 {
            Seq::<SpecRun>::empty()
        } else {
            seq![SpecRun { text: prefix, style: prefix_style_of(s) }]
        };
        if in_code {
            head.push(SpecRun { text: content, style: crate::theme::fg_only(Color::Yellow) })
        } else if heading(content, 3) {
            head.push(SpecRun { text: content, style: bold_style() })
        } else if heading(content, 2) {
            head.push(SpecRun { text: content, style: crate::theme::fg_bold(Color::Cyan) })
        } else if heading(content, 1) {
            head.push(SpecRun { text: content, style: crate::theme::fg_bold(Color::Yellow) })
        } else {
            head + spec_parse_inline_md(content)
        }
    }
}

fn is_heading(content: &Vec<char>, level: usize) -> (r: bool)
    requires
        1 <= level <= 3,
    ensures
        r == heading(content@, level as int),
{
    if content.len() <= level {
        return false;
    }
    let mut j: usize = 0;
    while j < level
        invariant
            0 <= j <= level,
            level < content@.len(),
            forall|m: int| 0 <= m < j ==> #[trigger] content@[m] == '#',
        decreases level - j,
    {
        if content[j] != '#' {
            return false;
        }
        j = j + 1;
    }
    content[level] == ' '
}

/// Render one history line with markdown styling applied.
pub fn render_md_line(text: &str, in_code: bool) -> (spans: Vec<StyledRun>)
    ensures
        spans.deep_view() == md_line_spec(text@, in_code),
{
    let chars = str_to_chars(text);
    if chars.len() == 0 {
        let mut spans: Vec<StyledRun> = Vec::new();
        let run = StyledRun { text: String::new(), style: Style::reset() };
        let ghost rv = run@;
        spans.push(run);
        proof {
            assert(spans.deep_view() =~= seq![rv]);
        }
        return spans;
    }
    let content_str = crate::llm::line_content(text);
    let content = str_to_chars(content_str.as_str());
    let strip = chars.len() - content.len();
    proof {
        assert(content@ == spec_line_content(chars@));
        assert(spec_line_content(chars@).len() <= chars@.len());
    }
    let mut spans: Vec<StyledRun> = Vec::new();
    if strip > 0 {
        let prefix = crate::text::chars_to_string(&range_chars(&chars, 0, strip));
        proof {
            assert(chars@.subrange(0, strip as int) =~= chars@.take(strip as int));
        }
        let style = prefix_style_exec(&chars);
        let run = StyledRun { text: prefix, style };
        let ghost rv = run@;
        spans.push(run);
        proof {
            assert(spans.deep_view() =~= seq![rv]);
        }
    } else {
        proof {
            assert(chars@.take(0) =~= Seq::<char>::empty());
            assert(spans.deep_view() =~= Seq::<SpecRun>::empty());
        }
    }
    let ghost head = spans.deep_view();
    if in_code {
        let run = StyledRun {
            text: content_str,
            style: crate::theme::solid(Color::Yellow),
        };
        let ghost rv = run@;
        spans.push(run);
        proof {
            assert(spans.deep_view() =~= head.push(rv));
        }
        spans
    } else if is_heading(&content, 3) {
        let run = StyledRun {
            text: content_str,
            style: Style {
                fg: Option::None,
                bg: Option::None,
                attrs: AttrSet { bold: true, ..AttrSet::empty() },
            },
        };
        let ghost rv = run@;
        spans.push(run);
        proof {
            assert(spans.deep_view() =~= head.push(rv));
        }
        spans
    } else if is_heading(&content, 2) {
        let run = StyledRun { text: content_str, style: crate::theme::solid_bold(Color::Cyan) };
        let ghost rv = run@;
        spans.push(run);
        proof {
            assert(spans.deep_view() =~= head.push(rv));
        }
        spans
    } else if is_heading(&content, 1) {
        let run = StyledRun { text: content_str, style: crate::theme::solid_bold(Color::Yellow) };
        let ghost rv = run@;
        spans.push(run);
        proof {
            assert(spans.deep_view() =~= head.push(rv));
        }
        spans
    } else {
        let inline = parse_inline_md(content_str.as_str());
        let ghost idv = inline.deep_view();
        let mut spans = spans;
        let mut k: usize = 0;
        proof {
            assert(idv.take(0) =~= Seq::<SpecRun>::empty());
            assert(spans.deep_view() =~= head + idv.take(0));
        }
        while k < inline.len()
            invariant
                0 <= k <= inline@.len(),
                idv == inline.deep_view(),
                spans.deep_view() == head + idv.take(k as int),
            decreases inline@.len() - k,
        {
            let run = StyledRun { text: inline[k].text.clone(), style: inline[k].style };
            let ghost rv = run@;
            let ghost dv0 = spans.deep_view();
            spans.push(run);
            proof {
                assert(spans.deep_view() =~= dv0.push(rv));
                assert(rv == idv[k as int]);
                assert(idv.take(k + 1) =~= idv.take(k as int).push(idv[k as int]));
                assert(spans.deep_view() =~= head + idv.take(k + 1));
            }
            k = k + 1;
        }
        proof {
            assert(idv.take(k as int) =~= idv);
        }
        spans
    }
}

/// Copy a character range.
fn range_chars(chars: &Vec<char>, from: usize, to: usize) -> (v: Vec<char>)
    requires
        from <= to <= chars@.len(),
    ensures
        v@ == chars@.subrange(from as int, to as int),
{
    let mut v: Vec<char> = Vec::new();
    let mut i = from;
    proof {
        assert(v@ =~= chars@.subrange(from as int, to as int).take(0));
    }
    while i < to
        invariant
            from <= i <= to <= chars@.len(),
            v@ =~= chars@.subrange(from as int, to as int).take(i - from),
        decreases to - i,
    {
        v.push(chars[i]);
        proof {
            assert(chars@.subrange(from as int, to as int)[i - from] == chars@[i as int]);
            assert(v@ =~= chars@.subrange(from as int, to as int).take(i + 1 - from));
        }
        i = i + 1;
    }
    proof {
        assert(chars@.subrange(from as int, to as int).take(to - from) =~= chars@.subrange(
            from as int,
            to as int,
        ));
    }
    v
}

/// The role-label colour of a rendered history line.
fn prefix_style_exec(chars: &Vec<char>) -> (r: Style)
    ensures
        r == prefix_style_of(chars@),
{
    let mut you: Vec<char> = Vec::new();
    you.push('Y');
    you.push('o');
    you.push('u');
    you.push(':');
    you.push(' ');
    proof {
        assert(you@ =~= prefix_you());
    }
    let mut assistant_label: Vec<char> = Vec::new();
    assistant_label.push('A');
    assistant_label.push('s');
    assistant_label.push('s');
    assistant_label.push('i');
    assistant_label.push('s');
    assistant_label.push('t');
    assistant_label.push('a');
    assistant_label.push('n');
    assistant_label.push('t');
    assistant_label.push(':');
    assistant_label.push(' ');
    proof {
        assert(assistant_label@ =~= prefix_assistant_label());
    }
    let mut system_label: Vec<char> = Vec::new();
    system_label.push('S');
    system_label.push('y');
    system_label.push('s');
    system_label.push('t');
    system_label.push('e');
    system_label.push('m');
    system_label.push(':');
    system_label.push(' ');
    proof {
        assert(system_label@ =~= prefix_system_label());
    }
    if crate::llm::starts_with_chars(chars.as_slice(), you.as_slice()) {
        crate::theme::solid(Color::Green)
    } else if crate::llm::starts_with_chars(chars.as_slice(), assistant_label.as_slice()) {
        Style {
            fg: Option::Some(Color::Rgb(205, 115, 80)),
            bg: Option::None,
            attrs: AttrSet::empty(),
        }
    } else if crate::llm::starts_with_chars(chars.as_slice(), system_label.as_slice()) {
        crate::theme::solid(Color::DarkGray)
    } else {
        Style::reset()
    }
}

} // verus!
