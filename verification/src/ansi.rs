//! The escape/style parser: a stateful transducer from decoded text to
//! styled runs.
//!
//! The parser walks the input one character at a time. Printable text
//! gathers into a pending stretch under the current style; an SGR sequence
//! (`ESC [ ... m`) flushes that stretch into the run list and updates the
//! style; every other escape sequence is recognised structurally and
//! discarded. The whole machine state — style, mode, and the partially
//! accumulated parameter text of an unfinished sequence — is carried in the
//! [`Parser`] value across calls, so a sequence split over two `feed` calls
//! behaves exactly as if it had arrived whole.
use vstd::prelude::*;
use vstd::string::StringExecFns;

use crate::sgr::{apply_sgr, apply_sgr_spec};
use crate::style::Style;
use crate::text::str_to_chars;

verus! {

/// A contiguous stretch of text sharing one style.
#[derive(Debug)]
pub struct StyledRun {
    pub text: String,
    pub style: Style,
}

/// The mathematical value of a styled run.
pub struct SpecRun {
    pub text: Seq<char>,
    pub style: Style,
}

impl View for StyledRun {
    type V = SpecRun;

    open spec fn view(&self) -> SpecRun {
        SpecRun { text: self.text@, style: self.style }
    }
}

impl DeepView for StyledRun {
    type V = SpecRun;

    open spec fn deep_view(&self) -> SpecRun {
        self.view()
    }
}

impl Clone for StyledRun {
    fn clone(&self) -> (r: StyledRun)
        ensures
            r@ == self@,
    {
        StyledRun { text: self.text.clone(), style: self.style }
    }
}

/// Which part of an escape sequence the parser is inside, if any.
#[derive(Clone, Copy, Debug, PartialEq, Eq, Structural)]
pub enum ModeTag {
    /// Plain text.
    Normal,
    /// An ESC byte was just seen.
    Escape,
    /// Inside `ESC [`, accumulating parameter characters.
    Csi,
    /// Inside `ESC ]`, discarding up to BEL or ST.
    Osc,
    /// An ESC byte was seen inside an OSC body.
    OscEscape,
}

/// The parser mode together with any accumulated parameter text.
pub enum SpecMode {
    Normal,
    Escape,
    Csi(Seq<char>),
    Osc,
    OscEscape,
}

/// The full abstract state of the transducer: the runs already flushed, the
/// pending stretch of text, the current style, and the escape mode.
pub struct SpecState {
    pub runs: Seq<SpecRun>,
    pub pending: Seq<char>,
    pub style: Style,
    pub mode: SpecMode,
}

/// A Unicode control character (category Cc).
pub open spec fn spec_is_ctrl(c: char) -> bool {
    (c as u32) < 0x20 || (0x7f <= c as u32 && c as u32 <= 0x9f)
}

/// An ASCII letter, which ends a CSI sequence.
pub open spec fn spec_is_alpha(c: char) -> bool {
    (0x41 <= c as u32 && c as u32 <= 0x5a) || (0x61 <= c as u32 && c as u32 <= 0x7a)
}

/// A character that passes through the parser into the output text.
pub open spec fn is_plain_char(c: char) -> bool {
    !spec_is_ctrl(c) || c == '\t'
}

/// Move the pending text into the run list, merging it into the last run
/// when the styles agree so that adjacent runs of one style stay one run.
pub open spec fn flush_state(st: SpecState) -> SpecState {
    if st.pending.len() == 0 {
        st
    } else if st.runs.len() > 0 && st.runs.last().style == st.style {
        SpecState {
            runs: st.runs.update(
                st.runs.len() - 1,
                SpecRun { text: st.runs.last().text + st.pending, style: st.style },
            ),
            pending: Seq::empty(),
            ..st
        }
    } else {
        SpecState {
            runs: st.runs.push(SpecRun { text: st.pending, style: st.style }),
            pending: Seq::empty(),
            ..st
        }
    }
}

/// How plain text advances the pending stretch: carriage returns and other
/// control characters are dropped, backspace removes the last accumulated
/// character, tab and everything printable is kept.
pub open spec fn normal_step_pending(p: Seq<char>, c: char) -> Seq<char> {
    if c == '\x1b' || c == '\r' {
        p
    } else if c == '\x08' {
        if p.len() > 0 {
            p.drop_last()
        } else {
            p
        }
    } else if spec_is_ctrl(c) && c != '\t' {
        p
    } else {
        p.push(c)
    }
}

pub open spec fn normal_step_mode(c: char) -> SpecMode {
    if c == '\x1b' {
        SpecMode::Escape
    } else {
        SpecMode::Normal
    }
}

pub open spec fn handle_normal(st: SpecState, c: char) -> SpecState {
    SpecState {
        pending: normal_step_pending(st.pending, c),
        mode: normal_step_mode(c),
        ..st
    }
}

/// One transition of the transducer.
pub open spec fn step(st: SpecState, c: char) -> SpecState {
    match st.mode {
        SpecMode::Normal => handle_normal(st, c),
        SpecMode::Escape => {
            if c == '[' {
                SpecState { mode: SpecMode::Csi(Seq::empty()), ..st }
            } else if c == ']' {
                SpecState { mode: SpecMode::Osc, ..st }
            } else {
                SpecState { mode: SpecMode::Normal, ..st }
            }
        },
        SpecMode::Csi(ps) => {
            if spec_is_alpha(c) {
                if c == 'm' {
                    let f = flush_state(st);
                    SpecState {
                        style: apply_sgr_spec(ps, st.style),
                        mode: SpecMode::Normal,
                        ..f
                    }
                } else {
                    SpecState { mode: SpecMode::Normal, ..st }
                }
            } else {
                SpecState { mode: SpecMode::Csi(ps.push(c)), ..st }
            }
        },
        SpecMode::Osc => {
            if c == '\x07' {
                SpecState { mode: SpecMode::Normal, ..st }
            } else if c == '\x1b' {
                SpecState { mode: SpecMode::OscEscape, ..st }
            } else {
                st
            }
        },
        SpecMode::OscEscape => {
            if c == '\\' {
                SpecState { mode: SpecMode::Normal, ..st }
            } else {
                handle_normal(SpecState { mode: SpecMode::Normal, ..st }, c)
            }
        },
    }
}

/// The transducer folded over a whole input.
pub open spec fn process(st: SpecState, input: Seq<char>) -> SpecState
    decreases input.len(),
{
    if input.len() == 0 {
        st
    } else {
        process(step(st, input[0]), input.drop_first())
    }
}

/// What one `feed` call produces and leaves behind, starting from empty runs
/// and empty pending text.
pub open spec fn feed_spec(style: Style, mode: SpecMode, input: Seq<char>) -> SpecState {
    flush_state(
        process(
            SpecState { runs: Seq::empty(), pending: Seq::empty(), style, mode },
            input,
        ),
    )
}

/// Processing one more character is one more step.
pub proof fn lemma_process_snoc(st: SpecState, s: Seq<char>, c: char)
    ensures
        process(st, s.push(c)) == step(process(st, s), c),
    decreases s.len(),
{
    assert(process(st, s.push(c)) == process(step(st, s.push(c)[0]), s.push(c).drop_first()));
    if s.len() == 0 {
        assert(s.push(c)[0] == c);
        assert(s.push(c).drop_first() =~= Seq::<char>::empty());
        assert(process(step(st, c), Seq::<char>::empty()) == step(st, c));
        assert(process(st, s) == st);
    } else {
        assert(s.push(c)[0] == s[0]);
        assert(s.push(c).drop_first() =~= s.drop_first().push(c));
        lemma_process_snoc(step(st, s[0]), s.drop_first(), c);
        assert(process(st, s) == process(step(st, s[0]), s.drop_first()));
    }
}

/// Chunk-boundary invariance: feeding an input in two pieces drives the
/// carried state through exactly the same transitions as feeding it whole,
/// however the split falls — including in the middle of an escape sequence.
pub proof fn lemma_chunk_boundary_invariance(st: SpecState, a: Seq<char>, b: Seq<char>)
    ensures
        process(st, a + b) == process(process(st, a), b),
    decreases a.len(),
{
    if a.len() == 0 {
        assert(a + b =~= b);
    } else {
        assert((a + b)[0] == a[0]);
        assert((a + b).drop_first() =~= a.drop_first() + b);
        lemma_chunk_boundary_invariance(step(st, a[0]), a.drop_first(), b);
    }
}

/// Plain text only grows the pending stretch.
proof fn lemma_plain_process(st: SpecState, input: Seq<char>)
    requires
        (st.mode is Normal),
        forall|i: int| 0 <= i < input.len() ==> is_plain_char(#[trigger] input[i]),
    ensures
        process(st, input) == (SpecState { pending: st.pending + input, ..st }),
    decreases input.len(),
{
    if input.len() == 0 {
        assert(st.pending + input =~= st.pending);
        assert(process(st, input) == st);
        assert(SpecState { pending: st.pending + input, ..st } == st);
    } else {
        let c = input[0];
        assert(is_plain_char(c));
        assert(c != '\x1b' && c != '\r' && c != '\x08') by {
            assert(spec_is_ctrl('\x1b'));
            assert(spec_is_ctrl('\r'));
            assert(spec_is_ctrl('\x08'));
        }
        let st1 = SpecState { pending: st.pending.push(c), ..st };
        assert(step(st, c) == st1);
        lemma_plain_process(st1, input.drop_first());
        assert(st.pending + input =~= st.pending.push(c) + input.drop_first());
    }
}

/// Plain-text round trip: an input free of escape and control characters
/// comes back out as exactly one run holding the whole input under the
/// starting style — or as no run at all when the input is empty.
pub proof fn lemma_plain_text_round_trip(style: Style, input: Seq<char>)
    requires
        forall|i: int| 0 <= i < input.len() ==> is_plain_char(#[trigger] input[i]),
    ensures
        (input.len() == 0 ==> feed_spec(style, SpecMode::Normal, input).runs =~= Seq::<SpecRun>::empty()),
        (input.len() > 0 ==> feed_spec(style, SpecMode::Normal, input).runs =~= seq![(SpecRun { text: input, style })]),
        feed_spec(style, SpecMode::Normal, input).style == style,
        (feed_spec(style, SpecMode::Normal, input).mode is Normal),
{
    let st0 = SpecState {
        runs: Seq::empty(),
        pending: Seq::empty(),
        style,
        mode: SpecMode::Normal,
    };
    lemma_plain_process(st0, input);
    assert(Seq::<char>::empty() + input =~= input);
}

/// No run is empty and no two neighbouring runs share a style.
pub open spec fn runs_normalized(runs: Seq<SpecRun>) -> bool {
    (forall|i: int| 0 <= i < runs.len() ==> #[trigger] runs[i].text.len() > 0) && (forall|i: int|
        0 <= i < runs.len() - 1 ==> #[trigger] runs[i].style != runs[i + 1].style)
}

proof fn lemma_flush_normalized(st: SpecState)
    requires
        runs_normalized(st.runs),
    ensures
        runs_normalized(flush_state(st).runs),
{
}

proof fn lemma_step_normalized(st: SpecState, c: char)
    requires
        runs_normalized(st.runs),
    ensures
        runs_normalized(step(st, c).runs),
{
    match st.mode {
        SpecMode::Csi(ps) => {
            lemma_flush_normalized(st);
        },
        _ => {},
    }
}

proof fn lemma_process_normalized(st: SpecState, input: Seq<char>)
    requires
        runs_normalized(st.runs),
    ensures
        runs_normalized(process(st, input).runs),
    decreases input.len(),
{
    if input.len() > 0 {
        lemma_step_normalized(st, input[0]);
        lemma_process_normalized(step(st, input[0]), input.drop_first());
    }
}

/// Adjacent runs with identical style are always merged: whatever one feed
/// call returns is a normalized run list.
pub proof fn lemma_feed_normalized(style: Style, mode: SpecMode, input: Seq<char>)
    ensures
        runs_normalized(feed_spec(style, mode, input).runs),
{
    let st0 = SpecState {
        runs: Seq::empty(),
        pending: Seq::empty(),
        style,
        mode,
    };
    lemma_process_normalized(st0, input);
    lemma_flush_normalized(process(st0, input));
}

/// The carried state of the escape/style parser.
#[derive(Debug)]
pub struct Parser {
    /// The persistent graphic-rendition state.
    pub style: Style,
    /// Which part of an escape sequence the scan stands in.
    pub tag: ModeTag,
    /// Parameter characters accumulated so far; meaningful inside a CSI
    /// sequence only.
    pub params: Vec<char>,
}

impl Parser {
    /// The parser mode as a mathematical value.
    pub open spec fn mode_view(&self) -> SpecMode {
        match self.tag {
            ModeTag::Normal => SpecMode::Normal,
            ModeTag::Escape => SpecMode::Escape,
            ModeTag::Csi => SpecMode::Csi(self.params@),
            ModeTag::Osc => SpecMode::Osc,
            ModeTag::OscEscape => SpecMode::OscEscape,
        }
    }

    /// A fresh parser: default style, plain-text mode.
    pub fn new() -> (p: Parser)
        ensures
            p.style == Style::spec_reset(),
            (p.mode_view() is Normal),
    {
        Parser { style: Style::reset(), tag: ModeTag::Normal, params: Vec::new() }
    }

    /// An independent copy of the carried state.
    pub fn snapshot(&self) -> (p: Parser)
        ensures
            p.style == self.style,
            p.mode_view() == self.mode_view(),
    {
        Parser {
            style: self.style,
            tag: self.tag,
            params: crate::text::copy_chars(&self.params),
        }
    }

    /// Reset the parser to its starting state.
    pub fn reset(&mut self)
        ensures
            final(self).style == Style::spec_reset(),
            (final(self).mode_view() is Normal),
    {
        self.style = Style::reset();
        self.tag = ModeTag::Normal;
        self.params = Vec::new();
    }

    /// Scan one stretch of decoded text, return the styled runs it produces,
    /// and carry the machine state forward for the next call.
    pub fn feed(&mut self, input: &str) -> (runs: Vec<StyledRun>)
        ensures
            ({
                let f = feed_spec(old(self).style, old(self).mode_view(), input@);
                &&& runs.deep_view() == f.runs
                &&& final(self).style == f.style
                &&& final(self).mode_view() == f.mode
            }),
    {
        let ghost style0 = self.style;
        let ghost mode0 = self.mode_view();
        let ghost st0 = SpecState {
            runs: Seq::empty(),
            pending: Seq::empty(),
            style: style0,
            mode: mode0,
        };
        let chars = str_to_chars(input);
        let mut runs: Vec<StyledRun> = Vec::new();
        let mut pending: String = String::new();
        let mut i: usize = 0;
        proof {
            assert(chars@.take(0) =~= Seq::<char>::empty());
            assert(runs.deep_view() =~= Seq::<SpecRun>::empty());
        }
        while i < chars.len()
            invariant
                0 <= i <= chars.len(),
                chars@ == input@,
                ({
                    let st = process(st0, chars@.take(i as int));
                    &&& runs.deep_view() == st.runs
                    &&& pending@ == st.pending
                    &&& self.style == st.style
                    &&& self.mode_view() == st.mode
                }),
            decreases chars.len() - i,
        {
            let c = chars[i];
            proof {
                assert(chars@.take(i as int).push(c) =~= chars@.take(i + 1));
                lemma_process_snoc(st0, chars@.take(i as int), c);
            }
            let ghost st_pre = process(st0, chars@.take(i as int));
            match self.tag {
                ModeTag::Normal => {
                    let esc = normal_char_exec(&mut pending, c);
                    if esc {
                        self.tag = ModeTag::Escape;
                    }
                },
                ModeTag::Escape => {
                    if c == '[' {
                        self.tag = ModeTag::Csi;
                        self.params = Vec::new();
                    } else if c == ']' {
                        self.tag = ModeTag::Osc;
                    } else {
                        self.tag = ModeTag::Normal;
                    }
                },
                ModeTag::Csi => {
                    let cv = c as u32;
                    if (0x41 <= cv && cv <= 0x5a) || (0x61 <= cv && cv <= 0x7a) {
                        if c == 'm' {
                            flush_runs(&mut runs, &mut pending, self.style);
                            let ghost f = flush_state(st_pre);
                            proof {
                                assert(runs.deep_view() == f.runs);
                            }
                            apply_sgr(&self.params, &mut self.style);
                        }
                        self.tag = ModeTag::Normal;
                    } else {
                        self.params.push(c);
                    }
                },
                ModeTag::Osc => {
                    if c == '\x07' {
                        self.tag = ModeTag::Normal;
                    } else if c == '\x1b' {
                        self.tag = ModeTag::OscEscape;
                    }
                },
                ModeTag::OscEscape => {
                    if c == '\\' {
                        self.tag = ModeTag::Normal;
                    } else {
                        self.tag = ModeTag::Normal;
                        let esc = normal_char_exec(&mut pending, c);
                        if esc {
                            self.tag = ModeTag::Escape;
                        }
                    }
                },
            }
            i = i + 1;
        }
        proof {
            assert(chars@.take(i as int) =~= chars@);
        }
        flush_runs(&mut runs, &mut pending, self.style);
        runs
    }
}

/// Advance the pending text by one plain character; report whether the
/// character opens an escape sequence instead.
fn normal_char_exec(pending: &mut String, c: char) -> (esc: bool)
    ensures
        final(pending)@ == normal_step_pending(old(pending)@, c),
        esc == (c == '\x1b'),
{
    if c == '\x1b' {
        true
    } else if c == '\r' {
        false
    } else if c == '\x08' {
        let ghost p0 = pending@;
        let popped = pending.pop();
        false
    } else {
        let cv = c as u32;
        if (cv < 0x20 || (0x7f <= cv && cv <= 0x9f)) && c != '\t' {
            false
        } else {
            pending.push(c);
            false
        }
    }
}

/// Move the pending text into the run list under the given style, merging
/// with the last run when the styles agree.
fn flush_runs(runs: &mut Vec<StyledRun>, pending: &mut String, style: Style)
    ensures
        ({
            let st = SpecState {
                runs: old(runs).deep_view(),
                pending: old(pending)@,
                style,
                mode: SpecMode::Normal,
            };
            let f = flush_state(st);
            &&& final(runs).deep_view() == f.runs
            &&& final(pending)@ == f.pending
        }),
{
    let ghost st = SpecState {
        runs: old(runs).deep_view(),
        pending: old(pending)@,
        style,
        mode: SpecMode::Normal,
    };
    if pending.as_str().is_empty() {
        assert(final(pending)@ =~= flush_state(st).pending);
        return;
    }
    let n = runs.len();
    let merge = if n > 0 {
        runs[n - 1].style == style
    } else {
        false
    };
    if merge {
        match runs.pop() {
            Some(mut last) => {
                last.text.append(pending.as_str());
                runs.push(last);
                proof {
                    assert(runs.deep_view() =~= flush_state(st).runs);
                }
            },
            None => {
                proof {
                    assert(false);
                }
            },
        }
        *pending = String::new();
    } else {
        let mut text = String::new();
        core::mem::swap(pending, &mut text);
        runs.push(StyledRun { text, style });
        proof {
            assert(runs.deep_view() =~= flush_state(st).runs);
        }
    }
}

} // verus!
