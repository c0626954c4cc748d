//! The output pump's bookkeeping: accumulating decoded text, completing
//! lines at each newline, and keeping the trailing partial line.
//!
//! The caller reads and decodes chunks; this module owns everything after
//! that. Completed lines advance the persistent parser state; the partial
//! line is parsed from a copy of that state, which a line that is not yet
//! final never advances. A clear request drops the accumulator and resets
//! the parser before the chunk is processed.
use vstd::prelude::*;
use vstd::string::StringExecFns;

use crate::ansi::{feed_spec, Parser, SpecMode, SpecRun, StyledRun};
use crate::buffer::{evict, finalized, ScrollbackBuffer};
use crate::style::Style;
use crate::text::{chars_to_string, str_to_chars};

verus! {

/// Splitting text at newlines, carried as a fold: the finished segments so
/// far, and the unfinished one.
pub open spec fn split_lines_loop(s: Seq<char>, cur: Seq<char>, acc: Seq<Seq<char>>) -> (
    Seq<Seq<char>>,
    Seq<char>,
)
    decreases s.len(),
{
    if s.len() == 0 {
        (acc, cur)
    } else if s[0] == '\n' {
        split_lines_loop(s.drop_first(), Seq::empty(), acc.push(cur))
    } else {
        split_lines_loop(s.drop_first(), cur.push(s[0]), acc)
    }
}

/// The newline-terminated segments of `s`, and the remainder after the
/// last newline.
pub open spec fn split_lines(s: Seq<char>) -> (Seq<Seq<char>>, Seq<char>) {
    split_lines_loop(s, Seq::empty(), Seq::empty())
}

/// What feeding a sequence of whole lines through the parser produces: one
/// run list per line, and the carried state after all of them.
pub struct FedLines {
    pub runs: Seq<Seq<SpecRun>>,
    pub style: Style,
    pub mode: SpecMode,
}

pub open spec fn feed_lines(style: Style, mode: SpecMode, lines: Seq<Seq<char>>) -> FedLines
    decreases lines.len(),
{
    if lines.len() == 0 {
        FedLines { runs: Seq::empty(), style, mode }
    } else {
        let prev = feed_lines(style, mode, lines.drop_last());
        let f = feed_spec(prev.style, prev.mode, lines.last());
        FedLines { runs: prev.runs.push(f.runs), style: f.style, mode: f.mode }
    }
}

/// The carried state of the output pump: the not-yet-terminated text and
/// the persistent escape/style parser.
#[derive(Debug)]
pub struct PumpState {
    /// Decoded text after the last newline seen.
    pub acc: String,
    /// The persistent parser; only completed lines advance it.
    pub parser: Parser,
}

impl PumpState {
    /// A fresh pump: empty accumulator, default parser.
    pub fn new() -> (p: PumpState)
        ensures
            p.acc@ == Seq::<char>::empty(),
            p.parser.style == Style::spec_reset(),
            (p.parser.mode_view() is Normal),
    {
        PumpState { acc: String::new(), parser: Parser::new() }
    }

    /// Process one decoded chunk: honour a pending clear request, complete
    /// every line a newline finishes, re-parse the remainder as the new
    /// partial line from a copy of the parser state, and update the buffer
    /// — replacing the previous partial line, never keeping it alongside.
    pub fn pump_chunk(
        &mut self,
        buf: &mut ScrollbackBuffer,
        chunk: &str,
        clear_requested: bool,
    )
        requires
            old(buf).wf(),
        ensures
            final(buf).wf(),
            final(buf).has_partial,
            final(buf).max_lines == old(buf).max_lines,
            ({
                let text = (if clear_requested {
                    Seq::<char>::empty()
                } else {
                    old(self).acc@
                }) + chunk@;
                let style0 = if clear_requested {
                    Style::spec_reset()
                } else {
                    old(self).parser.style
                };
                let mode0 = if clear_requested {
                    SpecMode::Normal
                } else {
                    old(self).parser.mode_view()
                };
                let (segs, rest) = split_lines(text);
                let fed = feed_lines(style0, mode0, segs);
                let partial = feed_spec(fed.style, fed.mode, rest).runs;
                &&& final(self).acc@ == rest
                &&& final(self).parser.style == fed.style
                &&& final(self).parser.mode_view() == fed.mode
                &&& final(buf).lines.deep_view() == evict(
                    finalized(old(buf).lines.deep_view(), old(buf).has_partial) + fed.runs
                        + seq![partial],
                    old(buf).max_lines as int,
                )
            }),
    {
        if clear_requested {
            self.acc = String::new();
            self.parser.reset();
        }
        let ghost style0 = self.parser.style;
        let ghost mode0 = self.parser.mode_view();
        self.acc.append(chunk);
        let ghost text = self.acc@;
        let chars = str_to_chars(self.acc.as_str());
        let mut completes: Vec<Vec<StyledRun>> = Vec::new();
        let mut seg: Vec<char> = Vec::new();
        let mut i: usize = 0;
        let ghost mut segs_done: Seq<Seq<char>> = Seq::empty();
        proof {
            assert(chars@.skip(0) =~= chars@);
            assert(completes.deep_view() =~= Seq::<Seq<SpecRun>>::empty());
        }
        while i < chars.len()
            invariant
                0 <= i <= chars.len(),
                chars@ == text,
                split_lines(text) == split_lines_loop(chars@.skip(i as int), seg@, segs_done),
                feed_lines(style0, mode0, segs_done) == (FedLines {
                    runs: completes.deep_view(),
                    style: self.parser.style,
                    mode: self.parser.mode_view(),
                }),
            decreases chars.len() - i,
        {
            let c = chars[i];
            proof {
                assert(chars@.skip(i as int)[0] == chars@[i as int]);
                assert(chars@.skip(i as int).drop_first() =~= chars@.skip(i + 1));
            }
            if c == '\n' {
                let seg_str = chars_to_string(&seg);
                let ghost segv = seg@;
                let ghost prev_segs = segs_done;
                let ghost prev_fed = feed_lines(style0, mode0, prev_segs);
                let runs = self.parser.feed(seg_str.as_str());
                let ghost done0 = completes.deep_view();
                completes.push(runs);
                proof {
                    segs_done = segs_done.push(segv);
                    assert(segs_done.drop_last() =~= prev_segs);
                    assert(segs_done.last() == segv);
                    let f = feed_spec(prev_fed.style, prev_fed.mode, segv);
                    assert(completes.deep_view() =~= done0.push(f.runs));
                    assert(feed_lines(style0, mode0, segs_done) == (FedLines {
                        runs: prev_fed.runs.push(f.runs),
                        style: f.style,
                        mode: f.mode,
                    }));
                }
                seg = Vec::new();
            } else {
                seg.push(c);
            }
            i = i + 1;
        }
        proof {
            assert(chars@.skip(i as int) =~= Seq::<char>::empty());
        }
        self.acc = chars_to_string(&seg);
        let mut snap = self.parser.snapshot();
        let partial = snap.feed(self.acc.as_str());
        buf.apply_chunk(completes, partial);
    }
}

} // verus!
