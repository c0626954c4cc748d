//! The scrollback buffer: a bounded FIFO of styled lines.
//!
//! The last line may be a *partial* line — output the remote side has not
//! yet finished with a newline. Each read cycle replaces it wholesale. On
//! overflow past the capacity the oldest lines are dropped in bulk,
//! preserving the order of the rest.
use vstd::prelude::*;
use vstd::string::StringExecFns;

use crate::ansi::{SpecRun, StyledRun};

verus! {

/// How many lines the scrollback retains.
pub const MAX_LINES: usize = 2000;

/// How many trailing lines are offered as context to the assistant.
pub const CONTEXT_LINES: usize = 50;

/// The plain text of one line: its runs' texts, concatenated.
pub open spec fn line_text(runs: Seq<SpecRun>) -> Seq<char>
    decreases runs.len(),
{
    if runs.len() == 0 {
        Seq::empty()
    } else {
        line_text(runs.drop_last()) + runs.last().text
    }
}

/// The plain text of a stretch of lines, joined with newlines.
pub open spec fn lines_text(s: Seq<Seq<SpecRun>>) -> Seq<char>
    decreases s.len(),
{
    if s.len() == 0 {
        Seq::empty()
    } else {
        lines_text(s.drop_last()) + (if s.len() == 1 {
            Seq::<char>::empty()
        } else {
            seq!['\n']
        }) + line_text(s.last())
    }
}

/// The finalized lines: all of them, less a trailing partial line.
pub open spec fn finalized(s: Seq<Seq<SpecRun>>, has_partial: bool) -> Seq<Seq<SpecRun>> {
    if has_partial {
        s.drop_last()
    } else {
        s
    }
}

/// Keep at most `max` lines, dropping the oldest.
pub open spec fn evict(s: Seq<Seq<SpecRun>>, max: int) -> Seq<Seq<SpecRun>> {
    if s.len() <= max {
        s
    } else {
        s.skip(s.len() - max)
    }
}

/// Eviction keeps exactly the newest lines, in their order.
pub proof fn lemma_evict_bounds(s: Seq<Seq<SpecRun>>, max: int)
    requires
        max >= 0,
    ensures
        evict(s, max).len() == if s.len() <= max {
            s.len() as int
        } else {
            max
        },
        forall|i: int|
            0 <= i < evict(s, max).len() ==> #[trigger] evict(s, max)[i] == s[
                s.len() - evict(s, max).len() + i
            ],
{
}

/// Reading from a recorded line count returns exactly the lines appended
/// after it, as long as nothing was evicted in between.
pub proof fn lemma_capture_since_new_lines(s1: Seq<Seq<SpecRun>>, added: Seq<Seq<SpecRun>>)
    ensures
        (s1 + added).skip(s1.len() as int) == added,
{
    assert((s1 + added).skip(s1.len() as int) =~= added);
}

/// The plain text of one line of runs.
pub fn plain_text(runs: &Vec<StyledRun>) -> (out: String)
    ensures
        out@ == line_text(runs.deep_view()),
{
    let ghost dv = runs.deep_view();
    let mut out = String::new();
    let mut i: usize = 0;
    proof {
        assert(dv.take(0) =~= Seq::<SpecRun>::empty());
    }
    while i < runs.len()
        invariant
            0 <= i <= runs.len(),
            dv == runs.deep_view(),
            out@ == line_text(dv.take(i as int)),
        decreases runs.len() - i,
    {
        proof {
            assert(dv.take(i + 1).drop_last() =~= dv.take(i as int));
            assert(dv.take(i + 1).last() == dv[i as int]);
        }
        out.append(runs[i].text.as_str());
        i = i + 1;
    }
    proof {
        assert(dv.take(i as int) =~= dv);
    }
    out
}

/// The bounded, ordered collection of styled lines.
#[derive(Debug)]
pub struct ScrollbackBuffer {
    /// The retained lines, oldest first.
    pub lines: Vec<Vec<StyledRun>>,
    /// Whether the last line is a partial line, to be replaced wholesale.
    pub has_partial: bool,
    /// The capacity: the length never exceeds it.
    pub max_lines: usize,
}

impl ScrollbackBuffer {
    /// The buffer's structural invariant.
    pub open spec fn wf(&self) -> bool {
        &&& self.max_lines >= 1
        &&& self.lines@.len() <= self.max_lines
        &&& (self.has_partial ==> self.lines@.len() > 0)
    }

    /// An empty buffer with the default capacity.
    pub fn new() -> (b: ScrollbackBuffer)
        ensures
            b.wf(),
            b.lines@.len() == 0,
            !b.has_partial,
            b.max_lines == MAX_LINES,
    {
        ScrollbackBuffer { lines: Vec::new(), has_partial: false, max_lines: MAX_LINES }
    }

    /// An empty buffer retaining at most `max` lines.
    pub fn with_capacity(max: usize) -> (b: ScrollbackBuffer)
        requires
            max >= 1,
        ensures
            b.wf(),
            b.lines@.len() == 0,
            !b.has_partial,
            b.max_lines == max,
    {
        ScrollbackBuffer { lines: Vec::new(), has_partial: false, max_lines: max }
    }

    /// The current number of buffered lines.
    pub fn line_count(&self) -> (n: usize)
        ensures
            n == self.lines@.len(),
    {
        self.lines.len()
    }

    /// Drop the oldest lines until at most `max_lines` remain.
    fn enforce_capacity(&mut self)
        requires
            old(self).max_lines >= 1,
        ensures
            final(self).lines.deep_view() == evict(
                old(self).lines.deep_view(),
                old(self).max_lines as int,
            ),
            final(self).has_partial == old(self).has_partial,
            final(self).max_lines == old(self).max_lines,
    {
        let len = self.lines.len();
        if len > self.max_lines {
            let keep = self.lines.split_off(len - self.max_lines);
            self.lines = keep;
        }
    }

    /// One read-cycle update: the previous partial line is replaced — never
    /// kept alongside — by the newly completed lines and the new partial.
    /// Oldest lines are dropped past the capacity.
    pub fn apply_chunk(&mut self, complete: Vec<Vec<StyledRun>>, partial: Vec<StyledRun>)
        requires
            old(self).wf(),
        ensures
            final(self).wf(),
            final(self).lines.deep_view() == evict(
                finalized(old(self).lines.deep_view(), old(self).has_partial)
                    + complete.deep_view() + seq![partial.deep_view()],
                old(self).max_lines as int,
            ),
            final(self).has_partial,
            final(self).max_lines == old(self).max_lines,
    {
        let ghost base = finalized(old(self).lines.deep_view(), old(self).has_partial);
        if self.has_partial {
            match self.lines.pop() {
                Some(_) => {},
                None => {
                    proof {
                        assert(false);
                    }
                },
            }
        }
        proof {
            assert(self.lines.deep_view() =~= base);
        }
        let mut complete = complete;
        let ghost cdv = complete.deep_view();
        self.lines.append(&mut complete);
        proof {
            assert(self.lines.deep_view() =~= base + cdv);
        }
        let ghost pdv = partial.deep_view();
        self.lines.push(partial);
        proof {
            assert(self.lines.deep_view() =~= base + cdv + seq![pdv]);
        }
        self.has_partial = true;
        self.enforce_capacity();
        proof {
            lemma_evict_bounds(base + cdv + seq![pdv], self.max_lines as int);
        }
    }

    /// Append finished lines, keeping any trailing partial line last.
    pub fn append_complete(&mut self, lines: Vec<Vec<StyledRun>>)
        requires
            old(self).wf(),
        ensures
            final(self).wf(),
            final(self).lines.deep_view() == evict(
                if old(self).has_partial {
                    finalized(old(self).lines.deep_view(), true) + lines.deep_view() + seq![
                        old(self).lines.deep_view().last(),
                    ]
                } else {
                    old(self).lines.deep_view() + lines.deep_view()
                },
                old(self).max_lines as int,
            ),
            final(self).has_partial == old(self).has_partial,
            final(self).max_lines == old(self).max_lines,
    {
        let ghost dv0 = old(self).lines.deep_view();
        let mut lines = lines;
        let ghost ldv = lines.deep_view();
        if self.has_partial {
            match self.lines.pop() {
                Some(p) => {
                    let ghost pdv = p.deep_view();
                    proof {
                        assert(pdv == dv0.last());
                        assert(self.lines.deep_view() =~= dv0.drop_last());
                    }
                    self.lines.append(&mut lines);
                    self.lines.push(p);
                    proof {
                        assert(self.lines.deep_view() =~= dv0.drop_last() + ldv + seq![
                            dv0.last(),
                        ]);
                    }
                },
                None => {
                    proof {
                        assert(false);
                    }
                },
            }
        } else {
            self.lines.append(&mut lines);
            proof {
                assert(self.lines.deep_view() =~= dv0 + ldv);
            }
        }
        let ghost grown = self.lines.deep_view();
        self.enforce_capacity();
        proof {
            lemma_evict_bounds(grown, self.max_lines as int);
        }
    }

    /// Replace the current partial line — or start one if none is pending.
    pub fn replace_partial(&mut self, line: Vec<StyledRun>)
        requires
            old(self).wf(),
        ensures
            final(self).wf(),
            final(self).lines.deep_view() == evict(
                finalized(old(self).lines.deep_view(), old(self).has_partial) + seq![
                    line.deep_view(),
                ],
                old(self).max_lines as int,
            ),
            final(self).has_partial,
            final(self).max_lines == old(self).max_lines,
    {
        let ghost base = finalized(old(self).lines.deep_view(), old(self).has_partial);
        if self.has_partial {
            match self.lines.pop() {
                Some(_) => {},
                None => {
                    proof {
                        assert(false);
                    }
                },
            }
        }
        proof {
            assert(self.lines.deep_view() =~= base);
        }
        let ghost ldv = line.deep_view();
        self.lines.push(line);
        proof {
            assert(self.lines.deep_view() =~= base + seq![ldv]);
        }
        self.has_partial = true;
        let ghost grown = self.lines.deep_view();
        self.enforce_capacity();
        proof {
            lemma_evict_bounds(grown, self.max_lines as int);
        }
    }

    /// Forget everything.
    pub fn clear(&mut self)
        ensures
            final(self).wf() == (final(self).max_lines >= 1),
            final(self).lines@.len() == 0,
            final(self).lines.deep_view() =~= Seq::<Seq<SpecRun>>::empty(),
            !final(self).has_partial,
            final(self).max_lines == old(self).max_lines,
    {
        self.lines.clear();
        self.has_partial = false;
    }

    /// The plain text of the lines from `start` on, joined with newlines.
    fn join_from(&self, start: usize) -> (out: String)
        requires
            start <= self.lines@.len(),
        ensures
            out@ == lines_text(self.lines.deep_view().skip(start as int)),
    {
        let ghost sub = self.lines.deep_view().skip(start as int);
        let mut out = String::new();
        let mut j: usize = 0;
        let len = self.lines.len();
        let count = len - start;
        proof {
            assert(sub.take(0) =~= Seq::<Seq<SpecRun>>::empty());
        }
        while j < count
            invariant
                0 <= j <= count,
                len == self.lines@.len(),
                count == len - start,
                start <= len,
                sub == self.lines.deep_view().skip(start as int),
                out@ == lines_text(sub.take(j as int)),
            decreases count - j,
        {
            proof {
                assert(sub.take(j + 1).drop_last() =~= sub.take(j as int));
                assert(sub.take(j + 1).last() == sub[j as int]);
                assert(sub[j as int] == self.lines.deep_view()[start + j]);
            }
            if j > 0 {
                out.push('\n');
                proof {
                    assert(lines_text(sub.take(j as int)).push('\n') =~= lines_text(
                        sub.take(j as int),
                    ) + seq!['\n']);
                }
            } else {
                proof {
                    assert(out@ + Seq::<char>::empty() =~= out@);
                }
            }
            let text = plain_text(&self.lines[start + j]);
            out.append(text.as_str());
            j = j + 1;
        }
        proof {
            assert(sub.take(j as int) =~= sub);
        }
        out
    }

    /// All lines appended at or after a previously recorded line count,
    /// joined with newlines. A count past the end yields the empty string.
    pub fn capture_since(&self, from_line: usize) -> (out: String)
        ensures
            out@ == lines_text(
                self.lines.deep_view().skip(
                    if from_line <= self.lines@.len() {
                        from_line as int
                    } else {
                        self.lines@.len() as int
                    },
                ),
            ),
    {
        let len = self.lines.len();
        let start = if from_line < len {
            from_line
        } else {
            len
        };
        self.join_from(start)
    }

    /// The plain text of the last `last_n` lines, joined with newlines.
    pub fn visible_text(&self, last_n: usize) -> (out: String)
        ensures
            out@ == lines_text(
                self.lines.deep_view().skip(
                    if last_n <= self.lines@.len() {
                        self.lines@.len() - last_n
                    } else {
                        0
                    },
                ),
            ),
    {
        let len = self.lines.len();
        let start = if last_n < len {
            len - last_n
        } else {
            0
        };
        self.join_from(start)
    }
}

} // verus!
