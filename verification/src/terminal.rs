//! The terminal tab core: scrollback, scrolling, and the selection engine.
//!
//! Screen coordinates are resolved through the visual row map recorded at
//! the last render pass into buffer positions — a line index and a
//! character offset into that line's plain text. Offsets count Unicode
//! scalar values, so a position can never split a character.
use vstd::prelude::*;
use vstd::string::StrSliceExecFns;

use crate::ansi::{SpecRun, StyledRun};
use crate::buffer::{line_text, ScrollbackBuffer};
use crate::event::{Action, Event, KeyCode, KeyModifiers, MouseKind};
use crate::style::Style;
use crate::text::{encode_utf8, utf8_bytes};
use crate::wrap::VisualRow;

verus! {

/// A position in the buffer: line index and character offset into that
/// line's plain text.
pub type BufPos = (usize, usize);

/// A rectangle on screen, in cells.
#[derive(Clone, Copy, Debug, PartialEq, Eq, Structural)]
pub struct Rect {
    pub x: u16,
    pub y: u16,
    pub width: u16,
    pub height: u16,
}

impl Rect {
    pub open spec fn spec_zero() -> Rect {
        Rect { x: 0, y: 0, width: 0, height: 0 }
    }

    /// The empty rectangle at the origin.
    pub fn zero() -> (r: Rect)
        ensures
            r == Rect::spec_zero(),
    {
        Rect { x: 0, y: 0, width: 0, height: 0 }
    }
}

/// How many rows one scroll step moves.
pub const SCROLL_STEP: usize = 3;

/// What the driving loop must do after an event was handled. All I/O stays
/// with the caller; the core only decides.
#[derive(Clone, Debug)]
pub enum TermEffect {
    /// Nothing to do.
    Idle,
    /// Write these bytes to the session.
    Write(Vec<u8>),
    /// Write these bytes, then reset the output pump's carried state: the
    /// local buffer was cleared and the remote side asked to redraw.
    WriteAndClear(Vec<u8>),
    /// Push this text to the system clipboard.
    Copy(String),
    /// Read the clipboard and send its text verbatim to the session.
    Paste,
}

/// A selection: anchor and cursor, in buffer coordinates.
pub open spec fn norm_range(sel: Option<(BufPos, BufPos)>) -> Option<(BufPos, BufPos)> {
    match sel {
        Option::None => Option::None,
        Option::Some((a, b)) => {
            if a.0 < b.0 || (a.0 == b.0 && a.1 <= b.1) {
                Option::Some((a, b))
            } else {
                Option::Some((b, a))
            }
        },
    }
}

/// The slice of one covered line that a normalized selection takes, with
/// the offsets clamped into the line.
pub open spec fn extract_piece(
    lines: Seq<Seq<SpecRun>>,
    s: BufPos,
    e: BufPos,
    el: int,
    li: int,
) -> Seq<char> {
    let text = line_text(lines[li]);
    let n = text.len() as int;
    let from = if li == s.0 {
        if s.1 <= n {
            s.1 as int
        } else {
            n
        }
    } else {
        0
    };
    let to = if li == el {
        if e.1 <= n {
            e.1 as int
        } else {
            n
        }
    } else {
        n
    };
    if from <= to {
        text.subrange(from, to)
    } else {
        Seq::empty()
    }
}

/// The text of the first `j` covered lines, newline-joined.
pub open spec fn extract_upto(
    lines: Seq<Seq<SpecRun>>,
    s: BufPos,
    e: BufPos,
    el: int,
    j: int,
) -> Seq<char>
    decreases j,
{
    if j <= 0 {
        Seq::empty()
    } else {
        let li = s.0 + j - 1;
        extract_upto(lines, s, e, el, j - 1) + extract_piece(lines, s, e, el, li) + (if li < el {
            seq!['\n']
        } else {
            Seq::<char>::empty()
        })
    }
}

/// The full text of a normalized selection over the given lines.
pub open spec fn extract_text(lines: Seq<Seq<SpecRun>>, s: BufPos, e: BufPos) -> Seq<char> {
    let el = if e.0 < lines.len() - 1 {
        e.0 as int
    } else {
        lines.len() - 1
    };
    extract_upto(lines, s, e, el, el - s.0 + 1)
}

/// The terminal tab's interaction state: the scrollback it reads, the
/// scroll position, the selection, and what the last render recorded for
/// mouse hit-testing.
#[derive(Debug)]
pub struct TerminalTab {
    /// The session's output lines.
    pub buffer: ScrollbackBuffer,
    /// How many rows the view is scrolled up from the bottom.
    pub scroll_offset: usize,
    /// Mouse selection: anchor and cursor, in buffer coordinates.
    pub selection: Option<(BufPos, BufPos)>,
    /// First buffer line shown at the last render.
    pub last_render_start: usize,
    /// The inner viewport rectangle of the last render.
    pub last_inner: Rect,
    /// One entry per visible screen row: which line it shows and at which
    /// character offset the row begins.
    pub last_visual_row_map: Vec<VisualRow>,
}

/// Where a screen coordinate lands in the buffer, resolved through the
/// last render's visual row map. Coordinates outside the viewport, rows
/// below the rendered output, and stale map entries resolve to nothing.
pub open spec fn resolve_spec(t: &TerminalTab, col: u16, row: u16) -> Option<BufPos> {
    let inner = t.last_inner;
    if row < inner.y || row as int >= inner.y + inner.height || col < inner.x {
        Option::None
    } else {
        let sr = row - inner.y;
        let sc = (col - inner.x) as int;
        if sr as int >= t.last_visual_row_map@.len() {
            Option::None
        } else {
            let entry = t.last_visual_row_map@[sr as int];
            if entry.line >= t.buffer.lines@.len() {
                Option::None
            } else {
                let n = line_text(t.buffer.lines.deep_view()[entry.line as int]).len() as int;
                if entry.start > n {
                    Option::None
                } else {
                    let off = if entry.start + sc <= n {
                        (entry.start + sc) as int
                    } else {
                        n
                    };
                    Option::Some((entry.line, off as usize))
                }
            }
        }
    }
}

/// The selection left behind by a press at a resolved position.
pub open spec fn sel_after_press(resolved: Option<BufPos>) -> Option<(BufPos, BufPos)> {
    match resolved {
        Option::Some(p) => Option::Some((p, p)),
        Option::None => Option::None,
    }
}

/// The selection left behind by a release: a click that never moved leaves
/// no selection.
pub open spec fn sel_after_release(sel: Option<(BufPos, BufPos)>) -> Option<(BufPos, BufPos)> {
    match sel {
        Option::Some((a, b)) => {
            if a == b {
                Option::None
            } else {
                Option::Some((a, b))
            }
        },
        Option::None => Option::None,
    }
}

/// A press followed by a release with no drag in between always ends with
/// no active selection, wherever the press landed.
pub proof fn lemma_press_release_clears(resolved: Option<BufPos>)
    ensures
        (sel_after_release(sel_after_press(resolved)) is None),
{
}

/// Selecting a single-line buffer from the line's start to its full length
/// and extracting returns exactly that line's plain text.
pub proof fn lemma_full_line_extraction(line: Seq<SpecRun>, e1: usize)
    requires
        e1 >= line_text(line).len(),
    ensures
        extract_text(seq![line], (0usize, 0usize), (0usize, e1)) == line_text(line),
{
    let lines = seq![line];
    let s: BufPos = (0usize, 0usize);
    let e: BufPos = (0usize, e1);
    assert(lines.len() == 1);
    let el: int = 0;
    assert(extract_upto(lines, s, e, el, 1) =~= extract_upto(lines, s, e, el, 0)
        + extract_piece(lines, s, e, el, 0) + Seq::<char>::empty());
    assert(extract_piece(lines, s, e, el, 0) =~= line_text(line));
}

impl TerminalTab {
    /// A fresh tab over an empty scrollback.
    pub fn new() -> (t: TerminalTab)
        ensures
            t.buffer.wf(),
            t.buffer.lines@.len() == 0,
            (t.selection is None),
            t.scroll_offset == 0,
    {
        TerminalTab {
            buffer: ScrollbackBuffer::new(),
            scroll_offset: 0,
            selection: Option::None,
            last_render_start: 0,
            last_inner: Rect::zero(),
            last_visual_row_map: Vec::new(),
        }
    }

    /// The current number of buffered lines.
    pub fn line_count(&self) -> (n: usize)
        ensures
            n == self.buffer.lines@.len(),
    {
        self.buffer.line_count()
    }

    /// All lines appended since a previously recorded line count.
    pub fn capture_since(&self, from_line: usize) -> (out: String)
        ensures
            out@ == crate::buffer::lines_text(
                self.buffer.lines.deep_view().skip(
                    if from_line <= self.buffer.lines@.len() {
                        from_line as int
                    } else {
                        self.buffer.lines@.len() as int
                    },
                ),
            ),
    {
        self.buffer.capture_since(from_line)
    }

    /// The plain text of the last `last_n` lines.
    pub fn visible_text(&self, last_n: usize) -> (out: String)
        ensures
            out@ == crate::buffer::lines_text(
                self.buffer.lines.deep_view().skip(
                    if last_n <= self.buffer.lines@.len() {
                        self.buffer.lines@.len() - last_n
                    } else {
                        0
                    },
                ),
            ),
    {
        self.buffer.visible_text(last_n)
    }

    /// Scroll up one step, towards older lines.
    pub fn scroll_up(&mut self)
        ensures
            *final(self) == (TerminalTab {
                scroll_offset: if old(self).scroll_offset + SCROLL_STEP <= usize::MAX {
                    (old(self).scroll_offset + SCROLL_STEP) as usize
                } else {
                    usize::MAX
                },
                ..*old(self)
            }),
    {
        if self.scroll_offset <= usize::MAX - SCROLL_STEP {
            self.scroll_offset = self.scroll_offset + SCROLL_STEP;
        } else {
            self.scroll_offset = usize::MAX;
        }
    }

    /// Scroll down one step, towards newer lines.
    pub fn scroll_down(&mut self)
        ensures
            *final(self) == (TerminalTab {
                scroll_offset: if old(self).scroll_offset >= SCROLL_STEP {
                    (old(self).scroll_offset - SCROLL_STEP) as usize
                } else {
                    0
                },
                ..*old(self)
            }),
    {
        if self.scroll_offset >= SCROLL_STEP {
            self.scroll_offset = self.scroll_offset - SCROLL_STEP;
        } else {
            self.scroll_offset = 0;
        }
    }

    /// Record the viewport of the current render pass; reports whether the
    /// geometry changed, so the caller can propagate a resize.
    pub fn set_viewport(&mut self, inner: Rect) -> (changed: bool)
        ensures
            *final(self) == (TerminalTab { last_inner: inner, ..*old(self) }),
            changed == (old(self).last_inner != inner),
    {
        let changed = !(self.last_inner == inner);
        self.last_inner = inner;
        changed
    }

    /// Resolve a screen coordinate to a buffer position through the visual
    /// row map of the last render.
    pub fn screen_to_buf(&self, col: u16, row: u16) -> (r: Option<BufPos>)
        ensures
            r == resolve_spec(self, col, row),
    {
        let inner = self.last_inner;
        if row < inner.y || row as u32 >= inner.y as u32 + inner.height as u32 || col < inner.x {
            return Option::None;
        }
        let sr = (row - inner.y) as usize;
        let sc = (col - inner.x) as usize;
        if sr >= self.last_visual_row_map.len() {
            return Option::None;
        }
        let entry = VisualRow {
            line: self.last_visual_row_map[sr].line,
            start: self.last_visual_row_map[sr].start,
        };
        if entry.line >= self.buffer.lines.len() {
            return Option::None;
        }
        let text = crate::buffer::plain_text(&self.buffer.lines[entry.line]);
        let n = text.as_str().unicode_len();
        if entry.start > n {
            return Option::None;
        }
        let off = if sc <= n - entry.start {
            entry.start + sc
        } else {
            n
        };
        Option::Some((entry.line, off))
    }

    /// The selection with anchor and cursor in reading order.
    pub fn selection_range(&self) -> (r: Option<(BufPos, BufPos)>)
        ensures
            r == norm_range(self.selection),
    {
        match self.selection {
            Option::None => Option::None,
            Option::Some((a, b)) => {
                if a.0 < b.0 || (a.0 == b.0 && a.1 <= b.1) {
                    Option::Some((a, b))
                } else {
                    Option::Some((b, a))
                }
            },
        }
    }

    /// Begin a selection: the pressed position becomes both anchor and
    /// cursor. A press outside the rendered output clears the selection.
    pub fn press(&mut self, col: u16, row: u16)
        ensures
            *final(self) == (TerminalTab {
                selection: sel_after_press(resolve_spec(old(self), col, row)),
                ..*old(self)
            }),
    {
        let resolved = self.screen_to_buf(col, row);
        self.selection = match resolved {
            Option::Some(p) => Option::Some((p, p)),
            Option::None => Option::None,
        };
    }

    /// Extend the selection: the anchor stays, the cursor follows the drag.
    /// A drag with no selection under way, or outside the viewport, changes
    /// nothing.
    pub fn drag_to(&mut self, col: u16, row: u16)
        ensures
            *final(self) == (TerminalTab {
                selection: match old(self).selection {
                    Option::Some((anchor, cur)) => match resolve_spec(old(self), col, row) {
                        Option::Some(p) => Option::Some((anchor, p)),
                        Option::None => Option::Some((anchor, cur)),
                    },
                    Option::None => Option::None,
                },
                ..*old(self)
            }),
    {
        match self.selection {
            Option::Some((anchor, _)) => {
                match self.screen_to_buf(col, row) {
                    Option::Some(p) => {
                        self.selection = Option::Some((anchor, p));
                    },
                    Option::None => {},
                }
            },
            Option::None => {},
        }
    }

    /// End a selection gesture: a bare click — anchor equal to cursor —
    /// leaves no selection.
    pub fn release(&mut self)
        ensures
            *final(self) == (TerminalTab {
                selection: sel_after_release(old(self).selection),
                ..*old(self)
            }),
    {
        match self.selection {
            Option::Some((a, b)) => {
                if a.0 == b.0 && a.1 == b.1 {
                    self.selection = Option::None;
                }
            },
            Option::None => {},
        }
    }

    /// The plain text the current selection covers, or nothing when there
    /// is no selection, it starts past the end, or it covers no text.
    pub fn selected_text(&self) -> (r: Option<String>)
        ensures
            match norm_range(self.selection) {
                Option::None => r is None,
                Option::Some((s, e)) => {
                    if s.0 >= self.buffer.lines@.len() {
                        r is None
                    } else {
                        let ext = extract_text(self.buffer.lines.deep_view(), s, e);
                        if ext.len() == 0 {
                            r is None
                        } else {
                            r is Some && r->0@ == ext
                        }
                    }
                },
            },
    {
        let range = self.selection_range();
        let (s, e) = match range {
            Option::Some(p) => p,
            Option::None => {
                return Option::None;
            },
        };
        let len = self.buffer.lines.len();
        if s.0 >= len {
            return Option::None;
        }
        let el = if e.0 < len - 1 {
            e.0
        } else {
            len - 1
        };
        let ghost lines = self.buffer.lines.deep_view();
        let mut out = String::new();
        let mut li = s.0;
        proof {
            assert(extract_upto(lines, s, e, el as int, 0) =~= Seq::<char>::empty());
        }
        while li <= el
            invariant
                s.0 <= li <= el + 1,
                len == self.buffer.lines@.len(),
                el < len,
                s.0 <= el,
                lines == self.buffer.lines.deep_view(),
                e.0 == el || el == self.buffer.lines@.len() - 1,
                out@ == extract_upto(lines, s, e, el as int, li - s.0),
            decreases el + 1 - li,
        {
            let text = crate::buffer::plain_text(&self.buffer.lines[li]);
            let n = text.as_str().unicode_len();
            let from = if li == s.0 {
                if s.1 <= n {
                    s.1
                } else {
                    n
                }
            } else {
                0
            };
            let to = if li == el {
                if e.1 <= n {
                    e.1
                } else {
                    n
                }
            } else {
                n
            };
            if from <= to {
                let piece = text.as_str().substring_char(from, to);
                out.append(piece);
            }
            proof {
                assert(extract_piece(lines, s, e, el as int, li as int) == (if from <= to {
                    line_text(lines[li as int]).subrange(from as int, to as int)
                } else {
                    Seq::<char>::empty()
                }));
                if from > to {
                    assert(out@ =~= extract_upto(lines, s, e, el as int, li - s.0)
                        + extract_piece(lines, s, e, el as int, li as int));
                }
            }
            if li < el {
                out.push('\n');
                proof {
                    assert(out@ =~= extract_upto(lines, s, e, el as int, li - s.0)
                        + extract_piece(lines, s, e, el as int, li as int) + seq!['\n']);
                    assert(out@ =~= extract_upto(lines, s, e, el as int, li + 1 - s.0));
                }
            } else {
                proof {
                    assert(out@ =~= extract_upto(lines, s, e, el as int, li - s.0)
                        + extract_piece(lines, s, e, el as int, li as int)
                        + Seq::<char>::empty());
                    assert(out@ =~= extract_upto(lines, s, e, el as int, li + 1 - s.0));
                }
            }
            li = li + 1;
        }
        if out.as_str().is_empty() {
            Option::None
        } else {
            Option::Some(out)
        }
    }

    /// Drop the local scrollback and selection and reset the scroll; the
    /// caller resets the pump's carried state and asks the remote side to
    /// redraw.
    pub fn clear_local(&mut self)
        requires
            old(self).buffer.wf(),
        ensures
            final(self).buffer.wf(),
            final(self).buffer.lines@.len() == 0,
            !final(self).buffer.has_partial,
            final(self).buffer.max_lines == old(self).buffer.max_lines,
            final(self).scroll_offset == 0,
            (final(self).selection is None),
            final(self).last_inner == old(self).last_inner,
    {
        self.buffer.clear();
        self.scroll_offset = 0;
        self.selection = Option::None;
    }
}

/// The style painted over selected text.
pub open spec fn sel_style() -> Style {
    Style {
        fg: Option::Some(crate::style::Color::Black),
        bg: Option::Some(crate::style::Color::White),
        attrs: crate::style::AttrSet::spec_empty(),
    }
}

/// Whether character `q` of line `li` falls inside the normalized
/// selection.
pub open spec fn char_selected(li: int, q: int, sel: Option<(BufPos, BufPos)>) -> bool {
    match sel {
        Option::Some((s, e)) => {
            &&& s.0 <= li <= e.0
            &&& (li > s.0 || q >= s.1)
            &&& (li < e.0 || q < e.1)
        },
        Option::None => false,
    }
}

/// A line's styled characters with the selection's characters repainted in
/// the selection style.
pub open spec fn override_styles(
    flat: Seq<(char, Style)>,
    li: int,
    sel: Option<(BufPos, BufPos)>,
) -> Seq<(char, Style)> {
    Seq::new(
        flat.len(),
        |q: int|
            if char_selected(li, q, sel) {
                (flat[q].0, sel_style())
            } else {
                flat[q]
            },
    )
}

/// Repaint the selected characters of one flattened line.
fn apply_selection(
    flat: &Vec<(char, Style)>,
    li: usize,
    sel: Option<(BufPos, BufPos)>,
) -> (out: Vec<(char, Style)>)
    ensures
        out@ == override_styles(flat@, li as int, sel),
{
    let highlight = Style {
        fg: Option::Some(crate::style::Color::Black),
        bg: Option::Some(crate::style::Color::White),
        attrs: crate::style::AttrSet::empty(),
    };
    let mut out: Vec<(char, Style)> = Vec::new();
    let mut q: usize = 0;
    while q < flat.len()
        invariant
            0 <= q <= flat@.len(),
            highlight == sel_style(),
            out@ =~= override_styles(flat@, li as int, sel).take(q as int),
        decreases flat@.len() - q,
    {
        let inside = match sel {
            Option::Some((s, e)) => {
                let (c, r) = (li, q);
                (s.0 < c || (s.0 == c && r >= s.1)) && (c < e.0 || (c == e.0 && r < e.1))
                    && s.0 <= c && c <= e.0
            },
            Option::None => false,
        };
        proof {
            assert(inside == char_selected(li as int, q as int, sel));
        }
        let (ch, st) = flat[q];
        if inside {
            out.push((ch, highlight));
        } else {
            out.push((ch, st));
        }
        proof {
            assert(out@ =~= override_styles(flat@, li as int, sel).take(q + 1));
        }
        q = q + 1;
    }
    proof {
        assert(override_styles(flat@, li as int, sel).take(q as int) =~= override_styles(
            flat@,
            li as int,
            sel,
        ));
    }
    out
}

/// One screen row ready to draw: the buffer line it shows, the character
/// offset at which it starts, and its runs with the selection painted in.
#[derive(Debug)]
pub struct RenderRow {
    pub line: usize,
    pub start: usize,
    pub runs: Vec<StyledRun>,
}

/// The run list a render row must carry: the wrapped slice of the line's
/// selection-painted characters, regrouped into runs.
pub open spec fn render_chunk_spec(
    lines: Seq<Seq<SpecRun>>,
    li: int,
    st: int,
    w: int,
    sel: Option<(BufPos, BufPos)>,
) -> Seq<SpecRun> {
    let flat = override_styles(crate::wrap::styled_chars(lines[li]), li, sel);
    let n = flat.len() as int;
    crate::wrap::group(
        flat.subrange(
            st,
            if st + w <= n {
                st + w
            } else {
                n
            },
        ),
    )
}

impl TerminalTab {
    /// Build the screen rows for one render pass: clamp the scroll, walk
    /// the lines in view, wrap each to the width, paint the selection, and
    /// record the visual row map for mouse hit-testing. Rows are filled
    /// from the first line in view until the height is reached.
    pub fn build_rows(&mut self, width: u16, height: u16) -> (rows: Vec<RenderRow>)
        ensures
            ({
                let total = old(self).buffer.lines@.len() as int;
                let h = height as int;
                let w = (if width == 0 {
                    1int
                } else {
                    width as int
                });
                let max_scroll = if total >= h {
                    total - h
                } else {
                    0
                };
                let start = max_scroll - final(self).scroll_offset;
                let sel = norm_range(old(self).selection);
                let lines = old(self).buffer.lines.deep_view();
                &&& final(self).buffer == old(self).buffer
                &&& final(self).selection == old(self).selection
                &&& final(self).last_inner == old(self).last_inner
                &&& final(self).scroll_offset == (if old(self).scroll_offset <= max_scroll {
                    old(self).scroll_offset as int
                } else {
                    max_scroll
                })
                &&& final(self).last_render_start == start
                &&& rows@.len() == final(self).last_visual_row_map@.len()
                &&& rows@.len() <= h
                &&& (forall|k: int|
                    0 <= k < rows@.len() ==> {
                        let vr = final(self).last_visual_row_map@[k];
                        let rr = #[trigger] rows@[k];
                        &&& vr.line == rr.line
                        &&& vr.start == rr.start
                        &&& start <= rr.line < total
                        &&& rr.runs.deep_view() == render_chunk_spec(
                            lines,
                            rr.line as int,
                            rr.start as int,
                            w,
                            sel,
                        )
                    })
                &&& (rows@.len() > 0 ==> rows@[0].line == start && rows@[0].start == 0)
                &&& (forall|k: int|
                    0 <= k < rows@.len() - 1 ==> ((#[trigger] rows@[k + 1]).line == rows@[k].line
                        && rows@[k + 1].start == rows@[k].start + w) || (rows@[k + 1].line
                        == rows@[k].line + 1 && rows@[k + 1].start == 0))
            }),
    {
        let w: usize = if width == 0 {
            1
        } else {
            width as usize
        };
        let h: usize = height as usize;
        let total = self.buffer.lines.len();
        let max_scroll = if total >= h {
            total - h
        } else {
            0
        };
        if self.scroll_offset > max_scroll {
            self.scroll_offset = max_scroll;
        }
        let start = max_scroll - self.scroll_offset;
        self.last_render_start = start;
        let sel = self.selection_range();
        let ghost lines = self.buffer.lines.deep_view();
        let mut rows: Vec<RenderRow> = Vec::new();
        let mut map: Vec<VisualRow> = Vec::new();
        let mut li = start;
        while li < total && rows.len() < h
            invariant
                start <= li <= total,
                total == self.buffer.lines@.len(),
                lines == self.buffer.lines.deep_view(),
                sel == norm_range(self.selection),
                w >= 1,
                rows@.len() == map@.len() <= h,
                (rows@.len() > 0 ==> rows@[0].line == start && rows@[0].start == 0),
                (rows@.len() > 0 ==> rows@[rows@.len() - 1].line == li - 1),
                (rows@.len() == 0 ==> li == start),
                forall|k: int|
                    0 <= k < rows@.len() ==> {
                        let vr = map@[k];
                        let rr = #[trigger] rows@[k];
                        &&& vr.line == rr.line
                        &&& vr.start == rr.start
                        &&& start <= rr.line < total
                        &&& rr.runs.deep_view() == render_chunk_spec(
                            lines,
                            rr.line as int,
                            rr.start as int,
                            w as int,
                            sel,
                        )
                    },
                forall|k: int|
                    0 <= k < rows@.len() - 1 ==> ((#[trigger] rows@[k + 1]).line
                        == rows@[k].line && rows@[k + 1].start == rows@[k].start + w) || (rows@[
                        k + 1
                    ].line == rows@[k].line + 1 && rows@[k + 1].start == 0),
            decreases total - li,
        {
            let flat = crate::wrap::flatten_line(&self.buffer.lines[li]);
            let painted = apply_selection(&flat, li, sel);
            let lrows = crate::wrap::wrap_flat(&painted, w);
            let mut k: usize = 0;
            while k < lrows.len() && rows.len() < h
                invariant
                    0 <= k <= lrows@.len(),
                    start <= li < total,
                    total == self.buffer.lines@.len(),
                    lines == self.buffer.lines.deep_view(),
                    sel == norm_range(self.selection),
                    w >= 1,
                    painted@ == override_styles(
                        crate::wrap::styled_chars(lines[li as int]),
                        li as int,
                        sel,
                    ),
                    ({
                        let n = painted@.len() as int;
                        &&& lrows@.len() == (if n == 0 {
                            1int
                        } else {
                            (n + w - 1) / (w as int)
                        })
                        &&& forall|j: int|
                            0 <= j < lrows@.len() ==> (#[trigger] lrows@[j]).start == j * w
                                && lrows@[j].runs.deep_view() == crate::wrap::group(
                                painted@.subrange(
                                    j * w,
                                    if (j + 1) * w <= n {
                                        (j + 1) * w
                                    } else {
                                        n
                                    },
                                ),
                            )
                    }),
                    rows@.len() == map@.len() <= h,
                    (rows@.len() > 0 ==> rows@[0].line == start && rows@[0].start == 0),
                    (k == 0 ==> rows@.len() < h),
                    (k == 0 ==> (rows@.len() > 0 ==> rows@[rows@.len() - 1].line == li - 1)),
                    (k == 0 ==> (rows@.len() == 0 ==> li == start)),
                    (k > 0 ==> rows@.len() > 0 && rows@[rows@.len() - 1].line == li && rows@[
                        rows@.len() - 1
                    ].start == (k - 1) * w),
                    forall|m: int|
                        0 <= m < rows@.len() ==> {
                            let vr = map@[m];
                            let rr = #[trigger] rows@[m];
                            &&& vr.line == rr.line
                            &&& vr.start == rr.start
                            &&& start <= rr.line < total
                            &&& rr.runs.deep_view() == render_chunk_spec(
                                lines,
                                rr.line as int,
                                rr.start as int,
                                w as int,
                                sel,
                            )
                        },
                    forall|m: int|
                        0 <= m < rows@.len() - 1 ==> ((#[trigger] rows@[m + 1]).line
                            == rows@[m].line && rows@[m + 1].start == rows@[m].start + w) || (
                        rows@[m + 1].line == rows@[m].line + 1 && rows@[m + 1].start == 0),
                decreases lrows@.len() - k,
            {
                let st = lrows[k].start;
                let runs = crate::wrap::clone_runs(&lrows[k].runs);
                let ghost rdv = runs.deep_view();
                proof {
                    assert(lrows@[k as int].start == k * w);
                    if k > 0 {
                        assert(k * w == (k - 1) * w + w) by (nonlinear_arith);
                    } else {
                        assert(k * w == 0) by (nonlinear_arith)
                            requires
                                k == 0,
                        ;
                    }
                    assert(rdv == render_chunk_spec(lines, li as int, st as int, w as int, sel))
                        by {
                        assert(lrows@[k as int].runs.deep_view() == crate::wrap::group(
                            painted@.subrange(
                                k * w,
                                if (k + 1) * w <= painted@.len() {
                                    (k + 1) * w
                                } else {
                                    painted@.len() as int
                                },
                            ),
                        ));
                        assert((k + 1) * w == k * w + w) by (nonlinear_arith);
                    }
                }
                rows.push(RenderRow { line: li, start: st, runs });
                map.push(VisualRow { line: li, start: st });
                k = k + 1;
            }
            proof {
                let n = painted@.len() as int;
                if n > 0 {
                    assert((n + w - 1) / (w as int) >= 1) by (nonlinear_arith)
                        requires
                            n >= 1,
                            w >= 1,
                    ;
                }
                assert(lrows@.len() >= 1);
                assert(k >= 1);
            }
            li = li + 1;
        }
        self.last_visual_row_map = map;
        rows
    }
}

/// The control byte a Ctrl-chorded letter sends: the letter's position in
/// the alphabet.
pub open spec fn ctrl_byte(ch: char) -> u8 {
    let u = ch as u32;
    if 0x61 <= u && u <= 0x7a {
        (u - 0x60) as u8
    } else {
        (u - 0x40) as u8
    }
}

/// The bytes a key press forwards to the session when no app-level binding
/// claims it: characters as UTF-8 (or a control byte under Ctrl), and the
/// editing and arrow keys as their control or escape sequences. Keys with
/// no terminal meaning send nothing.
pub open spec fn key_passthrough_bytes(code: KeyCode, ctrl: bool) -> Seq<u8> {
    match code {
        KeyCode::Char(ch) => {
            if ctrl && ((0x41 <= ch as u32 && ch as u32 <= 0x5a) || (0x61 <= ch as u32 && ch
                as u32 <= 0x7a)) {
                seq![ctrl_byte(ch)]
            } else {
                utf8_bytes(ch)
            }
        },
        KeyCode::Enter => seq![13u8],
        KeyCode::Backspace => seq![0x7fu8],
        KeyCode::Tab => seq![9u8],
        KeyCode::Esc => seq![0x1bu8],
        KeyCode::Left => seq![0x1bu8, 0x5bu8, 0x44u8],
        KeyCode::Right => seq![0x1bu8, 0x5bu8, 0x43u8],
        KeyCode::Up => seq![0x1bu8, 0x5bu8, 0x41u8],
        KeyCode::Down => seq![0x1bu8, 0x5bu8, 0x42u8],
        _ => Seq::empty(),
    }
}

/// The bytes a key press forwards to the session.
pub fn key_bytes(code: KeyCode, ctrl: bool) -> (bytes: Vec<u8>)
    ensures
        bytes@ == key_passthrough_bytes(code, ctrl),
{
    let mut bytes: Vec<u8> = Vec::new();
    match code {
        KeyCode::Char(ch) => {
            let u = ch as u32;
            if ctrl && ((0x41 <= u && u <= 0x5a) || (0x61 <= u && u <= 0x7a)) {
                if 0x61 <= u && u <= 0x7a {
                    bytes.push((u - 0x60) as u8);
                } else {
                    bytes.push((u - 0x40) as u8);
                }
                proof {
                    assert(bytes@ =~= seq![ctrl_byte(ch)]);
                }
            } else {
                return encode_utf8(ch);
            }
        },
        KeyCode::Enter => {
            bytes.push(13u8);
            proof {
                assert(bytes@ =~= seq![13u8]);
            }
        },
        KeyCode::Backspace => {
            bytes.push(0x7fu8);
            proof {
                assert(bytes@ =~= seq![0x7fu8]);
            }
        },
        KeyCode::Tab => {
            bytes.push(9u8);
            proof {
                assert(bytes@ =~= seq![9u8]);
            }
        },
        KeyCode::Esc => {
            bytes.push(0x1bu8);
            proof {
                assert(bytes@ =~= seq![0x1bu8]);
            }
        },
        KeyCode::Left => {
            bytes.push(0x1bu8);
            bytes.push(0x5bu8);
            bytes.push(0x44u8);
            proof {
                assert(bytes@ =~= seq![0x1bu8, 0x5bu8, 0x44u8]);
            }
        },
        KeyCode::Right => {
            bytes.push(0x1bu8);
            bytes.push(0x5bu8);
            bytes.push(0x43u8);
            proof {
                assert(bytes@ =~= seq![0x1bu8, 0x5bu8, 0x43u8]);
            }
        },
        KeyCode::Up => {
            bytes.push(0x1bu8);
            bytes.push(0x5bu8);
            bytes.push(0x41u8);
            proof {
                assert(bytes@ =~= seq![0x1bu8, 0x5bu8, 0x41u8]);
            }
        },
        KeyCode::Down => {
            bytes.push(0x1bu8);
            bytes.push(0x5bu8);
            bytes.push(0x42u8);
            proof {
                assert(bytes@ =~= seq![0x1bu8, 0x5bu8, 0x42u8]);
            }
        },
        _ => {
            proof {
                assert(bytes@ =~= Seq::<u8>::empty());
            }
        },
    }
    bytes
}

/// What Ctrl+C must produce: with a selection covering text, that text
/// goes to the clipboard; with none, an interrupt byte goes to the
/// session.
pub open spec fn copy_effect_ok(t: TerminalTab, effect: TermEffect) -> bool {
    match norm_range(t.selection) {
        Option::None => effect matches TermEffect::Write(b) && b@ == seq![3u8],
        Option::Some((s, e)) => {
            if s.0 >= t.buffer.lines@.len() {
                effect is Idle
            } else {
                let ext = extract_text(t.buffer.lines.deep_view(), s, e);
                if ext.len() == 0 {
                    effect is Idle
                } else {
                    effect matches TermEffect::Copy(txt) && txt@ == ext
                }
            }
        },
    }
}

/// What Ctrl+L must produce: a form feed for the remote side, and a reset
/// of the pump's carried state.
pub open spec fn clear_effect_ok(effect: TermEffect) -> bool {
    effect matches TermEffect::WriteAndClear(b) && b@ == seq![0x0cu8]
}

/// What a forwarded key must produce: its bytes, or nothing when the key
/// has no terminal meaning.
pub open spec fn write_effect_ok(bytes: Seq<u8>, effect: TermEffect) -> bool {
    if bytes.len() > 0 {
        effect matches TermEffect::Write(b) && b@ == bytes
    } else {
        effect is Idle
    }
}

impl TerminalTab {
    /// Handle one input event.
    ///
    /// Copy and paste share their binding with the session: Ctrl+C copies
    /// when a selection is active and only then — otherwise the same key
    /// sends an interrupt byte; this conditional is part of the design.
    /// Everything the session should see is returned as an effect; the
    /// caller performs the I/O.
    pub fn handle_event(&mut self, event: &Event) -> (r: (Action, TermEffect))
        requires
            old(self).buffer.wf(),
        ensures
            final(self).buffer.wf(),
            ({
                let (action, effect) = r;
                match *event {
                    Event::Key(code, mods) => {
                        let quit_key = code == KeyCode::Char('q') && mods.ctrl;
                        let disc_key = code == KeyCode::Char('d') && mods.ctrl;
                        let copy_key = code == KeyCode::Char('c') && mods.ctrl && !mods.shift;
                        let paste_key = code == KeyCode::Char('v') && mods.ctrl;
                        let clear_key = code == KeyCode::Char('l') && mods.ctrl;
                        let up_key = code == KeyCode::Up && mods.ctrl;
                        let down_key = code == KeyCode::Down && mods.ctrl;
                        let fwd = key_passthrough_bytes(code, mods.ctrl);
                        &&& (disc_key ==> (action is Disconnect) && *final(self) == *old(self))
                        &&& (quit_key ==> (action is Quit) && *final(self) == *old(self))
                        &&& (copy_key ==> (action is Noop) && (final(self).selection is None)
                            && copy_effect_ok(*old(self), effect))
                        &&& (paste_key ==> (effect is Paste) && *final(self) == *old(self))
                        &&& (clear_key ==> clear_effect_ok(effect)
                            && final(self).buffer.lines@.len() == 0
                            && final(self).scroll_offset == 0
                            && (final(self).selection is None))
                        &&& (up_key ==> final(self).scroll_offset >= old(self).scroll_offset)
                        &&& (down_key ==> final(self).scroll_offset <= old(self).scroll_offset)
                        &&& (!is_terminal_hotkey(code, mods) ==> (action is Noop)
                            && *final(self) == *old(self) && write_effect_ok(fwd, effect))
                    },
                    Event::Mouse(me) => {
                        let pressed = (TerminalTab {
                            selection: sel_after_press(resolve_spec(old(self), me.column, me.row)),
                            ..*old(self)
                        });
                        let released = (TerminalTab {
                            selection: sel_after_release(old(self).selection),
                            ..*old(self)
                        });
                        let dragged = (TerminalTab {
                            selection: match old(self).selection {
                                Option::Some((anchor, cur)) => match resolve_spec(
                                    old(self),
                                    me.column,
                                    me.row,
                                ) {
                                    Option::Some(p) => Option::Some((anchor, p)),
                                    Option::None => Option::Some((anchor, cur)),
                                },
                                Option::None => Option::None,
                            },
                            ..*old(self)
                        });
                        &&& (action is Noop)
                        &&& (effect is Idle)
                        &&& (me.kind == MouseKind::LeftDown ==> *final(self) == pressed)
                        &&& (me.kind == MouseKind::LeftDrag ==> *final(self) == dragged)
                        &&& (me.kind == MouseKind::LeftUp ==> *final(self) == released)
                        &&& (me.kind == MouseKind::ScrollUp ==> final(self).scroll_offset >= old(self).scroll_offset)
                        &&& (me.kind == MouseKind::ScrollDown ==> final(self).scroll_offset <= old(self).scroll_offset)
                        &&& (me.kind == MouseKind::Other ==> *final(self) == *old(self))
                    },
                    Event::Other => (action is Noop) && (effect is Idle) && *final(self) == *old(self),
                }
            }),
    {
        match *event {
            Event::Key(code, mods) => {
                let ctrl = mods.ctrl;
                let shift = mods.shift;
                if ctrl {
                    match code {
                        KeyCode::Char('d') => {
                            return (Action::Disconnect, TermEffect::Idle);
                        },
                        KeyCode::Char('q') => {
                            return (Action::Quit, TermEffect::Idle);
                        },
                        KeyCode::Char('c') => {
                            if !shift {
                                let effect = match self.selection {
                                    Option::Some(_) => {
                                        let text = self.selected_text();
                                        match text {
                                            Option::Some(t) => TermEffect::Copy(t),
                                            Option::None => TermEffect::Idle,
                                        }
                                    },
                                    Option::None => {
                                        let mut b: Vec<u8> = Vec::new();
                                        b.push(3u8);
                                        proof {
                                            assert(b@ =~= seq![3u8]);
                                        }
                                        TermEffect::Write(b)
                                    },
                                };
                                self.selection = Option::None;
                                return (Action::Noop, effect);
                            }
                        },
                        KeyCode::Char('v') => {
                            return (Action::Noop, TermEffect::Paste);
                        },
                        KeyCode::Char('l') => {
                            self.clear_local();
                            let mut b: Vec<u8> = Vec::new();
                            b.push(0x0cu8);
                            proof {
                                assert(b@ =~= seq![0x0cu8]);
                            }
                            return (Action::Noop, TermEffect::WriteAndClear(b));
                        },
                        KeyCode::Up => {
                            self.scroll_up();
                            return (Action::Noop, TermEffect::Idle);
                        },
                        KeyCode::Down => {
                            self.scroll_down();
                            return (Action::Noop, TermEffect::Idle);
                        },
                        _ => {},
                    }
                }
                let bytes = key_bytes(code, ctrl);
                if bytes.len() > 0 {
                    (Action::Noop, TermEffect::Write(bytes))
                } else {
                    (Action::Noop, TermEffect::Idle)
                }
            },
            Event::Mouse(me) => {
                match me.kind {
                    MouseKind::LeftDown => {
                        self.press(me.column, me.row);
                    },
                    MouseKind::LeftDrag => {
                        self.drag_to(me.column, me.row);
                    },
                    MouseKind::LeftUp => {
                        self.release();
                    },
                    MouseKind::ScrollUp => {
                        self.scroll_up();
                    },
                    MouseKind::ScrollDown => {
                        self.scroll_down();
                    },
                    MouseKind::Other => {},
                }
                (Action::Noop, TermEffect::Idle)
            },
            Event::Other => (Action::Noop, TermEffect::Idle),
        }
    }
}

/// The key chords the terminal tab itself answers, never forwarding them.
pub open spec fn is_terminal_hotkey(code: KeyCode, mods: KeyModifiers) -> bool {
    mods.ctrl && (code == KeyCode::Char('d') || code == KeyCode::Char('q') || (code
        == KeyCode::Char('c') && !mods.shift) || code == KeyCode::Char('v') || code
        == KeyCode::Char('l') || code == KeyCode::Up || code == KeyCode::Down)
}

} // verus!
