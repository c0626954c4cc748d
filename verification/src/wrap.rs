//! The visual row mapper: splitting a styled line into rows of at most a
//! viewport's width, counted in Unicode scalar values.
//!
//! Each wrapped row records the character offset into the logical line at
//! which it begins, so screen coordinates can be mapped back into the line.
//! An empty line always yields exactly one empty row, keeping blank lines
//! visible and selectable.
use vstd::prelude::*;

use crate::ansi::{SpecRun, StyledRun};
use crate::buffer::line_text;
use crate::style::Style;
use crate::text::str_to_chars;

verus! {

/// One character of a line paired with its style.
pub open spec fn run_chars(r: SpecRun) -> Seq<(char, Style)> {
    r.text.map_values(|c: char| (c, r.style))
}

/// A line flattened to its styled characters.
pub open spec fn styled_chars(runs: Seq<SpecRun>) -> Seq<(char, Style)>
    decreases runs.len(),
{
    if runs.len() == 0 {
        Seq::empty()
    } else {
        styled_chars(runs.drop_last()) + run_chars(runs.last())
    }
}

/// The flattened characters spell out the line's plain text.
pub proof fn lemma_styled_chars_text(runs: Seq<SpecRun>)
    ensures
        styled_chars(runs).map_values(|p: (char, Style)| p.0) =~= line_text(runs),
        styled_chars(runs).len() == line_text(runs).len(),
    decreases runs.len(),
{
    if runs.len() > 0 {
        lemma_styled_chars_text(runs.drop_last());
        assert(styled_chars(runs).map_values(|p: (char, Style)| p.0) =~= styled_chars(
            runs.drop_last(),
        ).map_values(|p: (char, Style)| p.0) + run_chars(runs.last()).map_values(
            |p: (char, Style)| p.0,
        ));
        assert(run_chars(runs.last()).map_values(|p: (char, Style)| p.0) =~= runs.last().text);
    }
}

/// Regrouping styled characters into runs: a character joins the last run
/// when the styles agree, else it starts a new run.
pub open spec fn append_styled(runs: Seq<SpecRun>, c: char, st: Style) -> Seq<SpecRun> {
    if runs.len() > 0 && runs.last().style == st {
        runs.update(runs.len() - 1, SpecRun { text: runs.last().text.push(c), style: st })
    } else {
        runs.push(SpecRun { text: seq![c], style: st })
    }
}

pub open spec fn group(s: Seq<(char, Style)>) -> Seq<SpecRun>
    decreases s.len(),
{
    if s.len() == 0 {
        Seq::empty()
    } else {
        append_styled(group(s.drop_last()), s.last().0, s.last().1)
    }
}

/// One visual row of a wrapped line: its styled runs and the character
/// offset into the logical line at which the row begins.
#[derive(Debug)]
pub struct WrappedRow {
    pub runs: Vec<StyledRun>,
    pub start: usize,
}

/// One entry of the visual row map: which buffer line a screen row shows,
/// and at which character offset into that line the row begins.
#[derive(Clone, Copy, Debug, PartialEq, Eq, Structural)]
pub struct VisualRow {
    pub line: usize,
    pub start: usize,
}

/// A fresh copy of a line's runs.
pub fn clone_runs(runs: &Vec<StyledRun>) -> (r: Vec<StyledRun>)
    ensures
        r.deep_view() == runs.deep_view(),
{
    let mut r: Vec<StyledRun> = Vec::new();
    let mut i: usize = 0;
    while i < runs.len()
        invariant
            0 <= i <= runs.len(),
            r.deep_view() =~= runs.deep_view().take(i as int),
        decreases runs.len() - i,
    {
        let ghost r0 = r.deep_view();
        let cloned = runs[i].clone();
        let ghost cv = cloned@;
        proof {
            assert(cv == runs.deep_view()[i as int]);
        }
        r.push(cloned);
        proof {
            assert(r.deep_view() =~= r0.push(cv));
            assert(r0.push(cv) =~= runs.deep_view().take(i + 1));
        }
        i = i + 1;
    }
    proof {
        assert(runs.deep_view().take(i as int) =~= runs.deep_view());
    }
    r
}

/// A line flattened to its styled characters.
pub fn flatten_line(runs: &Vec<StyledRun>) -> (flat: Vec<(char, Style)>)
    ensures
        flat@ == styled_chars(runs.deep_view()),
{
    let ghost dv = runs.deep_view();
    let mut flat: Vec<(char, Style)> = Vec::new();
    let mut j: usize = 0;
    proof {
        assert(dv.take(0) =~= Seq::<SpecRun>::empty());
        assert(flat@ =~= styled_chars(dv.take(0)));
    }
    while j < runs.len()
        invariant
            0 <= j <= runs.len(),
            dv == runs.deep_view(),
            flat@ == styled_chars(dv.take(j as int)),
        decreases runs.len() - j,
    {
        let chars = str_to_chars(runs[j].text.as_str());
        let style = runs[j].style;
        let ghost rc = run_chars(dv[j as int]);
        let mut k: usize = 0;
        proof {
            assert(rc.take(0) =~= Seq::<(char, Style)>::empty());
            assert(flat@ + rc.take(0) =~= flat@);
        }
        let ghost flat0 = flat@;
        while k < chars.len()
            invariant
                0 <= k <= chars.len(),
                chars@ == dv[j as int].text,
                style == dv[j as int].style,
                rc == run_chars(dv[j as int]),
                0 <= j < dv.len(),
                flat@ == flat0 + rc.take(k as int),
            decreases chars.len() - k,
        {
            flat.push((chars[k], style));
            proof {
                assert(rc[k as int] == (chars@[k as int], style));
                assert(rc.take(k + 1) =~= rc.take(k as int).push(rc[k as int]));
                assert(flat@ =~= flat0 + rc.take(k + 1));
            }
            k = k + 1;
        }
        proof {
            assert(rc.take(k as int) =~= rc);
            assert(dv.take(j + 1).drop_last() =~= dv.take(j as int));
            assert(dv.take(j + 1).last() == dv[j as int]);
            assert(flat@ =~= styled_chars(dv.take(j + 1)));
        }
        j = j + 1;
    }
    proof {
        assert(dv.take(j as int) =~= dv);
    }
    flat
}

/// Append one styled character to a row's runs, merging into the last run
/// when the styles agree.
fn push_styled_char(runs: &mut Vec<StyledRun>, c: char, st: Style)
    ensures
        final(runs).deep_view() == append_styled(old(runs).deep_view(), c, st),
{
    let n = runs.len();
    let merge = if n > 0 {
        runs[n - 1].style == st
    } else {
        false
    };
    if merge {
        match runs.pop() {
            Some(mut last) => {
                last.text.push(c);
                runs.push(last);
                proof {
                    assert(runs.deep_view() =~= append_styled(old(runs).deep_view(), c, st));
                }
            },
            None => {
                proof {
                    assert(false);
                }
            },
        }
    } else {
        let mut text = String::new();
        text.push(c);
        runs.push(StyledRun { text, style: st });
        proof {
            assert(text@ =~= seq![c]);
            assert(runs.deep_view() =~= append_styled(old(runs).deep_view(), c, st));
        }
    }
}

/// Split a line into visual rows of at most `width` characters.
///
/// With `width >= 1`, row `j` starts at character offset `j * width` and
/// carries exactly the characters of the line from there up to the next
/// multiple of `width`; a line of `n` characters yields one row when
/// `n == 0` and `(n + width - 1) / width` rows otherwise. A zero `width`
/// yields the whole line as one row.
pub fn wrap_line(line: &Vec<StyledRun>, width: usize) -> (rows: Vec<WrappedRow>)
    ensures
        ({
            let flat = styled_chars(line.deep_view());
            let n = flat.len() as int;
            &&& width == 0 ==> rows@.len() == 1 && rows@[0].start == 0
                && rows@[0].runs.deep_view() == line.deep_view()
            &&& width >= 1 ==> {
                &&& rows@.len() == (if n == 0 {
                    1int
                } else {
                    (n + width - 1) / (width as int)
                })
                &&& forall|j: int|
                    0 <= j < rows@.len() ==> (#[trigger] rows@[j]).start == j * width
                        && rows@[j].runs.deep_view() == group(
                        flat.subrange(
                            j * width,
                            if (j + 1) * width <= n {
                                (j + 1) * width
                            } else {
                                n
                            },
                        ),
                    )
            }
        }),
{
    if width == 0 {
        let mut rows: Vec<WrappedRow> = Vec::new();
        rows.push(WrappedRow { runs: clone_runs(line), start: 0 });
        return rows;
    }
    let flat = flatten_line(line);
    wrap_flat(&flat, width)
}

/// Split a flattened line into visual rows of at most `width` characters.
pub fn wrap_flat(flat: &Vec<(char, Style)>, width: usize) -> (rows: Vec<WrappedRow>)
    requires
        width >= 1,
    ensures
        ({
            let n = flat@.len() as int;
            &&& rows@.len() == (if n == 0 {
                1int
            } else {
                (n + width - 1) / (width as int)
            })
            &&& forall|j: int|
                0 <= j < rows@.len() ==> (#[trigger] rows@[j]).start == j * width
                    && rows@[j].runs.deep_view() == group(
                    flat@.subrange(
                        j * width,
                        if (j + 1) * width <= n {
                            (j + 1) * width
                        } else {
                            n
                        },
                    ),
                )
        }),
{
    let n = flat.len();
    let mut rows: Vec<WrappedRow> = Vec::new();
    let mut cur: Vec<StyledRun> = Vec::new();
    let mut cur_count: usize = 0;
    let mut row_start: usize = 0;
    let mut i: usize = 0;
    proof {
        assert(flat@.subrange(0, 0) =~= Seq::<(char, Style)>::empty());
        assert(cur.deep_view() =~= group(flat@.subrange(0, 0)));
        assert(rows@.len() == 0);
        assert(rows@.len() * width == 0) by (nonlinear_arith)
            requires
                rows@.len() == 0,
        ;
    }
    while i < n
        invariant
            0 <= i <= n,
            n == flat@.len(),
            width >= 1,
            0 <= cur_count <= width,
            cur_count <= i,
            i > 0 ==> cur_count >= 1,
            i == 0 ==> cur_count == 0,
            i == rows@.len() * width + cur_count,
            row_start == i - cur_count,
            cur.deep_view() == group(flat@.subrange(row_start as int, i as int)),
            forall|j: int|
                0 <= j < rows@.len() ==> (#[trigger] rows@[j]).start == j * width
                    && rows@[j].runs.deep_view() == group(
                    flat@.subrange(j * width, (j + 1) * width),
                ),
        decreases n - i,
    {
        if cur_count == width {
            let mut done: Vec<StyledRun> = Vec::new();
            core::mem::swap(&mut cur, &mut done);
            let ghost old_rows = rows@;
            rows.push(WrappedRow { runs: done, start: row_start });
            proof {
                assert(rows@.len() == old_rows.len() + 1);
                assert(row_start == old_rows.len() * width);
                assert(i == old_rows.len() * width + width);
                assert((old_rows.len() + 1) * width == old_rows.len() * width + width)
                    by (nonlinear_arith);
                assert(flat@.subrange(row_start as int, i as int) =~= flat@.subrange(
                    old_rows.len() * width,
                    (old_rows.len() + 1) * width,
                ));
                assert(cur.deep_view() =~= group(flat@.subrange(i as int, i as int)));
            }
            row_start = i;
            cur_count = 0;
        }
        let (c, st) = flat[i];
        push_styled_char(&mut cur, c, st);
        proof {
            let sub = flat@.subrange(row_start as int, i + 1);
            assert(sub.drop_last() =~= flat@.subrange(row_start as int, i as int));
            assert(sub.last() == flat@[i as int]);
        }
        cur_count = cur_count + 1;
        i = i + 1;
    }
    let ghost k = rows@.len() as int;
    rows.push(WrappedRow { runs: cur, start: row_start });
    proof {
        let flatg = flat@;
        let ng = n as int;
        let w = width as int;
        assert(rows@.len() == k + 1);
        if ng == 0 {
            assert(0 == k * w + cur_count);
            assert(k == 0) by (nonlinear_arith)
                requires
                    0 == k * w + cur_count,
                    cur_count >= 0,
                    w >= 1,
                    k >= 0,
            ;
            assert(cur_count == 0 && row_start == 0);
        } else {
            assert(ng == k * w + cur_count);
            assert(1 <= cur_count <= w);
            assert((ng + w - 1) / w == k + 1) by (nonlinear_arith)
                requires
                    ng == k * w + cur_count,
                    1 <= cur_count,
                    cur_count <= w,
                    w >= 1,
                    k >= 0,
            ;
        }
        assert forall|j: int| 0 <= j < rows@.len() implies (#[trigger] rows@[j]).start == j
            * width && rows@[j].runs.deep_view() == group(
            flatg.subrange(
                j * width,
                if (j + 1) * width <= ng {
                    (j + 1) * width
                } else {
                    ng
                },
            ),
        ) by {
            if j < k {
                assert(rows@[j].start == j * w);
                assert(rows@[j].runs.deep_view() == group(flatg.subrange(j * w, (j + 1) * w)));
                assert((j + 1) * w <= k * w) by (nonlinear_arith)
                    requires
                        j + 1 <= k,
                        w >= 1,
                ;
                assert(k * w <= ng);
            } else {
                assert(j == k);
                assert(rows@[j].start == row_start);
                assert(row_start == k * w);
                assert(rows@[j].runs.deep_view() == group(
                    flatg.subrange(row_start as int, ng),
                ));
                assert((k + 1) * w == k * w + w) by (nonlinear_arith);
                assert((k + 1) * w >= ng);
                if (j + 1) * w <= ng {
                    assert((j + 1) * w == ng);
                }
            }
        }
    }
    rows
}

} // verus!
