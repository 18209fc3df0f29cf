//! What a window shows: its buffer lines cut into screen rows, with the
//! line-number column, and the selected columns of each line.
use crate::buffer::{get_line_spec, TextBuffer};
use crate::chars::{decimal, decimal_chars};
use crate::engine::Engine;
use crate::gutter::{gutter_label, gutter_spec};
use crate::highlight::StyledRun;
use crate::layout::Window;
use crate::text::line_count;
use crate::types::{EditorState, Mode, Position, VisualType};
use crate::width::{cell_width, char_display_width};
use vstd::prelude::*;

verus! {

/// Wrapping the first `n` characters into rows at most `width` columns
/// wide: the starts of the rows already closed, the start of the open row,
/// its width and its number of characters. A character of no width joins
/// the open row; a row is closed when the next character would not fit and
/// the row holds something.
pub open spec fn wrap_walk(cs: Seq<char>, n: int, width: nat) -> (Seq<int>, int, nat, nat)
    decreases n,
{
    if n <= 0 {
        (Seq::empty(), 0, 0, 0)
    } else {
        let p = wrap_walk(cs, n - 1, width);
        let w = cell_width(cs[n - 1]);
        if w == 0 {
            (p.0, p.1, p.2, p.3 + 1)
        } else if p.2 + w > width && p.3 > 0 {
            (p.0.push(p.1), n - 1, w, 1)
        } else {
            (p.0, p.1, p.2 + w, p.3 + 1)
        }
    }
}

/// The first character index of each screen row of a line: one row from 0
/// without wrapping or for an empty line, else the rows of `wrap_walk`.
pub open spec fn segment_starts(cs: Seq<char>, width: nat, wrap: bool) -> Seq<int> {
    if !wrap || cs.len() == 0 {
        seq![0]
    } else {
        let p = wrap_walk(cs, cs.len() as int, width);
        p.0.push(p.1)
    }
}

/// The row starts of a line (see `segment_starts`).
pub fn wrap_starts(cs: &Vec<char>, width: usize, wrap: bool) -> (r: Vec<usize>)
    ensures
        r@.len() == segment_starts(cs@, width as nat, wrap).len(),
        forall|i: int| 0 <= i < r@.len() ==> r@[i] == segment_starts(cs@, width as nat, wrap)[i],
{
    let mut done: Vec<usize> = Vec::new();
    if !wrap || cs.len() == 0 {
        done.push(0);
        return done;
    }
    let mut start: usize = 0;
    let mut cw: usize = 0;
    let mut clen: usize = 0;
    let mut i: usize = 0;
    while i < cs.len()
        invariant
            0 <= i <= cs@.len(),
            ({
                let p = wrap_walk(cs@, i as int, width as nat);
                &&& done@.len() == p.0.len()
                &&& forall|j: int| 0 <= j < done@.len() ==> done@[j] == p.0[j]
                &&& start == p.1
                &&& cw == p.2
                &&& clen == p.3
            }),
            clen == 0 ==> cw == 0,
            clen <= i,
            cw <= width || cw <= 3,
        decreases cs@.len() - i,
    {
        let w = char_display_width(cs[i]);
        if w == 0 {
            clen += 1;
        } else if (cw > width || w > width - cw) && clen > 0 {
            done.push(start);
            start = i;
            cw = w;
            clen = 1;
        } else {
            cw = cw + w;
            clen += 1;
        }
        i += 1;
    }
    done.push(start);
    done
}

/// The screen rows of line `l` of `t`: the line, and the character range
/// `[start, end)` of each row.
pub open spec fn line_rows(t: Seq<char>, l: int, width: nat, wrap: bool) -> Seq<(int, int, int)> {
    let cs = get_line_spec(t, l);
    let st = segment_starts(cs, width, wrap);
    Seq::new(
        st.len(),
        |i: int| (l, st[i], if i + 1 < st.len() { st[i + 1] } else { cs.len() as int }),
    )
}

/// The screen rows of the lines from `l` on, at most `budget` of them.
pub open spec fn rows_from(t: Seq<char>, l: int, budget: int, width: nat, wrap: bool) -> Seq<(int, int, int)>
    decreases line_count(t) + 1 - l,
{
    if budget <= 0 || l < 1 || l > line_count(t) {
        Seq::empty()
    } else {
        let r = line_rows(t, l, width, wrap);
        let k = if r.len() <= budget { r.len() as int } else { budget };
        r.take(k) + rows_from(t, l + 1, budget - k, width, wrap)
    }
}

/// The text a window shows: that of its buffer (0 the current one, `i` the
/// `i`-th put aside), the current one when there is no such buffer.
pub open spec fn window_text(e: Engine, w: Window) -> Seq<char> {
    if w.buf_idx > 0 && w.buf_idx - 1 < e.inactive_buffers@.len() {
        e.inactive_buffers@[w.buf_idx - 1].0.text()
    } else {
        e.buffer.text()
    }
}

/// Columns left for text in a window `cols` wide beside the line-number
/// column of a text of `count` lines (at least one).
pub open spec fn content_width(cols: int, count: int, numbers: bool) -> nat {
    let prefix = if numbers {
        decimal((if count >= 1 { count } else { 1 }) as nat).len() + 2
    } else {
        0
    };
    if cols - prefix >= 1 {
        (cols - prefix) as nat
    } else {
        1
    }
}

/// Screen rows of a window from its first line on: as many as it has rows,
/// none when it has no row or no column.
pub open spec fn window_rows_spec(e: Engine, w: Window) -> Seq<(int, int, int)> {
    let t = window_text(e, w);
    let rows = w.row_end - w.row_start;
    let cols = w.col_end - w.col_start;
    if rows <= 0 || cols <= 0 {
        Seq::empty()
    } else {
        let numbers = e.state.show_line_numbers || e.state.show_relative_numbers;
        rows_from(
            t,
            if w.scroll_top >= 1 { w.scroll_top as int } else { 1 },
            rows,
            content_width(cols, line_count(t) as int, numbers),
            e.state.wrap,
        )
    }
}

/// A row of a window: the buffer line it shows, the character range
/// `[start_col, end_col)` of that line, and the line-number column.
pub struct ScreenRow {
    pub line: usize,
    pub start_col: usize,
    pub end_col: usize,
    pub gutter: String,
}

/// The line and range of each row.
pub open spec fn row_ranges(v: Seq<ScreenRow>) -> Seq<(int, int, int)> {
    v.map_values(|r: ScreenRow| (r.line as int, r.start_col as int, r.end_col as int))
}

impl Engine {
    fn window_buffer(&self, w: &Window) -> (b: &TextBuffer)
        ensures
            b.text() == window_text(*self, *w),
    {
        if w.buf_idx > 0 && w.buf_idx - 1 < self.inactive_buffers.len() {
            &self.inactive_buffers[w.buf_idx - 1].0
        } else {
            &self.buffer
        }
    }

    /// The rows window `w` shows (see `window_rows_spec`), each with its
    /// line-number column (`gutter_spec` relative to the window's first
    /// line); the drawing of their characters is left to the caller.
    pub fn window_rows(&self, w: &Window) -> (r: Vec<ScreenRow>)
        ensures
            row_ranges(r@) == window_rows_spec(*self, *w),
            forall|i: int| 0 <= i < r@.len() ==> (#[trigger] r@[i]).gutter@ == gutter_spec(
                r@[i].line as int,
                w.scroll_top as int,
                line_count(window_text(*self, *w)) as int,
                self.state.show_line_numbers,
                self.state.show_relative_numbers,
            ),
    {
        let mut out: Vec<ScreenRow> = Vec::new();
        if w.row_end <= w.row_start || w.col_end <= w.col_start {
            proof {
                assert(row_ranges(out@) =~= Seq::<(int, int, int)>::empty());
            }
            return out;
        }
        let rows = w.row_end - w.row_start;
        let cols = w.col_end - w.col_start;
        let buf = self.window_buffer(w);
        let count = buf.line_count();
        let numbers = self.state.show_line_numbers;
        let relative = self.state.show_relative_numbers;
        let wrap = self.state.wrap;
        let width: usize = if numbers || relative {
            let dl = decimal_chars(if count >= 1 { count } else { 1 }).len();
            if cols >= 2 && cols - 2 > dl {
                cols - 2 - dl
            } else {
                1
            }
        } else {
            cols
        };
        let ghost t = buf.text();
        let first: usize = if w.scroll_top >= 1 { w.scroll_top } else { 1 };
        proof {
            assert(width == content_width(cols as int, count as int, numbers || relative));
        }
        let n: usize = if first <= count { count - first + 1 } else { 0 };
        let mut i: usize = 0;
        let mut used: usize = 0;
        while i < n && used < rows
            invariant
                t == window_text(*self, *w),
                count == line_count(t),
                1 <= first,
                n == (if first <= count { count - first + 1 } else { 0 }),
                0 <= i <= n,
                used <= rows,
                out@.len() == used,
                rows_from(t, first as int, rows as int, width as nat, wrap) == row_ranges(out@) + rows_from(
                    t,
                    first + i,
                    rows - used,
                    width as nat,
                    wrap,
                ),
                forall|j: int| 0 <= j < out@.len() ==> (#[trigger] out@[j]).gutter@ == gutter_spec(
                    out@[j].line as int,
                    w.scroll_top as int,
                    count as int,
                    numbers,
                    relative,
                ),
                buf.text() == t,
            decreases n - i,
        {
            let l = first + i;
            let cs = buf.line_chars(l);
            let st = wrap_starts(&cs, width, wrap);
            let ghost lr = line_rows(t, l as int, width as nat, wrap);
            let ghost before = row_ranges(out@);
            let ghost k = if lr.len() <= rows - used { lr.len() as int } else { (rows - used) as int };
            proof {
                assert(rows_from(t, l as int, rows - used, width as nat, wrap) == lr.take(k) + rows_from(
                    t,
                    l + 1,
                    rows - used - k,
                    width as nat,
                    wrap,
                ));
            }
            let mut j: usize = 0;
            while j < st.len() && used < rows
                invariant
                    0 <= j <= st@.len(),
                    st@.len() == lr.len(),
                    forall|q: int| 0 <= q < st@.len() ==> st@[q] == segment_starts(cs@, width as nat, wrap)[q],
                    cs@ == get_line_spec(t, l as int),
                    lr == line_rows(t, l as int, width as nat, wrap),
                    used <= rows,
                    out@.len() == used,
                    row_ranges(out@) == before + lr.take(j as int),
                    before.len() + j == used,
                    k == (if lr.len() <= rows - (used - j) { lr.len() as int } else { (rows - (used - j)) as int }),
                    j <= k,
                    forall|q: int| 0 <= q < out@.len() ==> (#[trigger] out@[q]).gutter@ == gutter_spec(
                        out@[q].line as int,
                        w.scroll_top as int,
                        count as int,
                        numbers,
                        relative,
                    ),
                decreases st@.len() - j,
            {
                let end = if j + 1 < st.len() {
                    st[j + 1]
                } else {
                    cs.len()
                };
                let g = gutter_label(l, w.scroll_top, count, numbers, relative);
                let row = ScreenRow { line: l, start_col: st[j], end_col: end, gutter: g };
                let ghost prev = out@;
                out.push(row);
                proof {
                    assert(row_ranges(out@) =~= row_ranges(prev).push((l as int, st@[j as int] as int, end as int)));
                    assert(lr[j as int] == (l as int, st@[j as int] as int, end as int));
                    assert(lr.take(j + 1) =~= lr.take(j as int).push(lr[j as int]));
                    assert(row_ranges(out@) =~= before + lr.take(j + 1));
                }
                j += 1;
                used += 1;
            }
            proof {
                assert(j == k);
            }
            i += 1;
        }
        proof {
            if used >= rows {
                assert(rows_from(t, first + i, rows - used, width as nat, wrap) =~= Seq::<(int, int, int)>::empty());
            } else {
                assert(first + i > count);
            }
            assert(row_ranges(out@) + Seq::<(int, int, int)>::empty() =~= row_ranges(out@));
        }
        out
    }
}

/// The columns `[start, end)` selected on `line` between an anchor `a` and
/// the cursor `c`, character-wise: from the first position to the end of
/// its line, whole lines between, and up to the last position included.
pub open spec fn span_cols(a: Position, c: Position, line: int) -> Option<(int, int)> {
    let lo = if a.line <= c.line { a.line } else { c.line };
    let hi = if a.line <= c.line { c.line } else { a.line };
    if line < lo || line > hi {
        None
    } else if a.line < c.line {
        if line == a.line {
            Some((a.col as int, usize::MAX as int))
        } else if line == c.line {
            Some((0, c.col + 1))
        } else {
            Some((0, usize::MAX as int))
        }
    } else if a.line > c.line {
        if line == c.line {
            Some((c.col as int, usize::MAX as int))
        } else if line == a.line {
            Some((0, a.col + 1))
        } else {
            Some((0, usize::MAX as int))
        }
    } else {
        Some((
            if a.col <= c.col { a.col as int } else { c.col as int },
            if a.col <= c.col { c.col + 1 } else { a.col + 1 },
        ))
    }
}

/// The columns selected on `line`: the Emacs region when it is active,
/// else the Vim selection in Visual mode (whole lines line-wise, the
/// columns between the two corners block-wise); `usize::MAX` stands for
/// the end of the line.
pub open spec fn selection_spec(st: EditorState, line: int) -> Option<(int, int)> {
    if st.region_active && st.mark is Some {
        span_cols(st.mark->0, st.cursor, line)
    } else if st.mode != Mode::Visual {
        None
    } else {
        match (st.visual_start, st.visual_type) {
            (Some(v), Some(VisualType::Character)) => span_cols(v, st.cursor, line),
            (Some(v), Some(kind)) => {
                let lo = if v.line <= st.cursor.line { v.line } else { st.cursor.line };
                let hi = if v.line <= st.cursor.line { st.cursor.line } else { v.line };
                if line < lo || line > hi {
                    None
                } else if kind == VisualType::Line {
                    Some((0, usize::MAX as int))
                } else {
                    Some((
                        if v.col <= st.cursor.col { v.col as int } else { st.cursor.col as int },
                        if v.col <= st.cursor.col { st.cursor.col + 1 } else { v.col + 1 },
                    ))
                }
            },
            _ => None,
        }
    }
}

/// The positions that bound a selection have columns below the machine
/// word's end (the column past the last selected one is a machine word).
pub open spec fn selection_fits(st: EditorState) -> bool {
    &&& st.cursor.col < usize::MAX
    &&& st.mark matches Some(m) ==> m.col < usize::MAX
    &&& st.visual_start matches Some(v) ==> v.col < usize::MAX
}

fn span(a: Position, c: Position, line: usize) -> (r: Option<(usize, usize)>)
    requires
        a.col < usize::MAX,
        c.col < usize::MAX,
    ensures
        match span_cols(a, c, line as int) {
            Some(p) => r == Some((p.0 as usize, p.1 as usize)),
            None => r is None,
        },
{
    let lo = if a.line <= c.line { a.line } else { c.line };
    let hi = if a.line <= c.line { c.line } else { a.line };
    if line < lo || line > hi {
        None
    } else if a.line < c.line {
        if line == a.line {
            Some((a.col, usize::MAX))
        } else if line == c.line {
            Some((0, c.col + 1))
        } else {
            Some((0, usize::MAX))
        }
    } else if a.line > c.line {
        if line == c.line {
            Some((c.col, usize::MAX))
        } else if line == a.line {
            Some((0, a.col + 1))
        } else {
            Some((0, usize::MAX))
        }
    } else {
        Some((if a.col <= c.col { a.col } else { c.col }, if a.col <= c.col { c.col + 1 } else { a.col + 1 }))
    }
}

/// The columns selected on `line` (see `selection_spec`).
pub fn selection_cols(st: &EditorState, line: usize) -> (r: Option<(usize, usize)>)
    requires
        selection_fits(*st),
    ensures
        match selection_spec(*st, line as int) {
            Some(p) => r == Some((p.0 as usize, p.1 as usize)),
            None => r is None,
        },
{
    if st.region_active {
        if let Some(m) = st.mark {
            return span(m, st.cursor, line);
        }
    }
    if st.mode != Mode::Visual {
        return None;
    }
    match (st.visual_start, st.visual_type) {
        (Some(v), Some(VisualType::Character)) => span(v, st.cursor, line),
        (Some(v), Some(kind)) => {
            let c = st.cursor;
            let lo = if v.line <= c.line { v.line } else { c.line };
            let hi = if v.line <= c.line { c.line } else { v.line };
            if line < lo || line > hi {
                None
            } else if kind == VisualType::Line {
                Some((0, usize::MAX))
            } else {
                Some((if v.col <= c.col { v.col } else { c.col }, if v.col <= c.col { c.col + 1 } else { v.col + 1 }))
            }
        },
        _ => None,
    }
}

/// The colour of each character of a line coloured by `runs`, in order:
/// each run gives its colour to each of its characters.
pub open spec fn run_colours(runs: Seq<(u8, u8, u8, Seq<char>)>) -> Seq<(u8, u8, u8)>
    decreases runs.len(),
{
    if runs.len() == 0 {
        Seq::empty()
    } else {
        let last = runs.last();
        run_colours(runs.drop_last()) + Seq::new(last.3.len(), |i: int| (last.0, last.1, last.2))
    }
}

/// The colour of each character of a line (see `run_colours`); the caller
/// draws characters past the end in the default colour.
pub fn char_colours(runs: &Vec<StyledRun>) -> (r: Vec<(u8, u8, u8)>)
    ensures
        r@ == run_colours(runs@.map_values(|x: StyledRun| x@)),
{
    let ghost rv = runs@.map_values(|x: StyledRun| x@);
    let mut out: Vec<(u8, u8, u8)> = Vec::new();
    let mut i: usize = 0;
    while i < runs.len()
        invariant
            0 <= i <= runs@.len(),
            rv == runs@.map_values(|x: StyledRun| x@),
            out@ == run_colours(rv.take(i as int)),
        decreases runs@.len() - i,
    {
        let run = &runs[i];
        let n = crate::strutil::chars_of(run.text.as_str()).len();
        let ghost head = out@;
        let mut k: usize = 0;
        while k < n
            invariant
                0 <= k <= n,
                out@ == head + Seq::new(k as nat, |q: int| (run.r, run.g, run.b)),
            decreases n - k,
        {
            out.push((run.r, run.g, run.b));
            proof {
                assert(out@ =~= head + Seq::new((k + 1) as nat, |q: int| (run.r, run.g, run.b)));
            }
            k += 1;
        }
        proof {
            assert(rv.take(i + 1).drop_last() =~= rv.take(i as int));
            assert(rv.take(i + 1).last() == run@);
        }
        i += 1;
    }
    proof {
        assert(rv.take(runs@.len() as int) =~= rv);
    }
    out
}

/// The first line of a window `height` rows high that shows `line`: `top`
/// when `line` is already among its lines, else `line` itself when above,
/// or the line that puts `line` on the last row when below.
pub open spec fn follow_spec(top: int, line: int, height: int) -> int {
    if line < top || height == 0 {
        line
    } else if line - top < height {
        top
    } else {
        line - height + 1
    }
}

/// See `follow_spec`.
pub fn follow_top(top: usize, line: usize, height: usize) -> (r: usize)
    ensures
        r == follow_spec(top as int, line as int, height as int),
{
    if line < top || height == 0 {
        line
    } else if line - top < height {
        top
    } else {
        line - height + 1
    }
}

} // verus!
