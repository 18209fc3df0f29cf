//! Editor window layout: rectangular viewports within the terminal, one of
//! them focused.
use crate::types::Position;
use vstd::prelude::*;

verus! {

/// Window split direction.
#[derive(Debug, Clone, Copy, PartialEq, Eq, Structural)]
pub enum SplitDirection {
    Horizontal,
    Vertical,
}

/// Direction for window navigation.
#[derive(Debug, Clone, Copy, PartialEq, Eq, Structural)]
pub enum Direction {
    Up,
    Down,
    Left,
    Right,
}

/// A window viewport within the terminal.
#[derive(Debug, Clone, Copy, PartialEq, Eq, Structural)]
pub struct Window {
    /// Top row (0-indexed, inclusive).
    pub row_start: usize,
    /// Bottom row (exclusive).
    pub row_end: usize,
    /// Left column (0-indexed, inclusive).
    pub col_start: usize,
    /// Right column (exclusive).
    pub col_end: usize,
    /// Buffer line at the top of this window (1-indexed).
    pub scroll_top: usize,
    /// Cursor position within this window.
    pub cursor: Position,
    /// Which buffer this window shows (0 = active, 1.. = inactive buffers).
    pub buf_idx: usize,
}

/// Layout of all windows.
#[derive(Debug, Clone)]
pub struct WindowLayout {
    pub windows: Vec<Window>,
    /// Index of the currently focused window.
    pub focused: usize,
}

/// Window `i` of `ws` after `equalize` on a `total_rows` by `total_cols`
/// screen: when some window does not span all content rows (all rows but
/// the last), the windows are stacked top to bottom in equal parts over the
/// full width; otherwise they are placed side by side in equal parts over
/// the content rows.
pub open spec fn equalized_window(ws: Seq<Window>, total_rows: usize, total_cols: usize, i: int) -> Window {
    let cr = sat_sub(total_rows as int, 1);
    let n = ws.len() as int;
    let horizontal = exists|j: int| 0 <= j < n && (ws[j].row_start != 0 || ws[j].row_end != cr);
    if horizontal {
        Window {
            row_start: part_start(cr, n, i) as usize,
            row_end: part_start(cr, n, i + 1) as usize,
            col_start: 0,
            col_end: total_cols,
            ..ws[i]
        }
    } else {
        Window {
            col_start: part_start(total_cols as int, n, i) as usize,
            col_end: part_start(total_cols as int, n, i + 1) as usize,
            row_start: 0,
            row_end: cr as usize,
            ..ws[i]
        }
    }
}

pub open spec fn sat_sub(a: int, b: int) -> int {
    if a >= b {
        a - b
    } else {
        0
    }
}

pub open spec fn with_rows(w: Window, row_start: usize, row_end: usize) -> Window {
    Window { row_start, row_end, ..w }
}

pub open spec fn with_cols(w: Window, col_start: usize, col_end: usize) -> Window {
    Window { col_start, col_end, ..w }
}

/// Distance from the focused window `f` to `w` in direction `d`, if `w` lies
/// entirely on that side of `f`.
pub open spec fn dir_dist(w: Window, f: Window, d: Direction) -> Option<int> {
    match d {
        Direction::Up => if w.row_end <= f.row_start {
            Some(f.row_start - w.row_end)
        } else {
            None
        },
        Direction::Down => if w.row_start >= f.row_end {
            Some(w.row_start - f.row_end)
        } else {
            None
        },
        Direction::Left => if w.col_end <= f.col_start {
            Some(f.col_start - w.col_end)
        } else {
            None
        },
        Direction::Right => if w.col_start >= f.col_end {
            Some(w.col_start - f.col_end)
        } else {
            None
        },
    }
}

/// Scanning windows `0..n`: the nearest window in direction `d` from window
/// `fi` (the first one among equally near ones) and its distance.
pub open spec fn focus_scan(ws: Seq<Window>, fi: int, d: Direction, n: int) -> (Option<int>, int)
    decreases n,
{
    if n <= 0 {
        (None, usize::MAX as int)
    } else {
        let prev = focus_scan(ws, fi, d, n - 1);
        let i = n - 1;
        if i == fi {
            prev
        } else {
            match dir_dist(ws[i], ws[fi], d) {
                Some(x) => if x < prev.1 {
                    (Some(i), x)
                } else {
                    prev
                },
                None => prev,
            }
        }
    }
}

/// The window the scan picks is one of those scanned.
pub proof fn lemma_focus_scan_in_range(ws: Seq<Window>, fi: int, d: Direction, n: int)
    ensures
        focus_scan(ws, fi, d, n).0 matches Some(i) ==> 0 <= i < n,
    decreases n,
{
    if n > 0 {
        lemma_focus_scan_in_range(ws, fi, d, n - 1);
    }
}

/// Start offset of part `i` when `total` is cut into `n` parts whose sizes
/// differ by at most one, the larger ones first.
pub open spec fn part_start(total: int, n: int, i: int) -> int {
    i * (total / n) + if i < total % n {
        i
    } else {
        total % n
    }
}

pub open spec fn part_size(total: int, n: int, i: int) -> int {
    total / n + if i < total % n {
        1int
    } else {
        0int
    }
}

proof fn lemma_parts(total: int, n: int, i: int)
    requires
        0 <= total,
        0 < n,
        0 <= i < n,
    ensures
        part_start(total, n, i) + part_size(total, n, i) == part_start(total, n, i + 1),
        part_start(total, n, i + 1) <= total,
        part_start(total, n, 0) == 0,
        0 <= part_start(total, n, i),
{
    let q = total / n;
    let r = total % n;
    assert(total == n * q + r) by (nonlinear_arith)
        requires
            q == total / n,
            r == total % n,
            0 < n,
    ;
    assert((i + 1) * q <= n * q) by (nonlinear_arith)
        requires
            i + 1 <= n,
            0 <= q,
    ;
    assert((i + 1) * q == i * q + q) by (nonlinear_arith);
    assert(0 <= i * q) by (nonlinear_arith)
        requires
            0 <= i,
            0 <= q,
    ;
    assert(0 * q == 0);
}

impl WindowLayout {
    /// A layout with a single window covering all rows but the last
    /// (kept for the status bar).
    pub fn new_single(rows: usize, cols: usize) -> (l: Self)
        ensures
            l.focused == 0,
            l.windows@ == seq![
                Window {
                    row_start: 0,
                    row_end: sat_sub(rows as int, 1) as usize,
                    col_start: 0,
                    col_end: cols,
                    scroll_top: 1,
                    cursor: Position { line: 1, col: 0 },
                    buf_idx: 0,
                },
            ],
    {
        let content_rows = rows.saturating_sub(1);
        let mut windows = Vec::new();
        windows.push(
            Window {
                row_start: 0,
                row_end: content_rows,
                col_start: 0,
                col_end: cols,
                scroll_top: 1,
                cursor: Position { line: 1, col: 0 },
                buf_idx: 0,
            },
        );
        WindowLayout { windows, focused: 0 }
    }

    /// Splits the focused window into a top half (which keeps its place) and
    /// a bottom half (inserted after it, and focused).
    pub fn split_horizontal(&mut self)
        requires
            old(self).focused < old(self).windows@.len(),
            old(self).windows@[old(self).focused as int].row_start <= old(self).windows@[old(
                self,
            ).focused as int].row_end,
        ensures
            ({
                let f = old(self).focused as int;
                let w = old(self).windows@[f];
                let top = (w.row_start + (w.row_end - w.row_start) / 2) as usize;
                &&& final(self).windows@ == old(self).windows@.update(
                    f,
                    with_rows(w, w.row_start, top),
                ).insert(f + 1, with_rows(w, top, w.row_end))
                &&& final(self).focused == f + 1
            }),
    {
        let focused_idx = self.focused;
        let _n = self.windows.len();
        let window = self.windows[focused_idx];
        let height = window.row_end - window.row_start;
        let top_height = height / 2;
        let mut top = window;
        top.row_end = window.row_start + top_height;
        self.windows.set(focused_idx, top);
        let mut new_window = window;
        new_window.row_start = top.row_end;
        new_window.row_end = window.row_end;
        new_window.scroll_top = window.scroll_top;
        new_window.cursor = window.cursor;
        self.windows.insert(focused_idx + 1, new_window);
        self.focused = focused_idx + 1;
    }

    /// Splits the focused window into a left half (which keeps its place)
    /// and a right half (inserted after it, and focused).
    pub fn split_vertical(&mut self)
        requires
            old(self).focused < old(self).windows@.len(),
            old(self).windows@[old(self).focused as int].col_start <= old(self).windows@[old(
                self,
            ).focused as int].col_end,
        ensures
            ({
                let f = old(self).focused as int;
                let w = old(self).windows@[f];
                let left = (w.col_start + (w.col_end - w.col_start) / 2) as usize;
                &&& final(self).windows@ == old(self).windows@.update(
                    f,
                    with_cols(w, w.col_start, left),
                ).insert(f + 1, with_cols(w, left, w.col_end))
                &&& final(self).focused == f + 1
            }),
    {
        let focused_idx = self.focused;
        let _n = self.windows.len();
        let window = self.windows[focused_idx];
        let width = window.col_end - window.col_start;
        let left_width = width / 2;
        let mut left = window;
        left.col_end = window.col_start + left_width;
        self.windows.set(focused_idx, left);
        let mut new_window = window;
        new_window.col_start = left.col_end;
        new_window.col_end = window.col_end;
        new_window.scroll_top = window.scroll_top;
        new_window.cursor = window.cursor;
        self.windows.insert(focused_idx + 1, new_window);
        self.focused = focused_idx + 1;
    }

    /// Closes the focused window unless it is the last one; focus stays at
    /// the same index, or moves to the last window when that index is gone.
    pub fn close_focused(&mut self)
        requires
            old(self).windows@.len() > 1 ==> old(self).focused < old(self).windows@.len(),
        ensures
            old(self).windows@.len() <= 1 ==> final(self).windows@ == old(self).windows@
                && final(self).focused == old(self).focused,
            old(self).windows@.len() > 1 ==> ({
                let n = old(self).windows@.len() - 1;
                &&& final(self).windows@ == old(self).windows@.remove(old(self).focused as int)
                &&& final(self).focused == if old(self).focused >= n {
                    (n - 1) as usize
                } else {
                    old(self).focused
                }
            }),
    {
        if self.windows.len() <= 1 {
            return;
        }
        self.windows.remove(self.focused);
        if self.focused >= self.windows.len() {
            self.focused = self.windows.len() - 1;
        }
    }

    /// Focuses the next window, wrapping around to the first.
    pub fn focus_next(&mut self)
        requires
            old(self).focused < usize::MAX,
        ensures
            final(self).windows@ == old(self).windows@,
            final(self).focused == if old(self).windows@.len() == 0 {
                old(self).focused as int
            } else {
                (old(self).focused + 1) % (old(self).windows@.len() as int)
            },
    {
        if self.windows.len() > 0 {
            self.focused = (self.focused + 1) % self.windows.len();
        }
    }

    /// Focuses the nearest window lying entirely in `direction` from the
    /// focused one; the focus stays when there is none.
    pub fn focus_direction(&mut self, direction: Direction)
        requires
            old(self).focused < old(self).windows@.len(),
        ensures
            final(self).windows@ == old(self).windows@,
            final(self).focused == match focus_scan(
                old(self).windows@,
                old(self).focused as int,
                direction,
                old(self).windows@.len() as int,
            ).0 {
                Some(i) => i,
                None => old(self).focused as int,
            },
    {
        let fi = self.focused;
        let focused = self.windows[fi];
        let mut best_idx: Option<usize> = None;
        let mut best_dist: usize = usize::MAX;
        let mut i: usize = 0;
        while i < self.windows.len()
            invariant
                0 <= i <= self.windows@.len(),
                fi < self.windows@.len(),
                self.focused == fi,
                self.windows@ == old(self).windows@,
                focused == self.windows@[fi as int],
                ({
                    let sc = focus_scan(self.windows@, fi as int, direction, i as int);
                    &&& sc.1 == best_dist as int
                    &&& match sc.0 {
                        Some(b) => best_idx == Some(b as usize) && 0 <= b < i,
                        None => best_idx is None,
                    }
                }),
            decreases self.windows@.len() - i,
        {
            if i != fi {
                let w = self.windows[i];
                let d: Option<usize> = match direction {
                    Direction::Up => if w.row_end <= focused.row_start {
                        Some(focused.row_start - w.row_end)
                    } else {
                        None
                    },
                    Direction::Down => if w.row_start >= focused.row_end {
                        Some(w.row_start - focused.row_end)
                    } else {
                        None
                    },
                    Direction::Left => if w.col_end <= focused.col_start {
                        Some(focused.col_start - w.col_end)
                    } else {
                        None
                    },
                    Direction::Right => if w.col_start >= focused.col_end {
                        Some(w.col_start - focused.col_end)
                    } else {
                        None
                    },
                };
                if let Some(dist) = d {
                    if dist < best_dist {
                        best_dist = dist;
                        best_idx = Some(i);
                    }
                }
            }
            i += 1;
        }
        if let Some(idx) = best_idx {
            self.focused = idx;
        }
    }

    /// Gives all windows equal sizes (differing by at most one, larger ones
    /// first). When some window does not span the full height the windows
    /// are stacked top to bottom over the full width; otherwise they are
    /// placed side by side over the full height.
    pub fn equalize(&mut self, total_rows: usize, total_cols: usize)
        ensures
            final(self).focused == old(self).focused,
            final(self).windows@.len() == old(self).windows@.len(),
            forall|i: int|
                0 <= i < old(self).windows@.len() ==> #[trigger] final(self).windows@[i] == equalized_window(
                    old(self).windows@,
                    total_rows,
                    total_cols,
                    i,
                ),
    {
        let ghost ws = self.windows@;
        let ghost f0 = self.focused;
        let content_rows = total_rows.saturating_sub(1);
        let n = self.windows.len();
        if n == 0 {
            return;
        }
        let mut horizontal = false;
        let mut k: usize = 0;
        while k < n
            invariant
                0 <= k <= n,
                n == ws.len(),
                self.windows@ == ws,
                self.focused == f0,
                horizontal <==> exists|i: int|
                    0 <= i < k && (ws[i].row_start != 0 || ws[i].row_end != content_rows),
            decreases n - k,
        {
            let w = self.windows[k];
            if w.row_start != 0 || w.row_end != content_rows {
                horizontal = true;
            }
            k += 1;
        }
        if horizontal {
            let base_height = content_rows / n;
            let extra = content_rows % n;
            let mut row: usize = 0;
            let mut i: usize = 0;
            while i < n
                invariant
                    0 <= i <= n,
                    n == ws.len(),
                    n > 0,
                    self.focused == f0,
                    self.windows@.len() == n,
                    base_height == content_rows / n,
                    extra == content_rows % n,
                    row == part_start(content_rows as int, n as int, i as int),
                    forall|j: int|
                        i <= j < n ==> #[trigger] self.windows@[j] == ws[j],
                    forall|j: int|
                        0 <= j < i ==> #[trigger] self.windows@[j] == (Window {
                            row_start: part_start(content_rows as int, n as int, j) as usize,
                            row_end: part_start(content_rows as int, n as int, j + 1) as usize,
                            col_start: 0,
                            col_end: total_cols,
                            ..ws[j]
                        }),
                decreases n - i,
            {
                proof {
                    lemma_parts(content_rows as int, n as int, i as int);
                }
                let h = base_height + if i < extra {
                    1
                } else {
                    0
                };
                let mut w = self.windows[i];
                w.row_start = row;
                w.row_end = row + h;
                w.col_start = 0;
                w.col_end = total_cols;
                self.windows.set(i, w);
                row = row + h;
                i += 1;
            }
        } else {
            let base_width = total_cols / n;
            let extra = total_cols % n;
            let mut col: usize = 0;
            let mut i: usize = 0;
            while i < n
                invariant
                    0 <= i <= n,
                    n == ws.len(),
                    n > 0,
                    self.focused == f0,
                    self.windows@.len() == n,
                    base_width == total_cols / n,
                    extra == total_cols % n,
                    col == part_start(total_cols as int, n as int, i as int),
                    forall|j: int|
                        i <= j < n ==> #[trigger] self.windows@[j] == ws[j],
                    forall|j: int|
                        0 <= j < i ==> #[trigger] self.windows@[j] == (Window {
                            col_start: part_start(total_cols as int, n as int, j) as usize,
                            col_end: part_start(total_cols as int, n as int, j + 1) as usize,
                            row_start: 0,
                            row_end: content_rows,
                            ..ws[j]
                        }),
                decreases n - i,
            {
                proof {
                    lemma_parts(total_cols as int, n as int, i as int);
                }
                let w_w = base_width + if i < extra {
                    1
                } else {
                    0
                };
                let mut w = self.windows[i];
                w.col_start = col;
                w.col_end = col + w_w;
                w.row_start = 0;
                w.row_end = content_rows;
                self.windows.set(i, w);
                col = col + w_w;
                i += 1;
            }
        }
    }

    /// Stretches the focused window over all content rows.
    pub fn maximize_vertical(&mut self, total_rows: usize, _total_cols: usize)
        requires
            old(self).focused < old(self).windows@.len(),
        ensures
            final(self).focused == old(self).focused,
            final(self).windows@ == old(self).windows@.update(
                old(self).focused as int,
                with_rows(
                    old(self).windows@[old(self).focused as int],
                    0,
                    sat_sub(total_rows as int, 1) as usize,
                ),
            ),
    {
        let content_rows = total_rows.saturating_sub(1);
        let mut w = self.windows[self.focused];
        w.row_start = 0;
        w.row_end = content_rows;
        self.windows.set(self.focused, w);
    }

    /// Stretches the focused window over all columns.
    pub fn maximize_horizontal(&mut self, _total_rows: usize, total_cols: usize)
        requires
            old(self).focused < old(self).windows@.len(),
        ensures
            final(self).focused == old(self).focused,
            final(self).windows@ == old(self).windows@.update(
                old(self).focused as int,
                with_cols(old(self).windows@[old(self).focused as int], 0, total_cols),
            ),
    {
        let mut w = self.windows[self.focused];
        w.col_start = 0;
        w.col_end = total_cols;
        self.windows.set(self.focused, w);
    }
}

impl Default for WindowLayout {
    fn default() -> (l: Self)
        ensures
            l.windows@.len() == 0,
            l.focused == 0,
    {
        WindowLayout { windows: Vec::new(), focused: 0 }
    }
}

} // verus!
