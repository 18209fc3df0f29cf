//! Panel layout for review mode: a file list on the left, the diff on the
//! right, and a status bar on the last row.
use vstd::prelude::*;

verus! {

/// A rectangular region of the terminal: rows `[row_start, row_end)` and
/// columns `[col_start, col_end)`.
#[derive(Debug, Clone, Copy)]
pub struct PanelRect {
    pub row_start: usize,
    pub row_end: usize,
    pub col_start: usize,
    pub col_end: usize,
}

impl PanelRect {
    /// Number of columns (0 when the bounds are reversed).
    pub fn width(&self) -> (r: usize)
        ensures
            r == if self.col_end >= self.col_start {
                self.col_end - self.col_start
            } else {
                0
            },
    {
        self.col_end.saturating_sub(self.col_start)
    }

    /// Number of rows (0 when the bounds are reversed).
    pub fn height(&self) -> (r: usize)
        ensures
            r == if self.row_end >= self.row_start {
                self.row_end - self.row_start
            } else {
                0
            },
    {
        self.row_end.saturating_sub(self.row_start)
    }
}

/// The review screen's regions.
pub struct ReviewLayout {
    /// File list panel region
    pub file_list: PanelRect,
    /// Diff view panel region
    pub diff_view: PanelRect,
    /// Status bar row
    pub status_row: usize,
}

/// Column where the file list ends: the requested width, at most one less
/// than the screen width and at most two thirds of it.
pub open spec fn file_list_end(cols: int, file_list_width: int) -> int {
    let a = if file_list_width <= (if cols >= 1 { cols - 1 } else { 0 }) {
        file_list_width
    } else if cols >= 1 {
        cols - 1
    } else {
        0
    };
    let b = cols / 3 * 2;
    if a <= b {
        a
    } else {
        b
    }
}

/// The review panel layout for a terminal of `rows` by `cols`.
pub fn compute_review_layout(rows: usize, cols: usize, file_list_width: u16) -> (l: ReviewLayout)
    ensures
        l.status_row == if rows >= 1 { rows - 1 } else { 0 },
        l.file_list.row_start == 0 && l.file_list.row_end == l.status_row,
        l.diff_view.row_start == 0 && l.diff_view.row_end == l.status_row,
        l.file_list.col_start == 0,
        l.file_list.col_end == file_list_end(cols as int, file_list_width as int),
        l.diff_view.col_start == l.file_list.col_end,
        l.diff_view.col_end == cols,
{
    let content_rows = rows.saturating_sub(1);
    let w = file_list_width as usize;
    let lim = cols.saturating_sub(1);
    let e1 = if w <= lim {
        w
    } else {
        lim
    };
    let two_thirds = cols / 3 * 2;
    let end = if e1 <= two_thirds {
        e1
    } else {
        two_thirds
    };
    ReviewLayout {
        file_list: PanelRect { row_start: 0, row_end: content_rows, col_start: 0, col_end: end },
        diff_view: PanelRect { row_start: 0, row_end: content_rows, col_start: end, col_end: cols },
        status_row: rows.saturating_sub(1),
    }
}

} // verus!
