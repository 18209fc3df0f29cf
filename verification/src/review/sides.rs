//! The side-by-side diff view: each hunk becomes a header row and one row
//! per diff line, the old text on the left and the new text on the right.
use crate::chars::{decimal, push_decimal};
use crate::review::state::{DiffLine, DiffLineKind, DiffLineView, Hunk, HunkView};
use crate::strutil::push_str;
use vstd::prelude::*;

verus! {

/// What one half of a side-by-side row shows.
#[derive(Debug, Clone, Copy, PartialEq, Eq, Structural)]
pub enum SideKind {
    HunkHeader,
    Context,
    Added,
    Deleted,
}

/// One row of the side-by-side view.
#[derive(Debug, Clone)]
pub struct SideRow {
    /// The hunk the row belongs to.
    pub hunk: usize,
    /// Whether that hunk is staged.
    pub staged: bool,
    /// The line the row stands for (new line number, else old), for
    /// annotation marks; `None` for a header.
    pub lineno: Option<usize>,
    pub left_kind: SideKind,
    pub left: String,
    pub right_kind: SideKind,
    pub right: String,
}

/// A side-by-side row as values.
pub struct SideRowView {
    pub hunk: usize,
    pub staged: bool,
    pub lineno: Option<usize>,
    pub left_kind: SideKind,
    pub left: Seq<char>,
    pub right_kind: SideKind,
    pub right: Seq<char>,
}

impl View for SideRow {
    type V = SideRowView;

    open spec fn view(&self) -> SideRowView {
        SideRowView {
            hunk: self.hunk,
            staged: self.staged,
            lineno: self.lineno,
            left_kind: self.left_kind,
            left: self.left@,
            right_kind: self.right_kind,
            right: self.right@,
        }
    }
}

/// The staged mark in front of a hunk header.
pub open spec fn staged_mark(staged: bool) -> Seq<char> {
    if staged {
        "[S] "@
    } else {
        "    "@
    }
}

/// The header row of hunk `i`: `@@ -old_start` on the left, `@@ +new_start`
/// on the right.
pub open spec fn header_row(i: usize, h: HunkView) -> SideRowView {
    SideRowView {
        hunk: i,
        staged: h.staged,
        lineno: None,
        left_kind: SideKind::HunkHeader,
        left: staged_mark(h.staged) + "@@ -"@ + decimal(h.old_start as nat),
        right_kind: SideKind::HunkHeader,
        right: staged_mark(h.staged) + "@@ +"@ + decimal(h.new_start as nat),
    }
}

/// The row of a diff line of hunk `i`: an added line shows on the right
/// with an empty left, a deleted line on the left with an empty right, and
/// a context line on both sides.
pub open spec fn line_row(i: usize, staged: bool, l: DiffLineView) -> SideRowView {
    SideRowView {
        hunk: i,
        staged: staged,
        lineno: if l.new_lineno is Some {
            l.new_lineno
        } else {
            l.old_lineno
        },
        left_kind: match l.kind {
            DiffLineKind::Add => SideKind::Context,
            DiffLineKind::Delete => SideKind::Deleted,
            DiffLineKind::Context => SideKind::Context,
        },
        left: match l.kind {
            DiffLineKind::Add => Seq::empty(),
            _ => l.content,
        },
        right_kind: match l.kind {
            DiffLineKind::Add => SideKind::Added,
            DiffLineKind::Delete => SideKind::Context,
            DiffLineKind::Context => SideKind::Context,
        },
        right: match l.kind {
            DiffLineKind::Delete => Seq::empty(),
            _ => l.content,
        },
    }
}

/// The rows of hunk `i`: its header, then one row per line.
pub open spec fn hunk_rows(i: usize, h: HunkView) -> Seq<SideRowView> {
    seq![header_row(i, h)] + h.lines.map_values(|l: DiffLineView| line_row(i, h.staged, l))
}

/// The rows of the hunks, in order.
pub open spec fn side_rows_spec(hs: Seq<HunkView>) -> Seq<SideRowView>
    decreases hs.len(),
{
    if hs.len() == 0 {
        Seq::empty()
    } else {
        side_rows_spec(hs.drop_last()) + hunk_rows((hs.len() - 1) as usize, hs.last())
    }
}

fn header_of(i: usize, h: &Hunk) -> (r: SideRow)
    ensures
        r@ == header_row(i, h@),
{
    let mut left = String::new();
    let mut right = String::new();
    if h.staged {
        push_str(&mut left, "[S] ");
        push_str(&mut right, "[S] ");
    } else {
        push_str(&mut left, "    ");
        push_str(&mut right, "    ");
    }
    push_str(&mut left, "@@ -");
    push_decimal(&mut left, h.old_start);
    push_str(&mut right, "@@ +");
    push_decimal(&mut right, h.new_start);
    proof {
        assert(left@ =~= staged_mark(h.staged) + "@@ -"@ + decimal(h.old_start as nat));
        assert(right@ =~= staged_mark(h.staged) + "@@ +"@ + decimal(h.new_start as nat));
    }
    SideRow {
        hunk: i,
        staged: h.staged,
        lineno: None,
        left_kind: SideKind::HunkHeader,
        left,
        right_kind: SideKind::HunkHeader,
        right,
    }
}

fn row_of(i: usize, staged: bool, l: &DiffLine) -> (r: SideRow)
    ensures
        r@ == line_row(i, staged, l@),
{
    let lineno = if l.new_lineno.is_some() {
        l.new_lineno
    } else {
        l.old_lineno
    };
    match l.kind {
        DiffLineKind::Add => SideRow {
            hunk: i,
            staged,
            lineno,
            left_kind: SideKind::Context,
            left: String::new(),
            right_kind: SideKind::Added,
            right: l.content.clone(),
        },
        DiffLineKind::Delete => SideRow {
            hunk: i,
            staged,
            lineno,
            left_kind: SideKind::Deleted,
            left: l.content.clone(),
            right_kind: SideKind::Context,
            right: String::new(),
        },
        DiffLineKind::Context => SideRow {
            hunk: i,
            staged,
            lineno,
            left_kind: SideKind::Context,
            left: l.content.clone(),
            right_kind: SideKind::Context,
            right: l.content.clone(),
        },
    }
}

pub open spec fn rows_view(v: Seq<SideRow>) -> Seq<SideRowView> {
    v.map_values(|r: SideRow| r@)
}

pub open spec fn hunks_view(v: Seq<Hunk>) -> Seq<HunkView> {
    v.map_values(|h: Hunk| h@)
}

/// The rows of the side-by-side view of `hunks`: for each hunk a header
/// row, then a row per line pairing the old side with the new side.
pub fn side_by_side_rows(hunks: &[Hunk]) -> (r: Vec<SideRow>)
    ensures
        rows_view(r@) == side_rows_spec(hunks_view(hunks@)),
{
    let mut out: Vec<SideRow> = Vec::new();
    let mut i: usize = 0;
    while i < hunks.len()
        invariant
            0 <= i <= hunks@.len(),
            rows_view(out@) == side_rows_spec(hunks_view(hunks@.take(i as int))),
        decreases hunks@.len() - i,
    {
        let h = &hunks[i];
        let ghost before = rows_view(out@);
        let ghost prev0 = out@;
        let hr = header_of(i, h);
        out.push(hr);
        proof {
            assert(rows_view(out@) =~= rows_view(prev0).push(hr@));
            assert(h@.lines.take(0).map_values(|l: DiffLineView| line_row(i, h.staged, l)) =~= Seq::<SideRowView>::empty());
            assert(rows_view(out@) =~= before + seq![header_row(i, h@)] + h@.lines.take(0).map_values(
                |l: DiffLineView| line_row(i, h.staged, l),
            ));
        }
        let mut j: usize = 0;
        while j < h.lines.len()
            invariant
                0 <= j <= h.lines@.len(),
                i < hunks@.len(),
                *h == hunks@[i as int],
                rows_view(out@) == before + seq![header_row(i, h@)] + h@.lines.take(j as int).map_values(
                    |l: DiffLineView| line_row(i, h.staged, l),
                ),
            decreases h.lines@.len() - j,
        {
            let ghost prev = out@;
            let row = row_of(i, h.staged, &h.lines[j]);
            out.push(row);
            proof {
                assert(rows_view(out@) =~= rows_view(prev).push(row@));
                assert(h@.lines[j as int] == h.lines@[j as int]@);
                assert(h@.lines.take(j + 1).map_values(|l: DiffLineView| line_row(i, h.staged, l))
                    =~= h@.lines.take(j as int).map_values(|l: DiffLineView| line_row(i, h.staged, l)).push(
                    line_row(i, h.staged, h.lines@[j as int]@),
                ));
                assert(rows_view(out@) =~= before + seq![header_row(i, h@)] + h@.lines.take(j + 1).map_values(
                    |l: DiffLineView| line_row(i, h.staged, l),
                ));
            }
            j += 1;
        }
        proof {
            assert(h@.lines.take(j as int) =~= h@.lines);
            let hv = hunks_view(hunks@.take(i + 1));
            assert(hv.drop_last() =~= hunks_view(hunks@.take(i as int)));
            assert(hv.last() == h@);
            assert(rows_view(out@) =~= before + hunk_rows(i, h@));
        }
        i += 1;
    }
    proof {
        assert(hunks@.take(i as int) =~= hunks@);
    }
    out
}

} // verus!
