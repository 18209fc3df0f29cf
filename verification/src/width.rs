//! Display widths of text on the terminal, and how long lines wrap.
use crate::strutil::chars_of;
use unicode_width::{UnicodeWidthChar, UnicodeWidthStr};
use vstd::prelude::*;

verus! {

/// Names the width `UnicodeWidthChar::width` gives `c`.
pub uninterp spec fn char_width_of(c: char) -> Option<usize>;

/// `UnicodeWidthChar::width`: the columns a character takes, none for a
/// control character. Printable ASCII takes one column, the C0 and C1
/// controls none, and no character takes more than three.
#[verifier::external_body]
pub fn char_width(c: char) -> (r: Option<usize>)
    ensures
        r == char_width_of(c),
        c < ' ' ==> r is None,
        ' ' <= c && c < '\u{7F}' ==> r == Some(1usize),
        '\u{7F}' <= c && c < '\u{A0}' ==> r is None,
        r matches Some(w) ==> w <= 3,
{
    UnicodeWidthChar::width(c)
}

/// Names the width `UnicodeWidthStr::width` gives a string.
pub uninterp spec fn str_width_of(s: Seq<char>) -> usize;

/// `UnicodeWidthStr::width`: the columns a string takes (emoji sequences
/// and other combinations counted as a whole). The empty string takes none.
#[verifier::external_body]
pub fn str_width(s: &str) -> (r: usize)
    ensures
        r == str_width_of(s@),
        s@.len() == 0 ==> r == 0,
{
    UnicodeWidthStr::width(s)
}

/// Columns a character takes on screen: none for a line feed or a control
/// character.
pub open spec fn cell_width(c: char) -> nat {
    if c == '\n' {
        0
    } else {
        match char_width_of(c) {
            Some(w) => w as nat,
            None => 0,
        }
    }
}

pub fn char_display_width(ch: char) -> (r: usize)
    ensures
        r == cell_width(ch),
        r <= 3,
{
    if ch == '\n' {
        return 0;
    }
    match char_width(ch) {
        Some(w) => w,
        None => 0,
    }
}

/// A line without its final line feed.
pub open spec fn without_final_nl(s: Seq<char>) -> Seq<char> {
    if s.len() > 0 && s.last() == '\n' {
        s.drop_last()
    } else {
        s
    }
}

/// Display width of a line, its final line feed excluded.
pub fn unicode_width_str(s: &str) -> (r: usize)
    ensures
        r == str_width_of(without_final_nl(s@)),
{
    let cs = chars_of(s);
    if cs.len() > 0 && cs[cs.len() - 1] == '\n' {
        let v = crate::chars::sub_vec(cs.as_slice(), 0, cs.len() - 1);
        let t = crate::strutil::string_of(v.as_slice());
        proof {
            assert(v@ =~= s@.drop_last());
        }
        str_width(t.as_str())
    } else {
        str_width(s)
    }
}

/// Number of screen rows a line takes: one when not wrapping or when the
/// line has no width, else its width divided by `max_width`, rounded up.
pub open spec fn wrapped_rows_spec(width: nat, max_width: nat, wrap: bool) -> nat {
    if !wrap || width == 0 {
        1
    } else {
        ((width + max_width - 1) / max_width as int) as nat
    }
}

/// Number of screen rows a line takes. A wrapped line with some width needs
/// a positive `max_width`.
pub fn wrapped_rows(text: &str, max_width: usize, wrap: bool, tabstop: usize) -> (r: usize)
    requires
        wrap && str_width_of(without_final_nl(text@)) > 0 ==> max_width > 0,
    ensures
        r == wrapped_rows_spec(str_width_of(without_final_nl(text@)) as nat, max_width as nat, wrap),
{
    if !wrap {
        return 1;
    }
    let width = unicode_width_str(text);
    if width == 0 {
        return 1;
    }
    let q = width / max_width;
    let r = if width % max_width != 0 {
        proof {
            assert(q < usize::MAX) by (nonlinear_arith)
                requires
                    max_width > 0,
                    q == width / max_width,
                    width % max_width != 0,
                    width <= usize::MAX,
            ;
        }
        q + 1
    } else {
        q
    };
    proof {
        assert(r == (width + max_width - 1) / (max_width as int)) by (nonlinear_arith)
            requires
                max_width > 0,
                q == width / max_width,
                r == if width % max_width != 0 { q + 1 } else { q as int },
        ;
    }
    r
}

/// Number of screen rows a line takes, or none for a wrapped line with some
/// width and no room (`max_width` 0).
pub fn wrapped_rows_checked(text: &str, max_width: usize, wrap: bool, tabstop: usize) -> (r: Option<usize>)
    ensures
        r is None <==> wrap && str_width_of(without_final_nl(text@)) > 0 && max_width == 0,
        r matches Some(n) ==> n == wrapped_rows_spec(
            str_width_of(without_final_nl(text@)) as nat,
            max_width as nat,
            wrap,
        ),
{
    if wrap && max_width == 0 && unicode_width_str(text) > 0 {
        None
    } else {
        Some(wrapped_rows(text, max_width, wrap, tabstop))
    }
}

/// Segment number and width used in the last segment after the first `n`
/// characters, segments being at most `width` columns (a character wider
/// than that gets a segment of its own).
pub open spec fn seg_walk(cs: Seq<char>, n: int, width: nat) -> (nat, nat)
    decreases n,
{
    if n <= 0 {
        (0, 0)
    } else {
        let prev = seg_walk(cs, n - 1, width);
        let c = cell_width(cs[n - 1]);
        if prev.1 + c > width {
            (prev.0 + 1, c)
        } else {
            (prev.0, prev.1 + c)
        }
    }
}

/// Which segment column `col` of the line falls into, segments being
/// `content_width` columns wide.
pub open spec fn segment_for_col_spec(cs: Seq<char>, col: int, content_width: nat) -> nat {
    if content_width == 0 {
        0
    } else {
        seg_walk(cs, if col < cs.len() { col } else { cs.len() as int }, content_width).0
    }
}

/// Which wrapped segment column `col` of `line` falls into.
pub fn find_segment_for_col(line: &str, col: usize, content_width: usize, tabstop: usize) -> (r: usize)
    requires
        line@.len() <= usize::MAX / 4,
    ensures
        r == segment_for_col_spec(line@, col as int, content_width as nat),
{
    if content_width == 0 {
        return 0;
    }
    let cs = chars_of(line);
    let mut seg_idx: usize = 0;
    let mut w: usize = 0;
    let mut i: usize = 0;
    while i < cs.len() && i < col
        invariant
            cs@ == line@,
            cs@.len() <= usize::MAX / 4,
            0 <= i <= cs@.len(),
            i <= col || i == 0,
            (seg_idx as nat, w as nat) == seg_walk(cs@, i as int, content_width as nat),
            seg_idx <= i,
            w <= 3 * i,
        decreases cs@.len() - i,
    {
        let cw = char_display_width(cs[i]);
        if w + cw > content_width {
            seg_idx += 1;
            w = 0;
        }
        w += cw;
        i += 1;
    }
    seg_idx
}

/// The first character index at which segment `seg_idx` starts (0 when no
/// character starts it).
pub open spec fn segment_start_from(cs: Seq<char>, i: int, seg_idx: nat, content_width: nat) -> int
    decreases cs.len() - i,
{
    if i < 0 || i >= cs.len() {
        0
    } else if seg_walk(cs, i, content_width).0 == seg_idx {
        i
    } else {
        segment_start_from(cs, i + 1, seg_idx, content_width)
    }
}

/// The character index at which wrapped segment `seg_idx` of `line` starts.
pub fn find_segment_start_col(line: &str, seg_idx: usize, content_width: usize, tabstop: usize) -> (r: usize)
    requires
        line@.len() <= usize::MAX / 4,
    ensures
        r == segment_start_from(line@, 0, seg_idx as nat, content_width as nat),
{
    let cs = chars_of(line);
    let mut seg: usize = 0;
    let mut w: usize = 0;
    let mut i: usize = 0;
    while i < cs.len()
        invariant
            cs@ == line@,
            cs@.len() <= usize::MAX / 4,
            0 <= i <= cs@.len(),
            (seg as nat, w as nat) == seg_walk(cs@, i as int, content_width as nat),
            seg <= i,
            w <= 3 * i,
            segment_start_from(cs@, i as int, seg_idx as nat, content_width as nat)
                == segment_start_from(cs@, 0, seg_idx as nat, content_width as nat),
        decreases cs@.len() - i,
    {
        if seg == seg_idx {
            return i;
        }
        let cw = char_display_width(cs[i]);
        if w + cw > content_width {
            seg += 1;
            w = 0;
        }
        w += cw;
        i += 1;
    }
    0
}

/// Total width of the characters with index in `[lo, hi)` among the first `n`.
pub open spec fn width_between(cs: Seq<char>, n: int, lo: int, hi: int) -> nat
    decreases n,
{
    if n <= 0 {
        0
    } else {
        width_between(cs, n - 1, lo, hi) + if lo <= n - 1 < hi {
            cell_width(cs[n - 1])
        } else {
            0
        }
    }
}

/// Screen column of `cursor_col` within the segment starting at
/// `segment_start_col`: the width of the characters between them.
pub fn display_col_within_segment(line: &str, cursor_col: usize, segment_start_col: usize, tabstop: usize) -> (r: usize)
    requires
        line@.len() <= usize::MAX / 4,
    ensures
        r == width_between(line@, line@.len() as int, segment_start_col as int, cursor_col as int),
{
    let cs = chars_of(line);
    let mut dcol: usize = 0;
    let mut i: usize = 0;
    while i < cs.len()
        invariant
            cs@ == line@,
            cs@.len() <= usize::MAX / 4,
            0 <= i <= cs@.len(),
            dcol == width_between(cs@, i as int, segment_start_col as int, cursor_col as int),
            dcol <= 3 * i,
        decreases cs@.len() - i,
    {
        if !(i >= cursor_col || i < segment_start_col) {
            dcol += char_display_width(cs[i]);
        }
        i += 1;
    }
    dcol
}

} // verus!
