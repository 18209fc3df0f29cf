//! The line-number column at the left of a window.
use crate::chars::{decimal, decimal_chars};
use crate::strutil::string_of;
use vstd::prelude::*;

verus! {

/// `s` right-aligned in `w` columns (spaces in front; longer text stays
/// whole).
pub open spec fn pad_left(s: Seq<char>, w: int) -> Seq<char> {
    if s.len() < w {
        Seq::new((w - s.len()) as nat, |i: int| ' ') + s
    } else {
        s
    }
}

/// The number shown for `line`: the line itself, or with relative numbers
/// its distance from the window's first line `top` (the line itself at
/// distance 0 when absolute numbers are on too).
pub open spec fn shown_number(line: int, top: int, numbers: bool, relative: bool) -> int {
    if relative {
        let d = if line >= top { line - top } else { top - line };
        if d == 0 && numbers {
            line
        } else {
            d
        }
    } else {
        line
    }
}

/// The gutter of `line` in a window whose first line is `top`, for a text
/// of `count` lines: nothing when no numbers are shown; else the shown
/// number right-aligned to the digits of the line count, and two spaces.
pub open spec fn gutter_spec(line: int, top: int, count: int, numbers: bool, relative: bool) -> Seq<char> {
    if !numbers && !relative {
        Seq::empty()
    } else {
        let w = decimal((if count >= 1 { count } else { 1 }) as nat).len() as int;
        pad_left(decimal(shown_number(line, top, numbers, relative) as nat), w) + "  "@
    }
}

/// The gutter text of `line` (see `gutter_spec`).
pub fn gutter_label(line: usize, top: usize, count: usize, numbers: bool, relative: bool) -> (r: String)
    ensures
        r@ == gutter_spec(line as int, top as int, count as int, numbers, relative),
{
    if !numbers && !relative {
        return String::new();
    }
    let w = decimal_chars(if count >= 1 { count } else { 1 }).len();
    let shown = if relative {
        let d = if line >= top { line - top } else { top - line };
        if d == 0 && numbers {
            line
        } else {
            d
        }
    } else {
        line
    };
    let digits = decimal_chars(shown);
    let mut out: Vec<char> = Vec::new();
    let pad = if digits.len() < w { w - digits.len() } else { 0 };
    let mut i: usize = 0;
    while i < pad
        invariant
            i <= pad,
            out@ == Seq::new(i as nat, |j: int| ' '),
        decreases pad - i,
    {
        out.push(' ');
        proof {
            assert(out@ =~= Seq::new((i + 1) as nat, |j: int| ' '));
        }
        i += 1;
    }
    let mut k: usize = 0;
    let ghost head = out@;
    while k < digits.len()
        invariant
            k <= digits@.len(),
            out@ == head + digits@.take(k as int),
        decreases digits@.len() - k,
    {
        out.push(digits[k]);
        proof {
            assert(digits@.take(k + 1) =~= digits@.take(k as int).push(digits@[k as int]));
        }
        k += 1;
    }
    out.push(' ');
    out.push(' ');
    proof {
        reveal_strlit("  ");
        assert(digits@.take(digits@.len() as int) =~= digits@);
        if digits@.len() >= w {
            assert(head =~= Seq::<char>::empty());
        }
        assert(out@ =~= gutter_spec(line as int, top as int, count as int, numbers, relative));
    }
    string_of(out.as_slice())
}

} // verus!
