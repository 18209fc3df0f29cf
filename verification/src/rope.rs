//! The rope that holds a buffer's text (`ropey::Rope`), seen through its
//! character sequence.
use crate::text::{line_count, line_start, line_text};
use ropey::Rope;
use vstd::prelude::*;

verus! {

#[verifier::external_type_specification]
#[verifier::external_body]
pub struct ExRope(ropey::Rope);

/// The characters held by a rope, in order.
pub uninterp spec fn rope_text(r: Rope) -> Seq<char>;

/// `Rope::new`: an empty rope.
#[verifier::external_body]
pub(crate) fn rope_new() -> (r: Rope)
    ensures
        rope_text(r) == Seq::<char>::empty(),
{
    Rope::new()
}

/// `Rope::from_str`: a rope holding exactly the characters of `s`.
#[verifier::external_body]
pub(crate) fn rope_from_str(s: &str) -> (r: Rope)
    ensures
        rope_text(r) == s@,
{
    Rope::from_str(s)
}

/// `Rope::len_chars`: the number of characters.
#[verifier::external_body]
pub(crate) fn rope_len_chars(r: &Rope) -> (n: usize)
    ensures
        n == rope_text(*r).len(),
{
    r.len_chars()
}

/// `Rope::len_lines`: one more than the number of line breaks
/// (LF, CRLF, CR, VT, FF, NEL, LS, PS; a CRLF pair counts once).
#[verifier::external_body]
pub(crate) fn rope_len_lines(r: &Rope) -> (n: usize)
    ensures
        n == line_count(rope_text(*r)),
{
    r.len_lines()
}

/// `Rope::line_to_char`: the character index where line `line` starts;
/// one past the last line gives the length. Panics beyond that.
#[verifier::external_body]
pub(crate) fn rope_line_to_char(r: &Rope, line: usize) -> (n: usize)
    requires
        line <= line_count(rope_text(*r)),
    ensures
        n == line_start(rope_text(*r), line as int),
{
    r.line_to_char(line)
}

/// `Rope::line(..).len_chars()`: the number of characters of line `line`,
/// its line break included. `Rope::line` panics when `line >= len_lines()`.
#[verifier::external_body]
pub(crate) fn rope_line_len_chars(r: &Rope, line: usize) -> (n: usize)
    requires
        line < line_count(rope_text(*r)),
    ensures
        n == line_text(rope_text(*r), line as int).len(),
{
    r.line(line).len_chars()
}

/// `Rope::line(..)` converted to a `String`: the characters of line `line`,
/// its line break included.
#[verifier::external_body]
pub(crate) fn rope_line_string(r: &Rope, line: usize) -> (t: String)
    requires
        line < line_count(rope_text(*r)),
    ensures
        t@ == line_text(rope_text(*r), line as int),
{
    r.line(line).to_string()
}

/// `Rope::line(..).chars()` collected into a vector.
#[verifier::external_body]
pub(crate) fn rope_line_chars(r: &Rope, line: usize) -> (t: Vec<char>)
    requires
        line < line_count(rope_text(*r)),
    ensures
        t@ == line_text(rope_text(*r), line as int),
{
    r.line(line).chars().collect()
}

/// `Rope`'s `to_string`: all characters.
#[verifier::external_body]
pub(crate) fn rope_to_string(r: &Rope) -> (t: String)
    ensures
        t@ == rope_text(*r),
{
    r.to_string()
}

/// `Rope::insert`: puts `s` before character `idx`. Panics when `idx > len_chars()`.
#[verifier::external_body]
pub(crate) fn rope_insert(r: &mut Rope, idx: usize, s: &str)
    requires
        idx <= rope_text(*old(r)).len(),
    ensures
        rope_text(*final(r)) == rope_text(*old(r)).take(idx as int) + s@ + rope_text(
            *old(r),
        ).skip(idx as int),
{
    r.insert(idx, s)
}

/// `Rope::remove(start..end)`: drops the characters in `[start, end)`.
/// Panics when the range is reversed or reaches past the end.
#[verifier::external_body]
pub(crate) fn rope_remove(r: &mut Rope, start: usize, end: usize)
    requires
        start <= end <= rope_text(*old(r)).len(),
    ensures
        rope_text(*final(r)) == rope_text(*old(r)).take(start as int) + rope_text(*old(r)).skip(
            end as int,
        ),
{
    r.remove(start..end)
}

} // verus!
