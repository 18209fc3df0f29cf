//! Mathematical model of text: characters, whitespace, and the division of
//! a character sequence into lines.
use vstd::prelude::*;

verus! {

/// The characters that end a line: LF, VT, FF, CR, NEL, LS and PS.
/// A CR directly followed by LF forms one line break together with it.
pub open spec fn is_break_char(c: char) -> bool {
    c == '\n' || c == '\r' || c == '\u{0B}' || c == '\u{0C}' || c == '\u{85}' || c == '\u{2028}'
        || c == '\u{2029}'
}

/// Position `i` of `s` is the last character of a line break.
pub open spec fn ends_line(s: Seq<char>, i: int) -> bool {
    &&& 0 <= i < s.len()
    &&& is_break_char(s[i])
    &&& !(s[i] == '\r' && i + 1 < s.len() && s[i + 1] == '\n')
}

/// The positions, in increasing order, of the line-break ends among the
/// first `n` characters of `s`.
pub open spec fn breaks_upto(s: Seq<char>, n: int) -> Seq<int>
    decreases n,
{
    if n <= 0 {
        Seq::empty()
    } else if ends_line(s, n - 1) {
        breaks_upto(s, n - 1).push(n - 1)
    } else {
        breaks_upto(s, n - 1)
    }
}

pub open spec fn breaks(s: Seq<char>) -> Seq<int> {
    breaks_upto(s, s.len() as int)
}

/// Number of lines: one more than the number of line breaks.
pub open spec fn line_count(s: Seq<char>) -> nat {
    breaks(s).len() + 1
}

/// Index of the first character of line `k` (zero-based).
pub open spec fn line_start(s: Seq<char>, k: int) -> int {
    if k <= 0 {
        0
    } else if k - 1 < breaks(s).len() {
        breaks(s)[k - 1] + 1
    } else {
        s.len() as int
    }
}

/// Index one past the last character of line `k`, its line break included.
pub open spec fn line_end(s: Seq<char>, k: int) -> int {
    if k + 1 < line_count(s) {
        line_start(s, k + 1)
    } else {
        s.len() as int
    }
}

/// The characters of line `k` (zero-based), including its line break.
pub open spec fn line_text(s: Seq<char>, k: int) -> Seq<char> {
    s.subrange(line_start(s, k), line_end(s, k))
}

pub proof fn lemma_breaks_upto(s: Seq<char>, n: int)
    requires
        0 <= n <= s.len(),
    ensures
        forall|i: int| 0 <= i < breaks_upto(s, n).len() ==> 0 <= #[trigger] breaks_upto(s, n)[i] < n,
        forall|i: int, j: int|
            0 <= i < j < breaks_upto(s, n).len() ==> breaks_upto(s, n)[i] < breaks_upto(s, n)[j],
        forall|i: int| 0 <= i < breaks_upto(s, n).len() ==> ends_line(s, #[trigger] breaks_upto(s, n)[i]),
    decreases n,
{
    if n > 0 {
        lemma_breaks_upto(s, n - 1);
        let p = breaks_upto(s, n - 1);
        if ends_line(s, n - 1) {
            let q = p.push(n - 1);
            assert(breaks_upto(s, n) == q);
            assert forall|i: int| 0 <= i < q.len() implies 0 <= #[trigger] q[i] < n by {
                if i < p.len() {
                    assert(q[i] == p[i]);
                }
            }
            assert forall|i: int, j: int| 0 <= i < j < q.len() implies q[i] < q[j] by {
                assert(q[i] == p[i]);
            }
        }
    }
}

/// Lines are consecutive, non-overlapping ranges covering the text.
pub proof fn lemma_line_bounds(s: Seq<char>, k: int)
    requires
        0 <= k < line_count(s),
    ensures
        0 <= line_start(s, k) <= line_end(s, k) <= s.len(),
        k == 0 ==> line_start(s, k) == 0,
        k + 1 == line_count(s) ==> line_end(s, k) == s.len(),
        k + 1 < line_count(s) ==> line_end(s, k) == line_start(s, k + 1),
        k + 1 < line_count(s) ==> line_start(s, k) < line_end(s, k),
{
    lemma_breaks_upto(s, s.len() as int);
}

/// Unicode `White_Space` property.
pub open spec fn is_whitespace_spec(c: char) -> bool {
    let u = c as u32;
    (0x09 <= u <= 0x0D) || u == 0x20 || u == 0x85 || u == 0xA0 || u == 0x1680 || (0x2000 <= u
        <= 0x200A) || u == 0x2028 || u == 0x2029 || u == 0x202F || u == 0x205F || u == 0x3000
}

/// Whether `c` has the Unicode `White_Space` property.
pub fn is_whitespace(c: char) -> (r: bool)
    ensures
        r == is_whitespace_spec(c),
{
    let u = c as u32;
    (0x09 <= u && u <= 0x0D) || u == 0x20 || u == 0x85 || u == 0xA0 || u == 0x1680 || (0x2000 <= u
        && u <= 0x200A) || u == 0x2028 || u == 0x2029 || u == 0x202F || u == 0x205F || u == 0x3000
}

/// Start of the run of non-whitespace characters that ends at `i`:
/// moves left from `i` while the character before is not whitespace.
pub open spec fn scan_left_nonws(c: Seq<char>, i: int) -> int
    decreases i,
{
    if 0 < i <= c.len() && !is_whitespace_spec(c[i - 1]) {
        scan_left_nonws(c, i - 1)
    } else {
        i
    }
}

/// End of the run of non-whitespace characters that starts at `i`:
/// moves right from `i` while the character there is not whitespace.
pub open spec fn scan_right_nonws(c: Seq<char>, i: int) -> int
    decreases c.len() - i,
{
    if 0 <= i < c.len() && !is_whitespace_spec(c[i]) {
        scan_right_nonws(c, i + 1)
    } else {
        i
    }
}

pub proof fn lemma_scan_left(c: Seq<char>, i: int)
    requires
        0 <= i <= c.len(),
    ensures
        0 <= scan_left_nonws(c, i) <= i,
        forall|j: int| scan_left_nonws(c, i) <= j < i ==> !is_whitespace_spec(#[trigger] c[j]),
        scan_left_nonws(c, i) > 0 ==> is_whitespace_spec(c[scan_left_nonws(c, i) - 1]),
    decreases i,
{
    if 0 < i && !is_whitespace_spec(c[i - 1]) {
        lemma_scan_left(c, i - 1);
    }
}

pub proof fn lemma_scan_right(c: Seq<char>, i: int)
    requires
        0 <= i <= c.len(),
    ensures
        i <= scan_right_nonws(c, i) <= c.len(),
        forall|j: int| i <= j < scan_right_nonws(c, i) ==> !is_whitespace_spec(#[trigger] c[j]),
        scan_right_nonws(c, i) < c.len() ==> is_whitespace_spec(c[scan_right_nonws(c, i)]),
    decreases c.len() - i,
{
    if i < c.len() && !is_whitespace_spec(c[i]) {
        lemma_scan_right(c, i + 1);
    }
}

/// ASCII whitespace: space, tab, LF, FF, CR.
pub open spec fn is_ascii_whitespace_spec(c: char) -> bool {
    c == ' ' || c == '\t' || c == '\n' || c == '\u{0C}' || c == '\r'
}

pub fn is_ascii_whitespace(c: char) -> (r: bool)
    ensures
        r == is_ascii_whitespace_spec(c),
{
    c == ' ' || c == '\t' || c == '\n' || c == '\u{0C}' || c == '\r'
}

pub open spec fn is_ascii_digit_spec(c: char) -> bool {
    '0' <= c <= '9'
}

/// ASCII lowercase mapping: `A`..`Z` become `a`..`z`, all else unchanged.
pub open spec fn to_ascii_lowercase_spec(c: char) -> char {
    if 'A' <= c <= 'Z' {
        ((c as u32) + 32) as char
    } else {
        c
    }
}

pub fn to_ascii_lowercase(c: char) -> (r: char)
    ensures
        r == to_ascii_lowercase_spec(c),
{
    match c {
        'A' => 'a', 'B' => 'b', 'C' => 'c', 'D' => 'd', 'E' => 'e', 'F' => 'f', 'G' => 'g',
        'H' => 'h', 'I' => 'i', 'J' => 'j', 'K' => 'k', 'L' => 'l', 'M' => 'm', 'N' => 'n',
        'O' => 'o', 'P' => 'p', 'Q' => 'q', 'R' => 'r', 'S' => 's', 'T' => 't', 'U' => 'u',
        'V' => 'v', 'W' => 'w', 'X' => 'x', 'Y' => 'y', 'Z' => 'z',
        _ => c,
    }
}

} // verus!

verus! {

/// Two texts that agree on their first `m` characters, the last of which is
/// not a CR (whose meaning depends on what follows), have the same line
/// breaks there.
pub proof fn lemma_breaks_same_prefix(a: Seq<char>, b: Seq<char>, m: int, n: int)
    requires
        0 <= n <= m <= a.len(),
        m <= b.len(),
        a.take(m) == b.take(m),
        m == 0 || a[m - 1] != '\r',
    ensures
        breaks_upto(a, n) == breaks_upto(b, n),
    decreases n,
{
    if n > 0 {
        lemma_breaks_same_prefix(a, b, m, n - 1);
        assert(a[n - 1] == a.take(m)[n - 1]);
        assert(b[n - 1] == b.take(m)[n - 1]);
        if n < m {
            assert(a[n] == a.take(m)[n]);
            assert(b[n] == b.take(m)[n]);
        }
        assert(ends_line(a, n - 1) == ends_line(b, n - 1));
    }
}

/// The breaks among the first `n` characters are the first ones among the
/// first `m >= n`; the others lie at `n` or later.
pub proof fn lemma_breaks_upto_prefix(s: Seq<char>, n: int, m: int)
    requires
        0 <= n <= m <= s.len(),
    ensures
        breaks_upto(s, n).len() <= breaks_upto(s, m).len(),
        forall|i: int| 0 <= i < breaks_upto(s, n).len() ==> #[trigger] breaks_upto(s, m)[i] == breaks_upto(s, n)[i],
        forall|i: int| breaks_upto(s, n).len() <= i < breaks_upto(s, m).len() ==> #[trigger] breaks_upto(s, m)[i] >= n,
    decreases m - n,
{
    if m > n {
        lemma_breaks_upto_prefix(s, n, m - 1);
        lemma_breaks_upto(s, m - 1);
    }
}

/// A line that starts at or before position `m` starts at the same place in
/// any text that agrees with `s` on its first `m` characters (the last not a CR).
pub proof fn lemma_line_start_stable(s: Seq<char>, t: Seq<char>, m: int, k: int)
    requires
        0 <= k < line_count(s),
        0 <= m <= s.len(),
        m <= t.len(),
        s.take(m) == t.take(m),
        m == 0 || s[m - 1] != '\r',
        line_start(s, k) <= m,
    ensures
        k < line_count(t),
        line_start(t, k) == line_start(s, k),
{
    if k > 0 {
        lemma_breaks_same_prefix(s, t, m, m);
        lemma_breaks_upto_prefix(s, m, s.len() as int);
        lemma_breaks_upto_prefix(t, m, t.len() as int);
        let bs = breaks(s);
        assert(bs[k - 1] < m);
        if k - 1 >= breaks_upto(s, m).len() {
            assert(bs[k - 1] >= m);
        }
    }
}

} // verus!
