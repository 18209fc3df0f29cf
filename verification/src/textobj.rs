//! Vim text objects: which one a key names, and the range it covers.
use crate::engine::Engine;
use crate::keymap::Key;
use crate::motion::{first_from, first_index_from, last_before, last_index_before, line_of};
use crate::text::line_count;
use vstd::prelude::*;

verus! {

/// A text object: a word, the text between two quotes, or between brackets.
#[derive(Debug, Clone, Copy, PartialEq, Eq, Structural)]
pub enum TextObject {
    Word,
    Quote(char),
    Bracket(char, char),
}

/// The text object a key names after `i` or `a`.
pub open spec fn text_object_of(key: Key) -> Option<TextObject> {
    match key {
        Key::Char('w') | Key::Char('W') => Some(TextObject::Word),
        Key::Char('"') => Some(TextObject::Quote('"')),
        Key::Char('\'') => Some(TextObject::Quote('\'')),
        Key::Char('(') | Key::Char(')') | Key::Char('b') => Some(TextObject::Bracket('(', ')')),
        Key::Char('[') | Key::Char(']') => Some(TextObject::Bracket('[', ']')),
        Key::Char('{') | Key::Char('}') | Key::Char('B') => Some(TextObject::Bracket('{', '}')),
        Key::Char('<') | Key::Char('>') => Some(TextObject::Bracket('<', '>')),
        _ => None,
    }
}

pub fn text_object_for(key: Key) -> (r: Option<TextObject>)
    ensures
        r == text_object_of(key),
{
    match key {
        Key::Char('w') | Key::Char('W') => Some(TextObject::Word),
        Key::Char('"') => Some(TextObject::Quote('"')),
        Key::Char('\'') => Some(TextObject::Quote('\'')),
        Key::Char('(') | Key::Char(')') | Key::Char('b') => Some(TextObject::Bracket('(', ')')),
        Key::Char('[') | Key::Char(']') => Some(TextObject::Bracket('[', ']')),
        Key::Char('{') | Key::Char('}') | Key::Char('B') => Some(TextObject::Bracket('{', '}')),
        Key::Char('<') | Key::Char('>') => Some(TextObject::Bracket('<', '>')),
        _ => None,
    }
}

/// The range `[start, end)` an object covers from its delimiters at `o`
/// and `c`: inside them (`inner`) or with them.
pub open spec fn object_range(o: int, c: int, inner: bool) -> (int, int) {
    if inner {
        (o + 1, c)
    } else {
        (o, c + 1)
    }
}

/// The quoted text around `col`: the last `quote` before `col` and the first
/// one after it.
pub open spec fn quote_object_spec(line: Seq<char>, col: int, quote: char, inner: bool) -> Option<(int, int)> {
    match (last_before(line, quote, col), first_from(line, quote, col + 1)) {
        (Some(o), Some(c)) => Some(object_range(o, c, inner)),
        _ => None,
    }
}

/// `i"`, `a'` and the like on a line (`col` at most its length).
pub fn quote_object(line: &Vec<char>, col: usize, quote: char, inner: bool) -> (r: Option<(usize, usize)>)
    requires
        col <= line@.len(),
    ensures
        match r {
            Some((a, b)) => quote_object_spec(line@, col as int, quote, inner) == Some((a as int, b as int)),
            None => quote_object_spec(line@, col as int, quote, inner) is None,
        },
{
    let open = last_index_before(line, quote, col);
    let close = if col < line.len() {
        first_index_from(line, quote, col + 1)
    } else {
        None
    };
    proof {
        if col >= line@.len() {
            assert(first_from(line@, quote, col + 1) is None);
        }
    }
    match (open, close) {
        (Some(o), Some(c)) => {
            proof {
                lemma_first_from_bounds(line@, quote, col + 1);
                lemma_last_before_bounds(line@, quote, col as int);
            }
            if inner {
                Some((o + 1, c))
            } else {
                Some((o, c + 1))
            }
        },
        _ => None,
    }
}

proof fn lemma_first_from_bounds(c: Seq<char>, ch: char, from: int)
    ensures
        first_from(c, ch, from) matches Some(i) ==> from <= i < c.len(),
    decreases c.len() - from,
{
    if 0 <= from < c.len() && c[from] != ch {
        lemma_first_from_bounds(c, ch, from + 1);
    }
}

proof fn lemma_last_before_bounds(c: Seq<char>, ch: char, to: int)
    ensures
        last_before(c, ch, to) matches Some(i) ==> 0 <= i < to && i < c.len(),
    decreases to,
{
    if 0 < to <= c.len() && c[to - 1] != ch {
        lemma_last_before_bounds(c, ch, to - 1);
    }
}

/// Moving left from `i` over blanks (spaces and tabs) before it.
pub open spec fn blanks_before(line: Seq<char>, i: int) -> int
    decreases i,
{
    if 0 < i <= line.len() && (line[i - 1] == ' ' || line[i - 1] == '\t') {
        blanks_before(line, i - 1)
    } else {
        i
    }
}

/// Moving right from `i` over blanks.
pub open spec fn blanks_after(line: Seq<char>, i: int) -> int
    decreases line.len() - i,
{
    if 0 <= i < line.len() && (line[i] == ' ' || line[i] == '\t') {
        blanks_after(line, i + 1)
    } else {
        i
    }
}

/// `aw`: the word `[start, end)` with the blanks on both sides.
pub fn word_around(line: &Vec<char>, start: usize, end: usize) -> (r: (usize, usize))
    requires
        start <= end <= line@.len(),
    ensures
        r.0 == blanks_before(line@, start as int),
        r.1 == blanks_after(line@, end as int),
{
    let mut a = start;
    while a > 0 && (line[a - 1] == ' ' || line[a - 1] == '\t')
        invariant
            a <= start <= line@.len(),
            blanks_before(line@, a as int) == blanks_before(line@, start as int),
        decreases a,
    {
        a -= 1;
    }
    let mut b = end;
    while b < line.len() && (line[b] == ' ' || line[b] == '\t')
        invariant
            end <= b <= line@.len(),
            blanks_after(line@, b as int) == blanks_after(line@, end as int),
        decreases line@.len() - b,
    {
        b += 1;
    }
    (a, b)
}

/// The last `ch` before the cursor, looking back from line `l` (on the
/// cursor line only before the cursor column): line and index.
pub open spec fn open_search(e: Engine, ch: char, l: int) -> Option<(int, int)>
    decreases l,
{
    if l < 1 {
        None
    } else {
        let c = line_of(e, l);
        let lim = if l == e.state.cursor.line && e.state.cursor.col < c.len() {
            e.state.cursor.col as int
        } else {
            c.len() as int
        };
        match last_before(c, ch, lim) {
            Some(i) => Some((l, i)),
            None => open_search(e, ch, l - 1),
        }
    }
}

/// The first `ch` after the cursor, looking on from line `l` to `total`
/// (on the cursor line only after the cursor column): line and index.
pub open spec fn close_search(e: Engine, ch: char, l: int, total: int) -> Option<(int, int)>
    decreases total + 1 - l,
{
    if l > total {
        None
    } else {
        let c = line_of(e, l);
        let from = if l == e.state.cursor.line {
            e.state.cursor.col + 1
        } else {
            0
        };
        match first_from(c, ch, from) {
            Some(i) => Some((l, i)),
            None => close_search(e, ch, l + 1, total),
        }
    }
}

pub proof fn lemma_blanks_bounds(line: Seq<char>, i: int)
    requires
        0 <= i <= line.len(),
    ensures
        0 <= blanks_before(line, i) <= i,
        i <= blanks_after(line, i) <= line.len(),
    decreases line.len() + i,
{
    lemma_blanks_before(line, i);
    lemma_blanks_after(line, i);
}

proof fn lemma_blanks_before(line: Seq<char>, i: int)
    requires
        0 <= i <= line.len(),
    ensures
        0 <= blanks_before(line, i) <= i,
    decreases i,
{
    if 0 < i && (line[i - 1] == ' ' || line[i - 1] == '\t') {
        lemma_blanks_before(line, i - 1);
    }
}

proof fn lemma_blanks_after(line: Seq<char>, i: int)
    requires
        0 <= i <= line.len(),
    ensures
        i <= blanks_after(line, i) <= line.len(),
    decreases line.len() - i,
{
    if i < line.len() && (line[i] == ' ' || line[i] == '\t') {
        lemma_blanks_after(line, i + 1);
    }
}

/// Where the search for an opening bracket stops is on a line at or above
/// `l`, within that line.
pub proof fn lemma_open_search_bounds(e: Engine, ch: char, l: int)
    ensures
        open_search(e, ch, l) matches Some((ol, i)) ==> 1 <= ol <= l && 0 <= i < line_of(e, ol).len(),
    decreases l,
{
    if l >= 1 {
        let c = line_of(e, l);
        let lim = if l == e.state.cursor.line && e.state.cursor.col < c.len() {
            e.state.cursor.col as int
        } else {
            c.len() as int
        };
        lemma_last_before_bounds(c, ch, lim);
        if last_before(c, ch, lim) is None {
            lemma_open_search_bounds(e, ch, l - 1);
        }
    }
}

/// Where the search for a closing bracket stops is on a line from `l` to
/// `total`, within that line.
pub proof fn lemma_close_search_bounds(e: Engine, ch: char, l: int, total: int)
    ensures
        close_search(e, ch, l, total) matches Some((cl, i)) ==> l <= cl <= total && 0 <= i < line_of(e, cl).len(),
    decreases total + 1 - l,
{
    if l <= total {
        let c = line_of(e, l);
        let from = if l == e.state.cursor.line {
            e.state.cursor.col + 1
        } else {
            0
        };
        lemma_first_from_bounds(c, ch, from);
        if first_from(c, ch, from) is None {
            lemma_close_search_bounds(e, ch, l + 1, total);
        }
    }
}

/// The bracket object around the cursor: `(open line, start, close line,
/// end)` of the range it covers.
pub open spec fn bracket_object_spec(e: Engine, open: char, close: char, inner: bool) -> Option<(int, int, int, int)> {
    match (
        open_search(e, open, e.state.cursor.line as int),
        close_search(e, close, e.state.cursor.line as int, line_count(e.buffer.text()) as int),
    ) {
        (Some((ol, o)), Some((cl, c))) => {
            let r = object_range(o, c, inner);
            Some((ol, r.0, cl, r.1))
        },
        _ => None,
    }
}

impl Engine {
    fn find_open(&self, open: char) -> (r: Option<(usize, usize)>)
        ensures
            match r {
                Some((l, i)) => open_search(*self, open, self.state.cursor.line as int) == Some((l as int, i as int)),
                None => open_search(*self, open, self.state.cursor.line as int) is None,
            },
            r matches Some((l, i)) ==> i < usize::MAX,
    {
        let cur = self.state.cursor.line;
        let col = self.state.cursor.col;
        let mut l = cur;
        while l >= 1
            invariant
                l <= cur,
                cur == self.state.cursor.line,
                col == self.state.cursor.col,
                open_search(*self, open, l as int) == open_search(*self, open, cur as int),
            decreases l,
        {
            let chars = self.buffer.line_chars(l);
            let lim = if l == cur && col < chars.len() {
                col
            } else {
                chars.len()
            };
            if let Some(i) = last_index_before(&chars, open, lim) {
                proof {
                    lemma_last_before_bounds(chars@, open, lim as int);
                }
                return Some((l, i));
            }
            l -= 1;
        }
        None
    }

    fn find_close(&self, close: char) -> (r: Option<(usize, usize)>)
        requires
            self.state.cursor.col < usize::MAX,
        ensures
            match r {
                Some((l, i)) => close_search(*self, close, self.state.cursor.line as int, line_count(self.buffer.text()) as int)
                    == Some((l as int, i as int)),
                None => close_search(*self, close, self.state.cursor.line as int, line_count(self.buffer.text()) as int) is None,
            },
            r matches Some((l, i)) ==> i < usize::MAX,
    {
        let cur = self.state.cursor.line;
        let col = self.state.cursor.col;
        let total = self.buffer.line_count();
        let mut k = cur;
        while k <= total
            invariant
                cur <= k,
                cur == self.state.cursor.line,
                col == self.state.cursor.col,
                col < usize::MAX,
                total == line_count(self.buffer.text()),
                close_search(*self, close, k as int, total as int) == close_search(*self, close, cur as int, total as int),
            decreases total + 1 - k,
        {
            let chars = self.buffer.line_chars(k);
            let _n = chars.len();
            let from = if k == cur {
                col + 1
            } else {
                0
            };
            if let Some(i) = first_index_from(&chars, close, from) {
                proof {
                    lemma_first_from_bounds(chars@, close, from as int);
                }
                return Some((k, i));
            }
            if k == total {
                proof {
                    assert(close_search(*self, close, k + 1, total as int) is None);
                    assert(close_search(*self, close, k as int, total as int) is None);
                }
                return None;
            }
            k += 1;
        }
        None
    }

    /// `i(`, `a{` and the like: where the pair of brackets around the cursor
    /// is (the nearest opening one before it and the nearest closing one
    /// after it, nesting not counted), and the range the object covers.
    pub fn bracket_object(&self, open: char, close: char, inner: bool) -> (r: Option<(usize, usize, usize, usize)>)
        requires
            self.state.cursor.col < usize::MAX,
        ensures
            match r {
                Some((a, b, c, d)) => bracket_object_spec(*self, open, close, inner) == Some(
                    (a as int, b as int, c as int, d as int),
                ),
                None => bracket_object_spec(*self, open, close, inner) is None,
            },
    {
        let (ol, o) = match self.find_open(open) {
            Some(p) => p,
            None => {
                return None;
            },
        };
        let (cl, c) = match self.find_close(close) {
            Some(p) => p,
            None => {
                return None;
            },
        };
        if inner {
            Some((ol, o + 1, cl, c))
        } else {
            Some((ol, o, cl, c + 1))
        }
    }
}

} // verus!
