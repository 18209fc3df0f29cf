//! Cursor motions: by character, line, page and word, to a character on
//! the line, and to the matching bracket.
use crate::buffer::get_line_spec;
use crate::chars::skip_ws;
use crate::engine::Engine;
use crate::text::{is_whitespace, is_whitespace_spec, line_count, scan_left_nonws, scan_right_nonws};
use crate::types::{EditorState, Position};
use vstd::prelude::*;

verus! {

/// `a - b`, or 0 when `b > a`.
pub open spec fn sat(a: int, b: int) -> int {
    if a >= b {
        a - b
    } else {
        0
    }
}

pub open spec fn min_i(a: int, b: int) -> int {
    if a <= b {
        a
    } else {
        b
    }
}

pub open spec fn max_i(a: int, b: int) -> int {
    if a >= b {
        a
    } else {
        b
    }
}

/// The engine with only the cursor moved.
pub open spec fn moved(e: Engine, line: int, col: int) -> Engine {
    Engine { state: EditorState { cursor: Position { line: line as usize, col: col as usize }, ..e.state }, ..e }
}

/// Characters of the one-based line `l` (its line break included).
pub open spec fn line_of(e: Engine, l: int) -> Seq<char> {
    get_line_spec(e.buffer.text(), l)
}

/// Start of the next word at or after `col`: past the whitespace, then past
/// the word there.
pub open spec fn word_forward_spec(c: Seq<char>, col: int) -> int {
    scan_right_nonws(c, skip_ws(c, col))
}

/// Moving left from `i` over whitespace (the character at `i` included).
pub open spec fn back_over_ws(c: Seq<char>, i: int) -> int
    decreases i,
{
    if i > 0 && i < c.len() && is_whitespace_spec(c[i]) {
        back_over_ws(c, i - 1)
    } else {
        i
    }
}

pub proof fn lemma_back_over_ws(c: Seq<char>, i: int)
    requires
        0 <= i < c.len(),
    ensures
        0 <= back_over_ws(c, i) <= i,
    decreases i,
{
    if i > 0 && is_whitespace_spec(c[i]) {
        lemma_back_over_ws(c, i - 1);
    }
}

proof fn lemma_skip_scan(c: Seq<char>, i: int)
    requires
        0 <= i,
    ensures
        skip_ws(c, i) >= i,
        scan_right_nonws(c, skip_ws(c, i)) >= skip_ws(c, i),
        i <= c.len() ==> scan_right_nonws(c, skip_ws(c, i)) <= c.len(),
{
    if i <= c.len() {
        crate::chars::lemma_skip_ws(c, i);
        crate::text::lemma_scan_right(c, skip_ws(c, i));
    } else {
        assert(skip_ws(c, i) == i);
        assert(scan_right_nonws(c, i) == i);
    }
}

/// `post` is `pre` after a page up of `rows` rows.
pub open spec fn pages_up(pre: Engine, post: Engine, rows: usize) -> bool {
    &&& (({
        let l = max_i(sat(pre.state.cursor.line as int, rows as int), 1);
        let len = vstd::utf8::encode_utf8(line_of(pre, l)).len() as usize;
        post == moved(pre, l, min_i(pre.state.cursor.col as int, sat(len as int, 1)))
    }))
}

/// `post` is `pre` after a page down of `rows` rows.
pub open spec fn pages_down(pre: Engine, post: Engine, rows: usize) -> bool {
    &&& (({
        let l = max_i(min_i(pre.state.cursor.line + rows, line_count(pre.buffer.text()) as int), 1);
        let len = vstd::utf8::encode_utf8(line_of(pre, l)).len() as usize;
        post == moved(pre, l, min_i(pre.state.cursor.col as int, sat(len as int, 1)))
    }))
}

/// `post` is `pre` with the cursor at the start of the next word.
pub open spec fn moves_word_forward(pre: Engine, post: Engine) -> bool {
    &&& (({
        let c = line_of(pre, pre.state.cursor.line as int);
        let i = word_forward_spec(c, pre.state.cursor.col as int);
        post == if i < c.len() {
            moved(pre, pre.state.cursor.line as int, i)
        } else {
            pre
        }
    }))
}

/// `post` is `pre` with the cursor at the start of the previous word.
pub open spec fn moves_word_backward(pre: Engine, post: Engine) -> bool {
    &&& (({
        let c = line_of(pre, pre.state.cursor.line as int);
        let col = pre.state.cursor.col as int;
        post == if col == 0 {
            pre
        } else {
            moved(pre, pre.state.cursor.line as int, scan_left_nonws(c, back_over_ws(c, col - 1)))
        }
    }))
}

impl Engine {
    /// Down a screenful of `rows` lines; the column is kept within the line
    /// (measured in bytes, its line break included).
    pub fn page_down(&mut self, rows: usize)
        requires
            old(self).state.cursor.line + rows <= usize::MAX,
        ensures
            pages_down(*old(self), *final(self), rows),
    {
        let line_count = self.buffer.line_count();
        let l = self.state.cursor.line + rows;
        let l = if l <= line_count {
            l
        } else {
            line_count
        };
        let l = if l >= 1 {
            l
        } else {
            1
        };
        self.state.cursor.line = l;
        let len = self.buffer.get_line(l).as_str().len();
        let lim = len.saturating_sub(1);
        if self.state.cursor.col > lim {
            self.state.cursor.col = lim;
        }
    }

    /// Up a screenful of `rows` lines.
    pub fn page_up(&mut self, rows: usize)
        ensures
            pages_up(*old(self), *final(self), rows),
    {
        let l = self.state.cursor.line.saturating_sub(rows);
        let l = if l >= 1 {
            l
        } else {
            1
        };
        self.state.cursor.line = l;
        let len = self.buffer.get_line(l).as_str().len();
        let lim = len.saturating_sub(1);
        if self.state.cursor.col > lim {
            self.state.cursor.col = lim;
        }
    }

    /// Moves the cursor line by `lines`, staying within the buffer.
    pub fn scroll_by(&mut self, lines: usize, forward: bool)
        requires
            forward ==> old(self).state.cursor.line + lines <= usize::MAX,
        ensures
            *final(self) == moved(
                *old(self),
                if forward {
                    max_i(min_i(old(self).state.cursor.line + lines, line_count(old(self).buffer.text()) as int), 1)
                } else {
                    max_i(sat(old(self).state.cursor.line as int, lines as int), 1)
                },
                old(self).state.cursor.col as int,
            ),
    {
        if forward {
            let lc = self.buffer.line_count();
            let l = self.state.cursor.line + lines;
            let l = if l <= lc {
                l
            } else {
                lc
            };
            self.state.cursor.line = if l >= 1 {
                l
            } else {
                1
            };
        } else {
            let l = self.state.cursor.line.saturating_sub(lines);
            self.state.cursor.line = if l >= 1 {
                l
            } else {
                1
            };
        }
    }

    /// Up a screenful.
    pub fn scroll_up(&mut self, rows: usize)
        ensures
            *final(self) == moved(
                *old(self),
                max_i(sat(old(self).state.cursor.line as int, rows as int), 1),
                old(self).state.cursor.col as int,
            ),
    {
        self.scroll_by(rows, false);
    }

    /// Down a screenful.
    pub fn scroll_down(&mut self, rows: usize)
        requires
            old(self).state.cursor.line + rows <= usize::MAX,
        ensures
            *final(self) == moved(
                *old(self),
                max_i(min_i(old(self).state.cursor.line + rows, line_count(old(self).buffer.text()) as int), 1),
                old(self).state.cursor.col as int,
            ),
    {
        self.scroll_by(rows, true);
    }

    /// Up one line, unless on the first.
    pub fn scroll_up_one(&mut self)
        ensures
            *final(self) == if old(self).state.cursor.line > 1 {
                moved(*old(self), old(self).state.cursor.line - 1, old(self).state.cursor.col as int)
            } else {
                *old(self)
            },
    {
        if self.state.cursor.line > 1 {
            self.state.cursor.line = self.state.cursor.line - 1;
        }
    }

    /// Down one line, unless on the last.
    pub fn scroll_down_one(&mut self)
        ensures
            *final(self) == if old(self).state.cursor.line < line_count(old(self).buffer.text()) {
                moved(*old(self), old(self).state.cursor.line + 1, old(self).state.cursor.col as int)
            } else {
                *old(self)
            },
    {
        let lc = self.buffer.line_count();
        if self.state.cursor.line < lc {
            self.state.cursor.line = self.state.cursor.line + 1;
        }
    }

    /// Puts the cursor line half a screen (of `rows` minus the two status
    /// rows) higher, at least on line 1.
    pub fn scroll_cursor_to_center(&mut self, rows: usize)
        ensures
            *final(self) == moved(
                *old(self),
                max_i(sat(old(self).state.cursor.line as int, sat(rows as int, 2) / 2), 1),
                old(self).state.cursor.col as int,
            ),
    {
        let visible = rows.saturating_sub(2);
        let l = self.state.cursor.line.saturating_sub(visible / 2);
        self.state.cursor.line = if l >= 1 {
            l
        } else {
            1
        };
    }

    /// To the first line.
    pub fn scroll_cursor_to_top(&mut self)
        ensures
            *final(self) == moved(*old(self), 1, old(self).state.cursor.col as int),
    {
        self.state.cursor.line = 1;
    }

    /// To the line a screen (of `rows` minus the two status rows) above the
    /// end of the buffer.
    pub fn scroll_cursor_to_bottom(&mut self, rows: usize)
        requires
            sat(line_count(old(self).buffer.text()) as int, sat(rows as int, 2)) < usize::MAX,
        ensures
            *final(self) == moved(
                *old(self),
                max_i(sat(line_count(old(self).buffer.text()) as int, sat(rows as int, 2)) + 1, 1),
                old(self).state.cursor.col as int,
            ),
    {
        let visible = rows.saturating_sub(2);
        let lc = self.buffer.line_count();
        let l = lc.saturating_sub(visible) + 1;
        self.state.cursor.line = if l >= 1 {
            l
        } else {
            1
        };
    }

    /// Right by `n` characters, at most to the last one of the line.
    pub fn cursor_right(&mut self, n: usize)
        requires
            old(self).state.cursor.col + n <= usize::MAX,
        ensures
            *final(self) == moved(
                *old(self),
                old(self).state.cursor.line as int,
                min_i(old(self).state.cursor.col + n, sat(line_of(*old(self), old(self).state.cursor.line as int).len() as int, 1)),
            ),
    {
        let len = self.buffer.line_char_len(self.state.cursor.line);
        let c = self.state.cursor.col + n;
        let lim = len.saturating_sub(1);
        self.state.cursor.col = if c <= lim {
            c
        } else {
            lim
        };
    }

    /// Left by `n` characters, at most to the first.
    pub fn cursor_left(&mut self, n: usize)
        ensures
            *final(self) == moved(
                *old(self),
                old(self).state.cursor.line as int,
                sat(old(self).state.cursor.col as int, n as int),
            ),
    {
        self.state.cursor.col = self.state.cursor.col.saturating_sub(n);
    }

    /// Down by `n` lines, at most to the last; the column is kept within
    /// the new line.
    pub fn cursor_down(&mut self, n: usize)
        requires
            old(self).state.cursor.line + n <= usize::MAX,
        ensures
            ({
                let l = min_i(old(self).state.cursor.line + n, line_count(old(self).buffer.text()) as int);
                *final(self) == moved(*old(self), l, min_i(old(self).state.cursor.col as int, sat(line_of(*old(self), l).len() as int, 1)))
            }),
    {
        let lc = self.buffer.line_count();
        let l = self.state.cursor.line + n;
        let l = if l <= lc {
            l
        } else {
            lc
        };
        self.state.cursor.line = l;
        let len = self.buffer.line_char_len(l);
        let lim = len.saturating_sub(1);
        if self.state.cursor.col > lim {
            self.state.cursor.col = lim;
        }
    }

    /// Up by `n` lines, at most to the first; the column is kept within the
    /// new line.
    pub fn cursor_up(&mut self, n: usize)
        ensures
            ({
                let l = max_i(sat(old(self).state.cursor.line as int, n as int), 1);
                *final(self) == moved(*old(self), l, min_i(old(self).state.cursor.col as int, sat(line_of(*old(self), l).len() as int, 1)))
            }),
    {
        let l = self.state.cursor.line.saturating_sub(n);
        let l = if l >= 1 {
            l
        } else {
            1
        };
        self.state.cursor.line = l;
        let len = self.buffer.line_char_len(l);
        let lim = len.saturating_sub(1);
        if self.state.cursor.col > lim {
            self.state.cursor.col = lim;
        }
    }

    /// To the first column.
    pub fn cursor_line_start(&mut self)
        ensures
            *final(self) == moved(*old(self), old(self).state.cursor.line as int, 0),
    {
        self.state.cursor.col = 0;
    }

    /// To the last character of the line (its line break counted).
    pub fn cursor_line_end(&mut self)
        ensures
            *final(self) == moved(
                *old(self),
                old(self).state.cursor.line as int,
                sat(line_of(*old(self), old(self).state.cursor.line as int).len() as int, 1),
            ),
    {
        let len = self.buffer.line_char_len(self.state.cursor.line);
        self.state.cursor.col = len.saturating_sub(1);
    }

    /// To the start of the next word on the line (`w`): past the whitespace
    /// and then the word under the cursor; the cursor stays when that runs
    /// off the end of the line.
    pub fn move_word_forward(&mut self)
        ensures
            moves_word_forward(*old(self), *final(self)),
    {
        let chars = self.buffer.line_chars(self.state.cursor.line);
        let ghost c = chars@;
        let col = self.state.cursor.col;
        proof {
            lemma_skip_scan(c, col as int);
        }
        let mut i = col;
        while i < chars.len() && is_whitespace(chars[i])
            invariant
                c == chars@,
                col <= i,
                skip_ws(c, i as int) == skip_ws(c, col as int),
            decreases chars@.len() - i,
        {
            i += 1;
        }
        while i < chars.len() && !is_whitespace(chars[i])
            invariant
                c == chars@,
                scan_right_nonws(c, i as int) == word_forward_spec(c, col as int),
            decreases chars@.len() - i,
        {
            i += 1;
        }
        if i < chars.len() {
            self.state.cursor.col = i;
        }
    }

    /// To the start of the word before the cursor (`b`). The cursor must not
    /// be more than one past the end of the line.
    pub fn move_word_backward(&mut self)
        requires
            ({
                let col = old(self).state.cursor.col;
                col < 2 || col - 1 < line_of(*old(self), old(self).state.cursor.line as int).len()
            }),
        ensures
            moves_word_backward(*old(self), *final(self)),
    {
        let chars = self.buffer.line_chars(self.state.cursor.line);
        let ghost c = chars@;
        let col = self.state.cursor.col;
        if col == 0 {
            return;
        }
        let mut i = col - 1;
        while i > 0 && is_whitespace(chars[i])
            invariant
                c == chars@,
                i < col,
                i == 0 || i < c.len(),
                col < 2 || col - 1 < c.len(),
                back_over_ws(c, i as int) == back_over_ws(c, col - 1),
            decreases i,
        {
            i -= 1;
        }
        proof {
            if i > 0 {
                assert(back_over_ws(c, i as int) == i);
            } else {
                assert(back_over_ws(c, 0) == 0);
            }
        }
        while i > 0 && !is_whitespace(chars[i - 1])
            invariant
                c == chars@,
                i == 0 || i <= c.len(),
                scan_left_nonws(c, i as int) == scan_left_nonws(c, back_over_ws(c, col - 1)),
            decreases i,
        {
            i -= 1;
        }
        self.state.cursor.col = i;
    }

    /// To the end of the current or next word (`e`).
    pub fn move_word_end(&mut self)
        ensures
            ({
                let c = line_of(*old(self), old(self).state.cursor.line as int);
                let i = word_forward_spec(c, old(self).state.cursor.col as int);
                *final(self) == if i > 0 && i <= c.len() {
                    moved(*old(self), old(self).state.cursor.line as int, i - 1)
                } else {
                    *old(self)
                }
            }),
    {
        let chars = self.buffer.line_chars(self.state.cursor.line);
        let ghost c = chars@;
        let col = self.state.cursor.col;
        proof {
            lemma_skip_scan(c, col as int);
        }
        let mut i = col;
        while i < chars.len() && is_whitespace(chars[i])
            invariant
                c == chars@,
                col <= i,
                skip_ws(c, i as int) == skip_ws(c, col as int),
            decreases chars@.len() - i,
        {
            i += 1;
        }
        while i < chars.len() && !is_whitespace(chars[i])
            invariant
                c == chars@,
                scan_right_nonws(c, i as int) == word_forward_spec(c, col as int),
            decreases chars@.len() - i,
        {
            i += 1;
        }
        if i > 0 && i <= chars.len() {
            self.state.cursor.col = i - 1;
        }
    }
}

/// First index at or after `from` holding `ch`.
pub open spec fn first_from(c: Seq<char>, ch: char, from: int) -> Option<int>
    decreases c.len() - from,
{
    if from < 0 || from >= c.len() {
        None
    } else if c[from] == ch {
        Some(from)
    } else {
        first_from(c, ch, from + 1)
    }
}

/// Last index before `to` holding `ch`.
pub open spec fn last_before(c: Seq<char>, ch: char, to: int) -> Option<int>
    decreases to,
{
    if to <= 0 || to > c.len() {
        None
    } else if c[to - 1] == ch {
        Some(to - 1)
    } else {
        last_before(c, ch, to - 1)
    }
}

/// The first line from `l` to `total` holding `ch`.
pub open spec fn first_line_with(e: Engine, ch: char, l: int, total: int) -> Option<int>
    decreases total + 1 - l,
{
    if l < 1 || l > total {
        None
    } else if first_from(line_of(e, l), ch, 0) is Some {
        Some(l)
    } else {
        first_line_with(e, ch, l + 1, total)
    }
}

/// The last line from `l` down to 1 holding `ch`.
pub open spec fn last_line_with(e: Engine, ch: char, l: int) -> Option<int>
    decreases l,
{
    if l < 1 {
        None
    } else if last_before(line_of(e, l), ch, line_of(e, l).len() as int) is Some {
        Some(l)
    } else {
        last_line_with(e, ch, l - 1)
    }
}

proof fn lemma_first_from_finds(c: Seq<char>, ch: char, from: int, i: int)
    requires
        0 <= from <= i < c.len(),
        c[i] == ch,
        forall|k: int| from <= k < i ==> c[k] != ch,
    ensures
        first_from(c, ch, from) == Some(i),
    decreases i - from,
{
    if from < i {
        lemma_first_from_finds(c, ch, from + 1, i);
    }
}

proof fn lemma_last_before_finds(c: Seq<char>, ch: char, to: int, i: int)
    requires
        0 <= i < to <= c.len(),
        c[i] == ch,
        forall|k: int| i < k < to ==> c[k] != ch,
    ensures
        last_before(c, ch, to) == Some(i),
    decreases to - i,
{
    if i < to - 1 {
        lemma_last_before_finds(c, ch, to - 1, i);
    }
}

proof fn lemma_first_from_none(c: Seq<char>, ch: char, from: int)
    requires
        0 <= from,
        forall|k: int| from <= k < c.len() ==> c[k] != ch,
    ensures
        first_from(c, ch, from) is None,
    decreases c.len() - from,
{
    if from < c.len() {
        lemma_first_from_none(c, ch, from + 1);
    }
}

proof fn lemma_first_line_finds(e: Engine, ch: char, l0: int, total: int, l: int, j: int)
    requires
        1 <= l0 <= l <= total,
        0 <= j < line_of(e, l).len(),
        line_of(e, l)[j] == ch,
        forall|k: int| 0 <= k < j ==> line_of(e, l)[k] != ch,
        forall|m: int, k: int| l0 <= m < l && 0 <= k < line_of(e, m).len() ==> #[trigger] line_of(e, m)[k] != ch,
    ensures
        first_line_with(e, ch, l0, total) == Some(l),
        first_from(line_of(e, l), ch, 0) == Some(j),
    decreases l - l0,
{
    lemma_first_from_finds(line_of(e, l), ch, 0, j);
    if l0 < l {
        assert forall|k: int| 0 <= k < line_of(e, l0).len() implies line_of(e, l0)[k] != ch by {
            assert(line_of(e, l0)[k] != ch);
        }
        lemma_first_from_none(line_of(e, l0), ch, 0);
        lemma_first_line_finds(e, ch, l0 + 1, total, l, j);
    }
}

proof fn lemma_first_line_none(e: Engine, ch: char, l0: int, total: int)
    requires
        1 <= l0,
        forall|m: int, k: int| l0 <= m <= total && 0 <= k < line_of(e, m).len() ==> #[trigger] line_of(e, m)[k] != ch,
    ensures
        first_line_with(e, ch, l0, total) is None,
    decreases total + 1 - l0,
{
    if l0 <= total {
        assert forall|k: int| 0 <= k < line_of(e, l0).len() implies line_of(e, l0)[k] != ch by {
            assert(line_of(e, l0)[k] != ch);
        }
        lemma_first_from_none(line_of(e, l0), ch, 0);
        lemma_first_line_none(e, ch, l0 + 1, total);
    }
}

/// Where `f`/`t` (forward) or `F`/`T` (backward) for `ch` puts the cursor:
/// the nearest occurrence on the line, else on the nearest line holding it
/// (a `t` that crosses lines stops at the end of the line before, a `T` at
/// the start of the line after).
pub open spec fn find_char_target(e: Engine, ch: char, till: bool, forward: bool) -> Option<(int, int)> {
    let cur = e.state.cursor.line as int;
    let col = e.state.cursor.col as int;
    let c = line_of(e, cur);
    if forward {
        match first_from(c, ch, col + 1) {
            Some(i) => Some((cur, if till { sat(i, 1) } else { i })),
            None => match first_line_with(e, ch, cur + 1, line_count(e.buffer.text()) as int) {
                Some(l) => Some(
                    (
                        l,
                        if till {
                            if l > 1 {
                                sat(line_of(e, l - 1).len() as int, 1)
                            } else {
                                0
                            }
                        } else {
                            first_from(line_of(e, l), ch, 0)->Some_0
                        },
                    ),
                ),
                None => None,
            },
        }
    } else {
        match last_before(c, ch, col) {
            Some(i) => Some((cur, if till { min_i(i + 1, sat(c.len() as int, 1)) } else { i })),
            None => if cur > 1 {
                match last_line_with(e, ch, cur - 1) {
                    Some(l) => Some(
                        (
                            l,
                            if till {
                                0
                            } else {
                                last_before(line_of(e, l), ch, line_of(e, l).len() as int)->Some_0
                            },
                        ),
                    ),
                    None => None,
                }
            } else {
                None
            },
        }
    }
}

pub(crate) fn first_index_from(v: &Vec<char>, ch: char, from: usize) -> (r: Option<usize>)
    ensures
        match r {
            Some(i) => first_from(v@, ch, from as int) == Some(i as int),
            None => first_from(v@, ch, from as int) is None,
        },
{
    let mut i = from;
    while i < v.len()
        invariant
            from <= i,
            first_from(v@, ch, i as int) == first_from(v@, ch, from as int),
        decreases v@.len() - i,
    {
        if v[i] == ch {
            return Some(i);
        }
        i += 1;
    }
    None
}

pub(crate) fn last_index_before(v: &Vec<char>, ch: char, to: usize) -> (r: Option<usize>)
    requires
        to <= v@.len(),
    ensures
        match r {
            Some(i) => last_before(v@, ch, to as int) == Some(i as int),
            None => last_before(v@, ch, to as int) is None,
        },
{
    let mut i = to;
    while i > 0
        invariant
            i <= to <= v@.len(),
            last_before(v@, ch, i as int) == last_before(v@, ch, to as int),
        decreases i,
    {
        if v[i - 1] == ch {
            return Some(i - 1);
        }
        i -= 1;
    }
    None
}

impl Engine {
    /// `f`, `t` (forward) and `F`, `T` (backward) for `ch`; whether it was found.
    pub fn find_char(&mut self, ch: char, till: bool, forward: bool) -> (r: bool)
        requires
            forward ==> old(self).state.cursor.col < usize::MAX && old(self).state.cursor.line < usize::MAX,
            !forward ==> old(self).state.cursor.col <= line_of(*old(self), old(self).state.cursor.line as int).len(),
        ensures
            r == find_char_target(*old(self), ch, till, forward) is Some,
            *final(self) == match find_char_target(*old(self), ch, till, forward) {
                Some(t) => moved(*old(self), t.0, t.1),
                None => *old(self),
            },
    {
        let current_line = self.state.cursor.line;
        let start_col = self.state.cursor.col;
        let total_lines = self.buffer.line_count();
        let ghost e0 = *self;
        if forward {
            let chars = self.buffer.line_chars(current_line);
            if let Some(i) = first_index_from(&chars, ch, start_col + 1) {
                self.state.cursor.col = if till {
                    i.saturating_sub(1)
                } else {
                    i
                };
                return true;
            }
            let mut line_idx = current_line + 1;
            while line_idx <= total_lines
                invariant
                    *self == e0,
                    e0 == *old(self),
                    forward,
                    total_lines == line_count(e0.buffer.text()),
                    current_line + 1 <= line_idx,
                    current_line == e0.state.cursor.line,
                    start_col == e0.state.cursor.col,
                    first_from(line_of(e0, current_line as int), ch, start_col + 1) is None,
                    first_line_with(e0, ch, line_idx as int, total_lines as int)
                        == first_line_with(e0, ch, current_line + 1, total_lines as int),
                decreases total_lines + 1 - line_idx,
            {
                let lc = self.buffer.line_chars(line_idx);
                if let Some(i) = first_index_from(&lc, ch, 0) {
                    proof {
                        assert(lc@ == line_of(e0, line_idx as int));
                        assert(first_line_with(e0, ch, line_idx as int, total_lines as int) == Some(line_idx as int));
                    }
                    self.state.cursor.line = line_idx;
                    if till {
                        if line_idx > 1 {
                            let prev = self.buffer.line_chars(line_idx - 1);
                            self.state.cursor.col = prev.len().saturating_sub(1);
                        } else {
                            self.state.cursor.col = 0;
                        }
                    } else {
                        self.state.cursor.col = i;
                    }
                    return true;
                }
                if line_idx >= total_lines {
                    proof {
                        assert(first_line_with(e0, ch, line_idx + 1, total_lines as int) is None);
                    }
                    return false;
                }
                line_idx += 1;
            }
            false
        } else {
            let chars = self.buffer.line_chars(current_line);
            if let Some(i) = last_index_before(&chars, ch, start_col) {
                let lim = chars.len().saturating_sub(1);
                self.state.cursor.col = if till {
                    if i < lim {
                        i + 1
                    } else {
                        lim
                    }
                } else {
                    i
                };
                return true;
            }
            if current_line > 1 {
                let mut line_idx = current_line - 1;
                while line_idx >= 1
                    invariant
                        *self == e0,
                        e0 == *old(self),
                        !forward,
                        line_idx < current_line,
                        current_line == e0.state.cursor.line,
                        start_col == e0.state.cursor.col,
                        last_before(line_of(e0, current_line as int), ch, start_col as int) is None,
                        last_line_with(e0, ch, line_idx as int) == last_line_with(e0, ch, current_line - 1),
                    decreases line_idx,
                {
                    let lc = self.buffer.line_chars(line_idx);
                    if let Some(pos) = last_index_before(&lc, ch, lc.len()) {
                        proof {
                            assert(lc@ == line_of(e0, line_idx as int));
                            assert(last_line_with(e0, ch, line_idx as int) == Some(line_idx as int));
                        }
                        self.state.cursor.line = line_idx;
                        self.state.cursor.col = if till {
                            0
                        } else {
                            pos
                        };
                        return true;
                    }
                    line_idx -= 1;
                }
            }
            false
        }
    }

    /// Repeats the last `f`/`t` search in the given direction.
    pub fn repeat_find(&mut self, forward: bool) -> (r: bool)
        requires
            forward ==> old(self).state.cursor.col < usize::MAX && old(self).state.cursor.line < usize::MAX,
            !forward ==> old(self).state.cursor.col <= line_of(*old(self), old(self).state.cursor.line as int).len(),
        ensures
            match old(self).search_state.last_fchar {
                Some(ch) => {
                    let t = find_char_target(*old(self), ch, old(self).search_state.last_fchar_till, forward);
                    &&& r == t is Some
                    &&& *final(self) == match t {
                        Some(p) => moved(*old(self), p.0, p.1),
                        None => *old(self),
                    }
                },
                None => !r && *final(self) == *old(self),
            },
    {
        match self.search_state.last_fchar {
            Some(ch) => {
                let till = self.search_state.last_fchar_till;
                self.find_char(ch, till, forward)
            },
            None => false,
        }
    }
}

/// The bracket that closes (or opens) `ch`.
pub open spec fn matching_bracket(ch: char) -> Option<char> {
    if ch == '(' {
        Some(')')
    } else if ch == ')' {
        Some('(')
    } else if ch == '[' {
        Some(']')
    } else if ch == ']' {
        Some('[')
    } else if ch == '{' {
        Some('}')
    } else if ch == '}' {
        Some('{')
    } else {
        None
    }
}

/// Scanning forward from (`line`, `col`) with `depth` brackets open for the
/// one that closes them: `Some(Some(pos))` when found, `Some(None)` at the
/// end of the buffer, `None` when more than `i32::MAX` would be open.
pub open spec fn scan_fwd(e: Engine, line: int, col: int, depth: int, ch: char, m: char) -> Option<Option<(int, int)>>
    decreases line_count(e.buffer.text()) + 1 - line, line_of(e, line).len() + 1 - col,
{
    let lc = line_count(e.buffer.text()) as int;
    if line < 1 || line > lc || col < 0 {
        Some(None)
    } else {
        let nl = if col + 1 >= line_of(e, line).len() { line + 1 } else { line };
        let nc = if col + 1 >= line_of(e, line).len() { 0 } else { col + 1 };
        if nl > lc {
            Some(None)
        } else {
            let c = line_of(e, nl);
            if nc < c.len() && c[nc] == ch {
                if depth + 1 > i32::MAX {
                    None
                } else {
                    scan_fwd(e, nl, nc, depth + 1, ch, m)
                }
            } else if nc < c.len() && c[nc] == m {
                if depth - 1 == 0 {
                    Some(Some((nl, nc)))
                } else {
                    scan_fwd(e, nl, nc, depth - 1, ch, m)
                }
            } else {
                scan_fwd(e, nl, nc, depth, ch, m)
            }
        }
    }
}

/// Scanning backward from (`line`, `col`), as `scan_fwd` does forward.
pub open spec fn scan_bwd(e: Engine, line: int, col: int, depth: int, ch: char, m: char) -> Option<Option<(int, int)>>
    decreases line, col,
{
    let lc = line_count(e.buffer.text()) as int;
    if line < 1 || line > lc || col < 0 || (col == 0 && line == 1) {
        Some(None)
    } else {
        let nl = if col == 0 { line - 1 } else { line };
        let nc = if col == 0 { sat(line_of(e, line - 1).len() as int, 1) } else { col - 1 };
        let c = line_of(e, nl);
        if nc < c.len() && c[nc] == ch {
            if depth + 1 > i32::MAX {
                None
            } else {
                scan_bwd(e, nl, nc, depth + 1, ch, m)
            }
        } else if nc < c.len() && c[nc] == m {
            if depth - 1 == 0 {
                Some(Some((nl, nc)))
            } else {
                scan_bwd(e, nl, nc, depth - 1, ch, m)
            }
        } else {
            scan_bwd(e, nl, nc, depth, ch, m)
        }
    }
}

/// Where `%` goes: the bracket matching the one under the cursor, skipping
/// nested pairs; `Some(None)` when there is none; `None` when the nesting
/// grows past `i32::MAX`.
pub open spec fn bracket_target(e: Engine) -> Option<Option<(int, int)>> {
    let line = e.state.cursor.line as int;
    let col = e.state.cursor.col as int;
    let c = line_of(e, line);
    if col >= c.len() {
        Some(None)
    } else {
        match matching_bracket(c[col]) {
            None => Some(None),
            Some(m) => if c[col] == '(' || c[col] == '[' || c[col] == '{' {
                scan_fwd(e, line, col, 1, c[col], m)
            } else {
                scan_bwd(e, line, col, 1, c[col], m)
            },
        }
    }
}

impl Engine {
    fn bracket_scan_fwd(&self, line: usize, col: usize, ch: char, m: char) -> (r: Option<(usize, usize)>)
        requires
            scan_fwd(*self, line as int, col as int, 1, ch, m) is Some,
            1 <= line <= line_count(self.buffer.text()),
        ensures
            match scan_fwd(*self, line as int, col as int, 1, ch, m) {
                Some(Some(p)) => r == Some((p.0 as usize, p.1 as usize)),
                _ => r is None,
            },
    {
        let lc = self.buffer.line_count();
        let mut count: i32 = 1;
        let mut cl = line;
        let mut cc = col;
        loop
            invariant
                lc == line_count(self.buffer.text()),
                1 <= count,
                1 <= cl <= lc,
                scan_fwd(*self, cl as int, cc as int, count as int, ch, m) == scan_fwd(*self, line as int, col as int, 1, ch, m),
                scan_fwd(*self, line as int, col as int, 1, ch, m) is Some,
            decreases lc + 1 - cl, line_of(*self, cl as int).len() + 1 - cc,
        {
            let len = self.buffer.line_char_len(cl);
            if cc >= len || cc + 1 >= len {
                if cl >= lc {
                    return None;
                }
                cl += 1;
                cc = 0;
            } else {
                cc += 1;
            }
            let cur = self.buffer.line_chars(cl);
            if cc < cur.len() {
                let c = cur[cc];
                if c == ch {
                    count += 1;
                } else if c == m {
                    count -= 1;
                    if count == 0 {
                        return Some((cl, cc));
                    }
                }
            }
        }
    }

    fn bracket_scan_bwd(&self, line: usize, col: usize, ch: char, m: char) -> (r: Option<(usize, usize)>)
        requires
            scan_bwd(*self, line as int, col as int, 1, ch, m) is Some,
            1 <= line <= line_count(self.buffer.text()),
        ensures
            match scan_bwd(*self, line as int, col as int, 1, ch, m) {
                Some(Some(p)) => r == Some((p.0 as usize, p.1 as usize)),
                _ => r is None,
            },
    {
        let lc = self.buffer.line_count();
        let mut count: i32 = 1;
        let mut cl = line;
        let mut cc = col;
        loop
            invariant
                lc == line_count(self.buffer.text()),
                1 <= count,
                1 <= cl <= lc,
                scan_bwd(*self, cl as int, cc as int, count as int, ch, m) == scan_bwd(*self, line as int, col as int, 1, ch, m),
                scan_bwd(*self, line as int, col as int, 1, ch, m) is Some,
            decreases cl, cc,
        {
            if cc == 0 {
                if cl == 1 {
                    return None;
                }
                cl -= 1;
                cc = self.buffer.line_char_len(cl).saturating_sub(1);
            } else {
                cc -= 1;
            }
            let cur = self.buffer.line_chars(cl);
            if cc < cur.len() {
                let c = cur[cc];
                if c == ch {
                    count += 1;
                } else if c == m {
                    count -= 1;
                    if count == 0 {
                        return Some((cl, cc));
                    }
                }
            }
        }
    }

    /// `%`: to the bracket matching the one under the cursor; the cursor
    /// stays when there is none. More than `i32::MAX` nested brackets of the
    /// same kind are not supported.
    pub fn jump_to_matching_bracket(&mut self)
        requires
            bracket_target(*old(self)) is Some,
        ensures
            *final(self) == match bracket_target(*old(self)) {
                Some(Some(p)) => moved(*old(self), p.0, p.1),
                _ => *old(self),
            },
    {
        let line = self.state.cursor.line;
        let col = self.state.cursor.col;
        let line_chars = self.buffer.line_chars(line);
        if col >= line_chars.len() {
            return;
        }
        let ch = line_chars[col];
        let matching = if ch == '(' {
            ')'
        } else if ch == ')' {
            '('
        } else if ch == '[' {
            ']'
        } else if ch == ']' {
            '['
        } else if ch == '{' {
            '}'
        } else if ch == '}' {
            '{'
        } else {
            return;
        };
        proof {
            assert(line_chars@ == line_of(*self, line as int));
            assert(matching_bracket(ch) == Some(matching));
            assert(line_chars@.len() > 0);
            assert(1 <= line <= line_count(self.buffer.text()));
        }
        let found = if ch == '(' || ch == '[' || ch == '{' {
            self.bracket_scan_fwd(line, col, ch, matching)
        } else {
            self.bracket_scan_bwd(line, col, ch, matching)
        };
        if let Some((l, c)) = found {
            self.state.cursor.line = l;
            self.state.cursor.col = c;
        }
    }
}

/// `f`, `t`, `F` and `T` on the cursor's line. When the nearest `ch` after
/// the cursor is at index `i`, `f` lands on it and `t` one before it; when
/// the nearest `ch` before the cursor (which stands on a character of the
/// line) is at `i`, `F` lands on it and `T` one after it.
pub proof fn lemma_find_char_on_line(e: Engine, ch: char, i: int)
    ensures
        ({
            let c = line_of(e, e.state.cursor.line as int);
            let col = e.state.cursor.col as int;
            col < i < c.len() && c[i] == ch && (forall|k: int| col < k < i ==> c[k] != ch) ==> {
                &&& find_char_target(e, ch, false, true) == Some((e.state.cursor.line as int, i))
                &&& find_char_target(e, ch, true, true) == Some((e.state.cursor.line as int, i - 1))
            }
        }),
        ({
            let c = line_of(e, e.state.cursor.line as int);
            let col = e.state.cursor.col as int;
            0 <= i < col < c.len() && c[i] == ch && (forall|k: int| i < k < col ==> c[k] != ch) ==> {
                &&& find_char_target(e, ch, false, false) == Some((e.state.cursor.line as int, i))
                &&& find_char_target(e, ch, true, false) == Some((e.state.cursor.line as int, i + 1))
            }
        }),
{
    let c = line_of(e, e.state.cursor.line as int);
    let col = e.state.cursor.col as int;
    if col < i < c.len() && c[i] == ch && (forall|k: int| col < k < i ==> c[k] != ch) {
        lemma_first_from_finds(c, ch, col + 1, i);
    }
    if 0 <= i < col < c.len() && c[i] == ch && (forall|k: int| i < k < col ==> c[k] != ch) {
        lemma_last_before_finds(c, ch, col, i);
    }
}

/// `f` and `t` past the cursor's line. When the cursor's line holds no
/// `ch` after the cursor, `f` goes to the first `ch` of the first later line
/// holding one, and `t` to that line too; when no later text holds `ch`,
/// neither moves.
pub proof fn lemma_find_char_later_lines(e: Engine, ch: char, l: int, j: int)
    ensures
        ({
            let cur = e.state.cursor.line as int;
            let col = e.state.cursor.col as int;
            let c = line_of(e, cur);
            let n = line_count(e.buffer.text()) as int;
            (forall|k: int| col < k < c.len() ==> c[k] != ch) && cur + 1 <= l <= n && 0 <= j < line_of(e, l).len()
                && line_of(e, l)[j] == ch && (forall|k: int| 0 <= k < j ==> line_of(e, l)[k] != ch) && (forall|m: int, k: int|
                cur < m < l && 0 <= k < line_of(e, m).len() ==> #[trigger] line_of(e, m)[k] != ch) ==> {
                &&& find_char_target(e, ch, false, true) == Some((l, j))
                &&& find_char_target(e, ch, true, true) matches Some(t) && t.0 == l
            }
        }),
        ({
            let cur = e.state.cursor.line as int;
            let col = e.state.cursor.col as int;
            let c = line_of(e, cur);
            let n = line_count(e.buffer.text()) as int;
            (forall|k: int| col < k < c.len() ==> c[k] != ch) && (forall|m: int, k: int|
                cur < m <= n && 0 <= k < line_of(e, m).len() ==> #[trigger] line_of(e, m)[k] != ch) ==> {
                &&& find_char_target(e, ch, false, true) is None
                &&& find_char_target(e, ch, true, true) is None
            }
        }),
{
    let cur = e.state.cursor.line as int;
    let col = e.state.cursor.col as int;
    let c = line_of(e, cur);
    let n = line_count(e.buffer.text()) as int;
    if forall|k: int| col < k < c.len() ==> c[k] != ch {
        lemma_first_from_none(c, ch, col + 1);
        if cur + 1 <= l <= n && 0 <= j < line_of(e, l).len() && line_of(e, l)[j] == ch && (forall|k: int|
            0 <= k < j ==> line_of(e, l)[k] != ch) && (forall|m: int, k: int|
            cur < m < l && 0 <= k < line_of(e, m).len() ==> #[trigger] line_of(e, m)[k] != ch) {
            lemma_first_line_finds(e, ch, cur + 1, n, l, j);
        }
        if forall|m: int, k: int| cur < m <= n && 0 <= k < line_of(e, m).len() ==> #[trigger] line_of(e, m)[k] != ch {
            lemma_first_line_none(e, ch, cur + 1, n);
        }
    }
}

} // verus!
