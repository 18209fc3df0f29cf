//! The text buffer: a rope of characters with an associated file path and a
//! modification counter that tells a saved buffer from a modified one.
use crate::paths::clone_opt_path;
use crate::rope::{
    rope_from_str, rope_insert, rope_len_chars, rope_len_lines, rope_line_chars,
    rope_line_len_chars, rope_line_string, rope_line_to_char, rope_new, rope_remove, rope_text,
    rope_to_string,
};
use crate::strutil::{push_char, push_str, string_of};
use crate::text::{
    is_whitespace, is_whitespace_spec, lemma_line_bounds, lemma_scan_left, lemma_scan_right,
    line_count, line_end, line_start, line_text, scan_left_nonws, scan_right_nonws,
};
use ropey::Rope;
use std::path::PathBuf;
use vstd::prelude::*;

verus! {

/// The modification counter after one more modification (it wraps around).
pub open spec fn next_count(c: usize) -> usize {
    if c == usize::MAX {
        0
    } else {
        (c + 1) as usize
    }
}

/// The modification counter after `k` more modifications.
pub open spec fn bump(c: usize, k: nat) -> usize
    decreases k,
{
    if k == 0 {
        c
    } else {
        next_count(bump(c, (k - 1) as nat))
    }
}

pub open spec fn min(a: int, b: int) -> int {
    if a <= b {
        a
    } else {
        b
    }
}

/// Zero-based line index of a one-based line number (0 stays 0).
pub open spec fn line_index(line: int) -> int {
    if line >= 1 {
        line - 1
    } else {
        0
    }
}

/// Number of characters of line `k`, its line break included.
pub open spec fn line_len(s: Seq<char>, k: int) -> int {
    line_end(s, k) - line_start(s, k)
}

/// `t` put before position `p` of `s`.
pub open spec fn splice(s: Seq<char>, p: int, t: Seq<char>) -> Seq<char> {
    s.take(p) + t + s.skip(p)
}

/// `s` without the characters in `[a, b)`.
pub open spec fn cut(s: Seq<char>, a: int, b: int) -> Seq<char> {
    s.take(a) + s.skip(b)
}

/// The one-based line `n` of `s`, its line break included; empty when out of range.
pub open spec fn get_line_spec(s: Seq<char>, n: int) -> Seq<char> {
    if 1 <= n <= line_count(s) {
        line_text(s, n - 1)
    } else {
        Seq::empty()
    }
}

/// Text after `insert(line, col, t)`. Within the text, `t` goes at column
/// `col` of the line, clamped to the line's length; on the line just past the
/// last one, a line break is appended and then `t` unless `t` is itself a
/// single line break; further out nothing changes.
pub open spec fn insert_spec(s: Seq<char>, line: int, col: int, t: Seq<char>) -> Seq<char> {
    let li = line_index(line);
    if li < line_count(s) {
        splice(s, line_start(s, li) + min(col, line_len(s, li)), t)
    } else if li == line_count(s) {
        if t == seq!['\n'] {
            s.push('\n')
        } else {
            s.push('\n') + t
        }
    } else {
        s
    }
}

/// Number of modifications that `insert(line, col, t)` records.
pub open spec fn insert_mods(s: Seq<char>, line: int, col: int, t: Seq<char>) -> nat {
    let li = line_index(line);
    if li < line_count(s) {
        1
    } else if li == line_count(s) {
        if t == seq!['\n'] {
            1
        } else {
            2
        }
    } else {
        0
    }
}

/// Whether `delete(line, col)` removes a character: the position exists.
pub open spec fn delete_applies(s: Seq<char>, line: int, col: int) -> bool {
    line_index(line) < line_count(s) && line_start(s, line_index(line)) + col < s.len()
}

/// Text after `delete(line, col)`: the character at column `col` of the line
/// (counted from the line's start, possibly past its end) is removed.
pub open spec fn delete_spec(s: Seq<char>, line: int, col: int) -> Seq<char> {
    if delete_applies(s, line, col) {
        let p = line_start(s, line_index(line)) + col;
        cut(s, p, p + 1)
    } else {
        s
    }
}

/// Whether `merge_with_prev_line(line)` joins line `line` to the one above.
pub open spec fn merge_applies(s: Seq<char>, line: int) -> bool {
    2 <= line <= line_count(s)
}

/// Text after `merge_with_prev_line(line)`: the last character of the
/// previous line (its line break) is removed.
pub open spec fn merge_spec(s: Seq<char>, line: int) -> Seq<char> {
    if merge_applies(s, line) {
        let p = line_end(s, line - 2) - 1;
        cut(s, p, p + 1)
    } else {
        s
    }
}

/// Text after `delete_line(line)`: the whole line is removed with its line
/// break; a text left empty becomes a single line break.
pub open spec fn delete_line_spec(s: Seq<char>, line: int) -> Seq<char> {
    if 1 <= line <= line_count(s) && line_start(s, line - 1) < line_end(s, line - 1) {
        let r = cut(s, line_start(s, line - 1), line_end(s, line - 1));
        if r.len() == 0 {
            seq!['\n']
        } else {
            r
        }
    } else {
        s
    }
}

pub open spec fn delete_line_mods(s: Seq<char>, line: int) -> nat {
    if 1 <= line <= line_count(s) && line_start(s, line - 1) < line_end(s, line - 1) {
        1
    } else {
        0
    }
}

/// `x[a..b]` with both ends clamped to the length of `x` (empty when `a >= b`).
pub open spec fn sub_spec(x: Seq<char>, a: int, b: int) -> Seq<char> {
    let a1 = min(a, x.len() as int);
    let b1 = min(b, x.len() as int);
    if a1 < b1 {
        x.subrange(a1, b1)
    } else {
        Seq::empty()
    }
}

/// `(word, start, end)`: the run of non-whitespace characters around column
/// `col` of the one-based line `line`.
pub open spec fn word_at_spec(s: Seq<char>, line: int, col: int) -> (Seq<char>, int, int) {
    let li = line_index(line);
    if li >= line_count(s) {
        (Seq::empty(), 0, 0)
    } else {
        let c = line_text(s, li);
        if col >= c.len() {
            (Seq::empty(), col, col)
        } else {
            let a = scan_left_nonws(c, col);
            let b = scan_right_nonws(c, col);
            (c.subrange(a, b), a, b)
        }
    }
}

/// Zero-based lines `a..b` joined with an extra line feed between them.
pub open spec fn lines_joined(s: Seq<char>, a: int, b: int) -> Seq<char>
    decreases b - a,
{
    if b <= a {
        Seq::empty()
    } else if b == a + 1 {
        line_text(s, a)
    } else {
        lines_joined(s, a, b - 1) + seq!['\n'] + line_text(s, b - 1)
    }
}

pub open spec fn get_line_range_spec(s: Seq<char>, sl: int, el: int) -> Seq<char> {
    if sl > el || sl < 1 {
        Seq::empty()
    } else if sl - 1 >= min(el, line_count(s) as int) {
        Seq::empty()
    } else {
        lines_joined(s, sl - 1, min(el, line_count(s) as int))
    }
}

/// One-based lines `a..b`, each followed by a line feed.
pub open spec fn middle_lines(s: Seq<char>, a: int, b: int) -> Seq<char>
    decreases b - a,
{
    if b <= a {
        Seq::empty()
    } else {
        middle_lines(s, a, b - 1) + get_line_spec(s, b - 1) + seq!['\n']
    }
}

/// Text from (line `sl`, column `sc`) to (line `el`, column `ec`), lines one-based.
pub open spec fn char_range_spec(s: Seq<char>, sl: int, sc: int, el: int, ec: int) -> Seq<char> {
    if sl > el {
        Seq::empty()
    } else if sl == el {
        if sc >= ec {
            Seq::empty()
        } else {
            sub_spec(get_line_spec(s, sl), sc, ec)
        }
    } else {
        sub_spec(get_line_spec(s, sl), sc, get_line_spec(s, sl).len() as int) + seq!['\n']
            + middle_lines(s, sl + 1, el) + sub_spec(get_line_spec(s, el), 0, ec)
    }
}

/// Character index of (line `line`, column `col`), the column clamped to the line's length.
pub open spec fn clamped_pos(s: Seq<char>, line: int, col: int) -> int {
    line_start(s, line_index(line)) + min(col, line_len(s, line_index(line)))
}

pub open spec fn delete_range_spec(s: Seq<char>, sl: int, sc: int, el: int, ec: int) -> Seq<char> {
    if sl <= el && clamped_pos(s, sl, sc) < clamped_pos(s, el, ec) {
        cut(s, clamped_pos(s, sl, sc), clamped_pos(s, el, ec))
    } else {
        s
    }
}

/// Columns `sc..min(ec, len)` of the one-based line `l`.
pub open spec fn block_seg(s: Seq<char>, l: int, sc: int, ec: int) -> Seq<char> {
    let ch = get_line_spec(s, l);
    let e = min(ec, ch.len() as int);
    if sc < e {
        ch.subrange(sc, e)
    } else {
        Seq::empty()
    }
}

/// Segments of lines `a..l` (one-based, exclusive end), each but the one of
/// line `last` followed by a line feed.
pub open spec fn block_text(s: Seq<char>, a: int, l: int, last: int, sc: int, ec: int) -> Seq<char>
    decreases l - a,
{
    if l <= a {
        Seq::empty()
    } else {
        block_text(s, a, l - 1, last, sc, ec) + block_seg(s, l - 1, sc, ec) + if l - 1 < last {
            seq!['\n']
        } else {
            Seq::empty()
        }
    }
}

/// Deleting the block columns `sc..ec` from lines `l..=el`, one line after the
/// other: `(text, deleted text, number of modifications)`. The deleted text
/// is in the form `block_text` gives: each line's segment (empty when the
/// line is too short) followed by a line feed, but for the last line.
pub open spec fn block_delete(s: Seq<char>, l: int, el: int, sc: int, ec: int) -> (
    Seq<char>,
    Seq<char>,
    nat,
)
    decreases el + 1 - l,
{
    if l > el {
        (s, Seq::empty(), 0)
    } else {
        let ch = get_line_spec(s, l);
        let e = min(ec, ch.len() as int);
        if sc < e {
            let p = line_start(s, l - 1);
            let r = block_delete(cut(s, p + sc, p + e), l + 1, el, sc, ec);
            (
                r.0,
                ch.subrange(sc, e) + (if l < el {
                    seq!['\n']
                } else {
                    Seq::empty()
                }) + r.1,
                r.2 + 1,
            )
        } else {
            let r = block_delete(s, l + 1, el, sc, ec);
            (r.0, (if l < el {
                seq!['\n']
            } else {
                Seq::empty()
            }) + r.1, r.2)
        }
    }
}

/// The file a buffer belongs to: its path, the path as text (empty when it
/// is not valid Unicode), and its last component as text, if it has one.
pub struct FileRef {
    pub path: PathBuf,
    pub text: String,
    pub name: Option<String>,
}

/// The name `Ctrl-g` shows for a buffer.
pub open spec fn info_name(b: TextBuffer) -> Seq<char> {
    match b.path() {
        Some(f) => f.text@,
        None => "[No Name]"@,
    }
}

/// The name `:ls` shows for a buffer.
pub open spec fn list_name(b: TextBuffer) -> Seq<char> {
    match b.path() {
        Some(f) => match f.name {
            Some(n) => n@,
            None => "[No Name]"@,
        },
        None => "[No Name]"@,
    }
}

pub struct TextBuffer {
    doc: Rope,
    file_path: Option<FileRef>,
    /// Mirror of `modification_count != saved_modification_count`, refreshed
    /// by every mutation and by `mark_clean`.
    dirty: bool,
    modification_count: usize,
    pub(crate) saved_modification_count: usize,
}

impl TextBuffer {
    /// The characters of the buffer.
    pub closed spec fn text(&self) -> Seq<char> {
        rope_text(self.doc)
    }

    /// The file the buffer is associated with.
    pub closed spec fn path(&self) -> Option<FileRef> {
        self.file_path
    }

    /// The modification counter.
    pub closed spec fn mods(&self) -> usize {
        self.modification_count
    }

    /// The value of the modification counter at the last save or load.
    pub closed spec fn saved(&self) -> usize {
        self.saved_modification_count
    }

    pub open spec fn clean(&self) -> bool {
        self.mods() == self.saved()
    }

    pub fn new() -> (b: Self)
        ensures
            b.text() == Seq::<char>::empty(),
            b.path() is None,
            b.mods() == 0,
            b.saved() == 0,
    {
        TextBuffer {
            doc: rope_new(),
            file_path: None,
            dirty: false,
            modification_count: 0,
            saved_modification_count: 0,
        }
    }

    pub fn with_text(text: &str) -> (b: Self)
        ensures
            b.text() == text@,
            b.path() is None,
            b.mods() == 0,
            b.saved() == 0,
    {
        TextBuffer {
            doc: rope_from_str(text),
            file_path: None,
            dirty: false,
            modification_count: 0,
            saved_modification_count: 0,
        }
    }

    pub fn line_count(&self) -> (n: usize)
        ensures
            n == line_count(self.text()),
    {
        rope_len_lines(&self.doc)
    }

    /// The one-based line `line_number`, its line break included, or an
    /// empty string when there is no such line.
    pub fn get_line(&self, line_number: usize) -> (r: String)
        ensures
            r@ == get_line_spec(self.text(), line_number as int),
    {
        if line_number < 1 || line_number > self.line_count() {
            return String::new();
        }
        rope_line_string(&self.doc, line_number - 1)
    }

    /// Number of characters (not bytes) of a line, its line break included;
    /// 0 when there is no such line.
    pub fn line_char_len(&self, line_number: usize) -> (n: usize)
        ensures
            n == get_line_spec(self.text(), line_number as int).len(),
    {
        if line_number < 1 || line_number > self.line_count() {
            return 0;
        }
        rope_line_len_chars(&self.doc, line_number - 1)
    }

    /// The characters of a line, its line break included; empty when there
    /// is no such line.
    pub fn line_chars(&self, line_number: usize) -> (r: Vec<char>)
        ensures
            r@ == get_line_spec(self.text(), line_number as int),
    {
        if line_number < 1 || line_number > self.line_count() {
            return Vec::new();
        }
        rope_line_chars(&self.doc, line_number - 1)
    }

    fn mark_modified(&mut self)
        ensures
            final(self).text() == old(self).text(),
            final(self).path() == old(self).path(),
            final(self).saved() == old(self).saved(),
            final(self).mods() == next_count(old(self).mods()),
    {
        self.modification_count = self.modification_count.wrapping_add(1);
        self.dirty = true;
    }

    pub fn insert(&mut self, line: usize, col: usize, text: &str)
        ensures
            final(self).text() == insert_spec(old(self).text(), line as int, col as int, text@),
            final(self).mods() == bump(
                old(self).mods(),
                insert_mods(old(self).text(), line as int, col as int, text@),
            ),
            final(self).path() == old(self).path(),
            final(self).saved() == old(self).saved(),
    {
        let ghost s = self.text();
        let ghost c0 = self.mods();
        proof {
            lemma_bump_small(c0);
        }
        let line_idx = line.saturating_sub(1);
        let n = rope_len_lines(&self.doc);
        if line_idx >= n {
            if line_idx == n {
                let len = rope_len_chars(&self.doc);
                rope_insert(&mut self.doc, len, "\n");
                proof {
                    reveal_strlit("\n");
                    assert(self.text() =~= s.push('\n'));
                }
                self.mark_modified();
            } else if rope_len_chars(&self.doc) == 0 {
                if line_idx > 1 {
                    return;
                }
                rope_insert(&mut self.doc, 0, "\n");
                proof {
                    reveal_strlit("\n");
                    assert(self.text() =~= s.push('\n'));
                }
                self.mark_modified();
            } else {
                return;
            }
            if !is_single_newline(text) {
                let insert_pos = rope_len_chars(&self.doc);
                rope_insert(&mut self.doc, insert_pos, text);
                proof {
                    assert(self.text() =~= s.push('\n') + text@);
                }
                self.mark_modified();
            }
            return;
        }
        proof {
            lemma_line_bounds(s, line_idx as int);
        }
        let _total = rope_len_chars(&self.doc);
        let line_start = rope_line_to_char(&self.doc, line_idx);
        let ll = rope_line_len_chars(&self.doc, line_idx);
        let char_idx = line_start + if col < ll {
            col
        } else {
            ll
        };
        rope_insert(&mut self.doc, char_idx, text);
        self.mark_modified();
    }

    pub fn delete(&mut self, line: usize, col: usize)
        requires
            old(self).text().len() + col <= usize::MAX,
        ensures
            final(self).text() == delete_spec(old(self).text(), line as int, col as int),
            final(self).mods() == if delete_applies(old(self).text(), line as int, col as int) {
                next_count(old(self).mods())
            } else {
                old(self).mods()
            },
            final(self).path() == old(self).path(),
            final(self).saved() == old(self).saved(),
    {
        let ghost s = self.text();
        let line_idx = line.saturating_sub(1);
        if line_idx >= rope_len_lines(&self.doc) {
            return;
        }
        proof {
            lemma_line_bounds(s, line_idx as int);
        }
        let line_start = rope_line_to_char(&self.doc, line_idx);
        let char_idx = line_start + col;
        if char_idx >= rope_len_chars(&self.doc) {
            return;
        }
        rope_remove(&mut self.doc, char_idx, char_idx + 1);
        self.mark_modified();
    }

    pub fn insert_char(&mut self, line: usize, col: usize, ch: char)
        ensures
            final(self).text() == insert_spec(old(self).text(), line as int, col as int, seq![ch]),
            final(self).mods() == bump(
                old(self).mods(),
                insert_mods(old(self).text(), line as int, col as int, seq![ch]),
            ),
            final(self).path() == old(self).path(),
            final(self).saved() == old(self).saved(),
    {
        let mut s = String::new();
        push_char(&mut s, ch);
        proof {
            assert(s@ =~= seq![ch]);
        }
        self.insert(line, col, s.as_str());
    }

    pub fn insert_newline(&mut self, line: usize, col: usize)
        ensures
            final(self).text() == insert_spec(old(self).text(), line as int, col as int, seq!['\n']),
            final(self).mods() == bump(
                old(self).mods(),
                insert_mods(old(self).text(), line as int, col as int, seq!['\n']),
            ),
            final(self).path() == old(self).path(),
            final(self).saved() == old(self).saved(),
    {
        proof {
            reveal_strlit("\n");
            assert("\n"@ =~= seq!['\n']);
        }
        self.insert(line, col, "\n");
    }

    /// Joins line `line` to the previous one by removing the previous line's
    /// last character; returns the previous line's length without it, or 0
    /// when there is no previous line.
    pub fn merge_with_prev_line(&mut self, line: usize) -> (r: usize)
        ensures
            final(self).text() == merge_spec(old(self).text(), line as int),
            merge_applies(old(self).text(), line as int) ==> r == line_len(
                old(self).text(),
                line - 2,
            ) - 1 && final(self).mods() == next_count(old(self).mods()),
            !merge_applies(old(self).text(), line as int) ==> r == 0 && final(self).mods()
                == old(self).mods(),
            final(self).path() == old(self).path(),
            final(self).saved() == old(self).saved(),
    {
        let ghost s = self.text();
        if line <= 1 || line > self.line_count() {
            return 0;
        }
        let prev_line_idx = line - 2;
        let cur_line_idx = line - 1;
        let n = rope_len_lines(&self.doc);
        if prev_line_idx >= n || cur_line_idx >= n {
            return 0;
        }
        proof {
            lemma_line_bounds(s, prev_line_idx as int);
            lemma_line_bounds(s, cur_line_idx as int);
        }
        let _total = rope_len_chars(&self.doc);
        let prev_line_start = rope_line_to_char(&self.doc, prev_line_idx);
        let prev_line_len = rope_line_len_chars(&self.doc, prev_line_idx);
        let newline_pos = prev_line_start + prev_line_len - 1;
        if newline_pos >= rope_len_chars(&self.doc) {
            return 0;
        }
        rope_remove(&mut self.doc, newline_pos, newline_pos + 1);
        self.mark_modified();
        prev_line_len - 1
    }

    pub fn to_string(&self) -> (r: String)
        ensures
            r@ == self.text(),
    {
        rope_to_string(&self.doc)
    }

    /// Counter incremented (wrapping) on every buffer mutation.
    pub fn modification_count(&self) -> (r: usize)
        ensures
            r == self.mods(),
    {
        self.modification_count
    }

    /// `true` if the buffer has not been modified since the last save/load.
    pub fn is_clean(&self) -> (r: bool)
        ensures
            r == self.clean(),
    {
        self.modification_count == self.saved_modification_count
    }

    pub fn is_dirty(&self) -> (r: bool)
        ensures
            r == !self.clean(),
    {
        !self.is_clean()
    }

    /// Records the current contents as saved.
    pub fn mark_clean(&mut self)
        ensures
            final(self).text() == old(self).text(),
            final(self).path() == old(self).path(),
            final(self).mods() == old(self).mods(),
            final(self).saved() == old(self).mods(),
    {
        self.saved_modification_count = self.modification_count;
        self.dirty = false;
    }

    pub fn reset_clean_state(&mut self)
        ensures
            final(self).text() == old(self).text(),
            final(self).path() == old(self).path(),
            final(self).mods() == old(self).mods(),
            final(self).saved() == old(self).mods(),
    {
        self.mark_clean();
    }

    pub(crate) fn reset_modification_count(&mut self, count: usize)
        ensures
            final(self).text() == old(self).text(),
            final(self).path() == old(self).path(),
            final(self).mods() == count,
            final(self).saved() == old(self).saved(),
    {
        self.modification_count = count;
    }

    /// Replaces the whole text.
    pub(crate) fn replace_with(&mut self, text: &str)
        ensures
            final(self).text() == text@,
            final(self).path() == old(self).path(),
            final(self).mods() == next_count(old(self).mods()),
            final(self).saved() == old(self).saved(),
    {
        let len = rope_len_chars(&self.doc);
        if len > 0 {
            rope_remove(&mut self.doc, 0, len);
        }
        proof {
            assert(self.text() =~= Seq::<char>::empty());
        }
        rope_insert(&mut self.doc, 0, text);
        proof {
            assert(self.text() =~= text@);
        }
        self.mark_modified();
    }

    /// Character index where the zero-based line `line_idx` starts.
    pub fn line_to_char(&self, line_idx: usize) -> (r: usize)
        requires
            line_idx <= line_count(self.text()),
        ensures
            r == line_start(self.text(), line_idx as int),
    {
        rope_line_to_char(&self.doc, line_idx)
    }

    pub fn len_chars(&self) -> (r: usize)
        ensures
            r == self.text().len(),
    {
        rope_len_chars(&self.doc)
    }

    /// The path the buffer was loaded from or saved to, if any.
    pub fn file_path(&self) -> (r: Option<&PathBuf>)
        ensures
            r == match self.path() {
                Some(f) => Some(&f.path),
                None => None::<&PathBuf>,
            },
    {
        match &self.file_path {
            Some(f) => Some(&f.path),
            None => None,
        }
    }

    /// The buffer's file, if it has one.
    pub fn file(&self) -> (r: Option<&FileRef>)
        ensures
            r == match self.path() {
                Some(f) => Some(&f),
                None => None::<&FileRef>,
            },
    {
        self.file_path.as_ref()
    }

    /// The buffer's file as shown by `Ctrl-g`: the path's text, or
    /// `[No Name]` without a file.
    pub fn file_text_label(&self) -> (r: String)
        ensures
            r@ == info_name(*self),
    {
        match &self.file_path {
            Some(f) => string_of(crate::strutil::chars_of(f.text.as_str()).as_slice()),
            None => String::from_str("[No Name]"),
        }
    }

    /// The buffer's file as listed by `:ls`: the path's last component, or
    /// `[No Name]` without one.
    pub fn file_name_label(&self) -> (r: String)
        ensures
            r@ == list_name(*self),
    {
        match &self.file_path {
            Some(f) => match &f.name {
                Some(n) => string_of(crate::strutil::chars_of(n.as_str()).as_slice()),
                None => String::from_str("[No Name]"),
            },
            None => String::from_str("[No Name]"),
        }
    }

    /// Sets the buffer's file; its text and last component come from the
    /// path (`Path::to_str`, `Path::file_name`).
    pub fn set_file_path(&mut self, path: Option<PathBuf>)
        ensures
            match path {
                Some(p) => final(self).path() matches Some(f) && f.path == p,
                None => final(self).path() is None,
            },
            final(self).text() == old(self).text(),
            final(self).mods() == old(self).mods(),
            final(self).saved() == old(self).saved(),
    {
        self.file_path = match path {
            Some(p) => {
                let text = match crate::paths::path_text(&p) {
                    Some(t) => t,
                    None => String::new(),
                };
                let name = crate::paths::file_name_text(&p);
                Some(FileRef { path: p, text, name })
            },
            None => None,
        };
    }

    /// `(word, start_col, end_col)`: the run of non-whitespace characters
    /// around (`line`, `col`); empty when the position holds no character.
    pub fn get_word_at(&self, line: usize, col: usize) -> (r: (String, usize, usize))
        ensures
            (r.0@, r.1 as int, r.2 as int) == word_at_spec(self.text(), line as int, col as int),
    {
        let line_idx = line.saturating_sub(1);
        if line_idx >= rope_len_lines(&self.doc) {
            return (String::new(), 0, 0);
        }
        let chars = rope_line_chars(&self.doc, line_idx);
        let ghost c = chars@;
        if col >= chars.len() {
            return (String::new(), col, col);
        }
        let mut start = col;
        while start > 0 && !is_whitespace(chars[start - 1])
            invariant
                0 <= start <= col < c.len(),
                c == chars@,
                scan_left_nonws(c, start as int) == scan_left_nonws(c, col as int),
            decreases start,
        {
            start -= 1;
        }
        let mut end = col;
        while end < chars.len() && !is_whitespace(chars[end])
            invariant
                col <= end <= c.len(),
                c == chars@,
                scan_right_nonws(c, end as int) == scan_right_nonws(c, col as int),
            decreases c.len() - end,
        {
            end += 1;
        }
        let word = sub_chars(&chars, start, end);
        proof {
            assert(word@ =~= c.subrange(start as int, end as int));
        }
        (word, start, end)
    }

    pub fn get_word_range(&self, line: usize, col: usize) -> (r: (String, usize, usize))
        ensures
            (r.0@, r.1 as int, r.2 as int) == word_at_spec(self.text(), line as int, col as int),
    {
        self.get_word_at(line, col)
    }

    /// The WORD (maximal run of non-whitespace characters) around the position.
    pub fn get_word_range_upper(&self, line: usize, col: usize) -> (r: (String, usize, usize))
        ensures
            (r.0@, r.1 as int, r.2 as int) == word_at_spec(self.text(), line as int, col as int),
    {
        self.get_word_at(line, col)
    }

    /// One-based lines `start_line..=end_line` (clamped to the text),
    /// joined with an extra line feed between consecutive lines.
    pub fn get_line_range(&self, start_line: usize, end_line: usize) -> (r: String)
        ensures
            r@ == get_line_range_spec(self.text(), start_line as int, end_line as int),
    {
        let ghost s = self.text();
        if start_line > end_line || start_line < 1 {
            return String::new();
        }
        let start = start_line - 1;
        let n = rope_len_lines(&self.doc);
        let end = if end_line < n {
            end_line
        } else {
            n
        };
        if start >= end {
            return String::new();
        }
        let mut result = String::new();
        let mut i = start;
        while i < end
            invariant
                start <= i <= end <= n,
                n == line_count(s),
                s == self.text(),
                start < end,
                i == start ==> result@ == Seq::<char>::empty(),
                start < i < end ==> result@ == lines_joined(s, start as int, i as int) + seq!['\n'],
                i == end ==> result@ == lines_joined(s, start as int, end as int),
            decreases end - i,
        {
            let line = rope_line_string(&self.doc, i);
            let ghost before = result@;
            push_str(&mut result, line.as_str());
            proof {
                if i == start {
                    assert(result@ =~= lines_joined(s, start as int, i + 1));
                } else {
                    assert(result@ =~= lines_joined(s, start as int, i + 1));
                }
            }
            if i < end - 1 {
                push_char(&mut result, '\n');
            }
            i += 1;
        }
        result
    }

    /// Text from (line `start_line`, column `start_col`) to (line `end_line`,
    /// column `end_col`); lines are one-based and read as empty when absent.
    pub fn get_char_range(&self, start_line: usize, start_col: usize, end_line: usize, end_col: usize) -> (r: String)
        ensures
            r@ == char_range_spec(
                self.text(),
                start_line as int,
                start_col as int,
                end_line as int,
                end_col as int,
            ),
    {
        let ghost s = self.text();
        if start_line > end_line {
            return String::new();
        }
        if start_line == end_line {
            if start_col >= end_col {
                return String::new();
            }
            let line_chars = self.line_chars(start_line);
            return sub_chars(&line_chars, start_col, end_col);
        }
        let first = self.line_chars(start_line);
        let mut result = sub_chars(&first, start_col, first.len());
        push_char(&mut result, '\n');
        let mut line_num = start_line + 1;
        while line_num < end_line
            invariant
                start_line < line_num <= end_line,
                s == self.text(),
                result@ == sub_spec(get_line_spec(s, start_line as int), start_col as int, get_line_spec(s, start_line as int).len() as int) + seq!['\n'] + middle_lines(s, start_line + 1, line_num as int),
            decreases end_line - line_num,
        {
            let l = self.get_line(line_num);
            push_str(&mut result, l.as_str());
            push_char(&mut result, '\n');
            proof {
                assert(result@ =~= sub_spec(get_line_spec(s, start_line as int), start_col as int, get_line_spec(s, start_line as int).len() as int) + seq!['\n'] + middle_lines(s, start_line + 1, line_num + 1));
            }
            line_num += 1;
        }
        let last = self.line_chars(end_line);
        let tail = sub_chars(&last, 0, end_col);
        push_str(&mut result, tail.as_str());
        result
    }

    /// Removes the one-based line `line` with its line break and returns it;
    /// an emptied buffer keeps a single line feed.
    pub fn delete_line(&mut self, line: usize) -> (r: String)
        ensures
            r@ == get_line_spec(old(self).text(), line as int),
            final(self).text() == delete_line_spec(old(self).text(), line as int),
            final(self).mods() == bump(old(self).mods(), delete_line_mods(old(self).text(), line as int)),
            final(self).path() == old(self).path(),
            final(self).saved() == old(self).saved(),
    {
        let ghost s = self.text();
        proof {
            lemma_bump_small(self.mods());
        }
        if line < 1 || line > self.line_count() {
            return String::new();
        }
        let line_idx = line - 1;
        proof {
            lemma_line_bounds(s, line_idx as int);
        }
        let content = rope_line_string(&self.doc, line_idx);
        let n = rope_len_lines(&self.doc);
        let char_start = rope_line_to_char(&self.doc, line_idx);
        let char_end = if line_idx + 1 < n {
            rope_line_to_char(&self.doc, line_idx + 1)
        } else {
            rope_len_chars(&self.doc)
        };
        if char_end > char_start {
            rope_remove(&mut self.doc, char_start, char_end);
            if rope_len_chars(&self.doc) == 0 {
                rope_insert(&mut self.doc, 0, "\n");
                proof {
                    reveal_strlit("\n");
                    assert(self.text() =~= seq!['\n']);
                }
            }
            self.mark_modified();
        }
        content
    }

    /// Removes the text from (line `start_line`, column `start_col`) to (line
    /// `end_line`, column `end_col`), columns clamped to their lines, and
    /// returns `get_char_range` of the same coordinates. Both lines must exist
    /// when `start_line <= end_line` (the rope panics otherwise).
    pub fn delete_range(&mut self, start_line: usize, start_col: usize, end_line: usize, end_col: usize) -> (r: String)
        requires
            start_line <= end_line ==> line_index(start_line as int) < line_count(old(self).text())
                && line_index(end_line as int) < line_count(old(self).text()),
        ensures
            r@ == char_range_spec(old(self).text(), start_line as int, start_col as int, end_line as int, end_col as int),
            final(self).text() == delete_range_spec(old(self).text(), start_line as int, start_col as int, end_line as int, end_col as int),
            final(self).mods() == if start_line <= end_line && clamped_pos(old(self).text(), start_line as int, start_col as int) < clamped_pos(old(self).text(), end_line as int, end_col as int) {
                next_count(old(self).mods())
            } else {
                old(self).mods()
            },
            final(self).path() == old(self).path(),
            final(self).saved() == old(self).saved(),
    {
        let ghost s = self.text();
        if start_line > end_line {
            return String::new();
        }
        let content = self.get_char_range(start_line, start_col, end_line, end_col);
        let start_line_idx = start_line.saturating_sub(1);
        let end_line_idx = end_line.saturating_sub(1);
        proof {
            lemma_line_bounds(s, start_line_idx as int);
            lemma_line_bounds(s, end_line_idx as int);
        }
        let _total = rope_len_chars(&self.doc);
        let sl = rope_line_len_chars(&self.doc, start_line_idx);
        let el = rope_line_len_chars(&self.doc, end_line_idx);
        let char_start = rope_line_to_char(&self.doc, start_line_idx) + if start_col < sl {
            start_col
        } else {
            sl
        };
        let char_end = rope_line_to_char(&self.doc, end_line_idx) + if end_col < el {
            end_col
        } else {
            el
        };
        if char_start < char_end {
            rope_remove(&mut self.doc, char_start, char_end);
            self.mark_modified();
        }
        content
    }

    /// Removes the characters in `[start, end)` when `start < end`.
    pub fn remove_range(&mut self, start: usize, end: usize)
        requires
            start < end ==> end <= old(self).text().len(),
        ensures
            final(self).text() == if start < end {
                cut(old(self).text(), start as int, end as int)
            } else {
                old(self).text()
            },
            final(self).mods() == if start < end {
                next_count(old(self).mods())
            } else {
                old(self).mods()
            },
            final(self).path() == old(self).path(),
            final(self).saved() == old(self).saved(),
    {
        if start < end {
            rope_remove(&mut self.doc, start, end);
            self.mark_modified();
        }
    }

    /// The rectangle of lines `start_line..=end_line` and columns
    /// `start_col..end_col` (corners in either order), one segment per line,
    /// segments separated by line feeds.
    pub fn get_block_range(&self, start_line: usize, start_col: usize, end_line: usize, end_col: usize) -> (r: String)
        ensures
            ({
                let sl = min(start_line as int, end_line as int);
                let el = if start_line <= end_line { end_line as int } else { start_line as int };
                let sc = min(start_col as int, end_col as int);
                let ec = if start_col <= end_col { end_col as int } else { start_col as int };
                r@ == block_text(self.text(), sl, el + 1, el, sc, ec)
            }),
    {
        let ghost s = self.text();
        let (s_line, e_line) = if start_line <= end_line {
            (start_line, end_line)
        } else {
            (end_line, start_line)
        };
        let (s_col, e_col) = if start_col <= end_col {
            (start_col, end_col)
        } else {
            (end_col, start_col)
        };
        let mut result = String::new();
        let mut line_num = s_line;
        loop
            invariant_except_break
                result@ == block_text(s, s_line as int, line_num as int, e_line as int, s_col as int, e_col as int),
            invariant
                s_line <= line_num <= e_line,
                s == self.text(),
            ensures
                result@ == block_text(s, s_line as int, e_line + 1, e_line as int, s_col as int, e_col as int),
            decreases e_line - line_num,
        {
            let chars = self.line_chars(line_num);
            let end = if e_col < chars.len() {
                e_col
            } else {
                chars.len()
            };
            if s_col < end {
                let seg = sub_chars(&chars, s_col, end);
                push_str(&mut result, seg.as_str());
            }
            if line_num < e_line {
                push_char(&mut result, '\n');
            }
            proof {
                assert(result@ =~= block_text(s, s_line as int, line_num + 1, e_line as int, s_col as int, e_col as int));
            }
            if line_num == e_line {
                break;
            }
            line_num += 1;
        }
        result
    }

    /// Removes the rectangle of lines `start_line..=end_line` and columns
    /// `start_col..end_col` (corners in either order), line after line, and
    /// returns the removed segments, each but the last line's followed by a
    /// line feed.
    pub fn delete_block_range(&mut self, start_line: usize, start_col: usize, end_line: usize, end_col: usize) -> (r: String)
        ensures
            ({
                let sl = min(start_line as int, end_line as int);
                let el = if start_line <= end_line { end_line as int } else { start_line as int };
                let sc = min(start_col as int, end_col as int);
                let ec = if start_col <= end_col { end_col as int } else { start_col as int };
                let d = block_delete(old(self).text(), sl, el, sc, ec);
                &&& r@ == d.1
                &&& final(self).text() == d.0
                &&& final(self).mods() == bump(old(self).mods(), d.2)
            }),
            final(self).path() == old(self).path(),
            final(self).saved() == old(self).saved(),
    {
        let ghost s0 = self.text();
        let ghost c0 = self.mods();
        let (s_line, e_line) = if start_line <= end_line {
            (start_line, end_line)
        } else {
            (end_line, start_line)
        };
        let (s_col, e_col) = if start_col <= end_col {
            (start_col, end_col)
        } else {
            (end_col, start_col)
        };
        let ghost goal = block_delete(s0, s_line as int, e_line as int, s_col as int, e_col as int);
        let ghost mut m: nat = 0;
        let mut result = String::new();
        let mut line_num = s_line;
        loop
            invariant_except_break
                ({
                    let rest = block_delete(self.text(), line_num as int, e_line as int, s_col as int, e_col as int);
                    goal == (rest.0, result@ + rest.1, m + rest.2)
                }),
            invariant
                s_line <= line_num <= e_line,
                self.path() == old(self).path(),
                self.saved() == old(self).saved(),
                self.mods() == bump(c0, m),
            ensures
                self.path() == old(self).path(),
                self.saved() == old(self).saved(),
                goal == (self.text(), result@, m),
                self.mods() == bump(c0, m),
            decreases e_line - line_num,
        {
            let ghost s = self.text();
            let chars = self.line_chars(line_num);
            let end = if e_col < chars.len() {
                e_col
            } else {
                chars.len()
            };
            if s_col < end {
                let seg = sub_chars(&chars, s_col, end);
                push_str(&mut result, seg.as_str());
                if line_num < e_line {
                    push_char(&mut result, '\n');
                }
                let line_idx = line_num.saturating_sub(1);
                proof {
                    lemma_line_bounds(s, line_idx as int);
                }
                let _total = rope_len_chars(&self.doc);
                let ls = rope_line_to_char(&self.doc, line_idx);
                let char_start = ls + s_col;
                let char_end = ls + end;
                if char_start < char_end && char_end <= rope_len_chars(&self.doc) {
                    rope_remove(&mut self.doc, char_start, char_end);
                    self.mark_modified();
                }
                proof {
                    m = m + 1;
                    assert(self.text() == cut(s, ls + s_col, ls + end));
                }
            } else if line_num < e_line {
                push_char(&mut result, '\n');
            }
            proof {
                let rest = block_delete(self.text(), line_num + 1, e_line as int, s_col as int, e_col as int);
                assert(goal == (rest.0, result@ + rest.1, m + rest.2));
            }
            if line_num == e_line {
                break;
            }
            line_num += 1;
        }
        result
    }
}

pub proof fn lemma_bump_small(c: usize)
    ensures
        bump(c, 0) == c,
        bump(c, 1) == next_count(c),
        bump(c, 2) == next_count(next_count(c)),
{
    reveal_with_fuel(bump, 3);
}

/// `v[a..b]` with both ends clamped to the length of `v`.
pub fn sub_chars(v: &Vec<char>, a: usize, b: usize) -> (r: String)
    ensures
        r@ == sub_spec(v@, a as int, b as int),
{
    let a1 = if a < v.len() {
        a
    } else {
        v.len()
    };
    let b1 = if b < v.len() {
        b
    } else {
        v.len()
    };
    let mut r = String::new();
    let mut i = a1;
    while i < b1
        invariant
            a1 <= i,
            i <= b1 || b1 <= a1,
            b1 <= a1 ==> i == a1,
            b1 <= v.len(),
            r@ =~= v@.subrange(a1 as int, i as int),
        decreases b1 - i,
    {
        push_char(&mut r, v[i]);
        i += 1;
    }
    proof {
        if !(a1 < b1) {
            assert(r@ =~= Seq::<char>::empty());
        }
    }
    r
}

/// Whether `t` is exactly one line feed.
pub(crate) fn is_single_newline(t: &str) -> (r: bool)
    ensures
        r == (t@ == seq!['\n']),
{
    let c = crate::strutil::chars_of(t);
    if c.len() == 1 && c[0] == '\n' {
        assert(t@ =~= seq!['\n']);
        true
    } else {
        false
    }
}

} // verus!
