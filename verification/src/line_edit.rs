//! Editing a one-line text with a cursor, as the command line and the
//! review comment box do. The cursor is a byte offset into the text; edits
//! work on whole characters.
use crate::chars::sub_vec;
use crate::keymap::Key;
use crate::review::state::ReviewState;
use crate::search::{chars_in_bytes, utf8_width};
use crate::strutil::{chars_of, string_of};
use crate::text::{is_whitespace, is_whitespace_spec};
use crate::types::EditorState;
use vstd::prelude::*;

verus! {

/// An edit of a one-line text.
#[derive(Debug, Clone, Copy, PartialEq, Eq, Structural)]
pub enum LineOp {
    /// Remove the character before the cursor.
    Backspace,
    /// Remove the character at the cursor.
    Delete,
    Left,
    Right,
    Home,
    End,
    /// Put a character at the cursor and move past it.
    Insert(char),
    /// Remove the word before the cursor (Ctrl-w): back over spaces, then
    /// to just after the last whitespace before them.
    DeleteWordBack,
}

/// Bytes that the UTF-8 encoding of `cs` takes.
pub open spec fn width_sum(cs: Seq<char>) -> int
    decreases cs.len(),
{
    if cs.len() == 0 {
        0
    } else {
        utf8_width(cs[0]) + width_sum(cs.drop_first())
    }
}

/// `s` without its trailing spaces.
pub open spec fn trim_spaces_end(s: Seq<char>) -> Seq<char>
    decreases s.len(),
{
    if s.len() > 0 && s.last() == ' ' {
        trim_spaces_end(s.drop_last())
    } else {
        s
    }
}

/// Index of the last whitespace character of `s`.
pub open spec fn last_whitespace(s: Seq<char>) -> Option<int>
    decreases s.len(),
{
    if s.len() == 0 {
        None
    } else if is_whitespace_spec(s.last()) {
        Some(s.len() - 1)
    } else {
        last_whitespace(s.drop_last())
    }
}

/// How many characters before the cursor at `k` Ctrl-w keeps.
pub open spec fn word_back_keep(cs: Seq<char>, k: int) -> int {
    match last_whitespace(trim_spaces_end(cs.take(k))) {
        Some(i) => i,
        None => 0,
    }
}

/// The characters and the cursor (a character index) after `op` on `cs`
/// with the cursor at character `k`.
pub open spec fn line_op_spec(cs: Seq<char>, k: int, op: LineOp) -> (Seq<char>, int) {
    match op {
        LineOp::Backspace => if k > 0 {
            (cs.remove(k - 1), k - 1)
        } else {
            (cs, k)
        },
        LineOp::Delete => if k < cs.len() {
            (cs.remove(k), k)
        } else {
            (cs, k)
        },
        LineOp::Left => if k > 0 {
            (cs, k - 1)
        } else {
            (cs, k)
        },
        LineOp::Right => if k < cs.len() {
            (cs, k + 1)
        } else {
            (cs, k)
        },
        LineOp::Home => (cs, 0),
        LineOp::End => (cs, cs.len() as int),
        LineOp::Insert(c) => (cs.insert(k, c), k + 1),
        LineOp::DeleteWordBack => if k > 0 {
            let keep = word_back_keep(cs, k);
            (cs.take(keep) + cs.skip(k), keep)
        } else {
            (cs, k)
        },
    }
}

/// The text and the byte cursor after `op` on `text` with the byte cursor
/// `cursor` (past the end counts as the end): the edit is made on the
/// characters, the cursor coming back as the bytes before it.
pub open spec fn line_edit_spec(text: Seq<char>, cursor: int, op: LineOp) -> (Seq<char>, int) {
    let k = chars_in_bytes(text, cursor) as int;
    let r = line_op_spec(text, k, op);
    (r.0, width_sum(r.0.take(r.1)))
}

proof fn lemma_chars_in_bytes_bound(cs: Seq<char>, b: int)
    ensures
        chars_in_bytes(cs, b) <= cs.len(),
    decreases cs.len(),
{
    if cs.len() > 0 && b > 0 {
        lemma_chars_in_bytes_bound(cs.drop_first(), b - utf8_width(cs[0]));
    }
}

fn char_width(c: char) -> (w: usize)
    ensures
        w == utf8_width(c),
{
    proof {
        vstd::utf8::char_is_scalar(c);
    }
    let u = c as u32;
    if u < 0x80 {
        1
    } else if u < 0x800 {
        2
    } else if u < 0x10000 {
        3
    } else {
        4
    }
}

proof fn lemma_width_sum_push(cs: Seq<char>, c: char)
    ensures
        width_sum(cs.push(c)) == width_sum(cs) + utf8_width(c),
    decreases cs.len(),
{
    if cs.len() > 0 {
        assert(cs.push(c).drop_first() =~= cs.drop_first().push(c));
        assert(cs.push(c)[0] == cs[0]);
        lemma_width_sum_push(cs.drop_first(), c);
    } else {
        assert(cs.push(c).drop_first() =~= Seq::<char>::empty());
        assert(cs.push(c)[0] == c);
        assert(width_sum(Seq::<char>::empty()) == 0);
    }
}

/// Bytes of the first `k` characters, when they fit in a `usize`.
fn prefix_bytes(cs: &[char], k: usize) -> (r: Option<usize>)
    requires
        k <= cs@.len(),
    ensures
        r matches Some(n) ==> n == width_sum(cs@.take(k as int)),
        r is None ==> width_sum(cs@.take(k as int)) > usize::MAX,
{
    let mut n: usize = 0;
    let mut i: usize = 0;
    proof {
        assert(cs@.take(0) =~= Seq::<char>::empty());
    }
    while i < k
        invariant
            i <= k <= cs@.len(),
            n == width_sum(cs@.take(i as int)),
        decreases k - i,
    {
        let w = char_width(cs[i]);
        proof {
            assert(cs@.take(i + 1) =~= cs@.take(i as int).push(cs@[i as int]));
            lemma_width_sum_push(cs@.take(i as int), cs@[i as int]);
        }
        if n > usize::MAX - w {
            proof {
                lemma_width_sum_mono(cs@, i + 1, k as int);
            }
            return None;
        }
        n = n + w;
        i += 1;
    }
    Some(n)
}

proof fn lemma_width_sum_mono(cs: Seq<char>, i: int, k: int)
    requires
        0 <= i <= k <= cs.len(),
    ensures
        width_sum(cs.take(i)) <= width_sum(cs.take(k)),
    decreases k - i,
{
    if i < k {
        lemma_width_sum_mono(cs, i, k - 1);
        assert(cs.take(k) =~= cs.take(k - 1).push(cs[k - 1]));
        lemma_width_sum_push(cs.take(k - 1), cs[k - 1]);
        assert(utf8_width(cs[k - 1]) >= 0) by {
            vstd::utf8::char_is_scalar(cs[k - 1]);
        }
    }
}

/// Characters counted by `chars_in_bytes`.
fn chars_before(cs: &[char], b: usize) -> (r: usize)
    ensures
        r == chars_in_bytes(cs@, b as int),
{
    let mut k: usize = 0;
    let mut rem = b;
    proof {
        assert(cs@.skip(0) =~= cs@);
    }
    while k < cs.len() && rem > 0
        invariant
            0 <= k <= cs@.len(),
            k + chars_in_bytes(cs@.skip(k as int), rem as int) == chars_in_bytes(cs@, b as int),
        decreases cs@.len() - k,
    {
        let w = char_width(cs[k]);
        proof {
            let t = cs@.skip(k as int);
            assert(t.drop_first() =~= cs@.skip(k + 1));
            assert(t[0] == cs@[k as int]);
            if rem < w {
                assert(chars_in_bytes(cs@.skip(k + 1), rem - w) == 0);
                assert(chars_in_bytes(cs@.skip(k + 1), 0) == 0);
            }
        }
        rem = rem.saturating_sub(w);
        k += 1;
    }
    proof {
        if k >= cs@.len() {
            assert(cs@.skip(k as int).len() == 0);
        }
    }
    k
}

/// Characters kept by Ctrl-w before the cursor at `k`.
fn word_back_kept(cs: &[char], k: usize) -> (r: usize)
    requires
        k <= cs@.len(),
    ensures
        r == word_back_keep(cs@, k as int),
        r <= k,
{
    let mut j = k;
    proof {
        assert(cs@.take(k as int).take(j as int) =~= cs@.take(k as int));
    }
    while j > 0 && cs[j - 1] == ' '
        invariant
            j <= k <= cs@.len(),
            trim_spaces_end(cs@.take(j as int)) == trim_spaces_end(cs@.take(k as int)),
        decreases j,
    {
        proof {
            assert(cs@.take(j as int).drop_last() =~= cs@.take(j - 1));
        }
        j -= 1;
    }
    proof {
        assert(trim_spaces_end(cs@.take(j as int)) == cs@.take(j as int));
    }
    let mut i = j;
    while i > 0 && !is_whitespace(cs[i - 1])
        invariant
            i <= j <= k <= cs@.len(),
            last_whitespace(cs@.take(i as int)) == last_whitespace(cs@.take(j as int)),
        decreases i,
    {
        proof {
            assert(cs@.take(i as int).drop_last() =~= cs@.take(i - 1));
        }
        i -= 1;
    }
    if i == 0 {
        proof {
            assert(cs@.take(0) =~= Seq::<char>::empty());
        }
        0
    } else {
        i - 1
    }
}

/// `op` on `text` with the byte cursor `cursor` (see `line_edit_spec`).
/// `None`, when the new cursor would not fit in a `usize`.
pub fn line_edit(text: &str, cursor: usize, op: LineOp) -> (r: Option<(String, usize)>)
    ensures
        ({
            let e = line_edit_spec(text@, cursor as int, op);
            &&& r matches Some((t, c)) ==> t@ == e.0 && c == e.1
            &&& r is None ==> e.1 > usize::MAX
        }),
{
    let cs = chars_of(text);
    let k = chars_before(cs.as_slice(), cursor);
    proof {
        lemma_chars_in_bytes_bound(cs@, cursor as int);
    }
    let n = cs.len();
    let mut out: Vec<char> = cs.clone();
    let mut nk: usize = k;
    match op {
        LineOp::Backspace => {
            if k > 0 {
                out.remove(k - 1);
                nk = k - 1;
            }
        },
        LineOp::Delete => {
            if k < n {
                out.remove(k);
            }
        },
        LineOp::Left => {
            if k > 0 {
                nk = k - 1;
            }
        },
        LineOp::Right => {
            if k < n {
                nk = k + 1;
            }
        },
        LineOp::Home => {
            nk = 0;
        },
        LineOp::End => {
            nk = n;
        },
        LineOp::Insert(c) => {
            out.insert(k, c);
            let len_after = out.len();
            nk = if k < len_after {
                k + 1
            } else {
                len_after
            };
        },
        LineOp::DeleteWordBack => {
            if k > 0 {
                let keep = word_back_kept(cs.as_slice(), k);
                let mut v = sub_vec(cs.as_slice(), 0, keep);
                let rest = sub_vec(cs.as_slice(), k, n);
                let mut i: usize = 0;
                let ghost v0 = v@;
                while i < rest.len()
                    invariant
                        i <= rest@.len(),
                        v@ == v0 + rest@.take(i as int),
                    decreases rest@.len() - i,
                {
                    v.push(rest[i]);
                    proof {
                        assert(rest@.take(i + 1) =~= rest@.take(i as int).push(rest@[i as int]));
                    }
                    i += 1;
                }
                proof {
                    assert(rest@.take(rest@.len() as int) =~= rest@);
                    assert(v0 =~= cs@.take(keep as int));
                    assert(rest@ =~= cs@.skip(k as int));
                }
                out = v;
                nk = keep;
            }
        },
    }
    let ghost e = line_op_spec(cs@, k as int, op);
    proof {
        assert(out@ =~= e.0);
        assert(nk == e.1);
    }
    match prefix_bytes(out.as_slice(), nk) {
        Some(b) => Some((string_of(out.as_slice()), b)),
        None => None,
    }
}

/// The edit a key makes in the review comment box.
pub open spec fn comment_op(key: Key) -> Option<LineOp> {
    match key {
        Key::Backspace => Some(LineOp::Backspace),
        Key::Delete => Some(LineOp::Delete),
        Key::Left => Some(LineOp::Left),
        Key::Right => Some(LineOp::Right),
        Key::Home => Some(LineOp::Home),
        Key::End => Some(LineOp::End),
        Key::Char(c) => Some(LineOp::Insert(c)),
        _ => None,
    }
}

/// The edit a key makes on the command line (`ctrl` when Ctrl is held):
/// Ctrl-a and Ctrl-e go to the start and end, Ctrl-w removes a word.
pub open spec fn command_op(key: Key, ctrl: bool) -> Option<LineOp> {
    match key {
        Key::Backspace => Some(LineOp::Backspace),
        Key::Left => Some(LineOp::Left),
        Key::Right => Some(LineOp::Right),
        Key::Char(c) => if ctrl {
            if c == 'a' {
                Some(LineOp::Home)
            } else if c == 'e' {
                Some(LineOp::End)
            } else if c == 'w' {
                Some(LineOp::DeleteWordBack)
            } else {
                None
            }
        } else {
            Some(LineOp::Insert(c))
        },
        _ => None,
    }
}

fn comment_op_of(key: Key) -> (r: Option<LineOp>)
    ensures
        r == comment_op(key),
{
    match key {
        Key::Backspace => Some(LineOp::Backspace),
        Key::Delete => Some(LineOp::Delete),
        Key::Left => Some(LineOp::Left),
        Key::Right => Some(LineOp::Right),
        Key::Home => Some(LineOp::Home),
        Key::End => Some(LineOp::End),
        Key::Char(c) => Some(LineOp::Insert(c)),
        _ => None,
    }
}

fn command_op_of(key: Key, ctrl: bool) -> (r: Option<LineOp>)
    ensures
        r == command_op(key, ctrl),
{
    match key {
        Key::Backspace => Some(LineOp::Backspace),
        Key::Left => Some(LineOp::Left),
        Key::Right => Some(LineOp::Right),
        Key::Char(c) => if ctrl {
            if c == 'a' {
                Some(LineOp::Home)
            } else if c == 'e' {
                Some(LineOp::End)
            } else if c == 'w' {
                Some(LineOp::DeleteWordBack)
            } else {
                None
            }
        } else {
            Some(LineOp::Insert(c))
        },
        _ => None,
    }
}

impl ReviewState {
    /// A key typed in the comment box: edits the comment and its cursor
    /// (see `comment_op`); other keys, and an edit whose cursor would not
    /// fit in a `usize`, change nothing. Says whether the comment or the
    /// cursor changed.
    pub fn comment_key(&mut self, key: Key) -> (changed: bool)
        ensures
            match comment_op(key) {
                Some(op) => {
                    let e = line_edit_spec(old(self).comment_buffer@, old(self).comment_cursor as int, op);
                    &&& e.1 <= usize::MAX ==> final(self).comment_buffer@ == e.0 && final(self).comment_cursor == e.1
                        && changed
                    &&& e.1 > usize::MAX ==> *final(self) == *old(self) && !changed
                },
                None => *final(self) == *old(self) && !changed,
            },
            final(self).sub_mode == old(self).sub_mode,
            final(self).files == old(self).files,
            final(self).annotations == old(self).annotations,
            final(self).selected_file == old(self).selected_file,
            final(self).selected_hunk == old(self).selected_hunk,
    {
        let op = match comment_op_of(key) {
            Some(op) => op,
            None => {
                return false;
            },
        };
        match line_edit(self.comment_buffer.as_str(), self.comment_cursor, op) {
            Some((t, c)) => {
                self.comment_buffer = t;
                self.comment_cursor = c;
                true
            },
            None => false,
        }
    }
}

impl EditorState {
    /// A key typed on the command line (Ctrl held when `ctrl`): edits the
    /// command and its cursor (see `command_op`); other keys, and an edit
    /// whose cursor would not fit in a `usize`, change nothing. Says
    /// whether the command line changed.
    pub fn command_key(&mut self, key: Key, ctrl: bool) -> (changed: bool)
        ensures
            match command_op(key, ctrl) {
                Some(op) => {
                    let e = line_edit_spec(old(self).command_buffer@, old(self).command_cursor_pos as int, op);
                    &&& e.1 <= usize::MAX ==> *final(self) == (EditorState {
                        command_buffer: final(self).command_buffer,
                        command_cursor_pos: e.1 as usize,
                        ..*old(self)
                    }) && final(self).command_buffer@ == e.0 && changed
                    &&& e.1 > usize::MAX ==> *final(self) == *old(self) && !changed
                },
                None => *final(self) == *old(self) && !changed,
            },
    {
        let op = match command_op_of(key, ctrl) {
            Some(op) => op,
            None => {
                return false;
            },
        };
        match line_edit(self.command_buffer.as_str(), self.command_cursor_pos, op) {
            Some((t, c)) => {
                self.command_buffer = t;
                self.command_cursor_pos = c;
                true
            },
            None => false,
        }
    }
}

} // verus!
