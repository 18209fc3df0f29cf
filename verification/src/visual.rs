//! Vim Visual mode: the selection, yanking and deleting it, and its keys.
use crate::buffer::{block_delete, block_text, char_range_spec, delete_line_spec, delete_range_spec, get_line_range_spec, get_line_spec, line_index};
use crate::chars::skip_ws;
use crate::engine::Engine;
use crate::keymap::Key;
use crate::motion::{line_of, max_i, min_i, moved, sat};
use crate::register::osc52_spec;
use crate::strutil::{push_char, push_str};
use crate::text::{is_whitespace, line_count};
use crate::types::{EditorState, Mode, PluginEvent, Position, VisualType};
use vstd::prelude::*;

verus! {

/// The selection from `s` to `e` in reading order, as `(line, col, line,
/// col past the end)`.
pub open spec fn norm_sel(s: Position, e: Position) -> (int, int, int, int) {
    if s.line < e.line || (s.line == e.line && s.col <= e.col) {
        (s.line as int, s.col as int, e.line as int, e.col + 1)
    } else {
        (e.line as int, e.col as int, s.line as int, s.col + 1)
    }
}

pub fn normalize_selection(start: Position, end: Position) -> (r: (usize, usize, usize, usize))
    requires
        start.col < usize::MAX,
        end.col < usize::MAX,
    ensures
        (r.0 as int, r.1 as int, r.2 as int, r.3 as int) == norm_sel(start, end),
{
    if start.line < end.line || (start.line == end.line && start.col <= end.col) {
        (start.line, start.col, end.line, end.col + 1)
    } else {
        (end.line, end.col, start.line, start.col + 1)
    }
}

/// The lines `a` and `b` in order.
pub open spec fn norm_lines(a: int, b: int) -> (int, int) {
    if a <= b {
        (a, b)
    } else {
        (b, a)
    }
}

/// The block corners: first and last line, first and last column.
pub open spec fn block_corners(s: Position, e: Position) -> (int, int, int, int) {
    (
        min_i(s.line as int, e.line as int),
        if s.line <= e.line { e.line as int } else { s.line as int },
        min_i(s.col as int, e.col as int),
        if s.col <= e.col { e.col as int } else { s.col as int },
    )
}

/// The text the selection holds, when there is one.
pub open spec fn selection_text(e: Engine) -> Option<Seq<char>> {
    let t = e.buffer.text();
    let c = e.state.cursor;
    match (e.state.visual_start, e.state.visual_type) {
        (Some(st), Some(vt)) => Some(
            match vt {
                VisualType::Character => {
                    let n = norm_sel(st, c);
                    char_range_spec(t, n.0, n.1, n.2, n.3)
                },
                VisualType::Line => {
                    let n = norm_lines(st.line as int, c.line as int);
                    get_line_range_spec(t, n.0, n.1)
                },
                VisualType::Block => {
                    let b = block_corners(st, c);
                    block_text(t, b.0, b.1 + 1, b.1, b.2, b.3)
                },
            },
        ),
        _ => None,
    }
}

/// Deleting `count` lines at line `a`: the text left and the deleted lines,
/// joined with one more line break between them.
pub open spec fn delete_lines(t: Seq<char>, a: int, count: nat) -> (Seq<char>, Seq<char>)
    decreases count,
{
    if count == 0 {
        (t, Seq::empty())
    } else {
        let rest = delete_lines(delete_line_spec(t, a), a, (count - 1) as nat);
        (rest.0, get_line_spec(t, a) + (if count > 1 { seq!['\n'] } else { Seq::<char>::empty() }) + rest.1)
    }
}

/// What deleting a selection of type `vt` from `st` to `c` leaves: the
/// text, what was deleted, and where the cursor goes.
pub open spec fn delete_for(t: Seq<char>, st: Position, c: Position, vt: VisualType) -> (Seq<char>, Seq<char>, Position) {
    match vt {
        VisualType::Character => {
            let n = norm_sel(st, c);
            (
                delete_range_spec(t, n.0, n.1, n.2, n.3),
                char_range_spec(t, n.0, n.1, n.2, n.3),
                Position { line: n.0 as usize, col: n.1 as usize },
            )
        },
        VisualType::Line => {
            let n = norm_lines(st.line as int, c.line as int);
            let d = delete_lines(t, n.0, (n.1 - n.0 + 1) as nat);
            (d.0, d.1, Position { line: min_i(n.0, line_count(d.0) as int) as usize, col: 0 })
        },
        VisualType::Block => {
            let b = block_corners(st, c);
            let d = block_delete(t, b.0, b.1, b.2, b.3);
            (d.0, d.1, Position { line: b.0 as usize, col: b.2 as usize })
        },
    }
}

/// What deleting the selection leaves: the text, what was deleted, and
/// where the cursor goes.
pub open spec fn selection_delete(e: Engine) -> Option<(Seq<char>, Seq<char>, Position)> {
    match (e.state.visual_start, e.state.visual_type) {
        (Some(st), Some(vt)) => Some(delete_for(e.buffer.text(), st, e.state.cursor, vt)),
        _ => None,
    }
}

/// The selection can be deleted: both ends on existing lines, away from
/// the largest column and line numbers.
pub open spec fn selection_ok(e: Engine) -> bool {
    e.state.visual_start matches Some(st) ==> {
        let t = e.buffer.text();
        &&& line_index(st.line as int) < line_count(t)
        &&& line_index(e.state.cursor.line as int) < line_count(t)
        &&& st.col < usize::MAX
        &&& e.state.cursor.col < usize::MAX
        &&& st.line < usize::MAX
        &&& e.state.cursor.line < usize::MAX
    }
}

/// The register after the unnamed register is set to `c`.
pub open spec fn unnamed_set(old_reg: crate::register::Register, new_reg: crate::register::Register, c: Seq<char>) -> bool {
    &&& new_reg.view() == old_reg.view().insert('"', c)
    &&& new_reg.default_name() == old_reg.default_name()
    &&& new_reg.pending_clipboard() == if c.len() > 0 {
        old_reg.pending_clipboard().push(osc52_spec(c))
    } else {
        old_reg.pending_clipboard()
    }
}

/// Column of the first non-blank character of a line (0 when there is none).
pub open spec fn first_non_blank_col(c: Seq<char>) -> int {
    if skip_ws(c, 0) < c.len() {
        skip_ws(c, 0)
    } else {
        0
    }
}

/// Column that `$` moves to: the last byte before the line break.
pub open spec fn line_end_byte_col(c: Seq<char>) -> int {
    let n = vstd::utf8::encode_utf8(c).len() as usize as int;
    if n > 0 && c.len() > 0 && c.last() == '\n' {
        sat(n, 2)
    } else {
        sat(n, 1)
    }
}

/// Bytes in a line's text.
pub open spec fn byte_len(c: Seq<char>) -> int {
    vstd::utf8::encode_utf8(c).len() as usize as int
}

/// `after` is `before` with the selection copied to the unnamed register.
pub open spec fn yanks_selection(before: Engine, after: Engine) -> bool {
    &&& match selection_text(before) {
        Some(c) => unnamed_set(before.register, after.register, c),
        None => after.register == before.register,
    }
    &&& after == (Engine { register: after.register, ..before })
}

/// `after` is `before` with the selection deleted into the unnamed
/// register, the cursor where the selection started.
pub open spec fn deletes_selection(before: Engine, after: Engine) -> bool {
    match selection_delete(before) {
        Some((t, c, p)) => {
            &&& after.buffer.text() == t
            &&& unnamed_set(before.register, after.register, c)
            &&& after.state.dirty == !after.buffer.clean()
            &&& after.plugin_manager.pending() == before.plugin_manager.pending().push(PluginEvent::BufferChange)
            &&& after.plugin_manager.plugin_names() == before.plugin_manager.plugin_names()
            &&& after.plugin_manager.loaders() == before.plugin_manager.loaders()
            &&& after == (Engine {
                buffer: after.buffer,
                register: after.register,
                state: EditorState { cursor: p, dirty: after.state.dirty, ..before.state },
                plugin_manager: after.plugin_manager,
                ..before
            })
        },
        None => after == before,
    }
}

/// `after` is `before` out of Visual mode, in mode `to`, with the mode
/// change queued for plugins.
pub open spec fn leaves_visual(before: Engine, after: Engine, to: Mode) -> bool {
    &&& after.state == (EditorState { mode: to, visual_start: None, visual_type: None, ..before.state })
    &&& after.plugin_manager.pending() == before.plugin_manager.pending().push(
        PluginEvent::ModeChange { from: before.state.mode, to },
    )
    &&& after.plugin_manager.plugin_names() == before.plugin_manager.plugin_names()
    &&& after.plugin_manager.loaders() == before.plugin_manager.loaders()
    &&& after == (Engine { state: after.state, plugin_manager: after.plugin_manager, ..before })
}

/// `after` is `before` with the selection deleted into the unnamed
/// register, then out of Visual mode in mode `to`.
pub open spec fn deletes_and_leaves(before: Engine, after: Engine, to: Mode) -> bool {
    match selection_delete(before) {
        Some((t, c, p)) => {
            &&& after.buffer.text() == t
            &&& unnamed_set(before.register, after.register, c)
            &&& after.state == (EditorState {
                cursor: p,
                dirty: !after.buffer.clean(),
                mode: to,
                visual_start: None,
                visual_type: None,
                ..before.state
            })
            &&& after.plugin_manager.pending() == before.plugin_manager.pending().push(PluginEvent::BufferChange).push(
                PluginEvent::ModeChange { from: before.state.mode, to },
            )
            &&& after.plugin_manager.plugin_names() == before.plugin_manager.plugin_names()
            &&& after.plugin_manager.loaders() == before.plugin_manager.loaders()
            &&& after == (Engine {
                buffer: after.buffer,
                register: after.register,
                state: after.state,
                plugin_manager: after.plugin_manager,
                ..before
            })
        },
        None => leaves_visual(before, after, to),
    }
}

/// The column where the selection started (0 when there is none).
pub open spec fn start_col_or_zero(e: Engine) -> int {
    match e.state.visual_start {
        Some(s) => s.col as int,
        None => 0,
    }
}

/// The cursor may take any Visual-mode key: the selection can be deleted,
/// and the cursor is away from the largest line and column numbers.
pub open spec fn visual_key_ok(e: Engine) -> bool {
    &&& selection_ok(e)
    &&& e.state.cursor.line < usize::MAX
    &&& e.state.cursor.col < usize::MAX
}

/// `after` is `before` with the selection copied, then out of Visual mode.
pub open spec fn yanks_and_leaves(before: Engine, after: Engine) -> bool {
    let mid = Engine { register: after.register, ..before };
    yanks_selection(before, mid) && leaves_visual(mid, after, Mode::Normal)
}

/// Moving the cursor to column `col` of line `l`, where the column is at
/// most the last byte of that line.
pub open spec fn byte_clamped(before: Engine, l: int, col: int) -> Engine {
    moved(before, l, min_i(col, sat(byte_len(line_of(before, l)), 1)))
}

/// Block `I` or `A`: the cursor to the left or right side of the block,
/// then Insert mode.
pub open spec fn block_insert(before: Engine, after: Engine, right: bool) -> bool {
    let s = start_col_or_zero(before);
    let c = before.state.cursor.col as int;
    leaves_visual(moved(before, before.state.cursor.line as int, if right { max_i(s, c) } else { min_i(s, c) }), after, Mode::Insert)
}

/// What a key does in Visual mode.
pub open spec fn visual_key_effect(before: Engine, after: Engine, key: Key) -> bool {
    let cur = before.state.cursor;
    let block = before.state.visual_type == Some(VisualType::Block);
    if key == Key::Esc {
        leaves_visual(before, after, Mode::Normal)
    } else if key == Key::Char('y') {
        yanks_and_leaves(before, after)
    } else if key == Key::Char('d') {
        deletes_and_leaves(before, after, Mode::Normal)
    } else if key == Key::Char('c') {
        deletes_and_leaves(before, after, Mode::Insert)
    } else if key == Key::Char('h') {
        after == moved(before, cur.line as int, sat(cur.col as int, 1))
    } else if key == Key::Char('l') {
        after == byte_clamped(before, cur.line as int, cur.col + 1)
    } else if key == Key::Char('j') {
        after == byte_clamped(before, min_i(cur.line + 1, line_count(before.buffer.text()) as int), cur.col as int)
    } else if key == Key::Char('k') {
        after == byte_clamped(before, max_i(sat(cur.line as int, 1), 1), cur.col as int)
    } else if key == Key::Char('0') {
        after == moved(before, cur.line as int, 0)
    } else if key == Key::Char('^') {
        after == moved(before, cur.line as int, first_non_blank_col(line_of(before, cur.line as int)))
    } else if key == Key::Char('$') {
        after == moved(before, cur.line as int, line_end_byte_col(line_of(before, cur.line as int)))
    } else if key == Key::Char('I') && block {
        block_insert(before, after, false)
    } else if key == Key::Char('A') && block {
        block_insert(before, after, true)
    } else {
        after == before
    }
}

impl Engine {
    /// `^`: to the first non-blank character of the line.
    pub fn cursor_first_non_blank(&mut self)
        ensures
            *final(self) == moved(
                *old(self),
                old(self).state.cursor.line as int,
                first_non_blank_col(line_of(*old(self), old(self).state.cursor.line as int)),
            ),
    {
        let chars = self.buffer.line_chars(self.state.cursor.line);
        let n = chars.len();
        let mut i: usize = 0;
        while i < n && is_whitespace(chars[i])
            invariant
                0 <= i <= n,
                n == chars@.len(),
                skip_ws(chars@, i as int) == skip_ws(chars@, 0),
            decreases n - i,
        {
            i += 1;
        }
        self.state.cursor.col = if i < n {
            i
        } else {
            0
        };
    }

    /// `$` with a count: down `count - 1` lines (at most to the last), to
    /// the end of that line.
    pub fn cursor_line_end_bytes(&mut self, count: usize)
        requires
            old(self).state.cursor.line + count <= usize::MAX,
            count >= 1,
        ensures
            ({
                let l = min_i(old(self).state.cursor.line + count - 1, line_count(old(self).buffer.text()) as int);
                *final(self) == moved(*old(self), l, line_end_byte_col(line_of(*old(self), l)))
            }),
    {
        let lc = self.buffer.line_count();
        let t = self.state.cursor.line + count - 1;
        let target = if t <= lc {
            t
        } else {
            lc
        };
        let line = self.buffer.get_line(target);
        let len = line.as_str().len();
        let chars = self.buffer.line_chars(target);
        let ends_nl = chars.len() > 0 && chars[chars.len() - 1] == '\n';
        self.state.cursor.line = target;
        self.state.cursor.col = if len > 0 && ends_nl {
            len.saturating_sub(2)
        } else {
            len.saturating_sub(1)
        };
    }

    /// Copies the selection to the unnamed register.
    pub fn visual_yank(&mut self)
        requires
            old(self).state.visual_start matches Some(st) ==> st.col < usize::MAX && old(self).state.cursor.col < usize::MAX,
        ensures
            yanks_selection(*old(self), *final(self)),
    {
        let start = match self.state.visual_start {
            Some(s) => s,
            None => {
                return;
            },
        };
        let vt = match self.state.visual_type {
            Some(t) => t,
            None => {
                return;
            },
        };
        let c = self.state.cursor;
        let content = match vt {
            VisualType::Character => {
                let (a, b, x, y) = normalize_selection(start, c);
                self.buffer.get_char_range(a, b, x, y)
            },
            VisualType::Line => {
                let (a, b) = if start.line <= c.line {
                    (start.line, c.line)
                } else {
                    (c.line, start.line)
                };
                self.buffer.get_line_range(a, b)
            },
            VisualType::Block => self.buffer.get_block_range(start.line, start.col, c.line, c.col),
        };
        self.register.set('"', content.as_str());
        proof {
            assert(crate::text::to_ascii_lowercase_spec('"') == '"');
        }
    }

    fn delete_selected_lines(&mut self, a: usize, count: usize) -> (r: String)
        ensures
            (final(self).buffer.text(), r@) == delete_lines(old(self).buffer.text(), a as int, count as nat),
            *final(self) == (Engine { buffer: final(self).buffer, ..*old(self) }),
    {
        let ghost t0 = self.buffer.text();
        let mut content = String::new();
        let mut i: usize = 0;
        proof {
            assert(content@ + delete_lines(t0, a as int, count as nat).1 =~= delete_lines(t0, a as int, count as nat).1);
        }
        while i < count
            invariant
                0 <= i <= count,
                delete_lines(self.buffer.text(), a as int, (count - i) as nat).0 == delete_lines(t0, a as int, count as nat).0,
                content@ + delete_lines(self.buffer.text(), a as int, (count - i) as nat).1 == delete_lines(
                    t0,
                    a as int,
                    count as nat,
                ).1,
                *self == (Engine { buffer: self.buffer, ..*old(self) }),
            decreases count - i,
        {
            let ghost t = self.buffer.text();
            let ghost c0 = content@;
            let deleted = self.buffer.delete_line(a);
            push_str(&mut content, deleted.as_str());
            if i + 1 < count {
                push_char(&mut content, '\n');
            }
            proof {
                let k = (count - i) as nat;
                let rest = delete_lines(delete_line_spec(t, a as int), a as int, (k - 1) as nat);
                assert(delete_lines(t, a as int, k).1 == get_line_spec(t, a as int) + (if k > 1 {
                    seq!['\n']
                } else {
                    Seq::<char>::empty()
                }) + rest.1);
                assert(content@ =~= c0 + get_line_spec(t, a as int) + (if k > 1 {
                    seq!['\n']
                } else {
                    Seq::<char>::empty()
                }));
                assert(content@ + rest.1 =~= c0 + delete_lines(t, a as int, k).1);
            }
            i += 1;
        }
        proof {
            assert(content@ + Seq::<char>::empty() =~= content@);
        }
        content
    }

    fn delete_selection(&mut self, start: Position, vt: VisualType) -> (r: (String, Position))
        requires
            line_index(start.line as int) < line_count(old(self).buffer.text()),
            line_index(old(self).state.cursor.line as int) < line_count(old(self).buffer.text()),
            start.col < usize::MAX,
            old(self).state.cursor.col < usize::MAX,
            start.line < usize::MAX,
            old(self).state.cursor.line < usize::MAX,
        ensures
            (final(self).buffer.text(), r.0@, r.1) == delete_for(old(self).buffer.text(), start, old(self).state.cursor, vt),
            *final(self) == (Engine { buffer: final(self).buffer, ..*old(self) }),
    {
        let c = self.state.cursor;
        match vt {
            VisualType::Character => {
                let (a, b, x, y) = normalize_selection(start, c);
                let content = self.buffer.delete_range(a, b, x, y);
                (content, Position { line: a, col: b })
            },
            VisualType::Line => {
                let (a, b) = if start.line <= c.line {
                    (start.line, c.line)
                } else {
                    (c.line, start.line)
                };
                let count = b - a + 1;
                let content = self.delete_selected_lines(a, count);
                let lc = self.buffer.line_count();
                (content, Position { line: if a <= lc { a } else { lc }, col: 0 })
            },
            VisualType::Block => {
                let sl = if start.line <= c.line { start.line } else { c.line };
                let sc = if start.col <= c.col { start.col } else { c.col };
                let content = self.buffer.delete_block_range(start.line, start.col, c.line, c.col);
                (content, Position { line: sl, col: sc })
            },
        }
    }

    /// Deletes the selection into the unnamed register; the cursor goes to
    /// where it started.
    pub fn visual_delete(&mut self)
        requires
            selection_ok(*old(self)),
        ensures
            deletes_selection(*old(self), *final(self)),
    {
        let start = match self.state.visual_start {
            Some(s) => s,
            None => {
                return;
            },
        };
        let vt = match self.state.visual_type {
            Some(t) => t,
            None => {
                return;
            },
        };
        let (content, pos) = self.delete_selection(start, vt);
        self.register.set('"', content.as_str());
        proof {
            assert(crate::text::to_ascii_lowercase_spec('"') == '"');
        }
        self.state.cursor = pos;
        self.emit_buffer_change();
    }

    /// Bytes in line `l`.
    pub fn line_bytes(&self, l: usize) -> (r: usize)
        ensures
            r as int == byte_len(line_of(*self, l as int)),
    {
        let line = self.buffer.get_line(l);
        line.as_str().len()
    }

    /// `$` in Visual mode: to the last byte of the cursor's line before its
    /// line break.
    pub fn cursor_line_end_byte(&mut self)
        ensures
            *final(self) == moved(
                *old(self),
                old(self).state.cursor.line as int,
                line_end_byte_col(line_of(*old(self), old(self).state.cursor.line as int)),
            ),
    {
        let l = self.state.cursor.line;
        let len = self.line_bytes(l);
        let chars = self.buffer.line_chars(l);
        let ends_nl = chars.len() > 0 && chars[chars.len() - 1] == '\n';
        self.state.cursor.col = if len > 0 && ends_nl {
            len.saturating_sub(2)
        } else {
            len.saturating_sub(1)
        };
    }

    /// Ends Visual mode for `to`, dropping the selection.
    fn leave_visual(&mut self, to: Mode)
        ensures
            leaves_visual(*old(self), *final(self), to),
    {
        let from = self.state.mode;
        self.state.mode = to;
        self.state.visual_start = None;
        self.state.visual_type = None;
        self.plugin_manager.emit(PluginEvent::ModeChange { from, to });
    }

    /// Whether every Visual-mode key can be taken now.
    pub fn visual_key_allowed(&self) -> (r: bool)
        ensures
            r == visual_key_ok(*self),
    {
        let lc = self.buffer.line_count();
        let c = self.state.cursor;
        if c.line == usize::MAX || c.col == usize::MAX {
            return false;
        }
        match self.state.visual_start {
            Some(st) => {
                let li = if st.line >= 1 { st.line - 1 } else { 0 };
                let lc2 = if c.line >= 1 { c.line - 1 } else { 0 };
                st.col < usize::MAX && st.line < usize::MAX && li < lc && lc2 < lc
            },
            None => true,
        }
    }

    fn yank_and_leave(&mut self)
        requires
            visual_key_ok(*old(self)),
        ensures
            yanks_and_leaves(*old(self), *final(self)),
    {
        self.visual_yank();
        self.leave_visual(Mode::Normal);
    }

    fn delete_and_leave(&mut self, to: Mode)
        requires
            visual_key_ok(*old(self)),
        ensures
            deletes_and_leaves(*old(self), *final(self), to),
    {
        self.visual_delete();
        self.leave_visual(to);
    }

    /// The cursor to line `l`, column `col`, but at most the line's last byte.
    pub fn move_byte_clamped(&mut self, l: usize, col: usize)
        ensures
            *final(self) == byte_clamped(*old(self), l as int, col as int),
    {
        let m = self.line_bytes(l).saturating_sub(1);
        self.state.cursor.line = l;
        self.state.cursor.col = if col <= m {
            col
        } else {
            m
        };
    }

    fn block_insert_side(&mut self, right: bool)
        ensures
            block_insert(*old(self), *final(self), right),
    {
        let s = match self.state.visual_start {
            Some(p) => p.col,
            None => 0,
        };
        let c = self.state.cursor.col;
        self.state.cursor.col = if right == (s >= c) {
            s
        } else {
            c
        };
        self.leave_visual(Mode::Insert);
    }

    /// A key in Visual mode.
    pub fn visual_key(&mut self, key: Key)
        requires
            visual_key_ok(*old(self)),
        ensures
            visual_key_effect(*old(self), *final(self), key),
    {
        let block = match self.state.visual_type {
            Some(VisualType::Block) => true,
            _ => false,
        };
        let cur = self.state.cursor;
        match key {
            Key::Esc => {
                self.leave_visual(Mode::Normal);
            },
            Key::Char('y') => {
                self.yank_and_leave();
            },
            Key::Char('d') => {
                self.delete_and_leave(Mode::Normal);
            },
            Key::Char('c') => {
                self.delete_and_leave(Mode::Insert);
            },
            Key::Char('h') => {
                self.cursor_left(1);
            },
            Key::Char('l') => {
                self.move_byte_clamped(cur.line, cur.col + 1);
            },
            Key::Char('j') => {
                let lc = self.buffer.line_count();
                let l = if cur.line + 1 <= lc {
                    cur.line + 1
                } else {
                    lc
                };
                self.move_byte_clamped(l, cur.col);
            },
            Key::Char('k') => {
                let n = cur.line.saturating_sub(1);
                self.move_byte_clamped(if n >= 1 { n } else { 1 }, cur.col);
            },
            Key::Char('0') => {
                self.cursor_line_start();
            },
            Key::Char('^') => {
                self.cursor_first_non_blank();
            },
            Key::Char('$') => {
                self.cursor_line_end_byte();
            },
            Key::Char('I') => {
                if block {
                    self.block_insert_side(false);
                }
            },
            Key::Char('A') => {
                if block {
                    self.block_insert_side(true);
                }
            },
            _ => {},
        }
    }
}

} // verus!
