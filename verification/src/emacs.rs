//! Emacs-style editing: the mark and region, the kill ring, yanking, and
//! single-character edits at the cursor.
use crate::buffer::{
    bump, char_range_spec, delete_applies, delete_range_spec, delete_spec, get_line_spec, insert_mods,
    insert_spec, line_index, merge_spec, word_at_spec,
};
use crate::engine::Engine;
use crate::motion::{line_of, min_i, sat};
use crate::text::line_count;
use crate::types::{EditorState, Mode, PluginEvent, Position};
use crate::undo::{Edit, EditType};
use vstd::prelude::*;
use vstd::string::StrSliceExecFns;

verus! {

/// The region between the mark and the cursor as (start line, start column,
/// end line, end column), the earlier position first.
pub open spec fn region_bounds(mark: Position, cursor: Position) -> (usize, usize, usize, usize) {
    if mark.line < cursor.line || (mark.line == cursor.line && mark.col <= cursor.col) {
        (mark.line, mark.col, cursor.line, cursor.col)
    } else {
        (cursor.line, cursor.col, mark.line, mark.col)
    }
}

/// `post` is `pre` after deleting the character before the cursor.
pub open spec fn deletes_backward(pre: Engine, post: Engine) -> bool {
    &&& (({
        let t = pre.buffer.text();
        let c = pre.state.cursor;
        &&& c.col > 0 ==> post.buffer.text() == delete_spec(t, c.line as int, c.col - 1)
            && post.state.cursor == (Position { line: c.line, col: (c.col - 1) as usize })
        &&& c.col == 0 && c.line > 1 ==> post.buffer.text() == merge_spec(t, c.line as int)
            && post.state.cursor == (Position {
                line: (c.line - 1) as usize,
                col: sat(vstd::utf8::encode_utf8(get_line_spec(t, c.line - 1)).len() as usize as int, 1) as usize,
            })
        &&& c.col == 0 && c.line <= 1 ==> post == pre
    }))
}

/// `post` is `pre` with the mark set at the cursor.
pub open spec fn sets_mark(pre: Engine, post: Engine) -> bool {
    &&& (post == (Engine {
        state: EditorState { mark: Some(pre.state.cursor), region_active: true, ..pre.state },
        ..pre
    }))
}

/// `post` is `pre` after killing the region.
pub open spec fn kills_region(pre: Engine, post: Engine) -> bool {
    &&& (post.wf())
    &&& (pre.state.mark is None ==> post == pre)
    &&& (post.state.mark == pre.state.mark)
    &&& (pre.state.mark matches Some(m) ==> ({
        let b = region_bounds(m, pre.state.cursor);
        let t = pre.buffer.text();
        let content = char_range_spec(t, b.0 as int, b.1 as int, b.2 as int, b.3 as int);
        &&& !post.state.region_active
        &&& b.2 == b.0 && b.3 <= b.1 ==> post.buffer == pre.buffer
            && post.kill_ring.view() == pre.kill_ring.view()
            && post.state.cursor == pre.state.cursor
        &&& !(b.2 == b.0 && b.3 <= b.1) ==> {
            &&& post.buffer.text() == delete_range_spec(t, b.0 as int, b.1 as int, b.2 as int, b.3 as int)
            &&& content.len() > 0 ==> {
                &&& post.kill_ring.view()[0] == content
                &&& post.register.view()['"'] == content
                &&& post.state.cursor == (Position { line: b.0, col: b.1 })
                &&& post.undo_manager.edit_of(post.undo_manager.current() as int).edit_type
                    matches EditType::Delete { line, col, text } && line == b.0 && col == b.1 && text@ == content
                &&& post.state.dirty == !post.buffer.clean()
                &&& post.plugin_manager.pending() == pre.plugin_manager.pending().push(PluginEvent::BufferChange)
            }
        }
    }))
}

/// `post` is `pre` after killing the word after the cursor.
pub open spec fn kills_word(pre: Engine, post: Engine) -> bool {
    &&& (({
        let t = pre.buffer.text();
        let c = pre.state.cursor;
        let end = word_at_spec(t, c.line as int, c.col as int).2;
        &&& end > c.col ==> post.buffer.text() == delete_range_spec(t, c.line as int, c.col as int, c.line as int, end)
        &&& end <= c.col && c.line < line_count(t) ==> post.buffer.text() == delete_range_spec(t, c.line as int, c.col as int, c.line + 1, 0)
        &&& end <= c.col && c.line >= line_count(t) ==> post.buffer == pre.buffer
    }))
    &&& (post.state.cursor == pre.state.cursor)
}

/// `post` is `pre` after copying the region to the kill ring.
pub open spec fn copies_region(pre: Engine, post: Engine) -> bool {
    &&& (pre.state.mark is None ==> post == pre)
    &&& (pre.state.mark matches Some(m) ==> ({
        let b = region_bounds(m, pre.state.cursor);
        let content = char_range_spec(pre.buffer.text(), b.0 as int, b.1 as int, b.2 as int, b.3 as int);
        &&& !post.state.region_active
        &&& post.buffer == pre.buffer
        &&& post.state.cursor == pre.state.cursor
        &&& content.len() == 0 ==> post.kill_ring.view() == pre.kill_ring.view()
        &&& content.len() > 0 ==> post.kill_ring.view()[0] == content
            && post.register.view()['"'] == content
    }))
}

/// `post` is `pre` after yanking the newest kill.
pub open spec fn yanks_kill(pre: Engine, post: Engine) -> bool {
    &&& (pre.kill_ring.view().len() == 0 ==> post == pre)
    &&& (pre.kill_ring.view().len() > 0 ==> ({
        let t = pre.kill_ring.view()[0];
        let c = pre.state.cursor;
        &&& post.buffer.text() == insert_spec(pre.buffer.text(), c.line as int, c.col as int, t)
        &&& post.yank_start == Some(c)
        &&& post.yank_length == t.len()
        &&& post.kill_ring.view() == pre.kill_ring.view()
        &&& post.kill_ring.cursor() == 0
        &&& post.state.cursor == (Position { line: c.line, col: (c.col + t.len()) as usize })
        &&& post.state.dirty == !post.buffer.clean()
    }))
}

/// `post` is `pre` after replacing the last yank with the next older kill.
pub open spec fn pops_yank(pre: Engine, post: Engine) -> bool {
    &&& (pre.yank_start is None || pre.yank_length == 0 ==> post == pre)
    &&& (pre.yank_start matches Some(st) ==> (pre.yank_length > 0 ==> ({
        let t = pre.buffer.text();
        let a = crate::text::line_start(t, sat(st.line as int, 1)) + st.col;
        let removed = crate::buffer::cut(t, a, a + pre.yank_length);
        let n = pre.kill_ring.view().len();
        &&& n == 0 ==> post.buffer.text() == removed && post.yank_start is None
            && post.yank_length == 0
        &&& n > 0 ==> {
            let k = (pre.kill_ring.cursor() + 1) % n;
            let next = pre.kill_ring.view()[k as int];
            &&& post.buffer.text() == insert_spec(removed, st.line as int, st.col as int, next)
            &&& post.yank_length == next.len()
            &&& post.kill_ring.cursor() == k
            &&& post.state.cursor == (Position { line: st.line, col: (st.col + next.len()) as usize })
        }
    })))
}

/// `post` is `pre` after swapping the characters around the cursor.
pub open spec fn transposes(pre: Engine, post: Engine) -> bool {
    &&& (({
        let t = pre.buffer.text();
        let c = pre.state.cursor;
        let l = get_line_spec(t, c.line as int);
        &&& c.col > 0 && c.col < l.len() ==> post.buffer.text() == insert_spec(
            insert_spec(
                delete_spec(delete_spec(t, c.line as int, c.col as int), c.line as int, c.col - 1),
                c.line as int,
                c.col - 1,
                seq![l[c.col as int]],
            ),
            c.line as int,
            c.col as int,
            seq![l[c.col - 1]],
        )
        &&& !(c.col > 0 && c.col < l.len()) ==> post == pre
    }))
}

/// `post` is `pre` with a character typed at the cursor.
pub open spec fn types_char(pre: Engine, post: Engine, c: char) -> bool {
    &&& (post.buffer.text() == insert_spec(
        pre.buffer.text(),
        pre.state.cursor.line as int,
        pre.state.cursor.col as int,
        seq![c],
    ))
    &&& (post.state.cursor == (Position { line: pre.state.cursor.line, col: (pre.state.cursor.col + 1) as usize }))
    &&& (post.state.dirty == !post.buffer.clean())
}

/// `post` is `pre` with a tab (or spaces) typed at the cursor.
pub open spec fn types_tab(pre: Engine, post: Engine) -> bool {
    &&& (post.buffer.text() == insert_spec(
        pre.buffer.text(),
        pre.state.cursor.line as int,
        pre.state.cursor.col as int,
        seq!['\t'],
    ))
    &&& (post.state.cursor == (Position { line: pre.state.cursor.line, col: (pre.state.cursor.col + 1) as usize }))
    &&& (post.state.dirty == !post.buffer.clean())
}

impl Engine {
    /// Sets the mark at the cursor and activates the region.
    pub fn set_mark(&mut self)
        ensures
            sets_mark(*old(self), *final(self)),
    {
        self.state.mark = Some(self.state.cursor);
        self.state.region_active = true;
    }

    /// Whether a non-empty region is active.
    pub fn has_active_region(&self) -> (r: bool)
        ensures
            r == (self.state.region_active && self.state.mark is Some && self.state.mark->Some_0
                != self.state.cursor),
    {
        match self.state.mark {
            Some(m) => self.state.region_active && m != self.state.cursor,
            None => false,
        }
    }

    /// Deactivates the region; whether it was active (and the screen needs
    /// a redraw).
    pub fn deactivate_region(&mut self) -> (changed: bool)
        ensures
            changed == old(self).state.region_active,
            *final(self) == (Engine { state: EditorState { region_active: false, ..old(self).state }, ..*old(self) }),
    {
        if self.state.region_active {
            self.state.region_active = false;
            true
        } else {
            false
        }
    }

    /// Kills the region: its text goes to the kill ring and the unnamed
    /// register, is deleted (undoably), and the cursor goes to its start.
    pub fn kill_region(&mut self)
        requires
            old(self).wf(),
            old(self).state.mark matches Some(m) ==> ({
                let b = region_bounds(m, old(self).state.cursor);
                let t = old(self).buffer.text();
                line_index(b.0 as int) < line_count(t) && line_index(b.2 as int) < line_count(t)
            }),
            old(self).state.mark is Some ==> old(self).undo_manager.node_count() < usize::MAX,
        ensures
            kills_region(*old(self), *final(self)),
    {
        let mark = match self.state.mark {
            Some(m) => m,
            None => {
                return;
            },
        };
        let cursor = self.state.cursor;
        let (s_line, s_col, e_line, e_col) = if mark.line < cursor.line || (mark.line == cursor.line
            && mark.col <= cursor.col) {
            (mark.line, mark.col, cursor.line, cursor.col)
        } else {
            (cursor.line, cursor.col, mark.line, mark.col)
        };
        if e_line == s_line && e_col <= s_col {
            self.deactivate_region();
            return;
        }
        let mod_count = self.buffer.modification_count();
        let content = self.buffer.delete_range(s_line, s_col, e_line, e_col);
        if content.as_str().is_empty() {
            self.deactivate_region();
            return;
        }
        self.kill_ring.push(content.as_str());
        self.register.set('"', content.as_str());
        proof {
            assert(crate::text::to_ascii_lowercase_spec('"') == '"');
        }
        self.undo_manager.push(
            Edit {
                edit_type: EditType::Delete { line: s_line, col: s_col, text: content },
                cursor_before: cursor,
                cursor_after: Position { line: s_line, col: s_col },
                modification_count: mod_count,
            },
        );
        self.state.cursor = Position { line: s_line, col: s_col };
        self.deactivate_region();
        self.emit_buffer_change();
    }

    /// Copies the region to the kill ring and the unnamed register.
    pub fn copy_region(&mut self)
        ensures
            copies_region(*old(self), *final(self)),
    {
        let mark = match self.state.mark {
            Some(m) => m,
            None => {
                return;
            },
        };
        let cursor = self.state.cursor;
        let (s_line, s_col, e_line, e_col) = if mark.line < cursor.line || (mark.line == cursor.line
            && mark.col <= cursor.col) {
            (mark.line, mark.col, cursor.line, cursor.col)
        } else {
            (cursor.line, cursor.col, mark.line, mark.col)
        };
        let content = self.buffer.get_char_range(s_line, s_col, e_line, e_col);
        if content.as_str().is_empty() {
            self.deactivate_region();
            return;
        }
        self.kill_ring.push(content.as_str());
        self.register.set('"', content.as_str());
        proof {
            assert(crate::text::to_ascii_lowercase_spec('"') == '"');
        }
        self.deactivate_region();
    }

    /// Inserts the newest kill at the cursor, which moves past it; the
    /// place is remembered for yank-pop.
    pub fn yank_from_kill_ring(&mut self)
        requires
            old(self).kill_ring.view().len() > 0 ==> old(self).state.cursor.col + old(self).kill_ring.view()[0].len() <= usize::MAX,
        ensures
            yanks_kill(*old(self), *final(self)),
    {
        let text = match self.kill_ring.yank() {
            Some(t) => String::from_str(t),
            None => {
                return;
            },
        };
        self.yank_start = Some(self.state.cursor);
        self.yank_length = text.as_str().unicode_len();
        self.kill_ring.reset_index();
        self.buffer.insert(self.state.cursor.line, self.state.cursor.col, text.as_str());
        self.state.cursor.col = self.state.cursor.col + self.yank_length;
        self.emit_buffer_change();
    }

    /// Replaces the text of the last yank with the next older kill.
    pub fn yank_pop(&mut self)
        requires
            old(self).yank_start matches Some(st) ==> (old(self).yank_length > 0 ==> ({
                let t = old(self).buffer.text();
                let a = crate::text::line_start(t, sat(st.line as int, 1)) + st.col;
                &&& sat(st.line as int, 1) <= line_count(t)
                &&& a + old(self).yank_length <= t.len()
            })),
            old(self).yank_start matches Some(st) ==> (old(self).kill_ring.view().len() > 0 ==> st.col
                + old(self).kill_ring.view()[((old(self).kill_ring.cursor() + 1) % old(self).kill_ring.view().len()) as int].len()
                <= usize::MAX),
        ensures
            pops_yank(*old(self), *final(self)),
    {
        let start = match self.yank_start {
            Some(p) => p,
            None => {
                return;
            },
        };
        let len = self.yank_length;
        if len == 0 {
            return;
        }
        let _total = self.buffer.len_chars();
        let start_char = self.buffer.line_to_char(start.line.saturating_sub(1)) + start.col;
        self.buffer.remove_range(start_char, start_char + len);
        let next = match self.kill_ring.yank_pop() {
            Some(t) => Some(String::from_str(t)),
            None => None,
        };
        match next {
            Some(text) => {
                self.buffer.insert(start.line, start.col, text.as_str());
                self.yank_length = text.as_str().unicode_len();
                self.state.cursor = start;
                self.state.cursor.col = self.state.cursor.col + self.yank_length;
            },
            None => {
                self.yank_start = None;
                self.yank_length = 0;
            },
        }
        self.emit_buffer_change();
    }

    /// Inserts a tab at the cursor, which moves past it.
    pub fn insert_tab(&mut self)
        requires
            old(self).state.cursor.col < usize::MAX,
        ensures
            types_tab(*old(self), *final(self)),
    {
        self.buffer.insert_char(self.state.cursor.line, self.state.cursor.col, '\t');
        self.state.cursor.col = self.state.cursor.col + 1;
        self.emit_buffer_change();
    }

    /// Inserts `c` at the cursor, which moves past it.
    pub fn insert_char(&mut self, c: char)
        requires
            old(self).state.cursor.col < usize::MAX,
        ensures
            types_char(*old(self), *final(self), c),
    {
        self.buffer.insert_char(self.state.cursor.line, self.state.cursor.col, c);
        self.state.cursor.col = self.state.cursor.col + 1;
        self.emit_buffer_change();
    }

    /// Empties the command line and leaves Command mode; whether the mode
    /// changed (and the screen needs a redraw).
    pub fn abort(&mut self) -> (changed: bool)
        ensures
            final(self).state.command_buffer@.len() == 0,
            changed == (old(self).state.mode == Mode::Command),
            final(self).state.mode == if changed { Mode::Normal } else { old(self).state.mode },
            final(self).buffer == old(self).buffer,
            final(self).undo_manager == old(self).undo_manager,
            final(self).state.cursor == old(self).state.cursor,
    {
        self.state.command_buffer = String::new();
        proof {
            assert(self.state.command_buffer@ =~= Seq::<char>::empty());
        }
        if self.state.mode == Mode::Command {
            self.state.mode = Mode::Normal;
            true
        } else {
            false
        }
    }

    /// Deletes to the end of the word at the cursor, or joins the next line
    /// when the cursor is past the word.
    pub fn kill_word(&mut self)
        requires
            line_index(old(self).state.cursor.line as int) < line_count(old(self).buffer.text()),
            old(self).state.cursor.line < usize::MAX,
        ensures
            kills_word(*old(self), *final(self)),
    {
        let (_w, _s, end_col) = self.buffer.get_word_range(self.state.cursor.line, self.state.cursor.col);
        if end_col > self.state.cursor.col {
            self.buffer.delete_range(self.state.cursor.line, self.state.cursor.col, self.state.cursor.line, end_col);
            self.emit_buffer_change();
        } else if self.state.cursor.line < self.buffer.line_count() {
            proof {
                assert(line_index(old(self).state.cursor.line + 1) < line_count(old(self).buffer.text()));
            }
            self.buffer.delete_range(self.state.cursor.line, self.state.cursor.col, self.state.cursor.line + 1, 0);
            self.emit_buffer_change();
        }
    }

    /// Deletes the character before the cursor; at the start of a line,
    /// joins it to the line above (the cursor goes to where they meet,
    /// counted in bytes of the line above).
    pub fn delete_char_backward(&mut self)
        requires
            old(self).buffer.text().len() + old(self).state.cursor.col <= usize::MAX,
        ensures
            deletes_backward(*old(self), *final(self)),
    {
        if self.state.cursor.col > 0 {
            self.buffer.delete(self.state.cursor.line, self.state.cursor.col - 1);
            self.state.cursor.col = self.state.cursor.col - 1;
            self.emit_buffer_change();
        } else if self.state.cursor.line > 1 {
            let merged = self.buffer.get_line(self.state.cursor.line - 1);
            let prev_len = merged.as_str().len();
            self.buffer.merge_with_prev_line(self.state.cursor.line);
            self.state.cursor.line = self.state.cursor.line - 1;
            self.state.cursor.col = prev_len.saturating_sub(1);
            self.emit_buffer_change();
        }
    }

    /// Swaps the characters before and under the cursor, which moves right
    /// (within the line, measured in bytes).
    pub fn transpose_chars(&mut self)
        requires
            old(self).buffer.text().len() + old(self).state.cursor.col <= usize::MAX,
        ensures
            transposes(*old(self), *final(self)),
    {
        let line = self.state.cursor.line;
        let col = self.state.cursor.col;
        if col > 0 {
            let chars = self.buffer.line_chars(line);
            if col < chars.len() {
                let c1 = chars[col - 1];
                let c2 = chars[col];
                self.buffer.delete(line, col);
                proof {
                    let t0 = old(self).buffer.text();
                    if delete_applies(t0, line as int, col as int) {
                        let p = crate::text::line_start(t0, line_index(line as int)) + col;
                        crate::text::lemma_line_bounds(t0, line_index(line as int));
                        assert(crate::buffer::cut(t0, p, p + 1).len() <= t0.len());
                    }
                    assert(self.buffer.text().len() <= t0.len());
                }
                self.buffer.delete(line, col - 1);
                self.buffer.insert_char(line, col - 1, c2);
                self.buffer.insert_char(line, col, c1);
                let len = self.buffer.get_line(line).as_str().len();
                let lim = len.saturating_sub(1);
                self.state.cursor.col = if col + 1 <= lim {
                    col + 1
                } else {
                    lim
                };
                self.emit_buffer_change();
            }
        }
    }
}


/// `post` is `pre` after Enter in Emacs: a line break at the cursor, the
/// cursor at the start of the new line.
pub open spec fn breaks_line(pre: Engine, post: Engine) -> bool {
    let c = pre.state.cursor;
    &&& post.buffer.text() == crate::buffer::insert_spec(pre.buffer.text(), c.line as int, c.col as int, seq!['\n'])
    &&& post.buffer.saved() == pre.buffer.saved()
    &&& post.state == (EditorState {
        cursor: Position { line: (c.line + 1) as usize, col: 0 },
        dirty: !post.buffer.clean(),
        ..pre.state
    })
    &&& post.plugin_manager.pending() == pre.plugin_manager.pending().push(PluginEvent::BufferChange)
    &&& post.plugin_manager.plugin_names() == pre.plugin_manager.plugin_names()
    &&& post.plugin_manager.loaders() == pre.plugin_manager.loaders()
    &&& post == (Engine { buffer: post.buffer, state: post.state, plugin_manager: post.plugin_manager, ..pre })
}

impl Engine {
    /// Enter in Emacs: breaks the line at the cursor.
    pub fn emacs_newline(&mut self)
        requires
            old(self).state.cursor.line < usize::MAX,
        ensures
            breaks_line(*old(self), *final(self)),
    {
        let c = self.state.cursor;
        self.buffer.insert_newline(c.line, c.col);
        self.state.cursor = Position { line: c.line + 1, col: 0 };
        self.emit_buffer_change();
    }
}

} // verus!
