//! The editor engine: the buffers and their undo histories, registers,
//! cursor and operator state, kill ring and window layout. It owns no
//! terminal; every operation reports what the screen should do.
use crate::buffer::TextBuffer;
use crate::highlight::StyledRun;
use crate::layout::{Direction, WindowLayout};
use crate::plugin::PluginManager;
use crate::register::Register;
use crate::state::{CursorState, InsertState, OperatorState, SearchState};
use crate::strutil::{push_str, string_of};
use crate::types::{
    ConfirmAction, DotAction, EditorState, KillRing, Mode, PluginEvent, Position,
};
use crate::undo::{same_edit, undo_text, redo_text, Edit, UndoManager};
use std::path::PathBuf;
use std::time::Instant;
use vstd::prelude::*;

verus! {

/// What the screen should do after an engine operation.
#[derive(Debug)]
pub struct EngineResult {
    /// Whether the screen needs to be drawn again.
    pub needs_render: bool,
    /// If set, whether the editor keeps running.
    pub running: Option<bool>,
    /// If set, a message for the status line.
    pub message: Option<String>,
    /// If set, a question for the user to confirm.
    pub confirmation: Option<(String, ConfirmAction)>,
}

impl Default for EngineResult {
    fn default() -> (r: Self)
        ensures
            !r.needs_render,
            r.running is None,
            r.message is None,
            r.confirmation is None,
    {
        EngineResult { needs_render: false, running: None, message: None, confirmation: None }
    }
}

impl EngineResult {
    /// Only a redraw.
    pub fn with_render() -> (r: Self)
        ensures
            r.needs_render,
            r.running is None,
            r.message is None,
            r.confirmation is None,
    {
        EngineResult { needs_render: true, running: None, message: None, confirmation: None }
    }

    /// Only a message.
    pub fn with_message(msg: String) -> (r: Self)
        ensures
            !r.needs_render,
            r.running is None,
            r.message == Some(msg),
            r.confirmation is None,
    {
        EngineResult { needs_render: false, running: None, message: Some(msg), confirmation: None }
    }
}

/// A buffer put aside: its text, undo history, file and cursor.
pub type InactiveBuffer = (TextBuffer, UndoManager, Option<PathBuf>, Position);

/// The editor's state and operations.
pub struct Engine {
    pub buffer: TextBuffer,
    pub undo_manager: UndoManager,
    pub register: Register,
    pub state: EditorState,
    pub operator_state: OperatorState,
    pub search_state: SearchState,
    pub insert_state: InsertState,
    pub cursor_state: CursorState,
    pub plugin_manager: PluginManager,
    pub kill_ring: KillRing,
    pub dot_last_action: Option<DotAction>,
    /// Edits made in Replace mode, undone together when it ends.
    pub replace_undo_group: Vec<Edit>,
    /// The other buffers, in order.
    pub inactive_buffers: Vec<InactiveBuffer>,
    /// Window layout for split views.
    pub window_layout: WindowLayout,
    pub highlights: Vec<Vec<StyledRun>>,
    pub last_keypress_time: Instant,
    /// Where the last yank put its text, for yank-pop.
    pub yank_start: Option<Position>,
    /// Number of characters the last yank put in.
    pub yank_length: usize,
}

fn error(m: &str) -> (r: Result<(), String>)
    ensures
        r matches Err(e) && e@ == m@,
{
    Err(String::from_str(m))
}

/// `a` is `b` after `undo` gave `r`: the current edit undone on the text, the
/// cursor where it was before that edit; nothing changes at the root.
pub open spec fn undoes(b: Engine, a: Engine, r: EngineResult) -> bool {
    &&& (a.wf())
    &&& (b.undo_manager.at_root() ==> r.running is None && !r.needs_render
        && r.message is None && a == b)
    &&& (crate::undo::same_tree(b.undo_manager, a.undo_manager))
    &&& (a == (Engine {
        buffer: a.buffer,
        undo_manager: a.undo_manager,
        state: EditorState { cursor: a.state.cursor, dirty: a.state.dirty, ..b.state },
        ..b
    }))
    &&& (!b.undo_manager.at_root() ==> ({
        let e = b.undo_manager.edit_of(b.undo_manager.current() as int);
        &&& r.needs_render && r.message is None
        &&& a.buffer.text() == undo_text(e, b.buffer.text()).unwrap()
        &&& a.state.cursor == e.cursor_before
        &&& a.state.dirty == !a.buffer.clean()
        &&& a.buffer.mods() == e.modification_count
        &&& a.buffer.saved() == b.buffer.saved()
        &&& Some(a.undo_manager.current() as usize) == b.undo_manager.parent_of(
            b.undo_manager.current() as int,
        )
    }))
}

/// `undo` can be carried out on `b`.
pub open spec fn undo_ready(b: Engine) -> bool {
    &&& (!b.undo_manager.at_root() ==> undo_text(
        b.undo_manager.edit_of(b.undo_manager.current() as int),
        b.buffer.text(),
    ) is Some)
}

/// `a` is `b` after `redo` gave `r`: the most recent branch below the current edit
/// redone, the cursor where it was after that edit; nothing changes when
/// there is none.
pub open spec fn redoes(b: Engine, a: Engine, r: EngineResult) -> bool {
    &&& (a.wf())
    &&& (b.undo_manager.children_of(b.undo_manager.current() as int).len() == 0
        ==> !r.needs_render && r.message is None && a == b)
    &&& (crate::undo::same_tree(b.undo_manager, a.undo_manager))
    &&& (a == (Engine {
        buffer: a.buffer,
        undo_manager: a.undo_manager,
        state: EditorState { cursor: a.state.cursor, dirty: a.state.dirty, ..b.state },
        ..b
    }))
    &&& (b.undo_manager.children_of(b.undo_manager.current() as int).len() > 0
        ==> ({
        let next = b.undo_manager.children_of(b.undo_manager.current() as int).last();
        let e = b.undo_manager.edit_of(next as int);
        &&& r.needs_render && r.message is None
        &&& a.buffer.text() == redo_text(e, b.buffer.text()).unwrap()
        &&& a.state.cursor == e.cursor_after
        &&& a.state.dirty == !a.buffer.clean()
        &&& a.undo_manager.current() == next
    }))
}

/// `redo` can be carried out on `b`.
pub open spec fn redo_ready(b: Engine) -> bool {
    &&& (b.undo_manager.children_of(b.undo_manager.current() as int).len() > 0
        ==> redo_text(
        b.undo_manager.edit_of(
            b.undo_manager.children_of(b.undo_manager.current() as int).last() as int,
        ),
        b.buffer.text(),
    ) is Some)
}

impl Engine {
    /// Every undo history, the current one and those put aside, is well formed.
    pub open spec fn wf(&self) -> bool {
        &&& self.undo_manager.wf()
        &&& forall|i: int| 0 <= i < self.inactive_buffers@.len() ==> (#[trigger] self.inactive_buffers@[i]).1.wf()
    }

    /// The focused window exists.
    pub open spec fn layout_ok(&self) -> bool {
        self.window_layout.focused < self.window_layout.windows@.len()
    }

    /// An engine for `buffer` with an empty undo history, empty registers
    /// and kill ring, and a single window for a 24 by 80 screen.
    pub fn new(buffer: TextBuffer, plugin_manager: PluginManager, state: EditorState) -> (e: Self)
        ensures
            e.wf(),
            e.layout_ok(),
            e.buffer == buffer,
            e.state == state,
            e.plugin_manager == plugin_manager,
            e.undo_manager.at_root(),
            e.undo_manager.node_count() == 1,
            forall|c: char| #[trigger] e.register.view().contains_key(c) <==> crate::register::initial_register(c),
            forall|c: char| crate::register::initial_register(c) ==> #[trigger] e.register.view()[c].len() == 0,
            e.kill_ring.view().len() == 0,
            e.dot_last_action is None,
            e.replace_undo_group@.len() == 0,
            e.inactive_buffers@.len() == 0,
            e.window_layout.focused == 0,
            e.window_layout.windows@.len() == 1,
            e.highlights@.len() == 0,
            e.yank_start is None,
            e.yank_length == 0,
    {
        let wl = WindowLayout::new_single(24, 80);
        Engine {
            buffer,
            undo_manager: UndoManager::new(),
            register: Register::new(),
            state,
            operator_state: OperatorState::default(),
            search_state: SearchState::default(),
            insert_state: InsertState::default(),
            cursor_state: CursorState::default(),
            plugin_manager,
            kill_ring: KillRing::new(),
            dot_last_action: None,
            replace_undo_group: Vec::new(),
            inactive_buffers: Vec::new(),
            window_layout: wl,
            highlights: Vec::new(),
            last_keypress_time: crate::types::instant_now(),
            yank_start: None,
            yank_length: 0,
        }
    }

    /// Marks the buffer as changed for the plugins and refreshes the dirty flag.
    pub fn emit_buffer_change(&mut self)
        ensures
            *final(self) == (Engine {
                state: EditorState { dirty: !old(self).buffer.clean(), ..old(self).state },
                plugin_manager: final(self).plugin_manager,
                ..*old(self)
            }),
            final(self).plugin_manager.pending() == old(self).plugin_manager.pending().push(PluginEvent::BufferChange),
            final(self).plugin_manager.plugin_names() == old(self).plugin_manager.plugin_names(),
            final(self).plugin_manager.loaders() == old(self).plugin_manager.loaders(),
    {
        self.state.dirty = self.buffer.is_dirty();
        self.plugin_manager.emit(PluginEvent::BufferChange);
    }

    /// Undoes the last edit: the cursor goes where it was before the edit.
    /// Nothing happens when there is nothing to undo.
    pub fn undo(&mut self) -> (r: EngineResult)
        requires
            old(self).wf(),
            undo_ready(*old(self)),
        ensures
            undoes(*old(self), *final(self), r),
    {
        match self.undo_manager.undo(&mut self.buffer) {
            Some(edit) => {
                self.state.cursor = edit.cursor_before;
                self.state.dirty = self.buffer.is_dirty();
                EngineResult::with_render()
            },
            None => EngineResult::default(),
        }
    }

    /// Undoes the last edit when it can be undone on the text (see `undo`);
    /// `None`, changing nothing, when it cannot.
    pub fn try_undo(&mut self) -> (r: Option<EngineResult>)
        requires
            old(self).wf(),
        ensures
            r is None <==> !undo_ready(*old(self)),
            r is None ==> *final(self) == *old(self),
            r matches Some(x) ==> undoes(*old(self), *final(self), x),
    {
        if !self.undo_manager.undo_applies(&self.buffer) {
            return None;
        }
        Some(self.undo())
    }

    /// Redoes the most recent branch below the current edit when it can be redone
    /// on the text (see `redo`); `None`, changing nothing, when it cannot.
    pub fn try_redo(&mut self) -> (r: Option<EngineResult>)
        requires
            old(self).wf(),
        ensures
            r is None <==> !redo_ready(*old(self)),
            r is None ==> *final(self) == *old(self),
            r matches Some(x) ==> redoes(*old(self), *final(self), x),
    {
        if !self.undo_manager.redo_applies(&self.buffer) {
            return None;
        }
        Some(self.redo())
    }

    /// Redoes the most recent branch below the current edit: the cursor goes where it was
    /// after the edit. Nothing happens when there is nothing to redo.
    pub fn redo(&mut self) -> (r: EngineResult)
        requires
            old(self).wf(),
            redo_ready(*old(self)),
        ensures
            redoes(*old(self), *final(self), r),
    {
        match self.undo_manager.redo(&mut self.buffer) {
            Some(edit) => {
                self.state.cursor = edit.cursor_after;
                self.state.dirty = self.buffer.is_dirty();
                EngineResult::with_render()
            },
            None => EngineResult::default(),
        }
    }

    /// Replaces the buffer with `text`, cursor at the start, Normal mode,
    /// no undo history, nothing unsaved.
    pub fn set_buffer_for_test(&mut self, text: &str)
        requires
            old(self).wf(),
        ensures
            final(self).wf(),
            final(self).buffer.text() == text@,
            final(self).buffer.clean(),
            final(self).state.cursor == (Position { line: 1, col: 0 }),
            final(self).state.mode == Mode::Normal,
            !final(self).state.dirty,
            final(self).undo_manager.at_root(),
            final(self).undo_manager.node_count() == 1,
    {
        self.buffer = TextBuffer::with_text(text);
        self.state.cursor.line = 1;
        self.state.cursor.col = 0;
        self.state.mode = Mode::Normal;
        self.state.dirty = false;
        self.undo_manager.clear();
        self.buffer.mark_clean();
    }

    /// The text, the cursor line and column, and the mode.
    pub fn snapshot_for_test(&self) -> (r: (String, usize, usize, Mode))
        ensures
            r.0@ == self.buffer.text(),
            r.1 == self.state.cursor.line,
            r.2 == self.state.cursor.col,
            r.3 == self.state.mode,
    {
        (self.buffer.to_string(), self.state.cursor.line, self.state.cursor.col, self.state.mode)
    }

    /// Back to Normal mode with no pending operator, no visual selection and
    /// an empty command line (on a keymap switch).
    pub fn reset_state_for_keymap_switch(&mut self)
        ensures
            final(self).state.mode == Mode::Normal,
            final(self).state.visual_start is None,
            final(self).state.visual_type is None,
            final(self).state.command_buffer@.len() == 0,
            final(self).state.command_cursor_pos == 0,
            final(self).operator_state.pending == crate::types::PendingOperator::Idle,
            final(self).operator_state.count is None,
            final(self).buffer == old(self).buffer,
            final(self).undo_manager == old(self).undo_manager,
            final(self).state.cursor == old(self).state.cursor,
    {
        self.operator_state.reset();
        self.state.mode = Mode::Normal;
        self.state.visual_start = None;
        self.state.visual_type = None;
        self.state.command_buffer = String::new();
        proof {
            assert(self.state.command_buffer@ =~= Seq::<char>::empty());
        }
        self.state.command_cursor_pos = 0;
    }

    /// Takes the typed count, 1 when there is none.
    pub fn take_count(&mut self) -> (r: usize)
        ensures
            r == match old(self).operator_state.count {
                Some(c) => c,
                None => 1,
            },
            final(self).operator_state.count is None,
            final(self).buffer == old(self).buffer,
            final(self).state == old(self).state,
    {
        self.operator_state.take_count()
    }

    /// The current buffer, put aside with its history, file and cursor.
    fn take_current(&mut self) -> (r: InactiveBuffer)
        requires
            old(self).wf(),
        ensures
            r == (old(self).buffer, old(self).undo_manager, old(self).state.file_path, old(self).state.cursor),
            r.1.wf(),
            final(self).undo_manager.wf(),
            final(self).undo_manager.at_root(),
            final(self).undo_manager.node_count() == 1,
            final(self).inactive_buffers == old(self).inactive_buffers,
            final(self).state.cursor == old(self).state.cursor,
            final(self).state.file_path is None,
            final(self).window_layout == old(self).window_layout,
    {
        let mut b = TextBuffer::new();
        std::mem::swap(&mut b, &mut self.buffer);
        let mut u = UndoManager::new();
        std::mem::swap(&mut u, &mut self.undo_manager);
        let mut p: Option<PathBuf> = None;
        std::mem::swap(&mut p, &mut self.state.file_path);
        (b, u, p, self.state.cursor)
    }

    /// Makes `b` the current buffer.
    fn restore(&mut self, b: InactiveBuffer)
        requires
            b.1.wf(),
        ensures
            final(self).buffer == b.0,
            final(self).undo_manager == b.1,
            final(self).state.file_path == b.2,
            final(self).state.cursor == b.3,
            final(self).state.dirty == !b.0.clean(),
            final(self).inactive_buffers == old(self).inactive_buffers,
            final(self).window_layout == old(self).window_layout,
            final(self).state.mode == old(self).state.mode,
    {
        let (buf, um, path, cursor) = b;
        self.buffer = buf;
        self.undo_manager = um;
        self.state.file_path = path;
        self.state.cursor = cursor;
        self.state.dirty = self.buffer.is_dirty();
    }

    /// Switches to the next buffer (`:bn`): the current one goes last.
    pub fn buffer_next(&mut self) -> (r: Result<(), String>)
        requires
            old(self).wf(),
        ensures
            final(self).wf(),
            old(self).inactive_buffers@.len() == 0 ==> (r matches Err(m) && m@ == "No other buffer"@
                && *final(self) == *old(self)),
            old(self).inactive_buffers@.len() > 0 ==> ({
                let cur = (old(self).buffer, old(self).undo_manager, old(self).state.file_path, old(self).state.cursor);
                let first = old(self).inactive_buffers@[0];
                &&& r is Ok
                &&& final(self).inactive_buffers@ == old(self).inactive_buffers@.drop_first().push(cur)
                &&& final(self).buffer == first.0
                &&& final(self).undo_manager == first.1
                &&& final(self).state.file_path == first.2
                &&& final(self).state.cursor == first.3
                &&& final(self).state.dirty == !first.0.clean()
            }),
    {
        if self.inactive_buffers.len() == 0 {
            return error("No other buffer");
        }
        let current = self.take_current();
        self.inactive_buffers.push(current);
        let first = self.inactive_buffers.remove(0);
        proof {
            assert(first.1.wf());
        }
        self.restore(first);
        proof {
            assert forall|i: int| 0 <= i < self.inactive_buffers@.len() implies (#[trigger] self.inactive_buffers@[i]).1.wf() by {
                if i + 1 < old(self).inactive_buffers@.len() {
                    assert(self.inactive_buffers@[i] == old(self).inactive_buffers@[i + 1]);
                }
            }
        }
        Ok(())
    }

    /// Switches to the previous buffer (`:bp`): the current one goes first.
    pub fn buffer_prev(&mut self) -> (r: Result<(), String>)
        requires
            old(self).wf(),
        ensures
            final(self).wf(),
            old(self).inactive_buffers@.len() == 0 ==> (r matches Err(m) && m@ == "No other buffer"@
                && *final(self) == *old(self)),
            old(self).inactive_buffers@.len() > 0 ==> ({
                let cur = (old(self).buffer, old(self).undo_manager, old(self).state.file_path, old(self).state.cursor);
                let last = old(self).inactive_buffers@.last();
                &&& r is Ok
                &&& final(self).inactive_buffers@ == seq![cur] + old(self).inactive_buffers@.drop_last()
                &&& final(self).buffer == last.0
                &&& final(self).undo_manager == last.1
                &&& final(self).state.file_path == last.2
                &&& final(self).state.cursor == last.3
                &&& final(self).state.dirty == !last.0.clean()
            }),
    {
        if self.inactive_buffers.len() == 0 {
            return error("No other buffer");
        }
        let current = self.take_current();
        self.inactive_buffers.insert(0, current);
        let last = self.inactive_buffers.pop().unwrap();
        proof {
            assert(last.1.wf());
        }
        self.restore(last);
        proof {
            assert(self.inactive_buffers@ =~= seq![current] + old(self).inactive_buffers@.drop_last());
            assert forall|i: int| 0 <= i < self.inactive_buffers@.len() implies (#[trigger] self.inactive_buffers@[i]).1.wf() by {
                if i > 0 {
                    assert(self.inactive_buffers@[i] == old(self).inactive_buffers@[i - 1]);
                }
            }
        }
        Ok(())
    }

    /// Closes the current buffer (`:bdelete`) and switches to the next one;
    /// the only buffer is emptied instead.
    pub fn buffer_delete(&mut self) -> (r: Result<(), String>)
        requires
            old(self).wf(),
        ensures
            final(self).wf(),
            r is Ok,
            old(self).inactive_buffers@.len() == 0 ==> ({
                &&& final(self).buffer.text() == Seq::<char>::empty()
                &&& final(self).buffer.path() is None
                &&& final(self).undo_manager.at_root()
                &&& final(self).undo_manager.node_count() == 1
                &&& final(self).state.file_path is None
                &&& final(self).state.cursor == (Position { line: 1, col: 0 })
                &&& !final(self).state.dirty
                &&& final(self).inactive_buffers@.len() == 0
            }),
            old(self).inactive_buffers@.len() > 0 ==> ({
                let first = old(self).inactive_buffers@[0];
                &&& final(self).inactive_buffers@ == old(self).inactive_buffers@.drop_first()
                &&& final(self).buffer == first.0
                &&& final(self).undo_manager == first.1
                &&& final(self).state.file_path == first.2
                &&& final(self).state.cursor == first.3
                &&& final(self).state.dirty == !first.0.clean()
            }),
    {
        if self.inactive_buffers.len() == 0 {
            self.buffer = TextBuffer::new();
            self.undo_manager = UndoManager::new();
            self.state.file_path = None;
            self.state.cursor = Position { line: 1, col: 0 };
            self.state.dirty = false;
            return Ok(());
        }
        let first = self.inactive_buffers.remove(0);
        proof {
            assert(first.1.wf());
        }
        self.restore(first);
        proof {
            assert forall|i: int| 0 <= i < self.inactive_buffers@.len() implies (#[trigger] self.inactive_buffers@[i]).1.wf() by {
                assert(self.inactive_buffers@[i] == old(self).inactive_buffers@[i + 1]);
            }
        }
        Ok(())
    }

    /// Opens `content` (read from the file at `path`) in a new buffer that
    /// becomes current; the current buffer goes last among the others.
    pub fn buffer_open(&mut self, path: PathBuf, content: &str)
        requires
            old(self).wf(),
        ensures
            final(self).wf(),
            final(self).buffer.text() == crate::buffer::insert_spec(Seq::empty(), 1, 0, content@),
            final(self).buffer.path() matches Some(f) && f.path == path,
            final(self).inactive_buffers@ == old(self).inactive_buffers@.push(
                (old(self).buffer, old(self).undo_manager, old(self).state.file_path, old(self).state.cursor),
            ),
            final(self).undo_manager.at_root(),
            final(self).state.file_path == Some(path),
            final(self).state.cursor == (Position { line: 1, col: 0 }),
            !final(self).state.dirty,
    {
        let mut new_buffer = TextBuffer::new();
        let p2 = path.clone();
        new_buffer.set_file_path(Some(p2));
        new_buffer.insert(1, 0, content);
        let current = self.take_current();
        self.buffer = new_buffer;
        self.inactive_buffers.push(current);
        self.state.file_path = Some(path);
        self.state.cursor = Position { line: 1, col: 0 };
        self.state.dirty = false;
        proof {
            assert forall|i: int| 0 <= i < self.inactive_buffers@.len() implies (#[trigger] self.inactive_buffers@[i]).1.wf() by {
                if i < old(self).inactive_buffers@.len() {
                    assert(self.inactive_buffers@[i] == old(self).inactive_buffers@[i]);
                }
            }
        }
    }

    /// Switches focus to window `idx`, swapping in the buffer it shows when
    /// that is one put aside.
    pub fn focus_window(&mut self, idx: usize) -> (r: Result<(), String>)
        requires
            old(self).wf(),
            old(self).layout_ok(),
            ({
                let wl = old(self).window_layout;
                let t = if idx < wl.windows@.len() { wl.windows@[idx as int].buf_idx } else { 0 };
                idx < wl.windows@.len() && idx != wl.focused && t > 0 && t - 1 < old(self).inactive_buffers@.len()
                    ==> wl.focused < old(self).inactive_buffers@.len()
            }),
        ensures
            final(self).wf(),
            final(self).layout_ok(),
            idx >= old(self).window_layout.windows@.len() ==> (r matches Err(m) && m@ == "Invalid window index"@
                && *final(self) == *old(self)),
            idx == old(self).window_layout.focused ==> r is Ok && *final(self) == *old(self),
            idx < old(self).window_layout.windows@.len() && idx != old(self).window_layout.focused ==> ({
                let wl = old(self).window_layout;
                let f = wl.focused as int;
                let t = wl.windows@[idx as int].buf_idx;
                let swap = t > 0 && t - 1 < old(self).inactive_buffers@.len();
                let cur = (old(self).buffer, old(self).undo_manager, old(self).state.file_path, old(self).state.cursor);
                let ib1 = old(self).inactive_buffers@.update(f, cur);
                &&& r is Ok
                &&& final(self).window_layout.focused == idx
                &&& final(self).window_layout.windows@.len() == wl.windows@.len()
                &&& final(self).window_layout.windows@[idx as int].buf_idx == 0
                &&& final(self).window_layout.windows@[f].buf_idx == idx + 1
                &&& final(self).window_layout.windows@[f].cursor == old(self).state.cursor
                &&& final(self).window_layout.windows@[f].scroll_top == old(self).state.cursor.line
                &&& final(self).state.cursor == wl.windows@[idx as int].cursor
                &&& final(self).state.dirty == !final(self).buffer.clean()
                &&& swap ==> final(self).inactive_buffers@ == ib1.remove(t - 1)
                    && final(self).buffer == ib1[t - 1].0 && final(self).undo_manager == ib1[t - 1].1
                    && final(self).state.file_path == ib1[t - 1].2
                &&& !swap ==> final(self).inactive_buffers == old(self).inactive_buffers
                    && final(self).buffer == old(self).buffer
            }),
    {
        if idx >= self.window_layout.windows.len() {
            return error("Invalid window index");
        }
        if idx == self.window_layout.focused {
            return Ok(());
        }
        let target_buf_idx = self.window_layout.windows[idx].buf_idx;
        let current_focused = self.window_layout.focused;
        let mut w = self.window_layout.windows[current_focused];
        w.cursor = self.state.cursor;
        w.scroll_top = self.state.cursor.line;
        self.window_layout.windows.set(current_focused, w);
        if target_buf_idx > 0 && target_buf_idx - 1 < self.inactive_buffers.len() {
            let target_idx = target_buf_idx - 1;
            let ghost cur_c = self.state.cursor;
            let current = self.take_current();
            let mut slot = current;
            std::mem::swap(&mut slot, &mut self.inactive_buffers[current_focused]);
            let target = self.inactive_buffers.remove(target_idx);
            proof {
                assert forall|i: int| 0 <= i < self.inactive_buffers@.len() implies (#[trigger] self.inactive_buffers@[i]).1.wf() by {
                    let ib1 = old(self).inactive_buffers@.update(current_focused as int, current);
                    assert(self.inactive_buffers@ == ib1.remove(target_idx as int));
                    if i < target_idx {
                        assert(self.inactive_buffers@[i] == ib1[i]);
                    } else {
                        assert(self.inactive_buffers@[i] == ib1[i + 1]);
                    }
                }
                assert(target.1.wf()) by {
                    let ib1 = old(self).inactive_buffers@.update(current_focused as int, current);
                    assert(target == ib1[target_idx as int]);
                }
            }
            self.restore(target);
        }
        let mut wt = self.window_layout.windows[idx];
        wt.buf_idx = 0;
        self.window_layout.windows.set(idx, wt);
        let mut wf = self.window_layout.windows[current_focused];
        wf.buf_idx = idx + 1;
        self.window_layout.windows.set(current_focused, wf);
        self.window_layout.focused = idx;
        self.state.cursor = self.window_layout.windows[idx].cursor;
        self.state.dirty = self.buffer.is_dirty();
        Ok(())
    }

    /// Focuses the next window, wrapping around (Ctrl-w w).
    pub fn focus_next_window(&mut self) -> (r: Result<(), String>)
        requires
            old(self).wf(),
            old(self).layout_ok(),
            ({
                let wl = old(self).window_layout;
                let idx = (wl.focused + 1) % (wl.windows@.len() as int);
                let t = wl.windows@[idx].buf_idx;
                idx != wl.focused && t > 0 && t - 1 < old(self).inactive_buffers@.len()
                    ==> wl.focused < old(self).inactive_buffers@.len()
            }),
        ensures
            final(self).wf(),
            final(self).layout_ok(),
            r is Ok,
            final(self).window_layout.focused == (old(self).window_layout.focused + 1) % (
            old(self).window_layout.windows@.len() as int),
    {
        let n = self.window_layout.windows.len();
        let next = (self.window_layout.focused + 1) % n;
        self.focus_window(next)
    }

    /// Focuses the nearest window in `direction`.
    pub fn focus_window_direction(&mut self, direction: Direction)
        requires
            old(self).layout_ok(),
        ensures
            final(self).layout_ok(),
            final(self).window_layout.windows@ == old(self).window_layout.windows@,
            final(self).window_layout.focused == match crate::layout::focus_scan(
                old(self).window_layout.windows@,
                old(self).window_layout.focused as int,
                direction,
                old(self).window_layout.windows@.len() as int,
            ).0 {
                Some(i) => i,
                None => old(self).window_layout.focused as int,
            },
            *final(self) == (Engine { window_layout: final(self).window_layout, ..*old(self) }),
    {
        self.window_layout.focus_direction(direction);
        proof {
            crate::layout::lemma_focus_scan_in_range(
                old(self).window_layout.windows@,
                old(self).window_layout.focused as int,
                direction,
                old(self).window_layout.windows@.len() as int,
            );
        }
    }

    /// Splits the focused window into a top and a bottom half; the bottom
    /// one, showing the same buffer at the same cursor, gets the focus.
    pub fn split_horizontal(&mut self) -> (r: Result<(), String>)
        requires
            old(self).layout_ok(),
            old(self).window_layout.windows@[old(self).window_layout.focused as int].row_start
                <= old(self).window_layout.windows@[old(self).window_layout.focused as int].row_end,
        ensures
            r is Ok,
            final(self).layout_ok(),
            final(self).window_layout.windows@.len() == old(self).window_layout.windows@.len() + 1,
            final(self).window_layout.focused == old(self).window_layout.focused + 1,
            ({
                let f = old(self).window_layout.focused as int;
                let w = old(self).window_layout.windows@[f];
                let top = (w.row_start + (w.row_end - w.row_start) / 2) as usize;
                let nw = final(self).window_layout.windows@[f + 1];
                &&& final(self).window_layout.windows@[f].row_start == w.row_start
                &&& final(self).window_layout.windows@[f].row_end == top
                &&& final(self).window_layout.windows@[f].cursor == old(self).state.cursor
                &&& nw.row_start == top && nw.row_end == w.row_end
                &&& nw.col_start == w.col_start && nw.col_end == w.col_end
                &&& nw.buf_idx == 0
                &&& nw.cursor == old(self).state.cursor
                &&& nw.scroll_top == old(self).state.cursor.line
            }),
            final(self).buffer == old(self).buffer,
            final(self).state == old(self).state,
            final(self).undo_manager == old(self).undo_manager,
            final(self).inactive_buffers == old(self).inactive_buffers,
    {
        let focused = self.window_layout.focused;
        let mut w = self.window_layout.windows[focused];
        w.cursor = self.state.cursor;
        w.scroll_top = self.state.cursor.line;
        self.window_layout.windows.set(focused, w);
        self.window_layout.split_horizontal();
        let nf = self.window_layout.focused;
        let mut nw = self.window_layout.windows[nf];
        nw.buf_idx = 0;
        nw.cursor = self.state.cursor;
        nw.scroll_top = self.state.cursor.line;
        self.window_layout.windows.set(nf, nw);
        Ok(())
    }

    /// Splits the focused window into a left and a right half; the right
    /// one, showing the same buffer at the same cursor, gets the focus.
    pub fn split_vertical(&mut self) -> (r: Result<(), String>)
        requires
            old(self).layout_ok(),
            old(self).window_layout.windows@[old(self).window_layout.focused as int].col_start
                <= old(self).window_layout.windows@[old(self).window_layout.focused as int].col_end,
        ensures
            r is Ok,
            final(self).layout_ok(),
            final(self).window_layout.windows@.len() == old(self).window_layout.windows@.len() + 1,
            final(self).window_layout.focused == old(self).window_layout.focused + 1,
            ({
                let f = old(self).window_layout.focused as int;
                let w = old(self).window_layout.windows@[f];
                let left = (w.col_start + (w.col_end - w.col_start) / 2) as usize;
                let nw = final(self).window_layout.windows@[f + 1];
                &&& final(self).window_layout.windows@[f].col_start == w.col_start
                &&& final(self).window_layout.windows@[f].col_end == left
                &&& final(self).window_layout.windows@[f].cursor == old(self).state.cursor
                &&& nw.col_start == left && nw.col_end == w.col_end
                &&& nw.row_start == w.row_start && nw.row_end == w.row_end
                &&& nw.buf_idx == 0
                &&& nw.cursor == old(self).state.cursor
                &&& nw.scroll_top == old(self).state.cursor.line
            }),
            final(self).buffer == old(self).buffer,
            final(self).state == old(self).state,
            final(self).undo_manager == old(self).undo_manager,
            final(self).inactive_buffers == old(self).inactive_buffers,
    {
        let focused = self.window_layout.focused;
        let mut w = self.window_layout.windows[focused];
        w.cursor = self.state.cursor;
        w.scroll_top = self.state.cursor.line;
        self.window_layout.windows.set(focused, w);
        self.window_layout.split_vertical();
        let nf = self.window_layout.focused;
        let mut nw = self.window_layout.windows[nf];
        nw.buf_idx = 0;
        nw.cursor = self.state.cursor;
        nw.scroll_top = self.state.cursor.line;
        self.window_layout.windows.set(nf, nw);
        Ok(())
    }

    /// Closes the focused window (Ctrl-w c), unless it is the last one.
    pub fn close_focused_window(&mut self) -> (r: Result<(), String>)
        requires
            old(self).wf(),
            old(self).layout_ok(),
        ensures
            final(self).wf(),
            old(self).window_layout.windows@.len() <= 1 ==> (r matches Err(m) && m@ == "Cannot close last window"@
                && *final(self) == *old(self)),
            old(self).window_layout.windows@.len() > 1 ==> ({
                let n = old(self).window_layout.windows@.len() - 1;
                let f = old(self).window_layout.focused;
                &&& r is Ok
                &&& final(self).layout_ok()
                &&& final(self).window_layout.windows@ == old(self).window_layout.windows@.remove(f as int)
                &&& final(self).window_layout.focused == if f >= n { (n - 1) as usize } else { f }
                &&& final(self).buffer == old(self).buffer
                &&& final(self).state == old(self).state
            }),
    {
        if self.window_layout.windows.len() <= 1 {
            return error("Cannot close last window");
        }
        let focused = self.window_layout.focused;
        self.window_layout.close_focused();
        if self.window_layout.focused != focused {
            let f = self.window_layout.focused;
            self.focus_window(f)?;
        }
        Ok(())
    }

    /// Gives all windows equal sizes (Ctrl-w =).
    pub fn equalize_windows(&mut self, rows: usize, cols: usize)
        requires
            old(self).layout_ok(),
        ensures
            final(self).layout_ok(),
            final(self).window_layout.focused == old(self).window_layout.focused,
            final(self).window_layout.windows@.len() == old(self).window_layout.windows@.len(),
            forall|i: int|
                0 <= i < old(self).window_layout.windows@.len() ==> #[trigger] final(self).window_layout.windows@[i]
                    == crate::layout::equalized_window(old(self).window_layout.windows@, rows, cols, i),
            *final(self) == (Engine { window_layout: final(self).window_layout, ..*old(self) }),
    {
        self.window_layout.equalize(rows, cols);
    }

    /// Stretches the focused window over all content rows (Ctrl-w _).
    pub fn maximize_vertical(&mut self, rows: usize, cols: usize)
        requires
            old(self).layout_ok(),
        ensures
            final(self).layout_ok(),
            final(self).window_layout.focused == old(self).window_layout.focused,
            final(self).window_layout.windows@ == old(self).window_layout.windows@.update(
                old(self).window_layout.focused as int,
                crate::layout::with_rows(
                    old(self).window_layout.windows@[old(self).window_layout.focused as int],
                    0,
                    crate::layout::sat_sub(rows as int, 1) as usize,
                ),
            ),
            final(self).buffer == old(self).buffer,
            final(self).state == old(self).state,
    {
        self.window_layout.maximize_vertical(rows, cols);
    }

    /// Stretches the focused window over all columns (Ctrl-w |).
    pub fn maximize_horizontal(&mut self, rows: usize, cols: usize)
        requires
            old(self).layout_ok(),
        ensures
            final(self).layout_ok(),
            final(self).window_layout.focused == old(self).window_layout.focused,
            final(self).window_layout.windows@ == old(self).window_layout.windows@.update(
                old(self).window_layout.focused as int,
                crate::layout::with_cols(
                    old(self).window_layout.windows@[old(self).window_layout.focused as int],
                    0,
                    cols,
                ),
            ),
            final(self).buffer == old(self).buffer,
            final(self).state == old(self).state,
    {
        self.window_layout.maximize_horizontal(rows, cols);
    }

    /// Back to a single window for a `rows` by `cols` screen.
    pub fn update_window_layout(&mut self, rows: usize, cols: usize)
        ensures
            final(self).layout_ok(),
            final(self).window_layout.focused == 0,
            final(self).window_layout.windows@.len() == 1,
            final(self).window_layout.windows@[0].row_end == crate::layout::sat_sub(rows as int, 1),
            final(self).window_layout.windows@[0].col_end == cols,
            final(self).buffer == old(self).buffer,
            final(self).state == old(self).state,
    {
        self.window_layout = WindowLayout::new_single(rows, cols);
    }

    /// The file name, line count and character count, as a message.
    pub fn show_file_info(&mut self) -> (r: EngineResult)
        ensures
            r.message matches Some(m) && m@ == file_info_spec(
                crate::buffer::info_name(old(self).buffer),
                crate::text::line_count(old(self).buffer.text()) as int,
                old(self).buffer.text().len() as int,
            ),
            !r.needs_render,
            *final(self) == *old(self),
    {
        let line_count = self.buffer.line_count();
        let total = self.buffer.len_chars();
        let name = self.buffer.file_text_label();
        let m = file_info_message(name.as_str(), line_count, total);
        EngineResult::with_message(m)
    }

    /// The buffer list (`:ls`): the current buffer marked `*` (and `+` when
    /// unsaved), then the others numbered from 1.
    pub fn buffer_list(&self) -> (r: String)
        ensures
            r@ == buffer_list_spec(
                crate::buffer::list_name(self.buffer),
                unsaved(self.buffer),
                self.inactive_buffers@.map_values(|t: InactiveBuffer| crate::buffer::list_name(t.0)),
            ),
    {
        let current_name = self.buffer.file_name_label();
        let mut names: Vec<String> = Vec::new();
        let mut i: usize = 0;
        while i < self.inactive_buffers.len()
            invariant
                0 <= i <= self.inactive_buffers@.len(),
                names@.map_values(|s: String| s@) == self.inactive_buffers@.take(i as int).map_values(
                    |t: InactiveBuffer| crate::buffer::list_name(t.0),
                ),
            decreases self.inactive_buffers@.len() - i,
        {
            let n = self.inactive_buffers[i].0.file_name_label();
            let ghost before = names@;
            names.push(n);
            proof {
                assert(names@.map_values(|s: String| s@) =~= before.map_values(|s: String| s@).push(n@));
                assert(self.inactive_buffers@.take(i + 1) =~= self.inactive_buffers@.take(i as int).push(
                    self.inactive_buffers@[i as int],
                ));
                assert(self.inactive_buffers@.take(i + 1).map_values(|t: InactiveBuffer| crate::buffer::list_name(t.0))
                    =~= self.inactive_buffers@.take(i as int).map_values(|t: InactiveBuffer| crate::buffer::list_name(t.0)).push(
                    crate::buffer::list_name(self.inactive_buffers@[i as int].0),
                ));
            }
            i += 1;
        }
        proof {
            assert(self.inactive_buffers@.take(i as int) =~= self.inactive_buffers@);
        }
        buffer_list_text(current_name.as_str(), self.buffer.is_dirty(), &names)
    }
}

/// `"name" N lines, M characters`.
pub open spec fn file_info_spec(name: Seq<char>, lines: int, total: int) -> Seq<char> {
    "\""@ + name + "\" "@ + crate::chars::decimal(lines as nat) + " lines, "@ + crate::chars::decimal(
        total as nat,
    ) + " characters"@
}

/// `"name" N lines, M characters`.
pub fn file_info_message(name: &str, lines: usize, total: usize) -> (r: String)
    ensures
        r@ == file_info_spec(name@, lines as int, total as int),
{
    let mut m = String::from_str("\"");
    push_str(&mut m, name);
    push_str(&mut m, "\" ");
    crate::chars::push_decimal(&mut m, lines);
    push_str(&mut m, " lines, ");
    crate::chars::push_decimal(&mut m, total);
    push_str(&mut m, " characters");
    m
}

/// The lines of the other buffers, numbered from 1.
pub open spec fn other_buffer_lines(others: Seq<Seq<char>>) -> Seq<char>
    decreases others.len(),
{
    if others.len() == 0 {
        Seq::empty()
    } else {
        other_buffer_lines(others.drop_last()) + "\n  "@ + crate::chars::decimal(others.len()) + " "@
            + others.last()
    }
}

/// The buffer has changes not saved.
pub open spec fn unsaved(b: TextBuffer) -> bool {
    !b.clean()
}

/// The buffer list text.
pub open spec fn buffer_list_spec(current: Seq<char>, dirty: bool, others: Seq<Seq<char>>) -> Seq<char> {
    "  * "@ + current + (if dirty { " +"@ } else { ""@ }) + other_buffer_lines(others)
}

/// The buffer list text: `  * name` (with ` +` when unsaved) for the current
/// buffer, then `  N name` for each other one.
pub fn buffer_list_text(current: &str, dirty: bool, others: &Vec<String>) -> (r: String)
    ensures
        r@ == buffer_list_spec(current@, dirty, others@.map_values(|s: String| s@)),
{
    let ghost ov = others@.map_values(|s: String| s@);
    let mut m = String::from_str("  * ");
    push_str(&mut m, current);
    if dirty {
        push_str(&mut m, " +");
    } else {
        push_str(&mut m, "");
    }
    let ghost head = m@;
    let mut i: usize = 0;
    proof {
        assert(ov.take(0) =~= Seq::<Seq<char>>::empty());
        assert(m@ =~= head + other_buffer_lines(ov.take(0)));
    }
    while i < others.len()
        invariant
            0 <= i <= others@.len(),
            ov == others@.map_values(|s: String| s@),
            m@ == head + other_buffer_lines(ov.take(i as int)),
        decreases others@.len() - i,
    {
        push_str(&mut m, "\n  ");
        crate::chars::push_decimal(&mut m, i + 1);
        push_str(&mut m, " ");
        push_str(&mut m, others[i].as_str());
        proof {
            assert(ov.take(i + 1).drop_last() =~= ov.take(i as int));
            assert(ov.take(i + 1).last() == others@[i as int]@);
            assert(m@ =~= head + other_buffer_lines(ov.take(i + 1)));
        }
        i += 1;
    }
    proof {
        assert(ov.take(i as int) =~= ov);
    }
    m
}

} // verus!

verus! {

/// Undo then redo brings the engine back to the edit it undid, when that
/// edit is the most recent branch below its parent (as it is right after
/// it was made): the text is that edit redone on the undone text, and the
/// cursor is where the edit left it.
pub proof fn lemma_engine_redo_after_undo(b: Engine, m: Engine, a: Engine, r1: EngineResult, r2: EngineResult)
    requires
        b.wf(),
        !b.undo_manager.at_root(),
        undoes(b, m, r1),
        redoes(m, a, r2),
        b.undo_manager.parent_of(b.undo_manager.current() as int) matches Some(p) && b.undo_manager.children_of(
            p as int,
        ).len() > 0 && b.undo_manager.children_of(p as int).last() == b.undo_manager.current(),
    ensures
        ({
            let e = b.undo_manager.edit_of(b.undo_manager.current() as int);
            &&& a.undo_manager.current() == b.undo_manager.current()
            &&& a.buffer.text() == redo_text(e, undo_text(e, b.buffer.text()).unwrap()).unwrap()
            &&& a.state.cursor == e.cursor_after
        }),
{
    let p = b.undo_manager.parent_of(b.undo_manager.current() as int)->Some_0;
    m.undo_manager.lemma_current_fits();
    assert(m.undo_manager.current() == p);
    assert(b.undo_manager.children_of(m.undo_manager.current() as int) == b.undo_manager.children_of(p as int));
    crate::undo::lemma_redo_after_undo(b.undo_manager, m.undo_manager);
}

} // verus!
