//! What Vim Normal-mode commands do to the editor: mode changes, cursor
//! motions measured in bytes of the line, and the edits behind `D`, `S`,
//! `x`, `p`, `o`, `J`, `dd`, `yy` and their kin.
use crate::buffer::{char_range_spec, cut, sub_spec, delete_spec, insert_spec, line_len, merge_applies, merge_spec, delete_line_spec, delete_range_spec, get_line_range_spec, get_line_spec, line_index, word_at_spec};
use crate::engine::Engine;
use crate::motion::{back_over_ws, line_of, max_i, min_i, moved, sat, word_forward_spec};
use crate::register::{osc52_spec, Register};
use crate::text::{line_count, line_start, to_ascii_lowercase_spec};
use crate::state::InsertState;
use crate::keymap::Key;
use crate::types::{kill_ring_pushed, DotAction, EditorState, Mode, PluginEvent, Position, VisualType};
use crate::undo::{Edit, EditType, UndoManager};
use crate::visual::{byte_clamped, byte_len};
use vstd::prelude::*;

verus! {

/// `after` is `before` in mode `to`, the change queued for plugins.
pub open spec fn switched(before: Engine, after: Engine, to: Mode) -> bool {
    &&& after.state == (EditorState { mode: to, ..before.state })
    &&& after.plugin_manager.pending() == before.plugin_manager.pending().push(
        PluginEvent::ModeChange { from: before.state.mode, to },
    )
    &&& after.plugin_manager.plugin_names() == before.plugin_manager.plugin_names()
    &&& after.plugin_manager.loaders() == before.plugin_manager.loaders()
    &&& after == (Engine { state: after.state, plugin_manager: after.plugin_manager, ..before })
}

/// Register `n` is register `o` after writing `c` to register `name`.
pub open spec fn reg_set(o: Register, n: Register, name: char, c: Seq<char>) -> bool {
    let k = to_ascii_lowercase_spec(name);
    &&& n.view() == o.view().insert(k, c)
    &&& n.default_name() == o.default_name()
    &&& n.pending_clipboard() == if (k == '"' || k == '+') && c.len() > 0 {
        o.pending_clipboard().push(osc52_spec(c))
    } else {
        o.pending_clipboard()
    }
}

/// The current undo step.
pub open spec fn last_edit(u: UndoManager) -> Edit {
    u.edit_of(u.current() as int)
}

/// `after` is `before` with one more undo step, the current one, made
/// with the cursor going from `cb` to `ca` and the modification counter at
/// `mods`.
pub open spec fn pushed_step(before: UndoManager, after: UndoManager, cb: Position, ca: Position, mods: usize) -> bool {
    &&& after.wf()
    &&& after.current() == before.node_count()
    &&& after.node_count() == before.node_count() + 1
    &&& after.parent_of(after.current() as int) == Some(before.current() as usize)
    &&& after.edit_of(after.current() as int).cursor_before == cb
    &&& after.edit_of(after.current() as int).cursor_after == ca
    &&& after.edit_of(after.current() as int).modification_count == mods
}

/// `pushed_step` with the cursor in one place.
pub open spec fn pushed_edit(before: UndoManager, after: UndoManager, cursor: Position, mods: usize) -> bool {
    pushed_step(before, after, cursor, cursor, mods)
}

/// Where Insert mode starts: at the cursor (`i`), after it (`a`), or at
/// the end of the line (`A`).
#[derive(Debug, Clone, Copy, PartialEq, Eq, Structural)]
pub enum InsertStart {
    Here,
    After,
    LineEnd,
}

/// The column Insert mode starts at.
pub open spec fn insert_col(e: Engine, how: InsertStart) -> int {
    let c = e.state.cursor;
    let n = byte_len(line_of(e, c.line as int));
    match how {
        InsertStart::Here => c.col as int,
        InsertStart::After => if c.col < n {
            c.col + 1
        } else {
            c.col as int
        },
        InsertStart::LineEnd => n,
    }
}

/// The line and its text without the line break.
pub open spec fn line_body(e: Engine, l: int) -> Seq<char> {
    let s = line_of(e, l);
    if s.len() > 0 && s.last() == '\n' {
        s.drop_last()
    } else {
        s
    }
}

/// `after` is `before` with the buffer changed to text `t`, the change
/// reported to plugins, and nothing else changed but the parts named in
/// `rest` (already taken from `after`).
pub open spec fn changed_text(before: Engine, rest: Engine, after: Engine, t: Seq<char>) -> bool {
    &&& after.buffer.text() == t
    &&& after.state == (EditorState { dirty: !after.buffer.clean(), ..rest.state })
    &&& after.plugin_manager.pending() == rest.plugin_manager.pending().push(PluginEvent::BufferChange)
    &&& after.plugin_manager.plugin_names() == before.plugin_manager.plugin_names()
    &&& after.plugin_manager.loaders() == before.plugin_manager.loaders()
    &&& after == (Engine { buffer: after.buffer, state: after.state, plugin_manager: after.plugin_manager, ..rest })
}

/// The characters of the run of non-whitespace from column `col` of `c`.
pub open spec fn word_end_text(c: Seq<char>, col: int) -> Seq<char> {
    c.subrange(col, crate::text::scan_right_nonws(c, col))
}

/// Where the word around (`line`, `col`) starts in the text, and where a
/// span as long as its byte length ends.
pub open spec fn word_span(t: Seq<char>, line: int, col: int) -> (int, int) {
    let w = word_at_spec(t, line, col);
    let a = line_start(t, line - 1) + w.1;
    (a, a + byte_len(w.0))
}

/// The word around the cursor can be cut by a span of its byte length.
pub open spec fn word_cut_ok(e: Engine) -> bool {
    let t = e.buffer.text();
    let c = e.state.cursor;
    word_at_spec(t, c.line as int, c.col as int).0.len() > 0 ==> c.line >= 1 && word_span(
        t,
        c.line as int,
        c.col as int,
    ).1 <= t.len()
}

/// The text with `[a, b)` removed when `a < b`.
pub open spec fn removed(t: Seq<char>, a: int, b: int) -> Seq<char> {
    if a < b {
        cut(t, a, b)
    } else {
        t
    }
}

/// Each engine of `es` is related by `step` to the next one.
pub open spec fn steps_through(step: spec_fn(Engine, Engine) -> bool, es: Seq<Engine>) -> bool {
    forall|i: int| 0 <= i < es.len() - 1 ==> #[trigger] step(es[i], es[i + 1])
}

/// `b` is `a` after `n` steps, each relating an engine to the next.
pub open spec fn repeated(step: spec_fn(Engine, Engine) -> bool, a: Engine, b: Engine, n: nat) -> bool {
    exists|es: Seq<Engine>| es.len() == n + 1 && es[0] == a && es[n as int] == b && #[trigger] steps_through(step, es)
}

/// One more step extends a chain of steps.
pub proof fn lemma_chain_push(step: spec_fn(Engine, Engine) -> bool, es: Seq<Engine>, b: Engine)
    requires
        es.len() > 0,
        steps_through(step, es),
        step(es.last(), b),
    ensures
        steps_through(step, es.push(b)),
{
    let es2 = es.push(b);
    assert forall|i: int| 0 <= i < es2.len() - 1 implies #[trigger] step(es2[i], es2[i + 1]) by {
        if i < es.len() - 1 {
            assert(step(es[i], es[i + 1]));
        }
    }
}

/// The text after deleting line `l` `k` times.
pub open spec fn after_taking(t: Seq<char>, l: int, k: nat) -> Seq<char>
    decreases k,
{
    if k == 0 {
        t
    } else {
        delete_line_spec(after_taking(t, l, (k - 1) as nat), l)
    }
}

/// The lines deleted by deleting line `l` `k` times, in order.
pub open spec fn taken_lines(t: Seq<char>, l: int, k: nat) -> Seq<Seq<char>>
    decreases k,
{
    if k == 0 {
        Seq::empty()
    } else {
        taken_lines(t, l, (k - 1) as nat).push(get_line_spec(after_taking(t, l, (k - 1) as nat), l))
    }
}

/// The clipboard sequences queued by writing each of `cs` in turn to the
/// register named `k` (already lowercased).
pub open spec fn clips_of(k: char, cs: Seq<Seq<char>>) -> Seq<Seq<char>>
    decreases cs.len(),
{
    if cs.len() == 0 {
        Seq::empty()
    } else {
        clips_of(k, cs.drop_last()) + if (k == '"' || k == '+') && cs.last().len() > 0 {
            seq![osc52_spec(cs.last())]
        } else {
            Seq::<Seq<char>>::empty()
        }
    }
}

/// Register `n` is register `o` after writing each of `cs` in turn to
/// register `name`.
pub open spec fn reg_set_all(o: Register, n: Register, name: char, cs: Seq<Seq<char>>) -> bool {
    let k = to_ascii_lowercase_spec(name);
    &&& n.view() == if cs.len() > 0 {
        o.view().insert(k, cs.last())
    } else {
        o.view()
    }
    &&& n.default_name() == o.default_name()
    &&& n.pending_clipboard() == o.pending_clipboard() + clips_of(k, cs)
}

/// `after` is `before` after `D` once: from the cursor to the end of the
/// line (its line break kept) deleted into the kill ring, as one undo step.
pub open spec fn kills_line(before: Engine, after: Engine) -> bool {
    let t = before.buffer.text();
    let c = before.state.cursor;
    let end = line_body(before, c.line as int).len() as int;
    let d = char_range_spec(t, c.line as int, c.col as int, c.line as int, end);
    if c.col < end {
        &&& after.kill_ring.view() == if d.len() > 0 {
            kill_ring_pushed(before.kill_ring.view(), d)
        } else {
            before.kill_ring.view()
        }
        &&& pushed_edit(before.undo_manager, after.undo_manager, c, before.buffer.mods())
        &&& last_edit(after.undo_manager).edit_type matches EditType::Delete { line, col, text }
            && line == c.line && col == c.col && text@ == d
        &&& changed_text(
            before,
            Engine { undo_manager: after.undo_manager, kill_ring: after.kill_ring, ..before },
            after,
            delete_range_spec(t, c.line as int, c.col as int, c.line as int, end),
        )
    } else {
        after == before
    }
}

/// `after` is `before` after `dd` once: the cursor's line deleted into
/// register `register`, as one undo step; the cursor stays on that line
/// number (or the last line), its column kept within the line's bytes.
pub open spec fn deletes_line(before: Engine, after: Engine, register: char) -> bool {
    let t = before.buffer.text();
    let c = before.state.cursor;
    let t2 = delete_line_spec(t, c.line as int);
    let lc = line_count(t2) as int;
    let l = if c.line > lc {
        max_i(lc, 1)
    } else {
        c.line as int
    };
    let col = min_i(c.col as int, sat(byte_len(get_line_spec(t2, l)), 1));
    &&& reg_set(before.register, after.register, register, get_line_spec(t, c.line as int))
    &&& pushed_edit(before.undo_manager, after.undo_manager, c, before.buffer.mods())
    &&& last_edit(after.undo_manager).edit_type matches EditType::DeleteLine { line, text }
        && line == c.line && text@ == get_line_spec(t, c.line as int)
    &&& changed_text(
        before,
        Engine {
            register: after.register,
            undo_manager: after.undo_manager,
            state: EditorState { cursor: Position { line: l as usize, col: col as usize }, ..before.state },
            ..before
        },
        after,
        t2,
    )
}

/// `after` is `before` after `x` once. A character under the cursor (not
/// past the line's characters) goes to register `register` and is deleted;
/// past them the next line is joined on. Either is one undo step, and `.`
/// repeats it as a deletion.
pub open spec fn deletes_char(before: Engine, after: Engine, register: char) -> bool {
    let t = before.buffer.text();
    let c = before.state.cursor;
    let l = line_of(before, c.line as int);
    let rest = Engine { register: after.register, undo_manager: after.undo_manager, dot_last_action: after.dot_last_action, ..before };
    if c.col < l.len() {
        &&& reg_set(before.register, after.register, register, seq![l[c.col as int]])
        &&& pushed_edit(before.undo_manager, after.undo_manager, c, before.buffer.mods())
        &&& last_edit(after.undo_manager).edit_type matches EditType::Delete { line, col, text }
            && line == c.line && col == c.col && text@ == seq![l[c.col as int]]
        &&& after.dot_last_action matches Some(DotAction::Delete { text, line, col }) && text@.len() == 0 && line == 0 && col == 0
        &&& changed_text(before, rest, after, delete_spec(t, c.line as int, c.col as int))
    } else if c.line < line_count(t) {
        &&& after.register == before.register
        &&& pushed_edit(before.undo_manager, after.undo_manager, c, before.buffer.mods())
        &&& last_edit(after.undo_manager).edit_type == (EditType::Merge { line: c.line, deleted_newline_col: c.col })
        &&& after.dot_last_action matches Some(DotAction::Delete { text, line, col }) && text@.len() == 0 && line == 0 && col == 0
        &&& changed_text(before, rest, after, merge_spec(t, c.line + 1))
    } else {
        changed_text(before, before, after, t)
    }
}

/// Whether `J` puts a space where two lines meet: the first does not end in
/// a space or tab, and the second is not empty and does not start with a
/// space.
pub open spec fn join_space(cur: Seq<char>, next: Seq<char>) -> bool {
    &&& !(cur.len() > 0 && (cur.last() == ' ' || cur.last() == '\t'))
    &&& !(next.len() > 0 && next[0] == ' ')
    &&& next.len() > 0
}

/// `after` is `before` after `J` once: the next line joined on (with a
/// space when `join_space` says so), the cursor where they meet, as one
/// undo step; nothing on the last line.
pub open spec fn joins_lines(before: Engine, after: Engine) -> bool {
    let t = before.buffer.text();
    let c = before.state.cursor;
    let l = c.line as int;
    if l >= line_count(t) {
        after == before
    } else {
        let jp = if merge_applies(t, l + 1) {
            line_len(t, l - 1) - 1
        } else {
            0
        };
        let sp = join_space(line_body(before, l), line_body(before, l + 1));
        let t1 = merge_spec(t, l + 1);
        let p = Position { line: c.line, col: (if sp { jp + 1 } else { jp }) as usize };
        &&& pushed_edit(before.undo_manager, after.undo_manager, p, before.buffer.mods())
        &&& last_edit(after.undo_manager).edit_type == (EditType::Merge { line: c.line, deleted_newline_col: jp as usize })
        &&& after.dot_last_action == Some(DotAction::Join)
        &&& changed_text(
            before,
            Engine {
                undo_manager: after.undo_manager,
                dot_last_action: after.dot_last_action,
                state: EditorState { cursor: p, ..before.state },
                ..before
            },
            after,
            if sp {
                insert_spec(t1, l, jp, seq![' '])
            } else {
                t1
            },
        )
    }
}

/// What `>>` puts in front of a line: `sw` spaces with `expandtab`, else a
/// tab.
pub open spec fn indent_unit(expandtab: bool, sw: usize) -> Seq<char> {
    if expandtab {
        Seq::new(sw as nat, |i: int| ' ')
    } else {
        seq!['\t']
    }
}

/// The text after `>>` (`indent_unit` in front) or `<<` (a leading tab,
/// or two leading spaces, removed) on line `l`.
pub open spec fn indent_text(t: Seq<char>, l: int, indent: bool, expandtab: bool, sw: usize) -> Seq<char> {
    let c = get_line_spec(t, l);
    if indent {
        insert_spec(t, l, 0, indent_unit(expandtab, sw))
    } else if c.len() > 0 && c[0] == '\t' {
        delete_spec(t, l, 0)
    } else if c.len() >= 2 && c[0] == ' ' && c[1] == ' ' {
        delete_spec(delete_spec(t, l, 0), l, 0)
    } else {
        t
    }
}

/// `indent_text` applied `k` times.
pub open spec fn indent_times(t: Seq<char>, l: int, indent: bool, expandtab: bool, sw: usize, k: nat) -> Seq<char>
    decreases k,
{
    if k == 0 {
        t
    } else {
        indent_text(indent_times(t, l, indent, expandtab, sw, (k - 1) as nat), l, indent, expandtab, sw)
    }
}

/// The character `~` turns `c` into: ASCII letters change case.
pub open spec fn toggled_case(c: char) -> char {
    if 'a' <= c <= 'z' {
        ((c as u32) - 32) as char
    } else if 'A' <= c <= 'Z' {
        ((c as u32) + 32) as char
    } else {
        c
    }
}

/// `after` is `before` after `~` once: the character under the cursor
/// (within the line, not its line break) has its case toggled, as one undo
/// step, and the cursor moves right within the line; `.` repeats it.
pub open spec fn toggles_case(before: Engine, after: Engine) -> bool {
    let t = before.buffer.text();
    let c = before.state.cursor;
    let b = line_body(before, c.line as int);
    if c.col < b.len() {
        let ch = b[c.col as int];
        let p = Position { line: c.line, col: min_i(c.col + 1, b.len() - 1) as usize };
        &&& pushed_step(before.undo_manager, after.undo_manager, c, p, before.buffer.mods())
        &&& last_edit(after.undo_manager).edit_type matches EditType::Replace { line, col, old_text, new_text }
            && line == c.line && col == c.col && old_text@ == seq![ch] && new_text@ == seq![toggled_case(ch)]
        &&& after.dot_last_action == Some(DotAction::ToggleCase)
        &&& changed_text(
            before,
            Engine {
                undo_manager: after.undo_manager,
                dot_last_action: after.dot_last_action,
                state: EditorState { cursor: p, ..before.state },
                ..before
            },
            after,
            insert_spec(delete_spec(t, c.line as int, c.col as int), c.line as int, c.col as int, seq![toggled_case(ch)]),
        )
    } else {
        after == before
    }
}

/// What register `c` holds (empty when it holds nothing).
pub open spec fn reg_get(r: Register, c: char) -> Seq<char> {
    let k = to_ascii_lowercase_spec(c);
    if r.view().contains_key(k) {
        r.view()[k]
    } else {
        Seq::empty()
    }
}

/// `s` without its last character, if it has one.
pub open spec fn popped(s: Seq<char>) -> Seq<char> {
    if s.len() > 0 {
        s.drop_last()
    } else {
        s
    }
}

/// `s` without its last `k` characters (empty when it has fewer).
pub open spec fn popped_n(s: Seq<char>, k: int) -> Seq<char> {
    if k >= s.len() {
        Seq::empty()
    } else {
        s.take(s.len() - k)
    }
}

/// `after` is `before` with the text changed to `t` during an Insert
/// session, the cursor at `p` and the typed text now `typed`.
pub open spec fn typed(before: Engine, after: Engine, t: Seq<char>, p: Position, typed: Seq<char>) -> bool {
    &&& after.insert_state.accum@ == typed
    &&& after.insert_state.start_pos == before.insert_state.start_pos
    &&& after.insert_state.waiting_register == before.insert_state.waiting_register
    &&& changed_text(
        before,
        Engine { insert_state: after.insert_state, state: EditorState { cursor: p, ..before.state }, ..before },
        after,
        t,
    )
}

/// An Insert-mode key can be taken: the cursor is away from the largest
/// line and column numbers, also after a register's text is put in.
pub open spec fn insert_key_ok(e: Engine, key: Key) -> bool {
    &&& e.wf()
    &&& e.buffer.text().len() + e.state.cursor.col < usize::MAX
    &&& e.state.cursor.line < usize::MAX
    &&& e.insert_state.waiting_register ==> match key {
        Key::Char(c) => e.state.cursor.col + reg_get(e.register, c).len() <= usize::MAX,
        _ => true,
    }
}

/// What a key does in Insert mode. After Ctrl-r, a character names the
/// register whose text is put in; otherwise Esc ends the session (its
/// typed text one undo step) and steps the cursor back, Backspace deletes
/// before the cursor (joining lines at the start of one), Enter breaks the
/// line, and a character goes in.
pub open spec fn insert_key_effect(before: Engine, after: Engine, key: Key) -> bool {
    let t = before.buffer.text();
    let c = before.state.cursor;
    let acc = before.insert_state.accum@;
    if before.insert_state.waiting_register {
        let mid = Engine { insert_state: InsertState { waiting_register: false, ..before.insert_state }, ..before };
        match key {
            Key::Char(r) => {
                let content = reg_get(before.register, r);
                if content.len() > 0 {
                    typed(
                        mid,
                        after,
                        insert_spec(t, c.line as int, c.col as int, content),
                        Position { line: c.line, col: (c.col + content.len()) as usize },
                        acc + content,
                    )
                } else {
                    after == mid
                }
            },
            _ => after == mid,
        }
    } else {
        match key {
            Key::Esc => {
                let sp = match before.insert_state.start_pos {
                    Some(p) => p,
                    None => Position { line: 1, col: 0 },
                };
                &&& after.insert_state.accum@.len() == 0
                &&& after.insert_state.start_pos is None
                &&& after.insert_state.waiting_register == before.insert_state.waiting_register
                &&& if acc.len() > 0 {
                    &&& pushed_step(before.undo_manager, after.undo_manager, sp, c, before.buffer.mods())
                    &&& last_edit(after.undo_manager).edit_type matches EditType::Insert { line, col, text }
                        && line == sp.line && col == sp.col && text@ == acc
                } else {
                    after.undo_manager == before.undo_manager
                }
                &&& after.state == (EditorState {
                    mode: Mode::Normal,
                    cursor: Position { line: c.line, col: sat(c.col as int, 1) as usize },
                    ..before.state
                })
                &&& after.plugin_manager.pending() == before.plugin_manager.pending().push(
                    PluginEvent::ModeChange { from: before.state.mode, to: Mode::Normal },
                )
                &&& after.plugin_manager.plugin_names() == before.plugin_manager.plugin_names()
                &&& after.plugin_manager.loaders() == before.plugin_manager.loaders()
                &&& after == (Engine {
                    insert_state: after.insert_state,
                    undo_manager: after.undo_manager,
                    state: after.state,
                    plugin_manager: after.plugin_manager,
                    ..before
                })
            },
            Key::Backspace => if c.col > 0 {
                typed(
                    before,
                    after,
                    delete_spec(t, c.line as int, c.col - 1),
                    Position { line: c.line, col: (c.col - 1) as usize },
                    popped(acc),
                )
            } else if c.line > 1 {
                typed(
                    before,
                    after,
                    merge_spec(t, c.line as int),
                    Position {
                        line: (c.line - 1) as usize,
                        col: (if merge_applies(t, c.line as int) {
                            line_len(t, c.line - 2) - 1
                        } else {
                            0
                        }) as usize,
                    },
                    popped(acc),
                )
            } else {
                after == before
            },
            Key::Enter => typed(
                before,
                after,
                insert_spec(t, c.line as int, c.col as int, seq!['\n']),
                Position { line: (c.line + 1) as usize, col: 0 },
                acc.push('\n'),
            ),
            Key::Char(ch) => typed(
                before,
                after,
                insert_spec(t, c.line as int, c.col as int, seq![ch]),
                Position { line: c.line, col: (c.col + 1) as usize },
                acc.push(ch),
            ),
            _ => after == before,
        }
    }
}

/// The characters an `r` with count `n` replaces: up to `n` from column
/// `col` of line `c`.
pub open spec fn replaced_chars(c: Seq<char>, col: int, n: int) -> Seq<char> {
    if col < c.len() {
        c.subrange(col, min_i(col + n, c.len() as int))
    } else {
        Seq::empty()
    }
}

/// The character under the cursor for Replace mode (NUL past the line).
pub open spec fn char_under(c: Seq<char>, col: int) -> char {
    if col < c.len() {
        c[col]
    } else {
        '\0'
    }
}

/// The count of a pending `r` (1 when none).
pub open spec fn inline_count(e: Engine) -> nat {
    match e.operator_state.count {
        Some(k) => k as nat,
        None => 1,
    }
}

/// The characters a pending `r` replaces.
pub open spec fn inline_old(e: Engine) -> Seq<char> {
    replaced_chars(line_of(e, e.state.cursor.line as int), e.state.cursor.col as int, inline_count(e) as int)
}

/// The text after a pending `r` replaces with `ch`.
pub open spec fn inline_text(e: Engine, ch: char) -> Seq<char> {
    let t = e.buffer.text();
    let c = e.state.cursor;
    let a = line_start(t, sat(c.line as int, 1)) + c.col;
    insert_spec(removed(t, a, a + inline_old(e).len()), c.line as int, c.col as int, Seq::new(inline_count(e), |i: int| ch))
}

/// `r{ch}` with the pending count (1 when none): the characters under and
/// after the cursor are replaced by as many copies of `ch` as the count,
/// as one undo step; `.` repeats it; back to Normal mode.
pub open spec fn replaces_inline(before: Engine, after: Engine, ch: char) -> bool {
    let c = before.state.cursor;
    let old_text = inline_old(before);
    let new_text = Seq::new(inline_count(before), |i: int| ch);
    &&& after.buffer.text() == inline_text(before, ch)
    &&& pushed_edit(before.undo_manager, after.undo_manager, c, after.buffer.mods())
    &&& last_edit(after.undo_manager).edit_type matches EditType::Replace { line, col, old_text: o, new_text: w }
        && line == c.line && col == c.col && o@ == old_text && w@ == new_text
    &&& after.dot_last_action == Some(DotAction::Replace { ch })
    &&& after.operator_state == (crate::state::OperatorState { count: None, replace_char: None, ..before.operator_state })
    &&& after.state == (EditorState { mode: Mode::Normal, dirty: !after.buffer.clean(), ..before.state })
    &&& after.plugin_manager.pending() == before.plugin_manager.pending().push(
        PluginEvent::ModeChange { from: before.state.mode, to: Mode::Normal },
    ).push(PluginEvent::BufferChange)
    &&& after.plugin_manager.plugin_names() == before.plugin_manager.plugin_names()
    &&& after.plugin_manager.loaders() == before.plugin_manager.loaders()
    &&& after == (Engine {
        buffer: after.buffer,
        undo_manager: after.undo_manager,
        dot_last_action: after.dot_last_action,
        operator_state: after.operator_state,
        state: after.state,
        plugin_manager: after.plugin_manager,
        ..before
    })
}

/// A Replace-mode key can be taken: the cursor is on or just past an
/// existing line and away from the largest line and column numbers.
pub open spec fn replace_key_ok(e: Engine) -> bool {
    &&& e.wf()
    &&& sat(e.state.cursor.line as int, 1) <= line_count(e.buffer.text())
    &&& e.buffer.text().len() + e.state.cursor.col < usize::MAX
    &&& e.state.cursor.line < usize::MAX
}

/// `after` is `before` with the Replace-mode edit (the cursor going from
/// `cb` to `ca`) added to the session's edits.
pub open spec fn grouped(before: Engine, after: Engine, cb: Position, ca: Position) -> bool {
    let g0 = before.replace_undo_group@;
    let g = after.replace_undo_group@;
    &&& g.len() == g0.len() + 1
    &&& g.subrange(0, g0.len() as int) == g0
    &&& g.last().cursor_before == cb
    &&& g.last().cursor_after == ca
}

/// What a key does in Replace mode. With `r` pending a character (or
/// Enter, as a line break) is `replaces_inline`; otherwise Esc ends the
/// session (its edits one undo step), a character overwrites the one under
/// the cursor, Backspace steps left, and Enter breaks the line.
pub open spec fn replace_key_effect(before: Engine, after: Engine, key: Key) -> bool {
    let t = before.buffer.text();
    let c = before.state.cursor;
    let single = before.operator_state.replace_char == Some('\0');
    match key {
        Key::Esc => {
            let mid = Engine {
                operator_state: crate::state::OperatorState { replace_char: None, ..before.operator_state },
                replace_undo_group: after.replace_undo_group,
                undo_manager: after.undo_manager,
                ..before
            };
            &&& after.replace_undo_group@.len() == 0
            &&& if before.replace_undo_group@.len() > 0 {
                &&& pushed_edit(before.undo_manager, after.undo_manager, c, before.buffer.mods())
                &&& last_edit(after.undo_manager).edit_type matches EditType::Group { edits }
                    && edits@ == before.replace_undo_group@
            } else {
                after.undo_manager == before.undo_manager
            }
            &&& switched(mid, after, Mode::Normal)
        },
        Key::Char(ch) => if single {
            replaces_inline(before, after, ch)
        } else {
            let o = char_under(line_of(before, c.line as int), c.col as int);
            let t1 = if o != '\0' {
                delete_spec(t, c.line as int, c.col as int)
            } else {
                t
            };
            let p = Position { line: c.line, col: (c.col + 1) as usize };
            &&& grouped(before, after, c, p)
            &&& after.replace_undo_group@.last().modification_count == after.buffer.mods()
            &&& after.replace_undo_group@.last().edit_type matches EditType::Replace { line, col, old_text, new_text }
                && line == c.line && col == c.col && old_text@ == seq![o] && new_text@ == seq![ch]
            &&& changed_text(
                before,
                Engine {
                    replace_undo_group: after.replace_undo_group,
                    state: EditorState { cursor: p, ..before.state },
                    ..before
                },
                after,
                insert_spec(t1, c.line as int, c.col as int, seq![ch]),
            )
        },
        Key::Backspace => after == moved(before, c.line as int, sat(c.col as int, 1)),
        Key::Enter => if single {
            replaces_inline(before, after, '\n')
        } else {
            let p = Position { line: (c.line + 1) as usize, col: 0 };
            &&& grouped(before, after, c, p)
            &&& after.replace_undo_group@.last().modification_count == before.buffer.mods()
            &&& after.replace_undo_group@.last().edit_type == (EditType::Split { line: c.line, col: c.col })
            &&& changed_text(
                before,
                Engine {
                    replace_undo_group: after.replace_undo_group,
                    state: EditorState { cursor: p, ..before.state },
                    ..before
                },
                after,
                insert_spec(t, c.line as int, c.col as int, seq!['\n']),
            )
        },
        _ => after == before,
    }
}

/// `~` on one character.
pub fn toggle_ascii_case(ch: char) -> (r: char)
    ensures
        r == toggled_case(ch),
{
    if 'a' <= ch && ch <= 'z' {
        ((ch as u8) - 32) as char
    } else if 'A' <= ch && ch <= 'Z' {
        ((ch as u8) + 32) as char
    } else {
        ch
    }
}

/// `~` swaps the case of ASCII letters and leaves every other character:
/// a lowercase letter becomes the uppercase one 32 code points below, an
/// uppercase letter the lowercase one 32 above, so every letter changes,
/// and toggling twice gives the character back.
pub proof fn lemma_toggle_case_swaps(c: char)
    ensures
        'a' <= c <= 'z' ==> 'A' <= toggled_case(c) <= 'Z' && toggled_case(c) as u32 + 32 == c as u32,
        'A' <= c <= 'Z' ==> 'a' <= toggled_case(c) <= 'z' && toggled_case(c) as u32 == c as u32 + 32,
        !('a' <= c <= 'z') && !('A' <= c <= 'Z') ==> toggled_case(c) == c,
        ('a' <= c <= 'z' || 'A' <= c <= 'Z') ==> toggled_case(c) != c,
        toggled_case(toggled_case(c)) == c,
{
    assert('a' as u32 == 97);
    assert('z' as u32 == 122);
    assert('A' as u32 == 65);
    assert('Z' as u32 == 90);
}

/// Deleting a character never lengthens the text.
pub proof fn lemma_delete_len(t: Seq<char>, l: int, c: int)
    requires
        c >= 0,
    ensures
        delete_spec(t, l, c).len() <= t.len(),
{
    if crate::buffer::delete_applies(t, l, c) {
        crate::text::lemma_line_bounds(t, line_index(l));
    }
}

/// Joining two lines never lengthens the text.
pub proof fn lemma_merge_len(t: Seq<char>, l: int)
    ensures
        merge_spec(t, l).len() <= t.len(),
{
    if merge_applies(t, l) {
        crate::text::lemma_line_bounds(t, l - 2);
    }
}

/// `w` once: to the start of the next word on the line, if there is one.
pub open spec fn word_forward_of(e: Engine) -> Engine {
    let c = line_of(e, e.state.cursor.line as int);
    let i = word_forward_spec(c, e.state.cursor.col as int);
    if i < c.len() {
        moved(e, e.state.cursor.line as int, i)
    } else {
        e
    }
}

/// `e` once: to the end of the word, if there is one.
pub open spec fn word_end_of(e: Engine) -> Engine {
    let c = line_of(e, e.state.cursor.line as int);
    let i = word_forward_spec(c, e.state.cursor.col as int);
    if i > 0 && i <= c.len() {
        moved(e, e.state.cursor.line as int, i - 1)
    } else {
        e
    }
}

/// `b` once: to the start of the word before the cursor.
pub open spec fn word_backward_of(e: Engine) -> Engine {
    let c = line_of(e, e.state.cursor.line as int);
    let col = e.state.cursor.col as int;
    if col == 0 {
        e
    } else {
        moved(e, e.state.cursor.line as int, crate::text::scan_left_nonws(c, back_over_ws(c, col - 1)))
    }
}

/// A motion applied `n` times: `0` forward (`w`), `1` to the word end
/// (`e`), otherwise backward (`b`).
pub open spec fn word_moves(e: Engine, kind: u8, n: nat) -> Engine
    decreases n,
{
    if n == 0 {
        e
    } else {
        let m = word_moves(e, kind, (n - 1) as nat);
        if kind == 0 {
            word_forward_of(m)
        } else if kind == 1 {
            word_end_of(m)
        } else {
            word_backward_of(m)
        }
    }
}

/// `n` copies of `ch`.
pub fn repeat_char(ch: char, n: usize) -> (r: String)
    ensures
        r@ == Seq::new(n as nat, |j: int| ch),
{
    let mut s = String::new();
    let mut i: usize = 0;
    while i < n
        invariant
            0 <= i <= n,
            s@ == Seq::new(i as nat, |j: int| ch),
        decreases n - i,
    {
        crate::strutil::push_char(&mut s, ch);
        proof {
            assert(s@ =~= Seq::new((i + 1) as nat, |j: int| ch));
        }
        i += 1;
    }
    s
}

/// The text after pasting the first `k` of the lines `ls` at line `cl`:
/// the first at column `cc` (or 0 before the cursor), the others at the
/// start of the lines below, each followed by a line break put at the
/// column of its length in bytes.
pub open spec fn paste_text(t: Seq<char>, ls: Seq<Seq<char>>, cl: int, cc: int, before: bool, k: nat) -> Seq<char>
    decreases k,
{
    if k == 0 {
        t
    } else {
        let t0 = paste_text(t, ls, cl, cc, before, (k - 1) as nat);
        let i = k - 1;
        let l = ls[i];
        let at = if i == 0 && !before {
            cc
        } else {
            0
        };
        insert_spec(insert_spec(t0, cl + i, at, l), cl + i, at + byte_len(l), seq!['\n'])
    }
}

/// What `p` (after) and `P` (before) put in: the default register's text.
pub open spec fn paste_content(e: Engine) -> Seq<char> {
    reg_get(e.register, e.register.default_name())
}

/// `after` is `before` in Insert mode started the way `how` says.
pub open spec fn starts_insert(b: Engine, a: Engine, how: InsertStart) -> bool {
    &&& a.insert_state.accum@.len() == 0
    &&& a.insert_state.start_pos == Some(b.state.cursor)
    &&& a.insert_state.waiting_register == b.insert_state.waiting_register
    &&& switched(
        Engine {
            insert_state: a.insert_state,
            state: EditorState {
                cursor: Position { line: b.state.cursor.line, col: insert_col(b, how) as usize },
                ..b.state
            },
            ..b
        },
        a,
        Mode::Insert,
    )
}

/// `after` is `before` in Command mode with the command line holding `prefix`.
pub open spec fn opens_command_line(b: Engine, a: Engine, prefix: Option<char>) -> bool {
    &&& a.state.command_buffer@ == match prefix {
        Some(c) => seq![c],
        None => Seq::<char>::empty(),
    }
    &&& switched(
        Engine {
            state: EditorState { command_buffer: a.state.command_buffer, ..b.state },
            ..b
        },
        a,
        Mode::Command,
    )
}

/// `after` is `before` after `S`: the line cut into the unnamed register, Insert mode.
pub open spec fn substitutes_line(b: Engine, a: Engine) -> bool {
    ({
        let t = b.buffer.text();
        let l = b.state.cursor.line as int;
        let mid = Engine { register: a.register, ..b };
        &&& reg_set(b.register, a.register, '"', get_line_spec(t, l))
        &&& a.buffer.text() == delete_line_spec(t, l)
        &&& a.state == (EditorState { mode: Mode::Insert, dirty: !a.buffer.clean(), ..b.state })
        &&& a.plugin_manager.pending() == b.plugin_manager.pending().push(
            PluginEvent::ModeChange { from: b.state.mode, to: Mode::Insert },
        ).push(PluginEvent::BufferChange)
        &&& a.plugin_manager.plugin_names() == b.plugin_manager.plugin_names()
        &&& a.plugin_manager.loaders() == b.plugin_manager.loaders()
        &&& a == (Engine {
            buffer: a.buffer,
            state: a.state,
            plugin_manager: a.plugin_manager,
            ..mid
        })
    })
}

/// `after` is `before` in Visual mode of type `t`, the selection starting at the cursor.
pub open spec fn enters_visual(b: Engine, a: Engine, t: VisualType) -> bool {
    switched(
        Engine {
            state: EditorState {
                visual_start: Some(b.state.cursor),
                visual_type: Some(t),
                ..b.state
            },
            ..b
        },
        a,
        Mode::Visual,
    )
}

/// `after` is `before` after `r` (`single`) or `R`.
pub open spec fn enters_replace(b: Engine, a: Engine, single: bool) -> bool {
    if single && b.state.command_buffer@.len() > 0 {
        a == b
    } else {
        switched(
            Engine {
                operator_state: crate::state::OperatorState {
                    replace_char: if single { Some('\0') } else { None },
                    ..b.operator_state
                },
                ..b
            },
            a,
            Mode::Replace,
        )
    }
}

/// `after` is `before` after `o` (`above` false) or `O`.
pub open spec fn opens_line(b: Engine, a: Engine, above: bool) -> bool {
    ({
        let c = b.state.cursor;
        let at = if above {
            c.line as int
        } else {
            c.line + 1
        };
        &&& a.buffer.text() == insert_spec(b.buffer.text(), at, 0, seq!['\n'])
        &&& a.dot_last_action matches Some(DotAction::Insert { text }) && text@.len() == 0
        &&& a.state == (EditorState {
            cursor: Position { line: at as usize, col: 0 },
            mode: Mode::Insert,
            dirty: !a.buffer.clean(),
            ..b.state
        })
        &&& a.plugin_manager.pending() == b.plugin_manager.pending().push(
            PluginEvent::ModeChange { from: b.state.mode, to: Mode::Insert },
        ).push(PluginEvent::BufferChange)
        &&& a.plugin_manager.plugin_names() == b.plugin_manager.plugin_names()
        &&& a.plugin_manager.loaders() == b.plugin_manager.loaders()
        &&& a == (Engine {
            buffer: a.buffer,
            state: a.state,
            plugin_manager: a.plugin_manager,
            dot_last_action: a.dot_last_action,
            ..b
        })
    })
}

/// `after` is `before` after `yy` repeated `count` times into `register`.
pub open spec fn yanks_lines(b: Engine, a: Engine, count: usize, register: char) -> bool {
    ({
        let l = b.state.cursor.line as int;
        let content = get_line_range_spec(b.buffer.text(), l, l);
        &&& reg_set_all(b.register, a.register, register, Seq::new(count as nat, |i: int| content))
        &&& a == (Engine { register: a.register, ..b })
    })
}

/// `after` is `before` after `yw` into `register`.
pub open spec fn yanks_word(b: Engine, a: Engine, register: char) -> bool {
    &&& (reg_set(
        b.register,
        a.register,
        register,
        word_at_spec(b.buffer.text(), b.state.cursor.line as int, b.state.cursor.col as int).0,
    ))
    &&& (a == (Engine { register: a.register, ..b }))
}

/// `after` is `before` after `ye` into `register`.
pub open spec fn yanks_word_end(b: Engine, a: Engine, register: char) -> bool {
    &&& (reg_set(
        b.register,
        a.register,
        register,
        word_end_text(line_of(b, b.state.cursor.line as int), b.state.cursor.col as int),
    ))
    &&& (a == (Engine { register: a.register, ..b }))
}

/// `after` is `before` after `dw` into `register`.
pub open spec fn deletes_word(b: Engine, a: Engine, register: char) -> bool {
    ({
        let t = b.buffer.text();
        let c = b.state.cursor;
        let w = word_at_spec(t, c.line as int, c.col as int);
        let sp = word_span(t, c.line as int, c.col as int);
        if w.0.len() > 0 {
            &&& a.buffer.text() == removed(t, sp.0, sp.1)
            &&& reg_set(b.register, a.register, register, w.0)
            &&& a == (Engine { buffer: a.buffer, register: a.register, ..b })
        } else {
            a == b
        }
    })
}

/// `after` is `before` after `cc` on `count` lines into `register`.
pub open spec fn changes_lines(b: Engine, a: Engine, count: usize, register: char) -> bool {
    ({
        let t = b.buffer.text();
        let l = b.state.cursor.line as int;
        &&& reg_set_all(b.register, a.register, register, taken_lines(t, l, count as nat))
        &&& a.buffer.text() == after_taking(t, l, count as nat)
        &&& a.dot_last_action matches Some(DotAction::Change { text, line, col })
            && text@.len() == 0 && line == l && col == 0
        &&& a.state == (EditorState { mode: Mode::Insert, dirty: !a.buffer.clean(), ..b.state })
        &&& a.plugin_manager.pending() == b.plugin_manager.pending().push(
            PluginEvent::ModeChange { from: b.state.mode, to: Mode::Insert },
        ).push(PluginEvent::BufferChange)
        &&& a.plugin_manager.plugin_names() == b.plugin_manager.plugin_names()
        &&& a.plugin_manager.loaders() == b.plugin_manager.loaders()
        &&& a == (Engine {
            buffer: a.buffer,
            register: a.register,
            state: a.state,
            plugin_manager: a.plugin_manager,
            dot_last_action: a.dot_last_action,
            ..b
        })
    })
}

/// `after` is `before` after `cw` into `register`.
pub open spec fn changes_word(b: Engine, a: Engine, register: char) -> bool {
    ({
        let t = b.buffer.text();
        let c = b.state.cursor;
        let w = word_at_spec(t, c.line as int, c.col as int);
        let sp = word_span(t, c.line as int, c.col as int);
        let content = char_range_spec(t, c.line as int, w.1, c.line as int, w.1 + byte_len(w.0));
        if w.0.len() > 0 {
            &&& a.buffer.text() == removed(t, sp.0, sp.1)
            &&& reg_set(b.register, a.register, register, content)
            &&& a.dot_last_action matches Some(DotAction::Change { text, line, col })
                && text@ == content && line == c.line && col == w.1
            &&& a.state == (EditorState { mode: Mode::Insert, dirty: !a.buffer.clean(), ..b.state })
            &&& a.plugin_manager.pending() == b.plugin_manager.pending().push(
                PluginEvent::ModeChange { from: b.state.mode, to: Mode::Insert },
            ).push(PluginEvent::BufferChange)
            &&& a.plugin_manager.plugin_names() == b.plugin_manager.plugin_names()
            &&& a.plugin_manager.loaders() == b.plugin_manager.loaders()
            &&& a == (Engine {
                buffer: a.buffer,
                register: a.register,
                state: a.state,
                plugin_manager: a.plugin_manager,
                dot_last_action: a.dot_last_action,
                ..b
            })
        } else {
            a == b
        }
    })
}

/// `after` is `before` after `>>` (`indent`) or `<<` on `count` lines.
pub open spec fn indents_lines(b: Engine, a: Engine, count: usize, indent: bool) -> bool {
    &&& (a.buffer.text() == indent_times(
        b.buffer.text(),
        b.state.cursor.line as int,
        indent,
        b.state.expandtab,
        b.state.shiftwidth,
        count as nat,
    ))
    &&& (count > 0 ==> a.dot_last_action == Some(DotAction::Indent { unindent: !indent }))
    &&& (a == (Engine { buffer: a.buffer, dot_last_action: a.dot_last_action, ..b }))
}

/// `after` is `before` after `gv`.
pub open spec fn restores_visual(b: Engine, a: Engine) -> bool {
    match (b.state.last_visual_start, b.state.last_visual_type) {
        (Some(s), Some(t)) => switched(
            Engine {
                state: EditorState {
                    visual_start: Some(s),
                    visual_type: Some(t),
                    cursor: s,
                    ..b.state
                },
                ..b
            },
            a,
            Mode::Visual,
        ),
        _ => a == b,
    }
}

/// `a` is `b` after `ciw` (`inner`) or `caw` into `register`.
pub open spec fn changes_word_object(b: Engine, a: Engine, register: char, inner: bool) -> bool {
    ({
        let t = b.buffer.text();
        let c = b.state.cursor;
        let w = word_at_spec(t, c.line as int, c.col as int);
        let sp = word_span(t, c.line as int, c.col as int);
        let content = char_range_spec(t, c.line as int, w.1, c.line as int, w.1 + byte_len(w.0));
        let cut = inner && w.0.len() > 0;
        &&& a.buffer.text() == if cut {
            removed(t, sp.0, sp.1)
        } else {
            t
        }
        &&& if cut {
            reg_set(b.register, a.register, register, content)
        } else {
            a.register == b.register
        }
        &&& a.state == (EditorState { mode: Mode::Insert, dirty: !a.buffer.clean(), ..b.state })
        &&& a.plugin_manager.pending() == b.plugin_manager.pending().push(
            PluginEvent::ModeChange { from: b.state.mode, to: Mode::Insert },
        ).push(PluginEvent::BufferChange)
        &&& a.plugin_manager.plugin_names() == b.plugin_manager.plugin_names()
        &&& a.plugin_manager.loaders() == b.plugin_manager.loaders()
        &&& a == (Engine {
            buffer: a.buffer,
            register: a.register,
            state: a.state,
            plugin_manager: a.plugin_manager,
            ..b
        })
    })
}

/// A paste stays away from the largest line and column numbers.
pub open spec fn paste_ok(e: Engine) -> bool {
    let content = paste_content(e);
    let c = e.state.cursor;
    let ls = crate::chars::lines_spec(content);
    &&& c.line + ls.len() <= usize::MAX
    &&& forall|i: int| 0 <= i < ls.len() ==> c.col + byte_len(#[trigger] ls[i]) <= usize::MAX
    &&& c.col + 1 + byte_len(content) <= usize::MAX
}

/// `after` is `before` after `p` (`before` false) or `P`. Text with a line
/// break goes in line by line (`paste_text`), the cursor after the last
/// line's bytes; other text goes at (or after) the cursor, which moves past
/// it after `p`. An empty register changes nothing.
pub open spec fn pastes(b: Engine, a: Engine, before: bool) -> bool {
    let content = paste_content(b);
    if content.len() == 0 {
        a == b
    } else if content.contains('\n') {
        pastes_lines(b, a, content, before)
    } else {
        pastes_inline(b, a, content, before)
    }
}

/// Pasting text with a line break, line by line.
pub open spec fn pastes_lines(b: Engine, a: Engine, content: Seq<char>, before: bool) -> bool {
    let c = b.state.cursor;
    let ls = crate::chars::lines_spec(content);
    changed_text(
        b,
        Engine {
            state: EditorState {
                cursor: Position { line: (c.line + ls.len() - 1) as usize, col: byte_len(ls.last()) as usize },
                ..b.state
            },
            ..b
        },
        a,
        paste_text(b.buffer.text(), ls, c.line as int, c.col as int, before, ls.len()),
    )
}

/// Pasting text without a line break, at or after the cursor.
pub open spec fn pastes_inline(b: Engine, a: Engine, content: Seq<char>, before: bool) -> bool {
    let c = b.state.cursor;
    changed_text(
        b,
        Engine {
            state: EditorState {
                cursor: Position {
                    line: c.line,
                    col: (if before {
                        c.col as int
                    } else {
                        c.col + 1 + byte_len(content)
                    }) as usize,
                },
                ..b.state
            },
            ..b
        },
        a,
        insert_spec(b.buffer.text(), c.line as int, if before { c.col as int } else { c.col + 1 }, content),
    )
}

/// The text after inserting the first `k` characters of `s` one by one at
/// line `l`, from column `col` on.
pub open spec fn insert_each(t: Seq<char>, l: int, col: int, s: Seq<char>, k: nat) -> Seq<char>
    decreases k,
{
    if k == 0 {
        t
    } else {
        insert_spec(insert_each(t, l, col, s, (k - 1) as nat), l, col + k - 1, seq![s[k - 1]])
    }
}

/// `.` can be taken: what it repeats stays away from the largest line and
/// column numbers and within the text.
pub open spec fn repeat_ok(e: Engine) -> bool {
    let t = e.buffer.text();
    let c = e.state.cursor;
    &&& e.wf()
    &&& t.len() + c.col + 1 <= usize::MAX
    &&& c.line < usize::MAX
    &&& match e.dot_last_action {
        Some(DotAction::Insert { text }) => c.col + text@.len() <= usize::MAX,
        Some(DotAction::Replace { ch }) => c.col < byte_len(line_of(e, c.line as int)) ==> line_start(t, sat(c.line as int, 1))
            + c.col < t.len() && sat(c.line as int, 1) <= line_count(t),
        _ => true,
    }
}

/// `after` is `before` after `.`: the last insertion typed again at the
/// cursor, the last deletion done again (`x`), the last change's text put
/// back where it was, the last `r` done again on the character under the
/// cursor, and the last `J`, `>>`/`<<` or `~` done again.
pub open spec fn repeats_last(b: Engine, a: Engine) -> bool {
    let t = b.buffer.text();
    let c = b.state.cursor;
    match b.dot_last_action {
        Some(DotAction::Insert { text }) => changed_text(
            b,
            Engine { state: EditorState { cursor: Position { line: c.line, col: (c.col + text@.len()) as usize }, ..b.state }, ..b },
            a,
            insert_each(t, c.line as int, c.col as int, text@, text@.len()),
        ),
        Some(DotAction::Delete { .. }) => exists|m: Engine| #[trigger] deletes_char(b, m, '"') && changed_text(m, m, a, m.buffer.text()),
        Some(DotAction::Change { text, line, col }) => changed_text(
            b,
            Engine { state: EditorState { cursor: Position { line, col }, ..b.state }, ..b },
            a,
            insert_spec(t, line as int, col as int, text@),
        ),
        Some(DotAction::Replace { ch }) => if c.col < byte_len(line_of(b, c.line as int)) {
            let p = line_start(t, sat(c.line as int, 1)) + c.col;
            changed_text(b, b, a, insert_spec(removed(t, p, p + 1), c.line as int, c.col as int, seq![ch]))
        } else {
            a == b
        },
        Some(DotAction::Join) => joins_lines(b, a),
        Some(DotAction::Indent { unindent }) => {
            &&& a.buffer.text() == indent_text(t, c.line as int, !unindent, b.state.expandtab, b.state.shiftwidth)
            &&& a == (Engine { buffer: a.buffer, ..b })
        },
        Some(DotAction::ToggleCase) => toggles_case(b, a),
        None => a == b,
    }
}

/// `after` is `before` with `[a, b)` of the text removed (when `a < b`),
/// `content` in register `register` and the cursor at `p`, as one undo step
/// deleting `content` at (`line`, `col`). The buffer's dirty flag is left as
/// it was.
pub open spec fn object_cut(
    before: Engine,
    after: Engine,
    register: char,
    a: int,
    b: int,
    content: Seq<char>,
    line: usize,
    col: usize,
    p: Position,
) -> bool {
    &&& after.buffer.text() == removed(before.buffer.text(), a, b)
    &&& reg_set(before.register, after.register, register, content)
    &&& pushed_edit(before.undo_manager, after.undo_manager, p, before.buffer.mods())
    &&& last_edit(after.undo_manager).edit_type matches EditType::Delete { line: l, col: c, text }
        && l == line && c == col && text@ == content
    &&& after == (Engine {
        buffer: after.buffer,
        register: after.register,
        undo_manager: after.undo_manager,
        state: EditorState { cursor: p, ..before.state },
        ..before
    })
}

/// The word object at the cursor, when there is a word: where its text
/// starts in the line, how many characters are cut (its length in bytes
/// for `iw`), and where the text copied ends. `aw` takes the blanks around.
pub open spec fn word_object(e: Engine, inner: bool) -> Option<(int, int, int)> {
    let t = e.buffer.text();
    let c = e.state.cursor;
    let w = word_at_spec(t, c.line as int, c.col as int);
    if w.0.len() == 0 {
        None
    } else if inner {
        Some((w.1, byte_len(w.0), w.1 + byte_len(w.0)))
    } else {
        let l = line_of(e, c.line as int);
        let bb = crate::textobj::blanks_before(l, w.1);
        let ba = crate::textobj::blanks_after(l, w.2);
        Some((bb, ba - bb, ba))
    }
}

/// The lines `from..to`, each followed by a line break.
pub open spec fn lines_between(e: Engine, from: int, to: int) -> Seq<char>
    decreases to - from,
{
    if to <= from {
        Seq::empty()
    } else {
        lines_between(e, from, to - 1) + line_of(e, to - 1) + seq!['\n']
    }
}

/// The text copied for a bracket object from (`ol`, `a`) to (`cl`, `b`):
/// on one line its characters; over several lines, the rest of the first
/// (its line break included) and a line break, the whole lines between,
/// each with a line break, and the start of the last.
pub open spec fn bracket_content(e: Engine, ol: int, a: int, cl: int, b: int) -> Seq<char> {
    if ol == cl {
        sub_spec(line_of(e, ol), a, b)
    } else {
        sub_spec(line_of(e, ol), a, line_of(e, ol).len() as int) + seq!['\n'] + lines_between(e, ol + 1, cl)
            + sub_spec(line_of(e, cl), 0, b)
    }
}

/// Where a bracket object's cut ends in the text.
pub open spec fn bracket_cut_end(t: Seq<char>, ol: int, a: int, cl: int, b: int) -> int {
    if ol == cl {
        line_start(t, ol - 1) + a + sat(b, a)
    } else {
        line_start(t, cl - 1) + b
    }
}

/// A text object can be cut: the cursor is away from the largest column
/// number, within its line for a quote object, and what the object cuts
/// lies within the text.
pub open spec fn object_ok(e: Engine, key: Key, inner: bool) -> bool {
    let t = e.buffer.text();
    let c = e.state.cursor;
    let l = line_of(e, c.line as int);
    &&& e.wf()
    &&& c.col < usize::MAX
    &&& match crate::textobj::text_object_of(key) {
        Some(crate::textobj::TextObject::Word) => word_object(e, inner) matches Some((s, n, _)) ==> c.line >= 1
            && line_start(t, c.line - 1) + s + n <= t.len(),
        Some(crate::textobj::TextObject::Quote(q)) => {
            &&& c.col <= l.len()
            &&& crate::textobj::quote_object_spec(l, c.col as int, q, inner) matches Some((a, b)) ==> c.line >= 1
                && line_start(t, c.line - 1) + a + byte_len(sub_spec(l, a, b)) <= t.len()
        },
        Some(crate::textobj::TextObject::Bracket(o, k)) => crate::textobj::bracket_object_spec(e, o, k, inner) matches Some(
            (ol, a, cl, b),
        ) ==> bracket_cut_end(t, ol, a, cl, b) <= t.len() && line_start(t, ol - 1) + a <= t.len(),
        None => true,
    }
}

/// `after` is `before` after `d`/`y` with `i` (`inner`) or `a` and `key`:
/// the object's text goes to register `register` and is cut from the
/// buffer (for `y` too), as one undo step. A word or quote object leaves the
/// cursor; a bracket object puts it where the cut starts. Without an object
/// nothing changes.
pub open spec fn deletes_object(before: Engine, after: Engine, key: Key, register: char, inner: bool) -> bool {
    let t = before.buffer.text();
    let c = before.state.cursor;
    let l = line_of(before, c.line as int);
    match crate::textobj::text_object_of(key) {
        Some(crate::textobj::TextObject::Word) => match word_object(before, inner) {
            Some((s, n, e)) => {
                let a = line_start(t, c.line - 1) + s;
                object_cut(
                    before,
                    after,
                    register,
                    a,
                    a + n,
                    char_range_spec(t, c.line as int, s, c.line as int, e),
                    c.line,
                    s as usize,
                    c,
                )
            },
            None => after == before,
        },
        Some(crate::textobj::TextObject::Quote(q)) => match crate::textobj::quote_object_spec(l, c.col as int, q, inner) {
            Some((qa, qb)) => {
                let content = sub_spec(l, qa, qb);
                let a = line_start(t, c.line - 1) + qa;
                object_cut(before, after, register, a, a + byte_len(content), content, c.line, qa as usize, c)
            },
            None => after == before,
        },
        Some(crate::textobj::TextObject::Bracket(o, k)) => match crate::textobj::bracket_object_spec(before, o, k, inner) {
            Some((ol, a, cl, b)) => object_cut(
                before,
                after,
                register,
                line_start(t, ol - 1) + a,
                bracket_cut_end(t, ol, a, cl, b),
                bracket_content(before, ol, a, cl, b),
                ol as usize,
                a as usize,
                Position { line: ol as usize, col: a as usize },
            ),
            None => after == before,
        },
        None => after == before,
    }
}

impl Engine {
    /// Changes the mode to `to` and tells the plugins.
    pub fn transition_mode(&mut self, to: Mode)
        ensures
            switched(*old(self), *final(self), to),
    {
        let from = self.state.mode;
        self.state.mode = to;
        self.plugin_manager.emit(PluginEvent::ModeChange { from, to });
    }

    /// `i`, `a`, `A`: starts an Insert session (its typed text empty, its
    /// start at the cursor), the cursor moved as `how` says.
    pub fn start_insert(&mut self, how: InsertStart)
        requires
            old(self).state.cursor.col < usize::MAX,
        ensures
            starts_insert(*old(self), *final(self), how),
    {
        self.insert_state.accum = String::new();
        self.insert_state.start_pos = Some(self.state.cursor);
        let line = self.buffer.get_line(self.state.cursor.line);
        let n = line.as_str().len();
        match how {
            InsertStart::Here => {},
            InsertStart::After => {
                if self.state.cursor.col < n {
                    self.state.cursor.col = self.state.cursor.col + 1;
                }
            },
            InsertStart::LineEnd => {
                self.state.cursor.col = n;
            },
        }
        self.transition_mode(Mode::Insert);
    }

    /// `:`, `/`, `?`: Command mode, the command line holding only `prefix`.
    pub fn open_command_line(&mut self, prefix: Option<char>)
        ensures
            opens_command_line(*old(self), *final(self), prefix),
    {
        let mut b = String::new();
        match prefix {
            Some(c) => crate::strutil::push_char(&mut b, c),
            None => {},
        }
        proof {
            assert(b@ =~= match prefix {
                Some(c) => seq![c],
                None => Seq::<char>::empty(),
            });
        }
        self.state.command_buffer = b;
        self.transition_mode(Mode::Command);
    }

    /// `l` with a count: right, but not past the line's last byte.
    pub fn move_right_bytes(&mut self, count: usize)
        requires
            old(self).state.cursor.col + count <= usize::MAX,
        ensures
            *final(self) == byte_clamped(
                *old(self),
                old(self).state.cursor.line as int,
                old(self).state.cursor.col + count,
            ),
    {
        let c = self.state.cursor;
        self.move_byte_clamped(c.line, c.col + count);
    }

    /// `j` with a count: down, at most to the last line, the column kept
    /// within that line's bytes.
    pub fn move_down_bytes(&mut self, count: usize)
        requires
            old(self).state.cursor.line + count <= usize::MAX,
        ensures
            *final(self) == byte_clamped(
                *old(self),
                min_i(old(self).state.cursor.line + count, line_count(old(self).buffer.text()) as int),
                old(self).state.cursor.col as int,
            ),
    {
        let c = self.state.cursor;
        let lc = self.buffer.line_count();
        let l = if c.line + count <= lc {
            c.line + count
        } else {
            lc
        };
        self.move_byte_clamped(l, c.col);
    }

    /// `k` with a count: up, at least to the first line, the column kept
    /// within that line's bytes.
    pub fn move_up_bytes(&mut self, count: usize)
        ensures
            *final(self) == byte_clamped(
                *old(self),
                max_i(sat(old(self).state.cursor.line as int, count as int), 1),
                old(self).state.cursor.col as int,
            ),
    {
        let c = self.state.cursor;
        let n = c.line.saturating_sub(count);
        self.move_byte_clamped(if n >= 1 { n } else { 1 }, c.col);
    }

    /// `v`, `V`: Visual mode, the selection starting at the cursor.
    pub fn enter_visual(&mut self, t: VisualType)
        ensures
            enters_visual(*old(self), *final(self), t),
    {
        self.state.visual_start = Some(self.state.cursor);
        self.state.visual_type = Some(t);
        self.transition_mode(Mode::Visual);
    }

    /// `gv`: back to the last selection, when there was one.
    pub fn restore_visual(&mut self)
        ensures
            restores_visual(*old(self), *final(self)),
    {
        match (self.state.last_visual_start, self.state.last_visual_type) {
            (Some(s), Some(t)) => {
                self.state.visual_start = Some(s);
                self.state.visual_type = Some(t);
                self.state.cursor = s;
                self.transition_mode(Mode::Visual);
            },
            _ => {},
        }
    }

    /// `G`: to line `target` (within the text) or the last line, the
    /// cursor on that line's last byte.
    pub fn goto_line(&mut self, target: Option<usize>)
        ensures
            ({
                let lc = line_count(old(self).buffer.text()) as int;
                let l = match target {
                    Some(c) => max_i(min_i(c as int, lc), 1),
                    None => max_i(lc, 1),
                };
                *final(self) == moved(*old(self), l, sat(byte_len(line_of(*old(self), l)), 1))
            }),
    {
        let lc = self.buffer.line_count();
        let l = match target {
            Some(c) => {
                let m = if c <= lc {
                    c
                } else {
                    lc
                };
                if m >= 1 {
                    m
                } else {
                    1
                }
            },
            None => if lc >= 1 {
                lc
            } else {
                1
            },
        };
        let n = self.line_bytes(l);
        self.state.cursor.line = l;
        self.state.cursor.col = n.saturating_sub(1);
    }

    /// `D` (once): deletes from the cursor to the end of the line, its
    /// line break kept, into the kill ring, as one undo step.
    pub fn kill_line(&mut self)
        requires
            old(self).wf(),
        ensures
            kills_line(*old(self), *final(self)),
    {
        let c = self.state.cursor;
        let chars = self.buffer.line_chars(c.line);
        let n = chars.len();
        let end = if n > 0 && chars[n - 1] == '\n' {
            n - 1
        } else {
            n
        };
        if c.col < end {
            let mods = self.buffer.modification_count();
            let deleted = self.buffer.delete_range(c.line, c.col, c.line, end);
            self.kill_ring.push(deleted.as_str());
            self.undo_manager.push(
                Edit {
                    edit_type: EditType::Delete { line: c.line, col: c.col, text: deleted },
                    cursor_before: c,
                    cursor_after: c,
                    modification_count: mods,
                },
            );
            self.emit_buffer_change();
        }
    }

    /// `S`: the cursor's line goes to the unnamed register and is deleted,
    /// then Insert mode.
    pub fn substitute_line(&mut self)
        ensures
            substitutes_line(*old(self), *final(self)),
    {
        let l = self.state.cursor.line;
        let content = self.buffer.get_line(l);
        self.register.set('"', content.as_str());
        self.buffer.delete_line(l);
        self.transition_mode(Mode::Insert);
        self.emit_buffer_change();
    }

    /// `yy` (once): the cursor's line to register `register`.
    pub fn yank_line(&mut self, register: char)
        ensures
            ({
                let l = old(self).state.cursor.line as int;
                &&& reg_set(old(self).register, final(self).register, register, get_line_range_spec(old(self).buffer.text(), l, l))
                &&& *final(self) == (Engine { register: final(self).register, ..*old(self) })
            }),
    {
        let l = self.state.cursor.line;
        let content = self.buffer.get_line_range(l, l);
        self.register.set(register, content.as_str());
    }

    /// `yw`: the word around the cursor to register `register`.
    pub fn yank_word(&mut self, register: char)
        ensures
            yanks_word(*old(self), *final(self), register),
    {
        let c = self.state.cursor;
        let (word, _, _) = self.buffer.get_word_range(c.line, c.col);
        self.register.set(register, word.as_str());
    }

    /// `ye`: from the cursor to the end of its run of non-whitespace, to
    /// register `register`.
    pub fn yank_word_end(&mut self, register: char)
        requires
            old(self).state.cursor.col <= line_of(*old(self), old(self).state.cursor.line as int).len(),
        ensures
            yanks_word_end(*old(self), *final(self), register),
    {
        let c = self.state.cursor;
        let chars = self.buffer.line_chars(c.line);
        let n = chars.len();
        let mut end = c.col;
        while end < n && !crate::text::is_whitespace(chars[end])
            invariant
                c.col <= end <= n,
                n == chars@.len(),
                crate::text::scan_right_nonws(chars@, end as int) == crate::text::scan_right_nonws(chars@, c.col as int),
            decreases n - end,
        {
            end += 1;
        }
        let word = crate::buffer::sub_chars(&chars, c.col, end);
        proof {
            assert(word@ =~= chars@.subrange(c.col as int, end as int));
        }
        self.register.set(register, word.as_str());
    }

    /// `dd` (once): deletes the cursor's line into register `register`, as
    /// one undo step; the cursor stays on that line number (or the last
    /// line), its column kept within the line's bytes.
    pub fn delete_line(&mut self, register: char)
        requires
            old(self).wf(),
        ensures
            deletes_line(*old(self), *final(self), register),
    {
        let c = self.state.cursor;
        let mods = self.buffer.modification_count();
        let content = self.buffer.delete_line(c.line);
        self.register.set(register, content.as_str());
        self.undo_manager.push(
            Edit {
                edit_type: EditType::DeleteLine { line: c.line, text: content },
                cursor_before: c,
                cursor_after: c,
                modification_count: mods,
            },
        );
        let lc = self.buffer.line_count();
        if c.line > lc {
            self.state.cursor.line = if lc >= 1 {
                lc
            } else {
                1
            };
        }
        let n = self.line_bytes(self.state.cursor.line);
        let m = n.saturating_sub(1);
        if m < self.state.cursor.col {
            self.state.cursor.col = m;
        }
        self.emit_buffer_change();
    }

    /// `dw`: removes the word around the cursor (a span as long as its
    /// bytes, from its start) into register `register`. The buffer's dirty
    /// flag is left as it was.
    pub fn delete_word(&mut self, register: char)
        requires
            word_cut_ok(*old(self)),
        ensures
            deletes_word(*old(self), *final(self), register),
    {
        let c = self.state.cursor;
        let (word, start, _) = self.buffer.get_word_range(c.line, c.col);
        if !word.as_str().is_empty() {
            let total = self.buffer.len_chars();
            let a = self.buffer.line_to_char(c.line - 1) + start;
            let b = a + word.as_str().len();
            self.buffer.remove_range(a, b);
            self.register.set(register, word.as_str());
        }
    }

    /// `cw`: the word around the cursor (as many columns as its bytes) to
    /// register `register`, removed, then Insert mode; `.` repeats it as
    /// a change.
    pub fn change_word(&mut self, register: char)
        requires
            word_cut_ok(*old(self)),
        ensures
            changes_word(*old(self), *final(self), register),
    {
        let c = self.state.cursor;
        let (word, start, _) = self.buffer.get_word_range(c.line, c.col);
        if !word.as_str().is_empty() {
            let total = self.buffer.len_chars();
            let a = self.buffer.line_to_char(c.line - 1) + start;
            let n = word.as_str().len();
            let b = a + n;
            let content = self.buffer.get_char_range(c.line, start, c.line, start + n);
            self.register.set(register, content.as_str());
            self.buffer.remove_range(a, b);
            self.transition_mode(Mode::Insert);
            self.dot_last_action = Some(DotAction::Change { text: content, line: c.line, col: start });
            self.emit_buffer_change();
        }
    }

    /// `yy` with a count: the cursor's line written `count` times to
    /// register `register`.
    pub fn yank_lines(&mut self, count: usize, register: char)
        ensures
            yanks_lines(*old(self), *final(self), count, register),
    {
        let l = self.state.cursor.line;
        let ghost content = get_line_range_spec(self.buffer.text(), l as int, l as int);
        let mut i: usize = 0;
        proof {
            assert(Seq::new(0nat, |j: int| content) =~= Seq::<Seq<char>>::empty());
            assert(old(self).register.pending_clipboard() + Seq::<Seq<char>>::empty() =~= old(self).register.pending_clipboard());
        }
        while i < count
            invariant
                0 <= i <= count,
                l == old(self).state.cursor.line,
                content == get_line_range_spec(old(self).buffer.text(), l as int, l as int),
                reg_set_all(old(self).register, self.register, register, Seq::new(i as nat, |j: int| content)),
                *self == (Engine { register: self.register, ..*old(self) }),
            decreases count - i,
        {
            let ghost r0 = self.register;
            self.yank_line(register);
            proof {
                let cs = Seq::new((i + 1) as nat, |j: int| content);
                let k = to_ascii_lowercase_spec(register);
                let extra = if (k == '"' || k == '+') && content.len() > 0 {
                    seq![osc52_spec(content)]
                } else {
                    Seq::<Seq<char>>::empty()
                };
                assert(cs.drop_last() =~= Seq::new(i as nat, |j: int| content));
                assert(cs.last() == content);
                assert(self.register.view() =~= old(self).register.view().insert(k, cs.last()));
                assert(clips_of(k, cs) == clips_of(k, Seq::new(i as nat, |j: int| content)) + extra);
                assert(self.register.pending_clipboard() =~= r0.pending_clipboard() + extra);
                assert(old(self).register.pending_clipboard() + clips_of(k, cs) =~= old(self).register.pending_clipboard()
                    + clips_of(k, Seq::new(i as nat, |j: int| content)) + extra);
            }
            i += 1;
        }
    }

    /// `cc` with a count: the cursor's line, `count` times, goes to register
    /// `register` and is deleted; then Insert mode, and `.` repeats it as
    /// an empty change at the start of the line.
    pub fn change_lines(&mut self, count: usize, register: char)
        ensures
            changes_lines(*old(self), *final(self), count, register),
    {
        let l = self.state.cursor.line;
        let ghost t0 = self.buffer.text();
        let mut i: usize = 0;
        proof {
            assert(old(self).register.pending_clipboard() + Seq::<Seq<char>>::empty() =~= old(self).register.pending_clipboard());
        }
        while i < count
            invariant
                0 <= i <= count,
                l == old(self).state.cursor.line,
                t0 == old(self).buffer.text(),
                self.buffer.text() == after_taking(t0, l as int, i as nat),
                reg_set_all(old(self).register, self.register, register, taken_lines(t0, l as int, i as nat)),
                *self == (Engine { buffer: self.buffer, register: self.register, ..*old(self) }),
            decreases count - i,
        {
            let ghost r0 = self.register;
            let content = self.buffer.get_line(l);
            self.register.set(register, content.as_str());
            self.buffer.delete_line(l);
            proof {
                let cs = taken_lines(t0, l as int, (i + 1) as nat);
                let k = to_ascii_lowercase_spec(register);
                let extra = if (k == '"' || k == '+') && content@.len() > 0 {
                    seq![osc52_spec(content@)]
                } else {
                    Seq::<Seq<char>>::empty()
                };
                assert(cs.drop_last() =~= taken_lines(t0, l as int, i as nat));
                assert(cs.last() == content@);
                assert(self.register.view() =~= old(self).register.view().insert(k, cs.last()));
                assert(clips_of(k, cs) == clips_of(k, taken_lines(t0, l as int, i as nat)) + extra);
                assert(self.register.pending_clipboard() =~= r0.pending_clipboard() + extra);
                assert(old(self).register.pending_clipboard() + clips_of(k, cs) =~= old(self).register.pending_clipboard()
                    + clips_of(k, taken_lines(t0, l as int, i as nat)) + extra);
            }
            i += 1;
        }
        self.transition_mode(Mode::Insert);
        self.dot_last_action = Some(DotAction::Change { text: String::new(), line: l, col: 0 });
        self.emit_buffer_change();
    }

    /// `dd` with a count: the line deleted `count` times (at least once).
    pub fn delete_lines(&mut self, count: usize, register: char)
        requires
            old(self).wf(),
        ensures
            repeated(
                |a: Engine, b: Engine| deletes_line(a, b, register),
                *old(self),
                *final(self),
                if count >= 1 { count as nat } else { 1 },
            ),
    {
        let n = if count >= 1 {
            count
        } else {
            1
        };
        let ghost step = |a: Engine, b: Engine| deletes_line(a, b, register);
        let ghost mut es = seq![*self];
        let mut i: usize = 0;
        while i < n
            invariant
                0 <= i <= n,
                self.wf(),
                step == (|a: Engine, b: Engine| deletes_line(a, b, register)),
                es.len() == i + 1,
                es[0] == *old(self),
                es[i as int] == *self,
                steps_through(step, es),
            decreases n - i,
        {
            self.delete_line(register);
            proof {
                lemma_chain_push(step, es, *self);
                es = es.push(*self);
            }
            i += 1;
        }
        assert(steps_through(step, es));
    }

    /// `D` with a count: `kill_line` `count` times.
    pub fn kill_lines(&mut self, count: usize)
        requires
            old(self).wf(),
        ensures
            repeated(|a: Engine, b: Engine| kills_line(a, b), *old(self), *final(self), count as nat),
            final(self).wf(),
    {
        let ghost step = |a: Engine, b: Engine| kills_line(a, b);
        let ghost mut es = seq![*self];
        let mut i: usize = 0;
        while i < count
            invariant
                0 <= i <= count,
                self.wf(),
                step == (|a: Engine, b: Engine| kills_line(a, b)),
                es.len() == i + 1,
                es[0] == *old(self),
                es[i as int] == *self,
                steps_through(step, es),
            decreases count - i,
        {
            self.kill_line();
            proof {
                lemma_chain_push(step, es, *self);
                es = es.push(*self);
            }
            i += 1;
        }
        assert(steps_through(step, es));
    }

    /// `C` with a count: `kill_line` `count` times, then Insert mode.
    pub fn change_to_end(&mut self, count: usize)
        requires
            old(self).wf(),
        ensures
            exists|m: Engine|
                repeated(|a: Engine, b: Engine| kills_line(a, b), *old(self), m, count as nat) && switched(
                    m,
                    *final(self),
                    Mode::Insert,
                ),
    {
        self.kill_lines(count);
        let ghost m = *self;
        self.transition_mode(Mode::Insert);
        assert(repeated(|a: Engine, b: Engine| kills_line(a, b), *old(self), m, count as nat) && switched(m, *self, Mode::Insert));
    }

    /// `x` (once).
    pub fn delete_char(&mut self, register: char)
        requires
            old(self).wf(),
            old(self).buffer.text().len() + old(self).state.cursor.col <= usize::MAX,
        ensures
            deletes_char(*old(self), *final(self), register),
    {
        let c = self.state.cursor;
        let chars = self.buffer.line_chars(c.line);
        let mods = self.buffer.modification_count();
        if c.col < chars.len() {
            let mut deleted = String::new();
            crate::strutil::push_char(&mut deleted, chars[c.col]);
            self.buffer.delete(c.line, c.col);
            self.register.set(register, deleted.as_str());
            self.undo_manager.push(
                Edit {
                    edit_type: EditType::Delete { line: c.line, col: c.col, text: deleted },
                    cursor_before: c,
                    cursor_after: c,
                    modification_count: mods,
                },
            );
            self.dot_last_action = Some(DotAction::Delete { text: String::new(), line: 0, col: 0 });
        } else if c.line < self.buffer.line_count() {
            self.buffer.merge_with_prev_line(c.line + 1);
            self.undo_manager.push(
                Edit {
                    edit_type: EditType::Merge { line: c.line, deleted_newline_col: c.col },
                    cursor_before: c,
                    cursor_after: c,
                    modification_count: mods,
                },
            );
            self.dot_last_action = Some(DotAction::Delete { text: String::new(), line: 0, col: 0 });
        }
        self.emit_buffer_change();
    }

    /// `o` (below) and `O` (above): a new empty line, the cursor on it, then
    /// Insert mode; `.` repeats it as an empty insertion.
    pub fn open_line(&mut self, above: bool)
        requires
            old(self).state.cursor.line < usize::MAX,
        ensures
            opens_line(*old(self), *final(self), above),
    {
        let line = self.state.cursor.line;
        let at = if above {
            line
        } else {
            line + 1
        };
        self.buffer.insert_newline(at, 0);
        self.state.cursor = Position { line: at, col: 0 };
        self.transition_mode(Mode::Insert);
        self.dot_last_action = Some(DotAction::Insert { text: String::new() });
        self.emit_buffer_change();
    }

    /// Whether joining line `l` and the next puts a space between them.
    fn join_space_at(&self, l: usize) -> (r: bool)
        requires
            l < usize::MAX,
        ensures
            r == join_space(line_body(*self, l as int), line_body(*self, l + 1)),
    {
        let cur = self.buffer.line_chars(l);
        let next = self.buffer.line_chars(l + 1);
        let cn = if cur.len() > 0 && cur[cur.len() - 1] == '\n' {
            cur.len() - 1
        } else {
            cur.len()
        };
        let nn = if next.len() > 0 && next[next.len() - 1] == '\n' {
            next.len() - 1
        } else {
            next.len()
        };
        proof {
            assert(line_body(*self, l as int) =~= cur@.subrange(0, cn as int));
            assert(line_body(*self, l + 1) =~= next@.subrange(0, nn as int));
        }
        !(cn > 0 && (cur[cn - 1] == ' ' || cur[cn - 1] == '\t')) && !(nn > 0 && next[0] == ' ') && nn > 0
    }

    /// Joins line `l + 1` onto line `l`, with a space between when `space`;
    /// gives the column where they met.
    fn merge_next(&mut self, l: usize, space: bool) -> (jp: usize)
        requires
            l < line_count(old(self).buffer.text()),
        ensures
            ({
                let t = old(self).buffer.text();
                let j = if merge_applies(t, l + 1) {
                    line_len(t, l - 1) - 1
                } else {
                    0
                };
                &&& jp == j
                &&& jp < usize::MAX
                &&& final(self).buffer.text() == if space {
                    insert_spec(merge_spec(t, l + 1), l as int, j, seq![' '])
                } else {
                    merge_spec(t, l + 1)
                }
            }),
            *final(self) == (Engine { buffer: final(self).buffer, ..*old(self) }),
    {
        let _total = self.buffer.len_chars();
        let _lc = self.buffer.line_count();
        proof {
            if l >= 1 {
                crate::text::lemma_line_bounds(old(self).buffer.text(), l - 1);
            }
        }
        let jp = self.buffer.merge_with_prev_line(l + 1);
        if space {
            self.buffer.insert(l, jp, " ");
            proof {
                reveal_strlit(" ");
                assert(" "@ =~= seq![' ']);
            }
        }
        jp
    }

    /// `J` (once).
    pub fn join_lines(&mut self)
        requires
            old(self).wf(),
        ensures
            joins_lines(*old(self), *final(self)),
    {
        let c = self.state.cursor;
        let l = c.line;
        if l >= self.buffer.line_count() {
            return;
        }
        let mods = self.buffer.modification_count();
        let space = self.join_space_at(l);
        let jp = self.merge_next(l, space);
        self.state.cursor.col = if space {
            jp + 1
        } else {
            jp
        };
        self.undo_manager.push(
            Edit {
                edit_type: EditType::Merge { line: l, deleted_newline_col: jp },
                cursor_before: self.state.cursor,
                cursor_after: self.state.cursor,
                modification_count: mods,
            },
        );
        self.dot_last_action = Some(DotAction::Join);
        self.emit_buffer_change();
    }

    /// `>>` (indent) or `<<` once on the cursor's line; `.` repeats it.
    /// The buffer's dirty flag is left as it was.
    pub fn indent_line(&mut self, indent: bool)
        ensures
            final(self).buffer.text() == indent_text(
                old(self).buffer.text(),
                old(self).state.cursor.line as int,
                indent,
                old(self).state.expandtab,
                old(self).state.shiftwidth,
            ),
            final(self).dot_last_action == Some(DotAction::Indent { unindent: !indent }),
            *final(self) == (Engine { buffer: final(self).buffer, dot_last_action: final(self).dot_last_action, ..*old(self) }),
    {
        let _total = self.buffer.len_chars();
        let l = self.state.cursor.line;
        let c = self.buffer.line_chars(l);
        if indent {
            let unit = if self.state.expandtab {
                repeat_char(' ', self.state.shiftwidth)
            } else {
                repeat_char('\t', 1)
            };
            proof {
                assert(unit@ =~= indent_unit(self.state.expandtab, self.state.shiftwidth));
            }
            self.buffer.insert(l, 0, unit.as_str());
        } else if c.len() > 0 && c[0] == '\t' {
            self.buffer.delete(l, 0);
        } else if c.len() >= 2 && c[0] == ' ' && c[1] == ' ' {
            self.buffer.delete(l, 0);
            let _t = self.buffer.len_chars();
            self.buffer.delete(l, 0);
        }
        self.dot_last_action = Some(DotAction::Indent { unindent: !indent });
    }

    /// `>>` or `<<` with a count.
    pub fn indent_lines(&mut self, count: usize, indent: bool)
        ensures
            indents_lines(*old(self), *final(self), count, indent),
    {
        let mut i: usize = 0;
        while i < count
            invariant
                0 <= i <= count,
                self.buffer.text() == indent_times(
                    old(self).buffer.text(),
                    old(self).state.cursor.line as int,
                    indent,
                    old(self).state.expandtab,
                    old(self).state.shiftwidth,
                    i as nat,
                ),
                i > 0 ==> self.dot_last_action == Some(DotAction::Indent { unindent: !indent }),
                *self == (Engine { buffer: self.buffer, dot_last_action: self.dot_last_action, ..*old(self) }),
            decreases count - i,
        {
            self.indent_line(indent);
            i += 1;
        }
    }

    /// `~` (once).
    #[verifier::spinoff_prover]
    #[verifier::rlimit(40)]
    pub fn toggle_case(&mut self)
        requires
            old(self).wf(),
            old(self).buffer.text().len() + old(self).state.cursor.col < usize::MAX,
        ensures
            toggles_case(*old(self), *final(self)),
    {
        let c = self.state.cursor;
        let chars = self.buffer.line_chars(c.line);
        let n = if chars.len() > 0 && chars[chars.len() - 1] == '\n' {
            chars.len() - 1
        } else {
            chars.len()
        };
        proof {
            assert(line_body(*old(self), c.line as int) =~= chars@.subrange(0, n as int));
        }
        if c.col < n {
            let ch = chars[c.col];
            let up = toggle_ascii_case(ch);
            let mods = self.buffer.modification_count();
            self.buffer.delete(c.line, c.col);
            self.buffer.insert_char(c.line, c.col, up);
            self.state.cursor.col = if c.col + 1 < n {
                c.col + 1
            } else {
                n - 1
            };
            let mut old_text = String::new();
            crate::strutil::push_char(&mut old_text, ch);
            let mut new_text = String::new();
            crate::strutil::push_char(&mut new_text, up);
            self.undo_manager.push(
                Edit {
                    edit_type: EditType::Replace { line: c.line, col: c.col, old_text, new_text },
                    cursor_before: c,
                    cursor_after: self.state.cursor,
                    modification_count: mods,
                },
            );
            self.dot_last_action = Some(DotAction::ToggleCase);
            self.emit_buffer_change();
        }
    }

    /// `r` (`single`, only with an empty command line) and `R`: Replace
    /// mode, for one character or until Esc.
    pub fn enter_replace(&mut self, single: bool)
        ensures
            enters_replace(*old(self), *final(self), single),
    {
        if single {
            if !self.state.command_buffer.as_str().is_empty() {
                return;
            }
            self.operator_state.replace_char = Some('\0');
        } else {
            self.operator_state.replace_char = None;
        }
        self.transition_mode(Mode::Replace);
    }

    /// A key in Insert mode.
    pub fn insert_key(&mut self, key: Key)
        requires
            insert_key_ok(*old(self), key),
        ensures
            insert_key_effect(*old(self), *final(self), key),
    {
        if self.insert_state.waiting_register {
            self.insert_register_text(key);
            return;
        }
        match key {
            Key::Esc => self.end_insert(),
            Key::Backspace => self.insert_backspace(),
            Key::Enter => self.insert_break(),
            Key::Char(ch) => self.insert_typed(ch),
            _ => {},
        }
    }

    /// After Ctrl-r in Insert mode: puts in the text of the register `key`
    /// names.
    fn insert_register_text(&mut self, key: Key)
        requires
            insert_key_ok(*old(self), key),
            old(self).insert_state.waiting_register,
        ensures
            insert_key_effect(*old(self), *final(self), key),
    {
        self.insert_state.waiting_register = false;
        if let Key::Char(r) = key {
            let content = self.register.get(r);
            if !content.as_str().is_empty() {
                let c = self.state.cursor;
                let n = crate::strutil::chars_of(content.as_str()).len();
                self.buffer.insert(c.line, c.col, content.as_str());
                self.state.cursor.col = c.col + n;
                crate::strutil::push_str(&mut self.insert_state.accum, content.as_str());
                self.emit_buffer_change();
            }
        }
    }

    fn insert_backspace(&mut self)
        requires
            insert_key_ok(*old(self), Key::Backspace),
            !old(self).insert_state.waiting_register,
        ensures
            insert_key_effect(*old(self), *final(self), Key::Backspace),
    {
        let c = self.state.cursor;
        if c.col > 0 {
            self.buffer.delete(c.line, c.col - 1);
            self.state.cursor.col = c.col - 1;
            crate::strutil::pop_char(&mut self.insert_state.accum);
            self.emit_buffer_change();
        } else if c.line > 1 {
            let nc = self.buffer.merge_with_prev_line(c.line);
            self.state.cursor.line = c.line - 1;
            self.state.cursor.col = nc;
            crate::strutil::pop_char(&mut self.insert_state.accum);
            self.emit_buffer_change();
        }
    }

    fn insert_break(&mut self)
        requires
            insert_key_ok(*old(self), Key::Enter),
            !old(self).insert_state.waiting_register,
        ensures
            insert_key_effect(*old(self), *final(self), Key::Enter),
    {
        let c = self.state.cursor;
        self.buffer.insert_newline(c.line, c.col);
        self.state.cursor = Position { line: c.line + 1, col: 0 };
        crate::strutil::push_char(&mut self.insert_state.accum, '\n');
        self.emit_buffer_change();
    }

    fn insert_typed(&mut self, ch: char)
        requires
            insert_key_ok(*old(self), Key::Char(ch)),
            !old(self).insert_state.waiting_register,
        ensures
            insert_key_effect(*old(self), *final(self), Key::Char(ch)),
    {
        let c = self.state.cursor;
        self.buffer.insert_char(c.line, c.col, ch);
        self.state.cursor.col = c.col + 1;
        crate::strutil::push_char(&mut self.insert_state.accum, ch);
        self.emit_buffer_change();
    }

    /// Esc in Insert mode.
    fn end_insert(&mut self)
        requires
            old(self).wf(),
            !old(self).insert_state.waiting_register,
        ensures
            insert_key_effect(*old(self), *final(self), Key::Esc),
    {
        if !self.insert_state.accum.as_str().is_empty() {
            let mut text = String::new();
            std::mem::swap(&mut text, &mut self.insert_state.accum);
            let sp = match self.insert_state.start_pos {
                Some(p) => p,
                None => Position { line: 1, col: 0 },
            };
            let mods = self.buffer.modification_count();
            self.undo_manager.push(
                Edit {
                    edit_type: EditType::Insert { line: sp.line, col: sp.col, text },
                    cursor_before: sp,
                    cursor_after: self.state.cursor,
                    modification_count: mods,
                },
            );
        }
        self.insert_state.start_pos = None;
        self.transition_mode(Mode::Normal);
        self.state.cursor.col = self.state.cursor.col.saturating_sub(1);
    }

    /// A key in Replace mode.
    pub fn replace_key(&mut self, key: Key)
        requires
            replace_key_ok(*old(self)),
        ensures
            replace_key_effect(*old(self), *final(self), key),
    {
        let single = match self.operator_state.replace_char {
            Some(ch) => ch == '\0',
            None => false,
        };
        match key {
            Key::Esc => self.end_replace(),
            Key::Char(ch) => {
                if single {
                    self.replace_inline_char(ch);
                } else {
                    self.overwrite_char(ch);
                }
            },
            Key::Backspace => {
                if self.state.cursor.col > 0 {
                    self.state.cursor.col = self.state.cursor.col - 1;
                }
            },
            Key::Enter => {
                if single {
                    self.replace_inline_char('\n');
                } else {
                    self.replace_break();
                }
            },
            _ => {},
        }
    }

    fn end_replace(&mut self)
        requires
            old(self).wf(),
        ensures
            replace_key_effect(*old(self), *final(self), Key::Esc),
    {
        if self.replace_undo_group.len() > 0 {
            let mut edits: Vec<Edit> = Vec::new();
            std::mem::swap(&mut edits, &mut self.replace_undo_group);
            let mods = self.buffer.modification_count();
            self.undo_manager.push(
                Edit {
                    edit_type: EditType::Group { edits },
                    cursor_before: self.state.cursor,
                    cursor_after: self.state.cursor,
                    modification_count: mods,
                },
            );
        }
        self.operator_state.replace_char = None;
        self.transition_mode(Mode::Normal);
    }

    fn overwrite_char(&mut self, ch: char)
        requires
            replace_key_ok(*old(self)),
            old(self).operator_state.replace_char != Some('\0'),
        ensures
            replace_key_effect(*old(self), *final(self), Key::Char(ch)),
    {
        let c = self.state.cursor;
        let chars = self.buffer.line_chars(c.line);
        let o = if c.col < chars.len() {
            chars[c.col]
        } else {
            '\0'
        };
        if o != '\0' {
            self.buffer.delete(c.line, c.col);
        }
        self.buffer.insert_char(c.line, c.col, ch);
        self.state.cursor.col = c.col + 1;
        let mods = self.buffer.modification_count();
        let mut old_text = String::new();
        crate::strutil::push_char(&mut old_text, o);
        let mut new_text = String::new();
        crate::strutil::push_char(&mut new_text, ch);
        let ghost g0 = self.replace_undo_group@;
        self.replace_undo_group.push(
            Edit {
                edit_type: EditType::Replace { line: c.line, col: c.col, old_text, new_text },
                cursor_before: c,
                cursor_after: self.state.cursor,
                modification_count: mods,
            },
        );
        proof {
            assert(self.replace_undo_group@.subrange(0, g0.len() as int) =~= g0);
        }
        self.emit_buffer_change();
    }

    fn replace_break(&mut self)
        requires
            replace_key_ok(*old(self)),
            old(self).operator_state.replace_char != Some('\0'),
        ensures
            replace_key_effect(*old(self), *final(self), Key::Enter),
    {
        let c = self.state.cursor;
        let mods = self.buffer.modification_count();
        self.buffer.insert_newline(c.line, c.col);
        self.state.cursor = Position { line: c.line + 1, col: 0 };
        let ghost g0 = self.replace_undo_group@;
        self.replace_undo_group.push(
            Edit {
                edit_type: EditType::Split { line: c.line, col: c.col },
                cursor_before: c,
                cursor_after: self.state.cursor,
                modification_count: mods,
            },
        );
        proof {
            assert(self.replace_undo_group@.subrange(0, g0.len() as int) =~= g0);
        }
        self.emit_buffer_change();
    }

    /// Removes `k` characters at `c` (within its line) and puts `text` there.
    fn splice_line(&mut self, c: Position, k: usize, text: &str)
        requires
            sat(c.line as int, 1) <= line_count(old(self).buffer.text()),
            k > 0 ==> c.col + k <= line_of(*old(self), c.line as int).len(),
        ensures
            ({
                let t = old(self).buffer.text();
                let a = line_start(t, sat(c.line as int, 1)) + c.col;
                final(self).buffer.text() == insert_spec(removed(t, a, a + k), c.line as int, c.col as int, text@)
            }),
            *final(self) == (Engine { buffer: final(self).buffer, ..*old(self) }),
    {
        if k > 0 {
            let _total = self.buffer.len_chars();
            let li = c.line - 1;
            proof {
                crate::text::lemma_line_bounds(old(self).buffer.text(), li as int);
            }
            let start = self.buffer.line_to_char(li) + c.col;
            self.buffer.remove_range(start, start + k);
        }
        self.buffer.insert(c.line, c.col, text);
    }

    /// The text part of `r{ch}`: the count taken, the characters replaced;
    /// gives the replaced and the new text.
    fn replace_at_cursor(&mut self, ch: char) -> (r: (String, String))
        requires
            replace_key_ok(*old(self)),
        ensures
            r.0@ == inline_old(*old(self)),
            r.1@ == Seq::new(inline_count(*old(self)), |i: int| ch),
            final(self).buffer.text() == inline_text(*old(self), ch),
            *final(self) == (Engine {
                buffer: final(self).buffer,
                operator_state: crate::state::OperatorState { count: None, ..old(self).operator_state },
                ..*old(self)
            }),
    {
        let n = match self.operator_state.count {
            Some(k) => k,
            None => 1,
        };
        self.operator_state.count = None;
        let c = self.state.cursor;
        let chars = self.buffer.line_chars(c.line);
        let len = chars.len();
        let k = if c.col < len {
            if n <= len - c.col {
                n
            } else {
                len - c.col
            }
        } else {
            0
        };
        let old_text = crate::buffer::sub_chars(&chars, c.col, c.col + k);
        proof {
            assert(old_text@ =~= replaced_chars(chars@, c.col as int, n as int));
        }
        let new_text = repeat_char(ch, n);
        self.splice_line(c, k, new_text.as_str());
        (old_text, new_text)
    }

    /// `r{ch}`.
    fn replace_inline_char(&mut self, ch: char)
        requires
            replace_key_ok(*old(self)),
            old(self).operator_state.replace_char == Some('\0'),
        ensures
            replaces_inline(*old(self), *final(self), ch),
    {
        let c = self.state.cursor;
        let (old_text, new_text) = self.replace_at_cursor(ch);
        let mods = self.buffer.modification_count();
        self.undo_manager.push(
            Edit {
                edit_type: EditType::Replace { line: c.line, col: c.col, old_text, new_text },
                cursor_before: c,
                cursor_after: c,
                modification_count: mods,
            },
        );
        self.dot_last_action = Some(DotAction::Replace { ch });
        self.operator_state.replace_char = None;
        self.transition_mode(Mode::Normal);
        self.emit_buffer_change();
    }

    /// Removes the last `k` characters typed in the Insert session.
    fn pop_typed(&mut self, k: usize)
        ensures
            final(self).insert_state.accum@ == popped_n(old(self).insert_state.accum@, k as int),
            final(self).insert_state.start_pos == old(self).insert_state.start_pos,
            final(self).insert_state.waiting_register == old(self).insert_state.waiting_register,
            *final(self) == (Engine { insert_state: final(self).insert_state, ..*old(self) }),
    {
        let mut i: usize = 0;
        while i < k
            invariant
                0 <= i <= k,
                self.insert_state.accum@ == popped_n(old(self).insert_state.accum@, i as int),
                self.insert_state.start_pos == old(self).insert_state.start_pos,
                self.insert_state.waiting_register == old(self).insert_state.waiting_register,
                *self == (Engine { insert_state: self.insert_state, ..*old(self) }),
            decreases k - i,
        {
            crate::strutil::pop_char(&mut self.insert_state.accum);
            proof {
                let a = old(self).insert_state.accum@;
                if i + 1 < a.len() {
                    assert(popped_n(a, i as int).drop_last() =~= popped_n(a, i + 1));
                }
            }
            i += 1;
        }
    }

    /// Ctrl-w in Insert mode: deletes back to the start of the word before
    /// the cursor.
    #[verifier::spinoff_prover]
    #[verifier::rlimit(40)]
    pub fn insert_delete_word_backward(&mut self)
        requires
            old(self).state.cursor.col <= line_of(*old(self), old(self).state.cursor.line as int).len(),
            line_index(old(self).state.cursor.line as int) < line_count(old(self).buffer.text()),
        ensures
            ({
                let t = old(self).buffer.text();
                let c = old(self).state.cursor;
                let start = crate::text::scan_left_nonws(line_of(*old(self), c.line as int), c.col as int);
                if start < c.col {
                    typed(
                        *old(self),
                        *final(self),
                        delete_range_spec(t, c.line as int, start, c.line as int, c.col as int),
                        Position { line: c.line, col: start as usize },
                        popped_n(old(self).insert_state.accum@, c.col - start),
                    )
                } else {
                    *final(self) == *old(self)
                }
            }),
    {
        let c = self.state.cursor;
        let chars = self.buffer.line_chars(c.line);
        let mut start = c.col;
        while start > 0 && !crate::text::is_whitespace(chars[start - 1])
            invariant
                0 <= start <= c.col <= chars@.len(),
                crate::text::scan_left_nonws(chars@, start as int) == crate::text::scan_left_nonws(chars@, c.col as int),
            decreases start,
        {
            start -= 1;
        }
        if start < c.col {
            self.buffer.delete_range(c.line, start, c.line, c.col);
            self.state.cursor.col = start;
            self.pop_typed(c.col - start);
            self.emit_buffer_change();
        }
    }

    /// Ctrl-u in Insert mode: deletes back to the start of the line.
    pub fn insert_delete_to_bol(&mut self)
        requires
            line_index(old(self).state.cursor.line as int) < line_count(old(self).buffer.text()),
        ensures
            ({
                let t = old(self).buffer.text();
                let c = old(self).state.cursor;
                let n = min_i(c.col as int, line_of(*old(self), c.line as int).len() as int);
                if c.col > 0 {
                    typed(
                        *old(self),
                        *final(self),
                        delete_range_spec(t, c.line as int, 0, c.line as int, c.col as int),
                        Position { line: c.line, col: 0 },
                        popped_n(old(self).insert_state.accum@, n),
                    )
                } else {
                    *final(self) == *old(self)
                }
            }),
    {
        let c = self.state.cursor;
        if c.col > 0 {
            let len = self.buffer.line_char_len(c.line);
            let n = if c.col <= len {
                c.col
            } else {
                len
            };
            self.buffer.delete_range(c.line, 0, c.line, c.col);
            self.state.cursor.col = 0;
            self.pop_typed(n);
            self.emit_buffer_change();
        }
    }

    /// Puts the lines `ls` in as `paste_text` says; gives the last line's
    /// length in bytes.
    fn paste_lines(&mut self, ls: &Vec<Vec<char>>, before: bool) -> (last_len: usize)
        requires
            ls@.len() >= 1,
            old(self).state.cursor.line + ls@.len() <= usize::MAX,
            forall|i: int| 0 <= i < ls@.len() ==> old(self).state.cursor.col + byte_len(#[trigger] ls@[i]@) <= usize::MAX,
        ensures
            ({
                let lv = ls@.map_values(|l: Vec<char>| l@);
                let c = old(self).state.cursor;
                &&& final(self).buffer.text() == paste_text(old(self).buffer.text(), lv, c.line as int, c.col as int, before, lv.len())
                &&& last_len as int == byte_len(lv.last())
            }),
            *final(self) == (Engine { buffer: final(self).buffer, ..*old(self) }),
    {
        let ghost lv = ls@.map_values(|l: Vec<char>| l@);
        let c = self.state.cursor;
        let n = ls.len();
        let mut i: usize = 0;
        let mut last_len: usize = 0;
        while i < n
            invariant
                0 <= i <= n,
                n == ls@.len(),
                n >= 1,
                lv == ls@.map_values(|l: Vec<char>| l@),
                c == old(self).state.cursor,
                c.line + n <= usize::MAX,
                forall|j: int| 0 <= j < n ==> c.col + byte_len(#[trigger] ls@[j]@) <= usize::MAX,
                self.buffer.text() == paste_text(old(self).buffer.text(), lv, c.line as int, c.col as int, before, i as nat),
                *self == (Engine { buffer: self.buffer, ..*old(self) }),
                i > 0 ==> last_len as int == byte_len(lv[i - 1]),
            decreases n - i,
        {
            let line = crate::strutil::string_of(ls[i].as_slice());
            let len = line.as_str().len();
            proof {
                assert(lv[i as int] == ls@[i as int]@);
                assert(c.col + byte_len(ls@[i as int]@) <= usize::MAX);
            }
            let at = if i == 0 && !before {
                c.col
            } else {
                0
            };
            self.buffer.insert(c.line + i, at, line.as_str());
            self.buffer.insert_newline(c.line + i, at + len);
            last_len = len;
            i += 1;
        }
        last_len
    }

    fn paste_multi(&mut self, content: &String, before: bool)
        requires
            paste_ok(*old(self)),
            content@ == paste_content(*old(self)),
            content@.contains('\n'),
        ensures
            pastes_lines(*old(self), *final(self), content@, before),
    {
        let c = self.state.cursor;
        let chars = crate::strutil::chars_of(content.as_str());
        let ls = crate::chars::split_lines(chars.as_slice());
        proof {
            let lv = ls@.map_values(|l: Vec<char>| l@);
            assert(lv.len() == ls@.len());
            assert(content@.len() > 0);
            assert(lv.len() >= 1);
            assert forall|i: int| 0 <= i < ls@.len() implies c.col + byte_len(#[trigger] ls@[i]@) <= usize::MAX by {
                assert(lv[i] == ls@[i]@);
            }
        }
        let last_len = self.paste_lines(&ls, before);
        let n = ls.len();
        self.state.cursor.line = c.line + (n - 1);
        self.state.cursor.col = last_len;
        self.emit_buffer_change();
    }

    fn paste_inline(&mut self, content: &String, before: bool)
        requires
            paste_ok(*old(self)),
            content@ == paste_content(*old(self)),
        ensures
            pastes_inline(*old(self), *final(self), content@, before),
    {
        let c = self.state.cursor;
        let at = if before {
            c.col
        } else {
            c.col + 1
        };
        self.buffer.insert(c.line, at, content.as_str());
        if !before {
            self.state.cursor.col = c.col + 1 + content.as_str().len();
        }
        self.emit_buffer_change();
    }

    /// `p` (after the cursor) and `P` (`before`).
    pub fn paste(&mut self, before: bool)
        requires
            paste_ok(*old(self)),
        ensures
            pastes(*old(self), *final(self), before),
    {
        let content = self.register.get_default();
        if content.as_str().is_empty() {
            return;
        }
        let chars = crate::strutil::chars_of(content.as_str());
        if crate::chars::contains_char(chars.as_slice(), '\n') {
            self.paste_multi(&content, before);
        } else {
            self.paste_inline(&content, before);
        }
    }

    /// Types `text` again at the cursor, character by character.
    fn retype(&mut self, text: &String)
        requires
            old(self).state.cursor.col + text@.len() <= usize::MAX,
        ensures
            final(self).buffer.text() == insert_each(
                old(self).buffer.text(),
                old(self).state.cursor.line as int,
                old(self).state.cursor.col as int,
                text@,
                text@.len(),
            ),
            *final(self) == (Engine {
                buffer: final(self).buffer,
                state: EditorState {
                    cursor: Position { line: old(self).state.cursor.line, col: (old(self).state.cursor.col + text@.len()) as usize },
                    ..old(self).state
                },
                ..*old(self)
            }),
    {
        let cs = crate::strutil::chars_of(text.as_str());
        let c = self.state.cursor;
        let mut i: usize = 0;
        while i < cs.len()
            invariant
                0 <= i <= cs@.len(),
                cs@ == text@,
                c == old(self).state.cursor,
                c.col + cs@.len() <= usize::MAX,
                self.buffer.text() == insert_each(old(self).buffer.text(), c.line as int, c.col as int, text@, i as nat),
                *self == (Engine {
                    buffer: self.buffer,
                    state: EditorState { cursor: Position { line: c.line, col: (c.col + i) as usize }, ..old(self).state },
                    ..*old(self)
                }),
            decreases cs@.len() - i,
        {
            self.buffer.insert_char(c.line, c.col + i, cs[i]);
            self.state.cursor.col = c.col + i + 1;
            i += 1;
        }
    }

    fn repeat_insert(&mut self, text: String)
        requires
            repeat_ok(*old(self)),
            old(self).dot_last_action matches Some(DotAction::Insert { text: t }) && t@ == text@,
        ensures
            repeats_last(*old(self), *final(self)),
    {
        self.retype(&text);
        self.emit_buffer_change();
    }

    fn repeat_delete(&mut self)
        requires
            repeat_ok(*old(self)),
            old(self).dot_last_action matches Some(DotAction::Delete { .. }),
        ensures
            repeats_last(*old(self), *final(self)),
    {
        self.delete_char('"');
        let ghost m = *self;
        self.emit_buffer_change();
        assert(deletes_char(*old(self), m, '"') && changed_text(m, m, *self, m.buffer.text()));
    }

    fn repeat_change(&mut self, text: String, l: usize, k: usize)
        requires
            old(self).dot_last_action matches Some(DotAction::Change { text: t, line, col }) && t@ == text@ && line == l && col == k,
        ensures
            repeats_last(*old(self), *final(self)),
    {
        self.buffer.insert(l, k, text.as_str());
        self.state.cursor = Position { line: l, col: k };
        self.emit_buffer_change();
    }

    fn repeat_replace(&mut self, ch: char)
        requires
            repeat_ok(*old(self)),
            old(self).dot_last_action == Some(DotAction::Replace { ch }),
        ensures
            repeats_last(*old(self), *final(self)),
    {
        let c = self.state.cursor;
        let n = self.line_bytes(c.line);
        if c.col < n {
            let li = if c.line >= 1 {
                c.line - 1
            } else {
                0
            };
            let p = self.buffer.line_to_char(li) + c.col;
            self.buffer.remove_range(p, p + 1);
            self.buffer.insert_char(c.line, c.col, ch);
            self.emit_buffer_change();
        }
    }

    /// `.`
    pub fn repeat_last_action(&mut self)
        requires
            repeat_ok(*old(self)),
        ensures
            repeats_last(*old(self), *final(self)),
    {
        match &self.dot_last_action {
            Some(DotAction::Insert { text }) => {
                let text = text.clone();
                self.repeat_insert(text);
            },
            Some(DotAction::Delete { .. }) => self.repeat_delete(),
            Some(DotAction::Change { text, line, col }) => {
                let text = text.clone();
                let (l, k) = (*line, *col);
                self.repeat_change(text, l, k);
            },
            Some(DotAction::Replace { ch }) => {
                let ch = *ch;
                self.repeat_replace(ch);
            },
            Some(DotAction::Join) => self.join_lines(),
            Some(DotAction::Indent { unindent }) => {
                let indent = !*unindent;
                self.indent_line(indent);
            },
            Some(DotAction::ToggleCase) => self.toggle_case(),
            None => {},
        }
    }

    /// Cuts `[a, b)` of the text into register `register` as one undo step
    /// deleting `content` at (`line`, `col`), the cursor put at `p`.
    fn cut_object(&mut self, register: char, a: usize, b: usize, content: String, line: usize, col: usize, p: Position)
        requires
            old(self).wf(),
            a < b ==> b <= old(self).buffer.text().len(),
        ensures
            object_cut(*old(self), *final(self), register, a as int, b as int, content@, line, col, p),
    {
        let mods = self.buffer.modification_count();
        self.register.set(register, content.as_str());
        self.buffer.remove_range(a, b);
        self.state.cursor = p;
        self.undo_manager.push(
            Edit {
                edit_type: EditType::Delete { line, col, text: content },
                cursor_before: p,
                cursor_after: p,
                modification_count: mods,
            },
        );
    }

    fn cut_word_object(&mut self, register: char, inner: bool)
        requires
            object_ok(*old(self), Key::Char('w'), inner),
        ensures
            deletes_object(*old(self), *final(self), Key::Char('w'), register, inner),
    {
        let c = self.state.cursor;
        let (word, start, end) = self.buffer.get_word_range(c.line, c.col);
        if word.as_str().is_empty() {
            return;
        }
        let _total = self.buffer.len_chars();
        let chars = self.buffer.line_chars(c.line);
        proof {
            let t = old(self).buffer.text();
            crate::text::lemma_line_bounds(t, c.line - 1);
            crate::text::lemma_scan_left(chars@, c.col as int);
            crate::text::lemma_scan_right(chars@, c.col as int);
            crate::textobj::lemma_blanks_bounds(chars@, start as int);
            crate::textobj::lemma_blanks_bounds(chars@, end as int);
        }
        let ls = self.buffer.line_to_char(c.line - 1);
        if inner {
            let n = word.as_str().len();
            let content = self.buffer.get_char_range(c.line, start, c.line, start + n);
            self.cut_object(register, ls + start, ls + start + n, content, c.line, start, c);
        } else {
            let (bb, ba) = crate::textobj::word_around(&chars, start, end);
            let content = self.buffer.get_char_range(c.line, bb, c.line, ba);
            self.cut_object(register, ls + bb, ls + bb + (ba - bb), content, c.line, bb, c);
        }
    }

    fn cut_quote_object(&mut self, register: char, q: char, inner: bool)
        requires
            object_ok(*old(self), Key::Char(q), inner),
            q == '"' || q == '\'',
        ensures
            deletes_object(*old(self), *final(self), Key::Char(q), register, inner),
    {
        let c = self.state.cursor;
        let chars = self.buffer.line_chars(c.line);
        match crate::textobj::quote_object(&chars, c.col, q, inner) {
            Some((a, b)) => {
                let content = crate::buffer::sub_chars(&chars, a, b);
                let _total = self.buffer.len_chars();
                let ls = self.buffer.line_to_char(c.line - 1);
                let n = content.as_str().len();
                self.cut_object(register, ls + a, ls + a + n, content, c.line, a, c);
            },
            None => {},
        }
    }

    /// The text of the lines `from..to`, each with a line break after it.
    fn collect_lines(&self, from: usize, to: usize) -> (r: String)
        ensures
            r@ == lines_between(*self, from as int, to as int),
    {
        let mut s = String::new();
        let mut l = from;
        proof {
            assert(s@ =~= lines_between(*self, from as int, from as int));
        }
        while l < to
            invariant
                from <= l <= to || (to < from && l == from),
                s@ == lines_between(*self, from as int, l as int),
            decreases to - l,
        {
            let line = self.buffer.get_line(l);
            crate::strutil::push_str(&mut s, line.as_str());
            crate::strutil::push_char(&mut s, '\n');
            proof {
                assert(s@ =~= lines_between(*self, from as int, l as int) + line_of(*self, l as int) + seq!['\n']);
            }
            l += 1;
        }
        proof {
            if to < from {
                assert(lines_between(*self, from as int, to as int) =~= Seq::<char>::empty());
            }
        }
        s
    }

    fn cut_bracket_object(&mut self, register: char, key: Key, o: char, k: char, inner: bool)
        requires
            object_ok(*old(self), key, inner),
            crate::textobj::text_object_of(key) == Some(crate::textobj::TextObject::Bracket(o, k)),
        ensures
            deletes_object(*old(self), *final(self), key, register, inner),
    {
        match self.bracket_object(o, k, inner) {
            Some((ol, a, cl, b)) => {
                proof {
                    crate::textobj::lemma_open_search_bounds(*old(self), o, old(self).state.cursor.line as int);
                    crate::textobj::lemma_close_search_bounds(
                        *old(self),
                        k,
                        old(self).state.cursor.line as int,
                        line_count(old(self).buffer.text()) as int,
                    );
                }
                let _total = self.buffer.len_chars();
                let start = self.buffer.line_to_char(ol - 1) + a;
                let end = if ol == cl {
                    start + b.saturating_sub(a)
                } else {
                    self.buffer.line_to_char(cl - 1) + b
                };
                let first = self.buffer.line_chars(ol);
                let content = if ol == cl {
                    crate::buffer::sub_chars(&first, a, b)
                } else {
                    let mut s = crate::buffer::sub_chars(&first, a, first.len());
                    crate::strutil::push_char(&mut s, '\n');
                    let mid = self.collect_lines(ol + 1, cl);
                    crate::strutil::push_str(&mut s, mid.as_str());
                    let last = self.buffer.line_chars(cl);
                    let tail = crate::buffer::sub_chars(&last, 0, b);
                    crate::strutil::push_str(&mut s, tail.as_str());
                    s
                };
                assert(content@ == bracket_content(*old(self), ol as int, a as int, cl as int, b as int));
                assert(end as int == bracket_cut_end(old(self).buffer.text(), ol as int, a as int, cl as int, b as int));
                assert(start as int == line_start(old(self).buffer.text(), ol - 1) + a);
                self.cut_object(register, start, end, content, ol, a, Position { line: ol, col: a });
            },
            None => {},
        }
    }

    /// `d` or `y` followed by `i` (`inner`) or `a` and the object's key.
    pub fn delete_text_object(&mut self, key: Key, register: char, inner: bool)
        requires
            object_ok(*old(self), key, inner),
        ensures
            deletes_object(*old(self), *final(self), key, register, inner),
    {
        match crate::textobj::text_object_for(key) {
            Some(crate::textobj::TextObject::Word) => {
                self.cut_word_object(register, inner);
            },
            Some(crate::textobj::TextObject::Quote(q)) => {
                self.cut_quote_object(register, q, inner);
            },
            Some(crate::textobj::TextObject::Bracket(o, k)) => {
                self.cut_bracket_object(register, key, o, k, inner);
            },
            None => {},
        }
    }

    /// `x` with a count.
    pub fn delete_chars(&mut self, count: usize, register: char)
        requires
            old(self).wf(),
            old(self).buffer.text().len() + old(self).state.cursor.col <= usize::MAX,
        ensures
            repeated(|a: Engine, b: Engine| deletes_char(a, b, register), *old(self), *final(self), count as nat),
    {
        let ghost step = |a: Engine, b: Engine| deletes_char(a, b, register);
        let ghost mut es = seq![*self];
        let mut i: usize = 0;
        while i < count
            invariant
                0 <= i <= count,
                self.wf(),
                self.buffer.text().len() + self.state.cursor.col <= usize::MAX,
                step == (|a: Engine, b: Engine| deletes_char(a, b, register)),
                es.len() == i + 1,
                es[0] == *old(self),
                es[i as int] == *self,
                steps_through(step, es),
            decreases count - i,
        {
            let ghost prev = *self;
            self.delete_char(register);
            proof {
                lemma_delete_len(prev.buffer.text(), prev.state.cursor.line as int, prev.state.cursor.col as int);
                lemma_merge_len(prev.buffer.text(), prev.state.cursor.line + 1);
                lemma_chain_push(step, es, *self);
                es = es.push(*self);
            }
            i += 1;
        }
        assert(steps_through(step, es));
    }

    /// `J` with a count.
    pub fn join_lines_n(&mut self, count: usize)
        requires
            old(self).wf(),
        ensures
            repeated(|a: Engine, b: Engine| joins_lines(a, b), *old(self), *final(self), count as nat),
    {
        let ghost step = |a: Engine, b: Engine| joins_lines(a, b);
        let ghost mut es = seq![*self];
        let mut i: usize = 0;
        while i < count
            invariant
                0 <= i <= count,
                self.wf(),
                step == (|a: Engine, b: Engine| joins_lines(a, b)),
                es.len() == i + 1,
                es[0] == *old(self),
                es[i as int] == *self,
                steps_through(step, es),
            decreases count - i,
        {
            self.join_lines();
            proof {
                lemma_chain_push(step, es, *self);
                es = es.push(*self);
            }
            i += 1;
        }
        assert(steps_through(step, es));
    }

    /// `s`: `x` into the unnamed register, then Insert mode.
    pub fn substitute_char(&mut self)
        requires
            old(self).wf(),
            old(self).buffer.text().len() + old(self).state.cursor.col <= usize::MAX,
        ensures
            exists|m: Engine| #[trigger] deletes_char(*old(self), m, '"') && switched(m, *final(self), Mode::Insert),
    {
        self.delete_char('"');
        let ghost m = *self;
        self.transition_mode(Mode::Insert);
        assert(deletes_char(*old(self), m, '"') && switched(m, *self, Mode::Insert));
    }

    /// `c` with `i` (`inner`) or `a` and `w`: for `iw` the word's text (as
    /// many columns as its bytes) goes to register `register` and is cut;
    /// either way then Insert mode.
    pub fn change_word_object(&mut self, register: char, inner: bool)
        requires
            word_cut_ok(*old(self)),
        ensures
            changes_word_object(*old(self), *final(self), register, inner),
    {
        if inner {
            let c = self.state.cursor;
            let (word, start, _) = self.buffer.get_word_range(c.line, c.col);
            if !word.as_str().is_empty() {
                let n = word.as_str().len();
                let _total = self.buffer.len_chars();
                let a = self.buffer.line_to_char(c.line - 1) + start;
                let content = self.buffer.get_char_range(c.line, start, c.line, start + n);
                self.register.set(register, content.as_str());
                self.buffer.remove_range(a, a + n);
            }
        }
        self.transition_mode(Mode::Insert);
        self.emit_buffer_change();
    }

    /// `w` with a count.
    pub fn word_forward_n(&mut self, count: usize)
        ensures
            *final(self) == word_moves(*old(self), 0, count as nat),
    {
        let mut i: usize = 0;
        while i < count
            invariant
                0 <= i <= count,
                *self == word_moves(*old(self), 0, i as nat),
            decreases count - i,
        {
            self.move_word_forward();
            i += 1;
        }
    }

    /// `e` with a count.
    pub fn word_end_n(&mut self, count: usize)
        ensures
            *final(self) == word_moves(*old(self), 1, count as nat),
    {
        let mut i: usize = 0;
        while i < count
            invariant
                0 <= i <= count,
                *self == word_moves(*old(self), 1, i as nat),
            decreases count - i,
        {
            self.move_word_end();
            i += 1;
        }
    }

    /// `b` with a count.
    pub fn word_backward_n(&mut self, count: usize)
        requires
            ({
                let col = old(self).state.cursor.col;
                col < 2 || col - 1 < line_of(*old(self), old(self).state.cursor.line as int).len()
            }),
        ensures
            *final(self) == word_moves(*old(self), 2, count as nat),
    {
        let mut i: usize = 0;
        while i < count
            invariant
                0 <= i <= count,
                *self == word_moves(*old(self), 2, i as nat),
                ({
                    let col = self.state.cursor.col;
                    col < 2 || col - 1 < line_of(*self, self.state.cursor.line as int).len()
                }),
            decreases count - i,
        {
            let ghost prev = *self;
            self.move_word_backward();
            proof {
                let c = line_of(prev, prev.state.cursor.line as int);
                let col = prev.state.cursor.col as int;
                if col > 0 && col - 1 < c.len() {
                    crate::motion::lemma_back_over_ws(c, col - 1);
                    crate::text::lemma_scan_left(c, back_over_ws(c, col - 1));
                }
            }
            i += 1;
        }
    }

    /// Tells the plugins of a key (by its recorded name) and records it
    /// into the macro being recorded, if any.
    pub fn emit_key_event(&mut self, key: Key, ctrl: bool, alt: bool)
        ensures
            ({
                let name = crate::keymap::encode_spec(key, ctrl, alt);
                let p0 = old(self).plugin_manager.pending();
                let p1 = final(self).plugin_manager.pending();
                let m0 = old(self).state.macros;
                let m1 = final(self).state.macros;
                &&& p1.len() == p0.len() + 1
                &&& p1.take(p0.len() as int) == p0
                &&& p1.last() matches PluginEvent::Key { mode, key: k } && mode == old(self).state.mode && k@ == name
                &&& final(self).plugin_manager.plugin_names() == old(self).plugin_manager.plugin_names()
                &&& final(self).plugin_manager.loaders() == old(self).plugin_manager.loaders()
                &&& m1.recording_into() == m0.recording_into()
                &&& m1.playback_depth() == m0.playback_depth()
                &&& m1.view().dom() == m0.view().dom()
                &&& forall|r: char|
                    #![trigger m1.view()[r]]
                    m0.view().contains_key(r) ==> if m0.recording_into() == Some(r) {
                        &&& m1.view()[r]@.len() == m0.view()[r]@.len() + 1
                        &&& m1.view()[r]@.take(m0.view()[r]@.len() as int) == m0.view()[r]@
                        &&& m1.view()[r]@.last()@ == name
                    } else {
                        m1.view()[r]@ == m0.view()[r]@
                    }
                &&& *final(self) == (Engine {
                    plugin_manager: final(self).plugin_manager,
                    state: EditorState { macros: final(self).state.macros, ..old(self).state },
                    ..*old(self)
                })
            }),
    {
        let name = crate::keymap::encode_key(key, ctrl, alt);
        let name2 = name.clone();
        let ghost p0 = self.plugin_manager.pending();
        self.plugin_manager.emit(PluginEvent::Key { mode: self.state.mode, key: name });
        proof {
            assert(self.plugin_manager.pending().take(p0.len() as int) =~= p0);
        }
        if self.state.macros.is_recording() {
            let ghost m0 = self.state.macros;
            self.state.macros.add_key(name2);
            proof {
                assert forall|r: char|
                    #![trigger self.state.macros.view()[r]]
                    m0.view().contains_key(r) && m0.recording_into() == Some(r) implies self.state.macros.view()[r]@.take(
                    m0.view()[r]@.len() as int,
                ) == m0.view()[r]@ by {
                    assert(self.state.macros.view()[r]@.take(m0.view()[r]@.len() as int) =~= m0.view()[r]@);
                }
            }
        }
    }
}

} // verus!
