//! Carrying out a decoded Normal-mode action on the engine.
use crate::engine::Engine;
use crate::motion::{line_of, max_i, min_i, moved, sat};
use crate::normal::{NormalAction, OperatorAction};
use crate::text::line_count;
use crate::keymap::{EmacsAction, Key};
use crate::types::{DotAction, Mode, Operator};
use crate::vim_edit::{
    deletes_char, enters_replace, enters_visual, joins_lines, kills_line, opens_command_line, opens_line,
    repeat_ok, repeated, repeats_last, starts_insert, substitutes_line, switched, toggles_case, word_moves,
    InsertStart, insert_key_ok, insert_key_effect, replace_key_ok, replace_key_effect, paste_ok, pastes,
    paste_content, reg_get, object_ok, deletes_object, changes_word_object, changes_lines, changes_word, deletes_line, deletes_word, indents_lines, restores_visual,
    word_cut_ok, yanks_lines, yanks_word, yanks_word_end,
};
use crate::visual::{first_non_blank_col, line_end_byte_col};
use vstd::prelude::*;

verus! {

/// What became of a Normal-mode action handed to the engine.
#[derive(Debug, Clone, Copy, PartialEq, Eq, Structural)]
pub enum StepOutcome {
    /// The engine carried it out.
    Done,
    /// The action would take a position or a length past the machine word;
    /// nothing changed.
    Refused,
    /// The action needs what the engine does not hold (the search state,
    /// the undo history, macros, the next key, the clipboard); nothing
    /// changed.
    Elsewhere,
}

/// Whether the engine carries out `act` itself.
pub open spec fn engine_action(act: NormalAction) -> bool {
    match act {
        NormalAction::TextObject { .. } => false,
        NormalAction::OperatorKey { .. } => false,
        NormalAction::PlayMacro(_) => false,
        NormalAction::SearchWord => false,
        NormalAction::SearchNext(_) => false,
        NormalAction::SearchPrev(_) => false,
        NormalAction::Undo => false,
        NormalAction::RepeatFind(_) => false,
        NormalAction::MatchBracket => false,
        NormalAction::StopRecording => false,
        NormalAction::Paste(_) => false,
        _ => true,
    }
}

/// Whether `act` stays within the machine word on `e` (positions and lengths
/// that the action adds up fit in a `usize`).
pub open spec fn action_fits(e: Engine, act: NormalAction) -> bool {
    let c = e.state.cursor;
    let n = e.buffer.text().len();
    match act {
        NormalAction::Right(k) => c.col + k <= usize::MAX,
        NormalAction::Down(k) => c.line + k <= usize::MAX,
        NormalAction::Insert => c.col < usize::MAX,
        NormalAction::Append => c.col < usize::MAX,
        NormalAction::AppendLineEnd => c.col < usize::MAX,
        NormalAction::LineEnd(k) => c.line + k <= usize::MAX,
        NormalAction::DeleteChars(_) => n + c.col <= usize::MAX,
        NormalAction::SubstituteChar => n + c.col <= usize::MAX,
        NormalAction::ToggleCase => n + c.col < usize::MAX,
        NormalAction::OpenLine(_) => c.line < usize::MAX,
        NormalAction::RepeatLast => repeat_ok(e),
        NormalAction::WordBackward(_) => c.col < 2 || c.col - 1 < line_of(e, c.line as int).len(),
        _ => true,
    }
}

/// The column `A`, `a` or `i` starts Insert mode at.
pub open spec fn insert_start(act: NormalAction) -> InsertStart {
    match act {
        NormalAction::Append => InsertStart::After,
        NormalAction::AppendLineEnd => InsertStart::LineEnd,
        _ => InsertStart::Here,
    }
}

/// `a` is `b` after the engine carried out `act`.
pub open spec fn normal_effect(b: Engine, a: Engine, act: NormalAction) -> bool {
    let c = b.state.cursor;
    match act {
        NormalAction::Nothing => a == b,
        NormalAction::Left(k) => a == moved(b, c.line as int, sat(c.col as int, k as int)),
        NormalAction::Right(k) => a == moved(
            b,
            c.line as int,
            min_i(c.col + k, sat(line_of(b, c.line as int).len() as int, 1)),
        ),
        NormalAction::Down(k) => {
            let l = min_i(c.line + k, line_count(b.buffer.text()) as int);
            a == moved(b, l, min_i(c.col as int, sat(line_of(b, l).len() as int, 1)))
        },
        NormalAction::Up(k) => {
            let l = max_i(sat(c.line as int, k as int), 1);
            a == moved(b, l, min_i(c.col as int, sat(line_of(b, l).len() as int, 1)))
        },
        NormalAction::Insert => starts_insert(b, a, InsertStart::Here),
        NormalAction::Append => starts_insert(b, a, InsertStart::After),
        NormalAction::AppendLineEnd => starts_insert(b, a, InsertStart::LineEnd),
        NormalAction::CommandLine(p) => opens_command_line(b, a, if p == ':' { None } else { Some(p) }),
        NormalAction::LineStart => a == moved(b, c.line as int, 0),
        NormalAction::FirstNonBlank => a == moved(b, c.line as int, first_non_blank_col(line_of(b, c.line as int))),
        NormalAction::LineEnd(k) => if k == 0 {
            a == b
        } else {
            let l = min_i(c.line + k - 1, line_count(b.buffer.text()) as int);
            a == moved(b, l, line_end_byte_col(line_of(b, l)))
        },
        NormalAction::KillToEnd(k) => repeated(|x: Engine, y: Engine| kills_line(x, y), b, a, k as nat),
        NormalAction::ChangeToEnd(k) => exists|m: Engine|
            repeated(|x: Engine, y: Engine| kills_line(x, y), b, m, k as nat) && switched(m, a, Mode::Insert),
        NormalAction::SubstituteLine => substitutes_line(b, a),
        NormalAction::EnterReplace => enters_replace(b, a, b.operator_state.replace_char is Some),
        NormalAction::Visual(t) => enters_visual(b, a, t),
        NormalAction::GotoLine(target) => {
            let lc = line_count(b.buffer.text()) as int;
            let l = match target {
                Some(n) => max_i(min_i(n as int, lc), 1),
                None => max_i(lc, 1),
            };
            a == moved(b, l, sat(crate::visual::byte_len(line_of(b, l)), 1))
        },
        NormalAction::DeleteChars(k) => repeated(|x: Engine, y: Engine| deletes_char(x, y, '"'), b, a, k as nat),
        NormalAction::RepeatLast => repeats_last(b, a),
        NormalAction::WordForward(k) => a == word_moves(b, 0, k as nat),
        NormalAction::WordEnd(k) => a == word_moves(b, 1, k as nat),
        NormalAction::WordBackward(k) => a == word_moves(b, 2, k as nat),
        NormalAction::OpenLine(above) => opens_line(b, a, above),
        NormalAction::JoinLines(k) => repeated(|x: Engine, y: Engine| joins_lines(x, y), b, a, k as nat),
        NormalAction::SubstituteChar => exists|m: Engine| #[trigger]
            deletes_char(b, m, '"') && switched(m, a, Mode::Insert),
        NormalAction::ToggleCase => toggles_case(b, a),
        _ => a == b,
    }
}

impl Engine {
    /// Whether `.` can be repeated here without a position or length going
    /// past the machine word.
    fn repeat_fits(&self) -> (r: bool)
        requires
            self.wf(),
        ensures
            r == repeat_ok(*self),
    {
        let n = self.buffer.len_chars();
        let c = self.state.cursor;
        if c.col >= usize::MAX || n > usize::MAX - 1 - c.col || c.line >= usize::MAX {
            return false;
        }
        match &self.dot_last_action {
            Some(DotAction::Insert { text }) => {
                let k = text.as_str().unicode_len();
                c.col <= usize::MAX - k
            },
            Some(DotAction::Replace { ch: _ }) => {
                let line = self.buffer.get_line(c.line);
                let bl = line.as_str().len();
                if c.col < bl {
                    let k = c.line.saturating_sub(1);
                    let lc = self.buffer.line_count();
                    if k > lc {
                        return false;
                    }
                    let st = self.buffer.line_to_char(k);
                    st < n && c.col < n - st
                } else {
                    true
                }
            },
            _ => true,
        }
    }

    /// Whether `act` stays within the machine word here.
    fn action_fits_here(&self, act: NormalAction) -> (r: bool)
        requires
            self.wf(),
        ensures
            r == action_fits(*self, act),
    {
        let c = self.state.cursor;
        match act {
            NormalAction::Right(k) => c.col <= usize::MAX - k,
            NormalAction::Down(k) => c.line <= usize::MAX - k,
            NormalAction::Insert => c.col < usize::MAX,
            NormalAction::Append => c.col < usize::MAX,
            NormalAction::AppendLineEnd => c.col < usize::MAX,
            NormalAction::LineEnd(k) => c.line <= usize::MAX - k,
            NormalAction::DeleteChars(_) => self.buffer.len_chars() <= usize::MAX - c.col,
            NormalAction::SubstituteChar => self.buffer.len_chars() <= usize::MAX - c.col,
            NormalAction::ToggleCase => c.col < usize::MAX && self.buffer.len_chars() < usize::MAX - c.col,
            NormalAction::OpenLine(_) => c.line < usize::MAX,
            NormalAction::RepeatLast => self.repeat_fits(),
            NormalAction::WordBackward(_) => c.col < 2 || c.col - 1 < self.buffer.line_char_len(c.line),
            _ => true,
        }
    }

    /// Carries out a Normal-mode action that `normal_key` decoded, when the
    /// engine holds all it needs: moves, Insert, Command, Visual and Replace
    /// mode, `D`, `C`, `S`, `x`, `s`, `o`, `O`, `J`, `~`, `G`, word motions
    /// and `.`. An action that would go past the machine word is refused;
    /// searches, undo, macros, pastes and pending operators are left to the
    /// caller. Refused and left actions change nothing.
    pub fn perform_normal(&mut self, act: NormalAction) -> (r: StepOutcome)
        requires
            old(self).wf(),
        ensures
            !engine_action(act) <==> r == StepOutcome::Elsewhere,
            engine_action(act) && !action_fits(*old(self), act) <==> r == StepOutcome::Refused,
            r == StepOutcome::Done ==> normal_effect(*old(self), *final(self), act),
            r != StepOutcome::Done ==> *final(self) == *old(self),
    {
        let is_engine = match act {
            NormalAction::TextObject { .. } => false,
            NormalAction::OperatorKey { .. } => false,
            NormalAction::PlayMacro(_) => false,
            NormalAction::SearchWord => false,
            NormalAction::SearchNext(_) => false,
            NormalAction::SearchPrev(_) => false,
            NormalAction::Undo => false,
            NormalAction::RepeatFind(_) => false,
            NormalAction::MatchBracket => false,
            NormalAction::StopRecording => false,
            NormalAction::Paste(_) => false,
            _ => true,
        };
        if !is_engine {
            return StepOutcome::Elsewhere;
        }
        if !self.action_fits_here(act) {
            return StepOutcome::Refused;
        }
        self.carry_out(act);
        StepOutcome::Done
    }

    fn carry_out(&mut self, act: NormalAction)
        requires
            old(self).wf(),
            engine_action(act),
            action_fits(*old(self), act),
        ensures
            normal_effect(*old(self), *final(self), act),
    {
        match act {
            NormalAction::Left(k) => self.cursor_left(k),
            NormalAction::Right(k) => self.cursor_right(k),
            NormalAction::Down(k) => self.cursor_down(k),
            NormalAction::Up(k) => self.cursor_up(k),
            NormalAction::Insert => self.start_insert(InsertStart::Here),
            NormalAction::Append => self.start_insert(InsertStart::After),
            NormalAction::AppendLineEnd => self.start_insert(InsertStart::LineEnd),
            NormalAction::CommandLine(p) => self.open_command_line(if p == ':' { None } else { Some(p) }),
            NormalAction::LineStart => self.cursor_line_start(),
            NormalAction::FirstNonBlank => self.cursor_first_non_blank(),
            NormalAction::LineEnd(k) => {
                if k >= 1 {
                    self.cursor_line_end_bytes(k);
                }
            },
            NormalAction::KillToEnd(k) => self.kill_lines(k),
            NormalAction::ChangeToEnd(k) => self.change_to_end(k),
            NormalAction::SubstituteLine => self.substitute_line(),
            NormalAction::EnterReplace => {
                let single = self.operator_state.replace_char.is_some();
                self.enter_replace(single);
            },
            NormalAction::Visual(t) => self.enter_visual(t),
            NormalAction::GotoLine(target) => self.goto_line(target),
            NormalAction::DeleteChars(k) => self.delete_chars(k, '"'),
            NormalAction::RepeatLast => self.repeat_last_action(),
            NormalAction::WordForward(k) => self.word_forward_n(k),
            NormalAction::WordEnd(k) => self.word_end_n(k),
            NormalAction::WordBackward(k) => self.word_backward_n(k),
            NormalAction::OpenLine(above) => self.open_line(above),
            NormalAction::JoinLines(k) => self.join_lines_n(k),
            NormalAction::SubstituteChar => self.substitute_char(),
            NormalAction::ToggleCase => self.toggle_case(),
            _ => {},
        }
    }
}

/// Whether the engine carries out the operator action `a` itself.
pub open spec fn engine_operator(a: OperatorAction) -> bool {
    match a {
        OperatorAction::FindChar { .. } => false,
        OperatorAction::StartRecording(_) => false,
        OperatorAction::GotoTop => false,
        OperatorAction::SaveQuit => false,
        _ => true,
    }
}

/// Whether the operator action `a` stays within the machine word on `e`.
pub open spec fn operator_fits(e: Engine, a: OperatorAction, rows: usize) -> bool {
    match a {
        OperatorAction::YankWordEnd(_) => e.state.cursor.col <= line_of(e, e.state.cursor.line as int).len(),
        OperatorAction::DeleteWord(_) => word_cut_ok(e),
        OperatorAction::ChangeWord(_) => word_cut_ok(e),
        OperatorAction::ScrollBottom => sat(line_count(e.buffer.text()) as int, sat(rows as int, 2)) < usize::MAX,
        _ => true,
    }
}

/// `a` is `b` after the engine carried out the operator action `op` on a
/// window of `rows` rows.
pub open spec fn operator_effect(b: Engine, a: Engine, op: OperatorAction, rows: usize) -> bool {
    let c = b.state.cursor;
    match op {
        OperatorAction::YankLines { count, register } => yanks_lines(b, a, count, register),
        OperatorAction::YankWord(r) => yanks_word(b, a, r),
        OperatorAction::YankWordEnd(r) => yanks_word_end(b, a, r),
        OperatorAction::DeleteLines { count, register } => repeated(
            |x: Engine, y: Engine| deletes_line(x, y, register),
            b,
            a,
            if count >= 1 { count as nat } else { 1 },
        ),
        OperatorAction::DeleteWord(r) => deletes_word(b, a, r),
        OperatorAction::ChangeLines { count, register } => changes_lines(b, a, count, register),
        OperatorAction::ChangeWord(r) => changes_word(b, a, r),
        OperatorAction::Indent { count, register: _, right } => indents_lines(b, a, count, right),
        OperatorAction::RestoreVisual => restores_visual(b, a),
        OperatorAction::ScrollCenter => a == moved(b, max_i(sat(c.line as int, sat(rows as int, 2) / 2), 1), c.col as int),
        OperatorAction::ScrollTop => a == moved(b, 1, c.col as int),
        OperatorAction::ScrollBottom => a == moved(
            b,
            max_i(sat(line_count(b.buffer.text()) as int, sat(rows as int, 2)) + 1, 1),
            c.col as int,
        ),
        _ => a == b,
    }
}

impl Engine {
    /// Whether the word around the cursor can be cut.
    fn word_cut_fits(&self) -> (r: bool)
        ensures
            r == word_cut_ok(*self),
    {
        let c = self.state.cursor;
        let (w, start, _end) = self.buffer.get_word_range(c.line, c.col);
        if w.as_str().unicode_len() == 0 {
            return true;
        }
        if c.line < 1 {
            return false;
        }
        let lc = self.buffer.line_count();
        if c.line - 1 > lc {
            return false;
        }
        let st = self.buffer.line_to_char(c.line - 1);
        let n = self.buffer.len_chars();
        let bl = w.as_str().len();
        st <= n && start <= n - st && bl <= n - st - start
    }

    /// Carries out an action that completing an operator gave (`yy`, `yw`,
    /// `ye`, `dd`, `dw`, `cc`, `cw`, `>>`, `<<`, `gv`, `zz`, `zt`, `zb`) on a
    /// window of `rows` rows. One that would go past the machine word is
    /// refused; `f`/`t` searches, macro recording, `gg` and `ZZ` are left to
    /// the caller. Refused and left actions change nothing.
    pub fn perform_operator(&mut self, op: OperatorAction, rows: usize) -> (r: StepOutcome)
        requires
            old(self).wf(),
        ensures
            !engine_operator(op) <==> r == StepOutcome::Elsewhere,
            engine_operator(op) && !operator_fits(*old(self), op, rows) <==> r == StepOutcome::Refused,
            r == StepOutcome::Done ==> operator_effect(*old(self), *final(self), op, rows),
            r != StepOutcome::Done ==> *final(self) == *old(self),
    {
        let c = self.state.cursor;
        match op {
            OperatorAction::FindChar { .. } => StepOutcome::Elsewhere,
            OperatorAction::StartRecording(_) => StepOutcome::Elsewhere,
            OperatorAction::GotoTop => StepOutcome::Elsewhere,
            OperatorAction::SaveQuit => StepOutcome::Elsewhere,
            OperatorAction::Nothing => StepOutcome::Done,
            OperatorAction::YankLines { count, register } => {
                self.yank_lines(count, register);
                StepOutcome::Done
            },
            OperatorAction::YankWord(r) => {
                self.yank_word(r);
                StepOutcome::Done
            },
            OperatorAction::YankWordEnd(r) => {
                if c.col > self.buffer.line_char_len(c.line) {
                    return StepOutcome::Refused;
                }
                self.yank_word_end(r);
                StepOutcome::Done
            },
            OperatorAction::DeleteLines { count, register } => {
                self.delete_lines(count, register);
                StepOutcome::Done
            },
            OperatorAction::DeleteWord(r) => {
                if !self.word_cut_fits() {
                    return StepOutcome::Refused;
                }
                self.delete_word(r);
                StepOutcome::Done
            },
            OperatorAction::ChangeLines { count, register } => {
                self.change_lines(count, register);
                StepOutcome::Done
            },
            OperatorAction::ChangeWord(r) => {
                if !self.word_cut_fits() {
                    return StepOutcome::Refused;
                }
                self.change_word(r);
                StepOutcome::Done
            },
            OperatorAction::Indent { count, register: _, right } => {
                self.indent_lines(count, right);
                StepOutcome::Done
            },
            OperatorAction::RestoreVisual => {
                self.restore_visual();
                StepOutcome::Done
            },
            OperatorAction::ScrollCenter => {
                self.scroll_cursor_to_center(rows);
                StepOutcome::Done
            },
            OperatorAction::ScrollTop => {
                self.scroll_cursor_to_top();
                StepOutcome::Done
            },
            OperatorAction::ScrollBottom => {
                let lc = self.buffer.line_count();
                let r2 = rows.saturating_sub(2);
                if lc.saturating_sub(r2) == usize::MAX {
                    return StepOutcome::Refused;
                }
                self.scroll_cursor_to_bottom(rows);
                StepOutcome::Done
            },
        }
    }
}


/// `a` is `b` after the text object that `key` names, with `i` (`inner`)
/// or `a`, completed operator `op` into `register`: `y` and `d` cut the
/// object into the register; `c` with `w` cuts the word (for `iw`) and
/// enters Insert mode; anything else changes nothing.
pub open spec fn text_object_effect(b: Engine, a: Engine, op: Operator, register: char, inner: bool, key: Key) -> bool {
    match op {
        Operator::Yank => deletes_object(b, a, key, register, inner),
        Operator::Delete => deletes_object(b, a, key, register, inner),
        Operator::Change => if key == Key::Char('w') {
            changes_word_object(b, a, register, inner)
        } else {
            a == b
        },
        _ => a == b,
    }
}

/// Whether completing `op` with the text object `key` stays within the
/// machine word (see `object_ok` and `word_cut_ok`).
pub open spec fn text_object_fits(e: Engine, op: Operator, inner: bool, key: Key) -> bool {
    match op {
        Operator::Yank => object_ok(e, key, inner),
        Operator::Delete => object_ok(e, key, inner),
        Operator::Change => key == Key::Char('w') ==> word_cut_ok(e),
        _ => true,
    }
}

impl Engine {
    /// Whether the text object `key` can be cut here (`object_ok`).
    fn object_fits(&self, key: Key, inner: bool) -> (r: bool)
        requires
            self.wf(),
        ensures
            r == object_ok(*self, key, inner),
    {
        let c = self.state.cursor;
        if c.col == usize::MAX {
            return false;
        }
        let n = self.buffer.len_chars();
        match crate::textobj::text_object_for(key) {
            Some(crate::textobj::TextObject::Word) => {
                let (word, start, end) = self.buffer.get_word_range(c.line, c.col);
                if word.as_str().unicode_len() == 0 {
                    return true;
                }
                if c.line < 1 {
                    return false;
                }
                let chars = self.buffer.line_chars(c.line);
                proof {
                    let t = self.buffer.text();
                    crate::text::lemma_line_bounds(t, c.line - 1);
                    crate::text::lemma_scan_left(chars@, c.col as int);
                    crate::text::lemma_scan_right(chars@, c.col as int);
                    crate::textobj::lemma_blanks_bounds(chars@, start as int);
                    crate::textobj::lemma_blanks_bounds(chars@, end as int);
                }
                let ls = self.buffer.line_to_char(c.line - 1);
                let (s0, len) = if inner {
                    (start, word.as_str().len())
                } else {
                    let (bb, ba) = crate::textobj::word_around(&chars, start, end);
                    (bb, ba - bb)
                };
                ls <= n && s0 <= n - ls && len <= n - ls - s0
            },
            Some(crate::textobj::TextObject::Quote(q)) => {
                let chars = self.buffer.line_chars(c.line);
                if c.col > chars.len() {
                    return false;
                }
                match crate::textobj::quote_object(&chars, c.col, q, inner) {
                    Some((a, b)) => {
                        if c.line < 1 || c.line - 1 > self.buffer.line_count() {
                            return false;
                        }
                        let content = crate::buffer::sub_chars(&chars, a, b);
                        let ls = self.buffer.line_to_char(c.line - 1);
                        let len = content.as_str().len();
                        ls <= n && a <= n - ls && len <= n - ls - a
                    },
                    None => true,
                }
            },
            Some(crate::textobj::TextObject::Bracket(o, k)) => {
                match self.bracket_object(o, k, inner) {
                    Some((ol, a, cl, b)) => {
                        proof {
                            crate::textobj::lemma_open_search_bounds(*self, o, self.state.cursor.line as int);
                            crate::textobj::lemma_close_search_bounds(
                                *self,
                                k,
                                self.state.cursor.line as int,
                                line_count(self.buffer.text()) as int,
                            );
                        }
                        let ls = self.buffer.line_to_char(ol - 1);
                        if ls > n || a > n - ls {
                            return false;
                        }
                        if ol == cl {
                            let w = if b >= a { b - a } else { 0 };
                            w <= n - ls - a
                        } else {
                            let le = self.buffer.line_to_char(cl - 1);
                            le <= n && b <= n - le
                        }
                    },
                    None => true,
                }
            },
            None => true,
        }
    }

    /// Completes operator `op` with the text object that `key` names (`i`
    /// when `inner`, else `a`), into `register`. Refused, changing nothing,
    /// exactly when the cut would go past the machine word.
    pub fn text_object(&mut self, op: Operator, register: char, inner: bool, key: Key) -> (r: StepOutcome)
        requires
            old(self).wf(),
        ensures
            r == StepOutcome::Refused <==> !text_object_fits(*old(self), op, inner, key),
            r != StepOutcome::Elsewhere,
            r == StepOutcome::Done ==> text_object_effect(*old(self), *final(self), op, register, inner, key),
            r == StepOutcome::Refused ==> *final(self) == *old(self),
    {
        match op {
            Operator::Yank | Operator::Delete => {
                if !self.object_fits(key, inner) {
                    return StepOutcome::Refused;
                }
                self.delete_text_object(key, register, inner);
                StepOutcome::Done
            },
            Operator::Change => {
                if key == Key::Char('w') {
                    if !self.word_cut_fits() {
                        return StepOutcome::Refused;
                    }
                    self.change_word_object(register, inner);
                }
                StepOutcome::Done
            },
            _ => StepOutcome::Done,
        }
    }
}

impl Engine {
    /// Whether a key in Insert mode stays within the machine word here
    /// (`insert_key_ok`).
    fn insert_fits(&self, key: Key) -> (r: bool)
        requires
            self.wf(),
        ensures
            r == insert_key_ok(*self, key),
    {
        let c = self.state.cursor;
        let n = self.buffer.len_chars();
        if c.col >= usize::MAX || n >= usize::MAX - c.col || c.line >= usize::MAX {
            return false;
        }
        if self.insert_state.waiting_register {
            match key {
                Key::Char(r) => {
                    let t = self.register.get(r);
                    t.as_str().unicode_len() <= usize::MAX - c.col
                },
                _ => true,
            }
        } else {
            true
        }
    }

    /// A key typed in Insert mode (see `insert_key_effect`). Refused,
    /// changing nothing, exactly when it would go past the machine word.
    pub fn insert_step(&mut self, key: Key) -> (r: StepOutcome)
        requires
            old(self).wf(),
        ensures
            r != StepOutcome::Elsewhere,
            r == StepOutcome::Refused <==> !insert_key_ok(*old(self), key),
            r == StepOutcome::Done ==> insert_key_effect(*old(self), *final(self), key),
            r == StepOutcome::Refused ==> *final(self) == *old(self),
    {
        if !self.insert_fits(key) {
            return StepOutcome::Refused;
        }
        self.insert_key(key);
        StepOutcome::Done
    }

    /// A key typed in Replace mode (see `replace_key_effect`). Refused,
    /// changing nothing, exactly when the cursor is past the last line or a
    /// position would go past the machine word.
    pub fn replace_step(&mut self, key: Key) -> (r: StepOutcome)
        requires
            old(self).wf(),
        ensures
            r != StepOutcome::Elsewhere,
            r == StepOutcome::Refused <==> !replace_key_ok(*old(self)),
            r == StepOutcome::Done ==> replace_key_effect(*old(self), *final(self), key),
            r == StepOutcome::Refused ==> *final(self) == *old(self),
    {
        let c = self.state.cursor;
        let n = self.buffer.len_chars();
        let lc = self.buffer.line_count();
        if c.line.saturating_sub(1) > lc || c.col >= usize::MAX || n >= usize::MAX - c.col || c.line >= usize::MAX {
            return StepOutcome::Refused;
        }
        self.replace_key(key);
        StepOutcome::Done
    }

    /// Whether `p`/`P` stays within the machine word here (`paste_ok`).
    fn paste_fits(&self) -> (r: bool)
        ensures
            r == paste_ok(*self),
    {
        let c = self.state.cursor;
        let content = self.register.get_default();
        let cs = crate::strutil::chars_of(content.as_str());
        let ls = crate::chars::split_lines(cs.as_slice());
        proof {
            assert(content@ == paste_content(*self));
        }
        let ghost lv = ls@.map_values(|l: Vec<char>| l@);
        if ls.len() > usize::MAX - c.line {
            return false;
        }
        let mut i: usize = 0;
        while i < ls.len()
            invariant
                0 <= i <= ls@.len(),
                lv == ls@.map_values(|l: Vec<char>| l@),
                lv == crate::chars::lines_spec(paste_content(*self)),
                c == self.state.cursor,
                forall|j: int| 0 <= j < i ==> c.col + crate::visual::byte_len(#[trigger] lv[j]) <= usize::MAX,
            decreases ls@.len() - i,
        {
            let t = crate::strutil::string_of(ls[i].as_slice());
            let tl = t.as_str().len();
            if tl > usize::MAX - c.col {
                proof {
                    assert(lv[i as int] == t@);
                    assert(i < lv.len());
                    assert(lv == crate::chars::lines_spec(paste_content(*self)));
                    assert(crate::chars::lines_spec(paste_content(*self))[i as int] == t@);
                    assert(crate::visual::byte_len(t@) == tl);
                    assert(c.col + crate::visual::byte_len(crate::chars::lines_spec(paste_content(*self))[i as int]) > usize::MAX);
                    assert(!paste_ok(*self));
                }
                return false;
            }
            proof {
                assert(lv[i as int] == t@);
            }
            i += 1;
        }
        let b = content.as_str().len();
        proof {
            assert(lv == crate::chars::lines_spec(paste_content(*self)));
        }
        c.col < usize::MAX && b <= usize::MAX - 1 - c.col
    }

    /// `p` (after the cursor) and `P` (`before`): see `pastes`. Refused,
    /// changing nothing, exactly when a position would go past the machine
    /// word.
    pub fn paste_step(&mut self, before: bool) -> (r: StepOutcome)
        ensures
            r != StepOutcome::Elsewhere,
            r == StepOutcome::Refused <==> !paste_ok(*old(self)),
            r == StepOutcome::Done ==> pastes(*old(self), *final(self), before),
            r == StepOutcome::Refused ==> *final(self) == *old(self),
    {
        if !self.paste_fits() {
            return StepOutcome::Refused;
        }
        self.paste(before);
        StepOutcome::Done
    }
}

/// Whether the engine carries out the Emacs action `a` itself (saving,
/// quitting, undo and redo, and answering a question are the caller's).
pub open spec fn engine_emacs(a: EmacsAction) -> bool {
    match a {
        EmacsAction::Confirm => false,
        EmacsAction::Save => false,
        EmacsAction::Quit => false,
        EmacsAction::Undo => false,
        EmacsAction::Redo => false,
        _ => true,
    }
}

/// Whether the Emacs action `a` stays within the machine word on `e` (and,
/// for a region, its lines exist).
pub open spec fn emacs_fits(e: Engine, a: EmacsAction, rows: usize) -> bool {
    let c = e.state.cursor;
    let t = e.buffer.text();
    let n = t.len();
    match a {
        EmacsAction::Right => c.col + 1 <= usize::MAX,
        EmacsAction::Down => c.line + 1 <= usize::MAX,
        EmacsAction::DeleteForward => n + c.col <= usize::MAX,
        EmacsAction::DeleteBackward => n + c.col <= usize::MAX,
        EmacsAction::Transpose => n + c.col <= usize::MAX,
        EmacsAction::KillRegion => {
            &&& e.state.mark matches Some(m) ==> ({
                let b = crate::emacs::region_bounds(m, c);
                crate::buffer::line_index(b.0 as int) < line_count(t) && crate::buffer::line_index(b.2 as int)
                    < line_count(t)
            })
            &&& e.state.mark is Some ==> e.undo_manager.node_count() < usize::MAX
        },
        EmacsAction::KillWord => crate::buffer::line_index(c.line as int) < line_count(t) && c.line < usize::MAX,
        EmacsAction::Yank => e.kill_ring.view().len() > 0 ==> c.col + e.kill_ring.view()[0].len() <= usize::MAX,
        EmacsAction::YankPop => {
            &&& e.yank_start matches Some(st) ==> (e.yank_length > 0 ==> ({
                let a = crate::text::line_start(t, sat(st.line as int, 1)) + st.col;
                &&& sat(st.line as int, 1) <= line_count(t)
                &&& a + e.yank_length <= t.len()
            }))
            &&& e.yank_start matches Some(st) ==> (e.kill_ring.view().len() > 0 ==> st.col
                + e.kill_ring.view()[((e.kill_ring.cursor() + 1) % e.kill_ring.view().len()) as int].len()
                <= usize::MAX)
        },
        EmacsAction::InsertChar(_) => c.col < usize::MAX,
        EmacsAction::Tab => c.col < usize::MAX,
        EmacsAction::Newline => c.line < usize::MAX,
        EmacsAction::PageDown => c.line + rows <= usize::MAX,
        EmacsAction::WordBackward => c.col < 2 || c.col - 1 < line_of(e, c.line as int).len(),
        _ => true,
    }
}

/// `post` is `pre` after the engine carried out the Emacs action `a` on a
/// window of `rows` rows.
pub open spec fn emacs_effect(pre: Engine, post: Engine, a: EmacsAction, rows: usize) -> bool {
    let c = pre.state.cursor;
    match a {
        EmacsAction::LineStart => normal_effect(pre, post, NormalAction::LineStart),
        EmacsAction::LineEnd => post == moved(pre, c.line as int, sat(line_of(pre, c.line as int).len() as int, 1)),
        EmacsAction::Right => normal_effect(pre, post, NormalAction::Right(1)),
        EmacsAction::Left => normal_effect(pre, post, NormalAction::Left(1)),
        EmacsAction::Down => normal_effect(pre, post, NormalAction::Down(1)),
        EmacsAction::Up => normal_effect(pre, post, NormalAction::Up(1)),
        EmacsAction::DeleteForward => deletes_char(pre, post, '"'),
        EmacsAction::DeleteBackward => crate::emacs::deletes_backward(pre, post),
        EmacsAction::KillLine => kills_line(pre, post),
        EmacsAction::SetMark => crate::emacs::sets_mark(pre, post),
        EmacsAction::KillRegion => crate::emacs::kills_region(pre, post),
        EmacsAction::KillWord => crate::emacs::kills_word(pre, post),
        EmacsAction::CopyRegion => crate::emacs::copies_region(pre, post),
        EmacsAction::Yank => crate::emacs::yanks_kill(pre, post),
        EmacsAction::YankPop => crate::emacs::pops_yank(pre, post),
        EmacsAction::SearchForward => opens_command_line(pre, post, Some('/')),
        EmacsAction::SearchBackward => opens_command_line(pre, post, Some('?')),
        EmacsAction::Transpose => crate::emacs::transposes(pre, post),
        EmacsAction::ScrollUpOne => post == if c.line > 1 {
            moved(pre, c.line - 1, c.col as int)
        } else {
            pre
        },
        EmacsAction::ClearAndCenter => post == moved(pre, max_i(sat(c.line as int, sat(rows as int, 2) / 2), 1), c.col as int),
        EmacsAction::Abort => {
            let changed = pre.state.mode == Mode::Command;
            &&& post.state.command_buffer@.len() == 0
            &&& post.state.mode == if changed { Mode::Normal } else { pre.state.mode }
            &&& post.buffer == pre.buffer
            &&& post.undo_manager == pre.undo_manager
            &&& post.state.cursor == pre.state.cursor
        },
        EmacsAction::InsertChar(ch) => crate::emacs::types_char(pre, post, ch),
        EmacsAction::Newline => crate::emacs::breaks_line(pre, post),
        EmacsAction::Tab => crate::emacs::types_tab(pre, post),
        EmacsAction::PageUp => crate::motion::pages_up(pre, post, rows),
        EmacsAction::PageDown => crate::motion::pages_down(pre, post, rows),
        EmacsAction::WordForward => crate::motion::moves_word_forward(pre, post),
        EmacsAction::WordBackward => crate::motion::moves_word_backward(pre, post),
        _ => post == pre,
    }
}

impl Engine {
    /// Whether the Emacs action `a` stays within the machine word here.
    fn emacs_fits_here(&self, a: EmacsAction, rows: usize) -> (r: bool)
        requires
            self.wf(),
        ensures
            r == emacs_fits(*self, a, rows),
    {
        let c = self.state.cursor;
        let n = self.buffer.len_chars();
        match a {
            EmacsAction::Right => c.col < usize::MAX,
            EmacsAction::Down => c.line < usize::MAX,
            EmacsAction::DeleteForward => n <= usize::MAX - c.col,
            EmacsAction::DeleteBackward => n <= usize::MAX - c.col,
            EmacsAction::Transpose => n <= usize::MAX - c.col,
            EmacsAction::KillRegion => match self.state.mark {
                Some(m) => {
                    let (l0, c0, l2, c2) = if m.line < c.line || (m.line == c.line && m.col <= c.col) {
                        (m.line, m.col, c.line, c.col)
                    } else {
                        (c.line, c.col, m.line, m.col)
                    };
                    let lc = self.buffer.line_count();
                    let i0 = if l0 >= 1 { l0 - 1 } else { 0 };
                    let i2 = if l2 >= 1 { l2 - 1 } else { 0 };
                    i0 < lc && i2 < lc && self.undo_manager.node_len() < usize::MAX
                },
                None => true,
            },
            EmacsAction::KillWord => {
                let lc = self.buffer.line_count();
                let i = if c.line >= 1 { c.line - 1 } else { 0 };
                i < lc && c.line < usize::MAX
            },
            EmacsAction::Yank => match self.kill_ring.yank() {
                Some(t) => t.unicode_len() <= usize::MAX - c.col,
                None => true,
            },
            EmacsAction::YankPop => match self.yank_start {
                Some(st) => {
                    let first = if self.yank_length > 0 {
                        let lc = self.buffer.line_count();
                        let k = st.line.saturating_sub(1);
                        if k > lc {
                            false
                        } else {
                            let ls = self.buffer.line_to_char(k);
                            ls <= n && st.col <= n - ls && self.yank_length <= n - ls - st.col
                        }
                    } else {
                        true
                    };
                    let second = if self.kill_ring.len() > 0 {
                        self.kill_ring.next_len() <= usize::MAX - st.col
                    } else {
                        true
                    };
                    first && second
                },
                None => true,
            },
            EmacsAction::InsertChar(_) => c.col < usize::MAX,
            EmacsAction::Tab => c.col < usize::MAX,
            EmacsAction::Newline => c.line < usize::MAX,
            EmacsAction::PageDown => c.line <= usize::MAX - rows,
            EmacsAction::WordBackward => c.col < 2 || c.col - 1 < self.buffer.line_char_len(c.line),
            _ => true,
        }
    }

    /// Carries out an Emacs action (see `emacs_effect`) on a window of `rows`
    /// rows. Refused, changing nothing, exactly when it would go past the
    /// machine word or a region line does not exist; saving, quitting, undo,
    /// redo and answering a question are left to the caller.
    pub fn perform_emacs(&mut self, a: EmacsAction, rows: usize) -> (r: StepOutcome)
        requires
            old(self).wf(),
        ensures
            !engine_emacs(a) <==> r == StepOutcome::Elsewhere,
            engine_emacs(a) && !emacs_fits(*old(self), a, rows) <==> r == StepOutcome::Refused,
            r == StepOutcome::Done ==> emacs_effect(*old(self), *final(self), a, rows),
            r != StepOutcome::Done ==> *final(self) == *old(self),
    {
        match a {
            EmacsAction::Confirm => {
                return StepOutcome::Elsewhere;
            },
            EmacsAction::Save => {
                return StepOutcome::Elsewhere;
            },
            EmacsAction::Quit => {
                return StepOutcome::Elsewhere;
            },
            EmacsAction::Undo => {
                return StepOutcome::Elsewhere;
            },
            EmacsAction::Redo => {
                return StepOutcome::Elsewhere;
            },
            _ => {},
        }
        if !self.emacs_fits_here(a, rows) {
            return StepOutcome::Refused;
        }
        self.carry_out_emacs(a, rows);
        StepOutcome::Done
    }

    fn carry_out_emacs(&mut self, a: EmacsAction, rows: usize)
        requires
            old(self).wf(),
            engine_emacs(a),
            emacs_fits(*old(self), a, rows),
        ensures
            emacs_effect(*old(self), *final(self), a, rows),
    {
        match a {
            EmacsAction::LineStart => self.cursor_line_start(),
            EmacsAction::LineEnd => self.cursor_line_end(),
            EmacsAction::Right => self.cursor_right(1),
            EmacsAction::Left => self.cursor_left(1),
            EmacsAction::Down => self.cursor_down(1),
            EmacsAction::Up => self.cursor_up(1),
            EmacsAction::DeleteForward => self.delete_char('"'),
            EmacsAction::DeleteBackward => self.delete_char_backward(),
            EmacsAction::KillLine => self.kill_line(),
            EmacsAction::SetMark => self.set_mark(),
            EmacsAction::KillRegion => self.kill_region(),
            EmacsAction::KillWord => self.kill_word(),
            EmacsAction::CopyRegion => self.copy_region(),
            EmacsAction::Yank => self.yank_from_kill_ring(),
            EmacsAction::YankPop => self.yank_pop(),
            EmacsAction::SearchForward => self.open_command_line(Some('/')),
            EmacsAction::SearchBackward => self.open_command_line(Some('?')),
            EmacsAction::Transpose => self.transpose_chars(),
            EmacsAction::ScrollUpOne => self.scroll_up_one(),
            EmacsAction::ClearAndCenter => self.scroll_cursor_to_center(rows),
            EmacsAction::Abort => {
                self.abort();
            },
            EmacsAction::InsertChar(ch) => self.insert_char(ch),
            EmacsAction::Newline => self.emacs_newline(),
            EmacsAction::Tab => self.insert_tab(),
            EmacsAction::PageUp => self.page_up(rows),
            EmacsAction::PageDown => self.page_down(rows),
            EmacsAction::WordForward => self.move_word_forward(),
            EmacsAction::WordBackward => self.move_word_backward(),
            _ => {},
        }
    }
}

} // verus!
