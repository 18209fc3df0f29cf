//! Transient editing state: pending operators, search, insert sessions and
//! yank cycles.
use crate::types::{PendingOperator, Position, SearchDirection, SearchResult};
use vstd::prelude::*;

verus! {

/// Cursor state of Emacs yank-pop cycles.
#[derive(Debug, Clone, Copy)]
pub struct CursorState {
    /// Cursor position before the last yank.
    pub yank_start: Option<Position>,
    /// Number of characters inserted by the last yank.
    pub yank_length: usize,
}

impl Default for CursorState {
    fn default() -> (r: Self)
        ensures
            r.yank_start is None,
            r.yank_length == 0,
    {
        CursorState { yank_start: None, yank_length: 0 }
    }
}

/// State accumulated while a Vim operator waits for its motion or target.
#[derive(Debug, Clone, Copy)]
pub struct OperatorState {
    pub pending: PendingOperator,
    /// Numeric count prefix (e.g. `3` in `3j`).
    pub count: Option<usize>,
    /// Register selected with the `"` prefix.
    pub register: Option<char>,
    /// Pending mark operation (`m`, `` ` `` or `'`).
    pub mark: Option<char>,
    /// Pending macro playback (`@`).
    pub macro_play: Option<char>,
    /// Character to replace with in Replace mode.
    pub replace_char: Option<char>,
    /// Ctrl-w prefix: waiting for the second key.
    pub ctrl_w_prefix: bool,
}

impl Default for OperatorState {
    fn default() -> (r: Self)
        ensures
            r.pending == PendingOperator::Idle,
            r.count is None,
            r.register is None,
            r.mark is None,
            r.macro_play is None,
            r.replace_char is None,
            !r.ctrl_w_prefix,
    {
        OperatorState {
            pending: PendingOperator::Idle,
            count: None,
            register: None,
            mark: None,
            macro_play: None,
            replace_char: None,
            ctrl_w_prefix: false,
        }
    }
}

impl OperatorState {
    /// Clears all pending operator state.
    pub fn reset(&mut self)
        ensures
            final(self).pending == PendingOperator::Idle,
            final(self).count is None,
            final(self).register is None,
            final(self).mark is None,
            final(self).macro_play is None,
            final(self).replace_char is None,
            !final(self).ctrl_w_prefix,
    {
        self.pending = PendingOperator::Idle;
        self.count = None;
        self.register = None;
        self.mark = None;
        self.macro_play = None;
        self.replace_char = None;
        self.ctrl_w_prefix = false;
    }

    /// Takes the accumulated count, 1 when there is none.
    pub fn take_count(&mut self) -> (r: usize)
        ensures
            r == match old(self).count {
                Some(c) => c,
                None => 1,
            },
            final(self).count is None,
            final(self).pending == old(self).pending,
            final(self).register == old(self).register,
            final(self).mark == old(self).mark,
            final(self).macro_play == old(self).macro_play,
            final(self).replace_char == old(self).replace_char,
            final(self).ctrl_w_prefix == old(self).ctrl_w_prefix,
    {
        let c = self.count.take();
        match c {
            Some(c) => c,
            None => 1,
        }
    }
}

/// Search state for `*`, `/`, `?`, `n`, `N` and `f`/`F`/`t`/`T`.
#[derive(Debug, Clone)]
pub struct SearchState {
    pub query: String,
    pub direction: SearchDirection,
    pub results: Vec<SearchResult>,
    /// Index into `results` of the current match.
    pub current_idx: usize,
    /// Last character searched with `f`/`F`/`t`/`T`.
    pub last_fchar: Option<char>,
    /// Whether that search was a `t`/`T` (till) search.
    pub last_fchar_till: bool,
}

impl Default for SearchState {
    fn default() -> (r: Self)
        ensures
            r.query@.len() == 0,
            r.direction == SearchDirection::Forward,
            r.results@.len() == 0,
            r.current_idx == 0,
            r.last_fchar is None,
            !r.last_fchar_till,
    {
        SearchState {
            query: String::new(),
            direction: SearchDirection::Forward,
            results: Vec::new(),
            current_idx: 0,
            last_fchar: None,
            last_fchar_till: false,
        }
    }
}

/// Insert-mode session state, grouped into one undo entry on leaving.
#[derive(Debug, Clone)]
pub struct InsertState {
    /// Characters typed during the session.
    pub accum: String,
    /// Cursor position when insert mode was entered.
    pub start_pos: Option<Position>,
    /// Set by Ctrl-r: the next key selects a register to insert.
    pub waiting_register: bool,
}

impl Default for InsertState {
    fn default() -> (r: Self)
        ensures
            r.accum@.len() == 0,
            r.start_pos is None,
            !r.waiting_register,
    {
        InsertState { accum: String::new(), start_pos: None, waiting_register: false }
    }
}

} // verus!
