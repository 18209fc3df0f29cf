//! Vim Normal mode: what a key does, given the pending count, operator,
//! register, mark and macro prefixes.
use crate::keymap::Key;
use crate::state::OperatorState;
use crate::types::{Operator, PendingOperator, VisualType};
use vstd::prelude::*;

verus! {

/// What a Normal-mode key asks the editor to do.
#[derive(Debug, Clone, Copy, PartialEq, Eq, Structural)]
pub enum NormalAction {
    /// Nothing beyond the change of the pending state.
    Nothing,
    /// The key names the text object of a pending `y`, `d` or `c`.
    TextObject { op: Operator, register: char, inner: bool },
    /// The key completes a pending operator, repeated `count` times.
    OperatorKey { op: Operator, count: usize },
    PlayMacro(char),
    Left(usize),
    Right(usize),
    Down(usize),
    Up(usize),
    /// `i`
    Insert,
    /// `a`
    Append,
    /// `A`
    AppendLineEnd,
    /// Open the command line, starting with `:` (empty), `/` or `?`.
    CommandLine(char),
    /// `0`
    LineStart,
    /// `^`
    FirstNonBlank,
    /// `$` with a count.
    LineEnd(usize),
    /// `D`
    KillToEnd(usize),
    /// `C`
    ChangeToEnd(usize),
    /// `S`
    SubstituteLine,
    /// `*`
    SearchWord,
    SearchNext(usize),
    SearchPrev(usize),
    Undo,
    /// `r` or `R`: enter Replace mode (`replace_char` tells which).
    EnterReplace,
    /// `;` (forward) and `,` (backward).
    RepeatFind(bool),
    Visual(VisualType),
    /// `p` (after) and `P` (before).
    Paste(bool),
    StopRecording,
    /// `G`, to the given line or the last one.
    GotoLine(Option<usize>),
    MatchBracket,
    DeleteChars(usize),
    /// `.`
    RepeatLast,
    WordForward(usize),
    WordBackward(usize),
    WordEnd(usize),
    /// `o` (below) and `O` (above).
    OpenLine(bool),
    JoinLines(usize),
    /// `s`
    SubstituteChar,
    /// `~`: toggle the case of the characters under the cursor.
    ToggleCase,
}

/// The count a command uses: the pending one, or 1.
pub open spec fn count_or_one(s: OperatorState) -> usize {
    match s.count {
        Some(c) => c,
        None => 1,
    }
}

/// A digit that extends the count: 1-9, or 0 after a count.
pub open spec fn count_digit(s: OperatorState, key: Key) -> Option<usize> {
    match key {
        Key::Char(c) => if '0' <= c <= '9' && (c != '0' || s.count is Some) {
            Some((c as u32 - '0' as u32) as usize)
        } else {
            None
        },
        _ => None,
    }
}

/// The state with `op` pending, taking the selected register along.
pub open spec fn await_op(s: OperatorState, op: Operator) -> OperatorState {
    OperatorState { pending: PendingOperator::AwaitingOperator { op, register: s.register }, register: None, ..s }
}

/// The keys handled first, and what they do to the state.
pub open spec fn main_key(s: OperatorState, c: char, cmd_empty: bool, recording: bool) -> Option<(OperatorState, NormalAction)> {
    let n = count_or_one(s);
    let t = OperatorState { count: None, ..s };
    if c == 'h' {
        Some((t, NormalAction::Left(n)))
    } else if c == 'l' {
        Some((t, NormalAction::Right(n)))
    } else if c == 'j' {
        Some((t, NormalAction::Down(n)))
    } else if c == 'k' {
        Some((t, NormalAction::Up(n)))
    } else if c == 'i' {
        Some((t, NormalAction::Insert))
    } else if c == 'a' {
        Some((t, NormalAction::Append))
    } else if c == 'A' {
        Some((t, NormalAction::AppendLineEnd))
    } else if c == ':' {
        Some((t, NormalAction::CommandLine(':')))
    } else if c == '/' {
        Some((t, NormalAction::CommandLine('/')))
    } else if c == '0' {
        Some((s, NormalAction::LineStart))
    } else if c == '^' {
        Some((t, NormalAction::FirstNonBlank))
    } else if c == '$' {
        Some((t, NormalAction::LineEnd(n)))
    } else if c == 'D' {
        Some((t, NormalAction::KillToEnd(n)))
    } else if c == 'C' {
        Some((t, NormalAction::ChangeToEnd(n)))
    } else if c == 'S' {
        Some((t, NormalAction::SubstituteLine))
    } else if c == '*' {
        Some((t, NormalAction::SearchWord))
    } else if c == 'n' {
        Some((t, NormalAction::SearchNext(n)))
    } else if c == 'N' {
        Some((t, NormalAction::SearchPrev(n)))
    } else if c == '?' {
        Some((s, NormalAction::CommandLine('?')))
    } else if c == 'u' {
        Some((s, NormalAction::Undo))
    } else if c == 'r' {
        if cmd_empty {
            Some((OperatorState { replace_char: Some('\0'), ..s }, NormalAction::EnterReplace))
        } else {
            Some((s, NormalAction::Nothing))
        }
    } else if c == 'R' {
        Some((OperatorState { replace_char: None, ..s }, NormalAction::EnterReplace))
    } else if c == 'f' || c == 'F' || c == 't' || c == 'T' {
        if cmd_empty {
            let op = if c == 'f' {
                Operator::FindCharForward
            } else if c == 'F' {
                Operator::FindCharBackward
            } else if c == 't' {
                Operator::TillCharForward
            } else {
                Operator::TillCharBackward
            };
            Some((await_op(s, op), NormalAction::Nothing))
        } else {
            Some((s, NormalAction::Nothing))
        }
    } else if c == ';' {
        Some((s, NormalAction::RepeatFind(true)))
    } else if c == ',' {
        Some((s, NormalAction::RepeatFind(false)))
    } else if c == 'v' {
        Some((s, NormalAction::Visual(VisualType::Character)))
    } else if c == 'V' {
        Some((s, NormalAction::Visual(VisualType::Line)))
    } else if c == 'y' {
        Some((await_op(s, Operator::Yank), NormalAction::Nothing))
    } else if c == 'd' {
        Some((await_op(s, Operator::Delete), NormalAction::Nothing))
    } else if c == 'p' {
        Some((s, NormalAction::Paste(false)))
    } else if c == 'P' {
        Some((s, NormalAction::Paste(true)))
    } else if c == '"' {
        Some((OperatorState { register: Some('"'), ..s }, NormalAction::Nothing))
    } else if c == 'm' || c == '`' || c == '\'' {
        Some((OperatorState { mark: Some(c), ..s }, NormalAction::Nothing))
    } else if c == '@' {
        Some((OperatorState { macro_play: Some('@'), ..s }, NormalAction::Nothing))
    } else if c == 'q' {
        if !cmd_empty {
            Some((s, NormalAction::Nothing))
        } else if recording {
            Some((s, NormalAction::StopRecording))
        } else {
            Some((await_op(s, Operator::RecordMacro), NormalAction::Nothing))
        }
    } else {
        None
    }
}

/// The other keys, and what they do to the state (before the mark and
/// register prefixes are looked at).
pub open spec fn other_key(s: OperatorState, key: Key) -> (OperatorState, NormalAction) {
    let n = count_or_one(s);
    let t = OperatorState { count: None, ..s };
    match key {
        Key::Char(c) => if c == 'g' {
            (await_op(s, Operator::Goto), NormalAction::Nothing)
        } else if c == 'G' {
            (t, NormalAction::GotoLine(s.count))
        } else if c == '%' {
            (t, NormalAction::MatchBracket)
        } else if c == 'x' {
            (t, NormalAction::DeleteChars(n))
        } else if c == '.' {
            (t, NormalAction::RepeatLast)
        } else if c == 'w' {
            (t, NormalAction::WordForward(n))
        } else if c == 'b' {
            (t, NormalAction::WordBackward(n))
        } else if c == 'e' {
            (t, NormalAction::WordEnd(n))
        } else if c == 'o' {
            (t, NormalAction::OpenLine(false))
        } else if c == 'O' {
            (t, NormalAction::OpenLine(true))
        } else if c == 'c' {
            (await_op(s, Operator::Change), NormalAction::Nothing)
        } else if c == 'J' {
            (t, NormalAction::JoinLines(n))
        } else if c == '>' {
            (await_op(s, Operator::IndentRight), NormalAction::Nothing)
        } else if c == '<' {
            (await_op(s, Operator::IndentLeft), NormalAction::Nothing)
        } else if c == 'z' {
            (await_op(s, Operator::Scroll), NormalAction::Nothing)
        } else if c == 'Z' {
            (await_op(s, Operator::SaveQuit), NormalAction::Nothing)
        } else if c == 's' {
            (t, NormalAction::SubstituteChar)
        } else if c == '~' {
            (t, NormalAction::ToggleCase)
        } else {
            (s, NormalAction::Nothing)
        },
        _ => (s, NormalAction::Nothing),
    }
}

/// After one of the other keys: a pending `m`, `` ` `` or `'` takes the key
/// as a mark name (the mark request is returned), and a pending register
/// prefix takes a lowercase letter as the register.
pub open spec fn prefixes_after(s: OperatorState, key: Key) -> (OperatorState, Option<(char, char)>) {
    match s.mark {
        Some(p) => {
            let takes = match key {
                Key::Char(c) => (p == 'm' && 'a' <= c <= 'z') || p == '`' || p == '\'',
                _ => false,
            };
            if takes {
                (OperatorState { mark: None, ..s }, Some((p, key->Char_0)))
            } else {
                register_after(OperatorState { mark: None, ..s }, key)
            }
        },
        None => register_after(s, key),
    }
}

pub open spec fn register_after(s: OperatorState, key: Key) -> (OperatorState, Option<(char, char)>) {
    match s.register {
        Some(_) => match key {
            Key::Char(c) => if 'a' <= c <= 'z' {
                (OperatorState { register: Some(c), ..s }, None)
            } else {
                (OperatorState { register: None, ..s }, None)
            },
            _ => (OperatorState { register: None, ..s }, None),
        },
        None => (s, None),
    }
}

/// The state after a Normal-mode key, what the key does, and the mark to
/// set or jump to (`(prefix, name)`), if any. `cmd_empty` tells whether the
/// command line is empty and `recording` whether a macro is being recorded.
pub open spec fn normal_step(s: OperatorState, key: Key, cmd_empty: bool, recording: bool) -> (OperatorState, NormalAction, Option<(char, char)>) {
    match count_digit(s, key) {
        Some(d) => (
            OperatorState { count: Some((match s.count { Some(c) => c, None => 0usize } * 10 + d) as usize), ..s },
            NormalAction::Nothing,
            None,
        ),
        None => {
            let s1 = OperatorState { pending: PendingOperator::Idle, ..s };
            match s.pending {
                PendingOperator::AwaitingTextObject { op, register, inner } => (
                    s1,
                    match op {
                        Operator::Yank | Operator::Delete | Operator::Change => NormalAction::TextObject {
                            op,
                            register,
                            inner,
                        },
                        _ => NormalAction::Nothing,
                    },
                    None,
                ),
                PendingOperator::AwaitingOperator { op, .. } => (
                    OperatorState { count: None, ..s1 },
                    NormalAction::OperatorKey { op, count: count_or_one(s) },
                    None,
                ),
                PendingOperator::Idle => {
                    let macro_char = match key {
                        Key::Char(c) => s1.macro_play is Some && 'a' <= c <= 'z',
                        _ => false,
                    };
                    if macro_char {
                        (OperatorState { macro_play: None, ..s1 }, NormalAction::PlayMacro(key->Char_0), None)
                    } else {
                        let s2 = OperatorState { macro_play: None, ..s1 };
                        let main = match key {
                            Key::Char(c) => main_key(s2, c, cmd_empty, recording),
                            _ => None,
                        };
                        match main {
                            Some((s3, a)) => (s3, a, None),
                            None => {
                                let (s3, a) = other_key(s2, key);
                                let (s4, m) = prefixes_after(s3, key);
                                (s4, a, m)
                            },
                        }
                    }
                },
            }
        },
    }
}

/// Whether a digit key can extend the pending count without overflow.
pub open spec fn count_fits(s: OperatorState, key: Key) -> bool {
    count_digit(s, key) matches Some(d) ==> (match s.count {
        Some(c) => c,
        None => 0usize,
    }) * 10 + d <= usize::MAX
}

fn count_or_one_exec(s: OperatorState) -> (r: usize)
    ensures
        r == count_or_one(s),
{
    match s.count {
        Some(c) => c,
        None => 1,
    }
}

fn await_op_exec(s: OperatorState, op: Operator) -> (r: OperatorState)
    ensures
        r == await_op(s, op),
{
    OperatorState { pending: PendingOperator::AwaitingOperator { op, register: s.register }, register: None, ..s }
}

fn main_key_exec(s: OperatorState, c: char, cmd_empty: bool, recording: bool) -> (r: Option<(OperatorState, NormalAction)>)
    ensures
        r == main_key(s, c, cmd_empty, recording),
{
    let n = count_or_one_exec(s);
    let t = OperatorState { count: None, ..s };
    if c == 'h' {
        Some((t, NormalAction::Left(n)))
    } else if c == 'l' {
        Some((t, NormalAction::Right(n)))
    } else if c == 'j' {
        Some((t, NormalAction::Down(n)))
    } else if c == 'k' {
        Some((t, NormalAction::Up(n)))
    } else if c == 'i' {
        Some((t, NormalAction::Insert))
    } else if c == 'a' {
        Some((t, NormalAction::Append))
    } else if c == 'A' {
        Some((t, NormalAction::AppendLineEnd))
    } else if c == ':' {
        Some((t, NormalAction::CommandLine(':')))
    } else if c == '/' {
        Some((t, NormalAction::CommandLine('/')))
    } else if c == '0' {
        Some((s, NormalAction::LineStart))
    } else if c == '^' {
        Some((t, NormalAction::FirstNonBlank))
    } else if c == '$' {
        Some((t, NormalAction::LineEnd(n)))
    } else if c == 'D' {
        Some((t, NormalAction::KillToEnd(n)))
    } else if c == 'C' {
        Some((t, NormalAction::ChangeToEnd(n)))
    } else if c == 'S' {
        Some((t, NormalAction::SubstituteLine))
    } else if c == '*' {
        Some((t, NormalAction::SearchWord))
    } else if c == 'n' {
        Some((t, NormalAction::SearchNext(n)))
    } else if c == 'N' {
        Some((t, NormalAction::SearchPrev(n)))
    } else if c == '?' {
        Some((s, NormalAction::CommandLine('?')))
    } else if c == 'u' {
        Some((s, NormalAction::Undo))
    } else if c == 'r' {
        if cmd_empty {
            Some((OperatorState { replace_char: Some('\0'), ..s }, NormalAction::EnterReplace))
        } else {
            Some((s, NormalAction::Nothing))
        }
    } else if c == 'R' {
        Some((OperatorState { replace_char: None, ..s }, NormalAction::EnterReplace))
    } else if c == 'f' || c == 'F' || c == 't' || c == 'T' {
        if cmd_empty {
            let op = if c == 'f' {
                Operator::FindCharForward
            } else if c == 'F' {
                Operator::FindCharBackward
            } else if c == 't' {
                Operator::TillCharForward
            } else {
                Operator::TillCharBackward
            };
            Some((await_op_exec(s, op), NormalAction::Nothing))
        } else {
            Some((s, NormalAction::Nothing))
        }
    } else if c == ';' {
        Some((s, NormalAction::RepeatFind(true)))
    } else if c == ',' {
        Some((s, NormalAction::RepeatFind(false)))
    } else if c == 'v' {
        Some((s, NormalAction::Visual(VisualType::Character)))
    } else if c == 'V' {
        Some((s, NormalAction::Visual(VisualType::Line)))
    } else if c == 'y' {
        Some((await_op_exec(s, Operator::Yank), NormalAction::Nothing))
    } else if c == 'd' {
        Some((await_op_exec(s, Operator::Delete), NormalAction::Nothing))
    } else if c == 'p' {
        Some((s, NormalAction::Paste(false)))
    } else if c == 'P' {
        Some((s, NormalAction::Paste(true)))
    } else if c == '"' {
        Some((OperatorState { register: Some('"'), ..s }, NormalAction::Nothing))
    } else if c == 'm' || c == '`' || c == '\'' {
        Some((OperatorState { mark: Some(c), ..s }, NormalAction::Nothing))
    } else if c == '@' {
        Some((OperatorState { macro_play: Some('@'), ..s }, NormalAction::Nothing))
    } else if c == 'q' {
        if !cmd_empty {
            Some((s, NormalAction::Nothing))
        } else if recording {
            Some((s, NormalAction::StopRecording))
        } else {
            Some((await_op_exec(s, Operator::RecordMacro), NormalAction::Nothing))
        }
    } else {
        None
    }
}

fn other_key_exec(s: OperatorState, key: Key) -> (r: (OperatorState, NormalAction))
    ensures
        r == other_key(s, key),
{
    let n = count_or_one_exec(s);
    let t = OperatorState { count: None, ..s };
    match key {
        Key::Char(c) => if c == 'g' {
            (await_op_exec(s, Operator::Goto), NormalAction::Nothing)
        } else if c == 'G' {
            (t, NormalAction::GotoLine(s.count))
        } else if c == '%' {
            (t, NormalAction::MatchBracket)
        } else if c == 'x' {
            (t, NormalAction::DeleteChars(n))
        } else if c == '.' {
            (t, NormalAction::RepeatLast)
        } else if c == 'w' {
            (t, NormalAction::WordForward(n))
        } else if c == 'b' {
            (t, NormalAction::WordBackward(n))
        } else if c == 'e' {
            (t, NormalAction::WordEnd(n))
        } else if c == 'o' {
            (t, NormalAction::OpenLine(false))
        } else if c == 'O' {
            (t, NormalAction::OpenLine(true))
        } else if c == 'c' {
            (await_op_exec(s, Operator::Change), NormalAction::Nothing)
        } else if c == 'J' {
            (t, NormalAction::JoinLines(n))
        } else if c == '>' {
            (await_op_exec(s, Operator::IndentRight), NormalAction::Nothing)
        } else if c == '<' {
            (await_op_exec(s, Operator::IndentLeft), NormalAction::Nothing)
        } else if c == 'z' {
            (await_op_exec(s, Operator::Scroll), NormalAction::Nothing)
        } else if c == 'Z' {
            (await_op_exec(s, Operator::SaveQuit), NormalAction::Nothing)
        } else if c == 's' {
            (t, NormalAction::SubstituteChar)
        } else if c == '~' {
            (t, NormalAction::ToggleCase)
        } else {
            (s, NormalAction::Nothing)
        },
        _ => (s, NormalAction::Nothing),
    }
}

fn register_after_exec(s: OperatorState, key: Key) -> (r: (OperatorState, Option<(char, char)>))
    ensures
        r == register_after(s, key),
{
    match s.register {
        Some(_) => match key {
            Key::Char(c) => if 'a' <= c && c <= 'z' {
                (OperatorState { register: Some(c), ..s }, None)
            } else {
                (OperatorState { register: None, ..s }, None)
            },
            _ => (OperatorState { register: None, ..s }, None),
        },
        None => (s, None),
    }
}

fn prefixes_after_exec(s: OperatorState, key: Key) -> (r: (OperatorState, Option<(char, char)>))
    ensures
        r == prefixes_after(s, key),
{
    match s.mark {
        Some(p) => {
            match key {
                Key::Char(c) => {
                    if (p == 'm' && 'a' <= c && c <= 'z') || p == '`' || p == '\'' {
                        return (OperatorState { mark: None, ..s }, Some((p, c)));
                    }
                },
                _ => {},
            }
            register_after_exec(OperatorState { mark: None, ..s }, key)
        },
        None => register_after_exec(s, key),
    }
}

impl OperatorState {
    /// Takes a Normal-mode key: updates the pending count, operator,
    /// register, mark and macro prefixes, and returns what the key does and
    /// the mark to set or jump to, if any.
    pub fn normal_key(&mut self, key: Key, cmd_empty: bool, recording: bool) -> (r: (NormalAction, Option<(char, char)>))
        requires
            count_fits(*old(self), key),
        ensures
            (*final(self), r.0, r.1) == normal_step(*old(self), key, cmd_empty, recording),
    {
        let s = *self;
        if let Key::Char(c) = key {
            if '0' <= c && c <= '9' && (c != '0' || s.count.is_some()) {
                let d = (c as u32 - '0' as u32) as usize;
                let base = match s.count {
                    Some(c) => c,
                    None => 0,
                };
                self.count = Some(base * 10 + d);
                return (NormalAction::Nothing, None);
            }
        }
        let s1 = OperatorState { pending: PendingOperator::Idle, ..s };
        match s.pending {
            PendingOperator::AwaitingTextObject { op, register, inner } => {
                *self = s1;
                let a = match op {
                    Operator::Yank | Operator::Delete | Operator::Change => NormalAction::TextObject {
                        op,
                        register,
                        inner,
                    },
                    _ => NormalAction::Nothing,
                };
                (a, None)
            },
            PendingOperator::AwaitingOperator { op, .. } => {
                *self = OperatorState { count: None, ..s1 };
                (NormalAction::OperatorKey { op, count: count_or_one_exec(s) }, None)
            },
            PendingOperator::Idle => {
                if let Key::Char(c) = key {
                    if s1.macro_play.is_some() && 'a' <= c && c <= 'z' {
                        *self = OperatorState { macro_play: None, ..s1 };
                        return (NormalAction::PlayMacro(c), None);
                    }
                }
                let s2 = OperatorState { macro_play: None, ..s1 };
                let main = match key {
                    Key::Char(c) => main_key_exec(s2, c, cmd_empty, recording),
                    _ => None,
                };
                match main {
                    Some((s3, a)) => {
                        *self = s3;
                        (a, None)
                    },
                    None => {
                        let (s3, a) = other_key_exec(s2, key);
                        let (s4, m) = prefixes_after_exec(s3, key);
                        *self = s4;
                        (a, m)
                    },
                }
            },
        }
    }
}

/// What the key that completes an operator asks for.
#[derive(Debug, Clone, Copy, PartialEq, Eq, Structural)]
pub enum OperatorAction {
    Nothing,
    /// `yy`: yank `count` times the current line.
    YankLines { count: usize, register: char },
    /// `yw`
    YankWord(char),
    /// `ye`
    YankWordEnd(char),
    /// `dd`: delete lines, at least one.
    DeleteLines { count: usize, register: char },
    /// `dw`
    DeleteWord(char),
    /// `cc`
    ChangeLines { count: usize, register: char },
    /// `cw`
    ChangeWord(char),
    /// `>>` (right) and `<<`.
    Indent { count: usize, register: char, right: bool },
    /// `f`, `F`, `t`, `T` and their character.
    FindChar { ch: char, till: bool, forward: bool },
    StartRecording(char),
    /// `gg`
    GotoTop,
    /// `gv`
    RestoreVisual,
    /// `zz`, `zt`, `zb`
    ScrollCenter,
    ScrollTop,
    ScrollBottom,
    /// `ZZ`
    SaveQuit,
}

/// What completing `op` with `key` does; `register` is the selected one
/// (or `"`). The second part is the text object the key starts waiting
/// for, if any (`i`: inner, `a`: around).
pub open spec fn operator_step(op: Operator, key: Key, count: usize, register: char) -> (OperatorAction, PendingOperator) {
    let idle = PendingOperator::Idle;
    let object = |inner: bool| PendingOperator::AwaitingTextObject { op, register, inner };
    match op {
        Operator::Yank => match key {
            Key::Char('y') => (OperatorAction::YankLines { count, register }, idle),
            Key::Char('w') => (OperatorAction::YankWord(register), idle),
            Key::Char('e') => (OperatorAction::YankWordEnd(register), idle),
            Key::Char('i') => (OperatorAction::Nothing, object(true)),
            Key::Char('a') => (OperatorAction::Nothing, object(false)),
            _ => (OperatorAction::Nothing, idle),
        },
        Operator::Delete => match key {
            Key::Char('d') => (OperatorAction::DeleteLines { count: if count >= 1 { count } else { 1 }, register }, idle),
            Key::Char('w') => (OperatorAction::DeleteWord(register), idle),
            Key::Char('i') => (OperatorAction::Nothing, object(true)),
            Key::Char('a') => (OperatorAction::Nothing, object(false)),
            _ => (OperatorAction::Nothing, idle),
        },
        Operator::Change => match key {
            Key::Char('c') => (OperatorAction::ChangeLines { count, register }, idle),
            Key::Char('w') => (OperatorAction::ChangeWord(register), idle),
            Key::Char('i') => (OperatorAction::Nothing, object(true)),
            Key::Char('a') => (OperatorAction::Nothing, object(false)),
            _ => (OperatorAction::Nothing, idle),
        },
        Operator::IndentRight => match key {
            Key::Char('>') => (OperatorAction::Indent { count, register, right: true }, idle),
            _ => (OperatorAction::Nothing, idle),
        },
        Operator::IndentLeft => match key {
            Key::Char('<') => (OperatorAction::Indent { count, register, right: false }, idle),
            _ => (OperatorAction::Nothing, idle),
        },
        Operator::FindCharForward => match key {
            Key::Char(ch) => (OperatorAction::FindChar { ch, till: false, forward: true }, idle),
            _ => (OperatorAction::Nothing, idle),
        },
        Operator::FindCharBackward => match key {
            Key::Char(ch) => (OperatorAction::FindChar { ch, till: false, forward: false }, idle),
            _ => (OperatorAction::Nothing, idle),
        },
        Operator::TillCharForward => match key {
            Key::Char(ch) => (OperatorAction::FindChar { ch, till: true, forward: true }, idle),
            _ => (OperatorAction::Nothing, idle),
        },
        Operator::TillCharBackward => match key {
            Key::Char(ch) => (OperatorAction::FindChar { ch, till: true, forward: false }, idle),
            _ => (OperatorAction::Nothing, idle),
        },
        Operator::RecordMacro => match key {
            Key::Char(c) => if 'a' <= c <= 'z' {
                (OperatorAction::StartRecording(c), idle)
            } else {
                (OperatorAction::Nothing, idle)
            },
            _ => (OperatorAction::Nothing, idle),
        },
        Operator::Goto => match key {
            Key::Char('g') => (OperatorAction::GotoTop, idle),
            Key::Char('v') => (OperatorAction::RestoreVisual, idle),
            _ => (OperatorAction::Nothing, idle),
        },
        Operator::Scroll => match key {
            Key::Char('z') => (OperatorAction::ScrollCenter, idle),
            Key::Char('t') => (OperatorAction::ScrollTop, idle),
            Key::Char('b') => (OperatorAction::ScrollBottom, idle),
            _ => (OperatorAction::Nothing, idle),
        },
        Operator::SaveQuit => match key {
            Key::Char('Z') => (OperatorAction::SaveQuit, idle),
            _ => (OperatorAction::Nothing, idle),
        },
    }
}

fn text_object(op: Operator, register: char, inner: bool) -> (r: PendingOperator)
    ensures
        r == (PendingOperator::AwaitingTextObject { op, register, inner }),
{
    PendingOperator::AwaitingTextObject { op, register, inner }
}

impl OperatorState {
    /// Completes the pending operator `op` with `key`: uses and clears the
    /// selected register (`"` when none) and returns what to do; `i` and `a`
    /// after `y`, `d` or `c` make the operator wait for a text object.
    pub fn operator_key(&mut self, op: Operator, key: Key, count: usize) -> (r: OperatorAction)
        ensures
            ({
                let reg = match old(self).register {
                    Some(c) => c,
                    None => '"',
                };
                let (a, p) = operator_step(op, key, count, reg);
                &&& r == a
                &&& p matches PendingOperator::AwaitingTextObject { .. } ==> final(self).pending == p
                &&& p == PendingOperator::Idle ==> final(self).pending == old(self).pending
            }),
            final(self).register is None,
            final(self).count == old(self).count,
            final(self).mark == old(self).mark,
            final(self).macro_play == old(self).macro_play,
            final(self).replace_char == old(self).replace_char,
            final(self).ctrl_w_prefix == old(self).ctrl_w_prefix,
    {
        let register = match self.register {
            Some(c) => c,
            None => '"',
        };
        self.register = None;
        let idle = OperatorAction::Nothing;
        match op {
            Operator::Yank | Operator::Delete | Operator::Change => {
                match key {
                    Key::Char('i') => {
                        self.pending = text_object(op, register, true);
                        return idle;
                    },
                    Key::Char('a') => {
                        self.pending = text_object(op, register, false);
                        return idle;
                    },
                    _ => {},
                }
                match op {
                    Operator::Yank => match key {
                        Key::Char('y') => OperatorAction::YankLines { count, register },
                        Key::Char('w') => OperatorAction::YankWord(register),
                        Key::Char('e') => OperatorAction::YankWordEnd(register),
                        _ => idle,
                    },
                    Operator::Delete => match key {
                        Key::Char('d') => OperatorAction::DeleteLines {
                            count: if count >= 1 {
                                count
                            } else {
                                1
                            },
                            register,
                        },
                        Key::Char('w') => OperatorAction::DeleteWord(register),
                        _ => idle,
                    },
                    _ => match key {
                        Key::Char('c') => OperatorAction::ChangeLines { count, register },
                        Key::Char('w') => OperatorAction::ChangeWord(register),
                        _ => idle,
                    },
                }
            },
            Operator::IndentRight => match key {
                Key::Char('>') => OperatorAction::Indent { count, register, right: true },
                _ => idle,
            },
            Operator::IndentLeft => match key {
                Key::Char('<') => OperatorAction::Indent { count, register, right: false },
                _ => idle,
            },
            Operator::FindCharForward => match key {
                Key::Char(ch) => OperatorAction::FindChar { ch, till: false, forward: true },
                _ => idle,
            },
            Operator::FindCharBackward => match key {
                Key::Char(ch) => OperatorAction::FindChar { ch, till: false, forward: false },
                _ => idle,
            },
            Operator::TillCharForward => match key {
                Key::Char(ch) => OperatorAction::FindChar { ch, till: true, forward: true },
                _ => idle,
            },
            Operator::TillCharBackward => match key {
                Key::Char(ch) => OperatorAction::FindChar { ch, till: true, forward: false },
                _ => idle,
            },
            Operator::RecordMacro => match key {
                Key::Char(c) => if 'a' <= c && c <= 'z' {
                    OperatorAction::StartRecording(c)
                } else {
                    idle
                },
                _ => idle,
            },
            Operator::Goto => match key {
                Key::Char('g') => OperatorAction::GotoTop,
                Key::Char('v') => OperatorAction::RestoreVisual,
                _ => idle,
            },
            Operator::Scroll => match key {
                Key::Char('z') => OperatorAction::ScrollCenter,
                Key::Char('t') => OperatorAction::ScrollTop,
                Key::Char('b') => OperatorAction::ScrollBottom,
                _ => idle,
            },
            Operator::SaveQuit => match key {
                Key::Char('Z') => OperatorAction::SaveQuit,
                _ => idle,
            },
        }
    }
}

} // verus!
