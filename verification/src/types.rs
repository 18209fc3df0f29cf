//! Core value types of the editor: positions, modes, operators, marks,
//! macros, messages, the kill ring and the editor state.
use crate::assoc::{alist_find, alist_map, lemma_alist_store};
use crate::strutil::string_of;
use std::collections::VecDeque;
use std::path::PathBuf;
use std::time::Instant;
use vstd::prelude::*;

verus! {

#[verifier::external_type_specification]
#[verifier::external_body]
pub struct ExIoError(std::io::Error);

#[verifier::external_type_specification]
#[verifier::external_body]
pub struct ExInstant(std::time::Instant);

/// `Instant::clone` gives the same instant.
pub assume_specification[ <std::time::Instant as Clone>::clone ](t: &Instant) -> (r: Instant)
    ensures
        r == *t,
;

/// `Instant::now`: the current time.
#[verifier::external_body]
pub(crate) fn instant_now() -> Instant {
    Instant::now()
}

/// Message severity level for UI display.
#[derive(Debug, Clone, Copy, PartialEq, Eq, Structural)]
pub enum MessageLevel {
    Info,
    Warning,
    Error,
}

impl Default for MessageLevel {
    fn default() -> (r: Self)
        ensures
            r == MessageLevel::Info,
    {
        MessageLevel::Info
    }
}

/// A structured message with level and timestamp.
#[derive(Debug, Clone)]
pub struct EditorMessage {
    pub text: String,
    pub level: MessageLevel,
    pub timestamp: Instant,
}

/// Crate-wide error type.
#[derive(Debug)]
pub enum IjevimError {
    Io(std::io::Error),
    Plugin(String),
    Terminal(String),
    NoFilePath,
}

#[derive(Debug, Clone, Copy, PartialEq, Eq, Structural)]
pub enum Keymap {
    Vim,
    Emacs,
    /// Review mode: a temporary overlay for code review workflows.
    Review,
}

impl Default for Keymap {
    fn default() -> (r: Self)
        ensures
            r == Keymap::Vim,
    {
        Keymap::Vim
    }
}

impl Keymap {
    /// The keymap's name as shown to the user: `vim`, `emacs` or `review`.
    pub fn name(&self) -> (r: String)
        ensures
            r@ == match *self {
                Keymap::Vim => "vim"@,
                Keymap::Emacs => "emacs"@,
                Keymap::Review => "review"@,
            },
    {
        match self {
            Keymap::Vim => String::from_str("vim"),
            Keymap::Emacs => String::from_str("emacs"),
            Keymap::Review => String::from_str("review"),
        }
    }
}

/// Vim operator kind.
#[derive(Debug, Clone, Copy, PartialEq, Eq, Structural)]
pub enum Operator {
    Delete,
    Yank,
    Change,
    IndentRight,
    IndentLeft,
    FindCharForward,
    FindCharBackward,
    TillCharForward,
    TillCharBackward,
    RecordMacro,
    Goto,
    Scroll,
    SaveQuit,
}

/// Pending Vim operator state: after an operator key the editor waits for a
/// motion, a text object or a second key.
#[derive(Debug, Clone, Copy, PartialEq, Eq, Structural)]
pub enum PendingOperator {
    Idle,
    AwaitingOperator { op: Operator, register: Option<char> },
    AwaitingTextObject { op: Operator, register: char, inner: bool },
}

impl Default for PendingOperator {
    fn default() -> (r: Self)
        ensures
            r == PendingOperator::Idle,
    {
        PendingOperator::Idle
    }
}

#[derive(Debug, Clone, Copy, PartialEq, Eq, Structural)]
pub enum Mode {
    Normal,
    Insert,
    Command,
    Visual,
    Replace,
}

impl Mode {
    /// The mode's name as shown in the status line.
    pub fn name(&self) -> (r: String)
        ensures
            r@ == match *self {
                Mode::Normal => "NORMAL"@,
                Mode::Insert => "INSERT"@,
                Mode::Command => "COMMAND"@,
                Mode::Visual => "VISUAL"@,
                Mode::Replace => "REPLACE"@,
            },
    {
        match self {
            Mode::Normal => String::from_str("NORMAL"),
            Mode::Insert => String::from_str("INSERT"),
            Mode::Command => String::from_str("COMMAND"),
            Mode::Visual => String::from_str("VISUAL"),
            Mode::Replace => String::from_str("REPLACE"),
        }
    }
}

#[derive(Debug, Clone, Copy, PartialEq, Eq, Structural)]
pub enum VisualType {
    Character,
    Line,
    Block,
}

#[derive(Debug, Clone, Copy, PartialEq, Eq, Structural)]
pub struct SearchResult {
    pub line: usize,
    pub start_col: usize,
}

#[derive(Debug, Clone, Copy, PartialEq, Eq, Structural)]
pub enum SearchDirection {
    Forward,
    Backward,
}

#[derive(Debug, Clone, Copy, PartialEq, Eq, Structural)]
pub struct Position {
    pub line: usize,
    pub col: usize,
}

impl Default for Position {
    fn default() -> (p: Self)
        ensures
            p == (Position { line: 0, col: 0 }),
    {
        Position { line: 0, col: 0 }
    }
}

/// Named cursor positions.
#[derive(Clone, Debug)]
pub struct Marks {
    marks: Vec<(char, Position)>,
}

impl Marks {
    pub closed spec fn view(&self) -> Map<char, Position> {
        alist_map(self.marks@)
    }

    pub fn new() -> (m: Self)
        ensures
            m.view() == Map::<char, Position>::empty(),
    {
        let m = Marks { marks: Vec::new() };
        assert(m.view() =~= Map::<char, Position>::empty());
        m
    }

    pub fn set(&mut self, name: char, position: Position)
        ensures
            final(self).view() == old(self).view().insert(name, position),
    {
        let ghost v = self.marks@;
        match alist_find(&self.marks, name) {
            Some(i) => {
                self.marks.set(i, (name, position));
            },
            None => {
                self.marks.push((name, position));
            },
        }
        proof {
            lemma_alist_store(v, self.marks@, name, position);
        }
    }

    pub fn get(&self, name: char) -> (r: Option<Position>)
        ensures
            r == (if self.view().contains_key(name) {
                Some(self.view()[name])
            } else {
                None
            }),
    {
        proof {
            crate::assoc::lemma_alist_get(self.marks@, name);
        }
        match alist_find(&self.marks, name) {
            Some(i) => {
                proof {
                    crate::assoc::lemma_alist_get_at(self.marks@, i as int, name);
                }
                Some(self.marks[i].1)
            },
            None => {
                proof {
                    crate::assoc::lemma_alist_get_none(self.marks@, name);
                }
                None
            },
        }
    }
}

/// A mark read back after it was set gives the position it was set to, and
/// setting one mark leaves every other mark as it was.
pub proof fn lemma_mark_set_get(marks: Map<char, Position>, name: char, position: Position, other: char)
    ensures
        marks.insert(name, position).contains_key(name),
        marks.insert(name, position)[name] == position,
        other != name ==> (marks.insert(name, position).contains_key(other) == marks.contains_key(
            other,
        )),
        other != name && marks.contains_key(other) ==> marks.insert(name, position)[other]
            == marks[other],
{
}

impl Default for Marks {
    fn default() -> (m: Self)
        ensures
            m.view() == Map::<char, Position>::empty(),
    {
        Marks::new()
    }
}

/// Recursion depth limit for macro playback.
pub const MACRO_MAX_DEPTH: usize = 20;

/// Recorded keyboard macros, the register being recorded into, and the
/// playback depth.
#[derive(Clone, Debug)]
pub struct Macros {
    macros: Vec<(char, Vec<String>)>,
    recording: Option<char>,
    depth: usize,
}

impl Macros {
    /// The keys recorded in each register.
    pub closed spec fn view(&self) -> Map<char, Vec<String>> {
        alist_map(self.macros@)
    }

    pub closed spec fn recording_into(&self) -> Option<char> {
        self.recording
    }

    pub closed spec fn playback_depth(&self) -> usize {
        self.depth
    }

    pub fn new() -> (m: Self)
        ensures
            m.view() == Map::<char, Vec<String>>::empty(),
            m.recording_into() is None,
            m.playback_depth() == 0,
    {
        let m = Macros { macros: Vec::new(), recording: None, depth: 0 };
        assert(m.view() =~= Map::<char, Vec<String>>::empty());
        m
    }

    /// Starts recording into register `name`, creating it empty if absent.
    pub fn start_recording(&mut self, name: char)
        ensures
            final(self).recording_into() == Some(name),
            final(self).playback_depth() == old(self).playback_depth(),
            old(self).view().contains_key(name) ==> final(self).view() == old(self).view(),
            !old(self).view().contains_key(name) ==> final(self).view().contains_key(name)
                && final(self).view()[name]@.len() == 0 && final(self).view().remove(name)
                == old(self).view(),
    {
        self.recording = Some(name);
        proof {
            crate::assoc::lemma_alist_get(self.macros@, name);
        }
        match alist_find(&self.macros, name) {
            Some(i) => {
                proof {
                    crate::assoc::lemma_alist_get_at(self.macros@, i as int, name);
                }
            },
            None => {
                let ghost v = self.macros@;
                proof {
                    crate::assoc::lemma_alist_get_none(self.macros@, name);
                }
                let e: Vec<String> = Vec::new();
                self.macros.push((name, e));
                proof {
                    lemma_alist_store(v, self.macros@, name, e);
                    assert(self.view().remove(name) =~= old(self).view());
                }
            },
        }
    }

    /// Stops recording and returns the register that was being recorded.
    /// The last recorded key (the one that stopped the recording) is dropped.
    pub fn stop_recording(&mut self) -> (r: Option<char>)
        ensures
            r == old(self).recording_into(),
            final(self).recording_into() is None,
            final(self).playback_depth() == old(self).playback_depth(),
            final(self).view().dom() == old(self).view().dom(),
            forall|k: char|
                #![trigger final(self).view()[k]]
                old(self).view().contains_key(k) ==> final(self).view()[k]@ == if old(
                    self,
                ).recording_into() == Some(k) && old(self).view()[k]@.len() > 0 {
                    old(self).view()[k]@.drop_last()
                } else {
                    old(self).view()[k]@
                },
    {
        if let Some(name) = self.recording {
            self.update_keys(name, false, String::new());
        } else {
            assert(self.view() =~= old(self).view());
        }
        self.recording.take()
    }

    /// Appends `key` to the register being recorded, if any.
    pub fn add_key(&mut self, key: String)
        ensures
            final(self).recording_into() == old(self).recording_into(),
            final(self).playback_depth() == old(self).playback_depth(),
            final(self).view().dom() == old(self).view().dom(),
            forall|k: char|
                #![trigger final(self).view()[k]]
                old(self).view().contains_key(k) ==> final(self).view()[k]@ == if old(
                    self,
                ).recording_into() == Some(k) {
                    old(self).view()[k]@.push(key)
                } else {
                    old(self).view()[k]@
                },
    {
        if let Some(name) = self.recording {
            self.update_keys(name, true, key);
        } else {
            assert(self.view() =~= old(self).view());
        }
    }

    /// In register `name` (if present): push `key` when `push`, else pop the last key.
    fn update_keys(&mut self, name: char, push: bool, key: String)
        ensures
            final(self).recording_into() == old(self).recording_into(),
            final(self).playback_depth() == old(self).playback_depth(),
            final(self).view().dom() == old(self).view().dom(),
            forall|k: char|
                #![trigger final(self).view()[k]]
                old(self).view().contains_key(k) ==> final(self).view()[k]@ == if k == name {
                    if push {
                        old(self).view()[k]@.push(key)
                    } else if old(self).view()[k]@.len() > 0 {
                        old(self).view()[k]@.drop_last()
                    } else {
                        old(self).view()[k]@
                    }
                } else {
                    old(self).view()[k]@
                },
    {
        let ghost v = self.macros@;
        proof {
            crate::assoc::lemma_alist_get(v, name);
        }
        match alist_find(&self.macros, name) {
            Some(i) => {
                proof {
                    crate::assoc::lemma_alist_get_at(v, i as int, name);
                }
                let mut entry = self.macros.remove(i);
                if push {
                    entry.1.push(key);
                } else {
                    entry.1.pop();
                }
                self.macros.insert(i, entry);
                proof {
                    assert(self.macros@ =~= v.update(i as int, entry));
                    lemma_alist_store(v, self.macros@, name, entry.1);
                    assert(self.view().dom() =~= old(self).view().dom());
                }
            },
            None => {
                proof {
                    crate::assoc::lemma_alist_get_none(v, name);
                    assert(self.view().dom() =~= old(self).view().dom());
                }
            },
        }
    }

    /// The keys recorded in register `name`.
    pub fn get(&self, name: char) -> (r: Option<&Vec<String>>)
        ensures
            r == (if self.view().contains_key(name) {
                Some(&self.view()[name])
            } else {
                None
            }),
    {
        proof {
            crate::assoc::lemma_alist_get(self.macros@, name);
        }
        match alist_find(&self.macros, name) {
            Some(i) => {
                proof {
                    crate::assoc::lemma_alist_get_at(self.macros@, i as int, name);
                }
                Some(&self.macros[i].1)
            },
            None => {
                proof {
                    crate::assoc::lemma_alist_get_none(self.macros@, name);
                }
                None
            },
        }
    }

    pub fn is_recording(&self) -> (r: bool)
        ensures
            r == self.recording_into() is Some,
    {
        self.recording.is_some()
    }

    /// Enters macro playback; refused (`false`) at the depth limit.
    pub fn enter_playback(&mut self) -> (r: bool)
        ensures
            r == (old(self).playback_depth() < MACRO_MAX_DEPTH),
            final(self).playback_depth() == if r {
                old(self).playback_depth() + 1
            } else {
                old(self).playback_depth() as int
            },
            final(self).view() == old(self).view(),
            final(self).recording_into() == old(self).recording_into(),
    {
        if self.depth >= MACRO_MAX_DEPTH {
            return false;
        }
        self.depth += 1;
        true
    }

    /// Leaves macro playback, decrementing the depth (not below zero).
    pub fn exit_playback(&mut self)
        ensures
            final(self).playback_depth() == if old(self).playback_depth() > 0 {
                old(self).playback_depth() - 1
            } else {
                0
            },
            final(self).view() == old(self).view(),
            final(self).recording_into() == old(self).recording_into(),
    {
        self.depth = self.depth.saturating_sub(1);
    }
}

impl Default for Macros {
    fn default() -> (m: Self)
        ensures
            m.view() == Map::<char, Vec<String>>::empty(),
            m.recording_into() is None,
            m.playback_depth() == 0,
    {
        Macros::new()
    }
}

/// A single entry in a directory listing buffer.
#[derive(Debug, Clone)]
pub struct DirEntry {
    /// Display name (e.g. "dir_name/" for directories).
    pub name: String,
    /// Absolute path of the entry.
    pub path: PathBuf,
    /// True if this entry is a directory.
    pub is_dir: bool,
}

#[derive(Debug, Clone)]
pub enum PluginEvent {
    ModeChange { from: Mode, to: Mode },
    BufferChange,
    Key {
        mode: Mode,
        /// String representation of the key (e.g. "a", "Enter", "Esc", "F1").
        key: String,
    },
    BufferSave { file_path: Option<PathBuf> },
    /// All plugins have been loaded and set up.
    Ready,
}

#[derive(Clone, Copy, Debug, PartialEq, Eq, Structural)]
pub enum ConfirmAction {
    Quit,
    QuitDiscard,
    WriteQuitAll,
    ReloadDiscard,
}

#[derive(Clone, Debug)]
pub struct ConfirmationPrompt {
    pub message: String,
    pub action: ConfirmAction,
}

/// Maximum number of entries kept in the message history.
pub const MESSAGE_HISTORY_MAX: usize = 100;

/// Editor state shared by all keymaps.
#[derive(Debug)]
pub struct EditorState {
    pub mode: Mode,
    pub cursor: Position,
    pub file_path: Option<PathBuf>,
    pub dirty: bool,
    pub command_buffer: String,
    /// Cursor position within `command_buffer`.
    pub command_cursor_pos: usize,
    pub last_message: Option<String>,
    pub visual_start: Option<Position>,
    pub visual_type: Option<VisualType>,
    pub last_visual_start: Option<Position>,
    pub last_visual_type: Option<VisualType>,
    pub marks: Marks,
    pub macros: Macros,
    pub confirmation_prompt: Option<ConfirmationPrompt>,
    pub show_line_numbers: bool,
    pub show_relative_numbers: bool,
    pub hlsearch: bool,
    pub wrap: bool,
    pub mark: Option<Position>,
    pub region_active: bool,
    /// Display width of a tab character.
    pub tabstop: usize,
    /// Number of spaces for each indentation level.
    pub shiftwidth: usize,
    /// Insert spaces instead of tab characters.
    pub expandtab: bool,
    /// Number of lines to keep visible above/below the cursor.
    pub scrolloff: usize,
    /// Message history (at most `MESSAGE_HISTORY_MAX` entries kept by `push_message`).
    pub message_history: VecDeque<EditorMessage>,
    /// Show the welcome dashboard instead of an empty buffer.
    pub show_dashboard: bool,
}

impl Default for EditorState {
    fn default() -> (s: Self)
        ensures
            s.mode == Mode::Normal,
            s.cursor == (Position { line: 1, col: 0 }),
            s.file_path is None,
            !s.dirty,
            s.command_buffer@.len() == 0,
            s.command_cursor_pos == 0,
            s.last_message is None,
            s.visual_start is None,
            s.visual_type is None,
            s.last_visual_start is None,
            s.last_visual_type is None,
            s.marks.view() == Map::<char, Position>::empty(),
            s.macros.view() == Map::<char, Vec<String>>::empty(),
            s.macros.recording_into() is None,
            s.macros.playback_depth() == 0,
            s.confirmation_prompt is None,
            s.show_line_numbers,
            !s.show_relative_numbers,
            s.hlsearch,
            s.wrap,
            s.mark is None,
            !s.region_active,
            s.tabstop == 8,
            s.shiftwidth == 4,
            !s.expandtab,
            s.scrolloff == 0,
            s.message_history@.len() == 0,
            !s.show_dashboard,
    {
        EditorState {
            mode: Mode::Normal,
            cursor: Position { line: 1, col: 0 },
            file_path: None,
            dirty: false,
            command_buffer: String::new(),
            command_cursor_pos: 0,
            last_message: None,
            visual_start: None,
            visual_type: None,
            last_visual_start: None,
            last_visual_type: None,
            marks: Marks::new(),
            macros: Macros::new(),
            confirmation_prompt: None,
            show_line_numbers: true,
            show_relative_numbers: false,
            hlsearch: true,
            wrap: true,
            mark: None,
            region_active: false,
            tabstop: 8,
            shiftwidth: 4,
            expandtab: false,
            scrolloff: 0,
            message_history: VecDeque::new(),
            show_dashboard: false,
        }
    }
}

impl EditorState {
    pub fn has_confirmation(&self) -> (r: bool)
        ensures
            r == self.confirmation_prompt is Some,
    {
        self.confirmation_prompt.is_some()
    }

    pub fn set_confirmation(&mut self, message: String, action: ConfirmAction)
        ensures
            final(self).confirmation_prompt matches Some(p) && p.message == message && p.action
                == action,
            final(self).mode == old(self).mode,
            final(self).cursor == old(self).cursor,
            final(self).last_message == old(self).last_message,
            *final(self) == (EditorState { confirmation_prompt: final(self).confirmation_prompt, ..*old(self) }),
    {
        self.confirmation_prompt = Some(ConfirmationPrompt { message, action });
    }

    pub fn clear_confirmation(&mut self)
        ensures
            final(self).confirmation_prompt is None,
            final(self).mode == old(self).mode,
            final(self).cursor == old(self).cursor,
            final(self).last_message == old(self).last_message,
            *final(self) == (EditorState { confirmation_prompt: None, ..*old(self) }),
    {
        self.confirmation_prompt = None;
    }

    /// Shows `msg` in the status line and records it as an `Info` message.
    pub fn set_message(&mut self, msg: String)
        ensures
            final(self).last_message == Some(msg),
            msg_views(final(self).message_history@) == history_after(
                msg_views(old(self).message_history@),
                MessageLevel::Info,
                msg@,
            ),
            final(self).mode == old(self).mode,
            final(self).cursor == old(self).cursor,
    {
        self.push_message(MessageLevel::Info, msg);
    }

    /// Shows `msg` in the status line and appends it to the history, which
    /// then drops its oldest entry if it holds more than `MESSAGE_HISTORY_MAX`.
    pub fn push_message(&mut self, level: MessageLevel, msg: String)
        ensures
            final(self).last_message == Some(msg),
            *final(self) == (EditorState {
                message_history: final(self).message_history,
                last_message: final(self).last_message,
                ..*old(self)
            }),
            msg_views(final(self).message_history@) == history_after(
                msg_views(old(self).message_history@),
                level,
                msg@,
            ),
            final(self).mode == old(self).mode,
            final(self).cursor == old(self).cursor,
    {
        let text = msg;
        self.last_message = Some(text.clone());
        let m = EditorMessage { text, level, timestamp: instant_now() };
        let ghost h = self.message_history@;
        self.message_history.push_back(m);
        if self.message_history.len() > MESSAGE_HISTORY_MAX {
            self.message_history.pop_front();
        }
        proof {
            assert(msg_views(self.message_history@) =~= history_after(msg_views(h), level, m.text@));
        }
    }

    /// Clears the transient message.
    pub fn clear_message(&mut self)
        ensures
            final(self).last_message is None,
            final(self).message_history@ == old(self).message_history@,
            final(self).mode == old(self).mode,
            final(self).cursor == old(self).cursor,
    {
        self.last_message = None;
    }
}

/// Maximum number of entries of a kill ring.
pub const KILL_RING_MAX: usize = 60;

/// The kill ring: Emacs kill history, newest entry first, with a cursor
/// used to cycle through older entries (yank-pop).
pub struct KillRing {
    entries: Vec<String>,
    index: usize,
    max_entries: usize,
}

impl KillRing {
    #[verifier::type_invariant]
    spec fn inv(&self) -> bool {
        &&& self.max_entries == KILL_RING_MAX
        &&& self.entries@.len() <= KILL_RING_MAX
        &&& (self.entries@.len() == 0 ==> self.index == 0)
        &&& (self.entries@.len() > 0 ==> self.index < self.entries@.len())
    }

    /// The entries, newest first.
    pub closed spec fn view(&self) -> Seq<Seq<char>> {
        self.entries@.map_values(|e: String| e@)
    }

    /// The position reached by yank-pop cycling.
    pub closed spec fn cursor(&self) -> nat {
        self.index as nat
    }

    pub fn new() -> (k: Self)
        ensures
            k.view() == Seq::<Seq<char>>::empty(),
            k.cursor() == 0,
    {
        let k = KillRing { entries: Vec::new(), index: 0, max_entries: KILL_RING_MAX };
        assert(k.view() =~= Seq::<Seq<char>>::empty());
        k
    }

    /// Puts `text` in front as the newest entry (dropping the oldest one when
    /// full) and resets the cursor; an empty text is ignored.
    pub fn push(&mut self, text: &str)
        ensures
            text@.len() == 0 ==> final(self).view() == old(self).view() && final(self).cursor()
                == old(self).cursor(),
            text@.len() > 0 ==> final(self).cursor() == 0 && final(self).view() == kill_ring_pushed(
                old(self).view(),
                text@,
            ),
    {
        proof {
            use_type_invariant(&*self);
        }
        if text.is_empty() {
            return;
        }
        let mut entries = self.entries.clone();
        assert(entries@ =~= self.entries@);
        let ghost e0 = entries@;
        if entries.len() >= self.max_entries {
            entries.pop();
        }
        let ghost e1 = entries@;
        entries.insert(0, String::from_str(text));
        proof {
            assert(entries@.map_values(|e: String| e@) =~= seq![text@] + e1.map_values(
                |e: String| e@,
            ));
            if e0.len() >= KILL_RING_MAX {
                assert(e1.map_values(|e: String| e@) =~= e0.map_values(|e: String| e@).drop_last());
            }
        }
        *self = KillRing { entries, index: 0, max_entries: self.max_entries };
    }

    /// The newest entry.
    pub fn yank(&self) -> (r: Option<&str>)
        ensures
            self.view().len() == 0 ==> r is None,
            self.view().len() > 0 ==> (r matches Some(t) && t@ == self.view()[0]),
    {
        if self.entries.len() > 0 {
            Some(self.entries[0].as_str())
        } else {
            None
        }
    }

    /// The entry at the cursor.
    pub fn current_yank(&self) -> (r: Option<&str>)
        ensures
            self.view().len() == 0 ==> r is None,
            self.view().len() > 0 ==> (r matches Some(t) && t@ == self.view()[self.cursor() as int]),
    {
        proof {
            use_type_invariant(self);
        }
        if self.index < self.entries.len() {
            Some(self.entries[self.index].as_str())
        } else {
            None
        }
    }

    /// Characters of the entry after the cursor (wrapping to the newest), or
    /// 0 for an empty ring.
    pub fn next_len(&self) -> (r: usize)
        ensures
            self.view().len() > 0 ==> r == self.view()[((self.cursor() + 1) % self.view().len()) as int].len(),
    {
        proof {
            use_type_invariant(self);
        }
        if self.entries.is_empty() {
            return 0;
        }
        let next = (self.index + 1) % self.entries.len();
        self.entries[next].as_str().unicode_len()
    }

    /// Moves the cursor to the next older entry (wrapping to the newest) and
    /// returns that entry.
    pub fn yank_pop(&mut self) -> (r: Option<&str>)
        ensures
            final(self).view() == old(self).view(),
            old(self).view().len() == 0 ==> r is None && final(self).cursor() == old(self).cursor(),
            old(self).view().len() > 0 ==> final(self).cursor() == (old(self).cursor() + 1) % old(
                self,
            ).view().len() && (r matches Some(t) && t@ == old(self).view()[final(self).cursor() as int]),
    {
        proof {
            use_type_invariant(&*self);
        }
        if self.entries.is_empty() {
            return None;
        }
        let next = (self.index + 1) % self.entries.len();
        let entries = self.entries.clone();
        assert(entries@ =~= self.entries@);
        *self = KillRing { entries, index: next, max_entries: self.max_entries };
        Some(self.entries[self.index].as_str())
    }

    pub fn reset_index(&mut self)
        ensures
            final(self).view() == old(self).view(),
            final(self).cursor() == 0,
    {
        proof {
            use_type_invariant(&*self);
        }
        let entries = self.entries.clone();
        assert(entries@ =~= self.entries@);
        *self = KillRing { entries, index: 0, max_entries: KILL_RING_MAX };
    }

    /// Number of entries; never more than `KILL_RING_MAX`.
    pub fn len(&self) -> (r: usize)
        ensures
            r == self.view().len(),
            r <= KILL_RING_MAX,
    {
        proof {
            use_type_invariant(self);
        }
        self.entries.len()
    }

    pub fn is_empty(&self) -> (r: bool)
        ensures
            r == (self.view().len() == 0),
    {
        self.entries.is_empty()
    }
}

/// The entries of a kill ring after `text` was killed: `text` in front, the
/// oldest entry dropped when the ring was full.
pub open spec fn kill_ring_pushed(entries: Seq<Seq<char>>, text: Seq<char>) -> Seq<Seq<char>> {
    seq![text] + if entries.len() >= KILL_RING_MAX {
        entries.drop_last()
    } else {
        entries
    }
}

/// Killing a non-empty text makes it the entry that the next yank gives, keeps
/// every other entry in order behind it but the oldest one of a full ring, and
/// never lets the ring grow past `KILL_RING_MAX`.
pub proof fn lemma_kill_then_yank(entries: Seq<Seq<char>>, text: Seq<char>)
    requires
        entries.len() <= KILL_RING_MAX,
        text.len() > 0,
    ensures
        kill_ring_pushed(entries, text).len() > 0,
        kill_ring_pushed(entries, text)[0] == text,
        kill_ring_pushed(entries, text).len() <= KILL_RING_MAX,
        entries.len() < KILL_RING_MAX ==> kill_ring_pushed(entries, text).len() == entries.len() + 1,
        forall|i: int|
            0 <= i < entries.len() && i < KILL_RING_MAX - 1 ==> #[trigger] kill_ring_pushed(
                entries,
                text,
            )[i + 1] == entries[i],
{
}

impl Clone for KillRing {
    fn clone(&self) -> (r: Self)
        ensures
            r.view() == self.view(),
            r.cursor() == self.cursor(),
    {
        proof {
            use_type_invariant(self);
        }
        let entries = self.entries.clone();
        assert(entries@ =~= self.entries@);
        KillRing { entries, index: self.index, max_entries: self.max_entries }
    }
}

impl Default for KillRing {
    fn default() -> (k: Self)
        ensures
            k.view() == Seq::<Seq<char>>::empty(),
            k.cursor() == 0,
    {
        KillRing::new()
    }
}

/// Action that can be repeated with `.` in Vim normal mode.
#[derive(Clone, Debug)]
pub enum DotAction {
    Insert { text: String },
    Delete { text: String, line: usize, col: usize },
    Change { text: String, line: usize, col: usize },
    Replace { ch: char },
    /// `J`: join the current line with the next.
    Join,
    /// `>>` or `<<`: indent or unindent a line.
    Indent { unindent: bool },
    /// `~`: toggle the case of the character under the cursor.
    ToggleCase,
}

/// Text and level of each message of a history.
pub open spec fn msg_views(h: Seq<EditorMessage>) -> Seq<(Seq<char>, MessageLevel)> {
    h.map_values(|m: EditorMessage| (m.text@, m.level))
}

/// The history after appending a message of `level` with text `msg`: the
/// oldest entry goes when there are more than `MESSAGE_HISTORY_MAX`.
pub open spec fn history_after(
    h: Seq<(Seq<char>, MessageLevel)>,
    level: MessageLevel,
    msg: Seq<char>,
) -> Seq<(Seq<char>, MessageLevel)> {
    let h1 = h.push((msg, level));
    if h1.len() > MESSAGE_HISTORY_MAX {
        h1.drop_first()
    } else {
        h1
    }
}

} // verus!
