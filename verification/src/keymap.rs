//! Keys as the editor reads them, and the Emacs key bindings.
use crate::types::Mode;
use vstd::prelude::*;

verus! {

/// A key, as far as the key bindings tell keys apart.
#[derive(Debug, Clone, Copy, PartialEq, Eq, Structural)]
pub enum Key {
    Char(char),
    Backspace,
    Delete,
    Enter,
    Tab,
    Esc,
    Up,
    Down,
    Left,
    Right,
    Home,
    End,
    PageUp,
    PageDown,
    BackTab,
    Insert,
    Null,
    /// A function key.
    F(u8),
    /// Any other key (media keys, lock keys, ...).
    Other,
}

/// The name of a key in recorded macros and key events (without
/// modifiers).
pub open spec fn key_body(key: Key) -> Seq<char> {
    match key {
        Key::Char(c) => seq![c],
        Key::Enter => "Enter"@,
        Key::Esc => "Esc"@,
        Key::Backspace => "Backspace"@,
        Key::Tab => "Tab"@,
        Key::BackTab => "BackTab"@,
        Key::Delete => "Delete"@,
        Key::Insert => "Insert"@,
        Key::Home => "Home"@,
        Key::End => "End"@,
        Key::PageUp => "PageUp"@,
        Key::PageDown => "PageDown"@,
        Key::Left => "Left"@,
        Key::Right => "Right"@,
        Key::Up => "Up"@,
        Key::Down => "Down"@,
        Key::Null => "Null"@,
        Key::F(n) => seq!['F'] + crate::chars::decimal(n as nat),
        Key::Other => "Other"@,
    }
}

/// A key with its modifiers as a string: `C-` for Ctrl, else `M-` for Alt,
/// then the key's name.
pub open spec fn encode_spec(key: Key, ctrl: bool, alt: bool) -> Seq<char> {
    (if ctrl {
        "C-"@
    } else if alt {
        "M-"@
    } else {
        Seq::empty()
    }) + key_body(key)
}

/// The key a name (without modifiers) stands for: the names of
/// `key_body`, a single one-byte character, or `F` and the number of a
/// function key.
pub open spec fn named_key(s: Seq<char>) -> Option<Key> {
    if s == "Enter"@ {
        Some(Key::Enter)
    } else if s == "Esc"@ {
        Some(Key::Esc)
    } else if s == "Backspace"@ {
        Some(Key::Backspace)
    } else if s == "Tab"@ {
        Some(Key::Tab)
    } else if s == "BackTab"@ {
        Some(Key::BackTab)
    } else if s == "Delete"@ {
        Some(Key::Delete)
    } else if s == "Insert"@ {
        Some(Key::Insert)
    } else if s == "Home"@ {
        Some(Key::Home)
    } else if s == "End"@ {
        Some(Key::End)
    } else if s == "PageUp"@ {
        Some(Key::PageUp)
    } else if s == "PageDown"@ {
        Some(Key::PageDown)
    } else if s == "Left"@ {
        Some(Key::Left)
    } else if s == "Right"@ {
        Some(Key::Right)
    } else if s == "Up"@ {
        Some(Key::Up)
    } else if s == "Down"@ {
        Some(Key::Down)
    } else if s == "Null"@ {
        Some(Key::Null)
    } else if vstd::utf8::encode_utf8(s).len() as usize == 1 {
        Some(Key::Char(s[0]))
    } else if s.len() > 0 && s[0] == 'F' {
        match crate::chars::parse_usize_spec(s.skip(1)) {
            Some(v) => if v <= 255 {
                Some(Key::F(v as u8))
            } else {
                None
            },
            None => None,
        }
    } else {
        None
    }
}

/// A string made by `encode_spec` read back as key, Ctrl and Alt.
pub open spec fn decode_spec(s: Seq<char>) -> Option<(Key, bool, bool)> {
    let (ctrl, alt, rest) = if crate::chars::has_prefix(s, "C-"@) {
        (true, false, s.skip(2))
    } else if crate::chars::has_prefix(s, "M-"@) {
        (false, true, s.skip(2))
    } else {
        (false, false, s)
    };
    match named_key(rest) {
        Some(k) => Some((k, ctrl, alt)),
        None => None,
    }
}

/// A text takes at least one and at most four bytes per character.
pub proof fn lemma_utf8_len(s: Seq<char>)
    ensures
        s.len() <= vstd::utf8::encode_utf8(s).len() <= 4 * s.len(),
    decreases s.len(),
{
    if s.len() > 0 {
        lemma_utf8_len(s.drop_first());
    }
}

/// A key's recorded name reads back as the key, with Ctrl when it was held
/// and otherwise Alt when that was held; this holds for every key but
/// `Other`, and for a character key when the character is ASCII.
pub proof fn lemma_key_roundtrip(key: Key, ctrl: bool, alt: bool)
    requires
        key != Key::Other,
        key matches Key::Char(c) ==> (c as u32) <= 0x7F,
    ensures
        decode_spec(encode_spec(key, ctrl, alt)) == Some((key, ctrl, !ctrl && alt)),
{
    reveal_strlit("C-");
    reveal_strlit("M-");
    reveal_strlit("Enter");
    reveal_strlit("Esc");
    reveal_strlit("Backspace");
    reveal_strlit("Tab");
    reveal_strlit("BackTab");
    reveal_strlit("Delete");
    reveal_strlit("Insert");
    reveal_strlit("Home");
    reveal_strlit("End");
    reveal_strlit("PageUp");
    reveal_strlit("PageDown");
    reveal_strlit("Left");
    reveal_strlit("Right");
    reveal_strlit("Up");
    reveal_strlit("Down");
    reveal_strlit("Null");
    let body = key_body(key);
    lemma_named_body(key);
    let s = encode_spec(key, ctrl, alt);
    if ctrl {
        assert(s.take(2) =~= "C-"@);
        assert(s.skip(2) =~= body);
        assert(crate::chars::has_prefix(s, "C-"@));
    } else if alt {
        assert(s.take(2) =~= "M-"@);
        assert(s.skip(2) =~= body);
        assert(s.take(2)[0] == 'M');
        assert(!crate::chars::has_prefix(s, "C-"@));
        assert(crate::chars::has_prefix(s, "M-"@));
    } else {
        assert(s =~= body);
        if body.len() >= 2 {
            assert(body.take(2)[0] != 'C' && body.take(2)[0] != 'M');
        }
        assert(!crate::chars::has_prefix(s, "C-"@));
        assert(!crate::chars::has_prefix(s, "M-"@));
    }
}

/// A key's name without modifiers reads back as the key.
proof fn lemma_named_body(key: Key)
    requires
        key != Key::Other,
        key matches Key::Char(c) ==> (c as u32) <= 0x7F,
    ensures
        named_key(key_body(key)) == Some(key),
        key_body(key).len() >= 2 ==> key_body(key)[0] != 'C' && key_body(key)[0] != 'M',
{
    reveal_strlit("Enter");
    reveal_strlit("Esc");
    reveal_strlit("Backspace");
    reveal_strlit("Tab");
    reveal_strlit("BackTab");
    reveal_strlit("Delete");
    reveal_strlit("Insert");
    reveal_strlit("Home");
    reveal_strlit("End");
    reveal_strlit("PageUp");
    reveal_strlit("PageDown");
    reveal_strlit("Left");
    reveal_strlit("Right");
    reveal_strlit("Up");
    reveal_strlit("Down");
    reveal_strlit("Null");
    let body = key_body(key);
    match key {
        Key::Char(c) => {
            assert(vstd::utf8::encode_utf8(body).len() == 1) by {
                reveal_with_fuel(vstd::utf8::encode_utf8, 2);
                assert(body.drop_first() =~= Seq::<char>::empty());
            }
        },
        Key::F(n) => {
            let d = crate::chars::decimal(n as nat);
            crate::review::roundtrip::lemma_decimal_reads_back(n as nat);
            assert(d.len() <= 3) by {
                reveal_with_fuel(crate::chars::decimal, 3);
            }
            assert(body.skip(1) =~= d);
            assert(body[0] == 'F');
            lemma_utf8_len(body);
        },
        _ => {},
    }
}

/// A key's name as recorded in macros and key events: `C-` for Ctrl, else
/// `M-` for Alt, then the key.
pub fn encode_key(key: Key, ctrl: bool, alt: bool) -> (r: String)
    ensures
        r@ == encode_spec(key, ctrl, alt),
{
    let mut s = String::new();
    if ctrl {
        crate::strutil::push_str(&mut s, "C-");
    } else if alt {
        crate::strutil::push_str(&mut s, "M-");
    }
    let body = match key {
        Key::Char(c) => {
            let mut b = String::new();
            crate::strutil::push_char(&mut b, c);
            b
        },
        Key::Enter => String::from_str("Enter"),
        Key::Esc => String::from_str("Esc"),
        Key::Backspace => String::from_str("Backspace"),
        Key::Tab => String::from_str("Tab"),
        Key::BackTab => String::from_str("BackTab"),
        Key::Delete => String::from_str("Delete"),
        Key::Insert => String::from_str("Insert"),
        Key::Home => String::from_str("Home"),
        Key::End => String::from_str("End"),
        Key::PageUp => String::from_str("PageUp"),
        Key::PageDown => String::from_str("PageDown"),
        Key::Left => String::from_str("Left"),
        Key::Right => String::from_str("Right"),
        Key::Up => String::from_str("Up"),
        Key::Down => String::from_str("Down"),
        Key::Null => String::from_str("Null"),
        Key::F(n) => {
            let mut b = String::new();
            crate::strutil::push_char(&mut b, 'F');
            crate::chars::push_decimal(&mut b, n as usize);
            b
        },
        Key::Other => String::from_str("Other"),
    };
    proof {
        assert(body@ =~= key_body(key));
    }
    let ghost s0 = s@;
    crate::strutil::push_str(&mut s, body.as_str());
    proof {
        reveal_strlit("C-");
        reveal_strlit("M-");
        assert(s0 =~= if ctrl {
            "C-"@
        } else if alt {
            "M-"@
        } else {
            Seq::<char>::empty()
        });
    }
    s
}

/// Whether `s` is one of `names`.
fn is_name(s: &Vec<char>, name: &str) -> (r: bool)
    ensures
        r == (s@ == name@),
{
    let n = crate::strutil::chars_of(name);
    crate::chars::chars_eq(s.as_slice(), n.as_slice())
}

/// The key a name (without modifiers) stands for.
pub fn named_key_of(s: &Vec<char>) -> (r: Option<Key>)
    ensures
        r == named_key(s@),
{
    if is_name(s, "Enter") {
        Some(Key::Enter)
    } else if is_name(s, "Esc") {
        Some(Key::Esc)
    } else if is_name(s, "Backspace") {
        Some(Key::Backspace)
    } else if is_name(s, "Tab") {
        Some(Key::Tab)
    } else if is_name(s, "BackTab") {
        Some(Key::BackTab)
    } else if is_name(s, "Delete") {
        Some(Key::Delete)
    } else if is_name(s, "Insert") {
        Some(Key::Insert)
    } else if is_name(s, "Home") {
        Some(Key::Home)
    } else if is_name(s, "End") {
        Some(Key::End)
    } else if is_name(s, "PageUp") {
        Some(Key::PageUp)
    } else if is_name(s, "PageDown") {
        Some(Key::PageDown)
    } else if is_name(s, "Left") {
        Some(Key::Left)
    } else if is_name(s, "Right") {
        Some(Key::Right)
    } else if is_name(s, "Up") {
        Some(Key::Up)
    } else if is_name(s, "Down") {
        Some(Key::Down)
    } else if is_name(s, "Null") {
        Some(Key::Null)
    } else {
        let t = crate::strutil::string_of(s.as_slice());
        proof {
            if s@.len() == 0 {
                assert(vstd::utf8::encode_utf8(s@) =~= Seq::<u8>::empty());
            }
        }
        if t.as_str().len() == 1 {
            Some(Key::Char(s[0]))
        } else if s.len() > 0 && s[0] == 'F' {
            let digits = crate::chars::sub_vec(s.as_slice(), 1, s.len());
            proof {
                assert(digits@ =~= s@.skip(1));
            }
            match crate::chars::parse_usize(digits.as_slice()) {
                Some(v) => if v <= 255 {
                    Some(Key::F(v as u8))
                } else {
                    None
                },
                None => None,
            }
        } else {
            None
        }
    }
}

/// Reads back a key name made by `encode_key`.
pub fn decode_key(s: &str) -> (r: Option<(Key, bool, bool)>)
    ensures
        r == decode_spec(s@),
{
    let cs = crate::strutil::chars_of(s);
    let c_pre = crate::strutil::chars_of("C-");
    let m_pre = crate::strutil::chars_of("M-");
    proof {
        reveal_strlit("C-");
        reveal_strlit("M-");
    }
    let (ctrl, alt, rest) = if crate::chars::starts_with(cs.as_slice(), c_pre.as_slice()) {
        (true, false, crate::chars::sub_vec(cs.as_slice(), 2, cs.len()))
    } else if crate::chars::starts_with(cs.as_slice(), m_pre.as_slice()) {
        (false, true, crate::chars::sub_vec(cs.as_slice(), 2, cs.len()))
    } else {
        (false, false, cs)
    };
    proof {
        reveal_strlit("C-");
        reveal_strlit("M-");
        if crate::chars::has_prefix(s@, "C-"@) || crate::chars::has_prefix(s@, "M-"@) {
            assert(rest@ =~= s@.skip(2));
        }
    }
    match named_key_of(&rest) {
        Some(k) => Some((k, ctrl, alt)),
        None => None,
    }
}

/// What a Ctrl key does in Vim mode.
#[derive(Debug, Clone, Copy, PartialEq, Eq, Structural)]
pub enum VimCtrl {
    /// The key is taken and does nothing.
    Nothing,
    /// Ctrl-w: the next key is a window command.
    WindowPrefix,
    HalfPageDown,
    HalfPageUp,
    Redo,
    ScrollUp,
    ScrollDown,
    FileInfo,
    PageUp,
    PageDown,
    /// Ctrl-v: Visual block mode.
    VisualBlock,
    DeleteToLineStart,
    DeleteWordBackward,
    /// Ctrl-r: the next key names a register to put in.
    InsertRegister,
}

/// The Ctrl keys of Vim mode: window prefix, scrolling, paging, redo,
/// file info and Visual block in Normal mode; deleting back and putting in
/// a register in Insert and Replace mode.
pub open spec fn vim_ctrl_spec(mode: Mode, key: Key) -> Option<VimCtrl> {
    match mode {
        Mode::Normal => match key {
            Key::Char('w') => Some(VimCtrl::WindowPrefix),
            Key::Char('d') => Some(VimCtrl::HalfPageDown),
            Key::Char('u') => Some(VimCtrl::HalfPageUp),
            Key::Char('r') => Some(VimCtrl::Redo),
            Key::Char('y') => Some(VimCtrl::ScrollUp),
            Key::Char('e') => Some(VimCtrl::ScrollDown),
            Key::Char('g') => Some(VimCtrl::FileInfo),
            Key::Char('b') => Some(VimCtrl::PageUp),
            Key::Char('f') => Some(VimCtrl::PageDown),
            Key::Char('v') => Some(VimCtrl::VisualBlock),
            _ => None,
        },
        Mode::Insert | Mode::Replace => match key {
            Key::Char('d') | Key::Char('u') => Some(VimCtrl::DeleteToLineStart),
            Key::Char('w') => Some(VimCtrl::DeleteWordBackward),
            Key::Char('r') => Some(VimCtrl::InsertRegister),
            _ => None,
        },
        _ => None,
    }
}

/// The Ctrl keys taken during macro playback: in Normal, Insert and
/// Replace mode alike, except that Ctrl-u, Ctrl-w and Ctrl-r edit or put in
/// a register while typing.
pub open spec fn playback_ctrl_spec(mode: Mode, key: Key) -> Option<VimCtrl> {
    let typing = mode == Mode::Insert || mode == Mode::Replace;
    if mode == Mode::Normal || typing {
        match key {
            Key::Char('d') => Some(VimCtrl::HalfPageDown),
            Key::Char('u') => Some(if typing { VimCtrl::DeleteToLineStart } else { VimCtrl::HalfPageUp }),
            Key::Char('w') => Some(if typing { VimCtrl::DeleteWordBackward } else { VimCtrl::Nothing }),
            Key::Char('r') => Some(if typing { VimCtrl::InsertRegister } else { VimCtrl::Redo }),
            Key::Char('y') => Some(VimCtrl::ScrollUp),
            Key::Char('e') => Some(VimCtrl::ScrollDown),
            Key::Char('g') => Some(VimCtrl::FileInfo),
            Key::Char('b') => Some(VimCtrl::PageUp),
            Key::Char('f') => Some(VimCtrl::PageDown),
            Key::Char('v') => Some(VimCtrl::VisualBlock),
            _ => None,
        }
    } else {
        None
    }
}

/// Unicode control characters (category Cc).
pub open spec fn is_control_spec(c: char) -> bool {
    c <= '\u{1F}' || ('\u{7F}' <= c && c <= '\u{9F}')
}

pub fn is_control(c: char) -> (r: bool)
    ensures
        r == is_control_spec(c),
{
    c <= '\u{1F}' || ('\u{7F}' <= c && c <= '\u{9F}')
}

/// Vim key bindings.
pub struct VimKeymap;

impl VimKeymap {
    pub fn new() -> Self {
        VimKeymap
    }

    /// What Ctrl and `key` do in `mode` before the mode's own keys are
    /// looked at; `None` passes the key on to the mode.
    pub fn ctrl_action(&self, mode: Mode, key: Key) -> (r: Option<VimCtrl>)
        ensures
            r == vim_ctrl_spec(mode, key),
    {
        match mode {
            Mode::Normal => match key {
                Key::Char('w') => Some(VimCtrl::WindowPrefix),
                Key::Char('d') => Some(VimCtrl::HalfPageDown),
                Key::Char('u') => Some(VimCtrl::HalfPageUp),
                Key::Char('r') => Some(VimCtrl::Redo),
                Key::Char('y') => Some(VimCtrl::ScrollUp),
                Key::Char('e') => Some(VimCtrl::ScrollDown),
                Key::Char('g') => Some(VimCtrl::FileInfo),
                Key::Char('b') => Some(VimCtrl::PageUp),
                Key::Char('f') => Some(VimCtrl::PageDown),
                Key::Char('v') => Some(VimCtrl::VisualBlock),
                _ => None,
            },
            Mode::Insert | Mode::Replace => match key {
                Key::Char('d') | Key::Char('u') => Some(VimCtrl::DeleteToLineStart),
                Key::Char('w') => Some(VimCtrl::DeleteWordBackward),
                Key::Char('r') => Some(VimCtrl::InsertRegister),
                _ => None,
            },
            _ => None,
        }
    }
}

/// What a Ctrl key does during macro playback; `None` passes it on.
pub fn playback_ctrl_action(mode: Mode, key: Key) -> (r: Option<VimCtrl>)
    ensures
        r == playback_ctrl_spec(mode, key),
{
    let typing = match mode {
        Mode::Insert | Mode::Replace => true,
        _ => false,
    };
    match mode {
        Mode::Normal | Mode::Insert | Mode::Replace => match key {
            Key::Char('d') => Some(VimCtrl::HalfPageDown),
            Key::Char('u') => if typing {
                Some(VimCtrl::DeleteToLineStart)
            } else {
                Some(VimCtrl::HalfPageUp)
            },
            Key::Char('w') => if typing {
                Some(VimCtrl::DeleteWordBackward)
            } else {
                Some(VimCtrl::Nothing)
            },
            Key::Char('r') => if typing {
                Some(VimCtrl::InsertRegister)
            } else {
                Some(VimCtrl::Redo)
            },
            Key::Char('y') => Some(VimCtrl::ScrollUp),
            Key::Char('e') => Some(VimCtrl::ScrollDown),
            Key::Char('g') => Some(VimCtrl::FileInfo),
            Key::Char('b') => Some(VimCtrl::PageUp),
            Key::Char('f') => Some(VimCtrl::PageDown),
            Key::Char('v') => Some(VimCtrl::VisualBlock),
            _ => None,
        },
        _ => None,
    }
}

impl Default for VimKeymap {
    fn default() -> Self {
        VimKeymap
    }
}

/// Key bindings of the review screen.
pub struct ReviewKeymap;

impl ReviewKeymap {
    pub fn new() -> Self {
        ReviewKeymap
    }
}

impl Default for ReviewKeymap {
    fn default() -> Self {
        ReviewKeymap
    }
}

/// Emacs key bindings.
pub struct EmacsKeymap;

impl Default for EmacsKeymap {
    fn default() -> Self {
        EmacsKeymap
    }
}

/// What an Emacs key does.
#[derive(Debug, Clone, Copy, PartialEq, Eq, Structural)]
pub enum EmacsAction {
    /// Answer the pending confirmation question with this key.
    Confirm,
    /// Start a `C-x` sequence.
    StartPrefix,
    Save,
    Quit,
    LineStart,
    LineEnd,
    Undo,
    Redo,
    Right,
    Left,
    Down,
    Up,
    DeleteForward,
    DeleteBackward,
    KillLine,
    SetMark,
    KillRegion,
    KillWord,
    CopyRegion,
    Yank,
    YankPop,
    /// Open the command line for a forward (`/`) search.
    SearchForward,
    /// Open the command line for a backward (`?`) search.
    SearchBackward,
    Transpose,
    ScrollUpOne,
    ClearAndCenter,
    Abort,
    InsertChar(char),
    Newline,
    Tab,
    PageUp,
    PageDown,
    WordForward,
    WordBackward,
    Nothing,
}

/// The binding of a key after `C-x`; none when the key ends the sequence
/// without an action of its own and is then read as a key of its own.
pub open spec fn cx_binding(ctrl: bool, key: Key) -> Option<EmacsAction> {
    if ctrl && key == Key::Char('s') {
        Some(EmacsAction::Save)
    } else if ctrl && key == Key::Char('c') {
        Some(EmacsAction::Quit)
    } else if ctrl && key == Key::Char('h') {
        Some(EmacsAction::LineStart)
    } else if ctrl && key == Key::Char('d') {
        Some(EmacsAction::LineEnd)
    } else if !ctrl && key == Key::Char('u') {
        Some(EmacsAction::Redo)
    } else if ctrl && key == Key::Char('/') {
        Some(EmacsAction::Redo)
    } else {
        None
    }
}

/// The binding of a Control key with a binding of its own (`C-w` aside).
pub open spec fn ctrl_binding(c: char) -> Option<EmacsAction> {
    if c == 'x' {
        Some(EmacsAction::StartPrefix)
    } else if c == 'f' {
        Some(EmacsAction::Right)
    } else if c == 'b' {
        Some(EmacsAction::Left)
    } else if c == 'n' {
        Some(EmacsAction::Down)
    } else if c == 'p' {
        Some(EmacsAction::Up)
    } else if c == 'a' {
        Some(EmacsAction::LineStart)
    } else if c == 'e' {
        Some(EmacsAction::LineEnd)
    } else if c == 'd' {
        Some(EmacsAction::DeleteForward)
    } else if c == 'k' {
        Some(EmacsAction::KillLine)
    } else if c == 'h' {
        Some(EmacsAction::DeleteBackward)
    } else if c == ' ' || c == '@' {
        Some(EmacsAction::SetMark)
    } else if c == 'y' {
        Some(EmacsAction::Yank)
    } else if c == 'o' {
        Some(EmacsAction::Save)
    } else if c == 's' {
        Some(EmacsAction::SearchForward)
    } else if c == 'r' {
        Some(EmacsAction::SearchBackward)
    } else if c == 't' {
        Some(EmacsAction::Transpose)
    } else if c == 'v' {
        Some(EmacsAction::ScrollUpOne)
    } else if c == 'l' {
        Some(EmacsAction::ClearAndCenter)
    } else if c == 'g' {
        Some(EmacsAction::Abort)
    } else if c == '/' || c == '_' || c == '?' {
        Some(EmacsAction::Undo)
    } else {
        None
    }
}

/// The binding of an Alt (Meta) character key.
pub open spec fn alt_binding(c: char, region: bool) -> EmacsAction {
    if c == 'f' {
        EmacsAction::WordForward
    } else if c == 'b' {
        EmacsAction::WordBackward
    } else if c == 'v' {
        EmacsAction::PageDown
    } else if c == 'w' && region {
        EmacsAction::CopyRegion
    } else if c == 'y' {
        EmacsAction::YankPop
    } else {
        EmacsAction::Nothing
    }
}

/// The binding of a special key pressed without Control.
pub open spec fn special_binding(key: Key) -> EmacsAction {
    match key {
        Key::Backspace => EmacsAction::DeleteBackward,
        Key::Delete => EmacsAction::DeleteForward,
        Key::Enter => EmacsAction::Newline,
        Key::Tab => EmacsAction::Tab,
        Key::Up => EmacsAction::Up,
        Key::Down => EmacsAction::Down,
        Key::Left => EmacsAction::Left,
        Key::Right => EmacsAction::Right,
        Key::Home => EmacsAction::LineStart,
        Key::End => EmacsAction::LineEnd,
        Key::PageUp => EmacsAction::PageUp,
        Key::PageDown => EmacsAction::PageDown,
        _ => EmacsAction::Nothing,
    }
}

/// The binding of a key outside a `C-x` sequence.
pub open spec fn main_binding(ctrl: bool, alt: bool, key: Key, region: bool) -> EmacsAction {
    match key {
        Key::Char(c) => if ctrl && c == 'w' {
            if region {
                EmacsAction::KillRegion
            } else {
                EmacsAction::KillWord
            }
        } else if ctrl && ctrl_binding(c) is Some {
            ctrl_binding(c)->Some_0
        } else if !ctrl && !is_control_spec(c) && !alt {
            EmacsAction::InsertChar(c)
        } else if alt {
            alt_binding(c, region)
        } else {
            EmacsAction::Nothing
        },
        _ => if ctrl {
            EmacsAction::Nothing
        } else {
            special_binding(key)
        },
    }
}

/// What a key does, given whether a confirmation question is pending,
/// whether `C-x` was typed before it, and whether a region is active; and
/// whether a `C-x` sequence is pending after it.
pub open spec fn emacs_step(confirming: bool, cx: bool, ctrl: bool, alt: bool, key: Key, region: bool) -> (EmacsAction, bool) {
    if confirming {
        (EmacsAction::Confirm, cx)
    } else if cx && cx_binding(ctrl, key) is Some {
        (cx_binding(ctrl, key)->Some_0, false)
    } else {
        let a = main_binding(ctrl, alt, key, region);
        (a, a == EmacsAction::StartPrefix)
    }
}

fn ctrl_binding_exec(c: char) -> (r: Option<EmacsAction>)
    ensures
        r == ctrl_binding(c),
{
    if c == 'x' {
        Some(EmacsAction::StartPrefix)
    } else if c == 'f' {
        Some(EmacsAction::Right)
    } else if c == 'b' {
        Some(EmacsAction::Left)
    } else if c == 'n' {
        Some(EmacsAction::Down)
    } else if c == 'p' {
        Some(EmacsAction::Up)
    } else if c == 'a' {
        Some(EmacsAction::LineStart)
    } else if c == 'e' {
        Some(EmacsAction::LineEnd)
    } else if c == 'd' {
        Some(EmacsAction::DeleteForward)
    } else if c == 'k' {
        Some(EmacsAction::KillLine)
    } else if c == 'h' {
        Some(EmacsAction::DeleteBackward)
    } else if c == ' ' || c == '@' {
        Some(EmacsAction::SetMark)
    } else if c == 'y' {
        Some(EmacsAction::Yank)
    } else if c == 'o' {
        Some(EmacsAction::Save)
    } else if c == 's' {
        Some(EmacsAction::SearchForward)
    } else if c == 'r' {
        Some(EmacsAction::SearchBackward)
    } else if c == 't' {
        Some(EmacsAction::Transpose)
    } else if c == 'v' {
        Some(EmacsAction::ScrollUpOne)
    } else if c == 'l' {
        Some(EmacsAction::ClearAndCenter)
    } else if c == 'g' {
        Some(EmacsAction::Abort)
    } else if c == '/' || c == '_' || c == '?' {
        Some(EmacsAction::Undo)
    } else {
        None
    }
}

impl EmacsKeymap {
    pub fn new() -> Self {
        EmacsKeymap
    }

    /// What `key` does and whether a `C-x` sequence is pending after it
    /// (see `emacs_step`).
    pub fn action(&self, confirming: bool, cx: bool, ctrl: bool, alt: bool, key: Key, region: bool) -> (r: (EmacsAction, bool))
        ensures
            r == emacs_step(confirming, cx, ctrl, alt, key, region),
    {
        if confirming {
            return (EmacsAction::Confirm, cx);
        }
        if cx {
            if let Key::Char(c) = key {
                if ctrl && c == 's' {
                    return (EmacsAction::Save, false);
                } else if ctrl && c == 'c' {
                    return (EmacsAction::Quit, false);
                } else if ctrl && c == 'h' {
                    return (EmacsAction::LineStart, false);
                } else if ctrl && c == 'd' {
                    return (EmacsAction::LineEnd, false);
                } else if !ctrl && c == 'u' {
                    return (EmacsAction::Redo, false);
                } else if ctrl && c == '/' {
                    return (EmacsAction::Redo, false);
                }
            }
        }
        let a = match key {
            Key::Char(c) => {
                let cb = ctrl_binding_exec(c);
                if ctrl && c == 'w' {
                    if region {
                        EmacsAction::KillRegion
                    } else {
                        EmacsAction::KillWord
                    }
                } else if ctrl && cb.is_some() {
                    cb.unwrap()
                } else if !ctrl && !is_control(c) && !alt {
                    EmacsAction::InsertChar(c)
                } else if alt {
                    if c == 'f' {
                        EmacsAction::WordForward
                    } else if c == 'b' {
                        EmacsAction::WordBackward
                    } else if c == 'v' {
                        EmacsAction::PageDown
                    } else if c == 'w' && region {
                        EmacsAction::CopyRegion
                    } else if c == 'y' {
                        EmacsAction::YankPop
                    } else {
                        EmacsAction::Nothing
                    }
                } else {
                    EmacsAction::Nothing
                }
            },
            _ => if ctrl {
                EmacsAction::Nothing
            } else {
                match key {
                    Key::Backspace => EmacsAction::DeleteBackward,
                    Key::Delete => EmacsAction::DeleteForward,
                    Key::Enter => EmacsAction::Newline,
                    Key::Tab => EmacsAction::Tab,
                    Key::Up => EmacsAction::Up,
                    Key::Down => EmacsAction::Down,
                    Key::Left => EmacsAction::Left,
                    Key::Right => EmacsAction::Right,
                    Key::Home => EmacsAction::LineStart,
                    Key::End => EmacsAction::LineEnd,
                    Key::PageUp => EmacsAction::PageUp,
                    Key::PageDown => EmacsAction::PageDown,
                    _ => EmacsAction::Nothing,
                }
            },
        };
        let pending = match a {
            EmacsAction::StartPrefix => true,
            _ => false,
        };
        (a, pending)
    }
}

} // verus!
