use ijevim::keymap::Key;
use ijevim::normal::{NormalAction, OperatorAction};
use ijevim::state::OperatorState;
use ijevim::types::{Operator, PendingOperator, VisualType};

#[test]
fn counts_accumulate_and_apply() {
    let mut s = OperatorState::default();
    assert_eq!(s.normal_key(Key::Char('0'), true, false).0, NormalAction::LineStart);
    assert_eq!(s.normal_key(Key::Char('2'), true, false).0, NormalAction::Nothing);
    assert_eq!(s.normal_key(Key::Char('0'), true, false).0, NormalAction::Nothing);
    assert_eq!(s.count, Some(20));
    assert_eq!(s.normal_key(Key::Char('j'), true, false).0, NormalAction::Down(20));
    assert_eq!(s.count, None);
    assert_eq!(s.normal_key(Key::Char('w'), true, false).0, NormalAction::WordForward(1));
}

#[test]
fn vim_count_prefix_with_dd() {
    let mut s = OperatorState::default();
    s.normal_key(Key::Char('3'), true, false);
    assert_eq!(s.normal_key(Key::Char('d'), true, false).0, NormalAction::Nothing);
    assert!(matches!(s.pending, PendingOperator::AwaitingOperator { op: Operator::Delete, .. }));
    match s.normal_key(Key::Char('d'), true, false).0 {
        NormalAction::OperatorKey { op: Operator::Delete, count: 3 } => {}
        other => panic!("{:?}", other),
    }
    assert_eq!(s.pending, PendingOperator::Idle);
    assert_eq!(
        s.operator_key(Operator::Delete, Key::Char('d'), 3),
        OperatorAction::DeleteLines { count: 3, register: '"' }
    );
}

#[test]
fn vim_delete_inner_word_goes_through_text_object() {
    let mut s = OperatorState::default();
    s.normal_key(Key::Char('d'), true, false);
    s.normal_key(Key::Char('i'), true, false);
    assert_eq!(s.operator_key(Operator::Delete, Key::Char('i'), 1), OperatorAction::Nothing);
    assert_eq!(s.pending, PendingOperator::AwaitingTextObject { op: Operator::Delete, register: '"', inner: true });
    assert_eq!(
        s.normal_key(Key::Char('w'), true, false).0,
        NormalAction::TextObject { op: Operator::Delete, register: '"', inner: true }
    );
    assert_eq!(s.pending, PendingOperator::Idle);
}

#[test]
fn register_and_mark_prefixes() {
    let mut s = OperatorState::default();
    s.normal_key(Key::Char('"'), true, false);
    assert_eq!(s.register, Some('"'));
    assert_eq!(s.normal_key(Key::Char('x'), true, false).0, NormalAction::DeleteChars(1));
    assert_eq!(s.register, Some('x'));
    let mut s = OperatorState::default();
    s.normal_key(Key::Char('m'), true, false);
    let (a, m) = s.normal_key(Key::Char('b'), true, false);
    assert_eq!(a, NormalAction::WordBackward(1));
    assert_eq!(m, Some(('m', 'b')));
    assert_eq!(s.mark, None);
}

#[test]
fn modes_and_macros() {
    let mut s = OperatorState::default();
    assert_eq!(s.normal_key(Key::Char('v'), true, false).0, NormalAction::Visual(VisualType::Character));
    assert_eq!(s.normal_key(Key::Char('?'), true, false).0, NormalAction::CommandLine('?'));
    assert_eq!(s.normal_key(Key::Char('q'), true, true).0, NormalAction::StopRecording);
    s.normal_key(Key::Char('@'), true, false);
    assert_eq!(s.normal_key(Key::Char('a'), true, false).0, NormalAction::PlayMacro('a'));
    assert_eq!(s.normal_key(Key::Char('r'), true, false).0, NormalAction::EnterReplace);
    assert_eq!(s.replace_char, Some('\0'));
    assert_eq!(s.normal_key(Key::Char('G'), true, false).0, NormalAction::GotoLine(None));
}

#[test]
fn operator_keys() {
    let mut s = OperatorState::default();
    assert_eq!(
        s.operator_key(Operator::FindCharForward, Key::Char('w'), 1),
        OperatorAction::FindChar { ch: 'w', till: false, forward: true }
    );
    assert_eq!(s.operator_key(Operator::Goto, Key::Char('g'), 1), OperatorAction::GotoTop);
    assert_eq!(s.operator_key(Operator::Scroll, Key::Char('t'), 1), OperatorAction::ScrollTop);
    assert_eq!(s.operator_key(Operator::SaveQuit, Key::Char('Z'), 1), OperatorAction::SaveQuit);
    assert_eq!(s.operator_key(Operator::RecordMacro, Key::Char('A'), 1), OperatorAction::Nothing);
    s.register = Some('q');
    assert_eq!(
        s.operator_key(Operator::Yank, Key::Char('y'), 2),
        OperatorAction::YankLines { count: 2, register: 'q' }
    );
    assert_eq!(s.register, None);
}

use ijevim::buffer::TextBuffer;
use ijevim::engine::Engine;
use ijevim::plugin::PluginManager;
use ijevim::textobj::{quote_object, text_object_for, word_around, TextObject};
use ijevim::types::EditorState;

#[test]
fn text_object_keys() {
    assert_eq!(text_object_for(Key::Char('w')), Some(TextObject::Word));
    assert_eq!(text_object_for(Key::Char('b')), Some(TextObject::Bracket('(', ')')));
    assert_eq!(text_object_for(Key::Char('B')), Some(TextObject::Bracket('{', '}')));
    assert_eq!(text_object_for(Key::Char('\'')), Some(TextObject::Quote('\'')));
    assert_eq!(text_object_for(Key::Char('x')), None);
}

#[test]
fn quote_and_word_ranges() {
    let line: Vec<char> = "say \"hi there\" now\n".chars().collect();
    assert_eq!(quote_object(&line, 6, '"', true), Some((5, 13)));
    assert_eq!(quote_object(&line, 6, '"', false), Some((4, 14)));
    assert_eq!(quote_object(&line, 2, '"', true), None);
    let line: Vec<char> = "a  word\tb".chars().collect();
    assert_eq!(word_around(&line, 3, 7), (1, 8));
}

#[test]
fn vim_text_object_i_w_bracket_ranges() {
    let mut e = Engine::new(TextBuffer::new(), PluginManager::new(), EditorState::default());
    e.set_buffer_for_test("f(a, (b)\n  c) x\n");
    e.state.cursor.col = 3;
    assert_eq!(e.bracket_object('(', ')', true), Some((1, 2, 1, 7)));
    e.state.cursor.col = 8;
    assert_eq!(e.bracket_object('(', ')', false), Some((1, 5, 2, 4)));
    assert_eq!(e.bracket_object('[', ']', true), None);
}
