use ijevim::buffer::TextBuffer;
use ijevim::engine::Engine;
use ijevim::keymap::{EmacsAction, Key};
use ijevim::plugin::PluginManager;
use ijevim::step::StepOutcome;
use ijevim::types::{EditorState, Mode, Operator, Position};

fn engine_with(text: &str) -> Engine {
    let mut e = Engine::new(TextBuffer::new(), PluginManager::new(), EditorState::default());
    e.set_buffer_for_test(text);
    e
}

#[test]
fn diw_deletes_the_word_into_the_register() {
    let mut e = engine_with("foo bar\n");
    e.state.cursor = Position { line: 1, col: 1 };
    let r = e.text_object(Operator::Delete, '"', true, Key::Char('w'));
    assert_eq!(r, StepOutcome::Done);
    assert_eq!(e.buffer.to_string(), " bar\n");
    assert_eq!(e.register.get('"'), "foo");
    assert_eq!(e.state.cursor, Position { line: 1, col: 1 });
}

#[test]
fn daw_takes_the_trailing_space_too() {
    let mut e = engine_with("foo bar\n");
    e.state.cursor = Position { line: 1, col: 1 };
    e.text_object(Operator::Delete, '"', false, Key::Char('w'));
    assert_eq!(e.buffer.to_string(), "bar\n");
}

#[test]
fn ciw_deletes_the_word_and_starts_insert_mode() {
    let mut e = engine_with("foo bar\n");
    e.state.cursor = Position { line: 1, col: 5 };
    e.text_object(Operator::Change, '"', true, Key::Char('w'));
    assert_eq!(e.buffer.to_string(), "foo \n");
    assert_eq!(e.state.mode, Mode::Insert);
}

#[test]
fn inner_quote_object_takes_the_quoted_text() {
    let mut e = engine_with("say \"hi there\" ok\n");
    e.state.cursor = Position { line: 1, col: 7 };
    e.text_object(Operator::Delete, '"', true, Key::Char('"'));
    assert_eq!(e.buffer.to_string(), "say \"\" ok\n");
    assert_eq!(e.register.get('"'), "hi there");
}

#[test]
fn insert_step_types_and_escape_steps_back() {
    let mut e = engine_with("ab\n");
    e.state.mode = Mode::Insert;
    e.state.cursor = Position { line: 1, col: 0 };
    assert_eq!(e.insert_step(Key::Char('x')), StepOutcome::Done);
    assert_eq!(e.insert_step(Key::Char('y')), StepOutcome::Done);
    assert_eq!(e.buffer.to_string(), "xyab\n");
    assert_eq!(e.state.cursor, Position { line: 1, col: 2 });
    e.insert_step(Key::Esc);
    assert_eq!(e.state.mode, Mode::Normal);
    assert_eq!(e.state.cursor, Position { line: 1, col: 1 });
}

#[test]
fn insert_step_session_is_one_undo_step() {
    let mut e = engine_with("ab\n");
    e.state.mode = Mode::Insert;
    e.state.cursor = Position { line: 1, col: 0 };
    e.insert_state.start_pos = Some(Position { line: 1, col: 0 });
    e.insert_step(Key::Char('x'));
    e.insert_step(Key::Char('y'));
    e.insert_step(Key::Esc);
    e.try_undo();
    assert_eq!(e.buffer.to_string(), "ab\n");
}

#[test]
fn insert_step_enter_and_backspace() {
    let mut e = engine_with("ab\n");
    e.state.mode = Mode::Insert;
    e.state.cursor = Position { line: 1, col: 1 };
    e.insert_step(Key::Enter);
    assert_eq!(e.buffer.to_string(), "a\nb\n");
    assert_eq!(e.state.cursor, Position { line: 2, col: 0 });
    e.insert_step(Key::Backspace);
    assert_eq!(e.buffer.to_string(), "ab\n");
    assert_eq!(e.state.cursor, Position { line: 1, col: 1 });
}

#[test]
fn insert_step_refused_at_the_machine_limit() {
    let mut e = engine_with("ab\n");
    e.state.mode = Mode::Insert;
    e.state.cursor = Position { line: 1, col: usize::MAX };
    assert_eq!(e.insert_step(Key::Char('x')), StepOutcome::Refused);
    assert_eq!(e.buffer.to_string(), "ab\n");
}

#[test]
fn replace_step_overwrites_and_advances() {
    let mut e = engine_with("abc\n");
    e.state.mode = Mode::Replace;
    e.state.cursor = Position { line: 1, col: 0 };
    assert_eq!(e.replace_step(Key::Char('x')), StepOutcome::Done);
    assert_eq!(e.replace_step(Key::Char('y')), StepOutcome::Done);
    assert_eq!(e.buffer.to_string(), "xyc\n");
    assert_eq!(e.state.cursor, Position { line: 1, col: 2 });
}

#[test]
fn replace_step_refused_past_the_last_line() {
    let mut e = engine_with("abc\n");
    e.state.mode = Mode::Replace;
    e.state.cursor = Position { line: 9, col: 0 };
    assert_eq!(e.replace_step(Key::Char('x')), StepOutcome::Refused);
    assert_eq!(e.buffer.to_string(), "abc\n");
}

#[test]
fn paste_step_after_the_cursor() {
    let mut e = engine_with("ab\n");
    e.register.set('"', "XY");
    e.state.cursor = Position { line: 1, col: 0 };
    assert_eq!(e.paste_step(false), StepOutcome::Done);
    assert_eq!(e.buffer.to_string(), "aXYb\n");
    assert_eq!(e.state.cursor, Position { line: 1, col: 3 });
}

#[test]
fn paste_step_before_the_cursor() {
    let mut e = engine_with("ab\n");
    e.register.set('"', "XY");
    e.state.cursor = Position { line: 1, col: 1 };
    e.paste_step(true);
    assert_eq!(e.buffer.to_string(), "aXYb\n");
    assert_eq!(e.state.cursor, Position { line: 1, col: 1 });
}

#[test]
fn paste_step_with_an_empty_register_changes_nothing() {
    let mut e = engine_with("ab\n");
    e.state.cursor = Position { line: 1, col: 0 };
    assert_eq!(e.paste_step(false), StepOutcome::Done);
    assert_eq!(e.buffer.to_string(), "ab\n");
}

#[test]
fn perform_emacs_delete_forward() {
    let mut e = engine_with("abc\n");
    e.state.cursor = Position { line: 1, col: 0 };
    assert_eq!(e.perform_emacs(EmacsAction::DeleteForward, 20), StepOutcome::Done);
    assert_eq!(e.buffer.to_string(), "bc\n");
}

#[test]
fn perform_emacs_newline_breaks_the_line() {
    let mut e = engine_with("ab\n");
    e.state.cursor = Position { line: 1, col: 1 };
    assert_eq!(e.perform_emacs(EmacsAction::Newline, 20), StepOutcome::Done);
    assert_eq!(e.buffer.to_string(), "a\nb\n");
    assert_eq!(e.state.cursor, Position { line: 2, col: 0 });
}

#[test]
fn perform_emacs_leaves_saving_to_the_caller() {
    let mut e = engine_with("ab\n");
    assert_eq!(e.perform_emacs(EmacsAction::Save, 20), StepOutcome::Elsewhere);
    assert_eq!(e.perform_emacs(EmacsAction::Undo, 20), StepOutcome::Elsewhere);
    assert_eq!(e.buffer.to_string(), "ab\n");
}

#[test]
fn perform_emacs_refuses_a_page_past_the_machine_word() {
    let mut e = engine_with("ab\n");
    e.state.cursor = Position { line: usize::MAX - 3, col: 0 };
    assert_eq!(e.perform_emacs(EmacsAction::PageDown, 20), StepOutcome::Refused);
    assert_eq!(e.state.cursor, Position { line: usize::MAX - 3, col: 0 });
}

#[test]
fn perform_emacs_kill_and_yank() {
    let mut e = engine_with("hello world\n");
    e.state.cursor = Position { line: 1, col: 5 };
    e.perform_emacs(EmacsAction::KillLine, 20);
    assert_eq!(e.buffer.to_string(), "hello\n");
    e.state.cursor = Position { line: 1, col: 0 };
    e.perform_emacs(EmacsAction::Yank, 20);
    assert_eq!(e.buffer.to_string(), " worldhello\n");
}
