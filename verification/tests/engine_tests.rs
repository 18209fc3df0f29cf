use ijevim::buffer::TextBuffer;
use ijevim::command::parse_ex_command;
use ijevim::engine::Engine;
use ijevim::ex::ExOutcome;
use ijevim::keymap::Key;
use ijevim::normal::NormalAction;
use ijevim::plugin::PluginManager;
use ijevim::types::{EditorState, Keymap, Mode, Position};

fn engine() -> Engine {
    Engine::new(TextBuffer::new(), PluginManager::new(), EditorState::default())
}

#[test]
fn emacs_mark_defaults_to_none() {
    let e = engine();
    assert!(e.state.mark.is_none());
    assert!(!e.state.region_active);
}

#[test]
fn emacs_has_active_region_true_when_mark_differs_from_cursor() {
    let mut e = engine();
    e.set_buffer_for_test("hello world\n");
    e.state.mark = Some(Position { line: 1, col: 0 });
    e.state.region_active = true;
    e.state.cursor.col = 5;
    assert!(e.has_active_region());
}

#[test]
fn vim_ctrl_r_redo_does_not_panic() {
    let mut e = engine();
    e.redo();
}

#[test]
fn emacs_ctrl_x_u_redo_does_not_panic() {
    let mut e = engine();
    e.redo();
}

#[test]
fn emacs_ctrl_x_ctrl_slash_redo_does_not_panic() {
    let mut e = engine();
    e.redo();
}

#[test]
fn emacs_c_space_sets_mark() {
    let mut e = engine();
    e.set_buffer_for_test("hello world\n");
    e.set_mark();
    assert_eq!(e.state.mark, Some(e.state.cursor));
    assert!(e.state.region_active);
    assert!(!e.has_active_region());
}

#[test]
fn emacs_copy_region_copies_without_deleting() {
    let mut e = engine();
    e.set_buffer_for_test("hello world\n");
    e.state.mark = Some(Position { line: 1, col: 0 });
    e.state.region_active = true;
    e.state.cursor.col = 5;
    e.copy_region();
    assert_eq!(e.buffer.get_line(1), "hello world\n");
    assert_eq!(e.kill_ring.yank(), Some("hello"));
    assert!(!e.state.region_active);
}

#[test]
fn emacs_kill_region_pushes_to_kill_ring() {
    let mut e = engine();
    e.set_buffer_for_test("hello world\n");
    e.state.mark = Some(Position { line: 1, col: 0 });
    e.state.region_active = true;
    e.state.cursor.col = 5;
    e.kill_region();
    assert_eq!(e.kill_ring.yank(), Some("hello"));
    assert_eq!(e.buffer.get_line(1), " world\n");
    assert_eq!(e.state.cursor, Position { line: 1, col: 0 });
    assert!(e.state.dirty);
}

#[test]
fn emacs_yank_from_kill_ring_inserts_text() {
    let mut e = engine();
    e.set_buffer_for_test("hello world\n");
    e.kill_ring.push("xyz");
    e.state.cursor.col = 5;
    e.yank_from_kill_ring();
    assert_eq!(e.buffer.get_line(1), "helloxyz world\n");
    assert_eq!(e.state.cursor.col, 8);
}

#[test]
fn emacs_deactivate_region_clears_active_flag() {
    let mut e = engine();
    e.set_buffer_for_test("hello\n");
    e.set_mark();
    assert!(e.deactivate_region());
    assert!(!e.state.region_active);
    assert!(!e.deactivate_region());
}

#[test]
fn yank_pop_replaces_last_yank() {
    let mut e = engine();
    e.set_buffer_for_test("ab\n");
    e.kill_ring.push("one");
    e.kill_ring.push("two");
    e.state.cursor.col = 1;
    e.yank_from_kill_ring();
    assert_eq!(e.buffer.get_line(1), "atwob\n");
    e.yank_pop();
    assert_eq!(e.buffer.get_line(1), "aoneb\n");
    assert_eq!(e.state.cursor.col, 4);
}

#[test]
fn emacs_ctrl_t_transpose_chars() {
    let mut e = engine();
    e.set_buffer_for_test("abc\n");
    e.state.cursor.col = 1;
    e.transpose_chars();
    assert_eq!(e.buffer.get_line(1), "bac\n");
}

#[test]
fn snapshot_reports_state() {
    let mut e = engine();
    e.set_buffer_for_test("hi\n");
    let (t, l, c, m) = e.snapshot_for_test();
    assert_eq!(t, "hi\n");
    assert_eq!((l, c), (1, 0));
    assert_eq!(m, Mode::Normal);
}

#[test]
fn vim_page_down_moves_cursor_down() {
    let mut e = engine();
    let text: String = (0..100).map(|i| format!("line{}\n", i)).collect();
    e.set_buffer_for_test(&text);
    e.page_down(24);
    assert!(e.state.cursor.line > 1);
    let after = e.state.cursor.line;
    e.page_up(24);
    assert!(e.state.cursor.line < after);
}

#[test]
fn vim_w_word_forward() {
    let mut e = engine();
    e.set_buffer_for_test("hello world foo\n");
    e.move_word_forward();
    assert_eq!(e.state.cursor.col, 5, "w moved to space after 'hello'");
}

#[test]
fn vim_b_word_backward() {
    let mut e = engine();
    e.set_buffer_for_test("hello world\n");
    e.state.cursor.col = 8;
    e.move_word_backward();
    assert_eq!(e.state.cursor.col, 6, "b moved to start of 'world'");
}

#[test]
fn vim_e_word_end() {
    let mut e = engine();
    e.set_buffer_for_test("hello world\n");
    e.move_word_end();
    assert_eq!(e.state.cursor.col, 4, "e moved to end of 'hello' (index 4 = 'o')");
}

#[test]
fn vim_find_char_f() {
    let mut e = engine();
    e.set_buffer_for_test("hello world\n");
    assert!(e.find_char('w', false, true));
    assert_eq!(e.state.cursor.col, 6, "f w moves to 'w' at col 6");
}

#[test]
fn vim_find_repeat_semicolon() {
    let mut e = engine();
    e.set_buffer_for_test("he.llo wo.rld\n");
    assert!(e.find_char('.', false, true));
    assert_eq!(e.state.cursor.col, 2);
    e.search_state.last_fchar = Some('.');
    e.search_state.last_fchar_till = false;
    assert!(e.repeat_find(true));
    assert_eq!(e.state.cursor.col, 9);
    assert!(!e.find_char('z', false, true));
}

#[test]
fn vim_percent_matching_bracket() {
    let mut e = engine();
    e.set_buffer_for_test("(a [b] c)\n");
    e.jump_to_matching_bracket();
    assert_eq!(e.state.cursor.col, 8);
    e.jump_to_matching_bracket();
    assert_eq!(e.state.cursor.col, 0);
}

#[test]
fn search_finds_literal_text_with_regex_characters() {
    let mut e = engine();
    e.set_buffer_for_test("a.b axb\na.b\n");
    let r = e.buffer.search("a.b");
    assert_eq!(r.len(), 2);
    assert_eq!((r[0].line, r[0].start_col), (1, 0));
    assert_eq!((r[1].line, r[1].start_col), (2, 0));
    assert!(e.buffer.search("").is_empty());
}

#[test]
fn buffers_and_windows() {
    let mut e = engine();
    e.set_buffer_for_test("first\n");
    assert!(e.buffer_next().is_err());
    e.buffer_open(std::path::PathBuf::from("/tmp/second.txt"), "second\n");
    assert_eq!(e.buffer.to_string(), "second\n");
    assert!(e.buffer_next().is_ok());
    assert_eq!(e.buffer.to_string(), "first\n");
    assert!(e.split_vertical().is_ok());
    assert_eq!(e.window_layout.windows.len(), 2);
    assert!(e.close_focused_window().is_ok());
    assert_eq!(e.window_layout.windows.len(), 1);
    assert!(e.close_focused_window().is_err());
}

fn press(e: &mut Engine, c: char) -> ijevim::step::StepOutcome {
    let (action, _) = e.operator_state.normal_key(Key::Char(c), true, false);
    match action {
        NormalAction::OperatorKey { op, count } => {
            let a = e.operator_state.operator_key(op, Key::Char(c), count);
            e.perform_operator(a, 24)
        }
        _ => e.perform_normal(action),
    }
}

#[test]
fn normal_j_joins_with_space_and_dot_repeats() {
    let mut e = engine();
    e.set_buffer_for_test("line1\nline2\nline3\n");
    assert_eq!(press(&mut e, 'J'), ijevim::step::StepOutcome::Done);
    assert!(e.snapshot_for_test().0.starts_with("line1 line2"));
    press(&mut e, '0');
    press(&mut e, '.');
    assert!(e.snapshot_for_test().0.contains("line1 line2 line3"));
}

#[test]
fn normal_tilde_toggles_and_advances() {
    let mut e = engine();
    e.set_buffer_for_test("abc\n");
    press(&mut e, '~');
    let (text, _, col, _) = e.snapshot_for_test();
    assert!(text.starts_with("Abc"));
    assert_eq!(col, 1);
}

#[test]
fn normal_indent_then_dot_on_next_line() {
    let mut e = engine();
    e.set_buffer_for_test("line1\nline2\n");
    e.state.expandtab = true;
    e.state.shiftwidth = 4;
    press(&mut e, '>');
    press(&mut e, '>');
    press(&mut e, 'j');
    press(&mut e, '.');
    let text = e.snapshot_for_test().0;
    let lines: Vec<&str> = text.lines().collect();
    assert!(lines[0].starts_with("    "));
    assert!(lines[1].starts_with("    "));
}

#[test]
fn normal_x_then_dd_and_search_left_to_caller() {
    let mut e = engine();
    e.set_buffer_for_test("abc\ndef\n");
    press(&mut e, 'x');
    assert_eq!(e.snapshot_for_test().0, "bc\ndef\n");
    press(&mut e, 'd');
    press(&mut e, 'd');
    assert_eq!(e.snapshot_for_test().0, "def\n");
    assert_eq!(press(&mut e, 'n'), ijevim::step::StepOutcome::Elsewhere);
    assert_eq!(press(&mut e, 'u'), ijevim::step::StepOutcome::Elsewhere);
}

#[test]
fn normal_right_past_the_word_is_refused() {
    let mut e = engine();
    e.set_buffer_for_test("abc\n");
    e.state.cursor.col = 5;
    let before = e.snapshot_for_test();
    assert_eq!(e.perform_normal(NormalAction::Right(usize::MAX)), ijevim::step::StepOutcome::Refused);
    assert_eq!(e.snapshot_for_test(), before);
}

#[test]
fn substitute_current_line_first_match() {
    let mut e = engine();
    e.set_buffer_for_test("foo foo\nfoo\n");
    let r = e.substitute("s/foo/X/");
    assert_eq!(r, Ok("1 substitutions on 1 line".to_string()));
    assert_eq!(e.snapshot_for_test().0, "X foo\nfoo\n");
    assert!(e.state.dirty);
}

#[test]
fn substitute_all_lines_global_keeps_line_breaks() {
    let mut e = engine();
    e.set_buffer_for_test("foo foo\nbar\nfoo\n");
    let r = e.substitute("%s/o/0/g");
    assert_eq!(r, Ok("2 substitutions on all lines".to_string()));
    assert_eq!(e.snapshot_for_test().0, "f00 f00\nbar\nf00\n");
}

#[test]
fn substitute_errors() {
    let mut e = engine();
    e.set_buffer_for_test("abc\n");
    assert_eq!(e.substitute("x/a/b/"), Err("Invalid substitute command".to_string()));
    assert_eq!(e.substitute("s/abc"), Err("Invalid substitute syntax".to_string()));
    let r = e.substitute("s/(/b/");
    assert!(matches!(r, Err(ref m) if m.starts_with("Regex error: ")));
    assert_eq!(e.snapshot_for_test().0, "abc\n");
}

#[test]
fn substitute_expands_groups_and_no_match_changes_nothing() {
    let mut e = engine();
    e.set_buffer_for_test("key=value\n");
    assert_eq!(e.substitute("s/(\\w+)=(\\w+)/$2=$1/"), Ok("1 substitutions on 1 line".to_string()));
    assert_eq!(e.snapshot_for_test().0, "value=key\n");
    assert_eq!(e.substitute("s/zzz/y/"), Ok("0 substitutions on 1 lines".to_string()));
    assert_eq!(e.snapshot_for_test().0, "value=key\n");
}

#[test]
fn emacs_delete_undo_redo_brings_deletion_back() {
    let mut e = engine();
    e.set_buffer_for_test("hello world\n");
    e.state.cursor.col = 5;
    e.delete_char('"');
    assert_eq!(e.snapshot_for_test().0, "helloworld\n");
    assert!(e.try_undo().is_some());
    assert_eq!(e.snapshot_for_test().0, "hello world\n");
    assert!(e.try_redo().is_some());
    assert_eq!(e.snapshot_for_test().0, "helloworld\n");
}

#[test]
fn try_undo_at_root_changes_nothing() {
    let mut e = engine();
    e.set_buffer_for_test("abc\n");
    let r = e.try_undo().unwrap();
    assert!(!r.needs_render);
    assert_eq!(e.snapshot_for_test().0, "abc\n");
    let r = e.try_redo().unwrap();
    assert!(!r.needs_render);
}

#[test]
fn execute_ex_decides_what_the_caller_does() {
    use_ex_items();
}

fn use_ex_items() {
    let mut e = engine();
    e.set_buffer_for_test("abc\n");
    assert_eq!(e.execute_ex(&parse_ex_command("q")), ExOutcome::Stop);
    assert_eq!(e.execute_ex(&parse_ex_command("wq")), ExOutcome::Save(true));
    assert_eq!(e.execute_ex(&parse_ex_command("keymap emacs")), ExOutcome::SwitchKeymap(Keymap::Emacs));
    assert_eq!(e.execute_ex(&parse_ex_command("keymap foo")), ExOutcome::Done);
    assert_eq!(e.state.last_message.as_deref(), Some("Unknown keymap: foo (use vim or emacs)"));
    assert_eq!(e.execute_ex(&parse_ex_command("s/b/X/")), ExOutcome::Done);
    assert_eq!(e.snapshot_for_test().0, "aXc\n");
    assert_eq!(e.state.last_message.as_deref(), Some("1 substitutions on 1 line"));
    assert_eq!(e.execute_ex(&parse_ex_command("q")), ExOutcome::Done);
    assert!(e.state.has_confirmation());
    assert_eq!(e.execute_ex(&parse_ex_command("bn")), ExOutcome::Elsewhere);
}

#[test]
fn file_info_and_buffer_list_name_the_files() {
    let mut e = engine();
    e.buffer_open(std::path::PathBuf::from("/tmp/some_dir/second.txt"), "second\n");
    let m = e.show_file_info().message.unwrap();
    assert!(m.starts_with("\"/tmp/some_dir/second.txt\" "));
    let list = e.buffer_list();
    assert!(list.starts_with("  * second.txt"));
    assert!(list.contains("  1 [No Name]"));
}
