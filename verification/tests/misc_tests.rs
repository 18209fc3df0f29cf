use ijevim::gutter::gutter_label;
use ijevim::line_edit::{line_edit, LineOp};
use ijevim::dashboard::{dashboard_texts, DashPart};
use ijevim::keymap::{EmacsAction, EmacsKeymap, Key};
use ijevim::layout::WindowLayout;
use ijevim::plugin::{
    create_default_registry, event_name_str, plugin_event_name, LoaderError, LoaderKind,
    LoaderRegistry, PluginManager,
};
use ijevim::review::labels::{display_width, short_filename, truncate};
use ijevim::review::layout::compute_review_layout;
use ijevim::review::mock::create_mock_review_state;
use ijevim::review::state::ReviewArgs;
use ijevim::types::PluginEvent;
use ijevim::width::{char_display_width, unicode_width_str, wrapped_rows, wrapped_rows_checked};

#[test]
fn display_widths() {
    assert_eq!(char_display_width('a'), 1);
    assert_eq!(char_display_width('\u{7}'), 0);
    assert_eq!(char_display_width('中'), 2);
    assert_eq!(unicode_width_str("ab中\n"), 4);
    assert_eq!(unicode_width_str(""), 0);
}

#[test]
fn wrapped_row_counts() {
    assert_eq!(wrapped_rows("abcdefghij\n", 4, true, 8), 3);
    assert_eq!(wrapped_rows("abcdefgh\n", 4, true, 8), 2);
    assert_eq!(wrapped_rows("abcdefgh\n", 4, false, 8), 1);
    assert_eq!(wrapped_rows("\n", 0, true, 8), 1);
    assert_eq!(wrapped_rows_checked("abc", 0, true, 8), None);
    assert_eq!(wrapped_rows_checked("abc", 2, true, 8), Some(2));
}

#[test]
fn loader_registry_picks_by_extension() {
    let reg = create_default_registry();
    assert_eq!(reg.load("init.lua").unwrap(), LoaderKind::Lua);
    assert_eq!(reg.load("x/y.lisp").unwrap(), LoaderKind::Lisp);
    assert_eq!(reg.load("p.js").unwrap(), LoaderKind::JavaScript);
    assert_eq!(reg.load("libp.so").unwrap(), LoaderKind::Rust);
    match reg.load("notes.txt") {
        Err(LoaderError::UnsupportedLanguage(e)) => assert_eq!(e, "txt"),
        other => panic!("unexpected {:?}", other),
    }
    match reg.load("Makefile") {
        Err(LoaderError::UnsupportedLanguage(e)) => assert_eq!(e, "no extension"),
        other => panic!("unexpected {:?}", other),
    }
    let empty = LoaderRegistry::new();
    assert!(empty.load("init.lua").is_err());
    assert_eq!(LoaderKind::Rust.supported_extensions(), vec!["so", "dylib", "dll"]);
}

#[test]
fn loader_error_messages() {
    assert_eq!(LoaderError::Io("x".to_string()).message(), "IO error: x");
    assert_eq!(
        LoaderError::ApiVersionMismatch { expected: 1, actual: 2 }.message(),
        "API version mismatch: expected v1, got v2"
    );
}

#[test]
fn plugin_events_are_queued_in_order() {
    let mut pm = PluginManager::new();
    pm.emit(PluginEvent::Ready);
    pm.emit(PluginEvent::BufferChange);
    let evs = pm.take_events();
    assert_eq!(evs.len(), 2);
    assert_eq!(event_name_str(&evs[0]), "Ready");
    assert_eq!(plugin_event_name(&evs[1]), Some("buffer_change"));
    assert!(pm.take_events().is_empty());
}

#[test]
fn emacs_bindings() {
    let km = EmacsKeymap::new();
    assert_eq!(km.action(false, false, true, false, Key::Char('x'), false).0, EmacsAction::StartPrefix);
    assert_eq!(km.action(false, true, true, false, Key::Char('s'), false).0, EmacsAction::Save);
    assert_eq!(km.action(false, true, true, false, Key::Char('c'), false).0, EmacsAction::Quit);
    assert_eq!(km.action(false, false, false, true, Key::Char('f'), false).0, EmacsAction::WordForward);
    assert_eq!(km.action(false, false, false, false, Key::Char('q'), false).0, EmacsAction::InsertChar('q'));
    assert_eq!(km.action(true, false, false, false, Key::Char('y'), false).0, EmacsAction::Confirm);
}

#[test]
fn review_layout_splits_screen() {
    let l = compute_review_layout(24, 90, 30);
    assert_eq!(l.status_row, 23);
    assert_eq!((l.file_list.col_start, l.file_list.col_end), (0, 30));
    assert_eq!((l.diff_view.col_start, l.diff_view.col_end), (30, 90));
    let l = compute_review_layout(24, 30, 30);
    assert_eq!(l.file_list.col_end, 20);
}

#[test]
fn labels_shorten_and_truncate() {
    assert_eq!(short_filename("src/main.rs", 20), "src/main.rs");
    assert_eq!(short_filename("src/review/annotations.rs", 10), "...ions.rs");
    assert_eq!(short_filename("abcdefgh", 3), "abc");
    assert_eq!(truncate("hello", 3), "hel");
    assert_eq!(truncate("hi", 3), "hi");
    assert_eq!(display_width("héllo"), 5);
}

#[test]
fn mock_review_state_is_browsable() {
    let st = create_mock_review_state(ReviewArgs::WorkingTree);
    assert!(st.file_count() > 0);
    assert!(st.current_file().is_some());
    assert!(st.current_hunk().is_some());
    assert_eq!(st.comment_cursor, 0);
}

#[test]
fn window_splits_and_focus() {
    let mut w = WindowLayout::new_single(24, 80);
    assert_eq!(w.windows.len(), 1);
    w.split_vertical();
    assert_eq!(w.windows.len(), 2);
    w.focus_next();
    w.close_focused();
    assert_eq!(w.windows.len(), 1);
    assert!(w.focused < w.windows.len());
}

#[test]
fn highlighter_splits_lines_into_runs() {
    let mut h = ijevim::highlight::Highlighter::new();
    let plain = h.update("ab\ncd\n", None).unwrap();
    assert_eq!(plain.len(), 2);
    let first: String = plain[0].iter().map(|r| r.text.as_str()).collect();
    assert_eq!(first, "ab\n");
    assert!(h.update("ab\ncd\n", None).is_none());
    let mut b = ijevim::buffer::TextBuffer::with_text("fn main() {}\n");
    b.set_file_path(Some(std::path::PathBuf::from("example_file_for_colouring.rs")));
    let rust = h.update("fn main() {}\n", b.file()).unwrap();
    assert_eq!(rust.len(), 1);
    let joined: String = rust[0].iter().map(|r| r.text.as_str()).collect();
    assert_eq!(joined, "fn main() {}\n");
    assert!(rust[0].len() > 1);
}

#[test]
fn dashboard_layout_on_a_normal_screen() {
    let t = dashboard_texts(24, 80, "0.1.0");
    // content rows 23, start (23 - 18) / 2 = 2
    assert_eq!(t.len(), 6 + 2 + 8 + 1);
    assert_eq!((t[0].row, t[0].col, t[0].part), (2, 20, DashPart::Logo));
    assert_eq!(t[6].text, "v0.1.0 \u{2014} IJEVIM");
    assert_eq!((t[6].row, t[6].col), (9, 32));
    assert_eq!((t[7].row, t[7].col, t[7].text.chars().count()), (11, 20, 40));
    assert_eq!((t[8].row, t[8].col, t[8].text.as_str()), (13, 25, "[e]"));
    assert_eq!((t[9].row, t[9].col, t[9].text.as_str()), (13, 30, "Open file explorer"));
    assert_eq!((t[15].row, t[15].text.as_str()), (16, "Quit"));
    assert_eq!((t[16].row, t[16].col, t[16].part), (22, 28, DashPart::Hint));
}

#[test]
fn dashboard_small_and_clipped() {
    assert!(dashboard_texts(1, 80, "1").is_empty());
    let t = dashboard_texts(3, 8, "1");
    assert_eq!(t.len(), 4);
    assert_eq!((t[0].row, t[0].col, t[0].text.as_str()), (0, 1, "[e]"));
    assert_eq!((t[1].col, t[1].text.as_str()), (6, "Op"));
    assert_eq!((t[2].row, t[3].text.as_str()), (1, "Ne"));
}

#[test]
fn line_edit_works_on_characters_with_byte_cursor() {
    assert_eq!(line_edit("abc", 3, LineOp::Backspace), Some(("ab".to_string(), 2)));
    assert_eq!(line_edit("a\u{e9}b", 3, LineOp::Left), Some(("a\u{e9}b".to_string(), 1)));
    assert_eq!(line_edit("a\u{e9}b", 1, LineOp::Right), Some(("a\u{e9}b".to_string(), 3)));
    assert_eq!(line_edit("a\u{e9}b", 3, LineOp::Backspace), Some(("ab".to_string(), 1)));
    assert_eq!(line_edit("ab", 1, LineOp::Insert('\u{e9}')), Some(("a\u{e9}b".to_string(), 3)));
    assert_eq!(line_edit("ab", 0, LineOp::Delete), Some(("b".to_string(), 0)));
    assert_eq!(line_edit("ab", 99, LineOp::Home), Some(("ab".to_string(), 0)));
    assert_eq!(line_edit("ab", 0, LineOp::End), Some(("ab".to_string(), 2)));
    assert_eq!(line_edit("e foo bar", 9, LineOp::DeleteWordBack), Some(("e foo".to_string(), 5)));
    assert_eq!(line_edit("e foo  ", 7, LineOp::DeleteWordBack), Some(("e".to_string(), 1)));
    assert_eq!(line_edit("word", 4, LineOp::DeleteWordBack), Some(("".to_string(), 0)));
}

#[test]
fn comment_and_command_keys_edit_their_lines() {
    let mut st = create_mock_review_state(ReviewArgs::WorkingTree);
    st.comment_buffer = "ab".to_string();
    st.comment_cursor = 2;
    assert!(st.comment_key(Key::Char('c')));
    assert!(st.comment_key(Key::Left));
    assert!(st.comment_key(Key::Backspace));
    assert_eq!((st.comment_buffer.as_str(), st.comment_cursor), ("ac", 1));
    assert!(!st.comment_key(Key::Tab));
    let mut es = ijevim::types::EditorState::default();
    es.command_buffer = "e foo".to_string();
    es.command_cursor_pos = 5;
    assert!(es.command_key(Key::Char('w'), true));
    assert_eq!((es.command_buffer.as_str(), es.command_cursor_pos), ("e", 1));
    assert!(es.command_key(Key::Char('a'), true));
    assert_eq!(es.command_cursor_pos, 0);
    assert!(!es.command_key(Key::Char('z'), true));
}

#[test]
fn gutter_labels_absolute_and_relative() {
    assert_eq!(gutter_label(7, 1, 120, true, false), "  7  ");
    assert_eq!(gutter_label(123, 1, 120, true, false), "123  ");
    assert_eq!(gutter_label(7, 1, 0, true, false), "7  ");
    assert_eq!(gutter_label(7, 5, 20, false, true), " 2  ");
    assert_eq!(gutter_label(5, 5, 20, true, true), " 5  ");
    assert_eq!(gutter_label(5, 5, 20, false, true), " 0  ");
    assert_eq!(gutter_label(5, 5, 20, false, false), "");
}

#[test]
fn loaders_of_the_program_come_after_the_built_in_ones() {
    let mut reg = create_default_registry();
    reg.register_custom(7, vec!["py".to_string(), "lua".to_string()]);
    assert_eq!(reg.load("tool.py").unwrap(), LoaderKind::Custom(7));
    assert_eq!(reg.load("init.lua").unwrap(), LoaderKind::Lua);
    assert!(matches!(reg.load("x.rb"), Err(LoaderError::UnsupportedLanguage(ref e)) if e == "rb"));
}
