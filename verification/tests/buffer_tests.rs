use ijevim::buffer::TextBuffer;
use ijevim::types::Position;
use ijevim::undo::{Edit, EditType, UndoManager};

#[test]
fn test_insert_char() {
    let mut buf = TextBuffer::new();
    buf.insert_char(1, 0, 'a');
    assert_eq!(buf.get_line(1), "a");
    assert!(buf.is_dirty());
    assert_eq!(buf.modification_count(), 1);
}

#[test]
fn test_insert_at_end_of_buffer() {
    let mut buf = TextBuffer::new();
    buf.insert(1, 0, "hello");
    assert_eq!(buf.get_line(1), "hello");
    assert!(buf.is_dirty());
}

#[test]
fn test_delete_char() {
    let mut buf = TextBuffer::with_text("ab\n");
    buf.delete(1, 0);
    assert_eq!(buf.get_line(1), "b\n");
    assert!(buf.is_dirty());
}

#[test]
fn test_merge_with_prev_line() {
    let mut buf = TextBuffer::with_text("hello\nworld\n");
    buf.merge_with_prev_line(2);
    assert_eq!(buf.to_string(), "helloworld\n");
    assert!(buf.is_dirty());
}

#[test]
fn test_is_dirty_mirrors_modification_count() {
    let mut buf = TextBuffer::new();
    assert!(!buf.is_dirty());
    assert!(buf.is_clean());
    buf.insert_char(1, 0, 'x');
    assert!(buf.is_dirty());
    assert!(!buf.is_clean());
    buf.mark_clean();
    assert!(!buf.is_dirty());
    assert!(buf.is_clean());
}

#[test]
fn get_line_out_of_range_is_empty() {
    let buf = TextBuffer::with_text("a\nb\n");
    assert_eq!(buf.line_count(), 3);
    assert_eq!(buf.get_line(0), "");
    assert_eq!(buf.get_line(2), "b\n");
    assert_eq!(buf.get_line(9), "");
    assert_eq!(buf.line_char_len(1), 2);
}

#[test]
fn insert_newline_splits_line() {
    let mut buf = TextBuffer::with_text("abcd\n");
    buf.insert_newline(1, 2);
    assert_eq!(buf.to_string(), "ab\ncd\n");
    assert_eq!(buf.modification_count(), 1);
}

#[test]
fn merge_first_line_does_nothing() {
    let mut buf = TextBuffer::with_text("x\ny\n");
    assert_eq!(buf.merge_with_prev_line(1), 0);
    assert!(buf.is_clean());
    assert_eq!(buf.merge_with_prev_line(2), 1);
}

#[test]
fn undo_of_insert_restores_and_redo_reapplies() {
    let mut buf = TextBuffer::with_text("hello world\n");
    buf.insert(1, 5, ",");
    assert_eq!(buf.to_string(), "hello, world\n");
    let mut um = UndoManager::new();
    um.push(Edit {
        edit_type: EditType::Insert { line: 1, col: 5, text: ",".to_string() },
        cursor_before: Position { line: 1, col: 5 },
        cursor_after: Position { line: 1, col: 6 },
        modification_count: buf.modification_count(),
    });
    assert!(um.undo(&mut buf).is_some());
    assert_eq!(buf.to_string(), "hello world\n");
    assert!(um.undo(&mut buf).is_none());
    assert!(um.redo(&mut buf).is_some());
    assert_eq!(buf.to_string(), "hello, world\n");
    assert!(um.redo(&mut buf).is_none());
}

#[test]
fn word_at_cursor() {
    let buf = TextBuffer::with_text("foo bar_baz qux\n");
    let (w, s, e) = buf.get_word_at(1, 5);
    assert_eq!(w, "bar_baz");
    assert_eq!((s, e), (4, 11));
}

#[test]
fn delete_block_range_keeps_empty_lines_in_result() {
    let mut b = TextBuffer::with_text("abc\n\nabc\n");
    let g = b.get_block_range(1, 1, 3, 3);
    assert_eq!(g, "bc\n\nbc");
    let d = b.delete_block_range(1, 1, 3, 3);
    assert_eq!(d, g);
    assert_eq!(b.to_string(), "a\n\na\n");
}

#[test]
fn undo_of_delete_restores_and_redo_deletes_again() {
    let mut buf = TextBuffer::with_text("hello world\n");
    let removed = buf.delete_range(1, 5, 1, 6);
    assert_eq!(removed, " ");
    assert_eq!(buf.to_string(), "helloworld\n");
    let mut um = UndoManager::new();
    um.push(Edit {
        edit_type: EditType::Delete { line: 1, col: 5, text: " ".to_string() },
        cursor_before: Position { line: 1, col: 5 },
        cursor_after: Position { line: 1, col: 5 },
        modification_count: buf.modification_count(),
    });
    assert!(um.undo(&mut buf).is_some());
    assert_eq!(buf.to_string(), "hello world\n");
    assert!(um.redo(&mut buf).is_some());
    assert_eq!(buf.to_string(), "helloworld\n");
}

#[test]
fn push_after_undo_keeps_old_branch_first() {
    let mut buf = TextBuffer::with_text("ab\n");
    let mut um = UndoManager::new();
    buf.insert(1, 2, "x");
    um.push(Edit {
        edit_type: EditType::Insert { line: 1, col: 2, text: "x".to_string() },
        cursor_before: Position { line: 1, col: 2 },
        cursor_after: Position { line: 1, col: 3 },
        modification_count: buf.modification_count(),
    });
    let first = um.parent_node();
    assert_eq!(first, Some(0));
    um.undo(&mut buf);
    let old_child = um.first_child_node();
    buf.insert(1, 0, "y");
    um.push(Edit {
        edit_type: EditType::Insert { line: 1, col: 0, text: "y".to_string() },
        cursor_before: Position { line: 1, col: 0 },
        cursor_after: Position { line: 1, col: 1 },
        modification_count: buf.modification_count(),
    });
    um.undo(&mut buf);
    assert_eq!(um.first_child_node(), old_child);
    assert_eq!(buf.to_string(), "ab\n");
}

#[test]
fn clear_gives_fresh_history() {
    let mut buf = TextBuffer::with_text("ab\n");
    let mut um = UndoManager::new();
    buf.insert(1, 0, "z");
    um.push(Edit {
        edit_type: EditType::Insert { line: 1, col: 0, text: "z".to_string() },
        cursor_before: Position { line: 1, col: 0 },
        cursor_after: Position { line: 1, col: 1 },
        modification_count: buf.modification_count(),
    });
    um.clear();
    assert_eq!(um.parent_node(), None);
    assert_eq!(um.first_child_node(), None);
    assert!(um.undo(&mut buf).is_none());
    assert!(um.redo(&mut buf).is_none());
    assert_eq!(buf.to_string(), "zab\n");
}

#[test]
fn redo_takes_the_most_recent_branch() {
    let mut buf = TextBuffer::with_text("ab\n");
    let mut um = UndoManager::new();
    buf.insert(1, 0, "X");
    um.push(Edit {
        edit_type: EditType::Insert { line: 1, col: 0, text: "X".to_string() },
        cursor_before: Position { line: 1, col: 0 },
        cursor_after: Position { line: 1, col: 1 },
        modification_count: buf.modification_count(),
    });
    um.undo(&mut buf);
    buf.insert(1, 0, "Y");
    um.push(Edit {
        edit_type: EditType::Insert { line: 1, col: 0, text: "Y".to_string() },
        cursor_before: Position { line: 1, col: 0 },
        cursor_after: Position { line: 1, col: 1 },
        modification_count: buf.modification_count(),
    });
    um.undo(&mut buf);
    assert_eq!(buf.to_string(), "ab\n");
    let e = um.redo(&mut buf).unwrap();
    assert!(matches!(e.edit_type, EditType::Insert { ref text, .. } if text == "Y"));
    assert_eq!(buf.to_string(), "Yab\n");
}

#[test]
fn undo_right_after_a_deletion_restores_the_text() {
    let mut buf = TextBuffer::with_text("hello world\n");
    let mut um = UndoManager::new();
    let mods = buf.modification_count();
    let gone = buf.delete_range(1, 5, 1, 11);
    assert_eq!(buf.to_string(), "hello\n");
    um.push(Edit {
        edit_type: EditType::Delete { line: 1, col: 5, text: gone },
        cursor_before: Position { line: 1, col: 5 },
        cursor_after: Position { line: 1, col: 5 },
        modification_count: mods,
    });
    let e = um.undo(&mut buf).unwrap();
    assert!(matches!(e.edit_type, EditType::Delete { ref text, .. } if text == " world"));
    assert_eq!(buf.to_string(), "hello world\n");
    assert_eq!(buf.modification_count(), mods);
    assert!(um.undo(&mut buf).is_none());
    assert_eq!(buf.to_string(), "hello world\n");
}
