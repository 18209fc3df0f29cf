use ijevim::buffer::TextBuffer;
use ijevim::engine::Engine;
use ijevim::highlight::StyledRun;
use ijevim::layout::Window;
use ijevim::plugin::PluginManager;
use ijevim::screen::{char_colours, follow_top, selection_cols, wrap_starts};
use ijevim::types::{EditorState, Mode, Position, VisualType};

fn engine_with(text: &str) -> Engine {
    let mut e = Engine::new(TextBuffer::new(), PluginManager::new(), EditorState::default());
    e.set_buffer_for_test(text);
    e
}

fn window(rows: usize, cols: usize, top: usize) -> Window {
    Window {
        row_start: 0,
        row_end: rows,
        col_start: 0,
        col_end: cols,
        scroll_top: top,
        cursor: Position { line: 1, col: 0 },
        buf_idx: 0,
    }
}

#[test]
fn wrap_starts_cuts_at_the_width() {
    let cs: Vec<char> = "abcdefg\n".chars().collect();
    assert_eq!(wrap_starts(&cs, 3, true), vec![0, 3, 6]);
    assert_eq!(wrap_starts(&cs, 3, false), vec![0]);
    assert_eq!(wrap_starts(&Vec::new(), 3, true), vec![0]);
}

#[test]
fn wrap_starts_keeps_wide_characters_whole() {
    let cs: Vec<char> = "a漢字b".chars().collect();
    assert_eq!(wrap_starts(&cs, 3, true), vec![0, 2]);
}

#[test]
fn window_rows_without_numbers_or_wrap() {
    let mut e = engine_with("one\ntwo\nthree\n");
    e.state.show_line_numbers = false;
    e.state.show_relative_numbers = false;
    e.state.wrap = false;
    let rows = e.window_rows(&window(2, 10, 2));
    assert_eq!(rows.len(), 2);
    assert_eq!((rows[0].line, rows[0].start_col, rows[0].end_col), (2, 0, 4));
    assert_eq!((rows[1].line, rows[1].start_col, rows[1].end_col), (3, 0, 6));
    assert_eq!(rows[0].gutter, "");
}

#[test]
fn window_rows_wrap_long_lines_beside_the_numbers() {
    let mut e = engine_with("abcdefgh\nxy\n");
    e.state.show_line_numbers = true;
    e.state.show_relative_numbers = false;
    e.state.wrap = true;
    // 7 columns, 3 for the numbers: rows of 4 characters.
    let rows = e.window_rows(&window(10, 7, 1));
    let ranges: Vec<(usize, usize, usize)> = rows.iter().map(|r| (r.line, r.start_col, r.end_col)).collect();
    assert_eq!(ranges, vec![(1, 0, 4), (1, 4, 9), (2, 0, 3), (3, 0, 0)]);
    assert_eq!(rows[0].gutter, "1  ");
    assert_eq!(rows[2].gutter, "2  ");
}

#[test]
fn window_rows_stop_at_the_window_height() {
    let mut e = engine_with("abcdefgh\nxy\n");
    e.state.show_line_numbers = false;
    e.state.show_relative_numbers = false;
    e.state.wrap = true;
    let rows = e.window_rows(&window(1, 4, 1));
    assert_eq!(rows.len(), 1);
    assert_eq!((rows[0].line, rows[0].start_col, rows[0].end_col), (1, 0, 4));
}

#[test]
fn window_rows_of_an_empty_window() {
    let e = engine_with("abc\n");
    assert!(e.window_rows(&window(0, 10, 1)).is_empty());
    assert!(e.window_rows(&window(5, 0, 1)).is_empty());
}

#[test]
fn relative_numbers_count_from_the_first_line() {
    let mut e = engine_with("a\nb\nc\n");
    e.state.show_line_numbers = false;
    e.state.show_relative_numbers = true;
    let rows = e.window_rows(&window(3, 10, 2));
    assert_eq!(rows[0].gutter, "0  ");
    assert_eq!(rows[1].gutter, "1  ");
}

#[test]
fn selection_of_a_characterwise_visual_range() {
    let mut st = EditorState::default();
    st.mode = Mode::Visual;
    st.visual_type = Some(VisualType::Character);
    st.visual_start = Some(Position { line: 1, col: 2 });
    st.cursor = Position { line: 3, col: 4 };
    assert_eq!(selection_cols(&st, 1), Some((2, usize::MAX)));
    assert_eq!(selection_cols(&st, 2), Some((0, usize::MAX)));
    assert_eq!(selection_cols(&st, 3), Some((0, 5)));
    assert_eq!(selection_cols(&st, 4), None);
}

#[test]
fn selection_of_a_block_and_of_lines() {
    let mut st = EditorState::default();
    st.mode = Mode::Visual;
    st.visual_type = Some(VisualType::Block);
    st.visual_start = Some(Position { line: 2, col: 5 });
    st.cursor = Position { line: 1, col: 1 };
    assert_eq!(selection_cols(&st, 1), Some((1, 6)));
    st.visual_type = Some(VisualType::Line);
    assert_eq!(selection_cols(&st, 2), Some((0, usize::MAX)));
    st.mode = Mode::Normal;
    assert_eq!(selection_cols(&st, 2), None);
}

#[test]
fn selection_of_the_emacs_region() {
    let mut st = EditorState::default();
    st.region_active = true;
    st.mark = Some(Position { line: 1, col: 6 });
    st.cursor = Position { line: 1, col: 2 };
    assert_eq!(selection_cols(&st, 1), Some((2, 7)));
}

#[test]
fn colours_follow_the_runs() {
    let runs = vec![
        StyledRun { r: 1, g: 2, b: 3, text: "ab".to_string() },
        StyledRun { r: 9, g: 9, b: 9, text: "c".to_string() },
    ];
    assert_eq!(char_colours(&runs), vec![(1, 2, 3), (1, 2, 3), (9, 9, 9)]);
}

#[test]
fn follow_top_scrolls_to_the_cursor() {
    assert_eq!(follow_top(1, 5, 10), 1);
    assert_eq!(follow_top(1, 15, 10), 6);
    assert_eq!(follow_top(8, 3, 10), 3);
}
