use ijevim::keymap::Key;
use ijevim::review::keys::ReviewOutcome;
use ijevim::review::mock::create_mock_review_state;
use ijevim::review::state::{DiffStyle, ReviewArgs, ReviewSubMode};

#[test]
fn file_list_navigation_and_views() {
    let mut st = create_mock_review_state(ReviewArgs::WorkingTree);
    assert_eq!(st.sub_mode, ReviewSubMode::FileList);
    let n = st.files.len();
    assert!(n >= 2);
    assert!(matches!(st.review_key(Key::Char('k'), true), ReviewOutcome::Nothing));
    assert_eq!(st.selected_file, 0);
    st.review_key(Key::Char('j'), true);
    assert_eq!(st.selected_file, 1);
    assert_eq!(st.selected_hunk, 0);
    st.review_key(Key::Char('d'), true);
    assert_eq!(st.diff_style, DiffStyle::SideBySide);
    st.review_key(Key::Char('?'), true);
    assert_eq!(st.sub_mode, ReviewSubMode::Help);
    st.review_key(Key::Char('x'), true);
    assert_eq!(st.sub_mode, ReviewSubMode::FileList);
    st.review_key(Key::Enter, true);
    assert_eq!(st.sub_mode, ReviewSubMode::DiffView);
    st.review_key(Key::Esc, true);
    assert_eq!(st.sub_mode, ReviewSubMode::FileList);
    assert!(matches!(st.review_key(Key::Esc, true), ReviewOutcome::Exit));
    assert!(matches!(st.review_key(Key::Char('q'), true), ReviewOutcome::Exit));
    assert!(!matches!(st.review_key(Key::Char('q'), false), ReviewOutcome::Exit));
}

#[test]
fn diff_view_staging_and_scrolling() {
    let mut st = create_mock_review_state(ReviewArgs::WorkingTree);
    st.review_key(Key::Enter, true);
    st.review_key(Key::Char('j'), true);
    st.review_key(Key::Char('j'), true);
    st.review_key(Key::Char('k'), true);
    assert_eq!(st.scroll.scroll_top, 1);
    let staged = st.files[0].hunks[0].staged;
    if st.project_root.is_none() {
        st.review_key(Key::Enter, true);
        assert_eq!(st.files[0].hunks[0].staged, !staged);
    } else {
        match st.review_key(Key::Enter, true) {
            ReviewOutcome::Stage { file: 0, hunk: 0, stage } => assert_eq!(stage, !staged),
            other => panic!("{:?}", other),
        }
    }
    st.set_hunk_staged(0, 0, true);
    assert!(st.files[0].hunks[0].staged);
}

#[test]
fn comments_are_started_and_saved() {
    let mut st = create_mock_review_state(ReviewArgs::WorkingTree);
    st.review_key(Key::Enter, true);
    st.review_key(Key::Char('c'), true);
    assert_eq!(st.sub_mode, ReviewSubMode::CommentInput);
    assert!(matches!(st.review_key(Key::Char('h'), true), ReviewOutcome::EditComment));
    st.comment_buffer = "  looks wrong ".to_string();
    st.comment_cursor = st.comment_buffer.len();
    match st.review_key(Key::Enter, true) {
        ReviewOutcome::SaveComment { file_path, text, .. } => {
            assert_eq!(file_path, st.files[0].new_path);
            assert_eq!(text, "looks wrong");
        }
        other => panic!("{:?}", other),
    }
    assert_eq!(st.sub_mode, ReviewSubMode::DiffView);
    assert_eq!(st.comment_buffer, "");
    st.review_key(Key::Char('c'), true);
    assert!(matches!(st.review_key(Key::Enter, true), ReviewOutcome::Nothing));
    assert_eq!(st.sub_mode, ReviewSubMode::DiffView);
}
