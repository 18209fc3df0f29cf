//! Sample review data, for developing the review screens without a repository.
use crate::review::state::{
    DiffFile, DiffFileView, DiffLine, DiffLineKind, DiffLineView, DiffStyle, FileStatus, Hunk,
    HunkView, ReviewArgs, ReviewState, ReviewSubMode, ScrollState,
};
use vstd::prelude::*;

verus! {

/// A diff line as values.
pub open spec fn lv(kind: DiffLineKind, content: Seq<char>, old_lineno: Option<usize>, new_lineno: Option<usize>) -> DiffLineView {
    DiffLineView { kind, content, old_lineno, new_lineno }
}

/// The sample files: a modified `src/main.rs` and an added `src/lib.rs`.
pub open spec fn mock_files_spec() -> Seq<DiffFileView> {
    seq![
        DiffFileView {
            status: FileStatus::Modified,
            old_path: "src/main.rs"@,
            new_path: "src/main.rs"@,
            hunks: seq![
                HunkView {
                    old_start: 10,
                    old_count: 7,
                    new_start: 10,
                    new_count: 9,
                    header: "@@ -10,7 +10,9 @@ fn main() {"@,
                    lines: seq![
                        lv(DiffLineKind::Context, "    let x = 1;"@, Some(10), Some(10)),
                        lv(DiffLineKind::Context, "    let y = 2;"@, Some(11), Some(11)),
                        lv(DiffLineKind::Delete, "    println!(\"old\");"@, Some(12), None),
                        lv(DiffLineKind::Add, "    println!(\"new and improved\");"@, None, Some(12)),
                        lv(DiffLineKind::Add, "    println!(\"another line\");"@, None, Some(13)),
                        lv(DiffLineKind::Context, "    let z = 3;"@, Some(13), Some(14)),
                        lv(DiffLineKind::Context, "}"@, Some(14), Some(15)),
                    ],
                    staged: false,
                },
            ],
        },
        DiffFileView {
            status: FileStatus::Added,
            old_path: "src/lib.rs"@,
            new_path: "src/lib.rs"@,
            hunks: seq![
                HunkView {
                    old_start: 0,
                    old_count: 0,
                    new_start: 1,
                    new_count: 3,
                    header: "@@ -0,0 +1,3 @@"@,
                    lines: seq![
                        lv(DiffLineKind::Add, "pub mod review;"@, None, Some(1)),
                        lv(DiffLineKind::Add, "pub mod types;"@, None, Some(2)),
                        lv(DiffLineKind::Add, "pub mod editor;"@, None, Some(3)),
                    ],
                    staged: false,
                },
            ],
        },
    ]
}

fn mk_line(kind: DiffLineKind, content: &str, old_lineno: Option<usize>, new_lineno: Option<usize>) -> (r: DiffLine)
    ensures
        r@ == lv(kind, content@, old_lineno, new_lineno),
{
    DiffLine { kind, content: String::from_str(content), old_lineno, new_lineno }
}

fn mk_file(
    status: FileStatus,
    path: &str,
    old_start: usize,
    old_count: usize,
    new_start: usize,
    new_count: usize,
    header: &str,
    lines: Vec<DiffLine>,
) -> (f: DiffFile)
    ensures
        f@ == (DiffFileView {
            status,
            old_path: path@,
            new_path: path@,
            hunks: seq![
                HunkView {
                    old_start,
                    old_count,
                    new_start,
                    new_count,
                    header: header@,
                    lines: lines@.map_values(|l: DiffLine| l@),
                    staged: false,
                },
            ],
        }),
{
    let mut hunks: Vec<Hunk> = Vec::new();
    hunks.push(
        Hunk {
            old_start,
            old_count,
            new_start,
            new_count,
            header: String::from_str(header),
            lines,
            staged: false,
        },
    );
    let f = DiffFile { status, old_path: String::from_str(path), new_path: String::from_str(path), hunks };
    proof {
        assert(f@.hunks =~= seq![f.hunks@[0]@]);
    }
    f
}

/// A review of sample data: two files, at the first file and hunk, in the
/// file list, with no annotations and no repository root.
pub fn create_mock_review_state(args: ReviewArgs) -> (st: ReviewState)
    ensures
        st.args@ == args@,
        st.files@.map_values(|f: DiffFile| f@) == mock_files_spec(),
        st.selected_file == 0,
        st.selected_hunk == 0,
        st.sub_mode == ReviewSubMode::FileList,
        st.annotations@.len() == 0,
        st.comments@.len() == 0,
        st.scroll.scroll_top == 0,
        st.diff_style == DiffStyle::Unified,
        st.file_list_width == 30,
        st.project_root is None,
        st.comment_buffer@.len() == 0,
        st.comment_cursor == 0,
{
    let mut files: Vec<DiffFile> = Vec::new();
    let mut lines: Vec<DiffLine> = Vec::new();
        lines.push(mk_line(DiffLineKind::Context, "    let x = 1;", Some(10), Some(10)));
        lines.push(mk_line(DiffLineKind::Context, "    let y = 2;", Some(11), Some(11)));
        lines.push(mk_line(DiffLineKind::Delete, "    println!(\"old\");", Some(12), None));
        lines.push(mk_line(DiffLineKind::Add, "    println!(\"new and improved\");", None, Some(12)));
        lines.push(mk_line(DiffLineKind::Add, "    println!(\"another line\");", None, Some(13)));
        lines.push(mk_line(DiffLineKind::Context, "    let z = 3;", Some(13), Some(14)));
        lines.push(mk_line(DiffLineKind::Context, "}", Some(14), Some(15)));
    proof {
        assert(lines@.map_values(|l: DiffLine| l@) =~= seq![lv(DiffLineKind::Context, "    let x = 1;"@, Some(10), Some(10)), lv(DiffLineKind::Context, "    let y = 2;"@, Some(11), Some(11)), lv(DiffLineKind::Delete, "    println!(\"old\");"@, Some(12), None), lv(DiffLineKind::Add, "    println!(\"new and improved\");"@, None, Some(12)), lv(DiffLineKind::Add, "    println!(\"another line\");"@, None, Some(13)), lv(DiffLineKind::Context, "    let z = 3;"@, Some(13), Some(14)), lv(DiffLineKind::Context, "}"@, Some(14), Some(15))]);
    }
    let f1 = mk_file(FileStatus::Modified, "src/main.rs", 10, 7, 10, 9, "@@ -10,7 +10,9 @@ fn main() {", lines);
    files.push(f1);
    let mut lines: Vec<DiffLine> = Vec::new();
        lines.push(mk_line(DiffLineKind::Add, "pub mod review;", None, Some(1)));
        lines.push(mk_line(DiffLineKind::Add, "pub mod types;", None, Some(2)));
        lines.push(mk_line(DiffLineKind::Add, "pub mod editor;", None, Some(3)));
    proof {
        assert(lines@.map_values(|l: DiffLine| l@) =~= seq![lv(DiffLineKind::Add, "pub mod review;"@, None, Some(1)), lv(DiffLineKind::Add, "pub mod types;"@, None, Some(2)), lv(DiffLineKind::Add, "pub mod editor;"@, None, Some(3))]);
    }
    let f2 = mk_file(FileStatus::Added, "src/lib.rs", 0, 0, 1, 3, "@@ -0,0 +1,3 @@", lines);
    files.push(f2);
    proof {
        assert(files@.map_values(|f: DiffFile| f@) =~= mock_files_spec());
    }
    let comment_buffer = String::new();
    proof {
        assert(comment_buffer@ =~= Seq::<char>::empty());
    }
    ReviewState {
        args,
        files,
        selected_file: 0,
        selected_hunk: 0,
        sub_mode: ReviewSubMode::FileList,
        annotations: Vec::new(),
        comments: Vec::new(),
        scroll: ScrollState { scroll_top: 0 },
        diff_style: DiffStyle::Unified,
        file_list_width: 30,
        project_root: None,
        comment_buffer,
        comment_cursor: 0,
    }
}

} // verus!
