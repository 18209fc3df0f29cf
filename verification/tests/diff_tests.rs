use ijevim::git::{find_root, run, GitOutput};
use ijevim::review::diff::{git_diff_args, git_diff_outcome, hunk_to_patch, parse_unified_diff, try_get_review_state};
use ijevim::review::state::{DiffLine, DiffLineKind, FileStatus, Hunk, ReviewArgs};
use ijevim::review::sides::{side_by_side_rows, SideKind};
use std::path::PathBuf;

#[test]
fn parse_empty_diff() {
    let files = parse_unified_diff("");
    assert!(files.is_empty());
}

#[test]
fn parse_simple_diff() {
    let input = "\
diff --git a/src/main.rs b/src/main.rs
index abc..def 100644
--- a/src/main.rs
+++ b/src/main.rs
@@ -1,3 +1,4 @@
 line1
 line2
-old line
+new line
+extra line
";
    let files = parse_unified_diff(input);
    assert_eq!(files.len(), 1);
    assert_eq!(files[0].status, FileStatus::Modified);
    assert_eq!(files[0].old_path, "src/main.rs");
    assert_eq!(files[0].new_path, "src/main.rs");
    assert_eq!(files[0].hunks.len(), 1);

    let hunk = &files[0].hunks[0];
    assert_eq!(hunk.lines.len(), 5);
    assert_eq!(hunk.lines[0].kind, DiffLineKind::Context);
    assert_eq!(hunk.lines[2].kind, DiffLineKind::Delete);
    assert_eq!(hunk.lines[3].kind, DiffLineKind::Add);
    assert_eq!(hunk.lines[4].kind, DiffLineKind::Add);
}

#[test]
fn parse_multiple_files() {
    let input = "\
diff --git a/a.rs b/a.rs
--- a/a.rs
+++ b/a.rs
@@ -1 +1,2 @@
 a
+b
diff --git a/b.rs b/b.rs
--- a/b.rs
+++ b/b.rs
@@ -1 +1 @@
-x
+y
";
    let files = parse_unified_diff(input);
    assert_eq!(files.len(), 2);
    assert_eq!(files[0].new_path, "a.rs");
    assert_eq!(files[1].new_path, "b.rs");
}

#[test]
fn parse_new_file() {
    let input = "\
diff --git a/src/new.rs b/src/new.rs
new file mode 100644
index 000..abc
--- /dev/null
+++ b/src/new.rs
@@ -0,0 +1,3 @@
+fn new_fn() {
+    todo!()
+}
";
    let files = parse_unified_diff(input);
    assert_eq!(files.len(), 1);
    assert_eq!(files[0].status, FileStatus::Added);
    assert_eq!(files[0].hunks[0].lines.len(), 3);
}

#[test]
fn parse_deleted_file() {
    let input = "\
diff --git a/src/old.rs b/src/old.rs
deleted file mode 100644
index abc..000
--- a/src/old.rs
+++ /dev/null
@@ -1,2 +0,0 @@
-dead
-code
";
    let files = parse_unified_diff(input);
    assert_eq!(files.len(), 1);
    assert_eq!(files[0].status, FileStatus::Deleted);
}

#[test]
fn hunk_to_patch_basic() {
    let hunk = Hunk {
        old_start: 10,
        old_count: 7,
        new_start: 10,
        new_count: 9,
        header: "@@ -10,7 +10,9 @@ fn main() {".to_string(),
        staged: false,
        lines: vec![
            DiffLine {
                kind: DiffLineKind::Context,
                content: "    let x = 1;".to_string(),
                old_lineno: Some(10),
                new_lineno: Some(10),
            },
            DiffLine {
                kind: DiffLineKind::Delete,
                content: "    println!(\"old\");".to_string(),
                old_lineno: Some(12),
                new_lineno: None,
            },
            DiffLine {
                kind: DiffLineKind::Add,
                content: "    println!(\"new\");".to_string(),
                old_lineno: None,
                new_lineno: Some(12),
            },
            DiffLine {
                kind: DiffLineKind::Context,
                content: "    let z = 3;".to_string(),
                old_lineno: Some(14),
                new_lineno: Some(15),
            },
        ],
    };

    let patch = hunk_to_patch(&hunk, "src/main.rs");
    let expected = "\
--- a/src/main.rs
+++ b/src/main.rs
@@ -10,7 +10,9 @@ fn main() {
     let x = 1;
-    println!(\"old\");
+    println!(\"new\");
     let z = 3;
";
    assert_eq!(patch, expected);
}

#[test]
fn hunk_to_patch_new_file() {
    let hunk = Hunk {
        old_start: 0,
        old_count: 0,
        new_start: 1,
        new_count: 2,
        header: "@@ -0,0 +1,2 @@".to_string(),
        staged: false,
        lines: vec![
            DiffLine {
                kind: DiffLineKind::Add,
                content: "fn new_fn() {".to_string(),
                old_lineno: None,
                new_lineno: Some(1),
            },
            DiffLine {
                kind: DiffLineKind::Add,
                content: "    todo!()".to_string(),
                old_lineno: None,
                new_lineno: Some(2),
            },
        ],
    };

    let patch = hunk_to_patch(&hunk, "src/new.rs");
    assert!(patch.contains("--- a/src/new.rs"));
    assert!(patch.contains("+++ b/src/new.rs"));
    assert!(patch.contains("@@ -0,0 +1,2 @@"));
    assert!(patch.contains("+fn new_fn() {"));
}

#[test]
fn parse_binary_diff_skipped() {
    let input = "\
diff --git a/image.png b/image.png
index abc..def 100644
Binary files a/image.png and b/image.png differ
";
    let files = parse_unified_diff(input);
    assert!(files.is_empty(), "binary diffs should produce no files");
}

#[test]
fn parse_diff_with_binary_and_text() {
    let input = "\
diff --git a/image.png b/image.png
Binary files a/image.png and b/image.png differ
diff --git a/src/main.rs b/src/main.rs
--- a/src/main.rs
+++ b/src/main.rs
@@ -1 +1,2 @@
 a
+b
";
    let files = parse_unified_diff(input);
    assert_eq!(files.len(), 1);
    assert_eq!(files[0].new_path, "src/main.rs");
}

#[test]
fn parse_staged_args() {
    match ReviewArgs::parse("--staged") {
        ReviewArgs::Staged => {}
        other => panic!("expected Staged, got {:?}", other),
    }
    match ReviewArgs::parse("--cached") {
        ReviewArgs::Staged => {}
        other => panic!("expected Staged (cached), got {:?}", other),
    }
    match ReviewArgs::parse("") {
        ReviewArgs::WorkingTree => {}
        other => panic!("expected WorkingTree, got {:?}", other),
    }
    match ReviewArgs::parse("HEAD") {
        ReviewArgs::Against(ref s) if s == "HEAD" => {}
        other => panic!("expected Against(HEAD), got {:?}", other),
    }
    match ReviewArgs::parse("HEAD~3") {
        ReviewArgs::Against(ref s) if s == "HEAD~3" => {}
        other => panic!("expected Against(HEAD~3), got {:?}", other),
    }
    match ReviewArgs::parse("main..feature") {
        ReviewArgs::Range(ref a, ref b) if a == "main" && b == "feature" => {}
        other => panic!("expected Range(main, feature), got {:?}", other),
    }
}

#[test]
fn parse_hunk_line_numbers_and_header() {
    let input = "\
diff --git a/f b/f
--- a/f
+++ b/f
@@ -5,2 +7,3 @@ fn x()
 keep
-gone
+new1
+new2
";
    let files = parse_unified_diff(input);
    let h = &files[0].hunks[0];
    assert_eq!((h.old_start, h.old_count, h.new_start, h.new_count), (5, 2, 7, 3));
    assert_eq!(h.header, "@@ -5,2 +7,3 @@");
    assert!(!h.staged);
    assert_eq!((h.lines[0].old_lineno, h.lines[0].new_lineno), (Some(5), Some(7)));
    assert_eq!((h.lines[1].old_lineno, h.lines[1].new_lineno), (Some(6), None));
    assert_eq!((h.lines[2].old_lineno, h.lines[2].new_lineno), (None, Some(8)));
    assert_eq!((h.lines[3].old_lineno, h.lines[3].new_lineno), (None, Some(9)));
    assert_eq!(h.lines[3].content, "new2");
}

#[test]
fn parse_renamed_file_status() {
    let input = "\
diff --git a/old.rs b/new.rs
--- a/old.rs
+++ b/new.rs
@@ -1 +1 @@
-a
+b
";
    let files = parse_unified_diff(input);
    assert_eq!(files.len(), 1);
    assert_eq!(files[0].status, FileStatus::Renamed);
    assert_eq!(files[0].status.letter(), 'R');
}

#[test]
fn every_parsed_file_has_a_hunk() {
    let input = "\
diff --git a/a b/a
Binary files differ
diff --git a/b b/b
--- a/b
+++ b/b
@@ -1 +1 @@
-x
+y
diff --git a/c b/c
";
    let files = parse_unified_diff(input);
    assert_eq!(files.len(), 1);
    for f in &files {
        assert!(!f.hunks.is_empty());
        assert!(f.hunks.iter().all(|h| !h.staged));
    }
}

#[test]
fn review_args_labels_and_git_args() {
    assert_eq!(ReviewArgs::parse("--staged").label(), "Staged changes");
    assert_eq!(ReviewArgs::parse("a..b").label(), "Diff a..b");
    assert_eq!(git_diff_args(&ReviewArgs::WorkingTree), vec!["diff", "--unified=3"]);
    assert_eq!(git_diff_args(&ReviewArgs::Staged), vec!["diff", "--cached", "--unified=3"]);
    assert_eq!(
        git_diff_args(&ReviewArgs::Range("a".to_string(), "b".to_string())),
        vec!["diff", "a..b", "--unified=3"]
    );
    assert_eq!(
        git_diff_args(&ReviewArgs::File("x.rs".to_string())),
        vec!["diff", "--unified=3", "--", "x.rs"]
    );
    assert_eq!(ReviewArgs::parse_with("src/x.rs", true).label(), "File: src/x.rs");
    assert_eq!(ReviewArgs::parse_with("-- y.rs", false).label(), "File: y.rs");
}

#[test]
fn git_outcomes_map_to_messages() {
    let ok = GitOutput { success: true, stdout: b"out\n".to_vec(), stderr: Vec::new() };
    assert_eq!(run(Ok(ok)), Ok("out\n".to_string()));
    let bad = GitOutput { success: false, stdout: Vec::new(), stderr: b"  fatal: no\n".to_vec() };
    assert_eq!(run(Ok(bad)), Err("fatal: no".to_string()));
    assert_eq!(run(Err("not found".to_string())), Err("Failed to run git: not found".to_string()));
    let bad = GitOutput { success: false, stdout: Vec::new(), stderr: b"boom\n".to_vec() };
    assert_eq!(git_diff_outcome(&ReviewArgs::Staged, Ok(bad)), Err("git diff failed: boom".to_string()));
    assert_eq!(
        git_diff_outcome(&ReviewArgs::Staged, Err("e".to_string())),
        Err("Failed to run git diff --cached: e".to_string())
    );
    let root = GitOutput { success: true, stdout: b"/repo\n".to_vec(), stderr: Vec::new() };
    assert_eq!(find_root(Some(root)), Some("/repo".to_string()));
    let empty = GitOutput { success: true, stdout: b"  \n".to_vec(), stderr: Vec::new() };
    assert_eq!(find_root(Some(empty)), None);
    assert_eq!(find_root(None), None);
}

#[test]
fn review_state_needs_root_and_diff() {
    assert!(try_get_review_state(&ReviewArgs::WorkingTree, None, Ok(String::new())).is_none());
    assert!(try_get_review_state(&ReviewArgs::WorkingTree, Some(PathBuf::from("/r")), Err("x".to_string())).is_none());
    let st = try_get_review_state(
        &ReviewArgs::WorkingTree,
        Some(PathBuf::from("/r")),
        Ok("diff --git a/f b/f\n@@ -1 +1 @@\n-a\n+b\n".to_string()),
    )
    .unwrap();
    assert_eq!(st.files.len(), 1);
    assert_eq!(st.file_list_width, 30);
    assert_eq!(st.total_changes(), 2);
}

#[test]
fn side_by_side_pairs_old_and_new() {
    let h = Hunk {
        old_start: 3,
        old_count: 2,
        new_start: 4,
        new_count: 2,
        header: "@@ -3,2 +4,2 @@".to_string(),
        lines: vec![
            DiffLine { kind: DiffLineKind::Context, content: "same".to_string(), old_lineno: Some(3), new_lineno: Some(4) },
            DiffLine { kind: DiffLineKind::Delete, content: "old".to_string(), old_lineno: Some(4), new_lineno: None },
            DiffLine { kind: DiffLineKind::Add, content: "new".to_string(), old_lineno: None, new_lineno: Some(5) },
        ],
        staged: true,
    };
    let rows = side_by_side_rows(&[h]);
    assert_eq!(rows.len(), 4);
    assert_eq!(rows[0].left, "[S] @@ -3");
    assert_eq!(rows[0].right, "[S] @@ +4");
    assert_eq!(rows[0].left_kind, SideKind::HunkHeader);
    assert_eq!((rows[1].left.as_str(), rows[1].right.as_str()), ("same", "same"));
    assert_eq!(rows[1].lineno, Some(4));
    assert_eq!((rows[2].left_kind, rows[2].left.as_str(), rows[2].right.as_str()), (SideKind::Deleted, "old", ""));
    assert_eq!(rows[2].lineno, Some(4));
    assert_eq!((rows[3].right_kind, rows[3].left.as_str(), rows[3].right.as_str()), (SideKind::Added, "", "new"));
    assert_eq!(rows[3].lineno, Some(5));
    assert!(rows.iter().all(|r| r.hunk == 0 && r.staged));
}

#[test]
fn a_hunk_patch_reads_back_as_the_hunk() {
    let line = |kind: DiffLineKind, content: &str| DiffLine {
        kind,
        content: content.to_string(),
        old_lineno: None,
        new_lineno: None,
    };
    let hunk = Hunk {
        old_start: 12,
        old_count: 3,
        new_start: 12,
        new_count: 4,
        header: "@@ -12,3 +12,4 @@".to_string(),
        staged: false,
        lines: vec![
            line(DiffLineKind::Context, "fn f() {"),
            line(DiffLineKind::Delete, "    old();"),
            line(DiffLineKind::Add, "    new();"),
            line(DiffLineKind::Add, "    more();"),
            line(DiffLineKind::Context, "}"),
        ],
    };
    let input = format!("diff --git a/src/lib.rs b/src/lib.rs\n{}", hunk_to_patch(&hunk, "src/lib.rs"));
    let files = parse_unified_diff(&input);
    assert_eq!(files.len(), 1);
    assert_eq!(files[0].old_path, "src/lib.rs");
    assert_eq!(files[0].new_path, "src/lib.rs");
    assert_eq!(files[0].status, FileStatus::Modified);
    assert_eq!(files[0].hunks.len(), 1);
    let back = &files[0].hunks[0];
    assert_eq!((back.old_start, back.old_count, back.new_start, back.new_count), (12, 3, 12, 4));
    assert_eq!(back.header, hunk.header);
    let pairs: Vec<(DiffLineKind, String)> = back.lines.iter().map(|l| (l.kind, l.content.clone())).collect();
    let want: Vec<(DiffLineKind, String)> = hunk.lines.iter().map(|l| (l.kind, l.content.clone())).collect();
    assert_eq!(pairs, want);
}
