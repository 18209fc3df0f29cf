//! Review mode data: the parsed diff, annotations, comments, and the
//! `:review` command's arguments.
use crate::chars::{chars_eq, contains_char, find_chars, find_spec, has_prefix, starts_with, sub_vec, trim_chars, trim_spec};
use crate::paths::path_exists;
use crate::strutil::{chars_of, push_str, string_of};
use std::path::PathBuf;
use vstd::prelude::*;

verus! {

#[derive(Debug, Clone, Copy, PartialEq, Eq, Structural)]
pub enum ReviewSubMode {
    /// Navigating the file list (left panel)
    FileList,
    /// Navigating diff hunks
    DiffView,
    /// Viewing full file content
    Preview,
    /// Writing a comment
    CommentInput,
    /// Keybinding help
    Help,
}

#[derive(Debug, Clone, Copy, PartialEq, Eq, Structural)]
pub enum DiffStyle {
    Unified,
    SideBySide,
}

#[derive(Debug, Clone, Copy, PartialEq, Eq, Structural)]
pub enum FileStatus {
    Added,
    Modified,
    Deleted,
    Renamed,
}

impl FileStatus {
    /// The one-letter status shown in the file list.
    pub fn letter(&self) -> (r: char)
        ensures
            r == match *self {
                FileStatus::Added => 'A',
                FileStatus::Modified => 'M',
                FileStatus::Deleted => 'D',
                FileStatus::Renamed => 'R',
            },
    {
        match self {
            FileStatus::Added => 'A',
            FileStatus::Modified => 'M',
            FileStatus::Deleted => 'D',
            FileStatus::Renamed => 'R',
        }
    }
}

#[derive(Debug, Clone, Copy, PartialEq, Eq, Structural)]
pub enum DiffLineKind {
    Add,
    Delete,
    Context,
}

#[derive(Debug, Clone)]
pub struct DiffLine {
    pub kind: DiffLineKind,
    pub content: String,
    pub old_lineno: Option<usize>,
    pub new_lineno: Option<usize>,
}

#[derive(Debug, Clone)]
pub struct Hunk {
    pub old_start: usize,
    pub old_count: usize,
    pub new_start: usize,
    pub new_count: usize,
    pub header: String,
    pub lines: Vec<DiffLine>,
    /// Whether this hunk has been staged/unstaged in review mode.
    pub staged: bool,
}

#[derive(Debug, Clone)]
pub struct DiffFile {
    pub status: FileStatus,
    pub old_path: String,
    pub new_path: String,
    pub hunks: Vec<Hunk>,
}

/// A diff line as values.
pub struct DiffLineView {
    pub kind: DiffLineKind,
    pub content: Seq<char>,
    pub old_lineno: Option<usize>,
    pub new_lineno: Option<usize>,
}

/// A hunk as values.
pub struct HunkView {
    pub old_start: usize,
    pub old_count: usize,
    pub new_start: usize,
    pub new_count: usize,
    pub header: Seq<char>,
    pub lines: Seq<DiffLineView>,
    pub staged: bool,
}

/// A changed file as values.
pub struct DiffFileView {
    pub status: FileStatus,
    pub old_path: Seq<char>,
    pub new_path: Seq<char>,
    pub hunks: Seq<HunkView>,
}

impl View for DiffLine {
    type V = DiffLineView;

    open spec fn view(&self) -> DiffLineView {
        DiffLineView {
            kind: self.kind,
            content: self.content@,
            old_lineno: self.old_lineno,
            new_lineno: self.new_lineno,
        }
    }
}

impl View for Hunk {
    type V = HunkView;

    open spec fn view(&self) -> HunkView {
        HunkView {
            old_start: self.old_start,
            old_count: self.old_count,
            new_start: self.new_start,
            new_count: self.new_count,
            header: self.header@,
            lines: self.lines@.map_values(|l: DiffLine| l@),
            staged: self.staged,
        }
    }
}

impl View for DiffFile {
    type V = DiffFileView;

    open spec fn view(&self) -> DiffFileView {
        DiffFileView {
            status: self.status,
            old_path: self.old_path@,
            new_path: self.new_path@,
            hunks: self.hunks@.map_values(|h: Hunk| h@),
        }
    }
}

#[derive(Debug, Clone)]
pub struct Annotation {
    pub id: String,
    pub file_path: String,
    pub line: usize,
    pub text: String,
    pub resolved: bool,
    pub created_at: String,
}

/// An annotation as values.
pub struct AnnotationView {
    pub id: Seq<char>,
    pub file_path: Seq<char>,
    pub line: usize,
    pub text: Seq<char>,
    pub resolved: bool,
    pub created_at: Seq<char>,
}

impl View for Annotation {
    type V = AnnotationView;

    open spec fn view(&self) -> AnnotationView {
        AnnotationView {
            id: self.id@,
            file_path: self.file_path@,
            line: self.line,
            text: self.text@,
            resolved: self.resolved,
            created_at: self.created_at@,
        }
    }
}

/// A copy of an annotation.
pub fn clone_annotation(a: &Annotation) -> (r: Annotation)
    ensures
        r@ == a@,
{
    Annotation {
        id: a.id.clone(),
        file_path: a.file_path.clone(),
        line: a.line,
        text: a.text.clone(),
        resolved: a.resolved,
        created_at: a.created_at.clone(),
    }
}

#[derive(Debug, Clone)]
pub struct Comment {
    pub id: String,
    pub file_path: String,
    pub hunk_new_start: usize,
    pub text: String,
    pub resolved: bool,
}

#[derive(Debug, Clone, Copy)]
pub struct ScrollState {
    pub scroll_top: usize,
}

impl Default for ScrollState {
    fn default() -> (r: Self)
        ensures
            r.scroll_top == 0,
    {
        ScrollState { scroll_top: 0 }
    }
}

/// Arguments of the `:review` command.
#[derive(Debug)]
pub enum ReviewArgs {
    /// No arguments: changes since HEAD (staged and unstaged)
    WorkingTree,
    /// `--staged` or `--cached`: the staged changes
    Staged,
    /// `<rev>`: diff against a revision
    Against(String),
    /// `<rev1>..<rev2>`: the range between two revisions
    Range(String, String),
    /// `-- <path>` or an existing file path: one file
    File(String),
}

/// `ReviewArgs` as values.
pub enum ReviewArgsView {
    WorkingTree,
    Staged,
    Against(Seq<char>),
    Range(Seq<char>, Seq<char>),
    File(Seq<char>),
}

impl View for ReviewArgs {
    type V = ReviewArgsView;

    open spec fn view(&self) -> ReviewArgsView {
        match self {
            ReviewArgs::WorkingTree => ReviewArgsView::WorkingTree,
            ReviewArgs::Staged => ReviewArgsView::Staged,
            ReviewArgs::Against(r) => ReviewArgsView::Against(r@),
            ReviewArgs::Range(a, b) => ReviewArgsView::Range(a@, b@),
            ReviewArgs::File(p) => ReviewArgsView::File(p@),
        }
    }
}

impl Clone for ReviewArgs {
    fn clone(&self) -> (r: Self)
        ensures
            r@ == self@,
    {
        match self {
            ReviewArgs::WorkingTree => ReviewArgs::WorkingTree,
            ReviewArgs::Staged => ReviewArgs::Staged,
            ReviewArgs::Against(r) => ReviewArgs::Against(r.clone()),
            ReviewArgs::Range(a, b) => ReviewArgs::Range(a.clone(), b.clone()),
            ReviewArgs::File(p) => ReviewArgs::File(p.clone()),
        }
    }
}

/// A revision name has no path separator and does not start with a dot.
pub open spec fn looks_like_revision_spec(s: Seq<char>) -> bool {
    !s.contains('/') && !s.contains('\\') && !(s.len() > 0 && s[0] == '.')
}

/// What `:review <input>` means, given whether the trimmed input names an
/// existing path.
pub open spec fn review_args_spec(input: Seq<char>, path_exists: bool) -> ReviewArgsView {
    let t = trim_spec(input);
    if t.len() == 0 || t == "."@ {
        ReviewArgsView::WorkingTree
    } else if t == "--staged"@ || t == "--cached"@ {
        ReviewArgsView::Staged
    } else if let Some(pos) = find_spec(t, ".."@) {
        ReviewArgsView::Range(t.take(pos), t.skip(pos + ".."@.len()))
    } else if has_prefix(t, "-- "@) {
        ReviewArgsView::File(t.skip("-- "@.len() as int))
    } else if path_exists && !looks_like_revision_spec(t) {
        ReviewArgsView::File(t)
    } else {
        ReviewArgsView::Against(t)
    }
}

impl ReviewArgs {
    /// Parses `:review` arguments; `exists` tells whether the trimmed input
    /// names an existing path.
    pub fn parse_with(input: &str, exists: bool) -> (r: Self)
        ensures
            r@ == review_args_spec(input@, exists),
    {
        let all = chars_of(input);
        let t = trim_chars(all.as_slice());
        let dot = chars_of(".");
        if t.len() == 0 || chars_eq(t.as_slice(), dot.as_slice()) {
            return ReviewArgs::WorkingTree;
        }
        let staged = chars_of("--staged");
        let cached = chars_of("--cached");
        if chars_eq(t.as_slice(), staged.as_slice()) || chars_eq(t.as_slice(), cached.as_slice()) {
            return ReviewArgs::Staged;
        }
        let dots = chars_of("..");
        if let Some(pos) = find_chars(t.as_slice(), dots.as_slice(), 0) {
            proof {
                crate::chars::lemma_find_from(t@, dots@, 0);
            }
            let before = sub_vec(t.as_slice(), 0, pos);
            let after = sub_vec(t.as_slice(), pos + dots.len(), t.len());
            proof {
                assert(before@ =~= t@.take(pos as int));
                assert(after@ =~= t@.skip(pos + dots@.len()));
            }
            return ReviewArgs::Range(string_of(before.as_slice()), string_of(after.as_slice()));
        }
        let dd = chars_of("-- ");
        if starts_with(t.as_slice(), dd.as_slice()) {
            let rest = sub_vec(t.as_slice(), dd.len(), t.len());
            proof {
                assert(rest@ =~= t@.skip(dd@.len() as int));
            }
            return ReviewArgs::File(string_of(rest.as_slice()));
        }
        if exists && !Self::looks_like_revision(t.as_slice()) {
            return ReviewArgs::File(string_of(t.as_slice()));
        }
        ReviewArgs::Against(string_of(t.as_slice()))
    }

    /// Parses `:review` arguments, asking the file system whether the
    /// trimmed input names an existing path.
    pub fn parse(input: &str) -> (r: Self)
        ensures
            exists|e: bool| r@ == review_args_spec(input@, e),
    {
        let all = chars_of(input);
        let t = trim_chars(all.as_slice());
        let ts = string_of(t.as_slice());
        let e = path_exists(ts.as_str());
        let r = Self::parse_with(input, e);
        proof {
            assert(r@ == review_args_spec(input@, e));
        }
        r
    }

    fn looks_like_revision(s: &[char]) -> (r: bool)
        ensures
            r == looks_like_revision_spec(s@),
    {
        !contains_char(s, '/') && !contains_char(s, '\\') && !(s.len() > 0 && s[0] == '.')
    }

    /// The description shown as the review title.
    pub fn label(&self) -> (r: String)
        ensures
            r@ == match self@ {
                ReviewArgsView::WorkingTree => "Changes since HEAD"@,
                ReviewArgsView::Staged => "Staged changes"@,
                ReviewArgsView::Against(rev) => "Diff against "@ + rev,
                ReviewArgsView::Range(a, b) => "Diff "@ + a + ".."@ + b,
                ReviewArgsView::File(p) => "File: "@ + p,
            },
    {
        let mut s = String::new();
        proof {
            assert(s@ =~= Seq::<char>::empty());
        }
        match self {
            ReviewArgs::WorkingTree => push_str(&mut s, "Changes since HEAD"),
            ReviewArgs::Staged => push_str(&mut s, "Staged changes"),
            ReviewArgs::Against(rev) => {
                push_str(&mut s, "Diff against ");
                push_str(&mut s, rev.as_str());
            },
            ReviewArgs::Range(a, b) => {
                push_str(&mut s, "Diff ");
                push_str(&mut s, a.as_str());
                push_str(&mut s, "..");
                push_str(&mut s, b.as_str());
            },
            ReviewArgs::File(p) => {
                push_str(&mut s, "File: ");
                push_str(&mut s, p.as_str());
            },
        }
        s
    }
}

/// The review session (owned by the engine).
#[derive(Debug, Clone)]
pub struct ReviewState {
    pub args: ReviewArgs,
    /// Parsed diff files
    pub files: Vec<DiffFile>,
    /// Currently selected file index
    pub selected_file: usize,
    /// Currently selected hunk index within the selected file
    pub selected_hunk: usize,
    /// Current sub-mode
    pub sub_mode: ReviewSubMode,
    /// User annotations
    pub annotations: Vec<Annotation>,
    /// Review comments
    pub comments: Vec<Comment>,
    /// Scroll position
    pub scroll: ScrollState,
    /// Diff display style
    pub diff_style: DiffStyle,
    /// Width of the file list panel (in characters)
    pub file_list_width: u16,
    /// Git project root (detected)
    pub project_root: Option<PathBuf>,
    /// In-progress comment text
    pub comment_buffer: String,
    /// Cursor position within the comment buffer
    pub comment_cursor: usize,
}

/// Number of added and deleted lines.
pub open spec fn line_changes(ls: Seq<DiffLineView>) -> nat
    decreases ls.len(),
{
    if ls.len() == 0 {
        0
    } else {
        line_changes(ls.drop_last()) + if ls.last().kind == DiffLineKind::Context {
            0nat
        } else {
            1nat
        }
    }
}

pub open spec fn hunk_changes(hs: Seq<HunkView>) -> nat
    decreases hs.len(),
{
    if hs.len() == 0 {
        0
    } else {
        hunk_changes(hs.drop_last()) + line_changes(hs.last().lines)
    }
}

pub open spec fn file_changes(fs: Seq<DiffFileView>) -> nat
    decreases fs.len(),
{
    if fs.len() == 0 {
        0
    } else {
        file_changes(fs.drop_last()) + hunk_changes(fs.last().hunks)
    }
}

impl ReviewState {
    pub open spec fn files_view(&self) -> Seq<DiffFileView> {
        self.files@.map_values(|f: DiffFile| f@)
    }

    /// Total number of changes (added plus deleted lines) across all files.
    pub fn total_changes(&self) -> (r: usize)
        requires
            file_changes(self.files_view()) <= usize::MAX,
        ensures
            r == file_changes(self.files_view()),
    {
        let mut total: usize = 0;
        let mut i: usize = 0;
        while i < self.files.len()
            invariant
                0 <= i <= self.files@.len(),
                total == file_changes(self.files_view().take(i as int)),
                file_changes(self.files_view()) <= usize::MAX,
            decreases self.files@.len() - i,
        {
            let ghost fv = self.files_view();
            proof {
                assert(fv.take(i + 1).drop_last() =~= fv.take(i as int));
                lemma_file_changes_prefix(fv, i + 1);
            }
            let f = &self.files[i];
            let mut j: usize = 0;
            while j < f.hunks.len()
                invariant
                    0 <= j <= f.hunks@.len(),
                    *f == self.files@[i as int],
                    total == file_changes(fv.take(i as int)) + hunk_changes(f@.hunks.take(j as int)),
                    file_changes(fv.take(i as int)) + hunk_changes(f@.hunks) <= usize::MAX,
                    fv == self.files_view(),
                    i < fv.len(),
                decreases f.hunks@.len() - j,
            {
                proof {
                    assert(f@.hunks.take(j + 1).drop_last() =~= f@.hunks.take(j as int));
                    lemma_hunk_changes_prefix(f@.hunks, j + 1);
                }
                let h = &f.hunks[j];
                let mut k: usize = 0;
                while k < h.lines.len()
                    invariant
                        0 <= k <= h.lines@.len(),
                        *h == f.hunks@[j as int],
                        total == file_changes(fv.take(i as int)) + hunk_changes(f@.hunks.take(j as int))
                            + line_changes(h@.lines.take(k as int)),
                        file_changes(fv.take(i as int)) + hunk_changes(f@.hunks.take(j as int))
                            + line_changes(h@.lines) <= usize::MAX,
                    decreases h.lines@.len() - k,
                {
                    proof {
                        assert(h@.lines.take(k + 1).drop_last() =~= h@.lines.take(k as int));
                        lemma_line_changes_prefix(h@.lines, k + 1);
                    }
                    match h.lines[k].kind {
                        DiffLineKind::Add | DiffLineKind::Delete => {
                            total = total + 1;
                        },
                        DiffLineKind::Context => {},
                    }
                    k += 1;
                }
                proof {
                    assert(h@.lines.take(k as int) =~= h@.lines);
                    assert(f@.hunks.take(j + 1).last() == h@);
                }
                j += 1;
            }
            proof {
                assert(f@.hunks.take(j as int) =~= f@.hunks);
                assert(fv.take(i + 1).last() == f@);
            }
            i += 1;
        }
        proof {
            assert(self.files_view().take(i as int) =~= self.files_view());
        }
        total
    }

    /// Number of files with changes.
    pub fn file_count(&self) -> (r: usize)
        ensures
            r == self.files@.len(),
    {
        self.files.len()
    }

    /// The currently selected file.
    pub fn current_file(&self) -> (r: Option<&DiffFile>)
        ensures
            self.selected_file < self.files@.len() ==> r == Some(&self.files@[self.selected_file as int]),
            self.selected_file >= self.files@.len() ==> r is None,
    {
        if self.selected_file < self.files.len() {
            Some(&self.files[self.selected_file])
        } else {
            None
        }
    }

    /// The currently selected hunk of the selected file.
    pub fn current_hunk(&self) -> (r: Option<&Hunk>)
        ensures
            self.selected_file < self.files@.len() && self.selected_hunk
                < self.files@[self.selected_file as int].hunks@.len() ==> r == Some(
                &self.files@[self.selected_file as int].hunks@[self.selected_hunk as int],
            ),
            !(self.selected_file < self.files@.len() && self.selected_hunk
                < self.files@[self.selected_file as int].hunks@.len()) ==> r is None,
    {
        match self.current_file() {
            Some(f) => {
                if self.selected_hunk < f.hunks.len() {
                    Some(&f.hunks[self.selected_hunk])
                } else {
                    None
                }
            },
            None => None,
        }
    }
}

proof fn lemma_line_changes_prefix(ls: Seq<DiffLineView>, n: int)
    requires
        0 <= n <= ls.len(),
    ensures
        line_changes(ls.take(n)) <= line_changes(ls),
    decreases ls.len() - n,
{
    if n < ls.len() {
        lemma_line_changes_prefix(ls, n + 1);
        assert(ls.take(n + 1).drop_last() =~= ls.take(n));
    } else {
        assert(ls.take(n) =~= ls);
    }
}

proof fn lemma_hunk_changes_prefix(hs: Seq<HunkView>, n: int)
    requires
        0 <= n <= hs.len(),
    ensures
        hunk_changes(hs.take(n)) <= hunk_changes(hs),
    decreases hs.len() - n,
{
    if n < hs.len() {
        lemma_hunk_changes_prefix(hs, n + 1);
        assert(hs.take(n + 1).drop_last() =~= hs.take(n));
    } else {
        assert(hs.take(n) =~= hs);
    }
}

proof fn lemma_file_changes_prefix(fs: Seq<DiffFileView>, n: int)
    requires
        0 <= n <= fs.len(),
    ensures
        file_changes(fs.take(n)) <= file_changes(fs),
    decreases fs.len() - n,
{
    if n < fs.len() {
        lemma_file_changes_prefix(fs, n + 1);
        assert(fs.take(n + 1).drop_last() =~= fs.take(n));
    } else {
        assert(fs.take(n) =~= fs);
    }
}

} // verus!
