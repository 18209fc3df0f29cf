//! Keys in review mode: moving through files and hunks, switching views,
//! staging, and starting or finishing a comment.
use crate::chars::{trim_chars, trim_spec};
use crate::keymap::Key;
use crate::review::state::{
    DiffFile, DiffFileView, DiffLineKind, DiffLineView, DiffStyle, Hunk, HunkView, ReviewState, ReviewSubMode,
};
use crate::strutil::{chars_of, string_of};
use vstd::prelude::*;

verus! {

/// What a review key leads to beyond the review state itself.
#[derive(Debug)]
pub enum ReviewOutcome {
    Nothing,
    /// Leave review mode.
    Exit,
    /// Stage (or unstage) hunk `hunk` of file `file` with git; once that
    /// worked, `set_hunk_staged` records it.
    Stage { file: usize, hunk: usize, stage: bool },
    /// Store a new annotation on `line` of `file_path`.
    SaveComment { file_path: String, line: usize, text: String },
    /// The key edits the comment being typed.
    EditComment,
}

/// What a key does in review mode.
#[derive(Debug, Clone, Copy, PartialEq, Eq, Structural)]
pub enum ReviewEffect {
    Nothing,
    Exit,
    SetMode(ReviewSubMode),
    FileDown,
    FileUp,
    ScrollDown,
    ScrollUp,
    NextHunk,
    PrevHunk,
    ToggleStyle,
    /// Flip the staged mark of the selected hunk (no repository).
    FlipStaged,
    /// Stage or unstage the selected hunk with git.
    StageWithGit,
    StartComment,
    /// Finish the comment: store it when it has text.
    FinishComment,
    EditComment,
}

/// The first added or deleted line.
pub open spec fn first_changed(ls: Seq<DiffLineView>) -> Option<DiffLineView>
    decreases ls.len(),
{
    if ls.len() == 0 {
        None
    } else if ls[0].kind != DiffLineKind::Context {
        Some(ls[0])
    } else {
        first_changed(ls.drop_first())
    }
}

/// The line a comment on a hunk is attached to: the new (or else old) line
/// number of its first change, or the hunk's first new line.
pub open spec fn comment_line(h: HunkView) -> usize {
    match first_changed(h.lines) {
        Some(l) => match l.new_lineno {
            Some(n) => n,
            None => match l.old_lineno {
                Some(n) => n,
                None => h.new_start,
            },
        },
        None => h.new_start,
    }
}

pub open spec fn selected_hunk_exists(s: ReviewState) -> bool {
    s.selected_file < s.files@.len() && s.selected_hunk < s.files@[s.selected_file as int].hunks@.len()
}

/// What `key` does in the state `s`; `plain` when no modifier is held.
pub open spec fn review_effect(s: ReviewState, key: Key, plain: bool) -> ReviewEffect {
    if key == Key::Char('q') && plain {
        ReviewEffect::Exit
    } else if key == Key::Esc {
        match s.sub_mode {
            ReviewSubMode::Help | ReviewSubMode::DiffView => ReviewEffect::SetMode(ReviewSubMode::FileList),
            ReviewSubMode::CommentInput => ReviewEffect::SetMode(ReviewSubMode::DiffView),
            _ => ReviewEffect::Exit,
        }
    } else {
        match s.sub_mode {
            ReviewSubMode::FileList => match key {
                Key::Char('j') | Key::Down => ReviewEffect::FileDown,
                Key::Char('k') | Key::Up => ReviewEffect::FileUp,
                Key::Enter => ReviewEffect::SetMode(ReviewSubMode::DiffView),
                Key::Char('d') => ReviewEffect::ToggleStyle,
                Key::Char('?') => ReviewEffect::SetMode(ReviewSubMode::Help),
                _ => ReviewEffect::Nothing,
            },
            ReviewSubMode::DiffView => if s.selected_file >= s.files@.len() {
                ReviewEffect::Nothing
            } else {
                match key {
                    Key::Char('j') | Key::Down => ReviewEffect::ScrollDown,
                    Key::Char('k') | Key::Up => ReviewEffect::ScrollUp,
                    Key::Char(']') | Key::Char(')') => ReviewEffect::NextHunk,
                    Key::Char('[') | Key::Char('(') => ReviewEffect::PrevHunk,
                    Key::Enter => if !selected_hunk_exists(s) {
                        ReviewEffect::Nothing
                    } else if s.project_root is Some {
                        ReviewEffect::StageWithGit
                    } else {
                        ReviewEffect::FlipStaged
                    },
                    Key::Char('c') => ReviewEffect::StartComment,
                    Key::Char('o') | Key::Char('p') => ReviewEffect::SetMode(ReviewSubMode::Preview),
                    Key::Char('d') => ReviewEffect::ToggleStyle,
                    Key::Char('?') => ReviewEffect::SetMode(ReviewSubMode::Help),
                    _ => ReviewEffect::Nothing,
                }
            },
            ReviewSubMode::Preview => match key {
                Key::Char('j') | Key::Down => ReviewEffect::ScrollDown,
                Key::Char('k') | Key::Up => ReviewEffect::ScrollUp,
                _ => ReviewEffect::Nothing,
            },
            ReviewSubMode::CommentInput => match key {
                Key::Enter => ReviewEffect::FinishComment,
                _ => ReviewEffect::EditComment,
            },
            ReviewSubMode::Help => ReviewEffect::SetMode(ReviewSubMode::FileList),
        }
    }
}

pub open spec fn other_style(d: DiffStyle) -> DiffStyle {
    match d {
        DiffStyle::Unified => DiffStyle::SideBySide,
        DiffStyle::SideBySide => DiffStyle::Unified,
    }
}

/// The files with the staged mark of one hunk set.
pub open spec fn with_staged(fs: Seq<DiffFileView>, f: int, h: int, staged: bool) -> Seq<DiffFileView> {
    fs.update(f, DiffFileView { hunks: fs[f].hunks.update(h, HunkView { staged, ..fs[f].hunks[h] }), ..fs[f] })
}

/// A comment is stored when its trimmed text is not empty.
pub open spec fn comment_saved(s: ReviewState) -> bool {
    trim_spec(s.comment_buffer@).len() > 0
}

impl ReviewState {
    /// Records the staged mark of hunk `h` of file `f`.
    pub fn set_hunk_staged(&mut self, f: usize, h: usize, staged: bool)
        requires
            f < old(self).files@.len(),
            h < old(self).files@[f as int].hunks@.len(),
        ensures
            final(self).files_view() == with_staged(old(self).files_view(), f as int, h as int, staged),
            *final(self) == (ReviewState { files: final(self).files, ..*old(self) }),
    {
        let ghost fv = self.files_view();
        let mut file = self.files.remove(f);
        let mut hunk = file.hunks.remove(h);
        hunk.staged = staged;
        file.hunks.insert(h, hunk);
        self.files.insert(f, file);
        proof {
            assert(file@.hunks =~= fv[f as int].hunks.update(h as int, HunkView { staged, ..fv[f as int].hunks[h as int] }));
            assert(self.files_view() =~= with_staged(fv, f as int, h as int, staged));
        }
    }

    fn effect_of(&self, key: Key, plain: bool) -> (r: ReviewEffect)
        ensures
            r == review_effect(*self, key, plain),
    {
        if key == Key::Char('q') && plain {
            return ReviewEffect::Exit;
        }
        if key == Key::Esc {
            return match self.sub_mode {
                ReviewSubMode::Help | ReviewSubMode::DiffView => ReviewEffect::SetMode(ReviewSubMode::FileList),
                ReviewSubMode::CommentInput => ReviewEffect::SetMode(ReviewSubMode::DiffView),
                _ => ReviewEffect::Exit,
            };
        }
        match self.sub_mode {
            ReviewSubMode::FileList => match key {
                Key::Char('j') | Key::Down => ReviewEffect::FileDown,
                Key::Char('k') | Key::Up => ReviewEffect::FileUp,
                Key::Enter => ReviewEffect::SetMode(ReviewSubMode::DiffView),
                Key::Char('d') => ReviewEffect::ToggleStyle,
                Key::Char('?') => ReviewEffect::SetMode(ReviewSubMode::Help),
                _ => ReviewEffect::Nothing,
            },
            ReviewSubMode::DiffView => {
                if self.selected_file >= self.files.len() {
                    return ReviewEffect::Nothing;
                }
                match key {
                    Key::Char('j') | Key::Down => ReviewEffect::ScrollDown,
                    Key::Char('k') | Key::Up => ReviewEffect::ScrollUp,
                    Key::Char(']') | Key::Char(')') => ReviewEffect::NextHunk,
                    Key::Char('[') | Key::Char('(') => ReviewEffect::PrevHunk,
                    Key::Enter => if self.selected_hunk >= self.files[self.selected_file].hunks.len() {
                        ReviewEffect::Nothing
                    } else if self.project_root.is_some() {
                        ReviewEffect::StageWithGit
                    } else {
                        ReviewEffect::FlipStaged
                    },
                    Key::Char('c') => ReviewEffect::StartComment,
                    Key::Char('o') | Key::Char('p') => ReviewEffect::SetMode(ReviewSubMode::Preview),
                    Key::Char('d') => ReviewEffect::ToggleStyle,
                    Key::Char('?') => ReviewEffect::SetMode(ReviewSubMode::Help),
                    _ => ReviewEffect::Nothing,
                }
            },
            ReviewSubMode::Preview => match key {
                Key::Char('j') | Key::Down => ReviewEffect::ScrollDown,
                Key::Char('k') | Key::Up => ReviewEffect::ScrollUp,
                _ => ReviewEffect::Nothing,
            },
            ReviewSubMode::CommentInput => match key {
                Key::Enter => ReviewEffect::FinishComment,
                _ => ReviewEffect::EditComment,
            },
            ReviewSubMode::Help => ReviewEffect::SetMode(ReviewSubMode::FileList),
        }
    }
}


/// Where a comment that was finished leaves the view: it stays put only
/// when it has text but there is no selected hunk to attach it to.
pub open spec fn finish_stays(s: ReviewState) -> bool {
    comment_saved(s) && !selected_hunk_exists(s)
}

pub open spec fn mode_after(s: ReviewState, e: ReviewEffect) -> ReviewSubMode {
    match e {
        ReviewEffect::SetMode(m) => m,
        ReviewEffect::StartComment => ReviewSubMode::CommentInput,
        ReviewEffect::FinishComment => if finish_stays(s) {
            s.sub_mode
        } else {
            ReviewSubMode::DiffView
        },
        _ => s.sub_mode,
    }
}

pub open spec fn file_after(s: ReviewState, e: ReviewEffect) -> usize {
    match e {
        ReviewEffect::FileDown => if s.selected_file + 1 < s.files@.len() {
            (s.selected_file + 1) as usize
        } else {
            s.selected_file
        },
        ReviewEffect::FileUp => if s.selected_file > 0 {
            (s.selected_file - 1) as usize
        } else {
            s.selected_file
        },
        _ => s.selected_file,
    }
}

pub open spec fn hunk_after(s: ReviewState, e: ReviewEffect) -> usize {
    match e {
        ReviewEffect::FileDown => if s.selected_file + 1 < s.files@.len() {
            0
        } else {
            s.selected_hunk
        },
        ReviewEffect::FileUp => if s.selected_file > 0 {
            0
        } else {
            s.selected_hunk
        },
        ReviewEffect::NextHunk => if s.selected_hunk + 1 < s.files@[s.selected_file as int].hunks@.len() {
            (s.selected_hunk + 1) as usize
        } else {
            s.selected_hunk
        },
        ReviewEffect::PrevHunk => if s.selected_hunk > 0 {
            (s.selected_hunk - 1) as usize
        } else {
            s.selected_hunk
        },
        _ => s.selected_hunk,
    }
}

pub open spec fn scroll_after(s: ReviewState, e: ReviewEffect) -> usize {
    match e {
        ReviewEffect::ScrollDown => if s.scroll.scroll_top < usize::MAX {
            (s.scroll.scroll_top + 1) as usize
        } else {
            s.scroll.scroll_top
        },
        ReviewEffect::ScrollUp => if s.scroll.scroll_top > 0 {
            (s.scroll.scroll_top - 1) as usize
        } else {
            0
        },
        _ => s.scroll.scroll_top,
    }
}

/// Whether the key empties the comment being typed.
pub open spec fn clears_comment(s: ReviewState, e: ReviewEffect) -> bool {
    e == ReviewEffect::StartComment || (e == ReviewEffect::FinishComment && !finish_stays(s))
}

pub open spec fn selected_staged(s: ReviewState) -> bool {
    s.files@[s.selected_file as int].hunks@[s.selected_hunk as int].staged
}

fn first_changed_line(h: &Hunk) -> (r: usize)
    ensures
        r == comment_line(h@),
{
    let mut i: usize = 0;
    let ghost ls = h@.lines;
    proof {
        assert(ls.skip(0) =~= ls);
    }
    while i < h.lines.len()
        invariant
            0 <= i <= h.lines@.len(),
            ls == h@.lines,
            ls.len() == h.lines@.len(),
            first_changed(ls.skip(i as int)) == first_changed(ls),
        decreases h.lines@.len() - i,
    {
        proof {
            assert(ls.skip(i as int)[0] == h.lines@[i as int]@);
            assert(ls.skip(i as int).drop_first() =~= ls.skip(i + 1));
        }
        let l = &h.lines[i];
        match l.kind {
            DiffLineKind::Add | DiffLineKind::Delete => {
                return match l.new_lineno {
                    Some(n) => n,
                    None => match l.old_lineno {
                        Some(n) => n,
                        None => h.new_start,
                    },
                };
            },
            DiffLineKind::Context => {},
        }
        i += 1;
    }
    proof {
        assert(ls.skip(i as int) =~= Seq::<DiffLineView>::empty());
    }
    h.new_start
}

impl ReviewState {
    /// Takes a key in review mode (`plain` when no modifier is held): moves
    /// through files and hunks, switches views and diff style, flips the
    /// staged mark when there is no repository, starts and finishes
    /// comments, and says what else the key asks for.
    pub fn review_key(&mut self, key: Key, plain: bool) -> (r: ReviewOutcome)
        ensures
            ({
                let s = *old(self);
                let e = review_effect(s, key, plain);
                &&& (r is Exit <==> e == ReviewEffect::Exit)
                &&& (r is EditComment <==> e == ReviewEffect::EditComment)
                &&& (r is Stage <==> e == ReviewEffect::StageWithGit)
                &&& (r matches ReviewOutcome::Stage { file, hunk, stage } ==> file == s.selected_file && hunk
                    == s.selected_hunk && stage == !selected_staged(s))
                &&& (r is SaveComment <==> (e == ReviewEffect::FinishComment && comment_saved(s) && selected_hunk_exists(s)))
                &&& (r matches ReviewOutcome::SaveComment { file_path, line, text } ==> file_path@
                    == s.files@[s.selected_file as int].new_path@ && line == comment_line(
                    s.files@[s.selected_file as int].hunks@[s.selected_hunk as int]@,
                ) && text@ == trim_spec(s.comment_buffer@))
                &&& final(self).sub_mode == mode_after(s, e)
                &&& final(self).selected_file == file_after(s, e)
                &&& final(self).selected_hunk == hunk_after(s, e)
                &&& final(self).scroll.scroll_top == scroll_after(s, e)
                &&& final(self).diff_style == if e == ReviewEffect::ToggleStyle {
                    other_style(s.diff_style)
                } else {
                    s.diff_style
                }
                &&& final(self).files_view() == if e == ReviewEffect::FlipStaged {
                    with_staged(s.files_view(), s.selected_file as int, s.selected_hunk as int, !selected_staged(s))
                } else {
                    s.files_view()
                }
                &&& final(self).comment_buffer@ == if clears_comment(s, e) {
                    Seq::<char>::empty()
                } else {
                    s.comment_buffer@
                }
                &&& final(self).comment_cursor == if clears_comment(s, e) {
                    0
                } else {
                    s.comment_cursor
                }
                &&& final(self).args == s.args
                &&& final(self).annotations == s.annotations
                &&& final(self).comments == s.comments
                &&& final(self).file_list_width == s.file_list_width
                &&& final(self).project_root == s.project_root
            }),
    {
        let e = self.effect_of(key, plain);
        match e {
            ReviewEffect::Nothing => ReviewOutcome::Nothing,
            ReviewEffect::Exit => ReviewOutcome::Exit,
            ReviewEffect::EditComment => ReviewOutcome::EditComment,
            ReviewEffect::SetMode(m) => {
                self.sub_mode = m;
                ReviewOutcome::Nothing
            },
            ReviewEffect::FileDown => {
                if self.selected_file < self.files.len() && self.selected_file + 1 < self.files.len() {
                    self.selected_file = self.selected_file + 1;
                    self.selected_hunk = 0;
                }
                ReviewOutcome::Nothing
            },
            ReviewEffect::FileUp => {
                if self.selected_file > 0 {
                    self.selected_file = self.selected_file - 1;
                    self.selected_hunk = 0;
                }
                ReviewOutcome::Nothing
            },
            ReviewEffect::ScrollDown => {
                self.scroll.scroll_top = self.scroll.scroll_top.saturating_add(1);
                ReviewOutcome::Nothing
            },
            ReviewEffect::ScrollUp => {
                self.scroll.scroll_top = self.scroll.scroll_top.saturating_sub(1);
                ReviewOutcome::Nothing
            },
            ReviewEffect::NextHunk => {
                let n = self.files[self.selected_file].hunks.len();
                if self.selected_hunk < n && self.selected_hunk + 1 < n {
                    self.selected_hunk = self.selected_hunk + 1;
                }
                ReviewOutcome::Nothing
            },
            ReviewEffect::PrevHunk => {
                if self.selected_hunk > 0 {
                    self.selected_hunk = self.selected_hunk - 1;
                }
                ReviewOutcome::Nothing
            },
            ReviewEffect::ToggleStyle => {
                self.diff_style = match self.diff_style {
                    DiffStyle::Unified => DiffStyle::SideBySide,
                    DiffStyle::SideBySide => DiffStyle::Unified,
                };
                ReviewOutcome::Nothing
            },
            ReviewEffect::FlipStaged => {
                let f = self.selected_file;
                let h = self.selected_hunk;
                let staged = self.files[f].hunks[h].staged;
                self.set_hunk_staged(f, h, !staged);
                ReviewOutcome::Nothing
            },
            ReviewEffect::StageWithGit => {
                let f = self.selected_file;
                let h = self.selected_hunk;
                ReviewOutcome::Stage { file: f, hunk: h, stage: !self.files[f].hunks[h].staged }
            },
            ReviewEffect::StartComment => {
                self.comment_buffer = String::new();
                self.comment_cursor = 0;
                self.sub_mode = ReviewSubMode::CommentInput;
                proof {
                    assert(self.comment_buffer@ =~= Seq::<char>::empty());
                }
                ReviewOutcome::Nothing
            },
            ReviewEffect::FinishComment => {
                let cs = chars_of(self.comment_buffer.as_str());
                let t = trim_chars(cs.as_slice());
                let mut out = ReviewOutcome::Nothing;
                if t.len() > 0 {
                    if self.selected_file >= self.files.len() || self.selected_hunk >= self.files[self.selected_file].hunks.len() {
                        return ReviewOutcome::Nothing;
                    }
                    let file = &self.files[self.selected_file];
                    let line = first_changed_line(&file.hunks[self.selected_hunk]);
                    out = ReviewOutcome::SaveComment { file_path: file.new_path.clone(), line, text: string_of(t.as_slice()) };
                }
                self.comment_buffer = String::new();
                self.comment_cursor = 0;
                self.sub_mode = ReviewSubMode::DiffView;
                proof {
                    assert(self.comment_buffer@ =~= Seq::<char>::empty());
                }
                out
            },
        }
    }
}

} // verus!
