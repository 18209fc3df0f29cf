//! Unified diff parsing for review mode, and the patch text of one hunk.
use crate::chars::{
    decimal, find_chars, find_spec, has_prefix, lemma_find_from, lines_spec, parse_usize,
    parse_usize_spec, push_decimal, split_lines, starts_with, sub_vec, trim_chars, trim_spec,
    chars_eq,
};
use crate::review::state::{
    DiffFile, DiffFileView, DiffLine, DiffLineKind, DiffLineView, DiffStyle, FileStatus, Hunk,
    HunkView, ReviewArgs, ReviewArgsView, ReviewState, ReviewSubMode, ScrollState,
};
use crate::strutil::{chars_of, push_char, push_str, string_of};
use std::path::PathBuf;
use vstd::prelude::*;
use vstd::wrapping::usize_specs::wrapping_add;

verus! {

/// A hunk being read: its header numbers, its lines so far, and the number
/// of new-side and old-side lines seen.
pub struct HunkDraftView {
    pub old_start: usize,
    pub old_count: usize,
    pub new_start: usize,
    pub new_count: usize,
    pub lines: Seq<DiffLineView>,
    pub add_count: usize,
    pub del_count: usize,
}

/// A file being read.
pub struct FileDraftView {
    pub old_path: Seq<char>,
    pub new_path: Seq<char>,
    pub hunks: Seq<HunkDraftView>,
}

/// The parser's state: finished files and the file being read.
pub struct ParseView {
    pub files: Seq<DiffFileView>,
    pub cur: Option<FileDraftView>,
}

/// `s` with every leading repetition of `p` removed (`str::trim_start_matches`).
pub open spec fn trim_start_matches(s: Seq<char>, p: Seq<char>) -> Seq<char>
    decreases s.len(),
{
    if p.len() > 0 && has_prefix(s, p) {
        trim_start_matches(s.skip(p.len() as int), p)
    } else {
        s
    }
}

/// Index of the first `c` in `s`.
pub open spec fn index_of(s: Seq<char>, c: char) -> Option<int> {
    find_spec(s, seq![c])
}

/// `s.splitn(n, ' ')`.
pub open spec fn splitn_space(s: Seq<char>, n: nat) -> Seq<Seq<char>>
    decreases n,
{
    if n <= 1 {
        seq![s]
    } else {
        match index_of(s, ' ') {
            Some(j) => seq![s.take(j)] + splitn_space(s.skip(j + 1), (n - 1) as nat),
            None => seq![s],
        }
    }
}

/// The first part that starts with `p`, without `p`.
pub open spec fn first_with_prefix(parts: Seq<Seq<char>>, p: Seq<char>) -> Option<Seq<char>>
    decreases parts.len(),
{
    if parts.len() == 0 {
        None
    } else if has_prefix(parts[0], p) {
        Some(parts[0].skip(p.len() as int))
    } else {
        first_with_prefix(parts.drop_first(), p)
    }
}

/// Old and new path of `a/old b/new` (the rest of a `diff --git` line).
pub open spec fn diff_paths_spec(s: Seq<char>) -> (Option<Seq<char>>, Option<Seq<char>>) {
    let parts = splitn_space(s, 4);
    (first_with_prefix(parts, "a/"@), first_with_prefix(parts, "b/"@))
}

/// `-start,count`, `+start,count`, or `-start`/`+start` (count 1).
pub open spec fn range_spec(s: Seq<char>) -> Option<(usize, usize)> {
    if s.len() > 0 && (s[0] == '-' || s[0] == '+') {
        let t = s.skip(1);
        match index_of(t, ',') {
            Some(c) => match (parse_usize_spec(t.take(c)), parse_usize_spec(t.skip(c + 1))) {
                (Some(a), Some(b)) => Some((a, b)),
                _ => None,
            },
            None => match parse_usize_spec(t) {
                Some(a) => Some((a, 1usize)),
                None => None,
            },
        }
    } else {
        None
    }
}

/// The hunk started by a line `@@ -a,b +c,d @@ ...`, when it parses.
pub open spec fn hunk_header_spec(line: Seq<char>) -> Option<HunkDraftView> {
    if !has_prefix(line, "@@"@) {
        None
    } else {
        let rest = line.skip("@@"@.len() as int);
        match find_spec(rest, "@@"@) {
            None => None,
            Some(j) => {
                let rp = trim_spec(rest.take(j));
                match index_of(rp, ' ') {
                    None => None,
                    Some(k) => match (range_spec(rp.take(k)), range_spec(rp.skip(k + 1))) {
                        (Some(o), Some(n)) => Some(
                            HunkDraftView {
                                old_start: o.0,
                                old_count: o.1,
                                new_start: n.0,
                                new_count: n.1,
                                lines: Seq::empty(),
                                add_count: 0,
                                del_count: 0,
                            },
                        ),
                        _ => None,
                    },
                }
            },
        }
    }
}

/// Added, Deleted, Renamed or Modified, from the two paths.
pub open spec fn status_of(old: Seq<char>, new: Seq<char>) -> FileStatus {
    if old == "/dev/null"@ {
        FileStatus::Added
    } else if new == "/dev/null"@ {
        FileStatus::Deleted
    } else if old != new {
        FileStatus::Renamed
    } else {
        FileStatus::Modified
    }
}

/// The header line of a finished hunk.
pub open spec fn hunk_header_text(h: HunkDraftView) -> Seq<char> {
    "@@ -"@ + decimal(h.old_start as nat) + ","@ + decimal(h.old_count as nat) + " +"@ + decimal(
        h.new_start as nat,
    ) + ","@ + decimal(h.new_count as nat) + " @@"@
}

pub open spec fn finish_hunk(h: HunkDraftView) -> HunkView {
    HunkView {
        old_start: h.old_start,
        old_count: h.old_count,
        new_start: h.new_start,
        new_count: h.new_count,
        header: hunk_header_text(h),
        lines: h.lines,
        staged: false,
    }
}

/// The finished file: none when it has no hunk (e.g. a binary file).
pub open spec fn build_spec(f: FileDraftView) -> Option<DiffFileView> {
    if f.hunks.len() == 0 {
        None
    } else {
        Some(
            DiffFileView {
                status: status_of(f.old_path, f.new_path),
                old_path: f.old_path,
                new_path: f.new_path,
                hunks: f.hunks.map_values(|h: HunkDraftView| finish_hunk(h)),
            },
        )
    }
}

/// The finished files with the file being read added, if it has hunks.
pub open spec fn flush(files: Seq<DiffFileView>, cur: Option<FileDraftView>) -> Seq<DiffFileView> {
    match cur {
        Some(f) => match build_spec(f) {
            Some(d) => files.push(d),
            None => files,
        },
        None => files,
    }
}

/// The current hunk with one more line of the given kind.
pub open spec fn add_line(h: HunkDraftView, kind: DiffLineKind, content: Seq<char>) -> HunkDraftView {
    match kind {
        DiffLineKind::Add => HunkDraftView {
            lines: h.lines.push(
                DiffLineView {
                    kind,
                    content,
                    old_lineno: None,
                    new_lineno: Some(wrapping_add(h.new_start, h.add_count)),
                },
            ),
            add_count: wrapping_add(h.add_count, 1),
            ..h
        },
        DiffLineKind::Delete => HunkDraftView {
            lines: h.lines.push(
                DiffLineView {
                    kind,
                    content,
                    old_lineno: Some(wrapping_add(h.old_start, h.del_count)),
                    new_lineno: None,
                },
            ),
            del_count: wrapping_add(h.del_count, 1),
            ..h
        },
        DiffLineKind::Context => HunkDraftView {
            lines: h.lines.push(
                DiffLineView {
                    kind,
                    content,
                    old_lineno: Some(wrapping_add(h.old_start, h.del_count)),
                    new_lineno: Some(wrapping_add(h.new_start, h.add_count)),
                },
            ),
            del_count: wrapping_add(h.del_count, 1),
            add_count: wrapping_add(h.add_count, 1),
            ..h
        },
    }
}

/// A diff line added to the last hunk of the current file, if there is one.
pub open spec fn with_line(st: ParseView, kind: DiffLineKind, content: Seq<char>) -> ParseView {
    match st.cur {
        Some(f) => if f.hunks.len() > 0 {
            ParseView {
                cur: Some(
                    FileDraftView {
                        hunks: f.hunks.update(
                            f.hunks.len() - 1,
                            add_line(f.hunks.last(), kind, content),
                        ),
                        ..f
                    },
                ),
                ..st
            }
        } else {
            st
        },
        None => st,
    }
}

/// The parser's state after one more line.
pub open spec fn step_spec(st: ParseView, line: Seq<char>) -> ParseView {
    if has_prefix(line, "diff --git "@) {
        let paths = diff_paths_spec(line.skip("diff --git "@.len() as int));
        ParseView {
            files: flush(st.files, st.cur),
            cur: Some(
                FileDraftView {
                    old_path: match paths.0 {
                        Some(p) => p,
                        None => "unknown"@,
                    },
                    new_path: match paths.1 {
                        Some(p) => p,
                        None => "unknown"@,
                    },
                    hunks: Seq::empty(),
                },
            ),
        }
    } else if has_prefix(line, "--- "@) {
        match st.cur {
            Some(f) => {
                let cleaned = trim_start_matches(line.skip("--- "@.len() as int), "a/"@);
                if cleaned == "/dev/null"@ || f.old_path == "unknown"@ {
                    ParseView { cur: Some(FileDraftView { old_path: cleaned, ..f }), ..st }
                } else {
                    st
                }
            },
            None => st,
        }
    } else if has_prefix(line, "+++ "@) {
        match st.cur {
            Some(f) => {
                let cleaned = trim_start_matches(line.skip("+++ "@.len() as int), "b/"@);
                if cleaned == "/dev/null"@ || f.new_path == "unknown"@ {
                    ParseView { cur: Some(FileDraftView { new_path: cleaned, ..f }), ..st }
                } else {
                    st
                }
            },
            None => st,
        }
    } else if has_prefix(line, "@@"@) {
        match st.cur {
            Some(f) => match hunk_header_spec(line) {
                Some(h) => ParseView { cur: Some(FileDraftView { hunks: f.hunks.push(h), ..f }), ..st },
                None => st,
            },
            None => st,
        }
    } else if line.len() > 0 && line[0] == '+' && line != "+++ b/"@ {
        with_line(st, DiffLineKind::Add, line.skip(1))
    } else if line.len() > 0 && line[0] == '-' && line != "--- a/"@ {
        with_line(st, DiffLineKind::Delete, line.skip(1))
    } else if line.len() > 0 && line[0] == ' ' {
        with_line(st, DiffLineKind::Context, line.skip(1))
    } else {
        st
    }
}

/// The parser's state after the given lines.
pub open spec fn parse_state(lines: Seq<Seq<char>>) -> ParseView
    decreases lines.len(),
{
    if lines.len() == 0 {
        ParseView { files: Seq::empty(), cur: None }
    } else {
        step_spec(parse_state(lines.drop_last()), lines.last())
    }
}

/// The files of a unified diff.
pub open spec fn parse_diff_spec(input: Seq<char>) -> Seq<DiffFileView> {
    let st = parse_state(lines_spec(input));
    flush(st.files, st.cur).map_values(|f: DiffFileView| status_fixed(f))
}

/// A file with its status set from its paths.
pub open spec fn status_fixed(f: DiffFileView) -> DiffFileView {
    DiffFileView { status: status_of(f.old_path, f.new_path), ..f }
}

/// A parsed file as the parser promises it: with at least one hunk, its status
/// read from its paths, and no hunk marked staged.
pub open spec fn parsed_file_ok(f: DiffFileView) -> bool {
    &&& f.hunks.len() > 0
    &&& f.status == status_of(f.old_path, f.new_path)
    &&& forall|j: int| 0 <= j < f.hunks.len() ==> !(#[trigger] f.hunks[j]).staged
}

proof fn lemma_flush_ok(files: Seq<DiffFileView>, cur: Option<FileDraftView>)
    requires
        forall|i: int| 0 <= i < files.len() ==> parsed_file_ok(#[trigger] files[i]),
    ensures
        forall|i: int| 0 <= i < flush(files, cur).len() ==> parsed_file_ok(#[trigger] flush(files, cur)[i]),
{
    if let Some(f) = cur {
        if let Some(d) = build_spec(f) {
            assert forall|j: int| 0 <= j < d.hunks.len() implies !(#[trigger] d.hunks[j]).staged by {
                assert(d.hunks[j] == finish_hunk(f.hunks[j]));
            }
            assert(parsed_file_ok(d));
            assert forall|i: int| 0 <= i < flush(files, cur).len() implies parsed_file_ok(
                #[trigger] flush(files, cur)[i],
            ) by {
                if i < files.len() {
                    assert(flush(files, cur)[i] == files[i]);
                }
            }
        }
    }
}

proof fn lemma_parse_state_ok(lines: Seq<Seq<char>>)
    ensures
        forall|i: int| 0 <= i < parse_state(lines).files.len() ==> parsed_file_ok(
            #[trigger] parse_state(lines).files[i],
        ),
    decreases lines.len(),
{
    if lines.len() > 0 {
        let st = parse_state(lines.drop_last());
        lemma_parse_state_ok(lines.drop_last());
        lemma_flush_ok(st.files, st.cur);
        let line = lines.last();
        assert(parse_state(lines) == step_spec(st, line));
        if !has_prefix(line, "diff --git "@) {
            assert(step_spec(st, line).files == st.files);
        }
    }
}

/// Every file that the parser gives has at least one hunk (a file without
/// one, such as a binary file, is left out), a status read from its two
/// paths, and no hunk marked staged.
pub proof fn lemma_parsed_files_well_formed(input: Seq<char>)
    ensures
        forall|i: int| 0 <= i < parse_diff_spec(input).len() ==> parsed_file_ok(
            #[trigger] parse_diff_spec(input)[i],
        ),
{
    let st = parse_state(lines_spec(input));
    lemma_parse_state_ok(lines_spec(input));
    lemma_flush_ok(st.files, st.cur);
    let fl = flush(st.files, st.cur);
    assert forall|i: int| 0 <= i < parse_diff_spec(input).len() implies parsed_file_ok(
        #[trigger] parse_diff_spec(input)[i],
    ) by {
        assert(parse_diff_spec(input)[i] == status_fixed(fl[i]));
        assert(parsed_file_ok(fl[i]));
    }
}

struct HunkBuilder {
    old_start: usize,
    old_count: usize,
    new_start: usize,
    new_count: usize,
    lines: Vec<DiffLine>,
    /// Number of new-side lines seen so far
    add_count: usize,
    /// Number of old-side lines seen so far
    del_count: usize,
}

impl View for HunkBuilder {
    type V = HunkDraftView;

    closed spec fn view(&self) -> HunkDraftView {
        HunkDraftView {
            old_start: self.old_start,
            old_count: self.old_count,
            new_start: self.new_start,
            new_count: self.new_count,
            lines: self.lines@.map_values(|l: DiffLine| l@),
            add_count: self.add_count,
            del_count: self.del_count,
        }
    }
}

struct DiffFileBuilder {
    old_path: String,
    new_path: String,
    status: FileStatus,
    hunks: Vec<HunkBuilder>,
}

impl View for DiffFileBuilder {
    type V = FileDraftView;

    closed spec fn view(&self) -> FileDraftView {
        FileDraftView {
            old_path: self.old_path@,
            new_path: self.new_path@,
            hunks: self.hunks@.map_values(|h: HunkBuilder| h@),
        }
    }
}

spec fn opt_view(c: Option<DiffFileBuilder>) -> Option<FileDraftView> {
    match c {
        Some(f) => Some(f@),
        None => None,
    }
}

pub open spec fn files_view(v: Seq<DiffFile>) -> Seq<DiffFileView> {
    v.map_values(|f: DiffFile| f@)
}

/// `s` with leading repetitions of the two-character prefix `p` removed.
pub(crate) fn trim_start_matches_exec(s: &[char], p: &[char]) -> (r: Vec<char>)
    requires
        p@.len() > 0,
    ensures
        r@ == trim_start_matches(s@, p@),
{
    let mut i: usize = 0;
    proof {
        assert(s@.skip(0) =~= s@);
    }
    while p.len() <= s.len() - i && starts_with(&sub_vec(s, i, s.len()), p)
        invariant
            0 <= i <= s@.len(),
            p@.len() > 0,
            trim_start_matches(s@.skip(i as int), p@) == trim_start_matches(s@, p@),
        decreases s@.len() - i,
    {
        proof {
            assert(s@.skip(i as int).skip(p@.len() as int) =~= s@.skip(i + p@.len()));
        }
        i += p.len();
    }
    let r = sub_vec(s, i, s.len());
    proof {
        assert(r@ =~= s@.skip(i as int));
        if i + p@.len() > s@.len() {
            assert(!has_prefix(s@.skip(i as int), p@));
        }
    }
    r
}

pub(crate) fn index_of_exec(s: &[char], c: char) -> (r: Option<usize>)
    ensures
        r matches Some(j) ==> index_of(s@, c) == Some(j as int),
        r is None ==> index_of(s@, c) is None,
{
    let mut pat: Vec<char> = Vec::new();
    pat.push(c);
    proof {
        assert(pat@ =~= seq![c]);
    }
    find_chars(s, pat.as_slice(), 0)
}

pub(crate) proof fn lemma_index_of(s: Seq<char>, c: char)
    ensures
        index_of(s, c) matches Some(j) ==> 0 <= j < s.len() && s[j] == c,
{
    lemma_find_from(s, seq![c], 0);
    if let Some(j) = index_of(s, c) {
        assert(s.skip(j).take(1)[0] == s[j]);
    }
}

/// `s.splitn(n, ' ')`.
pub(crate) fn splitn_space_exec(s: &[char], n: usize) -> (r: Vec<Vec<char>>)
    ensures
        r@.map_values(|p: Vec<char>| p@) == splitn_space(s@, n as nat),
    decreases n,
{
    if n <= 1 {
        let mut r: Vec<Vec<char>> = Vec::new();
        r.push(sub_vec(s, 0, s.len()));
        proof {
            assert(s@.subrange(0, s@.len() as int) =~= s@);
            assert(r@.map_values(|p: Vec<char>| p@) =~= seq![s@]);
        }
        return r;
    }
    match index_of_exec(s, ' ') {
        Some(j) => {
            proof {
                assert(index_of(s@, ' ') == Some(j as int));
                lemma_index_of(s@, ' ');
            }
            let slen = s.len();
            let head = sub_vec(s, 0, j);
            let tail = sub_vec(s, j + 1, slen);
            let rest = splitn_space_exec(tail.as_slice(), n - 1);
            let mut r: Vec<Vec<char>> = Vec::new();
            r.push(head);
            let mut k: usize = 0;
            while k < rest.len()
                invariant
                    0 <= k <= rest@.len(),
                    r@.len() == k + 1,
                    r@.map_values(|p: Vec<char>| p@) =~= seq![head@] + rest@.map_values(|p: Vec<char>| p@).take(k as int),
                decreases rest@.len() - k,
            {
                let ghost r0 = r@;
                let piece = sub_vec(rest[k].as_slice(), 0, rest[k].len());
                proof {
                    assert(rest@[k as int]@.subrange(0, rest@[k as int]@.len() as int) =~= rest@[k as int]@);
                }
                r.push(piece);
                proof {
                    let rm = rest@.map_values(|p: Vec<char>| p@);
                    assert(r@.map_values(|p: Vec<char>| p@) =~= r0.map_values(|p: Vec<char>| p@).push(rm[k as int]));
                    assert(rm.take(k + 1) =~= rm.take(k as int).push(rm[k as int]));
                    assert((seq![head@] + rm.take(k as int)).push(rm[k as int]) =~= seq![head@] + rm.take(k + 1));
                }
                k += 1;
            }
            proof {
                assert(rest@.map_values(|p: Vec<char>| p@).take(k as int) =~= rest@.map_values(|p: Vec<char>| p@));
                assert(head@ =~= s@.take(j as int));
                assert(tail@ =~= s@.skip(j + 1));
            }
            r
        },
        None => {
            let mut r: Vec<Vec<char>> = Vec::new();
            r.push(sub_vec(s, 0, s.len()));
            proof {
                assert(s@.subrange(0, s@.len() as int) =~= s@);
                assert(r@.map_values(|p: Vec<char>| p@) =~= seq![s@]);
            }
            r
        },
    }
}

fn first_with_prefix_exec(parts: &Vec<Vec<char>>, p: &[char]) -> (r: Option<Vec<char>>)
    ensures
        r matches Some(v) ==> first_with_prefix(parts@.map_values(|q: Vec<char>| q@), p@) == Some(v@),
        r is None ==> first_with_prefix(parts@.map_values(|q: Vec<char>| q@), p@) is None,
{
    let ghost pv = parts@.map_values(|q: Vec<char>| q@);
    let mut i: usize = 0;
    proof {
        assert(pv.skip(0) =~= pv);
    }
    while i < parts.len()
        invariant
            0 <= i <= parts@.len(),
            pv == parts@.map_values(|q: Vec<char>| q@),
            first_with_prefix(pv.skip(i as int), p@) == first_with_prefix(pv, p@),
        decreases parts@.len() - i,
    {
        proof {
            assert(pv.skip(i as int)[0] == parts@[i as int]@);
            assert(pv.skip(i as int).drop_first() =~= pv.skip(i + 1));
        }
        if starts_with(parts[i].as_slice(), p) {
            return Some(sub_vec(parts[i].as_slice(), p.len(), parts[i].len()));
        }
        i += 1;
    }
    None
}

/// Old and new path of `a/old b/new`.
fn parse_diff_paths(s: &[char]) -> (r: (Option<String>, Option<String>))
    ensures
        (match r.0 {
            Some(x) => Some(x@),
            None => None,
        }) == diff_paths_spec(s@).0,
        (match r.1 {
            Some(x) => Some(x@),
            None => None,
        }) == diff_paths_spec(s@).1,
{
    let parts = splitn_space_exec(s, 4);
    let a = chars_of("a/");
    let b = chars_of("b/");
    let old = match first_with_prefix_exec(&parts, a.as_slice()) {
        Some(v) => Some(string_of(v.as_slice())),
        None => None,
    };
    let new = match first_with_prefix_exec(&parts, b.as_slice()) {
        Some(v) => Some(string_of(v.as_slice())),
        None => None,
    };
    (old, new)
}

/// Parses `-start,count` or `+start,count` (count 1 when omitted).
fn parse_range(s: &[char]) -> (r: Option<(usize, usize)>)
    ensures
        r == range_spec(s@),
{
    if !(s.len() > 0 && (s[0] == '-' || s[0] == '+')) {
        return None;
    }
    let t = sub_vec(s, 1, s.len());
    proof {
        assert(t@ =~= s@.skip(1));
    }
    match index_of_exec(t.as_slice(), ',') {
        Some(c) => {
            proof {
                lemma_index_of(t@, ',');
            }
            let a = sub_vec(t.as_slice(), 0, c);
            let b = sub_vec(t.as_slice(), c + 1, t.len());
            proof {
                assert(a@ =~= t@.take(c as int));
                assert(b@ =~= t@.skip(c + 1));
            }
            match (parse_usize(a.as_slice()), parse_usize(b.as_slice())) {
                (Some(x), Some(y)) => Some((x, y)),
                _ => None,
            }
        },
        None => match parse_usize(t.as_slice()) {
            Some(x) => Some((x, 1)),
            None => None,
        },
    }
}

/// Parses `@@ -start,count +start,count @@ ...` into an empty hunk.
fn parse_hunk_header(line: &[char]) -> (r: Option<HunkBuilder>)
    ensures
        (match r {
            Some(h) => Some(h@),
            None => None,
        }) == hunk_header_spec(line@),
{
    let at = chars_of("@@");
    if !starts_with(line, at.as_slice()) {
        return None;
    }
    let rest = sub_vec(line, at.len(), line.len());
    proof {
        assert(rest@ =~= line@.skip(at@.len() as int));
    }
    let j = match find_chars(rest.as_slice(), at.as_slice(), 0) {
        Some(j) => j,
        None => {
            return None;
        },
    };
    proof {
        lemma_find_from(rest@, at@, 0);
    }
    let head = sub_vec(rest.as_slice(), 0, j);
    proof {
        assert(head@ =~= rest@.take(j as int));
    }
    let rp = trim_chars(head.as_slice());
    let k = match index_of_exec(rp.as_slice(), ' ') {
        Some(k) => k,
        None => {
            return None;
        },
    };
    proof {
        lemma_index_of(rp@, ' ');
    }
    let o = sub_vec(rp.as_slice(), 0, k);
    let n = sub_vec(rp.as_slice(), k + 1, rp.len());
    proof {
        assert(o@ =~= rp@.take(k as int));
        assert(n@ =~= rp@.skip(k + 1));
    }
    match (parse_range(o.as_slice()), parse_range(n.as_slice())) {
        (Some(a), Some(b)) => {
            let h = HunkBuilder {
                old_start: a.0,
                old_count: a.1,
                new_start: b.0,
                new_count: b.1,
                lines: Vec::new(),
                add_count: 0,
                del_count: 0,
            };
            proof {
                assert(h@.lines =~= Seq::<DiffLineView>::empty());
            }
            Some(h)
        },
        _ => None,
    }
}

/// The header line of a finished hunk.
fn hunk_header_string(h: &HunkBuilder) -> (r: String)
    ensures
        r@ == hunk_header_text(h@),
{
    let mut s = String::new();
    proof {
        assert(s@ =~= Seq::<char>::empty());
    }
    push_str(&mut s, "@@ -");
    push_decimal(&mut s, h.old_start);
    push_str(&mut s, ",");
    push_decimal(&mut s, h.old_count);
    push_str(&mut s, " +");
    push_decimal(&mut s, h.new_start);
    push_str(&mut s, ",");
    push_decimal(&mut s, h.new_count);
    push_str(&mut s, " @@");
    s
}

/// `Added`, `Deleted`, `Renamed` or `Modified`, from the two paths.
fn detect_status(old: &str, new: &str) -> (r: FileStatus)
    ensures
        r == status_of(old@, new@),
{
    let o = chars_of(old);
    let n = chars_of(new);
    let dn = chars_of("/dev/null");
    if chars_eq(o.as_slice(), dn.as_slice()) {
        FileStatus::Added
    } else if chars_eq(n.as_slice(), dn.as_slice()) {
        FileStatus::Deleted
    } else if !chars_eq(o.as_slice(), n.as_slice()) {
        FileStatus::Renamed
    } else {
        FileStatus::Modified
    }
}

impl DiffFileBuilder {
    /// The finished file; none when it has no hunk.
    fn build(self) -> (r: Option<DiffFile>)
        ensures
            (match r {
                Some(f) => Some(f@),
                None => None,
            }) == build_spec(self@),
    {
        if self.hunks.len() == 0 {
            return None;
        }
        let ghost sv = self@;
        let mut hunks: Vec<Hunk> = Vec::new();
        let mut src = self.hunks;
        let mut i: usize = 0;
        let n = src.len();
        while i < n
            invariant
                0 <= i <= n,
                n == src@.len(),
                src@.map_values(|h: HunkBuilder| h@).skip(i as int) == sv.hunks.skip(i as int),
                src@.len() == sv.hunks.len(),
                hunks@.map_values(|h: Hunk| h@) =~= sv.hunks.take(i as int).map_values(
                    |h: HunkDraftView| finish_hunk(h),
                ),
            decreases n - i,
        {
            let mut hb = HunkBuilder {
                old_start: 0,
                old_count: 0,
                new_start: 0,
                new_count: 0,
                lines: Vec::new(),
                add_count: 0,
                del_count: 0,
            };
            let ghost before = src@;
            proof {
                assert(src@.map_values(|h: HunkBuilder| h@).skip(i as int)[0] == sv.hunks.skip(i as int)[0]);
                assert(src@[i as int]@ == sv.hunks[i as int]);
            }
            std::mem::swap(&mut hb, &mut src[i]);
            proof {
                assert(hb == before[i as int]);
                assert forall|k: int| i < k < n implies #[trigger] src@[k] == before[k] by {}
                assert(src@.map_values(|h: HunkBuilder| h@).skip(i + 1) =~= before.map_values(|h: HunkBuilder| h@).skip(i + 1));
                assert(before.map_values(|h: HunkBuilder| h@).skip(i + 1) =~= before.map_values(|h: HunkBuilder| h@).skip(i as int).drop_first());
                assert(sv.hunks.skip(i + 1) =~= sv.hunks.skip(i as int).drop_first());
            }
            let header = hunk_header_string(&hb);
            let h = Hunk {
                old_start: hb.old_start,
                old_count: hb.old_count,
                new_start: hb.new_start,
                new_count: hb.new_count,
                header,
                lines: hb.lines,
                staged: false,
            };
            hunks.push(h);
            proof {
                assert(sv.hunks.take(i + 1).map_values(|h: HunkDraftView| finish_hunk(h)) =~= sv.hunks.take(
                    i as int,
                ).map_values(|h: HunkDraftView| finish_hunk(h)).push(finish_hunk(sv.hunks[i as int])));
            }
            i += 1;
        }
        proof {
            assert(sv.hunks.take(n as int) =~= sv.hunks);
        }
        let status = detect_status(self.old_path.as_str(), self.new_path.as_str());
        Some(DiffFile { status, old_path: self.old_path, new_path: self.new_path, hunks })
    }
}

/// Adds the finished current file (if it has hunks) to `files`.
fn flush_exec(files: &mut Vec<DiffFile>, cur: Option<DiffFileBuilder>)
    ensures
        files_view(final(files)@) == flush(files_view(old(files)@), opt_view(cur)),
{
    if let Some(b) = cur {
        if let Some(f) = b.build() {
            files.push(f);
            proof {
                assert(files_view(files@) =~= files_view(old(files)@).push(f@));
            }
        }
    }
}

/// Adds a diff line of `kind` to the last hunk of the current file.
fn with_line_exec(cur: Option<DiffFileBuilder>, kind: DiffLineKind, content: &[char]) -> (r: Option<DiffFileBuilder>)
    ensures
        forall|files: Seq<DiffFileView>| opt_view(r) == #[trigger] with_line((ParseView { files, cur: opt_view(cur) }), kind, content@).cur,
{
    match cur {
        Some(mut f) => {
            if f.hunks.len() == 0 {
                return Some(f);
            }
            let ghost fv = f@;
            let mut h = f.hunks.pop().unwrap();
            proof {
                assert(h@ == fv.hunks.last());
            }
            let text = string_of(content);
            let line = match kind {
                DiffLineKind::Add => {
                    let l = DiffLine {
                        kind,
                        content: text,
                        old_lineno: None,
                        new_lineno: Some(h.new_start.wrapping_add(h.add_count)),
                    };
                    h.add_count = h.add_count.wrapping_add(1);
                    l
                },
                DiffLineKind::Delete => {
                    let l = DiffLine {
                        kind,
                        content: text,
                        old_lineno: Some(h.old_start.wrapping_add(h.del_count)),
                        new_lineno: None,
                    };
                    h.del_count = h.del_count.wrapping_add(1);
                    l
                },
                DiffLineKind::Context => {
                    let l = DiffLine {
                        kind,
                        content: text,
                        old_lineno: Some(h.old_start.wrapping_add(h.del_count)),
                        new_lineno: Some(h.new_start.wrapping_add(h.add_count)),
                    };
                    h.del_count = h.del_count.wrapping_add(1);
                    h.add_count = h.add_count.wrapping_add(1);
                    l
                },
            };
            let ghost hl = h.lines@;
            h.lines.push(line);
            proof {
                assert(h.lines@.map_values(|l: DiffLine| l@) =~= hl.map_values(|l: DiffLine| l@).push(line@));
                assert(h@ == add_line(fv.hunks.last(), kind, content@));
            }
            f.hunks.push(h);
            proof {
                assert(f@.hunks =~= fv.hunks.update(fv.hunks.len() - 1, add_line(fv.hunks.last(), kind, content@)));
            }
            Some(f)
        },
        None => None,
    }
}

/// The parser's state after one line.
fn step(files: &mut Vec<DiffFile>, cur: Option<DiffFileBuilder>, line: &[char]) -> (r: Option<DiffFileBuilder>)
    ensures
        (ParseView { files: files_view(final(files)@), cur: opt_view(r) }) == step_spec(
            (ParseView { files: files_view(old(files)@), cur: opt_view(cur) }),
            line@,
        ),
{
    let ghost st = ParseView { files: files_view(files@), cur: opt_view(cur) };
    let dg = chars_of("diff --git ");
    let minus3 = chars_of("--- ");
    let plus3 = chars_of("+++ ");
    let at = chars_of("@@");
    let plus_b = chars_of("+++ b/");
    let minus_a = chars_of("--- a/");
    if starts_with(line, dg.as_slice()) {
        flush_exec(files, cur);
        let rest = sub_vec(line, dg.len(), line.len());
        proof {
            assert(rest@ =~= line@.skip(dg@.len() as int));
        }
        let (old, new) = parse_diff_paths(rest.as_slice());
        let old_path = match old {
            Some(p) => p,
            None => String::from_str("unknown"),
        };
        let new_path = match new {
            Some(p) => p,
            None => String::from_str("unknown"),
        };
        let b = DiffFileBuilder { old_path, new_path, status: FileStatus::Modified, hunks: Vec::new() };
        proof {
            assert(b@.hunks =~= Seq::<HunkDraftView>::empty());
        }
        return Some(b);
    }
    if starts_with(line, minus3.as_slice()) {
        return match cur {
            Some(mut f) => {
                let a = chars_of("a/");
                proof {
                    reveal_strlit("a/");
                }
                let cleaned = trim_start_matches_exec(&sub_vec(line, minus3.len(), line.len()), a.as_slice());
                proof {
                    assert(line@.subrange(minus3@.len() as int, line@.len() as int) =~= line@.skip(minus3@.len() as int));
                }
                let dn = chars_of("/dev/null");
                let unknown = chars_of("unknown");
                let cur_old = chars_of(f.old_path.as_str());
                if chars_eq(cleaned.as_slice(), dn.as_slice()) || chars_eq(cur_old.as_slice(), unknown.as_slice()) {
                    f.old_path = string_of(cleaned.as_slice());
                }
                Some(f)
            },
            None => None,
        };
    }
    if starts_with(line, plus3.as_slice()) {
        return match cur {
            Some(mut f) => {
                let b = chars_of("b/");
                proof {
                    reveal_strlit("b/");
                }
                let cleaned = trim_start_matches_exec(&sub_vec(line, plus3.len(), line.len()), b.as_slice());
                proof {
                    assert(line@.subrange(plus3@.len() as int, line@.len() as int) =~= line@.skip(plus3@.len() as int));
                }
                let dn = chars_of("/dev/null");
                let unknown = chars_of("unknown");
                let cur_new = chars_of(f.new_path.as_str());
                if chars_eq(cleaned.as_slice(), dn.as_slice()) || chars_eq(cur_new.as_slice(), unknown.as_slice()) {
                    f.new_path = string_of(cleaned.as_slice());
                }
                Some(f)
            },
            None => None,
        };
    }
    if starts_with(line, at.as_slice()) {
        return match cur {
            Some(mut f) => {
                match parse_hunk_header(line) {
                    Some(h) => {
                        let ghost hs = f@.hunks;
                        f.hunks.push(h);
                        proof {
                            assert(f@.hunks =~= hs.push(h@));
                        }
                    },
                    None => {},
                }
                Some(f)
            },
            None => None,
        };
    }
    let rest = sub_vec(line, if line.len() > 0 { 1 } else { 0 }, line.len());
    proof {
        if line@.len() > 0 {
            assert(rest@ =~= line@.skip(1));
        }
    }
    if line.len() > 0 && line[0] == '+' && !chars_eq(line, plus_b.as_slice()) {
        return with_line_exec(cur, DiffLineKind::Add, rest.as_slice());
    }
    if line.len() > 0 && line[0] == '-' && !chars_eq(line, minus_a.as_slice()) {
        return with_line_exec(cur, DiffLineKind::Delete, rest.as_slice());
    }
    if line.len() > 0 && line[0] == ' ' {
        return with_line_exec(cur, DiffLineKind::Context, rest.as_slice());
    }
    cur
}

/// Parses a unified diff into its changed files: `diff --git` headers,
/// `---`/`+++` path lines (which may name `/dev/null`), `@@` hunk headers,
/// and context, added and deleted lines; other lines (such as `\ No newline
/// at end of file` or binary notices) are skipped, and a file without hunks
/// is left out.
pub fn parse_unified_diff(input: &str) -> (r: Vec<DiffFile>)
    ensures
        files_view(r@) == parse_diff_spec(input@),
{
    let chars = chars_of(input);
    let lines = split_lines(chars.as_slice());
    let ghost ls = lines@.map_values(|l: Vec<char>| l@);
    let mut files: Vec<DiffFile> = Vec::new();
    let mut cur: Option<DiffFileBuilder> = None;
    let mut k: usize = 0;
    proof {
        assert(ls.take(0) =~= Seq::<Seq<char>>::empty());
        assert(files_view(files@) =~= Seq::<DiffFileView>::empty());
    }
    while k < lines.len()
        invariant
            0 <= k <= lines@.len(),
            ls == lines@.map_values(|l: Vec<char>| l@),
            ls == lines_spec(input@),
            (ParseView { files: files_view(files@), cur: opt_view(cur) }) == parse_state(ls.take(k as int)),
        decreases lines@.len() - k,
    {
        proof {
            assert(ls.take(k + 1).drop_last() =~= ls.take(k as int));
            assert(ls.take(k + 1).last() == lines@[k as int]@);
        }
        cur = step(&mut files, cur, lines[k].as_slice());
        k += 1;
    }
    proof {
        assert(ls.take(k as int) =~= ls);
    }
    flush_exec(&mut files, cur);
    let ghost flushed = files_view(files@);
    let mut i: usize = 0;
    while i < files.len()
        invariant
            0 <= i <= files@.len(),
            flushed.len() == files@.len(),
            forall|j: int| i <= j < files@.len() ==> #[trigger] files@[j]@ == flushed[j],
            forall|j: int| 0 <= j < i ==> #[trigger] files@[j]@ == status_fixed(flushed[j]),
        decreases files@.len() - i,
    {
        let ghost before = files@;
        let mut f = files.remove(i);
        proof {
            assert(before[i as int]@ == flushed[i as int]);
            assert(f@ == flushed[i as int]);
        }
        let st = detect_status(f.old_path.as_str(), f.new_path.as_str());
        f.status = st;
        files.insert(i, f);
        proof {
            assert(files@ =~= before.update(i as int, f));
            assert(f@ == status_fixed(flushed[i as int]));
        }
        i += 1;
    }
    proof {
        assert(files_view(files@) =~= flushed.map_values(|f: DiffFileView| status_fixed(f)));
    }
    files
}

/// The marker character of a diff line in a patch.
pub open spec fn kind_marker(k: DiffLineKind) -> char {
    match k {
        DiffLineKind::Add => '+',
        DiffLineKind::Delete => '-',
        DiffLineKind::Context => ' ',
    }
}

/// The patch lines of a hunk's lines, each ending in a line feed.
pub open spec fn patch_lines(ls: Seq<DiffLineView>) -> Seq<char>
    decreases ls.len(),
{
    if ls.len() == 0 {
        Seq::empty()
    } else {
        patch_lines(ls.drop_last()) + seq![kind_marker(ls.last().kind)] + ls.last().content + seq!['\n']
    }
}

/// The patch of one hunk of the file at `path`, as `git apply` reads it.
pub open spec fn patch_spec(h: HunkView, path: Seq<char>) -> Seq<char> {
    "--- a/"@ + path + seq!['\n'] + "+++ b/"@ + path + seq!['\n'] + h.header + seq!['\n']
        + patch_lines(h.lines)
}

/// The unified-diff patch of one hunk, for `git apply`; it names the file
/// by `file_path` on both sides.
pub fn hunk_to_patch(hunk: &Hunk, file_path: &str) -> (r: String)
    ensures
        r@ == patch_spec(hunk@, file_path@),
{
    let mut patch = String::new();
    proof {
        assert(patch@ =~= Seq::<char>::empty());
    }
    push_str(&mut patch, "--- a/");
    push_str(&mut patch, file_path);
    push_char(&mut patch, '\n');
    push_str(&mut patch, "+++ b/");
    push_str(&mut patch, file_path);
    push_char(&mut patch, '\n');
    push_str(&mut patch, hunk.header.as_str());
    push_char(&mut patch, '\n');
    let ghost head = patch@;
    let ghost lv = hunk@.lines;
    let mut i: usize = 0;
    proof {
        assert(lv.take(0) =~= Seq::<DiffLineView>::empty());
        assert(patch@ =~= head + patch_lines(lv.take(0)));
    }
    while i < hunk.lines.len()
        invariant
            0 <= i <= hunk.lines@.len(),
            lv == hunk@.lines,
            patch@ == head + patch_lines(lv.take(i as int)),
        decreases hunk.lines@.len() - i,
    {
        let line = &hunk.lines[i];
        let m = match line.kind {
            DiffLineKind::Add => '+',
            DiffLineKind::Delete => '-',
            DiffLineKind::Context => ' ',
        };
        push_char(&mut patch, m);
        push_str(&mut patch, line.content.as_str());
        push_char(&mut patch, '\n');
        proof {
            assert(lv.take(i + 1).drop_last() =~= lv.take(i as int));
            assert(lv.take(i + 1).last() == line@);
            assert(patch@ =~= head + patch_lines(lv.take(i + 1)));
        }
        i += 1;
    }
    proof {
        assert(lv.take(i as int) =~= lv);
    }
    patch
}

/// Review state for a diff: `project_root` is the repository root git
/// reported (none outside a repository) and `diff_output` what `git diff`
/// printed, or why it failed. There is no state without both.
pub fn try_get_review_state(
    args: &ReviewArgs,
    project_root: Option<PathBuf>,
    diff_output: Result<String, String>,
) -> (r: Option<ReviewState>)
    ensures
        r is Some <==> project_root is Some && diff_output is Ok,
        r matches Some(st) ==> {
            &&& st.args@ == args@
            &&& files_view(st.files@) == parse_diff_spec(diff_output->Ok_0@)
            &&& st.selected_file == 0
            &&& st.selected_hunk == 0
            &&& st.sub_mode == ReviewSubMode::FileList
            &&& st.annotations@.len() == 0
            &&& st.comments@.len() == 0
            &&& st.scroll.scroll_top == 0
            &&& st.diff_style == DiffStyle::Unified
            &&& st.file_list_width == 30
            &&& st.project_root == project_root
            &&& st.comment_buffer@.len() == 0
            &&& st.comment_cursor == 0
        },
{
    let root = match project_root {
        Some(p) => p,
        None => {
            return None;
        },
    };
    let out = match diff_output {
        Ok(o) => o,
        Err(_) => {
            return None;
        },
    };
    let files = parse_unified_diff(out.as_str());
    let comment_buffer = String::new();
    proof {
        assert(comment_buffer@ =~= Seq::<char>::empty());
    }
    Some(
        ReviewState {
            args: args.clone(),
            files,
            selected_file: 0,
            selected_hunk: 0,
            sub_mode: ReviewSubMode::FileList,
            annotations: Vec::new(),
            comments: Vec::new(),
            scroll: ScrollState { scroll_top: 0 },
            diff_style: DiffStyle::Unified,
            file_list_width: 30,
            project_root: Some(root),
            comment_buffer,
            comment_cursor: 0,
        },
    )
}

/// The arguments of the `git diff` command for a review.
pub open spec fn git_diff_args_spec(a: ReviewArgsView) -> Seq<Seq<char>> {
    match a {
        ReviewArgsView::WorkingTree => seq!["diff"@, "--unified=3"@],
        ReviewArgsView::Staged => seq!["diff"@, "--cached"@, "--unified=3"@],
        ReviewArgsView::Against(rev) => seq!["diff"@, rev, "--unified=3"@],
        ReviewArgsView::Range(x, y) => seq!["diff"@, x + ".."@ + y, "--unified=3"@],
        ReviewArgsView::File(p) => seq!["diff"@, "--unified=3"@, "--"@, p],
    }
}

fn lit(s: &str) -> (r: String)
    ensures
        r@ == s@,
{
    String::from_str(s)
}

/// The arguments of the `git diff` command for a review.
pub fn git_diff_args(args: &ReviewArgs) -> (r: Vec<String>)
    ensures
        r@.map_values(|x: String| x@) == git_diff_args_spec(args@),
{
    let mut v: Vec<String> = Vec::new();
    v.push(lit("diff"));
    match args {
        ReviewArgs::WorkingTree => {
            v.push(lit("--unified=3"));
        },
        ReviewArgs::Staged => {
            v.push(lit("--cached"));
            v.push(lit("--unified=3"));
        },
        ReviewArgs::Against(rev) => {
            v.push(rev.clone());
            v.push(lit("--unified=3"));
        },
        ReviewArgs::Range(a, b) => {
            let mut r = a.clone();
            push_str(&mut r, "..");
            push_str(&mut r, b.as_str());
            v.push(r);
            v.push(lit("--unified=3"));
        },
        ReviewArgs::File(p) => {
            v.push(lit("--unified=3"));
            v.push(lit("--"));
            v.push(p.clone());
        },
    }
    proof {
        assert(v@.map_values(|x: String| x@) =~= git_diff_args_spec(args@));
    }
    v
}

/// How a failure to start `git diff` is reported.
pub open spec fn git_diff_spawn_error(a: ReviewArgsView, e: Seq<char>) -> Seq<char> {
    match a {
        ReviewArgsView::WorkingTree => "Failed to run git diff: "@ + e,
        ReviewArgsView::Staged => "Failed to run git diff --cached: "@ + e,
        ReviewArgsView::Against(rev) => "Failed to run git diff "@ + rev + ": "@ + e,
        ReviewArgsView::Range(x, y) => "Failed to run git diff "@ + x + ".."@ + y + ": "@ + e,
        ReviewArgsView::File(p) => "Failed to run git diff -- "@ + p + ": "@ + e,
    }
}

/// The diff text of a finished `git diff`, or the error to report: `output`
/// is the process, or the reason it could not be started.
pub fn git_diff_outcome(args: &ReviewArgs, output: Result<crate::git::GitOutput, String>) -> (r: Result<String, String>)
    ensures
        output matches Err(e) ==> (r matches Err(m) && m@ == git_diff_spawn_error(args@, e@)),
        output matches Ok(o) ==> (!o.success ==> (r matches Err(m) && m@ == "git diff failed: "@ + trim_spec(
            crate::strutil::utf8_lossy(o.stderr@),
        ))),
        output matches Ok(o) ==> (o.success ==> (r matches Ok(t) && t@ == crate::strutil::utf8_lossy(o.stdout@))),
{
    match output {
        Err(e) => {
            let mut m = String::new();
            proof {
                assert(m@ =~= Seq::<char>::empty());
            }
            match args {
                ReviewArgs::WorkingTree => {
                    push_str(&mut m, "Failed to run git diff: ");
                },
                ReviewArgs::Staged => {
                    push_str(&mut m, "Failed to run git diff --cached: ");
                },
                ReviewArgs::Against(rev) => {
                    push_str(&mut m, "Failed to run git diff ");
                    push_str(&mut m, rev.as_str());
                    push_str(&mut m, ": ");
                },
                ReviewArgs::Range(a, b) => {
                    push_str(&mut m, "Failed to run git diff ");
                    push_str(&mut m, a.as_str());
                    push_str(&mut m, "..");
                    push_str(&mut m, b.as_str());
                    push_str(&mut m, ": ");
                },
                ReviewArgs::File(p) => {
                    push_str(&mut m, "Failed to run git diff -- ");
                    push_str(&mut m, p.as_str());
                    push_str(&mut m, ": ");
                },
            }
            push_str(&mut m, e.as_str());
            Err(m)
        },
        Ok(o) => {
            if !o.success {
                let text = crate::strutil::from_utf8_lossy(o.stderr.as_slice());
                let cs = chars_of(text.as_str());
                let t = trim_chars(cs.as_slice());
                let mut m = String::new();
                proof {
                    assert(m@ =~= Seq::<char>::empty());
                }
                push_str(&mut m, "git diff failed: ");
                let ts = string_of(t.as_slice());
                push_str(&mut m, ts.as_str());
                Err(m)
            } else {
                Ok(crate::strutil::from_utf8_lossy(o.stdout.as_slice()))
            }
        },
    }
}

} // verus!
