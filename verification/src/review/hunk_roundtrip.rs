//! Reading back the patch of one hunk: the diff parser gives the hunk back.
use crate::chars::{
    decimal, find_from, find_spec, has_prefix, lemma_find_from, lemma_next_nl, lemma_skip_ws,
    lemma_skip_ws_back, lines_from, lines_spec, next_nl, skip_ws, skip_ws_back, strip_cr,
    trim_spec,
};
use crate::text::is_whitespace_spec;
use crate::review::diff::{
    add_line, diff_paths_spec, first_with_prefix, flush, hunk_header_spec, index_of, kind_marker,
    patch_lines, patch_spec, range_spec, splitn_space, step_spec, trim_start_matches, with_line,
    parse_state, parse_diff_spec, build_spec, finish_hunk, status_fixed, status_of, FileDraftView,
    HunkDraftView, ParseView,
};
use crate::review::roundtrip::lemma_decimal_reads_back;
use crate::review::roundtrip::lemma_decimal;
use crate::review::state::{DiffFileView, DiffLineKind, DiffLineView, FileStatus, HunkView};
use vstd::prelude::*;

verus! {

/// Lines written one after another, each followed by a line feed.
pub open spec fn joined(ls: Seq<Seq<char>>) -> Seq<char>
    decreases ls.len(),
{
    if ls.len() == 0 {
        Seq::empty()
    } else {
        joined(ls.drop_last()) + ls.last() + seq!['\n']
    }
}

/// A line that `str::lines` gives back as it is: no line feed in it, and
/// no CR at its end.
pub open spec fn plain_line(l: Seq<char>) -> bool {
    &&& forall|k: int| 0 <= k < l.len() ==> #[trigger] l[k] != '\n'
    &&& (l.len() == 0 || l.last() != '\r')
}

proof fn lemma_one_line(s: Seq<char>, i: int, l: Seq<char>)
    requires
        0 <= i,
        i + l.len() < s.len(),
        s.subrange(i, i + l.len()) == l,
        s[i + l.len()] == '\n',
        plain_line(l),
    ensures
        lines_from(s, i) == seq![l] + lines_from(s, i + l.len() + 1),
{
    lemma_next_nl(s, i);
    let nn = next_nl(s, i);
    let e = i + l.len();
    if nn < e {
        assert(s[nn] == s.subrange(i, e)[nn - i]);
        assert(l[nn - i] != '\n');
    }
    assert(nn == e);
    assert(s.subrange(i, nn) == l);
    assert(strip_cr(l) == l);
}

proof fn lemma_joined_prefix(s: Seq<char>, ls: Seq<Seq<char>>)
    requires
        joined(ls).len() <= s.len(),
        s.take(joined(ls).len() as int) == joined(ls),
        forall|k: int| 0 <= k < ls.len() ==> plain_line(#[trigger] ls[k]),
    ensures
        lines_from(s, 0) == ls + lines_from(s, joined(ls).len() as int),
    decreases ls.len(),
{
    if ls.len() == 0 {
        assert(ls + lines_from(s, 0) =~= lines_from(s, 0));
    } else {
        let a = ls.drop_last();
        let l = ls.last();
        let ja = joined(a);
        assert(joined(ls) == ja + l + seq!['\n']);
        assert(s.take(ja.len() as int) =~= ja) by {
            assert(s.take(ja.len() as int) =~= s.take(joined(ls).len() as int).take(ja.len() as int));
            assert(joined(ls).take(ja.len() as int) =~= ja);
        }
        assert forall|k: int| 0 <= k < a.len() implies plain_line(#[trigger] a[k]) by {
            assert(a[k] == ls[k]);
        }
        lemma_joined_prefix(s, a);
        let i = ja.len() as int;
        assert(s.subrange(i, i + l.len()) =~= l) by {
            assert forall|k: int| 0 <= k < l.len() implies s.subrange(i, i + l.len())[k] == l[k] by {
                assert(s[i + k] == s.take(joined(ls).len() as int)[i + k]);
                assert(joined(ls)[i + k] == l[k]);
            }
        }
        assert(s[i + l.len()] == '\n') by {
            assert(s[i + l.len()] == s.take(joined(ls).len() as int)[i + l.len()]);
        }
        assert(plain_line(l)) by {
            assert(l == ls[ls.len() - 1]);
        }
        lemma_one_line(s, i, l);
        assert(ls =~= a.push(l));
        assert(a + (seq![l] + lines_from(s, i + l.len() + 1)) =~= ls + lines_from(s, i + l.len() + 1));
    }
}

/// The lines of text written as `joined(ls)` are `ls` again, when no line
/// holds a line feed or ends in a CR.
pub proof fn lemma_joined_lines(ls: Seq<Seq<char>>)
    requires
        forall|k: int| 0 <= k < ls.len() ==> plain_line(#[trigger] ls[k]),
    ensures
        lines_spec(joined(ls)) == ls,
{
    let s = joined(ls);
    assert(s.take(s.len() as int) =~= s);
    lemma_joined_prefix(s, ls);
    assert(lines_from(s, s.len() as int) =~= Seq::<Seq<char>>::empty());
    assert(ls + Seq::<Seq<char>>::empty() =~= ls);
}

/// Writing two lists of lines one after the other.
pub proof fn lemma_joined_append(a: Seq<Seq<char>>, b: Seq<Seq<char>>)
    ensures
        joined(a + b) == joined(a) + joined(b),
    decreases b.len(),
{
    if b.len() == 0 {
        assert(a + b =~= a);
        assert(joined(a) + joined(b) =~= joined(a));
    } else {
        lemma_joined_append(a, b.drop_last());
        assert((a + b).drop_last() =~= a + b.drop_last());
        assert((a + b).last() == b.last());
        assert(joined(a + b) =~= joined(a) + joined(b));
    }
}

/// A diff line as a patch writes it: its marker, then its text.
pub open spec fn patch_line(l: DiffLineView) -> Seq<char> {
    seq![kind_marker(l.kind)] + l.content
}

pub open spec fn line_texts(ls: Seq<DiffLineView>) -> Seq<Seq<char>> {
    ls.map_values(|l: DiffLineView| patch_line(l))
}

proof fn lemma_patch_lines(ls: Seq<DiffLineView>)
    ensures
        patch_lines(ls) == joined(line_texts(ls)),
    decreases ls.len(),
{
    if ls.len() > 0 {
        lemma_patch_lines(ls.drop_last());
        assert(line_texts(ls).drop_last() =~= line_texts(ls.drop_last()));
        assert(line_texts(ls).last() == patch_line(ls.last()));
        assert(patch_lines(ls) =~= joined(line_texts(ls)));
    } else {
        assert(line_texts(ls) =~= Seq::<Seq<char>>::empty());
    }
}

/// The `diff --git` line naming `path` on both sides.
pub open spec fn git_line(path: Seq<char>) -> Seq<char> {
    "diff --git a/"@ + path + " b/"@ + path
}

/// The header a hunk's numbers give it.
pub open spec fn numbers_header(h: HunkView) -> Seq<char> {
    "@@ -"@ + decimal(h.old_start as nat) + ","@ + decimal(h.old_count as nat) + " +"@ + decimal(
        h.new_start as nat,
    ) + ","@ + decimal(h.new_count as nat) + " @@"@
}

/// The lines of a one-hunk diff of `path`.
pub open spec fn diff_lines(h: HunkView, path: Seq<char>) -> Seq<Seq<char>> {
    seq![git_line(path), "--- a/"@ + path, "+++ b/"@ + path, h.header] + line_texts(h.lines)
}

proof fn lemma_diff_text(h: HunkView, path: Seq<char>)
    ensures
        joined(diff_lines(h, path)) == git_line(path) + seq!['\n'] + patch_spec(h, path),
{
    let four = seq![git_line(path), "--- a/"@ + path, "+++ b/"@ + path, h.header];
    lemma_joined_append(four, line_texts(h.lines));
    lemma_patch_lines(h.lines);
    let f1 = seq![git_line(path)];
    let f2 = f1.push("--- a/"@ + path);
    let f3 = f2.push("+++ b/"@ + path);
    assert(four =~= f3.push(h.header));
    assert(f1.drop_last() =~= Seq::<Seq<char>>::empty());
    assert(joined(f1.drop_last()) =~= Seq::<char>::empty());
    assert(f1.last() == git_line(path));
    assert(joined(f1) =~= git_line(path) + seq!['\n']);
    assert(f2.drop_last() =~= f1);
    assert(joined(f2) =~= git_line(path) + seq!['\n'] + "--- a/"@ + path + seq!['\n']);
    assert(f3.drop_last() =~= f2);
    assert(joined(f3) =~= git_line(path) + seq!['\n'] + "--- a/"@ + path + seq!['\n'] + "+++ b/"@ + path
        + seq!['\n']);
    assert(four.drop_last() =~= f3);
    assert(joined(four) =~= git_line(path) + seq!['\n'] + "--- a/"@ + path + seq!['\n'] + "+++ b/"@ + path + seq!['\n']
        + h.header + seq!['\n']);
    assert(joined(diff_lines(h, path)) =~= git_line(path) + seq!['\n'] + patch_spec(h, path));
}

proof fn lemma_index_of_at(s: Seq<char>, c: char, j: int)
    requires
        0 <= j < s.len(),
        s[j] == c,
        forall|k: int| 0 <= k < j ==> s[k] != c,
    ensures
        index_of(s, c) == Some(j),
{
    lemma_find_from(s, seq![c], 0);
    assert(s.skip(j).take(1) =~= seq![c]);
    match find_from(s, seq![c], 0) {
        Some(i) => {
            if i < j {
                assert(s.skip(i).take(1)[0] == s[i]);
            }
        },
        None => {},
    }
}

proof fn lemma_index_of_none(s: Seq<char>, c: char)
    requires
        forall|k: int| 0 <= k < s.len() ==> s[k] != c,
    ensures
        index_of(s, c) is None,
{
    lemma_find_from(s, seq![c], 0);
    match find_from(s, seq![c], 0) {
        Some(i) => {
            assert(s.skip(i).take(1)[0] == s[i]);
        },
        None => {},
    }
}

/// A path a patch can name: not empty, with no space, line feed or CR,
/// not `/dev/null`, and not starting with `a/` or `b/`.
pub open spec fn patch_path_ok(p: Seq<char>) -> bool {
    &&& p.len() > 0
    &&& forall|k: int| 0 <= k < p.len() ==> #[trigger] p[k] != ' ' && p[k] != '\n' && p[k] != '\r'
    &&& p != "/dev/null"@
    &&& !has_prefix(p, "a/"@)
    &&& !has_prefix(p, "b/"@)
}

proof fn lemma_git_step(st: ParseView, p: Seq<char>)
    requires
        patch_path_ok(p),
    ensures
        step_spec(st, git_line(p)) == (ParseView {
            files: flush(st.files, st.cur),
            cur: Some(FileDraftView { old_path: p, new_path: p, hunks: Seq::empty() }),
        }),
{
    reveal_strlit("diff --git ");
    reveal_strlit("diff --git a/");
    reveal_strlit(" b/");
    reveal_strlit("a/");
    reveal_strlit("b/");
    let line = git_line(p);
    assert(has_prefix(line, "diff --git "@)) by {
        assert(line.take(11) =~= "diff --git "@);
    }
    let rest = line.skip("diff --git "@.len() as int);
    let a = "a/"@ + p;
    let b = "b/"@ + p;
    assert(rest =~= a + seq![' '] + b);
    lemma_index_of_at(rest, ' ', a.len() as int);
    assert(rest.take(a.len() as int) =~= a);
    assert(rest.skip(a.len() as int + 1) =~= b);
    lemma_index_of_none(b, ' ');
    assert(splitn_space(b, 3) == seq![b]);
    let parts = splitn_space(rest, 4);
    assert(parts =~= seq![a, b]);
    assert(has_prefix(a, "a/"@)) by {
        assert(a.take(2) =~= "a/"@);
    }
    assert(a.skip(2) =~= p);
    assert(!has_prefix(a, "b/"@)) by {
        assert(a.take(2)[0] == 'a');
    }
    assert(parts.drop_first() =~= seq![b]);
    assert(has_prefix(b, "b/"@)) by {
        assert(b.take(2) =~= "b/"@);
    }
    assert(b.skip(2) =~= p);
    assert(first_with_prefix(seq![b], "b/"@) == Some(p));
    assert(diff_paths_spec(rest) == (Some(p), Some(p)));
}

proof fn lemma_range_text(sign: char, x: nat, y: nat)
    requires
        sign == '-' || sign == '+',
        x <= usize::MAX,
        y <= usize::MAX,
    ensures
        range_spec(seq![sign] + decimal(x) + seq![','] + decimal(y)) == Some((x as usize, y as usize)),
{
    let s = seq![sign] + decimal(x) + seq![','] + decimal(y);
    let t = s.skip(1);
    lemma_decimal(x);
    lemma_decimal(y);
    assert(t =~= decimal(x) + seq![','] + decimal(y));
    assert forall|k: int| 0 <= k < decimal(x).len() implies t[k] != ',' by {
        assert(t[k] == decimal(x)[k]);
    }
    lemma_index_of_at(t, ',', decimal(x).len() as int);
    assert(t.take(decimal(x).len() as int) =~= decimal(x));
    assert(t.skip(decimal(x).len() as int + 1) =~= decimal(y));
    lemma_decimal_reads_back(x);
    lemma_decimal_reads_back(y);
}

/// A character of the inside of a hunk header: a digit, a space, a sign or
/// a comma.
spec fn header_char(c: char) -> bool {
    c == ' ' || c == '-' || c == '+' || c == ',' || ('0' <= c <= '9')
}

proof fn lemma_header_numbers(h: HunkView)
    ensures
        plain_line(numbers_header(h)),
        hunk_header_spec(numbers_header(h)) == Some(
            HunkDraftView {
                old_start: h.old_start,
                old_count: h.old_count,
                new_start: h.new_start,
                new_count: h.new_count,
                lines: Seq::empty(),
                add_count: 0,
                del_count: 0,
            },
        ),
{
    reveal_strlit("@@ -");
    reveal_strlit(",");
    reveal_strlit(" +");
    reveal_strlit(" @@");
    reveal_strlit("@@");
    let a = decimal(h.old_start as nat);
    let b = decimal(h.old_count as nat);
    let c = decimal(h.new_start as nat);
    let d = decimal(h.new_count as nat);
    lemma_decimal(h.old_start as nat);
    lemma_decimal(h.old_count as nat);
    lemma_decimal(h.new_start as nat);
    lemma_decimal(h.new_count as nat);
    let left = seq!['-'] + a + seq![','] + b;
    let right = seq!['+'] + c + seq![','] + d;
    let rp = left + seq![' '] + right;
    let inner = seq![' '] + rp + seq![' '];
    let line = numbers_header(h);
    assert(line =~= "@@"@ + inner + "@@"@);
    assert(has_prefix(line, "@@"@)) by {
        assert(line.take(2) =~= "@@"@);
    }
    let rest = line.skip(2);
    assert(rest =~= inner + "@@"@);
    assert forall|k: int| 0 <= k < left.len() implies header_char(#[trigger] left[k]) by {
        if 1 <= k < 1 + a.len() {
            assert(left[k] == a[k - 1]);
        } else if 1 + a.len() < k {
            assert(left[k] == b[k - 2 - a.len()]);
        }
    }
    assert forall|k: int| 0 <= k < right.len() implies header_char(#[trigger] right[k]) by {
        if 1 <= k < 1 + c.len() {
            assert(right[k] == c[k - 1]);
        } else if 1 + c.len() < k {
            assert(right[k] == d[k - 2 - c.len()]);
        }
    }
    assert forall|k: int| 0 <= k < rp.len() implies header_char(#[trigger] rp[k]) by {
        if k < left.len() {
            assert(rp[k] == left[k]);
            assert(header_char(left[k]));
        } else if k > left.len() {
            assert(rp[k] == right[k - left.len() - 1]);
            assert(header_char(right[k - left.len() - 1]));
        }
    }
    assert forall|k: int| 0 <= k < inner.len() implies header_char(#[trigger] inner[k]) by {
        if 1 <= k < 1 + rp.len() {
            assert(inner[k] == rp[k - 1]);
            assert(header_char(rp[k - 1]));
        }
    }
    // the closing "@@" is the first one
    let m = inner.len() as int;
    lemma_find_from(rest, "@@"@, 0);
    assert(has_prefix(rest.skip(m), "@@"@)) by {
        assert(rest.skip(m).take(2) =~= "@@"@);
    }
    match find_from(rest, "@@"@, 0) {
        Some(j) => {
            if j < m {
                assert(rest.skip(j).take(2)[0] == rest[j]);
                assert(rest[j] == inner[j]);
                assert(header_char(inner[j]));
            }
        },
        None => {},
    }
    assert(find_spec(rest, "@@"@) == Some(m));
    assert(rest.take(m) =~= inner);
    assert forall|k: int| 0 <= k < line.len() implies #[trigger] line[k] != '\n' by {
        if 2 <= k < 2 + inner.len() {
            assert(line[k] == inner[k - 2]);
            assert(header_char(inner[k - 2]));
        }
    }
    assert(line.last() == '@');
    // trimming the spaces around
    lemma_skip_ws(inner, 0);
    lemma_skip_ws_back(inner, inner.len() as int);
    assert(is_whitespace_spec(' '));
    assert(!is_whitespace_spec(inner[1])) by {
        assert(inner[1] == '-');
    }
    assert(inner[inner.len() - 2] == d[d.len() - 1]);
    assert(!is_whitespace_spec(inner[inner.len() - 2]));
    if skip_ws(inner, 0) == 0 {
        assert(!is_whitespace_spec(inner[0]));
    }
    assert(skip_ws(inner, 0) == 1);
    if skip_ws_back(inner, inner.len() as int) == inner.len() {
        assert(!is_whitespace_spec(inner[inner.len() - 1]));
    }
    assert(skip_ws_back(inner, inner.len() as int) == inner.len() - 1);
    assert(trim_spec(inner) =~= rp);
    // the two ranges
    assert forall|k: int| 0 <= k < left.len() implies rp[k] != ' ' by {
        assert(rp[k] == left[k]);
        if 1 <= k < 1 + a.len() {
            assert(left[k] == a[k - 1]);
        } else if 1 + a.len() < k {
            assert(left[k] == b[k - 2 - a.len()]);
        }
    }
    lemma_index_of_at(rp, ' ', left.len() as int);
    assert(rp.take(left.len() as int) =~= left);
    assert(rp.skip(left.len() as int + 1) =~= right);
    lemma_range_text('-', h.old_start as nat, h.old_count as nat);
    lemma_range_text('+', h.new_start as nat, h.new_count as nat);
}

proof fn lemma_minus_step(st: ParseView, p: Seq<char>)
    requires
        patch_path_ok(p),
        st.cur matches Some(f) && f.old_path == p,
    ensures
        step_spec(st, "--- a/"@ + p) == st,
{
    reveal_strlit("--- a/");
    reveal_strlit("--- ");
    reveal_strlit("diff --git ");
    reveal_strlit("a/");
    let line = "--- a/"@ + p;
    assert(!has_prefix(line, "diff --git "@)) by {
        if has_prefix(line, "diff --git "@) {
            assert(line.take(11)[0] == line[0]);
        }
    }
    assert(has_prefix(line, "--- "@)) by {
        assert(line.take(4) =~= "--- "@);
    }
    let a = line.skip(4);
    assert(a =~= "a/"@ + p);
    assert(has_prefix(a, "a/"@)) by {
        assert(a.take(2) =~= "a/"@);
    }
    assert(a.skip(2) =~= p);
    assert(trim_start_matches(p, "a/"@) == p);
    assert(trim_start_matches(a, "a/"@) == p);
}

proof fn lemma_plus_step(st: ParseView, p: Seq<char>)
    requires
        patch_path_ok(p),
        st.cur matches Some(f) && f.new_path == p,
    ensures
        step_spec(st, "+++ b/"@ + p) == st,
{
    reveal_strlit("+++ b/");
    reveal_strlit("+++ ");
    reveal_strlit("--- ");
    reveal_strlit("diff --git ");
    reveal_strlit("b/");
    let line = "+++ b/"@ + p;
    assert(!has_prefix(line, "diff --git "@)) by {
        if has_prefix(line, "diff --git "@) {
            assert(line.take(11)[0] == line[0]);
        }
    }
    assert(!has_prefix(line, "--- "@)) by {
        if has_prefix(line, "--- "@) {
            assert(line.take(4)[0] == line[0]);
        }
    }
    assert(has_prefix(line, "+++ "@)) by {
        assert(line.take(4) =~= "+++ "@);
    }
    let b = line.skip(4);
    assert(b =~= "b/"@ + p);
    assert(has_prefix(b, "b/"@)) by {
        assert(b.take(2) =~= "b/"@);
    }
    assert(b.skip(2) =~= p);
    assert(trim_start_matches(p, "b/"@) == p);
    assert(trim_start_matches(b, "b/"@) == p);
}

/// A diff line a patch can carry and the parser reads back: no line feed
/// in its text, no CR at its end, and an added line not starting with `++ `
/// nor a deleted one with `-- ` (they would read as file names).
pub open spec fn patch_line_ok(l: DiffLineView) -> bool {
    &&& forall|k: int| 0 <= k < l.content.len() ==> #[trigger] l.content[k] != '\n'
    &&& (l.content.len() == 0 || l.content.last() != '\r')
    &&& (l.kind == DiffLineKind::Add ==> !has_prefix(l.content, "++ "@))
    &&& (l.kind == DiffLineKind::Delete ==> !has_prefix(l.content, "-- "@))
}

proof fn lemma_content_step(st: ParseView, l: DiffLineView)
    requires
        patch_line_ok(l),
    ensures
        step_spec(st, patch_line(l)) == with_line(st, l.kind, l.content),
{
    reveal_strlit("+++ ");
    reveal_strlit("--- ");
    reveal_strlit("diff --git ");
    reveal_strlit("@@");
    reveal_strlit("++ ");
    reveal_strlit("-- ");
    reveal_strlit("+++ b/");
    reveal_strlit("--- a/");
    let line = patch_line(l);
    assert(line[0] == kind_marker(l.kind));
    assert(line.skip(1) =~= l.content);
    assert(!has_prefix(line, "diff --git "@)) by {
        if has_prefix(line, "diff --git "@) {
            assert(line.take(11)[0] == line[0]);
        }
    }
    assert(!has_prefix(line, "@@"@)) by {
        if has_prefix(line, "@@"@) {
            assert(line.take(2)[0] == line[0]);
        }
    }
    if has_prefix(line, "--- "@) {
        assert(line.take(4)[0] == line[0]);
        assert(l.kind == DiffLineKind::Delete);
        assert(l.content.take(3) =~= line.take(4).skip(1));
        assert(line.take(4).skip(1) =~= "-- "@);
        assert(has_prefix(l.content, "-- "@));
    }
    if has_prefix(line, "+++ "@) {
        assert(line.take(4)[0] == line[0]);
        assert(l.kind == DiffLineKind::Add);
        assert(l.content.take(3) =~= line.take(4).skip(1));
        assert(line.take(4).skip(1) =~= "++ "@);
        assert(has_prefix(l.content, "++ "@));
    }
    if line == "+++ b/"@ {
        assert(line.take(4) =~= "+++ "@);
    }
    if line == "--- a/"@ {
        assert(line.take(4) =~= "--- "@);
    }
}

/// The hunk a header with `h`'s numbers starts, before any line.
pub open spec fn draft_of(h: HunkView) -> HunkDraftView {
    HunkDraftView {
        old_start: h.old_start,
        old_count: h.old_count,
        new_start: h.new_start,
        new_count: h.new_count,
        lines: Seq::empty(),
        add_count: 0,
        del_count: 0,
    }
}

proof fn lemma_header_step(st: ParseView, h: HunkView)
    requires
        h.header == numbers_header(h),
        st.cur is Some,
    ensures
        step_spec(st, h.header) == (ParseView {
            cur: Some(FileDraftView { hunks: st.cur->0.hunks.push(draft_of(h)), ..st.cur->0 }),
            ..st
        }),
{
    reveal_strlit("+++ ");
    reveal_strlit("--- ");
    reveal_strlit("diff --git ");
    reveal_strlit("@@ -");
    let line = h.header;
    assert(line[0] == '@');
    assert(!has_prefix(line, "diff --git "@)) by {
        if has_prefix(line, "diff --git "@) {
            assert(line.take(11)[0] == line[0]);
        }
    }
    assert(!has_prefix(line, "--- "@)) by {
        if has_prefix(line, "--- "@) {
            assert(line.take(4)[0] == line[0]);
        }
    }
    assert(!has_prefix(line, "+++ "@)) by {
        if has_prefix(line, "+++ "@) {
            assert(line.take(4)[0] == line[0]);
        }
    }
    lemma_header_numbers(h);
    assert(has_prefix(line, "@@"@)) by {
        reveal_strlit("@@");
        assert(line.take(2) =~= "@@"@);
    }
}

/// The kind and text of each line.
pub open spec fn kinds_texts(ls: Seq<DiffLineView>) -> Seq<(DiffLineKind, Seq<char>)> {
    ls.map_values(|l: DiffLineView| (l.kind, l.content))
}

/// The parser has read the start of a one-hunk diff of `p` and the first
/// `k` lines of `h`.
spec fn read_so_far(st: ParseView, h: HunkView, p: Seq<char>, k: int) -> bool {
    &&& st.files.len() == 0
    &&& st.cur matches Some(f) && {
        &&& f.old_path == p
        &&& f.new_path == p
        &&& f.hunks.len() == 1
        &&& f.hunks[0].old_start == h.old_start
        &&& f.hunks[0].old_count == h.old_count
        &&& f.hunks[0].new_start == h.new_start
        &&& f.hunks[0].new_count == h.new_count
        &&& kinds_texts(f.hunks[0].lines) == kinds_texts(h.lines.take(k))
    }
}

proof fn lemma_read_lines(h: HunkView, p: Seq<char>, k: int)
    requires
        patch_path_ok(p),
        h.header == numbers_header(h),
        forall|i: int| 0 <= i < h.lines.len() ==> patch_line_ok(#[trigger] h.lines[i]),
        0 <= k <= h.lines.len(),
    ensures
        read_so_far(parse_state(diff_lines(h, p).take(4 + k)), h, p, k),
    decreases k,
{
    let all = diff_lines(h, p);
    if k == 0 {
        let t0 = all.take(0);
        let t1 = all.take(1);
        let t2 = all.take(2);
        let t3 = all.take(3);
        let t4 = all.take(4);
        assert(t1.drop_last() =~= t0);
        assert(t2.drop_last() =~= t1);
        assert(t3.drop_last() =~= t2);
        assert(t4.drop_last() =~= t3);
        assert(t0 =~= Seq::<Seq<char>>::empty());
        let s0 = parse_state(t0);
        assert(s0 == ParseView { files: Seq::empty(), cur: None });
        lemma_git_step(s0, p);
        assert(t1.last() == git_line(p));
        let s1 = parse_state(t1);
        assert(s1 == step_spec(s0, git_line(p)));
        assert(s1.files =~= Seq::<DiffFileView>::empty());
        assert(t2.last() == "--- a/"@ + p);
        lemma_minus_step(s1, p);
        let s2 = parse_state(t2);
        assert(s2 == s1);
        assert(t3.last() == "+++ b/"@ + p);
        lemma_plus_step(s2, p);
        let s3 = parse_state(t3);
        assert(s3 == s1);
        assert(t4.last() == h.header);
        lemma_header_step(s3, h);
        let s4 = parse_state(t4);
        assert(s4.cur->0.hunks =~= seq![draft_of(h)]);
        assert(h.lines.take(0) =~= Seq::<DiffLineView>::empty());
        assert(kinds_texts(draft_of(h).lines) =~= kinds_texts(h.lines.take(0)));
    } else {
        lemma_read_lines(h, p, k - 1);
        let tk = all.take(4 + k);
        assert(tk.drop_last() =~= all.take(4 + k - 1));
        assert(tk.last() == patch_line(h.lines[k - 1]));
        let prev = parse_state(all.take(4 + k - 1));
        lemma_content_step(prev, h.lines[k - 1]);
        let f = prev.cur->0;
        let l = h.lines[k - 1];
        let nh = add_line(f.hunks[0], l.kind, l.content);
        assert(parse_state(tk) == with_line(prev, l.kind, l.content));
        assert(parse_state(tk).cur->0.hunks =~= seq![nh]);
        assert(nh.lines =~= f.hunks[0].lines.push(nh.lines.last()));
        assert(kinds_texts(nh.lines) =~= kinds_texts(f.hunks[0].lines).push((l.kind, l.content)));
        assert(h.lines.take(k) =~= h.lines.take(k - 1).push(l));
        assert(kinds_texts(h.lines.take(k)) =~= kinds_texts(h.lines.take(k - 1)).push((l.kind, l.content)));
    }
}

proof fn lemma_prefixed_plain(a: Seq<char>, p: Seq<char>)
    requires
        forall|k: int| 0 <= k < a.len() ==> #[trigger] a[k] != '\n',
        patch_path_ok(p),
    ensures
        plain_line(a + p),
{
    let s = a + p;
    assert forall|k: int| 0 <= k < s.len() implies #[trigger] s[k] != '\n' by {
        if k >= a.len() {
            assert(s[k] == p[k - a.len()]);
        }
    }
    assert(s.last() == p[p.len() - 1]);
}

/// Reading back the patch of one hunk: a `diff --git` line naming the
/// file `p` on both sides, followed by the patch `hunk_to_patch` writes of
/// the hunk `h` for `p`, parses as one modified file `p` with one hunk,
/// whose numbers and header are `h`'s and whose lines have `h`'s kinds
/// and texts. This holds when `h`'s header is the one its numbers give,
/// no line holds a line feed or ends in a CR, no added line starts with
/// `++ ` and no deleted line with `-- `, and `p` is a plain path (see
/// `patch_path_ok`).
pub proof fn lemma_hunk_patch_reads_back(h: HunkView, p: Seq<char>)
    requires
        patch_path_ok(p),
        h.header == numbers_header(h),
        forall|i: int| 0 <= i < h.lines.len() ==> patch_line_ok(#[trigger] h.lines[i]),
    ensures
        ({
            let fs = parse_diff_spec(git_line(p) + seq!['\n'] + patch_spec(h, p));
            &&& fs.len() == 1
            &&& fs[0].old_path == p
            &&& fs[0].new_path == p
            &&& fs[0].status == FileStatus::Modified
            &&& fs[0].hunks.len() == 1
            &&& fs[0].hunks[0].old_start == h.old_start
            &&& fs[0].hunks[0].old_count == h.old_count
            &&& fs[0].hunks[0].new_start == h.new_start
            &&& fs[0].hunks[0].new_count == h.new_count
            &&& fs[0].hunks[0].header == h.header
            &&& kinds_texts(fs[0].hunks[0].lines) == kinds_texts(h.lines)
        }),
{
    reveal_strlit("diff --git a/");
    reveal_strlit(" b/");
    reveal_strlit("--- a/");
    reveal_strlit("+++ b/");
    reveal_strlit("/dev/null");
    let all = diff_lines(h, p);
    let text = git_line(p) + seq!['\n'] + patch_spec(h, p);
    lemma_diff_text(h, p);
    lemma_header_numbers(h);
    assert forall|k: int| 0 <= k < all.len() implies plain_line(#[trigger] all[k]) by {
        if k == 0 {
            let a = "diff --git a/"@ + p + " b/"@;
            assert forall|i: int| 0 <= i < a.len() implies #[trigger] a[i] != '\n' by {
                if 13 <= i < 13 + p.len() {
                    assert(a[i] == p[i - 13]);
                }
            }
            lemma_prefixed_plain(a, p);
            assert(all[0] =~= a + p);
        } else if k == 1 {
            lemma_prefixed_plain("--- a/"@, p);
        } else if k == 2 {
            lemma_prefixed_plain("+++ b/"@, p);
        } else if k == 3 {
        } else {
            let l = h.lines[k - 4];
            assert(all[k] == patch_line(l));
            assert(patch_line_ok(l));
            let t = patch_line(l);
            assert forall|i: int| 0 <= i < t.len() implies #[trigger] t[i] != '\n' by {
                if i >= 1 {
                    assert(t[i] == l.content[i - 1]);
                }
            }
            if l.content.len() > 0 {
                assert(t.last() == l.content.last());
            }
        }
    }
    lemma_joined_lines(all);
    assert(lines_spec(text) == all);
    lemma_read_lines(h, p, h.lines.len() as int);
    assert(all.take(4 + h.lines.len() as int) =~= all);
    assert(h.lines.take(h.lines.len() as int) =~= h.lines);
    let st = parse_state(all);
    let f = st.cur->0;
    assert(status_of(p, p) == FileStatus::Modified);
    let d = build_spec(f)->0;
    assert(flush(st.files, st.cur) =~= seq![d]);
    let fs = parse_diff_spec(text);
    assert(fs =~= seq![status_fixed(d)]);
    assert(d.hunks[0] == finish_hunk(f.hunks[0]));
}

} // verus!
