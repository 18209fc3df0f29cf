//! `:s/pattern/replacement/flags` and `:%s/...`: regex substitution on the
//! current line or on every line.
use crate::buffer::{delete_range_spec, get_line_spec, insert_spec};
use crate::chars::{contains_char, decimal, find_chars, find_spec, has_prefix, push_decimal, starts_with, sub_vec};
use crate::engine::Engine;
use crate::search::{regex_compiles, regex_is_valid};
use crate::strutil::{chars_of, push_str, string_of};
use crate::text::line_count;
use crate::types::EditorState;
use crate::undo::{Edit, EditType};
use vstd::prelude::*;

verus! {

/// Names what `Regex::replace` gives: `hay` with the first match of
/// `pattern` replaced by `rep` (its `$` groups expanded).
pub uninterp spec fn regex_replaced_first(pattern: Seq<char>, hay: Seq<char>, rep: Seq<char>) -> Seq<char>;

/// Names what `Regex::replace_all` gives: `hay` with every match of
/// `pattern` replaced by `rep`.
pub uninterp spec fn regex_replaced_all(pattern: Seq<char>, hay: Seq<char>, rep: Seq<char>) -> Seq<char>;

/// Names the text of the error that `Regex::new` gives for `pattern`.
pub uninterp spec fn regex_error_text(pattern: Seq<char>) -> Seq<char>;

/// `Regex::new(pattern)`, then `Regex::replace(hay, rep)`.
#[verifier::external_body]
fn regex_replace_first(pattern: &str, hay: &str, rep: &str) -> (r: String)
    requires
        regex_compiles(pattern@),
    ensures
        r@ == regex_replaced_first(pattern@, hay@, rep@),
{
    regex::Regex::new(pattern).unwrap().replace(hay, rep).into_owned()
}

/// `Regex::new(pattern)`, then `Regex::replace_all(hay, rep)`.
#[verifier::external_body]
fn regex_replace_all(pattern: &str, hay: &str, rep: &str) -> (r: String)
    requires
        regex_compiles(pattern@),
    ensures
        r@ == regex_replaced_all(pattern@, hay@, rep@),
{
    regex::Regex::new(pattern).unwrap().replace_all(hay, rep).into_owned()
}

/// The text (`Display`) of the error of `Regex::new(pattern)`.
#[verifier::external_body]
fn regex_error(pattern: &str) -> (r: String)
    requires
        !regex_compiles(pattern@),
    ensures
        r@ == regex_error_text(pattern@),
{
    match regex::Regex::new(pattern) {
        Err(e) => e.to_string(),
        Ok(_) => String::new(),
    }
}

/// The parts of a substitute command: `None` when it starts with neither
/// `%s/` nor `s/`; `Some(None)` when no `/` ends the pattern; else whether
/// it covers every line, the pattern, the replacement, and whether the
/// flags hold `g` (`splitn(3, '/')` on what follows the prefix).
pub open spec fn subst_parse(cmd: Seq<char>) -> Option<Option<(bool, Seq<char>, Seq<char>, bool)>> {
    if has_prefix(cmd, "%s/"@) || has_prefix(cmd, "s/"@) {
        let whole = has_prefix(cmd, "%s/"@);
        let rest = if whole {
            cmd.skip(3)
        } else {
            cmd.skip(2)
        };
        match find_spec(rest, seq!['/']) {
            None => Some(None),
            Some(i) => {
                let after = rest.skip(i + 1);
                match find_spec(after, seq!['/']) {
                    None => Some(Some((whole, rest.take(i), after, false))),
                    Some(j) => Some(Some((whole, rest.take(i), after.take(j), after.skip(j + 1).contains('g')))),
                }
            },
        }
    } else {
        None
    }
}

proof fn lemma_find_slash(s: Seq<char>, j: int)
    requires
        0 <= j < s.len(),
        s[j] == '/',
        forall|k: int| 0 <= k < j ==> s[k] != '/',
    ensures
        find_spec(s, seq!['/']) == Some(j),
{
    crate::chars::lemma_find_from(s, seq!['/'], 0);
    assert(s.skip(j).take(1) =~= seq!['/']);
    match crate::chars::find_from(s, seq!['/'], 0) {
        Some(i) => {
            if i < j {
                assert(s.skip(i).take(1)[0] == s[i]);
            }
        },
        None => {},
    }
}

proof fn lemma_no_slash(s: Seq<char>)
    requires
        forall|k: int| 0 <= k < s.len() ==> s[k] != '/',
    ensures
        find_spec(s, seq!['/']) is None,
{
    crate::chars::lemma_find_from(s, seq!['/'], 0);
    match crate::chars::find_from(s, seq!['/'], 0) {
        Some(i) => {
            assert(s.skip(i).take(1)[0] == s[i]);
        },
        None => {},
    }
}

/// Reading `s/pat/rep/flags` (one line) and `%s/pat/rep/flags` (every
/// line), pattern and replacement holding no `/`: the pattern and the
/// replacement are read as written, every match is replaced exactly when
/// the flags hold `g` (whatever the range), and without a closing `/` there
/// are no flags, so only the first match is replaced.
pub proof fn lemma_subst_parts(whole: bool, pat: Seq<char>, rep: Seq<char>, flags: Seq<char>)
    requires
        forall|k: int| 0 <= k < pat.len() ==> pat[k] != '/',
        forall|k: int| 0 <= k < rep.len() ==> rep[k] != '/',
    ensures
        subst_parse((if whole { "%s/"@ } else { "s/"@ }) + pat + seq!['/'] + rep + seq!['/'] + flags) == Some(
            Some((whole, pat, rep, flags.contains('g'))),
        ),
        subst_parse((if whole { "%s/"@ } else { "s/"@ }) + pat + seq!['/'] + rep) == Some(
            Some((whole, pat, rep, false)),
        ),
{
    reveal_strlit("%s/");
    reveal_strlit("s/");
    let pre = if whole { "%s/"@ } else { "s/"@ };
    let rest = pat + seq!['/'] + rep + seq!['/'] + flags;
    let rest2 = pat + seq!['/'] + rep;
    let cmd = pre + rest;
    let cmd2 = pre + rest2;
    assert(pre + pat + seq!['/'] + rep + seq!['/'] + flags =~= cmd);
    assert(pre + pat + seq!['/'] + rep =~= cmd2);
    assert(pre.len() == if whole { 3int } else { 2int });
    assert(cmd.take(pre.len() as int) =~= pre);
    assert(cmd2.take(pre.len() as int) =~= pre);
    assert(cmd.skip(pre.len() as int) =~= rest);
    assert(cmd2.skip(pre.len() as int) =~= rest2);
    if whole {
        assert(has_prefix(cmd, "%s/"@));
        assert(has_prefix(cmd2, "%s/"@));
    } else {
        assert(!has_prefix(cmd, "%s/"@)) by {
            if has_prefix(cmd, "%s/"@) {
                assert(cmd.take(3)[0] == cmd[0]);
            }
        }
        assert(!has_prefix(cmd2, "%s/"@)) by {
            if has_prefix(cmd2, "%s/"@) {
                assert(cmd2.take(3)[0] == cmd2[0]);
            }
        }
        assert(has_prefix(cmd, "s/"@));
        assert(has_prefix(cmd2, "s/"@));
    }
    assert forall|k: int| 0 <= k < pat.len() implies rest[k] != '/' by {
        assert(rest[k] == pat[k]);
    }
    lemma_find_slash(rest, pat.len() as int);
    assert forall|k: int| 0 <= k < pat.len() implies rest2[k] != '/' by {
        assert(rest2[k] == pat[k]);
    }
    lemma_find_slash(rest2, pat.len() as int);
    let after = rest.skip(pat.len() as int + 1);
    assert(after =~= rep + seq!['/'] + flags);
    assert(rest.take(pat.len() as int) =~= pat);
    assert forall|k: int| 0 <= k < rep.len() implies after[k] != '/' by {
        assert(after[k] == rep[k]);
    }
    lemma_find_slash(after, rep.len() as int);
    assert(after.take(rep.len() as int) =~= rep);
    assert(after.skip(rep.len() as int + 1) =~= flags);
    let after2 = rest2.skip(pat.len() as int + 1);
    assert(after2 =~= rep);
    assert(rest2.take(pat.len() as int) =~= pat);
    lemma_no_slash(after2);
    assert(subst_parse(cmd) == Some(Some((whole, pat, rep, flags.contains('g')))));
    assert(subst_parse(cmd2) == Some(Some((whole, pat, rep, false))));
}

/// `s` without its trailing line feeds.
pub open spec fn trim_newlines(s: Seq<char>) -> Seq<char>
    decreases s.len(),
{
    if s.len() > 0 && s.last() == '\n' {
        trim_newlines(s.drop_last())
    } else {
        s
    }
}

/// A line with the pattern replaced (every match when `global`).
pub open spec fn replaced_line(line: Seq<char>, pat: Seq<char>, rep: Seq<char>, global: bool) -> Seq<char> {
    if global {
        regex_replaced_all(pat, line, rep)
    } else {
        regex_replaced_first(pat, line, rep)
    }
}

/// Whether substituting changes line `l` of `t` (a line that exists).
pub open spec fn line_changes(t: Seq<char>, l: int, pat: Seq<char>, rep: Seq<char>, global: bool) -> bool {
    1 <= l <= line_count(t) && replaced_line(get_line_spec(t, l), pat, rep, global) != get_line_spec(t, l)
}

/// `t` with the text of line `l` (its line feeds kept) replaced by the
/// substituted text without its trailing line feeds.
pub open spec fn subst_step(t: Seq<char>, l: int, pat: Seq<char>, rep: Seq<char>, global: bool) -> Seq<char> {
    let line = get_line_spec(t, l);
    let content = trim_newlines(line);
    let new = trim_newlines(replaced_line(line, pat, rep, global));
    insert_spec(delete_range_spec(t, l, 0, l, content.len() as int), l, 0, new)
}

/// The text after substituting on lines `l` down to `lo`, the last line
/// first, and how many lines changed.
pub open spec fn subst_from(t: Seq<char>, lo: int, l: int, pat: Seq<char>, rep: Seq<char>, global: bool) -> (Seq<char>, nat)
    decreases l - lo + 1,
{
    if l < lo {
        (t, 0)
    } else if line_changes(t, l, pat, rep, global) {
        let r = subst_from(subst_step(t, l, pat, rep, global), lo, l - 1, pat, rep, global);
        (r.0, r.1 + 1)
    } else {
        subst_from(t, lo, l - 1, pat, rep, global)
    }
}

/// The report after substituting: how many lines changed, and on which.
pub open spec fn subst_report(n: nat, whole: bool) -> Seq<char> {
    decimal(n) + " substitutions on "@ + (if whole {
        "all"@
    } else {
        "1"@
    }) + " line"@ + (if n == 1 {
        Seq::empty()
    } else {
        "s"@
    })
}

/// Number of characters before the trailing line feeds.
fn trimmed_len(s: &[char]) -> (k: usize)
    ensures
        k <= s@.len(),
        s@.take(k as int) == trim_newlines(s@),
{
    let mut k = s.len();
    proof {
        assert(s@.take(k as int) =~= s@);
    }
    while k > 0 && s[k - 1] == '\n'
        invariant
            k <= s@.len(),
            trim_newlines(s@.take(k as int)) == trim_newlines(s@),
        decreases k,
    {
        proof {
            assert(s@.take(k as int).drop_last() =~= s@.take(k - 1));
        }
        k -= 1;
    }
    proof {
        assert(trim_newlines(s@.take(k as int)) == s@.take(k as int));
    }
    k
}

/// Whether two strings hold the same characters.
fn same_text(a: &str, b: &str) -> (r: bool)
    ensures
        r == (a@ == b@),
{
    let x = chars_of(a);
    let y = chars_of(b);
    let r = crate::chars::chars_eq(x.as_slice(), y.as_slice());
    proof {
        if r {
            assert(a@ =~= b@);
        }
    }
    r
}

/// The parts of a substitute command (see `subst_parse`).
fn parse_subst(cmd: &str) -> (r: Option<Option<(bool, String, String, bool)>>)
    ensures
        match (r, subst_parse(cmd@)) {
            (None, None) => true,
            (Some(None), Some(None)) => true,
            (Some(Some((w, p, s, g))), Some(Some((w2, p2, s2, g2)))) => w == w2 && p@ == p2 && s@ == s2 && g == g2,
            _ => false,
        },
{
    let c = chars_of(cmd);
    let pct = chars_of("%s/");
    let plain = chars_of("s/");
    let whole = starts_with(c.as_slice(), pct.as_slice());
    if !whole && !starts_with(c.as_slice(), plain.as_slice()) {
        return None;
    }
    proof {
        reveal_strlit("%s/");
        reveal_strlit("s/");
    }
    let skip: usize = if whole {
        3
    } else {
        2
    };
    let rest = sub_vec(c.as_slice(), skip, c.len());
    proof {
        assert(rest@ =~= cmd@.skip(skip as int));
    }
    let slash = vec!['/'];
    proof {
        assert(slash@ =~= seq!['/']);
    }
    let i = match find_chars(rest.as_slice(), slash.as_slice(), 0) {
        None => {
            return Some(None);
        },
        Some(i) => i,
    };
    proof {
        crate::chars::lemma_find_from(rest@, seq!['/'], 0);
    }
    let pat = sub_vec(rest.as_slice(), 0, i);
    let after = sub_vec(rest.as_slice(), i + 1, rest.len());
    proof {
        assert(pat@ =~= rest@.take(i as int));
        assert(after@ =~= rest@.skip(i + 1));
    }
    match find_chars(after.as_slice(), slash.as_slice(), 0) {
        None => Some(Some((whole, string_of(pat.as_slice()), string_of(after.as_slice()), false))),
        Some(j) => {
            proof {
                crate::chars::lemma_find_from(after@, seq!['/'], 0);
            }
            let rep = sub_vec(after.as_slice(), 0, j);
            let flags = sub_vec(after.as_slice(), j + 1, after.len());
            proof {
                assert(rep@ =~= after@.take(j as int));
                assert(flags@ =~= after@.skip(j + 1));
            }
            let g = contains_char(flags.as_slice(), 'g');
            Some(Some((whole, string_of(pat.as_slice()), string_of(rep.as_slice()), g)))
        },
    }
}

/// `a` is `b` after the substitute command `cmd` gave `r` (see
/// `Engine::substitute`).
pub open spec fn substitutes(b: Engine, a: Engine, cmd: Seq<char>, r: Result<String, String>) -> bool {
    match subst_parse(cmd) {
        None => r matches Err(m) && m@ == "Invalid substitute command"@ && a == b,
        Some(None) => r matches Err(m) && m@ == "Invalid substitute syntax"@ && a == b,
        Some(Some((whole, pat, rep, g))) => if !regex_compiles(pat) {
            r matches Err(m) && m@ == "Regex error: "@ + regex_error_text(pat) && a == b
        } else {
            let t = b.buffer.text();
            let hi = if whole {
                line_count(t) as int
            } else {
                b.state.cursor.line as int
            };
            let lo = if whole {
                1
            } else {
                b.state.cursor.line as int
            };
            let res = subst_from(t, lo, hi, pat, rep, g);
            &&& a.buffer.text() == res.0
            &&& r matches Ok(m) && m@ == subst_report(res.1, whole)
            &&& a.state == (EditorState { dirty: !a.buffer.clean(), ..b.state })
            &&& a == (Engine {
                buffer: a.buffer,
                undo_manager: a.undo_manager,
                state: a.state,
                ..b
            })
        },
    }
}

impl Engine {
    /// Substitutes line `l` when that changes it: records the change for
    /// undo, then puts the substituted text (without trailing line feeds) in
    /// place of the line's text, keeping its line feeds. Returns whether it
    /// changed.
    fn subst_line(&mut self, l: usize, pat: &str, rep: &str, global: bool) -> (changed: bool)
        requires
            old(self).wf(),
            regex_compiles(pat@),
        ensures
            final(self).wf(),
            changed == line_changes(old(self).buffer.text(), l as int, pat@, rep@, global),
            final(self).buffer.text() == if changed {
                subst_step(old(self).buffer.text(), l as int, pat@, rep@, global)
            } else {
                old(self).buffer.text()
            },
            *final(self) == (Engine { buffer: final(self).buffer, undo_manager: final(self).undo_manager, ..*old(self) }),
    {
        let lc = self.buffer.line_count();
        if l < 1 || l > lc {
            return false;
        }
        let line = self.buffer.get_line(l);
        let new = if global {
            regex_replace_all(pat, line.as_str(), rep)
        } else {
            regex_replace_first(pat, line.as_str(), rep)
        };
        if same_text(new.as_str(), line.as_str()) {
            return false;
        }
        let lcs = chars_of(line.as_str());
        let ncs = chars_of(new.as_str());
        let k = trimmed_len(lcs.as_slice());
        let k2 = trimmed_len(ncs.as_slice());
        let old_text = string_of(sub_vec(lcs.as_slice(), 0, k).as_slice());
        let new_text = string_of(sub_vec(ncs.as_slice(), 0, k2).as_slice());
        proof {
            assert(lcs@.subrange(0, k as int) =~= lcs@.take(k as int));
            assert(ncs@.subrange(0, k2 as int) =~= ncs@.take(k2 as int));
        }
        let mods = self.buffer.modification_count();
        let c = self.state.cursor;
        self.undo_manager.push(
            Edit {
                edit_type: EditType::Replace { line: l, col: 0, old_text, new_text: new_text.clone() },
                cursor_before: c,
                cursor_after: c,
                modification_count: mods,
            },
        );
        self.buffer.delete_range(l, 0, l, k);
        self.buffer.insert(l, 0, new_text.as_str());
        true
    }

    /// `:s/pattern/replacement/flags` (the current line) and `:%s/...`
    /// (every line, the last one first): each line the regex replacement
    /// changes has its text replaced, its line feeds kept, and an undo
    /// entry. Gives the report, or the warning for a command that is not a
    /// substitution, lacks the `/` after the pattern, or has a pattern that
    /// does not compile.
    pub fn substitute(&mut self, cmd: &str) -> (r: Result<String, String>)
        requires
            old(self).wf(),
        ensures
            final(self).wf(),
            substitutes(*old(self), *final(self), cmd@, r),
    {
        let (whole, pat, rep, global) = match parse_subst(cmd) {
            None => {
                return Err(String::from_str("Invalid substitute command"));
            },
            Some(None) => {
                return Err(String::from_str("Invalid substitute syntax"));
            },
            Some(Some(p)) => p,
        };
        if !regex_is_valid(pat.as_str()) {
            let mut m = String::from_str("Regex error: ");
            let e = regex_error(pat.as_str());
            push_str(&mut m, e.as_str());
            proof {
                reveal_strlit("Regex error: ");
            }
            return Err(m);
        }
        let ghost t0 = self.buffer.text();
        let (lo, hi): (usize, usize) = if whole {
            (1, self.buffer.line_count())
        } else {
            (self.state.cursor.line, self.state.cursor.line)
        };
        let ghost res = subst_from(t0, lo as int, hi as int, pat@, rep@, global);
        let ghost e0 = *self;
        let mut l: usize = hi;
        let mut count: usize = 0;
        let mut done = hi < lo;
        while !done
            invariant
                self.wf(),
                regex_compiles(pat@),
                lo <= l <= hi || done,
                done ==> subst_from(self.buffer.text(), lo as int, lo as int - 1, pat@, rep@, global) == (res.0, (res.1 - count) as nat),
                !done ==> subst_from(self.buffer.text(), lo as int, l as int, pat@, rep@, global) == (res.0, (res.1 - count) as nat),
                count <= res.1,
                lo >= 1 || lo == hi,
                !done ==> count <= hi - l,
                done ==> count <= hi - lo + 1,
                *self == (Engine { buffer: self.buffer, undo_manager: self.undo_manager, ..e0 }),
            decreases l + (if done { 0int } else { 1int }),
        {
            let ghost before = self.buffer.text();
            let changed = self.subst_line(l, pat.as_str(), rep.as_str(), global);
            if changed {
                count = count + 1;
            }
            if l == lo {
                done = true;
                proof {
                    assert(subst_from(self.buffer.text(), lo as int, lo as int - 1, pat@, rep@, global) == (self.buffer.text(), 0nat));
                }
            } else {
                l = l - 1;
            }
        }
        proof {
            assert(subst_from(self.buffer.text(), lo as int, lo as int - 1, pat@, rep@, global) == (self.buffer.text(), 0nat));
        }
        self.state.dirty = self.buffer.is_dirty();
        let mut m = String::new();
        push_decimal(&mut m, count);
        push_str(&mut m, " substitutions on ");
        if whole {
            push_str(&mut m, "all");
        } else {
            push_str(&mut m, "1");
        }
        push_str(&mut m, " line");
        if count != 1 {
            push_str(&mut m, "s");
        }
        proof {
            assert(m@ =~= subst_report(count as nat, whole));
        }
        Ok(m)
    }
}

} // verus!
