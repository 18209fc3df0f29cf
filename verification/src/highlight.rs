//! Syntax colouring with syntect: the syntax is looked up once per file,
//! each line of the text is split into coloured runs, and a syntax that
//! cannot colour the text falls back to plain text.
use crate::buffer::FileRef;
use crate::chars::chars_eq;
use crate::strutil::{chars_of, string_of};
use vstd::prelude::*;

verus! {

/// A run of text drawn in one foreground colour.
#[derive(Debug, Clone)]
pub struct StyledRun {
    pub r: u8,
    pub g: u8,
    pub b: u8,
    pub text: String,
}

impl View for StyledRun {
    type V = (u8, u8, u8, Seq<char>);

    open spec fn view(&self) -> (u8, u8, u8, Seq<char>) {
        (self.r, self.g, self.b, self.text@)
    }
}

pub open spec fn line_runs_view(v: Seq<StyledRun>) -> Seq<(u8, u8, u8, Seq<char>)> {
    v.map_values(|x: StyledRun| x@)
}

pub open spec fn runs_view(v: Seq<Vec<StyledRun>>) -> Seq<Seq<(u8, u8, u8, Seq<char>)>> {
    v.map_values(|l: Vec<StyledRun>| line_runs_view(l@))
}

pub open spec fn maybe_runs_view(l: Option<Vec<StyledRun>>) -> Option<Seq<(u8, u8, u8, Seq<char>)>> {
    match l {
        Some(v) => Some(line_runs_view(v@)),
        None => None,
    }
}

pub open spec fn opt_text(s: Option<String>) -> Option<Seq<char>> {
    match s {
        Some(t) => Some(t@),
        None => None,
    }
}

/// Names what syntect gives for `text` with its default syntax set (the one
/// that knows line feeds), the syntax of it named `syntax` and the theme of
/// its default theme set named `theme`: for each line (split after each
/// line feed) its runs, or `None` where highlighting that line fails;
/// `None` as a whole when there is no such syntax or theme.
pub uninterp spec fn highlight_of(theme: Seq<char>, syntax: Seq<char>, text: Seq<char>) -> Option<
    Seq<Option<Seq<(u8, u8, u8, Seq<char>)>>>,
>;

/// `SyntaxSet::load_defaults_newlines` and `ThemeSet::load_defaults`,
/// `find_syntax_by_name` and the theme map's `get`, then
/// `HighlightLines::highlight_line` on each line of `LinesWithEndings`; each
/// run is its foreground colour and its text.
#[verifier::external_body]
fn highlight_with_defaults(theme: &str, syntax: &str, text: &str) -> (r: Option<Vec<Option<Vec<StyledRun>>>>)
    ensures
        match r {
            Some(v) => highlight_of(theme@, syntax@, text@) == Some(
                v@.map_values(|l: Option<Vec<StyledRun>>| maybe_runs_view(l)),
            ),
            None => highlight_of(theme@, syntax@, text@) is None,
        },
{
    let set = syntect::parsing::SyntaxSet::load_defaults_newlines();
    let themes = syntect::highlighting::ThemeSet::load_defaults();
    let mut h = syntect::easy::HighlightLines::new(set.find_syntax_by_name(syntax)?, themes.themes.get(theme)?);
    let run = |(st, s): (syntect::highlighting::Style, &str)| StyledRun { r: st.foreground.r, g: st.foreground.g, b: st.foreground.b, text: s.to_string() };
    Some(syntect::util::LinesWithEndings::from(text).map(|l| h.highlight_line(l, &set).ok().map(|rs| rs.into_iter().map(run).collect())).collect())
}

/// `SyntaxSet::load_defaults_newlines`, then `find_syntax_for_file` and the
/// syntax's name. When neither the file name nor its extension decides,
/// syntect reads the file's first line, and a read error gives `None`; so
/// nothing is stated of the answer.
#[verifier::external_body]
fn syntax_name_for_file(file: &FileRef) -> Option<String> {
    let set = syntect::parsing::SyntaxSet::load_defaults_newlines();
    set.find_syntax_for_file(&file.path).ok().flatten().map(|s| s.name.clone())
}

/// The theme text is coloured with.
pub open spec fn theme_name() -> Seq<char> {
    "base16-ocean.dark"@
}

/// A line syntect could not colour is drawn without runs.
pub open spec fn fill_lines(ls: Seq<Option<Seq<(u8, u8, u8, Seq<char>)>>>) -> Seq<Seq<(u8, u8, u8, Seq<char>)>> {
    ls.map_values(|l: Option<Seq<(u8, u8, u8, Seq<char>)>>| match l {
        Some(x) => x,
        None => Seq::empty(),
    })
}

/// The coloured lines of `text` for the syntax named `syntax`: with plain
/// text when there is no syntax or syntect has no such one, and no lines
/// at all when even plain text cannot be coloured.
pub open spec fn coloured(syntax: Option<Seq<char>>, text: Seq<char>) -> Seq<Seq<(u8, u8, u8, Seq<char>)>> {
    let first = match syntax {
        Some(n) => highlight_of(theme_name(), n, text),
        None => None,
    };
    match first {
        Some(ls) => fill_lines(ls),
        None => match highlight_of(theme_name(), "Plain Text"@, text) {
            Some(ls) => fill_lines(ls),
            None => Seq::empty(),
        },
    }
}

/// The lines with a failed line drawn without runs.
fn fill(v: Vec<Option<Vec<StyledRun>>>) -> (r: Vec<Vec<StyledRun>>)
    ensures
        runs_view(r@) == fill_lines(v@.map_values(|l: Option<Vec<StyledRun>>| maybe_runs_view(l))),
{
    let ghost v0 = v@;
    let ghost n = v0.len();
    let mut v = v;
    let mut w: Vec<Option<Vec<StyledRun>>> = Vec::new();
    while v.len() > 0
        invariant
            n == v0.len(),
            v@ == v0.take(n - w@.len()),
            w@.len() <= n,
            forall|j: int| 0 <= j < w@.len() ==> #[trigger] w@[j] == v0[n - 1 - j],
        decreases v@.len(),
    {
        let x = v.pop().unwrap();
        w.push(x);
        proof {
            assert(v@ =~= v0.take(n - w@.len()));
        }
    }
    let mut out: Vec<Vec<StyledRun>> = Vec::new();
    let ghost goal = fill_lines(v0.map_values(|l: Option<Vec<StyledRun>>| maybe_runs_view(l)));
    while w.len() > 0
        invariant
            n == v0.len(),
            w@.len() + out@.len() == n,
            forall|j: int| 0 <= j < w@.len() ==> #[trigger] w@[j] == v0[n - 1 - j],
            runs_view(out@) == goal.take(out@.len() as int),
            goal.len() == n,
            goal == fill_lines(v0.map_values(|l: Option<Vec<StyledRun>>| maybe_runs_view(l))),
        decreases w@.len(),
    {
        let k = out.len();
        let x = w.pop().unwrap();
        let ghost xg = x;
        let line = match x {
            Some(l) => l,
            None => {
                let e: Vec<StyledRun> = Vec::new();
                proof {
                    assert(line_runs_view(e@) =~= Seq::<(u8, u8, u8, Seq<char>)>::empty());
                }
                e
            },
        };
        let ghost before = out@;
        out.push(line);
        proof {
            assert(x == v0[k as int]);
            assert(maybe_runs_view(x) == v0.map_values(|l: Option<Vec<StyledRun>>| maybe_runs_view(l))[k as int]);
            let m = v0.map_values(|l: Option<Vec<StyledRun>>| maybe_runs_view(l));
            assert(m[k as int] == maybe_runs_view(xg));
            match xg {
                Some(l) => {
                    assert(line == l);
                },
                None => {},
            }
            assert(goal[k as int] == line_runs_view(line@));
            assert(runs_view(out@) =~= runs_view(before).push(line_runs_view(line@)));
            assert(goal.take(k + 1) =~= goal.take(k as int).push(goal[k as int]));
        }
    }
    proof {
        assert(goal.take(n as int) =~= goal);
    }
    out
}

/// Colours text by the syntax of its file, looking the syntax up again
/// only when the file changes, and colouring again only when the text or
/// the syntax changes.
pub struct Highlighter {
    /// The text of the path the syntax was looked up for.
    cached_path: Option<String>,
    /// The name of that syntax, if syntect knew one.
    cached_name: Option<String>,
    /// The text and syntax of the last colouring.
    last: Option<(String, Option<String>)>,
}

impl Highlighter {
    /// The text of the path the syntax was last looked up for.
    pub closed spec fn looked_up_for(&self) -> Option<Seq<char>> {
        opt_text(self.cached_path)
    }

    /// The syntax name the next colouring for the same file uses.
    pub closed spec fn syntax_name(&self) -> Option<Seq<char>> {
        opt_text(self.cached_name)
    }

    /// The text and syntax of the last colouring handed out.
    pub closed spec fn last_coloured(&self) -> Option<(Seq<char>, Option<Seq<char>>)> {
        match self.last {
            Some((t, n)) => Some((t@, opt_text(n))),
            None => None,
        }
    }

    pub fn new() -> (h: Self)
        ensures
            h.looked_up_for() is None,
            h.syntax_name() is None,
            h.last_coloured() is None,
    {
        Highlighter { cached_path: None, cached_name: None, last: None }
    }

    /// The coloured lines of `text` for `file` (see `coloured`), or `None`
    /// when the text and the syntax are those of the last colouring handed
    /// out. The syntax is looked up again when the file's path text differs
    /// from the last one, and dropped without a file; otherwise it is kept.
    pub fn update(&mut self, text: &str, file: Option<&FileRef>) -> (r: Option<Vec<Vec<StyledRun>>>)
        ensures
            ({
                let key = match file {
                    Some(f) => Some(f.text@),
                    None => None,
                };
                &&& final(self).looked_up_for() == key
                &&& key is Some && key == old(self).looked_up_for() ==> final(self).syntax_name() == old(self).syntax_name()
                &&& key is None ==> final(self).syntax_name() is None
                &&& final(self).last_coloured() == Some((text@, final(self).syntax_name()))
                &&& r is None <==> old(self).last_coloured() == Some((text@, final(self).syntax_name()))
                &&& r matches Some(v) ==> runs_view(v@) == coloured(final(self).syntax_name(), text@)
            }),
    {
        match file {
            Some(f) => {
                let same = match &self.cached_path {
                    Some(old_key) => {
                        let x = chars_of(f.text.as_str());
                        let y = chars_of(old_key.as_str());
                        chars_eq(x.as_slice(), y.as_slice())
                    },
                    None => false,
                };
                if !same {
                    self.cached_name = syntax_name_for_file(f);
                    self.cached_path = Some(string_of(chars_of(f.text.as_str()).as_slice()));
                }
            },
            None => {
                self.cached_name = None;
                self.cached_path = None;
            },
        }
        let name = match &self.cached_name {
            Some(n) => Some(string_of(chars_of(n.as_str()).as_slice())),
            None => None,
        };
        let unchanged = match &self.last {
            Some((t, n)) => {
                let a = chars_of(t.as_str());
                let b = chars_of(text);
                let same_text = chars_eq(a.as_slice(), b.as_slice());
                let same_name = match (n, &name) {
                    (Some(p), Some(q)) => {
                        let c = chars_of(p.as_str());
                        let d = chars_of(q.as_str());
                        chars_eq(c.as_slice(), d.as_slice())
                    },
                    (None, None) => true,
                    _ => false,
                };
                same_text && same_name
            },
            None => false,
        };
        let keep = match &name {
            Some(n) => Some(string_of(chars_of(n.as_str()).as_slice())),
            None => None,
        };
        self.last = Some((string_of(chars_of(text).as_slice()), keep));
        if unchanged {
            return None;
        }
        let first = match &name {
            Some(n) => highlight_with_defaults("base16-ocean.dark", n.as_str(), text),
            None => None,
        };
        proof {
            reveal_strlit("base16-ocean.dark");
        }
        match first {
            Some(ls) => Some(fill(ls)),
            None => match highlight_with_defaults("base16-ocean.dark", "Plain Text", text) {
                Some(ls) => Some(fill(ls)),
                None => Some(Vec::new()),
            },
        }
    }
}

} // verus!
