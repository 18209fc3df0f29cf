//! The command line: what a `:` command asks for, and the `:set` options.
use crate::chars::{chars_eq, has_prefix, parse_usize, parse_usize_spec, starts_with, sub_vec, trim_chars, trim_spec};
use crate::review::diff::{index_of, lemma_index_of, index_of_exec, splitn_space, splitn_space_exec, trim_start_matches, trim_start_matches_exec};
use crate::strutil::{chars_of, string_of};
use crate::text::is_whitespace_spec;
use crate::engine::Engine;
use crate::keymap::Key;
use crate::types::{ConfirmAction, ConfirmationPrompt, EditorState, MessageLevel, Mode, SearchDirection, history_after, msg_views};
use crate::strutil::push_str;
use vstd::prelude::*;

verus! {

/// How a boolean option is changed: `opt`, `noopt`, `opt!`.
#[derive(Debug, Clone, Copy, PartialEq, Eq, Structural)]
pub enum Toggle {
    On,
    Off,
    Flip,
}

/// A `:set` argument.
#[derive(Debug)]
pub enum SetOption {
    Number(Toggle),
    RelativeNumber(Toggle),
    Hlsearch(Toggle),
    Expandtab(Toggle),
    /// `tabstop=`/`ts=`: the number, or the text that is not one.
    Tabstop(Result<usize, String>),
    Shiftwidth(Result<usize, String>),
    Scrolloff(Result<usize, String>),
    /// Anything else, as written.
    Unknown(String),
}

/// `SetOption` as values.
pub enum SetOptionView {
    Number(Toggle),
    RelativeNumber(Toggle),
    Hlsearch(Toggle),
    Expandtab(Toggle),
    Tabstop(Result<usize, Seq<char>>),
    Shiftwidth(Result<usize, Seq<char>>),
    Scrolloff(Result<usize, Seq<char>>),
    Unknown(Seq<char>),
}

pub open spec fn num_view(r: Result<usize, String>) -> Result<usize, Seq<char>> {
    match r {
        Ok(n) => Ok(n),
        Err(s) => Err(s@),
    }
}

impl View for SetOption {
    type V = SetOptionView;

    open spec fn view(&self) -> SetOptionView {
        match self {
            SetOption::Number(t) => SetOptionView::Number(*t),
            SetOption::RelativeNumber(t) => SetOptionView::RelativeNumber(*t),
            SetOption::Hlsearch(t) => SetOptionView::Hlsearch(*t),
            SetOption::Expandtab(t) => SetOptionView::Expandtab(*t),
            SetOption::Tabstop(r) => SetOptionView::Tabstop(num_view(*r)),
            SetOption::Shiftwidth(r) => SetOptionView::Shiftwidth(num_view(*r)),
            SetOption::Scrolloff(r) => SetOptionView::Scrolloff(num_view(*r)),
            SetOption::Unknown(s) => SetOptionView::Unknown(s@),
        }
    }
}

/// The value after the first `=` of `a`, read as a number.
pub open spec fn numeric_value(a: Seq<char>) -> Result<usize, Seq<char>> {
    let v = match index_of(a, '=') {
        Some(j) => a.skip(j + 1),
        None => a,
    };
    match parse_usize_spec(v) {
        Some(n) => Ok(n),
        None => Err(v),
    }
}

/// What `:set <args>` sets; `a` is the trimmed argument.
pub open spec fn set_option_of(a: Seq<char>) -> SetOptionView {
    if a == "number"@ {
        SetOptionView::Number(Toggle::On)
    } else if a == "nonumber"@ || a == "nonumber!"@ {
        SetOptionView::Number(Toggle::Off)
    } else if a == "number!"@ {
        SetOptionView::Number(Toggle::Flip)
    } else if a == "relativenumber"@ {
        SetOptionView::RelativeNumber(Toggle::On)
    } else if a == "norelativenumber"@ || a == "norelativenumber!"@ {
        SetOptionView::RelativeNumber(Toggle::Off)
    } else if a == "relativenumber!"@ {
        SetOptionView::RelativeNumber(Toggle::Flip)
    } else if a == "hlsearch"@ {
        SetOptionView::Hlsearch(Toggle::On)
    } else if a == "nohlsearch"@ || a == "nohlsearch!"@ {
        SetOptionView::Hlsearch(Toggle::Off)
    } else if a == "hlsearch!"@ {
        SetOptionView::Hlsearch(Toggle::Flip)
    } else if a == "expandtab"@ || a == "et"@ {
        SetOptionView::Expandtab(Toggle::On)
    } else if a == "noexpandtab"@ || a == "noet"@ {
        SetOptionView::Expandtab(Toggle::Off)
    } else if a == "expandtab!"@ || a == "et!"@ {
        SetOptionView::Expandtab(Toggle::Flip)
    } else if has_prefix(a, "tabstop="@) || has_prefix(a, "ts="@) {
        SetOptionView::Tabstop(numeric_value(a))
    } else if has_prefix(a, "shiftwidth="@) || has_prefix(a, "sw="@) {
        SetOptionView::Shiftwidth(numeric_value(a))
    } else if has_prefix(a, "scrolloff="@) || has_prefix(a, "so="@) {
        SetOptionView::Scrolloff(numeric_value(a))
    } else {
        SetOptionView::Unknown(a)
    }
}

fn is(a: &[char], lit: &str) -> (r: bool)
    ensures
        r == (a@ == lit@),
{
    let l = chars_of(lit);
    chars_eq(a, l.as_slice())
}

fn begins(a: &[char], lit: &str) -> (r: bool)
    ensures
        r == has_prefix(a@, lit@),
{
    let l = chars_of(lit);
    starts_with(a, l.as_slice())
}

fn numeric_value_exec(a: &[char]) -> (r: Result<usize, String>)
    ensures
        num_view(r) == numeric_value(a@),
{
    let v = match index_of_exec(a, '=') {
        Some(j) => {
            proof {
                lemma_index_of(a@, '=');
            }
            let v = sub_vec(a, j + 1, a.len());
            proof {
                assert(v@ =~= a@.skip(j + 1));
            }
            v
        },
        None => {
            let v = sub_vec(a, 0, a.len());
            proof {
                assert(v@ =~= a@);
            }
            v
        },
    };
    match parse_usize(v.as_slice()) {
        Some(n) => Ok(n),
        None => Err(string_of(v.as_slice())),
    }
}

/// Reads the trimmed argument of `:set`.
pub fn parse_set_option(a: &[char]) -> (r: SetOption)
    ensures
        r@ == set_option_of(a@),
{
    if is(a, "number") {
        SetOption::Number(Toggle::On)
    } else if is(a, "nonumber") || is(a, "nonumber!") {
        SetOption::Number(Toggle::Off)
    } else if is(a, "number!") {
        SetOption::Number(Toggle::Flip)
    } else if is(a, "relativenumber") {
        SetOption::RelativeNumber(Toggle::On)
    } else if is(a, "norelativenumber") || is(a, "norelativenumber!") {
        SetOption::RelativeNumber(Toggle::Off)
    } else if is(a, "relativenumber!") {
        SetOption::RelativeNumber(Toggle::Flip)
    } else if is(a, "hlsearch") {
        SetOption::Hlsearch(Toggle::On)
    } else if is(a, "nohlsearch") || is(a, "nohlsearch!") {
        SetOption::Hlsearch(Toggle::Off)
    } else if is(a, "hlsearch!") {
        SetOption::Hlsearch(Toggle::Flip)
    } else if is(a, "expandtab") || is(a, "et") {
        SetOption::Expandtab(Toggle::On)
    } else if is(a, "noexpandtab") || is(a, "noet") {
        SetOption::Expandtab(Toggle::Off)
    } else if is(a, "expandtab!") || is(a, "et!") {
        SetOption::Expandtab(Toggle::Flip)
    } else if begins(a, "tabstop=") || begins(a, "ts=") {
        SetOption::Tabstop(numeric_value_exec(a))
    } else if begins(a, "shiftwidth=") || begins(a, "sw=") {
        SetOption::Shiftwidth(numeric_value_exec(a))
    } else if begins(a, "scrolloff=") || begins(a, "so=") {
        SetOption::Scrolloff(numeric_value_exec(a))
    } else {
        SetOption::Unknown(string_of(a))
    }
}

/// `s.split(' ')`: the pieces between spaces, empty ones included.
pub open spec fn split_space(s: Seq<char>) -> Seq<Seq<char>>
    decreases s.len(),
{
    match index_of(s, ' ') {
        Some(j) => if 0 <= j < s.len() {
            seq![s.take(j)] + split_space(s.skip(j + 1))
        } else {
            seq![s]
        },
        None => seq![s],
    }
}

/// Index of the first whitespace character at or after `i`, or the length.
pub open spec fn word_end(s: Seq<char>, i: int) -> int
    decreases s.len() - i,
{
    if 0 <= i < s.len() && !is_whitespace_spec(s[i]) {
        word_end(s, i + 1)
    } else {
        i
    }
}

/// `s.split_whitespace()`: the runs of non-whitespace characters.
pub open spec fn words(s: Seq<char>) -> Seq<Seq<char>>
    decreases s.len(),
{
    let a = crate::chars::skip_ws(s, 0);
    if a >= s.len() {
        Seq::empty()
    } else {
        let e = word_end(s, a);
        if a < e <= s.len() {
            seq![s.subrange(a, e)] + words(s.skip(e))
        } else {
            Seq::empty()
        }
    }
}

pub open spec fn strings_view(v: Seq<String>) -> Seq<Seq<char>> {
    v.map_values(|x: String| x@)
}

fn vec_strings(v: Vec<Vec<char>>) -> (r: Vec<String>)
    ensures
        strings_view(r@) == v@.map_values(|x: Vec<char>| x@),
{
    let mut r: Vec<String> = Vec::new();
    let mut i: usize = 0;
    while i < v.len()
        invariant
            0 <= i <= v@.len(),
            strings_view(r@) == v@.map_values(|x: Vec<char>| x@).take(i as int),
        decreases v@.len() - i,
    {
        r.push(string_of(v[i].as_slice()));
        proof {
            assert(v@.map_values(|x: Vec<char>| x@).take(i + 1) =~= v@.map_values(|x: Vec<char>| x@).take(
                i as int,
            ).push(v@[i as int]@));
            assert(strings_view(r@) =~= strings_view(r@.drop_last()).push(r@.last()@));
        }
        i += 1;
    }
    proof {
        assert(v@.map_values(|x: Vec<char>| x@).take(i as int) =~= v@.map_values(|x: Vec<char>| x@));
    }
    r
}

/// The pieces of `s` between spaces.
pub fn split_space_exec(s: &[char]) -> (r: Vec<String>)
    ensures
        strings_view(r@) == split_space(s@),
{
    let mut out: Vec<String> = Vec::new();
    let mut rest = sub_vec(s, 0, s.len());
    proof {
        assert(rest@ =~= s@);
        assert(strings_view(out@) + split_space(rest@) =~= split_space(s@));
    }
    loop
        invariant
            strings_view(out@) + split_space(rest@) == split_space(s@),
        decreases rest@.len(),
    {
        let n = rest.len();
        match index_of_exec(rest.as_slice(), ' ') {
            Some(j) => {
                proof {
                    lemma_index_of(rest@, ' ');
                    assert(index_of(rest@, ' ') == Some(j as int));
                    assert(j < rest@.len());
                }
                let head = sub_vec(rest.as_slice(), 0, j);
                let tail = sub_vec(rest.as_slice(), j + 1, n);
                proof {
                    assert(head@ =~= rest@.take(j as int));
                    assert(tail@ =~= rest@.skip(j + 1));
                    assert(split_space(rest@) == seq![head@] + split_space(tail@));
                }
                let ghost o0 = strings_view(out@);
                out.push(string_of(head.as_slice()));
                proof {
                    assert(strings_view(out@) =~= o0.push(head@));
                    assert(o0 + (seq![head@] + split_space(tail@)) =~= o0.push(head@) + split_space(tail@));
                }
                rest = tail;
            },
            None => {
                let ghost o0 = strings_view(out@);
                out.push(string_of(rest.as_slice()));
                proof {
                    assert(split_space(rest@) == seq![rest@]);
                    assert(strings_view(out@) =~= o0.push(rest@));
                    assert(o0 + seq![rest@] =~= o0.push(rest@));
                }
                return out;
            },
        }
    }
}

/// The runs of non-whitespace characters of `s`.
pub fn words_exec(s: &[char]) -> (r: Vec<String>)
    ensures
        strings_view(r@) == words(s@),
{
    let mut out: Vec<String> = Vec::new();
    let mut rest = sub_vec(s, 0, s.len());
    proof {
        assert(rest@ =~= s@);
        assert(strings_view(out@) + words(rest@) =~= words(s@));
    }
    loop
        invariant
            strings_view(out@) + words(rest@) == words(s@),
        decreases rest@.len(),
    {
        let n = rest.len();
        let mut a: usize = 0;
        while a < n && crate::text::is_whitespace(rest[a])
            invariant
                0 <= a <= n,
                n == rest@.len(),
                crate::chars::skip_ws(rest@, a as int) == crate::chars::skip_ws(rest@, 0),
            decreases n - a,
        {
            a += 1;
        }
        if a >= n {
            proof {
                assert(words(rest@) =~= Seq::<Seq<char>>::empty());
                assert(strings_view(out@) + Seq::<Seq<char>>::empty() =~= strings_view(out@));
            }
            return out;
        }
        let mut e: usize = a;
        while e < n && !crate::text::is_whitespace(rest[e])
            invariant
                a <= e <= n,
                n == rest@.len(),
                word_end(rest@, e as int) == word_end(rest@, a as int),
            decreases n - e,
        {
            e += 1;
        }
        let w = sub_vec(rest.as_slice(), a, e);
        let tail = sub_vec(rest.as_slice(), e, n);
        proof {
            assert(tail@ =~= rest@.skip(e as int));
            assert(words(rest@) == seq![w@] + words(tail@));
        }
        let ghost o0 = strings_view(out@);
        out.push(string_of(w.as_slice()));
        proof {
            assert(strings_view(out@) =~= o0.push(w@));
            assert(o0 + (seq![w@] + words(tail@)) =~= o0.push(w@) + words(tail@));
        }
        rest = tail;
    }
}

/// A command of the command line.
#[derive(Debug)]
pub enum ExCommand {
    /// `q`: quit, asking first when there are unsaved changes.
    Quit,
    /// `q!`
    ForceQuit,
    /// `w`, `w!`
    Write,
    /// `wq`, `wq!`, `wqa`, `wa`
    WriteQuit,
    /// `qa`
    QuitAll,
    /// `e`: reload the file.
    Reload,
    /// `e!`: reload, asking first when there are unsaved changes.
    ReloadDiscard,
    Keymap(String),
    BufferNext,
    BufferPrev,
    BufferDelete,
    /// `Ex`, `Explore`: list the working directory.
    Explore,
    ListBuffers,
    Split,
    VSplit,
    Messages,
    /// `e <path>`, `e.`
    Edit(String),
    Search(String, SearchDirection),
    Configure(SetOption),
    NoHlsearch,
    /// `review [args]`, with the arguments.
    Review(String),
    WritePath(String),
    WriteQuitPath(String),
    /// A command that is answered with a warning only.
    Warn(String),
    /// A git command; `reload` when it may have changed the file on disk.
    Git { args: Vec<String>, reload: bool },
    /// A command that does nothing.
    Nothing,
    /// `s/..`, `%s/..`, as written.
    Substitute(String),
    /// Anything else: a command that plugins may define.
    Plugin { name: String, args: Vec<String> },
}

/// `ExCommand` as values.
pub enum ExCommandView {
    Quit,
    ForceQuit,
    Write,
    WriteQuit,
    QuitAll,
    Reload,
    ReloadDiscard,
    Keymap(Seq<char>),
    BufferNext,
    BufferPrev,
    BufferDelete,
    Explore,
    ListBuffers,
    Split,
    VSplit,
    Messages,
    Edit(Seq<char>),
    Search(Seq<char>, SearchDirection),
    Configure(SetOptionView),
    NoHlsearch,
    Review(Seq<char>),
    WritePath(Seq<char>),
    WriteQuitPath(Seq<char>),
    Warn(Seq<char>),
    Git { args: Seq<Seq<char>>, reload: bool },
    Nothing,
    Substitute(Seq<char>),
    Plugin { name: Seq<char>, args: Seq<Seq<char>> },
}

impl View for ExCommand {
    type V = ExCommandView;

    open spec fn view(&self) -> ExCommandView {
        match self {
            ExCommand::Quit => ExCommandView::Quit,
            ExCommand::ForceQuit => ExCommandView::ForceQuit,
            ExCommand::Write => ExCommandView::Write,
            ExCommand::WriteQuit => ExCommandView::WriteQuit,
            ExCommand::QuitAll => ExCommandView::QuitAll,
            ExCommand::Reload => ExCommandView::Reload,
            ExCommand::ReloadDiscard => ExCommandView::ReloadDiscard,
            ExCommand::Keymap(s) => ExCommandView::Keymap(s@),
            ExCommand::BufferNext => ExCommandView::BufferNext,
            ExCommand::BufferPrev => ExCommandView::BufferPrev,
            ExCommand::BufferDelete => ExCommandView::BufferDelete,
            ExCommand::Explore => ExCommandView::Explore,
            ExCommand::ListBuffers => ExCommandView::ListBuffers,
            ExCommand::Split => ExCommandView::Split,
            ExCommand::VSplit => ExCommandView::VSplit,
            ExCommand::Messages => ExCommandView::Messages,
            ExCommand::Edit(s) => ExCommandView::Edit(s@),
            ExCommand::Search(s, d) => ExCommandView::Search(s@, *d),
            ExCommand::Configure(o) => ExCommandView::Configure(o@),
            ExCommand::NoHlsearch => ExCommandView::NoHlsearch,
            ExCommand::Review(s) => ExCommandView::Review(s@),
            ExCommand::WritePath(s) => ExCommandView::WritePath(s@),
            ExCommand::WriteQuitPath(s) => ExCommandView::WriteQuitPath(s@),
            ExCommand::Warn(s) => ExCommandView::Warn(s@),
            ExCommand::Git { args, reload } => ExCommandView::Git { args: strings_view(args@), reload: *reload },
            ExCommand::Nothing => ExCommandView::Nothing,
            ExCommand::Substitute(s) => ExCommandView::Substitute(s@),
            ExCommand::Plugin { name, args } => ExCommandView::Plugin { name: name@, args: strings_view(args@) },
        }
    }
}

/// The command of a command line: trimmed, one leading `:` dropped.
pub open spec fn command_text(line: Seq<char>) -> Seq<char> {
    let t = trim_spec(line);
    if has_prefix(t, ":"@) {
        t.skip(1)
    } else {
        t
    }
}

/// The path of `w <path>` / `wq <path>`: `c` without leading `bang` and
/// `plain` prefixes, trimmed.
pub open spec fn path_arg(c: Seq<char>, bang: Seq<char>, plain: Seq<char>) -> Seq<char> {
    trim_spec(trim_start_matches(trim_start_matches(c, bang), plain))
}

/// What `branch <a>` runs; `a` is the trimmed argument.
pub open spec fn branch_command(a: Seq<char>) -> ExCommandView {
    if has_prefix(a, "-d"@) || has_prefix(a, "-D"@) {
        let parts = splitn_space(a, 2);
        ExCommandView::Git {
            args: seq!["branch"@, parts[0], if parts.len() > 1 { parts[1] } else { ""@ }],
            reload: false,
        }
    } else if a == "-a"@ || a == "-r"@ {
        ExCommandView::Git { args: seq!["branch"@, a], reload: false }
    } else {
        ExCommandView::Git { args: seq!["checkout"@, a], reload: true }
    }
}

/// What the other commands are: searches, options, review, writing to a
/// path, git, substitution, or a plugin command.
pub open spec fn other_command(c: Seq<char>) -> ExCommandView {
    if has_prefix(c, "/"@) {
        ExCommandView::Search(c.skip(1), SearchDirection::Forward)
    } else if has_prefix(c, "?"@) {
        ExCommandView::Search(c.skip(1), SearchDirection::Backward)
    } else if has_prefix(c, "set "@) {
        ExCommandView::Configure(set_option_of(trim_spec(trim_start_matches(c, "set "@))))
    } else if c == "nohlsearch"@ || c == "noh"@ {
        ExCommandView::NoHlsearch
    } else if c == "review"@ || has_prefix(c, "review "@) {
        ExCommandView::Review(trim_spec(trim_start_matches(c, "review"@)))
    } else if has_prefix(c, "w "@) || has_prefix(c, "w! "@) {
        let p = path_arg(c, "w!"@, "w "@);
        if p.len() == 0 {
            ExCommandView::Warn("Expected filename after 'w'"@)
        } else {
            ExCommandView::WritePath(p)
        }
    } else if has_prefix(c, "wq "@) || has_prefix(c, "wq! "@) {
        let p = path_arg(c, "wq!"@, "wq "@);
        if p.len() == 0 {
            ExCommandView::Warn("Expected filename after 'wq'"@)
        } else {
            ExCommandView::WriteQuitPath(p)
        }
    } else if c == "branch"@ {
        ExCommandView::Git { args: seq!["branch"@], reload: false }
    } else if has_prefix(c, "branch "@) {
        branch_command(trim_spec(trim_start_matches(c, "branch "@)))
    } else if has_prefix(c, "git "@) {
        let ws = words(trim_spec(trim_start_matches(c, "git "@)));
        if ws.len() == 0 {
            ExCommandView::Nothing
        } else {
            ExCommandView::Git { args: ws, reload: ws[0] == "checkout"@ }
        }
    } else if has_prefix(c, "%s/"@) || has_prefix(c, "s/"@) {
        ExCommandView::Substitute(c)
    } else {
        let parts = splitn_space(c, 2);
        ExCommandView::Plugin {
            name: parts[0],
            args: if parts.len() > 1 { split_space(parts[1]) } else { Seq::empty() },
        }
    }
}

/// What the command `c` (see `command_text`) asks for.
pub open spec fn ex_command_of(c: Seq<char>) -> ExCommandView {
    if c == "q"@ {
        ExCommandView::Quit
    } else if c == "q!"@ {
        ExCommandView::ForceQuit
    } else if c == "w"@ || c == "w!"@ {
        ExCommandView::Write
    } else if c == "wq"@ || c == "wq!"@ || c == "wqa"@ || c == "wa"@ {
        ExCommandView::WriteQuit
    } else if c == "qa"@ {
        ExCommandView::QuitAll
    } else if c == "e"@ {
        ExCommandView::Reload
    } else if c == "e!"@ {
        ExCommandView::ReloadDiscard
    } else if has_prefix(c, "keymap "@) {
        ExCommandView::Keymap(trim_spec(trim_start_matches(c, "keymap "@)))
    } else if c == "bn"@ || c == "bnext"@ {
        ExCommandView::BufferNext
    } else if c == "bp"@ || c == "bprevious"@ || c == "bprev"@ {
        ExCommandView::BufferPrev
    } else if c == "bd"@ || c == "bdelete"@ {
        ExCommandView::BufferDelete
    } else if c == "Ex"@ || c == "Explore"@ {
        ExCommandView::Explore
    } else if c == "ls"@ || c == "buffers"@ {
        ExCommandView::ListBuffers
    } else if c == "sp"@ || c == "split"@ {
        ExCommandView::Split
    } else if c == "vs"@ || c == "vsplit"@ {
        ExCommandView::VSplit
    } else if c == "messages"@ {
        ExCommandView::Messages
    } else if has_prefix(c, "e "@) || c == "e."@ {
        ExCommandView::Edit(if c == "e."@ { "."@ } else { trim_spec(trim_start_matches(c, "e "@)) })
    } else {
        other_command(c)
    }
}

/// `trim(trim_start_matches(a, lit))`.
fn strip_lit_trim(a: &[char], lit: &str) -> (r: Vec<char>)
    requires
        lit@.len() > 0,
    ensures
        r@ == trim_spec(trim_start_matches(a@, lit@)),
{
    let l = chars_of(lit);
    let t = trim_start_matches_exec(a, l.as_slice());
    trim_chars(t.as_slice())
}

fn lit_string(s: &str) -> (r: String)
    ensures
        r@ == s@,
{
    String::from_str(s)
}

fn path_arg_exec(c: &[char], bang: &str, plain: &str) -> (r: Vec<char>)
    requires
        bang@.len() > 0,
        plain@.len() > 0,
    ensures
        r@ == path_arg(c@, bang@, plain@),
{
    let b = chars_of(bang);
    let p = chars_of(plain);
    let t = trim_start_matches_exec(c, b.as_slice());
    let t = trim_start_matches_exec(t.as_slice(), p.as_slice());
    trim_chars(t.as_slice())
}

fn branch_command_exec(a: &[char]) -> (r: ExCommand)
    ensures
        r@ == branch_command(a@),
{
    if begins(a, "-d") || begins(a, "-D") {
        let parts = splitn_space_exec(a, 2);
        proof {
            reveal_with_fuel(splitn_space, 2);
        }
        let ghost pv = parts@.map_values(|p: Vec<char>| p@);
        proof {
            assert(pv.len() >= 1);
            assert(pv[0] == parts@[0]@);
            if pv.len() > 1 {
                assert(pv[1] == parts@[1]@);
            }
        }
        let mut args: Vec<String> = Vec::new();
        args.push(lit_string("branch"));
        args.push(string_of(parts[0].as_slice()));
        if parts.len() > 1 {
            args.push(string_of(parts[1].as_slice()));
        } else {
            args.push(String::new());
        }
        proof {
            reveal_strlit("");
            assert(strings_view(args@)[0] == "branch"@);
            assert(strings_view(args@)[1] == pv[0]);
            assert(""@ =~= Seq::<char>::empty());
            assert(pv == splitn_space(a@, 2));
            assert(strings_view(args@)[2] == if pv.len() > 1 { pv[1] } else { ""@ });
            assert(strings_view(args@).len() == 3);
            assert(strings_view(args@) =~= seq![
                "branch"@,
                splitn_space(a@, 2)[0],
                if splitn_space(a@, 2).len() > 1 { splitn_space(a@, 2)[1] } else { ""@ },
            ]);
        }
        ExCommand::Git { args, reload: false }
    } else if is(a, "-a") || is(a, "-r") {
        let mut args: Vec<String> = Vec::new();
        args.push(lit_string("branch"));
        args.push(string_of(a));
        proof {
            assert(strings_view(args@) =~= seq!["branch"@, a@]);
        }
        ExCommand::Git { args, reload: false }
    } else {
        let mut args: Vec<String> = Vec::new();
        args.push(lit_string("checkout"));
        args.push(string_of(a));
        proof {
            assert(strings_view(args@) =~= seq!["checkout"@, a@]);
        }
        ExCommand::Git { args, reload: true }
    }
}

fn other_command_exec(c: &[char]) -> (r: ExCommand)
    ensures
        r@ == other_command(c@),
{
    let n = c.len();
    if begins(c, "/") {
        proof {
            reveal_strlit("/");
        }
        return ExCommand::Search(string_of(sub_vec(c, 1, n).as_slice()), SearchDirection::Forward);
    }
    if begins(c, "?") {
        proof {
            reveal_strlit("?");
        }
        return ExCommand::Search(string_of(sub_vec(c, 1, n).as_slice()), SearchDirection::Backward);
    }
    if begins(c, "set ") {
        proof {
            reveal_strlit("set ");
        }
        let a = strip_lit_trim(c, "set ");
        return ExCommand::Configure(parse_set_option(a.as_slice()));
    }
    if is(c, "nohlsearch") || is(c, "noh") {
        return ExCommand::NoHlsearch;
    }
    if is(c, "review") || begins(c, "review ") {
        proof {
            reveal_strlit("review");
        }
        let a = strip_lit_trim(c, "review");
        return ExCommand::Review(string_of(a.as_slice()));
    }
    if begins(c, "w ") || begins(c, "w! ") {
        proof {
            reveal_strlit("w!");
            reveal_strlit("w ");
        }
        let p = path_arg_exec(c, "w!", "w ");
        if p.len() == 0 {
            return ExCommand::Warn(lit_string("Expected filename after 'w'"));
        }
        return ExCommand::WritePath(string_of(p.as_slice()));
    }
    if begins(c, "wq ") || begins(c, "wq! ") {
        proof {
            reveal_strlit("wq!");
            reveal_strlit("wq ");
        }
        let p = path_arg_exec(c, "wq!", "wq ");
        if p.len() == 0 {
            return ExCommand::Warn(lit_string("Expected filename after 'wq'"));
        }
        return ExCommand::WriteQuitPath(string_of(p.as_slice()));
    }
    if is(c, "branch") {
        let mut args: Vec<String> = Vec::new();
        args.push(lit_string("branch"));
        proof {
            assert(strings_view(args@) =~= seq!["branch"@]);
        }
        return ExCommand::Git { args, reload: false };
    }
    if begins(c, "branch ") {
        proof {
            reveal_strlit("branch ");
        }
        let a = strip_lit_trim(c, "branch ");
        return branch_command_exec(a.as_slice());
    }
    if begins(c, "git ") {
        proof {
            reveal_strlit("git ");
        }
        let a = strip_lit_trim(c, "git ");
        let ws = words_exec(a.as_slice());
        if ws.len() == 0 {
            return ExCommand::Nothing;
        }
        let first = chars_of(ws[0].as_str());
        let reload = is(first.as_slice(), "checkout");
        return ExCommand::Git { args: ws, reload };
    }
    if begins(c, "%s/") || begins(c, "s/") {
        return ExCommand::Substitute(string_of(c));
    }
    let parts = splitn_space_exec(c, 2);
    proof {
        reveal_with_fuel(splitn_space, 2);
    }
    let name = string_of(parts[0].as_slice());
    let args = if parts.len() > 1 {
        split_space_exec(parts[1].as_slice())
    } else {
        let v: Vec<String> = Vec::new();
        proof {
            assert(strings_view(v@) =~= Seq::<Seq<char>>::empty());
        }
        v
    };
    ExCommand::Plugin { name, args }
}

/// Reads a command line (what was typed after `:`, `/` or `?`).
pub fn parse_ex_command(line: &str) -> (r: ExCommand)
    ensures
        r@ == ex_command_of(command_text(line@)),
{
    let all = chars_of(line);
    let t = trim_chars(all.as_slice());
    let c = if begins(t.as_slice(), ":") {
        proof {
            reveal_strlit(":");
        }
        sub_vec(t.as_slice(), 1, t.len())
    } else {
        t
    };
    proof {
        if has_prefix(t@, ":"@) {
            assert(c@ =~= t@.skip(1));
        }
    }
    let c = c.as_slice();
    if is(c, "q") {
        ExCommand::Quit
    } else if is(c, "q!") {
        ExCommand::ForceQuit
    } else if is(c, "w") || is(c, "w!") {
        ExCommand::Write
    } else if is(c, "wq") || is(c, "wq!") || is(c, "wqa") || is(c, "wa") {
        ExCommand::WriteQuit
    } else if is(c, "qa") {
        ExCommand::QuitAll
    } else if is(c, "e") {
        ExCommand::Reload
    } else if is(c, "e!") {
        ExCommand::ReloadDiscard
    } else if begins(c, "keymap ") {
        proof {
            reveal_strlit("keymap ");
        }
        ExCommand::Keymap(string_of(strip_lit_trim(c, "keymap ").as_slice()))
    } else if is(c, "bn") || is(c, "bnext") {
        ExCommand::BufferNext
    } else if is(c, "bp") || is(c, "bprevious") || is(c, "bprev") {
        ExCommand::BufferPrev
    } else if is(c, "bd") || is(c, "bdelete") {
        ExCommand::BufferDelete
    } else if is(c, "Ex") || is(c, "Explore") {
        ExCommand::Explore
    } else if is(c, "ls") || is(c, "buffers") {
        ExCommand::ListBuffers
    } else if is(c, "sp") || is(c, "split") {
        ExCommand::Split
    } else if is(c, "vs") || is(c, "vsplit") {
        ExCommand::VSplit
    } else if is(c, "messages") {
        ExCommand::Messages
    } else if begins(c, "e ") || is(c, "e.") {
        if is(c, "e.") {
            ExCommand::Edit(lit_string("."))
        } else {
            proof {
                reveal_strlit("e ");
            }
            ExCommand::Edit(string_of(strip_lit_trim(c, "e ").as_slice()))
        }
    } else {
        other_command_exec(c)
    }
}

/// What a pending confirmation question leads to once answered.
#[derive(Debug, Clone, Copy, PartialEq, Eq, Structural)]
pub enum ConfirmOutcome {
    /// Leave the editor.
    Stop,
    /// Save the buffer, then leave the editor if that worked.
    SaveThenStop,
    /// Load the file again, dropping the changes.
    Reload,
    /// Go on editing.
    Stay,
}

/// The answer a key gives to a yes/no question: `y` or Enter yes, `n` or
/// Esc no; none for any other key (which dismisses the question).
pub open spec fn answer_of(key: Key) -> Option<bool> {
    match key {
        Key::Char('y') | Key::Enter => Some(true),
        Key::Char('n') | Key::Esc => Some(false),
        _ => None,
    }
}

pub fn confirmation_answer(key: Key) -> (r: Option<bool>)
    ensures
        r == answer_of(key),
{
    match key {
        Key::Char('y') | Key::Enter => Some(true),
        Key::Char('n') | Key::Esc => Some(false),
        _ => None,
    }
}

/// What answering `yes` (or not) to a question about `action` leads to.
pub open spec fn outcome_of(action: ConfirmAction, yes: bool) -> ConfirmOutcome {
    match action {
        ConfirmAction::Quit => if yes { ConfirmOutcome::Stop } else { ConfirmOutcome::Stay },
        ConfirmAction::QuitDiscard => ConfirmOutcome::Stop,
        ConfirmAction::WriteQuitAll => if yes { ConfirmOutcome::SaveThenStop } else { ConfirmOutcome::Stay },
        ConfirmAction::ReloadDiscard => if yes { ConfirmOutcome::Reload } else { ConfirmOutcome::Stay },
    }
}

pub fn confirmation_outcome(action: ConfirmAction, yes: bool) -> (r: ConfirmOutcome)
    ensures
        r == outcome_of(action, yes),
{
    match action {
        ConfirmAction::Quit => if yes {
            ConfirmOutcome::Stop
        } else {
            ConfirmOutcome::Stay
        },
        ConfirmAction::QuitDiscard => ConfirmOutcome::Stop,
        ConfirmAction::WriteQuitAll => if yes {
            ConfirmOutcome::SaveThenStop
        } else {
            ConfirmOutcome::Stay
        },
        ConfirmAction::ReloadDiscard => if yes {
            ConfirmOutcome::Reload
        } else {
            ConfirmOutcome::Stay
        },
    }
}

/// The question asked before quitting with unsaved changes.
pub open spec fn quit_question() -> Seq<char> {
    "No write since last change. Quit anyway? (y/n Enter/Esc: yes, n: no)"@
}

/// The question asked before reloading over unsaved changes.
pub open spec fn reload_question() -> Seq<char> {
    "No write since last change. Reload anyway? (y/n)"@
}

impl Engine {
    /// `:q`: with unsaved changes, asks whether to quit anyway and returns
    /// false; else goes back to Normal mode and returns true (stop now).
    pub fn request_quit(&mut self) -> (stop: bool)
        ensures
            stop == old(self).buffer.clean(),
            stop ==> *final(self) == (Engine {
                state: EditorState { mode: Mode::Normal, ..old(self).state },
                ..*old(self)
            }),
            !stop ==> *final(self) == (Engine {
                state: EditorState { confirmation_prompt: final(self).state.confirmation_prompt, ..old(self).state },
                ..*old(self)
            }),
            !stop ==> (final(self).state.confirmation_prompt matches Some(p) && p.message@ == quit_question()
                && p.action == ConfirmAction::Quit),
    {
        if self.buffer.is_dirty() {
            let message = String::from_str("No write since last change. Quit anyway? (y/n Enter/Esc: yes, n: no)");
            self.state.confirmation_prompt = Some(ConfirmationPrompt { message, action: ConfirmAction::Quit });
            false
        } else {
            self.state.mode = Mode::Normal;
            true
        }
    }

    /// `:e!`: with unsaved changes, asks whether to reload anyway and
    /// returns false; else returns true (reload now).
    pub fn request_reload(&mut self) -> (reload: bool)
        ensures
            reload == old(self).buffer.clean(),
            reload ==> *final(self) == *old(self),
            !reload ==> *final(self) == (Engine {
                state: EditorState { confirmation_prompt: final(self).state.confirmation_prompt, ..old(self).state },
                ..*old(self)
            }),
            !reload ==> (final(self).state.confirmation_prompt matches Some(p) && p.message@ == reload_question()
                && p.action == ConfirmAction::ReloadDiscard),
    {
        if self.buffer.is_dirty() {
            let message = String::from_str("No write since last change. Reload anyway? (y/n)");
            self.state.confirmation_prompt = Some(ConfirmationPrompt { message, action: ConfirmAction::ReloadDiscard });
            false
        } else {
            true
        }
    }
}

/// A boolean option after `t`.
pub open spec fn toggled(cur: bool, t: Toggle) -> bool {
    match t {
        Toggle::On => true,
        Toggle::Off => false,
        Toggle::Flip => !cur,
    }
}

fn toggle(cur: bool, t: Toggle) -> (r: bool)
    ensures
        r == toggled(cur, t),
{
    match t {
        Toggle::On => true,
        Toggle::Off => false,
        Toggle::Flip => !cur,
    }
}

/// The warning that a `:set` argument is answered with, if any.
pub open spec fn set_warning(o: SetOptionView) -> Option<Seq<char>> {
    match o {
        SetOptionView::Tabstop(Err(v)) => Some("Invalid value: "@ + v),
        SetOptionView::Shiftwidth(Err(v)) => Some("Invalid value: "@ + v),
        SetOptionView::Scrolloff(Err(v)) => Some("Invalid value: "@ + v),
        SetOptionView::Unknown(a) => Some("Unknown set option: "@ + a),
        _ => None,
    }
}

fn warn_with(state: &mut EditorState, prefix: &str, what: &String)
    ensures
        msg_views(final(state).message_history@) == history_after(
            msg_views(old(state).message_history@),
            MessageLevel::Warning,
            prefix@ + what@,
        ),
        *final(state) == (EditorState {
            message_history: final(state).message_history,
            last_message: final(state).last_message,
            ..*old(state)
        }),
{
    let mut m = String::from_str(prefix);
    push_str(&mut m, what.as_str());
    state.push_message(MessageLevel::Warning, m);
}

impl EditorState {
    /// `:set`: changes the option, or warns about a value that is not a
    /// number or an option that does not exist.
    pub fn apply_set(&mut self, opt: &SetOption)
        ensures
            final(self).show_line_numbers == match opt@ {
                SetOptionView::Number(t) => toggled(old(self).show_line_numbers, t),
                _ => old(self).show_line_numbers,
            },
            final(self).show_relative_numbers == match opt@ {
                SetOptionView::RelativeNumber(t) => toggled(old(self).show_relative_numbers, t),
                _ => old(self).show_relative_numbers,
            },
            final(self).hlsearch == match opt@ {
                SetOptionView::Hlsearch(t) => toggled(old(self).hlsearch, t),
                _ => old(self).hlsearch,
            },
            final(self).expandtab == match opt@ {
                SetOptionView::Expandtab(t) => toggled(old(self).expandtab, t),
                _ => old(self).expandtab,
            },
            final(self).tabstop == match opt@ {
                SetOptionView::Tabstop(Ok(n)) => n,
                _ => old(self).tabstop,
            },
            final(self).shiftwidth == match opt@ {
                SetOptionView::Shiftwidth(Ok(n)) => n,
                _ => old(self).shiftwidth,
            },
            final(self).scrolloff == match opt@ {
                SetOptionView::Scrolloff(Ok(n)) => n,
                _ => old(self).scrolloff,
            },
            msg_views(final(self).message_history@) == match set_warning(opt@) {
                Some(w) => history_after(msg_views(old(self).message_history@), MessageLevel::Warning, w),
                None => msg_views(old(self).message_history@),
            },
            final(self).mode == old(self).mode,
            final(self).cursor == old(self).cursor,
            final(self).confirmation_prompt == old(self).confirmation_prompt,
    {
        match opt {
            SetOption::Number(t) => {
                self.show_line_numbers = toggle(self.show_line_numbers, *t);
            },
            SetOption::RelativeNumber(t) => {
                self.show_relative_numbers = toggle(self.show_relative_numbers, *t);
            },
            SetOption::Hlsearch(t) => {
                self.hlsearch = toggle(self.hlsearch, *t);
            },
            SetOption::Expandtab(t) => {
                self.expandtab = toggle(self.expandtab, *t);
            },
            SetOption::Tabstop(r) => match r {
                Ok(n) => {
                    self.tabstop = *n;
                },
                Err(v) => warn_with(self, "Invalid value: ", v),
            },
            SetOption::Shiftwidth(r) => match r {
                Ok(n) => {
                    self.shiftwidth = *n;
                },
                Err(v) => warn_with(self, "Invalid value: ", v),
            },
            SetOption::Scrolloff(r) => match r {
                Ok(n) => {
                    self.scrolloff = *n;
                },
                Err(v) => warn_with(self, "Invalid value: ", v),
            },
            SetOption::Unknown(a) => warn_with(self, "Unknown set option: ", a),
        }
    }
}

} // verus!
