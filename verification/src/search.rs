//! Searching the buffer for a literal text (with the regex crate), and
//! moving the cursor between the matches.
use crate::buffer::{get_line_spec, word_at_spec, TextBuffer};
use crate::engine::Engine;
use crate::motion::moved;
use crate::strutil::{chars_of, push_char};
use crate::text::line_count;
use crate::types::{EditorState, Position, SearchDirection, SearchResult};
use crate::state::SearchState;
use vstd::prelude::*;
use vstd::utf8::{encode_scalar, encode_utf8, is_char_boundary};

verus! {

/// Characters with a meaning in a regular expression.
pub open spec fn is_regex_meta(c: char) -> bool {
    c == '\\' || c == '.' || c == '+' || c == '*' || c == '?' || c == '(' || c == ')' || c == '|'
        || c == '[' || c == ']' || c == '{' || c == '}' || c == '^' || c == '$' || c == '#' || c == '&'
        || c == '-' || c == '~'
}

/// `s` with a backslash before each regex meta character.
pub open spec fn regex_escape_spec(s: Seq<char>) -> Seq<char>
    decreases s.len(),
{
    if s.len() == 0 {
        Seq::empty()
    } else {
        regex_escape_spec(s.drop_last()) + if is_regex_meta(s.last()) {
            seq!['\\', s.last()]
        } else {
            seq![s.last()]
        }
    }
}

/// `regex::escape`: a backslash before each meta character, so that the
/// text matches itself literally.
#[verifier::external_body]
fn regex_escape(q: &str) -> (r: String)
    ensures
        r@ == regex_escape_spec(q@),
{
    regex::escape(q)
}

/// Names whether `regex::Regex::new` accepts `pattern`.
pub uninterp spec fn regex_compiles(pattern: Seq<char>) -> bool;

/// `regex::Regex::new(pattern).is_ok()`.
#[verifier::external_body]
pub(crate) fn regex_is_valid(pattern: &str) -> (r: bool)
    ensures
        r == regex_compiles(pattern@),
{
    regex::Regex::new(pattern).is_ok()
}

/// Names the byte offsets where the matches found by
/// `Regex::find_iter` start, for the regex `pattern` in `hay`.
pub uninterp spec fn regex_match_starts(pattern: Seq<char>, hay: Seq<char>) -> Seq<usize>;

/// The start offsets of the matches of the regex `pattern` in `hay`, in
/// bytes (`Regex::find_iter`, then `Match::start`). Each lies on a character
/// boundary of the haystack.
#[verifier::external_body]
fn regex_find_starts(pattern: &str, hay: &str) -> (r: Vec<usize>)
    requires
        regex_compiles(pattern@),
    ensures
        r@ == regex_match_starts(pattern@, hay@),
        forall|i: int| 0 <= i < r@.len() ==> is_char_boundary(encode_utf8(hay@), #[trigger] r@[i] as int),
{
    let re = regex::Regex::new(pattern).unwrap();
    re.find_iter(hay).map(|m| m.start()).collect()
}

/// Number of bytes of the UTF-8 encoding of `c`.
pub open spec fn utf8_width(c: char) -> int {
    encode_scalar(c as u32).len() as int
}

/// How many leading characters of `cs` fill the first `b` bytes.
pub open spec fn chars_in_bytes(cs: Seq<char>, b: int) -> nat
    decreases cs.len(),
{
    if cs.len() == 0 || b <= 0 {
        0
    } else {
        1 + chars_in_bytes(cs.drop_first(), b - utf8_width(cs[0]))
    }
}

fn char_utf8_width(c: char) -> (w: usize)
    ensures
        w == utf8_width(c),
        1 <= w <= 4,
{
    proof {
        vstd::utf8::char_is_scalar(c);
    }
    let u = c as u32;
    if u < 0x80 {
        1
    } else if u < 0x800 {
        2
    } else if u < 0x10000 {
        3
    } else {
        4
    }
}

/// Column (in characters) of the byte offset `b` of a line.
fn byte_to_char_col(cs: &Vec<char>, b: usize) -> (r: usize)
    ensures
        r == chars_in_bytes(cs@, b as int),
{
    let mut k: usize = 0;
    let mut rem = b;
    proof {
        assert(cs@.skip(0) =~= cs@);
    }
    while k < cs.len() && rem > 0
        invariant
            0 <= k <= cs@.len(),
            k + chars_in_bytes(cs@.skip(k as int), rem as int) == chars_in_bytes(cs@, b as int),
        decreases cs@.len() - k,
    {
        let w = char_utf8_width(cs[k]);
        proof {
            let t = cs@.skip(k as int);
            assert(t.drop_first() =~= cs@.skip(k + 1));
            assert(t[0] == cs@[k as int]);
            if rem < w {
                assert(chars_in_bytes(t.drop_first(), rem - w) == 0);
                assert(chars_in_bytes(cs@.skip(k + 1), 0) == 0);
            }
        }
        rem = rem.saturating_sub(w);
        k += 1;
    }
    k
}

/// The matches found on one line (zero-based `li`), from the byte offsets.
pub open spec fn line_results(cs: Seq<char>, starts: Seq<usize>, li: int) -> Seq<SearchResult> {
    starts.map_values(|b: usize| SearchResult { line: (li + 1) as usize, start_col: chars_in_bytes(cs, b as int) as usize })
}

/// The matches on the lines before `n`, in order.
pub open spec fn results_upto(text: Seq<char>, pattern: Seq<char>, n: int) -> Seq<SearchResult>
    decreases n,
{
    if n <= 0 {
        Seq::empty()
    } else {
        let cs = get_line_spec(text, n);
        results_upto(text, pattern, n - 1) + line_results(cs, regex_match_starts(pattern, cs), n - 1)
    }
}

/// Where `query` occurs in `text`, line by line and left to right: the
/// one-based line and the column of each match of the escaped query, as
/// the regex crate finds them. None for an empty query or a pattern the
/// regex crate refuses.
pub open spec fn search_spec(text: Seq<char>, query: Seq<char>) -> Seq<SearchResult> {
    let p = regex_escape_spec(query);
    if query.len() == 0 || !regex_compiles(p) {
        Seq::empty()
    } else {
        results_upto(text, p, line_count(text) as int)
    }
}

impl TextBuffer {
    /// Every occurrence of `query`, as a literal text, line by line.
    pub fn search(&self, query: &str) -> (r: Vec<SearchResult>)
        ensures
            r@ == search_spec(self.text(), query@),
    {
        if query.is_empty() {
            return Vec::new();
        }
        let escaped = regex_escape(query);
        if !regex_is_valid(escaped.as_str()) {
            return Vec::new();
        }
        let n = self.line_count();
        let mut results: Vec<SearchResult> = Vec::new();
        let mut li: usize = 0;
        while li < n
            invariant
                0 <= li <= n,
                n == line_count(self.text()),
                escaped@ == regex_escape_spec(query@),
                regex_compiles(escaped@),
                results@ == results_upto(self.text(), escaped@, li as int),
            decreases n - li,
        {
            let line_str = self.get_line(li + 1);
            let cs = chars_of(line_str.as_str());
            let starts = regex_find_starts(escaped.as_str(), line_str.as_str());
            let ghost before = results@;
            let mut j: usize = 0;
            while j < starts.len()
                invariant
                    0 <= j <= starts@.len(),
                    results@ == before + line_results(cs@, starts@.take(j as int), li as int),
                    li < n,
                decreases starts@.len() - j,
            {
                let col = byte_to_char_col(&cs, starts[j]);
                results.push(SearchResult { line: li + 1, start_col: col });
                proof {
                    assert(starts@.take(j + 1).map_values(
                        |b: usize| SearchResult { line: (li + 1) as usize, start_col: chars_in_bytes(cs@, b as int) as usize },
                    ) =~= starts@.take(j as int).map_values(
                        |b: usize| SearchResult { line: (li + 1) as usize, start_col: chars_in_bytes(cs@, b as int) as usize },
                    ).push(SearchResult { line: (li + 1) as usize, start_col: col }));
                    assert(results@ =~= before + line_results(cs@, starts@.take(j + 1), li as int));
                }
                j += 1;
            }
            proof {
                assert(starts@.take(j as int) =~= starts@);
            }
            li += 1;
        }
        results
    }
}

/// Index of the first match after the cursor (0 when none).
pub open spec fn first_after(rs: Seq<SearchResult>, c: Position, i: int) -> int
    decreases rs.len() - i,
{
    if i < 0 || i >= rs.len() {
        0
    } else if rs[i].line > c.line || (rs[i].line == c.line && rs[i].start_col > c.col) {
        i
    } else {
        first_after(rs, c, i + 1)
    }
}

/// Index of the last match before the cursor (the last match when none).
pub open spec fn last_before_cursor(rs: Seq<SearchResult>, c: Position, i: int) -> int
    decreases i,
{
    if i <= 0 || i > rs.len() {
        rs.len() - 1
    } else if rs[i - 1].line < c.line || (rs[i - 1].line == c.line && rs[i - 1].start_col < c.col) {
        i - 1
    } else {
        last_before_cursor(rs, c, i - 1)
    }
}

/// Searching forward (`/`, `n`) goes to the first match, in the order of
/// the matches, that starts strictly after the cursor: on a later line, or
/// on its line at a later column; the first match when none does.
pub proof fn lemma_first_after_is_next(rs: Seq<SearchResult>, c: Position)
    ensures
        (exists|k: int| 0 <= k < rs.len() && (rs[k].line > c.line || (rs[k].line == c.line && rs[k].start_col > c.col)))
            ==> {
            let j = first_after(rs, c, 0);
            &&& 0 <= j < rs.len()
            &&& (rs[j].line > c.line || (rs[j].line == c.line && rs[j].start_col > c.col))
            &&& forall|k: int| 0 <= k < j ==> !(rs[k].line > c.line || (rs[k].line == c.line && rs[k].start_col > c.col))
        },
        (forall|k: int| 0 <= k < rs.len() ==> !(rs[k].line > c.line || (rs[k].line == c.line && rs[k].start_col > c.col)))
            ==> first_after(rs, c, 0) == 0,
{
    lemma_first_after_from(rs, c, 0);
}

proof fn lemma_first_after_from(rs: Seq<SearchResult>, c: Position, i: int)
    requires
        0 <= i <= rs.len(),
    ensures
        (exists|k: int| i <= k < rs.len() && (rs[k].line > c.line || (rs[k].line == c.line && rs[k].start_col > c.col)))
            ==> {
            let j = first_after(rs, c, i);
            &&& i <= j < rs.len()
            &&& (rs[j].line > c.line || (rs[j].line == c.line && rs[j].start_col > c.col))
            &&& forall|k: int| i <= k < j ==> !(rs[k].line > c.line || (rs[k].line == c.line && rs[k].start_col > c.col))
        },
        (forall|k: int| i <= k < rs.len() ==> !(rs[k].line > c.line || (rs[k].line == c.line && rs[k].start_col > c.col)))
            ==> first_after(rs, c, i) == 0,
    decreases rs.len() - i,
{
    if i < rs.len() {
        lemma_first_after_from(rs, c, i + 1);
    }
}

/// Searching backward (`?`, `N`) goes to the last match, in the order of
/// the matches, that starts strictly before the cursor: on an earlier line,
/// or on its line at an earlier column; the last match when none does.
pub proof fn lemma_last_before_is_previous(rs: Seq<SearchResult>, c: Position)
    ensures
        (exists|k: int| 0 <= k < rs.len() && (rs[k].line < c.line || (rs[k].line == c.line && rs[k].start_col < c.col)))
            ==> {
            let j = last_before_cursor(rs, c, rs.len() as int);
            &&& 0 <= j < rs.len()
            &&& (rs[j].line < c.line || (rs[j].line == c.line && rs[j].start_col < c.col))
            &&& forall|k: int| j < k < rs.len() ==> !(rs[k].line < c.line || (rs[k].line == c.line && rs[k].start_col < c.col))
        },
        (forall|k: int| 0 <= k < rs.len() ==> !(rs[k].line < c.line || (rs[k].line == c.line && rs[k].start_col < c.col)))
            ==> last_before_cursor(rs, c, rs.len() as int) == rs.len() - 1,
{
    lemma_last_before_from(rs, c, rs.len() as int);
}

proof fn lemma_last_before_from(rs: Seq<SearchResult>, c: Position, i: int)
    requires
        0 <= i <= rs.len(),
    ensures
        (exists|k: int| 0 <= k < i && (rs[k].line < c.line || (rs[k].line == c.line && rs[k].start_col < c.col)))
            ==> {
            let j = last_before_cursor(rs, c, i);
            &&& 0 <= j < i
            &&& (rs[j].line < c.line || (rs[j].line == c.line && rs[j].start_col < c.col))
            &&& forall|k: int| j < k < i ==> !(rs[k].line < c.line || (rs[k].line == c.line && rs[k].start_col < c.col))
        },
        (forall|k: int| 0 <= k < i ==> !(rs[k].line < c.line || (rs[k].line == c.line && rs[k].start_col < c.col)))
            ==> last_before_cursor(rs, c, i) == rs.len() - 1,
    decreases i,
{
    if i > 0 {
        lemma_last_before_from(rs, c, i - 1);
    }
}

fn first_after_exec(rs: &Vec<SearchResult>, c: Position) -> (r: usize)
    requires
        rs@.len() > 0,
    ensures
        r == first_after(rs@, c, 0),
        r < rs@.len(),
{
    let mut i: usize = 0;
    while i < rs.len()
        invariant
            0 <= i <= rs@.len(),
            first_after(rs@, c, i as int) == first_after(rs@, c, 0),
        decreases rs@.len() - i,
    {
        let r = rs[i];
        if r.line > c.line || (r.line == c.line && r.start_col > c.col) {
            return i;
        }
        i += 1;
    }
    0
}

fn last_before_exec(rs: &Vec<SearchResult>, c: Position) -> (r: usize)
    requires
        rs@.len() > 0,
    ensures
        r == last_before_cursor(rs@, c, rs@.len() as int),
        r < rs@.len(),
{
    let mut i: usize = rs.len();
    while i > 0
        invariant
            0 <= i <= rs@.len(),
            rs@.len() > 0,
            last_before_cursor(rs@, c, i as int) == last_before_cursor(rs@, c, rs@.len() as int),
        decreases i,
    {
        let r = rs[i - 1];
        if r.line < c.line || (r.line == c.line && r.start_col < c.col) {
            return i - 1;
        }
        i -= 1;
    }
    rs.len() - 1
}

impl Engine {
    /// Searches for `query`: the matches are remembered and the cursor goes
    /// to the first one after it (forward, wrapping to the first) or the
    /// last one before it (backward, wrapping to the last).
    pub fn do_search(&mut self, query: &str, direction: SearchDirection)
        ensures
            ({
                let rs = search_spec(old(self).buffer.text(), query@);
                let c = old(self).state.cursor;
                &&& final(self).search_state.query@ == query@
                &&& final(self).search_state.direction == direction
                &&& final(self).search_state.results@ == rs
                &&& rs.len() == 0 ==> final(self).state == old(self).state
                &&& rs.len() > 0 ==> {
                    let k = if direction == SearchDirection::Forward {
                        first_after(rs, c, 0)
                    } else {
                        last_before_cursor(rs, c, rs.len() as int)
                    };
                    &&& final(self).search_state.current_idx == k
                    &&& final(self).state.cursor == (Position { line: rs[k].line, col: rs[k].start_col })
                }
                &&& final(self).buffer == old(self).buffer
            }),
    {
        self.search_state.query = String::from_str(query);
        self.search_state.direction = direction;
        self.search_state.results = self.buffer.search(query);
        let n = self.search_state.results.len();
        if n == 0 {
            return;
        }
        let c = self.state.cursor;
        let idx = if direction == SearchDirection::Forward {
            first_after_exec(&self.search_state.results, c)
        } else {
            last_before_exec(&self.search_state.results, c)
        };
        self.search_state.current_idx = idx;
        let res = self.search_state.results[idx];
        self.state.cursor.line = res.line;
        self.state.cursor.col = res.start_col;
    }

    /// `n`: repeats the last search in its direction.
    pub fn search_next(&mut self)
        ensures
            old(self).search_state.query@.len() == 0 ==> *final(self) == *old(self),
            old(self).search_state.query@.len() > 0 ==> ({
                let rs = search_spec(old(self).buffer.text(), old(self).search_state.query@);
                &&& final(self).search_state.results@ == rs
                &&& final(self).search_state.direction == old(self).search_state.direction
                &&& rs.len() > 0 ==> final(self).state.cursor == (Position {
                    line: rs[if old(self).search_state.direction == SearchDirection::Forward {
                        first_after(rs, old(self).state.cursor, 0)
                    } else {
                        last_before_cursor(rs, old(self).state.cursor, rs.len() as int)
                    }].line,
                    col: rs[if old(self).search_state.direction == SearchDirection::Forward {
                        first_after(rs, old(self).state.cursor, 0)
                    } else {
                        last_before_cursor(rs, old(self).state.cursor, rs.len() as int)
                    }].start_col,
                })
            }),
    {
        if !self.search_state.query.as_str().is_empty() {
            let query = self.search_state.query.clone();
            let dir = self.search_state.direction;
            self.do_search(query.as_str(), dir);
        }
    }

    /// `N`: repeats the last search in the other direction.
    pub fn search_prev(&mut self)
        ensures
            old(self).search_state.query@.len() == 0 ==> *final(self) == *old(self),
            old(self).search_state.query@.len() > 0 ==> ({
                let rs = search_spec(old(self).buffer.text(), old(self).search_state.query@);
                let back = old(self).search_state.direction == SearchDirection::Forward;
                &&& final(self).search_state.results@ == rs
                &&& final(self).search_state.direction == if back { SearchDirection::Backward } else { SearchDirection::Forward }
                &&& rs.len() > 0 ==> final(self).state.cursor == (Position {
                    line: rs[if back {
                        last_before_cursor(rs, old(self).state.cursor, rs.len() as int)
                    } else {
                        first_after(rs, old(self).state.cursor, 0)
                    }].line,
                    col: rs[if back {
                        last_before_cursor(rs, old(self).state.cursor, rs.len() as int)
                    } else {
                        first_after(rs, old(self).state.cursor, 0)
                    }].start_col,
                })
            }),
    {
        if !self.search_state.query.as_str().is_empty() {
            let query = self.search_state.query.clone();
            let dir = match self.search_state.direction {
                SearchDirection::Forward => SearchDirection::Backward,
                SearchDirection::Backward => SearchDirection::Forward,
            };
            self.do_search(query.as_str(), dir);
        }
    }

    /// `*`: searches forward for the word under the cursor.
    pub fn search_word_under_cursor(&mut self)
        ensures
            ({
                let w = word_at_spec(old(self).buffer.text(), old(self).state.cursor.line as int, old(self).state.cursor.col as int).0;
                &&& w.len() == 0 ==> *final(self) == *old(self)
                &&& w.len() > 0 ==> final(self).search_state.query@ == w
                    && final(self).search_state.direction == SearchDirection::Forward
                    && final(self).search_state.results@ == search_spec(old(self).buffer.text(), w)
            }),
    {
        let (word, _s, _e) = self.buffer.get_word_range(self.state.cursor.line, self.state.cursor.col);
        if !word.as_str().is_empty() {
            self.do_search(word.as_str(), SearchDirection::Forward);
        }
    }
}

} // verus!
