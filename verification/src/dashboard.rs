//! The welcome dashboard shown when the editor starts without a file: the
//! logo, the version, a separator and the quick actions, centred in the
//! rows above the status line.
use crate::motion::sat;
use crate::strutil::{chars_of, string_of};
use vstd::prelude::*;

verus! {

/// What a piece of the dashboard is, for its colour.
#[derive(Debug, Clone, Copy, PartialEq, Eq, Structural)]
pub enum DashPart {
    Logo,
    Version,
    Separator,
    Key,
    Description,
    Hint,
}

/// Text placed at a row and column of the screen, already cut at the
/// screen's right edge.
#[derive(Debug, Clone)]
pub struct DashText {
    pub row: usize,
    pub col: usize,
    pub text: String,
    pub part: DashPart,
}

pub struct DashTextView {
    pub row: int,
    pub col: int,
    pub text: Seq<char>,
    pub part: DashPart,
}

impl View for DashText {
    type V = DashTextView;

    open spec fn view(&self) -> DashTextView {
        DashTextView { row: self.row as int, col: self.col as int, text: self.text@, part: self.part }
    }
}

pub open spec fn texts_view(v: Seq<DashText>) -> Seq<DashTextView> {
    v.map_values(|d: DashText| d@)
}

/// Line `i` of the logo.
pub open spec fn logo_line(i: int) -> Seq<char> {
    if i == 0 {
        "██╗██████╗██████╗██╗   ██╗██╗███╗   ███╗"@
    } else if i == 1 {
        "██║    ██║██╔═══╝██║   ██║██║████╗ ████║"@
    } else if i == 2 {
        "██║    ██║██████╗██║   ██║██║██╔████╔██║"@
    } else if i == 3 {
        "██║    ██║██╔═══╝╚██╗ ██╔╝██║██║╚██╔╝██║"@
    } else if i == 4 {
        "██║██████║██████╗ ╚████╔╝ ██║██║ ╚═╝ ██║"@
    } else {
        "╚═╝╚═════╝╚═════╝  ╚═══╝  ╚═╝╚═╝     ╚═╝"@
    }
}

/// The key of quick action `i`.
pub open spec fn action_key(i: int) -> char {
    if i == 0 {
        'e'
    } else if i == 1 {
        'n'
    } else if i == 2 {
        'f'
    } else {
        'q'
    }
}

/// The description of quick action `i`.
pub open spec fn action_desc(i: int) -> Seq<char> {
    if i == 0 {
        "Open file explorer"@
    } else if i == 1 {
        "New file"@
    } else if i == 2 {
        "Find files (git ls-files)"@
    } else {
        "Quit"@
    }
}

/// Rows the full dashboard takes: the logo, the version, the separator,
/// the actions and the spacing between them.
pub open spec fn dashboard_height() -> int {
    18
}

/// The widest `[k]  description` of the actions.
pub open spec fn action_width() -> int {
    let w0 = 5 + action_desc(0).len() as int;
    let w1 = 5 + action_desc(1).len() as int;
    let w2 = 5 + action_desc(2).len() as int;
    let w3 = 5 + action_desc(3).len() as int;
    let a = if w0 >= w1 { w0 } else { w1 };
    let b = if w2 >= w3 { w2 } else { w3 };
    if a >= b { a } else { b }
}

/// `t` placed at `(row, col)`, cut where the screen of `cols` columns ends.
pub open spec fn placed(row: int, col: int, t: Seq<char>, part: DashPart, cols: int) -> DashTextView {
    let room = if cols > col { cols - col } else { 0 };
    DashTextView { row, col, text: if t.len() <= room { t } else { t.take(room) }, part }
}

/// The key (`[k]`) and the description of action `i`, the key at
/// `(row, col)`, the description two columns after it.
pub open spec fn action_texts(i: int, row: int, col: int, cols: int) -> Seq<DashTextView> {
    seq![
        placed(row, col, seq!['[', action_key(i), ']'], DashPart::Key, cols),
        placed(row, col + 5, action_desc(i), DashPart::Description, cols),
    ]
}

/// The first `n` actions of the small dashboard, one per row from the top,
/// from column 1.
pub open spec fn minimal_texts(n: int, cols: int) -> Seq<DashTextView>
    decreases n,
{
    if n <= 0 {
        Seq::empty()
    } else {
        minimal_texts(n - 1, cols) + action_texts(n - 1, n - 1, 1, cols)
    }
}

/// The logo lines from `start`, each centred.
pub open spec fn logo_texts(start: int, cols: int) -> Seq<DashTextView> {
    Seq::new(6, |i: int| placed(start + i, sat(cols, logo_line(i).len() as int) / 2, logo_line(i), DashPart::Logo, cols))
}

/// The version line: `v`, the version, ` — IJEVIM`.
pub open spec fn version_text(version: Seq<char>) -> Seq<char> {
    seq!['v'] + version + " — IJEVIM"@
}

/// The dashboard on a screen of `rows` rows and `cols` columns (the last
/// row is the status line's): nothing without room; the actions alone,
/// from the top, when the full dashboard does not fit; else the logo,
/// version, separator (up to 40 columns, 4 less than the screen) and
/// actions centred, and the hint on the last row when it stays clear of
/// them.
pub open spec fn dashboard_spec(rows: int, cols: int, version: Seq<char>) -> Seq<DashTextView> {
    let cr = sat(rows, 1);
    if cr == 0 {
        Seq::empty()
    } else if dashboard_height() >= cr {
        minimal_texts(if cr < 4 { cr } else { 4 }, cols)
    } else {
        let start = (cr - dashboard_height()) / 2;
        let v = version_text(version);
        let sep_len = if sat(cols, 4) < 40 { sat(cols, 4) } else { 40 };
        let ac = sat(cols, action_width()) / 2;
        let ar = start + 11;
        let hint = "Press any key to dismiss"@;
        logo_texts(start, cols) + seq![
            placed(start + 7, sat(cols, v.len() as int) / 2, v, DashPart::Version, cols),
            placed(start + 9, sat(cols, sep_len) / 2, Seq::new(sep_len as nat, |j: int| '─'), DashPart::Separator, cols),
        ] + action_texts(0, ar, ac, cols) + action_texts(1, ar + 1, ac, cols) + action_texts(2, ar + 2, ac, cols)
            + action_texts(3, ar + 3, ac, cols) + if cr - 1 > start + dashboard_height() - 2 {
            seq![placed(cr - 1, sat(cols, hint.len() as int) / 2, hint, DashPart::Hint, cols)]
        } else {
            Seq::empty()
        }
    }
}

fn logo_str(i: usize) -> (r: &'static str)
    ensures
        r@ == logo_line(i as int),
{
    match i {
        0 => "██╗██████╗██████╗██╗   ██╗██╗███╗   ███╗",
        1 => "██║    ██║██╔═══╝██║   ██║██║████╗ ████║",
        2 => "██║    ██║██████╗██║   ██║██║██╔████╔██║",
        3 => "██║    ██║██╔═══╝╚██╗ ██╔╝██║██║╚██╔╝██║",
        4 => "██║██████║██████╗ ╚████╔╝ ██║██║ ╚═╝ ██║",
        _ => "╚═╝╚═════╝╚═════╝  ╚═══╝  ╚═╝╚═╝     ╚═╝",
    }
}

fn action_key_of(i: usize) -> (c: char)
    ensures
        c == action_key(i as int),
{
    match i {
        0 => 'e',
        1 => 'n',
        2 => 'f',
        _ => 'q',
    }
}

fn action_desc_of(i: usize) -> (r: &'static str)
    ensures
        r@ == action_desc(i as int),
{
    match i {
        0 => "Open file explorer",
        1 => "New file",
        2 => "Find files (git ls-files)",
        _ => "Quit",
    }
}

/// `t` placed at `(row, col)` and cut at the screen's edge.
fn place(row: usize, col: usize, t: &[char], part: DashPart, cols: usize) -> (r: DashText)
    ensures
        r@ == placed(row as int, col as int, t@, part, cols as int),
{
    let room = if cols > col { cols - col } else { 0 };
    let n = if t.len() <= room { t.len() } else { room };
    let v = crate::chars::sub_vec(t, 0, n);
    proof {
        if t@.len() <= room {
            assert(v@ =~= t@);
        } else {
            assert(v@ =~= t@.take(room as int));
        }
    }
    DashText { row, col, text: string_of(v.as_slice()), part }
}

fn push_action(out: &mut Vec<DashText>, i: usize, row: usize, col: usize, cols: usize)
    requires
        col + 5 <= usize::MAX,
    ensures
        texts_view(final(out)@) == texts_view(old(out)@) + action_texts(i as int, row as int, col as int, cols as int),
{
    let key = vec!['[', action_key_of(i), ']'];
    proof {
        assert(key@ =~= seq!['[', action_key(i as int), ']']);
    }
    let desc = chars_of(action_desc_of(i));
    let ghost before = out@;
    out.push(place(row, col, key.as_slice(), DashPart::Key, cols));
    out.push(place(row, col + 5, desc.as_slice(), DashPart::Description, cols));
    proof {
        assert(texts_view(out@) =~= texts_view(before) + action_texts(i as int, row as int, col as int, cols as int));
    }
}

fn width_of(i: usize) -> (w: usize)
    ensures
        w == 5 + action_desc(i as int).len(),
{
    let n = action_desc_of(i).unicode_len();
    proof {
        reveal_strlit("Open file explorer");
        reveal_strlit("New file");
        reveal_strlit("Find files (git ls-files)");
        reveal_strlit("Quit");
    }
    5 + n
}

/// The texts of the dashboard (see `dashboard_spec`) for a screen of
/// `rows` rows and `cols` columns, with `version` in its version line.
pub fn dashboard_texts(rows: usize, cols: usize, version: &str) -> (r: Vec<DashText>)
    ensures
        texts_view(r@) == dashboard_spec(rows as int, cols as int, version@),
{
    let mut out: Vec<DashText> = Vec::new();
    let cr = rows.saturating_sub(1);
    if cr == 0 {
        return out;
    }
    if 18 >= cr {
        let n = if cr < 4 { cr } else { 4 };
        let mut i: usize = 0;
        while i < n
            invariant
                n <= 4,
                i <= n,
                texts_view(out@) == minimal_texts(i as int, cols as int),
            decreases n - i,
        {
            push_action(&mut out, i, i, 1, cols);
            i += 1;
        }
        return out;
    }
    let start = (cr - 18) / 2;
    let mut i: usize = 0;
    while i < 6
        invariant
            i <= 6,
            start == (cr - 18) / 2,
            cr > 18,
            texts_view(out@) == logo_texts(start as int, cols as int).take(i as int),
        decreases 6 - i,
    {
        let line = chars_of(logo_str(i));
        let w = line.len();
        let ghost before = out@;
        out.push(place(start + i, cols.saturating_sub(w) / 2, line.as_slice(), DashPart::Logo, cols));
        proof {
            let lt = logo_texts(start as int, cols as int);
            assert(texts_view(out@) =~= texts_view(before).push(out@[i as int]@));
            assert(out@[i as int]@ == lt[i as int]);
            assert(lt.take(i + 1) =~= lt.take(i as int).push(lt[i as int]));
        }
        i += 1;
    }
    let mut v = vec!['v'];
    let vc = chars_of(version);
    let mut k: usize = 0;
    while k < vc.len()
        invariant
            k <= vc@.len(),
            v@ == seq!['v'] + vc@.take(k as int),
        decreases vc@.len() - k,
    {
        v.push(vc[k]);
        proof {
            assert(vc@.take(k + 1) =~= vc@.take(k as int).push(vc@[k as int]));
        }
        k += 1;
    }
    let tail = chars_of(" — IJEVIM");
    let mut k: usize = 0;
    let ghost vhead = v@;
    while k < tail.len()
        invariant
            k <= tail@.len(),
            v@ == vhead + tail@.take(k as int),
        decreases tail@.len() - k,
    {
        v.push(tail[k]);
        proof {
            assert(tail@.take(k + 1) =~= tail@.take(k as int).push(tail@[k as int]));
        }
        k += 1;
    }
    proof {
        assert(vc@.take(vc@.len() as int) =~= vc@);
        assert(tail@.take(tail@.len() as int) =~= tail@);
        assert(v@ =~= version_text(version@));
        assert(logo_texts(start as int, cols as int).take(6) =~= logo_texts(start as int, cols as int));
    }
    let vw = v.len();
    let ghost after_logo = out@;
    out.push(place(start + 7, cols.saturating_sub(vw) / 2, v.as_slice(), DashPart::Version, cols));
    let sep_len = if cols.saturating_sub(4) < 40 { cols.saturating_sub(4) } else { 40 };
    let mut sep: Vec<char> = Vec::new();
    let mut k: usize = 0;
    while k < sep_len
        invariant
            k <= sep_len,
            sep@ == Seq::new(k as nat, |j: int| '─'),
        decreases sep_len - k,
    {
        sep.push('─');
        proof {
            assert(sep@ =~= Seq::new((k + 1) as nat, |j: int| '─'));
        }
        k += 1;
    }
    out.push(place(start + 9, cols.saturating_sub(sep_len) / 2, sep.as_slice(), DashPart::Separator, cols));
    let ghost two = out@;
    proof {
        assert(texts_view(two) =~= texts_view(after_logo) + seq![two[two.len() - 2]@, two[two.len() - 1]@]);
    }
    let w0 = width_of(0);
    let w1 = width_of(1);
    let w2 = width_of(2);
    let w3 = width_of(3);
    let a = if w0 >= w1 { w0 } else { w1 };
    let b = if w2 >= w3 { w2 } else { w3 };
    let aw = if a >= b { a } else { b };
    let ac = cols.saturating_sub(aw) / 2;
    let ar = start + 11;
    let ghost mid = out@;
    push_action(&mut out, 0, ar, ac, cols);
    push_action(&mut out, 1, ar + 1, ac, cols);
    push_action(&mut out, 2, ar + 2, ac, cols);
    push_action(&mut out, 3, ar + 3, ac, cols);
    let ghost acts = out@;
    if cr - 1 > start + 16 {
        let hint = chars_of("Press any key to dismiss");
        let hw = hint.len();
        out.push(place(cr - 1, cols.saturating_sub(hw) / 2, hint.as_slice(), DashPart::Hint, cols));
    }
    proof {
        let v2 = version_text(version@);
        let sl = if sat(cols as int, 4) < 40 { sat(cols as int, 4) } else { 40 };
        let vt = placed(start + 7, sat(cols as int, v2.len() as int) / 2, v2, DashPart::Version, cols as int);
        let st = placed(start + 9, sat(cols as int, sl) / 2, Seq::new(sl as nat, |j: int| '─'), DashPart::Separator, cols as int);
        assert(texts_view(two) =~= logo_texts(start as int, cols as int) + seq![vt, st]);
        let acv = ac as int;
        let arv = ar as int;
        assert(texts_view(acts) =~= texts_view(mid) + action_texts(0, arv, acv, cols as int) + action_texts(1, arv + 1, acv, cols as int)
            + action_texts(2, arv + 2, acv, cols as int) + action_texts(3, arv + 3, acv, cols as int));
        let d = dashboard_spec(rows as int, cols as int, version@);
        assert(texts_view(out@) =~= d);
    }
    out
}

} // verus!
