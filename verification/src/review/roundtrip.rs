//! Reading back the annotations file: what `annotations_to_json` writes,
//! `parse_annotations_json` reads as the same annotations.
use crate::chars::{all_digits, decimal, digits_value, find_from, parse_usize_spec};
use crate::review::annotations::{
    annotations_json_spec, apply_raw, apply_str, bool_text, brace_scan, entry_json, escape_char, escape_spec, lemma_escape_roundtrip,
    empty_annotation, entries_json, items_spec, matching_brace_spec, obj_fields, object_spec, parse_json_spec, prepend, quote_from,
    skip_ascii_ws, skip_ws_or, str_end, value_end,
};
use crate::review::state::AnnotationView;
use crate::text::is_ascii_whitespace_spec;
use vstd::prelude::*;

verus! {

/// The decimal digits of `n` read back as `n`.
pub proof fn lemma_decimal_reads_back(n: nat)
    requires
        n <= usize::MAX,
    ensures
        parse_usize_spec(decimal(n)) == Some(n as usize),
{
    lemma_decimal(n);
}

/// The decimal digits of `n`: at least one, all ASCII digits, worth `n`.
pub proof fn lemma_decimal(n: nat)
    ensures
        decimal(n).len() > 0,
        all_digits(decimal(n)),
        digits_value(decimal(n)) == n,
        decimal(n)[0] != '+',
    decreases n,
{
    if n < 10 {
        let c = ((n + 48) as u32) as char;
        assert(decimal(n) == seq![c]);
        assert(c as u32 == n + 48);
        assert('0' as u32 == 48);
        assert(decimal(n).drop_last() =~= Seq::<char>::empty());
        assert(digits_value(decimal(n).drop_last()) == 0);
        assert(decimal(n).last() == c);
    } else {
        lemma_decimal(n / 10);
        let d = decimal(n);
        let c = (((n % 10) + 48) as u32) as char;
        assert(d == decimal(n / 10).push(c));
        assert(d.drop_last() =~= decimal(n / 10));
        assert(c as u32 == (n % 10) + 48);
        assert('0' as u32 == 48);
        assert(d.last() == c);
        assert(digits_value(d) == 10 * digits_value(decimal(n / 10)) + (n % 10));
        assert(10 * (n / 10) + n % 10 == n);
        assert(d[0] == decimal(n / 10)[0]);
        assert forall|i: int| 0 <= i < d.len() implies '0' <= #[trigger] d[i] <= '9' by {
            if i < d.len() - 1 {
                assert(d[i] == decimal(n / 10)[i]);
            }
        }
    }
}

/// Splitting a piece of `s` made of two parts.
pub proof fn lemma_split(s: Seq<char>, p: int, a: Seq<char>, b: Seq<char>)
    requires
        0 <= p,
        p + a.len() + b.len() <= s.len(),
        s.subrange(p, p + a.len() + b.len()) == a + b,
    ensures
        s.subrange(p, p + a.len()) == a,
        s.subrange(p + a.len(), p + a.len() + b.len()) == b,
{
    let w = s.subrange(p, p + a.len() + b.len());
    assert forall|i: int| 0 <= i < a.len() implies s.subrange(p, p + a.len())[i] == a[i] by {
        assert(w[i] == (a + b)[i]);
    }
    assert forall|i: int| 0 <= i < b.len() implies s.subrange(p + a.len(), p + a.len() + b.len())[i] == b[i] by {
        assert(w[a.len() + i] == (a + b)[a.len() + i]);
    }
    assert(s.subrange(p, p + a.len()) =~= a);
    assert(s.subrange(p + a.len(), p + a.len() + b.len()) =~= b);
}

/// A character that escaping leaves alone.
pub open spec fn plain_char(c: char) -> bool {
    c != '"' && c != '\\' && c != '\n' && c != '\r' && c != '\t'
}

/// A text that escaping leaves alone.
pub open spec fn plain_text(k: Seq<char>) -> bool {
    forall|i: int| 0 <= i < k.len() ==> plain_char(#[trigger] k[i])
}

proof fn lemma_escape_plain(k: Seq<char>)
    requires
        plain_text(k),
    ensures
        escape_spec(k) == k,
    decreases k.len(),
{
    if k.len() > 0 {
        assert(plain_char(k[0]));
        assert(plain_text(k.skip(1))) by {
            assert forall|i: int| 0 <= i < k.skip(1).len() implies plain_char(#[trigger] k.skip(1)[i]) by {
                assert(k.skip(1)[i] == k[i + 1]);
            }
        }
        lemma_escape_plain(k.skip(1));
        assert(seq![k[0]] + k.skip(1) =~= k);
    }
}

/// The end of a string whose content is the escaped `x`: its closing quote.
proof fn lemma_str_end_escaped(s: Seq<char>, k: int, x: Seq<char>)
    requires
        0 <= k,
        k + escape_spec(x).len() < s.len(),
        s.subrange(k, k + escape_spec(x).len()) == escape_spec(x),
        s[k + escape_spec(x).len()] == '"',
    ensures
        str_end(s, k) == k + escape_spec(x).len(),
    decreases x.len(),
{
    if x.len() > 0 {
        let c = escape_char(x[0]);
        let r = escape_spec(x.skip(1));
        assert(escape_spec(x) == c + r);
        lemma_split(s, k, c, r);
        assert(s[k] == s.subrange(k, k + c.len())[0]);
        lemma_str_end_escaped(s, k + c.len(), x.skip(1));
        if c.len() == 2 {
            assert(s[k] == '\\');
        } else {
            assert(s[k] == x[0]);
        }
    } else {
        assert(s[k] == '"');
    }
}

/// A character that the brace scan passes over.
pub open spec fn scan_plain(c: char) -> bool {
    c != '{' && c != '}' && c != '"'
}

proof fn lemma_brace_plain(s: Seq<char>, i: int, d: int, p: Seq<char>)
    requires
        0 <= i,
        d > 0,
        i + p.len() <= s.len(),
        s.subrange(i, i + p.len()) == p,
        forall|k: int| 0 <= k < p.len() ==> scan_plain(#[trigger] p[k]),
    ensures
        brace_scan(s, i, d) == brace_scan(s, i + p.len(), d),
    decreases p.len(),
{
    if p.len() > 0 {
        assert(s[i] == s.subrange(i, i + p.len())[0]);
        assert(scan_plain(p[0]));
        assert(seq![p[0]] + p.skip(1) =~= p);
        lemma_split(s, i, seq![p[0]], p.skip(1));
        assert forall|k: int| 0 <= k < p.skip(1).len() implies scan_plain(#[trigger] p.skip(1)[k]) by {
            assert(p.skip(1)[k] == p[k + 1]);
        }
        lemma_brace_plain(s, i + 1, d, p.skip(1));
    }
}

/// The brace scan passes over a string whose content is the escaped `x`.
proof fn lemma_brace_string(s: Seq<char>, i: int, d: int, x: Seq<char>)
    requires
        0 <= i,
        d > 0,
        i + escape_spec(x).len() + 1 < s.len(),
        s[i] == '"',
        s.subrange(i + 1, i + 1 + escape_spec(x).len()) == escape_spec(x),
        s[i + 1 + escape_spec(x).len()] == '"',
    ensures
        brace_scan(s, i, d) == brace_scan(s, i + 2 + escape_spec(x).len(), d),
{
    lemma_str_end_escaped(s, i + 1, x);
}

/// Where each piece of the entry for `a` stands in `s`, the entry starting at `p`.
#[verifier::opaque]
pub open spec fn entry_at(s: Seq<char>, p: int, a: AnnotationView) -> bool {
    let o0 = p;
    let o1 = o0 + "    {"@.len();
    let o2 = o1 + "\"id\": \""@.len();
    let o3 = o2 + escape_spec(a.id).len();
    let o4 = o3 + "\""@.len();
    let o5 = o4 + ", "@.len();
    let o6 = o5 + "\"file_path\": \""@.len();
    let o7 = o6 + escape_spec(a.file_path).len();
    let o8 = o7 + "\""@.len();
    let o9 = o8 + ", "@.len();
    let o10 = o9 + "\"line\": "@.len();
    let o11 = o10 + decimal(a.line as nat).len();
    let o12 = o11 + ", "@.len();
    let o13 = o12 + "\"text\": \""@.len();
    let o14 = o13 + escape_spec(a.text).len();
    let o15 = o14 + "\""@.len();
    let o16 = o15 + ", "@.len();
    let o17 = o16 + "\"resolved\": "@.len();
    let o18 = o17 + bool_text(a.resolved).len();
    let o19 = o18 + ", "@.len();
    let o20 = o19 + "\"created_at\": \""@.len();
    let o21 = o20 + escape_spec(a.created_at).len();
    let o22 = o21 + "\""@.len();
    let o23 = o22 + "}"@.len();
    &&& 0 <= p
    &&& o23 <= s.len()
    &&& s.subrange(o0, o1) == "    {"@
    &&& s.subrange(o1, o2) == "\"id\": \""@
    &&& s.subrange(o2, o3) == escape_spec(a.id)
    &&& s.subrange(o3, o4) == "\""@
    &&& s.subrange(o4, o5) == ", "@
    &&& s.subrange(o5, o6) == "\"file_path\": \""@
    &&& s.subrange(o6, o7) == escape_spec(a.file_path)
    &&& s.subrange(o7, o8) == "\""@
    &&& s.subrange(o8, o9) == ", "@
    &&& s.subrange(o9, o10) == "\"line\": "@
    &&& s.subrange(o10, o11) == decimal(a.line as nat)
    &&& s.subrange(o11, o12) == ", "@
    &&& s.subrange(o12, o13) == "\"text\": \""@
    &&& s.subrange(o13, o14) == escape_spec(a.text)
    &&& s.subrange(o14, o15) == "\""@
    &&& s.subrange(o15, o16) == ", "@
    &&& s.subrange(o16, o17) == "\"resolved\": "@
    &&& s.subrange(o17, o18) == bool_text(a.resolved)
    &&& s.subrange(o18, o19) == ", "@
    &&& s.subrange(o19, o20) == "\"created_at\": \""@
    &&& s.subrange(o20, o21) == escape_spec(a.created_at)
    &&& s.subrange(o21, o22) == "\""@
    &&& s.subrange(o22, o23) == "}"@
}

pub open spec fn entry_end(p: int, a: AnnotationView) -> int {
    p + entry_json(a).len()
}

proof fn lemma_entry_layout(s: Seq<char>, p: int, a: AnnotationView)
    requires
        0 <= p,
        p + entry_json(a).len() <= s.len(),
        s.subrange(p, p + entry_json(a).len()) == entry_json(a),
    ensures
        entry_at(s, p, a),
        s.subrange(p, p + 5) == "    {"@,
        s[p + entry_json(a).len() - 1] == '}',
{
    reveal(entry_at);
    lemma_punct_literals();
    let l0 = "    {"@;
    let l1 = l0 + "\"id\": \""@;
    let l2 = l1 + escape_spec(a.id);
    let l3 = l2 + "\""@;
    let l4 = l3 + ", "@;
    let l5 = l4 + "\"file_path\": \""@;
    let l6 = l5 + escape_spec(a.file_path);
    let l7 = l6 + "\""@;
    let l8 = l7 + ", "@;
    let l9 = l8 + "\"line\": "@;
    let l10 = l9 + decimal(a.line as nat);
    let l11 = l10 + ", "@;
    let l12 = l11 + "\"text\": \""@;
    let l13 = l12 + escape_spec(a.text);
    let l14 = l13 + "\""@;
    let l15 = l14 + ", "@;
    let l16 = l15 + "\"resolved\": "@;
    let l17 = l16 + bool_text(a.resolved);
    let l18 = l17 + ", "@;
    let l19 = l18 + "\"created_at\": \""@;
    let l20 = l19 + escape_spec(a.created_at);
    let l21 = l20 + "\""@;
    let l22 = l21 + "}"@;
    assert(l22 == entry_json(a));
    lemma_split(s, p, l21, "}"@);
    lemma_split(s, p, l20, "\""@);
    lemma_split(s, p, l19, escape_spec(a.created_at));
    lemma_split(s, p, l18, "\"created_at\": \""@);
    lemma_split(s, p, l17, ", "@);
    lemma_split(s, p, l16, bool_text(a.resolved));
    lemma_split(s, p, l15, "\"resolved\": "@);
    lemma_split(s, p, l14, ", "@);
    lemma_split(s, p, l13, "\""@);
    lemma_split(s, p, l12, escape_spec(a.text));
    lemma_split(s, p, l11, "\"text\": \""@);
    lemma_split(s, p, l10, ", "@);
    lemma_split(s, p, l9, decimal(a.line as nat));
    lemma_split(s, p, l8, "\"line\": "@);
    lemma_split(s, p, l7, ", "@);
    lemma_split(s, p, l6, "\""@);
    lemma_split(s, p, l5, escape_spec(a.file_path));
    lemma_split(s, p, l4, "\"file_path\": \""@);
    lemma_split(s, p, l3, ", "@);
    lemma_split(s, p, l2, "\""@);
    lemma_split(s, p, l1, escape_spec(a.id));
    lemma_split(s, p, l0, "\"id\": \""@);
    assert(s[p + entry_json(a).len() - 1] == s.subrange(p + l21.len(), p + l22.len())[0]);
}


/// The text `"k": "` that opens a string field.
pub open spec fn str_key(k: Seq<char>) -> Seq<char> {
    seq!['"'] + k + seq!['"', ':', ' ', '"']
}

/// The text `"k": ` that opens a number or boolean field.
pub open spec fn raw_key(k: Seq<char>) -> Seq<char> {
    seq!['"'] + k + seq!['"', ':', ' ']
}

/// A field name that needs no escaping and holds no brace.
pub open spec fn key_ok(k: Seq<char>) -> bool {
    forall|i: int| 0 <= i < k.len() ==> plain_char(#[trigger] k[i]) && scan_plain(k[i])
}

/// A number or boolean value as written: no whitespace, comma, brace or
/// quote, and not starting with a colon.
pub open spec fn raw_ok(v: Seq<char>) -> bool {
    &&& v.len() > 0
    &&& v[0] != ':'
    &&& forall|i: int| 0 <= i < v.len() ==> scan_plain(#[trigger] v[i]) && !is_ascii_whitespace_spec(v[i]) && v[i] != ','
}

proof fn lemma_key_literals()
    ensures
        "\"id\": \""@ == str_key("id"@),
        "\"file_path\": \""@ == str_key("file_path"@),
        "\"line\": "@ == raw_key("line"@),
        "\"text\": \""@ == str_key("text"@),
        "\"resolved\": "@ == raw_key("resolved"@),
        "\"created_at\": \""@ == str_key("created_at"@),
        key_ok("id"@),
        key_ok("file_path"@),
        key_ok("line"@),
        key_ok("text"@),
        key_ok("resolved"@),
        key_ok("created_at"@),
        "id"@.len() == 2,
        "file_path"@.len() == 9,
        "line"@.len() == 4,
        "text"@.len() == 4,
        "resolved"@.len() == 8,
        "created_at"@.len() == 10,
{
    reveal_strlit("\"id\": \"");
    reveal_strlit("\"file_path\": \"");
    reveal_strlit("\"line\": ");
    reveal_strlit("\"text\": \"");
    reveal_strlit("\"resolved\": ");
    reveal_strlit("\"created_at\": \"");
    reveal_strlit("id");
    reveal_strlit("file_path");
    reveal_strlit("line");
    reveal_strlit("text");
    reveal_strlit("resolved");
    reveal_strlit("created_at");
    assert("\"id\": \""@ =~= str_key("id"@));
    assert("\"file_path\": \""@ =~= str_key("file_path"@));
    assert("\"line\": "@ =~= raw_key("line"@));
    assert("\"text\": \""@ =~= str_key("text"@));
    assert("\"resolved\": "@ =~= raw_key("resolved"@));
    assert("\"created_at\": \""@ =~= str_key("created_at"@));
}

proof fn lemma_punct_literals()
    ensures
        "    {"@ == seq![' ', ' ', ' ', ' ', '{'],
        "\""@ == seq!['"'],
        ", "@ == seq![',', ' '],
        "}"@ == seq!['}'],
        raw_ok("true"@),
        raw_ok("false"@),
        "true"@ != "false"@,
{
    reveal_strlit("    {");
    reveal_strlit("\"");
    reveal_strlit(", ");
    reveal_strlit("}");
    reveal_strlit("true");
    reveal_strlit("false");
    assert("    {"@ =~= seq![' ', ' ', ' ', ' ', '{']);
    assert("\""@ =~= seq!['"']);
    assert(", "@ =~= seq![',', ' ']);
    assert("}"@ =~= seq!['}']);
    assert("true"@.len() != "false"@.len());
}


proof fn lemma_decimal_raw(n: nat)
    ensures
        raw_ok(decimal(n)),
{
    lemma_decimal(n);
    let d = decimal(n);
    assert forall|i: int| 0 <= i < d.len() implies scan_plain(#[trigger] d[i]) && !is_ascii_whitespace_spec(d[i]) && d[i] != ',' by {
        assert('0' <= d[i] <= '9');
    }
    assert('0' <= d[0] <= '9');
}

/// The brace scan passes over a string field `"k": "<escaped x>"`.
proof fn lemma_brace_str_field(s: Seq<char>, q: int, d: int, k: Seq<char>, x: Seq<char>)
    requires
        0 <= q,
        d > 0,
        key_ok(k),
        q + str_key(k).len() + escape_spec(x).len() < s.len(),
        s.subrange(q, q + str_key(k).len()) == str_key(k),
        s.subrange(q + str_key(k).len(), q + str_key(k).len() + escape_spec(x).len()) == escape_spec(x),
        s[q + str_key(k).len() + escape_spec(x).len()] == '"',
    ensures
        brace_scan(s, q, d) == brace_scan(s, q + str_key(k).len() + escape_spec(x).len() + 1, d),
{
    let sk = str_key(k);
    lemma_split(s, q, seq!['"'] + k, seq!['"', ':', ' ', '"']);
    lemma_split(s, q, seq!['"'], k);
    assert(s[q] == s.subrange(q, q + 1)[0]);
    assert(plain_text(k));
    lemma_escape_plain(k);
    let t = s.subrange(q + 1 + k.len(), q + sk.len());
    assert(t[0] == s[q + 1 + k.len()]);
    lemma_brace_string(s, q, d, k);
    assert(seq!['"'] + seq![':', ' ', '"'] =~= seq!['"', ':', ' ', '"']);
    lemma_split(s, q + 1 + k.len(), seq!['"'], seq![':', ' ', '"']);
    assert(seq![':', ' '] + seq!['"'] =~= seq![':', ' ', '"']);
    lemma_split(s, q + 2 + k.len(), seq![':', ' '], seq!['"']);
    lemma_brace_plain(s, q + 2 + k.len(), d, seq![':', ' ']);
    assert(s[q + 4 + k.len()] == s.subrange(q + 4 + k.len(), q + 5 + k.len())[0]);
    lemma_brace_string(s, q + 4 + k.len(), d, x);
}

/// The brace scan passes over a field `"k": v` with a plain value.
proof fn lemma_brace_raw_field(s: Seq<char>, q: int, d: int, k: Seq<char>, v: Seq<char>)
    requires
        0 <= q,
        d > 0,
        key_ok(k),
        raw_ok(v),
        q + raw_key(k).len() + v.len() < s.len(),
        s.subrange(q, q + raw_key(k).len()) == raw_key(k),
        s.subrange(q + raw_key(k).len(), q + raw_key(k).len() + v.len()) == v,
    ensures
        brace_scan(s, q, d) == brace_scan(s, q + raw_key(k).len() + v.len(), d),
{
    let rk = raw_key(k);
    lemma_split(s, q, seq!['"'] + k, seq!['"', ':', ' ']);
    lemma_split(s, q, seq!['"'], k);
    assert(s[q] == s.subrange(q, q + 1)[0]);
    assert(plain_text(k));
    lemma_escape_plain(k);
    assert(seq!['"'] + seq![':', ' '] =~= seq!['"', ':', ' ']);
    lemma_split(s, q + 1 + k.len(), seq!['"'], seq![':', ' ']);
    assert(s[q + 1 + k.len()] == s.subrange(q + 1 + k.len(), q + 2 + k.len())[0]);
    lemma_brace_string(s, q, d, k);
    lemma_brace_plain(s, q + 2 + k.len(), d, seq![':', ' ']);
    assert forall|i: int| 0 <= i < v.len() implies scan_plain(#[trigger] v[i]) by {}
    lemma_brace_plain(s, q + rk.len(), d, v);
}


proof fn lemma_quote_plain(t: Seq<char>, i: int, k: Seq<char>)
    requires
        0 <= i,
        i + k.len() < t.len(),
        t.subrange(i, i + k.len()) == k,
        plain_text(k),
        t[i + k.len()] == '"',
    ensures
        quote_from(t, i) == i + k.len(),
    decreases k.len(),
{
    if k.len() > 0 {
        assert(t[i] == t.subrange(i, i + k.len())[0]);
        assert(plain_char(k[0]));
        assert(seq![k[0]] + k.skip(1) =~= k);
        lemma_split(t, i, seq![k[0]], k.skip(1));
        assert(plain_text(k.skip(1))) by {
            assert forall|j: int| 0 <= j < k.skip(1).len() implies plain_char(#[trigger] k.skip(1)[j]) by {
                assert(k.skip(1)[j] == k[j + 1]);
            }
        }
        lemma_quote_plain(t, i + 1, k.skip(1));
    }
}

proof fn lemma_value_plain(t: Seq<char>, i: int, v: Seq<char>)
    requires
        0 <= i,
        i + v.len() < t.len(),
        t.subrange(i, i + v.len()) == v,
        forall|j: int| 0 <= j < v.len() ==> scan_plain(#[trigger] v[j]) && !is_ascii_whitespace_spec(v[j]) && v[j] != ',',
        t[i + v.len()] == ',',
    ensures
        value_end(t, i) == i + v.len(),
    decreases v.len(),
{
    if v.len() > 0 {
        assert(t[i] == t.subrange(i, i + v.len())[0]);
        assert(scan_plain(v[0]) && !is_ascii_whitespace_spec(v[0]) && v[0] != ',');
        assert(seq![v[0]] + v.skip(1) =~= v);
        lemma_split(t, i, seq![v[0]], v.skip(1));
        assert forall|j: int| 0 <= j < v.skip(1).len() implies scan_plain(#[trigger] v.skip(1)[j]) && !is_ascii_whitespace_spec(
            v.skip(1)[j],
        ) && v.skip(1)[j] != ',' by {
            assert(v.skip(1)[j] == v[j + 1]);
        }
        lemma_value_plain(t, i + 1, v.skip(1));
    }
}

/// Where the text of a field starts: after `, ` when it is not the first.
pub open spec fn field_start(p: int, lead: bool) -> int {
    if lead {
        p + 2
    } else {
        p
    }
}

/// Reading a string field `"k": "<escaped x>"` (after `, ` when `lead`).
proof fn lemma_obj_str_field(t: Seq<char>, p: int, lead: bool, k: Seq<char>, x: Seq<char>, acc: AnnotationView)
    requires
        0 <= p,
        key_ok(k),
        lead ==> p + 2 <= t.len() && t.subrange(p, p + 2) == seq![',', ' '],
        field_start(p, lead) + str_key(k).len() + escape_spec(x).len() < t.len(),
        t.subrange(field_start(p, lead), field_start(p, lead) + str_key(k).len()) == str_key(k),
        t.subrange(field_start(p, lead) + str_key(k).len(), field_start(p, lead) + str_key(k).len() + escape_spec(x).len())
            == escape_spec(x),
        t[field_start(p, lead) + str_key(k).len() + escape_spec(x).len()] == '"',
    ensures
        obj_fields(t, p, acc) == obj_fields(
            t,
            field_start(p, lead) + str_key(k).len() + escape_spec(x).len() + 1,
            apply_str(acc, k, escape_spec(x)),
        ),
{
    let q = field_start(p, lead);
    let sk = str_key(k);
    if lead {
        assert(t[p] == t.subrange(p, p + 2)[0]);
        assert(t[p + 1] == t.subrange(p, p + 2)[1]);
    }
    lemma_split(t, q, seq!['"'] + k, seq!['"', ':', ' ', '"']);
    lemma_split(t, q, seq!['"'], k);
    assert(t[q] == t.subrange(q, q + 1)[0]);
    assert(skip_ws_or(t, q, ',') == q);
    if lead {
        assert(skip_ws_or(t, p + 1, ',') == q);
        assert(skip_ws_or(t, p, ',') == q);
    }
    let tail = t.subrange(q + 1 + k.len(), q + sk.len());
    assert(tail[0] == t[q + 1 + k.len()]);
    assert(tail[1] == t[q + 2 + k.len()]);
    assert(tail[2] == t[q + 3 + k.len()]);
    assert(tail[3] == t[q + 4 + k.len()]);
    assert(plain_text(k));
    lemma_quote_plain(t, q + 1, k);
    assert(skip_ws_or(t, q + 4 + k.len(), ':') == q + 4 + k.len());
    assert(skip_ws_or(t, q + 3 + k.len(), ':') == q + 4 + k.len());
    assert(skip_ws_or(t, q + 2 + k.len(), ':') == q + 4 + k.len());
    lemma_str_end_escaped(t, q + sk.len(), x);
}

/// Reading a field `"k": v` with a plain value, followed by a comma.
proof fn lemma_obj_raw_field(t: Seq<char>, p: int, lead: bool, k: Seq<char>, v: Seq<char>, acc: AnnotationView)
    requires
        0 <= p,
        key_ok(k),
        raw_ok(v),
        lead ==> p + 2 <= t.len() && t.subrange(p, p + 2) == seq![',', ' '],
        field_start(p, lead) + raw_key(k).len() + v.len() < t.len(),
        t.subrange(field_start(p, lead), field_start(p, lead) + raw_key(k).len()) == raw_key(k),
        t.subrange(field_start(p, lead) + raw_key(k).len(), field_start(p, lead) + raw_key(k).len() + v.len()) == v,
        t[field_start(p, lead) + raw_key(k).len() + v.len()] == ',',
    ensures
        obj_fields(t, p, acc) == obj_fields(t, field_start(p, lead) + raw_key(k).len() + v.len(), apply_raw(acc, k, v)),
{
    let q = field_start(p, lead);
    let rk = raw_key(k);
    if lead {
        assert(t[p] == t.subrange(p, p + 2)[0]);
        assert(t[p + 1] == t.subrange(p, p + 2)[1]);
    }
    lemma_split(t, q, seq!['"'] + k, seq!['"', ':', ' ']);
    lemma_split(t, q, seq!['"'], k);
    assert(t[q] == t.subrange(q, q + 1)[0]);
    assert(skip_ws_or(t, q, ',') == q);
    if lead {
        assert(skip_ws_or(t, p + 1, ',') == q);
        assert(skip_ws_or(t, p, ',') == q);
    }
    let tail = t.subrange(q + 1 + k.len(), q + rk.len());
    assert(tail[0] == t[q + 1 + k.len()]);
    assert(tail[1] == t[q + 2 + k.len()]);
    assert(tail[2] == t[q + 3 + k.len()]);
    assert(plain_text(k));
    lemma_quote_plain(t, q + 1, k);
    assert(t[q + rk.len()] == t.subrange(q + rk.len(), q + rk.len() + v.len())[0]);
    assert(skip_ws_or(t, q + rk.len(), ':') == q + rk.len());
    assert(skip_ws_or(t, q + 3 + k.len(), ':') == q + rk.len());
    assert(skip_ws_or(t, q + 2 + k.len(), ':') == q + rk.len());
    lemma_value_plain(t, q + rk.len(), v);
}

proof fn lemma_shift(s: Seq<char>, a: int, b: int, x: int, y: int)
    requires
        0 <= a <= b <= s.len(),
        0 <= x <= y <= b - a,
    ensures
        s.subrange(a, b).subrange(x, y) == s.subrange(a + x, a + y),
{
    assert(s.subrange(a, b).subrange(x, y) =~= s.subrange(a + x, a + y));
}

/// The brace scan of an entry ends at its closing brace.
proof fn lemma_entry_brace(s: Seq<char>, p: int, a: AnnotationView)
    requires
        entry_at(s, p, a),
    ensures
        brace_scan(s, p + 5, 1) == Some(p + entry_json(a).len() - 1),
{
    reveal(entry_at);
    lemma_key_literals();
    lemma_punct_literals();
    lemma_decimal_raw(a.line as nat);
    let o0 = p;
    let o1 = o0 + "    {"@.len();
    let o2 = o1 + "\"id\": \""@.len();
    let o3 = o2 + escape_spec(a.id).len();
    let o4 = o3 + "\""@.len();
    let o5 = o4 + ", "@.len();
    let o6 = o5 + "\"file_path\": \""@.len();
    let o7 = o6 + escape_spec(a.file_path).len();
    let o8 = o7 + "\""@.len();
    let o9 = o8 + ", "@.len();
    let o10 = o9 + "\"line\": "@.len();
    let o11 = o10 + decimal(a.line as nat).len();
    let o12 = o11 + ", "@.len();
    let o13 = o12 + "\"text\": \""@.len();
    let o14 = o13 + escape_spec(a.text).len();
    let o15 = o14 + "\""@.len();
    let o16 = o15 + ", "@.len();
    let o17 = o16 + "\"resolved\": "@.len();
    let o18 = o17 + bool_text(a.resolved).len();
    let o19 = o18 + ", "@.len();
    let o20 = o19 + "\"created_at\": \""@.len();
    let o21 = o20 + escape_spec(a.created_at).len();
    let o22 = o21 + "\""@.len();
    let o23 = o22 + "}"@.len();
    assert(o23 == p + entry_json(a).len());
    assert(o1 == p + 5);
    assert(s[o3] == s.subrange(o3, o4)[0]);
    assert(s[o7] == s.subrange(o7, o8)[0]);
    assert(s[o14] == s.subrange(o14, o15)[0]);
    assert(s[o21] == s.subrange(o21, o22)[0]);
    assert(s[o22] == s.subrange(o22, o23)[0]);
    lemma_brace_str_field(s, o1, 1, "id"@, a.id);
    lemma_brace_plain(s, o4, 1, ", "@);
    lemma_brace_str_field(s, o5, 1, "file_path"@, a.file_path);
    lemma_brace_plain(s, o8, 1, ", "@);
    lemma_brace_raw_field(s, o9, 1, "line"@, decimal(a.line as nat));
    lemma_brace_plain(s, o11, 1, ", "@);
    lemma_brace_str_field(s, o12, 1, "text"@, a.text);
    lemma_brace_plain(s, o15, 1, ", "@);
    lemma_brace_raw_field(s, o16, 1, "resolved"@, bool_text(a.resolved));
    lemma_brace_plain(s, o18, 1, ", "@);
    lemma_brace_str_field(s, o19, 1, "created_at"@, a.created_at);
    assert(brace_scan(s, o22, 1) == brace_scan(s, o23, 0));
}

/// Where each piece of the inside of the entry for `a` stands in `t`.
pub open spec fn inner_at(t: Seq<char>, a: AnnotationView) -> bool {
    let r1 = 0int;
    let r2 = r1 + "\"id\": \""@.len();
    let r3 = r2 + escape_spec(a.id).len();
    let r4 = r3 + "\""@.len();
    let r5 = r4 + ", "@.len();
    let r6 = r5 + "\"file_path\": \""@.len();
    let r7 = r6 + escape_spec(a.file_path).len();
    let r8 = r7 + "\""@.len();
    let r9 = r8 + ", "@.len();
    let r10 = r9 + "\"line\": "@.len();
    let r11 = r10 + decimal(a.line as nat).len();
    let r12 = r11 + ", "@.len();
    let r13 = r12 + "\"text\": \""@.len();
    let r14 = r13 + escape_spec(a.text).len();
    let r15 = r14 + "\""@.len();
    let r16 = r15 + ", "@.len();
    let r17 = r16 + "\"resolved\": "@.len();
    let r18 = r17 + bool_text(a.resolved).len();
    let r19 = r18 + ", "@.len();
    let r20 = r19 + "\"created_at\": \""@.len();
    let r21 = r20 + escape_spec(a.created_at).len();
    let r22 = r21 + "\""@.len();
    &&& r22 == t.len()
    &&& t.subrange(r1, r2) == "\"id\": \""@
    &&& t.subrange(r2, r3) == escape_spec(a.id)
    &&& t.subrange(r3, r4) == "\""@
    &&& t.subrange(r4, r5) == ", "@
    &&& t.subrange(r5, r6) == "\"file_path\": \""@
    &&& t.subrange(r6, r7) == escape_spec(a.file_path)
    &&& t.subrange(r7, r8) == "\""@
    &&& t.subrange(r8, r9) == ", "@
    &&& t.subrange(r9, r10) == "\"line\": "@
    &&& t.subrange(r10, r11) == decimal(a.line as nat)
    &&& t.subrange(r11, r12) == ", "@
    &&& t.subrange(r12, r13) == "\"text\": \""@
    &&& t.subrange(r13, r14) == escape_spec(a.text)
    &&& t.subrange(r14, r15) == "\""@
    &&& t.subrange(r15, r16) == ", "@
    &&& t.subrange(r16, r17) == "\"resolved\": "@
    &&& t.subrange(r17, r18) == bool_text(a.resolved)
    &&& t.subrange(r18, r19) == ", "@
    &&& t.subrange(r19, r20) == "\"created_at\": \""@
    &&& t.subrange(r20, r21) == escape_spec(a.created_at)
    &&& t.subrange(r21, r22) == "\""@
}

proof fn lemma_inner_from_entry(s: Seq<char>, p: int, a: AnnotationView)
    requires
        entry_at(s, p, a),
    ensures
        inner_at(s.subrange(p + 5, p + entry_json(a).len() - 1), a),
{
    reveal(entry_at);
    lemma_punct_literals();
    let o0 = p;
    let o1 = o0 + "    {"@.len();
    let o2 = o1 + "\"id\": \""@.len();
    let o3 = o2 + escape_spec(a.id).len();
    let o4 = o3 + "\""@.len();
    let o5 = o4 + ", "@.len();
    let o6 = o5 + "\"file_path\": \""@.len();
    let o7 = o6 + escape_spec(a.file_path).len();
    let o8 = o7 + "\""@.len();
    let o9 = o8 + ", "@.len();
    let o10 = o9 + "\"line\": "@.len();
    let o11 = o10 + decimal(a.line as nat).len();
    let o12 = o11 + ", "@.len();
    let o13 = o12 + "\"text\": \""@.len();
    let o14 = o13 + escape_spec(a.text).len();
    let o15 = o14 + "\""@.len();
    let o16 = o15 + ", "@.len();
    let o17 = o16 + "\"resolved\": "@.len();
    let o18 = o17 + bool_text(a.resolved).len();
    let o19 = o18 + ", "@.len();
    let o20 = o19 + "\"created_at\": \""@.len();
    let o21 = o20 + escape_spec(a.created_at).len();
    let o22 = o21 + "\""@.len();
    let o23 = o22 + "}"@.len();
    assert(o23 == p + entry_json(a).len());
    assert(o1 == p + 5);
    lemma_shift(s, o1, o22, o1 - o1, o2 - o1);
    lemma_shift(s, o1, o22, o2 - o1, o3 - o1);
    lemma_shift(s, o1, o22, o3 - o1, o4 - o1);
    lemma_shift(s, o1, o22, o4 - o1, o5 - o1);
    lemma_shift(s, o1, o22, o5 - o1, o6 - o1);
    lemma_shift(s, o1, o22, o6 - o1, o7 - o1);
    lemma_shift(s, o1, o22, o7 - o1, o8 - o1);
    lemma_shift(s, o1, o22, o8 - o1, o9 - o1);
    lemma_shift(s, o1, o22, o9 - o1, o10 - o1);
    lemma_shift(s, o1, o22, o10 - o1, o11 - o1);
    lemma_shift(s, o1, o22, o11 - o1, o12 - o1);
    lemma_shift(s, o1, o22, o12 - o1, o13 - o1);
    lemma_shift(s, o1, o22, o13 - o1, o14 - o1);
    lemma_shift(s, o1, o22, o14 - o1, o15 - o1);
    lemma_shift(s, o1, o22, o15 - o1, o16 - o1);
    lemma_shift(s, o1, o22, o16 - o1, o17 - o1);
    lemma_shift(s, o1, o22, o17 - o1, o18 - o1);
    lemma_shift(s, o1, o22, o18 - o1, o19 - o1);
    lemma_shift(s, o1, o22, o19 - o1, o20 - o1);
    lemma_shift(s, o1, o22, o20 - o1, o21 - o1);
    lemma_shift(s, o1, o22, o21 - o1, o22 - o1);
}

/// The annotation that reading the fields of `a`'s entry in turn builds.
pub open spec fn fields_read(a: AnnotationView) -> AnnotationView {
    let a1 = apply_str(empty_annotation(), "id"@, escape_spec(a.id));
    let a2 = apply_str(a1, "file_path"@, escape_spec(a.file_path));
    let a3 = apply_raw(a2, "line"@, decimal(a.line as nat));
    let a4 = apply_str(a3, "text"@, escape_spec(a.text));
    let a5 = apply_raw(a4, "resolved"@, bool_text(a.resolved));
    apply_str(a5, "created_at"@, escape_spec(a.created_at))
}

proof fn lemma_fields_read(a: AnnotationView)
    ensures
        fields_read(a) == a,
{
    lemma_key_literals();
    lemma_punct_literals();
    lemma_decimal_reads_back(a.line as nat);
    lemma_escape_roundtrip(a.id);
    lemma_escape_roundtrip(a.file_path);
    lemma_escape_roundtrip(a.text);
    lemma_escape_roundtrip(a.created_at);
}

#[verifier::rlimit(50)]
#[verifier::spinoff_prover]
proof fn lemma_inner_object(t: Seq<char>, a: AnnotationView)
    requires
        inner_at(t, a),
    ensures
        obj_fields(t, 0, empty_annotation()) == Some(fields_read(a)),
{
    lemma_key_literals();
    lemma_punct_literals();
    lemma_decimal_raw(a.line as nat);
    let r1 = 0int;
    let r2 = r1 + "\"id\": \""@.len();
    let r3 = r2 + escape_spec(a.id).len();
    let r4 = r3 + "\""@.len();
    let r5 = r4 + ", "@.len();
    let r6 = r5 + "\"file_path\": \""@.len();
    let r7 = r6 + escape_spec(a.file_path).len();
    let r8 = r7 + "\""@.len();
    let r9 = r8 + ", "@.len();
    let r10 = r9 + "\"line\": "@.len();
    let r11 = r10 + decimal(a.line as nat).len();
    let r12 = r11 + ", "@.len();
    let r13 = r12 + "\"text\": \""@.len();
    let r14 = r13 + escape_spec(a.text).len();
    let r15 = r14 + "\""@.len();
    let r16 = r15 + ", "@.len();
    let r17 = r16 + "\"resolved\": "@.len();
    let r18 = r17 + bool_text(a.resolved).len();
    let r19 = r18 + ", "@.len();
    let r20 = r19 + "\"created_at\": \""@.len();
    let r21 = r20 + escape_spec(a.created_at).len();
    let r22 = r21 + "\""@.len();
    assert(t[r3] == t.subrange(r3, r4)[0]);
    assert(t[r7] == t.subrange(r7, r8)[0]);
    assert(t[r11] == t.subrange(r11, r12)[0]);
    assert(t[r14] == t.subrange(r14, r15)[0]);
    assert(t[r18] == t.subrange(r18, r19)[0]);
    assert(t[r21] == t.subrange(r21, r22)[0]);
    let e = empty_annotation();
    let a1 = apply_str(e, "id"@, escape_spec(a.id));
    let a2 = apply_str(a1, "file_path"@, escape_spec(a.file_path));
    let a3 = apply_raw(a2, "line"@, decimal(a.line as nat));
    let a4 = apply_str(a3, "text"@, escape_spec(a.text));
    let a5 = apply_raw(a4, "resolved"@, bool_text(a.resolved));
    lemma_obj_str_field(t, 0, false, "id"@, a.id, e);
    lemma_obj_str_field(t, r4, true, "file_path"@, a.file_path, a1);
    lemma_obj_raw_field(t, r8, true, "line"@, decimal(a.line as nat), a2);
    lemma_obj_str_field(t, r11, true, "text"@, a.text, a3);
    lemma_obj_raw_field(t, r15, true, "resolved"@, bool_text(a.resolved), a4);
    lemma_obj_str_field(t, r18, true, "created_at"@, a.created_at, a5);
    assert(skip_ws_or(t, t.len() as int, ',') == t.len());
}

/// The fields of an entry read back as the annotation it was written from.
proof fn lemma_entry_object(s: Seq<char>, p: int, a: AnnotationView)
    requires
        entry_at(s, p, a),
    ensures
        obj_fields(s.subrange(p + 5, p + entry_json(a).len() - 1), 0, empty_annotation()) == Some(a),
{
    lemma_inner_from_entry(s, p, a);
    lemma_inner_object(s.subrange(p + 5, p + entry_json(a).len() - 1), a);
    lemma_fields_read(a);
}



/// The entries after the first, each after a comma and a line break.
pub open spec fn tail_items(r: Seq<AnnotationView>) -> Seq<char>
    decreases r.len(),
{
    if r.len() == 0 {
        Seq::empty()
    } else {
        ",\n"@ + entry_json(r[0]) + tail_items(r.drop_first())
    }
}

proof fn lemma_tail_items_last(r: Seq<AnnotationView>)
    requires
        r.len() > 0,
    ensures
        tail_items(r) == tail_items(r.drop_last()) + ",\n"@ + entry_json(r.last()),
    decreases r.len(),
{
    if r.len() == 1 {
        assert(r.drop_first() =~= Seq::<AnnotationView>::empty());
        assert(r.drop_last() =~= Seq::<AnnotationView>::empty());
        assert(tail_items(r) =~= tail_items(r.drop_last()) + ",\n"@ + entry_json(r.last()));
    } else {
        lemma_tail_items_last(r.drop_first());
        assert(r.drop_first().drop_last() =~= r.drop_last().drop_first());
        assert(r.drop_first().last() == r.last());
        assert(r.drop_last()[0] == r[0]);
        assert(tail_items(r) =~= tail_items(r.drop_last()) + ",\n"@ + entry_json(r.last()));
    }
}

/// The entries, read from the first one on.
proof fn lemma_entries_forward(anns: Seq<AnnotationView>)
    requires
        anns.len() > 0,
    ensures
        entries_json(anns) == entry_json(anns[0]) + tail_items(anns.drop_first()),
    decreases anns.len(),
{
    if anns.len() == 1 {
        assert(anns.drop_first() =~= Seq::<AnnotationView>::empty());
        assert(entries_json(anns) =~= entry_json(anns[0]) + tail_items(anns.drop_first()));
    } else {
        lemma_entries_forward(anns.drop_last());
        lemma_tail_items_last(anns.drop_first());
        assert(anns.drop_first().drop_last() =~= anns.drop_last().drop_first());
        assert(anns.drop_first().last() == anns.last());
        assert(anns.drop_last()[0] == anns[0]);
        assert(entries_json(anns) =~= entry_json(anns[0]) + tail_items(anns.drop_first()));
    }
}

/// Joining two neighbouring pieces of `s`.
proof fn lemma_join(s: Seq<char>, p: int, a: Seq<char>, b: Seq<char>)
    requires
        0 <= p,
        p + a.len() + b.len() <= s.len(),
        s.subrange(p, p + a.len()) == a,
        s.subrange(p + a.len(), p + a.len() + b.len()) == b,
    ensures
        s.subrange(p, p + a.len() + b.len()) == a + b,
{
    assert forall|i: int| 0 <= i < a.len() + b.len() implies s.subrange(p, p + a.len() + b.len())[i] == (a + b)[i] by {
        if i < a.len() {
            assert(s.subrange(p, p + a.len())[i] == s[p + i]);
        } else {
            assert(s.subrange(p + a.len(), p + a.len() + b.len())[i - a.len()] == s[p + i]);
        }
    }
    assert(s.subrange(p, p + a.len() + b.len()) =~= a + b);
}

proof fn lemma_list_literals()
    ensures
        "\n"@ == seq!['\n'],
        ",\n"@ == seq![',', '\n'],
        "\n  ]"@ == seq!['\n', ' ', ' ', ']'],
{
    reveal_strlit("\n");
    reveal_strlit(",\n");
    reveal_strlit("\n  ]");
    assert("\n"@ =~= seq!['\n']);
    assert(",\n"@ =~= seq![',', '\n']);
    assert("\n  ]"@ =~= seq!['\n', ' ', ' ', ']']);
}

/// Every annotation has an id.
pub open spec fn ids_present(anns: Seq<AnnotationView>) -> bool {
    forall|i: int| 0 <= i < anns.len() ==> (#[trigger] anns[i]).id.len() > 0
}

/// The array from a line break before the entry of `a` on: `a` and the
/// annotations of the entries after it.
#[verifier::rlimit(50)]
#[verifier::spinoff_prover]
proof fn lemma_items(s: Seq<char>, i: int, a: AnnotationView, rest: Seq<AnnotationView>)
    requires
        0 <= i,
        a.id.len() > 0,
        ids_present(rest),
        i + ("\n"@ + entry_json(a) + tail_items(rest) + "\n  ]"@).len() <= s.len(),
        s.subrange(i, i + ("\n"@ + entry_json(a) + tail_items(rest) + "\n  ]"@).len()) == "\n"@ + entry_json(a)
            + tail_items(rest) + "\n  ]"@,
    ensures
        items_spec(s, i) == Some(seq![a] + rest),
    decreases rest.len(),
{
    lemma_list_literals();
    lemma_punct_literals();
    let e = entry_json(a);
    let t = tail_items(rest);
    lemma_split(s, i, "\n"@ + e + t, "\n  ]"@);
    lemma_split(s, i, "\n"@ + e, t);
    lemma_split(s, i, "\n"@, e);
    lemma_entry_layout(s, i + 1, a);
    let o1 = i + 1 + "    {"@.len();
    assert(s.subrange(i + 1, o1) == "    {"@);
    assert(s[i] == s.subrange(i, i + 1)[0]);
    assert(s[i + 1] == s.subrange(i + 1, o1)[0]);
    assert(s[i + 2] == s.subrange(i + 1, o1)[1]);
    assert(s[i + 3] == s.subrange(i + 1, o1)[2]);
    assert(s[i + 4] == s.subrange(i + 1, o1)[3]);
    assert(s[i + 5] == s.subrange(i + 1, o1)[4]);
    assert(skip_ascii_ws(s, i + 5) == i + 5);
    assert(skip_ascii_ws(s, i + 4) == i + 5);
    assert(skip_ascii_ws(s, i + 3) == i + 5);
    assert(skip_ascii_ws(s, i + 2) == i + 5);
    assert(skip_ascii_ws(s, i + 1) == i + 5);
    assert(skip_ascii_ws(s, i) == i + 5);
    lemma_entry_brace(s, i + 1, a);
    let end = i + e.len();
    assert(matching_brace_spec(s, i + 5) == Some(end));
    let obj = s.subrange(i + 5, end + 1);
    lemma_shift(s, i + 5, end + 1, 1, obj.len() - 1);
    lemma_entry_object(s, i + 1, a);
    assert(s[end] == s.subrange(i + 1, i + 1 + e.len()).last());
    assert(obj[0] == s[i + 5]);
    assert(obj.last() == s[end]);
    assert(object_spec(obj) == Some(Some(a)));
    assert(items_spec(s, i) == prepend(seq![a], items_spec(s, end + 1)));
    let q = end + 1;
    if rest.len() == 0 {
        assert(t.len() == 0);
        let w = s.subrange(q, q + 4);
        assert(w == "\n  ]"@);
        assert(s[q] == w[0]);
        assert(s[q + 1] == w[1]);
        assert(s[q + 2] == w[2]);
        assert(s[q + 3] == w[3]);
        assert(skip_ascii_ws(s, q + 3) == q + 3);
        assert(skip_ascii_ws(s, q + 2) == q + 3);
        assert(skip_ascii_ws(s, q + 1) == q + 3);
        assert(skip_ascii_ws(s, q) == q + 3);
        assert(items_spec(s, q) == Some(Seq::<AnnotationView>::empty()));
        assert(seq![a] + Seq::<AnnotationView>::empty() =~= seq![a] + rest);
    } else {
        let r0 = rest[0];
        let r1 = rest.drop_first();
        let e0 = entry_json(r0);
        let t1 = tail_items(r1);
        assert(t == ",\n"@ + e0 + t1);
        assert(s.subrange(q, q + t.len()) == t);
        lemma_split(s, q, ",\n"@ + e0, t1);
        lemma_split(s, q, ",\n"@, e0);
        let c2 = s.subrange(q, q + 2);
        assert(s[q] == c2[0]);
        assert(s[q + 1] == c2[1]);
        assert(skip_ascii_ws(s, q) == q);
        assert(items_spec(s, q) == items_spec(s, q + 1));
        assert(s.subrange(q + 1, q + 2) =~= "\n"@);
        lemma_join(s, q + 1, "\n"@, e0);
        lemma_join(s, q + 1, "\n"@ + e0, t1);
        lemma_join(s, q + 1, "\n"@ + e0 + t1, "\n  ]"@);
        assert(r0.id.len() > 0);
        assert(ids_present(r1)) by {
            assert forall|k: int| 0 <= k < r1.len() implies (#[trigger] r1[k]).id.len() > 0 by {
                assert(r1[k] == rest[k + 1]);
            }
        }
        lemma_items(s, q + 1, r0, r1);
        assert(seq![r0] + r1 =~= rest);
        assert(seq![a] + (seq![r0] + r1) =~= seq![a] + rest);
    }
}

/// The header of the annotations file: the key `"annotations"` at index
/// 20 and its array's opening bracket 15 characters further.
#[verifier::rlimit(50)]
#[verifier::spinoff_prover]
proof fn lemma_header_find(s: Seq<char>)
    requires
        s.len() >= 37,
        s.subrange(0, 37) == "{\n  \"version\": 1,\n  \"annotations\": [\n"@,
    ensures
        crate::chars::find_spec(s, "\"annotations\""@) == Some(20int),
        crate::chars::find_spec(s.skip(20), seq!['[']) == Some(15int),
{
    let h = "{\n  \"version\": 1,\n  \"annotations\": [\n"@;
    let key = "\"annotations\""@;
    reveal_strlit("{\n  \"version\": 1,\n  \"annotations\": [\n");
    reveal_strlit("\"annotations\"");
    assert(h.len() == 37);
    assert(key.len() == 13);
    assert forall|k: int| 0 <= k < 37 implies s[k] == h[k] by {
        assert(s.subrange(0, 37)[k] == s[k]);
    }
    assert(s.skip(20).take(13) =~= key);
    assert(find_from(s, key, 20) == Some(20int));
    assert(s.skip(19).take(13)[0] == s[19]);
    assert(find_from(s, key, 19) == find_from(s, key, 20));
    assert(s.skip(18).take(13)[0] == s[18]);
    assert(find_from(s, key, 18) == find_from(s, key, 19));
    assert(s.skip(17).take(13)[0] == s[17]);
    assert(find_from(s, key, 17) == find_from(s, key, 18));
    assert(s.skip(16).take(13)[0] == s[16]);
    assert(find_from(s, key, 16) == find_from(s, key, 17));
    assert(s.skip(15).take(13)[0] == s[15]);
    assert(find_from(s, key, 15) == find_from(s, key, 16));
    assert(s.skip(14).take(13)[0] == s[14]);
    assert(find_from(s, key, 14) == find_from(s, key, 15));
    assert(s.skip(13).take(13)[0] == s[13]);
    assert(find_from(s, key, 13) == find_from(s, key, 14));
    assert(s.skip(12).take(13)[1] == s[13]);
    assert(find_from(s, key, 12) == find_from(s, key, 13));
    assert(s.skip(11).take(13)[0] == s[11]);
    assert(find_from(s, key, 11) == find_from(s, key, 12));
    assert(s.skip(10).take(13)[0] == s[10]);
    assert(find_from(s, key, 10) == find_from(s, key, 11));
    assert(s.skip(9).take(13)[0] == s[9]);
    assert(find_from(s, key, 9) == find_from(s, key, 10));
    assert(s.skip(8).take(13)[0] == s[8]);
    assert(find_from(s, key, 8) == find_from(s, key, 9));
    assert(s.skip(7).take(13)[0] == s[7]);
    assert(find_from(s, key, 7) == find_from(s, key, 8));
    assert(s.skip(6).take(13)[0] == s[6]);
    assert(find_from(s, key, 6) == find_from(s, key, 7));
    assert(s.skip(5).take(13)[0] == s[5]);
    assert(find_from(s, key, 5) == find_from(s, key, 6));
    assert(s.skip(4).take(13)[1] == s[5]);
    assert(find_from(s, key, 4) == find_from(s, key, 5));
    assert(s.skip(3).take(13)[0] == s[3]);
    assert(find_from(s, key, 3) == find_from(s, key, 4));
    assert(s.skip(2).take(13)[0] == s[2]);
    assert(find_from(s, key, 2) == find_from(s, key, 3));
    assert(s.skip(1).take(13)[0] == s[1]);
    assert(find_from(s, key, 1) == find_from(s, key, 2));
    assert(s.skip(0).take(13)[0] == s[0]);
    assert(find_from(s, key, 0) == find_from(s, key, 1));
    let u = s.skip(20);
    assert(u.skip(15).take(1) =~= seq!['[']);
    assert(find_from(u, seq!['['], 15) == Some(15int));
    assert(u.skip(14).take(1)[0] == s[34]);
    assert(find_from(u, seq!['['], 14) == find_from(u, seq!['['], 15));
    assert(u.skip(13).take(1)[0] == s[33]);
    assert(find_from(u, seq!['['], 13) == find_from(u, seq!['['], 14));
    assert(u.skip(12).take(1)[0] == s[32]);
    assert(find_from(u, seq!['['], 12) == find_from(u, seq!['['], 13));
    assert(u.skip(11).take(1)[0] == s[31]);
    assert(find_from(u, seq!['['], 11) == find_from(u, seq!['['], 12));
    assert(u.skip(10).take(1)[0] == s[30]);
    assert(find_from(u, seq!['['], 10) == find_from(u, seq!['['], 11));
    assert(u.skip(9).take(1)[0] == s[29]);
    assert(find_from(u, seq!['['], 9) == find_from(u, seq!['['], 10));
    assert(u.skip(8).take(1)[0] == s[28]);
    assert(find_from(u, seq!['['], 8) == find_from(u, seq!['['], 9));
    assert(u.skip(7).take(1)[0] == s[27]);
    assert(find_from(u, seq!['['], 7) == find_from(u, seq!['['], 8));
    assert(u.skip(6).take(1)[0] == s[26]);
    assert(find_from(u, seq!['['], 6) == find_from(u, seq!['['], 7));
    assert(u.skip(5).take(1)[0] == s[25]);
    assert(find_from(u, seq!['['], 5) == find_from(u, seq!['['], 6));
    assert(u.skip(4).take(1)[0] == s[24]);
    assert(find_from(u, seq!['['], 4) == find_from(u, seq!['['], 5));
    assert(u.skip(3).take(1)[0] == s[23]);
    assert(find_from(u, seq!['['], 3) == find_from(u, seq!['['], 4));
    assert(u.skip(2).take(1)[0] == s[22]);
    assert(find_from(u, seq!['['], 2) == find_from(u, seq!['['], 3));
    assert(u.skip(1).take(1)[0] == s[21]);
    assert(find_from(u, seq!['['], 1) == find_from(u, seq!['['], 2));
    assert(u.skip(0).take(1)[0] == s[20]);
    assert(find_from(u, seq!['['], 0) == find_from(u, seq!['['], 1));
}

/// Writing annotations and reading the file back gives the same
/// annotations, in the same order, when each has an id (an annotation
/// without an id is skipped when read).
#[verifier::rlimit(50)]
#[verifier::spinoff_prover]
pub proof fn lemma_annotations_roundtrip(anns: Seq<AnnotationView>)
    requires
        ids_present(anns),
    ensures
        parse_json_spec(annotations_json_spec(anns)) == Some(anns),
{
    let h = "{\n  \"version\": 1,\n  \"annotations\": [\n"@;
    let tt = "\n  ]\n}\n"@;
    let key = "\"annotations\""@;
    reveal_strlit("{\n  \"version\": 1,\n  \"annotations\": [\n");
    reveal_strlit("\n  ]\n}\n");
    reveal_strlit("\"annotations\"");
    lemma_list_literals();
    let en = entries_json(anns);
    let s = annotations_json_spec(anns);
    assert(s == h + en + tt);
    assert(h.len() == 37);
    assert(key.len() == 13);
    assert(s.subrange(0, s.len() as int) =~= s);
    lemma_split(s, 0, h + en, tt);
    lemma_split(s, 0, h, en);
    lemma_header_find(s);
    assert(parse_json_spec(s) == items_spec(s, 36));
    let tl = s.subrange(37 + en.len() as int, 37 + en.len() as int + 7);
    assert(tl == tt);
    if anns.len() == 0 {
        assert(en.len() == 0);
        assert(s[37] == tl[0]);
        assert(s[38] == tl[1]);
        assert(s[39] == tl[2]);
        assert(s[40] == tl[3]);
        assert(skip_ascii_ws(s, 40) == 40);
        assert(skip_ascii_ws(s, 39) == 40);
        assert(skip_ascii_ws(s, 38) == 40);
        assert(skip_ascii_ws(s, 37) == 40);
        assert(skip_ascii_ws(s, 36) == 40);
        assert(items_spec(s, 36) == Some(Seq::<AnnotationView>::empty()));
        assert(anns =~= Seq::<AnnotationView>::empty());
    } else {
        let a0 = anns[0];
        let rest = anns.drop_first();
        lemma_entries_forward(anns);
        let e0 = entry_json(a0);
        let t0 = tail_items(rest);
        assert(en == e0 + t0);
        lemma_split(s, 37, e0, t0);
        assert(s.subrange(36, 37) =~= "\n"@);
        assert(s.subrange(37 + en.len() as int, 37 + en.len() as int + 4) =~= "\n  ]"@);
        lemma_join(s, 36, "\n"@, e0);
        lemma_join(s, 36, "\n"@ + e0, t0);
        lemma_join(s, 36, "\n"@ + e0 + t0, "\n  ]"@);
        assert(a0.id.len() > 0);
        assert(ids_present(rest)) by {
            assert forall|k: int| 0 <= k < rest.len() implies (#[trigger] rest[k]).id.len() > 0 by {
                assert(rest[k] == anns[k + 1]);
            }
        }
        lemma_items(s, 36, a0, rest);
        assert(seq![a0] + rest =~= anns);
    }
}

} // verus!
