//! Review annotations and their JSON form: an object with a version and an
//! array of annotations, written and read without a JSON library.
use crate::chars::{
    decimal, decimal_chars_u128, find_chars, find_spec, lemma_find_from, parse_usize, parse_usize_spec, push_decimal,
    sub_vec, chars_eq,
};
use crate::review::state::{clone_annotation, Annotation, AnnotationView};
use crate::strutil::{chars_of, push_char, push_str, string_of};
use crate::text::{is_ascii_whitespace, is_ascii_whitespace_spec};
use vstd::prelude::*;

verus! {

/// The JSON escape of one character.
pub open spec fn escape_char(c: char) -> Seq<char> {
    if c == '"' {
        seq!['\\', '"']
    } else if c == '\\' {
        seq!['\\', '\\']
    } else if c == '\n' {
        seq!['\\', 'n']
    } else if c == '\r' {
        seq!['\\', 'r']
    } else if c == '\t' {
        seq!['\\', 't']
    } else {
        seq![c]
    }
}

/// `s` escaped for a JSON string: quote, backslash, LF, CR and tab.
pub open spec fn escape_spec(s: Seq<char>) -> Seq<char>
    decreases s.len(),
{
    if s.len() == 0 {
        Seq::empty()
    } else {
        escape_char(s[0]) + escape_spec(s.skip(1))
    }
}

/// What a backslash followed by `c` stands for.
pub open spec fn unescape_pair(c: char) -> Seq<char> {
    if c == '"' {
        seq!['"']
    } else if c == '\\' {
        seq!['\\']
    } else if c == 'n' {
        seq!['\n']
    } else if c == 'r' {
        seq!['\r']
    } else if c == 't' {
        seq!['\t']
    } else {
        seq!['\\', c]
    }
}

/// `s` with JSON escapes replaced; unknown escapes and a final lone
/// backslash are kept as they are.
pub open spec fn unescape_spec(s: Seq<char>) -> Seq<char>
    decreases s.len(),
{
    if s.len() == 0 {
        Seq::empty()
    } else if s[0] == '\\' {
        if s.len() == 1 {
            seq!['\\']
        } else {
            unescape_pair(s[1]) + unescape_spec(s.skip(2))
        }
    } else {
        seq![s[0]] + unescape_spec(s.skip(1))
    }
}

/// Escapes a string for JSON.
pub fn escape_json(s: &str) -> (r: String)
    ensures
        r@ == escape_spec(s@),
{
    let cs = chars_of(s);
    let mut result = String::new();
    let mut i: usize = 0;
    proof {
        assert(result@ =~= Seq::<char>::empty());
        assert(cs@.skip(0) =~= cs@);
    }
    while i < cs.len()
        invariant
            0 <= i <= cs@.len(),
            cs@ == s@,
            result@ + escape_spec(cs@.skip(i as int)) == escape_spec(s@),
        decreases cs@.len() - i,
    {
        let ghost r0 = result@;
        let c = cs[i];
        if c == '"' {
            push_char(&mut result, '\\');
            push_char(&mut result, '"');
        } else if c == '\\' {
            push_char(&mut result, '\\');
            push_char(&mut result, '\\');
        } else if c == '\n' {
            push_char(&mut result, '\\');
            push_char(&mut result, 'n');
        } else if c == '\r' {
            push_char(&mut result, '\\');
            push_char(&mut result, 'r');
        } else if c == '\t' {
            push_char(&mut result, '\\');
            push_char(&mut result, 't');
        } else {
            push_char(&mut result, c);
        }
        proof {
            let rest = cs@.skip(i as int);
            assert(rest[0] == c);
            assert(rest.skip(1) =~= cs@.skip(i + 1));
            assert(result@ =~= r0 + escape_char(c));
            assert(r0 + escape_spec(rest) =~= result@ + escape_spec(cs@.skip(i + 1)));
        }
        i += 1;
    }
    proof {
        assert(cs@.skip(i as int) =~= Seq::<char>::empty());
        assert(result@ + Seq::<char>::empty() =~= result@);
    }
    result
}

/// Replaces the JSON escapes in `s`.
pub fn unescape_json(s: &str) -> (r: String)
    ensures
        r@ == unescape_spec(s@),
{
    let cs = chars_of(s);
    let mut result = String::new();
    let mut i: usize = 0;
    proof {
        assert(result@ =~= Seq::<char>::empty());
        assert(cs@.skip(0) =~= cs@);
    }
    while i < cs.len()
        invariant
            0 <= i <= cs@.len(),
            cs@ == s@,
            result@ + unescape_spec(cs@.skip(i as int)) == unescape_spec(s@),
        decreases cs@.len() - i,
    {
        let ghost r0 = result@;
        let ghost rest = cs@.skip(i as int);
        let ch = cs[i];
        proof {
            assert(rest[0] == ch);
        }
        if ch == '\\' {
            if i + 1 < cs.len() {
                let c = cs[i + 1];
                if c == '"' {
                    push_char(&mut result, '"');
                } else if c == '\\' {
                    push_char(&mut result, '\\');
                } else if c == 'n' {
                    push_char(&mut result, '\n');
                } else if c == 'r' {
                    push_char(&mut result, '\r');
                } else if c == 't' {
                    push_char(&mut result, '\t');
                } else {
                    push_char(&mut result, '\\');
                    push_char(&mut result, c);
                }
                proof {
                    assert(rest[1] == c);
                    assert(rest.skip(2) =~= cs@.skip(i + 2));
                    assert(result@ =~= r0 + unescape_pair(c));
                    assert(r0 + unescape_spec(rest) =~= result@ + unescape_spec(cs@.skip(i + 2)));
                }
                i += 2;
            } else {
                push_char(&mut result, '\\');
                proof {
                    assert(rest.len() == 1);
                    assert(cs@.skip(i + 1) =~= Seq::<char>::empty());
                    assert(r0 + unescape_spec(rest) =~= result@ + unescape_spec(cs@.skip(i + 1)));
                }
                i += 1;
            }
        } else {
            push_char(&mut result, ch);
            proof {
                assert(rest.skip(1) =~= cs@.skip(i + 1));
                assert(r0 + unescape_spec(rest) =~= result@ + unescape_spec(cs@.skip(i + 1)));
            }
            i += 1;
        }
    }
    proof {
        assert(cs@.skip(i as int) =~= Seq::<char>::empty());
        assert(result@ + Seq::<char>::empty() =~= result@);
    }
    result
}

/// Unescaping an escaped text gives the text back.
pub proof fn lemma_escape_roundtrip(s: Seq<char>)
    ensures
        unescape_spec(escape_spec(s)) == s,
    decreases s.len(),
{
    if s.len() > 0 {
        lemma_escape_roundtrip(s.skip(1));
        let c = s[0];
        let e = escape_spec(s.skip(1));
        let all = escape_char(c) + e;
        assert(escape_spec(s) == all);
        if escape_char(c).len() == 2 {
            assert(all[0] == '\\');
            assert(all.skip(2) =~= e);
            assert(unescape_pair(all[1]) == seq![c]);
        } else {
            assert(all[0] == c);
            assert(all.skip(1) =~= e);
        }
        assert(seq![c] + s.skip(1) =~= s);
    }
}

pub open spec fn bool_text(b: bool) -> Seq<char> {
    if b {
        "true"@
    } else {
        "false"@
    }
}

/// One annotation as a line of the JSON array.
pub open spec fn entry_json(a: AnnotationView) -> Seq<char> {
    "    {"@ + "\"id\": \""@ + escape_spec(a.id) + "\""@ + ", "@ + "\"file_path\": \""@
        + escape_spec(a.file_path) + "\""@ + ", "@ + "\"line\": "@ + decimal(a.line as nat) + ", "@
        + "\"text\": \""@ + escape_spec(a.text) + "\""@ + ", "@ + "\"resolved\": "@ + bool_text(
        a.resolved,
    ) + ", "@ + "\"created_at\": \""@ + escape_spec(a.created_at) + "\""@ + "}"@
}

/// The array entries, separated by a comma and a line break.
pub open spec fn entries_json(anns: Seq<AnnotationView>) -> Seq<char>
    decreases anns.len(),
{
    if anns.len() == 0 {
        Seq::empty()
    } else if anns.len() == 1 {
        entry_json(anns[0])
    } else {
        entries_json(anns.drop_last()) + ",\n"@ + entry_json(anns.last())
    }
}

/// The JSON document holding `anns`.
pub open spec fn annotations_json_spec(anns: Seq<AnnotationView>) -> Seq<char> {
    "{\n  \"version\": 1,\n  \"annotations\": [\n"@ + entries_json(anns) + "\n  ]\n}\n"@
}

pub open spec fn views_of(anns: Seq<Annotation>) -> Seq<AnnotationView> {
    anns.map_values(|a: Annotation| a@)
}

fn push_entry(json: &mut String, a: &Annotation)
    ensures
        final(json)@ == old(json)@ + entry_json(a@),
{
    push_str(json, "    {");
    push_str(json, "\"id\": \"");
    let e = escape_json(a.id.as_str());
    push_str(json, e.as_str());
    push_str(json, "\"");
    push_str(json, ", ");
    push_str(json, "\"file_path\": \"");
    let e = escape_json(a.file_path.as_str());
    push_str(json, e.as_str());
    push_str(json, "\"");
    push_str(json, ", ");
    push_str(json, "\"line\": ");
    push_decimal(json, a.line);
    push_str(json, ", ");
    push_str(json, "\"text\": \"");
    let e = escape_json(a.text.as_str());
    push_str(json, e.as_str());
    push_str(json, "\"");
    push_str(json, ", ");
    push_str(json, "\"resolved\": ");
    if a.resolved {
        push_str(json, "true");
    } else {
        push_str(json, "false");
    }
    push_str(json, ", ");
    push_str(json, "\"created_at\": \"");
    let e = escape_json(a.created_at.as_str());
    push_str(json, e.as_str());
    push_str(json, "\"");
    push_str(json, "}");
    proof {
        assert(json@ =~= old(json)@ + entry_json(a@));
    }
}

/// The JSON document holding `annotations`.
pub fn annotations_to_json(annotations: &[Annotation]) -> (r: String)
    ensures
        r@ == annotations_json_spec(views_of(annotations@)),
{
    let ghost av = views_of(annotations@);
    let mut json = String::from_str("{\n  \"version\": 1,\n  \"annotations\": [\n");
    let ghost head = json@;
    let mut i: usize = 0;
    proof {
        assert(av.take(0) =~= Seq::<AnnotationView>::empty());
        assert(json@ =~= head + entries_json(av.take(0)));
    }
    while i < annotations.len()
        invariant
            0 <= i <= annotations@.len(),
            av == views_of(annotations@),
            json@ == head + entries_json(av.take(i as int)),
        decreases annotations@.len() - i,
    {
        if i > 0 {
            push_str(&mut json, ",\n");
        }
        push_entry(&mut json, &annotations[i]);
        proof {
            let t = av.take(i + 1);
            assert(t.drop_last() =~= av.take(i as int));
            assert(t.last() == annotations@[i as int]@);
            if i == 0 {
                assert(t.len() == 1);
                assert(json@ =~= head + entries_json(t));
            } else {
                assert(json@ =~= head + entries_json(t));
            }
        }
        i += 1;
    }
    push_str(&mut json, "\n  ]\n}\n");
    proof {
        assert(av.take(i as int) =~= av);
    }
    json
}

/// Index of the first character at or after `i` that is not ASCII whitespace.
pub open spec fn skip_ascii_ws(s: Seq<char>, i: int) -> int
    decreases s.len() - i,
{
    if 0 <= i < s.len() && is_ascii_whitespace_spec(s[i]) {
        skip_ascii_ws(s, i + 1)
    } else {
        i
    }
}

/// Where a string whose content starts at `k` ends: its closing quote, a
/// backslash skipping the character after it. Past the end of `s` when the
/// text ends first (one past when it ends right after a backslash).
pub open spec fn str_end(s: Seq<char>, k: int) -> int
    decreases s.len() + 2 - k,
{
    if k < 0 || k >= s.len() {
        k
    } else if s[k] == '\\' {
        str_end(s, k + 2)
    } else if s[k] == '"' {
        k
    } else {
        str_end(s, k + 1)
    }
}

pub proof fn lemma_str_end(s: Seq<char>, k: int)
    requires
        0 <= k,
    ensures
        k <= str_end(s, k) <= s.len() + 1 || str_end(s, k) == k,
        str_end(s, k) >= k,
        str_end(s, k) < s.len() ==> s[str_end(s, k)] == '"',
    decreases s.len() + 2 - k,
{
    if k < s.len() {
        if s[k] == '\\' {
            lemma_str_end(s, k + 2);
        } else if s[k] != '"' {
            lemma_str_end(s, k + 1);
        }
    }
}

/// Scanning for the brace that closes the object, from `i` at nesting
/// `depth`; strings are skipped.
pub open spec fn brace_scan(s: Seq<char>, i: int, depth: int) -> Option<int>
    decreases s.len() + 2 - i,
{
    if 0 <= i < s.len() && depth > 0 {
        if s[i] == '{' {
            brace_scan(s, i + 1, depth + 1)
        } else if s[i] == '}' {
            brace_scan(s, i + 1, depth - 1)
        } else if s[i] == '"' {
            proof {
                lemma_str_end(s, i + 1);
            }
            brace_scan(s, str_end(s, i + 1) + 1, depth)
        } else {
            brace_scan(s, i + 1, depth)
        }
    } else if depth == 0 {
        Some(i - 1)
    } else {
        None
    }
}

/// The brace closing the object that opens at `start`.
pub open spec fn matching_brace_spec(s: Seq<char>, start: int) -> Option<int> {
    if start < 0 || start >= s.len() || s[start] != '{' {
        None
    } else {
        brace_scan(s, start + 1, 1)
    }
}

pub proof fn lemma_brace_scan(s: Seq<char>, i: int, depth: int)
    requires
        1 <= i,
        depth >= 0,
    ensures
        brace_scan(s, i, depth) matches Some(e) ==> i - 1 <= e && (depth > 0 ==> e < s.len() && s[e] == '}' && i <= e),
        depth == 0 ==> brace_scan(s, i, depth) == Some(i - 1),
    decreases s.len() + 2 - i,
{
    if 0 <= i < s.len() && depth > 0 {
        if s[i] == '{' {
            lemma_brace_scan(s, i + 1, depth + 1);
        } else if s[i] == '}' {
            lemma_brace_scan(s, i + 1, depth - 1);
        } else if s[i] == '"' {
            lemma_str_end(s, i + 1);
            lemma_brace_scan(s, str_end(s, i + 1) + 1, depth);
        } else {
            lemma_brace_scan(s, i + 1, depth);
        }
    }
}

/// Finds the brace that closes the object opening at `start`.
fn find_matching_brace(s: &[char], start: usize) -> (r: Option<usize>)
    ensures
        r matches Some(e) ==> matching_brace_spec(s@, start as int) == Some(e as int),
        r is None ==> matching_brace_spec(s@, start as int) is None,
{
    if start >= s.len() || s[start] != '{' {
        return None;
    }
    let n = s.len();
    let mut depth: usize = 1;
    let mut i = start + 1;
    while i < n && depth > 0
        invariant
            n == s@.len(),
            start < i <= n,
            depth <= i - start,
            brace_scan(s@, i as int, depth as int) == brace_scan(s@, start + 1, 1),
        decreases n - i,
    {
        let c = s[i];
        if c == '{' {
            depth += 1;
            i += 1;
        } else if c == '}' {
            depth -= 1;
            i += 1;
        } else if c == '"' {
            let ghost q = i as int;
            i += 1;
            while i < n
                invariant
                    n == s@.len(),
                    q + 1 <= i <= n,
                    0 <= q < n,
                    s@[q] == '"',
                    depth > 0,
                    str_end(s@, i as int) == str_end(s@, q + 1),
                    brace_scan(s@, q, depth as int) == brace_scan(s@, start + 1, 1),
                ensures
                    q + 1 <= i <= n,
                    str_end(s@, i as int) == str_end(s@, q + 1),
                    i >= n || s@[i as int] == '"',
                decreases n + 2 - i,
            {
                if s[i] == '\\' {
                    if i + 1 < n {
                        i += 2;
                    } else {
                        proof {
                            assert(str_end(s@, i as int) == str_end(s@, i + 2));
                            assert(str_end(s@, i + 2) == i + 2);
                            lemma_str_end(s@, q + 1);
                            assert(str_end(s@, q + 1) == i + 2);
                            assert(brace_scan(s@, q, depth as int) == brace_scan(s@, i + 3, depth as int));
                            assert(brace_scan(s@, i + 3, depth as int) is None);
                        }
                        return None;
                    }
                    continue;
                }
                if s[i] == '"' {
                    break;
                }
                i += 1;
            }
            proof {
                lemma_str_end(s@, q + 1);
                assert(str_end(s@, q + 1) == i);
                assert(brace_scan(s@, q, depth as int) == brace_scan(s@, i + 1, depth as int));
            }
            if i >= n {
                proof {
                    assert(brace_scan(s@, i + 1, depth as int) is None);
                }
                return None;
            }
            i += 1;
        } else {
            i += 1;
        }
    }
    if depth == 0 {
        Some(i - 1)
    } else {
        None
    }
}

/// Index of the first character at or after `p` that is neither ASCII
/// whitespace nor `sep`.
pub open spec fn skip_ws_or(s: Seq<char>, p: int, sep: char) -> int
    decreases s.len() - p,
{
    if 0 <= p < s.len() && (is_ascii_whitespace_spec(s[p]) || s[p] == sep) {
        skip_ws_or(s, p + 1, sep)
    } else {
        p
    }
}

/// Index of the first quote at or after `p` (the length when none).
pub open spec fn quote_from(s: Seq<char>, p: int) -> int
    decreases s.len() - p,
{
    if 0 <= p < s.len() && s[p] != '"' {
        quote_from(s, p + 1)
    } else {
        p
    }
}

/// End of an unquoted value: the first whitespace, comma or closing brace.
pub open spec fn value_end(s: Seq<char>, p: int) -> int
    decreases s.len() - p,
{
    if 0 <= p < s.len() && !is_ascii_whitespace_spec(s[p]) && s[p] != ',' && s[p] != '}' {
        value_end(s, p + 1)
    } else {
        p
    }
}

/// The annotation with a string field set.
pub open spec fn apply_str(acc: AnnotationView, key: Seq<char>, val: Seq<char>) -> AnnotationView {
    if key == "id"@ {
        AnnotationView { id: unescape_spec(val), ..acc }
    } else if key == "file_path"@ {
        AnnotationView { file_path: unescape_spec(val), ..acc }
    } else if key == "text"@ {
        AnnotationView { text: unescape_spec(val), ..acc }
    } else if key == "created_at"@ {
        AnnotationView { created_at: unescape_spec(val), ..acc }
    } else {
        acc
    }
}

/// The annotation with a number or boolean field set (`line` is 0 when it
/// does not parse; `resolved` is whether the value is `true`).
pub open spec fn apply_raw(acc: AnnotationView, key: Seq<char>, val: Seq<char>) -> AnnotationView {
    if key == "line"@ {
        AnnotationView {
            line: match parse_usize_spec(val) {
                Some(n) => n,
                None => 0,
            },
            ..acc
        }
    } else if key == "resolved"@ {
        AnnotationView { resolved: val == "true"@, ..acc }
    } else {
        acc
    }
}

pub proof fn lemma_scans(s: Seq<char>, p: int, sep: char)
    requires
        0 <= p,
    ensures
        skip_ws_or(s, p, sep) >= p,
        quote_from(s, p) >= p,
        value_end(s, p) >= p,
        skip_ascii_ws(s, p) >= p,
        p <= s.len() ==> quote_from(s, p) <= s.len(),
        p <= s.len() ==> value_end(s, p) <= s.len(),
    decreases s.len() - p,
{
    if p < s.len() {
        lemma_scans(s, p + 1, sep);
    }
}

/// The fields read from the inside of an object from `p` on, starting from
/// `acc`; none where reading would cut a string past the end of the text.
pub open spec fn obj_fields(s: Seq<char>, p: int, acc: AnnotationView) -> Option<AnnotationView>
    decreases s.len() + 2 - p,
{
    if p < 0 {
        Some(acc)
    } else {
        let p1 = skip_ws_or(s, p, ',');
        if p1 >= s.len() || s[p1] != '"' {
            Some(acc)
        } else {
            let ks = p1 + 1;
            let ke = quote_from(s, ks);
            let key = s.subrange(ks, ke);
            let p2 = skip_ws_or(s, ke + 1, ':');
            proof {
                lemma_scans(s, p, ',');
                lemma_scans(s, ks, ':');
                lemma_scans(s, ke + 1, ':');
            }
            if p2 >= s.len() {
                Some(acc)
            } else if s[p2] == '"' {
                let vs = p2 + 1;
                let ve = str_end(s, vs);
                proof {
                    lemma_str_end(s, vs);
                }
                if ve > s.len() {
                    None
                } else {
                    obj_fields(s, ve + 1, apply_str(acc, key, s.subrange(vs, ve)))
                }
            } else {
                let ve = value_end(s, p2);
                proof {
                    lemma_scans(s, p2, ':');
                }
                obj_fields(s, ve, apply_raw(acc, key, s.subrange(p2, ve)))
            }
        }
    }
}

pub open spec fn empty_annotation() -> AnnotationView {
    AnnotationView {
        id: Seq::empty(),
        file_path: Seq::empty(),
        line: 0,
        text: Seq::empty(),
        resolved: false,
        created_at: Seq::empty(),
    }
}

/// One object `{...}`: none where reading it would cut a string past its
/// end; otherwise the annotation, if it has an id.
pub open spec fn object_spec(obj: Seq<char>) -> Option<Option<AnnotationView>> {
    if obj.len() >= 2 && obj[0] == '{' && obj.last() == '}' {
        match obj_fields(obj.subrange(1, obj.len() - 1), 0, empty_annotation()) {
            None => None,
            Some(a) => if a.id.len() == 0 {
                Some(None)
            } else {
                Some(Some(a))
            },
        }
    } else {
        Some(None)
    }
}

/// Prepends `a` to a successful result.
pub open spec fn prepend(a: Seq<AnnotationView>, r: Option<Seq<AnnotationView>>) -> Option<Seq<AnnotationView>> {
    match r {
        Some(x) => Some(a + x),
        None => None,
    }
}

/// The annotations of the array from position `i` on; none where reading
/// an object would cut a string past its end.
pub open spec fn items_spec(s: Seq<char>, i: int) -> Option<Seq<AnnotationView>>
    decreases s.len() + 2 - i,
{
    if i < 0 {
        Some(Seq::empty())
    } else {
        let j = skip_ascii_ws(s, i);
        proof {
            lemma_scans(s, i, ',');
        }
        if j >= s.len() || s[j] == ']' {
            Some(Seq::empty())
        } else if s[j] == '{' {
            match matching_brace_spec(s, j) {
                Some(e) => {
                    proof {
                        lemma_brace_scan(s, j + 1, 1);
                    }
                    match object_spec(s.subrange(j, e + 1)) {
                        None => None,
                        Some(o) => match o {
                            Some(a) => prepend(seq![a], items_spec(s, e + 1)),
                            None => items_spec(s, e + 1),
                        },
                    }
                },
                None => Some(Seq::empty()),
            }
        } else if s[j] == ',' {
            items_spec(s, j + 1)
        } else {
            Some(Seq::empty())
        }
    }
}

/// The annotations stored in a JSON document: the objects of the array
/// after the `"annotations"` key. None where the reading would cut a string
/// value past the end of its object (a lone backslash before the closing
/// brace).
pub open spec fn parse_json_spec(s: Seq<char>) -> Option<Seq<AnnotationView>> {
    match find_spec(s, "\"annotations\""@) {
        None => Some(Seq::empty()),
        Some(pos) => match find_spec(s.skip(pos), seq!['[']) {
            None => Some(Seq::empty()),
            Some(b) => items_spec(s, pos + b + 1),
        },
    }
}

fn empty_ann() -> (a: Annotation)
    ensures
        a@ == empty_annotation(),
{
    let a = Annotation {
        id: String::new(),
        file_path: String::new(),
        line: 0,
        text: String::new(),
        resolved: false,
        created_at: String::new(),
    };
    proof {
        assert(a@.id =~= Seq::<char>::empty());
        assert(a@.file_path =~= Seq::<char>::empty());
        assert(a@.text =~= Seq::<char>::empty());
        assert(a@.created_at =~= Seq::<char>::empty());
    }
    a
}

fn apply_str_exec(acc: &mut Annotation, key: &[char], val: &[char])
    ensures
        final(acc)@ == apply_str(old(acc)@, key@, val@),
{
    let k_id = chars_of("id");
    let k_fp = chars_of("file_path");
    let k_text = chars_of("text");
    let k_ca = chars_of("created_at");
    let v = string_of(val);
    if chars_eq(key, k_id.as_slice()) {
        acc.id = unescape_json(v.as_str());
    } else if chars_eq(key, k_fp.as_slice()) {
        acc.file_path = unescape_json(v.as_str());
    } else if chars_eq(key, k_text.as_slice()) {
        acc.text = unescape_json(v.as_str());
    } else if chars_eq(key, k_ca.as_slice()) {
        acc.created_at = unescape_json(v.as_str());
    }
}

fn apply_raw_exec(acc: &mut Annotation, key: &[char], val: &[char])
    ensures
        final(acc)@ == apply_raw(old(acc)@, key@, val@),
{
    let k_line = chars_of("line");
    let k_res = chars_of("resolved");
    let t = chars_of("true");
    if chars_eq(key, k_line.as_slice()) {
        acc.line = match parse_usize(val) {
            Some(n) => n,
            None => 0,
        };
    } else if chars_eq(key, k_res.as_slice()) {
        acc.resolved = chars_eq(val, t.as_slice());
    }
}

/// Reads one object `{...}`: none where reading it would cut a string past
/// its end; otherwise the annotation, if it has an id.
pub fn parse_annotation_object(obj: &[char]) -> (r: Option<Option<Annotation>>)
    ensures
        (match r {
            None => None,
            Some(None) => Some(None),
            Some(Some(a)) => Some(Some(a@)),
        }) == object_spec(obj@),
{
    if !(obj.len() >= 2 && obj[0] == '{' && obj[obj.len() - 1] == '}') {
        return Some(None);
    }
    let inner = sub_vec(obj, 1, obj.len() - 1);
    let n = inner.len();
    let ghost target = obj_fields(inner@, 0, empty_annotation());
    let mut acc = empty_ann();
    let mut p: usize = 0;
    loop
        invariant
            n == inner@.len(),
            obj@.len() >= 2 && obj@[0] == '{' && obj@.last() == '}',
            inner@ == obj@.subrange(1, obj@.len() - 1),
            n < usize::MAX,
            p <= n + 1,
            obj_fields(inner@, p as int, acc@) == target,
            target == obj_fields(inner@, 0, empty_annotation()),
        ensures
            target == Some(acc@),
        decreases n + 2 - p,
    {
        let ghost p0 = p as int;
        let ghost acc0 = acc@;
        while p < n && (is_ascii_whitespace(inner[p]) || inner[p] == ',')
            invariant
                n == inner@.len(),
                p0 <= p <= n + 1,
                p0 <= n ==> p <= n,
                skip_ws_or(inner@, p as int, ',') == skip_ws_or(inner@, p0, ','),
            decreases n + 1 - p,
        {
            p += 1;
        }
        if p >= n || inner[p] != '"' {
            break;
        }
        let ks = p + 1;
        p = ks;
        while p < n && inner[p] != '"'
            invariant
                n == inner@.len(),
                ks <= p <= n,
                quote_from(inner@, p as int) == quote_from(inner@, ks as int),
            decreases n - p,
        {
            p += 1;
        }
        let key = sub_vec(inner.as_slice(), ks, p);
        let ghost ke = p as int;
        p += 1;
        while p < n && (is_ascii_whitespace(inner[p]) || inner[p] == ':')
            invariant
                n == inner@.len(),
                ke + 1 <= p <= n + 1,
                skip_ws_or(inner@, p as int, ':') == skip_ws_or(inner@, ke + 1, ':'),
            decreases n + 1 - p,
        {
            p += 1;
        }
        if p >= n {
            break;
        }
        if inner[p] == '"' {
            let vs = p + 1;
            p = vs;
            while p < n
                invariant
                    n == inner@.len(),
                    n < usize::MAX,
                    vs <= p <= n + 1,
                    str_end(inner@, p as int) == str_end(inner@, vs as int),
                ensures
                    vs <= p <= n + 1,
                    str_end(inner@, p as int) == str_end(inner@, vs as int),
                    p >= n || inner@[p as int] == '"',
                decreases n + 2 - p,
            {
                if inner[p] == '\\' {
                    if p + 1 < n {
                        p += 2;
                    } else {
                        p = n + 1;
                    }
                    continue;
                }
                if inner[p] == '"' {
                    break;
                }
                p += 1;
            }
            proof {
                lemma_str_end(inner@, vs as int);
                assert(str_end(inner@, vs as int) == p);
            }
            if p > n {
                proof {
                    assert(obj_fields(inner@, p0, acc0) is None);
                    assert(target is None);
                    assert(object_spec(obj@) is None);
                }
                return None;
            }
            let value = sub_vec(inner.as_slice(), vs, p);
            p += 1;
            apply_str_exec(&mut acc, key.as_slice(), value.as_slice());
        } else {
            let vs = p;
            while p < n && !is_ascii_whitespace(inner[p]) && inner[p] != ',' && inner[p] != '}'
                invariant
                    n == inner@.len(),
                    vs <= p <= n,
                    value_end(inner@, p as int) == value_end(inner@, vs as int),
                decreases n - p,
            {
                p += 1;
            }
            let value = sub_vec(inner.as_slice(), vs, p);
            apply_raw_exec(&mut acc, key.as_slice(), value.as_slice());
        }
    }
    if acc.id.as_str().is_empty() {
        Some(None)
    } else {
        Some(Some(acc))
    }
}

/// Reads the annotations stored in a JSON document (see
/// `annotations_to_json`): the objects of the array after the
/// `"annotations"` key, skipping those without an id. None where reading
/// would cut a string value past the end of its object.
pub fn parse_annotations_json(content: &str) -> (r: Option<Vec<Annotation>>)
    ensures
        (match r {
            None => None,
            Some(v) => Some(views_of(v@)),
        }) == parse_json_spec(content@),
{
    let s = chars_of(content);
    let n = s.len();
    let key = chars_of("\"annotations\"");
    let pos = match find_chars(s.as_slice(), key.as_slice(), 0) {
        Some(pos) => pos,
        None => {
            return Some(Vec::new());
        },
    };
    proof {
        lemma_find_from(s@, key@, 0);
    }
    let after = sub_vec(s.as_slice(), pos, n);
    let mut br: Vec<char> = Vec::new();
    br.push('[');
    proof {
        assert(after@ =~= s@.skip(pos as int));
        assert(br@ =~= seq!['[']);
    }
    let b = match find_chars(after.as_slice(), br.as_slice(), 0) {
        Some(b) => b,
        None => {
            return Some(Vec::new());
        },
    };
    proof {
        lemma_find_from(after@, br@, 0);
    }
    let mut i = pos + b + 1;
    let ghost start = i as int;
    let mut out: Vec<Annotation> = Vec::new();
    proof {
        assert(find_spec(s@, "\"annotations\""@) == Some(pos as int));
        assert(find_spec(s@.skip(pos as int), seq!['[']) == Some(b as int));
        assert(parse_json_spec(content@) == items_spec(s@, start));
        assert(views_of(out@) =~= Seq::<AnnotationView>::empty());
        assert(prepend(Seq::empty(), items_spec(s@, start)) =~= items_spec(s@, start) || true);
        if let Some(x) = items_spec(s@, start) {
            assert(Seq::<AnnotationView>::empty() + x =~= x);
        }
    }
    loop
        invariant
            n == s@.len(),
            s@ == content@,
            i <= n + 1,
            parse_json_spec(content@) == items_spec(s@, start),
            prepend(views_of(out@), items_spec(s@, i as int)) == items_spec(s@, start),
        ensures
            items_spec(s@, start) == Some(views_of(out@)),
        decreases n + 2 - i,
    {
        let ghost i0 = i as int;
        let ghost o0 = views_of(out@);
        while i < n && is_ascii_whitespace(s[i])
            invariant
                n == s@.len(),
                i0 <= i <= n + 1,
                i0 <= n ==> i <= n,
                skip_ascii_ws(s@, i as int) == skip_ascii_ws(s@, i0),
            decreases n + 1 - i,
        {
            i += 1;
        }
        if i >= n || s[i] == ']' {
            proof {
                assert(o0 + Seq::<AnnotationView>::empty() =~= o0);
            }
            break;
        }
        if s[i] == '{' {
            match find_matching_brace(s.as_slice(), i) {
                Some(e) => {
                    proof {
                        lemma_brace_scan(s@, i + 1, 1);
                    }
                    let obj = sub_vec(s.as_slice(), i, e + 1);
                    match parse_annotation_object(obj.as_slice()) {
                        None => {
                            proof {
                                assert(items_spec(s@, i0) is None);
                                assert(items_spec(s@, start) is None);
                            }
                            return None;
                        },
                        Some(o) => {
                            match o {
                                Some(a) => {
                                    out.push(a);
                                    proof {
                                        assert(views_of(out@) =~= o0 + seq![a@]);
                                        match items_spec(s@, e + 1) {
                                            Some(x) => {
                                                assert(o0 + (seq![a@] + x) =~= views_of(out@) + x);
                                            },
                                            None => {},
                                        }
                                    }
                                },
                                None => {},
                            }
                            i = e + 1;
                        },
                    }
                },
                None => {
                    proof {
                        assert(o0 + Seq::<AnnotationView>::empty() =~= o0);
                    }
                    break;
                },
            }
        } else if s[i] == ',' {
            i += 1;
        } else {
            proof {
                assert(o0 + Seq::<AnnotationView>::empty() =~= o0);
            }
            break;
        }
    }
    Some(out)
}

/// The annotations without those whose id is `id`.
pub open spec fn without_id(s: Seq<AnnotationView>, id: Seq<char>) -> Seq<AnnotationView>
    decreases s.len(),
{
    if s.len() == 0 {
        Seq::empty()
    } else if s.last().id == id {
        without_id(s.drop_last(), id)
    } else {
        without_id(s.drop_last(), id).push(s.last())
    }
}

/// The annotations of the file `path`, in order.
pub open spec fn of_file(s: Seq<AnnotationView>, path: Seq<char>) -> Seq<AnnotationView>
    decreases s.len(),
{
    if s.len() == 0 {
        Seq::empty()
    } else if s.last().file_path == path {
        of_file(s.drop_last(), path).push(s.last())
    } else {
        of_file(s.drop_last(), path)
    }
}

/// Index of the first annotation whose id is `id`, at or after `i`.
pub open spec fn first_with_id(s: Seq<AnnotationView>, id: Seq<char>, i: int) -> Option<int>
    decreases s.len() - i,
{
    if i < 0 || i >= s.len() {
        None
    } else if s[i].id == id {
        Some(i)
    } else {
        first_with_id(s, id, i + 1)
    }
}

/// The annotations with the first one whose id is `id` (if any) marked
/// resolved when it was not and unresolved when it was.
pub open spec fn toggled(s: Seq<AnnotationView>, id: Seq<char>) -> Seq<AnnotationView> {
    match first_with_id(s, id, 0) {
        Some(k) => s.update(k, AnnotationView { resolved: !s[k].resolved, ..s[k] }),
        None => s,
    }
}

fn str_eq(a: &String, b: &str) -> (r: bool)
    ensures
        r == (a@ == b@),
{
    let x = chars_of(a.as_str());
    let y = chars_of(b);
    chars_eq(x.as_slice(), y.as_slice())
}

/// The annotations with `annotation` added at the end (what is stored
/// after adding it).
pub fn add_annotation(annotations: Vec<Annotation>, annotation: Annotation) -> (r: Vec<Annotation>)
    ensures
        views_of(r@) == views_of(annotations@).push(annotation@),
{
    let mut v = annotations;
    v.push(annotation);
    proof {
        assert(views_of(v@) =~= views_of(annotations@).push(annotation@));
    }
    v
}

/// The annotations without those whose id is `id` (what is stored after
/// removing it).
pub fn remove_annotation(annotations: Vec<Annotation>, id: &str) -> (r: Vec<Annotation>)
    ensures
        views_of(r@) == without_id(views_of(annotations@), id@),
{
    let ghost av = views_of(annotations@);
    let mut out: Vec<Annotation> = Vec::new();
    let mut i: usize = 0;
    proof {
        assert(av.take(0) =~= Seq::<AnnotationView>::empty());
        assert(views_of(out@) =~= Seq::<AnnotationView>::empty());
    }
    while i < annotations.len()
        invariant
            0 <= i <= annotations@.len(),
            av == views_of(annotations@),
            views_of(out@) == without_id(av.take(i as int), id@),
        decreases annotations@.len() - i,
    {
        proof {
            assert(av.take(i + 1).drop_last() =~= av.take(i as int));
            assert(av.take(i + 1).last() == annotations@[i as int]@);
        }
        if !str_eq(&annotations[i].id, id) {
            let ghost o = views_of(out@);
            out.push(clone_annotation(&annotations[i]));
            proof {
                assert(views_of(out@) =~= o.push(annotations@[i as int]@));
            }
        }
        i += 1;
    }
    proof {
        assert(av.take(i as int) =~= av);
    }
    out
}

/// The annotations with the first one whose id is `id` toggled between
/// resolved and unresolved.
pub fn toggle_resolved(annotations: Vec<Annotation>, id: &str) -> (r: Vec<Annotation>)
    ensures
        views_of(r@) == toggled(views_of(annotations@), id@),
{
    let ghost av = views_of(annotations@);
    let mut v = annotations;
    let mut i: usize = 0;
    while i < v.len()
        invariant
            0 <= i <= v@.len(),
            av == views_of(v@),
            av == views_of(annotations@),
            first_with_id(av, id@, i as int) == first_with_id(av, id@, 0),
        decreases v@.len() - i,
    {
        if str_eq(&v[i].id, id) {
            let mut a = v.remove(i);
            a.resolved = !a.resolved;
            v.insert(i, a);
            proof {
                assert(first_with_id(av, id@, 0) == Some(i as int));
                assert(views_of(v@) =~= toggled(av, id@));
            }
            return v;
        }
        i += 1;
    }
    proof {
        assert(first_with_id(av, id@, 0) is None);
    }
    v
}

/// The annotations of the file `file_path`, in order.
pub fn annotations_for_file<'a>(annotations: &'a [Annotation], file_path: &str) -> (r: Vec<&'a Annotation>)
    ensures
        r@.map_values(|a: &Annotation| a@) == of_file(views_of(annotations@), file_path@),
{
    let ghost av = views_of(annotations@);
    let mut out: Vec<&'a Annotation> = Vec::new();
    let mut i: usize = 0;
    proof {
        assert(av.take(0) =~= Seq::<AnnotationView>::empty());
        assert(out@.map_values(|a: &Annotation| a@) =~= Seq::<AnnotationView>::empty());
    }
    while i < annotations.len()
        invariant
            0 <= i <= annotations@.len(),
            av == views_of(annotations@),
            out@.map_values(|a: &Annotation| a@) == of_file(av.take(i as int), file_path@),
        decreases annotations@.len() - i,
    {
        proof {
            assert(av.take(i + 1).drop_last() =~= av.take(i as int));
            assert(av.take(i + 1).last() == annotations@[i as int]@);
        }
        if str_eq(&annotations[i].file_path, file_path) {
            let ghost o = out@.map_values(|a: &Annotation| a@);
            out.push(&annotations[i]);
            proof {
                assert(out@.map_values(|a: &Annotation| a@) =~= o.push(annotations@[i as int]@));
            }
        }
        i += 1;
    }
    proof {
        assert(av.take(i as int) =~= av);
    }
    out
}

/// The annotation id for a time in nanoseconds since the Unix epoch.
pub fn annotation_id(nanos: u128) -> (r: String)
    ensures
        r@ == "ann-"@ + decimal(nanos as nat),
{
    let mut s = String::from_str("ann-");
    let d = decimal_chars_u128(nanos);
    let t = string_of(d.as_slice());
    push_str(&mut s, t.as_str());
    s
}

/// A new annotation id from the current time: `ann-` and the nanoseconds
/// since the Unix epoch. It returns once the clock reads past that time (or
/// after a bounded number of readings), so that an id made right after it
/// gets a later time; nothing about the clock is stated here.
pub fn generate_annotation_id() -> (r: String)
    ensures
        exists|n: u128| r@ == "ann-"@ + decimal(n as nat),
{
    let n = crate::clock::nanos_since_epoch();
    let mut tries: u32 = 0;
    while tries < 1000000
        decreases 1000000 - tries,
    {
        if crate::clock::nanos_since_epoch() != n {
            break;
        }
        tries += 1;
    }
    annotation_id(n)
}

/// Hands out annotation ids made from the clock and a counter: each id's
/// number is the current time in nanoseconds, or one more than the last
/// number handed out when the clock has not moved past it, so the numbers
/// keep growing and no two ids are the same.
pub struct AnnotationIds {
    last: Option<u128>,
}

impl AnnotationIds {
    /// The number of the last id handed out.
    pub closed spec fn last_number(&self) -> Option<u128> {
        self.last
    }

    pub fn new() -> (g: Self)
        ensures
            g.last_number() is None,
    {
        AnnotationIds { last: None }
    }

    /// The next number for the clock reading `now`.
    pub fn next_number(last: Option<u128>, now: u128) -> (n: u128)
        ensures
            n == match last {
                Some(l) => if now > l {
                    now
                } else if l < u128::MAX {
                    (l + 1) as u128
                } else {
                    l
                },
                None => now,
            },
    {
        match last {
            Some(l) => if now > l {
                now
            } else if l < u128::MAX {
                l + 1
            } else {
                l
            },
            None => now,
        }
    }

    /// A new id, `ann-` and its number; the number is larger than the last
    /// one handed out (unless that was the largest `u128`).
    pub fn next(&mut self) -> (r: String)
        ensures
            final(self).last_number() matches Some(n) && r@ == "ann-"@ + decimal(n as nat),
            old(self).last_number() matches Some(l) ==> (l < u128::MAX ==> final(self).last_number()->Some_0 > l),
    {
        let now = crate::clock::nanos_since_epoch();
        let n = Self::next_number(self.last, now);
        self.last = Some(n);
        annotation_id(n)
    }
}

} // verus!
