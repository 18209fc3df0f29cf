//! Fitting names and text into the review panels.
use crate::chars::sub_vec;
use crate::review::state::{Annotation, ReviewState};
use crate::strutil::{chars_of, push_str, string_of};
use std::collections::HashSet;
use vstd::prelude::*;
use vstd::string::StrSliceExecFns;
use vstd::utf8::encode_utf8;

verus! {

/// A file name fitted into `max_width` columns: kept when its byte length
/// fits, cut to its first characters when the space is under 5, else
/// `...` and its last `max_width - 3` characters.
pub open spec fn short_filename_spec(path: Seq<char>, bytes: nat, max_width: nat) -> Seq<char> {
    if bytes <= max_width {
        path
    } else if max_width < 5 {
        if path.len() <= max_width {
            path
        } else {
            path.take(max_width as int)
        }
    } else {
        let take = max_width - 3;
        "..."@ + if path.len() <= take {
            path
        } else {
            path.skip(path.len() - take)
        }
    }
}

pub fn short_filename(path: &str, max_width: usize) -> (r: String)
    ensures
        r@ == short_filename_spec(path@, (encode_utf8(path@).len() as usize) as nat, max_width as nat),
{
    if path.len() <= max_width {
        return String::from_str(path);
    }
    let cs = chars_of(path);
    if max_width < 5 {
        let n = if cs.len() <= max_width {
            cs.len()
        } else {
            max_width
        };
        let v = sub_vec(cs.as_slice(), 0, n);
        proof {
            if cs@.len() <= max_width {
                assert(v@ =~= path@);
            } else {
                assert(v@ =~= path@.take(max_width as int));
            }
        }
        return string_of(v.as_slice());
    }
    let take = max_width - 3;
    let start = if cs.len() <= take {
        0
    } else {
        cs.len() - take
    };
    let v = sub_vec(cs.as_slice(), start, cs.len());
    let mut r = String::from_str("...");
    let t = string_of(v.as_slice());
    push_str(&mut r, t.as_str());
    proof {
        if cs@.len() <= take {
            assert(v@ =~= path@);
        } else {
            assert(v@ =~= path@.skip(path@.len() - take));
        }
    }
    r
}

/// Width of a string in the review panels: its number of characters.
pub fn display_width(s: &str) -> (r: usize)
    ensures
        r == s@.len(),
{
    s.unicode_len()
}

/// `s` cut to its first `max_width` characters.
pub fn truncate(s: &str, max_width: usize) -> (r: String)
    ensures
        r@ == if s@.len() <= max_width {
            s@
        } else {
            s@.take(max_width as int)
        },
{
    if max_width == 0 {
        let r = String::new();
        proof {
            assert(r@ =~= s@.take(0));
        }
        return r;
    }
    let cs = chars_of(s);
    if cs.len() <= max_width {
        String::from_str(s)
    } else {
        let v = sub_vec(cs.as_slice(), 0, max_width);
        proof {
            assert(v@ =~= s@.take(max_width as int));
        }
        string_of(v.as_slice())
    }
}

/// The lines of `file_path` that carry an unresolved annotation.
pub open spec fn annotated_lines_spec(anns: Seq<Annotation>, file_path: Seq<char>) -> Set<usize> {
    Set::new(
        |l: usize|
            exists|i: int|
                0 <= i < anns.len() && anns[i].file_path@ == file_path && !anns[i].resolved
                    && anns[i].line == l,
    )
}

/// The lines of `file_path` that carry an unresolved annotation.
pub fn annotated_lines_for_file(review: &ReviewState, file_path: &str) -> (r: HashSet<usize>)
    ensures
        r@ == annotated_lines_spec(review.annotations@, file_path@),
{
    broadcast use vstd::std_specs::hash::group_hash_axioms;

    let anns = &review.annotations;
    let fp = chars_of(file_path);
    let mut set: HashSet<usize> = HashSet::new();
    let mut i: usize = 0;
    while i < anns.len()
        invariant
            0 <= i <= anns@.len(),
            fp@ == file_path@,
            *anns == review.annotations,
            set@ == annotated_lines_spec(anns@.take(i as int), file_path@),
        decreases anns@.len() - i,
    {
        let a = &anns[i];
        let ap = chars_of(a.file_path.as_str());
        if crate::chars::chars_eq(ap.as_slice(), fp.as_slice()) && !a.resolved {
            set.insert(a.line);
        }
        proof {
            let t = anns@.take(i + 1);
            assert forall|l: usize| set@.contains(l) == annotated_lines_spec(t, file_path@).contains(l) by {
                if annotated_lines_spec(t, file_path@).contains(l) {
                    let k = choose|k: int|
                        0 <= k < t.len() && t[k].file_path@ == file_path@ && !t[k].resolved && t[k].line == l;
                    if k < i {
                        assert(anns@.take(i as int)[k] == t[k]);
                    }
                }
                if set@.contains(l) && l != a.line {
                    let k = choose|k: int|
                        0 <= k < i && anns@.take(i as int)[k].file_path@ == file_path@
                            && !anns@.take(i as int)[k].resolved && anns@.take(i as int)[k].line == l;
                    assert(t[k] == anns@.take(i as int)[k]);
                }
                if set@.contains(l) && l == a.line && !(ap@ == fp@ && !a.resolved) {
                    let k = choose|k: int|
                        0 <= k < i && anns@.take(i as int)[k].file_path@ == file_path@
                            && !anns@.take(i as int)[k].resolved && anns@.take(i as int)[k].line == l;
                    assert(t[k] == anns@.take(i as int)[k]);
                }
                if ap@ == fp@ && !a.resolved && l == a.line {
                    assert(t[i as int] == *a);
                }
            }
            assert(set@ =~= annotated_lines_spec(t, file_path@));
        }
        i += 1;
    }
    proof {
        assert(anns@.take(i as int) =~= anns@);
    }
    set
}

} // verus!
