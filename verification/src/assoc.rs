//! Association lists keyed by characters: a vector of `(key, value)` pairs
//! read as a finite map in which the first pair with a key gives its value.
use vstd::prelude::*;

verus! {

/// The value stored under `k`: that of the first pair with key `k`.
pub open spec fn alist_get<V>(v: Seq<(char, V)>, k: char) -> Option<V>
    decreases v.len(),
{
    if v.len() == 0 {
        None
    } else if v[0].0 == k {
        Some(v[0].1)
    } else {
        alist_get(v.drop_first(), k)
    }
}

/// The finite map that an association list stands for.
pub open spec fn alist_map<V>(v: Seq<(char, V)>) -> Map<char, V> {
    Map::new(|k: char| alist_get(v, k) is Some, |k: char| alist_get(v, k).unwrap())
}

pub proof fn lemma_alist_get_at<V>(v: Seq<(char, V)>, i: int, k: char)
    requires
        0 <= i < v.len(),
        v[i].0 == k,
        forall|j: int| 0 <= j < i ==> v[j].0 != k,
    ensures
        alist_get(v, k) == Some(v[i].1),
    decreases i,
{
    if i > 0 {
        assert forall|j: int| 0 <= j < i - 1 implies v.drop_first()[j].0 != k by {
            assert(v.drop_first()[j] == v[j + 1]);
        }
        lemma_alist_get_at(v.drop_first(), i - 1, k);
    }
}

pub proof fn lemma_alist_get_none<V>(v: Seq<(char, V)>, k: char)
    requires
        forall|i: int| 0 <= i < v.len() ==> v[i].0 != k,
    ensures
        alist_get(v, k) is None,
    decreases v.len(),
{
    if v.len() > 0 {
        assert forall|i: int| 0 <= i < v.drop_first().len() implies v.drop_first()[i].0 != k by {
            assert(v.drop_first()[i] == v[i + 1]);
        }
        lemma_alist_get_none(v.drop_first(), k);
    }
}

/// The first pair with key `k` is found by a scan from the front.
pub proof fn lemma_alist_get<V>(v: Seq<(char, V)>, k: char)
    ensures
        alist_get(v, k) is Some ==> exists|i: int|
            0 <= i < v.len() && v[i].0 == k && (forall|j: int| 0 <= j < i ==> v[j].0 != k)
                && alist_get(v, k) == Some(v[i].1),
        alist_get(v, k) is None ==> forall|i: int| 0 <= i < v.len() ==> v[i].0 != k,
    decreases v.len(),
{
    if v.len() > 0 {
        lemma_alist_get(v.drop_first(), k);
        if v[0].0 == k {
            assert(0 < v.len() && v[0].0 == k);
        } else if alist_get(v, k) is Some {
            let i = choose|i: int|
                0 <= i < v.drop_first().len() && v.drop_first()[i].0 == k && (forall|j: int|
                    0 <= j < i ==> v.drop_first()[j].0 != k) && alist_get(v.drop_first(), k)
                    == Some(v.drop_first()[i].1);
            assert forall|j: int| 0 <= j < i + 1 implies v[j].0 != k by {
                if j > 0 {
                    assert(v[j] == v.drop_first()[j - 1]);
                }
            }
            assert(v[i + 1] == v.drop_first()[i]);
        } else {
            assert forall|i: int| 0 <= i < v.len() implies v[i].0 != k by {
                if i > 0 {
                    assert(v[i] == v.drop_first()[i - 1]);
                }
            }
        }
    }
}

/// The index of the first pair with key `k`, if any.
pub fn alist_find<V>(v: &Vec<(char, V)>, k: char) -> (r: Option<usize>)
    ensures
        r matches Some(i) ==> i < v@.len() && v@[i as int].0 == k && forall|j: int|
            0 <= j < i ==> v@[j].0 != k,
        r is None ==> forall|i: int| 0 <= i < v@.len() ==> v@[i].0 != k,
{
    let mut i: usize = 0;
    while i < v.len()
        invariant
            0 <= i <= v@.len(),
            forall|j: int| 0 <= j < i ==> v@[j].0 != k,
        decreases v@.len() - i,
    {
        if v[i].0 == k {
            return Some(i);
        }
        i += 1;
    }
    None
}

/// Overwriting the first pair with key `k`, or appending one when there is
/// none, changes the map at `k` only.
pub proof fn lemma_alist_store<V>(v: Seq<(char, V)>, w: Seq<(char, V)>, k: char, x: V)
    requires
        (exists|i: int|
            0 <= i < v.len() && v[i].0 == k && (forall|j: int| 0 <= j < i ==> v[j].0 != k) && w
                == v.update(i, (k, x))) || ((forall|i: int| 0 <= i < v.len() ==> v[i].0 != k) && w
            == v.push((k, x))),
    ensures
        alist_map(w) == alist_map(v).insert(k, x),
{
    assert forall|kk: char| #[trigger] alist_get(w, kk) == if kk == k {
        Some(x)
    } else {
        alist_get(v, kk)
    } by {
        lemma_alist_get(v, kk);
        if exists|i: int|
            0 <= i < v.len() && v[i].0 == k && (forall|j: int| 0 <= j < i ==> v[j].0 != k) && w
                == v.update(i, (k, x)) {
            let i = choose|i: int|
                0 <= i < v.len() && v[i].0 == k && (forall|j: int| 0 <= j < i ==> v[j].0 != k) && w
                    == v.update(i, (k, x));
            if kk == k {
                lemma_alist_get_at(w, i, k);
            } else if alist_get(v, kk) is Some {
                let m = choose|m: int|
                    0 <= m < v.len() && v[m].0 == kk && (forall|j: int| 0 <= j < m ==> v[j].0 != kk)
                        && alist_get(v, kk) == Some(v[m].1);
                assert(m != i);
                lemma_alist_get_at(w, m, kk);
            } else {
                lemma_alist_get_none(w, kk);
            }
        } else {
            if kk == k {
                lemma_alist_get_at(w, v.len() as int, k);
            } else if alist_get(v, kk) is Some {
                let m = choose|m: int|
                    0 <= m < v.len() && v[m].0 == kk && (forall|j: int| 0 <= j < m ==> v[j].0 != kk)
                        && alist_get(v, kk) == Some(v[m].1);
                lemma_alist_get_at(w, m, kk);
            } else {
                lemma_alist_get_none(w, kk);
            }
        }
    }
    assert(alist_map(w) =~= alist_map(v).insert(k, x));
}

} // verus!
