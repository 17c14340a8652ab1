//! Small association lists keyed by strings: a key appears at most once, a new
//! key goes to the end, and putting an existing key replaces its value in place.
use vstd::prelude::*;

verus! {

/// The first position at or after `from` whose key is `k`, or -1.
pub open spec fn key_pos<V>(m: Seq<(Seq<char>, V)>, k: Seq<char>, from: int) -> int
    decreases m.len() - from,
{
    if from < 0 || from >= m.len() {
        -1
    } else if m[from].0 == k {
        from
    } else {
        key_pos(m, k, from + 1)
    }
}

pub proof fn lemma_key_pos<V>(m: Seq<(Seq<char>, V)>, k: Seq<char>, from: int)
    requires
        0 <= from,
    ensures
        key_pos(m, k, from) == -1 || (from <= key_pos(m, k, from) < m.len() && m[key_pos(m, k, from)].0 == k),
        key_pos(m, k, from) == -1 ==> forall|j: int| from <= j < m.len() ==> m[j].0 != k,
    decreases m.len() - from,
{
    if from < m.len() && m[from].0 != k {
        lemma_key_pos(m, k, from + 1);
    }
}

/// The list after putting `v` under `k`.
pub open spec fn put<V>(m: Seq<(Seq<char>, V)>, k: Seq<char>, v: V) -> Seq<(Seq<char>, V)> {
    let p = key_pos(m, k, 0);
    if p >= 0 {
        m.update(p, (k, v))
    } else {
        m.push((k, v))
    }
}

/// The value under `k`, if any.
pub open spec fn get<V>(m: Seq<(Seq<char>, V)>, k: Seq<char>) -> Option<V> {
    let p = key_pos(m, k, 0);
    if p >= 0 {
        Some(m[p].1)
    } else {
        None
    }
}

/// The view of a list of string pairs.
pub open spec fn pairs_view(m: Seq<(String, String)>) -> Seq<(Seq<char>, Seq<char>)> {
    m.map_values(|e: (String, String)| (e.0@, e.1@))
}

/// Finds the position of a key.
pub fn find_key<V>(m: &Vec<(String, V)>, k: &String) -> (r: Option<usize>)
    ensures
        match r {
            Some(p) => p as int == key_pos(m@.map_values(|e: (String, V)| (e.0@, e.1)), k@, 0),
            None => key_pos(m@.map_values(|e: (String, V)| (e.0@, e.1)), k@, 0) == -1,
        },
{
    let ghost mv = m@.map_values(|e: (String, V)| (e.0@, e.1));
    let mut i: usize = 0;
    while i < m.len()
        invariant
            i <= m.len(),
            mv == m@.map_values(|e: (String, V)| (e.0@, e.1)),
            key_pos(mv, k@, 0) == key_pos(mv, k@, i as int),
        decreases m.len() - i,
    {
        if m[i].0 == *k {
            return Some(i);
        }
        i += 1;
    }
    None
}

/// Puts a pair of strings into a list of string pairs.
pub fn put_pair(m: &mut Vec<(String, String)>, k: String, v: String)
    ensures
        pairs_view(final(m)@) == put(pairs_view(old(m)@), k@, v@),
{
    let ghost old_v = pairs_view(m@);
    let p = find_key(m, &k);
    let ghost k_view = k@;
    let ghost v_view = v@;
    assert(m@.map_values(|e: (String, String)| (e.0@, e.1)).map_values(|e: (Seq<char>, String)| e.0)
        =~= old_v.map_values(|e: (Seq<char>, Seq<char>)| e.0));
    proof {
        lemma_key_pos_same_keys(m@.map_values(|e: (String, String)| (e.0@, e.1)), old_v, k@, 0);
        lemma_key_pos(old_v, k@, 0);
    }
    match p {
        Some(i) => {
            m[i] = (k, v);
            assert(pairs_view(m@) =~= old_v.update(i as int, (k_view, v_view)));
        },
        None => {
            m.push((k, v));
            assert(pairs_view(m@) =~= old_v.push((k_view, v_view)));
        },
    }
}

/// Two lists with the same keys, position by position, find a key at the same place.
pub proof fn lemma_key_pos_same_keys<V, W>(a: Seq<(Seq<char>, V)>, b: Seq<(Seq<char>, W)>, k: Seq<char>, from: int)
    requires
        a.map_values(|e: (Seq<char>, V)| e.0) == b.map_values(|e: (Seq<char>, W)| e.0),
    ensures
        key_pos(a, k, from) == key_pos(b, k, from),
    decreases a.len() - from,
{
    assert(a.len() == a.map_values(|e: (Seq<char>, V)| e.0).len());
    assert(b.len() == b.map_values(|e: (Seq<char>, W)| e.0).len());
    if 0 <= from < a.len() {
        assert(a.map_values(|e: (Seq<char>, V)| e.0)[from] == a[from].0);
        assert(b.map_values(|e: (Seq<char>, W)| e.0)[from] == b[from].0);
        lemma_key_pos_same_keys(a, b, k, from + 1);
    }
}

/// Putting twice under one key keeps the second value only, in the place of the first.
pub proof fn lemma_put_put<V>(m: Seq<(Seq<char>, V)>, k: Seq<char>, v: V, w: V)
    ensures
        put(put(m, k, v), k, w) == put(m, k, w),
        get(put(m, k, v), k) == Some(v),
{
    lemma_key_pos(m, k, 0);
    let m1 = put(m, k, v);
    lemma_key_pos(m1, k, 0);
    let p = key_pos(m, k, 0);
    if p >= 0 {
        lemma_key_pos_before(m, k, 0);
        assert(forall|j: int| 0 <= j < p ==> m1[j].0 != k);
        lemma_key_pos_first(m1, k, 0, p);
        assert(put(m1, k, w) =~= put(m, k, w));
    } else {
        assert(forall|j: int| 0 <= j < m.len() ==> m1[j].0 != k);
        lemma_key_pos_first(m1, k, 0, m.len() as int);
        assert(put(m1, k, w) =~= put(m, k, w));
    }
}

proof fn lemma_key_pos_before<V>(m: Seq<(Seq<char>, V)>, k: Seq<char>, from: int)
    requires
        0 <= from,
    ensures
        forall|j: int| from <= j < key_pos(m, k, from) ==> m[j].0 != k,
    decreases m.len() - from,
{
    if from < m.len() && m[from].0 != k {
        lemma_key_pos_before(m, k, from + 1);
    }
}

proof fn lemma_key_pos_first<V>(m: Seq<(Seq<char>, V)>, k: Seq<char>, from: int, p: int)
    requires
        0 <= from <= p < m.len(),
        m[p].0 == k,
        forall|j: int| from <= j < p ==> m[j].0 != k,
    ensures
        key_pos(m, k, from) == p,
    decreases p - from,
{
    if from < p {
        lemma_key_pos_first(m, k, from + 1, p);
    }
}

/// Keys are pairwise distinct.
pub open spec fn unique_keys<V>(m: Seq<(Seq<char>, V)>) -> bool {
    forall|i: int, j: int| 0 <= i < j < m.len() ==> m[i].0 != m[j].0
}

/// Putting keeps keys distinct.
pub broadcast proof fn lemma_put_unique<V>(m: Seq<(Seq<char>, V)>, k: Seq<char>, v: V)
    requires
        unique_keys(m),
    ensures
        #[trigger] unique_keys(put(m, k, v)),
{
    lemma_key_pos(m, k, 0);
    let r = put(m, k, v);
    if key_pos(m, k, 0) < 0 {
        assert forall|i: int, j: int| 0 <= i < j < r.len() implies r[i].0 != r[j].0 by {
            if j == m.len() {
                assert(m[i].0 != k);
            }
        }
    }
}

/// Removing the entry of a key from a list with distinct keys leaves no entry
/// of that key, and the keys distinct.
pub proof fn lemma_remove_key<V>(m: Seq<(Seq<char>, V)>, k: Seq<char>, p: int)
    requires
        unique_keys(m),
        0 <= p < m.len(),
        m[p].0 == k,
    ensures
        unique_keys(m.remove(p)),
        forall|i: int| 0 <= i < m.remove(p).len() ==> (#[trigger] m.remove(p)[i]).0 != k,
{
    let r = m.remove(p);
    assert forall|i: int| 0 <= i < r.len() implies (#[trigger] r[i]).0 != k by {
        if i < p {
            assert(r[i] == m[i]);
        } else {
            assert(r[i] == m[i + 1]);
        }
    }
    assert forall|i: int, j: int| 0 <= i < j < r.len() implies r[i].0 != r[j].0 by {
        let a = if i < p { i } else { i + 1 };
        let b = if j < p { j } else { j + 1 };
        assert(r[i] == m[a]);
        assert(r[j] == m[b]);
    }
}

} // verus!
