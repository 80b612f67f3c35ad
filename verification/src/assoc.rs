//! First-match association lookup over sequences of key/value pairs, keyed by
//! byte strings.  Both the namespace table and the scalar-cell table of the
//! store are specified through these functions.

use vstd::prelude::*;

verus! {

/// The value paired with the first occurrence of `key`, if any.
pub open spec fn assoc<V>(s: Seq<(Seq<u8>, V)>, key: Seq<u8>) -> Option<V>
    decreases s.len(),
{
    if s.len() == 0 {
        None
    } else if s.first().0 == key {
        Some(s.first().1)
    } else {
        assoc(s.drop_first(), key)
    }
}

/// No two pairs of `s` share a key.
pub open spec fn distinct_keys<V>(s: Seq<(Seq<u8>, V)>) -> bool {
    forall|i: int, j: int| 0 <= i < j < s.len() ==> s[i].0 != s[j].0
}

/// `assoc` misses exactly when no pair of `s` carries the key.
pub proof fn lemma_assoc_none<V>(s: Seq<(Seq<u8>, V)>, key: Seq<u8>)
    ensures
        assoc(s, key) is None <==> (forall|i: int| 0 <= i < s.len() ==> s[i].0 != key),
    decreases s.len(),
{
    if s.len() > 0 {
        let t = s.drop_first();
        lemma_assoc_none(t, key);
        assert(forall|i: int| 0 <= i < t.len() ==> t[i] == s[i + 1]);
        if assoc(s, key) is None {
            assert(forall|i: int| 0 <= i < s.len() ==> s[i].0 != key) by {
                assert(forall|i: int| 1 <= i < s.len() ==> s[i] == t[i - 1]);
            }
        } else {
            if s.first().0 != key {
                let i = choose|i: int| 0 <= i < t.len() && t[i].0 == key;
                assert(s[i + 1].0 == key);
            }
        }
    }
}

/// A pair at `i` whose key has no earlier occurrence is the one `assoc` finds.
pub proof fn lemma_assoc_at<V>(s: Seq<(Seq<u8>, V)>, key: Seq<u8>, i: int)
    requires
        0 <= i < s.len(),
        s[i].0 == key,
        forall|j: int| 0 <= j < i ==> s[j].0 != key,
    ensures
        assoc(s, key) == Some(s[i].1),
    decreases i,
{
    if i > 0 {
        assert(forall|j: int|
            0 <= j < s.drop_first().len() ==> s.drop_first()[j] == s[j + 1]);
        lemma_assoc_at(s.drop_first(), key, i - 1);
    }
}

/// With distinct keys, any pair carrying the key is the one `assoc` finds.
pub proof fn lemma_assoc_unique<V>(s: Seq<(Seq<u8>, V)>, key: Seq<u8>, i: int)
    requires
        distinct_keys(s),
        0 <= i < s.len(),
        s[i].0 == key,
    ensures
        assoc(s, key) == Some(s[i].1),
{
    lemma_assoc_at(s, key, i);
}

/// Appending a pair under a fresh key binds that key and leaves every other
/// key's binding unchanged.
pub proof fn lemma_assoc_push_fresh<V>(m0: Seq<(Seq<u8>, V)>, m1: Seq<(Seq<u8>, V)>, p: (Seq<u8>, V))
    requires
        distinct_keys(m0),
        m1 == m0.push(p),
        forall|j: int| 0 <= j < m0.len() ==> m0[j].0 != p.0,
    ensures
        distinct_keys(m1),
        assoc(m1, p.0) == Some(p.1),
        forall|k: Seq<u8>| k != p.0 ==> assoc(m1, k) == assoc(m0, k),
{
    assert(forall|j: int| 0 <= j < m0.len() ==> m1[j] == m0[j]);
    assert(m1[m0.len() as int] == p);
    lemma_assoc_at(m1, p.0, m0.len() as int);
    assert forall|k: Seq<u8>| k != p.0 implies assoc(m1, k) == assoc(m0, k) by {
        lemma_assoc_none(m0, k);
        lemma_assoc_none(m1, k);
        if assoc(m0, k) is None {
            assert(forall|j: int| 0 <= j < m1.len() ==> m1[j].0 != k);
        } else {
            let j = choose|j: int| 0 <= j < m0.len() && m0[j].0 == k;
            lemma_assoc_unique(m0, k, j);
            lemma_assoc_unique(m1, k, j);
        }
    }
}

/// Removing the pair at `i` unbinds its key and leaves every other key's
/// binding unchanged.
pub proof fn lemma_assoc_remove<V>(m0: Seq<(Seq<u8>, V)>, m1: Seq<(Seq<u8>, V)>, i: int)
    requires
        distinct_keys(m0),
        0 <= i < m0.len(),
        m1 == m0.remove(i),
    ensures
        distinct_keys(m1),
        assoc(m1, m0[i].0) is None,
        forall|k: Seq<u8>| k != m0[i].0 ==> assoc(m1, k) == assoc(m0, k),
{
    m0.remove_ensures(i);
    assert(forall|j: int| 0 <= j < i ==> m1[j] == m0[j]);
    assert(forall|j: int| i <= j < m1.len() ==> m1[j] == m0[j + 1]);
    assert(forall|j: int| 0 <= j < m1.len() ==> m1[j].0 != m0[i].0);
    lemma_assoc_none(m1, m0[i].0);
    assert forall|k: Seq<u8>| k != m0[i].0 implies assoc(m1, k) == assoc(m0, k) by {
        lemma_assoc_none(m0, k);
        lemma_assoc_none(m1, k);
        if assoc(m0, k) is None {
            assert(forall|j: int| 0 <= j < m1.len() ==> m1[j].0 != k);
        } else {
            let j = choose|j: int| 0 <= j < m0.len() && m0[j].0 == k;
            lemma_assoc_unique(m0, k, j);
            if j < i {
                lemma_assoc_unique(m1, k, j);
            } else {
                lemma_assoc_unique(m1, k, j - 1);
            }
        }
    }
}

} // verus!
