//! Association lists with first-match lookup.
//!
//! The store keeps its record spaces as vectors of key/value pairs so that
//! iteration is deterministic on every node. Lookup is specified by
//! [`assoc_find`]; the numeric-keyed maps additionally keep their keys
//! strictly increasing, which makes enumeration order canonical.

use vstd::prelude::*;

verus! {

/// The value bound to `key`: the first pair with that key, if any.
pub open spec fn assoc_find<K, V>(s: Seq<(K, V)>, key: K) -> Option<V>
    decreases s.len(),
{
    if s.len() == 0 {
        None
    } else if s[0].0 == key {
        Some(s[0].1)
    } else {
        assoc_find(s.drop_first(), key)
    }
}

/// No two pairs share a key.
pub open spec fn assoc_unique<K, V>(s: Seq<(K, V)>) -> bool {
    forall|i: int, j: int| 0 <= i < j < s.len() ==> s[i].0 != s[j].0
}

/// Keys are strictly increasing.
pub open spec fn keys_sorted<V>(s: Seq<(u64, V)>) -> bool {
    forall|i: int, j: int| 0 <= i < j < s.len() ==> s[i].0 < s[j].0
}

/// Strictly increasing keys are pairwise distinct.
pub proof fn lemma_sorted_implies_unique<V>(s: Seq<(u64, V)>)
    requires
        keys_sorted(s),
    ensures
        assoc_unique(s),
{
}

/// A key bound nowhere is not found.
pub proof fn lemma_find_absent<K, V>(s: Seq<(K, V)>, key: K)
    requires
        forall|j: int| 0 <= j < s.len() ==> s[j].0 != key,
    ensures
        assoc_find(s, key) is None,
    decreases s.len(),
{
    if s.len() > 0 {
        lemma_find_absent(s.drop_first(), key);
    }
}

/// A first match at index `i` is what lookup returns.
pub proof fn lemma_find_at<K, V>(s: Seq<(K, V)>, key: K, i: int)
    requires
        0 <= i < s.len(),
        s[i].0 == key,
        forall|j: int| 0 <= j < i ==> s[j].0 != key,
    ensures
        assoc_find(s, key) == Some(s[i].1),
    decreases i,
{
    if i > 0 {
        lemma_find_at(s.drop_first(), key, i - 1);
    }
}

/// Any match at all means lookup succeeds.
pub proof fn lemma_find_present<K, V>(s: Seq<(K, V)>, key: K, i: int)
    requires
        0 <= i < s.len(),
        s[i].0 == key,
    ensures
        assoc_find(s, key) is Some,
    decreases i,
{
    if s[0].0 != key {
        lemma_find_present(s.drop_first(), key, i - 1);
    }
}

/// A successful lookup points at an element of the list.
pub proof fn lemma_find_some_implies_at<K, V>(s: Seq<(K, V)>, key: K)
    requires
        assoc_find(s, key) is Some,
    ensures
        exists|i: int| 0 <= i < s.len() && #[trigger] s[i] == (key, assoc_find(s, key)->Some_0),
    decreases s.len(),
{
    if s[0].0 == key {
        assert(s[0] == (key, assoc_find(s, key)->Some_0));
    } else {
        lemma_find_some_implies_at(s.drop_first(), key);
        let i = choose|i: int|
            0 <= i < s.drop_first().len() && #[trigger] s.drop_first()[i] == (
            key,
            assoc_find(s.drop_first(), key)->Some_0,
        );
        assert(s[i + 1] == (key, assoc_find(s, key)->Some_0));
    }
}

/// Lookup agrees on two lists with the same keys whose values differ only
/// at keys other than `key`.
pub proof fn lemma_find_agree<K, V>(s: Seq<(K, V)>, t: Seq<(K, V)>, key: K)
    requires
        s.len() == t.len(),
        forall|j: int| 0 <= j < s.len() ==> s[j].0 == t[j].0,
        forall|j: int| 0 <= j < s.len() && s[j].0 == key ==> s[j].1 == t[j].1,
    ensures
        assoc_find(s, key) == assoc_find(t, key),
    decreases s.len(),
{
    if s.len() > 0 {
        assert(forall|j: int|
            0 <= j < s.drop_first().len() ==> s.drop_first()[j].0 == t.drop_first()[j].0 && (
            s.drop_first()[j].0 == key ==> s.drop_first()[j].1 == t.drop_first()[j].1));
        lemma_find_agree(s.drop_first(), t.drop_first(), key);
    }
}

/// Appending a pair changes lookup only for its key, and only when that
/// key was absent before.
pub proof fn lemma_find_push<K, V>(s: Seq<(K, V)>, key: K, k: K, v: V)
    ensures
        assoc_find(s.push((k, v)), key) == (if assoc_find(s, key) is Some {
            assoc_find(s, key)
        } else if key == k {
            Some(v)
        } else {
            None
        }),
    decreases s.len(),
{
    if s.len() == 0 {
        assert(s.push((k, v)).drop_first() =~= s);
    } else {
        assert(s.push((k, v)).drop_first() =~= s.drop_first().push((k, v)));
        lemma_find_push(s.drop_first(), key, k, v);
    }
}

/// Inserting a pair with a fresh key changes lookup only for that key.
pub proof fn lemma_find_insert<K, V>(s: Seq<(K, V)>, i: int, k: K, v: V, key: K)
    requires
        0 <= i <= s.len(),
        forall|j: int| 0 <= j < s.len() ==> s[j].0 != k,
    ensures
        assoc_find(s.insert(i, (k, v)), key) == (if key == k {
            Some(v)
        } else {
            assoc_find(s, key)
        }),
    decreases s.len(),
{
    let t = s.insert(i, (k, v));
    if i == 0 {
        assert(t[0] == (k, v));
        assert(t.drop_first() =~= s);
    } else {
        assert(t[0] == s[0]);
        assert(t.drop_first() =~= s.drop_first().insert(i - 1, (k, v)));
        lemma_find_insert(s.drop_first(), i - 1, k, v, key);
    }
}

/// Replacing the value at index `i` changes lookup only for that key, as
/// long as keys are unique.
pub proof fn lemma_find_update<K, V>(s: Seq<(K, V)>, i: int, v: V, key: K)
    requires
        0 <= i < s.len(),
        assoc_unique(s),
    ensures
        assoc_find(s.update(i, (s[i].0, v)), key) == (if key == s[i].0 {
            Some(v)
        } else {
            assoc_find(s, key)
        }),
{
    let t = s.update(i, (s[i].0, v));
    if key == s[i].0 {
        lemma_find_at(t, key, i);
    } else {
        lemma_find_agree(s, t, key);
    }
}

/// Removing the pair at index `i` unbinds exactly its key, as long as
/// keys are unique.
pub proof fn lemma_find_remove<K, V>(s: Seq<(K, V)>, i: int, key: K)
    requires
        0 <= i < s.len(),
        assoc_unique(s),
    ensures
        assoc_find(s.remove(i), key) == (if key == s[i].0 {
            None::<V>
        } else {
            assoc_find(s, key)
        }),
    decreases s.len(),
{
    let t = s.remove(i);
    if i == 0 {
        assert(t =~= s.drop_first());
        if key == s[0].0 {
            assert(forall|j: int| 0 <= j < t.len() ==> t[j].0 != key);
            lemma_find_absent(t, key);
        }
    } else {
        assert(t[0] == s[0]);
        assert(t.drop_first() =~= s.drop_first().remove(i - 1));
        lemma_find_remove(s.drop_first(), i - 1, key);
    }
}

/// In a sorted list, each pair is what lookup of its own key finds.
pub proof fn lemma_sorted_find_at<V>(s: Seq<(u64, V)>, i: int)
    requires
        keys_sorted(s),
        0 <= i < s.len(),
    ensures
        assoc_find(s, s[i].0) == Some(s[i].1),
{
    lemma_find_at(s, s[i].0, i);
}

/// Finds the index of `key` in a numeric-keyed list.
pub fn map_index_of<V>(m: &Vec<(u64, V)>, key: u64) -> (r: Option<usize>)
    ensures
        match r {
            Some(i) => i < m@.len() && m@[i as int].0 == key && assoc_find(m@, key) == Some(
                m@[i as int].1,
            ),
            None => assoc_find(m@, key) is None,
        },
{
    let mut i: usize = 0;
    while i < m.len()
        invariant
            i <= m@.len(),
            forall|j: int| 0 <= j < i ==> m@[j].0 != key,
        decreases m@.len() - i,
    {
        if m[i].0 == key {
            proof {
                lemma_find_at(m@, key, i as int);
            }
            return Some(i);
        }
        i = i + 1;
    }
    proof {
        lemma_find_absent(m@, key);
    }
    None
}

/// Borrows the value bound to `key` in a numeric-keyed list.
pub fn map_get_ref<'a, V>(m: &'a Vec<(u64, V)>, key: u64) -> (r: Option<&'a V>)
    ensures
        match r {
            Some(v) => assoc_find(m@, key) == Some(*v),
            None => assoc_find(m@, key) is None,
        },
{
    match map_index_of(m, key) {
        Some(i) => Some(&m[i].1),
        None => None,
    }
}

/// Binds `key` to `value` in a sorted numeric-keyed list, replacing any
/// previous binding and keeping the keys sorted.
pub fn map_set<V>(m: &mut Vec<(u64, V)>, key: u64, value: V)
    requires
        keys_sorted(old(m)@),
    ensures
        keys_sorted(final(m)@),
        forall|k2: u64| #![trigger assoc_find(final(m)@, k2)]
            assoc_find(final(m)@, k2) == (if k2 == key {
                Some(value)
            } else {
                assoc_find(old(m)@, k2)
            }),
{
    proof {
        lemma_sorted_implies_unique(old(m)@);
    }
    let mut i: usize = 0;
    while i < m.len() && m[i].0 < key
        invariant
            i <= m@.len(),
            m@ == old(m)@,
            forall|j: int| 0 <= j < i ==> m@[j].0 < key,
        decreases m@.len() - i,
    {
        i = i + 1;
    }
    if i < m.len() && m[i].0 == key {
        m[i] = (key, value);
        assert forall|k2: u64| #![trigger assoc_find(m@, k2)]
            assoc_find(m@, k2) == (if k2 == key {
                Some(value)
            } else {
                assoc_find(old(m)@, k2)
            }) by {
            lemma_find_update(old(m)@, i as int, value, k2);
        }
        assert(keys_sorted(m@)) by {
            assert(forall|j: int| 0 <= j < m@.len() ==> m@[j].0 == old(m)@[j].0);
        }
    } else {
        assert(forall|j: int| 0 <= j < m@.len() ==> m@[j].0 != key) by {
            assert(forall|j: int| i <= j < m@.len() ==> m@[j].0 >= key && m@[j].0 != key);
        }
        let ghost s0 = m@;
        m.insert(i, (key, value));
        assert forall|k2: u64| #![trigger assoc_find(m@, k2)]
            assoc_find(m@, k2) == (if k2 == key {
                Some(value)
            } else {
                assoc_find(old(m)@, k2)
            }) by {
            lemma_find_insert(s0, i as int, key, value, k2);
        }
        assert(keys_sorted(m@)) by {
            assert(forall|j: int| 0 <= j < i ==> m@[j] == s0[j]);
            assert(forall|j: int| i < j < m@.len() ==> m@[j] == s0[j - 1]);
            assert(forall|j: int| i < j < m@.len() ==> m@[j].0 > key);
        }
    }
}

/// Copies a vector of plainly copyable elements.
pub fn copy_vec<T: Copy>(v: &Vec<T>) -> (r: Vec<T>)
    ensures
        r@ == v@,
{
    let mut r: Vec<T> = Vec::new();
    let mut i: usize = 0;
    while i < v.len()
        invariant
            i <= v@.len(),
            r@ == v@.take(i as int),
        decreases v@.len() - i,
    {
        r.push(v[i]);
        assert(r@ =~= v@.take(i + 1 as int));
        i = i + 1;
    }
    assert(r@ =~= v@);
    r
}

} // verus!
