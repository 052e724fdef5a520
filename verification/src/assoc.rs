//! Ordered string-keyed association sequences.
//!
//! Result rows, the pending-migration map and the pool registry all model
//! themselves as a sequence of key/value pairs with pairwise-distinct keys.
//! This module holds the spec-level vocabulary for such sequences, the lemmas
//! that the operations on them rely on, and the verified key search shared by
//! their implementations.

use vstd::prelude::*;

verus! {

use vstd::string::StrSliceExecFns;

/// The keys of the pairs are pairwise distinct.
pub open spec fn unique_keys<V>(s: Seq<(Seq<char>, V)>) -> bool {
    forall|i: int, j: int| 0 <= i < j < s.len() ==> s[i].0 != s[j].0
}

/// Some pair carries this key.
pub open spec fn contains_key<V>(s: Seq<(Seq<char>, V)>, k: Seq<char>) -> bool {
    exists|i: int| 0 <= i < s.len() && s[i].0 == k
}

/// The position of the pair carrying this key; meaningful under
/// [`unique_keys`] when [`contains_key`] holds.
pub open spec fn key_index<V>(s: Seq<(Seq<char>, V)>, k: Seq<char>) -> int {
    choose|i: int| 0 <= i < s.len() && s[i].0 == k
}

/// The value at this key; meaningful under [`unique_keys`] when
/// [`contains_key`] holds.
pub open spec fn value_of<V>(s: Seq<(Seq<char>, V)>, k: Seq<char>) -> V {
    s[key_index(s, k)].1
}

/// The sequence after an insert-or-replace: a present key keeps its position
/// and gets the new value; an absent key is appended.
pub open spec fn insert_entry<V>(s: Seq<(Seq<char>, V)>, k: Seq<char>, v: V) -> Seq<
    (Seq<char>, V),
> {
    if contains_key(s, k) {
        s.update(key_index(s, k), (k, v))
    } else {
        s.push((k, v))
    }
}

/// The sequence after removing the pair at this key, if any.
pub open spec fn remove_entry<V>(s: Seq<(Seq<char>, V)>, k: Seq<char>) -> Seq<(Seq<char>, V)> {
    if contains_key(s, k) {
        s.remove(key_index(s, k))
    } else {
        s
    }
}

/// Under unique keys, any position whose key matches is the position
/// [`key_index`] picks.
pub proof fn lemma_key_index_unique<V>(s: Seq<(Seq<char>, V)>, k: Seq<char>, i: int)
    requires
        unique_keys(s),
        0 <= i < s.len(),
        s[i].0 == k,
    ensures
        key_index(s, k) == i,
        contains_key(s, k),
{
    assert(contains_key(s, k));
    let j = key_index(s, k);
    assert(0 <= j < s.len() && s[j].0 == k);
    if i < j {
        assert(s[i].0 != s[j].0);
    } else if j < i {
        assert(s[j].0 != s[i].0);
    }
}

/// Insert-or-replace keeps the keys pairwise distinct, binds the inserted key
/// to the inserted value, and leaves every other key bound as before.
pub proof fn lemma_insert_entry<V>(s: Seq<(Seq<char>, V)>, k: Seq<char>, v: V)
    requires
        unique_keys(s),
    ensures
        unique_keys(insert_entry(s, k, v)),
        contains_key(insert_entry(s, k, v), k),
        value_of(insert_entry(s, k, v), k) == v,
        forall|k2: Seq<char>| k2 != k ==> (#[trigger] contains_key(insert_entry(s, k, v), k2)
            <==> contains_key(s, k2)),
        forall|k2: Seq<char>|
            k2 != k && contains_key(s, k2) ==> #[trigger] value_of(insert_entry(s, k, v), k2)
                == value_of(s, k2),
{
    let t = insert_entry(s, k, v);
    if contains_key(s, k) {
        let j = key_index(s, k);
        assert(0 <= j < s.len() && s[j].0 == k);
        assert(forall|i: int| 0 <= i < t.len() ==> t[i].0 == s[i].0);
        assert(unique_keys(t));
        lemma_key_index_unique(t, k, j);
        assert(value_of(t, k) == v);
        assert forall|k2: Seq<char>| k2 != k implies (#[trigger] contains_key(t, k2)
            <==> contains_key(s, k2)) by {
            if contains_key(t, k2) {
                let i = choose|i: int| 0 <= i < t.len() && t[i].0 == k2;
                assert(s[i].0 == k2);
            }
            if contains_key(s, k2) {
                let i = choose|i: int| 0 <= i < s.len() && s[i].0 == k2;
                assert(t[i].0 == k2);
            }
        }
        assert forall|k2: Seq<char>| k2 != k && contains_key(s, k2) implies #[trigger] value_of(
            t,
            k2,
        ) == value_of(s, k2) by {
            let i = key_index(s, k2);
            assert(0 <= i < s.len() && s[i].0 == k2);
            assert(i != j);
            assert(t[i].0 == k2);
            lemma_key_index_unique(t, k2, i);
        }
    } else {
        assert(t == s.push((k, v)));
        assert(t[s.len() as int].0 == k);
        assert forall|i: int, j2: int| 0 <= i < j2 < t.len() implies t[i].0 != t[j2].0 by {
            if j2 == s.len() {
                assert(t[i].0 == s[i].0);
                if t[i].0 == k {
                    assert(contains_key(s, k));
                }
            } else {
                assert(t[i].0 == s[i].0 && t[j2].0 == s[j2].0);
            }
        }
        lemma_key_index_unique(t, k, s.len() as int);
        assert forall|k2: Seq<char>| k2 != k implies (#[trigger] contains_key(t, k2)
            <==> contains_key(s, k2)) by {
            if contains_key(t, k2) {
                let i = choose|i: int| 0 <= i < t.len() && t[i].0 == k2;
                assert(i != s.len());
                assert(s[i].0 == k2);
            }
            if contains_key(s, k2) {
                let i = choose|i: int| 0 <= i < s.len() && s[i].0 == k2;
                assert(t[i].0 == k2);
            }
        }
        assert forall|k2: Seq<char>| k2 != k && contains_key(s, k2) implies #[trigger] value_of(
            t,
            k2,
        ) == value_of(s, k2) by {
            let i = key_index(s, k2);
            assert(0 <= i < s.len() && s[i].0 == k2);
            assert(t[i].0 == k2);
            lemma_key_index_unique(t, k2, i);
        }
    }
}

/// Removal keeps the keys pairwise distinct, leaves the removed key absent,
/// and leaves every other key bound as before.
pub proof fn lemma_remove_entry<V>(s: Seq<(Seq<char>, V)>, k: Seq<char>)
    requires
        unique_keys(s),
    ensures
        unique_keys(remove_entry(s, k)),
        !contains_key(remove_entry(s, k), k),
        forall|k2: Seq<char>| k2 != k ==> (#[trigger] contains_key(remove_entry(s, k), k2)
            <==> contains_key(s, k2)),
        forall|k2: Seq<char>|
            k2 != k && contains_key(s, k2) ==> #[trigger] value_of(remove_entry(s, k), k2)
                == value_of(s, k2),
{
    let t = remove_entry(s, k);
    if contains_key(s, k) {
        let j = key_index(s, k);
        assert(0 <= j < s.len() && s[j].0 == k);
        assert(t == s.remove(j));
        assert(forall|i: int| 0 <= i < j ==> t[i] == s[i]);
        assert(forall|i: int| j <= i < t.len() ==> t[i] == s[i + 1]);
        assert forall|i: int, j2: int| 0 <= i < j2 < t.len() implies t[i].0 != t[j2].0 by {
            let oi: int = if i < j { i } else { i + 1 };
            let oj: int = if j2 < j { j2 } else { j2 + 1 };
            assert(t[i] == s[oi] && t[j2] == s[oj]);
            assert(oi < oj);
        }
        assert forall|i: int| 0 <= i < t.len() implies t[i].0 != k by {
            let oi: int = if i < j { i } else { i + 1 };
            assert(t[i] == s[oi]);
            assert(oi != j);
            if oi < j {
                assert(s[oi].0 != s[j].0);
            } else {
                assert(s[j].0 != s[oi].0);
            }
        }
        assert forall|k2: Seq<char>| k2 != k implies (#[trigger] contains_key(t, k2)
            <==> contains_key(s, k2)) by {
            if contains_key(t, k2) {
                let i = choose|i: int| 0 <= i < t.len() && t[i].0 == k2;
                let oi: int = if i < j { i } else { i + 1 };
                assert(s[oi].0 == k2);
            }
            if contains_key(s, k2) {
                let oi = choose|i: int| 0 <= i < s.len() && s[i].0 == k2;
                assert(oi != j);
                let i: int = if oi < j { oi } else { oi - 1 };
                assert(t[i].0 == k2);
            }
        }
        assert forall|k2: Seq<char>| k2 != k && contains_key(s, k2) implies #[trigger] value_of(
            t,
            k2,
        ) == value_of(s, k2) by {
            let oi = key_index(s, k2);
            assert(0 <= oi < s.len() && s[oi].0 == k2);
            assert(oi != j);
            let i: int = if oi < j { oi } else { oi - 1 };
            assert(t[i] == s[oi]);
            lemma_key_index_unique(t, k2, i);
        }
    }
}

/// Whether two string slices spell the same characters.
pub fn str_eq(a: &str, b: &str) -> (r: bool)
    ensures
        r == (a@ == b@),
{
    let n = a.unicode_len();
    if n != b.unicode_len() {
        return false;
    }
    let mut i: usize = 0;
    while i < n
        invariant
            n == a@.len(),
            n == b@.len(),
            0 <= i <= n,
            forall|j: int| 0 <= j < i ==> a@[j] == b@[j],
        decreases n - i,
    {
        if a.get_char(i) != b.get_char(i) {
            return false;
        }
        i = i + 1;
    }
    proof {
        assert(a@ =~= b@);
    }
    true
}

/// The position of the first pair whose key spells this name, if any.
pub fn find_key<V>(entries: &Vec<(String, V)>, key: &str) -> (r: Option<usize>)
    ensures
        match r {
            Some(i) => i < entries@.len() && entries@[i as int].0@ == key@,
            None => forall|j: int| 0 <= j < entries@.len() ==> entries@[j].0@ != key@,
        },
{
    let mut i: usize = 0;
    while i < entries.len()
        invariant
            0 <= i <= entries@.len(),
            forall|j: int| 0 <= j < i ==> entries@[j].0@ != key@,
        decreases entries@.len() - i,
    {
        if str_eq(entries[i].0.as_str(), key) {
            return Some(i);
        }
        i = i + 1;
    }
    None
}

} // verus!
