//! Lists of values under text keys, read as maps: of several entries with
//! one key the first counts.

use crate::text::{chars_of, index_view, same};
use vstd::prelude::*;

verus! {

/// The index of the first entry under `key` at or after `from`.
pub open spec fn key_index_from<V>(entries: Seq<(String, V)>, key: Seq<char>, from: int) -> Option<
    int,
>
    decreases entries.len() - from,
{
    if from < 0 || from >= entries.len() {
        None
    } else if entries[from].0@ == key {
        Some(from)
    } else {
        key_index_from(entries, key, from + 1)
    }
}

/// The index of the first entry under `key`.
pub open spec fn key_index<V>(entries: Seq<(String, V)>, key: Seq<char>) -> Option<int> {
    key_index_from(entries, key, 0)
}

/// The value under `key`.
pub open spec fn value_of<V>(entries: Seq<(String, V)>, key: Seq<char>) -> Option<V> {
    match key_index(entries, key) {
        Some(i) => Some(entries[i].1),
        None => None,
    }
}

/// The entries as a map from key to value.
pub open spec fn as_map<V>(entries: Seq<(String, V)>) -> Map<Seq<char>, V> {
    Map::new(
        |key: Seq<char>| key_index(entries, key) is Some,
        |key: Seq<char>| entries[key_index(entries, key)->0].1,
    )
}

/// `key_index_from` returns the least index at or after `from` of an entry
/// under `key`.
pub proof fn lemma_key_index_from<V>(entries: Seq<(String, V)>, key: Seq<char>, from: int)
    requires
        0 <= from,
    ensures
        match key_index_from(entries, key, from) {
            Some(i) => {
                &&& from <= i < entries.len()
                &&& entries[i].0@ == key
                &&& forall|j: int| from <= j < i ==> entries[j].0@ != key
            },
            None => forall|j: int| from <= j < entries.len() ==> entries[j].0@ != key,
        },
    decreases entries.len() - from,
{
    if from >= entries.len() {
    } else if entries[from].0@ == key {
    } else {
        lemma_key_index_from(entries, key, from + 1);
    }
}

/// One more entry at the end counts only for a key that was not there.
pub proof fn lemma_key_index_push<V>(entries: Seq<(String, V)>, last: (String, V), key: Seq<char>)
    ensures
        key_index(entries.push(last), key) == match key_index(entries, key) {
            Some(i) => Some(i),
            None => if last.0@ == key {
                Some(entries.len() as int)
            } else {
                None
            },
        },
{
    let longer = entries.push(last);
    lemma_key_index_from(entries, key, 0);
    lemma_key_index_from(longer, key, 0);
    assert forall|j: int| 0 <= j < entries.len() implies longer[j] == entries[j] by {}
    match key_index(entries, key) {
        Some(i) => {
            assert(longer[i].0@ == key);
        },
        None => {
            if last.0@ == key {
                assert(longer[entries.len() as int].0@ == key);
            }
        },
    }
}

/// The index of the first entry under `key`.
pub fn find_key<V>(entries: &Vec<(String, V)>, key: &str) -> (r: Option<usize>)
    ensures
        index_view(r) == key_index(entries@, key@),
        r matches Some(i) ==> i < entries.len(),
{
    let k = chars_of(key);
    let mut i: usize = 0;
    while i < entries.len()
        invariant
            i <= entries.len(),
            k@ == key@,
            key_index(entries@, key@) == key_index_from(entries@, key@, i as int),
        decreases entries.len() - i,
    {
        let name = chars_of(entries[i].0.as_str());
        if same(&name, &k) {
            return Some(i);
        }
        i = i + 1;
    }
    None
}

/// The value under `key`.
pub fn get<'a, V>(entries: &'a Vec<(String, V)>, key: &str) -> (r: Option<&'a V>)
    ensures
        (match r {
            Some(v) => Some(*v),
            None => None,
        }) == value_of(entries@, key@),
{
    match find_key(entries, key) {
        Some(i) => Some(&entries[i].1),
        None => None,
    }
}

/// Puts `value` under `key`, in place of the value that was there.
pub fn put<V>(entries: &mut Vec<(String, V)>, key: String, value: V)
    ensures
        as_map(final(entries)@) == as_map(old(entries)@).insert(key@, value),
        put_shape(
            old(entries)@,
            final(entries)@,
            key@,
            value,
            match key_index(old(entries)@, key@) {
                Some(i) => i,
                None => old(entries)@.len() as int,
            },
        ),
{
    let ghost before = entries@;
    let found = find_key(entries, key.as_str());
    proof {
        lemma_key_index_from(before, key@, 0);
    }
    match found {
        Some(i) => {
            let _ = entries.remove(i);
            entries.insert(i, (key, value));
            proof {
                let after = entries@;
                assert(after.len() == before.len());
                assert forall|j: int| 0 <= j < after.len() && j != i implies after[j]
                    == before[j] by {}
                assert(after[i as int] == (key, value));
                assert forall|n: Seq<char>| key_index(after, n) == key_index(before, n) by {
                    lemma_key_index_from(after, n, 0);
                    lemma_key_index_from(before, n, 0);
                    match key_index(before, n) {
                        Some(b) => {
                            assert(after[b].0@ == n);
                            match key_index(after, n) {
                                Some(a) => {
                                    if a < b {
                                        assert(before[a].0@ == n);
                                    }
                                },
                                None => {},
                            }
                        },
                        None => {
                            match key_index(after, n) {
                                Some(a) => {
                                    assert(before[a].0@ == n);
                                },
                                None => {},
                            }
                        },
                    }
                }
                let want = as_map(before).insert(key@, value);
                assert forall|n: Seq<char>| #[trigger]
                    as_map(after).dom().contains(n) == want.dom().contains(n) && (as_map(
                        after,
                    ).dom().contains(n) ==> as_map(after)[n] == want[n]) by {
                    assert(key_index(after, n) == key_index(before, n));
                    lemma_key_index_from(before, n, 0);
                    match key_index(before, n) {
                        Some(b) => {
                            if b != i {
                                assert(after[b] == before[b]);
                            }
                        },
                        None => {},
                    }
                }
                assert(as_map(after) =~= want);
            }
        },
        None => {
            entries.push((key, value));
            proof {
                let after = entries@;
                assert forall|n: Seq<char>|
                    key_index(after, n) == if n == key@ {
                        Some(before.len() as int)
                    } else {
                        key_index(before, n)
                    } by {
                    lemma_key_index_push(before, (key, value), n);
                }
                let want = as_map(before).insert(key@, value);
                assert forall|n: Seq<char>| #[trigger]
                    as_map(after).dom().contains(n) == want.dom().contains(n) && (as_map(
                        after,
                    ).dom().contains(n) ==> as_map(after)[n] == want[n]) by {
                    lemma_key_index_push(before, (key, value), n);
                    lemma_key_index_from(before, n, 0);
                    if n != key@ {
                        match key_index(before, n) {
                            Some(b) => {
                                assert(after[b] == before[b]);
                            },
                            None => {},
                        }
                    }
                }
                assert(as_map(after) =~= want);
            }
        },
    }
}


/// Two lists with the same keys in the same order find a key at the same index.
pub proof fn lemma_same_keys<V, W>(
    a: Seq<(String, V)>,
    b: Seq<(String, W)>,
    key: Seq<char>,
    from: int,
)
    requires
        0 <= from,
        a.len() == b.len(),
        forall|i: int| 0 <= i < a.len() ==> a[i].0@ == b[i].0@,
    ensures
        key_index_from(a, key, from) == key_index_from(b, key, from),
    decreases a.len() - from,
{
    if from < a.len() {
        if a[from].0@ != key {
            lemma_same_keys(a, b, key, from + 1);
        }
    }
}

/// No two entries share a key.
pub open spec fn distinct_keys<V>(entries: Seq<(String, V)>) -> bool {
    forall|i: int, j: int| 0 <= i < j < entries.len() ==> entries[i].0@ != entries[j].0@
}

/// Among distinct keys, the entry under a key is the one `key_index` returns.
pub proof fn lemma_key_index_distinct<V>(entries: Seq<(String, V)>, i: int)
    requires
        distinct_keys(entries),
        0 <= i < entries.len(),
    ensures
        key_index(entries, entries[i].0@) == Some(i),
{
    lemma_key_index_from(entries, entries[i].0@, 0);
}

/// Puts `value` under `key` as `put` does, keeping keys distinct.
pub fn put_distinct<V>(entries: &mut Vec<(String, V)>, key: String, value: V)
    requires
        distinct_keys(old(entries)@),
    ensures
        as_map(final(entries)@) == as_map(old(entries)@).insert(key@, value),
        distinct_keys(final(entries)@),
        put_shape(
            old(entries)@,
            final(entries)@,
            key@,
            value,
            match key_index(old(entries)@, key@) {
                Some(i) => i,
                None => old(entries)@.len() as int,
            },
        ),
{
    let ghost before = entries@;
    proof {
        lemma_key_index_from(before, key@, 0);
    }
    let found = find_key(entries, key.as_str());
    let ghost k = key@;
    let ghost hit: int = match found {
        Some(i) => i as int,
        None => before.len() as int,
    };
    put(entries, key, value);
    proof {
        let after = entries@;
        // `put` replaces in place or appends; either way the keys stay distinct
        assert(as_map(after) == as_map(before).insert(k, value));
        lemma_put_shape(before, after, k, value, hit);
    }
}

/// The shape that `put` leaves: the entry at `hit` holds the key and the
/// value, every other entry is as before.
pub open spec fn put_shape<V>(
    before: Seq<(String, V)>,
    after: Seq<(String, V)>,
    key: Seq<char>,
    value: V,
    hit: int,
) -> bool {
    &&& 0 <= hit <= before.len()
    &&& after.len() == if hit < before.len() {
        before.len()
    } else {
        before.len() + 1
    }
    &&& after[hit].0@ == key
    &&& after[hit].1 == value
    &&& forall|j: int| 0 <= j < before.len() && j != hit ==> after[j] == before[j]
    &&& hit < before.len() ==> before[hit].0@ == key
    &&& hit == before.len() ==> forall|j: int| 0 <= j < before.len() ==> before[j].0@ != key
}

proof fn lemma_put_shape<V>(
    before: Seq<(String, V)>,
    after: Seq<(String, V)>,
    key: Seq<char>,
    value: V,
    hit: int,
)
    requires
        put_shape(before, after, key, value, hit),
        distinct_keys(before),
    ensures
        distinct_keys(after),
{
    assert forall|i: int, j: int| 0 <= i < j < after.len() implies after[i].0@ != after[j].0@ by {
        if i == hit {
            if hit < before.len() {
                assert(after[j] == before[j]);
                assert(before[hit].0@ != before[j].0@);
            }
        } else if j == hit {
            assert(after[i] == before[i]);
            if hit < before.len() {
                assert(before[i].0@ != before[hit].0@);
            }
        } else {
            assert(after[i] == before[i] && after[j] == before[j]);
        }
    }
}

/// Every entry that `put` leaves is the new one or was there before.
pub proof fn lemma_put_entries<V>(
    before: Seq<(String, V)>,
    after: Seq<(String, V)>,
    key: Seq<char>,
    value: V,
    k: int,
)
    requires
        put_shape(
            before,
            after,
            key,
            value,
            match key_index(before, key) {
                Some(i) => i,
                None => before.len() as int,
            },
        ),
        0 <= k < after.len(),
    ensures
        after[k].1 == value || exists|j: int| 0 <= j < before.len() && before[j] == after[k],
{
    let hit = match key_index(before, key) {
        Some(i) => i,
        None => before.len() as int,
    };
    if k != hit {
        assert(before[k] == after[k]);
    }
}

/// The entries that `remove_key` leaves: those before, without the one
/// under the key, in their order.
pub open spec fn removed_shape<V>(
    before: Seq<(String, V)>,
    after: Seq<(String, V)>,
    key: Seq<char>,
) -> bool {
    match key_index(before, key) {
        Some(i) => after == before.remove(i),
        None => after == before,
    }
}

/// Every entry that `remove_key` leaves was there before.
pub proof fn lemma_removed_entries<V>(
    before: Seq<(String, V)>,
    after: Seq<(String, V)>,
    key: Seq<char>,
    k: int,
)
    requires
        removed_shape(before, after, key),
        0 <= k < after.len(),
    ensures
        exists|j: int| 0 <= j < before.len() && before[j] == after[k],
{
    lemma_key_index_from(before, key, 0);
    match key_index(before, key) {
        Some(i) => {
            let j = if k < i { k } else { k + 1 };
            assert(before[j] == after[k]);
        },
        None => {
            assert(before[k] == after[k]);
        },
    }
}

/// Takes the entry under `key` out; nothing happens if there is none.
pub fn remove_key<V>(entries: &mut Vec<(String, V)>, key: &str) -> (r: Option<V>)
    requires
        distinct_keys(old(entries)@),
    ensures
        as_map(final(entries)@) == as_map(old(entries)@).remove(key@),
        distinct_keys(final(entries)@),
        r == value_of(old(entries)@, key@),
        removed_shape(old(entries)@, final(entries)@, key@),
{
    let ghost before = entries@;
    proof {
        lemma_key_index_from(before, key@, 0);
    }
    match find_key(entries, key) {
        Some(i) => {
            let gone = entries.remove(i);
            proof {
                let after = entries@;
                assert forall|j: int| 0 <= j < after.len() implies after[j] == before[if j < i {
                    j
                } else {
                    j + 1
                }] by {}
                assert forall|a: int, b: int| 0 <= a < b < after.len() implies after[a].0@
                    != after[b].0@ by {
                    let a0 = if a < i { a } else { a + 1 };
                    let b0 = if b < i { b } else { b + 1 };
                    assert(after[a] == before[a0] && after[b] == before[b0]);
                }
                let want = as_map(before).remove(key@);
                assert forall|n: Seq<char>| #[trigger]
                    as_map(after).dom().contains(n) == want.dom().contains(n) && (as_map(
                        after,
                    ).dom().contains(n) ==> as_map(after)[n] == want[n]) by {
                    lemma_key_index_from(after, n, 0);
                    lemma_key_index_from(before, n, 0);
                    match key_index(after, n) {
                        Some(m) => {
                            let m0 = if m < i { m } else { m + 1 };
                            assert(after[m] == before[m0]);
                            lemma_key_index_distinct(before, m0);
                            if n == key@ {
                                let lo = if m0 < i { m0 } else { i as int };
                                let hi = if m0 < i { i as int } else { m0 };
                                assert(before[lo].0@ != before[hi].0@);
                            }
                        },
                        None => {
                            match key_index(before, n) {
                                Some(k) => {
                                    if k != i {
                                        let k2 = if k < i { k } else { k - 1 };
                                        assert(after[k2] == before[k]);
                                    }
                                },
                                None => {},
                            }
                        },
                    }
                }
                assert(as_map(after) =~= want);
            }
            Some(gone.1)
        },
        None => {
            assert(as_map(entries@) =~= as_map(before).remove(key@));
            None
        },
    }
}

} // verus!
