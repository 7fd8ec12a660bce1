//! A least-recently-used store as a mathematical object.
//!
//! The store is a sequence of `(key, value)` entries, most recently used
//! first. Looking a key up moves its entry to the front; storing under a new
//! key in a full store drops the last entry, the one that has gone unused
//! for longest.

use vstd::prelude::*;

verus! {

/// The index of the first entry under `key`, if there is one.
pub open spec fn position<K, V>(entries: Seq<(K, V)>, key: K) -> Option<int>
    decreases entries.len(),
{
    if entries.len() == 0 {
        None
    } else if entries.first().0 == key {
        Some(0)
    } else {
        match position(entries.drop_first(), key) {
            Some(i) => Some(i + 1),
            None => None,
        }
    }
}

/// The value kept under `key`, if there is one.
pub open spec fn lookup<K, V>(entries: Seq<(K, V)>, key: K) -> Option<V> {
    match position(entries, key) {
        Some(i) => Some(entries[i].1),
        None => None,
    }
}

/// The entries after `key` was used: its entry, if there is one, has moved
/// to the front, and the others keep their order.
pub open spec fn promoted<K, V>(entries: Seq<(K, V)>, key: K) -> Seq<(K, V)> {
    match position(entries, key) {
        Some(i) => seq![entries[i]] + entries.remove(i),
        None => entries,
    }
}

/// The entries after `value` was stored under `key` in a store made for
/// `limit` entries. The new entry stands at the front. It replaces the entry
/// that `key` had; where `key` had none and the store is full, the last
/// entry is dropped.
pub open spec fn stored<K, V>(entries: Seq<(K, V)>, limit: nat, key: K, value: V) -> Seq<(K, V)>
    recommends
        limit > 0,
{
    match position(entries, key) {
        Some(i) => seq![(key, value)] + entries.remove(i),
        None => if entries.len() == limit {
            seq![(key, value)] + entries.drop_last()
        } else {
            seq![(key, value)] + entries
        },
    }
}

/// Storing under `key` drops the last entry: the key is new and the store is
/// full.
pub open spec fn evicts<K, V>(entries: Seq<(K, V)>, limit: nat, key: K) -> bool {
    lookup(entries, key) is None && entries.len() == limit
}

/// No two entries share a key.
pub open spec fn distinct_keys<K, V>(entries: Seq<(K, V)>) -> bool {
    forall|i: int, j: int|
        0 <= i < entries.len() && 0 <= j < entries.len() && i != j ==> entries[i].0 != entries[j].0
}

/// The entries with each value replaced by its image under `f`.
pub open spec fn with_values<K, V, W>(entries: Seq<(K, V)>, f: spec_fn(V) -> W) -> Seq<(K, W)> {
    Seq::new(entries.len(), |i: int| (entries[i].0, f(entries[i].1)))
}

/// `position` finds the first entry under the key, and finds none only
/// where no entry has it.
pub proof fn lemma_position<K, V>(entries: Seq<(K, V)>, key: K)
    ensures
        match position(entries, key) {
            Some(i) => {
                &&& 0 <= i < entries.len()
                &&& entries[i].0 == key
                &&& forall|j: int| 0 <= j < i ==> entries[j].0 != key
            },
            None => forall|j: int| 0 <= j < entries.len() ==> entries[j].0 != key,
        },
    decreases entries.len(),
{
    if entries.len() > 0 && entries.first().0 != key {
        let rest = entries.drop_first();
        lemma_position(rest, key);
        match position(rest, key) {
            Some(i) => {
                assert forall|j: int| 0 <= j < i + 1 implies entries[j].0 != key by {
                    if j > 0 {
                        assert(entries[j] == rest[j - 1]);
                    }
                }
            },
            None => {
                assert forall|j: int| 0 <= j < entries.len() implies entries[j].0 != key by {
                    if j > 0 {
                        assert(entries[j] == rest[j - 1]);
                    }
                }
            },
        }
    }
}

/// Where keys are distinct, the entry under a key stands at its position.
pub proof fn lemma_position_of_entry<K, V>(entries: Seq<(K, V)>, i: int)
    requires
        0 <= i < entries.len(),
        distinct_keys(entries),
    ensures
        position(entries, entries[i].0) == Some(i),
        lookup(entries, entries[i].0) == Some(entries[i].1),
{
    lemma_position(entries, entries[i].0);
}

/// Whether a key is found does not depend on the values.
pub proof fn lemma_position_with_values<K, V, W>(entries: Seq<(K, V)>, f: spec_fn(V) -> W, key: K)
    ensures
        position(with_values(entries, f), key) == position(entries, key),
{
    let mapped = with_values(entries, f);
    lemma_position(entries, key);
    lemma_position(mapped, key);
    match position(entries, key) {
        Some(i) => {
            assert(mapped[i].0 == key);
            match position(mapped, key) {
                Some(j) => {
                    assert(entries[j].0 == mapped[j].0);
                },
                None => {},
            }
        },
        None => {
            match position(mapped, key) {
                Some(j) => {
                    assert(entries[j].0 == mapped[j].0);
                },
                None => {},
            }
        },
    }
}

/// Looking up, promoting and storing act on the values through `f` as they
/// act on the values themselves.
pub proof fn lemma_with_values<K, V, W>(
    entries: Seq<(K, V)>,
    f: spec_fn(V) -> W,
    limit: nat,
    key: K,
    value: V,
)
    requires
        limit > 0,
    ensures
        lookup(with_values(entries, f), key) == match lookup(entries, key) {
            Some(v) => Some(f(v)),
            None => None,
        },
        promoted(with_values(entries, f), key) == with_values(promoted(entries, key), f),
        stored(with_values(entries, f), limit, key, f(value)) == with_values(
            stored(entries, limit, key, value),
            f,
        ),
{
    lemma_position_with_values(entries, f, key);
    lemma_position(entries, key);
    assert(promoted(with_values(entries, f), key) =~= with_values(promoted(entries, key), f));
    let mapped = with_values(entries, f);
    let left = stored(mapped, limit, key, f(value));
    let right = with_values(stored(entries, limit, key, value), f);
    assert(left.len() == right.len());
    assert forall|a: int| 0 <= a < left.len() implies left[a] == right[a] by {
        if a > 0 {
            match position(entries, key) {
                Some(i) => {
                    assert(left[a] == mapped.remove(i)[a - 1]);
                    assert(stored(entries, limit, key, value)[a] == entries.remove(i)[a - 1]);
                },
                None => {
                    if entries.len() == limit {
                        assert(left[a] == mapped.drop_last()[a - 1]);
                        assert(stored(entries, limit, key, value)[a] == entries.drop_last()[a - 1]);
                    } else {
                        assert(left[a] == mapped[a - 1]);
                        assert(stored(entries, limit, key, value)[a] == entries[a - 1]);
                    }
                },
            }
        }
    }
    assert(left =~= right);
}

/// Promoting a key keeps the entries distinct, keeps their number, and
/// changes no value that a lookup finds.
pub proof fn lemma_promoted<K, V>(entries: Seq<(K, V)>, key: K)
    requires
        distinct_keys(entries),
    ensures
        distinct_keys(promoted(entries, key)),
        promoted(entries, key).len() == entries.len(),
        forall|other: K| lookup(promoted(entries, key), other) == lookup(entries, other),
        lookup(entries, key) is Some ==> promoted(entries, key).first().0 == key,
{
    lemma_position(entries, key);
    let after = promoted(entries, key);
    match position(entries, key) {
        Some(i) => {
            assert forall|a: int| 0 <= a < after.len() implies after[a] == entries[source_index(
                i,
                a,
            )] by {}
            assert forall|other: K| lookup(after, other) == lookup(entries, other) by {
                lemma_position(entries, other);
                lemma_position(after, other);
                match position(entries, other) {
                    Some(p) => {
                        let a = if p == i {
                            0
                        } else if p < i {
                            p + 1
                        } else {
                            p
                        };
                        assert(after[a] == entries[p]);
                        lemma_position_of_entry(after, a);
                    },
                    None => {
                        match position(after, other) {
                            Some(a) => {
                                assert(after[a] == entries[source_index(i, a)]);
                            },
                            None => {},
                        }
                    },
                }
            }
        },
        None => {},
    }
}

/// Storing keeps the entries distinct and within the limit, and puts the
/// value under the key. A lookup under another key finds what it found
/// before, unless that key stood last in a full store and made room for a new
/// one: then it finds nothing.
pub proof fn lemma_stored<K, V>(entries: Seq<(K, V)>, limit: nat, key: K, value: V)
    requires
        distinct_keys(entries),
        entries.len() <= limit,
        limit > 0,
    ensures
        distinct_keys(stored(entries, limit, key, value)),
        stored(entries, limit, key, value).len() == if lookup(entries, key) is Some
            || entries.len() == limit {
            entries.len()
        } else {
            entries.len() + 1
        },
        stored(entries, limit, key, value).first() == (key, value),
        lookup(stored(entries, limit, key, value), key) == Some(value),
        forall|other: K|
            other != key ==> lookup(stored(entries, limit, key, value), other) == if evicts(
                entries,
                limit,
                key,
            ) && other == entries.last().0 {
                None
            } else {
                lookup(entries, other)
            },
{
    lemma_position(entries, key);
    let after = stored(entries, limit, key, value);
    let kept = match position(entries, key) {
        Some(i) => entries.remove(i),
        None => if entries.len() == limit {
            entries.drop_last()
        } else {
            entries
        },
    };
    assert(after =~= seq![(key, value)] + kept);
    assert forall|a: int| 0 < a < after.len() implies after[a] == entries[kept_index(
        position(entries, key),
        a,
    )] by {}
    lemma_position(after, key);
    assert forall|other: K| other != key implies lookup(after, other) == if evicts(
        entries,
        limit,
        key,
    ) && other == entries.last().0 {
        None
    } else {
        lookup(entries, other)
    } by {
        lemma_position(entries, other);
        lemma_position(after, other);
        match position(after, other) {
            Some(a) => {
                let p = kept_index(position(entries, key), a);
                assert(after[a] == entries[p]);
                lemma_position_of_entry(entries, p);
            },
            None => {
                match position(entries, other) {
                    Some(p) => {
                        if !(evicts(entries, limit, key) && p == entries.len() - 1) {
                            let a = match position(entries, key) {
                                Some(i) => if p < i {
                                    p + 1
                                } else {
                                    p
                                },
                                None => p + 1,
                            };
                            assert(after[a] == entries[p]);
                        }
                    },
                    None => {},
                }
            },
        }
    }
}

/// Where a new entry was put in front of the others, and `replaced` tells
/// which entry left for it, the index that the entry now at `a > 0` had
/// before.
spec fn kept_index(replaced: Option<int>, a: int) -> int {
    match replaced {
        Some(i) => if a <= i {
            a - 1
        } else {
            a
        },
        None => a - 1,
    }
}

/// Where the entry at `i` has moved to the front, the index that the entry
/// now at `a` had before.
spec fn source_index(i: int, a: int) -> int {
    if a == 0 {
        i
    } else if a <= i {
        a - 1
    } else {
        a
    }
}

} // verus!
