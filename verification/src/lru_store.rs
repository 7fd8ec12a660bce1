//! The trusted boundary around the `lru` crate's `LruCache<String, u8>`.
//!
//! Nothing in this file is proved. Each wrapper states what the crate's
//! source shows of the method it calls; the rest of the library is verified
//! against these statements.

use crate::recency::{lookup, promoted, stored};
use lru::LruCache;
use std::num::NonZeroUsize;
use vstd::prelude::*;

verus! {

/// `lru::LruCache`, which Verus does not look into.
#[verifier::external_type_specification]
#[verifier::external_body]
#[verifier::reject_recursive_types(K)]
#[verifier::reject_recursive_types(V)]
#[verifier::reject_recursive_types(S)]
pub struct ExLruCache<K, V, S>(LruCache<K, V, S>);

/// `lru::DefaultHasher`, the hasher of a cache made by `LruCache::new`.
#[verifier::external_type_specification]
#[verifier::external_body]
pub struct ExLruHasher(lru::DefaultHasher);

/// The entries that a cache holds, most recently used first: the order in
/// which `LruCache::iter` visits them. A key is given by its characters.
pub uninterp spec fn lru_entries(cache: LruCache<String, u8>) -> Seq<(Seq<char>, u8)>;

/// The number of entries that a cache was made to hold (`LruCache::cap`).
pub uninterp spec fn lru_limit(cache: LruCache<String, u8>) -> nat;

/// `LruCache::new`: an empty cache for at most `limit` entries.
///
/// The upper bound on `limit` keeps the table that the cache allocates at
/// once clear of the sizes on which `HashMap::with_capacity` panics.
#[verifier::external_body]
pub(crate) fn lru_new(limit: usize) -> (cache: LruCache<String, u8>)
    requires
        0 < limit <= 0xFFFF,
    ensures
        lru_entries(cache) == Seq::<(Seq<char>, u8)>::empty(),
        lru_limit(cache) == limit,
{
    LruCache::new(NonZeroUsize::new(limit).unwrap())
}

/// `LruCache::len`: the number of entries.
#[verifier::external_body]
pub(crate) fn lru_len(cache: &LruCache<String, u8>) -> (n: usize)
    ensures
        n == lru_entries(*cache).len(),
{
    cache.len()
}

/// `LruCache::get`: the value under `key`, if the cache has one, copied out.
/// An entry that is found becomes the most recently used; the others keep
/// their order, and the limit stays.
#[verifier::external_body]
pub(crate) fn lru_get(cache: &mut LruCache<String, u8>, key: &str) -> (found: Option<u8>)
    ensures
        found == lookup(lru_entries(*old(cache)), key@),
        lru_entries(*final(cache)) == promoted(lru_entries(*old(cache)), key@),
        lru_limit(*final(cache)) == lru_limit(*old(cache)),
{
    cache.get(key).copied()
}

/// `LruCache::put`: stores `value` under `key` as the most recently used
/// entry and returns the value that the key had. Where the key is new and
/// the cache holds as many entries as its limit, the least recently used
/// entry leaves. The limit stays.
#[verifier::external_body]
pub(crate) fn lru_put(cache: &mut LruCache<String, u8>, key: String, value: u8) -> (previous:
    Option<u8>)
    ensures
        previous == lookup(lru_entries(*old(cache)), key@),
        lru_entries(*final(cache)) == stored(
            lru_entries(*old(cache)),
            lru_limit(*old(cache)),
            key@,
            value,
        ),
        lru_limit(*final(cache)) == lru_limit(*old(cache)),
{
    cache.put(key, value)
}

} // verus!
