//! The method outcome cache: for each application, which way of reading the
//! selection last worked.

use crate::lru_store::{lru_entries, lru_get, lru_len, lru_limit, lru_new, lru_put};
use crate::recency::{
    distinct_keys, lemma_position_of_entry, lemma_promoted, lemma_stored, lemma_with_values,
    lookup, promoted, stored, with_values,
};
use lru::LruCache;
use vstd::prelude::*;

verus! {

/// The number of applications that the cache remembers.
pub const CAPACITY: usize = 100;

/// Which way of reading the selection last worked for an application.
#[derive(Clone, Copy, Debug, PartialEq, Eq, Structural)]
pub enum Outcome {
    PreferAccessibility,
    PreferClipboardScript,
}

/// The outcome that a stored tag stands for.
spec fn outcome_of_tag(tag: u8) -> Outcome {
    if tag == 0 {
        Outcome::PreferAccessibility
    } else {
        Outcome::PreferClipboardScript
    }
}

/// The tag under which the cache stores an outcome.
fn tag_of(outcome: Outcome) -> (tag: u8)
    ensures
        outcome_of_tag(tag) == outcome,
{
    match outcome {
        Outcome::PreferAccessibility => 0,
        Outcome::PreferClipboardScript => 1,
    }
}

/// The outcome that a stored tag stands for.
fn outcome_of(tag: u8) -> (outcome: Outcome)
    ensures
        outcome == outcome_of_tag(tag),
{
    if tag == 0 {
        Outcome::PreferAccessibility
    } else {
        Outcome::PreferClipboardScript
    }
}

/// What the cache remembers, most recently used application first.
pub type Memory = Seq<(Seq<char>, Outcome)>;

/// A memory as a cache can hold it: each application once, and no more of
/// them than `CAPACITY`.
pub open spec fn valid_memory(memory: Memory) -> bool {
    &&& distinct_keys(memory)
    &&& memory.len() <= CAPACITY
}

/// Storing keeps a memory valid: a cache never remembers more than
/// `CAPACITY` applications, nor one of them twice.
pub proof fn lemma_stored_is_valid(memory: Memory, app_name: Seq<char>, outcome: Outcome)
    requires
        valid_memory(memory),
    ensures
        valid_memory(stored(memory, CAPACITY as nat, app_name, outcome)),
        lookup(stored(memory, CAPACITY as nat, app_name, outcome), app_name) == Some(outcome),
{
    lemma_stored(memory, CAPACITY as nat, app_name, outcome);
}

/// In a full memory a new application takes the place of the least recently
/// used one, the last: that one is forgotten, the new one is remembered,
/// and every other application is remembered as before.
pub proof fn lemma_new_application_evicts_oldest(
    memory: Memory,
    app_name: Seq<char>,
    outcome: Outcome,
)
    requires
        valid_memory(memory),
        memory.len() == CAPACITY,
        lookup(memory, app_name) is None,
    ensures
        stored(memory, CAPACITY as nat, app_name, outcome) == seq![(app_name, outcome)]
            + memory.drop_last(),
        stored(memory, CAPACITY as nat, app_name, outcome).len() == CAPACITY,
        lookup(stored(memory, CAPACITY as nat, app_name, outcome), app_name) == Some(outcome),
        lookup(stored(memory, CAPACITY as nat, app_name, outcome), memory.last().0) is None,
        forall|other: Seq<char>|
            other != app_name && other != memory.last().0 ==> lookup(
                stored(memory, CAPACITY as nat, app_name, outcome),
                other,
            ) == lookup(memory, other),
{
    lemma_stored(memory, CAPACITY as nat, app_name, outcome);
    lemma_position_of_entry(memory, memory.len() - 1);
}

/// A bounded memory from application names to outcomes. When it is full, a
/// new application takes the place of the least recently used one.
pub struct MethodCache {
    store: LruCache<String, u8>,
}

impl View for MethodCache {
    type V = Memory;

    closed spec fn view(&self) -> Memory {
        with_values(lru_entries(self.store), |tag: u8| outcome_of_tag(tag))
    }
}

impl MethodCache {
    /// The cache is as its operations leave it: made for `CAPACITY`
    /// applications, each remembered once.
    pub closed spec fn wf(&self) -> bool {
        &&& lru_limit(self.store) == CAPACITY
        &&& lru_entries(self.store).len() <= CAPACITY
        &&& distinct_keys(lru_entries(self.store))
    }

    /// In a well-formed cache no application occurs twice and at most
    /// `CAPACITY` are remembered.
    pub proof fn lemma_wf(&self)
        requires
            self.wf(),
        ensures
            valid_memory(self@),
    {
    }

    /// An empty cache.
    pub fn new() -> (cache: MethodCache)
        ensures
            cache.wf(),
            cache@ == Memory::empty(),
            valid_memory(cache@),
    {
        let cache = MethodCache { store: lru_new(CAPACITY) };
        assert(cache@ =~= Memory::empty());
        cache
    }

    /// The number of applications remembered.
    pub fn len(&self) -> (n: usize)
        ensures
            n == self@.len(),
    {
        lru_len(&self.store)
    }

    /// The outcome remembered for `app_name`, if there is one. The
    /// application becomes the most recently used.
    pub fn get(&mut self, app_name: &str) -> (found: Option<Outcome>)
        requires
            old(self).wf(),
        ensures
            final(self).wf(),
            valid_memory(final(self)@),
            found == lookup(old(self)@, app_name@),
            final(self)@ == promoted(old(self)@, app_name@),
    {
        proof {
            lemma_with_values(
                lru_entries(self.store),
                |tag: u8| outcome_of_tag(tag),
                CAPACITY as nat,
                app_name@,
                0u8,
            );
            lemma_promoted(lru_entries(self.store), app_name@);
        }
        match lru_get(&mut self.store, app_name) {
            Some(tag) => Some(outcome_of(tag)),
            None => None,
        }
    }

    /// Remembers `outcome` for `app_name`, as the most recently used
    /// application. In a full cache a new application takes the place of the
    /// least recently used one.
    pub fn put(&mut self, app_name: String, outcome: Outcome)
        requires
            old(self).wf(),
        ensures
            final(self).wf(),
            valid_memory(final(self)@),
            final(self)@ == stored(old(self)@, CAPACITY as nat, app_name@, outcome),
    {
        let tag = tag_of(outcome);
        proof {
            lemma_with_values(
                lru_entries(self.store),
                |tag: u8| outcome_of_tag(tag),
                CAPACITY as nat,
                app_name@,
                tag,
            );
            lemma_stored(lru_entries(self.store), CAPACITY as nat, app_name@, tag);
        }
        let _ = lru_put(&mut self.store, app_name, tag);
    }
}

} // verus!
