//! The sum of the counts of a table taken as a mapping.

use vstd::prelude::*;
use crate::heatmap::{bumped, recorded_in};

verus! {

/// The sum of all counts of a finite mapping.
pub open spec fn map_total<KV>(m: Map<KV, u32>) -> nat
    decreases m.dom().len(),
    when m.dom().finite()
{
    if m.dom().len() == 0 {
        0
    } else {
        let key = m.dom().choose();
        m[key] as nat + map_total(m.remove(key))
    }
}

/// The sum is the count of any one key plus the sum of the rest.
pub proof fn lemma_map_total_remove<KV>(m: Map<KV, u32>, key: KV)
    requires
        m.dom().finite(),
        m.contains_key(key),
    ensures
        map_total(m) == m[key] as nat + map_total(m.remove(key)),
    decreases m.dom().len(),
{
    let chosen = m.dom().choose();
    if chosen != key {
        lemma_map_total_remove(m.remove(chosen), key);
        lemma_map_total_remove(m.remove(key), chosen);
        assert(m.remove(chosen).remove(key) == m.remove(key).remove(chosen));
    }
}

/// A new count under `key` changes the sum by the difference to the old
/// one, which is 0 where the key is new.
pub proof fn lemma_map_total_insert<KV>(m: Map<KV, u32>, key: KV, count: u32)
    requires
        m.dom().finite(),
    ensures
        m.insert(key, count).dom().finite(),
        map_total(m.insert(key, count)) + (if m.contains_key(key) {
            m[key] as nat
        } else {
            0
        }) == map_total(m) + count,
{
    let after = m.insert(key, count);
    lemma_map_total_remove(after, key);
    if m.contains_key(key) {
        lemma_map_total_remove(m, key);
        assert(after.remove(key) == m.remove(key));
    } else {
        assert(after.remove(key) == m);
    }
}

/// No count is above the sum.
pub proof fn lemma_count_within_total<KV>(m: Map<KV, u32>, key: KV)
    requires
        m.dom().finite(),
        m.contains_key(key),
    ensures
        m[key] <= map_total(m),
{
    lemma_map_total_remove(m, key);
}

/// One more occurrence raises the sum by one, as long as the sum is below
/// the largest `u32`: then no count has reached it.
pub proof fn lemma_recorded_total<KV>(m: Map<KV, u32>, key: KV)
    requires
        m.dom().finite(),
        map_total(m) < u32::MAX,
    ensures
        recorded_in(m, key).dom().finite(),
        map_total(recorded_in(m, key)) == map_total(m) + 1,
{
    if m.contains_key(key) {
        lemma_count_within_total(m, key);
    }
    let old_count: u32 = if m.contains_key(key) {
        m[key]
    } else {
        0
    };
    lemma_map_total_insert(m, key, bumped(old_count));
}

} // verus!
