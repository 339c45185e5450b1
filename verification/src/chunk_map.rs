//! The maps of a level, keyed by chunk coordinates.
//!
//! The maps are [`dashmap::DashMap`]s. A level owns its maps and changes them
//! through exclusive borrows only, and no guard of an entry outlives the call
//! that took it. So a map has one definite content between two calls, of which
//! the names [`entries`] and [`queues`] speak, and while a map is shared nobody
//! holds a lock on it for writing.

use dashmap::try_result::TryResult;
use dashmap::DashMap;
use vstd::prelude::*;

verus! {

/// A map from chunk coordinates to a number: how many watch the chunk, or the
/// handle under which the chunk's data is kept.
pub type ChunkMap = DashMap<(i32, i32), usize>;

/// A map from chunk coordinates to those who wait for the chunk, in the order
/// in which they came.
pub type QueueMap = DashMap<(i32, i32), Vec<usize>>;

/// The concurrent hash map of the `dashmap` crate.
#[verifier::external_type_specification]
#[verifier::external_body]
#[verifier::reject_recursive_types(K)]
#[verifier::reject_recursive_types(V)]
#[verifier::reject_recursive_types(S)]
pub struct ExDashMap<K, V, S>(DashMap<K, V, S>);

/// What a [`ChunkMap`] holds.
pub uninterp spec fn entries(map: DashMap<(i32, i32), usize>) -> Map<(i32, i32), usize>;

/// What a [`QueueMap`] holds.
pub uninterp spec fn queues(map: DashMap<(i32, i32), Vec<usize>>) -> Map<(i32, i32), Seq<usize>>;

/// What a map holds under a key, if anything.
pub open spec fn lookup(map: Map<(i32, i32), usize>, key: (i32, i32)) -> Option<usize> {
    if map.contains_key(key) {
        Some(map[key])
    } else {
        None
    }
}

/// Whether a sequence lists every entry of a map once, in some order.
pub open spec fn lists(
    listed: Seq<((i32, i32), usize)>,
    map: Map<(i32, i32), usize>,
) -> bool {
    &&& forall|i: int|
        0 <= i < listed.len() ==> lookup(map, (#[trigger] listed[i]).0) == Some(listed[i].1)
    &&& forall|i: int, j: int|
        0 <= i < j < listed.len() ==> (#[trigger] listed[i]).0 != (#[trigger] listed[j]).0
    &&& forall|key: (i32, i32)| #[trigger]
        map.contains_key(key) ==> listed.contains((key, map[key]))
}

/// Whether a map holds finitely many entries, and how many.
pub open spec fn counts(map: Map<(i32, i32), usize>, count: usize) -> bool {
    &&& map.dom().finite()
    &&& map.len() == count
}

/// Calls [`DashMap::new`], which makes a map without entries.
#[verifier::external_body]
pub(crate) fn new_map() -> (made: ChunkMap)
    ensures
        (entries(made) == Map::<(i32, i32), usize>::empty()),
{
    DashMap::new()
}

/// Calls [`DashMap::insert`], which puts the value under the key, in place of
/// what was there, and hands back what was there.
#[verifier::external_body]
pub(crate) fn insert(map: &mut ChunkMap, key: (i32, i32), value: usize) -> (replaced: Option<usize>)
    ensures
        entries(*final(map)) == entries(*old(map)).insert(key, value),
        replaced == lookup(entries(*old(map)), key),
{
    map.insert(key, value)
}

/// Calls [`DashMap::remove`], which drops the entry under the key, if there is
/// one, and hands back its value.
#[verifier::external_body]
pub(crate) fn remove(map: &mut ChunkMap, key: (i32, i32)) -> (removed: Option<usize>)
    ensures
        entries(*final(map)) == entries(*old(map)).remove(key),
        removed == lookup(entries(*old(map)), key),
{
    map.remove(&key).map(|entry| entry.1)
}

/// Calls [`DashMap::remove_if`], which asks `test` about the entry under the
/// key, if there is one, drops it if the answer is `true`, and hands back the
/// value that it dropped. Without an entry `test` is not asked.
#[verifier::external_body]
pub(crate) fn remove_if<F: Fn(&(i32, i32), &usize) -> bool>(
    map: &mut ChunkMap,
    key: (i32, i32),
    test: F,
) -> (removed: Option<usize>)
    requires
        forall|k: (i32, i32), value: usize| #[trigger] test.requires((&k, &value)),
    ensures
        removed is Some ==> removed == lookup(entries(*old(map)), key),
        removed is Some ==> entries(*final(map)) == entries(*old(map)).remove(key),
        removed is None ==> entries(*final(map)) == entries(*old(map)),
        entries(*old(map)).contains_key(key) ==> test.ensures(
            (&key, &entries(*old(map))[key]),
            removed is Some,
        ),
{
    map.remove_if(&key, |k, value| test(k, value)).map(|entry| entry.1)
}

/// Calls [`DashMap::get`], which finds the value under the key.
#[verifier::external_body]
pub(crate) fn get(map: &ChunkMap, key: (i32, i32)) -> (found: Option<usize>)
    ensures
        found == lookup(entries(*map), key),
{
    map.get(&key).map(|value| *value)
}

/// What an attempt to read a map without waiting gave.
#[derive(Clone, Copy, Debug, PartialEq, Eq, Structural)]
pub enum Attempt {
    /// The value under the key.
    Present(usize),
    /// There is nothing under the key.
    Absent,
    /// The part of the map that the key belongs to is locked.
    Locked,
}

impl Attempt {
    /// The value that was read, if one was.
    pub open spec fn spec_value(self) -> Option<usize> {
        match self {
            Attempt::Present(value) => Some(value),
            Attempt::Absent => None,
            Attempt::Locked => None,
        }
    }

    /// The value that was read, if one was.
    #[verifier::when_used_as_spec(spec_value)]
    pub fn value(self) -> (value: Option<usize>)
        ensures
            value == self.spec_value(),
    {
        match self {
            Attempt::Present(value) => Some(value),
            Attempt::Absent => None,
            Attempt::Locked => None,
        }
    }
}

/// Calls [`DashMap::try_get`], which finds the value under the key, but gives
/// up where the part of the map that the key belongs to is locked for writing.
/// A map that is shared is not locked for writing, so the value is found if
/// there is one.
#[verifier::external_body]
pub(crate) fn try_get(map: &ChunkMap, key: (i32, i32)) -> (attempt: Attempt)
    ensures
        attempt.value() == lookup(entries(*map), key),
{
    match map.try_get(&key) {
        TryResult::Present(value) => Attempt::Present(*value),
        TryResult::Absent => Attempt::Absent,
        TryResult::Locked => Attempt::Locked,
    }
}

/// Calls [`DashMap::retain`], which asks `keep` about every entry and drops
/// those for which the answer is `false`; the others stay as they are.
#[verifier::external_body]
pub(crate) fn retain<F: Fn(&(i32, i32), &usize) -> bool>(map: &mut ChunkMap, keep: F)
    requires
        forall|key: (i32, i32), value: usize| #[trigger] keep.requires((&key, &value)),
    ensures
        forall|key: (i32, i32)| #[trigger]
            entries(*final(map)).contains_key(key) ==> entries(*old(map)).contains_key(key)
                && entries(*final(map))[key] == entries(*old(map))[key],
        forall|key: (i32, i32)| #[trigger]
            entries(*old(map)).contains_key(key) ==> keep.ensures(
                (&key, &entries(*old(map))[key]),
                entries(*final(map)).contains_key(key),
            ),
{
    map.retain(|key, value| keep(key, value))
}

/// Calls [`DashMap::iter`] and collects the entries. The order in which they
/// come is not stated: it depends on how the map's keys were hashed.
#[verifier::external_body]
pub(crate) fn to_vec(map: &ChunkMap) -> (listed: Vec<((i32, i32), usize)>)
    ensures
        lists(listed@, entries(*map)),
{
    map.iter().map(|entry| (*entry.key(), *entry.value())).collect()
}

/// Calls [`DashMap::len`], which counts the entries. A map holds finitely many.
#[verifier::external_body]
pub(crate) fn len(map: &ChunkMap) -> (count: usize)
    ensures
        counts(entries(*map), count),
{
    map.len()
}

/// Calls [`DashMap::capacity`], which says how many entries the map has room
/// for: at least as many as it holds. How many more is the allocator's affair.
#[verifier::external_body]
pub(crate) fn capacity(map: &ChunkMap) -> (room: usize)
    ensures
        room >= entries(*map).len(),
{
    map.capacity()
}

/// Calls [`DashMap::shrink_to_fit`], which gives back unused room and keeps
/// every entry.
#[verifier::external_body]
pub(crate) fn shrink_to_fit(map: &mut ChunkMap)
    ensures
        entries(*final(map)) == entries(*old(map)),
{
    map.shrink_to_fit()
}

/// Calls [`DashMap::clear`], which drops every entry.
#[verifier::external_body]
pub(crate) fn clear(map: &mut ChunkMap)
    ensures
        (entries(*final(map)) == Map::<(i32, i32), usize>::empty()),
{
    map.clear()
}

/// Calls [`DashMap::new`], which makes a map without entries.
#[verifier::external_body]
pub(crate) fn new_queues() -> (made: QueueMap)
    ensures
        (queues(made) == Map::<(i32, i32), Seq<usize>>::empty()),
{
    DashMap::new()
}

/// Calls [`DashMap::insert`], which puts the queue under the key, in place of
/// what was there.
#[verifier::external_body]
pub(crate) fn put_queue(map: &mut QueueMap, key: (i32, i32), queue: Vec<usize>)
    ensures
        queues(*final(map)) == queues(*old(map)).insert(key, queue@),
{
    map.insert(key, queue);
}

/// Calls [`DashMap::remove`], which drops the entry under the key, if there is
/// one, and hands back its queue.
#[verifier::external_body]
pub(crate) fn take_queue(map: &mut QueueMap, key: (i32, i32)) -> (taken: Option<Vec<usize>>)
    ensures
        queues(*final(map)) == queues(*old(map)).remove(key),
        taken is Some <==> queues(*old(map)).contains_key(key),
        taken is Some ==> taken->0@ == queues(*old(map))[key],
{
    map.remove(&key).map(|entry| entry.1)
}

/// What is looked up is found just if the map holds it under the key.
pub proof fn law_what_is_held_is_found(map: Map<(i32, i32), usize>, key: (i32, i32), value: usize)
    ensures
        lookup(map, key) == Some(value) <==> map.contains_key(key) && map[key] == value,
        lookup(map, key) is None <==> !map.contains_key(key),
        lookup(map.insert(key, value), key) == Some(value),
        lookup(map.remove(key), key) is None,
{
}

/// A list of a map's entries has just the pairs that the map holds, each once.
pub proof fn law_list_has_each_entry_once(
    listed: Seq<((i32, i32), usize)>,
    map: Map<(i32, i32), usize>,
    key: (i32, i32),
    value: usize,
)
    requires
        lists(listed, map),
    ensures
        listed.contains((key, value)) <==> map.contains_key(key) && map[key] == value,
        listed.no_duplicates(),
{
    if listed.contains((key, value)) {
        let i = choose|i: int| 0 <= i < listed.len() && listed[i] == (key, value);
        assert(lookup(map, listed[i].0) == Some(listed[i].1));
    }
    if map.contains_key(key) {
        assert(listed.contains((key, map[key])));
    }
    assert forall|i: int, j: int| 0 <= i < j < listed.len() implies listed[i] != listed[j] by {
        assert(listed[i].0 != listed[j].0);
    }
}

/// An attempt to read gives the value that it found, and nothing otherwise.
pub proof fn law_attempt_gives_what_it_found(attempt: Attempt)
    ensures
        attempt matches Attempt::Present(value) ==> attempt.value() == Some(value),
        !(attempt is Present) ==> attempt.value() is None,
{
}

} // verus!
