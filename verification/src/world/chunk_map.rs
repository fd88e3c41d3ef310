//! The map in which the registry keeps its chunks, by the keys of their
//! positions.

use vstd::prelude::*;
use bevy::utils::HashMap;
use crate::world::chunk::Chunk;

verus! {

/// The hash map of `bevy::utils`, from keys to chunks. Trusted: nothing is
/// known of it but what the functions below say.
#[verifier::external_body]
pub struct ChunkMap {
    map: HashMap<u128, Chunk>,
}

/// The chunks that `map` holds, by their keys.
pub uninterp spec fn chunk_map_items(map: ChunkMap) -> Map<u128, Chunk>;

impl View for ChunkMap {
    type V = Map<u128, Chunk>;

    open spec fn view(&self) -> Map<u128, Chunk> {
        chunk_map_items(*self)
    }
}

/// `HashMap::default` of hashbrown, which `bevy::utils` hands on: creates
/// an empty map. Trusted: the map that it hands back holds nothing.
#[verifier::external_body]
fn chunk_map_new() -> (r: ChunkMap)
    ensures
        chunk_map_items(r) =~= Map::empty(),
{
    ChunkMap { map: HashMap::default() }
}

/// `HashMap::contains_key` of hashbrown. Trusted: it returns `true`
/// exactly if the map holds a chunk under `key`.
#[verifier::external_body]
fn chunk_map_contains_key(map: &ChunkMap, key: u128) -> (r: bool)
    ensures
        r == chunk_map_items(*map).contains_key(key),
{
    map.map.contains_key(&key)
}

/// `HashMap::get` of hashbrown. Trusted: it returns the chunk that the map
/// holds under `key`, and `None` if it holds none there.
#[verifier::external_body]
fn chunk_map_get(map: &ChunkMap, key: u128) -> (r: Option<&Chunk>)
    ensures
        r.is_some() == chunk_map_items(*map).contains_key(key),
        r.is_some() ==> *r.unwrap() == chunk_map_items(*map)[key],
{
    map.map.get(&key)
}

/// `HashMap::insert` of hashbrown. Trusted: afterwards the map holds
/// `chunk` under `key` and is otherwise as it was; the chunk that it held
/// under `key` before is returned, and `None` if it held none there.
#[verifier::external_body]
fn chunk_map_insert(map: &mut ChunkMap, key: u128, chunk: Chunk) -> (r: Option<Chunk>)
    ensures
        chunk_map_items(*final(map)) == chunk_map_items(*old(map)).insert(key, chunk),
        r.is_some() == chunk_map_items(*old(map)).contains_key(key),
        r.is_some() ==> r.unwrap() == chunk_map_items(*old(map))[key],
{
    map.map.insert(key, chunk)
}

/// `HashMap::remove` of hashbrown. Trusted: afterwards the map holds
/// nothing under `key` and is otherwise as it was; the chunk that it held
/// under `key` before is returned, and `None` if it held none there.
#[verifier::external_body]
fn chunk_map_remove(map: &mut ChunkMap, key: u128) -> (r: Option<Chunk>)
    ensures
        chunk_map_items(*final(map)) == chunk_map_items(*old(map)).remove(key),
        r.is_some() == chunk_map_items(*old(map)).contains_key(key),
        r.is_some() ==> r.unwrap() == chunk_map_items(*old(map))[key],
{
    map.map.remove(&key)
}

impl ChunkMap {
    /// A map that holds nothing.
    pub fn new() -> (r: Self)
        ensures
            r@ == Map::<u128, Chunk>::empty(),
    {
        chunk_map_new()
    }

    /// True if the map holds a chunk under `key`.
    pub fn contains_key(&self, key: u128) -> (r: bool)
        ensures
            r == self@.contains_key(key),
    {
        chunk_map_contains_key(self, key)
    }

    /// The chunk that the map holds under `key`; `None` if it holds none
    /// there.
    pub fn get(&self, key: u128) -> (r: Option<&Chunk>)
        ensures
            r.is_some() == self@.contains_key(key),
            r.is_some() ==> *r.unwrap() == self@[key],
    {
        chunk_map_get(self, key)
    }

    /// Puts `chunk` under `key` and returns the chunk that was there, or
    /// `None` if there was none.
    pub fn insert(&mut self, key: u128, chunk: Chunk) -> (r: Option<Chunk>)
        ensures
            final(self)@ == old(self)@.insert(key, chunk),
            r.is_some() == old(self)@.contains_key(key),
            r.is_some() ==> r.unwrap() == old(self)@[key],
    {
        chunk_map_insert(self, key, chunk)
    }

    /// Takes the chunk under `key` out of the map and returns it, or `None`
    /// if there was none.
    pub fn remove(&mut self, key: u128) -> (r: Option<Chunk>)
        ensures
            final(self)@ == old(self)@.remove(key),
            r.is_some() == old(self)@.contains_key(key),
            r.is_some() ==> r.unwrap() == old(self)@[key],
    {
        chunk_map_remove(self, key)
    }
}

} // verus!
