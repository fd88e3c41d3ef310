//! The registry of loaded chunks and the queue of chunks that wait for a
//! rebuild of their mesh.

use vstd::prelude::*;
use vstd::arithmetic::div_mod::lemma_fundamental_div_mod_converse;
use crate::blocks::{Block, BlockType};
use crate::types::{BlockPos, ChunkPos, UVec3};
use crate::world::chunk::{
    with_data, with_dirty, with_load_count, with_queue_state, Chunk, ChunkData,
};
use crate::world::chunk_map::ChunkMap;
use crate::world::chunk_region::ChunkRegion;
use crate::world::dirty_queue::DirtyQueue;

verus! {

/// The key under which the registry keeps the chunk at `chunk_pos`: the
/// three coordinates, each moved into `0..2^32`, side by side.
pub open spec fn chunk_key(chunk_pos: ChunkPos) -> u128 {
    ((chunk_pos.x + 0x8000_0000) * 0x1_0000_0000_0000_0000 + (chunk_pos.y + 0x8000_0000)
        * 0x1_0000_0000 + (chunk_pos.z + 0x8000_0000)) as u128
}

/// Different chunk positions have different keys.
pub proof fn lemma_chunk_key_injective(a: ChunkPos, b: ChunkPos)
    requires
        chunk_key(a) == chunk_key(b),
    ensures
        a == b,
{
    let (q_a, r_a) = lemma_chunk_key_parts(a);
    let (q_b, r_b) = lemma_chunk_key_parts(b);
    let d: int = 0x1_0000_0000;
    lemma_fundamental_div_mod_converse(chunk_key(a) as int, d, q_a, r_a);
    lemma_fundamental_div_mod_converse(chunk_key(b) as int, d, q_b, r_b);
    lemma_fundamental_div_mod_converse(q_a, d, a.x + 0x8000_0000, a.y + 0x8000_0000);
    lemma_fundamental_div_mod_converse(q_b, d, b.x + 0x8000_0000, b.y + 0x8000_0000);
}

/// The key of a position is made of two parts: the x and y coordinates
/// side by side, and the z coordinate behind them.
proof fn lemma_chunk_key_parts(p: ChunkPos) -> (parts: (int, int))
    ensures
        parts.0 == (p.x + 0x8000_0000) * 0x1_0000_0000 + (p.y + 0x8000_0000),
        parts.1 == p.z + 0x8000_0000,
        0 <= parts.1 < 0x1_0000_0000,
        0 <= p.y + 0x8000_0000 < 0x1_0000_0000,
        chunk_key(p) == parts.0 * 0x1_0000_0000 + parts.1,
{
    let x = p.x + 0x8000_0000;
    let y = p.y + 0x8000_0000;
    let z = p.z + 0x8000_0000;
    let q = x * 0x1_0000_0000 + y;
    assert(q * 0x1_0000_0000 + z == x * 0x1_0000_0000_0000_0000 + y * 0x1_0000_0000 + z);
    assert(0 <= x * 0x1_0000_0000_0000_0000 + y * 0x1_0000_0000 + z
        < 0x1_0000_0000_0000_0000_0000_0000);
    (q, z)
}

/// Computes [`chunk_key`].
pub fn key_of(chunk_pos: ChunkPos) -> (r: u128)
    ensures
        r == chunk_key(chunk_pos),
{
    let x: u128 = (chunk_pos.x as i64 + 0x8000_0000) as u128;
    let y: u128 = (chunk_pos.y as i64 + 0x8000_0000) as u128;
    let z: u128 = (chunk_pos.z as i64 + 0x8000_0000) as u128;
    x * 0x1_0000_0000_0000_0000 + y * 0x1_0000_0000 + z
}

/// What a world holds: the loaded chunks by position, and the positions
/// that wait for a rebuild of their mesh, the next one first.
pub struct WorldView {
    pub chunks: Map<ChunkPos, Chunk>,
    pub dirty_queue: Seq<ChunkPos>,
}

impl WorldView {
    /// The world after the chunk at `chunk_pos` has been asked to rebuild
    /// its mesh. A loaded chunk becomes dirty and its position joins the
    /// queue. With `retry` that happens unless the chunk waits in the
    /// queue already, so that a chunk that was put off is queued again;
    /// without it only to a chunk that was not dirty. Anything else
    /// changes nothing.
    pub open spec fn touch(self, chunk_pos: ChunkPos, retry: bool) -> WorldView {
        if self.chunks.contains_key(chunk_pos) && (if retry {
            !self.chunks[chunk_pos].queued
        } else {
            !self.chunks[chunk_pos].dirty
        }) {
            WorldView {
                chunks: self.chunks.insert(
                    chunk_pos,
                    with_queue_state(self.chunks[chunk_pos], true, true),
                ),
                dirty_queue: self.dirty_queue.push(chunk_pos),
            }
        } else {
            self
        }
    }

    /// The world after each of `positions` has been asked to rebuild its
    /// mesh, in order; see [`WorldView::touch`].
    pub open spec fn touch_all(self, positions: Seq<ChunkPos>, retry: bool) -> WorldView
        decreases positions.len(),
    {
        if positions.len() == 0 {
            self
        } else {
            self.touch_all(positions.drop_last(), retry).touch(positions.last(), retry)
        }
    }

    /// The world after the chunk at `chunk_pos` has been marked dirty: a
    /// loaded chunk that was not dirty becomes dirty and its position
    /// joins the queue; anything else changes nothing.
    pub open spec fn mark_dirty(self, chunk_pos: ChunkPos) -> WorldView {
        self.touch(chunk_pos, false)
    }

    /// The world after each of `positions` has been marked dirty, in order.
    pub open spec fn mark_all(self, positions: Seq<ChunkPos>) -> WorldView {
        self.touch_all(positions, false)
    }

    /// The world after the chunk at `chunk_pos` has been woken: a loaded
    /// chunk that does not wait in the queue becomes dirty and its
    /// position joins the queue, also if the chunk was dirty and put off;
    /// anything else changes nothing.
    pub open spec fn wake(self, chunk_pos: ChunkPos) -> WorldView {
        self.touch(chunk_pos, true)
    }

    /// The world after each of `positions` has been woken, in order.
    pub open spec fn wake_all(self, positions: Seq<ChunkPos>) -> WorldView {
        self.touch_all(positions, true)
    }

    /// The world after one more loader has asked for the chunk at
    /// `chunk_pos`: a chunk that is not loaded enters the registry, held
    /// once, without blocks and not dirty; a loaded chunk is held once
    /// more, unless its count of holders is at its limit.
    pub open spec fn load_chunk(self, chunk_pos: ChunkPos, entity: u64, fresh: Chunk) -> WorldView {
        if !self.chunks.contains_key(chunk_pos) {
            WorldView { chunks: self.chunks.insert(chunk_pos, fresh), dirty_queue: self.dirty_queue }
        } else if self.chunks[chunk_pos].load_count < u32::MAX {
            WorldView {
                chunks: self.chunks.insert(
                    chunk_pos,
                    with_load_count(
                        self.chunks[chunk_pos],
                        (self.chunks[chunk_pos].load_count + 1) as u32,
                    ),
                ),
                dirty_queue: self.dirty_queue,
            }
        } else {
            self
        }
    }

    /// The world after one loader has let go of the chunk at `chunk_pos`: a
    /// chunk with more holders is held once less, and a chunk with one
    /// holder leaves the registry.
    pub open spec fn unload_chunk(self, chunk_pos: ChunkPos) -> WorldView {
        if !self.chunks.contains_key(chunk_pos) {
            self
        } else if self.chunks[chunk_pos].load_count > 1 {
            WorldView {
                chunks: self.chunks.insert(
                    chunk_pos,
                    with_load_count(
                        self.chunks[chunk_pos],
                        (self.chunks[chunk_pos].load_count - 1) as u32,
                    ),
                ),
                dirty_queue: self.dirty_queue,
            }
        } else {
            WorldView { chunks: self.chunks.remove(chunk_pos), dirty_queue: self.dirty_queue }
        }
    }

    /// The world after the next waiting position has been taken from the
    /// queue: the chunk there, if loaded, no longer waits. Its dirty flag
    /// stays as it is.
    pub open spec fn pop_dirty(self) -> WorldView {
        if self.dirty_queue.len() == 0 {
            self
        } else {
            let chunk_pos = self.dirty_queue[0];
            WorldView {
                chunks: if self.chunks.contains_key(chunk_pos) {
                    self.chunks.insert(
                        chunk_pos,
                        with_queue_state(
                            self.chunks[chunk_pos],
                            self.chunks[chunk_pos].dirty,
                            false,
                        ),
                    )
                } else {
                    self.chunks
                },
                dirty_queue: self.dirty_queue.drop_first(),
            }
        }
    }

    /// True if the mesh of the chunk at `chunk_pos` can be built: the chunk
    /// and its 26 neighbours are loaded.
    pub open spec fn can_mesh(self, chunk_pos: ChunkPos) -> bool {
        World::has_neighbours(chunk_pos) && self.region_loaded(World::spec_remesh_region(chunk_pos))
    }

    /// The world after the next remesh job has been taken: the position
    /// that has waited longest leaves the queue. If the mesh of the chunk
    /// there can be built, the chunk is clean from then on. If not, the
    /// job is put off: the chunk, if it is loaded, is dirty and does not
    /// wait, until a neighbour arrives and wakes it.
    pub open spec fn take_remesh_job(self) -> WorldView {
        if self.dirty_queue.len() == 0 {
            self
        } else {
            let chunk_pos = self.dirty_queue[0];
            WorldView {
                chunks: if self.chunks.contains_key(chunk_pos) {
                    self.chunks.insert(
                        chunk_pos,
                        with_queue_state(self.chunks[chunk_pos], !self.can_mesh(chunk_pos), false),
                    )
                } else {
                    self.chunks
                },
                dirty_queue: self.dirty_queue.drop_first(),
            }
        }
    }

    /// True if every chunk of `region` is loaded.
    pub open spec fn region_loaded(self, region: ChunkRegion) -> bool {
        forall|p: ChunkPos| #[trigger] region.spec_contains_chunk(p) ==> self.chunks.contains_key(p)
    }

    /// Marking a chunk that is already dirty, or that is not loaded,
    /// changes nothing: a chunk enters the queue once for each time that
    /// it turns from clean to dirty.
    pub proof fn lemma_mark_dirty_once(self, chunk_pos: ChunkPos)
        ensures
            self.mark_dirty(chunk_pos).mark_dirty(chunk_pos) == self.mark_dirty(chunk_pos),
            self.mark_dirty(chunk_pos).dirty_queue.len() <= self.dirty_queue.len() + 1,
            self.chunks.contains_key(chunk_pos) ==> self.mark_dirty(chunk_pos).chunks[chunk_pos].dirty,
            self.chunks.contains_key(chunk_pos) && self.chunks[chunk_pos].dirty ==> self.mark_dirty(
                chunk_pos,
            ) == self,
    {
    }

    /// A remesh job that cannot be built leaves its chunk dirty and out of
    /// the queue; marking that chunk dirty again does not queue it, and
    /// waking it does.
    pub proof fn lemma_deferred_job(self)
        requires
            self.dirty_queue.len() > 0,
            self.chunks.contains_key(self.dirty_queue[0]),
            !self.can_mesh(self.dirty_queue[0]),
        ensures
            self.take_remesh_job().chunks[self.dirty_queue[0]].dirty,
            !self.take_remesh_job().chunks[self.dirty_queue[0]].queued,
            self.take_remesh_job().dirty_queue == self.dirty_queue.drop_first(),
            self.take_remesh_job().mark_dirty(self.dirty_queue[0]) == self.take_remesh_job(),
            self.take_remesh_job().wake(self.dirty_queue[0]).dirty_queue
                == self.dirty_queue.drop_first().push(self.dirty_queue[0]),
            self.take_remesh_job().wake(self.dirty_queue[0]).chunks[self.dirty_queue[0]].dirty,
            self.take_remesh_job().wake(self.dirty_queue[0]).chunks[self.dirty_queue[0]].queued,
    {
    }

    /// A remesh job that can be built leaves its chunk clean, so that the
    /// next change to the chunk queues it again.
    pub proof fn lemma_ready_job(self)
        requires
            self.dirty_queue.len() > 0,
            self.can_mesh(self.dirty_queue[0]),
        ensures
            self.chunks.contains_key(self.dirty_queue[0]),
            !self.take_remesh_job().chunks[self.dirty_queue[0]].dirty,
            !self.take_remesh_job().chunks[self.dirty_queue[0]].queued,
            self.take_remesh_job().mark_dirty(self.dirty_queue[0]).dirty_queue
                == self.dirty_queue.drop_first().push(self.dirty_queue[0]),
    {
        let p = self.dirty_queue[0];
        assert(World::spec_remesh_region(p).spec_contains_chunk(p));
    }

    /// Marking or waking chunks neither loads nor unloads a chunk, changes
    /// nothing of a chunk but its dirty flag and whether it waits, never
    /// makes a dirty chunk clean, and keeps what waits in the queue at its
    /// place. Every loaded chunk that was marked is dirty.
    pub proof fn lemma_touch_all(self, positions: Seq<ChunkPos>, retry: bool)
        ensures
            self.touch_all(positions, retry).chunks.dom() == self.chunks.dom(),
            forall|p: ChunkPos| #[trigger]
                self.chunks.contains_key(p) ==> {
                    &&& self.touch_all(positions, retry).chunks[p].data == self.chunks[p].data
                    &&& self.touch_all(positions, retry).chunks[p].chunk_pos
                        == self.chunks[p].chunk_pos
                    &&& self.touch_all(positions, retry).chunks[p].entity == self.chunks[p].entity
                    &&& self.touch_all(positions, retry).chunks[p].load_count
                        == self.chunks[p].load_count
                    &&& self.chunks[p].dirty ==> self.touch_all(positions, retry).chunks[p].dirty
                    &&& self.chunks[p].queued ==> self.touch_all(positions, retry).chunks[p].queued
                    &&& !retry && positions.contains(p) ==> self.touch_all(
                        positions,
                        retry,
                    ).chunks[p].dirty
                    &&& retry && positions.contains(p) ==> self.touch_all(
                        positions,
                        retry,
                    ).chunks[p].queued
                },
            self.dirty_queue.is_prefix_of(self.touch_all(positions, retry).dirty_queue),
        decreases positions.len(),
    {
        if positions.len() > 0 {
            let before = self.touch_all(positions.drop_last(), retry);
            self.lemma_touch_all(positions.drop_last(), retry);
            let last = positions.last();
            assert(before.touch(last, retry).chunks.dom() =~= before.chunks.dom());
            assert forall|p: ChunkPos| #[trigger]
                self.chunks.contains_key(p) && positions.contains(p) implies (!retry
                ==> self.touch_all(positions, retry).chunks[p].dirty) && (retry ==> self.touch_all(
                positions,
                retry,
            ).chunks[p].queued) by {
                let i = choose|i: int| 0 <= i < positions.len() && positions[i] == p;
                if i < positions.len() - 1 {
                    assert(positions.drop_last()[i] == p);
                    assert(positions.drop_last().contains(p));
                }
            }
        }
    }
}

/// What a request to load a chunk did.
#[derive(Debug, Clone, Copy, PartialEq, Eq, Structural)]
pub enum ChunkLoad {
    /// The chunk was not loaded; it has entered the registry.
    Created,
    /// The chunk was loaded; it is now held by one loader more.
    Retained,
    /// The chunk is held by as many loaders as can be counted; nothing
    /// was changed.
    Full,
}

/// What a request to unload a chunk did.
#[derive(Debug, Clone, Copy, PartialEq, Eq, Structural)]
pub enum ChunkUnload {
    /// The chunk was not loaded; nothing was changed.
    NotLoaded,
    /// The chunk is held by one loader less and stays loaded.
    Released,
    /// The last loader let go; the chunk has left the registry. The entity
    /// is the one that the chunk was registered with.
    Evicted(u64),
}

/// The loaded chunks of a world and the queue of those that wait for a
/// rebuild of their mesh.
pub struct World {
    chunks: ChunkMap,
    dirty_chunks: DirtyQueue,
}

impl View for World {
    type V = WorldView;

    closed spec fn view(&self) -> WorldView {
        WorldView {
            chunks: Map::new(
                |p: ChunkPos| self.chunks@.contains_key(chunk_key(p)),
                |p: ChunkPos| self.chunks@[chunk_key(p)],
            ),
            dirty_queue: self.dirty_chunks@,
        }
    }
}

impl World {
    #[verifier::type_invariant]
    closed spec fn valid(&self) -> bool {
        Self::valid_parts(self.chunks@, self.dirty_chunks@)
    }

    /// Every chunk is registered under the key of its position and held
    /// by at least one loader, and every chunk that is said to wait is
    /// dirty and has its position in the queue.
    closed spec fn valid_parts(chunks: Map<u128, Chunk>, queue: Seq<ChunkPos>) -> bool {
        forall|k: u128| #[trigger]
            chunks.contains_key(k) ==> {
                &&& chunk_key(chunks[k].chunk_pos) == k
                &&& chunks[k].load_count >= 1
                &&& chunks[k].queued ==> chunks[k].dirty && queue.contains(chunks[k].chunk_pos)
            }
    }

    /// The view of a world with the registry `chunks` and the queue `queue`.
    closed spec fn view_of(chunks: Map<u128, Chunk>, queue: Seq<ChunkPos>) -> WorldView {
        WorldView {
            chunks: Map::new(
                |p: ChunkPos| chunks.contains_key(chunk_key(p)),
                |p: ChunkPos| chunks[chunk_key(p)],
            ),
            dirty_queue: queue,
        }
    }

    /// Registering a chunk under the key of its position registers it at
    /// its position.
    proof fn lemma_view_insert(chunks: Map<u128, Chunk>, queue: Seq<ChunkPos>, pos: ChunkPos, c: Chunk)
        ensures
            Self::view_of(chunks.insert(chunk_key(pos), c), queue).chunks == Self::view_of(
                chunks,
                queue,
            ).chunks.insert(pos, c),
    {
        assert forall|p: ChunkPos| p != pos implies chunk_key(p) != chunk_key(pos) by {
            if chunk_key(p) == chunk_key(pos) {
                lemma_chunk_key_injective(p, pos);
            }
        }
        assert(Self::view_of(chunks.insert(chunk_key(pos), c), queue).chunks =~= Self::view_of(
            chunks,
            queue,
        ).chunks.insert(pos, c));
    }

    /// Removing the key of a position removes the chunk at that position.
    proof fn lemma_view_remove(chunks: Map<u128, Chunk>, queue: Seq<ChunkPos>, pos: ChunkPos)
        ensures
            Self::view_of(chunks.remove(chunk_key(pos)), queue).chunks == Self::view_of(
                chunks,
                queue,
            ).chunks.remove(pos),
    {
        assert forall|p: ChunkPos| p != pos implies chunk_key(p) != chunk_key(pos) by {
            if chunk_key(p) == chunk_key(pos) {
                lemma_chunk_key_injective(p, pos);
            }
        }
        assert(Self::view_of(chunks.remove(chunk_key(pos)), queue).chunks =~= Self::view_of(
            chunks,
            queue,
        ).chunks.remove(pos));
    }

    /// A world without chunks in which nothing waits.
    pub fn new() -> (r: Self)
        ensures
            r@.chunks == Map::<ChunkPos, Chunk>::empty(),
            r@.dirty_queue == Seq::<ChunkPos>::empty(),
    {
        let r = World { chunks: ChunkMap::new(), dirty_chunks: DirtyQueue::new() };
        proof {
            assert(r@.chunks =~= Map::<ChunkPos, Chunk>::empty());
        }
        r
    }

    /// True if the chunk at `chunk_pos` is loaded.
    pub fn is_loaded(&self, chunk_pos: ChunkPos) -> (r: bool)
        ensures
            r == self@.chunks.contains_key(chunk_pos),
    {
        let key: u128 = key_of(chunk_pos);
        self.chunks.contains_key(key)
    }

    /// The chunk at `chunk_pos`; `None` if it is not loaded. A loaded
    /// chunk is at the position that it is registered at and is held by at
    /// least one loader, and if it is said to wait it is dirty and its
    /// position is in the queue.
    pub fn get_chunk(&self, chunk_pos: ChunkPos) -> (r: Option<&Chunk>)
        ensures
            r.is_some() <==> self@.chunks.contains_key(chunk_pos),
            r.is_some() ==> *r.unwrap() == self@.chunks[chunk_pos] && r.unwrap().chunk_pos
                == chunk_pos && r.unwrap().load_count >= 1 && (r.unwrap().queued
                ==> r.unwrap().dirty && self@.dirty_queue.contains(chunk_pos)),
    {
        proof {
            use_type_invariant(self);
        }
        let key: u128 = key_of(chunk_pos);
        let r = self.chunks.get(key);
        proof {
            if r.is_some() {
                assert(self.chunks@.contains_key(key));
                lemma_chunk_key_injective(self.chunks@[key].chunk_pos, chunk_pos);
            }
        }
        r
    }

    /// True if no chunk waits for a rebuild of its mesh.
    pub fn no_dirty_chunks(&self) -> (r: bool)
        ensures
            r == (self@.dirty_queue.len() == 0),
    {
        self.dirty_chunks.is_empty()
    }

    /// Takes the registry and the queue out of this world and leaves an
    /// empty world behind.
    fn take_parts(&mut self) -> (r: (ChunkMap, DirtyQueue))
        ensures
            Self::valid_parts(r.0@, r.1@),
            Self::view_of(r.0@, r.1@) == old(self)@,
    {
        proof {
            use_type_invariant(&*self);
        }
        let mut taken = World::new();
        core::mem::swap(self, &mut taken);
        let World { chunks, dirty_chunks } = taken;
        (chunks, dirty_chunks)
    }

    /// One more loader asks for the chunk at `chunk_pos`. A chunk that is
    /// not loaded enters the registry with `entity`, held once, without
    /// blocks and not dirty. A loaded chunk is held once more.
    pub fn load_chunk(&mut self, chunk_pos: ChunkPos, entity: u64) -> (r: ChunkLoad)
        ensures
            !old(self)@.chunks.contains_key(chunk_pos) ==> r == ChunkLoad::Created && {
                let fresh = final(self)@.chunks[chunk_pos];
                &&& final(self)@ == old(self)@.load_chunk(chunk_pos, entity, fresh)
                &&& fresh.chunk_pos == chunk_pos
                &&& fresh.entity == entity
                &&& fresh.load_count == 1
                &&& !fresh.dirty
                &&& !fresh.queued
                &&& fresh.data.blocks.spec_is_empty()
                &&& fresh.data.blocks@ == Seq::new(32768, |i: int| Block::spec_default())
            },
            old(self)@.chunks.contains_key(chunk_pos) ==> final(self)@ == old(self)@.load_chunk(
                chunk_pos,
                entity,
                old(self)@.chunks[chunk_pos],
            ) && r == (if old(self)@.chunks[chunk_pos].load_count < u32::MAX {
                ChunkLoad::Retained
            } else {
                ChunkLoad::Full
            }),
    {
        let key: u128 = key_of(chunk_pos);
        let (mut chunks, dirty_chunks) = self.take_parts();
        let ghost before = chunks@;
        let result = match chunks.remove(key) {
            None => {
                let fresh = Chunk::new(chunk_pos, entity);
                proof {
                    Self::lemma_view_insert(before, dirty_chunks@, chunk_pos, fresh);
                    assert(before.remove(key).insert(key, fresh) =~= before.insert(key, fresh));
                }
                chunks.insert(key, fresh);
                ChunkLoad::Created
            },
            Some(mut chunk) => {
                proof {
                    lemma_chunk_key_injective(chunk.chunk_pos, chunk_pos);
                }
                let outcome = if chunk.load_count < u32::MAX {
                    chunk.load_count = chunk.load_count + 1;
                    ChunkLoad::Retained
                } else {
                    ChunkLoad::Full
                };
                proof {
                    Self::lemma_view_insert(before, dirty_chunks@, chunk_pos, chunk);
                    assert(before.remove(key).insert(key, chunk) =~= before.insert(key, chunk));
                    if outcome == ChunkLoad::Full {
                        assert(before.insert(key, chunk) =~= before);
                    }
                }
                chunks.insert(key, chunk);
                outcome
            },
        };
        *self = World { chunks, dirty_chunks };
        result
    }

    /// One loader lets go of the chunk at `chunk_pos`. A chunk with more
    /// holders stays loaded; with the last holder it leaves the registry.
    pub fn unload_chunk(&mut self, chunk_pos: ChunkPos) -> (r: ChunkUnload)
        ensures
            final(self)@ == old(self)@.unload_chunk(chunk_pos),
            r == (if !old(self)@.chunks.contains_key(chunk_pos) {
                ChunkUnload::NotLoaded
            } else if old(self)@.chunks[chunk_pos].load_count > 1 {
                ChunkUnload::Released
            } else {
                ChunkUnload::Evicted(old(self)@.chunks[chunk_pos].entity)
            }),
    {
        let key: u128 = key_of(chunk_pos);
        let (mut chunks, dirty_chunks) = self.take_parts();
        let ghost before = chunks@;
        let result = match chunks.remove(key) {
            None => {
                proof {
                    assert(before.remove(key) =~= before);
                }
                ChunkUnload::NotLoaded
            },
            Some(mut chunk) => {
                if chunk.load_count > 1 {
                    chunk.load_count = chunk.load_count - 1;
                    proof {
                        Self::lemma_view_insert(before, dirty_chunks@, chunk_pos, chunk);
                        assert(before.remove(key).insert(key, chunk) =~= before.insert(key, chunk));
                    }
                    chunks.insert(key, chunk);
                    ChunkUnload::Released
                } else {
                    proof {
                        Self::lemma_view_remove(before, dirty_chunks@, chunk_pos);
                    }
                    ChunkUnload::Evicted(chunk.entity)
                }
            },
        };
        *self = World { chunks, dirty_chunks };
        result
    }

    /// Asks the chunk at `chunk_pos` to rebuild its mesh; see
    /// [`WorldView::touch`]. Returns `true` if the position was put into
    /// the queue.
    fn touch(&mut self, chunk_pos: ChunkPos, retry: bool) -> (r: bool)
        ensures
            final(self)@ == old(self)@.touch(chunk_pos, retry),
            r == (old(self)@.chunks.contains_key(chunk_pos) && (if retry {
                !old(self)@.chunks[chunk_pos].queued
            } else {
                !old(self)@.chunks[chunk_pos].dirty
            })),
    {
        let key: u128 = key_of(chunk_pos);
        let (mut chunks, mut dirty_chunks) = self.take_parts();
        let ghost before = chunks@;
        let ghost queue = dirty_chunks@;
        let result = match chunks.remove(key) {
            None => {
                proof {
                    assert(before.remove(key) =~= before);
                }
                false
            },
            Some(mut chunk) => {
                proof {
                    lemma_chunk_key_injective(chunk.chunk_pos, chunk_pos);
                }
                let pushed = if retry {
                    chunk.wake(&mut dirty_chunks)
                } else {
                    chunk.mark_dirty(&mut dirty_chunks)
                };
                proof {
                    Self::lemma_view_insert(before, dirty_chunks@, chunk_pos, chunk);
                    assert(before.remove(key).insert(key, chunk) =~= before.insert(key, chunk));
                    if !pushed {
                        assert(before.insert(key, chunk) =~= before);
                    }
                    assert forall|k: u128| #[trigger]
                        before.insert(key, chunk).contains_key(k) && before.insert(
                            key,
                            chunk,
                        )[k].queued implies dirty_chunks@.contains(
                        before.insert(key, chunk)[k].chunk_pos,
                    ) by {
                        if k != key {
                            let p = before[k].chunk_pos;
                            let i = choose|i: int| 0 <= i < queue.len() && queue[i] == p;
                            assert(dirty_chunks@[i] == p);
                        } else {
                            if pushed {
                                assert(dirty_chunks@[queue.len() as int] == chunk_pos);
                            } else {
                                let i = choose|i: int| 0 <= i < queue.len() && queue[i] == chunk_pos;
                                assert(dirty_chunks@[i] == chunk_pos);
                            }
                        }
                    }
                }
                chunks.insert(key, chunk);
                pushed
            },
        };
        *self = World { chunks, dirty_chunks };
        result
    }

    /// Marks the chunk at `chunk_pos` as dirty. If the chunk is loaded and
    /// was not dirty, its position joins the queue of chunks that wait for a
    /// rebuild of their mesh, and `true` is returned; a chunk that is
    /// dirty already is not queued again.
    pub fn mark_dirty(&mut self, chunk_pos: ChunkPos) -> (r: bool)
        ensures
            final(self)@ == old(self)@.mark_dirty(chunk_pos),
            r == (old(self)@.chunks.contains_key(chunk_pos) && !old(self)@.chunks[chunk_pos].dirty),
    {
        self.touch(chunk_pos, false)
    }

    /// Wakes the chunk at `chunk_pos` because a neighbour has arrived. If
    /// the chunk is loaded and does not wait in the queue, it becomes dirty
    /// and its position joins the queue, and `true` is returned. This
    /// queues a chunk again whose rebuild was put off.
    pub fn wake(&mut self, chunk_pos: ChunkPos) -> (r: bool)
        ensures
            final(self)@ == old(self)@.wake(chunk_pos),
            r == (old(self)@.chunks.contains_key(chunk_pos) && !old(self)@.chunks[chunk_pos].queued),
    {
        self.touch(chunk_pos, true)
    }

    /// Takes the position that has waited longest for a rebuild of its mesh
    /// from the queue; `None` if nothing waits. The chunk at that position,
    /// if it is loaded, no longer waits; its dirty flag stays as it is.
    pub fn pop_dirty(&mut self) -> (r: Option<ChunkPos>)
        ensures
            final(self)@ == old(self)@.pop_dirty(),
            r == (if old(self)@.dirty_queue.len() == 0 {
                None::<ChunkPos>
            } else {
                Some(old(self)@.dirty_queue[0])
            }),
    {
        let (mut chunks, mut dirty_chunks) = self.take_parts();
        let ghost before = chunks@;
        let ghost queue = dirty_chunks@;
        let result = dirty_chunks.pop();
        match result {
            None => {},
            Some(chunk_pos) => {
                let key: u128 = key_of(chunk_pos);
                proof {
                    assert forall|p: ChunkPos| p != chunk_pos && queue.contains(
                        p,
                    ) implies dirty_chunks@.contains(p) by {
                        let i = choose|i: int| 0 <= i < queue.len() && queue[i] == p;
                        assert(dirty_chunks@[i - 1] == p);
                    }
                }
                match chunks.remove(key) {
                    None => {
                        proof {
                            assert(before.remove(key) =~= before);
                            assert forall|k: u128| #[trigger] before.contains_key(k) implies chunk_key(
                                before[k].chunk_pos,
                            ) != key by {}
                        }
                    },
                    Some(mut chunk) => {
                        proof {
                            lemma_chunk_key_injective(chunk.chunk_pos, chunk_pos);
                        }
                        chunk.queued = false;
                        proof {
                            Self::lemma_view_insert(before, dirty_chunks@, chunk_pos, chunk);
                            assert(before.remove(key).insert(key, chunk) =~= before.insert(
                                key,
                                chunk,
                            ));
                            assert forall|k: u128| #[trigger]
                                before.contains_key(k) && k != key implies before[k].chunk_pos
                                != chunk_pos by {}
                        }
                        chunks.insert(key, chunk);
                    },
                }
            },
        }
        *self = World { chunks, dirty_chunks };
        result
    }

    /// Sets the dirty flag of the chunk at `chunk_pos`, which does not wait
    /// in the queue, to `dirty`. Nothing changes if the chunk is not loaded.
    fn settle(&mut self, chunk_pos: ChunkPos, dirty: bool)
        requires
            old(self)@.chunks.contains_key(chunk_pos) ==> !old(self)@.chunks[chunk_pos].queued,
        ensures
            final(self)@.dirty_queue == old(self)@.dirty_queue,
            final(self)@.chunks == (if old(self)@.chunks.contains_key(chunk_pos) {
                old(self)@.chunks.insert(chunk_pos, with_dirty(old(self)@.chunks[chunk_pos], dirty))
            } else {
                old(self)@.chunks
            }),
    {
        let key: u128 = key_of(chunk_pos);
        let (mut chunks, dirty_chunks) = self.take_parts();
        let ghost before = chunks@;
        match chunks.remove(key) {
            None => {
                proof {
                    assert(before.remove(key) =~= before);
                }
            },
            Some(mut chunk) => {
                proof {
                    lemma_chunk_key_injective(chunk.chunk_pos, chunk_pos);
                }
                chunk.dirty = dirty;
                proof {
                    Self::lemma_view_insert(before, dirty_chunks@, chunk_pos, chunk);
                    assert(before.remove(key).insert(key, chunk) =~= before.insert(key, chunk));
                }
                chunks.insert(key, chunk);
            },
        }
        *self = World { chunks, dirty_chunks };
    }

    /// The block at `block_pos`; `None` if its chunk is not loaded.
    pub fn get_block(&self, block_pos: BlockPos) -> (r: Option<Block>)
        ensures
            r.is_some() <==> self@.chunks.contains_key(ChunkPos::spec_from_block(block_pos)),
            r.is_some() ==> r.unwrap() == self@.chunks[ChunkPos::spec_from_block(
                block_pos,
            )].data.blocks.spec_get(block_pos.spec_as_chunk_local()),
    {
        match self.get_chunk(ChunkPos::from_block(block_pos)) {
            Some(chunk) => Some(chunk.data.blocks.get(block_pos.as_chunk_local())),
            None => None,
        }
    }

    /// True if a ray stops at `block_pos`: the chunk there is loaded and
    /// the block is not air.
    pub fn is_solid(&self, block_pos: BlockPos) -> (r: bool)
        ensures
            r == (self@.chunks.contains_key(ChunkPos::spec_from_block(block_pos))
                && !self@.chunks[ChunkPos::spec_from_block(block_pos)].data.blocks.spec_get(
                block_pos.spec_as_chunk_local(),
            ).spec_is_air()),
    {
        match self.get_block(block_pos) {
            Some(block) => !block.is_air(),
            None => false,
        }
    }

    /// Asks each chunk of `region` to rebuild its mesh, in the canonical
    /// order; see [`WorldView::touch`].
    fn touch_region(&mut self, region: ChunkRegion, retry: bool)
        requires
            region.in_range(),
        ensures
            final(self)@ == old(self)@.touch_all(region.spec_chunks(), retry),
    {
        let ghost all = region.spec_chunks();
        let ghost start = self@;
        let mut iter = region.iter_chunks();
        let mut done: bool = false;
        proof {
            region.lemma_chunks();
            assert(all.take(0) =~= Seq::<ChunkPos>::empty());
        }
        while !done
            invariant
                region.in_range(),
                iter.spec_valid(),
                iter.spec_region() == region,
                all == region.spec_chunks(),
                all.len() == region.spec_chunk_count(),
                0 <= iter.spec_position() <= all.len(),
                self@ == start.touch_all(all.take(iter.spec_position()), retry),
                done ==> iter.spec_position() == all.len(),
            decreases
                    (all.len() - iter.spec_position()) * 2 + (if done {
                        0int
                    } else {
                        1int
                    }),
        {
            let ghost position = iter.spec_position();
            match iter.next() {
                Some(chunk_pos) => {
                    proof {
                        assert(all.take(position + 1).drop_last() =~= all.take(position));
                    }
                    self.touch(chunk_pos, retry);
                },
                None => {
                    done = true;
                },
            }
        }
        proof {
            assert(all.take(all.len() as int) =~= all);
        }
    }

    /// Replaces the block at `block_pos` by a new block of type
    /// `block_type` with full hit points, and marks every loaded chunk that
    /// the block lies in or touches as dirty, since the faces of all of
    /// them may change. Returns the new block, or `None` without any change
    /// if the chunk of the block is not loaded or the type is not inline.
    pub fn new_block(&mut self, block_pos: BlockPos, block_type: BlockType) -> (r: Option<Block>)
        ensures
            r.is_some() <==> old(self)@.chunks.contains_key(ChunkPos::spec_from_block(block_pos))
                && block_type.spec_is_inline(),
            r.is_none() ==> final(self)@ == old(self)@,
            r.is_some() ==> r.unwrap() == Block::spec_new_from_type(block_type) && ({
                let chunk_pos = ChunkPos::spec_from_block(block_pos);
                let before = old(self)@;
                let after = final(self)@;
                let marked = before.mark_all(block_pos.spec_adjacent_chunks().spec_chunks());
                &&& after.dirty_queue == marked.dirty_queue
                &&& after.chunks.dom() == marked.chunks.dom()
                &&& forall|p: ChunkPos|
                    p != chunk_pos && marked.chunks.contains_key(p) ==> #[trigger] after.chunks[p]
                        == marked.chunks[p]
                &&& after.chunks[chunk_pos].chunk_pos == chunk_pos
                &&& after.chunks[chunk_pos].entity == before.chunks[chunk_pos].entity
                &&& after.chunks[chunk_pos].load_count == before.chunks[chunk_pos].load_count
                &&& after.chunks[chunk_pos].dirty
                &&& after.chunks[chunk_pos].queued == marked.chunks[chunk_pos].queued
                &&& after.chunks[chunk_pos].data.blocks@ == before.chunks[chunk_pos].data.blocks@.update(
                    crate::blocks::block_storage::block_index(block_pos.spec_as_chunk_local()),
                    Block::spec_new_from_type(block_type),
                )
            }),
    {
        let chunk_pos = ChunkPos::from_block(block_pos);
        if !self.is_loaded(chunk_pos) || !block_type.is_inline() {
            return None;
        }
        let region = block_pos.adjacent_chunks();
        let ghost start = self@;
        self.touch_region(region, false);
        proof {
            start.lemma_touch_all(region.spec_chunks(), false);
            region.lemma_chunks();
            assert(region.spec_chunks()[region.spec_index(chunk_pos)] == chunk_pos);
            assert(region.spec_chunks().contains(chunk_pos));
            assert(start.chunks.contains_key(chunk_pos));
            assert(self@.chunks.dom().contains(chunk_pos));
        }
        let block = self.write_block(chunk_pos, block_pos.as_chunk_local(), block_type);
        Some(block)
    }

    /// Writes a new block of type `block_type` at the chunk-local position
    /// `local` of the loaded chunk at `chunk_pos`; nothing else changes.
    fn write_block(&mut self, chunk_pos: ChunkPos, local: BlockPos, block_type: BlockType) -> (r:
        Block)
        requires
            old(self)@.chunks.contains_key(chunk_pos),
            local.spec_is_chunk_local(),
            block_type.spec_is_inline(),
        ensures
            r == Block::spec_new_from_type(block_type),
            final(self)@.dirty_queue == old(self)@.dirty_queue,
            final(self)@.chunks.dom() == old(self)@.chunks.dom(),
            forall|p: ChunkPos|
                p != chunk_pos && old(self)@.chunks.contains_key(p) ==> #[trigger] final(self)@.chunks[p]
                    == old(self)@.chunks[p],
            final(self)@.chunks[chunk_pos].chunk_pos == chunk_pos,
            final(self)@.chunks[chunk_pos].entity == old(self)@.chunks[chunk_pos].entity,
            final(self)@.chunks[chunk_pos].load_count == old(self)@.chunks[chunk_pos].load_count,
            final(self)@.chunks[chunk_pos].dirty == old(self)@.chunks[chunk_pos].dirty,
            final(self)@.chunks[chunk_pos].queued == old(self)@.chunks[chunk_pos].queued,
            final(self)@.chunks[chunk_pos].data.blocks@ == old(self)@.chunks[chunk_pos].data.blocks@.update(
                crate::blocks::block_storage::block_index(local),
                Block::spec_new_from_type(block_type),
            ),
    {
        let key: u128 = key_of(chunk_pos);
        let (mut chunks, dirty_chunks) = self.take_parts();
        let ghost before = chunks@;
        let result = match chunks.remove(key) {
            None => Block::default(),
            Some(mut chunk) => {
                proof {
                    lemma_chunk_key_injective(chunk.chunk_pos, chunk_pos);
                }
                let written = chunk.data.blocks.new_block(local, block_type);
                proof {
                    Self::lemma_view_insert(before, dirty_chunks@, chunk_pos, chunk);
                    assert(before.remove(key).insert(key, chunk) =~= before.insert(key, chunk));
                    assert(Self::view_of(before, dirty_chunks@).chunks.insert(chunk_pos, chunk).dom()
                        =~= Self::view_of(before, dirty_chunks@).chunks.dom());
                }
                chunks.insert(key, chunk);
                match written {
                    Ok(block) => block,
                    Err(_) => Block::default(),
                }
            },
        };
        *self = World { chunks, dirty_chunks };
        result
    }

    /// True if the chunk at `chunk_pos` has a neighbour on every side whose
    /// coordinates fit in `i32`.
    pub open spec fn has_neighbours(chunk_pos: ChunkPos) -> bool {
        &&& i32::MIN < chunk_pos.x < i32::MAX
        &&& i32::MIN < chunk_pos.y < i32::MAX
        &&& i32::MIN < chunk_pos.z < i32::MAX
    }

    /// The region of three by three by three chunks around `chunk_pos`.
    pub open spec fn spec_remesh_region(chunk_pos: ChunkPos) -> ChunkRegion {
        ChunkRegion {
            min_chunk: ChunkPos {
                x: (chunk_pos.x - 1) as i32,
                y: (chunk_pos.y - 1) as i32,
                z: (chunk_pos.z - 1) as i32,
            },
            size: UVec3 { x: 3, y: 3, z: 3 },
        }
    }

    /// The region of three by three by three chunks around `chunk_pos`: the
    /// chunks that the mesh of the chunk at `chunk_pos` depends on.
    pub fn remesh_region(chunk_pos: ChunkPos) -> (r: ChunkRegion)
        requires
            Self::has_neighbours(chunk_pos),
        ensures
            r == Self::spec_remesh_region(chunk_pos),
            r.in_range(),
            r.spec_chunk_count() == 27,
            r.spec_contains_chunk(chunk_pos),
    {
        let r = ChunkRegion {
            min_chunk: ChunkPos::new(chunk_pos.x - 1, chunk_pos.y - 1, chunk_pos.z - 1),
            size: UVec3::new(3, 3, 3),
        };
        proof {
            assert(r.spec_chunk_count() == 27) by (nonlinear_arith)
                requires
                    r.size.x == 3,
                    r.size.y == 3,
                    r.size.z == 3,
                    r.spec_chunk_count() == r.size.x * r.size.y * r.size.z,
            ;
        }
        r
    }

    /// True if the chunk at `chunk_pos` can have neighbours; see
    /// [`World::has_neighbours`].
    pub fn can_remesh(chunk_pos: ChunkPos) -> (r: bool)
        ensures
            r == Self::has_neighbours(chunk_pos),
    {
        i32::MIN < chunk_pos.x && chunk_pos.x < i32::MAX && i32::MIN < chunk_pos.y && chunk_pos.y
            < i32::MAX && i32::MIN < chunk_pos.z && chunk_pos.z < i32::MAX
    }

    /// True if every chunk of `region` is loaded.
    pub fn is_region_loaded(&self, region: ChunkRegion) -> (r: bool)
        requires
            region.in_range(),
        ensures
            r == self@.region_loaded(region),
    {
        let ghost all = region.spec_chunks();
        let mut iter = region.iter_chunks();
        let mut done: bool = false;
        let mut loaded: bool = true;
        proof {
            region.lemma_chunks();
        }
        while !done
            invariant
                region.in_range(),
                iter.spec_valid(),
                iter.spec_region() == region,
                all == region.spec_chunks(),
                all.len() == region.spec_chunk_count(),
                0 <= iter.spec_position() <= all.len(),
                loaded ==> forall|i: int|
                    0 <= i < iter.spec_position() ==> self@.chunks.contains_key(#[trigger] all[i]),
                !loaded ==> done && !self@.region_loaded(region),
                done && loaded ==> iter.spec_position() == all.len(),
            decreases
                    (all.len() - iter.spec_position()) * 2 + (if done {
                        0int
                    } else {
                        1int
                    }),
        {
            match iter.next() {
                Some(chunk_pos) => {
                    if !self.is_loaded(chunk_pos) {
                        loaded = false;
                        done = true;
                    }
                },
                None => {
                    done = true;
                },
            }
        }
        proof {
            if loaded {
                assert forall|p: ChunkPos| #[trigger]
                    region.spec_contains_chunk(p) implies self@.chunks.contains_key(p) by {
                    assert(all[region.spec_index(p)] == p);
                }
            }
        }
        loaded
    }
}

/// The world with the data `data` in the chunk at `chunk_pos`.
pub open spec fn spec_set_data(world: WorldView, chunk_pos: ChunkPos, data: ChunkData) -> WorldView {
    WorldView {
        chunks: world.chunks.insert(chunk_pos, with_data(world.chunks[chunk_pos], data)),
        dirty_queue: world.dirty_queue,
    }
}

/// A chunk that waits for a rebuild of its mesh, as taken from the queue.
#[derive(Debug, Clone, Copy, PartialEq, Eq, Structural)]
pub struct RemeshJob {
    /// The chunk whose mesh is to be rebuilt.
    pub chunk_pos: ChunkPos,
    /// True if the chunk and its 26 neighbours are loaded, so that the
    /// mesh can be built now. If not, nothing is to be done: the job is
    /// put off, the chunk stays dirty, and it is queued again when a
    /// neighbour arrives.
    pub ready: bool,
}

impl World {
    /// Hands the generated `data` to the chunk at `chunk_pos` and wakes that
    /// chunk and then its 26 neighbours: each of them that is loaded and
    /// does not wait in the queue becomes dirty and is queued. That is how a
    /// chunk whose rebuild was put off for want of this neighbour gets into
    /// the queue again. Returns `false`, and changes nothing, if the chunk
    /// is not loaded any more.
    pub fn finish_load(&mut self, chunk_pos: ChunkPos, data: ChunkData) -> (r: bool)
        requires
            Self::has_neighbours(chunk_pos),
        ensures
            r == old(self)@.chunks.contains_key(chunk_pos),
            !r ==> final(self)@ == old(self)@,
            r ==> final(self)@ == spec_set_data(old(self)@, chunk_pos, data).wake(
                chunk_pos,
            ).wake_all(Self::spec_remesh_region(chunk_pos).spec_chunks()),
    {
        let key: u128 = key_of(chunk_pos);
        let (mut chunks, dirty_chunks) = self.take_parts();
        let ghost before = chunks@;
        let found = match chunks.remove(key) {
            None => {
                proof {
                    assert(before.remove(key) =~= before);
                }
                false
            },
            Some(mut chunk) => {
                chunk.data = data;
                proof {
                    Self::lemma_view_insert(before, dirty_chunks@, chunk_pos, chunk);
                    assert(before.remove(key).insert(key, chunk) =~= before.insert(key, chunk));
                }
                chunks.insert(key, chunk);
                true
            },
        };
        *self = World { chunks, dirty_chunks };
        if found {
            self.wake(chunk_pos);
            self.touch_region(Self::remesh_region(chunk_pos), true);
        }
        found
    }

    /// Takes the chunk that has waited longest for a rebuild of its mesh
    /// from the queue; `None` if nothing waits. The job says whether the
    /// mesh can be built now. If it can, the chunk is clean from then on.
    /// If a neighbour is missing, the job is put off: the chunk stays
    /// dirty without waiting in the queue, and [`World::finish_load`] of a
    /// neighbour queues it again.
    pub fn take_remesh_job(&mut self) -> (r: Option<RemeshJob>)
        ensures
            final(self)@ == old(self)@.take_remesh_job(),
            r.is_none() <==> old(self)@.dirty_queue.len() == 0,
            r.is_some() ==> {
                let chunk_pos = old(self)@.dirty_queue[0];
                let after = final(self)@;
                &&& r.unwrap().chunk_pos == chunk_pos
                &&& r.unwrap().ready == old(self)@.can_mesh(chunk_pos)
                &&& after.dirty_queue == old(self)@.dirty_queue.drop_first()
                &&& after.chunks.dom() == old(self)@.chunks.dom()
                &&& r.unwrap().ready ==> after.chunks.contains_key(chunk_pos)
                    && !after.chunks[chunk_pos].dirty
                &&& !r.unwrap().ready && after.chunks.contains_key(chunk_pos)
                    ==> after.chunks[chunk_pos].dirty && !after.chunks[chunk_pos].queued
            },
    {
        let ghost start = self@;
        match self.pop_dirty() {
            None => None,
            Some(chunk_pos) => {
                let ghost popped = self@;
                proof {
                    assert(popped.chunks.dom() =~= start.chunks.dom());
                    assert forall|region: ChunkRegion|
                        popped.region_loaded(region) == start.region_loaded(region) by {
                        if popped.region_loaded(region) {
                            assert forall|p: ChunkPos| #[trigger]
                                region.spec_contains_chunk(p) implies start.chunks.contains_key(
                                p,
                            ) by {
                                assert(popped.chunks.contains_key(p));
                            }
                        }
                        if start.region_loaded(region) {
                            assert forall|p: ChunkPos| #[trigger]
                                region.spec_contains_chunk(p) implies popped.chunks.contains_key(
                                p,
                            ) by {
                                assert(start.chunks.contains_key(p));
                            }
                        }
                    }
                }
                let ready = Self::can_remesh(chunk_pos) && self.is_region_loaded(
                    Self::remesh_region(chunk_pos),
                );
                self.settle(chunk_pos, !ready);
                proof {
                    assert(self@.chunks =~= start.take_remesh_job().chunks);
                    assert(self@.chunks.dom() =~= start.chunks.dom());
                    if ready {
                        assert(Self::spec_remesh_region(chunk_pos).spec_contains_chunk(chunk_pos));
                    }
                }
                Some(RemeshJob { chunk_pos, ready })
            },
        }
    }
}

} // verus!
