//! One chunk of the world: its blocks, how many loaders hold it and whether
//! its geometry is stale.

use vstd::prelude::*;
use crate::blocks::{Block, BlockStorage};
use crate::types::ChunkPos;
use crate::world::dirty_queue::DirtyQueue;

verus! {

/// The data of a chunk that readers and writers share.
#[derive(Debug)]
pub struct ChunkData {
    pub blocks: BlockStorage,
}

impl ChunkData {
    /// Chunk data that holds `blocks`.
    pub fn new(blocks: BlockStorage) -> (r: Self)
        ensures
            r.blocks == blocks,
    {
        ChunkData { blocks }
    }
}

impl From<BlockStorage> for ChunkData {
    /// Chunk data that holds `blocks`.
    fn from(blocks: BlockStorage) -> (r: Self) {
        ChunkData { blocks }
    }
}

impl vstd::std_specs::convert::FromSpecImpl<BlockStorage> for ChunkData {
    open spec fn obeys_from_spec() -> bool {
        true
    }

    open spec fn from_spec(blocks: BlockStorage) -> Self {
        ChunkData { blocks }
    }
}

impl Default for ChunkData {
    fn default() -> (r: Self)
        ensures
            r.blocks.spec_is_empty(),
            r.blocks@ == Seq::new(32768, |i: int| Block::spec_default()),
    {
        ChunkData { blocks: BlockStorage::default() }
    }
}

impl Clone for ChunkData {
    fn clone(&self) -> (r: Self)
        ensures
            r.blocks@ == self.blocks@,
            r.blocks.spec_is_empty() == self.blocks.spec_is_empty(),
    {
        ChunkData { blocks: self.blocks.clone() }
    }
}

/// A chunk in the registry. It is held by at least one loader for as long as
/// it is registered.
#[derive(Debug)]
pub struct Chunk {
    /// The blocks of the chunk; empty until generation has delivered them.
    pub data: ChunkData,
    pub chunk_pos: ChunkPos,
    /// The handle by which the presentation layer knows this chunk.
    pub entity: u64,
    /// The number of loaders whose region covers this chunk.
    pub load_count: u32,
    /// True while the mesh of the chunk is out of date: a rebuild waits in
    /// the queue, or it is put off until the neighbours of the chunk are
    /// loaded.
    pub dirty: bool,
    /// True while the position of the chunk waits in the queue of chunks
    /// to be remeshed. A chunk that is dirty and does not wait is put off.
    pub queued: bool,
}

/// `chunk` with its dirty flag set to `dirty`.
pub open spec fn with_dirty(chunk: Chunk, dirty: bool) -> Chunk {
    Chunk {
        data: chunk.data,
        chunk_pos: chunk.chunk_pos,
        entity: chunk.entity,
        load_count: chunk.load_count,
        dirty,
        queued: chunk.queued,
    }
}

/// `chunk` with its dirty flag set to `dirty`, waiting in the queue or not
/// as `queued` says.
pub open spec fn with_queue_state(chunk: Chunk, dirty: bool, queued: bool) -> Chunk {
    Chunk {
        data: chunk.data,
        chunk_pos: chunk.chunk_pos,
        entity: chunk.entity,
        load_count: chunk.load_count,
        dirty,
        queued,
    }
}

/// `chunk` held by `load_count` loaders.
pub open spec fn with_load_count(chunk: Chunk, load_count: u32) -> Chunk {
    Chunk {
        data: chunk.data,
        chunk_pos: chunk.chunk_pos,
        entity: chunk.entity,
        load_count,
        dirty: chunk.dirty,
        queued: chunk.queued,
    }
}

/// `chunk` with the data `data`.
pub open spec fn with_data(chunk: Chunk, data: ChunkData) -> Chunk {
    Chunk {
        data,
        chunk_pos: chunk.chunk_pos,
        entity: chunk.entity,
        load_count: chunk.load_count,
        dirty: chunk.dirty,
        queued: chunk.queued,
    }
}

impl Chunk {
    /// Marks the chunk as dirty. Only a chunk that was not dirty changes: it
    /// becomes dirty and puts its position into `queue`, so that a chunk
    /// is queued once for each time that it turns from clean to dirty.
    /// Returns `true` if the position was put into the queue.
    pub fn mark_dirty(&mut self, queue: &mut DirtyQueue) -> (r: bool)
        ensures
            *final(self) == (if old(self).dirty {
                *old(self)
            } else {
                with_queue_state(*old(self), true, true)
            }),
            r == !old(self).dirty,
            final(queue)@ == (if old(self).dirty {
                old(queue)@
            } else {
                old(queue)@.push(old(self).chunk_pos)
            }),
    {
        let was_dirty: bool = self.dirty;
        if !was_dirty {
            self.dirty = true;
            self.queued = true;
            queue.push(self.chunk_pos);
        }
        !was_dirty
    }

    /// Asks for a rebuild of the mesh because a neighbour has arrived. A
    /// chunk that does not wait in `queue` becomes dirty and puts its
    /// position there, also if it was dirty and put off; a chunk that
    /// waits already stays as it is. Returns `true` if the position was
    /// put into the queue.
    pub fn wake(&mut self, queue: &mut DirtyQueue) -> (r: bool)
        ensures
            *final(self) == (if old(self).queued {
                *old(self)
            } else {
                with_queue_state(*old(self), true, true)
            }),
            r == !old(self).queued,
            final(queue)@ == (if old(self).queued {
                old(queue)@
            } else {
                old(queue)@.push(old(self).chunk_pos)
            }),
    {
        let was_queued: bool = self.queued;
        if !was_queued {
            self.dirty = true;
            self.queued = true;
            queue.push(self.chunk_pos);
        }
        !was_queued
    }

    /// A chunk as it enters the registry: held once, without blocks, and
    /// not dirty, since no blocks and no mesh agree with each other.
    pub fn new(chunk_pos: ChunkPos, entity: u64) -> (r: Self)
        ensures
            r.chunk_pos == chunk_pos,
            r.entity == entity,
            r.load_count == 1,
            !r.dirty,
            !r.queued,
            r.data.blocks.spec_is_empty(),
            r.data.blocks@ == Seq::new(32768, |i: int| Block::spec_default()),
    {
        Chunk {
            data: ChunkData::default(),
            chunk_pos,
            entity,
            load_count: 1,
            dirty: false,
            queued: false,
        }
    }
}

} // verus!
