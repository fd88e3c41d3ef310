//! A region of chunks whose data is held for reading all at once.

use vstd::prelude::*;
use crate::types::ChunkPos;
use crate::world::chunk::ChunkData;
use crate::world::chunk_region::ChunkRegion;
use crate::world::world::World;

verus! {

/// The data of every chunk of a region, held for reading, in the region's
/// canonical order.
pub struct LockedChunkArea<'chunks> {
    chunks: Vec<&'chunks ChunkData>,
    region: ChunkRegion,
}

impl<'chunks> LockedChunkArea<'chunks> {
    #[verifier::type_invariant]
    closed spec fn valid(self) -> bool {
        &&& self.region.in_range()
        &&& self.chunks@.len() == self.region.spec_chunk_count()
    }

    /// The region that is held.
    pub closed spec fn spec_region(self) -> ChunkRegion {
        self.region
    }

    /// The chunk data that is held, in the canonical order of the region.
    pub closed spec fn spec_chunks(self) -> Seq<&'chunks ChunkData> {
        self.chunks@
    }

    /// Holds `chunks` as the data of `region`, in its canonical order;
    /// `None` unless there is one entry for each position of the region.
    pub fn from_chunks(chunks: Vec<&'chunks ChunkData>, region: ChunkRegion) -> (r: Option<Self>)
        requires
            region.in_range(),
        ensures
            r.is_some() <==> chunks@.len() == region.spec_chunk_count(),
            r.is_some() ==> r.unwrap().spec_region() == region && r.unwrap().spec_chunks()
                == chunks@,
    {
        let len: usize = chunks.len();
        match region.checked_chunk_count() {
            Some(count) => {
                if len == count {
                    Some(LockedChunkArea { chunks, region })
                } else {
                    None
                }
            },
            None => None,
        }
    }

    /// Holds the data of every chunk of `region` in `world` for reading, in
    /// the canonical order of the region; `None` if a chunk of the region
    /// is not loaded.
    pub fn new(world: &'chunks World, region: ChunkRegion) -> (r: Option<Self>)
        requires
            region.in_range(),
        ensures
            r.is_some() <==> world@.region_loaded(region),
            r.is_some() ==> r.unwrap().spec_region() == region && r.unwrap().spec_chunks().len()
                == region.spec_chunk_count() && forall|i: int|
                0 <= i < region.spec_chunk_count() ==> *#[trigger] r.unwrap().spec_chunks()[i]
                    == world@.chunks[region.spec_chunks()[i]].data,
    {
        let ghost all = region.spec_chunks();
        let mut chunks: Vec<&'chunks ChunkData> = Vec::new();
        let mut iter = region.iter_chunks();
        let mut done: bool = false;
        proof {
            region.lemma_chunks();
        }
        while !done
            invariant
                region.in_range(),
                iter.spec_valid(),
                iter.spec_region() == region,
                all == region.spec_chunks(),
                all.len() == region.spec_chunk_count(),
                0 <= iter.spec_position() <= all.len(),
                chunks@.len() == iter.spec_position(),
                forall|i: int| 0 <= i < chunks@.len() ==> world@.chunks.contains_key(#[trigger] all[i]),
                forall|i: int|
                    0 <= i < chunks@.len() ==> *#[trigger] chunks@[i] == world@.chunks[all[i]].data,
                done ==> iter.spec_position() == all.len(),
            decreases
                    (all.len() - iter.spec_position()) * 2 + (if done {
                        0int
                    } else {
                        1int
                    }),
        {
            let ghost position = iter.spec_position();
            let ghost held = chunks@;
            match iter.next() {
                Some(chunk_pos) => {
                    proof {
                        assert(all[position] == chunk_pos);
                    }
                    match world.get_chunk(chunk_pos) {
                        Some(chunk) => {
                            chunks.push(&chunk.data);
                            proof {
                                assert forall|i: int| 0 <= i < chunks@.len() implies *#[trigger] chunks@[i]
                                    == world@.chunks[all[i]].data by {
                                    if i < position {
                                        assert(chunks@[i] == held[i]);
                                    }
                                }
                            }
                        },
                        None => {
                            return None;
                        },
                    }
                },
                None => {
                    done = true;
                },
            }
        }
        proof {
            assert forall|p: ChunkPos| #[trigger]
                region.spec_contains_chunk(p) implies world@.chunks.contains_key(p) by {
                assert(all[region.spec_index(p)] == p);
            }
        }
        Some(LockedChunkArea { chunks, region })
    }

    pub fn region(&self) -> (r: ChunkRegion)
        ensures
            r == self.spec_region(),
            r.in_range(),
            self.spec_chunks().len() == r.spec_chunk_count(),
    {
        proof {
            use_type_invariant(self);
        }
        self.region
    }

    /// The data of the chunk at `chunk_pos`; `None` outside the region.
    pub fn get_chunk_data(&self, chunk_pos: ChunkPos) -> (r: Option<&ChunkData>)
        ensures
            r.is_some() <==> self.spec_region().spec_contains_chunk(chunk_pos),
            r.is_some() ==> r.unwrap() == self.spec_chunks()[self.spec_region().spec_index(
                chunk_pos,
            )],
    {
        proof {
            use_type_invariant(self);
        }
        let len: usize = self.chunks.len();
        match self.region.get_array_index(chunk_pos) {
            Some(i) => if i < len {
                Some(self.chunks[i])
            } else {
                None
            },
            None => None,
        }
    }

    /// The data of the chunk at `offset` from the region's minimum; `None`
    /// outside the region.
    pub fn get_chunk_data_relative(&self, offset: ChunkPos) -> (r: Option<&ChunkData>)
        ensures
            r.is_some() <==> self.spec_region().spec_contains_offset(offset),
            r.is_some() ==> r.unwrap() == self.spec_chunks()[self.spec_region().spec_index_relative(
                offset,
            )],
    {
        proof {
            use_type_invariant(self);
        }
        let len: usize = self.chunks.len();
        match self.region.get_array_index_relative(offset) {
            Some(i) => if i < len {
                Some(self.chunks[i])
            } else {
                None
            },
            None => None,
        }
    }
}

} // verus!
