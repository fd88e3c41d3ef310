//! Integer coordinates: block positions, chunk positions and unsigned extents.

use vstd::prelude::*;
use crate::world::chunk_region::ChunkRegion;

verus! {

/// Number of blocks along each edge of a chunk.
pub const CHUNK_SIZE: usize = 32;

/// Number of blocks in a chunk.
pub const CHUNK_BLOCK_COUNT: usize = 32768;

/// Floor of `v / 32`: the chunk coordinate that holds block coordinate `v`.
pub open spec fn chunk_coord(v: int) -> int {
    v / 32
}

/// `v` modulo 32, always in `0..32`: the coordinate of `v` inside its chunk.
pub open spec fn local_coord(v: int) -> int {
    v % 32
}

/// Computes [`chunk_coord`] without leaving the range of `i32`.
pub fn chunk_coord_of(v: i32) -> (r: i32)
    ensures
        r == chunk_coord(v as int),
        -67108864 <= r <= 67108863,
{
    if v >= 0 {
        v / 32
    } else {
        let m: i32 = -(v + 1);
        -(m / 32) - 1
    }
}

/// Computes [`local_coord`].
pub fn local_coord_of(v: i32) -> (r: i32)
    ensures
        r == local_coord(v as int),
        0 <= r < 32,
{
    if v >= 0 {
        v % 32
    } else {
        let m: i32 = -(v + 1);
        31 - (m % 32)
    }
}

/// The least chunk coordinate whose chunk the block coordinate `v` lies in
/// or touches: the chunk before the one that holds `v` if `v` is the first
/// coordinate of its chunk, else the chunk that holds `v`.
pub open spec fn adjacent_min(v: int) -> int {
    if local_coord(v) == 0 {
        chunk_coord(v) - 1
    } else {
        chunk_coord(v)
    }
}

/// The number of chunks along one axis that the block coordinate `v` lies in
/// or touches: two if `v` is the first or the last coordinate of its chunk,
/// else one.
pub open spec fn adjacent_size(v: int) -> int {
    if local_coord(v) == 0 || local_coord(v) == 31 {
        2
    } else {
        1
    }
}

/// Along one axis, the chunks from [`adjacent_min`] on, [`adjacent_size`] of
/// them, are those whose blocks, widened by one block on each side, hold `v`.
pub proof fn lemma_adjacent_axis(v: int, c: int)
    ensures
        adjacent_min(v) <= c < adjacent_min(v) + adjacent_size(v) <==> c * 32 - 1 <= v <= c * 32
            + 32,
{
}

/// One of the three coordinate axes.
#[derive(Debug, Clone, Copy, PartialEq, Eq, Structural)]
pub enum VecAxis {
    X,
    Y,
    Z,
}

/// A pair of unsigned numbers: a tile of the texture atlas, or how often a
/// texture repeats along the two sides of a face.
#[derive(Debug, Clone, Copy, PartialEq, Eq, Structural, Hash)]
pub struct UVec2 {
    pub x: u32,
    pub y: u32,
}

impl UVec2 {
    pub fn new(x: u32, y: u32) -> (r: Self)
        ensures
            r == (UVec2 { x, y }),
    {
        UVec2 { x, y }
    }
}

/// A vector of three unsigned extents, one per axis.
#[derive(Debug, Clone, Copy, PartialEq, Eq, Structural, Hash)]
pub struct UVec3 {
    pub x: u32,
    pub y: u32,
    pub z: u32,
}

impl UVec3 {
    pub fn new(x: u32, y: u32, z: u32) -> (r: Self)
        ensures
            r == (UVec3 { x, y, z }),
    {
        UVec3 { x, y, z }
    }

    /// The component along `axis`.
    pub open spec fn spec_axis(self, axis: VecAxis) -> u32 {
        match axis {
            VecAxis::X => self.x,
            VecAxis::Y => self.y,
            VecAxis::Z => self.z,
        }
    }

    pub fn axis(&self, axis: VecAxis) -> (r: u32)
        ensures
            r == self.spec_axis(axis),
    {
        match axis {
            VecAxis::X => self.x,
            VecAxis::Y => self.y,
            VecAxis::Z => self.z,
        }
    }
}

/// The coordinate of a chunk, in units of whole chunks.
#[derive(Debug, Clone, Copy, PartialEq, Eq, Structural, Hash)]
pub struct ChunkPos {
    pub x: i32,
    pub y: i32,
    pub z: i32,
}

impl ChunkPos {
    pub fn new(x: i32, y: i32, z: i32) -> (r: Self)
        ensures
            r == (ChunkPos { x, y, z }),
    {
        ChunkPos { x, y, z }
    }

    pub fn x(&self) -> (r: i32)
        ensures
            r == self.x,
    {
        self.x
    }

    pub fn y(&self) -> (r: i32)
        ensures
            r == self.y,
    {
        self.y
    }

    pub fn z(&self) -> (r: i32)
        ensures
            r == self.z,
    {
        self.z
    }

    /// The component along `axis`.
    pub open spec fn spec_axis(self, axis: VecAxis) -> i32 {
        match axis {
            VecAxis::X => self.x,
            VecAxis::Y => self.y,
            VecAxis::Z => self.z,
        }
    }

    pub fn axis(&self, axis: VecAxis) -> (r: i32)
        ensures
            r == self.spec_axis(axis),
    {
        match axis {
            VecAxis::X => self.x,
            VecAxis::Y => self.y,
            VecAxis::Z => self.z,
        }
    }

    /// The chunk that holds the block at `block_pos`.
    pub open spec fn spec_from_block(block_pos: BlockPos) -> ChunkPos {
        ChunkPos {
            x: chunk_coord(block_pos.x as int) as i32,
            y: chunk_coord(block_pos.y as int) as i32,
            z: chunk_coord(block_pos.z as int) as i32,
        }
    }

    /// The chunk that holds the block at `block_pos`: each coordinate is
    /// divided by the chunk size and rounded towards negative infinity.
    pub fn from_block(block_pos: BlockPos) -> (r: Self)
        ensures
            r == Self::spec_from_block(block_pos),
            r.x == chunk_coord(block_pos.x as int),
            r.y == chunk_coord(block_pos.y as int),
            r.z == chunk_coord(block_pos.z as int),
    {
        ChunkPos {
            x: chunk_coord_of(block_pos.x),
            y: chunk_coord_of(block_pos.y),
            z: chunk_coord_of(block_pos.z),
        }
    }

    /// True if the corner block of this chunk has coordinates that fit in `i32`.
    pub open spec fn in_block_range(self) -> bool {
        &&& -67108864 <= self.x <= 67108863
        &&& -67108864 <= self.y <= 67108863
        &&& -67108864 <= self.z <= 67108863
    }

    /// True if adding `rhs` to this position stays within `i32` on every axis.
    pub open spec fn can_add(self, rhs: ChunkPos) -> bool {
        &&& i32::MIN <= self.x + rhs.x <= i32::MAX
        &&& i32::MIN <= self.y + rhs.y <= i32::MAX
        &&& i32::MIN <= self.z + rhs.z <= i32::MAX
    }

    /// Component-wise sum.
    pub fn add(self, rhs: ChunkPos) -> (r: Self)
        requires
            self.can_add(rhs),
        ensures
            r.x == self.x + rhs.x,
            r.y == self.y + rhs.y,
            r.z == self.z + rhs.z,
    {
        ChunkPos { x: self.x + rhs.x, y: self.y + rhs.y, z: self.z + rhs.z }
    }

    /// True if subtracting `rhs` from this position stays within `i32` on every axis.
    pub open spec fn can_sub(self, rhs: ChunkPos) -> bool {
        &&& i32::MIN <= self.x - rhs.x <= i32::MAX
        &&& i32::MIN <= self.y - rhs.y <= i32::MAX
        &&& i32::MIN <= self.z - rhs.z <= i32::MAX
    }

    /// Component-wise difference.
    pub fn sub(self, rhs: ChunkPos) -> (r: Self)
        requires
            self.can_sub(rhs),
        ensures
            r.x == self.x - rhs.x,
            r.y == self.y - rhs.y,
            r.z == self.z - rhs.z,
    {
        ChunkPos { x: self.x - rhs.x, y: self.y - rhs.y, z: self.z - rhs.z }
    }
}

impl From<BlockPos> for ChunkPos {
    /// The chunk that holds the block at `block_pos`.
    fn from(block_pos: BlockPos) -> (r: Self) {
        ChunkPos::from_block(block_pos)
    }
}

impl vstd::std_specs::convert::FromSpecImpl<BlockPos> for ChunkPos {
    open spec fn obeys_from_spec() -> bool {
        true
    }

    open spec fn from_spec(block_pos: BlockPos) -> Self {
        ChunkPos::spec_from_block(block_pos)
    }
}

impl Default for ChunkPos {
    fn default() -> (r: Self)
        ensures
            r == (ChunkPos { x: 0, y: 0, z: 0 }),
    {
        ChunkPos { x: 0, y: 0, z: 0 }
    }
}

/// The coordinate of a block, in units of whole blocks.
#[derive(Debug, Clone, Copy, PartialEq, Eq, Structural, Hash)]
pub struct BlockPos {
    pub x: i32,
    pub y: i32,
    pub z: i32,
}

impl BlockPos {
    pub fn new(x: i32, y: i32, z: i32) -> (r: Self)
        ensures
            r == (BlockPos { x, y, z }),
    {
        BlockPos { x, y, z }
    }

    /// The component along `axis`.
    pub open spec fn spec_axis(self, axis: VecAxis) -> i32 {
        match axis {
            VecAxis::X => self.x,
            VecAxis::Y => self.y,
            VecAxis::Z => self.z,
        }
    }

    pub fn axis(&self, axis: VecAxis) -> (r: i32)
        ensures
            r == self.spec_axis(axis),
    {
        match axis {
            VecAxis::X => self.x,
            VecAxis::Y => self.y,
            VecAxis::Z => self.z,
        }
    }

    /// This position moved by `direction` blocks along `axis`.
    pub open spec fn spec_step(self, axis: VecAxis, direction: int) -> BlockPos {
        match axis {
            VecAxis::X => BlockPos { x: (self.x + direction) as i32, y: self.y, z: self.z },
            VecAxis::Y => BlockPos { x: self.x, y: (self.y + direction) as i32, z: self.z },
            VecAxis::Z => BlockPos { x: self.x, y: self.y, z: (self.z + direction) as i32 },
        }
    }

    /// This position moved by `direction` blocks along `axis`: the step of
    /// a ray that crosses into the next block on that axis.
    pub fn step(self, axis: VecAxis, direction: i32) -> (r: Self)
        requires
            i32::MIN <= self.spec_axis(axis) + direction <= i32::MAX,
        ensures
            r == self.spec_step(axis, direction as int),
            r.spec_axis(axis) == self.spec_axis(axis) + direction,
    {
        match axis {
            VecAxis::X => BlockPos { x: self.x + direction, y: self.y, z: self.z },
            VecAxis::Y => BlockPos { x: self.x, y: self.y + direction, z: self.z },
            VecAxis::Z => BlockPos { x: self.x, y: self.y, z: self.z + direction },
        }
    }

    /// True if every coordinate lies in `0..32`.
    pub open spec fn spec_is_chunk_local(self) -> bool {
        &&& 0 <= self.x < 32
        &&& 0 <= self.y < 32
        &&& 0 <= self.z < 32
    }

    pub fn is_chunk_local(&self) -> (r: bool)
        ensures
            r == self.spec_is_chunk_local(),
    {
        self.x >= 0 && self.x < 32 && self.y >= 0 && self.y < 32 && self.z >= 0 && self.z < 32
    }

    /// This position relative to the corner of the chunk that holds it.
    pub open spec fn spec_as_chunk_local(self) -> BlockPos {
        BlockPos {
            x: local_coord(self.x as int) as i32,
            y: local_coord(self.y as int) as i32,
            z: local_coord(self.z as int) as i32,
        }
    }

    /// This position relative to the corner of the chunk that holds it: each
    /// coordinate is reduced modulo the chunk size into `0..32`.
    pub fn as_chunk_local(&self) -> (r: Self)
        ensures
            r == self.spec_as_chunk_local(),
            r.spec_is_chunk_local(),
    {
        BlockPos {
            x: local_coord_of(self.x),
            y: local_coord_of(self.y),
            z: local_coord_of(self.z),
        }
    }

    /// The region of the chunks that this block lies in or touches, also
    /// over an edge or a corner.
    pub open spec fn spec_adjacent_chunks(self) -> ChunkRegion {
        ChunkRegion {
            min_chunk: ChunkPos {
                x: adjacent_min(self.x as int) as i32,
                y: adjacent_min(self.y as int) as i32,
                z: adjacent_min(self.z as int) as i32,
            },
            size: UVec3 {
                x: adjacent_size(self.x as int) as u32,
                y: adjacent_size(self.y as int) as u32,
                z: adjacent_size(self.z as int) as u32,
            },
        }
    }

    /// The region of the chunks that this block lies in or touches, also
    /// over an edge or a corner: the chunks whose faces can change when
    /// this block changes.
    pub fn adjacent_chunks(&self) -> (r: ChunkRegion)
        ensures
            r == self.spec_adjacent_chunks(),
            r.in_range(),
            r.spec_contains_chunk(ChunkPos::spec_from_block(*self)),
            1 <= r.spec_chunk_count() <= 8,
    {
        let local_pos = self.as_chunk_local();
        let mut chunk_pos = ChunkPos::from_block(*self);
        let mut size = UVec3::new(1, 1, 1);
        if local_pos.x == 0 {
            chunk_pos.x = chunk_pos.x - 1;
            size.x = size.x + 1;
        } else if local_pos.x == 31 {
            size.x = size.x + 1;
        }
        if local_pos.y == 0 {
            chunk_pos.y = chunk_pos.y - 1;
            size.y = size.y + 1;
        } else if local_pos.y == 31 {
            size.y = size.y + 1;
        }
        if local_pos.z == 0 {
            chunk_pos.z = chunk_pos.z - 1;
            size.z = size.z + 1;
        } else if local_pos.z == 31 {
            size.z = size.z + 1;
        }
        proof {
            let sx = size.x as int;
            let sy = size.y as int;
            let sz = size.z as int;
            assert(1 <= sx * sy * sz <= 8) by (nonlinear_arith)
                requires
                    1 <= sx <= 2,
                    1 <= sy <= 2,
                    1 <= sz <= 2,
            ;
        }
        ChunkRegion { min_chunk: chunk_pos, size }
    }

    /// A chunk lies in the region of adjacent chunks exactly if its blocks,
    /// widened by one block on every side, hold this block.
    pub proof fn lemma_adjacent_chunks(self, chunk_pos: ChunkPos)
        ensures
            self.spec_adjacent_chunks().spec_contains_chunk(chunk_pos) <==> {
                &&& chunk_pos.x * 32 - 1 <= self.x <= chunk_pos.x * 32 + 32
                &&& chunk_pos.y * 32 - 1 <= self.y <= chunk_pos.y * 32 + 32
                &&& chunk_pos.z * 32 - 1 <= self.z <= chunk_pos.z * 32 + 32
            },
    {
        lemma_adjacent_axis(self.x as int, chunk_pos.x as int);
        lemma_adjacent_axis(self.y as int, chunk_pos.y as int);
        lemma_adjacent_axis(self.z as int, chunk_pos.z as int);
    }

    /// The corner block of the chunk at `chunk_pos`.
    pub fn from_chunk(chunk_pos: ChunkPos) -> (r: Self)
        requires
            chunk_pos.in_block_range(),
        ensures
            r.x == chunk_pos.x * 32,
            r.y == chunk_pos.y * 32,
            r.z == chunk_pos.z * 32,
    {
        BlockPos { x: chunk_pos.x * 32, y: chunk_pos.y * 32, z: chunk_pos.z * 32 }
    }

    /// True if adding `rhs` to this position stays within `i32` on every axis.
    pub open spec fn can_add(self, rhs: BlockPos) -> bool {
        &&& i32::MIN <= self.x + rhs.x <= i32::MAX
        &&& i32::MIN <= self.y + rhs.y <= i32::MAX
        &&& i32::MIN <= self.z + rhs.z <= i32::MAX
    }

    /// Component-wise sum.
    pub fn add(self, rhs: BlockPos) -> (r: Self)
        requires
            self.can_add(rhs),
        ensures
            r.x == self.x + rhs.x,
            r.y == self.y + rhs.y,
            r.z == self.z + rhs.z,
    {
        BlockPos { x: self.x + rhs.x, y: self.y + rhs.y, z: self.z + rhs.z }
    }
}

impl Default for BlockPos {
    fn default() -> (r: Self)
        ensures
            r == (BlockPos { x: 0, y: 0, z: 0 }),
    {
        BlockPos { x: 0, y: 0, z: 0 }
    }
}

/// A block position is the corner of its chunk plus its chunk-local position.
pub proof fn lemma_block_pos_splits(pos: BlockPos)
    ensures
        pos.x == ChunkPos::spec_from_block(pos).x * 32 + pos.spec_as_chunk_local().x,
        pos.y == ChunkPos::spec_from_block(pos).y * 32 + pos.spec_as_chunk_local().y,
        pos.z == ChunkPos::spec_from_block(pos).z * 32 + pos.spec_as_chunk_local().z,
        pos.spec_as_chunk_local().spec_is_chunk_local(),
{
}

} // verus!
