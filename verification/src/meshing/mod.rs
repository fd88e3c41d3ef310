//! Greedy meshing with ambient occlusion: from a chunk and its 26
//! neighbours to merged quads and vertex buffers in whole-block units.

use vstd::prelude::*;
use crate::blocks::utils::Rotation;
use crate::blocks::Block;
use crate::types::{chunk_coord, BlockPos, ChunkPos, UVec2, UVec3};
use crate::world::{ChunkRegion, LockedChunkArea};

pub mod buffers;
pub mod cover;
pub mod greedy;
pub mod grow;
pub mod layer;
pub mod mesh;

pub use buffers::{FaceMeshData, MeshBuffers, MeshBuffersView};
pub use greedy::Quad;
pub use mesh::{generate_mesh, mesh_layer};
pub use layer::{FaceOcclusionData, LayerView};

verus! {

/// Where the texture of a face lies in the texture atlas.
#[derive(Debug, Clone, Copy, PartialEq, Eq, Structural)]
pub struct TextureUvData {
    /// The atlas tile that holds the texture, as column and row.
    pub uv_base: UVec2,
    /// The identity of the atlas tile; two faces show the same texture
    /// exactly when these are equal.
    pub texture_map_index: usize,
}

/// The kind of a block face.
#[derive(Debug, Clone, Copy, PartialEq, Eq, Structural)]
pub enum BlockFaceType {
    /// A full square side of a block.
    Full(TextureUvData),
    /// No face on this side, as for air.
    Empty,
}

/// One face of a block model.
#[derive(Debug, Clone, Copy, PartialEq, Eq, Structural)]
pub struct BlockFaceUv {
    pub rotation: Rotation,
    pub face_type: BlockFaceType,
}

impl BlockFaceUv {
    pub open spec fn spec_is_visible(self) -> bool {
        self.face_type is Full
    }

    /// True if this face is drawn at all.
    pub fn is_visible(&self) -> (r: bool)
        ensures
            r == self.spec_is_visible(),
    {
        match self.face_type {
            BlockFaceType::Full(_) => true,
            BlockFaceType::Empty => false,
        }
    }

    pub open spec fn spec_can_merge_with(self, other: BlockFaceUv) -> bool {
        match (self.face_type, other.face_type) {
            (BlockFaceType::Full(a), BlockFaceType::Full(b)) => a.texture_map_index
                == b.texture_map_index && self.rotation == other.rotation,
            _ => false,
        }
    }

    /// True if this face and `other` may become part of one quad: both are
    /// full, show the same atlas tile and are rotated alike.
    pub fn can_merge_with(&self, other: &BlockFaceUv) -> (r: bool)
        ensures
            r == self.spec_can_merge_with(*other),
    {
        match self.face_type {
            BlockFaceType::Full(this_texture_data) => match other.face_type {
                BlockFaceType::Full(other_texture_data) => this_texture_data.texture_map_index
                    == other_texture_data.texture_map_index && self.rotation == other.rotation,
                BlockFaceType::Empty => false,
            },
            BlockFaceType::Empty => false,
        }
    }

    pub open spec fn spec_is_occluder(self) -> bool {
        self.face_type is Full
    }

    /// True if this face hides every face behind it.
    pub fn is_occluder(&self) -> (r: bool)
        ensures
            r == self.spec_is_occluder(),
    {
        match self.face_type {
            BlockFaceType::Full(_) => true,
            BlockFaceType::Empty => false,
        }
    }
}

/// The six directions in which a block has a face.
#[derive(Debug, Clone, Copy, PartialEq, Eq, Structural, Hash)]
pub enum FaceDirection {
    /// Towards positive z.
    Front,
    /// Towards negative z.
    Back,
    /// Towards positive y.
    Top,
    /// Towards negative y.
    Bottom,
    /// Towards negative x.
    Left,
    /// Towards positive x.
    Right,
}

impl FaceDirection {
    /// The place of this direction among the six faces of a model.
    pub open spec fn spec_index(self) -> int {
        match self {
            FaceDirection::Front => 0,
            FaceDirection::Back => 1,
            FaceDirection::Top => 2,
            FaceDirection::Bottom => 3,
            FaceDirection::Left => 4,
            FaceDirection::Right => 5,
        }
    }

    /// The place of this direction among the six faces of a model.
    pub fn index(self) -> (r: usize)
        ensures
            r == self.spec_index(),
            r < 6,
    {
        match self {
            FaceDirection::Front => 0,
            FaceDirection::Back => 1,
            FaceDirection::Top => 2,
            FaceDirection::Bottom => 3,
            FaceDirection::Left => 4,
            FaceDirection::Right => 5,
        }
    }

    /// The six directions in the order of their places.
    pub open spec fn spec_all() -> Seq<FaceDirection> {
        seq![
            FaceDirection::Front,
            FaceDirection::Back,
            FaceDirection::Top,
            FaceDirection::Bottom,
            FaceDirection::Left,
            FaceDirection::Right,
        ]
    }

    /// The six directions in the order of their places.
    pub fn all() -> (r: [FaceDirection; 6])
        ensures
            r@ == Self::spec_all(),
    {
        let r = [
            FaceDirection::Front,
            FaceDirection::Back,
            FaceDirection::Top,
            FaceDirection::Bottom,
            FaceDirection::Left,
            FaceDirection::Right,
        ];
        proof {
            assert(r@ =~= Self::spec_all());
        }
        r
    }

    pub open spec fn spec_opposite_face(self) -> FaceDirection {
        match self {
            FaceDirection::Front => FaceDirection::Back,
            FaceDirection::Back => FaceDirection::Front,
            FaceDirection::Top => FaceDirection::Bottom,
            FaceDirection::Bottom => FaceDirection::Top,
            FaceDirection::Left => FaceDirection::Right,
            FaceDirection::Right => FaceDirection::Left,
        }
    }

    /// The direction that faces this one.
    pub fn opposite_face(&self) -> (r: FaceDirection)
        ensures
            r == self.spec_opposite_face(),
            r.spec_opposite_face() == *self,
    {
        match self {
            FaceDirection::Front => FaceDirection::Back,
            FaceDirection::Back => FaceDirection::Front,
            FaceDirection::Top => FaceDirection::Bottom,
            FaceDirection::Bottom => FaceDirection::Top,
            FaceDirection::Left => FaceDirection::Right,
            FaceDirection::Right => FaceDirection::Left,
        }
    }

    /// The layer whose blocks can hide the faces of `layer` in this direction.
    pub open spec fn spec_occluding_layer(self, layer: int) -> int {
        match self {
            FaceDirection::Top | FaceDirection::Front | FaceDirection::Right => layer + 1,
            FaceDirection::Bottom | FaceDirection::Back | FaceDirection::Left => layer - 1,
        }
    }

    /// The layer whose blocks can hide the faces of `layer` in this direction.
    pub fn occluding_layer(self, layer: i32) -> (r: i32)
        requires
            0 <= layer < 32,
        ensures
            r == self.spec_occluding_layer(layer as int),
            -1 <= r <= 32,
    {
        match self {
            FaceDirection::Top | FaceDirection::Front | FaceDirection::Right => layer + 1,
            FaceDirection::Bottom | FaceDirection::Back | FaceDirection::Left => layer - 1,
        }
    }
}

/// The faces of a block type, one for each direction.
#[derive(Debug, Clone, Copy)]
pub struct BlockModelUv {
    pub faces: [BlockFaceUv; 6],
}

impl BlockModelUv {
    /// A model that shows `face` on all six sides.
    pub fn new(face: BlockFaceUv) -> (r: Self)
        ensures
            forall|i: int| 0 <= i < 6 ==> #[trigger] r.faces[i] == face,
    {
        BlockModelUv { faces: [face, face, face, face, face, face] }
    }

    pub open spec fn spec_get_face(self, face: FaceDirection) -> BlockFaceUv {
        self.faces[face.spec_index()]
    }

    /// The face of the model in direction `face`.
    pub fn get_face(&self, face: FaceDirection) -> (r: BlockFaceUv)
        ensures
            r == self.spec_get_face(face),
    {
        self.faces[face.index()]
    }
}

/// The position of cell `(x, y)` of layer `layer`, seen in direction `face`.
pub open spec fn spec_block_pos_for_layer(face: FaceDirection, layer: int, x: int, y: int) -> BlockPos {
    match face {
        FaceDirection::Front | FaceDirection::Back => BlockPos {
            x: x as i32,
            y: y as i32,
            z: layer as i32,
        },
        FaceDirection::Top | FaceDirection::Bottom => BlockPos {
            x: x as i32,
            y: layer as i32,
            z: y as i32,
        },
        FaceDirection::Left | FaceDirection::Right => BlockPos {
            x: layer as i32,
            y: x as i32,
            z: y as i32,
        },
    }
}

/// The position of cell `(x, y)` of layer `layer`, seen in direction `face`:
/// the layer runs along the axis of the face, and `x` and `y` along the
/// other two.
pub fn block_pos_for_layer(face: FaceDirection, layer: i32, x: i32, y: i32) -> (r: BlockPos)
    ensures
        r == spec_block_pos_for_layer(face, layer as int, x as int, y as int),
{
    match face {
        FaceDirection::Front | FaceDirection::Back => BlockPos::new(x, y, layer),
        FaceDirection::Top | FaceDirection::Bottom => BlockPos::new(x, layer, y),
        FaceDirection::Left | FaceDirection::Right => BlockPos::new(layer, x, y),
    }
}

/// Marks the cells of a layer that the mesher has dealt with.
pub struct VisitedBlockMap {
    cells: Vec<bool>,
}

impl View for VisitedBlockMap {
    type V = Seq<bool>;

    /// One flag for each of the 1024 cells; cell `(x, y)` is at `x * 32 + y`.
    closed spec fn view(&self) -> Seq<bool> {
        self.cells@
    }
}

impl VisitedBlockMap {
    /// A map in which no cell is visited.
    pub fn new() -> (r: Self)
        ensures
            r@ == Seq::new(1024, |i: int| false),
    {
        let mut cells: Vec<bool> = Vec::with_capacity(1024);
        let mut i: usize = 0;
        while i < 1024
            invariant
                i <= 1024,
                cells@ =~= Seq::new(i as nat, |j: int| false),
            decreases 1024 - i,
        {
            cells.push(false);
            i += 1;
        }
        VisitedBlockMap { cells }
    }

    /// Marks every cell as not visited.
    pub fn clear(&mut self)
        ensures
            final(self)@ == Seq::new(1024, |i: int| false),
    {
        *self = Self::new();
    }

    /// True if cell `(x, y)` is marked.
    pub fn is_visited(&self, x: i32, y: i32) -> (r: bool)
        requires
            self@.len() == 1024,
            0 <= x < 32,
            0 <= y < 32,
        ensures
            r == self@[x * 32 + y],
    {
        self.cells[x as usize * 32 + y as usize]
    }

    /// Marks cell `(x, y)`.
    pub fn visit(&mut self, x: i32, y: i32)
        requires
            old(self)@.len() == 1024,
            0 <= x < 32,
            0 <= y < 32,
        ensures
            final(self)@ == old(self)@.update(x * 32 + y, true),
            final(self)@.len() == 1024,
    {
        self.cells.set(x as usize * 32 + y as usize, true);
    }
}

/// A chunk together with its 26 neighbours, as the mesher reads them.
pub struct ChunkMeshData<'a> {
    area: LockedChunkArea<'a>,
}

impl<'a> ChunkMeshData<'a> {
    #[verifier::type_invariant]
    closed spec fn valid(self) -> bool {
        &&& self.area.spec_region().size == (UVec3 { x: 3, y: 3, z: 3 })
        &&& self.area.spec_region().in_range()
        &&& self.area.spec_chunks().len() == 27
    }

    /// The area that is read.
    pub closed spec fn spec_area(self) -> LockedChunkArea<'a> {
        self.area
    }

    /// The block at `block_pos`, counted from the corner of the middle
    /// chunk; each coordinate lies in `-32..64`.
    pub open spec fn spec_get(self, block_pos: BlockPos) -> Block {
        self.spec_area().spec_chunks()[flat_chunk_index(block_pos)].blocks.spec_get(
            block_pos.spec_as_chunk_local(),
        )
    }

    /// True if the middle chunk holds only air.
    pub open spec fn spec_is_empty(self) -> bool {
        self.spec_area().spec_chunks()[13].blocks.spec_is_empty()
    }

    /// Wraps an area of three by three by three chunks for meshing its
    /// middle chunk.
    pub fn new(chunk_area: LockedChunkArea<'a>) -> (r: Self)
        requires
            chunk_area.spec_region().size == (UVec3 { x: 3, y: 3, z: 3 }),
        ensures
            r.spec_area() == chunk_area,
    {
        let region: ChunkRegion = chunk_area.region();
        proof {
            assert(region.spec_chunk_count() == 27) by (nonlinear_arith)
                requires
                    region.size.x == 3,
                    region.size.y == 3,
                    region.size.z == 3,
                    region.spec_chunk_count() == region.size.x * region.size.y * region.size.z,
            ;
        }
        ChunkMeshData { area: chunk_area }
    }

    /// True if the middle chunk holds only air.
    pub fn is_empty(&self) -> (r: bool)
        ensures
            r == self.spec_is_empty(),
    {
        proof {
            use_type_invariant(self);
        }
        match self.area.get_chunk_data_relative(ChunkPos::new(1, 1, 1)) {
            Some(data) => {
                proof {
                    assert((1 * 3 + 1) * 3 + 1 == 13) by (nonlinear_arith);
                }
                data.blocks.is_empty()
            },
            None => {
                proof {
                    assert(false);
                }
                true
            },
        }
    }

    /// The block at `block_pos`, counted from the corner of the middle chunk.
    pub fn get(&self, block_pos: BlockPos) -> (r: Block)
        requires
            in_mesh_range(block_pos),
        ensures
            r == self.spec_get(block_pos),
    {
        proof {
            use_type_invariant(self);
        }
        let chunk: ChunkPos = ChunkPos::from_block(block_pos);
        let offset: ChunkPos = ChunkPos::new(chunk.x + 1, chunk.y + 1, chunk.z + 1);
        match self.area.get_chunk_data_relative(offset) {
            Some(data) => data.blocks.get(block_pos.as_chunk_local()),
            None => {
                proof {
                    assert(false);
                }
                Block::default()
            },
        }
    }
}

/// True if each coordinate of `block_pos` lies in `-32..64`: inside the
/// middle chunk or one of its neighbours.
pub open spec fn in_mesh_range(block_pos: BlockPos) -> bool {
    &&& -32 <= block_pos.x < 64
    &&& -32 <= block_pos.y < 64
    &&& -32 <= block_pos.z < 64
}

/// The place, among the 27 chunks of a mesh area, of the chunk that holds
/// `block_pos`.
pub open spec fn flat_chunk_index(block_pos: BlockPos) -> int {
    ((chunk_coord(block_pos.x as int) + 1) * 3 + (chunk_coord(block_pos.y as int) + 1)) * 3 + (
    chunk_coord(block_pos.z as int) + 1)
}

} // verus!
