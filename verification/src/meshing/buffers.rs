//! The vertex data of one merged face and the buffers that collect them.
//!
//! Everything is kept in whole numbers: positions in blocks, counted from
//! the corner of the chunk; atlas placement as a tile; light in quarters.

use vstd::prelude::*;
use crate::blocks::utils::Rotation;
use crate::meshing::layer::FaceOcclusionData;
use crate::meshing::{BlockFaceType, BlockFaceUv, FaceDirection, TextureUvData};
use crate::types::{BlockPos, UVec2};

verus! {

/// `position` moved by `(dx, dy, dz)`.
pub open spec fn spec_offset(position: BlockPos, dx: int, dy: int, dz: int) -> BlockPos {
    BlockPos {
        x: (position.x + dx) as i32,
        y: (position.y + dy) as i32,
        z: (position.z + dz) as i32,
    }
}

/// The four corners of a merged face with their light, its atlas tile, how
/// often the texture repeats along each side, and its rotation. Seen from
/// outside the block, `tl` is the top left corner, `tr` the top right,
/// `bl` the bottom left and `br` the bottom right.
#[derive(Debug, Clone, Copy, PartialEq, Eq, Structural)]
pub struct FaceMeshData {
    pub tl_vertex: BlockPos,
    pub tr_vertex: BlockPos,
    pub bl_vertex: BlockPos,
    pub br_vertex: BlockPos,
    pub tl_occlude: u8,
    pub tr_occlude: u8,
    pub bl_occlude: u8,
    pub br_occlude: u8,
    pub uv_base: UVec2,
    pub face_count: UVec2,
    pub rotation: Rotation,
}

impl FaceMeshData {
    /// True if the corners of a face of `face_count` cells at `position`
    /// have coordinates that fit in `i32`.
    pub open spec fn fits(position: BlockPos, face_count: UVec2) -> bool {
        &&& -0x4000_0000 <= position.x <= 0x4000_0000
        &&& -0x4000_0000 <= position.y <= 0x4000_0000
        &&& -0x4000_0000 <= position.z <= 0x4000_0000
        &&& face_count.x <= 0x3fff_ffff
        &&& face_count.y <= 0x3fff_ffff
    }

    /// The vertex data of a face in direction `face_direction` that covers
    /// `face_count` cells from `position` on.
    pub open spec fn spec_new(
        uv_data: TextureUvData,
        rotation: Rotation,
        position: BlockPos,
        face_count: UVec2,
        face_direction: FaceDirection,
        occlusion_data: FaceOcclusionData,
    ) -> FaceMeshData {
        let fx = face_count.x as int;
        let fy = face_count.y as int;
        let nn = (4 - occlusion_data.x_neg_y_neg) as u8;
        let np = (4 - occlusion_data.x_neg_y_pos) as u8;
        let pn = (4 - occlusion_data.x_pos_y_neg) as u8;
        let pp = (4 - occlusion_data.x_pos_y_pos) as u8;
        let uv_base = uv_data.uv_base;
        match face_direction {
            FaceDirection::Front => FaceMeshData {
                tl_vertex: spec_offset(position, fx, fy, 1),
                tr_vertex: spec_offset(position, 0, fy, 1),
                bl_vertex: spec_offset(position, fx, 0, 1),
                br_vertex: spec_offset(position, 0, 0, 1),
                tl_occlude: pp,
                tr_occlude: np,
                bl_occlude: pn,
                br_occlude: nn,
                uv_base,
                face_count,
                rotation,
            },
            FaceDirection::Back => FaceMeshData {
                tl_vertex: spec_offset(position, 0, fy, 0),
                tr_vertex: spec_offset(position, fx, fy, 0),
                bl_vertex: spec_offset(position, 0, 0, 0),
                br_vertex: spec_offset(position, fx, 0, 0),
                tl_occlude: np,
                tr_occlude: pp,
                bl_occlude: nn,
                br_occlude: pn,
                uv_base,
                face_count,
                rotation,
            },
            FaceDirection::Top => FaceMeshData {
                tl_vertex: spec_offset(position, 0, 1, fy),
                tr_vertex: spec_offset(position, fx, 1, fy),
                bl_vertex: spec_offset(position, 0, 1, 0),
                br_vertex: spec_offset(position, fx, 1, 0),
                tl_occlude: np,
                tr_occlude: pp,
                bl_occlude: nn,
                br_occlude: pn,
                uv_base,
                face_count,
                rotation,
            },
            FaceDirection::Bottom => FaceMeshData {
                tl_vertex: spec_offset(position, fx, 0, fy),
                tr_vertex: spec_offset(position, 0, 0, fy),
                bl_vertex: spec_offset(position, fx, 0, 0),
                br_vertex: spec_offset(position, 0, 0, 0),
                tl_occlude: pp,
                tr_occlude: np,
                bl_occlude: pn,
                br_occlude: nn,
                uv_base,
                face_count,
                rotation,
            },
            FaceDirection::Left => FaceMeshData {
                tl_vertex: spec_offset(position, 0, fx, fy),
                tr_vertex: spec_offset(position, 0, fx, 0),
                bl_vertex: spec_offset(position, 0, 0, fy),
                br_vertex: spec_offset(position, 0, 0, 0),
                tl_occlude: pp,
                tr_occlude: pn,
                bl_occlude: np,
                br_occlude: nn,
                uv_base,
                face_count: (UVec2 { x: face_count.y, y: face_count.x }),
                rotation,
            },
            FaceDirection::Right => FaceMeshData {
                tl_vertex: spec_offset(position, 1, fx, 0),
                tr_vertex: spec_offset(position, 1, fx, fy),
                bl_vertex: spec_offset(position, 1, 0, 0),
                br_vertex: spec_offset(position, 1, 0, fy),
                tl_occlude: pn,
                tr_occlude: pp,
                bl_occlude: nn,
                br_occlude: np,
                uv_base,
                face_count: (UVec2 { x: face_count.y, y: face_count.x }),
                rotation,
            },
        }
    }

    /// The vertex data of the full face `face` in direction
    /// `face_direction` that covers `face_count` cells from `position` on.
    /// The corners wind the same way in every direction. On the left and
    /// right sides the two repeat counts change places, so that the texture
    /// keeps its proportions.
    pub fn new(
        face: BlockFaceUv,
        position: BlockPos,
        face_count: UVec2,
        face_direction: FaceDirection,
        occlusion_data: FaceOcclusionData,
    ) -> (r: Self)
        requires
            face.face_type is Full,
            occlusion_data.in_range(),
            Self::fits(position, face_count),
        ensures
            r == Self::spec_new(
                face.face_type->Full_0,
                face.rotation,
                position,
                face_count,
                face_direction,
                occlusion_data,
            ),
    {
        let uv_base: UVec2 = match face.face_type {
            BlockFaceType::Full(uv_data) => uv_data.uv_base,
            BlockFaceType::Empty => UVec2::new(0, 0),
        };
        let fx: i32 = face_count.x as i32;
        let fy: i32 = face_count.y as i32;
        let nn: u8 = FaceOcclusionData::occlusion_value_to_quarters(occlusion_data.x_neg_y_neg);
        let np: u8 = FaceOcclusionData::occlusion_value_to_quarters(occlusion_data.x_neg_y_pos);
        let pn: u8 = FaceOcclusionData::occlusion_value_to_quarters(occlusion_data.x_pos_y_neg);
        let pp: u8 = FaceOcclusionData::occlusion_value_to_quarters(occlusion_data.x_pos_y_pos);
        let rotation = face.rotation;
        let p = position;
        match face_direction {
            FaceDirection::Front => FaceMeshData {
                tl_vertex: BlockPos::new(p.x + fx, p.y + fy, p.z + 1),
                tr_vertex: BlockPos::new(p.x, p.y + fy, p.z + 1),
                bl_vertex: BlockPos::new(p.x + fx, p.y, p.z + 1),
                br_vertex: BlockPos::new(p.x, p.y, p.z + 1),
                tl_occlude: pp,
                tr_occlude: np,
                bl_occlude: pn,
                br_occlude: nn,
                uv_base,
                face_count,
                rotation,
            },
            FaceDirection::Back => FaceMeshData {
                tl_vertex: BlockPos::new(p.x, p.y + fy, p.z),
                tr_vertex: BlockPos::new(p.x + fx, p.y + fy, p.z),
                bl_vertex: BlockPos::new(p.x, p.y, p.z),
                br_vertex: BlockPos::new(p.x + fx, p.y, p.z),
                tl_occlude: np,
                tr_occlude: pp,
                bl_occlude: nn,
                br_occlude: pn,
                uv_base,
                face_count,
                rotation,
            },
            FaceDirection::Top => FaceMeshData {
                tl_vertex: BlockPos::new(p.x, p.y + 1, p.z + fy),
                tr_vertex: BlockPos::new(p.x + fx, p.y + 1, p.z + fy),
                bl_vertex: BlockPos::new(p.x, p.y + 1, p.z),
                br_vertex: BlockPos::new(p.x + fx, p.y + 1, p.z),
                tl_occlude: np,
                tr_occlude: pp,
                bl_occlude: nn,
                br_occlude: pn,
                uv_base,
                face_count,
                rotation,
            },
            FaceDirection::Bottom => FaceMeshData {
                tl_vertex: BlockPos::new(p.x + fx, p.y, p.z + fy),
                tr_vertex: BlockPos::new(p.x, p.y, p.z + fy),
                bl_vertex: BlockPos::new(p.x + fx, p.y, p.z),
                br_vertex: BlockPos::new(p.x, p.y, p.z),
                tl_occlude: pp,
                tr_occlude: np,
                bl_occlude: pn,
                br_occlude: nn,
                uv_base,
                face_count,
                rotation,
            },
            FaceDirection::Left => FaceMeshData {
                tl_vertex: BlockPos::new(p.x, p.y + fx, p.z + fy),
                tr_vertex: BlockPos::new(p.x, p.y + fx, p.z),
                bl_vertex: BlockPos::new(p.x, p.y, p.z + fy),
                br_vertex: BlockPos::new(p.x, p.y, p.z),
                tl_occlude: pp,
                tr_occlude: pn,
                bl_occlude: np,
                br_occlude: nn,
                uv_base,
                face_count: (UVec2 { x: face_count.y, y: face_count.x }),
                rotation,
            },
            FaceDirection::Right => FaceMeshData {
                tl_vertex: BlockPos::new(p.x + 1, p.y + fx, p.z),
                tr_vertex: BlockPos::new(p.x + 1, p.y + fx, p.z + fy),
                bl_vertex: BlockPos::new(p.x + 1, p.y, p.z),
                br_vertex: BlockPos::new(p.x + 1, p.y, p.z + fy),
                tl_occlude: pn,
                tr_occlude: pp,
                bl_occlude: nn,
                br_occlude: np,
                uv_base,
                face_count: (UVec2 { x: face_count.y, y: face_count.x }),
                rotation,
            },
        }
    }

    /// The repeat counts at the four corners, in the order top left, top
    /// right, bottom right, bottom left; each quarter turn of the rotation
    /// moves every entry on by one corner.
    pub open spec fn spec_face_count_vertices(self) -> Seq<UVec2> {
        let cx = self.face_count.x;
        let cy = self.face_count.y;
        match self.rotation {
            Rotation::Deg0 => seq![UVec2 { x: 0, y: 0 }, UVec2 { x: cx, y: 0 }, UVec2 { x: cx, y: cy }, UVec2 { x: 0, y: cy }],
            Rotation::Deg90 => seq![UVec2 { x: 0, y: cy }, UVec2 { x: 0, y: 0 }, UVec2 { x: cx, y: 0 }, UVec2 { x: cx, y: cy }],
            Rotation::Deg180 => seq![UVec2 { x: cx, y: cy }, UVec2 { x: 0, y: cy }, UVec2 { x: 0, y: 0 }, UVec2 { x: cx, y: 0 }],
            Rotation::Deg270 => seq![UVec2 { x: cx, y: 0 }, UVec2 { x: cx, y: cy }, UVec2 { x: 0, y: cy }, UVec2 { x: 0, y: 0 }],
        }
    }

    /// Appends the four vertices and two triangles of this face to `buffers`.
    pub fn insert_into_buffers(&self, buffers: &mut MeshBuffers)
        requires
            old(buffers)@.positions.len() + 4 <= u32::MAX,
        ensures
            final(buffers)@ == old(buffers)@.insert(*self),
    {
        let index_base: u32 = buffers.position_buffer.len() as u32;
        buffers.position_buffer.push(self.tl_vertex);
        buffers.position_buffer.push(self.tr_vertex);
        buffers.position_buffer.push(self.br_vertex);
        buffers.position_buffer.push(self.bl_vertex);
        buffers.uv_base_buffer.push(self.uv_base);
        buffers.uv_base_buffer.push(self.uv_base);
        buffers.uv_base_buffer.push(self.uv_base);
        buffers.uv_base_buffer.push(self.uv_base);
        let cx: u32 = self.face_count.x;
        let cy: u32 = self.face_count.y;
        let face_count_vertices: [UVec2; 4] = match self.rotation {
            Rotation::Deg0 => [UVec2 { x: 0, y: 0 }, UVec2 { x: cx, y: 0 }, UVec2 { x: cx, y: cy }, UVec2 { x: 0, y: cy }],
            Rotation::Deg90 => [UVec2 { x: 0, y: cy }, UVec2 { x: 0, y: 0 }, UVec2 { x: cx, y: 0 }, UVec2 { x: cx, y: cy }],
            Rotation::Deg180 => [UVec2 { x: cx, y: cy }, UVec2 { x: 0, y: cy }, UVec2 { x: 0, y: 0 }, UVec2 { x: cx, y: 0 }],
            Rotation::Deg270 => [UVec2 { x: cx, y: 0 }, UVec2 { x: cx, y: cy }, UVec2 { x: 0, y: cy }, UVec2 { x: 0, y: 0 }],
        };
        buffers.face_count_buffer.push(face_count_vertices[0]);
        buffers.face_count_buffer.push(face_count_vertices[1]);
        buffers.face_count_buffer.push(face_count_vertices[2]);
        buffers.face_count_buffer.push(face_count_vertices[3]);
        buffers.shading_buffer.push(self.tl_occlude);
        buffers.shading_buffer.push(self.tr_occlude);
        buffers.shading_buffer.push(self.br_occlude);
        buffers.shading_buffer.push(self.bl_occlude);
        buffers.index_buffer.push(index_base);
        buffers.index_buffer.push(index_base + 1);
        buffers.index_buffer.push(index_base + 2);
        buffers.index_buffer.push(index_base + 2);
        buffers.index_buffer.push(index_base + 3);
        buffers.index_buffer.push(index_base);
        proof {
            let v = old(buffers)@.insert(*self);
            assert(buffers@.positions =~= v.positions);
            assert(buffers@.uv_bases =~= v.uv_bases);
            assert(buffers@.face_counts =~= v.face_counts);
            assert(buffers@.shading =~= v.shading);
            assert(buffers@.indices =~= v.indices);
        }
    }
}

/// What the buffers of a mesh hold.
pub struct MeshBuffersView {
    /// The corner positions, four for each face.
    pub positions: Seq<BlockPos>,
    /// The atlas tile of each corner.
    pub uv_bases: Seq<UVec2>,
    /// The texture repeat counts at each corner.
    pub face_counts: Seq<UVec2>,
    /// The light at each corner, in quarters.
    pub shading: Seq<u8>,
    /// The corners of the triangles, six for each face.
    pub indices: Seq<u32>,
}

impl MeshBuffersView {
    /// Buffers without any face.
    pub open spec fn empty() -> MeshBuffersView {
        MeshBuffersView {
            positions: Seq::empty(),
            uv_bases: Seq::empty(),
            face_counts: Seq::empty(),
            shading: Seq::empty(),
            indices: Seq::empty(),
        }
    }

    /// These buffers with the face `f` appended: its corners in the order
    /// top left, top right, bottom right, bottom left, and the two
    /// triangles over corners 0, 1, 2 and 2, 3, 0 of the face.
    pub open spec fn insert(self, f: FaceMeshData) -> MeshBuffersView {
        let base = self.positions.len() as u32;
        MeshBuffersView {
            positions: self.positions + seq![f.tl_vertex, f.tr_vertex, f.br_vertex, f.bl_vertex],
            uv_bases: self.uv_bases + seq![f.uv_base, f.uv_base, f.uv_base, f.uv_base],
            face_counts: self.face_counts + f.spec_face_count_vertices(),
            shading: self.shading + seq![f.tl_occlude, f.tr_occlude, f.br_occlude, f.bl_occlude],
            indices: self.indices + seq![
                base,
                (base + 1) as u32,
                (base + 2) as u32,
                (base + 2) as u32,
                (base + 3) as u32,
                base,
            ],
        }
    }

    /// The number of faces, if every buffer holds whole faces.
    pub open spec fn face_count(self) -> int {
        self.positions.len() as int / 4
    }

    /// True if every buffer holds the entries of the same number of faces.
    pub open spec fn consistent(self) -> bool {
        &&& self.positions.len() % 4 == 0
        &&& self.uv_bases.len() == self.positions.len()
        &&& self.face_counts.len() == self.positions.len()
        &&& self.shading.len() == self.positions.len()
        &&& self.indices.len() * 4 == self.positions.len() * 6
    }

    /// Appending a face keeps the buffers consistent and adds one face.
    pub proof fn lemma_insert(self, f: FaceMeshData)
        requires
            self.consistent(),
        ensures
            self.insert(f).consistent(),
            self.insert(f).positions.len() == self.positions.len() + 4,
            self.insert(f).indices.len() == self.indices.len() + 6,
            self.insert(f).face_count() == self.face_count() + 1,
    {
    }
}

/// The buffers of a mesh.
#[derive(Debug)]
pub struct MeshBuffers {
    pub position_buffer: Vec<BlockPos>,
    pub uv_base_buffer: Vec<UVec2>,
    pub face_count_buffer: Vec<UVec2>,
    pub shading_buffer: Vec<u8>,
    pub index_buffer: Vec<u32>,
}

impl View for MeshBuffers {
    type V = MeshBuffersView;

    open spec fn view(&self) -> MeshBuffersView {
        MeshBuffersView {
            positions: self.position_buffer@,
            uv_bases: self.uv_base_buffer@,
            face_counts: self.face_count_buffer@,
            shading: self.shading_buffer@,
            indices: self.index_buffer@,
        }
    }
}

impl MeshBuffers {
    /// Buffers without any face.
    pub fn new() -> (r: Self)
        ensures
            r@ == MeshBuffersView::empty(),
    {
        MeshBuffers {
            position_buffer: Vec::new(),
            uv_base_buffer: Vec::new(),
            face_count_buffer: Vec::new(),
            shading_buffer: Vec::new(),
            index_buffer: Vec::new(),
        }
    }

    /// True if the buffers hold no triangle.
    pub fn is_empty(&self) -> (r: bool)
        ensures
            r == (self@.indices.len() == 0),
    {
        self.index_buffer.len() == 0
    }
}

} // verus!
