//! One layer of a chunk as the mesher sees it: the face that each cell
//! shows, which cells are hidden, and the ambient occlusion of each corner.

use vstd::prelude::*;
use crate::meshing::{
    block_pos_for_layer, in_mesh_range, spec_block_pos_for_layer, BlockFaceUv, BlockModelUv,
    ChunkMeshData, FaceDirection,
};

verus! {

/// The ambient occlusion level of each corner of a face: 0 is fully lit.
#[derive(Debug, Clone, Copy, PartialEq, Eq, Structural)]
pub struct FaceOcclusionData {
    pub x_neg_y_neg: u8,
    pub x_neg_y_pos: u8,
    pub x_pos_y_neg: u8,
    pub x_pos_y_pos: u8,
}

impl FaceOcclusionData {
    /// The levels of a face that is fully lit at all four corners.
    pub open spec fn spec_lit() -> FaceOcclusionData {
        FaceOcclusionData { x_neg_y_neg: 0, x_neg_y_pos: 0, x_pos_y_neg: 0, x_pos_y_pos: 0 }
    }

    /// True if every level is at most 4.
    pub open spec fn in_range(self) -> bool {
        self.x_neg_y_neg <= 4 && self.x_neg_y_pos <= 4 && self.x_pos_y_neg <= 4
            && self.x_pos_y_pos <= 4
    }

    /// The light that is left at a corner with occlusion level
    /// `occlusion_value`, in quarters: level 0 keeps all four.
    pub fn occlusion_value_to_quarters(occlusion_value: u8) -> (r: u8)
        requires
            occlusion_value <= 4,
        ensures
            r == 4 - occlusion_value,
    {
        4 - occlusion_value
    }
}

/// The occlusion level of a corner whose four surrounding cells of the
/// occluding layer are hidden or not as the arguments say: the number of
/// hidden cells, but 3 where exactly two cells are hidden and they lie
/// diagonally, since such a corner is as dark as one with three.
pub open spec fn corner_level(xn_yn: bool, xn_yp: bool, xp_yn: bool, xp_yp: bool) -> u8 {
    let count = (if xn_yn {
        1int
    } else {
        0int
    }) + (if xn_yp {
        1int
    } else {
        0int
    }) + (if xp_yn {
        1int
    } else {
        0int
    }) + (if xp_yp {
        1int
    } else {
        0int
    });
    if count == 2 && ((xn_yn && xp_yp) || (xn_yp && xp_yn)) {
        3u8
    } else {
        count as u8
    }
}

/// A layer of 32 by 32 cells, seen in one direction.
pub struct LayerView {
    /// The face that cell `(x, y)` shows, for `x` and `y` in `0..32`.
    pub faces: spec_fn(int, int) -> BlockFaceUv,
    /// True if the block in front of cell `(x, y)` hides what is behind
    /// it, for `x` and `y` in `-1..33`.
    pub occluded: spec_fn(int, int) -> bool,
}

impl LayerView {
    /// The occlusion level of the corner at `(x, y)`, which the cells
    /// `(x - 1, y - 1)`, `(x - 1, y)`, `(x, y - 1)` and `(x, y)` surround.
    #[verifier::opaque]
    pub open spec fn vertex_level(self, x: int, y: int) -> u8 {
        corner_level(
            (self.occluded)(x - 1, y - 1),
            (self.occluded)(x - 1, y),
            (self.occluded)(x, y - 1),
            (self.occluded)(x, y),
        )
    }

    /// The occlusion levels of the four corners of cell `(x, y)`.
    pub open spec fn occlusion_data(self, x: int, y: int) -> FaceOcclusionData {
        FaceOcclusionData {
            x_neg_y_neg: self.vertex_level(x, y),
            x_neg_y_pos: self.vertex_level(x, y + 1),
            x_pos_y_neg: self.vertex_level(x + 1, y),
            x_pos_y_pos: self.vertex_level(x + 1, y + 1),
        }
    }

    /// True if cell `(x, y)` shows a face that nothing hides.
    pub open spec fn shows_face(self, x: int, y: int) -> bool {
        (self.faces)(x, y).spec_is_visible() && !(self.occluded)(x, y)
    }

    /// A corner that no hidden cell surrounds has level 0; one level is
    /// never above 4; and the corners of a cell that is not itself hidden
    /// have levels of at most 3.
    pub proof fn lemma_vertex_level(self, x: int, y: int)
        ensures
            self.vertex_level(x, y) <= 4,
            !(self.occluded)(x - 1, y - 1) && !(self.occluded)(x - 1, y) && !(self.occluded)(
                x,
                y - 1,
            ) && !(self.occluded)(x, y) ==> self.vertex_level(x, y) == 0,
            !(self.occluded)(x - 1, y - 1) || !(self.occluded)(x - 1, y) || !(self.occluded)(
                x,
                y - 1,
            ) || !(self.occluded)(x, y) ==> self.vertex_level(x, y) <= 3,
    {
        reveal(LayerView::vertex_level);
    }

    /// A face whose cell and eight surrounding cells are not hidden is fully
    /// lit at all four corners.
    pub proof fn lemma_unoccluded_face_is_lit(self, x: int, y: int)
        requires
            forall|dx: int, dy: int|
                -1 <= dx <= 1 && -1 <= dy <= 1 ==> !#[trigger] (self.occluded)(x + dx, y + dy),
        ensures
            self.occlusion_data(x, y) == FaceOcclusionData::spec_lit(),
            4 - self.occlusion_data(x, y).x_neg_y_neg == 4,
            4 - self.occlusion_data(x, y).x_neg_y_pos == 4,
            4 - self.occlusion_data(x, y).x_pos_y_neg == 4,
            4 - self.occlusion_data(x, y).x_pos_y_pos == 4,
    {
        reveal(LayerView::vertex_level);
        assert(!(self.occluded)(x + (-1), y + (-1)));
        assert(!(self.occluded)(x + (-1), y + 0));
        assert(!(self.occluded)(x + (-1), y + 1));
        assert(!(self.occluded)(x + 0, y + (-1)));
        assert(!(self.occluded)(x + 0, y + 0));
        assert(!(self.occluded)(x + 0, y + 1));
        assert(!(self.occluded)(x + 1, y + (-1)));
        assert(!(self.occluded)(x + 1, y + 0));
        assert(!(self.occluded)(x + 1, y + 1));
    }
}

/// Layer `layer` of the middle chunk of `blocks`, seen in direction `face`,
/// with the block models `models`, indexed by block type id.
#[verifier::opaque]
pub open spec fn layer_view(
    blocks: ChunkMeshData,
    models: Seq<BlockModelUv>,
    face: FaceDirection,
    layer: int,
) -> LayerView {
    LayerView {
        faces: |x: int, y: int|
            models[blocks.spec_get(
                spec_block_pos_for_layer(face, layer, x, y),
            ).spec_block_id() as int].spec_get_face(face),
        occluded: |x: int, y: int|
            models[blocks.spec_get(
                spec_block_pos_for_layer(face, face.spec_occluding_layer(layer), x, y),
            ).spec_block_id() as int].spec_get_face(face.spec_opposite_face()).spec_is_occluder(),
    }
}

/// The face that cell `(x, y)` of the layer shows.
pub fn face_at(
    blocks: &ChunkMeshData,
    models: &[BlockModelUv],
    face: FaceDirection,
    layer: i32,
    x: i32,
    y: i32,
) -> (r: BlockFaceUv)
    requires
        models@.len() >= 4,
        0 <= layer < 32,
        0 <= x < 32,
        0 <= y < 32,
    ensures
        r == (layer_view(*blocks, models@, face, layer as int).faces)(x as int, y as int),
{
    proof {
        reveal(layer_view);
    }
    let block_pos = block_pos_for_layer(face, layer, x, y);
    let block = blocks.get(block_pos);
    models[block.block_id() as usize].get_face(face)
}

/// True if the block in front of cell `(x, y)` of the layer hides what is
/// behind it.
pub fn is_occluded(
    blocks: &ChunkMeshData,
    models: &[BlockModelUv],
    face: FaceDirection,
    layer: i32,
    x: i32,
    y: i32,
) -> (r: bool)
    requires
        models@.len() >= 4,
        0 <= layer < 32,
        -1 <= x <= 32,
        -1 <= y <= 32,
    ensures
        r == (layer_view(*blocks, models@, face, layer as int).occluded)(x as int, y as int),
{
    let occluding_layer: i32 = face.occluding_layer(layer);
    let occluding_pos = block_pos_for_layer(face, occluding_layer, x, y);
    proof {
        reveal(layer_view);
        assert(in_mesh_range(occluding_pos));
    }
    let block = blocks.get(occluding_pos);
    models[block.block_id() as usize].get_face(face.opposite_face()).is_occluder()
}

/// The occlusion level of the corner at `(x, y)` of the layer.
pub fn vertex_occlusion_level(
    blocks: &ChunkMeshData,
    models: &[BlockModelUv],
    face: FaceDirection,
    layer: i32,
    x: i32,
    y: i32,
) -> (r: u8)
    requires
        models@.len() >= 4,
        0 <= layer < 32,
        0 <= x <= 32,
        0 <= y <= 32,
    ensures
        r == layer_view(*blocks, models@, face, layer as int).vertex_level(x as int, y as int),
        r <= 4,
{
    proof {
        reveal(LayerView::vertex_level);
    }
    let xn_yn: bool = is_occluded(blocks, models, face, layer, x - 1, y - 1);
    let xn_yp: bool = is_occluded(blocks, models, face, layer, x - 1, y);
    let xp_yn: bool = is_occluded(blocks, models, face, layer, x, y - 1);
    let xp_yp: bool = is_occluded(blocks, models, face, layer, x, y);
    let mut occlusion_level: u8 = 0;
    if xn_yn {
        occlusion_level += 1;
    }
    if xn_yp {
        occlusion_level += 1;
    }
    if xp_yn {
        occlusion_level += 1;
    }
    if xp_yp {
        occlusion_level += 1;
    }
    if occlusion_level == 2 && ((xn_yn && xp_yp) || (xn_yp && xp_yn)) {
        occlusion_level = 3;
    }
    occlusion_level
}

/// The occlusion levels of the four corners of cell `(x, y)` of the layer.
pub fn face_occlusion_data(
    blocks: &ChunkMeshData,
    models: &[BlockModelUv],
    face: FaceDirection,
    layer: i32,
    x: i32,
    y: i32,
) -> (r: FaceOcclusionData)
    requires
        models@.len() >= 4,
        0 <= layer < 32,
        0 <= x < 32,
        0 <= y < 32,
    ensures
        r == layer_view(*blocks, models@, face, layer as int).occlusion_data(x as int, y as int),
        r.in_range(),
{
    FaceOcclusionData {
        x_neg_y_neg: vertex_occlusion_level(blocks, models, face, layer, x, y),
        x_neg_y_pos: vertex_occlusion_level(blocks, models, face, layer, x, y + 1),
        x_pos_y_neg: vertex_occlusion_level(blocks, models, face, layer, x + 1, y),
        x_pos_y_pos: vertex_occlusion_level(blocks, models, face, layer, x + 1, y + 1),
    }
}

} // verus!
