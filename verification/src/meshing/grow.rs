//! Growing one quad over the cells that join it.

use vstd::prelude::*;
use crate::meshing::greedy::{
    lemma_mark_rect_first, lemma_mark_rect_grow_y, lemma_mark_rect_len, lemma_mark_rect_outside,
    lemma_mark_strip,
    mark_rect, mark_rect_and_strip, Quad,
};
use crate::meshing::layer::{
    face_at, face_occlusion_data, is_occluded, layer_view, FaceOcclusionData,
};
use crate::meshing::{BlockFaceUv, BlockModelUv, ChunkMeshData, FaceDirection, VisitedBlockMap};

verus! {

/// Grows a quad that starts at cell `(x, y)` along `y`, marks the cells
/// that join it, and returns how many cells it then spans along `y`.
pub(crate) fn grow_y(
    blocks: &ChunkMeshData,
    models: &[BlockModelUv],
    visit_map: &mut VisitedBlockMap,
    face: FaceDirection,
    layer: i32,
    x: i32,
    y: i32,
    block_face: BlockFaceUv,
    occlusion_data: FaceOcclusionData,
    Ghost(v0): Ghost<Seq<bool>>,
) -> (y_len: i32)
    requires
        models@.len() >= 4,
        0 <= layer < 32,
        0 <= x < 32,
        0 <= y < 32,
        v0.len() == 1024,
        old(visit_map)@ == v0.update(x * 32 + y, true),
    ensures
        1 <= y_len,
        y + y_len <= 32,
        y_len == 1 + layer_view(*blocks, models@, face, layer as int).y_extra(
            v0,
            block_face,
            occlusion_data,
            x as int,
            y + 1,
        ),
        final(visit_map)@ == mark_rect(v0, x as int, y as int, 1, y_len as int),
        final(visit_map)@.len() == 1024,
{
    let ghost lv = layer_view(*blocks, models@, face, layer as int);
    let mut y_len: i32 = 1;
    let mut growing: bool = true;
    proof {
        lemma_mark_rect_first(v0, x as int, y as int);
    }
    while growing
        invariant
            models@.len() >= 4,
            0 <= layer < 32,
            0 <= x < 32,
            0 <= y < 32,
            1 <= y_len,
            y + y_len <= 32,
            v0.len() == 1024,
            lv == layer_view(*blocks, models@, face, layer as int),
            visit_map@ == mark_rect(v0, x as int, y as int, 1, y_len as int),
            (y_len - 1) + lv.y_extra(v0, block_face, occlusion_data, x as int, y + y_len) == lv.y_extra(
                v0,
                block_face,
                occlusion_data,
                x as int,
                y + 1,
            ),
            !growing ==> lv.y_extra(v0, block_face, occlusion_data, x as int, y + y_len) == 0,
        decreases
                (32 - y - y_len) * 2 + (if growing {
                    1int
                } else {
                    0int
                }),
    {
        let y_pos: i32 = y + y_len;
        proof {
            if y_pos < 32 {
                lemma_mark_rect_outside(v0, x as int, y as int, 1, y_len as int, x as int, y_pos as int);
            }
        }
        if y_pos >= 32 {
            growing = false;
        } else if visit_map.is_visited(x, y_pos) {
            growing = false;
        } else if !block_face.can_merge_with(&face_at(blocks, models, face, layer, x, y_pos))
            || is_occluded(blocks, models, face, layer, x, y_pos) || face_occlusion_data(
            blocks,
            models,
            face,
            layer,
            x,
            y_pos,
        ) != occlusion_data {
            growing = false;
        } else {
            visit_map.visit(x, y_pos);
            proof {
                lemma_mark_rect_grow_y(v0, x as int, y as int, y_len as int);
            }
            y_len += 1;
        }
    }
    proof {
        lemma_mark_rect_len(v0, x as int, y as int, 1, y_len as int);
    }
    y_len
}

/// Grows a quad of `y_len` cells at `(x, y)` along `x`, strip by strip,
/// marks what the scan need not look at again, and returns how many cells
/// the quad then spans along `x`.
pub(crate) fn grow_x(
    blocks: &ChunkMeshData,
    models: &[BlockModelUv],
    visit_map: &mut VisitedBlockMap,
    face: FaceDirection,
    layer: i32,
    x: i32,
    y: i32,
    y_len: i32,
    block_face: BlockFaceUv,
    occlusion_data: FaceOcclusionData,
    Ghost(v0): Ghost<Seq<bool>>,
) -> (x_len: i32)
    requires
        models@.len() >= 4,
        0 <= layer < 32,
        0 <= x < 32,
        0 <= y < 32,
        1 <= y_len,
        y + y_len <= 32,
        v0.len() == 1024,
        old(visit_map)@ == mark_rect(v0, x as int, y as int, 1, y_len as int),
    ensures
        1 <= x_len,
        x + x_len <= 32,
        x_len == 1 + layer_view(*blocks, models@, face, layer as int).x_extra(
            v0,
            block_face,
            occlusion_data,
            x + 1,
            y as int,
            y_len as int,
        ),
        final(visit_map)@ == layer_view(*blocks, models@, face, layer as int).visited_after(
            v0,
            Quad { x, y, x_len, y_len, face: block_face, occlusion: occlusion_data },
        ),
        final(visit_map)@.len() == 1024,
{
    let ghost lv = layer_view(*blocks, models@, face, layer as int);
    let mut x_len: i32 = 1;
    let mut growing: bool = true;
    proof {
        lemma_mark_rect_len(v0, x as int, y as int, 1, y_len as int);
    }
    while growing
        invariant
            models@.len() >= 4,
            0 <= layer < 32,
            0 <= x < 32,
            0 <= y < 32,
            1 <= y_len,
            y + y_len <= 32,
            1 <= x_len,
            x + x_len <= 32,
            v0.len() == 1024,
            visit_map@.len() == 1024,
            lv == layer_view(*blocks, models@, face, layer as int),
            growing ==> visit_map@ == mark_rect(v0, x as int, y as int, x_len as int, y_len as int),
            (x_len - 1) + lv.x_extra(
                v0,
                block_face,
                occlusion_data,
                x + x_len,
                y as int,
                y_len as int,
            ) == lv.x_extra(v0, block_face, occlusion_data, x + 1, y as int, y_len as int),
            !growing ==> lv.x_extra(
                v0,
                block_face,
                occlusion_data,
                x + x_len,
                y as int,
                y_len as int,
            ) == 0 && visit_map@ == lv.visited_after(
                v0,
                Quad { x, y, x_len, y_len, face: block_face, occlusion: occlusion_data },
            ),
        decreases
                (32 - x - x_len) * 2 + (if growing {
                    1int
                } else {
                    0int
                }),
    {
        let x_pos: i32 = x + x_len;
        if x_pos >= 32 {
            growing = false;
        } else {
            let ghost v1 = visit_map@;
            let mut k: i32 = 0;
            let mut joined: bool = true;
            while joined && k < y_len
                invariant
                    models@.len() >= 4,
                    0 <= layer < 32,
                    0 <= x < 32,
                    0 <= y < 32,
                    1 <= y_len,
                    y + y_len <= 32,
                    1 <= x_len,
                    x_pos == x + x_len,
                    x_pos < 32,
                    0 <= k <= y_len,
                    v0.len() == 1024,
                    lv == layer_view(*blocks, models@, face, layer as int),
                    v1 == mark_rect(v0, x as int, y as int, x_len as int, y_len as int),
                    joined ==> visit_map@ == v1,
                    lv.strip_stop(
                        v0,
                        block_face,
                        occlusion_data,
                        x_pos as int,
                        y as int,
                        y_len as int,
                        k as int,
                    ) == lv.strip_stop(
                        v0,
                        block_face,
                        occlusion_data,
                        x_pos as int,
                        y as int,
                        y_len as int,
                        0,
                    ),
                    !joined ==> k < y_len && !lv.joins(
                        v0,
                        block_face,
                        occlusion_data,
                        x_pos as int,
                        y + k,
                    ) && visit_map@ == (if !v0[x_pos * 32 + y + k] && (lv.occluded)(
                        x_pos as int,
                        y + k,
                    ) {
                        v1.update(x_pos * 32 + y + k, true)
                    } else {
                        v1
                    }),
                decreases
                        (y_len - k) * 2 + (if joined {
                            1int
                        } else {
                            0int
                        }),
            {
                let cy: i32 = y + k;
                proof {
                    lemma_mark_rect_outside(
                        v0,
                        x as int,
                        y as int,
                        x_len as int,
                        y_len as int,
                        x_pos as int,
                        cy as int,
                    );
                }
                if visit_map.is_visited(x_pos, cy) {
                    joined = false;
                } else if is_occluded(blocks, models, face, layer, x_pos, cy) {
                    visit_map.visit(x_pos, cy);
                    joined = false;
                } else if !block_face.can_merge_with(
                    &face_at(blocks, models, face, layer, x_pos, cy),
                ) || face_occlusion_data(blocks, models, face, layer, x_pos, cy) != occlusion_data {
                    joined = false;
                } else {
                    k += 1;
                }
            }
            if joined {
                let mut j: i32 = 0;
                proof {
                    lemma_mark_strip(v0, x as int, y as int, x_len as int, y_len as int, 0);
                }
                while j < y_len
                    invariant
                        0 <= x < 32,
                        0 <= y < 32,
                        1 <= y_len,
                        y + y_len <= 32,
                        1 <= x_len,
                        x_pos == x + x_len,
                        x_pos < 32,
                        0 <= j <= y_len,
                        v0.len() == 1024,
                        visit_map@ == mark_rect_and_strip(
                            v0,
                            x as int,
                            y as int,
                            x_len as int,
                            y_len as int,
                            j as int,
                        ),
                    decreases y_len - j,
                {
                    proof {
                        lemma_mark_strip(
                            v0,
                            x as int,
                            y as int,
                            x_len as int,
                            y_len as int,
                            j as int,
                        );
                    }
                    visit_map.visit(x_pos, y + j);
                    j += 1;
                }
                proof {
                    lemma_mark_strip(v0, x as int, y as int, x_len as int, y_len as int, 0);
                    lemma_mark_rect_len(v0, x as int, y as int, x_len + 1, y_len as int);
                }
                x_len += 1;
            } else {
                growing = false;
            }
        }
    }
    x_len
}

} // verus!
