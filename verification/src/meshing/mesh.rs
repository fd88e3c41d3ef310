//! Meshing a layer and a whole chunk into vertex buffers.

use vstd::prelude::*;
use crate::meshing::buffers::{FaceMeshData, MeshBuffers, MeshBuffersView};
use crate::meshing::greedy::{
    insert_quads, layer_quads, lemma_insert_quads_len, lemma_insert_quads_push, none_visited,
    quad_mesh_data, Quad,
};
use crate::meshing::grow::{grow_x, grow_y};
use crate::meshing::layer::{face_at, face_occlusion_data, is_occluded, layer_view};
use crate::meshing::{
    block_pos_for_layer, in_mesh_range, BlockModelUv, ChunkMeshData, FaceDirection,
    VisitedBlockMap,
};
use crate::types::{BlockPos, UVec2};

verus! {

/// Appends the vertex data of `quad` to `buffers`.
fn emit_quad(buffers: &mut MeshBuffers, quad: Quad, face: FaceDirection, layer: i32)
    requires
        quad.face.spec_is_visible(),
        quad.occlusion.in_range(),
        0 <= layer < 32,
        0 <= quad.x < 32,
        0 <= quad.y < 32,
        1 <= quad.x_len <= 32,
        1 <= quad.y_len <= 32,
        old(buffers)@.positions.len() + 4 <= u32::MAX,
    ensures
        final(buffers)@ == old(buffers)@.insert(quad_mesh_data(quad, face, layer as int)),
{
    let face_mesh_data = FaceMeshData::new(
        quad.face,
        block_pos_for_layer(face, layer, quad.x, quad.y),
        UVec2::new(quad.x_len as u32, quad.y_len as u32),
        face,
        quad.occlusion,
    );
    face_mesh_data.insert_into_buffers(buffers);
}

/// Meshes one layer: finds its quads by the greedy scan and appends the
/// vertex data of each to `buffers`.
pub fn mesh_layer(
    blocks: &ChunkMeshData,
    models: &[BlockModelUv],
    buffers: &mut MeshBuffers,
    visit_map: &mut VisitedBlockMap,
    face: FaceDirection,
    layer: i32,
)
    requires
        models@.len() >= 4,
        0 <= layer < 32,
        old(buffers)@.positions.len() + 4096 <= u32::MAX,
    ensures
        final(buffers)@ == insert_quads(
            old(buffers)@,
            layer_quads(*blocks, models@, face, layer as int),
            face,
            layer as int,
        ),
        layer_quads(*blocks, models@, face, layer as int).len() <= 1024,
        final(visit_map)@.len() == 1024,
{
    visit_map.clear();
    let ghost lv = layer_view(*blocks, models@, face, layer as int);
    let ghost start = buffers@;
    let ghost all = lv.quads();
    let ghost mut done: Seq<Quad> = Seq::empty();
    proof {
        assert(done + lv.scan(visit_map@, 0, 0) =~= all);
        lv.lemma_scan_len(none_visited(), 0, 0);
    }
    let mut x: i32 = 0;
    while x < 32
        invariant
            0 <= x <= 32,
            models@.len() >= 4,
            0 <= layer < 32,
            lv == layer_view(*blocks, models@, face, layer as int),
            visit_map@.len() == 1024,
            done + lv.scan(visit_map@, x as int, 0) == all,
            buffers@ == insert_quads(start, done, face, layer as int),
            done.len() <= x * 32,
            start.positions.len() + 4096 <= u32::MAX,
        decreases 32 - x,
    {
        let mut y: i32 = 0;
        while y < 32
            invariant
                0 <= x < 32,
                0 <= y <= 32,
                models@.len() >= 4,
                0 <= layer < 32,
                lv == layer_view(*blocks, models@, face, layer as int),
                visit_map@.len() == 1024,
                done + lv.scan(visit_map@, x as int, y as int) == all,
                buffers@ == insert_quads(start, done, face, layer as int),
                done.len() <= x * 32 + y,
                start.positions.len() + 4096 <= u32::MAX,
            decreases 32 - y,
        {
            let ghost v0 = visit_map@;
            proof {
                lv.lemma_scan_step(v0, x as int, y as int);
            }
            if visit_map.is_visited(x, y) {
                y += 1;
            } else {
                visit_map.visit(x, y);
                let block_face = face_at(blocks, models, face, layer, x, y);
                if !block_face.is_visible() || is_occluded(blocks, models, face, layer, x, y) {
                    y += 1;
                } else {
                    let occlusion_data = face_occlusion_data(blocks, models, face, layer, x, y);
                    let y_len: i32 = grow_y(
                        blocks,
                        models,
                        visit_map,
                        face,
                        layer,
                        x,
                        y,
                        block_face,
                        occlusion_data,
                        Ghost(v0),
                    );
                    let x_len: i32 = grow_x(
                        blocks,
                        models,
                        visit_map,
                        face,
                        layer,
                        x,
                        y,
                        y_len,
                        block_face,
                        occlusion_data,
                        Ghost(v0),
                    );
                    let quad = Quad {
                        x,
                        y,
                        x_len,
                        y_len,
                        face: block_face,
                        occlusion: occlusion_data,
                    };
                    proof {
                        lv.lemma_scan_quad(v0, x as int, y as int);
                        assert(quad == lv.quad_at(v0, x as int, y as int));
                        lemma_insert_quads_len(start, done, face, layer as int);
                        lemma_insert_quads_push(start, done, quad, face, layer as int);
                        assert(done.push(quad) + lv.scan(visit_map@, x as int, y + y_len) =~= done
                            + (seq![quad] + lv.scan(visit_map@, x as int, y + y_len)));
                    }
                    emit_quad(buffers, quad, face, layer);
                    proof {
                        done = done.push(quad);
                    }
                    y += y_len;
                }
            }
        }
        proof {
            lv.lemma_scan_step(visit_map@, x as int, 32);
        }
        x += 1;
    }
    proof {
        lv.lemma_scan_step(visit_map@, 32, 0);
        assert(done =~= all);
    }
}

/// The buffers after the first `n` of the 192 layers of a chunk have been
/// meshed: the six directions in their order, and in each the layers 0 to 31.
pub open spec fn mesh_steps(blocks: ChunkMeshData, models: Seq<BlockModelUv>, n: int) -> MeshBuffersView
    decreases n,
{
    if n <= 0 {
        MeshBuffersView::empty()
    } else {
        let face = FaceDirection::spec_all()[(n - 1) / 32];
        let layer = (n - 1) % 32;
        insert_quads(
            mesh_steps(blocks, models, n - 1),
            layer_quads(blocks, models, face, layer),
            face,
            layer,
        )
    }
}

/// The mesh of the middle chunk of `blocks`.
pub open spec fn chunk_mesh(blocks: ChunkMeshData, models: Seq<BlockModelUv>) -> MeshBuffersView {
    mesh_steps(blocks, models, 192)
}

/// Generates the mesh of the middle chunk of `blocks`, with the block models
/// `models`, indexed by block type id. Returns `None` if that chunk holds
/// only air or if none of its faces can be seen.
pub fn generate_mesh(blocks: &ChunkMeshData, models: &[BlockModelUv]) -> (r: Option<MeshBuffers>)
    requires
        models@.len() >= 4,
    ensures
        r.is_none() <==> blocks.spec_is_empty() || chunk_mesh(*blocks, models@).indices.len() == 0,
        r.is_some() ==> r.unwrap()@ == chunk_mesh(*blocks, models@),
{
    if blocks.is_empty() {
        return None;
    }
    let mut buffers = MeshBuffers::new();
    let mut visit_map = VisitedBlockMap::new();
    let faces = FaceDirection::all();
    let mut f: usize = 0;
    while f < 6
        invariant
            0 <= f <= 6,
            models@.len() >= 4,
            faces@ == FaceDirection::spec_all(),
            buffers@ == mesh_steps(*blocks, models@, f * 32),
            buffers@.positions.len() <= 4096 * (f * 32),
        decreases 6 - f,
    {
        let face = faces[f];
        let mut layer: i32 = 0;
        while layer < 32
            invariant
                0 <= f < 6,
                0 <= layer <= 32,
                models@.len() >= 4,
                face == FaceDirection::spec_all()[f as int],
                buffers@ == mesh_steps(*blocks, models@, f * 32 + layer),
                buffers@.positions.len() <= 4096 * (f * 32 + layer),
            decreases 32 - layer,
        {
            let ghost before = buffers@;
            mesh_layer(blocks, models, &mut buffers, &mut visit_map, face, layer);
            proof {
                let n = f * 32 + layer + 1;
                assert((n - 1) / 32 == f && (n - 1) % 32 == layer);
                lemma_insert_quads_len(
                    before,
                    layer_quads(*blocks, models@, face, layer as int),
                    face,
                    layer as int,
                );
            }
            layer += 1;
        }
        f += 1;
    }
    if buffers.is_empty() {
        return None;
    }
    Some(buffers)
}

/// True if `pos` lies in the middle chunk or in one of the six chunks that
/// share a side with it.
pub open spec fn in_chunk_or_beside(pos: BlockPos) -> bool {
    &&& in_mesh_range(pos)
    &&& (if 0 <= pos.x < 32 {
        0int
    } else {
        1int
    }) + (if 0 <= pos.y < 32 {
        0int
    } else {
        1int
    }) + (if 0 <= pos.z < 32 {
        0int
    } else {
        1int
    }) <= 1
}

/// True if every block of the chunk and of the six chunks beside it is of
/// a type whose model has a full face on every side.
pub open spec fn all_opaque(blocks: ChunkMeshData, models: Seq<BlockModelUv>) -> bool {
    forall|pos: BlockPos, face: FaceDirection|
        in_chunk_or_beside(pos) ==> #[trigger] models[blocks.spec_get(
            pos,
        ).spec_block_id() as int].spec_get_face(face).spec_is_occluder()
}

/// A chunk that is enclosed on all six sides has no mesh: if every block of
/// the chunk and of the six chunks beside it hides what is behind it, no
/// face of the chunk can be seen, the buffers stay empty, and generation
/// returns `None`.
pub proof fn lemma_enclosed_chunk_has_no_mesh(blocks: ChunkMeshData, models: Seq<BlockModelUv>)
    requires
        all_opaque(blocks, models),
    ensures
        chunk_mesh(blocks, models) == MeshBuffersView::empty(),
        chunk_mesh(blocks, models).indices.len() == 0,
{
    lemma_enclosed_steps(blocks, models, 192);
}

/// However many layers of an enclosed chunk are meshed, the buffers stay
/// empty.
proof fn lemma_enclosed_steps(blocks: ChunkMeshData, models: Seq<BlockModelUv>, n: int)
    requires
        all_opaque(blocks, models),
    ensures
        mesh_steps(blocks, models, n) == MeshBuffersView::empty(),
    decreases n,
{
    if n > 0 {
        lemma_enclosed_steps(blocks, models, n - 1);
        let face = FaceDirection::spec_all()[(n - 1) / 32];
        let layer = (n - 1) % 32;
        let lv = layer_view(blocks, models, face, layer);
        assert forall|cx: int, cy: int| 0 <= cx < 32 && 0 <= cy < 32 implies !#[trigger] lv.shows_face(
            cx,
            cy,
        ) by {
            reveal(layer_view);
            let hidden_by = crate::meshing::spec_block_pos_for_layer(
                face,
                face.spec_occluding_layer(layer),
                cx,
                cy,
            );
            assert(in_chunk_or_beside(hidden_by));
            assert(models[blocks.spec_get(hidden_by).spec_block_id() as int].spec_get_face(
                face.spec_opposite_face(),
            ).spec_is_occluder());
        }
        lv.lemma_scan_nothing_shown(none_visited(), 0, 0);
    }
}

/// True if every block of the middle chunk has type id `block_id`, whose
/// model has a full face on every side, and every block of the neighbours
/// is of a type whose model has no face at all.
pub open spec fn isolated_filled(blocks: ChunkMeshData, models: Seq<BlockModelUv>, block_id: int) -> bool {
    &&& 0 <= block_id < models.len()
    &&& forall|face: FaceDirection| #[trigger] models[block_id].spec_get_face(face).spec_is_visible()
    &&& forall|pos: BlockPos|
        pos.spec_is_chunk_local() ==> (#[trigger] blocks.spec_get(pos)).spec_block_id() == block_id
    &&& forall|pos: BlockPos, face: FaceDirection|
        in_mesh_range(pos) && !pos.spec_is_chunk_local() ==> !#[trigger] models[blocks.spec_get(
            pos,
        ).spec_block_id() as int].spec_get_face(face).spec_is_occluder()
}

/// The vertex data of the fully lit quad that covers the whole of layer
/// `layer` with the face that the model `model` has in direction `face`.
pub open spec fn whole_layer_face(model: BlockModelUv, face: FaceDirection, layer: int) -> FaceMeshData {
    quad_mesh_data(Quad::spec_whole_layer(model.spec_get_face(face)), face, layer)
}

/// The mesh of 6 quads that encloses a chunk filled with blocks of model
/// `model`: in each direction the outermost layer as one fully lit quad.
pub open spec fn cube_mesh(model: BlockModelUv) -> MeshBuffersView {
    MeshBuffersView::empty().insert(whole_layer_face(model, FaceDirection::Front, 31)).insert(
        whole_layer_face(model, FaceDirection::Back, 0),
    ).insert(whole_layer_face(model, FaceDirection::Top, 31)).insert(
        whole_layer_face(model, FaceDirection::Bottom, 0),
    ).insert(whole_layer_face(model, FaceDirection::Left, 0)).insert(
        whole_layer_face(model, FaceDirection::Right, 31),
    )
}

/// The buffers of an isolated filled chunk after the first `n` layers: one
/// quad for each outermost layer that has been meshed.
pub open spec fn cube_steps(model: BlockModelUv, n: int) -> MeshBuffersView {
    let b0 = MeshBuffersView::empty();
    let b1 = if n > 31 {
        b0.insert(whole_layer_face(model, FaceDirection::Front, 31))
    } else {
        b0
    };
    let b2 = if n > 32 {
        b1.insert(whole_layer_face(model, FaceDirection::Back, 0))
    } else {
        b1
    };
    let b3 = if n > 95 {
        b2.insert(whole_layer_face(model, FaceDirection::Top, 31))
    } else {
        b2
    };
    let b4 = if n > 96 {
        b3.insert(whole_layer_face(model, FaceDirection::Bottom, 0))
    } else {
        b3
    };
    let b5 = if n > 128 {
        b4.insert(whole_layer_face(model, FaceDirection::Left, 0))
    } else {
        b4
    };
    if n > 191 {
        b5.insert(whole_layer_face(model, FaceDirection::Right, 31))
    } else {
        b5
    }
}

/// The layer in which the faces in direction `face` lie at the surface of
/// the chunk.
pub open spec fn surface_layer(face: FaceDirection) -> int {
    match face {
        FaceDirection::Top | FaceDirection::Front | FaceDirection::Right => 31,
        FaceDirection::Bottom | FaceDirection::Back | FaceDirection::Left => 0,
    }
}

/// The quads of one layer of an isolated filled chunk: one quad over the
/// whole layer at the surface of the chunk, and none inside it.
proof fn lemma_isolated_layer(
    blocks: ChunkMeshData,
    models: Seq<BlockModelUv>,
    block_id: int,
    face: FaceDirection,
    layer: int,
)
    requires
        isolated_filled(blocks, models, block_id),
        0 <= layer < 32,
    ensures
        layer == surface_layer(face) ==> layer_quads(blocks, models, face, layer) == seq![
            Quad::spec_whole_layer(models[block_id].spec_get_face(face)),
        ],
        layer != surface_layer(face) ==> layer_quads(blocks, models, face, layer) == Seq::<
            Quad,
        >::empty(),
{
    let lv = layer_view(blocks, models, face, layer);
    let shown = models[block_id].spec_get_face(face);
    let behind = face.spec_occluding_layer(layer);
    reveal(layer_view);
    if layer == surface_layer(face) {
        assert forall|cx: int, cy: int| 0 <= cx < 32 && 0 <= cy < 32 implies #[trigger] (lv.faces)(
            cx,
            cy,
        ) == shown by {
            let pos = crate::meshing::spec_block_pos_for_layer(face, layer, cx, cy);
            assert(pos.spec_is_chunk_local());
            assert(blocks.spec_get(pos).spec_block_id() == block_id);
        }
        assert forall|cx: int, cy: int| -1 <= cx <= 32 && -1 <= cy <= 32 implies !#[trigger] (
        lv.occluded)(cx, cy) by {
            let pos = crate::meshing::spec_block_pos_for_layer(face, behind, cx, cy);
            assert(in_mesh_range(pos) && !pos.spec_is_chunk_local());
            assert(!models[blocks.spec_get(pos).spec_block_id() as int].spec_get_face(
                face.spec_opposite_face(),
            ).spec_is_occluder());
        }
        assert(shown.spec_is_visible());
        lv.lemma_uniform_layer(shown);
    } else {
        assert forall|cx: int, cy: int| 0 <= cx < 32 && 0 <= cy < 32 implies !#[trigger] lv.shows_face(
            cx,
            cy,
        ) by {
            let pos = crate::meshing::spec_block_pos_for_layer(face, behind, cx, cy);
            assert(pos.spec_is_chunk_local());
            assert(blocks.spec_get(pos).spec_block_id() == block_id);
            assert(models[block_id].spec_get_face(face.spec_opposite_face()).spec_is_visible());
        }
        lv.lemma_scan_nothing_shown(none_visited(), 0, 0);
    }
}

/// The buffers of an isolated filled chunk after the first `n` layers.
proof fn lemma_isolated_steps(
    blocks: ChunkMeshData,
    models: Seq<BlockModelUv>,
    block_id: int,
    n: int,
)
    requires
        isolated_filled(blocks, models, block_id),
        0 <= n <= 192,
    ensures
        mesh_steps(blocks, models, n) == cube_steps(models[block_id], n),
    decreases n,
{
    if n > 0 {
        lemma_isolated_steps(blocks, models, block_id, n - 1);
        let face = FaceDirection::spec_all()[(n - 1) / 32];
        let layer = (n - 1) % 32;
        lemma_isolated_layer(blocks, models, block_id, face, layer);
        let before = mesh_steps(blocks, models, n - 1);
        let quads = layer_quads(blocks, models, face, layer);
        if layer == surface_layer(face) {
            let q = Quad::spec_whole_layer(models[block_id].spec_get_face(face));
            assert(quads =~= Seq::<Quad>::empty().push(q));
            lemma_insert_quads_push(before, Seq::<Quad>::empty(), q, face, layer);
            assert(insert_quads(before, quads, face, layer) == before.insert(
                quad_mesh_data(q, face, layer),
            ));
        }
    }
}

/// An isolated filled chunk has a mesh of exactly 6 quads: if every block of
/// the chunk is of one type that shows a full face on every side, and the
/// neighbours hold nothing that has a face, then each side of the chunk is
/// one fully lit quad of 32 by 32 blocks, and there is no other face.
pub proof fn lemma_isolated_chunk_has_six_quads(
    blocks: ChunkMeshData,
    models: Seq<BlockModelUv>,
    block_id: int,
)
    requires
        isolated_filled(blocks, models, block_id),
    ensures
        chunk_mesh(blocks, models) == cube_mesh(models[block_id]),
        chunk_mesh(blocks, models).positions.len() == 24,
        chunk_mesh(blocks, models).indices.len() == 36,
        chunk_mesh(blocks, models).face_count() == 6,
{
    lemma_isolated_steps(blocks, models, block_id, 192);
}

} // verus!
