use minecone::blocks::utils::Rotation;
use minecone::blocks::{BlockStorage, BlockType};
use minecone::meshing::layer::{face_at, face_occlusion_data, is_occluded, vertex_occlusion_level};
use minecone::meshing::{
    block_pos_for_layer, generate_mesh, mesh_layer, BlockFaceType, BlockFaceUv, BlockModelUv,
    ChunkMeshData, FaceDirection, FaceMeshData, FaceOcclusionData, MeshBuffers, TextureUvData,
    VisitedBlockMap,
};
use minecone::types::{BlockPos, ChunkPos, UVec2, UVec3};
use minecone::world::{ChunkData, ChunkRegion, LockedChunkArea};

fn full_face(texture_map_index: usize, rotation: Rotation) -> BlockFaceUv {
    BlockFaceUv {
        rotation,
        face_type: BlockFaceType::Full(TextureUvData {
            uv_base: UVec2::new(texture_map_index as u32 % 4, texture_map_index as u32 / 4),
            texture_map_index,
        }),
    }
}

fn empty_face() -> BlockFaceUv {
    BlockFaceUv { rotation: Rotation::Deg0, face_type: BlockFaceType::Empty }
}

fn models() -> Vec<BlockModelUv> {
    vec![
        BlockModelUv::new(empty_face()),
        BlockModelUv::new(full_face(1, Rotation::Deg0)),
        BlockModelUv::new(full_face(2, Rotation::Deg0)),
        BlockModelUv::new(full_face(3, Rotation::Deg0)),
    ]
}

fn cube_region() -> ChunkRegion {
    ChunkRegion { min_chunk: ChunkPos::new(-1, -1, -1), size: UVec3::new(3, 3, 3) }
}

fn mesh_data<'a>(center: &'a ChunkData, around: &'a ChunkData) -> ChunkMeshData<'a> {
    let mut chunks = Vec::new();
    for i in 0..27 {
        chunks.push(if i == 13 { center } else { around });
    }
    ChunkMeshData::new(LockedChunkArea::from_chunks(chunks, cube_region()).unwrap())
}

fn chunk_with(blocks: &[(i32, i32, i32, BlockType)]) -> ChunkData {
    let mut storage = BlockStorage::default();
    for (x, y, z, block_type) in blocks {
        storage.new_block(BlockPos::new(*x, *y, *z), *block_type).unwrap();
    }
    ChunkData::new(storage)
}

#[test]
fn isolated_filled_chunk_has_six_quads() {
    let center = ChunkData::new(BlockStorage::new_filled(BlockType::Stone));
    let air = ChunkData::default();
    let data = mesh_data(&center, &air);
    let mesh = generate_mesh(&data, &models()).unwrap();
    assert_eq!(mesh.position_buffer.len(), 24);
    assert_eq!(mesh.uv_base_buffer.len(), 24);
    assert_eq!(mesh.face_count_buffer.len(), 24);
    assert_eq!(mesh.shading_buffer.len(), 24);
    assert_eq!(mesh.index_buffer.len(), 36);
    let p = BlockPos::new;
    assert_eq!(
        mesh.position_buffer,
        vec![
            // front
            p(32, 32, 32), p(0, 32, 32), p(0, 0, 32), p(32, 0, 32),
            // back
            p(0, 32, 0), p(32, 32, 0), p(32, 0, 0), p(0, 0, 0),
            // top
            p(0, 32, 32), p(32, 32, 32), p(32, 32, 0), p(0, 32, 0),
            // bottom
            p(32, 0, 32), p(0, 0, 32), p(0, 0, 0), p(32, 0, 0),
            // left
            p(0, 32, 32), p(0, 32, 0), p(0, 0, 0), p(0, 0, 32),
            // right
            p(32, 32, 0), p(32, 32, 32), p(32, 0, 32), p(32, 0, 0),
        ]
    );
    for quad in 0..6 {
        assert_eq!(
            mesh.face_count_buffer[quad * 4..quad * 4 + 4],
            [UVec2::new(0, 0), UVec2::new(32, 0), UVec2::new(32, 32), UVec2::new(0, 32)]
        );
        let base = quad as u32 * 4;
        assert_eq!(
            mesh.index_buffer[quad * 6..quad * 6 + 6],
            [base, base + 1, base + 2, base + 2, base + 3, base]
        );
    }
    assert!(mesh.uv_base_buffer.iter().all(|uv| *uv == UVec2::new(3, 0)));
}

#[test]
fn faces_without_occluding_neighbours_are_fully_lit() {
    let center = ChunkData::new(BlockStorage::new_filled(BlockType::Dirt));
    let air = ChunkData::default();
    let data = mesh_data(&center, &air);
    let mesh = generate_mesh(&data, &models()).unwrap();
    assert!(mesh.shading_buffer.iter().all(|light| *light == 4));
    let single = chunk_with(&[(10, 11, 12, BlockType::Grass)]);
    let data = mesh_data(&single, &air);
    let mesh = generate_mesh(&data, &models()).unwrap();
    assert_eq!(mesh.shading_buffer, vec![4; 24]);
}

#[test]
fn fully_enclosed_chunk_has_no_mesh() {
    let center = ChunkData::new(BlockStorage::new_filled(BlockType::Stone));
    let around = ChunkData::new(BlockStorage::new_filled(BlockType::Dirt));
    let data = mesh_data(&center, &around);
    assert!(generate_mesh(&data, &models()).is_none());
}

#[test]
fn a_chunk_of_air_has_no_mesh() {
    let air = ChunkData::default();
    let around = ChunkData::new(BlockStorage::new_filled(BlockType::Dirt));
    let data = mesh_data(&air, &around);
    assert!(data.is_empty());
    assert!(generate_mesh(&data, &models()).is_none());
    let data = mesh_data(&air, &air);
    assert!(generate_mesh(&data, &models()).is_none());
}

#[test]
fn a_single_block_has_six_unit_quads() {
    let single = chunk_with(&[(10, 11, 12, BlockType::Grass)]);
    let air = ChunkData::default();
    let data = mesh_data(&single, &air);
    assert!(!data.is_empty());
    let mesh = generate_mesh(&data, &models()).unwrap();
    assert_eq!(mesh.position_buffer.len(), 24);
    let p = BlockPos::new;
    // the front face lies in the plane z = 13
    assert_eq!(mesh.position_buffer[0..4], [p(11, 12, 13), p(10, 12, 13), p(10, 11, 13), p(11, 11, 13)]);
    // the right face lies in the plane x = 11
    assert_eq!(mesh.position_buffer[20..24], [p(11, 12, 12), p(11, 12, 13), p(11, 11, 13), p(11, 11, 12)]);
    for quad in 0..6 {
        assert_eq!(
            mesh.face_count_buffer[quad * 4..quad * 4 + 4],
            [UVec2::new(0, 0), UVec2::new(1, 0), UVec2::new(1, 1), UVec2::new(0, 1)]
        );
    }
    assert!(mesh.uv_base_buffer.iter().all(|uv| *uv == UVec2::new(2, 0)));
}

#[test]
fn block_reads_reach_into_the_neighbours() {
    let center = chunk_with(&[(0, 0, 0, BlockType::Stone)]);
    let around = chunk_with(&[(31, 31, 31, BlockType::Dirt)]);
    let data = mesh_data(&center, &around);
    assert_eq!(data.get(BlockPos::new(0, 0, 0)).block_type(), BlockType::Stone);
    assert_eq!(data.get(BlockPos::new(-1, -1, -1)).block_type(), BlockType::Dirt);
    assert_eq!(data.get(BlockPos::new(63, 63, 63)).block_type(), BlockType::Dirt);
    assert_eq!(data.get(BlockPos::new(63, 31, -1)).block_type(), BlockType::Dirt);
    assert_eq!(data.get(BlockPos::new(63, 30, -1)).block_type(), BlockType::Air);
    assert_eq!(data.get(BlockPos::new(31, 31, 31)).block_type(), BlockType::Air);
    assert_eq!(data.get(BlockPos::new(32, 32, 32)).block_type(), BlockType::Air);
}

#[test]
fn faces_with_different_textures_do_not_merge() {
    let center = chunk_with(&[
        (0, 0, 0, BlockType::Dirt),
        (1, 0, 0, BlockType::Dirt),
        (2, 0, 0, BlockType::Stone),
    ]);
    let air = ChunkData::default();
    let data = mesh_data(&center, &air);
    let models = models();
    let mut buffers = MeshBuffers::new();
    let mut visit_map = VisitedBlockMap::new();
    mesh_layer(&data, &models, &mut buffers, &mut visit_map, FaceDirection::Top, 0);
    let p = BlockPos::new;
    assert_eq!(
        buffers.position_buffer,
        vec![
            p(0, 1, 1), p(2, 1, 1), p(2, 1, 0), p(0, 1, 0),
            p(2, 1, 1), p(3, 1, 1), p(3, 1, 0), p(2, 1, 0),
        ]
    );
    assert_eq!(
        buffers.face_count_buffer,
        vec![
            UVec2::new(0, 0), UVec2::new(2, 0), UVec2::new(2, 1), UVec2::new(0, 1),
            UVec2::new(0, 0), UVec2::new(1, 0), UVec2::new(1, 1), UVec2::new(0, 1),
        ]
    );
    assert_eq!(buffers.uv_base_buffer[0], UVec2::new(1, 0));
    assert_eq!(buffers.uv_base_buffer[4], UVec2::new(3, 0));
    assert_eq!(buffers.index_buffer, vec![0, 1, 2, 2, 3, 0, 4, 5, 6, 6, 7, 4]);
    let mesh = generate_mesh(&data, &models).unwrap();
    assert_eq!(mesh.position_buffer.len(), 10 * 4);
    assert_eq!(mesh.index_buffer.len(), 10 * 6);
}

#[test]
fn faces_with_different_rotations_do_not_merge() {
    let a = full_face(1, Rotation::Deg0);
    let b = full_face(1, Rotation::Deg90);
    let c = full_face(2, Rotation::Deg0);
    assert!(a.can_merge_with(&a));
    assert!(!a.can_merge_with(&b));
    assert!(!a.can_merge_with(&c));
    assert!(!a.can_merge_with(&empty_face()));
    assert!(!empty_face().can_merge_with(&a));
    assert!(!empty_face().can_merge_with(&empty_face()));
    assert!(a.is_visible());
    assert!(a.is_occluder());
    assert!(!empty_face().is_visible());
    assert!(!empty_face().is_occluder());
}

#[test]
fn a_hidden_face_is_not_meshed() {
    // two blocks on top of each other: the faces between them are hidden
    let center = chunk_with(&[(4, 4, 4, BlockType::Dirt), (4, 5, 4, BlockType::Dirt)]);
    let air = ChunkData::default();
    let data = mesh_data(&center, &air);
    let models = models();
    assert!(is_occluded(&data, &models, FaceDirection::Top, 4, 4, 4));
    assert!(!is_occluded(&data, &models, FaceDirection::Top, 5, 4, 4));
    assert!(is_occluded(&data, &models, FaceDirection::Bottom, 5, 4, 4));
    assert!(!is_occluded(&data, &models, FaceDirection::Bottom, 4, 4, 4));
    let mut buffers = MeshBuffers::new();
    let mut visit_map = VisitedBlockMap::new();
    mesh_layer(&data, &models, &mut buffers, &mut visit_map, FaceDirection::Top, 4);
    assert!(buffers.is_empty());
    mesh_layer(&data, &models, &mut buffers, &mut visit_map, FaceDirection::Top, 5);
    assert_eq!(buffers.position_buffer.len(), 4);
    // the sides merge into quads of two blocks; top and bottom are single
    let mesh = generate_mesh(&data, &models).unwrap();
    assert_eq!(mesh.position_buffer.len(), 6 * 4);
    // the front face spans one block along x and two along y
    assert_eq!(
        mesh.face_count_buffer[0..4],
        [UVec2::new(0, 0), UVec2::new(1, 0), UVec2::new(1, 2), UVec2::new(0, 2)]
    );
}

#[test]
fn occlusion_level_counts_the_cells_around_a_corner() {
    let air = ChunkData::default();
    let models = models();
    // seen from the front, layer 5 is hidden by the blocks at z = 6
    let cases: [(&[(i32, i32)], u8); 8] = [
        (&[], 0),
        (&[(4, 4)], 1),
        (&[(4, 4), (4, 5)], 2),
        (&[(4, 5), (5, 5)], 2),
        (&[(4, 4), (5, 5)], 3),
        (&[(4, 5), (5, 4)], 3),
        (&[(4, 4), (4, 5), (5, 4)], 3),
        (&[(4, 4), (4, 5), (5, 4), (5, 5)], 4),
    ];
    for (cells, level) in cases {
        let blocks: Vec<(i32, i32, i32, BlockType)> =
            cells.iter().map(|(x, y)| (*x, *y, 6, BlockType::Stone)).collect();
        let center = chunk_with(&blocks);
        let data = mesh_data(&center, &air);
        assert_eq!(vertex_occlusion_level(&data, &models, FaceDirection::Front, 5, 5, 5), level);
    }
}

#[test]
fn occlusion_darkens_the_corners_next_to_a_block() {
    // a block with another one diagonally above it
    let center = chunk_with(&[(5, 5, 5, BlockType::Dirt), (6, 6, 5, BlockType::Stone)]);
    let air = ChunkData::default();
    let data = mesh_data(&center, &air);
    let models = models();
    let occlusion = face_occlusion_data(&data, &models, FaceDirection::Top, 5, 5, 5);
    assert_eq!(
        occlusion,
        FaceOcclusionData { x_neg_y_neg: 0, x_neg_y_pos: 0, x_pos_y_neg: 1, x_pos_y_pos: 1 }
    );
    let mut buffers = MeshBuffers::new();
    let mut visit_map = VisitedBlockMap::new();
    mesh_layer(&data, &models, &mut buffers, &mut visit_map, FaceDirection::Top, 5);
    assert_eq!(buffers.shading_buffer, vec![4, 3, 3, 4]);
    assert_eq!(FaceOcclusionData::occlusion_value_to_quarters(0), 4);
    assert_eq!(FaceOcclusionData::occlusion_value_to_quarters(3), 1);
    assert_eq!(FaceOcclusionData::occlusion_value_to_quarters(4), 0);
}

#[test]
fn cells_with_different_light_do_not_merge() {
    // a floor of three blocks along x with a block standing beside one end
    let center = chunk_with(&[
        (5, 5, 5, BlockType::Dirt),
        (6, 5, 5, BlockType::Dirt),
        (7, 5, 5, BlockType::Dirt),
        (8, 6, 5, BlockType::Stone),
    ]);
    let air = ChunkData::default();
    let data = mesh_data(&center, &air);
    let models = models();
    let mut buffers = MeshBuffers::new();
    let mut visit_map = VisitedBlockMap::new();
    mesh_layer(&data, &models, &mut buffers, &mut visit_map, FaceDirection::Top, 5);
    // the two lit cells merge, the darkened one stays alone
    assert_eq!(
        buffers.face_count_buffer,
        vec![
            UVec2::new(0, 0), UVec2::new(2, 0), UVec2::new(2, 1), UVec2::new(0, 1),
            UVec2::new(0, 0), UVec2::new(1, 0), UVec2::new(1, 1), UVec2::new(0, 1),
        ]
    );
    assert_eq!(buffers.shading_buffer, vec![4, 4, 4, 4, 4, 3, 3, 4]);
}

#[test]
fn a_rectangle_grows_along_both_sides() {
    let mut blocks = Vec::new();
    for x in 2..6 {
        for z in 3..10 {
            blocks.push((x, 0, z, BlockType::Stone));
        }
    }
    // a notch: one block of the next strip is missing
    for z in 3..9 {
        blocks.push((6, 0, z, BlockType::Stone));
    }
    let center = chunk_with(&blocks);
    let air = ChunkData::default();
    let data = mesh_data(&center, &air);
    let models = models();
    let mut buffers = MeshBuffers::new();
    let mut visit_map = VisitedBlockMap::new();
    mesh_layer(&data, &models, &mut buffers, &mut visit_map, FaceDirection::Top, 0);
    let p = BlockPos::new;
    assert_eq!(
        buffers.position_buffer,
        vec![
            p(2, 1, 10), p(6, 1, 10), p(6, 1, 3), p(2, 1, 3),
            p(6, 1, 9), p(7, 1, 9), p(7, 1, 3), p(6, 1, 3),
        ]
    );
}

#[test]
fn layer_cells_map_to_block_positions() {
    assert_eq!(block_pos_for_layer(FaceDirection::Front, 7, 1, 2), BlockPos::new(1, 2, 7));
    assert_eq!(block_pos_for_layer(FaceDirection::Back, 7, 1, 2), BlockPos::new(1, 2, 7));
    assert_eq!(block_pos_for_layer(FaceDirection::Top, 7, 1, 2), BlockPos::new(1, 7, 2));
    assert_eq!(block_pos_for_layer(FaceDirection::Bottom, 7, 1, 2), BlockPos::new(1, 7, 2));
    assert_eq!(block_pos_for_layer(FaceDirection::Left, 7, 1, 2), BlockPos::new(7, 1, 2));
    assert_eq!(block_pos_for_layer(FaceDirection::Right, 7, 1, 2), BlockPos::new(7, 1, 2));
}

#[test]
fn face_directions_and_their_opposites() {
    let all = FaceDirection::all();
    for (i, face) in all.iter().enumerate() {
        assert_eq!(face.index(), i);
        assert_eq!(face.opposite_face().opposite_face(), *face);
        assert_ne!(face.opposite_face(), *face);
    }
    assert_eq!(FaceDirection::Front.opposite_face(), FaceDirection::Back);
    assert_eq!(FaceDirection::Top.opposite_face(), FaceDirection::Bottom);
    assert_eq!(FaceDirection::Left.opposite_face(), FaceDirection::Right);
    assert_eq!(FaceDirection::Front.occluding_layer(3), 4);
    assert_eq!(FaceDirection::Top.occluding_layer(31), 32);
    assert_eq!(FaceDirection::Right.occluding_layer(0), 1);
    assert_eq!(FaceDirection::Back.occluding_layer(0), -1);
    assert_eq!(FaceDirection::Bottom.occluding_layer(3), 2);
    assert_eq!(FaceDirection::Left.occluding_layer(31), 30);
}

#[test]
fn model_faces_by_direction() {
    let mut model = BlockModelUv::new(full_face(1, Rotation::Deg0));
    model.faces[FaceDirection::Top.index()] = full_face(2, Rotation::Deg180);
    assert_eq!(model.get_face(FaceDirection::Top), full_face(2, Rotation::Deg180));
    assert_eq!(model.get_face(FaceDirection::Bottom), full_face(1, Rotation::Deg0));
    let grass = chunk_with(&[(0, 0, 0, BlockType::Grass)]);
    let air = ChunkData::default();
    let data = mesh_data(&grass, &air);
    let mut models = models();
    models[2] = model;
    assert_eq!(face_at(&data, &models, FaceDirection::Top, 0, 0, 0), full_face(2, Rotation::Deg180));
    assert_eq!(face_at(&data, &models, FaceDirection::Left, 0, 0, 0), full_face(1, Rotation::Deg0));
    assert_eq!(face_at(&data, &models, FaceDirection::Left, 0, 0, 1), empty_face());
}

#[test]
fn face_mesh_data_for_each_direction() {
    let face = full_face(5, Rotation::Deg90);
    let occlusion =
        FaceOcclusionData { x_neg_y_neg: 0, x_neg_y_pos: 1, x_pos_y_neg: 2, x_pos_y_pos: 3 };
    let position = BlockPos::new(10, 20, 30);
    let count = UVec2::new(2, 3);
    let p = BlockPos::new;
    let front = FaceMeshData::new(face, position, count, FaceDirection::Front, occlusion);
    assert_eq!(
        front,
        FaceMeshData {
            tl_vertex: p(12, 23, 31),
            tr_vertex: p(10, 23, 31),
            bl_vertex: p(12, 20, 31),
            br_vertex: p(10, 20, 31),
            tl_occlude: 1,
            tr_occlude: 3,
            bl_occlude: 2,
            br_occlude: 4,
            uv_base: UVec2::new(1, 1),
            face_count: UVec2::new(2, 3),
            rotation: Rotation::Deg90,
        }
    );
    let back = FaceMeshData::new(face, position, count, FaceDirection::Back, occlusion);
    assert_eq!(
        (back.tl_vertex, back.tr_vertex, back.bl_vertex, back.br_vertex),
        (p(10, 23, 30), p(12, 23, 30), p(10, 20, 30), p(12, 20, 30))
    );
    assert_eq!((back.tl_occlude, back.tr_occlude, back.bl_occlude, back.br_occlude), (3, 1, 4, 2));
    let top = FaceMeshData::new(face, position, count, FaceDirection::Top, occlusion);
    assert_eq!(
        (top.tl_vertex, top.tr_vertex, top.bl_vertex, top.br_vertex),
        (p(10, 21, 33), p(12, 21, 33), p(10, 21, 30), p(12, 21, 30))
    );
    assert_eq!((top.tl_occlude, top.tr_occlude, top.bl_occlude, top.br_occlude), (3, 1, 4, 2));
    let bottom = FaceMeshData::new(face, position, count, FaceDirection::Bottom, occlusion);
    assert_eq!(
        (bottom.tl_vertex, bottom.tr_vertex, bottom.bl_vertex, bottom.br_vertex),
        (p(12, 20, 33), p(10, 20, 33), p(12, 20, 30), p(10, 20, 30))
    );
    assert_eq!(
        (bottom.tl_occlude, bottom.tr_occlude, bottom.bl_occlude, bottom.br_occlude),
        (1, 3, 2, 4)
    );
    let left = FaceMeshData::new(face, position, count, FaceDirection::Left, occlusion);
    assert_eq!(
        (left.tl_vertex, left.tr_vertex, left.bl_vertex, left.br_vertex),
        (p(10, 22, 33), p(10, 22, 30), p(10, 20, 33), p(10, 20, 30))
    );
    assert_eq!((left.tl_occlude, left.tr_occlude, left.bl_occlude, left.br_occlude), (1, 2, 3, 4));
    assert_eq!(left.face_count, UVec2::new(3, 2));
    let right = FaceMeshData::new(face, position, count, FaceDirection::Right, occlusion);
    assert_eq!(
        (right.tl_vertex, right.tr_vertex, right.bl_vertex, right.br_vertex),
        (p(11, 22, 30), p(11, 22, 33), p(11, 20, 30), p(11, 20, 33))
    );
    assert_eq!(
        (right.tl_occlude, right.tr_occlude, right.bl_occlude, right.br_occlude),
        (2, 1, 4, 3)
    );
    assert_eq!(right.face_count, UVec2::new(3, 2));
}

#[test]
fn rotation_moves_the_repeat_counts_around_the_corners() {
    let occlusion =
        FaceOcclusionData { x_neg_y_neg: 0, x_neg_y_pos: 0, x_pos_y_neg: 0, x_pos_y_pos: 0 };
    let u = UVec2::new;
    let expected = [
        (Rotation::Deg0, [u(0, 0), u(2, 0), u(2, 3), u(0, 3)]),
        (Rotation::Deg90, [u(0, 3), u(0, 0), u(2, 0), u(2, 3)]),
        (Rotation::Deg180, [u(2, 3), u(0, 3), u(0, 0), u(2, 0)]),
        (Rotation::Deg270, [u(2, 0), u(2, 3), u(0, 3), u(0, 0)]),
    ];
    for (rotation, counts) in expected {
        let data = FaceMeshData::new(
            full_face(0, rotation),
            BlockPos::new(0, 0, 0),
            UVec2::new(2, 3),
            FaceDirection::Front,
            occlusion,
        );
        let mut buffers = MeshBuffers::new();
        data.insert_into_buffers(&mut buffers);
        assert_eq!(buffers.face_count_buffer, counts.to_vec());
        data.insert_into_buffers(&mut buffers);
        assert_eq!(buffers.index_buffer, vec![0, 1, 2, 2, 3, 0, 4, 5, 6, 6, 7, 4]);
        assert_eq!(buffers.position_buffer.len(), 8);
        assert_eq!(buffers.shading_buffer, vec![4; 8]);
    }
}

#[test]
fn visited_map_marks_single_cells() {
    let mut map = VisitedBlockMap::new();
    assert!(!map.is_visited(3, 4));
    map.visit(3, 4);
    assert!(map.is_visited(3, 4));
    assert!(!map.is_visited(4, 3));
    assert!(!map.is_visited(3, 5));
    map.visit(31, 31);
    assert!(map.is_visited(31, 31));
    map.clear();
    assert!(!map.is_visited(3, 4));
    assert!(!map.is_visited(31, 31));
}

fn mesh_data_by<'a>(chunk_at: &dyn Fn(i32, i32, i32) -> &'a ChunkData) -> ChunkMeshData<'a> {
    let mut chunks = Vec::new();
    for x in -1..2 {
        for y in -1..2 {
            for z in -1..2 {
                chunks.push(chunk_at(x, y, z));
            }
        }
    }
    ChunkMeshData::new(LockedChunkArea::from_chunks(chunks, cube_region()).unwrap())
}

#[test]
fn six_filled_neighbours_enclose_a_chunk() {
    let filled = ChunkData::new(BlockStorage::new_filled(BlockType::Stone));
    let air = ChunkData::default();
    let data = mesh_data_by(&|x, y, z| {
        if x.abs() + y.abs() + z.abs() <= 1 {
            &filled
        } else {
            &air
        }
    });
    assert!(generate_mesh(&data, &models()).is_none());
}

#[test]
fn one_air_neighbour_opens_one_side() {
    let filled = ChunkData::new(BlockStorage::new_filled(BlockType::Stone));
    let air = ChunkData::default();
    let data = mesh_data_by(&|x, y, z| if (x, y, z) == (0, 1, 0) { &air } else { &filled });
    let mesh = generate_mesh(&data, &models()).unwrap();
    let p = BlockPos::new;
    // the top alone; the filled chunks around the gap darken its rim, so
    // the rim does not merge with the middle
    assert!(mesh.position_buffer.iter().all(|vertex| vertex.y == 32));
    assert!(mesh.position_buffer.len() > 4);
    assert!(mesh.position_buffer.contains(&p(0, 32, 0)));
    assert!(mesh.position_buffer.contains(&p(32, 32, 32)));
    assert!(mesh.shading_buffer.iter().any(|light| *light < 4));
}

#[test]
fn a_filled_neighbour_over_an_edge_darkens_the_rim() {
    let filled = ChunkData::new(BlockStorage::new_filled(BlockType::Stone));
    let air = ChunkData::default();
    let data = mesh_data_by(&|x, y, z| {
        if (x, y, z) == (0, 0, 0) || (x, y, z) == (1, 1, 0) {
            &filled
        } else {
            &air
        }
    });
    let mesh = generate_mesh(&data, &models()).unwrap();
    // more than the six quads of an isolated chunk
    assert!(mesh.position_buffer.len() > 24);
    assert!(mesh.shading_buffer.iter().any(|light| *light < 4));
}

#[test]
fn the_quads_of_a_layer_cover_each_face_exactly_once() {
    // a scattered pattern of two block types in the lowest layer
    let mut kind = [[BlockType::Air; 32]; 32];
    let mut blocks = Vec::new();
    let mut seed: u32 = 12345;
    for x in 0..32 {
        for z in 0..32 {
            seed = seed.wrapping_mul(1103515245).wrapping_add(12345);
            let block_type = match (seed >> 16) % 4 {
                0 => BlockType::Air,
                1 => BlockType::Stone,
                _ => BlockType::Dirt,
            };
            kind[x][z] = block_type;
            if block_type != BlockType::Air {
                blocks.push((x as i32, 0, z as i32, block_type));
            }
        }
    }
    let center = chunk_with(&blocks);
    let air = ChunkData::default();
    let data = mesh_data(&center, &air);
    let models = models();
    let mut buffers = MeshBuffers::new();
    let mut visit_map = VisitedBlockMap::new();
    mesh_layer(&data, &models, &mut buffers, &mut visit_map, FaceDirection::Top, 0);
    let mut covered = [[0u32; 32]; 32];
    for quad in 0..buffers.position_buffer.len() / 4 {
        let corners = &buffers.position_buffer[quad * 4..quad * 4 + 4];
        let min_x = corners.iter().map(|p| p.x).min().unwrap();
        let max_x = corners.iter().map(|p| p.x).max().unwrap();
        let min_z = corners.iter().map(|p| p.z).min().unwrap();
        let max_z = corners.iter().map(|p| p.z).max().unwrap();
        assert!(0 <= min_x && min_x < max_x && max_x <= 32);
        assert!(0 <= min_z && min_z < max_z && max_z <= 32);
        assert_eq!(
            buffers.face_count_buffer[quad * 4 + 2],
            UVec2::new((max_x - min_x) as u32, (max_z - min_z) as u32)
        );
        let first = kind[min_x as usize][min_z as usize];
        assert_ne!(first, BlockType::Air);
        assert_eq!(buffers.uv_base_buffer[quad * 4], UVec2::new(first.id() as u32, 0));
        for x in min_x..max_x {
            for z in min_z..max_z {
                // every cell of a quad shows the face of the quad
                assert_eq!(kind[x as usize][z as usize], first);
                covered[x as usize][z as usize] += 1;
            }
        }
    }
    for x in 0..32 {
        for z in 0..32 {
            let shows = kind[x][z] != BlockType::Air;
            assert_eq!(covered[x][z], if shows { 1 } else { 0 });
        }
    }
}
