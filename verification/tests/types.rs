use minecone::types::{
    chunk_coord_of, local_coord_of, BlockPos, ChunkPos, UVec2, UVec3, VecAxis, CHUNK_BLOCK_COUNT,
    CHUNK_SIZE,
};
use minecone::world::ChunkRegion;

#[test]
fn chunk_constants() {
    assert_eq!(CHUNK_SIZE, 32);
    assert_eq!(CHUNK_BLOCK_COUNT, 32 * 32 * 32);
}

#[test]
fn chunk_coordinate_rounds_down() {
    assert_eq!(chunk_coord_of(0), 0);
    assert_eq!(chunk_coord_of(31), 0);
    assert_eq!(chunk_coord_of(32), 1);
    assert_eq!(chunk_coord_of(63), 1);
    assert_eq!(chunk_coord_of(-1), -1);
    assert_eq!(chunk_coord_of(-32), -1);
    assert_eq!(chunk_coord_of(-33), -2);
    assert_eq!(chunk_coord_of(i32::MAX), 67108863);
    assert_eq!(chunk_coord_of(i32::MIN), -67108864);
}

#[test]
fn local_coordinate_is_never_negative() {
    assert_eq!(local_coord_of(0), 0);
    assert_eq!(local_coord_of(31), 31);
    assert_eq!(local_coord_of(32), 0);
    assert_eq!(local_coord_of(-1), 31);
    assert_eq!(local_coord_of(-32), 0);
    assert_eq!(local_coord_of(-33), 31);
    assert_eq!(local_coord_of(i32::MAX), 31);
    assert_eq!(local_coord_of(i32::MIN), 0);
}

#[test]
fn block_position_splits_into_chunk_and_local_part() {
    for pos in [
        BlockPos::new(0, 0, 0),
        BlockPos::new(-1, 32, 95),
        BlockPos::new(-65, 1000, -1000),
        BlockPos::new(i32::MIN, i32::MAX, 17),
    ] {
        let chunk = ChunkPos::from_block(pos);
        let local = pos.as_chunk_local();
        assert!(local.is_chunk_local());
        assert_eq!(chunk.x as i64 * 32 + local.x as i64, pos.x as i64);
        assert_eq!(chunk.y as i64 * 32 + local.y as i64, pos.y as i64);
        assert_eq!(chunk.z as i64 * 32 + local.z as i64, pos.z as i64);
    }
    assert_eq!(ChunkPos::from_block(BlockPos::new(-1, 32, 95)), ChunkPos::new(-1, 1, 2));
    assert_eq!(BlockPos::new(-1, 32, 95).as_chunk_local(), BlockPos::new(31, 0, 31));
}

#[test]
fn is_chunk_local_at_the_borders() {
    assert!(BlockPos::new(0, 0, 0).is_chunk_local());
    assert!(BlockPos::new(31, 31, 31).is_chunk_local());
    assert!(!BlockPos::new(32, 0, 0).is_chunk_local());
    assert!(!BlockPos::new(0, -1, 0).is_chunk_local());
    assert!(!BlockPos::new(0, 0, 32).is_chunk_local());
}

#[test]
fn corner_block_of_a_chunk() {
    assert_eq!(BlockPos::from_chunk(ChunkPos::new(1, -1, 0)), BlockPos::new(32, -32, 0));
    assert_eq!(
        BlockPos::from_chunk(ChunkPos::new(67108863, -67108864, 2)),
        BlockPos::new(i32::MAX - 31, i32::MIN, 64)
    );
}

#[test]
fn adjacent_chunks_inside_a_chunk() {
    let region = BlockPos::new(5, 40, -7).adjacent_chunks();
    assert_eq!(region, ChunkRegion { min_chunk: ChunkPos::new(0, 1, -1), size: UVec3::new(1, 1, 1) });
}

#[test]
fn adjacent_chunks_at_the_low_border() {
    let region = BlockPos::new(0, 40, -7).adjacent_chunks();
    assert_eq!(region, ChunkRegion { min_chunk: ChunkPos::new(-1, 1, -1), size: UVec3::new(2, 1, 1) });
}

#[test]
fn adjacent_chunks_at_the_high_border() {
    let region = BlockPos::new(5, 63, -7).adjacent_chunks();
    assert_eq!(region, ChunkRegion { min_chunk: ChunkPos::new(0, 1, -1), size: UVec3::new(1, 2, 1) });
}

#[test]
fn adjacent_chunks_at_a_corner() {
    let region = BlockPos::new(-32, 31, 64).adjacent_chunks();
    assert_eq!(region, ChunkRegion { min_chunk: ChunkPos::new(-2, 0, 1), size: UVec3::new(2, 2, 2) });
    assert_eq!(region.chunk_count(), 8);
    assert!(region.contains_chunk(ChunkPos::from_block(BlockPos::new(-32, 31, 64))));
}

#[test]
fn adjacent_chunks_are_those_within_one_block() {
    let pos = BlockPos::new(31, 0, 15);
    let region = pos.adjacent_chunks();
    for cx in -2..3 {
        for cy in -2..3 {
            for cz in -2..3 {
                let touches = cx * 32 - 1 <= pos.x
                    && pos.x <= cx * 32 + 32
                    && cy * 32 - 1 <= pos.y
                    && pos.y <= cy * 32 + 32
                    && cz * 32 - 1 <= pos.z
                    && pos.z <= cz * 32 + 32;
                assert_eq!(region.contains_chunk(ChunkPos::new(cx, cy, cz)), touches);
            }
        }
    }
}

#[test]
fn axis_access_and_steps() {
    let pos = BlockPos::new(1, 2, 3);
    assert_eq!(pos.axis(VecAxis::X), 1);
    assert_eq!(pos.axis(VecAxis::Y), 2);
    assert_eq!(pos.axis(VecAxis::Z), 3);
    assert_eq!(pos.step(VecAxis::X, 1), BlockPos::new(2, 2, 3));
    assert_eq!(pos.step(VecAxis::Y, -1), BlockPos::new(1, 1, 3));
    assert_eq!(pos.step(VecAxis::Z, 0), BlockPos::new(1, 2, 3));
    let chunk = ChunkPos::new(-4, 5, 6);
    assert_eq!(chunk.axis(VecAxis::X), -4);
    assert_eq!(chunk.x(), -4);
    assert_eq!(chunk.y(), 5);
    assert_eq!(chunk.z(), 6);
    let size = UVec3::new(7, 8, 9);
    assert_eq!(size.axis(VecAxis::Z), 9);
    assert_eq!(UVec2::new(3, 4), UVec2 { x: 3, y: 4 });
}

#[test]
fn sums_and_differences() {
    assert_eq!(ChunkPos::new(1, 2, 3).add(ChunkPos::new(-1, 5, 10)), ChunkPos::new(0, 7, 13));
    assert_eq!(ChunkPos::new(1, 2, 3).sub(ChunkPos::new(1, 1, 1)), ChunkPos::new(0, 1, 2));
    assert_eq!(BlockPos::new(1, 2, 3).add(BlockPos::new(32, 64, -96)), BlockPos::new(33, 66, -93));
    assert_eq!(ChunkPos::default(), ChunkPos::new(0, 0, 0));
    assert_eq!(BlockPos::default(), BlockPos::new(0, 0, 0));
}

#[test]
fn chunk_position_from_a_block_position() {
    assert_eq!(ChunkPos::from(BlockPos::new(-1, 32, 95)), ChunkPos::new(-1, 1, 2));
    let chunk: ChunkPos = BlockPos::new(64, -64, 0).into();
    assert_eq!(chunk, ChunkPos::new(2, -2, 0));
}
