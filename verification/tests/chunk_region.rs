use minecone::types::{ChunkPos, UVec3};
use minecone::world::ChunkRegion;

fn collect(region: &ChunkRegion) -> Vec<ChunkPos> {
    let mut out = Vec::new();
    let mut iter = region.iter_chunks();
    while let Some(chunk_pos) = iter.next() {
        out.push(chunk_pos);
    }
    out
}

#[test]
fn chunk_count_is_the_volume() {
    let region = ChunkRegion { min_chunk: ChunkPos::new(-5, 0, 9), size: UVec3::new(2, 3, 4) };
    assert_eq!(region.chunk_count(), 24);
    assert_eq!(region.checked_chunk_count(), Some(24));
    let empty = ChunkRegion { min_chunk: ChunkPos::new(0, 0, 0), size: UVec3::new(3, 0, 3) };
    assert_eq!(empty.chunk_count(), 0);
}

#[test]
fn checked_chunk_count_of_a_huge_region() {
    let region = ChunkRegion {
        min_chunk: ChunkPos::new(0, 0, 0),
        size: UVec3::new(u32::MAX, u32::MAX, u32::MAX),
    };
    assert_eq!(region.checked_chunk_count(), None);
    let flat = ChunkRegion { min_chunk: ChunkPos::new(0, 0, 0), size: UVec3::new(u32::MAX, 1, 1) };
    assert_eq!(flat.checked_chunk_count(), Some(u32::MAX as usize));
}

#[test]
fn max_chunk_is_exclusive() {
    let region = ChunkRegion { min_chunk: ChunkPos::new(-5, 0, 9), size: UVec3::new(2, 3, 4) };
    assert_eq!(region.max_chunk(), ChunkPos::new(-3, 3, 13));
}

#[test]
fn contains_chunk_at_the_borders() {
    let region = ChunkRegion { min_chunk: ChunkPos::new(-5, 0, 9), size: UVec3::new(2, 3, 4) };
    assert!(region.contains_chunk(ChunkPos::new(-5, 0, 9)));
    assert!(region.contains_chunk(ChunkPos::new(-4, 2, 12)));
    assert!(!region.contains_chunk(ChunkPos::new(-3, 2, 12)));
    assert!(!region.contains_chunk(ChunkPos::new(-4, 3, 12)));
    assert!(!region.contains_chunk(ChunkPos::new(-4, 2, 13)));
    assert!(!region.contains_chunk(ChunkPos::new(-6, 0, 9)));
    assert!(!region.contains_chunk(ChunkPos::new(-5, -1, 9)));
    assert!(!region.contains_chunk(ChunkPos::new(-5, 0, 8)));
}

#[test]
fn contains_chunk_near_the_end_of_the_range() {
    let region = ChunkRegion {
        min_chunk: ChunkPos::new(i32::MAX - 1, i32::MIN, 0),
        size: UVec3::new(2, 1, 1),
    };
    assert!(region.contains_chunk(ChunkPos::new(i32::MAX, i32::MIN, 0)));
    assert!(region.contains_chunk(ChunkPos::new(i32::MAX - 1, i32::MIN, 0)));
    assert!(!region.contains_chunk(ChunkPos::new(i32::MAX - 2, i32::MIN, 0)));
    assert_eq!(
        collect(&region),
        vec![ChunkPos::new(i32::MAX - 1, i32::MIN, 0), ChunkPos::new(i32::MAX, i32::MIN, 0)]
    );
}

#[test]
fn iteration_runs_along_z_then_y_then_x() {
    let region = ChunkRegion { min_chunk: ChunkPos::new(1, 2, 3), size: UVec3::new(2, 2, 2) };
    assert_eq!(
        collect(&region),
        vec![
            ChunkPos::new(1, 2, 3),
            ChunkPos::new(1, 2, 4),
            ChunkPos::new(1, 3, 3),
            ChunkPos::new(1, 3, 4),
            ChunkPos::new(2, 2, 3),
            ChunkPos::new(2, 2, 4),
            ChunkPos::new(2, 3, 3),
            ChunkPos::new(2, 3, 4),
        ]
    );
}

#[test]
fn iteration_of_an_empty_region_yields_nothing() {
    for size in [UVec3::new(0, 0, 0), UVec3::new(0, 2, 2), UVec3::new(2, 0, 2), UVec3::new(2, 2, 0)] {
        let region = ChunkRegion { min_chunk: ChunkPos::new(4, 4, 4), size };
        assert_eq!(collect(&region), Vec::<ChunkPos>::new());
    }
}

#[test]
fn iteration_stays_at_the_end() {
    let region = ChunkRegion { min_chunk: ChunkPos::new(0, 0, 0), size: UVec3::new(1, 1, 1) };
    let mut iter = region.iter_chunks();
    assert_eq!(iter.next(), Some(ChunkPos::new(0, 0, 0)));
    assert_eq!(iter.next(), None);
    assert_eq!(iter.next(), None);
}

#[test]
fn array_index_follows_the_formula() {
    let region = ChunkRegion { min_chunk: ChunkPos::new(-1, -1, -1), size: UVec3::new(3, 4, 5) };
    assert_eq!(region.get_array_index_relative(ChunkPos::new(0, 0, 0)), Some(0));
    assert_eq!(region.get_array_index_relative(ChunkPos::new(0, 0, 1)), Some(1));
    assert_eq!(region.get_array_index_relative(ChunkPos::new(0, 1, 0)), Some(5));
    assert_eq!(region.get_array_index_relative(ChunkPos::new(1, 0, 0)), Some(20));
    assert_eq!(region.get_array_index_relative(ChunkPos::new(2, 3, 4)), Some((2 * 4 + 3) * 5 + 4));
    assert_eq!(region.get_array_index(ChunkPos::new(1, 2, 3)), Some((2 * 4 + 3) * 5 + 4));
    assert_eq!(region.get_array_index(ChunkPos::new(-1, -1, -1)), Some(0));
}

#[test]
fn array_index_outside_the_region() {
    let region = ChunkRegion { min_chunk: ChunkPos::new(-1, -1, -1), size: UVec3::new(3, 4, 5) };
    assert_eq!(region.get_array_index_relative(ChunkPos::new(-1, 0, 0)), None);
    assert_eq!(region.get_array_index_relative(ChunkPos::new(0, -1, 0)), None);
    assert_eq!(region.get_array_index_relative(ChunkPos::new(0, 0, -1)), None);
    assert_eq!(region.get_array_index_relative(ChunkPos::new(3, 0, 0)), None);
    assert_eq!(region.get_array_index_relative(ChunkPos::new(0, 4, 0)), None);
    assert_eq!(region.get_array_index_relative(ChunkPos::new(0, 0, 5)), None);
    assert_eq!(region.get_array_index(ChunkPos::new(2, 2, 3)), None);
    assert_eq!(region.get_array_index(ChunkPos::new(-2, 0, 0)), None);
    assert_eq!(region.get_array_index(ChunkPos::new(i32::MAX, i32::MIN, 0)), None);
}

#[test]
fn the_index_of_the_nth_chunk_is_n() {
    let region = ChunkRegion { min_chunk: ChunkPos::new(-7, 3, 100), size: UVec3::new(3, 2, 4) };
    let chunks = collect(&region);
    assert_eq!(chunks.len(), region.chunk_count());
    for (i, chunk_pos) in chunks.iter().enumerate() {
        assert!(region.contains_chunk(*chunk_pos));
        assert_eq!(region.get_array_index(*chunk_pos), Some(i));
    }
}
