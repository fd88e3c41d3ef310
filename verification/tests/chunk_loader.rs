use minecone::types::{ChunkPos, UVec3};
use minecone::world::{region_difference, ChunkLoader, ChunkRegion};

fn chunks_of(region: &ChunkRegion) -> Vec<ChunkPos> {
    let mut out = Vec::new();
    let mut iter = region.iter_chunks();
    while let Some(chunk_pos) = iter.next() {
        out.push(chunk_pos);
    }
    out
}

#[test]
fn region_around_a_loader() {
    let region = ChunkLoader::chunk_region_inner(ChunkPos::new(10, -3, 0), UVec3::new(1, 2, 3));
    assert_eq!(region.min_chunk, ChunkPos::new(10, -4, -2));
    assert_eq!(region.size, UVec3::new(1, 3, 5));
    assert!(region.contains_chunk(ChunkPos::new(10, -3, 0)));
}

#[test]
fn a_distance_of_zero_is_one_chunk_thick() {
    let region = ChunkLoader::chunk_region_inner(ChunkPos::new(10, -3, 0), UVec3::new(2, 0, 2));
    assert_eq!(region.min_chunk, ChunkPos::new(9, -3, -1));
    assert_eq!(region.size, UVec3::new(3, 1, 3));
    assert_eq!(region.chunk_count(), 9);
    assert!(region.contains_chunk(ChunkPos::new(10, -3, 0)));
    assert!(!region.contains_chunk(ChunkPos::new(10, -2, 0)));
    assert!(!region.contains_chunk(ChunkPos::new(10, -4, 0)));
}

#[test]
fn without_any_reach_the_chunk_of_the_loader_is_resident() {
    let position = ChunkPos::new(-7, 8, 9);
    let none = ChunkLoader::chunk_region_inner(position, UVec3::new(0, 0, 0));
    let one = ChunkLoader::chunk_region_inner(position, UVec3::new(1, 1, 1));
    assert_eq!(none, ChunkRegion { min_chunk: position, size: UVec3::new(1, 1, 1) });
    assert_eq!(none, one);
    assert_eq!(chunks_of(&none), vec![position]);
}

#[test]
fn the_region_lies_evenly_around_the_loader_and_never_shrinks() {
    let position = ChunkPos::new(3, -4, 5);
    let mut smaller = ChunkLoader::chunk_region_inner(position, UVec3::new(0, 0, 0));
    for distance in 0..6u32 {
        let region =
            ChunkLoader::chunk_region_inner(position, UVec3::new(distance, distance / 2, 5 - distance));
        assert!(region.contains_chunk(position));
        let max = region.max_chunk();
        assert_eq!(region.min_chunk.x + max.x - 1, 2 * position.x);
        assert_eq!(region.min_chunk.y + max.y - 1, 2 * position.y);
        assert_eq!(region.min_chunk.z + max.z - 1, 2 * position.z);
        let cube = ChunkLoader::chunk_region_inner(position, UVec3::new(distance, distance, distance));
        for chunk_pos in chunks_of(&smaller) {
            assert!(cube.contains_chunk(chunk_pos));
        }
        smaller = cube;
    }
}

#[test]
fn a_new_loader_has_nothing_resident() {
    let loader = ChunkLoader::new(ChunkPos::new(5, 5, 5), UVec3::new(2, 2, 2));
    assert!(!loader.resident);
    assert!(loader.has_changed());
    assert_eq!(loader.last_loaded_region().chunk_count(), 0);
    assert!(!loader.last_loaded_region().contains_chunk(ChunkPos::new(0, 0, 0)));
    assert_eq!(loader.current_loaded_region().chunk_count(), 27);
}

#[test]
fn the_first_update_loads_the_whole_region() {
    let mut loader = ChunkLoader::new(ChunkPos::new(5, 5, 5), UVec3::new(2, 2, 2));
    let region = loader.current_loaded_region();
    let update = loader.update();
    assert_eq!(update.load, chunks_of(&region));
    assert_eq!(update.load.len(), 27);
    assert!(update.unload.is_empty());
    assert!(loader.resident);
    assert!(!loader.has_changed());
    assert_eq!(loader.last_loaded_region(), region);
}

#[test]
fn an_update_without_change_asks_for_nothing() {
    let mut loader = ChunkLoader::new(ChunkPos::new(0, 0, 0), UVec3::new(2, 1, 1));
    loader.update();
    let update = loader.update();
    assert!(update.load.is_empty());
    assert!(update.unload.is_empty());
}

#[test]
fn a_new_loader_at_the_origin_without_reach_loads_its_chunk() {
    let mut loader = ChunkLoader::new(ChunkPos::new(0, 0, 0), UVec3::new(0, 0, 0));
    assert!(loader.has_changed());
    let update = loader.update();
    assert_eq!(update.load, vec![ChunkPos::new(0, 0, 0)]);
    assert!(update.unload.is_empty());
    assert!(!loader.has_changed());
    let again = loader.update();
    assert!(again.load.is_empty());
    assert!(again.unload.is_empty());
}

#[test]
fn a_reach_of_zero_and_of_one_keep_the_same_chunks() {
    let mut loader = ChunkLoader::new(ChunkPos::new(4, 4, 4), UVec3::new(1, 0, 1));
    loader.update();
    loader.load_distance = UVec3::new(0, 1, 0);
    assert!(loader.has_changed());
    let update = loader.update();
    assert!(update.load.is_empty());
    assert!(update.unload.is_empty());
}

#[test]
fn moving_loads_what_enters_and_unloads_what_leaves() {
    let mut loader = ChunkLoader::new(ChunkPos::new(0, 0, 0), UVec3::new(2, 1, 1));
    loader.update();
    loader.move_to(ChunkPos::new(1, 0, 0));
    assert!(loader.has_changed());
    let update = loader.update();
    // the resident chunks went from x in -1..=1 to x in 0..=2
    assert_eq!(update.load, vec![ChunkPos::new(2, 0, 0)]);
    assert_eq!(update.unload, vec![ChunkPos::new(-1, 0, 0)]);
}

#[test]
fn loads_and_unloads_are_the_two_differences() {
    let mut loader = ChunkLoader::new(ChunkPos::new(0, 0, 0), UVec3::new(3, 2, 2));
    loader.update();
    let last = loader.current_loaded_region();
    loader.move_to(ChunkPos::new(2, 1, -1));
    loader.load_distance = UVec3::new(2, 3, 2);
    let current = loader.current_loaded_region();
    let update = loader.update();
    for x in -6..8 {
        for y in -6..8 {
            for z in -6..8 {
                let p = ChunkPos::new(x, y, z);
                let in_last = last.contains_chunk(p);
                let in_current = current.contains_chunk(p);
                let loads = update.load.iter().filter(|q| **q == p).count();
                let unloads = update.unload.iter().filter(|q| **q == p).count();
                assert_eq!(loads, if in_current && !in_last { 1 } else { 0 });
                assert_eq!(unloads, if in_last && !in_current { 1 } else { 0 });
            }
        }
    }
    assert!(!update.load.is_empty());
    assert!(!update.unload.is_empty());
}

#[test]
fn moving_far_away_replaces_everything() {
    let mut loader = ChunkLoader::new(ChunkPos::new(0, 0, 0), UVec3::new(2, 2, 2));
    loader.update();
    let last = loader.current_loaded_region();
    loader.move_to(ChunkPos::new(100, 0, 0));
    let current = loader.current_loaded_region();
    let update = loader.update();
    assert_eq!(update.load, chunks_of(&current));
    assert_eq!(update.unload, chunks_of(&last));
}

#[test]
fn region_difference_keeps_the_canonical_order() {
    let a = ChunkRegion { min_chunk: ChunkPos::new(0, 0, 0), size: UVec3::new(2, 1, 3) };
    let b = ChunkRegion { min_chunk: ChunkPos::new(0, 0, 1), size: UVec3::new(1, 1, 1) };
    assert_eq!(
        region_difference(&a, &b),
        vec![
            ChunkPos::new(0, 0, 0),
            ChunkPos::new(0, 0, 2),
            ChunkPos::new(1, 0, 0),
            ChunkPos::new(1, 0, 1),
            ChunkPos::new(1, 0, 2),
        ]
    );
    assert_eq!(region_difference(&b, &a), Vec::<ChunkPos>::new());
    assert_eq!(region_difference(&a, &a), Vec::<ChunkPos>::new());
}

#[test]
fn can_hold_tells_which_loaders_fit() {
    assert!(ChunkLoader::can_hold(ChunkPos::new(0, 0, 0), UVec3::new(8, 8, 8)));
    assert!(ChunkLoader::can_hold(ChunkPos::new(i32::MAX, 0, 0), UVec3::new(1, 0, 1)));
    assert!(!ChunkLoader::can_hold(ChunkPos::new(i32::MAX, 0, 0), UVec3::new(2, 1, 1)));
    assert!(!ChunkLoader::can_hold(ChunkPos::new(0, i32::MIN, 0), UVec3::new(1, 2, 1)));
    assert!(!ChunkLoader::can_hold(ChunkPos::new(0, 0, 0), UVec3::new(1, 1, 0x4000_0001)));
    assert!(ChunkLoader::can_hold(ChunkPos::new(0, 0, 0), UVec3::new(1, 1, 0x4000_0000)));
}
