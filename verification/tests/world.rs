use minecone::blocks::{Block, BlockStorage, BlockType};
use minecone::types::{BlockPos, ChunkPos, UVec3};
use minecone::world::{
    Chunk, ChunkData, ChunkLoad, ChunkRegion, ChunkUnload, DirtyQueue, LockedChunkArea, RemeshJob,
    World,
};

fn drain(world: &mut World) -> Vec<ChunkPos> {
    let mut out = Vec::new();
    while let Some(job) = world.take_remesh_job() {
        out.push(job.chunk_pos);
    }
    out
}

fn load_cube(world: &mut World, min: i32, max: i32) {
    for x in min..=max {
        for y in min..=max {
            for z in min..=max {
                world.load_chunk(ChunkPos::new(x, y, z), 0);
            }
        }
    }
}

#[test]
fn a_new_world_is_empty() {
    let mut world = World::new();
    assert!(!world.is_loaded(ChunkPos::new(0, 0, 0)));
    assert!(world.get_chunk(ChunkPos::new(0, 0, 0)).is_none());
    assert!(world.no_dirty_chunks());
    assert_eq!(world.pop_dirty(), None);
    assert_eq!(world.take_remesh_job(), None);
    assert_eq!(world.get_block(BlockPos::new(0, 0, 0)), None);
}

#[test]
fn dirty_queue_is_first_in_first_out() {
    let mut queue = DirtyQueue::new();
    assert!(queue.is_empty());
    assert_eq!(queue.pop(), None);
    queue.push(ChunkPos::new(1, 0, 0));
    queue.push(ChunkPos::new(2, 0, 0));
    queue.push(ChunkPos::new(1, 0, 0));
    assert!(!queue.is_empty());
    assert_eq!(queue.pop(), Some(ChunkPos::new(1, 0, 0)));
    assert_eq!(queue.pop(), Some(ChunkPos::new(2, 0, 0)));
    queue.push(ChunkPos::new(3, 0, 0));
    assert_eq!(queue.pop(), Some(ChunkPos::new(1, 0, 0)));
    assert_eq!(queue.pop(), Some(ChunkPos::new(3, 0, 0)));
    assert_eq!(queue.pop(), None);
    assert!(queue.is_empty());
}

#[test]
fn a_chunk_enters_the_registry_held_once_and_clean() {
    let mut world = World::new();
    let pos = ChunkPos::new(3, -4, 5);
    assert_eq!(world.load_chunk(pos, 77), ChunkLoad::Created);
    assert!(world.is_loaded(pos));
    let chunk = world.get_chunk(pos).unwrap();
    assert_eq!(chunk.chunk_pos, pos);
    assert_eq!(chunk.entity, 77);
    assert_eq!(chunk.load_count, 1);
    assert!(!chunk.dirty);
    assert!(!chunk.queued);
    assert!(chunk.data.blocks.is_empty());
    assert!(world.no_dirty_chunks());
    assert!(!world.is_loaded(ChunkPos::new(3, -4, 6)));
    assert!(!world.is_loaded(ChunkPos::new(-4, 3, 5)));
}

#[test]
fn load_count_follows_loads_and_unloads() {
    let mut world = World::new();
    let pos = ChunkPos::new(0, 0, 0);
    assert_eq!(world.unload_chunk(pos), ChunkUnload::NotLoaded);
    assert_eq!(world.load_chunk(pos, 5), ChunkLoad::Created);
    assert_eq!(world.load_chunk(pos, 6), ChunkLoad::Retained);
    assert_eq!(world.load_chunk(pos, 7), ChunkLoad::Retained);
    assert_eq!(world.get_chunk(pos).unwrap().load_count, 3);
    // the entity of the first load stays
    assert_eq!(world.get_chunk(pos).unwrap().entity, 5);
    assert_eq!(world.unload_chunk(pos), ChunkUnload::Released);
    assert_eq!(world.unload_chunk(pos), ChunkUnload::Released);
    assert_eq!(world.get_chunk(pos).unwrap().load_count, 1);
    assert_eq!(world.unload_chunk(pos), ChunkUnload::Evicted(5));
    assert!(!world.is_loaded(pos));
    assert_eq!(world.unload_chunk(pos), ChunkUnload::NotLoaded);
}

#[test]
fn a_reloaded_chunk_is_fresh() {
    let mut world = World::new();
    let pos = ChunkPos::new(1, 1, 1);
    world.load_chunk(pos, 1);
    world.new_block(BlockPos::new(40, 40, 40), BlockType::Stone).unwrap();
    assert_eq!(world.unload_chunk(pos), ChunkUnload::Evicted(1));
    assert_eq!(world.load_chunk(pos, 2), ChunkLoad::Created);
    let chunk = world.get_chunk(pos).unwrap();
    assert_eq!(chunk.entity, 2);
    assert!(!chunk.dirty);
    assert!(chunk.data.blocks.is_empty());
}

#[test]
fn a_chunk_is_queued_once_for_each_time_it_turns_dirty() {
    let mut world = World::new();
    load_cube(&mut world, -1, 1);
    let a = ChunkPos::new(0, 0, 0);
    let b = ChunkPos::new(0, 0, 1);
    assert!(world.mark_dirty(a));
    assert!(!world.mark_dirty(a));
    assert!(world.mark_dirty(b));
    assert!(!world.mark_dirty(a));
    assert!(world.get_chunk(a).unwrap().dirty);
    assert!(world.get_chunk(a).unwrap().queued);
    // the mesh of a can be built, so a is clean afterwards
    assert_eq!(world.take_remesh_job(), Some(RemeshJob { chunk_pos: a, ready: true }));
    assert!(!world.get_chunk(a).unwrap().dirty);
    assert!(!world.get_chunk(a).unwrap().queued);
    assert!(world.get_chunk(b).unwrap().dirty);
    // a is clean again, so the next change queues it behind b
    assert!(world.mark_dirty(a));
    assert_eq!(drain(&mut world), vec![b, a]);
    assert!(world.no_dirty_chunks());
}

#[test]
fn pop_dirty_takes_the_position_and_leaves_the_flag() {
    let mut world = World::new();
    let a = ChunkPos::new(0, 0, 0);
    world.load_chunk(a, 0);
    world.mark_dirty(a);
    assert_eq!(world.pop_dirty(), Some(a));
    assert!(world.get_chunk(a).unwrap().dirty);
    assert!(!world.get_chunk(a).unwrap().queued);
    assert_eq!(world.pop_dirty(), None);
}

#[test]
fn a_put_off_chunk_is_queued_by_a_wake_and_not_by_a_change() {
    let mut world = World::new();
    let a = ChunkPos::new(0, 0, 0);
    world.load_chunk(a, 0);
    assert!(world.mark_dirty(a));
    assert_eq!(world.take_remesh_job(), Some(RemeshJob { chunk_pos: a, ready: false }));
    assert!(world.get_chunk(a).unwrap().dirty);
    assert!(!world.mark_dirty(a));
    assert!(world.no_dirty_chunks());
    assert!(world.wake(a));
    assert!(!world.wake(a));
    assert!(world.get_chunk(a).unwrap().queued);
    assert_eq!(drain(&mut world), vec![a]);
    assert!(!world.wake(ChunkPos::new(5, 5, 5)));
}

#[test]
fn marking_a_chunk_that_is_not_loaded_does_nothing() {
    let mut world = World::new();
    assert!(!world.mark_dirty(ChunkPos::new(9, 9, 9)));
    assert!(world.no_dirty_chunks());
}

#[test]
fn chunk_marks_itself_into_a_queue() {
    let mut queue = DirtyQueue::new();
    let mut chunk = Chunk::new(ChunkPos::new(4, 5, 6), 1);
    assert!(chunk.mark_dirty(&mut queue));
    assert!(chunk.dirty);
    assert!(chunk.queued);
    assert!(!chunk.mark_dirty(&mut queue));
    assert!(!chunk.wake(&mut queue));
    assert_eq!(queue.pop(), Some(ChunkPos::new(4, 5, 6)));
    assert_eq!(queue.pop(), None);
}

#[test]
fn a_chunk_that_does_not_wait_wakes_into_the_queue() {
    let mut queue = DirtyQueue::new();
    let mut chunk = Chunk::new(ChunkPos::new(4, 5, 6), 1);
    // dirty and put off
    chunk.dirty = true;
    assert!(!chunk.mark_dirty(&mut queue));
    assert!(queue.is_empty());
    assert!(chunk.wake(&mut queue));
    assert!(chunk.dirty);
    assert!(chunk.queued);
    assert_eq!(queue.pop(), Some(ChunkPos::new(4, 5, 6)));
    let mut clean = Chunk::new(ChunkPos::new(1, 1, 1), 1);
    assert!(clean.wake(&mut queue));
    assert!(clean.dirty);
    assert_eq!(queue.pop(), Some(ChunkPos::new(1, 1, 1)));
}

#[test]
fn new_block_in_a_chunk_that_is_not_loaded() {
    let mut world = World::new();
    world.load_chunk(ChunkPos::new(0, 0, 0), 0);
    assert_eq!(world.new_block(BlockPos::new(32, 0, 0), BlockType::Dirt), None);
    assert_eq!(world.new_block(BlockPos::new(-1, 0, 0), BlockType::Dirt), None);
    assert!(world.no_dirty_chunks());
    assert!(world.get_chunk(ChunkPos::new(0, 0, 0)).unwrap().data.blocks.is_empty());
}

#[test]
fn new_block_writes_and_marks_its_chunk() {
    let mut world = World::new();
    world.load_chunk(ChunkPos::new(-1, 0, 2), 0);
    let pos = BlockPos::new(-20, 5, 70);
    let block = world.new_block(pos, BlockType::Grass);
    assert_eq!(block, Some(Block::new_from_type(BlockType::Grass)));
    assert_eq!(world.get_block(pos), block);
    assert!(world.is_solid(pos));
    assert_eq!(world.get_block(BlockPos::new(-20, 5, 71)), Some(Block::default()));
    assert!(!world.is_solid(BlockPos::new(-20, 5, 71)));
    assert!(!world.is_solid(BlockPos::new(500, 5, 71)));
    assert_eq!(drain(&mut world), vec![ChunkPos::new(-1, 0, 2)]);
    // the chunk has no neighbours, so its mesh is put off and it stays
    // dirty; taking the block away again does not queue it
    assert!(world.get_chunk(ChunkPos::new(-1, 0, 2)).unwrap().dirty);
    assert_eq!(world.new_block(pos, BlockType::Air), Some(Block::default()));
    assert!(world.get_chunk(ChunkPos::new(-1, 0, 2)).unwrap().data.blocks.is_empty());
    assert!(world.get_chunk(ChunkPos::new(-1, 0, 2)).unwrap().dirty);
    assert!(world.no_dirty_chunks());
}

#[test]
fn a_block_written_after_a_remesh_queues_the_chunk_again() {
    let mut world = World::new();
    load_cube(&mut world, -1, 1);
    let pos = BlockPos::new(5, 5, 5);
    world.new_block(pos, BlockType::Stone).unwrap();
    assert_eq!(
        world.take_remesh_job(),
        Some(RemeshJob { chunk_pos: ChunkPos::new(0, 0, 0), ready: true })
    );
    assert!(!world.get_chunk(ChunkPos::new(0, 0, 0)).unwrap().dirty);
    world.new_block(pos, BlockType::Air).unwrap();
    assert!(world.get_chunk(ChunkPos::new(0, 0, 0)).unwrap().dirty);
    assert_eq!(drain(&mut world), vec![ChunkPos::new(0, 0, 0)]);
}

#[test]
fn new_block_at_a_border_marks_the_neighbour_too() {
    let mut world = World::new();
    load_cube(&mut world, -1, 1);
    // x = 31 is the last block of chunk 0 along x; chunk 1 touches it
    world.new_block(BlockPos::new(31, 5, 5), BlockType::Stone).unwrap();
    assert_eq!(drain(&mut world), vec![ChunkPos::new(0, 0, 0), ChunkPos::new(1, 0, 0)]);
    // x = 0 is the first block of chunk 0 along x; chunk -1 touches it
    world.new_block(BlockPos::new(0, 5, 5), BlockType::Stone).unwrap();
    assert_eq!(drain(&mut world), vec![ChunkPos::new(-1, 0, 0), ChunkPos::new(0, 0, 0)]);
}

#[test]
fn new_block_at_a_corner_marks_eight_chunks() {
    let mut world = World::new();
    load_cube(&mut world, -1, 1);
    world.new_block(BlockPos::new(0, 31, 0), BlockType::Stone).unwrap();
    assert_eq!(
        drain(&mut world),
        vec![
            ChunkPos::new(-1, 0, -1),
            ChunkPos::new(-1, 0, 0),
            ChunkPos::new(-1, 1, -1),
            ChunkPos::new(-1, 1, 0),
            ChunkPos::new(0, 0, -1),
            ChunkPos::new(0, 0, 0),
            ChunkPos::new(0, 1, -1),
            ChunkPos::new(0, 1, 0),
        ]
    );
}

#[test]
fn new_block_marks_only_loaded_neighbours_and_not_twice() {
    let mut world = World::new();
    world.load_chunk(ChunkPos::new(0, 0, 0), 0);
    world.load_chunk(ChunkPos::new(0, 1, 0), 0);
    world.mark_dirty(ChunkPos::new(0, 1, 0));
    world.new_block(BlockPos::new(0, 31, 0), BlockType::Stone).unwrap();
    assert_eq!(drain(&mut world), vec![ChunkPos::new(0, 1, 0), ChunkPos::new(0, 0, 0)]);
}

#[test]
fn finish_load_hands_over_the_blocks_and_marks_the_neighbourhood() {
    let mut world = World::new();
    let pos = ChunkPos::new(5, 5, 5);
    world.load_chunk(pos, 0);
    world.load_chunk(ChunkPos::new(4, 5, 5), 0);
    world.load_chunk(ChunkPos::new(6, 6, 6), 0);
    world.load_chunk(ChunkPos::new(7, 5, 5), 0);
    let data = ChunkData::new(BlockStorage::new_filled(BlockType::Dirt));
    assert!(world.finish_load(pos, data));
    assert_eq!(world.get_chunk(pos).unwrap().data.blocks.non_air_count(), 32768);
    assert_eq!(
        world.get_block(BlockPos::new(5 * 32, 5 * 32 + 1, 5 * 32 + 2)),
        Some(Block::new_from_type(BlockType::Dirt))
    );
    // the chunk itself comes first, then its loaded neighbours in order
    assert_eq!(
        drain(&mut world),
        vec![pos, ChunkPos::new(4, 5, 5), ChunkPos::new(6, 6, 6)]
    );
}

#[test]
fn finish_load_for_a_chunk_that_has_left() {
    let mut world = World::new();
    world.load_chunk(ChunkPos::new(1, 0, 0), 0);
    let data = ChunkData::new(BlockStorage::new_filled(BlockType::Dirt));
    assert!(!world.finish_load(ChunkPos::new(0, 0, 0), data));
    assert!(world.no_dirty_chunks());
}

#[test]
fn remesh_region_is_the_cube_around_the_chunk() {
    let region = World::remesh_region(ChunkPos::new(10, 0, -10));
    assert_eq!(region, ChunkRegion { min_chunk: ChunkPos::new(9, -1, -11), size: UVec3::new(3, 3, 3) });
    assert!(World::can_remesh(ChunkPos::new(10, 0, -10)));
    assert!(!World::can_remesh(ChunkPos::new(i32::MAX, 0, 0)));
    assert!(!World::can_remesh(ChunkPos::new(0, i32::MIN, 0)));
}

#[test]
fn a_remesh_job_is_ready_when_all_neighbours_are_loaded() {
    let mut world = World::new();
    load_cube(&mut world, -1, 1);
    world.mark_dirty(ChunkPos::new(0, 0, 0));
    world.mark_dirty(ChunkPos::new(1, 0, 0));
    assert_eq!(
        world.take_remesh_job(),
        Some(RemeshJob { chunk_pos: ChunkPos::new(0, 0, 0), ready: true })
    );
    assert!(!world.get_chunk(ChunkPos::new(0, 0, 0)).unwrap().dirty);
    // the chunk at the side of the cube lacks neighbours: its job is put
    // off and it stays dirty
    assert_eq!(
        world.take_remesh_job(),
        Some(RemeshJob { chunk_pos: ChunkPos::new(1, 0, 0), ready: false })
    );
    assert!(world.get_chunk(ChunkPos::new(1, 0, 0)).unwrap().dirty);
    assert!(!world.get_chunk(ChunkPos::new(1, 0, 0)).unwrap().queued);
    assert_eq!(world.take_remesh_job(), None);
}

#[test]
fn a_deferred_chunk_is_queued_again_when_a_neighbour_arrives() {
    let mut world = World::new();
    load_cube(&mut world, -1, 1);
    assert_eq!(world.unload_chunk(ChunkPos::new(1, 1, 1)), ChunkUnload::Evicted(0));
    world.mark_dirty(ChunkPos::new(0, 0, 0));
    assert_eq!(
        world.take_remesh_job(),
        Some(RemeshJob { chunk_pos: ChunkPos::new(0, 0, 0), ready: false })
    );
    assert!(world.no_dirty_chunks());
    // the job is put off: the chunk stays dirty and does not wait
    assert!(world.get_chunk(ChunkPos::new(0, 0, 0)).unwrap().dirty);
    assert!(!world.get_chunk(ChunkPos::new(0, 0, 0)).unwrap().queued);
    // a change to the chunk does not queue it while it is put off
    assert!(!world.mark_dirty(ChunkPos::new(0, 0, 0)));
    assert!(world.no_dirty_chunks());
    // the missing neighbour arrives and its blocks are delivered
    world.load_chunk(ChunkPos::new(1, 1, 1), 0);
    assert!(world.finish_load(ChunkPos::new(1, 1, 1), ChunkData::default()));
    let mut jobs = Vec::new();
    while let Some(job) = world.take_remesh_job() {
        jobs.push(job);
    }
    assert!(jobs.contains(&RemeshJob { chunk_pos: ChunkPos::new(0, 0, 0), ready: true }));
    assert_eq!(jobs[0], RemeshJob { chunk_pos: ChunkPos::new(1, 1, 1), ready: false });
    assert_eq!(jobs[1], RemeshJob { chunk_pos: ChunkPos::new(0, 0, 0), ready: true });
    assert_eq!(jobs.len(), 8);
    assert!(!world.get_chunk(ChunkPos::new(0, 0, 0)).unwrap().dirty);
    assert!(world.get_chunk(ChunkPos::new(1, 1, 1)).unwrap().dirty);
}

#[test]
fn a_stale_queue_entry_of_an_unloaded_chunk_is_skipped() {
    let mut world = World::new();
    let pos = ChunkPos::new(2, 2, 2);
    world.load_chunk(pos, 0);
    world.mark_dirty(pos);
    world.unload_chunk(pos);
    assert_eq!(world.take_remesh_job(), Some(RemeshJob { chunk_pos: pos, ready: false }));
    assert!(!world.is_loaded(pos));
    assert_eq!(world.take_remesh_job(), None);
}

#[test]
fn region_loaded_needs_every_chunk() {
    let mut world = World::new();
    load_cube(&mut world, 0, 1);
    let region = ChunkRegion { min_chunk: ChunkPos::new(0, 0, 0), size: UVec3::new(2, 2, 2) };
    assert!(world.is_region_loaded(region));
    let wider = ChunkRegion { min_chunk: ChunkPos::new(0, 0, 0), size: UVec3::new(2, 2, 3) };
    assert!(!world.is_region_loaded(wider));
    let empty = ChunkRegion { min_chunk: ChunkPos::new(50, 50, 50), size: UVec3::new(0, 1, 1) };
    assert!(world.is_region_loaded(empty));
}

#[test]
fn locked_area_holds_the_chunks_in_canonical_order() {
    let mut world = World::new();
    load_cube(&mut world, 0, 1);
    world.new_block(BlockPos::new(33, 1, 34), BlockType::Stone).unwrap();
    let region = ChunkRegion { min_chunk: ChunkPos::new(0, 0, 0), size: UVec3::new(2, 2, 2) };
    let area = LockedChunkArea::new(&world, region).unwrap();
    assert_eq!(area.region(), region);
    // the chunk (1, 0, 1) has index (1 * 2 + 0) * 2 + 1
    let data = area.get_chunk_data(ChunkPos::new(1, 0, 1)).unwrap();
    assert_eq!(data.blocks.non_air_count(), 1);
    assert_eq!(data.blocks.get(BlockPos::new(1, 1, 2)).block_type(), BlockType::Stone);
    assert!(area.get_chunk_data_relative(ChunkPos::new(1, 0, 1)).unwrap().blocks.get(BlockPos::new(1, 1, 2)).block_type() == BlockType::Stone);
    assert!(area.get_chunk_data(ChunkPos::new(0, 0, 1)).unwrap().blocks.is_empty());
    assert!(area.get_chunk_data(ChunkPos::new(2, 0, 0)).is_none());
    assert!(area.get_chunk_data_relative(ChunkPos::new(0, 0, -1)).is_none());
}

#[test]
fn locked_area_fails_if_a_chunk_is_missing() {
    let mut world = World::new();
    load_cube(&mut world, 0, 1);
    world.unload_chunk(ChunkPos::new(1, 1, 0));
    let region = ChunkRegion { min_chunk: ChunkPos::new(0, 0, 0), size: UVec3::new(2, 2, 2) };
    assert!(LockedChunkArea::new(&world, region).is_none());
}

#[test]
fn locked_area_from_chunks_needs_one_entry_for_each_chunk() {
    let data = ChunkData::default();
    let region = ChunkRegion { min_chunk: ChunkPos::new(0, 0, 0), size: UVec3::new(1, 1, 2) };
    assert!(LockedChunkArea::from_chunks(vec![&data, &data], region).is_some());
    assert!(LockedChunkArea::from_chunks(vec![&data], region).is_none());
    assert!(LockedChunkArea::from_chunks(vec![&data, &data, &data], region).is_none());
}

#[test]
fn registry_keys_hold_the_three_coordinates_side_by_side() {
    use_key(ChunkPos::new(0, 0, 0), (1u128 << 95) + (1u128 << 63) + (1u128 << 31));
    use_key(ChunkPos::new(i32::MIN, i32::MIN, i32::MIN), 0);
    use_key(ChunkPos::new(i32::MAX, i32::MAX, i32::MAX), (1u128 << 96) - 1);
    use_key(ChunkPos::new(-1, 0, 1), (0x7fff_ffffu128 << 64) + (0x8000_0000u128 << 32) + 0x8000_0001);
}

fn use_key(chunk_pos: ChunkPos, key: u128) {
    assert_eq!(minecone::world::world::key_of(chunk_pos), key);
}

#[test]
fn chunk_data_from_block_storage() {
    let data = ChunkData::from(BlockStorage::new_filled(BlockType::Grass));
    assert_eq!(data.blocks.non_air_count(), 32768);
    let copy = data.clone();
    assert_eq!(copy.blocks.get(BlockPos::new(1, 1, 1)).block_type(), BlockType::Grass);
    assert!(ChunkData::default().blocks.is_empty());
}
