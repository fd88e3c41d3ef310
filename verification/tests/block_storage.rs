use minecone::blocks::block_storage::flat_index;
use minecone::blocks::{Block, BlockStorage, BlockType};
use minecone::types::BlockPos;

#[test]
fn new_filled_with_air_is_empty() {
    let storage = BlockStorage::new_filled(BlockType::Air);
    assert!(storage.is_empty());
    assert_eq!(storage.non_air_count(), 0);
    assert_eq!(storage.get(BlockPos::new(0, 0, 0)), Block::default());
    assert_eq!(storage.get(BlockPos::new(31, 31, 31)), Block::default());
}

#[test]
fn new_filled_with_stone_holds_stone_everywhere() {
    let storage = BlockStorage::new_filled(BlockType::Stone);
    assert!(!storage.is_empty());
    assert_eq!(storage.non_air_count(), 32768);
    let stone = Block::new_from_type(BlockType::Stone);
    for pos in [BlockPos::new(0, 0, 0), BlockPos::new(31, 0, 5), BlockPos::new(31, 31, 31)] {
        assert_eq!(storage.get(pos), stone);
        assert_eq!(storage.get(pos).hp(), 80);
    }
}

#[test]
fn default_storage_is_empty() {
    let storage = BlockStorage::default();
    assert!(storage.is_empty());
    assert!(storage.get(BlockPos::new(3, 4, 5)).is_air());
}

#[test]
fn get_after_new_block_returns_the_type() {
    let mut storage = BlockStorage::default();
    let pos = BlockPos::new(1, 2, 3);
    let written = storage.new_block(pos, BlockType::Dirt);
    assert_eq!(written, Ok(Block::new_from_type(BlockType::Dirt)));
    assert_eq!(storage.get(pos).block_type(), BlockType::Dirt);
    assert_eq!(storage.get(pos).hp(), 10);
    assert!(!storage.is_empty());
    assert_eq!(storage.non_air_count(), 1);
    // the neighbours in the flat order are untouched
    assert!(storage.get(BlockPos::new(1, 2, 2)).is_air());
    assert!(storage.get(BlockPos::new(1, 2, 4)).is_air());
    assert!(storage.get(BlockPos::new(3, 2, 1)).is_air());
}

#[test]
fn storage_is_empty_exactly_when_no_block_is_left() {
    let mut storage = BlockStorage::default();
    let a = BlockPos::new(0, 0, 0);
    let b = BlockPos::new(31, 31, 31);
    storage.new_block(a, BlockType::Stone).unwrap();
    storage.new_block(b, BlockType::Grass).unwrap();
    assert_eq!(storage.non_air_count(), 2);
    // replacing a block by another block keeps the count
    storage.new_block(a, BlockType::Dirt).unwrap();
    assert_eq!(storage.non_air_count(), 2);
    assert_eq!(storage.get(a).block_type(), BlockType::Dirt);
    // writing air over air keeps the count
    storage.new_block(BlockPos::new(5, 5, 5), BlockType::Air).unwrap();
    assert_eq!(storage.non_air_count(), 2);
    storage.new_block(a, BlockType::Air).unwrap();
    assert_eq!(storage.non_air_count(), 1);
    assert!(!storage.is_empty());
    storage.new_block(b, BlockType::Air).unwrap();
    assert_eq!(storage.non_air_count(), 0);
    assert!(storage.is_empty());
    assert_eq!(storage.get(a), Block::default());
    assert_eq!(storage.get(b), Block::default());
}

#[test]
fn writing_air_into_an_empty_storage_keeps_it_empty() {
    let mut storage = BlockStorage::default();
    let written = storage.new_block(BlockPos::new(7, 8, 9), BlockType::Air);
    assert_eq!(written, Ok(Block::default()));
    assert!(storage.is_empty());
}

#[test]
fn emptying_a_filled_chunk_block_by_block() {
    let mut storage = BlockStorage::new_filled(BlockType::Dirt);
    let mut left = 32768;
    for x in 0..32 {
        for y in 0..32 {
            for z in 0..32 {
                assert!(!storage.is_empty());
                storage.new_block(BlockPos::new(x, y, z), BlockType::Air).unwrap();
                left -= 1;
                assert_eq!(storage.non_air_count(), left);
            }
        }
    }
    assert!(storage.is_empty());
}

#[test]
fn clone_holds_the_same_blocks() {
    let mut storage = BlockStorage::default();
    storage.new_block(BlockPos::new(4, 5, 6), BlockType::Stone).unwrap();
    let copy = storage.clone();
    storage.new_block(BlockPos::new(4, 5, 6), BlockType::Air).unwrap();
    assert!(storage.is_empty());
    assert!(!copy.is_empty());
    assert_eq!(copy.get(BlockPos::new(4, 5, 6)).block_type(), BlockType::Stone);
    assert_eq!(copy.non_air_count(), 1);
}

#[test]
fn flat_index_follows_the_formula() {
    assert_eq!(flat_index(BlockPos::new(0, 0, 0)), 0);
    assert_eq!(flat_index(BlockPos::new(0, 0, 1)), 1);
    assert_eq!(flat_index(BlockPos::new(0, 1, 0)), 32);
    assert_eq!(flat_index(BlockPos::new(1, 0, 0)), 1024);
    assert_eq!(flat_index(BlockPos::new(3, 4, 5)), (3 * 32 + 4) * 32 + 5);
    assert_eq!(flat_index(BlockPos::new(31, 31, 31)), 32767);
}
