use minecone::blocks::utils::Rotation;
use minecone::blocks::{Air, Block, BlockProperties, BlockType, Dirt, Grass, Stone};

#[test]
fn default_block_is_air() {
    let block = Block::default();
    assert!(block.is_air());
    assert_eq!(block.block_type(), BlockType::Air);
    assert_eq!(block.block_id(), 0);
    assert_eq!(block.hp(), 0);
    assert_eq!(block.state(), 0);
}

#[test]
fn encode_round_trip_for_every_type_hp_and_state() {
    for block_type in BlockType::all() {
        let max_hp = block_type.properties().max_hp;
        for hp in 0..=max_hp {
            for state in [0u8, 1, 0x7f, 0x80, 0xff] {
                let block = Block::new_inline(block_type, hp, state);
                assert_eq!(block.block_type(), block_type);
                assert_eq!(block.block_id(), block_type.id());
                assert_eq!(block.hp(), hp);
                assert_eq!(block.state(), state);
            }
        }
    }
}

#[test]
fn hit_points_are_reduced_to_twelve_bits() {
    let block = Block::new_inline(BlockType::Dirt, 0x1fff, 0);
    assert_eq!(block.hp(), 0xfff);
    assert_eq!(block.block_type(), BlockType::Dirt);
    assert_eq!(block.state(), 0);
    let block = Block::new_inline(BlockType::Stone, 0x1000, 0xab);
    assert_eq!(block.hp(), 0);
    assert_eq!(block.block_type(), BlockType::Stone);
    assert_eq!(block.state(), 0xab);
}

#[test]
fn new_from_type_has_full_hit_points_and_no_state() {
    let stone = Block::new_from_type(BlockType::Stone);
    assert_eq!(stone.block_type(), BlockType::Stone);
    assert_eq!(stone.hp(), 80);
    assert_eq!(stone.state(), 0);
    assert!(!stone.is_air());
    let air = Block::new_from_type(BlockType::Air);
    assert_eq!(air, Block::default());
}

#[test]
fn equal_fields_make_equal_blocks() {
    assert_eq!(Block::new_inline(BlockType::Grass, 7, 3), Block::new_inline(BlockType::Grass, 7, 3));
    assert_ne!(Block::new_inline(BlockType::Grass, 7, 3), Block::new_inline(BlockType::Grass, 7, 4));
    assert_ne!(Block::new_inline(BlockType::Grass, 7, 3), Block::new_inline(BlockType::Grass, 6, 3));
    assert_ne!(Block::new_inline(BlockType::Grass, 7, 3), Block::new_inline(BlockType::Dirt, 7, 3));
}

#[test]
fn set_state_keeps_type_and_hit_points() {
    let mut block = Block::new_inline(BlockType::Grass, 9, 0x11);
    block.set_state(0xfe);
    assert_eq!(block.state(), 0xfe);
    assert_eq!(block.hp(), 9);
    assert_eq!(block.block_type(), BlockType::Grass);
    block.set_state(0);
    assert_eq!(block, Block::new_inline(BlockType::Grass, 9, 0));
}

#[test]
fn type_ids_and_from_repr() {
    assert_eq!(BlockType::Air.id(), 0);
    assert_eq!(BlockType::Dirt.id(), 1);
    assert_eq!(BlockType::Grass.id(), 2);
    assert_eq!(BlockType::Stone.id(), 3);
    assert_eq!(BlockType::from_repr(0), Some(BlockType::Air));
    assert_eq!(BlockType::from_repr(1), Some(BlockType::Dirt));
    assert_eq!(BlockType::from_repr(2), Some(BlockType::Grass));
    assert_eq!(BlockType::from_repr(3), Some(BlockType::Stone));
    assert_eq!(BlockType::from_repr(4), None);
    assert_eq!(BlockType::from_repr(0xfff), None);
    assert_eq!(BlockType::from_repr(u16::MAX), None);
    let all = BlockType::all();
    for (i, block_type) in all.iter().enumerate() {
        assert_eq!(block_type.id() as usize, i);
    }
}

#[test]
fn properties_of_each_type() {
    assert_eq!(Air::properties(), BlockProperties { max_hp: 0 });
    assert_eq!(Dirt::properties(), BlockProperties { max_hp: 10 });
    assert_eq!(Grass::properties(), BlockProperties { max_hp: 10 });
    assert_eq!(Stone::properties(), BlockProperties { max_hp: 80 });
    assert_eq!(BlockType::Air.properties().max_hp, 0);
    assert_eq!(BlockType::Dirt.properties().max_hp, 10);
    assert_eq!(BlockType::Grass.properties().max_hp, 10);
    assert_eq!(BlockType::Stone.properties().max_hp, 80);
    for block_type in BlockType::all() {
        assert!(block_type.is_inline());
    }
}

#[test]
fn rotation_quarter_turns() {
    assert_eq!(Rotation::Deg0.quarter_turns(), 0);
    assert_eq!(Rotation::Deg90.quarter_turns(), 1);
    assert_eq!(Rotation::Deg180.quarter_turns(), 2);
    assert_eq!(Rotation::Deg270.quarter_turns(), 3);
}
