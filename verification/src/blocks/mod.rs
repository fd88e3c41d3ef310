//! The packed 32-bit block code and the closed set of block types.
//!
//! An inline block keeps its type id in bits 0..12, its hit points in bits
//! 12..24 and a free-form state byte in bits 24..32.

use vstd::prelude::*;
use crate::render::{BlockFace, BlockModel, TextureBuilder, TextureSource};

pub mod air;
pub mod block_storage;
pub mod dirt;
pub mod grass;
pub mod stone;
pub mod utils;

pub use air::Air;
pub use block_storage::BlockStorage;
pub use dirt::Dirt;
pub use grass::Grass;
pub use stone::Stone;

verus! {

/// Mask of the bits that hold the block type id.
pub const BLOCK_ID_MASK: u32 = 0xfff;

/// Mask of the bits that hold the hit points of an inline block.
pub const INLINE_BLOCK_HP_MASK: u32 = 0xfff000;

/// Number of block types; every valid type id is below it.
pub const BLOCK_TYPE_COUNT: usize = 4;

/// The static properties of a block type.
#[derive(Debug, Clone, Copy, PartialEq, Eq, Structural)]
pub struct BlockProperties {
    pub max_hp: u16,
}

/// Why a block operation was refused.
#[derive(Debug, Clone, Copy, PartialEq, Eq, Structural)]
pub enum BlockError {
    /// The block type keeps its state outside the block code, which is not
    /// supported.
    Unsupported,
}

/// The closed set of block types.
#[derive(Debug, Clone, Copy, PartialEq, Eq, Structural, Hash)]
pub enum BlockType {
    Air,
    Dirt,
    Grass,
    Stone,
}

impl BlockType {
    /// The numeric id of this type, as stored in a block code.
    pub open spec fn spec_id(self) -> u16 {
        match self {
            BlockType::Air => 0,
            BlockType::Dirt => 1,
            BlockType::Grass => 2,
            BlockType::Stone => 3,
        }
    }

    /// The type with numeric id `id`, if there is one.
    pub open spec fn spec_from_repr(id: u16) -> Option<BlockType> {
        if id == 0 {
            Some(BlockType::Air)
        } else if id == 1 {
            Some(BlockType::Dirt)
        } else if id == 2 {
            Some(BlockType::Grass)
        } else if id == 3 {
            Some(BlockType::Stone)
        } else {
            None
        }
    }

    pub open spec fn spec_properties(self) -> BlockProperties {
        match self {
            BlockType::Air => Air::spec_properties(),
            BlockType::Dirt => Dirt::spec_properties(),
            BlockType::Grass => Grass::spec_properties(),
            BlockType::Stone => Stone::spec_properties(),
        }
    }

    /// True if the whole state of a block of this type fits in its code.
    pub open spec fn spec_is_inline(self) -> bool {
        match self {
            BlockType::Air => true,
            BlockType::Dirt => true,
            BlockType::Grass => true,
            BlockType::Stone => true,
        }
    }

    /// The numeric id of this type, below [`BLOCK_TYPE_COUNT`].
    pub fn id(self) -> (r: u16)
        ensures
            r == self.spec_id(),
            r < 4,
            Self::spec_from_repr(r) == Some(self),
    {
        match self {
            BlockType::Air => 0,
            BlockType::Dirt => 1,
            BlockType::Grass => 2,
            BlockType::Stone => 3,
        }
    }

    /// The type with numeric id `id`; `None` if no type has that id.
    pub fn from_repr(id: u16) -> (r: Option<BlockType>)
        ensures
            r == Self::spec_from_repr(id),
            r.is_some() <==> id < 4,
            r.is_some() ==> r.unwrap().spec_id() == id,
    {
        if id == 0 {
            Some(BlockType::Air)
        } else if id == 1 {
            Some(BlockType::Dirt)
        } else if id == 2 {
            Some(BlockType::Grass)
        } else if id == 3 {
            Some(BlockType::Stone)
        } else {
            None
        }
    }

    /// Every block type, in the order of their ids.
    pub fn all() -> (r: [BlockType; 4])
        ensures
            forall|i: int| 0 <= i < 4 ==> (#[trigger] r[i]).spec_id() == i,
    {
        [BlockType::Air, BlockType::Dirt, BlockType::Grass, BlockType::Stone]
    }

    pub fn properties(self) -> (r: BlockProperties)
        ensures
            r == self.spec_properties(),
            r.max_hp < 4096,
    {
        match self {
            BlockType::Air => Air::properties(),
            BlockType::Dirt => Dirt::properties(),
            BlockType::Grass => Grass::properties(),
            BlockType::Stone => Stone::properties(),
        }
    }

    /// The textures that a builder holds once the model of this type has
    /// been built, if it held `textures` before.
    pub open spec fn spec_model_textures(self, textures: Seq<TextureSource>) -> Seq<TextureSource> {
        match self {
            BlockType::Air => Air::spec_model_textures(textures),
            BlockType::Dirt => Dirt::spec_model_textures(textures),
            BlockType::Grass => Grass::spec_model_textures(textures),
            BlockType::Stone => Stone::spec_model_textures(textures),
        }
    }

    /// The faces of the model of this type, built with a builder that held
    /// `textures`.
    pub open spec fn spec_model_faces(self, textures: Seq<TextureSource>) -> Seq<BlockFace> {
        match self {
            BlockType::Air => Air::spec_model_faces(textures),
            BlockType::Dirt => Dirt::spec_model_faces(textures),
            BlockType::Grass => Grass::spec_model_faces(textures),
            BlockType::Stone => Stone::spec_model_faces(textures),
        }
    }

    /// The model of this type; its textures join `texture_builder`.
    pub fn model(self, texture_builder: &mut TextureBuilder) -> (r: BlockModel)
        ensures
            final(texture_builder)@ == self.spec_model_textures(old(texture_builder)@),
            r.faces@ == self.spec_model_faces(old(texture_builder)@),
    {
        match self {
            BlockType::Air => Air::model(texture_builder),
            BlockType::Dirt => Dirt::model(texture_builder),
            BlockType::Grass => Grass::model(texture_builder),
            BlockType::Stone => Stone::model(texture_builder),
        }
    }

    /// True if the whole state of a block of this type fits in its code.
    pub fn is_inline(self) -> (r: bool)
        ensures
            r == self.spec_is_inline(),
    {
        match self {
            BlockType::Air => true,
            BlockType::Dirt => true,
            BlockType::Grass => true,
            BlockType::Stone => true,
        }
    }
}

/// The code of an inline block: the type id, the hit points reduced to twelve
/// bits, and the state byte, each in its own bit range.
pub open spec fn inline_code(id: u16, hp: u16, state: u8) -> u32 {
    (id as u32) | (((hp as u32) << 12) & 0xfff000) | ((state as u32) << 24)
}

/// The three bit ranges of an inline code read back what was packed.
pub proof fn lemma_inline_code_fields(id: u16, hp: u16, state: u8)
    requires
        id < 4096,
    ensures
        inline_code(id, hp, state) & 0xfff == id,
        (inline_code(id, hp, state) >> 12) & 0xfff == hp & 0xfff,
        inline_code(id, hp, state) >> 24 == state,
        hp < 4096 ==> (inline_code(id, hp, state) >> 12) & 0xfff == hp,
{
    let i = id as u32;
    let h = hp as u32;
    let s = state as u32;
    assert(i < 4096 && h < 65536 && s < 256 ==> {
        &&& (i | ((h << 12) & 0xfff000) | (s << 24)) & 0xfff == i
        &&& ((i | ((h << 12) & 0xfff000) | (s << 24)) >> 12) & 0xfff == h & 0xfff
        &&& (i | ((h << 12) & 0xfff000) | (s << 24)) >> 24 == s
    }) by (bit_vector);
    assert(hp < 4096 ==> hp & 0xfff == hp) by (bit_vector);
    assert(h & 0xfff == (hp & 0xfff) as u32) by (bit_vector)
        requires
            h == hp as u32,
    ;
}

/// One block of the world, packed into 32 bits. The type id of every value
/// of this type is that of a known block type.
#[derive(Debug, Clone, Copy, PartialEq, Eq, Structural)]
pub struct Block {
    code: u32,
}

impl Block {
    /// The packed code.
    pub closed spec fn spec_code(self) -> u32 {
        self.code
    }

    #[verifier::type_invariant]
    closed spec fn valid(self) -> bool {
        self.code & 0xfff < 4
    }

    /// The type id: bits 0..12 of the code.
    pub open spec fn spec_block_id(self) -> u16 {
        (self.spec_code() & 0xfff) as u16
    }

    /// The hit points: bits 12..24 of the code.
    pub open spec fn spec_hp(self) -> u16 {
        ((self.spec_code() >> 12) & 0xfff) as u16
    }

    /// The state byte: bits 24..32 of the code.
    pub open spec fn spec_state(self) -> u8 {
        (self.spec_code() >> 24) as u8
    }

    /// The block type that the type id stands for.
    pub open spec fn spec_block_type(self) -> BlockType {
        BlockType::spec_from_repr(self.spec_block_id()).unwrap()
    }

    pub open spec fn spec_is_air(self) -> bool {
        self.spec_block_type() == BlockType::Air
    }

    /// The air block without hit points or state.
    pub open spec fn spec_default() -> Block {
        Self::spec_from_code(0)
    }

    /// The block with code `code`.
    pub closed spec fn spec_from_code(code: u32) -> Block {
        Block { code }
    }

    /// The block of type `block_type` with full hit points and no state.
    pub open spec fn spec_new_from_type(block_type: BlockType) -> Block {
        Self::spec_from_code(inline_code(block_type.spec_id(), block_type.spec_properties().max_hp, 0))
    }

    /// A block is determined by its code.
    pub broadcast proof fn lemma_code_of_from_code(code: u32)
        ensures
            #[trigger] Self::spec_from_code(code).spec_code() == code,
    {
    }

    /// Packs an inline block: the type id, `hp` reduced to twelve bits and
    /// the state byte.
    pub fn new_inline(block_type: BlockType, hp: u16, state: u8) -> (r: Self)
        requires
            block_type.spec_is_inline(),
        ensures
            r == Self::spec_from_code(inline_code(block_type.spec_id(), hp, state)),
            r.spec_block_id() == block_type.spec_id(),
            r.spec_block_type() == block_type,
            r.spec_hp() == hp & 0xfff,
            hp < 4096 ==> r.spec_hp() == hp,
            r.spec_state() == state,
    {
        let id: u32 = block_type.id() as u32;
        let hp_bits: u32 = ((hp as u32) << 12) & INLINE_BLOCK_HP_MASK;
        let state_bits: u32 = (state as u32) << 24;
        let code: u32 = id | hp_bits | state_bits;
        proof {
            lemma_inline_code_fields(block_type.spec_id(), hp, state);
        }
        Block { code }
    }

    /// The block of type `block_type` with full hit points and no state.
    pub fn new_from_type(block_type: BlockType) -> (r: Self)
        requires
            block_type.spec_is_inline(),
        ensures
            r == Self::spec_new_from_type(block_type),
            r.spec_block_type() == block_type,
            r.spec_hp() == block_type.spec_properties().max_hp,
            r.spec_state() == 0,
            r.spec_is_air() ==> r == Self::spec_default(),
    {
        proof {
            assert(inline_code(0, 0, 0) == 0) by (bit_vector);
        }
        Self::new_inline(block_type, block_type.properties().max_hp, 0)
    }

    /// The state byte of an inline block.
    pub fn state(&self) -> (r: u8)
        ensures
            r == self.spec_state(),
    {
        (self.code >> 24) as u8
    }

    /// Replaces the state byte of an inline block; type and hit points stay.
    pub fn set_state(&mut self, state: u8)
        ensures
            final(self).spec_state() == state,
            final(self).spec_block_id() == old(self).spec_block_id(),
            final(self).spec_hp() == old(self).spec_hp(),
    {
        proof {
            use_type_invariant(&*self);
        }
        let code: u32 = self.code;
        let new_code: u32 = (code & 0xffffff) | ((state as u32) << 24);
        proof {
            let s = state as u32;
            assert(s < 256 ==> {
                &&& ((code & 0xffffff) | (s << 24)) & 0xfff == code & 0xfff
                &&& (((code & 0xffffff) | (s << 24)) >> 12) & 0xfff == (code >> 12) & 0xfff
                &&& ((code & 0xffffff) | (s << 24)) >> 24 == s
            }) by (bit_vector);
        }
        self.code = new_code;
    }

    /// The hit points of an inline block.
    pub fn hp(&self) -> (r: u16)
        ensures
            r == self.spec_hp(),
            r < 4096,
    {
        let code: u32 = self.code;
        proof {
            assert((code >> 12) & 0xfff < 4096) by (bit_vector);
        }
        ((code >> 12) & 0xfff) as u16
    }

    /// The type id, below [`BLOCK_TYPE_COUNT`].
    pub fn block_id(&self) -> (r: u16)
        ensures
            r == self.spec_block_id(),
            r < 4,
    {
        proof {
            use_type_invariant(self);
        }
        (self.code & BLOCK_ID_MASK) as u16
    }

    /// The type of this block.
    pub fn block_type(&self) -> (r: BlockType)
        ensures
            r == self.spec_block_type(),
            r.spec_id() == self.spec_block_id(),
    {
        let id: u16 = self.block_id();
        match BlockType::from_repr(id) {
            Some(t) => t,
            None => {
                proof {
                    assert(false);
                }
                BlockType::Air
            },
        }
    }

    pub fn is_air(&self) -> (r: bool)
        ensures
            r == self.spec_is_air(),
    {
        match self.block_type() {
            BlockType::Air => true,
            _ => false,
        }
    }
}

impl Default for Block {
    fn default() -> (r: Self)
        ensures
            r == Block::spec_default(),
            r.spec_is_air(),
            r.spec_hp() == 0,
            r.spec_state() == 0,
    {
        proof {
            lemma_inline_code_fields(0, 0, 0);
            assert(inline_code(0, 0, 0) == 0) by (bit_vector);
        }
        Block::new_inline(BlockType::Air, 0, 0)
    }
}

/// Packing a type with hit points up to its maximum and any state byte, then
/// reading the three fields back, returns what was packed.
pub proof fn lemma_encode_round_trip(block_type: BlockType, hp: u16, state: u8)
    requires
        block_type.spec_is_inline(),
        hp <= block_type.spec_properties().max_hp,
    ensures
        Block::spec_from_code(inline_code(block_type.spec_id(), hp, state)).spec_block_type()
            == block_type,
        Block::spec_from_code(inline_code(block_type.spec_id(), hp, state)).spec_hp() == hp,
        Block::spec_from_code(inline_code(block_type.spec_id(), hp, state)).spec_state() == state,
{
    broadcast use Block::lemma_code_of_from_code;

    lemma_inline_code_fields(block_type.spec_id(), hp, state);
}

} // verus!
