//! The blocks of one chunk, with an allocation-free form for a chunk of air.

use vstd::prelude::*;
use crate::blocks::{Block, BlockError, BlockType};
use crate::types::{BlockPos, CHUNK_BLOCK_COUNT};

verus! {

/// The place of the chunk-local position `pos` in the flat block sequence.
pub open spec fn block_index(pos: BlockPos) -> int {
    (pos.x * 32 + pos.y) * 32 + pos.z
}

/// The number of blocks in `s` that are not air.
pub open spec fn count_non_air(s: Seq<Block>) -> nat
    decreases s.len(),
{
    if s.len() == 0 {
        0
    } else {
        count_non_air(s.drop_last()) + if s.last().spec_is_air() {
            0nat
        } else {
            1nat
        }
    }
}

/// 1 if `b` is not air, else 0.
pub open spec fn non_air_weight(b: Block) -> int {
    if b.spec_is_air() {
        0
    } else {
        1
    }
}

/// No more blocks are non-air than there are blocks.
pub proof fn lemma_count_bound(s: Seq<Block>)
    ensures
        count_non_air(s) <= s.len(),
    decreases s.len(),
{
    if s.len() > 0 {
        lemma_count_bound(s.drop_last());
    }
}

/// Replacing one block changes the count by the difference of the weights.
pub proof fn lemma_count_update(s: Seq<Block>, i: int, b: Block)
    requires
        0 <= i < s.len(),
    ensures
        count_non_air(s.update(i, b)) == count_non_air(s) - non_air_weight(s[i]) + non_air_weight(b),
    decreases s.len(),
{
    let t = s.update(i, b);
    if i == s.len() - 1 {
        assert(t.drop_last() =~= s.drop_last());
    } else {
        assert(t.drop_last() =~= s.drop_last().update(i, b));
        lemma_count_update(s.drop_last(), i, b);
    }
}

/// The count is zero exactly when every block is air.
pub proof fn lemma_count_zero_iff_all_air(s: Seq<Block>)
    ensures
        count_non_air(s) == 0 <==> (forall|i: int| 0 <= i < s.len() ==> (#[trigger] s[i]).spec_is_air()),
    decreases s.len(),
{
    if s.len() > 0 {
        let d = s.drop_last();
        lemma_count_zero_iff_all_air(d);
        if count_non_air(s) == 0 {
            assert forall|i: int| 0 <= i < s.len() implies (#[trigger] s[i]).spec_is_air() by {
                if i < s.len() - 1 {
                    assert(d[i] == s[i]);
                }
            }
        }
        if forall|i: int| 0 <= i < s.len() ==> (#[trigger] s[i]).spec_is_air() {
            assert forall|i: int| 0 <= i < d.len() implies (#[trigger] d[i]).spec_is_air() by {
                assert(d[i] == s[i]);
            }
            assert(s.last() == s[s.len() - 1]);
        }
    }
}

/// A sequence of `n` copies of one block counts `n` if the block is not air,
/// and zero if it is.
pub proof fn lemma_count_repeat(n: nat, b: Block)
    ensures
        count_non_air(Seq::new(n, |i: int| b)) == n * non_air_weight(b),
    decreases n,
{
    let s = Seq::new(n, |i: int| b);
    if n > 0 {
        assert(s.drop_last() =~= Seq::new((n - 1) as nat, |i: int| b));
        lemma_count_repeat((n - 1) as nat, b);
        assert(n * non_air_weight(b) == (n - 1) * non_air_weight(b) + non_air_weight(b))
            by (nonlinear_arith);
    }
}

/// The place of a chunk-local position in the flat block sequence is within
/// the chunk.
pub proof fn lemma_block_index(pos: BlockPos)
    requires
        pos.spec_is_chunk_local(),
    ensures
        0 <= block_index(pos) < 32768,
{
}

/// Distinct chunk-local positions have distinct places.
pub proof fn lemma_block_index_injective(a: BlockPos, b: BlockPos)
    requires
        a.spec_is_chunk_local(),
        b.spec_is_chunk_local(),
        block_index(a) == block_index(b),
    ensures
        a == b,
{
}

/// Right after a new block of an inline type has been written at a
/// position, the block at that position is of that type, has full hit points
/// and no state, and every other block is as it was.
pub proof fn lemma_get_after_new_block(before: Seq<Block>, pos: BlockPos, block_type: BlockType)
    requires
        before.len() == 32768,
        pos.spec_is_chunk_local(),
        block_type.spec_is_inline(),
    ensures
        before.update(
            block_index(pos),
            Block::spec_new_from_type(block_type),
        )[block_index(pos)].spec_block_type() == block_type,
        before.update(block_index(pos), Block::spec_new_from_type(block_type))[block_index(
            pos,
        )].spec_hp() == block_type.spec_properties().max_hp,
        before.update(block_index(pos), Block::spec_new_from_type(block_type))[block_index(
            pos,
        )].spec_state() == 0,
        forall|other: BlockPos|
            other.spec_is_chunk_local() && other != pos ==> before.update(
                block_index(pos),
                Block::spec_new_from_type(block_type),
            )[#[trigger] block_index(other)] == before[block_index(other)],
{
    crate::blocks::lemma_encode_round_trip(block_type, block_type.spec_properties().max_hp, 0);
}

/// The dense form of a chunk's blocks.
#[derive(Debug, Clone)]
struct BlockStorageInner {
    blocks: Vec<Block>,
}

impl BlockStorageInner {
    /// A dense chunk in which every block is `block`.
    fn new(block: Block) -> (r: Self)
        ensures
            r.blocks@ == Seq::new(32768, |i: int| block),
    {
        let mut blocks: Vec<Block> = Vec::with_capacity(CHUNK_BLOCK_COUNT);
        let mut i: usize = 0;
        while i < CHUNK_BLOCK_COUNT
            invariant
                i <= 32768,
                blocks@ =~= Seq::new(i as nat, |j: int| block),
            decreases 32768 - i,
        {
            blocks.push(block);
            i += 1;
        }
        BlockStorageInner { blocks }
    }

    fn get(&self, block_pos: BlockPos) -> (r: Block)
        requires
            block_pos.spec_is_chunk_local(),
            self.blocks@.len() == 32768,
        ensures
            r == self.blocks@[block_index(block_pos)],
    {
        let i: usize = flat_index(block_pos);
        self.blocks[i]
    }
}

/// Computes [`block_index`].
pub fn flat_index(block_pos: BlockPos) -> (r: usize)
    requires
        block_pos.spec_is_chunk_local(),
    ensures
        r == block_index(block_pos),
        r < 32768,
{
    ((block_pos.x as usize) * 32 + (block_pos.y as usize)) * 32 + (block_pos.z as usize)
}

/// The blocks of one chunk. A chunk that holds only air keeps no block
/// array; the array exists exactly while some block is not air.
#[derive(Debug)]
pub struct BlockStorage {
    inner: Option<BlockStorageInner>,
    non_air_count: usize,
}

impl View for BlockStorage {
    type V = Seq<Block>;

    /// The 32768 blocks of the chunk, at the places that [`block_index`] gives.
    closed spec fn view(&self) -> Seq<Block> {
        Seq::new(
            32768,
            |i: int|
                match self.inner {
                    Some(inner) => inner.blocks@[i],
                    None => Block::spec_default(),
                },
        )
    }
}

impl Clone for BlockStorage {
    fn clone(&self) -> (r: Self)
        ensures
            r@ == self@,
            r.spec_is_empty() == self.spec_is_empty(),
    {
        proof {
            use_type_invariant(self);
        }
        match &self.inner {
            None => BlockStorage { inner: None, non_air_count: 0 },
            Some(dense) => {
                let mut blocks: Vec<Block> = Vec::with_capacity(CHUNK_BLOCK_COUNT);
                let mut i: usize = 0;
                while i < CHUNK_BLOCK_COUNT
                    invariant
                        i <= 32768,
                        dense.blocks@.len() == 32768,
                        blocks@ =~= dense.blocks@.take(i as int),
                    decreases 32768 - i,
                {
                    blocks.push(dense.blocks[i]);
                    i += 1;
                }
                proof {
                    assert(blocks@ =~= dense.blocks@);
                }
                let r = BlockStorage {
                    inner: Some(BlockStorageInner { blocks }),
                    non_air_count: self.non_air_count,
                };
                proof {
                    assert(r@ =~= self@);
                }
                r
            },
        }
    }
}

impl BlockStorage {
    #[verifier::type_invariant]
    closed spec fn valid(&self) -> bool {
        &&& self.inner.is_none() <==> self.non_air_count == 0
        &&& self.inner.is_some() ==> {
            &&& self.inner.unwrap().blocks@.len() == 32768
            &&& self.non_air_count == count_non_air(self.inner.unwrap().blocks@)
            &&& forall|i: int|
                0 <= i < 32768 && (#[trigger] self.inner.unwrap().blocks@[i]).spec_is_air()
                    ==> self.inner.unwrap().blocks@[i] == Block::spec_default()
        }
    }

    /// Every storage holds 32768 blocks.
    pub broadcast proof fn lemma_view_len(&self)
        ensures
            #[trigger] self@.len() == 32768,
    {
    }

    /// True if no block array is kept.
    pub closed spec fn spec_is_empty(&self) -> bool {
        self.inner.is_none()
    }

    /// The block at the chunk-local position `pos`.
    pub open spec fn spec_get(&self, pos: BlockPos) -> Block {
        self@[block_index(pos)]
    }

    /// What follows from the invariant: the storage holds 32768 blocks, and it
    /// keeps no block array exactly when all of them are air.
    proof fn lemma_valid_facts(s: BlockStorage)
        requires
            s.valid(),
        ensures
            s@.len() == 32768,
            count_non_air(s@) <= 32768,
            s.non_air_count == count_non_air(s@),
            s.spec_is_empty() <==> count_non_air(s@) == 0,
            s.spec_is_empty() <==> (forall|i: int|
                0 <= i < 32768 ==> (#[trigger] s@[i]).spec_is_air()),
            s.spec_is_empty() ==> s@ == Seq::new(32768, |i: int| Block::spec_default()),
    {
        if s.inner.is_none() {
            assert(s@ =~= Seq::new(32768, |i: int| Block::spec_default()));
            lemma_count_repeat(32768, Block::spec_default());
        } else {
            assert(s@ =~= s.inner.unwrap().blocks@);
        }
        lemma_count_zero_iff_all_air(s@);
        lemma_count_bound(s@);
        Self::lemma_default_is_air();
    }

    proof fn lemma_default_is_air()
        ensures
            Block::spec_default().spec_is_air(),
            Block::spec_default().spec_hp() == 0,
            Block::spec_default().spec_state() == 0,
    {
        broadcast use Block::lemma_code_of_from_code;

        assert(0u32 & 0xfff == 0) by (bit_vector);
        assert((0u32 >> 12) & 0xfff == 0) by (bit_vector);
        assert(0u32 >> 24 == 0) by (bit_vector);
    }

    /// A chunk filled with `block_type`: each block has full hit points and
    /// no state. A chunk of air keeps no block array.
    pub fn new_filled(block_type: BlockType) -> (r: Self)
        requires
            block_type.spec_is_inline(),
        ensures
            r@ == Seq::new(32768, |i: int| Block::spec_new_from_type(block_type)),
            r.spec_is_empty() <==> block_type == BlockType::Air,
    {
        let block = Block::new_from_type(block_type);
        match block_type {
            BlockType::Air => {
                proof {
                    crate::blocks::lemma_inline_code_fields(0, 0, 0);
                    assert(crate::blocks::inline_code(0, 0, 0) == 0) by (bit_vector);
                    assert(Block::spec_new_from_type(BlockType::Air) == Block::spec_default());
                }
                BlockStorage { inner: None, non_air_count: 0 }
            },
            _ => {
                let inner = BlockStorageInner::new(block);
                proof {
                    lemma_count_repeat(32768, block);
                }
                BlockStorage { inner: Some(inner), non_air_count: CHUNK_BLOCK_COUNT }
            },
        }
    }

    /// True if this storage holds only air.
    pub fn is_empty(&self) -> (r: bool)
        ensures
            r == self.spec_is_empty(),
            r <==> count_non_air(self@) == 0,
            r <==> (forall|i: int| 0 <= i < 32768 ==> (#[trigger] self@[i]).spec_is_air()),
    {
        proof {
            use_type_invariant(self);
            Self::lemma_valid_facts(*self);
        }
        self.inner.is_none()
    }

    /// The number of blocks that are not air.
    pub fn non_air_count(&self) -> (r: usize)
        ensures
            r == count_non_air(self@),
            r <= 32768,
    {
        proof {
            use_type_invariant(self);
            Self::lemma_valid_facts(*self);
        }
        self.non_air_count
    }

    /// Replaces the block at `pos` by a new block of type `block_type` with
    /// full hit points and no state, and returns the new block. A type that
    /// is not inline is refused and the storage stays as it was.
    pub fn new_block(&mut self, pos: BlockPos, block_type: BlockType) -> (r: Result<Block, BlockError>)
        requires
            pos.spec_is_chunk_local(),
        ensures
            block_type.spec_is_inline() ==> r == Ok::<Block, BlockError>(
                Block::spec_new_from_type(block_type),
            ) && final(self)@ == old(self)@.update(
                block_index(pos),
                Block::spec_new_from_type(block_type),
            ),
            !block_type.spec_is_inline() ==> r == Err::<Block, BlockError>(BlockError::Unsupported)
                && final(self)@ == old(self)@,
    {
        if block_type.is_inline() {
            let block = Block::new_from_type(block_type);
            self.set(pos, block);
            Ok(block)
        } else {
            Err(BlockError::Unsupported)
        }
    }

    /// Writes `block` at `pos` and keeps the count of non-air blocks, and
    /// with it the presence of the block array, up to date. An air block is
    /// always stored in its default form.
    fn set(&mut self, block_pos: BlockPos, block: Block)
        requires
            block_pos.spec_is_chunk_local(),
            block.spec_is_air() ==> block == Block::spec_default(),
        ensures
            final(self)@ == old(self)@.update(block_index(block_pos), block),
    {
        proof {
            use_type_invariant(&*self);
            Self::lemma_default_is_air();
        }
        let index: usize = flat_index(block_pos);
        let mut taken = BlockStorage { inner: None, non_air_count: 0 };
        core::mem::swap(self, &mut taken);
        let ghost before = taken@;
        let BlockStorage { inner, non_air_count } = taken;
        match inner {
            Some(mut dense) => {
                let ghost old_blocks = dense.blocks@;
                let old_block: Block = dense.blocks[index];
                proof {
                    assert(before =~= old_blocks);
                    lemma_count_update(old_blocks, index as int, block);
                    lemma_count_bound(old_blocks.update(index as int, block));
                }
                dense.blocks.set(index, block);
                let mut count: usize = non_air_count;
                if block.is_air() && !old_block.is_air() {
                    count = count - 1;
                } else if old_block.is_air() && !block.is_air() {
                    count = count + 1;
                }
                proof {
                    assert(dense.blocks@ == old_blocks.update(index as int, block));
                    assert(count == count_non_air(dense.blocks@));
                    assert forall|i: int|
                        0 <= i < 32768 && (#[trigger] dense.blocks@[i]).spec_is_air()
                        implies dense.blocks@[i] == Block::spec_default() by {
                        if i != index {
                            assert(dense.blocks@[i] == old_blocks[i]);
                        }
                    }
                }
                if count == 0 {
                    proof {
                        lemma_count_zero_iff_all_air(dense.blocks@);
                        assert(dense.blocks@ =~= Seq::new(32768, |i: int| Block::spec_default()));
                    }
                    *self = BlockStorage { inner: None, non_air_count: 0 };
                    proof {
                        assert(self@ =~= before.update(index as int, block));
                    }
                } else {
                    *self = BlockStorage { inner: Some(dense), non_air_count: count };
                    proof {
                        assert(self@ =~= before.update(index as int, block));
                    }
                }
            },
            None => {
                proof {
                    assert(before =~= Seq::new(32768, |i: int| Block::spec_default()));
                }
                if !block.is_air() {
                    let mut dense = BlockStorageInner::new(Block::default());
                    proof {
                        lemma_count_repeat(32768, Block::spec_default());
                        lemma_count_update(dense.blocks@, index as int, block);
                    }
                    dense.blocks.set(index, block);
                    *self = BlockStorage { inner: Some(dense), non_air_count: 1 };
                    proof {
                        assert(self@ =~= before.update(index as int, block));
                    }
                } else {
                    proof {
                        assert(self@ =~= before.update(index as int, block));
                    }
                }
            },
        }
    }

    /// The block at `block_pos`; air where nothing was written.
    pub fn get(&self, block_pos: BlockPos) -> (r: Block)
        requires
            block_pos.spec_is_chunk_local(),
        ensures
            r == self.spec_get(block_pos),
            self.spec_is_empty() ==> r == Block::spec_default(),
    {
        proof {
            use_type_invariant(self);
        }
        match &self.inner {
            Some(blocks) => blocks.get(block_pos),
            None => Block::default(),
        }
    }
}

impl Default for BlockStorage {
    fn default() -> (r: Self)
        ensures
            r.spec_is_empty(),
            r@ == Seq::new(32768, |i: int| Block::spec_default()),
    {
        BlockStorage { inner: None, non_air_count: 0 }
    }
}

} // verus!
