//! What world generation hands to the world: the ground of a biome and the
//! blocks of a chunk laid out from the surface heights of its columns.

use vstd::prelude::*;
use crate::blocks::{Block, BlockStorage};
use crate::types::{BlockPos, ChunkPos};
use crate::world::ChunkData;

pub mod block_layers;

pub use block_layers::{BiomeLayers, BlockLayer};

verus! {

/// What is known of one column of blocks: the height of its surface and
/// the ground of the biome that it lies in.
#[derive(Debug, Clone, Copy)]
pub struct Column<'a> {
    /// The y coordinate of the surface block.
    pub height: i32,
    pub layers: &'a BiomeLayers,
}

/// True if every block of the chunk layer at `chunk_y`, in a column whose
/// surface is at `height`, has a depth that fits in `i32`.
pub open spec fn depth_fits(chunk_y: int, height: int) -> bool {
    i32::MIN <= chunk_y * 32 - height && chunk_y * 32 + 31 - height <= i32::MAX
}

/// The block that generation puts at place `i` of the chunk at `chunk_pos`:
/// the block that the ground of the column has at the depth of that place
/// below or above the surface of the column.
pub open spec fn generated_block(chunk_pos: ChunkPos, columns: Seq<Column>, i: int) -> Block {
    let x = i / 1024;
    let y = (i / 32) % 32;
    let z = i % 32;
    let column = columns[x * 32 + z];
    Block::spec_new_from_type(column.layers.spec_block_at_depth(chunk_pos.y * 32 + y - column.height))
}

/// Generates the blocks of the chunk at `chunk_pos`. `columns` holds the
/// 1024 columns of the chunk, the one at `(x, z)` at place `x * 32 + z`.
pub fn generate_chunk(chunk_pos: ChunkPos, columns: &Vec<Column>) -> (r: ChunkData)
    requires
        columns@.len() == 1024,
        forall|i: int|
            0 <= i < 1024 ==> depth_fits(chunk_pos.y as int, (#[trigger] columns@[i]).height as int),
    ensures
        r.blocks@ == Seq::new(32768, |i: int| generated_block(chunk_pos, columns@, i)),
{
    let mut blocks = BlockStorage::default();
    let base: i64 = chunk_pos.y as i64 * 32;
    let mut x: i32 = 0;
    while x < 32
        invariant
            0 <= x <= 32,
            columns@.len() == 1024,
            base == chunk_pos.y * 32,
            forall|i: int|
                0 <= i < 1024 ==> depth_fits(
                    chunk_pos.y as int,
                    (#[trigger] columns@[i]).height as int,
                ),
            blocks@.len() == 32768,
            forall|i: int|
                0 <= i < x * 1024 ==> #[trigger] blocks@[i] == generated_block(
                    chunk_pos,
                    columns@,
                    i,
                ),
        decreases 32 - x,
    {
        let mut y: i32 = 0;
        while y < 32
            invariant
                0 <= x < 32,
                0 <= y <= 32,
                columns@.len() == 1024,
                base == chunk_pos.y * 32,
                forall|i: int|
                    0 <= i < 1024 ==> depth_fits(
                        chunk_pos.y as int,
                        (#[trigger] columns@[i]).height as int,
                    ),
                blocks@.len() == 32768,
                forall|i: int|
                    0 <= i < (x * 32 + y) * 32 ==> #[trigger] blocks@[i] == generated_block(
                        chunk_pos,
                        columns@,
                        i,
                    ),
            decreases 32 - y,
        {
            let mut z: i32 = 0;
            while z < 32
                invariant
                    0 <= x < 32,
                    0 <= y < 32,
                    0 <= z <= 32,
                    columns@.len() == 1024,
                    base == chunk_pos.y * 32,
                    forall|i: int|
                        0 <= i < 1024 ==> depth_fits(
                            chunk_pos.y as int,
                            (#[trigger] columns@[i]).height as int,
                        ),
                    blocks@.len() == 32768,
                    forall|i: int|
                        0 <= i < (x * 32 + y) * 32 + z ==> #[trigger] blocks@[i] == generated_block(
                            chunk_pos,
                            columns@,
                            i,
                        ),
                decreases 32 - z,
            {
                let column = columns[(x * 32 + z) as usize];
                let depth: i32 = (base + y as i64 - column.height as i64) as i32;
                let block_type = column.layers.get_block_at_depth(depth);
                let ghost before = blocks@;
                let ghost place = (x * 32 + y) * 32 + z;
                let written = blocks.new_block(BlockPos::new(x, y, z), block_type);
                proof {
                    BlockStorage::lemma_view_len(&blocks);
                    assert(place / 1024 == x && (place / 32) % 32 == y && place % 32 == z);
                    assert(blocks@ == before.update(place, Block::spec_new_from_type(block_type)));
                    assert forall|i: int| 0 <= i < place + 1 implies #[trigger] blocks@[i]
                        == generated_block(chunk_pos, columns@, i) by {
                        if i < place {
                            assert(blocks@[i] == before[i]);
                        }
                    }
                }
                z += 1;
            }
            y += 1;
        }
        x += 1;
    }
    proof {
        assert(blocks@ =~= Seq::new(32768, |i: int| generated_block(chunk_pos, columns@, i)));
    }
    ChunkData::new(blocks)
}

} // verus!
