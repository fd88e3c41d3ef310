//! The layers of blocks below the surface of a biome.

use vstd::prelude::*;
use crate::blocks::BlockType;

verus! {

/// A layer of blocks of one type.
#[derive(Debug, Clone, Copy, PartialEq, Eq, Structural)]
pub struct BlockLayer {
    pub block: BlockType,
    pub thickness: u32,
}

/// The makeup of the ground of a biome.
#[derive(Debug)]
pub struct BiomeLayers {
    /// The layers from the surface down; the first one is the surface.
    pub layers: Vec<BlockLayer>,
    /// The block that fills everything below the layers.
    pub bottom: BlockType,
}

/// How far below the surface the first `n` of `layers` reach together.
pub open spec fn depth_above(layers: Seq<BlockLayer>, n: int) -> int
    decreases n,
{
    if n <= 0 {
        0
    } else {
        depth_above(layers, n - 1) + layers[n - 1].thickness
    }
}

/// The layers above a layer reach no deeper than the layers above a later
/// layer.
pub proof fn lemma_depth_above_monotone(layers: Seq<BlockLayer>, i: int, j: int)
    requires
        0 <= i <= j <= layers.len(),
    ensures
        0 <= depth_above(layers, i) <= depth_above(layers, j),
    decreases j,
{
    if i < j {
        lemma_depth_above_monotone(layers, i, j - 1);
    } else if i > 0 {
        lemma_depth_above_monotone(layers, i - 1, i - 1);
    }
}

impl BiomeLayers {
    /// True if `below`, counted from the surface down with the surface at
    /// 0, lies in layer `i`.
    pub open spec fn in_layer(self, below: int, i: int) -> bool {
        0 <= i < self.layers@.len() && depth_above(self.layers@, i) <= below < depth_above(
            self.layers@,
            i + 1,
        )
    }

    /// The block at `depth`: air above the surface; at the surface, which
    /// is depth 0, and below it the block of the layer that the depth lies
    /// in, and the bottom block below all layers.
    pub open spec fn spec_block_at_depth(self, depth: int) -> BlockType {
        if depth > 0 {
            BlockType::Air
        } else if exists|i: int| #[trigger] self.in_layer(-depth, i) {
            self.layers@[choose|i: int| #[trigger] self.in_layer(-depth, i)].block
        } else {
            self.bottom
        }
    }

    /// A depth lies in at most one layer.
    pub proof fn lemma_layer_unique(self, below: int, i: int, j: int)
        requires
            self.in_layer(below, i),
            self.in_layer(below, j),
        ensures
            i == j,
    {
        if i < j {
            lemma_depth_above_monotone(self.layers@, i + 1, j);
        } else if j < i {
            lemma_depth_above_monotone(self.layers@, j + 1, i);
        }
    }

    /// The block at `depth`, where 0 is the surface, negative depths are
    /// below it and positive depths are in the air above it.
    pub fn get_block_at_depth(&self, depth: i32) -> (r: BlockType)
        ensures
            r == self.spec_block_at_depth(depth as int),
            depth > 0 ==> r == BlockType::Air,
            depth <= 0 ==> forall|i: int| #[trigger] self.in_layer(-depth, i) ==> r == self.layers@[i].block,
            depth <= 0 && -depth >= depth_above(self.layers@, self.layers@.len() as int) ==> r
                == self.bottom,
    {
        if depth > 0 {
            return BlockType::Air;
        }
        let below: u32 = (-(depth as i64)) as u32;
        let mut remaining: u32 = below;
        let mut i: usize = 0;
        while i < self.layers.len()
            invariant
                0 <= i <= self.layers@.len(),
                below == -depth,
                remaining == below - depth_above(self.layers@, i as int),
                forall|j: int| 0 <= j < i ==> !#[trigger] self.in_layer(below as int, j),
            decreases self.layers@.len() - i,
        {
            let layer = self.layers[i];
            if remaining < layer.thickness {
                proof {
                    assert(self.in_layer(below as int, i as int));
                    assert forall|j: int| #[trigger] self.in_layer(-depth, j) implies layer.block
                        == self.layers@[j].block by {
                        self.lemma_layer_unique(below as int, i as int, j);
                    }
                    let k = choose|k: int| #[trigger] self.in_layer(-depth, k);
                    self.lemma_layer_unique(below as int, i as int, k);
                    lemma_depth_above_monotone(self.layers@, i + 1, self.layers@.len() as int);
                }
                return layer.block;
            }
            remaining = remaining - layer.thickness;
            i += 1;
        }
        proof {
            assert forall|j: int| !#[trigger] self.in_layer(-depth, j) by {
                if 0 <= j < self.layers@.len() {
                    lemma_depth_above_monotone(self.layers@, j + 1, self.layers@.len() as int);
                }
            }
        }
        self.bottom
    }
}

} // verus!
