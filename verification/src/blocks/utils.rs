//! Small helpers shared by the block types.

use vstd::prelude::*;

verus! {

/// A counterclockwise rotation of a block face, in quarter turns.
#[derive(Debug, Clone, Copy, PartialEq, Eq, Structural)]
pub enum Rotation {
    Deg0,
    Deg90,
    Deg180,
    Deg270,
}

impl Rotation {
    /// The number of quarter turns.
    pub open spec fn spec_quarter_turns(self) -> u8 {
        match self {
            Rotation::Deg0 => 0,
            Rotation::Deg90 => 1,
            Rotation::Deg180 => 2,
            Rotation::Deg270 => 3,
        }
    }

    /// The number of quarter turns, `0..4`.
    pub fn quarter_turns(self) -> (r: u8)
        ensures
            r == self.spec_quarter_turns(),
            r < 4,
    {
        match self {
            Rotation::Deg0 => 0,
            Rotation::Deg90 => 1,
            Rotation::Deg180 => 2,
            Rotation::Deg270 => 3,
        }
    }
}

} // verus!
