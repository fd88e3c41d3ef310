use vstd::prelude::*;
use crate::blocks::BlockProperties;
use crate::render::{BlockFace, BlockModel, TextureBuilder, TextureSource};

verus! {

/// Empty space; it has no hit points.
#[derive(Debug, Clone, Copy)]
pub struct Air;

impl Air {
    pub open spec fn spec_properties() -> BlockProperties {
        BlockProperties { max_hp: 0 }
    }

    pub fn properties() -> (r: BlockProperties)
        ensures
            r == Self::spec_properties(),
    {
        BlockProperties { max_hp: 0 }
    }

    /// The textures that a builder holds once the model has been built,
    /// if it held `textures` before: the same.
    pub open spec fn spec_model_textures(textures: Seq<TextureSource>) -> Seq<TextureSource> {
        textures
    }

    /// The faces of the model: none.
    pub open spec fn spec_model_faces(textures: Seq<TextureSource>) -> Seq<BlockFace> {
        Seq::new(6, |i: int| BlockFace::Empty)
    }

    /// The model of air: no face on any side.
    pub fn model(texture_builder: &mut TextureBuilder) -> (r: BlockModel)
        ensures
            final(texture_builder)@ == Self::spec_model_textures(old(texture_builder)@),
            r.faces@ == Self::spec_model_faces(old(texture_builder)@),
    {
        BlockModel::new(BlockFace::Empty)
    }
}

} // verus!
