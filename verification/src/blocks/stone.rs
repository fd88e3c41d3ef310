use vstd::prelude::*;
use crate::blocks::BlockProperties;
use crate::render::{key_of, with_source, BlockFace, BlockModel, TextureBuilder, TextureSource};

verus! {

/// Solid stone.
#[derive(Debug, Clone, Copy)]
pub struct Stone;

impl Stone {
    pub open spec fn spec_properties() -> BlockProperties {
        BlockProperties { max_hp: 80 }
    }

    pub fn properties() -> (r: BlockProperties)
        ensures
            r == Self::spec_properties(),
    {
        BlockProperties { max_hp: 80 }
    }

    /// The textures that a builder holds once the model has been built,
    /// if it held `textures` before.
    pub open spec fn spec_model_textures(textures: Seq<TextureSource>) -> Seq<TextureSource> {
        with_source(textures, TextureSource::Image("textures/stone.png"@))
    }

    /// The faces of the model: the stone image on every side.
    pub open spec fn spec_model_faces(textures: Seq<TextureSource>) -> Seq<BlockFace> {
        Seq::new(
            6,
            |i: int|
                BlockFace::Full(
                    key_of(Self::spec_model_textures(textures), TextureSource::Image("textures/stone.png"@)),
                ),
        )
    }

    /// The model of stone: the same image on every side.
    pub fn model(texture_builder: &mut TextureBuilder) -> (r: BlockModel)
        ensures
            final(texture_builder)@ == Self::spec_model_textures(old(texture_builder)@),
            r.faces@ == Self::spec_model_faces(old(texture_builder)@),
    {
        let face = texture_builder.image("textures/stone.png");
        BlockModel::new(BlockFace::Full(face))
    }
}

} // verus!
