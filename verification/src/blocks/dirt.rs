use vstd::prelude::*;
use crate::blocks::BlockProperties;
use crate::render::{key_of, with_source, BlockFace, BlockModel, TextureBuilder, TextureSource};

verus! {

/// Plain dirt.
#[derive(Debug, Clone, Copy)]
pub struct Dirt;

impl Dirt {
    pub open spec fn spec_properties() -> BlockProperties {
        BlockProperties { max_hp: 10 }
    }

    pub fn properties() -> (r: BlockProperties)
        ensures
            r == Self::spec_properties(),
    {
        BlockProperties { max_hp: 10 }
    }

    /// The textures that a builder holds once the model has been built,
    /// if it held `textures` before.
    pub open spec fn spec_model_textures(textures: Seq<TextureSource>) -> Seq<TextureSource> {
        with_source(textures, TextureSource::Image("textures/dirt.png"@))
    }

    /// The faces of the model: the dirt image on every side.
    pub open spec fn spec_model_faces(textures: Seq<TextureSource>) -> Seq<BlockFace> {
        Seq::new(
            6,
            |i: int|
                BlockFace::Full(
                    key_of(Self::spec_model_textures(textures), TextureSource::Image("textures/dirt.png"@)),
                ),
        )
    }

    /// The model of dirt: the same image on every side.
    pub fn model(texture_builder: &mut TextureBuilder) -> (r: BlockModel)
        ensures
            final(texture_builder)@ == Self::spec_model_textures(old(texture_builder)@),
            r.faces@ == Self::spec_model_faces(old(texture_builder)@),
    {
        let face = texture_builder.image("textures/dirt.png");
        BlockModel::new(BlockFace::Full(face))
    }
}

} // verus!
