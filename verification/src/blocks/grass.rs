use vstd::prelude::*;
use crate::blocks::BlockProperties;
use crate::render::{key_of, lemma_with_source, with_source, BlockFace, BlockModel, TextureBuilder, TextureKey,
    TextureSource};

verus! {

/// Dirt with a grass top.
#[derive(Debug, Clone, Copy)]
pub struct Grass;

impl Grass {
    pub open spec fn spec_properties() -> BlockProperties {
        BlockProperties { max_hp: 10 }
    }

    pub fn properties() -> (r: BlockProperties)
        ensures
            r == Self::spec_properties(),
    {
        BlockProperties { max_hp: 10 }
    }

    /// The image of dirt.
    pub open spec fn dirt_source() -> TextureSource {
        TextureSource::Image("textures/dirt.png"@)
    }

    /// The image of the grass top.
    pub open spec fn grass_source() -> TextureSource {
        TextureSource::Image("textures/grass.png"@)
    }

    /// The image of the grass that hangs over the sides.
    pub open spec fn side_source() -> TextureSource {
        TextureSource::Image("textures/grass_side.png"@)
    }

    /// The textures that a builder holds once the three images of the
    /// model are among them, if it held `textures` before.
    pub open spec fn spec_image_textures(textures: Seq<TextureSource>) -> Seq<TextureSource> {
        with_source(
            with_source(with_source(textures, Self::dirt_source()), Self::grass_source()),
            Self::side_source(),
        )
    }

    /// The side of the block: the grass side laid over dirt.
    pub open spec fn overlay_source(textures: Seq<TextureSource>) -> TextureSource {
        TextureSource::Overlay {
            top: key_of(Self::spec_image_textures(textures), Self::side_source()),
            bottom: key_of(Self::spec_image_textures(textures), Self::dirt_source()),
        }
    }

    /// The textures that a builder holds once the model has been built,
    /// if it held `textures` before.
    pub open spec fn spec_model_textures(textures: Seq<TextureSource>) -> Seq<TextureSource> {
        with_source(Self::spec_image_textures(textures), Self::overlay_source(textures))
    }

    /// The faces of the model: grass on top, dirt below, and on the four
    /// sides the grass side laid over dirt.
    pub open spec fn spec_model_faces(textures: Seq<TextureSource>) -> Seq<BlockFace> {
        let all = Self::spec_model_textures(textures);
        let side = BlockFace::Full(key_of(all, Self::overlay_source(textures)));
        seq![
            side,
            side,
            BlockFace::Full(key_of(all, Self::grass_source())),
            BlockFace::Full(key_of(all, Self::dirt_source())),
            side,
            side,
        ]
    }

    /// The model of grass: grass on top, dirt below, and on the four sides
    /// the grass side laid over dirt.
    pub fn model(texture_builder: &mut TextureBuilder) -> (r: BlockModel)
        ensures
            final(texture_builder)@ == Self::spec_model_textures(old(texture_builder)@),
            r.faces@ == Self::spec_model_faces(old(texture_builder)@),
    {
        let ghost t0 = texture_builder@;
        let dirt_face = texture_builder.image("textures/dirt.png");
        let ghost t1 = texture_builder@;
        let grass_face = texture_builder.image("textures/grass.png");
        let ghost t2 = texture_builder@;
        let grass_side = texture_builder.image("textures/grass_side.png");
        let ghost t3 = texture_builder@;
        proof {
            lemma_with_source(t0, Self::dirt_source(), Self::dirt_source());
            lemma_with_source(t1, Self::grass_source(), Self::dirt_source());
            lemma_with_source(t1, Self::grass_source(), Self::grass_source());
            lemma_with_source(t2, Self::side_source(), Self::dirt_source());
            lemma_with_source(t2, Self::side_source(), Self::grass_source());
        }
        let grass_side = texture_builder.overlay(grass_side, dirt_face);
        proof {
            let over = Self::overlay_source(t0);
            lemma_with_source(t3, over, Self::dirt_source());
            lemma_with_source(t3, over, Self::grass_source());
        }
        let model = BlockModel::new(BlockFace::Full(grass_side)).set_top(
            BlockFace::Full(grass_face),
        ).set_bottom(BlockFace::Full(dirt_face));
        proof {
            assert(model.faces@ =~= Self::spec_model_faces(t0));
        }
        model
    }
}

} // verus!
