//! Block models and the textures that they refer to: each distinct texture
//! gets a key, and each texture that a model uses gets a tile of the atlas.

use vstd::prelude::*;
use crate::blocks::utils::Rotation;
use crate::blocks::BlockType;
use crate::meshing::{BlockFaceType, BlockFaceUv, BlockModelUv, FaceDirection, TextureUvData};
use crate::types::UVec2;

verus! {

/// Number of tiles along each side of the texture atlas.
pub const TEXTURE_MAP_SIZE: u32 = 4;

/// Number of tiles of the texture atlas.
pub const TEXTURE_MAP_TILES: usize = 16;

/// The key of a texture: its place among the textures of a builder.
#[derive(Debug, Clone, Copy, PartialEq, Eq, Structural, Hash)]
pub struct TextureKey(pub usize);

/// Where the pixels of a texture come from, as a builder keeps it.
#[derive(Debug)]
pub enum BlockFaceTexture {
    /// The image at a path.
    Image(String),
    /// One texture laid over another.
    Overlay { top: TextureKey, bottom: TextureKey },
}

/// Where the pixels of a texture come from.
pub enum TextureSource {
    /// The image at a path.
    Image(Seq<char>),
    /// One texture laid over another.
    Overlay { top: TextureKey, bottom: TextureKey },
}

impl View for BlockFaceTexture {
    type V = TextureSource;

    open spec fn view(&self) -> TextureSource {
        match self {
            BlockFaceTexture::Image(path) => TextureSource::Image(path@),
            BlockFaceTexture::Overlay { top, bottom } => TextureSource::Overlay {
                top: *top,
                bottom: *bottom,
            },
        }
    }
}

impl BlockFaceTexture {
    /// True if both textures come from the same source.
    pub fn same_source(&self, other: &BlockFaceTexture) -> (r: bool)
        ensures
            r == (self@ == other@),
    {
        match self {
            BlockFaceTexture::Image(path) => match other {
                BlockFaceTexture::Image(other_path) => {
                    proof {
                        if path@ == other_path@ {
                            assert(self@ == other@);
                        }
                    }
                    *path == *other_path
                },
                BlockFaceTexture::Overlay { .. } => false,
            },
            BlockFaceTexture::Overlay { top, bottom } => match other {
                BlockFaceTexture::Image(_) => false,
                BlockFaceTexture::Overlay { top: other_top, bottom: other_bottom } => top.0
                    == other_top.0 && bottom.0 == other_bottom.0,
            },
        }
    }
}

/// The textures `textures` with one that comes from `source` among them:
/// unchanged if there is one already, else with `source` at the end.
pub open spec fn with_source(textures: Seq<TextureSource>, source: TextureSource) -> Seq<
    TextureSource,
> {
    if textures.contains(source) {
        textures
    } else {
        textures.push(source)
    }
}

/// The key of the texture among `textures` that comes from `source`.
pub open spec fn key_of(textures: Seq<TextureSource>, source: TextureSource) -> TextureKey {
    TextureKey(textures.index_of(source) as usize)
}

/// Among textures without duplicates, the key of a source is the one place
/// at which the source stands, and it stays the same when more textures
/// follow.
pub proof fn lemma_key_of(textures: Seq<TextureSource>, source: TextureSource, i: int)
    requires
        textures.no_duplicates(),
        0 <= i < textures.len(),
        textures[i] == source,
    ensures
        key_of(textures, source) == TextureKey(i as usize),
        textures.contains(source),
{
    let j = textures.index_of(source);
    assert(textures.contains(source));
    assert(textures[j] == source);
}

/// Adding a source keeps the textures free of duplicates, keeps every key,
/// and gives the source a key.
pub proof fn lemma_with_source(
    textures: Seq<TextureSource>,
    source: TextureSource,
    other: TextureSource,
)
    requires
        textures.no_duplicates(),
    ensures
        with_source(textures, source).no_duplicates(),
        with_source(textures, source).contains(source),
        textures.is_prefix_of(with_source(textures, source)),
        textures.contains(other) ==> with_source(textures, source).contains(other) && key_of(
            with_source(textures, source),
            other,
        ) == key_of(textures, other),
{
    let after = with_source(textures, source);
    if !textures.contains(source) {
        assert(after[after.len() - 1] == source);
        assert forall|a: int, b: int| 0 <= a < b < after.len() implies after[a] != after[b] by {
            if b == after.len() - 1 {
                assert(textures[a] == after[a]);
                assert(textures.contains(after[a]));
            } else {
                assert(textures[a] == after[a] && textures[b] == after[b]);
            }
        }
    }
    if textures.contains(other) {
        let i = textures.index_of(other);
        assert(textures[i] == other);
        assert(after[i] == other);
        lemma_key_of(after, other, i);
    }
}

/// The sources of `textures`.
pub open spec fn sources(textures: Seq<BlockFaceTexture>) -> Seq<TextureSource> {
    Seq::new(textures.len(), |i: int| textures[i]@)
}

/// Collects the textures that block models use and gives each distinct one
/// a key.
#[derive(Debug)]
pub struct TextureBuilder {
    textures: Vec<BlockFaceTexture>,
}

impl View for TextureBuilder {
    type V = Seq<TextureSource>;

    /// The sources of the textures; the key of a texture is its place.
    closed spec fn view(&self) -> Seq<TextureSource> {
        sources(self.textures@)
    }
}

impl TextureBuilder {
    #[verifier::type_invariant]
    closed spec fn valid(&self) -> bool {
        sources(self.textures@).no_duplicates()
    }

    /// A builder without textures.
    pub fn new() -> (r: Self)
        ensures
            r@ == Seq::<TextureSource>::empty(),
    {
        let r = TextureBuilder { textures: Vec::new() };
        proof {
            assert(r@ =~= Seq::<TextureSource>::empty());
        }
        r
    }

    /// The number of distinct textures.
    pub fn len(&self) -> (r: usize)
        ensures
            r == self@.len(),
            self@.no_duplicates(),
    {
        proof {
            use_type_invariant(self);
        }
        self.textures.len()
    }

    /// The texture with key `key`; `None` if the builder has no such key.
    pub fn get(&self, key: TextureKey) -> (r: Option<&BlockFaceTexture>)
        ensures
            r.is_some() <==> key.0 < self@.len(),
            r.is_some() ==> r.unwrap()@ == self@[key.0 as int],
    {
        if key.0 < self.textures.len() {
            Some(&self.textures[key.0])
        } else {
            None
        }
    }

    /// The key of `texture`: that of the texture from the same source if
    /// the builder has one, else a new key for `texture`, which joins the
    /// builder.
    fn insert_block_face_texture(&mut self, texture: BlockFaceTexture) -> (r: TextureKey)
        ensures
            final(self)@ == with_source(old(self)@, texture@),
            r == key_of(final(self)@, texture@),
            r.0 < final(self)@.len(),
            final(self)@[r.0 as int] == texture@,
            old(self)@.no_duplicates(),
            final(self)@.no_duplicates(),
    {
        proof {
            use_type_invariant(&*self);
        }
        let mut i: usize = 0;
        while i < self.textures.len()
            invariant
                0 <= i <= self.textures@.len(),
                forall|j: int| 0 <= j < i ==> sources(self.textures@)[j] != texture@,
                *self == *old(self),
                sources(self.textures@).no_duplicates(),
            decreases self.textures@.len() - i,
        {
            if self.textures[i].same_source(&texture) {
                proof {
                    assert(sources(self.textures@)[i as int] == texture@);
                    lemma_key_of(self@, texture@, i as int);
                }
                return TextureKey(i);
            }
            i += 1;
        }
        let mut taken = TextureBuilder { textures: Vec::new() };
        proof {
            assert(sources(taken.textures@) =~= Seq::<TextureSource>::empty());
        }
        core::mem::swap(self, &mut taken);
        let TextureBuilder { mut textures } = taken;
        let ghost before = textures@;
        let key = TextureKey(textures.len());
        textures.push(texture);
        proof {
            assert(sources(textures@) =~= sources(before).push(texture@));
            assert forall|a: int, b: int|
                0 <= a < b < sources(textures@).len() implies sources(textures@)[a] != sources(
                textures@,
            )[b] by {
                if b < sources(before).len() {
                    assert(sources(before)[a] != sources(before)[b]);
                }
            }
            assert forall|j: int| 0 <= j < sources(before).len() implies sources(before)[j]
                != texture@ by {}
            lemma_key_of(sources(textures@), texture@, before.len() as int);
        }
        *self = TextureBuilder { textures };
        key
    }

    /// The key of the image at `image_path`.
    pub fn image(&mut self, image_path: &str) -> (r: TextureKey)
        ensures
            final(self)@ == with_source(old(self)@, TextureSource::Image(image_path@)),
            r == key_of(final(self)@, TextureSource::Image(image_path@)),
            r.0 < final(self)@.len(),
            final(self)@[r.0 as int] == TextureSource::Image(image_path@),
            old(self)@.no_duplicates(),
            final(self)@.no_duplicates(),
    {
        self.insert_block_face_texture(BlockFaceTexture::Image(image_path.to_owned()))
    }

    /// The key of the texture that shows `top` laid over `bottom`.
    pub fn overlay(&mut self, top: TextureKey, bottom: TextureKey) -> (r: TextureKey)
        ensures
            final(self)@ == with_source(old(self)@, TextureSource::Overlay { top, bottom }),
            r == key_of(final(self)@, TextureSource::Overlay { top, bottom }),
            r.0 < final(self)@.len(),
            final(self)@[r.0 as int] == (TextureSource::Overlay { top, bottom }),
            old(self)@.no_duplicates(),
            final(self)@.no_duplicates(),
    {
        self.insert_block_face_texture(BlockFaceTexture::Overlay { top, bottom })
    }
}

/// One face of a block model.
#[derive(Debug, Clone, Copy, PartialEq, Eq, Structural)]
pub enum BlockFace {
    /// A full square face with a texture.
    Full(TextureKey),
    /// No face.
    Empty,
}

/// The faces of a block type, one for each direction.
#[derive(Debug, Clone, Copy)]
pub struct BlockModel {
    pub faces: [BlockFace; 6],
}

impl BlockModel {
    /// A model that shows `face` on all six sides.
    pub fn new(face: BlockFace) -> (r: Self)
        ensures
            r.faces@ == Seq::new(6, |i: int| face),
    {
        let r = BlockModel { faces: [face, face, face, face, face, face] };
        proof {
            assert(r.faces@ =~= Seq::new(6, |i: int| face));
        }
        r
    }

    /// This model with `face` in direction `direction`.
    pub fn with_face(self, direction: FaceDirection, face: BlockFace) -> (r: Self)
        ensures
            r.faces@ == self.faces@.update(direction.spec_index(), face),
    {
        let mut model = self;
        let i: usize = direction.index();
        model.faces[i] = face;
        model
    }

    pub fn set_front(self, face: BlockFace) -> (r: Self)
        ensures
            r.faces@ == self.faces@.update(0, face),
    {
        self.with_face(FaceDirection::Front, face)
    }

    pub fn set_back(self, face: BlockFace) -> (r: Self)
        ensures
            r.faces@ == self.faces@.update(1, face),
    {
        self.with_face(FaceDirection::Back, face)
    }

    pub fn set_top(self, face: BlockFace) -> (r: Self)
        ensures
            r.faces@ == self.faces@.update(2, face),
    {
        self.with_face(FaceDirection::Top, face)
    }

    pub fn set_bottom(self, face: BlockFace) -> (r: Self)
        ensures
            r.faces@ == self.faces@.update(3, face),
    {
        self.with_face(FaceDirection::Bottom, face)
    }

    pub fn set_left(self, face: BlockFace) -> (r: Self)
        ensures
            r.faces@ == self.faces@.update(4, face),
    {
        self.with_face(FaceDirection::Left, face)
    }

    pub fn set_right(self, face: BlockFace) -> (r: Self)
        ensures
            r.faces@ == self.faces@.update(5, face),
    {
        self.with_face(FaceDirection::Right, face)
    }
}

/// The textures that a builder holds once the models of the block types
/// with ids below `block_id` have been built in the order of their ids, if
/// it held `textures` before.
pub open spec fn textures_before(block_id: int, textures: Seq<TextureSource>) -> Seq<TextureSource>
    decreases block_id,
{
    if block_id <= 0 {
        textures
    } else {
        match BlockType::spec_from_repr((block_id - 1) as u16) {
            Some(block_type) => block_type.spec_model_textures(
                textures_before(block_id - 1, textures),
            ),
            None => textures_before(block_id - 1, textures),
        }
    }
}

/// The models of all block types, at the places of their type ids. The
/// textures of the models join `texture_builder` in that order.
pub fn build_block_models(texture_builder: &mut TextureBuilder) -> (r: Vec<BlockModel>)
    ensures
        r@.len() == 4,
        forall|id: int|
            0 <= id < 4 ==> (#[trigger] r@[id]).faces@ == BlockType::spec_from_repr(
                id as u16,
            ).unwrap().spec_model_faces(textures_before(id, old(texture_builder)@)),
        final(texture_builder)@ == textures_before(4, old(texture_builder)@),
{
    let ghost start = texture_builder@;
    let types = BlockType::all();
    let mut models: Vec<BlockModel> = Vec::new();
    let mut i: usize = 0;
    while i < 4
        invariant
            0 <= i <= 4,
            models@.len() == i,
            forall|id: int| 0 <= id < 4 ==> (#[trigger] types[id]).spec_id() == id,
            texture_builder@ == textures_before(i as int, start),
            forall|id: int|
                0 <= id < i ==> (#[trigger] models@[id]).faces@ == BlockType::spec_from_repr(
                    id as u16,
                ).unwrap().spec_model_faces(textures_before(id, start)),
        decreases 4 - i,
    {
        let block_type = types[i];
        proof {
            assert(types[i as int].spec_id() == i);
            assert(BlockType::spec_from_repr(i as u16) == Some(block_type));
        }
        let model = block_type.model(texture_builder);
        models.push(model);
        i += 1;
    }
    models
}

/// The faces of `models` in one row: the six faces of the first model, then
/// those of the second, and so on.
pub open spec fn all_faces(models: Seq<BlockModel>) -> Seq<BlockFace> {
    Seq::new(models.len() * 6, |i: int| models[i / 6].faces@[i % 6])
}

/// The keys of the textures that the first `n` of `faces` use, each once, in
/// the order in which they are first used.
pub open spec fn atlas_order(faces: Seq<BlockFace>, n: int) -> Seq<usize>
    decreases n,
{
    if n <= 0 {
        Seq::empty()
    } else {
        let before = atlas_order(faces, n - 1);
        match faces[n - 1] {
            BlockFace::Full(key) => if before.contains(key.0) {
                before
            } else {
                before.push(key.0)
            },
            BlockFace::Empty => before,
        }
    }
}

/// The keys of the textures that `models` use, each once, in the order in
/// which the faces of the models first use them.
pub open spec fn model_atlas_order(models: Seq<BlockModel>) -> Seq<usize> {
    atlas_order(all_faces(models), models.len() as int * 6)
}

/// The atlas tile number `slot`: tiles are counted along the rows of the
/// atlas, and the identity of a tile is one more than its number.
pub open spec fn atlas_tile(slot: int) -> TextureUvData {
    TextureUvData {
        uv_base: UVec2 { x: (slot % 4) as u32, y: (slot / 4) as u32 },
        texture_map_index: (slot + 1) as usize,
    }
}

/// The face `face` with its place in the atlas, where `order` holds the
/// keys of the textures in the order of their tiles.
pub open spec fn face_uv(face: BlockFace, order: Seq<usize>) -> BlockFaceUv {
    match face {
        BlockFace::Full(key) => BlockFaceUv {
            rotation: Rotation::Deg0,
            face_type: BlockFaceType::Full(atlas_tile(order.index_of(key.0))),
        },
        BlockFace::Empty => BlockFaceUv { rotation: Rotation::Deg0, face_type: BlockFaceType::Empty },
    }
}

/// The order of first use grows by steps: the keys of a shorter row of
/// faces keep their places when more faces follow.
pub proof fn lemma_atlas_order_grows(faces: Seq<BlockFace>, m: int, n: int)
    requires
        0 <= m <= n,
    ensures
        atlas_order(faces, m).is_prefix_of(atlas_order(faces, n)),
        atlas_order(faces, n).no_duplicates(),
    decreases n,
{
    if n > 0 {
        if m < n {
            lemma_atlas_order_grows(faces, m, n - 1);
        } else {
            lemma_atlas_order_grows(faces, n - 1, n - 1);
        }
        let before = atlas_order(faces, n - 1);
        let after = atlas_order(faces, n);
        assert(before.is_prefix_of(after));
        assert(after.no_duplicates());
    }
}

/// Why the textures of the block models could not be laid out.
#[derive(Debug, Clone, Copy, PartialEq, Eq, Structural)]
pub enum AtlasError {
    /// The models use more textures than the atlas has tiles.
    TooManyTextures,
}

/// The hash map of `bevy::utils`, from texture keys to atlas tiles.
/// Trusted: nothing is known of it but what the functions below say.
#[verifier::external_body]
pub struct TileMap {
    map: bevy::utils::HashMap<usize, TextureUvData>,
}

/// The tiles that `map` holds, by the keys of their textures.
pub uninterp spec fn tile_map_items(map: TileMap) -> Map<usize, TextureUvData>;

/// `HashMap::default` of hashbrown, which `bevy::utils` hands on: creates
/// an empty map. Trusted: the map that it hands back holds nothing.
#[verifier::external_body]
fn tile_map_new() -> (r: TileMap)
    ensures
        tile_map_items(r) =~= Map::empty(),
{
    TileMap { map: bevy::utils::HashMap::default() }
}

/// `HashMap::get` of hashbrown. Trusted: it returns the tile that the map
/// holds under `key`, and `None` if it holds none there.
#[verifier::external_body]
fn tile_map_get(map: &TileMap, key: usize) -> (r: Option<TextureUvData>)
    ensures
        r.is_some() == tile_map_items(*map).contains_key(key),
        r.is_some() ==> r.unwrap() == tile_map_items(*map)[key],
{
    map.map.get(&key).copied()
}

/// `HashMap::insert` of hashbrown. Trusted: afterwards the map holds `tile`
/// under `key` and is otherwise as it was.
#[verifier::external_body]
fn tile_map_insert(map: &mut TileMap, key: usize, tile: TextureUvData)
    ensures
        tile_map_items(*final(map)) == tile_map_items(*old(map)).insert(key, tile),
{
    map.map.insert(key, tile);
}

/// True if `tiles` holds a tile for exactly the keys of `order`, and for
/// each key the tile of its place in `order`.
pub open spec fn tiles_match(tiles: Map<usize, TextureUvData>, order: Seq<usize>) -> bool {
    &&& forall|key: usize| #[trigger] tiles.contains_key(key) <==> order.contains(key)
    &&& forall|key: usize| #[trigger]
        order.contains(key) ==> tiles[key] == atlas_tile(order.index_of(key))
}

/// A key that has no tile yet gets the next tile and keeps every other
/// key at its tile.
pub proof fn lemma_tiles_push(tiles: Map<usize, TextureUvData>, order: Seq<usize>, key: usize)
    requires
        tiles_match(tiles, order),
        order.no_duplicates(),
        !order.contains(key),
    ensures
        tiles_match(tiles.insert(key, atlas_tile(order.len() as int)), order.push(key)),
        order.push(key).no_duplicates(),
        order.push(key).index_of(key) == order.len(),
{
    let after = order.push(key);
    assert(after[order.len() as int] == key);
    assert forall|a: int, b: int| 0 <= a < b < after.len() implies after[a] != after[b] by {
        if b == order.len() {
            assert(order[a] == after[a]);
            assert(order.contains(after[a]));
        } else {
            assert(order[a] == after[a] && order[b] == after[b]);
        }
    }
    assert(after.contains(key));
    let found = after.index_of(key);
    assert(after[found] == key);
    assert forall|other: usize| #[trigger]
        after.contains(other) <==> (other == key || order.contains(other)) by {
        if after.contains(other) {
            let i = choose|i: int| 0 <= i < after.len() && after[i] == other;
            if i < order.len() {
                assert(order[i] == other);
            }
        }
        if order.contains(other) {
            let i = choose|i: int| 0 <= i < order.len() && order[i] == other;
            assert(after[i] == other);
        }
    }
    assert forall|other: usize| #[trigger] after.contains(other) && other != key implies after.index_of(
        other,
    ) == order.index_of(other) by {
        assert(order.contains(other));
        let i = order.index_of(other);
        assert(order[i] == other);
        assert(after[i] == other);
        let j = after.index_of(other);
        assert(after[j] == other);
    }
}

/// Gives each texture that `models` use a tile of the atlas, in the order
/// in which the faces of the models first use them, and returns the models
/// with the tiles in place of the texture keys. Fails if the atlas has
/// fewer tiles than the models use textures.
pub fn generate_block_models_uv(models: &Vec<BlockModel>) -> (r: Result<Vec<BlockModelUv>, AtlasError>)
    requires
        models@.len() * 6 <= usize::MAX,
    ensures
        r.is_ok() <==> model_atlas_order(models@).len() <= 16,
        r.is_ok() ==> r.unwrap()@.len() == models@.len() && forall|i: int, f: int|
            0 <= i < models@.len() && 0 <= f < 6 ==> #[trigger] r.unwrap()@[i].faces@[f] == face_uv(
                models@[i].faces@[f],
                model_atlas_order(models@),
            ),
{
    let ghost faces = all_faces(models@);
    let ghost total = models@.len() as int * 6;
    let ghost mut order: Seq<usize> = Seq::empty();
    let mut tiles = tile_map_new();
    let mut count: usize = 0;
    let mut out: Vec<BlockModelUv> = Vec::new();
    let mut i: usize = 0;
    proof {
        lemma_atlas_order_grows(faces, 0, 0);
    }
    while i < models.len()
        invariant
            0 <= i <= models@.len(),
            faces == all_faces(models@),
            total == models@.len() * 6,
            order == atlas_order(faces, i * 6),
            order.no_duplicates(),
            tiles_match(tile_map_items(tiles), order),
            count == order.len(),
            count <= 16,
            out@.len() == i,
            forall|a: int, f: int|
                0 <= a < i && 0 <= f < 6 ==> #[trigger] out@[a].faces@[f] == face_uv(
                    models@[a].faces@[f],
                    order,
                ),
        decreases models@.len() - i,
    {
        let empty = BlockFaceUv { rotation: Rotation::Deg0, face_type: BlockFaceType::Empty };
        let mut uv_faces: [BlockFaceUv; 6] = [empty, empty, empty, empty, empty, empty];
        let model = models[i];
        let ghost done = out@;
        let ghost order_at_model = order;
        let mut f: usize = 0;
        while f < 6
            invariant
                0 <= i < models@.len(),
                0 <= f <= 6,
                faces == all_faces(models@),
                total == models@.len() * 6,
                model == models@[i as int],
                order == atlas_order(faces, i * 6 + f),
                order.no_duplicates(),
                tiles_match(tile_map_items(tiles), order),
                count == order.len(),
                count <= 16,
                order_at_model == atlas_order(faces, i * 6),
                out@ == done,
                empty == (BlockFaceUv { rotation: Rotation::Deg0, face_type: BlockFaceType::Empty }),
                forall|g: int| 0 <= g < f ==> #[trigger] uv_faces@[g] == face_uv(model.faces@[g], order),
            decreases 6 - f,
        {
            let ghost n = i as int * 6 + f as int;
            let ghost before = order;
            let ghost uv_before = uv_faces@;
            proof {
                assert(faces[n] == model.faces@[f as int]);
                lemma_atlas_order_grows(faces, n, n + 1);
            }
            match model.faces[f] {
                BlockFace::Full(key) => {
                    let tile: TextureUvData = match tile_map_get(&tiles, key.0) {
                        Some(tile) => {
                            proof {
                                assert(tile_map_items(tiles).contains_key(key.0));
                                assert(order.contains(key.0));
                            }
                            tile
                        },
                        None => {
                            proof {
                                assert(!tile_map_items(tiles).contains_key(key.0));
                                assert(!order.contains(key.0));
                            }
                            if count >= TEXTURE_MAP_TILES {
                                proof {
                                    lemma_atlas_order_grows(faces, n + 1, total);
                                }
                                return Err(AtlasError::TooManyTextures);
                            }
                            let tile = TextureUvData {
                                uv_base: UVec2::new(
                                    count as u32 % TEXTURE_MAP_SIZE,
                                    count as u32 / TEXTURE_MAP_SIZE,
                                ),
                                texture_map_index: count + 1,
                            };
                            proof {
                                assert(tile == atlas_tile(count as int));
                                lemma_tiles_push(tile_map_items(tiles), order, key.0);
                            }
                            tile_map_insert(&mut tiles, key.0, tile);
                            proof {
                                order = order.push(key.0);
                                assert(order[count as int] == key.0);
                                assert(order.contains(key.0));
                            }
                            count += 1;
                            tile
                        },
                    };
                    proof {
                        assert(order == atlas_order(faces, n + 1));
                        assert(order.contains(key.0));
                        assert(tile == atlas_tile(order.index_of(key.0)));
                    }
                    uv_faces[f] = BlockFaceUv {
                        rotation: Rotation::Deg0,
                        face_type: BlockFaceType::Full(tile),
                    };
                },
                BlockFace::Empty => {
                    uv_faces[f] = empty;
                },
            }
            proof {
                assert forall|g: int| 0 <= g < f + 1 implies #[trigger] uv_faces@[g] == face_uv(
                    model.faces@[g],
                    order,
                ) by {
                    if g < f {
                        assert(uv_faces@[g] == uv_before[g]);
                        assert(faces[i * 6 + g] == model.faces@[g]);
                        lemma_atlas_order_holds(faces, i * 6 + g + 1, n);
                        lemma_face_uv_stable(model.faces@[g], before, order);
                    }
                }
            }
            f += 1;
        }
        proof {
            assert forall|a: int, g: int| 0 <= a < i && 0 <= g < 6 implies #[trigger] done[a].faces@[g]
                == face_uv(models@[a].faces@[g], order) by {
                lemma_atlas_order_grows(faces, i * 6, i * 6 + 6);
                assert(faces[a * 6 + g] == models@[a].faces@[g]);
                lemma_atlas_order_holds(faces, a * 6 + g + 1, i * 6);
                lemma_face_uv_stable(models@[a].faces@[g], order_at_model, order);
            }
        }
        out.push(BlockModelUv { faces: uv_faces });
        i += 1;
    }
    Ok(out)
}

/// Once a face has been passed, the order of first use holds its key.
pub proof fn lemma_atlas_order_holds(faces: Seq<BlockFace>, m: int, n: int)
    requires
        1 <= m <= n,
    ensures
        faces[m - 1] is Full ==> atlas_order(faces, n).contains(faces[m - 1]->Full_0.0),
{
    lemma_atlas_order_grows(faces, m, n);
    match faces[m - 1] {
        BlockFace::Full(key) => {
            let at_m = atlas_order(faces, m);
            let before = atlas_order(faces, m - 1);
            if before.contains(key.0) {
                let j = choose|j: int| 0 <= j < before.len() && before[j] == key.0;
                assert(at_m[j] == key.0);
            } else {
                assert(at_m[at_m.len() - 1] == key.0);
            }
            let j = choose|j: int| 0 <= j < at_m.len() && at_m[j] == key.0;
            assert(atlas_order(faces, n)[j] == key.0);
        },
        BlockFace::Empty => {},
    }
}

/// A face whose key has its tile keeps that tile when more keys follow.
pub proof fn lemma_face_uv_stable(face: BlockFace, before: Seq<usize>, after: Seq<usize>)
    requires
        before.is_prefix_of(after),
        after.no_duplicates(),
        face is Full ==> before.contains(face->Full_0.0),
    ensures
        face_uv(face, before) == face_uv(face, after),
{
    match face {
        BlockFace::Full(key) => {
            let j = before.index_of(key.0);
            assert(before[j] == key.0);
            assert(after[j] == key.0);
            let k = after.index_of(key.0);
            assert(after.contains(key.0));
            assert(after[k] == key.0);
        },
        BlockFace::Empty => {},
    }
}

} // verus!
