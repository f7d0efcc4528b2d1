//! The hash maps that hold faces, texture variables, models and blocks.
//!
//! The maps are `bevy::platform::collections::HashMap`. Verus does not look
//! inside them: what a map holds is given a name, and each operation on a
//! map is a small function whose contract says, over that name, what the
//! operation does. These contracts are believed, not proved.

use vstd::prelude::*;
use bevy::platform::collections::HashMap;
use crate::assets::models::element::{BlockFace, ElementFace};
use crate::assets::models::model::Model;
use crate::assets::textures::texture::Texture;
use crate::chunk::{BlockData, IVec3};
use crate::identity::block_id::BlockId;

verus! {

/// `bevy::platform::collections::HashMap`, a hash map with a fixed hasher.
#[verifier::external_type_specification]
#[verifier::external_body]
#[verifier::reject_recursive_types(K)]
#[verifier::reject_recursive_types(V)]
#[verifier::reject_recursive_types(S)]
pub struct ExHashMap<K, V, S>(HashMap<K, V, S>);

/// `bevy::platform::hash::FixedHasher`, the hasher that the maps are built
/// with.
#[verifier::external_type_specification]
#[verifier::external_body]
pub struct ExFixedHasher(bevy::platform::hash::FixedHasher);

/// The faces that a map of faces holds, by direction. Two directions are one
/// key where they are the same direction.
pub uninterp spec fn face_table(m: HashMap<BlockFace, ElementFace>) -> Map<BlockFace, ElementFace>;

/// `HashMap::get` on a map of faces: the face stored for `face`, if there is
/// one.
#[verifier::external_body]
pub(crate) fn face_table_get(m: &HashMap<BlockFace, ElementFace>, face: BlockFace) -> (r: Option<
    &ElementFace,
>)
    ensures
        match r {
            Some(data) => face_table(*m).contains_key(face) && *data == face_table(*m)[face],
            None => !face_table(*m).contains_key(face),
        },
{
    m.get(&face)
}

/// `Clone::clone` on a map of faces: a map that holds the same faces.
#[verifier::external_body]
pub(crate) fn face_table_clone(m: &HashMap<BlockFace, ElementFace>) -> (r: HashMap<
    BlockFace,
    ElementFace,
>)
    ensures
        face_table(r) == face_table(*m),
{
    m.clone()
}

/// The texture variables that a map of textures holds: the texture that each
/// name stands for, names and textures as sequences of characters.
pub uninterp spec fn texture_table(m: HashMap<String, Texture>) -> Map<Seq<char>, Seq<char>>;

/// `entries` lists `table`: every entry once, and nothing else.
pub open spec fn lists_textures(
    entries: Seq<(String, Texture)>,
    table: Map<Seq<char>, Seq<char>>,
) -> bool {
    &&& forall|i: int, j: int|
        0 <= i < j < entries.len() ==> (#[trigger] entries[i]).0@ != (#[trigger] entries[j]).0@
    &&& forall|i: int|
        0 <= i < entries.len() ==> table.contains_key((#[trigger] entries[i]).0@)
            && table[entries[i].0@] == entries[i].1@
    &&& forall|k: Seq<char>| #[trigger]
        table.contains_key(k) ==> exists|i: int|
            0 <= i < entries.len() && (#[trigger] entries[i]).0@ == k
}

/// `HashMap::len` on a map of textures: the number of names.
#[verifier::external_body]
pub(crate) fn texture_table_len(m: &HashMap<String, Texture>) -> (r: usize)
    ensures
        r == texture_table(*m).dom().len(),
{
    m.len()
}

/// `HashMap::get` on a map of textures: the texture stored under `key`, if
/// there is one.
#[verifier::external_body]
pub(crate) fn texture_table_get<'a>(m: &'a HashMap<String, Texture>, key: &str) -> (r: Option<
    &'a Texture,
>)
    ensures
        match r {
            Some(texture) => texture_table(*m).contains_key(key@) && texture@ == texture_table(
                *m,
            )[key@],
            None => !texture_table(*m).contains_key(key@),
        },
{
    m.get(key)
}

/// `HashMap::insert` on a map of textures: `key` now stands for `value`, and
/// every other name for what it stood for.
#[verifier::external_body]
pub(crate) fn texture_table_insert(m: &mut HashMap<String, Texture>, key: String, value: Texture)
    ensures
        texture_table(*final(m)) == texture_table(*old(m)).insert(key@, value@),
{
    m.insert(key, value);
}

/// `HashMap::iter` on a map of textures: a copy of every entry, in the order
/// in which the map hands them out, which is not stated.
#[verifier::external_body]
pub(crate) fn texture_table_entries(m: &HashMap<String, Texture>) -> (r: Vec<(String, Texture)>)
    ensures
        lists_textures(r@, texture_table(*m)),
{
    m.iter().map(|(name, texture)| (name.clone(), texture.clone())).collect()
}

/// `Clone::clone` on a map of textures: a map that holds the same variables.
#[verifier::external_body]
pub(crate) fn texture_table_clone(m: &HashMap<String, Texture>) -> (r: HashMap<String, Texture>)
    ensures
        texture_table(r) == texture_table(*m),
{
    m.clone()
}

/// The models that a map of models holds, by the characters of their
/// identifiers. Two identifiers are one key where their strings are equal.
pub uninterp spec fn model_table(m: HashMap<BlockId, Model>) -> Map<Seq<char>, Model>;

/// `keys` lists the keys of `table`: every key once, and nothing else.
pub open spec fn lists_models(keys: Seq<BlockId>, table: Map<Seq<char>, Model>) -> bool {
    &&& forall|i: int, j: int|
        0 <= i < j < keys.len() ==> (#[trigger] keys[i]).0@ != (#[trigger] keys[j]).0@
    &&& forall|i: int| 0 <= i < keys.len() ==> table.contains_key((#[trigger] keys[i]).0@)
    &&& forall|k: Seq<char>| #[trigger]
        table.contains_key(k) ==> exists|i: int| 0 <= i < keys.len() && (#[trigger] keys[i]).0@ == k
}

/// `HashMap::new`: a map that holds no model.
#[verifier::external_body]
pub(crate) fn model_table_new() -> (r: HashMap<BlockId, Model>)
    ensures
        forall|key: Seq<char>| !model_table(r).contains_key(key),
{
    HashMap::new()
}

/// `HashMap::get` on a map of models: the model stored under `key`, if there
/// is one.
#[verifier::external_body]
pub(crate) fn model_table_get<'a>(m: &'a HashMap<BlockId, Model>, key: &BlockId) -> (r: Option<
    &'a Model,
>)
    ensures
        match r {
            Some(model) => model_table(*m).contains_key(key.0@) && *model == model_table(
                *m,
            )[key.0@],
            None => !model_table(*m).contains_key(key.0@),
        },
{
    m.get(key)
}

/// `HashMap::insert` on a map of models: `key` now names `value`, and every
/// other key what it named.
#[verifier::external_body]
pub(crate) fn model_table_insert(m: &mut HashMap<BlockId, Model>, key: BlockId, value: Model)
    ensures
        model_table(*final(m)) == model_table(*old(m)).insert(key.0@, value),
{
    m.insert(key, value);
}

/// `HashMap::keys` on a map of models: a copy of every key, in the order in
/// which the map hands them out, which is not stated.
#[verifier::external_body]
pub(crate) fn model_table_keys(m: &HashMap<BlockId, Model>) -> (r: Vec<BlockId>)
    ensures
        lists_models(r@, model_table(*m)),
{
    m.keys().map(|key| key.clone()).collect()
}

/// The blocks that a map of blocks holds, by position. Two positions are one
/// key where their coordinates are equal.
pub uninterp spec fn block_table(m: HashMap<IVec3, BlockData>) -> Map<IVec3, BlockData>;

/// `positions` lists the positions of `table`: every one once, and nothing
/// else.
pub open spec fn lists_blocks(positions: Seq<IVec3>, table: Map<IVec3, BlockData>) -> bool {
    &&& positions.no_duplicates()
    &&& forall|pos: IVec3| table.contains_key(pos) <==> positions.contains(pos)
}

/// `HashMap::new`: a map that holds no block.
#[verifier::external_body]
pub(crate) fn block_table_new() -> (r: HashMap<IVec3, BlockData>)
    ensures
        forall|pos: IVec3| !block_table(r).contains_key(pos),
{
    HashMap::new()
}

/// `HashMap::get` on a map of blocks: the block stored at `pos`, if there is
/// one.
#[verifier::external_body]
pub(crate) fn block_table_get(m: &HashMap<IVec3, BlockData>, pos: IVec3) -> (r: Option<&BlockData>)
    ensures
        match r {
            Some(block) => block_table(*m).contains_key(pos) && *block == block_table(*m)[pos],
            None => !block_table(*m).contains_key(pos),
        },
{
    m.get(&pos)
}

/// `HashMap::insert` on a map of blocks: `block` now stands at `pos`, and at
/// every other position what stood there.
#[verifier::external_body]
pub(crate) fn block_table_insert(m: &mut HashMap<IVec3, BlockData>, pos: IVec3, block: BlockData)
    ensures
        block_table(*final(m)) == block_table(*old(m)).insert(pos, block),
{
    m.insert(pos, block);
}

/// `HashMap::keys` on a map of blocks: every position, in the order in which
/// the map hands them out, which is not stated.
#[verifier::external_body]
pub(crate) fn block_table_positions(m: &HashMap<IVec3, BlockData>) -> (r: Vec<IVec3>)
    ensures
        lists_blocks(r@, block_table(*m)),
{
    m.keys().copied().collect()
}

} // verus!
