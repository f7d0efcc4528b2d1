//! Texture references and the atlas that holds the textures.

pub mod atlas;
pub mod texture;
