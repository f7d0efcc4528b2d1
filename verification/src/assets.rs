//! Block models and the textures that they name.

pub mod models;
pub mod textures;
