//! Block models: cuboid elements, their faces, and inheritance.

pub mod element;
pub mod face;
pub mod manager;
pub mod model;
pub mod order;
