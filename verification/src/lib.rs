//! Turns snapshots of a tile cache into an SVG drawing of the tiles and an HTML
//! report that explains why each tile was invalidated.

pub mod classify;
pub mod intern;
pub mod items;
pub mod model;
pub mod number;
pub mod render;
pub mod text;
pub mod tiles;
pub mod tree;
