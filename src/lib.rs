//! Tile lighting for a grid labyrinth: which wall tiles a point light reaches,
//! where on their perimeter the rays land, and which light shape each lit tile
//! shows.
//!
//! All coordinates are integers. A caller that works in pixels scales them by a
//! fixed factor; ray directions are integer vectors whose length is that factor.

pub mod geometry;
pub mod lighting;
pub mod resources;
pub mod tracing;
pub mod selection;
pub mod frame;
pub mod level_configuration;
pub mod sprites;
pub mod movement;
