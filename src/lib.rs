//! A compositing engine core: a tree of transformable layers, dirty-region
//! buffer requests per tile, tile texture lifetimes, a registry of shareable
//! native surfaces, and a display list for drawing the composited frame.

pub mod geometry;
pub mod layers;
pub mod render;
pub mod scene;
pub mod surface;
pub mod texture;
pub mod tiling;
