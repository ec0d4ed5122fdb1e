//! Block-model resolution and mesh baking for a voxel renderer.
//!
//! The crate turns hierarchical block-model definitions (a model, its
//! parent chain, and texture-variable bindings) into GPU-ready mesh data:
//! it merges the parent chain with closest-wins inheritance, closes
//! texture-variable references to concrete texture ids, looks the ids up
//! in a texture atlas, and emits a fixed 24-vertex layout per cuboid
//! element together with per-face triangle indices and a cube/complex
//! classification used for neighbor-face culling.
//!
//! All geometry is carried in fixed-point model subunits (16 subunits per
//! model unit, so a full block spans 0..=256): every rotation a blockstate
//! variant may ask for is a quarter turn about the vertical axis, which is
//! exact in integer arithmetic. Conversion to floating-point GPU vertices
//! is left to the embedding renderer.

pub mod atlas;
pub mod error;
pub mod mesh;
pub mod model;
pub mod resolver;
pub mod resource;
pub mod state;
