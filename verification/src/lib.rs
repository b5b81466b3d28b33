//! Geometry storage for a real-time 3D renderer.
//!
//! `gfx` packs the vertex and index data of many meshes into a few large
//! device buffers and keeps track of where each mesh went. The library never
//! talks to the graphics device itself: every function that needs a device
//! object takes its handle as an argument and says in its result which device
//! work is left to the caller. `util` decodes the asset formats that supply
//! the meshes and their textures.

pub mod gfx;
pub mod util;
