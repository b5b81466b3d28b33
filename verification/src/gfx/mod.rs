//! Device-side geometry storage and the scene around it.
//!
//! - `layout`: how a flat array of vertex components decomposes into
//!   attributes.
//! - `pool`: a growing list of device buffers, each filled from the front.
//! - `pairing`: the cache of bindings, one for each pair of a vertex buffer
//!   and an index buffer.
//! - `arena`: the two pools and the cache together, with the generation
//!   counter that tells which mesh records are still good.
//! - `runs`: what holds of an arena after any sequence of calls.
//! - `model`: the geometry of a model and its interleaved vertex array.
//! - `slots`: the numbered slots of the cameras and lights of a scene.

pub mod arena;
pub mod layout;
pub mod model;
pub mod pairing;
pub mod pool;
pub mod runs;
pub mod slots;
