//! Decoders for the asset formats and the plain data they produce.
//!
//! - `common`: pixels, images and vertices.
//! - `bmp`: BMP images.
//! - `rmod`: the engine's own binary model format.
//! - `obj`: the text and the whole numbers of OBJ files.

pub mod bmp;
pub mod common;
pub mod obj;
pub mod rmod;
