//! Texture baking support: per-texel addressing, combining of per-camera
//! texture layers and hole filling, all over integer pixel data.

pub mod color;
pub mod texture;
pub mod blend;
pub mod combine;
pub mod fill;
pub mod texel;
