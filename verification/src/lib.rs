//! Renderable geometry and texture addressing for normal-mapped sprites.
//!
//! The library computes over exact rational scalars, so every contract
//! states the value a caller receives, not an approximation of it.

pub mod rat;
pub mod geom;
pub mod tangent;
pub mod quad;
pub mod atlas;
pub mod layout;
pub mod laws;
