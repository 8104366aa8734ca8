//! A terminal cube renderer, modelled in fixed-point arithmetic.
//!
//! Points live on an integer grid: one world unit is `SCALE` raw units.
//! Rotation, perspective projection and depth-buffered rasterization are
//! all integer computations with exact contracts; the caller supplies each
//! rotation angle as a (cosine, sine) pair scaled by `SCALE`.

pub mod render;
pub mod vector;
