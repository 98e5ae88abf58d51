//! Normalization core of a vector-graphics toolkit.
//!
//! The crate resolves conditional content, lays text out into path
//! primitives, moves paint servers that are defined relative to a bounding
//! box into user space, and keeps a pool of reusable drawing surfaces.
//! All coordinates are whole user units held in `i64`; sums and products
//! saturate at the ends of that range.

pub mod scalar;
pub mod geom;
pub mod tree;
pub mod normalize;
pub mod text_model;
pub mod text_layout;
pub mod text_chunks;
pub mod text;
pub mod layers;
pub mod switch;
