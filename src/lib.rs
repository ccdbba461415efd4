//! Verified core of a guided-local-search separator for irregular strip packing.
//!
//! Geometry (overlap proxies, collision detection) is computed by the caller;
//! the quantities handed to this library are non-negative fixed-point integers.
pub mod sample_eval;
pub mod best_samples;
pub mod pair_matrix;
pub mod tracker;
pub mod evaluator;
pub mod terminator;
pub mod color;
pub mod separator;
pub mod driver;
pub mod sampler;
