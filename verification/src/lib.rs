//! A boundary-representation kernel: shapes are graphs of vertices, edges,
//! cycles and faces over curves and surfaces, kept in a store that hands out
//! handles. New shapes are derived from existing ones by sweeping.
//!
//! All arithmetic on coordinates is done by `fj_math`. This crate carries the
//! scalars through and reasons about them by their bit patterns.

pub mod algorithms;
pub mod geometry;
pub mod math;
pub mod mesh;
pub mod shape;
pub mod topology;

pub use algorithms::{approximate_cycle, sweep_shape};
pub use mesh::Mesh;
pub use shape::{Handle, Shape, ValidationError};
