//! Coordinates, and the arithmetic on them that `fj_math` provides.

pub mod scalar;
pub mod vector;
pub mod transform;

pub use self::vector::{Point, Vector};
