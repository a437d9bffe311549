//! Algorithms over shapes: approximation of cycles, and sweeping.

pub mod approximation;
pub mod sweep;

pub use self::approximation::approximate_cycle;
pub use self::sweep::{can_sweep, sweep_shape, try_sweep_shape};
