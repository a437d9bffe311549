//! Geometry: points that know where they lie in model space, curves and
//! surfaces.

pub mod curve;
pub mod point;
pub mod surface;

pub use self::curve::{Curve, Line};
pub use self::point::Point;
pub use self::surface::{Surface, SweptCurve};
