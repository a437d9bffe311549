//! The shape: a store of geometry and topology, and the handles into it.

pub mod handle;
pub mod store;
pub mod validation;

pub use self::handle::{handle_at, Handle};
pub use self::store::{Shape, ShapeView};
pub use self::validation::ValidationError;
