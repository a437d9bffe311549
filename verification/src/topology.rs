//! Topology: the vertices, edges, cycles and faces that bound a shape.
//!
//! Edges, cycles and faces refer to other objects by handles into the shape
//! that holds them.

pub mod compare;
pub mod edges;
pub mod faces;
pub mod vertices;

pub use self::compare::{cycles_same, edges_same, faces_same};
pub use self::edges::{Cycle, Edge};
pub use self::faces::{Face, Triangle};
pub use self::vertices::{Vertex, Vertices};
