//! Flattening of structured types into the access paths of their leaves.
pub mod flatten;
pub mod laws;
pub mod path;
pub mod reflect;
pub mod shape;

pub use reflect::{StructReflection, StructReflectionHelper};
pub use flatten::resolve;
pub use shape::{Field, Shape};
