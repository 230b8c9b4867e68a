//! The shape of a type: what flattening needs to know of it.
use vstd::prelude::*;

verus! {

/// How a type flattens.
///
/// A positional record (a tuple struct) flattens exactly as a tuple of its
/// field types does, and is described by `Tuple`.
pub enum Shape {
    /// A primitive scalar or textual type.
    Leaf,
    /// An unresolved type parameter: flattened as a leaf by the type that
    /// declares it, whatever is substituted for it later.
    GenericOpaque,
    /// A zero-size placeholder carrying no data.
    Marker,
    /// An optional wrapper around the inner type.
    Optional(Box<Shape>),
    /// A fixed heterogeneous sequence of element types, in positional order.
    Tuple(Vec<Shape>),
    /// A fixed-length homogeneous sequence: element type and length.
    Array(Box<Shape>, usize),
    /// A record with named fields, in declaration order.
    Record(Vec<Field>),
}

/// A named field of a record.
pub struct Field {
    pub name: String,
    pub shape: Shape,
}

impl Shape {
    /// Whether this is the shape of a zero-size marker.
    pub fn is_marker(&self) -> (r: bool)
        ensures
            r == (*self is Marker),
    {
        matches!(self, Shape::Marker)
    }
}

impl Field {
    /// A field called `name` of the given shape.
    pub fn new(name: &str, shape: Shape) -> (r: Field)
        ensures
            r.name@ == name@,
            r.shape == shape,
    {
        Field { name: String::from_str(name), shape }
    }
}

} // verus!
