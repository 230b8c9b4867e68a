//! The per-type capability: a type describes its own shape, and lists the
//! paths of its leaves from it.
use vstd::prelude::*;
use core::marker::PhantomData;
use crate::flatten::{
    contribution,
    elements_paths,
    indexed_paths,
    optional_segment,
    paths_of,
    resolve,
};
use crate::path::decimal;
use crate::shape::Shape;

verus! {

/// The paths of a type's leaves, for a type that lists them itself.
pub trait StructReflection {
    /// The paths of this type's leaves, or `None` for a type without inner
    /// structure.
    fn struct_reflection() -> Option<Vec<String>>;
}

/// A type that describes its own shape; its leaves' paths follow from that
/// shape by [`resolve`].
///
/// A record describes itself as `Shape::Record` (or, with positional fields,
/// as `Shape::Tuple`) over the shapes of its field types, using
/// `Shape::GenericOpaque` for a field whose type is one of its own type
/// parameters. Its `spec_paths` is then the concatenation of its fields'
/// contributions (see `contribution`).
///
/// By default a type is a leaf: it has no paths of its own and is no marker.
/// A type with inner structure defines `spec_paths` (and a marker
/// `spec_marker`), and its `shape` is held to them. An impl written outside
/// verified code must keep the two consistent itself.
pub trait StructReflectionHelper {
    /// The paths of this type's leaves, as `paths_of` gives them for its
    /// shape: `None` for a type without inner structure.
    open spec fn spec_paths() -> Option<Seq<Seq<char>>> {
        None
    }

    /// Whether this type is a zero-size marker.
    open spec fn spec_marker() -> bool {
        false
    }

    /// The shape of this type.
    fn shape() -> (s: Shape)
        ensures
            paths_of(s) == Self::spec_paths(),
            Self::spec_marker() <==> s is Marker,
    ;

    /// The paths of this type's leaves: those that [`resolve`] gives for
    /// [`Self::shape`].
    fn struct_reflection() -> (r: Option<Vec<String>>)
        ensures
            r.deep_view() == Self::spec_paths(),
    {
        resolve(&Self::shape())
    }
}

impl StructReflectionHelper for bool {
    fn shape() -> (s: Shape) {
        Shape::Leaf
    }
}

impl StructReflectionHelper for char {
    fn shape() -> (s: Shape) {
        Shape::Leaf
    }
}

impl StructReflectionHelper for u8 {
    fn shape() -> (s: Shape) {
        Shape::Leaf
    }
}

impl StructReflectionHelper for u16 {
    fn shape() -> (s: Shape) {
        Shape::Leaf
    }
}

impl StructReflectionHelper for u32 {
    fn shape() -> (s: Shape) {
        Shape::Leaf
    }
}

impl StructReflectionHelper for u64 {
    fn shape() -> (s: Shape) {
        Shape::Leaf
    }
}

impl StructReflectionHelper for u128 {
    fn shape() -> (s: Shape) {
        Shape::Leaf
    }
}

impl StructReflectionHelper for usize {
    fn shape() -> (s: Shape) {
        Shape::Leaf
    }
}

impl StructReflectionHelper for i8 {
    fn shape() -> (s: Shape) {
        Shape::Leaf
    }
}

impl StructReflectionHelper for i16 {
    fn shape() -> (s: Shape) {
        Shape::Leaf
    }
}

impl StructReflectionHelper for i32 {
    fn shape() -> (s: Shape) {
        Shape::Leaf
    }
}

impl StructReflectionHelper for i64 {
    fn shape() -> (s: Shape) {
        Shape::Leaf
    }
}

impl StructReflectionHelper for i128 {
    fn shape() -> (s: Shape) {
        Shape::Leaf
    }
}

impl StructReflectionHelper for isize {
    fn shape() -> (s: Shape) {
        Shape::Leaf
    }
}

impl StructReflectionHelper for String {
    fn shape() -> (s: Shape) {
        Shape::Leaf
    }
}

impl<T: StructReflectionHelper, const N: usize> StructReflectionHelper for [T; N] {
    open spec fn spec_paths() -> Option<Seq<Seq<char>>> {
        Some(indexed_paths(T::spec_marker(), T::spec_paths(), N as nat))
    }

    fn shape() -> (s: Shape) {
        Shape::Array(Box::new(T::shape()), N)
    }
}

impl<T: StructReflectionHelper> StructReflectionHelper for Option<T> {
    open spec fn spec_paths() -> Option<Seq<Seq<char>>> {
        Some(seq![optional_segment()])
    }

    fn shape() -> (s: Shape) {
        Shape::Optional(Box::new(T::shape()))
    }
}

impl<T> StructReflectionHelper for PhantomData<T> {
    open spec fn spec_marker() -> bool {
        true
    }

    fn shape() -> (s: Shape) {
        assert(Self::spec_marker());
        Shape::Marker
    }
}

impl<A: StructReflectionHelper, B: StructReflectionHelper> StructReflectionHelper for (A, B) {
    open spec fn spec_paths() -> Option<Seq<Seq<char>>> {
        Some(
            contribution(decimal(0), A::spec_marker(), A::spec_paths()) + contribution(
                decimal(1),
                B::spec_marker(),
                B::spec_paths(),
            ),
        )
    }

    fn shape() -> (s: Shape) {
        let a = A::shape();
        let b = B::shape();
        let ghost (ga, gb) = (a, b);
        let mut elems: Vec<Shape> = Vec::new();
        elems.push(a);
        elems.push(b);
        proof {
            assert(elems@ =~= seq![ga, gb]);
            assert(elements_paths(elems@, 0) =~= Seq::<Seq<char>>::empty());
            let ca = contribution(decimal(0), A::spec_marker(), A::spec_paths());
            let cb = contribution(decimal(1), B::spec_marker(), B::spec_paths());
            assert(elements_paths(elems@, 1) =~= ca);
            assert(elements_paths(elems@, 2) =~= ca + cb);
        }
        Shape::Tuple(elems)
    }
}

impl<
    A: StructReflectionHelper,
    B: StructReflectionHelper,
    C: StructReflectionHelper,
> StructReflectionHelper for (A, B, C) {
    open spec fn spec_paths() -> Option<Seq<Seq<char>>> {
        Some(
            contribution(decimal(0), A::spec_marker(), A::spec_paths()) + contribution(
                decimal(1),
                B::spec_marker(),
                B::spec_paths(),
            ) + contribution(decimal(2), C::spec_marker(), C::spec_paths()),
        )
    }

    fn shape() -> (s: Shape) {
        let a = A::shape();
        let b = B::shape();
        let c = C::shape();
        let ghost (ga, gb, gc) = (a, b, c);
        let mut elems: Vec<Shape> = Vec::new();
        elems.push(a);
        elems.push(b);
        elems.push(c);
        proof {
            assert(elems@ =~= seq![ga, gb, gc]);
            assert(elements_paths(elems@, 0) =~= Seq::<Seq<char>>::empty());
            let ca = contribution(decimal(0), A::spec_marker(), A::spec_paths());
            let cb = contribution(decimal(1), B::spec_marker(), B::spec_paths());
            let cc = contribution(decimal(2), C::spec_marker(), C::spec_paths());
            assert(elements_paths(elems@, 1) =~= ca);
            assert(elements_paths(elems@, 2) =~= ca + cb);
            assert(elements_paths(elems@, 3) =~= ca + cb + cc);
        }
        Shape::Tuple(elems)
    }
}

} // verus!
