//! Properties of flattening that hold for every shape of a given form.
use vstd::prelude::*;
use crate::path::{decimal, is_under, join, other_index_not_under};
use crate::flatten::{
    contribution,
    elements_paths,
    fields_paths,
    indexed_paths,
    member_paths,
    optional_segment,
    paths_of,
    prefixed,
};
use crate::reflect::StructReflectionHelper;
use crate::shape::{Field, Shape};

verus! {

/// Whether a shape flattens as a single leaf: a leaf or a type parameter.
pub open spec fn is_leaf_like(s: Shape) -> bool {
    s is Leaf || s is GenericOpaque
}

proof fn leaf_fields_prefix(fields: Seq<Field>, k: nat)
    requires
        k <= fields.len(),
        forall|i: int| 0 <= i < fields.len() ==> is_leaf_like(#[trigger] fields[i].shape),
    ensures
        fields_paths(fields, k) == Seq::new(k, |i: int| fields[i].name@),
    decreases k,
{
    if k > 0 {
        leaf_fields_prefix(fields, (k - 1) as nat);
        assert(is_leaf_like(fields[k - 1].shape));
        assert(paths_of(fields[k - 1].shape) == None::<Seq<Seq<char>>>);
        assert(fields_paths(fields, k) =~= Seq::new(k, |i: int| fields[i].name@));
    }
}

/// A record whose fields are all leaves flattens to its field names, in
/// declaration order, unmodified.
pub proof fn leaf_record_lists_field_names(fields: Vec<Field>)
    requires
        forall|i: int| 0 <= i < fields@.len() ==> is_leaf_like(#[trigger] fields@[i].shape),
    ensures
        paths_of(Shape::Record(fields)) == Some(Seq::new(fields@.len(), |i: int| fields@[i].name@)),
{
    leaf_fields_prefix(fields@, fields@.len());
}

proof fn leaf_indices_prefix(k: nat)
    ensures
        indexed_paths(false, None, k) == Seq::new(k, |i: int| decimal(i as nat)),
    decreases k,
{
    if k > 0 {
        leaf_indices_prefix((k - 1) as nat);
        assert(indexed_paths(false, None, k) =~= Seq::new(k, |i: int| decimal(i as nat)));
    }
}

/// An array of `n` leaves flattens to the indices `0` to `n - 1`, in
/// ascending order and with no further nesting; as a member labelled `label`
/// it contributes those indices suffixed onto `label`.
pub proof fn leaf_array_lists_indices(label: Seq<char>, elem: Shape, n: usize)
    requires
        is_leaf_like(elem),
    ensures
        paths_of(Shape::Array(Box::new(elem), n)) == Some(
            Seq::new(n as nat, |i: int| decimal(i as nat)),
        ),
        member_paths(label, Shape::Array(Box::new(elem), n)) == Seq::new(
            n as nat,
            |i: int| join(label, decimal(i as nat)),
        ),
{
    leaf_indices_prefix(n as nat);
    assert(paths_of(elem) == None::<Seq<Seq<char>>>);
    assert(paths_of(Shape::Array(Box::new(elem), n)) == Some(indexed_paths(false, None, n as nat)));
    assert(member_paths(label, Shape::Array(Box::new(elem), n)) =~= Seq::new(
        n as nat,
        |i: int| join(label, decimal(i as nat)),
    ));
}

proof fn grid_prefix(inner: Seq<Seq<char>>, k: nat, t: nat)
    requires
        inner == Seq::new(k, |j: int| decimal(j as nat)),
    ensures
        indexed_paths(false, Some(inner), t).len() == t * k,
        forall|i: int, j: int|
            0 <= i < t && 0 <= j < k ==> #[trigger] indexed_paths(false, Some(inner), t)[i * k
                + j] == join(decimal(i as nat), decimal(j as nat)),
    decreases t,
{
    if t > 0 {
        let prev = indexed_paths(false, Some(inner), (t - 1) as nat);
        let row = prefixed(decimal((t - 1) as nat), inner);
        grid_prefix(inner, k, (t - 1) as nat);
        assert(indexed_paths(false, Some(inner), t) == prev + row);
        assert(t * k == (t - 1) * k + k) by (nonlinear_arith);
        assert(row.len() == k);
        assert(indexed_paths(false, Some(inner), t).len() == t * k);
        assert forall|i: int, j: int| 0 <= i < t && 0 <= j < k implies #[trigger] indexed_paths(
            false,
            Some(inner),
            t,
        )[i * k + j] == join(decimal(i as nat), decimal(j as nat)) by {
            if i < t - 1 {
                assert(i * k + j < (t - 1) * k) by (nonlinear_arith)
                    requires
                        0 <= i < t - 1,
                        0 <= j < k,
                ;
                assert(0 <= i * k) by (nonlinear_arith)
                    requires
                        0 <= i,
                        0 <= k,
                ;
            } else {
                assert(i * k == (t - 1) * k);
            }
        }
    } else {
        assert(t * k == 0);
    }
}

/// An `m` by `k` array of arrays of leaves flattens to `m * k` paths, outer
/// index major and inner index minor: the path at `i * k + j` is `i` joined
/// to `j`.
pub proof fn leaf_grid_is_row_major(elem: Shape, m: usize, k: usize)
    requires
        is_leaf_like(elem),
    ensures
        paths_of(Shape::Array(Box::new(Shape::Array(Box::new(elem), k)), m)) matches Some(ps) && {
            &&& ps.len() == m * k
            &&& forall|i: int, j: int|
                0 <= i < m && 0 <= j < k ==> #[trigger] ps[i * k + j] == join(
                    decimal(i as nat),
                    decimal(j as nat),
                )
        },
{
    let row = Shape::Array(Box::new(elem), k);
    let inner = Seq::new(k as nat, |j: int| decimal(j as nat));
    leaf_array_lists_indices(Seq::empty(), elem, k);
    assert(paths_of(Shape::Array(Box::new(row), m)) == Some(
        indexed_paths(false, Some(inner), m as nat),
    ));
    grid_prefix(inner, k as nat, m as nat);
}

/// A member of optional shape contributes exactly one path, its label
/// followed by the segment `optional`, whatever the wrapped shape is.
pub proof fn optional_member_is_one_path(label: Seq<char>, inner: Shape)
    ensures
        paths_of(Shape::Optional(Box::new(inner))) == Some(seq![optional_segment()]),
        member_paths(label, Shape::Optional(Box::new(inner))) == seq![
            join(label, optional_segment()),
        ],
{
    assert(member_paths(label, Shape::Optional(Box::new(inner))) =~= seq![
        join(label, optional_segment()),
    ]);
}

/// A member of marker shape contributes no path.
pub proof fn marker_member_is_empty(label: Seq<char>)
    ensures
        paths_of(Shape::Marker) == None::<Seq<Seq<char>>>,
        member_paths(label, Shape::Marker) == Seq::<Seq<char>>::empty(),
{
}

proof fn marker_indices_prefix(inner: Option<Seq<Seq<char>>>, k: nat)
    ensures
        indexed_paths(true, inner, k) == Seq::<Seq<char>>::empty(),
    decreases k,
{
    if k > 0 {
        marker_indices_prefix(inner, (k - 1) as nat);
        assert(indexed_paths(true, inner, k) =~= Seq::<Seq<char>>::empty());
    }
}

/// An array of markers has no paths, and contributes none as a member.
pub proof fn marker_array_is_empty(label: Seq<char>, n: usize)
    ensures
        paths_of(Shape::Array(Box::new(Shape::Marker), n)) == Some(Seq::<Seq<char>>::empty()),
        member_paths(label, Shape::Array(Box::new(Shape::Marker), n)) == Seq::<
            Seq<char>,
        >::empty(),
{
    marker_indices_prefix(None, n as nat);
    assert(paths_of(Shape::Marker) == None::<Seq<Seq<char>>>);
    assert(paths_of(Shape::Array(Box::new(Shape::Marker), n)) == Some(
        indexed_paths(true, None, n as nat),
    ));
    assert(prefixed(label, Seq::<Seq<char>>::empty()) =~= Seq::<Seq<char>>::empty());
}

proof fn marker_elements_prefix(elems: Seq<Shape>, k: nat)
    requires
        forall|i: int| 0 <= i < elems.len() ==> #[trigger] elems[i] is Marker,
    ensures
        elements_paths(elems, k) == Seq::<Seq<char>>::empty(),
    decreases k,
{
    if k > 0 && k <= elems.len() {
        marker_elements_prefix(elems, (k - 1) as nat);
        assert(elems[k - 1] is Marker);
        assert(elements_paths(elems, k) =~= Seq::<Seq<char>>::empty());
    }
}

/// A tuple whose elements are all markers has no paths, and contributes
/// none as a member.
pub proof fn marker_tuple_is_empty(label: Seq<char>, elems: Vec<Shape>)
    requires
        forall|i: int| 0 <= i < elems@.len() ==> #[trigger] elems@[i] is Marker,
    ensures
        paths_of(Shape::Tuple(elems)) == Some(Seq::<Seq<char>>::empty()),
        member_paths(label, Shape::Tuple(elems)) == Seq::<Seq<char>>::empty(),
{
    marker_elements_prefix(elems@, elems@.len());
    assert(prefixed(label, Seq::<Seq<char>>::empty()) =~= Seq::<Seq<char>>::empty());
}

proof fn marker_element_prefix(elems: Seq<Shape>, j: nat, k: nat)
    requires
        j < elems.len(),
        elems[j as int] is Marker,
    ensures
        forall|x: int|
            0 <= x < elements_paths(elems, k).len() ==> !is_under(
                #[trigger] elements_paths(elems, k)[x],
                decimal(j),
            ),
    decreases k,
{
    if k > 0 && k <= elems.len() {
        marker_element_prefix(elems, j, (k - 1) as nat);
        let i = (k - 1) as nat;
        let e = elems[i as int];
        let prev = elements_paths(elems, i);
        let c = contribution(decimal(i), e is Marker, paths_of(e));
        assert(elements_paths(elems, k) == prev + c);
        assert forall|x: int| 0 <= x < elements_paths(elems, k).len() implies !is_under(
            #[trigger] elements_paths(elems, k)[x],
            decimal(j),
        ) by {
            if x < prev.len() {
                assert(elements_paths(elems, k)[x] == prev[x]);
            } else {
                let y = x - prev.len();
                assert(elements_paths(elems, k)[x] == c[y]);
                assert(i != j);
                match paths_of(e) {
                    None => {
                        other_index_not_under(i, j, Seq::empty());
                    },
                    Some(ps) => {
                        other_index_not_under(i, j, ps[y]);
                    },
                }
            }
        }
    }
}

/// In a tuple, a marker element adds no path under its position: no path of
/// the tuple is the element's index, or begins with that index and the
/// separator.
pub proof fn marker_element_adds_nothing(elems: Vec<Shape>, j: usize)
    requires
        j < elems@.len(),
        elems@[j as int] is Marker,
    ensures
        paths_of(Shape::Tuple(elems)) matches Some(ps) && forall|x: int|
            0 <= x < ps.len() ==> !is_under(#[trigger] ps[x], decimal(j as nat)),
{
    marker_element_prefix(elems@, j as nat, elems@.len());
    let ps = elements_paths(elems@, elems@.len());
    assert(paths_of(Shape::Tuple(elems)) == Some(ps));
    assert forall|x: int| 0 <= x < ps.len() implies !is_under(#[trigger] ps[x], decimal(j as nat)) by {
    }
}

/// Whether a field's shape is not a marker.
pub open spec fn carries_data(f: Field) -> bool {
    !(f.shape is Marker)
}

proof fn fields_paths_same_prefix(a: Seq<Field>, b: Seq<Field>, k: nat)
    requires
        k <= a.len(),
        k <= b.len(),
        a.take(k as int) == b.take(k as int),
    ensures
        fields_paths(a, k) == fields_paths(b, k),
    decreases k,
{
    if k > 0 {
        assert(a.take(k - 1) =~= a.take(k as int).take(k - 1));
        assert(b.take(k - 1) =~= b.take(k as int).take(k - 1));
        assert(a[k - 1] == a.take(k as int)[k - 1]);
        assert(b[k - 1] == b.take(k as int)[k - 1]);
        fields_paths_same_prefix(a, b, (k - 1) as nat);
    }
}

proof fn markers_removed(fields: Seq<Field>)
    ensures
        fields_paths(fields, fields.len()) == fields_paths(
            fields.filter(|f: Field| carries_data(f)),
            fields.filter(|f: Field| carries_data(f)).len(),
        ),
    decreases fields.len(),
{
    let p = |f: Field| carries_data(f);
    if fields.len() > 0 {
        let init = fields.drop_last();
        let x = fields.last();
        let kept = init.filter(p);
        markers_removed(init);
        assert(fields.take(init.len() as int) =~= init.take(init.len() as int));
        fields_paths_same_prefix(fields, init, init.len());
        reveal(Seq::filter);
        assert(fields.filter(p) == if p(x) {
            kept.push(x)
        } else {
            kept
        });
        if p(x) {
            let all = kept.push(x);
            assert(all.take(kept.len() as int) =~= kept.take(kept.len() as int));
            fields_paths_same_prefix(all, kept, kept.len());
        } else {
            assert(fields_paths(fields, fields.len()) =~= fields_paths(init, init.len()));
        }
    } else {
        reveal(Seq::filter);
    }
}

/// A record flattens exactly as the record made of its fields that are not
/// markers, in their original relative order: marker fields add nothing.
pub proof fn marker_fields_add_nothing(fields: Vec<Field>, kept: Vec<Field>)
    requires
        kept@ == fields@.filter(|f: Field| carries_data(f)),
    ensures
        paths_of(Shape::Record(fields)) == paths_of(Shape::Record(kept)),
{
    markers_removed(fields@);
}

proof fn marker_fields_prefix(fields: Seq<Field>, k: nat)
    requires
        forall|i: int| 0 <= i < fields.len() ==> #[trigger] fields[i].shape is Marker,
    ensures
        fields_paths(fields, k) == Seq::<Seq<char>>::empty(),
    decreases k,
{
    if k > 0 && k <= fields.len() {
        marker_fields_prefix(fields, (k - 1) as nat);
        assert(fields[k - 1].shape is Marker);
        assert(fields_paths(fields, k) =~= Seq::<Seq<char>>::empty());
    }
}

/// A record whose fields are all markers has no paths, and contributes none
/// as a member.
pub proof fn marker_record_is_empty(label: Seq<char>, fields: Vec<Field>)
    requires
        forall|i: int| 0 <= i < fields@.len() ==> #[trigger] fields@[i].shape is Marker,
    ensures
        paths_of(Shape::Record(fields)) == Some(Seq::<Seq<char>>::empty()),
        member_paths(label, Shape::Record(fields)) == Seq::<Seq<char>>::empty(),
{
    marker_fields_prefix(fields@, fields@.len());
    assert(prefixed(label, Seq::<Seq<char>>::empty()) =~= Seq::<Seq<char>>::empty());
}

/// Two calls of a type's `struct_reflection` give equal path lists: the
/// same variant, the same length and equal strings in the same order. The
/// list depends on the type alone.
pub proof fn struct_reflection_is_repeatable<T: StructReflectionHelper>(
    first: Option<Vec<String>>,
    second: Option<Vec<String>>,
)
    requires
        call_ensures(T::struct_reflection, (), first),
        call_ensures(T::struct_reflection, (), second),
    ensures
        first.deep_view() == second.deep_view(),
        first is Some <==> second is Some,
        first is Some ==> first->0@.len() == second->0@.len(),
{
    if first is Some {
        assert(first->0.deep_view().len() == first->0@.len());
        assert(second->0.deep_view().len() == second->0@.len());
    }
}

/// Two types that describe themselves by the same shape list the same
/// paths. In particular a generic record lists the same paths for every
/// instantiation of its type parameters, since a field of parameter type is
/// described as `GenericOpaque` whatever is substituted for it.
pub proof fn same_shape_same_paths<T: StructReflectionHelper, U: StructReflectionHelper>(
    s: Shape,
    t: Shape,
    from_t: Option<Vec<String>>,
    from_u: Option<Vec<String>>,
)
    requires
        call_ensures(T::shape, (), s),
        call_ensures(U::shape, (), t),
        s == t,
        call_ensures(T::struct_reflection, (), from_t),
        call_ensures(U::struct_reflection, (), from_u),
    ensures
        from_t.deep_view() == from_u.deep_view(),
{
}

/// A type that describes itself as a record of leaf fields lists exactly
/// its field names, in declaration order, unmodified.
pub proof fn leaf_record_type_lists_field_names<T: StructReflectionHelper>(
    fields: Vec<Field>,
    r: Option<Vec<String>>,
)
    requires
        call_ensures(T::shape, (), Shape::Record(fields)),
        forall|i: int| 0 <= i < fields@.len() ==> is_leaf_like(#[trigger] fields@[i].shape),
        call_ensures(T::struct_reflection, (), r),
    ensures
        r.deep_view() == Some(Seq::new(fields@.len(), |i: int| fields@[i].name@)),
{
    leaf_record_lists_field_names(fields);
}

/// A type described as a record lists the same paths as a type described
/// as the same record with its marker fields deleted, the others kept in
/// order.
pub proof fn marker_fields_add_nothing_to_type<
    T: StructReflectionHelper,
    U: StructReflectionHelper,
>(
    fields: Vec<Field>,
    kept: Vec<Field>,
    from_t: Option<Vec<String>>,
    from_u: Option<Vec<String>>,
)
    requires
        call_ensures(T::shape, (), Shape::Record(fields)),
        call_ensures(U::shape, (), Shape::Record(kept)),
        kept@ == fields@.filter(|f: Field| carries_data(f)),
        call_ensures(T::struct_reflection, (), from_t),
        call_ensures(U::struct_reflection, (), from_u),
    ensures
        from_t.deep_view() == from_u.deep_view(),
{
    marker_fields_add_nothing(fields, kept);
}

/// A type described as a record whose fields are all markers, or that has
/// no fields, lists no paths: `Some` of the empty list, never `None`.
pub proof fn marker_record_type_is_empty<T: StructReflectionHelper>(
    fields: Vec<Field>,
    r: Option<Vec<String>>,
)
    requires
        call_ensures(T::shape, (), Shape::Record(fields)),
        forall|i: int| 0 <= i < fields@.len() ==> #[trigger] fields@[i].shape is Marker,
        call_ensures(T::struct_reflection, (), r),
    ensures
        r.deep_view() == Some(Seq::<Seq<char>>::empty()),
{
    marker_record_is_empty(Seq::empty(), fields);
}

} // verus!
