//! Resolution of a shape into the paths of its leaves, and the rules that
//! compose a container's paths from those of its members.
use vstd::prelude::*;
use crate::path::{decimal, index_label, join, join_path};
use crate::shape::{Field, Shape};

verus! {

/// The single segment that stands for an optional value: `"optional"`.
pub open spec fn optional_segment() -> Seq<char> {
    seq!['o', 'p', 't', 'i', 'o', 'n', 'a', 'l']
}

/// Each of `paths`, with `label` and the separator in front.
pub open spec fn prefixed(label: Seq<char>, paths: Seq<Seq<char>>) -> Seq<Seq<char>> {
    Seq::new(paths.len(), |i: int| join(label, paths[i]))
}

/// What a member labelled `label` adds to its container's paths, given
/// whether its type is a marker and what its type resolves to: nothing for a
/// marker; the label alone for a type that resolves to no paths; otherwise
/// the label prefixed to each of the member's own paths.
pub open spec fn contribution(
    label: Seq<char>,
    marker: bool,
    inner: Option<Seq<Seq<char>>>,
) -> Seq<Seq<char>> {
    if marker {
        seq![]
    } else {
        match inner {
            None => seq![label],
            Some(paths) => prefixed(label, paths),
        }
    }
}

/// The paths of a type of shape `s`: `None` for a leaf, a generic parameter
/// or a marker, which have no inner structure; otherwise the paths of all its
/// leaves, in order.
pub open spec fn paths_of(s: Shape) -> Option<Seq<Seq<char>>>
    decreases s, 0nat,
{
    match s {
        Shape::Leaf => None,
        Shape::GenericOpaque => None,
        Shape::Marker => None,
        Shape::Optional(_) => Some(seq![optional_segment()]),
        Shape::Tuple(elems) => Some(elements_paths(elems@, elems@.len())),
        Shape::Array(elem, n) => Some(indexed_paths(*elem is Marker, paths_of(*elem), n as nat)),
        Shape::Record(fields) => Some(fields_paths(fields@, fields@.len())),
    }
}

/// The paths contributed by the first `k` elements of a tuple, each
/// labelled by its position.
pub open spec fn elements_paths(elems: Seq<Shape>, k: nat) -> Seq<Seq<char>>
    decreases elems, k,
{
    if k == 0 || k > elems.len() {
        seq![]
    } else {
        let e = elems[k - 1];
        elements_paths(elems, (k - 1) as nat) + contribution(
            decimal((k - 1) as nat),
            e is Marker,
            paths_of(e),
        )
    }
}

/// The paths contributed by the first `n` elements of an array, each
/// labelled by its index, given whether the element type is a marker and
/// what it resolves to.
pub open spec fn indexed_paths(
    marker: bool,
    inner: Option<Seq<Seq<char>>>,
    n: nat,
) -> Seq<Seq<char>>
    decreases n,
{
    if n == 0 {
        seq![]
    } else {
        indexed_paths(marker, inner, (n - 1) as nat) + contribution(
            decimal((n - 1) as nat),
            marker,
            inner,
        )
    }
}

/// The paths contributed by the first `k` fields of a record, each labelled
/// by its name.
pub open spec fn fields_paths(fields: Seq<Field>, k: nat) -> Seq<Seq<char>>
    decreases fields, k,
{
    if k == 0 || k > fields.len() {
        seq![]
    } else {
        let f = fields[k - 1];
        fields_paths(fields, (k - 1) as nat) + contribution(
            f.name@,
            f.shape is Marker,
            paths_of(f.shape),
        )
    }
}

/// What a member labelled `label` of shape `s` adds to its container.
pub open spec fn member_paths(label: Seq<char>, s: Shape) -> Seq<Seq<char>> {
    contribution(label, s is Marker, paths_of(s))
}

/// Appends to `out` what a member labelled `label` adds to its container,
/// given whether its type is a marker and what its type resolved to.
pub fn push_contribution(
    out: &mut Vec<String>,
    label: &str,
    marker: bool,
    inner: &Option<Vec<String>>,
)
    ensures
        final(out).deep_view() == old(out).deep_view() + contribution(
            label@,
            marker,
            inner.deep_view(),
        ),
{
    if marker {
        assert(old(out).deep_view() + seq![] =~= old(out).deep_view());
        return;
    }
    match inner {
        None => {
            out.push(String::from_str(label));
            assert(final(out).deep_view() =~= old(out).deep_view() + seq![label@]);
        },
        Some(paths) => {
            let ghost start = out.deep_view();
            let mut i: usize = 0;
            while i < paths.len()
                invariant
                    i <= paths.len(),
                    out.deep_view() == start + prefixed(label@, paths.deep_view().take(i as int)),
                decreases paths.len() - i,
            {
                let p = join_path(label, paths[i].as_str());
                let ghost prev = out.deep_view();
                let ghost q = p@;
                out.push(p);
                assert(out.deep_view() =~= prev.push(q));
                i = i + 1;
                assert(prefixed(label@, paths.deep_view().take(i as int)) =~= prefixed(
                    label@,
                    paths.deep_view().take(i - 1),
                ).push(join(label@, paths.deep_view()[i - 1])));
                assert(out.deep_view() =~= start + prefixed(label@, paths.deep_view().take(i as int)));
            }
            assert(paths.deep_view().take(i as int) =~= paths.deep_view());
        },
    }
}

/// Appends to `out` the paths of the `n` elements of an array, given
/// whether the element type is a marker and what it resolved to.
pub fn push_indexed(out: &mut Vec<String>, marker: bool, inner: &Option<Vec<String>>, n: usize)
    ensures
        final(out).deep_view() == old(out).deep_view() + indexed_paths(
            marker,
            inner.deep_view(),
            n as nat,
        ),
{
    let ghost start = out.deep_view();
    let mut i: usize = 0;
    assert(start + indexed_paths(marker, inner.deep_view(), 0) =~= start);
    while i < n
        invariant
            i <= n,
            out.deep_view() == start + indexed_paths(marker, inner.deep_view(), i as nat),
        decreases n - i,
    {
        let label = index_label(i);
        push_contribution(out, label.as_str(), marker, inner);
        i = i + 1;
        assert(out.deep_view() =~= start + indexed_paths(marker, inner.deep_view(), i as nat));
    }
}

/// Appends to `out` the paths of the elements of a tuple, each labelled by
/// its position.
fn push_elements(out: &mut Vec<String>, elems: &Vec<Shape>)
    ensures
        final(out).deep_view() == old(out).deep_view() + elements_paths(elems@, elems@.len()),
    decreases elems,
{
    let ghost start = out.deep_view();
    let mut i: usize = 0;
    assert(start + elements_paths(elems@, 0) =~= start);
    while i < elems.len()
        invariant
            i <= elems.len(),
            out.deep_view() == start + elements_paths(elems@, i as nat),
        decreases elems.len() - i,
    {
        let e = &elems[i];
        let inner = resolve(e);
        let label = index_label(i);
        push_contribution(out, label.as_str(), e.is_marker(), &inner);
        i = i + 1;
        assert(out.deep_view() =~= start + elements_paths(elems@, i as nat));
    }
}

/// Appends to `out` the paths of the fields of a record, each labelled by its
/// name.
fn push_fields(out: &mut Vec<String>, fields: &Vec<Field>)
    ensures
        final(out).deep_view() == old(out).deep_view() + fields_paths(fields@, fields@.len()),
    decreases fields,
{
    let ghost start = out.deep_view();
    let mut i: usize = 0;
    assert(start + fields_paths(fields@, 0) =~= start);
    while i < fields.len()
        invariant
            i <= fields.len(),
            out.deep_view() == start + fields_paths(fields@, i as nat),
        decreases fields.len() - i,
    {
        let f = &fields[i];
        let inner = resolve(&f.shape);
        push_contribution(out, f.name.as_str(), f.shape.is_marker(), &inner);
        i = i + 1;
        assert(out.deep_view() =~= start + fields_paths(fields@, i as nat));
    }
}

/// The paths of the leaves of a type of the given shape: `None` for a leaf,
/// a generic parameter or a marker, and for any other shape the full,
/// separator-joined path of each leaf, in declaration, positional and index
/// order.
pub fn resolve(shape: &Shape) -> (r: Option<Vec<String>>)
    ensures
        r.deep_view() == paths_of(*shape),
    decreases shape,
{
    match shape {
        Shape::Leaf => None,
        Shape::GenericOpaque => None,
        Shape::Marker => None,
        Shape::Optional(_) => {
            let text = "optional";
            proof {
                reveal_strlit("optional");
                assert(text@ =~= optional_segment());
            }
            let mut out: Vec<String> = Vec::new();
            out.push(String::from_str(text));
            assert(out.deep_view() =~= seq![optional_segment()]);
            Some(out)
        },
        Shape::Tuple(elems) => {
            let mut out: Vec<String> = Vec::new();
            push_elements(&mut out, elems);
            assert(out.deep_view() =~= elements_paths(elems@, elems@.len()));
            Some(out)
        },
        Shape::Array(elem, n) => {
            let inner = resolve(elem);
            let mut out: Vec<String> = Vec::new();
            push_indexed(&mut out, elem.is_marker(), &inner, *n);
            assert(out.deep_view() =~= indexed_paths(**elem is Marker, paths_of(**elem), *n as nat));
            Some(out)
        },
        Shape::Record(fields) => {
            let mut out: Vec<String> = Vec::new();
            push_fields(&mut out, fields);
            assert(out.deep_view() =~= fields_paths(fields@, fields@.len()));
            Some(out)
        },
    }
}

} // verus!
