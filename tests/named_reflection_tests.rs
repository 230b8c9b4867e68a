#![allow(dead_code)]
use std::marker::PhantomData;

use struct_reflection::{Field, Shape, StructReflectionHelper};

fn record(fields: Vec<Field>) -> Shape {
    Shape::Record(fields)
}

fn array(elem: Shape, n: usize) -> Shape {
    Shape::Array(Box::new(elem), n)
}

fn optional(inner: Shape) -> Shape {
    Shape::Optional(Box::new(inner))
}

fn tuple(elems: Vec<Shape>) -> Shape {
    Shape::Tuple(elems)
}

// Simple struct without generics
struct BasicStruct {
    field_one: i32,
    field_two: String,
    field_three: bool,
}

impl StructReflectionHelper for BasicStruct {
    fn shape() -> Shape {
        record(vec![
            Field::new("field_one", i32::shape()),
            Field::new("field_two", String::shape()),
            Field::new("field_three", bool::shape()),
        ])
    }
}

// Generic struct with one type parameter
struct GenericStruct<T> {
    data: T,
    count: usize,
    enabled: bool,
}

impl<T> StructReflectionHelper for GenericStruct<T> {
    fn shape() -> Shape {
        record(vec![
            Field::new("data", Shape::GenericOpaque),
            Field::new("count", usize::shape()),
            Field::new("enabled", bool::shape()),
        ])
    }
}

// Generic struct with multiple type parameters
struct MultiGenericStruct<T, U> {
    first_data: T,
    second_data: U,
    description: String,
}

impl<T, U> StructReflectionHelper for MultiGenericStruct<T, U> {
    fn shape() -> Shape {
        record(vec![
            Field::new("first_data", Shape::GenericOpaque),
            Field::new("second_data", Shape::GenericOpaque),
            Field::new("description", String::shape()),
        ])
    }
}

// Struct with nested struct
struct OuterStruct {
    name: String,
    inner: BasicStruct,
}

impl StructReflectionHelper for OuterStruct {
    fn shape() -> Shape {
        record(vec![
            Field::new("name", String::shape()),
            Field::new("inner", BasicStruct::shape()),
        ])
    }
}

// Struct with array fields
struct ArrayStruct {
    values: [i32; 5],
    names: [String; 2],
}

impl StructReflectionHelper for ArrayStruct {
    fn shape() -> Shape {
        record(vec![
            Field::new("values", <[i32; 5]>::shape()),
            Field::new("names", <[String; 2]>::shape()),
        ])
    }
}

// Struct with nested arrays (fixed types)
struct NestedArrayStruct {
    // 2x3 array of integers
    matrix: [[i32; 3]; 2],
    // 2x2 array of strings
    string_grid: [[String; 2]; 2],
    // A simple field
    description: String,
}

impl StructReflectionHelper for NestedArrayStruct {
    fn shape() -> Shape {
        record(vec![
            Field::new("matrix", <[[i32; 3]; 2]>::shape()),
            Field::new("string_grid", <[[String; 2]; 2]>::shape()),
            Field::new("description", String::shape()),
        ])
    }
}

// Struct with nested arrays containing generic type
struct GenericArrayStruct<T> {
    simple_array: [T; 4],
    nested_array: [[T; 3]; 2],
    count: i32,
}

impl<T> StructReflectionHelper for GenericArrayStruct<T> {
    fn shape() -> Shape {
        record(vec![
            Field::new("simple_array", array(Shape::GenericOpaque, 4)),
            Field::new("nested_array", array(array(Shape::GenericOpaque, 3), 2)),
            Field::new("count", i32::shape()),
        ])
    }
}

// Mixed array struct with both generic and concrete types
struct MixedArrayStruct<T> {
    generic_array: [T; 3],
    concrete_nested: [[i32; 2]; 3],
    mixed_nested: [[i32; 2]; 4],
    _phantom: PhantomData<T>,
}

impl<T> StructReflectionHelper for MixedArrayStruct<T> {
    fn shape() -> Shape {
        record(vec![
            Field::new("generic_array", array(Shape::GenericOpaque, 3)),
            Field::new("concrete_nested", <[[i32; 2]; 3]>::shape()),
            Field::new("mixed_nested", <[[i32; 2]; 4]>::shape()),
            Field::new("_phantom", PhantomData::<T>::shape()),
        ])
    }
}

// Struct with arrays of multiple generic types
struct MultiGenericArrayStruct<T, U> {
    t_array: [T; 3],
    u_array: [U; 2],
    name: String,
}

impl<T, U> StructReflectionHelper for MultiGenericArrayStruct<T, U> {
    fn shape() -> Shape {
        record(vec![
            Field::new("t_array", array(Shape::GenericOpaque, 3)),
            Field::new("u_array", array(Shape::GenericOpaque, 2)),
            Field::new("name", String::shape()),
        ])
    }
}

// Struct with nested arrays of multiple generic types
struct NestedMultiGenericStruct<T, U> {
    t_matrix: [[T; 2]; 2],
    u_matrix: [[U; 3]; 1],
    id: u32,
}

impl<T, U> StructReflectionHelper for NestedMultiGenericStruct<T, U> {
    fn shape() -> Shape {
        record(vec![
            Field::new("t_matrix", array(array(Shape::GenericOpaque, 2), 2)),
            Field::new("u_matrix", array(array(Shape::GenericOpaque, 3), 1)),
            Field::new("id", u32::shape()),
        ])
    }
}

// Struct with arrays mixing multiple generic types and PhantomData
struct ComplexMultiGenericStruct<T, U, V> {
    first_array: [T; 2],
    second_array: [U; 3],
    mixed_values: [(T, U); 2],
    _phantom: PhantomData<(T, U, V)>,
}

impl<T, U, V> StructReflectionHelper for ComplexMultiGenericStruct<T, U, V> {
    fn shape() -> Shape {
        record(vec![
            Field::new("first_array", array(Shape::GenericOpaque, 2)),
            Field::new("second_array", array(Shape::GenericOpaque, 3)),
            Field::new(
                "mixed_values",
                array(tuple(vec![Shape::GenericOpaque, Shape::GenericOpaque]), 2),
            ),
            Field::new("_phantom", PhantomData::<(T, U, V)>::shape()),
        ])
    }
}

// Struct with optional primitive fields
struct OptionalFieldsStruct {
    id: u64,
    name: String,
    maybe_count: Option<i32>,
    maybe_active: Option<bool>,
}

impl StructReflectionHelper for OptionalFieldsStruct {
    fn shape() -> Shape {
        record(vec![
            Field::new("id", u64::shape()),
            Field::new("name", String::shape()),
            Field::new("maybe_count", Option::<i32>::shape()),
            Field::new("maybe_active", Option::<bool>::shape()),
        ])
    }
}

// Struct with optional struct field
struct NestedOptionalStruct {
    id: u64,
    maybe_basic: Option<BasicStruct>,
}

impl StructReflectionHelper for NestedOptionalStruct {
    fn shape() -> Shape {
        record(vec![
            Field::new("id", u64::shape()),
            Field::new("maybe_basic", Option::<BasicStruct>::shape()),
        ])
    }
}

// Optional with generic type parameter
struct OptionalGenericStruct<T> {
    id: u64,
    maybe_data: Option<T>,
    maybe_array: Option<[T; 2]>,
}

impl<T> StructReflectionHelper for OptionalGenericStruct<T> {
    fn shape() -> Shape {
        record(vec![
            Field::new("id", u64::shape()),
            Field::new("maybe_data", optional(Shape::GenericOpaque)),
            Field::new("maybe_array", optional(array(Shape::GenericOpaque, 2))),
        ])
    }
}

#[test]
fn test_basic_struct() {
    let names = BasicStruct::struct_reflection();
    assert_eq!(
        names.unwrap(),
        vec!["field_one", "field_two", "field_three"]
    );
}

#[test]
fn test_generic_struct() {
    let names = GenericStruct::<i32>::struct_reflection();
    assert_eq!(names.unwrap(), vec!["data", "count", "enabled"]);
}

#[test]
fn test_multi_generic_struct() {
    let names = MultiGenericStruct::<i32, String>::struct_reflection();
    assert_eq!(
        names.unwrap(),
        vec!["first_data", "second_data", "description"]
    );
}

#[test]
fn test_outer_struct() {
    let names = OuterStruct::struct_reflection();
    assert_eq!(
        names.unwrap(),
        vec![
            "name",
            "inner__field_one",
            "inner__field_two",
            "inner__field_three"
        ]
    );
}

#[test]
fn test_array_struct() {
    let names = ArrayStruct::struct_reflection();
    assert_eq!(
        names.unwrap(),
        vec![
            "values__0",
            "values__1",
            "values__2",
            "values__3",
            "values__4",
            "names__0",
            "names__1"
        ]
    );
}

#[test]
fn test_nested_array_struct() {
    let names = NestedArrayStruct::struct_reflection();
    assert_eq!(
        names.unwrap(),
        vec![
            "matrix__0__0",
            "matrix__0__1",
            "matrix__0__2",
            "matrix__1__0",
            "matrix__1__1",
            "matrix__1__2",
            "string_grid__0__0",
            "string_grid__0__1",
            "string_grid__1__0",
            "string_grid__1__1",
            "description"
        ]
    );
}

#[test]
fn test_generic_array_struct() {
    let names = GenericArrayStruct::<i32>::struct_reflection();
    assert_eq!(
        names.unwrap(),
        vec![
            "simple_array__0",
            "simple_array__1",
            "simple_array__2",
            "simple_array__3",
            "nested_array__0__0",
            "nested_array__0__1",
            "nested_array__0__2",
            "nested_array__1__0",
            "nested_array__1__1",
            "nested_array__1__2",
            "count"
        ]
    );
}

#[test]
fn test_mixed_array_struct() {
    let names = MixedArrayStruct::<String>::struct_reflection();
    assert_eq!(
        names.unwrap(),
        vec![
            "generic_array__0",
            "generic_array__1",
            "generic_array__2",
            "concrete_nested__0__0",
            "concrete_nested__0__1",
            "concrete_nested__1__0",
            "concrete_nested__1__1",
            "concrete_nested__2__0",
            "concrete_nested__2__1",
            "mixed_nested__0__0",
            "mixed_nested__0__1",
            "mixed_nested__1__0",
            "mixed_nested__1__1",
            "mixed_nested__2__0",
            "mixed_nested__2__1",
            "mixed_nested__3__0",
            "mixed_nested__3__1"
        ]
    );
}

#[test]
fn test_multi_generic_array_struct() {
    let names = MultiGenericArrayStruct::<i32, String>::struct_reflection();
    assert_eq!(
        names.unwrap(),
        vec![
            "t_array__0",
            "t_array__1",
            "t_array__2",
            "u_array__0",
            "u_array__1",
            "name"
        ]
    );
}

#[test]
fn test_nested_multi_generic_struct() {
    let names = NestedMultiGenericStruct::<bool, f64>::struct_reflection();
    assert_eq!(
        names.unwrap(),
        vec![
            "t_matrix__0__0",
            "t_matrix__0__1",
            "t_matrix__1__0",
            "t_matrix__1__1",
            "u_matrix__0__0",
            "u_matrix__0__1",
            "u_matrix__0__2",
            "id"
        ]
    );
}

#[test]
fn test_complex_multi_generic_struct() {
    let names = ComplexMultiGenericStruct::<i32, String, f32>::struct_reflection();
    assert_eq!(
        names.unwrap(),
        vec![
            "first_array__0",
            "first_array__1",
            "second_array__0",
            "second_array__1",
            "second_array__2",
            "mixed_values__0__0",
            "mixed_values__0__1",
            "mixed_values__1__0",
            "mixed_values__1__1"
        ]
    );
}

#[test]
fn test_optional_fields_struct() {
    let names = OptionalFieldsStruct::struct_reflection();
    assert_eq!(
        names.unwrap(),
        vec![
            "id",
            "name",
            "maybe_count__optional",
            "maybe_active__optional"
        ]
    );
}

#[test]
fn test_nested_optional_struct() {
    let names = NestedOptionalStruct::struct_reflection();
    assert_eq!(names.unwrap(), vec!["id", "maybe_basic__optional"]);
}

#[test]
fn test_optional_generic_struct() {
    let names = OptionalGenericStruct::<i32>::struct_reflection();
    assert_eq!(
        names.unwrap(),
        vec!["id", "maybe_data__optional", "maybe_array__optional"]
    );
}
