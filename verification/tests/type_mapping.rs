use surrealdb_extras::error::DbError;
use surrealdb_extras::type_map::{GenericArg, SchemaType, TypeExpr, map_type, render_schema};

fn named(name: &str, args: Option<Vec<GenericArg>>) -> TypeExpr {
    TypeExpr::Named(String::from(name), args)
}

fn mapped(ty: &TypeExpr, primary: bool) -> String {
    render_schema(&map_type(ty, primary).expect("type should map"))
}

#[test]
fn bool_maps_to_bool() {
    assert_eq!(mapped(&named("bool", None), true), "bool");
}

#[test]
fn byte_vector_maps_to_bytes_at_outermost() {
    let ty = named("Vec", Some(vec![GenericArg::Ty(named("u8", None))]));
    assert_eq!(mapped(&ty, true), "bytes");
}

#[test]
fn nested_byte_vector_maps_to_array_of_u8() {
    let inner = named("Vec", Some(vec![GenericArg::Ty(named("u8", None))]));
    let ty = named("Vec", Some(vec![GenericArg::Ty(inner)]));
    assert_eq!(mapped(&ty, true), "array<array<u8>>");
}

#[test]
fn lone_u8_field_maps_to_int() {
    assert_eq!(mapped(&named("u8", None), true), "int");
}

#[test]
fn optional_string_maps_to_option_of_string() {
    let ty = named("Option", Some(vec![GenericArg::Ty(named("String", None))]));
    assert_eq!(mapped(&ty, true), "option<string>");
}

#[test]
fn hash_set_of_i32_maps_to_set_of_int() {
    let ty = named("HashSet", Some(vec![GenericArg::Ty(named("i32", None))]));
    assert_eq!(mapped(&ty, true), "set<int>");
}

#[test]
fn unrecognized_name_maps_to_object() {
    assert_eq!(mapped(&named("MyEnum", None), true), "object");
}

#[test]
fn integer_widths_map_by_range() {
    for n in ["i8", "i16", "i32", "i64", "u16", "u32"] {
        assert_eq!(mapped(&named(n, None), true), "int");
    }
    for n in ["i128", "u64", "u128"] {
        assert_eq!(mapped(&named(n, None), true), "number");
    }
}

#[test]
fn float_widths_map_by_range() {
    for n in ["f16", "f32", "f64"] {
        assert_eq!(mapped(&named(n, None), true), "float");
    }
    assert_eq!(mapped(&named("f128", None), true), "decimal");
}

#[test]
fn time_types_map_to_datetime_and_duration() {
    // a parameterized timestamp keeps its bare tag: the argument is ignored
    let dt = named("DateTime", Some(vec![GenericArg::Ty(named("Utc", None))]));
    assert_eq!(mapped(&dt, true), "datetime");
    assert_eq!(mapped(&named("Duration", None), true), "duration");
}

#[test]
fn record_reference_and_strings() {
    assert_eq!(mapped(&named("RecordId", None), true), "record");
    assert_eq!(mapped(&named("String", None), true), "string");
    assert_eq!(mapped(&named("PathBuf", None), true), "string");
}

#[test]
fn parenthesized_type_unwraps() {
    let ty = TypeExpr::Paren(Box::new(named("bool", None)));
    assert_eq!(mapped(&ty, true), "bool");
}

#[test]
fn array_of_unknown_maps_to_array_of_object() {
    let ty = named("Vec", Some(vec![GenericArg::Ty(named("MyEnum", None))]));
    assert_eq!(mapped(&ty, true), "array<object>");
}

#[test]
fn unparseable_shape_is_the_only_failure() {
    assert_eq!(
        map_type(&TypeExpr::Unparseable, true).unwrap_err(),
        DbError::UnsupportedType
    );
    let bad_arg = named("Vec", Some(vec![GenericArg::Unsupported]));
    assert_eq!(map_type(&bad_arg, true).unwrap_err(), DbError::UnsupportedType);
    // an unparseable type nested in an argument list fails too
    let nested = named("Vec", Some(vec![GenericArg::Ty(TypeExpr::Unparseable)]));
    assert_eq!(map_type(&nested, true).unwrap_err(), DbError::UnsupportedType);
}

#[test]
fn const_argument_passes_through_verbatim() {
    let ty = named(
        "Vec",
        Some(vec![
            GenericArg::Ty(named("u16", None)),
            GenericArg::ConstArg(String::from("4")),
        ]),
    );
    assert_eq!(mapped(&ty, true), "array<int, 4>");
}

#[test]
fn descriptor_structure_is_tagged() {
    let ty = named("Vec", Some(vec![GenericArg::Ty(named("u8", None))]));
    match map_type(&ty, true).unwrap() {
        SchemaType::Leaf(_) => {}
        SchemaType::Composite(_, _) => panic!("a byte sequence is one bare tag"),
    }
}
