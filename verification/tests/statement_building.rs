use surrealdb_extras::error::DbError;
use surrealdb_extras::statements::{FieldSpec, build_statements, field_exclusions, field_keys};
use surrealdb_extras::type_map::TypeExpr;

fn field(name: &str, ty_name: &str) -> FieldSpec {
    FieldSpec {
        name: String::from(name),
        rename: None,
        db_type: None,
        exclude: false,
        ty: TypeExpr::Named(String::from(ty_name), None),
    }
}

#[test]
fn person_statements() {
    let mut age = field("age", "u8");
    age.exclude = true;
    let fields = vec![field("name", "String"), age];
    let stmts = build_statements("person", &fields, &Vec::new()).unwrap();
    assert_eq!(
        stmts,
        vec![
            String::from("DEFINE TABLE person"),
            String::from("DEFINE FIELD name ON TABLE person TYPE string"),
            String::from("DEFINE FIELD age ON TABLE person TYPE int"),
        ]
    );
}

#[test]
fn statement_order_is_table_fields_then_extras() {
    let fields = vec![field("a", "bool"), field("b", "i32"), field("c", "String")];
    let extra = vec![String::from("extra one"), String::from("extra two")];
    let stmts = build_statements("thing", &fields, &extra).unwrap();
    assert_eq!(
        stmts,
        vec![
            String::from("DEFINE TABLE thing"),
            String::from("DEFINE FIELD a ON TABLE thing TYPE bool"),
            String::from("DEFINE FIELD b ON TABLE thing TYPE int"),
            String::from("DEFINE FIELD c ON TABLE thing TYPE string"),
            String::from("extra one"),
            String::from("extra two"),
        ]
    );
}

#[test]
fn rename_affects_the_defined_field_name() {
    let mut f = field("original", "String");
    f.rename = Some(String::from("renamed"));
    let stmts = build_statements("t", &vec![f], &Vec::new()).unwrap();
    assert_eq!(stmts[1], "DEFINE FIELD renamed ON TABLE t TYPE string");
}

#[test]
fn explicit_type_override_bypasses_the_mapper() {
    let mut f = field("payload", "MyEnum");
    f.db_type = Some(String::from("bytes"));
    let stmts = build_statements("t", &vec![f], &Vec::new()).unwrap();
    assert_eq!(stmts[1], "DEFINE FIELD payload ON TABLE t TYPE bytes");
}

#[test]
fn excluded_fields_are_still_schema_defined() {
    let mut f = field("secret", "String");
    f.exclude = true;
    let stmts = build_statements("t", &vec![f], &Vec::new()).unwrap();
    assert_eq!(stmts.len(), 2);
    assert_eq!(stmts[1], "DEFINE FIELD secret ON TABLE t TYPE string");
}

#[test]
fn unresolvable_field_fails_the_whole_list() {
    let mut f = field("odd", "ignored");
    f.ty = TypeExpr::Unparseable;
    let r = build_statements("t", &vec![f], &Vec::new());
    assert_eq!(r.unwrap_err(), DbError::UnsupportedType);
}

#[test]
fn keys_are_id_then_nonexcluded_names() {
    let mut age = field("age", "u8");
    age.exclude = true;
    let mut nick = field("nick", "String");
    nick.rename = Some(String::from("nickname"));
    let fields = vec![field("name", "String"), age, nick];
    assert_eq!(
        field_keys(&fields),
        vec![
            String::from("id"),
            String::from("name"),
            String::from("nickname")
        ]
    );
    assert_eq!(field_exclusions(&fields), vec![String::from("age")]);
}
