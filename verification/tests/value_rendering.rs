use surrealdb_extras::record_id::{RecordData, RecordId};
use surrealdb_extras::value::{Value, render_i64, render_literal, render_u64};

#[test]
fn unsigned_decimals() {
    assert_eq!(render_u64(0), "0");
    assert_eq!(render_u64(7), "7");
    assert_eq!(render_u64(10), "10");
    assert_eq!(render_u64(90217), "90217");
    assert_eq!(render_u64(u64::MAX), "18446744073709551615");
}

#[test]
fn signed_decimals() {
    assert_eq!(render_i64(0), "0");
    assert_eq!(render_i64(-1), "-1");
    assert_eq!(render_i64(31), "31");
    assert_eq!(render_i64(i64::MIN), "-9223372036854775808");
    assert_eq!(render_i64(i64::MAX), "9223372036854775807");
}

#[test]
fn scalar_literals() {
    assert_eq!(render_literal(&Value::Null), "NULL");
    assert_eq!(render_literal(&Value::Bool(true)), "true");
    assert_eq!(render_literal(&Value::Bool(false)), "false");
    assert_eq!(render_literal(&Value::Int(-42)), "-42");
    assert_eq!(render_literal(&Value::Strand(String::from("ann"))), "'ann'");
}

#[test]
fn text_literals_escape_quotes_and_backslashes() {
    let v = Value::Strand(String::from("O'Brien \\ co"));
    assert_eq!(render_literal(&v), "'O\\'Brien \\\\ co'");
}

#[test]
fn array_and_object_literals() {
    let arr = Value::Array(vec![Value::Int(1), Value::Int(2), Value::Int(3)]);
    assert_eq!(render_literal(&arr), "[1, 2, 3]");
    let objv = Value::Object(vec![
        (String::from("name"), Value::Strand(String::from("ann"))),
        (String::from("tags"), Value::Array(vec![Value::Bool(true)])),
    ]);
    assert_eq!(render_literal(&objv), "{ name: 'ann', tags: [true] }");
    assert_eq!(render_literal(&Value::Array(Vec::new())), "[]");
    assert_eq!(render_literal(&Value::Object(Vec::new())), "{  }");
}

#[test]
fn record_id_text_and_parse_round_trip() {
    let id = RecordId::new(String::from("person"), String::from("ann7"));
    assert_eq!(id.text(), "person:ann7");
    assert_eq!(id.tb(), "person");
    assert_eq!(id.id(), "ann7");
    let back = RecordId::parse("person:ann7").unwrap();
    assert_eq!(back, id);
}

#[test]
fn record_id_parse_splits_at_first_colon() {
    let id = RecordId::parse("a:b:c").unwrap();
    assert_eq!(id.tb(), "a");
    assert_eq!(id.id(), "b:c");
    assert!(RecordId::parse("no colon here").is_none());
}

#[test]
fn record_id_equality_is_structural() {
    let a = RecordId::new(String::from("person"), String::from("1"));
    let b = RecordId::new(String::from("person"), String::from("1"));
    let c = RecordId::new(String::from("person"), String::from("2"));
    assert_eq!(a, b);
    assert_ne!(a, c);
}

#[test]
fn record_data_pairs_identifier_and_payload() {
    let rd = RecordData {
        id: RecordId::new(String::from("person"), String::from("1")),
        data: String::from("payload"),
    };
    assert_eq!(rd.id.text(), "person:1");
    assert_eq!(rd.data, "payload");
}
