use surrealdb_extras::error::DbError;
use surrealdb_extras::record_id::{Record, RecordId};
use surrealdb_extras::upsert::{
    TableStore, UpsertAction, created_or_error, existence_query, insert_succeeded, search_query,
    select_part_query, upsert_decision,
};
use surrealdb_extras::value::Value;

fn person(name: &str, age: i64) -> Value {
    Value::Object(vec![
        (String::from("name"), Value::Strand(String::from(name))),
        (String::from("age"), Value::Int(age)),
    ])
}

#[test]
fn existence_query_conjoins_nonexcluded_fields() {
    let candidate = person("ann", 31);
    let q = existence_query("person", &candidate, &Vec::new()).unwrap();
    assert_eq!(q, "SELECT id FROM person WHERE name = 'ann' AND age = 31 LIMIT 1;");
}

#[test]
fn excluded_fields_stay_out_of_the_lookup() {
    let candidate = person("ann", 31);
    let exclude = vec![String::from("age")];
    let q = existence_query("person", &candidate, &exclude).unwrap();
    assert_eq!(q, "SELECT id FROM person WHERE name = 'ann' LIMIT 1;");
}

#[test]
fn non_object_candidate_is_a_serialization_failure() {
    let r = existence_query("person", &Value::Int(4), &Vec::new());
    assert_eq!(r.unwrap_err(), DbError::SerializationFailure);
}

#[test]
fn get_or_insert_deduplicates_on_comparison_fields() {
    let exclude = vec![String::from("age")];
    let mut store = TableStore::new(String::from("person"));
    let first = store.get_or_insert(person("ann", 31), &exclude).unwrap();
    let second = store.get_or_insert(person("ann", 99), &exclude).unwrap();
    assert_eq!(first, second);
    assert_eq!(store.rows.len(), 1);
}

#[test]
fn differing_comparison_fields_make_distinct_rows() {
    let exclude = vec![String::from("age")];
    let mut store = TableStore::new(String::from("person"));
    let first = store.get_or_insert(person("ann", 31), &exclude).unwrap();
    let second = store.get_or_insert(person("bob", 31), &exclude).unwrap();
    assert_ne!(first, second);
    assert_eq!(store.rows.len(), 2);
}

#[test]
fn plain_insert_always_writes() {
    let mut store = TableStore::new(String::from("person"));
    let a = store.insert(person("ann", 31));
    let b = store.insert(person("ann", 31));
    assert_ne!(a, b);
    assert_eq!(store.rows.len(), 2);
}

#[test]
fn store_rejects_non_object_candidates() {
    let mut store = TableStore::new(String::from("person"));
    let r = store.get_or_insert(Value::Bool(true), &Vec::new());
    assert_eq!(r.unwrap_err(), DbError::SerializationFailure);
    assert_eq!(store.rows.len(), 0);
}

#[test]
fn upsert_decision_uses_existing_match() {
    let id = RecordId::new(String::from("person"), String::from("7"));
    match upsert_decision(Some(id.clone())) {
        UpsertAction::UseExisting(found) => assert_eq!(found, id),
        UpsertAction::InsertNew => panic!("a match must be reused"),
    }
    match upsert_decision(None) {
        UpsertAction::InsertNew => {}
        UpsertAction::UseExisting(_) => panic!("no match means an insert"),
    }
}

#[test]
fn missing_created_record_is_fatal_to_the_call() {
    let r = created_or_error(None);
    assert_eq!(r.unwrap_err(), DbError::MissingCreatedRecord);
    let id = RecordId::new(String::from("person"), String::from("7"));
    let ok = created_or_error(Some(Record::new(id.clone()))).unwrap();
    assert_eq!(ok.id, id);
    assert!(insert_succeeded(&Some(Record::new(id))));
    assert!(!insert_succeeded(&None));
}

#[test]
fn search_query_shapes() {
    let keys = vec![String::from("id"), String::from("name")];
    assert_eq!(search_query(&keys, "person", &None), "SELECT id, name FROM person;");
    assert_eq!(
        search_query(&keys, "person", &Some(String::from("WHERE age > 3"))),
        "SELECT id, name FROM person WHERE age > 3;"
    );
}

#[test]
fn select_part_query_addresses_one_row() {
    let keys = vec![String::from("id"), String::from("name")];
    let id = RecordId::new(String::from("person"), String::from("7"));
    assert_eq!(select_part_query(&keys, &id), "SELECT id, name FROM person:7");
}

#[test]
fn zero_comparable_fields_degrade_to_match_any_row() {
    // every field excluded: the caller-visible hazard of an empty
    // conjunction, not guarded internally
    let exclude = vec![String::from("name"), String::from("age")];
    let q = existence_query("person", &person("ann", 1), &exclude).unwrap();
    assert_eq!(q, "SELECT id FROM person WHERE  LIMIT 1;");
    let mut store = TableStore::new(String::from("person"));
    let first = store.get_or_insert(person("ann", 1), &exclude).unwrap();
    let second = store.get_or_insert(person("bob", 2), &exclude).unwrap();
    assert_eq!(first, second);
}
