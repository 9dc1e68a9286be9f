use surrealdb_extras::reconcile::{DbAction, DbEvent, Reconciler};
use surrealdb_extras::statements::{FieldSpec, build_statements, field_exclusions, field_keys};
use surrealdb_extras::type_map::TypeExpr;
use surrealdb_extras::upsert::TableStore;
use surrealdb_extras::value::Value;
use surrealdb_extras::{Register, SurrealSelectInfo, SurrealTableInfo};

/// The entity of the scenario: a person with a name and an age, the age
/// left out of the comparison set.
struct Person;

fn person_fields() -> Vec<FieldSpec> {
    vec![
        FieldSpec {
            name: String::from("name"),
            rename: None,
            db_type: None,
            exclude: false,
            ty: TypeExpr::Named(String::from("String"), None),
        },
        FieldSpec {
            name: String::from("age"),
            rename: None,
            db_type: None,
            exclude: true,
            ty: TypeExpr::Named(String::from("u8"), None),
        },
    ]
}

impl SurrealSelectInfo for Person {
    fn keys() -> Vec<String> {
        field_keys(&person_fields())
    }
}

impl SurrealTableInfo for Person {
    fn name() -> String {
        String::from("person")
    }

    fn path() -> String {
        String::from("scenario::Person")
    }

    fn exclude() -> Vec<String> {
        field_exclusions(&person_fields())
    }

    fn funcs() -> Vec<String> {
        build_statements("person", &person_fields(), &Vec::new()).unwrap()
    }
}

fn serialized_person(name: &str, age: i64) -> Value {
    Value::Object(vec![
        (String::from("name"), Value::Strand(String::from(name))),
        (String::from("age"), Value::Int(age)),
    ])
}

fn empty_catalog_for(key: &str) -> Value {
    Value::Object(vec![(String::from(key), Value::Object(Vec::new()))])
}

#[test]
fn register_person_reconcile_and_deduplicate() {
    // registration: the derived statement list of the entity
    let reg: Register = Person::register();
    assert_eq!(reg.name, "person");
    assert_eq!(
        reg.statements,
        vec![
            String::from("DEFINE TABLE person"),
            String::from("DEFINE FIELD name ON TABLE person TYPE string"),
            String::from("DEFINE FIELD age ON TABLE person TYPE int"),
        ]
    );
    assert_eq!(Person::keys(), vec![String::from("id"), String::from("name")]);
    assert_eq!(Person::exclude(), vec![String::from("age")]);

    // reconciliation against a fresh database: every statement is issued
    let mut machine = Reconciler::new(String::from("ns"), String::from("db"), vec![reg]);
    let mut action = machine.start();
    let mut executed: Vec<String> = Vec::new();
    loop {
        let event = match &action {
            DbAction::RunQuery(q) => {
                if q == "INFO FOR KV" {
                    DbEvent::Response(empty_catalog_for("namespaces"))
                } else if q == "INFO FOR NS" {
                    DbEvent::Response(empty_catalog_for("databases"))
                } else if q == "INFO FOR DB" {
                    DbEvent::Response(empty_catalog_for("tables"))
                } else {
                    executed.push(q.clone());
                    DbEvent::Ack
                }
            }
            DbAction::SelectNs(_) | DbAction::SelectDb(_) => DbEvent::Ack,
            DbAction::Finished => break,
        };
        action = machine.step(event).unwrap();
    }
    assert_eq!(
        executed,
        vec![
            String::from("DEFINE NAMESPACE ns;"),
            String::from("DEFINE DATABASE db;"),
            String::from("DEFINE TABLE person"),
            String::from("DEFINE FIELD name ON TABLE person TYPE string"),
            String::from("DEFINE FIELD age ON TABLE person TYPE int"),
        ]
    );

    // deduplicated inserts: same name, different age — one row, one id
    let mut store = TableStore::new(Person::name());
    let exclude = Person::exclude();
    let first = store
        .get_or_insert(serialized_person("ann", 31), &exclude)
        .unwrap();
    let second = store
        .get_or_insert(serialized_person("ann", 99), &exclude)
        .unwrap();
    assert_eq!(first, second);
    assert_eq!(store.rows.len(), 1);
}
