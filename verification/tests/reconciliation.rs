use surrealdb_extras::error::DbError;
use surrealdb_extras::reconcile::{
    DbAction, DbEvent, Reconciler, Register, catalog_missing, entity_statements, table_names,
};
use surrealdb_extras::value::Value;

fn obj(entries: Vec<(&str, Value)>) -> Value {
    Value::Object(
        entries
            .into_iter()
            .map(|(k, v)| (String::from(k), v))
            .collect(),
    )
}

fn catalog(key: &str, names: &[&str]) -> Value {
    obj(vec![(
        key,
        Value::Object(
            names
                .iter()
                .map(|n| (String::from(*n), Value::Null))
                .collect(),
        ),
    )])
}

/// A tiny in-memory stand-in for the live connection: it answers the three
/// catalog queries from its state and records every other executed query.
struct MockDb {
    namespaces: Vec<String>,
    databases: Vec<String>,
    tables: Vec<String>,
    executed: Vec<String>,
}

impl MockDb {
    fn empty() -> MockDb {
        MockDb {
            namespaces: Vec::new(),
            databases: Vec::new(),
            tables: Vec::new(),
            executed: Vec::new(),
        }
    }

    fn names(list: &[String]) -> Vec<&str> {
        list.iter().map(|s| s.as_str()).collect()
    }

    fn perform(&mut self, action: &DbAction) -> Option<DbEvent> {
        match action {
            DbAction::RunQuery(q) => {
                if q == "INFO FOR KV" {
                    Some(DbEvent::Response(catalog(
                        "namespaces",
                        &Self::names(&self.namespaces),
                    )))
                } else if q == "INFO FOR NS" {
                    Some(DbEvent::Response(catalog(
                        "databases",
                        &Self::names(&self.databases),
                    )))
                } else if q == "INFO FOR DB" {
                    Some(DbEvent::Response(catalog(
                        "tables",
                        &Self::names(&self.tables),
                    )))
                } else {
                    self.executed.push(q.clone());
                    if let Some(rest) = q.strip_prefix("DEFINE NAMESPACE ") {
                        self.namespaces.push(rest.trim_end_matches(';').to_string());
                    } else if let Some(rest) = q.strip_prefix("DEFINE DATABASE ") {
                        self.databases.push(rest.trim_end_matches(';').to_string());
                    } else if let Some(rest) = q.strip_prefix("DEFINE TABLE ") {
                        self.tables.push(rest.to_string());
                    }
                    Some(DbEvent::Ack)
                }
            }
            DbAction::SelectNs(_) | DbAction::SelectDb(_) => Some(DbEvent::Ack),
            DbAction::Finished => None,
        }
    }
}

fn reconcile(db: &mut MockDb, ns: &str, dbname: &str, regs: Vec<Register>) -> Result<(), DbError> {
    let mut machine = Reconciler::new(String::from(ns), String::from(dbname), regs);
    let mut action = machine.start();
    loop {
        let event = match db.perform(&action) {
            Some(e) => e,
            None => return Ok(()),
        };
        action = machine.step(event)?;
    }
}

fn person_register() -> Register {
    Register {
        name: String::from("person"),
        path: String::from("demo::Person"),
        statements: vec![
            String::from("DEFINE TABLE person"),
            String::from("DEFINE FIELD name ON TABLE person TYPE string"),
            String::from("DEFINE FIELD age ON TABLE person TYPE int"),
        ],
    }
}

#[test]
fn first_run_issues_everything_in_order() {
    let mut db = MockDb::empty();
    reconcile(&mut db, "myns", "mydb", vec![person_register()]).unwrap();
    assert_eq!(
        db.executed,
        vec![
            String::from("DEFINE NAMESPACE myns;"),
            String::from("DEFINE DATABASE mydb;"),
            String::from("DEFINE TABLE person"),
            String::from("DEFINE FIELD name ON TABLE person TYPE string"),
            String::from("DEFINE FIELD age ON TABLE person TYPE int"),
        ]
    );
}

#[test]
fn second_run_issues_nothing() {
    let mut db = MockDb::empty();
    reconcile(&mut db, "myns", "mydb", vec![person_register()]).unwrap();
    db.executed.clear();
    reconcile(&mut db, "myns", "mydb", vec![person_register()]).unwrap();
    assert_eq!(db.executed, Vec::<String>::new());
}

#[test]
fn existing_table_is_skipped_entirely() {
    let mut db = MockDb::empty();
    db.tables.push(String::from("person"));
    let other = Register {
        name: String::from("animal"),
        path: String::from("demo::Animal"),
        statements: vec![String::from("DEFINE TABLE animal")],
    };
    reconcile(
        &mut db,
        "myns",
        "mydb",
        vec![person_register(), other],
    )
    .unwrap();
    assert_eq!(
        db.executed,
        vec![
            String::from("DEFINE NAMESPACE myns;"),
            String::from("DEFINE DATABASE mydb;"),
            String::from("DEFINE TABLE animal"),
        ]
    );
}

#[test]
fn missing_top_level_key_is_malformed() {
    let response = obj(vec![("something_else", Value::Null)]);
    assert_eq!(
        catalog_missing(&response, "namespaces", "myns").unwrap_err(),
        DbError::MalformedCatalog
    );
}

#[test]
fn wrongly_shaped_key_is_malformed() {
    let response = obj(vec![("namespaces", Value::Int(3))]);
    assert_eq!(
        catalog_missing(&response, "namespaces", "myns").unwrap_err(),
        DbError::MalformedCatalog
    );
    assert_eq!(
        catalog_missing(&Value::Int(7), "namespaces", "myns").unwrap_err(),
        DbError::MalformedCatalog
    );
}

#[test]
fn absent_name_is_absence_not_an_error() {
    let response = catalog("namespaces", &["other"]);
    assert_eq!(catalog_missing(&response, "namespaces", "myns").unwrap(), true);
    let present = catalog("namespaces", &["other", "myns"]);
    assert_eq!(
        catalog_missing(&present, "namespaces", "myns").unwrap(),
        false
    );
}

#[test]
fn machine_surfaces_malformed_namespace_catalog() {
    let mut machine = Reconciler::new(
        String::from("myns"),
        String::from("mydb"),
        vec![person_register()],
    );
    let _ = machine.start();
    let bad = obj(vec![("unexpected", Value::Null)]);
    assert_eq!(
        machine.step(DbEvent::Response(bad)).unwrap_err(),
        DbError::MalformedCatalog
    );
}

#[test]
fn machine_surfaces_connection_failure() {
    let mut machine = Reconciler::new(
        String::from("myns"),
        String::from("mydb"),
        vec![person_register()],
    );
    let _ = machine.start();
    assert_eq!(
        machine.step(DbEvent::Failed).unwrap_err(),
        DbError::ConnectionFailure
    );
}

#[test]
fn table_names_reads_the_tables_object() {
    let response = catalog("tables", &["person", "animal"]);
    assert_eq!(
        table_names(&response).unwrap(),
        vec![String::from("person"), String::from("animal")]
    );
    let bad = catalog("databases", &["person"]);
    assert_eq!(table_names(&bad).unwrap_err(), DbError::MalformedCatalog);
}

#[test]
fn entity_statements_filters_by_presence() {
    let tables = vec![String::from("person")];
    let regs = vec![
        person_register(),
        Register {
            name: String::from("animal"),
            path: String::from("demo::Animal"),
            statements: vec![String::from("DEFINE TABLE animal")],
        },
    ];
    assert_eq!(
        entity_statements(&tables, &regs),
        vec![String::from("DEFINE TABLE animal")]
    );
}
