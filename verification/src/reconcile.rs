//! The schema reconciler.
//!
//! Given a registry of entities, the reconciler brings a live schema to at
//! least the state the registry describes, without altering or dropping
//! anything already present: its only action is "create if absent". It
//! runs as a state machine of strictly sequential steps — namespace check,
//! namespace selection, database check, database selection, one table
//! catalog fetch, then per-entity application — because later steps depend
//! on the selection performed by earlier ones. The driver performs each
//! returned [`DbAction`] against the live connection and hands the outcome
//! back as a [`DbEvent`]; the machine itself never touches the network, so
//! the whole sequence is checked without one.
//!
//! Any failed round trip aborts reconciliation where it stands; statements
//! already applied are not rolled back, so a mid-sequence failure can
//! leave a partially applied schema. That outcome is surfaced, never
//! retried.

use vstd::prelude::*;
use vstd::string::StringExecFns;

use crate::error::DbError;
use crate::value::Value;
use crate::value::contains_string;
use crate::value::contains_text;
use crate::value::lookup;
use crate::value::lookup_text;

verus! {

/// One registered entity: its table name, the path of the type it came
/// from, and its full schema statement list.
pub struct Register {
    /// The table name of the entity.
    pub name: String,
    /// The path of the language-level type the entity describes.
    pub path: String,
    /// The ordered schema statement list of the entity.
    pub statements: Vec<String>,
}

/// The statement that defines a namespace.
pub open spec fn define_namespace_text(ns: Seq<char>) -> Seq<char> {
    "DEFINE NAMESPACE "@ + ns + ";"@
}

/// The statement that defines a database.
pub open spec fn define_database_text(db: Seq<char>) -> Seq<char> {
    "DEFINE DATABASE "@ + db + ";"@
}

/// The entries of the object a catalog response holds under the given
/// key, when the response has the expected shape: an object whose value
/// under that key is itself an object.
pub open spec fn catalog_entries(catalog: Value, key: Seq<char>) -> Option<Vec<(String, Value)>> {
    match catalog {
        Value::Object(entries) => match lookup_text(entries@, key) {
            Option::Some(inner) => match inner {
                Value::Object(names) => Option::Some(names),
                _ => Option::None,
            },
            Option::None => Option::None,
        },
        _ => Option::None,
    }
}

/// Whether a catalog response has the expected shape for the given key.
pub open spec fn catalog_well_shaped(catalog: Value, key: Seq<char>) -> bool {
    catalog_entries(catalog, key) is Some
}

/// Reads a catalog response: whether the given name is absent from the
/// object the response holds under the given key.
///
/// A response without the expected key, or with the wrong shape around
/// it, is a [`DbError::MalformedCatalog`] — distinct from legitimate
/// absence of the name, which simply answers `true` and is met with a
/// define statement, not an error.
pub fn catalog_missing(catalog: &Value, key: &str, name: &str) -> (r: Result<bool, DbError>)
    ensures
        r is Ok <==> catalog_well_shaped(*catalog, key@),
        r is Err ==> r->Err_0 == DbError::MalformedCatalog,
        r is Ok ==> r->Ok_0 == (lookup_text(catalog_entries(*catalog, key@)->0@, name@) is None),
{
    match catalog {
        Value::Object(entries) => match lookup(entries, key) {
            Option::Some(inner) => match inner {
                Value::Object(names) => Ok(lookup(names, name).is_none()),
                _ => Err(DbError::MalformedCatalog),
            },
            Option::None => Err(DbError::MalformedCatalog),
        },
        _ => Err(DbError::MalformedCatalog),
    }
}

/// The names a well-shaped table catalog response lists, in order.
pub open spec fn response_tables(catalog: Value) -> Seq<Seq<char>> {
    catalog_entries(catalog, "tables"@)->0@.map_values(|e: (String, Value)| e.0@)
}

/// Extracts the live table names from a table catalog response, or
/// reports its malformed shape.
pub fn table_names(catalog: &Value) -> (r: Result<Vec<String>, DbError>)
    ensures
        r is Ok <==> catalog_well_shaped(*catalog, "tables"@),
        r is Err ==> r->Err_0 == DbError::MalformedCatalog,
        r is Ok ==> r->Ok_0@.map_values(|s: String| s@) == response_tables(*catalog),
{
    match catalog {
        Value::Object(entries) => match lookup(entries, "tables") {
            Option::Some(inner) => match inner {
                Value::Object(names) => {
                    let mut r: Vec<String> = Vec::new();
                    let mut i: usize = 0;
                    while i < names.len()
                        invariant
                            i <= names.len(),
                            r@.map_values(|s: String| s@) == names@.take(i as int).map_values(
                                |e: (String, Value)| e.0@,
                            ),
                        decreases names.len() - i,
                    {
                        let ghost prev = r@;
                        r.push(names[i].0.clone());
                        proof {
                            prev.lemma_push_map_commute(|s: String| s@, names@[i as int].0);
                            names@.lemma_map_take_succ(|e: (String, Value)| e.0@, i as int);
                            assert(r@ == prev.push(names@[i as int].0));
                        }
                        i += 1;
                    }
                    proof {
                        assert(names@.take(names@.len() as int) =~= names@);
                    }
                    Ok(r)
                },
                _ => Err(DbError::MalformedCatalog),
            },
            Option::None => Err(DbError::MalformedCatalog),
        },
        _ => Err(DbError::MalformedCatalog),
    }
}

/// The texts of a list of strings, in order.
pub open spec fn text_of_strings(list: Seq<String>) -> Seq<Seq<char>> {
    list.map_values(|s: String| s@)
}

/// A string list holds a text exactly when its text sequence contains it.
pub proof fn lemma_contains_text_equiv(list: Seq<String>, t: Seq<char>)
    ensures
        contains_text(list, t) <==> text_of_strings(list).contains(t),
{
    if contains_text(list, t) {
        let i = choose|i: int| 0 <= i < list.len() && list[i]@ == t;
        assert(text_of_strings(list)[i] == t);
    }
    if text_of_strings(list).contains(t) {
        let i = choose|i: int|
            0 <= i < text_of_strings(list).len() && text_of_strings(list)[i] == t;
        assert(list[i]@ == t);
    }
}

/// The statement texts of one registered entity, in order.
pub open spec fn register_statement_texts(r: Register) -> Seq<Seq<char>> {
    r.statements@.map_values(|s: String| s@)
}

/// The table names of the registered entities, in order.
pub open spec fn register_names(regs: Seq<Register>) -> Seq<Seq<char>> {
    regs.map_values(|r: Register| r.name@)
}

/// The statements per-entity reconciliation issues against the given live
/// table set: the full statement list of every entity whose table name is
/// absent, in registration order, and nothing for the others.
pub open spec fn entity_defines(tables: Seq<Seq<char>>, regs: Seq<Register>) -> Seq<Seq<char>>
    decreases regs,
{
    if regs.len() == 0 {
        Seq::empty()
    } else {
        (if tables.contains(regs[0].name@) {
            Seq::empty()
        } else {
            register_statement_texts(regs[0])
        }) + entity_defines(tables, regs.drop_first())
    }
}

/// The live catalog, as the reconciler reads it: which namespaces,
/// databases (within the target namespace) and tables (within the target
/// database) exist.
pub struct CatalogModel {
    /// The existing namespace names.
    pub namespaces: Seq<Seq<char>>,
    /// The existing database names within the target namespace.
    pub databases: Seq<Seq<char>>,
    /// The existing table names within the target database.
    pub tables: Seq<Seq<char>>,
}

/// A catalog with nothing in it.
pub open spec fn empty_catalog() -> CatalogModel {
    CatalogModel { namespaces: Seq::empty(), databases: Seq::empty(), tables: Seq::empty() }
}

/// Every define statement one reconciliation run issues against the given
/// catalog: the namespace definition if the namespace is absent, the
/// database definition if the database is absent, then the per-entity
/// statements of [`entity_defines`].
pub open spec fn defines_issued(
    cat: CatalogModel,
    ns: Seq<char>,
    db: Seq<char>,
    regs: Seq<Register>,
) -> Seq<Seq<char>> {
    (if cat.namespaces.contains(ns) {
        Seq::empty()
    } else {
        seq![define_namespace_text(ns)]
    }) + (if cat.databases.contains(db) {
        Seq::empty()
    } else {
        seq![define_database_text(db)]
    }) + entity_defines(cat.tables, regs)
}

/// The catalog after one reconciliation run: the target namespace and
/// database exist, and so does the table of every registered entity —
/// each entity's statement list begins by defining its table, and
/// whatever already existed is untouched.
pub open spec fn apply_reconcile(
    cat: CatalogModel,
    ns: Seq<char>,
    db: Seq<char>,
    regs: Seq<Register>,
) -> CatalogModel {
    CatalogModel {
        namespaces: cat.namespaces.push(ns),
        databases: cat.databases.push(db),
        tables: cat.tables + register_names(regs),
    }
}

/// Against a table set that holds every registered name, per-entity
/// reconciliation issues nothing.
proof fn lemma_entity_defines_all_present(tables: Seq<Seq<char>>, regs: Seq<Register>)
    requires
        forall|k: int| 0 <= k < regs.len() ==> tables.contains(#[trigger] regs[k].name@),
    ensures
        entity_defines(tables, regs).len() == 0,
    decreases regs,
{
    if regs.len() > 0 {
        assert(forall|k: int|
            0 <= k < regs.drop_first().len() ==> #[trigger] regs.drop_first()[k] == regs[k + 1]);
        lemma_entity_defines_all_present(tables, regs.drop_first());
    }
}

/// Reconciliation is idempotent: a second run against the catalog a first
/// run leaves behind — whatever the catalog held before — issues zero
/// define statements; only the read queries remain.
pub proof fn lemma_reconcile_idempotent(
    cat: CatalogModel,
    ns: Seq<char>,
    db: Seq<char>,
    regs: Seq<Register>,
)
    ensures
        defines_issued(apply_reconcile(cat, ns, db, regs), ns, db, regs).len() == 0,
{
    let after = apply_reconcile(cat, ns, db, regs);
    assert(after.namespaces[after.namespaces.len() - 1] == ns);
    assert(after.namespaces.contains(ns));
    assert(after.databases[after.databases.len() - 1] == db);
    assert(after.databases.contains(db));
    assert forall|k: int| 0 <= k < regs.len() implies after.tables.contains(
        #[trigger] regs[k].name@,
    ) by {
        assert(after.tables[cat.tables.len() + k] == regs[k].name@);
    }
    lemma_entity_defines_all_present(after.tables, regs);
}

/// The entries hold a key exactly when a lookup answers something.
pub proof fn lemma_lookup_text_membership(entries: Seq<(String, Value)>, key: Seq<char>)
    ensures
        (lookup_text(entries, key) is Some) <==> entries.map_values(
            |e: (String, Value)| e.0@,
        ).contains(key),
    decreases entries.len(),
{
    let keys = entries.map_values(|e: (String, Value)| e.0@);
    if entries.len() == 0 {
        assert(!keys.contains(key));
    } else {
        lemma_lookup_text_membership(entries.drop_first(), key);
        assert(entries.drop_first().map_values(|e: (String, Value)| e.0@) =~= keys.drop_first());
        if entries[0].0@ == key {
            assert(keys[0] == key);
        } else if keys.drop_first().contains(key) {
            let i = choose|i: int|
                0 <= i < keys.drop_first().len() && keys.drop_first()[i] == key;
            assert(keys[i + 1] == key);
        } else if keys.contains(key) {
            let i = choose|i: int| 0 <= i < keys.len() && keys[i] == key;
            assert(i > 0);
            assert(keys.drop_first()[i - 1] == key);
        }
    }
}

/// The catalog one run observes, read off its three responses: the
/// namespace names of the first, the database names of the second, the
/// table names of the third.
pub open spec fn observed_catalog(ns_cat: Value, db_cat: Value, table_cat: Value) -> CatalogModel {
    CatalogModel {
        namespaces: catalog_entries(ns_cat, "namespaces"@)->0@.map_values(
            |e: (String, Value)| e.0@,
        ),
        databases: catalog_entries(db_cat, "databases"@)->0@.map_values(|e: (String, Value)| e.0@),
        tables: response_tables(table_cat),
    }
}

/// What one run issues is [`defines_issued`] of the observed catalog:
/// the namespace definition exactly when the machine's namespace check
/// finds the name absent, the database definition exactly when its
/// database check does, then the per-entity statements of the fetched
/// table set — the very conditions the step function's contract states.
pub proof fn lemma_observed_defines(
    ns_cat: Value,
    db_cat: Value,
    table_cat: Value,
    ns: Seq<char>,
    db: Seq<char>,
    regs: Seq<Register>,
)
    requires
        catalog_well_shaped(ns_cat, "namespaces"@),
        catalog_well_shaped(db_cat, "databases"@),
        catalog_well_shaped(table_cat, "tables"@),
    ensures
        defines_issued(observed_catalog(ns_cat, db_cat, table_cat), ns, db, regs) == (if lookup_text(
            catalog_entries(ns_cat, "namespaces"@)->0@,
            ns,
        ) is None {
            seq![define_namespace_text(ns)]
        } else {
            Seq::<Seq<char>>::empty()
        }) + (if lookup_text(catalog_entries(db_cat, "databases"@)->0@, db) is None {
            seq![define_database_text(db)]
        } else {
            Seq::<Seq<char>>::empty()
        }) + entity_defines(response_tables(table_cat), regs),
{
    lemma_lookup_text_membership(catalog_entries(ns_cat, "namespaces"@)->0@, ns);
    lemma_lookup_text_membership(catalog_entries(db_cat, "databases"@)->0@, db);
}

/// The full statement set of the registry: every entity's statements, in
/// registration order.
pub open spec fn all_statements(regs: Seq<Register>) -> Seq<Seq<char>>
    decreases regs,
{
    if regs.len() == 0 {
        Seq::empty()
    } else {
        register_statement_texts(regs[0]) + all_statements(regs.drop_first())
    }
}

/// Against a table set that holds none of the registered names,
/// per-entity reconciliation issues the full statement set.
proof fn lemma_entity_defines_all_absent(tables: Seq<Seq<char>>, regs: Seq<Register>)
    requires
        forall|k: int| 0 <= k < regs.len() ==> !tables.contains(#[trigger] regs[k].name@),
    ensures
        entity_defines(tables, regs) == all_statements(regs),
    decreases regs,
{
    if regs.len() > 0 {
        assert(forall|k: int|
            0 <= k < regs.drop_first().len() ==> #[trigger] regs.drop_first()[k] == regs[k + 1]);
        lemma_entity_defines_all_absent(tables, regs.drop_first());
    }
}

/// A first run against an empty catalog issues the full statement set:
/// the namespace definition, the database definition, then every
/// registered entity's statements, in that order.
pub proof fn lemma_reconcile_empty_full(ns: Seq<char>, db: Seq<char>, regs: Seq<Register>)
    ensures
        defines_issued(empty_catalog(), ns, db, regs) == seq![define_namespace_text(ns)] + seq![
            define_database_text(db),
        ] + all_statements(regs),
{
    let cat = empty_catalog();
    assert(!cat.namespaces.contains(ns));
    assert(!cat.databases.contains(db));
    assert(forall|k: int| 0 <= k < regs.len() ==> !cat.tables.contains(#[trigger] regs[k].name@));
    lemma_entity_defines_all_absent(cat.tables, regs);
}

/// One more entity extends the per-entity statements of the prefix by its
/// statement list, unless its table already exists.
proof fn lemma_entity_defines_push(tables: Seq<Seq<char>>, regs: Seq<Register>, i: int)
    requires
        0 <= i < regs.len(),
    ensures
        entity_defines(tables, regs.take(i + 1)) == entity_defines(tables, regs.take(i)) + (if tables.contains(
            regs[i].name@,
        ) {
            Seq::<Seq<char>>::empty()
        } else {
            register_statement_texts(regs[i])
        }),
    decreases i,
{
    if i == 0 {
        assert(regs.take(1)[0] == regs[0]);
        assert(regs.take(1).drop_first() =~= Seq::<Register>::empty());
        assert(entity_defines(tables, Seq::<Register>::empty()) =~= Seq::<Seq<char>>::empty());
        assert(entity_defines(tables, regs.take(0)) =~= Seq::<Seq<char>>::empty());
        let head = if tables.contains(regs[0].name@) {
            Seq::<Seq<char>>::empty()
        } else {
            register_statement_texts(regs[0])
        };
        assert(entity_defines(tables, regs.take(1)) =~= head + Seq::<Seq<char>>::empty());
        assert(head + Seq::<Seq<char>>::empty() =~= head);
        assert(entity_defines(tables, regs.take(0)) + head =~= head);
    } else {
        lemma_entity_defines_push(tables, regs.drop_first(), i - 1);
        assert(regs.take(i + 1).drop_first() =~= regs.drop_first().take(i));
        assert(regs.take(i).drop_first() =~= regs.drop_first().take(i - 1));
        let head = if tables.contains(regs[0].name@) {
            Seq::<Seq<char>>::empty()
        } else {
            register_statement_texts(regs[0])
        };
        let tail_prefix = entity_defines(tables, regs.drop_first().take(i - 1));
        let last = if tables.contains(regs[i].name@) {
            Seq::<Seq<char>>::empty()
        } else {
            register_statement_texts(regs[i])
        };
        assert(head + (tail_prefix + last) =~= (head + tail_prefix) + last);
    }
}

/// Collects the statements per-entity reconciliation issues against the
/// given live table set: the full statement list of every entity whose
/// table is absent, in registration order. Entities whose table name is
/// present are skipped entirely.
pub fn entity_statements(tables: &Vec<String>, regs: &Vec<Register>) -> (r: Vec<String>)
    ensures
        r@.map_values(|s: String| s@) == entity_defines(text_of_strings(tables@), regs@),
{
    let mut r: Vec<String> = Vec::new();
    let mut i: usize = 0;
    while i < regs.len()
        invariant
            i <= regs.len(),
            r@.map_values(|s: String| s@) == entity_defines(
                text_of_strings(tables@),
                regs@.take(i as int),
            ),
        decreases regs.len() - i,
    {
        proof {
            lemma_entity_defines_push(text_of_strings(tables@), regs@, i as int);
            lemma_contains_text_equiv(tables@, regs@[i as int].name@);
        }
        if !contains_string(tables, regs[i].name.as_str()) {
            let ghost before = r@.map_values(|s: String| s@);
            let mut j: usize = 0;
            while j < regs[i].statements.len()
                invariant
                    0 <= i < regs@.len(),
                    j <= regs@[i as int].statements@.len(),
                    r@.map_values(|s: String| s@) == before + regs@[i as int].statements@.take(
                        j as int,
                    ).map_values(|s: String| s@),
                decreases regs@[i as int].statements@.len() - j,
            {
                let ghost prev = r@;
                r.push(regs[i].statements[j].clone());
                proof {
                    let stmts = regs@[i as int].statements@;
                    prev.lemma_push_map_commute(|s: String| s@, stmts[j as int]);
                    stmts.lemma_map_take_succ(|s: String| s@, j as int);
                    assert(r@ == prev.push(stmts[j as int]));
                    assert(before + stmts.take(j as int).map_values(|s: String| s@).push(
                        stmts[j as int]@,
                    ) =~= (before + stmts.take(j as int).map_values(|s: String| s@)).push(
                        stmts[j as int]@,
                    ));
                }
                j += 1;
            }
            proof {
                assert(regs@[i as int].statements@.take(regs@[i as int].statements@.len() as int)
                    =~= regs@[i as int].statements@);
                assert(register_statement_texts(regs@[i as int]) =~= regs@[i as int].statements@.map_values(
                    |s: String| s@,
                ));
            }
        } else {
            proof {
                assert(entity_defines(text_of_strings(tables@), regs@.take(i as int)) + Seq::<
                    Seq<char>,
                >::empty() =~= entity_defines(text_of_strings(tables@), regs@.take(i as int)));
            }
        }
        i += 1;
    }
    proof {
        assert(regs@.take(regs@.len() as int) =~= regs@);
    }
    r
}

/// Where the reconciliation protocol stands.
#[derive(Clone, Copy, Debug, PartialEq, Eq, Structural)]
pub enum Stage {
    /// Waiting for the namespace catalog response.
    CheckNamespace,
    /// Waiting for the acknowledgement of the namespace definition.
    DefineNamespace,
    /// Waiting for the acknowledgement of the namespace selection.
    SelectNamespace,
    /// Waiting for the database catalog response.
    CheckDatabase,
    /// Waiting for the acknowledgement of the database definition.
    DefineDatabase,
    /// Waiting for the acknowledgement of the database selection.
    SelectDatabase,
    /// Waiting for the table catalog response.
    FetchTables,
    /// Applying the pending statements; the payload counts how many have
    /// been handed out so far.
    Apply(usize),
    /// Finished, successfully or not.
    Done,
}

/// What the driver must perform next against the live connection.
#[derive(Debug)]
pub enum DbAction {
    /// Execute this query text.
    RunQuery(String),
    /// Select this namespace on the connection.
    SelectNs(String),
    /// Select this database on the connection.
    SelectDb(String),
    /// Reconciliation is complete; nothing is left to perform.
    Finished,
}

/// What the last performed action came to.
#[derive(Debug)]
pub enum DbEvent {
    /// A catalog query answered with this structured value.
    Response(Value),
    /// The action completed; no structured value was asked for.
    Ack,
    /// The round trip failed.
    Failed,
}

/// Whether the stage waits for a structured catalog response, as opposed
/// to a bare acknowledgement.
pub open spec fn expects_response(stage: Stage) -> bool {
    stage == Stage::CheckNamespace || stage == Stage::CheckDatabase || stage == Stage::FetchTables
}

/// Whether an event is the kind of outcome the stage waits for. A failure
/// can arrive at any stage.
pub open spec fn event_fits(stage: Stage, event: DbEvent) -> bool {
    match event {
        DbEvent::Response(_) => expects_response(stage),
        DbEvent::Ack => !expects_response(stage),
        DbEvent::Failed => true,
    }
}

/// The reconciler state machine. Built over a target namespace name, a
/// database name and the entity registry, it hands the driver one
/// [`DbAction`] at a time and consumes one [`DbEvent`] per action. The
/// sequence is strictly: namespace check, namespace definition if absent,
/// namespace selection, the same for the database, one table catalog
/// fetch, then the pending statements of [`entity_defines`] in order.
///
/// Selection is connection-scoped state, so one reconciliation run must
/// have its connection to itself; two concurrent runs sharing a
/// connection may interleave their selections.
pub struct Reconciler {
    /// The target namespace name.
    pub ns: String,
    /// The target database name.
    pub db: String,
    /// The registered entities.
    pub entities: Vec<Register>,
    /// The statements still to apply, filled at the table catalog fetch.
    pub pending: Vec<String>,
    /// Where the protocol stands.
    pub stage: Stage,
}

impl Reconciler {
    /// Builds a reconciler for one target namespace, database and entity
    /// registry.
    pub fn new(ns: String, db: String, entities: Vec<Register>) -> (r: Reconciler)
        ensures
            r.ns == ns,
            r.db == db,
            r.entities == entities,
            r.pending@.len() == 0,
            r.stage == Stage::CheckNamespace,
    {
        Reconciler { ns, db, entities, pending: Vec::new(), stage: Stage::CheckNamespace }
    }

    /// The first action of the protocol: the namespace catalog query.
    pub fn start(&self) -> (r: DbAction)
        requires
            self.stage == Stage::CheckNamespace,
        ensures
            r matches DbAction::RunQuery(q) && q@ == "INFO FOR KV"@,
    {
        DbAction::RunQuery(String::from_str("INFO FOR KV"))
    }

    /// Consumes the outcome of the last action and answers the next one.
    ///
    /// A failed round trip aborts the run with
    /// [`DbError::ConnectionFailure`]; a catalog response of the wrong
    /// shape aborts it with [`DbError::MalformedCatalog`]. An absent
    /// namespace or database is answered with its define statement before
    /// its selection; a present one is selected directly. After the table
    /// catalog fetch the pending statements are exactly
    /// [`entity_defines`] of the fetched table set over the registry, and
    /// they are handed out in order until [`DbAction::Finished`].
    pub fn step(&mut self, event: DbEvent) -> (r: Result<DbAction, DbError>)
        requires
            old(self).stage != Stage::Done,
            event_fits(old(self).stage, event),
        ensures
            final(self).ns == old(self).ns,
            final(self).db == old(self).db,
            final(self).entities == old(self).entities,
            r is Err ==> final(self).stage == Stage::Done,
            event is Failed ==> r is Err && r->Err_0 == DbError::ConnectionFailure,
            !(event is Failed) && old(self).stage == Stage::CheckNamespace ==> match event {
                DbEvent::Response(v) => {
                    if !catalog_well_shaped(v, "namespaces"@) {
                        &&& r is Err
                        &&& r->Err_0 == DbError::MalformedCatalog
                    } else if lookup_text(
                        catalog_entries(v, "namespaces"@)->0@,
                        old(self).ns@,
                    ) is None {
                        &&& r matches Ok(DbAction::RunQuery(q)) && q@ == define_namespace_text(
                            old(self).ns@,
                        )
                        &&& final(self).stage == Stage::DefineNamespace
                    } else {
                        &&& r matches Ok(DbAction::SelectNs(n)) && n@ == old(self).ns@
                        &&& final(self).stage == Stage::SelectNamespace
                    }
                },
                _ => true,
            },
            !(event is Failed) && old(self).stage == Stage::DefineNamespace ==> {
                &&& r matches Ok(DbAction::SelectNs(n)) && n@ == old(self).ns@
                &&& final(self).stage == Stage::SelectNamespace
            },
            !(event is Failed) && old(self).stage == Stage::SelectNamespace ==> {
                &&& r matches Ok(DbAction::RunQuery(q)) && q@ == "INFO FOR NS"@
                &&& final(self).stage == Stage::CheckDatabase
            },
            !(event is Failed) && old(self).stage == Stage::CheckDatabase ==> match event {
                DbEvent::Response(v) => {
                    if !catalog_well_shaped(v, "databases"@) {
                        &&& r is Err
                        &&& r->Err_0 == DbError::MalformedCatalog
                    } else if lookup_text(
                        catalog_entries(v, "databases"@)->0@,
                        old(self).db@,
                    ) is None {
                        &&& r matches Ok(DbAction::RunQuery(q)) && q@ == define_database_text(
                            old(self).db@,
                        )
                        &&& final(self).stage == Stage::DefineDatabase
                    } else {
                        &&& r matches Ok(DbAction::SelectDb(d)) && d@ == old(self).db@
                        &&& final(self).stage == Stage::SelectDatabase
                    }
                },
                _ => true,
            },
            !(event is Failed) && old(self).stage == Stage::DefineDatabase ==> {
                &&& r matches Ok(DbAction::SelectDb(d)) && d@ == old(self).db@
                &&& final(self).stage == Stage::SelectDatabase
            },
            !(event is Failed) && old(self).stage == Stage::SelectDatabase ==> {
                &&& r matches Ok(DbAction::RunQuery(q)) && q@ == "INFO FOR DB"@
                &&& final(self).stage == Stage::FetchTables
            },
            !(event is Failed) && old(self).stage == Stage::FetchTables ==> match event {
                DbEvent::Response(v) => {
                    if !catalog_well_shaped(v, "tables"@) {
                        &&& r is Err
                        &&& r->Err_0 == DbError::MalformedCatalog
                    } else {
                        &&& final(self).pending@.map_values(|s: String| s@) == entity_defines(
                            response_tables(v),
                            old(self).entities@,
                        )
                        &&& if final(self).pending@.len() == 0 {
                            &&& r matches Ok(DbAction::Finished)
                            &&& final(self).stage == Stage::Done
                        } else {
                            &&& r matches Ok(DbAction::RunQuery(q)) && q@ == final(self).pending@[0]@
                            &&& final(self).stage == Stage::Apply(1)
                        }
                    }
                },
                _ => true,
            },
            !(event is Failed) ==> match old(self).stage {
                Stage::Apply(k) => {
                    &&& final(self).pending == old(self).pending
                    &&& if (k as int) < old(self).pending@.len() {
                        &&& r matches Ok(DbAction::RunQuery(q)) && q@ == old(
                            self,
                        ).pending@[k as int]@
                        &&& final(self).stage == Stage::Apply((k + 1) as usize)
                    } else {
                        &&& r matches Ok(DbAction::Finished)
                        &&& final(self).stage == Stage::Done
                    }
                },
                _ => true,
            },
    {
        match event {
            DbEvent::Failed => {
                self.stage = Stage::Done;
                Err(DbError::ConnectionFailure)
            },
            DbEvent::Response(v) => match self.stage {
                Stage::CheckNamespace => {
                    match catalog_missing(&v, "namespaces", self.ns.as_str()) {
                        Err(e) => {
                            self.stage = Stage::Done;
                            Err(e)
                        },
                        Ok(true) => {
                            self.stage = Stage::DefineNamespace;
                            let mut q = String::from_str("DEFINE NAMESPACE ");
                            q.append(self.ns.as_str());
                            q.append(";");
                            Ok(DbAction::RunQuery(q))
                        },
                        Ok(false) => {
                            self.stage = Stage::SelectNamespace;
                            Ok(DbAction::SelectNs(self.ns.clone()))
                        },
                    }
                },
                Stage::CheckDatabase => {
                    match catalog_missing(&v, "databases", self.db.as_str()) {
                        Err(e) => {
                            self.stage = Stage::Done;
                            Err(e)
                        },
                        Ok(true) => {
                            self.stage = Stage::DefineDatabase;
                            let mut q = String::from_str("DEFINE DATABASE ");
                            q.append(self.db.as_str());
                            q.append(";");
                            Ok(DbAction::RunQuery(q))
                        },
                        Ok(false) => {
                            self.stage = Stage::SelectDatabase;
                            Ok(DbAction::SelectDb(self.db.clone()))
                        },
                    }
                },
                Stage::FetchTables => {
                    match table_names(&v) {
                        Err(e) => {
                            self.stage = Stage::Done;
                            Err(e)
                        },
                        Ok(tables) => {
                            self.pending = entity_statements(&tables, &self.entities);
                            if self.pending.len() == 0 {
                                self.stage = Stage::Done;
                                Ok(DbAction::Finished)
                            } else {
                                self.stage = Stage::Apply(1);
                                Ok(DbAction::RunQuery(self.pending[0].clone()))
                            }
                        },
                    }
                },
                _ => {
                    proof {
                        assert(false);
                    }
                    self.stage = Stage::Done;
                    Err(DbError::ConnectionFailure)
                },
            },
            DbEvent::Ack => match self.stage {
                Stage::DefineNamespace => {
                    self.stage = Stage::SelectNamespace;
                    Ok(DbAction::SelectNs(self.ns.clone()))
                },
                Stage::SelectNamespace => {
                    self.stage = Stage::CheckDatabase;
                    Ok(DbAction::RunQuery(String::from_str("INFO FOR NS")))
                },
                Stage::DefineDatabase => {
                    self.stage = Stage::SelectDatabase;
                    Ok(DbAction::SelectDb(self.db.clone()))
                },
                Stage::SelectDatabase => {
                    self.stage = Stage::FetchTables;
                    Ok(DbAction::RunQuery(String::from_str("INFO FOR DB")))
                },
                Stage::Apply(k) => {
                    if k < self.pending.len() {
                        self.stage = Stage::Apply(k + 1);
                        Ok(DbAction::RunQuery(self.pending[k].clone()))
                    } else {
                        self.stage = Stage::Done;
                        Ok(DbAction::Finished)
                    }
                },
                _ => {
                    proof {
                        assert(false);
                    }
                    self.stage = Stage::Done;
                    Err(DbError::ConnectionFailure)
                },
            },
        }
    }
}

} // verus!
