//! Schema derivation and content-addressed inserts for a document/graph
//! database client.
//!
//! The crate has four parts, composed at two distinct times:
//!
//! - a type-to-schema-type mapper ([`type_map`]): maps a declared field type
//!   to a schema type descriptor, totally (unknown named types degrade to
//!   `object`; only unparseable syntactic shapes fail);
//! - a schema statement builder ([`statements`]): combines mapper output and
//!   per-field configuration into the ordered statement list for one table;
//! - a schema reconciler ([`reconcile`]): a step-wise state machine that
//!   inspects the live catalog and applies only the statements of entities
//!   whose table is absent — it never alters or drops what already exists;
//! - content-addressed upsert ([`upsert`]): builds the equality lookup for a
//!   candidate row and decides between returning an existing identifier and
//!   inserting a new row.
//!
//! The database connection and the serializer are outside collaborators: the
//! caller executes the queries this crate builds and hands back the
//! structured results, modelled by [`value::Value`].

pub mod error;
pub mod reconcile;
pub mod record_id;
pub mod statements;
pub mod type_map;
pub mod upsert;
pub mod value;

pub use error::DbError;
pub use reconcile::Reconciler;
pub use reconcile::Register;
pub use record_id::Record;
pub use record_id::RecordData;
pub use record_id::RecordId;
pub use statements::FieldSpec;
pub use value::Value;

use vstd::prelude::*;

verus! {

/// A type whose rows can be read back partially: `keys` lists the column
/// names to select (the row identifier first, then each non-excluded
/// field).
pub trait SurrealSelectInfo {
    /// All selectable attribute names, in declaration order, `id` first.
    fn keys() -> (r: Vec<String>);
}

/// A persistable entity type: what a table registration needs to know of
/// it. Implementations are written per entity type, typically generated
/// from the type's definition; the accessors are pure and safe to call
/// any number of times.
pub trait SurrealTableInfo: SurrealSelectInfo {
    /// The table name of the entity.
    fn name() -> (r: String);

    /// The path of the language-level type the entity describes.
    fn path() -> (r: String);

    /// The field names left out of the comparison set of the
    /// deduplicated insert. Excluded fields are still schema-defined.
    fn exclude() -> (r: Vec<String>);

    /// The ordered schema statement list of the entity, as the statement
    /// builder emits it.
    fn funcs() -> (r: Vec<String>);

    /// Packs the entity's accessors into a registration for the
    /// reconciler.
    fn register() -> (r: Register) {
        Register { name: Self::name(), path: Self::path(), statements: Self::funcs() }
    }
}

} // verus!
