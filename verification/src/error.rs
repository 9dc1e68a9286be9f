//! The error kinds the library reports.
//!
//! Every failure is surfaced to the immediate caller; nothing is retried or
//! suppressed inside the library.

use vstd::prelude::*;

verus! {

/// Why a schema or storage operation failed.
#[derive(Debug, Clone, Copy, PartialEq, Eq, Structural)]
pub enum DbError {
    /// An underlying round trip to the database failed.
    ConnectionFailure,
    /// A catalog response was missing an expected key or had the wrong
    /// shape. Distinct from legitimate absence of a namespace, database or
    /// table, which is answered by a define statement, not an error.
    MalformedCatalog,
    /// A candidate value could not be turned into a structured value for
    /// comparison or storage.
    SerializationFailure,
    /// A declared field type could not be parsed into any descriptor,
    /// including the `object` fallback. Reserved for syntactically invalid
    /// type expressions only.
    UnsupportedType,
    /// An insert reported success but returned no identifiable row.
    MissingCreatedRecord,
}

} // verus!
