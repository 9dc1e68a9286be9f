//! Record identifiers.
//!
//! A [`RecordId`] is an opaque (table name, key) pair identifying one
//! stored row. Equality is structural: two identifiers are equal exactly
//! when their table names and keys read the same. An identifier is created
//! by the store on insert or reconstructed from its `table:key` text, and
//! never mutated.

use vstd::prelude::*;
use vstd::string::StrSliceExecFns;
use vstd::string::StringExecFns;

verus! {

/// An opaque (table name, key) pair identifying one stored row.
#[derive(Clone, Debug)]
pub struct RecordId {
    /// The table the row lives in.
    pub table: String,
    /// The key of the row within its table.
    pub key: String,
}

impl PartialEq for RecordId {
    fn eq(&self, other: &RecordId) -> (r: bool) {
        self.table == other.table && self.key == other.key
    }
}

impl vstd::std_specs::cmp::PartialEqSpecImpl for RecordId {
    open spec fn obeys_eq_spec() -> bool {
        true
    }

    open spec fn eq_spec(&self, other: &RecordId) -> bool {
        self.table@ == other.table@ && self.key@ == other.key@
    }
}

/// Whether some position of the text holds a colon.
pub open spec fn has_colon(s: Seq<char>) -> bool {
    exists|i: int| 0 <= i < s.len() && s[i] == ':'
}

impl RecordId {
    /// Builds an identifier from a table name and a key.
    pub fn new(table: String, key: String) -> (r: RecordId)
        ensures
            r.table == table,
            r.key == key,
    {
        RecordId { table, key }
    }

    /// The table the row lives in.
    pub fn tb(&self) -> (r: &str)
        ensures
            r@ == self.table@,
    {
        self.table.as_str()
    }

    /// The key of the row within its table.
    pub fn id(&self) -> (r: &str)
        ensures
            r@ == self.key@,
    {
        self.key.as_str()
    }

    /// The `table:key` text of the identifier.
    pub fn text(&self) -> (r: String)
        ensures
            r@ == self.table@ + seq![':'] + self.key@,
    {
        proof {
            reveal_strlit(":");
            assert(":"@ =~= seq![':']);
        }
        let mut r = self.table.clone();
        r.append(":");
        r.append(self.key.as_str());
        r
    }

    /// Reconstructs an identifier from its `table:key` text, splitting at
    /// the first colon: everything before it is the table name, everything
    /// after it the key. Answers nothing exactly when the text holds no
    /// colon.
    pub fn parse(s: &str) -> (r: Option<RecordId>)
        ensures
            r is Some <==> has_colon(s@),
            r is Some ==> {
                let t = r->0;
                &&& t.table@ + seq![':'] + t.key@ == s@
                &&& !has_colon(t.table@)
            },
    {
        let len = s.unicode_len();
        let mut i: usize = 0;
        while i < len
            invariant
                i <= len,
                len == s@.len(),
                forall|j: int| 0 <= j < i ==> s@[j] != ':',
            decreases len - i,
        {
            if s.get_char(i) == ':' {
                let table = s.substring_char(0, i);
                let key = s.substring_char(i + 1, len);
                proof {
                    assert(s@.subrange(0, i as int) + seq![':'] + s@.subrange(
                        i as int + 1,
                        len as int,
                    ) =~= s@);
                }
                return Some(
                    RecordId { table: String::from_str(table), key: String::from_str(key) },
                );
            }
            i += 1;
        }
        None
    }
}

/// A stored row's identifier, as a response on its own: what an insert or
/// an identifier-only selection deserializes into.
#[derive(Clone, Debug)]
pub struct Record {
    /// The identifier of the row.
    pub id: RecordId,
}

impl Record {
    /// Wraps an identifier.
    pub fn new(id: RecordId) -> (r: Record)
        ensures
            r.id == id,
    {
        Record { id }
    }
}

/// A stored row's identifier paired with its typed payload.
#[derive(Clone, Debug)]
pub struct RecordData<D> {
    /// The identifier of the row.
    pub id: RecordId,
    /// The payload of the row; its field layout matches the payload's
    /// generated schema.
    pub data: D,
}

} // verus!
