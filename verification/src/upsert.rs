//! Content-addressed upsert: insert-if-no-equal-row-exists.
//!
//! A candidate row, serialized by the outside serializer into a
//! [`Value`], is deduplicated by equality before insert: every field not
//! in the entity's exclusion set becomes an equality predicate, the
//! predicates are conjoined, and the first matching row's identifier is
//! looked up. If one exists it is returned without writing; otherwise the
//! candidate is inserted and the fresh identifier returned.
//!
//! The check-then-act sequence is not atomic: two concurrent calls with
//! equal comparison fields can both observe "no match" and both insert.
//! That is a caller-visible hazard of the design, not hidden here; only a
//! uniqueness constraint at the schema level makes it safe under
//! concurrency. A candidate with zero comparable fields (every field
//! excluded) degrades to "match any row of the table" — avoiding that is
//! likewise the caller's responsibility.

use vstd::prelude::*;
use vstd::string::StringExecFns;

use crate::error::DbError;
use crate::reconcile::text_of_strings;
use crate::record_id::Record;
use crate::record_id::RecordId;
use crate::value::Value;
use crate::value::contains_string;
use crate::value::contains_text;
use crate::value::joined_text;
use crate::value::join_strings;
use crate::value::literal_text;
use crate::value::lookup;
use crate::value::lookup_text;
use crate::value::render_literal;

verus! {

/// The comparison pairs of a candidate's fields: for every field not in
/// the exclusion set, its name text and its rendered literal, in field
/// order.
pub open spec fn comparison_pairs(entries: Seq<(String, Value)>, exclude: Seq<String>) -> Seq<
    (Seq<char>, Seq<char>),
>
    decreases entries,
{
    if entries.len() == 0 {
        Seq::empty()
    } else {
        (if contains_text(exclude, entries[0].0@) {
            Seq::empty()
        } else {
            seq![(entries[0].0@, literal_text(entries[0].1))]
        }) + comparison_pairs(entries.drop_first(), exclude)
    }
}

/// The equality predicate texts of the comparison pairs, in order.
pub open spec fn predicate_texts(pairs: Seq<(Seq<char>, Seq<char>)>) -> Seq<Seq<char>>
    decreases pairs,
{
    if pairs.len() == 0 {
        Seq::empty()
    } else {
        seq![pairs[0].0 + " = "@ + pairs[0].1] + predicate_texts(pairs.drop_first())
    }
}

/// The existence lookup query of a candidate: select the identifier of
/// the first row of the table whose non-excluded fields all equal the
/// candidate's.
pub open spec fn existence_query_text(
    table: Seq<char>,
    entries: Seq<(String, Value)>,
    exclude: Seq<String>,
) -> Seq<char> {
    "SELECT id FROM "@ + table + " WHERE "@ + joined_text(
        predicate_texts(comparison_pairs(entries, exclude)),
        " AND "@,
    ) + " LIMIT 1;"@
}

/// One more field extends the comparison pairs of the prefix by its pair,
/// unless the field is excluded.
proof fn lemma_comparison_pairs_push(entries: Seq<(String, Value)>, exclude: Seq<String>, i: int)
    requires
        0 <= i < entries.len(),
    ensures
        comparison_pairs(entries.take(i + 1), exclude) == comparison_pairs(
            entries.take(i),
            exclude,
        ) + (if contains_text(exclude, entries[i].0@) {
            Seq::<(Seq<char>, Seq<char>)>::empty()
        } else {
            seq![(entries[i].0@, literal_text(entries[i].1))]
        }),
    decreases i,
{
    if i == 0 {
        assert(entries.take(1)[0] == entries[0]);
        assert(entries.take(1).drop_first() =~= Seq::<(String, Value)>::empty());
        assert(comparison_pairs(Seq::<(String, Value)>::empty(), exclude) =~= Seq::<
            (Seq<char>, Seq<char>),
        >::empty());
        assert(comparison_pairs(entries.take(0), exclude) =~= Seq::<(Seq<char>, Seq<char>)>::empty());
        let head = if contains_text(exclude, entries[0].0@) {
            Seq::<(Seq<char>, Seq<char>)>::empty()
        } else {
            seq![(entries[0].0@, literal_text(entries[0].1))]
        };
        assert(comparison_pairs(entries.take(1), exclude) =~= head + Seq::<
            (Seq<char>, Seq<char>),
        >::empty());
        assert(head + Seq::<(Seq<char>, Seq<char>)>::empty() =~= head);
        assert(comparison_pairs(entries.take(0), exclude) + head =~= head);
    } else {
        lemma_comparison_pairs_push(entries.drop_first(), exclude, i - 1);
        assert(entries.take(i + 1).drop_first() =~= entries.drop_first().take(i));
        assert(entries.take(i).drop_first() =~= entries.drop_first().take(i - 1));
        let head = if contains_text(exclude, entries[0].0@) {
            Seq::<(Seq<char>, Seq<char>)>::empty()
        } else {
            seq![(entries[0].0@, literal_text(entries[0].1))]
        };
        let tail_prefix = comparison_pairs(entries.drop_first().take(i - 1), exclude);
        let last = if contains_text(exclude, entries[i].0@) {
            Seq::<(Seq<char>, Seq<char>)>::empty()
        } else {
            seq![(entries[i].0@, literal_text(entries[i].1))]
        };
        assert(head + (tail_prefix + last) =~= (head + tail_prefix) + last);
    }
}

/// One more pair extends the predicate texts of the prefix by its
/// predicate.
proof fn lemma_predicate_texts_push(pairs: Seq<(Seq<char>, Seq<char>)>, i: int)
    requires
        0 <= i < pairs.len(),
    ensures
        predicate_texts(pairs.take(i + 1)) == predicate_texts(pairs.take(i)) + seq![
            pairs[i].0 + " = "@ + pairs[i].1,
        ],
    decreases i,
{
    if i == 0 {
        assert(pairs.take(1)[0] == pairs[0]);
        assert(pairs.take(1).drop_first() =~= Seq::<(Seq<char>, Seq<char>)>::empty());
        assert(predicate_texts(Seq::<(Seq<char>, Seq<char>)>::empty()) =~= Seq::<Seq<char>>::empty());
        assert(predicate_texts(pairs.take(1)) =~= seq![pairs[0].0 + " = "@ + pairs[0].1]);
        assert(predicate_texts(pairs.take(0)) =~= Seq::<Seq<char>>::empty());
        assert(predicate_texts(pairs.take(0)) + seq![pairs[0].0 + " = "@ + pairs[0].1] =~= seq![
            pairs[0].0 + " = "@ + pairs[0].1,
        ]);
    } else {
        lemma_predicate_texts_push(pairs.drop_first(), i - 1);
        assert(pairs.take(i + 1).drop_first() =~= pairs.drop_first().take(i));
        assert(pairs.take(i).drop_first() =~= pairs.drop_first().take(i - 1));
        let head = seq![pairs[0].0 + " = "@ + pairs[0].1];
        let tail_prefix = predicate_texts(pairs.drop_first().take(i - 1));
        let last = seq![pairs[i].0 + " = "@ + pairs[i].1];
        assert(head + (tail_prefix + last) =~= (head + tail_prefix) + last);
    }
}

/// Prefixes compose: the comparison pairs of a prefix followed by one
/// more field are a prefix of the comparison pairs of the whole.
proof fn lemma_comparison_pairs_prefix(entries: Seq<(String, Value)>, exclude: Seq<String>, i: int)
    requires
        0 <= i <= entries.len(),
    ensures
        comparison_pairs(entries, exclude) == comparison_pairs(entries.take(i), exclude)
            + comparison_pairs(entries.skip(i), exclude),
    decreases i,
{
    if i == 0 {
        assert(entries.take(0) =~= Seq::<(String, Value)>::empty());
        assert(entries.skip(0) =~= entries);
        assert(comparison_pairs(Seq::<(String, Value)>::empty(), exclude) =~= Seq::<
            (Seq<char>, Seq<char>),
        >::empty());
        assert(Seq::<(Seq<char>, Seq<char>)>::empty() + comparison_pairs(entries, exclude)
            =~= comparison_pairs(entries, exclude));
    } else {
        lemma_comparison_pairs_prefix(entries.drop_first(), exclude, i - 1);
        assert(entries.take(i).drop_first() =~= entries.drop_first().take(i - 1));
        assert(entries.skip(i) =~= entries.drop_first().skip(i - 1));
        assert(entries.take(i)[0] == entries[0]);
        assert(entries.take(i).len() == i);
        let head = if contains_text(exclude, entries[0].0@) {
            Seq::<(Seq<char>, Seq<char>)>::empty()
        } else {
            seq![(entries[0].0@, literal_text(entries[0].1))]
        };
        assert(comparison_pairs(entries, exclude) == head + comparison_pairs(
            entries.drop_first(),
            exclude,
        ));
        assert(comparison_pairs(entries.take(i), exclude) == head + comparison_pairs(
            entries.drop_first().take(i - 1),
            exclude,
        ));
        assert(head + (comparison_pairs(entries.drop_first().take(i - 1), exclude)
            + comparison_pairs(entries.drop_first().skip(i - 1), exclude)) =~= (head
            + comparison_pairs(entries.drop_first().take(i - 1), exclude)) + comparison_pairs(
            entries.drop_first().skip(i - 1),
            exclude,
        ));
    }
}

/// Builds the equality predicate texts of a candidate's non-excluded
/// fields, in field order.
pub fn comparison_predicates(entries: &Vec<(String, Value)>, exclude: &Vec<String>) -> (r: Vec<
    String,
>)
    ensures
        r@.map_values(|s: String| s@) == predicate_texts(comparison_pairs(entries@, exclude@)),
{
    let mut r: Vec<String> = Vec::new();
    let mut i: usize = 0;
    while i < entries.len()
        invariant
            i <= entries.len(),
            r@.map_values(|s: String| s@) == predicate_texts(
                comparison_pairs(entries@.take(i as int), exclude@),
            ),
        decreases entries.len() - i,
    {
        proof {
            lemma_comparison_pairs_push(entries@, exclude@, i as int);
        }
        let ghost prev_pairs = comparison_pairs(entries@.take(i as int), exclude@);
        if !contains_string(exclude, entries[i].0.as_str()) {
            let mut pred = entries[i].0.clone();
            pred.append(" = ");
            pred.append(render_literal(&entries[i].1).as_str());
            let ghost prev_r = r@;
            let ghost pred_v = pred;
            r.push(pred);
            proof {
                let new_pair = (entries@[i as int].0@, literal_text(entries@[i as int].1));
                let pushed = prev_pairs.push(new_pair);
                lemma_predicate_texts_push(pushed, prev_pairs.len() as int);
                assert(pushed.take(prev_pairs.len() as int) =~= prev_pairs);
                assert(pushed.take(prev_pairs.len() as int + 1) =~= pushed);
                assert(prev_pairs + seq![new_pair] =~= pushed);
                prev_r.lemma_push_map_commute(|s: String| s@, pred_v);
                assert(pred_v@ == new_pair.0 + " = "@ + new_pair.1);
                assert(predicate_texts(prev_pairs).push(pred_v@) =~= predicate_texts(prev_pairs)
                    + seq![new_pair.0 + " = "@ + new_pair.1]);
                assert(r@.map_values(|s: String| s@) =~= predicate_texts(
                    comparison_pairs(entries@.take(i as int + 1), exclude@),
                ));
            }
        } else {
            proof {
                assert(prev_pairs + Seq::<(Seq<char>, Seq<char>)>::empty() =~= prev_pairs);
            }
        }
        i += 1;
    }
    proof {
        assert(entries@.take(entries@.len() as int) =~= entries@);
    }
    r
}

/// Builds the existence lookup query of a candidate against its table:
/// `SELECT id FROM <table> WHERE <field = literal AND ...> LIMIT 1;`,
/// with one equality predicate per non-excluded field.
///
/// A candidate that did not serialize to an object cannot be compared
/// field by field and is a [`DbError::SerializationFailure`].
pub fn existence_query(table: &str, candidate: &Value, exclude: &Vec<String>) -> (r: Result<
    String,
    DbError,
>)
    ensures
        r is Ok <==> candidate is Object,
        r is Err ==> r->Err_0 == DbError::SerializationFailure,
        r is Ok ==> r->Ok_0@ == existence_query_text(table@, candidate->Object_0@, exclude@),
{
    match candidate {
        Value::Object(entries) => {
            let preds = comparison_predicates(entries, exclude);
            let mut q = String::from_str("SELECT id FROM ");
            q.append(table);
            q.append(" WHERE ");
            q.append(join_strings(&preds, " AND ").as_str());
            q.append(" LIMIT 1;");
            Ok(q)
        },
        _ => Err(DbError::SerializationFailure),
    }
}

/// The text of a search query: the selected keys, the table, and an
/// optional raw filter clause appended after a space.
pub open spec fn search_query_text(
    keys: Seq<Seq<char>>,
    table: Seq<char>,
    filter: Option<String>,
) -> Seq<char> {
    "SELECT "@ + joined_text(keys, ", "@) + " FROM "@ + table + (match filter {
        Option::Some(f) => " "@ + f@,
        Option::None => Seq::empty(),
    }) + ";"@
}

/// Builds the query that searches a table: the given column names, the
/// table, and the raw filter clause when one is given.
pub fn search_query(keys: &Vec<String>, table: &str, filter: &Option<String>) -> (r: String)
    ensures
        r@ == search_query_text(text_of_strings(keys@), table@, *filter),
{
    let mut q = String::from_str("SELECT ");
    q.append(join_strings(keys, ", ").as_str());
    q.append(" FROM ");
    q.append(table);
    match filter {
        Option::Some(f) => {
            q.append(" ");
            q.append(f.as_str());
        },
        Option::None => {
            proof {
                assert(q@ + Seq::<char>::empty() =~= q@);
            }
        },
    }
    q.append(";");
    q
}

/// Builds the query that reads the given columns of one row by its
/// identifier.
pub fn select_part_query(keys: &Vec<String>, id: &RecordId) -> (r: String)
    ensures
        r@ == "SELECT "@ + joined_text(text_of_strings(keys@), ", "@) + " FROM "@ + id.table@
            + seq![':'] + id.key@,
{
    let mut q = String::from_str("SELECT ");
    q.append(join_strings(keys, ", ").as_str());
    q.append(" FROM ");
    q.append(id.text().as_str());
    q
}

/// The statement that inserts a candidate as a new row of its table.
pub open spec fn create_query_text(table: Seq<char>, candidate: Value) -> Seq<char> {
    "CREATE "@ + table + " CONTENT "@ + literal_text(candidate) + ";"@
}

/// Builds the statement that inserts a candidate as a new row.
pub fn create_query(table: &str, candidate: &Value) -> (r: String)
    ensures
        r@ == create_query_text(table@, *candidate),
{
    let mut q = String::from_str("CREATE ");
    q.append(table);
    q.append(" CONTENT ");
    q.append(render_literal(candidate).as_str());
    q.append(";");
    q
}

/// The identifier text of the first row of a lookup response, when the
/// response is an array whose first element is an object carrying a text
/// under `id`.
pub open spec fn first_id_text(response: Value) -> Option<Seq<char>> {
    match response {
        Value::Array(rows) => if rows@.len() > 0 {
            match rows@[0] {
                Value::Object(entries) => match lookup_text(entries@, "id"@) {
                    Option::Some(v) => match v {
                        Value::Strand(s) => Option::Some(s@),
                        _ => Option::None,
                    },
                    Option::None => Option::None,
                },
                _ => Option::None,
            }
        } else {
            Option::None
        },
        _ => Option::None,
    }
}

/// Reads an existence lookup's response: the identifier of the first
/// matching row, parsed from its `table:key` text, if the response holds
/// one.
pub fn first_record_id(response: &Value) -> (r: Option<RecordId>)
    ensures
        match first_id_text(*response) {
            Option::Some(t) => if crate::record_id::has_colon(t) {
                r matches Option::Some(id) && id.table@ + seq![':'] + id.key@ == t
            } else {
                r is None
            },
            Option::None => r is None,
        },
{
    match response {
        Value::Array(rows) => {
            if rows.len() > 0 {
                match &rows[0] {
                    Value::Object(entries) => match lookup(entries, "id") {
                        Option::Some(v) => match v {
                            Value::Strand(s) => RecordId::parse(s.as_str()),
                            _ => None,
                        },
                        Option::None => None,
                    },
                    _ => None,
                }
            } else {
                None
            }
        },
        _ => None,
    }
}

/// What get-or-insert does once the existence lookup has answered: an
/// existing identifier is returned as is, without writing; no match means
/// the candidate must be inserted.
pub enum UpsertAction {
    /// A row with equal comparison fields exists under this identifier;
    /// nothing is written.
    UseExisting(RecordId),
    /// No row matched; the candidate is to be inserted as a new row.
    InsertNew,
}

/// Decides between returning an existing identifier and inserting,
/// from the existence lookup's answer.
pub fn upsert_decision(found: Option<RecordId>) -> (r: UpsertAction)
    ensures
        match found {
            Option::Some(id) => r == UpsertAction::UseExisting(id),
            Option::None => r == UpsertAction::InsertNew,
        },
{
    match found {
        Option::Some(id) => UpsertAction::UseExisting(id),
        Option::None => UpsertAction::InsertNew,
    }
}

/// Reads an insert's answer: the created row, or
/// [`DbError::MissingCreatedRecord`] when the insert reported success but
/// returned no identifiable row — an internal-consistency failure, fatal
/// to the call.
pub fn created_or_error(created: Option<Record>) -> (r: Result<Record, DbError>)
    ensures
        match created {
            Option::Some(rec) => r matches Ok(rr) && rr == rec,
            Option::None => r matches Err(e) && e == DbError::MissingCreatedRecord,
        },
{
    match created {
        Option::Some(rec) => Ok(rec),
        Option::None => Err(DbError::MissingCreatedRecord),
    }
}

/// Whether an insert produced a row: the boolean answer of the plain
/// insert operations.
pub fn insert_succeeded(created: &Option<Record>) -> (r: bool)
    ensures
        r == (created is Some),
{
    created.is_some()
}

/// Whether stored entries satisfy one comparison pair: the pair's key is
/// present and its first value renders to the pair's literal.
pub open spec fn pair_holds(entries: Seq<(String, Value)>, pair: (Seq<char>, Seq<char>)) -> bool {
    match lookup_text(entries, pair.0) {
        Option::Some(v) => literal_text(v) == pair.1,
        Option::None => false,
    }
}

/// Whether stored entries satisfy every comparison pair: what the
/// conjoined equality predicates of the existence lookup test of one
/// stored row.
pub open spec fn entries_satisfy(
    entries: Seq<(String, Value)>,
    pairs: Seq<(Seq<char>, Seq<char>)>,
) -> bool {
    forall|j: int| 0 <= j < pairs.len() ==> pair_holds(entries, #[trigger] pairs[j])
}

/// Whether a stored row satisfies every comparison pair.
pub open spec fn row_satisfies(row: Value, pairs: Seq<(Seq<char>, Seq<char>)>) -> bool {
    row is Object && entries_satisfy(row->Object_0@, pairs)
}

/// The key of the first stored row that satisfies the comparison pairs,
/// if any.
pub open spec fn first_match(rows: Seq<(u64, Value)>, pairs: Seq<(Seq<char>, Seq<char>)>) -> Option<
    u64,
>
    decreases rows.len(),
{
    if rows.len() == 0 {
        Option::None
    } else if row_satisfies(rows[0].1, pairs) {
        Option::Some(rows[0].0)
    } else {
        first_match(rows.drop_first(), pairs)
    }
}

/// A lookup skips a prefix of rows none of which satisfies the pairs.
proof fn lemma_first_match_skip(
    rows: Seq<(u64, Value)>,
    pairs: Seq<(Seq<char>, Seq<char>)>,
    i: int,
)
    requires
        0 <= i <= rows.len(),
        forall|k: int| 0 <= k < i ==> !row_satisfies((#[trigger] rows[k]).1, pairs),
    ensures
        first_match(rows, pairs) == first_match(rows.skip(i), pairs),
    decreases i,
{
    if i > 0 {
        lemma_first_match_skip(rows.drop_first(), pairs, i - 1);
        assert(rows.drop_first().skip(i - 1) =~= rows.skip(i));
    } else {
        assert(rows.skip(0) =~= rows);
    }
}

/// When no stored row satisfies the pairs, appending one row decides the
/// lookup: it answers the new key exactly when the new row satisfies
/// them.
proof fn lemma_first_match_push(
    rows: Seq<(u64, Value)>,
    pairs: Seq<(Seq<char>, Seq<char>)>,
    k: u64,
    v: Value,
)
    requires
        first_match(rows, pairs) is None,
    ensures
        first_match(rows.push((k, v)), pairs) == if row_satisfies(v, pairs) {
            Option::Some(k)
        } else {
            Option::None::<u64>
        },
    decreases rows.len(),
{
    if rows.len() == 0 {
        assert(rows.push((k, v))[0] == (k, v));
        assert(rows.push((k, v)).drop_first() =~= Seq::<(u64, Value)>::empty());
        assert(first_match(Seq::<(u64, Value)>::empty(), pairs) is None);
    } else {
        assert(rows.push((k, v))[0] == rows[0]);
        assert(rows.push((k, v)).drop_first() =~= rows.drop_first().push((k, v)));
        lemma_first_match_push(rows.drop_first(), pairs, k, v);
    }
}

/// Whether the entries carry pairwise distinct keys, as the serialized
/// fields of a struct do.
pub open spec fn unique_keys(entries: Seq<(String, Value)>) -> bool {
    forall|i: int, j: int| 0 <= i < j < entries.len() ==> entries[i].0@ != entries[j].0@
}

/// Under pairwise distinct keys, looking an entry's own key up finds that
/// entry.
proof fn lemma_lookup_finds(entries: Seq<(String, Value)>, i: int)
    requires
        unique_keys(entries),
        0 <= i < entries.len(),
    ensures
        lookup_text(entries, entries[i].0@) == Option::Some(entries[i].1),
    decreases i,
{
    if i > 0 {
        assert(entries[0].0@ != entries[i].0@);
        assert(forall|x: int, y: int|
            0 <= x < y < entries.drop_first().len() ==> (#[trigger] entries.drop_first()[x]).0@ != (
            #[trigger] entries.drop_first()[y]).0@) by {
            assert(forall|x: int|
                0 <= x < entries.drop_first().len() ==> #[trigger] entries.drop_first()[x]
                    == entries[x + 1]);
        }
        lemma_lookup_finds(entries.drop_first(), i - 1);
    }
}

/// Every comparison pair originates in some entry: its key is that
/// entry's, its literal that entry's value's, and the entry is not
/// excluded.
proof fn lemma_comparison_pair_origin(
    entries: Seq<(String, Value)>,
    exclude: Seq<String>,
    j: int,
)
    requires
        0 <= j < comparison_pairs(entries, exclude).len(),
    ensures
        exists|i: int|
            {
                &&& 0 <= i < entries.len()
                &&& (#[trigger] entries[i]).0@ == comparison_pairs(entries, exclude)[j].0
                &&& literal_text(entries[i].1) == comparison_pairs(entries, exclude)[j].1
            },
    decreases entries.len(),
{
    let pairs = comparison_pairs(entries, exclude);
    if !contains_text(exclude, entries[0].0@) && j == 0 {
        assert(pairs[0] == (entries[0].0@, literal_text(entries[0].1)));
        assert(entries[0].0@ == pairs[0].0 && literal_text(entries[0].1) == pairs[0].1);
    } else {
        let head: int = if contains_text(exclude, entries[0].0@) {
            0
        } else {
            1
        };
        lemma_comparison_pair_origin(entries.drop_first(), exclude, j - head);
        let i = choose|i: int|
            {
                &&& 0 <= i < entries.drop_first().len()
                &&& (#[trigger] entries.drop_first()[i]).0@ == comparison_pairs(
                    entries.drop_first(),
                    exclude,
                )[j - head].0
                &&& literal_text(entries.drop_first()[i].1) == comparison_pairs(
                    entries.drop_first(),
                    exclude,
                )[j - head].1
            };
        assert(entries[i + 1] == entries.drop_first()[i]);
        assert(pairs[j] == comparison_pairs(entries.drop_first(), exclude)[j - head]);
    }
}

/// An object with pairwise distinct keys satisfies its own comparison
/// pairs: the row a candidate is stored as matches the lookup the same
/// candidate generates.
pub proof fn lemma_self_match(entries: Seq<(String, Value)>, exclude: Seq<String>)
    requires
        unique_keys(entries),
    ensures
        entries_satisfy(entries, comparison_pairs(entries, exclude)),
{
    let pairs = comparison_pairs(entries, exclude);
    assert forall|j: int| 0 <= j < pairs.len() implies pair_holds(entries, #[trigger] pairs[j]) by {
        lemma_comparison_pair_origin(entries, exclude, j);
        let i = choose|i: int|
            {
                &&& 0 <= i < entries.len()
                &&& (#[trigger] entries[i]).0@ == pairs[j].0
                &&& literal_text(entries[i].1) == pairs[j].1
            };
        lemma_lookup_finds(entries, i);
    }
}

/// Deduplication, matching half: a candidate whose comparison pairs equal
/// those of an already stored candidate — identical non-excluded fields,
/// whatever its excluded fields hold — finds the stored row's key, when
/// that row was itself inserted because nothing matched it.
pub proof fn lemma_dedup_second_finds_first(
    rows: Seq<(u64, Value)>,
    a: Value,
    b_entries: Seq<(String, Value)>,
    exclude: Seq<String>,
    k: u64,
)
    requires
        a is Object,
        unique_keys(a->Object_0@),
        comparison_pairs(a->Object_0@, exclude) == comparison_pairs(b_entries, exclude),
        first_match(rows, comparison_pairs(b_entries, exclude)) is None,
    ensures
        first_match(rows.push((k, a)), comparison_pairs(b_entries, exclude)) == Option::Some(k),
{
    lemma_self_match(a->Object_0@, exclude);
    lemma_first_match_push(rows, comparison_pairs(b_entries, exclude), k, a);
}

/// Deduplication, distinctness half: a candidate that differs from the
/// stored one in some non-excluded field — one of its comparison pairs
/// does not hold of the stored row — still matches nothing after that row
/// is stored, so it is inserted as a row of its own, under a fresh key.
pub proof fn lemma_dedup_distinct_still_absent(
    rows: Seq<(u64, Value)>,
    a: Value,
    b_entries: Seq<(String, Value)>,
    exclude: Seq<String>,
    k: u64,
)
    requires
        a is Object,
        exists|j: int|
            0 <= j < comparison_pairs(b_entries, exclude).len() && !pair_holds(
                a->Object_0@,
                #[trigger] comparison_pairs(b_entries, exclude)[j],
            ),
        first_match(rows, comparison_pairs(b_entries, exclude)) is None,
    ensures
        first_match(rows.push((k, a)), comparison_pairs(b_entries, exclude)) is None,
{
    lemma_first_match_push(rows, comparison_pairs(b_entries, exclude), k, a);
}

/// Rows inserted under different numeric keys carry distinct
/// identifiers: the decimal key texts differ, so the two inserts of
/// candidates that differ in a non-excluded field answer identifiers
/// that never collide.
pub proof fn lemma_fresh_ids_distinct(k1: u64, k2: u64)
    requires
        k1 != k2,
    ensures
        crate::value::dec_text(k1 as nat) != crate::value::dec_text(k2 as nat),
{
    crate::value::lemma_dec_text_injective(k1 as nat, k2 as nat);
}

/// Tests whether a stored row satisfies every equality predicate a
/// candidate's non-excluded fields generate.
pub fn row_matches(row: &Value, cand_entries: &Vec<(String, Value)>, exclude: &Vec<String>) -> (r:
    bool)
    ensures
        r == row_satisfies(*row, comparison_pairs(cand_entries@, exclude@)),
{
    let rentries = match row {
        Value::Object(rentries) => rentries,
        _ => {
            return false;
        },
    };
    let ghost full_pairs = comparison_pairs(cand_entries@, exclude@);
    let mut j: usize = 0;
    while j < cand_entries.len()
        invariant
            j <= cand_entries.len(),
            *row is Object,
            rentries == row->Object_0,
            full_pairs == comparison_pairs(cand_entries@, exclude@),
            entries_satisfy(rentries@, comparison_pairs(cand_entries@.take(j as int), exclude@)),
        decreases cand_entries.len() - j,
    {
        proof {
            lemma_comparison_pairs_push(cand_entries@, exclude@, j as int);
        }
        let ghost prev_pairs = comparison_pairs(cand_entries@.take(j as int), exclude@);
        if !contains_string(exclude, cand_entries[j].0.as_str()) {
            let ghost new_pair = (cand_entries@[j as int].0@, literal_text(
                cand_entries@[j as int].1,
            ));
            let holds: bool = match lookup(rentries, cand_entries[j].0.as_str()) {
                Option::Some(v) => render_literal(v) == render_literal(&cand_entries[j].1),
                Option::None => false,
            };
            proof {
                assert(holds == pair_holds(rentries@, new_pair));
            }
            if !holds {
                proof {
                    lemma_comparison_pairs_prefix(cand_entries@, exclude@, j as int + 1);
                    assert(comparison_pairs(cand_entries@.take(j as int + 1), exclude@) == prev_pairs
                        + seq![new_pair]);
                    assert(full_pairs[prev_pairs.len() as int] == new_pair);
                }
                return false;
            }
            proof {
                assert(comparison_pairs(cand_entries@.take(j as int + 1), exclude@) =~= prev_pairs.push(
                    new_pair,
                ));
                assert forall|t: int|
                    0 <= t < prev_pairs.push(new_pair).len() implies pair_holds(
                    rentries@,
                    #[trigger] prev_pairs.push(new_pair)[t],
                ) by {
                    if t < prev_pairs.len() {
                        assert(prev_pairs.push(new_pair)[t] == prev_pairs[t]);
                    } else {
                        assert(prev_pairs.push(new_pair)[t] == new_pair);
                    }
                }
            }
        } else {
            proof {
                assert(prev_pairs + Seq::<(Seq<char>, Seq<char>)>::empty() =~= prev_pairs);
            }
        }
        j += 1;
    }
    proof {
        assert(cand_entries@.take(cand_entries@.len() as int) =~= cand_entries@);
    }
    true
}

/// A reference model of the store the upsert runs against: one table
/// holding rows under numeric keys handed out in insertion order. The
/// laws above are stated against it, and it lets the whole get-or-insert
/// path run and be exercised without a live connection.
pub struct TableStore {
    /// The table's name; it becomes the table part of every identifier.
    pub table: String,
    /// The stored rows, oldest first, each under its numeric key.
    pub rows: Vec<(u64, Value)>,
    /// The key the next inserted row receives.
    pub next_key: u64,
}

impl TableStore {
    /// An empty table.
    pub fn new(table: String) -> (r: TableStore)
        ensures
            r.table == table,
            r.rows@.len() == 0,
            r.next_key == 0,
    {
        TableStore { table, rows: Vec::new(), next_key: 0 }
    }

    /// The existence lookup: the identifier of the first stored row whose
    /// fields satisfy every equality predicate the candidate's
    /// non-excluded fields generate, if any.
    pub fn find_match(&self, cand_entries: &Vec<(String, Value)>, exclude: &Vec<String>) -> (r:
        Option<RecordId>)
        ensures
            match first_match(self.rows@, comparison_pairs(cand_entries@, exclude@)) {
                Option::Some(k) => r matches Option::Some(id) && id.table@ == self.table@
                    && id.key@ == crate::value::dec_text(k as nat),
                Option::None => r is None,
            },
    {
        let ghost pairs = comparison_pairs(cand_entries@, exclude@);
        let mut i: usize = 0;
        while i < self.rows.len()
            invariant
                i <= self.rows@.len(),
                pairs == comparison_pairs(cand_entries@, exclude@),
                forall|k: int| 0 <= k < i ==> !row_satisfies((#[trigger] self.rows@[k]).1, pairs),
            decreases self.rows@.len() - i,
        {
            if row_matches(&self.rows[i].1, cand_entries, exclude) {
                proof {
                    lemma_first_match_skip(self.rows@, pairs, i as int);
                    assert(self.rows@.skip(i as int)[0] == self.rows@[i as int]);
                }
                return Some(
                    RecordId {
                        table: self.table.clone(),
                        key: crate::value::render_u64(self.rows[i].0),
                    },
                );
            }
            i += 1;
        }
        proof {
            lemma_first_match_skip(self.rows@, pairs, self.rows@.len() as int);
            assert(self.rows@.skip(self.rows@.len() as int) =~= Seq::<(u64, Value)>::empty());
        }
        None
    }

    /// Appends the candidate as a new row, always, and answers its fresh
    /// identifier.
    pub fn insert(&mut self, candidate: Value) -> (r: RecordId)
        requires
            old(self).next_key < u64::MAX,
        ensures
            final(self).table == old(self).table,
            final(self).rows@ == old(self).rows@.push((old(self).next_key, candidate)),
            final(self).next_key == old(self).next_key + 1,
            r.table@ == old(self).table@,
            r.key@ == crate::value::dec_text(old(self).next_key as nat),
    {
        let key = self.next_key;
        self.rows.push((key, candidate));
        self.next_key = key + 1;
        RecordId { table: self.table.clone(), key: crate::value::render_u64(key) }
    }

    /// Get-or-insert: looks the candidate up by its non-excluded fields,
    /// answers the matching row's identifier without writing when one
    /// exists, and inserts the candidate under a fresh identifier
    /// otherwise. A candidate that is not an object is a
    /// [`DbError::SerializationFailure`] and writes nothing.
    pub fn get_or_insert(&mut self, candidate: Value, exclude: &Vec<String>) -> (r: Result<
        RecordId,
        DbError,
    >)
        requires
            old(self).next_key < u64::MAX,
        ensures
            !(candidate is Object) ==> {
                &&& r is Err
                &&& r->Err_0 == DbError::SerializationFailure
                &&& *final(self) == *old(self)
            },
            candidate is Object ==> match first_match(
                old(self).rows@,
                comparison_pairs(candidate->Object_0@, exclude@),
            ) {
                Option::Some(k) => {
                    &&& *final(self) == *old(self)
                    &&& r matches Ok(id) && id.table@ == old(self).table@ && id.key@
                        == crate::value::dec_text(k as nat)
                },
                Option::None => {
                    &&& final(self).table == old(self).table
                    &&& final(self).rows@ == old(self).rows@.push(
                        (old(self).next_key, candidate),
                    )
                    &&& final(self).next_key == old(self).next_key + 1
                    &&& r matches Ok(id) && id.table@ == old(self).table@ && id.key@
                        == crate::value::dec_text(old(self).next_key as nat)
                },
            },
    {
        match &candidate {
            Value::Object(entries) => {
                match self.find_match(entries, exclude) {
                    Option::Some(id) => {
                        return Ok(id);
                    },
                    Option::None => {},
                }
            },
            _ => {
                return Err(DbError::SerializationFailure);
            },
        }
        Ok(self.insert(candidate))
    }
}

} // verus!
