//! The schema statement builder.
//!
//! One entity's table name, field list and optional raw extra statements
//! are combined into the ordered statement list that defines its schema:
//! the table definition first, one field definition per declared field in
//! declaration order (excluded fields included — exclusion only affects the
//! comparison set used for deduplicated inserts, never the schema), and the
//! raw extra statements last. The list is pure: derived from static field
//! metadata, safe to compute any number of times.

use vstd::prelude::*;
use vstd::string::StringExecFns;

use crate::error::DbError;
use crate::type_map::TypeExpr;
use crate::type_map::map_type;
use crate::type_map::mapped_text;
use crate::type_map::parseable;
use crate::type_map::render_schema;

verus! {

/// One declared field with its per-field configuration: an optional
/// rename, an optional exclusion-from-comparison flag, and an optional
/// explicit type override that bypasses the mapper entirely.
pub struct FieldSpec {
    /// The declared field name.
    pub name: String,
    /// The name to use instead, for both the schema and the comparison set.
    pub rename: Option<String>,
    /// An explicit schema type descriptor text; when present the declared
    /// type is not mapped at all.
    pub db_type: Option<String>,
    /// Whether the field is left out of the comparison set. It is still
    /// schema-defined.
    pub exclude: bool,
    /// The declared field type, fed to the mapper when there is no
    /// explicit override.
    pub ty: TypeExpr,
}

/// The name a field carries in the schema and in comparisons: its rename
/// when one is configured, else its declared name.
pub open spec fn field_name_text(f: FieldSpec) -> Seq<char> {
    match f.rename {
        Option::Some(r) => r@,
        Option::None => f.name@,
    }
}

/// Whether a field's schema type can be resolved: an explicit override
/// always can, otherwise its declared type must be parseable.
pub open spec fn field_resolvable(f: FieldSpec) -> bool {
    f.db_type is Some || parseable(f.ty)
}

/// The schema type descriptor text of a field: the explicit override when
/// present, else the mapped declared type, as the outermost (primary)
/// type.
pub open spec fn field_type_text(f: FieldSpec) -> Seq<char> {
    match f.db_type {
        Option::Some(d) => d@,
        Option::None => mapped_text(f.ty, true),
    }
}

/// The statement defining a table.
pub open spec fn define_table_text(table: Seq<char>) -> Seq<char> {
    "DEFINE TABLE "@ + table
}

/// The statement defining one field on a table.
pub open spec fn define_field_text(table: Seq<char>, f: FieldSpec) -> Seq<char> {
    "DEFINE FIELD "@ + field_name_text(f) + " ON TABLE "@ + table + " TYPE "@ + field_type_text(f)
}

/// The name a field carries in the schema and in comparisons.
pub fn field_name(f: &FieldSpec) -> (r: String)
    ensures
        r@ == field_name_text(*f),
{
    match &f.rename {
        Option::Some(r) => r.clone(),
        Option::None => f.name.clone(),
    }
}

/// Resolves a field's schema type descriptor text.
pub fn field_type(f: &FieldSpec) -> (r: Result<String, DbError>)
    ensures
        r is Ok <==> field_resolvable(*f),
        r is Err ==> r->Err_0 == DbError::UnsupportedType,
        r is Ok ==> r->Ok_0@ == field_type_text(*f),
{
    match &f.db_type {
        Option::Some(d) => Ok(d.clone()),
        Option::None => match map_type(&f.ty, true) {
            Ok(d) => Ok(render_schema(&d)),
            Err(e) => Err(e),
        },
    }
}

/// Builds the ordered statement list for one entity: the table definition,
/// then one field definition per declared field in declaration order
/// (excluded fields included), then the raw extra statements, in that
/// order. Fails, with [`DbError::UnsupportedType`], exactly when some
/// field's schema type cannot be resolved.
pub fn build_statements(table: &str, fields: &Vec<FieldSpec>, extra: &Vec<String>) -> (r: Result<
    Vec<String>,
    DbError,
>)
    ensures
        r is Ok <==> (forall|i: int| 0 <= i < fields@.len() ==> field_resolvable(#[trigger] fields@[i])),
        r is Err ==> r->Err_0 == DbError::UnsupportedType,
        r is Ok ==> {
            let stmts = r->Ok_0;
            &&& stmts@.len() == 1 + fields@.len() + extra@.len()
            &&& stmts@[0]@ == define_table_text(table@)
            &&& (forall|i: int|
                0 <= i < fields@.len() ==> stmts@[1 + i]@ == define_field_text(
                    table@,
                    #[trigger] fields@[i],
                ))
            &&& (forall|j: int|
                0 <= j < extra@.len() ==> stmts@[1 + fields@.len() + j]@ == (
                #[trigger] extra@[j])@)
        },
{
    let mut stmts: Vec<String> = Vec::new();
    let mut table_def = String::from_str("DEFINE TABLE ");
    table_def.append(table);
    stmts.push(table_def);
    let mut i: usize = 0;
    while i < fields.len()
        invariant
            i <= fields.len(),
            stmts@.len() == 1 + i,
            stmts@[0]@ == define_table_text(table@),
            forall|k: int|
                0 <= k < i ==> stmts@[1 + k]@ == define_field_text(table@, #[trigger] fields@[k]),
            forall|k: int| 0 <= k < i ==> field_resolvable(#[trigger] fields@[k]),
        decreases fields.len() - i,
    {
        let ty_text = match field_type(&fields[i]) {
            Ok(t) => t,
            Err(e) => {
                return Err(e);
            },
        };
        let mut stmt = String::from_str("DEFINE FIELD ");
        stmt.append(field_name(&fields[i]).as_str());
        stmt.append(" ON TABLE ");
        stmt.append(table);
        stmt.append(" TYPE ");
        stmt.append(ty_text.as_str());
        stmts.push(stmt);
        i += 1;
    }
    let mut j: usize = 0;
    while j < extra.len()
        invariant
            j <= extra.len(),
            stmts@.len() == 1 + fields@.len() + j,
            stmts@[0]@ == define_table_text(table@),
            forall|k: int|
                0 <= k < fields@.len() ==> stmts@[1 + k]@ == define_field_text(
                    table@,
                    #[trigger] fields@[k],
                ),
            forall|k: int| 0 <= k < fields@.len() ==> field_resolvable(#[trigger] fields@[k]),
            forall|k: int| 0 <= k < j ==> stmts@[1 + fields@.len() + k]@ == (#[trigger] extra@[k])@,
        decreases extra.len() - j,
    {
        stmts.push(extra[j].clone());
        j += 1;
    }
    Ok(stmts)
}

/// The selectable column names contributed by the fields: each
/// non-excluded field's name, in declaration order.
pub open spec fn selectable_names(fields: Seq<FieldSpec>) -> Seq<Seq<char>>
    decreases fields,
{
    if fields.len() == 0 {
        Seq::empty()
    } else {
        (if fields[0].exclude {
            Seq::empty()
        } else {
            seq![field_name_text(fields[0])]
        }) + selectable_names(fields.drop_first())
    }
}

/// The names of the excluded fields, in declaration order.
pub open spec fn excluded_names(fields: Seq<FieldSpec>) -> Seq<Seq<char>>
    decreases fields,
{
    if fields.len() == 0 {
        Seq::empty()
    } else {
        (if fields[0].exclude {
            seq![field_name_text(fields[0])]
        } else {
            Seq::empty()
        }) + excluded_names(fields.drop_first())
    }
}

/// One more field extends the selectable names of the prefix by its name,
/// unless it is excluded.
proof fn lemma_selectable_push(fields: Seq<FieldSpec>, i: int)
    requires
        0 <= i < fields.len(),
    ensures
        selectable_names(fields.take(i + 1)) == selectable_names(fields.take(i)) + (if fields[i].exclude {
            Seq::<Seq<char>>::empty()
        } else {
            seq![field_name_text(fields[i])]
        }),
    decreases i,
{
    if i == 0 {
        assert(fields.take(1)[0] == fields[0]);
        assert(fields.take(1).drop_first() =~= Seq::<FieldSpec>::empty());
        assert(selectable_names(Seq::<FieldSpec>::empty()) =~= Seq::<Seq<char>>::empty());
        assert(selectable_names(fields.take(0)) =~= Seq::<Seq<char>>::empty());
        if fields[0].exclude {
            assert(selectable_names(fields.take(1)) =~= Seq::<Seq<char>>::empty());
            assert(selectable_names(fields.take(0)) + Seq::<Seq<char>>::empty() =~= Seq::<
                Seq<char>,
            >::empty());
        } else {
            assert(selectable_names(fields.take(1)) =~= seq![field_name_text(fields[0])]);
            assert(selectable_names(fields.take(0)) + seq![field_name_text(fields[0])] =~= seq![
                field_name_text(fields[0]),
            ]);
        }
    } else {
        lemma_selectable_push(fields.drop_first(), i - 1);
        assert(fields.take(i + 1).drop_first() =~= fields.drop_first().take(i));
        assert(fields.take(i).drop_first() =~= fields.drop_first().take(i - 1));
        let head = if fields[0].exclude {
            Seq::<Seq<char>>::empty()
        } else {
            seq![field_name_text(fields[0])]
        };
        let tail_prefix = selectable_names(fields.drop_first().take(i - 1));
        let last = if fields[i].exclude {
            Seq::<Seq<char>>::empty()
        } else {
            seq![field_name_text(fields[i])]
        };
        assert(head + (tail_prefix + last) =~= (head + tail_prefix) + last);
    }
}

/// One more field extends the excluded names of the prefix by its name,
/// when it is excluded.
proof fn lemma_excluded_push(fields: Seq<FieldSpec>, i: int)
    requires
        0 <= i < fields.len(),
    ensures
        excluded_names(fields.take(i + 1)) == excluded_names(fields.take(i)) + (if fields[i].exclude {
            seq![field_name_text(fields[i])]
        } else {
            Seq::<Seq<char>>::empty()
        }),
    decreases i,
{
    if i == 0 {
        assert(fields.take(1)[0] == fields[0]);
        assert(fields.take(1).drop_first() =~= Seq::<FieldSpec>::empty());
        assert(excluded_names(Seq::<FieldSpec>::empty()) =~= Seq::<Seq<char>>::empty());
        assert(excluded_names(fields.take(0)) =~= Seq::<Seq<char>>::empty());
        if fields[0].exclude {
            assert(excluded_names(fields.take(1)) =~= seq![field_name_text(fields[0])]);
            assert(excluded_names(fields.take(0)) + seq![field_name_text(fields[0])] =~= seq![
                field_name_text(fields[0]),
            ]);
        } else {
            assert(excluded_names(fields.take(1)) =~= Seq::<Seq<char>>::empty());
            assert(excluded_names(fields.take(0)) + Seq::<Seq<char>>::empty() =~= Seq::<
                Seq<char>,
            >::empty());
        }
    } else {
        lemma_excluded_push(fields.drop_first(), i - 1);
        assert(fields.take(i + 1).drop_first() =~= fields.drop_first().take(i));
        assert(fields.take(i).drop_first() =~= fields.drop_first().take(i - 1));
        let head = if fields[0].exclude {
            seq![field_name_text(fields[0])]
        } else {
            Seq::<Seq<char>>::empty()
        };
        let tail_prefix = excluded_names(fields.drop_first().take(i - 1));
        let last = if fields[i].exclude {
            seq![field_name_text(fields[i])]
        } else {
            Seq::<Seq<char>>::empty()
        };
        assert(head + (tail_prefix + last) =~= (head + tail_prefix) + last);
    }
}

/// The selectable column names of an entity: the row identifier first,
/// then each non-excluded field's name in declaration order.
pub fn field_keys(fields: &Vec<FieldSpec>) -> (r: Vec<String>)
    ensures
        r@.map_values(|s: String| s@) == seq!["id"@] + selectable_names(fields@),
{
    let mut r: Vec<String> = Vec::new();
    r.push(String::from_str("id"));
    let mut i: usize = 0;
    while i < fields.len()
        invariant
            i <= fields.len(),
            r@.map_values(|s: String| s@) == seq!["id"@] + selectable_names(
                fields@.take(i as int),
            ),
        decreases fields.len() - i,
    {
        proof {
            lemma_selectable_push(fields@, i as int);
        }
        if !fields[i].exclude {
            r.push(field_name(&fields[i]));
            proof {
                assert(seq!["id"@] + (selectable_names(fields@.take(i as int)) + seq![
                    field_name_text(fields@[i as int]),
                ]) =~= (seq!["id"@] + selectable_names(fields@.take(i as int))) + seq![
                    field_name_text(fields@[i as int]),
                ]);
                assert(r@.map_values(|s: String| s@) =~= seq!["id"@] + selectable_names(
                    fields@.take(i as int + 1),
                ));
            }
        } else {
            proof {
                assert(selectable_names(fields@.take(i as int)) + Seq::<Seq<char>>::empty()
                    =~= selectable_names(fields@.take(i as int)));
            }
        }
        i += 1;
    }
    proof {
        assert(fields@.take(fields@.len() as int) =~= fields@);
    }
    r
}

/// The names of the fields left out of the comparison set, in declaration
/// order.
pub fn field_exclusions(fields: &Vec<FieldSpec>) -> (r: Vec<String>)
    ensures
        r@.map_values(|s: String| s@) == excluded_names(fields@),
{
    let mut r: Vec<String> = Vec::new();
    let mut i: usize = 0;
    while i < fields.len()
        invariant
            i <= fields.len(),
            r@.map_values(|s: String| s@) == excluded_names(fields@.take(i as int)),
        decreases fields.len() - i,
    {
        proof {
            lemma_excluded_push(fields@, i as int);
        }
        if fields[i].exclude {
            r.push(field_name(&fields[i]));
        }
        i += 1;
    }
    proof {
        assert(fields@.take(fields@.len() as int) =~= fields@);
    }
    r
}

} // verus!
