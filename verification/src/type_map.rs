//! The type-to-schema-type mapper.
//!
//! A declared field type — a possibly nested, possibly parameterized name —
//! is mapped to a schema type descriptor: a primitive tag such as `int` or
//! `bytes`, or a composite such as `array<int>` or `option<string>`. The
//! mapping is total over everything it can parse: a semantically unknown
//! name degrades to `object` rather than failing, so that schema generation
//! never blocks on an unanticipated field type. Only syntactic shapes the
//! mapper cannot read at all (function types, non-type generic arguments
//! that are not constants) are rejected, with
//! [`DbError::UnsupportedType`](crate::error::DbError).

use vstd::prelude::*;
use vstd::string::StringExecFns;

use crate::error::DbError;
use crate::value::joined_text;
use crate::value::join_strings;

verus! {

/// A generic argument of a parameterized declared type.
pub enum GenericArg {
    /// An ordinary type argument; it is mapped recursively, as non-primary.
    Ty(TypeExpr),
    /// A constant (non-type) argument; its text passes through verbatim.
    ConstArg(String),
    /// Any other argument (a lifetime, an associated-type binding): the
    /// mapper cannot parse it.
    Unsupported,
}

/// A declared field type, as far as the mapper reads it.
pub enum TypeExpr {
    /// A parenthesized type: unwrapped and mapped as its inner type.
    Paren(Box<TypeExpr>),
    /// A named type: the leaf name (the last path segment) and its
    /// angle-bracketed argument list, if it has one.
    Named(String, Option<Vec<GenericArg>>),
    /// Any other syntactic shape (a function type, a reference, a leaf with
    /// function-style parenthesized arguments): the mapper cannot parse it.
    Unparseable,
}

/// The closed set of schema type tags a descriptor can carry.
#[derive(Clone, Copy, Debug, PartialEq, Eq, Structural)]
pub enum Tag {
    /// `string`: text and path types.
    Text,
    /// `int`: integer types that fit the schema's integer range.
    Int,
    /// `float`: binary floating-point types.
    Float,
    /// `bool`.
    Boolean,
    /// `datetime`: timestamp-like types.
    Datetime,
    /// `duration`: time-span-like types.
    Duration,
    /// `decimal`: 128-bit floating point, widened to exact decimals.
    Decimal,
    /// `number`: integers too wide for the schema's integer range.
    Number,
    /// `bytes`: a byte sequence taken as one opaque value.
    Bytes,
    /// `record`: a reference to a row of another table.
    Record,
    /// `object`: the universal fallback for unrecognized names.
    Object,
    /// `u8`: a single byte inside a composite (never a whole field).
    Byte,
    /// `array`: a sequence; the element descriptor nests inside.
    Array,
    /// `option`: an optional value; the inner descriptor nests inside.
    Optional,
    /// `set`: a hash set; the element descriptor nests inside.
    SetOf,
}

/// A nested part of a composite descriptor.
#[derive(Debug)]
pub enum SchemaArg {
    /// A nested descriptor.
    Ty(SchemaType),
    /// A constant argument carried through verbatim.
    ConstArg(String),
}

/// A schema type descriptor: a bare tag, or a composite wrapping a primary
/// tag around nested parts. The primary tag always comes from the closed
/// set [`Tag`].
#[derive(Debug)]
pub enum SchemaType {
    Leaf(Tag),
    Composite(Tag, Vec<SchemaArg>),
}

/// The text of one tag.
pub open spec fn tag_text(t: Tag) -> Seq<char> {
    match t {
        Tag::Text => "string"@,
        Tag::Int => "int"@,
        Tag::Float => "float"@,
        Tag::Boolean => "bool"@,
        Tag::Datetime => "datetime"@,
        Tag::Duration => "duration"@,
        Tag::Decimal => "decimal"@,
        Tag::Number => "number"@,
        Tag::Bytes => "bytes"@,
        Tag::Record => "record"@,
        Tag::Object => "object"@,
        Tag::Byte => "u8"@,
        Tag::Array => "array"@,
        Tag::Optional => "option"@,
        Tag::SetOf => "set"@,
    }
}

/// The text of a descriptor: the tag, with the nested parts in angle
/// brackets for a composite.
pub open spec fn schema_text(d: SchemaType) -> Seq<char>
    decreases d,
{
    match d {
        SchemaType::Leaf(t) => tag_text(t),
        SchemaType::Composite(t, args) => tag_text(t) + "<"@ + joined_text(
            schema_arg_texts(args@),
            ", "@,
        ) + ">"@,
    }
}

/// The text of one nested part.
pub open spec fn schema_arg_text(a: SchemaArg) -> Seq<char>
    decreases a,
{
    match a {
        SchemaArg::Ty(d) => schema_text(d),
        SchemaArg::ConstArg(s) => s@,
    }
}

/// The texts of the nested parts, in order.
pub open spec fn schema_arg_texts(args: Seq<SchemaArg>) -> Seq<Seq<char>>
    decreases args,
{
    if args.len() == 0 {
        Seq::empty()
    } else {
        seq![schema_arg_text(args[0])] + schema_arg_texts(args.drop_first())
    }
}

/// Whether the mapper can parse this declared type at all.
pub open spec fn parseable(ty: TypeExpr) -> bool
    decreases ty,
{
    match ty {
        TypeExpr::Paren(inner) => parseable(*inner),
        TypeExpr::Named(_, args_opt) => match args_opt {
            Option::None => true,
            Option::Some(args) => args_parseable(args@),
        },
        TypeExpr::Unparseable => false,
    }
}

/// Whether every argument of a list is parseable.
pub open spec fn args_parseable(args: Seq<GenericArg>) -> bool
    decreases args,
{
    if args.len() == 0 {
        true
    } else {
        arg_parseable(args[0]) && args_parseable(args.drop_first())
    }
}

/// Whether one generic argument is parseable.
pub open spec fn arg_parseable(a: GenericArg) -> bool
    decreases a,
{
    match a {
        GenericArg::Ty(t) => parseable(t),
        GenericArg::ConstArg(_) => true,
        GenericArg::Unsupported => false,
    }
}

/// A list of arguments is parseable exactly when each one is.
pub proof fn lemma_args_parseable_iff(args: Seq<GenericArg>)
    ensures
        args_parseable(args) <==> (forall|j: int|
            0 <= j < args.len() ==> arg_parseable(#[trigger] args[j])),
    decreases args.len(),
{
    if args.len() > 0 {
        lemma_args_parseable_iff(args.drop_first());
        assert(forall|j: int|
            0 <= j < args.drop_first().len() ==> args.drop_first()[j] == args[j + 1]);
        if arg_parseable(args[0]) && args_parseable(args.drop_first()) {
            assert(forall|j: int| 0 < j < args.len() ==> arg_parseable(#[trigger] args[j]))
                by {
                assert(forall|j: int|
                    0 < j < args.len() ==> #[trigger] args[j] == args.drop_first()[j - 1]);
            }
        }
    }
}

/// Signed or unsigned integer names that fit the schema's integer range.
pub open spec fn is_int_name(n: Seq<char>) -> bool {
    n == "i8"@ || n == "i16"@ || n == "i32"@ || n == "i64"@ || n == "u16"@ || n == "u32"@
}

/// Integer names too wide for the schema's integer range.
pub open spec fn is_number_name(n: Seq<char>) -> bool {
    n == "i128"@ || n == "u64"@ || n == "u128"@
}

/// Binary floating-point names.
pub open spec fn is_float_name(n: Seq<char>) -> bool {
    n == "f16"@ || n == "f32"@ || n == "f64"@
}

/// Text-like names.
pub open spec fn is_string_name(n: Seq<char>) -> bool {
    n == "String"@ || n == "PathBuf"@
}

/// Whether a sequence type's arguments make it byte-sequence-shaped: its
/// first argument is a type that maps (as non-primary) to the lone-byte
/// descriptor.
pub open spec fn vec_of_bytes(args_opt: Option<Vec<GenericArg>>) -> bool
    decreases args_opt,
{
    match args_opt {
        Option::None => false,
        Option::Some(args) => args@.len() > 0 && match args@[0] {
            GenericArg::Ty(t) => mapped_text(t, false) == "u8"@,
            GenericArg::ConstArg(_) => false,
            GenericArg::Unsupported => false,
        },
    }
}

/// The text of a composite around the given tag: the tag alone when the
/// declared type had no argument list, else the tag with the mapped
/// arguments in angle brackets.
pub open spec fn wrapped_text(tag: Seq<char>, args_opt: Option<Vec<GenericArg>>) -> Seq<char>
    decreases args_opt,
{
    match args_opt {
        Option::None => tag,
        Option::Some(args) => tag + "<"@ + joined_text(mapped_arg_texts(args@), ", "@) + ">"@,
    }
}

/// The text one generic argument contributes to a composite descriptor.
pub open spec fn mapped_arg_text(a: GenericArg) -> Seq<char>
    decreases a,
{
    match a {
        GenericArg::Ty(t) => mapped_text(t, false),
        GenericArg::ConstArg(s) => s@,
        GenericArg::Unsupported => Seq::empty(),
    }
}

/// The texts all generic arguments contribute, in order.
pub open spec fn mapped_arg_texts(args: Seq<GenericArg>) -> Seq<Seq<char>>
    decreases args,
{
    if args.len() == 0 {
        Seq::empty()
    } else {
        seq![mapped_arg_text(args[0])] + mapped_arg_texts(args.drop_first())
    }
}

/// The descriptor text a parseable declared type maps to. `primary` is true
/// only for the outermost type of a field.
///
/// The resolution rules, in order, once the leaf name is known: a sequence
/// of bytes is `bytes` at the outermost level, any other sequence is
/// `array<...>`; then the fixed scalar names; a lone `u8` is `int` as a
/// whole field but `u8` inside a composite; `Option`, a record reference
/// and a hash set wrap their arguments; text-like names are `string`; and
/// every unrecognized name is `object`.
pub open spec fn mapped_text(ty: TypeExpr, primary: bool) -> Seq<char>
    decreases ty,
{
    match ty {
        TypeExpr::Paren(inner) => mapped_text(*inner, primary),
        TypeExpr::Named(name, args_opt) => {
            let n = name@;
            if n == "Vec"@ {
                if primary && vec_of_bytes(args_opt) {
                    "bytes"@
                } else {
                    wrapped_text("array"@, args_opt)
                }
            } else if n == "bool"@ {
                "bool"@
            } else if n == "DateTime"@ {
                "datetime"@
            } else if n == "Duration"@ {
                "duration"@
            } else if n == "f128"@ {
                "decimal"@
            } else if is_float_name(n) {
                "float"@
            } else if is_int_name(n) {
                "int"@
            } else if is_number_name(n) {
                "number"@
            } else if n == "u8"@ {
                if primary {
                    "int"@
                } else {
                    "u8"@
                }
            } else if n == "Option"@ {
                wrapped_text("option"@, args_opt)
            } else if n == "RecordId"@ {
                wrapped_text("record"@, args_opt)
            } else if n == "HashSet"@ {
                wrapped_text("set"@, args_opt)
            } else if is_string_name(n) {
                "string"@
            } else {
                "object"@
            }
        },
        TypeExpr::Unparseable => Seq::empty(),
    }
}

/// The text of one tag.
fn tag_str(t: &Tag) -> (r: &'static str)
    ensures
        r@ == tag_text(*t),
{
    match t {
        Tag::Text => "string",
        Tag::Int => "int",
        Tag::Float => "float",
        Tag::Boolean => "bool",
        Tag::Datetime => "datetime",
        Tag::Duration => "duration",
        Tag::Decimal => "decimal",
        Tag::Number => "number",
        Tag::Bytes => "bytes",
        Tag::Record => "record",
        Tag::Object => "object",
        Tag::Byte => "u8",
        Tag::Array => "array",
        Tag::Optional => "option",
        Tag::SetOf => "set",
    }
}

/// One more nested part extends the part texts of the prefix.
proof fn lemma_schema_arg_texts_push(args: Seq<SchemaArg>, i: int)
    requires
        0 <= i < args.len(),
    ensures
        schema_arg_texts(args.take(i + 1)) == schema_arg_texts(args.take(i)) + seq![
            schema_arg_text(args[i]),
        ],
    decreases i,
{
    if i == 0 {
        assert(args.take(1)[0] == args[0]);
        assert(args.take(1).drop_first() =~= Seq::<SchemaArg>::empty());
        assert(schema_arg_texts(Seq::<SchemaArg>::empty()) =~= Seq::<Seq<char>>::empty());
        assert(schema_arg_texts(args.take(1)) =~= seq![schema_arg_text(args[0])]);
        assert(schema_arg_texts(args.take(0)) =~= Seq::<Seq<char>>::empty());
        assert(schema_arg_texts(args.take(0)) + seq![schema_arg_text(args[0])] =~= seq![
            schema_arg_text(args[0]),
        ]);
    } else {
        lemma_schema_arg_texts_push(args.drop_first(), i - 1);
        assert(args.take(i + 1).drop_first() =~= args.drop_first().take(i));
        assert(args.take(i).drop_first() =~= args.drop_first().take(i - 1));
        let head = seq![schema_arg_text(args[0])];
        let tail_prefix = schema_arg_texts(args.drop_first().take(i - 1));
        let last = seq![schema_arg_text(args[i])];
        assert(head + (tail_prefix + last) =~= (head + tail_prefix) + last);
    }
}

/// Renders a descriptor as the text that stands after `TYPE` in a field
/// definition statement.
#[verifier::loop_isolation(false)]
pub fn render_schema(d: &SchemaType) -> (r: String)
    ensures
        r@ == schema_text(*d),
    decreases *d,
{
    match d {
        SchemaType::Leaf(t) => String::from_str(tag_str(t)),
        SchemaType::Composite(t, args) => {
            let mut parts: Vec<String> = Vec::new();
            let mut i: usize = 0;
            while i < args.len()
                invariant
                    i <= args.len(),
                    parts@.map_values(|p: String| p@) == schema_arg_texts(args@.take(i as int)),
                decreases args.len() - i,
            {
                proof {
                    assert(decreases_to!(*d => d->Composite_1));
                    assert(decreases_to!(d->Composite_1 => d->Composite_1[i as int]));
                    assert(*args == d->Composite_1);
                }
                let piece = match &args[i] {
                    SchemaArg::Ty(inner) => {
                        proof {
                            assert(decreases_to!(d->Composite_1[i as int] => d->Composite_1[i as int]->Ty_0));
                        }
                        render_schema(inner)
                    },
                    SchemaArg::ConstArg(s) => s.clone(),
                };
                parts.push(piece);
                proof {
                    lemma_schema_arg_texts_push(args@, i as int);
                }
                i += 1;
            }
            proof {
                assert(args@.take(args@.len() as int) =~= args@);
            }
            let mut r = String::from_str(tag_str(t));
            r.append("<");
            r.append(join_strings(&parts, ", ").as_str());
            r.append(">");
            r
        },
    }
}

/// Whether one mapped part corresponds to the generic argument it came
/// from: the same kind of part, with the text the mapping assigns.
pub open spec fn arg_corresponds(a: GenericArg, b: SchemaArg) -> bool {
    &&& (a is Ty <==> b is Ty)
    &&& schema_arg_text(b) == mapped_arg_text(a)
}

/// Pointwise corresponding argument lists contribute the same texts.
proof fn lemma_arg_texts_pointwise(args: Seq<GenericArg>, out: Seq<SchemaArg>)
    requires
        args.len() == out.len(),
        forall|j: int| 0 <= j < args.len() ==> arg_corresponds(#[trigger] args[j], out[j]),
    ensures
        schema_arg_texts(out) == mapped_arg_texts(args),
    decreases args.len(),
{
    if args.len() > 0 {
        assert(forall|j: int|
            0 <= j < args.drop_first().len() ==> {
                &&& #[trigger] args.drop_first()[j] == args[j + 1]
                &&& out.drop_first()[j] == out[j + 1]
            });
        lemma_arg_texts_pointwise(args.drop_first(), out.drop_first());
    }
}

/// Compares a string's text with a literal's.
fn str_is(a: &String, lit: &str) -> (r: bool)
    ensures
        r == (a@ == lit@),
{
    let other = String::from_str(lit);
    *a == other
}

/// Maps a declared field type to its schema type descriptor. `primary` is
/// true only for the outermost type of a field.
///
/// The mapping is total over parseable types: it fails, with
/// [`DbError::UnsupportedType`], exactly on the syntactic shapes the mapper
/// cannot read, and an unrecognized name maps to the `object` fallback
/// rather than failing.
#[verifier::loop_isolation(false)]
pub fn map_type(ty: &TypeExpr, primary: bool) -> (r: Result<SchemaType, DbError>)
    ensures
        r is Ok <==> parseable(*ty),
        r is Err ==> r->Err_0 == DbError::UnsupportedType,
        r is Ok ==> schema_text(r->Ok_0) == mapped_text(*ty, primary),
    decreases *ty,
{
    match ty {
        TypeExpr::Paren(inner) => {
            proof {
                assert(decreases_to!(*ty => ty->Paren_0));
            }
            map_type(&**inner, primary)
        },
        TypeExpr::Unparseable => Err(DbError::UnsupportedType),
        TypeExpr::Named(name, args_opt) => {
            let mapped_opt: Option<Vec<SchemaArg>> = match args_opt {
                Option::None => Option::None,
                Option::Some(args) => {
                    let mut out: Vec<SchemaArg> = Vec::new();
                    let mut i: usize = 0;
                    while i < args.len()
                        invariant
                            i <= args.len(),
                            out@.len() == i,
                            forall|j: int|
                                0 <= j < i ==> arg_corresponds(#[trigger] args@[j], out@[j]),
                            forall|j: int| 0 <= j < i ==> arg_parseable(#[trigger] args@[j]),
                        decreases args.len() - i,
                    {
                        proof {
                            assert(decreases_to!(*ty => ty->Named_1));
                            assert(decreases_to!(ty->Named_1 => ty->Named_1->0));
                            assert(decreases_to!(ty->Named_1->0 => ty->Named_1->0[i as int]));
                            assert(*args == ty->Named_1->0);
                        }
                        match &args[i] {
                            GenericArg::Ty(t) => {
                                proof {
                                    assert(decreases_to!(ty->Named_1->0[i as int] => ty->Named_1->0[i as int]->Ty_0));
                                }
                                match map_type(t, false) {
                                    Ok(d) => out.push(SchemaArg::Ty(d)),
                                    Err(e) => {
                                        proof {
                                            lemma_args_parseable_iff(args@);
                                        }
                                        return Err(e);
                                    },
                                }
                            },
                            GenericArg::ConstArg(s) => out.push(SchemaArg::ConstArg(s.clone())),
                            GenericArg::Unsupported => {
                                proof {
                                    lemma_args_parseable_iff(args@);
                                }
                                return Err(DbError::UnsupportedType);
                            },
                        }
                        i += 1;
                    }
                    proof {
                        lemma_args_parseable_iff(args@);
                        lemma_arg_texts_pointwise(args@, out@);
                    }
                    Option::Some(out)
                },
            };
            proof {
                assert(mapped_opt is None ==> *args_opt is None);
                assert(mapped_opt is Some ==> *args_opt is Some);
                assert(mapped_opt is Some ==> schema_arg_texts(mapped_opt->0@)
                    == mapped_arg_texts(args_opt->0@));
                assert(mapped_opt is Some ==> forall|j: int|
                    0 <= j < args_opt->0@.len() ==> arg_corresponds(
                        #[trigger] args_opt->0@[j],
                        mapped_opt->0@[j],
                    ));
                assert(mapped_opt is Some ==> mapped_opt->0@.len() == args_opt->0@.len());
            }
            if str_is(name, "Vec") {
                let bytes_shaped: bool = primary && match &mapped_opt {
                    Option::Some(margs) => if margs.len() > 0 {
                        match &margs[0] {
                            SchemaArg::Ty(d0) => str_is(&render_schema(d0), "u8"),
                            SchemaArg::ConstArg(_) => false,
                        }
                    } else {
                        false
                    },
                    Option::None => false,
                };
                proof {
                    assert(bytes_shaped == (primary && vec_of_bytes(ty->Named_1)));
                }
                if bytes_shaped {
                    Ok(SchemaType::Leaf(Tag::Bytes))
                } else {
                    let r = composite_or_leaf(Tag::Array, mapped_opt);
                    proof {
                        assert(schema_text(r) == wrapped_text("array"@, ty->Named_1));
                    }
                    Ok(r)
                }
            } else if str_is(name, "bool") {
                Ok(SchemaType::Leaf(Tag::Boolean))
            } else if str_is(name, "DateTime") {
                Ok(SchemaType::Leaf(Tag::Datetime))
            } else if str_is(name, "Duration") {
                Ok(SchemaType::Leaf(Tag::Duration))
            } else if str_is(name, "f128") {
                Ok(SchemaType::Leaf(Tag::Decimal))
            } else if str_is(name, "f16") || str_is(name, "f32") || str_is(name, "f64") {
                Ok(SchemaType::Leaf(Tag::Float))
            } else if str_is(name, "i8") || str_is(name, "i16") || str_is(name, "i32") || str_is(
                name,
                "i64",
            ) || str_is(name, "u16") || str_is(name, "u32") {
                Ok(SchemaType::Leaf(Tag::Int))
            } else if str_is(name, "i128") || str_is(name, "u64") || str_is(name, "u128") {
                Ok(SchemaType::Leaf(Tag::Number))
            } else if str_is(name, "u8") {
                if primary {
                    Ok(SchemaType::Leaf(Tag::Int))
                } else {
                    Ok(SchemaType::Leaf(Tag::Byte))
                }
            } else if str_is(name, "Option") {
                let r = composite_or_leaf(Tag::Optional, mapped_opt);
                proof {
                    assert(schema_text(r) == wrapped_text("option"@, ty->Named_1));
                }
                Ok(r)
            } else if str_is(name, "RecordId") {
                let r = composite_or_leaf(Tag::Record, mapped_opt);
                proof {
                    assert(schema_text(r) == wrapped_text("record"@, ty->Named_1));
                }
                Ok(r)
            } else if str_is(name, "HashSet") {
                let r = composite_or_leaf(Tag::SetOf, mapped_opt);
                proof {
                    assert(schema_text(r) == wrapped_text("set"@, ty->Named_1));
                }
                Ok(r)
            } else if str_is(name, "String") || str_is(name, "PathBuf") {
                Ok(SchemaType::Leaf(Tag::Text))
            } else {
                Ok(SchemaType::Leaf(Tag::Object))
            }
        },
    }
}

/// A bare tag when the declared type had no argument list, else the tag
/// wrapped around the mapped arguments.
fn composite_or_leaf(tag: Tag, mapped_opt: Option<Vec<SchemaArg>>) -> (r: SchemaType)
    ensures
        match mapped_opt {
            Option::None => r == SchemaType::Leaf(tag),
            Option::Some(margs) => r == SchemaType::Composite(tag, margs),
        },
{
    match mapped_opt {
        Option::None => SchemaType::Leaf(tag),
        Option::Some(margs) => SchemaType::Composite(tag, margs),
    }
}

} // verus!
