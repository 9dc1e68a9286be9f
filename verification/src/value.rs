//! The generic structured value model.
//!
//! The serializer collaborator turns a candidate row into a tree of objects,
//! arrays and scalars, and catalog queries answer with the same shape. This
//! module models that tree as [`Value`] and defines how a value is rendered
//! as a query literal, so that equality predicates can be built from it.

use vstd::prelude::*;
use vstd::string::StrSliceExecFns;
use vstd::string::StringExecFns;

verus! {

/// The character for one decimal digit.
pub open spec fn dec_digit(d: nat) -> char {
    if d == 0 {
        '0'
    } else if d == 1 {
        '1'
    } else if d == 2 {
        '2'
    } else if d == 3 {
        '3'
    } else if d == 4 {
        '4'
    } else if d == 5 {
        '5'
    } else if d == 6 {
        '6'
    } else if d == 7 {
        '7'
    } else if d == 8 {
        '8'
    } else {
        '9'
    }
}

/// The decimal text of a natural number, most significant digit first and
/// without leading zeroes.
pub open spec fn dec_text(n: nat) -> Seq<char>
    decreases n,
{
    if n < 10 {
        seq![dec_digit(n)]
    } else {
        dec_text(n / 10) + seq![dec_digit(n % 10)]
    }
}

/// The decimal text of a natural number is never empty.
proof fn lemma_dec_text_len(n: nat)
    ensures
        dec_text(n).len() >= 1,
    decreases n,
{
    if n >= 10 {
        lemma_dec_text_len(n / 10);
    }
}

/// Different numbers have different decimal texts: the rendering is
/// injective, so identifiers keyed by different numbers never collide.
pub proof fn lemma_dec_text_injective(a: nat, b: nat)
    requires
        a != b,
    ensures
        dec_text(a) != dec_text(b),
    decreases a + b,
{
    if a < 10 && b < 10 {
        assert(dec_digit(a) != dec_digit(b));
        assert(dec_text(a)[0] == dec_digit(a));
        assert(dec_text(b)[0] == dec_digit(b));
    } else if a < 10 {
        lemma_dec_text_len(b / 10);
        assert(dec_text(b).len() >= 2);
        assert(dec_text(a).len() == 1);
    } else if b < 10 {
        lemma_dec_text_len(a / 10);
        assert(dec_text(a).len() >= 2);
        assert(dec_text(b).len() == 1);
    } else {
        assert(a == 10 * (a / 10) + a % 10);
        assert(b == 10 * (b / 10) + b % 10);
        assert(dec_text(a) == dec_text(a / 10) + seq![dec_digit(a % 10)]);
        assert(dec_text(b) == dec_text(b / 10) + seq![dec_digit(b % 10)]);
        if a % 10 != b % 10 {
            if dec_text(a) == dec_text(b) {
                assert(dec_text(a)[dec_text(a).len() - 1] == dec_digit(a % 10));
                assert(dec_text(b)[dec_text(b).len() - 1] == dec_digit(b % 10));
                assert(dec_digit(a % 10) != dec_digit(b % 10));
                assert(false);
            }
        } else {
            assert(a / 10 != b / 10);
            assert(a / 10 < a) by (nonlinear_arith)
                requires
                    a >= 10,
            ;
            assert(b / 10 < b) by (nonlinear_arith)
                requires
                    b >= 10,
            ;
            lemma_dec_text_injective(a / 10, b / 10);
            if dec_text(a) == dec_text(b) {
                assert((dec_text(a / 10) + seq![dec_digit(a % 10)]).drop_last() =~= dec_text(
                    a / 10,
                ));
                assert((dec_text(b / 10) + seq![dec_digit(b % 10)]).drop_last() =~= dec_text(
                    b / 10,
                ));
                assert(dec_text(a / 10) == dec_text(b / 10));
                assert(false);
            }
        }
    }
}

/// The decimal text of an integer: a minus sign for negative values, then
/// the digits of its magnitude.
pub open spec fn int_text(i: int) -> Seq<char> {
    if i < 0 {
        seq!['-'] + dec_text((-i) as nat)
    } else {
        dec_text(i as nat)
    }
}

/// One decimal digit as text.
fn dec_digit_str(d: u64) -> (r: &'static str)
    requires
        d < 10,
    ensures
        r@ == seq![dec_digit(d as nat)],
{
    if d == 0 {
        proof {
            reveal_strlit("0");
            assert("0"@ =~= seq![dec_digit(d as nat)]);
        }
        "0"
    } else if d == 1 {
        proof {
            reveal_strlit("1");
            assert("1"@ =~= seq![dec_digit(d as nat)]);
        }
        "1"
    } else if d == 2 {
        proof {
            reveal_strlit("2");
            assert("2"@ =~= seq![dec_digit(d as nat)]);
        }
        "2"
    } else if d == 3 {
        proof {
            reveal_strlit("3");
            assert("3"@ =~= seq![dec_digit(d as nat)]);
        }
        "3"
    } else if d == 4 {
        proof {
            reveal_strlit("4");
            assert("4"@ =~= seq![dec_digit(d as nat)]);
        }
        "4"
    } else if d == 5 {
        proof {
            reveal_strlit("5");
            assert("5"@ =~= seq![dec_digit(d as nat)]);
        }
        "5"
    } else if d == 6 {
        proof {
            reveal_strlit("6");
            assert("6"@ =~= seq![dec_digit(d as nat)]);
        }
        "6"
    } else if d == 7 {
        proof {
            reveal_strlit("7");
            assert("7"@ =~= seq![dec_digit(d as nat)]);
        }
        "7"
    } else if d == 8 {
        proof {
            reveal_strlit("8");
            assert("8"@ =~= seq![dec_digit(d as nat)]);
        }
        "8"
    } else {
        proof {
            reveal_strlit("9");
            assert("9"@ =~= seq![dec_digit(d as nat)]);
        }
        "9"
    }
}

/// Renders an unsigned integer in decimal.
pub fn render_u64(n: u64) -> (r: String)
    ensures
        r@ == dec_text(n as nat),
    decreases n,
{
    if n < 10 {
        String::from_str(dec_digit_str(n))
    } else {
        assert(n / 10 < n) by (nonlinear_arith)
            requires
                n >= 10,
        ;
        let mut s = render_u64(n / 10);
        s.append(dec_digit_str(n % 10));
        s
    }
}

/// Renders a signed integer in decimal, with a leading minus sign when
/// negative.
pub fn render_i64(i: i64) -> (r: String)
    ensures
        r@ == int_text(i as int),
{
    if i < 0 {
        let magnitude: u64 = if i == i64::MIN {
            9223372036854775808u64
        } else {
            (-i) as u64
        };
        assert(magnitude as nat == (-(i as int)) as nat);
        let mut s = String::from_str("-");
        proof {
            reveal_strlit("-");
            assert("-"@ =~= seq!['-']);
        }
        s.append(render_u64(magnitude).as_str());
        s
    } else {
        render_u64(i as u64)
    }
}

/// The given texts joined with the separator between neighbours.
pub open spec fn joined_text(parts: Seq<Seq<char>>, sep: Seq<char>) -> Seq<char>
    decreases parts.len(),
{
    if parts.len() == 0 {
        Seq::empty()
    } else if parts.len() == 1 {
        parts[0]
    } else {
        parts[0] + sep + joined_text(parts.drop_first(), sep)
    }
}

/// Joins the given strings with the separator between neighbours.
pub fn join_strings(parts: &Vec<String>, sep: &str) -> (r: String)
    ensures
        r@ == joined_text(parts@.map_values(|p: String| p@), sep@),
{
    let ghost texts = parts@.map_values(|p: String| p@);
    let mut r = String::new();
    let mut i: usize = 0;
    while i < parts.len()
        invariant
            i <= parts.len(),
            texts == parts@.map_values(|p: String| p@),
            r@ == joined_text(texts.take(i as int), sep@),
        decreases parts.len() - i,
    {
        if i > 0 {
            r.append(sep);
        }
        r.append(parts[i].as_str());
        proof {
            lemma_joined_text_push(texts, sep@, i as int);
        }
        i += 1;
    }
    proof {
        assert(texts.take(parts@.len() as int) =~= texts);
    }
    r
}

/// Extending the joined prefix by one more part appends a separator (after
/// the first part) and the part's text.
proof fn lemma_joined_text_push(parts: Seq<Seq<char>>, sep: Seq<char>, i: int)
    requires
        0 <= i < parts.len(),
    ensures
        joined_text(parts.take(i + 1), sep) == if i == 0 {
            parts[0]
        } else {
            joined_text(parts.take(i), sep) + sep + parts[i]
        },
    decreases i,
{
    if i == 0 {
        assert(parts.take(1).len() == 1);
        assert(parts.take(1)[0] == parts[0]);
    } else {
        lemma_joined_text_push(parts.drop_first(), sep, i - 1);
        assert(parts.take(i + 1).drop_first() =~= parts.drop_first().take(i));
        assert(parts.take(i).drop_first() =~= parts.drop_first().take(i - 1));
        if i == 1 {
            assert(joined_text(parts.take(2), sep) == parts[0] + sep + parts[1]);
            assert(joined_text(parts.take(1), sep) == parts[0]);
        }
    }
}

/// A structured value: an object (an ordered key-to-value mapping), an
/// array, or a scalar. Catalog responses and serialized candidate rows both
/// take this shape.
#[derive(Debug)]
pub enum Value {
    Null,
    Bool(bool),
    Int(i64),
    Strand(String),
    Array(Vec<Value>),
    Object(Vec<(String, Value)>),
}

/// A character of a text literal, escaped where the quoting demands it:
/// a quote or a backslash gets a backslash before it.
pub open spec fn escaped_char(c: char) -> Seq<char> {
    if c == '\'' || c == '\\' {
        seq!['\\', c]
    } else {
        seq![c]
    }
}

/// A text with every character escaped for use inside a quoted literal.
pub open spec fn escaped_text(s: Seq<char>) -> Seq<char>
    decreases s.len(),
{
    if s.len() == 0 {
        Seq::empty()
    } else {
        escaped_char(s[0]) + escaped_text(s.drop_first())
    }
}

/// Escaping distributes over concatenation.
proof fn lemma_escaped_text_append(a: Seq<char>, b: Seq<char>)
    ensures
        escaped_text(a + b) == escaped_text(a) + escaped_text(b),
    decreases a.len(),
{
    if a.len() == 0 {
        assert(a + b =~= b);
        assert(escaped_text(a) + escaped_text(b) =~= escaped_text(b));
    } else {
        lemma_escaped_text_append(a.drop_first(), b);
        assert((a + b).drop_first() =~= a.drop_first() + b);
        assert(escaped_char((a + b)[0]) + (escaped_text(a.drop_first()) + escaped_text(b))
            =~= (escaped_char(a[0]) + escaped_text(a.drop_first())) + escaped_text(b));
    }
}

/// Escapes a text for use inside a quoted literal.
pub fn escape_str(s: &str) -> (r: String)
    ensures
        r@ == escaped_text(s@),
{
    let len = s.unicode_len();
    let mut r = String::new();
    let mut i: usize = 0;
    while i < len
        invariant
            i <= len,
            len == s@.len(),
            r@ == escaped_text(s@.take(i as int)),
        decreases len - i,
    {
        let c = s.get_char(i);
        if c == '\'' || c == '\\' {
            proof {
                reveal_strlit("\\");
                assert("\\"@ =~= seq!['\\']);
            }
            r.append("\\");
        }
        let piece = s.substring_char(i, i + 1);
        r.append(piece);
        proof {
            lemma_escaped_text_append(s@.take(i as int), s@.subrange(i as int, i + 1));
            assert(s@.take(i as int) + s@.subrange(i as int, i + 1) =~= s@.take(i + 1));
            let piece_text = s@.subrange(i as int, i + 1);
            assert(piece_text.drop_first() =~= Seq::<char>::empty());
            assert(escaped_text(Seq::<char>::empty()) =~= Seq::<char>::empty());
            assert(escaped_text(piece_text) == escaped_char(piece_text[0]) + escaped_text(
                piece_text.drop_first(),
            ));
            assert(escaped_text(piece_text) =~= escaped_char(s@[i as int]));
        }
        i += 1;
    }
    proof {
        assert(s@.take(len as int) =~= s@);
    }
    r
}

/// How a value is written as a literal inside a query: `NULL`, `true` and
/// `false`, decimal integers, quoted and escaped text, arrays in brackets
/// and objects in braces, both comma-separated.
pub open spec fn literal_text(v: Value) -> Seq<char>
    decreases v,
{
    match v {
        Value::Null => "NULL"@,
        Value::Bool(b) => if b {
            "true"@
        } else {
            "false"@
        },
        Value::Int(i) => int_text(i as int),
        Value::Strand(s) => seq!['\''] + escaped_text(s@) + seq!['\''],
        Value::Array(items) => seq!['['] + joined_text(literal_texts(items@), ", "@) + seq![']'],
        Value::Object(entries) => seq!['{', ' '] + joined_text(entry_texts(entries@), ", "@)
            + seq![' ', '}'],
    }
}

/// The literal texts of a sequence of values, in order.
pub open spec fn literal_texts(items: Seq<Value>) -> Seq<Seq<char>>
    decreases items,
{
    if items.len() == 0 {
        Seq::empty()
    } else {
        seq![literal_text(items[0])] + literal_texts(items.drop_first())
    }
}

/// The `key: value` texts of an object's entries, in order.
pub open spec fn entry_texts(entries: Seq<(String, Value)>) -> Seq<Seq<char>>
    decreases entries,
{
    if entries.len() == 0 {
        Seq::empty()
    } else {
        seq![entries[0].0@ + ": "@ + literal_text(entries[0].1)] + entry_texts(
            entries.drop_first(),
        )
    }
}

/// Renders a value as a query literal.
#[verifier::loop_isolation(false)]
pub fn render_literal(v: &Value) -> (r: String)
    ensures
        r@ == literal_text(*v),
    decreases *v,
{
    match v {
        Value::Null => String::from_str("NULL"),
        Value::Bool(b) => if *b {
            String::from_str("true")
        } else {
            String::from_str("false")
        },
        Value::Int(i) => render_i64(*i),
        Value::Strand(s) => {
            proof {
                reveal_strlit("'");
                assert("'"@ =~= seq!['\'']);
            }
            let mut r = String::from_str("'");
            r.append(escape_str(s.as_str()).as_str());
            r.append("'");
            r
        },
        Value::Array(items) => {
            let mut parts: Vec<String> = Vec::new();
            let mut i: usize = 0;
            while i < items.len()
                invariant
                    i <= items.len(),
                    parts@.map_values(|p: String| p@) == literal_texts(items@.take(i as int)),
                decreases items.len() - i,
            {
                proof {
                    assert(decreases_to!(*v => v->Array_0));
                    assert(decreases_to!(v->Array_0 => v->Array_0[i as int]));
                    assert(*items == v->Array_0);
                }
                let piece = render_literal(&items[i]);
                parts.push(piece);
                proof {
                    lemma_literal_texts_push(items@, i as int);
                }
                i += 1;
            }
            proof {
                assert(items@.take(items@.len() as int) =~= items@);
                reveal_strlit("[");
                reveal_strlit("]");
                assert("["@ =~= seq!['[']);
                assert("]"@ =~= seq![']']);
            }
            let mut r = String::from_str("[");
            r.append(join_strings(&parts, ", ").as_str());
            r.append("]");
            r
        },
        Value::Object(entries) => {
            let mut parts: Vec<String> = Vec::new();
            let mut i: usize = 0;
            while i < entries.len()
                invariant
                    i <= entries.len(),
                    parts@.map_values(|p: String| p@) == entry_texts(entries@.take(i as int)),
                decreases entries.len() - i,
            {
                let mut piece = entries[i].0.clone();
                piece.append(": ");
                proof {
                    reveal_strlit(": ");
                    assert(decreases_to!(*v => v->Object_0));
                    assert(decreases_to!(v->Object_0 => v->Object_0[i as int]));
                    assert(decreases_to!(v->Object_0[i as int] => v->Object_0[i as int].1));
                    assert(*entries == v->Object_0);
                }
                piece.append(render_literal(&entries[i].1).as_str());
                parts.push(piece);
                proof {
                    lemma_entry_texts_push(entries@, i as int);
                }
                i += 1;
            }
            proof {
                assert(entries@.take(entries@.len() as int) =~= entries@);
                reveal_strlit("{ ");
                reveal_strlit(" }");
                assert("{ "@ =~= seq!['{', ' ']);
                assert(" }"@ =~= seq![' ', '}']);
            }
            let mut r = String::from_str("{ ");
            r.append(join_strings(&parts, ", ").as_str());
            r.append(" }");
            r
        },
    }
}

/// The literal texts of one more value extend the texts of the prefix.
proof fn lemma_literal_texts_push(items: Seq<Value>, i: int)
    requires
        0 <= i < items.len(),
    ensures
        literal_texts(items.take(i + 1)) == literal_texts(items.take(i)) + seq![
            literal_text(items[i]),
        ],
    decreases i,
{
    if i == 0 {
        assert(items.take(1)[0] == items[0]);
        assert(items.take(1).drop_first() =~= Seq::<Value>::empty());
        assert(literal_texts(Seq::<Value>::empty()) =~= Seq::<Seq<char>>::empty());
        assert(literal_texts(items.take(1)) =~= seq![literal_text(items[0])]);
        assert(literal_texts(items.take(0)) =~= Seq::<Seq<char>>::empty());
        assert(literal_texts(items.take(0)) + seq![literal_text(items[0])] =~= seq![
            literal_text(items[0]),
        ]);
    } else {
        lemma_literal_texts_push(items.drop_first(), i - 1);
        assert(items.take(i + 1).drop_first() =~= items.drop_first().take(i));
        assert(items.take(i).drop_first() =~= items.drop_first().take(i - 1));
        assert(seq![literal_text(items[0])] + (literal_texts(items.drop_first().take(i - 1))
            + seq![literal_text(items[i])]) =~= (seq![literal_text(items[0])] + literal_texts(
            items.drop_first().take(i - 1),
        )) + seq![literal_text(items[i])]);
    }
}

/// The entry texts of one more entry extend the texts of the prefix.
proof fn lemma_entry_texts_push(entries: Seq<(String, Value)>, i: int)
    requires
        0 <= i < entries.len(),
    ensures
        entry_texts(entries.take(i + 1)) == entry_texts(entries.take(i)) + seq![
            entries[i].0@ + ": "@ + literal_text(entries[i].1),
        ],
    decreases i,
{
    if i == 0 {
        assert(entries.take(1)[0] == entries[0]);
        assert(entries.take(1).drop_first() =~= Seq::<(String, Value)>::empty());
        assert(entry_texts(Seq::<(String, Value)>::empty()) =~= Seq::<Seq<char>>::empty());
        assert(entry_texts(entries.take(1)) =~= seq![
            entries[0].0@ + ": "@ + literal_text(entries[0].1),
        ]);
        assert(entry_texts(entries.take(0)) =~= Seq::<Seq<char>>::empty());
        assert(entry_texts(entries.take(0)) + seq![entries[0].0@ + ": "@ + literal_text(entries[0].1)]
            =~= seq![entries[0].0@ + ": "@ + literal_text(entries[0].1)]);
    } else {
        lemma_entry_texts_push(entries.drop_first(), i - 1);
        assert(entries.take(i + 1).drop_first() =~= entries.drop_first().take(i));
        assert(entries.take(i).drop_first() =~= entries.drop_first().take(i - 1));
        let head = seq![entries[0].0@ + ": "@ + literal_text(entries[0].1)];
        let tail_prefix = entry_texts(entries.drop_first().take(i - 1));
        let last = seq![entries[i].0@ + ": "@ + literal_text(entries[i].1)];
        assert(head + (tail_prefix + last) =~= (head + tail_prefix) + last);
    }
}

/// The value under the first entry with the given key, if any.
pub open spec fn lookup_text(entries: Seq<(String, Value)>, key: Seq<char>) -> Option<Value>
    decreases entries.len(),
{
    if entries.len() == 0 {
        None
    } else if entries[0].0@ == key {
        Some(entries[0].1)
    } else {
        lookup_text(entries.drop_first(), key)
    }
}

/// A lookup skips a prefix in which no entry carries the key.
proof fn lemma_lookup_skip(entries: Seq<(String, Value)>, key: Seq<char>, i: int)
    requires
        0 <= i <= entries.len(),
        forall|j: int| 0 <= j < i ==> entries[j].0@ != key,
    ensures
        lookup_text(entries, key) == lookup_text(entries.skip(i), key),
    decreases i,
{
    if i > 0 {
        lemma_lookup_skip(entries.drop_first(), key, i - 1);
        assert(entries.drop_first().skip(i - 1) =~= entries.skip(i));
    } else {
        assert(entries.skip(0) =~= entries);
    }
}

/// Finds the value under the first entry with the given key.
pub fn lookup<'a>(entries: &'a Vec<(String, Value)>, key: &str) -> (r: Option<&'a Value>)
    ensures
        match r {
            Some(v) => lookup_text(entries@, key@) == Some(*v),
            None => lookup_text(entries@, key@) is None,
        },
{
    let wanted = String::from_str(key);
    let mut i: usize = 0;
    while i < entries.len()
        invariant
            i <= entries.len(),
            wanted@ == key@,
            forall|j: int| 0 <= j < i ==> entries@[j].0@ != key@,
        decreases entries.len() - i,
    {
        if entries[i].0 == wanted {
            proof {
                lemma_lookup_skip(entries@, key@, i as int);
                assert(entries@.skip(i as int)[0] == entries@[i as int]);
            }
            return Some(&entries[i].1);
        }
        i += 1;
    }
    proof {
        lemma_lookup_skip(entries@, key@, entries@.len() as int);
        assert(entries@.skip(entries@.len() as int) =~= Seq::<(String, Value)>::empty());
    }
    None
}

/// Whether some string in the list has the given text.
pub open spec fn contains_text(list: Seq<String>, t: Seq<char>) -> bool {
    exists|i: int| 0 <= i < list.len() && list[i]@ == t
}

/// Tests whether some string in the list has the given text.
pub fn contains_string(list: &Vec<String>, t: &str) -> (r: bool)
    ensures
        r == contains_text(list@, t@),
{
    let wanted = String::from_str(t);
    let mut i: usize = 0;
    while i < list.len()
        invariant
            i <= list.len(),
            wanted@ == t@,
            forall|j: int| 0 <= j < i ==> list@[j]@ != t@,
        decreases list.len() - i,
    {
        if list[i] == wanted {
            return true;
        }
        i += 1;
    }
    false
}

} // verus!
