//! JSON in and out: reading a remote result document through serde_json, and
//! compact JSON text for the plugin's replies (row sets, truth values, name
//! lists, counts), whose string literals serde_json writes and the library
//! frames.
use crate::dispatch::{row_view, rows_view, Row};
use crate::term::{Projected, Scalar};
use serde_json::Value;
use vstd::prelude::*;

verus! {

#[verifier::external_type_specification]
#[verifier::external_body]
pub struct ExValue(Value);

/// A JSON document as plain values; a number is kept as serde_json writes it,
/// an object's members in the order serde_json's map gives them.
pub enum Json {
    Null,
    Bool(bool),
    Number(String),
    Text(String),
    Array(Vec<Json>),
    Object(Vec<(String, Json)>),
}

/// The document that serde_json reads from `body`, if `body` is one.
pub uninterp spec fn json_of(body: Seq<u8>) -> Option<Json>;

/// Relies on `serde_json::from_slice` into a `Value`: the document depends on
/// the bytes alone. The value is converted variant for variant.
#[verifier::external_body]
pub(crate) fn parse_document(body: &[u8]) -> (r: Option<Json>)
    ensures
        r == json_of(body@),
{
    serde_json::from_slice::<Value>(body).ok().map(json_from_value)
}

/// Relies on the variants of `serde_json::Value` and `Number`'s `Display`:
/// the same value as plain values (used by `parse_document`).
#[verifier::external_body]
fn json_from_value(v: Value) -> Json {
    match v {
        Value::Null => Json::Null,
        Value::Bool(b) => Json::Bool(b),
        Value::Number(n) => Json::Number(n.to_string()),
        Value::String(s) => Json::Text(s),
        Value::Array(a) => Json::Array(a.into_iter().map(json_from_value).collect()),
        Value::Object(m) => Json::Object(m.into_iter().map(|(k, v)| (k, json_from_value(v))).collect()),
    }
}

/// A lower-case hexadecimal digit.
pub open spec fn hex_digit(d: int) -> char {
    seq!['0', '1', '2', '3', '4', '5', '6', '7', '8', '9', 'a', 'b', 'c', 'd', 'e', 'f'][d]
}

/// A character inside a JSON string literal: `"` and `\` escaped, the control
/// characters as `\b`, `\t`, `\n`, `\f`, `\r` or `\u00XX`, any other as is.
pub open spec fn escaped(c: char) -> Seq<char> {
    let u = c as u32;
    if c == '"' {
        seq!['\\', '"']
    } else if c == '\\' {
        seq!['\\', '\\']
    } else if u == 8 {
        seq!['\\', 'b']
    } else if u == 9 {
        seq!['\\', 't']
    } else if u == 10 {
        seq!['\\', 'n']
    } else if u == 12 {
        seq!['\\', 'f']
    } else if u == 13 {
        seq!['\\', 'r']
    } else if u < 32 {
        seq!['\\', 'u', '0', '0', hex_digit((u / 16) as int), hex_digit((u % 16) as int)]
    } else {
        seq![c]
    }
}

/// The characters of `s`, each escaped.
pub open spec fn escaped_text(s: Seq<char>) -> Seq<char>
    decreases s.len(),
{
    if s.len() == 0 {
        Seq::empty()
    } else {
        escaped_text(s.drop_last()) + escaped(s.last())
    }
}

/// The JSON string literal of `s`, quotes and escapes included, as serde_json
/// writes it.
pub open spec fn json_string_text(s: Seq<char>) -> Seq<char> {
    seq!['"'] + escaped_text(s) + seq!['"']
}

/// Relies on `serde_json::to_string` on a `str` (its escape table): the JSON
/// string literal of the text. Serializing a `str` into memory does not fail.
#[verifier::external_body]
fn quoted(s: &str) -> (r: String)
    ensures
        r@ == json_string_text(s@),
{
    serde_json::to_string(s).unwrap_or_default()
}

/// The decimal digit `d`.
pub open spec fn digit_char(d: int) -> char {
    seq!['0', '1', '2', '3', '4', '5', '6', '7', '8', '9'][d]
}

/// The decimal numeral of `n`.
pub open spec fn nat_text(n: nat) -> Seq<char>
    decreases n,
{
    if n < 10 {
        seq![digit_char(n as int)]
    } else {
        nat_text(n / 10).push(digit_char((n % 10) as int))
    }
}

/// The decimal numeral of `i`, with a leading `-` when negative.
pub open spec fn int_text(i: int) -> Seq<char> {
    if i < 0 {
        seq!['-'] + nat_text((-i) as nat)
    } else {
        nat_text(i as nat)
    }
}

/// The parts separated by commas.
pub open spec fn joined(parts: Seq<Seq<char>>) -> Seq<char>
    decreases parts.len(),
{
    if parts.len() == 0 {
        Seq::empty()
    } else if parts.len() == 1 {
        parts[0]
    } else {
        joined(parts.drop_last()) + seq![','] + parts.last()
    }
}

pub open spec fn scalar_text(v: Scalar) -> Seq<char> {
    match v {
        Scalar::Text(s) => json_string_text(s),
        Scalar::Integer(i) => int_text(i),
        Scalar::Decimal(t) => t,
    }
}

pub open spec fn cell_text(c: (Seq<char>, Scalar)) -> Seq<char> {
    json_string_text(c.0) + seq![':'] + scalar_text(c.1)
}

/// A row as a JSON object, members in the row's order.
pub open spec fn object_text(row: Seq<(Seq<char>, Scalar)>) -> Seq<char> {
    seq!['{'] + joined(row.map_values(|c: (Seq<char>, Scalar)| cell_text(c))) + seq!['}']
}

/// Rows as a JSON array of objects.
pub open spec fn rows_text(rows: Seq<Seq<(Seq<char>, Scalar)>>) -> Seq<char> {
    seq!['['] + joined(rows.map_values(|r: Seq<(Seq<char>, Scalar)>| object_text(r))) + seq![']']
}

/// Names as a JSON array of strings.
pub open spec fn names_text(names: Seq<Seq<char>>) -> Seq<char> {
    seq!['['] + joined(names.map_values(|n: Seq<char>| json_string_text(n))) + seq![']']
}

/// A truth value as `{"boolean":<b>}`.
pub open spec fn boolean_text(b: bool) -> Seq<char> {
    seq!['{'] + json_string_text("boolean"@) + seq![':'] + (if b {
        "true"@
    } else {
        "false"@
    }) + seq!['}']
}

fn digit_str(d: u64) -> (r: &'static str)
    requires
        d < 10,
    ensures
        r@ == seq![digit_char(d as int)],
{
    proof {
        reveal_strlit("0");
        reveal_strlit("1");
        reveal_strlit("2");
        reveal_strlit("3");
        reveal_strlit("4");
        reveal_strlit("5");
        reveal_strlit("6");
        reveal_strlit("7");
        reveal_strlit("8");
        reveal_strlit("9");
    }
    let r = if d == 0 {
        "0"
    } else if d == 1 {
        "1"
    } else if d == 2 {
        "2"
    } else if d == 3 {
        "3"
    } else if d == 4 {
        "4"
    } else if d == 5 {
        "5"
    } else if d == 6 {
        "6"
    } else if d == 7 {
        "7"
    } else if d == 8 {
        "8"
    } else {
        "9"
    };
    assert(r@ =~= seq![digit_char(d as int)]);
    r
}

fn append_digits(out: &mut String, n: u64)
    ensures
        final(out)@ == old(out)@ + nat_text(n as nat),
    decreases n,
{
    if n >= 10 {
        append_digits(out, n / 10);
    }
    out.append(digit_str(n % 10));
    assert(final(out)@ =~= old(out)@ + nat_text(n as nat));
}

/// The decimal numeral of `n`.
pub fn count_text(n: u64) -> (r: String)
    ensures
        r@ == nat_text(n as nat),
{
    let mut r = String::new();
    append_digits(&mut r, n);
    assert(r@ =~= nat_text(n as nat));
    r
}

/// The decimal numeral of `i`, with a leading `-` when negative.
pub fn integer_text(i: i64) -> (r: String)
    ensures
        r@ == int_text(i as int),
{
    proof {
        reveal_strlit("-");
    }
    let mut r = String::new();
    if i < 0 {
        r.append("-");
        let m: u64 = (-(i as i128)) as u64;
        append_digits(&mut r, m);
    } else {
        append_digits(&mut r, i as u64);
    }
    assert(r@ =~= int_text(i as int));
    r
}

/// The one-character text of a JSON punctuation mark.
fn mark(c: char) -> (r: &'static str)
    requires
        c == '{' || c == '}' || c == '[' || c == ']' || c == ',' || c == ':',
    ensures
        r@ == seq![c],
{
    proof {
        reveal_strlit("{");
        reveal_strlit("}");
        reveal_strlit("[");
        reveal_strlit("]");
        reveal_strlit(",");
        reveal_strlit(":");
    }
    let r = if c == '{' {
        "{"
    } else if c == '}' {
        "}"
    } else if c == '[' {
        "["
    } else if c == ']' {
        "]"
    } else if c == ',' {
        ","
    } else {
        ":"
    };
    assert(r@ =~= seq![c]);
    r
}

fn append_char_str(out: &mut String, c: char)
    requires
        c == '{' || c == '}' || c == '[' || c == ']' || c == ',' || c == ':',
    ensures
        final(out)@ == old(out)@ + seq![c],
{
    out.append(mark(c));
}

/// The JSON text of a projected value.
pub fn scalar_json(v: &Projected) -> (r: String)
    ensures
        r@ == scalar_text(v@),
{
    match v {
        Projected::Text(s) => quoted(s.as_str()),
        Projected::Integer(i) => integer_text(*i),
        Projected::Decimal(t) => t.clone(),
    }
}

/// A row as a JSON object, members in the row's order.
pub fn object_json(row: &Row) -> (r: String)
    ensures
        r@ == object_text(row_view(*row)),
{
    let ghost parts = row_view(*row).map_values(|c: (Seq<char>, Scalar)| cell_text(c));
    let mut r = String::new();
    append_char_str(&mut r, '{');
    let n = row.len();
    let mut i: usize = 0;
    while i < n
        invariant
            n == row@.len(),
            parts.len() == n,
            parts == row_view(*row).map_values(|c: (Seq<char>, Scalar)| cell_text(c)),
            i <= n,
            r@ == seq!['{'] + joined(parts.subrange(0, i as int)),
        decreases n - i,
    {
        if i > 0 {
            append_char_str(&mut r, ',');
        }
        r.append(quoted(row[i].0.as_str()).as_str());
        append_char_str(&mut r, ':');
        r.append(scalar_json(&row[i].1).as_str());
        assert(parts[i as int] == cell_text((row@[i as int].0@, row@[i as int].1@)));
        assert(parts.subrange(0, i + 1).drop_last() =~= parts.subrange(0, i as int));
        if i == 0 {
            assert(parts.subrange(0, 1) =~= seq![parts[0]]);
        }
        assert(r@ =~= seq!['{'] + joined(parts.subrange(0, i + 1)));
        i = i + 1;
    }
    append_char_str(&mut r, '}');
    assert(parts.subrange(0, n as int) =~= parts);
    assert(r@ =~= object_text(row_view(*row)));
    r
}

/// Rows as a JSON array of objects.
pub fn rows_json(rows: &Vec<Row>) -> (r: String)
    ensures
        r@ == rows_text(rows_view(rows@)),
{
    let ghost parts = rows_view(rows@).map_values(|x: Seq<(Seq<char>, Scalar)>| object_text(x));
    let mut r = String::new();
    append_char_str(&mut r, '[');
    let n = rows.len();
    let mut i: usize = 0;
    while i < n
        invariant
            n == rows@.len(),
            parts.len() == n,
            parts == rows_view(rows@).map_values(|x: Seq<(Seq<char>, Scalar)>| object_text(x)),
            i <= n,
            r@ == seq!['['] + joined(parts.subrange(0, i as int)),
        decreases n - i,
    {
        if i > 0 {
            append_char_str(&mut r, ',');
        }
        r.append(object_json(&rows[i]).as_str());
        assert(parts.subrange(0, i + 1).drop_last() =~= parts.subrange(0, i as int));
        if i == 0 {
            assert(parts.subrange(0, 1) =~= seq![parts[0]]);
        }
        assert(r@ =~= seq!['['] + joined(parts.subrange(0, i + 1)));
        i = i + 1;
    }
    append_char_str(&mut r, ']');
    assert(parts.subrange(0, n as int) =~= parts);
    assert(r@ =~= rows_text(rows_view(rows@)));
    r
}

/// Names as a JSON array of strings.
pub fn names_json(names: &Vec<String>) -> (r: String)
    ensures
        r@ == names_text(names@.map_values(|s: String| s@)),
{
    let ghost parts = names@.map_values(|s: String| s@).map_values(|x: Seq<char>| json_string_text(x));
    let mut r = String::new();
    append_char_str(&mut r, '[');
    let n = names.len();
    let mut i: usize = 0;
    while i < n
        invariant
            n == names@.len(),
            parts.len() == n,
            parts == names@.map_values(|s: String| s@).map_values(|x: Seq<char>| json_string_text(x)),
            i <= n,
            r@ == seq!['['] + joined(parts.subrange(0, i as int)),
        decreases n - i,
    {
        if i > 0 {
            append_char_str(&mut r, ',');
        }
        r.append(quoted(names[i].as_str()).as_str());
        assert(parts.subrange(0, i + 1).drop_last() =~= parts.subrange(0, i as int));
        if i == 0 {
            assert(parts.subrange(0, 1) =~= seq![parts[0]]);
        }
        assert(r@ =~= seq!['['] + joined(parts.subrange(0, i + 1)));
        i = i + 1;
    }
    append_char_str(&mut r, ']');
    assert(parts.subrange(0, n as int) =~= parts);
    r
}

/// A truth value as `{"boolean":<b>}`.
pub fn boolean_json(b: bool) -> (r: String)
    ensures
        r@ == boolean_text(b),
{
    let mut r = String::new();
    append_char_str(&mut r, '{');
    r.append(quoted("boolean").as_str());
    append_char_str(&mut r, ':');
    if b {
        r.append("true");
    } else {
        r.append("false");
    }
    append_char_str(&mut r, '}');
    assert(r@ =~= boolean_text(b));
    r
}

} // verus!
