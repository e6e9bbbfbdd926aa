//! Graph terms and their projection into typed output values.
use crate::prefixes::{Entry, PrefixTable};
use crate::text::{chars_of, is_prefix_of, starts_with, text_eq};
use vstd::prelude::*;

verus! {

/// A graph term as it comes out of a query result.
#[derive(Debug, Clone, PartialEq)]
pub enum RdfTerm {
    /// A node named by an IRI.
    Iri(String),
    /// A blank node, by its label.
    Blank(String),
    /// A literal: lexical value, datatype IRI, language tag.
    Literal { value: String, datatype: Option<String>, language: Option<String> },
}

/// A term as plain values.
pub enum TermView {
    Iri(Seq<char>),
    Blank(Seq<char>),
    Literal(Seq<char>, Option<Seq<char>>, Option<Seq<char>>),
}

pub open spec fn opt_view(o: Option<String>) -> Option<Seq<char>> {
    match o {
        Some(s) => Some(s@),
        None => None,
    }
}

impl View for RdfTerm {
    type V = TermView;

    open spec fn view(&self) -> TermView {
        match self {
            RdfTerm::Iri(s) => TermView::Iri(s@),
            RdfTerm::Blank(s) => TermView::Blank(s@),
            RdfTerm::Literal { value, datatype, language } => TermView::Literal(
                value@,
                opt_view(*datatype),
                opt_view(*language),
            ),
        }
    }
}

/// A projected value: a string, an integer, or a decimal number given by its
/// JSON rendering.
#[derive(Debug, Clone, PartialEq)]
pub enum Projected {
    Text(String),
    Integer(i64),
    Decimal(String),
}

/// A projected value as plain values.
pub enum Scalar {
    Text(Seq<char>),
    Integer(int),
    Decimal(Seq<char>),
}

impl View for Projected {
    type V = Scalar;

    open spec fn view(&self) -> Scalar {
        match self {
            Projected::Text(s) => Scalar::Text(s@),
            Projected::Integer(i) => Scalar::Integer(*i as int),
            Projected::Decimal(s) => Scalar::Decimal(s@),
        }
    }
}

// ---------------------------------------------------------------- integers
pub open spec fn is_digit(c: char) -> bool {
    48 <= (c as u32) && (c as u32) <= 57
}

pub open spec fn all_digits(s: Seq<char>) -> bool {
    forall|i: int| 0 <= i < s.len() ==> is_digit(#[trigger] s[i])
}

/// The value of a string of decimal digits.
pub open spec fn digits_value(s: Seq<char>) -> int
    decreases s.len(),
{
    if s.len() == 0 {
        0
    } else {
        digits_value(s.drop_last()) * 10 + ((s.last() as u32) as int - 48)
    }
}

/// An optional sign followed by at least one decimal digit, and its value.
pub open spec fn decimal_integer(s: Seq<char>) -> Option<int> {
    if s.len() > 0 && (s[0] == '+' || s[0] == '-') {
        let d = s.drop_first();
        if d.len() > 0 && all_digits(d) {
            Some(
                if s[0] == '-' {
                    -digits_value(d)
                } else {
                    digits_value(d)
                },
            )
        } else {
            None
        }
    } else if s.len() > 0 && all_digits(s) {
        Some(digits_value(s))
    } else {
        None
    }
}

/// The value of `s` read as a 64-bit signed integer, as `i64`'s `FromStr` reads it.
pub open spec fn i64_of(s: Seq<char>) -> Option<int> {
    match decimal_integer(s) {
        Some(v) => if i64::MIN <= v <= i64::MAX {
            Some(v)
        } else {
            None
        },
        None => None,
    }
}

proof fn lemma_digits_grow(s: Seq<char>, i: int)
    requires
        all_digits(s),
        0 <= i <= s.len(),
    ensures
        digits_value(s) >= digits_value(s.subrange(0, i)),
        digits_value(s) >= 0,
    decreases s.len(),
{
    if s.len() > 0 {
        let p = s.drop_last();
        assert(all_digits(p)) by {
            assert forall|k: int| 0 <= k < p.len() implies is_digit(#[trigger] p[k]) by {
                assert(is_digit(s[k]));
            }
        }
        assert(is_digit(s[s.len() - 1]));
        if i < s.len() {
            assert(p.subrange(0, i) =~= s.subrange(0, i));
            lemma_digits_grow(p, i);
        } else {
            assert(s.subrange(0, i) =~= s);
            lemma_digits_grow(p, 0);
        }
    } else {
        assert(s.subrange(0, i) =~= s);
    }
}

/// Reads `s` as a 64-bit signed integer: an optional `+` or `-`, then one or more
/// decimal digits, within the range of `i64`.
pub fn parse_i64(s: &str) -> (r: Option<i64>)
    ensures
        match r {
            Some(v) => i64_of(s@) == Some(v as int),
            None => i64_of(s@) is None,
        },
{
    let cs = chars_of(s);
    let n = cs.len();
    if n == 0 {
        return None;
    }
    let signed = cs[0] == '+' || cs[0] == '-';
    let neg = cs[0] == '-';
    let start: usize = if signed {
        1
    } else {
        0
    };
    if start == n {
        return None;
    }
    let ghost d = cs@.subrange(start as int, n as int);
    assert(signed ==> d =~= s@.drop_first());
    assert(!signed ==> d =~= s@);
    let mut mag: u128 = 0;
    let mut i: usize = start;
    while i < n
        invariant
            cs@ == s@,
            n == cs@.len(),
            start <= i <= n,
            d == cs@.subrange(start as int, n as int),
            s@.len() > 0,
            signed == (s@[0] == '+' || s@[0] == '-'),
            neg == (s@[0] == '-'),
            signed ==> d == s@.drop_first(),
            !signed ==> d == s@,
            d.len() > 0,
            all_digits(cs@.subrange(start as int, i as int)),
            mag as int == digits_value(cs@.subrange(start as int, i as int)),
            mag <= 9223372036854775808,
        decreases n - i,
    {
        let c = cs[i];
        let u = c as u32;
        if u < 48 || u > 57 {
            assert(!is_digit(d[i - start]));
            assert(!all_digits(d));
            assert(decimal_integer(s@) is None);
            return None;
        }
        let next: u128 = mag * 10 + (u - 48) as u128;
        let ghost p = cs@.subrange(start as int, i + 1);
        assert(p.drop_last() =~= cs@.subrange(start as int, i as int));
        assert(all_digits(p)) by {
            assert forall|k: int| 0 <= k < p.len() implies is_digit(#[trigger] p[k]) by {
                if k < p.len() - 1 {
                    assert(p[k] == cs@.subrange(start as int, i as int)[k]);
                }
            }
        }
        assert(next as int == digits_value(p));
        if next > 9223372036854775808 {
            assert(p =~= d.subrange(0, i + 1 - start));
            proof {
                if all_digits(d) {
                    lemma_digits_grow(d, i + 1 - start);
                    assert(digits_value(d) > i64::MAX);
                }
            }
            assert(i64_of(s@) is None);
            return None;
        }
        mag = next;
        i = i + 1;
    }
    assert(cs@.subrange(start as int, n as int) =~= d);
    if neg {
        if mag == 9223372036854775808 {
            Some(i64::MIN)
        } else {
            Some(-(mag as i64))
        }
    } else if mag <= 9223372036854775807 {
        Some(mag as i64)
    } else {
        None
    }
}

// ------------------------------------------------------------------ floats
/// The JSON rendering of `s` read as a finite 64-bit float, or `None` where it
/// does not read as one or the value is not finite.
pub uninterp spec fn float_number_text(s: Seq<char>) -> Option<Seq<char>>;

/// Relies on the standard library's float `FromStr` (64-bit) and on
/// `serde_json::Number::from_f64`, which refuses non-finite values, and its
/// `Display`: the result depends on the text alone.
#[verifier::external_body]
fn parse_float_number(s: &str) -> (r: Option<String>)
    ensures
        match r {
            Some(t) => float_number_text(s@) == Some(t@),
            None => float_number_text(s@) is None,
        },
{
    s.parse().ok().and_then(serde_json::Number::from_f64).map(|n| n.to_string())
}

// --------------------------------------------------------------- datatypes
/// The integer family of XML Schema datatypes.
pub open spec fn is_integer_datatype(dt: Seq<char>) -> bool {
    ||| dt == "http://www.w3.org/2001/XMLSchema#integer"@
    ||| dt == "http://www.w3.org/2001/XMLSchema#int"@
    ||| dt == "http://www.w3.org/2001/XMLSchema#long"@
    ||| dt == "http://www.w3.org/2001/XMLSchema#short"@
    ||| dt == "http://www.w3.org/2001/XMLSchema#byte"@
    ||| dt == "http://www.w3.org/2001/XMLSchema#nonNegativeInteger"@
    ||| dt == "http://www.w3.org/2001/XMLSchema#positiveInteger"@
    ||| dt == "http://www.w3.org/2001/XMLSchema#unsignedInt"@
    ||| dt == "http://www.w3.org/2001/XMLSchema#unsignedLong"@
    ||| dt == "http://www.w3.org/2001/XMLSchema#unsignedShort"@
    ||| dt == "http://www.w3.org/2001/XMLSchema#unsignedByte"@
}

/// The floating family of XML Schema datatypes.
pub open spec fn is_float_datatype(dt: Seq<char>) -> bool {
    ||| dt == "http://www.w3.org/2001/XMLSchema#decimal"@
    ||| dt == "http://www.w3.org/2001/XMLSchema#double"@
    ||| dt == "http://www.w3.org/2001/XMLSchema#float"@
}

pub fn integer_datatype(dt: &str) -> (r: bool)
    ensures
        r == is_integer_datatype(dt@),
{
    text_eq(dt, "http://www.w3.org/2001/XMLSchema#integer") || text_eq(
        dt,
        "http://www.w3.org/2001/XMLSchema#int",
    ) || text_eq(dt, "http://www.w3.org/2001/XMLSchema#long") || text_eq(
        dt,
        "http://www.w3.org/2001/XMLSchema#short",
    ) || text_eq(dt, "http://www.w3.org/2001/XMLSchema#byte") || text_eq(
        dt,
        "http://www.w3.org/2001/XMLSchema#nonNegativeInteger",
    ) || text_eq(dt, "http://www.w3.org/2001/XMLSchema#positiveInteger") || text_eq(
        dt,
        "http://www.w3.org/2001/XMLSchema#unsignedInt",
    ) || text_eq(dt, "http://www.w3.org/2001/XMLSchema#unsignedLong") || text_eq(
        dt,
        "http://www.w3.org/2001/XMLSchema#unsignedShort",
    ) || text_eq(dt, "http://www.w3.org/2001/XMLSchema#unsignedByte")
}

pub fn float_datatype(dt: &str) -> (r: bool)
    ensures
        r == is_float_datatype(dt@),
{
    text_eq(dt, "http://www.w3.org/2001/XMLSchema#decimal") || text_eq(
        dt,
        "http://www.w3.org/2001/XMLSchema#double",
    ) || text_eq(dt, "http://www.w3.org/2001/XMLSchema#float")
}

// -------------------------------------------------------------- projection
/// A literal's value: datatype-driven numeric reading first, then a bare
/// integer reading, then a bare decimal reading, else the lexical value.
pub open spec fn literal_scalar(value: Seq<char>, datatype: Option<Seq<char>>) -> Scalar {
    literal_reading(value, datatype, i64_of(value), float_number_text(value))
}

/// A literal's value given its two numeric readings: `whole`, as a 64-bit
/// integer, and `float`, the JSON rendering of a finite 64-bit float.
pub open spec fn literal_reading(
    value: Seq<char>,
    datatype: Option<Seq<char>>,
    whole: Option<int>,
    float: Option<Seq<char>>,
) -> Scalar {
    let typed_int = datatype is Some && is_integer_datatype(datatype->0);
    let typed_float = datatype is Some && is_float_datatype(datatype->0);
    if typed_int && whole is Some {
        Scalar::Integer(whole->0)
    } else if typed_float && float is Some {
        Scalar::Decimal(float->0)
    } else if whole is Some {
        Scalar::Integer(whole->0)
    } else if float is Some {
        Scalar::Decimal(float->0)
    } else {
        Scalar::Text(value)
    }
}

/// The entry whose namespace is the longest prefix of `iri` (the first such
/// entry among equally long ones).
pub open spec fn best_match(t: Seq<Entry>, iri: Seq<char>) -> Option<int>
    decreases t.len(),
{
    if t.len() == 0 {
        None
    } else {
        let prev = best_match(t.drop_last(), iri);
        let i = t.len() - 1;
        if is_prefix_of(t[i].1, iri) && (prev is None || t[prev->0].1.len() < t[i].1.len()) {
            Some(i)
        } else {
            prev
        }
    }
}

/// `iri` written as `name:suffix` with the best matching entry, or unchanged.
pub open spec fn compact_iri(t: Seq<Entry>, iri: Seq<char>) -> Seq<char> {
    match best_match(t, iri) {
        Some(i) => t[i].0 + ":"@ + iri.subrange(t[i].1.len() as int, iri.len() as int),
        None => iri,
    }
}

/// The projection of a term under a prefix table.
pub open spec fn term_scalar(term: TermView, t: Seq<Entry>) -> Scalar {
    match term {
        TermView::Iri(iri) => Scalar::Text(compact_iri(t, iri)),
        TermView::Blank(label) => Scalar::Text("_:"@ + label),
        TermView::Literal(value, datatype, _) => literal_scalar(value, datatype),
    }
}

/// The projection of a cell of a remote result, by its `type` member.
pub open spec fn remote_scalar(
    kind: Option<Seq<char>>,
    value: Seq<char>,
    datatype: Option<Seq<char>>,
    t: Seq<Entry>,
) -> Scalar {
    if kind == Some("uri"@) {
        Scalar::Text(compact_iri(t, value))
    } else if kind == Some("bnode"@) {
        Scalar::Text("_:"@ + value)
    } else if kind == Some("literal"@) {
        literal_scalar(value, datatype)
    } else {
        Scalar::Text(value)
    }
}

/// The chosen entry is a prefix of the IRI, and no entry with a longer
/// namespace is; where none is chosen, no namespace is a prefix of the IRI.
pub proof fn lemma_best_match(t: Seq<Entry>, iri: Seq<char>)
    ensures
        match best_match(t, iri) {
            Some(i) => {
                &&& 0 <= i < t.len()
                &&& is_prefix_of(t[i].1, iri)
                &&& forall|j: int|
                    0 <= j < t.len() && is_prefix_of(#[trigger] t[j].1, iri) ==> t[j].1.len()
                        <= t[i].1.len()
            },
            None => forall|j: int| 0 <= j < t.len() ==> !is_prefix_of(#[trigger] t[j].1, iri),
        },
    decreases t.len(),
{
    if t.len() > 0 {
        let p = t.drop_last();
        lemma_best_match(p, iri);
        assert forall|j: int| 0 <= j < p.len() implies p[j] == t[j] by {}
    }
}

/// No datatype is in both numeric families.
pub proof fn lemma_families_disjoint(dt: Seq<char>)
    ensures
        !(is_integer_datatype(dt) && is_float_datatype(dt)),
{
    reveal_strlit("http://www.w3.org/2001/XMLSchema#integer");
    reveal_strlit("http://www.w3.org/2001/XMLSchema#int");
    reveal_strlit("http://www.w3.org/2001/XMLSchema#long");
    reveal_strlit("http://www.w3.org/2001/XMLSchema#short");
    reveal_strlit("http://www.w3.org/2001/XMLSchema#byte");
    reveal_strlit("http://www.w3.org/2001/XMLSchema#nonNegativeInteger");
    reveal_strlit("http://www.w3.org/2001/XMLSchema#positiveInteger");
    reveal_strlit("http://www.w3.org/2001/XMLSchema#unsignedInt");
    reveal_strlit("http://www.w3.org/2001/XMLSchema#unsignedLong");
    reveal_strlit("http://www.w3.org/2001/XMLSchema#unsignedShort");
    reveal_strlit("http://www.w3.org/2001/XMLSchema#unsignedByte");
    reveal_strlit("http://www.w3.org/2001/XMLSchema#decimal");
    reveal_strlit("http://www.w3.org/2001/XMLSchema#double");
    reveal_strlit("http://www.w3.org/2001/XMLSchema#float");
    if is_float_datatype(dt) && dt.len() > 33 {
        assert(dt[33] == 'd' || dt[33] == 'f');
    }
}

/// A literal of a numeric datatype whose lexical value reads as a number of
/// its family projects to that number; one whose value reads as no number
/// projects to its lexical value unchanged.
pub proof fn lemma_numeric_literal(value: Seq<char>, dt: Seq<char>)
    requires
        is_integer_datatype(dt) || is_float_datatype(dt),
    ensures
        is_integer_datatype(dt) && i64_of(value) is Some ==> literal_scalar(value, Some(dt))
            == Scalar::Integer(i64_of(value)->0),
        is_float_datatype(dt) && float_number_text(value) is Some ==> literal_scalar(value, Some(dt))
            == Scalar::Decimal(float_number_text(value)->0),
        i64_of(value) is None && float_number_text(value) is None ==> literal_scalar(
            value,
            Some(dt),
        ) == Scalar::Text(value),
{
    lemma_families_disjoint(dt);
}

/// Compaction: an IRI that no namespace of the table prefixes is left as it is;
/// otherwise it is written `name:suffix` with an entry whose namespace
/// prefixes it and is the longest that does.
pub proof fn lemma_compaction(t: Seq<Entry>, iri: Seq<char>)
    ensures
        (forall|j: int| 0 <= j < t.len() ==> !is_prefix_of(#[trigger] t[j].1, iri)) ==> compact_iri(
            t,
            iri,
        ) == iri,
        (exists|j: int| 0 <= j < t.len() && is_prefix_of(#[trigger] t[j].1, iri)) ==> exists|i: int|
            {
                &&& 0 <= i < t.len()
                &&& is_prefix_of(t[i].1, iri)
                &&& compact_iri(t, iri) == t[i].0 + ":"@ + iri.subrange(
                    t[i].1.len() as int,
                    iri.len() as int,
                )
                &&& forall|j: int|
                    0 <= j < t.len() && is_prefix_of(#[trigger] t[j].1, iri) ==> t[j].1.len()
                        <= t[i].1.len()
            },
{
    lemma_best_match(t, iri);
}

/// The entry of `table` whose namespace is the longest prefix of `iri`.
pub fn best_namespace(table: &PrefixTable, iri: &str) -> (r: Option<usize>)
    ensures
        match r {
            Some(i) => best_match(table@, iri@) == Some(i as int),
            None => best_match(table@, iri@) is None,
        },
{
    let n = table.len();
    let mut best: Option<usize> = None;
    let mut i: usize = 0;
    while i < n
        invariant
            n == table@.len(),
            i <= n,
            match best {
                Some(b) => b < i && best_match(table@.subrange(0, i as int), iri@) == Some(
                    b as int,
                ),
                None => best_match(table@.subrange(0, i as int), iri@) is None,
            },
        decreases n - i,
    {
        let ghost t = table@.subrange(0, i + 1);
        assert(t.drop_last() =~= table@.subrange(0, i as int));
        let ns = table.namespace_at(i);
        if starts_with(iri, ns) {
            let longer = match best {
                Some(b) => table.namespace_at(b).unicode_len() < ns.unicode_len(),
                None => true,
            };
            if longer {
                best = Some(i);
            }
        }
        i = i + 1;
    }
    assert(table@.subrange(0, n as int) =~= table@);
    best
}

/// `iri` shortened to `name:suffix` by the entry of `table` whose namespace is
/// its longest prefix; unchanged where no namespace is a prefix of it.
pub fn compact(table: &PrefixTable, iri: &str) -> (r: String)
    ensures
        r@ == compact_iri(table@, iri@),
{
    match best_namespace(table, iri) {
        Some(i) => {
            proof {
                lemma_best_match(table@, iri@);
            }
            let mut r = String::from_str(table.name_at(i));
            r.append(":");
            let from = table.namespace_at(i).unicode_len();
            r.append(iri.substring_char(from, iri.unicode_len()));
            r
        },
        None => String::from_str(iri),
    }
}

/// The projection of a literal's lexical value under its datatype.
pub fn project_literal(value: &str, datatype: Option<&str>) -> (r: Projected)
    ensures
        r@ == literal_scalar(
            value@,
            match datatype {
                Some(d) => Some(d@),
                None => None,
            },
        ),
{
    let whole = parse_i64(value);
    let float = parse_float_number(value);
    literal_projection(value, datatype, whole, float)
}

/// The projection of a literal given its readings as a 64-bit integer and as
/// the JSON rendering of a finite float: the datatype's family first, then
/// the integer, then the float, else the lexical value.
pub fn literal_projection(
    value: &str,
    datatype: Option<&str>,
    whole: Option<i64>,
    float: Option<String>,
) -> (r: Projected)
    ensures
        r@ == literal_reading(
            value@,
            match datatype {
                Some(d) => Some(d@),
                None => None,
            },
            match whole {
                Some(i) => Some(i as int),
                None => None,
            },
            opt_view(float),
        ),
{
    let typed_int = match datatype {
        Some(d) => integer_datatype(d),
        None => false,
    };
    let typed_float = match datatype {
        Some(d) => float_datatype(d),
        None => false,
    };
    if typed_int && whole.is_some() {
        return Projected::Integer(whole.unwrap());
    }
    if typed_float && float.is_some() {
        return Projected::Decimal(float.unwrap());
    }
    match whole {
        Some(i) => Projected::Integer(i),
        None => match float {
            Some(f) => Projected::Decimal(f),
            None => Projected::Text(String::from_str(value)),
        },
    }
}

fn blank_text(label: &str) -> (r: String)
    ensures
        r@ == "_:"@ + label@,
{
    let mut r = String::from_str("_:");
    r.append(label);
    r
}

/// Projects a term: an IRI is compacted by the prefix table, a blank node is
/// written `_:label`, a literal is read as a number where it can be (language
/// tags are dropped).
pub fn project_term(term: &RdfTerm, table: &PrefixTable) -> (r: Projected)
    ensures
        r@ == term_scalar(term@, table@),
{
    match term {
        RdfTerm::Iri(iri) => Projected::Text(compact(table, iri.as_str())),
        RdfTerm::Blank(label) => Projected::Text(blank_text(label.as_str())),
        RdfTerm::Literal { value, datatype, .. } => {
            let dt: Option<&str> = match datatype {
                Some(d) => Some(d.as_str()),
                None => None,
            };
            project_literal(value.as_str(), dt)
        },
    }
}

/// Projects a cell of a remote result by its `type` member: `uri`, `bnode`,
/// `literal` as for terms, anything else as its value.
pub fn project_remote(
    kind: Option<&str>,
    value: &str,
    datatype: Option<&str>,
    table: &PrefixTable,
) -> (r: Projected)
    ensures
        r@ == remote_scalar(
            match kind {
                Some(k) => Some(k@),
                None => None,
            },
            value@,
            match datatype {
                Some(d) => Some(d@),
                None => None,
            },
            table@,
        ),
{
    let k = match kind {
        Some(k) => k,
        None => {
            return Projected::Text(String::from_str(value));
        },
    };
    if text_eq(k, "uri") {
        Projected::Text(compact(table, value))
    } else if text_eq(k, "bnode") {
        Projected::Text(blank_text(value))
    } else if text_eq(k, "literal") {
        project_literal(value, datatype)
    } else {
        Projected::Text(String::from_str(value))
    }
}

} // verus!
