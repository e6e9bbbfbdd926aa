//! Row sets from a remote protocol endpoint: the status check and the
//! reading of the JSON result envelope (`results.bindings`).
use crate::dispatch::{finish_rows, row_view, rows_view, EmptyRows, Row};
use crate::error::Error;
use crate::json::{json_of, parse_document, Json};
use crate::prefixes::{extract_prefixes, prefix_table_of, Entry, PrefixTable};
use crate::term::{opt_view, project_remote, remote_scalar, Scalar};
use crate::text::text_eq;
use vstd::prelude::*;

verus! {

/// The member `key` of an object's members (the first one so named).
pub open spec fn field(fields: Seq<(String, Json)>, key: Seq<char>) -> Option<Json>
    decreases fields.len(),
{
    if fields.len() == 0 {
        None
    } else if fields[0].0@ == key {
        Some(fields[0].1)
    } else {
        field(fields.drop_first(), key)
    }
}

/// The member `key` of an object; nothing for any other value.
pub open spec fn member_of(v: Json, key: Seq<char>) -> Option<Json> {
    match v {
        Json::Object(fields) => field(fields@, key),
        _ => None,
    }
}

/// The text of the member `key`, where it is a string.
pub open spec fn text_member(v: Json, key: Seq<char>) -> Option<Seq<char>> {
    match member_of(v, key) {
        Some(Json::Text(s)) => Some(s@),
        _ => None,
    }
}

/// The row of one binding object: each member whose value has a string
/// `value` becomes a cell, projected by its `type` and `datatype`; the other
/// members are skipped.
pub open spec fn cells_of(fields: Seq<(String, Json)>, t: Seq<Entry>) -> Seq<(Seq<char>, Scalar)>
    decreases fields.len(),
{
    if fields.len() == 0 {
        Seq::empty()
    } else {
        let before = cells_of(fields.drop_last(), t);
        let c = fields.last().1;
        match text_member(c, "value"@) {
            Some(v) => before.push(
                (
                    fields.last().0@,
                    remote_scalar(text_member(c, "type"@), v, text_member(c, "datatype"@), t),
                ),
            ),
            None => before,
        }
    }
}

/// One row per element of `bindings` that is an object, in order.
pub open spec fn binding_rows(items: Seq<Json>, t: Seq<Entry>) -> Seq<Seq<(Seq<char>, Scalar)>>
    decreases items.len(),
{
    if items.len() == 0 {
        Seq::empty()
    } else {
        let before = binding_rows(items.drop_last(), t);
        match items.last() {
            Json::Object(fields) => before.push(cells_of(fields@, t)),
            _ => before,
        }
    }
}

/// The rows of a result document, where `results.bindings` is an array.
pub open spec fn envelope_of(doc: Json, t: Seq<Entry>) -> Option<Seq<Seq<(Seq<char>, Scalar)>>> {
    match member_of(doc, "results"@) {
        Some(res) => match member_of(res, "bindings"@) {
            Some(Json::Array(items)) => Some(binding_rows(items@, t)),
            _ => None,
        },
        None => None,
    }
}

/// The rows of a response body, where it is a result document.
pub open spec fn body_rows(body: Seq<u8>, t: Seq<Entry>) -> Option<Seq<Seq<(Seq<char>, Scalar)>>> {
    match json_of(body) {
        Some(doc) => envelope_of(doc, t),
        None => None,
    }
}

/// The status is a success (2xx).
pub open spec fn is_success(status: u16) -> bool {
    200 <= status < 300
}

/// The member `key` of `v`.
pub fn find_member<'a>(v: &'a Json, key: &str) -> (r: Option<&'a Json>)
    ensures
        match r {
            Some(x) => member_of(*v, key@) == Some(*x),
            None => member_of(*v, key@) is None,
        },
{
    match v {
        Json::Object(fields) => {
            let n = fields.len();
            let mut i: usize = 0;
            assert(fields@.subrange(0, n as int) =~= fields@);
            assert(member_of(*v, key@) == field(fields@, key@));
            while i < n
                invariant
                    n == fields@.len(),
                    i <= n,
                    member_of(*v, key@) == field(fields@, key@),
                    field(fields@, key@) == field(fields@.subrange(i as int, n as int), key@),
                decreases n - i,
            {
                assert(fields@.subrange(i as int, n as int)[0] == fields@[i as int]);
                if text_eq(fields[i].0.as_str(), key) {
                    return Some(&fields[i].1);
                }
                assert(fields@.subrange(i as int, n as int).drop_first() =~= fields@.subrange(
                    i + 1,
                    n as int,
                ));
                i = i + 1;
            }
            None
        },
        _ => None,
    }
}

/// The text of the member `key` of `v`, where it is a string.
pub fn text_member_of(v: &Json, key: &str) -> (r: Option<String>)
    ensures
        opt_view(r) == text_member(*v, key@),
{
    match find_member(v, key) {
        Some(Json::Text(s)) => Some(s.clone()),
        _ => None,
    }
}

fn as_str_opt(o: &Option<String>) -> (r: Option<&str>)
    ensures
        match r {
            Some(s) => o is Some && s@ == o->Some_0@,
            None => o is None,
        },
{
    match o {
        Some(s) => Some(s.as_str()),
        None => None,
    }
}

/// The row of one binding object.
pub fn binding_row(fields: &Vec<(String, Json)>, table: &PrefixTable) -> (r: Row)
    ensures
        row_view(r) == cells_of(fields@, table@),
{
    let n = fields.len();
    let mut row: Row = Vec::new();
    let mut i: usize = 0;
    assert(row_view(row) =~= cells_of(fields@.subrange(0, 0), table@));
    while i < n
        invariant
            n == fields@.len(),
            i <= n,
            row_view(row) == cells_of(fields@.subrange(0, i as int), table@),
        decreases n - i,
    {
        let ghost sub = fields@.subrange(0, i + 1);
        assert(sub.drop_last() =~= fields@.subrange(0, i as int));
        let cell = &fields[i].1;
        match text_member_of(cell, "value") {
            Some(value) => {
                let kind = text_member_of(cell, "type");
                let datatype = text_member_of(cell, "datatype");
                let p = project_remote(as_str_opt(&kind), value.as_str(), as_str_opt(&datatype), table);
                let ghost old_view = row_view(row);
                let name = fields[i].0.clone();
                row.push((name, p));
                assert(row_view(row) =~= old_view.push((fields@[i as int].0@, p@)));
            },
            None => {},
        }
        i = i + 1;
    }
    assert(fields@.subrange(0, n as int) =~= fields@);
    row
}

/// The rows of a response body: it must be a JSON document whose
/// `results.bindings` is an array; each element that is an object gives one
/// row, in order. Otherwise `InvalidEnvelope`.
pub fn envelope_rows(body: &[u8], table: &PrefixTable) -> (r: Result<Vec<Row>, Error>)
    ensures
        match body_rows(body@, table@) {
            Some(rows) => r is Ok && rows_view(r->Ok_0@) == rows,
            None => r is Err && r->Err_0 is InvalidEnvelope,
        },
{
    let doc = match parse_document(body) {
        Some(d) => d,
        None => {
            return Err(Error::InvalidEnvelope(String::from_str("Failed to parse JSON response from HTTP endpoint")));
        },
    };
    let items = match find_member(&doc, "results") {
        Some(results) => match find_member(results, "bindings") {
            Some(Json::Array(items)) => items,
            _ => {
                return Err(Error::InvalidEnvelope(String::from_str("Invalid SPARQL JSON response format")));
            },
        },
        None => {
            return Err(Error::InvalidEnvelope(String::from_str("Invalid SPARQL JSON response format")));
        },
    };
    let n = items.len();
    let mut rows: Vec<Row> = Vec::new();
    let mut i: usize = 0;
    assert(rows_view(rows@) =~= binding_rows(items@.subrange(0, 0), table@));
    while i < n
        invariant
            n == items@.len(),
            i <= n,
            rows_view(rows@) == binding_rows(items@.subrange(0, i as int), table@),
        decreases n - i,
    {
        let ghost sub = items@.subrange(0, i + 1);
        assert(sub.drop_last() =~= items@.subrange(0, i as int));
        match &items[i] {
            Json::Object(fields) => {
                let row = binding_row(fields, table);
                let ghost old_rows = rows@;
                rows.push(row);
                assert(rows_view(rows@) =~= rows_view(old_rows).push(row_view(row)));
            },
            _ => {},
        }
        i = i + 1;
    }
    assert(items@.subrange(0, n as int) =~= items@);
    Ok(rows)
}

/// The row set of a remote endpoint's answer: a non-success status is
/// `RemoteQueryFailed` with the status and the endpoint; otherwise the body's
/// envelope gives the rows, each value projected under the query's prefix
/// table; with `Refuse`, an empty row set is `NoResults`.
pub fn remote_rows(
    status: u16,
    endpoint: &str,
    body: &[u8],
    query: &str,
    empty: EmptyRows,
) -> (r: Result<Vec<Row>, Error>)
    ensures
        !is_success(status) ==> r is Err && r->Err_0 is RemoteQueryFailed && r->Err_0->status
            == status && r->Err_0->endpoint@ == endpoint@,
        is_success(status) ==> match body_rows(body@, prefix_table_of(query@)) {
            None => r is Err && r->Err_0 is InvalidEnvelope,
            Some(rows) => if rows.len() == 0 && empty == EmptyRows::Refuse {
                r is Err && r->Err_0 is NoResults
            } else {
                r is Ok && rows_view(r->Ok_0@) == rows
            },
        },
{
    if status < 200 || status >= 300 {
        return Err(Error::RemoteQueryFailed { status, endpoint: String::from_str(endpoint) });
    }
    let table = extract_prefixes(query);
    let rows = envelope_rows(body, &table)?;
    assert(rows@.len() == rows_view(rows@).len());
    finish_rows(rows, empty)
}

} // verus!
