use typox::dispatch::EmptyRows;
use typox::error::Error;
use typox::json::{count_text, integer_text, rows_json};
use typox::remote::remote_rows;
use typox::term::Projected;

const BODY: &str = r#"{"head":{"vars":["s","n"]},"results":{"bindings":[
 {"s":{"type":"uri","value":"http://xmlns.com/foaf/0.1/Person"},"n":{"type":"literal","value":"7","datatype":"http://www.w3.org/2001/XMLSchema#integer"}},
 {"s":{"type":"bnode","value":"b1"},"n":{"type":"literal","value":"x","xml:lang":"en"}},
 "not an object",
 {"s":{"type":"uri"}}
]}}"#;

#[test]
fn non_success_status_fails() {
    let r = remote_rows(500, "https://e/sparql", BODY.as_bytes(), "SELECT * {}", EmptyRows::Refuse);
    assert_eq!(r, Err(Error::RemoteQueryFailed { status: 500, endpoint: "https://e/sparql".to_string() }));
    let r = remote_rows(404, "http://e", b"", "SELECT * {}", EmptyRows::Accept);
    assert!(matches!(r, Err(Error::RemoteQueryFailed { status: 404, .. })));
}

#[test]
fn bindings_become_rows() {
    let rows = remote_rows(200, "https://e", BODY.as_bytes(), "SELECT * {}", EmptyRows::Refuse).unwrap();
    assert_eq!(rows.len(), 3);
    assert_eq!(rows[0], vec![
        ("n".to_string(), Projected::Integer(7)),
        ("s".to_string(), Projected::Text("foaf:Person".to_string())),
    ]);
    assert_eq!(rows[1], vec![
        ("n".to_string(), Projected::Text("x".to_string())),
        ("s".to_string(), Projected::Text("_:b1".to_string())),
    ]);
    assert_eq!(rows[2], vec![]);
    assert_eq!(rows_json(&rows), "[{\"n\":7,\"s\":\"foaf:Person\"},{\"n\":\"x\",\"s\":\"_:b1\"},{}]");
}

#[test]
fn malformed_envelope_fails() {
    let r = remote_rows(200, "e", b"not json", "q", EmptyRows::Accept);
    assert!(matches!(r, Err(Error::InvalidEnvelope(_))));
    let r = remote_rows(200, "e", b"{\"boolean\":true}", "q", EmptyRows::Accept);
    assert_eq!(r, Err(Error::InvalidEnvelope("Invalid SPARQL JSON response format".to_string())));
}

#[test]
fn empty_bindings_follow_the_front_end() {
    let body = b"{\"results\":{\"bindings\":[]}}";
    assert_eq!(remote_rows(200, "e", body, "q", EmptyRows::Refuse), Err(Error::NoResults));
    assert_eq!(remote_rows(200, "e", body, "q", EmptyRows::Accept), Ok(vec![]));
}

#[test]
fn numerals() {
    assert_eq!(integer_text(-5), "-5");
    assert_eq!(integer_text(i64::MIN), "-9223372036854775808");
    assert_eq!(integer_text(0), "0");
    assert_eq!(count_text(1234567890), "1234567890");
}

#[test]
fn error_messages_name_the_failure() {
    assert_eq!(Error::NotFound("x".to_string()).message(), "Store 'x' not found");
    assert_eq!(
        Error::RemoteQueryFailed { status: 503, endpoint: "http://e".to_string() }.message(),
        "HTTP request failed with status: 503 for endpoint: http://e"
    );
    assert_eq!(Error::NoResults.message(), "No records found for the given query");
}

#[test]
fn control_characters_are_escaped() {
    let rows = vec![vec![("k".to_string(), Projected::Text("a\u{1}b\tc\\\"".to_string()))]];
    assert_eq!(rows_json(&rows), "[{\"k\":\"a\\u0001b\\tc\\\\\\\"\"}]");
}

#[test]
fn later_duplicate_member_and_nested_values() {
    let body = br#"{"results":{"bindings":[{"x":{"type":"literal","value":"1.5","datatype":"http://www.w3.org/2001/XMLSchema#decimal"},"y":{"value":7}}]}}"#;
    let rows = remote_rows(200, "e", body, "q", EmptyRows::Refuse).unwrap();
    assert_eq!(rows, vec![vec![("x".to_string(), Projected::Decimal("1.5".to_string()))]]);
}
