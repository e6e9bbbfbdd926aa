use typox::prefixes::{extract_prefixes, PrefixTable};
use typox::term::{compact, literal_projection, parse_i64, project_literal, project_remote, project_term, Projected, RdfTerm};

const XSD: &str = "http://www.w3.org/2001/XMLSchema#";

fn xsd(local: &str) -> String {
    format!("{}{}", XSD, local)
}

fn literal(value: &str, datatype: Option<String>) -> RdfTerm {
    RdfTerm::Literal { value: value.to_string(), datatype, language: None }
}

fn example_table() -> PrefixTable {
    let mut t = PrefixTable::empty();
    t.insert("ex", "http://example.org/");
    t
}

#[test]
fn integer_family_literals_become_integers() {
    let table = PrefixTable::empty();
    for local in [
        "integer", "int", "long", "short", "byte", "nonNegativeInteger", "positiveInteger",
        "unsignedInt", "unsignedLong", "unsignedShort", "unsignedByte",
    ] {
        let p = project_term(&literal("42", Some(xsd(local))), &table);
        assert_eq!(p, Projected::Integer(42), "{}", local);
    }
}

#[test]
fn float_family_literals_become_decimals() {
    let table = PrefixTable::empty();
    assert_eq!(project_term(&literal("1.5", Some(xsd("decimal"))), &table), Projected::Decimal("1.5".to_string()));
    assert_eq!(project_term(&literal("2.25", Some(xsd("double"))), &table), Projected::Decimal("2.25".to_string()));
    assert_eq!(project_term(&literal("42", Some(xsd("float"))), &table), Projected::Decimal("42.0".to_string()));
    assert_eq!(project_term(&literal("1e3", Some(xsd("double"))), &table), Projected::Decimal("1000.0".to_string()));
}

#[test]
fn unparseable_numeric_literal_stays_text() {
    let table = PrefixTable::empty();
    assert_eq!(project_term(&literal("abc", Some(xsd("integer"))), &table), Projected::Text("abc".to_string()));
    assert_eq!(project_term(&literal("NaN", Some(xsd("double"))), &table), Projected::Text("NaN".to_string()));
    assert_eq!(project_term(&literal("inf", Some(xsd("float"))), &table), Projected::Text("inf".to_string()));
}

#[test]
fn integer_typed_decimal_falls_back_to_bare_decimal() {
    let table = PrefixTable::empty();
    assert_eq!(project_term(&literal("1.5", Some(xsd("integer"))), &table), Projected::Decimal("1.5".to_string()));
}

#[test]
fn untyped_and_string_literals_are_read_heuristically() {
    assert_eq!(project_literal("7", None), Projected::Integer(7));
    assert_eq!(project_literal("-0.5", None), Projected::Decimal("-0.5".to_string()));
    assert_eq!(project_literal("hello", None), Projected::Text("hello".to_string()));
    assert_eq!(project_literal("12", Some(&xsd("string"))), Projected::Integer(12));
}

#[test]
fn language_tag_is_dropped() {
    let t = RdfTerm::Literal {
        value: "chat".to_string(),
        datatype: Some("http://www.w3.org/1999/02/22-rdf-syntax-ns#langString".to_string()),
        language: Some("fr".to_string()),
    };
    assert_eq!(project_term(&t, &PrefixTable::empty()), Projected::Text("chat".to_string()));
}

#[test]
fn prefix_compaction_of_known_namespace() {
    let t = RdfTerm::Iri("http://example.org/Alice".to_string());
    assert_eq!(project_term(&t, &example_table()), Projected::Text("ex:Alice".to_string()));
}

#[test]
fn iri_without_namespace_is_unchanged() {
    let t = RdfTerm::Iri("http://other.org/Bob".to_string());
    assert_eq!(project_term(&t, &example_table()), Projected::Text("http://other.org/Bob".to_string()));
}

#[test]
fn longest_namespace_wins() {
    let mut t = PrefixTable::empty();
    t.insert("ex", "http://example.org/");
    t.insert("exp", "http://example.org/people/");
    assert_eq!(compact(&t, "http://example.org/people/Alice"), "exp:Alice");
    assert_eq!(compact(&t, "http://example.org/Thing"), "ex:Thing");
}

#[test]
fn blank_node_is_written_with_prefix() {
    let t = RdfTerm::Blank("b0".to_string());
    assert_eq!(project_term(&t, &PrefixTable::empty()), Projected::Text("_:b0".to_string()));
}

#[test]
fn default_prefixes_compact_rdf_type() {
    let table = extract_prefixes("SELECT * WHERE { ?s ?p ?o }");
    assert_eq!(table.len(), 8);
    assert_eq!(compact(&table, "http://www.w3.org/1999/02/22-rdf-syntax-ns#type"), "rdf:type");
    assert_eq!(compact(&table, "http://xmlns.com/foaf/0.1/name"), "foaf:name");
}

#[test]
fn prefix_declarations_are_read_and_override() {
    let q = "PREFIX ex: <http://example.org/>\n  prefix foaf:<http://example.com/foaf/>\r\nSELECT ?s WHERE { ?s ?p ?o }";
    let table = extract_prefixes(q);
    assert_eq!(table.len(), 9);
    assert_eq!(table.name_at(8), "ex");
    assert_eq!(table.namespace_at(8), "http://example.org/");
    assert_eq!(table.name_at(4), "foaf");
    assert_eq!(table.namespace_at(4), "http://example.com/foaf/");
}

#[test]
fn malformed_declarations_are_skipped() {
    let q = "PREFIX ex <http://example.org/>\nPREFIX ex2: http://example.org/\nPREFIXER x: <y>\n";
    let table = extract_prefixes(q);
    assert_eq!(table.len(), 9);
    assert_eq!(table.name_at(8), "ER x");
    assert_eq!(table.namespace_at(8), "y");
}

#[test]
fn later_declaration_of_a_name_wins() {
    let q = "PREFIX a: <http://one/>\nPREFIX a: <http://two/>";
    let table = extract_prefixes(q);
    assert_eq!(table.len(), 9);
    assert_eq!(table.namespace_at(8), "http://two/");
}

#[test]
fn integers_are_read_within_range() {
    assert_eq!(parse_i64("+5"), Some(5));
    assert_eq!(parse_i64("-9223372036854775808"), Some(i64::MIN));
    assert_eq!(parse_i64("9223372036854775807"), Some(i64::MAX));
    assert_eq!(parse_i64("9223372036854775808"), None);
    assert_eq!(parse_i64("-9223372036854775809"), None);
    assert_eq!(parse_i64("007"), Some(7));
    assert_eq!(parse_i64(""), None);
    assert_eq!(parse_i64("-"), None);
    assert_eq!(parse_i64("1 "), None);
    assert_eq!(parse_i64("1_000"), None);
}

#[test]
fn remote_cells_are_projected_by_type() {
    let t = example_table();
    assert_eq!(project_remote(Some("uri"), "http://example.org/x", None, &t), Projected::Text("ex:x".to_string()));
    assert_eq!(project_remote(Some("bnode"), "n1", None, &t), Projected::Text("_:n1".to_string()));
    assert_eq!(project_remote(Some("literal"), "3", Some(&xsd("int")), &t), Projected::Integer(3));
    assert_eq!(project_remote(Some("literal"), "x", None, &t), Projected::Text("x".to_string()));
    assert_eq!(project_remote(Some("typed-literal"), "5", None, &t), Projected::Text("5".to_string()));
    assert_eq!(project_remote(None, "5", None, &t), Projected::Text("5".to_string()));
}

#[test]
fn literal_projection_follows_the_given_readings() {
    let int = xsd("int");
    let dbl = xsd("double");
    assert_eq!(literal_projection("5", Some(&int), Some(5), Some("5.0".to_string())), Projected::Integer(5));
    assert_eq!(literal_projection("5", Some(&dbl), Some(5), Some("5.0".to_string())), Projected::Decimal("5.0".to_string()));
    assert_eq!(literal_projection("x", None, None, None), Projected::Text("x".to_string()));
    assert_eq!(literal_projection("x", Some(&int), None, Some("1.0".to_string())), Projected::Decimal("1.0".to_string()));
}
