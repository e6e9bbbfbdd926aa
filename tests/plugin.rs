use typox::plugin::{
    clear_store, get_store_size, list_stores, load_ntriples, load_rdf_xml, load_turtle, query,
    query_ask, query_construct,
};
use typox::registry::Registry;

const DATA: &[u8] = b"@prefix ex: <http://example.org/> .\nex:alice ex:age 42 ; ex:name \"Alice\" .\n";

fn text(b: Vec<u8>) -> String {
    String::from_utf8(b).unwrap()
}

#[test]
fn registry_starts_with_memory_store() {
    let reg = Registry::new().unwrap();
    assert_eq!(text(list_stores(&reg)), "[\"memory\"]");
    assert_eq!(text(get_store_size(&reg, b"memory")), "0");
}

#[test]
fn load_and_select_as_json() {
    let mut reg = Registry::new().unwrap();
    assert_eq!(text(load_turtle(&mut reg, b"people", DATA)), "OK");
    let out = text(query(
        &reg,
        b"people",
        b"PREFIX ex: <http://example.org/>\nSELECT ?s ?age WHERE { ?s ex:age ?age }",
    ));
    assert_eq!(out, "[{\"s\":\"ex:alice\",\"age\":42}]");
    assert_eq!(text(list_stores(&reg)), "[\"memory\",\"people\"]");
    assert_eq!(text(get_store_size(&reg, b"people")), "2");
}

#[test]
fn select_with_no_solution_is_an_empty_array() {
    let reg = Registry::new().unwrap();
    let out = text(query(&reg, b"memory", b"SELECT ?s WHERE { ?s ?p ?o }"));
    assert_eq!(out, "[]");
}

#[test]
fn ask_through_query_gives_boolean_object() {
    let mut reg = Registry::new().unwrap();
    load_turtle(&mut reg, b"memory", DATA);
    let out = text(query(&reg, b"memory", b"ASK { ?s ?p ?o }"));
    assert_eq!(out, "{\"boolean\":true}");
}

#[test]
fn ask_answers_true_or_false() {
    let mut reg = Registry::new().unwrap();
    load_turtle(&mut reg, b"memory", DATA);
    assert_eq!(text(query_ask(&reg, b"memory", b"ASK { ?s ?p ?o }")), "true");
    assert_eq!(text(query_ask(&reg, b"memory", b"ASK { ?s <http://nope/> ?o }")), "false");
}

#[test]
fn construct_through_query_is_refused() {
    let reg = Registry::new().unwrap();
    let out = text(query(&reg, b"memory", b"CONSTRUCT { ?s ?p ?o } WHERE { ?s ?p ?o }"));
    assert_eq!(out, "ERROR: CONSTRUCT queries should use query_construct function");
}

#[test]
fn select_through_ask_is_refused() {
    let reg = Registry::new().unwrap();
    let out = text(query_ask(&reg, b"memory", b"SELECT ?s WHERE { ?s ?p ?o }"));
    assert_eq!(out, "ERROR: SELECT queries should use query function");
}

#[test]
fn ask_through_construct_is_refused() {
    let reg = Registry::new().unwrap();
    let out = text(query_construct(&reg, b"memory", b"ASK { ?s ?p ?o }"));
    assert_eq!(out, "ERROR: ASK queries should use query_ask function");
}

#[test]
fn construct_gives_turtle() {
    let mut reg = Registry::new().unwrap();
    load_ntriples(&mut reg, b"g", b"<http://a/s> <http://a/p> <http://a/o> .\n");
    let out = text(query_construct(&reg, b"g", b"CONSTRUCT { ?s ?p ?o } WHERE { ?s ?p ?o }"));
    assert!(out.contains("<http://a/s> <http://a/p> <http://a/o>"), "{}", out);
}

#[test]
fn rdf_xml_is_loaded() {
    let mut reg = Registry::new().unwrap();
    let doc = b"<?xml version=\"1.0\"?>\n<rdf:RDF xmlns:rdf=\"http://www.w3.org/1999/02/22-rdf-syntax-ns#\" xmlns:ex=\"http://example.org/\"><rdf:Description rdf:about=\"http://example.org/a\"><ex:p>v</ex:p></rdf:Description></rdf:RDF>";
    assert_eq!(text(load_rdf_xml(&mut reg, b"x", doc)), "OK");
    assert_eq!(text(get_store_size(&reg, b"x")), "1");
}

#[test]
fn malformed_data_is_an_error() {
    let mut reg = Registry::new().unwrap();
    let out = text(load_turtle(&mut reg, b"memory", b"this is not turtle"));
    assert!(out.starts_with("ERROR: Failed to parse Turtle data: "), "{}", out);
    assert_eq!(text(get_store_size(&reg, b"memory")), "0");
}

#[test]
fn unknown_store_is_not_created_by_reads() {
    let reg = Registry::new().unwrap();
    assert_eq!(text(query(&reg, b"nope", b"SELECT * {}")), "ERROR: Store 'nope' not found");
    assert_eq!(text(clear_store(&reg, b"nope")), "ERROR: Store 'nope' not found");
    assert_eq!(text(get_store_size(&reg, b"nope")), "ERROR: Store 'nope' not found");
    assert_eq!(text(list_stores(&reg)), "[\"memory\"]");
}

#[test]
fn invalid_utf8_name_is_an_error() {
    let mut reg = Registry::new().unwrap();
    let out = text(load_turtle(&mut reg, &[0xff, 0xfe], DATA));
    assert!(out.starts_with("ERROR: Invalid store name: "), "{}", out);
    assert_eq!(text(list_stores(&reg)), "[\"memory\"]");
    let out = text(query(&reg, b"memory", &[0xc3]));
    assert!(out.starts_with("ERROR: Invalid SPARQL query: "), "{}", out);
}

#[test]
fn clear_keeps_the_name() {
    let mut reg = Registry::new().unwrap();
    load_turtle(&mut reg, b"memory", DATA);
    assert_eq!(text(get_store_size(&reg, b"memory")), "2");
    assert_eq!(text(clear_store(&reg, b"memory")), "OK");
    assert_eq!(text(get_store_size(&reg, b"memory")), "0");
    assert_eq!(text(list_stores(&reg)), "[\"memory\"]");
}

#[test]
fn bad_query_is_an_error() {
    let reg = Registry::new().unwrap();
    let out = text(query(&reg, b"memory", b"SELEC nothing"));
    assert!(out.starts_with("ERROR: SPARQL query execution failed: "), "{}", out);
}

#[test]
fn strings_are_escaped_in_json() {
    let mut reg = Registry::new().unwrap();
    load_turtle(&mut reg, b"memory", b"<http://a/s> <http://a/p> \"say \\\"hi\\\"\\n\" .");
    let out = text(query(&reg, b"memory", b"SELECT ?o WHERE { ?s ?p ?o }"));
    assert_eq!(out, "[{\"o\":\"say \\\"hi\\\"\\n\"}]");
}
