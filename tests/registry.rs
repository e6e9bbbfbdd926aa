use typox::dispatch::{query_select, route, EmptyRows, Route};
use typox::engine::DataFormat;
use typox::error::{Error, Shape};
use typox::registry::{load_bytes, triple_count, Registry, Resolved};

#[test]
fn get_or_create_twice_gives_the_same_store() {
    let mut reg = Registry::new().unwrap();
    {
        let first = reg.get_or_create("memory").unwrap();
        load_bytes(first, DataFormat::NTriples, b"<http://a/s> <http://a/p> <http://a/o> .\n", None).unwrap();
    }
    let second = reg.get_or_create("memory").unwrap();
    assert_eq!(triple_count(second).unwrap(), 1);
    assert_eq!(reg.list(), vec!["memory".to_string()]);
}

#[test]
fn get_or_create_makes_a_new_empty_store() {
    let mut reg = Registry::new().unwrap();
    assert!(!reg.contains("Other"));
    let s = reg.get_or_create("Other").unwrap();
    assert_eq!(triple_count(s).unwrap(), 0);
    assert!(reg.contains("Other"));
    assert!(!reg.contains("other"));
    assert_eq!(reg.list(), vec!["memory".to_string(), "Other".to_string()]);
}

#[test]
fn get_does_not_create() {
    let reg = Registry::new().unwrap();
    assert!(reg.get("missing").is_none());
    assert!(matches!(reg.size("missing"), Err(Error::NotFound(n)) if n == "missing"));
    assert!(matches!(reg.clear("missing"), Err(Error::NotFound(n)) if n == "missing"));
    assert_eq!(reg.list().len(), 1);
}

#[test]
fn https_reference_never_touches_the_registry() {
    let reg = Registry::new().unwrap();
    match reg.resolve("https://dbpedia.org/sparql") {
        Ok(Resolved::Remote(u)) => assert_eq!(u, "https://dbpedia.org/sparql"),
        _ => panic!("expected a remote endpoint"),
    }
    assert_eq!(reg.list(), vec!["memory".to_string()]);
    assert!(!reg.contains("https://dbpedia.org/sparql"));
}

#[test]
fn routes_by_scheme() {
    assert_eq!(route("http://localhost:7878/query"), Route::Remote("http://localhost:7878/query".to_string()));
    assert_eq!(route("https://x/sparql"), Route::Remote("https://x/sparql".to_string()));
    assert_eq!(route("./data/store"), Route::Local("./data/store".to_string()));
    assert_eq!(route("HTTP://x"), Route::Local("HTTP://x".to_string()));
}

#[test]
fn local_reference_resolves_by_name() {
    let reg = Registry::new().unwrap();
    assert!(matches!(reg.resolve("memory"), Ok(Resolved::Local(_))));
    assert!(matches!(reg.resolve("nope"), Err(Error::NotFound(n)) if n == "nope"));
}

fn store_with(n: usize) -> Registry {
    let mut reg = Registry::new().unwrap();
    let mut doc = String::new();
    for i in 0..n {
        doc.push_str(&format!("<http://example.org/s{}> <http://example.org/p> \"{}\" .\n", i, i));
    }
    reg.load("memory", DataFormat::NTriples, doc.as_bytes()).unwrap();
    reg
}

#[test]
fn round_trip_of_zero_triples() {
    let reg = store_with(0);
    let store = reg.get("memory").unwrap();
    let rows = query_select(store, "SELECT ?s ?o WHERE { ?s ?p ?o }", EmptyRows::Accept).unwrap();
    assert_eq!(rows.len(), 0);
    assert!(matches!(query_select(store, "SELECT ?s WHERE { ?s ?p ?o }", EmptyRows::Refuse), Err(Error::NoResults)));
}

#[test]
fn round_trip_of_one_triple() {
    let reg = store_with(1);
    let store = reg.get("memory").unwrap();
    let rows = query_select(store, "SELECT ?s ?o WHERE { ?s ?p ?o }", EmptyRows::Refuse).unwrap();
    assert_eq!(rows.len(), 1);
}

#[test]
fn round_trip_of_hundred_triples() {
    let reg = store_with(100);
    let store = reg.get("memory").unwrap();
    let rows = query_select(store, "SELECT ?s ?o WHERE { ?s ?p ?o }", EmptyRows::Refuse).unwrap();
    assert_eq!(rows.len(), 100);
}

#[test]
fn ask_through_select_is_wrong_shape() {
    let reg = store_with(1);
    let store = reg.get("memory").unwrap();
    let r = query_select(store, "ASK { ?s ?p ?o }", EmptyRows::Refuse);
    assert!(matches!(r, Err(Error::WrongResultShape { expected: Shape::RowSet, got: Shape::Boolean })));
    let r = query_select(store, "CONSTRUCT { ?s ?p ?o } WHERE { ?s ?p ?o }", EmptyRows::Accept);
    assert!(matches!(r, Err(Error::WrongResultShape { expected: Shape::RowSet, got: Shape::Graph })));
}

#[test]
fn base_iri_resolves_relative_iris() {
    let reg = Registry::new().unwrap();
    let store = reg.get("memory").unwrap();
    load_bytes(store, DataFormat::Turtle, b"<a> <b> <c> .", Some("http://base.org/")).unwrap();
    let rows = query_select(store, "SELECT ?s WHERE { ?s ?p ?o }", EmptyRows::Refuse).unwrap();
    assert_eq!(rows[0][0].0, "s");
    assert_eq!(rows[0][0].1, typox::term::Projected::Text("http://base.org/a".to_string()));
    assert!(matches!(load_bytes(store, DataFormat::Turtle, b"<a> <b> <c> .", Some("not an iri")), Err(Error::ParseFailure(_))));
}
