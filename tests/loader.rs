use typox::error::Error;
use typox::loader::{has_glob_meta, is_graph_data_file, literal_path, matched_files, text_le, LoadReport};
use typox::registry::Registry;

#[test]
fn wildcards_are_detected() {
    assert!(has_glob_meta("data/*.ttl"));
    assert!(has_glob_meta("a?.ttl"));
    assert!(has_glob_meta("[ab].ttl"));
    assert!(!has_glob_meta("data/a.ttl"));
}

#[test]
fn graph_data_extensions() {
    assert!(is_graph_data_file("data/a.ttl"));
    assert!(is_graph_data_file("x.turtle"));
    assert!(is_graph_data_file("dir.d/x..ttl"));
    assert!(!is_graph_data_file("data/.ttl"));
    assert!(!is_graph_data_file("a.ttl.bak"));
    assert!(!is_graph_data_file("a.TTL"));
    assert!(!is_graph_data_file("ttl"));
    assert!(!is_graph_data_file("dir.ttl/file"));
}

#[test]
fn lexicographic_order() {
    assert!(text_le("a.ttl", "b.ttl"));
    assert!(!text_le("b.ttl", "a.ttl"));
    assert!(text_le("a", "ab"));
    assert!(text_le("same", "same"));
}

#[test]
fn matched_files_are_sorted_and_filtered() {
    let entries = vec![
        ("d/b.ttl".to_string(), true),
        ("d/notes.txt".to_string(), true),
        ("d/a.ttl".to_string(), true),
        ("d/dir.ttl".to_string(), false),
        ("d/c.turtle".to_string(), true),
    ];
    let files = matched_files("d/*", &entries).unwrap();
    assert_eq!(files, vec!["d/a.ttl".to_string(), "d/b.ttl".to_string(), "d/c.turtle".to_string()]);
}

#[test]
fn nothing_matched_is_an_error() {
    let entries = vec![("d/notes.txt".to_string(), true)];
    assert_eq!(matched_files("d/*.txt", &entries), Err(Error::NoFilesMatched("d/*.txt".to_string())));
    assert_eq!(matched_files("d/*.ttl", &vec![]), Err(Error::NoFilesMatched("d/*.ttl".to_string())));
}

#[test]
fn literal_path_must_exist() {
    assert_eq!(literal_path("a.ttl", true), Ok(vec!["a.ttl".to_string()]));
    assert_eq!(literal_path("a.ttl", false), Err(Error::FileNotFound("a.ttl".to_string())));
}

#[test]
fn load_order_and_counts_sum_to_total() {
    let entries = vec![("dir/b.ttl".to_string(), true), ("dir/a.ttl".to_string(), true)];
    let files = matched_files("dir/*.ttl", &entries).unwrap();
    assert_eq!(files, vec!["dir/a.ttl".to_string(), "dir/b.ttl".to_string()]);
    let reg = Registry::new().unwrap();
    let store = reg.get("memory").unwrap();
    let mut report = LoadReport::new("store");
    let a: &[u8] = b"<http://a/1> <http://a/p> <http://a/o> . <http://a/2> <http://a/p> <http://a/o> .";
    let b: &[u8] = b"<http://a/1> <http://a/p> <http://a/o> . <http://a/3> <http://a/p> <http://a/o> .";
    for (path, data) in files.iter().zip([a, b]) {
        report.load_file(store, path, data, None).unwrap();
    }
    let loaded = report.files();
    assert_eq!(loaded, vec![("dir/a.ttl".to_string(), 2), ("dir/b.ttl".to_string(), 1)]);
    assert_eq!(report.total(), loaded.iter().map(|f| f.1).sum::<usize>());
    assert_eq!(report.total(), 3);
    assert_eq!(report.store_path(), "store");
}

#[test]
fn parse_failure_leaves_report_unchanged() {
    let reg = Registry::new().unwrap();
    let store = reg.get("memory").unwrap();
    let mut report = LoadReport::new("s");
    let r = report.load_file(store, "bad.ttl", b"not turtle at all", None);
    assert!(matches!(r, Err(Error::ParseFailure(_))));
    assert_eq!(report.files().len(), 0);
    assert_eq!(report.total(), 0);
}

#[test]
fn record_counts_the_growth() {
    let mut report = LoadReport::new("s");
    assert_eq!(report.record("f.ttl", 3, 5), Ok(2));
    assert_eq!(report.record("g.ttl", 5, 5), Ok(0));
    assert!(matches!(report.record("h.ttl", 5, 4), Err(Error::Storage(_))));
    assert_eq!(report.files(), vec![("f.ttl".to_string(), 2), ("g.ttl".to_string(), 0)]);
    assert_eq!(report.total(), 2);
}
