use rust_typer::errors::PipelineError;
use rust_typer::listing::parse_tree_entries;
use rust_typer::tree::EntryKind;
use rust_typer::walker::TreeWalker;

#[test]
fn mocked_remote_tree_enumerates_in_order() {
    // The root listing names one file and one subdirectory; the
    // subdirectory's listing names one file. The walk must return exactly
    // the two file paths, the subdirectory's content in place.
    let root_body = r#"[{"path":"a.rs","type":"file"},{"path":"sub","type":"dir"}]"#;
    let sub_body = r#"[{"path":"sub/b.rs","type":"file"}]"#;

    let mut walker = TreeWalker::new(String::new());
    while let Some(dir) = walker.step() {
        let body = if dir.is_empty() { root_body } else { sub_body };
        let entries = parse_tree_entries(body).expect("listing must parse");
        walker.deliver(entries);
    }
    assert_eq!(walker.files, vec!["a.rs".to_string(), "sub/b.rs".to_string()]);
}

#[test]
fn malformed_body_is_a_parse_failure() {
    let r = parse_tree_entries("not json at all {");
    assert_eq!(r.unwrap_err(), PipelineError::NetworkOrParseFailure);
}

#[test]
fn non_array_body_is_an_empty_listing() {
    let r = parse_tree_entries(r#"{"message":"API rate limit exceeded"}"#);
    assert_eq!(r.unwrap().len(), 0);
}

#[test]
fn empty_array_body_is_an_empty_listing() {
    let r = parse_tree_entries("[]");
    assert_eq!(r.unwrap().len(), 0);
}

#[test]
fn listing_fields_are_read_from_the_body() {
    let body = r#"[{"path":"x/y.rs","type":"file"},{"path":"x/z","type":"dir"},{"name":"odd"}]"#;
    let entries = parse_tree_entries(body).unwrap();
    assert_eq!(entries.len(), 2);
    assert_eq!(entries[0].path, "x/y.rs");
    assert_eq!(entries[0].kind, EntryKind::File);
    assert_eq!(entries[1].path, "x/z");
    assert_eq!(entries[1].kind, EntryKind::Directory);
}

#[test]
fn non_string_fields_are_skipped() {
    let body = r#"[{"path":7,"type":"file"},{"path":"ok.rs","type":"file"}]"#;
    let entries = parse_tree_entries(body).unwrap();
    assert_eq!(entries.len(), 1);
    assert_eq!(entries[0].path, "ok.rs");
}
