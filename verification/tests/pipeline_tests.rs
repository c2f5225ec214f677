use rust_typer::content::FileContent;
use rust_typer::engine::{KeyInput, RevealAction, RevealState};
use rust_typer::errors::PipelineError;
use rust_typer::select::select_file;
use rust_typer::tree::{EntryKind, TreeEntry};
use rust_typer::walker::TreeWalker;

#[test]
fn single_file_end_to_end() {
    // A local root with exactly one file "x.txt" whose bytes are "ab":
    // enumeration finds the one identifier, selection is forced, loading
    // validates two characters, and the first keypress reveals both.
    let mut walker = TreeWalker::new("dir".to_string());
    while let Some(dir) = walker.step() {
        let listing = if dir == "dir" {
            vec![TreeEntry {
                path: "x.txt".to_string(),
                kind: EntryKind::File,
            }]
        } else {
            Vec::new()
        };
        walker.deliver(listing);
    }
    assert_eq!(walker.files, vec!["x.txt".to_string()]);

    let selected = select_file(&walker.files).unwrap().clone();
    assert_eq!(selected, "x.txt");

    let content = FileContent::from_bytes(selected, b"ab".to_vec()).unwrap();
    assert_eq!(content.len(), 2);

    let mut state = RevealState::new(content.chars);
    assert!(!state.finished());
    match state.on_key(KeyInput::Character) {
        RevealAction::Print(chunk) => assert_eq!(chunk, vec!['a', 'b']),
        _ => panic!("expected the whole content in one chunk"),
    }
    assert!(state.finished());
}

#[test]
fn empty_enumeration_becomes_empty_pool() {
    let mut walker = TreeWalker::new("nothing".to_string());
    while let Some(_dir) = walker.step() {
        walker.deliver(Vec::new());
    }
    assert!(walker.files.is_empty());
    assert_eq!(select_file(&walker.files).unwrap_err(), PipelineError::EmptyPool);
}

#[test]
fn error_messages_name_each_failure() {
    assert_eq!(PipelineError::EmptyPool.message(), "no files found");
    assert_eq!(PipelineError::InvalidContent.message(), "file is not valid UTF-8");
    assert_eq!(PipelineError::NetworkOrParseFailure.message(), "remote listing failed");
    assert_eq!(PipelineError::FilesystemFailure.message(), "local path could not be read");
    assert_eq!(
        PipelineError::TerminalModeFailure.message(),
        "terminal mode could not be changed"
    );
}
