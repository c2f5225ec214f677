use rust_typer::content::FileContent;
use rust_typer::errors::PipelineError;

#[test]
fn invalid_bytes_fail_with_invalid_content() {
    // 0xFF can never start a UTF-8 sequence.
    let r = FileContent::from_bytes("bad.bin".to_string(), vec![0xFF, 0xFE, 0x00]);
    assert_eq!(r.unwrap_err(), PipelineError::InvalidContent);
}

#[test]
fn truncated_sequence_fails_with_invalid_content() {
    // 0xC3 opens a two-byte sequence that never ends.
    let r = FileContent::from_bytes("cut.bin".to_string(), vec![b'a', 0xC3]);
    assert_eq!(r.unwrap_err(), PipelineError::InvalidContent);
}

#[test]
fn valid_ascii_keeps_every_character() {
    let text = "fn main() {}\n";
    let r = FileContent::from_bytes("main.rs".to_string(), text.as_bytes().to_vec());
    let content = r.unwrap();
    assert_eq!(content.len(), text.chars().count());
    assert_eq!(content.chars, text.chars().collect::<Vec<char>>());
    assert_eq!(content.id, "main.rs");
}

#[test]
fn multibyte_text_decodes_to_scalar_values() {
    // Two bytes, one character: decoding must not hand the bytes back.
    let bytes = vec![0xC3, 0xA9];
    let content = FileContent::from_bytes("e.txt".to_string(), bytes).unwrap();
    assert_eq!(content.len(), 1);
    assert_eq!(content.chars, vec!['\u{e9}']);
}

#[test]
fn empty_file_is_valid_and_empty() {
    let content = FileContent::from_bytes("empty".to_string(), Vec::new()).unwrap();
    assert_eq!(content.len(), 0);
}
