//! Reveals a randomly chosen text file one keystroke-paced chunk at a time.
//!
//! The pipeline runs in four stages: a source enumerator walks either a
//! remote source-tree listing or a local directory tree and produces a flat
//! pool of file identifiers; a random selector draws one uniformly; a content
//! loader validates the file's bytes as UTF-8 text; and a reveal engine
//! paces the text out in fixed-size chunks, one per accepted key event.

pub mod content;
pub mod engine;
pub mod errors;
pub mod listing;
pub mod select;
pub mod tree;
pub mod walker;
