//! The error kinds that abort the pipeline.
//!
//! Every stage fails fast: the first error propagates to the caller and the
//! run ends. There is no retry and no fallback to another file or backend.

use vstd::prelude::*;

verus! {

/// One error kind per way the pipeline can fail.
#[derive(Clone, Copy, Debug, PartialEq, Eq, Structural)]
pub enum PipelineError {
    /// The remote listing was unreachable or its body was not valid JSON.
    NetworkOrParseFailure,
    /// A local path or directory entry could not be read.
    FilesystemFailure,
    /// Enumeration succeeded but produced zero files.
    EmptyPool,
    /// The selected file's bytes are not valid UTF-8 text.
    InvalidContent,
    /// Raw terminal mode could not be engaged or restored.
    TerminalModeFailure,
}

impl PipelineError {
    /// A short diagnostic line for top-level error reporting.
    pub fn message(&self) -> (r: String)
        ensures
            self is NetworkOrParseFailure ==> r@ == "remote listing failed"@,
            self is FilesystemFailure ==> r@ == "local path could not be read"@,
            self is EmptyPool ==> r@ == "no files found"@,
            self is InvalidContent ==> r@ == "file is not valid UTF-8"@,
            self is TerminalModeFailure ==> r@ == "terminal mode could not be changed"@,
    {
        match self {
            PipelineError::NetworkOrParseFailure => "remote listing failed".to_owned(),
            PipelineError::FilesystemFailure => "local path could not be read".to_owned(),
            PipelineError::EmptyPool => "no files found".to_owned(),
            PipelineError::InvalidContent => "file is not valid UTF-8".to_owned(),
            PipelineError::TerminalModeFailure => "terminal mode could not be changed".to_owned(),
        }
    }
}

} // verus!
