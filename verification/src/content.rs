//! The content loader: bytes in, validated text out.
//!
//! A selected file's bytes must decode as UTF-8; anything else aborts the
//! pipeline with the invalid-content error. The decoded text is kept as its
//! sequence of characters, paired with the identifier it came from.

use vstd::prelude::*;
use vstd::string::StrSliceExecFns;
use vstd::utf8::{decode_utf8, valid_utf8};

use crate::errors::PipelineError;

verus! {

/// Relies on String::from_utf8: succeeds exactly on valid UTF-8 and
/// decodes it into the text's characters.
#[verifier::external_body]
fn utf8_to_string(bytes: Vec<u8>) -> (r: Option<String>)
    ensures
        r is Some <==> valid_utf8(bytes@),
        (r matches Some(s) ==> s@ == decode_utf8(bytes@)),
{
    String::from_utf8(bytes).ok()
}

/// The characters of a string, as a vector.
fn chars_of_string(s: &str) -> (r: Vec<char>)
    ensures
        r@ == s@,
{
    let n = s.unicode_len();
    let mut out: Vec<char> = Vec::new();
    let mut i: usize = 0;
    while i < n
        invariant
            n == s@.len(),
            i <= n,
            out@ == s@.take(i as int),
        decreases n - i,
    {
        let c = s.get_char(i);
        proof {
            assert(s@.take(i + 1) =~= s@.take(i as int).push(s@[i as int]));
        }
        out.push(c);
        i += 1;
    }
    proof {
        assert(s@.take(n as int) =~= s@);
    }
    out
}

/// A validated text buffer: the characters of one well-formed UTF-8 file,
/// with the identifier it was loaded from.
#[derive(Clone, Debug)]
pub struct FileContent {
    /// The identifier the bytes came from, kept for diagnostic display.
    pub id: String,
    /// The decoded text, one Unicode scalar value per element.
    pub chars: Vec<char>,
}

impl FileContent {
    /// Validate a file's bytes as UTF-8 text.
    ///
    /// Fails with the invalid-content error exactly when the bytes are not
    /// valid UTF-8; otherwise the result holds the decoded characters and
    /// the given identifier.
    pub fn from_bytes(id: String, bytes: Vec<u8>) -> (r: Result<FileContent, PipelineError>)
        ensures
            r is Ok <==> valid_utf8(bytes@),
            (r matches Ok(c) ==> c.chars@ == decode_utf8(bytes@) && c.id@ == id@),
            (r matches Err(e) ==> e == PipelineError::InvalidContent),
    {
        match utf8_to_string(bytes) {
            Some(text) => {
                let chars = chars_of_string(text.as_str());
                Ok(FileContent { id, chars })
            },
            None => Err(PipelineError::InvalidContent),
        }
    }

    /// How many characters the text holds.
    pub fn len(&self) -> (r: usize)
        ensures
            r == self.chars@.len(),
    {
        self.chars.len()
    }
}

} // verus!
