//! The boundary to the external cryptographic tool. The tool runs outside
//! the library; what its run means for the caller is decided here, and the
//! decrypted bytes are checked to be text.
use vstd::prelude::*;
use vstd::utf8::{valid_utf8, decode_utf8};
use crate::error::StoreError;

verus! {

/// What came of one run of the cryptographic tool.
pub struct ToolRun {
    /// The tool could be started.
    pub spawned: bool,
    /// The input could be written to it and its output read back.
    pub piped: bool,
    /// It exited with a success status.
    pub success: bool,
    /// Its exit code, when it exited with one.
    pub code: Option<i32>,
    /// What it wrote to its output.
    pub output: Vec<u8>,
}

/// The transformed bytes of a run that succeeded, or the error that names
/// where it failed.
pub fn tool_result(run: ToolRun) -> (r: Result<Vec<u8>, StoreError>)
    ensures
        !run.spawned ==> r == Err::<Vec<u8>, StoreError>(StoreError::ToolNotFound),
        run.spawned && !run.piped ==> r == Err::<Vec<u8>, StoreError>(StoreError::IoError),
        run.spawned && run.piped && !run.success ==> r == Err::<Vec<u8>, StoreError>(
            StoreError::ToolFailed { code: run.code },
        ),
        run.spawned && run.piped && run.success ==> r is Ok && r->Ok_0@ == run.output@,
{
    if !run.spawned {
        Err(StoreError::ToolNotFound)
    } else if !run.piped {
        Err(StoreError::IoError)
    } else if !run.success {
        Err(StoreError::ToolFailed { code: run.code })
    } else {
        Ok(run.output)
    }
}

/// Relies on `String::from_utf8`: it succeeds exactly on valid UTF-8 and
/// then holds the decoded characters.
#[verifier::external_body]
fn utf8_string(bytes: Vec<u8>) -> (r: Option<String>)
    ensures
        r is Some <==> valid_utf8(bytes@),
        r is Some ==> r->Some_0@ == decode_utf8(bytes@),
{
    String::from_utf8(bytes).ok()
}

/// The decrypted secret as text; `DecodedContentInvalid` when the bytes are
/// not valid UTF-8.
pub fn decode_plaintext(bytes: Vec<u8>) -> (r: Result<String, StoreError>)
    ensures
        r is Ok <==> valid_utf8(bytes@),
        r is Ok ==> r->Ok_0@ == decode_utf8(bytes@),
        r is Err ==> r->Err_0 == StoreError::DecodedContentInvalid,
{
    match utf8_string(bytes) {
        Some(s) => Ok(s),
        None => Err(StoreError::DecodedContentInvalid),
    }
}

} // verus!
