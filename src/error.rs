use vstd::prelude::*;

verus! {

/// Every failure that an operation on the store can end in.
#[derive(Debug, Clone, Copy, PartialEq, Eq, Structural)]
pub enum StoreError {
    /// A key holds an empty segment, `.`, `..`, or a forbidden character.
    InvalidKey,
    /// The store root does not exist yet.
    StoreNotInitialized,
    /// The directories above a secret file could not be created.
    DirectoryCreateFailed,
    /// No secret is stored under the key.
    NotFound,
    /// Reading a secret file failed for another reason than its absence.
    ReadFailed,
    /// Writing, syncing or renaming a secret file failed.
    IoError,
    /// The cryptographic tool could not be started.
    ToolNotFound,
    /// The cryptographic tool ran and reported failure, with its exit code if any.
    ToolFailed { code: Option<i32> },
    /// The decrypted secret is not valid text.
    DecodedContentInvalid,
    /// A password of fewer characters than the minimum was asked for.
    LengthTooSmall,
    /// Walking the store root failed.
    TraversalFailed,
    /// No recipient identity was configured.
    MissingEnvironment,
}

} // verus!
