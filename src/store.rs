//! Reading and removing secret files: the decisions that follow a file
//! operation performed by the caller, and the laws of the file model.
use vstd::prelude::*;
use crate::error::StoreError;
use crate::atomic::{Disk, WritePhase, run_disk, run_phase, lemma_write_atomic};
use crate::key::{
    StorePath,
    key_to_path,
    valid_key,
    secret_file,
    temp_file,
    parent_dir,
    lemma_temp_is_not_secret,
};

verus! {

/// Reading `file` from `disk`: its content, or `NotFound`.
pub open spec fn read_file(disk: Disk, file: Seq<char>) -> Result<Seq<u8>, StoreError> {
    if disk.contains_key(file) {
        Ok(disk[file])
    } else {
        Err(StoreError::NotFound)
    }
}

/// The files after removing `file`, with `NotFound` when it was absent.
pub open spec fn delete_file(disk: Disk, file: Seq<char>) -> (Disk, Result<(), StoreError>) {
    if disk.contains_key(file) {
        (disk.remove(file), Ok(()))
    } else {
        (disk, Err(StoreError::NotFound))
    }
}

/// A secret that was deleted cannot be read back.
pub proof fn lemma_read_after_delete(disk: Disk, file: Seq<char>)
    ensures
        read_file(delete_file(disk, file).0, file) == Err::<Seq<u8>, StoreError>(
            StoreError::NotFound,
        ),
{
}

/// The error a failed read of a secret file ends in.
pub fn read_failure(not_found: bool) -> (e: StoreError)
    ensures
        not_found ==> e == StoreError::NotFound,
        !not_found ==> e == StoreError::ReadFailed,
{
    if not_found {
        StoreError::NotFound
    } else {
        StoreError::ReadFailed
    }
}

/// The error a failed removal of a secret file ends in.
pub fn delete_failure(not_found: bool) -> (e: StoreError)
    ensures
        not_found ==> e == StoreError::NotFound,
        !not_found ==> e == StoreError::IoError,
{
    if not_found {
        StoreError::NotFound
    } else {
        StoreError::IoError
    }
}

/// Checks what an insert needs before anything is written: a recipient
/// identity, then a valid key, which is resolved under `root`.
pub fn prepare_insert(root: &str, key: &str, recipient: Option<&str>) -> (r: Result<
    StorePath,
    StoreError,
>)
    ensures
        recipient is None ==> r == Err::<StorePath, StoreError>(StoreError::MissingEnvironment),
        recipient is Some ==> (r is Ok <==> valid_key(key@)),
        recipient is Some && r is Err ==> r->Err_0 == StoreError::InvalidKey,
        r is Ok ==> r->Ok_0.file@ == secret_file(root@, key@),
        r is Ok ==> r->Ok_0.temp@ == temp_file(root@, key@),
        r is Ok ==> r->Ok_0.parent@ == parent_dir(root@, key@),
{
    match recipient {
        None => Err(StoreError::MissingEnvironment),
        Some(_) => key_to_path(root, key),
    }
}

/// A secret written through the paths that a key resolves to is replaced
/// atomically: whichever steps of the write fail, the secret file keeps its
/// old content (or stays absent) until the write is done, and then holds
/// exactly the new content.
pub proof fn lemma_secret_write_atomic(
    root: Seq<char>,
    k: Seq<char>,
    disk: Disk,
    steps: Seq<(bool, Seq<u8>)>,
    bytes: Seq<u8>,
)
    ensures
        ({
            let file = secret_file(root, k);
            let d = run_disk(WritePhase::Start, disk, steps, temp_file(root, k), file, bytes);
            let p = run_phase(WritePhase::Start, steps);
            &&& p == WritePhase::Done ==> d.contains_key(file) && d[file] == bytes
            &&& p != WritePhase::Done ==> (d.contains_key(file) <==> disk.contains_key(file))
            &&& p != WritePhase::Done && disk.contains_key(file) ==> d[file] == disk[file]
        }),
{
    lemma_temp_is_not_secret(root, k);
    lemma_write_atomic(disk, steps, temp_file(root, k), secret_file(root, k), bytes);
}

} // verus!
