//! The atomic replace protocol for secret files: the new content goes to a
//! temporary sibling, is synced, and only then renamed over the secret file.
//! The file operations themselves are performed by the caller, one action at
//! a time; this module decides the next action from the outcome of the last.
//!
//! The effect of each action is modelled on a map from paths to contents, and
//! the laws below show that the secret file holds its old content or the new
//! one at every point of a run, whichever steps fail.
use vstd::prelude::*;
use crate::error::StoreError;

verus! {

/// How far a write has come.
#[derive(Debug, Clone, Copy, PartialEq, Eq, Structural)]
pub enum WritePhase {
    Start,
    TempCreated,
    TempWritten,
    TempSynced,
    Done,
    Failed,
}

/// The file operation the caller performs next.
#[derive(Debug, Clone, Copy, PartialEq, Eq, Structural)]
pub enum WriteAction {
    /// Create (or truncate) the temporary sibling.
    CreateTemp,
    /// Write all of the new content to the temporary sibling.
    WriteTemp,
    /// Force the temporary sibling's content to durable storage.
    SyncTemp,
    /// Rename the temporary sibling over the secret file.
    RenameOver,
    /// Nothing is left to do.
    Stop,
}

/// The phase after performing the action of phase `p`, which succeeded when
/// `ok` holds. A failure at any step ends the write.
pub open spec fn next_phase(p: WritePhase, ok: bool) -> WritePhase {
    match p {
        WritePhase::Done => WritePhase::Done,
        WritePhase::Failed => WritePhase::Failed,
        _ => if !ok {
            WritePhase::Failed
        } else {
            match p {
                WritePhase::Start => WritePhase::TempCreated,
                WritePhase::TempCreated => WritePhase::TempWritten,
                WritePhase::TempWritten => WritePhase::TempSynced,
                _ => WritePhase::Done,
            }
        },
    }
}

/// The action that phase `p` calls for.
pub open spec fn action_of(p: WritePhase) -> WriteAction {
    match p {
        WritePhase::Start => WriteAction::CreateTemp,
        WritePhase::TempCreated => WriteAction::WriteTemp,
        WritePhase::TempWritten => WriteAction::SyncTemp,
        WritePhase::TempSynced => WriteAction::RenameOver,
        _ => WriteAction::Stop,
    }
}

/// One write of a secret file, driven by the caller.
pub struct AtomicWrite {
    pub phase: WritePhase,
}

impl AtomicWrite {
    /// A write that has not begun.
    pub fn new() -> (w: AtomicWrite)
        ensures
            w.phase == WritePhase::Start,
    {
        AtomicWrite { phase: WritePhase::Start }
    }

    /// The operation to perform next.
    pub fn action(&self) -> (a: WriteAction)
        ensures
            a == action_of(self.phase),
    {
        match self.phase {
            WritePhase::Start => WriteAction::CreateTemp,
            WritePhase::TempCreated => WriteAction::WriteTemp,
            WritePhase::TempWritten => WriteAction::SyncTemp,
            WritePhase::TempSynced => WriteAction::RenameOver,
            _ => WriteAction::Stop,
        }
    }

    /// Records whether the last action succeeded.
    pub fn report(&mut self, ok: bool)
        ensures
            final(self).phase == next_phase(old(self).phase, ok),
    {
        self.phase = match self.phase {
            WritePhase::Done => WritePhase::Done,
            WritePhase::Failed => WritePhase::Failed,
            WritePhase::Start => if ok {
                WritePhase::TempCreated
            } else {
                WritePhase::Failed
            },
            WritePhase::TempCreated => if ok {
                WritePhase::TempWritten
            } else {
                WritePhase::Failed
            },
            WritePhase::TempWritten => if ok {
                WritePhase::TempSynced
            } else {
                WritePhase::Failed
            },
            WritePhase::TempSynced => if ok {
                WritePhase::Done
            } else {
                WritePhase::Failed
            },
        };
    }

    /// `None` while the write goes on; then `Ok` when the new content is in
    /// place, or `IoError` when a step failed.
    pub fn outcome(&self) -> (r: Option<Result<(), StoreError>>)
        ensures
            r is None <==> (self.phase != WritePhase::Done && self.phase != WritePhase::Failed),
            self.phase == WritePhase::Done ==> r == Some(Ok::<(), StoreError>(())),
            self.phase == WritePhase::Failed ==> r == Some(Err::<(), StoreError>(StoreError::IoError)),
    {
        match self.phase {
            WritePhase::Done => Some(Ok(())),
            WritePhase::Failed => Some(Err(StoreError::IoError)),
            _ => None,
        }
    }
}

/// What the files hold: a content for each existing path.
pub type Disk = Map<Seq<char>, Seq<u8>>;

/// The files after action `a` writes `bytes` towards `file` through `temp`.
/// A failed action leaves `leftover` (any content) in the temporary sibling
/// and touches nothing else; a failed rename changes nothing.
pub open spec fn apply_action(
    disk: Disk,
    a: WriteAction,
    ok: bool,
    leftover: Seq<u8>,
    temp: Seq<char>,
    file: Seq<char>,
    bytes: Seq<u8>,
) -> Disk {
    match a {
        WriteAction::CreateTemp => if ok {
            disk.insert(temp, Seq::empty())
        } else {
            disk.insert(temp, leftover)
        },
        WriteAction::WriteTemp => if ok {
            disk.insert(temp, bytes)
        } else {
            disk.insert(temp, leftover)
        },
        WriteAction::SyncTemp => if ok {
            disk
        } else {
            disk.insert(temp, leftover)
        },
        WriteAction::RenameOver => if ok {
            disk.remove(temp).insert(file, disk[temp])
        } else {
            disk
        },
        WriteAction::Stop => disk,
    }
}

/// What a secret file holds while a write of `bytes` over its old content
/// `before` (`None`: no file) stands in phase `p`: the old content until the
/// rename, the new one after; and from the write on, the temporary sibling
/// holds the new content.
pub open spec fn write_safe(
    p: WritePhase,
    disk: Disk,
    temp: Seq<char>,
    file: Seq<char>,
    before: Option<Seq<u8>>,
    bytes: Seq<u8>,
) -> bool {
    &&& if p == WritePhase::Done {
        disk.contains_key(file) && disk[file] == bytes
    } else {
        &&& disk.contains_key(file) <==> before is Some
        &&& before is Some ==> disk[file] == before->Some_0
    }
    &&& (p == WritePhase::TempWritten || p == WritePhase::TempSynced) ==> disk.contains_key(temp)
        && disk[temp] == bytes
}

/// One step of the protocol keeps the secret file whole.
pub proof fn lemma_step_safe(
    p: WritePhase,
    disk: Disk,
    ok: bool,
    leftover: Seq<u8>,
    temp: Seq<char>,
    file: Seq<char>,
    before: Option<Seq<u8>>,
    bytes: Seq<u8>,
)
    requires
        temp != file,
        write_safe(p, disk, temp, file, before, bytes),
    ensures
        write_safe(
            next_phase(p, ok),
            apply_action(disk, action_of(p), ok, leftover, temp, file, bytes),
            temp,
            file,
            before,
            bytes,
        ),
{
}

/// The phase after a run of actions whose outcomes are `steps` (success,
/// and what a failure left in the temporary sibling).
pub open spec fn run_phase(p: WritePhase, steps: Seq<(bool, Seq<u8>)>) -> WritePhase
    decreases steps.len(),
{
    if steps.len() == 0 {
        p
    } else {
        next_phase(run_phase(p, steps.drop_last()), steps.last().0)
    }
}

/// The files after a run of actions whose outcomes are `steps`.
pub open spec fn run_disk(
    p: WritePhase,
    disk: Disk,
    steps: Seq<(bool, Seq<u8>)>,
    temp: Seq<char>,
    file: Seq<char>,
    bytes: Seq<u8>,
) -> Disk
    decreases steps.len(),
{
    if steps.len() == 0 {
        disk
    } else {
        let prev = steps.drop_last();
        apply_action(
            run_disk(p, disk, prev, temp, file, bytes),
            action_of(run_phase(p, prev)),
            steps.last().0,
            steps.last().1,
            temp,
            file,
            bytes,
        )
    }
}

/// However a write of `bytes` is interrupted or fails, the secret file holds
/// its old content (or is still absent) until the rename, and exactly the new
/// content once the write is done: never a partial one.
pub proof fn lemma_write_atomic(
    disk: Disk,
    steps: Seq<(bool, Seq<u8>)>,
    temp: Seq<char>,
    file: Seq<char>,
    bytes: Seq<u8>,
)
    requires
        temp != file,
    ensures
        ({
            let before = if disk.contains_key(file) {
                Some(disk[file])
            } else {
                None
            };
            let d = run_disk(WritePhase::Start, disk, steps, temp, file, bytes);
            let p = run_phase(WritePhase::Start, steps);
            &&& p == WritePhase::Done ==> d.contains_key(file) && d[file] == bytes
            &&& p != WritePhase::Done ==> (d.contains_key(file) <==> disk.contains_key(file))
            &&& p != WritePhase::Done && disk.contains_key(file) ==> d[file] == disk[file]
        }),
{
    let before = if disk.contains_key(file) {
        Some(disk[file])
    } else {
        None
    };
    lemma_run_safe(disk, steps, temp, file, before, bytes);
}

proof fn lemma_run_safe(
    disk: Disk,
    steps: Seq<(bool, Seq<u8>)>,
    temp: Seq<char>,
    file: Seq<char>,
    before: Option<Seq<u8>>,
    bytes: Seq<u8>,
)
    requires
        temp != file,
        write_safe(WritePhase::Start, disk, temp, file, before, bytes),
    ensures
        write_safe(
            run_phase(WritePhase::Start, steps),
            run_disk(WritePhase::Start, disk, steps, temp, file, bytes),
            temp,
            file,
            before,
            bytes,
        ),
    decreases steps.len(),
{
    if steps.len() > 0 {
        let prev = steps.drop_last();
        lemma_run_safe(disk, prev, temp, file, before, bytes);
        lemma_step_safe(
            run_phase(WritePhase::Start, prev),
            run_disk(WritePhase::Start, disk, prev, temp, file, bytes),
            steps.last().0,
            steps.last().1,
            temp,
            file,
            before,
            bytes,
        );
    }
}

/// Writing the content a secret file already holds leaves it unchanged at
/// every point of the run, completed or interrupted.
pub proof fn lemma_rewrite_same_content(
    disk: Disk,
    steps: Seq<(bool, Seq<u8>)>,
    temp: Seq<char>,
    file: Seq<char>,
)
    requires
        temp != file,
        disk.contains_key(file),
    ensures
        ({
            let d = run_disk(WritePhase::Start, disk, steps, temp, file, disk[file]);
            d.contains_key(file) && d[file] == disk[file]
        }),
{
    lemma_write_atomic(disk, steps, temp, file, disk[file]);
}

} // verus!
