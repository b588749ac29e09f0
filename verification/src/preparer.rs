//! The directory preparer.
//!
//! Before a session starts, each working directory is reset: what is there is
//! removed, the directory is made anew, and a segment directory gets an empty
//! ledger. The screenshot directory gets none. Which of the three a directory
//! is, the caller says; its path plays no part.
//!
//! The preparer does not touch the disk itself. [`clean_and_create_dir`] is a
//! machine: the caller reports how the last operation ended, and is told which
//! operation comes next. [`DirectoryModel`] says what the operations are taken
//! to do, and the laws at the end of this file are stated over it.

use vstd::prelude::*;
use crate::track::WorkDir;

verus! {

/// How far the reset of one directory has come.
#[derive(Clone, Copy, Debug, PartialEq, Eq, Structural)]
pub enum PrepareStage {
    /// Nothing was done yet.
    Idle,
    /// The old directory is being removed.
    Removing,
    /// The directory is being made.
    Creating,
    /// The ledger is being looked for.
    OpeningLedger,
    /// The ledger is being made.
    CreatingLedger,
    /// The directory is ready.
    Done,
    /// An operation failed. The reset was given up.
    Failed,
}

/// What the caller reports to the preparer.
#[derive(Clone, Copy, Debug, PartialEq, Eq, Structural)]
pub enum PrepareEvent {
    /// The reset begins. `exists` says whether the directory is there.
    Begin { exists: bool },
    /// The directory and all in it were removed.
    Removed,
    /// The directory was made, with the directories above it.
    Created,
    /// The ledger could be opened.
    LedgerFound,
    /// There is no ledger.
    LedgerMissing,
    /// An empty ledger was made.
    LedgerCreated,
    /// The last operation failed, other than by a ledger that is not there.
    OperationFailed,
}

/// What the preparer asks the caller to do next.
#[derive(Clone, Copy, Debug, PartialEq, Eq, Structural)]
pub enum PrepareAction {
    /// Remove the directory and all in it, and report `Removed`.
    RemoveAll,
    /// Make the directory and those above it, and report `Created`.
    CreateAll,
    /// Open the ledger, and report `LedgerFound` or `LedgerMissing`.
    OpenLedger,
    /// Make an empty ledger, and report `LedgerCreated`.
    CreateLedger,
    /// The directory is ready.
    Succeed,
    /// Give up with the error of the operation that failed.
    Fail,
    /// The event does not fit the stage. Nothing has changed.
    Ignore,
}

/// The preparer's answer to an event: the next stage and the next operation.
pub open spec fn prepare_step(dir: WorkDir, stage: PrepareStage, event: PrepareEvent) -> (
    PrepareStage,
    PrepareAction,
) {
    match (stage, event) {
        (PrepareStage::Idle, PrepareEvent::Begin { exists }) => if exists {
            (PrepareStage::Removing, PrepareAction::RemoveAll)
        } else {
            (PrepareStage::Creating, PrepareAction::CreateAll)
        },
        (PrepareStage::Removing, PrepareEvent::Removed) => (
            PrepareStage::Creating,
            PrepareAction::CreateAll,
        ),
        (PrepareStage::Creating, PrepareEvent::Created) => if dir.holds_ledger() {
            (PrepareStage::OpeningLedger, PrepareAction::OpenLedger)
        } else {
            (PrepareStage::Done, PrepareAction::Succeed)
        },
        (PrepareStage::OpeningLedger, PrepareEvent::LedgerFound) => (
            PrepareStage::Done,
            PrepareAction::Succeed,
        ),
        (PrepareStage::OpeningLedger, PrepareEvent::LedgerMissing) => (
            PrepareStage::CreatingLedger,
            PrepareAction::CreateLedger,
        ),
        (PrepareStage::CreatingLedger, PrepareEvent::LedgerCreated) => (
            PrepareStage::Done,
            PrepareAction::Succeed,
        ),
        (PrepareStage::Removing, PrepareEvent::OperationFailed) => (
            PrepareStage::Failed,
            PrepareAction::Fail,
        ),
        (PrepareStage::Creating, PrepareEvent::OperationFailed) => (
            PrepareStage::Failed,
            PrepareAction::Fail,
        ),
        (PrepareStage::OpeningLedger, PrepareEvent::OperationFailed) => (
            PrepareStage::Failed,
            PrepareAction::Fail,
        ),
        (PrepareStage::CreatingLedger, PrepareEvent::OperationFailed) => (
            PrepareStage::Failed,
            PrepareAction::Fail,
        ),
        _ => (stage, PrepareAction::Ignore),
    }
}

/// Takes the outcome of the last operation on the working directory `dir` and
/// says which operation comes next.
///
/// A directory that is there is removed with all in it before it is made
/// anew. A segment directory then gets a ledger, unless one is there; the
/// screenshot directory gets none. Any failure ends the reset. An event that
/// does not fit the stage changes nothing and is answered with `Ignore`.
pub fn clean_and_create_dir(dir: WorkDir, stage: PrepareStage, event: PrepareEvent) -> (next: (
    PrepareStage,
    PrepareAction,
))
    ensures
        next == prepare_step(dir, stage, event),
{
    match stage {
        PrepareStage::Idle => match event {
            PrepareEvent::Begin { exists } => if exists {
                (PrepareStage::Removing, PrepareAction::RemoveAll)
            } else {
                (PrepareStage::Creating, PrepareAction::CreateAll)
            },
            _ => (stage, PrepareAction::Ignore),
        },
        PrepareStage::Removing => match event {
            PrepareEvent::Removed => (PrepareStage::Creating, PrepareAction::CreateAll),
            PrepareEvent::OperationFailed => (PrepareStage::Failed, PrepareAction::Fail),
            _ => (stage, PrepareAction::Ignore),
        },
        PrepareStage::Creating => match event {
            PrepareEvent::Created => if dir.has_ledger() {
                (PrepareStage::OpeningLedger, PrepareAction::OpenLedger)
            } else {
                (PrepareStage::Done, PrepareAction::Succeed)
            },
            PrepareEvent::OperationFailed => (PrepareStage::Failed, PrepareAction::Fail),
            _ => (stage, PrepareAction::Ignore),
        },
        PrepareStage::OpeningLedger => match event {
            PrepareEvent::LedgerFound => (PrepareStage::Done, PrepareAction::Succeed),
            PrepareEvent::LedgerMissing => (
                PrepareStage::CreatingLedger,
                PrepareAction::CreateLedger,
            ),
            PrepareEvent::OperationFailed => (PrepareStage::Failed, PrepareAction::Fail),
            _ => (stage, PrepareAction::Ignore),
        },
        PrepareStage::CreatingLedger => match event {
            PrepareEvent::LedgerCreated => (PrepareStage::Done, PrepareAction::Succeed),
            PrepareEvent::OperationFailed => (PrepareStage::Failed, PrepareAction::Fail),
            _ => (stage, PrepareAction::Ignore),
        },
        _ => (stage, PrepareAction::Ignore),
    }
}

/// A directory as the laws below see it.
pub struct DirectoryModel {
    /// Whether the directories above it are there.
    pub parents: bool,
    /// Whether the directory is there.
    pub exists: bool,
    /// The content of the ledger in it, if it holds one.
    pub ledger: Option<Seq<u8>>,
    /// The names of whatever else it holds.
    pub others: Set<Seq<u8>>,
}

/// A directory that is not there, below directories that are or are not.
pub open spec fn missing_directory(parents: bool) -> DirectoryModel {
    DirectoryModel { parents, exists: false, ledger: None, others: Set::empty() }
}

/// The working directory `dir` as a reset leaves it: there, with the
/// directories above it, and holding nothing but an empty ledger if it is a
/// segment directory, and nothing at all if it is the screenshot directory.
pub open spec fn clean_directory(dir: WorkDir) -> DirectoryModel {
    DirectoryModel {
        parents: true,
        exists: true,
        ledger: if dir.holds_ledger() {
            Some(Seq::empty())
        } else {
            None
        },
        others: Set::empty(),
    }
}

/// Whether the action is an operation on the directory.
pub open spec fn is_operation(action: PrepareAction) -> bool {
    action == PrepareAction::RemoveAll || action == PrepareAction::CreateAll || action
        == PrepareAction::OpenLedger || action == PrepareAction::CreateLedger
}

/// What an operation that succeeds does to a directory, and what is reported
/// of it.
pub open spec fn perform(directory: DirectoryModel, action: PrepareAction) -> (
    DirectoryModel,
    PrepareEvent,
) {
    match action {
        PrepareAction::RemoveAll => (
            missing_directory(directory.parents),
            PrepareEvent::Removed,
        ),
        PrepareAction::CreateAll => (
            if directory.exists {
                DirectoryModel { parents: true, ..directory }
            } else {
                DirectoryModel { parents: true, exists: true, ledger: None, others: Set::empty() }
            },
            PrepareEvent::Created,
        ),
        PrepareAction::OpenLedger => (
            directory,
            if directory.ledger is Some {
                PrepareEvent::LedgerFound
            } else {
                PrepareEvent::LedgerMissing
            },
        ),
        PrepareAction::CreateLedger => (
            DirectoryModel { ledger: Some(Seq::empty()), ..directory },
            PrepareEvent::LedgerCreated,
        ),
        _ => (directory, PrepareEvent::OperationFailed),
    }
}

/// The preparer run against a directory on which every operation succeeds,
/// for at most `steps` operations: the stage it reaches and the directory it
/// leaves.
pub open spec fn drive(
    dir: WorkDir,
    stage: PrepareStage,
    event: PrepareEvent,
    directory: DirectoryModel,
    steps: nat,
) -> (PrepareStage, DirectoryModel)
    decreases steps,
{
    let (next, action) = prepare_step(dir, stage, event);
    if steps == 0 || !is_operation(action) {
        (next, directory)
    } else {
        let (changed, answer) = perform(directory, action);
        drive(dir, next, answer, changed, (steps - 1) as nat)
    }
}

/// A whole reset of the working directory `dir`, begun on `directory`.
pub open spec fn prepared(dir: WorkDir, directory: DirectoryModel) -> (
    PrepareStage,
    DirectoryModel,
) {
    drive(dir, PrepareStage::Idle, PrepareEvent::Begin { exists: directory.exists }, directory, 4)
}

/// Whatever a directory held, a reset on which no operation fails ends in
/// `Done` and leaves it clean.
pub proof fn law_prepare_leaves_clean(dir: WorkDir, directory: DirectoryModel)
    ensures
        prepared(dir, directory) == (PrepareStage::Done, clean_directory(dir)),
{
    reveal_with_fuel(drive, 6);
}

/// A reset applied twice in a row leaves what a single reset leaves.
pub proof fn law_prepare_is_idempotent(dir: WorkDir, directory: DirectoryModel)
    ensures
        prepared(dir, prepared(dir, directory).1) == prepared(dir, directory),
{
    law_prepare_leaves_clean(dir, directory);
    law_prepare_leaves_clean(dir, prepared(dir, directory).1);
}

/// A reset that was given up, after any number of its operations, does not
/// stand in the way of the next: the retry leaves the directory clean.
pub proof fn law_prepare_after_partial_reset(
    dir: WorkDir,
    directory: DirectoryModel,
    steps: nat,
)
    ensures
        prepared(
            dir,
            drive(
                dir,
                PrepareStage::Idle,
                PrepareEvent::Begin { exists: directory.exists },
                directory,
                steps,
            ).1,
        ) == (PrepareStage::Done, clean_directory(dir)),
{
    law_prepare_leaves_clean(
        dir,
        drive(
            dir,
            PrepareStage::Idle,
            PrepareEvent::Begin { exists: directory.exists },
            directory,
            steps,
        ).1,
    );
}

/// A failure ends the reset, whatever stage it had reached, and nothing more
/// is asked for.
pub proof fn law_prepare_failure_is_final(dir: WorkDir, stage: PrepareStage, event: PrepareEvent)
    ensures
        prepare_step(dir, stage, PrepareEvent::OperationFailed).1 == PrepareAction::Fail <==> (
        stage == PrepareStage::Removing || stage == PrepareStage::Creating || stage
            == PrepareStage::OpeningLedger || stage == PrepareStage::CreatingLedger),
        prepare_step(dir, PrepareStage::Failed, event) == (
            PrepareStage::Failed,
            PrepareAction::Ignore,
        ),
        prepare_step(dir, PrepareStage::Done, event) == (
            PrepareStage::Done,
            PrepareAction::Ignore,
        ),
{
}

} // verus!
