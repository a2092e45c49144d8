use vstd::prelude::*;

use crate::errors::UpdateError;

verus! {

/// One step of an update run, in the order the run performs them.
#[derive(Clone, Copy, PartialEq, Eq, Structural, Debug)]
pub enum Step {
    /// Terminate every process running the old executable.
    Terminate,
    /// Delete the file at the old executable path.
    DeleteOld,
    /// Copy the new executable over the old path.
    CopyNewToOld,
    /// Launch the file now at the old path as a detached process.
    LaunchNew,
}

/// What performing one step reported back.
///
/// For [`Step::Terminate`] a report of [`Outcome::Success`] means only
/// that the termination command ran; finding no matching process is still
/// a success.
#[derive(Clone, Copy, PartialEq, Eq, Structural, Debug)]
pub enum Outcome {
    Success,
    Failure,
}

/// Where an update run stands: which step it awaits, or how it ended.
#[derive(Clone, Copy, PartialEq, Eq, Structural, Debug)]
pub enum UpdateState {
    AwaitTerminate,
    AwaitDelete,
    AwaitCopy,
    AwaitLaunch,
    Succeeded,
    Failed(UpdateError),
}

/// The step a run in state `s` performs next, if any.
pub open spec fn spec_pending_step(s: UpdateState) -> Option<Step> {
    match s {
        UpdateState::AwaitTerminate => Some(Step::Terminate),
        UpdateState::AwaitDelete => Some(Step::DeleteOld),
        UpdateState::AwaitCopy => Some(Step::CopyNewToOld),
        UpdateState::AwaitLaunch => Some(Step::LaunchNew),
        UpdateState::Succeeded => None,
        UpdateState::Failed(_) => None,
    }
}

/// The state a run moves to when its pending step reports `o`.
///
/// A failure ends the run with the error of the failing step; a terminal
/// state never moves again.
pub open spec fn spec_advance(s: UpdateState, o: Outcome) -> UpdateState {
    match (s, o) {
        (UpdateState::AwaitTerminate, Outcome::Success) => UpdateState::AwaitDelete,
        (UpdateState::AwaitTerminate, Outcome::Failure) => UpdateState::Failed(
            UpdateError::ProcessTerminateError,
        ),
        (UpdateState::AwaitDelete, Outcome::Success) => UpdateState::AwaitCopy,
        (UpdateState::AwaitDelete, Outcome::Failure) => UpdateState::Failed(
            UpdateError::FilesystemError,
        ),
        (UpdateState::AwaitCopy, Outcome::Success) => UpdateState::AwaitLaunch,
        (UpdateState::AwaitCopy, Outcome::Failure) => UpdateState::Failed(
            UpdateError::FilesystemError,
        ),
        (UpdateState::AwaitLaunch, Outcome::Success) => UpdateState::Succeeded,
        (UpdateState::AwaitLaunch, Outcome::Failure) => UpdateState::Failed(
            UpdateError::ProcessSpawnError,
        ),
        (UpdateState::Succeeded, _) => UpdateState::Succeeded,
        (UpdateState::Failed(e), _) => UpdateState::Failed(e),
    }
}

/// How many steps a run in state `s` still performs at most; zero exactly
/// on the terminal states.
pub open spec fn steps_remaining(s: UpdateState) -> nat {
    match s {
        UpdateState::AwaitTerminate => 4,
        UpdateState::AwaitDelete => 3,
        UpdateState::AwaitCopy => 2,
        UpdateState::AwaitLaunch => 1,
        UpdateState::Succeeded => 0,
        UpdateState::Failed(_) => 0,
    }
}

/// The state every run starts in.
pub fn initial_state() -> (r: UpdateState)
    ensures
        r == UpdateState::AwaitTerminate,
{
    UpdateState::AwaitTerminate
}

/// The step a run in state `s` performs next; `None` on a terminal state.
pub fn pending_step(s: &UpdateState) -> (r: Option<Step>)
    ensures
        r == spec_pending_step(*s),
{
    match s {
        UpdateState::AwaitTerminate => Some(Step::Terminate),
        UpdateState::AwaitDelete => Some(Step::DeleteOld),
        UpdateState::AwaitCopy => Some(Step::CopyNewToOld),
        UpdateState::AwaitLaunch => Some(Step::LaunchNew),
        UpdateState::Succeeded => None,
        UpdateState::Failed(_) => None,
    }
}

/// Moves a run one transition on: the pending step of `s` reported `o`.
pub fn advance(s: UpdateState, o: Outcome) -> (r: UpdateState)
    ensures
        r == spec_advance(s, o),
{
    match (s, o) {
        (UpdateState::AwaitTerminate, Outcome::Success) => UpdateState::AwaitDelete,
        (UpdateState::AwaitTerminate, Outcome::Failure) => UpdateState::Failed(
            UpdateError::ProcessTerminateError,
        ),
        (UpdateState::AwaitDelete, Outcome::Success) => UpdateState::AwaitCopy,
        (UpdateState::AwaitDelete, Outcome::Failure) => UpdateState::Failed(
            UpdateError::FilesystemError,
        ),
        (UpdateState::AwaitCopy, Outcome::Success) => UpdateState::AwaitLaunch,
        (UpdateState::AwaitCopy, Outcome::Failure) => UpdateState::Failed(
            UpdateError::FilesystemError,
        ),
        (UpdateState::AwaitLaunch, Outcome::Success) => UpdateState::Succeeded,
        (UpdateState::AwaitLaunch, Outcome::Failure) => UpdateState::Failed(
            UpdateError::ProcessSpawnError,
        ),
        (UpdateState::Succeeded, _) => UpdateState::Succeeded,
        (UpdateState::Failed(e), _) => UpdateState::Failed(e),
    }
}

} // verus!
