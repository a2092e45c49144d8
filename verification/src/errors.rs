use vstd::prelude::*;

verus! {

/// The failure kinds of one update run.
///
/// Every error is fatal: the run stops at the step that produced it and
/// nothing is compensated or retried.
#[derive(Clone, Copy, PartialEq, Eq, Structural, Debug)]
pub enum UpdateError {
    /// The job descriptor is missing, malformed, or holds an empty path.
    DescriptorReadError,
    /// The command that terminates the old process could not be run at all.
    ProcessTerminateError,
    /// Deleting the old executable or copying the new one over it failed.
    FilesystemError,
    /// The freshly replaced executable could not be launched.
    ProcessSpawnError,
}

} // verus!
