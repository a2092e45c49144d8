use vstd::prelude::*;

use crate::job::JobView;
use crate::machine::Outcome;
use crate::machine::Step;
use crate::machine::UpdateState;
use crate::machine::spec_advance;
use crate::machine::spec_pending_step;
use crate::machine::steps_remaining;

verus! {

/// The part of the operating system one update run touches: the files the
/// run may read, delete or create, keyed by path, and the paths run by
/// the processes that exist.
#[verifier::ext_equal]
pub struct SysState {
    pub files: Map<Seq<char>, Seq<u8>>,
    pub procs: Seq<Seq<char>>,
}

/// How many of the processes in `procs` run the path `p`.
pub open spec fn proc_count(procs: Seq<Seq<char>>, p: Seq<char>) -> nat
    decreases procs.len(),
{
    if procs.len() == 0 {
        0
    } else {
        proc_count(procs.drop_last(), p) + (if procs.last() == p {
            1nat
        } else {
            0nat
        })
    }
}

/// The processes of `procs` that do not run the path `p`, in their order.
pub open spec fn remove_all(procs: Seq<Seq<char>>, p: Seq<char>) -> Seq<Seq<char>>
    decreases procs.len(),
{
    if procs.len() == 0 {
        procs
    } else if procs.last() == p {
        remove_all(procs.drop_last(), p)
    } else {
        remove_all(procs.drop_last(), p).push(procs.last())
    }
}

/// Appending one process changes the count of `p` by one exactly when the
/// new process runs `p`.
pub proof fn lemma_proc_count_push(procs: Seq<Seq<char>>, x: Seq<char>, p: Seq<char>)
    ensures
        proc_count(procs.push(x), p) == proc_count(procs, p) + (if x == p {
            1nat
        } else {
            0nat
        }),
{
    assert(procs.push(x).drop_last() =~= procs);
    assert(procs.push(x).last() == x);
}

/// Appending one process commutes with removing every process of `p`.
pub proof fn lemma_remove_all_push(procs: Seq<Seq<char>>, x: Seq<char>, p: Seq<char>)
    ensures
        remove_all(procs.push(x), p) == (if x == p {
            remove_all(procs, p)
        } else {
            remove_all(procs, p).push(x)
        }),
{
    assert(procs.push(x).drop_last() =~= procs);
    assert(procs.push(x).last() == x);
}

/// Removing every process of `p` leaves none of `p` and all of any other
/// path.
pub proof fn lemma_remove_all_count(procs: Seq<Seq<char>>, p: Seq<char>, q: Seq<char>)
    ensures
        proc_count(remove_all(procs, p), q) == (if q == p {
            0nat
        } else {
            proc_count(procs, q)
        }),
    decreases procs.len(),
{
    if procs.len() > 0 {
        lemma_remove_all_count(procs.drop_last(), p, q);
        if procs.last() != p {
            lemma_proc_count_push(remove_all(procs.drop_last(), p), procs.last(), q);
        }
    }
}

/// The report each step gives in the model: the termination command
/// always runs (even with nothing to terminate); deleting needs the old
/// file; copying needs the new file; launching needs the file now at the
/// old path.
pub open spec fn step_outcome(s: SysState, job: JobView, step: Step) -> Outcome {
    match step {
        Step::Terminate => Outcome::Success,
        Step::DeleteOld => if s.files.contains_key(job.old_exe_path) {
            Outcome::Success
        } else {
            Outcome::Failure
        },
        Step::CopyNewToOld => if s.files.contains_key(job.new_exe_path) {
            Outcome::Success
        } else {
            Outcome::Failure
        },
        Step::LaunchNew => if s.files.contains_key(job.old_exe_path) {
            Outcome::Success
        } else {
            Outcome::Failure
        },
    }
}

/// What a step changes; a failed step changes nothing.
pub open spec fn step_effect(s: SysState, job: JobView, step: Step) -> SysState {
    match step {
        Step::Terminate => SysState {
            files: s.files,
            procs: remove_all(s.procs, job.old_exe_path),
        },
        Step::DeleteOld => if s.files.contains_key(job.old_exe_path) {
            SysState { files: s.files.remove(job.old_exe_path), procs: s.procs }
        } else {
            s
        },
        Step::CopyNewToOld => if s.files.contains_key(job.new_exe_path) {
            SysState {
                files: s.files.insert(job.old_exe_path, s.files[job.new_exe_path]),
                procs: s.procs,
            }
        } else {
            s
        },
        Step::LaunchNew => if s.files.contains_key(job.old_exe_path) {
            SysState { files: s.files, procs: s.procs.push(job.old_exe_path) }
        } else {
            s
        },
    }
}

/// Runs the remainder of an update from machine state `st` against system
/// state `s`: each pending step reports what the model dictates and takes
/// its effect, until the machine is terminal.
pub open spec fn run_from(st: UpdateState, s: SysState, job: JobView) -> (UpdateState, SysState)
    decreases steps_remaining(st),
{
    match spec_pending_step(st) {
        None => (st, s),
        Some(step) => run_from(
            spec_advance(st, step_outcome(s, job, step)),
            step_effect(s, job, step),
            job,
        ),
    }
}

/// One whole update run, from its initial state to a terminal one.
pub open spec fn spec_run(s: SysState, job: JobView) -> (UpdateState, SysState) {
    run_from(UpdateState::AwaitTerminate, s, job)
}

} // verus!
