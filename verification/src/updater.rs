use vstd::prelude::*;

use crate::errors::UpdateError;
use crate::job::Job;
use crate::machine::UpdateState;
use crate::machine::advance;
use crate::machine::initial_state;
use crate::machine::pending_step;
use crate::machine::spec_pending_step;
use crate::machine::steps_remaining;
use crate::model::run_from;
use crate::model::spec_run;
use crate::system::SystemModel;

verus! {

/// Performs one whole update run for `job` against `system`, in order:
/// terminates every process running the old executable, deletes the old
/// executable, copies the new executable over the old path, and launches
/// the result as one more process. The run stops at the first failing
/// step with that step's error; nothing is retried or rolled back, so a
/// copy that fails after the deletion leaves no file at the old path.
///
/// The final system and the verdict are exactly those of [`spec_run`] on
/// the starting system.
pub fn do_kill_old_exe_then_copy_and_start_new_exe(system: &mut SystemModel, job: &Job) -> (r:
    Result<(), UpdateError>)
    requires
        old(system).wf(),
    ensures
        final(system).wf(),
        final(system)@ == spec_run(old(system)@, job@).1,
        (match r {
            Ok(()) => spec_run(old(system)@, job@).0 == UpdateState::Succeeded,
            Err(e) => spec_run(old(system)@, job@).0 == UpdateState::Failed(e),
        }),
{
    let ghost s0 = system@;
    let mut state = initial_state();
    let mut pending = pending_step(&state);
    while pending.is_some()
        invariant
            system.wf(),
            pending == spec_pending_step(state),
            run_from(state, system@, job@) == spec_run(s0, job@),
        decreases steps_remaining(state),
    {
        let step = pending.unwrap();
        let o = system.perform(job, step);
        state = advance(state, o);
        pending = pending_step(&state);
    }
    match state {
        UpdateState::Failed(e) => Err(e),
        _ => {
            proof {
                assert(state == UpdateState::Succeeded);
            }
            Ok(())
        },
    }
}

} // verus!
