use vstd::prelude::*;

use crate::errors::UpdateError;
use crate::job::JobView;
use crate::machine::Step;
use crate::machine::UpdateState;
use crate::model::SysState;
use crate::model::lemma_proc_count_push;
use crate::model::lemma_remove_all_count;
use crate::model::proc_count;
use crate::model::run_from;
use crate::model::spec_run;
use crate::model::step_effect;

verus! {

/// A run succeeds exactly when the old executable exists, the new one
/// exists, and the two are different paths; every other run fails on its
/// delete or its copy, with a filesystem error. In particular no run of
/// the model fails on termination: finding no process to terminate is
/// not a failure.
pub proof fn lemma_run_verdict(s: SysState, job: JobView)
    ensures
        spec_run(s, job).0 == (if s.files.contains_key(job.old_exe_path)
            && s.files.contains_key(job.new_exe_path) && job.old_exe_path != job.new_exe_path {
            UpdateState::Succeeded
        } else {
            UpdateState::Failed(UpdateError::FilesystemError)
        }),
{
    let s1 = step_effect(s, job, Step::Terminate);
    assert(spec_run(s, job) == run_from(UpdateState::AwaitDelete, s1, job));
    if s.files.contains_key(job.old_exe_path) {
        let s2 = step_effect(s1, job, Step::DeleteOld);
        assert(run_from(UpdateState::AwaitDelete, s1, job) == run_from(
            UpdateState::AwaitCopy,
            s2,
            job,
        ));
        if s.files.contains_key(job.new_exe_path) && job.old_exe_path != job.new_exe_path {
            let s3 = step_effect(s2, job, Step::CopyNewToOld);
            assert(run_from(UpdateState::AwaitCopy, s2, job) == run_from(
                UpdateState::AwaitLaunch,
                s3,
                job,
            ));
            assert(s3.files.contains_key(job.old_exe_path));
            let s4 = step_effect(s3, job, Step::LaunchNew);
            assert(run_from(UpdateState::AwaitLaunch, s3, job) == run_from(
                UpdateState::Succeeded,
                s4,
                job,
            ));
            assert(run_from(UpdateState::Succeeded, s4, job) == (UpdateState::Succeeded, s4));
        } else {
            assert(!s2.files.contains_key(job.new_exe_path));
            assert(run_from(UpdateState::AwaitCopy, s2, job) == run_from(
                UpdateState::Failed(UpdateError::FilesystemError),
                s2,
                job,
            ));
            assert(run_from(UpdateState::Failed(UpdateError::FilesystemError), s2, job) == (
                UpdateState::Failed(UpdateError::FilesystemError),
                s2,
            ));
        }
    } else {
        assert(run_from(UpdateState::AwaitDelete, s1, job) == run_from(
            UpdateState::Failed(UpdateError::FilesystemError),
            s1,
            job,
        ));
        assert(run_from(UpdateState::Failed(UpdateError::FilesystemError), s1, job) == (
            UpdateState::Failed(UpdateError::FilesystemError),
            s1,
        ));
    }
}

/// When the old and the new executable both exist, at different paths,
/// the run succeeds and afterwards the content at the old path is, byte
/// for byte, what the new path held before the run; the new path keeps
/// that content too.
pub proof fn lemma_successful_run_installs_new_content(s: SysState, job: JobView)
    requires
        s.files.contains_key(job.old_exe_path),
        s.files.contains_key(job.new_exe_path),
        job.old_exe_path != job.new_exe_path,
    ensures
        spec_run(s, job).0 == UpdateState::Succeeded,
        spec_run(s, job).1.files.contains_key(job.old_exe_path),
        spec_run(s, job).1.files[job.old_exe_path] == s.files[job.new_exe_path],
        spec_run(s, job).1.files.contains_key(job.new_exe_path),
        spec_run(s, job).1.files[job.new_exe_path] == s.files[job.new_exe_path],
{
    let s1 = step_effect(s, job, Step::Terminate);
    let s2 = step_effect(s1, job, Step::DeleteOld);
    let s3 = step_effect(s2, job, Step::CopyNewToOld);
    let s4 = step_effect(s3, job, Step::LaunchNew);
    assert(spec_run(s, job) == run_from(UpdateState::AwaitDelete, s1, job));
    assert(run_from(UpdateState::AwaitDelete, s1, job) == run_from(
        UpdateState::AwaitCopy,
        s2,
        job,
    ));
    assert(run_from(UpdateState::AwaitCopy, s2, job) == run_from(
        UpdateState::AwaitLaunch,
        s3,
        job,
    ));
    assert(s3.files.contains_key(job.old_exe_path));
    assert(run_from(UpdateState::AwaitLaunch, s3, job) == run_from(
        UpdateState::Succeeded,
        s4,
        job,
    ));
    assert(run_from(UpdateState::Succeeded, s4, job) == (UpdateState::Succeeded, s4));
}

/// When no file sits at the old path, the run fails with a filesystem
/// error on its delete, before any copy: the files are exactly as they
/// were.
pub proof fn lemma_missing_old_fails_before_copy(s: SysState, job: JobView)
    requires
        !s.files.contains_key(job.old_exe_path),
    ensures
        spec_run(s, job).0 == UpdateState::Failed(UpdateError::FilesystemError),
        spec_run(s, job).1.files == s.files,
{
    let s1 = step_effect(s, job, Step::Terminate);
    assert(spec_run(s, job) == run_from(UpdateState::AwaitDelete, s1, job));
    assert(run_from(UpdateState::AwaitDelete, s1, job) == run_from(
        UpdateState::Failed(UpdateError::FilesystemError),
        s1,
        job,
    ));
    assert(run_from(UpdateState::Failed(UpdateError::FilesystemError), s1, job) == (
        UpdateState::Failed(UpdateError::FilesystemError),
        s1,
    ));
}

/// When the old executable exists but the new one does not, the run
/// fails with a filesystem error on its copy, after the deletion has
/// already happened: the old file is gone and no file was created in its
/// place.
pub proof fn lemma_missing_new_fails_after_delete(s: SysState, job: JobView)
    requires
        s.files.contains_key(job.old_exe_path),
        !s.files.contains_key(job.new_exe_path),
    ensures
        spec_run(s, job).0 == UpdateState::Failed(UpdateError::FilesystemError),
        !spec_run(s, job).1.files.contains_key(job.old_exe_path),
        spec_run(s, job).1.files == s.files.remove(job.old_exe_path),
{
    let s1 = step_effect(s, job, Step::Terminate);
    let s2 = step_effect(s1, job, Step::DeleteOld);
    assert(spec_run(s, job) == run_from(UpdateState::AwaitDelete, s1, job));
    assert(run_from(UpdateState::AwaitDelete, s1, job) == run_from(
        UpdateState::AwaitCopy,
        s2,
        job,
    ));
    assert(run_from(UpdateState::AwaitCopy, s2, job) == run_from(
        UpdateState::Failed(UpdateError::FilesystemError),
        s2,
        job,
    ));
    assert(run_from(UpdateState::Failed(UpdateError::FilesystemError), s2, job) == (
        UpdateState::Failed(UpdateError::FilesystemError),
        s2,
    ));
}

/// A job whose old process is not running at all is still carried
/// through deletion, copy and launch: with both executables present at
/// different paths the run succeeds although there was nothing to
/// terminate.
pub proof fn lemma_nothing_to_terminate_still_succeeds(s: SysState, job: JobView)
    requires
        proc_count(s.procs, job.old_exe_path) == 0,
        s.files.contains_key(job.old_exe_path),
        s.files.contains_key(job.new_exe_path),
        job.old_exe_path != job.new_exe_path,
    ensures
        spec_run(s, job).0 == UpdateState::Succeeded,
{
    lemma_run_verdict(s, job);
}

/// After a successful run exactly one process runs the old executable
/// path, however many ran it before; processes running any other path
/// are untouched.
pub proof fn lemma_success_leaves_one_process(s: SysState, job: JobView)
    requires
        spec_run(s, job).0 == UpdateState::Succeeded,
    ensures
        proc_count(spec_run(s, job).1.procs, job.old_exe_path) == 1,
        forall|q: Seq<char>| q != job.old_exe_path ==> proc_count(#[trigger] spec_run(s, job).1.procs, q)
            == proc_count(s.procs, q),
{
    lemma_run_verdict(s, job);
    let s1 = step_effect(s, job, Step::Terminate);
    let s2 = step_effect(s1, job, Step::DeleteOld);
    let s3 = step_effect(s2, job, Step::CopyNewToOld);
    let s4 = step_effect(s3, job, Step::LaunchNew);
    assert(spec_run(s, job) == run_from(UpdateState::AwaitDelete, s1, job));
    assert(run_from(UpdateState::AwaitDelete, s1, job) == run_from(
        UpdateState::AwaitCopy,
        s2,
        job,
    ));
    assert(run_from(UpdateState::AwaitCopy, s2, job) == run_from(
        UpdateState::AwaitLaunch,
        s3,
        job,
    ));
    assert(s3.files.contains_key(job.old_exe_path));
    assert(run_from(UpdateState::AwaitLaunch, s3, job) == run_from(
        UpdateState::Succeeded,
        s4,
        job,
    ));
    assert(run_from(UpdateState::Succeeded, s4, job) == (UpdateState::Succeeded, s4));
    lemma_remove_all_count(s.procs, job.old_exe_path, job.old_exe_path);
    lemma_proc_count_push(s3.procs, job.old_exe_path, job.old_exe_path);
    assert forall|q: Seq<char>| q != job.old_exe_path implies proc_count(
        #[trigger] spec_run(s, job).1.procs,
        q,
    ) == proc_count(s.procs, q) by {
        lemma_remove_all_count(s.procs, job.old_exe_path, q);
        lemma_proc_count_push(s3.procs, job.old_exe_path, q);
    }
}

} // verus!
