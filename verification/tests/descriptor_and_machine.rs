use updater::errors::UpdateError;
use updater::job::Job;
use updater::machine::advance;
use updater::machine::initial_state;
use updater::machine::pending_step;
use updater::machine::Outcome;
use updater::machine::Step;
use updater::machine::UpdateState;

#[test]
fn descriptor_with_all_fields_builds_a_job() {
    let j = Job::new(
        "/opt/app/app".to_string(),
        "/opt/app/app.staged".to_string(),
        "/tmp/work".to_string(),
    )
    .unwrap();
    assert_eq!(j.old_exe_path(), "/opt/app/app");
    assert_eq!(j.new_exe_path(), "/opt/app/app.staged");
    assert_eq!(j.temp_folder_path(), "/tmp/work");
}

#[test]
fn descriptor_with_an_empty_field_is_rejected() {
    let r = Job::new(
        String::new(),
        "/opt/app/app.staged".to_string(),
        "/tmp/work".to_string(),
    );
    assert!(matches!(r, Err(UpdateError::DescriptorReadError)));

    let r = Job::new(
        "/opt/app/app".to_string(),
        String::new(),
        "/tmp/work".to_string(),
    );
    assert!(matches!(r, Err(UpdateError::DescriptorReadError)));

    let r = Job::new(
        "/opt/app/app".to_string(),
        "/opt/app/app.staged".to_string(),
        String::new(),
    );
    assert!(matches!(r, Err(UpdateError::DescriptorReadError)));
}

#[test]
fn machine_walks_the_four_steps_in_order() {
    let mut state = initial_state();
    assert_eq!(pending_step(&state), Some(Step::Terminate));
    state = advance(state, Outcome::Success);
    assert_eq!(pending_step(&state), Some(Step::DeleteOld));
    state = advance(state, Outcome::Success);
    assert_eq!(pending_step(&state), Some(Step::CopyNewToOld));
    state = advance(state, Outcome::Success);
    assert_eq!(pending_step(&state), Some(Step::LaunchNew));
    state = advance(state, Outcome::Success);
    assert_eq!(state, UpdateState::Succeeded);
    assert_eq!(pending_step(&state), None);
}

#[test]
fn terminate_command_failure_is_fatal_with_its_own_error() {
    let state = advance(initial_state(), Outcome::Failure);
    assert_eq!(
        state,
        UpdateState::Failed(UpdateError::ProcessTerminateError)
    );
    assert_eq!(pending_step(&state), None);
}

#[test]
fn delete_and_copy_failures_are_filesystem_errors() {
    let at_delete = advance(initial_state(), Outcome::Success);
    assert_eq!(
        advance(at_delete, Outcome::Failure),
        UpdateState::Failed(UpdateError::FilesystemError)
    );
    let at_copy = advance(at_delete, Outcome::Success);
    assert_eq!(
        advance(at_copy, Outcome::Failure),
        UpdateState::Failed(UpdateError::FilesystemError)
    );
}

#[test]
fn launch_failure_is_a_spawn_error() {
    let mut state = initial_state();
    state = advance(state, Outcome::Success);
    state = advance(state, Outcome::Success);
    state = advance(state, Outcome::Success);
    state = advance(state, Outcome::Failure);
    assert_eq!(state, UpdateState::Failed(UpdateError::ProcessSpawnError));
}

#[test]
fn a_finished_run_never_moves_again() {
    let done = UpdateState::Succeeded;
    assert_eq!(advance(done, Outcome::Failure), UpdateState::Succeeded);
    let failed = UpdateState::Failed(UpdateError::FilesystemError);
    assert_eq!(
        advance(failed, Outcome::Success),
        UpdateState::Failed(UpdateError::FilesystemError)
    );
}
