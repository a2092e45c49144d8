use updater::errors::UpdateError;
use updater::job::Job;
use updater::system::SystemModel;
use updater::updater::do_kill_old_exe_then_copy_and_start_new_exe;

fn job(old: &str, new: &str, temp: &str) -> Job {
    Job::new(old.to_string(), new.to_string(), temp.to_string()).unwrap()
}

#[test]
fn successful_run_installs_new_content() {
    let mut system = SystemModel::new();
    system.add_file("/opt/app/app".to_string(), vec![1, 2, 3, 4]);
    system.add_file("/opt/app/app.staged".to_string(), vec![9, 9, 7]);
    let j = job("/opt/app/app", "/opt/app/app.staged", "/tmp/work");

    let r = do_kill_old_exe_then_copy_and_start_new_exe(&mut system, &j);

    assert_eq!(r, Ok(()));
    assert_eq!(
        system.file_content(&"/opt/app/app".to_string()),
        Some(vec![9, 9, 7])
    );
    assert_eq!(
        system.file_content(&"/opt/app/app.staged".to_string()),
        Some(vec![9, 9, 7])
    );
}

#[test]
fn missing_old_fails_before_copy() {
    let mut system = SystemModel::new();
    system.add_file("/opt/app/app.staged".to_string(), vec![9, 9, 7]);
    let j = job("/opt/app/app", "/opt/app/app.staged", "/tmp/work");

    let r = do_kill_old_exe_then_copy_and_start_new_exe(&mut system, &j);

    assert_eq!(r, Err(UpdateError::FilesystemError));
    assert!(!system.file_exists(&"/opt/app/app".to_string()));
    assert_eq!(
        system.file_content(&"/opt/app/app.staged".to_string()),
        Some(vec![9, 9, 7])
    );
}

#[test]
fn missing_new_fails_after_delete() {
    let mut system = SystemModel::new();
    system.add_file("/opt/app/app".to_string(), vec![1, 2, 3, 4]);
    let j = job("/opt/app/app", "/opt/app/app.staged", "/tmp/work");

    let r = do_kill_old_exe_then_copy_and_start_new_exe(&mut system, &j);

    assert_eq!(r, Err(UpdateError::FilesystemError));
    assert!(!system.file_exists(&"/opt/app/app".to_string()));
    assert_eq!(system.file_content(&"/opt/app/app".to_string()), None);
    assert!(!system.file_exists(&"/opt/app/app.staged".to_string()));
}

#[test]
fn nothing_to_terminate_still_succeeds() {
    let mut system = SystemModel::new();
    system.add_file("/opt/app/app".to_string(), vec![1]);
    system.add_file("/opt/app/app.staged".to_string(), vec![2]);
    let j = job("/opt/app/app", "/opt/app/app.staged", "/tmp/work");
    assert_eq!(system.running_count(&"/opt/app/app".to_string()), 0);

    let r = do_kill_old_exe_then_copy_and_start_new_exe(&mut system, &j);

    assert_eq!(r, Ok(()));
    assert_eq!(system.running_count(&"/opt/app/app".to_string()), 1);
}

#[test]
fn success_leaves_exactly_one_process() {
    let mut system = SystemModel::new();
    system.add_file("/opt/app/app".to_string(), vec![1]);
    system.add_file("/opt/app/app.staged".to_string(), vec![2]);
    system.add_process("/opt/app/app".to_string());
    system.add_process("/opt/app/app".to_string());
    system.add_process("/usr/bin/other".to_string());
    let j = job("/opt/app/app", "/opt/app/app.staged", "/tmp/work");

    let r = do_kill_old_exe_then_copy_and_start_new_exe(&mut system, &j);

    assert_eq!(r, Ok(()));
    assert_eq!(system.running_count(&"/opt/app/app".to_string()), 1);
    assert_eq!(system.running_count(&"/usr/bin/other".to_string()), 1);
}

#[test]
fn failing_run_has_already_terminated() {
    let mut system = SystemModel::new();
    system.add_process("/opt/app/app".to_string());
    system.add_process("/opt/app/app".to_string());
    let j = job("/opt/app/app", "/opt/app/app.staged", "/tmp/work");

    let r = do_kill_old_exe_then_copy_and_start_new_exe(&mut system, &j);

    assert_eq!(r, Err(UpdateError::FilesystemError));
    assert_eq!(system.running_count(&"/opt/app/app".to_string()), 0);
}

#[test]
fn same_path_for_old_and_new_fails() {
    let mut system = SystemModel::new();
    system.add_file("/opt/app/app".to_string(), vec![1, 2]);
    let j = job("/opt/app/app", "/opt/app/app", "/tmp/work");

    let r = do_kill_old_exe_then_copy_and_start_new_exe(&mut system, &j);

    assert_eq!(r, Err(UpdateError::FilesystemError));
    assert!(!system.file_exists(&"/opt/app/app".to_string()));
}

#[test]
fn overwriting_a_staged_file_keeps_one_entry() {
    let mut system = SystemModel::new();
    system.add_file("/opt/app/app.staged".to_string(), vec![1]);
    system.add_file("/opt/app/app.staged".to_string(), vec![5, 6]);
    assert_eq!(
        system.file_content(&"/opt/app/app.staged".to_string()),
        Some(vec![5, 6])
    );
}
