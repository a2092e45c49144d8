use vstd::prelude::*;

use crate::errors::UpdateError;

verus! {

/// The mathematical content of a [`Job`]: its three paths as character
/// sequences.
pub struct JobView {
    pub old_exe_path: Seq<char>,
    pub new_exe_path: Seq<char>,
    pub temp_folder_path: Seq<char>,
}

impl JobView {
    /// A well-formed job names no empty path.
    pub open spec fn wf(self) -> bool {
        self.old_exe_path.len() > 0 && self.new_exe_path.len() > 0
            && self.temp_folder_path.len() > 0
    }
}

/// The descriptor that drives one update run: the path of the executable
/// being replaced, the path of its staged replacement, and a folder
/// reserved for temporary work (declared but unused by the current run).
///
/// A job is built once from an external descriptor, used for exactly one
/// run, and discarded; it is never mutated.
#[derive(Debug)]
pub struct Job {
    old_exe_path: String,
    new_exe_path: String,
    temp_folder_path: String,
}

impl View for Job {
    type V = JobView;

    closed spec fn view(&self) -> JobView {
        JobView {
            old_exe_path: self.old_exe_path@,
            new_exe_path: self.new_exe_path@,
            temp_folder_path: self.temp_folder_path@,
        }
    }
}

impl Job {
    /// Builds a job from the three descriptor fields.
    ///
    /// Succeeds exactly when every field is non-empty, so that each built
    /// job is well formed; an empty field is a descriptor fault.
    pub fn new(old_exe_path: String, new_exe_path: String, temp_folder_path: String) -> (r:
        Result<Job, UpdateError>)
        ensures
            r is Ok <==> (old_exe_path@.len() > 0 && new_exe_path@.len() > 0
                && temp_folder_path@.len() > 0),
            (match r {
                Ok(j) => j@.old_exe_path == old_exe_path@ && j@.new_exe_path == new_exe_path@
                    && j@.temp_folder_path == temp_folder_path@ && j@.wf(),
                Err(e) => e == UpdateError::DescriptorReadError,
            }),
    {
        if old_exe_path.as_str().is_empty() || new_exe_path.as_str().is_empty()
            || temp_folder_path.as_str().is_empty() {
            Err(UpdateError::DescriptorReadError)
        } else {
            Ok(
                Job {
                    old_exe_path,
                    new_exe_path,
                    temp_folder_path,
                },
            )
        }
    }

    /// The path of the currently installed executable.
    pub fn old_exe_path(&self) -> (r: &String)
        ensures
            r@ == self@.old_exe_path,
    {
        &self.old_exe_path
    }

    /// The path of the staged replacement executable.
    pub fn new_exe_path(&self) -> (r: &String)
        ensures
            r@ == self@.new_exe_path,
    {
        &self.new_exe_path
    }

    /// The folder reserved for temporary work.
    pub fn temp_folder_path(&self) -> (r: &String)
        ensures
            r@ == self@.temp_folder_path,
    {
        &self.temp_folder_path
    }
}

} // verus!
