use vstd::prelude::*;

use crate::job::Job;
use crate::machine::Outcome;
use crate::machine::Step;
use crate::model::SysState;
use crate::model::lemma_proc_count_push;
use crate::model::lemma_remove_all_push;
use crate::model::proc_count;
use crate::model::remove_all;
use crate::model::step_effect;
use crate::model::step_outcome;

verus! {

/// The files of a table of path/content entries, as a map from path to
/// content; a later entry for a path shadows an earlier one.
pub open spec fn files_view(entries: Seq<(String, Vec<u8>)>) -> Map<Seq<char>, Seq<u8>>
    decreases entries.len(),
{
    if entries.len() == 0 {
        Map::empty()
    } else {
        files_view(entries.drop_last()).insert(entries.last().0@, entries.last().1@)
    }
}

/// No two entries of the table name the same path.
pub open spec fn distinct_paths(entries: Seq<(String, Vec<u8>)>) -> bool {
    forall|i: int, j: int| 0 <= i < j < entries.len() ==> entries[i].0@ != entries[j].0@
}

/// The run paths of a table of processes.
pub open spec fn procs_view(procs: Seq<String>) -> Seq<Seq<char>> {
    procs.map_values(|s: String| s@)
}

/// A path is in the file view exactly when some entry names it.
pub proof fn lemma_files_view_contains(entries: Seq<(String, Vec<u8>)>, p: Seq<char>)
    ensures
        files_view(entries).contains_key(p) <==> exists|i: int|
            0 <= i < entries.len() && entries[i].0@ == p,
    decreases entries.len(),
{
    if entries.len() > 0 {
        lemma_files_view_contains(entries.drop_last(), p);
        if entries.last().0@ == p {
            assert(entries[entries.len() - 1].0@ == p);
        } else if files_view(entries).contains_key(p) {
            let i = choose|i: int| 0 <= i < entries.drop_last().len() && entries.drop_last()[i].0@
                == p;
            assert(entries[i].0@ == p);
        } else if exists|i: int| 0 <= i < entries.len() && entries[i].0@ == p {
            let i = choose|i: int| 0 <= i < entries.len() && entries[i].0@ == p;
            assert(entries.drop_last()[i].0@ == p);
        }
    }
}

/// In a table of distinct paths, the entry that names a path gives that
/// path's content in the view.
pub proof fn lemma_files_view_index(entries: Seq<(String, Vec<u8>)>, i: int)
    requires
        distinct_paths(entries),
        0 <= i < entries.len(),
    ensures
        files_view(entries).contains_key(entries[i].0@),
        files_view(entries)[entries[i].0@] == entries[i].1@,
    decreases entries.len(),
{
    if i < entries.len() - 1 {
        assert(distinct_paths(entries.drop_last()));
        lemma_files_view_index(entries.drop_last(), i);
        assert(entries.drop_last()[i] == entries[i]);
        assert(entries.last().0@ != entries[i].0@);
    }
}

/// Dropping one entry keeps the remaining paths distinct.
pub proof fn lemma_distinct_remove(entries: Seq<(String, Vec<u8>)>, i: int)
    requires
        distinct_paths(entries),
        0 <= i < entries.len(),
    ensures
        distinct_paths(entries.remove(i)),
{
    entries.remove_ensures(i);
    assert forall|a: int, b: int|
        0 <= a < b < entries.remove(i).len() implies entries.remove(i)[a].0@ != entries.remove(
        i,
    )[b].0@ by {
        let a0 = if a < i {
            a
        } else {
            a + 1
        };
        let b0 = if b < i {
            b
        } else {
            b + 1
        };
        assert(entries.remove(i)[a] == entries[a0]);
        assert(entries.remove(i)[b] == entries[b0]);
    }
}

/// Dropping the entry that names `p` removes `p`, and nothing else, from
/// the view of a table of distinct paths.
pub proof fn lemma_files_view_remove(entries: Seq<(String, Vec<u8>)>, i: int)
    requires
        distinct_paths(entries),
        0 <= i < entries.len(),
    ensures
        files_view(entries.remove(i)) == files_view(entries).remove(entries[i].0@),
    decreases entries.len(),
{
    let p = entries[i].0@;
    entries.remove_ensures(i);
    if i == entries.len() - 1 {
        assert(entries.remove(i) =~= entries.drop_last());
        lemma_files_view_contains(entries.drop_last(), p);
        assert(!files_view(entries.drop_last()).contains_key(p));
        assert(files_view(entries.drop_last()) =~= files_view(entries).remove(p));
    } else {
        let dl = entries.drop_last();
        assert(distinct_paths(dl));
        assert(dl[i] == entries[i]);
        lemma_files_view_remove(dl, i);
        assert(entries.remove(i).drop_last() =~= dl.remove(i));
        assert(entries.remove(i).last() == entries.last());
        assert(files_view(entries.remove(i)) == files_view(dl.remove(i)).insert(
            entries.last().0@,
            entries.last().1@,
        ));
        assert(entries.last().0@ != p);
        assert(files_view(dl).remove(p).insert(entries.last().0@, entries.last().1@)
            =~= files_view(dl).insert(entries.last().0@, entries.last().1@).remove(p));
    }
}

/// Appending one process appends its path to the view.
pub proof fn lemma_procs_view_push(procs: Seq<String>, s: String)
    ensures
        procs_view(procs.push(s)) == procs_view(procs).push(s@),
{
    assert(procs_view(procs.push(s)) =~= procs_view(procs).push(s@));
}

/// An executable system a run can be performed against, in memory: a
/// table of files and a table of running processes.
#[derive(Debug)]
pub struct SystemModel {
    files: Vec<(String, Vec<u8>)>,
    procs: Vec<String>,
}

impl View for SystemModel {
    type V = SysState;

    closed spec fn view(&self) -> SysState {
        SysState { files: files_view(self.files@), procs: procs_view(self.procs@) }
    }
}

impl SystemModel {
    /// A system is well formed when no path has two file entries.
    pub closed spec fn wf(&self) -> bool {
        distinct_paths(self.files@)
    }

    /// An empty system: no files and no processes.
    pub fn new() -> (m: SystemModel)
        ensures
            m.wf(),
            m@.files == Map::<Seq<char>, Seq<u8>>::empty(),
            m@.procs == Seq::<Seq<char>>::empty(),
    {
        let m = SystemModel { files: Vec::new(), procs: Vec::new() };
        proof {
            assert(m@.procs =~= Seq::<Seq<char>>::empty());
        }
        m
    }

    /// The position of the entry that names `path`, if there is one.
    fn find_index(&self, path: &String) -> (r: Option<usize>)
        ensures
            (match r {
                Some(i) => i < self.files@.len() && self.files@[i as int].0@ == path@,
                None => forall|j: int| 0 <= j < self.files@.len() ==> self.files@[j].0@ != path@,
            }),
    {
        let n = self.files.len();
        let mut i: usize = 0;
        while i < n
            invariant
                i <= n,
                n == self.files@.len(),
                forall|j: int| 0 <= j < i ==> self.files@[j].0@ != path@,
            decreases n - i,
        {
            if self.files[i].0 == *path {
                return Some(i);
            }
            i += 1;
        }
        None
    }

    /// Puts `content` at `path`, replacing whatever was there.
    pub fn add_file(&mut self, path: String, content: Vec<u8>)
        requires
            old(self).wf(),
        ensures
            final(self).wf(),
            final(self)@.files == old(self)@.files.insert(path@, content@),
            final(self)@.procs == old(self)@.procs,
    {
        let ghost entries0 = self.files@;
        match self.find_index(&path) {
            Some(i) => {
                proof {
                    lemma_distinct_remove(entries0, i as int);
                    lemma_files_view_remove(entries0, i as int);
                }
                self.files.remove(i);
            },
            None => {},
        }
        proof {
            lemma_files_view_contains(self.files@, path@);
            assert(!files_view(self.files@).contains_key(path@));
        }
        let ghost entries1 = self.files@;
        self.files.push((path, content));
        proof {
            assert(self.files@.drop_last() =~= entries1);
            assert(distinct_paths(self.files@));
            assert(files_view(entries1).insert(path@, content@) =~= files_view(entries0).insert(
                path@,
                content@,
            ));
        }
    }

    /// Starts one more process running `path`.
    pub fn add_process(&mut self, path: String)
        requires
            old(self).wf(),
        ensures
            final(self).wf(),
            final(self)@.files == old(self)@.files,
            final(self)@.procs == old(self)@.procs.push(path@),
    {
        proof {
            lemma_procs_view_push(self.procs@, path);
        }
        self.procs.push(path);
    }

    /// Whether some file sits at `path`.
    pub fn file_exists(&self, path: &String) -> (r: bool)
        ensures
            r == self@.files.contains_key(path@),
    {
        proof {
            lemma_files_view_contains(self.files@, path@);
        }
        match self.find_index(path) {
            Some(_) => true,
            None => false,
        }
    }

    /// The content of the file at `path`, if there is one.
    pub fn file_content(&self, path: &String) -> (r: Option<Vec<u8>>)
        requires
            self.wf(),
        ensures
            (match r {
                Some(c) => self@.files.contains_key(path@) && c@ == self@.files[path@],
                None => !self@.files.contains_key(path@),
            }),
    {
        proof {
            lemma_files_view_contains(self.files@, path@);
        }
        match self.find_index(path) {
            Some(i) => {
                proof {
                    lemma_files_view_index(self.files@, i as int);
                }
                let c = self.files[i].1.clone();
                proof {
                    assert(c@ =~= self.files@[i as int].1@);
                }
                Some(c)
            },
            None => None,
        }
    }

    /// How many processes run `path`.
    pub fn running_count(&self, path: &String) -> (n: usize)
        ensures
            n == proc_count(self@.procs, path@),
    {
        let len = self.procs.len();
        let mut n: usize = 0;
        let mut i: usize = 0;
        while i < len
            invariant
                i <= len,
                len == self.procs@.len(),
                n <= i,
                n == proc_count(procs_view(self.procs@.subrange(0, i as int)), path@),
            decreases len - i,
        {
            let ghost prefix = procs_view(self.procs@.subrange(0, i as int));
            proof {
                assert(self.procs@.subrange(0, i + 1) =~= self.procs@.subrange(0, i as int).push(
                    self.procs@[i as int],
                ));
                lemma_procs_view_push(self.procs@.subrange(0, i as int), self.procs@[i as int]);
                lemma_proc_count_push(prefix, self.procs@[i as int]@, path@);
            }
            if self.procs[i] == *path {
                n += 1;
            }
            i += 1;
        }
        proof {
            assert(self.procs@.subrange(0, i as int) =~= self.procs@);
        }
        n
    }

    /// Ends every process running `path`; the files stay as they are.
    fn terminate_matching(&mut self, path: &String)
        requires
            old(self).wf(),
        ensures
            final(self).wf(),
            final(self)@.files == old(self)@.files,
            final(self)@.procs == remove_all(old(self)@.procs, path@),
    {
        let len = self.procs.len();
        let mut kept: Vec<String> = Vec::new();
        let mut i: usize = 0;
        while i < len
            invariant
                i <= len,
                len == self.procs@.len(),
                procs_view(kept@) == remove_all(
                    procs_view(self.procs@.subrange(0, i as int)),
                    path@,
                ),
            decreases len - i,
        {
            let ghost prefix = procs_view(self.procs@.subrange(0, i as int));
            proof {
                assert(self.procs@.subrange(0, i + 1) =~= self.procs@.subrange(0, i as int).push(
                    self.procs@[i as int],
                ));
                lemma_procs_view_push(self.procs@.subrange(0, i as int), self.procs@[i as int]);
                lemma_remove_all_push(prefix, self.procs@[i as int]@, path@);
            }
            if self.procs[i] != *path {
                let ghost kept0 = kept@;
                let p = self.procs[i].clone();
                kept.push(p);
                proof {
                    lemma_procs_view_push(kept0, p);
                }
            }
            i += 1;
        }
        proof {
            assert(self.procs@.subrange(0, i as int) =~= self.procs@);
        }
        self.procs = kept;
    }

    /// Deletes the file at `path`; reports whether there was one.
    fn delete_file(&mut self, path: &String) -> (ok: bool)
        requires
            old(self).wf(),
        ensures
            final(self).wf(),
            ok == old(self)@.files.contains_key(path@),
            final(self)@.procs == old(self)@.procs,
            final(self)@.files == (if ok {
                old(self)@.files.remove(path@)
            } else {
                old(self)@.files
            }),
    {
        proof {
            lemma_files_view_contains(self.files@, path@);
        }
        match self.find_index(path) {
            Some(i) => {
                proof {
                    lemma_distinct_remove(self.files@, i as int);
                    lemma_files_view_remove(self.files@, i as int);
                }
                self.files.remove(i);
                true
            },
            None => false,
        }
    }

    /// Copies the file at `src` to `dst`; reports whether `src` exists.
    fn copy_file(&mut self, src: &String, dst: &String) -> (ok: bool)
        requires
            old(self).wf(),
        ensures
            final(self).wf(),
            ok == old(self)@.files.contains_key(src@),
            final(self)@.procs == old(self)@.procs,
            final(self)@.files == (if ok {
                old(self)@.files.insert(dst@, old(self)@.files[src@])
            } else {
                old(self)@.files
            }),
    {
        proof {
            lemma_files_view_contains(self.files@, src@);
        }
        match self.find_index(src) {
            Some(i) => {
                proof {
                    lemma_files_view_index(self.files@, i as int);
                }
                let content = self.files[i].1.clone();
                proof {
                    assert(content@ =~= self.files@[i as int].1@);
                }
                self.add_file(dst.clone(), content);
                true
            },
            None => false,
        }
    }

    /// Launches the file at `path` as one more process; reports whether
    /// there was a file to launch.
    fn launch(&mut self, path: &String) -> (ok: bool)
        requires
            old(self).wf(),
        ensures
            final(self).wf(),
            ok == old(self)@.files.contains_key(path@),
            final(self)@.files == old(self)@.files,
            final(self)@.procs == (if ok {
                old(self)@.procs.push(path@)
            } else {
                old(self)@.procs
            }),
    {
        if self.file_exists(path) {
            self.add_process(path.clone());
            true
        } else {
            false
        }
    }

    /// Performs one step of `job`'s run against this system and reports
    /// what the step reported; the report and the effect are exactly the
    /// model's.
    pub fn perform(&mut self, job: &Job, step: Step) -> (o: Outcome)
        requires
            old(self).wf(),
        ensures
            final(self).wf(),
            o == step_outcome(old(self)@, job@, step),
            final(self)@ == step_effect(old(self)@, job@, step),
    {
        let o = match step {
            Step::Terminate => {
                self.terminate_matching(job.old_exe_path());
                Outcome::Success
            },
            Step::DeleteOld => {
                if self.delete_file(job.old_exe_path()) {
                    Outcome::Success
                } else {
                    Outcome::Failure
                }
            },
            Step::CopyNewToOld => {
                if self.copy_file(job.new_exe_path(), job.old_exe_path()) {
                    Outcome::Success
                } else {
                    Outcome::Failure
                }
            },
            Step::LaunchNew => {
                if self.launch(job.old_exe_path()) {
                    Outcome::Success
                } else {
                    Outcome::Failure
                }
            },
        };
        proof {
            assert(self@ =~= step_effect(old(self)@, job@, step));
        }
        o
    }
}

} // verus!
