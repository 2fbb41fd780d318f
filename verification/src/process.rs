//! The process reaper's choice of processes.
//!
//! A path is held as its components, root first, after symbolic links and
//! junctions were resolved. A process lies within a directory when the
//! directory's components lead its executable's: whole components are
//! compared, never parts of a name.

use vstd::prelude::*;

verus! {

/// A running process, as far as the reaper looks at it.
#[derive(Debug)]
pub struct ProcessInfo {
    /// Identifier of the process.
    pub pid: u32,
    /// Components of the canonical path of its executable, or `None` where
    /// the path cannot be resolved (the process has exited, or access is
    /// denied).
    pub exe: Option<Vec<String>>,
}

/// Mathematical model of a [`ProcessInfo`].
pub struct ProcessView {
    pub pid: u32,
    pub exe: Option<Seq<Seq<char>>>,
}

/// The components of a path as sequences of characters.
pub open spec fn path_view(path: Seq<String>) -> Seq<Seq<char>> {
    path.map_values(|component: String| component@)
}

impl View for ProcessInfo {
    type V = ProcessView;

    open spec fn view(&self) -> ProcessView {
        ProcessView {
            pid: self.pid,
            exe: match self.exe {
                Some(path) => Some(path_view(path@)),
                None => None,
            },
        }
    }
}

/// The models of a sequence of processes.
pub open spec fn process_views(processes: Seq<ProcessInfo>) -> Seq<ProcessView> {
    processes.map_values(|p: ProcessInfo| p@)
}

/// Whether `path` lies within `directory`: the components of `directory` are
/// the first components of `path`. A directory lies within itself.
pub open spec fn lies_within(path: Seq<Seq<char>>, directory: Seq<Seq<char>>) -> bool {
    &&& directory.len() <= path.len()
    &&& forall|i: int| 0 <= i < directory.len() ==> path[i] == directory[i]
}

/// Whether the reaper terminates `process` for `directory`: its executable's
/// path is known and lies within the directory.
pub open spec fn is_rooted(process: ProcessView, directory: Seq<Seq<char>>) -> bool {
    match process.exe {
        Some(path) => lies_within(path, directory),
        None => false,
    }
}

/// The identifiers of the processes rooted in `directory`, in the order of
/// `processes`.
pub open spec fn rooted_pids(processes: Seq<ProcessView>, directory: Seq<Seq<char>>) -> Seq<u32>
    decreases processes.len(),
{
    if processes.len() == 0 {
        Seq::empty()
    } else if is_rooted(processes.last(), directory) {
        rooted_pids(processes.drop_last(), directory).push(processes.last().pid)
    } else {
        rooted_pids(processes.drop_last(), directory)
    }
}

/// No more processes are chosen than there are, and an identifier is chosen
/// exactly when a process that is rooted in the directory bears it.
pub proof fn lemma_rooted_pids(processes: Seq<ProcessView>, directory: Seq<Seq<char>>, pid: u32)
    ensures
        rooted_pids(processes, directory).len() <= processes.len(),
        rooted_pids(processes, directory).contains(pid) <==> exists|i: int|
            0 <= i < processes.len() && is_rooted(#[trigger] processes[i], directory)
                && processes[i].pid == pid,
    decreases processes.len(),
{
    if processes.len() > 0 {
        let init = processes.drop_last();
        let last = processes.last();
        let chosen = rooted_pids(processes, directory);
        let earlier = rooted_pids(init, directory);
        lemma_rooted_pids(init, directory, pid);
        if chosen.contains(pid) {
            let k = choose|k: int| 0 <= k < chosen.len() && chosen[k] == pid;
            if k < earlier.len() {
                assert(earlier[k] == pid);
                assert(earlier.contains(pid));
                let i = choose|i: int|
                    0 <= i < init.len() && is_rooted(#[trigger] init[i], directory) && init[i].pid
                        == pid;
                assert(processes[i] == init[i]);
            } else {
                assert(processes[processes.len() - 1] == last);
            }
        }
        if exists|i: int|
            0 <= i < processes.len() && is_rooted(#[trigger] processes[i], directory)
                && processes[i].pid == pid {
            let i = choose|i: int|
                0 <= i < processes.len() && is_rooted(#[trigger] processes[i], directory)
                    && processes[i].pid == pid;
            if i < init.len() {
                assert(init[i] == processes[i]);
                assert(earlier.contains(pid));
                let k = choose|k: int| 0 <= k < earlier.len() && earlier[k] == pid;
                assert(chosen[k] == pid);
            } else {
                assert(chosen[chosen.len() - 1] == pid);
            }
        }
    }
}

/// Whether `path` lies within `directory`.
pub fn path_lies_within(path: &Vec<String>, directory: &Vec<String>) -> (b: bool)
    ensures
        b == lies_within(path_view(path@), path_view(directory@)),
{
    if directory.len() > path.len() {
        return false;
    }
    let mut i: usize = 0;
    while i < directory.len()
        invariant
            0 <= i <= directory.len() <= path.len(),
            forall|k: int| 0 <= k < i ==> path_view(path@)[k] == path_view(directory@)[k],
        decreases directory.len() - i,
    {
        if !(path[i] == directory[i]) {
            assert(path_view(path@)[i as int] != path_view(directory@)[i as int]);
            return false;
        }
        i = i + 1;
    }
    true
}

/// The processes that the reaper is to terminate for `directory`: those
/// whose executable lies within it, in the order of `processes`. Processes
/// whose path is unknown are passed over.
pub fn processes_from_directory(processes: &Vec<ProcessInfo>, directory: &Vec<String>) -> (pids:
    Vec<u32>)
    ensures
        pids@ == rooted_pids(process_views(processes@), path_view(directory@)),
{
    let ghost all = process_views(processes@);
    let ghost dir = path_view(directory@);
    let mut pids: Vec<u32> = Vec::new();
    let mut i: usize = 0;
    assert(all.take(0) =~= Seq::<ProcessView>::empty());
    while i < processes.len()
        invariant
            0 <= i <= processes.len(),
            all == process_views(processes@),
            dir == path_view(directory@),
            pids@ == rooted_pids(all.take(i as int), dir),
        decreases processes.len() - i,
    {
        let process = &processes[i];
        proof {
            assert(all.take(i + 1).drop_last() =~= all.take(i as int));
            assert(all.take(i + 1).last() == process@);
        }
        let rooted = match &process.exe {
            Some(path) => path_lies_within(path, directory),
            None => false,
        };
        if rooted {
            pids.push(process.pid);
        }
        i = i + 1;
    }
    assert(all.take(i as int) =~= all);
    pids
}

} // verus!
