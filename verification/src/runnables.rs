//! Runnables: in which directory a task is started when it names none.

use vstd::prelude::*;

verus! {

/// What is known of one worktree of the project when a task is scheduled.
#[derive(Clone, Copy, Debug, PartialEq, Eq)]
pub struct WorktreeInfo {
    /// Whether the worktree is shown to the user.
    pub is_visible: bool,
    /// Whether the worktree is on this machine.
    pub is_local: bool,
    /// Whether the worktree has a root entry, and that entry is a directory.
    pub root_is_dir: bool,
    /// Whether the worktree holds the entry that is active in the project.
    /// It is `false` for every worktree while no entry is active.
    pub holds_active_entry: bool,
}

/// Why no working directory could be chosen.
#[derive(Clone, Copy, Debug, PartialEq, Eq)]
pub enum CwdError {
    /// Several worktrees could serve, and none of them holds the active
    /// entry.
    AmbiguousWorktrees,
}

impl CwdError {
    /// The error as a sentence.
    pub fn message(&self) -> (text: &'static str)
        ensures
            text@ == "Cannot determine runnable cwd for multiple worktrees"@,
    {
        "Cannot determine runnable cwd for multiple worktrees"
    }
}

/// Whether a task can be started in the worktree: it is visible, local,
/// and rooted in a directory.
pub open spec fn is_available(worktree: WorktreeInfo) -> bool {
    worktree.is_visible && worktree.is_local && worktree.root_is_dir
}

/// [`is_available`] as a predicate on worktrees.
pub open spec fn available() -> spec_fn(WorktreeInfo) -> bool {
    |worktree: WorktreeInfo| is_available(worktree)
}

/// The predicate of the worktrees that are available and hold the active
/// entry.
pub open spec fn available_and_active() -> spec_fn(WorktreeInfo) -> bool {
    |worktree: WorktreeInfo| is_available(worktree) && worktree.holds_active_entry
}

/// Whether `i` is the position of the first worktree that is `wanted`.
pub open spec fn is_first(
    worktrees: Seq<WorktreeInfo>,
    wanted: spec_fn(WorktreeInfo) -> bool,
    i: int,
) -> bool {
    &&& 0 <= i < worktrees.len()
    &&& wanted(worktrees[i])
    &&& forall|j: int| 0 <= j < i ==> !wanted(worktrees[j])
}

/// The position of the first worktree that is `wanted`, if there is one.
pub open spec fn first_index(
    worktrees: Seq<WorktreeInfo>,
    wanted: spec_fn(WorktreeInfo) -> bool,
) -> Option<int> {
    if exists|i: int| is_first(worktrees, wanted, i) {
        Some(choose|i: int| is_first(worktrees, wanted, i))
    } else {
        None
    }
}

/// The worktree in which a task without a directory of its own is started,
/// by position. With no available worktree there is none. A single
/// available worktree is taken. Among several, the first that holds the
/// active entry is taken, and it is an error if none does.
pub open spec fn resolved_cwd(worktrees: Seq<WorktreeInfo>) -> Result<Option<int>, CwdError> {
    let count = worktrees.filter(available()).len();
    if count == 0 {
        Ok(None)
    } else if count == 1 {
        Ok(first_index(worktrees, available()))
    } else {
        match first_index(worktrees, available_and_active()) {
            Some(i) => Ok(Some(i)),
            None => Err(CwdError::AmbiguousWorktrees),
        }
    }
}

/// A position as a mathematical integer.
pub open spec fn position(found: Option<usize>) -> Option<int> {
    match found {
        Some(i) => Some(i as int),
        None => None,
    }
}

/// A result of [`runnable_cwd`] with its position as a mathematical integer.
pub open spec fn cwd_model(cwd: Result<Option<usize>, CwdError>) -> Result<Option<int>, CwdError> {
    match cwd {
        Ok(found) => Ok(position(found)),
        Err(error) => Err(error),
    }
}

/// Chooses the worktree in which a task without a directory of its own is
/// started, by its position in `worktrees`.
pub fn runnable_cwd(worktrees: &Vec<WorktreeInfo>) -> (cwd: Result<Option<usize>, CwdError>)
    ensures
        cwd_model(cwd) == resolved_cwd(worktrees@),
{
    let ghost all = worktrees@;
    let mut count: usize = 0;
    let mut first_available: Option<usize> = None;
    let mut first_active: Option<usize> = None;
    proof {
        reveal(Seq::filter);
        assert(all.take(0) =~= Seq::<WorktreeInfo>::empty());
    }
    for i in 0..worktrees.len()
        invariant
            all == worktrees@,
            count == all.take(i as int).filter(available()).len(),
            count <= i,
            match first_available {
                Some(k) => k < i && is_first(all, available(), k as int),
                None => forall|j: int| 0 <= j < i ==> !is_available(#[trigger] all[j]),
            },
            match first_active {
                Some(k) => k < i && is_first(all, available_and_active(), k as int),
                None => forall|j: int|
                    0 <= j < i ==> !(is_available(#[trigger] all[j]) && all[j].holds_active_entry),
            },
    {
        let worktree = worktrees[i];
        proof {
            reveal(Seq::filter);
            assert(all.take(i + 1).drop_last() =~= all.take(i as int));
            assert(all.take(i + 1).last() == all[i as int]);
        }
        if worktree.is_visible && worktree.is_local && worktree.root_is_dir {
            count = count + 1;
            if first_available.is_none() {
                first_available = Some(i);
            }
            if worktree.holds_active_entry && first_active.is_none() {
                first_active = Some(i);
            }
        }
    }
    proof {
        assert(all.take(all.len() as int) =~= all);
        if first_available is None {
            assert(forall|i: int| !is_first(all, available(), i));
        }
        if first_active is None {
            assert(forall|i: int| !is_first(all, available_and_active(), i));
        }
    }
    if count == 0 {
        Ok(None)
    } else if count == 1 {
        Ok(first_available)
    } else {
        match first_active {
            Some(i) => Ok(Some(i)),
            None => Err(CwdError::AmbiguousWorktrees),
        }
    }
}

/// Where a scheduled task is started.
#[derive(Clone, Copy, Debug, PartialEq, Eq)]
pub enum TaskCwd {
    /// In the directory that the task names itself.
    Own,
    /// In the root of the worktree at this position.
    Worktree(usize),
    /// In no particular directory.
    Unset,
}

/// Where a task is started: in its own directory if it names one, else in
/// the worktree that [`resolved_cwd`] chooses, else nowhere in particular.
pub open spec fn scheduled_cwd(has_own_cwd: bool, worktrees: Seq<WorktreeInfo>) -> TaskCwd {
    if has_own_cwd {
        TaskCwd::Own
    } else {
        match resolved_cwd(worktrees) {
            Ok(Some(i)) => TaskCwd::Worktree(i as usize),
            _ => TaskCwd::Unset,
        }
    }
}

/// Decides where a task is started. A task that names no directory and has
/// no unambiguous worktree is started without one.
pub fn schedule_cwd(has_own_cwd: bool, worktrees: &Vec<WorktreeInfo>) -> (cwd: TaskCwd)
    ensures
        cwd == scheduled_cwd(has_own_cwd, worktrees@),
{
    if has_own_cwd {
        return TaskCwd::Own;
    }
    match runnable_cwd(worktrees) {
        Ok(Some(i)) => TaskCwd::Worktree(i),
        _ => TaskCwd::Unset,
    }
}

} // verus!
