//! The checkouts of isolated tasks: where they are, what their branches are
//! called, and what becomes of them.
//!
//! Two tasks that write into one checkout lose work. An isolated task gets a
//! checkout of its own on a branch of its own, and both are named after it.

use crate::paths;
use crate::paths::SupervisorHome;
use crate::registry::TaskId;
use crate::text;
use vstd::prelude::*;

verus! {

/// A checkout.
#[derive(Debug)]
pub struct WorktreeHandle {
    /// The repository it was made from.
    pub repo_root: String,
    /// Its directory.
    pub worktree_root: String,
    /// Where in it the task works.
    pub task_cwd: String,
    /// Its branch.
    pub branch: String,
    /// The commit that the branch starts from.
    pub base_commit: String,
}

impl Clone for WorktreeHandle {
    fn clone(&self) -> (out: Self)
        ensures
            out == *self,
    {
        WorktreeHandle {
            repo_root: self.repo_root.clone(),
            worktree_root: self.worktree_root.clone(),
            task_cwd: self.task_cwd.clone(),
            branch: self.branch.clone(),
            base_commit: self.base_commit.clone(),
        }
    }
}

/// What becomes of a branch when its checkout goes.
#[derive(Clone, Copy, Debug, PartialEq, Eq, Structural)]
pub enum ReclaimMode {
    /// It is kept for review.
    KeepBranch,
    /// It goes too.
    DeleteBranch,
}

/// Why a checkout could not be made or removed.
#[derive(Debug)]
pub struct WorktreeError {
    /// What went wrong.
    pub detail: String,
}

impl WorktreeError {
    /// The error in words.
    pub open spec fn words(&self) -> Seq<char> {
        self.detail@
    }

    /// The error in words.
    pub fn message(&self) -> (out: String)
        ensures
            out@ == self.words(),
    {
        self.detail.clone()
    }
}

/// The branch of a task.
pub open spec fn branch_of(task: TaskId) -> Seq<char> {
    "rdos/task/"@ + task@
}

/// The branch of a task.
pub fn branch_name(task: TaskId) -> (out: String)
    ensures
        out@ == branch_of(task),
{
    text::cat2("rdos/task/", task.to_string().as_str())
}

/// The directory of the checkout of a task.
pub open spec fn checkout_of(home: Seq<char>, task: TaskId) -> Seq<char> {
    paths::joined_path(paths::state_dir_of(home, "worktrees"@), task@)
}

/// The directory of the checkout of a task.
pub fn checkout_dir(home: &SupervisorHome, task: TaskId) -> (out: String)
    ensures
        out@ == checkout_of(home@, task),
{
    paths::join_path(home.worktrees_dir().as_str(), task.to_string().as_str())
}

/// What the commit says that keeps what a task has changed.
pub open spec fn commit_words(task: TaskId) -> Seq<char> {
    "rdos task "@ + task@ + " 产出（supervisor 自动落盘）"@
}

/// What the commit says that keeps what a task has changed.
pub fn commit_message(task: TaskId) -> (out: String)
    ensures
        out@ == commit_words(task),
{
    text::cat3("rdos task ", task.to_string().as_str(), " 产出（supervisor 自动落盘）")
}

/// Law: two tasks never share a branch or a checkout.
pub proof fn law_checkouts_are_separate(home: Seq<char>, a: TaskId, b: TaskId)
    requires
        a != b,
    ensures
        branch_of(a) != branch_of(b),
        checkout_of(home, a) != checkout_of(home, b),
{
    if a@ == b@ {
        crate::ids::law_uuid_text_is_injective(a.bits, b.bits);
    }
    paths::lemma_equal_fronts("rdos/task/"@, a@, b@);
    crate::ids::lemma_uuid_text_is_plain(a.bits);
    crate::ids::lemma_uuid_text_is_plain(b.bits);
    paths::lemma_joined_path_is_injective(paths::state_dir_of(home, "worktrees"@), a@, b@);
}

} // verus!
