//! The supervisor: how a task is born, watched, judged and laid to rest.
//!
//! Nothing here touches a disk, a process or a network. Each operation takes
//! what the outside world answered last and says what to do next: which record
//! to write, what to launch, which checkout to remove. Between two operations on
//! one task any number of operations on others may come.

use crate::clock;
use crate::executor::{ExecError, ExecutorConfig};
use crate::models::{ModelRegistry, RegistryError};
use crate::paths::{LockError, SkippedFile, StoreError, SupervisorHome, SupervisorLock};
use crate::registry::{SessionTarget, TaskId, TaskRecord, TransitionError, WorktreePolicy};
use crate::session::{OwnershipError, SandboxMode, SessionId, SessionOwner, SessionRecord};
use crate::text;
use crate::worktree::WorktreeError;
use std::collections::{HashMap, HashSet};
use vstd::prelude::*;

pub mod driver;
pub mod preflight;
pub mod recovery;
pub mod spawn;
pub mod status;

verus! {

/// Where the supervisor lives, and what it runs.
#[derive(Debug)]
pub struct SupervisorConfig {
    /// The home directory.
    pub codex_home: String,
    /// The program.
    pub codex_bin: String,
}

/// A request for a task.
#[derive(Debug)]
pub struct SpawnRequest {
    /// The instruction.
    pub prompt: String,
    /// The registry key of the model.
    pub model_key: String,
    /// The project directory.
    pub cwd: String,
    /// How much the task may touch.
    pub sandbox: SandboxMode,
    /// The command that judges it, if any.
    pub judge_command: Option<String>,
    /// How long it may take.
    pub timeout_secs: Option<u64>,
    /// Where it works.
    pub worktree: WorktreePolicy,
    /// Which session it runs in.
    pub session: SessionTarget,
    /// Whether its branch is kept for review.
    pub diff_first: bool,
    /// After how many equal tool failures in a row it is stopped.
    pub breaker_threshold: Option<u32>,
}

/// The answer to a request: the handles by which the task is followed.
#[derive(Debug)]
pub struct SpawnReply {
    /// The task.
    pub task_id: String,
    /// Its session.
    pub session_id: String,
    /// Its branch, where it has one of its own.
    pub worktree_branch: Option<String>,
}

/// What is shown of a task.
#[derive(Debug)]
pub struct TaskStatusView {
    /// The task.
    pub task_id: String,
    /// How far it has come.
    pub state: String,
    /// The registry key of its model.
    pub model_key: String,
    /// Its session.
    pub session_id: Option<String>,
    /// Its branch, where it has one of its own.
    pub worktree_branch: Option<String>,
    /// The beginning of its instruction.
    pub prompt_snippet: String,
    /// The beginning of what the model said last.
    pub last_agent_message: Option<String>,
    /// How many tokens its last turn wrote.
    pub output_tokens: Option<i64>,
    /// A summary of what it changed.
    pub diff_stat: Option<String>,
    /// How often it was launched again.
    pub retries: u32,
    /// When it was made.
    pub created_at: String,
    /// When it was last changed.
    pub updated_at: String,
}

/// What was found at the start.
#[derive(Debug)]
pub struct StartReport {
    /// How many tasks there are.
    pub tasks_loaded: usize,
    /// How many sessions there are.
    pub sessions_loaded: usize,
    /// The tasks that a former supervisor left behind, and that count as failed
    /// now.
    pub swept_tasks: Vec<TaskId>,
    /// The damaged record files.
    pub skipped: Vec<SkippedFile>,
}

/// Why an operation was refused.
#[derive(Debug)]
pub enum ServiceError {
    /// The lock was not taken.
    Lock(LockError),
    /// A record was not written or not read.
    Store(StoreError),
    /// There is no such model.
    Registry(RegistryError),
    /// The session is held by another task.
    Ownership(OwnershipError),
    /// A task was asked to take an illegal step.
    Transition(TransitionError),
    /// The checkout could not be made.
    Worktree(WorktreeError),
    /// The task could not be launched.
    Exec(ExecError),
    /// There is no such session.
    SessionNotFound {
        /// The session.
        session: SessionId,
    },
    /// The session cannot be resumed.
    SessionNotResumable {
        /// The session.
        session: SessionId,
    },
    /// There is no such task.
    TaskNotFound {
        /// The task.
        task: TaskId,
    },
    /// The task does not run.
    TaskNotRunning {
        /// The task.
        task: TaskId,
    },
    /// The model does not answer.
    Preflight {
        /// Its registry key.
        model_key: String,
        /// Where it was probed.
        url: String,
        /// What to make of it.
        verdict: String,
    },
    /// Something could not be read or made.
    Io {
        /// What was being done.
        context: String,
        /// What the system said.
        detail: String,
    },
    /// Something that should not happen.
    Internal {
        /// What it was.
        message: String,
    },
}

impl ServiceError {
    /// The error in words.
    pub open spec fn words(&self) -> Seq<char> {
        match self {
            ServiceError::Lock(error) => error.words(),
            ServiceError::Store(error) => error.words(),
            ServiceError::Registry(error) => error.words(),
            ServiceError::Ownership(error) => error.words(),
            ServiceError::Transition(error) => error.words(),
            ServiceError::Worktree(error) => error.words(),
            ServiceError::Exec(error) => error.words(),
            ServiceError::SessionNotFound { session } => "session "@ + session@ + " not found"@,
            ServiceError::SessionNotResumable { session } => "session "@ + session@
                + " has no resumable rollout (or model affinity is unresolvable)"@,
            ServiceError::TaskNotFound { task } => "task "@ + task@ + " not found"@,
            ServiceError::TaskNotRunning { task } => "task "@ + task@ + " is not running"@,
            ServiceError::Preflight { model_key, url, verdict } => "preflight 未通过（"@ + model_key@
                + " @ "@ + url@ + "）："@ + verdict@,
            ServiceError::Io { context, .. } => context@,
            ServiceError::Internal { message } => message@,
        }
    }

    /// The error in words.
    pub fn message(&self) -> (out: String)
        ensures
            out@ == self.words(),
    {
        match self {
            ServiceError::Lock(error) => error.message(),
            ServiceError::Store(error) => error.message(),
            ServiceError::Registry(error) => error.message(),
            ServiceError::Ownership(error) => error.message(),
            ServiceError::Transition(error) => error.message(),
            ServiceError::Worktree(error) => error.message(),
            ServiceError::Exec(error) => error.message(),
            ServiceError::SessionNotFound { session } => text::cat3(
                "session ",
                session.to_string().as_str(),
                " not found",
            ),
            ServiceError::SessionNotResumable { session } => text::cat3(
                "session ",
                session.to_string().as_str(),
                " has no resumable rollout (or model affinity is unresolvable)",
            ),
            ServiceError::TaskNotFound { task } => text::cat3(
                "task ",
                task.to_string().as_str(),
                " not found",
            ),
            ServiceError::TaskNotRunning { task } => text::cat3(
                "task ",
                task.to_string().as_str(),
                " is not running",
            ),
            ServiceError::Preflight { model_key, url, verdict } => text::cat6(
                "preflight 未通过（",
                model_key.as_str(),
                " @ ",
                url.as_str(),
                "）：",
                verdict.as_str(),
            ),
            ServiceError::Io { context, .. } => context.clone(),
            ServiceError::Internal { message } => message.clone(),
        }
    }
}

/// Cuts `text` down to `max_chars` characters and marks the cut.
pub fn truncate_chars(text: &str, max_chars: usize) -> (out: String)
    ensures
        out@ == text::clipped(text@, max_chars as nat),
{
    text::clip(text, max_chars)
}

/// All tasks and sessions, and which tasks can be interrupted.
pub struct Board {
    /// The tasks by the bits of their identifiers.
    pub tasks: Map<u128, TaskRecord>,
    /// The sessions by the bits of their identifiers.
    pub sessions: Map<u128, SessionRecord>,
    /// The tasks that can be interrupted.
    pub running: Set<u128>,
}

impl Board {
    /// Whether `task` holds `session`.
    pub open spec fn holds(self, task: TaskId, session: SessionId) -> bool {
        &&& self.sessions.contains_key(session.bits)
        &&& self.sessions[session.bits].owner == SessionOwner::Task { task }
    }

    /// Whether every record stands under its own identifier.
    pub open spec fn keyed(self) -> bool {
        &&& forall|k: u128| #[trigger]
            self.tasks.contains_key(k) ==> self.tasks[k].id.bits == k
        &&& forall|k: u128| #[trigger]
            self.sessions.contains_key(k) ==> self.sessions[k].id.bits == k
    }

    /// Whether every running task holds its session. Since a session has one
    /// holder, no two running tasks share one.
    pub open spec fn leased(self) -> bool {
        forall|k: u128| #[trigger]
            self.tasks.contains_key(k) && self.tasks[k].state is Running
                ==> self.tasks[k].session_id is Some && self.holds(
                self.tasks[k].id,
                self.tasks[k].session_id->Some_0,
            )
    }

    /// The board once `task` was interrupted: it cannot be interrupted again.
    pub open spec fn interrupted(self, task: TaskId) -> Board {
        if self.tasks.contains_key(task.bits) {
            Board { running: self.running.remove(task.bits), ..self }
        } else {
            self
        }
    }

    /// Whether only running tasks can be interrupted.
    pub open spec fn interruptible(self) -> bool {
        forall|k: u128| #[trigger]
            self.running.contains(k) ==> self.tasks.contains_key(k) && self.tasks[k].state
                is Running
    }

    /// What holds of the board at all times.
    pub open spec fn wf(self) -> bool {
        self.keyed() && self.leased() && self.interruptible()
    }
}

/// Law: at any time a session carries at most one running task.
pub proof fn law_one_running_task_per_session(board: Board, a: u128, b: u128)
    requires
        board.wf(),
        board.tasks.contains_key(a),
        board.tasks.contains_key(b),
        board.tasks[a].state is Running,
        board.tasks[b].state is Running,
        board.tasks[a].session_id == board.tasks[b].session_id,
    ensures
        a == b,
{
}

/// A record that has to be written.
#[derive(Debug)]
#[allow(inconsistent_fields)]
pub enum RecordWrite {
    /// A task.
    Task {
        /// The file.
        path: String,
        /// What goes into it.
        record: TaskRecord,
    },
    /// A session.
    Session {
        /// The file.
        path: String,
        /// What goes into it.
        record: SessionRecord,
    },
}

impl RecordWrite {
    /// Whether this writes `record` into its file.
    pub open spec fn writes_task(self, home: Seq<char>, record: TaskRecord) -> bool {
        self matches RecordWrite::Task { path, record: written } && written == record && path@
            == TaskRecord::file_of(home, record.id)
    }

    /// Whether this writes `record` into its file.
    pub open spec fn writes_session(self, home: Seq<char>, record: SessionRecord) -> bool {
        self matches RecordWrite::Session { path, record: written } && written == record && path@
            == SessionRecord::file_of(home, record.id)
    }
}

fn task_write(home: &SupervisorHome, record: &TaskRecord) -> (out: RecordWrite)
    ensures
        out.writes_task(home@, *record),
{
    RecordWrite::Task { path: record.save(home), record: record.clone() }
}

fn session_write(home: &SupervisorHome, record: &SessionRecord) -> (out: RecordWrite)
    ensures
        out.writes_session(home@, *record),
{
    RecordWrite::Session { path: record.save(home), record: record.clone() }
}

/// The supervisor.
#[derive(Debug)]
pub struct Supervisor {
    home: SupervisorHome,
    executor: ExecutorConfig,
    registry: ModelRegistry,
    tasks: HashMap<u128, TaskRecord>,
    sessions: HashMap<u128, SessionRecord>,
    running: HashSet<u128>,
    _lock: SupervisorLock,
}

impl View for Supervisor {
    type V = Board;

    closed spec fn view(&self) -> Board {
        Board { tasks: self.tasks@, sessions: self.sessions@, running: self.running@ }
    }
}

impl Supervisor {
    /// The home directory.
    pub closed spec fn home_dir(&self) -> Seq<char> {
        self.home@
    }

    /// What is run.
    pub closed spec fn program(&self) -> ExecutorConfig {
        self.executor
    }

    /// The model registry.
    pub closed spec fn models(&self) -> ModelRegistry {
        self.registry
    }

    /// Whether nothing but the board differs.
    pub open spec fn same_setup(&self, other: &Supervisor) -> bool {
        &&& self.home_dir() == other.home_dir()
        &&& self.program() == other.program()
        &&& self.models() == other.models()
    }
}

/// The keys of a map, in some order.
fn keys_of<V>(map: &HashMap<u128, V>) -> (keys: Vec<u128>)
    ensures
        keys@.no_duplicates(),
        keys@.to_set() == map@.dom(),
        keys@.len() == map@.dom().len(),
{
    broadcast use vstd::std_specs::hash::group_hash_axioms;

    let mut keys: Vec<u128> = Vec::new();
    let ghost all = vstd::std_specs::iter::IteratorSpec::remaining(
        &vstd::std_specs::hash::spec_keys_iter(map),
    ).unref();
    for key in it: map.keys()
        invariant
            it.seq().unref() == all,
            all.to_set() == map@.dom(),
            all.len() == map@.dom().len(),
            it.seq().no_duplicates(),
            keys@ == all.take(it.index() as int),
            all.no_duplicates(),
    {
        assert(all.take(it.index() + 1) =~= all.take(it.index() as int).push(*key));
        keys.push(*key);
    }
    assert(all.take(all.len() as int) =~= all);
    keys
}

/// Whether `after` is what becomes of `before` when `task` lets go of `session`.
/// Where it does not hold it nothing changes.
pub open spec fn is_released(before: Board, after: Board, session: SessionId, task: TaskId) -> bool {
    if before.holds(task, session) {
        let freed = after.sessions[session.bits];
        &&& after == (Board { sessions: before.sessions.insert(session.bits, freed), ..before })
        &&& freed == before.sessions[session.bits].owned(SessionOwner::Free, freed.updated_at)
        &&& clock::is_utc_instant(freed.updated_at.text@)
    } else {
        after == before
    }
}

impl Supervisor {
    /// Lets `task` go of `session`. Says which record has to be written, if one
    /// was changed.
    pub fn release_session(&mut self, session: SessionId, task: TaskId) -> (write: Option<RecordWrite>)
        ensures
            final(self).same_setup(old(self)),
            is_released(old(self)@, final(self)@, session, task),
            match write {
                Some(written) => old(self)@.holds(task, session) && written.writes_session(
                    old(self).home_dir(),
                    final(self)@.sessions[session.bits],
                ),
                None => !old(self)@.holds(task, session),
            },
            old(self)@.keyed() ==> final(self)@.keyed(),
            old(self)@.wf() && !(old(self)@.tasks.contains_key(task.bits) && old(
                self,
            )@.tasks[task.bits].state is Running) ==> final(self)@.wf(),
    {
        broadcast use vstd::std_specs::hash::group_hash_axioms;

        let ghost before = self@;
        match self.sessions.remove(&session.bits) {
            Some(found) => {
                let mut record = found;
                let write = match record.release(task) {
                    Ok(()) => Some(session_write(&self.home, &record)),
                    Err(_) => None,
                };
                self.sessions.insert(session.bits, record);
                assert(self@.sessions =~= before.sessions.insert(session.bits, record));
                if write.is_none() {
                    assert(self@.sessions =~= before.sessions);
                }
                write
            },
            None => {
                assert(self@.sessions =~= before.sessions);
                None
            },
        }
    }
}

} // verus!
