//! Tasks: what was asked for, how far it has come, and which steps are legal.

use crate::clock;
use crate::clock::Timestamp;
use crate::events::Usage;
use crate::ids;
use crate::paths;
use crate::paths::{DirEntry, DirListing, LoadReport, StoreError, SupervisorHome};
use crate::session::{ApprovalPolicy, SandboxMode, SessionId};
use crate::text;
use vstd::prelude::*;

verus! {

/// The layout of task records that this version writes.
pub const TASK_SCHEMA_VERSION: u32 = 1;

/// Identifies a task, across restarts too.
#[derive(Clone, Copy, Debug, PartialEq, Eq, Hash, Structural)]
pub struct TaskId {
    /// The bits of the UUID.
    pub bits: u128,
}

impl View for TaskId {
    type V = Seq<char>;

    /// The text of the identifier.
    open spec fn view(&self) -> Seq<char> {
        ids::uuid_text(self.bits)
    }
}

impl TaskId {
    /// A fresh random identifier.
    pub fn new() -> (out: Self)
        ensures
            ids::is_random_uuid(out.bits),
    {
        TaskId { bits: ids::random_uuid() }
    }

    /// Reads an identifier.
    pub fn from_str(raw: &str) -> (out: Result<Self, ids::InvalidId>)
        ensures
            match out {
                Ok(id) => ids::uuid_parsed(raw@) == Some(id.bits),
                Err(_) => ids::uuid_parsed(raw@) is None,
            },
    {
        match ids::parse_id(raw) {
            Ok(bits) => Ok(TaskId { bits }),
            Err(error) => Err(error),
        }
    }

    /// The text of the identifier, which reads back as the same one.
    pub fn to_string(&self) -> (out: String)
        ensures
            out@ == self@,
            ids::uuid_parsed(out@) == Some(self.bits),
    {
        ids::uuid_string(self.bits)
    }
}

/// What the judge said. A task that reports success has not succeeded until the
/// command that was registered to judge it says so.
#[derive(Clone, Copy, Debug, PartialEq, Eq, Structural)]
pub enum JudgeOutcome {
    /// The judging command ended with zero.
    Passed,
    /// It did not.
    Failed {
        /// What it ended with.
        exit_code: i32,
    },
    /// No command was registered. This is never turned into a pass.
    NotJudged,
}

/// How far a task has come.
///
/// ```text
/// Pending ──→ Running ──→ Completed
///    │           ├──────→ Failed
///    │           └──────→ Interrupted
///    ├──────────────────→ Failed
///    └──────────────────→ Interrupted
/// ```
#[derive(Debug, PartialEq, Eq)]
pub enum TaskState {
    /// Not started.
    Pending,
    /// Started.
    Running {
        /// The process, where it is known.
        pid: Option<u32>,
    },
    /// Ended, and judged.
    Completed {
        /// By whom and how.
        judge: JudgeOutcome,
    },
    /// Ended in failure.
    Failed {
        /// Why.
        error: String,
    },
    /// Stopped on request.
    Interrupted,
}

impl Clone for TaskState {
    fn clone(&self) -> (out: Self)
        ensures
            out == *self,
    {
        match self {
            TaskState::Pending => TaskState::Pending,
            TaskState::Running { pid } => TaskState::Running { pid: *pid },
            TaskState::Completed { judge } => TaskState::Completed { judge: *judge },
            TaskState::Failed { error } => TaskState::Failed { error: error.clone() },
            TaskState::Interrupted => TaskState::Interrupted,
        }
    }
}

impl TaskState {
    /// Whether nothing can follow this state.
    pub open spec fn terminal(self) -> bool {
        self is Completed || self is Failed || self is Interrupted
    }

    /// Whether `next` may follow this state.
    pub open spec fn leads_to(self, next: TaskState) -> bool {
        match self {
            TaskState::Pending => next is Running || next is Failed || next is Interrupted,
            TaskState::Running { .. } => !(next is Pending),
            _ => false,
        }
    }

    /// Whether nothing can follow this state.
    pub fn is_terminal(&self) -> (yes: bool)
        ensures
            yes == self.terminal(),
    {
        match self {
            TaskState::Completed { .. } | TaskState::Failed { .. } | TaskState::Interrupted => true,
            _ => false,
        }
    }

    /// Whether `next` may follow this state.
    pub fn can_transition_to(&self, next: &TaskState) -> (yes: bool)
        ensures
            yes == self.leads_to(*next),
    {
        match (self, next) {
            (TaskState::Pending, TaskState::Running { .. }) => true,
            (TaskState::Pending, TaskState::Failed { .. }) => true,
            (TaskState::Pending, TaskState::Interrupted) => true,
            (TaskState::Running { .. }, TaskState::Completed { .. }) => true,
            (TaskState::Running { .. }, TaskState::Failed { .. }) => true,
            (TaskState::Running { .. }, TaskState::Interrupted) => true,
            // A running task may stay running: that is how its process is noted.
            (TaskState::Running { .. }, TaskState::Running { .. }) => true,
            _ => false,
        }
    }

    /// The state as diagnostics show it.
    pub open spec fn shown(&self) -> Seq<char> {
        match self {
            TaskState::Pending => "Pending"@,
            TaskState::Running { pid } => "Running { pid: "@ + shown_pid(*pid) + " }"@,
            TaskState::Completed { judge } => "Completed { judge: "@ + shown_judge(*judge) + " }"@,
            TaskState::Failed { error } => "Failed { error: "@ + text::debug_quoted(error@) + " }"@,
            TaskState::Interrupted => "Interrupted"@,
        }
    }

    /// The state as diagnostics show it.
    pub fn show(&self) -> (out: String)
        ensures
            out@ == self.shown(),
    {
        match self {
            TaskState::Pending => "Pending".to_owned(),
            TaskState::Running { pid } => text::cat3(
                "Running { pid: ",
                show_pid(*pid).as_str(),
                " }",
            ),
            TaskState::Completed { judge } => text::cat3(
                "Completed { judge: ",
                show_judge(*judge).as_str(),
                " }",
            ),
            TaskState::Failed { error } => text::cat3(
                "Failed { error: ",
                text::debug_quote(error.as_str()).as_str(),
                " }",
            ),
            TaskState::Interrupted => "Interrupted".to_owned(),
        }
    }
}

/// A process id as diagnostics show it.
pub open spec fn shown_pid(pid: Option<u32>) -> Seq<char> {
    match pid {
        Some(n) => "Some("@ + text::decimal(n as nat) + ")"@,
        None => "None"@,
    }
}

/// A process id as diagnostics show it.
pub fn show_pid(pid: Option<u32>) -> (out: String)
    ensures
        out@ == shown_pid(pid),
{
    match pid {
        Some(n) => text::cat3("Some(", text::decimal_text(n as u128).as_str(), ")"),
        None => "None".to_owned(),
    }
}

/// A verdict as diagnostics show it.
pub open spec fn shown_judge(judge: JudgeOutcome) -> Seq<char> {
    match judge {
        JudgeOutcome::Passed => "Passed"@,
        JudgeOutcome::Failed { exit_code } => "Failed { exit_code: "@ + text::signed_decimal(
            exit_code as int,
        ) + " }"@,
        JudgeOutcome::NotJudged => "NotJudged"@,
    }
}

fn show_judge(judge: JudgeOutcome) -> (out: String)
    ensures
        out@ == shown_judge(judge),
{
    match judge {
        JudgeOutcome::Passed => "Passed".to_owned(),
        JudgeOutcome::Failed { exit_code } => text::cat3(
            "Failed { exit_code: ",
            text::signed_decimal_text(exit_code as i64).as_str(),
            " }",
        ),
        JudgeOutcome::NotJudged => "NotJudged".to_owned(),
    }
}

/// Where a task works.
#[derive(Clone, Copy, Debug, PartialEq, Eq, Structural)]
pub enum WorktreePolicy {
    /// In a checkout of its own.
    Isolated,
    /// In the directory that it was given.
    InPlace,
}

/// Which session a task runs in.
#[derive(Clone, Copy, Debug, PartialEq, Eq, Structural)]
pub enum SessionTarget {
    /// A new one.
    New,
    /// One that exists.
    Resume {
        /// Which one.
        session: SessionId,
    },
}

/// The command that judges a task.
#[derive(Debug, PartialEq, Eq)]
pub struct JudgeSpec {
    /// A shell command. What it ends with is the verdict.
    pub command: String,
}

impl Clone for JudgeSpec {
    fn clone(&self) -> (out: Self)
        ensures
            out == *self,
    {
        JudgeSpec { command: self.command.clone() }
    }
}

/// What was asked for.
#[derive(Debug, PartialEq, Eq)]
pub struct TaskSpec {
    /// The instruction.
    pub prompt: String,
    /// The registry key of the model.
    pub model_key: String,
    /// The project directory.
    pub cwd: String,
    /// How much the task may touch.
    pub sandbox: SandboxMode,
    /// When it asks.
    pub approval: ApprovalPolicy,
    /// Who judges it, if anyone.
    pub judge: Option<JudgeSpec>,
    /// Whether its branch is kept for review.
    pub diff_first: bool,
    /// Where it works.
    pub worktree: WorktreePolicy,
    /// Which session it runs in.
    pub session: SessionTarget,
    /// How long it may take.
    pub timeout_secs: Option<u64>,
    /// After how many equal tool failures in a row it is stopped.
    pub breaker_threshold: Option<u32>,
}

impl Clone for TaskSpec {
    fn clone(&self) -> (out: Self)
        ensures
            out == *self,
    {
        TaskSpec {
            prompt: self.prompt.clone(),
            model_key: self.model_key.clone(),
            cwd: self.cwd.clone(),
            sandbox: self.sandbox,
            approval: self.approval,
            judge: clone_judge(&self.judge),
            diff_first: self.diff_first,
            worktree: self.worktree,
            session: self.session,
            timeout_secs: self.timeout_secs,
            breaker_threshold: self.breaker_threshold,
        }
    }
}

/// A copy of an optional judge.
pub fn clone_judge(judge: &Option<JudgeSpec>) -> (out: Option<JudgeSpec>)
    ensures
        out == *judge,
{
    match judge {
        Some(spec) => Some(spec.clone()),
        None => None,
    }
}

/// A task.
#[derive(Debug, PartialEq, Eq)]
pub struct TaskRecord {
    /// The layout of the record.
    pub schema_version: u32,
    /// Which task it is.
    pub id: TaskId,
    /// What was asked for.
    pub spec: TaskSpec,
    /// How far it has come.
    pub state: TaskState,
    /// The session it runs in, once it has one.
    pub session_id: Option<SessionId>,
    /// Its checkout, where it has one of its own.
    pub worktree_path: Option<String>,
    /// Its raw event stream.
    pub events_path: Option<String>,
    /// How often it was launched again after a transient failure.
    pub retries: u32,
    /// What its last turn cost.
    pub usage: Option<Usage>,
    /// The last thing the model said, cut to size.
    pub last_agent_message: Option<String>,
    /// A summary of what it changed.
    pub diff_stat: Option<String>,
    /// When it was made.
    pub created_at: Timestamp,
    /// When it was last changed.
    pub updated_at: Timestamp,
}

impl Clone for TaskRecord {
    fn clone(&self) -> (out: Self)
        ensures
            out == *self,
    {
        TaskRecord {
            schema_version: self.schema_version,
            id: self.id,
            spec: self.spec.clone(),
            state: self.state.clone(),
            session_id: self.session_id,
            worktree_path: text::clone_opt(&self.worktree_path),
            events_path: text::clone_opt(&self.events_path),
            retries: self.retries,
            usage: self.usage,
            last_agent_message: text::clone_opt(&self.last_agent_message),
            diff_stat: text::clone_opt(&self.diff_stat),
            created_at: self.created_at.clone(),
            updated_at: self.updated_at.clone(),
        }
    }
}

impl TaskRecord {
    /// The record of a task as it is made.
    pub open spec fn fresh(id: TaskId, spec: TaskSpec, now: Timestamp) -> TaskRecord {
        TaskRecord {
            schema_version: TASK_SCHEMA_VERSION,
            id,
            spec,
            state: TaskState::Pending,
            session_id: None,
            worktree_path: None,
            events_path: None,
            retries: 0,
            usage: None,
            last_agent_message: None,
            diff_stat: None,
            created_at: now,
            updated_at: now,
        }
    }

    /// A task with the given identifier, made at `now`.
    pub fn new_at(id: TaskId, spec: TaskSpec, now: Timestamp) -> (out: Self)
        ensures
            out == Self::fresh(id, spec, now),
    {
        TaskRecord {
            schema_version: TASK_SCHEMA_VERSION,
            id,
            spec,
            state: TaskState::Pending,
            session_id: None,
            worktree_path: None,
            events_path: None,
            retries: 0,
            usage: None,
            last_agent_message: None,
            diff_stat: None,
            created_at: now.clone(),
            updated_at: now,
        }
    }

    /// A new task.
    pub fn new(spec: TaskSpec) -> (out: Self)
        ensures
            ids::is_random_uuid(out.id.bits),
            clock::is_utc_instant(out.created_at.text@),
            out == Self::fresh(out.id, spec, out.created_at),
    {
        Self::new_at(TaskId::new(), spec, Timestamp::now())
    }

    /// This record in another state, changed at `now`.
    pub open spec fn moved(self, state: TaskState, now: Timestamp) -> TaskRecord {
        TaskRecord { state, updated_at: now, ..self }
    }

    /// Moves the task to `next` at `now`. An illegal step changes nothing.
    pub fn transition_at(&mut self, next: TaskState, now: Timestamp) -> (out: Result<
        (),
        TransitionError,
    >)
        ensures
            if old(self).state.leads_to(next) {
                &&& out is Ok
                &&& *final(self) == old(self).moved(next, now)
            } else {
                &&& *final(self) == *old(self)
                &&& out == Err::<(), TransitionError>(
                    TransitionError { task: old(self).id, from: old(self).state, to: next },
                )
            },
    {
        if !self.state.can_transition_to(&next) {
            return Err(TransitionError { task: self.id, from: self.state.clone(), to: next });
        }
        self.state = next;
        self.updated_at = now;
        Ok(())
    }

    /// Moves the task to `next`. An illegal step changes nothing.
    pub fn transition(&mut self, next: TaskState) -> (out: Result<(), TransitionError>)
        ensures
            if old(self).state.leads_to(next) {
                &&& out is Ok
                &&& *final(self) == old(self).moved(next, final(self).updated_at)
                &&& clock::is_utc_instant(final(self).updated_at.text@)
            } else {
                &&& *final(self) == *old(self)
                &&& out == Err::<(), TransitionError>(
                    TransitionError { task: old(self).id, from: old(self).state, to: next },
                )
            },
    {
        self.transition_at(next, Timestamp::now())
    }

    /// The file that holds the record of the task `id`.
    pub open spec fn file_of(home: Seq<char>, id: TaskId) -> Seq<char> {
        paths::joined_path(paths::state_dir_of(home, "tasks"@), id@ + ".json"@)
    }

    /// The file into which the record is saved.
    pub fn save(&self, home: &SupervisorHome) -> (path: String)
        ensures
            path@ == Self::file_of(home@, self.id),
    {
        let name = text::cat2(self.id.to_string().as_str(), ".json");
        paths::join_path(home.tasks_dir().as_str(), name.as_str())
    }

    /// Sorts what was found in the directory of task records.
    pub fn load_all(home: &SupervisorHome, found: DirListing<TaskRecord>) -> (out: Result<
        LoadReport<TaskRecord>,
        StoreError,
    >)
        ensures
            paths::is_loaded(paths::state_dir_of(home@, "tasks"@), found, out),
    {
        paths::load_dir(home.tasks_dir().as_str(), found)
    }
}

/// An illegal step.
#[derive(Debug, PartialEq, Eq)]
pub struct TransitionError {
    /// The task.
    pub task: TaskId,
    /// Where it was.
    pub from: TaskState,
    /// Where it was meant to go.
    pub to: TaskState,
}

impl TransitionError {
    /// The error in words.
    pub open spec fn words(&self) -> Seq<char> {
        "illegal task state transition for "@ + self.task@ + ": "@ + self.from.shown() + " -> "@
            + self.to.shown()
    }

    /// The error in words.
    pub fn message(&self) -> (out: String)
        ensures
            out@ == self.words(),
    {
        text::cat6(
            "illegal task state transition for ",
            self.task.to_string().as_str(),
            ": ",
            self.from.show().as_str(),
            " -> ",
            self.to.show().as_str(),
        )
    }
}

/// Law: a terminal state is final, and it is the only kind of state that is.
pub proof fn law_terminal_states_are_final(state: TaskState, next: TaskState)
    ensures
        state.terminal() ==> !state.leads_to(next),
        !state.terminal() ==> state.leads_to(TaskState::Interrupted),
{
}

/// Law: a task can only complete after it has run, and nothing leads back to
/// its start.
pub proof fn law_completion_passes_through_running(state: TaskState, next: TaskState)
    requires
        state.leads_to(next),
    ensures
        next is Completed ==> state is Running,
        !(next is Pending),
{
}

/// Law: the records of tasks are kept apart. No two tasks share a file, and
/// the file of each is one that is taken for a record when they are read back.
pub proof fn law_task_files_are_separate(home: Seq<char>, a: TaskId, b: TaskId)
    ensures
        TaskRecord::file_of(home, a) == TaskRecord::file_of(home, b) ==> a == b,
        paths::names_record(a@ + ".json"@),
{
    ids::lemma_uuid_text_is_plain(a.bits);
    ids::lemma_uuid_text_is_plain(b.bits);
    let of_a = a@ + ".json"@;
    let of_b = b@ + ".json"@;
    assert(of_a[0] == a@[0] && of_b[0] == b@[0]);
    paths::lemma_joined_path_is_injective(paths::state_dir_of(home, "tasks"@), of_a, of_b);
    paths::lemma_record_name(a@, b@);
    if a@ == b@ {
        ids::law_uuid_text_is_injective(a.bits, b.bits);
    }
}

/// Law: a saved task is given back. Where the directory of task records holds
/// nothing but the file into which a record is saved, and what is in it reads as
/// that record, the scan gives exactly that record, and nothing is passed over.
pub proof fn law_saved_task_is_given_back(
    home: Seq<char>,
    found: DirListing<TaskRecord>,
    name: String,
    record: TaskRecord,
    out: Result<LoadReport<TaskRecord>, StoreError>,
)
    requires
        paths::joined_path(paths::state_dir_of(home, "tasks"@), name@) == TaskRecord::file_of(
            home,
            record.id,
        ),
        name@.len() > 0,
        name@[0] != '/',
        found matches DirListing::Entries(entries) && entries@ == seq![
            DirEntry::File { name, content: Ok::<TaskRecord, StoreError>(record) },
        ],
        paths::is_loaded(paths::state_dir_of(home, "tasks"@), found, out),
    ensures
        out is Ok,
        out->Ok_0.records@ == seq![record],
        out->Ok_0.skipped@.len() == 0,
{
    let dir = paths::state_dir_of(home, "tasks"@);
    let saved = record.id@ + ".json"@;
    ids::lemma_uuid_text_is_plain(record.id.bits);
    assert(saved[0] == record.id@[0]);
    paths::lemma_joined_path_is_injective(dir, name@, saved);
    paths::lemma_record_name(record.id@, record.id@);
    paths::law_single_record_is_given_back(dir, found, name, record, out);
}

} // verus!
