//! The tools that the supervisor offers to its clients: what their parameters
//! mean, and what is answered.

use crate::ids;
use crate::registry::{SessionTarget, TaskId, WorktreePolicy};
use crate::service::{ServiceError, SpawnRequest};
use crate::session::{SandboxMode, SessionId};
use crate::text;
use vstd::prelude::*;

verus! {

/// The parameters of the tool that spawns a task.
#[derive(Debug)]
pub struct SpawnTaskParams {
    /// The instruction.
    pub prompt: String,
    /// The registry key of the model.
    pub model_key: String,
    /// The project directory.
    pub cwd: String,
    /// How much the task may touch.
    pub sandbox: Option<String>,
    /// The command that judges it.
    pub judge_command: Option<String>,
    /// How long it may take.
    pub timeout_secs: Option<u64>,
    /// Where it works.
    pub worktree: Option<String>,
    /// Whether its branch is kept for review.
    pub diff_first: Option<bool>,
}

/// The parameters of the tool that shows tasks.
#[derive(Debug)]
pub struct StatusParams {
    /// The task; all of them where none is named.
    pub task_id: Option<String>,
}

/// The parameters of the tool that shows the end of an event stream.
#[derive(Debug)]
pub struct TailParams {
    /// The task.
    pub task_id: String,
    /// How many lines.
    pub lines: Option<usize>,
}

/// The parameters of the tool that resumes a session.
#[derive(Debug)]
pub struct ReplyParams {
    /// The session.
    pub session_id: String,
    /// The instruction.
    pub prompt: String,
    /// The registry key of another model than that of the session.
    pub model_key: Option<String>,
    /// The command that judges the task.
    pub judge_command: Option<String>,
    /// How long it may take.
    pub timeout_secs: Option<u64>,
}

/// The parameters of the tool that interrupts a task.
#[derive(Debug)]
pub struct InterruptParams {
    /// The task.
    pub task_id: String,
}

/// Why a tool was not carried out.
#[derive(Debug)]
pub enum ToolError {
    /// The client asked for something that cannot be.
    InvalidParams(String),
    /// Something went wrong on this side.
    Internal(String),
}

/// How many lines of an event stream are shown where none is named.
pub const DEFAULT_TAIL_LINES: usize = 20;

/// The task that a text names.
pub fn parse_task_id(raw: &str) -> (out: Result<TaskId, ToolError>)
    ensures
        match ids::uuid_parsed(raw@) {
            Some(bits) => out == Ok::<TaskId, ToolError>(TaskId { bits }),
            None => out matches Err(ToolError::InvalidParams(message)) && message@
                == "invalid task_id: "@ + raw@,
        },
{
    match TaskId::from_str(raw) {
        Ok(id) => Ok(id),
        Err(_) => Err(ToolError::InvalidParams(text::cat2("invalid task_id: ", raw))),
    }
}

/// The session that a text names.
pub fn parse_session_id(raw: &str) -> (out: Result<SessionId, ToolError>)
    ensures
        match ids::uuid_parsed(raw@) {
            Some(bits) => out == Ok::<SessionId, ToolError>(SessionId { bits }),
            None => out matches Err(ToolError::InvalidParams(message)) && message@
                == "invalid session_id: "@ + raw@,
        },
{
    match SessionId::from_str(raw) {
        Ok(id) => Ok(id),
        Err(_) => Err(ToolError::InvalidParams(text::cat2("invalid session_id: ", raw))),
    }
}

/// The sandbox that a text names, if it names one. A task may write to its
/// directory where nothing else was said.
pub open spec fn sandbox_named(raw: Option<Seq<char>>) -> Option<SandboxMode> {
    match raw {
        None => Some(SandboxMode::WorkspaceWrite),
        Some(name) => if name == "read-only"@ {
            Some(SandboxMode::ReadOnly)
        } else if name == "workspace-write"@ {
            Some(SandboxMode::WorkspaceWrite)
        } else if name == "danger-full-access"@ {
            Some(SandboxMode::DangerFullAccess)
        } else {
            None
        },
    }
}

/// What is answered where a text names no sandbox.
pub open spec fn no_sandbox(raw: Seq<char>) -> Seq<char> {
    "invalid sandbox: "@ + raw + " (read-only | workspace-write | danger-full-access)"@
}

/// The sandbox that a text names.
pub fn parse_sandbox(raw: &Option<String>) -> (out: Result<SandboxMode, ToolError>)
    ensures
        match sandbox_named(text::opt_text(*raw)) {
            Some(mode) => out == Ok::<SandboxMode, ToolError>(mode),
            None => out matches Err(ToolError::InvalidParams(message)) && message@ == no_sandbox(
                raw->Some_0@,
            ),
        },
{
    match raw {
        None => Ok(SandboxMode::WorkspaceWrite),
        Some(name) => {
            if text::same_text(name.as_str(), "read-only") {
                Ok(SandboxMode::ReadOnly)
            } else if text::same_text(name.as_str(), "workspace-write") {
                Ok(SandboxMode::WorkspaceWrite)
            } else if text::same_text(name.as_str(), "danger-full-access") {
                Ok(SandboxMode::DangerFullAccess)
            } else {
                Err(
                    ToolError::InvalidParams(
                        text::cat3(
                            "invalid sandbox: ",
                            name.as_str(),
                            " (read-only | workspace-write | danger-full-access)",
                        ),
                    ),
                )
            }
        },
    }
}

/// Law: every sandbox is named by the name that it has on the command line, so
/// that what a client asks for is what the run is given.
pub proof fn law_sandbox_names_agree(mode: SandboxMode)
    ensures
        sandbox_named(Some(mode.name())) == Some(mode),
{
    reveal_strlit("read-only");
    reveal_strlit("workspace-write");
    reveal_strlit("danger-full-access");
    assert("read-only"@.len() == 9);
    assert("workspace-write"@.len() == 15);
    assert("danger-full-access"@.len() == 18);
}

/// Where a text says that a task works, if it says so. A task works in a
/// checkout of its own where nothing else was said.
pub open spec fn worktree_named(raw: Option<Seq<char>>) -> Option<WorktreePolicy> {
    match raw {
        None => Some(WorktreePolicy::Isolated),
        Some(name) => if name == "isolated"@ {
            Some(WorktreePolicy::Isolated)
        } else if name == "in-place"@ {
            Some(WorktreePolicy::InPlace)
        } else {
            None
        },
    }
}

/// What is answered where a text does not say where a task works.
pub open spec fn no_worktree(raw: Seq<char>) -> Seq<char> {
    "invalid worktree: "@ + raw + " (isolated | in-place)"@
}

/// Where a text says that a task works.
pub fn parse_worktree(raw: &Option<String>) -> (out: Result<WorktreePolicy, ToolError>)
    ensures
        match worktree_named(text::opt_text(*raw)) {
            Some(policy) => out == Ok::<WorktreePolicy, ToolError>(policy),
            None => out matches Err(ToolError::InvalidParams(message)) && message@ == no_worktree(
                raw->Some_0@,
            ),
        },
{
    match raw {
        None => Ok(WorktreePolicy::Isolated),
        Some(name) => {
            if text::same_text(name.as_str(), "isolated") {
                Ok(WorktreePolicy::Isolated)
            } else if text::same_text(name.as_str(), "in-place") {
                Ok(WorktreePolicy::InPlace)
            } else {
                Err(
                    ToolError::InvalidParams(
                        text::cat3(
                            "invalid worktree: ",
                            name.as_str(),
                            " (isolated | in-place)",
                        ),
                    ),
                )
            }
        },
    }
}

/// The request that the parameters of the spawning tool stand for: always a new
/// session, with a branch for review where nothing else was said.
pub fn spawn_request(params: SpawnTaskParams) -> (out: Result<SpawnRequest, ToolError>)
    ensures
        match sandbox_named(text::opt_text(params.sandbox)) {
            None => out matches Err(ToolError::InvalidParams(message)) && message@ == no_sandbox(
                params.sandbox->Some_0@,
            ),
            Some(sandbox) => match worktree_named(text::opt_text(params.worktree)) {
                None => out matches Err(ToolError::InvalidParams(message)) && message@
                    == no_worktree(params.worktree->Some_0@),
                Some(worktree) => out == Ok::<SpawnRequest, ToolError>(
                    SpawnRequest {
                        prompt: params.prompt,
                        model_key: params.model_key,
                        cwd: params.cwd,
                        sandbox,
                        judge_command: params.judge_command,
                        timeout_secs: params.timeout_secs,
                        worktree,
                        session: SessionTarget::New,
                        diff_first: match params.diff_first {
                            Some(wanted) => wanted,
                            None => true,
                        },
                        breaker_threshold: None,
                    },
                ),
            },
        },
{
    let sandbox = match parse_sandbox(&params.sandbox) {
        Ok(sandbox) => sandbox,
        Err(error) => {
            return Err(error);
        },
    };
    let worktree = match parse_worktree(&params.worktree) {
        Ok(worktree) => worktree,
        Err(error) => {
            return Err(error);
        },
    };
    Ok(
        SpawnRequest {
            prompt: params.prompt,
            model_key: params.model_key,
            cwd: params.cwd,
            sandbox,
            judge_command: params.judge_command,
            timeout_secs: params.timeout_secs,
            worktree,
            session: SessionTarget::New,
            diff_first: match params.diff_first {
                Some(wanted) => wanted,
                None => true,
            },
            breaker_threshold: None,
        },
    )
}

/// The task that is to be shown; all of them where none is named.
pub fn status_target(params: &StatusParams) -> (out: Result<Option<TaskId>, ToolError>)
    ensures
        match params.task_id {
            None => out == Ok::<Option<TaskId>, ToolError>(None),
            Some(raw) => match ids::uuid_parsed(raw@) {
                Some(bits) => out == Ok::<Option<TaskId>, ToolError>(Some(TaskId { bits })),
                None => out matches Err(ToolError::InvalidParams(message)) && message@
                    == "invalid task_id: "@ + raw@,
            },
        },
{
    match &params.task_id {
        None => Ok(None),
        Some(raw) => match parse_task_id(raw.as_str()) {
            Ok(id) => Ok(Some(id)),
            Err(error) => Err(error),
        },
    }
}

/// How many lines of an event stream are to be shown.
pub fn tail_lines(params: &TailParams) -> (out: usize)
    ensures
        out == match params.lines {
            Some(lines) => lines,
            None => DEFAULT_TAIL_LINES,
        },
{
    match params.lines {
        Some(lines) => lines,
        None => DEFAULT_TAIL_LINES,
    }
}

/// What is answered with the end of an event stream.
pub fn tail_body(lines: &Vec<String>) -> (out: String)
    ensures
        out@ == if lines@.len() == 0 {
            "（尚无事件）"@
        } else {
            text::joined(text::texts(lines@), "\n"@)
        },
{
    if lines.len() == 0 {
        "（尚无事件）".to_owned()
    } else {
        text::join(lines, "\n")
    }
}

/// Law: an answer with the end of an event stream, cut at its line feeds, gives
/// the lines back, one for each event that is shown.
pub proof fn law_tail_body_keeps_lines_apart(lines: Seq<Seq<char>>)
    requires
        lines.len() > 0,
        forall|i: int| 0 <= i < lines.len() ==> !(#[trigger] lines[i]).contains('\n'),
    ensures
        text::pieces(text::joined(lines, "\n"@), '\n') == lines,
{
    reveal_strlit("\n");
    assert("\n"@ =~= seq!['\n']);
    text::lemma_pieces_of_joined(lines, '\n');
}

/// What is answered when a task was interrupted.
pub fn interrupt_body(task: TaskId) -> (out: String)
    ensures
        out@ == "interrupt sent to "@ + task@,
{
    text::cat2("interrupt sent to ", task.to_string().as_str())
}

/// Whether an error is the client's: it named a model, a session or a task that
/// does not exist, cannot be had, or does not run.
pub open spec fn is_clients_fault(error: ServiceError) -> bool {
    ||| error is Registry
    ||| error is Ownership
    ||| error is SessionNotFound
    ||| error is SessionNotResumable
    ||| error is TaskNotFound
    ||| error is TaskNotRunning
}

/// What an error is reported as.
pub fn map_err(error: &ServiceError) -> (out: ToolError)
    ensures
        if is_clients_fault(*error) {
            out matches ToolError::InvalidParams(message) && message@ == error.words()
        } else {
            out matches ToolError::Internal(message) && message@ == error.words()
        },
{
    match error {
        ServiceError::Registry(_)
        | ServiceError::Ownership(_)
        | ServiceError::SessionNotFound { .. }
        | ServiceError::SessionNotResumable { .. }
        | ServiceError::TaskNotFound { .. }
        | ServiceError::TaskNotRunning { .. } => ToolError::InvalidParams(error.message()),
        _ => ToolError::Internal(error.message()),
    }
}

/// What is reported where an answer could not be put into words.
pub fn encode_failed(detail: &str) -> (out: ToolError)
    ensures
        out matches ToolError::Internal(message) && message@ == "encode reply: "@ + detail@,
{
    ToolError::Internal(text::cat2("encode reply: ", detail))
}

} // verus!
