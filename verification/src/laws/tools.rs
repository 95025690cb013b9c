//! What clients ask for through the tools, and what they are answered.

use crate::mcp;
use crate::mcp::{SpawnTaskParams, StatusParams, TailParams, ToolError};
use crate::registry::{TaskId, WorktreePolicy};
use crate::service::{ServiceError, SpawnRequest};
use crate::session::{SandboxMode, SessionId};
use crate::text;
use vstd::prelude::*;

verus! {

proof fn lemma_names_differ()
    ensures
        "read-only"@ != "workspace-write"@,
        "read-only"@ != "danger-full-access"@,
        "workspace-write"@ != "danger-full-access"@,
        "isolated"@ != "in-place"@,
{
    reveal_strlit("read-only");
    reveal_strlit("workspace-write");
    reveal_strlit("danger-full-access");
    reveal_strlit("isolated");
    reveal_strlit("in-place");
    assert("read-only"@.len() == 9);
    assert("workspace-write"@.len() == 15);
    assert("danger-full-access"@.len() == 18);
    assert("isolated"@[1] == 's');
    assert("in-place"@[1] == 'n');
}

/// Law: a client that names no sandbox gets one that may write to the directory
/// of the task; one that names a sandbox gets that one; and a name that is none
/// is refused, with the name in the answer.
pub proof fn law_sandboxes_are_read(raw: Option<String>, out: Result<SandboxMode, ToolError>)
    requires
        call_ensures(mcp::parse_sandbox, (&raw,), out),
    ensures
        raw is None ==> out is Ok && out->Ok_0 is WorkspaceWrite,
        raw matches Some(name) ==> {
            &&& name@ == "read-only"@ <==> out is Ok && out->Ok_0 is ReadOnly
            &&& name@ == "workspace-write"@ <==> out is Ok && out->Ok_0 is WorkspaceWrite
            &&& name@ == "danger-full-access"@ <==> out is Ok && out->Ok_0 is DangerFullAccess
            &&& out is Err ==> out->Err_0 is InvalidParams && text::occurs_in(
                out->Err_0->InvalidParams_0@,
                name@,
            )
        },
{
    lemma_names_differ();
    if out is Err {
        let whole = out->Err_0->InvalidParams_0@;
        let name = raw->Some_0@;
        let front = "invalid sandbox: "@;
        assert(whole.subrange(front.len() as int, (front.len() + name.len()) as int) =~= name);
        assert(text::stands_at(whole, name, front.len() as int));
    }
}

/// Law: a task is isolated unless its client says that it works in place.
pub proof fn law_places_of_work_are_read(
    raw: Option<String>,
    out: Result<WorktreePolicy, ToolError>,
)
    requires
        call_ensures(mcp::parse_worktree, (&raw,), out),
    ensures
        raw is None ==> out is Ok && out->Ok_0 is Isolated,
        raw matches Some(name) ==> {
            &&& name@ == "isolated"@ <==> out is Ok && out->Ok_0 is Isolated
            &&& name@ == "in-place"@ <==> out is Ok && out->Ok_0 is InPlace
            &&& out is Err ==> out->Err_0 is InvalidParams && text::occurs_in(
                out->Err_0->InvalidParams_0@,
                name@,
            )
        },
{
    lemma_names_differ();
    if out is Err {
        let whole = out->Err_0->InvalidParams_0@;
        let name = raw->Some_0@;
        let front = "invalid worktree: "@;
        assert(whole.subrange(front.len() as int, (front.len() + name.len()) as int) =~= name);
        assert(text::stands_at(whole, name, front.len() as int));
    }
}

/// Law: what a client asks for is what is requested: its prompt, model, directory,
/// judge and time limit, in a new session; the sandbox, the place of work and the
/// branch for review as it names them, and otherwise the careful choice.
pub proof fn law_requests_are_taken_over(
    params: SpawnTaskParams,
    out: Result<SpawnRequest, ToolError>,
    sandbox: Result<SandboxMode, ToolError>,
    worktree: Result<WorktreePolicy, ToolError>,
)
    requires
        call_ensures(mcp::spawn_request, (params,), out),
        call_ensures(mcp::parse_sandbox, (&params.sandbox,), sandbox),
        call_ensures(mcp::parse_worktree, (&params.worktree,), worktree),
    ensures
        out is Ok <==> sandbox is Ok && worktree is Ok,
        out is Err ==> out->Err_0 is InvalidParams,
        out matches Ok(request) ==> {
            &&& request.prompt@ == params.prompt@
            &&& request.model_key@ == params.model_key@
            &&& request.cwd@ == params.cwd@
            &&& request.judge_command == params.judge_command
            &&& request.timeout_secs == params.timeout_secs
            &&& request.session is New
            &&& request.breaker_threshold is None
            &&& request.sandbox == sandbox->Ok_0
            &&& request.worktree == worktree->Ok_0
            &&& params.sandbox is None ==> request.sandbox is WorkspaceWrite
            &&& params.worktree is None ==> request.worktree is Isolated
            &&& params.diff_first is None ==> request.diff_first
            &&& params.diff_first matches Some(wanted) ==> request.diff_first == wanted
        },
{
}

/// Law: an identifier that was written is read back as the same one, and what is
/// no identifier is refused, with the text in the answer.
pub proof fn law_identifiers_are_read(
    task: TaskId,
    session: SessionId,
    task_text: String,
    session_text: String,
    raw: &str,
    other: &str,
    of_task: Result<TaskId, ToolError>,
    of_session: Result<SessionId, ToolError>,
)
    requires
        call_ensures(TaskId::to_string, (&task,), task_text),
        call_ensures(SessionId::to_string, (&session,), session_text),
        call_ensures(mcp::parse_task_id, (raw,), of_task),
        call_ensures(mcp::parse_session_id, (other,), of_session),
    ensures
        raw@ == task_text@ ==> of_task is Ok && of_task->Ok_0 == task,
        other@ == session_text@ ==> of_session is Ok && of_session->Ok_0 == session,
        of_task is Err ==> of_task->Err_0 is InvalidParams && text::has_suffix(
            of_task->Err_0->InvalidParams_0@,
            raw@,
        ),
        of_session is Err ==> of_session->Err_0 is InvalidParams && text::has_suffix(
            of_session->Err_0->InvalidParams_0@,
            other@,
        ),
{
    if of_task is Err {
        let whole = of_task->Err_0->InvalidParams_0@;
        assert(whole.subrange(whole.len() - raw@.len(), whole.len() as int) =~= raw@);
    }
    if of_session is Err {
        let whole = of_session->Err_0->InvalidParams_0@;
        assert(whole.subrange(whole.len() - other@.len(), whole.len() as int) =~= other@);
    }
}

/// Law: a client that names a task is shown that task, and one that names none is
/// shown all; a name that is none is refused and never taken for all.
pub proof fn law_status_targets_are_read(
    params: StatusParams,
    out: Result<Option<TaskId>, ToolError>,
    raw: &str,
    one: Result<TaskId, ToolError>,
)
    requires
        call_ensures(mcp::status_target, (&params,), out),
        params.task_id matches Some(named) ==> raw@ == named@,
        call_ensures(mcp::parse_task_id, (raw,), one),
    ensures
        params.task_id is None ==> out is Ok && out->Ok_0 is None,
        params.task_id is Some && one is Ok ==> out is Ok && out->Ok_0 == Some(one->Ok_0),
        params.task_id is Some && one is Err ==> out is Err && out->Err_0 is InvalidParams,
{
}

/// Law: as many lines are shown as were asked for, and twenty where nobody says
/// how many.
pub proof fn law_tails_are_as_long_as_asked(params: TailParams, out: usize)
    requires
        call_ensures(mcp::tail_lines, (&params,), out),
    ensures
        params.lines matches Some(lines) ==> out == lines,
        params.lines is None ==> out == 20,
{
}

/// Law: the end of a stream is answered with all of its lines in order, and a
/// stream that has none is said to have none.
pub proof fn law_tails_are_answered_whole(lines: Vec<String>, out: String)
    requires
        call_ensures(mcp::tail_body, (&lines,), out),
    ensures
        lines@.len() == 0 ==> out@ == "（尚无事件）"@,
        lines@.len() > 0 && (forall|i: int|
            0 <= i < lines@.len() ==> !(#[trigger] lines@[i])@.contains('\n')) ==> text::pieces(
            out@,
            '\n',
        ) == text::texts(lines@),
{
    if lines@.len() > 0 && (forall|i: int|
        0 <= i < lines@.len() ==> !(#[trigger] lines@[i])@.contains('\n')) {
        let all = text::texts(lines@);
        assert forall|i: int| 0 <= i < all.len() implies !(#[trigger] all[i]).contains('\n') by {
            assert(all[i] == lines@[i]@);
        }
        mcp::law_tail_body_keeps_lines_apart(all);
    }
}

/// Law: the answer to an interruption names the task.
pub proof fn law_interruptions_are_answered(task: TaskId, out: String)
    requires
        call_ensures(mcp::interrupt_body, (task,), out),
    ensures
        text::has_suffix(out@, task@),
        text::has_prefix(out@, "interrupt sent to "@),
{
    let front = "interrupt sent to "@;
    assert(out@.subrange(out@.len() - task@.len(), out@.len() as int) =~= task@);
    assert(out@.subrange(0, front.len() as int) =~= front);
}

/// Law: an error is the client's where it named something that does not exist, is
/// held or does not run, and it is this side's in every other case; either way
/// the client reads the error in words.
pub proof fn law_errors_are_laid_at_the_right_door(
    error: ServiceError,
    out: ToolError,
    said: String,
)
    requires
        call_ensures(mcp::map_err, (&error,), out),
        call_ensures(ServiceError::message, (&error,), said),
    ensures
        error is Registry || error is Ownership || error is SessionNotFound || error
            is SessionNotResumable || error is TaskNotFound || error is TaskNotRunning ==> out
            is InvalidParams && out->InvalidParams_0@ == said@,
        error is Lock || error is Store || error is Transition || error is Worktree || error is Exec
            || error is Preflight || error is Io || error is Internal ==> out is Internal
            && out->Internal_0@ == said@,
{
}

/// Law: an error says what it is about: the session, the task, the model and the
/// address, or what was being done.
pub proof fn law_errors_name_what_they_are_about(error: ServiceError, said: String)
    requires
        call_ensures(ServiceError::message, (&error,), said),
    ensures
        error matches ServiceError::SessionNotFound { session } ==> said@ == "session "@ + session@
            + " not found"@,
        error matches ServiceError::SessionNotResumable { session } ==> said@ == "session "@
            + session@ + " has no resumable rollout (or model affinity is unresolvable)"@,
        error matches ServiceError::TaskNotFound { task } ==> said@ == "task "@ + task@
            + " not found"@,
        error matches ServiceError::TaskNotRunning { task } ==> said@ == "task "@ + task@
            + " is not running"@,
        error matches ServiceError::Preflight { model_key, url, verdict } ==> said@
            == "preflight 未通过（"@ + model_key@ + " @ "@ + url@ + "）："@ + verdict@,
        error matches ServiceError::Io { context, .. } ==> said@ == context@,
        error matches ServiceError::Internal { message } ==> said@ == message@,
        error matches ServiceError::Lock(inner) ==> said@ == inner.words(),
        error matches ServiceError::Store(inner) ==> said@ == inner.words(),
        error matches ServiceError::Registry(inner) ==> said@ == inner.words(),
        error matches ServiceError::Ownership(inner) ==> said@ == inner.words(),
        error matches ServiceError::Transition(inner) ==> said@ == inner.words(),
        error matches ServiceError::Worktree(inner) ==> said@ == inner.words(),
        error matches ServiceError::Exec(inner) ==> said@ == inner.words(),
{
}

/// Law: an answer that could not be written is this side's fault.
pub proof fn law_unwritten_answers_are_reported(detail: &str, out: ToolError)
    requires
        call_ensures(mcp::encode_failed, (detail,), out),
    ensures
        out is Internal,
        text::has_suffix(out->Internal_0@, detail@),
{
    let whole = out->Internal_0@;
    assert(whole.subrange(whole.len() - detail@.len(), whole.len() as int) =~= detail@);
}

} // verus!
