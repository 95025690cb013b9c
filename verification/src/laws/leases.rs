//! Who holds a session, and which steps a task may take.

use crate::clock;
use crate::clock::Timestamp;
use crate::ids;
use crate::registry::{JudgeOutcome, TaskId, TaskRecord, TaskSpec, TaskState, TransitionError};
use crate::service::{RecordWrite, Supervisor};
use crate::session::{
    ApprovalPolicy, ModelAffinity, OwnershipError, SandboxMode, SessionId, SessionOwner,
    SessionRecord,
};
use crate::text;
use vstd::prelude::*;

verus! {

/// Whether two records are of the same session, apart from who holds it and when
/// it was changed.
pub open spec fn same_session(a: SessionRecord, b: SessionRecord) -> bool {
    &&& a.schema_version == b.schema_version
    &&& a.id == b.id
    &&& a.rollout == b.rollout
    &&& a.model == b.model
    &&& a.sandbox == b.sandbox
    &&& a.approval == b.approval
    &&& a.cwd == b.cwd
    &&& a.created_at == b.created_at
}

/// Law: a session is granted to whoever asks for it while it is free, and to its
/// holder again; nobody else gets it, the holder is named to them, and a refused
/// claim changes nothing.
pub proof fn law_claims_are_exclusive(
    session: &mut SessionRecord,
    task: TaskId,
    now: Timestamp,
    out: Result<(), OwnershipError>,
)
    requires
        call_ensures(SessionRecord::claim_at, (session, task, now), out),
    ensures
        out is Ok <==> old(session).owner is Free || old(session).owner == (SessionOwner::Task {
            task,
        }),
        out is Ok ==> final(session).owner == (SessionOwner::Task { task }),
        old(session).owner is Free ==> final(session).updated_at == now,
        !(old(session).owner is Free) ==> *final(session) == *old(session),
        same_session(*final(session), *old(session)),
        out matches Err(error) ==> error == (OwnershipError::Held {
            session: old(session).id,
            holder: old(session).owner->task,
            requester: task,
        }),
{
}

/// Law: the same of a claim at the current instant.
pub proof fn law_claims_now_are_exclusive(
    session: &mut SessionRecord,
    task: TaskId,
    out: Result<(), OwnershipError>,
)
    requires
        call_ensures(SessionRecord::claim, (session, task), out),
    ensures
        out is Ok <==> old(session).owner is Free || old(session).owner == (SessionOwner::Task {
            task,
        }),
        out is Ok ==> final(session).owner == (SessionOwner::Task { task }),
        !(old(session).owner is Free) ==> *final(session) == *old(session),
        same_session(*final(session), *old(session)),
        out matches Err(error) ==> error == (OwnershipError::Held {
            session: old(session).id,
            holder: old(session).owner->task,
            requester: task,
        }),
{
}

/// Law: only the holder frees a session. Whoever else tries is told who holds it,
/// or that nobody does, and changes nothing.
pub proof fn law_only_the_holder_releases(
    session: &mut SessionRecord,
    task: TaskId,
    now: Timestamp,
    out: Result<(), OwnershipError>,
)
    requires
        call_ensures(SessionRecord::release_at, (session, task, now), out),
    ensures
        out is Ok <==> old(session).owner == (SessionOwner::Task { task }),
        out is Ok ==> final(session).owner is Free && final(session).updated_at == now,
        out is Err ==> *final(session) == *old(session),
        same_session(*final(session), *old(session)),
        old(session).owner is Free ==> out == Err::<(), OwnershipError>(
            OwnershipError::AlreadyFree { session: old(session).id, requester: task },
        ),
        !(old(session).owner is Free) && out is Err ==> out == Err::<(), OwnershipError>(
            OwnershipError::NotHolder {
                session: old(session).id,
                holder: old(session).owner->task,
                requester: task,
            },
        ),
{
}

/// Law: the same of a release at the current instant.
pub proof fn law_only_the_holder_releases_now(
    session: &mut SessionRecord,
    task: TaskId,
    out: Result<(), OwnershipError>,
)
    requires
        call_ensures(SessionRecord::release, (session, task), out),
    ensures
        out is Ok <==> old(session).owner == (SessionOwner::Task { task }),
        out is Ok ==> final(session).owner is Free,
        out is Err ==> *final(session) == *old(session),
        same_session(*final(session), *old(session)),
        old(session).owner is Free ==> out == Err::<(), OwnershipError>(
            OwnershipError::AlreadyFree { session: old(session).id, requester: task },
        ),
        !(old(session).owner is Free) && out is Err ==> out == Err::<(), OwnershipError>(
            OwnershipError::NotHolder {
                session: old(session).id,
                holder: old(session).owner->task,
                requester: task,
            },
        ),
{
}

/// Law: claiming and releasing gives back the session as it was, and releasing it
/// once more is refused.
pub proof fn law_releasing_undoes_claiming(
    first: &mut SessionRecord,
    second: &mut SessionRecord,
    third: &mut SessionRecord,
    task: TaskId,
    now: Timestamp,
    later: Timestamp,
    claimed: Result<(), OwnershipError>,
    released: Result<(), OwnershipError>,
    again: Result<(), OwnershipError>,
)
    requires
        old(first).owner is Free,
        call_ensures(SessionRecord::claim_at, (first, task, now), claimed),
        *old(second) == *final(first),
        call_ensures(SessionRecord::release_at, (second, task, later), released),
        *old(third) == *final(second),
        call_ensures(SessionRecord::release_at, (third, task, later), again),
    ensures
        claimed is Ok,
        released is Ok,
        again is Err,
        final(second).owner is Free,
        same_session(*final(second), *old(first)),
{
}

/// Law: marking a session as changed changes nothing but the time.
pub proof fn law_touching_changes_only_the_time(
    session: &mut SessionRecord,
    other: &mut SessionRecord,
    now: Timestamp,
    done: (),
    again: (),
)
    requires
        call_ensures(SessionRecord::touch_at, (session, now), done),
        call_ensures(SessionRecord::touch, (other,), again),
    ensures
        same_session(*final(session), *old(session)),
        final(session).owner == old(session).owner,
        final(session).updated_at == now,
        same_session(*final(other), *old(other)),
        final(other).owner == old(other).owner,
        clock::is_utc_instant(final(other).updated_at.text@),
{
}

/// Law: a new session is free, has no conversation, and carries the model, the
/// sandbox, the approval and the directory that it was made for.
pub proof fn law_new_sessions_are_free(
    id: SessionId,
    model: ModelAffinity,
    sandbox: SandboxMode,
    approval: ApprovalPolicy,
    cwd: String,
    now: Timestamp,
    at: SessionRecord,
    fresh: SessionRecord,
)
    requires
        call_ensures(SessionRecord::new_at, (id, model, sandbox, approval, cwd, now), at),
        call_ensures(SessionRecord::new, (model, sandbox, approval, cwd), fresh),
    ensures
        at.id == id,
        at.created_at == now,
        at.updated_at == now,
        at.owner is Free,
        fresh.owner is Free,
        at.schema_version == 1,
        fresh.schema_version == 1,
        at.rollout.conversation_id is None,
        at.rollout.rollout_path is None,
        fresh.rollout.conversation_id is None,
        fresh.rollout.rollout_path is None,
        at.model == model,
        fresh.model == model,
        at.sandbox == sandbox,
        fresh.sandbox == sandbox,
        at.approval == approval,
        fresh.approval == approval,
        at.cwd == cwd,
        fresh.cwd == cwd,
        fresh.created_at == fresh.updated_at,
        ids::is_random_uuid(fresh.id.bits),
{
}

/// Law: a refusal names the session and everybody involved.
pub proof fn law_refusals_name_everybody(error: OwnershipError, said: String)
    requires
        call_ensures(OwnershipError::message, (&error,), said),
    ensures
        error matches OwnershipError::Held { session, holder, requester } ==> said@ == "session "@
            + session@ + " is held by task "@ + holder@ + "; task "@ + requester@
            + " cannot claim it"@,
        error matches OwnershipError::NotHolder { session, holder, requester } ==> said@
            == "session "@ + session@ + " is held by task "@ + holder@ + "; task "@ + requester@
            + " cannot release it"@,
        error matches OwnershipError::AlreadyFree { session, requester } ==> said@ == "session "@
            + session@ + " is already free; task "@ + requester@ + " released nothing"@,
{
}

/// Whether a task in the state `from` may go on to the state `to`.
pub open spec fn may_follow(from: TaskState, to: TaskState) -> bool {
    match from {
        TaskState::Pending => match to {
            TaskState::Running { .. } => true,
            TaskState::Failed { .. } => true,
            TaskState::Interrupted => true,
            TaskState::Pending => false,
            TaskState::Completed { .. } => false,
        },
        TaskState::Running { .. } => match to {
            TaskState::Pending => false,
            TaskState::Running { .. } => true,
            TaskState::Completed { .. } => true,
            TaskState::Failed { .. } => true,
            TaskState::Interrupted => true,
        },
        TaskState::Completed { .. } => false,
        TaskState::Failed { .. } => false,
        TaskState::Interrupted => false,
    }
}

/// Law: a task waits, runs and ends. It ends once, it completes only after it has
/// run, and nothing leads back to its start.
pub proof fn law_steps_of_a_task(from: TaskState, to: TaskState, yes: bool, over: bool)
    requires
        call_ensures(TaskState::can_transition_to, (&from, &to), yes),
        call_ensures(TaskState::is_terminal, (&from,), over),
    ensures
        yes <==> may_follow(from, to),
        over <==> from is Completed || from is Failed || from is Interrupted,
        over ==> !yes,
{
}

/// Law: a legal step changes the state and the time of a task and nothing else;
/// an illegal one changes nothing, and is reported with both states.
pub proof fn law_steps_change_only_the_state(
    task: &mut TaskRecord,
    next: TaskState,
    now: Timestamp,
    out: Result<(), TransitionError>,
)
    requires
        call_ensures(TaskRecord::transition_at, (task, next, now), out),
    ensures
        out is Ok <==> may_follow(old(task).state, next),
        out is Ok ==> final(task).state == next && final(task).updated_at == now,
        out is Err ==> *final(task) == *old(task),
        out matches Err(error) ==> error.task == old(task).id && error.from == old(task).state
            && error.to == next,
        final(task).id == old(task).id,
        final(task).spec == old(task).spec,
        final(task).session_id == old(task).session_id,
        final(task).worktree_path == old(task).worktree_path,
        final(task).events_path == old(task).events_path,
        final(task).retries == old(task).retries,
        final(task).usage == old(task).usage,
        final(task).last_agent_message == old(task).last_agent_message,
        final(task).diff_stat == old(task).diff_stat,
        final(task).created_at == old(task).created_at,
        final(task).schema_version == old(task).schema_version,
{
}

/// Law: the same of a step at the current instant.
pub proof fn law_steps_now_change_only_the_state(
    task: &mut TaskRecord,
    next: TaskState,
    out: Result<(), TransitionError>,
)
    requires
        call_ensures(TaskRecord::transition, (task, next), out),
    ensures
        out is Ok <==> may_follow(old(task).state, next),
        out is Ok ==> final(task).state == next,
        out is Err ==> *final(task) == *old(task),
        out matches Err(error) ==> error.task == old(task).id && error.from == old(task).state
            && error.to == next,
        final(task).id == old(task).id,
        final(task).spec == old(task).spec,
        final(task).session_id == old(task).session_id,
        final(task).retries == old(task).retries,
        final(task).usage == old(task).usage,
        final(task).created_at == old(task).created_at,
{
}

/// Law: a new task waits, with what was asked for and nothing else known of it.
pub proof fn law_new_tasks_wait(
    id: TaskId,
    spec: TaskSpec,
    now: Timestamp,
    at: TaskRecord,
    fresh: TaskRecord,
)
    requires
        call_ensures(TaskRecord::new_at, (id, spec, now), at),
        call_ensures(TaskRecord::new, (spec,), fresh),
    ensures
        at.id == id,
        at.created_at == now,
        at.updated_at == now,
        at.spec == spec,
        fresh.spec == spec,
        at.state is Pending,
        fresh.state is Pending,
        at.schema_version == 1,
        fresh.schema_version == 1,
        at.session_id is None && fresh.session_id is None,
        at.worktree_path is None && fresh.worktree_path is None,
        at.events_path is None && fresh.events_path is None,
        at.retries == 0 && fresh.retries == 0,
        at.usage is None && fresh.usage is None,
        at.last_agent_message is None && fresh.last_agent_message is None,
        at.diff_stat is None && fresh.diff_stat is None,
        fresh.created_at == fresh.updated_at,
        ids::is_random_uuid(fresh.id.bits),
{
}

/// Law: a task that lets go of its session frees it, if it holds it, and touches
/// nothing else; the freed session is written down.
pub proof fn law_letting_go_frees_the_session(
    supervisor: &mut Supervisor,
    session: SessionId,
    task: TaskId,
    write: Option<RecordWrite>,
    other: u128,
)
    requires
        call_ensures(Supervisor::release_session, (supervisor, session, task), write),
    ensures
        ({
            let there = old(supervisor)@.sessions.contains_key(session.bits);
            let before = old(supervisor)@.sessions[session.bits];
            let after = final(supervisor)@.sessions[session.bits];
            let held = there && before.owner == (SessionOwner::Task { task });
            &&& held ==> after.owner is Free && same_session(after, before)
            &&& held ==> write is Some && (write->Some_0 matches RecordWrite::Session { record, .. }
                && record == after)
            &&& !held ==> write is None && final(supervisor)@ == old(supervisor)@
        }),
        final(supervisor)@.tasks == old(supervisor)@.tasks,
        final(supervisor)@.running == old(supervisor)@.running,
        other != session.bits ==> {
            &&& final(supervisor)@.sessions.contains_key(other)
                == old(supervisor)@.sessions.contains_key(other)
            &&& old(supervisor)@.sessions.contains_key(other) ==> final(supervisor)@.sessions[other]
                == old(supervisor)@.sessions[other]
        },
{
}

/// Law: what diagnostics say of a state tells states apart, and an illegal step is
/// reported with the task and both states.
pub proof fn law_states_in_diagnostics(
    state: TaskState,
    shown: String,
    error: TransitionError,
    said: String,
    from: String,
    to: String,
)
    requires
        call_ensures(TaskState::show, (&state,), shown),
        call_ensures(TransitionError::message, (&error,), said),
        call_ensures(TaskState::show, (&error.from,), from),
        call_ensures(TaskState::show, (&error.to,), to),
    ensures
        state is Pending ==> shown@ == "Pending"@,
        state is Interrupted ==> shown@ == "Interrupted"@,
        state matches TaskState::Running { pid: None } ==> shown@ == "Running { pid: "@ + "None"@
            + " }"@,
        state matches TaskState::Running { pid: Some(n) } ==> shown@ == "Running { pid: "@ + (
        "Some("@ + text::decimal(n as nat) + ")"@) + " }"@,
        state matches TaskState::Completed { judge: JudgeOutcome::Passed } ==> shown@
            == "Completed { judge: "@ + "Passed"@ + " }"@,
        state matches TaskState::Completed { judge: JudgeOutcome::NotJudged } ==> shown@
            == "Completed { judge: "@ + "NotJudged"@ + " }"@,
        state matches TaskState::Completed { judge: JudgeOutcome::Failed { exit_code } } ==> shown@
            == "Completed { judge: "@ + ("Failed { exit_code: "@ + text::signed_decimal(
            exit_code as int,
        ) + " }"@) + " }"@,
        state matches TaskState::Failed { error: why } ==> shown@ == "Failed { error: "@
            + text::debug_quoted(why@) + " }"@,
        said@ == "illegal task state transition for "@ + error.task@ + ": "@ + from@ + " -> "@
            + to@,
{
}

} // verus!
