//! From the end of a run to the end of its task.

use crate::acceptance::{JudgeRun, StreamWatch};
use crate::events::ThreadEvent;
use crate::executor::{ExecError, ExecutorEvent, TaskExit};
use crate::laws::endings;
use crate::laws::watch;
use crate::registry::{JudgeOutcome, TaskState};
use crate::service::driver;
use crate::service::driver::{
    AttemptEnd, Closing, Drive, Judging, NextStep, RelaunchStep, Settlement, WatchStep,
};
use crate::service::{RecordWrite, Supervisor};
use crate::session::SessionOwner;
use crate::text;
use crate::worktree::ReclaimMode;
use vstd::prelude::*;

verus! {

/// Law: a task that reports success is judged where a judge is registered for it.
/// The judge runs the registered command where the task has worked: in its
/// checkout, and in the directory that it was given where it has none. Only a
/// task without a judge is settled unjudged.
pub proof fn law_registered_judges_are_asked(
    supervisor: &mut Supervisor,
    drive: Drive,
    exit: TaskExit,
    watch: StreamWatch,
    next: NextStep,
)
    requires
        call_ensures(
            Supervisor::attempt_ended,
            (supervisor, drive, AttemptEnd::Exited(exit), &watch),
            next,
        ),
        old(supervisor)@.tasks.contains_key(drive.task_id.bits),
        endings::ended_clean(exit),
        watch@.tripped is None,
    ensures
        ({
            let task = old(supervisor)@.tasks[drive.task_id.bits];
            &&& next is Judge <==> task.spec.judge is Some
            &&& next is Settle <==> task.spec.judge is None
            &&& next matches NextStep::Judge(judging) ==> {
                &&& drive.checkout is Some ==> judging.cwd@ == drive.checkout->Some_0.task_cwd@
                &&& drive.checkout is None ==> judging.cwd@ == task.spec.cwd@
                &&& text::has_suffix(judging.script@, task.spec.judge->Some_0.command@)
                &&& text::has_prefix(judging.script@, "set -o pipefail; "@)
                &&& judging.script@.len() == "set -o pipefail; "@.len()
                    + task.spec.judge->Some_0.command@.len()
                &&& judging.task_id == drive.task_id
                &&& judging.session_id == drive.session_id
                &&& judging.checkout == drive.checkout
                &&& judging.usage == exit.usage
                &&& judging.last_agent_message == exit.last_agent_message
                &&& judging.reclaim == ReclaimMode::KeepBranch <==> task.spec.diff_first
            }
            &&& next matches NextStep::Settle(settlement) ==> settlement.state == (
            TaskState::Completed { judge: JudgeOutcome::NotJudged })
        }),
        final(supervisor)@ == old(supervisor)@,
{
    let task = old(supervisor)@.tasks[drive.task_id.bits];
    if task.spec.judge is Some {
        let command = task.spec.judge->Some_0.command@;
        let script = next->Judge_0.script@;
        let front = "set -o pipefail; "@;
        assert(script == front + command);
        assert(script.subrange(front.len() as int, script.len() as int) =~= command);
        assert(script.subrange(0, front.len() as int) =~= front);
    }
}

/// Law: no task with a judge ends unjudged after a success, and none without one
/// ends judged, however its run ended.
pub proof fn law_unjudged_means_without_a_judge(
    supervisor: &mut Supervisor,
    drive: Drive,
    end: AttemptEnd,
    watch: StreamWatch,
    next: NextStep,
)
    requires
        call_ensures(Supervisor::attempt_ended, (supervisor, drive, end, &watch), next),
        old(supervisor)@.tasks.contains_key(drive.task_id.bits),
    ensures
        next matches NextStep::Settle(settlement) && settlement.state is Completed ==> {
            &&& next->Settle_0.state->judge is NotJudged
            &&& old(supervisor)@.tasks[drive.task_id.bits].spec.judge is None
        },
        next is Judge ==> old(supervisor)@.tasks[drive.task_id.bits].spec.judge is Some,
        next is Judge ==> end is Exited && endings::ended_clean(end->Exited_0),
{
}

/// Law: a run that did not succeed, and is not launched again, is settled by what
/// went wrong: stopped for its failures, interrupted, late, broken off, or ended
/// with another code than zero. Nobody judges it.
pub proof fn law_failed_runs_are_settled_as_failed(
    supervisor: &mut Supervisor,
    drive: Drive,
    exit: TaskExit,
    watch: StreamWatch,
    next: NextStep,
)
    requires
        call_ensures(
            Supervisor::attempt_ended,
            (supervisor, drive, AttemptEnd::Exited(exit), &watch),
            next,
        ),
        !(next is Relaunch),
        watch@.tripped is Some || !endings::ended_clean(exit),
    ensures
        next is Settle,
        ({
            let settled = next->Settle_0;
            &&& settled.task_id == drive.task_id
            &&& settled.session_id == drive.session_id
            &&& settled.checkout == drive.checkout
            &&& settled.usage == exit.usage
            &&& settled.last_agent_message == exit.last_agent_message
            &&& settled.state is Interrupted <==> watch@.tripped is None && exit.interrupted
            &&& settled.state is Failed <==> !(watch@.tripped is None && exit.interrupted)
            &&& watch@.tripped is Some ==> settled.state->error@ == watch@.tripped->Some_0
            &&& watch@.tripped is None && !exit.interrupted && !exit.timed_out
                && exit.fatal_error is Some ==> settled.state->error@ == exit.fatal_error->Some_0@
            &&& watch@.tripped is None && !exit.interrupted && !exit.timed_out
                && exit.fatal_error is None && exit.turn_failed is Some
                ==> settled.state->error@ == exit.turn_failed->Some_0@
            &&& watch@.tripped is None && !exit.interrupted && exit.timed_out
                ==> settled.state->error@ == "任务级硬超时触发，进程组已终止（#9）"@
        }),
        final(supervisor)@ == old(supervisor)@,
{
}

/// Law: what a settled run has changed is kept for review where its task asks for
/// that, unless it was interrupted; a task that is not known any more is taken to
/// ask for it.
pub proof fn law_branches_of_settled_runs(
    supervisor: &mut Supervisor,
    drive: Drive,
    exit: TaskExit,
    watch: StreamWatch,
    next: NextStep,
)
    requires
        call_ensures(
            Supervisor::attempt_ended,
            (supervisor, drive, AttemptEnd::Exited(exit), &watch),
            next,
        ),
    ensures
        ({
            let known = old(supervisor)@.tasks.contains_key(drive.task_id.bits);
            let wanted = !known || old(supervisor)@.tasks[drive.task_id.bits].spec.diff_first;
            &&& next matches NextStep::Settle(settled) ==> (settled.reclaim
                == ReclaimMode::KeepBranch <==> wanted && !(settled.state is Interrupted))
            &&& next matches NextStep::Judge(judging) ==> (judging.reclaim
                == ReclaimMode::KeepBranch <==> wanted)
        }),
{
}

/// Law: a run that could not be carried out fails its task, says why, and leaves
/// no branch.
pub proof fn law_breakdowns_fail_the_task(
    supervisor: &mut Supervisor,
    drive: Drive,
    end: AttemptEnd,
    watch: StreamWatch,
    next: NextStep,
    said: String,
)
    requires
        call_ensures(Supervisor::attempt_ended, (supervisor, drive, end, &watch), next),
        !(end is Exited),
        end matches AttemptEnd::Broken(error) ==> call_ensures(ExecError::message, (&error,), said),
        end matches AttemptEnd::Panicked { error } ==> said == error,
    ensures
        next is Settle,
        next->Settle_0.state is Failed,
        text::has_suffix(next->Settle_0.state->error@, said@),
        end is Broken ==> next->Settle_0.state->error@ == "executor: "@ + said@,
        end is Panicked ==> next->Settle_0.state->error@ == "executor task panicked: "@ + said@,
        next->Settle_0.reclaim == ReclaimMode::DeleteBranch,
        next->Settle_0.task_id == drive.task_id,
        next->Settle_0.session_id == drive.session_id,
        next->Settle_0.checkout == drive.checkout,
        next->Settle_0.usage is None,
        next->Settle_0.last_agent_message is None,
        final(supervisor)@ == old(supervisor)@,
{
    let error = next->Settle_0.state->error@;
    let at = error.len() - said@.len();
    assert(error.subrange(at, error.len() as int) =~= said@);
}

/// Law: a run that failed on the way to the model is launched again as it was,
/// with one more attempt counted and noted, and nothing else is changed. No other
/// run is.
pub proof fn law_repeated_runs_are_the_same_runs(
    supervisor: &mut Supervisor,
    drive: Drive,
    end: AttemptEnd,
    watch: StreamWatch,
    next: NextStep,
    other: u128,
)
    requires
        call_ensures(Supervisor::attempt_ended, (supervisor, drive, end, &watch), next),
    ensures
        next is Relaunch ==> {
            let again = next->drive;
            &&& end is Exited
            &&& again.task_id == drive.task_id
            &&& again.session_id == drive.session_id
            &&& again.checkout == drive.checkout
            &&& again.plan == drive.plan
            &&& again.events_path == drive.events_path
            &&& again.breaker_threshold == drive.breaker_threshold
            &&& again.attempt == drive.attempt + 1
            &&& 1 <= again.attempt <= 2
            &&& watch::failed_on_the_way(end->Exited_0, watch@.tail)
            &&& !watch@.acted
            &&& !endings::ended_clean(end->Exited_0)
            &&& old(supervisor)@.tasks.contains_key(drive.task_id.bits) ==> {
                let before = old(supervisor)@.tasks[drive.task_id.bits];
                let after = final(supervisor)@.tasks[drive.task_id.bits];
                &&& after.retries == again.attempt
                &&& text::opt_text(after.events_path) == Some(next->Relaunch_events_path@)
                &&& after.state == before.state
                &&& after.spec == before.spec
                &&& after.session_id == before.session_id
                &&& next->Relaunch_write is Some
                &&& next->Relaunch_write->Some_0 matches RecordWrite::Task { record, .. }
                    && record == after
            }
            &&& other != drive.task_id.bits ==> {
                &&& final(supervisor)@.tasks.contains_key(other)
                    == old(supervisor)@.tasks.contains_key(other)
                &&& old(supervisor)@.tasks.contains_key(other) ==> final(supervisor)@.tasks[other]
                    == old(supervisor)@.tasks[other]
            }
            &&& final(supervisor)@.sessions == old(supervisor)@.sessions
            &&& final(supervisor)@.running == old(supervisor)@.running
        },
        end is Exited && !endings::ended_clean(end->Exited_0) && !end->Exited_0.interrupted
            && !end->Exited_0.timed_out && !watch@.acted && watch@.tripped is None && drive.attempt
            < 2 && watch::failed_on_the_way(end->Exited_0, watch@.tail) ==> next is Relaunch,
{
    if end is Exited {
        watch::lemma_same_blame(end->Exited_0, watch@.tail);
    }
}

/// Law: a task is settled as its judge says, and as nothing else; what is known
/// of its run is kept.
pub proof fn law_judged_tasks_end_as_the_judge_says(
    judging: Judging,
    run: JudgeRun,
    out: Settlement,
)
    requires
        call_ensures(driver::settle_judged, (judging, run), out),
    ensures
        out.state is Completed,
        out.state->judge is Passed <==> run is Exited && run->code == Some(0i32),
        !(out.state->judge is NotJudged),
        run is NotStarted ==> out.state->judge is Failed && out.state->judge->exit_code == 127,
        run is TimedOut ==> out.state->judge is Failed && out.state->judge->exit_code == 124,
        run is Lost ==> out.state->judge is Failed && out.state->judge->exit_code == -1,
        run is Exited && run->code is None ==> out.state->judge is Failed
            && out.state->judge->exit_code == -1,
        run is Exited && run->code is Some && run->code != Some(0i32) ==> out.state->judge is Failed
            && out.state->judge->exit_code == run->code->Some_0,
        out.task_id == judging.task_id,
        out.session_id == judging.session_id,
        out.usage == judging.usage,
        out.last_agent_message == judging.last_agent_message,
        out.checkout == judging.checkout,
        out.reclaim == judging.reclaim,
{
}

/// Law: the conversation of a session is noted as soon as it is known, is written
/// down, and replaces what was noted before; who holds the session and everything
/// else stays.
pub proof fn law_conversations_are_noted_at_once(
    supervisor: &mut Supervisor,
    drive: Drive,
    watch: &mut StreamWatch,
    thread_id: String,
    step: WatchStep,
    other: u128,
)
    requires
        old(watch).wf(),
        call_ensures(
            Supervisor::observe,
            (
                supervisor,
                &drive,
                watch,
                &ExecutorEvent::Parsed(ThreadEvent::ThreadStarted { thread_id }),
            ),
            step,
        ),
        old(supervisor)@.sessions.contains_key(drive.session_id.bits),
    ensures
        ({
            let before = old(supervisor)@.sessions[drive.session_id.bits];
            let after = final(supervisor)@.sessions[drive.session_id.bits];
            &&& text::opt_text(after.rollout.conversation_id) == Some(thread_id@)
            &&& after.owner == before.owner
            &&& after.model == before.model
            &&& after.sandbox == before.sandbox
            &&& after.cwd == before.cwd
            &&& after.id == before.id
            &&& after.created_at == before.created_at
            &&& step.write is Some
            &&& step.write->Some_0 matches RecordWrite::Session { record, .. } && record == after
        }),
        !step.kill,
        final(supervisor)@.tasks == old(supervisor)@.tasks,
        final(supervisor)@.running == old(supervisor)@.running,
        other != drive.session_id.bits && old(supervisor)@.sessions.contains_key(other)
            ==> final(supervisor)@.sessions[other] == old(supervisor)@.sessions[other],
{
}

/// Law: a run is killed exactly when the count of its failures reaches the limit
/// while it can be interrupted, and then it cannot be interrupted a second time.
/// No other event changes anything on the board.
pub proof fn law_runs_are_killed_for_their_failures(
    supervisor: &mut Supervisor,
    drive: Drive,
    watch: &mut StreamWatch,
    event: ExecutorEvent,
    step: WatchStep,
)
    requires
        old(watch).wf(),
        call_ensures(Supervisor::observe, (supervisor, &drive, watch, &event), step),
        !(event matches ExecutorEvent::Parsed(ThreadEvent::ThreadStarted { .. })),
    ensures
        step.kill ==> watch::is_failure(event),
        step.kill ==> old(watch)@.tripped is None && final(watch)@.tripped is Some,
        step.kill ==> old(supervisor)@.running.contains(drive.task_id.bits)
            && !final(supervisor)@.running.contains(drive.task_id.bits),
        old(watch)@.tripped is None && final(watch)@.tripped is Some && old(
            supervisor,
        )@.running.contains(drive.task_id.bits) && old(supervisor)@.tasks.contains_key(
            drive.task_id.bits,
        ) ==> step.kill,
        step.write is None,
        final(supervisor)@.tasks == old(supervisor)@.tasks,
        final(supervisor)@.sessions == old(supervisor)@.sessions,
        old(watch)@.tripped is Some ==> final(supervisor)@ == old(supervisor)@,
        !watch::is_failure(event) ==> final(supervisor)@ == old(supervisor)@,
{
}

/// Law: a settled task has ended as it was settled, holds no session and cannot
/// be interrupted; its record says what it cost and what was said and changed,
/// and both records are written.
pub proof fn law_settled_tasks_are_closed(
    supervisor: &mut Supervisor,
    settlement: Settlement,
    diff_stat: Option<String>,
    closing: Closing,
)
    requires
        call_ensures(Supervisor::finalize, (supervisor, settlement, diff_stat), closing),
        old(supervisor)@.tasks.contains_key(settlement.task_id.bits),
        old(supervisor)@.tasks[settlement.task_id.bits].state is Running,
        old(supervisor)@.sessions.contains_key(settlement.session_id.bits),
        old(supervisor)@.sessions[settlement.session_id.bits].owner == (SessionOwner::Task {
            task: settlement.task_id,
        }),
        settlement.state is Completed || settlement.state is Failed || settlement.state
            is Interrupted,
    ensures
        ({
            let before = old(supervisor)@.tasks[settlement.task_id.bits];
            let after = final(supervisor)@.tasks[settlement.task_id.bits];
            let session = final(supervisor)@.sessions[settlement.session_id.bits];
            let was = old(supervisor)@.sessions[settlement.session_id.bits];
            &&& final(supervisor)@.tasks.contains_key(settlement.task_id.bits)
            &&& after.state == settlement.state
            &&& after.usage == settlement.usage
            &&& after.spec == before.spec
            &&& after.id == before.id
            &&& after.retries == before.retries
            &&& after.events_path == before.events_path
            &&& after.created_at == before.created_at
            &&& settlement.last_agent_message is None ==> after.last_agent_message is None
            &&& settlement.last_agent_message matches Some(said) ==> {
                &&& after.last_agent_message is Some
                &&& said@.len() <= 2000 ==> after.last_agent_message->Some_0@ == said@
                &&& said@.len() > 2000 ==> after.last_agent_message->Some_0@ == said@.take(
                    2000,
                ).push('…')
            }
            &&& settlement.checkout is Some && settlement.reclaim == ReclaimMode::KeepBranch
                ==> after.diff_stat == diff_stat
            &&& settlement.checkout is None || settlement.reclaim == ReclaimMode::DeleteBranch
                ==> after.diff_stat is None
            &&& session.owner is Free
            &&& session.rollout == was.rollout
            &&& session.model == was.model
            &&& session.cwd == was.cwd
            &&& session.sandbox == was.sandbox
            &&& closing.task is Some
            &&& closing.task->Some_0 matches RecordWrite::Task { record, .. } && record == after
            &&& closing.session is Some
            &&& closing.session->Some_0 matches RecordWrite::Session { record: written, .. }
                && written == session
        }),
        !final(supervisor)@.running.contains(settlement.task_id.bits),
        closing.checkout == settlement.checkout,
        closing.reclaim == settlement.reclaim,
{
}

/// Law: what a task has changed is committed before its checkout goes exactly
/// where its branch is kept, and the commit names the task.
pub proof fn law_kept_branches_are_committed(settlement: Settlement, out: Option<String>)
    requires
        call_ensures(driver::preserving_commit, (&settlement,), out),
    ensures
        out is Some <==> settlement.checkout is Some && settlement.reclaim
            == ReclaimMode::KeepBranch,
        out is Some ==> text::occurs_in(out->Some_0@, settlement.task_id@),
{
    if out is Some {
        let front = "rdos task "@;
        let id = settlement.task_id@;
        let whole = out->Some_0@;
        assert(whole.subrange(front.len() as int, (front.len() + id.len()) as int) =~= id);
        assert(text::stands_at(whole, id, front.len() as int));
    }
}

/// Law: a task that was launched again runs with its new process and can be
/// interrupted again; one that could not be launched again has failed, says which
/// try it was and why, and leaves no branch.
pub proof fn law_second_launches(
    supervisor: &mut Supervisor,
    drive: Drive,
    launch: Result<Option<u32>, ExecError>,
    next: RelaunchStep,
    said: String,
)
    requires
        call_ensures(Supervisor::relaunched, (supervisor, drive, launch), next),
        old(supervisor)@.tasks.contains_key(drive.task_id.bits),
        old(supervisor)@.tasks[drive.task_id.bits].state is Running,
        launch matches Err(error) ==> call_ensures(ExecError::message, (&error,), said),
    ensures
        launch matches Ok(pid) ==> {
            let after = final(supervisor)@.tasks[drive.task_id.bits];
            &&& next matches RelaunchStep::Watch { drive: watched, write } && watched == drive
                && write is Some && (write->Some_0 matches RecordWrite::Task { record, .. }
                && record == after)
            &&& after.state == (TaskState::Running { pid })
            &&& after.spec == old(supervisor)@.tasks[drive.task_id.bits].spec
            &&& after.retries == old(supervisor)@.tasks[drive.task_id.bits].retries
            &&& final(supervisor)@.running.contains(drive.task_id.bits)
            &&& final(supervisor)@.sessions == old(supervisor)@.sessions
        },
        launch is Err ==> {
            &&& final(supervisor)@ == old(supervisor)@
            &&& next matches RelaunchStep::Settle(settled) && settled.state is Failed
                && text::has_suffix(settled.state->error@, said@) && text::occurs_in(
                settled.state->error@,
                text::decimal(drive.attempt as nat),
            ) && settled.reclaim == ReclaimMode::DeleteBranch && settled.task_id == drive.task_id
                && settled.session_id == drive.session_id && settled.checkout == drive.checkout
        },
{
    if launch is Err {
        let error = next->Settle_0.state->error@;
        let front = "南向重试第 "@;
        let digits = text::decimal(drive.attempt as nat);
        assert(error == front + digits + " 次发射失败: "@ + said@);
        let at = error.len() - said@.len();
        assert(error.subrange(at, error.len() as int) =~= said@);
        assert(error.subrange(front.len() as int, (front.len() + digits.len()) as int) =~= digits);
        assert(text::stands_at(error, digits, front.len() as int));
    }
}

/// Law: from the end of a clean run to the end of its task. A task with a judge
/// counts as passed exactly where its judge ended with zero, and it never counts
/// as unjudged.
pub proof fn law_judges_decide(
    running: &mut Supervisor,
    settled: &mut Supervisor,
    drive: Drive,
    exit: TaskExit,
    watch: StreamWatch,
    judging: Judging,
    run: JudgeRun,
    settlement: Settlement,
    diff_stat: Option<String>,
    closing: Closing,
)
    requires
        call_ensures(
            Supervisor::attempt_ended,
            (running, drive, AttemptEnd::Exited(exit), &watch),
            NextStep::Judge(judging),
        ),
        call_ensures(driver::settle_judged, (judging, run), settlement),
        call_ensures(Supervisor::finalize, (settled, settlement, diff_stat), closing),
        old(settled)@.tasks.contains_key(drive.task_id.bits),
        old(settled)@.tasks[drive.task_id.bits].state is Running,
    ensures
        ({
            let state = final(settled)@.tasks[drive.task_id.bits].state;
            &&& state is Completed
            &&& state->judge is Passed <==> run is Exited && run->code == Some(0i32)
            &&& !(state->judge is NotJudged)
        }),
{
}

} // verus!
