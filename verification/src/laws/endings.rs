//! How a run ends, what is judged and by what, and what becomes of its branch.

use crate::acceptance;
use crate::acceptance::{Ending, JudgeRun, StreamWatch};
use crate::executor;
use crate::executor::{
    ChildSignal, ChildStep, ChildWatch, ExecError, ExecutorEvent, StreamSummary, TaskExit,
};
use crate::events::ThreadEvent;
use crate::registry::{JudgeOutcome, JudgeSpec};
use crate::text;
use crate::worktree::ReclaimMode;
use vstd::prelude::*;

verus! {

/// Whether a run ended by itself, in time, with zero and without complaints.
pub open spec fn ended_clean(exit: TaskExit) -> bool {
    &&& !exit.interrupted
    &&& !exit.timed_out
    &&& exit.fatal_error is None
    &&& exit.turn_failed is None
    &&& exit.exit_code == Some(0i32)
}

/// Law: how a run ended is told by what was done to it first, then by what it
/// said, then by what its process ended with; and success is what is left.
pub proof fn law_endings_follow_the_facts(exit: TaskExit, watch: StreamWatch, ending: Ending)
    requires
        call_ensures(acceptance::ending_of, (&exit, &watch), ending),
    ensures
        ending is SelfReported <==> watch@.tripped is None && ended_clean(exit),
        ending is Interrupted <==> watch@.tripped is None && exit.interrupted,
        watch@.tripped is Some ==> ending is Failed && ending->error@ == watch@.tripped->Some_0,
        watch@.tripped is None && !exit.interrupted && exit.timed_out ==> ending is Failed
            && ending->error@ == "任务级硬超时触发，进程组已终止（#9）"@,
        watch@.tripped is None && !exit.interrupted && !exit.timed_out && exit.fatal_error is Some
            ==> ending is Failed && ending->error@ == exit.fatal_error->Some_0@,
        watch@.tripped is None && !exit.interrupted && !exit.timed_out && exit.fatal_error is None
            && exit.turn_failed is Some ==> ending is Failed && ending->error@
            == exit.turn_failed->Some_0@,
{
}

/// Law: a process that fails without a word is reported with its exit code and
/// with the last line of its diagnostics.
pub proof fn law_silent_failures_are_reported(
    exit: TaskExit,
    watch: StreamWatch,
    ending: Ending,
    code: i32,
)
    requires
        call_ensures(acceptance::ending_of, (&exit, &watch), ending),
        watch@.tripped is None,
        !exit.interrupted,
        !exit.timed_out,
        exit.fatal_error is None,
        exit.turn_failed is None,
        exit.exit_code is None || exit.exit_code == Some(code) && code != 0,
    ensures
        ending is Failed,
        exit.exit_code is Some ==> text::occurs_in(
            ending->error@,
            text::signed_decimal(code as int),
        ),
        exit.exit_code is None && watch@.tail.len() == 0 ==> ending->error@
            == "codex exec 退出码 "@ + "None"@ + ""@,
        watch@.tail.len() > 0 && watch@.tail.last()@.len() <= 200 ==> text::has_suffix(
            ending->error@,
            watch@.tail.last()@,
        ),
        watch@.tail.len() > 0 && watch@.tail.last()@.len() > 200 ==> text::has_suffix(
            ending->error@,
            watch@.tail.last()@.take(200).push('…'),
        ),
{
    let front = "codex exec 退出码 "@;
    let shown = acceptance::shown_exit_code(exit.exit_code);
    let hint = acceptance::hint(watch@.tail);
    let error = ending->error@;
    assert(error == front + shown + hint);
    if exit.exit_code is Some {
        let digits = text::signed_decimal(code as int);
        let open = "Some("@;
        let at = (front.len() + open.len()) as int;
        assert(shown == open + digits + ")"@);
        assert(error.subrange(at, at + digits.len()) =~= digits);
        assert(text::stands_at(error, digits, at));
    }
    if watch@.tail.len() > 0 {
        let line = text::clipped(watch@.tail.last()@, 200);
        let begin = "；stderr 尾行："@;
        assert(hint == begin + line);
        let at = error.len() - line.len();
        assert(error.subrange(at, error.len() as int) =~= line);
    }
}

/// Law: only an interrupted run loses its branch though it was to be kept, and a
/// branch that nobody asked for is never kept.
pub proof fn law_branches_follow_the_ending(ending: Ending, diff_first: bool, mode: ReclaimMode)
    requires
        call_ensures(acceptance::reclaim_mode, (&ending, diff_first), mode),
    ensures
        mode == ReclaimMode::KeepBranch <==> diff_first && !(ending is Interrupted),
        mode == ReclaimMode::DeleteBranch <==> !diff_first || ending is Interrupted,
{
}

/// Law: the judge runs the command that was registered, whole and at the end of
/// its script, and a failure inside of a pipe counts.
pub proof fn law_the_judge_runs_what_was_registered(judge: JudgeSpec, script: String)
    requires
        call_ensures(acceptance::judge_script, (&judge,), script),
    ensures
        text::has_suffix(script@, judge.command@),
        text::has_prefix(script@, "set -o pipefail; "@),
        script@.len() == "set -o pipefail; "@.len() + judge.command@.len(),
{
    let front = "set -o pipefail; "@;
    assert(script@.subrange(front.len() as int, script@.len() as int) =~= judge.command@);
    assert(script@.subrange(0, front.len() as int) =~= front);
}

/// Law: a judge passes a task by ending with zero and in no other way, and a
/// judge that was asked always has an opinion. A judge that did not start, took
/// too long or was lost has failed, with the code that shells give for it.
pub proof fn law_only_zero_passes(run: JudgeRun, out: JudgeOutcome)
    requires
        call_ensures(acceptance::judged, (run,), out),
    ensures
        out is Passed <==> run is Exited && run->code == Some(0i32),
        !(out is NotJudged),
        run is NotStarted ==> out == (JudgeOutcome::Failed { exit_code: 127 }),
        run is TimedOut ==> out == (JudgeOutcome::Failed { exit_code: 124 }),
        run is Lost ==> out is Failed && out->exit_code == -1,
        run is Exited && run->code is None ==> out is Failed && out->exit_code == -1,
        run is Exited && run->code is Some && run->code != Some(0i32) ==> out is Failed
            && out->exit_code == run->code->Some_0,
{
}

/// Law: the limits are those that were promised: ten minutes for a judge, two
/// further tries, five equal failures, eight lines of diagnostics.
pub proof fn law_limits_are_as_promised()
    ensures
        acceptance::JUDGE_TIMEOUT_SECS == 600,
        acceptance::MAX_SOUTHBOUND_RETRIES == 2,
        acceptance::DEFAULT_BREAKER_THRESHOLD == 5,
        acceptance::STDERR_TAIL_LINES == 8,
        acceptance::HINT_CHARS == 200,
        executor::PUMP_GRACE_SECS == 5,
{
}

/// Law: the facts at the end of a run are those of its process and of its stream,
/// none is changed and none is lost.
pub proof fn law_exits_carry_all_facts(
    exit_code: Option<i32>,
    interrupted: bool,
    timed_out: bool,
    summary: StreamSummary,
    exit: TaskExit,
)
    requires
        call_ensures(executor::exit_of, (exit_code, interrupted, timed_out, summary), exit),
    ensures
        exit.exit_code == exit_code,
        exit.interrupted == interrupted,
        exit.timed_out == timed_out,
        exit.thread_id == summary.thread_id,
        exit.usage == summary.usage,
        exit.last_agent_message == summary.last_agent_message,
        exit.turn_failed == summary.turn_failed,
        exit.fatal_error == summary.fatal_error,
{
}

/// Law: what an event says is remembered at once, under its own kind and under no
/// other.
pub proof fn law_events_are_remembered(summary: &mut StreamSummary, event: ThreadEvent, done: ())
    requires
        call_ensures(executor::fold_event, (summary, &event), done),
    ensures
        event matches ThreadEvent::ThreadStarted { thread_id } ==> final(summary).thread_id == Some(
            thread_id,
        ),
        event matches ThreadEvent::TurnCompleted { usage } ==> final(summary).usage == Some(usage),
        event matches ThreadEvent::TurnFailed { message } ==> final(summary).turn_failed == Some(
            message,
        ),
        event matches ThreadEvent::Error { message } ==> final(summary).fatal_error == Some(message),
        event matches ThreadEvent::ItemCompleted { item } && item is AgentMessage ==> final(summary).last_agent_message == Some(event->ItemCompleted_item->AgentMessage_text),
        !(event is ThreadStarted) ==> final(summary).thread_id == old(summary).thread_id,
        !(event is TurnCompleted) ==> final(summary).usage == old(summary).usage,
        !(event is TurnFailed) ==> final(summary).turn_failed == old(summary).turn_failed,
        !(event is Error) ==> final(summary).fatal_error == old(summary).fatal_error,
        !(event is ItemCompleted && event->ItemCompleted_item is AgentMessage) ==> final(summary).last_agent_message == old(summary).last_agent_message,
{
}

/// Law: before a stream has said anything, nothing is remembered of it.
pub proof fn law_streams_begin_blank(summary: StreamSummary)
    requires
        call_ensures(StreamSummary::new, (), summary),
    ensures
        summary.thread_id is None,
        summary.usage is None,
        summary.last_agent_message is None,
        summary.turn_failed is None,
        summary.fatal_error is None,
{
}

/// Law: no line of output is lost. What reads as an event is one, and what does
/// not is kept with the reason.
pub proof fn law_output_is_kept(
    line: String,
    read: Result<ThreadEvent, String>,
    event: ExecutorEvent,
)
    requires
        call_ensures(executor::stdout_event, (line, read), event),
    ensures
        read is Ok ==> event == ExecutorEvent::Parsed(read->Ok_0),
        read is Err ==> event is ParseError && event->line == line && event->error == read->Err_0,
{
}

/// Law: a process is killed exactly where it is stopped: on request, as long as
/// one can come, or when its time is up. An end by itself is neither, and that
/// nobody can ask any more ends nothing.
pub proof fn law_processes_are_stopped_for_a_reason(
    watch: &mut ChildWatch,
    signal: ChildSignal,
    step: ChildStep,
)
    requires
        call_ensures(ChildWatch::step, (watch, signal), step),
    ensures
        signal is Exited ==> step is Finish && !step->interrupted && !step->timed_out
            && !step->kill,
        signal is TimedOut ==> step is Finish && !step->interrupted && step->timed_out
            && step->kill,
        signal is InterruptRequested && old(watch).interrupt_armed ==> step is Finish
            && step->interrupted && !step->timed_out && step->kill,
        signal is InterruptRequested && !old(watch).interrupt_armed ==> step is KeepWatching,
        signal is InterruptDropped ==> step is KeepWatching && !final(watch).interrupt_armed,
        signal matches ChildSignal::WaitFailed { detail } ==> step == ChildStep::Fail(
            ExecError::Wait { detail },
        ),
        !(signal is InterruptDropped) ==> final(watch).interrupt_armed
            == old(watch).interrupt_armed,
{
}

/// Law: a process can be interrupted from the start.
pub proof fn law_processes_begin_interruptible(watch: ChildWatch)
    requires
        call_ensures(ChildWatch::new, (), watch),
    ensures
        watch.interrupt_armed,
{
}

} // verus!
