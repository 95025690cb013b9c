//! What a run is held to: which tools count, when it is stopped, when it is
//! launched again.

use crate::acceptance;
use crate::acceptance::{Breaker, ItemVerdict, StreamWatch};
use crate::events::{
    CommandExecutionStatus, McpToolCallStatus, PatchApplyStatus, ThreadEvent, ThreadItemDetails,
};
use crate::executor::{ExecutorEvent, TaskExit};
use crate::text;
use vstd::prelude::*;

verus! {

/// Whether an event shows a command, a patch or a call of a tool, begun or over.
pub open spec fn touches_the_world(event: ExecutorEvent) -> bool {
    match event {
        ExecutorEvent::Parsed(ThreadEvent::ItemStarted { item })
        | ExecutorEvent::Parsed(ThreadEvent::ItemCompleted { item }) => match item {
            ThreadItemDetails::CommandExecution { .. } => true,
            ThreadItemDetails::FileChange { .. } => true,
            ThreadItemDetails::McpToolCall { .. } => true,
            _ => false,
        },
        _ => false,
    }
}

/// Whether a tool was used, and worked: a command that did not end with an error,
/// a patch that was not refused, a call that was answered.
pub open spec fn worked(item: ThreadItemDetails) -> bool {
    match item {
        ThreadItemDetails::CommandExecution { exit_code, status, .. } => {
            &&& status == CommandExecutionStatus::Completed || status
                == CommandExecutionStatus::Declined
            &&& exit_code is None || exit_code == Some(0i32)
        },
        ThreadItemDetails::FileChange { status, .. } => status != PatchApplyStatus::Failed,
        ThreadItemDetails::McpToolCall { status, .. } => status == McpToolCallStatus::Completed,
        _ => false,
    }
}

/// Whether a tool was used, and failed.
pub open spec fn failed(item: ThreadItemDetails) -> bool {
    match item {
        ThreadItemDetails::CommandExecution { exit_code, status, .. } => {
            ||| status == CommandExecutionStatus::Failed
            ||| status != CommandExecutionStatus::InProgress && exit_code is Some && exit_code
                != Some(0i32)
        },
        ThreadItemDetails::FileChange { status, .. } => status == PatchApplyStatus::Failed,
        ThreadItemDetails::McpToolCall { status, .. } => status == McpToolCallStatus::Failed,
        _ => false,
    }
}

/// Whether an event is the end of a tool that worked.
pub open spec fn is_success(event: ExecutorEvent) -> bool {
    event matches ExecutorEvent::Parsed(ThreadEvent::ItemCompleted { item }) && worked(item)
}

/// Whether an event is the end of a tool that failed.
pub open spec fn is_failure(event: ExecutorEvent) -> bool {
    event matches ExecutorEvent::Parsed(ThreadEvent::ItemCompleted { item }) && failed(item)
}

/// Law: commands, patches and calls of tools act on the world, and nothing else
/// does.
pub proof fn law_tools_are_told_from_talk(item: ThreadItemDetails, yes: bool)
    requires
        call_ensures(acceptance::is_tool_item, (&item,), yes),
    ensures
        item is CommandExecution ==> yes,
        item is FileChange ==> yes,
        item is McpToolCall ==> yes,
        item is AgentMessage || item is Reasoning || item is WebSearch || item is TodoList || item
            is Error || item is Other ==> !yes,
{
}

/// Law: a run has acted exactly where one of its events shows a command, a patch
/// or a call of a tool, whether that was begun or is over.
pub proof fn law_acting_is_noticed(limit: u32, said: Seq<ExecutorEvent>)
    ensures
        acceptance::notes_of(limit, said).acted <==> exists|i: int|
            0 <= i < said.len() && touches_the_world(#[trigger] said[i]),
    decreases said.len(),
{
    if said.len() > 0 {
        let before = said.drop_last();
        law_acting_is_noticed(limit, before);
        if exists|i: int| 0 <= i < before.len() && touches_the_world(#[trigger] before[i]) {
            let i = choose|i: int| 0 <= i < before.len() && touches_the_world(#[trigger] before[i]);
            assert(said[i] == before[i]);
        }
        assert(said[said.len() - 1] == said.last());
        if acceptance::notes_of(limit, said).acted && !touches_the_world(said.last()) {
            assert(acceptance::notes_of(limit, before).acted);
        }
        if exists|i: int| 0 <= i < said.len() && touches_the_world(#[trigger] said[i]) {
            let i = choose|i: int| 0 <= i < said.len() && touches_the_world(#[trigger] said[i]);
            if i < before.len() {
                assert(before[i] == said[i]);
            }
        }
    }
}

/// Law: a run that has used a command, a patch or a tool is never launched again,
/// however it ended and however few tries it had.
pub proof fn law_acting_runs_are_not_repeated(
    limit: u32,
    said: Seq<ExecutorEvent>,
    at: int,
    watch: StreamWatch,
    exit: TaskExit,
    attempt: u32,
    yes: bool,
)
    requires
        0 <= at < said.len(),
        touches_the_world(said[at]),
        watch@ == acceptance::notes_of(limit, said),
        call_ensures(acceptance::should_retry, (&exit, &watch, attempt), yes),
    ensures
        !yes,
        !acceptance::worth_retrying(exit, watch@, attempt),
{
    law_acting_is_noticed(limit, said);
}

/// Law: one event at a time is noticed as all of them together are.
pub proof fn law_watching_adds_up(
    watch: &mut StreamWatch,
    limit: u32,
    said: Seq<ExecutorEvent>,
    event: ExecutorEvent,
    stop: bool,
)
    requires
        old(watch)@ == acceptance::notes_of(limit, said),
        call_ensures(StreamWatch::note, (watch, &event), stop),
    ensures
        final(watch)@ == acceptance::notes_of(limit, said.push(event)),
        stop <==> acceptance::notes_of(limit, said).tripped is None && acceptance::notes_of(
            limit,
            said.push(event),
        ).tripped is Some,
{
    assert(said.push(event).drop_last() =~= said);
}

/// Law: a watch begins with nothing noticed. It allows as many equal failures as
/// it was told, and at least one.
pub proof fn law_a_watch_begins_blank(threshold: u32, watch: StreamWatch, breaker: Breaker)
    requires
        call_ensures(StreamWatch::new, (threshold,), watch),
        call_ensures(Breaker::new, (threshold,), breaker),
    ensures
        watch@.limit >= 1,
        threshold >= 1 ==> watch@.limit == threshold,
        threshold == 0 ==> watch@.limit == 1,
        breaker.limit() == watch@.limit,
        breaker.counted().streak == 0,
        watch@.count.streak == 0,
        watch@.count.signature is None,
        watch@.tripped is None,
        !watch@.acted,
        watch@.tail.len() == 0,
        watch@ == acceptance::notes_of(watch@.limit, Seq::empty()),
{
}

/// Law: any tool that works sets the count back to nothing, whatever came before,
/// and nothing is stopped for it.
pub proof fn law_any_success_resets_the_count(
    limit: u32,
    said: Seq<ExecutorEvent>,
    event: ExecutorEvent,
)
    requires
        is_success(event),
        acceptance::notes_of(limit, said).tripped is None,
    ensures
        acceptance::notes_of(limit, said.push(event)).count.streak == 0,
        acceptance::notes_of(limit, said.push(event)).count.signature is None,
        acceptance::notes_of(limit, said.push(event)).tripped is None,
{
    assert(said.push(event).drop_last() =~= said);
}

/// Law: a tool that fails is counted, and one that neither works nor fails is
/// not: an item that is still under way, a thought, a message.
pub proof fn law_only_failures_are_counted(
    limit: u32,
    said: Seq<ExecutorEvent>,
    event: ExecutorEvent,
)
    requires
        acceptance::notes_of(limit, said).tripped is None,
    ensures
        is_failure(event) ==> acceptance::notes_of(limit, said.push(event)).count.streak >= 1,
        !is_failure(event) && !is_success(event) ==> acceptance::notes_of(
            limit,
            said.push(event),
        ).count == acceptance::notes_of(limit, said).count,
        !is_failure(event) ==> acceptance::notes_of(limit, said.push(event)).tripped is None,
{
    assert(said.push(event).drop_last() =~= said);
}

/// Law: what a finished item says follows from how its tool ended, and a failure
/// is counted under its tool.
pub proof fn law_items_are_told_apart(
    item: ThreadItemDetails,
    verdict: ItemVerdict,
    line: &str,
    counted: String,
)
    requires
        call_ensures(acceptance::classify_item, (&item,), verdict),
        call_ensures(acceptance::command_signature, (line,), counted),
    ensures
        verdict is Success <==> worked(item),
        verdict is Failure <==> failed(item),
        verdict is Neutral <==> !worked(item) && !failed(item),
        verdict is Failure && item is FileChange ==> verdict->Failure_0@ == "apply_patch"@,
        verdict is Failure && item is McpToolCall ==> verdict->Failure_0@ == "mcp:"@
            + item->McpToolCall_server@ + "."@ + item->McpToolCall_tool@,
        verdict is Failure && item is CommandExecution && line@ == item->CommandExecution_command@
            ==> verdict->Failure_0@ == counted@,
{
}

/// Whether two items are failures of one tool: commands that run the same
/// program by the same name, patches, or calls of one tool of one server.
pub open spec fn same_tool(a: ThreadItemDetails, b: ThreadItemDetails) -> bool {
    match (a, b) {
        (
            ThreadItemDetails::CommandExecution { command: x, .. },
            ThreadItemDetails::CommandExecution { command: y, .. },
        ) => {
            &&& text::words(x@).len() > 0
            &&& text::words(y@).len() > 0
            &&& text::words(x@)[0] == text::words(y@)[0]
            &&& !names_a_shell(text::words(x@)[0])
        },
        (ThreadItemDetails::FileChange { .. }, ThreadItemDetails::FileChange { .. }) => true,
        (
            ThreadItemDetails::McpToolCall { server: s, tool: t, .. },
            ThreadItemDetails::McpToolCall { server: u, tool: v, .. },
        ) => s@ == u@ && t@ == v@,
        _ => false,
    }
}

/// Whether the last part of a path is that of a shell.
pub open spec fn names_a_shell(path: Seq<char>) -> bool {
    let name = text::pieces(path, '/').last();
    name == "sh"@ || name == "zsh"@ || name == "bash"@
}

/// Law: arguments do not matter. Two command lines that run the same program are
/// counted as one, whatever follows it.
pub proof fn law_arguments_do_not_matter(a: &str, b: &str, of_a: String, of_b: String)
    requires
        call_ensures(acceptance::command_signature, (a,), of_a),
        call_ensures(acceptance::command_signature, (b,), of_b),
        text::words(a@).len() > 0,
        text::words(b@).len() > 0,
        text::words(a@)[0] == text::words(b@)[0],
        !names_a_shell(text::words(a@)[0]),
    ensures
        of_a@ == of_b@,
{
}

/// Law: failures of one tool add up. The second in a row counts one more than the
/// first, with any number of messages in between.
pub proof fn law_equal_failures_add_up(
    limit: u32,
    said: Seq<ExecutorEvent>,
    first: ThreadItemDetails,
    between: Seq<ExecutorEvent>,
    second: ThreadItemDetails,
)
    requires
        failed(first),
        failed(second),
        same_tool(first, second),
        forall|i: int|
            0 <= i < between.len() ==> !is_failure(#[trigger] between[i]) && !is_success(between[i]),
    ensures
        ({
            let one = said.push(ExecutorEvent::Parsed(ThreadEvent::ItemCompleted { item: first }));
            let two = (one + between).push(
                ExecutorEvent::Parsed(ThreadEvent::ItemCompleted { item: second }),
            );
            acceptance::notes_of(limit, one).tripped is None ==> {
                &&& acceptance::notes_of(limit, one).count.streak >= 1
                &&& acceptance::notes_of(limit, two).count.streak == acceptance::notes_of(
                    limit,
                    one,
                ).count.streak + 1
            }
        }),
{
    let a = ExecutorEvent::Parsed(ThreadEvent::ItemCompleted { item: first });
    let b = ExecutorEvent::Parsed(ThreadEvent::ItemCompleted { item: second });
    let one = said.push(a);
    let two = (one + between).push(b);
    assert(one.drop_last() =~= said);
    assert(two.drop_last() =~= one + between);
    if acceptance::notes_of(limit, one).tripped is None {
        lemma_talk_changes_nothing(limit, one, between);
    }
}

proof fn lemma_talk_changes_nothing(
    limit: u32,
    said: Seq<ExecutorEvent>,
    talk: Seq<ExecutorEvent>,
)
    requires
        acceptance::notes_of(limit, said).tripped is None,
        forall|i: int|
            0 <= i < talk.len() ==> !is_failure(#[trigger] talk[i]) && !is_success(talk[i]),
    ensures
        acceptance::notes_of(limit, said + talk).tripped is None,
        acceptance::notes_of(limit, said + talk).count == acceptance::notes_of(limit, said).count,
    decreases talk.len(),
{
    if talk.len() == 0 {
        assert(said + talk =~= said);
    } else {
        let shorter = talk.drop_last();
        assert forall|i: int| 0 <= i < shorter.len() implies !is_failure(#[trigger] shorter[i])
            && !is_success(shorter[i]) by {
            assert(shorter[i] == talk[i]);
        }
        lemma_talk_changes_nothing(limit, said, shorter);
        assert((said + talk) =~= (said + shorter).push(talk.last()));
        assert(talk[talk.len() - 1] == talk.last());
        law_only_failures_are_counted(limit, said + shorter, talk.last());
    }
}

/// Law: failures of two tools do not add up. A patch, a call and a call of
/// another tool of the same server each begin anew.
pub proof fn law_other_failures_begin_anew(
    limit: u32,
    said: Seq<ExecutorEvent>,
    first: ThreadItemDetails,
    second: ThreadItemDetails,
)
    requires
        failed(first),
        failed(second),
        ({
            ||| first is FileChange && second is McpToolCall
            ||| first is McpToolCall && second is FileChange
            ||| first is McpToolCall && second is McpToolCall && first->McpToolCall_server@
                == second->McpToolCall_server@ && first->McpToolCall_tool@
                != second->McpToolCall_tool@
        }),
    ensures
        ({
            let one = said.push(ExecutorEvent::Parsed(ThreadEvent::ItemCompleted { item: first }));
            let two = one.push(ExecutorEvent::Parsed(ThreadEvent::ItemCompleted { item: second }));
            acceptance::notes_of(limit, one).tripped is None ==> acceptance::notes_of(
                limit,
                two,
            ).count.streak == 1
        }),
{
    let one = said.push(ExecutorEvent::Parsed(ThreadEvent::ItemCompleted { item: first }));
    let two = one.push(ExecutorEvent::Parsed(ThreadEvent::ItemCompleted { item: second }));
    assert(one.drop_last() =~= said);
    assert(two.drop_last() =~= one);
    reveal_strlit("apply_patch");
    reveal_strlit("mcp:");
    if first is McpToolCall {
        let server = first->McpToolCall_server@;
        let tool = first->McpToolCall_tool@;
        let name = "mcp:"@ + server + "."@ + tool;
        assert(name[0] == 'm');
        if second is McpToolCall {
            crate::paths::lemma_equal_fronts(
                "mcp:"@ + server + "."@,
                tool,
                second->McpToolCall_tool@,
            );
        } else {
            assert("apply_patch"@[0] == 'a');
        }
    } else {
        let name = "mcp:"@ + second->McpToolCall_server@ + "."@ + second->McpToolCall_tool@;
        assert(name[0] == 'm');
        assert("apply_patch"@[0] == 'a');
    }
}

/// How many of the events are failures.
pub open spec fn failures_among(said: Seq<ExecutorEvent>) -> nat
    decreases said.len(),
{
    if said.len() == 0 {
        0
    } else {
        failures_among(said.drop_last()) + if is_failure(said.last()) {
            1nat
        } else {
            0nat
        }
    }
}

/// Law: nothing is stopped before its limit. A run with fewer failures than the
/// limit goes on.
pub proof fn law_few_failures_stop_nothing(limit: u32, said: Seq<ExecutorEvent>)
    requires
        failures_among(said) < limit,
    ensures
        acceptance::notes_of(limit, said).tripped is None,
        acceptance::notes_of(limit, said).limit == limit,
        acceptance::notes_of(limit, said).count.streak <= failures_among(said),
    decreases said.len(),
{
    if said.len() > 0 {
        law_few_failures_stop_nothing(limit, said.drop_last());
    }
}

/// Law: a run that fails without a break is stopped. As many failures of one tool
/// in a row as the limit says stop it, and it stays stopped for the same reason,
/// which tells the number.
pub proof fn law_failures_without_a_break_stop_a_run(
    limit: u32,
    said: Seq<ExecutorEvent>,
    items: Seq<ThreadItemDetails>,
)
    requires
        limit >= 1,
        items.len() >= limit,
        forall|i: int| 0 <= i < items.len() ==> failed(#[trigger] items[i]),
        forall|i: int, j: int|
            0 <= i < items.len() && 0 <= j < items.len() ==> same_tool(
                #[trigger] items[i],
                #[trigger] items[j],
            ),
    ensures
        acceptance::notes_of(limit, said + ended(items)).tripped is Some,
    decreases items.len(),
{
    lemma_streak_grows(limit, said, items);
}

/// The events that tell of items that are over.
pub open spec fn ended(items: Seq<ThreadItemDetails>) -> Seq<ExecutorEvent> {
    items.map_values(
        |item: ThreadItemDetails| ExecutorEvent::Parsed(ThreadEvent::ItemCompleted { item }),
    )
}

proof fn lemma_streak_grows(
    limit: u32,
    said: Seq<ExecutorEvent>,
    items: Seq<ThreadItemDetails>,
)
    requires
        limit >= 1,
        forall|i: int| 0 <= i < items.len() ==> failed(#[trigger] items[i]),
        forall|i: int, j: int|
            0 <= i < items.len() && 0 <= j < items.len() ==> same_tool(
                #[trigger] items[i],
                #[trigger] items[j],
            ),
    ensures
        acceptance::notes_of(limit, said + ended(items)).limit == limit,
        acceptance::notes_of(limit, said + ended(items)).tripped is None ==> {
            &&& items.len() > 0 ==> items.len() < limit
            &&& acceptance::notes_of(limit, said + ended(items)).count.streak >= items.len()
            &&& items.len() > 0 ==> acceptance::notes_of(
                limit,
                said + ended(items),
            ).count.signature == Some(acceptance::verdict_of(items.last())->Failure_0)
        },
    decreases items.len(),
{
    if items.len() == 0 {
        assert(said + ended(items) =~= said);
        lemma_limit_stays(limit, said);
    } else {
        let shorter = items.drop_last();
        assert forall|i: int| 0 <= i < shorter.len() implies failed(#[trigger] shorter[i]) by {
            assert(shorter[i] == items[i]);
        }
        assert forall|i: int, j: int|
            0 <= i < shorter.len() && 0 <= j < shorter.len() implies same_tool(
            #[trigger] shorter[i],
            #[trigger] shorter[j],
        ) by {
            assert(same_tool(items[i], items[j]));
        }
        lemma_streak_grows(limit, said, shorter);
        let event = ExecutorEvent::Parsed(ThreadEvent::ItemCompleted { item: items.last() });
        let whole = said + ended(items);
        assert(whole =~= (said + ended(shorter)).push(event));
        assert(whole.drop_last() =~= said + ended(shorter));
        assert(failed(items[items.len() - 1]));
        if shorter.len() > 0 {
            assert(same_tool(items[items.len() - 2], items[items.len() - 1]));
            assert(shorter.last() == items[items.len() - 2]);
        }
    }
}

proof fn lemma_limit_stays(limit: u32, said: Seq<ExecutorEvent>)
    ensures
        acceptance::notes_of(limit, said).limit == limit,
    decreases said.len(),
{
    if said.len() > 0 {
        lemma_limit_stays(limit, said.drop_last());
    }
}

/// Law: a run in which every failure is made good is never stopped, however many
/// there are.
pub proof fn law_failures_made_good_stop_nothing(limit: u32, said: Seq<ExecutorEvent>)
    requires
        limit >= 2,
        forall|i: int|
            0 <= i < said.len() - 1 && is_failure(#[trigger] said[i]) ==> is_success(said[i + 1]),
    ensures
        acceptance::notes_of(limit, said).tripped is None,
        acceptance::notes_of(limit, said).limit == limit,
        acceptance::notes_of(limit, said).count.streak <= 1,
        said.len() > 0 && !is_failure(said.last()) ==> acceptance::notes_of(
            limit,
            said,
        ).count.streak == 0,
    decreases said.len(),
{
    if said.len() > 0 {
        let before = said.drop_last();
        assert forall|i: int| 0 <= i < before.len() - 1 && is_failure(#[trigger] before[i]) implies
            is_success(before[i + 1]) by {
            assert(said[i] == before[i]);
        }
        law_failures_made_good_stop_nothing(limit, before);
        if before.len() > 0 && is_failure(before.last()) {
            assert(is_failure(said[said.len() - 2]));
            assert(is_success(said[said.len() - 1]));
        }
        assert(said =~= before.push(said.last()));
        if before.len() == 0 {
            assert(acceptance::notes_of(limit, before).count.streak == 0);
        }
    }
}

/// Law: a run is stopped once. What it is stopped for is kept, whatever it says
/// afterwards, and it says how many failures there were and of which tool.
pub proof fn law_a_stop_is_final_and_says_why(
    watch: &mut StreamWatch,
    event: ExecutorEvent,
    stop: bool,
)
    requires
        old(watch).wf(),
        call_ensures(StreamWatch::note, (watch, &event), stop),
    ensures
        old(watch)@.tripped is Some ==> final(watch)@.tripped == old(watch)@.tripped && !stop,
        stop ==> is_failure(event) && final(watch)@.tripped is Some && final(watch)@.count.streak
            == old(watch)@.limit,
        stop ==> text::occurs_in(
            final(watch)@.tripped->Some_0,
            text::decimal(old(watch)@.limit as nat),
        ),
        stop && event->Parsed_0->ItemCompleted_item is FileChange ==> text::occurs_in(
            final(watch)@.tripped->Some_0,
            "apply_patch"@,
        ),
        stop && event->Parsed_0->ItemCompleted_item is McpToolCall ==> text::occurs_in(
            final(watch)@.tripped->Some_0,
            event->Parsed_0->ItemCompleted_item->McpToolCall_tool@,
        ) && text::occurs_in(
            final(watch)@.tripped->Some_0,
            event->Parsed_0->ItemCompleted_item->McpToolCall_server@,
        ),
        final(watch)@.limit == old(watch)@.limit,
        old(watch)@.acted ==> final(watch)@.acted,
{
    if stop {
        let streak = old(watch)@.limit as nat;
        let item = event->Parsed_0->ItemCompleted_item;
        let name = acceptance::verdict_of(item)->Failure_0;
        let reason = final(watch)@.tripped->Some_0;
        let front = "熔断（#6）：同签名工具连续失败 "@;
        let middle = " 次（"@;
        let back = "），已中止任务"@;
        let digits = text::decimal(streak);
        assert(reason == front + digits + middle + name + back);
        assert(reason.subrange(front.len() as int, (front.len() + digits.len()) as int) =~= digits);
        assert(text::stands_at(reason, digits, front.len() as int));
        let at = (front + digits + middle).len() as int;
        assert(reason.subrange(at, at + name.len()) =~= name);
        assert(text::stands_at(reason, name, at));
        if item is McpToolCall {
            let server = item->McpToolCall_server@;
            let tool = item->McpToolCall_tool@;
            let begin = "mcp:"@;
            let dot = "."@;
            assert(name == begin + server + dot + tool);
            let of_server = at + begin.len();
            assert(reason.subrange(of_server, of_server + server.len()) =~= server);
            assert(text::stands_at(reason, server, of_server));
            let of_tool = at + (begin + server + dot).len();
            assert(reason.subrange(of_tool, of_tool + tool.len()) =~= tool);
            assert(text::stands_at(reason, tool, of_tool));
        }
    }
}

/// The lines of diagnostics among the events, in order.
pub open spec fn diagnostics(said: Seq<ExecutorEvent>) -> Seq<String>
    decreases said.len(),
{
    if said.len() == 0 {
        Seq::empty()
    } else {
        match said.last() {
            ExecutorEvent::StderrLine(line) => diagnostics(said.drop_last()).push(line),
            _ => diagnostics(said.drop_last()),
        }
    }
}

/// Law: the last eight lines of diagnostics are kept, in order, and all of them
/// where there are fewer.
pub proof fn law_the_last_diagnostics_are_kept(limit: u32, said: Seq<ExecutorEvent>)
    ensures
        acceptance::notes_of(limit, said).tail == if diagnostics(said).len() > 8 {
            diagnostics(said).skip(diagnostics(said).len() - 8)
        } else {
            diagnostics(said)
        },
    decreases said.len(),
{
    if said.len() > 0 {
        let before = said.drop_last();
        law_the_last_diagnostics_are_kept(limit, before);
        let lines = diagnostics(before);
        let tail = acceptance::notes_of(limit, before).tail;
        match said.last() {
            ExecutorEvent::StderrLine(line) => {
                if lines.len() >= 8 {
                    assert(tail =~= lines.skip(lines.len() - 8));
                    assert(tail.drop_first().push(line) =~= lines.push(line).skip(lines.len() - 7));
                }
            },
            _ => {},
        }
    }
}

/// Whether a text in lower case tells of a failure on the way to a model.
pub open spec fn blames_the_way(lower: Seq<char>) -> bool {
    ||| text::occurs_in(lower, "stream disconnected"@)
    ||| text::occurs_in(lower, "error sending request"@)
    ||| text::occurs_in(lower, "connection refused"@)
    ||| text::occurs_in(lower, "connection reset"@)
    ||| text::occurs_in(lower, "connection closed before"@)
    ||| text::occurs_in(lower, "network is unreachable"@)
    ||| text::occurs_in(lower, "no route to host"@)
    ||| text::occurs_in(lower, "timed out"@)
    ||| text::occurs_in(lower, "timeout"@)
}

/// Whether one of the channels of failure blames the way to the model, in any
/// case of letters.
pub open spec fn failed_on_the_way(exit: TaskExit, tail: Seq<String>) -> bool {
    ||| exit.fatal_error is Some && blames_the_way(text::lowercase_of(exit.fatal_error->Some_0@))
    ||| exit.turn_failed is Some && blames_the_way(text::lowercase_of(exit.turn_failed->Some_0@))
    ||| exists|i: int|
        0 <= i < tail.len() && blames_the_way(text::lowercase_of((#[trigger] tail[i])@))
}

/// Law: a run is launched again exactly where it failed on the way to the model,
/// has not acted, was neither stopped nor late, and was launched again less than
/// twice.
pub proof fn law_a_run_is_repeated_only_after_transient_failures(
    exit: TaskExit,
    watch: StreamWatch,
    attempt: u32,
    yes: bool,
)
    requires
        call_ensures(acceptance::should_retry, (&exit, &watch, attempt), yes),
    ensures
        yes ==> attempt < 2,
        yes ==> !exit.interrupted,
        yes ==> !exit.timed_out,
        yes ==> !watch@.acted,
        yes ==> watch@.tripped is None,
        yes ==> exit.exit_code != Some(0i32) || exit.turn_failed is Some || exit.fatal_error
            is Some,
        yes ==> failed_on_the_way(exit, watch@.tail),
        ({
            &&& attempt < 2
            &&& !exit.interrupted
            &&& !exit.timed_out
            &&& !watch@.acted
            &&& watch@.tripped is None
            &&& exit.exit_code != Some(0i32) || exit.turn_failed is Some || exit.fatal_error is Some
            &&& failed_on_the_way(exit, watch@.tail)
        }) ==> yes,
{
    lemma_same_blame(exit, watch@.tail);
}

pub proof fn lemma_same_blame(exit: TaskExit, tail: Seq<String>)
    ensures
        failed_on_the_way(exit, tail) == acceptance::transient(exit, tail),
{
    assert(forall|s: Seq<char>| #[trigger] acceptance::tells(s) == blames_the_way(
        text::lowercase_of(s),
    ));
    if exists|i: int|
        0 <= i < tail.len() && blames_the_way(text::lowercase_of((#[trigger] tail[i])@)) {
        let i = choose|i: int|
            0 <= i < tail.len() && blames_the_way(text::lowercase_of((#[trigger] tail[i])@));
        assert(acceptance::tells(tail[i]@));
    }
    if exists|i: int| 0 <= i < tail.len() && acceptance::tells((#[trigger] tail[i])@) {
        let i = choose|i: int| 0 <= i < tail.len() && acceptance::tells((#[trigger] tail[i])@);
        assert(blames_the_way(text::lowercase_of(tail[i]@)));
    }
}

/// Law: whether a run failed on the way is told by the channels of failure alone.
pub proof fn law_transient_failures_are_told_by_failure_channels(
    exit: TaskExit,
    tail: std::collections::VecDeque<String>,
    yes: bool,
)
    requires
        call_ensures(acceptance::is_transient, (&exit, &tail), yes),
    ensures
        yes <==> failed_on_the_way(exit, tail@),
{
    lemma_same_blame(exit, tail@);
}

} // verus!
