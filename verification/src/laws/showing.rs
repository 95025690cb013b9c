//! What is shown of tasks: no two things that differ look the same.

use crate::registry;
use crate::registry::{JudgeOutcome, TaskId, TaskRecord, TaskState};
use crate::service;
use crate::service::status;
use crate::service::{ServiceError, Supervisor, TaskStatusView};
use crate::text;
use vstd::prelude::*;

verus! {

/// The decimal texts of two numbers are the same only where the numbers are.
pub proof fn lemma_numbers_are_told_apart(a: int, b: int)
    requires
        text::signed_decimal(a) == text::signed_decimal(b),
    ensures
        a == b,
{
    let of_a = if a < 0 {
        (-a) as nat
    } else {
        a as nat
    };
    let of_b = if b < 0 {
        (-b) as nat
    } else {
        b as nat
    };
    text::law_decimal_reads_back(of_a);
    text::law_decimal_reads_back(of_b);
    let x = text::decimal(of_a);
    let y = text::decimal(of_b);
    assert(text::is_digit(x[0]) && text::is_digit(y[0]));
    if a < 0 && b < 0 {
        assert((seq!['-'] + x).skip(1) =~= x);
        assert((seq!['-'] + y).skip(1) =~= y);
    } else if a < 0 {
        assert((seq!['-'] + x)[0] == '-');
    } else if b < 0 {
        assert((seq!['-'] + y)[0] == '-');
    }
}

proof fn lemma_enclosed(front: Seq<char>, a: Seq<char>, b: Seq<char>, back: Seq<char>)
    requires
        front + a + back == front + b + back,
    ensures
        a == b,
{
    let whole = front + a + back;
    let same = front + b + back;
    assert(whole.len() == front.len() + a.len() + back.len());
    assert(same.len() == front.len() + b.len() + back.len());
    assert(whole.subrange(front.len() as int, (front.len() + a.len()) as int) =~= a);
    assert(same.subrange(front.len() as int, (front.len() + b.len()) as int) =~= b);
}

/// Law: what is shown tells states apart. Two tasks whose states look the same
/// are in states of one kind; tasks that completed have the same verdict, with
/// the same exit code, and tasks that run have the same process.
pub proof fn law_shown_states_tell_states_apart(
    a: TaskRecord,
    b: TaskRecord,
    of_a: TaskStatusView,
    of_b: TaskStatusView,
)
    requires
        call_ensures(status::view_of, (&a,), of_a),
        call_ensures(status::view_of, (&b,), of_b),
        of_a.state@ == of_b.state@,
    ensures
        a.state is Completed <==> b.state is Completed,
        a.state is Failed <==> b.state is Failed,
        a.state is Running <==> b.state is Running,
        a.state is Pending <==> b.state is Pending,
        a.state is Interrupted <==> b.state is Interrupted,
        a.state is Completed ==> a.state->judge == b.state->judge,
        a.state is Running ==> a.state->pid == b.state->pid,
{
    lemma_first_letter(a.state);
    lemma_first_letter(b.state);
    if a.state is Completed {
        lemma_verdicts_differ(a.state->judge, b.state->judge);
    }
    if a.state is Running {
        let x = registry::shown_pid(a.state->pid);
        let y = registry::shown_pid(b.state->pid);
        lemma_enclosed("running (pid "@, x, y, ")"@);
        reveal_strlit("Some(");
        reveal_strlit("None");
        match (a.state->pid, b.state->pid) {
            (Some(m), Some(n)) => {
                lemma_enclosed("Some("@, text::decimal(m as nat), text::decimal(n as nat), ")"@);
                text::law_decimal_reads_back(m as nat);
                text::law_decimal_reads_back(n as nat);
            },
            (Some(m), None) => {
                assert(x[0] == 'S');
                assert(y[0] == 'N');
            },
            (None, Some(n)) => {
                assert(x[0] == 'N');
                assert(y[0] == 'S');
            },
            (None, None) => {},
        }
    }
}

proof fn lemma_first_letter(state: TaskState)
    ensures
        status::shown_state(state).len() > 0,
        status::shown_state(state)[0] == match state {
            TaskState::Pending => 'p',
            TaskState::Running { .. } => 'r',
            TaskState::Completed { .. } => 'c',
            TaskState::Failed { .. } => 'f',
            TaskState::Interrupted => 'i',
        },
{
    reveal_strlit("pending");
    reveal_strlit("running (pid ");
    reveal_strlit("completed · judge passed");
    reveal_strlit("completed · judge FAILED (exit ");
    reveal_strlit("completed · not judged");
    reveal_strlit("failed: ");
    reveal_strlit("interrupted");
}

proof fn lemma_verdicts_differ(a: JudgeOutcome, b: JudgeOutcome)
    requires
        status::shown_state(TaskState::Completed { judge: a }) == status::shown_state(
            TaskState::Completed { judge: b },
        ),
    ensures
        a == b,
{
    reveal_strlit("completed · judge passed");
    reveal_strlit("completed · judge FAILED (exit ");
    reveal_strlit("completed · not judged");
    let x = status::shown_state(TaskState::Completed { judge: a });
    let y = status::shown_state(TaskState::Completed { judge: b });
    assert(x[12] == y[12]);
    assert(x[18] == y[18]);
    match (a, b) {
        (JudgeOutcome::Failed { exit_code: m }, JudgeOutcome::Failed { exit_code: n }) => {
            lemma_enclosed(
                "completed · judge FAILED (exit "@,
                text::signed_decimal(m as int),
                text::signed_decimal(n as int),
                ")"@,
            );
            lemma_numbers_are_told_apart(m as int, n as int);
        },
        _ => {},
    }
}

/// Law: a task is shown as passed exactly where its judge has passed it, and as
/// judged only where a judge has spoken.
pub proof fn law_only_passed_tasks_look_passed(record: TaskRecord, view: TaskStatusView)
    requires
        call_ensures(status::view_of, (&record,), view),
    ensures
        view.state@ == "completed · judge passed"@ <==> record.state is Completed
            && record.state->judge is Passed,
        view.state@ == "completed · not judged"@ <==> record.state is Completed
            && record.state->judge is NotJudged,
        view.state@ == "pending"@ <==> record.state is Pending,
        view.state@ == "interrupted"@ <==> record.state is Interrupted,
        record.state is Completed && record.state->judge is Failed ==> view.state@
            == "completed · judge FAILED (exit "@ + text::signed_decimal(
            record.state->judge->exit_code as int,
        ) + ")"@,
{
    lemma_first_letter(record.state);
    lemma_first_letter(TaskState::Pending);
    lemma_first_letter(TaskState::Interrupted);
    lemma_first_letter(TaskState::Completed { judge: JudgeOutcome::Passed });
    lemma_first_letter(TaskState::Completed { judge: JudgeOutcome::NotJudged });
    if record.state is Completed {
        if view.state@ == "completed · judge passed"@ {
            lemma_verdicts_differ(record.state->judge, JudgeOutcome::Passed);
        }
        if view.state@ == "completed · not judged"@ {
            lemma_verdicts_differ(record.state->judge, JudgeOutcome::NotJudged);
        }
    }
}

/// Law: a failed task shows why: the reason whole where it is short, and its
/// beginning where it is long.
pub proof fn law_failed_tasks_show_why(record: TaskRecord, view: TaskStatusView)
    requires
        call_ensures(status::view_of, (&record,), view),
        record.state is Failed,
    ensures
        text::has_prefix(view.state@, "failed: "@),
        record.state->error@.len() <= 160 ==> view.state@ == "failed: "@ + record.state->error@,
        record.state->error@.len() > 160 ==> view.state@ == "failed: "@ + record.state->error@.take(
            160,
        ).push('…'),
{
    let front = "failed: "@;
    assert(view.state@.subrange(0, front.len() as int) =~= front);
}

/// Law: a view shows the task that it is of: its identifier, model, session,
/// tries and times, the beginning of its instruction, of what was said last and
/// of what was changed, and its branch where it has a checkout.
pub proof fn law_views_show_their_task(record: TaskRecord, view: TaskStatusView)
    requires
        call_ensures(status::view_of, (&record,), view),
    ensures
        view.task_id@ == record.id@,
        view.model_key@ == record.spec.model_key@,
        view.retries == record.retries,
        view.created_at@ == record.created_at.text@,
        view.updated_at@ == record.updated_at.text@,
        view.session_id is Some <==> record.session_id is Some,
        record.session_id is Some ==> view.session_id->Some_0@ == record.session_id->Some_0@,
        view.worktree_branch is Some <==> record.worktree_path is Some,
        view.worktree_branch is Some ==> view.worktree_branch->Some_0@ == "rdos/task/"@
            + record.id@,
        view.output_tokens is Some <==> record.usage is Some,
        record.usage is Some ==> view.output_tokens->Some_0 == record.usage->Some_0.output_tokens,
        record.spec.prompt@.len() <= 160 ==> view.prompt_snippet@ == record.spec.prompt@,
        record.spec.prompt@.len() > 160 ==> view.prompt_snippet@ == record.spec.prompt@.take(
            160,
        ).push('…'),
        view.last_agent_message is Some <==> record.last_agent_message is Some,
        record.last_agent_message matches Some(said) ==> {
            &&& said@.len() <= 200 ==> view.last_agent_message->Some_0@ == said@
            &&& said@.len() > 200 ==> view.last_agent_message->Some_0@ == said@.take(200).push('…')
        },
        view.diff_stat is Some <==> record.diff_stat is Some,
        record.diff_stat matches Some(diff) ==> {
            &&& diff@.len() <= 600 ==> view.diff_stat->Some_0@ == diff@
            &&& diff@.len() > 600 ==> view.diff_stat->Some_0@ == diff@.take(600).push('…')
        },
{
}

/// Law: whoever asks for one task is shown that task, and is told where there is
/// none.
pub proof fn law_one_task_is_shown(
    supervisor: Supervisor,
    id: TaskId,
    out: Result<Vec<TaskStatusView>, ServiceError>,
    view: TaskStatusView,
)
    requires
        call_ensures(Supervisor::status, (&supervisor, Some(id)), out),
        supervisor@.keyed(),
        supervisor@.tasks.contains_key(id.bits) ==> call_ensures(
            status::view_of,
            (&supervisor@.tasks[id.bits],),
            view,
        ),
    ensures
        out is Ok <==> supervisor@.tasks.contains_key(id.bits),
        out is Ok ==> out->Ok_0@.len() == 1 && out->Ok_0@[0].task_id@ == id@
            && out->Ok_0@[0].state@ == view.state@ && out->Ok_0@[0].retries == view.retries,
        out is Err ==> out->Err_0 is TaskNotFound && out->Err_0->TaskNotFound_task == id,
{
    if supervisor@.tasks.contains_key(id.bits) {
        assert(supervisor@.tasks[id.bits].id.bits == id.bits);
    }
}

/// Law: whoever asks for all tasks is shown each of them once, and none that was
/// made after one that stands before it.
pub proof fn law_all_tasks_are_shown_newest_first(
    supervisor: Supervisor,
    out: Result<Vec<TaskStatusView>, ServiceError>,
    i: int,
    j: int,
    id: u128,
)
    requires
        call_ensures(Supervisor::status, (&supervisor, None::<TaskId>), out),
        supervisor@.keyed(),
    ensures
        out is Ok,
        out->Ok_0@.len() == supervisor@.tasks.dom().len(),
        0 <= i < j < out->Ok_0@.len() ==> text::text_le(
            out->Ok_0@[j].created_at@,
            out->Ok_0@[i].created_at@,
        ),
        0 <= i < j < out->Ok_0@.len() ==> out->Ok_0@[i].task_id@ != out->Ok_0@[j].task_id@,
        supervisor@.tasks.contains_key(id) ==> exists|k: int|
            0 <= k < out->Ok_0@.len() && (#[trigger] out->Ok_0@[k]).task_id@ == (TaskId {
                bits: id,
            })@,
{
    let tasks = supervisor@.tasks;
    let views = out->Ok_0@;
    let order = choose|order: Seq<u128>| #[trigger] status::lists_all(tasks, order, views);
    order.unique_seq_to_set();
    assert forall|k: int| 0 <= k < order.len() implies tasks.contains_key(#[trigger] order[k]) by {
        assert(order.to_set().contains(order[k]));
    }
    if 0 <= i < j < views.len() {
        assert(tasks.contains_key(order[i]) && tasks.contains_key(order[j]));
        assert(views[i].shows(tasks[order[i]]));
        assert(views[j].shows(tasks[order[j]]));
        assert(status::made_at(tasks, order[i]) == views[i].created_at@);
        assert(status::made_at(tasks, order[j]) == views[j].created_at@);
        if views[i].task_id@ == views[j].task_id@ {
            crate::ids::law_uuid_text_is_injective(order[i], order[j]);
        }
    }
    if tasks.contains_key(id) {
        assert(order.to_set().contains(id));
        let k = choose|k: int| 0 <= k < order.len() && order[k] == id;
        assert(views[k].shows(tasks[id]));
        assert(tasks[id].id.bits == id);
        assert(views[k].task_id@ == (TaskId { bits: id })@);
    }
}

/// Law: the raw stream of a task is the one that its record names.
pub proof fn law_tails_are_of_the_named_stream(
    supervisor: Supervisor,
    task: TaskId,
    out: Result<Option<String>, ServiceError>,
)
    requires
        call_ensures(Supervisor::tail, (&supervisor, task), out),
    ensures
        out is Ok <==> supervisor@.tasks.contains_key(task.bits),
        out is Ok ==> out->Ok_0 == supervisor@.tasks[task.bits].events_path,
        out is Err ==> out->Err_0 is TaskNotFound && out->Err_0->TaskNotFound_task == task,
{
}

/// Law: an interruption is granted to a task that runs, once; a second one and
/// one of a task that does not run are refused, and an unknown task is told apart
/// from both. Nothing else is changed by it.
pub proof fn law_interruptions_are_granted_once(
    first: &mut Supervisor,
    second: &mut Supervisor,
    task: TaskId,
    one: Result<(), ServiceError>,
    two: Result<(), ServiceError>,
    other: u128,
)
    requires
        call_ensures(Supervisor::interrupt, (first, task), one),
        call_ensures(Supervisor::interrupt, (second, task), two),
        old(second)@ == final(first)@,
    ensures
        one is Ok <==> old(first)@.tasks.contains_key(task.bits) && old(first)@.running.contains(
            task.bits,
        ),
        !old(first)@.tasks.contains_key(task.bits) ==> one == Err::<(), ServiceError>(
            ServiceError::TaskNotFound { task },
        ),
        old(first)@.tasks.contains_key(task.bits) && one is Err ==> one == Err::<(), ServiceError>(
            ServiceError::TaskNotRunning { task },
        ),
        two is Err,
        one is Ok ==> two == Err::<(), ServiceError>(ServiceError::TaskNotRunning { task }),
        final(first)@.tasks == old(first)@.tasks,
        final(first)@.sessions == old(first)@.sessions,
        other != task.bits ==> final(first)@.running.contains(other) == old(
            first)@.running.contains(other),
{
}

/// Law: a shortened text is the text itself where it is short enough, and its
/// beginning with a mark where it is not.
pub proof fn law_texts_are_cut_at_the_limit(given: &str, max_chars: usize, out: String)
    requires
        call_ensures(service::truncate_chars, (given, max_chars), out),
    ensures
        given@.len() <= max_chars ==> out@ == given@,
        given@.len() > max_chars ==> out@.len() == max_chars + 1 && out@.last() == '…'
            && out@.drop_last() == given@.take(max_chars as int),
{
    if given@.len() > max_chars {
        assert(out@.drop_last() =~= given@.take(max_chars as int));
    }
}

} // verus!
