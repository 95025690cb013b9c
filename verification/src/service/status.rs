//! What is shown of tasks, and how a task is interrupted.

use super::{truncate_chars, Board, ServiceError, Supervisor, TaskStatusView};
use crate::registry;
use crate::registry::{JudgeOutcome, TaskId, TaskRecord, TaskState};
use crate::text;
use crate::worktree;
use std::collections::HashMap;
use vstd::prelude::*;

verus! {

/// How much of an error or an instruction is shown.
pub const SHOWN_CHARS: usize = 160;

/// How much of what the model said last is shown.
pub const SHOWN_MESSAGE_CHARS: usize = 200;

/// How much of a summary of changes is shown.
pub const SHOWN_DIFF_CHARS: usize = 600;

/// How far a task has come, in words.
pub open spec fn shown_state(state: TaskState) -> Seq<char> {
    match state {
        TaskState::Pending => "pending"@,
        TaskState::Running { pid } => "running (pid "@ + registry::shown_pid(pid) + ")"@,
        TaskState::Completed { judge } => match judge {
            JudgeOutcome::Passed => "completed · judge passed"@,
            JudgeOutcome::Failed { exit_code } => "completed · judge FAILED (exit "@
                + text::signed_decimal(exit_code as int) + ")"@,
            JudgeOutcome::NotJudged => "completed · not judged"@,
        },
        TaskState::Failed { error } => "failed: "@ + text::clipped(error@, SHOWN_CHARS as nat),
        TaskState::Interrupted => "interrupted"@,
    }
}

fn show_state(state: &TaskState) -> (out: String)
    ensures
        out@ == shown_state(*state),
{
    match state {
        TaskState::Pending => "pending".to_owned(),
        TaskState::Running { pid } => text::cat3(
            "running (pid ",
            registry::show_pid(*pid).as_str(),
            ")",
        ),
        TaskState::Completed { judge } => match judge {
            JudgeOutcome::Passed => "completed · judge passed".to_owned(),
            JudgeOutcome::Failed { exit_code } => text::cat3(
                "completed · judge FAILED (exit ",
                text::signed_decimal_text(*exit_code as i64).as_str(),
                ")",
            ),
            JudgeOutcome::NotJudged => "completed · not judged".to_owned(),
        },
        TaskState::Failed { error } => text::cat2(
            "failed: ",
            truncate_chars(error.as_str(), SHOWN_CHARS).as_str(),
        ),
        TaskState::Interrupted => "interrupted".to_owned(),
    }
}

/// An optional text, cut to size.
pub open spec fn opt_clipped(o: Option<String>, max: nat) -> Option<Seq<char>> {
    match o {
        Some(t) => Some(text::clipped(t@, max)),
        None => None,
    }
}

fn clip_opt(o: &Option<String>, max_chars: usize) -> (out: Option<String>)
    ensures
        text::opt_text(out) == opt_clipped(*o, max_chars as nat),
{
    match o {
        Some(t) => Some(truncate_chars(t.as_str(), max_chars)),
        None => None,
    }
}

impl TaskStatusView {
    /// Whether this is what is shown of `record`.
    pub open spec fn shows(&self, record: TaskRecord) -> bool {
        &&& self.task_id@ == record.id@
        &&& self.state@ == shown_state(record.state)
        &&& self.model_key@ == record.spec.model_key@
        &&& text::opt_text(self.session_id) == match record.session_id {
            Some(session) => Some(session@),
            None => None,
        }
        &&& text::opt_text(self.worktree_branch) == match record.worktree_path {
            Some(_) => Some(worktree::branch_of(record.id)),
            None => None,
        }
        &&& self.prompt_snippet@ == text::clipped(record.spec.prompt@, SHOWN_CHARS as nat)
        &&& text::opt_text(self.last_agent_message) == opt_clipped(
            record.last_agent_message,
            SHOWN_MESSAGE_CHARS as nat,
        )
        &&& self.output_tokens == match record.usage {
            Some(usage) => Some(usage.output_tokens),
            None => None,
        }
        &&& text::opt_text(self.diff_stat) == opt_clipped(
            record.diff_stat,
            SHOWN_DIFF_CHARS as nat,
        )
        &&& self.retries == record.retries
        &&& self.created_at@ == record.created_at.text@
        &&& self.updated_at@ == record.updated_at.text@
    }
}

/// What is shown of a task.
pub fn view_of(record: &TaskRecord) -> (view: TaskStatusView)
    ensures
        view.shows(*record),
{
    TaskStatusView {
        task_id: record.id.to_string(),
        state: show_state(&record.state),
        model_key: record.spec.model_key.clone(),
        session_id: match &record.session_id {
            Some(session) => Some(session.to_string()),
            None => None,
        },
        worktree_branch: match &record.worktree_path {
            Some(_) => Some(worktree::branch_name(record.id)),
            None => None,
        },
        prompt_snippet: truncate_chars(record.spec.prompt.as_str(), SHOWN_CHARS),
        last_agent_message: clip_opt(&record.last_agent_message, SHOWN_MESSAGE_CHARS),
        output_tokens: match &record.usage {
            Some(usage) => Some(usage.output_tokens),
            None => None,
        },
        diff_stat: clip_opt(&record.diff_stat, SHOWN_DIFF_CHARS),
        retries: record.retries,
        created_at: record.created_at.text.clone(),
        updated_at: record.updated_at.text.clone(),
    }
}

/// The text by which tasks are ordered: when they were made.
pub open spec fn made_at(tasks: Map<u128, TaskRecord>, id: u128) -> Seq<char> {
    tasks[id].created_at.text@
}

/// Whether no task in `order` was made after one that stands before it.
pub open spec fn newest_first(tasks: Map<u128, TaskRecord>, order: Seq<u128>) -> bool {
    forall|i: int, j: int|
        0 <= i < j < order.len() ==> text::text_le(
            #[trigger] made_at(tasks, order[j]),
            #[trigger] made_at(tasks, order[i]),
        )
}

/// Whether `views` shows all tasks, each once, newest first, in the given order.
pub open spec fn lists_all(
    tasks: Map<u128, TaskRecord>,
    order: Seq<u128>,
    views: Seq<TaskStatusView>,
) -> bool {
    &&& order.no_duplicates()
    &&& order.to_set() == tasks.dom()
    &&& newest_first(tasks, order)
    &&& views.len() == order.len()
    &&& forall|i: int| 0 <= i < views.len() ==> (#[trigger] views[i]).shows(tasks[order[i]])
}

/// Whether `views` shows all tasks, each once, newest first.
pub open spec fn shows_all(tasks: Map<u128, TaskRecord>, views: Seq<TaskStatusView>) -> bool {
    exists|order: Seq<u128>| #[trigger] lists_all(tasks, order, views)
}

/// Where a task goes in a list that is newest first: behind all that were not
/// made before it.
fn place_in_order(tasks: &HashMap<u128, TaskRecord>, order: &Vec<u128>, id: u128) -> (place: usize)
    requires
        tasks@.contains_key(id),
        forall|i: int| 0 <= i < order@.len() ==> tasks@.contains_key(#[trigger] order@[i]),
        newest_first(tasks@, order@),
    ensures
        place <= order@.len(),
        newest_first(tasks@, order@.insert(place as int, id)),
{
    broadcast use vstd::std_specs::hash::group_hash_axioms;

    let mut place: usize = 0;
    let new = match tasks.get(&id) {
        Some(record) => record.created_at.text.as_str(),
        None => "",
    };
    assert(new@ == made_at(tasks@, id));
    while place < order.len()
        invariant_except_break
            place <= order@.len(),
            forall|i: int|
                0 <= i < place ==> text::text_le(
                    made_at(tasks@, id),
                    #[trigger] made_at(tasks@, order@[i]),
                ),
        invariant
            new@ == made_at(tasks@, id),
            forall|i: int| 0 <= i < order@.len() ==> tasks@.contains_key(#[trigger] order@[i]),
        ensures
            place <= order@.len(),
            forall|i: int|
                0 <= i < place ==> text::text_le(
                    made_at(tasks@, id),
                    #[trigger] made_at(tasks@, order@[i]),
                ),
            place < order@.len() ==> !text::text_le(
                made_at(tasks@, id),
                made_at(tasks@, order@[place as int]),
            ),
        decreases order@.len() - place,
    {
        let key: u128 = order[place];
        let other = match tasks.get(&key) {
            Some(record) => record.created_at.text.as_str(),
            None => "",
        };
        assert(other@ == made_at(tasks@, order@[place as int]));
        if !text::at_most(new, other) {
            break;
        }
        place = place + 1;
    }
    proof {
        let longer = order@.insert(place as int, id);
        assert forall|i: int, j: int| 0 <= i < j < longer.len() implies text::text_le(
            #[trigger] made_at(tasks@, longer[j]),
            #[trigger] made_at(tasks@, longer[i]),
        ) by {
            let a = if i < place {
                i
            } else {
                i - 1
            };
            let b = if j < place {
                j
            } else {
                j - 1
            };
            if i == place {
                lemma_older_behind(tasks@, order@, place as int, id, b);
            } else if j == place {
                assert(longer[i] == order@[a]);
            } else {
                assert(longer[i] == order@[a]);
                assert(longer[j] == order@[b]);
            }
        }
    }
    place
}

proof fn lemma_older_behind(
    tasks: Map<u128, TaskRecord>,
    order: Seq<u128>,
    place: int,
    id: u128,
    at: int,
)
    requires
        0 <= place <= at < order.len(),
        newest_first(tasks, order),
        !text::text_le(made_at(tasks, id), made_at(tasks, order[place])),
    ensures
        text::text_le(made_at(tasks, order[at]), made_at(tasks, id)),
{
    let new = made_at(tasks, id);
    let first = made_at(tasks, order[place]);
    text::lemma_text_le_total(new, first);
    if at > place {
        text::lemma_text_le_transitive(made_at(tasks, order[at]), first, new);
    }
}

impl Supervisor {
    /// All tasks, newest first.
    fn ordered(&self) -> (order: Vec<u128>)
        ensures
            order@.no_duplicates(),
            order@.to_set() == self@.tasks.dom(),
            newest_first(self@.tasks, order@),
    {
        let ids = super::keys_of(&self.tasks);
        let ghost tasks = self.tasks@;
        let mut order: Vec<u128> = Vec::new();
        let mut at: usize = 0;
        while at < ids.len()
            invariant
                at <= ids@.len(),
                tasks == self.tasks@,
                ids@.no_duplicates(),
                ids@.to_set() == tasks.dom(),
                order@.no_duplicates(),
                order@.len() == at,
                forall|k: u128| order@.contains(k) <==> ids@.take(at as int).contains(k),
                newest_first(tasks, order@),
            decreases ids@.len() - at,
        {
            let id: u128 = ids[at];
            let ghost before = order@;
            assert(ids@.to_set().contains(id));
            assert forall|i: int| 0 <= i < order@.len() implies tasks.contains_key(
                #[trigger] order@[i],
            ) by {
                assert(order@.contains(order@[i]));
                let j = choose|j: int| 0 <= j < at && ids@.take(at as int)[j] == order@[i];
                assert(ids@[j] == order@[i]);
                assert(ids@.to_set().contains(order@[i]));
            }
            assert(!order@.contains(id)) by {
                if order@.contains(id) {
                    let j = choose|j: int| 0 <= j < at && ids@.take(at as int)[j] == id;
                    assert(ids@[j] == ids@[at as int]);
                }
            }
            let place = place_in_order(&self.tasks, &order, id);
            order.insert(place, id);
            proof {
                let longer = before.insert(place as int, id);
                assert(order@ == longer);
                lemma_insert_keeps_distinct(before, place as int, id);
                assert forall|k: u128| longer.contains(k) <==> ids@.take(at + 1).contains(k) by {
                    lemma_insert_contains(before, place as int, id, k);
                    assert(ids@.take(at + 1) =~= ids@.take(at as int).push(id));
                    lemma_push_contains(ids@.take(at as int), id, k);
                }
            }
            at = at + 1;
        }
        assert(ids@.take(at as int) =~= ids@);
        assert(order@.to_set() =~= ids@.to_set()) by {
            assert forall|k: u128| order@.to_set().contains(k) <==> ids@.to_set().contains(k) by {
                assert(order@.contains(k) <==> ids@.contains(k));
            }
        }
        order
    }

    /// What is shown of all tasks, newest first.
    fn show_all(&self) -> (views: Vec<TaskStatusView>)
        ensures
            shows_all(self@.tasks, views@),
    {
        broadcast use vstd::std_specs::hash::group_hash_axioms;

        let mut views: Vec<TaskStatusView> = Vec::new();
        let order = self.ordered();
        let ghost tasks = self.tasks@;
        let mut at: usize = 0;
        while at < order.len()
            invariant
                at <= order@.len(),
                tasks == self.tasks@,
                order@.to_set() == tasks.dom(),
                views@.len() == at,
                forall|i: int| 0 <= i < at ==> (#[trigger] views@[i]).shows(tasks[order@[i]]),
            decreases order@.len() - at,
        {
            let key: u128 = order[at];
            assert(order@.to_set().contains(key));
            match self.tasks.get(&key) {
                Some(record) => {
                    views.push(view_of(record));
                },
                None => {
                    assert(false);
                },
            }
            at = at + 1;
        }
        assert(lists_all(self@.tasks, order@, views@));
        views
    }

    /// What is shown of one task, or of all tasks, newest first.
    pub fn status(&self, task: Option<TaskId>) -> (out: Result<Vec<TaskStatusView>, ServiceError>)
        ensures
            match task {
                Some(id) => if self@.tasks.contains_key(id.bits) {
                    out matches Ok(views) && views@.len() == 1 && views@[0].shows(
                        self@.tasks[id.bits],
                    )
                } else {
                    out matches Err(ServiceError::TaskNotFound { task: missing }) && missing == id
                },
                None => out matches Ok(views) && shows_all(self@.tasks, views@),
            },
    {
        broadcast use vstd::std_specs::hash::group_hash_axioms;

        match task {
            Some(id) => match self.tasks.get(&id.bits) {
                Some(record) => {
                    let mut views: Vec<TaskStatusView> = Vec::new();
                    views.push(view_of(record));
                    Ok(views)
                },
                None => Err(ServiceError::TaskNotFound { task: id }),
            },
            None => Ok(self.show_all()),
        }
    }

    /// The raw event stream of a task, if it has one yet.
    pub fn tail(&self, task: TaskId) -> (out: Result<Option<String>, ServiceError>)
        ensures
            out == if self@.tasks.contains_key(task.bits) {
                Ok::<Option<String>, ServiceError>(self@.tasks[task.bits].events_path)
            } else {
                Err(ServiceError::TaskNotFound { task })
            },
    {
        broadcast use vstd::std_specs::hash::group_hash_axioms;

        match self.tasks.get(&task.bits) {
            Some(record) => Ok(text::clone_opt(&record.events_path)),
            None => Err(ServiceError::TaskNotFound { task }),
        }
    }

    /// Interrupts a task. Only a task that runs and was not interrupted before
    /// can be. Where the answer is yes, its process group has to be killed.
    pub fn interrupt(&mut self, task: TaskId) -> (out: Result<(), ServiceError>)
        ensures
            final(self).same_setup(old(self)),
            final(self)@ == old(self)@.interrupted(task),
            out == if !old(self)@.tasks.contains_key(task.bits) {
                Err::<(), ServiceError>(ServiceError::TaskNotFound { task })
            } else if old(self)@.running.contains(task.bits) {
                Ok(())
            } else {
                Err(ServiceError::TaskNotRunning { task })
            },
            old(self)@.wf() ==> final(self)@.wf(),
    {
        broadcast use vstd::std_specs::hash::group_hash_axioms;

        if !self.tasks.contains_key(&task.bits) {
            return Err(ServiceError::TaskNotFound { task });
        }
        if self.running.remove(&task.bits) {
            Ok(())
        } else {
            Err(ServiceError::TaskNotRunning { task })
        }
    }
}

/// What a failure to read a raw event stream is reported as.
pub fn tail_failed(task: TaskId, detail: String) -> (out: ServiceError)
    ensures
        out matches ServiceError::Io { context, detail: why } && why == detail && context@
            == "read events for "@ + task@,
{
    ServiceError::Io {
        context: text::cat2("read events for ", task.to_string().as_str()),
        detail,
    }
}

proof fn lemma_insert_contains(s: Seq<u128>, at: int, new: u128, k: u128)
    requires
        0 <= at <= s.len(),
    ensures
        s.insert(at, new).contains(k) <==> s.contains(k) || k == new,
{
    let longer = s.insert(at, new);
    assert(longer[at] == new);
    if s.contains(k) {
        let i = choose|i: int| 0 <= i < s.len() && s[i] == k;
        if i < at {
            assert(longer[i] == k);
        } else {
            assert(longer[i + 1] == k);
        }
    }
    if longer.contains(k) && k != new {
        let i = choose|i: int| 0 <= i < longer.len() && longer[i] == k;
        if i < at {
            assert(s[i] == k);
        } else {
            assert(s[i - 1] == k);
        }
    }
}

proof fn lemma_push_contains(s: Seq<u128>, new: u128, k: u128)
    ensures
        s.push(new).contains(k) <==> s.contains(k) || k == new,
{
    lemma_insert_contains(s, s.len() as int, new, k);
    assert(s.insert(s.len() as int, new) =~= s.push(new));
}

proof fn lemma_insert_keeps_distinct(s: Seq<u128>, at: int, new: u128)
    requires
        0 <= at <= s.len(),
        s.no_duplicates(),
        !s.contains(new),
    ensures
        s.insert(at, new).no_duplicates(),
{
    let longer = s.insert(at, new);
    assert forall|i: int, j: int|
        0 <= i < longer.len() && 0 <= j < longer.len() && i != j implies longer[i] != longer[j] by {
        let a = if i < at {
            i
        } else {
            i - 1
        };
        let b = if j < at {
            j
        } else {
            j - 1
        };
        if i == at {
            assert(s[b] != new);
        } else if j == at {
            assert(s[a] != new);
        } else {
            assert(s[a] != s[b]);
        }
    }
}

/// Law: an interruption is granted once. After it the task can still be looked
/// at, and a second interruption is refused.
pub proof fn law_interruption_is_granted_once(board: Board, task: TaskId)
    requires
        board.tasks.contains_key(task.bits),
    ensures
        ({
            let after = board.interrupted(task);
            &&& !after.running.contains(task.bits)
            &&& after.tasks == board.tasks
            &&& after.sessions == board.sessions
        }),
{
}

} // verus!
