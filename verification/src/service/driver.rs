//! From launch to the end of a task: what is made of the events of a run, when it
//! is launched again, and how the task is settled.

use super::{truncate_chars, Board, RecordWrite, Supervisor};
use crate::acceptance;
use crate::acceptance::{Ending, JudgeRun, StreamWatch};
use crate::clock;
use crate::events::{ThreadEvent, Usage};
use crate::executor::{ExecError, ExecutorEvent, LaunchPlan, TaskExit};
use crate::paths;
use crate::registry::{JudgeOutcome, TaskId, TaskRecord, TaskState};
use crate::service;
use crate::session::{RolloutRef, SessionId, SessionRecord};
use crate::text;
use crate::worktree;
use crate::worktree::{ReclaimMode, WorktreeHandle};
use vstd::prelude::*;

verus! {

/// What watches over a task until it ends.
#[derive(Debug)]
pub struct Drive {
    /// The task.
    pub task_id: TaskId,
    /// Its session.
    pub session_id: SessionId,
    /// Its checkout, where it has one of its own.
    pub checkout: Option<WorktreeHandle>,
    /// What was launched, and is launched again after a transient failure.
    pub plan: LaunchPlan,
    /// Where the raw event stream of the first run is kept.
    pub events_path: String,
    /// How often it was launched again.
    pub attempt: u32,
    /// After how many equal tool failures in a row it is stopped.
    pub breaker_threshold: u32,
}

/// What an event of a run calls for.
#[derive(Debug)]
pub struct WatchStep {
    /// The record of the session, if it was changed.
    pub write: Option<RecordWrite>,
    /// Whether the process group of the run has to be killed.
    pub kill: bool,
}

/// Whether `after` is what becomes of `before` when the conversation of a session
/// becomes known.
pub open spec fn is_linked(
    before: Board,
    after: Board,
    session: SessionId,
    conversation: Seq<char>,
) -> bool {
    if before.sessions.contains_key(session.bits) {
        let linked = after.sessions[session.bits];
        &&& after == (Board { sessions: before.sessions.insert(session.bits, linked), ..before })
        &&& linked == (SessionRecord {
            rollout: RolloutRef {
                conversation_id: linked.rollout.conversation_id,
                ..before.sessions[session.bits].rollout
            },
            updated_at: linked.updated_at,
            ..before.sessions[session.bits]
        })
        &&& text::opt_text(linked.rollout.conversation_id) == Some(conversation)
        &&& clock::is_utc_instant(linked.updated_at.text@)
    } else {
        after == before
    }
}

proof fn lemma_same_holder_stays_leased(before: Board, after: Board, key: u128)
    requires
        before.wf(),
        before.sessions.contains_key(key),
        after.sessions == before.sessions.insert(key, after.sessions[key]),
        after.sessions[key].id == before.sessions[key].id,
        after.sessions[key].owner == before.sessions[key].owner,
        after.tasks == before.tasks,
        after.running == before.running,
    ensures
        after.wf(),
{
    assert forall|k: u128| #[trigger] after.sessions.contains_key(k) implies after.sessions[k].id.bits
        == k by {
        assert(before.sessions.contains_key(k));
    }
    assert forall|k: u128| #[trigger]
        after.tasks.contains_key(k) && after.tasks[k].state is Running implies after.tasks[k].session_id
        is Some && after.holds(after.tasks[k].id, after.tasks[k].session_id->Some_0) by {
        assert(before.tasks.contains_key(k) && before.tasks[k].state is Running);
    }
}

impl Supervisor {
    /// Notes the conversation of a session.
    fn link_session(&mut self, session: SessionId, conversation: &str) -> (write: Option<
        RecordWrite,
    >)
        ensures
            final(self).same_setup(old(self)),
            is_linked(old(self)@, final(self)@, session, conversation@),
            match write {
                Some(written) => old(self)@.sessions.contains_key(session.bits)
                    && written.writes_session(
                    old(self).home_dir(),
                    final(self)@.sessions[session.bits],
                ),
                None => !old(self)@.sessions.contains_key(session.bits),
            },
            old(self)@.wf() ==> final(self)@.wf(),
    {
        broadcast use vstd::std_specs::hash::group_hash_axioms;

        let ghost before = self@;
        match self.sessions.remove(&session.bits) {
            Some(found) => {
                let mut record = found;
                record.rollout.conversation_id = Some(conversation.to_owned());
                record.touch();
                let write = super::session_write(&self.home, &record);
                self.sessions.insert(session.bits, record);
                assert(self@.sessions =~= before.sessions.insert(session.bits, record));
                proof {
                    if before.wf() {
                        lemma_same_holder_stays_leased(before, self@, session.bits);
                    }
                }
                Some(write)
            },
            None => {
                assert(self@.sessions =~= before.sessions);
                None
            },
        }
    }

    /// Takes in an event of a run. The conversation is noted as soon as it is
    /// known, so that the session can be resumed whatever happens next; and a
    /// run on which the breaker trips is interrupted, unless somebody was
    /// faster.
    pub fn observe(&mut self, drive: &Drive, watch: &mut StreamWatch, event: &ExecutorEvent) -> (out:
        WatchStep)
        requires
            old(watch).wf(),
        ensures
            final(watch).wf(),
            final(watch)@ == old(watch)@.after(*event),
            final(self).same_setup(old(self)),
            match *event {
                ExecutorEvent::Parsed(ThreadEvent::ThreadStarted { thread_id }) => {
                    &&& is_linked(old(self)@, final(self)@, drive.session_id, thread_id@)
                    &&& !out.kill
                    &&& out.write is Some == old(self)@.sessions.contains_key(drive.session_id.bits)
                    &&& out.write is Some ==> out.write->Some_0.writes_session(
                        old(self).home_dir(),
                        final(self)@.sessions[drive.session_id.bits],
                    )
                },
                _ => {
                    &&& out.write is None
                    &&& if old(watch)@.tripped is None && final(watch)@.tripped is Some {
                        &&& final(self)@ == old(self)@.interrupted(drive.task_id)
                        &&& out.kill == (old(self)@.tasks.contains_key(drive.task_id.bits) && old(
                            self,
                        )@.running.contains(drive.task_id.bits))
                    } else {
                        final(self)@ == old(self)@ && !out.kill
                    }
                },
            },
            old(self)@.wf() ==> final(self)@.wf(),
    {
        let stop = watch.note(event);
        match event {
            ExecutorEvent::Parsed(ThreadEvent::ThreadStarted { thread_id }) => {
                let write = self.link_session(drive.session_id, thread_id.as_str());
                WatchStep { write, kill: false }
            },
            _ => {
                let kill = if stop {
                    self.interrupt(drive.task_id).is_ok()
                } else {
                    false
                };
                WatchStep { write: None, kill }
            },
        }
    }
}

/// How a run has come to its end.
#[derive(Debug)]
pub enum AttemptEnd {
    /// It ended, and these are the facts.
    Exited(TaskExit),
    /// It could not be carried out.
    Broken(ExecError),
    /// What carried it out broke down.
    Panicked {
        /// How.
        error: String,
    },
}

/// How a task ends, and what becomes of its checkout.
#[derive(Debug)]
pub struct Settlement {
    /// The task.
    pub task_id: TaskId,
    /// Its session.
    pub session_id: SessionId,
    /// How it ends.
    pub state: TaskState,
    /// What its last turn cost.
    pub usage: Option<Usage>,
    /// What the model said last.
    pub last_agent_message: Option<String>,
    /// Its checkout, where it has one of its own.
    pub checkout: Option<WorktreeHandle>,
    /// What becomes of its branch.
    pub reclaim: ReclaimMode,
}

/// A task that says that it succeeded, and is up to the judge.
#[derive(Debug)]
pub struct Judging {
    /// The task.
    pub task_id: TaskId,
    /// Its session.
    pub session_id: SessionId,
    /// The script that judges.
    pub script: String,
    /// Where it is run.
    pub cwd: String,
    /// What the last turn of the task cost.
    pub usage: Option<Usage>,
    /// What the model said last.
    pub last_agent_message: Option<String>,
    /// The checkout of the task, where it has one of its own.
    pub checkout: Option<WorktreeHandle>,
    /// What becomes of its branch.
    pub reclaim: ReclaimMode,
}

/// What to do when a run has come to its end.
#[derive(Debug)]
pub enum NextStep {
    /// Launch the same again.
    Relaunch {
        /// What watches over the task, with one more attempt counted.
        drive: Drive,
        /// Where the raw event stream of the new run is kept.
        events_path: String,
        /// The record of the task, if it was changed.
        write: Option<RecordWrite>,
    },
    /// Ask the judge.
    Judge(Judging),
    /// Settle the task.
    Settle(Settlement),
}

/// Where the raw event stream of the run after `attempt` others is kept.
pub open spec fn retry_events(events_path: Seq<char>, attempt: nat) -> Seq<char> {
    paths::path_with_extension(
        events_path,
        "a"@ + text::decimal(attempt + 1) + ".jsonl"@,
    )
}

/// Whether `settlement` ends the task of `drive` before the facts of a run were
/// known.
pub open spec fn is_breakdown(settlement: Settlement, drive: Drive, error: Seq<char>) -> bool {
    &&& settlement.task_id == drive.task_id
    &&& settlement.session_id == drive.session_id
    &&& settlement.state is Failed
    &&& settlement.state->error@ == error
    &&& settlement.usage is None
    &&& settlement.last_agent_message is None
    &&& settlement.checkout == drive.checkout
    &&& settlement.reclaim == ReclaimMode::DeleteBranch
}

fn breakdown(drive: Drive, error: String) -> (out: Settlement)
    ensures
        is_breakdown(out, drive, error@),
{
    Settlement {
        task_id: drive.task_id,
        session_id: drive.session_id,
        state: TaskState::Failed { error },
        usage: None,
        last_agent_message: None,
        checkout: drive.checkout,
        reclaim: ReclaimMode::DeleteBranch,
    }
}

impl Board {
    /// The command that judges a task, if any.
    pub open spec fn judge_of(self, task: TaskId) -> Option<crate::registry::JudgeSpec> {
        if self.tasks.contains_key(task.bits) {
            self.tasks[task.bits].spec.judge
        } else {
            None
        }
    }

    /// Where a task is judged: where it worked.
    pub open spec fn judged_in(self, drive: Drive) -> Option<String> {
        match drive.checkout {
            Some(handle) => Some(handle.task_cwd),
            None => if self.tasks.contains_key(drive.task_id.bits) {
                Some(self.tasks[drive.task_id.bits].spec.cwd)
            } else {
                None
            },
        }
    }

    /// Whether the branch of a task is kept for review.
    pub open spec fn reviewed(self, task: TaskId) -> bool {
        self.tasks.contains_key(task.bits) ==> self.tasks[task.bits].spec.diff_first
    }
}

/// Whether `after` is what becomes of `before` when a task is about to be
/// launched again.
pub open spec fn is_retried(
    before: Board,
    after: Board,
    task: TaskId,
    attempt: u32,
    events_path: String,
) -> bool {
    if before.tasks.contains_key(task.bits) {
        after == (Board {
            tasks: before.tasks.insert(
                task.bits,
                TaskRecord {
                    retries: attempt,
                    events_path: Some(events_path),
                    ..before.tasks[task.bits]
                },
            ),
            ..before
        })
    } else {
        after == before
    }
}

/// Whether `next` is what comes of a run that is not launched again.
pub open spec fn is_concluded(
    next: NextStep,
    board: Board,
    drive: Drive,
    exit: TaskExit,
    notes: acceptance::Notes,
) -> bool {
    let outcome = acceptance::outcome_of(exit, notes);
    let reclaim = acceptance::reclaim_for(outcome, board.reviewed(drive.task_id));
    let judge = board.judge_of(drive.task_id);
    let cwd = board.judged_in(drive);
    if outcome is SelfReported && judge is Some && cwd is Some {
        next matches NextStep::Judge(judging) && {
            &&& judging.task_id == drive.task_id
            &&& judging.session_id == drive.session_id
            &&& judging.script@ == acceptance::script_of(judge->Some_0.command@)
            &&& judging.cwd == cwd->Some_0
            &&& judging.usage == exit.usage
            &&& judging.last_agent_message == exit.last_agent_message
            &&& judging.checkout == drive.checkout
            &&& judging.reclaim == reclaim
        }
    } else {
        next matches NextStep::Settle(settlement) && {
            &&& settlement.task_id == drive.task_id
            &&& settlement.session_id == drive.session_id
            &&& match outcome {
                acceptance::Outcome::Failed(error) => settlement.state is Failed
                    && settlement.state->error@ == error,
                acceptance::Outcome::Interrupted => settlement.state is Interrupted,
                acceptance::Outcome::SelfReported => settlement.state == (TaskState::Completed {
                    judge: JudgeOutcome::NotJudged,
                }),
            }
            &&& settlement.usage == exit.usage
            &&& settlement.last_agent_message == exit.last_agent_message
            &&& settlement.checkout == drive.checkout
            &&& settlement.reclaim == reclaim
        }
    }
}

impl Supervisor {
    /// The command that judges a task, and where: nothing where there is none.
    fn judge_for(&self, drive: &Drive) -> (out: Option<(String, String)>)
        ensures
            match out {
                Some((script, cwd)) => {
                    &&& self@.judge_of(drive.task_id) is Some
                    &&& self@.judged_in(*drive) == Some(cwd)
                    &&& script@ == acceptance::script_of(
                        self@.judge_of(drive.task_id)->Some_0.command@,
                    )
                },
                None => self@.judge_of(drive.task_id) is None || self@.judged_in(*drive) is None,
            },
    {
        broadcast use vstd::std_specs::hash::group_hash_axioms;

        match self.tasks.get(&drive.task_id.bits) {
            None => None,
            Some(task) => match &task.spec.judge {
                None => None,
                Some(judge) => {
                    let script = acceptance::judge_script(judge);
                    let cwd = match &drive.checkout {
                        Some(handle) => handle.task_cwd.clone(),
                        None => task.spec.cwd.clone(),
                    };
                    Some((script, cwd))
                },
            },
        }
    }

    /// Whether the branch of a task is kept for review.
    fn keeps_branch(&self, task: TaskId) -> (out: bool)
        ensures
            out == self@.reviewed(task),
    {
        broadcast use vstd::std_specs::hash::group_hash_axioms;

        match self.tasks.get(&task.bits) {
            Some(record) => record.spec.diff_first,
            None => true,
        }
    }

    /// Concludes a run that is not launched again.
    fn conclude(&self, drive: Drive, exit: TaskExit, watch: &StreamWatch) -> (next: NextStep)
        ensures
            is_concluded(next, self@, drive, exit, watch@),
    {
        let ending = acceptance::ending_of(&exit, watch);
        let reclaim = acceptance::reclaim_mode(&ending, self.keeps_branch(drive.task_id));
        let state = match ending {
            Ending::Failed { error } => TaskState::Failed { error },
            Ending::Interrupted => TaskState::Interrupted,
            Ending::SelfReported => {
                match self.judge_for(&drive) {
                    Some((script, cwd)) => {
                        return NextStep::Judge(
                            Judging {
                                task_id: drive.task_id,
                                session_id: drive.session_id,
                                script,
                                cwd,
                                usage: exit.usage,
                                last_agent_message: exit.last_agent_message,
                                checkout: drive.checkout,
                                reclaim,
                            },
                        );
                    },
                    None => TaskState::Completed { judge: JudgeOutcome::NotJudged },
                }
            },
        };
        NextStep::Settle(
            Settlement {
                task_id: drive.task_id,
                session_id: drive.session_id,
                state,
                usage: exit.usage,
                last_agent_message: exit.last_agent_message,
                checkout: drive.checkout,
                reclaim,
            },
        )
    }

    /// Notes in the record of a task that it is about to be launched again.
    fn note_retry(&mut self, task: TaskId, attempt: u32, events_path: &String) -> (write: Option<
        RecordWrite,
    >)
        ensures
            final(self).same_setup(old(self)),
            is_retried(old(self)@, final(self)@, task, attempt, *events_path),
            match write {
                Some(written) => old(self)@.tasks.contains_key(task.bits) && written.writes_task(
                    old(self).home_dir(),
                    final(self)@.tasks[task.bits],
                ),
                None => !old(self)@.tasks.contains_key(task.bits),
            },
            old(self)@.wf() ==> final(self)@.wf(),
    {
        broadcast use vstd::std_specs::hash::group_hash_axioms;

        let ghost before = self@;
        match self.tasks.remove(&task.bits) {
            Some(found) => {
                let mut record = found;
                record.retries = attempt;
                record.events_path = Some(events_path.clone());
                let write = super::task_write(&self.home, &record);
                self.tasks.insert(task.bits, record);
                assert(self@.tasks =~= before.tasks.insert(task.bits, record));
                Some(write)
            },
            None => {
                assert(self@.tasks =~= before.tasks);
                None
            },
        }
    }

    /// Decides what follows when a run has come to its end: the same again after
    /// a transient failure, the judge where the run says that it succeeded, and
    /// otherwise the end of the task.
    pub fn attempt_ended(&mut self, drive: Drive, end: AttemptEnd, watch: &StreamWatch) -> (next:
        NextStep)
        ensures
            final(self).same_setup(old(self)),
            match end {
                AttemptEnd::Broken(error) => {
                    &&& final(self)@ == old(self)@
                    &&& next matches NextStep::Settle(settlement) && is_breakdown(
                        settlement,
                        drive,
                        "executor: "@ + error.words(),
                    )
                },
                AttemptEnd::Panicked { error } => {
                    &&& final(self)@ == old(self)@
                    &&& next matches NextStep::Settle(settlement) && is_breakdown(
                        settlement,
                        drive,
                        "executor task panicked: "@ + error@,
                    )
                },
                AttemptEnd::Exited(exit) => if acceptance::worth_retrying(
                    exit,
                    watch@,
                    drive.attempt,
                ) {
                    next matches NextStep::Relaunch { drive: again, events_path, write } && {
                        &&& again == (Drive { attempt: (drive.attempt + 1) as u32, ..drive })
                        &&& again.attempt <= acceptance::MAX_SOUTHBOUND_RETRIES
                        &&& events_path@ == retry_events(
                            drive.events_path@,
                            again.attempt as nat,
                        )
                        &&& is_retried(
                            old(self)@,
                            final(self)@,
                            drive.task_id,
                            again.attempt,
                            events_path,
                        )
                        &&& write is Some == old(self)@.tasks.contains_key(drive.task_id.bits)
                        &&& write is Some ==> write->Some_0.writes_task(
                            old(self).home_dir(),
                            final(self)@.tasks[drive.task_id.bits],
                        )
                    }
                } else {
                    &&& final(self)@ == old(self)@
                    &&& is_concluded(next, old(self)@, drive, exit, watch@)
                },
            },
            old(self)@.wf() ==> final(self)@.wf(),
    {
        match end {
            AttemptEnd::Broken(error) => {
                let message = text::cat2("executor: ", error.message().as_str());
                NextStep::Settle(breakdown(drive, message))
            },
            AttemptEnd::Panicked { error } => {
                let message = text::cat2("executor task panicked: ", error.as_str());
                NextStep::Settle(breakdown(drive, message))
            },
            AttemptEnd::Exited(exit) => {
                if !acceptance::should_retry(&exit, watch, drive.attempt) {
                    return self.conclude(drive, exit, watch);
                }
                let attempt: u32 = drive.attempt + 1;
                let extension = text::cat3(
                    "a",
                    text::decimal_text(attempt as u128 + 1).as_str(),
                    ".jsonl",
                );
                let events_path = paths::with_extension(
                    drive.events_path.as_str(),
                    extension.as_str(),
                );
                let write = self.note_retry(drive.task_id, attempt, &events_path);
                NextStep::Relaunch {
                    drive: Drive {
                        task_id: drive.task_id,
                        session_id: drive.session_id,
                        checkout: drive.checkout,
                        plan: drive.plan,
                        events_path: drive.events_path,
                        attempt,
                        breaker_threshold: drive.breaker_threshold,
                    },
                    events_path,
                    write,
                }
            },
        }
    }
}

/// What to do once a task was launched again, or was not.
#[derive(Debug)]
pub enum RelaunchStep {
    /// Watch the new run.
    Watch {
        /// What watches over the task.
        drive: Drive,
        /// The record of the task, if there is one.
        write: Option<RecordWrite>,
    },
    /// Settle the task.
    Settle(Settlement),
}

/// Whether `after` is what becomes of `before` when a task was launched again.
pub open spec fn is_relaunched(before: Board, after: Board, task: TaskId, pid: Option<u32>) -> bool {
    let running = before.running.insert(task.bits);
    if before.tasks.contains_key(task.bits) {
        let record = before.tasks[task.bits];
        let moved = after.tasks[task.bits];
        let next = TaskState::Running { pid };
        &&& after == (Board { tasks: before.tasks.insert(task.bits, moved), running, ..before })
        &&& if record.state.leads_to(next) {
            &&& moved == record.moved(next, moved.updated_at)
            &&& clock::is_utc_instant(moved.updated_at.text@)
        } else {
            moved == record
        }
    } else {
        after == (Board { running, ..before })
    }
}

/// Settles a task as the judge says.
pub fn settle_judged(judging: Judging, run: JudgeRun) -> (out: Settlement)
    ensures
        out.task_id == judging.task_id,
        out.session_id == judging.session_id,
        out.state is Completed,
        out.state->judge is Passed <==> run == (JudgeRun::Exited { code: Some(0i32) }),
        !(out.state->judge is NotJudged),
        out.state->judge matches JudgeOutcome::Failed { exit_code } ==> exit_code == match run {
            JudgeRun::NotStarted => acceptance::JUDGE_NOT_STARTED,
            JudgeRun::Exited { code: Some(code) } => code,
            JudgeRun::Exited { code: None } => acceptance::JUDGE_LOST,
            JudgeRun::Lost => acceptance::JUDGE_LOST,
            JudgeRun::TimedOut => acceptance::JUDGE_TIMED_OUT,
        },
        out.usage == judging.usage,
        out.last_agent_message == judging.last_agent_message,
        out.checkout == judging.checkout,
        out.reclaim == judging.reclaim,
{
    Settlement {
        task_id: judging.task_id,
        session_id: judging.session_id,
        state: TaskState::Completed { judge: acceptance::judged(run) },
        usage: judging.usage,
        last_agent_message: judging.last_agent_message,
        checkout: judging.checkout,
        reclaim: judging.reclaim,
    }
}

/// How much of what the model said last is kept.
pub const MESSAGE_ARCHIVE_CHARS: usize = 2000;

/// Whether what a task has changed is committed to its branch before its checkout
/// goes. Otherwise it would be lost, since models rarely commit.
pub open spec fn is_preserved(settlement: Settlement) -> bool {
    settlement.checkout is Some && settlement.reclaim == ReclaimMode::KeepBranch
}

/// What the commit says that keeps what a task has changed; nothing where
/// nothing is kept.
pub fn preserving_commit(settlement: &Settlement) -> (out: Option<String>)
    ensures
        text::opt_text(out) == if is_preserved(*settlement) {
            Some(worktree::commit_words(settlement.task_id))
        } else {
            None
        },
{
    if settlement.checkout.is_some() && settlement.reclaim == ReclaimMode::KeepBranch {
        Some(worktree::commit_message(settlement.task_id))
    } else {
        None
    }
}

/// What remains to be done when a task is settled.
#[derive(Debug)]
pub struct Closing {
    /// The record of the task, if there is one.
    pub task: Option<RecordWrite>,
    /// The record of the session, if it was changed.
    pub session: Option<RecordWrite>,
    /// The checkout to remove, where there is one.
    pub checkout: Option<WorktreeHandle>,
    /// What becomes of its branch.
    pub reclaim: ReclaimMode,
}

/// Whether `after` is what becomes of a task record when the task is settled. An
/// illegal end is not recorded; what else is known of the run is.
pub open spec fn is_closed(
    before: TaskRecord,
    after: TaskRecord,
    settlement: Settlement,
    diff_stat: Option<String>,
) -> bool {
    let noted = TaskRecord {
        usage: settlement.usage,
        last_agent_message: after.last_agent_message,
        diff_stat: if is_preserved(settlement) {
            diff_stat
        } else {
            None
        },
        ..before
    };
    &&& text::opt_text(after.last_agent_message) == match settlement.last_agent_message {
        Some(message) => Some(text::clipped(message@, MESSAGE_ARCHIVE_CHARS as nat)),
        None => None,
    }
    &&& if before.state.leads_to(settlement.state) {
        &&& after == noted.moved(settlement.state, after.updated_at)
        &&& clock::is_utc_instant(after.updated_at.text@)
    } else {
        after == noted
    }
}

/// Whether `after` is what becomes of `before` when a task is settled.
pub open spec fn is_finalized(
    before: Board,
    after: Board,
    settlement: Settlement,
    diff_stat: Option<String>,
) -> bool {
    let id = settlement.task_id.bits;
    let closed = Board {
        tasks: after.tasks,
        sessions: before.sessions,
        running: before.running.remove(id),
    };
    &&& if before.tasks.contains_key(id) {
        &&& after.tasks == before.tasks.insert(id, after.tasks[id])
        &&& is_closed(before.tasks[id], after.tasks[id], settlement, diff_stat)
    } else {
        after.tasks == before.tasks
    }
    &&& service::is_released(closed, after, settlement.session_id, settlement.task_id)
}

proof fn lemma_running_stays_leased(before: Board, after: Board, id: u128)
    requires
        before.wf(),
        before.tasks.contains_key(id),
        before.tasks[id].state is Running,
        after.tasks == before.tasks.insert(id, after.tasks[id]),
        after.tasks[id].state is Running,
        after.tasks[id].id == before.tasks[id].id,
        after.tasks[id].session_id == before.tasks[id].session_id,
        after.sessions == before.sessions,
        after.running == before.running.insert(id),
    ensures
        after.wf(),
{
    assert forall|k: u128| #[trigger]
        after.tasks.contains_key(k) && after.tasks[k].state is Running implies after.tasks[k].session_id
        is Some && after.holds(after.tasks[k].id, after.tasks[k].session_id->Some_0) by {
        assert(before.tasks.contains_key(k) && before.tasks[k].state is Running);
    }
    assert forall|k: u128| #[trigger] after.tasks.contains_key(k) implies after.tasks[k].id.bits
        == k by {
        assert(before.tasks.contains_key(k));
    }
    assert forall|k: u128| #[trigger] after.running.contains(k) implies after.tasks.contains_key(k)
        && after.tasks[k].state is Running by {
        if k != id {
            assert(before.running.contains(k));
        }
    }
}

impl Supervisor {
    /// Goes on once a task was launched again, or was not. A task that could not
    /// be launched again has failed.
    pub fn relaunched(&mut self, drive: Drive, launch: Result<Option<u32>, ExecError>) -> (next:
        RelaunchStep)
        ensures
            final(self).same_setup(old(self)),
            match launch {
                Err(error) => {
                    &&& final(self)@ == old(self)@
                    &&& next matches RelaunchStep::Settle(settlement) && is_breakdown(
                        settlement,
                        drive,
                        "南向重试第 "@ + text::decimal(drive.attempt as nat) + " 次发射失败: "@
                            + error.words(),
                    )
                },
                Ok(pid) => {
                    &&& is_relaunched(old(self)@, final(self)@, drive.task_id, pid)
                    &&& next matches RelaunchStep::Watch { drive: watched, write } && {
                        &&& watched == drive
                        &&& write is Some == old(self)@.tasks.contains_key(drive.task_id.bits)
                        &&& write is Some ==> write->Some_0.writes_task(
                            old(self).home_dir(),
                            final(self)@.tasks[drive.task_id.bits],
                        )
                    }
                },
            },
            old(self)@.wf() && old(self)@.tasks.contains_key(drive.task_id.bits) && old(
                self,
            )@.tasks[drive.task_id.bits].state is Running ==> final(self)@.wf(),
    {
        broadcast use vstd::std_specs::hash::group_hash_axioms;

        match launch {
            Err(error) => {
                let message = text::cat4(
                    "南向重试第 ",
                    text::decimal_text(drive.attempt as u128).as_str(),
                    " 次发射失败: ",
                    error.message().as_str(),
                );
                RelaunchStep::Settle(breakdown(drive, message))
            },
            Ok(pid) => {
                let ghost before = self@;
                let id = drive.task_id;
                self.running.insert(id.bits);
                let write = match self.tasks.remove(&id.bits) {
                    Some(found) => {
                        let mut record = found;
                        let _ = record.transition(TaskState::Running { pid });
                        let write = super::task_write(&self.home, &record);
                        self.tasks.insert(id.bits, record);
                        assert(self@.tasks =~= before.tasks.insert(id.bits, record));
                        proof {
                            if before.wf() && before.tasks[id.bits].state is Running {
                                lemma_running_stays_leased(before, self@, id.bits);
                            }
                        }
                        Some(write)
                    },
                    None => {
                        assert(self@.tasks =~= before.tasks);
                        None
                    },
                };
                RelaunchStep::Watch { drive, write }
            },
        }
    }

    /// Settles a task: records how it ended and what it cost, lets it go of its
    /// session, and says what becomes of its checkout. `diff_stat` sums up what
    /// was committed to its branch.
    pub fn finalize(&mut self, settlement: Settlement, diff_stat: Option<String>) -> (out: Closing)
        ensures
            final(self).same_setup(old(self)),
            is_finalized(old(self)@, final(self)@, settlement, diff_stat),
            out.checkout == settlement.checkout,
            out.reclaim == settlement.reclaim,
            out.task is Some == old(self)@.tasks.contains_key(settlement.task_id.bits),
            out.task is Some ==> out.task->Some_0.writes_task(
                old(self).home_dir(),
                final(self)@.tasks[settlement.task_id.bits],
            ),
            out.session is Some == old(self)@.holds(settlement.task_id, settlement.session_id),
            out.session is Some ==> out.session->Some_0.writes_session(
                old(self).home_dir(),
                final(self)@.sessions[settlement.session_id.bits],
            ),
            old(self)@.wf() && settlement.state.terminal() ==> final(self)@.wf(),
    {
        broadcast use vstd::std_specs::hash::group_hash_axioms;

        let ghost before = self@;
        let id = settlement.task_id;
        let preserved = settlement.checkout.is_some() && settlement.reclaim
            == ReclaimMode::KeepBranch;
        self.running.remove(&id.bits);
        let task = match self.tasks.remove(&id.bits) {
            Some(found) => {
                let mut record = found;
                record.usage = settlement.usage;
                record.last_agent_message = match &settlement.last_agent_message {
                    Some(message) => Some(truncate_chars(message.as_str(), MESSAGE_ARCHIVE_CHARS)),
                    None => None,
                };
                record.diff_stat = if preserved {
                    diff_stat
                } else {
                    None
                };
                let _ = record.transition(settlement.state);
                let write = super::task_write(&self.home, &record);
                self.tasks.insert(id.bits, record);
                assert(self@.tasks =~= before.tasks.insert(id.bits, record));
                Some(write)
            },
            None => {
                assert(self@.tasks =~= before.tasks);
                None
            },
        };
        let session = self.release_session(settlement.session_id, id);
        Closing { task, session, checkout: settlement.checkout, reclaim: settlement.reclaim }
    }
}

/// Law: a settled task is at rest. It has ended as it was settled, it cannot be
/// interrupted, it holds no session, and every other task and session is as it
/// was.
pub proof fn law_settled_task_is_at_rest(
    before: Board,
    after: Board,
    settlement: Settlement,
    diff_stat: Option<String>,
    other: u128,
)
    requires
        before.wf(),
        before.tasks.contains_key(settlement.task_id.bits),
        before.tasks[settlement.task_id.bits].state is Running,
        before.tasks[settlement.task_id.bits].session_id == Some(settlement.session_id),
        settlement.state.terminal(),
        is_finalized(before, after, settlement, diff_stat),
    ensures
        after.tasks.contains_key(settlement.task_id.bits),
        after.tasks[settlement.task_id.bits].state == settlement.state,
        !after.running.contains(settlement.task_id.bits),
        after.sessions.contains_key(settlement.session_id.bits),
        after.sessions[settlement.session_id.bits].owner is Free,
        other != settlement.task_id.bits ==> {
            &&& after.tasks.contains_key(other) == before.tasks.contains_key(other)
            &&& before.tasks.contains_key(other) ==> after.tasks[other] == before.tasks[other]
            &&& after.running.contains(other) == before.running.contains(other)
        },
        other != settlement.session_id.bits ==> {
            &&& after.sessions.contains_key(other) == before.sessions.contains_key(other)
            &&& before.sessions.contains_key(other) ==> after.sessions[other]
                == before.sessions[other]
        },
{
    let id = settlement.task_id.bits;
    assert(before.tasks.contains_key(id) && before.tasks[id].state is Running);
    assert(before.tasks[id].id.bits == id);
    assert(before.tasks[id].id == settlement.task_id);
    assert(before.holds(settlement.task_id, settlement.session_id));
}

/// Law: a task passes by its judge alone. However a run has ended, no task that
/// is settled without the judge counts as passed.
pub proof fn law_only_the_judge_passes_a_task(
    next: NextStep,
    board: Board,
    drive: Drive,
    exit: TaskExit,
    notes: acceptance::Notes,
)
    requires
        is_concluded(next, board, drive, exit, notes),
    ensures
        next matches NextStep::Settle(settlement) ==> {
            &&& settlement.state.terminal()
            &&& settlement.state is Completed ==> settlement.state->judge is NotJudged
        },
        next is Judge ==> acceptance::reports_success(exit),
{
}

/// Law: an interrupted task leaves no branch, and neither does one whose branch
/// nobody asked for; every other task that was concluded leaves its branch.
pub proof fn law_branches_are_kept_for_review(
    next: NextStep,
    board: Board,
    drive: Drive,
    exit: TaskExit,
    notes: acceptance::Notes,
)
    requires
        is_concluded(next, board, drive, exit, notes),
    ensures
        next matches NextStep::Settle(settlement) ==> settlement.reclaim == if settlement.state
            is Interrupted || !board.reviewed(drive.task_id) {
            ReclaimMode::DeleteBranch
        } else {
            ReclaimMode::KeepBranch
        },
        next matches NextStep::Judge(judging) ==> judging.reclaim == if board.reviewed(
            drive.task_id,
        ) {
            ReclaimMode::KeepBranch
        } else {
            ReclaimMode::DeleteBranch
        },
{
}

/// Law: a conversation that became known is resumed by the next task of its
/// session, and noting it changes nothing of who holds the session.
pub proof fn law_noted_conversation_is_resumed(
    before: Board,
    after: Board,
    session: SessionId,
    conversation: Seq<char>,
)
    requires
        before.sessions.contains_key(session.bits),
        is_linked(before, after, session, conversation),
    ensures
        text::opt_text(
            after.resumed(crate::registry::SessionTarget::Resume { session }),
        ) == Some(conversation),
        after.sessions[session.bits].owner == before.sessions[session.bits].owner,
        after.tasks == before.tasks,
{
}

/// The name of a raw event stream: that of its task, and what tells runs apart.
spec fn stream_name(task: TaskId, extension: Seq<char>) -> Seq<char> {
    task@ + seq!['.'] + extension
}

/// Where the raw event stream of a run stands in the directory of event streams.
proof fn lemma_retry_stream(home: Seq<char>, task: TaskId, attempt: nat)
    ensures
        ({
            let dir = paths::state_dir_of(home, "events"@);
            let extension = "a"@ + text::decimal(attempt + 1) + ".jsonl"@;
            &&& service::spawn::events_file(home, task) == dir + seq!['/'] + stream_name(
                task,
                seq!['j', 's', 'o', 'n', 'l'],
            )
            &&& retry_events(service::spawn::events_file(home, task), attempt) == dir + seq!['/']
                + stream_name(task, extension)
        }),
{
    reveal_strlit("events");
    reveal_strlit(".jsonl");
    reveal_strlit("a");
    let dir = paths::state_dir_of(home, "events"@);
    let plain = seq!['j', 's', 'o', 'n', 'l'];
    let extension = "a"@ + text::decimal(attempt + 1) + ".jsonl"@;
    paths::lemma_state_dir_is_named(home, "events"@);
    crate::ids::lemma_uuid_text_is_plain(task.bits);
    assert(task@[0] != '/');
    assert(task@ + ".jsonl"@ =~= stream_name(task, plain));
    assert(stream_name(task, plain)[0] == task@[0]);
    paths::lemma_extension_is_replaced(dir, task@, plain, extension);
}

/// Law: every run keeps a raw event stream of its own. A run that is launched
/// again writes over neither the stream of the first run nor that of any other.
pub proof fn law_runs_keep_separate_streams(home: Seq<char>, task: TaskId, a: nat, b: nat)
    requires
        a != b,
    ensures
        ({
            let first = service::spawn::events_file(home, task);
            &&& retry_events(first, a) != first
            &&& retry_events(first, a) != retry_events(first, b)
        }),
{
    let front = paths::state_dir_of(home, "events"@) + seq!['/'] + (task@ + seq!['.']);
    let plain = seq!['j', 's', 'o', 'n', 'l'];
    let of_a = "a"@ + text::decimal(a + 1) + ".jsonl"@;
    let of_b = "a"@ + text::decimal(b + 1) + ".jsonl"@;
    let dir = paths::state_dir_of(home, "events"@);
    lemma_retry_stream(home, task, a);
    lemma_retry_stream(home, task, b);
    assert(dir + seq!['/'] + stream_name(task, plain) =~= front + plain);
    assert(dir + seq!['/'] + stream_name(task, of_a) =~= front + of_a);
    assert(dir + seq!['/'] + stream_name(task, of_b) =~= front + of_b);
    assert((front + plain).skip(front.len() as int) =~= plain);
    assert((front + of_a).skip(front.len() as int) =~= of_a);
    assert((front + of_b).skip(front.len() as int) =~= of_b);
    reveal_strlit("a");
    assert(of_a[0] == 'a');
    assert(plain[0] == 'j');
    if of_a == of_b {
        let digits_a = text::decimal(a + 1);
        let digits_b = text::decimal(b + 1);
        assert(of_a.len() == of_b.len());
        assert(of_a.subrange(1, 1 + digits_a.len() as int) =~= digits_a);
        assert(of_b.subrange(1, 1 + digits_b.len() as int) =~= digits_b);
        text::law_decimal_reads_back(a + 1);
        text::law_decimal_reads_back(b + 1);
    }
}

} // verus!
