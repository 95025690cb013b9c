//! How a supervisor starts: from what a former one has left on disk.

use super::{Board, RecordWrite, ServiceError, StartReport, Supervisor, SupervisorConfig};
use crate::clock;
use crate::executor::ExecutorConfig;
use crate::models::ModelRegistry;
use crate::paths::{LoadReport, StoreError, SupervisorHome, SupervisorLock};
use crate::registry::{SessionTarget, TaskId, TaskRecord, TaskState};
use crate::session::{SessionId, SessionOwner, SessionRecord};
use std::collections::{HashMap, HashSet};
use vstd::prelude::*;

verus! {

/// Tasks by their identifiers. Of two with the same identifier the later counts.
pub open spec fn tasks_by_id(records: Seq<TaskRecord>) -> Map<u128, TaskRecord>
    decreases records.len(),
{
    if records.len() == 0 {
        Map::empty()
    } else {
        tasks_by_id(records.drop_last()).insert(records.last().id.bits, records.last())
    }
}

/// Sessions by their identifiers. Of two with the same identifier the later
/// counts.
pub open spec fn sessions_by_id(records: Seq<SessionRecord>) -> Map<u128, SessionRecord>
    decreases records.len(),
{
    if records.len() == 0 {
        Map::empty()
    } else {
        sessions_by_id(records.drop_last()).insert(records.last().id.bits, records.last())
    }
}

fn index_tasks(records: Vec<TaskRecord>) -> (map: HashMap<u128, TaskRecord>)
    ensures
        map@ == tasks_by_id(records@),
        forall|k: u128| #[trigger] map@.contains_key(k) ==> map@[k].id.bits == k,
{
    broadcast use vstd::std_specs::hash::group_hash_axioms;

    let mut map: HashMap<u128, TaskRecord> = HashMap::new();
    let ghost all = records@;
    assert(all.take(0) =~= Seq::<TaskRecord>::empty());
    assert(map@ =~= tasks_by_id(all.take(0)));
    for record in it: records
        invariant
            it.seq() == all,
            map@ == tasks_by_id(all.take(it.index() as int)),
            forall|k: u128| #[trigger] map@.contains_key(k) ==> map@[k].id.bits == k,
    {
        assert(all.take(it.index() + 1).drop_last() =~= all.take(it.index() as int));
        assert(all.take(it.index() + 1).last() == record);
        let key: u128 = record.id.bits;
        map.insert(key, record);
    }
    assert(all.take(all.len() as int) =~= all);
    map
}

fn index_sessions(records: Vec<SessionRecord>) -> (map: HashMap<u128, SessionRecord>)
    ensures
        map@ == sessions_by_id(records@),
        forall|k: u128| #[trigger] map@.contains_key(k) ==> map@[k].id.bits == k,
{
    broadcast use vstd::std_specs::hash::group_hash_axioms;

    let mut map: HashMap<u128, SessionRecord> = HashMap::new();
    let ghost all = records@;
    assert(all.take(0) =~= Seq::<SessionRecord>::empty());
    assert(map@ =~= sessions_by_id(all.take(0)));
    for record in it: records
        invariant
            it.seq() == all,
            map@ == sessions_by_id(all.take(it.index() as int)),
            forall|k: u128| #[trigger] map@.contains_key(k) ==> map@[k].id.bits == k,
    {
        assert(all.take(it.index() + 1).drop_last() =~= all.take(it.index() as int));
        assert(all.take(it.index() + 1).last() == record);
        let key: u128 = record.id.bits;
        map.insert(key, record);
    }
    assert(all.take(all.len() as int) =~= all);
    map
}

/// Why a task that a former supervisor left behind counts as failed; nothing
/// where it had ended.
pub open spec fn stale_reason(state: TaskState) -> Option<Seq<char>> {
    match state {
        TaskState::Running { .. } => Some("bridge 重启时任务仍在执行，进程已随旧 bridge 消亡"@),
        TaskState::Pending => Some("bridge 重启于任务起跑前"@),
        _ => None,
    }
}

/// Whether `after` is what becomes of a task record at the start.
pub open spec fn is_swept(before: TaskRecord, after: TaskRecord) -> bool {
    match stale_reason(before.state) {
        None => after == before,
        Some(reason) => {
            &&& after.state is Failed
            &&& after.state->error@ == reason
            &&& after == before.moved(after.state, after.updated_at)
            &&& clock::is_utc_instant(after.updated_at.text@)
        },
    }
}

/// Whether a session is freed at the start: its holder was left behind in it.
pub open spec fn is_abandoned(tasks: Map<u128, TaskRecord>, key: u128, session: SessionRecord) -> bool {
    session.owner matches SessionOwner::Task { task } && {
        &&& tasks.contains_key(task.bits)
        &&& stale_reason(tasks[task.bits].state) is Some
        &&& tasks[task.bits].session_id == Some(SessionId { bits: key })
    }
}

/// Whether `after` is what becomes of a session record at the start.
pub open spec fn is_cleared(
    tasks: Map<u128, TaskRecord>,
    key: u128,
    before: SessionRecord,
    after: SessionRecord,
) -> bool {
    if is_abandoned(tasks, key, before) {
        &&& after == before.owned(SessionOwner::Free, after.updated_at)
        &&& clock::is_utc_instant(after.updated_at.text@)
    } else {
        after == before
    }
}

/// Whether a task holds the session that it names.
spec fn frees(task: TaskRecord, sessions: Map<u128, SessionRecord>) -> bool {
    &&& task.session_id is Some
    &&& sessions.contains_key(task.session_id->Some_0.bits)
    &&& sessions[task.session_id->Some_0.bits].owner == SessionOwner::Task { task: task.id }
}

/// Whether `after` is what becomes of `before` when one task is swept.
spec fn sweep_step(before: Board, after: Board, id: u128) -> bool {
    let task = before.tasks[id];
    if stale_reason(task.state) is None {
        after.tasks == before.tasks && after.sessions == before.sessions
    } else {
        &&& after.tasks == before.tasks.insert(id, after.tasks[id])
        &&& is_swept(task, after.tasks[id])
        &&& if frees(task, before.sessions) {
            let key = task.session_id->Some_0.bits;
            &&& after.sessions == before.sessions.insert(key, after.sessions[key])
            &&& after.sessions[key] == before.sessions[key].owned(
                SessionOwner::Free,
                after.sessions[key].updated_at,
            )
            &&& clock::is_utc_instant(after.sessions[key].updated_at.text@)
        } else {
            after.sessions == before.sessions
        }
    }
}

/// The records that were changed when one task was swept.
struct SweptOne {
    task: RecordWrite,
    session: Option<RecordWrite>,
}

/// Sweeps one task: fails it where it was left behind, and frees its session
/// where it holds one.
fn sweep_one(
    home: &SupervisorHome,
    tasks: &mut HashMap<u128, TaskRecord>,
    sessions: &mut HashMap<u128, SessionRecord>,
    id: u128,
) -> (out: Option<SweptOne>)
    requires
        old(tasks)@.contains_key(id),
        old(tasks)@[id].id.bits == id,
        forall|k: u128| #[trigger]
            old(sessions)@.contains_key(k) ==> old(sessions)@[k].id.bits == k,
    ensures
        ({
            let before = Board {
                tasks: old(tasks)@,
                sessions: old(sessions)@,
                running: Set::<u128>::empty(),
            };
            let after = Board {
                tasks: final(tasks)@,
                sessions: final(sessions)@,
                running: Set::<u128>::empty(),
            };
            &&& sweep_step(before, after, id)
            &&& match out {
                None => stale_reason(before.tasks[id].state) is None,
                Some(swept) => {
                    &&& stale_reason(before.tasks[id].state) is Some
                    &&& swept.task.writes_task(home@, after.tasks[id])
                    &&& match swept.session {
                        None => !frees(before.tasks[id], before.sessions),
                        Some(write) => frees(before.tasks[id], before.sessions)
                            && write.writes_session(
                            home@,
                            after.sessions[before.tasks[id].session_id->Some_0.bits],
                        ),
                    }
                },
            }
        }),
{
    broadcast use vstd::std_specs::hash::group_hash_axioms;

    let ghost all_tasks = tasks@;
    let ghost all_sessions = sessions@;
    let removed = tasks.remove(&id);
    match removed {
        None => None,
        Some(record) => {
            let mut task = record;
            let reason = match &task.state {
                TaskState::Running { .. } => Some(
                    "bridge 重启时任务仍在执行，进程已随旧 bridge 消亡".to_owned(),
                ),
                TaskState::Pending => Some("bridge 重启于任务起跑前".to_owned()),
                _ => None,
            };
            match reason {
                None => {
                    tasks.insert(id, task);
                    assert(tasks@ =~= all_tasks);
                    None
                },
                Some(reason) => {
                    let _ = task.transition(TaskState::Failed { error: reason });
                    let write = super::task_write(home, &task);
                    let mut freed: Option<RecordWrite> = None;
                    match task.session_id {
                        Some(session_id) => {
                            let key: u128 = session_id.bits;
                            match sessions.remove(&key) {
                                Some(found) => {
                                    let mut session = found;
                                    match session.release(task.id) {
                                        Ok(()) => {
                                            freed = Some(super::session_write(home, &session));
                                        },
                                        Err(_) => {},
                                    }
                                    sessions.insert(key, session);
                                    assert(sessions@ =~= all_sessions.insert(key, session));
                                    if freed.is_none() {
                                        assert(sessions@ =~= all_sessions);
                                    }
                                },
                                None => {
                                    assert(sessions@ =~= all_sessions);
                                },
                            }
                        },
                        None => {},
                    }
                    tasks.insert(id, task);
                    assert(tasks@ =~= all_tasks.insert(id, task));
                    Some(SweptOne { task: write, session: freed })
                },
            }
        },
    }
}

/// What a supervisor is once it has started, what it found, and what it has to
/// write before it serves.
#[derive(Debug)]
pub struct Started {
    /// The supervisor.
    pub supervisor: Supervisor,
    /// What it found.
    pub report: StartReport,
    /// The records to write, in order.
    pub writes: Vec<RecordWrite>,
}

/// Whether `board` is what becomes of the records that were found.
pub open spec fn is_recovered(
    tasks: Map<u128, TaskRecord>,
    sessions: Map<u128, SessionRecord>,
    board: Board,
) -> bool {
    &&& board.tasks.dom() == tasks.dom()
    &&& forall|k: u128| #[trigger] tasks.contains_key(k) ==> is_swept(tasks[k], board.tasks[k])
    &&& board.sessions.dom() == sessions.dom()
    &&& forall|k: u128| #[trigger]
        sessions.contains_key(k) ==> is_cleared(tasks, k, sessions[k], board.sessions[k])
    &&& board.running == Set::<u128>::empty()
}

/// Whether the tasks in `swept` are those of `tasks` that were left behind, each
/// once.
pub open spec fn lists_stale(tasks: Map<u128, TaskRecord>, swept: Seq<TaskId>) -> bool {
    &&& swept.no_duplicates()
    &&& forall|id: TaskId| #[trigger]
        swept.contains(id) <==> tasks.contains_key(id.bits) && stale_reason(tasks[id.bits].state)
            is Some
}

/// Whether some write puts `record` into its file.
pub open spec fn task_is_written(writes: Seq<RecordWrite>, home: Seq<char>, record: TaskRecord) -> bool {
    exists|i: int| 0 <= i < writes.len() && (#[trigger] writes[i]).writes_task(home, record)
}

/// Whether some write puts `record` into its file.
pub open spec fn session_is_written(
    writes: Seq<RecordWrite>,
    home: Seq<char>,
    record: SessionRecord,
) -> bool {
    exists|i: int| 0 <= i < writes.len() && (#[trigger] writes[i]).writes_session(home, record)
}

/// Whether a write puts a record of `board` into its file.
pub open spec fn writes_from(write: RecordWrite, home: Seq<char>, board: Board) -> bool {
    match write {
        RecordWrite::Task { record, .. } => board.tasks.contains_key(record.id.bits)
            && write.writes_task(home, board.tasks[record.id.bits]),
        RecordWrite::Session { record, .. } => board.sessions.contains_key(record.id.bits)
            && write.writes_session(home, board.sessions[record.id.bits]),
    }
}

/// Whether all that was changed at the start is written, and nothing else.
pub open spec fn writes_changes(
    tasks: Map<u128, TaskRecord>,
    sessions: Map<u128, SessionRecord>,
    board: Board,
    home: Seq<char>,
    writes: Seq<RecordWrite>,
) -> bool {
    &&& forall|k: u128| #[trigger]
        tasks.contains_key(k) && stale_reason(tasks[k].state) is Some ==> task_is_written(
            writes,
            home,
            board.tasks[k],
        )
    &&& forall|k: u128| #[trigger]
        sessions.contains_key(k) && is_abandoned(tasks, k, sessions[k]) ==> session_is_written(
            writes,
            home,
            board.sessions[k],
        )
    &&& forall|i: int| 0 <= i < writes.len() ==> writes_from(#[trigger] writes[i], home, board)
}

/// The state of a sweep after some of the tasks.
spec fn swept_so_far(
    tasks: Map<u128, TaskRecord>,
    sessions: Map<u128, SessionRecord>,
    done: Set<u128>,
    board: Board,
) -> bool {
    &&& board.tasks.dom() == tasks.dom()
    &&& forall|k: u128| #[trigger]
        tasks.contains_key(k) ==> if done.contains(k) {
            is_swept(tasks[k], board.tasks[k])
        } else {
            board.tasks[k] == tasks[k]
        }
    &&& board.sessions.dom() == sessions.dom()
    &&& forall|k: u128| #[trigger]
        sessions.contains_key(k) ==> if is_abandoned(tasks, k, sessions[k]) && done.contains(
            sessions[k].owner->task.bits,
        ) {
            &&& board.sessions[k] == sessions[k].owned(
                SessionOwner::Free,
                board.sessions[k].updated_at,
            )
            &&& clock::is_utc_instant(board.sessions[k].updated_at.text@)
        } else {
            board.sessions[k] == sessions[k]
        }
}

spec fn written_so_far(
    tasks: Map<u128, TaskRecord>,
    sessions: Map<u128, SessionRecord>,
    done: Set<u128>,
    board: Board,
    home: Seq<char>,
    writes: Seq<RecordWrite>,
) -> bool {
    &&& forall|k: u128| #[trigger]
        tasks.contains_key(k) && done.contains(k) && stale_reason(tasks[k].state) is Some
            ==> task_is_written(writes, home, board.tasks[k])
    &&& forall|k: u128| #[trigger]
        sessions.contains_key(k) && is_abandoned(tasks, k, sessions[k]) && done.contains(
            sessions[k].owner->task.bits,
        ) ==> session_is_written(writes, home, board.sessions[k])
    &&& forall|i: int|
        0 <= i < writes.len() ==> writes_from(#[trigger] writes[i], home, board) && is_settled(
            writes[i],
        )
}

/// Whether a write puts down a failed task or a free session.
spec fn is_settled(write: RecordWrite) -> bool {
    match write {
        RecordWrite::Task { record, .. } => record.state is Failed,
        RecordWrite::Session { record, .. } => record.owner is Free,
    }
}

spec fn listed_so_far(tasks: Map<u128, TaskRecord>, done: Set<u128>, swept: Seq<TaskId>) -> bool {
    &&& swept.no_duplicates()
    &&& forall|id: TaskId| #[trigger]
        swept.contains(id) <==> tasks.contains_key(id.bits) && done.contains(id.bits)
            && stale_reason(tasks[id.bits].state) is Some
}

proof fn lemma_swept_step(
    tasks: Map<u128, TaskRecord>,
    sessions: Map<u128, SessionRecord>,
    done: Set<u128>,
    before: Board,
    after: Board,
    id: u128,
)
    requires
        tasks.contains_key(id),
        tasks[id].id.bits == id,
        !done.contains(id),
        swept_so_far(tasks, sessions, done, before),
        sweep_step(before, after, id),
    ensures
        swept_so_far(tasks, sessions, done.insert(id), after),
{
    assert(before.tasks.contains_key(id));
    assert(before.tasks[id] == tasks[id]);
    assert(after.tasks.dom() =~= tasks.dom());
    let now = done.insert(id);
    assert forall|k: u128| #[trigger] tasks.contains_key(k) implies if now.contains(k) {
        is_swept(tasks[k], after.tasks[k])
    } else {
        after.tasks[k] == tasks[k]
    } by {
        assert(before.tasks.contains_key(k));
    }
    if frees(tasks[id], before.sessions) {
        let key = tasks[id].session_id->Some_0.bits;
        assert(sessions.contains_key(key));
    }
    assert(after.sessions.dom() =~= sessions.dom());
    assert forall|k: u128| #[trigger] sessions.contains_key(k) implies if is_abandoned(
        tasks,
        k,
        sessions[k],
    ) && now.contains(sessions[k].owner->task.bits) {
        after.sessions[k] == sessions[k].owned(SessionOwner::Free, after.sessions[k].updated_at)
    } else {
        after.sessions[k] == sessions[k]
    } by {
        assert(before.sessions.contains_key(k));
    }
}

proof fn lemma_written_step(
    tasks: Map<u128, TaskRecord>,
    sessions: Map<u128, SessionRecord>,
    done: Set<u128>,
    before: Board,
    after: Board,
    id: u128,
    home: Seq<char>,
    writes: Seq<RecordWrite>,
    added: Seq<RecordWrite>,
)
    requires
        tasks.contains_key(id),
        !done.contains(id),
        forall|k: u128| #[trigger] sessions.contains_key(k) ==> sessions[k].id.bits == k,
        forall|k: u128| #[trigger] tasks.contains_key(k) ==> tasks[k].id.bits == k,
        swept_so_far(tasks, sessions, done, before),
        sweep_step(before, after, id),
        written_so_far(tasks, sessions, done, before, home, writes),
        stale_reason(before.tasks[id].state) is None ==> added.len() == 0,
        stale_reason(before.tasks[id].state) is Some ==> {
            &&& added.len() >= 1
            &&& added[0].writes_task(home, after.tasks[id])
            &&& if frees(before.tasks[id], before.sessions) {
                &&& added.len() == 2
                &&& added[1].writes_session(
                    home,
                    after.sessions[before.tasks[id].session_id->Some_0.bits],
                )
            } else {
                added.len() == 1
            }
        },
    ensures
        written_so_far(tasks, sessions, done.insert(id), after, home, writes + added),
{
    lemma_swept_step(tasks, sessions, done, before, after, id);
    let all = writes + added;
    let now = done.insert(id);
    assert(before.tasks.contains_key(id));
    assert(before.tasks[id] == tasks[id]);
    if frees(tasks[id], before.sessions) {
        let key = tasks[id].session_id->Some_0.bits;
        assert(sessions.contains_key(key));
    }
    assert forall|k: u128| #[trigger]
        tasks.contains_key(k) && now.contains(k) && stale_reason(
            tasks[k].state,
        ) is Some implies task_is_written(all, home, after.tasks[k]) by {
        if k == id {
            assert(all[writes.len() as int] == added[0]);
        } else {
            assert(after.tasks[k] == before.tasks[k]);
            let i = choose|i: int|
                0 <= i < writes.len() && (#[trigger] writes[i]).writes_task(home, before.tasks[k]);
            assert(all[i] == writes[i]);
        }
    }
    assert forall|k: u128| #[trigger]
        sessions.contains_key(k) && is_abandoned(tasks, k, sessions[k]) && now.contains(
            sessions[k].owner->task.bits,
        ) implies session_is_written(all, home, after.sessions[k]) by {
        assert(before.sessions.contains_key(k));
        if sessions[k].owner->task.bits == id {
            assert(before.sessions[k] == sessions[k]);
            assert(frees(tasks[id], before.sessions));
            assert(all[writes.len() as int + 1] == added[1]);
        } else {
            assert(after.sessions[k] == before.sessions[k]);
            let i = choose|i: int|
                0 <= i < writes.len() && (#[trigger] writes[i]).writes_session(
                    home,
                    before.sessions[k],
                );
            assert(all[i] == writes[i]);
        }
    }
    assert forall|i: int| 0 <= i < all.len() implies writes_from(
        #[trigger] all[i],
        home,
        after,
    ) && is_settled(all[i]) by {
        if i < writes.len() {
            assert(all[i] == writes[i]);
            assert(writes_from(writes[i], home, before) && is_settled(writes[i]));
            match writes[i] {
                RecordWrite::Task { record, .. } => {
                    assert(tasks.contains_key(record.id.bits));
                },
                RecordWrite::Session { record, .. } => {
                    assert(sessions.contains_key(record.id.bits));
                },
            }
        } else {
            assert(all[i] == added[i - writes.len()]);
            assert(after.tasks.contains_key(id));
        }
    }
}

proof fn lemma_listed_step(
    tasks: Map<u128, TaskRecord>,
    done: Set<u128>,
    swept: Seq<TaskId>,
    id: u128,
)
    requires
        tasks.contains_key(id),
        !done.contains(id),
        listed_so_far(tasks, done, swept),
    ensures
        listed_so_far(
            tasks,
            done.insert(id),
            if stale_reason(tasks[id].state) is Some {
                swept.push(TaskId { bits: id })
            } else {
                swept
            },
        ),
{
    let new = TaskId { bits: id };
    assert(!swept.contains(new));
    if stale_reason(tasks[id].state) is Some {
        let longer = swept.push(new);
        assert(longer.no_duplicates());
        assert forall|other: TaskId| #[trigger] longer.contains(other) <==> tasks.contains_key(
            other.bits,
        ) && done.insert(id).contains(other.bits) && stale_reason(
            tasks[other.bits].state,
        ) is Some by {
            if swept.contains(other) {
                let i = choose|i: int| 0 <= i < swept.len() && swept[i] == other;
                assert(longer[i] == other);
            }
            assert(longer[swept.len() as int] == new);
            if longer.contains(other) && other != new {
                let i = choose|i: int| 0 <= i < longer.len() && longer[i] == other;
                assert(swept[i] == other);
                assert(swept.contains(other));
            }
        }
    }
}

/// Sweeps all tasks.
fn sweep(
    home: &SupervisorHome,
    tasks: &mut HashMap<u128, TaskRecord>,
    sessions: &mut HashMap<u128, SessionRecord>,
    swept: &mut Vec<TaskId>,
    writes: &mut Vec<RecordWrite>,
)
    requires
        forall|k: u128| #[trigger] old(tasks)@.contains_key(k) ==> old(tasks)@[k].id.bits == k,
        forall|k: u128| #[trigger]
            old(sessions)@.contains_key(k) ==> old(sessions)@[k].id.bits == k,
        old(swept)@.len() == 0,
        old(writes)@.len() == 0,
    ensures
        ({
            let board = Board {
                tasks: final(tasks)@,
                sessions: final(sessions)@,
                running: Set::<u128>::empty(),
            };
            &&& is_recovered(old(tasks)@, old(sessions)@, board)
            &&& lists_stale(old(tasks)@, final(swept)@)
            &&& writes_changes(old(tasks)@, old(sessions)@, board, home@, final(writes)@)
        }),
{
    let ghost first_tasks = tasks@;
    let ghost first_sessions = sessions@;
    let ids = super::keys_of(tasks);
    let mut at: usize = 0;
    let ghost mut done = Set::<u128>::empty();
    while at < ids.len()
        invariant
            at <= ids@.len(),
            ids@.no_duplicates(),
            ids@.to_set() == first_tasks.dom(),
            forall|k: u128| done.contains(k) <==> ids@.take(at as int).contains(k),
            forall|k: u128| #[trigger] first_tasks.contains_key(k) ==> first_tasks[k].id.bits == k,
            forall|k: u128| #[trigger]
                first_sessions.contains_key(k) ==> first_sessions[k].id.bits == k,
            swept_so_far(
                first_tasks,
                first_sessions,
                done,
                Board { tasks: tasks@, sessions: sessions@, running: Set::<u128>::empty() },
            ),
            written_so_far(
                first_tasks,
                first_sessions,
                done,
                Board { tasks: tasks@, sessions: sessions@, running: Set::<u128>::empty() },
                home@,
                writes@,
            ),
            listed_so_far(first_tasks, done, swept@),
        decreases ids@.len() - at,
    {
        let id: u128 = ids[at];
        let ghost before = Board {
            tasks: tasks@,
            sessions: sessions@,
            running: Set::<u128>::empty(),
        };
        let ghost earlier_writes = writes@;
        let ghost earlier_swept = swept@;
        assert(ids@.to_set().contains(id));
        assert(!ids@.take(at as int).contains(id));
        assert(first_tasks.contains_key(id));
        let out = sweep_one(home, tasks, sessions, id);
        match out {
            Some(one) => {
                swept.push(TaskId { bits: id });
                writes.push(one.task);
                match one.session {
                    Some(write) => {
                        writes.push(write);
                    },
                    None => {},
                }
            },
            None => {},
        }
        proof {
            let after = Board {
                tasks: tasks@,
                sessions: sessions@,
                running: Set::<u128>::empty(),
            };
            let added = writes@.skip(earlier_writes.len() as int);
            assert(writes@ =~= earlier_writes + added);
            lemma_swept_step(first_tasks, first_sessions, done, before, after, id);
            lemma_written_step(
                first_tasks,
                first_sessions,
                done,
                before,
                after,
                id,
                home@,
                earlier_writes,
                added,
            );
            lemma_listed_step(first_tasks, done, earlier_swept, id);
            done = done.insert(id);
            assert(ids@.take(at + 1) =~= ids@.take(at as int).push(id));
            assert forall|k: u128| done.contains(k) <==> ids@.take(at + 1).contains(k) by {
                if ids@.take(at as int).contains(k) {
                    let j = choose|j: int| 0 <= j < at && ids@.take(at as int)[j] == k;
                    assert(ids@.take(at + 1)[j] == k);
                }
                assert(ids@.take(at + 1)[at as int] == id);
            }
        }
        at = at + 1;
    }
    assert(ids@.take(at as int) =~= ids@);
    assert forall|k: u128| first_tasks.contains_key(k) implies done.contains(k) by {
        assert(ids@.to_set().contains(k));
    }
}

/// Law: a restart leaves nothing half done. Every task has ended, nothing can be
/// interrupted, no session is held by a task that was left behind in it, and
/// what had ended before is as it was.
pub proof fn law_restart_leaves_nothing_half_done(
    tasks: Map<u128, TaskRecord>,
    sessions: Map<u128, SessionRecord>,
    board: Board,
)
    requires
        forall|k: u128| #[trigger] tasks.contains_key(k) ==> tasks[k].id.bits == k,
        forall|k: u128| #[trigger] sessions.contains_key(k) ==> sessions[k].id.bits == k,
        is_recovered(tasks, sessions, board),
    ensures
        board.wf(),
        forall|k: u128| #[trigger]
            board.tasks.contains_key(k) ==> board.tasks[k].state.terminal(),
        forall|k: u128| #[trigger]
            tasks.contains_key(k) && tasks[k].state.terminal() ==> board.tasks[k] == tasks[k],
        forall|k: u128| #[trigger]
            sessions.contains_key(k) && is_abandoned(tasks, k, sessions[k])
                ==> board.sessions[k].owner is Free,
{
    assert forall|k: u128| #[trigger] board.tasks.contains_key(k) implies {
        &&& board.tasks[k].state.terminal()
        &&& board.tasks[k].id.bits == k
    } by {
        assert(tasks.contains_key(k));
    }
    assert forall|k: u128| #[trigger]
        board.sessions.contains_key(k) implies board.sessions[k].id.bits == k by {
        assert(sessions.contains_key(k));
    }
}

/// Law: a conversation survives a restart. A session whose conversation was
/// noted can be resumed by any new task afterwards, unless a task holds it that
/// had not been left behind in it; and it is resumed as it was: with its
/// conversation, model, sandbox and directory.
pub proof fn law_conversations_survive_a_restart(
    tasks: Map<u128, TaskRecord>,
    sessions: Map<u128, SessionRecord>,
    board: Board,
    session: SessionId,
    task: TaskId,
)
    requires
        is_recovered(tasks, sessions, board),
        sessions.contains_key(session.bits),
        sessions[session.bits].rollout.conversation_id is Some,
        sessions[session.bits].owner is Free || is_abandoned(
            tasks,
            session.bits,
            sessions[session.bits],
        ),
    ensures
        board.refuses(SessionTarget::Resume { session }, task) is None,
        board.resumed(SessionTarget::Resume { session })
            == sessions[session.bits].rollout.conversation_id,
        board.sessions[session.bits].model == sessions[session.bits].model,
        board.sessions[session.bits].sandbox == sessions[session.bits].sandbox,
        board.sessions[session.bits].cwd == sessions[session.bits].cwd,
{
    assert(board.sessions.dom().contains(session.bits));
}

/// The registry that a supervisor starts with: an empty one where the file does
/// not exist.
fn registry_from(found: Result<ModelRegistry, StoreError>) -> (out: Result<
    ModelRegistry,
    StoreError,
>)
    ensures
        match found {
            Ok(registry) => out == Ok::<ModelRegistry, StoreError>(registry),
            Err(error) => if error matches StoreError::Io { not_found: true, .. } {
                out matches Ok(registry) && registry.listed() == Seq::<crate::models::Listing>::empty()
            } else {
                out == Err::<ModelRegistry, StoreError>(error)
            },
        },
{
    match found {
        Ok(registry) => Ok(registry),
        Err(error) => match error {
            StoreError::Io { path, not_found, detail } => {
                if not_found {
                    Ok(ModelRegistry::new())
                } else {
                    Err(StoreError::Io { path, not_found, detail })
                }
            },
            StoreError::Encode { path, detail } => Err(StoreError::Encode { path, detail }),
            StoreError::Decode { path, detail } => Err(StoreError::Decode { path, detail }),
        },
    }
}

/// Whether a registry could not be read for another reason than that it does not
/// exist.
pub open spec fn registry_is_damaged(found: Result<ModelRegistry, StoreError>) -> bool {
    found matches Err(error) && !(error matches StoreError::Io { not_found: true, .. })
}

impl Supervisor {
    /// Starts a supervisor that holds the lock from what was found on disk. A
    /// missing registry is an empty one; a damaged one is refused. Tasks that a
    /// former supervisor left behind count as failed, and their sessions are
    /// free again.
    pub fn start(
        config: SupervisorConfig,
        lock: SupervisorLock,
        registry: Result<ModelRegistry, StoreError>,
        tasks: Result<LoadReport<TaskRecord>, StoreError>,
        sessions: Result<LoadReport<SessionRecord>, StoreError>,
    ) -> (out: Result<Started, ServiceError>)
        ensures
            if registry_is_damaged(registry) {
                out == Err::<Started, ServiceError>(ServiceError::Store(registry->Err_0))
            } else if tasks is Err {
                out == Err::<Started, ServiceError>(ServiceError::Store(tasks->Err_0))
            } else if sessions is Err {
                out == Err::<Started, ServiceError>(ServiceError::Store(sessions->Err_0))
            } else {
                let found_tasks = tasks_by_id(tasks->Ok_0.records@);
                let found_sessions = sessions_by_id(sessions->Ok_0.records@);
                &&& out is Ok
                &&& ({
                    let started = out->Ok_0;
                    &&& started.supervisor.home_dir() == config.codex_home@
                    &&& started.supervisor.program().codex_bin == config.codex_bin
                    &&& started.supervisor.program().codex_home == config.codex_home
                    &&& match registry {
                        Ok(given) => started.supervisor.models() == given,
                        Err(_) => started.supervisor.models().listed()
                            == Seq::<crate::models::Listing>::empty(),
                    }
                    &&& started.supervisor@.wf()
                    &&& is_recovered(found_tasks, found_sessions, started.supervisor@)
                    &&& started.report.tasks_loaded == found_tasks.dom().len()
                    &&& started.report.sessions_loaded == found_sessions.dom().len()
                    &&& lists_stale(found_tasks, started.report.swept_tasks@)
                    &&& started.report.skipped@ == tasks->Ok_0.skipped@ + sessions->Ok_0.skipped@
                    &&& writes_changes(
                        found_tasks,
                        found_sessions,
                        started.supervisor@,
                        config.codex_home@,
                        started.writes@,
                    )
                })
            },
    {
        broadcast use vstd::std_specs::hash::group_hash_axioms;

        let registry = match registry_from(registry) {
            Ok(registry) => registry,
            Err(error) => {
                return Err(ServiceError::Store(error));
            },
        };
        let task_load = match tasks {
            Ok(load) => load,
            Err(error) => {
                return Err(ServiceError::Store(error));
            },
        };
        let session_load = match sessions {
            Ok(load) => load,
            Err(error) => {
                return Err(ServiceError::Store(error));
            },
        };
        let home = SupervisorHome::new(config.codex_home.clone());
        let mut skipped = task_load.skipped;
        let mut more = session_load.skipped;
        skipped.append(&mut more);
        let mut task_map = index_tasks(task_load.records);
        let mut session_map = index_sessions(session_load.records);
        let tasks_loaded: usize = task_map.len();
        let sessions_loaded: usize = session_map.len();
        let mut swept_tasks: Vec<TaskId> = Vec::new();
        let mut writes: Vec<RecordWrite> = Vec::new();
        let ghost found_tasks = task_map@;
        let ghost found_sessions = session_map@;
        sweep(&home, &mut task_map, &mut session_map, &mut swept_tasks, &mut writes);
        let supervisor = Supervisor {
            home,
            executor: ExecutorConfig {
                codex_bin: config.codex_bin,
                codex_home: config.codex_home,
            },
            registry,
            tasks: task_map,
            sessions: session_map,
            running: HashSet::new(),
            _lock: lock,
        };
        assert(supervisor@.running =~= Set::<u128>::empty());
        proof {
            law_restart_leaves_nothing_half_done(found_tasks, found_sessions, supervisor@);
        }
        Ok(
            Started {
                supervisor,
                report: StartReport { tasks_loaded, sessions_loaded, swept_tasks, skipped },
                writes,
            },
        )
    }
}

/// What a failure to make the state directories is reported as.
pub fn layout_failed(detail: String) -> (out: ServiceError)
    ensures
        out matches ServiceError::Io { context, detail: why } && why == detail && context@
            == "ensure supervisor layout"@,
{
    ServiceError::Io { context: "ensure supervisor layout".to_owned(), detail }
}

} // verus!
