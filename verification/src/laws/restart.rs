//! What is found at the start, and what becomes of it.

use crate::models::ModelRegistry;
use crate::paths::{LoadReport, StoreError, SupervisorLock};
use crate::registry::TaskRecord;
use crate::service::recovery;
use crate::service::recovery::Started;
use crate::service::{RecordWrite, ServiceError, Supervisor, SupervisorConfig};
use crate::session::{SessionId, SessionOwner, SessionRecord};
use vstd::prelude::*;

verus! {

/// Whether no two records have the same identifier.
pub open spec fn distinct_tasks(records: Seq<TaskRecord>) -> bool {
    forall|i: int, j: int|
        0 <= i < j < records.len() ==> (#[trigger] records[i]).id.bits != (
        #[trigger] records[j]).id.bits
}

/// Whether no two records have the same identifier.
pub open spec fn distinct_sessions(records: Seq<SessionRecord>) -> bool {
    forall|i: int, j: int|
        0 <= i < j < records.len() ==> (#[trigger] records[i]).id.bits != (
        #[trigger] records[j]).id.bits
}

proof fn lemma_tasks_are_found(records: Seq<TaskRecord>, id: u128)
    ensures
        recovery::tasks_by_id(records).contains_key(id) <==> exists|i: int|
            0 <= i < records.len() && (#[trigger] records[i]).id.bits == id,
        recovery::tasks_by_id(records).contains_key(id) ==> recovery::tasks_by_id(
            records,
        )[id].id.bits == id,
        distinct_tasks(records) ==> forall|i: int|
            0 <= i < records.len() ==> recovery::tasks_by_id(records)[(
            #[trigger] records[i]).id.bits] == records[i],
        recovery::tasks_by_id(records).dom().finite(),
        distinct_tasks(records) ==> recovery::tasks_by_id(records).dom().len() == records.len(),
    decreases records.len(),
{
    if records.len() > 0 {
        let before = records.drop_last();
        lemma_tasks_are_found(before, id);
        lemma_tasks_are_found(before, records.last().id.bits);
        assert forall|i: int| 0 <= i < before.len() implies #[trigger] before[i] == records[i] by {}
        if exists|i: int| 0 <= i < before.len() && (#[trigger] before[i]).id.bits == id {
            let i = choose|i: int| 0 <= i < before.len() && (#[trigger] before[i]).id.bits == id;
            assert(records[i].id.bits == id);
        }
        assert(records[records.len() - 1] == records.last());
        if exists|i: int| 0 <= i < records.len() && (#[trigger] records[i]).id.bits == id {
            let i = choose|i: int| 0 <= i < records.len() && (#[trigger] records[i]).id.bits == id;
            if i < before.len() {
                assert(before[i].id.bits == id);
            }
        }
        if distinct_tasks(records) {
            assert forall|i: int, j: int| 0 <= i < j < before.len() implies (
            #[trigger] before[i]).id.bits != (#[trigger] before[j]).id.bits by {
                assert(records[i].id.bits != records[j].id.bits);
            }
            assert forall|i: int| 0 <= i < records.len() implies recovery::tasks_by_id(records)[(
            #[trigger] records[i]).id.bits] == records[i] by {
                if i < before.len() {
                    assert(before[i] == records[i]);
                    assert(records[i].id.bits != records[records.len() - 1].id.bits);
                }
            }
            assert(!recovery::tasks_by_id(before).contains_key(records.last().id.bits)) by {
                if recovery::tasks_by_id(before).contains_key(records.last().id.bits) {
                    let i = choose|i: int|
                        0 <= i < before.len() && (#[trigger] before[i]).id.bits
                            == records.last().id.bits;
                    assert(records[i].id.bits != records[records.len() - 1].id.bits);
                }
            }
        }
    }
}

proof fn lemma_sessions_are_found(records: Seq<SessionRecord>, id: u128)
    ensures
        recovery::sessions_by_id(records).contains_key(id) <==> exists|i: int|
            0 <= i < records.len() && (#[trigger] records[i]).id.bits == id,
        recovery::sessions_by_id(records).contains_key(id) ==> recovery::sessions_by_id(
            records,
        )[id].id.bits == id,
        distinct_sessions(records) ==> forall|i: int|
            0 <= i < records.len() ==> recovery::sessions_by_id(records)[(
            #[trigger] records[i]).id.bits] == records[i],
        recovery::sessions_by_id(records).dom().finite(),
        distinct_sessions(records) ==> recovery::sessions_by_id(records).dom().len()
            == records.len(),
    decreases records.len(),
{
    if records.len() > 0 {
        let before = records.drop_last();
        lemma_sessions_are_found(before, id);
        lemma_sessions_are_found(before, records.last().id.bits);
        assert forall|i: int| 0 <= i < before.len() implies #[trigger] before[i] == records[i] by {}
        if exists|i: int| 0 <= i < before.len() && (#[trigger] before[i]).id.bits == id {
            let i = choose|i: int| 0 <= i < before.len() && (#[trigger] before[i]).id.bits == id;
            assert(records[i].id.bits == id);
        }
        assert(records[records.len() - 1] == records.last());
        if exists|i: int| 0 <= i < records.len() && (#[trigger] records[i]).id.bits == id {
            let i = choose|i: int| 0 <= i < records.len() && (#[trigger] records[i]).id.bits == id;
            if i < before.len() {
                assert(before[i].id.bits == id);
            }
        }
        if distinct_sessions(records) {
            assert forall|i: int, j: int| 0 <= i < j < before.len() implies (
            #[trigger] before[i]).id.bits != (#[trigger] before[j]).id.bits by {
                assert(records[i].id.bits != records[j].id.bits);
            }
            assert forall|i: int| 0 <= i < records.len() implies recovery::sessions_by_id(records)[(
            #[trigger] records[i]).id.bits] == records[i] by {
                if i < before.len() {
                    assert(before[i] == records[i]);
                    assert(records[i].id.bits != records[records.len() - 1].id.bits);
                }
            }
            assert(!recovery::sessions_by_id(before).contains_key(records.last().id.bits)) by {
                if recovery::sessions_by_id(before).contains_key(records.last().id.bits) {
                    let i = choose|i: int|
                        0 <= i < before.len() && (#[trigger] before[i]).id.bits
                            == records.last().id.bits;
                    assert(records[i].id.bits != records[records.len() - 1].id.bits);
                }
            }
        }
    }
}

/// Law: a supervisor starts from a registry that can be read or does not exist,
/// and from records that can be listed; anything else is refused for what it is.
pub proof fn law_starts_are_refused_for_a_reason(
    config: SupervisorConfig,
    lock: SupervisorLock,
    registry: Result<ModelRegistry, StoreError>,
    tasks: Result<LoadReport<TaskRecord>, StoreError>,
    sessions: Result<LoadReport<SessionRecord>, StoreError>,
    out: Result<Started, ServiceError>,
)
    requires
        call_ensures(Supervisor::start, (config, lock, registry, tasks, sessions), out),
    ensures
        registry is Ok && tasks is Ok && sessions is Ok ==> out is Ok,
        registry matches Err(error) ==> {
            let missing = error is Io && error->not_found;
            &&& missing && tasks is Ok && sessions is Ok ==> out is Ok
                && out->Ok_0.supervisor.models().listed().len() == 0
            &&& !missing ==> out == Err::<Started, ServiceError>(ServiceError::Store(error))
        },
        registry is Ok && (tasks matches Err(error)) ==> out == Err::<Started, ServiceError>(
            ServiceError::Store(tasks->Err_0),
        ),
        registry is Ok && tasks is Ok && sessions is Err ==> out == Err::<Started, ServiceError>(
            ServiceError::Store(sessions->Err_0),
        ),
        out is Ok && registry is Ok ==> out->Ok_0.supervisor.models() == registry->Ok_0,
        out is Ok ==> {
            let started = out->Ok_0;
            &&& started.supervisor.home_dir() == config.codex_home@
            &&& started.supervisor.program().codex_bin@ == config.codex_bin@
            &&& started.supervisor.program().codex_home@ == config.codex_home@
            &&& started.report.skipped@ == tasks->Ok_0.skipped@ + sessions->Ok_0.skipped@
        },
{
}

/// Law: no task is lost at the start. One that had ended is as it was; one that
/// waited or ran has failed, says so, and is written down and reported; and
/// nothing runs.
pub proof fn law_tasks_left_behind_have_failed(
    config: SupervisorConfig,
    lock: SupervisorLock,
    registry: Result<ModelRegistry, StoreError>,
    tasks: LoadReport<TaskRecord>,
    sessions: LoadReport<SessionRecord>,
    started: Started,
    at: int,
)
    requires
        call_ensures(
            Supervisor::start,
            (
                config,
                lock,
                registry,
                Ok::<LoadReport<TaskRecord>, StoreError>(tasks),
                Ok::<LoadReport<SessionRecord>, StoreError>(sessions),
            ),
            Ok::<Started, ServiceError>(started),
        ),
        distinct_tasks(tasks.records@),
        0 <= at < tasks.records@.len(),
    ensures
        ({
            let before = tasks.records@[at];
            let board = started.supervisor@;
            let after = board.tasks[before.id.bits];
            let left = before.state is Pending || before.state is Running;
            &&& board.tasks.contains_key(before.id.bits)
            &&& !left ==> after == before
            &&& left ==> after.state is Failed
            &&& before.state is Running ==> after.state->error@
                == "bridge 重启时任务仍在执行，进程已随旧 bridge 消亡"@
            &&& before.state is Pending ==> after.state->error@ == "bridge 重启于任务起跑前"@
            &&& after.id == before.id
            &&& after.spec == before.spec
            &&& after.session_id == before.session_id
            &&& after.retries == before.retries
            &&& after.usage == before.usage
            &&& after.created_at == before.created_at
            &&& after.last_agent_message == before.last_agent_message
            &&& after.diff_stat == before.diff_stat
            &&& after.events_path == before.events_path
            &&& after.worktree_path == before.worktree_path
            &&& started.report.swept_tasks@.contains(before.id) <==> left
            &&& left ==> exists|i: int|
                0 <= i < started.writes@.len() && (
                #[trigger] started.writes@[i] matches RecordWrite::Task { record, .. } && record
                    == after)
        }),
        started.report.tasks_loaded == tasks.records@.len(),
        started.report.swept_tasks@.no_duplicates(),
        started.supervisor@.running == Set::<u128>::empty(),
{
    let records = tasks.records@;
    let before = records[at];
    lemma_tasks_are_found(records, before.id.bits);
    let found = recovery::tasks_by_id(records);
    assert(found[records[at].id.bits] == records[at]);
    let board = started.supervisor@;
    assert(found.contains_key(before.id.bits));
    assert(board.tasks.dom().contains(before.id.bits));
    if before.state is Pending || before.state is Running {
        assert(recovery::task_is_written(
            started.writes@,
            config.codex_home@,
            board.tasks[before.id.bits],
        ));
        let i = choose|i: int|
            0 <= i < started.writes@.len() && (#[trigger] started.writes@[i]).writes_task(
                config.codex_home@,
                board.tasks[before.id.bits],
            );
        assert(started.writes@[i] is Task);
    }
}

/// Law: no session is lost at the start. One whose holder was left behind in it
/// is free again, and that is written down; every other is as it was, and the
/// conversation, the model, the sandbox and the directory of each stay.
pub proof fn law_sessions_left_behind_are_free(
    config: SupervisorConfig,
    lock: SupervisorLock,
    registry: Result<ModelRegistry, StoreError>,
    tasks: LoadReport<TaskRecord>,
    sessions: LoadReport<SessionRecord>,
    started: Started,
    at: int,
    holder: int,
)
    requires
        call_ensures(
            Supervisor::start,
            (
                config,
                lock,
                registry,
                Ok::<LoadReport<TaskRecord>, StoreError>(tasks),
                Ok::<LoadReport<SessionRecord>, StoreError>(sessions),
            ),
            Ok::<Started, ServiceError>(started),
        ),
        distinct_tasks(tasks.records@),
        distinct_sessions(sessions.records@),
        0 <= at < sessions.records@.len(),
    ensures
        ({
            let before = sessions.records@[at];
            let board = started.supervisor@;
            let after = board.sessions[before.id.bits];
            &&& board.sessions.contains_key(before.id.bits)
            &&& crate::laws::leases::same_session(after, before)
            &&& before.owner is Free ==> after == before
            &&& 0 <= holder < tasks.records@.len() ==> {
                let task = tasks.records@[holder];
                let held = before.owner == (SessionOwner::Task { task: task.id });
                let left = task.state is Pending || task.state is Running;
                &&& held && left && task.session_id == Some(before.id) ==> after.owner is Free
                    && exists|i: int|
                    0 <= i < started.writes@.len() && (
                    #[trigger] started.writes@[i] matches RecordWrite::Session { record, .. }
                        && record == after)
                &&& held && !left ==> after == before
                &&& held && task.session_id != Some(before.id) ==> after == before
            }
        }),
        started.report.sessions_loaded == sessions.records@.len(),
{
    let before = sessions.records@[at];
    let key = before.id.bits;
    lemma_sessions_are_found(sessions.records@, key);
    let found = recovery::sessions_by_id(sessions.records@);
    assert(found[sessions.records@[at].id.bits] == sessions.records@[at]);
    let board = started.supervisor@;
    assert(found.contains_key(key));
    assert(board.sessions.dom().contains(key));
    assert(before.id == (SessionId { bits: key }));
    if 0 <= holder < tasks.records@.len() {
        let task = tasks.records@[holder];
        lemma_tasks_are_found(tasks.records@, task.id.bits);
        let known = recovery::tasks_by_id(tasks.records@);
        assert(known[tasks.records@[holder].id.bits] == tasks.records@[holder]);
        if recovery::is_abandoned(known, key, before) {
            assert(recovery::session_is_written(
                started.writes@,
                config.codex_home@,
                board.sessions[key],
            ));
            let i = choose|i: int|
                0 <= i < started.writes@.len() && (#[trigger] started.writes@[i]).writes_session(
                    config.codex_home@,
                    board.sessions[key],
                );
            assert(started.writes@[i] is Session);
        }
    }
}

/// Law: nothing is written at the start but tasks and sessions as they now are,
/// and nothing comes to be that was not found.
pub proof fn law_nothing_is_made_up_at_the_start(
    config: SupervisorConfig,
    lock: SupervisorLock,
    registry: Result<ModelRegistry, StoreError>,
    tasks: LoadReport<TaskRecord>,
    sessions: LoadReport<SessionRecord>,
    started: Started,
    id: u128,
    at: int,
)
    requires
        call_ensures(
            Supervisor::start,
            (
                config,
                lock,
                registry,
                Ok::<LoadReport<TaskRecord>, StoreError>(tasks),
                Ok::<LoadReport<SessionRecord>, StoreError>(sessions),
            ),
            Ok::<Started, ServiceError>(started),
        ),
    ensures
        started.supervisor@.tasks.contains_key(id) ==> exists|i: int|
            0 <= i < tasks.records@.len() && (#[trigger] tasks.records@[i]).id.bits == id,
        started.supervisor@.sessions.contains_key(id) ==> exists|i: int|
            0 <= i < sessions.records@.len() && (#[trigger] sessions.records@[i]).id.bits == id,
        0 <= at < started.writes@.len() ==> match started.writes@[at] {
            RecordWrite::Task { record, .. } => started.supervisor@.tasks.contains_key(
                record.id.bits,
            ) && started.supervisor@.tasks[record.id.bits] == record,
            RecordWrite::Session { record, .. } => started.supervisor@.sessions.contains_key(
                record.id.bits,
            ) && started.supervisor@.sessions[record.id.bits] == record,
        },
        started.supervisor@.wf(),
{
    lemma_tasks_are_found(tasks.records@, id);
    lemma_sessions_are_found(sessions.records@, id);
    if started.supervisor@.tasks.contains_key(id) {
        assert(started.supervisor@.tasks.dom().contains(id));
    }
    if started.supervisor@.sessions.contains_key(id) {
        assert(started.supervisor@.sessions.dom().contains(id));
    }
    if 0 <= at < started.writes@.len() {
        assert(recovery::writes_from(
            started.writes@[at],
            config.codex_home@,
            started.supervisor@,
        ));
    }
}

/// Law: state directories that could not be made are reported as that.
pub proof fn law_layout_failures_are_reported(detail: String, out: ServiceError)
    requires
        call_ensures(recovery::layout_failed, (detail,), out),
    ensures
        out is Io,
        out->Io_context@ == "ensure supervisor layout"@,
        out->Io_detail == detail,
{
}

} // verus!
