//! What every operation keeps: the setup, the files of the records, and a board
//! on which everything has its place.

use crate::acceptance::StreamWatch;
use crate::clock::Timestamp;
use crate::executor::{ExecError, ExecutorEvent};
use crate::models::ModelRegistry;
use crate::paths;
use crate::paths::{LoadReport, StoreError, SupervisorLock};
use crate::registry::{TaskId, TaskRecord};
use crate::service::driver::{
    AttemptEnd, Closing, Drive, NextStep, RelaunchStep, Settlement, WatchStep,
};
use crate::service::preflight::ProbeOutcome;
use crate::service::recovery::Started;
use crate::service::spawn::{Checkout, Launched, Leased, Opening, Prepared, SpawnFailure, Spawned};
use crate::service::{Board, RecordWrite, ServiceError, SpawnRequest, Supervisor, SupervisorConfig};
use crate::session::{SessionId, SessionOwner, SessionRecord};
use crate::text;
use vstd::prelude::*;

verus! {

/// Whether a write goes into the file of its record, below the given home.
pub open spec fn goes_to_its_file(write: RecordWrite, home: Seq<char>) -> bool {
    match write {
        RecordWrite::Task { path, record } => path@ == TaskRecord::file_of(home, record.id),
        RecordWrite::Session { path, record } => path@ == SessionRecord::file_of(home, record.id),
    }
}

/// Whether a write, where there is one, goes into the file of its record.
pub open spec fn if_any_goes_to_its_file(write: Option<RecordWrite>, home: Seq<char>) -> bool {
    write is Some ==> goes_to_its_file(write->Some_0, home)
}

/// Whether the home, the program and the models are the same.
pub open spec fn is_set_up_alike(a: Supervisor, b: Supervisor) -> bool {
    &&& a.home_dir() == b.home_dir()
    &&& a.program() == b.program()
    &&& a.models() == b.models()
}

/// Whether every record stands under its own identifier, every running task holds
/// the session that it names, and only running tasks can be interrupted.
pub open spec fn is_sound(board: Board) -> bool {
    &&& forall|k: u128| #[trigger]
        board.tasks.contains_key(k) ==> {
            let task = board.tasks[k];
            &&& task.id.bits == k
            &&& task.state is Running ==> {
                &&& task.session_id is Some
                &&& board.sessions.contains_key(task.session_id->Some_0.bits)
                &&& board.sessions[task.session_id->Some_0.bits].owner == (SessionOwner::Task {
                    task: task.id,
                })
            }
        }
    &&& forall|k: u128| #[trigger]
        board.sessions.contains_key(k) ==> board.sessions[k].id.bits == k
    &&& forall|k: u128| #[trigger]
        board.running.contains(k) ==> board.tasks.contains_key(k) && board.tasks[k].state is Running
}

/// Law: a board is well formed exactly where everything on it has its place.
pub proof fn law_well_formed_means_sound(board: Board)
    ensures
        board.wf() <==> is_sound(board),
{
    if is_sound(board) {
        assert forall|k: u128| #[trigger]
            board.tasks.contains_key(k) && board.tasks[k].state is Running implies board.tasks[k].session_id
            is Some && board.holds(board.tasks[k].id, board.tasks[k].session_id->Some_0) by {}
        assert forall|k: u128| #[trigger] board.running.contains(k) implies board.tasks.contains_key(
            k,
        ) && board.tasks[k].state is Running by {}
    }
    if board.wf() {
        assert forall|k: u128| #[trigger] board.tasks.contains_key(k) implies {
            let task = board.tasks[k];
            &&& task.id.bits == k
            &&& task.state is Running ==> {
                &&& task.session_id is Some
                &&& board.sessions.contains_key(task.session_id->Some_0.bits)
                &&& board.sessions[task.session_id->Some_0.bits].owner == (SessionOwner::Task {
                    task: task.id,
                })
            }
        } by {
            if board.tasks[k].state is Running {
                assert(board.tasks.contains_key(k) && board.tasks[k].state is Running);
            }
        }
    }
}

/// Law: two running tasks never share a session.
pub proof fn law_running_tasks_share_no_session(board: Board, a: u128, b: u128)
    requires
        board.wf(),
        board.tasks.contains_key(a),
        board.tasks.contains_key(b),
        a != b,
        board.tasks[a].state is Running,
        board.tasks[b].state is Running,
    ensures
        board.tasks[a].session_id != board.tasks[b].session_id,
{
    law_well_formed_means_sound(board);
}

/// Law: opening a request keeps the setup and a sound board, and what it writes
/// goes into the file of its record.
pub proof fn law_openings_keep_the_board_sound(
    plain: &mut Supervisor,
    probed: &mut Supervisor,
    opened: &mut Supervisor,
    request: SpawnRequest,
    probe: Option<ProbeOutcome>,
    task: TaskId,
    fresh: SessionId,
    now: Timestamp,
    one: Result<Opening, ServiceError>,
    two: Result<Opening, ServiceError>,
    three: Result<Opening, ServiceError>,
)
    requires
        call_ensures(Supervisor::spawn_task, (plain, request), one),
        call_ensures(Supervisor::spawn_probed, (probed, request, probe), two),
        call_ensures(Supervisor::open_task, (opened, request, task, fresh, now), three),
    ensures
        is_set_up_alike(*final(plain), *old(plain)),
        is_set_up_alike(*final(probed), *old(probed)),
        is_set_up_alike(*final(opened), *old(opened)),
        is_sound(old(plain)@) ==> is_sound(final(plain)@),
        is_sound(old(probed)@) ==> is_sound(final(probed)@),
        is_sound(old(opened)@) ==> is_sound(final(opened)@),
        one is Ok ==> goes_to_its_file(one->Ok_0.write, old(plain).home_dir()),
        two is Ok ==> goes_to_its_file(two->Ok_0.write, old(probed).home_dir()),
        three is Ok ==> goes_to_its_file(three->Ok_0.write, old(opened).home_dir()),
{
    law_well_formed_means_sound(old(plain)@);
    law_well_formed_means_sound(final(plain)@);
    law_well_formed_means_sound(old(probed)@);
    law_well_formed_means_sound(final(probed)@);
    law_well_formed_means_sound(old(opened)@);
    law_well_formed_means_sound(final(opened)@);
}

/// Law: so do the steps of a beginning. A session that is added is a new one, and
/// a task that is added runs and holds its session.
pub proof fn law_beginnings_keep_the_board_sound(
    saved: &mut Supervisor,
    ready: &mut Supervisor,
    launching: &mut Supervisor,
    kept: &mut Supervisor,
    opening: Opening,
    stored: Result<(), StoreError>,
    leased: Leased,
    checkout: Checkout,
    prepared: Prepared,
    launch: Result<Option<u32>, ExecError>,
    launched: Launched,
    a: Result<Leased, ServiceError>,
    b: Result<Prepared, SpawnFailure>,
    c: Result<Launched, SpawnFailure>,
    d: Result<Spawned, ServiceError>,
)
    requires
        call_ensures(Supervisor::session_saved, (saved, opening, stored), a),
        call_ensures(Supervisor::checkout_ready, (ready, leased, checkout), b),
        call_ensures(Supervisor::launched, (launching, prepared, launch), c),
        call_ensures(Supervisor::task_saved, (kept, launched, stored), d),
    ensures
        is_set_up_alike(*final(saved), *old(saved)),
        is_set_up_alike(*final(ready), *old(ready)),
        is_set_up_alike(*final(launching), *old(launching)),
        is_set_up_alike(*final(kept), *old(kept)),
        is_sound(old(saved)@) && !old(saved)@.sessions.contains_key(opening.session.id.bits)
            ==> is_sound(final(saved)@),
        is_sound(old(ready)@) && !old(ready)@.tasks.contains_key(leased.task.id.bits) ==> is_sound(
            final(ready)@,
        ),
        is_sound(old(launching)@) && !old(launching)@.tasks.contains_key(prepared.task.id.bits)
            ==> is_sound(final(launching)@),
        is_sound(old(kept)@) && launched.task.state is Running && launched.task.session_id == Some(
            launched.session_id,
        ) && old(kept)@.sessions.contains_key(launched.session_id.bits) && old(
            kept)@.sessions[launched.session_id.bits].owner == (SessionOwner::Task {
            task: launched.task.id,
        }) ==> is_sound(final(kept)@),
        b is Err ==> if_any_goes_to_its_file(b->Err_0.write, old(ready).home_dir()),
        c is Err && launch is Err ==> if_any_goes_to_its_file(
            c->Err_0.write,
            old(launching).home_dir(),
        ),
        c is Ok ==> goes_to_its_file(c->Ok_0.write, old(launching).home_dir()),
{
    law_well_formed_means_sound(old(saved)@);
    law_well_formed_means_sound(final(saved)@);
    law_well_formed_means_sound(old(ready)@);
    law_well_formed_means_sound(final(ready)@);
    law_well_formed_means_sound(old(launching)@);
    law_well_formed_means_sound(final(launching)@);
    law_well_formed_means_sound(old(kept)@);
    law_well_formed_means_sound(final(kept)@);
    assert(old(ready)@.wf() ==> old(ready)@.keyed());
    assert(old(launching)@.wf() ==> old(launching)@.keyed());
    if is_sound(old(ready)@) && b is Err && old(ready)@.holds(leased.task.id, leased.session_id) {
        assert(old(ready)@.sessions.contains_key(leased.session_id.bits));
    }
    if c is Err && is_sound(old(launching)@) && old(launching)@.holds(
        prepared.task.id,
        prepared.session_id,
    ) {
        assert(old(launching)@.sessions.contains_key(prepared.session_id.bits));
    }
}

/// Law: so do the steps from launch to end.
pub proof fn law_runs_keep_the_board_sound(
    observing: &mut Supervisor,
    ending: &mut Supervisor,
    again: &mut Supervisor,
    closing: &mut Supervisor,
    interrupting: &mut Supervisor,
    drive: Drive,
    watch: &mut StreamWatch,
    seen: StreamWatch,
    event: ExecutorEvent,
    end: AttemptEnd,
    launch: Result<Option<u32>, ExecError>,
    settlement: Settlement,
    diff_stat: Option<String>,
    task: TaskId,
    a: WatchStep,
    b: NextStep,
    c: RelaunchStep,
    d: Closing,
    e: Result<(), ServiceError>,
)
    requires
        old(watch).wf(),
        call_ensures(Supervisor::observe, (observing, &drive, watch, &event), a),
        call_ensures(Supervisor::attempt_ended, (ending, drive, end, &seen), b),
        call_ensures(Supervisor::relaunched, (again, drive, launch), c),
        call_ensures(Supervisor::finalize, (closing, settlement, diff_stat), d),
        call_ensures(Supervisor::interrupt, (interrupting, task), e),
    ensures
        final(watch).wf(),
        is_set_up_alike(*final(observing), *old(observing)),
        is_set_up_alike(*final(ending), *old(ending)),
        is_set_up_alike(*final(again), *old(again)),
        is_set_up_alike(*final(closing), *old(closing)),
        is_set_up_alike(*final(interrupting), *old(interrupting)),
        is_sound(old(observing)@) ==> is_sound(final(observing)@),
        is_sound(old(ending)@) ==> is_sound(final(ending)@),
        is_sound(old(again)@) && old(again)@.tasks.contains_key(drive.task_id.bits) && old(
            again)@.tasks[drive.task_id.bits].state is Running ==> is_sound(final(again)@),
        is_sound(old(closing)@) && (settlement.state is Completed || settlement.state is Failed
            || settlement.state is Interrupted) ==> is_sound(final(closing)@),
        is_sound(old(interrupting)@) ==> is_sound(final(interrupting)@),
        if_any_goes_to_its_file(a.write, old(observing).home_dir()),
        b matches NextStep::Relaunch { write, .. } ==> if_any_goes_to_its_file(
            b->Relaunch_write,
            old(ending).home_dir(),
        ),
        c matches RelaunchStep::Watch { write, .. } ==> if_any_goes_to_its_file(
            c->Watch_write,
            old(again).home_dir(),
        ),
        if_any_goes_to_its_file(d.task, old(closing).home_dir()),
        if_any_goes_to_its_file(d.session, old(closing).home_dir()),
{
    law_well_formed_means_sound(old(observing)@);
    law_well_formed_means_sound(final(observing)@);
    law_well_formed_means_sound(old(ending)@);
    law_well_formed_means_sound(final(ending)@);
    law_well_formed_means_sound(old(again)@);
    law_well_formed_means_sound(final(again)@);
    law_well_formed_means_sound(old(closing)@);
    law_well_formed_means_sound(final(closing)@);
    law_well_formed_means_sound(old(interrupting)@);
    law_well_formed_means_sound(final(interrupting)@);
}

/// Law: a supervisor starts with a sound board, and what it writes goes into the
/// files of its records.
pub proof fn law_starts_are_sound(
    config: SupervisorConfig,
    lock: SupervisorLock,
    registry: Result<ModelRegistry, StoreError>,
    tasks: Result<LoadReport<TaskRecord>, StoreError>,
    sessions: Result<LoadReport<SessionRecord>, StoreError>,
    started: Started,
    at: int,
)
    requires
        call_ensures(
            Supervisor::start,
            (config, lock, registry, tasks, sessions),
            Ok::<Started, ServiceError>(started),
        ),
    ensures
        is_sound(started.supervisor@),
        forall|k: u128| #[trigger]
            started.supervisor@.tasks.contains_key(k) ==> {
                let state = started.supervisor@.tasks[k].state;
                state is Completed || state is Failed || state is Interrupted
            },
        0 <= at < started.writes@.len() ==> goes_to_its_file(started.writes@[at], config.codex_home@),
{
    law_well_formed_means_sound(started.supervisor@);
    let found = crate::service::recovery::tasks_by_id(tasks->Ok_0.records@);
    let board = started.supervisor@;
    assert forall|k: u128| #[trigger] board.tasks.contains_key(k) implies {
        let state = board.tasks[k].state;
        state is Completed || state is Failed || state is Interrupted
    } by {
        assert(found.dom().contains(k));
        assert(found.contains_key(k));
    }
    if 0 <= at < started.writes@.len() {
        assert(crate::service::recovery::writes_from(started.writes@[at], config.codex_home@, board));
    }
}

/// Law: the raw stream of a task stands under its identifier among the streams,
/// and a run that is launched again has one of its own beside it, with the number
/// of the run in its name.
pub proof fn law_streams_stand_under_their_task(
    ready: &mut Supervisor,
    ending: &mut Supervisor,
    leased: Leased,
    checkout: Checkout,
    prepared: Prepared,
    drive: Drive,
    end: AttemptEnd,
    watch: StreamWatch,
    next: NextStep,
    front: Seq<char>,
    stem: Seq<char>,
)
    requires
        call_ensures(
            Supervisor::checkout_ready,
            (ready, leased, checkout),
            Ok::<Prepared, SpawnFailure>(prepared),
        ),
        old(ready).home_dir().len() > 0,
        old(ready).home_dir().last() != '/',
        call_ensures(Supervisor::attempt_ended, (ending, drive, end, &watch), next),
        next is Relaunch,
        drive.events_path@ == front + seq!['/'] + (stem + seq!['.'] + seq!['j', 's', 'o', 'n', 'l']),
        stem.len() > 0,
        !stem.contains('/'),
    ensures
        prepared.events_path@ == old(ready).home_dir() + seq!['/'] + "supervisor"@ + seq!['/']
            + "events"@ + seq!['/'] + (leased.task.id@ + ".jsonl"@),
        next->Relaunch_events_path@ == front + seq!['/'] + (stem + seq!['.'] + ("a"@
            + text::decimal((drive.attempt + 2) as nat) + ".jsonl"@)),
        next->Relaunch_events_path@ != drive.events_path@,
{
    reveal_strlit("supervisor");
    reveal_strlit("events");
    reveal_strlit("a");
    let home = old(ready).home_dir();
    crate::ids::lemma_uuid_text_is_plain(leased.task.id.bits);
    assert((leased.task.id@ + ".jsonl"@)[0] == leased.task.id@[0]);
    let root = home + seq!['/'] + "supervisor"@;
    assert(root.last() == 'r');
    assert((root + seq!['/'] + "events"@).last() == 's');
    let plain = seq!['j', 's', 'o', 'n', 'l'];
    let new = "a"@ + text::decimal((drive.attempt + 2) as nat) + ".jsonl"@;
    paths::lemma_extension_is_replaced(front, stem, plain, new);
    let cut = front + seq!['/'] + stem + seq!['.'];
    let was = front + seq!['/'] + (stem + seq!['.'] + plain);
    let now = front + seq!['/'] + (stem + seq!['.'] + new);
    assert(was =~= cut + plain);
    assert(now =~= cut + new);
    assert(was[cut.len() as int] == 'j');
    assert(now[cut.len() as int] == 'a');
}

} // verus!
