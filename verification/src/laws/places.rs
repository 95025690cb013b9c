//! Where things are kept, how they are found again, and what is said where they
//! are not.

use crate::executor;
use crate::executor::{ExecError, ExecutorConfig, LaunchCommand, LaunchPlan};
use crate::middleware::MiddlewareError;
use crate::models::{ModelEntry, ModelRegistry, RegistryError};
use crate::paths;
use crate::paths::{
    DirEntry, DirListing, LoadReport, LockAttempt, LockError, LockStep, StoreError, SupervisorHome,
};
use crate::registry::{TaskId, TaskRecord};
use crate::service::spawn;
use crate::session::SessionRecord;
use crate::text;
use crate::worktree;
use crate::worktree::WorktreeError;
use vstd::prelude::*;

verus! {

/// Law: a relative path goes below a directory, with one slash in between; an
/// absolute one stands for itself.
pub proof fn law_paths_are_joined(base: &str, leaf: &str, out: String)
    requires
        call_ensures(paths::join_path, (base, leaf), out),
    ensures
        leaf@.len() > 0 && leaf@[0] == '/' ==> out@ == leaf@,
        base@.len() == 0 ==> out@ == leaf@,
        base@.len() > 0 && base@.last() == '/' && !(leaf@.len() > 0 && leaf@[0] == '/') ==> out@
            == base@ + leaf@,
        base@.len() > 0 && base@.last() != '/' && !(leaf@.len() > 0 && leaf@[0] == '/') ==> out@
            == base@ + seq!['/'] + leaf@,
{
}

/// Law: everything that is kept while the supervisor runs stands below one
/// directory of its home, each kind in a directory of its own; the registry of
/// models stands beside that directory.
pub proof fn law_the_layout_is_as_documented(
    home: SupervisorHome,
    root: String,
    tasks: String,
    sessions: String,
    events: String,
    worktrees: String,
    lock: String,
    models: String,
    layout: Vec<String>,
)
    requires
        home@.len() > 0,
        home@.last() != '/',
        call_ensures(SupervisorHome::state_root, (&home,), root),
        call_ensures(SupervisorHome::tasks_dir, (&home,), tasks),
        call_ensures(SupervisorHome::sessions_dir, (&home,), sessions),
        call_ensures(SupervisorHome::events_dir, (&home,), events),
        call_ensures(SupervisorHome::worktrees_dir, (&home,), worktrees),
        call_ensures(SupervisorHome::lock_path, (&home,), lock),
        call_ensures(SupervisorHome::models_path, (&home,), models),
        call_ensures(SupervisorHome::ensure_layout, (&home,), layout),
    ensures
        root@ == home@ + seq!['/'] + "supervisor"@,
        tasks@ == root@ + seq!['/'] + "tasks"@,
        sessions@ == root@ + seq!['/'] + "sessions"@,
        events@ == root@ + seq!['/'] + "events"@,
        worktrees@ == root@ + seq!['/'] + "worktrees"@,
        lock@ == root@ + seq!['/'] + "supervisor.lock"@,
        models@ == home@ + seq!['/'] + "supervisor.models.toml"@,
        text::texts(layout@) == seq![tasks@, sessions@],
{
    lemma_below(home@);
}

proof fn lemma_below(home: Seq<char>)
    requires
        home.len() > 0,
        home.last() != '/',
    ensures
        paths::state_root_of(home) == home + seq!['/'] + "supervisor"@,
        paths::state_dir_of(home, "tasks"@) == home + seq!['/'] + "supervisor"@ + seq!['/']
            + "tasks"@,
        paths::state_dir_of(home, "sessions"@) == home + seq!['/'] + "supervisor"@ + seq!['/']
            + "sessions"@,
        paths::state_dir_of(home, "events"@) == home + seq!['/'] + "supervisor"@ + seq!['/']
            + "events"@,
        paths::state_dir_of(home, "worktrees"@) == home + seq!['/'] + "supervisor"@ + seq!['/']
            + "worktrees"@,
        paths::state_dir_of(home, "supervisor.lock"@) == home + seq!['/'] + "supervisor"@ + seq![
            '/',
        ] + "supervisor.lock"@,
        paths::joined_path(home, "supervisor.models.toml"@) == home + seq!['/']
            + "supervisor.models.toml"@,
{
    reveal_strlit("supervisor");
    reveal_strlit("tasks");
    reveal_strlit("sessions");
    reveal_strlit("events");
    reveal_strlit("worktrees");
    reveal_strlit("supervisor.lock");
    reveal_strlit("supervisor.models.toml");
    let root = home + seq!['/'] + "supervisor"@;
    assert(root.last() == 'r');
}

/// Law: the record of a task and that of a session stand under their identifiers
/// in the directories of their kinds, and so does a checkout.
pub proof fn law_records_stand_under_their_identifiers(
    home: SupervisorHome,
    task: TaskRecord,
    session: SessionRecord,
    id: TaskId,
    of_task: String,
    of_session: String,
    checkout: String,
)
    requires
        home@.len() > 0,
        home@.last() != '/',
        call_ensures(TaskRecord::save, (&task, &home), of_task),
        call_ensures(SessionRecord::save, (&session, &home), of_session),
        call_ensures(worktree::checkout_dir, (&home, id), checkout),
    ensures
        of_task@ == home@ + seq!['/'] + "supervisor"@ + seq!['/'] + "tasks"@ + seq!['/'] + (
        task.id@ + ".json"@),
        of_session@ == home@ + seq!['/'] + "supervisor"@ + seq!['/'] + "sessions"@ + seq!['/'] + (
        session.id@ + ".json"@),
        checkout@ == home@ + seq!['/'] + "supervisor"@ + seq!['/'] + "worktrees"@ + seq!['/']
            + id@,
{
    lemma_below(home@);
    reveal_strlit("tasks");
    reveal_strlit("sessions");
    reveal_strlit("worktrees");
    crate::ids::lemma_uuid_text_is_plain(task.id.bits);
    crate::ids::lemma_uuid_text_is_plain(session.id.bits);
    crate::ids::lemma_uuid_text_is_plain(id.bits);
    assert((task.id@ + ".json"@)[0] == task.id@[0]);
    assert((session.id@ + ".json"@)[0] == session.id@[0]);
    let root = home@ + seq!['/'] + "supervisor"@ + seq!['/'];
    assert((root + "tasks"@).last() == 's');
    assert((root + "sessions"@).last() == 's');
    assert((root + "worktrees"@).last() == 's');
}

/// Law: branches and commits are named after their tasks.
pub proof fn law_branches_are_named_after_tasks(task: TaskId, branch: String, commit: String)
    requires
        call_ensures(worktree::branch_name, (task,), branch),
        call_ensures(worktree::commit_message, (task,), commit),
    ensures
        branch@ == "rdos/task/"@ + task@,
        commit@ == "rdos task "@ + task@ + " 产出（supervisor 自动落盘）"@,
{
}

/// Law: a file keeps its directory and its stem when it gets another extension,
/// and diagnostics stand beside the output that way.
pub proof fn law_extensions_are_replaced(
    path: &str,
    extension: &str,
    out: String,
    front: Seq<char>,
    stem: Seq<char>,
    was: Seq<char>,
    config: ExecutorConfig,
    task: TaskId,
    plan: LaunchPlan,
    command: LaunchCommand,
)
    requires
        call_ensures(paths::with_extension, (path, extension), out),
        call_ensures(executor::launch, (&config, task, &plan, path), command),
        path@ == front + seq!['/'] + (stem + seq!['.'] + was),
        stem.len() > 0,
        was.len() > 0,
        extension@.len() > 0,
        !stem.contains('/'),
        !was.contains('/'),
        !was.contains('.'),
    ensures
        out@ == front + seq!['/'] + (stem + seq!['.'] + extension@),
        command.stderr_path@ == front + seq!['/'] + (stem + seq!['.'] + "stderr.log"@),
        command.stdout_path@ == path@,
        command.program == config.codex_bin,
        command.codex_home == config.codex_home,
        command.cwd == plan.cwd,
        command.timeout == plan.timeout,
        command.task == task,
{
    reveal_strlit("stderr.log");
    paths::lemma_extension_is_replaced(front, stem, was, extension@);
    paths::lemma_extension_is_replaced(front, stem, was, "stderr.log"@);
}

/// Law: a lock that is free is taken; one that is held is tried for again every
/// fifty milliseconds, ten times, and then counts as held by another supervisor;
/// one that cannot be used is given up at once.
pub proof fn law_locks_are_tried_ten_times(
    home: SupervisorHome,
    retries: u32,
    attempt: LockAttempt,
    step: LockStep,
    lock: String,
)
    requires
        call_ensures(
            SupervisorHome::acquire_singleton_lock,
            (&home, retries, attempt),
            step,
        ),
        call_ensures(SupervisorHome::lock_path, (&home,), lock),
    ensures
        step is Held <==> attempt is Acquired,
        step matches LockStep::Held(held) ==> held@ == lock@,
        step is Retry <==> attempt is WouldBlock && retries < 10,
        step matches LockStep::Retry { after_millis } ==> after_millis == 50,
        attempt is WouldBlock && retries >= 10 ==> step is Refused && step->Refused_0
            is AlreadyRunning && step->Refused_0->AlreadyRunning_path@ == lock@,
        attempt matches LockAttempt::Failed { detail } ==> step == LockStep::Refused(
            LockError::Io { detail },
        ),
{
}

/// Law: the holder of the lock writes its process into it.
pub proof fn law_locks_name_their_holder(pid: u32, note: String)
    requires
        call_ensures(paths::lock_note, (pid,), note),
    ensures
        note@ == "pid="@ + text::decimal(pid as nat) + "\n"@,
{
}

/// Law: a file is taken for a record exactly where its name is something with
/// `.json` at its end.
pub proof fn law_records_are_json_files(name: &str, yes: bool)
    requires
        call_ensures(paths::is_record_file, (name,), yes),
    ensures
        yes <==> name@.len() > 5 && name@.skip(name@.len() - 5) == seq!['.', 'j', 's', 'o', 'n'],
{
    reveal_strlit(".json");
    assert(".json"@ =~= seq!['.', 'j', 's', 'o', 'n']);
    if name@.len() > 5 {
        assert(name@.skip(name@.len() - 5) =~= name@.subrange(
            name@.len() - 5,
            name@.len() as int,
        ));
    }
}

/// Whether a name is something with `.json` at its end.
pub open spec fn is_json(name: Seq<char>) -> bool {
    name.len() > 5 && name.skip(name.len() - 5) == seq!['.', 'j', 's', 'o', 'n']
}

proof fn lemma_json(name: Seq<char>)
    ensures
        is_json(name) == paths::names_record(name),
{
    reveal_strlit(".json");
    assert(".json"@ =~= seq!['.', 'j', 's', 'o', 'n']);
    if name.len() > 5 {
        assert(name.skip(name.len() - 5) =~= name.subrange(name.len() - 5, name.len() as int));
    }
}

pub proof fn lemma_breakage<T>(entries: Seq<DirEntry<T>>)
    ensures
        paths::first_breakage(entries) is None <==> forall|i: int|
            0 <= i < entries.len() ==> (#[trigger] entries[i]) is File,
    decreases entries.len(),
{
    if entries.len() > 0 {
        let before = entries.drop_last();
        lemma_breakage(before);
        assert(entries[entries.len() - 1] == entries.last());
        if forall|i: int| 0 <= i < entries.len() ==> (#[trigger] entries[i]) is File {
            assert forall|i: int| 0 <= i < before.len() implies (#[trigger] before[i]) is File by {
                assert(entries[i] is File);
            }
        }
        if paths::first_breakage(entries) is None {
            assert forall|i: int| 0 <= i < entries.len() implies (#[trigger] entries[i]) is File by {
                if i < before.len() {
                    assert(before[i] is File);
                }
            }
        }
    }
}

proof fn lemma_record_is_kept<T>(entries: Seq<DirEntry<T>>, at: int)
    requires
        0 <= at < entries.len(),
        entries[at] is File,
        is_json(entries[at]->name@),
        entries[at]->content is Ok,
    ensures
        paths::records_of(entries).contains(entries[at]->content->Ok_0),
    decreases entries.len(),
{
    lemma_json(entries[at]->name@);
    let before = paths::records_of(entries.drop_last());
    let all = paths::records_of(entries);
    if at == entries.len() - 1 {
        assert(all == before.push(entries[at]->content->Ok_0));
        assert(all[before.len() as int] == entries[at]->content->Ok_0);
    } else {
        assert(entries.drop_last()[at] == entries[at]);
        lemma_record_is_kept(entries.drop_last(), at);
        let i = choose|i: int| 0 <= i < before.len() && before[i] == entries[at]->content->Ok_0;
        assert(all[i] == before[i]);
    }
}

proof fn lemma_record_was_found<T>(entries: Seq<DirEntry<T>>, place: int)
    requires
        0 <= place < paths::records_of(entries).len(),
    ensures
        exists|at: int|
            0 <= at < entries.len() && (#[trigger] entries[at]) is File && is_json(
                entries[at]->name@,
            ) && entries[at]->content is Ok && entries[at]->content->Ok_0 == paths::records_of(
                entries,
            )[place],
    decreases entries.len(),
{
    let before = paths::records_of(entries.drop_last());
    let all = paths::records_of(entries);
    let init = entries.drop_last();
    if place < before.len() {
        lemma_record_was_found(init, place);
        let at = choose|at: int|
            0 <= at < init.len() && (#[trigger] init[at]) is File && is_json(init[at]->name@)
                && init[at]->content is Ok && init[at]->content->Ok_0 == before[place];
        assert(entries[at] == init[at]);
        assert(all[place] == before[place]);
    } else {
        let last = entries[entries.len() - 1];
        assert(last == entries.last());
        lemma_json(last->name@);
    }
}

proof fn lemma_damage_is_kept<T>(dir: Seq<char>, entries: Seq<DirEntry<T>>, at: int)
    requires
        0 <= at < entries.len(),
        entries[at] is File,
        is_json(entries[at]->name@),
        entries[at]->content is Err,
    ensures
        paths::damaged_of(dir, entries).contains(
            (paths::joined_path(dir, entries[at]->name@), entries[at]->content->Err_0.words()),
        ),
    decreases entries.len(),
{
    lemma_json(entries[at]->name@);
    let before = paths::damaged_of(dir, entries.drop_last());
    let all = paths::damaged_of(dir, entries);
    let wanted = (
        paths::joined_path(dir, entries[at]->name@),
        entries[at]->content->Err_0.words(),
    );
    if at == entries.len() - 1 {
        assert(all == before.push(wanted));
        assert(all[before.len() as int] == wanted);
    } else {
        assert(entries.drop_last()[at] == entries[at]);
        lemma_damage_is_kept(dir, entries.drop_last(), at);
        let i = choose|i: int| 0 <= i < before.len() && before[i] == wanted;
        assert(all[i] == before[i]);
    }
}

proof fn lemma_damage_was_found<T>(dir: Seq<char>, entries: Seq<DirEntry<T>>, place: int)
    requires
        0 <= place < paths::damaged_of(dir, entries).len(),
    ensures
        exists|at: int|
            0 <= at < entries.len() && (#[trigger] entries[at]) is File && is_json(
                entries[at]->name@,
            ) && entries[at]->content is Err && paths::damaged_of(dir, entries)[place] == (
                paths::joined_path(dir, entries[at]->name@),
                entries[at]->content->Err_0.words(),
            ),
    decreases entries.len(),
{
    let before = paths::damaged_of(dir, entries.drop_last());
    let all = paths::damaged_of(dir, entries);
    let init = entries.drop_last();
    if place < before.len() {
        lemma_damage_was_found(dir, init, place);
        let at = choose|at: int|
            0 <= at < init.len() && (#[trigger] init[at]) is File && is_json(init[at]->name@)
                && init[at]->content is Err && before[place] == (
                paths::joined_path(dir, init[at]->name@),
                init[at]->content->Err_0.words(),
            );
        assert(entries[at] == init[at]);
        assert(all[place] == before[place]);
    } else {
        let last = entries[entries.len() - 1];
        assert(last == entries.last());
        lemma_json(last->name@);
    }
}

/// Law: a scan gives every record of the directory and nothing else. A file that
/// is damaged is reported with its path and its reason and stops nothing; a file
/// that is no record is passed over; what cannot be listed is an error; and a
/// directory that does not exist holds nothing.
pub proof fn law_scans_are_complete<T>(
    dir: &str,
    found: DirListing<T>,
    out: Result<LoadReport<T>, StoreError>,
    at: int,
    place: int,
)
    requires
        call_ensures(paths::load_dir::<T>, (dir, found), out),
    ensures
        found is Missing ==> out is Ok && out->Ok_0.records@.len() == 0
            && out->Ok_0.skipped@.len() == 0,
        found matches DirListing::Unreadable { detail } ==> out is Err && out->Err_0 is Io
            && out->Err_0->Io_path@ == dir@ && !out->Err_0->not_found && out->Err_0->Io_detail
            == detail,
        found matches DirListing::Entries(entries) ==> {
            &&& out is Ok <==> forall|i: int|
                0 <= i < entries@.len() ==> (#[trigger] entries@[i]) is File
            &&& out is Err ==> out->Err_0 is Io && out->Err_0->Io_path@ == dir@
            &&& out is Ok && 0 <= at < entries@.len() && is_json(entries@[at]->name@)
                && entries@[at]->content is Ok ==> out->Ok_0.records@.contains(
                entries@[at]->content->Ok_0,
            )
            &&& out is Ok && 0 <= at < entries@.len() && is_json(entries@[at]->name@)
                && entries@[at]->content is Err ==> exists|i: int|
                0 <= i < out->Ok_0.skipped@.len() && (#[trigger] out->Ok_0.skipped@[i]).path@
                    == paths::joined_path(dir@, entries@[at]->name@)
                    && out->Ok_0.skipped@[i].reason@ == entries@[at]->content->Err_0.words()
            &&& out is Ok && 0 <= place < out->Ok_0.records@.len() ==> exists|i: int|
                0 <= i < entries@.len() && is_json((#[trigger] entries@[i])->name@)
                    && entries@[i]->content is Ok && entries@[i]->content->Ok_0
                    == out->Ok_0.records@[place]
            &&& out is Ok && 0 <= place < out->Ok_0.skipped@.len() ==> exists|i: int|
                0 <= i < entries@.len() && is_json((#[trigger] entries@[i])->name@)
                    && entries@[i]->content is Err && out->Ok_0.skipped@[place].path@
                    == paths::joined_path(dir@, entries@[i]->name@)
                    && out->Ok_0.skipped@[place].reason@ == entries@[i]->content->Err_0.words()
        },
{
    if found is Entries {
        let entries = found->Entries_0@;
        lemma_breakage(entries);
        if out is Ok {
            let skipped = out->Ok_0.skipped@;
            let said = paths::skipped_texts(skipped);
            assert(said.len() == skipped.len());
            assert(forall|i: int|
                0 <= i < skipped.len() ==> said[i] == (
                    (#[trigger] skipped[i]).path@,
                    skipped[i].reason@,
                ));
            if 0 <= at < entries.len() && is_json(entries[at]->name@) {
                assert(entries[at] is File);
                if entries[at]->content is Ok {
                    lemma_record_is_kept(entries, at);
                } else {
                    lemma_damage_is_kept(dir@, entries, at);
                    let wanted = (
                        paths::joined_path(dir@, entries[at]->name@),
                        entries[at]->content->Err_0.words(),
                    );
                    let i = choose|i: int| 0 <= i < said.len() && said[i] == wanted;
                    assert(skipped[i].path@ == wanted.0);
                }
            }
            if 0 <= place < out->Ok_0.records@.len() {
                lemma_record_was_found(entries, place);
            }
            if 0 <= place < skipped.len() {
                lemma_damage_was_found(dir@, entries, place);
                assert(said[place] == (skipped[place].path@, skipped[place].reason@));
            }
        }
    }
}

/// Law: records are given in the order in which their files were found.
pub proof fn law_records_are_given_in_order<T>(
    dir: &str,
    entries: Vec<DirEntry<T>>,
    out: Result<LoadReport<T>, StoreError>,
)
    requires
        call_ensures(paths::load_dir::<T>, (dir, DirListing::Entries(entries)), out),
        forall|i: int|
            0 <= i < entries@.len() ==> (#[trigger] entries@[i]) is File && is_json(
                entries@[i]->name@,
            ) && entries@[i]->content is Ok,
    ensures
        out is Ok,
        out->Ok_0.records@ == Seq::new(entries@.len(), |i: int| entries@[i]->content->Ok_0),
        out->Ok_0.skipped@.len() == 0,
{
    lemma_breakage(entries@);
    lemma_all_records(dir@, entries@);
    assert(paths::skipped_texts(out->Ok_0.skipped@).len() == out->Ok_0.skipped@.len());
}

pub proof fn lemma_all_records<T>(dir: Seq<char>, entries: Seq<DirEntry<T>>)
    requires
        forall|i: int|
            0 <= i < entries.len() ==> (#[trigger] entries[i]) is File && is_json(entries[i]->name@)
                && entries[i]->content is Ok,
    ensures
        paths::records_of(entries) == Seq::new(
            entries.len(),
            |i: int| entries[i]->content->Ok_0,
        ),
        paths::damaged_of(dir, entries).len() == 0,
    decreases entries.len(),
{
    let wanted = Seq::new(entries.len(), |i: int| entries[i]->content->Ok_0);
    if entries.len() == 0 {
        assert(paths::records_of(entries) =~= wanted);
    } else {
        let init = entries.drop_last();
        assert forall|i: int| 0 <= i < init.len() implies (#[trigger] init[i]) is File && is_json(
            init[i]->name@,
        ) && init[i]->content is Ok by {
            assert(init[i] == entries[i]);
        }
        lemma_all_records(dir, init);
        let last = entries[entries.len() - 1];
        assert(last == entries.last());
        lemma_json(last->name@);
        assert(paths::records_of(entries) =~= wanted);
    }
}

/// Law: what is registered under a key is what the key leads to, whatever was
/// under it before, and every other key leads where it led; a key that nothing is
/// registered under is refused by name.
pub proof fn law_keys_lead_to_what_was_registered(
    registry: &mut ModelRegistry,
    key: String,
    entry: ModelEntry,
    done: (),
    after: ModelRegistry,
    before: ModelRegistry,
    asked: &str,
    now: Result<&ModelEntry, RegistryError>,
    then: Result<&ModelEntry, RegistryError>,
)
    requires
        call_ensures(ModelRegistry::insert, (registry, key, entry), done),
        before.listed() == old(registry).listed(),
        after.listed() == final(registry).listed(),
        call_ensures(ModelRegistry::resolve, (&after, asked), now),
        call_ensures(ModelRegistry::resolve, (&before, asked), then),
    ensures
        asked@ == key@ ==> now is Ok && *now->Ok_0 == entry,
        asked@ != key@ ==> (now is Ok <==> then is Ok),
        asked@ != key@ && now is Ok ==> *now->Ok_0 == *then->Ok_0,
        now is Err ==> now->Err_0 is UnknownModel && now->Err_0->key@ == asked@,
        then is Err ==> then->Err_0->key@ == asked@,
{
    crate::models::law_insert_and_resolve(before, after, key, entry, asked@);
}

proof fn lemma_place(list: Seq<crate::models::Listing>, key: Seq<char>)
    ensures
        crate::models::place_of(list, key) <= list.len(),
        crate::models::place_of(list, key) < list.len() ==> list[crate::models::place_of(
            list,
            key,
        ) as int].key@ == key,
        forall|i: int|
            0 <= i < crate::models::place_of(list, key) ==> (#[trigger] list[i]).key@ != key,
    decreases list.len(),
{
    if list.len() > 0 && list.first().key@ != key {
        lemma_place(list.drop_first(), key);
        assert forall|i: int| 0 <= i < crate::models::place_of(list, key) implies (
        #[trigger] list[i]).key@ != key by {
            if i > 0 {
                assert(list.drop_first()[i - 1] == list[i]);
            }
        }
    }
}

/// Law: a key is found exactly where a model is listed under it, and it leads to
/// that model; a model that is served under a name is found by that name.
pub proof fn law_models_are_found(
    registry: ModelRegistry,
    key: &str,
    found: Result<&ModelEntry, RegistryError>,
    name: &str,
    serving: Option<String>,
    at: int,
)
    requires
        registry.wf(),
        call_ensures(ModelRegistry::resolve, (&registry, key), found),
        call_ensures(ModelRegistry::key_serving, (&registry, name), serving),
    ensures
        0 <= at < registry.listed().len() && registry.listed()[at].key@ == key@ ==> found is Ok
            && *found->Ok_0 == registry.listed()[at].entry,
        found is Ok ==> exists|i: int|
            0 <= i < registry.listed().len() && (#[trigger] registry.listed()[i]).key@ == key@
                && registry.listed()[i].entry == *found->Ok_0,
        0 <= at < registry.listed().len() && registry.listed()[at].entry.served_name@ == name@
            ==> serving is Some,
        serving is Some ==> exists|i: int|
            0 <= i < registry.listed().len() && (#[trigger] registry.listed()[i]).key@
                == serving->Some_0@ && registry.listed()[i].entry.served_name@ == name@,
{
    let list = registry.listed();
    lemma_place(list, key@);
    crate::laws::launching::lemma_place_serving(list, name@);
    let place = crate::models::place_of(list, key@) as int;
    if 0 <= at < list.len() && list[at].key@ == key@ {
        assert(place <= at);
        if place < at {
            assert(list[place].key@ != list[at].key@);
        }
    }
    if found is Ok {
        assert(list[place].key@ == key@);
    }
}

/// Law: a registry begins without models.
pub proof fn law_registries_begin_empty(registry: ModelRegistry)
    requires
        call_ensures(ModelRegistry::new, (), registry),
    ensures
        registry.listed().len() == 0,
        registry.wf(),
{
}

/// Law: every error says what it is about.
pub proof fn law_errors_say_what_failed(
    lock: LockError,
    store: StoreError,
    model: RegistryError,
    exec: ExecError,
    tree: WorktreeError,
    proxy: MiddlewareError,
    of_lock: String,
    of_store: String,
    of_model: String,
    of_exec: String,
    of_tree: String,
    of_proxy: String,
)
    requires
        call_ensures(LockError::message, (&lock,), of_lock),
        call_ensures(StoreError::message, (&store,), of_store),
        call_ensures(RegistryError::message, (&model,), of_model),
        call_ensures(ExecError::message, (&exec,), of_exec),
        call_ensures(WorktreeError::message, (&tree,), of_tree),
        call_ensures(MiddlewareError::message, (&proxy,), of_proxy),
    ensures
        lock matches LockError::AlreadyRunning { path } ==> of_lock@
            == "another supervisor instance holds the lock at "@ + path@,
        lock is Io ==> of_lock@ == "failed to acquire supervisor lock"@,
        store matches StoreError::Io { path, .. } ==> of_store@ == "io error at "@ + path@,
        store matches StoreError::Encode { path, .. } ==> of_store@ == "failed to encode record for "@
            + path@,
        store matches StoreError::Decode { path, .. } ==> of_store@ == "failed to decode record at "@
            + path@,
        model matches RegistryError::UnknownModel { key } ==> of_model@ == "unknown model key: "@
            + key@,
        exec matches ExecError::Spawn { bin, .. } ==> of_exec@ == "failed to spawn "@ + bin@,
        exec matches ExecError::EventsFile { path, .. } ==> of_exec@ == "failed to open events file "@
            + path@,
        exec is Wait ==> of_exec@ == "failed waiting for child process"@,
        exec matches ExecError::Internal { message } ==> of_exec@ == "executor internal failure: "@
            + message@,
        of_tree@ == tree.detail@,
        proxy matches MiddlewareError::Io { context, .. } ==> of_proxy@ == "中间件监听器启动失败: "@
            + context@,
        proxy matches MiddlewareError::InvalidUpstream(given) ==> of_proxy@ == "上游 base_url 无效: "@
            + given@,
{
}

/// Law: the program beside this one is run where it exists, and otherwise the one
/// that is found by name.
pub proof fn law_programs_are_found(dir: &str, beside: String, given: Option<String>, out: String)
    requires
        call_ensures(executor::sibling_bin, (dir,), beside),
        call_ensures(executor::default_codex_bin, (given,), out),
    ensures
        dir@.len() > 0 && dir@.last() != '/' ==> beside@ == dir@ + seq!['/'] + "rdos-cli"@,
        given matches Some(path) ==> out == path,
        given is None ==> out@ == "rdos-cli"@,
{
    reveal_strlit("rdos-cli");
}

} // verus!
