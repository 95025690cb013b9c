//! From a request to the process that carries it out.

use crate::executor;
use crate::executor::{ExecError, LaunchCommand, LaunchPlan};
use crate::paths::StoreError;
use crate::registry::{SessionTarget, TaskId, TaskState, WorktreePolicy};
use crate::service::preflight;
use crate::service::preflight::ProbeOutcome;
use crate::service::spawn;
use crate::service::spawn::{Checkout, Launched, Leased, Opening, Prepared, SpawnFailure, Spawned};
use crate::service::{RecordWrite, ServiceError, SpawnRequest, Supervisor};
use crate::clock::Timestamp;
use crate::session::{ApprovalPolicy, OwnershipError, SandboxMode, SessionId, SessionOwner};
use crate::text;
use crate::worktree::ReclaimMode;
use vstd::prelude::*;

verus! {

/// What a sandbox is called on the command line of the supervised tool.
pub open spec fn sandbox_word(mode: SandboxMode) -> Seq<char> {
    match mode {
        SandboxMode::ReadOnly => "read-only"@,
        SandboxMode::WorkspaceWrite => "workspace-write"@,
        SandboxMode::DangerFullAccess => "danger-full-access"@,
    }
}

/// Law: every sandbox has its own name on the command line.
pub proof fn law_sandboxes_have_names(mode: SandboxMode, other: SandboxMode, a: &str, b: &str)
    requires
        call_ensures(SandboxMode::cli_name, (mode,), a),
        call_ensures(SandboxMode::cli_name, (other,), b),
    ensures
        a@ == sandbox_word(mode),
        a@ == b@ ==> mode == other,
{
    reveal_strlit("read-only");
    reveal_strlit("workspace-write");
    reveal_strlit("danger-full-access");
    assert("read-only"@.len() == 9);
    assert("workspace-write"@.len() == 15);
    assert("danger-full-access"@.len() == 18);
}

/// Whether two arguments that stand behind each other are `flag` and `value`.
pub open spec fn hands_over(args: Seq<Seq<char>>, flag: Seq<char>, value: Seq<char>) -> bool {
    exists|i: int| 0 <= i < args.len() - 1 && #[trigger] args[i] == flag && args[i + 1] == value
}

/// Law: the arguments of a run begin with the mode, the repository check where it
/// is waived, the model and the sandbox, and they end with the prompt, behind a
/// mark that keeps it from being an option; a resumed conversation is named right
/// before it. Every overridden setting stands in between.
pub proof fn law_arguments_say_what_is_planned(plan: LaunchPlan, args: Vec<String>, at: int)
    requires
        call_ensures(LaunchPlan::to_args, (&plan,), args),
    ensures
        ({
            let given = text::texts(args@);
            let front = given.take(
                4 + (if plan.skip_git_repo_check {
                    1int
                } else {
                    0
                }) + (if plan.model is Some {
                    2int
                } else {
                    0
                }),
            );
            &&& given.len() >= 6
            &&& given[0] == "exec"@
            &&& given[1] == "--json"@
            &&& plan.skip_git_repo_check && plan.model is Some ==> front == seq![
                "exec"@,
                "--json"@,
                "--skip-git-repo-check"@,
                "-m"@,
                plan.model->Some_0@,
                "-s"@,
                sandbox_word(plan.sandbox),
            ]
            &&& !plan.skip_git_repo_check && plan.model is Some ==> front == seq![
                "exec"@,
                "--json"@,
                "-m"@,
                plan.model->Some_0@,
                "-s"@,
                sandbox_word(plan.sandbox),
            ]
            &&& plan.skip_git_repo_check && plan.model is None ==> front == seq![
                "exec"@,
                "--json"@,
                "--skip-git-repo-check"@,
                "-s"@,
                sandbox_word(plan.sandbox),
            ]
            &&& !plan.skip_git_repo_check && plan.model is None ==> front == seq![
                "exec"@,
                "--json"@,
                "-s"@,
                sandbox_word(plan.sandbox),
            ]
            &&& hands_over(given, "-s"@, sandbox_word(plan.sandbox))
            &&& plan.model is Some ==> hands_over(given, "-m"@, plan.model->Some_0@)
            &&& 0 <= at < plan.overrides@.len() ==> hands_over(
                given,
                "-c"@,
                plan.overrides@[at].0@ + "="@ + plan.overrides@[at].1@,
            )
            &&& given.last() == plan.prompt@
            &&& plan.resume is None ==> given[given.len() - 2] == "--"@
            &&& plan.resume matches Some(id) ==> given[given.len() - 2] == id@ && given[given.len()
                - 3] == "--"@ && given[given.len() - 4] == "resume"@
            &&& given.len() == front.len() + 2 * plan.overrides@.len() + (if plan.resume is Some {
                4int
            } else {
                2
            })
        }),
{
    let given = text::texts(args@);
    let head = plan.head_args();
    let middle = executor::override_args(plan.overrides@);
    lemma_override_count(plan.overrides@);
    assert(given =~= head + middle + plan.tail_args());
    let front = given.take(head.len() as int);
    assert(front =~= head);
    let place = head.len() - 2;
    assert(given[place] == "-s"@ && given[place + 1] == plan.sandbox.name());
    assert(plan.sandbox.name() == sandbox_word(plan.sandbox));
    if plan.model is Some {
        let place = head.len() - 4;
        assert(given[place] == "-m"@ && given[place + 1] == plan.model->Some_0@);
    }
    if 0 <= at < plan.overrides@.len() {
        spawn::lemma_override_is_an_argument(plan.overrides@, at);
        let place = head.len() + 2 * at;
        assert(given[place] == middle[2 * at]);
        assert(given[place + 1] == middle[2 * at + 1]);
    }
}

proof fn lemma_override_count(overrides: Seq<(String, String)>)
    ensures
        executor::override_args(overrides).len() == 2 * overrides.len(),
    decreases overrides.len(),
{
    if overrides.len() > 0 {
        lemma_override_count(overrides.drop_last());
    }
}

/// Law: what the operating system gets is what was planned: the program and the
/// home directory of the supervisor, the directory and the time limit of the plan,
/// and its arguments. Output and diagnostics are kept in two files.
pub proof fn law_launches_follow_the_plan(
    supervisor: Supervisor,
    task: TaskId,
    plan: LaunchPlan,
    events_path: &str,
    command: LaunchCommand,
    args: Vec<String>,
)
    requires
        call_ensures(Supervisor::launch_command, (&supervisor, task, &plan, events_path), command),
        call_ensures(LaunchPlan::to_args, (&plan,), args),
    ensures
        command.task == task,
        command.program == supervisor.program().codex_bin,
        command.codex_home == supervisor.program().codex_home,
        text::texts(command.args@) == text::texts(args@),
        command.cwd == plan.cwd,
        command.timeout == plan.timeout,
        command.stdout_path@ == events_path@,
{
}

/// Law: from a request to the process. A task that gets as far as a launch is
/// launched with the prompt, the sandbox and the time limit of its request, on
/// the model and the provider that its key leads to, in its checkout or, where it
/// works in place, in the directory that it was given.
pub proof fn law_requests_are_carried_out(
    opened: &mut Supervisor,
    saved: &mut Supervisor,
    ready: &mut Supervisor,
    launching: Supervisor,
    request: SpawnRequest,
    opening: Opening,
    leased: Leased,
    checkout: Checkout,
    prepared: Prepared,
    events_path: &str,
    command: LaunchCommand,
)
    requires
        call_ensures(
            Supervisor::spawn_task,
            (opened, request),
            Ok::<Opening, ServiceError>(opening),
        ),
        call_ensures(
            Supervisor::session_saved,
            (saved, opening, Ok::<(), StoreError>(())),
            Ok::<Leased, ServiceError>(leased),
        ),
        call_ensures(
            Supervisor::checkout_ready,
            (ready, leased, checkout),
            Ok::<Prepared, SpawnFailure>(prepared),
        ),
        call_ensures(
            Supervisor::launch_command,
            (&launching, prepared.task.id, &prepared.plan, events_path),
            command,
        ),
    ensures
        ({
            let args = text::texts(command.args@);
            let entry = old(opened).models().entry_of(request.model_key@);
            &&& entry is Some
            &&& hands_over(args, "-s"@, sandbox_word(request.sandbox))
            &&& hands_over(args, "-m"@, entry->Some_0.served_name@)
            &&& hands_over(
                args,
                "-c"@,
                "model_provider"@ + "="@ + ("\""@ + entry->Some_0.provider.id@ + "\""@),
            )
            &&& entry->Some_0.provider.base_url matches Some(url) ==> hands_over(
                args,
                "-c"@,
                ("model_providers."@ + entry->Some_0.provider.id@ + ".base_url"@) + "="@ + ("\""@
                    + url@ + "\""@),
            )
            &&& entry->Some_0.provider.wire_api matches Some(api) ==> hands_over(
                args,
                "-c"@,
                ("model_providers."@ + entry->Some_0.provider.id@ + ".wire_api"@) + "="@ + ("\""@
                    + api@ + "\""@),
            )
            &&& args[2] == "--skip-git-repo-check"@ <==> request.worktree
                == WorktreePolicy::InPlace
            &&& request.worktree == WorktreePolicy::InPlace ==> args.take(7) == seq![
                "exec"@,
                "--json"@,
                "--skip-git-repo-check"@,
                "-m"@,
                entry->Some_0.served_name@,
                "-s"@,
                sandbox_word(request.sandbox),
            ]
            &&& request.worktree == WorktreePolicy::Isolated ==> args.take(6) == seq![
                "exec"@,
                "--json"@,
                "-m"@,
                entry->Some_0.served_name@,
                "-s"@,
                sandbox_word(request.sandbox),
            ]
            &&& args.last() == request.prompt@
            &&& request.session is New ==> args[args.len() - 2] == "--"@
            &&& request.timeout_secs matches Some(secs) ==> command.timeout is Some
                && command.timeout->Some_0 == secs * 1000
            &&& request.timeout_secs is None ==> command.timeout is Some
                && command.timeout->Some_0 == 900_000
            &&& checkout is InPlace ==> command.cwd@ == request.cwd@
            &&& checkout matches Checkout::Allocated(handle) ==> command.cwd@ == handle.task_cwd@
            &&& checkout is InPlace || checkout is Allocated
            &&& request.session matches SessionTarget::Resume { session } ==> {
                let record = old(ready)@.sessions[session.bits];
                old(ready)@.sessions.contains_key(session.bits)
                    && record.rollout.conversation_id is Some ==> {
                    &&& args[args.len() - 2] == record.rollout.conversation_id->Some_0@
                    &&& args[args.len() - 3] == "--"@
                    &&& args[args.len() - 4] == "resume"@
                }
            }
            &&& command.program == launching.program().codex_bin
            &&& command.codex_home == launching.program().codex_home
        }),
{
    let plan = prepared.plan;
    let args = text::texts(command.args@);
    let entry = old(opened).models().entry_of(request.model_key@)->Some_0;
    let head = plan.head_args();
    let middle = executor::override_args(plan.overrides@);
    lemma_override_count(plan.overrides@);
    assert(args =~= head + middle + plan.tail_args());
    assert(plan.sandbox.name() == sandbox_word(request.sandbox));
    let place = head.len() - 2;
    assert(args[place] == "-s"@ && args[place + 1] == sandbox_word(request.sandbox));
    let place = head.len() - 4;
    assert(args[place] == "-m"@ && args[place + 1] == entry.served_name@);
    reveal_strlit("--skip-git-repo-check");
    reveal_strlit("-m");
    assert("-m"@.len() == 2);
    assert("--skip-git-repo-check"@.len() == 21);
    let wanted = spawn::provider_overrides(entry.provider);
    assert(spawn::override_texts(plan.overrides@) == wanted);
    assert(wanted.len() == plan.overrides@.len());
    assert forall|at: int| 0 <= at < wanted.len() implies hands_over(
        args,
        "-c"@,
        (#[trigger] wanted[at]).0 + "="@ + wanted[at].1,
    ) by {
        spawn::lemma_override_is_an_argument(plan.overrides@, at);
        assert(spawn::override_texts(plan.overrides@)[at] == wanted[at]);
        let place = head.len() + 2 * at;
        assert(args[place] == middle[2 * at]);
        assert(args[place + 1] == middle[2 * at + 1]);
    }
    assert(wanted[0] == ("model_provider"@, spawn::quoted(entry.provider.id@)));
    if entry.provider.base_url is Some {
        assert(wanted[1] == (
            "model_providers."@ + entry.provider.id@ + ".base_url"@,
            spawn::quoted(entry.provider.base_url->Some_0@),
        ));
    }
    if entry.provider.wire_api is Some {
        let last = wanted.len() - 1;
        assert(wanted[last] == (
            "model_providers."@ + entry.provider.id@ + ".wire_api"@,
            spawn::quoted(entry.provider.wire_api->Some_0@),
        ));
    }
    if request.worktree == WorktreePolicy::InPlace {
        assert(args.take(7) =~= head);
    } else {
        assert(args.take(6) =~= head);
    }
}

/// Law: what a request asks for is what is kept with its task, and what the task
/// is watched with. A task that began can be looked up, runs, and can be
/// interrupted.
pub proof fn law_requests_are_kept(
    opened: &mut Supervisor,
    saved: &mut Supervisor,
    ready: &mut Supervisor,
    launched_by: &mut Supervisor,
    kept: &mut Supervisor,
    request: SpawnRequest,
    opening: Opening,
    leased: Leased,
    checkout: Checkout,
    prepared: Prepared,
    pid: Option<u32>,
    launched: Launched,
    spawned: Spawned,
)
    requires
        call_ensures(
            Supervisor::spawn_task,
            (opened, request),
            Ok::<Opening, ServiceError>(opening),
        ),
        call_ensures(
            Supervisor::session_saved,
            (saved, opening, Ok::<(), StoreError>(())),
            Ok::<Leased, ServiceError>(leased),
        ),
        call_ensures(
            Supervisor::checkout_ready,
            (ready, leased, checkout),
            Ok::<Prepared, SpawnFailure>(prepared),
        ),
        call_ensures(
            Supervisor::launched,
            (launched_by, prepared, Ok::<Option<u32>, ExecError>(pid)),
            Ok::<Launched, SpawnFailure>(launched),
        ),
        call_ensures(
            Supervisor::task_saved,
            (kept, launched, Ok::<(), StoreError>(())),
            Ok::<Spawned, ServiceError>(spawned),
        ),
    ensures
        ({
            let id = opening.task.id;
            let task = final(kept)@.tasks[id.bits];
            &&& final(kept)@.tasks.contains_key(id.bits)
            &&& final(kept)@.running.contains(id.bits)
            &&& task.id == id
            &&& task.state == (TaskState::Running { pid })
            &&& task.spec.prompt@ == request.prompt@
            &&& task.spec.model_key@ == request.model_key@
            &&& task.spec.cwd@ == request.cwd@
            &&& task.spec.sandbox == request.sandbox
            &&& task.spec.approval == ApprovalPolicy::Never
            &&& task.spec.diff_first == request.diff_first
            &&& task.spec.worktree == request.worktree
            &&& task.spec.session == request.session
            &&& task.spec.breaker_threshold == request.breaker_threshold
            &&& task.spec.judge is Some <==> request.judge_command is Some
            &&& request.judge_command matches Some(command) ==> task.spec.judge->Some_0.command@
                == command@
            &&& request.timeout_secs matches Some(secs) ==> task.spec.timeout_secs == Some(secs)
            &&& request.timeout_secs is None ==> task.spec.timeout_secs == Some(900u64)
            &&& task.session_id == Some(opening.session.id)
            &&& task.retries == 0
            &&& task.usage is None
            &&& task.diff_stat is None
            &&& task.last_agent_message is None
            &&& checkout matches Checkout::Allocated(handle) ==> text::opt_text(task.worktree_path)
                == Some(handle.worktree_root@)
            &&& checkout is InPlace ==> task.worktree_path is None
            &&& text::opt_text(task.events_path) == Some(spawned.drive.events_path@)
            &&& spawned.drive.task_id == id
            &&& spawned.drive.session_id == opening.session.id
            &&& spawned.drive.plan == prepared.plan
            &&& spawned.drive.attempt == 0
            &&& checkout matches Checkout::Allocated(handle) ==> spawned.drive.checkout == Some(
                handle,
            )
            &&& checkout is InPlace ==> spawned.drive.checkout is None
            &&& request.breaker_threshold matches Some(threshold)
                ==> spawned.drive.breaker_threshold == threshold
            &&& request.breaker_threshold is None ==> spawned.drive.breaker_threshold == 5
            &&& spawned.reply.task_id@ == id@
            &&& spawned.reply.session_id@ == opening.session.id@
            &&& spawned.reply.worktree_branch is Some <==> request.worktree
                == WorktreePolicy::Isolated
            &&& spawned.reply.worktree_branch is Some ==> text::has_suffix(
                spawned.reply.worktree_branch->Some_0@,
                id@,
            )
            &&& launched.write matches RecordWrite::Task { record, .. } && record == task
        }),
        final(kept)@.sessions == old(kept)@.sessions,
        forall|other: u128|
            other != opening.task.id.bits ==> {
                &&& #[trigger] final(kept)@.tasks.contains_key(other)
                    == old(kept)@.tasks.contains_key(other)
                &&& old(kept)@.tasks.contains_key(other) ==> final(kept)@.tasks[other]
                    == old(kept)@.tasks[other]
            },
{
    if spawned.reply.worktree_branch is Some {
        let branch = spawned.reply.worktree_branch->Some_0@;
        let id = opening.task.id@;
        let front = "rdos/task/"@;
        assert(branch == front + id);
        assert(branch.subrange(branch.len() - id.len(), branch.len() as int) =~= id);
    }
}

/// Law: a task gets a session that it alone holds: a new one for its model, its
/// sandbox and its directory, or the one that it resumes, with nothing of it
/// changed but its holder. The record of the session is written first.
pub proof fn law_openings_hold_their_session(
    supervisor: &mut Supervisor,
    request: SpawnRequest,
    task: TaskId,
    fresh: SessionId,
    now: Timestamp,
    opening: Opening,
)
    requires
        call_ensures(
            Supervisor::open_task,
            (supervisor, request, task, fresh, now),
            Ok::<Opening, ServiceError>(opening),
        ),
    ensures
        opening.session.owner == (SessionOwner::Task { task }),
        opening.task.id == task,
        opening.task.state is Pending,
        opening.task.created_at == now,
        opening.write matches RecordWrite::Session { record, .. } && record == opening.session,
        old(supervisor).models().entry_of(request.model_key@) == Some(opening.entry),
        request.session is New ==> {
            &&& opening.session.id == fresh
            &&& opening.session.model.model@ == opening.entry.served_name@
            &&& opening.session.model.provider == opening.entry.provider
            &&& opening.session.sandbox == request.sandbox
            &&& opening.session.approval == ApprovalPolicy::Never
            &&& opening.session.cwd@ == request.cwd@
            &&& opening.session.rollout.conversation_id is None
            &&& final(supervisor)@ == old(supervisor)@
        },
        request.session matches SessionTarget::Resume { session } ==> {
            let before = old(supervisor)@.sessions[session.bits];
            let after = final(supervisor)@.sessions[session.bits];
            &&& old(supervisor)@.sessions.contains_key(session.bits)
            &&& before.rollout.conversation_id is Some
            &&& before.owner is Free || before.owner == (SessionOwner::Task { task })
            &&& opening.session == after
            &&& after.id == before.id
            &&& after.rollout == before.rollout
            &&& after.model == before.model
            &&& after.sandbox == before.sandbox
            &&& after.cwd == before.cwd
            &&& after.created_at == before.created_at
            &&& final(supervisor)@.tasks == old(supervisor)@.tasks
            &&& final(supervisor)@.running == old(supervisor)@.running
        },
{
}

/// Law: a request is refused exactly where its model is unknown, its session does
/// not exist, has no conversation, or is held by another task; and a refused
/// request changes nothing.
pub proof fn law_openings_are_refused_for_a_reason(
    supervisor: &mut Supervisor,
    request: SpawnRequest,
    task: TaskId,
    fresh: SessionId,
    now: Timestamp,
    out: Result<Opening, ServiceError>,
)
    requires
        call_ensures(Supervisor::open_task, (supervisor, request, task, fresh, now), out),
    ensures
        out is Err ==> final(supervisor)@ == old(supervisor)@,
        old(supervisor).models().entry_of(request.model_key@) is None ==> out is Err
            && out->Err_0 is Registry,
        ({
            let known = old(supervisor).models().entry_of(request.model_key@) is Some;
            &&& known && request.session is New ==> out is Ok
            &&& known ==> (request.session matches SessionTarget::Resume { session } ==> {
                let there = old(supervisor)@.sessions.contains_key(session.bits);
                let record = old(supervisor)@.sessions[session.bits];
                &&& !there ==> out is Err && out->Err_0 is SessionNotFound
                &&& there && record.rollout.conversation_id is None ==> out is Err && out->Err_0
                    is SessionNotResumable
                &&& there && record.rollout.conversation_id is Some && record.owner is Free
                    ==> out is Ok
                &&& there && record.rollout.conversation_id is Some && record.owner
                    == (SessionOwner::Task { task }) ==> out is Ok
                &&& there && record.rollout.conversation_id is Some && (record.owner
                    matches SessionOwner::Task { task: holder } && holder != task) ==> out
                    == Err::<Opening, ServiceError>(
                    ServiceError::Ownership(
                        OwnershipError::Held {
                            session: record.id,
                            holder: record.owner->task,
                            requester: task,
                        },
                    ),
                )
            })
        }),
{
}

/// Law: a task begins only on a model that answers its probe with success, where
/// it has one; otherwise nothing is claimed, made or changed, and the answer is
/// what the probe came to.
pub proof fn law_probes_come_first(
    supervisor: &mut Supervisor,
    request: SpawnRequest,
    probe: Option<ProbeOutcome>,
    out: Result<Opening, ServiceError>,
    verdict: Result<(), ServiceError>,
    key: &str,
    url: &str,
)
    requires
        call_ensures(Supervisor::spawn_probed, (supervisor, request, probe), out),
        old(supervisor).models().entry_of(request.model_key@) is Some,
        old(supervisor).models().entry_of(request.model_key@)->Some_0.endpoint_probe is Some,
        probe is Some ==> call_ensures(preflight::preflight, (key, url, probe->Some_0), verdict),
    ensures
        out is Ok ==> probe is Some && probe->Some_0 is Answered && probe->Some_0->success,
        probe is None ==> out is Err,
        probe is Some && !(probe->Some_0 is Answered && probe->Some_0->success) ==> verdict is Err
            && out is Err && final(supervisor)@ == old(supervisor)@,
        out is Err && out->Err_0 is Preflight ==> out->Err_0->model_key@ == request.model_key@
            && out->Err_0->url@ == old(supervisor).models().entry_of(
            request.model_key@,
        )->Some_0.endpoint_probe->Some_0@,
        probe is None ==> final(supervisor)@ == old(supervisor)@,
{
    if !spawn::is_barred(
        old(supervisor).models().entry_of(request.model_key@)->Some_0,
        probe,
    ) && out is Err {
        let error = out->Err_0;
        let task = choose|task: TaskId| #[trigger]
            old(supervisor)@.refuses(request.session, task) == Some(error);
        assert(!(error is Preflight));
    }
}

/// Law: a request that nothing stands against is opened. A known model and a new
/// session are enough, and so is a known model with a free session that has a
/// conversation; a model without an address to probe is not probed, and a passed
/// probe stands against nothing. What does stand against a request is told.
pub proof fn law_requests_are_opened_where_nothing_stands_against_them(
    plain: &mut Supervisor,
    probed: &mut Supervisor,
    request: SpawnRequest,
    probe: Option<ProbeOutcome>,
    one: Result<Opening, ServiceError>,
    two: Result<Opening, ServiceError>,
)
    requires
        call_ensures(Supervisor::spawn_task, (plain, request), one),
        call_ensures(Supervisor::spawn_probed, (probed, request, probe), two),
    ensures
        ({
            let entry = old(plain).models().entry_of(request.model_key@);
            &&& entry is None ==> one is Err && one->Err_0 is Registry
            &&& entry is Some && request.session is New ==> one is Ok
            &&& entry is Some ==> (request.session matches SessionTarget::Resume { session } ==> {
                let there = old(plain)@.sessions.contains_key(session.bits);
                let record = old(plain)@.sessions[session.bits];
                &&& !there ==> one is Err && one->Err_0 is SessionNotFound
                &&& there && record.rollout.conversation_id is None ==> one is Err && one->Err_0
                    is SessionNotResumable
                &&& there && record.rollout.conversation_id is Some && record.owner is Free
                    ==> one is Ok
                &&& there && record.rollout.conversation_id is Some && record.owner is Task ==> {
                    ||| one is Err && one->Err_0 is Ownership && one->Err_0->Ownership_0 is Held
                    ||| one is Ok && one->Ok_0.task.id == record.owner->task
                }
            })
            &&& one is Err ==> final(plain)@ == old(plain)@
        }),
        ({
            let entry = old(probed).models().entry_of(request.model_key@);
            let passed = probe is Some && probe->Some_0 is Answered && probe->Some_0->success;
            let free = entry is Some && (entry->Some_0.endpoint_probe is None || passed);
            &&& entry is None ==> two is Err && two->Err_0 is Registry
            &&& free && request.session is New ==> two is Ok
            &&& free ==> (request.session matches SessionTarget::Resume { session } ==> {
                let there = old(probed)@.sessions.contains_key(session.bits);
                let record = old(probed)@.sessions[session.bits];
                &&& !there ==> two is Err && two->Err_0 is SessionNotFound
                &&& there && record.rollout.conversation_id is None ==> two is Err && two->Err_0
                    is SessionNotResumable
                &&& there && record.rollout.conversation_id is Some && record.owner is Free
                    ==> two is Ok
            })
            &&& two is Err ==> final(probed)@ == old(probed)@
            &&& two is Ok ==> free && two->Ok_0.entry == entry->Some_0 && two->Ok_0.request
                == request && two->Ok_0.session.owner == (SessionOwner::Task {
                task: two->Ok_0.task.id,
            })
        }),
        one is Ok ==> {
            &&& one->Ok_0.request == request
            &&& old(plain).models().entry_of(request.model_key@) == Some(one->Ok_0.entry)
            &&& one->Ok_0.session.owner == (SessionOwner::Task { task: one->Ok_0.task.id })
            &&& one->Ok_0.task.state is Pending
            &&& request.session matches SessionTarget::Resume { session } ==> one->Ok_0.session
                == final(plain)@.sessions[session.bits]
            &&& request.session is New ==> {
                &&& one->Ok_0.session.model.model@ == one->Ok_0.entry.served_name@
                &&& one->Ok_0.session.model.provider == one->Ok_0.entry.provider
                &&& one->Ok_0.session.sandbox == request.sandbox
                &&& one->Ok_0.session.cwd@ == request.cwd@
                &&& one->Ok_0.session.rollout.conversation_id is None
            }
        },
{
    if old(plain).models().entry_of(request.model_key@) is Some && one is Err {
        let error = one->Err_0;
        let task = choose|task: TaskId| #[trigger]
            old(plain)@.refuses(request.session, task) == Some(error);
        assert(old(plain)@.refuses(request.session, task) == Some(error));
    }
    let entry = old(probed).models().entry_of(request.model_key@);
    if entry is Some && !spawn::is_barred(entry->Some_0, probe) && two is Err {
        let error = two->Err_0;
        let task = choose|task: TaskId| #[trigger]
            old(probed)@.refuses(request.session, task) == Some(error);
        assert(old(probed)@.refuses(request.session, task) == Some(error));
    }
}

/// Law: a task whose checkout was made, or that needs none, is ready; one that was
/// launched while it waited runs; and one whose record was written counts. Until
/// then nothing on the board is changed for it.
pub proof fn law_beginnings_succeed(
    ready: &mut Supervisor,
    launching: &mut Supervisor,
    kept: &mut Supervisor,
    leased: Leased,
    checkout: Checkout,
    prepared: Prepared,
    pid: Option<u32>,
    launched: Launched,
    a: Result<Prepared, SpawnFailure>,
    b: Result<Launched, SpawnFailure>,
    c: Result<Spawned, ServiceError>,
)
    requires
        call_ensures(Supervisor::checkout_ready, (ready, leased, checkout), a),
        call_ensures(
            Supervisor::launched,
            (launching, prepared, Ok::<Option<u32>, ExecError>(pid)),
            b,
        ),
        call_ensures(
            Supervisor::task_saved,
            (kept, launched, Ok::<(), StoreError>(())),
            c,
        ),
    ensures
        a is Ok <==> checkout is InPlace || checkout is Allocated,
        a is Ok ==> final(ready)@ == old(ready)@,
        a is Ok ==> a->Ok_0.task.id == leased.task.id && a->Ok_0.task.spec == leased.task.spec
            && a->Ok_0.task.state == leased.task.state && a->Ok_0.session_id == leased.session_id,
        b is Ok <==> prepared.task.state is Pending || prepared.task.state is Running,
        final(launching)@ == old(launching)@,
        b is Ok ==> b->Ok_0.task.state == (TaskState::Running { pid }) && b->Ok_0.plan
            == prepared.plan && b->Ok_0.task.id == prepared.task.id && b->Ok_0.task.spec
            == prepared.task.spec && b->Ok_0.checkout == prepared.checkout && b->Ok_0.session_id
            == prepared.session_id,
        b is Err ==> b->Err_0.error is Transition && b->Err_0.write is None,
        c is Ok,
        final(kept)@.tasks.contains_key(launched.task.id.bits),
        final(kept)@.tasks[launched.task.id.bits] == launched.task,
        final(kept)@.running.contains(launched.task.id.bits),
{
}

/// Law: a probe is passed by an answer with success and by nothing else, and one
/// that was not passed is reported for the model and the address that were
/// probed.
pub proof fn law_probes_are_passed_by_success(
    key: &str,
    url: &str,
    outcome: ProbeOutcome,
    out: Result<(), ServiceError>,
)
    requires
        call_ensures(preflight::preflight, (key, url, outcome), out),
    ensures
        out is Ok <==> outcome is Answered && outcome->success,
        outcome is NoClient ==> out is Err && out->Err_0 is Internal && text::has_suffix(
            out->Err_0->message@,
            outcome->NoClient_error@,
        ),
        out is Err && !(outcome is NoClient) ==> out->Err_0 is Preflight && out->Err_0->model_key@
            == key@ && out->Err_0->url@ == url@,
        outcome is Answered && !outcome->success ==> text::occurs_in(
            out->Err_0->verdict@,
            outcome->status@,
        ),
        outcome is Failed ==> ({
            let lower = text::lowercase_of(
                outcome->Failed_error@ + " / "@ + outcome->source@,
            );
            let verdict = out->Err_0->verdict@;
            &&& text::occurs_in(lower, "refused"@) ==> verdict
                == "端口拒连——机器在但服务未起（deepseek 走代理时先跑 scripts/dspark_proxy.py）"@
            &&& !text::occurs_in(lower, "refused"@) && (outcome->timed_out || text::occurs_in(
                lower,
                "timed out"@,
            )) ==> verdict
                == "无响应（超时）——机器疑似关机或网络不可达；请人工分诊（ping 裸 IP 区分关机/停服）"@
            &&& !text::occurs_in(lower, "refused"@) && !outcome->timed_out && !text::occurs_in(
                lower,
                "timed out"@,
            ) ==> text::has_suffix(verdict, outcome->Failed_error@) && text::has_prefix(
                verdict,
                "连接失败："@,
            )
        }),
{
    if outcome is NoClient {
        let whole = out->Err_0->message@;
        let why = outcome->NoClient_error@;
        assert(whole.subrange(whole.len() - why.len(), whole.len() as int) =~= why);
    }
    if outcome is Answered && !outcome->success {
        let whole = out->Err_0->verdict@;
        let front = "服务异常响应 HTTP "@;
        let status = outcome->status@;
        assert(whole.subrange(front.len() as int, (front.len() + status.len()) as int) =~= status);
        assert(text::stands_at(whole, status, front.len() as int));
    }
    if outcome is Failed {
        let whole = out->Err_0->verdict@;
        let why = outcome->Failed_error@;
        let front = "连接失败："@;
        if whole == front + why {
            assert(whole.subrange(whole.len() - why.len(), whole.len() as int) =~= why);
            assert(whole.subrange(0, front.len() as int) =~= front);
        }
    }
}

/// Law: a model is probed where its entry says so, and nowhere else.
pub proof fn law_models_are_probed_where_they_say(
    supervisor: Supervisor,
    key: &str,
    out: Result<Option<String>, ServiceError>,
)
    requires
        call_ensures(Supervisor::probe_target, (&supervisor, key), out),
    ensures
        out is Ok <==> supervisor.models().entry_of(key@) is Some,
        out is Ok ==> out->Ok_0 == supervisor.models().entry_of(key@)->Some_0.endpoint_probe,
        out is Err ==> out->Err_0 is Registry,
{
}

/// Law: a checkout is made for a task exactly where it asked for isolation.
pub proof fn law_isolated_tasks_get_a_checkout(leased: Leased, yes: bool)
    requires
        call_ensures(spawn::wants_checkout, (&leased,), yes),
    ensures
        leased.request.worktree is Isolated ==> yes,
        leased.request.worktree is InPlace ==> !yes,
{
}

/// Law: a task whose checkout or launch failed frees the session that it held and
/// writes that down; what was made for it goes, with its branch; no task is
/// added, and nobody else's session is touched.
pub proof fn law_failed_beginnings_leave_nothing(
    supervisor: &mut Supervisor,
    leased: Leased,
    checkout: Checkout,
    failure: SpawnFailure,
    other: u128,
)
    requires
        call_ensures(
            Supervisor::checkout_ready,
            (supervisor, leased, checkout),
            Err::<Prepared, SpawnFailure>(failure),
        ),
        old(supervisor)@.sessions.contains_key(leased.session_id.bits),
        old(supervisor)@.sessions[leased.session_id.bits].owner == (SessionOwner::Task {
            task: leased.task.id,
        }),
    ensures
        checkout is Failed || checkout is Panicked,
        checkout matches Checkout::Failed(error) ==> failure.error == ServiceError::Worktree(error),
        checkout matches Checkout::Panicked { error } ==> failure.error is Internal
            && text::has_suffix(failure.error->message@, error@),
        failure.discard is None,
        failure.reclaim == ReclaimMode::DeleteBranch,
        ({
            let before = old(supervisor)@.sessions[leased.session_id.bits];
            let after = final(supervisor)@.sessions[leased.session_id.bits];
            &&& after.owner is Free
            &&& after.rollout == before.rollout
            &&& after.model == before.model
            &&& after.cwd == before.cwd
            &&& failure.write is Some
            &&& failure.write->Some_0 matches RecordWrite::Session { record, .. } && record == after
        }),
        final(supervisor)@.tasks == old(supervisor)@.tasks,
        final(supervisor)@.running == old(supervisor)@.running,
        other != leased.session_id.bits && old(supervisor)@.sessions.contains_key(other) ==> final(
            supervisor)@.sessions[other] == old(supervisor)@.sessions[other],
{
    if checkout is Panicked {
        let whole = failure.error->message@;
        let why = checkout->error@;
        assert(whole.subrange(whole.len() - why.len(), whole.len() as int) =~= why);
    }
}

/// Law: the same of a launch that failed, and its checkout goes too.
pub proof fn law_failed_launches_leave_nothing(
    supervisor: &mut Supervisor,
    prepared: Prepared,
    error: ExecError,
    out: Result<Launched, SpawnFailure>,
    other: u128,
)
    requires
        call_ensures(
            Supervisor::launched,
            (supervisor, prepared, Err::<Option<u32>, ExecError>(error)),
            out,
        ),
        old(supervisor)@.sessions.contains_key(prepared.session_id.bits),
        old(supervisor)@.sessions[prepared.session_id.bits].owner == (SessionOwner::Task {
            task: prepared.task.id,
        }),
    ensures
        out is Err,
        out->Err_0.error == ServiceError::Exec(error),
        out->Err_0.discard == prepared.checkout,
        out->Err_0.reclaim == ReclaimMode::DeleteBranch,
        ({
            let before = old(supervisor)@.sessions[prepared.session_id.bits];
            let after = final(supervisor)@.sessions[prepared.session_id.bits];
            &&& after.owner is Free
            &&& after.rollout == before.rollout
            &&& after.model == before.model
            &&& out->Err_0.write is Some
            &&& out->Err_0.write->Some_0 matches RecordWrite::Session { record, .. } && record
                == after
        }),
        final(supervisor)@.tasks == old(supervisor)@.tasks,
        final(supervisor)@.running == old(supervisor)@.running,
        other != prepared.session_id.bits && old(supervisor)@.sessions.contains_key(other) ==> final(
            supervisor)@.sessions[other] == old(supervisor)@.sessions[other],
{
}

/// Law: a session exists once its record was written, and a record that could not
/// be written is the end of the request.
pub proof fn law_sessions_exist_once_written(
    supervisor: &mut Supervisor,
    opening: Opening,
    saved: Result<(), StoreError>,
    out: Result<Leased, ServiceError>,
)
    requires
        call_ensures(Supervisor::session_saved, (supervisor, opening, saved), out),
    ensures
        saved matches Err(error) ==> out == Err::<Leased, ServiceError>(ServiceError::Store(error))
            && final(supervisor)@ == old(supervisor)@,
        saved is Ok ==> out is Ok,
        saved is Ok && opening.request.session is New ==> final(supervisor)@.sessions.contains_key(
            opening.session.id.bits,
        ) && final(supervisor)@.sessions[opening.session.id.bits] == opening.session,
        saved is Ok && opening.request.session is Resume ==> final(supervisor)@ == old(
            supervisor)@,
        saved is Ok ==> {
            &&& out->Ok_0.session_id == opening.session.id
            &&& out->Ok_0.task.session_id == Some(opening.session.id)
            &&& out->Ok_0.task.id == opening.task.id
            &&& out->Ok_0.task.spec == opening.task.spec
            &&& out->Ok_0.request == opening.request
            &&& out->Ok_0.entry == opening.entry
        },
        final(supervisor)@.tasks == old(supervisor)@.tasks,
        final(supervisor)@.running == old(supervisor)@.running,
{
}

/// Law: a task counts once its record was written, and not before.
pub proof fn law_tasks_count_once_written(
    supervisor: &mut Supervisor,
    launched: Launched,
    error: StoreError,
    out: Result<Spawned, ServiceError>,
)
    requires
        call_ensures(
            Supervisor::task_saved,
            (supervisor, launched, Err::<(), StoreError>(error)),
            out,
        ),
    ensures
        out == Err::<Spawned, ServiceError>(ServiceError::Store(error)),
        final(supervisor)@ == old(supervisor)@,
{
}

/// Law: a reply works in place, in the directory and with the sandbox of its
/// session, and resumes that session; it runs on the model of the session unless
/// another is named, and what it is judged by and how long it may take are its
/// own. It is refused where there is no such session or no such model.
pub proof fn law_replies_go_on_where_the_session_was(
    supervisor: Supervisor,
    session_id: SessionId,
    prompt: String,
    model_key: Option<String>,
    judge_command: Option<String>,
    timeout_secs: Option<u64>,
    out: Result<SpawnRequest, ServiceError>,
)
    requires
        call_ensures(
            Supervisor::reply,
            (&supervisor, session_id, prompt, model_key, judge_command, timeout_secs),
            out,
        ),
    ensures
        !supervisor@.sessions.contains_key(session_id.bits) ==> out == Err::<
            SpawnRequest,
            ServiceError,
        >(ServiceError::SessionNotFound { session: session_id }),
        supervisor@.sessions.contains_key(session_id.bits) && model_key is Some ==> out is Ok,
        supervisor@.sessions.contains_key(session_id.bits) && out is Err ==> out->Err_0
            is SessionNotResumable,
        out matches Ok(request) ==> {
            let session = supervisor@.sessions[session_id.bits];
            &&& request.prompt@ == prompt@
            &&& request.cwd@ == session.cwd@
            &&& request.sandbox == session.sandbox
            &&& request.worktree is InPlace
            &&& request.session is Resume
            &&& request.session->session == session_id
            &&& request.judge_command == judge_command
            &&& request.timeout_secs == timeout_secs
            &&& request.diff_first
            &&& request.breaker_threshold is None
            &&& model_key matches Some(key) ==> request.model_key@ == key@
            &&& model_key is None ==> exists|i: int|
                0 <= i < supervisor.models().listed().len() && (
                #[trigger] supervisor.models().listed()[i]).key@ == request.model_key@
                    && supervisor.models().listed()[i].entry.served_name@ == session.model.model@
        },
        model_key is None && supervisor@.sessions.contains_key(session_id.bits) && out is Err
            ==> forall|i: int|
            0 <= i < supervisor.models().listed().len() ==> (
            #[trigger] supervisor.models().listed()[i]).entry.served_name@
                != supervisor@.sessions[session_id.bits].model.model@,
{
    if supervisor@.sessions.contains_key(session_id.bits) {
        lemma_place_serving(
            supervisor.models().listed(),
            supervisor@.sessions[session_id.bits].model.model@,
        );
    }
}

pub proof fn lemma_place_serving(list: Seq<crate::models::Listing>, name: Seq<char>)
    ensures
        crate::models::place_serving(list, name) <= list.len(),
        crate::models::place_serving(list, name) < list.len() ==> list[crate::models::place_serving(
            list,
            name,
        ) as int].entry.served_name@ == name,
        forall|i: int|
            0 <= i < crate::models::place_serving(list, name) ==> (
            #[trigger] list[i]).entry.served_name@ != name,
    decreases list.len(),
{
    if list.len() > 0 && list.first().entry.served_name@ != name {
        lemma_place_serving(list.drop_first(), name);
        assert forall|i: int| 0 <= i < crate::models::place_serving(list, name) implies (
        #[trigger] list[i]).entry.served_name@ != name by {
            if i > 0 {
                assert(list.drop_first()[i - 1] == list[i]);
            }
        }
    }
}

} // verus!
