use codex_supervisor::acceptance::{JudgeRun, StreamWatch};
use codex_supervisor::events::{CommandExecutionStatus, ThreadEvent, ThreadItemDetails, Usage};
use codex_supervisor::executor::{
    exit_of, fold_event, ExecError, ExecutorEvent, LaunchPlan, StreamSummary, TaskExit,
};
use codex_supervisor::models::{InjectParams, ModelEntry, ModelRegistry, ProviderRef, RegistryError};
use codex_supervisor::paths::{
    is_record_file, LoadReport, LockAttempt, LockStep, SkippedFile, StoreError, SupervisorHome,
    SupervisorLock,
};
use codex_supervisor::registry::{
    JudgeOutcome, SessionTarget, TaskId, TaskRecord, TaskSpec, TaskState, WorktreePolicy,
};
use codex_supervisor::service::driver::{
    preserving_commit, settle_judged, AttemptEnd, Closing, Drive, NextStep, RelaunchStep,
};
use codex_supervisor::service::preflight::{preflight, verdict_on_probe, ProbeOutcome};
use codex_supervisor::service::recovery::{layout_failed, Started};
use codex_supervisor::service::spawn::{wants_checkout, Checkout, Prepared, Spawned};
use codex_supervisor::service::status::{tail_failed, view_of};
use codex_supervisor::service::{
    truncate_chars, RecordWrite, ServiceError, SpawnRequest, Supervisor, SupervisorConfig,
};
use codex_supervisor::session::{
    ApprovalPolicy, ModelAffinity, OwnershipError, SandboxMode, SessionId, SessionOwner,
    SessionRecord,
};
use codex_supervisor::worktree::{
    branch_name, checkout_dir, commit_message, ReclaimMode, WorktreeError, WorktreeHandle,
};

const HOME: &str = "/home/me/.rdos";

fn lock() -> SupervisorLock {
    let home = SupervisorHome::new(HOME.to_string());
    match home.acquire_singleton_lock(0, LockAttempt::Acquired) {
        LockStep::Held(lock) => lock,
        _ => panic!("the lock is free"),
    }
}

fn registry() -> ModelRegistry {
    let mut registry = ModelRegistry::new();
    registry.insert(
        "fake".to_string(),
        ModelEntry {
            served_name: "fake-model".to_string(),
            provider: ProviderRef {
                id: "rdos-test".to_string(),
                base_url: None,
                wire_api: None,
            },
            endpoint_probe: None,
            inject: None,
        },
    );
    registry.insert(
        "probed".to_string(),
        ModelEntry {
            served_name: "probed-model".to_string(),
            provider: ProviderRef {
                id: "rdos-vllm".to_string(),
                base_url: Some("http://h/v1".to_string()),
                wire_api: Some("responses".to_string()),
            },
            endpoint_probe: Some("http://h/v1/models".to_string()),
            inject: Some(InjectParams { temperature: None }),
        },
    );
    registry
}

fn empty<T>() -> Result<LoadReport<T>, StoreError> {
    loaded(Vec::new())
}

fn loaded<T>(records: Vec<T>) -> Result<LoadReport<T>, StoreError> {
    Ok(LoadReport {
        records,
        skipped: Vec::new(),
    })
}

fn config() -> SupervisorConfig {
    SupervisorConfig {
        codex_home: HOME.to_string(),
        codex_bin: "/nonexistent".to_string(),
    }
}

fn start_supervisor() -> Supervisor {
    match Supervisor::start(config(), lock(), Ok(registry()), empty(), empty()) {
        Ok(started) => started.supervisor,
        Err(error) => panic!("start supervisor: {}", error.message()),
    }
}

fn spawn_request(prompt: &str) -> SpawnRequest {
    SpawnRequest {
        prompt: prompt.to_string(),
        model_key: "fake".to_string(),
        cwd: "/repo".to_string(),
        sandbox: SandboxMode::WorkspaceWrite,
        judge_command: None,
        timeout_secs: Some(30),
        worktree: WorktreePolicy::Isolated,
        session: SessionTarget::New,
        diff_first: true,
        breaker_threshold: None,
    }
}

fn handle(task: TaskId) -> WorktreeHandle {
    let home = SupervisorHome::new(HOME.to_string());
    let root = checkout_dir(&home, task);
    WorktreeHandle {
        repo_root: "/repo".to_string(),
        worktree_root: root.clone(),
        task_cwd: format!("{root}/sub"),
        branch: branch_name(task),
        base_commit: "c0ffee".to_string(),
    }
}

fn prepare(supervisor: &mut Supervisor, request: SpawnRequest) -> Prepared {
    let isolated = request.worktree == WorktreePolicy::Isolated;
    let opening = supervisor.spawn_task(request).expect("open");
    let task = opening.task.id;
    let leased = supervisor.session_saved(opening, Ok(())).expect("lease");
    let checkout = if isolated {
        Checkout::Allocated(handle(task))
    } else {
        Checkout::InPlace
    };
    match supervisor.checkout_ready(leased, checkout) {
        Ok(prepared) => prepared,
        Err(failure) => panic!("{}", failure.error.message()),
    }
}

fn spawn(supervisor: &mut Supervisor, request: SpawnRequest) -> Spawned {
    let prepared = prepare(supervisor, request);
    let launched = match supervisor.launched(prepared, Ok(Some(77))) {
        Ok(launched) => launched,
        Err(failure) => panic!("{}", failure.error.message()),
    };
    supervisor.task_saved(launched, Ok(())).expect("spawn")
}

fn thread_started(id: &str) -> ThreadEvent {
    ThreadEvent::ThreadStarted {
        thread_id: id.to_string(),
    }
}

fn run(
    supervisor: &mut Supervisor,
    drive: &Drive,
    watch: &mut StreamWatch,
    events: Vec<ThreadEvent>,
) -> StreamSummary {
    let mut summary = StreamSummary::new();
    for event in events {
        fold_event(&mut summary, &event);
        let step = supervisor.observe(drive, watch, &ExecutorEvent::Parsed(event));
        assert!(!step.kill);
    }
    summary
}

fn state_of(supervisor: &Supervisor, task: TaskId) -> String {
    let views = supervisor.status(Some(task)).expect("status");
    views[0].state.clone()
}

fn written_session(write: Option<RecordWrite>) -> SessionRecord {
    match write {
        Some(RecordWrite::Session { path, record }) => {
            assert_eq!(
                path,
                format!("{HOME}/supervisor/sessions/{}.json", record.id.to_string())
            );
            record
        }
        _ => panic!("a session should have been written"),
    }
}

fn written_task(write: Option<RecordWrite>) -> TaskRecord {
    match write {
        Some(RecordWrite::Task { path, record }) => {
            assert_eq!(
                path,
                format!("{HOME}/supervisor/tasks/{}.json", record.id.to_string())
            );
            record
        }
        _ => panic!("a task should have been written"),
    }
}

fn happy_events() -> Vec<ThreadEvent> {
    vec![
        thread_started("t-e2e"),
        ThreadEvent::ItemCompleted {
            item: ThreadItemDetails::AgentMessage {
                text: "done".to_string(),
            },
        },
        ThreadEvent::TurnCompleted {
            usage: Usage {
                input_tokens: 3,
                cached_input_tokens: 0,
                output_tokens: 7,
                reasoning_output_tokens: 0,
            },
        },
    ]
}

fn run_to_judge(supervisor: &mut Supervisor, spawned: Spawned, verdict: JudgeRun) -> Closing {
    let mut watch = StreamWatch::new(spawned.drive.breaker_threshold);
    let summary = run(supervisor, &spawned.drive, &mut watch, happy_events());
    let exit = exit_of(Some(0), false, false, summary);
    let next = supervisor.attempt_ended(spawned.drive, AttemptEnd::Exited(exit), &watch);
    let NextStep::Judge(judging) = next else {
        panic!("the judge decides");
    };
    assert!(judging.script.starts_with("set -o pipefail; "));
    assert!(judging.cwd.ends_with("/sub"), "{}", judging.cwd);
    let settlement = settle_judged(judging, verdict);
    let message = preserving_commit(&settlement).expect("kept for review");
    assert_eq!(message, commit_message(settlement.task_id));
    supervisor.finalize(settlement, Some(" a.rs | 2 +-".to_string()))
}

#[test]
fn spawn_completes_judge_passes_and_cleans_up() {
    let mut supervisor = start_supervisor();
    let mut req = spawn_request("修 bug");
    req.judge_command = Some("true".to_string());
    let spawned = spawn(&mut supervisor, req);
    let task = spawned.drive.task_id;
    assert_eq!(spawned.reply.task_id, task.to_string());
    assert_eq!(state_of(&supervisor, task), "running (pid Some(77))");

    let branch = spawned.reply.worktree_branch.clone().expect("branch");
    let closing = run_to_judge(&mut supervisor, spawned, JudgeRun::Exited { code: Some(0) });
    let view = &supervisor.status(Some(task)).expect("status")[0];
    assert_eq!(view.state, "completed · judge passed");
    assert_eq!(view.output_tokens, Some(7));
    assert_eq!(view.last_agent_message.as_deref(), Some("done"));
    assert_eq!(view.worktree_branch.as_ref(), Some(&branch));
    assert_eq!(view.diff_stat.as_deref(), Some(" a.rs | 2 +-"));

    let session = written_session(closing.session);
    assert_eq!(session.rollout.conversation_id.as_deref(), Some("t-e2e"));
    assert_eq!(session.owner, SessionOwner::Free);
    assert_eq!(closing.reclaim, ReclaimMode::KeepBranch);
    assert_eq!(closing.checkout.expect("checkout").branch, branch);

    let mut req2 = spawn_request("再修");
    req2.judge_command = Some("false".to_string());
    let spawned2 = spawn(&mut supervisor, req2);
    let task2 = spawned2.drive.task_id;
    run_to_judge(&mut supervisor, spawned2, JudgeRun::Exited { code: Some(1) });
    let state = state_of(&supervisor, task2);
    assert!(state.contains("judge FAILED"), "got: {state}");
    assert_eq!(state, "completed · judge FAILED (exit 1)");
}

#[test]
fn interrupt_kills_and_discards_branch() {
    let mut supervisor = start_supervisor();
    let spawned = spawn(&mut supervisor, spawn_request("长任务"));
    let task = spawned.drive.task_id;
    let mut watch = StreamWatch::new(spawned.drive.breaker_threshold);
    let summary = run(
        &mut supervisor,
        &spawned.drive,
        &mut watch,
        vec![thread_started("t-int")],
    );

    assert!(state_of(&supervisor, task).starts_with("running"));
    supervisor.interrupt(task).expect("interrupt");
    assert!(matches!(
        supervisor.interrupt(task),
        Err(ServiceError::TaskNotRunning { .. })
    ));
    let exit = exit_of(None, true, false, summary);
    let next = supervisor.attempt_ended(spawned.drive, AttemptEnd::Exited(exit), &watch);
    let NextStep::Settle(settlement) = next else {
        panic!("an interrupted task is settled");
    };
    assert_eq!(preserving_commit(&settlement), None);
    let closing = supervisor.finalize(settlement, Some("ignored".to_string()));
    assert_eq!(state_of(&supervisor, task), "interrupted");
    assert_eq!(closing.reclaim, ReclaimMode::DeleteBranch);
    assert_eq!(written_task(closing.task).diff_stat, None);
    assert_eq!(written_session(closing.session).owner, SessionOwner::Free);
    assert!(matches!(
        supervisor.interrupt(task),
        Err(ServiceError::TaskNotRunning { .. })
    ));
}

fn stale_task() -> TaskRecord {
    TaskRecord::new(TaskSpec {
        prompt: "遗留任务".to_string(),
        model_key: "fake".to_string(),
        cwd: HOME.to_string(),
        sandbox: SandboxMode::WorkspaceWrite,
        approval: ApprovalPolicy::Never,
        judge: None,
        diff_first: true,
        worktree: WorktreePolicy::InPlace,
        session: SessionTarget::New,
        timeout_secs: None,
        breaker_threshold: None,
    })
}

fn stale_session() -> SessionRecord {
    SessionRecord::new(
        ModelAffinity {
            model: "fake-model".to_string(),
            provider: ProviderRef {
                id: "rdos-test".to_string(),
                base_url: None,
                wire_api: None,
            },
            reasoning: None,
        },
        SandboxMode::WorkspaceWrite,
        ApprovalPolicy::Never,
        HOME.to_string(),
    )
}

#[test]
fn restart_sweeps_stale_running_tasks() {
    let mut task = stale_task();
    let mut session = stale_session();
    session.claim(task.id).expect("claim");
    task.session_id = Some(session.id);
    task.transition(TaskState::Running { pid: Some(999_999) })
        .expect("running");

    let id = task.id;
    let Started {
        supervisor,
        report,
        writes,
    } = Supervisor::start(
        config(),
        lock(),
        Ok(registry()),
        loaded(vec![task]),
        loaded(vec![session]),
    )
    .expect("start");
    assert_eq!(report.tasks_loaded, 1);
    assert_eq!(report.sessions_loaded, 1);
    assert_eq!(report.swept_tasks, vec![id]);

    let views = supervisor.status(Some(id)).expect("status");
    assert!(views[0].state.starts_with("failed"), "got {}", views[0].state);
    assert_eq!(
        views[0].state,
        "failed: bridge 重启时任务仍在执行，进程已随旧 bridge 消亡"
    );
    let mut sessions = Vec::new();
    for write in writes {
        if let RecordWrite::Session { record, .. } = write {
            sessions.push(record);
        }
    }
    assert_eq!(sessions.len(), 1);
    assert_eq!(sessions[0].owner, SessionOwner::Free);
}

#[test]
fn restart_leaves_what_had_ended_alone() {
    let mut ended = stale_task();
    ended.transition(TaskState::Interrupted).expect("end");
    let pending = stale_task();
    let mut held = stale_session();
    held.claim(TaskId { bits: 5 }).expect("claim");
    let skipped = |path: &str| SkippedFile {
        path: path.to_string(),
        reason: "damaged".to_string(),
    };
    let started = Supervisor::start(
        config(),
        lock(),
        Err(StoreError::Io {
            path: "/models".to_string(),
            not_found: true,
            detail: String::new(),
        }),
        Ok(LoadReport {
            records: vec![ended.clone(), pending.clone()],
            skipped: vec![skipped("a")],
        }),
        Ok(LoadReport {
            records: vec![held.clone()],
            skipped: vec![skipped("b")],
        }),
    )
    .expect("start");
    assert_eq!(started.report.swept_tasks, vec![pending.id]);
    let paths: Vec<&str> = started.report.skipped.iter().map(|s| s.path.as_str()).collect();
    assert_eq!(paths, vec!["a", "b"]);
    assert_eq!(started.writes.len(), 1);
    assert_eq!(
        state_of(&started.supervisor, pending.id),
        "failed: bridge 重启于任务起跑前"
    );
    assert_eq!(state_of(&started.supervisor, ended.id), "interrupted");
    assert!(matches!(
        started.supervisor.probe_target("fake"),
        Err(ServiceError::Registry(RegistryError::UnknownModel { .. }))
    ));
    let mut supervisor = started.supervisor;
    assert!(matches!(
        supervisor.interrupt(pending.id),
        Err(ServiceError::TaskNotRunning { .. })
    ));
}

#[test]
fn a_damaged_store_is_refused() {
    let damaged = || StoreError::Decode {
        path: "/models".to_string(),
        detail: "toml".to_string(),
    };
    assert!(matches!(
        Supervisor::start(config(), lock(), Err(damaged()), empty(), empty()),
        Err(ServiceError::Store(StoreError::Decode { .. }))
    ));
    assert!(matches!(
        Supervisor::start(config(), lock(), Ok(registry()), Err(damaged()), empty()),
        Err(ServiceError::Store(StoreError::Decode { .. }))
    ));
    assert!(matches!(
        Supervisor::start(config(), lock(), Ok(registry()), empty(), Err(damaged())),
        Err(ServiceError::Store(StoreError::Decode { .. }))
    ));
    assert_eq!(
        layout_failed("denied".to_string()).message(),
        "ensure supervisor layout"
    );
}

#[test]
fn reply_resumes_with_conversation_and_model_affinity() {
    let mut supervisor = start_supervisor();
    let first = spawn(&mut supervisor, spawn_request("第一轮"));
    let session = first.drive.session_id;
    let mut watch = StreamWatch::new(5);
    let summary = run(
        &mut supervisor,
        &first.drive,
        &mut watch,
        vec![thread_started("t-first")],
    );
    let exit = exit_of(Some(0), false, false, summary);
    let NextStep::Settle(settlement) =
        supervisor.attempt_ended(first.drive, AttemptEnd::Exited(exit), &watch)
    else {
        panic!("nobody judges");
    };
    assert_eq!(
        settlement.state,
        TaskState::Completed {
            judge: JudgeOutcome::NotJudged
        }
    );
    supervisor.finalize(settlement, None);

    let request = supervisor
        .reply(session, "改用迭代器风格".to_string(), None, None, None)
        .expect("reply");
    assert_eq!(request.model_key, "fake");
    assert_eq!(request.cwd, "/repo");
    assert_eq!(request.worktree, WorktreePolicy::InPlace);
    let second = spawn(&mut supervisor, request);
    assert_eq!(second.drive.session_id, session);
    assert_eq!(second.reply.worktree_branch, None);

    let plan: &LaunchPlan = &second.drive.plan;
    assert_eq!(plan.cwd, "/repo");
    assert_eq!(plan.timeout, Some(900_000));
    assert!(plan.skip_git_repo_check);
    let args = plan.to_args().join(" ");
    assert!(args.contains("resume"), "args: {args}");
    assert!(args.contains("t-first"), "args: {args}");
    assert!(args.contains("-m fake-model"), "args: {args}");
    assert!(args.contains("model_provider="), "args: {args}");
    assert!(args.contains("改用迭代器风格"), "args: {args}");
    assert!(args.ends_with("resume -- t-first 改用迭代器风格"), "args: {args}");
}

#[test]
fn a_reply_needs_a_session_and_a_model() {
    let mut supervisor = start_supervisor();
    let missing = SessionId { bits: 1 };
    assert!(matches!(
        supervisor.reply(missing, String::new(), None, None, None),
        Err(ServiceError::SessionNotFound { session }) if session == missing
    ));
    let prepared = prepare(&mut supervisor, spawn_request("x"));
    let named = supervisor
        .reply(
            prepared.session_id,
            "p".to_string(),
            Some("probed".to_string()),
            Some("true".to_string()),
            Some(9),
        )
        .expect("reply");
    assert_eq!(named.model_key, "probed");
    assert_eq!(named.timeout_secs, Some(9));
    assert_eq!(named.judge_command.as_deref(), Some("true"));
    assert!(named.diff_first);

    let mut foreign = stale_session();
    foreign.model.model = "unregistered".to_string();
    let id = foreign.id;
    let supervisor = Supervisor::start(
        config(),
        lock(),
        Ok(registry()),
        empty(),
        loaded(vec![foreign]),
    )
    .expect("start")
    .supervisor;
    assert!(matches!(
        supervisor.reply(id, String::new(), None, None, None),
        Err(ServiceError::SessionNotResumable { session }) if session == id
    ));
}

#[test]
fn a_session_is_not_shared() {
    let mut supervisor = start_supervisor();
    let first = spawn(&mut supervisor, spawn_request("a"));
    let session = first.drive.session_id;
    let again = || {
        let mut request = spawn_request("b");
        request.session = SessionTarget::Resume { session };
        request
    };
    assert!(matches!(
        supervisor.spawn_task(again()),
        Err(ServiceError::SessionNotResumable { .. })
    ));
    let mut watch = StreamWatch::new(5);
    let step = supervisor.observe(
        &first.drive,
        &mut watch,
        &ExecutorEvent::Parsed(thread_started("t")),
    );
    assert_eq!(
        written_session(step.write).rollout.conversation_id.as_deref(),
        Some("t")
    );
    assert!(matches!(
        supervisor.spawn_task(again()),
        Err(ServiceError::Ownership(OwnershipError::Held { holder, .. }))
            if holder == first.drive.task_id
    ));
    let mut lost = spawn_request("c");
    lost.session = SessionTarget::Resume {
        session: SessionId { bits: 3 },
    };
    assert!(matches!(
        supervisor.spawn_task(lost),
        Err(ServiceError::SessionNotFound { .. })
    ));
    let mut unknown = spawn_request("d");
    unknown.model_key = "nope".to_string();
    assert!(matches!(
        supervisor.spawn_task(unknown),
        Err(ServiceError::Registry(RegistryError::UnknownModel { key })) if key == "nope"
    ));
}

#[test]
fn a_task_that_cannot_begin_lets_go_of_its_session() {
    let mut supervisor = start_supervisor();
    let opening = supervisor.spawn_task(spawn_request("a")).expect("open");
    assert_eq!(
        opening.session.owner,
        SessionOwner::Task {
            task: opening.task.id
        }
    );
    let leased = supervisor.session_saved(opening, Ok(())).expect("lease");
    let failure = supervisor
        .checkout_ready(
            leased,
            Checkout::Failed(WorktreeError {
                detail: "not a repository".to_string(),
            }),
        )
        .expect_err("no checkout");
    assert_eq!(failure.error.message(), "not a repository");
    assert_eq!(written_session(failure.write).owner, SessionOwner::Free);
    assert!(failure.discard.is_none());

    let prepared = prepare(&mut supervisor, spawn_request("b"));
    let branch = branch_name(prepared.task.id);
    let failure = supervisor
        .launched(
            prepared,
            Err(ExecError::Spawn {
                bin: "/nonexistent".to_string(),
                detail: "no such file".to_string(),
            }),
        )
        .expect_err("no launch");
    assert_eq!(failure.error.message(), "failed to spawn /nonexistent");
    assert_eq!(failure.discard.expect("discarded").branch, branch);
    assert_eq!(failure.reclaim, ReclaimMode::DeleteBranch);
    assert_eq!(written_session(failure.write).owner, SessionOwner::Free);
    assert!(supervisor.status(None).expect("status").is_empty());
}

#[test]
fn a_breakdown_before_the_launch_is_reported() {
    let store = || StoreError::Encode {
        path: "/r".to_string(),
        detail: String::new(),
    };
    let mut supervisor = start_supervisor();
    let opening = supervisor.spawn_task(spawn_request("a")).expect("open");
    assert!(matches!(
        supervisor.session_saved(opening, Err(store())),
        Err(ServiceError::Store(StoreError::Encode { .. }))
    ));
    let opening = supervisor.spawn_task(spawn_request("a")).expect("open");
    let leased = supervisor.session_saved(opening, Ok(())).expect("lease");
    let failure = supervisor
        .checkout_ready(
            leased,
            Checkout::Panicked {
                error: "boom".to_string(),
            },
        )
        .expect_err("broken");
    assert_eq!(
        failure.error.message(),
        "worktree allocation task panicked: boom"
    );
    assert_eq!(written_session(failure.write).owner, SessionOwner::Free);
    assert!(failure.discard.is_none());
    let prepared = prepare(&mut supervisor, spawn_request("b"));
    let mut ended = prepared;
    ended.task.state = TaskState::Interrupted;
    assert!(matches!(
        supervisor.launched(ended, Ok(None)).expect_err("ended").error,
        ServiceError::Transition(_)
    ));
    let prepared = prepare(&mut supervisor, spawn_request("c"));
    let launched = supervisor.launched(prepared, Ok(None)).expect("launched");
    assert!(matches!(
        supervisor.task_saved(launched, Err(store())),
        Err(ServiceError::Store(_))
    ));
}

#[test]
fn a_launch_is_planned_from_the_request_and_the_model() {
    let mut supervisor = start_supervisor();
    let mut request = spawn_request("p");
    request.model_key = "probed".to_string();
    let prepared = prepare(&mut supervisor, request);
    let id = prepared.task.id.to_string();
    assert_eq!(
        prepared.events_path,
        format!("{HOME}/supervisor/events/{id}.jsonl")
    );
    assert_eq!(
        prepared.plan.cwd,
        format!("{HOME}/supervisor/worktrees/{id}/sub")
    );
    assert_eq!(prepared.plan.model.as_deref(), Some("probed-model"));
    assert_eq!(prepared.plan.timeout, Some(30_000));
    assert!(!prepared.plan.skip_git_repo_check);
    let overrides: Vec<(&str, &str)> = prepared
        .plan
        .overrides
        .iter()
        .map(|(key, value)| (key.as_str(), value.as_str()))
        .collect();
    assert_eq!(
        overrides,
        vec![
            ("model_provider", "\"rdos-vllm\""),
            ("model_providers.rdos-vllm.base_url", "\"http://h/v1\""),
            ("model_providers.rdos-vllm.wire_api", "\"responses\""),
        ]
    );
}

#[test]
fn a_transient_failure_is_tried_again_twice() {
    let mut supervisor = start_supervisor();
    let spawned = spawn(&mut supervisor, spawn_request("a"));
    let task = spawned.drive.task_id;
    let lost = || TaskExit {
        exit_code: Some(1),
        fatal_error: Some("stream disconnected".to_string()),
        ..Default::default()
    };
    let watch = StreamWatch::new(5);
    let mut drive = spawned.drive;
    for attempt in 1..=2u32 {
        let next = supervisor.attempt_ended(drive, AttemptEnd::Exited(lost()), &watch);
        let NextStep::Relaunch {
            drive: again,
            events_path,
            write,
        } = next
        else {
            panic!("a transient failure is tried again");
        };
        assert_eq!(again.attempt, attempt);
        assert_eq!(
            events_path,
            format!(
                "{HOME}/supervisor/events/{}.a{}.jsonl",
                task.to_string(),
                attempt + 1
            )
        );
        let record = written_task(write);
        assert_eq!(record.retries, attempt);
        assert_eq!(record.events_path.as_ref(), Some(&events_path));
        assert_eq!(supervisor.tail(task).expect("tail"), Some(events_path));
        let RelaunchStep::Watch { drive: watched, write } =
            supervisor.relaunched(again, Ok(Some(100 + attempt)))
        else {
            panic!("launched again");
        };
        assert_eq!(
            written_task(write).state,
            TaskState::Running {
                pid: Some(100 + attempt)
            }
        );
        drive = watched;
    }
    let NextStep::Settle(settlement) =
        supervisor.attempt_ended(drive, AttemptEnd::Exited(lost()), &watch)
    else {
        panic!("no third time");
    };
    assert_eq!(
        settlement.state,
        TaskState::Failed {
            error: "stream disconnected".to_string()
        }
    );
    assert_eq!(settlement.reclaim, ReclaimMode::KeepBranch);
}

#[test]
fn a_failed_relaunch_ends_the_task() {
    let mut supervisor = start_supervisor();
    let mut drive = spawn(&mut supervisor, spawn_request("a")).drive;
    drive.attempt = 1;
    let RelaunchStep::Settle(settlement) = supervisor.relaunched(
        drive,
        Err(ExecError::Internal {
            message: "no pipe".to_string(),
        }),
    ) else {
        panic!("not launched");
    };
    assert_eq!(
        settlement.state,
        TaskState::Failed {
            error: "南向重试第 1 次发射失败: executor internal failure: no pipe".to_string()
        }
    );
    assert_eq!(settlement.reclaim, ReclaimMode::DeleteBranch);
}

#[test]
fn a_broken_run_ends_the_task() {
    let mut supervisor = start_supervisor();
    let watch = StreamWatch::new(5);
    let drive = spawn(&mut supervisor, spawn_request("a")).drive;
    let end = AttemptEnd::Broken(ExecError::Wait {
        detail: String::new(),
    });
    let NextStep::Settle(settlement) = supervisor.attempt_ended(drive, end, &watch) else {
        panic!("broken");
    };
    assert_eq!(
        settlement.state,
        TaskState::Failed {
            error: "executor: failed waiting for child process".to_string()
        }
    );
    let drive = spawn(&mut supervisor, spawn_request("a")).drive;
    let end = AttemptEnd::Panicked {
        error: "boom".to_string(),
    };
    let NextStep::Settle(settlement) = supervisor.attempt_ended(drive, end, &watch) else {
        panic!("broken");
    };
    assert_eq!(
        settlement.state,
        TaskState::Failed {
            error: "executor task panicked: boom".to_string()
        }
    );
}

#[test]
fn the_breaker_interrupts_a_task_and_names_itself() {
    let mut supervisor = start_supervisor();
    let mut request = spawn_request("a");
    request.breaker_threshold = Some(2);
    let drive = spawn(&mut supervisor, request).drive;
    assert_eq!(drive.breaker_threshold, 2);
    let task = drive.task_id;
    let mut watch = StreamWatch::new(drive.breaker_threshold);
    let failed = ExecutorEvent::Parsed(ThreadEvent::ItemCompleted {
        item: ThreadItemDetails::CommandExecution {
            command: "sed -i x".to_string(),
            exit_code: Some(1),
            status: CommandExecutionStatus::Failed,
        },
    });
    assert!(!supervisor.observe(&drive, &mut watch, &failed).kill);
    assert!(supervisor.observe(&drive, &mut watch, &failed).kill);
    assert!(!supervisor.observe(&drive, &mut watch, &failed).kill);
    assert!(supervisor.interrupt(task).is_err());
    let exit = TaskExit {
        interrupted: true,
        ..Default::default()
    };
    let NextStep::Settle(settlement) =
        supervisor.attempt_ended(drive, AttemptEnd::Exited(exit), &watch)
    else {
        panic!("stopped");
    };
    supervisor.finalize(settlement, None);
    assert_eq!(
        state_of(&supervisor, task),
        "failed: 熔断（#6）：同签名工具连续失败 2 次（sed），已中止任务"
    );
}

#[test]
fn tasks_are_listed_newest_first() {
    let mut supervisor = start_supervisor();
    assert!(supervisor.status(None).expect("status").is_empty());
    for prompt in ["a", "b", "c"] {
        spawn(&mut supervisor, spawn_request(prompt));
    }
    let views = supervisor.status(None).expect("status");
    assert_eq!(views.len(), 3);
    assert!(views[0].created_at >= views[1].created_at);
    assert!(views[1].created_at >= views[2].created_at);
    let nobody = TaskId { bits: 1 };
    assert!(matches!(
        supervisor.status(Some(nobody)),
        Err(ServiceError::TaskNotFound { .. })
    ));
    assert!(matches!(
        supervisor.tail(nobody),
        Err(ServiceError::TaskNotFound { .. })
    ));
    assert!(matches!(
        supervisor.interrupt(nobody),
        Err(ServiceError::TaskNotFound { .. })
    ));
    assert_eq!(
        tail_failed(nobody, "denied".to_string()).message(),
        "read events for 00000000-0000-0000-0000-000000000001"
    );
}

#[test]
fn what_is_shown_of_a_task_is_cut_to_size() {
    let mut record = stale_task();
    record.spec.prompt = "长".repeat(161);
    record.last_agent_message = Some("m".repeat(201));
    record.diff_stat = Some("d".repeat(601));
    record.state = TaskState::Failed {
        error: "e".repeat(161),
    };
    let view = view_of(&record);
    assert_eq!(view.prompt_snippet, format!("{}…", "长".repeat(160)));
    assert_eq!(view.last_agent_message, Some(format!("{}…", "m".repeat(200))));
    assert_eq!(view.diff_stat, Some(format!("{}…", "d".repeat(600))));
    assert_eq!(view.state, format!("failed: {}…", "e".repeat(160)));
    assert_eq!(view.session_id, None);
    assert_eq!(view.worktree_branch, None);
    record.state = TaskState::Pending;
    assert_eq!(view_of(&record).state, "pending");
    assert_eq!(truncate_chars("深bug", 2), "深b…");
}

#[test]
fn a_model_is_probed_only_where_its_entry_says_so() {
    let supervisor = start_supervisor();
    assert_eq!(supervisor.probe_target("fake").expect("known"), None);
    assert_eq!(
        supervisor.probe_target("probed").expect("known").as_deref(),
        Some("http://h/v1/models")
    );
}

#[test]
fn only_a_passed_probe_opens_a_request() {
    let answered = |success: bool| ProbeOutcome::Answered {
        success,
        status: "500".to_string(),
    };
    let request = |key: &str, session: SessionTarget| {
        let mut request = spawn_request("p");
        request.model_key = key.to_string();
        request.session = session;
        request
    };
    let mut supervisor = start_supervisor();
    let first = spawn(&mut supervisor, spawn_request("first"));
    let session = first.drive.session_id;
    let mut watch = StreamWatch::new(5);
    let summary = run(&mut supervisor, &first.drive, &mut watch, happy_events());
    let exit = exit_of(Some(0), false, false, summary);
    let NextStep::Settle(settlement) =
        supervisor.attempt_ended(first.drive, AttemptEnd::Exited(exit), &watch)
    else {
        panic!("nobody judges");
    };
    supervisor.finalize(settlement, None);

    let resume = || SessionTarget::Resume { session };
    let barred = supervisor
        .spawn_probed(request("probed", resume()), Some(answered(false)))
        .expect_err("barred");
    assert_eq!(
        barred.message(),
        "preflight 未通过（probed @ http://h/v1/models）：服务异常响应 HTTP 500——引擎在但状态不对，需人工查看"
    );
    let unprobed = supervisor
        .spawn_probed(request("probed", resume()), None)
        .expect_err("unprobed");
    assert_eq!(unprobed.message(), "model was not probed: probed");
    let opening = supervisor
        .spawn_probed(request("probed", resume()), Some(answered(true)))
        .expect("the session is still free");
    assert_eq!(opening.session.id, session);
    assert!(matches!(
        supervisor.spawn_probed(request("probed", resume()), Some(answered(true))),
        Err(ServiceError::Ownership(OwnershipError::Held { .. }))
    ));
    assert!(supervisor
        .spawn_probed(request("fake", SessionTarget::New), None)
        .is_ok());
    assert!(matches!(
        supervisor.spawn_probed(request("none", SessionTarget::New), None),
        Err(ServiceError::Registry(RegistryError::UnknownModel { .. }))
    ));
}

#[test]
fn a_checkout_is_made_only_for_an_isolated_task() {
    let mut supervisor = start_supervisor();
    for (policy, wanted) in [
        (WorktreePolicy::Isolated, true),
        (WorktreePolicy::InPlace, false),
    ] {
        let mut request = spawn_request("p");
        request.worktree = policy;
        let opening = supervisor.spawn_task(request).expect("open");
        let leased = supervisor.session_saved(opening, Ok(())).expect("lease");
        assert_eq!(wants_checkout(&leased), wanted);
    }
}

#[test]
fn a_run_launches_the_program_of_the_supervisor() {
    let mut supervisor = start_supervisor();
    let prepared = prepare(&mut supervisor, spawn_request("p"));
    let command =
        supervisor.launch_command(prepared.task.id, &prepared.plan, &prepared.events_path);
    assert_eq!(command.program, "/nonexistent");
    assert_eq!(command.codex_home, HOME);
    assert_eq!(command.task, prepared.task.id);
    assert_eq!(command.cwd, prepared.plan.cwd);
    assert_eq!(command.args, prepared.plan.to_args());
    assert_eq!(command.stdout_path, prepared.events_path);
    assert_eq!(command.timeout, Some(30_000));
}

#[test]
fn a_failed_probe_is_diagnosed() {
    let failed = |error: &str, source: &str, timed_out: bool| {
        let outcome = ProbeOutcome::Failed {
            error: error.to_string(),
            source: source.to_string(),
            timed_out,
        };
        preflight("m", "http://h", outcome)
            .expect_err("failed")
            .message()
    };
    assert_eq!(
        failed("error sending request", "Connection REFUSED", true),
        "preflight 未通过（m @ http://h）：端口拒连——机器在但服务未起（deepseek 走代理时先跑 scripts/dspark_proxy.py）"
    );
    let silent = "preflight 未通过（m @ http://h）：无响应（超时）——机器疑似关机或网络不可达；请人工分诊（ping 裸 IP 区分关机/停服）";
    assert_eq!(failed("x", "y", true), silent);
    assert_eq!(failed("Timed Out", "", false), silent);
    assert_eq!(
        failed("Bad URL", "", false),
        "preflight 未通过（m @ http://h）：连接失败：Bad URL"
    );
    assert_eq!(verdict_on_probe("E", "e / ", false), "连接失败：E");
    assert!(preflight(
        "m",
        "u",
        ProbeOutcome::Answered {
            success: true,
            status: "200 OK".to_string()
        }
    )
    .is_ok());
    let odd = preflight(
        "m",
        "u",
        ProbeOutcome::Answered {
            success: false,
            status: "503 Service Unavailable".to_string(),
        },
    )
    .expect_err("odd");
    assert_eq!(
        odd.message(),
        "preflight 未通过（m @ u）：服务异常响应 HTTP 503 Service Unavailable——引擎在但状态不对，需人工查看"
    );
    let none = preflight(
        "m",
        "u",
        ProbeOutcome::NoClient {
            error: "tls".to_string(),
        },
    )
    .expect_err("none");
    assert_eq!(none.message(), "build preflight client: tls");
}

#[test]
fn checkouts_are_named_after_their_tasks() {
    let task = TaskId { bits: 0xab };
    let home = SupervisorHome::new("/h".to_string());
    let id = "00000000-0000-0000-0000-0000000000ab";
    assert_eq!(branch_name(task), format!("rdos/task/{id}"));
    assert_eq!(
        checkout_dir(&home, task),
        format!("/h/supervisor/worktrees/{id}")
    );
    assert_eq!(
        commit_message(task),
        format!("rdos task {id} 产出（supervisor 自动落盘）")
    );
}

#[test]
fn a_conversation_survives_a_restart() {
    let mut task = stale_task();
    let mut session = stale_session();
    session.claim(task.id).expect("claim");
    session.rollout.conversation_id = Some("t-before".to_string());
    task.session_id = Some(session.id);
    let id = session.id;
    let mut supervisor = Supervisor::start(
        config(),
        lock(),
        Ok(registry()),
        loaded(vec![task]),
        loaded(vec![session]),
    )
    .expect("start")
    .supervisor;
    let request = supervisor
        .reply(id, "go on".to_string(), None, None, None)
        .expect("reply");
    let prepared = prepare(&mut supervisor, request);
    assert_eq!(prepared.session_id, id);
    assert_eq!(prepared.plan.resume.as_deref(), Some("t-before"));
    assert_eq!(prepared.plan.model.as_deref(), Some("fake-model"));
    assert_eq!(prepared.plan.cwd, HOME);
}

#[test]
fn every_task_and_session_has_a_file_of_its_own() {
    let home = SupervisorHome::new(HOME.to_string());
    let (a, b) = (stale_task(), stale_task());
    assert_ne!(a.save(&home), b.save(&home));
    let (c, d) = (stale_session(), stale_session());
    assert_ne!(c.save(&home), d.save(&home));
    assert!(is_record_file(&format!("{}.json", a.id.to_string())));
}

#[test]
fn every_new_task_gets_a_session_of_its_own() {
    let mut supervisor = start_supervisor();
    let a = supervisor.spawn_task(spawn_request("a")).expect("open");
    let b = supervisor.spawn_task(spawn_request("b")).expect("open");
    assert_ne!(a.session.id, b.session.id);
    assert_ne!(a.task.id, b.task.id);
    assert_eq!(a.session.id.to_string().as_bytes()[14], b'4');
    assert!(chrono::DateTime::parse_from_rfc3339(&a.task.created_at.text).is_ok());
    assert_eq!(a.session.created_at, a.task.created_at);
}
