use codex_supervisor::clock::Timestamp;
use codex_supervisor::paths::{DirEntry, DirListing, StoreError, SupervisorHome};
use codex_supervisor::registry::{
    JudgeOutcome, JudgeSpec, SessionTarget, TaskId, TaskRecord, TaskSpec, TaskState, WorktreePolicy,
};
use codex_supervisor::session::{ApprovalPolicy, SandboxMode};

fn sample_spec() -> TaskSpec {
    TaskSpec {
        prompt: "修复 testbed 中失败的浅 bug 测试".to_string(),
        model_key: "qwen36-nvfp4".to_string(),
        cwd: "/Users/kit/Workspace/RDOSCli/testbed".to_string(),
        sandbox: SandboxMode::WorkspaceWrite,
        approval: ApprovalPolicy::Never,
        judge: Some(JudgeSpec {
            command: "cargo test".to_string(),
        }),
        diff_first: true,
        worktree: WorktreePolicy::Isolated,
        session: SessionTarget::New,
        timeout_secs: Some(600),
        breaker_threshold: None,
    }
}

#[test]
fn lifecycle_happy_path() {
    let mut task = TaskRecord::new(sample_spec());
    assert_eq!(task.state, TaskState::Pending);
    task.transition(TaskState::Running { pid: None })
        .expect("start");
    task.transition(TaskState::Running { pid: Some(4242) })
        .expect("record pid");
    task.transition(TaskState::Completed {
        judge: JudgeOutcome::Passed,
    })
    .expect("complete");
    assert!(task.state.is_terminal());
}

#[test]
fn terminal_states_reject_further_transitions() {
    let mut task = TaskRecord::new(sample_spec());
    task.transition(TaskState::Interrupted)
        .expect("cancel pending");
    let err = task
        .transition(TaskState::Running { pid: None })
        .expect_err("terminal is terminal");
    assert_eq!(err.task, task.id);
}

#[test]
fn pending_cannot_complete_without_running() {
    let mut task = TaskRecord::new(sample_spec());
    assert!(
        task.transition(TaskState::Completed {
            judge: JudgeOutcome::NotJudged,
        })
        .is_err(),
        "completion must pass through Running"
    );
}

#[test]
fn an_illegal_step_changes_nothing_and_says_so() {
    let now = || Timestamp {
        text: "2026-08-04T00:00:00+00:00".to_string(),
    };
    let id = TaskId {
        bits: 0x0123_4567_89ab_cdef_0123_4567_89ab_cdef,
    };
    let mut task = TaskRecord::new_at(id, sample_spec(), now());
    task.transition_at(
        TaskState::Failed {
            error: "a \"b\"".to_string(),
        },
        now(),
    )
    .expect("fail");
    let before = task.clone();
    let error = task
        .transition_at(TaskState::Running { pid: Some(5) }, now())
        .expect_err("ended");
    assert_eq!(task, before);
    assert_eq!(
        error.message(),
        "illegal task state transition for 01234567-89ab-cdef-0123-456789abcdef: \
         Failed { error: \"a \\\"b\\\"\" } -> Running { pid: Some(5) }"
    );
}

#[test]
fn states_as_diagnostics_show_them() {
    assert_eq!(TaskState::Pending.show(), "Pending");
    assert_eq!(
        TaskState::Running { pid: None }.show(),
        "Running { pid: None }"
    );
    assert_eq!(
        TaskState::Completed {
            judge: JudgeOutcome::Failed { exit_code: -1 }
        }
        .show(),
        "Completed { judge: Failed { exit_code: -1 } }"
    );
    assert_eq!(
        TaskState::Completed {
            judge: JudgeOutcome::NotJudged
        }
        .show(),
        "Completed { judge: NotJudged }"
    );
    assert_eq!(TaskState::Interrupted.show(), "Interrupted");
}

#[test]
fn nothing_leads_back_to_the_start() {
    let running = TaskState::Running { pid: None };
    assert!(!running.can_transition_to(&TaskState::Pending));
    assert!(!TaskState::Pending.can_transition_to(&TaskState::Pending));
    assert!(TaskState::Pending.can_transition_to(&TaskState::Failed {
        error: String::new()
    }));
}

#[test]
fn identifiers_read_back_and_are_random() {
    let a = TaskId::new();
    let b = TaskId::new();
    assert_ne!(a, b);
    let text = a.to_string();
    assert_eq!(text.len(), 36);
    assert_eq!(TaskId::from_str(&text), Ok(a));
    assert_eq!(text.as_bytes()[14], b'4');
    assert!(TaskId::from_str("not an id").is_err());
    assert_eq!(
        TaskId { bits: 0xff }.to_string(),
        "00000000-0000-0000-0000-0000000000ff"
    );
}

#[test]
fn a_record_is_saved_under_its_identifier() {
    let home = SupervisorHome::new("/h".to_string());
    let id = TaskId { bits: 1 };
    let task = TaskRecord::new_at(
        id,
        sample_spec(),
        Timestamp {
            text: String::new(),
        },
    );
    assert_eq!(
        task.save(&home),
        "/h/supervisor/tasks/00000000-0000-0000-0000-000000000001.json"
    );
}

#[test]
fn all_task_records_are_accounted_for() {
    let home = SupervisorHome::new("/h".to_string());
    let task = TaskRecord::new(sample_spec());
    let found = DirListing::Entries(vec![
        DirEntry::File {
            name: "a.json".to_string(),
            content: Ok(task.clone()),
        },
        DirEntry::File {
            name: "b.json".to_string(),
            content: Err(StoreError::Decode {
                path: "/h/supervisor/tasks/b.json".to_string(),
                detail: "expected value".to_string(),
            }),
        },
    ]);
    let report = TaskRecord::load_all(&home, found).expect("load");
    assert_eq!(report.records, vec![task]);
    assert_eq!(report.skipped.len(), 1);
    assert_eq!(report.skipped[0].path, "/h/supervisor/tasks/b.json");
    assert_eq!(
        report.skipped[0].reason,
        "failed to decode record at /h/supervisor/tasks/b.json"
    );
}

#[test]
fn a_step_refreshes_the_time_of_change() {
    let mut task = TaskRecord::new(sample_spec());
    assert!(chrono::DateTime::parse_from_rfc3339(&task.created_at.text).is_ok());
    task.updated_at = Timestamp {
        text: "long ago".to_string(),
    };
    assert!(task.transition(TaskState::Pending).is_err());
    assert_eq!(task.updated_at.text, "long ago");
    task.transition(TaskState::Running { pid: None })
        .expect("start");
    let changed = chrono::DateTime::parse_from_rfc3339(&task.updated_at.text);
    assert!(changed.expect("RFC 3339") <= chrono::Utc::now());
}

#[test]
fn task_roundtrip_via_disk() {
    let home = SupervisorHome::new("/h".to_string());
    let mut task = TaskRecord::new(sample_spec());
    task.transition(TaskState::Running { pid: Some(7) })
        .expect("start");
    let path = task.save(&home);
    let name = path.rsplit('/').next().expect("name").to_string();
    let found = DirListing::Entries(vec![DirEntry::File {
        name,
        content: Ok(task.clone()),
    }]);
    let report = TaskRecord::load_all(&home, found).expect("load");
    assert!(report.skipped.is_empty());
    assert_eq!(report.records, vec![task]);
}
