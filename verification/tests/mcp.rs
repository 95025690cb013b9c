use codex_supervisor::executor::ExecError;
use codex_supervisor::mcp::{
    encode_failed, interrupt_body, map_err, parse_sandbox, parse_session_id, parse_task_id,
    parse_worktree, spawn_request, status_target, tail_body, tail_lines, SpawnTaskParams,
    StatusParams, TailParams, ToolError,
};
use codex_supervisor::registry::{SessionTarget, TaskId, WorktreePolicy};
use codex_supervisor::service::ServiceError;
use codex_supervisor::session::{SandboxMode, SessionId};

const ID: &str = "00000000-0000-0000-0000-00000000002a";

fn refused<T>(result: Result<T, ToolError>) -> String {
    match result {
        Err(ToolError::InvalidParams(message)) => message,
        _ => panic!("should have been refused"),
    }
}

fn spawn_params() -> SpawnTaskParams {
    SpawnTaskParams {
        prompt: "p".to_string(),
        model_key: "m".to_string(),
        cwd: "/w".to_string(),
        sandbox: None,
        judge_command: Some("true".to_string()),
        timeout_secs: None,
        worktree: None,
        diff_first: None,
    }
}

#[test]
fn identifiers_are_read_or_refused() {
    assert_eq!(parse_task_id(ID).ok(), Some(TaskId { bits: 42 }));
    assert_eq!(parse_session_id(ID).ok(), Some(SessionId { bits: 42 }));
    assert_eq!(refused(parse_task_id("x")), "invalid task_id: x");
    assert_eq!(refused(parse_session_id("x")), "invalid session_id: x");
    assert_eq!(
        status_target(&StatusParams { task_id: None }).ok(),
        Some(None)
    );
    assert_eq!(
        status_target(&StatusParams {
            task_id: Some(ID.to_string())
        })
        .ok(),
        Some(Some(TaskId { bits: 42 }))
    );
    assert_eq!(
        refused(status_target(&StatusParams {
            task_id: Some("y".to_string())
        })),
        "invalid task_id: y"
    );
}

#[test]
fn sandboxes_and_worktrees_are_named() {
    let name = |text: &str| Some(text.to_string());
    assert_eq!(
        parse_sandbox(&None).ok(),
        Some(SandboxMode::WorkspaceWrite)
    );
    for mode in [
        SandboxMode::ReadOnly,
        SandboxMode::WorkspaceWrite,
        SandboxMode::DangerFullAccess,
    ] {
        assert_eq!(parse_sandbox(&name(mode.cli_name())).ok(), Some(mode));
    }
    assert_eq!(
        refused(parse_sandbox(&name("none"))),
        "invalid sandbox: none (read-only | workspace-write | danger-full-access)"
    );
    assert_eq!(parse_worktree(&None).ok(), Some(WorktreePolicy::Isolated));
    assert_eq!(
        parse_worktree(&name("in-place")).ok(),
        Some(WorktreePolicy::InPlace)
    );
    assert_eq!(
        refused(parse_worktree(&name("here"))),
        "invalid worktree: here (isolated | in-place)"
    );
}

#[test]
fn a_spawn_request_has_defaults() {
    let request = spawn_request(spawn_params()).ok().expect("valid");
    assert_eq!(request.sandbox, SandboxMode::WorkspaceWrite);
    assert_eq!(request.worktree, WorktreePolicy::Isolated);
    assert_eq!(request.session, SessionTarget::New);
    assert!(request.diff_first);
    assert_eq!(request.breaker_threshold, None);
    assert_eq!(request.judge_command.as_deref(), Some("true"));
    let mut both = spawn_params();
    both.sandbox = Some("x".to_string());
    both.worktree = Some("y".to_string());
    assert!(refused(spawn_request(both)).starts_with("invalid sandbox: x"));
    let mut one = spawn_params();
    one.worktree = Some("y".to_string());
    one.diff_first = Some(false);
    assert!(refused(spawn_request(one)).starts_with("invalid worktree: y"));
}

#[test]
fn tails_are_joined() {
    let params = TailParams {
        task_id: ID.to_string(),
        lines: None,
    };
    assert_eq!(tail_lines(&params), 20);
    assert_eq!(tail_body(&Vec::new()), "（尚无事件）");
    assert_eq!(
        tail_body(&vec!["a".to_string(), "b".to_string()]),
        "a\nb"
    );
    assert_eq!(
        interrupt_body(TaskId { bits: 42 }),
        format!("interrupt sent to {ID}")
    );
}

#[test]
fn errors_are_told_apart_by_whose_they_are() {
    let task = TaskId { bits: 42 };
    let missing = map_err(&ServiceError::TaskNotFound { task });
    assert!(matches!(missing, ToolError::InvalidParams(m) if m == format!("task {ID} not found")));
    let idle = map_err(&ServiceError::TaskNotRunning { task });
    assert!(matches!(idle, ToolError::InvalidParams(m) if m == format!("task {ID} is not running")));
    let session = SessionId { bits: 42 };
    let lost = map_err(&ServiceError::SessionNotFound { session });
    assert!(matches!(lost, ToolError::InvalidParams(m) if m == format!("session {ID} not found")));
    let stuck = map_err(&ServiceError::SessionNotResumable { session });
    assert!(matches!(stuck, ToolError::InvalidParams(m)
        if m == format!("session {ID} has no resumable rollout (or model affinity is unresolvable)")));
    let broken = map_err(&ServiceError::Exec(ExecError::Internal {
        message: "m".to_string(),
    }));
    assert!(matches!(broken, ToolError::Internal(m) if m == "executor internal failure: m"));
    assert!(matches!(encode_failed("e"), ToolError::Internal(m) if m == "encode reply: e"));
}
