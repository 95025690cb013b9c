use codex_supervisor::events::{ThreadEvent, ThreadItemDetails, Usage};
use codex_supervisor::executor::{
    default_codex_bin, exit_of, fold_event, launch, sibling_bin, stdout_event, ChildSignal,
    ChildStep, ChildWatch, ExecError, ExecutorConfig, ExecutorEvent, LaunchPlan, StreamSummary,
    TaskExit,
};
use codex_supervisor::registry::TaskId;
use codex_supervisor::session::SandboxMode;

fn plan(prompt: &str, cwd: &str) -> LaunchPlan {
    LaunchPlan {
        prompt: prompt.to_string(),
        model: None,
        sandbox: SandboxMode::ReadOnly,
        cwd: cwd.to_string(),
        overrides: Vec::new(),
        resume: None,
        skip_git_repo_check: false,
        timeout: None,
    }
}

#[test]
fn to_args_new_session_shape() {
    let plan = LaunchPlan {
        prompt: "修 bug".to_string(),
        model: Some("qwen".to_string()),
        sandbox: SandboxMode::WorkspaceWrite,
        cwd: "/x".to_string(),
        overrides: vec![("model_provider".to_string(), "rdos-vllm".to_string())],
        resume: None,
        skip_git_repo_check: true,
        timeout: None,
    };
    assert_eq!(
        plan.to_args(),
        vec![
            "exec",
            "--json",
            "--skip-git-repo-check",
            "-m",
            "qwen",
            "-s",
            "workspace-write",
            "-c",
            "model_provider=rdos-vllm",
            "--",
            "修 bug",
        ]
    );
}

#[test]
fn to_args_resume_shape() {
    let mut p = plan("继续", "/x");
    p.resume = Some("thread-1".to_string());
    let args = p.to_args();
    assert_eq!(
        args[args.len() - 4..],
        ["resume", "--", "thread-1", "继续"].map(str::to_string)
    );
}

#[test]
fn a_prompt_that_looks_like_an_option_is_none() {
    let args = plan("--help", "/x").to_args();
    assert_eq!(args[args.len() - 2..], ["--", "--help"].map(str::to_string));
}

#[test]
fn a_launch_keeps_both_streams_beside_each_other() {
    let config = ExecutorConfig {
        codex_bin: "/bin/tool".to_string(),
        codex_home: "/home/me/.tool".to_string(),
    };
    let task = TaskId { bits: 7 };
    let mut p = plan("go", "/work");
    p.timeout = Some(300);
    let command = launch(&config, task, &p, "/state/events/abc.jsonl");
    assert_eq!(command.program, "/bin/tool");
    assert_eq!(command.codex_home, "/home/me/.tool");
    assert_eq!(command.cwd, "/work");
    assert_eq!(command.stdout_path, "/state/events/abc.jsonl");
    assert_eq!(command.stderr_path, "/state/events/abc.stderr.log");
    assert_eq!(command.timeout, Some(300));
    assert_eq!(command.task, task);
    assert_eq!(command.args, p.to_args());
}

#[test]
fn the_last_fact_of_each_kind_is_remembered() {
    let mut summary = StreamSummary::new();
    let usage = |n: i64| Usage {
        input_tokens: n,
        cached_input_tokens: 0,
        output_tokens: 2 * n,
        reasoning_output_tokens: 0,
    };
    let said = |text: &str| ThreadEvent::ItemCompleted {
        item: ThreadItemDetails::AgentMessage {
            text: text.to_string(),
        },
    };
    for event in [
        ThreadEvent::ThreadStarted {
            thread_id: "t-123".to_string(),
        },
        ThreadEvent::TurnStarted,
        said("first"),
        ThreadEvent::TurnCompleted { usage: usage(1) },
        said("done"),
        ThreadEvent::TurnCompleted { usage: usage(3) },
        ThreadEvent::ItemStarted {
            item: ThreadItemDetails::AgentMessage {
                text: "not yet".to_string(),
            },
        },
        ThreadEvent::TurnFailed {
            message: "turn".to_string(),
        },
        ThreadEvent::Error {
            message: "stream".to_string(),
        },
    ] {
        fold_event(&mut summary, &event);
    }
    let exit = exit_of(Some(0), false, false, summary);
    assert_eq!(exit.exit_code, Some(0));
    assert!(!exit.interrupted && !exit.timed_out);
    assert_eq!(exit.thread_id.as_deref(), Some("t-123"));
    assert_eq!(exit.last_agent_message.as_deref(), Some("done"));
    assert_eq!(exit.usage.expect("usage").output_tokens, 6);
    assert_eq!(exit.turn_failed.as_deref(), Some("turn"));
    assert_eq!(exit.fatal_error.as_deref(), Some("stream"));
    assert_eq!(TaskExit::default().exit_code, None);
}

#[test]
fn a_line_that_is_no_event_is_kept() {
    let event = stdout_event("plain text leak".to_string(), Err("no json".to_string()));
    assert!(matches!(
        event,
        ExecutorEvent::ParseError { line, error } if line == "plain text leak" && error == "no json"
    ));
    assert!(matches!(
        stdout_event("{}".to_string(), Ok(ThreadEvent::TurnStarted)),
        ExecutorEvent::Parsed(ThreadEvent::TurnStarted)
    ));
}

#[test]
fn losing_the_interrupt_handle_is_no_interruption() {
    let mut watch = ChildWatch::new();
    assert!(matches!(
        watch.step(ChildSignal::InterruptDropped),
        ChildStep::KeepWatching
    ));
    assert!(!watch.interrupt_armed);
    assert!(matches!(
        watch.step(ChildSignal::Exited),
        ChildStep::Finish {
            interrupted: false,
            timed_out: false,
            kill: false
        }
    ));
}

#[test]
fn interruption_and_timeout_kill_and_are_told_apart() {
    let mut watch = ChildWatch::new();
    assert!(matches!(
        watch.step(ChildSignal::InterruptRequested),
        ChildStep::Finish {
            interrupted: true,
            timed_out: false,
            kill: true
        }
    ));
    assert!(matches!(
        watch.step(ChildSignal::TimedOut),
        ChildStep::Finish {
            interrupted: false,
            timed_out: true,
            kill: true
        }
    ));
    assert!(matches!(
        watch.step(ChildSignal::WaitFailed {
            detail: "gone".to_string()
        }),
        ChildStep::Fail(ExecError::Wait { .. })
    ));
}

#[test]
fn executor_errors_in_words() {
    let detail = || "why".to_string();
    let spawn = ExecError::Spawn {
        bin: "/bin/x".to_string(),
        detail: detail(),
    };
    assert_eq!(spawn.message(), "failed to spawn /bin/x");
    let events = ExecError::EventsFile {
        path: "/e".to_string(),
        detail: detail(),
    };
    assert_eq!(events.message(), "failed to open events file /e");
    let wait = ExecError::Wait { detail: detail() };
    assert_eq!(wait.message(), "failed waiting for child process");
    let internal = ExecError::Internal {
        message: "child stdout pipe missing".to_string(),
    };
    assert_eq!(
        internal.message(),
        "executor internal failure: child stdout pipe missing"
    );
}

#[test]
fn the_sibling_program_comes_first() {
    assert_eq!(sibling_bin("/opt/bin"), "/opt/bin/rdos-cli");
    assert_eq!(
        default_codex_bin(Some("/opt/bin/rdos-cli".to_string())),
        "/opt/bin/rdos-cli"
    );
    assert_eq!(default_codex_bin(None), "rdos-cli");
}
