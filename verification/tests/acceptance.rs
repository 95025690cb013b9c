use codex_supervisor::acceptance::{
    classify_item, command_signature, ending_of, is_tool_item, is_transient, judge_script, judged,
    reclaim_mode, should_retry, Breaker, Ending, ItemVerdict, JudgeRun, StreamWatch,
};
use codex_supervisor::events::{
    CommandExecutionStatus, McpToolCallStatus, PatchApplyStatus, ThreadEvent, ThreadItemDetails,
};
use codex_supervisor::executor::{ExecutorEvent, TaskExit};
use codex_supervisor::registry::{JudgeOutcome, JudgeSpec};
use codex_supervisor::worktree::ReclaimMode;
use std::collections::VecDeque;

#[test]
fn command_signature_strips_shell_wrappers_coarsely() {
    assert_eq!(
        command_signature("/bin/zsh -lc 'apply_patch <<PATCH'"),
        "apply_patch"
    );
    assert_eq!(
        command_signature("/bin/sh -c \"cargo test --all\""),
        "cargo"
    );
    assert_eq!(command_signature("bash -lc sed -i s/a/b/ x.rs"), "sed");
    assert_eq!(command_signature("/usr/bin/git diff"), "git");
    assert_eq!(command_signature(""), "unknown");
}

#[test]
fn breaker_counts_consecutive_only_and_success_resets() {
    let mut breaker = Breaker::new(3);
    assert_eq!(breaker.record_failure("apply_patch"), None);
    assert_eq!(breaker.record_failure("apply_patch"), None);
    breaker.record_success();
    assert_eq!(breaker.record_failure("apply_patch"), None);
    assert_eq!(breaker.record_failure("sed"), None, "换签名重新起数");
    assert_eq!(breaker.record_failure("sed"), None);
    assert_eq!(breaker.record_failure("sed"), Some(3), "三连同签名即断");
}

#[test]
fn transient_detection_reads_failure_channels_only() {
    let mut exit = TaskExit {
        exit_code: Some(1),
        ..Default::default()
    };
    let mut tail = VecDeque::new();
    tail.push_back("stream disconnected before completion: error sending request".to_string());
    assert!(is_transient(&exit, &tail));

    tail.clear();
    tail.push_back("error[E0308]: mismatched types".to_string());
    assert!(!is_transient(&exit, &tail));

    exit.last_agent_message = Some("我遇到了 connection refused".to_string());
    assert!(!is_transient(&exit, &tail), "模型正文不参与判定");
}

#[test]
fn transient_failures_are_found_in_any_case_and_channel() {
    let none = VecDeque::new();
    let fatal = TaskExit {
        fatal_error: Some("Connection REFUSED".to_string()),
        ..Default::default()
    };
    assert!(is_transient(&fatal, &none));
    let turn = TaskExit {
        turn_failed: Some("No Route To Host".to_string()),
        ..Default::default()
    };
    assert!(is_transient(&turn, &none));
    assert!(!is_transient(&TaskExit::default(), &none));
}

#[test]
fn a_threshold_of_zero_means_one() {
    assert_eq!(Breaker::new(0).record_failure("x"), Some(1));
}

#[test]
fn shells_are_looked_into() {
    assert_eq!(command_signature("sh"), "unknown");
    assert_eq!(command_signature("/bin/bash -l -c"), "unknown");
    assert_eq!(command_signature("zsh -lc '/usr/bin/env python'"), "env");
    assert_eq!(command_signature("  'ls' -l"), "ls");
    assert_eq!(command_signature("dash -c ls"), "dash");
}

fn command(command: &str, exit_code: Option<i32>, status: CommandExecutionStatus) -> ThreadItemDetails {
    ThreadItemDetails::CommandExecution {
        command: command.to_string(),
        exit_code,
        status,
    }
}

#[test]
fn items_are_classified_by_status_and_exit_code() {
    let failed = |item: &ThreadItemDetails, tool: &str| {
        matches!(classify_item(item), ItemVerdict::Failure(signature) if signature == tool)
    };
    assert!(failed(
        &command("ls x", Some(2), CommandExecutionStatus::Completed),
        "ls"
    ));
    assert!(failed(
        &command("ls x", None, CommandExecutionStatus::Failed),
        "ls"
    ));
    assert!(matches!(
        classify_item(&command("ls", Some(0), CommandExecutionStatus::Completed)),
        ItemVerdict::Success
    ));
    assert!(matches!(
        classify_item(&command("ls", Some(1), CommandExecutionStatus::InProgress)),
        ItemVerdict::Neutral
    ));
    let patch = |status: PatchApplyStatus| ThreadItemDetails::FileChange {
        paths: Vec::new(),
        status,
    };
    assert!(failed(&patch(PatchApplyStatus::Failed), "apply_patch"));
    assert!(matches!(
        classify_item(&patch(PatchApplyStatus::Completed)),
        ItemVerdict::Success
    ));
    let call = |status: McpToolCallStatus| ThreadItemDetails::McpToolCall {
        server: "s".to_string(),
        tool: "t".to_string(),
        status,
    };
    assert!(failed(&call(McpToolCallStatus::Failed), "mcp:s.t"));
    assert!(matches!(
        classify_item(&call(McpToolCallStatus::InProgress)),
        ItemVerdict::Neutral
    ));
    let said = ThreadItemDetails::AgentMessage {
        text: String::new(),
    };
    assert!(matches!(classify_item(&said), ItemVerdict::Neutral));
    assert!(!is_tool_item(&said));
    assert!(is_tool_item(&call(McpToolCallStatus::InProgress)));
}

fn finished(item: ThreadItemDetails) -> ExecutorEvent {
    ExecutorEvent::Parsed(ThreadEvent::ItemCompleted { item })
}

#[test]
fn a_watch_trips_once_and_says_why() {
    let mut watch = StreamWatch::new(2);
    let failure = || finished(command("sed x", Some(1), CommandExecutionStatus::Completed));
    let thought = finished(ThreadItemDetails::Reasoning {
        text: String::new(),
    });
    assert!(!watch.note(&failure()));
    assert!(!watch.note(&thought));
    assert!(watch.note(&failure()));
    assert!(!watch.note(&failure()));
    assert_eq!(
        watch.tripped().as_deref(),
        Some("熔断（#6）：同签名工具连续失败 2 次（sed），已中止任务")
    );
    assert!(watch.acted());
}

#[test]
fn a_watch_keeps_the_last_lines_of_diagnostics() {
    let mut watch = StreamWatch::new(5);
    for i in 0..11 {
        watch.note(&ExecutorEvent::StderrLine(format!("line {i}")));
    }
    let tail: Vec<String> = watch.stderr_tail().iter().cloned().collect();
    let expected: Vec<String> = (3..11).map(|i| format!("line {i}")).collect();
    assert_eq!(tail, expected);
    assert!(!watch.acted());
}

#[test]
fn retries_need_a_transient_failure_and_no_side_effects() {
    let lost = || TaskExit {
        exit_code: Some(1),
        fatal_error: Some("stream disconnected".to_string()),
        ..Default::default()
    };
    let calm = StreamWatch::new(5);
    assert!(should_retry(&lost(), &calm, 0));
    assert!(should_retry(&lost(), &calm, 1));
    assert!(!should_retry(&lost(), &calm, 2));
    let mut acted = StreamWatch::new(5);
    acted.note(&ExecutorEvent::Parsed(ThreadEvent::ItemStarted {
        item: command("ls", None, CommandExecutionStatus::InProgress),
    }));
    assert!(!should_retry(&lost(), &acted, 0));
    let stopped = TaskExit {
        interrupted: true,
        ..lost()
    };
    assert!(!should_retry(&stopped, &calm, 0));
    let late = TaskExit {
        timed_out: true,
        ..lost()
    };
    assert!(!should_retry(&late, &calm, 0));
    let other = TaskExit {
        exit_code: Some(1),
        ..Default::default()
    };
    assert!(!should_retry(&other, &calm, 0));
}

#[test]
fn endings_are_ranked() {
    let mut tripped = StreamWatch::new(1);
    tripped.note(&finished(command("x", Some(1), CommandExecutionStatus::Failed)));
    let stopped = TaskExit {
        interrupted: true,
        timed_out: true,
        fatal_error: Some("fatal".to_string()),
        turn_failed: Some("turn".to_string()),
        ..Default::default()
    };
    assert!(matches!(
        ending_of(&stopped, &tripped),
        Ending::Failed { error } if error.starts_with("熔断")
    ));
    let mut calm = StreamWatch::new(5);
    assert!(matches!(ending_of(&stopped, &calm), Ending::Interrupted));
    let late = TaskExit {
        interrupted: false,
        ..stopped
    };
    assert!(matches!(
        ending_of(&late, &calm),
        Ending::Failed { error } if error == "任务级硬超时触发，进程组已终止（#9）"
    ));
    let fatal = TaskExit {
        timed_out: false,
        ..late
    };
    assert!(matches!(
        ending_of(&fatal, &calm),
        Ending::Failed { error } if error == "fatal"
    ));
    let turn = TaskExit {
        fatal_error: None,
        ..fatal
    };
    assert!(matches!(
        ending_of(&turn, &calm),
        Ending::Failed { error } if error == "turn"
    ));
    let silent = TaskExit {
        turn_failed: None,
        ..turn
    };
    assert!(matches!(
        ending_of(&silent, &calm),
        Ending::Failed { error } if error == "codex exec 退出码 None"
    ));
    calm.note(&ExecutorEvent::StderrLine("x".repeat(201)));
    let code = TaskExit {
        exit_code: Some(3),
        ..silent
    };
    let expected = format!("codex exec 退出码 Some(3)；stderr 尾行：{}…", "x".repeat(200));
    assert!(matches!(
        ending_of(&code, &calm),
        Ending::Failed { error } if error == expected
    ));
    let clean = TaskExit {
        exit_code: Some(0),
        ..code
    };
    assert!(matches!(ending_of(&clean, &calm), Ending::SelfReported));
}

#[test]
fn branches_are_kept_only_for_review() {
    let failed = Ending::Failed {
        error: String::new(),
    };
    assert_eq!(reclaim_mode(&failed, true), ReclaimMode::KeepBranch);
    assert_eq!(reclaim_mode(&failed, false), ReclaimMode::DeleteBranch);
    assert_eq!(
        reclaim_mode(&Ending::Interrupted, true),
        ReclaimMode::DeleteBranch
    );
    assert_eq!(
        reclaim_mode(&Ending::SelfReported, true),
        ReclaimMode::KeepBranch
    );
}

#[test]
fn the_exit_code_of_the_judge_decides() {
    let judge = JudgeSpec {
        command: "cargo test | tee log".to_string(),
    };
    assert_eq!(
        judge_script(&judge),
        "set -o pipefail; cargo test | tee log"
    );
    let failed = |exit_code: i32| JudgeOutcome::Failed { exit_code };
    assert_eq!(judged(JudgeRun::Exited { code: Some(0) }), JudgeOutcome::Passed);
    assert_eq!(judged(JudgeRun::Exited { code: Some(2) }), failed(2));
    assert_eq!(judged(JudgeRun::Exited { code: None }), failed(-1));
    assert_eq!(judged(JudgeRun::NotStarted), failed(127));
    assert_eq!(judged(JudgeRun::Lost), failed(-1));
    assert_eq!(judged(JudgeRun::TimedOut), failed(124));
}

#[test]
fn transient_failures_are_found_line_by_line() {
    let exit = TaskExit::default();
    let tail = |lines: &[&str]| lines.iter().map(|line| line.to_string()).collect();
    assert!(!is_transient(&exit, &tail(&["connection", "refused"])));
    assert!(is_transient(&exit, &tail(&["fine", "Connection Reset by peer"])));
    let split = TaskExit {
        fatal_error: Some("timed".to_string()),
        turn_failed: Some("out".to_string()),
        ..Default::default()
    };
    assert!(!is_transient(&split, &tail(&[])));
    let joined = ["no route", "to host", "TIMEOUT"].join("\n").to_lowercase();
    assert!(codex_supervisor::acceptance::tells_of_transient_failure(&joined));
}
