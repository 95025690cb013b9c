use codex_supervisor::events::{
    CommandExecutionStatus, McpToolCallStatus, PatchApplyStatus, ThreadEvent, ThreadItemDetails,
    Usage,
};
use codex_supervisor::observe::{snippet, summarize_event, summarize_item, summarize_line, tail_summarized};
use serde_json::Value;

fn text_of(value: &Value, key: &str) -> Option<String> {
    value.get(key)?.as_str().map(str::to_string)
}

fn item_of(value: &Value) -> Option<ThreadItemDetails> {
    match value.get("type")?.as_str()? {
        "agent_message" => Some(ThreadItemDetails::AgentMessage {
            text: text_of(value, "text")?,
        }),
        "command_execution" => Some(ThreadItemDetails::CommandExecution {
            command: text_of(value, "command")?,
            exit_code: value.get("exit_code")?.as_i64().map(|code| code as i32),
            status: match value.get("status")?.as_str()? {
                "in_progress" => CommandExecutionStatus::InProgress,
                "completed" => CommandExecutionStatus::Completed,
                "failed" => CommandExecutionStatus::Failed,
                _ => return None,
            },
        }),
        _ => None,
    }
}

fn read(line: &str) -> Option<ThreadEvent> {
    let value: Value = serde_json::from_str(line).ok()?;
    match value.get("type")?.as_str()? {
        "thread.started" => Some(ThreadEvent::ThreadStarted {
            thread_id: text_of(&value, "thread_id")?,
        }),
        "item.completed" => Some(ThreadEvent::ItemCompleted {
            item: item_of(value.get("item")?)?,
        }),
        "turn.completed" => {
            let usage = value.get("usage")?;
            let count = |key: &str| usage.get(key).and_then(Value::as_i64);
            Some(ThreadEvent::TurnCompleted {
                usage: Usage {
                    input_tokens: count("input_tokens")?,
                    cached_input_tokens: count("cached_input_tokens")?,
                    output_tokens: count("output_tokens")?,
                    reasoning_output_tokens: count("reasoning_output_tokens")?,
                },
            })
        }
        _ => None,
    }
}

#[test]
fn summarizes_core_events_one_line_each() {
    let lines = [
        r#"{"type":"thread.started","thread_id":"t-9"}"#,
        r#"{"type":"item.completed","item":{"id":"i1","type":"command_execution","command":"cargo test","aggregated_output":"...","exit_code":101,"status":"failed"}}"#,
        r#"{"type":"item.completed","item":{"id":"i2","type":"agent_message","text":"修好了"}}"#,
        r#"{"type":"turn.completed","usage":{"input_tokens":10,"cached_input_tokens":5,"output_tokens":3,"reasoning_output_tokens":0}}"#,
        "raw garbage",
    ];
    let summaries: Vec<String> = lines
        .iter()
        .map(|l| summarize_line(l, &read(l)))
        .collect();
    assert_eq!(summaries[0], "▶ thread t-9");
    assert_eq!(summaries[1], "✓ $ cargo test → exit 101");
    assert_eq!(summaries[2], "✓ agent: 修好了");
    assert_eq!(summaries[3], "✓ turn completed (in 10 / cached 5 / out 3)");
    assert_eq!(summaries[4], "⚠ unparsed: raw garbage");
    for s in &summaries {
        assert!(!s.contains("aggregated_output"), "raw payload must not leak");
    }
}

#[test]
fn tail_reads_last_n_lines_and_missing_file_is_empty() {
    assert_eq!(tail_summarized(None, 5, read), Vec::<String>::new());

    let mut body = String::new();
    for i in 0..10 {
        body.push_str(&format!(
            "{{\"type\":\"thread.started\",\"thread_id\":\"t-{i}\"}}\n"
        ));
    }
    let tail = tail_summarized(Some(&body), 3, read);
    assert_eq!(tail, vec!["▶ thread t-7", "▶ thread t-8", "▶ thread t-9"]);
}

#[test]
fn snippet_is_multibyte_safe() {
    assert_eq!(snippet("深bug修复完成", 3), "深bu…");
    assert_eq!(snippet("short", 100), "short");
}

#[test]
fn a_tail_takes_what_there_is() {
    assert_eq!(
        tail_summarized(Some("a\r\nb\n\nc"), 10, |_: &str| None),
        vec![
            "⚠ unparsed: a",
            "⚠ unparsed: b",
            "⚠ unparsed: ",
            "⚠ unparsed: c"
        ]
    );
    assert!(tail_summarized(Some(""), 10, |_: &str| None).is_empty());
    assert!(tail_summarized(Some("a\n"), 0, |_: &str| None).is_empty());
}

#[test]
fn every_event_has_its_line() {
    let message = || "m".to_string();
    assert_eq!(summarize_event(&ThreadEvent::TurnStarted), "· turn started");
    assert_eq!(
        summarize_event(&ThreadEvent::TurnFailed { message: message() }),
        "✗ turn failed: m"
    );
    assert_eq!(
        summarize_event(&ThreadEvent::Error { message: message() }),
        "‼ stream error: m"
    );
    let todo = || ThreadItemDetails::TodoList { items: 3 };
    assert_eq!(
        summarize_event(&ThreadEvent::ItemStarted { item: todo() }),
        "… todo list (3 items)"
    );
    assert_eq!(
        summarize_event(&ThreadEvent::ItemUpdated { item: todo() }),
        "↻ todo list (3 items)"
    );
}

#[test]
fn every_item_has_its_line() {
    let command = |exit_code: Option<i32>, status: CommandExecutionStatus| {
        summarize_item(&ThreadItemDetails::CommandExecution {
            command: "ls".to_string(),
            exit_code,
            status,
        })
    };
    assert_eq!(
        command(Some(0), CommandExecutionStatus::InProgress),
        "$ ls → …"
    );
    assert_eq!(
        command(Some(-9), CommandExecutionStatus::Failed),
        "$ ls → exit -9"
    );
    assert_eq!(
        command(None, CommandExecutionStatus::Completed),
        "$ ls → completed"
    );
    assert_eq!(command(None, CommandExecutionStatus::Failed), "$ ls → failed");
    assert_eq!(
        command(None, CommandExecutionStatus::Declined),
        "$ ls → declined"
    );
    let patch = |names: &[&str], status: PatchApplyStatus| {
        summarize_item(&ThreadItemDetails::FileChange {
            paths: names.iter().map(|name| name.to_string()).collect(),
            status,
        })
    };
    assert_eq!(
        patch(&["a", "b", "c", "d"], PatchApplyStatus::Completed),
        "patch [Completed] 4 file(s): a, b, c, …"
    );
    assert_eq!(
        patch(&["a"], PatchApplyStatus::Failed),
        "patch [Failed] 1 file(s): a"
    );
    assert_eq!(
        patch(&[], PatchApplyStatus::InProgress),
        "patch [InProgress] 0 file(s): "
    );
    assert_eq!(
        summarize_item(&ThreadItemDetails::McpToolCall {
            server: "s".to_string(),
            tool: "t".to_string(),
            status: McpToolCallStatus::Failed,
        }),
        "mcp s::t [Failed]"
    );
    assert_eq!(
        summarize_item(&ThreadItemDetails::Reasoning {
            text: "深思".to_string()
        }),
        "thinking (2 chars)"
    );
    assert_eq!(
        summarize_item(&ThreadItemDetails::WebSearch {
            query: "x".repeat(90)
        }),
        format!("web search: {}…", "x".repeat(80))
    );
    assert_eq!(
        summarize_item(&ThreadItemDetails::Error {
            message: "e".to_string()
        }),
        "item error: e"
    );
    assert_eq!(
        summarize_item(&ThreadItemDetails::Other {
            kind: Some("collab_tool_call".to_string())
        }),
        "collab_tool_call"
    );
    assert_eq!(
        summarize_item(&ThreadItemDetails::Other { kind: None }),
        "unknown item"
    );
}

#[test]
fn what_is_shown_is_bounded() {
    let long = "长".repeat(500);
    assert_eq!(
        summarize_line(&long, &None),
        format!("⚠ unparsed: {}…", "长".repeat(120))
    );
}

#[test]
fn one_line_of_the_stream_is_one_line_shown() {
    let text = || "first\nsecond\n".to_string();
    let shown = |item: ThreadItemDetails| {
        summarize_line("{}", &Some(ThreadEvent::ItemCompleted { item }))
    };
    assert_eq!(
        shown(ThreadItemDetails::AgentMessage { text: text() }),
        "✓ agent: first second "
    );
    assert_eq!(
        shown(ThreadItemDetails::CommandExecution {
            command: "cat <<EOF\nx\nEOF".to_string(),
            exit_code: Some(0),
            status: CommandExecutionStatus::Completed,
        }),
        "✓ $ cat <<EOF x EOF → exit 0"
    );
    assert_eq!(
        shown(ThreadItemDetails::FileChange {
            paths: vec!["a\nb".to_string(), "c".to_string()],
            status: PatchApplyStatus::Completed,
        }),
        "✓ patch [Completed] 2 file(s): a b, c"
    );
    assert_eq!(
        shown(ThreadItemDetails::McpToolCall {
            server: "s\n".to_string(),
            tool: "\nt".to_string(),
            status: McpToolCallStatus::Completed,
        }),
        "✓ mcp s :: t [Completed]"
    );
    assert_eq!(
        shown(ThreadItemDetails::WebSearch { query: text() }),
        "✓ web search: first second "
    );
    assert_eq!(
        shown(ThreadItemDetails::Other { kind: Some(text()) }),
        "✓ first second "
    );
    for event in [
        ThreadEvent::ThreadStarted { thread_id: text() },
        ThreadEvent::TurnFailed { message: text() },
        ThreadEvent::Error { message: text() },
    ] {
        let line = summarize_event(&event);
        assert!(line.ends_with("first second "), "{line:?}");
    }
    assert_eq!(
        summarize_line(&text(), &None),
        "⚠ unparsed: first second "
    );
    let long = "x\n".repeat(200);
    assert_eq!(
        summarize_event(&ThreadEvent::Error { message: long }),
        format!("‼ stream error: {}…", "x ".repeat(60))
    );
}

#[test]
fn a_tail_has_as_many_lines_as_events() {
    let lines = tail_summarized(Some("a\nb\n"), 10, |_: &str| {
        Some(ThreadEvent::Error {
            message: "two\nlines".to_string(),
        })
    });
    let body = codex_supervisor::mcp::tail_body(&lines);
    assert_eq!(body.lines().count(), 2);
    assert_eq!(
        body,
        "‼ stream error: two lines\n‼ stream error: two lines"
    );
}
