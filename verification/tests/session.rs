use codex_supervisor::clock::Timestamp;
use codex_supervisor::models::ProviderRef;
use codex_supervisor::paths::{DirEntry, DirListing, SupervisorHome};
use codex_supervisor::registry::TaskId;
use codex_supervisor::session::{
    ApprovalPolicy, ModelAffinity, OwnershipError, ReasoningEffort, SandboxMode, SessionId,
    SessionOwner, SessionRecord,
};

fn affinity() -> ModelAffinity {
    ModelAffinity {
        model: "nvidia/Qwen3.6-35B-A3B-NVFP4".to_string(),
        provider: ProviderRef {
            id: "rdos-vllm".to_string(),
            base_url: Some("http://192.168.3.1:8000/v1".to_string()),
            wire_api: Some("responses".to_string()),
        },
        reasoning: Some(ReasoningEffort::Low),
    }
}

fn sample() -> SessionRecord {
    SessionRecord::new(
        affinity(),
        SandboxMode::WorkspaceWrite,
        ApprovalPolicy::Never,
        "/tmp/worktree-a".to_string(),
    )
}

#[test]
fn lease_is_exclusive_and_idempotent_for_holder() {
    let mut record = sample();
    let a = TaskId::new();
    let b = TaskId::new();

    record.claim(a).expect("first claim");
    record.claim(a).expect("holder re-claim is idempotent");
    assert!(matches!(record.claim(b), Err(OwnershipError::Held { .. })));

    assert!(matches!(
        record.release(b),
        Err(OwnershipError::NotHolder { .. })
    ));
    record.release(a).expect("holder release");
    assert_eq!(record.owner, SessionOwner::Free);
    assert!(matches!(
        record.release(a),
        Err(OwnershipError::AlreadyFree { .. })
    ));
}

#[test]
fn claiming_and_releasing_touch_the_record_once() {
    let at = |text: &str| Timestamp {
        text: text.to_string(),
    };
    let id = SessionId { bits: 9 };
    let task = TaskId { bits: 1 };
    let mut record = SessionRecord::new_at(
        id,
        affinity(),
        SandboxMode::ReadOnly,
        ApprovalPolicy::OnRequest,
        "/w".to_string(),
        at("1"),
    );
    assert_eq!(record.rollout.conversation_id, None);
    record.claim_at(task, at("2")).expect("claim");
    assert_eq!(record.updated_at, at("2"));
    record.claim_at(task, at("3")).expect("claim again");
    assert_eq!(record.updated_at, at("2"));
    record.release_at(task, at("4")).expect("release");
    assert_eq!(record.updated_at, at("4"));
    assert_eq!(record.created_at, at("1"));
    record.touch_at(at("5"));
    assert_eq!(record.updated_at, at("5"));
}

#[test]
fn ownership_errors_in_words() {
    let mut record = sample();
    record.id = SessionId { bits: 0xa };
    let (a, b) = (TaskId { bits: 0xb }, TaskId { bits: 0xc });
    let id = |last: &str| format!("00000000-0000-0000-0000-00000000000{last}");
    assert_eq!(
        record.release(a).expect_err("free").message(),
        format!(
            "session {} is already free; task {} released nothing",
            id("a"),
            id("b")
        )
    );
    record.claim(a).expect("claim");
    assert_eq!(
        record.claim(b).expect_err("held").message(),
        format!(
            "session {} is held by task {}; task {} cannot claim it",
            id("a"),
            id("b"),
            id("c")
        )
    );
    assert_eq!(
        record.release(b).expect_err("not holder").message(),
        format!(
            "session {} is held by task {}; task {} cannot release it",
            id("a"),
            id("b"),
            id("c")
        )
    );
}

#[test]
fn sandboxes_have_command_line_names() {
    assert_eq!(SandboxMode::ReadOnly.cli_name(), "read-only");
    assert_eq!(SandboxMode::WorkspaceWrite.cli_name(), "workspace-write");
    assert_eq!(SandboxMode::DangerFullAccess.cli_name(), "danger-full-access");
}

#[test]
fn a_session_is_saved_under_its_identifier() {
    let mut record = sample();
    record.id = SessionId { bits: 2 };
    let home = SupervisorHome::new("/h/".to_string());
    assert_eq!(
        record.save(&home),
        "/h/supervisor/sessions/00000000-0000-0000-0000-000000000002.json"
    );
    assert_eq!(
        SessionId::from_str("00000000-0000-0000-0000-000000000002"),
        Ok(record.id)
    );
    let report = SessionRecord::load_all(&home, DirListing::Missing).expect("load");
    assert!(report.records.is_empty() && report.skipped.is_empty());
}

#[test]
fn session_roundtrip_via_disk() {
    let home = SupervisorHome::new("/h".to_string());
    let mut record = sample();
    record.rollout.conversation_id = Some("019fc991-deadbeef".to_string());
    let path = record.save(&home);
    let name = path.rsplit('/').next().expect("name").to_string();
    let found = DirListing::Entries(vec![DirEntry::File {
        name,
        content: Ok(record.clone()),
    }]);
    let report = SessionRecord::load_all(&home, found).expect("load");
    assert!(report.skipped.is_empty());
    assert_eq!(report.records, vec![record]);
}

#[test]
fn instants_are_written_in_utc() {
    let now = Timestamp::now();
    assert!(now.text.ends_with("+00:00"), "{}", now.text);
    let millis = codex_supervisor::clock::now_rfc3339();
    assert!(millis.ends_with('Z') && millis.len() == 24, "{millis}");
}

#[test]
fn a_touched_session_carries_the_current_instant() {
    let mut record = sample();
    record.updated_at = Timestamp {
        text: "long ago".to_string(),
    };
    let before = chrono::Utc::now();
    let untouched = record.clone();
    record.touch();
    let after = chrono::Utc::now();
    let read = chrono::DateTime::parse_from_rfc3339(&record.updated_at.text).expect("RFC 3339");
    assert!(before <= read && read <= after);
    assert_eq!(read.to_rfc3339(), record.updated_at.text);
    record.updated_at = untouched.updated_at.clone();
    assert_eq!(record, untouched);
}

#[test]
fn audit_lines_carry_the_current_instant_to_the_millisecond() {
    let before = chrono::Utc::now().timestamp_millis();
    let written = codex_supervisor::clock::now_rfc3339();
    let after = chrono::Utc::now().timestamp_millis();
    let read = chrono::DateTime::parse_from_rfc3339(&written).expect("RFC 3339");
    assert!(before <= read.timestamp_millis() && read.timestamp_millis() <= after);
    assert_eq!(
        read.to_utc()
            .to_rfc3339_opts(chrono::SecondsFormat::Millis, true),
        written
    );
}

#[test]
fn claiming_and_releasing_refresh_the_time_of_change() {
    let mut record = sample();
    let long_ago = || Timestamp {
        text: "long ago".to_string(),
    };
    let a = TaskId::new();
    record.updated_at = long_ago();
    record.claim(a).expect("claim");
    assert!(chrono::DateTime::parse_from_rfc3339(&record.updated_at.text).is_ok());
    record.updated_at = long_ago();
    record.claim(a).expect("claim again");
    assert_eq!(record.updated_at, long_ago());
    record.release(a).expect("release");
    assert!(chrono::DateTime::parse_from_rfc3339(&record.updated_at.text).is_ok());
}
