use codex_supervisor::paths::{
    is_record_file, join_path, load_dir, lock_note, with_extension, DirEntry, DirListing,
    LockAttempt, LockError, LockStep, StoreError, SupervisorHome, LOCK_RETRIES,
};

#[test]
fn load_dir_reports_corrupt_files_without_failing() {
    let sup = SupervisorHome::new("/h".to_string());
    let dir = sup.tasks_dir();
    let read = |name: &str, raw: &str| DirEntry::File {
        name: name.to_string(),
        content: serde_json::from_str::<serde_json::Value>(raw)
            .ok()
            .and_then(|value| value.get("x").and_then(|x| x.as_u64()))
            .ok_or(StoreError::Decode {
                path: join_path(&dir, name),
                detail: "no row".to_string(),
            }),
    };
    let found = DirListing::Entries(vec![
        read("good.json", "{\"x\": 1}"),
        read("bad.json", "not json"),
        read("ignored.txt", "whatever"),
    ]);
    let report = load_dir(&dir, found).expect("load");
    assert_eq!(report.records.len(), 1);
    assert_eq!(report.records[0], 1);
    assert_eq!(report.skipped.len(), 1);
}

#[test]
fn load_dir_on_missing_dir_is_empty() {
    let sup = SupervisorHome::new("/h".to_string());
    let report =
        load_dir::<serde_json::Value>(&sup.sessions_dir(), DirListing::Missing).expect("load");
    assert!(report.records.is_empty());
    assert!(report.skipped.is_empty());
}

#[test]
fn an_unreadable_directory_is_an_error() {
    let detail = || "denied".to_string();
    let unreadable: DirListing<u32> = DirListing::Unreadable { detail: detail() };
    let error = load_dir("/h/tasks", unreadable).expect_err("denied");
    assert_eq!(error.message(), "io error at /h/tasks");
    let broken: DirListing<u32> = DirListing::Entries(vec![
        DirEntry::File {
            name: "a.json".to_string(),
            content: Ok(1),
        },
        DirEntry::Broken { detail: detail() },
    ]);
    assert!(matches!(
        load_dir("/h/tasks", broken),
        Err(StoreError::Io { path, not_found: false, .. }) if path == "/h/tasks"
    ));
}

#[test]
fn only_json_files_are_records() {
    assert!(is_record_file("a.json"));
    assert!(is_record_file("a.b.json"));
    assert!(!is_record_file(".json"));
    assert!(!is_record_file("a.jsonl"));
    assert!(!is_record_file("json"));
}

#[test]
fn the_layout_of_the_state_directory() {
    let home = SupervisorHome::new("/home/me/.rdos".to_string());
    assert_eq!(home.codex_home(), "/home/me/.rdos");
    assert_eq!(home.state_root(), "/home/me/.rdos/supervisor");
    assert_eq!(home.tasks_dir(), "/home/me/.rdos/supervisor/tasks");
    assert_eq!(home.sessions_dir(), "/home/me/.rdos/supervisor/sessions");
    assert_eq!(home.events_dir(), "/home/me/.rdos/supervisor/events");
    assert_eq!(home.worktrees_dir(), "/home/me/.rdos/supervisor/worktrees");
    assert_eq!(home.models_path(), "/home/me/.rdos/supervisor.models.toml");
    assert_eq!(home.lock_path(), "/home/me/.rdos/supervisor/supervisor.lock");
    assert_eq!(
        home.ensure_layout(),
        vec![home.tasks_dir(), home.sessions_dir()]
    );
}

#[test]
fn singleton_lock_conflicts_within_process() {
    let sup = SupervisorHome::new("/h".to_string());
    let LockStep::Held(lock) = sup.acquire_singleton_lock(0, LockAttempt::Acquired) else {
        panic!("first lock");
    };
    assert!(matches!(
        sup.acquire_singleton_lock(LOCK_RETRIES, LockAttempt::WouldBlock),
        LockStep::Refused(LockError::AlreadyRunning { .. })
    ));
    drop(lock);
    assert!(matches!(
        sup.acquire_singleton_lock(0, LockAttempt::Acquired),
        LockStep::Held(_)
    ));
}

#[test]
fn the_lock_is_tried_again_before_it_counts_as_held() {
    let home = SupervisorHome::new("/h".to_string());
    for retries in 0..LOCK_RETRIES {
        assert!(matches!(
            home.acquire_singleton_lock(retries, LockAttempt::WouldBlock),
            LockStep::Retry { after_millis: 50 }
        ));
    }
    let LockStep::Refused(error) =
        home.acquire_singleton_lock(LOCK_RETRIES, LockAttempt::WouldBlock)
    else {
        panic!("a held lock is refused");
    };
    assert_eq!(
        error.message(),
        "another supervisor instance holds the lock at /h/supervisor/supervisor.lock"
    );
}

#[test]
fn the_lock_is_won_or_lost_at_once_otherwise() {
    let home = SupervisorHome::new("/h".to_string());
    let LockStep::Held(lock) = home.acquire_singleton_lock(3, LockAttempt::Acquired) else {
        panic!("an acquired lock is held");
    };
    assert_eq!(lock.path(), "/h/supervisor/supervisor.lock");
    let failed = LockAttempt::Failed {
        detail: "denied".to_string(),
    };
    let LockStep::Refused(error) = home.acquire_singleton_lock(0, failed) else {
        panic!("a failed attempt is refused");
    };
    assert!(matches!(&error, LockError::Io { detail } if detail == "denied"));
    assert_eq!(error.message(), "failed to acquire supervisor lock");
    assert_eq!(lock_note(42), "pid=42\n");
}

#[test]
fn store_errors_in_words() {
    let encode = StoreError::Encode {
        path: "/r.json".to_string(),
        detail: String::new(),
    };
    assert_eq!(encode.message(), "failed to encode record for /r.json");
}

#[test]
fn paths_are_joined_as_the_system_joins_them() {
    for (base, leaf) in [
        ("", "a"),
        ("/", "a"),
        ("/x", "a"),
        ("/x/", "a"),
        ("/x", "/a"),
        ("x", ""),
    ] {
        let expected = std::path::Path::new(base).join(leaf);
        assert_eq!(join_path(base, leaf), expected.to_str().expect("utf-8"));
    }
}

#[test]
fn extensions_are_replaced_as_the_system_replaces_them() {
    for path in [
        "/e/abc.jsonl",
        "/e/abc",
        "/e/.abc",
        "/e/a.b.c",
        "abc.",
        "/e/x.y/",
        "/e/x.y/.",
        "..",
        ".",
        "/",
        "",
        "/e/..",
        "a..b",
    ] {
        for extension in ["stderr.log", "a2.jsonl", ""] {
            let expected = std::path::Path::new(path).with_extension(extension);
            assert_eq!(
                with_extension(path, extension),
                expected.to_str().expect("utf-8"),
                "{path} {extension}"
            );
        }
    }
}
