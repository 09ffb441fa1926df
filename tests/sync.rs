use taskly::remote::{classify_put, known_revision, push_plan, remote_doc_for, remote_ready};
use taskly::settings::{normalize_url, valid_sync_url};
use taskly::{
    ChangeBatch, ChangeEntry, Database, PutOutcome, RemoteDoc, StartDecision, SyncManager,
    SyncSettings, SyncState, SyncStatus,
};

fn settings(mode: &str) -> SyncSettings {
    SyncSettings {
        sync_mode: mode.to_string(),
        sync_url: "localhost:5984".to_string(),
        sync_username: "u".to_string(),
        sync_password: "p".to_string(),
        sync_db_name: "tasks_db".to_string(),
    }
}

fn launched(d: StartDecision) -> u64 {
    match d {
        StartDecision::Launch { session, .. } => session,
        other => panic!("expected a launch, got {:?}", matches!(other, StartDecision::LocalOnly)),
    }
}

#[test]
fn new_engine_is_disabled_and_local() {
    let m = SyncManager::new();
    let s = m.get_state();
    assert_eq!(s.status, SyncStatus::Disabled);
    assert_eq!(s.last_synced, None);
    assert_eq!(s.error, None);
    assert_eq!(s.sync_mode.as_deref(), Some("local"));
    assert!(!m.is_running());
    let d = SyncState::default();
    assert_eq!(d.status, SyncStatus::Disabled);
}

#[test]
fn local_mode_disables_without_network() {
    let mut m = SyncManager::new();
    let d = m.start_sync(&settings("local"));
    assert!(matches!(d, StartDecision::LocalOnly));
    assert_eq!(m.get_state().status, SyncStatus::Disabled);
    assert_eq!(m.get_state().sync_mode.as_deref(), Some("local"));
    assert!(!m.is_running());
}

#[test]
fn second_start_while_running_is_a_no_op() {
    let mut m = SyncManager::new();
    let d = m.start_sync(&settings("selfhosted"));
    let s = match d {
        StartDecision::Launch { session, target } => {
            assert_eq!(target.db_url, "http://localhost:5984/tasks_db");
            assert_eq!(target.auth, Some(("u".to_string(), "p".to_string())));
            session
        }
        _ => panic!("expected a launch"),
    };
    assert_eq!(m.get_state().status, SyncStatus::Connecting);
    assert_eq!(m.get_state().sync_mode.as_deref(), Some("selfhosted"));
    assert!(matches!(m.start_sync(&settings("selfhosted")), StartDecision::AlreadyRunning));
    assert!(m.begin_cycle(s));
    assert!(!m.begin_cycle(s + 1));
}

#[test]
fn stop_then_start_runs_a_fresh_session() {
    let mut m = SyncManager::new();
    let first = launched(m.start_sync(&settings("cloud")));
    assert!(m.remote_checked(first, Ok(())));
    assert!(m.begin_cycle(first));
    assert!(m.finish_cycle(first, Ok(()), 1234));
    m.stop_sync();
    let s = m.get_state();
    assert_eq!(s.status, SyncStatus::Paused);
    assert_eq!(s.last_synced, Some(1234));
    assert!(!m.begin_cycle(first));
    let second = launched(m.start_sync(&settings("cloud")));
    assert_ne!(first, second);
    assert!(!m.begin_cycle(first));
    assert!(m.begin_cycle(second));
    assert_eq!(m.get_state().status, SyncStatus::Syncing);
}

#[test]
fn failed_remote_check_ends_session_and_allows_retry() {
    let mut m = SyncManager::new();
    let s = launched(m.start_sync(&settings("selfhosted")));
    assert!(!m.remote_checked(s, Err("Connection failed".to_string())));
    let st = m.get_state();
    assert_eq!(st.status, SyncStatus::Error);
    assert_eq!(st.error.as_deref(), Some("Connection failed"));
    assert!(!m.is_running());
    let again = launched(m.start_sync(&settings("selfhosted")));
    assert_ne!(s, again);
}

#[test]
fn cycle_outcomes() {
    let mut m = SyncManager::new();
    let s = launched(m.start_sync(&settings("selfhosted")));
    assert!(m.begin_cycle(s));
    assert!(m.finish_cycle(s, Ok(()), 50));
    assert_eq!(m.get_state().status, SyncStatus::Paused);
    assert_eq!(m.get_state().last_synced, Some(50));
    assert!(m.begin_cycle(s));
    assert_eq!(m.get_state().last_synced, Some(50));
    assert!(!m.finish_cycle(s, Err("Parse error".to_string()), 60));
    let st = m.get_state();
    assert_eq!(st.status, SyncStatus::Error);
    assert_eq!(st.error.as_deref(), Some("Parse error"));
    assert_eq!(st.last_synced, Some(50));
    assert!(m.is_running());
    assert!(m.begin_cycle(s));
    assert_eq!(m.get_state().error, None);
}

#[test]
fn stale_session_outcomes_are_ignored() {
    let mut m = SyncManager::new();
    let s = launched(m.start_sync(&settings("selfhosted")));
    m.stop_sync();
    assert!(!m.finish_cycle(s, Ok(()), 99));
    assert_eq!(m.get_state().status, SyncStatus::Paused);
    assert_eq!(m.get_state().last_synced, None);
    assert!(!m.remote_checked(s, Err("late".to_string())));
    assert_eq!(m.get_state().error, None);
}

#[test]
fn settings_defaults_and_mode() {
    let d = SyncSettings::default_settings();
    assert_eq!(d.sync_mode, "local");
    assert_eq!(d.sync_url, "localhost:5984");
    assert_eq!(d.sync_username, "admin");
    assert_eq!(d.sync_password, "admin");
    assert_eq!(d.sync_db_name, "tasks_db");
    assert!(!d.is_sync_enabled());
    assert!(settings("selfhosted").is_sync_enabled());
    assert!(settings("cloud").is_sync_enabled());
}

#[test]
fn url_normalization() {
    assert_eq!(normalize_url("example.com:5984"), "http://example.com:5984");
    assert_eq!(normalize_url("http://a"), "http://a");
    assert_eq!(normalize_url("https://a"), "https://a");
    assert_eq!(normalize_url("httpx://a"), "http://httpx://a");
    assert_eq!(normalize_url(""), "http://");
}

#[test]
fn target_without_full_credentials_has_no_auth() {
    let mut s = settings("cloud");
    s.sync_password = String::new();
    s.sync_url = "https://db.example".to_string();
    let t = s.remote_target();
    assert_eq!(t.db_url, "https://db.example/tasks_db");
    assert_eq!(t.auth, None);
}

#[test]
fn response_statuses() {
    assert!(remote_ready(201));
    assert!(remote_ready(412));
    assert!(!remote_ready(401));
    assert_eq!(classify_put(201), PutOutcome::Written);
    assert_eq!(classify_put(409), PutOutcome::Conflict);
    assert_eq!(classify_put(500), PutOutcome::Rejected);
    assert_eq!(known_revision(200, Some("4-x".to_string())).as_deref(), Some("4-x"));
    assert_eq!(known_revision(200, None).as_deref(), Some(""));
    assert_eq!(known_revision(404, Some("4-x".to_string())), None);
}

#[test]
fn pushed_document_mirrors_task() {
    let mut db = Database::new();
    let t = db.add_task_at("A".to_string(), None, Some("2024-01-02".to_string()), "a".to_string(), "s", 7).unwrap();
    let d = remote_doc_for(&t, Some("2-r".to_string()));
    assert_eq!(d.id, "a");
    assert_eq!(d.rev.as_deref(), Some("2-r"));
    assert_eq!(d.due_date.as_deref(), Some("2024-01-02"));
    assert_eq!(d.updated_at, 7);
    assert_eq!(d.deleted, None);
    db.delete_task_at("a", 8);
    let gone = &db.all_tasks()[0];
    assert_eq!(remote_doc_for(gone, None).deleted, Some(true));
}

#[test]
fn one_cycle_against_newer_remote_copy() {
    let mut db = Database::new();
    db.add_task_at("X".to_string(), None, None, "A".to_string(), "s", 100).unwrap();
    let mut m = SyncManager::new();
    let s = launched(m.start_sync(&settings("selfhosted")));
    assert!(m.remote_checked(s, Ok(())));
    assert!(m.begin_cycle(s));
    let remote_copy = RemoteDoc {
        id: "A".to_string(),
        rev: Some("8-r".to_string()),
        title: "Y".to_string(),
        description: None,
        completed: false,
        due_date: None,
        updated_at: 200,
        order: 1,
        deleted: None,
    };
    let local = db.all_tasks();
    assert!(push_plan(&local[0], 200, Some(remote_copy.clone())).is_none());
    let batch = ChangeBatch {
        results: vec![ChangeEntry { id: "A".to_string(), seq: "3".to_string(), doc: Some(remote_copy), deleted: None }],
        last_seq: "3".to_string(),
    };
    db.apply_change_batch_at(&batch, 250);
    assert!(m.finish_cycle(s, Ok(()), 250));
    let t = &db.get_all_tasks()[0];
    assert_eq!(t.title, "Y");
    assert_eq!(t.updated_at, 200);
    assert_eq!(m.get_state().status, SyncStatus::Paused);
}

#[test]
fn start_without_url_is_refused_and_changes_nothing() {
    let mut m = SyncManager::new();
    let mut s = settings("selfhosted");
    s.sync_url = String::new();
    assert!(matches!(m.start_sync(&s), StartDecision::InvalidUrl));
    assert_eq!(m.get_state().status, SyncStatus::Disabled);
    assert_eq!(m.get_state().sync_mode.as_deref(), Some("local"));
    assert!(!m.is_running());
    let first = launched(m.start_sync(&settings("selfhosted")));
    assert!(matches!(m.start_sync(&s), StartDecision::InvalidUrl));
    assert!(m.begin_cycle(first));
}

fn remote_copy(updated_at: i64, rev: Option<&str>) -> RemoteDoc {
    RemoteDoc {
        id: "a".to_string(),
        rev: rev.map(|r| r.to_string()),
        title: "R".to_string(),
        description: None,
        completed: true,
        due_date: None,
        updated_at,
        order: 9,
        deleted: None,
    }
}

#[test]
fn push_plan_skips_newer_remote_copy() {
    let mut db = Database::new();
    let t = db.add_task_at("L".to_string(), None, None, "a".to_string(), "s", 100).unwrap();
    assert!(push_plan(&t, 200, Some(remote_copy(101, Some("4-x")))).is_none());
    let same = push_plan(&t, 200, Some(remote_copy(100, Some("4-x")))).unwrap();
    assert_eq!(same.rev.as_deref(), Some("4-x"));
    assert_eq!(same.title, "L");
    assert_eq!(same.updated_at, 100);
    let older = push_plan(&t, 200, Some(remote_copy(50, None))).unwrap();
    assert_eq!(older.rev.as_deref(), Some(""));
    let absent = push_plan(&t, 404, None).unwrap();
    assert_eq!(absent.rev, None);
    assert_eq!(absent.order, 1);
}

#[test]
fn unusable_urls_are_refused() {
    for url in ["http://", "https://", "https:///db", "http://:5984", "local host:5984", "db\t.example", ""] {
        assert!(!valid_sync_url(url), "{url:?}");
        let mut m = SyncManager::new();
        let mut s = settings("cloud");
        s.sync_url = url.to_string();
        assert!(matches!(m.start_sync(&s), StartDecision::InvalidUrl));
        assert_eq!(m.get_state().status, SyncStatus::Disabled);
        assert!(!m.is_running());
    }
    for url in ["localhost:5984", "http://h", "https://db.example/x", "10.0.0.2"] {
        assert!(valid_sync_url(url), "{url:?}");
    }
}
