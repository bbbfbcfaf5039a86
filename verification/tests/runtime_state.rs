use my_sync::clock::{last_run_due_at, run_due_checked, Timestamp};
use my_sync::logs::{append_logs, log_entry, log_entry_at, newest_first, LogEntryArgs, SyncLogEntry, MAX_LOG_ENTRIES};
use my_sync::models::{default_runtime_state, AppConfig, FileMapping, SyncSettings, WebDavSettings};
use my_sync::readiness::LocalFileProbe;
use my_sync::run::SyncOutcome;
use my_sync::runtime::{
    auto_sync_due_at, auto_sync_due_checked, runtime_snapshot, InMemoryState, PersistedStore,
    ResolveStart,
};
use my_sync::states::FileStates;
use my_sync::watch::{
    PendingChanges, collect_new_mapping_paths, debounce_due, distinct_directories, is_watched_path, watch_changes,
};

fn entry(local: &str, id: &str) -> FileMapping {
    FileMapping {
        id: id.to_string(),
        name: format!("name-{id}"),
        local_path: local.to_string(),
        remote_path: format!("{id}.md"),
        path_template: String::new(),
        binding_status: String::new(),
    }
}

fn app_config(mappings: Vec<FileMapping>) -> AppConfig {
    AppConfig {
        webdav: WebDavSettings {
            base_url: "https://dav.example.com/dav".to_string(),
            username: "alice".to_string(),
            password: "pw".to_string(),
            remote_dir: "my-sync".to_string(),
            space_id: "default".to_string(),
            device_id: "client-1".to_string(),
            device_name: "laptop".to_string(),
            sync_interval_secs: 30,
            auto_sync: true,
        },
        sync: SyncSettings::default(),
        mappings,
    }
}

fn state_of(mappings: Vec<FileMapping>, states: FileStates) -> InMemoryState {
    InMemoryState::from_persisted_with(
        PersistedStore { config: app_config(mappings), file_states: states, sync_logs: Vec::new() },
        "client-new".to_string(),
    )
}

fn plain(detail: &str) -> SyncLogEntry {
    log_entry_at(
        LogEntryArgs {
            mapping: None,
            level: "info",
            action: "test",
            summary: "s",
            detail,
            http_status: None,
            local_path: None,
            target_path: None,
        },
        1,
        "ts".to_string(),
    )
}

#[test]
fn log_entries_describe_their_arguments() {
    let m = entry("/data/a.md", "m1");
    let e = log_entry_at(
        LogEntryArgs {
            mapping: Some(&m),
            level: "warning",
            action: "resolve-conflict",
            summary: "冲突已处理",
            detail: "d",
            http_status: Some(207),
            local_path: None,
            target_path: Some("t".to_string()),
        },
        123,
        "2024-01-01T00:00:00+00:00".to_string(),
    );
    assert_eq!(e.id, "log-123");
    assert_eq!(e.timestamp, "2024-01-01T00:00:00+00:00");
    assert_eq!(e.level, "warning");
    assert_eq!(e.http_status, Some(207));
    assert_eq!(e.mapping_id, Some("m1".to_string()));
    assert_eq!(e.mapping_name, Some("name-m1".to_string()));
    assert_eq!(e.local_path, Some("/data/a.md".to_string()));
    assert_eq!(e.remote_path, Some("m1.md".to_string()));
    assert_eq!(e.target_path, Some("t".to_string()));
    let own = log_entry_at(
        LogEntryArgs {
            mapping: Some(&m),
            level: "info",
            action: "upload",
            summary: "s",
            detail: "d",
            http_status: None,
            local_path: Some("/other".to_string()),
            target_path: None,
        },
        -5,
        "ts".to_string(),
    );
    assert_eq!(own.id, "log--5");
    assert_eq!(own.local_path, Some("/other".to_string()));
    let now = log_entry(LogEntryArgs {
        mapping: None,
        level: "info",
        action: "a",
        summary: "s",
        detail: "d",
        http_status: None,
        local_path: None,
        target_path: None,
    });
    assert!(now.id.starts_with("log-"));
    let micros: i64 = now.id["log-".len()..].parse().unwrap();
    assert!(micros > 1_600_000_000_000_000);
    assert_eq!(now.mapping_id, None);
    assert_eq!(now.remote_path, None);
}

#[test]
fn log_keeps_the_newest_entries() {
    let mut log: Vec<SyncLogEntry> = (0..499).map(|i| plain(&i.to_string())).collect();
    append_logs(&mut log, vec![plain("a"), plain("b"), plain("c")]);
    assert_eq!(log.len(), MAX_LOG_ENTRIES);
    assert_eq!(log[0].detail, "2");
    assert_eq!(log[497].detail, "a");
    assert_eq!(log[499].detail, "c");
    let mut small = vec![plain("x")];
    append_logs(&mut small, vec![plain("y")]);
    assert_eq!(small.len(), 2);
    let reversed = newest_first(&small);
    assert_eq!(reversed[0].detail, "y");
    assert_eq!(reversed[1].detail, "x");
}

#[test]
fn snapshot_sorts_and_counts() {
    let mut states = FileStates::new();
    let mut conflict = default_runtime_state();
    conflict.status = "conflict".to_string();
    states.insert("a".to_string(), conflict);
    let mut error = default_runtime_state();
    error.status = "error".to_string();
    states.insert("c".to_string(), error);
    let state = state_of(vec![entry("/b.md", "b"), entry("/a.md", "a"), entry("/c.md", "c")], states);
    let probes = vec![LocalFileProbe { exists: true, size: Some(1) }; 3];
    let snap = runtime_snapshot(&state, &probes);
    let ids: Vec<&str> = snap.mappings.iter().map(|m| m.mapping_id.as_str()).collect();
    assert_eq!(ids, vec!["a", "b", "c"]);
    assert_eq!(snap.conflict_count, 1);
    assert_eq!(snap.error_count, 1);
    assert_eq!(snap.mappings[1].status, "idle");
    assert_eq!(snap.mappings[1].detail, "尚未同步");
    assert!(!snap.is_ready);
    assert_eq!(snap.readiness_detail, "有 1 个冲突待处理");
    assert_eq!(snap.last_summary, "尚未同步");
    assert_eq!(snap.last_run_at, None);
    assert!(!snap.is_syncing);
}

#[test]
fn restored_state_is_normalized() {
    let mut config = app_config(vec![entry(" /a.md ", "a")]);
    config.webdav.device_id = String::new();
    let state = InMemoryState::from_persisted_with(
        PersistedStore { config, file_states: FileStates::new(), sync_logs: vec![plain("kept")] },
        "client-new".to_string(),
    );
    assert_eq!(state.config.webdav.device_id, "client-new");
    assert_eq!(state.config.mappings[0].local_path, "/a.md");
    assert_eq!(state.sync_logs.len(), 1);
    assert_eq!(state.last_summary, "尚未同步");
    let persisted = state.to_persisted();
    assert_eq!(persisted.config.webdav.device_id, "client-new");
    assert_eq!(persisted.sync_logs[0].detail, "kept");
}

#[test]
fn one_run_at_a_time() {
    let mut state = state_of(vec![entry("/a.md", "a")], FileStates::new());
    let job = state.begin_sync();
    assert!(job.is_some());
    assert_eq!(job.unwrap().config.mappings.len(), 1);
    assert!(state.is_syncing);
    assert!(state.begin_sync().is_none());
    assert!(matches!(state.begin_resolve(&"a".to_string()), ResolveStart::Busy));
    state.finish_sync(Err("boom".to_string()), "t1".to_string());
    assert!(!state.is_syncing);
    assert_eq!(state.last_run_at, Some("t1".to_string()));
    assert_eq!(state.last_summary, "同步失败：boom");
    let last = state.sync_logs.last().unwrap();
    assert_eq!(last.level, "error");
    assert_eq!(last.summary, "同步任务失败");
    assert_eq!(last.detail, "boom");
}

#[test]
fn finished_run_is_taken_over() {
    let mut state = state_of(vec![entry("/a.md", "a")], FileStates::new());
    let _ = state.begin_sync();
    let mut states = FileStates::new();
    let mut st = default_runtime_state();
    st.status = "pushed".to_string();
    states.insert("a".to_string(), st);
    let outcome = SyncOutcome { file_states: states, summary: "成功 1 项，冲突 0 项，错误 0 项".to_string(), logs: vec![plain("x"), plain("y")] };
    state.finish_sync(Ok(outcome), "t2".to_string());
    assert_eq!(state.last_summary, "成功 1 项，冲突 0 项，错误 0 项");
    assert_eq!(state.file_states.get(&"a".to_string()).unwrap().status, "pushed");
    assert_eq!(state.sync_logs.len(), 2);
    assert!(!state.is_syncing);
}

#[test]
fn resolving_conflicts() {
    let m = entry("/a.md", "a");
    let mut state = state_of(vec![m.clone()], FileStates::new());
    match state.begin_resolve(&"a".to_string()) {
        ResolveStart::Ready { mapping, current, .. } => {
            assert_eq!(mapping.id, "a");
            assert_eq!(current.status, "idle");
        }
        _ => panic!("expected the mapping"),
    }
    let mut settled = default_runtime_state();
    settled.status = "resolved".to_string();
    state.finish_resolve(&m, Ok((settled, "冲突已按本地版本解决".to_string())), "t".to_string());
    assert!(!state.is_syncing);
    assert_eq!(state.last_summary, "冲突已按本地版本解决");
    assert_eq!(state.file_states.get(&"a".to_string()).unwrap().status, "resolved");
    let last = state.sync_logs.last().unwrap();
    assert_eq!((last.level.as_str(), last.action.as_str(), last.summary.as_str()), ("warning", "resolve-conflict", "冲突已处理"));

    let _ = state.begin_resolve(&"a".to_string());
    state.finish_resolve(&m, Err("远端文件不存在".to_string()), "t".to_string());
    assert_eq!(state.last_summary, "冲突处理失败：远端文件不存在");
    assert_eq!(state.sync_logs.last().unwrap().level, "error");

    assert!(matches!(state.begin_resolve(&"zzz".to_string()), ResolveStart::Missing));
    assert!(!state.is_syncing);
    assert!(state.begin_sync().is_some());
}

#[test]
fn pending_paths_are_queued_once() {
    let mut state = state_of(vec![entry("/a.md", "a")], FileStates::new());
    state.queue_pending_paths(&vec!["/x".to_string(), "/y".to_string(), "/x".to_string()]);
    state.queue_pending_paths(&vec!["/y".to_string(), "/z".to_string()]);
    assert_eq!(state.pending_sync_paths, vec!["/x".to_string(), "/y".to_string(), "/z".to_string()]);
    let taken = state.take_pending_paths();
    assert_eq!(taken.len(), 3);
    assert!(state.pending_sync_paths.is_empty());
}

#[test]
fn saving_a_config_queues_new_paths() {
    let mut state = state_of(vec![entry("/a.md", "a")], FileStates::new());
    let next = app_config(vec![entry("/a.md", "a"), entry(" /b.md ", "b")]);
    assert!(state.apply_saved_config(next));
    assert_eq!(state.config.mappings.len(), 2);
    assert_eq!(state.pending_sync_paths, vec!["/b.md".to_string()]);
    let same = app_config(vec![entry("/a.md", "a"), entry("/b.md", "b")]);
    assert!(!state.apply_saved_config(same));
    assert_eq!(state.pending_sync_paths.len(), 1);
}

#[test]
fn new_mapping_paths() {
    let previous = app_config(vec![entry("/a", "1"), entry("", "2")]);
    let current = app_config(vec![entry("/a", "1"), entry(" /b ", "2"), entry("\\c", "3"), entry("  ", "4")]);
    assert_eq!(collect_new_mapping_paths(&previous, &current), vec!["/b".to_string(), "/c".to_string()]);
    assert!(collect_new_mapping_paths(&current, &current).is_empty());
}

#[test]
fn watched_paths() {
    let config = app_config(vec![entry(" C:\\data\\notes.md ", "n")]);
    assert!(is_watched_path(&config, "C:/data/notes.md"));
    assert!(is_watched_path(&config, "C:\\data\\notes.md.tmp"));
    assert!(!is_watched_path(&config, "C:/data/notes.mdx"));
    assert!(!is_watched_path(&config, "C:/data/other.md"));
}

#[test]
fn watcher_directories() {
    let parents = vec![Some("/x".to_string()), None, Some("/y".to_string()), Some("/x".to_string())];
    assert_eq!(distinct_directories(&parents), vec!["/x".to_string(), "/y".to_string()]);
    let watched = vec!["/a".to_string(), "/b".to_string()];
    let desired = vec!["/b".to_string(), "/c".to_string()];
    assert_eq!(watch_changes(&watched, &desired), (vec!["/c".to_string()], vec!["/a".to_string()]));
}

#[test]
fn debounce_delays() {
    assert!(!debounce_due(0, 100, 5));
    assert!(!debounce_due(1, 2, 1));
    assert!(debounce_due(1, 3, 1));
    assert!(!debounce_due(1, 9, 10));
    assert!(debounce_due(1, 10, 10));
}

#[test]
fn periodic_runs() {
    let base = 1_704_067_200i64;
    let at = |secs: i64| Timestamp { secs, nanos: 0 };
    assert!(last_run_due_at(&None, 30, at(base)));
    assert!(last_run_due_at(&Some("not a time".to_string()), 30, at(base)));
    let last = Some("2024-01-01T00:00:00Z".to_string());
    assert!(!last_run_due_at(&last, 30, at(base + 29)));
    assert!(last_run_due_at(&last, 30, at(base + 30)));
    assert_eq!(run_due_checked(&last, 100_000_000_000_000_000, at(base)), None);
    assert_eq!(run_due_checked(&None, 100_000_000_000_000_000, at(base)), Some(true));

    let mut state = state_of(vec![entry("/a.md", "a")], FileStates::new());
    assert!(auto_sync_due_at(&state, at(base)));
    state.last_run_at = last.clone();
    assert!(!auto_sync_due_at(&state, at(base + 29)));
    assert_eq!(auto_sync_due_checked(&state, at(base + 30)), Some(true));
    state.config.webdav.auto_sync = false;
    assert_eq!(auto_sync_due_checked(&state, at(base + 30)), Some(false));
    state.config.webdav.auto_sync = true;
    state.config.webdav.sync_interval_secs = 100_000_000_000_000_000;
    assert_eq!(auto_sync_due_checked(&state, at(base + 30)), None);
}

#[test]
fn pending_changes_count_each_path_once() {
    let mut pending = PendingChanges::new();
    assert_eq!(pending.len(), 0);
    pending.add("/a".to_string());
    pending.add("/a".to_string());
    pending.add_all(vec!["/b".to_string(), "/a".to_string(), "/c".to_string()]);
    assert_eq!(pending.len(), 3);
    assert_eq!(pending.clear(), 3);
    assert_eq!(pending.len(), 0);
}

#[test]
fn log_entries_carry_the_time_of_their_id() {
    let e = log_entry(LogEntryArgs {
        mapping: None,
        level: "info",
        action: "a",
        summary: "s",
        detail: "d",
        http_status: None,
        local_path: None,
        target_path: None,
    });
    let micros: i64 = e.id["log-".len()..].parse().unwrap();
    let secs = micros.div_euclid(1_000_000);
    let at = |s: i64| Timestamp { secs: s, nanos: 0 };
    let stamp = Some(e.timestamp.clone());
    assert!(!last_run_due_at(&stamp, 30, at(secs + 29)));
    assert!(last_run_due_at(&stamp, 30, at(secs + 31)));
}
