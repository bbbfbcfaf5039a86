use my_sync::clock::Timestamp;
use my_sync::digest::digest_of;
use my_sync::engine::{
    decide_basic_sync, decide_sync, plan_conflict_resolution, plan_sync, resolve_conflict_state,
    SyncAction, SyncKind,
};
use my_sync::models::{default_runtime_state, ConflictStrategy, FileMapping, FileRuntimeState};
use my_sync::run::{current_state, start_sync_run};
use my_sync::states::{file_states_from_pairs, FileStates};

fn digest(bytes: &[u8]) -> String {
    digest_of(&Some(bytes.to_vec())).unwrap()
}

fn some(s: &str) -> Option<String> {
    Some(s.to_string())
}

fn synced_before(hash: &str) -> FileRuntimeState {
    let mut st = default_runtime_state();
    st.status = "synced".to_string();
    st.last_synced_hash = some(hash);
    st.last_sync_at = some("2024-01-01T00:00:00+00:00");
    st
}

fn mapping_named(id: &str, name: &str) -> FileMapping {
    FileMapping {
        id: id.to_string(),
        name: name.to_string(),
        local_path: format!("/data/{id}.md"),
        remote_path: format!("{id}.md"),
        path_template: String::new(),
        binding_status: String::new(),
    }
}

#[test]
fn equal_copies_are_synced() {
    let p = decide_sync(default_runtime_state(), ConflictStrategy::Manual, some("h"), some("h"), false, "now".to_string());
    assert_eq!(p.action, SyncAction::Nothing);
    assert_eq!(p.kind, SyncKind::Synced);
    assert_eq!(p.state.status, "synced");
    assert_eq!(p.state.detail, "本地与远端一致");
    assert_eq!(p.state.last_synced_hash, some("h"));
    assert_eq!(p.state.last_sync_at, some("now"));
    assert_eq!(p.state.last_conflict_signature, None);
    assert_eq!(p.message, "本地与远端一致");
}

#[test]
fn one_sided_copies_are_transferred() {
    let up = decide_sync(default_runtime_state(), ConflictStrategy::Manual, some("l"), None, false, "now".to_string());
    assert_eq!(up.action, SyncAction::UploadLocal);
    assert_eq!(up.kind, SyncKind::Pushed);
    assert_eq!(up.state.detail, "已将本地变更上传到远端");
    assert_eq!(up.message, "远端不存在文件，已上传本地版本");
    assert_eq!(up.state.last_synced_hash, some("l"));

    let down = decide_sync(default_runtime_state(), ConflictStrategy::Manual, None, some("r"), false, "now".to_string());
    assert_eq!(down.action, SyncAction::WriteRemoteToLocal);
    assert_eq!(down.kind, SyncKind::Pulled);
    assert_eq!(down.state.detail, "已从远端恢复到本地");
    assert_eq!(down.message, "本地不存在文件，已从远端恢复");

    let none = decide_sync(synced_before("old"), ConflictStrategy::Manual, None, None, false, "now".to_string());
    assert_eq!(none.action, SyncAction::Nothing);
    assert_eq!(none.kind, SyncKind::Idle);
    assert_eq!(none.state.status, "idle");
    assert_eq!(none.state.detail, "本地和远端都不存在该文件");
    assert_eq!(none.state.last_synced_hash, some("old"));
    assert_eq!(none.message, "本地和远端都不存在该文件");
}

#[test]
fn one_changed_side_wins() {
    let pull = decide_sync(synced_before("a"), ConflictStrategy::Manual, some("a"), some("b"), false, "now".to_string());
    assert_eq!(pull.action, SyncAction::WriteRemoteToLocal);
    assert_eq!(pull.kind, SyncKind::Pulled);
    assert_eq!(pull.message, "检测到远端更新，已拉取到本地");
    assert_eq!(pull.state.last_synced_hash, some("b"));

    let push = decide_sync(synced_before("b"), ConflictStrategy::Manual, some("a"), some("b"), false, "now".to_string());
    assert_eq!(push.action, SyncAction::UploadLocal);
    assert_eq!(push.kind, SyncKind::Pushed);
    assert_eq!(push.message, "检测到本地更新，已推送到远端");
    assert_eq!(push.state.last_synced_hash, some("a"));
}

#[test]
fn both_changed_is_a_conflict() {
    let p = decide_sync(synced_before("o"), ConflictStrategy::Manual, some("l"), some("r"), true, "now".to_string());
    assert_eq!(p.action, SyncAction::WriteConflictCopy);
    assert_eq!(p.kind, SyncKind::Conflict);
    assert_eq!(p.state.status, "conflict");
    assert_eq!(p.state.detail, "本地和远端都发生了变化，已保留本地并生成远端冲突副本");
    assert_eq!(p.state.last_conflict_signature, some("l:r"));
    assert_eq!(p.state.last_synced_hash, some("o"));
    assert_eq!(p.state.last_sync_at, some("2024-01-01T00:00:00+00:00"));
    assert_eq!(p.message, "检测到冲突，已生成远端冲突副本");
}

#[test]
fn conflict_copy_is_written_once() {
    let mut first = decide_sync(synced_before("o"), ConflictStrategy::Manual, some("l"), some("r"), false, "t1".to_string());
    assert_eq!(first.action, SyncAction::WriteConflictCopy);
    first.record_conflict_copy("/data/a.remote-conflict-1.md".to_string());
    assert_eq!(first.state.last_conflict_path, some("/data/a.remote-conflict-1.md"));
    let again = decide_sync(first.state, ConflictStrategy::Manual, some("l"), some("r"), false, "t2".to_string());
    assert_eq!(again.action, SyncAction::Nothing);
    assert_eq!(again.kind, SyncKind::Conflict);
    assert_eq!(again.state.last_conflict_signature, some("l:r"));
    assert_eq!(again.state.last_conflict_path, some("/data/a.remote-conflict-1.md"));
}

#[test]
fn strategies_settle_conflicts() {
    let local = decide_sync(synced_before("o"), ConflictStrategy::Local, some("l"), some("r"), false, "now".to_string());
    assert_eq!(local.action, SyncAction::UploadLocal);
    assert_eq!(local.kind, SyncKind::Resolved);
    assert_eq!(local.state.detail, "冲突已按本地版本解决");
    assert_eq!(local.state.last_synced_hash, some("l"));
    let remote = decide_sync(synced_before("o"), ConflictStrategy::Remote, some("l"), some("r"), false, "now".to_string());
    assert_eq!(remote.action, SyncAction::WriteRemoteToLocal);
    assert_eq!(remote.kind, SyncKind::Resolved);
    assert_eq!(remote.message, "冲突已按远端版本解决");
    assert_eq!(remote.state.last_synced_hash, some("r"));
    let direct = resolve_conflict_state(default_runtime_state(), "l".to_string(), "r".to_string(), ConflictStrategy::Manual, true, "now".to_string());
    assert_eq!(direct.state.detail, "首次同步发现本地和远端内容不同，已保留本地并写出远端冲突副本");
}

#[test]
fn first_sync_prefers_newer_remote() {
    let mut st = default_runtime_state();
    st.last_conflict_signature = some("x:y");
    let p = decide_sync(st.clone(), ConflictStrategy::Manual, some("l"), some("r"), true, "now".to_string());
    assert_eq!(p.action, SyncAction::WriteRemoteToLocal);
    assert_eq!(p.kind, SyncKind::Pulled);
    assert_eq!(p.state.detail, "首次同步时发现远端较新，已拉取到本地");
    assert_eq!(p.message, "首次同步发现远端较新，已拉取到本地");
    assert_eq!(p.state.last_conflict_signature, some("x:y"));
    let q = decide_sync(st, ConflictStrategy::Manual, some("l"), some("r"), false, "now".to_string());
    assert_eq!(q.kind, SyncKind::Conflict);
    assert_eq!(q.state.detail, "首次同步发现本地和远端内容不同，已保留本地并写出远端冲突副本");
}

#[test]
fn manual_strategy_never_overwrites_changes() {
    let cases = [
        (some("a"), some("b"), some("c"), false),
        (some("a"), some("b"), None, false),
        (some("a"), some("b"), some("a"), true),
        (some("a"), some("b"), some("b"), true),
    ];
    for (l, r, prev, newer) in cases {
        let mut st = default_runtime_state();
        st.last_synced_hash = prev.clone();
        let p = decide_sync(st, ConflictStrategy::Manual, l.clone(), r.clone(), newer, "now".to_string());
        if p.action == SyncAction::WriteRemoteToLocal {
            assert!(l == prev || (prev.is_none() && newer));
        }
        if p.action == SyncAction::UploadLocal {
            assert!(r == prev);
        }
    }
}

#[test]
fn success_reaches_a_fixpoint() {
    let p = decide_sync(synced_before("o"), ConflictStrategy::Manual, some("o"), some("n"), false, "t1".to_string());
    assert_eq!(p.kind, SyncKind::Pulled);
    let q = decide_sync(p.state.clone(), ConflictStrategy::Manual, some("n"), some("n"), false, "t2".to_string());
    assert_eq!(q.action, SyncAction::Nothing);
    assert_eq!(q.kind, SyncKind::Synced);
    assert_eq!(q.state.last_synced_hash, p.state.last_synced_hash);
}

#[test]
fn planning_from_bytes() {
    let local = Some(b"abc".to_vec());
    let p = plan_sync(default_runtime_state(), ConflictStrategy::Manual, &local, None, &local, None, "now".to_string());
    assert_eq!(p.kind, SyncKind::Synced);
    assert_eq!(p.state.last_synced_hash, Some(digest(b"abc")));
    let older = Some(Timestamp { secs: 10, nanos: 0 });
    let newer = Some(Timestamp { secs: 20, nanos: 0 });
    let remote = Some(b"xyz".to_vec());
    let q = plan_sync(default_runtime_state(), ConflictStrategy::Manual, &local, older, &remote, newer, "now".to_string());
    assert_eq!(q.kind, SyncKind::Pulled);
    assert_eq!(q.state.last_synced_hash, Some(digest(b"xyz")));
    let r = plan_sync(default_runtime_state(), ConflictStrategy::Manual, &local, newer, &remote, older, "now".to_string());
    assert_eq!(r.kind, SyncKind::Conflict);
    assert_eq!(r.state.last_conflict_signature, Some(format!("{}:{}", digest(b"abc"), digest(b"xyz"))));
}

#[test]
fn conflict_resolution_needs_both_copies() {
    let bytes = Some(b"abc".to_vec());
    let err = plan_conflict_resolution(default_runtime_state(), ConflictStrategy::Local, &None, &bytes, "now".to_string());
    assert_eq!(err.err(), some("本地文件不存在"));
    let err = plan_conflict_resolution(default_runtime_state(), ConflictStrategy::Local, &bytes, &None, "now".to_string());
    assert_eq!(err.err(), some("远端文件不存在"));
    let other = Some(b"xyz".to_vec());
    let ok = plan_conflict_resolution(default_runtime_state(), ConflictStrategy::Local, &bytes, &other, "now".to_string())
        .ok()
        .unwrap();
    assert_eq!(ok.action, SyncAction::UploadLocal);
    assert_eq!(ok.kind, SyncKind::Resolved);
    assert_eq!(ok.state.last_synced_hash, Some(digest(b"abc")));
}

#[test]
fn basic_sync_keeps_local_on_conflict() {
    let p = decide_basic_sync(synced_before("o"), some("l"), some("r"), false, "now".to_string());
    assert_eq!(p.kind, SyncKind::Conflict);
    assert_ne!(p.action, SyncAction::WriteRemoteToLocal);
    assert_ne!(p.action, SyncAction::UploadLocal);
}

#[test]
fn kinds_as_text() {
    assert_eq!(SyncKind::Idle.as_string(), "idle");
    assert_eq!(SyncKind::Resolved.as_string(), "resolved");
    assert_eq!(SyncKind::Conflict.as_string(), "conflict");
}

#[test]
fn file_states_as_a_map() {
    let mut states = FileStates::new();
    assert_eq!(states.len(), 0);
    states.insert("a".to_string(), synced_before("1"));
    states.insert("b".to_string(), default_runtime_state());
    states.insert("a".to_string(), synced_before("2"));
    assert_eq!(states.len(), 2);
    assert_eq!(states.get(&"a".to_string()).unwrap().last_synced_hash, some("2"));
    assert!(states.get(&"c".to_string()).is_none());
    assert_eq!(states.count_status("synced"), 1);
    assert_eq!(states.count_status("idle"), 1);
    let pairs = states.to_pairs();
    assert_eq!(pairs.len(), 2);
    let back = file_states_from_pairs(&pairs);
    assert_eq!(back.len(), 2);
    assert_eq!(back.get(&"a".to_string()).unwrap().last_synced_hash, some("2"));
    assert_eq!(current_state(&states, &"zzz".to_string()).detail, "尚未同步");
}

#[test]
fn a_run_counts_its_steps() {
    let m1 = mapping_named("m1", "One");
    let m2 = mapping_named("m2", "Two");
    let m3 = mapping_named("m3", "Three");
    let mut config = my_sync::models::AppConfig::default();
    config.mappings = vec![m1.clone(), m2.clone(), m3.clone()];
    let mut states = FileStates::new();
    states.insert("m3".to_string(), synced_before("h3"));
    let mut run = start_sync_run(&config, states);
    assert_eq!(run.logs.len(), 1);
    assert_eq!(run.logs[0].detail, "共 3 个映射待处理");
    assert_eq!(run.logs[0].action, "sync-run");
    assert_eq!(run.logs[0].summary, "开始同步");

    let p1 = decide_sync(run.state_of(&m1), ConflictStrategy::Manual, some("l"), None, false, "now".to_string());
    run.record_step(&m1, p1.state, p1.kind, &p1.message);
    let p2 = decide_sync(synced_before("o"), ConflictStrategy::Manual, some("l"), some("r"), false, "now".to_string());
    run.record_step(&m2, p2.state, p2.kind, &p2.message);
    run.record_failure(&m3, "boom".to_string());
    assert_eq!((run.success_count, run.conflict_count, run.error_count), (1, 1, 1));
    assert_eq!(run.logs[1].action, "pushed");
    assert_eq!(run.logs[1].level, "info");
    assert_eq!(run.logs[1].mapping_id, some("m1"));
    assert_eq!(run.logs[2].level, "warning");
    assert_eq!(run.logs[3].action, "mapping-error");
    assert_eq!(run.logs[3].detail, "boom");
    let failed = run.file_states.get(&"m3".to_string()).unwrap();
    assert_eq!(failed.status, "error");
    assert_eq!(failed.detail, "boom");
    assert_eq!(failed.last_synced_hash, some("h3"));

    let outcome = run.finish();
    assert_eq!(outcome.summary, "成功 1 项，冲突 1 项，错误 1 项");
    assert_eq!(outcome.logs.len(), 5);
    assert_eq!(outcome.logs[4].summary, "同步完成");
    assert_eq!(outcome.logs[4].detail, outcome.summary);
    assert_eq!(outcome.file_states.len(), 3);
}
