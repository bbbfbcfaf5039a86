use my_sync::config::{
    can_prepare_remote_root, generate_client_id, normalize_basic_config, normalize_config,
    normalize_config_with,
    parse_conflict_strategy, strategy_name_string,
};
use my_sync::listing::{browser_entries, ListingResponse};
use my_sync::models::{
    default_runtime_state, default_space_id, AppConfig, ConflictStrategy, FileMapping, SyncSettings,
    WebDavSettings,
};
use my_sync::ops::{
    check_overwrite, classify_fetch_status, conflict_file_name, error_status, mkcol_accepts,
    new_directory_path, overwrite_header, rename_target_path, require_remote_root,
    upload_target_path, validate_local_file_size, validate_standalone_file_size, FetchStatus,
};
use my_sync::paths::{directory_segments, parent_collection_segments, remote_root_segments};
use my_sync::readiness::{evaluate_readiness, LocalFileProbe};
use my_sync::states::FileStates;
use my_sync::urls::{collection_url, file_url};

fn mapping_of(id: &str, name: &str, local: &str, remote: &str) -> FileMapping {
    FileMapping {
        id: id.to_string(),
        name: name.to_string(),
        local_path: local.to_string(),
        remote_path: remote.to_string(),
        path_template: String::new(),
        binding_status: String::new(),
    }
}

fn dav_settings() -> WebDavSettings {
    WebDavSettings {
        base_url: "https://dav.example.com/remote.php/dav".to_string(),
        username: "alice".to_string(),
        password: "secret".to_string(),
        remote_dir: "my-sync".to_string(),
        space_id: "default".to_string(),
        device_id: "client-1".to_string(),
        device_name: "laptop".to_string(),
        sync_interval_secs: 30,
        auto_sync: true,
    }
}

fn config_with(mappings: Vec<FileMapping>) -> AppConfig {
    AppConfig { webdav: dav_settings(), sync: SyncSettings::default(), mappings }
}

fn strings(items: &[&str]) -> Vec<String> {
    items.iter().map(|s| s.to_string()).collect()
}

fn present(size: u64) -> LocalFileProbe {
    LocalFileProbe { exists: true, size: Some(size) }
}

#[test]
fn defaults() {
    let webdav = WebDavSettings::default();
    assert_eq!(webdav.remote_dir, "my-sync");
    assert_eq!(webdav.space_id, "default");
    assert_eq!(webdav.sync_interval_secs, 30);
    assert!(webdav.auto_sync);
    assert_eq!(default_space_id(), "default");
    let sync = SyncSettings::default();
    assert_eq!(sync.default_conflict_strategy, "manual");
    assert!(sync.fs_watch_enabled);
    assert_eq!(sync.debounce_delay_secs, 15);
    assert!(!sync.launch_on_boot);
    let state = default_runtime_state();
    assert_eq!(state.status, "idle");
    assert_eq!(state.detail, "尚未同步");
    assert_eq!(state.last_synced_hash, None);
    assert!(AppConfig::default().mappings.is_empty());
}

#[test]
fn strategies_parse() {
    assert_eq!(parse_conflict_strategy(" LOCAL "), ConflictStrategy::Local);
    assert_eq!(parse_conflict_strategy("Remote"), ConflictStrategy::Remote);
    assert_eq!(parse_conflict_strategy("manual"), ConflictStrategy::Manual);
    assert_eq!(parse_conflict_strategy("whatever"), ConflictStrategy::Manual);
    assert_eq!(parse_conflict_strategy(""), ConflictStrategy::Manual);
}

#[test]
fn strategy_names_round_trip() {
    for s in [ConflictStrategy::Local, ConflictStrategy::Remote, ConflictStrategy::Manual] {
        assert_eq!(parse_conflict_strategy(&strategy_name_string(s)), s);
    }
    assert_eq!(strategy_name_string(ConflictStrategy::Remote), "remote");
}

fn messy_config() -> AppConfig {
    let mut c = config_with(vec![
        mapping_of("  ", "dropped", "/x", "y"),
        mapping_of("m1", "  Notes ", " C:\\notes\\a.md ", " docs\\a.md "),
    ]);
    c.webdav.base_url = "  https://h.example  ".to_string();
    c.webdav.username = " bob ".to_string();
    c.webdav.device_id = "  ".to_string();
    c.webdav.remote_dir = "  ".to_string();
    c.webdav.sync_interval_secs = 5;
    c.sync.default_conflict_strategy = " Local ".to_string();
    c.sync.debounce_delay_secs = 100;
    c
}

#[test]
fn normalizing_a_configuration() {
    let c = normalize_config_with(messy_config(), "client-x".to_string());
    assert_eq!(c.webdav.base_url, "https://h.example");
    assert_eq!(c.webdav.username, "bob");
    assert_eq!(c.webdav.device_id, "client-x");
    assert_eq!(c.webdav.remote_dir, "my-sync");
    assert_eq!(c.webdav.sync_interval_secs, 10);
    assert_eq!(c.webdav.password, "secret");
    assert_eq!(c.sync.default_conflict_strategy, "local");
    assert_eq!(c.sync.debounce_delay_secs, 60);
    assert_eq!(c.mappings.len(), 1);
    assert_eq!(c.mappings[0].id, "m1");
    assert_eq!(c.mappings[0].name, "Notes");
    assert_eq!(c.mappings[0].local_path, "C:\\notes\\a.md");
    assert_eq!(c.mappings[0].remote_path, "docs/a.md");

    let mut d = config_with(vec![]);
    d.webdav.remote_dir = " a\\b ".to_string();
    d.webdav.device_id = " dev ".to_string();
    d.sync.debounce_delay_secs = 1;
    let d = normalize_config(d);
    assert_eq!(d.webdav.remote_dir, "a/b");
    assert_eq!(d.webdav.device_id, "dev");
    assert_eq!(d.sync.debounce_delay_secs, 3);
}

#[test]
fn normalizing_twice_changes_nothing() {
    let once = normalize_config_with(messy_config(), "client-x".to_string());
    let twice = normalize_config_with(once.clone(), "client-y".to_string());
    assert_eq!(twice.webdav.device_id, once.webdav.device_id);
    assert_eq!(twice.webdav.remote_dir, once.webdav.remote_dir);
    assert_eq!(twice.webdav.base_url, once.webdav.base_url);
    assert_eq!(twice.sync.default_conflict_strategy, once.sync.default_conflict_strategy);
    assert_eq!(twice.sync.debounce_delay_secs, once.sync.debounce_delay_secs);
    assert_eq!(twice.webdav.sync_interval_secs, once.webdav.sync_interval_secs);
    assert_eq!(twice.mappings.len(), once.mappings.len());
    assert_eq!(twice.mappings[0].remote_path, once.mappings[0].remote_path);
    assert_eq!(twice.mappings[0].name, once.mappings[0].name);
}

#[test]
fn fresh_device_ids() {
    let id = generate_client_id();
    assert!(id.starts_with("client-"));
    assert_eq!(id.len(), 21);
    assert!(id["client-".len()..].chars().all(|c| c.is_ascii_digit()));
    let c = normalize_config(messy_config());
    assert!(c.webdav.device_id.starts_with("client-"));
    assert!(can_prepare_remote_root(&c));
    let again = normalize_config(c.clone());
    assert_eq!(again.webdav.device_id, c.webdav.device_id);
    assert_eq!(again.webdav.remote_dir, c.webdav.remote_dir);
    let mut blank_user = messy_config();
    blank_user.webdav.username = "  ".to_string();
    assert!(!can_prepare_remote_root(&normalize_config(blank_user)));
}

#[test]
fn remote_root_preparation() {
    assert!(can_prepare_remote_root(&config_with(vec![])));
    assert_eq!(require_remote_root(&config_with(vec![])), Ok(()));
    let mut c = config_with(vec![]);
    c.webdav.username = String::new();
    assert!(!can_prepare_remote_root(&c));
    assert_eq!(require_remote_root(&c), Err("请先完成 WebDAV 设置".to_string()));
}

#[test]
fn remote_segments_of_settings() {
    let s = dav_settings();
    assert_eq!(remote_root_segments(&s), strings(&["my-sync", "client-1"]));
    assert_eq!(parent_collection_segments(&s, "notes/2024/a.md"), strings(&["my-sync", "client-1", "notes", "2024"]));
    assert_eq!(parent_collection_segments(&s, "a.md"), strings(&["my-sync", "client-1"]));
    assert_eq!(directory_segments(&s, "x/y"), strings(&["my-sync", "client-1", "x", "y"]));
}

#[test]
fn file_and_collection_urls() {
    let s = dav_settings();
    assert_eq!(
        file_url(&s, "notes/a b.txt"),
        Ok("https://dav.example.com/remote.php/dav/my-sync/client-1/notes/a%20b.txt".to_string())
    );
    assert_eq!(
        collection_url(&s, &strings(&["my-sync"])),
        Ok("https://dav.example.com/remote.php/dav/my-sync".to_string())
    );
}

#[test]
fn readiness_messages() {
    let states = FileStates::new();
    let mut c = config_with(vec![]);
    c.webdav.base_url = "  ".to_string();
    assert_eq!(evaluate_readiness(&c, &states, &vec![]), (false, "缺少 WebDAV 服务地址".to_string()));
    let mut c = config_with(vec![]);
    c.webdav.username = String::new();
    assert_eq!(evaluate_readiness(&c, &states, &vec![]), (false, "缺少 WebDAV 用户名".to_string()));
    let c = config_with(vec![]);
    assert_eq!(evaluate_readiness(&c, &states, &vec![]), (false, "还没有配置文件映射".to_string()));
    let c = config_with(vec![mapping_of("m1", "Notes", " ", "a.md")]);
    assert_eq!(evaluate_readiness(&c, &states, &vec![present(1)]), (false, "Notes 缺少本地路径".to_string()));
    let c = config_with(vec![mapping_of("m1", "Notes", "/a.md", "")]);
    assert_eq!(evaluate_readiness(&c, &states, &vec![present(1)]), (false, "Notes 缺少远端路径".to_string()));
    let c = config_with(vec![mapping_of("m1", "Notes", "/a.md", "a.md")]);
    let missing = LocalFileProbe { exists: false, size: None };
    assert_eq!(evaluate_readiness(&c, &states, &vec![missing]), (false, "Notes 的本地文件不存在".to_string()));
    assert_eq!(evaluate_readiness(&c, &states, &vec![present(2_000_000)]), (false, "Notes 超过 1MB 限制".to_string()));
    assert_eq!(
        evaluate_readiness(&c, &states, &vec![present(1_048_576)]),
        (true, "配置完整，本地文件有效，可开始同步".to_string())
    );
    let mut conflicted = FileStates::new();
    let mut st = default_runtime_state();
    st.status = "conflict".to_string();
    conflicted.insert("m1".to_string(), st);
    assert_eq!(evaluate_readiness(&c, &conflicted, &vec![present(1)]), (false, "有 1 个冲突待处理".to_string()));
}

#[test]
fn upload_and_directory_targets() {
    assert_eq!(upload_target_path("a.txt", &Some("/docs/".to_string())), "docs/a.txt");
    assert_eq!(upload_target_path("a.txt", &Some("  ".to_string())), "a.txt");
    assert_eq!(upload_target_path("a.txt", &None), "a.txt");
    assert_eq!(new_directory_path(&Some("docs".to_string()), " /new/ "), Ok("docs/new".to_string()));
    assert_eq!(new_directory_path(&None, "new"), Ok("new".to_string()));
    assert_eq!(new_directory_path(&None, " / "), Err("目录名称不能为空".to_string()));
}

#[test]
fn rename_targets() {
    assert_eq!(rename_target_path(&Some("docs".to_string()), "  b.txt "), Ok("docs/b.txt".to_string()));
    assert_eq!(rename_target_path(&Some("/docs/".to_string()), "b"), Ok("docs/b".to_string()));
    assert_eq!(rename_target_path(&Some("a\\b".to_string()), "c"), Ok("a/b/c".to_string()));
    assert_eq!(rename_target_path(&Some(String::new()), "b"), Ok("b".to_string()));
    assert_eq!(rename_target_path(&Some(".".to_string()), "b"), Ok("b".to_string()));
    assert_eq!(rename_target_path(&None, "b"), Ok("b".to_string()));
    assert_eq!(rename_target_path(&Some("docs".to_string()), "   "), Err("新名称不能为空".to_string()));
}

#[test]
fn overwrite_checks() {
    assert_eq!(check_overwrite(true, false), Err("远端已存在同名文件，请确认是否覆盖".to_string()));
    assert_eq!(check_overwrite(true, true), Ok(()));
    assert_eq!(check_overwrite(false, false), Ok(()));
    assert_eq!(overwrite_header(true), "T");
    assert_eq!(overwrite_header(false), "F");
}

#[test]
fn http_status_classes() {
    assert!(!error_status(399));
    assert!(error_status(400));
    assert!(error_status(599));
    assert!(!error_status(600));
    assert_eq!(classify_fetch_status(404), FetchStatus::Missing);
    assert_eq!(classify_fetch_status(500), FetchStatus::Failed);
    assert_eq!(classify_fetch_status(401), FetchStatus::Failed);
    assert_eq!(classify_fetch_status(200), FetchStatus::Found);
    assert_eq!(classify_fetch_status(304), FetchStatus::Found);
    assert!(mkcol_accepts(201, false));
    assert!(mkcol_accepts(405, false));
    assert!(mkcol_accepts(302, false));
    assert!(!mkcol_accepts(409, false));
    assert!(mkcol_accepts(409, true));
    assert!(!mkcol_accepts(403, true));
}

#[test]
fn size_limits() {
    assert!(validate_standalone_file_size("a", 1_048_576).is_ok());
    let err = validate_standalone_file_size("a", 1_048_577).unwrap_err();
    assert_eq!(err.display_name, "a");
    assert_eq!(err.size_bytes, 1_048_577);
    let unnamed = mapping_of("m", "", "/x/a.md", "a.md");
    assert_eq!(validate_local_file_size(&unnamed, Some(2_000_000)).unwrap_err().display_name, "/x/a.md");
    let named = mapping_of("m", "Notes", "/x/a.md", "a.md");
    assert_eq!(validate_local_file_size(&named, Some(2_000_000)).unwrap_err().display_name, "Notes");
    assert!(validate_local_file_size(&named, None).is_ok());
    assert!(validate_local_file_size(&named, Some(10)).is_ok());
}

#[test]
fn conflict_copy_names() {
    assert_eq!(
        conflict_file_name(&Some("notes".to_string()), &Some("md".to_string()), "20240101-000000"),
        "notes.remote-conflict-20240101-000000.md"
    );
    assert_eq!(conflict_file_name(&None, &Some(String::new()), "S"), "config.remote-conflict-S");
    assert_eq!(conflict_file_name(&Some("a".to_string()), &None, "S"), "a.remote-conflict-S");
}

fn response(href: &str, name: Option<&str>, length: Option<&str>, modified: Option<&str>, dir: bool) -> ListingResponse {
    ListingResponse {
        href: href.to_string(),
        display_name: name.map(str::to_string),
        content_length: length.map(str::to_string),
        last_modified: modified.map(str::to_string),
        is_collection: dir,
    }
}

#[test]
fn listing_entries() {
    let responses = vec![
        response("/dav/my-sync/client-1/", None, None, None, true),
        response("/dav/my-sync/client-1/b.txt", None, Some("12"), Some("Sun, 06 Nov 1994 08:49:37 GMT"), false),
        response("/dav/my-sync/client-1/sub/", Some("sub"), None, None, true),
        response("/dav/my-sync/client-1/sub/deep.txt", None, Some("1"), None, false),
        response("https://dav.example.com/dav/my-sync/client-1/a.txt", Some("  "), Some("x"), Some("bad"), false),
    ];
    let entries = browser_entries(&responses, "/dav/my-sync/client-1", "");
    let names: Vec<&str> = entries.iter().map(|e| e.name.as_str()).collect();
    assert_eq!(names, vec!["sub", "a.txt", "b.txt"]);
    assert!(entries[0].is_dir);
    assert_eq!(entries[0].path, "sub");
    assert_eq!(entries[1].size, None);
    assert_eq!(entries[1].modified_at, None);
    assert_eq!(entries[2].size, Some(12));
    assert_eq!(entries[2].modified_at, Some("1994-11-06T08:49:37+00:00".to_string()));
    let nested = browser_entries(&responses, "/dav/my-sync/client-1", "/docs/");
    assert_eq!(nested[0].path, "docs/sub");
    assert_eq!(nested[2].path, "docs/b.txt");
}

#[test]
fn basic_normalization() {
    let c = normalize_basic_config(messy_config());
    assert_eq!(c.webdav.base_url, "https://h.example");
    assert_eq!(c.webdav.username, "bob");
    assert_eq!(c.webdav.remote_dir, "configs");
    assert_eq!(c.webdav.sync_interval_secs, 10);
    assert_eq!(c.webdav.device_id, "  ");
    assert_eq!(c.sync.default_conflict_strategy, " Local ");
    assert_eq!(c.mappings.len(), 1);
    assert_eq!(c.mappings[0].remote_path, "docs/a.md");
    let again = normalize_basic_config(c.clone());
    assert_eq!(again.webdav.remote_dir, c.webdav.remote_dir);
    assert_eq!(again.mappings[0].name, c.mappings[0].name);
}
