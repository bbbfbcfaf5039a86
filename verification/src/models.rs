//! The synchroniser's data: configuration, per-file runtime state, and their views.
use vstd::prelude::*;

verus! {

/// The view of an optional string.
pub open spec fn opt_view(o: Option<String>) -> Option<Seq<char>> {
    match o {
        Some(s) => Some(s@),
        None => None,
    }
}

/// A copy of an optional string.
pub fn copy_opt(o: &Option<String>) -> (r: Option<String>)
    ensures
        opt_view(r) == opt_view(*o),
{
    match o {
        Some(s) => Some(s.clone()),
        None => None,
    }
}

/// The views of a sequence of strings.
pub open spec fn string_views(v: Seq<String>) -> Seq<Seq<char>> {
    v.map_values(|s: String| s@)
}

/// A copy of a vector of strings.
pub fn copy_strings(v: &Vec<String>) -> (r: Vec<String>)
    ensures
        string_views(r@) == string_views(v@),
{
    let mut r: Vec<String> = Vec::new();
    for i in 0..v.len()
        invariant
            r.len() == i,
            string_views(r@) == string_views(v@).take(i as int),
    {
        let x = v[i].clone();
        r.push(x);
        assert(r@[i as int]@ == v@[i as int]@);
        assert(string_views(r@) =~= string_views(v@).take(i + 1));
    }
    assert(string_views(v@).take(v.len() as int) =~= string_views(v@));
    r
}

/// One configured file: a local path kept in step with a remote path.
pub struct FileMapping {
    pub id: String,
    pub name: String,
    pub local_path: String,
    pub remote_path: String,
    pub path_template: String,
    pub binding_status: String,
}

pub struct FileMappingView {
    pub id: Seq<char>,
    pub name: Seq<char>,
    pub local_path: Seq<char>,
    pub remote_path: Seq<char>,
    pub path_template: Seq<char>,
    pub binding_status: Seq<char>,
}

impl View for FileMapping {
    type V = FileMappingView;

    open spec fn view(&self) -> FileMappingView {
        FileMappingView {
            id: self.id@,
            name: self.name@,
            local_path: self.local_path@,
            remote_path: self.remote_path@,
            path_template: self.path_template@,
            binding_status: self.binding_status@,
        }
    }
}

impl Clone for FileMapping {
    fn clone(&self) -> (r: Self)
        ensures
            r@ == self@,
    {
        FileMapping {
            id: self.id.clone(),
            name: self.name.clone(),
            local_path: self.local_path.clone(),
            remote_path: self.remote_path.clone(),
            path_template: self.path_template.clone(),
            binding_status: self.binding_status.clone(),
        }
    }
}

/// The views of a sequence of mappings.
pub open spec fn mapping_views(v: Seq<FileMapping>) -> Seq<FileMappingView> {
    v.map_values(|m: FileMapping| m@)
}

/// Connection settings of the WebDAV server.
pub struct WebDavSettings {
    pub base_url: String,
    pub username: String,
    pub password: String,
    pub remote_dir: String,
    pub space_id: String,
    pub device_id: String,
    pub device_name: String,
    pub sync_interval_secs: u64,
    pub auto_sync: bool,
}

pub struct WebDavSettingsView {
    pub base_url: Seq<char>,
    pub username: Seq<char>,
    pub password: Seq<char>,
    pub remote_dir: Seq<char>,
    pub space_id: Seq<char>,
    pub device_id: Seq<char>,
    pub device_name: Seq<char>,
    pub sync_interval_secs: u64,
    pub auto_sync: bool,
}

impl View for WebDavSettings {
    type V = WebDavSettingsView;

    open spec fn view(&self) -> WebDavSettingsView {
        WebDavSettingsView {
            base_url: self.base_url@,
            username: self.username@,
            password: self.password@,
            remote_dir: self.remote_dir@,
            space_id: self.space_id@,
            device_id: self.device_id@,
            device_name: self.device_name@,
            sync_interval_secs: self.sync_interval_secs,
            auto_sync: self.auto_sync,
        }
    }
}

impl Clone for WebDavSettings {
    fn clone(&self) -> (r: Self)
        ensures
            r@ == self@,
    {
        WebDavSettings {
            base_url: self.base_url.clone(),
            username: self.username.clone(),
            password: self.password.clone(),
            remote_dir: self.remote_dir.clone(),
            space_id: self.space_id.clone(),
            device_id: self.device_id.clone(),
            device_name: self.device_name.clone(),
            sync_interval_secs: self.sync_interval_secs,
            auto_sync: self.auto_sync,
        }
    }
}

/// The remote directory used when none is configured.
pub open spec fn default_remote_dir_spec() -> Seq<char> {
    "my-sync"@
}

/// The space identifier used when none is configured.
pub open spec fn default_space_id_spec() -> Seq<char> {
    "default"@
}

/// The space identifier used when none is configured.
pub fn default_space_id() -> (r: String)
    ensures
        r@ == default_space_id_spec(),
{
    String::from_str("default")
}

impl Default for WebDavSettings {
    fn default() -> (r: Self)
        ensures
            r@.base_url.len() == 0,
            r@.username.len() == 0,
            r@.password.len() == 0,
            r@.remote_dir == default_remote_dir_spec(),
            r@.space_id == default_space_id_spec(),
            r@.device_id.len() == 0,
            r@.device_name.len() == 0,
            r@.sync_interval_secs == 30,
            r@.auto_sync,
    {
        WebDavSettings {
            base_url: String::new(),
            username: String::new(),
            password: String::new(),
            remote_dir: String::from_str("my-sync"),
            space_id: default_space_id(),
            device_id: String::new(),
            device_name: String::new(),
            sync_interval_secs: 30,
            auto_sync: true,
        }
    }
}

/// Behaviour of the synchroniser itself.
pub struct SyncSettings {
    pub default_conflict_strategy: String,
    pub fs_watch_enabled: bool,
    pub debounce_delay_secs: u64,
    pub launch_on_boot: bool,
}

pub struct SyncSettingsView {
    pub default_conflict_strategy: Seq<char>,
    pub fs_watch_enabled: bool,
    pub debounce_delay_secs: u64,
    pub launch_on_boot: bool,
}

impl View for SyncSettings {
    type V = SyncSettingsView;

    open spec fn view(&self) -> SyncSettingsView {
        SyncSettingsView {
            default_conflict_strategy: self.default_conflict_strategy@,
            fs_watch_enabled: self.fs_watch_enabled,
            debounce_delay_secs: self.debounce_delay_secs,
            launch_on_boot: self.launch_on_boot,
        }
    }
}

impl Clone for SyncSettings {
    fn clone(&self) -> (r: Self)
        ensures
            r@ == self@,
    {
        SyncSettings {
            default_conflict_strategy: self.default_conflict_strategy.clone(),
            fs_watch_enabled: self.fs_watch_enabled,
            debounce_delay_secs: self.debounce_delay_secs,
            launch_on_boot: self.launch_on_boot,
        }
    }
}

impl Default for SyncSettings {
    fn default() -> (r: Self)
        ensures
            r@.default_conflict_strategy == "manual"@,
            r@.fs_watch_enabled,
            r@.debounce_delay_secs == 15,
            !r@.launch_on_boot,
    {
        SyncSettings {
            default_conflict_strategy: String::from_str("manual"),
            fs_watch_enabled: true,
            debounce_delay_secs: 15,
            launch_on_boot: false,
        }
    }
}

/// The whole configuration.
pub struct AppConfig {
    pub webdav: WebDavSettings,
    pub sync: SyncSettings,
    pub mappings: Vec<FileMapping>,
}

pub struct AppConfigView {
    pub webdav: WebDavSettingsView,
    pub sync: SyncSettingsView,
    pub mappings: Seq<FileMappingView>,
}

impl View for AppConfig {
    type V = AppConfigView;

    open spec fn view(&self) -> AppConfigView {
        AppConfigView {
            webdav: self.webdav@,
            sync: self.sync@,
            mappings: mapping_views(self.mappings@),
        }
    }
}

/// A copy of a vector of mappings.
pub fn copy_mappings(v: &Vec<FileMapping>) -> (r: Vec<FileMapping>)
    ensures
        mapping_views(r@) == mapping_views(v@),
{
    let mut r: Vec<FileMapping> = Vec::new();
    for i in 0..v.len()
        invariant
            r.len() == i,
            mapping_views(r@) == mapping_views(v@).take(i as int),
    {
        let x = v[i].clone();
        r.push(x);
        assert(r@[i as int]@ == v@[i as int]@);
        assert(mapping_views(r@) =~= mapping_views(v@).take(i + 1));
    }
    assert(mapping_views(v@).take(v.len() as int) =~= mapping_views(v@));
    r
}

impl Clone for AppConfig {
    fn clone(&self) -> (r: Self)
        ensures
            r@ == self@,
    {
        AppConfig {
            webdav: self.webdav.clone(),
            sync: self.sync.clone(),
            mappings: copy_mappings(&self.mappings),
        }
    }
}

impl Default for AppConfig {
    fn default() -> (r: Self)
        ensures
            r@.webdav.base_url.len() == 0,
            r@.webdav.username.len() == 0,
            r@.webdav.password.len() == 0,
            r@.webdav.remote_dir == default_remote_dir_spec(),
            r@.webdav.space_id == default_space_id_spec(),
            r@.webdav.device_id.len() == 0,
            r@.webdav.device_name.len() == 0,
            r@.webdav.sync_interval_secs == 30,
            r@.webdav.auto_sync,
            r@.sync.default_conflict_strategy == "manual"@,
            r@.sync.fs_watch_enabled,
            r@.sync.debounce_delay_secs == 15,
            !r@.sync.launch_on_boot,
            r@.mappings.len() == 0,
    {
        let r = AppConfig {
            webdav: WebDavSettings::default(),
            sync: SyncSettings::default(),
            mappings: Vec::new(),
        };
        assert(r@.mappings =~= Seq::<FileMappingView>::empty());
        r
    }
}

/// What the synchroniser remembers of one mapping between runs.
pub struct FileRuntimeState {
    pub last_synced_hash: Option<String>,
    pub status: String,
    pub detail: String,
    pub last_sync_at: Option<String>,
    pub last_conflict_signature: Option<String>,
    pub last_conflict_path: Option<String>,
}

pub struct FileRuntimeStateView {
    pub last_synced_hash: Option<Seq<char>>,
    pub status: Seq<char>,
    pub detail: Seq<char>,
    pub last_sync_at: Option<Seq<char>>,
    pub last_conflict_signature: Option<Seq<char>>,
    pub last_conflict_path: Option<Seq<char>>,
}

impl View for FileRuntimeState {
    type V = FileRuntimeStateView;

    open spec fn view(&self) -> FileRuntimeStateView {
        FileRuntimeStateView {
            last_synced_hash: opt_view(self.last_synced_hash),
            status: self.status@,
            detail: self.detail@,
            last_sync_at: opt_view(self.last_sync_at),
            last_conflict_signature: opt_view(self.last_conflict_signature),
            last_conflict_path: opt_view(self.last_conflict_path),
        }
    }
}

impl Clone for FileRuntimeState {
    fn clone(&self) -> (r: Self)
        ensures
            r@ == self@,
    {
        FileRuntimeState {
            last_synced_hash: copy_opt(&self.last_synced_hash),
            status: self.status.clone(),
            detail: self.detail.clone(),
            last_sync_at: copy_opt(&self.last_sync_at),
            last_conflict_signature: copy_opt(&self.last_conflict_signature),
            last_conflict_path: copy_opt(&self.last_conflict_path),
        }
    }
}

/// The state of a mapping that has never been synchronised.
pub open spec fn default_runtime_state_spec() -> FileRuntimeStateView {
    FileRuntimeStateView {
        last_synced_hash: None,
        status: "idle"@,
        detail: "尚未同步"@,
        last_sync_at: None,
        last_conflict_signature: None,
        last_conflict_path: None,
    }
}

/// The state of a mapping that has never been synchronised.
pub fn default_runtime_state() -> (r: FileRuntimeState)
    ensures
        r@ == default_runtime_state_spec(),
{
    FileRuntimeState {
        last_synced_hash: None,
        status: String::from_str("idle"),
        detail: String::from_str("尚未同步"),
        last_sync_at: None,
        last_conflict_signature: None,
        last_conflict_path: None,
    }
}

/// How a conflict between a changed local and a changed remote copy is settled.
#[derive(Clone, Copy, PartialEq, Eq, Structural, Debug)]
pub enum ConflictStrategy {
    /// Keep the local file and write the remote copy beside it.
    Manual,
    /// The local copy wins and is uploaded.
    Local,
    /// The remote copy wins and is written locally.
    Remote,
}

} // verus!
