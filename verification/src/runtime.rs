//! The synchroniser's in-memory state and the snapshot it shows.
use vstd::prelude::*;
use crate::logs::{log_views, SyncLogEntry, SyncLogEntryView};
use crate::models::{
    string_views,
    copy_opt, mapping_views, opt_view, AppConfig, AppConfigView, FileMapping, FileMappingView,
    FileRuntimeStateView,
};
use crate::readiness::{evaluate_readiness, readiness_spec, LocalFileProbe};
use crate::run::{current_state, current_state_spec};
use crate::sorting::{is_stable_sort, orders_stably, stable_order, SortKey, SortKeyView};
use crate::states::FileStates;
use crate::text::chars_of;

verus! {

/// What the snapshot shows of one mapping.
pub struct MappingRuntimeSnapshot {
    pub mapping_id: String,
    pub status: String,
    pub detail: String,
    pub last_sync_at: Option<String>,
    pub last_synced_hash: Option<String>,
    pub last_conflict_path: Option<String>,
}

pub struct MappingRuntimeSnapshotView {
    pub mapping_id: Seq<char>,
    pub status: Seq<char>,
    pub detail: Seq<char>,
    pub last_sync_at: Option<Seq<char>>,
    pub last_synced_hash: Option<Seq<char>>,
    pub last_conflict_path: Option<Seq<char>>,
}

impl View for MappingRuntimeSnapshot {
    type V = MappingRuntimeSnapshotView;

    open spec fn view(&self) -> MappingRuntimeSnapshotView {
        MappingRuntimeSnapshotView {
            mapping_id: self.mapping_id@,
            status: self.status@,
            detail: self.detail@,
            last_sync_at: opt_view(self.last_sync_at),
            last_synced_hash: opt_view(self.last_synced_hash),
            last_conflict_path: opt_view(self.last_conflict_path),
        }
    }
}

impl Clone for MappingRuntimeSnapshot {
    fn clone(&self) -> (r: Self)
        ensures
            r@ == self@,
    {
        MappingRuntimeSnapshot {
            mapping_id: self.mapping_id.clone(),
            status: self.status.clone(),
            detail: self.detail.clone(),
            last_sync_at: copy_opt(&self.last_sync_at),
            last_synced_hash: copy_opt(&self.last_synced_hash),
            last_conflict_path: copy_opt(&self.last_conflict_path),
        }
    }
}

pub open spec fn snapshot_views(v: Seq<MappingRuntimeSnapshot>) -> Seq<MappingRuntimeSnapshotView> {
    v.map_values(|s: MappingRuntimeSnapshot| s@)
}

/// The snapshot of the synchroniser.
pub struct RuntimeSnapshot {
    pub is_syncing: bool,
    pub is_ready: bool,
    pub readiness_detail: String,
    pub conflict_count: usize,
    pub error_count: usize,
    pub last_run_at: Option<String>,
    pub last_summary: String,
    pub mappings: Vec<MappingRuntimeSnapshot>,
}

/// The synchroniser's state in memory.
pub struct InMemoryState {
    pub config: AppConfig,
    pub file_states: FileStates,
    pub sync_logs: Vec<SyncLogEntry>,
    pub is_syncing: bool,
    pub last_run_at: Option<String>,
    pub last_summary: String,
    /// Local paths of mappings added since the file watcher last looked, each once.
    pub pending_sync_paths: Vec<String>,
}

/// What the snapshot shows of a mapping in state `st`.
pub open spec fn mapping_snapshot_spec(m: FileMappingView, st: FileRuntimeStateView) -> MappingRuntimeSnapshotView {
    MappingRuntimeSnapshotView {
        mapping_id: m.id,
        status: st.status,
        detail: st.detail,
        last_sync_at: st.last_sync_at,
        last_synced_hash: st.last_synced_hash,
        last_conflict_path: st.last_conflict_path,
    }
}

/// The snapshots of the configured mappings, in configuration order.
pub open spec fn mapping_snapshots_spec(
    ms: Seq<FileMappingView>,
    states: Map<Seq<char>, FileRuntimeStateView>,
) -> Seq<MappingRuntimeSnapshotView> {
    ms.map_values(|m: FileMappingView| mapping_snapshot_spec(m, current_state_spec(states, m.id)))
}

/// Snapshots are ordered by mapping id.
pub open spec fn snapshot_key() -> spec_fn(MappingRuntimeSnapshotView) -> SortKeyView {
    |s: MappingRuntimeSnapshotView| SortKeyView { rank: 0, text: s.mapping_id }
}

/// Snapshots with status `status`.
pub open spec fn snapshot_has_status(status: Seq<char>) -> spec_fn(MappingRuntimeSnapshotView) -> bool {
    |s: MappingRuntimeSnapshotView| s.status == status
}

/// Counts the snapshots with status `status`.
fn count_snapshots(v: &Vec<MappingRuntimeSnapshot>, status: &str) -> (n: usize)
    ensures
        n == snapshot_views(v@).filter(snapshot_has_status(status@)).len(),
{
    let target = String::from_str(status);
    let ghost sv = snapshot_views(v@);
    let mut n: usize = 0;
    let mut i: usize = 0;
    while i < v.len()
        invariant
            i <= v@.len(),
            n <= i,
            target@ == status@,
            sv == snapshot_views(v@),
            n == sv.take(i as int).filter(snapshot_has_status(status@)).len(),
        decreases v@.len() - i,
    {
        proof {
            assert(sv.take(i + 1) =~= sv.take(i as int).push(sv[i as int]));
            sv.take(i as int).lemma_filter_push(sv[i as int], snapshot_has_status(status@));
        }
        let hit = v[i].status == target;
        if hit {
            n = n + 1;
        }
        i = i + 1;
    }
    assert(sv.take(v@.len() as int) =~= sv);
    n
}

/// The snapshot's mappings: one per configured mapping, stably sorted by mapping id.
pub fn mapping_snapshots(config: &AppConfig, file_states: &FileStates) -> (r: Vec<MappingRuntimeSnapshot>)
    ensures
        is_stable_sort(
            mapping_snapshots_spec(config@.mappings, file_states@),
            snapshot_views(r@),
            snapshot_key(),
        ),
{
    let ghost want = mapping_snapshots_spec(config@.mappings, file_states@);
    let n = config.mappings.len();
    let mut entries: Vec<MappingRuntimeSnapshot> = Vec::new();
    let mut keys: Vec<SortKey> = Vec::new();
    let mut i: usize = 0;
    while i < n
        invariant
            n == config.mappings@.len() == want.len(),
            want == mapping_snapshots_spec(config@.mappings, file_states@),
            i <= n,
            entries@.len() == i,
            keys@.len() == i,
            forall|j: int| 0 <= j < i ==> (#[trigger] entries@[j])@ == want[j],
            forall|j: int| 0 <= j < i ==> (#[trigger] keys@[j])@ == (snapshot_key())(want[j]),
        decreases n - i,
    {
        let m = &config.mappings[i];
        let st = current_state(file_states, &m.id);
        let e = MappingRuntimeSnapshot {
            mapping_id: m.id.clone(),
            status: st.status,
            detail: st.detail,
            last_sync_at: st.last_sync_at,
            last_synced_hash: st.last_synced_hash,
            last_conflict_path: st.last_conflict_path,
        };
        let k = SortKey { rank: 0, text: chars_of(m.id.as_str()) };
        proof {
            assert(config@.mappings[i as int] == m@);
        }
        entries.push(e);
        keys.push(k);
        i = i + 1;
    }
    let order = stable_order(&keys);
    let ghost perm = order@.map_values(|i: usize| i as int);
    let ghost ks = keys@.map_values(|k: SortKey| k@);
    proof {
        assert(ks =~= want.map_values(snapshot_key()));
    }
    let mut r: Vec<MappingRuntimeSnapshot> = Vec::new();
    let mut j: usize = 0;
    while j < n
        invariant
            n == entries@.len() == order@.len() == want.len() == perm.len(),
            perm == order@.map_values(|i: usize| i as int),
            orders_stably(want.map_values(snapshot_key()), perm),
            forall|a: int| 0 <= a < n ==> (#[trigger] entries@[a])@ == want[a],
            j <= n,
            r@.len() == j,
            forall|a: int| 0 <= a < j ==> (#[trigger] r@[a])@ == want[perm[a]],
        decreases n - j,
    {
        let idx = order[j];
        proof {
            assert(perm[j as int] == idx as int);
            assert(0 <= perm[j as int] < n);
        }
        let e = entries[idx].clone();
        r.push(e);
        j = j + 1;
    }
    proof {
        let out = snapshot_views(r@);
        assert forall|a: int| 0 <= a < out.len() implies #[trigger] out[a] == want[perm[a]] by {
            assert(out[a] == r@[a]@);
        }
    }
    r
}

/// The snapshot of the synchroniser: its mappings sorted by id, its readiness, and how many
/// mappings are in conflict or in error.  `probes[i]` is what the file system says of the local
/// path of `state.config.mappings[i]`.
pub fn runtime_snapshot(state: &InMemoryState, probes: &Vec<LocalFileProbe>) -> (r: RuntimeSnapshot)
    requires
        probes@.len() == state.config.mappings@.len(),
    ensures
        r.is_syncing == state.is_syncing,
        (r.is_ready, r.readiness_detail@) == readiness_spec(state.config@, state.file_states@, probes@),
        is_stable_sort(
            mapping_snapshots_spec(state.config@.mappings, state.file_states@),
            snapshot_views(r.mappings@),
            snapshot_key(),
        ),
        r.conflict_count == snapshot_views(r.mappings@).filter(snapshot_has_status("conflict"@)).len(),
        r.error_count == snapshot_views(r.mappings@).filter(snapshot_has_status("error"@)).len(),
        opt_view(r.last_run_at) == opt_view(state.last_run_at),
        r.last_summary@ == state.last_summary@,
{
    let mappings = mapping_snapshots(&state.config, &state.file_states);
    let (is_ready, readiness_detail) = evaluate_readiness(&state.config, &state.file_states, probes);
    let conflict_count = count_snapshots(&mappings, "conflict");
    let error_count = count_snapshots(&mappings, "error");
    RuntimeSnapshot {
        is_syncing: state.is_syncing,
        is_ready,
        readiness_detail,
        conflict_count,
        error_count,
        last_run_at: copy_opt(&state.last_run_at),
        last_summary: state.last_summary.clone(),
        mappings,
    }
}

} // verus!

verus! {

/// What is kept on disk between runs of the application.
pub struct PersistedStore {
    pub config: AppConfig,
    pub file_states: FileStates,
    pub sync_logs: Vec<SyncLogEntry>,
}

/// The summary shown before any run.
pub open spec fn not_synced_yet() -> Seq<char> {
    "尚未同步"@
}

impl InMemoryState {
    /// The state restored from `store`, its configuration normalised with `fresh_device_id` as
    /// the id of a device that has none.
    pub fn from_persisted_with(store: PersistedStore, fresh_device_id: String) -> (r: Self)
        ensures
            r.config@ == crate::config::normalize_config_spec(store.config@, fresh_device_id@),
            r.file_states@ == store.file_states@,
            log_views(r.sync_logs@) == log_views(store.sync_logs@),
            !r.is_syncing,
            r.last_run_at is None,
            r.last_summary@ == not_synced_yet(),
            r.pending_sync_paths@.len() == 0,
    {
        InMemoryState {
            config: crate::config::normalize_config_with(store.config, fresh_device_id),
            file_states: store.file_states,
            sync_logs: store.sync_logs,
            is_syncing: false,
            last_run_at: None,
            last_summary: String::from_str("尚未同步"),
            pending_sync_paths: Vec::new(),
        }
    }

    /// The state restored from `store`, its configuration normalised (a device without an id
    /// gets one made from the current time; see `normalize_config`).
    pub fn from_persisted(store: PersistedStore) -> (r: Self)
        ensures
            crate::text::is_blank(store.config@.webdav.device_id) ==> exists|fresh: Seq<char>|
                crate::config::generated_client_id(fresh) && r.config@
                    == crate::config::normalize_config_spec(store.config@, fresh),
            !crate::text::is_blank(store.config@.webdav.device_id) ==> r.config@
                == crate::config::normalize_config_spec(store.config@, Seq::empty()),
            !crate::text::is_blank(r.config@.webdav.device_id),
            forall|again: Seq<char>| #[trigger] crate::config::normalize_config_spec(r.config@, again)
                == r.config@,
            r.file_states@ == store.file_states@,
            log_views(r.sync_logs@) == log_views(store.sync_logs@),
            !r.is_syncing,
            r.last_run_at is None,
            r.last_summary@ == not_synced_yet(),
            r.pending_sync_paths@.len() == 0,
    {
        let config = crate::config::normalize_config(store.config);
        InMemoryState {
            config,
            file_states: store.file_states,
            sync_logs: store.sync_logs,
            is_syncing: false,
            last_run_at: None,
            last_summary: String::from_str("尚未同步"),
            pending_sync_paths: Vec::new(),
        }
    }

    /// What is to be written to disk.
    pub fn to_persisted(&self) -> (r: PersistedStore)
        ensures
            r.config@ == self.config@,
            r.file_states@ == self.file_states@,
            log_views(r.sync_logs@) == log_views(self.sync_logs@),
    {
        PersistedStore {
            config: self.config.clone(),
            file_states: self.file_states.clone(),
            sync_logs: crate::logs::copy_logs(&self.sync_logs),
        }
    }
}

} // verus!

verus! {

/// The configuration and states a run works on.
pub struct SyncJob {
    pub config: AppConfig,
    pub file_states: FileStates,
}

/// How a request to settle a conflict starts.
pub enum ResolveStart {
    /// A run is in progress: nothing is started.
    Busy,
    /// No mapping has the id.
    Missing,
    /// The mapping, its current state and the configuration to work with.
    Ready { config: AppConfig, mapping: FileMapping, current: crate::models::FileRuntimeState },
}

impl InMemoryState {
    /// Appends one entry, stamped with the current time, to the sync log.
    pub fn add_log(&mut self, args: crate::logs::LogEntryArgs)
        ensures
            ({
                let before = log_views(old(self).sync_logs@);
                let after = log_views(final(self).sync_logs@);
                exists|e: SyncLogEntryView, t: crate::clock::Timestamp|
                    crate::logs::stamped_at(e, t) && crate::logs::entry_describes(
                        e,
                        crate::logs::args_fields(args),
                    ) && after
                        == crate::logs::appended_log(before, seq![e])
            }),
            final(self).config@ == old(self).config@,
            final(self).file_states@ == old(self).file_states@,
            final(self).is_syncing == old(self).is_syncing,
            opt_view(final(self).last_run_at) == opt_view(old(self).last_run_at),
            final(self).last_summary@ == old(self).last_summary@,
            final(self).pending_sync_paths@ == old(self).pending_sync_paths@,
    {
        let e = crate::logs::log_entry(args);
        let ghost ev = e@;
        let mut v: Vec<SyncLogEntry> = Vec::new();
        v.push(e);
        assert(log_views(v@) =~= seq![ev]);
        crate::logs::append_logs(&mut self.sync_logs, v);
    }

    /// Starts a run: when none is in progress, marks one as started and hands out copies of the
    /// configuration and the states; otherwise hands out nothing and changes nothing.
    pub fn begin_sync(&mut self) -> (r: Option<SyncJob>)
        ensures
            old(self).is_syncing ==> r is None && final(self).is_syncing,
            !old(self).is_syncing ==> (r matches Some(job) && job.config@ == old(self).config@
                && job.file_states@ == old(self).file_states@ && final(self).is_syncing),
            final(self).config@ == old(self).config@,
            final(self).file_states@ == old(self).file_states@,
            log_views(final(self).sync_logs@) == log_views(old(self).sync_logs@),
            opt_view(final(self).last_run_at) == opt_view(old(self).last_run_at),
            final(self).last_summary@ == old(self).last_summary@,
            final(self).pending_sync_paths@ == old(self).pending_sync_paths@,
    {
        if self.is_syncing {
            return None;
        }
        self.is_syncing = true;
        Some(SyncJob { config: self.config.clone(), file_states: self.file_states.clone() })
    }

    /// Ends a run at time `now` with its outcome: on success the states, summary and log of the
    /// run are taken over; on failure the summary reports the error and the log records it.
    pub fn finish_sync(&mut self, outcome: Result<crate::run::SyncOutcome, String>, now: String)
        ensures
            !final(self).is_syncing,
            opt_view(final(self).last_run_at) == Some(now@),
            final(self).config@ == old(self).config@,
            final(self).pending_sync_paths@ == old(self).pending_sync_paths@,
            match outcome {
                Ok(o) => final(self).file_states@ == o.file_states@ && final(self).last_summary@
                    == o.summary@ && log_views(final(self).sync_logs@) == crate::logs::appended_log(
                    log_views(old(self).sync_logs@),
                    log_views(o.logs@),
                ),
                Err(e) => final(self).file_states@ == old(self).file_states@
                    && final(self).last_summary@ == "同步失败："@ + e@ && exists|x: SyncLogEntryView, t: crate::clock::Timestamp|
                    crate::logs::stamped_at(x, t) && crate::logs::entry_describes(
                        x,
                        crate::logs::plain_fields("error"@, "sync-run"@, "同步任务失败"@, e@),
                    ) && log_views(final(self).sync_logs@) == crate::logs::appended_log(
                        log_views(old(self).sync_logs@),
                        seq![x],
                    ),
            },
    {
        self.is_syncing = false;
        self.last_run_at = Some(now);
        match outcome {
            Ok(result) => {
                self.file_states = result.file_states;
                self.last_summary = result.summary;
                crate::logs::append_logs(&mut self.sync_logs, result.logs);
            },
            Err(err) => {
                self.last_summary = String::from_str("同步失败：").concat(err.as_str());
                self.add_log(
                    crate::logs::LogEntryArgs {
                        mapping: None,
                        level: "error",
                        action: "sync-run",
                        summary: "同步任务失败",
                        detail: err.as_str(),
                        http_status: None,
                        local_path: None,
                        target_path: None,
                    },
                );
            },
        }
    }

    /// Starts settling the conflict of mapping `mapping_id`.  When no run is in progress and a
    /// mapping has the id, the state is marked as running; a request for an unknown mapping
    /// fails and leaves the state as it was.
    pub fn begin_resolve(&mut self, mapping_id: &String) -> (r: ResolveStart)
        ensures
            old(self).is_syncing ==> r is Busy,
            !old(self).is_syncing ==> (r is Missing <==> forall|i: int|
                0 <= i < old(self).config@.mappings.len() ==> old(self).config@.mappings[i].id
                    != mapping_id@),
            r matches ResolveStart::Ready { config, mapping, current } ==> {
                &&& config@ == old(self).config@
                &&& mapping@.id == mapping_id@
                &&& exists|i: int|
                    0 <= i < old(self).config@.mappings.len() && old(self).config@.mappings[i]
                        == mapping@ && forall|j: int|
                        0 <= j < i ==> old(self).config@.mappings[j].id != mapping_id@
                &&& current@ == current_state_spec(old(self).file_states@, mapping_id@)
            },
            final(self).is_syncing == (old(self).is_syncing || r is Ready),
            final(self).config@ == old(self).config@,
            final(self).file_states@ == old(self).file_states@,
            log_views(final(self).sync_logs@) == log_views(old(self).sync_logs@),
            opt_view(final(self).last_run_at) == opt_view(old(self).last_run_at),
            final(self).last_summary@ == old(self).last_summary@,
            final(self).pending_sync_paths@ == old(self).pending_sync_paths@,
    {
        if self.is_syncing {
            return ResolveStart::Busy;
        }
        let n = self.config.mappings.len();
        let mut i: usize = 0;
        #[verifier::loop_isolation(false)]
        while i < n
            invariant
                n == self.config.mappings@.len(),
                i <= n,
                forall|j: int| 0 <= j < i ==> self.config@.mappings[j].id != mapping_id@,
                !self.is_syncing,
                self.config@ == old(self).config@,
                self.file_states@ == old(self).file_states@,
                log_views(self.sync_logs@) == log_views(old(self).sync_logs@),
                opt_view(self.last_run_at) == opt_view(old(self).last_run_at),
                self.last_summary@ == old(self).last_summary@,
                self.pending_sync_paths@ == old(self).pending_sync_paths@,
            decreases n - i,
        {
            if self.config.mappings[i].id == *mapping_id {
                let mapping = self.config.mappings[i].clone();
                proof {
                    assert(self.config@.mappings[i as int] == self.config.mappings@[i as int]@);
                }
                let current = current_state(&self.file_states, &mapping.id);
                self.is_syncing = true;
                return ResolveStart::Ready { config: self.config.clone(), mapping, current };
            }
            i = i + 1;
        }
        ResolveStart::Missing
    }

    /// Ends settling the conflict of `mapping` at time `now`: on success its state and the
    /// summary are taken over; the log records the outcome either way.
    pub fn finish_resolve(
        &mut self,
        mapping: &FileMapping,
        result: Result<(crate::models::FileRuntimeState, String), String>,
        now: String,
    )
        ensures
            !final(self).is_syncing,
            opt_view(final(self).last_run_at) == Some(now@),
            final(self).config@ == old(self).config@,
            final(self).pending_sync_paths@ == old(self).pending_sync_paths@,
            match result {
                Ok((st, summary)) => final(self).file_states@ == old(self).file_states@.insert(
                    mapping@.id,
                    st@,
                ) && final(self).last_summary@ == summary@ && exists|x: SyncLogEntryView, t: crate::clock::Timestamp|
                    crate::logs::stamped_at(x, t) && crate::logs::entry_describes(
                        x,
                        crate::logs::LogFields {
                            mapping: Some(mapping@),
                            level: "warning"@,
                            action: "resolve-conflict"@,
                            summary: "冲突已处理"@,
                            detail: summary@,
                            http_status: None,
                            local_path: None,
                            target_path: None,
                        },
                    ) && log_views(final(self).sync_logs@) == crate::logs::appended_log(
                        log_views(old(self).sync_logs@),
                        seq![x],
                    ),
                Err(e) => final(self).file_states@ == old(self).file_states@
                    && final(self).last_summary@ == "冲突处理失败："@ + e@ && exists|x: SyncLogEntryView, t: crate::clock::Timestamp|
                    crate::logs::stamped_at(x, t) && crate::logs::entry_describes(
                        x,
                        crate::logs::LogFields {
                            mapping: Some(mapping@),
                            level: "error"@,
                            action: "resolve-conflict"@,
                            summary: "冲突处理失败"@,
                            detail: e@,
                            http_status: None,
                            local_path: None,
                            target_path: None,
                        },
                    ) && log_views(final(self).sync_logs@) == crate::logs::appended_log(
                        log_views(old(self).sync_logs@),
                        seq![x],
                    ),
            },
    {
        self.is_syncing = false;
        self.last_run_at = Some(now);
        match result {
            Ok((st, summary)) => {
                self.file_states.insert(mapping.id.clone(), st);
                self.last_summary = summary.clone();
                self.add_log(
                    crate::logs::LogEntryArgs {
                        mapping: Some(mapping),
                        level: "warning",
                        action: "resolve-conflict",
                        summary: "冲突已处理",
                        detail: summary.as_str(),
                        http_status: None,
                        local_path: None,
                        target_path: None,
                    },
                );
            },
            Err(err) => {
                self.last_summary = String::from_str("冲突处理失败：").concat(err.as_str());
                self.add_log(
                    crate::logs::LogEntryArgs {
                        mapping: Some(mapping),
                        level: "error",
                        action: "resolve-conflict",
                        summary: "冲突处理失败",
                        detail: err.as_str(),
                        http_status: None,
                        local_path: None,
                        target_path: None,
                    },
                );
            },
        }
    }
}

} // verus!

verus! {

impl InMemoryState {
    /// Adds `paths` to the pending paths, each path once.
    pub fn queue_pending_paths(&mut self, paths: &Vec<String>)
        ensures
            string_views(final(self).pending_sync_paths@).to_set() == string_views(
                old(self).pending_sync_paths@,
            ).to_set() + string_views(paths@).to_set(),
            string_views(old(self).pending_sync_paths@).no_duplicates() ==> string_views(
                final(self).pending_sync_paths@,
            ).no_duplicates(),
            final(self).config@ == old(self).config@,
            final(self).file_states@ == old(self).file_states@,
            log_views(final(self).sync_logs@) == log_views(old(self).sync_logs@),
            final(self).is_syncing == old(self).is_syncing,
            opt_view(final(self).last_run_at) == opt_view(old(self).last_run_at),
            final(self).last_summary@ == old(self).last_summary@,
    {
        let ghost start = string_views(self.pending_sync_paths@);
        let ghost ps = string_views(paths@);
        let mut i: usize = 0;
        #[verifier::loop_isolation(false)]
        while i < paths.len()
            invariant
                i <= paths@.len(),
                ps == string_views(paths@),
                self.config@ == old(self).config@,
                self.file_states@ == old(self).file_states@,
                log_views(self.sync_logs@) == log_views(old(self).sync_logs@),
                self.is_syncing == old(self).is_syncing,
                opt_view(self.last_run_at) == opt_view(old(self).last_run_at),
                self.last_summary@ == old(self).last_summary@,
                string_views(self.pending_sync_paths@).to_set() == start.to_set() + ps.take(
                    i as int,
                ).to_set(),
                start.no_duplicates() ==> string_views(self.pending_sync_paths@).no_duplicates(),
            decreases paths@.len() - i,
        {
            let p = paths[i].clone();
            let ghost before = string_views(self.pending_sync_paths@);
            let present = crate::watch::contains_string(&self.pending_sync_paths, &p);
            if !present {
                self.pending_sync_paths.push(p);
                assert(string_views(self.pending_sync_paths@) =~= before.push(ps[i as int]));
            }
            proof {
                assert(ps.take(i + 1) =~= ps.take(i as int).push(ps[i as int]));
                ps.take(i as int).lemma_push_to_set_commute(ps[i as int]);
                let now = string_views(self.pending_sync_paths@);
                if !present {
                    before.lemma_push_to_set_commute(ps[i as int]);
                    if start.no_duplicates() {
                        assert(now.no_duplicates()) by {
                            assert forall|a: int, b: int| 0 <= a < now.len() && 0 <= b < now.len() && a != b implies now[a] != now[b] by {
                                if a == before.len() {
                                    assert(now[b] == before[b]);
                                } else if b == before.len() {
                                    assert(now[a] == before[a]);
                                } else {
                                    assert(now[a] == before[a] && now[b] == before[b]);
                                }
                            }
                        }
                    }
                } else {
                    assert(before.to_set().contains(ps[i as int]));
                }
                assert(now.to_set() =~= start.to_set() + ps.take(i + 1).to_set());
            }
            i = i + 1;
        }
        assert(ps.take(paths@.len() as int) =~= ps);
    }

    /// Hands out the pending paths and clears them.
    pub fn take_pending_paths(&mut self) -> (r: Vec<String>)
        ensures
            string_views(r@) == string_views(old(self).pending_sync_paths@),
            final(self).pending_sync_paths@.len() == 0,
            final(self).config@ == old(self).config@,
            final(self).file_states@ == old(self).file_states@,
            log_views(final(self).sync_logs@) == log_views(old(self).sync_logs@),
            final(self).is_syncing == old(self).is_syncing,
            opt_view(final(self).last_run_at) == opt_view(old(self).last_run_at),
            final(self).last_summary@ == old(self).last_summary@,
    {
        let mut r: Vec<String> = Vec::new();
        std::mem::swap(&mut r, &mut self.pending_sync_paths);
        r
    }

    /// Takes over a saved, normalised configuration; the local paths of mappings it adds are
    /// queued for the watcher.  Returns whether any path was queued.
    pub fn apply_saved_config(&mut self, normalized: AppConfig) -> (queued: bool)
        ensures
            final(self).config@ == normalized@,
            queued == (crate::watch::new_mapping_paths_spec(old(self).config@.mappings, normalized@.mappings).len() > 0),
            string_views(final(self).pending_sync_paths@).to_set() == string_views(
                old(self).pending_sync_paths@,
            ).to_set() + crate::watch::new_mapping_paths_spec(old(self).config@.mappings, normalized@.mappings).to_set(),
            string_views(old(self).pending_sync_paths@).no_duplicates() ==> string_views(
                final(self).pending_sync_paths@,
            ).no_duplicates(),
            final(self).file_states@ == old(self).file_states@,
            log_views(final(self).sync_logs@) == log_views(old(self).sync_logs@),
            final(self).is_syncing == old(self).is_syncing,
            opt_view(final(self).last_run_at) == opt_view(old(self).last_run_at),
            final(self).last_summary@ == old(self).last_summary@,
    {
        let paths = crate::watch::collect_new_mapping_paths(&self.config, &normalized);
        self.config = normalized;
        if paths.len() > 0 {
            self.queue_pending_paths(&paths);
            true
        } else {
            assert(string_views(paths@).to_set() =~= Set::<Seq<char>>::empty());
            assert(string_views(self.pending_sync_paths@).to_set() =~= string_views(
                self.pending_sync_paths@,
            ).to_set() + string_views(paths@).to_set());
            false
        }
    }
}

/// Whether the periodic loop starts a run at `now`: automatic sync is on, a server address and
/// mappings are configured, and a run is due (see `last_run_due_at`).
pub open spec fn auto_sync_due_spec(c: AppConfigView, last_run_at: Option<Seq<char>>, now: crate::clock::Timestamp) -> bool {
    c.webdav.auto_sync && c.webdav.base_url.len() > 0 && c.mappings.len() > 0
        && crate::clock::run_due_spec(last_run_at, c.webdav.sync_interval_secs, now)
}

/// Whether the periodic loop starts a run at `now`.
pub fn auto_sync_due_at(state: &InMemoryState, now: crate::clock::Timestamp) -> (b: bool)
    requires
        match opt_view(state.last_run_at) {
            Some(text) => crate::clock::rfc3339_instant(text) is Some ==> (-crate::clock::max_delta_secs() <= (
                #[verifier::truncate] (state.config@.webdav.sync_interval_secs as i64)) <= crate::clock::max_delta_secs()),
            None => true,
        },
    ensures
        b == auto_sync_due_spec(state.config@, opt_view(state.last_run_at), now),
{
    state.config.webdav.auto_sync && !state.config.webdav.base_url.as_str().is_empty()
        && state.config.mappings.len() > 0 && crate::clock::last_run_due_at(
        &state.last_run_at,
        state.config.webdav.sync_interval_secs,
        now,
    )
}

} // verus!

verus! {

/// Whether the periodic loop starts a run at `now`; `None` where `chrono` would refuse the
/// configured interval.
pub fn auto_sync_due_checked(state: &InMemoryState, now: crate::clock::Timestamp) -> (r: Option<bool>)
    ensures
        match r {
            Some(b) => b == auto_sync_due_spec(state.config@, opt_view(state.last_run_at), now),
            None => state.config@.webdav.auto_sync && state.config@.webdav.base_url.len() > 0
                && state.config@.mappings.len() > 0 && !crate::clock::interval_accepted(
                opt_view(state.last_run_at),
                state.config@.webdav.sync_interval_secs,
            ),
        },
{
    if !(state.config.webdav.auto_sync && !state.config.webdav.base_url.as_str().is_empty()
        && state.config.mappings.len() > 0) {
        return Some(false);
    }
    match crate::clock::run_due_checked(&state.last_run_at, state.config.webdav.sync_interval_secs, now) {
        None => None,
        Some(_) => Some(auto_sync_due_at(state, now)),
    }
}

/// Whether the periodic loop starts a run now, the current time read from the system clock;
/// `None` where `chrono` would refuse the configured interval.
pub fn auto_sync_due(state: &InMemoryState) -> (r: Option<bool>)
    ensures
        exists|now: crate::clock::Timestamp|
            now.nanos < 1_000_000_000 && match r {
                Some(b) => b == auto_sync_due_spec(state.config@, opt_view(state.last_run_at), now),
                None => state.config@.webdav.auto_sync && state.config@.webdav.base_url.len() > 0
                    && state.config@.mappings.len() > 0 && !crate::clock::interval_accepted(
                    opt_view(state.last_run_at),
                    state.config@.webdav.sync_interval_secs,
                ),
            },
{
    let now = crate::clock::read_clock().instant;
    auto_sync_due_checked(state, now)
}

} // verus!
