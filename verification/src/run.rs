//! A sync run over all mappings: what it records of each mapping and how it sums up.
use vstd::prelude::*;
use crate::engine::SyncKind;
use crate::logs::{
    args_fields, entry_describes, log_entry, log_views, plain_fields, LogEntryArgs, LogFields,
    SyncLogEntry, SyncLogEntryView,
};
use crate::models::{
    default_runtime_state, default_runtime_state_spec, AppConfig, AppConfigView, FileMapping,
    FileMappingView, FileRuntimeState, FileRuntimeStateView,
};
use crate::states::FileStates;
use crate::text::{decimal, decimal_string};

verus! {

/// The state a mapping starts a run from: its recorded state, or the never-synced one.
pub open spec fn current_state_spec(
    states: Map<Seq<char>, FileRuntimeStateView>,
    id: Seq<char>,
) -> FileRuntimeStateView {
    if states.dom().contains(id) {
        states[id]
    } else {
        default_runtime_state_spec()
    }
}

/// The state recorded for `id`, or the never-synced one.
pub fn current_state(states: &FileStates, id: &String) -> (r: FileRuntimeState)
    ensures
        r@ == current_state_spec(states@, id@),
{
    match states.get(id) {
        Some(st) => st,
        None => default_runtime_state(),
    }
}

/// The state of a mapping whose sync failed with `err`: the last sync is kept.
pub open spec fn failed_state(current: FileRuntimeStateView, err: Seq<char>) -> FileRuntimeStateView {
    FileRuntimeStateView { status: "error"@, detail: err, ..current }
}

/// The one-line summary of a run.
pub open spec fn run_summary(success: nat, conflict: nat, error: nat) -> Seq<char> {
    "成功 "@ + decimal(success) + " 项，冲突 "@ + decimal(conflict) + " 项，错误 "@ + decimal(error)
        + " 项"@
}

/// A sync run in progress.
pub struct SyncRun {
    pub file_states: FileStates,
    pub logs: Vec<SyncLogEntry>,
    pub success_count: usize,
    pub conflict_count: usize,
    pub error_count: usize,
}

pub struct SyncRunView {
    pub file_states: Map<Seq<char>, FileRuntimeStateView>,
    pub logs: Seq<SyncLogEntryView>,
    pub success_count: nat,
    pub conflict_count: nat,
    pub error_count: nat,
}

impl View for SyncRun {
    type V = SyncRunView;

    open spec fn view(&self) -> SyncRunView {
        SyncRunView {
            file_states: self.file_states@,
            logs: log_views(self.logs@),
            success_count: self.success_count as nat,
            conflict_count: self.conflict_count as nat,
            error_count: self.error_count as nat,
        }
    }
}

/// The result of a finished run.
pub struct SyncOutcome {
    pub file_states: FileStates,
    pub summary: String,
    pub logs: Vec<SyncLogEntry>,
}

/// The log fields of a mapping's successful step.
pub open spec fn step_fields(mapping: FileMappingView, kind: SyncKind, detail: Seq<char>) -> LogFields {
    LogFields {
        mapping: Some(mapping),
        level: if kind == SyncKind::Conflict { "warning"@ } else { "info"@ },
        action: kind.text(),
        summary: "映射同步完成"@,
        detail,
        http_status: None,
        local_path: None,
        target_path: None,
    }
}

/// The log fields of a mapping's failed step.
pub open spec fn failure_fields(mapping: FileMappingView, err: Seq<char>) -> LogFields {
    LogFields {
        mapping: Some(mapping),
        level: "error"@,
        action: "mapping-error"@,
        summary: "映射同步失败"@,
        detail: err,
        http_status: None,
        local_path: None,
        target_path: None,
    }
}

/// Starts a run over `config` from the recorded `file_states`; the log opens with the number of
/// mappings to process.
pub fn start_sync_run(config: &AppConfig, file_states: FileStates) -> (r: SyncRun)
    ensures
        r@.file_states == file_states@,
        r@.success_count == 0,
        r@.conflict_count == 0,
        r@.error_count == 0,
        r@.logs.len() == 1,
        entry_describes(
            r@.logs[0],
            plain_fields(
                "info"@,
                "sync-run"@,
                "开始同步"@,
                "共 "@ + decimal(config@.mappings.len()) + " 个映射待处理"@,
            ),
        ),
{
    let detail = String::from_str("共 ").concat(
        decimal_string(config.mappings.len() as u64).as_str(),
    ).concat(" 个映射待处理");
    let e = log_entry(
        LogEntryArgs {
            mapping: None,
            level: "info",
            action: "sync-run",
            summary: "开始同步",
            detail: detail.as_str(),
            http_status: None,
            local_path: None,
            target_path: None,
        },
    );
    let mut logs: Vec<SyncLogEntry> = Vec::new();
    logs.push(e);
    SyncRun { file_states, logs, success_count: 0, conflict_count: 0, error_count: 0 }
}

impl SyncRun {
    /// The state that `mapping` starts its step from.
    pub fn state_of(&self, mapping: &FileMapping) -> (r: FileRuntimeState)
        ensures
            r@ == current_state_spec(self@.file_states, mapping@.id),
    {
        current_state(&self.file_states, &mapping.id)
    }

    /// Records a step of `mapping` that ended in `kind` with state `state` and message `detail`.
    pub fn record_step(
        &mut self,
        mapping: &FileMapping,
        state: FileRuntimeState,
        kind: SyncKind,
        detail: &str,
    )
        requires
            old(self).success_count < usize::MAX,
            old(self).conflict_count < usize::MAX,
        ensures
            final(self)@.file_states == old(self)@.file_states.insert(mapping@.id, state@),
            final(self)@.success_count == old(self)@.success_count + if kind.is_success() {
                1nat
            } else {
                0nat
            },
            final(self)@.conflict_count == old(self)@.conflict_count + if kind
                == SyncKind::Conflict {
                1nat
            } else {
                0nat
            },
            final(self)@.error_count == old(self)@.error_count,
            final(self)@.logs.len() == old(self)@.logs.len() + 1,
            final(self)@.logs.drop_last() == old(self)@.logs,
            entry_describes(final(self)@.logs.last(), step_fields(mapping@, kind, detail@)),
    {
        if kind == SyncKind::Synced || kind == SyncKind::Pushed || kind == SyncKind::Pulled || kind
            == SyncKind::Resolved {
            self.success_count = self.success_count + 1;
        }
        if kind == SyncKind::Conflict {
            self.conflict_count = self.conflict_count + 1;
        }
        let action = kind.as_string();
        let e = log_entry(
            LogEntryArgs {
                mapping: Some(mapping),
                level: if kind == SyncKind::Conflict {
                    "warning"
                } else {
                    "info"
                },
                action: action.as_str(),
                summary: "映射同步完成",
                detail,
                http_status: None,
                local_path: None,
                target_path: None,
            },
        );
        let ghost before = self.logs@;
        self.logs.push(e);
        assert(log_views(self.logs@).drop_last() =~= log_views(before));
        self.file_states.insert(mapping.id.clone(), state);
    }

    /// Records a step of `mapping` that failed with `err`: the mapping's state turns to an error
    /// and keeps what it knew of the last sync.
    pub fn record_failure(&mut self, mapping: &FileMapping, err: String)
        requires
            old(self).error_count < usize::MAX,
        ensures
            final(self)@.file_states == old(self)@.file_states.insert(
                mapping@.id,
                failed_state(current_state_spec(old(self)@.file_states, mapping@.id), err@),
            ),
            final(self)@.success_count == old(self)@.success_count,
            final(self)@.conflict_count == old(self)@.conflict_count,
            final(self)@.error_count == old(self)@.error_count + 1,
            final(self)@.logs.len() == old(self)@.logs.len() + 1,
            final(self)@.logs.drop_last() == old(self)@.logs,
            entry_describes(final(self)@.logs.last(), failure_fields(mapping@, err@)),
    {
        self.error_count = self.error_count + 1;
        let e = log_entry(
            LogEntryArgs {
                mapping: Some(mapping),
                level: "error",
                action: "mapping-error",
                summary: "映射同步失败",
                detail: err.as_str(),
                http_status: None,
                local_path: None,
                target_path: None,
            },
        );
        let ghost before = self.logs@;
        self.logs.push(e);
        assert(log_views(self.logs@).drop_last() =~= log_views(before));
        let mut next = current_state(&self.file_states, &mapping.id);
        next.status = String::from_str("error");
        next.detail = err;
        self.file_states.insert(mapping.id.clone(), next);
    }

    /// Ends the run: the summary counts successes, conflicts and errors, and closes the log.
    pub fn finish(self) -> (r: SyncOutcome)
        ensures
            r.file_states@ == self@.file_states,
            r.summary@ == run_summary(self@.success_count, self@.conflict_count, self@.error_count),
            log_views(r.logs@).len() == self@.logs.len() + 1,
            log_views(r.logs@).drop_last() == self@.logs,
            entry_describes(
                log_views(r.logs@).last(),
                plain_fields("info"@, "sync-run"@, "同步完成"@, r.summary@),
            ),
    {
        let summary = String::from_str("成功 ").concat(
            decimal_string(self.success_count as u64).as_str(),
        ).concat(" 项，冲突 ").concat(decimal_string(self.conflict_count as u64).as_str()).concat(
            " 项，错误 ",
        ).concat(decimal_string(self.error_count as u64).as_str()).concat(" 项");
        let e = log_entry(
            LogEntryArgs {
                mapping: None,
                level: "info",
                action: "sync-run",
                summary: "同步完成",
                detail: summary.as_str(),
                http_status: None,
                local_path: None,
                target_path: None,
            },
        );
        let mut logs = self.logs;
        let ghost before = logs@;
        logs.push(e);
        assert(log_views(logs@).drop_last() =~= log_views(before));
        SyncOutcome { file_states: self.file_states, summary, logs }
    }
}


/// The run's summary names each count after its own label: the successes after `成功`, the
/// conflicts after `冲突` and the errors after `错误`, in that order.
pub proof fn law_summary_labels_its_counts(success: nat, conflict: nat, error: nat)
    ensures
        run_summary(success, conflict, error) == ("成功 "@ + decimal(success) + " 项，"@) + ("冲突 "@
            + decimal(conflict) + " 项，"@) + ("错误 "@ + decimal(error) + " 项"@),
{
    reveal_strlit("成功 ");
    reveal_strlit(" 项，冲突 ");
    reveal_strlit(" 项，错误 ");
    reveal_strlit(" 项");
    reveal_strlit(" 项，");
    reveal_strlit("冲突 ");
    reveal_strlit("错误 ");
    assert(" 项，冲突 "@ =~= " 项，"@ + "冲突 "@);
    assert(" 项，错误 "@ =~= " 项，"@ + "错误 "@);
    assert(run_summary(success, conflict, error) =~= ("成功 "@ + decimal(success) + " 项，"@) + (
    "冲突 "@ + decimal(conflict) + " 项，"@) + ("错误 "@ + decimal(error) + " 项"@));
}
} // verus!
