//! What one sync of one mapping does, given the local and the remote copy.
use vstd::prelude::*;
use crate::clock::{is_remote_newer, remote_newer_spec, Timestamp};
use crate::digest::{bytes_view, content_digest, digest_of, hash_bytes, sha256_hex};
use crate::models::{
    copy_opt, opt_view, ConflictStrategy, FileRuntimeState, FileRuntimeStateView,
};

verus! {

/// The file operation a sync step asks the caller to perform.
#[derive(Clone, Copy, PartialEq, Eq, Structural, Debug)]
pub enum SyncAction {
    /// No file is touched.
    Nothing,
    /// The local content is uploaded to the remote path.
    UploadLocal,
    /// The remote content is written over the local file.
    WriteRemoteToLocal,
    /// The remote content is written to a conflict copy beside the local file.
    WriteConflictCopy,
}

/// The outcome class of one sync step.
#[derive(Clone, Copy, PartialEq, Eq, Structural, Debug)]
pub enum SyncKind {
    Idle,
    Synced,
    Pushed,
    Pulled,
    Resolved,
    Conflict,
}

impl SyncKind {
    pub open spec fn text(self) -> Seq<char> {
        match self {
            SyncKind::Idle => "idle"@,
            SyncKind::Synced => "synced"@,
            SyncKind::Pushed => "pushed"@,
            SyncKind::Pulled => "pulled"@,
            SyncKind::Resolved => "resolved"@,
            SyncKind::Conflict => "conflict"@,
        }
    }

    /// Whether the step counts as a success of the run.
    pub open spec fn is_success(self) -> bool {
        self == SyncKind::Synced || self == SyncKind::Pushed || self == SyncKind::Pulled
            || self == SyncKind::Resolved
    }

    pub fn as_string(&self) -> (r: String)
        ensures
            r@ == self.text(),
    {
        match self {
            SyncKind::Idle => String::from_str("idle"),
            SyncKind::Synced => String::from_str("synced"),
            SyncKind::Pushed => String::from_str("pushed"),
            SyncKind::Pulled => String::from_str("pulled"),
            SyncKind::Resolved => String::from_str("resolved"),
            SyncKind::Conflict => String::from_str("conflict"),
        }
    }
}

/// A decided sync step: the operation to perform, the class of the outcome, the new state of
/// the mapping and the message of the step.
pub struct SyncPlan {
    pub action: SyncAction,
    pub kind: SyncKind,
    pub state: FileRuntimeState,
    pub message: String,
}

pub struct SyncPlanView {
    pub action: SyncAction,
    pub kind: SyncKind,
    pub state: FileRuntimeStateView,
    pub message: Seq<char>,
}

impl View for SyncPlan {
    type V = SyncPlanView;

    open spec fn view(&self) -> SyncPlanView {
        SyncPlanView {
            action: self.action,
            kind: self.kind,
            state: self.state@,
            message: self.message@,
        }
    }
}

/// The signature of a conflict between two contents: `local:remote`.
pub open spec fn conflict_signature(local_hash: Seq<char>, remote_hash: Seq<char>) -> Seq<char> {
    local_hash + ":"@ + remote_hash
}

/// A state after both sides were brought to the content with digest `hash`.
pub open spec fn settled_state(
    status: Seq<char>,
    detail: Seq<char>,
    hash: Seq<char>,
    now: Seq<char>,
) -> FileRuntimeStateView {
    FileRuntimeStateView {
        last_synced_hash: Some(hash),
        status,
        detail,
        last_sync_at: Some(now),
        last_conflict_signature: None,
        last_conflict_path: None,
    }
}

pub open spec fn plan_view(
    action: SyncAction,
    kind: SyncKind,
    state: FileRuntimeStateView,
    message: Seq<char>,
) -> SyncPlanView {
    SyncPlanView { action, kind, state, message }
}

/// How a conflict is settled: `local_hash != remote_hash` and neither equals the last synced digest.
pub open spec fn resolve_conflict_spec(
    st: FileRuntimeStateView,
    local_hash: Seq<char>,
    remote_hash: Seq<char>,
    strategy: ConflictStrategy,
    is_initial: bool,
    now: Seq<char>,
) -> SyncPlanView {
    let signature = conflict_signature(local_hash, remote_hash);
    match strategy {
        ConflictStrategy::Local => plan_view(
            SyncAction::UploadLocal,
            SyncKind::Resolved,
            settled_state("resolved"@, "冲突已按本地版本解决"@, local_hash, now),
            "冲突已按本地版本解决"@,
        ),
        ConflictStrategy::Remote => plan_view(
            SyncAction::WriteRemoteToLocal,
            SyncKind::Resolved,
            settled_state("resolved"@, "冲突已按远端版本解决"@, remote_hash, now),
            "冲突已按远端版本解决"@,
        ),
        ConflictStrategy::Manual => plan_view(
            if st.last_conflict_signature == Some(signature) {
                SyncAction::Nothing
            } else {
                SyncAction::WriteConflictCopy
            },
            SyncKind::Conflict,
            FileRuntimeStateView {
                status: "conflict"@,
                detail: if is_initial {
                    "首次同步发现本地和远端内容不同，已保留本地并写出远端冲突副本"@
                } else {
                    "本地和远端都发生了变化，已保留本地并生成远端冲突副本"@
                },
                last_conflict_signature: Some(signature),
                ..st
            },
            "检测到冲突，已生成远端冲突副本"@,
        ),
    }
}

/// The sync step for a mapping in state `st`, given the digests of the local and the remote
/// content (`None` when that copy does not exist), whether the remote copy was modified later
/// than the local one, and the current time `now`.
pub open spec fn decide_sync_spec(
    st: FileRuntimeStateView,
    strategy: ConflictStrategy,
    local_hash: Option<Seq<char>>,
    remote_hash: Option<Seq<char>>,
    remote_newer: bool,
    now: Seq<char>,
) -> SyncPlanView {
    match (local_hash, remote_hash) {
        (Some(l), Some(r)) => if l == r {
            plan_view(
                SyncAction::Nothing,
                SyncKind::Synced,
                settled_state("synced"@, "本地与远端一致"@, l, now),
                "本地与远端一致"@,
            )
        } else {
            match st.last_synced_hash {
                Some(p) => if l == p {
                    plan_view(
                        SyncAction::WriteRemoteToLocal,
                        SyncKind::Pulled,
                        settled_state("pulled"@, "检测到远端更新，已拉取到本地"@, r, now),
                        "检测到远端更新，已拉取到本地"@,
                    )
                } else if r == p {
                    plan_view(
                        SyncAction::UploadLocal,
                        SyncKind::Pushed,
                        settled_state("pushed"@, "检测到本地更新，已推送到远端"@, l, now),
                        "检测到本地更新，已推送到远端"@,
                    )
                } else {
                    resolve_conflict_spec(st, l, r, strategy, false, now)
                },
                None => if strategy == ConflictStrategy::Manual && remote_newer {
                    plan_view(
                        SyncAction::WriteRemoteToLocal,
                        SyncKind::Pulled,
                        FileRuntimeStateView {
                            status: "pulled"@,
                            detail: "首次同步时发现远端较新，已拉取到本地"@,
                            last_synced_hash: Some(r),
                            last_sync_at: Some(now),
                            ..st
                        },
                        "首次同步发现远端较新，已拉取到本地"@,
                    )
                } else {
                    resolve_conflict_spec(st, l, r, strategy, true, now)
                },
            }
        },
        (Some(l), None) => plan_view(
            SyncAction::UploadLocal,
            SyncKind::Pushed,
            settled_state("pushed"@, "已将本地变更上传到远端"@, l, now),
            "远端不存在文件，已上传本地版本"@,
        ),
        (None, Some(r)) => plan_view(
            SyncAction::WriteRemoteToLocal,
            SyncKind::Pulled,
            settled_state("pulled"@, "已从远端恢复到本地"@, r, now),
            "本地不存在文件，已从远端恢复"@,
        ),
        (None, None) => plan_view(
            SyncAction::Nothing,
            SyncKind::Idle,
            FileRuntimeStateView {
                status: "idle"@,
                detail: "本地和远端都不存在该文件"@,
                ..st
            },
            "本地和远端都不存在该文件"@,
        ),
    }
}

fn settled(status: &str, detail: &str, hash: String, now: String) -> (r: FileRuntimeState)
    ensures
        r@ == settled_state(status@, detail@, hash@, now@),
{
    FileRuntimeState {
        last_synced_hash: Some(hash),
        status: String::from_str(status),
        detail: String::from_str(detail),
        last_sync_at: Some(now),
        last_conflict_signature: None,
        last_conflict_path: None,
    }
}

/// Whether an optional string holds exactly `s`.
fn holds_text(o: &Option<String>, s: &String) -> (b: bool)
    ensures
        b == (opt_view(*o) == Some(s@)),
{
    match o {
        Some(x) => *x == *s,
        None => false,
    }
}

/// Settles a conflict between the local content (digest `local_hash`) and the remote content
/// (digest `remote_hash`) by `strategy`.
pub fn resolve_conflict_state(
    state: FileRuntimeState,
    local_hash: String,
    remote_hash: String,
    strategy: ConflictStrategy,
    is_initial: bool,
    now: String,
) -> (p: SyncPlan)
    ensures
        p@ == resolve_conflict_spec(state@, local_hash@, remote_hash@, strategy, is_initial, now@),
{
    let signature = local_hash.clone().concat(":").concat(remote_hash.as_str());
    match strategy {
        ConflictStrategy::Local => SyncPlan {
            action: SyncAction::UploadLocal,
            kind: SyncKind::Resolved,
            state: settled("resolved", "冲突已按本地版本解决", local_hash, now),
            message: String::from_str("冲突已按本地版本解决"),
        },
        ConflictStrategy::Remote => SyncPlan {
            action: SyncAction::WriteRemoteToLocal,
            kind: SyncKind::Resolved,
            state: settled("resolved", "冲突已按远端版本解决", remote_hash, now),
            message: String::from_str("冲突已按远端版本解决"),
        },
        ConflictStrategy::Manual => {
            let same = holds_text(&state.last_conflict_signature, &signature);
            let mut next = state;
            next.status = String::from_str("conflict");
            next.detail = if is_initial {
                String::from_str("首次同步发现本地和远端内容不同，已保留本地并写出远端冲突副本")
            } else {
                String::from_str("本地和远端都发生了变化，已保留本地并生成远端冲突副本")
            };
            next.last_conflict_signature = Some(signature);
            SyncPlan {
                action: if same {
                    SyncAction::Nothing
                } else {
                    SyncAction::WriteConflictCopy
                },
                kind: SyncKind::Conflict,
                state: next,
                message: String::from_str("检测到冲突，已生成远端冲突副本"),
            }
        },
    }
}

/// Decides the sync step of a mapping from the digests of its two copies.
pub fn decide_sync(
    state: FileRuntimeState,
    strategy: ConflictStrategy,
    local_hash: Option<String>,
    remote_hash: Option<String>,
    remote_newer: bool,
    now: String,
) -> (p: SyncPlan)
    ensures
        p@ == decide_sync_spec(
            state@,
            strategy,
            opt_view(local_hash),
            opt_view(remote_hash),
            remote_newer,
            now@,
        ),
{
    match (local_hash, remote_hash) {
        (Some(l), Some(r)) => {
            if l == r {
                return SyncPlan {
                    action: SyncAction::Nothing,
                    kind: SyncKind::Synced,
                    state: settled("synced", "本地与远端一致", l, now),
                    message: String::from_str("本地与远端一致"),
                };
            }
            let previous = copy_opt(&state.last_synced_hash);
            match previous {
                Some(p) => {
                    if l == p {
                        SyncPlan {
                            action: SyncAction::WriteRemoteToLocal,
                            kind: SyncKind::Pulled,
                            state: settled("pulled", "检测到远端更新，已拉取到本地", r, now),
                            message: String::from_str("检测到远端更新，已拉取到本地"),
                        }
                    } else if r == p {
                        SyncPlan {
                            action: SyncAction::UploadLocal,
                            kind: SyncKind::Pushed,
                            state: settled("pushed", "检测到本地更新，已推送到远端", l, now),
                            message: String::from_str("检测到本地更新，已推送到远端"),
                        }
                    } else {
                        resolve_conflict_state(state, l, r, strategy, false, now)
                    }
                },
                None => {
                    if strategy == ConflictStrategy::Manual && remote_newer {
                        let mut next = state;
                        next.status = String::from_str("pulled");
                        next.detail = String::from_str("首次同步时发现远端较新，已拉取到本地");
                        next.last_synced_hash = Some(r);
                        next.last_sync_at = Some(now);
                        SyncPlan {
                            action: SyncAction::WriteRemoteToLocal,
                            kind: SyncKind::Pulled,
                            state: next,
                            message: String::from_str("首次同步发现远端较新，已拉取到本地"),
                        }
                    } else {
                        resolve_conflict_state(state, l, r, strategy, true, now)
                    }
                },
            }
        },
        (Some(l), None) => SyncPlan {
            action: SyncAction::UploadLocal,
            kind: SyncKind::Pushed,
            state: settled("pushed", "已将本地变更上传到远端", l, now),
            message: String::from_str("远端不存在文件，已上传本地版本"),
        },
        (None, Some(r)) => SyncPlan {
            action: SyncAction::WriteRemoteToLocal,
            kind: SyncKind::Pulled,
            state: settled("pulled", "已从远端恢复到本地", r, now),
            message: String::from_str("本地不存在文件，已从远端恢复"),
        },
        (None, None) => {
            let mut next = state;
            next.status = String::from_str("idle");
            next.detail = String::from_str("本地和远端都不存在该文件");
            SyncPlan {
                action: SyncAction::Nothing,
                kind: SyncKind::Idle,
                state: next,
                message: String::from_str("本地和远端都不存在该文件"),
            }
        },
    }
}

} // verus!

verus! {

impl SyncPlan {
    /// Records the path of the conflict copy that the caller wrote for this step.
    pub fn record_conflict_copy(&mut self, path: String)
        ensures
            final(self)@ == (SyncPlanView {
                state: FileRuntimeStateView {
                    last_conflict_path: Some(path@),
                    ..old(self)@.state
                },
                ..old(self)@
            }),
    {
        self.state.last_conflict_path = Some(path);
    }
}

/// The sync step of a mapping in `state`, given the local and the remote content (`None` when
/// that copy does not exist) and their modification times.
pub fn plan_sync(
    state: FileRuntimeState,
    strategy: ConflictStrategy,
    local: &Option<Vec<u8>>,
    local_modified: Option<Timestamp>,
    remote: &Option<Vec<u8>>,
    remote_modified: Option<Timestamp>,
    now: String,
) -> (p: SyncPlan)
    ensures
        p@ == decide_sync_spec(
            state@,
            strategy,
            content_digest(bytes_view(local)),
            content_digest(bytes_view(remote)),
            remote_newer_spec(local_modified, remote_modified),
            now@,
        ),
{
    let local_hash = digest_of(local);
    let remote_hash = digest_of(remote);
    let remote_newer = is_remote_newer(local_modified, remote_modified);
    decide_sync(state, strategy, local_hash, remote_hash, remote_newer, now)
}

/// The step that settles a reported conflict by `strategy`: both copies must exist.
pub open spec fn conflict_resolution_spec(
    st: FileRuntimeStateView,
    strategy: ConflictStrategy,
    local: Option<Seq<u8>>,
    remote: Option<Seq<u8>>,
    now: Seq<char>,
) -> Result<SyncPlanView, Seq<char>> {
    match (local, remote) {
        (None, _) => Err("本地文件不存在"@),
        (Some(_), None) => Err("远端文件不存在"@),
        (Some(l), Some(r)) => Ok(
            resolve_conflict_spec(st, sha256_hex(l), sha256_hex(r), strategy, false, now),
        ),
    }
}

/// Settles a reported conflict of a mapping by `strategy`, from the current local and remote
/// content.
pub fn plan_conflict_resolution(
    state: FileRuntimeState,
    strategy: ConflictStrategy,
    local: &Option<Vec<u8>>,
    remote: &Option<Vec<u8>>,
    now: String,
) -> (r: Result<SyncPlan, String>)
    ensures
        match r {
            Ok(p) => conflict_resolution_spec(state@, strategy, bytes_view(local), bytes_view(remote), now@)
                == Ok::<SyncPlanView, Seq<char>>(p@),
            Err(e) => conflict_resolution_spec(state@, strategy, bytes_view(local), bytes_view(remote), now@)
                == Err::<SyncPlanView, Seq<char>>(e@),
        },
{
    let local_hash = match local {
        Some(b) => hash_bytes(b.as_slice()),
        None => return Err(String::from_str("本地文件不存在")),
    };
    let remote_hash = match remote {
        Some(b) => hash_bytes(b.as_slice()),
        None => return Err(String::from_str("远端文件不存在")),
    };
    Ok(resolve_conflict_state(state, local_hash, remote_hash, strategy, false, now))
}

} // verus!

verus! {

/// The digests of the local and the remote copy once `action` has been performed.
pub open spec fn contents_after(
    action: SyncAction,
    local_hash: Option<Seq<char>>,
    remote_hash: Option<Seq<char>>,
) -> (Option<Seq<char>>, Option<Seq<char>>) {
    (
        if action == SyncAction::WriteRemoteToLocal { remote_hash } else { local_hash },
        if action == SyncAction::UploadLocal { local_hash } else { remote_hash },
    )
}

/// A successful step leaves both copies with the same content, and the state records the
/// digest of that content as the last synchronised one.
pub proof fn law_success_leaves_copies_equal(
    st: FileRuntimeStateView,
    strategy: ConflictStrategy,
    local_hash: Option<Seq<char>>,
    remote_hash: Option<Seq<char>>,
    remote_newer: bool,
    now: Seq<char>,
)
    ensures
        ({
            let p = decide_sync_spec(st, strategy, local_hash, remote_hash, remote_newer, now);
            let after = contents_after(p.action, local_hash, remote_hash);
            p.kind.is_success() ==> {
                &&& after.0 is Some
                &&& after.0 == after.1
                &&& after.0 == p.state.last_synced_hash
                &&& p.state.last_sync_at == Some(now)
            }
        }),
{
}

/// Once a step has succeeded, syncing the resulting copies again finds them in step: nothing
/// is transferred and the mapping is reported as synced with the same digest.
pub proof fn law_sync_reaches_fixpoint(
    st: FileRuntimeStateView,
    strategy: ConflictStrategy,
    local_hash: Option<Seq<char>>,
    remote_hash: Option<Seq<char>>,
    remote_newer: bool,
    now: Seq<char>,
    strategy2: ConflictStrategy,
    remote_newer2: bool,
    now2: Seq<char>,
)
    ensures
        ({
            let p = decide_sync_spec(st, strategy, local_hash, remote_hash, remote_newer, now);
            let after = contents_after(p.action, local_hash, remote_hash);
            let q = decide_sync_spec(p.state, strategy2, after.0, after.1, remote_newer2, now2);
            p.kind.is_success() ==> {
                &&& q.action == SyncAction::Nothing
                &&& q.kind == SyncKind::Synced
                &&& q.state.last_synced_hash == p.state.last_synced_hash
            }
        }),
{
}

/// Syncing unchanged conflicting copies again, with the manual strategy, writes no second
/// conflict copy: the conflict stays reported and nothing is transferred.
pub proof fn law_conflict_copy_written_once(
    st: FileRuntimeStateView,
    local_hash: Seq<char>,
    remote_hash: Seq<char>,
    remote_newer: bool,
    now: Seq<char>,
    copy_path: Option<Seq<char>>,
    now2: Seq<char>,
)
    ensures
        ({
            let p = decide_sync_spec(
                st,
                ConflictStrategy::Manual,
                Some(local_hash),
                Some(remote_hash),
                remote_newer,
                now,
            );
            let st2 = FileRuntimeStateView { last_conflict_path: copy_path, ..p.state };
            let q = decide_sync_spec(
                st2,
                ConflictStrategy::Manual,
                Some(local_hash),
                Some(remote_hash),
                remote_newer,
                now2,
            );
            p.kind == SyncKind::Conflict ==> {
                &&& q.kind == SyncKind::Conflict
                &&& q.action == SyncAction::Nothing
                &&& q.state.last_conflict_signature == p.state.last_conflict_signature
            }
        }),
{
}

/// With the manual strategy a copy changed since the last sync is never overwritten: the local
/// file is replaced only when it is missing, unchanged since the last sync, or (on a first sync)
/// older than the remote one; the remote file is replaced only when it is missing or unchanged.
pub proof fn law_manual_never_overwrites_changes(
    st: FileRuntimeStateView,
    local_hash: Option<Seq<char>>,
    remote_hash: Option<Seq<char>>,
    remote_newer: bool,
    now: Seq<char>,
)
    ensures
        ({
            let p = decide_sync_spec(
                st,
                ConflictStrategy::Manual,
                local_hash,
                remote_hash,
                remote_newer,
                now,
            );
            &&& p.action == SyncAction::WriteRemoteToLocal ==> (local_hash is None || local_hash
                == st.last_synced_hash || (st.last_synced_hash is None && remote_newer))
            &&& p.action == SyncAction::UploadLocal ==> (remote_hash is None || remote_hash
                == st.last_synced_hash)
        }),
{
}

/// A conflict step keeps the digest and time of the last successful sync, and records the
/// signature `local:remote` of the conflicting contents.
pub proof fn law_conflict_keeps_last_sync(
    st: FileRuntimeStateView,
    strategy: ConflictStrategy,
    local_hash: Option<Seq<char>>,
    remote_hash: Option<Seq<char>>,
    remote_newer: bool,
    now: Seq<char>,
)
    ensures
        ({
            let p = decide_sync_spec(st, strategy, local_hash, remote_hash, remote_newer, now);
            p.kind == SyncKind::Conflict ==> {
                &&& strategy == ConflictStrategy::Manual
                &&& p.state.last_synced_hash == st.last_synced_hash
                &&& p.state.last_sync_at == st.last_sync_at
                &&& p.state.last_conflict_signature == Some(
                    conflict_signature(local_hash->0, remote_hash->0),
                )
                &&& local_hash is Some && remote_hash is Some && local_hash != remote_hash
            }
        }),
{
}

} // verus!

verus! {

/// The sync step of the single-strategy synchroniser: conflicts always keep the local file and
/// write a conflict copy, and on a first sync the remote copy is taken when it is newer, unless
/// the same conflict was already reported.
pub open spec fn decide_basic_sync_spec(
    st: FileRuntimeStateView,
    local_hash: Option<Seq<char>>,
    remote_hash: Option<Seq<char>>,
    remote_newer: bool,
    now: Seq<char>,
) -> SyncPlanView {
    match (local_hash, remote_hash) {
        (Some(l), Some(r)) => if l == r {
            decide_sync_spec(st, ConflictStrategy::Manual, local_hash, remote_hash, remote_newer, now)
        } else {
            let signature = conflict_signature(l, r);
            let seen = st.last_conflict_signature == Some(signature);
            match st.last_synced_hash {
                Some(p) => if l == p || r == p {
                    decide_sync_spec(st, ConflictStrategy::Manual, local_hash, remote_hash, remote_newer, now)
                } else {
                    resolve_conflict_spec(st, l, r, ConflictStrategy::Manual, false, now)
                },
                None => if !seen && remote_newer {
                    decide_sync_spec(st, ConflictStrategy::Manual, local_hash, remote_hash, true, now)
                } else {
                    resolve_conflict_spec(st, l, r, ConflictStrategy::Manual, true, now)
                },
            }
        },
        _ => decide_sync_spec(st, ConflictStrategy::Manual, local_hash, remote_hash, remote_newer, now),
    }
}

/// Decides the step of the single-strategy synchroniser from the digests of the two copies.
pub fn decide_basic_sync(
    state: FileRuntimeState,
    local_hash: Option<String>,
    remote_hash: Option<String>,
    remote_newer: bool,
    now: String,
) -> (p: SyncPlan)
    ensures
        p@ == decide_basic_sync_spec(state@, opt_view(local_hash), opt_view(remote_hash), remote_newer, now@),
{
    let ghost lh = opt_view(local_hash);
    let ghost rh = opt_view(remote_hash);
    match (&local_hash, &remote_hash) {
        (Some(l), Some(r)) => {
            if *l != *r && state.last_synced_hash.is_none() {
                let signature = l.clone().concat(":").concat(r.as_str());
                let seen = holds_text(&state.last_conflict_signature, &signature);
                if seen || !remote_newer {
                    let l2 = l.clone();
                    let r2 = r.clone();
                    return resolve_conflict_state(state, l2, r2, ConflictStrategy::Manual, true, now);
                }
            }
        },
        _ => {},
    }
    decide_sync(state, ConflictStrategy::Manual, local_hash, remote_hash, remote_newer, now)
}


/// With the `local` strategy the local copy wins: when both copies exist and differ, the remote
/// content is written over the local file only when the local file is unchanged since the last
/// sync; on a first sync the local version is uploaded and the conflict reported as resolved,
/// whatever the modification times.
pub proof fn law_local_strategy_keeps_local(
    st: FileRuntimeStateView,
    l: Seq<char>,
    r: Seq<char>,
    remote_newer: bool,
    now: Seq<char>,
)
    requires
        l != r,
    ensures
        ({
            let p = decide_sync_spec(st, ConflictStrategy::Local, Some(l), Some(r), remote_newer, now);
            &&& p.action == SyncAction::WriteRemoteToLocal ==> st.last_synced_hash == Some(l)
            &&& st.last_synced_hash is None ==> {
                &&& p.action == SyncAction::UploadLocal
                &&& p.kind == SyncKind::Resolved
                &&& p.state.status == "resolved"@
                &&& p.state.last_synced_hash == Some(l)
                &&& p.state.last_sync_at == Some(now)
            }
        }),
{
}

/// With the `remote` strategy the remote copy wins: when both copies exist and differ, the local
/// content is uploaded over the remote file only when the remote file is unchanged since the
/// last sync; on a first sync the remote version is written locally and the conflict reported
/// as resolved, whatever the modification times.
pub proof fn law_remote_strategy_takes_remote(
    st: FileRuntimeStateView,
    l: Seq<char>,
    r: Seq<char>,
    remote_newer: bool,
    now: Seq<char>,
)
    requires
        l != r,
    ensures
        ({
            let p = decide_sync_spec(st, ConflictStrategy::Remote, Some(l), Some(r), remote_newer, now);
            &&& p.action == SyncAction::UploadLocal ==> st.last_synced_hash == Some(r)
            &&& st.last_synced_hash is None ==> {
                &&& p.action == SyncAction::WriteRemoteToLocal
                &&& p.kind == SyncKind::Resolved
                &&& p.state.status == "resolved"@
                &&& p.state.last_synced_hash == Some(r)
                &&& p.state.last_sync_at == Some(now)
            }
        }),
{
}

/// A file is only ever pulled over an existing, different local copy when that local copy is
/// unchanged since the last sync, or, on a first sync with the manual strategy, when the remote
/// copy is newer.
pub proof fn law_pull_needs_unchanged_local_or_manual_first_sync(
    st: FileRuntimeStateView,
    strategy: ConflictStrategy,
    l: Seq<char>,
    r: Seq<char>,
    remote_newer: bool,
    now: Seq<char>,
)
    requires
        l != r,
    ensures
        ({
            let p = decide_sync_spec(st, strategy, Some(l), Some(r), remote_newer, now);
            p.action == SyncAction::WriteRemoteToLocal ==> (st.last_synced_hash == Some(l) || (
            st.last_synced_hash is None && remote_newer && strategy == ConflictStrategy::Manual)
                || strategy == ConflictStrategy::Remote)
        }),
{
}
} // verus!
