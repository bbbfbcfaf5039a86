//! Whether the configuration is ready for a sync run.
use vstd::prelude::*;
use crate::models::{mapping_views, AppConfig, AppConfigView, FileMappingView};
use crate::states::{count_with_status, FileStates};
use crate::text::{blank, decimal, decimal_string, is_blank};

verus! {

/// Largest file the synchroniser handles: 1 MiB.
pub const MAX_SYNC_FILE_BYTES: u64 = 1048576;

/// What the file system says of a mapping's local path.
#[derive(Clone, Copy, PartialEq, Eq, Structural, Debug)]
pub struct LocalFileProbe {
    /// The path exists.
    pub exists: bool,
    /// The size in bytes, when the metadata could be read.
    pub size: Option<u64>,
}

/// What keeps a mapping from being synchronised, if anything.
pub open spec fn mapping_problem(m: FileMappingView, probe: LocalFileProbe) -> Option<Seq<char>> {
    if is_blank(m.local_path) {
        Some(m.name + " 缺少本地路径"@)
    } else if is_blank(m.remote_path) {
        Some(m.name + " 缺少远端路径"@)
    } else if !probe.exists {
        Some(m.name + " 的本地文件不存在"@)
    } else if probe.size matches Some(size) && size > MAX_SYNC_FILE_BYTES {
        Some(m.name + " 超过 1MB 限制"@)
    } else {
        None
    }
}

/// The problem of the first mapping that has one.
pub open spec fn first_problem(ms: Seq<FileMappingView>, probes: Seq<LocalFileProbe>) -> Option<
    Seq<char>,
>
    decreases ms.len(),
{
    if ms.len() == 0 || probes.len() == 0 {
        None
    } else {
        match mapping_problem(ms[0], probes[0]) {
            Some(p) => Some(p),
            None => first_problem(ms.drop_first(), probes.drop_first()),
        }
    }
}

/// Readiness of `c` for a run, with a message: settings complete, every mapping's local file
/// present and within the size limit, and no conflict waiting.
pub open spec fn readiness_spec(
    c: AppConfigView,
    states: Map<Seq<char>, crate::models::FileRuntimeStateView>,
    probes: Seq<LocalFileProbe>,
) -> (bool, Seq<char>) {
    if is_blank(c.webdav.base_url) {
        (false, "缺少 WebDAV 服务地址"@)
    } else if is_blank(c.webdav.username) {
        (false, "缺少 WebDAV 用户名"@)
    } else if c.mappings.len() == 0 {
        (false, "还没有配置文件映射"@)
    } else {
        match first_problem(c.mappings, probes) {
            Some(p) => (false, p),
            None => {
                let conflicts = count_with_status(states, "conflict"@);
                if conflicts > 0 {
                    (false, "有 "@ + decimal(conflicts) + " 个冲突待处理"@)
                } else {
                    (true, "配置完整，本地文件有效，可开始同步"@)
                }
            },
        }
    }
}

/// Whether the configuration is ready for a run, with a message saying why not.  `probes[i]`
/// is what the file system says of the local path of `config.mappings[i]`.
pub fn evaluate_readiness(config: &AppConfig, file_states: &FileStates, probes: &Vec<LocalFileProbe>) -> (r: (
    bool,
    String,
))
    requires
        probes@.len() == config.mappings@.len(),
    ensures
        (r.0, r.1@) == readiness_spec(config@, file_states@, probes@),
{
    if blank(config.webdav.base_url.as_str()) {
        return (false, String::from_str("缺少 WebDAV 服务地址"));
    }
    if blank(config.webdav.username.as_str()) {
        return (false, String::from_str("缺少 WebDAV 用户名"));
    }
    if config.mappings.len() == 0 {
        return (false, String::from_str("还没有配置文件映射"));
    }
    let ghost ms = mapping_views(config.mappings@);
    let n = config.mappings.len();
    let mut i: usize = 0;
    assert(ms.skip(0) =~= ms && probes@.skip(0) =~= probes@);
    while i < n
        invariant
            !is_blank(config@.webdav.base_url),
            !is_blank(config@.webdav.username),
            config@.mappings.len() > 0,
            n == config.mappings@.len() == probes@.len() == ms.len(),
            ms == mapping_views(config.mappings@),
            i <= n,
            first_problem(ms, probes@) == first_problem(ms.skip(i as int), probes@.skip(i as int)),
        decreases n - i,
    {
        let m = &config.mappings[i];
        let p = probes[i];
        proof {
            let rest = ms.skip(i as int);
            let prest = probes@.skip(i as int);
            assert(rest[0] == m@);
            assert(prest[0] == p);
            assert(rest.drop_first() =~= ms.skip(i + 1));
            assert(prest.drop_first() =~= probes@.skip(i + 1));
        }
        if blank(m.local_path.as_str()) {
            return (false, m.name.clone().concat(" 缺少本地路径"));
        }
        if blank(m.remote_path.as_str()) {
            return (false, m.name.clone().concat(" 缺少远端路径"));
        }
        if !p.exists {
            return (false, m.name.clone().concat(" 的本地文件不存在"));
        }
        match p.size {
            Some(size) => {
                if size > MAX_SYNC_FILE_BYTES {
                    return (false, m.name.clone().concat(" 超过 1MB 限制"));
                }
            },
            None => {},
        }
        i = i + 1;
    }
    proof {
        assert(ms.skip(n as int).len() == 0);
    }
    let conflicts = file_states.count_status("conflict");
    if conflicts > 0 {
        let msg = String::from_str("有 ").concat(decimal_string(conflicts as u64).as_str()).concat(
            " 个冲突待处理",
        );
        return (false, msg);
    }
    (true, String::from_str("配置完整，本地文件有效，可开始同步"))
}

} // verus!

verus! {

proof fn lemma_no_first_problem(ms: Seq<FileMappingView>, probes: Seq<LocalFileProbe>)
    requires
        ms.len() == probes.len(),
        first_problem(ms, probes) is None,
    ensures
        forall|i: int| 0 <= i < ms.len() ==> mapping_problem(#[trigger] ms[i], probes[i]) is None,
    decreases ms.len(),
{
    if ms.len() > 0 {
        lemma_no_first_problem(ms.drop_first(), probes.drop_first());
        assert forall|i: int| 0 <= i < ms.len() implies mapping_problem(#[trigger] ms[i], probes[i]) is None by {
            if i > 0 {
                assert(ms[i] == ms.drop_first()[i - 1]);
                assert(probes[i] == probes.drop_first()[i - 1]);
            }
        }
    }
}

/// A ready configuration can run: server address and user name are set, there is a mapping,
/// every mapping has both paths and an existing local file within the size limit, and no
/// mapping waits in conflict.
pub proof fn law_ready_means_runnable(
    c: AppConfigView,
    states: Map<Seq<char>, crate::models::FileRuntimeStateView>,
    probes: Seq<LocalFileProbe>,
)
    requires
        probes.len() == c.mappings.len(),
        readiness_spec(c, states, probes).0,
    ensures
        !is_blank(c.webdav.base_url),
        !is_blank(c.webdav.username),
        c.mappings.len() > 0,
        forall|i: int| 0 <= i < c.mappings.len() ==> {
            &&& !is_blank((#[trigger] c.mappings[i]).local_path)
            &&& !is_blank(c.mappings[i].remote_path)
            &&& probes[i].exists
            &&& (probes[i].size matches Some(size) ==> size <= MAX_SYNC_FILE_BYTES)
        },
        count_with_status(states, "conflict"@) == 0,
{
    lemma_no_first_problem(c.mappings, probes);
    assert forall|i: int| 0 <= i < c.mappings.len() implies {
        &&& !is_blank((#[trigger] c.mappings[i]).local_path)
        &&& !is_blank(c.mappings[i].remote_path)
        &&& probes[i].exists
        &&& (probes[i].size matches Some(size) ==> size <= MAX_SYNC_FILE_BYTES)
    } by {
        assert(mapping_problem(c.mappings[i], probes[i]) is None);
    }
}

} // verus!
