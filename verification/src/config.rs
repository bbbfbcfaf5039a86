//! Normalisation and checks of the configuration.
use vstd::prelude::*;
use crate::clock::{compact_pattern, compact_stamp_form, formatted_instant, is_ascii_digit, read_clock, Timestamp};
use crate::models::{
    mapping_views, AppConfig, AppConfigView, ConflictStrategy, FileMapping, FileMappingView,
    SyncSettingsView, WebDavSettingsView, default_remote_dir_spec,
};
use crate::text::{
    ascii_lower, blank, is_blank, slashes, to_ascii_lower, to_forward_slashes, trim, trim_ws,
};

verus! {

/// The strategy that a configured name selects: `local` or `remote` in any ASCII case and with
/// surrounding white space; anything else is manual.
pub open spec fn parse_strategy_spec(value: Seq<char>) -> ConflictStrategy {
    let name = ascii_lower(trim_ws(value));
    if name == "local"@ {
        ConflictStrategy::Local
    } else if name == "remote"@ {
        ConflictStrategy::Remote
    } else {
        ConflictStrategy::Manual
    }
}

/// The strategy that a configured name selects.
pub fn parse_conflict_strategy(value: &str) -> (r: ConflictStrategy)
    ensures
        r == parse_strategy_spec(value@),
{
    let name = to_ascii_lower(trim(value).as_str());
    if name == String::from_str("local") {
        ConflictStrategy::Local
    } else if name == String::from_str("remote") {
        ConflictStrategy::Remote
    } else {
        ConflictStrategy::Manual
    }
}

/// The canonical name of a strategy.
pub open spec fn strategy_name(s: ConflictStrategy) -> Seq<char> {
    match s {
        ConflictStrategy::Local => "local"@,
        ConflictStrategy::Remote => "remote"@,
        ConflictStrategy::Manual => "manual"@,
    }
}

/// The canonical name of a strategy.
pub fn strategy_name_string(s: ConflictStrategy) -> (r: String)
    ensures
        r@ == strategy_name(s),
{
    match s {
        ConflictStrategy::Local => String::from_str("local"),
        ConflictStrategy::Remote => String::from_str("remote"),
        ConflictStrategy::Manual => String::from_str("manual"),
    }
}

/// A mapping is kept when its id is not blank.
pub open spec fn keeps_mapping() -> spec_fn(FileMappingView) -> bool {
    |m: FileMappingView| !is_blank(m.id)
}

/// A kept mapping with its name and local path trimmed and its remote path trimmed and written
/// with forward slashes.
pub open spec fn tidy_mapping() -> spec_fn(FileMappingView) -> FileMappingView {
    |m: FileMappingView|
        FileMappingView {
            name: trim_ws(m.name),
            local_path: trim_ws(m.local_path),
            remote_path: slashes(trim_ws(m.remote_path)),
            ..m
        }
}

/// The configured mappings after normalisation.
pub open spec fn normalized_mappings(ms: Seq<FileMappingView>) -> Seq<FileMappingView> {
    ms.filter(keeps_mapping()).map_values(tidy_mapping())
}

/// The configuration after normalisation, where `fresh_device_id` is the id given to a device
/// that has none.
pub open spec fn normalize_config_spec(c: AppConfigView, fresh_device_id: Seq<char>) -> AppConfigView {
    AppConfigView {
        webdav: WebDavSettingsView {
            base_url: trim_ws(c.webdav.base_url),
            username: trim_ws(c.webdav.username),
            device_id: if is_blank(c.webdav.device_id) {
                fresh_device_id
            } else {
                trim_ws(c.webdav.device_id)
            },
            remote_dir: if is_blank(c.webdav.remote_dir) {
                default_remote_dir_spec()
            } else {
                slashes(trim_ws(c.webdav.remote_dir))
            },
            sync_interval_secs: if c.webdav.sync_interval_secs < 10 {
                10
            } else {
                c.webdav.sync_interval_secs
            },
            ..c.webdav
        },
        sync: SyncSettingsView {
            default_conflict_strategy: strategy_name(
                parse_strategy_spec(c.sync.default_conflict_strategy),
            ),
            debounce_delay_secs: if c.sync.debounce_delay_secs < 3 {
                3
            } else if c.sync.debounce_delay_secs > 60 {
                60
            } else {
                c.sync.debounce_delay_secs
            },
            ..c.sync
        },
        mappings: normalized_mappings(c.mappings),
    }
}

fn tidy(m: FileMapping) -> (r: FileMapping)
    ensures
        r@ == (tidy_mapping())(m@),
{
    let name = trim(m.name.as_str());
    let local_path = trim(m.local_path.as_str());
    let remote_path = to_forward_slashes(trim(m.remote_path.as_str()).as_str());
    FileMapping { name, local_path, remote_path, ..m }
}

/// The mappings with a non-blank id, tidied.
pub fn normalize_mappings(ms: &Vec<FileMapping>) -> (r: Vec<FileMapping>)
    ensures
        mapping_views(r@) == normalized_mappings(mapping_views(ms@)),
{
    let ghost all = mapping_views(ms@);
    let mut r: Vec<FileMapping> = Vec::new();
    let n = ms.len();
    let mut i: usize = 0;
    while i < n
        invariant
            n == ms@.len(),
            i <= n,
            all == mapping_views(ms@),
            mapping_views(r@) == all.take(i as int).filter(keeps_mapping()).map_values(tidy_mapping()),
        decreases n - i,
    {
        let m = ms[i].clone();
        let keep = !blank(m.id.as_str());
        proof {
            let pre = all.take(i as int);
            assert(all.take(i + 1) =~= pre.push(all[i as int]));
            pre.lemma_filter_push(all[i as int], keeps_mapping());
            assert(m@ == all[i as int]);
            let f = pre.filter(keeps_mapping());
            assert(f.push(m@).map_values(tidy_mapping()) =~= f.map_values(tidy_mapping()).push(
                (tidy_mapping())(m@),
            ));
        }
        if keep {
            let t = tidy(m);
            r.push(t);
            assert(mapping_views(r@) =~= mapping_views(r@).drop_last().push(t@));
        }
        i = i + 1;
    }
    assert(all.take(n as int) =~= all);
    r
}

/// The configuration normalised, giving the device `fresh_device_id` when it has no id:
/// server address and user name trimmed, remote directory trimmed with forward slashes (or the
/// default one), sync interval at least 10 seconds, the conflict strategy in canonical form, the
/// debounce delay between 3 and 60 seconds, and mappings with a blank id dropped and the others
/// tidied.
pub fn normalize_config_with(config: AppConfig, fresh_device_id: String) -> (r: AppConfig)
    ensures
        r@ == normalize_config_spec(config@, fresh_device_id@),
{
    let mut config = config;
    config.webdav.base_url = trim(config.webdav.base_url.as_str());
    config.webdav.username = trim(config.webdav.username.as_str());
    config.webdav.device_id = if blank(config.webdav.device_id.as_str()) {
        fresh_device_id
    } else {
        trim(config.webdav.device_id.as_str())
    };
    config.webdav.remote_dir = if blank(config.webdav.remote_dir.as_str()) {
        String::from_str("my-sync")
    } else {
        to_forward_slashes(trim(config.webdav.remote_dir.as_str()).as_str())
    };
    if config.webdav.sync_interval_secs < 10 {
        config.webdav.sync_interval_secs = 10;
    }
    let strategy = parse_conflict_strategy(config.sync.default_conflict_strategy.as_str());
    config.sync.default_conflict_strategy = strategy_name_string(strategy);
    if config.sync.debounce_delay_secs < 3 {
        config.sync.debounce_delay_secs = 3;
    } else if config.sync.debounce_delay_secs > 60 {
        config.sync.debounce_delay_secs = 60;
    }
    config.mappings = normalize_mappings(&config.mappings);
    config
}

/// `id` is `client-` followed by the `%Y%m%d%H%M%S` stamp of the instant `t`, an instant
/// outside any leap second.
pub open spec fn client_id_at(id: Seq<char>, t: Timestamp) -> bool {
    &&& t.nanos < 1_000_000_000
    &&& id == "client-"@ + formatted_instant(t, compact_pattern())
    &&& compact_stamp_form(formatted_instant(t, compact_pattern()), t)
}

/// `id` is an id made for a device from the time of some instant.
pub open spec fn generated_client_id(id: Seq<char>) -> bool {
    exists|t: Timestamp| #[trigger] client_id_at(id, t)
}

/// A generated id is not blank and has no surrounding white space.
pub proof fn lemma_generated_id_trimmed(id: Seq<char>)
    requires
        generated_client_id(id),
    ensures
        id.len() > 0,
        trim_ws(id) == id,
        !is_blank(id),
{
    let t = choose|t: Timestamp| #[trigger] client_id_at(id, t);
    let s = formatted_instant(t, compact_pattern());
    reveal_strlit("client-");
    assert(id[0] == 'c');
    assert(id.last() == s[s.len() - 1]);
    assert(is_ascii_digit(s[s.len() - 1]) || s[s.len() - 1] == '+' || s[s.len() - 1] == '-');
    assert(!crate::text::CharClass::WhiteSpace.holds(id[0]));
    assert(!crate::text::CharClass::WhiteSpace.holds(id.last()));
    crate::text::lemma_trim_of_fixed(id, crate::text::CharClass::WhiteSpace);
}

/// The id a device gets when it has none: `client-` and the current time as `%Y%m%d%H%M%S`.
pub fn generate_client_id() -> (r: String)
    ensures
        generated_client_id(r@),
{
    let reading = read_clock();
    let r = String::from_str("client-").concat(reading.compact.as_str());
    proof {
        assert(client_id_at(r@, reading.instant));
    }
    r
}

/// What normalising with a usable fresh id gives: a non-blank device id, a remote root that can
/// be prepared exactly when server address and user name are not blank, and a configuration
/// that normalising again leaves as it is.
pub proof fn lemma_normalized_facts(c: AppConfigView, fresh: Seq<char>)
    requires
        is_blank(c.webdav.device_id) ==> fresh.len() > 0 && trim_ws(fresh) == fresh,
    ensures
        ({
            let n = normalize_config_spec(c, fresh);
            &&& !is_blank(n.webdav.device_id)
            &&& can_prepare_remote_root_spec(n) == (!is_blank(c.webdav.base_url) && !is_blank(
                c.webdav.username,
            ))
            &&& forall|again: Seq<char>| #[trigger] normalize_config_spec(n, again) == n
        }),
{
    let n = normalize_config_spec(c, fresh);
    reveal_strlit("client-");
    reveal_strlit("my-sync");
    let other: Seq<char> = "client-"@;
    crate::text::lemma_trim_of_fixed(other, crate::text::CharClass::WhiteSpace);
    if is_blank(c.webdav.device_id) {
        assert forall|again: Seq<char>| #[trigger] normalize_config_spec(n, again) == n by {
            law_normalize_config_idempotent(c, fresh, again);
        }
    } else {
        assert(normalize_config_spec(c, other) == n);
        crate::text::lemma_trim_of_idempotent(c.webdav.device_id, crate::text::CharClass::WhiteSpace);
        assert forall|again: Seq<char>| #[trigger] normalize_config_spec(n, again) == n by {
            law_normalize_config_idempotent(c, other, again);
        }
    }
    if !is_blank(c.webdav.remote_dir) {
        crate::text::lemma_trim_slashes_of_trimmed(c.webdav.remote_dir);
    }
}

/// The configuration normalised (see `normalize_config_with`); a device without an id gets
/// one made from the current time.  The result has a device id, its remote root can be
/// prepared exactly when server address and user name are not blank, and normalising it
/// again changes nothing.
pub fn normalize_config(config: AppConfig) -> (r: AppConfig)
    ensures
        is_blank(config@.webdav.device_id) ==> exists|fresh: Seq<char>|
            generated_client_id(fresh) && r@ == normalize_config_spec(config@, fresh),
        !is_blank(config@.webdav.device_id) ==> r@ == normalize_config_spec(config@, Seq::empty()),
        !is_blank(r@.webdav.device_id),
        can_prepare_remote_root_spec(r@) == (!is_blank(config@.webdav.base_url) && !is_blank(
            config@.webdav.username,
        )),
        forall|again: Seq<char>| #[trigger] normalize_config_spec(r@, again) == r@,
{
    let ghost c = config@;
    if blank(config.webdav.device_id.as_str()) {
        let fresh = generate_client_id();
        let r = normalize_config_with(config, fresh);
        proof {
            lemma_generated_id_trimmed(fresh@);
            lemma_normalized_facts(c, fresh@);
        }
        r
    } else {
        let r = normalize_config_with(config, String::new());
        proof {
            lemma_normalized_facts(c, Seq::empty());
        }
        r
    }
}

/// The configuration as the single-strategy synchroniser normalises it: server address and
/// user name trimmed, remote directory trimmed with forward slashes (or `configs`), sync
/// interval at least 10 seconds, and mappings with a blank id dropped and the others tidied; the
/// other settings stay as they are.
pub open spec fn normalize_basic_config_spec(c: AppConfigView) -> AppConfigView {
    AppConfigView {
        webdav: WebDavSettingsView {
            base_url: trim_ws(c.webdav.base_url),
            username: trim_ws(c.webdav.username),
            remote_dir: if is_blank(c.webdav.remote_dir) {
                "configs"@
            } else {
                slashes(trim_ws(c.webdav.remote_dir))
            },
            sync_interval_secs: if c.webdav.sync_interval_secs < 10 {
                10
            } else {
                c.webdav.sync_interval_secs
            },
            ..c.webdav
        },
        mappings: normalized_mappings(c.mappings),
        ..c
    }
}

/// The configuration as the single-strategy synchroniser normalises it.
pub fn normalize_basic_config(config: AppConfig) -> (r: AppConfig)
    ensures
        r@ == normalize_basic_config_spec(config@),
{
    let mut config = config;
    config.webdav.base_url = trim(config.webdav.base_url.as_str());
    config.webdav.username = trim(config.webdav.username.as_str());
    config.webdav.remote_dir = if blank(config.webdav.remote_dir.as_str()) {
        String::from_str("configs")
    } else {
        to_forward_slashes(trim(config.webdav.remote_dir.as_str()).as_str())
    };
    if config.webdav.sync_interval_secs < 10 {
        config.webdav.sync_interval_secs = 10;
    }
    config.mappings = normalize_mappings(&config.mappings);
    config
}

/// Whether the remote root can be prepared: server address, user name, remote directory and
/// device id are all set.
pub open spec fn can_prepare_remote_root_spec(c: AppConfigView) -> bool {
    c.webdav.base_url.len() > 0 && c.webdav.username.len() > 0 && c.webdav.remote_dir.len() > 0
        && c.webdav.device_id.len() > 0
}

/// Whether the remote root can be prepared.
pub fn can_prepare_remote_root(config: &AppConfig) -> (b: bool)
    ensures
        b == can_prepare_remote_root_spec(config@),
{
    !config.webdav.base_url.as_str().is_empty() && !config.webdav.username.as_str().is_empty()
        && !config.webdav.remote_dir.as_str().is_empty()
        && !config.webdav.device_id.as_str().is_empty()
}

} // verus!

verus! {

proof fn lemma_tidy_idempotent(m: FileMappingView)
    ensures
        (tidy_mapping())((tidy_mapping())(m)) == (tidy_mapping())(m),
        (keeps_mapping())((tidy_mapping())(m)) == (keeps_mapping())(m),
{
    crate::text::lemma_trim_of_idempotent(m.name, crate::text::CharClass::WhiteSpace);
    crate::text::lemma_trim_of_idempotent(m.local_path, crate::text::CharClass::WhiteSpace);
    crate::text::lemma_trim_slashes_of_trimmed(m.remote_path);
    crate::text::lemma_slashes_idempotent(trim_ws(m.remote_path));
}

proof fn lemma_normalized_mappings_idempotent(ms: Seq<FileMappingView>)
    ensures
        normalized_mappings(normalized_mappings(ms)) == normalized_mappings(ms),
    decreases ms.len(),
{
    reveal(Seq::filter);
    if ms.len() > 0 {
        let t = ms.drop_last();
        lemma_normalized_mappings_idempotent(t);
        lemma_tidy_idempotent(ms.last());
        assert(ms =~= t.push(ms.last()));
        t.lemma_filter_push(ms.last(), keeps_mapping());
        let ft = t.filter(keeps_mapping());
        let x = (tidy_mapping())(ms.last());
        if (keeps_mapping())(ms.last()) {
            assert(normalized_mappings(ms) =~= normalized_mappings(t).push(x));
            normalized_mappings(t).lemma_filter_push(x, keeps_mapping());
            assert(normalized_mappings(normalized_mappings(ms)) =~= normalized_mappings(
                normalized_mappings(t),
            ).push((tidy_mapping())(x)));
        } else {
            assert(normalized_mappings(ms) =~= normalized_mappings(t));
        }
    } else {
        assert(normalized_mappings(ms) =~= ms);
    }
}

proof fn lemma_strategy_name_parses(s: ConflictStrategy)
    ensures
        parse_strategy_spec(strategy_name(s)) == s,
{
    reveal_strlit("local");
    reveal_strlit("remote");
    reveal_strlit("manual");
    let n = strategy_name(s);
    crate::text::lemma_trim_of_fixed(n, crate::text::CharClass::WhiteSpace);
    assert(ascii_lower(n) =~= n);
}

/// Normalising a normalised configuration changes nothing: a configuration that was loaded and
/// is saved again stays as it was.  The id handed to a device without one must itself be a
/// trimmed, non-blank id.
pub proof fn law_normalize_config_idempotent(c: AppConfigView, fresh: Seq<char>, fresh2: Seq<char>)
    requires
        fresh.len() > 0,
        trim_ws(fresh) == fresh,
    ensures
        normalize_config_spec(normalize_config_spec(c, fresh), fresh2) == normalize_config_spec(c, fresh),
{
    let once = normalize_config_spec(c, fresh);
    crate::text::lemma_trim_of_idempotent(c.webdav.base_url, crate::text::CharClass::WhiteSpace);
    crate::text::lemma_trim_of_idempotent(c.webdav.username, crate::text::CharClass::WhiteSpace);
    crate::text::lemma_trim_of_idempotent(c.webdav.device_id, crate::text::CharClass::WhiteSpace);
    crate::text::lemma_trim_slashes_of_trimmed(c.webdav.remote_dir);
    crate::text::lemma_slashes_idempotent(trim_ws(c.webdav.remote_dir));
    reveal_strlit("my-sync");
    crate::text::lemma_trim_of_fixed(default_remote_dir_spec(), crate::text::CharClass::WhiteSpace);
    assert(slashes(default_remote_dir_spec()) =~= default_remote_dir_spec());
    lemma_strategy_name_parses(parse_strategy_spec(c.sync.default_conflict_strategy));
    lemma_normalized_mappings_idempotent(c.mappings);
    assert(normalize_config_spec(once, fresh2).webdav == once.webdav);
    assert(normalize_config_spec(once, fresh2).sync == once.sync);
}

/// Normalising twice in the single-strategy synchroniser changes nothing more than normalising
/// once.
pub proof fn law_normalize_basic_config_idempotent(c: AppConfigView)
    ensures
        normalize_basic_config_spec(normalize_basic_config_spec(c)) == normalize_basic_config_spec(c),
{
    let once = normalize_basic_config_spec(c);
    crate::text::lemma_trim_of_idempotent(c.webdav.base_url, crate::text::CharClass::WhiteSpace);
    crate::text::lemma_trim_of_idempotent(c.webdav.username, crate::text::CharClass::WhiteSpace);
    crate::text::lemma_trim_slashes_of_trimmed(c.webdav.remote_dir);
    crate::text::lemma_slashes_idempotent(trim_ws(c.webdav.remote_dir));
    reveal_strlit("configs");
    crate::text::lemma_trim_of_fixed("configs"@, crate::text::CharClass::WhiteSpace);
    assert(slashes("configs"@) =~= "configs"@);
    lemma_normalized_mappings_idempotent(c.mappings);
    assert(normalize_basic_config_spec(once).webdav == once.webdav);
}

/// The canonical name of a strategy selects that strategy again.
pub proof fn law_strategy_name_round_trip(s: ConflictStrategy)
    ensures
        parse_strategy_spec(strategy_name(s)) == s,
{
    lemma_strategy_name_parses(s);
}


/// What a filter keeps comes from the filtered sequence.
proof fn lemma_filtered_from(s: Seq<FileMappingView>, pred: spec_fn(FileMappingView) -> bool, i: int)
    requires
        0 <= i < s.filter(pred).len(),
    ensures
        s.contains(s.filter(pred)[i]),
    decreases s.len(),
{
    reveal(Seq::filter);
    if s.len() == 0 {
        assert(s.filter(pred).len() == 0);
    } else {
        let t = s.drop_last();
        if pred(s.last()) && i == s.filter(pred).len() - 1 {
            assert(s[s.len() - 1] == s.filter(pred)[i]);
        } else {
            assert(s.filter(pred)[i] == t.filter(pred)[i]);
            lemma_filtered_from(t, pred, i);
            let k = choose|k: int| 0 <= k < t.len() && t[k] == t.filter(pred)[i];
            assert(s[k] == t[k]);
        }
    }
}

/// Normalising keeps every setting that it does not tidy: the password, the space, the device
/// name, automatic sync, the file watcher and launching at boot, and each kept mapping's id.
pub proof fn law_normalize_keeps_untouched_settings(c: AppConfigView, fresh: Seq<char>)
    ensures
        ({
            let n = normalize_config_spec(c, fresh);
            &&& n.webdav.password == c.webdav.password
            &&& n.webdav.space_id == c.webdav.space_id
            &&& n.webdav.device_name == c.webdav.device_name
            &&& n.webdav.auto_sync == c.webdav.auto_sync
            &&& n.sync.fs_watch_enabled == c.sync.fs_watch_enabled
            &&& n.sync.launch_on_boot == c.sync.launch_on_boot
            &&& forall|i: int| 0 <= i < n.mappings.len() ==> c.mappings.map_values(
                |m: FileMappingView| m.id,
            ).contains(#[trigger] n.mappings[i].id)
        }),
        ({
            let b = normalize_basic_config_spec(c);
            &&& b.webdav.password == c.webdav.password
            &&& b.webdav.space_id == c.webdav.space_id
            &&& b.webdav.device_id == c.webdav.device_id
            &&& b.webdav.device_name == c.webdav.device_name
            &&& b.webdav.auto_sync == c.webdav.auto_sync
            &&& b.sync == c.sync
        }),
{
    broadcast use vstd::seq_lib::group_filter_ensures;
    let n = normalize_config_spec(c, fresh);
    let kept = c.mappings.filter(keeps_mapping());
    let ids = c.mappings.map_values(|m: FileMappingView| m.id);
    assert forall|i: int| 0 <= i < n.mappings.len() implies ids.contains(
        #[trigger] n.mappings[i].id,
    ) by {
        assert(n.mappings[i] == (tidy_mapping())(kept[i]));
        lemma_filtered_from(c.mappings, keeps_mapping(), i);
        assert(c.mappings.contains(kept[i]));
        let j = choose|j: int| 0 <= j < c.mappings.len() && c.mappings[j] == kept[i];
        assert(ids[j] == n.mappings[i].id);
    }
}
} // verus!
