//! The sync log: entries describing what the synchroniser did, newest last.
use vstd::prelude::*;
use crate::clock::read_clock;
use crate::models::{copy_opt, opt_view, FileMapping, FileMappingView};
use crate::text::{signed_decimal, signed_decimal_string};

verus! {

/// Most entries the log keeps.
pub const MAX_LOG_ENTRIES: usize = 500;

/// One entry of the sync log.
pub struct SyncLogEntry {
    pub id: String,
    pub timestamp: String,
    pub level: String,
    pub action: String,
    pub summary: String,
    pub detail: String,
    pub http_status: Option<u16>,
    pub mapping_id: Option<String>,
    pub mapping_name: Option<String>,
    pub local_path: Option<String>,
    pub remote_path: Option<String>,
    pub target_path: Option<String>,
}

pub struct SyncLogEntryView {
    pub id: Seq<char>,
    pub timestamp: Seq<char>,
    pub level: Seq<char>,
    pub action: Seq<char>,
    pub summary: Seq<char>,
    pub detail: Seq<char>,
    pub http_status: Option<u16>,
    pub mapping_id: Option<Seq<char>>,
    pub mapping_name: Option<Seq<char>>,
    pub local_path: Option<Seq<char>>,
    pub remote_path: Option<Seq<char>>,
    pub target_path: Option<Seq<char>>,
}

impl View for SyncLogEntry {
    type V = SyncLogEntryView;

    open spec fn view(&self) -> SyncLogEntryView {
        SyncLogEntryView {
            id: self.id@,
            timestamp: self.timestamp@,
            level: self.level@,
            action: self.action@,
            summary: self.summary@,
            detail: self.detail@,
            http_status: self.http_status,
            mapping_id: opt_view(self.mapping_id),
            mapping_name: opt_view(self.mapping_name),
            local_path: opt_view(self.local_path),
            remote_path: opt_view(self.remote_path),
            target_path: opt_view(self.target_path),
        }
    }
}

impl Clone for SyncLogEntry {
    fn clone(&self) -> (r: Self)
        ensures
            r@ == self@,
    {
        SyncLogEntry {
            id: self.id.clone(),
            timestamp: self.timestamp.clone(),
            level: self.level.clone(),
            action: self.action.clone(),
            summary: self.summary.clone(),
            detail: self.detail.clone(),
            http_status: self.http_status,
            mapping_id: copy_opt(&self.mapping_id),
            mapping_name: copy_opt(&self.mapping_name),
            local_path: copy_opt(&self.local_path),
            remote_path: copy_opt(&self.remote_path),
            target_path: copy_opt(&self.target_path),
        }
    }
}

/// The views of a sequence of log entries.
pub open spec fn log_views(v: Seq<SyncLogEntry>) -> Seq<SyncLogEntryView> {
    v.map_values(|e: SyncLogEntry| e@)
}

/// What a new log entry says.
pub struct LogEntryArgs<'a> {
    pub mapping: Option<&'a FileMapping>,
    pub level: &'a str,
    pub action: &'a str,
    pub summary: &'a str,
    pub detail: &'a str,
    pub http_status: Option<u16>,
    pub local_path: Option<String>,
    pub target_path: Option<String>,
}

/// What a log entry says, apart from its identifier and timestamp.
pub struct LogFields {
    pub mapping: Option<FileMappingView>,
    pub level: Seq<char>,
    pub action: Seq<char>,
    pub summary: Seq<char>,
    pub detail: Seq<char>,
    pub http_status: Option<u16>,
    pub local_path: Option<Seq<char>>,
    pub target_path: Option<Seq<char>>,
}

/// The fields that `args` describe.
pub open spec fn args_fields(args: LogEntryArgs) -> LogFields {
    LogFields {
        mapping: match args.mapping {
            Some(m) => Some(m@),
            None => None,
        },
        level: args.level@,
        action: args.action@,
        summary: args.summary@,
        detail: args.detail@,
        http_status: args.http_status,
        local_path: opt_view(args.local_path),
        target_path: opt_view(args.target_path),
    }
}

/// Fields without a mapping, HTTP status or paths.
pub open spec fn plain_fields(level: Seq<char>, action: Seq<char>, summary: Seq<char>, detail: Seq<char>) -> LogFields {
    LogFields {
        mapping: None,
        level,
        action,
        summary,
        detail,
        http_status: None,
        local_path: None,
        target_path: None,
    }
}

/// The entry with fields `f`, identifier `id` and timestamp `timestamp`.  The entry's local path
/// is the given one, else the mapping's.
pub open spec fn entry_with(f: LogFields, id: Seq<char>, timestamp: Seq<char>) -> SyncLogEntryView {
    SyncLogEntryView {
        id,
        timestamp,
        level: f.level,
        action: f.action,
        summary: f.summary,
        detail: f.detail,
        http_status: f.http_status,
        mapping_id: match f.mapping {
            Some(m) => Some(m.id),
            None => None,
        },
        mapping_name: match f.mapping {
            Some(m) => Some(m.name),
            None => None,
        },
        local_path: match f.local_path {
            Some(p) => Some(p),
            None => match f.mapping {
                Some(m) => Some(m.local_path),
                None => None,
            },
        },
        remote_path: match f.mapping {
            Some(m) => Some(m.remote_path),
            None => None,
        },
        target_path: f.target_path,
    }
}

/// The entry that `args` describe, with identifier `log-<micros>` and the given timestamp.
pub open spec fn entry_spec(args: LogEntryArgs, micros: int, timestamp: Seq<char>) -> SyncLogEntryView {
    entry_with(args_fields(args), "log-"@ + signed_decimal(micros), timestamp)
}

/// Whether `e` says what `f` describe (all but its identifier and timestamp).
pub open spec fn entry_describes(e: SyncLogEntryView, f: LogFields) -> bool {
    e == entry_with(f, e.id, e.timestamp)
}

/// The log entry that `args` describe, made at the instant whose Unix time in microseconds is
/// `micros` and whose RFC 3339 text is `timestamp`.
pub fn log_entry_at(args: LogEntryArgs, micros: i64, timestamp: String) -> (e: SyncLogEntry)
    ensures
        e@ == entry_spec(args, micros as int, timestamp@),
{
    let id = String::from_str("log-").concat(signed_decimal_string(micros).as_str());
    let mapping_id = match args.mapping {
        Some(m) => Some(m.id.clone()),
        None => None,
    };
    let mapping_name = match args.mapping {
        Some(m) => Some(m.name.clone()),
        None => None,
    };
    let local_path = match args.local_path {
        Some(p) => Some(p),
        None => match args.mapping {
            Some(m) => Some(m.local_path.clone()),
            None => None,
        },
    };
    let remote_path = match args.mapping {
        Some(m) => Some(m.remote_path.clone()),
        None => None,
    };
    SyncLogEntry {
        id,
        timestamp,
        level: String::from_str(args.level),
        action: String::from_str(args.action),
        summary: String::from_str(args.summary),
        detail: String::from_str(args.detail),
        http_status: args.http_status,
        mapping_id,
        mapping_name,
        local_path,
        remote_path,
        target_path: args.target_path,
    }
}

/// `e` carries the identifier and timestamp of the instant `t` (outside any leap second):
/// `log-` and its Unix time in microseconds, and its RFC 3339 text.
pub open spec fn stamped_at(e: SyncLogEntryView, t: crate::clock::Timestamp) -> bool {
    &&& t.nanos < 1_000_000_000
    &&& e.id == "log-"@ + signed_decimal(t.secs * 1_000_000 + t.nanos / 1000)
    &&& e.timestamp == crate::clock::rfc3339_text(t)
}

/// The log entry that `args` describe, stamped with the current time: its identifier is `log-`
/// and the Unix time in microseconds of the instant read, its timestamp that instant's RFC
/// 3339 text.
pub fn log_entry(args: LogEntryArgs) -> (e: SyncLogEntry)
    ensures
        entry_describes(e@, args_fields(args)),
        exists|t: crate::clock::Timestamp| #[trigger] stamped_at(e@, t),
{
    let clock = read_clock();
    let ghost t = clock.instant;
    let e = log_entry_at(args, clock.micros, clock.rfc3339);
    assert(stamped_at(e@, t));
    e
}

/// The log after appending `logs`: the newest `MAX_LOG_ENTRIES` entries of the concatenation.
pub open spec fn appended_log(target: Seq<SyncLogEntryView>, logs: Seq<SyncLogEntryView>) -> Seq<
    SyncLogEntryView,
> {
    let all = target + logs;
    if all.len() > MAX_LOG_ENTRIES {
        all.skip(all.len() - MAX_LOG_ENTRIES)
    } else {
        all
    }
}

/// Appends `logs` to `target`, then drops the oldest entries beyond `MAX_LOG_ENTRIES`.
pub fn append_logs(target: &mut Vec<SyncLogEntry>, logs: Vec<SyncLogEntry>)
    ensures
        log_views(final(target)@) == appended_log(log_views(old(target)@), log_views(logs@)),
{
    let ghost all = log_views(old(target)@) + log_views(logs@);
    let mut combined: Vec<SyncLogEntry> = Vec::new();
    std::mem::swap(&mut combined, target);
    let mut rest = logs;
    combined.append(&mut rest);
    assert(log_views(combined@) =~= all);
    let n = combined.len();
    if n > MAX_LOG_ENTRIES {
        let skip = n - MAX_LOG_ENTRIES;
        let mut kept: Vec<SyncLogEntry> = Vec::new();
        let mut i = skip;
        while i < n
            invariant
                skip <= i <= n == combined@.len(),
                log_views(combined@) == all,
                kept@.len() == i - skip,
                log_views(kept@) == all.subrange(skip as int, i as int),
            decreases n - i,
        {
            let e = combined[i].clone();
            assert(e@ == all[i as int]);
            kept.push(e);
            i = i + 1;
            assert(log_views(kept@) =~= all.subrange(skip as int, i as int));
        }
        assert(all.subrange(skip as int, n as int) =~= all.skip(skip as int));
        *target = kept;
    } else {
        *target = combined;
    }
}

/// The log, newest entry first.
pub fn newest_first(logs: &Vec<SyncLogEntry>) -> (r: Vec<SyncLogEntry>)
    ensures
        log_views(r@) == log_views(logs@).reverse(),
{
    let mut r: Vec<SyncLogEntry> = Vec::new();
    let n = logs.len();
    let mut i = n;
    while i > 0
        invariant
            i <= n == logs@.len(),
            r@.len() == n - i,
            log_views(r@) == log_views(logs@).reverse().take(n - i),
        decreases i,
    {
        i = i - 1;
        let e = logs[i].clone();
        assert(e@ == log_views(logs@).reverse()[n - 1 - i]);
        r.push(e);
        assert(log_views(r@) =~= log_views(logs@).reverse().take(n - i));
    }
    assert(log_views(logs@).reverse().take(n as int) =~= log_views(logs@).reverse());
    r
}

} // verus!

verus! {

/// A copy of a log.
pub fn copy_logs(v: &Vec<SyncLogEntry>) -> (r: Vec<SyncLogEntry>)
    ensures
        log_views(r@) == log_views(v@),
{
    let mut r: Vec<SyncLogEntry> = Vec::new();
    for i in 0..v.len()
        invariant
            r.len() == i,
            log_views(r@) == log_views(v@).take(i as int),
    {
        let x = v[i].clone();
        r.push(x);
        assert(log_views(r@) =~= log_views(v@).take(i + 1));
    }
    assert(log_views(v@).take(v.len() as int) =~= log_views(v@));
    r
}

} // verus!

verus! {

/// The log never holds more than `MAX_LOG_ENTRIES` entries; appending keeps the newest entries
/// in order, and all new entries when they fit.
pub proof fn law_log_keeps_newest(target: Seq<SyncLogEntryView>, logs: Seq<SyncLogEntryView>)
    ensures
        ({
            let after = appended_log(target, logs);
            let all = target + logs;
            &&& after.len() <= MAX_LOG_ENTRIES || after.len() == all.len()
            &&& after.len() == if all.len() > MAX_LOG_ENTRIES { MAX_LOG_ENTRIES as int } else { all.len() as int }
            &&& after == all.skip(all.len() - after.len())
            &&& logs.len() <= MAX_LOG_ENTRIES ==> after.skip(after.len() - logs.len()) == logs
        }),
{
    let all = target + logs;
    let after = appended_log(target, logs);
    assert(all.skip(0) =~= all);
    if logs.len() <= MAX_LOG_ENTRIES {
        assert(after.skip(after.len() - logs.len()) =~= logs);
    }
}

} // verus!
