//! Instants and their order.
use vstd::prelude::*;

verus! {

/// An instant: whole seconds since the Unix epoch and the nanoseconds past them.  As in
/// `chrono`, `nanos` reaches past 999_999_999 only inside a leap second.
#[derive(Clone, Copy, PartialEq, Eq, Structural, Debug)]
pub struct Timestamp {
    pub secs: i64,
    pub nanos: u32,
}

/// `a` is strictly later than `b` (the order of `chrono::DateTime`).
pub open spec fn later_than(a: Timestamp, b: Timestamp) -> bool {
    a.secs > b.secs || (a.secs == b.secs && a.nanos > b.nanos)
}

/// Whether the remote copy counts as newer than the local one.
pub open spec fn remote_newer_spec(local: Option<Timestamp>, remote: Option<Timestamp>) -> bool {
    match (local, remote) {
        (Some(l), Some(r)) => later_than(r, l),
        (None, Some(_)) => true,
        _ => false,
    }
}

/// Whether the remote copy counts as newer than the local one: it is when both times are known
/// and the remote one is later, or when only the remote time is known.
pub fn is_remote_newer(local: Option<Timestamp>, remote: Option<Timestamp>) -> (b: bool)
    ensures
        b == remote_newer_spec(local, remote),
{
    match (local, remote) {
        (Some(l), Some(r)) => r.secs > l.secs || (r.secs == l.secs && r.nanos > l.nanos),
        (None, Some(_)) => true,
        _ => false,
    }
}

} // verus!

verus! {

/// One reading of the system clock, rendered in the forms the synchroniser records.
pub struct ClockReading {
    /// The instant itself.
    pub instant: Timestamp,
    /// RFC 3339 text of the instant (`DateTime::to_rfc3339`).
    pub rfc3339: String,
    /// Microseconds since the Unix epoch (`DateTime::timestamp_micros`).
    pub micros: i64,
    /// `%Y%m%d%H%M%S` of the instant.
    pub compact: String,
    /// `%Y%m%d-%H%M%S` of the instant.
    pub file_stamp: String,
}

/// The text that `DateTime::<Utc>::format(pattern).to_string()` writes for an instant.
pub uninterp spec fn formatted_instant(t: Timestamp, pattern: Seq<char>) -> Seq<char>;

/// Seconds from the Unix epoch to the start of the year 0 (the epoch is later).
pub open spec fn year_0_secs() -> int {
    -62_167_219_200
}

/// Seconds from the Unix epoch to the start of the year 10000.
pub open spec fn year_10000_secs() -> int {
    253_402_300_800
}

/// An ASCII decimal digit.
pub open spec fn is_ascii_digit(c: char) -> bool {
    '0' <= c && c <= '9'
}

/// The pattern of the compact time stamp.
pub open spec fn compact_pattern() -> Seq<char> {
    "%Y%m%d%H%M%S"@
}

/// The pattern of the time stamp in file names.
pub open spec fn file_stamp_pattern() -> Seq<char> {
    "%Y%m%d-%H%M%S"@
}

/// The shape of `%Y%m%d%H%M%S` for an instant `t`: at least 14 characters, each a digit or the
/// sign that chrono writes before a year outside 0 to 9999; in the years 0 to 9999, exactly 14
/// digits.
pub open spec fn compact_stamp_form(s: Seq<char>, t: Timestamp) -> bool {
    &&& s.len() >= 14
    &&& forall|i: int| 0 <= i < s.len() ==> is_ascii_digit(#[trigger] s[i]) || s[i] == '+' || s[i] == '-'
    &&& year_0_secs() <= t.secs < year_10000_secs() ==> s.len() == 14 && forall|i: int|
        0 <= i < 14 ==> is_ascii_digit(#[trigger] s[i])
}

/// The shape of `%Y%m%d-%H%M%S` for an instant `t`: at least 15 characters, each a digit, `-`
/// or `+`; in the years 0 to 9999, 8 digits, `-` and 6 digits.
pub open spec fn file_stamp_form(s: Seq<char>, t: Timestamp) -> bool {
    &&& s.len() >= 15
    &&& forall|i: int| 0 <= i < s.len() ==> is_ascii_digit(#[trigger] s[i]) || s[i] == '+' || s[i] == '-'
    &&& year_0_secs() <= t.secs < year_10000_secs() ==> s.len() == 15 && s[8] == '-' && forall|i: int|
        0 <= i < 15 && i != 8 ==> is_ascii_digit(#[trigger] s[i])
}

/// Reads `std::time::SystemTime::now` and converts it with chrono's
/// `DateTime::<Utc>::from(SystemTime)`, which also takes instants before the epoch (unlike
/// `Utc::now`, which panics on them); that conversion fails only outside chrono's range of about
/// 262,000 years either side of the epoch, which a system clock does not reach.  The instant
/// is rendered with `DateTime::to_rfc3339`, `DateTime::timestamp_micros` and `DateTime::format`.
/// The reading depends on the time, so what is stated of it holds of every instant: it lies
/// outside any leap second (its nanoseconds stay below one second); the microsecond count is
/// the seconds times a million plus the whole microseconds past them; the texts are the named
/// renderings of that same instant (`rfc3339_text`, `formatted_instant`), and the two stamps
/// have the shape that chrono's `%Y`, `%m`, `%d`, `%H`, `%M` and `%S` give (zero-padded
/// numbers; a sign before a year outside 0 to 9999).
#[verifier::external_body]
pub(crate) fn read_clock() -> (r: ClockReading)
    ensures
        r.instant.nanos < 1_000_000_000,
        r.micros == r.instant.secs * 1_000_000 + r.instant.nanos / 1000,
        r.rfc3339@ == rfc3339_text(r.instant),
        r.compact@ == formatted_instant(r.instant, compact_pattern()),
        r.file_stamp@ == formatted_instant(r.instant, file_stamp_pattern()),
        compact_stamp_form(r.compact@, r.instant),
        file_stamp_form(r.file_stamp@, r.instant),
{
    let now = chrono::DateTime::<chrono::Utc>::from(std::time::SystemTime::now());
    ClockReading {
        instant: Timestamp { secs: now.timestamp(), nanos: now.timestamp_subsec_nanos() },
        rfc3339: now.to_rfc3339(),
        micros: now.timestamp_micros(),
        compact: now.format("%Y%m%d%H%M%S").to_string(),
        file_stamp: now.format("%Y%m%d-%H%M%S").to_string(),
    }
}

/// The RFC 3339 text that `DateTime::<Utc>::to_rfc3339` writes for an instant.
pub uninterp spec fn rfc3339_text(t: Timestamp) -> Seq<char>;

/// The current time as RFC 3339 text: the rendering of an instant that lies outside any leap
/// second.
pub fn now_string() -> (r: String)
    ensures
        exists|t: Timestamp| t.nanos < 1_000_000_000 && r@ == rfc3339_text(t),
{
    read_clock().rfc3339
}

/// The instant that RFC 3339 text denotes, if the text parses.
pub uninterp spec fn rfc3339_instant(text: Seq<char>) -> Option<Timestamp>;

/// Calls `chrono::DateTime::parse_from_rfc3339` and takes the instant of the result
/// (`timestamp`, `timestamp_subsec_nanos`).  Trusted: the result is the named instant of the
/// text, `None` when the text does not parse.
#[verifier::external_body]
pub(crate) fn parse_rfc3339(text: &str) -> (r: Option<Timestamp>)
    ensures
        r == rfc3339_instant(text@),
{
    match chrono::DateTime::parse_from_rfc3339(text) {
        Ok(t) => Some(Timestamp { secs: t.timestamp(), nanos: t.timestamp_subsec_nanos() }),
        Err(_) => None,
    }
}

/// The instant that an HTTP date denotes, if the text is one.
pub uninterp spec fn http_date_instant(text: Seq<char>) -> Option<Timestamp>;

/// An HTTP date, read.
pub struct HttpDate {
    pub instant: Timestamp,
    pub rfc3339: String,
}

/// Calls `httpdate::parse_http_date` and renders the resulting instant with chrono
/// (`DateTime::<Utc>::from`, `to_rfc3339`).  Trusted: the instant is the named instant of the
/// text (`None` when it does not parse), HTTP dates have whole seconds, and the text is the
/// named RFC 3339 rendering of the instant.
#[verifier::external_body]
pub(crate) fn parse_http_date(text: &str) -> (r: Option<HttpDate>)
    ensures
        match r {
            Some(d) => http_date_instant(text@) == Some(d.instant) && d.instant.nanos == 0
                && d.rfc3339@ == rfc3339_text(d.instant),
            None => http_date_instant(text@) is None,
        },
{
    match httpdate::parse_http_date(text) {
        Ok(t) => {
            let d = chrono::DateTime::<chrono::Utc>::from(t);
            Some(HttpDate {
                instant: Timestamp { secs: d.timestamp(), nanos: d.timestamp_subsec_nanos() },
                rfc3339: d.to_rfc3339(),
            })
        },
        Err(_) => None,
    }
}

/// The instant of an HTTP date such as a `Last-Modified` header, if the text is one.
pub fn last_modified_instant(text: &str) -> (r: Option<Timestamp>)
    ensures
        r == http_date_instant(text@),
        r matches Some(t) ==> t.nanos == 0,
{
    match parse_http_date(text) {
        Some(d) => Some(d.instant),
        None => None,
    }
}

/// Nanoseconds from `then` to `now`, as `chrono` subtracts two instants: a leap second that
/// `then` lies in is counted when `now` is later in the day, and one that `now` lies in when
/// `now` is earlier in the day.
pub open spec fn elapsed_nanos(now: Timestamp, then: Timestamp) -> int {
    let day_now = now.secs % 86400;
    let day_then = then.secs % 86400;
    let adjust: int = if day_now > day_then && then.nanos >= 1_000_000_000 {
        1
    } else if day_now < day_then && now.nanos >= 1_000_000_000 {
        -1
    } else {
        0
    };
    (now.secs - then.secs + adjust) * 1_000_000_000 + (now.nanos - then.nanos)
}

/// Largest whole-second count that `chrono::TimeDelta::seconds` accepts.
pub open spec fn max_delta_secs() -> int {
    9_223_372_036_854_775
}

/// Whether an automatic run is due at `now`: when no run happened yet, when the time of the last
/// run does not parse, or when at least `interval_secs` seconds have passed since it.
pub open spec fn run_due_spec(last_run_at: Option<Seq<char>>, interval_secs: u64, now: Timestamp) -> bool {
    match last_run_at {
        None => true,
        Some(text) => match rfc3339_instant(text) {
            None => true,
            Some(then) => elapsed_nanos(now, then) >= (#[verifier::truncate] (interval_secs as i64))
                * 1_000_000_000,
        },
    }
}

/// Seconds since midnight of the day that an instant lies in.
fn time_of_day(secs: i64) -> (r: i128)
    ensures
        r == secs % 86400,
        0 <= r < 86400,
{
    let x = secs as i128;
    let m = x % 86400;
    if m < 0 {
        m + 86400
    } else {
        m
    }
}

/// Whether an automatic run is due at `now`.  `chrono` refuses a second count outside
/// `±max_delta_secs()`, so such an interval is left out when the last run time parses.
pub fn last_run_due_at(last_run_at: &Option<String>, interval_secs: u64, now: Timestamp) -> (b: bool)
    requires
        match crate::models::opt_view(*last_run_at) {
            Some(text) => rfc3339_instant(text) is Some ==> (-max_delta_secs() <= (
                #[verifier::truncate] (interval_secs as i64)) <= max_delta_secs()),
            None => true,
        },
    ensures
        b == run_due_spec(crate::models::opt_view(*last_run_at), interval_secs, now),
{
    match last_run_at {
        None => true,
        Some(text) => match parse_rfc3339(text.as_str()) {
            None => true,
            Some(then) => {
                let day_now = time_of_day(now.secs);
                let day_then = time_of_day(then.secs);
                let adjust: i128 = if day_now > day_then && then.nanos >= 1_000_000_000 {
                    1
                } else if day_now < day_then && now.nanos >= 1_000_000_000 {
                    -1
                } else {
                    0
                };
                let elapsed: i128 = (now.secs as i128 - then.secs as i128 + adjust) * 1_000_000_000
                    + (now.nanos as i128 - then.nanos as i128);
                let secs: i64 = #[verifier::truncate] (interval_secs as i64);
                let limit: i128 = secs as i128 * 1_000_000_000;
                elapsed >= limit
            },
        },
    }
}

/// Whether an automatic run is due now (see `last_run_due_at`); `None` where `chrono` would
/// refuse the interval.
pub fn last_run_due(last_run_at: &Option<String>, interval_secs: u64) -> (r: Option<bool>)
    ensures
        (r is None) == !interval_accepted(crate::models::opt_view(*last_run_at), interval_secs),
        r matches Some(b) ==> exists|now: Timestamp|
            now.nanos < 1_000_000_000 && b == run_due_spec(
                crate::models::opt_view(*last_run_at),
                interval_secs,
                now,
            ),
        crate::models::opt_view(*last_run_at) is None ==> r == Some(true),
        (crate::models::opt_view(*last_run_at) matches Some(text) && rfc3339_instant(text) is None)
            ==> r == Some(true),
{
    let now = read_clock().instant;
    let r = run_due_checked(last_run_at, interval_secs, now);
    assert(r matches Some(b) ==> now.nanos < 1_000_000_000 && b == run_due_spec(
        crate::models::opt_view(*last_run_at),
        interval_secs,
        now,
    ));
    r
}

} // verus!

verus! {

/// Whether `chrono` accepts the interval for a last run time that parses.
pub open spec fn interval_accepted(last_run_at: Option<Seq<char>>, interval_secs: u64) -> bool {
    match last_run_at {
        Some(text) => rfc3339_instant(text) is Some ==> (-max_delta_secs() <= (
        #[verifier::truncate] (interval_secs as i64)) <= max_delta_secs()),
        None => true,
    }
}

/// Whether an automatic run is due at `now`; `None` where `chrono` would refuse the interval.
pub fn run_due_checked(last_run_at: &Option<String>, interval_secs: u64, now: Timestamp) -> (r: Option<bool>)
    ensures
        match r {
            Some(b) => interval_accepted(crate::models::opt_view(*last_run_at), interval_secs) && b
                == run_due_spec(crate::models::opt_view(*last_run_at), interval_secs, now),
            None => !interval_accepted(crate::models::opt_view(*last_run_at), interval_secs),
        },
{
    let secs: i64 = #[verifier::truncate] (interval_secs as i64);
    let in_range = -9_223_372_036_854_775i64 <= secs && secs <= 9_223_372_036_854_775i64;
    match last_run_at {
        Some(text) => {
            if parse_rfc3339(text.as_str()).is_some() && !in_range {
                return None;
            }
        },
        None => {},
    }
    Some(last_run_due_at(last_run_at, interval_secs, now))
}

} // verus!

verus! {

/// "Remote is newer" is a strict order: a copy is never newer than itself, and of two known
/// times at most one side is newer.
pub proof fn law_remote_newer_is_strict(a: Timestamp, b: Timestamp)
    ensures
        !remote_newer_spec(Some(a), Some(a)),
        remote_newer_spec(Some(a), Some(b)) ==> !remote_newer_spec(Some(b), Some(a)),
        !remote_newer_spec(Some(a), None),
        !remote_newer_spec(None, None),
{
}

} // verus!
