//! Reading the system journal: which entries a request keeps and how each
//! is reported.
use vstd::prelude::*;
use crate::json_edit::{all_digits, digits_value, parse_digits_u64};
use crate::log_level::{level_of, priority_of, LogLevel};
use crate::pattern::{is_match, regex_matches, Pattern};
use crate::text::{chars_of, slice_chars, string_of};

verus! {

/// Arguments of the journal read tool.
#[derive(Debug, Clone)]
pub struct ReadSyslogsArgs {
    /// Unit whose entries are kept (e.g. `"ivaldi-server"`).
    pub service: Option<String>,
    /// Least severe level kept.
    pub level: Option<LogLevel>,
    /// How far back to read: `5m`, `10m`, `30m`, `1h`, `1d` or a timestamp.
    pub since: Option<String>,
    /// Regular expression messages must match.
    pub pattern: Option<String>,
    /// Most entries returned.
    pub limit: usize,
    /// Which boot to read.
    pub boot: Option<String>,
}

impl ReadSyslogsArgs {
    /// Entries returned when nothing says otherwise.
    pub fn default_limit() -> (r: usize)
        ensures
            r == 100,
    {
        100
    }
}

/// One reported journal entry.
#[derive(Debug, Clone)]
pub struct LogEntry {
    /// RFC 3339 time, or `unknown`.
    pub timestamp: String,
    pub level: LogLevel,
    pub message: String,
    pub service: Option<String>,
    pub pid: Option<u32>,
    /// Further fields (none are collected).
    pub fields: Vec<(String, String)>,
}

/// The fields of a journal entry, decoded as text.
#[derive(Debug, Clone)]
pub struct RawJournalEntry {
    /// `_SYSTEMD_UNIT`.
    pub unit: Option<String>,
    /// `PRIORITY`.
    pub priority: Option<String>,
    /// `MESSAGE`.
    pub message: Option<String>,
    /// `__REALTIME_TIMESTAMP`, in microseconds since the epoch.
    pub realtime: Option<String>,
    /// `_PID`.
    pub pid: Option<String>,
}

// ---------------------------------------------------------------------------
// Integers as `str::parse` reads them
// ---------------------------------------------------------------------------

/// An optional sign and the rest.
pub open spec fn sign_split(s: Seq<char>) -> (bool, Seq<char>) {
    if s.len() > 0 && s[0] == '-' {
        (true, s.drop_first())
    } else if s.len() > 0 && s[0] == '+' {
        (false, s.drop_first())
    } else {
        (false, s)
    }
}

/// The integer `str::parse` reads from `s` for a type with range
/// `lo..=hi`: an optional sign (a minus only for signed types), then one or
/// more ASCII digits, with the value in range.
pub open spec fn parse_int(s: Seq<char>, lo: int, hi: int, signed: bool) -> Option<int> {
    let (neg, body) = sign_split(s);
    if (neg && !signed) || body.len() == 0 || !all_digits(body) {
        None
    } else {
        let v = if neg {
            -digits_value(body)
        } else {
            digits_value(body) as int
        };
        if lo <= v <= hi {
            Some(v)
        } else {
            None
        }
    }
}

/// The sign and the digit text of `s`.
fn split_sign(s: &str) -> (r: (bool, String))
    ensures
        r.0 == sign_split(s@).0,
        r.1@ == sign_split(s@).1,
{
    let cs = chars_of(s);
    if cs.len() > 0 && (cs[0] == '-' || cs[0] == '+') {
        let rest = slice_chars(&cs, 1, cs.len());
        assert(rest@ =~= cs@.drop_first());
        (cs[0] == '-', string_of(&rest))
    } else {
        (false, s.to_owned())
    }
}

/// `s.parse::<i32>()`, as an option.
pub fn parse_i32(s: &str) -> (r: Option<i32>)
    ensures
        match parse_int(s@, i32::MIN as int, i32::MAX as int, true) {
            Some(v) => r == Some(v as i32),
            None => r is None,
        },
{
    let (neg, body) = split_sign(s);
    match parse_digits_u64(body.as_str()) {
        Some(m) => {
            if neg {
                if m <= 2147483648 {
                    Some((0 - (m as i64)) as i32)
                } else {
                    None
                }
            } else if m <= 2147483647 {
                Some(m as i32)
            } else {
                None
            }
        },
        None => None,
    }
}

/// `s.parse::<i64>()`, as an option.
pub fn parse_i64(s: &str) -> (r: Option<i64>)
    ensures
        match parse_int(s@, i64::MIN as int, i64::MAX as int, true) {
            Some(v) => r == Some(v as i64),
            None => r is None,
        },
{
    let (neg, body) = split_sign(s);
    match parse_digits_u64(body.as_str()) {
        Some(m) => {
            if neg {
                if m <= 9223372036854775807 {
                    Some(0 - (m as i64))
                } else if m == 9223372036854775808 {
                    Some(i64::MIN)
                } else {
                    None
                }
            } else if m <= 9223372036854775807 {
                Some(m as i64)
            } else {
                None
            }
        },
        None => None,
    }
}

/// `s.parse::<u32>()`, as an option.
pub fn parse_u32(s: &str) -> (r: Option<u32>)
    ensures
        match parse_int(s@, 0, u32::MAX as int, false) {
            Some(v) => r == Some(v as u32),
            None => r is None,
        },
{
    let (neg, body) = split_sign(s);
    if neg {
        return None;
    }
    match parse_digits_u64(body.as_str()) {
        Some(m) => if m <= 4294967295 {
            Some(m as u32)
        } else {
            None
        },
        None => None,
    }
}

// ---------------------------------------------------------------------------
// Choosing and reporting entries
// ---------------------------------------------------------------------------

/// The RFC 3339 text of a UTC time given as seconds and nanoseconds since
/// the epoch (the epoch itself when the time is out of range).
pub uninterp spec fn rfc3339_utc(secs: i64, nanos: u32) -> Seq<char>;

/// `chrono::DateTime::from_timestamp` (falling back to the default naive
/// time, the epoch, when out of range) rendered by `to_rfc3339` in UTC.
/// The text is named: it depends on the two numbers alone.
#[verifier::external_body]
fn utc_rfc3339(secs: i64, nanos: u32) -> (r: String)
    ensures
        r@ == rfc3339_utc(secs, nanos),
{
    let naive = chrono::DateTime::from_timestamp(secs, nanos).map(|dt| dt.naive_utc()).unwrap_or_default();
    chrono::DateTime::<chrono::Utc>::from_naive_utc_and_offset(naive, chrono::Utc).to_rfc3339()
}

/// Minutes in a named look-back window.
pub open spec fn window_minutes_spec(s: Seq<char>) -> Option<int> {
    if s == "5m"@ {
        Some(5)
    } else if s == "10m"@ {
        Some(10)
    } else if s == "30m"@ {
        Some(30)
    } else if s == "1h"@ {
        Some(60)
    } else if s == "1d"@ {
        Some(1440)
    } else {
        None
    }
}

fn is_str(a: &Vec<char>, b: &str) -> (r: bool)
    ensures
        r == (a@ == b@),
{
    let bc = chars_of(b);
    crate::text::chars_eq(a, &bc)
}

/// Minutes in a named look-back window (`5m`, `10m`, `30m`, `1h`, `1d`);
/// other texts are read as timestamps by the caller.
pub fn window_minutes(since: &str) -> (r: Option<i64>)
    ensures
        match window_minutes_spec(since@) {
            Some(m) => r == Some(m as i64),
            None => r is None,
        },
{
    let c = chars_of(since);
    if is_str(&c, "5m") {
        Some(5)
    } else if is_str(&c, "10m") {
        Some(10)
    } else if is_str(&c, "30m") {
        Some(30)
    } else if is_str(&c, "1h") {
        Some(60)
    } else if is_str(&c, "1d") {
        Some(1440)
    } else {
        None
    }
}

/// The priority an entry is read with: its `PRIORITY` field as a number,
/// else 6 (info).
pub open spec fn entry_priority(raw: RawJournalEntry) -> int {
    match raw.priority {
        Some(p) => match parse_int(p@, i32::MIN as int, i32::MAX as int, true) {
            Some(v) => v,
            None => 6,
        },
        None => 6,
    }
}

/// The message of an entry, or empty.
pub open spec fn entry_message(raw: RawJournalEntry) -> Seq<char> {
    match raw.message {
        Some(m) => m@,
        None => Seq::empty(),
    }
}

/// Whether a request keeps an entry: same unit when one is asked for, at
/// least as severe as the asked level, and a message the pattern matches.
pub open spec fn keeps(args: ReadSyslogsArgs, pattern: Option<Seq<char>>, raw: RawJournalEntry) -> bool {
    &&& (args.service matches Some(s) ==> raw.unit matches Some(u) && u@ == s@)
    &&& (args.level matches Some(l) ==> entry_priority(raw) <= priority_of(l))
    &&& (pattern matches Some(p) ==> regex_matches(p, entry_message(raw)))
}

/// The time an entry is reported with.
pub open spec fn entry_time(raw: RawJournalEntry) -> Seq<char> {
    match raw.realtime {
        Some(t) => match parse_int(t@, i64::MIN as int, i64::MAX as int, true) {
            Some(us) => rfc3339_utc((us / 1000000) as i64, ((us % 1000000) * 1000) as u32),
            None => "unknown"@,
        },
        None => "unknown"@,
    }
}

/// Converting an entry's time does not overflow: a timestamp that parses is
/// not negative.
pub open spec fn time_ok(raw: RawJournalEntry) -> bool {
    raw.realtime matches Some(t) ==> match parse_int(t@, i64::MIN as int, i64::MAX as int, true) {
        Some(us) => us >= 0,
        None => true,
    }
}

/// The entry a request reports for a raw journal entry it keeps.
pub fn accept_entry(args: &ReadSyslogsArgs, pattern: &Option<Pattern>, raw: &RawJournalEntry) -> (r:
    Option<LogEntry>)
    requires
        time_ok(*raw),
    ensures
        ({
            let p = match pattern {
                Some(re) => Some(re@),
                None => None,
            };
            &&& r is Some <==> keeps(*args, p, *raw)
            &&& r matches Some(e) ==> {
                &&& e.timestamp@ == entry_time(*raw)
                &&& e.level == level_of(entry_priority(*raw))
                &&& e.message@ == entry_message(*raw)
                &&& e.service == raw.unit
                &&& e.pid == match raw.pid {
                    Some(t) => match parse_int(t@, 0, u32::MAX as int, false) {
                        Some(v) => Some(v as u32),
                        None => None,
                    },
                    None => None,
                }
                &&& e.fields@.len() == 0
            }
        }),
{
    match &args.service {
        Some(s) => {
            let want = chars_of(s.as_str());
            match &raw.unit {
                Some(u) => {
                    let got = chars_of(u.as_str());
                    if !crate::text::chars_eq(&want, &got) {
                        return None;
                    }
                },
                None => {
                    return None;
                },
            }
        },
        None => {},
    }
    let priority: i32 = match &raw.priority {
        Some(p) => match parse_i32(p.as_str()) {
            Some(v) => v,
            None => 6,
        },
        None => 6,
    };
    match args.level {
        Some(l) => {
            if priority > l.to_priority() {
                return None;
            }
        },
        None => {},
    }
    let message: String = match &raw.message {
        Some(m) => m.clone(),
        None => String::new(),
    };
    match pattern {
        Some(re) => {
            if !is_match(re, message.as_str()) {
                return None;
            }
        },
        None => {},
    }
    let timestamp = match &raw.realtime {
        Some(t) => match parse_i64(t.as_str()) {
            Some(us) => {
                let secs = us / 1000000;
                let nanos = ((us % 1000000) as u32) * 1000;
                utc_rfc3339(secs, nanos)
            },
            None => "unknown".to_owned(),
        },
        None => "unknown".to_owned(),
    };
    let pid = match &raw.pid {
        Some(t) => parse_u32(t.as_str()),
        None => None,
    };
    Some(
        LogEntry {
            timestamp,
            level: LogLevel::from_priority(priority),
            message,
            service: match &raw.unit {
                Some(u) => Some(u.clone()),
                None => None,
            },
            pid,
            fields: Vec::new(),
        },
    )
}

/// The time an RFC 3339 text names, in microseconds since the epoch
/// (`chrono::DateTime::parse_from_rfc3339`), or nothing when it names none.
pub uninterp spec fn rfc3339_micros(s: Seq<char>) -> Option<i64>;

/// `DateTime::parse_from_rfc3339`, as microseconds since the epoch.
#[verifier::external_body]
fn parse_rfc3339_micros(s: &str) -> (r: Option<i64>)
    ensures
        r == rfc3339_micros(s@),
{
    chrono::DateTime::parse_from_rfc3339(s).ok().map(|dt| dt.timestamp_micros())
}

/// Where a read of the journal starts, at time `now` (microseconds since
/// the epoch): a named window back from now, or the time an RFC 3339 text
/// names; nothing (read from the end) for any other text.
pub open spec fn seek_start_spec(now: i64, since: Seq<char>) -> Option<int> {
    match window_minutes_spec(since) {
        Some(m) => Some(now - m * 60000000),
        None => match rfc3339_micros(since) {
            Some(t) => Some(t as int),
            None => None,
        },
    }
}

/// One entry of a journal read, walking back from the newest: the entry
/// is kept when the request keeps it (see `accept_entry`), and the read goes
/// on while fewer entries than the limit were kept.
pub fn collect_step(
    logs: &mut Vec<LogEntry>,
    args: &ReadSyslogsArgs,
    pattern: &Option<Pattern>,
    raw: &RawJournalEntry,
) -> (more: bool)
    requires
        time_ok(*raw),
    ensures
        ({
            let p = match pattern {
                Some(re) => Some(re@),
                None => None,
            };
            &&& keeps(*args, p, *raw) ==> final(logs)@.len() == old(logs)@.len() + 1 && final(logs)@.take(
                old(logs)@.len() as int,
            ) == old(logs)@ && final(logs)@.last().timestamp@ == entry_time(*raw)
                && final(logs)@.last().level == level_of(entry_priority(*raw))
                && final(logs)@.last().message@ == entry_message(*raw)
                && final(logs)@.last().service == raw.unit
            &&& !keeps(*args, p, *raw) ==> final(logs)@ == old(logs)@
        }),
        more == (final(logs)@.len() < args.limit),
{
    match accept_entry(args, pattern, raw) {
        Some(e) => {
            let ghost before = logs@;
            logs.push(e);
            assert(logs@.take(before.len() as int) =~= before);
        },
        None => {},
    }
    logs.len() < args.limit
}

/// Where a read of the journal starts (see `seek_start_spec`).
pub fn seek_start(now: i64, since: &str) -> (r: Option<i64>)
    requires
        now >= i64::MIN + 86400000000,
    ensures
        match seek_start_spec(now, since@) {
            Some(t) => r == Some(t as i64),
            None => r is None,
        },
{
    match window_minutes(since) {
        Some(m) => Some(now - m * 60000000),
        None => parse_rfc3339_micros(since),
    }
}

} // verus!
