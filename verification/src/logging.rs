use vstd::prelude::*;
use vstd::string::StringExecFns;
use crate::text::{chars_of, decimal, ends_with, push_char, push_u64, push_zero_padded, starts_with, zero_padded};

verus! {

/// Whether `y` is a leap year of the proleptic Gregorian calendar.
pub open spec fn is_leap_year(y: int) -> bool {
    (y % 4 == 0 && y % 100 != 0) || y % 400 == 0
}

/// Number of days of month `m` (1-based) in year `y`.
pub open spec fn days_in_month(y: int, m: int) -> int {
    if m == 2 {
        if is_leap_year(y) { 29 } else { 28 }
    } else if m == 4 || m == 6 || m == 9 || m == 11 {
        30
    } else {
        31
    }
}

/// `(y, m, d)` names an existing calendar day.
pub open spec fn is_valid_date(y: int, m: int, d: int) -> bool {
    1 <= m <= 12 && 1 <= d <= days_in_month(y, m)
}

/// A running count of leap years, so that `leap_count(b) - leap_count(a)` is the
/// number of leap years in `a + 1 ..= b`.
pub open spec fn leap_count(y: int) -> int {
    y / 4 - y / 100 + y / 400
}

/// Days from 1970-01-01 to the first of January of year `y`.
pub open spec fn days_before_year(y: int) -> int {
    365 * (y - 1970) + leap_count(y - 1) - leap_count(1969)
}

/// Days from the first of January to the first day of month `m` of year `y`.
pub open spec fn days_before_month(y: int, m: int) -> int {
    let base: int = if m == 1 { 0 }
        else if m == 2 { 31 }
        else if m == 3 { 59 }
        else if m == 4 { 90 }
        else if m == 5 { 120 }
        else if m == 6 { 151 }
        else if m == 7 { 181 }
        else if m == 8 { 212 }
        else if m == 9 { 243 }
        else if m == 10 { 273 }
        else if m == 11 { 304 }
        else { 334 };
    base + if m > 2 && is_leap_year(y) { 1int } else { 0int }
}

/// Days since 1970-01-01 of the date `(y, m, d)`.
pub open spec fn days_from_civil(y: int, m: int, d: int) -> int {
    days_before_year(y) + days_before_month(y, m) + d - 1
}

/// Days from the first of March of year 0 of a 400-year era to the first of March of year `k` of it.
spec fn era_days_before(k: int) -> int {
    365 * k + k / 4 - k / 100 + k / 400
}

#[verifier::spinoff_prover]
#[verifier::rlimit(40)]
proof fn lemma_year_of_era(doe: int)
    requires
        0 <= doe < 146097,
    ensures
        ({
            let yoe = (doe - doe / 1460 + doe / 36524 - doe / 146096) / 365;
            &&& 0 <= yoe < 400
            &&& era_days_before(yoe) <= doe < era_days_before(yoe + 1)
        }),
{
}


proof fn lemma_month_of_year(doy: int)
    requires
        0 <= doy < 366,
    ensures
        ({
            let mp = (5 * doy + 2) / 153;
            &&& 0 <= mp < 12
            &&& (153 * mp + 2) / 5 <= doy < (153 * (mp + 1) + 2) / 5
        }),
{
}

proof fn lemma_leap_count_shift(e: int, x: int)
    ensures
        leap_count(400 * e + x) == leap_count(x) + 97 * e,
        is_leap_year(400 * e + x) == is_leap_year(x),
{
    assert((400 * e + x) / 4 == 100 * e + x / 4);
    assert((400 * e + x) / 100 == 4 * e + x / 100);
    assert((400 * e + x) / 400 == e + x / 400);
    assert((400 * e + x) % 4 == x % 4);
    assert((400 * e + x) % 100 == x % 100);
    assert((400 * e + x) % 400 == x % 400);
}

proof fn lemma_civil_shift(e: int, y: int, m: int, d: int)
    ensures
        days_from_civil(400 * e + y, m, d) == days_from_civil(y, m, d) + 146097 * e,
        days_in_month(400 * e + y, m) == days_in_month(y, m),
{
    lemma_leap_count_shift(e, y - 1);
    lemma_leap_count_shift(e, y);
    assert(400 * e + y - 1 == 400 * e + (y - 1));
}

/// Shifting a year by whole 400-year eras shifts its leap-year count by 97 per era.
pub proof fn lemma_calendar_shift(e: int, x: int)
    ensures
        leap_count(400 * e + x) == leap_count(x) + 97 * e,
        is_leap_year(400 * e + x) == is_leap_year(x),
{
    lemma_leap_count_shift(e, x);
}

/// The leap-year count grows by one exactly at leap years.
pub proof fn lemma_calendar_step(k: int)
    ensures
        leap_count(k) == leap_count(k - 1) + if is_leap_year(k) { 1int } else { 0int },
{
}

proof fn lemma_leap_step(k: int)
    ensures
        leap_count(k) == leap_count(k - 1) + if is_leap_year(k) { 1int } else { 0int },
{
}

/// The date assembled from a day of era by the March-based computation.
proof fn lemma_date_in_era(doe: int, yoe: int, doy: int, mp: int, d: int, m: int, y: int)
    requires
        0 <= doe < 146097,
        0 <= yoe < 400,
        era_days_before(yoe) <= doe < era_days_before(yoe + 1),
        doy == doe - (365 * yoe + yoe / 4 - yoe / 100),
        0 <= mp < 12,
        (153 * mp + 2) / 5 <= doy < (153 * (mp + 1) + 2) / 5,
        d == doy - (153 * mp + 2) / 5 + 1,
        m == if mp < 10 { mp + 3 } else { mp - 9 },
        y == if m <= 2 { yoe + 1 } else { yoe },
    ensures
        is_valid_date(y, m, d),
        days_from_civil(y, m, d) == doe - 719468,
{
    lemma_leap_step(yoe);
    lemma_leap_step(yoe + 1);
    assert(leap_count(1969) == 477);
    if m <= 2 {
        assert(era_days_before(yoe + 1) - era_days_before(yoe) == 365 + if is_leap_year(yoe + 1) { 1int } else { 0int });
    } else {
    }
}

proof fn lemma_leap_count_monotonic(a: int, b: int)
    requires
        a <= b,
    ensures
        leap_count(a) <= leap_count(b),
        leap_count(b) - leap_count(a) <= b - a,
    decreases b - a,
{
    if a < b {
        lemma_leap_count_monotonic(a, b - 1);
        lemma_leap_step(b);
    }
}

proof fn lemma_date_within_year(y: int, m: int, d: int)
    requires
        is_valid_date(y, m, d),
    ensures
        days_before_year(y) <= days_from_civil(y, m, d) < days_before_year(y + 1),
        days_before_month(y, m) <= days_from_civil(y, m, d) - days_before_year(y) < days_before_month(
            y,
            m,
        ) + days_in_month(y, m),
{
    lemma_leap_step(y);
}

/// Distinct calendar days have distinct day numbers: a day number names at most one date.
pub proof fn lemma_days_from_civil_injective(y1: int, m1: int, d1: int, y2: int, m2: int, d2: int)
    requires
        is_valid_date(y1, m1, d1),
        is_valid_date(y2, m2, d2),
        days_from_civil(y1, m1, d1) == days_from_civil(y2, m2, d2),
    ensures
        y1 == y2 && m1 == m2 && d1 == d2,
{
    lemma_date_within_year(y1, m1, d1);
    lemma_date_within_year(y2, m2, d2);
    if y1 < y2 {
        lemma_leap_count_monotonic(y1, y2 - 1);
        assert(days_before_year(y1 + 1) <= days_before_year(y2));
    } else if y2 < y1 {
        lemma_leap_count_monotonic(y2, y1 - 1);
        assert(days_before_year(y2 + 1) <= days_before_year(y1));
    }
    assert(y1 == y2);
}

/// Converts days since the Unix epoch to the calendar date `(year, month, day)`.
pub fn days_to_ymd(days: i32) -> (r: (i32, u32, u32))
    requires
        days <= i32::MAX - 719468,
    ensures
        is_valid_date(r.0 as int, r.1 as int, r.2 as int),
        days_from_civil(r.0 as int, r.1 as int, r.2 as int) == days,
{
    let days = days + 719468;
    let era: i32 = if days >= 0 { days / 146097 } else { (days - 146096) / 146097 };
    assert(era as int == (days as int) / 146097);
    assert(-14700 < era < 14700);
    let doe: i32 = days - era * 146097;
    assert(0 <= doe < 146097);
    let yoe: i32 = (doe - doe / 1460 + doe / 36524 - doe / 146096) / 365;
    proof {
        lemma_year_of_era(doe as int);
    }
    let y: i32 = yoe + era * 400;
    let doy: i32 = doe - (365 * yoe + yoe / 4 - yoe / 100);
    assert(0 <= doy < 366);
    proof {
        lemma_month_of_year(doy as int);
    }
    let mp: i32 = (5 * doy + 2) / 153;
    let d: i32 = doy - (153 * mp + 2) / 5 + 1;
    let m: i32 = if mp < 10 { mp + 3 } else { mp - 9 };
    let y: i32 = if m <= 2 { y + 1 } else { y };
    proof {
        lemma_date_in_era(doe as int, yoe as int, doy as int, mp as int, d as int, m as int,
            (if m <= 2 { yoe + 1 } else { yoe as int }));
        lemma_civil_shift(era as int, (if m <= 2 { yoe + 1 } else { yoe as int }), m as int, d as int);
    }
    (y, m as u32, d as u32)
}


/// What `std::path::Path::file_name` gives for a path, as text.
pub uninterp spec fn path_file_name(path: Seq<char>) -> Option<Seq<char>>;

/// The last component of a path (`Path::file_name`).
#[verifier::external_body]
fn file_name_of(path: &str) -> (r: Option<String>)
    ensures
        match r {
            Some(n) => path_file_name(path@) == Some(n@),
            None => path_file_name(path@) is None,
        },
{
    std::path::Path::new(path).file_name().and_then(|n| n.to_str()).map(|n| n.to_string())
}

/// Whether a file name follows the log naming pattern `symtrace-mcp.*.log`.
pub open spec fn is_log_name(name: Seq<char>) -> bool {
    &&& name.len() >= "symtrace-mcp."@.len()
    &&& name.take("symtrace-mcp."@.len() as int) == "symtrace-mcp."@
    &&& name.len() >= ".log"@.len()
    &&& name.skip(name.len() - ".log"@.len()) == ".log"@
}

/// Whether a file name follows the log naming pattern `symtrace-mcp.*.log`.
pub fn is_log_file_name(name: &str) -> (r: bool)
    ensures
        r == is_log_name(name@),
{
    let cs = chars_of(name);
    let prefix = chars_of("symtrace-mcp.");
    let suffix = chars_of(".log");
    starts_with(cs.as_slice(), prefix.as_slice()) && ends_with(cs.as_slice(), suffix.as_slice())
}

/// Whether a path names a log file of this server.
pub fn is_symtrace_log_file(path: &str) -> (r: bool)
    ensures
        r == match path_file_name(path@) {
            Some(n) => is_log_name(n),
            None => false,
        },
{
    match file_name_of(path) {
        Some(n) => is_log_file_name(n.as_str()),
        None => false,
    }
}

/// The log file timestamp `YYYY-MM-DD_HHmmss` of a date and time.
pub open spec fn timestamp_text(y: int, m: int, d: int, hour: int, min: int, sec: int) -> Seq<char> {
    zero_padded(y, 4) + "-"@ + zero_padded(m, 2) + "-"@ + zero_padded(d, 2) + "_"@ + zero_padded(hour, 2)
        + zero_padded(min, 2) + zero_padded(sec, 2)
}

/// The name of the log file of one server run: `symtrace-mcp.<timestamp>.<pid>.log`.
pub open spec fn log_file_name_text(timestamp: Seq<char>, pid: nat) -> Seq<char> {
    "symtrace-mcp."@ + timestamp + "."@ + decimal(pid) + ".log"@
}

/// The name of the log file of one server run.
pub fn log_file_name(timestamp: &str, pid: u32) -> (r: String)
    ensures
        r@ == log_file_name_text(timestamp@, pid as nat),
{
    let mut s = String::from_str("symtrace-mcp.");
    s.append(timestamp);
    s.append(".");
    push_u64(&mut s, pid as u64);
    s.append(".log");
    s
}

/// Every log file a run creates is one that the clean-up of old logs recognises.
pub proof fn law_created_log_files_are_recognised(timestamp: Seq<char>, pid: nat)
    ensures
        is_log_name(log_file_name_text(timestamp, pid)),
{
    reveal_strlit("symtrace-mcp.");
    reveal_strlit(".log");
    reveal_strlit(".");
    let name = log_file_name_text(timestamp, pid);
    let head = "symtrace-mcp."@;
    let rest = timestamp + "."@ + decimal(pid);
    assert(name =~= head + (rest + ".log"@));
    assert(name.take(head.len() as int) =~= head);
    assert(name.skip(name.len() - ".log"@.len()) =~= ".log"@);
}

/// The UTC time `secs` seconds after the epoch as `YYYY-MM-DD_HHmmss`
/// (the day count is taken as a 32-bit integer, as the log naming does).
pub fn format_utc_timestamp(secs: u64) -> (r: String)
    requires
        (#[verifier::truncate] ((secs / 86400) as i32)) <= i32::MAX - 719468,
    ensures
        exists|y: int, m: int, d: int|
            {
                &&& is_valid_date(y, m, d)
                &&& days_from_civil(y, m, d) == (#[verifier::truncate] ((secs / 86400) as i32))
                &&& r@ == timestamp_text(y, m, d, ((secs % 86400) / 3600) as int, (((secs % 86400) % 3600) / 60) as int, ((secs % 86400) % 60) as int)
            },
{
    let days = #[verifier::truncate] ((secs / 86400) as i32);
    let time_secs = (secs % 86400) as u32;
    let hour = time_secs / 3600;
    let min = (time_secs % 3600) / 60;
    let sec = time_secs % 60;
    let (year, month, day) = days_to_ymd(days);
    let mut s = String::new();
    push_zero_padded(&mut s, year as i64, 4);
    push_char(&mut s, '-');
    push_zero_padded(&mut s, month as i64, 2);
    push_char(&mut s, '-');
    push_zero_padded(&mut s, day as i64, 2);
    push_char(&mut s, '_');
    push_zero_padded(&mut s, hour as i64, 2);
    push_zero_padded(&mut s, min as i64, 2);
    push_zero_padded(&mut s, sec as i64, 2);
    proof {
        reveal_strlit("-");
        reveal_strlit("_");
        assert(s@ =~= timestamp_text(year as int, month as int, day as int, hour as int, min as int, sec as int));
    }
    s
}

/// The log level in force: a non-empty `SYMTRACE_LOG` value, else the configured level,
/// else `info`.
pub open spec fn log_level_text(env_value: Option<Seq<char>>, config_level: Option<Seq<char>>) -> Seq<char> {
    match env_value {
        Some(v) if v.len() > 0 => v,
        _ => match config_level {
            Some(c) => c,
            None => "info"@,
        },
    }
}

/// Determine the log level: `SYMTRACE_LOG` (when set and non-empty) > configured level > `info`.
pub fn resolve_log_level(env_value: Option<&str>, config_level: Option<&str>) -> (r: String)
    ensures
        r@ == log_level_text(
            match env_value { Some(v) => Some(v@), None => None },
            match config_level { Some(c) => Some(c@), None => None },
        ),
{
    match env_value {
        Some(v) => {
            if !v.is_empty() {
                return String::from_str(v);
            }
        },
        None => {},
    }
    match config_level {
        Some(c) => String::from_str(c),
        None => String::from_str("info"),
    }
}

/// `base` with the relative component `part` appended, as `PathBuf::join` does:
/// a `/` is inserted unless `base` is empty or already ends with one.
pub open spec fn join_relative(base: Seq<char>, part: Seq<char>) -> Seq<char> {
    if base.len() == 0 {
        part
    } else if base.last() == '/' {
        base + part
    } else {
        base + seq!['/'] + part
    }
}

/// Appends a relative path component to a path.
pub fn join_component(base: &str, part: &str) -> (r: String)
    ensures
        r@ == join_relative(base@, part@),
{
    let cs = chars_of(base);
    let mut s = String::from_str(base);
    if cs.len() > 0 && cs[cs.len() - 1] != '/' {
        push_char(&mut s, '/');
    }
    s.append(part);
    s
}

/// The log directory: `SYMTRACE_LOG_DIR` when set, else `<cwd>/.symtrace/logs`.
pub fn resolve_log_dir(env_dir: Option<&str>, cwd: &str) -> (r: String)
    ensures
        r@ == match env_dir {
            Some(d) => d@,
            None => join_relative(join_relative(cwd@, ".symtrace"@), "logs"@),
        },
{
    match env_dir {
        Some(d) => String::from_str(d),
        None => {
            let base = join_component(cwd, ".symtrace");
            join_component(base.as_str(), "logs")
        },
    }
}

} // verus!
