//! Usage statistics: the rows read back from the statistics store and their summaries.
use vstd::prelude::*;
use vstd::string::StringSliceAdditionalSpecFns;
use crate::logging::{days_from_civil, is_valid_date};
use crate::text::{decimal, digit_char, repeat_char, zero_padded};
use crate::text::str_eq;

verus! {

/// Per-tool call counts over the reporting window.
pub struct ToolUsage {
    pub tool: String,
    pub calls: i64,
    pub avg_ms: i64,
    pub errors: i64,
}

/// Per-file call counts over the reporting window.
pub struct FileUsage {
    pub file_path: String,
    pub calls: i64,
}

/// Per-language server activity over the reporting window.
pub struct ServerUsage {
    pub language: String,
    pub startups: i64,
    pub avg_startup_ms: i64,
    pub total_uptime_secs: i64,
}

/// Whether `b` is an ASCII decimal digit.
pub open spec fn is_digit_byte(b: u8) -> bool {
    48 <= b <= 57
}

/// Value of a sequence of decimal digits.
pub open spec fn digits_value(b: Seq<u8>) -> int
    decreases b.len(),
{
    if b.len() == 0 {
        0
    } else {
        digits_value(b.drop_last()) * 10 + (b.last() - 48)
    }
}

pub open spec fn all_digits(b: Seq<u8>) -> bool {
    b.len() > 0 && forall|i: int| 0 <= i < b.len() ==> is_digit_byte(#[trigger] b[i])
}

/// What `str::parse::<i64>` yields for text with these bytes, for texts short enough that
/// no overflow can occur: an optional `+` or `-` followed by one or more digits.
pub open spec fn parse_int_bytes(b: Seq<u8>) -> Option<int> {
    if b.len() > 0 && b[0] == 45u8 {
        if all_digits(b.skip(1)) { Some(-digits_value(b.skip(1))) } else { None }
    } else if b.len() > 0 && b[0] == 43u8 {
        if all_digits(b.skip(1)) { Some(digits_value(b.skip(1))) } else { None }
    } else {
        if all_digits(b) { Some(digits_value(b)) } else { None }
    }
}

/// Integer division rounding toward zero, as Rust's `/` does (for a positive divisor).
pub open spec fn tdiv(a: int, b: int) -> int {
    if a >= 0 { a / b } else { -((-a) / b) }
}

/// Seconds since the Unix epoch of a date and time, computed through the Julian Day
/// Number with Rust's truncating division.
pub open spec fn jdn_seconds(y: int, m: int, d: int, hh: int, mm: int, ss: int) -> int {
    let a = tdiv(14 - m, 12);
    let y2 = y + 4800 - a;
    let m2 = m + 12 * a - 3;
    let jdn = d + tdiv(153 * m2 + 2, 5) + 365 * y2 + tdiv(y2, 4) - tdiv(y2, 100) + tdiv(y2, 400) - 32045;
    (jdn - 2440588) * 86400 + hh * 3600 + mm * 60 + ss
}

/// The fields `[start, end)` of a timestamp, parsed as an integer.
pub open spec fn ts_field(b: Seq<u8>, start: int, end: int) -> Option<int> {
    if end <= b.len() { parse_int_bytes(b.subrange(start, end)) } else { None }
}

/// What `ts_to_secs` computes from the bytes of a `YYYY-MM-DD HH:MM:SS` timestamp.
pub open spec fn ts_to_secs_spec(b: Seq<u8>) -> Option<int> {
    match (ts_field(b, 0, 4), ts_field(b, 5, 7), ts_field(b, 8, 10), ts_field(b, 11, 13), ts_field(b, 14, 16), ts_field(b, 17, 19)) {
        (Some(y), Some(m), Some(d), Some(hh), Some(mm), Some(ss)) => Some(jdn_seconds(y, m, d, hh, mm, ss)),
        _ => None,
    }
}

/// The Julian-Day computation of `ts_to_secs` agrees with the calendar of `days_to_ymd`:
/// for a month in `1..=12` (and any year from -4799 on), it gives the day number of the
/// date times 86400 plus the time of day.
pub proof fn law_timestamp_matches_calendar(y: int, m: int, d: int, hh: int, mm: int, ss: int)
    requires
        1 <= m <= 12,
        y >= -4799,
    ensures
        jdn_seconds(y, m, d, hh, mm, ss) == days_from_civil(y, m, d) * 86400 + hh * 3600 + mm * 60 + ss,
{
    crate::logging::lemma_calendar_shift(12, y - 1);
    crate::logging::lemma_calendar_shift(12, y);
    crate::logging::lemma_calendar_step(y);
    assert(crate::logging::leap_count(1969) == 477);
    let a = tdiv(14 - m, 12);
    if m <= 2 {
        assert(a == 1);
        assert(4800 * 1 + (y - 1) == y + 4799);
    } else {
        assert(a == 0);
        assert(4800 + y == y + 4800);
    }
}

/// The bytes of an ASCII text, one per character.
pub open spec fn ascii_bytes(c: Seq<char>) -> Seq<u8> {
    Seq::new(c.len(), |i: int| c[i] as u8)
}

/// The timestamp text SQLite's `datetime` writes: `YYYY-MM-DD HH:MM:SS`, zero-padded.
pub open spec fn timestamp_text(y: int, m: int, d: int, hh: int, mm: int, ss: int) -> Seq<char> {
    zero_padded(y, 4) + "-"@ + zero_padded(m, 2) + "-"@ + zero_padded(d, 2) + " "@ + zero_padded(hh, 2) + ":"@
        + zero_padded(mm, 2) + ":"@ + zero_padded(ss, 2)
}

proof fn lemma_decimal_value(n: nat)
    ensures
        forall|i: int| 0 <= i < decimal(n).len() ==> '0' <= #[trigger] decimal(n)[i] <= '9',
        digits_value(ascii_bytes(decimal(n))) == n,
    decreases n,
{
    if n < 10 {
        assert(ascii_bytes(decimal(n)) =~= seq![(48 + n) as u8]);
        assert(seq![(48 + n) as u8].drop_last() =~= Seq::<u8>::empty());
        assert(digits_value(seq![(48 + n) as u8]) == digits_value(Seq::<u8>::empty()) * 10 + n);
    } else {
        lemma_decimal_value(n / 10);
        let prev = decimal(n / 10);
        let c = digit_char((n % 10) as int);
        assert(decimal(n) == prev.push(c));
        assert(ascii_bytes(prev.push(c)).drop_last() =~= ascii_bytes(prev));
        assert(ascii_bytes(prev.push(c)).last() == (48 + n % 10) as u8);
        assert(digits_value(ascii_bytes(prev.push(c))) == digits_value(ascii_bytes(prev)) * 10 + (n % 10));
        assert((n / 10) * 10 + n % 10 == n) by (nonlinear_arith);
    }
}

proof fn lemma_zeros_value(k: int)
    ensures
        digits_value(ascii_bytes(repeat_char('0', k))) == 0,
        forall|i: int| 0 <= i < repeat_char('0', k).len() ==> #[trigger] repeat_char('0', k)[i] == '0',
    decreases k,
{
    if k > 0 {
        lemma_zeros_value(k - 1);
        assert(ascii_bytes(repeat_char('0', k)).drop_last() =~= ascii_bytes(repeat_char('0', k - 1)));
    }
}

proof fn lemma_leading_zeros(z: Seq<char>, x: Seq<char>)
    requires
        digits_value(ascii_bytes(z)) == 0,
    ensures
        digits_value(ascii_bytes(z + x)) == digits_value(ascii_bytes(x)),
    decreases x.len(),
{
    if x.len() == 0 {
        assert(z + x =~= z);
        assert(ascii_bytes(x) =~= Seq::<u8>::empty());
    } else {
        lemma_leading_zeros(z, x.drop_last());
        assert(ascii_bytes(z + x).drop_last() =~= ascii_bytes(z + x.drop_last()));
        assert(ascii_bytes(x).drop_last() =~= ascii_bytes(x.drop_last()));
        assert(ascii_bytes(z + x).last() == ascii_bytes(x).last());
    }
}

/// A zero-padded field of width 2 or 4 holding `v`: `width` digits whose value is `v`.
proof fn lemma_padded_field(v: int, width: int)
    requires
        0 <= v,
        width == 2 && v < 100 || width == 4 && v < 10000,
    ensures
        zero_padded(v, width).len() == width,
        forall|i: int| 0 <= i < width ==> '0' <= #[trigger] zero_padded(v, width)[i] <= '9',
        digits_value(ascii_bytes(zero_padded(v, width))) == v,
{
    crate::text::lemma_decimal_len(v as nat);
    lemma_decimal_value(v as nat);
    let dl = decimal(v as nat).len() as int;
    lemma_zeros_value(width - dl);
    crate::text::lemma_repeat_len('0', width - dl);
    let z = repeat_char('0', width - dl);
    assert(zero_padded(v, width) =~= z + decimal(v as nat));
    lemma_leading_zeros(z, decimal(v as nat));
    assert forall|i: int| 0 <= i < width implies '0' <= #[trigger] zero_padded(v, width)[i] <= '9' by {
        if i < width - dl {
            assert(zero_padded(v, width)[i] == z[i]);
        } else {
            assert(zero_padded(v, width)[i] == decimal(v as nat)[i - (width - dl)]);
        }
    }
}

/// A field of digits parses as its value.
proof fn lemma_field_parses(b: Seq<u8>, c: Seq<char>, v: int)
    requires
        b == ascii_bytes(c),
        c.len() > 0,
        forall|i: int| 0 <= i < c.len() ==> '0' <= #[trigger] c[i] <= '9',
        digits_value(b) == v,
    ensures
        parse_int_bytes(b) == Some(v),
{
    assert(b[0] == c[0] as u8);
    assert forall|i: int| 0 <= i < b.len() implies is_digit_byte(#[trigger] b[i]) by {
        assert(b[i] == c[i] as u8);
    }
}

/// A timestamp as SQLite writes it reads back as the seconds of its date and time: for a
/// valid date of a four-digit year whose day number is `days`, and a time of day,
/// `ts_to_secs` gives `days * 86400` plus the seconds of the time.
pub proof fn law_written_timestamp_reads_back(days: int, y: int, m: int, d: int, hh: int, mm: int, ss: int)
    requires
        is_valid_date(y, m, d),
        days_from_civil(y, m, d) == days,
        0 <= y <= 9999,
        0 <= hh < 24,
        0 <= mm < 60,
        0 <= ss < 60,
    ensures
        ts_to_secs_spec(vstd::utf8::encode_utf8(timestamp_text(y, m, d, hh, mm, ss))) == Some(days * 86400 + hh * 3600 + mm * 60 + ss),
{
    reveal_strlit("-");
    reveal_strlit(" ");
    reveal_strlit(":");
    lemma_padded_field(y, 4);
    lemma_padded_field(m, 2);
    lemma_padded_field(d, 2);
    lemma_padded_field(hh, 2);
    lemma_padded_field(mm, 2);
    lemma_padded_field(ss, 2);
    let t = timestamp_text(y, m, d, hh, mm, ss);
    let (fy, fm, fd, fh, fi, fs) = (zero_padded(y, 4), zero_padded(m, 2), zero_padded(d, 2), zero_padded(hh, 2), zero_padded(mm, 2), zero_padded(ss, 2));
    assert(t.len() == 19);
    assert(t.subrange(0, 4) =~= fy);
    assert(t.subrange(5, 7) =~= fm);
    assert(t.subrange(8, 10) =~= fd);
    assert(t.subrange(11, 13) =~= fh);
    assert(t.subrange(14, 16) =~= fi);
    assert(t.subrange(17, 19) =~= fs);
    assert(vstd::utf8::is_ascii_chars(t)) by {
        assert forall|i: int| 0 <= i < t.len() implies '\0' <= #[trigger] t[i] <= '\u{7f}' by {
            if i < 4 {
                assert(t[i] == fy[i]);
            } else if i == 4 || i == 7 {
                assert(t[i] == '-');
            } else if i < 7 {
                assert(t[i] == fm[i - 5]);
            } else if i < 10 {
                assert(t[i] == fd[i - 8]);
            } else if i == 10 {
                assert(t[i] == ' ');
            } else if i == 13 || i == 16 {
                assert(t[i] == ':');
            } else if i < 13 {
                assert(t[i] == fh[i - 11]);
            } else if i < 16 {
                assert(t[i] == fi[i - 14]);
            } else {
                assert(t[i] == fs[i - 17]);
            }
        }
    }
    vstd::utf8::is_ascii_chars_encode_utf8(t);
    let b = vstd::utf8::encode_utf8(t);
    assert(b =~= ascii_bytes(t));
    assert(b.subrange(0, 4) =~= ascii_bytes(fy));
    assert(b.subrange(5, 7) =~= ascii_bytes(fm));
    assert(b.subrange(8, 10) =~= ascii_bytes(fd));
    assert(b.subrange(11, 13) =~= ascii_bytes(fh));
    assert(b.subrange(14, 16) =~= ascii_bytes(fi));
    assert(b.subrange(17, 19) =~= ascii_bytes(fs));
    lemma_field_parses(b.subrange(0, 4), fy, y);
    lemma_field_parses(b.subrange(5, 7), fm, m);
    lemma_field_parses(b.subrange(8, 10), fd, d);
    lemma_field_parses(b.subrange(11, 13), fh, hh);
    lemma_field_parses(b.subrange(14, 16), fi, mm);
    lemma_field_parses(b.subrange(17, 19), fs, ss);
    law_timestamp_matches_calendar(y, m, d, hh, mm, ss);
}

proof fn lemma_digits_value_bound(b: Seq<u8>)
    requires
        forall|i: int| 0 <= i < b.len() ==> is_digit_byte(#[trigger] b[i]),
    ensures
        0 <= digits_value(b),
        b.len() <= 4 ==> digits_value(b) < 10000,
        b.len() <= 3 ==> digits_value(b) < 1000,
        b.len() <= 2 ==> digits_value(b) < 100,
        b.len() <= 1 ==> digits_value(b) < 10,
    decreases b.len(),
{
    if b.len() > 0 {
        lemma_digits_value_bound(b.drop_last());
    }
}

/// Parses bytes `[start, end)` of `b` as an integer (at most four bytes).
#[verifier::loop_isolation(false)]
fn parse_field(b: &[u8], start: usize, end: usize) -> (r: Option<i64>)
    requires
        start <= end,
        end - start <= 4,
    ensures
        match r {
            Some(v) => ts_field(b@, start as int, end as int) == Some(v as int),
            None => ts_field(b@, start as int, end as int) is None,
        },
        r matches Some(v) ==> -10000 < v < 10000,
{
    if end > b.len() {
        return None;
    }
    let ghost f = b@.subrange(start as int, end as int);
    let mut i = start;
    let mut neg = false;
    if i < end && (b[i] == 45u8 || b[i] == 43u8) {
        neg = b[i] == 45u8;
        i = i + 1;
    }
    assert(i == start + 1 <==> (f.len() > 0 && (f[0] == 45u8 || f[0] == 43u8)));
    assert(neg <==> (f.len() > 0 && f[0] == 45u8));
    let first = i;
    let ghost digits = b@.subrange(first as int, end as int);
    assert(first == start ==> digits == f);
    assert(first == start + 1 ==> digits == f.skip(1));
    if first == end {
        return None;
    }
    let mut v: i64 = 0;
    while i < end
        invariant
            first <= i <= end,
            end <= b@.len(),
            end - start <= 4,
            start <= first <= start + 1,
            forall|k: int| first <= k < i ==> is_digit_byte(#[trigger] b@[k]),
            v == digits_value(b@.subrange(first as int, i as int)),
            0 <= v < 10000,
        decreases end - i,
    {
        if b[i] < 48u8 || b[i] > 57u8 {
            assert(!is_digit_byte(digits[i - first]));
            assert(!all_digits(digits));
            return None;
        }
        proof {
            assert(b@.subrange(first as int, i + 1).drop_last() =~= b@.subrange(first as int, i as int));
            lemma_digits_value_bound(b@.subrange(first as int, i + 1));
        }
        v = v * 10 + ((b[i] - 48u8) as i64);
        i = i + 1;
    }
    assert(digits =~= b@.subrange(first as int, i as int));
    if neg { Some(-v) } else { Some(v) }
}

/// Parses a `YYYY-MM-DD HH:MM:SS` timestamp (as SQLite's `datetime('now')` writes it)
/// into seconds since the Unix epoch.
pub fn ts_to_secs(ts: &str) -> (r: Option<i64>)
    ensures
        match r {
            Some(v) => ts_to_secs_spec(ts.spec_bytes()) == Some(v as int),
            None => ts_to_secs_spec(ts.spec_bytes()) is None,
        },
        r matches Some(v) ==> -1_000_000_000_000 < v < 1_000_000_000_000,
{
    let b = ts.as_bytes();
    let y = match parse_field(b, 0, 4) { Some(v) => v, None => return None };
    let m = match parse_field(b, 5, 7) { Some(v) => v, None => return None };
    let d = match parse_field(b, 8, 10) { Some(v) => v, None => return None };
    let hh = match parse_field(b, 11, 13) { Some(v) => v, None => return None };
    let mm = match parse_field(b, 14, 16) { Some(v) => v, None => return None };
    let ss = match parse_field(b, 17, 19) { Some(v) => v, None => return None };
    Some(jdn_secs(y, m, d, hh, mm, ss))
}

fn jdn_secs(y: i64, m: i64, d: i64, hh: i64, mm: i64, ss: i64) -> (r: i64)
    requires
        -10000 < y < 10000,
        -10000 < m < 10000,
        -10000 < d < 10000,
        -10000 < hh < 10000,
        -10000 < mm < 10000,
        -10000 < ss < 10000,
    ensures
        r == jdn_seconds(y as int, m as int, d as int, hh as int, mm as int, ss as int),
        -1_000_000_000_000 < r < 1_000_000_000_000,
{
    let a = (14 - m) / 12;
    assert(a == tdiv(14 - m, 12));
    let y2 = y + 4800 - a;
    let m2 = m + 12 * a - 3;
    let q1 = (153 * m2 + 2) / 5;
    assert(q1 == tdiv(153 * m2 + 2, 5));
    let q2 = y2 / 4;
    assert(q2 == tdiv(y2 as int, 4));
    let q3 = y2 / 100;
    assert(q3 == tdiv(y2 as int, 100));
    let q4 = y2 / 400;
    assert(q4 == tdiv(y2 as int, 400));
    let jdn = d + q1 + 365 * y2 + q2 - q3 + q4 - 32045;
    let unix_days = jdn - 2440588;
    unix_days * 86400 + hh * 3600 + mm * 60 + ss
}


/// One language server lifecycle event read back from the statistics store.
pub struct ServerEventRow {
    pub language: String,
    pub event: String,
    pub duration_ms: Option<i64>,
    pub timestamp: String,
}

/// The seconds of an event's timestamp, when it parses.
pub open spec fn event_secs(e: ServerEventRow) -> Option<int> {
    ts_to_secs_spec(vstd::utf8::encode_utf8(e.timestamp@))
}

pub open spec fn is_started(e: ServerEventRow) -> bool {
    e.event@ == "started"@
}

pub open spec fn is_stopped(e: ServerEventRow) -> bool {
    e.event@ == "stopped"@
}

/// Number of `started` events.
pub open spec fn startup_count(evs: Seq<ServerEventRow>) -> int
    decreases evs.len(),
{
    if evs.len() == 0 {
        0
    } else {
        startup_count(evs.drop_last()) + if is_started(evs.last()) { 1int } else { 0int }
    }
}

/// Number of `started` events that carry a duration.
pub open spec fn timed_startup_count(evs: Seq<ServerEventRow>) -> int
    decreases evs.len(),
{
    if evs.len() == 0 {
        0
    } else {
        timed_startup_count(evs.drop_last()) + if is_started(evs.last()) && evs.last().duration_ms is Some { 1int } else { 0int }
    }
}

/// Sum of the durations of the `started` events that carry one.
pub open spec fn startup_duration_sum(evs: Seq<ServerEventRow>) -> int
    decreases evs.len(),
{
    if evs.len() == 0 {
        0
    } else {
        startup_duration_sum(evs.drop_last()) + match (is_started(evs.last()), evs.last().duration_ms) {
            (true, Some(d)) => d as int,
            _ => 0int,
        }
    }
}

/// Average startup time: the truncated mean of the recorded startup durations, 0 when none.
pub open spec fn average_startup(evs: Seq<ServerEventRow>) -> int {
    if timed_startup_count(evs) == 0 {
        0
    } else {
        tdiv(startup_duration_sum(evs), timed_startup_count(evs))
    }
}

/// Uptime accumulated over the events, and the start time of a run still open.
/// A `started` event opens a run at its time (or leaves none open when its time does not
/// parse); a `stopped` event closes the open run, adding its length when both times parse.
pub open spec fn uptime_state(evs: Seq<ServerEventRow>) -> (int, Option<int>)
    decreases evs.len(),
{
    if evs.len() == 0 {
        (0, None)
    } else {
        let (total, open) = uptime_state(evs.drop_last());
        let e = evs.last();
        if is_started(e) {
            (total, event_secs(e))
        } else if is_stopped(e) {
            match (open, event_secs(e)) {
                (Some(start), Some(stop)) => (total + (stop - start), None),
                _ => (total, None),
            }
        } else {
            (total, open)
        }
    }
}

/// Total uptime: closed runs plus a run still open at `now`.
pub open spec fn total_uptime(evs: Seq<ServerEventRow>, now: int) -> int {
    let (total, open) = uptime_state(evs);
    match open {
        Some(start) => total + (now - start),
        None => total,
    }
}

/// The summary the statistics report shows for one language's events.
pub open spec fn server_usage_of(evs: Seq<ServerEventRow>, now: int) -> (int, int, int) {
    (startup_count(evs), average_startup(evs), total_uptime(evs, now))
}

/// The sums met while summarizing the events of `lang` among `rows` all fit in 64 bits.
pub open spec fn summary_fits(rows: Seq<ServerEventRow>, lang: Seq<char>, now: int) -> bool {
    &&& forall|i: int| 0 <= i <= rows.len() ==> i64::MIN <= #[trigger] startup_duration_sum(events_of(rows.take(i), lang)) <= i64::MAX
    &&& forall|i: int| 0 <= i <= rows.len() ==> i64::MIN <= #[trigger] uptime_state(events_of(rows.take(i), lang)).0 <= i64::MAX
    &&& match uptime_state(events_of(rows, lang)).1 {
        Some(start) => i64::MIN <= now - start <= i64::MAX && i64::MIN <= total_uptime(events_of(rows, lang), now) <= i64::MAX,
        None => true,
    }
}

/// Languages in the order of their first event.
pub open spec fn languages_in_order(rows: Seq<ServerEventRow>) -> Seq<Seq<char>>
    decreases rows.len(),
{
    if rows.len() == 0 {
        Seq::empty()
    } else {
        let earlier = languages_in_order(rows.drop_last());
        if earlier.contains(rows.last().language@) {
            earlier
        } else {
            earlier.push(rows.last().language@)
        }
    }
}

/// The events of one language, in order.
pub open spec fn events_of(rows: Seq<ServerEventRow>, lang: Seq<char>) -> Seq<ServerEventRow> {
    rows.filter(|e: ServerEventRow| e.language@ == lang)
}

proof fn lemma_events_of_step(rows: Seq<ServerEventRow>, lang: Seq<char>, i: int)
    requires
        0 <= i < rows.len(),
    ensures
        events_of(rows.take(i + 1), lang) == if rows[i].language@ == lang {
            events_of(rows.take(i), lang).push(rows[i])
        } else {
            events_of(rows.take(i), lang)
        },
{
    reveal(Seq::filter);
    assert(rows.take(i + 1).drop_last() =~= rows.take(i));
    assert(rows.take(i + 1).last() == rows[i]);
}

/// Uptime adds up over runs: after events that leave no run open, the uptime of the
/// events that follow is added to theirs, and what stays open is what those leave open.
pub proof fn law_uptime_adds_up(e1: Seq<ServerEventRow>, e2: Seq<ServerEventRow>, now: int)
    requires
        uptime_state(e1).1 is None,
    ensures
        uptime_state(e1 + e2) == (uptime_state(e1).0 + uptime_state(e2).0, uptime_state(e2).1),
        total_uptime(e1 + e2, now) == uptime_state(e1).0 + total_uptime(e2, now),
    decreases e2.len(),
{
    if e2.len() == 0 {
        assert(e1 + e2 =~= e1);
    } else {
        law_uptime_adds_up(e1, e2.drop_last(), now);
        assert((e1 + e2).drop_last() =~= e1 + e2.drop_last());
        assert((e1 + e2).last() == e2.last());
    }
}

/// After any events, a run started at `t0` and stopped at `t1` adds `t1 - t0` seconds to
/// the uptime and leaves no run open.
pub proof fn law_closed_run_counts_its_length(
    evs: Seq<ServerEventRow>,
    a: ServerEventRow,
    b: ServerEventRow,
    t0: int,
    t1: int,
)
    requires
        is_started(a),
        is_stopped(b),
        event_secs(a) == Some(t0),
        event_secs(b) == Some(t1),
    ensures
        uptime_state(evs.push(a).push(b)) == (uptime_state(evs).0 + (t1 - t0), Option::<int>::None),
{
    reveal_strlit("started");
    reveal_strlit("stopped");
    assert("started"@[2] != "stopped"@[2]);
    assert(!is_started(b));
    assert(evs.push(a).push(b).drop_last() =~= evs.push(a));
    assert(evs.push(a).drop_last() =~= evs);
    assert(uptime_state(evs.push(a)) == (uptime_state(evs).0, Some(t0)));
}

/// After any events, a run started at `t0` and still open counts until `now`.
pub proof fn law_open_run_counts_until_now(evs: Seq<ServerEventRow>, a: ServerEventRow, t0: int, now: int)
    requires
        is_started(a),
        event_secs(a) == Some(t0),
    ensures
        total_uptime(evs.push(a), now) == uptime_state(evs).0 + (now - t0),
{
    assert(evs.push(a).drop_last() =~= evs);
}

/// The uptime of one language over two stretches of rows, the first of which leaves no
/// run of that language open, is the first stretch's uptime plus the second's.
pub proof fn law_language_uptime_adds_up(r1: Seq<ServerEventRow>, r2: Seq<ServerEventRow>, lang: Seq<char>, now: int)
    requires
        uptime_state(events_of(r1, lang)).1 is None,
    ensures
        events_of(r1 + r2, lang) == events_of(r1, lang) + events_of(r2, lang),
        total_uptime(events_of(r1 + r2, lang), now) == uptime_state(events_of(r1, lang)).0 + total_uptime(
            events_of(r2, lang),
            now,
        ),
{
    Seq::filter_distributes_over_add(r1, r2, |e: ServerEventRow| e.language@ == lang);
    law_uptime_adds_up(events_of(r1, lang), events_of(r2, lang), now);
}

fn is_event(e: &ServerEventRow, name: &str) -> (r: bool)
    ensures
        r == (e.event@ == name@),
{
    str_eq(e.event.as_str(), name)
}

/// Summarizes the events of language `lang` among `rows`; `None` exactly when one of the
/// sums met on the way does not fit in 64 bits.
#[verifier::loop_isolation(false)]
pub fn summarize_language(rows: &Vec<ServerEventRow>, lang: &String, now_secs: i64) -> (r: Option<ServerUsage>)
    requires
        rows@.len() <= i64::MAX,
    ensures
        r is Some <==> summary_fits(rows@, lang@, now_secs as int),
        r matches Some(u) ==> {
            &&& u.language@ == lang@
            &&& u.startups == startup_count(events_of(rows@, lang@))
            &&& u.avg_startup_ms == average_startup(events_of(rows@, lang@))
            &&& u.total_uptime_secs == total_uptime(events_of(rows@, lang@), now_secs as int)
        },
{
    let mut startups: i64 = 0;
    let mut timed: i64 = 0;
    let mut sum: i64 = 0;
    let mut total: i64 = 0;
    let mut open: Option<i64> = None;
    let mut i: usize = 0;
    proof {
        reveal(Seq::filter);
        assert(rows@.take(0) =~= Seq::<ServerEventRow>::empty());
    }
    while i < rows.len()
        invariant
            i <= rows@.len(),
            startups == startup_count(events_of(rows@.take(i as int), lang@)),
            timed == timed_startup_count(events_of(rows@.take(i as int), lang@)),
            sum == startup_duration_sum(events_of(rows@.take(i as int), lang@)),
            total == uptime_state(events_of(rows@.take(i as int), lang@)).0,
            match open {
                Some(s) => uptime_state(events_of(rows@.take(i as int), lang@)).1 == Some(s as int),
                None => uptime_state(events_of(rows@.take(i as int), lang@)).1 is None,
            },
            forall|k: int| 0 <= k <= i ==> i64::MIN <= #[trigger] startup_duration_sum(events_of(rows@.take(k), lang@)) <= i64::MAX,
            forall|k: int| 0 <= k <= i ==> i64::MIN <= #[trigger] uptime_state(events_of(rows@.take(k), lang@)).0 <= i64::MAX,
            startups <= i,
            0 <= timed <= i,
            open matches Some(s) ==> -1_000_000_000_000 < s < 1_000_000_000_000,
        decreases rows@.len() - i,
    {
        let e = &rows[i];
        proof {
            lemma_events_of_step(rows@, lang@, i as int);
        }
        if e.language == *lang {
            let ghost prev = events_of(rows@.take(i as int), lang@);
            let ghost next = prev.push(rows@[i as int]);
            assert(next.drop_last() =~= prev);
            if is_event(e, "started") {
                startups = startups + 1;
                match e.duration_ms {
                    Some(d) => {
                        timed = timed + 1;
                        match sum.checked_add(d) {
                            Some(v) => {
                                sum = v;
                            },
                            None => {
                                assert(!(i64::MIN <= startup_duration_sum(events_of(rows@.take(i + 1), lang@)) <= i64::MAX));
                                return None;
                            },
                        }
                    },
                    None => {},
                }
                open = ts_to_secs(e.timestamp.as_str());
            } else if is_event(e, "stopped") {
                match (open, ts_to_secs(e.timestamp.as_str())) {
                    (Some(start), Some(stop)) => {
                        match total.checked_add(stop - start) {
                            Some(v) => {
                                total = v;
                            },
                            None => {
                                assert(!(i64::MIN <= uptime_state(events_of(rows@.take(i + 1), lang@)).0 <= i64::MAX));
                                return None;
                            },
                        }
                    },
                    _ => {},
                }
                open = None;
            }
        }
        i = i + 1;
        assert(i64::MIN <= startup_duration_sum(events_of(rows@.take(i as int), lang@)) <= i64::MAX);
        assert(i64::MIN <= uptime_state(events_of(rows@.take(i as int), lang@)).0 <= i64::MAX);
    }
    assert(rows@.take(rows@.len() as int) =~= rows@);
    let avg: i64 = if timed == 0 { 0 } else { sum / timed };
    assert(timed != 0 ==> avg == tdiv(sum as int, timed as int));
    let uptime: i64 = match open {
        Some(start) => match now_secs.checked_sub(start) {
            Some(running) => match total.checked_add(running) {
                Some(u) => u,
                None => {
                    return None;
                },
            },
            None => {
                return None;
            },
        },
        None => total,
    };
    Some(ServerUsage { language: lang.clone(), startups, avg_startup_ms: avg, total_uptime_secs: uptime })
}

fn contains_text(items: &Vec<String>, s: &String) -> (r: bool)
    ensures
        r == items@.map_values(|x: String| x@).contains(s@),
{
    let ghost views = items@.map_values(|x: String| x@);
    let mut i: usize = 0;
    while i < items.len()
        invariant
            i <= items@.len(),
            views == items@.map_values(|x: String| x@),
            forall|k: int| 0 <= k < i ==> views[k] != s@,
        decreases items@.len() - i,
    {
        if items[i] == *s {
            assert(views[i as int] == s@);
            return true;
        }
        i = i + 1;
    }
    false
}

/// The languages of `rows`, in the order of their first event.
pub fn server_languages(rows: &Vec<ServerEventRow>) -> (r: Vec<String>)
    ensures
        r@.map_values(|x: String| x@) == languages_in_order(rows@),
{
    let mut langs: Vec<String> = Vec::new();
    let mut i: usize = 0;
    assert(rows@.take(0) =~= Seq::<ServerEventRow>::empty());
    assert(langs@.map_values(|x: String| x@) =~= Seq::<Seq<char>>::empty());
    while i < rows.len()
        invariant
            i <= rows@.len(),
            langs@.map_values(|x: String| x@) == languages_in_order(rows@.take(i as int)),
        decreases rows@.len() - i,
    {
        assert(rows@.take(i + 1).drop_last() =~= rows@.take(i as int));
        assert(rows@.take(i + 1).last() == rows@[i as int]);
        if !contains_text(&langs, &rows[i].language) {
            let ghost before = langs@;
            langs.push(rows[i].language.clone());
            assert(langs@.map_values(|x: String| x@) =~= before.map_values(|x: String| x@).push(rows@[i as int].language@));
        }
        i = i + 1;
    }
    assert(rows@.take(rows@.len() as int) =~= rows@);
    langs
}

/// Per-language server activity: for each language in the order of its first event
/// (the rows come ordered by language), the number of startups, the truncated mean
/// startup time, and the uptime up to `now_secs`; `None` exactly when the sums of some
/// language do not fit in 64 bits.
pub fn summarize_server_usage(rows: &Vec<ServerEventRow>, now_secs: i64) -> (r: Option<Vec<ServerUsage>>)
    requires
        rows@.len() <= i64::MAX,
    ensures
        r is Some <==> forall|l: Seq<char>| languages_in_order(rows@).contains(l) ==> #[trigger] summary_fits(rows@, l, now_secs as int),
        r matches Some(v) ==> {
            &&& v@.len() == languages_in_order(rows@).len()
            &&& forall|j: int| 0 <= j < v@.len() ==> {
                let l = #[trigger] languages_in_order(rows@)[j];
                &&& v@[j].language@ == l
                &&& v@[j].startups == startup_count(events_of(rows@, l))
                &&& v@[j].avg_startup_ms == average_startup(events_of(rows@, l))
                &&& v@[j].total_uptime_secs == total_uptime(events_of(rows@, l), now_secs as int)
            }
        },
{
    let langs = server_languages(rows);
    let ghost lv = languages_in_order(rows@);
    let mut out: Vec<ServerUsage> = Vec::new();
    let mut j: usize = 0;
    while j < langs.len()
        invariant
            j <= langs@.len(),
            langs@.map_values(|x: String| x@) == lv,
            lv == languages_in_order(rows@),
            rows@.len() <= i64::MAX,
            out@.len() == j,
            forall|k: int| 0 <= k < j ==> #[trigger] summary_fits(rows@, lv[k], now_secs as int),
            forall|k: int| 0 <= k < j ==> {
                let l = #[trigger] lv[k];
                &&& out@[k].language@ == l
                &&& out@[k].startups == startup_count(events_of(rows@, l))
                &&& out@[k].avg_startup_ms == average_startup(events_of(rows@, l))
                &&& out@[k].total_uptime_secs == total_uptime(events_of(rows@, l), now_secs as int)
            },
        decreases langs@.len() - j,
    {
        assert(langs@.map_values(|x: String| x@)[j as int] == langs@[j as int]@);
        match summarize_language(rows, &langs[j], now_secs) {
            Some(u) => {
                out.push(u);
            },
            None => {
                assert(lv.contains(lv[j as int]));
                return None;
            },
        }
        j = j + 1;
    }
    assert forall|l: Seq<char>| languages_in_order(rows@).contains(l) implies #[trigger] summary_fits(rows@, l, now_secs as int) by {
        let k = choose|k: int| 0 <= k < lv.len() && lv[k] == l;
        assert(summary_fits(rows@, lv[k], now_secs as int));
    }
    Some(out)
}

} // verus!
