//! The clock, dates as text, and schedules.

use crate::state;
use crate::state::Moment;
use crate::text;
use vstd::prelude::*;

verus! {

/// The last second that a date can have.
pub const LAST_SECOND: i64 = 8210266876799;

/// The last second of the year 9999.
pub const LAST_PLAIN_SECOND: i64 = 253402300799;

/// Whether a moment can be written as a date, from 1970 on.
pub open spec fn datable(m: Moment) -> bool {
    0 <= m.secs <= LAST_SECOND && state::proper(m)
}

/// `chrono::Utc::now`: the time it is, by the clock of the machine. Whenever it returns, the time is
/// one that a date can have, and not before 1970.
#[verifier::external_body]
fn clock() -> (r: Moment)
    ensures
        datable(r),
{
    let t = chrono::Utc::now();
    Moment { secs: t.timestamp(), nanos: t.timestamp_subsec_nanos() }
}

/// The time it is.
pub fn now() -> (r: Moment)
    ensures
        datable(r),
{
    clock()
}

// ---------------------------------------------------------------------------
// Dates as text
// ---------------------------------------------------------------------------

/// How the date stands in the name of a backup.
pub const BACKUP_FORMAT: &'static str = "%Y-%m-%d_%H-%M-%S";

/// How the date stands in the name of a backup without seconds.
pub const SHORT_BACKUP_FORMAT: &'static str = "%Y-%m-%d_%H-%M";

/// How the date of a ban is written.
pub const BAN_FORMAT: &'static str = "%Y-%m-%d %H:%M:%S %z";

/// What `chrono::DateTime::format` writes for a second of UTC.
pub uninterp spec fn utc_text(secs: int, format: Seq<char>) -> Seq<char>;

/// The second of UTC that `chrono::NaiveDateTime::parse_from_str` reads from a text.
pub uninterp spec fn utc_secs(s: Seq<char>, format: Seq<char>) -> Option<int>;

/// Whether a text is made of digits, `-` and `_`.
pub open spec fn plain_date(s: Seq<char>) -> bool {
    s.len() > 0 && forall|i: int|
        0 <= i < s.len() ==> text::is_digit(#[trigger] s[i]) || s[i] == '-' || s[i] == '_'
}

/// `chrono::DateTime::format` on a second of UTC, in one of the formats in use: what it writes
/// depends on the second and the format alone. Up to the year 9999 the date in the name of a backup
/// is made of digits, `-` and `_`, and it is read back as it was written.
#[verifier::external_body]
fn format_utc(secs: i64, format: &str) -> (r: String)
    requires
        0 <= secs <= LAST_SECOND,
        format@ == BACKUP_FORMAT@ || format@ == BAN_FORMAT@,
    ensures
        r@ == utc_text(secs as int, format@),
        format@ == BACKUP_FORMAT@ && secs <= LAST_PLAIN_SECOND ==> plain_date(r@) && utc_secs(
            r@,
            format@,
        ) == Some(secs as int),
{
    chrono::DateTime::from_timestamp(secs, 0).map(|t| t.format(format).to_string()).unwrap_or_default()
}

/// The view of an optional second.
pub open spec fn opt_int(r: Option<i64>) -> Option<int> {
    match r {
        Some(n) => Some(n as int),
        None => None,
    }
}

/// `chrono::NaiveDateTime::parse_from_str`, taken as UTC, in one of the formats in use: what it
/// reads depends on the text and the format alone.
#[verifier::external_body]
fn parse_utc(s: &str, format: &str) -> (r: Option<i64>)
    requires
        format@ == BACKUP_FORMAT@ || format@ == SHORT_BACKUP_FORMAT@,
    ensures
        opt_int(r) == utc_secs(s@, format@),
{
    chrono::NaiveDateTime::parse_from_str(s, format).ok().map(|d| d.and_utc().timestamp())
}

/// The date of a ban.
pub fn ban_date(secs: i64) -> (r: String)
    requires
        0 <= secs <= LAST_SECOND,
    ensures
        r@ == utc_text(secs as int, BAN_FORMAT@),
{
    format_utc(secs, BAN_FORMAT)
}

/// The date in the name of a backup.
pub fn backup_date(secs: i64) -> (r: String)
    requires
        0 <= secs <= LAST_SECOND,
    ensures
        r@ == utc_text(secs as int, BACKUP_FORMAT@),
        secs <= LAST_PLAIN_SECOND ==> plain_date(r@) && utc_secs(r@, BACKUP_FORMAT@) == Some(
            secs as int,
        ),
{
    format_utc(secs, BACKUP_FORMAT)
}

/// The second that the date in the name of a backup tells, with or without seconds.
pub open spec fn date_told(with_seconds: Option<int>, without_seconds: Option<int>) -> Option<int> {
    match with_seconds {
        Some(t) => Some(t),
        None => without_seconds,
    }
}

/// The second that a date tells, from what it reads as with and without seconds.
pub fn pick_date(with_seconds: Option<i64>, without_seconds: Option<i64>) -> (r: Option<i64>)
    ensures
        opt_int(r) == date_told(opt_int(with_seconds), opt_int(without_seconds)),
{
    match with_seconds {
        Some(t) => Some(t),
        None => without_seconds,
    }
}

/// The second that the date in the name of a backup tells.
pub fn read_backup_date(s: &str) -> (r: Option<i64>)
    ensures
        opt_int(r) == date_told(utc_secs(s@, BACKUP_FORMAT@), utc_secs(s@, SHORT_BACKUP_FORMAT@)),
{
    let with_seconds = parse_utc(s, BACKUP_FORMAT);
    let without_seconds = parse_utc(s, SHORT_BACKUP_FORMAT);
    pick_date(with_seconds, without_seconds)
}

// ---------------------------------------------------------------------------
// Schedules
// ---------------------------------------------------------------------------

/// A schedule with a field for seconds: one with five fields gets one in front.
pub open spec fn with_seconds(schedule: Seq<char>) -> Seq<char> {
    if text::word_count(schedule) == 5 {
        "0 "@ + schedule
    } else {
        schedule
    }
}

/// A schedule with a field for seconds.
pub fn normalize_cron(schedule: &str) -> (r: String)
    ensures
        r@ == with_seconds(schedule@),
{
    if text::count_words(schedule) == 5 {
        let mut s = "0 ".to_string();
        s.append(schedule);
        s
    } else {
        schedule.to_string()
    }
}

/// The view of the next run of a schedule, or of why it cannot be read.
pub open spec fn run_view(r: Result<Option<i64>, String>) -> Result<Option<int>, Seq<char>> {
    match r {
        Ok(t) => Ok(opt_int(t)),
        Err(e) => Err(e@),
    }
}

/// The first second of UTC after a moment that `cron::Schedule` finds for a schedule, or why the
/// schedule cannot be read.
pub uninterp spec fn cron_next(schedule: Seq<char>, secs: int, nanos: int) -> Result<
    Option<int>,
    Seq<char>,
>;

/// `cron::Schedule::from_str` and the first item of `cron::Schedule::after`: what they come to
/// depends on the schedule and the moment alone, and a run that is found lies after the moment and
/// before the last second: schedules end with the year 2100.
#[verifier::external_body]
fn cron_after(schedule: &str, after: Moment) -> (r: Result<Option<i64>, String>)
    requires
        datable(after),
        after.secs < LAST_SECOND,
    ensures
        run_view(r) == cron_next(schedule@, after.secs as int, after.nanos as int),
        r matches Ok(Some(t)) ==> after.secs < t < LAST_SECOND,
{
    let s: cron::Schedule = std::str::FromStr::from_str(schedule).map_err(
        |e: cron::error::Error| e.to_string(),
    )?;
    let t = chrono::DateTime::from_timestamp(after.secs, after.nanos).unwrap_or_default();
    let next = s.after(&t).next();
    Ok(next.map(|d: chrono::DateTime<chrono::Utc>| d.timestamp()))
}

/// The next run of a schedule after a moment.
pub fn next_run(schedule: &str, after: Moment) -> (r: Result<Option<i64>, String>)
    requires
        datable(after),
        after.secs < LAST_SECOND,
    ensures
        run_view(r) == cron_next(with_seconds(schedule@), after.secs as int, after.nanos as int),
        r matches Ok(Some(t)) ==> after.secs < t < LAST_SECOND,
{
    let s = normalize_cron(schedule);
    cron_after(s.as_str(), after)
}

/// How many nanoseconds lie between a moment and a later second; none where the second is past.
pub open spec fn nanos_until(next: int, now: Moment) -> int {
    let d = (next - now.secs) * 1000000000 - now.nanos;
    if d < 0 {
        0
    } else {
        d
    }
}

/// How many nanoseconds lie between a moment and a later second.
pub fn wait_until(next: i64, now: Moment) -> (r: u128)
    ensures
        r == nanos_until(next as int, now),
{
    let d: i128 = (next as i128 - now.secs as i128) * 1000000000 - now.nanos as i128;
    if d < 0 {
        0
    } else {
        d as u128
    }
}

/// How many whole seconds went by from one moment to another; none where the second one is earlier.
pub open spec fn seconds_between(from: Moment, to: Moment) -> int {
    let d = (to.secs - from.secs) * 1000000000 + to.nanos - from.nanos;
    if d < 0 {
        0
    } else {
        d / 1000000000
    }
}

/// How many whole seconds went by from one moment to another.
pub fn elapsed_seconds(from: Moment, to: Moment) -> (r: u64)
    requires
        state::proper(from),
        state::proper(to),
    ensures
        r == seconds_between(from, to),
{
    let d: i128 = (to.secs as i128 - from.secs as i128) * 1000000000 + to.nanos as i128
        - from.nanos as i128;
    if d < 0 {
        0
    } else {
        let s: i128 = d / 1000000000;
        s as u64
    }
}

proof fn lemma_field_in_front(s: Seq<char>)
    ensures
        text::word_count("0 "@ + s) == 1 + text::word_count(s),
    decreases s.len(),
{
    reveal_strlit("0 ");
    let x = "0 "@ + s;
    if s.len() == 0 {
        assert(x =~= seq!['0', ' ']);
        assert(x.drop_last() =~= seq!['0']);
        assert(seq!['0'].drop_last() =~= Seq::<char>::empty());
        assert(text::word_count(seq!['0'].drop_last()) == 0);
        assert(text::word_count(seq!['0']) == 1);
    } else {
        lemma_field_in_front(s.drop_last());
        assert(x.drop_last() =~= "0 "@ + s.drop_last());
        assert(x.last() == s.last());
        if s.len() == 1 {
            assert(x[x.len() - 2] == ' ');
        } else {
            assert(x[x.len() - 2] == s[s.len() - 2]);
        }
    }
}

/// A schedule with five fields gets a sixth; every other one stays as it is.
pub proof fn law_five_fields_become_six(schedule: Seq<char>)
    ensures
        text::word_count(schedule) == 5 ==> text::word_count(with_seconds(schedule)) == 6,
        text::word_count(schedule) != 5 ==> with_seconds(schedule) == schedule,
{
    lemma_field_in_front(schedule);
}

/// Waiting so long as is told leads just to the second that is waited for, unless it is past.
pub proof fn law_waits_end_on_time(next: int, now: Moment)
    ensures
        nanos_until(next, now) > 0 ==> now.secs * 1000000000 + now.nanos + nanos_until(next, now)
            == next * 1000000000,
{
}

} // verus!
