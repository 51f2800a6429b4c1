//! Rotation proper: timestamps and rotated-file names, the rotation guard,
//! and backup retention with its quickselect cutoff.
//!
//! A rotated backup of `run.log` taken at 2023-03-17 20:07:00 UTC is named
//! `run-20230317200700.log` (plus `.gz` once compressed). The fourteen-digit
//! timestamp orders backups chronologically, so retention works on the
//! timestamps read back out of the names.

use vstd::pervasive::VecAdditionalExecFns;
use vstd::prelude::*;
use vstd::relations::{sorted_by, total_ordering};
use vstd::seq_lib::{
    group_to_multiset_ensures, lemma_multiset_commutative, lemma_sorted_unique,
};

use chrono::{Datelike, TimeZone, Timelike};

use crate::config::config::Log;
use crate::rotater::error::RotaterErr;
use crate::text::{
    digit_str, digit_val, lemma_rfind_char, lemma_rfind_concat_found, lemma_rfind_concat_none,
    rfind_char, spec_digit_char, spec_digit_val, spec_is_digit, spec_rfind_char,
};

verus! {

/// A calendar timestamp in UTC, second precision, as carried in rotated
/// file names.
#[derive(Debug, Clone, Copy, PartialEq, Eq, Structural)]
pub struct Timestamp {
    pub year: u64,
    pub month: u64,
    pub day: u64,
    pub hour: u64,
    pub minute: u64,
    pub second: u64,
}

/// Whether a year has a leap day.
pub open spec fn spec_is_leap_year(y: int) -> bool {
    y % 4 == 0 && (y % 100 != 0 || y % 400 == 0)
}

/// Days in a month of the proleptic Gregorian calendar.
pub open spec fn spec_days_in_month(y: int, m: int) -> int {
    if m == 2 {
        if spec_is_leap_year(y) {
            29
        } else {
            28
        }
    } else if m == 4 || m == 6 || m == 9 || m == 11 {
        30
    } else {
        31
    }
}

/// Days in a month of the proleptic Gregorian calendar.
pub fn days_in_month(y: u64, m: u64) -> (r: u64)
    ensures
        r == spec_days_in_month(y as int, m as int),
{
    if m == 2 {
        if y % 4 == 0 && (y % 100 != 0 || y % 400 == 0) {
            29
        } else {
            28
        }
    } else if m == 4 || m == 6 || m == 9 || m == 11 {
        30
    } else {
        31
    }
}

impl Timestamp {
    /// A real calendar date and time, with a four-digit year so it fits the
    /// fourteen-digit backup-name format.
    pub open spec fn valid(&self) -> bool {
        &&& self.year <= 9999
        &&& 1 <= self.month <= 12
        &&& 1 <= self.day <= spec_days_in_month(self.year as int, self.month as int)
        &&& self.hour <= 23
        &&& self.minute <= 59
        &&& self.second <= 59
    }

    /// The timestamp packed as the number YYYYMMDDHHMMSS. For valid
    /// timestamps this ordering is the chronological one.
    pub open spec fn spec_key(&self) -> int {
        self.year * 10000000000 + self.month * 100000000 + self.day * 1000000 + self.hour * 10000
            + self.minute * 100 + self.second
    }

    /// The timestamp packed as the number YYYYMMDDHHMMSS.
    pub fn key(&self) -> (r: u64)
        requires
            self.valid(),
        ensures
            r == self.spec_key(),
    {
        self.year * 10000000000 + self.month * 100000000 + self.day * 1000000 + self.hour * 10000
            + self.minute * 100 + self.second
    }

    /// Build a validated timestamp from raw calendar fields.
    pub fn from_fields(y: i64, mo: u64, d: u64, h: u64, mi: u64, s: u64) -> (r: Option<Timestamp>)
        ensures
            r == spec_field_timestamp(y, mo, d, h, mi, s),
            r matches Some(t) ==> t.valid(),
    {
        if y < 0 || y > 9999 {
            return None;
        }
        let t = Timestamp { year: y as u64, month: mo, day: d, hour: h, minute: mi, second: s };
        if 1 <= mo && mo <= 12 && 1 <= d && d <= days_in_month(t.year, mo) && h <= 23 && mi <= 59
            && s <= 59 {
            Some(t)
        } else {
            None
        }
    }
}

/// Chronological order on timestamps: lexicographic on the fields from the
/// year down to the second.
pub open spec fn spec_chrono_le(a: Timestamp, b: Timestamp) -> bool {
    if a.year != b.year {
        a.year < b.year
    } else if a.month != b.month {
        a.month < b.month
    } else if a.day != b.day {
        a.day < b.day
    } else if a.hour != b.hour {
        a.hour < b.hour
    } else if a.minute != b.minute {
        a.minute < b.minute
    } else {
        a.second <= b.second
    }
}

/// A strictly earlier timestamp has a strictly smaller packed key.
proof fn lemma_chrono_lt_key(a: Timestamp, b: Timestamp)
    requires
        a.valid(),
        b.valid(),
        spec_chrono_le(a, b),
        a != b,
    ensures
        a.spec_key() < b.spec_key(),
{
    if a.year != b.year {
        assert(a.spec_key() < (a.year + 1) * 10000000000);
        assert((a.year + 1) * 10000000000 <= b.year * 10000000000);
    } else if a.month != b.month {
        assert(a.spec_key() < a.year * 10000000000 + (a.month + 1) * 100000000);
        assert((a.month + 1) * 100000000 <= b.month * 100000000);
    } else if a.day != b.day {
        assert(a.spec_key() < a.year * 10000000000 + a.month * 100000000 + (a.day + 1) * 1000000);
        assert((a.day + 1) * 1000000 <= b.day * 1000000);
    } else if a.hour != b.hour {
        assert((a.hour + 1) * 10000 <= b.hour * 10000);
    } else if a.minute != b.minute {
        assert((a.minute + 1) * 100 <= b.minute * 100);
    }
}

/// The packed key orders valid timestamps exactly as the calendar does, so
/// retention may compare ages by comparing keys.
pub proof fn lemma_key_orders_chronologically(a: Timestamp, b: Timestamp)
    requires
        a.valid(),
        b.valid(),
    ensures
        (a.spec_key() <= b.spec_key()) == spec_chrono_le(a, b),
{
    if a != b {
        if spec_chrono_le(a, b) {
            lemma_chrono_lt_key(a, b);
        } else {
            lemma_chrono_lt_key(b, a);
        }
    }
}

/// Relies on the system clock read through std's `SystemTime` (a pre-epoch
/// clock gives `Err`, mapped to `None`), chrono's `DateTime::from_timestamp`
/// (`None` outside chrono's range, no panic), and its field accessors:
/// `month()` is 1..=12, `day()` 1..=31, `hour()` 0..=23, `minute()` and
/// `second()` 0..=59. Nothing is assumed about the year.
#[verifier::external_body]
fn utc_now_fields() -> (r: Option<(i64, u64, u64, u64, u64, u64)>)
    ensures
        match r {
            Some(f) => 1 <= f.1 <= 12 && 1 <= f.2 <= 31 && f.3 <= 23 && f.4 <= 59 && f.5 <= 59,
            None => true,
        },
{
    let since_epoch = std::time::SystemTime::now().duration_since(std::time::UNIX_EPOCH);
    let secs = match since_epoch {
        Ok(d) => d.as_secs() as i64,
        Err(_) => return None,
    };
    let now = chrono::DateTime::<chrono::Utc>::from_timestamp(secs, 0)?;
    Some((now.year() as i64, now.month() as u64, now.day() as u64, now.hour() as u64,
        now.minute() as u64, now.second() as u64))
}

/// What chrono's calendar gives for a timestamp's fields moved a number of
/// days into the past: a function of the arguments alone.
pub uninterp spec fn sub_days_of(
    y: u64,
    mo: u64,
    d: u64,
    h: u64,
    mi: u64,
    s: u64,
    days: u64,
) -> Option<(i64, u64, u64, u64, u64, u64)>;

/// Relies on chrono's calendar arithmetic: `with_ymd_and_hms` builds a UTC
/// date-time from the fields (`None` on invalid ones, no panic) and
/// `checked_sub_days` moves it the given number of days into the past; the
/// accessors bound the fields as above. The result depends on the
/// arguments alone, so it is named `sub_days_of`.
#[verifier::external_body]
fn utc_fields_sub_days(y: u64, mo: u64, d: u64, h: u64, mi: u64, s: u64, days: u64) -> (r: Option<
    (i64, u64, u64, u64, u64, u64),
>)
    requires
        y <= 9999,
        mo <= 12,
        d <= 31,
        h <= 23,
        mi <= 59,
        s <= 59,
    ensures
        r == sub_days_of(y, mo, d, h, mi, s, days),
        match r {
            Some(f) => 1 <= f.1 <= 12 && 1 <= f.2 <= 31 && f.3 <= 23 && f.4 <= 59 && f.5 <= 59,
            None => true,
        },
{
    let at = chrono::Utc.with_ymd_and_hms(y as i32, mo as u32, d as u32, h as u32, mi as u32,
        s as u32);
    let dt = at.single()?.checked_sub_days(chrono::Days::new(days))?;
    Some((dt.year() as i64, dt.month() as u64, dt.day() as u64, dt.hour() as u64,
        dt.minute() as u64, dt.second() as u64))
}

/// The validated timestamp a set of raw calendar fields yields, if any.
pub open spec fn spec_field_timestamp(y: i64, mo: u64, d: u64, h: u64, mi: u64, s: u64) -> Option<
    Timestamp,
> {
    let t = Timestamp { year: y as u64, month: mo, day: d, hour: h, minute: mi, second: s };
    if 0 <= y <= 9999 && t.valid() {
        Some(t)
    } else {
        None
    }
}

/// The timestamp a number of days earlier, as the calendar computes it:
/// `sub_days_of`'s answer, revalidated.
pub open spec fn spec_timestamp_sub_days(t: Timestamp, days: u64) -> Option<Timestamp> {
    match sub_days_of(t.year, t.month, t.day, t.hour, t.minute, t.second, days) {
        Some(f) => spec_field_timestamp(f.0, f.1, f.2, f.3, f.4, f.5),
        None => None,
    }
}

/// The current UTC time as a validated timestamp; `None` only if the clock
/// cannot be read or reports a date outside the four-digit-year range.
pub fn now_timestamp() -> (r: Option<Timestamp>)
    ensures
        match r {
            Some(t) => t.valid(),
            None => true,
        },
{
    match utc_now_fields() {
        Some(f) => Timestamp::from_fields(f.0, f.1, f.2, f.3, f.4, f.5),
        None => None,
    }
}

/// The timestamp the given number of days earlier, computed by the
/// calendar; `None` if the calendar cannot represent it.
pub fn timestamp_sub_days(t: &Timestamp, days: u64) -> (r: Option<Timestamp>)
    requires
        t.valid(),
    ensures
        r == spec_timestamp_sub_days(*t, days),
        r matches Some(t2) ==> t2.valid(),
{
    match utc_fields_sub_days(t.year, t.month, t.day, t.hour, t.minute, t.second, days) {
        Some(f) => Timestamp::from_fields(f.0, f.1, f.2, f.3, f.4, f.5),
        None => None,
    }
}

/// The retention deadline: backups older than this are expired. It is the
/// moment `max_days` days before `now`, as the calendar computes it.
pub fn rotation_deadline(now: &Timestamp, max_days: u64) -> (r: Option<Timestamp>)
    requires
        now.valid(),
    ensures
        r == spec_timestamp_sub_days(*now, max_days),
        r matches Some(t) ==> t.valid(),
{
    timestamp_sub_days(now, max_days)
}

/// The file-name part of a path: everything after the last separator.
pub open spec fn spec_file_name(s: Seq<char>) -> Seq<char> {
    match spec_rfind_char(s, '/') {
        Some(i) => s.skip(i + 1),
        None => s,
    }
}

/// The stem of a file name: everything before the last dot, unless that
/// would be empty (a leading-dot name has no extension).
pub open spec fn spec_stem(name: Seq<char>) -> Seq<char> {
    match spec_rfind_char(name, '.') {
        Some(i) => if i > 0 {
            name.take(i)
        } else {
            name
        },
        None => name,
    }
}

/// The extension of a file name, empty when there is none.
pub open spec fn spec_ext(name: Seq<char>) -> Seq<char> {
    match spec_rfind_char(name, '.') {
        Some(i) => if i > 0 {
            name.skip(i + 1)
        } else {
            Seq::empty()
        },
        None => Seq::empty(),
    }
}

/// The fourteen timestamp characters YYYYMMDDHHMMSS.
pub open spec fn spec_ts_chars(t: Timestamp) -> Seq<char> {
    seq![
        spec_digit_char(t.year as int / 1000 % 10),
        spec_digit_char(t.year as int / 100 % 10),
        spec_digit_char(t.year as int / 10 % 10),
        spec_digit_char(t.year as int % 10),
        spec_digit_char(t.month as int / 10),
        spec_digit_char(t.month as int % 10),
        spec_digit_char(t.day as int / 10),
        spec_digit_char(t.day as int % 10),
        spec_digit_char(t.hour as int / 10),
        spec_digit_char(t.hour as int % 10),
        spec_digit_char(t.minute as int / 10),
        spec_digit_char(t.minute as int % 10),
        spec_digit_char(t.second as int / 10),
        spec_digit_char(t.second as int % 10),
    ]
}

/// The rotated name for a log path at a rotation time:
/// `stem-YYYYMMDDHHMMSS.ext`, built from the file-name part of the path.
pub open spec fn spec_rotated_name(path: Seq<char>, t: Timestamp) -> Seq<char> {
    spec_stem(spec_file_name(path)) + seq!['-'] + spec_ts_chars(t) + seq!['.'] + spec_ext(
        spec_file_name(path),
    )
}

/// Format the fourteen timestamp digits.
fn format_ts(t: &Timestamp) -> (r: String)
    requires
        t.valid(),
    ensures
        r@ == spec_ts_chars(*t),
{
    let r = String::from_str(digit_str(t.year / 1000 % 10));
    let r = r.concat(digit_str(t.year / 100 % 10));
    let r = r.concat(digit_str(t.year / 10 % 10));
    let r = r.concat(digit_str(t.year % 10));
    let r = r.concat(digit_str(t.month / 10));
    let r = r.concat(digit_str(t.month % 10));
    let r = r.concat(digit_str(t.day / 10));
    let r = r.concat(digit_str(t.day % 10));
    let r = r.concat(digit_str(t.hour / 10));
    let r = r.concat(digit_str(t.hour % 10));
    let r = r.concat(digit_str(t.minute / 10));
    let r = r.concat(digit_str(t.minute % 10));
    let r = r.concat(digit_str(t.second / 10));
    let r = r.concat(digit_str(t.second % 10));
    proof {
        assert(r@ =~= spec_ts_chars(*t));
    }
    r
}

/// The file-name part of a path.
fn file_name_part(path: &str) -> (r: &str)
    ensures
        r@ == spec_file_name(path@),
{
    let n = path.unicode_len();
    let sep = rfind_char(path, '/');
    proof {
        lemma_rfind_char(path@, '/');
    }
    match sep {
        Some(i) => path.substring_char(i + 1, n),
        None => path.substring_char(0, n),
    }
}

/// Compute the rotated file name for a log path at a rotation time:
/// `stem-YYYYMMDDHHMMSS.ext` (the extension may be empty, as may the stem
/// for an extension-less hidden file; the dash and the dot are always
/// present).
pub fn format_path_by_time(origin_path: &str, t: &Timestamp) -> (r: String)
    requires
        t.valid(),
    ensures
        r@ == spec_rotated_name(origin_path@, *t),
{
    let name = file_name_part(origin_path);
    let n = name.unicode_len();
    let dot = rfind_char(name, '.');
    proof {
        lemma_rfind_char(name@, '.');
    }
    let (stem, ext) = match dot {
        Some(i) => if i > 0 {
            (name.substring_char(0, i), name.substring_char(i + 1, n))
        } else {
            (name.substring_char(0, n), name.substring_char(n, n))
        },
        None => (name.substring_char(0, n), name.substring_char(n, n)),
    };
    proof {
        assert(stem@ =~= spec_stem(name@));
        assert(ext@ =~= spec_ext(name@));
    }
    let ts = format_ts(t);
    let r = String::from_str(stem).concat("-").concat(ts.as_str()).concat(".").concat(ext);
    proof {
        reveal_strlit("-");
        reveal_strlit(".");
        assert(r@ =~= spec_rotated_name(origin_path@, *t));
    }
    r
}

/// The timestamp read from the fourteen characters YYYYMMDDHHMMSS, if they
/// are all digits and name a real calendar moment.
pub open spec fn spec_parse_ts(s: Seq<char>) -> Option<Timestamp> {
    if s.len() == 14 && (forall|i: int| 0 <= i < 14 ==> spec_is_digit(#[trigger] s[i])) {
        let t = Timestamp {
            year: (spec_digit_val(s[0]) * 1000 + spec_digit_val(s[1]) * 100 + spec_digit_val(s[2])
                * 10 + spec_digit_val(s[3])) as u64,
            month: (spec_digit_val(s[4]) * 10 + spec_digit_val(s[5])) as u64,
            day: (spec_digit_val(s[6]) * 10 + spec_digit_val(s[7])) as u64,
            hour: (spec_digit_val(s[8]) * 10 + spec_digit_val(s[9])) as u64,
            minute: (spec_digit_val(s[10]) * 10 + spec_digit_val(s[11])) as u64,
            second: (spec_digit_val(s[12]) * 10 + spec_digit_val(s[13])) as u64,
        };
        if t.valid() {
            Some(t)
        } else {
            None
        }
    } else {
        None
    }
}

/// Read one two-digit field of a timestamp string.
fn parse_two(s: &str, at: usize) -> (r: Option<u64>)
    requires
        at + 2 <= s@.len(),
        s@.len() <= usize::MAX,
    ensures
        match r {
            Some(v) => spec_is_digit(s@[at as int]) && spec_is_digit(s@[at + 1]) && v
                == spec_digit_val(s@[at as int]) * 10 + spec_digit_val(s@[at + 1]) && v < 100,
            None => !(spec_is_digit(s@[at as int]) && spec_is_digit(s@[at + 1])),
        },
{
    let d1 = match digit_val(s.get_char(at)) {
        Some(d) => d,
        None => {
            return None;
        },
    };
    let d2 = match digit_val(s.get_char(at + 1)) {
        Some(d) => d,
        None => {
            return None;
        },
    };
    Some(d1 * 10 + d2)
}

/// Read the timestamp out of fourteen characters.
fn parse_ts(s: &str) -> (r: Option<Timestamp>)
    ensures
        r == spec_parse_ts(s@),
{
    let n = s.unicode_len();
    if n != 14 {
        return None;
    }
    let y1 = parse_two(s, 0);
    let y2 = parse_two(s, 2);
    let mo = parse_two(s, 4);
    let d = parse_two(s, 6);
    let h = parse_two(s, 8);
    let mi = parse_two(s, 10);
    let sec = parse_two(s, 12);
    match (y1, y2, mo, d, h, mi, sec) {
        (Some(y1), Some(y2), Some(mo), Some(d), Some(h), Some(mi), Some(sec)) => {
            let t = Timestamp {
                year: y1 * 100 + y2,
                month: mo,
                day: d,
                hour: h,
                minute: mi,
                second: sec,
            };
            if 1 <= t.month && t.month <= 12 && 1 <= t.day && t.day <= days_in_month(
                t.year,
                t.month,
            ) && t.hour <= 23 && t.minute <= 59 && t.second <= 59 {
                assert(t.valid());
                Some(t)
            } else {
                None
            }
        },
        _ => None,
    }
}

/// What a backup file name parses to: a trailing `.gz` (from compression)
/// is ignored, then the stem's last dash-separated run must be the
/// fourteen-digit timestamp.
pub open spec fn spec_path_time(path: Seq<char>) -> Option<Timestamp> {
    let base = if path.len() >= 3 && path.skip(path.len() - 3) == seq!['.', 'g', 'z'] {
        path.take(path.len() - 3)
    } else {
        path
    };
    let stem = spec_stem(spec_file_name(base));
    let ts = match spec_rfind_char(stem, '-') {
        Some(i) => stem.skip(i + 1),
        None => stem,
    };
    spec_parse_ts(ts)
}

/// Read the rotation timestamp out of a backup file name (or path).
pub fn parse_path_to_time(path: &str) -> (r: Result<Timestamp, RotaterErr>)
    ensures
        match r {
            Ok(t) => spec_path_time(path@) == Some(t),
            Err(e) => spec_path_time(path@) is None && (e matches RotaterErr::PathInvalid {
                invalid_type,
                e,
            }),
        },
{
    let n = path.unicode_len();
    let base: &str = if n >= 3 && path.get_char(n - 3) == '.' && path.get_char(n - 2) == 'g'
        && path.get_char(n - 1) == 'z' {
        path.substring_char(0, n - 3)
    } else {
        path.substring_char(0, n)
    };
    proof {
        if path@.len() >= 3 && path@.skip(path@.len() - 3) =~= seq!['.', 'g', 'z'] {
            assert(path@.skip(path@.len() - 3)[0] == '.');
            assert(path@.skip(path@.len() - 3)[1] == 'g');
            assert(path@.skip(path@.len() - 3)[2] == 'z');
            assert(base@ =~= path@.take(path@.len() - 3));
        } else {
            assert(base@ =~= path@);
        }
    }
    let name = file_name_part(base);
    let bn = name.unicode_len();
    let dot = rfind_char(name, '.');
    proof {
        lemma_rfind_char(name@, '.');
    }
    let stem = match dot {
        Some(i) => if i > 0 {
            name.substring_char(0, i)
        } else {
            name.substring_char(0, bn)
        },
        None => name.substring_char(0, bn),
    };
    proof {
        assert(stem@ =~= spec_stem(name@));
    }
    let sn = stem.unicode_len();
    let dash = rfind_char(stem, '-');
    proof {
        lemma_rfind_char(stem@, '-');
    }
    let ts = match dash {
        Some(i) => stem.substring_char(i + 1, sn),
        None => stem.substring_char(0, sn),
    };
    proof {
        assert(ts@ =~= (match spec_rfind_char(stem@, '-') {
            Some(i) => stem@.skip(i + 1),
            None => stem@,
        }));
    }
    match parse_ts(ts) {
        Some(t) => Ok(t),
        None => Err(
            RotaterErr::PathInvalid {
                invalid_type: "timestamp".to_owned(),
                e: "file name carries no rotation timestamp".to_owned(),
            },
        ),
    }
}

/// An ASCII digit character carries its value and is none of the
/// characters the name grammar splits on.
proof fn lemma_digit_char_val(d: int)
    requires
        0 <= d <= 9,
    ensures
        spec_is_digit(spec_digit_char(d)),
        spec_digit_val(spec_digit_char(d)) == d,
        spec_digit_char(d) != '.',
        spec_digit_char(d) != '-',
        spec_digit_char(d) != '/',
        spec_digit_char(d) != 'g',
        spec_digit_char(d) != 'z',
{
    assert(spec_digit_char(d) as u32 == 48 + d);
}

/// Two digits rebuild their two-digit value.
proof fn lemma_two_digit_value(v: int)
    requires
        0 <= v <= 99,
    ensures
        spec_digit_val(spec_digit_char(v / 10)) * 10 + spec_digit_val(spec_digit_char(v % 10))
            == v,
{
    lemma_digit_char_val(v / 10);
    lemma_digit_char_val(v % 10);
    vstd::arithmetic::div_mod::lemma_fundamental_div_mod(v, 10);
}

/// Four digits rebuild their four-digit value.
proof fn lemma_four_digit_value(v: int)
    requires
        0 <= v <= 9999,
    ensures
        spec_digit_val(spec_digit_char(v / 1000 % 10)) * 1000 + spec_digit_val(
            spec_digit_char(v / 100 % 10),
        ) * 100 + spec_digit_val(spec_digit_char(v / 10 % 10)) * 10 + spec_digit_val(
            spec_digit_char(v % 10),
        ) == v,
{
    lemma_digit_char_val(v / 1000 % 10);
    lemma_digit_char_val(v / 100 % 10);
    lemma_digit_char_val(v / 10 % 10);
    lemma_digit_char_val(v % 10);
    assert(v / 1000 % 10 * 1000 + v / 100 % 10 * 100 + v / 10 % 10 * 10 + v % 10 == v)
        by (nonlinear_arith)
        requires
            0 <= v <= 9999,
    ;
}

/// The fourteen timestamp characters are digits (and none of the grammar's
/// separators) and parse back to the timestamp they were written from.
proof fn lemma_ts_chars_parse(t: Timestamp)
    requires
        t.valid(),
    ensures
        spec_ts_chars(t).len() == 14,
        forall|i: int|
            0 <= i < 14 ==> spec_is_digit(#[trigger] spec_ts_chars(t)[i]) && spec_ts_chars(t)[i]
                != '.' && spec_ts_chars(t)[i] != '-' && spec_ts_chars(t)[i] != '/',
        spec_parse_ts(spec_ts_chars(t)) == Some(t),
{
    let s = spec_ts_chars(t);
    assert forall|i: int| 0 <= i < 14 implies spec_is_digit(#[trigger] s[i]) && s[i] != '.' && s[i]
        != '-' && s[i] != '/' by {
        if i < 4 {
            lemma_digit_char_val(t.year as int / 1000 % 10);
            lemma_digit_char_val(t.year as int / 100 % 10);
            lemma_digit_char_val(t.year as int / 10 % 10);
            lemma_digit_char_val(t.year as int % 10);
        } else if i < 6 {
            lemma_digit_char_val(t.month as int / 10);
            lemma_digit_char_val(t.month as int % 10);
        } else if i < 8 {
            lemma_digit_char_val(t.day as int / 10);
            lemma_digit_char_val(t.day as int % 10);
        } else if i < 10 {
            lemma_digit_char_val(t.hour as int / 10);
            lemma_digit_char_val(t.hour as int % 10);
        } else if i < 12 {
            lemma_digit_char_val(t.minute as int / 10);
            lemma_digit_char_val(t.minute as int % 10);
        } else {
            lemma_digit_char_val(t.second as int / 10);
            lemma_digit_char_val(t.second as int % 10);
        }
    }
    lemma_four_digit_value(t.year as int);
    assert(t.month as int / 10 == t.month as int / 10 % 10 && t.month as int / 10 <= 9)
        by (nonlinear_arith)
        requires
            t.month <= 12,
    ;
    lemma_two_digit_value(t.month as int);
    lemma_two_digit_value(t.day as int);
    lemma_two_digit_value(t.hour as int);
    lemma_two_digit_value(t.minute as int);
    lemma_two_digit_value(t.second as int);
    assert(spec_parse_ts(s) == Some(t));
}

/// The character sequences of the parts of a file name stay free of the
/// path separator.
proof fn lemma_file_name_no_separator(s: Seq<char>)
    ensures
        forall|j: int|
            0 <= j < spec_file_name(s).len() ==> #[trigger] spec_file_name(s)[j] != '/',
{
    lemma_rfind_char(s, '/');
}

/// A rotated backup name parses back to exactly the rotation time it was
/// written with, so retention recognizes every backup rotation leaves
/// beside the log. The one exclusion is a log file whose own extension is
/// `gz`: its rotated names end in `.gz` and are read as compressed
/// backups.
pub proof fn lemma_rotated_name_parses(path: Seq<char>, t: Timestamp)
    requires
        t.valid(),
        spec_ext(spec_file_name(path)) != seq!['g', 'z'],
    ensures
        spec_path_time(spec_rotated_name(path, t)) == Some(t),
{
    let name = spec_file_name(path);
    let st = spec_stem(name);
    let ex = spec_ext(name);
    let tc = spec_ts_chars(t);
    let r = spec_rotated_name(path, t);
    let a = st + seq!['-'] + tc;
    assert(r =~= a + seq!['.'] + ex);
    lemma_ts_chars_parse(t);
    lemma_file_name_no_separator(path);
    lemma_rfind_char(name, '.');
    assert(forall|j: int| 0 <= j < st.len() ==> #[trigger] st[j] != '/');
    assert(forall|j: int| 0 <= j < ex.len() ==> #[trigger] ex[j] != '/' && ex[j] != '.');

    // The trailing `.gz` strip does not fire: the last three characters
    // are never '.', 'g', 'z' unless the extension itself is exactly "gz".
    assert(r.len() >= 16);
    let last3 = r.skip(r.len() - 3);
    assert(last3.len() == 3);
    if ex.len() == 0 {
        assert(last3[2] == '.');
        assert(last3 != seq!['.', 'g', 'z']) by {
            assert(seq!['.', 'g', 'z'][2] == 'z');
        }
    } else if ex.len() == 1 {
        assert(last3[1] == '.');
        assert(last3 != seq!['.', 'g', 'z']) by {
            assert(seq!['.', 'g', 'z'][1] == 'g');
        }
    } else if ex.len() == 2 {
        assert(last3 =~= seq!['.'] + ex);
        assert(last3 != seq!['.', 'g', 'z']) by {
            if last3 == seq!['.', 'g', 'z'] {
                assert(ex[0] == 'g' && ex[1] == 'z');
                assert(ex =~= seq!['g', 'z']);
            }
        }
    } else {
        assert(last3[0] == ex[ex.len() - 3]);
        assert(last3 != seq!['.', 'g', 'z']) by {
            assert(seq!['.', 'g', 'z'][0] == '.');
        }
    }

    // The rotated name has no separator, so it is its own file-name part.
    assert forall|j: int| 0 <= j < r.len() implies #[trigger] r[j] != '/' by {}
    lemma_rfind_char(r, '/');
    assert(spec_rfind_char(r, '/') is None) by {
        if spec_rfind_char(r, '/') is Some {
            let i = spec_rfind_char(r, '/')->Some_0;
            assert(r[i] == '/');
        }
    }
    assert(spec_file_name(r) == r);

    // The last dot is the one before the extension, so the stem of the
    // rotated name is everything before it.
    lemma_rfind_concat_found(a, seq!['.'], '.');
    assert(spec_rfind_char(seq!['.'], '.') == Some(0int));
    lemma_rfind_char(ex, '.');
    assert(spec_rfind_char(ex, '.') is None) by {
        if spec_rfind_char(ex, '.') is Some {
            let i = spec_rfind_char(ex, '.')->Some_0;
            assert(ex[i] == '.');
        }
    }
    lemma_rfind_concat_none(a + seq!['.'], ex, '.');
    assert(spec_rfind_char(r, '.') == Some(a.len() as int));
    assert(spec_stem(r) =~= a);

    // The last dash is the one before the timestamp.
    lemma_rfind_char(tc, '-');
    assert(spec_rfind_char(tc, '-') is None) by {
        if spec_rfind_char(tc, '-') is Some {
            let i = spec_rfind_char(tc, '-')->Some_0;
            assert(tc[i] == '-');
        }
    }
    lemma_rfind_concat_none(seq!['-'], tc, '-');
    assert(spec_rfind_char(seq!['-'], '-') == Some(0int));
    lemma_rfind_concat_found(st, seq!['-'] + tc, '-');
    assert(a =~= st + (seq!['-'] + tc));
    assert(spec_rfind_char(a, '-') == Some(st.len() as int));
    assert(a.skip(st.len() as int + 1) =~= tc);
    assert(spec_path_time(r) == spec_parse_ts(tc));
}

/// The order retention selects by: plain numeric order on packed
/// timestamp keys.
pub open spec fn spec_u64_leq() -> spec_fn(u64, u64) -> bool {
    |x: u64, y: u64| x <= y
}

/// Numeric order on `u64` is a total order.
pub proof fn lemma_u64_leq_total()
    ensures
        total_ordering(spec_u64_leq()),
{
}

/// The sequence rearranged into ascending order.
pub open spec fn spec_sorted(s: Seq<u64>) -> Seq<u64> {
    s.sort_by(spec_u64_leq())
}

/// The element of rank `k` (1-based) in ascending order: the `k`-th
/// smallest, duplicates counted.
pub open spec fn spec_kth_smallest(s: Seq<u64>, k: int) -> u64
    recommends
        1 <= k <= s.len(),
{
    spec_sorted(s)[k - 1]
}

/// A rank clamped into a sequence of length `n`.
pub open spec fn spec_clamp(k: int, n: int) -> int {
    if k > n {
        n
    } else {
        k
    }
}

/// The sorted rearrangement keeps the elements and is sorted.
pub proof fn lemma_sorted_props(s: Seq<u64>)
    ensures
        spec_sorted(s).to_multiset() == s.to_multiset(),
        sorted_by(spec_sorted(s), spec_u64_leq()),
        spec_sorted(s).len() == s.len(),
{
    broadcast use group_to_multiset_ensures;

    lemma_u64_leq_total();
    s.lemma_sort_by_ensures(spec_u64_leq());
    vstd::seq_lib::to_multiset_len::<u64>(s);
    vstd::seq_lib::to_multiset_len::<u64>(spec_sorted(s));
}

/// Sequences with the same elements sort to the same sequence, so every
/// rank statement transfers across reorderings.
pub proof fn lemma_sorted_of_multiset(s: Seq<u64>, t: Seq<u64>)
    requires
        s.to_multiset() == t.to_multiset(),
    ensures
        spec_sorted(s) == spec_sorted(t),
{
    lemma_u64_leq_total();
    lemma_sorted_props(s);
    lemma_sorted_props(t);
    lemma_sorted_unique(spec_sorted(s), spec_sorted(t), spec_u64_leq());
}

/// Sorting a partitioned sequence sorts the parts: with everything in `a`
/// at most `p` and everything in `b` above `p`, the pivot lands exactly
/// between the sorted parts.
proof fn lemma_sorted_concat_pivot(a: Seq<u64>, p: u64, b: Seq<u64>)
    requires
        forall|i: int| 0 <= i < a.len() ==> a[i] <= p,
        forall|i: int| 0 <= i < b.len() ==> b[i] > p,
    ensures
        spec_sorted(a + seq![p] + b) == spec_sorted(a) + seq![p] + spec_sorted(b),
{
    broadcast use group_to_multiset_ensures;

    lemma_u64_leq_total();
    lemma_sorted_props(a);
    lemma_sorted_props(b);
    lemma_sorted_props(a + seq![p] + b);
    let sa = spec_sorted(a);
    let sb = spec_sorted(b);
    let rhs = sa + seq![p] + sb;
    assert(forall|i: int| 0 <= i < sa.len() ==> sa[i] <= p) by {
        assert forall|i: int| 0 <= i < sa.len() implies sa[i] <= p by {
            assert(sa.contains(sa[i]));
            vstd::seq_lib::to_multiset_contains::<u64>(sa, sa[i]);
            vstd::seq_lib::to_multiset_contains::<u64>(a, sa[i]);
            assert(a.contains(sa[i]));
        }
    }
    assert(forall|i: int| 0 <= i < sb.len() ==> sb[i] > p) by {
        assert forall|i: int| 0 <= i < sb.len() implies sb[i] > p by {
            assert(sb.contains(sb[i]));
            vstd::seq_lib::to_multiset_contains::<u64>(sb, sb[i]);
            vstd::seq_lib::to_multiset_contains::<u64>(b, sb[i]);
            assert(b.contains(sb[i]));
        }
    }
    assert(sorted_by(rhs, spec_u64_leq())) by {
        assert forall|i: int, j: int| 0 <= i < j < rhs.len() implies spec_u64_leq()(
            rhs[i],
            rhs[j],
        ) by {
            if j < sa.len() {
            } else if i < sa.len() && j == sa.len() {
                assert(rhs[i] == sa[i]);
            } else if i < sa.len() {
                assert(rhs[i] == sa[i] && rhs[j] == sb[j - sa.len() - 1]);
            } else if i == sa.len() && j > sa.len() {
                assert(rhs[j] == sb[j - sa.len() - 1]);
            } else {
                assert(rhs[i] == sb[i - sa.len() - 1] && rhs[j] == sb[j - sa.len() - 1]);
            }
        }
    }
    lemma_multiset_commutative(a + seq![p], b);
    lemma_multiset_commutative(a, seq![p]);
    lemma_multiset_commutative(sa + seq![p], sb);
    lemma_multiset_commutative(sa, seq![p]);
    assert((a + seq![p] + b).to_multiset() == rhs.to_multiset());
    lemma_sorted_unique(spec_sorted(a + seq![p] + b), rhs, spec_u64_leq());
}

/// Swapping two positions keeps the elements.
proof fn lemma_swap_multiset(s: Seq<u64>, i: int, j: int)
    requires
        0 <= i < s.len(),
        0 <= j < s.len(),
    ensures
        s.update(i, s[j]).update(j, s[i]).to_multiset() == s.to_multiset(),
{
    broadcast use group_to_multiset_ensures;
    broadcast use vstd::multiset::group_multiset_axioms;

    if i == j {
        assert(s.update(i, s[j]).update(j, s[i]) =~= s);
    } else {
        let s1 = s.update(i, s[j]);
        let s2 = s1.update(j, s[i]);
        assert(s1[j] == s[j]);
        assert(s1.to_multiset() == s.to_multiset().insert(s[j]).remove(s[i]));
        assert(s2.to_multiset() == s1.to_multiset().insert(s[i]).remove(s1[j]));
        assert(s.to_multiset().contains(s[i])) by {
            assert(s.contains(s[i]));
        }
        assert(s2.to_multiset() =~= s.to_multiset());
    }
}

/// Swap two elements in place.
fn swap_elems(v: &mut Vec<u64>, i: usize, j: usize)
    requires
        i < old(v)@.len(),
        j < old(v)@.len(),
    ensures
        final(v)@ == old(v)@.update(i as int, old(v)@[j as int]).update(
            j as int,
            old(v)@[i as int],
        ),
{
    let a = v[i];
    let b = v[j];
    v.set(i, b);
    v.set(j, a);
}

/// Partition `v[left..=right]` around a pivot: afterwards everything left
/// of the returned position is at most the pivot there and everything
/// right of it is strictly greater; the range keeps its elements and the
/// rest of the vector is untouched.
fn partition(v: &mut Vec<u64>, left: usize, right: usize) -> (p: usize)
    requires
        left <= right < old(v)@.len(),
    ensures
        left <= p <= right,
        final(v)@.len() == old(v)@.len(),
        forall|m: int| 0 <= m < old(v)@.len() && !(left <= m <= right) ==> final(v)@[m] == old(
            v,
        )@[m],
        final(v)@.subrange(left as int, right + 1).to_multiset() == old(v)@.subrange(
            left as int,
            right + 1,
        ).to_multiset(),
        forall|m: int| left <= m < p ==> final(v)@[m] <= final(v)@[p as int],
        forall|m: int| p < m <= right ==> final(v)@[m] > final(v)@[p as int],
{
    let ghost orig = v@;
    let pivot = v[right];
    let mut store = left;
    let mut i = left;
    while i < right
        invariant
            left <= store <= i <= right < v@.len(),
            v@.len() == orig.len(),
            pivot == v@[right as int],
            forall|m: int| 0 <= m < orig.len() && !(left <= m <= right) ==> v@[m] == orig[m],
            v@.subrange(left as int, right + 1).to_multiset() == orig.subrange(
                left as int,
                right + 1,
            ).to_multiset(),
            forall|m: int| left <= m < store ==> v@[m] <= pivot,
            forall|m: int| store <= m < i ==> v@[m] > pivot,
        decreases right - i,
    {
        if v[i] <= pivot {
            let ghost pre = v@;
            swap_elems(v, i, store);
            proof {
                let ls = left as int;
                let rs = right + 1;
                assert(v@.subrange(ls, rs) =~= pre.subrange(ls, rs).update(
                    i - ls,
                    pre.subrange(ls, rs)[store - ls],
                ).update(store - ls, pre.subrange(ls, rs)[i - ls]));
                lemma_swap_multiset(pre.subrange(ls, rs), i - ls, store - ls);
            }
            store = store + 1;
        }
        i = i + 1;
    }
    let ghost pre = v@;
    swap_elems(v, store, right);
    proof {
        let ls = left as int;
        let rs = right + 1;
        assert(v@.subrange(ls, rs) =~= pre.subrange(ls, rs).update(
            store - ls,
            pre.subrange(ls, rs)[right - ls],
        ).update(right - ls, pre.subrange(ls, rs)[store - ls]));
        lemma_swap_multiset(pre.subrange(ls, rs), store - ls, right - ls);
    }
    store
}

/// Quickselect: rearrange `v[left..=right]` so the caller learns the
/// element of rank `k` in it (clamped to the range's length), without
/// sorting the whole range. The range keeps its elements, the rest of the
/// vector is untouched, and the result is exactly the `k`-th smallest of
/// what the range held — duplicates counted, rank 1 the minimum.
pub fn quick_select(v: &mut Vec<u64>, left: usize, right: usize, k: usize) -> (r: u64)
    requires
        left <= right < old(v)@.len(),
        1 <= k,
    ensures
        final(v)@.len() == old(v)@.len(),
        forall|m: int| 0 <= m < old(v)@.len() && !(left <= m <= right) ==> final(v)@[m] == old(
            v,
        )@[m],
        final(v)@.subrange(left as int, right + 1).to_multiset() == old(v)@.subrange(
            left as int,
            right + 1,
        ).to_multiset(),
        r == spec_kth_smallest(
            old(v)@.subrange(left as int, right + 1),
            spec_clamp(k as int, right - left + 1),
        ),
    decreases right - left,
{
    if left == right {
        let x = v[left];
        proof {
            let sub = v@.subrange(left as int, right + 1);
            assert(sub =~= seq![x]);
            lemma_sorted_props(sub);
            lemma_u64_leq_total();
            lemma_sorted_unique(spec_sorted(sub), sub, spec_u64_leq());
        }
        return x;
    }
    let vl = v.len();
    assert(right < vl);
    let p = partition(v, left, right);
    let ghost after_part = v@;
    let n = right - left + 1;
    let kk = if k > n {
        n
    } else {
        k
    };
    let rank = p - left + 1;
    let pivot = v[p];
    let ghost a = after_part.subrange(left as int, p as int);
    let ghost b = after_part.subrange(p + 1, right + 1);
    proof {
        let sub = after_part.subrange(left as int, right + 1);
        assert(sub =~= a + seq![pivot] + b);
        lemma_sorted_concat_pivot(a, pivot, b);
        lemma_sorted_of_multiset(old(v)@.subrange(left as int, right + 1), sub);
        lemma_sorted_props(a);
        lemma_sorted_props(b);
    }
    if kk == rank {
        proof {
            let sub = after_part.subrange(left as int, right + 1);
            assert(spec_sorted(sub)[kk - 1] == pivot);
        }
        pivot
    } else if kk < rank {
        let r = quick_select(v, left, p - 1, kk);
        proof {
            let sub = after_part.subrange(left as int, right + 1);
            assert(after_part.subrange(left as int, p - 1 + 1) =~= a);
            assert(spec_sorted(sub)[kk - 1] == spec_sorted(a)[kk - 1]);
            assert(r == spec_kth_smallest(a, kk as int));
            assert(v@.subrange(left as int, p as int).to_multiset() == a.to_multiset());
            assert(v@.subrange(p as int, right + 1) =~= after_part.subrange(p as int, right + 1));
            assert(v@.subrange(left as int, right + 1) =~= v@.subrange(left as int, p as int)
                + v@.subrange(p as int, right + 1));
            assert(after_part.subrange(left as int, right + 1) =~= after_part.subrange(
                left as int,
                p as int,
            ) + after_part.subrange(p as int, right + 1));
            lemma_multiset_commutative(
                v@.subrange(left as int, p as int),
                v@.subrange(p as int, right + 1),
            );
            lemma_multiset_commutative(
                after_part.subrange(left as int, p as int),
                after_part.subrange(p as int, right + 1),
            );
        }
        r
    } else {
        let r = quick_select(v, p + 1, right, kk - rank);
        proof {
            let sub = after_part.subrange(left as int, right + 1);
            assert(after_part.subrange(p + 1, right + 1) =~= b);
            assert(spec_sorted(sub)[kk - 1] == spec_sorted(b)[kk - rank - 1]);
            assert(r == spec_kth_smallest(b, kk - rank));
            assert(v@.subrange(p + 1, right + 1).to_multiset() == b.to_multiset());
            assert(v@.subrange(left as int, p + 1) =~= after_part.subrange(left as int, p + 1));
            assert(v@.subrange(left as int, right + 1) =~= v@.subrange(left as int, p + 1)
                + v@.subrange(p + 1, right + 1));
            assert(after_part.subrange(left as int, right + 1) =~= after_part.subrange(
                left as int,
                p + 1,
            ) + after_part.subrange(p + 1, right + 1));
            lemma_multiset_commutative(
                v@.subrange(left as int, p + 1),
                v@.subrange(p + 1, right + 1),
            );
            lemma_multiset_commutative(
                after_part.subrange(left as int, p + 1),
                after_part.subrange(p + 1, right + 1),
            );
        }
        r
    }
}

/// The `k`-th smallest element of the whole vector (rank clamped to its
/// length), found by quickselect; the vector keeps its elements, possibly
/// reordered.
pub fn top_k(v: &mut Vec<u64>, k: usize) -> (r: u64)
    requires
        old(v)@.len() >= 1,
        1 <= k,
    ensures
        final(v)@.len() == old(v)@.len(),
        final(v)@.to_multiset() == old(v)@.to_multiset(),
        r == spec_kth_smallest(old(v)@, spec_clamp(k as int, old(v)@.len() as int)),
{
    let right = v.len() - 1;
    let r = quick_select(v, 0, right, k);
    proof {
        assert(old(v)@.subrange(0, right + 1) =~= old(v)@);
        assert(v@.subrange(0, right + 1) =~= v@);
    }
    r
}

/// `dashmap::DashSet`, the concurrent set the rotation guard is built on.
#[verifier::external_type_specification]
#[verifier::external_body]
#[verifier::reject_recursive_types(K)]
#[verifier::reject_recursive_types(S)]
pub struct ExDashSet<K, S>(dashmap::DashSet<K, S>);

/// The paths a guard set currently holds.
pub uninterp spec fn guard_set_paths(s: dashmap::DashSet<String>) -> Set<Seq<char>>;

/// Relies on `DashSet::new`: a fresh set is empty.
#[verifier::external_body]
fn dashset_new() -> (r: dashmap::DashSet<String>)
    ensures
        guard_set_paths(r) == Set::<Seq<char>>::empty(),
{
    dashmap::DashSet::new()
}

/// Relies on `DashSet::insert`: adds the key and returns true exactly when
/// the key was not already in the set.
#[verifier::external_body]
fn dashset_insert(s: &mut dashmap::DashSet<String>, path: &String) -> (r: bool)
    ensures
        r == !guard_set_paths(*old(s)).contains(path@),
        guard_set_paths(*final(s)) == guard_set_paths(*old(s)).insert(path@),
{
    s.insert(path.clone())
}

/// Relies on `DashSet::remove`: removes the key if it is present.
#[verifier::external_body]
fn dashset_remove(s: &mut dashmap::DashSet<String>, path: &String)
    ensures
        guard_set_paths(*final(s)) == guard_set_paths(*old(s)).remove(path@),
{
    s.remove(path);
}

/// Relies on `DashSet::contains`.
#[verifier::external_body]
fn dashset_contains(s: &dashmap::DashSet<String>, path: &String) -> (r: bool)
    ensures
        r == guard_set_paths(*s).contains(path@),
{
    s.contains(path)
}

/// Relies on `DashSet::len`: the number of elements held.
#[verifier::external_body]
fn dashset_len(s: &dashmap::DashSet<String>) -> (r: usize)
    ensures
        guard_set_paths(*s).finite() ==> r == guard_set_paths(*s).len(),
{
    s.len()
}

/// The set of log paths whose rotation is currently in flight. Membership
/// is the mutual-exclusion token: a path is held for exactly the duration
/// of its rotation task.
pub struct RotationGuard {
    set: dashmap::DashSet<String>,
}

impl RotationGuard {
    /// The paths currently held.
    pub closed spec fn paths(&self) -> Set<Seq<char>> {
        guard_set_paths(self.set)
    }

    /// An empty guard.
    pub fn new() -> (r: RotationGuard)
        ensures
            r.paths() == Set::<Seq<char>>::empty(),
    {
        RotationGuard { set: dashset_new() }
    }

    /// Take the path's token: true exactly when no rotation held it.
    pub fn try_acquire(&mut self, path: &String) -> (r: bool)
        ensures
            r == !old(self).paths().contains(path@),
            final(self).paths() == old(self).paths().insert(path@),
    {
        dashset_insert(&mut self.set, path)
    }

    /// Give the path's token back.
    pub fn release(&mut self, path: &String)
        ensures
            final(self).paths() == old(self).paths().remove(path@),
    {
        dashset_remove(&mut self.set, path);
    }

    /// Whether the path's token is held.
    pub fn contains(&self, path: &String) -> (r: bool)
        ensures
            r == self.paths().contains(path@),
    {
        dashset_contains(&self.set, path)
    }

    /// How many paths are held.
    pub fn len(&self) -> (r: usize)
        ensures
            self.paths().finite() ==> r == self.paths().len(),
    {
        dashset_len(&self.set)
    }
}

/// The rotation engine's decision state: which paths are rotating now.
/// The surrounding runtime owns the request queue and the rotation tasks;
/// it reports each received request through `on_request` (and rotates only
/// when that says so) and each completed task through `on_finished`.
pub struct Rotater {
    guard: RotationGuard,
}

impl Rotater {
    /// The paths whose rotation is in flight.
    pub closed spec fn in_flight(&self) -> Set<Seq<char>> {
        self.guard.paths()
    }

    /// A fresh engine with nothing in flight. The channel length is the
    /// capacity the surrounding runtime gives its request queue.
    pub fn new(channel_length: usize) -> (r: Result<Rotater, RotaterErr>)
        ensures
            r matches Ok(rt) && rt.in_flight() == Set::<Seq<char>>::empty(),
    {
        let _ = channel_length;
        Ok(Rotater { guard: RotationGuard::new() })
    }

    /// Decide one received rotation request: if the path is already
    /// rotating the request is coalesced away (`None`) and nothing
    /// changes; otherwise the path is acquired and the caller must run the
    /// rotation and report back through `on_finished`.
    pub fn on_request(&mut self, conf: Log) -> (r: Option<Log>)
        ensures
            old(self).in_flight().contains(conf.path@) ==> r is None && final(self).in_flight()
                == old(self).in_flight(),
            !old(self).in_flight().contains(conf.path@) ==> r == Some(conf) && final(
                self).in_flight() == old(self).in_flight().insert(conf.path@),
    {
        if self.guard.try_acquire(&conf.path) {
            Some(conf)
        } else {
            proof {
                assert(old(self).in_flight().insert(conf.path@) =~= old(self).in_flight());
            }
            None
        }
    }

    /// Report a rotation task's completion, successful or not: the path is
    /// released unconditionally.
    pub fn on_finished(&mut self, path: &String)
        ensures
            final(self).in_flight() == old(self).in_flight().remove(path@),
    {
        self.guard.release(path);
    }

    /// Whether a rotation for the path is in flight right now.
    pub fn rotation_active(&self, path: &String) -> (r: bool)
        ensures
            r == self.in_flight().contains(path@),
    {
        self.guard.contains(path)
    }

    /// How many rotations are in flight right now.
    pub fn active_count(&self) -> (r: usize)
        ensures
            self.in_flight().finite() ==> r == self.in_flight().len(),
    {
        self.guard.len()
    }
}

/// One observable step of the engine: a request arriving for a path, or a
/// rotation task for a path completing.
pub enum RotateEvent {
    Request(Seq<char>),
    Finish(Seq<char>),
}

/// The in-flight set after one step: `on_request` inserts (a no-op when
/// the path is already held — the coalesced case), `on_finished` removes.
pub open spec fn spec_rotate_next(g: Set<Seq<char>>, e: RotateEvent) -> Set<Seq<char>> {
    match e {
        RotateEvent::Request(p) => g.insert(p),
        RotateEvent::Finish(p) => g.remove(p),
    }
}

/// The in-flight set after a whole run of steps.
pub open spec fn spec_rotate_run(g: Set<Seq<char>>, es: Seq<RotateEvent>) -> Set<Seq<char>>
    decreases es.len(),
{
    if es.len() == 0 {
        g
    } else {
        spec_rotate_run(spec_rotate_next(g, es[0]), es.skip(1))
    }
}

/// How many of the requests for path `p` in the run actually start a
/// rotation (the rest are coalesced away).
pub open spec fn spec_rotation_starts(g: Set<Seq<char>>, es: Seq<RotateEvent>, p: Seq<char>) -> int
    decreases es.len(),
{
    if es.len() == 0 {
        0int
    } else {
        (if es[0] == RotateEvent::Request(p) && !g.contains(p) {
            1int
        } else {
            0int
        }) + spec_rotation_starts(spec_rotate_next(g, es[0]), es.skip(1), p)
    }
}

/// How many rotation tasks for path `p` complete during the run.
pub open spec fn spec_rotation_finishes(
    g: Set<Seq<char>>,
    es: Seq<RotateEvent>,
    p: Seq<char>,
) -> int
    decreases es.len(),
{
    if es.len() == 0 {
        0int
    } else {
        (if es[0] == RotateEvent::Finish(p) && g.contains(p) {
            1int
        } else {
            0int
        }) + spec_rotation_finishes(spec_rotate_next(g, es[0]), es.skip(1), p)
    }
}

/// Rotation coalescing: over any run of requests and completions, the
/// rotations started for a path exceed the ones finished exactly by its
/// guard membership at the end. So starting from an empty guard, at most
/// one rotation per path is in flight at any instant — however many
/// concurrent requests for it arrive, a new one starts only once the
/// previous one has finished.
pub proof fn lemma_rotation_coalescing(g: Set<Seq<char>>, es: Seq<RotateEvent>, p: Seq<char>)
    ensures
        spec_rotation_starts(g, es, p) + (if g.contains(p) {
            1int
        } else {
            0int
        }) == spec_rotation_finishes(g, es, p) + (if spec_rotate_run(g, es).contains(p) {
            1int
        } else {
            0int
        }),
    decreases es.len(),
{
    if es.len() > 0 {
        lemma_rotation_coalescing(spec_rotate_next(g, es[0]), es.skip(1), p);
    }
}

/// The character sequences of a list of names.
pub open spec fn views_of(names: Seq<String>) -> Seq<Seq<char>> {
    names.map_values(|s: String| s@)
}

/// A backup timestamp carried by a name is a real calendar moment.
pub proof fn lemma_path_time_valid(n: Seq<char>)
    ensures
        match spec_path_time(n) {
            Some(t) => t.valid(),
            None => true,
        },
{
}

/// The packed timestamp key a backup name carries (zero for names that
/// carry none).
pub open spec fn spec_name_key(n: Seq<char>) -> u64 {
    match spec_path_time(n) {
        Some(t) => t.spec_key() as u64,
        None => 0u64,
    }
}

/// A surviving backup: not the live log file, carrying a timestamp no
/// older than the deadline.
pub open spec fn spec_survivor(n: Seq<char>, live: Seq<char>, deadline: int) -> bool {
    n != live && match spec_path_time(n) {
        Some(t) => t.spec_key() >= deadline,
        None => false,
    }
}

/// The timestamp keys of the surviving backups, in listing order.
pub open spec fn spec_surv_keys(names: Seq<Seq<char>>, live: Seq<char>, deadline: int) -> Seq<
    u64,
> {
    names.filter(|n: Seq<char>| spec_survivor(n, live, deadline)).map_values(
        |n: Seq<char>| spec_name_key(n),
    )
}

/// Whether retention deletes a backup name: expired ones (older than the
/// deadline) always go; and when more backups than `max_backups` survive
/// the age check, the survivors strictly older than the `max_backups`-th
/// newest survivor go too. The live log file is never touched, nor is any
/// name that carries no timestamp.
pub open spec fn spec_delete_name(
    names: Seq<Seq<char>>,
    live: Seq<char>,
    deadline: int,
    max_backups: int,
    n: Seq<char>,
) -> bool {
    let sk = spec_surv_keys(names, live, deadline);
    n != live && match spec_path_time(n) {
        Some(t) => t.spec_key() < deadline || (sk.len() > max_backups && t.spec_key() >= deadline
            && (t.spec_key() as u64) < spec_kth_smallest(
            sk,
            spec_clamp(sk.len() - max_backups + 1, sk.len() as int),
        )),
        None => false,
    }
}

/// The names retention deletes, in listing order.
pub open spec fn spec_retention_deletions(
    names: Seq<Seq<char>>,
    live: Seq<char>,
    deadline: int,
    max_backups: int,
) -> Seq<Seq<char>> {
    names.filter(|n: Seq<char>| spec_delete_name(names, live, deadline, max_backups, n))
}

/// Decide which backups retention removes, given the file names found
/// beside the log: every backup older than the deadline, and — among the
/// survivors, when they outnumber `max_backups` — every one strictly older
/// than the `max_backups`-th newest, found by quickselect rather than a
/// sort. The live log file (`live_name`) is skipped; any other name that
/// carries no rotation timestamp fails the whole pass.
pub fn clean_extra_backups(
    names: &Vec<String>,
    live_name: &String,
    deadline: u64,
    max_backups: usize,
) -> (r: Result<Vec<String>, RotaterErr>)
    requires
        names@.len() < usize::MAX,
    ensures
        match r {
            Ok(del) => views_of(del@) == spec_retention_deletions(
                views_of(names@),
                live_name@,
                deadline as int,
                max_backups as int,
            ),
            Err(e) => (exists|i: int|
                0 <= i < names@.len() && names@[i]@ != live_name@ && spec_path_time(names@[i]@)
                    is None) && (e matches RotaterErr::PathInvalid { invalid_type, e }),
        },
{
    let ghost ns = views_of(names@);
    let mut keys: Vec<u64> = Vec::new();
    let mut i: usize = 0;
    while i < names.len()
        invariant
            i <= names@.len(),
            ns == views_of(names@),
            keys@ == spec_surv_keys(ns.take(i as int), live_name@, deadline as int),
            forall|j: int|
                0 <= j < i ==> ns[j] == live_name@ || #[trigger] spec_path_time(ns[j]) is Some,
        decreases names@.len() - i,
    {
        let name = &names[i];
        proof {
            assert(ns.take(i + 1) =~= ns.take(i as int).push(ns[i as int]));
            ns.take(i as int).lemma_filter_push(
                ns[i as int],
                |n: Seq<char>| spec_survivor(n, live_name@, deadline as int),
            );
        }
        if !name.eq(live_name) {
            match parse_path_to_time(name.as_str()) {
                Ok(t) => {
                    proof {
                        lemma_path_time_valid(ns[i as int]);
                    }
                    if t.key() >= deadline {
                        keys.push(t.key());
                    }
                },
                Err(e) => {
                    return Err(e);
                },
            }
        }
        proof {
            assert(keys@ =~= spec_surv_keys(ns.take(i + 1), live_name@, deadline as int));
        }
        i = i + 1;
    }
    proof {
        assert(ns.take(names@.len() as int) =~= ns);
    }
    let ghost sk = spec_surv_keys(ns, live_name@, deadline as int);
    let n_surv = keys.len();
    proof {
        ns.lemma_filter_len(|n: Seq<char>| spec_survivor(n, live_name@, deadline as int));
    }
    let cutoff_opt: Option<u64> = if n_surv > max_backups {
        let rank = n_surv - max_backups + 1;
        let c = top_k(&mut keys, rank);
        Some(c)
    } else {
        None
    };
    let mut del: Vec<String> = Vec::new();
    let mut i2: usize = 0;
    while i2 < names.len()
        invariant
            i2 <= names@.len(),
            ns == views_of(names@),
            sk == spec_surv_keys(ns, live_name@, deadline as int),
            n_surv == sk.len(),
            cutoff_opt matches Some(c) ==> n_surv > max_backups && c == spec_kth_smallest(
                sk,
                spec_clamp(sk.len() - max_backups + 1, sk.len() as int),
            ),
            cutoff_opt is None ==> n_surv <= max_backups,
            forall|j: int|
                0 <= j < names@.len() ==> ns[j] == live_name@ || #[trigger] spec_path_time(ns[j])
                    is Some,
            views_of(del@) == spec_retention_deletions(
                ns,
                live_name@,
                deadline as int,
                max_backups as int,
            ).take(0) + ns.take(i2 as int).filter(
                |n: Seq<char>|
                    spec_delete_name(ns, live_name@, deadline as int, max_backups as int, n),
            ),
        decreases names@.len() - i2,
    {
        let name = &names[i2];
        proof {
            assert(ns.take(i2 + 1) =~= ns.take(i2 as int).push(ns[i2 as int]));
            ns.take(i2 as int).lemma_filter_push(
                ns[i2 as int],
                |n: Seq<char>|
                    spec_delete_name(ns, live_name@, deadline as int, max_backups as int, n),
            );
        }
        if !name.eq(live_name) {
            match parse_path_to_time(name.as_str()) {
                Ok(t) => {
                    proof {
                        lemma_path_time_valid(ns[i2 as int]);
                    }
                    let key = t.key();
                    let doomed = if key < deadline {
                        true
                    } else {
                        match cutoff_opt {
                            Some(c) => key < c,
                            None => false,
                        }
                    };
                    if doomed {
                        del.push(name.clone());
                        proof {
                            assert(views_of(del@) =~= views_of(del@.drop_last()).push(
                                ns[i2 as int],
                            ));
                        }
                    }
                },
                Err(e) => {
                    return Err(e);
                },
            }
        }
        proof {
            assert(views_of(del@) =~= spec_retention_deletions(
                ns,
                live_name@,
                deadline as int,
                max_backups as int,
            ).take(0) + ns.take(i2 + 1).filter(
                |n: Seq<char>|
                    spec_delete_name(ns, live_name@, deadline as int, max_backups as int, n),
            ));
        }
        i2 = i2 + 1;
    }
    proof {
        assert(ns.take(names@.len() as int) =~= ns);
        assert(views_of(del@) =~= spec_retention_deletions(
            ns,
            live_name@,
            deadline as int,
            max_backups as int,
        ));
    }
    Ok(del)
}

} // verus!
