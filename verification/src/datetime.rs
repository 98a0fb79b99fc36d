//! Calendar dates and fixed-offset timestamps, with exact-format parsing.
//!
//! A [`Timestamp`] holds a civil date and time of day together with a
//! fixed UTC offset in minutes.  Two timestamps are ordered by the instant
//! they denote: the civil time converted to seconds since the calendar
//! origin, minus the offset.

use vstd::prelude::*;

verus! {

use vstd::string::*;

/// A point in time with a fixed timezone offset.
#[derive(Clone, Copy, Debug, PartialEq, Eq, Structural)]
pub struct Timestamp {
    pub year: u32,
    pub month: u32,
    pub day: u32,
    pub hour: u32,
    pub minute: u32,
    pub second: u32,
    /// Offset from UTC in minutes; positive offsets lie east of UTC.
    pub offset_minutes: i32,
}

/// A leap year in the proleptic Gregorian calendar.
pub open spec fn spec_is_leap_year(y: int) -> bool {
    (y % 4 == 0 && y % 100 != 0) || y % 400 == 0
}

pub fn is_leap_year(y: u32) -> (r: bool)
    ensures
        r == spec_is_leap_year(y as int),
{
    (y % 4 == 0 && y % 100 != 0) || y % 400 == 0
}

pub open spec fn spec_days_in_month(y: int, m: int) -> int {
    if m == 1 || m == 3 || m == 5 || m == 7 || m == 8 || m == 10 || m == 12 {
        31
    } else if m == 4 || m == 6 || m == 9 || m == 11 {
        30
    } else if spec_is_leap_year(y) {
        29
    } else {
        28
    }
}

pub fn days_in_month(y: u32, m: u32) -> (r: u32)
    ensures
        r == spec_days_in_month(y as int, m as int),
{
    if m == 1 || m == 3 || m == 5 || m == 7 || m == 8 || m == 10 || m == 12 {
        31
    } else if m == 4 || m == 6 || m == 9 || m == 11 {
        30
    } else if is_leap_year(y) {
        29
    } else {
        28
    }
}

/// Leap years in `[0, y)`, counting year 0 as a leap year.
pub open spec fn spec_leaps_before(y: int) -> int {
    (y + 3) / 4 - (y + 99) / 100 + (y + 399) / 400
}

/// Days in the months of year `y` that precede month `m`.
pub open spec fn spec_days_before_month(y: int, m: int) -> int {
    let plain: int = if m == 1 {
        0
    } else if m == 2 {
        31
    } else if m == 3 {
        59
    } else if m == 4 {
        90
    } else if m == 5 {
        120
    } else if m == 6 {
        151
    } else if m == 7 {
        181
    } else if m == 8 {
        212
    } else if m == 9 {
        243
    } else if m == 10 {
        273
    } else if m == 11 {
        304
    } else {
        334
    };
    if m > 2 && spec_is_leap_year(y) {
        plain + 1
    } else {
        plain
    }
}

/// Days from the calendar origin 0000-01-01 to the civil date `y-m-d`.
pub open spec fn spec_days_from_civil(y: int, m: int, d: int) -> int {
    365 * y + spec_leaps_before(y) + spec_days_before_month(y, m) + (d - 1)
}

impl Timestamp {
    /// Field ranges that every timestamp of this library satisfies.
    pub open spec fn wf(self) -> bool {
        &&& self.year <= 9999
        &&& 1 <= self.month <= 12
        &&& 1 <= self.day <= spec_days_in_month(self.year as int, self.month as int)
        &&& self.hour < 24
        &&& self.minute < 60
        &&& self.second < 60
        &&& -1439 <= self.offset_minutes <= 1439
    }

    /// The instant this timestamp denotes, in seconds from the calendar
    /// origin at UTC.
    pub open spec fn instant(self) -> int {
        spec_days_from_civil(self.year as int, self.month as int, self.day as int) * 86400
            + self.hour * 3600 + self.minute * 60 + self.second - self.offset_minutes * 60
    }

    pub fn instant_seconds(&self) -> (r: i64)
        requires
            self.wf(),
        ensures
            r as int == self.instant(),
    {
        let y: u64 = self.year as u64;
        let a: u64 = (y + 3) / 4;
        let b: u64 = (y + 99) / 100;
        let c: u64 = (y + 399) / 400;
        let dbm: u64 = days_before_month_u64(self.year, self.month);
        let days: u64 = 365 * y + a + c + dbm + (self.day as u64 - 1) - b;
        let secs: u64 = days * 86400 + self.hour as u64 * 3600 + self.minute as u64 * 60
            + self.second as u64;
        secs as i64 - self.offset_minutes as i64 * 60
    }

    /// Strict instant ordering: `self` denotes an earlier moment than `other`.
    pub fn is_before(&self, other: &Timestamp) -> (r: bool)
        requires
            self.wf(),
            other.wf(),
        ensures
            r == (self.instant() < other.instant()),
    {
        self.instant_seconds() < other.instant_seconds()
    }
}

fn days_before_month_u64(y: u32, m: u32) -> (r: u64)
    ensures
        r == spec_days_before_month(y as int, m as int),
{
    let plain: u64 = if m == 1 {
        0
    } else if m == 2 {
        31
    } else if m == 3 {
        59
    } else if m == 4 {
        90
    } else if m == 5 {
        120
    } else if m == 6 {
        151
    } else if m == 7 {
        181
    } else if m == 8 {
        212
    } else if m == 9 {
        243
    } else if m == 10 {
        273
    } else if m == 11 {
        304
    } else {
        334
    };
    if m > 2 && is_leap_year(y) {
        plain + 1
    } else {
        plain
    }
}

pub open spec fn spec_is_digit(c: char) -> bool {
    '0' as u32 <= c as u32 && c as u32 <= '9' as u32
}

pub open spec fn spec_digit_val(c: char) -> int {
    c as u32 - '0' as u32
}

pub open spec fn two_digit(s: Seq<char>, i: int) -> int {
    10 * spec_digit_val(s[i]) + spec_digit_val(s[i + 1])
}

pub open spec fn four_digit(s: Seq<char>, i: int) -> int {
    1000 * spec_digit_val(s[i]) + 100 * spec_digit_val(s[i + 1]) + 10 * spec_digit_val(s[i + 2])
        + spec_digit_val(s[i + 3])
}

/// `s` is exactly `YYYY-MM-DD` with an in-range month and day.
pub open spec fn valid_date_str(s: Seq<char>) -> bool {
    &&& s.len() == 10
    &&& spec_is_digit(s[0])
    &&& spec_is_digit(s[1])
    &&& spec_is_digit(s[2])
    &&& spec_is_digit(s[3])
    &&& s[4] == '-'
    &&& spec_is_digit(s[5])
    &&& spec_is_digit(s[6])
    &&& s[7] == '-'
    &&& spec_is_digit(s[8])
    &&& spec_is_digit(s[9])
    &&& 1 <= two_digit(s, 5) <= 12
    &&& 1 <= two_digit(s, 8) <= spec_days_in_month(four_digit(s, 0), two_digit(s, 5))
}

/// The date written in a valid `YYYY-MM-DD` string, at midnight UTC.
pub open spec fn date_of_str(s: Seq<char>) -> Timestamp {
    Timestamp {
        year: four_digit(s, 0) as u32,
        month: two_digit(s, 5) as u32,
        day: two_digit(s, 8) as u32,
        hour: 0,
        minute: 0,
        second: 0,
        offset_minutes: 0,
    }
}

/// `s` is exactly `YYYY-MM-DDTHH:MM:SS+HHMM` or `...-HHMM`, all fields in range.
pub open spec fn valid_ts_str(s: Seq<char>) -> bool {
    &&& s.len() == 24
    &&& valid_date_str(s.subrange(0, 10))
    &&& s[10] == 'T'
    &&& spec_is_digit(s[11])
    &&& spec_is_digit(s[12])
    &&& s[13] == ':'
    &&& spec_is_digit(s[14])
    &&& spec_is_digit(s[15])
    &&& s[16] == ':'
    &&& spec_is_digit(s[17])
    &&& spec_is_digit(s[18])
    &&& (s[19] == '+' || s[19] == '-')
    &&& spec_is_digit(s[20])
    &&& spec_is_digit(s[21])
    &&& spec_is_digit(s[22])
    &&& spec_is_digit(s[23])
    &&& two_digit(s, 11) <= 23
    &&& two_digit(s, 14) <= 59
    &&& two_digit(s, 17) <= 59
    &&& two_digit(s, 20) <= 23
    &&& two_digit(s, 22) <= 59
}

/// The timestamp written in a valid `YYYY-MM-DDTHH:MM:SS±HHMM` string.
pub open spec fn ts_of_str(s: Seq<char>) -> Timestamp {
    let date = date_of_str(s.subrange(0, 10));
    let off = two_digit(s, 20) * 60 + two_digit(s, 22);
    Timestamp {
        hour: two_digit(s, 11) as u32,
        minute: two_digit(s, 14) as u32,
        second: two_digit(s, 17) as u32,
        offset_minutes: (if s[19] == '-' {
            -off
        } else {
            off
        }) as i32,
        ..date
    }
}

fn digit_val(c: char) -> (r: Option<u32>)
    ensures
        match r {
            Some(v) => spec_is_digit(c) && v == spec_digit_val(c) && v <= 9,
            None => !spec_is_digit(c),
        },
{
    let u: u32 = c as u32;
    if '0' as u32 <= u && u <= '9' as u32 {
        Some(u - '0' as u32)
    } else {
        None
    }
}

fn two_digit_at(s: &str, i: usize) -> (r: Option<u32>)
    requires
        i + 2 <= s@.len(),
        s@.len() <= usize::MAX,
    ensures
        match r {
            Some(v) => spec_is_digit(s@[i as int]) && spec_is_digit(s@[i + 1]) && v == two_digit(
                s@,
                i as int,
            ) && v <= 99,
            None => !(spec_is_digit(s@[i as int]) && spec_is_digit(s@[i + 1])),
        },
{
    let d1 = digit_val(s.get_char(i));
    let d2 = digit_val(s.get_char(i + 1));
    match (d1, d2) {
        (Some(a), Some(b)) => Some(10 * a + b),
        _ => None,
    }
}

/// Parses `YYYY-MM-DD` exactly; `None` on any malformed or out-of-range input.
pub fn parse_date(s: &str) -> (r: Option<Timestamp>)
    ensures
        match r {
            Some(t) => valid_date_str(s@) && t == date_of_str(s@) && t.wf(),
            None => !valid_date_str(s@),
        },
{
    if s.unicode_len() != 10 {
        return None;
    }
    let y1 = two_digit_at(s, 0);
    let y2 = two_digit_at(s, 2);
    let mo = two_digit_at(s, 5);
    let dy = two_digit_at(s, 8);
    if s.get_char(4) != '-' || s.get_char(7) != '-' {
        return None;
    }
    match (y1, y2, mo, dy) {
        (Some(a), Some(b), Some(m), Some(d)) => {
            let year: u32 = 100 * a + b;
            if m < 1 || m > 12 {
                return None;
            }
            if d < 1 || d > days_in_month(year, m) {
                return None;
            }
            Some(
                Timestamp {
                    year,
                    month: m,
                    day: d,
                    hour: 0,
                    minute: 0,
                    second: 0,
                    offset_minutes: 0,
                },
            )
        },
        _ => None,
    }
}

/// Parses `YYYY-MM-DDTHH:MM:SS±HHMM` exactly; `None` on any malformed or
/// out-of-range input.
pub fn parse_timestamp(s: &str) -> (r: Option<Timestamp>)
    ensures
        match r {
            Some(t) => valid_ts_str(s@) && t == ts_of_str(s@) && t.wf(),
            None => !valid_ts_str(s@),
        },
{
    if s.unicode_len() != 24 {
        return None;
    }
    let date_part = s.substring_char(0, 10);
    let date = parse_date(date_part);
    proof {
        assert(date_part@ == s@.subrange(0, 10));
    }
    let date = match date {
        Some(d) => d,
        None => {
            return None;
        },
    };
    if s.get_char(10) != 'T' || s.get_char(13) != ':' || s.get_char(16) != ':' {
        return None;
    }
    let sign = s.get_char(19);
    if sign != '+' && sign != '-' {
        return None;
    }
    let hh = two_digit_at(s, 11);
    let mi = two_digit_at(s, 14);
    let ss = two_digit_at(s, 17);
    let oh = two_digit_at(s, 20);
    let om = two_digit_at(s, 22);
    match (hh, mi, ss, oh, om) {
        (Some(h), Some(mnt), Some(sec), Some(offh), Some(offm)) => {
            if h > 23 || mnt > 59 || sec > 59 || offh > 23 || offm > 59 {
                return None;
            }
            let off: i32 = (offh * 60 + offm) as i32;
            Some(
                Timestamp {
                    hour: h,
                    minute: mnt,
                    second: sec,
                    offset_minutes: if sign == '-' {
                        -off
                    } else {
                        off
                    },
                    ..date
                },
            )
        },
        _ => None,
    }
}

} // verus!
