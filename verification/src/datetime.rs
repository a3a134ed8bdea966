//! Wall-clock date-times: the `YYYYMMDDTHHMMSS` grammar of the feed and the
//! conversion of a wall clock read in UTC to seconds since the Unix epoch.

use vstd::prelude::*;

verus! {

/// A wall-clock date and time, not yet tied to any timezone.
#[derive(Clone, Copy, PartialEq, Eq, Structural, Debug)]
pub struct WallClock {
    pub year: u32,
    pub month: u32,
    pub day: u32,
    pub hour: u32,
    pub minute: u32,
    pub second: u32,
}

/// A proleptic-Gregorian leap year.
pub open spec fn is_leap_year(y: int) -> bool {
    y % 4 == 0 && (y % 100 != 0 || y % 400 == 0)
}

pub open spec fn days_in_year(y: int) -> int {
    if is_leap_year(y) {
        366
    } else {
        365
    }
}

pub open spec fn days_in_month(y: int, m: int) -> int {
    if m == 2 {
        if is_leap_year(y) {
            29
        } else {
            28
        }
    } else if m == 4 || m == 6 || m == 9 || m == 11 {
        30
    } else {
        31
    }
}

/// Days in years `0, 1, ..., y - 1`.
pub open spec fn days_before_year(y: int) -> int
    decreases y,
{
    if y <= 0 {
        0
    } else {
        days_before_year(y - 1) + days_in_year(y - 1)
    }
}

/// Days in months `1, ..., m - 1` of year `y`.
pub open spec fn days_before_month(y: int, m: int) -> int
    decreases m,
{
    if m <= 1 {
        0
    } else {
        days_before_month(y, m - 1) + days_in_month(y, m - 1)
    }
}

/// Whether the wall clock names a real calendar date and time of day,
/// within the four-digit-year range the feed grammar can express.
pub open spec fn wall_clock_valid(w: WallClock) -> bool {
    &&& w.year <= 9999
    &&& 1 <= w.month <= 12
    &&& 1 <= w.day <= days_in_month(w.year as int, w.month as int)
    &&& w.hour <= 23
    &&& w.minute <= 59
    &&& w.second <= 59
}

/// Day number of the date, in days since year 0 began.
pub open spec fn day_number(w: WallClock) -> int {
    days_before_year(w.year as int) + days_before_month(w.year as int, w.month as int) + w.day - 1
}

/// Day number of 1970-01-01, the Unix epoch.
pub open spec fn epoch_day_number() -> int {
    days_before_year(1970)
}

/// Seconds since the Unix epoch of the wall clock read in UTC.
pub open spec fn utc_epoch_seconds(w: WallClock) -> int {
    (day_number(w) - epoch_day_number()) * 86400 + w.hour * 3600 + w.minute * 60 + w.second
}

pub proof fn lemma_days_before_year_bounds(y: int)
    requires
        0 <= y,
    ensures
        365 * y <= days_before_year(y) <= 366 * y,
    decreases y,
{
    if y > 0 {
        lemma_days_before_year_bounds(y - 1);
    }
}

pub proof fn lemma_days_before_month_bounds(y: int, m: int)
    requires
        1 <= m <= 13,
    ensures
        0 <= days_before_month(y, m) <= 31 * (m - 1),
    decreases m,
{
    if m > 1 {
        lemma_days_before_month_bounds(y, m - 1);
    }
}

fn is_leap_year_exec(y: u32) -> (r: bool)
    ensures
        r == is_leap_year(y as int),
{
    y % 4 == 0 && (y % 100 != 0 || y % 400 == 0)
}

fn days_in_month_exec(y: u32, m: u32) -> (r: u32)
    ensures
        r == days_in_month(y as int, m as int),
        r <= 31,
{
    if m == 2 {
        if is_leap_year_exec(y) {
            29
        } else {
            28
        }
    } else if m == 4 || m == 6 || m == 9 || m == 11 {
        30
    } else {
        31
    }
}

fn days_before_year_exec(y: u32) -> (r: i64)
    requires
        y <= 10000,
    ensures
        r == days_before_year(y as int),
{
    let mut i: u32 = 0;
    let mut acc: i64 = 0;
    while i < y
        invariant
            i <= y <= 10000,
            acc == days_before_year(i as int),
        decreases y - i,
    {
        proof {
            lemma_days_before_year_bounds(i as int);
        }
        if is_leap_year_exec(i) {
            acc = acc + 366;
        } else {
            acc = acc + 365;
        }
        i = i + 1;
    }
    acc
}

fn days_before_month_exec(y: u32, m: u32) -> (r: u32)
    requires
        1 <= m <= 12,
    ensures
        r == days_before_month(y as int, m as int),
{
    let mut i: u32 = 1;
    let mut acc: u32 = 0;
    while i < m
        invariant
            1 <= i <= m <= 12,
            acc == days_before_month(y as int, i as int),
            acc <= 31 * (i - 1),
        decreases m - i,
    {
        acc = acc + days_in_month_exec(y, i);
        i = i + 1;
    }
    acc
}

/// Seconds since the Unix epoch of a wall clock read in UTC, as the `UNTIL`
/// cutoff of a recurrence rule is.
pub fn utc_epoch(w: &WallClock) -> (r: i64)
    requires
        wall_clock_valid(*w),
    ensures
        r == utc_epoch_seconds(*w),
{
    proof {
        lemma_days_before_year_bounds(w.year as int);
        lemma_days_before_month_bounds(w.year as int, w.month as int);
        lemma_days_before_year_bounds(1970);
    }
    let dy = days_before_year_exec(w.year);
    let dm = days_before_month_exec(w.year, w.month);
    let epoch = days_before_year_exec(1970);
    let days: i64 = dy + dm as i64 + w.day as i64 - 1 - epoch;
    days * 86400 + w.hour as i64 * 3600 + w.minute as i64 * 60 + w.second as i64
}

/// An ASCII decimal digit.
pub open spec fn is_digit(c: char) -> bool {
    48 <= c as u32 <= 57
}

pub open spec fn digit_val(c: char) -> int {
    c as u32 - 48
}

pub open spec fn all_digits(s: Seq<char>) -> bool {
    forall|i: int| 0 <= i < s.len() ==> is_digit(#[trigger] s[i])
}

/// The number the digit string denotes, most significant digit first.
pub open spec fn num_val(s: Seq<char>) -> int
    decreases s.len(),
{
    if s.len() == 0 {
        0
    } else {
        num_val(s.drop_last()) * 10 + digit_val(s.last())
    }
}

pub open spec fn pow10(n: nat) -> int
    decreases n,
{
    if n == 0 {
        1
    } else {
        10 * pow10((n - 1) as nat)
    }
}

proof fn lemma_pow10_le(a: nat, b: nat)
    requires
        a <= b,
    ensures
        1 <= pow10(a) <= pow10(b),
    decreases b,
{
    if a < b {
        lemma_pow10_le(a, (b - 1) as nat);
    } else if a > 0 {
        lemma_pow10_le((a - 1) as nat, (a - 1) as nat);
    }
}

/// Reads the base-ten number written at `s[from..to]`; `None` unless every
/// character there is a digit.
fn read_number(s: &str, from: usize, to: usize) -> (r: Option<u32>)
    requires
        from <= to <= s@.len(),
        to - from <= 4,
    ensures
        match r {
            Some(v) => {
                &&& all_digits(s@.subrange(from as int, to as int))
                &&& v == num_val(s@.subrange(from as int, to as int))
                &&& v <= 9999
            },
            None => !all_digits(s@.subrange(from as int, to as int)),
        },
{
    let mut i: usize = from;
    let mut acc: u32 = 0;
    while i < to
        invariant
            from <= i <= to <= s@.len(),
            to - from <= 4,
            all_digits(s@.subrange(from as int, i as int)),
            acc == num_val(s@.subrange(from as int, i as int)),
            acc < pow10((i - from) as nat),
        decreases to - i,
    {
        let c = s.get_char(i);
        let u = c as u32;
        if u < 48 || u > 57 {
            proof {
                let whole = s@.subrange(from as int, to as int);
                assert(whole[i - from] == s@[i as int]);
                assert(!is_digit(whole[i - from]));
            }
            return None;
        }
        proof {
            assert(pow10(0) == 1);
            assert(pow10(1) == 10);
            assert(pow10(2) == 100);
            assert(pow10(3) == 1000);
            lemma_pow10_le((i - from) as nat, 3);
            let pre = s@.subrange(from as int, i as int);
            let post = s@.subrange(from as int, i + 1);
            assert(post.drop_last() =~= pre);
            assert(post.last() == s@[i as int]);
            assert(pow10(((i + 1) - from) as nat) == 10 * pow10((i - from) as nat));
            assert forall|k: int| 0 <= k < post.len() implies is_digit(#[trigger] post[k]) by {
                if k < post.len() - 1 {
                    assert(post[k] == pre[k]);
                }
            }
        }
        acc = acc * 10 + (u - 48);
        i = i + 1;
    }
    proof {
        assert(pow10(0) == 1);
        assert(pow10(1) == 10);
        assert(pow10(2) == 100);
        assert(pow10(3) == 1000);
        assert(pow10(4) == 10000);
        assert(pow10(((to - from) as nat)) <= 10000);
    }
    Some(acc)
}

/// The feed's local date-time grammar, `YYYYMMDDTHHMMSS`: `Some` exactly when
/// the text has that shape and names a real calendar date and time of day.
pub open spec fn wall_clock_of(s: Seq<char>) -> Option<WallClock> {
    if s.len() == 15 && s[8] == 'T' && all_digits(s.subrange(0, 4)) && all_digits(
        s.subrange(4, 6),
    ) && all_digits(s.subrange(6, 8)) && all_digits(s.subrange(9, 11)) && all_digits(
        s.subrange(11, 13),
    ) && all_digits(s.subrange(13, 15)) {
        let w = WallClock {
            year: num_val(s.subrange(0, 4)) as u32,
            month: num_val(s.subrange(4, 6)) as u32,
            day: num_val(s.subrange(6, 8)) as u32,
            hour: num_val(s.subrange(9, 11)) as u32,
            minute: num_val(s.subrange(11, 13)) as u32,
            second: num_val(s.subrange(13, 15)) as u32,
        };
        if wall_clock_valid(w) {
            Some(w)
        } else {
            None
        }
    } else {
        None
    }
}

/// The UTC date-time grammar of a rule's `UNTIL` value, `YYYYMMDDTHHMMSSZ`.
pub open spec fn utc_wall_clock_of(s: Seq<char>) -> Option<WallClock> {
    if s.len() == 16 && s[15] == 'Z' {
        wall_clock_of(s.subrange(0, 15))
    } else {
        None
    }
}

/// Parses the local date-time grammar `YYYYMMDDTHHMMSS`.
pub fn parse_wall_clock(s: &str) -> (r: Option<WallClock>)
    ensures
        r == wall_clock_of(s@),
{
    let n = s.unicode_len();
    if n != 15 {
        return None;
    }
    if s.get_char(8) != 'T' {
        return None;
    }
    let year = match read_number(s, 0, 4) {
        Some(v) => v,
        None => {
            return None;
        },
    };
    let month = match read_number(s, 4, 6) {
        Some(v) => v,
        None => {
            return None;
        },
    };
    let day = match read_number(s, 6, 8) {
        Some(v) => v,
        None => {
            return None;
        },
    };
    let hour = match read_number(s, 9, 11) {
        Some(v) => v,
        None => {
            return None;
        },
    };
    let minute = match read_number(s, 11, 13) {
        Some(v) => v,
        None => {
            return None;
        },
    };
    let second = match read_number(s, 13, 15) {
        Some(v) => v,
        None => {
            return None;
        },
    };
    let w = WallClock { year, month, day, hour, minute, second };
    if month >= 1 && month <= 12 && day >= 1 && day <= days_in_month_exec(year, month) && hour
        <= 23 && minute <= 59 && second <= 59 {
        Some(w)
    } else {
        None
    }
}

/// Parses the UTC date-time grammar `YYYYMMDDTHHMMSSZ` of `UNTIL`.
pub fn parse_wall_clock_utc(s: &str) -> (r: Option<WallClock>)
    ensures
        r == utc_wall_clock_of(s@),
{
    let n = s.unicode_len();
    if n != 16 {
        return None;
    }
    if s.get_char(15) != 'Z' {
        return None;
    }
    let head = s.substring_char(0, 15);
    parse_wall_clock(head)
}

} // verus!
