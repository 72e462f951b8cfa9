//! Reading the runtime's timestamps: a date and a time of day with a zone,
//! as seconds since the start of 1970.
use vstd::prelude::*;
use crate::decimal::{digit_value, is_digit};
use crate::text::to_chars;

verus! {

/// Whether a year of the Gregorian calendar has a 29th of February.
pub open spec fn is_leap(year: int) -> bool {
    year % 4 == 0 && (year % 100 != 0 || year % 400 == 0)
}

/// The number of days of a month.
pub open spec fn days_in_month(year: int, month: int) -> int {
    if month == 2 {
        if is_leap(year) {
            29
        } else {
            28
        }
    } else if month == 4 || month == 6 || month == 9 || month == 11 {
        30
    } else {
        31
    }
}

/// The number of days of a year that lie before a month.
pub open spec fn days_before_month(year: int, month: int) -> int
    decreases month,
{
    if month <= 1 {
        0
    } else {
        days_before_month(year, month - 1) + days_in_month(year, month - 1)
    }
}

/// The number of leap years from year 1 up to and with `year`.
pub open spec fn leap_years_through(year: int) -> int {
    year / 4 - year / 100 + year / 400
}

/// The number of days from the start of 1970 to the start of a year; below
/// zero before 1970.
pub open spec fn days_before_year(year: int) -> int {
    365 * (year - 1970) + leap_years_through(year - 1) - leap_years_through(1969)
}

/// The seconds from the start of 1970 to a moment given by date and time of
/// day in the zone of Greenwich.
pub open spec fn unix_seconds(
    year: int,
    month: int,
    day: int,
    hour: int,
    minute: int,
    second: int,
) -> int {
    (days_before_year(year) + days_before_month(year, month) + day - 1) * 86400 + hour * 3600
        + minute * 60 + second
}

/// The number that the two digits at `i` spell.
pub open spec fn two_digits(s: Seq<char>, i: int) -> int {
    (digit_value(s[i]) * 10 + digit_value(s[i + 1])) as int
}

/// Whether `s` holds digits at `i` and at the `n - 1` places after it.
pub open spec fn digits_at(s: Seq<char>, i: int, n: int) -> bool {
    i + n <= s.len() && forall|j: int| i <= j < i + n ==> is_digit(#[trigger] s[j])
}

/// Whether `c` may stand between date and time of day.
pub open spec fn is_date_time_mark(c: char) -> bool {
    c == 'T' || c == 't' || c == ' '
}

/// The year that a timestamp starts with.
pub open spec fn year_of(s: Seq<char>) -> int {
    two_digits(s, 0) * 100 + two_digits(s, 2)
}

/// Whether `s` starts with a date and a time of day, `YYYY-MM-DD` and
/// `hh:mm:ss` with a mark between them, that name a day of the calendar and a
/// second of the day.
pub open spec fn starts_with_date_time(s: Seq<char>) -> bool {
    &&& s.len() >= 19
    &&& digits_at(s, 0, 4) && s[4] == '-' && digits_at(s, 5, 2) && s[7] == '-' && digits_at(
        s,
        8,
        2,
    )
    &&& is_date_time_mark(s[10])
    &&& digits_at(s, 11, 2) && s[13] == ':' && digits_at(s, 14, 2) && s[16] == ':' && digits_at(
        s,
        17,
        2,
    )
    &&& 1 <= two_digits(s, 5) <= 12
    &&& 1 <= two_digits(s, 8) <= days_in_month(year_of(s), two_digits(s, 5))
    &&& two_digits(s, 11) <= 23
    &&& two_digits(s, 14) <= 59
    &&& two_digits(s, 17) <= 59
}

/// The number of leading digits of `s`.
pub open spec fn digit_run(s: Seq<char>) -> nat
    decreases s.len(),
{
    if s.len() > 0 && is_digit(s[0]) {
        1 + digit_run(s.drop_first())
    } else {
        0
    }
}

/// Where the zone of a timestamp starts: behind the seconds, or behind the
/// fraction of a second where a point and digits follow them. `None` where a
/// point follows them without a digit.
pub open spec fn zone_start(s: Seq<char>) -> Option<int> {
    if s.len() > 19 && s[19] == '.' {
        if digit_run(s.skip(20)) > 0 {
            Some(20 + digit_run(s.skip(20)) as int)
        } else {
            None
        }
    } else {
        Some(19)
    }
}

/// How many minutes a zone is ahead of Greenwich: none for `Z`, and hours
/// and minutes for `+hh:mm` or `-hh:mm`. `None` for any other text.
pub open spec fn zone_minutes(z: Seq<char>) -> Option<int> {
    if z.len() == 1 && (z[0] == 'Z' || z[0] == 'z') {
        Some(0)
    } else if z.len() == 6 && (z[0] == '+' || z[0] == '-') && digits_at(z, 1, 2) && z[3] == ':'
        && digits_at(z, 4, 2) && two_digits(z, 1) <= 23 && two_digits(z, 4) <= 59 {
        let ahead = two_digits(z, 1) * 60 + two_digits(z, 4);
        if z[0] == '+' {
            Some(ahead)
        } else {
            Some(-ahead)
        }
    } else {
        None
    }
}

/// The moment that a timestamp names, in seconds since the start of 1970; a
/// fraction of a second is dropped. `None` where the text is no timestamp.
pub open spec fn timestamp_of(s: Seq<char>) -> Option<int> {
    if starts_with_date_time(s) && zone_start(s) is Some && zone_minutes(
        s.skip(zone_start(s)->0),
    ) is Some {
        Some(
            unix_seconds(
                year_of(s),
                two_digits(s, 5),
                two_digits(s, 8),
                two_digits(s, 11),
                two_digits(s, 14),
                two_digits(s, 17),
            ) - zone_minutes(s.skip(zone_start(s)->0))->0 * 60,
        )
    } else {
        None
    }
}

/// If the first `k` characters of `s` are digits and the next one, if any,
/// is not, `s` has `k` leading digits.
proof fn lemma_digit_run_is(s: Seq<char>, k: nat)
    requires
        k <= s.len(),
        forall|i: int| 0 <= i < k ==> is_digit(#[trigger] s[i]),
        k < s.len() ==> !is_digit(s[k as int]),
    ensures
        digit_run(s) == k,
    decreases k,
{
    if k > 0 {
        let t = s.drop_first();
        lemma_digit_run_is(t, (k - 1) as nat);
    }
}

fn digit_at(v: &Vec<char>, i: usize) -> (r: Option<i64>)
    ensures
        match r {
            Some(d) => i < v.len() && is_digit(v@[i as int]) && d == digit_value(v@[i as int])
                && 0 <= d <= 9,
            None => i >= v.len() || !is_digit(v@[i as int]),
        },
{
    if i >= v.len() {
        return None;
    }
    let c = v[i];
    if '0' <= c && c <= '9' {
        Some((c as u32 - '0' as u32) as i64)
    } else {
        None
    }
}

fn two_at(v: &Vec<char>, i: usize) -> (r: Option<i64>)
    requires
        i < usize::MAX,
    ensures
        match r {
            Some(n) => digits_at(v@, i as int, 2) && n == two_digits(v@, i as int) && 0 <= n <= 99,
            None => !digits_at(v@, i as int, 2),
        },
{
    let a = match digit_at(v, i) {
        Some(d) => d,
        None => {
            return None;
        },
    };
    let b = match digit_at(v, i + 1) {
        Some(d) => d,
        None => {
            return None;
        },
    };
    Some(a * 10 + b)
}

fn mark_at(v: &Vec<char>, i: usize, c: char) -> (r: bool)
    ensures
        r == (i < v.len() && v@[i as int] == c),
{
    i < v.len() && v[i] == c
}

fn leap(year: i64) -> (r: bool)
    requires
        0 <= year <= 9999,
    ensures
        r == is_leap(year as int),
{
    year % 4 == 0 && (year % 100 != 0 || year % 400 == 0)
}

fn month_days(year: i64, month: i64) -> (r: i64)
    requires
        0 <= year <= 9999,
    ensures
        r == days_in_month(year as int, month as int),
        28 <= r <= 31,
{
    if month == 2 {
        if leap(year) {
            29
        } else {
            28
        }
    } else if month == 4 || month == 6 || month == 9 || month == 11 {
        30
    } else {
        31
    }
}

fn days_to_month(year: i64, month: i64) -> (r: i64)
    requires
        0 <= year <= 9999,
        1 <= month <= 12,
    ensures
        r == days_before_month(year as int, month as int),
        0 <= r <= 31 * 11,
{
    let mut days: i64 = 0;
    let mut m: i64 = 1;
    while m < month
        invariant
            0 <= year <= 9999,
            1 <= m <= month <= 12,
            days == days_before_month(year as int, m as int),
            0 <= days <= 31 * (m - 1),
        decreases month - m,
    {
        days = days + month_days(year, m);
        m = m + 1;
    }
    days
}

fn days_to_year(year: i64) -> (r: i64)
    requires
        0 <= year <= 9999,
    ensures
        r == days_before_year(year as int),
        -720000 <= r <= 2940000,
{
    if year == 0 {
        -719528
    } else {
        let before: i64 = year - 1;
        365 * (year - 1970) + (before / 4 - before / 100 + before / 400) - 477
    }
}

/// Reads a zone at `from`: how many minutes it is ahead of Greenwich.
fn zone_at(v: &Vec<char>, from: usize) -> (r: Option<i64>)
    requires
        from <= v.len(),
    ensures
        match r {
            Some(m) => zone_minutes(v@.skip(from as int)) == Some(m as int) && -1440 < m < 1440,
            None => zone_minutes(v@.skip(from as int)) is None,
        },
{
    let ghost z = v@.skip(from as int);
    let n = v.len() - from;
    if n == 1 {
        if v[from] == 'Z' || v[from] == 'z' {
            return Some(0);
        }
        return None;
    }
    if n != 6 {
        return None;
    }
    let sign = v[from];
    if sign != '+' && sign != '-' {
        return None;
    }
    let hours = match two_at(v, from + 1) {
        Some(h) => h,
        None => {
            return None;
        },
    };
    if v[from + 3] != ':' {
        return None;
    }
    let minutes = match two_at(v, from + 4) {
        Some(m) => m,
        None => {
            return None;
        },
    };
    if hours > 23 || minutes > 59 {
        return None;
    }
    let ahead = hours * 60 + minutes;
    if sign == '+' {
        Some(ahead)
    } else {
        Some(-ahead)
    }
}

/// The moment that a timestamp of the runtime names, in seconds since the
/// start of 1970, if the text is a timestamp.
pub fn parse_timestamp(text: &str) -> (r: Option<i64>)
    ensures
        match r {
            Some(t) => timestamp_of(text@) == Some(t as int),
            None => timestamp_of(text@) is None,
        },
{
    let v = to_chars(text);
    let ghost s = v@;
    if v.len() < 19 {
        return None;
    }
    let century = match two_at(&v, 0) {
        Some(n) => n,
        None => {
            return None;
        },
    };
    let years = match two_at(&v, 2) {
        Some(n) => n,
        None => {
            return None;
        },
    };
    let year = century * 100 + years;
    if !mark_at(&v, 4, '-') {
        return None;
    }
    let month = match two_at(&v, 5) {
        Some(n) => n,
        None => {
            return None;
        },
    };
    if !mark_at(&v, 7, '-') {
        return None;
    }
    let day = match two_at(&v, 8) {
        Some(n) => n,
        None => {
            return None;
        },
    };
    if !(mark_at(&v, 10, 'T') || mark_at(&v, 10, 't') || mark_at(&v, 10, ' ')) {
        return None;
    }
    let hour = match two_at(&v, 11) {
        Some(n) => n,
        None => {
            return None;
        },
    };
    if !mark_at(&v, 13, ':') {
        return None;
    }
    let minute = match two_at(&v, 14) {
        Some(n) => n,
        None => {
            return None;
        },
    };
    if !mark_at(&v, 16, ':') {
        return None;
    }
    let second = match two_at(&v, 17) {
        Some(n) => n,
        None => {
            return None;
        },
    };
    if month < 1 || month > 12 || day < 1 || day > month_days(year, month) || hour > 23 || minute
        > 59 || second > 59 {
        return None;
    }
    let mut zone: usize = 19;
    if mark_at(&v, 19, '.') {
        let mut k: usize = 20;
        while k < v.len() && '0' <= v[k] && v[k] <= '9'
            invariant
                20 <= k <= v.len(),
                forall|j: int| 20 <= j < k ==> is_digit(#[trigger] v@[j]),
            decreases v.len() - k,
        {
            k += 1;
        }
        proof {
            let f = s.skip(20);
            lemma_digit_run_is(f, (k - 20) as nat);
        }
        if k == 20 {
            return None;
        }
        zone = k;
    }
    let ahead = match zone_at(&v, zone) {
        Some(m) => m,
        None => {
            return None;
        },
    };
    let days = days_to_year(year) + days_to_month(year, month) + day - 1;
    Some(days * 86400 + hour * 3600 + minute * 60 + second - ahead * 60)
}

} // verus!
