//! IMAP `INTERNALDATE` values (`DD-Mon-YYYY HH:MM:SS +ZZZZ`) as Unix timestamps,
//! by explicit Gregorian day counting.
use vstd::prelude::*;
use crate::decimal::is_digit;
use crate::scan::{trim, trim_bounds};
use vstd::string::StringSliceAdditionalSpecFns;

verus! {

pub open spec fn is_leap(y: int) -> bool {
    (y % 4 == 0 && y % 100 != 0) || y % 400 == 0
}

pub open spec fn year_length(y: int) -> int {
    if is_leap(y) {
        366
    } else {
        365
    }
}

/// Days from 1970-01-01 to January 1st of year `y` (negative before 1970).
pub open spec fn days_before_year(y: int) -> int
    decreases (if y >= 1970 { y - 1970 } else { 1970 - y }),
{
    if y > 1970 {
        days_before_year(y - 1) + year_length(y - 1)
    } else if y < 1970 {
        days_before_year(y + 1) - year_length(y)
    } else {
        0
    }
}

pub open spec fn month_length(y: int, m: int) -> int {
    if m == 2 {
        if is_leap(y) {
            29
        } else {
            28
        }
    } else if m == 4 || m == 6 || m == 9 || m == 11 {
        30
    } else {
        31
    }
}

/// Days from January 1st to the first day of month `m` of year `y`.
pub open spec fn days_before_month(y: int, m: int) -> int
    decreases m,
{
    if m <= 1 {
        0
    } else {
        days_before_month(y, m - 1) + month_length(y, m - 1)
    }
}

/// Seconds since the Unix epoch of a calendar date and time at UTC offset `offset` seconds.
pub open spec fn unix_time(y: int, mo: int, d: int, h: int, mi: int, s: int, offset: int) -> int {
    (days_before_year(y) + days_before_month(y, mo) + d - 1) * 86400 + h * 3600 + mi * 60 + s
        - offset
}

pub open spec fn digit_at(t: Seq<u8>, i: int) -> int {
    t[i] as int - 48
}

pub open spec fn two_digits_at(t: Seq<u8>, i: int) -> int {
    digit_at(t, i) * 10 + digit_at(t, i + 1)
}

pub open spec fn digits_at(t: Seq<u8>, i: int, n: int) -> bool {
    forall|k: int| i <= k < i + n ==> is_digit(#[trigger] t[k])
}

pub open spec fn ascii_lower(b: u8) -> u8 {
    if 65 <= b <= 90 {
        (b + 32) as u8
    } else {
        b
    }
}

/// The number (1 to 12) of an English month abbreviation, in any letter case; 0 for
/// anything else.
pub open spec fn month_number(a: u8, b: u8, c: u8) -> int {
    let (x, y, z) = (ascii_lower(a), ascii_lower(b), ascii_lower(c));
    if x == 106 && y == 97 && z == 110 {
        1
    } else if x == 102 && y == 101 && z == 98 {
        2
    } else if x == 109 && y == 97 && z == 114 {
        3
    } else if x == 97 && y == 112 && z == 114 {
        4
    } else if x == 109 && y == 97 && z == 121 {
        5
    } else if x == 106 && y == 117 && z == 110 {
        6
    } else if x == 106 && y == 117 && z == 108 {
        7
    } else if x == 97 && y == 117 && z == 103 {
        8
    } else if x == 115 && y == 101 && z == 112 {
        9
    } else if x == 111 && y == 99 && z == 116 {
        10
    } else if x == 110 && y == 111 && z == 118 {
        11
    } else if x == 100 && y == 101 && z == 99 {
        12
    } else {
        0
    }
}

/// Digits of a one- or two-digit field that starts at `i`: two when a second digit
/// follows.
pub open spec fn field_width(t: Seq<u8>, i: int) -> int {
    if i + 1 < t.len() && is_digit(t[i + 1]) {
        2
    } else {
        1
    }
}

pub open spec fn field_value(t: Seq<u8>, i: int) -> int {
    if field_width(t, i) == 2 {
        two_digits_at(t, i)
    } else {
        digit_at(t, i)
    }
}

/// Number of digits of the day: one or two.
pub open spec fn day_width(t: Seq<u8>) -> int {
    field_width(t, 0)
}

/// Where the hour, minute and second start, and where the time ends.
pub open spec fn hour_at(t: Seq<u8>) -> int {
    day_width(t) + 10
}

pub open spec fn minute_at(t: Seq<u8>) -> int {
    hour_at(t) + field_width(t, hour_at(t)) + 1
}

pub open spec fn second_at(t: Seq<u8>) -> int {
    minute_at(t) + field_width(t, minute_at(t)) + 1
}

pub open spec fn time_end(t: Seq<u8>) -> int {
    second_at(t) + field_width(t, second_at(t))
}

/// `t` is laid out as `D-Mon-YYYY H:M:S` with one or two digits for the day, hour,
/// minute and second, and ends there or goes on after a space with the zone.
pub open spec fn date_layout(t: Seq<u8>) -> bool {
    let l = day_width(t);
    &&& t.len() > l + 10
    &&& digits_at(t, 0, l)
    &&& t[l] == 45 && t[l + 4] == 45
    &&& digits_at(t, l + 5, 4)
    &&& t[l + 9] == 32
    &&& is_digit(t[hour_at(t)])
    &&& minute_at(t) < t.len() && t[minute_at(t) - 1] == 58 && is_digit(t[minute_at(t)])
    &&& second_at(t) < t.len() && t[second_at(t) - 1] == 58 && is_digit(t[second_at(t)])
    &&& (time_end(t) == t.len() || t[time_end(t)] == 32)
}

pub open spec fn date_day(t: Seq<u8>) -> int {
    field_value(t, 0)
}

pub open spec fn date_month(t: Seq<u8>) -> int {
    let l = day_width(t);
    month_number(t[l + 1], t[l + 2], t[l + 3])
}

pub open spec fn date_year(t: Seq<u8>) -> int {
    let l = day_width(t);
    two_digits_at(t, l + 5) * 100 + two_digits_at(t, l + 7)
}

/// The UTC offset in seconds of a zone `+HHMM`, `-HHMM` or `HHMM`; anything else, or
/// no zone, counts as zero.
pub open spec fn zone_offset(z: Seq<u8>) -> int {
    if z.len() == 5 && (z[0] == 43 || z[0] == 45) && digits_at(z, 1, 4) {
        let mag = two_digits_at(z, 1) * 3600 + two_digits_at(z, 3) * 60;
        if z[0] == 45 {
            -mag
        } else {
            mag
        }
    } else if z.len() == 4 && digits_at(z, 0, 4) {
        two_digits_at(z, 0) * 3600 + two_digits_at(z, 2) * 60
    } else {
        0
    }
}

/// The zone: what follows the space after the time.
pub open spec fn date_zone(t: Seq<u8>) -> Seq<u8> {
    if time_end(t) < t.len() {
        t.subrange(time_end(t) + 1, t.len() as int)
    } else {
        Seq::empty()
    }
}

/// The layout holds, the month is known, the day exists in that month and year,
/// and the time of day is a real one.
pub open spec fn date_valid(t: Seq<u8>) -> bool {
    &&& date_layout(t)
    &&& 1 <= date_month(t)
    &&& 1 <= date_day(t) <= month_length(date_year(t), date_month(t))
    &&& field_value(t, hour_at(t)) <= 23
    &&& field_value(t, minute_at(t)) <= 59
    &&& field_value(t, second_at(t)) <= 59
}

/// The timestamp that an IMAP date-time denotes, surrounding whitespace aside.
pub open spec fn imap_date(s: Seq<u8>) -> Option<int> {
    let t = trim(s);
    if date_valid(t) {
        Some(
            unix_time(
                date_year(t),
                date_month(t),
                date_day(t),
                field_value(t, hour_at(t)),
                field_value(t, minute_at(t)),
                field_value(t, second_at(t)),
                zone_offset(date_zone(t)),
            ),
        )
    } else {
        None
    }
}

/// Gregorian leap year rule.
pub fn is_leap_year(y: i64) -> (r: bool)
    ensures
        r == is_leap(y as int),
{
    let neg = y < 0;
    let u: u64 = if neg { ((-(y + 1)) as u64) + 1 } else { y as u64 };
    proof {
        let x = y as int;
        assert(u as int == x || u as int == -x);
        assert(((-x) % 4 == 0) == (x % 4 == 0)) by (nonlinear_arith);
        assert(((-x) % 100 == 0) == (x % 100 == 0)) by (nonlinear_arith);
        assert(((-x) % 400 == 0) == (x % 400 == 0)) by (nonlinear_arith);
    }
    (u % 4 == 0 && u % 100 != 0) || (u % 400 == 0)
}

fn days_before_year_of(year: i64) -> (r: i64)
    requires
        0 <= year <= 9999,
    ensures
        r == days_before_year(year as int),
        -730000 <= r <= 3000000,
{
    let mut days: i64 = 0;
    let mut y: i64 = 1970;
    if year >= 1970 {
        while y < year
            invariant
                1970 <= y <= year <= 9999,
                days == days_before_year(y as int),
                0 <= days <= 366 * (y - 1970),
            decreases year - y,
        {
            let len: i64 = if is_leap_year(y) { 366 } else { 365 };
            days = days + len;
            y = y + 1;
        }
    } else {
        while y > year
            invariant
                0 <= year <= y <= 1970,
                days == days_before_year(y as int),
                -366 * (1970 - y) <= days <= 0,
            decreases y - year,
        {
            y = y - 1;
            let len: i64 = if is_leap_year(y) { 366 } else { 365 };
            days = days - len;
        }
    }
    days
}

fn days_before_month_of(year: i64, month: i64) -> (r: i64)
    requires
        1 <= month <= 12,
    ensures
        r == days_before_month(year as int, month as int),
        0 <= r <= 31 * (month - 1),
{
    let mut days: i64 = 0;
    let mut m: i64 = 1;
    while m < month
        invariant
            1 <= m <= month <= 12,
            days == days_before_month(year as int, m as int),
            0 <= days <= 31 * (m - 1),
        decreases month - m,
    {
        days = days + month_length_of(year, m);
        m = m + 1;
    }
    days
}

fn month_length_of(year: i64, m: i64) -> (r: i64)
    ensures
        r == month_length(year as int, m as int),
{
    if m == 2 {
        if is_leap_year(year) {
            29
        } else {
            28
        }
    } else if m == 4 || m == 6 || m == 9 || m == 11 {
        30
    } else {
        31
    }
}

fn lower_byte(b: u8) -> (r: u8)
    ensures
        r == ascii_lower(b),
{
    if 65u8 <= b && b <= 90u8 {
        b + 32
    } else {
        b
    }
}

fn month_of(a: u8, b: u8, c: u8) -> (r: i64)
    ensures
        r == month_number(a, b, c),
{
    let x = lower_byte(a);
    let y = lower_byte(b);
    let z = lower_byte(c);
    if x == 106 && y == 97 && z == 110 {
        1
    } else if x == 102 && y == 101 && z == 98 {
        2
    } else if x == 109 && y == 97 && z == 114 {
        3
    } else if x == 97 && y == 112 && z == 114 {
        4
    } else if x == 109 && y == 97 && z == 121 {
        5
    } else if x == 106 && y == 117 && z == 110 {
        6
    } else if x == 106 && y == 117 && z == 108 {
        7
    } else if x == 97 && y == 117 && z == 103 {
        8
    } else if x == 115 && y == 101 && z == 112 {
        9
    } else if x == 111 && y == 99 && z == 116 {
        10
    } else if x == 110 && y == 111 && z == 118 {
        11
    } else if x == 100 && y == 101 && z == 99 {
        12
    } else {
        0
    }
}

fn digit_byte(b: u8) -> (r: bool)
    ensures
        r == is_digit(b),
{
    48u8 <= b && b <= 57u8
}

fn digits_ok(t: &[u8], i: usize, n: usize) -> (r: bool)
    requires
        i + n <= t@.len(),
    ensures
        r == digits_at(t@, i as int, n as int),
{
    let tn = t.len();
    let end = i + n;
    let mut k: usize = i;
    while k < end
        invariant
            end == i + n,
            i <= k <= i + n <= t@.len(),
            forall|j: int| i <= j < k ==> is_digit(#[trigger] t@[j]),
        decreases i + n - k,
    {
        if !digit_byte(t[k]) {
            return false;
        }
        k = k + 1;
    }
    true
}

fn two_at(t: &[u8], i: usize) -> (r: i64)
    requires
        i + 2 <= t@.len(),
        digits_at(t@, i as int, 2),
    ensures
        r == two_digits_at(t@, i as int),
        0 <= r <= 99,
{
    assert(is_digit(t@[i as int]) && is_digit(t@[i + 1]));
    ((t[i] - 48u8) as i64) * 10 + ((t[i + 1] - 48u8) as i64)
}

fn width_at(t: &[u8], i: usize) -> (r: usize)
    requires
        i < t@.len(),
    ensures
        r == field_width(t@, i as int),
{
    if i < t.len() - 1 && digit_byte(t[i + 1]) {
        2
    } else {
        1
    }
}

fn value_at(t: &[u8], i: usize, w: usize) -> (r: i64)
    requires
        i < t@.len(),
        w == field_width(t@, i as int),
        is_digit(t@[i as int]),
    ensures
        r == field_value(t@, i as int),
        0 <= r <= 99,
{
    if w == 2 {
        two_at(t, i)
    } else {
        (t[i] - 48u8) as i64
    }
}

fn zone_offset_of(z: &[u8]) -> (r: i64)
    ensures
        r == zone_offset(z@),
        -400000 <= r <= 400000,
{
    let n = z.len();
    if n == 5 && (z[0] == 43u8 || z[0] == 45u8) && digits_ok(z, 1, 4) {
        let mag = two_at(z, 1) * 3600 + two_at(z, 3) * 60;
        if z[0] == 45u8 {
            -mag
        } else {
            mag
        }
    } else if n == 4 && digits_ok(z, 0, 4) {
        two_at(z, 0) * 3600 + two_at(z, 2) * 60
    } else {
        0
    }
}

/// Reads an IMAP date-time already cut out of its line.
pub fn parse_date_bytes(s: &[u8]) -> (r: Option<i64>)
    ensures
        r is Some <==> imap_date(s@) is Some,
        r is Some ==> r.unwrap() as int == imap_date(s@).unwrap(),
{
    let (lo, hi) = trim_bounds(s);
    let t = &s[lo..hi];
    assert(t@ == trim(s@));
    let n = t.len();
    if n < 2 {
        return None;
    }
    let l = width_at(t, 0);
    if n <= l + 10 {
        return None;
    }
    if !(digits_ok(t, 0, l) && t[l] == 45u8 && t[l + 4] == 45u8 && digits_ok(t, l + 5, 4)
        && t[l + 9] == 32u8) {
        return None;
    }
    let h0 = l + 10;
    if !digit_byte(t[h0]) {
        return None;
    }
    let hw = width_at(t, h0);
    let m0 = h0 + hw + 1;
    if m0 >= n || t[m0 - 1] != 58u8 || !digit_byte(t[m0]) {
        return None;
    }
    let mw = width_at(t, m0);
    let s0 = m0 + mw + 1;
    if s0 >= n || t[s0 - 1] != 58u8 || !digit_byte(t[s0]) {
        return None;
    }
    let sw = width_at(t, s0);
    let e = s0 + sw;
    if e < n && t[e] != 32u8 {
        return None;
    }
    assert(date_layout(t@));
    let day = value_at(t, 0, l);
    let month = month_of(t[l + 1], t[l + 2], t[l + 3]);
    let year = two_at(t, l + 5) * 100 + two_at(t, l + 7);
    let hour = value_at(t, h0, hw);
    let minute = value_at(t, m0, mw);
    let second = value_at(t, s0, sw);
    if month < 1 || day < 1 || day > month_length_of(year, month) || hour > 23 || minute > 59
        || second > 59 {
        return None;
    }
    let offset: i64 = if e < n {
        let z = &t[e + 1..n];
        assert(z@ == date_zone(t@));
        zone_offset_of(z)
    } else {
        assert(date_zone(t@) =~= Seq::<u8>::empty());
        0
    };
    let days = days_before_year_of(year) + days_before_month_of(year, month) + day - 1;
    Some(days * 86400 + hour * 3600 + minute * 60 + second - offset)
}

/// Parses an IMAP date-time such as `16-Feb-2026 12:00:00 +0000` into seconds since
/// the Unix epoch; `None` when the text is not such a date or names a day that does
/// not exist.
pub fn parse_imap_date(s: &str) -> (r: Option<i64>)
    ensures
        r is Some <==> imap_date(s.spec_bytes()) is Some,
        r is Some ==> r.unwrap() as int == imap_date(s.spec_bytes()).unwrap(),
{
    parse_date_bytes(s.as_bytes())
}

} // verus!
