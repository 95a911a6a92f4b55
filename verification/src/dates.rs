use vstd::prelude::*;
use chrono::TimeZone;
use crate::text::{decimal, decimal_chars, digit_char, digit_for, is_digit, string_from_range};

verus! {

// ---------------------------------------------------------------------------
// The proleptic Gregorian calendar, counted from 0000-01-01 (day 0)
// ---------------------------------------------------------------------------

pub open spec fn is_leap(y: int) -> bool {
    (y % 4 == 0 && y % 100 != 0) || y % 400 == 0
}

pub open spec fn year_len(y: int) -> int {
    if is_leap(y) {
        366
    } else {
        365
    }
}

pub open spec fn month_len(y: int, m: int) -> int {
    if m == 2 {
        if is_leap(y) {
            29
        } else {
            28
        }
    } else if m == 4 || m == 6 || m == 9 || m == 11 {
        30
    } else {
        31
    }
}

/// The number of days from 0000-01-01 to the first day of year `y`.
pub open spec fn days_before_year(y: int) -> int
    decreases y,
{
    if y <= 0 {
        0
    } else {
        days_before_year(y - 1) + year_len(y - 1)
    }
}

/// The number of days in year `y` before the first day of month `m`.
pub open spec fn days_before_month(y: int, m: int) -> int
    decreases m,
{
    if m <= 1 {
        0
    } else {
        days_before_month(y, m - 1) + month_len(y, m - 1)
    }
}

/// The number of the day `y-m-d`, counted from 0000-01-01.
pub open spec fn day_number(y: int, m: int, d: int) -> int {
    days_before_year(y) + days_before_month(y, m) + d - 1
}

/// The year that holds the day `z` days after the first day of year `y`,
/// and the index of that day within its year.
pub open spec fn year_and_day(y: int, z: int) -> (int, int)
    decreases z,
{
    if z < year_len(y) {
        (y, z)
    } else {
        year_and_day(y + 1, z - year_len(y))
    }
}

/// The month of year `y`, from month `m` on, that holds the day `r` days
/// after the first day of month `m`, and the day of the month.
pub open spec fn month_and_day(y: int, m: int, r: int) -> (int, int)
    decreases 12 - m,
{
    if m >= 12 || r < month_len(y, m) {
        (m, r + 1)
    } else {
        month_and_day(y, m + 1, r - month_len(y, m))
    }
}

/// The date (year, month, day) of day `z`, counted from 0000-01-01.
pub open spec fn civil_of_day(z: int) -> (int, int, int) {
    let (y, r) = year_and_day(0, z);
    let (m, d) = month_and_day(y, 1, r);
    (y, m, d)
}

fn is_leap_exec(y: u64) -> (r: bool)
    ensures
        r == is_leap(y as int),
{
    (y % 4 == 0 && y % 100 != 0) || y % 400 == 0
}

fn year_len_exec(y: u64) -> (r: u64)
    ensures
        r == year_len(y as int),
{
    if is_leap_exec(y) {
        366
    } else {
        365
    }
}

fn month_len_exec(y: u64, m: u64) -> (r: u64)
    ensures
        r == month_len(y as int, m as int),
{
    if m == 2 {
        if is_leap_exec(y) {
            29
        } else {
            28
        }
    } else if m == 4 || m == 6 || m == 9 || m == 11 {
        30
    } else {
        31
    }
}

fn days_before_year_exec(y: u64) -> (r: u64)
    requires
        y <= 100_000,
    ensures
        r == days_before_year(y as int),
        365 * y <= r <= 366 * y,
{
    let mut i: u64 = 0;
    let mut acc: u64 = 0;
    while i < y
        invariant
            i <= y <= 100_000,
            acc == days_before_year(i as int),
            365 * i <= acc <= 366 * i,
        decreases y - i,
    {
        acc = acc + year_len_exec(i);
        i = i + 1;
    }
    acc
}

fn days_before_month_exec(y: u64, m: u64) -> (r: u64)
    requires
        m <= 13,
    ensures
        r == days_before_month(y as int, m as int),
        r <= 31 * m,
{
    let mut i: u64 = 1;
    let mut acc: u64 = 0;
    if m <= 1 {
        return 0;
    }
    while i < m
        invariant
            1 <= i <= m <= 13,
            acc == days_before_month(y as int, i as int),
            acc <= 31 * i,
        decreases m - i,
    {
        acc = acc + month_len_exec(y, i);
        i = i + 1;
    }
    acc
}

/// The date of day `z`, counted from 0000-01-01.
pub fn civil_of_day_exec(z: u64) -> (r: (u64, u64, u64))
    requires
        z <= 40_000_000,
    ensures
        (r.0 as int, r.1 as int, r.2 as int) == civil_of_day(z as int),
        r.0 <= 110_000,
        1 <= r.1 <= 12,
        1 <= r.2 <= 366,
{
    let mut y: u64 = 0;
    let mut rest: u64 = z;
    let mut len = year_len_exec(y);
    while rest >= len
        invariant
            year_and_day(y as int, rest as int) == year_and_day(0, z as int),
            365 * y + rest <= z <= 40_000_000,
            len == year_len(y as int),
        decreases rest,
    {
        rest = rest - len;
        y = y + 1;
        len = year_len_exec(y);
    }
    let ghost r0 = rest;
    let mut m: u64 = 1;
    let mut mlen = month_len_exec(y, m);
    while m < 12 && rest >= mlen
        invariant
            1 <= m <= 12,
            rest < len,
            len == year_len(y as int),
            mlen == month_len(y as int, m as int),
            month_and_day(y as int, m as int, rest as int) == month_and_day(y as int, 1, r0 as int),
            year_and_day(0, z as int) == (y as int, r0 as int),
            rest <= r0,
        decreases 12 - m,
    {
        rest = rest - mlen;
        m = m + 1;
        mlen = month_len_exec(y, m);
    }
    (y, m, rest + 1)
}

// ---------------------------------------------------------------------------
// Dates and times as text
// ---------------------------------------------------------------------------

/// `n` as two decimal digits.
pub open spec fn two_digits(n: int) -> Seq<char> {
    seq![digit_char(n / 10), digit_char(n % 10)]
}

/// A year as four digits, or as all its digits from 10000 on.
pub open spec fn year_digits(y: int) -> Seq<char> {
    if 0 <= y < 10000 {
        seq![digit_char(y / 1000), digit_char(y / 100 % 10), digit_char(y / 10 % 10), digit_char(y % 10)]
    } else {
        decimal(y as nat)
    }
}

/// The label of an offset from UTC given in seconds: `UTC`, or `UTC` with
/// the signed offset in hours and minutes (`UTC+02:00`).
pub open spec fn offset_label(off: int) -> Seq<char> {
    if off == 0 {
        seq!['U', 'T', 'C']
    } else {
        let a = if off < 0 {
            -off
        } else {
            off
        };
        seq!['U', 'T', 'C', if off < 0 {
            '-'
        } else {
            '+'
        }] + two_digits(a / 3600) + seq![':'] + two_digits(a % 3600 / 60)
    }
}

/// The wall-clock time `t` seconds after 0000-01-01T00:00, written
/// `YYYY-MM-DD HH:MM`, followed by the label of the offset `off` it was
/// taken at.
pub open spec fn clock_text(t: int, off: int) -> Seq<char> {
    let (y, m, d) = civil_of_day(t / 86400);
    let s = t % 86400;
    year_digits(y) + seq!['-'] + two_digits(m) + seq!['-'] + two_digits(d) + seq![' '] + two_digits(
        s / 3600,
    ) + seq![':'] + two_digits(s % 3600 / 60) + seq![' '] + offset_label(off)
}

fn push_two(v: &mut Vec<char>, n: u64)
    requires
        n <= 1_000_000,
    ensures
        final(v)@ == old(v)@ + two_digits(n as int),
{
    v.push(digit_for((n / 10) as usize));
    v.push(digit_for((n % 10) as usize));
}

fn push_all(v: &mut Vec<char>, w: &Vec<char>)
    ensures
        final(v)@ == old(v)@ + w@,
{
    let mut i: usize = 0;
    while i < w.len()
        invariant
            i <= w@.len(),
            v@ == old(v)@ + w@.take(i as int),
        decreases w@.len() - i,
    {
        v.push(w[i]);
        i = i + 1;
        assert(v@ =~= old(v)@ + w@.take(i as int));
    }
    assert(w@.take(i as int) =~= w@);
}

fn push_year(v: &mut Vec<char>, y: u64)
    requires
        y <= 1_000_000,
    ensures
        final(v)@ == old(v)@ + year_digits(y as int),
{
    if y < 10000 {
        v.push(digit_for((y / 1000) as usize));
        v.push(digit_for((y / 100 % 10) as usize));
        v.push(digit_for((y / 10 % 10) as usize));
        v.push(digit_for((y % 10) as usize));
        assert(v@ =~= old(v)@ + year_digits(y as int));
    } else {
        let d = decimal_chars(y as usize);
        push_all(v, &d);
    }
}

fn push_offset_label(v: &mut Vec<char>, off: i32)
    requires
        -86_400 < off < 86_400,
    ensures
        final(v)@ == old(v)@ + offset_label(off as int),
{
    v.push('U');
    v.push('T');
    v.push('C');
    if off == 0 {
        assert(v@ =~= old(v)@ + offset_label(off as int));
        return;
    }
    let a: u64 = if off < 0 {
        (-off) as u64
    } else {
        off as u64
    };
    v.push(if off < 0 {
        '-'
    } else {
        '+'
    });
    push_two(v, a / 3600);
    v.push(':');
    push_two(v, a % 3600 / 60);
    assert(v@ =~= old(v)@ + offset_label(off as int));
}

/// The wall-clock time `t` seconds after 0000-01-01T00:00, with the label
/// of the offset `off` it was taken at.
pub fn clock_text_exec(t: u64, off: i32) -> (r: String)
    requires
        t <= 3_000_000_000_000,
        -86_400 < off < 86_400,
    ensures
        r@ == clock_text(t as int, off as int),
{
    let (y, m, d) = civil_of_day_exec(t / 86400);
    let s = t % 86400;
    let mut v: Vec<char> = Vec::new();
    push_year(&mut v, y);
    v.push('-');
    push_two(&mut v, m);
    v.push('-');
    push_two(&mut v, d);
    v.push(' ');
    push_two(&mut v, s / 3600);
    v.push(':');
    push_two(&mut v, s % 3600 / 60);
    v.push(' ');
    push_offset_label(&mut v, off);
    assert(v@ =~= clock_text(t as int, off as int));
    assert(v@.subrange(0, v@.len() as int) =~= v@);
    string_from_range(&v, 0, v.len())
}

// ---------------------------------------------------------------------------
// ISO 8601 date-times with a zone (`2026-03-11T09:00:00Z`,
// `2026-03-11T09:00:00+02:00`)
// ---------------------------------------------------------------------------

pub open spec fn digit_value(c: char) -> int {
    c as int - '0' as int
}

/// The `n` characters of `s` from `i` on are ASCII digits.
pub open spec fn digits_at(s: Seq<char>, i: int, n: int) -> bool {
    0 <= i && i + n <= s.len() && forall|k: int| i <= k < i + n ==> is_digit(#[trigger] s[k])
}

/// The two-digit number at `i` in `s`.
pub open spec fn num2(s: Seq<char>, i: int) -> int {
    10 * digit_value(s[i]) + digit_value(s[i + 1])
}

/// `s` has the shape `YYYY-MM-DDTHH:MM:SS`, followed by anything.
pub open spec fn iso_shape(s: Seq<char>) -> bool {
    &&& s.len() >= 19
    &&& s[4] == '-' && s[7] == '-' && s[10] == 'T' && s[13] == ':' && s[16] == ':'
    &&& digits_at(s, 0, 4) && digits_at(s, 5, 2) && digits_at(s, 8, 2)
    &&& digits_at(s, 11, 2) && digits_at(s, 14, 2) && digits_at(s, 17, 2)
}

pub open spec fn iso_year(s: Seq<char>) -> int {
    100 * num2(s, 0) + num2(s, 2)
}

/// `s` starts with a real date and time of day, from year 1 on.
pub open spec fn iso_valid(s: Seq<char>) -> bool {
    &&& iso_shape(s)
    &&& 1 <= iso_year(s)
    &&& 1 <= num2(s, 5) <= 12
    &&& 1 <= num2(s, 8) <= month_len(iso_year(s), num2(s, 5))
    &&& num2(s, 11) <= 23 && num2(s, 14) <= 59 && num2(s, 17) <= 59
}

/// The offset from UTC, in seconds, that the zone designator `z` stands
/// for: `Z` (or `z`) for UTC, or a signed `hh:mm`.
pub open spec fn zone_offset(z: Seq<char>) -> Option<int> {
    if z == seq!['Z'] || z == seq!['z'] {
        Some(0)
    } else if z.len() == 6 && (z[0] == '+' || z[0] == '-') && digits_at(z, 1, 2) && z[3] == ':'
        && digits_at(z, 4, 2) && num2(z, 1) <= 23 && num2(z, 4) <= 59 {
        let a = num2(z, 1) * 3600 + num2(z, 4) * 60;
        Some(
            if z[0] == '-' {
                -a
            } else {
                a
            },
        )
    } else {
        None
    }
}

/// `s` is a date and time with a zone.
pub open spec fn is_zoned_time(s: Seq<char>) -> bool {
    iso_valid(s) && zone_offset(s.skip(19)) is Some
}

/// The instant a zoned date and time stands for, in seconds after
/// 0000-01-01T00:00 UTC.
pub open spec fn zoned_instant(s: Seq<char>) -> int {
    day_number(iso_year(s), num2(s, 5), num2(s, 8)) * 86400 + num2(s, 11) * 3600 + num2(s, 14) * 60
        + num2(s, 17) - zone_offset(s.skip(19))->0
}

fn digits_at_exec(s: &Vec<char>, i: usize, n: usize) -> (r: bool)
    requires
        i + n <= s@.len(),
    ensures
        r == digits_at(s@, i as int, n as int),
{
    let _len = s.len();
    let end = i + n;
    let mut k = i;
    while k < end
        invariant
            end == i + n,
            i <= k <= i + n <= s@.len(),
            forall|j: int| i <= j < k ==> is_digit(#[trigger] s@[j]),
        decreases end - k,
    {
        if !('0' <= s[k] && s[k] <= '9') {
            assert(!is_digit(s@[k as int]));
            return false;
        }
        k = k + 1;
    }
    true
}

fn num2_exec(s: &Vec<char>, i: usize) -> (r: u64)
    requires
        digits_at(s@, i as int, 2),
    ensures
        r == num2(s@, i as int),
        r <= 99,
{
    let _len = s.len();
    assert(is_digit(s@[i as int]) && is_digit(s@[i + 1]));
    let a = (s[i] as u32 - '0' as u32) as u64;
    let b = (s[i + 1] as u32 - '0' as u32) as u64;
    10 * a + b
}

fn zone_offset_exec(s: &Vec<char>, from: usize) -> (r: Option<i32>)
    requires
        from <= s@.len(),
    ensures
        r matches Some(o) ==> -86_400 < o < 86_400,
        match r {
            Some(o) => zone_offset(s@.skip(from as int)) == Some(o as int),
            None => zone_offset(s@.skip(from as int)) is None,
        },
{
    let mut z: Vec<char> = Vec::new();
    let mut k = from;
    while k < s.len()
        invariant
            from <= k <= s@.len(),
            z@ == s@.subrange(from as int, k as int),
        decreases s@.len() - k,
    {
        z.push(s[k]);
        k = k + 1;
        assert(z@ =~= s@.subrange(from as int, k as int));
    }
    assert(z@ =~= s@.skip(from as int));
    if z.len() == 1 && (z[0] == 'Z' || z[0] == 'z') {
        assert(z@ =~= seq!['Z'] || z@ =~= seq!['z']);
        return Some(0);
    }
    assert(z@ != seq!['Z'] && z@ != seq!['z']) by {
        if z@ == seq!['Z'] || z@ == seq!['z'] {
            assert(z@.len() == 1);
        }
    }
    if z.len() == 6 && (z[0] == '+' || z[0] == '-') && digits_at_exec(&z, 1, 2) && z[3] == ':'
        && digits_at_exec(&z, 4, 2) {
        let h = num2_exec(&z, 1);
        let m = num2_exec(&z, 4);
        if h <= 23 && m <= 59 {
            let a = (h * 3600 + m * 60) as i32;
            if z[0] == '-' {
                return Some(-a);
            } else {
                return Some(a);
            }
        }
    }
    None
}

/// The instant that `s` stands for, in seconds after 0000-01-01T00:00 UTC,
/// if it is a date and time with a zone.
pub fn zoned_instant_exec(s: &Vec<char>) -> (r: Option<u64>)
    ensures
        r is Some <==> is_zoned_time(s@),
        r matches Some(t) ==> t == zoned_instant(s@) && 365 * 86400 - 86400 <= t <= 317_000_000_000,
{
    if !(s.len() >= 19 && s[4] == '-' && s[7] == '-' && s[10] == 'T' && s[13] == ':' && s[16] == ':'
        && digits_at_exec(s, 0, 4) && digits_at_exec(s, 5, 2) && digits_at_exec(s, 8, 2)
        && digits_at_exec(s, 11, 2) && digits_at_exec(s, 14, 2) && digits_at_exec(s, 17, 2)) {
        return None;
    }
    assert(digits_at(s@, 0, 2) && digits_at(s@, 2, 2));
    let y = 100 * num2_exec(s, 0) + num2_exec(s, 2);
    let mo = num2_exec(s, 5);
    let d = num2_exec(s, 8);
    let h = num2_exec(s, 11);
    let mi = num2_exec(s, 14);
    let sec = num2_exec(s, 17);
    if !(1 <= y && 1 <= mo && mo <= 12 && 1 <= d && d <= month_len_exec(y, mo) && h <= 23 && mi
        <= 59 && sec <= 59) {
        return None;
    }
    let zone = match zone_offset_exec(s, 19) {
        Some(z) => z,
        None => {
            return None;
        },
    };
    let days = days_before_year_exec(y) + days_before_month_exec(y, mo) + d - 1;
    let local = days * 86400 + h * 3600 + mi * 60 + sec;
    let t = if zone < 0 {
        local + ((-zone) as u64)
    } else {
        local - (zone as u64)
    };
    Some(t)
}

// ---------------------------------------------------------------------------
// Laws of the calendar
// ---------------------------------------------------------------------------

proof fn lemma_days_before_year_grows(a: int, y: int)
    requires
        0 <= a <= y,
    ensures
        days_before_year(a) <= days_before_year(y),
    decreases y - a,
{
    if a < y {
        lemma_days_before_year_grows(a, y - 1);
    }
}

proof fn lemma_year_and_day_inverse(a: int, y: int, r: int)
    requires
        0 <= a <= y,
        0 <= r < year_len(y),
    ensures
        year_and_day(a, days_before_year(y) - days_before_year(a) + r) == (y, r),
    decreases y - a,
{
    if a < y {
        lemma_days_before_year_grows(a + 1, y);
        lemma_year_and_day_inverse(a + 1, y, r);
    }
}

proof fn lemma_days_before_month_grows(y: int, a: int, m: int)
    requires
        1 <= a <= m,
    ensures
        days_before_month(y, a) <= days_before_month(y, m),
    decreases m - a,
{
    if a < m {
        lemma_days_before_month_grows(y, a, m - 1);
    }
}

proof fn lemma_month_and_day_inverse(y: int, a: int, m: int, d: int)
    requires
        1 <= a <= m <= 12,
        1 <= d <= month_len(y, m),
    ensures
        month_and_day(y, a, days_before_month(y, m) - days_before_month(y, a) + d - 1) == (m, d),
    decreases m - a,
{
    if a < m {
        lemma_days_before_month_grows(y, a + 1, m);
        lemma_month_and_day_inverse(y, a + 1, m, d);
    }
}

/// Year `y` of the Gregorian calendar is a leap year: divisible by 4, but
/// not by 100 unless by 400.
pub open spec fn gregorian_leap(y: int) -> bool {
    (y % 4 == 0 && y % 100 != 0) || y % 400 == 0
}

/// The days before year `y` are 365 for each year since year 0, plus one
/// for each leap year among them: those divisible by 4, less those by 100,
/// plus those by 400.
pub proof fn law_days_before_year_counts_leap_years(y: int)
    requires
        0 <= y,
    ensures
        days_before_year(y) == 365 * y + (y + 3) / 4 - (y + 99) / 100 + (y + 399) / 400,
    decreases y,
{
    if y > 0 {
        law_days_before_year_counts_leap_years(y - 1);
        let x = y - 1;
        assert((x + 4) / 4 == (x + 3) / 4 + if x % 4 == 0 {
            1int
        } else {
            0int
        }) by (nonlinear_arith)
            requires
                x >= 0,
        ;
        assert((x + 100) / 100 == (x + 99) / 100 + if x % 100 == 0 {
            1int
        } else {
            0int
        }) by (nonlinear_arith)
            requires
                x >= 0,
        ;
        assert((x + 400) / 400 == (x + 399) / 400 + if x % 400 == 0 {
            1int
        } else {
            0int
        }) by (nonlinear_arith)
            requires
                x >= 0,
        ;
    }
}

/// Day 719528 is 1970-01-01, the Unix epoch, and day 584754 is 1601-01-01,
/// where Windows `FILETIME`s start.
pub proof fn law_epochs()
    ensures
        day_number(1970, 1, 1) == 719_528,
        day_number(1601, 1, 1) == 584_754,
        UNIX_EPOCH_INSTANT == day_number(1970, 1, 1) * 86400,
{
    law_days_before_year_counts_leap_years(1970);
    law_days_before_year_counts_leap_years(1601);
}

/// The months of every year have the Gregorian lengths, counted between the
/// first days of consecutive months: January 31 days, February 29 in a leap
/// year and 28 otherwise, March 31, April 30, May 31, June 30, July 31,
/// August 31, September 30, October 31, November 30, December 31.
pub proof fn law_gregorian_month_lengths(y: int)
    requires
        0 <= y,
    ensures
        day_number(y, 2, 1) - day_number(y, 1, 1) == 31,
        day_number(y, 3, 1) - day_number(y, 2, 1) == if gregorian_leap(y) {
            29int
        } else {
            28int
        },
        day_number(y, 4, 1) - day_number(y, 3, 1) == 31,
        day_number(y, 5, 1) - day_number(y, 4, 1) == 30,
        day_number(y, 6, 1) - day_number(y, 5, 1) == 31,
        day_number(y, 7, 1) - day_number(y, 6, 1) == 30,
        day_number(y, 8, 1) - day_number(y, 7, 1) == 31,
        day_number(y, 9, 1) - day_number(y, 8, 1) == 31,
        day_number(y, 10, 1) - day_number(y, 9, 1) == 30,
        day_number(y, 11, 1) - day_number(y, 10, 1) == 31,
        day_number(y, 12, 1) - day_number(y, 11, 1) == 30,
        day_number(y + 1, 1, 1) - day_number(y, 12, 1) == 31,
{
    reveal_with_fuel(days_before_month, 13);
    law_months_fill_the_year(y);
}

/// The day after the last day of a month is the first day of the next
/// month (or of the next year, after December), and every other day is
/// followed by the next day of the same month.
pub proof fn law_next_day(y: int, m: int, d: int)
    requires
        0 <= y,
        1 <= m <= 12,
        1 <= d <= month_len(y, m),
    ensures
        civil_of_day(day_number(y, m, d) + 1) == if d < month_len(y, m) {
            (y, m, d + 1)
        } else if m < 12 {
            (y, m + 1, 1)
        } else {
            (y + 1, 1, 1)
        },
{
    law_months_fill_the_year(y);
    if d < month_len(y, m) {
        law_date_of_day_number(y, m, d + 1);
    } else if m < 12 {
        assert(days_before_month(y, m + 1) == days_before_month(y, m) + month_len(y, m));
        law_date_of_day_number(y, m + 1, 1);
    } else {
        reveal_with_fuel(days_before_month, 13);
        law_date_of_day_number(y + 1, 1, 1);
    }
}

/// The months of a year make up the year.
pub proof fn law_months_fill_the_year(y: int)
    ensures
        days_before_month(y, 13) == year_len(y),
{
    reveal_with_fuel(days_before_month, 13);
}

/// The date of the day numbered `day_number(y, m, d)` is `y-m-d`: counting
/// days and reading them back as dates undo each other.
pub proof fn law_date_of_day_number(y: int, m: int, d: int)
    requires
        0 <= y,
        1 <= m <= 12,
        1 <= d <= month_len(y, m),
    ensures
        civil_of_day(day_number(y, m, d)) == (y, m, d),
{
    let r = days_before_month(y, m) + d - 1;
    law_months_fill_the_year(y);
    lemma_days_before_month_grows(y, m + 1, 13);
    lemma_days_before_month_grows(y, 1, m);
    assert(days_before_month(y, m + 1) == days_before_month(y, m) + month_len(y, m));
    assert(0 <= r < year_len(y));
    lemma_year_and_day_inverse(0, y, r);
    lemma_month_and_day_inverse(y, 1, m, d);
}

proof fn lemma_digit_char_value(c: char)
    requires
        is_digit(c),
    ensures
        digit_char(digit_value(c)) == c,
{
}

proof fn lemma_two_digits_of_num2(s: Seq<char>, i: int)
    requires
        digits_at(s, i, 2),
    ensures
        two_digits(num2(s, i)) == s.subrange(i, i + 2),
{
    let a = digit_value(s[i]);
    let b = digit_value(s[i + 1]);
    assert(is_digit(s[i]) && is_digit(s[i + 1]));
    vstd::arithmetic::div_mod::lemma_fundamental_div_mod_converse(num2(s, i), 10, a, b);
    lemma_digit_char_value(s[i]);
    lemma_digit_char_value(s[i + 1]);
    assert(two_digits(num2(s, i)) =~= s.subrange(i, i + 2));
}

proof fn lemma_year_digits_of_iso_year(s: Seq<char>)
    requires
        digits_at(s, 0, 4),
    ensures
        year_digits(iso_year(s)) == s.take(4),
{
    let a = digit_value(s[0]);
    let b = digit_value(s[1]);
    let c = digit_value(s[2]);
    let e = digit_value(s[3]);
    assert(is_digit(s[0]) && is_digit(s[1]) && is_digit(s[2]) && is_digit(s[3]));
    let y = iso_year(s);
    assert(y == 1000 * a + 100 * b + 10 * c + e);
    vstd::arithmetic::div_mod::lemma_fundamental_div_mod_converse(y, 1000, a, 100 * b + 10 * c + e);
    vstd::arithmetic::div_mod::lemma_fundamental_div_mod_converse(y, 100, 10 * a + b, 10 * c + e);
    vstd::arithmetic::div_mod::lemma_fundamental_div_mod_converse(10 * a + b, 10, a, b);
    vstd::arithmetic::div_mod::lemma_fundamental_div_mod_converse(y, 10, 100 * a + 10 * b + c, e);
    vstd::arithmetic::div_mod::lemma_fundamental_div_mod_converse(
        100 * a + 10 * b + c,
        10,
        10 * a + b,
        c,
    );
    lemma_digit_char_value(s[0]);
    lemma_digit_char_value(s[1]);
    lemma_digit_char_value(s[2]);
    lemma_digit_char_value(s[3]);
    assert(year_digits(y) =~= s.take(4));
}

/// The wall-clock text of the moment `h:mi:sec` of day `y-m-d` (a year
/// below 10000) is the year in four digits, the month and the day in two,
/// the hours and minutes in two each, then the offset's label: `UTC` for
/// no offset, else `UTC`, the sign, and the offset's hours and minutes in
/// two digits each.
pub proof fn law_clock_text_reads_the_date(
    y: int,
    m: int,
    d: int,
    h: int,
    mi: int,
    sec: int,
    off: int,
)
    requires
        0 <= y < 10000,
        1 <= m <= 12,
        1 <= d <= month_len(y, m),
        0 <= h <= 23,
        0 <= mi <= 59,
        0 <= sec <= 59,
        offset_ok(off),
    ensures
        clock_text(day_number(y, m, d) * 86400 + h * 3600 + mi * 60 + sec, off) == seq![
            digit_char(y / 1000),
            digit_char(y / 100 % 10),
            digit_char(y / 10 % 10),
            digit_char(y % 10),
            '-',
            digit_char(m / 10),
            digit_char(m % 10),
            '-',
            digit_char(d / 10),
            digit_char(d % 10),
            ' ',
            digit_char(h / 10),
            digit_char(h % 10),
            ':',
            digit_char(mi / 10),
            digit_char(mi % 10),
            ' ',
        ] + offset_label(off),
        off == 0 ==> offset_label(off) == seq!['U', 'T', 'C'],
        off > 0 ==> offset_label(off) == seq![
            'U',
            'T',
            'C',
            '+',
            digit_char(off / 3600 / 10),
            digit_char(off / 3600 % 10),
            ':',
            digit_char(off % 3600 / 60 / 10),
            digit_char(off % 3600 / 60 % 10),
        ],
        off < 0 ==> offset_label(off) == seq![
            'U',
            'T',
            'C',
            '-',
            digit_char(-off / 3600 / 10),
            digit_char(-off / 3600 % 10),
            ':',
            digit_char(-off % 3600 / 60 / 10),
            digit_char(-off % 3600 / 60 % 10),
        ],
{
    let dn = day_number(y, m, d);
    let tod = h * 3600 + mi * 60 + sec;
    let t = dn * 86400 + tod;
    vstd::arithmetic::div_mod::lemma_fundamental_div_mod_converse(t, 86400, dn, tod);
    vstd::arithmetic::div_mod::lemma_fundamental_div_mod_converse(tod, 3600, h, mi * 60 + sec);
    vstd::arithmetic::div_mod::lemma_fundamental_div_mod_converse(mi * 60 + sec, 60, mi, sec);
    law_date_of_day_number(y, m, d);
    assert(clock_text(t, off) =~= seq![
        digit_char(y / 1000),
        digit_char(y / 100 % 10),
        digit_char(y / 10 % 10),
        digit_char(y % 10),
        '-',
        digit_char(m / 10),
        digit_char(m % 10),
        '-',
        digit_char(d / 10),
        digit_char(d % 10),
        ' ',
        digit_char(h / 10),
        digit_char(h % 10),
        ':',
        digit_char(mi / 10),
        digit_char(mi % 10),
        ' ',
    ] + offset_label(off));
    if off > 0 {
        assert(offset_label(off) =~= seq![
            'U',
            'T',
            'C',
            '+',
            digit_char(off / 3600 / 10),
            digit_char(off / 3600 % 10),
            ':',
            digit_char(off % 3600 / 60 / 10),
            digit_char(off % 3600 / 60 % 10),
        ]);
    }
    if off < 0 {
        assert(offset_label(off) =~= seq![
            'U',
            'T',
            'C',
            '-',
            digit_char(-off / 3600 / 10),
            digit_char(-off / 3600 % 10),
            ':',
            digit_char(-off % 3600 / 60 / 10),
            digit_char(-off % 3600 / 60 % 10),
        ]);
    }
}

/// A zone designator `Z` (or `z`) is UTC, and `+hh:mm` or `-hh:mm` (hours
/// up to 23, minutes up to 59) is that many hours and minutes ahead of or
/// behind UTC.
pub proof fn law_zone_designators(h1: char, h2: char, m1: char, m2: char)
    requires
        is_digit(h1) && is_digit(h2) && is_digit(m1) && is_digit(m2),
        10 * digit_value(h1) + digit_value(h2) <= 23,
        10 * digit_value(m1) + digit_value(m2) <= 59,
    ensures
        zone_offset(seq!['Z']) == Some(0int),
        zone_offset(seq!['z']) == Some(0int),
        zone_offset(seq!['+', h1, h2, ':', m1, m2]) == Some(
            3600 * (10 * digit_value(h1) + digit_value(h2)) + 60 * (10 * digit_value(m1)
                + digit_value(m2)),
        ),
        zone_offset(seq!['-', h1, h2, ':', m1, m2]) == Some(
            -(3600 * (10 * digit_value(h1) + digit_value(h2)) + 60 * (10 * digit_value(m1)
                + digit_value(m2))),
        ),
{
    let p = seq!['+', h1, h2, ':', m1, m2];
    let n = seq!['-', h1, h2, ':', m1, m2];
    assert(p != seq!['Z'] && p != seq!['z']) by {
        assert(p.len() != 1);
    }
    assert(n != seq!['Z'] && n != seq!['z']) by {
        assert(n.len() != 1);
    }
    assert(digits_at(p, 1, 2) && digits_at(p, 4, 2));
    assert(digits_at(n, 1, 2) && digits_at(n, 4, 2));
}

/// The same wall time written with different zones names instants apart by
/// the difference of the zones: an instant plus its zone's offset is the
/// wall time as written.
pub proof fn law_zone_shifts_the_instant(s1: Seq<char>, s2: Seq<char>)
    requires
        is_zoned_time(s1),
        is_zoned_time(s2),
        s1.take(19) == s2.take(19),
    ensures
        zoned_instant(s1) + zone_offset(s1.skip(19))->0 == zoned_instant(s2) + zone_offset(
            s2.skip(19),
        )->0,
{
    assert forall|i: int| 0 <= i < 19 implies s1[i] == s2[i] by {
        assert(s1[i] == s1.take(19)[i]);
        assert(s2[i] == s2.take(19)[i]);
    }
}

/// A date and time with a zone, taken at the offset it was written with,
/// reads as it was written: its date, a space, its hours and minutes, then
/// the label of that offset.
pub proof fn law_written_time_in_its_own_zone(s: Seq<char>)
    requires
        is_zoned_time(s),
    ensures
        clock_text(zoned_instant(s) + zone_offset(s.skip(19))->0, zone_offset(s.skip(19))->0) == s.take(
            10,
        ) + seq![' '] + s.subrange(11, 16) + seq![' '] + offset_label(zone_offset(s.skip(19))->0),
{
    let z = zone_offset(s.skip(19))->0;
    let y = iso_year(s);
    let mo = num2(s, 5);
    let d = num2(s, 8);
    let h = num2(s, 11);
    let mi = num2(s, 14);
    let sec = num2(s, 17);
    let dn = day_number(y, mo, d);
    let tod = h * 3600 + mi * 60 + sec;
    let t = zoned_instant(s) + z;
    assert(t == dn * 86400 + tod);
    vstd::arithmetic::div_mod::lemma_fundamental_div_mod_converse(t, 86400, dn, tod);
    vstd::arithmetic::div_mod::lemma_fundamental_div_mod_converse(tod, 3600, h, mi * 60 + sec);
    vstd::arithmetic::div_mod::lemma_fundamental_div_mod_converse(mi * 60 + sec, 60, mi, sec);
    law_date_of_day_number(y, mo, d);
    lemma_year_digits_of_iso_year(s);
    lemma_two_digits_of_num2(s, 5);
    lemma_two_digits_of_num2(s, 8);
    lemma_two_digits_of_num2(s, 11);
    lemma_two_digits_of_num2(s, 14);
    assert(clock_text(t, z) =~= s.take(10) + seq![' '] + s.subrange(11, 16) + seq![' ']
        + offset_label(z));
}

// ---------------------------------------------------------------------------
// The local time zone
// ---------------------------------------------------------------------------

/// An offset from UTC, in seconds, that a time zone can have: less than a
/// day either way.
pub open spec fn offset_ok(o: int) -> bool {
    -86_400 < o < 86_400
}

/// Seconds from 0000-01-01T00:00 UTC to the Unix epoch, 1970-01-01T00:00 UTC.
pub const UNIX_EPOCH_INSTANT: u64 = 62_167_219_200;

/// `chrono`'s offset of the machine's local time zone from UTC, in seconds,
/// at the instant `unix_seconds` seconds after the Unix epoch: the
/// `local_minus_utc` of `Local.offset_from_utc_datetime`, or `None` where
/// `DateTime::from_timestamp` has no such instant. Which offset comes back
/// depends on the machine's time-zone setting and is left unsaid; it is a
/// `FixedOffset`, which chrono keeps strictly within a day. The instants
/// admitted are those of the years 1 to 9999, give or take a day, where the
/// time-zone rules chrono reads place every instant (it `expect`s them to).
#[verifier::external_body]
fn local_offset_seconds(unix_seconds: i64) -> (r: Option<i32>)
    requires
        -62_200_000_000 <= unix_seconds <= 253_500_000_000,
    ensures
        r matches Some(o) ==> offset_ok(o as int),
{
    match chrono::DateTime::from_timestamp(unix_seconds, 0) {
        Some(utc) => Some(chrono::Local.offset_from_utc_datetime(&utc.naive_utc()).local_minus_utc()),
        None => None,
    }
}

/// The offset of the local time zone from UTC at the instant `t` (seconds
/// after 0000-01-01T00:00 UTC), as the machine's time zone gives it for the
/// years 1 to 9999; UTC (0) outside them, or where the time zone gives none.
pub fn local_offset_at(t: u64) -> (r: i32)
    ensures
        offset_ok(r as int),
{
    if t > 400_000_000_000 {
        return 0;
    }
    let unix: i64 = t as i64 - UNIX_EPOCH_INSTANT as i64;
    if -62_200_000_000 <= unix && unix <= 253_500_000_000 {
        match local_offset_seconds(unix) {
            Some(o) => o,
            None => 0,
        }
    } else {
        0
    }
}

} // verus!
