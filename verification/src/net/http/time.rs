//! Dates and times as the HTTP surface writes them.

use crate::datastore::integer::Integer;
use crate::datastore::pyvalue::{float_finite, float_negative, float_units, units_of, PyNum};
use crate::text::{dec, dec_reads_back, digits_value};
use vstd::arithmetic::power2::pow2;
use vstd::prelude::*;

verus! {

/// A day of the calendar.
#[derive(Debug, Clone, Copy, PartialEq, Eq, Structural)]
pub struct Date {
    pub year: i64,
    /// From one to twelve.
    pub month: i64,
    /// From one.
    pub day: i64,
}

/// Whether a year of the calendar is a leap year.
pub open spec fn leap(y: int) -> bool {
    y % 4 == 0 && (y % 100 != 0 || y % 400 == 0)
}

/// How many days a month has.
pub open spec fn month_length(y: int, m: int) -> int {
    if m == 2 {
        if leap(y) {
            29
        } else {
            28
        }
    } else if m == 4 || m == 6 || m == 9 || m == 11 {
        30
    } else {
        31
    }
}

/// How many days of the year come before a month.
pub open spec fn days_before_month(y: int, m: int) -> int
    decreases m,
{
    if m <= 1 {
        0
    } else {
        days_before_month(y, m - 1) + month_length(y, m - 1)
    }
}

/// How many days come before a year, counted from the first day of year one: a leap day for every
/// fourth year, but not for centuries, unless they are divisible by 400.
pub open spec fn days_before_year(y: int) -> int {
    365 * (y - 1) + (y - 1) / 4 - (y - 1) / 100 + (y - 1) / 400
}

/// The number of a day, counted from the first of January 1970.
pub open spec fn day_number(y: int, m: int, d: int) -> int {
    days_before_year(y) + days_before_month(y, m) + (d - 1) - 719_162
}

/// Whether there is such a day in the calendar.
pub open spec fn valid_date(y: int, m: int, d: int) -> bool {
    1 <= m <= 12 && 1 <= d <= month_length(y, m)
}

/// Whether a date is the day with this number.
pub open spec fn is_day(date: Date, number: int) -> bool {
    &&& valid_date(date.year as int, date.month as int, date.day as int)
    &&& day_number(date.year as int, date.month as int, date.day as int) == number
}

/// What comes before each month, written out.
proof fn months_written_out(y: int)
    ensures
        days_before_month(y, 1) == 0,
        days_before_month(y, 2) == 31,
        ({
            let l: int = if leap(y) {
                1
            } else {
                0
            };
            &&& days_before_month(y, 3) == 59 + l
            &&& days_before_month(y, 4) == 90 + l
            &&& days_before_month(y, 5) == 120 + l
            &&& days_before_month(y, 6) == 151 + l
            &&& days_before_month(y, 7) == 181 + l
            &&& days_before_month(y, 8) == 212 + l
            &&& days_before_month(y, 9) == 243 + l
            &&& days_before_month(y, 10) == 273 + l
            &&& days_before_month(y, 11) == 304 + l
            &&& days_before_month(y, 12) == 334 + l
            &&& days_before_month(y, 13) == 365 + l
        }),
{
    reveal_with_fuel(days_before_month, 14);
}

/// Counting leap years to a year or through it differs by whether it is one.
proof fn leaps_through(y: int)
    ensures
        y / 4 - y / 100 + y / 400 == (y - 1) / 4 - (y - 1) / 100 + (y - 1) / 400 + if leap(y) {
            1int
        } else {
            0
        },
{
    assert(y % 100 == 0 ==> y % 4 == 0);
    assert(y % 400 == 0 ==> y % 100 == 0);
    assert(y / 4 == (y - 1) / 4 + if y % 4 == 0 {
        1int
    } else {
        0
    });
    assert(y / 100 == (y - 1) / 100 + if y % 100 == 0 {
        1int
    } else {
        0
    });
    assert(y / 400 == (y - 1) / 400 + if y % 400 == 0 {
        1int
    } else {
        0
    });
}

/// The year within 400 years that start in March, and the day within that year, from the day
/// within the 400 years.
fn year_of_era(doe: i64) -> (r: (i64, i64))
    requires
        0 <= doe < 146_097,
    ensures
        0 <= r.0 <= 399,
        0 <= r.1 <= 365,
        doe == 365 * r.0 + r.0 as int / 4 - r.0 as int / 100 + r.1,
        r.1 == 365 ==> r.0 == 399 || ((r.0 + 1) % 4 == 0 && (r.0 + 1) % 100 != 0),
{
    let mut century: i64 = doe / 36_524;
    if century > 3 {
        century = 3;
    }
    let in_century: i64 = doe - century * 36_524;
    let mut four: i64 = in_century / 1461;
    if four > 24 {
        four = 24;
    }
    let in_four: i64 = in_century - four * 1461;
    let mut one: i64 = in_four / 365;
    if one > 3 {
        one = 3;
    }
    let doy: i64 = in_four - one * 365;
    let yoe: i64 = 100 * century + 4 * four + one;
    assert(yoe as int / 4 == 25 * century + four);
    assert(yoe as int / 100 == century);
    (yoe, doy)
}

/// The length of a month counted from March; the last one, February, with its leap day.
pub open spec fn march_length(mp: int) -> int {
    if mp == 1 || mp == 3 || mp == 6 || mp == 8 {
        30
    } else if mp == 11 {
        29
    } else {
        31
    }
}

/// The month counted from March, and the day of the month, from the day within a year that starts
/// in March.
fn month_of_year(doy: i64) -> (r: (i64, i64))
    requires
        0 <= doy <= 365,
    ensures
        0 <= r.0 <= 11,
        1 <= r.1 <= march_length(r.0 as int),
        doy == (153 * r.0 + 2) / 5 + r.1 - 1,
{
    let mp: i64 = (5 * doy + 2) / 153;
    let day: i64 = doy - (153 * mp + 2) / 5 + 1;
    (mp, day)
}

/// A day of a year that starts in March is a day of the calendar.
proof fn march_day_is_day(march_year: int, mp: int, day: int, doy: int)
    requires
        0 <= mp <= 11,
        1 <= day <= march_length(mp),
        doy == (153 * mp + 2) / 5 + day - 1,
        doy == 365 ==> leap(march_year + 1),
    ensures
        ({
            let m = if mp < 10 {
                mp + 3
            } else {
                mp - 9
            };
            let y = if mp < 10 {
                march_year
            } else {
                march_year + 1
            };
            &&& valid_date(y, m, day)
            &&& day_number(y, m, day) == 365 * march_year + march_year / 4 - march_year / 100
                + march_year / 400 + doy - 719_468
        }),
{
    months_written_out(march_year);
    months_written_out(march_year + 1);
    leaps_through(march_year);
}

/// The date of the day with this number. Years are counted from March, so that a leap day is the
/// last of its year.
pub fn date_of(number: i64) -> (r: Date)
    requires
        -1_000_000_000_000_000 <= number <= 1_000_000_000_000_000,
    ensures
        is_day(r, number as int),
{
    let z: i64 = number + 719_468;
    let shifted: i64 = z + 146_097 * 10_000_000_000;
    let era: i64 = shifted / 146_097 - 10_000_000_000;
    let doe: i64 = shifted % 146_097;
    let (yoe, doy) = year_of_era(doe);
    let (mp, day) = month_of_year(doy);
    let march_year: i64 = yoe + era * 400;
    proof {
        let y = march_year as int;
        assert(z == 146_097 * era + doe);
        assert(y / 4 == 100 * era + yoe as int / 4);
        assert(y / 100 == 4 * era + yoe as int / 100);
        assert(y / 400 == era);
        assert(doy == 365 ==> leap(y + 1));
        march_day_is_day(y, mp as int, day as int, doy as int);
    }
    if mp < 10 {
        Date { year: march_year, month: mp + 3, day }
    } else {
        Date { year: march_year + 1, month: mp - 9, day }
    }
}

/// A later year starts later.
proof fn years_ascend(a: int, b: int)
    requires
        a <= b,
    ensures
        days_before_year(a) <= days_before_year(b),
        days_before_year(a + 1) == days_before_year(a) + 365 + if leap(a) {
            1int
        } else {
            0
        },
{
    leaps_through(a);
    let x = a - 1;
    let y = b - 1;
    assert(y / 100 - x / 100 <= y - x);
    assert(y / 4 >= x / 4);
    assert(y / 400 >= x / 400);
}

/// A day has one date only.
pub proof fn dates_are_unique(a: Date, b: Date, number: int)
    requires
        is_day(a, number),
        is_day(b, number),
    ensures
        a == b,
{
    months_written_out(a.year as int);
    months_written_out(b.year as int);
    if a.year < b.year {
        years_ascend(a.year + 1, b.year as int);
        years_ascend(a.year as int, a.year as int);
    } else if b.year < a.year {
        years_ascend(b.year + 1, a.year as int);
        years_ascend(b.year as int, b.year as int);
    } else {
        months_part(a.year as int, a.month as int, b.month as int, a.day as int, b.day as int);
    }
}

/// In one year, the month and day are determined by the days before them.
proof fn months_part(y: int, m: int, n: int, d: int, e: int)
    requires
        valid_date(y, m, d),
        valid_date(y, n, e),
        days_before_month(y, m) + d == days_before_month(y, n) + e,
    ensures
        m == n,
        d == e,
{
    months_written_out(y);
}

/// The date of the day with a number.
pub open spec fn date_for(number: int) -> Date {
    choose|d: Date| is_day(d, number)
}

/// Zeros in front of a text up to a width.
pub open spec fn zero_filled(s: Seq<char>, width: nat) -> Seq<char>
    decreases width,
{
    if s.len() >= width {
        s
    } else {
        seq!['0'] + zero_filled(s, (width - 1) as nat)
    }
}

/// A number in decimal with zeros in front up to a width, which counts a minus sign.
pub open spec fn padded(n: int, width: nat) -> Seq<char> {
    if n < 0 {
        seq!['-'] + zero_filled(dec((-n) as nat), (width - 1) as nat)
    } else {
        zero_filled(dec(n as nat), width)
    }
}

/// Appends a number in decimal with zeros in front up to a width.
pub fn push_padded(out: &mut String, n: i64, width: usize)
    requires
        1 <= width <= 8,
        n > i64::MIN,
    ensures
        final(out)@ == old(out)@ + padded(n as int, width as nat),
{
    let mut w: usize = width;
    if n < 0 {
        out.push('-');
        w -= 1;
    }
    let ghost start = out@;
    let size: u64 = if n < 0 {
        (-n) as u64
    } else {
        n as u64
    };
    let digits = crate::text::decimal(size);
    let count: usize = digits.as_str().unicode_len();
    let ghost d = dec(size as nat);
    while w > count
        invariant
            count == d.len(),
            start + zero_filled(d, (if n < 0 {
                width - 1
            } else {
                width as int
            }) as nat) == out@ + zero_filled(d, w as nat),
        decreases w,
    {
        assert(out@ + (seq!['0'] + zero_filled(d, (w - 1) as nat)) =~= out@.push('0')
            + zero_filled(d, (w - 1) as nat));
        out.push('0');
        w -= 1;
    }
    out.append(digits.as_str());
    assert(out@ =~= old(out)@ + padded(n as int, width as nat));
}

/// The time of day as `hh:mm:ss`.
pub open spec fn clock_text(second: int) -> Seq<char> {
    padded(second / 3600, 2) + ":"@ + padded(second % 3600 / 60, 2) + ":"@ + padded(second % 60, 2)
}

fn push_clock(out: &mut String, second: i64)
    requires
        0 <= second < 86_400,
    ensures
        final(out)@ == old(out)@ + clock_text(second as int),
{
    push_padded(out, second / 3600, 2);
    out.append(":");
    push_padded(out, second % 3600 / 60, 2);
    out.append(":");
    push_padded(out, second % 60, 2);
    assert(out@ =~= old(out)@ + clock_text(second as int));
}

/// A time in seconds since the epoch as RFC 3339 writes it.
pub open spec fn rfc3339_text(seconds: int) -> Seq<char> {
    let date = date_for(seconds / 86_400);
    padded(date.year as int, 4) + "-"@ + padded(date.month as int, 2) + "-"@ + padded(
        date.day as int,
        2,
    ) + "T"@ + clock_text(seconds % 86_400) + "Z"@
}

/// A time in seconds since the epoch, such as `2026-08-17T12:00:00Z`.
pub fn rfc3339(seconds: u64) -> (r: String)
    ensures
        r@ == rfc3339_text(seconds as int),
{
    let days: i64 = (seconds / 86_400) as i64;
    let date = known_date(days);
    let mut s = String::new();
    push_padded(&mut s, date.year, 4);
    s.append("-");
    push_padded(&mut s, date.month, 2);
    s.append("-");
    push_padded(&mut s, date.day, 2);
    s.append("T");
    push_clock(&mut s, (seconds % 86_400) as i64);
    s.append("Z");
    assert(s@ =~= rfc3339_text(seconds as int));
    s
}

/// The year of a day is far from the limits of a machine word.
proof fn year_is_small(date: Date, number: int)
    requires
        is_day(date, number),
        -1_000_000_000_000_000 <= number <= 1_000_000_000_000_000,
    ensures
        -10_000_000_000_000 < date.year < 10_000_000_000_000,
{
    months_written_out(date.year as int);
}

/// The whole seconds of a finite time that is not negative, stopped at the largest machine word;
/// any other time is zero.
pub open spec fn whole_seconds(bits: u64) -> u64 {
    if !float_finite(bits) || float_negative(bits) {
        0
    } else {
        let n = float_units(bits) / (pow2(1074) as int);
        if n > u64::MAX {
            u64::MAX
        } else {
            n as u64
        }
    }
}

/// A room's clock is a double of seconds since the epoch. The whole seconds of it; a time that is
/// negative or not finite is the epoch.
pub fn room_time(bits: u64) -> (r: u64)
    ensures
        r == whole_seconds(bits),
{
    if (bits / 0x10_0000_0000_0000) % 2048 == 2047 || bits >= 0x8000_0000_0000_0000 {
        return 0;
    }
    let n = PyNum::Float(bits);
    let whole = units_of(&n).shifted_right(1074);
    proof {
        vstd::arithmetic::power2::lemma_pow2_pos(1074);
        vstd::arithmetic::power2::lemma_pow2_pos(
            crate::datastore::pyvalue::float_scale(bits),
        );
        let m = crate::datastore::pyvalue::float_significand(bits);
        let p = pow2(crate::datastore::pyvalue::float_scale(bits)) as int;
        assert(m * p >= 0) by (nonlinear_arith)
            requires
                m >= 0,
                p > 0,
        ;
        vstd::arithmetic::div_mod::lemma_div_pos_is_pos(float_units(bits), pow2(1074) as int);
    }
    match whole.to_u64() {
        Some(n) => n,
        None => u64::MAX,
    }
}

/// The seconds of a time, cut towards zero and stopped at the limits of a machine word; zero for a
/// time that is no number.
pub open spec fn cut_seconds(bits: u64) -> i64 {
    if !float_finite(bits) {
        if crate::datastore::pyvalue::float_fraction(bits) != 0 {
            0
        } else if float_negative(bits) {
            i64::MIN
        } else {
            i64::MAX
        }
    } else {
        let u = float_units(bits);
        let p = pow2(1074) as int;
        let n = if u < 0 {
            -((-u) / p)
        } else {
            u / p
        };
        if n > i64::MAX {
            i64::MAX
        } else if n < i64::MIN {
            i64::MIN
        } else {
            n as i64
        }
    }
}

fn seconds_of(bits: u64) -> (r: i64)
    ensures
        r == cut_seconds(bits),
{
    if (bits / 0x10_0000_0000_0000) % 2048 == 2047 {
        return if bits % 0x10_0000_0000_0000 != 0 {
            0
        } else if bits >= 0x8000_0000_0000_0000 {
            i64::MIN
        } else {
            i64::MAX
        };
    }
    let units = units_of(&PyNum::Float(bits));
    let whole = if units.is_negative() {
        let minus = Integer::from_i64(-1);
        let cut = minus.times(&units).shifted_right(1074);
        proof {
            assert(-1 * units@ == -units@) by (nonlinear_arith);
            assert(-1 * cut@ == -cut@) by (nonlinear_arith);
        }
        minus.times(&cut)
    } else {
        units.shifted_right(1074)
    };
    match whole.to_i64() {
        Some(n) => n,
        None => if whole.is_negative() {
            i64::MIN
        } else {
            i64::MAX
        },
    }
}

/// The name of a weekday, counted from a Thursday.
pub open spec fn weekday_text(n: int) -> Seq<char> {
    if n == 0 {
        "Thu"@
    } else if n == 1 {
        "Fri"@
    } else if n == 2 {
        "Sat"@
    } else if n == 3 {
        "Sun"@
    } else if n == 4 {
        "Mon"@
    } else if n == 5 {
        "Tue"@
    } else {
        "Wed"@
    }
}

/// The name of a month.
pub open spec fn month_text(m: int) -> Seq<char> {
    if m == 1 {
        "Jan"@
    } else if m == 2 {
        "Feb"@
    } else if m == 3 {
        "Mar"@
    } else if m == 4 {
        "Apr"@
    } else if m == 5 {
        "May"@
    } else if m == 6 {
        "Jun"@
    } else if m == 7 {
        "Jul"@
    } else if m == 8 {
        "Aug"@
    } else if m == 9 {
        "Sep"@
    } else if m == 10 {
        "Oct"@
    } else if m == 11 {
        "Nov"@
    } else {
        "Dec"@
    }
}

/// A time in seconds since the epoch as RFC 1123 writes it. The epoch was a Thursday.
pub open spec fn rfc1123_text(seconds: int) -> Seq<char> {
    let days = seconds / 86_400;
    let date = date_for(days);
    weekday_text(days % 7) + ", "@ + padded(date.day as int, 2) + " "@ + month_text(
        date.month as int,
    ) + " "@ + padded(date.year as int, 4) + " "@ + clock_text(seconds % 86_400) + " GMT"@
}

fn weekday(n: i64) -> (r: &'static str)
    ensures
        r@ == weekday_text(n as int),
{
    if n == 0 {
        "Thu"
    } else if n == 1 {
        "Fri"
    } else if n == 2 {
        "Sat"
    } else if n == 3 {
        "Sun"
    } else if n == 4 {
        "Mon"
    } else if n == 5 {
        "Tue"
    } else {
        "Wed"
    }
}

fn month_name(m: i64) -> (r: &'static str)
    ensures
        r@ == month_text(m as int),
{
    if m == 1 {
        "Jan"
    } else if m == 2 {
        "Feb"
    } else if m == 3 {
        "Mar"
    } else if m == 4 {
        "Apr"
    } else if m == 5 {
        "May"
    } else if m == 6 {
        "Jun"
    } else if m == 7 {
        "Jul"
    } else if m == 8 {
        "Aug"
    } else if m == 9 {
        "Sep"
    } else if m == 10 {
        "Oct"
    } else if m == 11 {
        "Nov"
    } else {
        "Dec"
    }
}

/// A time that is a double of seconds since the epoch, such as `Mon, 17 Aug 2026 18:22:09 GMT`.
pub fn rfc1123(bits: u64) -> (r: String)
    ensures
        r@ == rfc1123_text(cut_seconds(bits) as int),
{
    let secs: i64 = seconds_of(bits);
    let (days, second) = day_and_second(secs);
    let date = known_date(days);
    let mut s = weekday((days + 7_000_000_000_000_000) % 7).to_string();
    s.append(", ");
    push_padded(&mut s, date.day, 2);
    s.append(" ");
    s.append(month_name(date.month));
    s.append(" ");
    push_padded(&mut s, date.year, 4);
    s.append(" ");
    push_clock(&mut s, second);
    s.append(" GMT");
    s
}

/// The day of a time, and the second of the day.
fn day_and_second(secs: i64) -> (r: (i64, i64))
    ensures
        r.0 == secs as int / 86_400,
        r.1 == secs as int % 86_400,
        -1_000_000_000_000_000 <= r.0 <= 1_000_000_000_000_000,
{
    let wide: i128 = secs as i128 + 86_400i128 * 1_000_000_000_000_000;
    ((wide / 86_400 - 1_000_000_000_000_000) as i64, (wide % 86_400) as i64)
}

/// The date of the day with this number.
fn known_date(days: i64) -> (r: Date)
    requires
        -1_000_000_000_000_000 <= days <= 1_000_000_000_000_000,
    ensures
        r == date_for(days as int),
        -10_000_000_000_000 < r.year < 10_000_000_000_000,
        1 <= r.month <= 12,
        1 <= r.day <= 31,
{
    let date = date_of(days);
    proof {
        assert(is_day(date_for(days as int), days as int));
        dates_are_unique(date, date_for(days as int), days as int);
        year_is_small(date, days as int);
    }
    date
}

/// Two digits for a number below a hundred, that read back as it.
proof fn two_digits_read_back(n: int)
    requires
        0 <= n < 100,
    ensures
        padded(n, 2).len() == 2,
        digits_value(padded(n, 2)) == n,
{
    let d = dec(n as nat);
    dec_reads_back(n as nat);
    reveal_with_fuel(dec, 2);
    reveal_with_fuel(zero_filled, 3);
    if d.len() < 2 {
        let p = seq!['0'] + d;
        assert(zero_filled(d, 2) =~= p);
        assert(p.drop_last() =~= seq!['0']);
        assert(p.last() == d.last());
        assert(seq!['0'].drop_last() =~= Seq::<char>::empty());
        assert(d.drop_last() =~= Seq::<char>::empty());
        reveal_with_fuel(digits_value, 3);
    }
}

/// Four digits for a year from 1000 to 9999, that read back as it.
proof fn four_digits_read_back(n: int)
    requires
        1000 <= n <= 9999,
    ensures
        padded(n, 4).len() == 4,
        digits_value(padded(n, 4)) == n,
{
    dec_reads_back(n as nat);
    reveal_with_fuel(dec, 4);
}

/// A clock reads back: hours, minutes and seconds in two digits each, with colons between, that
/// make up the second of the day.
pub proof fn a_clock_reads_back(second: int)
    requires
        0 <= second < 86_400,
    ensures
        ({
            let t = clock_text(second);
            let h = digits_value(t.subrange(0, 2));
            let m = digits_value(t.subrange(3, 5));
            let s = digits_value(t.subrange(6, 8));
            &&& t.len() == 8
            &&& t[2] == ':' && t[5] == ':'
            &&& 0 <= h < 24 && 0 <= m < 60 && 0 <= s < 60
            &&& h * 3600 + m * 60 + s == second
        }),
{
    reveal_strlit(":");
    let h = second / 3600;
    let m = second % 3600 / 60;
    let s = second % 60;
    two_digits_read_back(h);
    two_digits_read_back(m);
    two_digits_read_back(s);
    let t = clock_text(second);
    assert(t.subrange(0, 2) =~= padded(h, 2));
    assert(t.subrange(3, 5) =~= padded(m, 2));
    assert(t.subrange(6, 8) =~= padded(s, 2));
}

/// A time in the form of RFC 3339 reads back: the year, the month and the day are those of the date
/// that the day has, and the clock is that of the second of the day.
pub proof fn rfc3339_reads_back(seconds: int, date: Date)
    requires
        is_day(date, seconds / 86_400),
        1000 <= date.year <= 9999,
    ensures
        ({
            let t = rfc3339_text(seconds);
            &&& t.len() == 20
            &&& digits_value(t.subrange(0, 4)) == date.year
            &&& digits_value(t.subrange(5, 7)) == date.month
            &&& digits_value(t.subrange(8, 10)) == date.day
            &&& t.subrange(11, 19) == clock_text(seconds % 86_400)
            &&& t[4] == '-' && t[7] == '-' && t[10] == 'T' && t[19] == 'Z'
        }),
{
    reveal_strlit("-");
    reveal_strlit("T");
    reveal_strlit("Z");
    dates_are_unique(date, date_for(seconds / 86_400), seconds / 86_400);
    months_written_out(date.year as int);
    four_digits_read_back(date.year as int);
    two_digits_read_back(date.month as int);
    two_digits_read_back(date.day as int);
    a_clock_reads_back(seconds % 86_400);
    let t = rfc3339_text(seconds);
    assert(t.subrange(0, 4) =~= padded(date.year as int, 4));
    assert(t.subrange(5, 7) =~= padded(date.month as int, 2));
    assert(t.subrange(8, 10) =~= padded(date.day as int, 2));
    assert(t.subrange(11, 19) =~= clock_text(seconds % 86_400));
}

/// The months and the weekdays have their names in order: those of the year from January on, those
/// of the week from the Thursday that the epoch was.
pub proof fn months_and_weekdays_come_in_order(m: int, n: int)
    requires
        1 <= m <= 12,
        0 <= n < 7,
    ensures
        month_text(m) == "JanFebMarAprMayJunJulAugSepOctNovDec"@.subrange(3 * (m - 1), 3 * m),
        weekday_text(n) == "ThuFriSatSunMonTueWed"@.subrange(3 * n, 3 * n + 3),
{
    reveal_strlit("JanFebMarAprMayJunJulAugSepOctNovDec");
    reveal_strlit("ThuFriSatSunMonTueWed");
    reveal_strlit("Jan");
    reveal_strlit("Feb");
    reveal_strlit("Mar");
    reveal_strlit("Apr");
    reveal_strlit("May");
    reveal_strlit("Jun");
    reveal_strlit("Jul");
    reveal_strlit("Aug");
    reveal_strlit("Sep");
    reveal_strlit("Oct");
    reveal_strlit("Nov");
    reveal_strlit("Dec");
    reveal_strlit("Thu");
    reveal_strlit("Fri");
    reveal_strlit("Sat");
    reveal_strlit("Sun");
    reveal_strlit("Mon");
    reveal_strlit("Tue");
    reveal_strlit("Wed");
    assert(month_text(m) =~= "JanFebMarAprMayJunJulAugSepOctNovDec"@.subrange(3 * (m - 1), 3 * m));
    assert(weekday_text(n) =~= "ThuFriSatSunMonTueWed"@.subrange(3 * n, 3 * n + 3));
}

/// A time in the form of RFC 1123 reads back: the weekday, the day, the month, the year and the
/// clock stand in that order, each where it always does.
pub proof fn rfc1123_reads_back(seconds: int, date: Date)
    requires
        is_day(date, seconds / 86_400),
        1000 <= date.year <= 9999,
    ensures
        ({
            let t = rfc1123_text(seconds);
            &&& t.len() == 29
            &&& t.subrange(0, 3) == weekday_text(seconds / 86_400 % 7)
            &&& digits_value(t.subrange(5, 7)) == date.day
            &&& t.subrange(8, 11) == month_text(date.month as int)
            &&& digits_value(t.subrange(12, 16)) == date.year
            &&& t.subrange(17, 25) == clock_text(seconds % 86_400)
        }),
{
    reveal_strlit(", ");
    reveal_strlit(" ");
    reveal_strlit(" GMT");
    dates_are_unique(date, date_for(seconds / 86_400), seconds / 86_400);
    months_written_out(date.year as int);
    months_and_weekdays_come_in_order(date.month as int, seconds / 86_400 % 7);
    reveal_strlit("JanFebMarAprMayJunJulAugSepOctNovDec");
    reveal_strlit("ThuFriSatSunMonTueWed");
    four_digits_read_back(date.year as int);
    two_digits_read_back(date.day as int);
    a_clock_reads_back(seconds % 86_400);
    let t = rfc1123_text(seconds);
    assert(weekday_text(seconds / 86_400 % 7).len() == 3);
    assert(month_text(date.month as int).len() == 3);
    assert(t.subrange(0, 3) =~= weekday_text(seconds / 86_400 % 7));
    assert(t.subrange(5, 7) =~= padded(date.day as int, 2));
    assert(t.subrange(8, 11) =~= month_text(date.month as int));
    assert(t.subrange(12, 16) =~= padded(date.year as int, 4));
    assert(t.subrange(17, 25) =~= clock_text(seconds % 86_400));
}

/// Days are numbered one after the other from the epoch on: within a month, from one month to the
/// next, and from one year to the next.
pub proof fn days_follow_each_other(y: int, m: int, d: int)
    requires
        1 <= m <= 12,
    ensures
        day_number(1970, 1, 1) == 0,
        day_number(y, m, d + 1) == day_number(y, m, d) + 1,
        m < 12 ==> day_number(y, m + 1, 1) == day_number(y, m, month_length(y, m)) + 1,
        day_number(y + 1, 1, 1) == day_number(y, 12, 31) + 1,
        day_number(y + 1, 1, 1) - day_number(y, 1, 1) == if y % 4 == 0 && (y % 100 != 0 || y % 400
            == 0) {
            366int
        } else {
            365
        },
{
    months_written_out(y);
    months_written_out(y + 1);
    months_written_out(1970);
    years_ascend(y, y);
    reveal_with_fuel(days_before_month, 13);
}

/// The whole seconds of a time that is neither negative nor past the largest word are those that have
/// passed: the time is at least so many, and less than one more.
pub proof fn whole_seconds_have_passed(bits: u64)
    requires
        float_finite(bits),
        !float_negative(bits),
        float_units(bits) < u64::MAX * pow2(1074),
    ensures
        whole_seconds(bits) * pow2(1074) <= float_units(bits) < (whole_seconds(bits) + 1) * pow2(
            1074,
        ),
{
    let p = pow2(1074) as int;
    let u = float_units(bits);
    vstd::arithmetic::power2::lemma_pow2_pos(1074);
    vstd::arithmetic::power2::lemma_pow2_pos(crate::datastore::pyvalue::float_scale(bits));
    let m = crate::datastore::pyvalue::float_significand(bits);
    let q = pow2(crate::datastore::pyvalue::float_scale(bits)) as int;
    assert(m * q >= 0) by (nonlinear_arith)
        requires
            m >= 0,
            q > 0,
    ;
    vstd::arithmetic::div_mod::lemma_fundamental_div_mod(u, p);
    let n = u / p;
    assert(n * p <= u < (n + 1) * p && 0 <= n && n <= u64::MAX) by (nonlinear_arith)
        requires
            u == p * n + u % p,
            0 <= u % p < p,
            p > 0,
            0 <= u < u64::MAX * p,
    ;
}

/// A time is cut toward the epoch: of a time after it the seconds that have passed, of one before it
/// those that have to pass.
pub proof fn seconds_are_cut_toward_the_epoch(bits: u64)
    requires
        float_finite(bits),
        -(i64::MAX * pow2(1074)) < float_units(bits) < i64::MAX * pow2(1074),
    ensures
        float_units(bits) >= 0 ==> cut_seconds(bits) * pow2(1074) <= float_units(bits) < (
        cut_seconds(bits) + 1) * pow2(1074),
        float_units(bits) < 0 ==> (cut_seconds(bits) - 1) * pow2(1074) < float_units(bits)
            <= cut_seconds(bits) * pow2(1074),
{
    let p = pow2(1074) as int;
    let u = float_units(bits);
    vstd::arithmetic::power2::lemma_pow2_pos(1074);
    vstd::arithmetic::div_mod::lemma_fundamental_div_mod(u, p);
    vstd::arithmetic::div_mod::lemma_fundamental_div_mod(-u, p);
    let n = u / p;
    let k = (-u) / p;
    if u >= 0 {
        assert(n * p <= u < (n + 1) * p && 0 <= n && n <= i64::MAX) by (nonlinear_arith)
            requires
                u == p * n + u % p,
                0 <= u % p < p,
                p > 0,
                0 <= u < i64::MAX * p,
        ;
    } else {
        assert((-k - 1) * p < u <= (-k) * p && 0 <= k && k <= i64::MAX) by (nonlinear_arith)
            requires
                -u == p * k + (-u) % p,
                0 <= (-u) % p < p,
                p > 0,
                0 <= -u < i64::MAX * p,
        ;
    }
}

} // verus!
