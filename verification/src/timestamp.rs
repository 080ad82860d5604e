//! Unix time as a calendar date and a time of day in UTC.
use crate::text;
use vstd::arithmetic::div_mod;
use vstd::prelude::*;

verus! {

/// Whether a year of the Gregorian calendar has a 29th of February.
pub open spec fn is_leap(year: int) -> bool {
    year % 4 == 0 && (year % 100 != 0 || year % 400 == 0)
}

pub open spec fn year_days(year: int) -> int {
    if is_leap(year) {
        366
    } else {
        365
    }
}

pub open spec fn month_days(year: int, month: int) -> int {
    if month == 2 {
        if is_leap(year) {
            29
        } else {
            28
        }
    } else if month == 4 || month == 6 || month == 9 || month == 11 {
        30
    } else {
        31
    }
}

/// Whether a day of that number exists.
pub open spec fn is_date(year: int, month: int, day: int) -> bool {
    1 <= month <= 12 && 1 <= day <= month_days(year, month)
}

/// The days from the first of January of year 1 to that of `year`.
pub open spec fn days_before_year(year: int) -> int {
    365 * (year - 1) + (year - 1) / 4 - (year - 1) / 100 + (year - 1) / 400
}

/// The days of a year that lie before a month.
pub open spec fn days_before_month(year: int, month: int) -> int
    decreases month,
{
    if month <= 1 {
        0
    } else {
        days_before_month(year, month - 1) + month_days(year, month - 1)
    }
}

/// The number of a date, counted from the first of January 1970.
pub open spec fn unix_day(year: int, month: int, day: int) -> int {
    days_before_year(year) - days_before_year(1970) + days_before_month(year, month) + day - 1
}

/// Each year begins as many days after the one before it as that one has.
pub proof fn lemma_years_follow(year: int)
    ensures
        days_before_year(year + 1) == days_before_year(year) + year_days(year),
{
    lemma_next_quotient(year, 4);
    lemma_next_quotient(year, 100);
    lemma_next_quotient(year, 400);
    lemma_leap_cycles(year);
}

/// A quotient grows where its divisor divides the number.
proof fn lemma_next_quotient(n: int, d: int)
    requires
        d > 0,
    ensures
        n / d == (n - 1) / d + (if n % d == 0 {
            1int
        } else {
            0
        }),
{
    div_mod::lemma_fundamental_div_mod(n, d);
    div_mod::lemma_mod_bound(n, d);
    let q = n / d;
    let r = n % d;
    assert(d * q == q * d) by (nonlinear_arith);
    if r == 0 {
        assert((q - 1) * d == q * d - d) by (nonlinear_arith);
        div_mod::lemma_fundamental_div_mod_converse(n - 1, d, q - 1, d - 1);
    } else {
        div_mod::lemma_fundamental_div_mod_converse(n - 1, d, q, r - 1);
    }
}

/// What four hundred divides, one hundred divides; what one hundred divides, four divides.
proof fn lemma_leap_cycles(n: int)
    ensures
        n % 400 == 0 ==> n % 100 == 0,
        n % 100 == 0 ==> n % 4 == 0,
{
    if n % 400 == 0 {
        div_mod::lemma_fundamental_div_mod_converse(n, 100, 4 * (n / 400), 0);
    }
    if n % 100 == 0 {
        div_mod::lemma_fundamental_div_mod_converse(n, 4, 25 * (n / 100), 0);
    }
}

/// A later year does not begin earlier.
pub proof fn lemma_years_grow(a: int, b: int)
    requires
        a <= b,
    ensures
        days_before_year(a) + 365 * (b - a) <= days_before_year(b),
    decreases b - a,
{
    if a < b {
        lemma_years_grow(a, b - 1);
        lemma_years_follow(b - 1);
    }
}

proof fn lemma_days_before_month(year: int, month: int)
    requires
        1 <= month <= 12,
    ensures
        days_before_month(year, month) == (if month == 1 {
            0
        } else if month == 2 {
            31
        } else if month == 3 {
            31 + month_days(year, 2)
        } else if month == 4 {
            62 + month_days(year, 2)
        } else if month == 5 {
            92 + month_days(year, 2)
        } else if month == 6 {
            123 + month_days(year, 2)
        } else if month == 7 {
            153 + month_days(year, 2)
        } else if month == 8 {
            184 + month_days(year, 2)
        } else if month == 9 {
            215 + month_days(year, 2)
        } else if month == 10 {
            245 + month_days(year, 2)
        } else if month == 11 {
            276 + month_days(year, 2)
        } else {
            306 + month_days(year, 2)
        }),
{
    reveal_with_fuel(days_before_month, 13);
}

/// No two dates have one number, and a later date has the greater one.
pub proof fn lemma_unix_day_orders_dates(y1: int, m1: int, d1: int, y2: int, m2: int, d2: int)
    requires
        is_date(y1, m1, d1),
        is_date(y2, m2, d2),
    ensures
        unix_day(y1, m1, d1) == unix_day(y2, m2, d2) <==> y1 == y2 && m1 == m2 && d1 == d2,
        unix_day(y1, m1, d1) < unix_day(y2, m2, d2) <==> y1 < y2 || (y1 == y2 && (m1 < m2 || (m1
            == m2 && d1 < d2))),
{
    lemma_days_before_month(y1, m1);
    lemma_days_before_month(y2, m2);
    if y1 < y2 {
        lemma_years_follow(y1);
        lemma_years_grow(y1 + 1, y2);
    } else if y2 < y1 {
        lemma_years_follow(y2);
        lemma_years_grow(y2 + 1, y1);
    }
}

/// Division that rounds down.
pub(crate) fn floor_div(a: i64, b: i64) -> (q: i64)
    requires
        b > 0,
    ensures
        q == a as int / b as int,
        b * q <= a < b * q + b,
{
    if a >= 0 {
        let q: u64 = (a as u64) / (b as u64);
        proof {
            div_mod::lemma_fundamental_div_mod(a as int, b as int);
            div_mod::lemma_mod_bound(a as int, b as int);
            assert(b * (a as int / b as int) == (b as int) * (q as int));
        }
        q as i64
    } else {
        let n: u64 = (-(a + 1)) as u64;
        let m: u64 = n / (b as u64);
        proof {
            let r: int = n as int % b as int;
            div_mod::lemma_fundamental_div_mod(n as int, b as int);
            div_mod::lemma_mod_bound(n as int, b as int);
            assert((-(m as int) - 1) * b == -(b * m) - b) by (nonlinear_arith);
            div_mod::lemma_fundamental_div_mod_converse(
                a as int,
                b as int,
                -(m as int) - 1,
                b - 1 - r,
            );
            assert(b * (-(m as int) - 1) == (-(m as int) - 1) * b) by (nonlinear_arith);
        }
        -(m as i64) - 1
    }
}

/// A year that begins in March, of the four hundred that repeat: its length, and where it begins.
spec fn march_year_start(y: int) -> int {
    365 * y + y / 4 - y / 100
}

#[verifier::spinoff_prover]
proof fn lemma_year_of_era(doe: int)
    requires
        0 <= doe < 146097,
    ensures
        ({
            let yoe = (doe - doe / 1460 + doe / 36524 - doe / 146096) / 365;
            &&& 0 <= yoe < 400
            &&& march_year_start(yoe) <= doe
            &&& yoe < 399 ==> doe < march_year_start(yoe + 1)
        }),
{
}

/// The month and the day of the month on a day of a year that begins in March.
#[verifier::spinoff_prover]
proof fn lemma_month_of_year(doy: int)
    requires
        0 <= doy <= 365,
    ensures
        ({
            let mp = (5 * doy + 2) / 153;
            let start = (153 * mp + 2) / 5;
            &&& 0 <= mp <= 11
            &&& start <= doy
            &&& start == (if mp == 0 {
                0
            } else if mp == 1 {
                31
            } else if mp == 2 {
                61
            } else if mp == 3 {
                92
            } else if mp == 4 {
                122
            } else if mp == 5 {
                153
            } else if mp == 6 {
                184
            } else if mp == 7 {
                214
            } else if mp == 8 {
                245
            } else if mp == 9 {
                275
            } else if mp == 10 {
                306
            } else {
                337int
            })
            &&& doy - start < (if mp == 1 || mp == 3 || mp == 6 || mp == 8 {
                30
            } else if mp == 11 {
                29
            } else {
                31int
            })
        }),
{
}

/// A date from its day in a year that begins in March.
proof fn lemma_date_of_march_year(march_year: int, doy: int)
    requires
        0 <= doy < 365 + (if is_leap(march_year + 1) {
            1int
        } else {
            0
        }),
    ensures
        ({
            let mp = (5 * doy + 2) / 153;
            let day = doy - (153 * mp + 2) / 5 + 1;
            let month = if mp < 10 {
                mp + 3
            } else {
                mp - 9
            };
            let year = if month <= 2 {
                march_year + 1
            } else {
                march_year
            };
            &&& is_date(year, month, day)
            &&& days_before_year(year) + days_before_month(year, month) + day - 1
                == days_before_year(march_year) + days_before_month(march_year, 3) + doy
        }),
{
    lemma_month_of_year(doy);
    lemma_years_follow(march_year);
    let mp = (5 * doy + 2) / 153;
    let month = if mp < 10 {
        mp + 3
    } else {
        mp - 9
    };
    let year = if month <= 2 {
        march_year + 1
    } else {
        march_year
    };
    lemma_days_before_month(year, month);
    lemma_days_before_month(march_year, 3);
}

/// Where a year that begins in March begins, counted over the repeating four hundred years.
proof fn lemma_march_year_of_era(era: int, yoe: int)
    requires
        0 <= yoe < 400,
    ensures
        days_before_year(yoe + era * 400) + days_before_month(yoe + era * 400, 3)
            == march_year_start(yoe) + 146097 * era - 306,
        is_leap(yoe + era * 400 + 1) <==> (yoe == 399 || ((yoe + 1) % 4 == 0 && (yoe + 1) % 100
            != 0)),
{
    let y = yoe + era * 400;
    lemma_days_before_month(y, 3);
    lemma_years_follow(y);
    lemma_cycles_of_era(era, yoe);
    lemma_cycles_of_era(era, yoe + 1);
    lemma_leap_cycles(yoe + 1);
    lemma_next_quotient(y, 4);
    lemma_next_quotient(y, 100);
    lemma_next_quotient(y, 400);
    lemma_leap_cycles(y);
}

/// Quotients and remainders by the cycles of the calendar, counted over four hundred years.
proof fn lemma_cycles_of_era(era: int, n: int)
    requires
        0 <= n <= 400,
    ensures
        (n + era * 400) / 4 == n / 4 + 100 * era,
        (n + era * 400) % 4 == n % 4,
        (n + era * 400) / 100 == n / 100 + 4 * era,
        (n + era * 400) % 100 == n % 100,
        (n + era * 400) / 400 == n / 400 + era,
        (n + era * 400) % 400 == n % 400,
{
    let y = n + era * 400;
    div_mod::lemma_fundamental_div_mod_converse(y, 4, n / 4 + 100 * era, n % 4);
    div_mod::lemma_fundamental_div_mod_converse(y, 100, n / 100 + 4 * era, n % 100);
    div_mod::lemma_fundamental_div_mod_converse(y, 400, n / 400 + era, n % 400);
}

/// The date of a day that is counted from the first of January 1970.
pub fn civil_from_unix_days(days: i64) -> (date: (i64, u32, u32))
    requires
        days <= i64::MAX - 719468,
    ensures
        is_date(date.0 as int, date.1 as int, date.2 as int),
        unix_day(date.0 as int, date.1 as int, date.2 as int) == days,
{
    let z: i64 = days + 719468;
    let era: i64 = floor_div(z, 146097);
    let doe: u32 = (z - era * 146097) as u32;
    let yoe: u32 = (doe - doe / 1460 + doe / 36524 - doe / 146096) / 365;
    proof {
        lemma_year_of_era(doe as int);
    }
    let doy: u32 = doe - (365 * yoe + yoe / 4 - yoe / 100);
    proof {
        lemma_march_year_of_era(era as int, yoe as int);
        lemma_month_of_year(doy as int);
        lemma_date_of_march_year(yoe + era * 400, doy as int);
    }
    let mp: u32 = (5 * doy + 2) / 153;
    let day: u32 = doy - (153 * mp + 2) / 5 + 1;
    let month: u32 = if mp < 10 {
        mp + 3
    } else {
        mp - 9
    };
    let march_year: i64 = yoe as i64 + era * 400;
    let year: i64 = if month <= 2 {
        march_year + 1
    } else {
        march_year
    };
    (year, month, day)
}

/// A calendar date and a time of day in UTC.
#[derive(Debug, Clone, Copy, PartialEq, Eq)]
pub struct UtcTimestamp {
    pub year: i64,
    pub month: u32,
    pub day: u32,
    pub hour: u32,
    pub minute: u32,
    pub second: u32,
}

impl UtcTimestamp {
    /// Whether there is such a date, and such a time on it.
    pub open spec fn wf(self) -> bool {
        &&& is_date(self.year as int, self.month as int, self.day as int)
        &&& self.hour < 24
        &&& self.minute < 60
        &&& self.second < 60
    }

    /// The seconds from the beginning of 1970 on.
    pub open spec fn unix_seconds(self) -> int {
        unix_day(self.year as int, self.month as int, self.day as int) * 86400 + self.hour * 3600
            + self.minute * 60 + self.second
    }

    /// The moment so many seconds after the beginning of 1970.
    pub fn from_unix_seconds(seconds: i64) -> (r: Self)
        ensures
            r.wf(),
            r.unix_seconds() == seconds,
    {
        let days: i64 = floor_div(seconds, 86400);
        let tod: u32 = (seconds as i128 - days as i128 * 86400) as u32;
        let (year, month, day) = civil_from_unix_days(days);
        UtcTimestamp {
            year,
            month,
            day,
            hour: tod / 3600,
            minute: (tod % 3600) / 60,
            second: tod % 60,
        }
    }

    /// The digits of the moment, from the year to the second, without anything between them.
    pub open spec fn compact_text(self) -> Seq<char> {
        text::zero_padded(self.year as int, 4) + text::zero_padded(self.month as int, 2)
            + text::zero_padded(self.day as int, 2) + text::zero_padded(self.hour as int, 2)
            + text::zero_padded(self.minute as int, 2) + text::zero_padded(self.second as int, 2)
    }

    pub fn compact(self) -> (r: String)
        ensures
            r@ == self.compact_text(),
    {
        let mut r = text::zero_padded_text(self.year, 4);
        r.append(text::zero_padded_text(self.month as i64, 2).as_str());
        r.append(text::zero_padded_text(self.day as i64, 2).as_str());
        r.append(text::zero_padded_text(self.hour as i64, 2).as_str());
        r.append(text::zero_padded_text(self.minute as i64, 2).as_str());
        r.append(text::zero_padded_text(self.second as i64, 2).as_str());
        r
    }

    /// The moment in the form of RFC 3339, with a `Z` for UTC.
    pub open spec fn rfc3339_text(self) -> Seq<char> {
        text::zero_padded(self.year as int, 4) + seq!['-'] + text::zero_padded(self.month as int, 2)
            + seq!['-'] + text::zero_padded(self.day as int, 2) + seq!['T'] + text::zero_padded(
            self.hour as int,
            2,
        ) + seq![':'] + text::zero_padded(self.minute as int, 2) + seq![':'] + text::zero_padded(
            self.second as int,
            2,
        ) + seq!['Z']
    }

    pub fn rfc3339_z(self) -> (r: String)
        ensures
            r@ == self.rfc3339_text(),
    {
        let mut r = text::zero_padded_text(self.year, 4);
        r.push('-');
        r.append(text::zero_padded_text(self.month as i64, 2).as_str());
        r.push('-');
        r.append(text::zero_padded_text(self.day as i64, 2).as_str());
        r.push('T');
        r.append(text::zero_padded_text(self.hour as i64, 2).as_str());
        r.push(':');
        r.append(text::zero_padded_text(self.minute as i64, 2).as_str());
        r.push(':');
        r.append(text::zero_padded_text(self.second as i64, 2).as_str());
        r.push('Z');
        assert(r@ =~= self.rfc3339_text());
        r
    }
}

/// Each moment has one number of seconds, and each number of seconds one moment.
pub proof fn law_one_timestamp_per_second(a: UtcTimestamp, b: UtcTimestamp)
    requires
        a.wf(),
        b.wf(),
    ensures
        a.unix_seconds() == b.unix_seconds() <==> a == b,
{
    lemma_unix_day_orders_dates(
        a.year as int,
        a.month as int,
        a.day as int,
        b.year as int,
        b.month as int,
        b.day as int,
    );
}

proof fn lemma_two_digits(n: int)
    requires
        0 <= n < 100,
    ensures
        text::zero_padded(n, 2) == seq![text::digit(n / 10), text::digit(n % 10)],
{
    reveal_with_fuel(text::decimal, 3);
    assert(text::zero_padded(n, 2) =~= seq![text::digit(n / 10), text::digit(n % 10)]);
}

proof fn lemma_four_digits(n: int)
    requires
        0 <= n < 10000,
    ensures
        text::zero_padded(n, 4) == seq![
            text::digit(n / 1000),
            text::digit(n / 100 % 10),
            text::digit(n / 10 % 10),
            text::digit(n % 10),
        ],
{
    reveal_with_fuel(text::decimal, 5);
    assert(text::zero_padded(n, 4) =~= seq![
        text::digit(n / 1000),
        text::digit(n / 100 % 10),
        text::digit(n / 10 % 10),
        text::digit(n % 10),
    ]);
}

/// Two digits stand for one number.
proof fn lemma_two_digits_differ(m: int, n: int)
    requires
        0 <= m < 100,
        0 <= n < 100,
        text::zero_padded(m, 2) == text::zero_padded(n, 2),
    ensures
        m == n,
{
    lemma_two_digits(m);
    lemma_two_digits(n);
    let s = text::zero_padded(m, 2);
    assert(text::digit_value(s[0]) == m / 10 && text::digit_value(s[0]) == n / 10);
    assert(text::digit_value(s[1]) == m % 10 && text::digit_value(s[1]) == n % 10);
}

/// Four digits stand for one number.
proof fn lemma_four_digits_differ(m: int, n: int)
    requires
        0 <= m < 10000,
        0 <= n < 10000,
        text::zero_padded(m, 4) == text::zero_padded(n, 4),
    ensures
        m == n,
{
    lemma_four_digits(m);
    lemma_four_digits(n);
    let s = text::zero_padded(m, 4);
    assert(text::digit_value(s[0]) == m / 1000 && text::digit_value(s[0]) == n / 1000);
    assert(text::digit_value(s[1]) == m / 100 % 10 && text::digit_value(s[1]) == n / 100 % 10);
    assert(text::digit_value(s[2]) == m / 10 % 10 && text::digit_value(s[2]) == n / 10 % 10);
    assert(text::digit_value(s[3]) == m % 10 && text::digit_value(s[3]) == n % 10);
    lemma_sum_of_digits(m);
    lemma_sum_of_digits(n);
}

/// A number is the sum of its digits in their places.
proof fn lemma_sum_of_digits(n: int)
    requires
        0 <= n < 10000,
    ensures
        n == 1000 * (n / 1000) + 100 * (n / 100 % 10) + 10 * (n / 10 % 10) + n % 10,
{
    lemma_digits_of_pairs(n);
    div_mod::lemma_fundamental_div_mod(n, 100);
    div_mod::lemma_fundamental_div_mod(n / 100, 10);
    div_mod::lemma_fundamental_div_mod(n % 100, 10);
}

/// Where the ends of two equal texts are equally long, they are equal, and so is what is before.
proof fn lemma_same_ends(a: Seq<char>, x: Seq<char>, b: Seq<char>, y: Seq<char>)
    requires
        a + x == b + y,
        x.len() == y.len(),
    ensures
        a == b,
        x == y,
{
    assert((a + x).len() == (b + y).len());
    assert(a =~= (a + x).take(a.len() as int));
    assert(b =~= (b + y).take(b.len() as int));
    assert(x =~= (a + x).skip(a.len() as int));
    assert(y =~= (b + y).skip(b.len() as int));
}

/// In the years from 0 to 9999 the compact text has fourteen characters and names one moment.
pub proof fn law_compact_text_names_one_moment(a: UtcTimestamp, b: UtcTimestamp)
    requires
        a.wf(),
        b.wf(),
        0 <= a.year <= 9999,
        0 <= b.year <= 9999,
    ensures
        a.compact_text().len() == 14,
        a.compact_text() == b.compact_text() <==> a == b,
{
    lemma_piece_lengths(a);
    lemma_piece_lengths(b);
    if a.compact_text() == b.compact_text() {
        let a1 = text::zero_padded(a.year as int, 4);
        let a2 = a1 + text::zero_padded(a.month as int, 2);
        let a3 = a2 + text::zero_padded(a.day as int, 2);
        let a4 = a3 + text::zero_padded(a.hour as int, 2);
        let a5 = a4 + text::zero_padded(a.minute as int, 2);
        let b1 = text::zero_padded(b.year as int, 4);
        let b2 = b1 + text::zero_padded(b.month as int, 2);
        let b3 = b2 + text::zero_padded(b.day as int, 2);
        let b4 = b3 + text::zero_padded(b.hour as int, 2);
        let b5 = b4 + text::zero_padded(b.minute as int, 2);
        lemma_same_ends(
            a5,
            text::zero_padded(a.second as int, 2),
            b5,
            text::zero_padded(b.second as int, 2),
        );
        lemma_same_ends(
            a4,
            text::zero_padded(a.minute as int, 2),
            b4,
            text::zero_padded(b.minute as int, 2),
        );
        lemma_same_ends(
            a3,
            text::zero_padded(a.hour as int, 2),
            b3,
            text::zero_padded(b.hour as int, 2),
        );
        lemma_same_ends(
            a2,
            text::zero_padded(a.day as int, 2),
            b2,
            text::zero_padded(b.day as int, 2),
        );
        lemma_same_ends(
            a1,
            text::zero_padded(a.month as int, 2),
            b1,
            text::zero_padded(b.month as int, 2),
        );
        lemma_four_digits_differ(a.year as int, b.year as int);
        lemma_two_digits_differ(a.month as int, b.month as int);
        lemma_two_digits_differ(a.day as int, b.day as int);
        lemma_two_digits_differ(a.hour as int, b.hour as int);
        lemma_two_digits_differ(a.minute as int, b.minute as int);
        lemma_two_digits_differ(a.second as int, b.second as int);
    }
}

proof fn lemma_piece_lengths(t: UtcTimestamp)
    requires
        t.wf(),
        0 <= t.year <= 9999,
    ensures
        text::zero_padded(t.year as int, 4).len() == 4,
        text::zero_padded(t.month as int, 2).len() == 2,
        text::zero_padded(t.day as int, 2).len() == 2,
        text::zero_padded(t.hour as int, 2).len() == 2,
        text::zero_padded(t.minute as int, 2).len() == 2,
        text::zero_padded(t.second as int, 2).len() == 2,
{
    lemma_four_digits(t.year as int);
    lemma_two_digits(t.month as int);
    lemma_two_digits(t.day as int);
    lemma_two_digits(t.hour as int);
    lemma_two_digits(t.minute as int);
    lemma_two_digits(t.second as int);
}

/// Two digits sort as their numbers.
proof fn lemma_two_digits_sort(m: int, n: int)
    requires
        0 <= m < 100,
        0 <= n < 100,
    ensures
        text::sorts_before(text::zero_padded(m, 2), text::zero_padded(n, 2)) <==> m < n,
{
    lemma_two_digits(m);
    lemma_two_digits(n);
    lemma_digits_sort(m / 10, n / 10);
    lemma_digits_sort(m % 10, n % 10);
    lemma_pair_sorts(
        text::digit(m / 10),
        text::digit(m % 10),
        text::digit(n / 10),
        text::digit(n % 10),
    );
}

proof fn lemma_digits_sort(c: int, d: int)
    requires
        0 <= c < 10,
        0 <= d < 10,
    ensures
        text::digit(c) < text::digit(d) <==> c < d,
        text::digit(c) == text::digit(d) <==> c == d,
{
}

proof fn lemma_pair_sorts(a: char, b: char, c: char, d: char)
    ensures
        text::sorts_before(seq![a, b], seq![c, d]) <==> a < c || (a == c && b < d),
{
    reveal_with_fuel(text::sorts_before, 3);
    assert(seq![a, b].drop_first() =~= seq![b]);
    assert(seq![c, d].drop_first() =~= seq![d]);
    assert(seq![b].drop_first() =~= Seq::empty());
    assert(seq![d].drop_first() =~= Seq::empty());
}

/// Four digits sort as their numbers.
proof fn lemma_four_digits_sort(m: int, n: int)
    requires
        0 <= m < 10000,
        0 <= n < 10000,
    ensures
        text::sorts_before(text::zero_padded(m, 4), text::zero_padded(n, 4)) <==> m < n,
{
    lemma_four_digits_in_pairs(m);
    lemma_four_digits_in_pairs(n);
    lemma_two_digits(m / 100);
    lemma_two_digits(n / 100);
    lemma_two_digits_sort(m / 100, n / 100);
    lemma_two_digits_sort(m % 100, n % 100);
    text::lemma_sorts_by_parts(
        text::zero_padded(m / 100, 2),
        text::zero_padded(m % 100, 2),
        text::zero_padded(n / 100, 2),
        text::zero_padded(n % 100, 2),
    );
    if text::zero_padded(m / 100, 2) == text::zero_padded(n / 100, 2) {
        lemma_two_digits_differ(m / 100, n / 100);
    }
}

proof fn lemma_four_digits_in_pairs(n: int)
    requires
        0 <= n < 10000,
    ensures
        text::zero_padded(n, 4) == text::zero_padded(n / 100, 2) + text::zero_padded(n % 100, 2),
{
    lemma_digits_of_pairs(n);
    lemma_four_digits(n);
    lemma_two_digits(n / 100);
    lemma_two_digits(n % 100);
    assert(text::zero_padded(n, 4) =~= text::zero_padded(n / 100, 2) + text::zero_padded(
        n % 100,
        2,
    ));
}

/// The digits of the two halves of a number are its digits.
proof fn lemma_digits_of_pairs(n: int)
    requires
        0 <= n < 10000,
    ensures
        n / 100 / 10 == n / 1000,
        n % 100 / 10 == n / 10 % 10,
        n % 100 % 10 == n % 10,
{
    let (a, b) = (n / 100, n % 100);
    let (c, d) = (a / 10, a % 10);
    let (e, f) = (b / 10, b % 10);
    div_mod::lemma_fundamental_div_mod(n, 100);
    div_mod::lemma_fundamental_div_mod(a, 10);
    div_mod::lemma_fundamental_div_mod(b, 10);
    div_mod::lemma_fundamental_div_mod_converse(n, 1000, c, 100 * d + b);
    div_mod::lemma_fundamental_div_mod_converse(n, 10, 10 * a + e, f);
    div_mod::lemma_fundamental_div_mod_converse(10 * a + e, 10, a, e);
}

/// What stands before a separator decides, and what stands behind it where that is equal.
proof fn lemma_piece_sorts(p: Seq<char>, q: Seq<char>, separator: char, m: int, n: int)
    requires
        p.len() == q.len(),
        0 <= m < 100,
        0 <= n < 100,
    ensures
        ({
            let a = p + seq![separator] + text::zero_padded(m, 2);
            let b = q + seq![separator] + text::zero_padded(n, 2);
            &&& a.len() == p.len() + 3
            &&& b.len() == p.len() + 3
            &&& text::sorts_before(a, b) <==> text::sorts_before(p, q) || (p == q && m < n)
            &&& a == b <==> p == q && m == n
        }),
{
    let x = text::zero_padded(m, 2);
    let y = text::zero_padded(n, 2);
    let s = seq![separator];
    lemma_two_digits(m);
    lemma_two_digits(n);
    lemma_two_digits_sort(m, n);
    text::lemma_sorts_by_parts(p + s, x, q + s, y);
    text::lemma_sorts_by_parts(p, s, q, s);
    text::lemma_sorts_not_before_itself(s);
    if p + s == q + s {
        lemma_same_ends(p, s, q, s);
    }
    if p + s + x == q + s + y {
        lemma_same_ends(p + s, x, q + s, y);
        lemma_same_ends(p, s, q, s);
        lemma_two_digits_differ(m, n);
    }
}

/// In the years from 0 to 9999 the text of RFC 3339 has twenty characters, and texts sort as the
/// moments follow each other.
pub proof fn law_rfc3339_texts_sort_as_moments(a: UtcTimestamp, b: UtcTimestamp)
    requires
        a.wf(),
        b.wf(),
        0 <= a.year <= 9999,
        0 <= b.year <= 9999,
    ensures
        a.rfc3339_text().len() == 20,
        a.unix_seconds() < b.unix_seconds() <==> text::sorts_before(
            a.rfc3339_text(),
            b.rfc3339_text(),
        ),
{
    let a1 = text::zero_padded(a.year as int, 4);
    let a2 = a1 + seq!['-'] + text::zero_padded(a.month as int, 2);
    let a3 = a2 + seq!['-'] + text::zero_padded(a.day as int, 2);
    let a4 = a3 + seq!['T'] + text::zero_padded(a.hour as int, 2);
    let a5 = a4 + seq![':'] + text::zero_padded(a.minute as int, 2);
    let a6 = a5 + seq![':'] + text::zero_padded(a.second as int, 2);
    let b1 = text::zero_padded(b.year as int, 4);
    let b2 = b1 + seq!['-'] + text::zero_padded(b.month as int, 2);
    let b3 = b2 + seq!['-'] + text::zero_padded(b.day as int, 2);
    let b4 = b3 + seq!['T'] + text::zero_padded(b.hour as int, 2);
    let b5 = b4 + seq![':'] + text::zero_padded(b.minute as int, 2);
    let b6 = b5 + seq![':'] + text::zero_padded(b.second as int, 2);
    lemma_piece_lengths(a);
    lemma_piece_lengths(b);
    lemma_four_digits_sort(a.year as int, b.year as int);
    if a1 == b1 {
        lemma_four_digits_differ(a.year as int, b.year as int);
    }
    lemma_piece_sorts(a1, b1, '-', a.month as int, b.month as int);
    lemma_piece_sorts(a2, b2, '-', a.day as int, b.day as int);
    lemma_piece_sorts(a3, b3, 'T', a.hour as int, b.hour as int);
    lemma_piece_sorts(a4, b4, ':', a.minute as int, b.minute as int);
    lemma_piece_sorts(a5, b5, ':', a.second as int, b.second as int);
    let z = seq!['Z'];
    assert(a.rfc3339_text() == a6 + z);
    assert(b.rfc3339_text() == b6 + z);
    text::lemma_sorts_by_parts(a6, z, b6, z);
    text::lemma_sorts_not_before_itself(z);
    lemma_unix_day_orders_dates(
        a.year as int,
        a.month as int,
        a.day as int,
        b.year as int,
        b.month as int,
        b.day as int,
    );
}

/// Whether a character is none of those that stand between the numbers of a moment.
pub open spec fn is_kept() -> spec_fn(char) -> bool {
    |c: char| c != '-' && c != 'T' && c != ':' && c != 'Z'
}

proof fn lemma_separator_is_dropped(separator: char)
    requires
        !is_kept()(separator),
    ensures
        seq![separator].filter(is_kept()) == Seq::<char>::empty(),
{
    reveal_with_fuel(Seq::filter, 2);
    let s = seq![separator];
    assert(s.drop_last() =~= Seq::empty());
    assert(s.last() == separator);
}

proof fn lemma_kept_digits(p: Seq<char>, kept: Seq<char>, separator: char, n: int)
    requires
        p.filter(is_kept()) == kept,
        !is_kept()(separator),
        0 <= n < 100,
    ensures
        (p + seq![separator] + text::zero_padded(n, 2)).filter(is_kept()) == kept
            + text::zero_padded(n, 2),
{
    let x = text::zero_padded(n, 2);
    let s = seq![separator];
    lemma_two_digits(n);
    Seq::filter_distributes_over_add(p + s, x, is_kept());
    Seq::filter_distributes_over_add(p, s, is_kept());
    lemma_all_kept(x);
    lemma_separator_is_dropped(separator);
    assert(kept + Seq::<char>::empty() =~= kept);
}

proof fn lemma_all_kept(s: Seq<char>)
    requires
        forall|i: int| 0 <= i < s.len() ==> is_kept()(#[trigger] s[i]),
    ensures
        s.filter(is_kept()) == s,
    decreases s.len(),
{
    reveal(Seq::filter);
    if s.len() > 0 {
        let rest = s.drop_last();
        assert forall|i: int| 0 <= i < rest.len() implies is_kept()(#[trigger] rest[i]) by {
            assert(rest[i] == s[i]);
        }
        lemma_all_kept(rest);
        assert(is_kept()(s[s.len() - 1]));
        assert(rest.push(s.last()) =~= s);
    }
}

/// In the years from 0 to 9999 the text of RFC 3339 without what stands between its numbers is the
/// compact text.
pub proof fn law_rfc3339_text_holds_the_compact_text(t: UtcTimestamp)
    requires
        t.wf(),
        0 <= t.year <= 9999,
    ensures
        t.rfc3339_text().filter(is_kept()) == t.compact_text(),
{
    let r1 = text::zero_padded(t.year as int, 4);
    let r2 = r1 + seq!['-'] + text::zero_padded(t.month as int, 2);
    let r3 = r2 + seq!['-'] + text::zero_padded(t.day as int, 2);
    let r4 = r3 + seq!['T'] + text::zero_padded(t.hour as int, 2);
    let r5 = r4 + seq![':'] + text::zero_padded(t.minute as int, 2);
    let r6 = r5 + seq![':'] + text::zero_padded(t.second as int, 2);
    let c2 = r1 + text::zero_padded(t.month as int, 2);
    let c3 = c2 + text::zero_padded(t.day as int, 2);
    let c4 = c3 + text::zero_padded(t.hour as int, 2);
    let c5 = c4 + text::zero_padded(t.minute as int, 2);
    lemma_four_digits(t.year as int);
    lemma_all_kept(r1);
    lemma_kept_digits(r1, r1, '-', t.month as int);
    lemma_kept_digits(r2, c2, '-', t.day as int);
    lemma_kept_digits(r3, c3, 'T', t.hour as int);
    lemma_kept_digits(r4, c4, ':', t.minute as int);
    lemma_kept_digits(r5, c5, ':', t.second as int);
    let z = seq!['Z'];
    assert(t.rfc3339_text() == r6 + z);
    Seq::filter_distributes_over_add(r6, z, is_kept());
    lemma_separator_is_dropped('Z');
    assert(t.compact_text() + Seq::<char>::empty() =~= t.compact_text());
}

// ---------------------------------------------------------------------------
// What dates and times are
// ---------------------------------------------------------------------------
/// Whether a day is the last of its month.
pub open spec fn ends_month(year: int, month: int, day: int) -> bool {
    if month == 2 {
        if year % 4 == 0 && !(year % 100 == 0 && year % 400 != 0) {
            day == 29
        } else {
            day == 28
        }
    } else if month == 4 || month == 6 || month == 9 || month == 11 {
        day == 30
    } else {
        day == 31
    }
}

/// Days are counted from the first of January 1970, and each day is followed by the next: by that
/// of the same month, by the first of the next month or by the first of January.
pub proof fn law_days_follow_each_other(
    days: i64,
    date: (i64, u32, u32),
    next: (i64, u32, u32),
)
    requires
        call_ensures(civil_from_unix_days, (days,), date),
        call_ensures(civil_from_unix_days, ((days + 1) as i64,), next),
        days < i64::MAX,
    ensures
        days == 0 ==> date.0 == 1970 && date.1 == 1 && date.2 == 1,
        1 <= date.1 <= 12 && 1 <= date.2 <= 31,
        !ends_month(date.0 as int, date.1 as int, date.2 as int) ==> next.0 == date.0 && next.1
            == date.1 && next.2 == date.2 + 1,
        ends_month(date.0 as int, date.1 as int, date.2 as int) && date.1 < 12 ==> next.0 == date.0
            && next.1 == date.1 + 1 && next.2 == 1,
        ends_month(date.0 as int, date.1 as int, date.2 as int) && date.1 == 12 ==> next.0
            == date.0 + 1 && next.1 == 1 && next.2 == 1,
{
    let (y, m, d) = (date.0 as int, date.1 as int, date.2 as int);
    let (a, b, c) = (next.0 as int, next.1 as int, next.2 as int);
    lemma_unix_day_orders_dates(y, m, d, 1970, 1, 1);
    if !ends_month(y, m, d) {
        lemma_unix_day_orders_dates(a, b, c, y, m, d + 1);
    } else if m < 12 {
        assert(days_before_month(y, m + 1) == days_before_month(y, m) + month_days(y, m));
        lemma_unix_day_orders_dates(a, b, c, y, m + 1, 1);
    } else {
        lemma_years_follow(y);
        reveal_with_fuel(days_before_month, 13);
        lemma_unix_day_orders_dates(a, b, c, y + 1, 1, 1);
    }
}

/// The date of a moment is that of the days that have passed, and its time what is left of them in
/// hours, minutes and seconds.
pub proof fn law_moment_is_its_date_and_time(
    seconds: i64,
    r: UtcTimestamp,
    date: (i64, u32, u32),
)
    requires
        call_ensures(UtcTimestamp::from_unix_seconds, (seconds,), r),
        call_ensures(civil_from_unix_days, ((seconds as int / 86400) as i64,), date),
    ensures
        r.year == date.0 && r.month == date.1 && r.day == date.2,
        r.hour == (seconds as int / 3600) % 24,
        r.minute == (seconds as int / 60) % 60,
        r.second == seconds as int % 60,
{
    lemma_parts_of_a_day(
        unix_day(r.year as int, r.month as int, r.day as int),
        r.hour as int,
        r.minute as int,
        r.second as int,
        seconds as int,
    );
    lemma_unix_day_orders_dates(
        r.year as int,
        r.month as int,
        r.day as int,
        date.0 as int,
        date.1 as int,
        date.2 as int,
    );
}

proof fn lemma_parts_of_a_day(day: int, hour: int, minute: int, second: int, seconds: int)
    requires
        0 <= hour < 24,
        0 <= minute < 60,
        0 <= second < 60,
        seconds == day * 86400 + hour * 3600 + minute * 60 + second,
    ensures
        seconds / 86400 == day,
        (seconds / 3600) % 24 == hour,
        (seconds / 60) % 60 == minute,
        seconds % 60 == second,
{
    let hours = day * 24 + hour;
    let minutes = hours * 60 + minute;
    div_mod::lemma_fundamental_div_mod_converse(
        seconds,
        86400,
        day,
        hour * 3600 + minute * 60 + second,
    );
    div_mod::lemma_fundamental_div_mod_converse(seconds, 3600, hours, minute * 60 + second);
    div_mod::lemma_fundamental_div_mod_converse(seconds, 60, minutes, second);
    div_mod::lemma_fundamental_div_mod_converse(hours, 24, day, hour);
    div_mod::lemma_fundamental_div_mod_converse(minutes, 60, hours, minute);
}

/// The number that two characters stand for.
pub open spec fn two_read(s: Seq<char>, at: int) -> int {
    (s[at] as int - '0' as int) * 10 + (s[at + 1] as int - '0' as int)
}

/// The text of a moment is read as its parts: the year, the month, the day, the hour, the minute and
/// the second, with what stands between them.
pub proof fn law_texts_are_read_as_their_moment(t: UtcTimestamp, r: String, compact: String)
    requires
        call_ensures(UtcTimestamp::rfc3339_z, (t,), r),
        call_ensures(UtcTimestamp::compact, (t,), compact),
        t.wf(),
        0 <= t.year <= 9999,
    ensures
        r@.len() == 20,
        two_read(r@, 0) * 100 + two_read(r@, 2) == t.year,
        two_read(r@, 5) == t.month,
        two_read(r@, 8) == t.day,
        two_read(r@, 11) == t.hour,
        two_read(r@, 14) == t.minute,
        two_read(r@, 17) == t.second,
        r@[4] == '-' && r@[7] == '-' && r@[10] == 'T' && r@[13] == ':' && r@[16] == ':' && r@[19]
            == 'Z',
        compact@.len() == 14,
        two_read(compact@, 0) * 100 + two_read(compact@, 2) == t.year,
        two_read(compact@, 4) == t.month,
        two_read(compact@, 6) == t.day,
        two_read(compact@, 8) == t.hour,
        two_read(compact@, 10) == t.minute,
        two_read(compact@, 12) == t.second,
{
    lemma_four_digits(t.year as int);
    lemma_two_digits(t.month as int);
    lemma_two_digits(t.day as int);
    lemma_two_digits(t.hour as int);
    lemma_two_digits(t.minute as int);
    lemma_two_digits(t.second as int);
}

} // verus!
