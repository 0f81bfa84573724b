//! What the text of a moment says of its day and of its time.

use vstd::prelude::*;

use crate::time::{
    days_before_month, days_before_year, digit_char, month_is_exact, month_of, moment_supported,
    padded_text, timestamp_text, year_is_exact, year_length, year_of,
};

verus! {

/// How many days a month has.
pub open spec fn days_in(year: int, month: int) -> int {
    if month == 2 {
        if year % 400 == 0 || (year % 4 == 0 && year % 100 != 0) {
            29
        } else {
            28
        }
    } else if month == 4 || month == 6 || month == 9 || month == 11 {
        30
    } else {
        31
    }
}

/// The text holds the decimal digit at the place.
pub open spec fn digit_at(text: Seq<char>, at: int, digit: int) -> bool {
    text[at] as u32 == 48 + digit
}

/// Days are counted from the first of January of the year 1. Each month begins
/// as many days after the one before it as that one has, and each year where the
/// last month of the one before it ends.
pub proof fn days_are_counted_month_by_month(year: int, month: int)
    requires
        1 <= year,
        1 <= month <= 12,
    ensures
        days_before_year(1) == 0,
        days_before_month(year, 1) == 0,
        days_before_month(year, month + 1) == days_before_month(year, month) + days_in(year, month),
        days_before_year(year + 1) == days_before_year(year) + days_before_month(year, 13),
{
    year_length(year);
}

/// A moment is supported exactly if it lies in the years 1 to 9999. Moments are
/// counted from the first of January of 1970.
pub proof fn moments_supported_exactly(micros: i64)
    ensures
        moment_supported(micros) <==> days_before_year(1) * 86400000000 <= micros
            + days_before_year(1970) * 86400000000 < days_before_year(10000) * 86400000000,
{
    assert(days_before_year(1) == 0);
    assert(days_before_year(1970) == 719162);
    assert(days_before_year(10000) == 3652059);
}

proof fn years_are_in_order(a: int, b: int)
    requires
        1 <= a <= b,
    ensures
        days_before_year(a) <= days_before_year(b),
    decreases b - a,
{
    if a < b {
        years_are_in_order(a, b - 1);
        year_length(b - 1);
    }
}

proof fn months_are_in_order(year: int, a: int, b: int)
    requires
        1 <= a <= b <= 13,
    ensures
        days_before_month(year, a) <= days_before_month(year, b),
{
}

/// A day lies in the year and the month whose days it is one of.
proof fn date_is_found(year: int, month: int, in_month: int)
    requires
        1 <= year <= 9999,
        1 <= month <= 12,
        1 <= in_month <= days_in(year, month),
    ensures
        ({
            let in_year = days_before_month(year, month) + in_month - 1;
            let day = days_before_year(year) + in_year;
            &&& 0 <= day < 3652059
            &&& year_of(day, 1) == year
            &&& month_of(year, in_year, 1) == month
        }),
{
    let in_year = days_before_month(year, month) + in_month - 1;
    let day = days_before_year(year) + in_year;
    days_are_counted_month_by_month(year, month);
    months_are_in_order(year, 1, month);
    months_are_in_order(year, month + 1, 13);
    years_are_in_order(1, year);
    years_are_in_order(year + 1, 10000);
    assert(days_before_year(10000) == 3652059);
    year_is_exact(day, 1);
    let found = year_of(day, 1);
    if found < year {
        years_are_in_order(found + 1, year);
    } else if found > year {
        years_are_in_order(year + 1, found);
    }
    month_is_exact(year, in_year, 1);
    let seen = month_of(year, in_year, 1);
    if seen < month {
        months_are_in_order(year, seen + 1, month);
    } else if seen > month {
        months_are_in_order(year, month + 1, seen);
    }
}

proof fn two_digits(n: int)
    requires
        0 <= n < 100,
    ensures
        padded_text(n, 2).len() == 2,
        digit_at(padded_text(n, 2), 0, n / 10),
        digit_at(padded_text(n, 2), 1, n % 10),
{
    reveal_with_fuel(padded_text, 3);
    digit_char(n % 10);
    digit_char(n / 10 % 10);
}

proof fn four_digits(n: int)
    requires
        0 <= n < 10000,
    ensures
        padded_text(n, 4).len() == 4,
        digit_at(padded_text(n, 4), 0, n / 1000),
        digit_at(padded_text(n, 4), 1, n / 100 % 10),
        digit_at(padded_text(n, 4), 2, n / 10 % 10),
        digit_at(padded_text(n, 4), 3, n % 10),
{
    reveal_with_fuel(padded_text, 3);
    two_digits(n / 100);
    let front = padded_text(n / 10, 3);
    assert(n / 10 / 10 == n / 100);
    assert(n / 100 / 10 == n / 1000);
    digit_char(n % 10);
    digit_char(n / 10 % 10);
    assert(front == padded_text(n / 100, 2).push(((48 + n / 10 % 10) as u8) as char));
    assert(padded_text(n, 4) == front.push(((48 + n % 10) as u8) as char));
}

proof fn six_digits(n: int)
    requires
        0 <= n < 1000000,
    ensures
        padded_text(n, 6).len() == 6,
        digit_at(padded_text(n, 6), 0, n / 100000),
        digit_at(padded_text(n, 6), 1, n / 10000 % 10),
        digit_at(padded_text(n, 6), 2, n / 1000 % 10),
        digit_at(padded_text(n, 6), 3, n / 100 % 10),
        digit_at(padded_text(n, 6), 4, n / 10 % 10),
        digit_at(padded_text(n, 6), 5, n % 10),
{
    reveal_with_fuel(padded_text, 3);
    four_digits(n / 100);
    let front = padded_text(n / 10, 5);
    assert(n / 10 / 10 == n / 100);
    assert(n / 100 / 10 == n / 1000);
    assert(n / 100 / 100 == n / 10000);
    assert(n / 100 / 1000 == n / 100000);
    digit_char(n % 10);
    digit_char(n / 10 % 10);
    assert(front == padded_text(n / 100, 4).push(((48 + n / 10 % 10) as u8) as char));
    assert(padded_text(n, 6) == front.push(((48 + n % 10) as u8) as char));
}

proof fn clock_is_found(hour: int, minute: int, second: int, micro: int)
    requires
        0 <= hour < 24,
        0 <= minute < 60,
        0 <= second < 60,
        0 <= micro < 1000000,
    ensures
        ({
            let rest = hour * 3600000000 + minute * 60000000 + second * 1000000 + micro;
            &&& 0 <= rest < 86400000000
            &&& rest / 3600000000 == hour
            &&& rest / 60000000 % 60 == minute
            &&& rest / 1000000 % 60 == second
            &&& rest % 1000000 == micro
        }),
{
    let rest = hour * 3600000000 + minute * 60000000 + second * 1000000 + micro;
    assert(rest / 60000000 == hour * 60 + minute);
    assert(rest / 1000000 == (hour * 60 + minute) * 60 + second);
}

/// A moment is written by the calendar: its year, month and day of the month,
/// and its hour, minute, second and microsecond, each in its own digits.
#[verifier::spinoff_prover]
pub proof fn moments_are_written_by_the_calendar(
    micros: i64,
    year: int,
    month: int,
    in_month: int,
    hour: int,
    minute: int,
    second: int,
    micro: int,
)
    requires
        1 <= year <= 9999,
        1 <= month <= 12,
        1 <= in_month <= days_in(year, month),
        0 <= hour < 24,
        0 <= minute < 60,
        0 <= second < 60,
        0 <= micro < 1000000,
        micros == (days_before_year(year) + days_before_month(year, month) + in_month - 1
            - 719162) * 86400000000 + hour * 3600000000 + minute * 60000000 + second * 1000000
            + micro,
    ensures
        moment_supported(micros),
        ({
            let text = timestamp_text(micros);
            &&& text.len() == 27
            &&& digit_at(text, 0, year / 1000)
            &&& digit_at(text, 1, year / 100 % 10)
            &&& digit_at(text, 2, year / 10 % 10)
            &&& digit_at(text, 3, year % 10)
            &&& text[4] == '-'
            &&& digit_at(text, 5, month / 10)
            &&& digit_at(text, 6, month % 10)
            &&& text[7] == '-'
            &&& digit_at(text, 8, in_month / 10)
            &&& digit_at(text, 9, in_month % 10)
            &&& text[10] == 'T'
            &&& digit_at(text, 11, hour / 10)
            &&& digit_at(text, 12, hour % 10)
            &&& text[13] == ':'
            &&& digit_at(text, 14, minute / 10)
            &&& digit_at(text, 15, minute % 10)
            &&& text[16] == ':'
            &&& digit_at(text, 17, second / 10)
            &&& digit_at(text, 18, second % 10)
            &&& text[19] == '.'
            &&& digit_at(text, 20, micro / 100000)
            &&& digit_at(text, 21, micro / 10000 % 10)
            &&& digit_at(text, 22, micro / 1000 % 10)
            &&& digit_at(text, 23, micro / 100 % 10)
            &&& digit_at(text, 24, micro / 10 % 10)
            &&& digit_at(text, 25, micro % 10)
            &&& text[26] == 'Z'
        }),
{
    let in_year = days_before_month(year, month) + in_month - 1;
    let day = days_before_year(year) + in_year;
    let rest = hour * 3600000000 + minute * 60000000 + second * 1000000 + micro;
    date_is_found(year, month, in_month);
    clock_is_found(hour, minute, second, micro);
    let since = micros as int + 62135596800000000;
    assert(since == day * 86400000000 + rest);
    assert(since / 86400000000 == day);
    assert(since % 86400000000 == rest);
    four_digits(year);
    two_digits(month);
    two_digits(in_month);
    two_digits(hour);
    two_digits(minute);
    two_digits(second);
    six_digits(micro);
    let a = padded_text(year, 4).push('-');
    let b = a + padded_text(month, 2).push('-');
    let c = b + padded_text(in_month, 2).push('T');
    let d = c + padded_text(hour, 2).push(':');
    let e = d + padded_text(minute, 2).push(':');
    let f = e + padded_text(second, 2).push('.');
    assert(timestamp_text(micros) == f + padded_text(micro, 6).push('Z'));
}

} // verus!
