//! Timestamps and durations.

use vstd::prelude::*;

use crate::debug::{is_alternate, tuple_string, tuple_text, write_text};
use crate::decimal::{decimal_string, decimal_text};
use crate::text::same_text;

verus! {

/// A moment between the years 1 and 9999, in microseconds since 1970.
#[derive(Clone, Copy, PartialEq, Eq, PartialOrd, Ord, Hash, Structural)]
pub struct Timestamp {
    micros: i64,
}

/// A moment outside the supported years.
#[derive(Clone, Copy, Debug, PartialEq, Eq, Structural)]
pub struct TimestampError;

/// The moment lies between the years 1 and 9999.
pub open spec fn moment_supported(micros: i64) -> bool {
    -62135596800000000 <= micros <= 253402300799999999
}

/// How many days precede a year, counted from the year 1.
pub open spec fn days_before_year(year: int) -> int {
    365 * (year - 1) + (year - 1) / 4 - (year - 1) / 100 + (year - 1) / 400
}

/// The year is a leap year.
pub open spec fn is_leap(year: int) -> bool {
    year % 4 == 0 && (year % 100 != 0 || year % 400 == 0)
}

/// How many days precede a month of a year. The month after the last counts
/// the whole year.
pub open spec fn days_before_month(year: int, month: int) -> int {
    let leap: int = if is_leap(year) {
        1
    } else {
        0
    };
    if month <= 1 {
        0
    } else if month == 2 {
        31
    } else if month == 3 {
        59 + leap
    } else if month == 4 {
        90 + leap
    } else if month == 5 {
        120 + leap
    } else if month == 6 {
        151 + leap
    } else if month == 7 {
        181 + leap
    } else if month == 8 {
        212 + leap
    } else if month == 9 {
        243 + leap
    } else if month == 10 {
        273 + leap
    } else if month == 11 {
        304 + leap
    } else if month == 12 {
        334 + leap
    } else {
        365 + leap
    }
}

/// The year of a day, looked for from a year on.
pub open spec fn year_of(day: int, from: int) -> int
    decreases 10000 - from,
{
    if from >= 9999 || day < days_before_year(from + 1) {
        from
    } else {
        year_of(day, from + 1)
    }
}

/// The month of a day of a year, looked for from a month on.
pub open spec fn month_of(year: int, day: int, from: int) -> int
    decreases 13 - from,
{
    if from >= 12 || day < days_before_month(year, from + 1) {
        from
    } else {
        month_of(year, day, from + 1)
    }
}

/// A number in so many decimal digits, zeros first.
pub open spec fn padded_text(n: int, width: nat) -> Seq<char>
    decreases width,
{
    if width == 0 {
        Seq::empty()
    } else {
        padded_text(n / 10, (width - 1) as nat).push(((48 + n % 10) as u8) as char)
    }
}

/// The text of a moment in RFC 3339 form, in UTC with microseconds.
pub open spec fn timestamp_text(micros: i64) -> Seq<char> {
    let since = micros as int + 62135596800000000;
    let day = since / 86400000000;
    let rest = since % 86400000000;
    let year = year_of(day, 1);
    let in_year = day - days_before_year(year);
    let month = month_of(year, in_year, 1);
    let in_month = in_year - days_before_month(year, month) + 1;
    padded_text(year, 4).push('-') + padded_text(month, 2).push('-') + padded_text(
        in_month,
        2,
    ).push('T') + padded_text(rest / 3600000000, 2).push(':') + padded_text(
        rest / 60000000 % 60,
        2,
    ).push(':') + padded_text(rest / 1000000 % 60, 2).push('.') + padded_text(
        rest % 1000000,
        6,
    ).push('Z')
}

impl View for Timestamp {
    type V = i64;

    closed spec fn view(&self) -> i64 {
        self.micros
    }
}

fn push_padded(out: &mut String, n: u64, width: usize)
    ensures
        final(out)@ == old(out)@ + padded_text(n as int, width as nat),
    decreases width,
{
    let ghost before = out@;
    if width > 0 {
        push_padded(&mut *out, n / 10, width - 1);
        let digit: u8 = 48 + (n % 10) as u8;
        out.push(digit as char);
    }
    assert(out@ =~= before + padded_text(n as int, width as nat));
}

fn count_days_before_year(year: i64) -> (r: i64)
    requires
        1 <= year <= 10000,
    ensures
        r == days_before_year(year as int),
{
    365 * (year - 1) + (year - 1) / 4 - (year - 1) / 100 + (year - 1) / 400
}

fn count_days_before_month(year: i64, month: i64) -> (r: i64)
    requires
        1 <= year <= 9999,
        1 <= month <= 13,
    ensures
        r == days_before_month(year as int, month as int),
{
    let leap: i64 = if year % 4 == 0 && (year % 100 != 0 || year % 400 == 0) {
        1
    } else {
        0
    };
    if month <= 1 {
        0
    } else if month == 2 {
        31
    } else if month == 3 {
        59 + leap
    } else if month == 4 {
        90 + leap
    } else if month == 5 {
        120 + leap
    } else if month == 6 {
        151 + leap
    } else if month == 7 {
        181 + leap
    } else if month == 8 {
        212 + leap
    } else if month == 9 {
        243 + leap
    } else if month == 10 {
        273 + leap
    } else if month == 11 {
        304 + leap
    } else if month == 12 {
        334 + leap
    } else {
        365 + leap
    }
}

fn find_year(day: i64) -> (r: i64)
    requires
        0 <= day < 3652059,
    ensures
        r == year_of(day as int, 1),
        1 <= r <= 9999,
        days_before_year(r as int) <= day < days_before_year(r + 1),
{
    let mut year: i64 = 1;
    assert(days_before_year(10000) == 3652059);
    while year < 9999 && day >= count_days_before_year(year + 1)
        invariant
            0 <= day < 3652059,
            1 <= year <= 9999,
            days_before_year(10000) == 3652059,
            days_before_year(year as int) <= day,
            year_of(day as int, 1) == year_of(day as int, year as int),
        decreases 9999 - year,
    {
        year = year + 1;
    }
    year
}

fn find_month(year: i64, day: i64) -> (r: i64)
    requires
        1 <= year <= 9999,
        0 <= day < days_before_month(year as int, 13),
    ensures
        r == month_of(year as int, day as int, 1),
        1 <= r <= 12,
        days_before_month(year as int, r as int) <= day < days_before_month(year as int, r + 1),
{
    let mut month: i64 = 1;
    while month < 12 && day >= count_days_before_month(year, month + 1)
        invariant
            1 <= year <= 9999,
            0 <= day < days_before_month(year as int, 13),
            1 <= month <= 12,
            days_before_month(year as int, month as int) <= day,
            month_of(year as int, day as int, 1) == month_of(
                year as int,
                day as int,
                month as int,
            ),
        decreases 12 - month,
    {
        month = month + 1;
    }
    month
}

proof fn fours(year: int)
    requires
        1 <= year,
    ensures
        year / 4 - (year - 1) / 4 == (if year % 4 == 0 {
            1int
        } else {
            0int
        }),
{
}

proof fn hundreds(year: int)
    requires
        1 <= year,
    ensures
        year / 100 - (year - 1) / 100 == (if year % 100 == 0 {
            1int
        } else {
            0int
        }),
        year % 100 == 0 ==> year % 4 == 0,
{
}

proof fn four_hundreds(year: int)
    requires
        1 <= year,
    ensures
        year / 400 - (year - 1) / 400 == (if year % 400 == 0 {
            1int
        } else {
            0int
        }),
        year % 400 == 0 ==> year % 100 == 0,
{
}

#[verifier::spinoff_prover]
pub(crate) proof fn year_length(year: int)
    requires
        1 <= year,
    ensures
        days_before_year(year + 1) - days_before_year(year) == days_before_month(year, 13),
{
    fours(year);
    hundreds(year);
    four_hundreds(year);
}

impl Timestamp {
    /// The moment lies between the years 1 and 9999.
    #[verifier::type_invariant]
    pub open spec fn well_formed(&self) -> bool {
        moment_supported(self@)
    }

    /// A timestamp is its number of microseconds.
    pub broadcast proof fn view_determines(a: Timestamp, b: Timestamp)
        ensures
            #![trigger a.view(), b.view()]
            a.view() == b.view() ==> a == b,
    {
    }

    /// Validates a number of microseconds since 1970.
    pub fn from_unix_micros(micros: i64) -> (r: Result<Timestamp, TimestampError>)
        ensures
            r is Ok <==> moment_supported(micros),
            r matches Ok(timestamp) ==> timestamp@ == micros,
    {
        if micros < -62135596800000000 || micros > 253402300799999999 {
            return Err(TimestampError);
        }
        Ok(Timestamp { micros })
    }

    /// Returns the number of microseconds since 1970.
    pub fn unix_micros(self) -> (r: i64)
        ensures
            r == self@,
            self.well_formed(),
    {
        proof {
            use_type_invariant(&self);
        }
        self.micros
    }

    /// Writes the text in RFC 3339 form.
    pub fn to_string(&self) -> (r: String)
        ensures
            r@ == timestamp_text(self@),
    {
        proof {
            use_type_invariant(self);
        }
        let since: i64 = self.micros + 62135596800000000;
        let day: i64 = since / 86400000000;
        let rest: u64 = (since % 86400000000) as u64;
        let year: i64 = find_year(day);
        proof {
            year_length(year as int);
        }
        let in_year: i64 = day - count_days_before_year(year);
        let month: i64 = find_month(year, in_year);
        let in_month: i64 = in_year - count_days_before_month(year, month) + 1;
        let mut out: String = String::new();
        push_padded(&mut out, year as u64, 4);
        out.push('-');
        push_padded(&mut out, month as u64, 2);
        out.push('-');
        push_padded(&mut out, in_month as u64, 2);
        out.push('T');
        push_padded(&mut out, rest / 3600000000, 2);
        out.push(':');
        push_padded(&mut out, rest / 60000000 % 60, 2);
        out.push(':');
        push_padded(&mut out, rest / 1000000 % 60, 2);
        out.push('.');
        push_padded(&mut out, rest % 1000000, 6);
        out.push('Z');
        assert(out@ =~= timestamp_text(self@));
        out
    }
}

// ---------------------------------------------------------------------------
// Reading
// ---------------------------------------------------------------------------

/// The characters of a field are decimal digits.
pub open spec fn all_digits(text: Seq<char>, from: int, width: nat) -> bool {
    forall|i: int| from <= i < from + width ==> 48 <= (#[trigger] text[i]) as u32 <= 57
}

/// The number that the digits of a field write.
pub open spec fn digits_value(text: Seq<char>, from: int, width: nat) -> int
    decreases width,
{
    if width == 0 {
        0
    } else {
        digits_value(text, from, (width - 1) as nat) * 10 + (text[from + width - 1] as u32 - 48)
    }
}

/// The smallest number with more digits.
pub open spec fn power_of_ten(width: nat) -> int
    decreases width,
{
    if width == 0 {
        1
    } else {
        10 * power_of_ten((width - 1) as nat)
    }
}

pub(crate) proof fn digit_char(n: int)
    requires
        0 <= n < 10,
    ensures
        (((48 + n) as u8) as char) as u32 == 48 + n,
{
    let b: u8 = (48 + n) as u8;
    vstd::utf8::char_u32_cast(b as char, b as u32);
}

proof fn padded_reads_back(n: int, width: nat)
    requires
        0 <= n < power_of_ten(width),
    ensures
        padded_text(n, width).len() == width,
        all_digits(padded_text(n, width), 0, width),
        digits_value(padded_text(n, width), 0, width) == n,
    decreases width,
{
    if width > 0 {
        let w = (width - 1) as nat;
        padded_reads_back(n / 10, w);
        digit_char(n % 10);
        let front = padded_text(n / 10, w);
        let all = padded_text(n, width);
        assert(all == front.push(((48 + n % 10) as u8) as char));
        assert forall|i: int| 0 <= i < width implies 48 <= (#[trigger] all[i]) as u32 <= 57 by {
            if i < w {
                assert(all[i] == front[i]);
            }
        }
        same_digits(all, 0, front, 0, w);
    }
}

proof fn same_digits(a: Seq<char>, from_a: int, b: Seq<char>, from_b: int, width: nat)
    requires
        forall|i: int| 0 <= i < width ==> a[from_a + i] == #[trigger] b[from_b + i],
    ensures
        digits_value(a, from_a, width) == digits_value(b, from_b, width),
    decreases width,
{
    if width > 0 {
        same_digits(a, from_a, b, from_b, (width - 1) as nat);
        assert(a[from_a + (width - 1)] == b[from_b + (width - 1)]);
    }
}

/// The field of the text is the number.
spec fn field_is(text: Seq<char>, from: int, width: nat, n: int) -> bool {
    all_digits(text, from, width) && digits_value(text, from, width) == n
}

proof fn field_reads_back(text: Seq<char>, from: int, width: nat, n: int)
    requires
        0 <= n < power_of_ten(width),
        0 <= from,
        from + width <= text.len(),
        text.subrange(from, from + width) == padded_text(n, width),
    ensures
        field_is(text, from, width, n),
{
    padded_reads_back(n, width);
    let field = text.subrange(from, from + width);
    assert forall|i: int| 0 <= i < width implies text[from + i] == #[trigger] field[0 + i] by {}
    same_digits(text, from, field, 0, width);
    assert forall|i: int| from <= i < from + width implies 48 <= (#[trigger] text[i]) as u32
        <= 57 by {
        assert(field[i - from] == text[i]);
    }
}

pub(crate) proof fn year_is_exact(day: int, from: int)
    requires
        1 <= from <= 9999,
        days_before_year(from) <= day < 3652059,
    ensures
        1 <= year_of(day, from) <= 9999,
        days_before_year(year_of(day, from)) <= day < days_before_year(year_of(day, from) + 1),
    decreases 10000 - from,
{
    assert(days_before_year(10000) == 3652059);
    if from < 9999 && day >= days_before_year(from + 1) {
        year_is_exact(day, from + 1);
    }
}

pub(crate) proof fn month_is_exact(year: int, day: int, from: int)
    requires
        1 <= from <= 12,
        days_before_month(year, from) <= day < days_before_month(year, 13),
    ensures
        1 <= month_of(year, day, from) <= 12,
        days_before_month(year, month_of(year, day, from)) <= day < days_before_month(
            year,
            month_of(year, day, from) + 1,
        ),
    decreases 13 - from,
{
    if from < 12 && day >= days_before_month(year, from + 1) {
        month_is_exact(year, day, from + 1);
    }
}

/// The moment of a date and a time of day.
spec fn moment_of(
    year: int,
    month: int,
    day: int,
    hour: int,
    minute: int,
    second: int,
    micro: int,
) -> int {
    (days_before_year(year) + days_before_month(year, month) + day - 1) * 86400000000 + hour
        * 3600000000 + minute * 60000000 + second * 1000000 + micro - 62135596800000000
}

/// The fields of the text are those of the moment.
spec fn reads_as(text: Seq<char>, micros: i64) -> bool {
    let year = digits_value(text, 0, 4);
    let month = digits_value(text, 5, 2);
    let day = digits_value(text, 8, 2);
    let hour = digits_value(text, 11, 2);
    let minute = digits_value(text, 14, 2);
    let second = digits_value(text, 17, 2);
    let micro = digits_value(text, 20, 6);
    &&& text.len() == 27
    &&& all_digits(text, 0, 4)
    &&& all_digits(text, 5, 2)
    &&& all_digits(text, 8, 2)
    &&& all_digits(text, 11, 2)
    &&& all_digits(text, 14, 2)
    &&& all_digits(text, 17, 2)
    &&& all_digits(text, 20, 6)
    &&& 1 <= year <= 9999
    &&& 1 <= month <= 12
    &&& 1 <= day <= 31
    &&& 0 <= hour <= 23
    &&& 0 <= minute <= 59
    &&& 0 <= second <= 59
    &&& micros == moment_of(year, month, day, hour, minute, second, micro)
}

#[verifier::spinoff_prover]
proof fn clock_fields(rest: int)
    requires
        0 <= rest < 86400000000,
    ensures
        0 <= rest / 3600000000 <= 23,
        0 <= rest / 60000000 % 60 <= 59,
        0 <= rest / 1000000 % 60 <= 59,
        0 <= rest % 1000000 < 1000000,
        rest == rest / 3600000000 * 3600000000 + rest / 60000000 % 60 * 60000000 + rest / 1000000
            % 60 * 1000000 + rest % 1000000,
{
    let seconds = rest / 1000000;
    let minutes = rest / 60000000;
    assert(seconds / 60 == minutes);
    assert(minutes / 60 == rest / 3600000000);
    assert(rest == seconds * 1000000 + rest % 1000000);
    assert(seconds == minutes * 60 + seconds % 60);
    assert(minutes == (rest / 3600000000) * 60 + minutes % 60);
}

#[verifier::spinoff_prover]
proof fn written_moment_reads_as_itself(micros: i64)
    requires
        moment_supported(micros),
    ensures
        reads_as(timestamp_text(micros), micros),
{
    let since = micros as int + 62135596800000000;
    let day = since / 86400000000;
    let rest = since % 86400000000;
    year_is_exact(day, 1);
    let year = year_of(day, 1);
    year_length(year);
    let in_year = day - days_before_year(year);
    month_is_exact(year, in_year, 1);
    let month = month_of(year, in_year, 1);
    let in_month = in_year - days_before_month(year, month) + 1;
    clock_fields(rest);
    let (hour, minute, second, micro) = (
        rest / 3600000000,
        rest / 60000000 % 60,
        rest / 1000000 % 60,
        rest % 1000000,
    );
    reveal_with_fuel(power_of_ten, 7);
    padded_reads_back(year, 4);
    padded_reads_back(month, 2);
    padded_reads_back(in_month, 2);
    padded_reads_back(hour, 2);
    padded_reads_back(minute, 2);
    padded_reads_back(second, 2);
    padded_reads_back(micro, 6);
    let text = timestamp_text(micros);
    assert(text.len() == 27);
    assert(text.subrange(0, 4) =~= padded_text(year, 4));
    assert(text.subrange(5, 7) =~= padded_text(month, 2));
    assert(text.subrange(8, 10) =~= padded_text(in_month, 2));
    assert(text.subrange(11, 13) =~= padded_text(hour, 2));
    assert(text.subrange(14, 16) =~= padded_text(minute, 2));
    assert(text.subrange(17, 19) =~= padded_text(second, 2));
    assert(text.subrange(20, 26) =~= padded_text(micro, 6));
    field_reads_back(text, 0, 4, year);
    field_reads_back(text, 5, 2, month);
    field_reads_back(text, 8, 2, in_month);
    field_reads_back(text, 11, 2, hour);
    field_reads_back(text, 14, 2, minute);
    field_reads_back(text, 17, 2, second);
    field_reads_back(text, 20, 6, micro);
}

/// Reads the digits of a field.
fn read_digits(text: &str, from: usize, width: usize) -> (r: Option<i64>)
    requires
        from + width <= text@.len(),
        width <= 6,
        from <= 27,
    ensures
        match r {
            Some(n) => all_digits(text@, from as int, width as nat) && n == digits_value(
                text@,
                from as int,
                width as nat,
            ) && 0 <= n <= 999999,
            None => !all_digits(text@, from as int, width as nat),
        },
{
    let mut value: i64 = 0;
    let mut i: usize = 0;
    reveal_with_fuel(power_of_ten, 7);
    while i < width
        invariant
            i <= width <= 6,
            from <= 27,
            from + width <= text@.len(),
            all_digits(text@, from as int, i as nat),
            value == digits_value(text@, from as int, i as nat),
            0 <= value < power_of_ten(i as nat),
            power_of_ten(i as nat) <= 1000000,
        decreases width - i,
    {
        let c: char = text.get_char(from + i);
        let n: u32 = c as u32;
        if n < 48 || n > 57 {
            assert(!all_digits(text@, from as int, width as nat)) by {
                assert(text@[from + i] == c);
            }
            return None;
        }
        proof {
            reveal_with_fuel(power_of_ten, 7);
            assert(text@[from + i] == c);
        }
        value = value * 10 + (n - 48) as i64;
        i = i + 1;
    }
    Some(value)
}

impl Timestamp {
    /// Reads the text that [`Timestamp::to_string`] writes, and no other.
    pub fn parse(value: &str) -> (r: Result<Timestamp, TimestampError>)
        ensures
            match r {
                Ok(timestamp) => value@ == timestamp_text(timestamp@),
                Err(_) => forall|micros: i64|
                    moment_supported(micros) ==> value@ != #[trigger] timestamp_text(micros),
            },
    {
        proof {
            assert forall|micros: i64|
                moment_supported(micros) && value@ == #[trigger] timestamp_text(
                    micros,
                ) implies reads_as(value@, micros) by {
                written_moment_reads_as_itself(micros);
            }
        }
        if value.unicode_len() != 27 {
            return Err(TimestampError);
        }
        let (year, month, day, hour, minute, second, micro) = match (
            read_digits(value, 0, 4),
            read_digits(value, 5, 2),
            read_digits(value, 8, 2),
            read_digits(value, 11, 2),
            read_digits(value, 14, 2),
            read_digits(value, 17, 2),
            read_digits(value, 20, 6),
        ) {
            (
                Some(year),
                Some(month),
                Some(day),
                Some(hour),
                Some(minute),
                Some(second),
                Some(micro),
            ) => (year, month, day, hour, minute, second, micro),
            _ => {
                return Err(TimestampError);
            },
        };
        if year < 1 || year > 9999 || month < 1 || month > 12 || day < 1 || day > 31 || hour > 23
            || minute > 59 || second > 59 {
            return Err(TimestampError);
        }
        let days: i64 = count_days_before_year(year) + count_days_before_month(year, month) + day
            - 1;
        let micros: i64 = days * 86400000000 + hour * 3600000000 + minute * 60000000 + second
            * 1000000 + micro - 62135596800000000;
        match Timestamp::from_unix_micros(micros) {
            Ok(timestamp) => {
                if same_text(timestamp.to_string().as_str(), value) {
                    Ok(timestamp)
                } else {
                    Err(TimestampError)
                }
            },
            Err(e) => Err(e),
        }
    }
}

impl core::str::FromStr for Timestamp {
    type Err = TimestampError;

    fn from_str(value: &str) -> (r: Result<Self, Self::Err>)
        ensures
            match r {
                Ok(timestamp) => value@ == timestamp_text(timestamp@),
                Err(_) => forall|micros: i64|
                    moment_supported(micros) ==> value@ != #[trigger] timestamp_text(micros),
            },
    {
        Timestamp::parse(value)
    }
}

/// Two moments with one text are one moment.
pub proof fn timestamp_texts_are_distinct(a: i64, b: i64)
    requires
        moment_supported(a),
        moment_supported(b),
        timestamp_text(a) == timestamp_text(b),
    ensures
        a == b,
{
    written_moment_reads_as_itself(a);
    written_moment_reads_as_itself(b);
}

/// A duration in milliseconds.
#[derive(Clone, Copy, PartialEq, Eq, PartialOrd, Ord, Hash, Structural)]
pub struct DurationMillis {
    millis: u64,
}

/// A duration beyond the storage maximum.
#[derive(Clone, Copy, Debug, PartialEq, Eq, Structural)]
pub struct DurationMillisError;

impl View for DurationMillis {
    type V = u64;

    closed spec fn view(&self) -> u64 {
        self.millis
    }
}

impl DurationMillis {
    /// The number fits a signed 64-bit column.
    #[verifier::type_invariant]
    pub open spec fn well_formed(&self) -> bool {
        self@ <= 9223372036854775807
    }

    /// Validates a number of milliseconds.
    pub fn new(millis: u64) -> (r: Result<DurationMillis, DurationMillisError>)
        ensures
            r is Ok <==> millis <= 9223372036854775807,
            r matches Ok(duration) ==> duration@ == millis,
    {
        if millis > 9223372036854775807 {
            return Err(DurationMillisError);
        }
        Ok(DurationMillis { millis })
    }

    /// Returns the number of milliseconds.
    pub fn get(self) -> (r: u64)
        ensures
            r == self@,
    {
        self.millis
    }

    /// Writes the decimal text.
    pub fn to_string(&self) -> (r: String)
        ensures
            r@ == decimal_text(self@ as nat),
    {
        decimal_string(self.millis)
    }
}

// ---------------------------------------------------------------------------
// Debug output
// ---------------------------------------------------------------------------

impl DurationMillis {
    /// Returns what is shown of it for debugging.
    pub fn debug_text(&self, alternate: bool) -> (r: String)
        ensures
            r@ == tuple_text("DurationMillis"@, decimal_text(self@ as nat), alternate),
    {
        tuple_string("DurationMillis", decimal_string(self.millis), alternate)
    }
}

impl core::fmt::Debug for DurationMillis {
    fn fmt(&self, formatter: &mut core::fmt::Formatter<'_>) -> core::fmt::Result {
        let alternate: bool = is_alternate(formatter);
        write_text(formatter, self.debug_text(alternate).as_str())
    }
}

impl Timestamp {
    /// Returns what is shown of it for debugging.
    pub fn debug_text(&self, alternate: bool) -> (r: String)
        ensures
            r@ == tuple_text("Timestamp"@, timestamp_text(self@), alternate),
    {
        tuple_string("Timestamp", self.to_string(), alternate)
    }
}

impl core::fmt::Debug for Timestamp {
    fn fmt(&self, formatter: &mut core::fmt::Formatter<'_>) -> core::fmt::Result {
        let alternate: bool = is_alternate(formatter);
        write_text(formatter, self.debug_text(alternate).as_str())
    }
}

} // verus!
