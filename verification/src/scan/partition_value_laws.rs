//! What parsing partition values guarantees.

use vstd::prelude::*;
use vstd::utf8::{decode_utf8, encode_utf8_decode_utf8, encode_utf8_valid_utf8, valid_utf8};

use super::partition_values::{
    ascii_lower, date_value, days_before_month, days_before_year, days_in_month, days_since_epoch,
    digit_value, digits_value, integer_value, leap_year, parsed_scalar,
};
use crate::error::ErrorV;
use crate::expressions::scalar::ScalarV;
use crate::schema::{DataTypeV, PrimitiveType};
use crate::text::{decimal, digit, signed_decimal};

verus! {

// ---------------------------------------------------------------------------------------------
// Decimal numbers
// ---------------------------------------------------------------------------------------------

proof fn lemma_digit(d: nat)
    requires
        d < 10,
    ensures
        digit(d).len() == 1,
        '0' <= digit(d)[0] <= '9',
        digit_value(digit(d)[0]) == d,
{
    reveal_strlit("0");
    reveal_strlit("1");
    reveal_strlit("2");
    reveal_strlit("3");
    reveal_strlit("4");
    reveal_strlit("5");
    reveal_strlit("6");
    reveal_strlit("7");
    reveal_strlit("8");
    reveal_strlit("9");
}

/// A number is written in decimal digits, and reading them gives the number again.
pub proof fn decimal_reads_back(n: nat)
    ensures
        decimal(n).len() > 0,
        forall|i: int| 0 <= i < decimal(n).len() ==> '0' <= #[trigger] decimal(n)[i] <= '9',
        digits_value(decimal(n)) == Some(n as int),
    decreases n,
{
    if n < 10 {
        lemma_digit(n);
    } else {
        decimal_reads_back(n / 10);
        lemma_digit(n % 10);
        assert(decimal(n).drop_last() =~= decimal(n / 10));
        assert(decimal(n).last() == digit(n % 10)[0]);
    }
}

/// A number with a sign is read back too, and no two numbers are written alike.
pub proof fn signed_decimal_reads_back(n: int)
    ensures
        integer_value(signed_decimal(n)) == Some(n),
        signed_decimal(n).len() > 0,
        forall|i: int|
            0 <= i < signed_decimal(n).len() ==> '0' <= #[trigger] signed_decimal(n)[i] <= '9'
                || signed_decimal(n)[i] == '-',
{
    reveal_strlit("-");
    if n < 0 {
        decimal_reads_back((-n) as nat);
        assert(signed_decimal(n).skip(1) =~= decimal((-n) as nat));
    } else {
        decimal_reads_back(n as nat);
    }
}

/// Reading one more digit multiplies by ten and adds the digit.
pub proof fn one_more_digit_counts_tenfold(s: Seq<char>, c: char)
    requires
        '0' <= c <= '9',
    ensures
        s.len() == 0 ==> digits_value(s.push(c)) == Some(c as int - 48),
        digits_value(s) matches Some(n) ==> digits_value(s.push(c)) == Some(
            10 * n + (c as int - 48),
        ),
        s.len() > 0 && digits_value(s) is None ==> digits_value(s.push(c)) is None,
{
    assert(s.push(c).drop_last() =~= s);
}

/// A text with anything but digits in it denotes no number, apart from a sign in front.
pub proof fn only_digits_denote_numbers(s: Seq<char>, i: int)
    requires
        0 <= i < s.len(),
        !('0' <= s[i] <= '9'),
    ensures
        digits_value(s) is None,
        i > 0 || (s[i] != '-' && s[i] != '+') ==> integer_value(s) is None,
    decreases s.len(),
{
    if i < s.len() - 1 {
        assert(s.drop_last()[i] == s[i]);
        only_digits_denote_numbers(s.drop_last(), i);
    }
    if i > 0 && (s[0] == '-' || s[0] == '+') {
        assert(s.skip(1)[i - 1] == s[i]);
        only_digits_denote_numbers(s.skip(1), i - 1);
    }
}

// ---------------------------------------------------------------------------------------------
// Values of each type
// ---------------------------------------------------------------------------------------------

/// The text by which the log records a value, for the types that can be parsed. Text and bytes are
/// recorded as they are, NULL as the empty text.
pub open spec fn recorded_text(s: ScalarV) -> Option<Seq<char>> {
    match s {
        ScalarV::Integer(n) => Some(signed_decimal(n as int)),
        ScalarV::Long(n) => Some(signed_decimal(n as int)),
        ScalarV::Short(n) => Some(signed_decimal(n as int)),
        ScalarV::Byte(n) => Some(signed_decimal(n as int)),
        ScalarV::Boolean(b) => Some(
            if b {
                "true"@
            } else {
                "false"@
            },
        ),
        ScalarV::String(text) => if text.len() > 0 {
            Some(text)
        } else {
            None
        },
        ScalarV::Null(DataTypeV::Primitive(_)) => Some(""@),
        _ => None,
    }
}

/// The type of a value that has a recorded text.
pub open spec fn recorded_type(s: ScalarV) -> Option<PrimitiveType> {
    match s {
        ScalarV::Integer(_) => Some(PrimitiveType::Integer),
        ScalarV::Long(_) => Some(PrimitiveType::Long),
        ScalarV::Short(_) => Some(PrimitiveType::Short),
        ScalarV::Byte(_) => Some(PrimitiveType::Byte),
        ScalarV::Boolean(_) => Some(PrimitiveType::Boolean),
        ScalarV::String(_) => Some(PrimitiveType::String),
        ScalarV::Null(DataTypeV::Primitive(t)) => Some(t),
        _ => None,
    }
}

/// Parsing is the inverse of writing: parsing the text by which the log records a value gives that
/// value again.
pub proof fn parsing_inverts_writing(s: ScalarV)
    requires
        recorded_text(s) is Some,
        recorded_type(s) is Some,
    ensures
        parsed_scalar(recorded_type(s)->0, recorded_text(s)->0) == Ok::<_, ErrorV>(s),
{
    reveal_strlit("true");
    reveal_strlit("false");
    reveal_strlit("");
    match s {
        ScalarV::Integer(n) => signed_decimal_reads_back(n as int),
        ScalarV::Long(n) => signed_decimal_reads_back(n as int),
        ScalarV::Short(n) => signed_decimal_reads_back(n as int),
        ScalarV::Byte(n) => signed_decimal_reads_back(n as int),
        ScalarV::Boolean(b) => {
            if !b {
                assert("false"@.len() != "true"@.len());
            }
        },
        _ => {},
    }
}

/// A number that a type cannot hold is not parsed as a value of it.
pub proof fn numbers_must_fit(n: int)
    ensures
        !(-128 <= n <= 127) ==> parsed_scalar(PrimitiveType::Byte, signed_decimal(n)) is Err,
        !(-32768 <= n <= 32767) ==> parsed_scalar(PrimitiveType::Short, signed_decimal(n)) is Err,
        !(-0x8000_0000 <= n <= 0x7fff_ffff) ==> parsed_scalar(
            PrimitiveType::Integer,
            signed_decimal(n),
        ) is Err,
        !(-0x8000_0000_0000_0000 <= n <= 0x7fff_ffff_ffff_ffff) ==> parsed_scalar(
            PrimitiveType::Long,
            signed_decimal(n),
        ) is Err,
{
    signed_decimal_reads_back(n);
}

/// Booleans are parsed whatever the case of their letters, and nothing else is a boolean.
pub proof fn booleans_ignore_case(raw: Seq<char>)
    ensures
        ({
            let parsed = parsed_scalar(PrimitiveType::Boolean, raw);
            let is_true = raw.len() == 4 && (raw[0] == 't' || raw[0] == 'T') && (raw[1] == 'r'
                || raw[1] == 'R') && (raw[2] == 'u' || raw[2] == 'U') && (raw[3] == 'e' || raw[3]
                == 'E');
            let is_false = raw.len() == 5 && (raw[0] == 'f' || raw[0] == 'F') && (raw[1] == 'a'
                || raw[1] == 'A') && (raw[2] == 'l' || raw[2] == 'L') && (raw[3] == 's' || raw[3]
                == 'S') && (raw[4] == 'e' || raw[4] == 'E');
            &&& parsed == Ok::<_, ErrorV>(ScalarV::Boolean(true)) <==> is_true
            &&& parsed == Ok::<_, ErrorV>(ScalarV::Boolean(false)) <==> is_false
            &&& parsed is Err <==> raw.len() > 0 && !is_true && !is_false
        }),
{
    reveal_strlit("true");
    reveal_strlit("false");
    if raw.len() == 4 {
        lemma_lower(raw[0], 't');
        lemma_lower(raw[1], 'r');
        lemma_lower(raw[2], 'u');
        lemma_lower(raw[3], 'e');
    }
    if raw.len() == 5 {
        lemma_lower(raw[0], 'f');
        lemma_lower(raw[1], 'a');
        lemma_lower(raw[2], 'l');
        lemma_lower(raw[3], 's');
        lemma_lower(raw[4], 'e');
    }
}

proof fn lemma_lower(c: char, letter: char)
    requires
        'a' <= letter <= 'z',
    ensures
        ascii_lower(c) == ascii_lower(letter) <==> c == letter || c as u32 == (letter as u32 - 32),
{
}

/// Bytes are those of the text: decoding them gives the text again.
pub proof fn bytes_are_those_of_the_text(raw: Seq<char>)
    requires
        raw.len() > 0,
    ensures
        parsed_scalar(PrimitiveType::Binary, raw) matches Ok(ScalarV::Binary(bytes))
            && valid_utf8(bytes) && decode_utf8(bytes) == raw,
{
    broadcast use {encode_utf8_valid_utf8, encode_utf8_decode_utf8};

}

/// A value that is parsed is one of the type that was asked for.
pub proof fn parsed_values_have_the_type(t: PrimitiveType, raw: Seq<char>)
    ensures
        parsed_scalar(t, raw) matches Ok(s) ==> s.data_type() == DataTypeV::Primitive(t),
        parsed_scalar(t, raw) matches Ok(s) ==> (s.is_null() <==> raw.len() == 0),
{
}

// ---------------------------------------------------------------------------------------------
// Dates
// ---------------------------------------------------------------------------------------------

/// A number below 100 in two digits.
pub open spec fn two_digits(n: int) -> Seq<char> {
    digit((n / 10) as nat) + digit((n % 10) as nat)
}

/// A date as the log records it.
pub open spec fn date_text(year: int, month: int, day: int) -> Seq<char> {
    two_digits(year / 100) + two_digits(year % 100) + seq!['-'] + two_digits(month) + seq!['-']
        + two_digits(day)
}

/// How many days the months of a year have.
pub open spec fn month_lengths(year: int) -> Seq<int> {
    let february = if year % 400 == 0 {
        29int
    } else if year % 100 == 0 {
        28
    } else if year % 4 == 0 {
        29
    } else {
        28
    };
    seq![31, february, 31, 30, 31, 30, 31, 31, 30, 31, 30, 31]
}

/// Whether the calendar has this date.
pub open spec fn in_calendar(year: int, month: int, day: int) -> bool {
    0 <= year <= 9999 && 1 <= month <= 12 && 1 <= day <= month_lengths(year)[month - 1]
}

/// The day after a date.
pub open spec fn day_after(year: int, month: int, day: int) -> (int, int, int) {
    if day < month_lengths(year)[month - 1] {
        (year, month, day + 1)
    } else if month < 12 {
        (year, month + 1, 1)
    } else {
        (year + 1, 1, 1)
    }
}

proof fn lemma_two_digits(n: int)
    requires
        0 <= n < 100,
    ensures
        two_digits(n).len() == 2,
        digits_value(two_digits(n)) == Some(n),
{
    let (a, b) = ((n / 10) as nat, (n % 10) as nat);
    lemma_digit(a);
    lemma_digit(b);
    let s = two_digits(n);
    assert(s.drop_last() =~= digit(a));
    assert(digits_value(s.drop_last()) == Some(a as int));
    assert(s.last() == digit(b)[0]);
}

proof fn lemma_four_digits(n: int)
    requires
        0 <= n < 10000,
    ensures
        digits_value(two_digits(n / 100) + two_digits(n % 100)) == Some(n),
{
    let (a, b) = (two_digits(n / 100), two_digits(n % 100));
    lemma_two_digits(n / 100);
    lemma_two_digits(n % 100);
    lemma_digit(((n % 100) / 10) as nat);
    lemma_digit(((n % 100) % 10) as nat);
    let s = a + b;
    let t = s.drop_last();
    assert(t.drop_last() =~= a);
    assert(t.last() == b[0]);
    assert(s.last() == b[1]);
    assert(digits_value(t) == Some(10 * (n / 100) + (n % 100) / 10));
}

proof fn lemma_date_parts(year: int, month: int, day: int)
    requires
        0 <= year <= 9999,
        0 <= month < 100,
        0 <= day < 100,
    ensures
        ({
            let s = date_text(year, month, day);
            &&& s.len() == 10
            &&& s[4] == '-'
            &&& s[7] == '-'
            &&& s.subrange(0, 4) == two_digits(year / 100) + two_digits(year % 100)
            &&& s.subrange(5, 7) == two_digits(month)
            &&& s.subrange(8, 10) == two_digits(day)
        }),
{
    let s = date_text(year, month, day);
    lemma_two_digits(year / 100);
    lemma_two_digits(year % 100);
    lemma_two_digits(month);
    lemma_two_digits(day);
    assert(s.subrange(0, 4) =~= two_digits(year / 100) + two_digits(year % 100));
    assert(s.subrange(5, 7) =~= two_digits(month));
    assert(s.subrange(8, 10) =~= two_digits(day));
}

proof fn lemma_date_value(s: Seq<char>, year: int, month: int, day: int)
    requires
        s.len() == 10,
        s[4] == '-',
        s[7] == '-',
        0 <= year <= 9999,
        digits_value(s.subrange(0, 4)) == Some(year),
        digits_value(s.subrange(5, 7)) == Some(month),
        digits_value(s.subrange(8, 10)) == Some(day),
    ensures
        date_value(s) == (if in_calendar(year, month, day) {
            Some(days_since_epoch(year, month, day))
        } else {
            None
        }),
{
    if 1 <= month <= 12 {
        lemma_in_month(year, month);
    }
}

/// How a date's text is parsed: by its number of days, if the calendar has it.
proof fn lemma_date_text(year: int, month: int, day: int)
    requires
        0 <= year <= 9999,
        0 <= month < 100,
        0 <= day < 100,
    ensures
        date_text(year, month, day).len() == 10,
        date_value(date_text(year, month, day)) == (if in_calendar(year, month, day) {
            Some(days_since_epoch(year, month, day))
        } else {
            None
        }),
{
    lemma_date_parts(year, month, day);
    lemma_four_digits(year);
    lemma_two_digits(month);
    lemma_two_digits(day);
    lemma_date_value(date_text(year, month, day), year, month, day);
}

proof fn lemma_months(year: int)
    ensures
        days_before_month(year, 1) == 0,
        forall|m: int|
            1 <= m <= 12 ==> #[trigger] days_before_month(year, m + 1) == days_before_month(year, m)
                + days_in_month(year, m),
        days_before_month(year, 13) == (if leap_year(year) {
            366int
        } else {
            365
        }),
{
    reveal_with_fuel(days_before_month, 14);
}

/// Days are counted one by one from 1970-01-01: that date is day zero, and the day after a date
/// counts one more.
pub proof fn dates_are_counted_day_by_day(year: int, month: int, day: int)
    requires
        in_calendar(year, month, day),
    ensures
        parsed_scalar(PrimitiveType::Date, date_text(year, month, day)) matches Ok(
            ScalarV::Date(n),
        ) && {
            let (y, m, d) = day_after(year, month, day);
            &&& y <= 9999 ==> parsed_scalar(PrimitiveType::Date, date_text(y, m, d)) == Ok::<
                _,
                ErrorV,
            >(ScalarV::Date((n + 1) as i32)) && n + 1 <= i32::MAX
            &&& year == 1970 && month == 1 && day == 1 ==> n == 0
        },
{
    lemma_date_text(year, month, day);
    lemma_days_bounded(year, month);
    let (y, m, d) = day_after(year, month, day);
    lemma_in_month(year, month);
    if y <= 9999 {
        lemma_in_month(y, m);
        lemma_days_bounded(y, m);
        lemma_date_text(y, m, d);
        lemma_next_day(year, month, day);
    }
    if year == 1970 && month == 1 && day == 1 {
        assert(days_before_month(1970, 1) == 0);
    }
}

proof fn lemma_in_month(year: int, month: int)
    requires
        1 <= month <= 12,
    ensures
        days_in_month(year, month) == month_lengths(year)[month - 1],
        28 <= days_in_month(year, month) <= 31,
{
}

proof fn lemma_next_day(year: int, month: int, day: int)
    requires
        in_calendar(year, month, day),
    ensures
        ({
            let (y, m, d) = day_after(year, month, day);
            days_since_epoch(y, m, d) == days_since_epoch(year, month, day) + 1
        }),
{
    lemma_in_month(year, month);
    lemma_months(year);
    lemma_months(year + 1);
    lemma_year(year);
    assert(days_before_month(year, month + 1) == days_before_month(year, month) + days_in_month(
        year,
        month,
    ));
}

proof fn lemma_days_bounded(year: int, month: int)
    requires
        0 <= year <= 9999,
        1 <= month <= 12,
    ensures
        0 <= days_before_month(year, month) <= 366,
        0 <= days_before_year(year) <= 4_000_000,
{
    reveal_with_fuel(days_before_month, 13);
}

proof fn lemma_quotient(n: int, k: int)
    requires
        0 <= n,
        k == 4 || k == 100 || k == 400,
    ensures
        (n + 1 + (k - 1)) / k == (n + (k - 1)) / k + (if n % k == 0 {
            1int
        } else {
            0
        }),
{
    if k == 4 {
        assert((n + 4) / 4 == (n + 3) / 4 + (if n % 4 == 0 {
            1int
        } else {
            0
        }));
    } else if k == 100 {
        assert((n + 100) / 100 == (n + 99) / 100 + (if n % 100 == 0 {
            1int
        } else {
            0
        }));
    } else {
        assert((n + 400) / 400 == (n + 399) / 400 + (if n % 400 == 0 {
            1int
        } else {
            0
        }));
    }
}

proof fn lemma_year(year: int)
    requires
        0 <= year,
    ensures
        days_before_year(year + 1) == days_before_year(year) + (if leap_year(year) {
            366int
        } else {
            365
        }),
{
    lemma_quotient(year, 4);
    lemma_quotient(year, 100);
    lemma_quotient(year, 400);
    assert(year % 400 == 0 ==> year % 100 == 0);
    assert(year % 100 == 0 ==> year % 4 == 0);
}

/// Texts of dates that the calendar does not have are refused.
pub proof fn only_calendar_dates_are_parsed(year: int, month: int, day: int)
    requires
        0 <= year <= 9999,
        0 <= month < 100,
        0 <= day < 100,
    ensures
        parsed_scalar(PrimitiveType::Date, date_text(year, month, day)) is Ok <==> in_calendar(
            year,
            month,
            day,
        ),
{
    lemma_date_text(year, month, day);
}

} // verus!
