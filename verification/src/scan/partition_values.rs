//! Parsing partition values, which the log records as text.

use vstd::prelude::*;
use vstd::utf8::encode_utf8;

use crate::error::{DeltaResult, Error, ErrorV};
use crate::expressions::column::is_digit;
use crate::expressions::scalar::{Scalar, ScalarV};
use crate::schema::{DataType, DataTypeV, PrimitiveType};

verus! {

/// Turns the text of a partition value into a value of the column's type.
pub trait ScalarParser {
    /// What a text is parsed as.
    spec fn parsed(&self, t: PrimitiveType, raw: Seq<char>) -> Result<ScalarV, ErrorV>;

    fn parse_scalar(&self, t: PrimitiveType, raw: &String) -> (value: DeltaResult<Scalar>)
        ensures
            match value {
                Ok(s) => self.parsed(t, raw@) == Ok::<_, ErrorV>(s@),
                Err(e) => self.parsed(t, raw@) == Err::<ScalarV, _>(e@),
            },
    ;
}

/// The value of a decimal digit.
pub open spec fn digit_value(c: char) -> int {
    c as u32 - '0' as u32
}

/// The number that a string of digits denotes; `None` if it is empty or holds anything else.
pub open spec fn digits_value(s: Seq<char>) -> Option<int>
    decreases s.len(),
{
    if s.len() == 0 || !is_digit(s.last()) {
        None
    } else if s.len() == 1 {
        Some(digit_value(s[0]))
    } else {
        match digits_value(s.drop_last()) {
            Some(n) => Some(10 * n + digit_value(s.last())),
            None => None,
        }
    }
}

/// The number that a text denotes: digits, with an optional sign before them.
pub open spec fn integer_value(s: Seq<char>) -> Option<int> {
    if s.len() > 0 && s[0] == '-' {
        match digits_value(s.skip(1)) {
            Some(n) => Some(-n),
            None => None,
        }
    } else if s.len() > 0 && s[0] == '+' {
        digits_value(s.skip(1))
    } else {
        digits_value(s)
    }
}

/// Whether a year has a February 29.
pub open spec fn leap_year(year: int) -> bool {
    year % 4 == 0 && (year % 100 != 0 || year % 400 == 0)
}

/// The number of days in a month.
pub open spec fn days_in_month(year: int, month: int) -> int {
    if month == 2 {
        if leap_year(year) {
            29
        } else {
            28
        }
    } else if month == 4 || month == 6 || month == 9 || month == 11 {
        30
    } else {
        31
    }
}

/// The days of a year before a month.
pub open spec fn days_before_month(year: int, month: int) -> int
    decreases month,
{
    if month <= 1 {
        0
    } else {
        days_before_month(year, month - 1) + days_in_month(year, month - 1)
    }
}

/// The days from 0000-01-01 to the first day of a year.
pub open spec fn days_before_year(year: int) -> int {
    365 * year + (year + 3) / 4 - (year + 99) / 100 + (year + 399) / 400
}

/// The days from 1970-01-01 to a date.
pub open spec fn days_since_epoch(year: int, month: int, day: int) -> int {
    days_before_year(year) + days_before_month(year, month) + (day - 1) - 719528
}

/// The date that a text `YYYY-MM-DD` denotes, in days since 1970-01-01.
pub open spec fn date_value(s: Seq<char>) -> Option<int> {
    if s.len() == 10 && s[4] == '-' && s[7] == '-' {
        match (
            digits_value(s.subrange(0, 4)),
            digits_value(s.subrange(5, 7)),
            digits_value(s.subrange(8, 10)),
        ) {
            (Some(year), Some(month), Some(day)) => if 1 <= month <= 12 && 1 <= day
                <= days_in_month(year, month) {
                Some(days_since_epoch(year, month, day))
            } else {
                None
            },
            _ => None,
        }
    } else {
        None
    }
}

/// A letter without regard to case.
pub open spec fn ascii_lower(c: char) -> int {
    if 'A' <= c && c <= 'Z' {
        c as u32 + 32
    } else {
        c as u32 as int
    }
}

/// Whether two texts agree up to the case of ASCII letters.
pub open spec fn same_ignoring_case(a: Seq<char>, b: Seq<char>) -> bool {
    a.len() == b.len() && forall|i: int|
        0 <= i < a.len() ==> ascii_lower(#[trigger] a[i]) == ascii_lower(b[i])
}

/// An integer as a value of an integer type, if it fits.
pub open spec fn integer_scalar(t: PrimitiveType, n: int) -> Option<ScalarV> {
    match t {
        PrimitiveType::Byte => if i8::MIN <= n <= i8::MAX {
            Some(ScalarV::Byte(n as i8))
        } else {
            None
        },
        PrimitiveType::Short => if i16::MIN <= n <= i16::MAX {
            Some(ScalarV::Short(n as i16))
        } else {
            None
        },
        PrimitiveType::Integer => if i32::MIN <= n <= i32::MAX {
            Some(ScalarV::Integer(n as i32))
        } else {
            None
        },
        PrimitiveType::Long => if i64::MIN <= n <= i64::MAX {
            Some(ScalarV::Long(n as i64))
        } else {
            None
        },
        _ => None,
    }
}

/// What a text is parsed as. The empty text is NULL, whatever the type.
pub open spec fn parsed_scalar(t: PrimitiveType, raw: Seq<char>) -> Result<ScalarV, ErrorV> {
    if raw.len() == 0 {
        Ok(ScalarV::Null(DataTypeV::Primitive(t)))
    } else {
        match t {
            PrimitiveType::String => Ok(ScalarV::String(raw)),
            PrimitiveType::Binary => Ok(ScalarV::Binary(encode_utf8(raw))),
            PrimitiveType::Byte
            | PrimitiveType::Short
            | PrimitiveType::Integer
            | PrimitiveType::Long => match integer_value(raw) {
                Some(n) => match integer_scalar(t, n) {
                    Some(s) => Ok(s),
                    None => Err(ErrorV::ParseError(raw, t)),
                },
                None => Err(ErrorV::ParseError(raw, t)),
            },
            PrimitiveType::Boolean => if same_ignoring_case(raw, "true"@) {
                Ok(ScalarV::Boolean(true))
            } else if same_ignoring_case(raw, "false"@) {
                Ok(ScalarV::Boolean(false))
            } else {
                Err(ErrorV::ParseError(raw, t))
            },
            PrimitiveType::Date => match date_value(raw) {
                Some(days) => Ok(ScalarV::Date(days as i32)),
                None => Err(ErrorV::ParseError(raw, t)),
            },
            _ => Err(
                ErrorV::Unsupported("partition values of this type need the engine's parser"@),
            ),
        }
    }
}

/// Parses text, bytes, integers, booleans and dates.
pub struct PlainScalarParser {}

/// The number that the characters from `from` to `to` denote, if it is below 2^64.
fn digits(raw: &String, from: usize, to: usize) -> (value: Option<u64>)
    requires
        from <= to <= raw@.len(),
    ensures
        match value {
            Some(n) => digits_value(raw@.subrange(from as int, to as int)) == Some(n as int),
            None => digits_value(raw@.subrange(from as int, to as int)) is None || digits_value(
                raw@.subrange(from as int, to as int),
            )->0 > u64::MAX,
        },
{
    let text = raw.as_str();
    let mut n: u64 = 0;
    if from == to {
        return None;
    }
    let ghost all = raw@.subrange(from as int, to as int);
    let mut i: usize = from;
    while i < to
        invariant
            from <= i <= to <= raw@.len(),
            from < to,
            text@ == raw@,
            all == raw@.subrange(from as int, to as int),
            i == from ==> n == 0,
            i > from ==> digits_value(all.take(i - from)) == Some(n as int),
        decreases to - i,
    {
        let c = text.get_char(i);
        let ghost next = all.take(i - from + 1);
        assert(next.drop_last() =~= all.take(i - from));
        assert(next.last() == c);
        if !('0' <= c && c <= '9') {
            proof {
                lemma_not_digits(all, i - from);
            }
            return None;
        }
        let d: u64 = (c as u32 - '0' as u32) as u64;
        if n > (u64::MAX - d) / 10 {
            proof {
                assert(10 * n + d > u64::MAX) by (nonlinear_arith)
                    requires
                        n > (u64::MAX - d) / 10,
                        0 <= d <= 9,
                ;
                assert(digits_value(next) == Some(10 * n + d));
                lemma_digits_grow(all, i - from + 1);
            }
            return None;
        }
        assert(10 * n + d <= u64::MAX) by (nonlinear_arith)
            requires
                n <= (u64::MAX - d) / 10,
                0 <= d <= 9,
        ;
        n = 10 * n + d;
        i += 1;
    }
    assert(all.take(to - from) =~= all);
    Some(n)
}

/// A text with a character that is no digit denotes no number.
proof fn lemma_not_digits(s: Seq<char>, i: int)
    requires
        0 <= i < s.len(),
        !is_digit(s[i]),
    ensures
        digits_value(s) is None,
    decreases s.len(),
{
    if i < s.len() - 1 {
        lemma_not_digits(s.drop_last(), i);
    }
}

/// More digits denote no smaller number.
proof fn lemma_digits_grow(s: Seq<char>, n: int)
    requires
        0 < n <= s.len(),
        digits_value(s.take(n)) is Some,
        digits_value(s.take(n))->0 > u64::MAX,
    ensures
        digits_value(s) is None || digits_value(s)->0 > u64::MAX,
    decreases s.len(),
{
    if n < s.len() {
        assert(s.drop_last().take(n) =~= s.take(n));
        lemma_digits_grow(s.drop_last(), n);
    } else {
        assert(s.take(n) =~= s);
    }
}

fn integer(raw: &String) -> (value: Option<i128>)
    ensures
        match value {
            Some(n) => integer_value(raw@) == Some(n as int),
            None => integer_value(raw@) is None || integer_value(raw@)->0 > u64::MAX
                || integer_value(raw@)->0 < -u64::MAX,
        },
{
    let text = raw.as_str();
    let len = text.unicode_len();
    if len == 0 {
        return None;
    }
    let first = text.get_char(0);
    if first == '-' {
        assert(raw@.subrange(1, len as int) =~= raw@.skip(1));
        match digits(raw, 1, len) {
            Some(n) => Some(-(n as i128)),
            None => None,
        }
    } else if first == '+' {
        assert(raw@.subrange(1, len as int) =~= raw@.skip(1));
        match digits(raw, 1, len) {
            Some(n) => Some(n as i128),
            None => None,
        }
    } else {
        assert(raw@.subrange(0, len as int) =~= raw@);
        match digits(raw, 0, len) {
            Some(n) => Some(n as i128),
            None => None,
        }
    }
}

fn lower_code(c: char) -> (code: u32)
    ensures
        code == ascii_lower(c),
{
    if 'A' <= c && c <= 'Z' {
        c as u32 + 32
    } else {
        c as u32
    }
}

fn eq_ignore_ascii_case(a: &str, b: &str) -> (same: bool)
    ensures
        same == same_ignoring_case(a@, b@),
{
    let len = a.unicode_len();
    if len != b.unicode_len() {
        return false;
    }
    for i in 0..len
        invariant
            len == a@.len(),
            a@.len() == b@.len(),
            forall|j: int| 0 <= j < i ==> ascii_lower(#[trigger] a@[j]) == ascii_lower(b@[j]),
    {
        if lower_code(a.get_char(i)) != lower_code(b.get_char(i)) {
            assert(ascii_lower(a@[i as int]) != ascii_lower(b@[i as int]));
            return false;
        }
    }
    true
}

fn month_days(year: i64, month: i64) -> (days: i64)
    requires
        0 <= year,
    ensures
        days == days_in_month(year as int, month as int),
        28 <= days <= 31,
{
    if month == 2 {
        if year % 4 == 0 && (year % 100 != 0 || year % 400 == 0) {
            29
        } else {
            28
        }
    } else if month == 4 || month == 6 || month == 9 || month == 11 {
        30
    } else {
        31
    }
}

fn date(raw: &String) -> (days: Option<i32>)
    ensures
        match days {
            Some(d) => date_value(raw@) == Some(d as int),
            None => date_value(raw@) is None,
        },
{
    let text = raw.as_str();
    if text.unicode_len() != 10 || text.get_char(4) != '-' || text.get_char(7) != '-' {
        return None;
    }
    proof {
        lemma_digits_small(raw@.subrange(0, 4));
        lemma_digits_small(raw@.subrange(5, 7));
        lemma_digits_small(raw@.subrange(8, 10));
    }
    let (year, month, day) = match (digits(raw, 0, 4), digits(raw, 5, 7), digits(raw, 8, 10)) {
        (Some(y), Some(m), Some(d)) => (y as i64, m as i64, d as i64),
        _ => return None,
    };
    if month < 1 || month > 12 || day < 1 || day > month_days(year, month) {
        return None;
    }
    let mut days: i64 = 365 * year + (year + 3) / 4 - (year + 99) / 100 + (year + 399) / 400;
    let ghost before = days as int;
    let mut m: i64 = 1;
    while m < month
        invariant
            1 <= m <= month <= 12,
            0 <= year <= 9999,
            before == days_before_year(year as int),
            0 <= before <= 4_000_000,
            days == before + days_before_month(year as int, m as int),
            days <= before + 31 * (m - 1),
            days >= before,
        decreases month - m,
    {
        days = days + month_days(year, m);
        m = m + 1;
    }
    Some((days + (day - 1) - 719528) as i32)
}

/// At most four digits denote a number of at most four digits.
proof fn lemma_digits_small(s: Seq<char>)
    requires
        s.len() <= 4,
    ensures
        digits_value(s) matches Some(n) ==> 0 <= n <= 9999,
{
    reveal_with_fuel(digits_value, 5);
}

impl ScalarParser for PlainScalarParser {
    open spec fn parsed(&self, t: PrimitiveType, raw: Seq<char>) -> Result<ScalarV, ErrorV> {
        parsed_scalar(t, raw)
    }

    fn parse_scalar(&self, t: PrimitiveType, raw: &String) -> (value: DeltaResult<Scalar>) {
        if raw.as_str().unicode_len() == 0 {
            return Ok(Scalar::Null(DataType::Primitive(t)));
        }
        match t {
            PrimitiveType::String => Ok(Scalar::String(raw.clone())),
            PrimitiveType::Binary => {
                let bytes = raw.as_str().as_bytes_vec();
                Ok(Scalar::Binary(bytes))
            },
            PrimitiveType::Byte => match integer(raw) {
                Some(n) => if -128 <= n && n <= 127 {
                    Ok(Scalar::Byte(n as i8))
                } else {
                    Err(Error::ParseError(raw.clone(), t))
                },
                None => Err(Error::ParseError(raw.clone(), t)),
            },
            PrimitiveType::Short => match integer(raw) {
                Some(n) => if -32768 <= n && n <= 32767 {
                    Ok(Scalar::Short(n as i16))
                } else {
                    Err(Error::ParseError(raw.clone(), t))
                },
                None => Err(Error::ParseError(raw.clone(), t)),
            },
            PrimitiveType::Integer => match integer(raw) {
                Some(n) => if i32::MIN as i128 <= n && n <= i32::MAX as i128 {
                    Ok(Scalar::Integer(n as i32))
                } else {
                    Err(Error::ParseError(raw.clone(), t))
                },
                None => Err(Error::ParseError(raw.clone(), t)),
            },
            PrimitiveType::Long => match integer(raw) {
                Some(n) => if i64::MIN as i128 <= n && n <= i64::MAX as i128 {
                    Ok(Scalar::Long(n as i64))
                } else {
                    Err(Error::ParseError(raw.clone(), t))
                },
                None => Err(Error::ParseError(raw.clone(), t)),
            },
            PrimitiveType::Boolean => if eq_ignore_ascii_case(raw.as_str(), "true") {
                Ok(Scalar::Boolean(true))
            } else if eq_ignore_ascii_case(raw.as_str(), "false") {
                Ok(Scalar::Boolean(false))
            } else {
                Err(Error::ParseError(raw.clone(), t))
            },
            PrimitiveType::Date => match date(raw) {
                Some(days) => Ok(Scalar::Date(days)),
                None => Err(Error::ParseError(raw.clone(), t)),
            },
            _ => Err(
                Error::unsupported("partition values of this type need the engine's parser"),
            ),
        }
    }
}

} // verus!
