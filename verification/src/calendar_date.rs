//! Strict, lexically ordered ISO calendar dates for temporal verification.

use vstd::prelude::*;
use vstd::string::StringSliceAdditionalSpecFns;

verus! {

/// An ASCII decimal digit byte.
pub open spec fn is_digit_byte(b: u8) -> bool {
    48 <= b && b <= 57
}

/// Every byte of `b[start..end]` is an ASCII decimal digit.
pub open spec fn digits_in(b: Seq<u8>, start: int, end: int) -> bool {
    forall|i: int| start <= i < end ==> is_digit_byte(#[trigger] b[i])
}

/// The decimal number written by the bytes `b[start..end]`.
pub open spec fn decimal_value(b: Seq<u8>, start: int, end: int) -> nat
    decreases end - start,
{
    if end <= start {
        0
    } else {
        decimal_value(b, start, end - 1) * 10 + ((b[end - 1] - 48) as nat)
    }
}

/// Gregorian leap years.
pub open spec fn leap_year(year: nat) -> bool {
    year % 4 == 0 && (year % 100 != 0 || year % 400 == 0)
}

/// The number of days in a month of a Gregorian year.
pub open spec fn month_days(year: nat, month: nat) -> nat {
    if month == 2 {
        if leap_year(year) {
            29
        } else {
            28
        }
    } else if month == 4 || month == 6 || month == 9 || month == 11 {
        30
    } else {
        31
    }
}

/// `YYYY-MM-DD` punctuation at the right byte positions of a ten-byte text.
pub open spec fn date_shape(b: Seq<u8>) -> bool {
    b.len() == 10 && b[4] == 45u8 && b[7] == 45u8
}

/// All eight date positions hold ASCII digits.
pub open spec fn date_digits(b: Seq<u8>) -> bool {
    digits_in(b, 0, 4) && digits_in(b, 5, 7) && digits_in(b, 8, 10)
}

pub open spec fn date_year(b: Seq<u8>) -> nat {
    decimal_value(b, 0, 4)
}

pub open spec fn date_month(b: Seq<u8>) -> nat {
    decimal_value(b, 5, 7)
}

pub open spec fn date_day(b: Seq<u8>) -> nat {
    decimal_value(b, 8, 10)
}

/// A real calendar day: non-zero year, month 1 to 12 and a day that the month has.
pub open spec fn real_day(year: nat, month: nat, day: nat) -> bool {
    year != 0 && 1 <= month <= 12 && 1 <= day <= month_days(year, month)
}

/// The UTF-8 bytes spell one strict ISO `YYYY-MM-DD` date of a real calendar day.
pub open spec fn valid_date_bytes(b: Seq<u8>) -> bool {
    date_shape(b) && date_digits(b) && real_day(date_year(b), date_month(b), date_day(b))
}

/// A character sequence that is a strict ISO calendar date.
pub open spec fn valid_date_text(s: Seq<char>) -> bool {
    valid_date_bytes(vstd::utf8::encode_utf8(s))
}

/// The message with which an invalid date text is refused.
pub open spec fn date_error(b: Seq<u8>) -> &'static str {
    if !date_shape(b) {
        "date must use YYYY-MM-DD"
    } else if !date_digits(b) {
        "date must use ASCII decimal digits"
    } else {
        "date must be a valid calendar day"
    }
}

/// What parsing a text as a calendar date gives: the text itself, or the refusal message.
pub open spec fn calendar_outcome(s: Seq<char>) -> Result<Seq<char>, &'static str> {
    let b = vstd::utf8::encode_utf8(s);
    if valid_date_bytes(b) {
        Ok(s)
    } else {
        Err(date_error(b))
    }
}

/// The text of a parsed date, or the refusal message.
pub open spec fn date_outcome(r: Result<CalendarDate, &'static str>) -> Result<Seq<char>, &'static str> {
    match r {
        Ok(date) => Ok(date@),
        Err(message) => Err(message),
    }
}

/// One strict ISO calendar date, kept as its original text.
#[derive(Debug, PartialEq, Eq, Hash, PartialOrd, Ord)]
pub struct CalendarDate {
    text: String,
}

impl Clone for CalendarDate {
    fn clone(&self) -> (r: Self)
        ensures
            r == *self,
    {
        proof {
            use_type_invariant(self);
        }
        CalendarDate { text: self.text.clone() }
    }
}

impl View for CalendarDate {
    type V = Seq<char>;

    closed spec fn view(&self) -> Seq<char> {
        self.text@
    }
}

impl CalendarDate {
    #[verifier::type_invariant]
    closed spec fn well_formed(self) -> bool {
        valid_date_text(self.text@)
    }

    /// Parse one strict `YYYY-MM-DD` date of a real calendar day.
    pub fn parse(value: &str) -> (r: Result<CalendarDate, &'static str>)
        ensures
            match r {
                Ok(date) => valid_date_bytes(value.spec_bytes()) && date@ == value@,
                Err(message) => !valid_date_bytes(value.spec_bytes()) && message == date_error(
                    value.spec_bytes(),
                ),
            },
            date_outcome(r) == calendar_outcome(value@),
    {
        let bytes = value.as_bytes();
        if bytes.len() != 10 || bytes[4] != 45u8 || bytes[7] != 45u8 {
            return Err("date must use YYYY-MM-DD");
        }
        proof {
            if digits_in(bytes@, 0, 4) {
                lemma_decimal_short(bytes@, 0, 4);
            }
            if digits_in(bytes@, 5, 7) {
                lemma_decimal_short(bytes@, 5, 7);
            }
            if digits_in(bytes@, 8, 10) {
                lemma_decimal_short(bytes@, 8, 10);
            }
        }
        let year = component(bytes, 0..4)?;
        let month = component(bytes, 5..7)?;
        let day = component(bytes, 8..10)?;
        if year == 0 || !(1 <= month && month <= 12) || !(1 <= day && day <= days_in_month(year, month)) {
            return Err("date must be a valid calendar day");
        }
        Ok(CalendarDate { text: value.to_owned() })
    }

    /// The date's `YYYY-MM-DD` text.
    pub fn as_str(&self) -> (s: &str)
        ensures
            s@ == self@,
            valid_date_text(s@),
    {
        proof {
            use_type_invariant(self);
        }
        self.text.as_str()
    }

    /// Whether two dates name the same day.
    pub fn same_day(&self, other: &CalendarDate) -> (r: bool)
        ensures
            r == (self@ == other@),
    {
        self.text == other.text
    }
}

/// A run of bytes that reads as one `u16`: non-empty, within `b`, all ASCII decimal digits,
/// and a value of at most `u16::MAX` (leading zeros allowed).
pub open spec fn component_ok(b: Seq<u8>, start: int, end: int) -> bool {
    &&& 0 <= start < end <= b.len()
    &&& digits_in(b, start, end)
    &&& decimal_value(b, start, end) <= u16::MAX
}

/// A longer run of digits never reads as a smaller number.
proof fn lemma_decimal_monotone(b: Seq<u8>, start: int, i: int, j: int)
    requires
        start <= i <= j,
        digits_in(b, start, j),
    ensures
        decimal_value(b, start, i) <= decimal_value(b, start, j),
    decreases j - i,
{
    if i < j {
        lemma_decimal_monotone(b, start, i, j - 1);
    }
}

/// A run of at most four digits reads below ten thousand.
proof fn lemma_decimal_short(b: Seq<u8>, start: int, end: int)
    requires
        start <= end <= start + 4,
        digits_in(b, start, end),
    ensures
        decimal_value(b, start, end) < pow10((end - start) as nat),
        pow10((end - start) as nat) <= 10000,
    decreases end - start,
{
    if start < end {
        lemma_decimal_short(b, start, end - 1);
        lemma_pow10_step((end - 1 - start) as nat);
    }
}

/// The decimal value of a run of ASCII digits that fits a `u16`, or the digit error.
pub fn component(value: &[u8], range: std::ops::Range<usize>) -> (r: Result<u16, &'static str>)
    ensures
        match r {
            Ok(v) => component_ok(value@, range.start as int, range.end as int) && v == decimal_value(
                value@,
                range.start as int,
                range.end as int,
            ),
            Err(message) => !component_ok(value@, range.start as int, range.end as int) && message
                == "date must use ASCII decimal digits",
        },
{
    if range.start >= range.end || range.end > value.len() {
        return Err("date must use ASCII decimal digits");
    }
    let mut i = range.start;
    let mut v: u32 = 0;
    while i < range.end
        invariant
            range.start <= i <= range.end <= value@.len(),
            digits_in(value@, range.start as int, i as int),
            v == decimal_value(value@, range.start as int, i as int),
            v <= u16::MAX,
        decreases range.end - i,
    {
        let b = value[i];
        if !(48 <= b && b <= 57) {
            return Err("date must use ASCII decimal digits");
        }
        let next = v * 10 + (b - 48) as u32;
        if next > 65535 {
            proof {
                assert(next == decimal_value(value@, range.start as int, i + 1));
                if digits_in(value@, range.start as int, range.end as int) {
                    lemma_decimal_monotone(value@, range.start as int, i + 1, range.end as int);
                }
            }
            return Err("date must use ASCII decimal digits");
        }
        v = next;
        i = i + 1;
    }
    Ok(v as u16)
}

pub open spec fn pow10(n: nat) -> nat
    decreases n,
{
    if n == 0 {
        1
    } else {
        10 * pow10((n - 1) as nat)
    }
}

proof fn lemma_pow10_step(n: nat)
    requires
        n < 4,
    ensures
        pow10(n + 1) == 10 * pow10(n),
        pow10(n + 1) <= 10000,
{
    reveal_with_fuel(pow10, 5);
}

/// The number of days in `month` of `year`.
pub fn days_in_month(year: u16, month: u16) -> (days: u16)
    ensures
        days == month_days(year as nat, month as nat),
{
    if month == 2 {
        if is_leap_year(year) {
            29
        } else {
            28
        }
    } else if month == 4 || month == 6 || month == 9 || month == 11 {
        30
    } else {
        31
    }
}

/// Gregorian leap-year rule.
pub fn is_leap_year(year: u16) -> (r: bool)
    ensures
        r == leap_year(year as nat),
{
    year % 4 == 0 && (year % 100 != 0 || year % 400 == 0)
}

} // verus!

verus! {

/// Parsing the text of a valid date gives back that very text: what `CalendarDate::as_str`
/// returns always parses to the same date.
pub proof fn law_date_text_reparses(s: Seq<char>)
    requires
        valid_date_text(s),
    ensures
        calendar_outcome(s) == Ok::<Seq<char>, &'static str>(s),
{
}

} // verus!

verus! {

/// The lengths of the Gregorian months in every year: April, June, September and November
/// have 30 days; January, March, May, July, August, October and December have 31; February has
/// 29 in a leap year and 28 otherwise. Up to July the odd months are the long ones, from August
/// on the even ones.
pub proof fn law_month_lengths(year: nat, month: nat)
    ensures
        month_days(year, 1) == 31,
        month_days(year, 2) == if year % 4 == 0 && (year % 100 != 0 || year % 400 == 0) { 29nat } else { 28nat },
        month_days(year, 3) == 31,
        month_days(year, 4) == 30,
        month_days(year, 5) == 31,
        month_days(year, 6) == 30,
        month_days(year, 7) == 31,
        month_days(year, 8) == 31,
        month_days(year, 9) == 30,
        month_days(year, 10) == 31,
        month_days(year, 11) == 30,
        month_days(year, 12) == 31,
        1 <= month <= 7 && month != 2 ==> (month_days(year, month) == 31 <==> month % 2 == 1),
        8 <= month <= 12 ==> (month_days(year, month) == 31 <==> month % 2 == 0),
        1 <= month <= 12 && month != 2 ==> 30 <= month_days(year, month) <= 31,
{
}

/// A day of a month in a non-zero year is real exactly when it lies between the first and
/// the month's last day: the 31st exists in July but not in September, the 29th of February
/// only in leap years.
pub proof fn law_real_days(year: nat, day: nat)
    ensures
        year != 0 ==> (real_day(year, 7, day) <==> 1 <= day <= 31),
        year != 0 ==> (real_day(year, 9, day) <==> 1 <= day <= 30),
        year != 0 ==> (real_day(year, 1, day) <==> 1 <= day <= 31),
        year != 0 ==> (real_day(year, 4, day) <==> 1 <= day <= 30),
        year != 0 ==> (real_day(year, 2, 29) <==> year % 4 == 0 && (year % 100 != 0 || year % 400 == 0)),
        !real_day(0, 1, 1),
        day >= 1 ==> !real_day(year, 13, day) && !real_day(year, 0, day),
{
}

} // verus!
