//! Deterministic source-visible date parsing for tuple verification.

use vstd::prelude::*;

use crate::calendar_date::{calendar_outcome, date_outcome, CalendarDate};
use crate::text::{
    all_digits, ascii_words, ascii_words_of, byte_len, lemma_byte_len_increasing, lemma_byte_len_step, chars_of, digit_value, digits_value, fields,
    fields_of, is_digit, is_digit_exec, parse_unsigned, parse_unsigned_exec, push_zero_padded,
    run_to, scan_to, slice_chars, string_from_chars, trim, trim_chars, utf8_width_exec,
    views, zero_padded, is_space,
};

verus! {

/// Exactly two ASCII digits whose value is at most `max`.
pub open spec fn two_digits(v: Seq<char>, max: nat) -> bool {
    v.len() == 2 && all_digits(v) && digits_value(v) <= max
}

/// The `i`-th field exists and is two digits of at most `max`.
pub open spec fn field_two_digits(parts: Seq<Seq<char>>, i: int, max: nat) -> bool {
    0 <= i < parts.len() && two_digits(parts[i], max)
}

/// An `HH:MM:SS` clock with an optional non-empty decimal fraction of the second.
pub open spec fn clock_check(v: Seq<char>) -> Result<(), &'static str> {
    let parts = fields(v, ':');
    if !field_two_digits(parts, 0, 23) {
        Err("source datetime hour was invalid")
    } else if !field_two_digits(parts, 1, 59) {
        Err("source datetime minute was invalid")
    } else if parts.len() < 3 {
        Err("source datetime second was missing")
    } else if parts.len() > 3 {
        Err("source datetime clock had extra fields")
    } else {
        let second = parts[2];
        let dot = run_to(second, '.');
        if dot < second.len() {
            let fraction = second.skip(dot + 1 as int);
            if fraction.len() > 0 && all_digits(fraction) {
                if two_digits(second.take(dot as int), 59) {
                    Ok(())
                } else {
                    Err("source datetime second was invalid")
                }
            } else {
                Err("source datetime fraction was invalid")
            }
        } else if two_digits(second, 59) {
            Ok(())
        } else {
            Err("source datetime second was invalid")
        }
    }
}

/// A `Z` zone or a signed `HH:MM` offset.
pub open spec fn zone_check(v: Seq<char>) -> Result<(), &'static str> {
    if v == seq!['Z'] {
        Ok(())
    } else if v.len() == 0 || !(v[0] == '+' || v[0] == '-') {
        Err("source datetime zone sign was invalid")
    } else {
        let parts = fields(v.drop_first(), ':');
        if !field_two_digits(parts, 0, 23) {
            Err("source datetime zone hour was invalid")
        } else if !field_two_digits(parts, 1, 59) {
            Err("source datetime zone minute was invalid")
        } else if parts.len() > 2 {
            Err("source datetime zone had extra fields")
        } else {
            Ok(())
        }
    }
}

/// The index of the last `+` or `-` in `v`.
pub open spec fn last_sign(v: Seq<char>) -> Option<int>
    decreases v.len(),
{
    if v.len() == 0 {
        None
    } else if v.last() == '+' || v.last() == '-' {
        Some(v.len() - 1)
    } else {
        last_sign(v.drop_last())
    }
}

/// The clock before the zone and the zone: a final `Z`, or everything from the last sign.
pub open spec fn clock_and_zone(v: Seq<char>) -> Result<(Seq<char>, Seq<char>), &'static str> {
    if v.len() > 0 && v.last() == 'Z' {
        Ok((v.drop_last(), seq!['Z']))
    } else {
        match last_sign(v) {
            None => Err("source datetime requires an explicit zone"),
            Some(p) => Ok((v.take(p), v.skip(p))),
        }
    }
}

/// A `T` that stands at byte offset ten.
pub open spec fn t_at(n: Seq<char>, k: int) -> bool {
    0 <= k < n.len() && byte_len(n.take(k)) == 10 && n[k] == 'T'
}

pub open spec fn t_separated(n: Seq<char>) -> bool {
    exists|k: int| t_at(n, k)
}

pub open spec fn t_index(n: Seq<char>) -> int {
    choose|k: int| t_at(n, k)
}

/// An ISO date followed at byte ten by `T`, a valid clock and an explicit valid zone.
pub open spec fn iso_datetime(n: Seq<char>, k: int) -> Result<Seq<char>, &'static str> {
    if !(0 <= k < n.len()) {
        Err("source datetime clock was incomplete")
    } else {
        match clock_and_zone(n.skip(k + 1)) {
            Err(e) => Err(e),
            Ok((clock, zone)) => match clock_check(clock) {
                Err(e) => Err(e),
                Ok(_) => match zone_check(zone) {
                    Err(e) => Err(e),
                    Ok(_) => calendar_outcome(n.take(k)),
                },
            },
        }
    }
}

/// One of the Korean date unit markers 년, 월, 일.
pub open spec fn korean_marker(c: char) -> bool {
    c == '년' || c == '월' || c == '일'
}

pub open spec fn has_korean_marker(n: Seq<char>) -> bool {
    exists|i: int| 0 <= i < n.len() && korean_marker(#[trigger] n[i])
}

/// A run of `lo` to `hi` ASCII digits followed by `suffix`, read as a `u16`: at least one
/// digit and a value of at most `u16::MAX`.
pub open spec fn korean_component(v: Seq<char>, suffix: char, lo: nat, hi: nat) -> Option<nat> {
    if v.len() > 0 && v.last() == suffix {
        let d = v.drop_last();
        if lo <= d.len() <= hi && all_digits(d) {
            parse_unsigned(d, u16::MAX as nat)
        } else {
            None
        }
    } else {
        None
    }
}

/// `YYYY-MM-DD` spelled from numbers, each padded with zeros.
pub open spec fn iso_text(year: nat, month: nat, day: nat) -> Seq<char> {
    zero_padded(year, 4) + seq!['-'] + zero_padded(month, 2) + seq!['-'] + zero_padded(day, 2)
}

/// A Korean `YYYY년 M월 D일` date with ASCII digits.
pub open spec fn korean_date(n: Seq<char>) -> Result<Seq<char>, &'static str> {
    let parts = ascii_words(n);
    if parts.len() != 3 {
        Err("source date must be a complete Korean date")
    } else {
        match korean_component(parts[0], '년', 4, 4) {
            None => Err("source year must use four ASCII digits"),
            Some(year) => match korean_component(parts[1], '월', 1, 2) {
                None => Err("source month must use ASCII digits"),
                Some(month) => match korean_component(parts[2], '일', 1, 2) {
                    None => Err("source day must use ASCII digits"),
                    Some(day) => calendar_outcome(iso_text(year, month, day)),
                },
            },
        }
    }
}

/// The number of a full English month name.
pub open spec fn month_number(s: Seq<char>) -> Option<nat> {
    if s == "January"@ {
        Some(1)
    } else if s == "February"@ {
        Some(2)
    } else if s == "March"@ {
        Some(3)
    } else if s == "April"@ {
        Some(4)
    } else if s == "May"@ {
        Some(5)
    } else if s == "June"@ {
        Some(6)
    } else if s == "July"@ {
        Some(7)
    } else if s == "August"@ {
        Some(8)
    } else if s == "September"@ {
        Some(9)
    } else if s == "October"@ {
        Some(10)
    } else if s == "November"@ {
        Some(11)
    } else if s == "December"@ {
        Some(12)
    } else {
        None
    }
}

/// An English `Month D, YYYY` date.
pub open spec fn english_date(n: Seq<char>) -> Result<Seq<char>, &'static str> {
    let parts = ascii_words(n);
    if parts.len() != 3 {
        Err("source date must be ISO or an unambiguous English date")
    } else {
        match month_number(parts[0]) {
            None => Err("source month was not recognized"),
            Some(month) => {
                let day_text = parts[1];
                let day = if day_text.len() > 0 && day_text.last() == ',' {
                    parse_unsigned(day_text.drop_last(), 255)
                } else {
                    None
                };
                match day {
                    None => Err("source day was invalid"),
                    Some(day) => match parse_unsigned(parts[2], 65535) {
                        None => Err("source year was invalid"),
                        Some(year) => calendar_outcome(iso_text(year, month, day)),
                    },
                }
            },
        }
    }
}

/// The calendar day that a source-visible date text names, tried in order as a strict ISO date,
/// an ISO datetime with an explicit zone, a Korean date and an English date.
pub open spec fn source_date(value: Seq<char>) -> Result<Seq<char>, &'static str> {
    let n = trim(value);
    if calendar_outcome(n) is Ok {
        calendar_outcome(n)
    } else if t_separated(n) {
        iso_datetime(n, t_index(n))
    } else if has_korean_marker(n) {
        korean_date(n)
    } else {
        english_date(n)
    }
}

} // verus!

verus! {

/// Two ASCII digits of value at most `maximum`.
pub fn parse_two_digits(value: Option<&Vec<char>>, maximum: u8) -> (r: Option<u8>)
    ensures
        r is Some <==> (value is Some && two_digits(value->0@, maximum as nat)),
        r matches Some(v) ==> v as nat == digits_value(value->0@),
{
    let v = match value {
        None => {
            return None;
        },
        Some(v) => v,
    };
    if v.len() != 2 || !is_digit_exec(v[0]) || !is_digit_exec(v[1]) {
        proof {
            if v@.len() == 2 && all_digits(v@) {
                assert(is_digit(v@[0]) && is_digit(v@[1]));
            }
        }
        return None;
    }
    let tens = (v[0] as u32 - '0' as u32) as u8;
    let ones = (v[1] as u32 - '0' as u32) as u8;
    let value_num = tens * 10 + ones;
    proof {
        assert(v@.drop_last().drop_last() =~= Seq::<char>::empty());
        assert(v@.drop_last().last() == v@[0]);
        assert(digits_value(v@.drop_last().drop_last()) == 0);
        assert(digits_value(v@.drop_last()) == digit_value(v@[0]));
        assert(digits_value(v@) == digit_value(v@[0]) * 10 + digit_value(v@[1]));
        assert(all_digits(v@));
    }
    if value_num <= maximum {
        Some(value_num)
    } else {
        None
    }
}

fn field_ref(parts: &Vec<Vec<char>>, i: usize) -> (r: Option<&Vec<char>>)
    ensures
        r is Some <==> i < parts@.len(),
        r matches Some(v) ==> v@ == parts@[i as int]@,
{
    if i < parts.len() {
        Some(&parts[i])
    } else {
        None
    }
}

/// Validate an `HH:MM:SS[.fraction]` clock.
pub fn validate_clock(value: &Vec<char>) -> (r: Result<(), &'static str>)
    ensures
        r == clock_check(value@),
{
    let parts = fields_of(value, ':');
    let ghost p = views(parts@);
    proof {
        assert(p.len() == parts@.len());
        assert(forall|i: int| 0 <= i < p.len() ==> p[i] == parts@[i]@);
    }
    if parse_two_digits(field_ref(&parts, 0), 23).is_none() {
        return Err("source datetime hour was invalid");
    }
    if parse_two_digits(field_ref(&parts, 1), 59).is_none() {
        return Err("source datetime minute was invalid");
    }
    if parts.len() < 3 {
        return Err("source datetime second was missing");
    }
    if parts.len() > 3 {
        return Err("source datetime clock had extra fields");
    }
    let second = &parts[2];
    let dot = scan_to(second, 0, '.');
    proof {
        assert(second@.skip(0) =~= second@);
    }
    if dot < second.len() {
        let fraction = slice_chars(second, dot + 1, second.len());
        let mut all = fraction.len() > 0;
        let mut i: usize = 0;
        while i < fraction.len()
            invariant
                i <= fraction@.len(),
                all == (fraction@.len() > 0 && forall|k: int| 0 <= k < i ==> is_digit(#[trigger] fraction@[k])),
            decreases fraction@.len() - i,
        {
            if !is_digit_exec(fraction[i]) {
                all = false;
            }
            i = i + 1;
        }
        proof {
            assert(fraction@ =~= second@.skip(dot + 1 as int));
        }
        if !all {
            return Err("source datetime fraction was invalid");
        }
        let whole = slice_chars(second, 0, dot);
        proof {
            assert(whole@ =~= second@.take(dot as int));
        }
        if parse_two_digits(Some(&whole), 59).is_none() {
            return Err("source datetime second was invalid");
        }
        Ok(())
    } else {
        if parse_two_digits(Some(second), 59).is_none() {
            return Err("source datetime second was invalid");
        }
        Ok(())
    }
}

/// Validate a `Z` or signed `HH:MM` zone.
pub fn validate_zone(value: &Vec<char>) -> (r: Result<(), &'static str>)
    ensures
        r == zone_check(value@),
{
    if value.len() == 1 && value[0] == 'Z' {
        proof {
            assert(value@ =~= seq!['Z']);
        }
        return Ok(());
    }
    proof {
        if value@ == seq!['Z'] {
            assert(value@.len() == 1 && value@[0] == 'Z');
        }
    }
    if value.len() == 0 || !(value[0] == '+' || value[0] == '-') {
        return Err("source datetime zone sign was invalid");
    }
    let offset = slice_chars(value, 1, value.len());
    proof {
        assert(offset@ =~= value@.drop_first());
    }
    let parts = fields_of(&offset, ':');
    proof {
        let p = views(parts@);
        assert(p.len() == parts@.len());
        assert(forall|i: int| 0 <= i < p.len() ==> p[i] == parts@[i]@);
    }
    if parse_two_digits(field_ref(&parts, 0), 23).is_none() {
        return Err("source datetime zone hour was invalid");
    }
    if parse_two_digits(field_ref(&parts, 1), 59).is_none() {
        return Err("source datetime zone minute was invalid");
    }
    if parts.len() > 2 {
        return Err("source datetime zone had extra fields");
    }
    Ok(())
}

/// Split a clock-and-zone text at a final `Z` or at its last sign.
pub fn split_clock_and_zone(value: &Vec<char>) -> (r: Result<(Vec<char>, Vec<char>), &'static str>)
    ensures
        match r {
            Ok((clock, zone)) => clock_and_zone(value@) == Ok::<(Seq<char>, Seq<char>), &'static str>((clock@, zone@)),
            Err(e) => clock_and_zone(value@) == Err::<(Seq<char>, Seq<char>), &'static str>(e),
        },
{
    if value.len() > 0 && value[value.len() - 1] == 'Z' {
        let clock = slice_chars(value, 0, value.len() - 1);
        let mut zone: Vec<char> = Vec::new();
        zone.push('Z');
        proof {
            assert(clock@ =~= value@.drop_last());
            assert(zone@ =~= seq!['Z']);
        }
        return Ok((clock, zone));
    }
    let mut k = value.len();
    proof {
        assert(value@.take(k as int) =~= value@);
    }
    while k > 0 && !(value[k - 1] == '+' || value[k - 1] == '-')
        invariant
            k <= value@.len(),
            last_sign(value@) == last_sign(value@.take(k as int)),
        decreases k,
    {
        proof {
            assert(value@.take(k as int).drop_last() =~= value@.take(k - 1));
        }
        k = k - 1;
    }
    if k == 0 {
        proof {
            assert(value@.take(0) =~= Seq::<char>::empty());
        }
        return Err("source datetime requires an explicit zone");
    }
    proof {
        assert(value@.take(k as int).last() == value@[k - 1]);
    }
    let clock = slice_chars(value, 0, k - 1);
    let zone = slice_chars(value, k - 1, value.len());
    proof {
        assert(clock@ =~= value@.take(k - 1));
        assert(zone@ =~= value@.skip(k - 1));
    }
    Ok((clock, zone))
}

} // verus!

verus! {

/// The character index at which byte offset `target` starts, when it falls on a character boundary.
fn byte_index(s: &Vec<char>, target: usize) -> (r: Option<usize>)
    requires
        target <= 64,
    ensures
        r matches Some(k) ==> k <= s@.len() && byte_len(s@.take(k as int)) == target,
        r is None ==> forall|k: int| 0 <= k <= s@.len() ==> byte_len(s@.take(k)) != target,
{
    let mut k: usize = 0;
    let mut acc: usize = 0;
    proof {
        assert(s@.take(0) =~= Seq::<char>::empty());
    }
    while k < s.len() && acc < target
        invariant
            k <= s@.len(),
            acc == byte_len(s@.take(k as int)),
            acc <= target + 4,
            target <= 64,
            forall|j: int| 0 <= j < k ==> byte_len(s@.take(j)) < target,
        decreases s@.len() - k,
    {
        proof {
            lemma_byte_len_step(s@, k as int);
            assert forall|j: int| 0 <= j < k + 1 implies byte_len(s@.take(j)) < target by {
                if j < k {
                } else {
                    assert(j == k);
                }
            }
        }
        acc = acc + utf8_width_exec(s[k]);
        k = k + 1;
    }
    if acc == target {
        Some(k)
    } else {
        proof {
            assert forall|j: int| 0 <= j <= s@.len() implies byte_len(s@.take(j)) != target by {
                if j < k {
                } else if j > k {
                    lemma_byte_len_increasing(s@, k as int, j);
                }
            }
        }
        None
    }
}

/// Validate an ISO datetime whose `T` stands at character `k` and return its calendar day.
pub fn parse_iso_datetime(value: &Vec<char>, k: usize) -> (r: Result<CalendarDate, &'static str>)
    ensures
        date_outcome(r) == iso_datetime(value@, k as int),
{
    let n = value.len();
    if k >= n {
        return Err("source datetime clock was incomplete");
    }
    let rest = slice_chars(value, k + 1, n);
    proof {
        assert(rest@ =~= value@.skip(k + 1));
    }
    let (clock, zone) = split_clock_and_zone(&rest)?;
    validate_clock(&clock)?;
    validate_zone(&zone)?;
    let date = slice_chars(value, 0, k);
    proof {
        assert(date@ =~= value@.take(k as int));
    }
    let text = string_from_chars(date.as_slice());
    CalendarDate::parse(text.as_str())
}

/// `lo` to `hi` ASCII digits before a final `suffix`.
pub fn parse_korean_component(value: &Vec<char>, suffix: char, lo: usize, hi: usize) -> (r: Option<u16>)
    ensures
        r is Some <==> korean_component(value@, suffix, lo as nat, hi as nat) is Some,
        r matches Some(v) ==> korean_component(value@, suffix, lo as nat, hi as nat) == Some(v as nat),
{
    if value.len() == 0 || value[value.len() - 1] != suffix {
        return None;
    }
    let digits = slice_chars(value, 0, value.len() - 1);
    proof {
        assert(digits@ =~= value@.drop_last());
    }
    if digits.len() < lo || digits.len() > hi {
        return None;
    }
    if digits.len() > 0 && digits[0] == '+' {
        proof {
            assert(!is_digit(digits@[0]));
        }
        return None;
    }
    match parse_unsigned_exec(&digits, 65535) {
        Some(v) => Some(v as u16),
        None => None,
    }
}

/// `YYYY-MM-DD` from numbers, each padded with zeros.
fn iso_date_text(year: u64, month: u64, day: u64) -> (r: String)
    ensures
        r@ == iso_text(year as nat, month as nat, day as nat),
{
    let mut out: Vec<char> = Vec::new();
    push_zero_padded(&mut out, year, 4);
    out.push('-');
    push_zero_padded(&mut out, month, 2);
    out.push('-');
    push_zero_padded(&mut out, day, 2);
    proof {
        assert(out@ =~= iso_text(year as nat, month as nat, day as nat));
    }
    string_from_chars(out.as_slice())
}

/// A Korean `YYYY년 M월 D일` date.
pub fn parse_korean(value: &Vec<char>) -> (r: Result<CalendarDate, &'static str>)
    ensures
        date_outcome(r) == korean_date(value@),
{
    let parts = ascii_words_of(value);
    proof {
        let p = views(parts@);
        assert(p.len() == parts@.len());
        assert(forall|i: int| 0 <= i < p.len() ==> p[i] == parts@[i]@);
    }
    if parts.len() != 3 {
        return Err("source date must be a complete Korean date");
    }
    let year = match parse_korean_component(&parts[0], '년', 4, 4) {
        Some(v) => v,
        None => {
            return Err("source year must use four ASCII digits");
        },
    };
    let month = match parse_korean_component(&parts[1], '월', 1, 2) {
        Some(v) => v,
        None => {
            return Err("source month must use ASCII digits");
        },
    };
    let day = match parse_korean_component(&parts[2], '일', 1, 2) {
        Some(v) => v,
        None => {
            return Err("source day must use ASCII digits");
        },
    };
    let text = iso_date_text(year as u64, month as u64, day as u64);
    CalendarDate::parse(text.as_str())
}

} // verus!

verus! {

/// The twelve English month names.
#[derive(Clone, Copy, Debug, PartialEq, Eq, Structural)]
pub enum EnglishMonth {
    January,
    February,
    March,
    April,
    May,
    June,
    July,
    August,
    September,
    October,
    November,
    December,
}

impl EnglishMonth {
    pub open spec fn spec_number(self) -> nat {
        match self {
            EnglishMonth::January => 1,
            EnglishMonth::February => 2,
            EnglishMonth::March => 3,
            EnglishMonth::April => 4,
            EnglishMonth::May => 5,
            EnglishMonth::June => 6,
            EnglishMonth::July => 7,
            EnglishMonth::August => 8,
            EnglishMonth::September => 9,
            EnglishMonth::October => 10,
            EnglishMonth::November => 11,
            EnglishMonth::December => 12,
        }
    }

    /// The month a full English name spells, exactly.
    pub fn parse(value: &[char]) -> (r: Option<EnglishMonth>)
        ensures
            r is Some <==> month_number(value@) is Some,
            r matches Some(m) ==> month_number(value@) == Some(m.spec_number()),
    {
        if crate::text::equals_str(value, "January") {
            Some(EnglishMonth::January)
        } else if crate::text::equals_str(value, "February") {
            Some(EnglishMonth::February)
        } else if crate::text::equals_str(value, "March") {
            Some(EnglishMonth::March)
        } else if crate::text::equals_str(value, "April") {
            Some(EnglishMonth::April)
        } else if crate::text::equals_str(value, "May") {
            Some(EnglishMonth::May)
        } else if crate::text::equals_str(value, "June") {
            Some(EnglishMonth::June)
        } else if crate::text::equals_str(value, "July") {
            Some(EnglishMonth::July)
        } else if crate::text::equals_str(value, "August") {
            Some(EnglishMonth::August)
        } else if crate::text::equals_str(value, "September") {
            Some(EnglishMonth::September)
        } else if crate::text::equals_str(value, "October") {
            Some(EnglishMonth::October)
        } else if crate::text::equals_str(value, "November") {
            Some(EnglishMonth::November)
        } else if crate::text::equals_str(value, "December") {
            Some(EnglishMonth::December)
        } else {
            None
        }
    }

    /// The month's number, January being 1.
    pub fn number(self) -> (n: u8)
        ensures
            n as nat == self.spec_number(),
            1 <= n <= 12,
    {
        match self {
            EnglishMonth::January => 1,
            EnglishMonth::February => 2,
            EnglishMonth::March => 3,
            EnglishMonth::April => 4,
            EnglishMonth::May => 5,
            EnglishMonth::June => 6,
            EnglishMonth::July => 7,
            EnglishMonth::August => 8,
            EnglishMonth::September => 9,
            EnglishMonth::October => 10,
            EnglishMonth::November => 11,
            EnglishMonth::December => 12,
        }
    }
}

fn parse_english(value: &Vec<char>) -> (r: Result<CalendarDate, &'static str>)
    ensures
        date_outcome(r) == english_date(value@),
{
    let parts = ascii_words_of(value);
    proof {
        let p = views(parts@);
        assert(p.len() == parts@.len());
        assert(forall|i: int| 0 <= i < p.len() ==> p[i] == parts@[i]@);
    }
    if parts.len() != 3 {
        return Err("source date must be ISO or an unambiguous English date");
    }
    let month = match EnglishMonth::parse(parts[0].as_slice()) {
        Some(m) => m,
        None => {
            return Err("source month was not recognized");
        },
    };
    let day_text = &parts[1];
    let day = if day_text.len() > 0 && day_text[day_text.len() - 1] == ',' {
        let stripped = slice_chars(day_text, 0, day_text.len() - 1);
        proof {
            assert(stripped@ =~= day_text@.drop_last());
        }
        parse_unsigned_exec(&stripped, 255)
    } else {
        None
    };
    let day = match day {
        Some(d) => d,
        None => {
            return Err("source day was invalid");
        },
    };
    let year = match parse_unsigned_exec(&parts[2], 65535) {
        Some(y) => y,
        None => {
            return Err("source year was invalid");
        },
    };
    let text = iso_date_text(year, month.number() as u64, day);
    CalendarDate::parse(text.as_str())
}

fn has_korean_marker_exec(value: &Vec<char>) -> (r: bool)
    ensures
        r == has_korean_marker(value@),
{
    let mut i: usize = 0;
    while i < value.len()
        invariant
            i <= value@.len(),
            forall|k: int| 0 <= k < i ==> !korean_marker(#[trigger] value@[k]),
        decreases value@.len() - i,
    {
        let c = value[i];
        if c == '년' || c == '월' || c == '일' {
            proof {
                assert(korean_marker(value@[i as int]));
            }
            return true;
        }
        i = i + 1;
    }
    false
}

/// Parse a source-visible date text into the calendar day it names.
pub fn parse(value: &str) -> (r: Result<CalendarDate, &'static str>)
    ensures
        date_outcome(r) == source_date(value@),
{
    let raw = chars_of(value);
    let normalized = trim_chars(&raw);
    let text = string_from_chars(normalized.as_slice());
    let direct = CalendarDate::parse(text.as_str());
    if direct.is_ok() {
        return direct;
    }
    match byte_index(&normalized, 10) {
        Some(k) => {
            if k < normalized.len() && normalized[k] == 'T' {
                proof {
                    assert(t_at(normalized@, k as int));
                    let c = t_index(normalized@);
                    if c != k {
                        if c < k {
                            lemma_byte_len_increasing(normalized@, c, k as int);
                        } else {
                            lemma_byte_len_increasing(normalized@, k as int, c);
                        }
                    }
                }
                return parse_iso_datetime(&normalized, k);
            }
            proof {
                assert forall|c: int| !t_at(normalized@, c) by {
                    if t_at(normalized@, c) && c != k {
                        if c < k {
                            lemma_byte_len_increasing(normalized@, c, k as int);
                        } else {
                            lemma_byte_len_increasing(normalized@, k as int, c);
                        }
                    }
                }
            }
        },
        None => {
            proof {
                assert forall|c: int| !t_at(normalized@, c) by {
                    if t_at(normalized@, c) {
                        assert(0 <= c <= normalized@.len());
                    }
                }
            }
        },
    }
    if has_korean_marker_exec(&normalized) {
        return parse_korean(&normalized);
    }
    parse_english(&normalized)
}

} // verus!

verus! {

/// Characters whose UTF-8 bytes are all ASCII are ASCII characters.
proof fn lemma_ascii_bytes_ascii_chars(s: Seq<char>)
    requires
        forall|k: int| 0 <= k < vstd::utf8::encode_utf8(s).len() ==> #[trigger] vstd::utf8::encode_utf8(s)[k] < 0x80,
    ensures
        vstd::utf8::is_ascii_chars(s),
    decreases s.len(),
{
    if s.len() > 0 {
        let v = s[0] as u32;
        let head = vstd::utf8::encode_scalar(v);
        let rest = vstd::utf8::encode_utf8(s.drop_first());
        assert(vstd::utf8::encode_utf8(s) == head + rest);
        assert(head.len() >= 1);
        assert(vstd::utf8::encode_utf8(s)[0] == head[0]);
        if !vstd::utf8::has_width_1_encoding(v) {
            let x2 = ((v >> 6) & 0x1F) as u8;
            let x3 = ((v >> 12) & 0x0F) as u8;
            let x4 = ((v >> 18) & 0x7) as u8;
            assert(0xC0u8 | x2 >= 0x80) by (bit_vector);
            assert(0xE0u8 | x3 >= 0x80) by (bit_vector);
            assert(0xF0u8 | x4 >= 0x80) by (bit_vector);
            assert(head[0] >= 0x80);
        }
        assert(vstd::utf8::has_width_1_encoding(v));
        assert(head.len() == 1);
        assert forall|k: int| 0 <= k < rest.len() implies #[trigger] rest[k] < 0x80 by {
            assert(vstd::utf8::encode_utf8(s)[k + 1] == rest[k]);
        }
        lemma_ascii_bytes_ascii_chars(s.drop_first());
        assert forall|i: int| 0 <= i < s.len() implies '\0' <= #[trigger] s[i] <= '\u{7f}' by {
            if i > 0 {
                assert(s[i] == s.drop_first()[i - 1]);
            } else {
                vstd::utf8::char_u32_cast(s[0], v);
                assert(v <= 0x7F);
            }
        }
    }
}

/// A text without whitespace is its own trim.
proof fn lemma_trim_without_space(s: Seq<char>)
    requires
        forall|i: int| 0 <= i < s.len() ==> !is_space(#[trigger] s[i]),
    ensures
        trim(s) == s,
{
    crate::text::lemma_run_len_bound(s, |c: char| is_space(c));
    let t = crate::text::trim_start(s);
    assert(t =~= s);
    if t.len() > 0 {
        assert(!is_space(t.last()));
    }
    assert(t.take(t.len() as int) =~= t);
}

/// Every strict ISO date names itself: its source date is the date text unchanged.
pub proof fn law_iso_dates_name_themselves(s: Seq<char>)
    requires
        crate::calendar_date::valid_date_text(s),
    ensures
        source_date(s) == Ok::<Seq<char>, &'static str>(s),
{
    let b = vstd::utf8::encode_utf8(s);
    assert forall|k: int| 0 <= k < b.len() implies #[trigger] b[k] < 0x80 by {
        if k != 4 && k != 7 {
            if k < 4 {
                assert(crate::calendar_date::is_digit_byte(b[k]));
            } else if k < 7 {
                assert(crate::calendar_date::is_digit_byte(b[k]));
            } else {
                assert(crate::calendar_date::is_digit_byte(b[k]));
            }
        }
    }
    lemma_ascii_bytes_ascii_chars(s);
    vstd::utf8::is_ascii_chars_encode_utf8(s);
    assert forall|i: int| 0 <= i < s.len() implies !is_space(#[trigger] s[i]) by {
        assert(s[i] as u32 == b[i] as u32);
        if i != 4 && i != 7 {
            if i < 4 {
                assert(crate::calendar_date::is_digit_byte(b[i]));
            } else if i < 7 {
                assert(crate::calendar_date::is_digit_byte(b[i]));
            } else {
                assert(crate::calendar_date::is_digit_byte(b[i]));
            }
        }
    }
    lemma_trim_without_space(s);
}

} // verus!

verus! {

/// The twelve English month names, January first.
pub open spec fn english_month_names() -> Seq<Seq<char>> {
    seq![
        "January"@, "February"@, "March"@, "April"@, "May"@, "June"@,
        "July"@, "August"@, "September"@, "October"@, "November"@, "December"@,
    ]
}

/// The `i`-th English month name (from zero) is month `i + 1`, every month number is one of
/// 1 to 12, and no two names share a number: the names map one to one onto the months.
pub proof fn law_english_month_numbers(i: int, a: Seq<char>, b: Seq<char>)
    ensures
        0 <= i < 12 ==> month_number(english_month_names()[i]) == Some((i + 1) as nat),
        month_number(a) matches Some(n) ==> 1 <= n <= 12 && english_month_names()[n - 1] == a,
        month_number(a) is Some && month_number(a) == month_number(b) ==> a == b,
{
    reveal_strlit("January");
    reveal_strlit("February");
    reveal_strlit("March");
    reveal_strlit("April");
    reveal_strlit("May");
    reveal_strlit("June");
    reveal_strlit("July");
    reveal_strlit("August");
    reveal_strlit("September");
    reveal_strlit("October");
    reveal_strlit("November");
    reveal_strlit("December");
    let names = english_month_names();
    assert("January"@.len() == 7 && "January"@[0] == 'J' && "January"@[2] == 'n');
    assert("February"@.len() == 8 && "February"@[0] == 'F' && "February"@[2] == 'b');
    assert("March"@.len() == 5 && "March"@[0] == 'M' && "March"@[2] == 'r');
    assert("April"@.len() == 5 && "April"@[0] == 'A' && "April"@[2] == 'r');
    assert("May"@.len() == 3 && "May"@[0] == 'M' && "May"@[2] == 'y');
    assert("June"@.len() == 4 && "June"@[0] == 'J' && "June"@[2] == 'n');
    assert("July"@.len() == 4 && "July"@[0] == 'J' && "July"@[2] == 'l');
    assert("August"@.len() == 6 && "August"@[0] == 'A' && "August"@[2] == 'g');
    assert("September"@.len() == 9 && "September"@[0] == 'S' && "September"@[2] == 'p');
    assert("October"@.len() == 7 && "October"@[0] == 'O' && "October"@[2] == 't');
    assert("November"@.len() == 8 && "November"@[0] == 'N' && "November"@[2] == 'v');
    assert("December"@.len() == 8 && "December"@[0] == 'D' && "December"@[2] == 'c');
    assert(names[0] == "January"@);
    assert(names[1] == "February"@);
    assert(names[2] == "March"@);
    assert(names[3] == "April"@);
    assert(names[4] == "May"@);
    assert(names[5] == "June"@);
    assert(names[6] == "July"@);
    assert(names[7] == "August"@);
    assert(names[8] == "September"@);
    assert(names[9] == "October"@);
    assert(names[10] == "November"@);
    assert(names[11] == "December"@);
}

} // verus!
