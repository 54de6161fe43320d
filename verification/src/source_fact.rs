//! Conservative extraction of one local release fact from a strong source row.

use vstd::prelude::*;

use crate::calendar_date::{calendar_outcome, CalendarDate};
use crate::source_date::{self, source_date};
use crate::source_document_html::attribute_selection::{
    element_views, elements_with_attribute, spec_elements_with_attribute,
};
use crate::source_document_html::text_normalization::{normalize_text, spec_normalize_text};
use crate::source_url::SafeSourceUrl;
use crate::text::{
    all_digits, ascii_words, ascii_words_of, byte_len, char_alphanumeric, chars_of, contains_chars,
    contains_seq, is_alphanumeric, is_digit, is_digit_exec, is_space, is_space_exec, run_to,
    scan_to, slice_chars, starts_with, starts_with_chars, string_from_chars, trim, trim_chars,
    utf8_len,
};

verus! {

/// The largest fact value, in UTF-8 bytes.
pub const MAX_VALUE_BYTES: u128 = 128;

/// The largest source date text, in UTF-8 bytes.
pub const MAX_DATE_TEXT_BYTES: u128 = 32;

/// The largest scope, in UTF-8 bytes.
pub const MAX_SCOPE_BYTES: u128 = 128;

/// A release fact: which source, which scope, which value, which day, and the date as written.
pub struct FactView {
    pub source_url: Seq<char>,
    pub scope: Seq<char>,
    pub value: Seq<char>,
    pub date: Seq<char>,
    pub source_date_text: Seq<char>,
}

/// What one source row says about a scope.
pub enum CandidateView {
    Fact(FactView),
    NotApplicable,
    Ambiguous,
}

/// A release value: one token of at most 128 bytes, without whitespace, with a letter or digit,
/// not all digits, not a URL, and not itself a calendar date.
pub open spec fn acceptable_value(v: Seq<char>) -> bool {
    &&& v.len() > 0
    &&& byte_len(v) <= MAX_VALUE_BYTES
    &&& forall|i: int| 0 <= i < v.len() ==> !is_space(#[trigger] v[i])
    &&& exists|i: int| 0 <= i < v.len() && char_alphanumeric(#[trigger] v[i])
    &&& !all_digits(v)
    &&& !contains_seq(v, "://"@)
    &&& !starts_with(v, "http:"@)
    &&& !starts_with(v, "https:"@)
    &&& calendar_outcome(v) is Err
}

/// A date text: at most 32 bytes, made of one or three ASCII-whitespace separated words.
pub open spec fn acceptable_date_text(v: Seq<char>) -> bool {
    &&& v.len() > 0
    &&& byte_len(v) <= MAX_DATE_TEXT_BYTES
    &&& (ascii_words(v).len() == 1 || ascii_words(v).len() == 3)
}

/// A scope that a fact can be filed under: non-empty, at most 128 bytes, already trimmed.
pub open spec fn acceptable_scope(scope: Seq<char>) -> bool {
    scope.len() > 0 && byte_len(scope) <= MAX_SCOPE_BYTES && trim(scope) == scope
}

/// What the first row of a scope's panel says: the row must hold exactly one date pin whose
/// normalized text is a value, one space, and a date text that names a calendar day.
pub open spec fn first_row_candidate(url: Seq<char>, scope: Seq<char>, row: Seq<char>) -> CandidateView {
    if !acceptable_scope(scope) {
        CandidateView::NotApplicable
    } else {
        match spec_elements_with_attribute(row, "data-date-pin"@) {
            None => CandidateView::NotApplicable,
            Some(pins) => if pins.len() > 1 {
                CandidateView::Ambiguous
            } else if pins.len() == 0 {
                CandidateView::NotApplicable
            } else {
                let normalized = spec_normalize_text(pins[0].content);
                let k = run_to(normalized, ' ');
                if k == normalized.len() {
                    CandidateView::NotApplicable
                } else {
                    let value = normalized.take(k as int);
                    let text = normalized.skip(k + 1 as int);
                    if !acceptable_value(value) || !acceptable_date_text(text) {
                        CandidateView::NotApplicable
                    } else {
                        match source_date(text) {
                            Err(_) => CandidateView::NotApplicable,
                            Ok(date) => CandidateView::Fact(
                                FactView {
                                    source_url: url,
                                    scope,
                                    value,
                                    date,
                                    source_date_text: text,
                                },
                            ),
                        }
                    }
                }
            },
        }
    }
}

/// Every fact that a row yields is filed under an acceptable scope, has an acceptable value and
/// date text, and its day is the one its date text names.
pub proof fn lemma_row_fact_is_consistent(url: Seq<char>, scope: Seq<char>, row: Seq<char>)
    requires
        first_row_candidate(url, scope, row) is Fact,
    ensures
        ({
            let f = first_row_candidate(url, scope, row)->Fact_0;
            &&& f.source_url == url
            &&& f.scope == scope
            &&& acceptable_scope(f.scope)
            &&& acceptable_value(f.value)
            &&& acceptable_date_text(f.source_date_text)
            &&& source_date(f.source_date_text) == Ok::<Seq<char>, &'static str>(f.date)
        }),
{
}

} // verus!

verus! {

/// One release fact read from a source.
#[derive(Debug)]
pub struct SourceFact {
    source_url: SafeSourceUrl,
    scope: String,
    value: String,
    date: CalendarDate,
    source_date_text: String,
}

impl View for SourceFact {
    type V = FactView;

    closed spec fn view(&self) -> FactView {
        FactView {
            source_url: self.source_url@,
            scope: self.scope@,
            value: self.value@,
            date: self.date@,
            source_date_text: self.source_date_text@,
        }
    }
}

impl Clone for SourceFact {
    fn clone(&self) -> (r: Self)
        ensures
            r@ == self@,
    {
        SourceFact {
            source_url: self.source_url.clone(),
            scope: self.scope.clone(),
            value: self.value.clone(),
            date: self.date.clone(),
            source_date_text: self.source_date_text.clone(),
        }
    }
}

/// What one source row says about a scope.
#[derive(Debug)]
pub enum SourceFactCandidate {
    Fact(SourceFact),
    NotApplicable,
    Ambiguous,
}

impl View for SourceFactCandidate {
    type V = CandidateView;

    open spec fn view(&self) -> CandidateView {
        match self {
            SourceFactCandidate::Fact(f) => CandidateView::Fact(f@),
            SourceFactCandidate::NotApplicable => CandidateView::NotApplicable,
            SourceFactCandidate::Ambiguous => CandidateView::Ambiguous,
        }
    }
}

impl Clone for SourceFactCandidate {
    fn clone(&self) -> (r: Self)
        ensures
            r@ == self@,
    {
        match self {
            SourceFactCandidate::Fact(f) => SourceFactCandidate::Fact(f.clone()),
            SourceFactCandidate::NotApplicable => SourceFactCandidate::NotApplicable,
            SourceFactCandidate::Ambiguous => SourceFactCandidate::Ambiguous,
        }
    }
}

impl SourceFact {
    /// Read the fact that the first row of a scope's panel states, if it states exactly one.
    pub fn from_first_row(source_url: &SafeSourceUrl, scope: &str, row: &str) -> (r: SourceFactCandidate)
        ensures
            r@ == first_row_candidate(source_url@, scope@, row@),
    {
        let scope_chars = chars_of(scope);
        if scope_chars.len() == 0 || utf8_len(scope_chars.as_slice()) > MAX_SCOPE_BYTES {
            return SourceFactCandidate::NotApplicable;
        }
        let trimmed = trim_chars(&scope_chars);
        if trimmed.len() != scope_chars.len() {
            proof {
                assert(trim(scope@) != scope@);
            }
            return SourceFactCandidate::NotApplicable;
        }
        proof {
            crate::text::lemma_trim_unchanged(scope@);
        }
        let row_chars = chars_of(row);
        let wanted = chars_of("data-date-pin");
        let pins = match elements_with_attribute(&row_chars, wanted.as_slice()) {
            Ok(pins) => pins,
            Err(_) => {
                return SourceFactCandidate::NotApplicable;
            },
        };
        if pins.len() != 1 {
            return if pins.len() > 1 {
                SourceFactCandidate::Ambiguous
            } else {
                SourceFactCandidate::NotApplicable
            };
        }
        proof {
            assert(element_views(pins@)[0] == pins@[0]@);
        }
        let normalized = normalize_text(&pins[0].content);
        let k = scan_to(&normalized, 0, ' ');
        proof {
            assert(normalized@.skip(0) =~= normalized@);
        }
        if k == normalized.len() {
            return SourceFactCandidate::NotApplicable;
        }
        let value = slice_chars(&normalized, 0, k);
        let text = slice_chars(&normalized, k + 1, normalized.len());
        proof {
            assert(value@ =~= normalized@.take(k as int));
            assert(text@ =~= normalized@.skip(k + 1));
        }
        if !valid_value(value.as_slice()) || !valid_date_text(text.as_slice()) {
            return SourceFactCandidate::NotApplicable;
        }
        let text_string = string_from_chars(text.as_slice());
        let date = match source_date::parse(text_string.as_str()) {
            Ok(date) => date,
            Err(_) => {
                return SourceFactCandidate::NotApplicable;
            },
        };
        SourceFactCandidate::Fact(
            SourceFact {
                source_url: source_url.clone(),
                scope: scope.to_owned(),
                value: string_from_chars(value.as_slice()),
                date,
                source_date_text: text_string,
            },
        )
    }

    /// The source the fact was read from.
    pub fn source_url(&self) -> (u: &SafeSourceUrl)
        ensures
            u@ == self@.source_url,
    {
        &self.source_url
    }

    /// The scope the fact is filed under.
    pub fn scope(&self) -> (s: &str)
        ensures
            s@ == self@.scope,
    {
        self.scope.as_str()
    }

    /// The release value.
    pub fn value(&self) -> (s: &str)
        ensures
            s@ == self@.value,
    {
        self.value.as_str()
    }

    /// The calendar day the source gives.
    pub fn date(&self) -> (d: &CalendarDate)
        ensures
            d@ == self@.date,
    {
        &self.date
    }

    /// The date as the source writes it.
    pub fn source_date_text(&self) -> (s: &str)
        ensures
            s@ == self@.source_date_text,
    {
        self.source_date_text.as_str()
    }
}

/// Whether `value` can be a release value.
pub fn valid_value(value: &[char]) -> (r: bool)
    ensures
        r == acceptable_value(value@),
{
    proof {
        reveal_strlit("://");
        reveal_strlit("http:");
        reveal_strlit("https:");
    }
    if value.len() == 0 || utf8_len(value) > MAX_VALUE_BYTES {
        return false;
    }
    let mut has_space = false;
    let mut has_alnum = false;
    let mut all_ascii_digits = true;
    let mut i: usize = 0;
    while i < value.len()
        invariant
            i <= value@.len(),
            has_space == exists|j: int| 0 <= j < i && is_space(#[trigger] value@[j]),
            has_alnum == exists|j: int| 0 <= j < i && char_alphanumeric(#[trigger] value@[j]),
            all_ascii_digits == forall|j: int| 0 <= j < i ==> is_digit(#[trigger] value@[j]),
        decreases value@.len() - i,
    {
        let c = value[i];
        if is_space_exec(c) {
            has_space = true;
        }
        if is_alphanumeric(c) {
            has_alnum = true;
        }
        if !is_digit_exec(c) {
            all_ascii_digits = false;
        }
        i = i + 1;
    }
    if has_space || !has_alnum || all_ascii_digits {
        return false;
    }
    let scheme = chars_of("://");
    let http = chars_of("http:");
    let https = chars_of("https:");
    if contains_chars(value, scheme.as_slice()) || starts_with_chars(value, http.as_slice())
        || starts_with_chars(value, https.as_slice()) {
        return false;
    }
    let text = string_from_chars(value);
    CalendarDate::parse(text.as_str()).is_err()
}

/// Whether `value` can be a source date text.
pub fn valid_date_text(value: &[char]) -> (r: bool)
    ensures
        r == acceptable_date_text(value@),
{
    if value.len() == 0 || utf8_len(value) > MAX_DATE_TEXT_BYTES {
        return false;
    }
    let owned = slice_to_vec(value);
    let words = ascii_words_of(&owned);
    proof {
        assert(words@.len() == ascii_words(value@).len());
    }
    words.len() == 1 || words.len() == 3
}

/// The characters of a slice, owned.
fn slice_to_vec(value: &[char]) -> (r: Vec<char>)
    ensures
        r@ == value@,
{
    let mut r: Vec<char> = Vec::new();
    let mut i: usize = 0;
    while i < value.len()
        invariant
            i <= value@.len(),
            r@ == value@.take(i as int),
        decreases value@.len() - i,
    {
        r.push(value[i]);
        i = i + 1;
        proof {
            assert(r@ =~= value@.take(i as int));
        }
    }
    proof {
        assert(value@.take(i as int) =~= value@);
    }
    r
}

} // verus!
