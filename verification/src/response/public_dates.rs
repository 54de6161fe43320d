//! Public source date syntax and audit provenance validation.

use vstd::prelude::*;

use crate::calendar_date::{calendar_outcome, CalendarDate};
use crate::error::AgyError;
use crate::response_models::{
    source_views, AuditView, EvidenceAudit, EvidenceView, ScopeEvidence, SourceView, WebSource,
};
use crate::source_date::{self, source_date};
use crate::text::{chars_of, contains_chars, contains_seq};

verus! {

/// An optional date names a real calendar day when present.
pub open spec fn optional_day_ok(o: Option<Seq<char>>) -> bool {
    o matches Some(t) ==> calendar_outcome(t) is Ok
}

/// Every public date and update date is a strict calendar date.
pub open spec fn syntax_ok(sources: Seq<SourceView>) -> bool {
    forall|i: int| 0 <= i < sources.len() ==> optional_day_ok((#[trigger] sources[i]).last_updated)
        && optional_day_ok(sources[i].date)
}

/// Check an optional update date.
pub fn validate_update(last_updated: Option<&str>) -> (r: Result<(), AgyError>)
    ensures
        r is Ok <==> optional_day_ok(match last_updated { Some(t) => Some(t@), None => None }),
        r matches Err(e) ==> e == AgyError::OutputInvalid,
{
    match last_updated {
        None => Ok(()),
        Some(text) => match CalendarDate::parse(text) {
            Ok(_) => Ok(()),
            Err(_) => Err(AgyError::OutputInvalid),
        },
    }
}

/// Check the date syntax of public sources.
pub fn validate_syntax(sources: &Vec<WebSource>) -> (r: Result<(), AgyError>)
    ensures
        r is Ok <==> syntax_ok(source_views(sources@)),
        r matches Err(e) ==> e == AgyError::OutputInvalid,
{
    let ghost sv = source_views(sources@);
    let mut i: usize = 0;
    while i < sources.len()
        invariant
            sv == source_views(sources@),
            i <= sources@.len(),
            forall|k: int| 0 <= k < i ==> optional_day_ok((#[trigger] sv[k]).last_updated) && optional_day_ok(sv[k].date),
        decreases sources@.len() - i,
    {
        let source = &sources[i];
        proof {
            assert(sv[i as int] == source@);
        }
        let update = match &source.last_updated {
            Some(t) => Some(t.as_str()),
            None => None,
        };
        if validate_update(update).is_err() {
            return Err(AgyError::OutputInvalid);
        }
        let date = match &source.date {
            Some(t) => Some(t.as_str()),
            None => None,
        };
        if validate_update(date).is_err() {
            return Err(AgyError::OutputInvalid);
        }
        i = i + 1;
    }
    Ok(())
}

/// A candidate binds a public day of a source: same URL and day, and its exact source date
/// text names that day and stands in its evidence excerpt.
pub open spec fn binds(c: EvidenceView, s: SourceView, day: Seq<char>) -> bool {
    &&& c.url == s.url
    &&& c.date == Some(day)
    &&& c.source_date_text matches Some(t)
    &&& c.evidence_excerpt matches Some(x)
    &&& source_date(t) == Ok::<Seq<char>, &'static str>(day)
    &&& contains_seq(x, t)
}

/// Whether a candidate binds a source's public date.
pub fn binds_public_date(candidate: &ScopeEvidence, source: &WebSource, public_date: &CalendarDate) -> (r: bool)
    ensures
        r == binds(candidate@, source@, public_date@),
{
    if !candidate.url.same_url(&source.url) {
        return false;
    }
    let same_day = match &candidate.date {
        Some(d) => d.same_day(public_date),
        None => false,
    };
    if !same_day {
        return false;
    }
    let (text, excerpt) = match (&candidate.source_date_text, &candidate.evidence_excerpt) {
        (Some(t), Some(x)) => (t, x),
        _ => {
            return false;
        },
    };
    let parsed = match source_date::parse(text.as_str()) {
        Ok(d) => d.same_day(public_date),
        Err(_) => false,
    };
    if !parsed {
        return false;
    }
    let t = chars_of(text.as_str());
    let x = chars_of(excerpt.as_str());
    contains_chars(x.as_slice(), t.as_slice())
}

/// Every public date of a source is a calendar date that some audit candidate binds.
pub open spec fn provenance_ok(sources: Seq<SourceView>, audit: AuditView) -> bool {
    forall|i: int| 0 <= i < sources.len() ==> ((#[trigger] sources[i]).date matches Some(d) ==> calendar_outcome(d)
        is Ok && exists|j: int| 0 <= j < audit.candidates.len() && binds(#[trigger] audit.candidates[j], sources[i], d))
}

/// Whether some candidate binds the public date.
fn some_candidate_binds(audit: &EvidenceAudit, source: &WebSource, day: &CalendarDate) -> (r: bool)
    ensures
        r == exists|j: int| 0 <= j < audit@.candidates.len() && binds(#[trigger] audit@.candidates[j], source@, day@),
{
    let ghost av = audit@;
    let mut j: usize = 0;
    while j < audit.candidates.len()
        invariant
            av == audit@,
            j <= audit.candidates@.len(),
            forall|k: int| 0 <= k < j ==> !binds(#[trigger] av.candidates[k], source@, day@),
        decreases audit.candidates@.len() - j,
    {
        proof {
            assert(av.candidates[j as int] == audit.candidates@[j as int]@);
        }
        if binds_public_date(&audit.candidates[j], source, day) {
            return true;
        }
        j = j + 1;
    }
    false
}

/// Check that every public date is bound by the audit.
pub fn validate_standard_provenance(sources: &Vec<WebSource>, audit: &EvidenceAudit) -> (r: Result<(), AgyError>)
    ensures
        r is Ok <==> provenance_ok(source_views(sources@), audit@),
        r matches Err(e) ==> e == AgyError::OutputInvalid,
{
    let ghost sv = source_views(sources@);
    let mut i: usize = 0;
    while i < sources.len()
        invariant
            sv == source_views(sources@),
            i <= sources@.len(),
            forall|k: int| 0 <= k < i ==> ((#[trigger] sv[k]).date matches Some(d) ==> calendar_outcome(d) is Ok
                && exists|j: int| 0 <= j < audit@.candidates.len() && binds(#[trigger] audit@.candidates[j], sv[k], d)),
        decreases sources@.len() - i,
    {
        let source = &sources[i];
        proof {
            assert(sv[i as int] == source@);
        }
        match &source.date {
            None => {},
            Some(text) => {
                let day = match CalendarDate::parse(text.as_str()) {
                    Ok(d) => d,
                    Err(_) => {
                        return Err(AgyError::OutputInvalid);
                    },
                };
                if !some_candidate_binds(audit, source, &day) {
                    return Err(AgyError::OutputInvalid);
                }
            },
        }
        i = i + 1;
    }
    Ok(())
}

} // verus!
