//! The caller's temporal comparison contract: named scopes, exact sources and a cutoff.

use vstd::prelude::*;
use crate::calendar_date::CalendarDate;
use crate::error::AgyError;
use crate::http_url::HttpUrl;
use crate::source_restriction::url_views;
use crate::types::VerificationMode;

verus! {

/// The most scopes one comparison may name.
pub const MAX_SCOPES: usize = 8;

/// The scopes, exact sources and inclusive cutoff of a temporal comparison.
#[derive(Debug)]
pub struct TemporalContract {
    pub scopes: Vec<String>,
    pub source_urls: Vec<HttpUrl>,
    pub cutoff: Option<CalendarDate>,
}

/// A contract seen as text.
pub struct ContractView {
    pub scopes: Seq<Seq<char>>,
    pub source_urls: Seq<Seq<char>>,
    pub cutoff: Option<Seq<char>>,
}

/// The text of each string.
pub open spec fn string_views(v: Seq<String>) -> Seq<Seq<char>> {
    v.map_values(|s: String| s@)
}

/// The text of an optional date.
pub open spec fn date_view(d: Option<CalendarDate>) -> Option<Seq<char>> {
    match d {
        Some(d) => Some(d@),
        None => None,
    }
}

impl View for TemporalContract {
    type V = ContractView;

    open spec fn view(&self) -> ContractView {
        ContractView {
            scopes: string_views(self.scopes@),
            source_urls: url_views(self.source_urls@),
            cutoff: date_view(self.cutoff),
        }
    }
}

/// What the caller's temporal options amount to. A standard run carries no contract, so it
/// may name neither a scope nor a cutoff; a temporal comparison names one to eight scopes, and
/// a single scope needs a cutoff.
pub open spec fn contract_outcome(
    verification: VerificationMode,
    scopes: Seq<Seq<char>>,
    source_urls: Seq<Seq<char>>,
    cutoff: Option<Seq<char>>,
) -> Result<Option<ContractView>, AgyError> {
    match verification {
        VerificationMode::Standard => if scopes.len() > 0 || cutoff is Some {
            Err(AgyError::InvalidCommand)
        } else {
            Ok(None)
        },
        VerificationMode::TemporalComparison => if scopes.len() == 0 || scopes.len() > MAX_SCOPES
            || (scopes.len() == 1 && cutoff is None) {
            Err(AgyError::InvalidCommand)
        } else {
            Ok(Some(ContractView { scopes, source_urls, cutoff }))
        },
    }
}

/// The outcome of a parse, seen as text.
pub open spec fn parsed_view(r: Result<Option<TemporalContract>, AgyError>) -> Result<Option<ContractView>, AgyError> {
    match r {
        Ok(Some(c)) => Ok(Some(c@)),
        Ok(None) => Ok(None),
        Err(e) => Err(e),
    }
}

impl TemporalContract {
    /// Validate the caller's temporal options.
    pub fn parse(
        verification: VerificationMode,
        scopes: Vec<String>,
        source_urls: Vec<HttpUrl>,
        cutoff: Option<CalendarDate>,
    ) -> (r: Result<Option<TemporalContract>, AgyError>)
        ensures
            parsed_view(r) == contract_outcome(
                verification,
                string_views(scopes@),
                url_views(source_urls@),
                date_view(cutoff),
            ),
    {
        match verification {
            VerificationMode::Standard => {
                if scopes.len() > 0 || cutoff.is_some() {
                    Err(AgyError::InvalidCommand)
                } else {
                    Ok(None)
                }
            },
            VerificationMode::TemporalComparison => {
                if scopes.len() == 0 || scopes.len() > MAX_SCOPES || (scopes.len() == 1 && cutoff.is_none()) {
                    Err(AgyError::InvalidCommand)
                } else {
                    Ok(Some(TemporalContract { scopes, source_urls, cutoff }))
                }
            },
        }
    }
}

impl Clone for TemporalContract {
    fn clone(&self) -> (r: Self)
        ensures
            r@ == self@,
    {
        let mut scopes: Vec<String> = Vec::new();
        let mut i: usize = 0;
        while i < self.scopes.len()
            invariant
                i <= self.scopes@.len(),
                scopes@.len() == i,
                forall|k: int| 0 <= k < i ==> #[trigger] scopes@[k]@ == self.scopes@[k]@,
            decreases self.scopes@.len() - i,
        {
            scopes.push(self.scopes[i].clone());
            i = i + 1;
        }
        let mut urls: Vec<HttpUrl> = Vec::new();
        let mut j: usize = 0;
        while j < self.source_urls.len()
            invariant
                j <= self.source_urls@.len(),
                urls@.len() == j,
                forall|k: int| 0 <= k < j ==> #[trigger] urls@[k]@ == self.source_urls@[k]@,
            decreases self.source_urls@.len() - j,
        {
            urls.push(self.source_urls[j].clone());
            j = j + 1;
        }
        let cutoff = match &self.cutoff {
            Some(d) => Some(d.clone()),
            None => None,
        };
        proof {
            assert(string_views(scopes@) =~= string_views(self.scopes@));
            assert(url_views(urls@) =~= url_views(self.source_urls@));
        }
        TemporalContract { scopes, source_urls: urls, cutoff }
    }
}

} // verus!
