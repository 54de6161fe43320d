//! Strict checks of Antigravity `stream-json` evidence and terminal output.

use vstd::prelude::*;

pub mod generated_content_policy;
pub mod research_tool_policy;
pub mod sequence;
pub mod source_policy;
pub mod stream;

use research_tool_policy::{assess_evidence_policy, evidence_assessment, EvidencePolicyAssessment};
use sequence::{stream_well_formed, terminal_index, terminal_output, validate};
use source_policy::{grounding_requirement, requirement_view, spec_grounding, GroundingRequirement};
use stream::{event_views, Event, EventView};
use crate::error::AgyError;
use crate::research_policy::{PolicyView, ResearchToolPolicy};
use crate::types::Operation;

verus! {

/// A run whose grounding transports are still to be resolved.
#[derive(Debug)]
pub struct PendingGrounding;

/// A run whose grounding transports were resolved.
#[derive(Debug)]
pub struct GroundingResolved;

/// An accepted run: its response and what grounding must still be resolved.
#[derive(Debug)]
pub struct ParsedRun<R, State> {
    pub response: R,
    pub grounding: GroundingRequirement,
    pub state: core::marker::PhantomData<State>,
}

/// Why a run was not accepted: invalid, or valid but for an unlisted tool, which a retry may
/// recover from.
#[derive(Debug)]
pub enum StructuredRunError<R> {
    Invalid(AgyError),
    RecoverableUnlistedTool(R),
}

impl<R> StructuredRunError<R> {
    /// The error the caller reports.
    pub fn into_public_error(self) -> (e: AgyError)
        ensures
            e == match self {
                StructuredRunError::Invalid(e) => e,
                StructuredRunError::RecoverableUnlistedTool(_) => AgyError::OutputInvalid,
            },
    {
        match self {
            StructuredRunError::Invalid(error) => error,
            StructuredRunError::RecoverableUnlistedTool(_) => AgyError::OutputInvalid,
        }
    }
}

impl<R> ParsedRun<R, GroundingResolved> {
    /// The response of a resolved run.
    pub fn into_response(self) -> (r: R)
        ensures
            r == self.response,
    {
        self.response
    }
}

impl<R> ParsedRun<R, PendingGrounding> {
    /// The same run, its grounding resolved.
    pub fn mark_resolved(self) -> (r: ParsedRun<R, GroundingResolved>)
        ensures
            r.response == self.response,
            requirement_view(r.grounding) == requirement_view(self.grounding),
    {
        ParsedRun { response: self.response, grounding: self.grounding, state: core::marker::PhantomData }
    }
}

/// What happens to a run.
pub enum RunOutcome {
    Invalid,
    Recoverable,
    Accepted,
}

/// A run is accepted when its stream is well formed, its final result carries structured
/// output that parsed into a response, and its evidence satisfies the policy; an unlisted tool
/// makes it recoverable; anything else makes it invalid.
pub open spec fn run_outcome(es: Seq<EventView>, has_response: bool, operation: Operation, p: PolicyView, home: Option<Seq<char>>) -> RunOutcome {
    if !stream_well_formed(es) || terminal_index(es) is None || !has_response {
        RunOutcome::Invalid
    } else {
        match evidence_assessment(operation, p, es, home) {
            EvidencePolicyAssessment::Satisfied => RunOutcome::Accepted,
            EvidencePolicyAssessment::RecoverableUnlistedTool => RunOutcome::Recoverable,
            EvidencePolicyAssessment::Rejected => RunOutcome::Invalid,
        }
    }
}

/// Judge one run: its events, and the response its terminal structured output parsed into
/// (`None` when that output did not parse). `home` is where generated content lives.
pub fn parse_structured_run<R>(
    events: &Vec<Event>,
    response: Option<R>,
    operation: Operation,
    policy: &ResearchToolPolicy,
    home: Option<&str>,
) -> (r: Result<ParsedRun<R, PendingGrounding>, StructuredRunError<R>>)
    ensures
        ({
            let outcome = run_outcome(event_views(events@), response is Some, operation, policy@, match home { Some(h) => Some(h@), None => None });
            match r {
                Ok(run) => outcome is Accepted && Some(run.response) == response
                    && requirement_view(run.grounding) == spec_grounding(event_views(events@), policy@),
                Err(StructuredRunError::Invalid(e)) => outcome is Invalid && e == AgyError::OutputInvalid,
                Err(StructuredRunError::RecoverableUnlistedTool(resp)) => outcome is Recoverable && Some(resp) == response,
            }
        }),
{
    if validate(events).is_err() {
        return Err(StructuredRunError::Invalid(AgyError::OutputInvalid));
    }
    if terminal_output(events).is_err() {
        return Err(StructuredRunError::Invalid(AgyError::OutputInvalid));
    }
    let response = match response {
        Some(r) => r,
        None => {
            return Err(StructuredRunError::Invalid(AgyError::OutputInvalid));
        },
    };
    match assess_evidence_policy(operation, policy, events, home) {
        EvidencePolicyAssessment::Satisfied => {},
        EvidencePolicyAssessment::RecoverableUnlistedTool => {
            return Err(StructuredRunError::RecoverableUnlistedTool(response));
        },
        EvidencePolicyAssessment::Rejected => {
            return Err(StructuredRunError::Invalid(AgyError::OutputInvalid));
        },
    }
    Ok(ParsedRun { response, grounding: grounding_requirement(events, policy), state: core::marker::PhantomData })
}

} // verus!

verus! {

/// An accepted run has a well-formed stream whose final result carries structured output that
/// parsed, and its tool attempts were all safe: no unlisted tool ran.
pub proof fn law_accepted_runs_are_clean(es: Seq<EventView>, has_response: bool, operation: Operation, p: PolicyView, home: Option<Seq<char>>)
    requires
        run_outcome(es, has_response, operation, p, home) is Accepted,
    ensures
        stream_well_formed(es),
        terminal_index(es) is Some,
        has_response,
        generated_content_policy::tool_attempts(es, home) == generated_content_policy::ToolAttemptAssessment::Safe,
{
}

/// Under a plain budget, an accepted run made no more web attempts than the budget allows and
/// completed the web evidence its operation needs.
pub proof fn law_budget_bounds_attempts(es: Seq<EventView>, operation: Operation, budget: crate::research_policy::ResearchToolBudget, home: Option<Seq<char>>)
    requires
        evidence_assessment(operation, PolicyView::Budget(budget), es, home) == EvidencePolicyAssessment::Satisfied,
    ensures
        research_tool_policy::attempt_count(es) matches Some(n) && n <= crate::research_policy::budget_maximum(budget),
        sequence::required_evidence(operation, sequence::completed_tools(es)),
{
}

/// A restricted run that is accepted kept every tool step within the caller's restriction.
pub proof fn law_restricted_runs_stay_inside(es: Seq<EventView>, has_response: bool, operation: Operation, budget: crate::research_policy::ResearchToolBudget, restriction: crate::source_restriction::RestrictionView, home: Option<Seq<char>>)
    requires
        run_outcome(es, has_response, operation, PolicyView::Restricted { budget, restriction }, home) is Accepted,
    ensures
        source_policy::attempts_allowed(es, restriction),
{
}

} // verus!
