//! Decisions of one content execution: the command line, the model, the recovery steps of a
//! standard search, what follows a validated answer, and how temporal scopes are recovered.

use vstd::prelude::*;
use crate::error::AgyError;
use crate::invocation::{model_effort_suffix, slug_effort};
use crate::prompt::PromptKind;
use crate::request::{is_scope_request, ContentRequest, SearchRequest, TemporalScopeRequest};
use crate::response::request_validation::request_outcome;
use crate::response_models::{str_views, DocumentView, ResponseDocument};
use crate::text::{decimal, push_decimal, string_from_chars};
use crate::types::Effort;

verus! {

/// The name of the isolated agent each run uses.
pub const AGENT_NAME: &'static str = "agy-search";

/// The effort a run uses: the one a pinned model names by its suffix, else the caller's.
pub open spec fn run_effort(model: Option<Seq<char>>, effort: Option<Effort>) -> Option<Effort> {
    match model {
        Some(m) => match slug_effort(m) {
            Some(e) => Some(e),
            None => effort,
        },
        None => effort,
    }
}

/// The effort a run with `model` uses.
pub fn standard_effort(model: Option<&str>, effort: Option<Effort>) -> (r: Option<Effort>)
    ensures
        r == run_effort(
            match model {
                Some(m) => Some(m@),
                None => None,
            },
            effort,
        ),
{
    match model {
        Some(m) => match model_effort_suffix(m) {
            Some(e) => Some(e),
            None => effort,
        },
        None => effort,
    }
}

/// The name of an effort on the command line.
pub open spec fn effort_name(effort: Effort) -> Seq<char> {
    match effort {
        Effort::Low => "low"@,
        Effort::Medium => "medium"@,
        Effort::High => "high"@,
    }
}

/// The name of an effort on the command line.
pub fn effort_text(effort: Effort) -> (s: &'static str)
    ensures
        s@ == effort_name(effort),
{
    match effort {
        Effort::Low => "low",
        Effort::Medium => "medium",
        Effort::High => "high",
    }
}

/// The digits of `n` after the decimal point, three of them with trailing zeros dropped.
pub open spec fn fraction_digits(n: nat) -> Seq<char> {
    if n % 10 != 0 {
        seq![((n / 100) + 48) as char, (((n / 10) % 10) + 48) as char, ((n % 10) + 48) as char]
    } else if (n / 10) % 10 != 0 {
        seq![((n / 100) + 48) as char, (((n / 10) % 10) + 48) as char]
    } else {
        seq![((n / 100) + 48) as char]
    }
}

/// A duration in milliseconds as seconds, the fraction without trailing zeros and without a
/// point where there is none, then `s`.
pub open spec fn print_timeout(millis: nat) -> Seq<char> {
    if millis % 1000 == 0 {
        decimal(millis / 1000) + "s"@
    } else {
        decimal(millis / 1000) + "."@ + fraction_digits(millis % 1000) + "s"@
    }
}

/// Spell a timeout for `--print-timeout`.
fn print_timeout_string(millis: u64) -> (s: String)
    ensures
        s@ == print_timeout(millis as nat),
{
    proof {
        reveal_strlit("s");
        reveal_strlit(".");
    }
    let mut out: Vec<char> = Vec::new();
    push_decimal(&mut out, millis / 1000);
    let n = millis % 1000;
    if n != 0 {
        out.push('.');
        out.push(((n / 100) as u8 + 48u8) as char);
        if n % 10 != 0 {
            out.push((((n / 10) % 10) as u8 + 48u8) as char);
            out.push(((n % 10) as u8 + 48u8) as char);
        } else if (n / 10) % 10 != 0 {
            out.push((((n / 10) % 10) as u8 + 48u8) as char);
        }
    }
    out.push('s');
    proof {
        assert(out@ =~= print_timeout(millis as nat));
    }
    string_from_chars(out.as_slice())
}

/// The text of each string.
pub open spec fn arg_texts(v: Seq<String>) -> Seq<Seq<char>> {
    v.map_values(|s: String| s@)
}

/// The Antigravity command line of one run: no slash commands, the isolated agent, the time
/// left, streamed JSON under the schema, the model and effort where chosen, then the prompt.
pub open spec fn print_args(
    executable: Seq<char>,
    remaining_millis: nat,
    schema: Seq<char>,
    model: Option<Seq<char>>,
    effort: Option<Effort>,
    prompt: Seq<char>,
) -> Seq<Seq<char>> {
    seq![
        executable,
        "--disable-slash-commands"@,
        "--agent"@,
        AGENT_NAME@,
        "--print-timeout"@,
        print_timeout(remaining_millis),
        "--output-format"@,
        "stream-json"@,
        "--json-schema"@,
        schema,
    ] + match model {
        Some(m) => seq!["--model"@, m],
        None => Seq::empty(),
    } + match effort {
        Some(e) => seq!["--effort"@, effort_name(e)],
        None => Seq::empty(),
    } + seq!["-p"@, prompt]
}

/// Build the Antigravity command line of one run.
pub fn print_argv(
    executable: &str,
    remaining_millis: u64,
    schema: String,
    model: Option<&str>,
    effort: Option<Effort>,
    prompt: String,
) -> (argv: Vec<String>)
    ensures
        arg_texts(argv@) == print_args(
            executable@,
            remaining_millis as nat,
            schema@,
            match model {
                Some(m) => Some(m@),
                None => None,
            },
            effort,
            prompt@,
        ),
{
    let ghost schema_text = schema@;
    let ghost prompt_text = prompt@;
    let mut argv: Vec<String> = Vec::new();
    argv.push(String::from_str(executable));
    argv.push(String::from_str("--disable-slash-commands"));
    argv.push(String::from_str("--agent"));
    argv.push(String::from_str(AGENT_NAME));
    argv.push(String::from_str("--print-timeout"));
    argv.push(print_timeout_string(remaining_millis));
    argv.push(String::from_str("--output-format"));
    argv.push(String::from_str("stream-json"));
    argv.push(String::from_str("--json-schema"));
    argv.push(schema);
    match model {
        Some(m) => {
            argv.push(String::from_str("--model"));
            argv.push(String::from_str(m));
        },
        None => {},
    }
    match effort {
        Some(e) => {
            argv.push(String::from_str("--effort"));
            argv.push(String::from_str(effort_text(e)));
        },
        None => {},
    }
    argv.push(String::from_str("-p"));
    argv.push(prompt);
    proof {
        assert(arg_texts(argv@) =~= print_args(
            executable@,
            remaining_millis as nat,
            schema_text,
            match model {
                Some(m) => Some(m@),
                None => None,
            },
            effort,
            prompt_text,
        ));
    }
    argv
}

/// Which attempt of a standard search ran.
#[derive(Clone, Copy, Debug, PartialEq, Eq, Structural)]
pub enum SearchAttempt {
    First,
    Retry,
    FinalRetry,
}

/// How one standard search attempt ended.
#[derive(Clone, Copy, Debug, PartialEq, Eq, Structural)]
pub enum SearchAttemptOutcome {
    /// A validated response.
    Response,
    /// Every result was unreachable.
    NoReachableResults,
    /// The model used a tool outside the list in a way that a new attempt may avoid.
    RecoverableUnlistedTool,
}

/// What follows an attempt.
#[derive(Clone, Copy, Debug, PartialEq, Eq, Structural)]
pub enum SearchStep {
    /// Return the attempt's response.
    Accept,
    /// Run another attempt with the prompt of this kind.
    Run(SearchAttempt, PromptKind),
    /// Give up.
    Fail(AgyError),
}

/// The step after an attempt: a response is returned; otherwise the first attempt is
/// retried, the retry gets a final attempt, and the final attempt fails the search.
pub open spec fn next_search_step(attempt: SearchAttempt, outcome: SearchAttemptOutcome) -> SearchStep {
    if outcome == SearchAttemptOutcome::Response {
        SearchStep::Accept
    } else {
        match attempt {
            SearchAttempt::First => SearchStep::Run(SearchAttempt::Retry, PromptKind::StandardSearchRetry),
            SearchAttempt::Retry => SearchStep::Run(SearchAttempt::FinalRetry, PromptKind::StandardSearchFinalRetry),
            SearchAttempt::FinalRetry => SearchStep::Fail(AgyError::OutputInvalid),
        }
    }
}

/// Decide the step after a standard search attempt.
pub fn standard_search_step(attempt: SearchAttempt, outcome: SearchAttemptOutcome) -> (step: SearchStep)
    ensures
        step == next_search_step(attempt, outcome),
{
    match outcome {
        SearchAttemptOutcome::Response => SearchStep::Accept,
        SearchAttemptOutcome::NoReachableResults | SearchAttemptOutcome::RecoverableUnlistedTool => match attempt {
            SearchAttempt::First => SearchStep::Run(SearchAttempt::Retry, PromptKind::StandardSearchRetry),
            SearchAttempt::Retry => SearchStep::Run(SearchAttempt::FinalRetry, PromptKind::StandardSearchFinalRetry),
            SearchAttempt::FinalRetry => SearchStep::Fail(AgyError::OutputInvalid),
        },
    }
}

/// The number of an attempt, counted from one.
pub open spec fn attempt_number(attempt: SearchAttempt) -> nat {
    match attempt {
        SearchAttempt::First => 1,
        SearchAttempt::Retry => 2,
        SearchAttempt::FinalRetry => 3,
    }
}

/// A standard search runs at most three attempts: each step either ends the search or runs the
/// next attempt, and no step follows the third.
pub proof fn law_search_attempts_are_bounded(attempt: SearchAttempt, outcome: SearchAttemptOutcome)
    ensures
        match next_search_step(attempt, outcome) {
            SearchStep::Run(next, _) => attempt_number(next) == attempt_number(attempt) + 1 && attempt_number(next) <= 3,
            _ => true,
        },
        attempt == SearchAttempt::FinalRetry ==> !(next_search_step(attempt, outcome) is Run),
        outcome == SearchAttemptOutcome::Response <==> next_search_step(attempt, outcome) == SearchStep::Accept,
{
}

} // verus!

verus! {

/// How the temporal evidence of a search answer was assessed.
#[derive(Clone, Copy, Debug, PartialEq, Eq, Structural)]
pub enum TemporalAssessmentKind {
    /// The answer's evidence is complete.
    Verified,
    /// The answer cannot be used.
    Invalid,
    /// Some scopes need their own recovery searches.
    Recoverable,
}

/// What a failed check of the fetched sources leads to.
#[derive(Clone, Copy, Debug, PartialEq, Eq, Structural)]
pub enum OnAuditMismatch {
    /// Recover every scope of the contract.
    RecoverContractScopes,
    /// Refuse the answer.
    Fail,
}

/// What follows a validated run.
#[derive(Clone, Copy, Debug, PartialEq, Eq, Structural)]
pub enum VerifyAction {
    /// Return the answer.
    Accept,
    /// Refuse the answer.
    Fail(AgyError),
    /// Fetch the contract's sources and check the answer's audit against them.
    CheckSources(OnAuditMismatch),
    /// Fetch the contract's sources and recover the scopes the assessment names.
    Recover,
}

/// The action after a run: a search answer is judged by its assessment, then by its request,
/// the temporal verification of its evidence and its temporal contract; other answers by their
/// request and, for research, the temporal verification and the contract.
pub open spec fn verify_action(
    request: ContentRequest,
    response: DocumentView,
    assessment: TemporalAssessmentKind,
    temporal: Result<(), AgyError>,
) -> VerifyAction {
    match request {
        ContentRequest::Search(s) => if !(response is Search) {
            VerifyAction::Fail(AgyError::OutputInvalid)
        } else {
            match assessment {
                TemporalAssessmentKind::Verified => match request_outcome(response, request, temporal) {
                    Err(e) => VerifyAction::Fail(e),
                    Ok(_) => if s.temporal_contract is None {
                        VerifyAction::Accept
                    } else {
                        VerifyAction::CheckSources(OnAuditMismatch::RecoverContractScopes)
                    },
                },
                TemporalAssessmentKind::Invalid => VerifyAction::Fail(AgyError::OutputInvalid),
                TemporalAssessmentKind::Recoverable => if s.temporal_contract is None {
                    VerifyAction::Fail(AgyError::OutputInvalid)
                } else {
                    VerifyAction::Recover
                },
            }
        },
        ContentRequest::Research(s) => match request_outcome(response, request, temporal) {
            Err(e) => VerifyAction::Fail(e),
            Ok(_) => if s.temporal_contract is None {
                VerifyAction::Accept
            } else {
                VerifyAction::CheckSources(OnAuditMismatch::Fail)
            },
        },
        _ => match request_outcome(response, request, temporal) {
            Err(e) => VerifyAction::Fail(e),
            Ok(_) => VerifyAction::Accept,
        },
    }
}

/// Decide what follows a validated run. `assessment` is how the temporal evidence of a search
/// answer was assessed, and `temporal` the outcome of the temporal verification of a search or
/// research answer's evidence; other answers ignore both.
pub fn verification_step(
    request: &ContentRequest,
    response: &ResponseDocument,
    assessment: TemporalAssessmentKind,
    temporal: Result<(), AgyError>,
) -> (a: VerifyAction)
    ensures
        a == verify_action(*request, response@, assessment, temporal),
{
    match request {
        ContentRequest::Search(s) => {
            let is_search = match response {
                ResponseDocument::Search(_) => true,
                _ => false,
            };
            if !is_search {
                return VerifyAction::Fail(AgyError::OutputInvalid);
            }
            match assessment {
                TemporalAssessmentKind::Verified => match response.validate_request(request, temporal) {
                    Err(e) => VerifyAction::Fail(e),
                    Ok(_) => if s.temporal_contract.is_none() {
                        VerifyAction::Accept
                    } else {
                        VerifyAction::CheckSources(OnAuditMismatch::RecoverContractScopes)
                    },
                },
                TemporalAssessmentKind::Invalid => VerifyAction::Fail(AgyError::OutputInvalid),
                TemporalAssessmentKind::Recoverable => if s.temporal_contract.is_none() {
                    VerifyAction::Fail(AgyError::OutputInvalid)
                } else {
                    VerifyAction::Recover
                },
            }
        },
        ContentRequest::Research(s) => match response.validate_request(request, temporal) {
            Err(e) => VerifyAction::Fail(e),
            Ok(_) => if s.temporal_contract.is_none() {
                VerifyAction::Accept
            } else {
                VerifyAction::CheckSources(OnAuditMismatch::Fail)
            },
        },
        ContentRequest::Extract(_) | ContentRequest::SiteMap(_) | ContentRequest::Crawl(_) => {
            match response.validate_request(request, temporal) {
                Err(e) => VerifyAction::Fail(e),
                Ok(_) => VerifyAction::Accept,
            }
        },
    }
}

} // verus!

verus! {

/// How many scope searches a recovery runs at once.
pub const MAX_RECOVERY_CONCURRENCY: usize = 4;

/// What recovering a search's temporal scopes does first.
pub enum RecoveryAction {
    /// Build the scopes from the facts of the fetched sources.
    MergeLocalFacts,
    /// Search each scope with its own request, in the order of the plan.
    SearchScopes(Vec<TemporalScopeRequest>),
    /// Refuse the answer.
    Fail(AgyError),
}

/// The recovery of `request`'s scopes: a search without a temporal contract cannot be
/// recovered; where the fetched sources settle every scope locally, their facts are merged;
/// otherwise each scope of the plan gets its own scoped search request.
pub open spec fn recovery_ok(
    a: RecoveryAction,
    request: SearchRequest,
    scopes: Seq<Seq<char>>,
    local_complete: bool,
) -> bool {
    if request.temporal_contract is None {
        a == RecoveryAction::Fail(AgyError::OutputInvalid)
    } else if local_complete {
        a is MergeLocalFacts
    } else {
        match a {
            RecoveryAction::SearchScopes(requests) => requests@.len() == scopes.len()
                && forall|i: int| 0 <= i < scopes.len() ==> is_scope_request(#[trigger] requests@[i], request, scopes[i]),
            _ => false,
        }
    }
}

/// Decide how the scopes of a recovery plan are recovered. `local_complete` says whether the
/// fetched sources settle every scope of the plan by themselves.
pub fn recovery_step(request: &SearchRequest, scopes: &Vec<String>, local_complete: bool) -> (a: RecoveryAction)
    ensures
        recovery_ok(a, *request, str_views(scopes@), local_complete),
{
    if request.temporal_contract.is_none() {
        return RecoveryAction::Fail(AgyError::OutputInvalid);
    }
    if local_complete {
        return RecoveryAction::MergeLocalFacts;
    }
    let ghost sv = str_views(scopes@);
    let mut requests: Vec<TemporalScopeRequest> = Vec::new();
    let mut i: usize = 0;
    while i < scopes.len()
        invariant
            sv == str_views(scopes@),
            i <= scopes@.len(),
            requests@.len() == i,
            forall|k: int| 0 <= k < i ==> is_scope_request(#[trigger] requests@[k], *request, sv[k]),
        decreases scopes@.len() - i,
    {
        let scope_request = TemporalScopeRequest::from_search(request, scopes[i].clone());
        requests.push(scope_request);
        i = i + 1;
    }
    RecoveryAction::SearchScopes(requests)
}

} // verus!
