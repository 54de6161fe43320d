use agy_search::error::AgyError;
use agy_search::execution::{
    print_argv, standard_effort, standard_search_step, SearchAttempt, SearchAttemptOutcome,
    SearchStep,
};
use agy_search::prompt::PromptKind;
use agy_search::types::Effort;

#[test]
fn print_argv_names_the_agent_schema_model_effort_and_prompt() {
    let argv = print_argv("agy", 119_500, "{\"type\":\"object\"}".to_owned(), Some("gemini-3.6-flash-low"), Some(Effort::Low), "find it".to_owned());
    assert_eq!(
        argv,
        vec![
            "agy", "--disable-slash-commands", "--agent", "agy-search", "--print-timeout", "119.5s",
            "--output-format", "stream-json", "--json-schema", "{\"type\":\"object\"}", "--model",
            "gemini-3.6-flash-low", "--effort", "low", "-p", "find it",
        ]
    );
    let bare = print_argv("/opt/agy", 120_000, "{}".to_owned(), None, None, "p".to_owned());
    assert_eq!(bare[5], "120s");
    assert_eq!(bare.len(), 12);
    let odd = print_argv("agy", 1_005, "{}".to_owned(), None, Some(Effort::High), "p".to_owned());
    assert_eq!(odd[5], "1.005s");
    assert_eq!(odd[10..12], ["--effort".to_owned(), "high".to_owned()]);
    let tenth = print_argv("agy", 2_040, "{}".to_owned(), None, None, "p".to_owned());
    assert_eq!(tenth[5], "2.04s");
}

#[test]
fn a_pinned_model_suffix_sets_the_effort() {
    assert_eq!(standard_effort(Some("model-high"), Some(Effort::Low)), Some(Effort::High));
    assert_eq!(standard_effort(Some("model"), Some(Effort::Medium)), Some(Effort::Medium));
    assert_eq!(standard_effort(None, None), None);
}

#[test]
fn standard_search_retries_twice_then_fails() {
    assert_eq!(standard_search_step(SearchAttempt::First, SearchAttemptOutcome::Response), SearchStep::Accept);
    assert_eq!(
        standard_search_step(SearchAttempt::First, SearchAttemptOutcome::NoReachableResults),
        SearchStep::Run(SearchAttempt::Retry, PromptKind::StandardSearchRetry)
    );
    assert_eq!(
        standard_search_step(SearchAttempt::Retry, SearchAttemptOutcome::RecoverableUnlistedTool),
        SearchStep::Run(SearchAttempt::FinalRetry, PromptKind::StandardSearchFinalRetry)
    );
    assert_eq!(
        standard_search_step(SearchAttempt::FinalRetry, SearchAttemptOutcome::NoReachableResults),
        SearchStep::Fail(AgyError::OutputInvalid)
    );
    assert_eq!(standard_search_step(SearchAttempt::FinalRetry, SearchAttemptOutcome::Response), SearchStep::Accept);
}

use agy_search::execution::{verification_step, OnAuditMismatch, TemporalAssessmentKind, VerifyAction};
use agy_search::http_url::HttpUrl;
use agy_search::request::{ContentRequest, ExtractRequest, SearchRequest};
use agy_search::response_models::{EvidenceAudit, ExtractPage, ExtractResponse, ResponseDocument, ScopeEvidence, SearchResponse, WebSource};
use agy_search::source_restriction::SourceRestriction;
use agy_search::temporal_contract::TemporalContract;
use agy_search::types::{DatePolicy, ScopePolicy, SourcePolicy, VerificationMode};

fn url(value: &str) -> HttpUrl {
    HttpUrl::parse(value).expect("url")
}

fn answer() -> ResponseDocument {
    ResponseDocument::Search(SearchResponse {
        evidence_audit: EvidenceAudit {
            candidates: vec![ScopeEvidence {
                scope: "Stable".to_owned(),
                claim: "released".to_owned(),
                url: url("https://example.com/a"),
                date: None,
                value: None,
                source_date_text: None,
                evidence_excerpt: None,
            }],
            coverage_complete: true,
            conclusion: "done".to_owned(),
        },
        results: vec![WebSource { title: "t".to_owned(), url: url("https://example.com/a"), snippet: "s".to_owned(), date: None, last_updated: None }],
    })
}

fn search(mode: VerificationMode, contract: Option<TemporalContract>) -> ContentRequest {
    ContentRequest::Search(SearchRequest {
        query: "q".to_owned(),
        source_policy: SourcePolicy::PrimaryFirst,
        scope_policy: ScopePolicy::CompleteRequestedScope,
        date_policy: DatePolicy::ExplicitSourceOnly,
        verification: mode,
        temporal_contract: contract,
        source_restriction: SourceRestriction::Unrestricted,
        max_results: 5,
        country: None,
        max_tokens_per_page: None,
    })
}

#[test]
fn verification_steps_follow_assessment_request_and_contract() {
    let plain = search(VerificationMode::Standard, None);
    assert_eq!(verification_step(&plain, &answer(), TemporalAssessmentKind::Verified, Ok(())), VerifyAction::Accept);
    assert_eq!(verification_step(&plain, &answer(), TemporalAssessmentKind::Invalid, Ok(())), VerifyAction::Fail(AgyError::OutputInvalid));
    assert_eq!(verification_step(&plain, &answer(), TemporalAssessmentKind::Recoverable, Ok(())), VerifyAction::Fail(AgyError::OutputInvalid));
    let contract = TemporalContract { scopes: vec!["Stable".to_owned(), "Beta".to_owned()], source_urls: Vec::new(), cutoff: None };
    let temporal = search(VerificationMode::TemporalComparison, Some(contract));
    assert_eq!(
        verification_step(&temporal, &answer(), TemporalAssessmentKind::Verified, Ok(())),
        VerifyAction::CheckSources(OnAuditMismatch::RecoverContractScopes)
    );
    assert_eq!(verification_step(&temporal, &answer(), TemporalAssessmentKind::Recoverable, Ok(())), VerifyAction::Recover);
    let extract = ContentRequest::Extract(ExtractRequest { urls: vec![url("https://example.com/a")], query: None });
    assert_eq!(verification_step(&plain, &ResponseDocument::models(vec![]), TemporalAssessmentKind::Verified, Ok(())), VerifyAction::Fail(AgyError::OutputInvalid));
    let pages = ResponseDocument::Extract(ExtractResponse {
        results: vec![ExtractPage { url: url("https://example.com/a"), title: "t".to_owned(), content: "c".to_owned() }],
    });
    assert_eq!(verification_step(&extract, &pages, TemporalAssessmentKind::Invalid, Ok(())), VerifyAction::Accept);
    assert_eq!(verification_step(&extract, &answer(), TemporalAssessmentKind::Verified, Ok(())), VerifyAction::Fail(AgyError::OutputInvalid));
}

#[test]
fn verification_steps_pass_on_the_temporal_outcome() {
    let plain = search(VerificationMode::Standard, None);
    assert_eq!(
        verification_step(&plain, &answer(), TemporalAssessmentKind::Verified, Err(AgyError::Unavailable)),
        VerifyAction::Fail(AgyError::Unavailable)
    );
    assert_eq!(
        verification_step(&plain, &answer(), TemporalAssessmentKind::Invalid, Err(AgyError::Unavailable)),
        VerifyAction::Fail(AgyError::OutputInvalid)
    );
    let extract = ContentRequest::Extract(ExtractRequest { urls: vec![url("https://example.com/a")], query: None });
    let pages = ResponseDocument::Extract(ExtractResponse {
        results: vec![ExtractPage { url: url("https://example.com/a"), title: "t".to_owned(), content: "c".to_owned() }],
    });
    assert_eq!(verification_step(&extract, &pages, TemporalAssessmentKind::Verified, Err(AgyError::Unavailable)), VerifyAction::Accept);
}

use agy_search::execution::{recovery_step, RecoveryAction, MAX_RECOVERY_CONCURRENCY};

fn search_request(contract: Option<TemporalContract>) -> SearchRequest {
    match search(VerificationMode::TemporalComparison, contract) {
        ContentRequest::Search(request) => request,
        _ => unreachable!(),
    }
}

#[test]
fn recovery_searches_each_scope_unless_the_sources_settle_them() {
    let contract = TemporalContract { scopes: vec!["Stable".to_owned(), "Beta".to_owned()], source_urls: Vec::new(), cutoff: None };
    let scopes = vec!["Stable".to_owned(), "Beta".to_owned()];
    let request = search_request(Some(contract));
    assert!(matches!(recovery_step(&request, &scopes, true), RecoveryAction::MergeLocalFacts));
    match recovery_step(&request, &scopes, false) {
        RecoveryAction::SearchScopes(requests) => {
            assert_eq!(requests.len(), 2);
            assert_eq!(requests[0].scope, "Stable");
            assert_eq!(requests[1].scope, "Beta");
            assert!(requests[1].required_search_query.as_str().starts_with("For exact scope \"Beta\" only"));
            assert_eq!(requests[1].query, "q");
        },
        _ => panic!("unsettled scopes must be searched"),
    }
    assert!(matches!(
        recovery_step(&search_request(None), &scopes, false),
        RecoveryAction::Fail(AgyError::OutputInvalid)
    ));
    assert_eq!(MAX_RECOVERY_CONCURRENCY, 4);
}
