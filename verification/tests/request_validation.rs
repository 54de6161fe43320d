use agy_search::error::AgyError;
use agy_search::http_url::HttpUrl;
use agy_search::request::{ContentRequest, CrawlRequest, ExtractRequest, MapRequest, SearchRequest};
use agy_search::response::request_validation::validate_site;
use agy_search::response_models::{
    CrawlPage, CrawlResponse, EvidenceAudit, ExtractPage, ExtractResponse, MapLink, MapResponse,
    ResponseDocument, ScopeEvidence, SearchResponse, WebSource,
};
use agy_search::source_restriction::{SourceDomain, SourceRestriction};
use agy_search::types::{DatePolicy, ScopePolicy, SourcePolicy, VerificationMode};

fn url(value: &str) -> HttpUrl {
    HttpUrl::parse(value).expect("test URL must parse")
}

fn page(value: &str) -> ExtractPage {
    ExtractPage { url: url(value), title: "t".to_owned(), content: "c".to_owned() }
}

#[test]
fn extraction_must_return_exactly_the_requested_urls() {
    let request = ContentRequest::Extract(ExtractRequest {
        urls: vec![url("https://a.example/1"), url("https://b.example/2")],
        query: None,
    });
    let same = ResponseDocument::Extract(ExtractResponse {
        results: vec![page("https://b.example/2"), page("https://a.example/1")],
    });
    assert_eq!(same.validate_request(&request, Ok(())), Ok(()));
    let missing = ResponseDocument::Extract(ExtractResponse { results: vec![page("https://a.example/1")] });
    assert_eq!(missing.validate_request(&request, Ok(())), Err(AgyError::OutputInvalid));
    let extra = ResponseDocument::Extract(ExtractResponse {
        results: vec![page("https://a.example/1"), page("https://b.example/2"), page("https://c.example/3")],
    });
    assert_eq!(extra.validate_request(&request, Ok(())), Err(AgyError::OutputInvalid));
}

#[test]
fn a_document_of_another_operation_does_not_answer() {
    let request = ContentRequest::Extract(ExtractRequest { urls: vec![url("https://a.example/1")], query: None });
    let status = ResponseDocument::status("1.0".to_owned(), 1);
    assert_eq!(status.validate_request(&request, Ok(())), Err(AgyError::OutputInvalid));
}

#[test]
fn site_answers_stay_on_the_requested_origin_unless_external_is_allowed() {
    let requested = url("https://docs.example/");
    let inside = url("https://docs.example/a");
    let outside = url("https://other.example/b");
    assert_eq!(validate_site(&requested, &inside, &vec![&inside], 10, false), Ok(()));
    assert_eq!(validate_site(&requested, &inside, &vec![&inside, &outside], 10, false), Err(AgyError::OutputInvalid));
    assert_eq!(validate_site(&requested, &inside, &vec![&inside, &outside], 10, true), Ok(()));
    assert_eq!(validate_site(&requested, &outside, &vec![&inside], 10, true), Err(AgyError::OutputInvalid));
    assert_eq!(validate_site(&requested, &inside, &vec![&inside, &inside], 1, true), Err(AgyError::OutputInvalid));
    assert_eq!(validate_site(&requested, &inside, &vec![], 10, true), Err(AgyError::OutputInvalid));

    let map = ResponseDocument::SiteMap(MapResponse {
        base_url: url("https://docs.example/"),
        results: vec![MapLink { url: url("https://docs.example/guide"), title: "g".to_owned(), depth: 1 }],
    });
    let map_request = ContentRequest::SiteMap(MapRequest {
        url: url("https://docs.example/"),
        limit: 50,
        instructions: None,
        allow_external: false,
    });
    assert_eq!(map.validate_request(&map_request, Ok(())), Ok(()));
    let crawl = ResponseDocument::Crawl(CrawlResponse {
        base_url: url("https://docs.example/"),
        results: vec![CrawlPage { url: url("https://elsewhere.example/"), title: "x".to_owned(), content: "y".to_owned() }],
    });
    let crawl_request = ContentRequest::Crawl(CrawlRequest {
        url: url("https://docs.example/"),
        limit: 20,
        instructions: None,
        allow_external: false,
    });
    assert_eq!(crawl.validate_request(&crawl_request, Ok(())), Err(AgyError::OutputInvalid));
}

fn search_response(result_url: &str, candidate_url: &str) -> ResponseDocument {
    ResponseDocument::Search(SearchResponse {
        evidence_audit: EvidenceAudit {
            candidates: vec![ScopeEvidence {
                scope: "release".to_owned(),
                claim: "released".to_owned(),
                url: url(candidate_url),
                date: None,
                value: None,
                source_date_text: None,
                evidence_excerpt: None,
            }],
            coverage_complete: true,
            conclusion: "done".to_owned(),
        },
        results: vec![WebSource {
            title: "Rust".to_owned(),
            url: url(result_url),
            snippet: "release".to_owned(),
            date: None,
            last_updated: None,
        }],
    })
}

fn search_request(max_results: u16, restriction: SourceRestriction) -> ContentRequest {
    ContentRequest::Search(SearchRequest {
        query: "rust release".to_owned(),
        source_policy: SourcePolicy::PrimaryFirst,
        scope_policy: ScopePolicy::CompleteRequestedScope,
        date_policy: DatePolicy::ExplicitSourceOnly,
        verification: VerificationMode::Standard,
        temporal_contract: None,
        source_restriction: restriction,
        max_results,
        country: None,
        max_tokens_per_page: None,
    })
}

#[test]
fn search_answers_respect_the_limit_and_the_allowlist() {
    let answer = search_response("https://blog.rust-lang.org/a", "https://blog.rust-lang.org/a");
    assert_eq!(answer.validate_request(&search_request(5, SourceRestriction::Unrestricted), Ok(())), Ok(()));
    let restricted = SourceRestriction::parse(vec![SourceDomain::parse("rust-lang.org").expect("domain")], Vec::new())
        .expect("restriction");
    assert_eq!(answer.validate_request(&search_request(5, restricted), Ok(())), Ok(()));
    let elsewhere = SourceRestriction::parse(vec![SourceDomain::parse("example.org").expect("domain")], Vec::new())
        .expect("restriction");
    assert_eq!(answer.validate_request(&search_request(5, elsewhere), Ok(())), Err(AgyError::OutputInvalid));
    let candidate_outside = search_response("https://blog.rust-lang.org/a", "https://example.org/b");
    let restricted = SourceRestriction::parse(vec![SourceDomain::parse("rust-lang.org").expect("domain")], Vec::new())
        .expect("restriction");
    assert_eq!(candidate_outside.validate_request(&search_request(5, restricted), Ok(())), Err(AgyError::OutputInvalid));
    assert_eq!(answer.validate_request(&search_request(0, SourceRestriction::Unrestricted), Ok(())), Err(AgyError::OutputInvalid));
}

#[test]
fn search_answers_carry_the_temporal_outcome_when_they_fit() {
    let answer = search_response("https://blog.rust-lang.org/a", "https://blog.rust-lang.org/a");
    assert_eq!(
        answer.validate_request(&search_request(5, SourceRestriction::Unrestricted), Err(AgyError::Unavailable)),
        Err(AgyError::Unavailable)
    );
    assert_eq!(
        answer.validate_request(&search_request(0, SourceRestriction::Unrestricted), Err(AgyError::Unavailable)),
        Err(AgyError::OutputInvalid)
    );
}

use agy_search::response::source_schema::{domain_pattern, GROUNDING_TRANSPORT_PATTERN};

#[test]
fn allowlisted_domain_becomes_an_escaped_domain_tree_pattern() {
    let domain = SourceDomain::parse("RUST-LANG.ORG.").expect("valid test domain");
    let pattern = domain_pattern(domain.as_str());
    assert_eq!(pattern, r"^https?://(?:[A-Za-z0-9-]+\.)*rust-lang\.org(?::[0-9]+)?(?:[/?#]|$)");
    assert!(pattern.contains("rust-lang\\.org"));
    assert_eq!(
        GROUNDING_TRANSPORT_PATTERN,
        r"^https://vertexaisearch\.cloud\.google\.com/grounding-api-redirect/[^\s]+$"
    );
}

#[test]
fn blank_titles_and_snippets_are_missing_texts() {
    let complete = search_response("https://blog.rust-lang.org/a", "https://blog.rust-lang.org/a");
    assert!(complete.texts_are_present());
    let blank_page = ResponseDocument::Extract(ExtractResponse {
        results: vec![ExtractPage { url: url("https://a.example/1"), title: "  ".to_owned(), content: "c".to_owned() }],
    });
    assert!(!blank_page.texts_are_present());
    let blank_link = ResponseDocument::SiteMap(MapResponse {
        base_url: url("https://docs.example/"),
        results: vec![MapLink { url: url("https://docs.example/a"), title: String::new(), depth: 0 }],
    });
    assert!(!blank_link.texts_are_present());
    assert!(ResponseDocument::models(vec![]).texts_are_present());
    let blank_excerpt = ResponseDocument::Search(SearchResponse {
        evidence_audit: EvidenceAudit {
            candidates: vec![ScopeEvidence {
                scope: "s".to_owned(),
                claim: "c".to_owned(),
                url: url("https://a.example/1"),
                date: None,
                value: None,
                source_date_text: None,
                evidence_excerpt: Some("\t".to_owned()),
            }],
            coverage_complete: true,
            conclusion: "done".to_owned(),
        },
        results: Vec::new(),
    });
    assert!(!blank_excerpt.texts_are_present());
}
