use agy_search::error::AgyError;
use agy_search::http_url::HttpUrl;
use agy_search::redirect::response::{parse_header_block, parse_hop_response, parse_metadata, HttpStatus};
use agy_search::redirect::transport::{curl_argv, ProbeMethod};

const META: &str = "\nAGY_REDIRECT_META:";

fn hop(headers: &str, metadata: &str) -> Vec<u8> {
    format!("{headers}{META}{metadata}").into_bytes()
}

#[test]
fn redirect_hop_yields_its_location() {
    let output = hop("HTTP/1.1 302 Found\r\nLocation: https://example.com/next\r\n\r\n", "302:0\n");
    let response = parse_hop_response(&output).expect("redirect hop must parse");
    assert_eq!(response.status, HttpStatus::Redirect);
    assert_eq!(response.location.as_deref(), Some("https://example.com/next"));
}

#[test]
fn interim_responses_are_skipped_before_the_final_one() {
    let output = hop("HTTP/1.1 100 Continue\r\n\r\nHTTP/2 200 \r\ncontent-type: text/html\r\n\r\n", "200:0");
    let response = parse_hop_response(&output).expect("final response must parse");
    assert_eq!(response.status, HttpStatus::Success);
    assert_eq!(response.location, None);
}

#[test]
fn hop_output_is_refused_when_inconsistent() {
    assert_eq!(parse_hop_response(b"HTTP/1.1 200 OK\r\n\r\n").map(|r| r.status), Err(AgyError::OutputInvalid));
    let followed = hop("HTTP/1.1 200 OK\r\n\r\n", "200:1");
    assert!(parse_hop_response(&followed).is_err());
    let mismatch = hop("HTTP/1.1 200 OK\r\n\r\n", "404:0");
    assert!(parse_hop_response(&mismatch).is_err());
    let two_final = hop("HTTP/1.1 301 Moved\r\nLocation: /a\r\n\r\nHTTP/1.1 200 OK\r\n\r\n", "200:0");
    assert!(parse_hop_response(&two_final).is_err());
    let doubled = format!("HTTP/1.1 200 OK\r\n\r\n{META}200:0{META}200:0").into_bytes();
    assert!(parse_hop_response(&doubled).is_err());
    let interim_location = hop("HTTP/1.1 103 Early\r\nLocation: /x\r\n\r\nHTTP/1.1 200 OK\r\n\r\n", "200:0");
    assert!(parse_hop_response(&interim_location).is_err());
    let none = hop("", "200:0");
    assert!(parse_hop_response(&none).is_err());
}

#[test]
fn metadata_is_status_and_redirect_count() {
    assert_eq!(parse_metadata(b"302:0\n"), Ok((302, 0)));
    assert_eq!(parse_metadata(b"+200:7 \t"), Ok((200, 7)));
    assert_eq!(parse_metadata(b"200"), Err(AgyError::OutputInvalid));
    assert_eq!(parse_metadata(b"200:0:1"), Err(AgyError::OutputInvalid));
    assert_eq!(parse_metadata(b"70000:0"), Err(AgyError::OutputInvalid));
    assert_eq!(parse_metadata(b" 200:0"), Err(AgyError::OutputInvalid));
}

#[test]
fn header_block_needs_a_status_line_and_one_location() {
    let block: Vec<char> = "HTTP/1.0 404 Not Found\r\nLOCATION:  /gone  \r\nServer: x".chars().collect();
    let parsed = parse_header_block(&block).expect("block must parse");
    assert_eq!(parsed.status, HttpStatus::Other);
    assert_eq!(parsed.location.as_deref(), Some("/gone"));
    for bad in [
        "HTTPS/1.1 200 OK",
        "HTTP/1.1",
        "HTTP/x 200 OK",
        "HTTP/ 200 OK",
        "HTTP/1.1 abc",
        "HTTP/1.1 200 OK\r\nno colon here",
        "HTTP/1.1 301 Moved\r\nLocation:   ",
        "HTTP/1.1 301 Moved\r\nLocation: /a\r\nlocation: /b",
    ] {
        let chars: Vec<char> = bad.chars().collect();
        assert!(parse_header_block(&chars).is_err(), "{bad:?} must be refused");
    }
}

#[test]
fn http_status_classes_follow_the_hundreds() {
    assert_eq!(HttpStatus::parse(99), HttpStatus::Other);
    assert_eq!(HttpStatus::parse(100), HttpStatus::Informational);
    assert_eq!(HttpStatus::parse(299), HttpStatus::Success);
    assert_eq!(HttpStatus::parse(308), HttpStatus::Redirect);
    assert_eq!(HttpStatus::parse(400), HttpStatus::Other);
}

#[test]
fn curl_probe_is_pinned_and_bounded() {
    let argv = curl_argv("curl", "example.com", "2001:db8::1", true, "https://example.com/a", 1500, ProbeMethod::Head);
    assert_eq!(argv[0], "curl");
    assert_eq!(argv.len(), 1 + 22 + 6 + 1 + 8);
    let position = |flag: &str| argv.iter().position(|arg| arg == flag).expect("flag present");
    assert_eq!(argv[position("--connect-timeout") + 1], "1.500");
    assert_eq!(argv[position("--max-time") + 1], "1.500");
    assert_eq!(argv[position("--resolve") + 1], "example.com:443:[2001:db8::1]");
    assert!(argv.contains(&"--head".to_owned()));
    assert_eq!(argv[argv.len() - 1], "https://example.com/a");
    assert_eq!(argv[argv.len() - 3], "\nAGY_REDIRECT_META:%{http_code}:%{num_redirects}\n");

    let get = curl_argv("curl", "h", "1.2.3.4", false, "https://h/", 0, ProbeMethod::BoundedGet);
    let position = |flag: &str| get.iter().position(|arg| arg == flag).expect("flag present");
    assert_eq!(get[position("--max-time") + 1], "0.001");
    assert_eq!(get[position("--max-filesize") + 1], "2097152");
    assert_eq!(get[position("--range") + 1], "0-0");
    assert_eq!(get[position("--resolve") + 1], "h:443:1.2.3.4");

    let long = curl_argv("curl", "h", "1.2.3.4", false, "https://h/", 65_432, ProbeMethod::Head);
    let position = |flag: &str| long.iter().position(|arg| arg == flag).expect("flag present");
    assert_eq!(long[position("--connect-timeout") + 1], "2.000");
    assert_eq!(long[position("--max-time") + 1], "65.432");
}

#[test]
fn same_origin_compares_scheme_and_authority() {
    let a = HttpUrl::parse("https://example.com/a?x").expect("url");
    let b = HttpUrl::parse("https://example.com#frag").expect("url");
    let c = HttpUrl::parse("https://example.com:8443/a").expect("url");
    let d = HttpUrl::parse("http://example.com/a").expect("url");
    assert!(a.same_origin(&b));
    assert!(!a.same_origin(&c));
    assert!(!a.same_origin(&d));
}

use agy_search::events::source_policy::GroundingRequirement;
use agy_search::events::{ParsedRun, PendingGrounding};
use agy_search::redirect::resolver::{apply_resolution, hop_step, transports_to_resolve, HopStep};
use agy_search::redirect::response::HopResponse;
use agy_search::response_models::{ExtractPage, ExtractResponse, ResponseDocument};
use agy_search::source_restriction::{SourceDomain, SourceRestriction};

fn response(status: HttpStatus, location: Option<&str>) -> HopResponse {
    HopResponse { status, location: location.map(str::to_owned) }
}

#[test]
fn hop_steps_resolve_follow_or_fail() {
    assert!(matches!(hop_step(0, true, response(HttpStatus::Success, None)), HopStep::Resolved));
    assert!(matches!(hop_step(0, false, response(HttpStatus::Success, None)), HopStep::Fail));
    assert!(matches!(hop_step(0, true, response(HttpStatus::Success, Some("/x"))), HopStep::Fail));
    assert!(matches!(hop_step(4, false, response(HttpStatus::Redirect, Some("/next"))), HopStep::Follow(l) if l == "/next"));
    assert!(matches!(hop_step(5, false, response(HttpStatus::Redirect, Some("/next"))), HopStep::Fail));
    assert!(matches!(hop_step(1, false, response(HttpStatus::Redirect, None)), HopStep::Fail));
    assert!(matches!(hop_step(0, true, response(HttpStatus::Other, None)), HopStep::Fail));
    assert!(matches!(hop_step(0, true, response(HttpStatus::Informational, None)), HopStep::Fail));
}

fn transport(id: &str) -> HttpUrl {
    HttpUrl::parse(&format!("https://vertexaisearch.cloud.google.com/grounding-api-redirect/{id}")).expect("url")
}

fn restricted(read: Vec<HttpUrl>) -> GroundingRequirement {
    GroundingRequirement::Restricted {
        transports: read,
        restriction: SourceRestriction::parse(vec![SourceDomain::parse("rust-lang.org").expect("domain")], Vec::new())
            .expect("restriction"),
    }
}

#[test]
fn strict_resolution_follows_response_transports_then_unseen_read_ones() {
    let order = transports_to_resolve(vec![transport("a"), transport("b")], &restricted(vec![transport("b"), transport("c"), transport("c")]));
    let names: Vec<&str> = order.iter().map(|u| u.as_str()).collect();
    assert_eq!(names, vec![transport("a").as_str(), transport("b").as_str(), transport("c").as_str()]);
    let plain = transports_to_resolve(vec![transport("a")], &GroundingRequirement::NotRequired);
    assert_eq!(plain.len(), 1);
}

#[test]
fn a_read_transport_may_not_resolve_outside_the_restriction() {
    let read = transport("a");
    let mut run: ParsedRun<ResponseDocument, PendingGrounding> = ParsedRun {
        response: ResponseDocument::Extract(ExtractResponse {
            results: vec![ExtractPage { url: read.clone(), title: "t".to_owned(), content: "c".to_owned() }],
        }),
        grounding: restricted(vec![read.clone()]),
        state: std::marker::PhantomData,
    };
    let outside = HttpUrl::parse("https://example.org/x").expect("url");
    assert_eq!(apply_resolution(&mut run, &read, &outside), Err(AgyError::OutputInvalid));
    let inside = HttpUrl::parse("https://blog.rust-lang.org/x").expect("url");
    assert_eq!(apply_resolution(&mut run, &read, &inside), Ok(()));
    match &run.response {
        ResponseDocument::Extract(value) => assert_eq!(value.results[0].url.as_str(), "https://blog.rust-lang.org/x"),
        other => panic!("unexpected {other:?}"),
    }
}

use agy_search::redirect::pinning::{join_redirect, public_ipv4, public_ipv6};
use agy_search::redirect::projection::{project_standard_search, unverified_direct_results};
use agy_search::response_models::{EvidenceAudit, ScopeEvidence, SearchResponse, WebSource};

#[test]
fn https_host_drops_the_port_and_refuses_user_information() {
    assert_eq!(HttpUrl::parse("https://example.com:8443/a").expect("url").https_host().as_deref(), Some("example.com"));
    assert_eq!(HttpUrl::parse("https://example.com?q").expect("url").https_host().as_deref(), Some("example.com"));
    assert_eq!(HttpUrl::parse("https://user@example.com/").expect("url").https_host(), None);
    assert_eq!(HttpUrl::parse("http://example.com/").expect("url").https_host(), None);
}

#[test]
fn redirects_join_absolute_https_locations_and_paths() {
    let current = HttpUrl::parse("https://example.com:8443/a/b?x").expect("url");
    assert_eq!(join_redirect(&current, "https://other.example/z").map(|u| u.as_str().to_owned()), Ok("https://other.example/z".to_owned()));
    assert_eq!(join_redirect(&current, "/next?y").map(|u| u.as_str().to_owned()), Ok("https://example.com:8443/next?y".to_owned()));
    assert_eq!(join_redirect(&current, "//evil.example/").map(|u| u.as_str().to_owned()), Err(AgyError::OutputInvalid));
    assert_eq!(join_redirect(&current, "relative").map(|u| u.as_str().to_owned()), Err(AgyError::OutputInvalid));
    assert_eq!(join_redirect(&current, "http://plain.example/").map(|u| u.as_str().to_owned()), Err(AgyError::OutputInvalid));
}

#[test]
fn only_public_addresses_may_be_pinned() {
    assert!(public_ipv4([93, 184, 216, 34]));
    for private in [[10, 0, 0, 1], [172, 16, 0, 1], [172, 31, 255, 255], [192, 168, 1, 1], [127, 0, 0, 1], [169, 254, 0, 1], [0, 0, 0, 0], [255, 255, 255, 255]] {
        assert!(!public_ipv4(private), "{private:?}");
    }
    assert!(public_ipv4([172, 32, 0, 1]));
    assert!(public_ipv6([0x2001, 0xdb8, 0, 0, 0, 0, 0, 1]));
    assert!(!public_ipv6([0, 0, 0, 0, 0, 0, 0, 1]));
    assert!(!public_ipv6([0, 0, 0, 0, 0, 0, 0, 0]));
    assert!(!public_ipv6([0xfd00, 0, 0, 0, 0, 0, 0, 1]));
    assert!(!public_ipv6([0xfe80, 0, 0, 0, 0, 0, 0, 1]));
}

fn web(url: &str) -> WebSource {
    WebSource { title: "t".to_owned(), url: HttpUrl::parse(url).expect("url"), snippet: "s".to_owned(), date: None, last_updated: None }
}

fn search(urls: &[&str]) -> ResponseDocument {
    ResponseDocument::Search(SearchResponse {
        evidence_audit: EvidenceAudit {
            candidates: vec![ScopeEvidence {
                scope: "s".to_owned(),
                claim: "c".to_owned(),
                url: HttpUrl::parse(urls[0]).expect("url"),
                date: None,
                value: None,
                source_date_text: None,
                evidence_excerpt: None,
            }],
            coverage_complete: true,
            conclusion: "done".to_owned(),
        },
        results: urls.iter().map(|u| web(u)).collect(),
    })
}

fn result_urls(doc: &ResponseDocument) -> Vec<String> {
    match doc {
        ResponseDocument::Search(value) => value.results.iter().map(|r| r.url.as_str().to_owned()).collect(),
        _ => Vec::new(),
    }
}

#[test]
fn projection_replaces_reachable_sources_and_drops_dead_ones() {
    let a = transport("a");
    let b = transport("b");
    let mut doc = search(&[a.as_str(), b.as_str(), "https://example.org/direct"]);
    let target = HttpUrl::parse("https://news.example/story").expect("url");
    let outcomes = vec![(a.clone(), Some(target.clone())), (b.clone(), None)];
    assert_eq!(project_standard_search(&mut doc, None, &Vec::new(), &outcomes, false), Ok(false));
    assert_eq!(result_urls(&doc), vec!["https://news.example/story".to_owned(), "https://example.org/direct".to_owned()]);
    let direct = unverified_direct_results(&doc, &vec![target]);
    assert_eq!(direct.iter().map(|u| u.as_str()).collect::<Vec<_>>(), vec!["https://example.org/direct"]);
    let dead = vec![(direct[0].clone(), None)];
    assert_eq!(project_standard_search(&mut doc, None, &Vec::new(), &dead, false), Ok(false));
    assert_eq!(result_urls(&doc), vec!["https://news.example/story".to_owned()]);
    let gone = vec![(HttpUrl::parse("https://news.example/story").expect("url"), None)];
    assert_eq!(project_standard_search(&mut doc, None, &Vec::new(), &gone, false), Ok(true));
}

#[test]
fn projection_refuses_a_restricted_transport_outside_the_restriction() {
    let a = transport("a");
    let mut doc = search(&[a.as_str()]);
    let restriction = SourceRestriction::parse(vec![SourceDomain::parse("rust-lang.org").expect("domain")], Vec::new()).expect("restriction");
    let outside = vec![(a.clone(), HttpUrl::parse("https://example.org/x").expect("url"))];
    assert_eq!(project_standard_search(&mut doc, Some(&restriction), &outside, &Vec::new(), false), Err(AgyError::OutputInvalid));
    assert_eq!(result_urls(&doc), vec![a.as_str().to_owned()]);
    let inside = vec![(a.clone(), HttpUrl::parse("https://blog.rust-lang.org/x").expect("url"))];
    assert_eq!(project_standard_search(&mut doc, Some(&restriction), &inside, &Vec::new(), false), Ok(false));
    assert_eq!(result_urls(&doc), vec!["https://blog.rust-lang.org/x".to_owned()]);
    let mut extract = ResponseDocument::Extract(ExtractResponse { results: Vec::new() });
    assert_eq!(project_standard_search(&mut extract, None, &Vec::new(), &Vec::new(), false), Err(AgyError::OutputInvalid));
}

use agy_search::redirect::projection::is_non_source;

#[test]
fn search_pages_and_site_roots_are_no_sources() {
    assert!(is_non_source(&HttpUrl::parse("https://www.google.com/search?q=rust").expect("url")));
    assert!(is_non_source(&HttpUrl::parse("https://example.org").expect("url")));
    assert!(is_non_source(&HttpUrl::parse("https://example.org/").expect("url")));
    assert!(!is_non_source(&HttpUrl::parse("https://example.org/?q").expect("url")));
    assert!(!is_non_source(&HttpUrl::parse("https://example.org/story").expect("url")));
    assert!(!is_non_source(&HttpUrl::parse("https://www.google.com/maps").expect("url")));
}

#[test]
fn projection_drops_non_source_results_before_judging_emptiness() {
    let a = transport("a");
    let mut doc = search(&[a.as_str(), "https://example.org/direct"]);
    let outcomes = vec![(a.clone(), Some(HttpUrl::parse("https://www.google.com/search?q=x").expect("url")))];
    assert_eq!(project_standard_search(&mut doc, None, &Vec::new(), &outcomes, true), Ok(false));
    assert_eq!(result_urls(&doc), vec!["https://example.org/direct".to_owned()]);
    let mut roots = search(&["https://example.org/", "https://example.net"]);
    assert_eq!(project_standard_search(&mut roots, None, &Vec::new(), &Vec::new(), true), Ok(true));
    let mut kept = search(&["https://example.org/"]);
    assert_eq!(project_standard_search(&mut kept, None, &Vec::new(), &Vec::new(), false), Ok(false));
}

use agy_search::redirect::projection::unread_transports;
use agy_search::redirect::resolver::{needs_bounded_get, RedirectWalk, WalkAction};

fn direct(url: &str) -> HttpUrl {
    HttpUrl::parse(url).expect("url")
}

#[test]
fn a_bounded_get_follows_only_an_unclassified_head_on_a_direct_url() {
    assert!(needs_bounded_get(HttpStatus::Other, &direct("https://example.com/a")));
    assert!(!needs_bounded_get(HttpStatus::Other, &transport("a")));
    assert!(!needs_bounded_get(HttpStatus::Success, &direct("https://example.com/a")));
    assert!(!needs_bounded_get(HttpStatus::Redirect, &direct("https://example.com/a")));
}

#[test]
fn a_walk_follows_redirects_to_a_direct_target() {
    let mut walk = RedirectWalk::start(&transport("a"));
    assert_eq!(walk.current().as_str(), transport("a").as_str());
    match walk.step(response(HttpStatus::Redirect, Some("https://example.com/page"))) {
        WalkAction::Probe(next) => assert_eq!(next.as_str(), "https://example.com/page"),
        _ => panic!("the redirect must be followed"),
    }
    assert_eq!(walk.current().as_str(), "https://example.com/page");
    match walk.step(response(HttpStatus::Success, None)) {
        WalkAction::Resolved(target) => assert_eq!(target.as_str(), "https://example.com/page"),
        _ => panic!("the direct page must resolve"),
    }
}

#[test]
fn a_walk_fails_on_a_revisit_a_bad_location_or_too_many_hops() {
    let mut walk = RedirectWalk::start(&direct("https://example.com/a"));
    assert!(matches!(walk.step(response(HttpStatus::Redirect, Some("/b"))), WalkAction::Probe(_)));
    assert!(matches!(walk.step(response(HttpStatus::Redirect, Some("/a"))), WalkAction::Fail));
    let mut relative = RedirectWalk::start(&direct("https://example.com/a"));
    assert!(matches!(relative.step(response(HttpStatus::Redirect, Some("b"))), WalkAction::Fail));
    let mut long = RedirectWalk::start(&direct("https://example.com/0"));
    for hop in 1..=5 {
        let location = format!("/{hop}");
        assert!(matches!(long.step(response(HttpStatus::Redirect, Some(&location))), WalkAction::Probe(_)));
    }
    assert!(matches!(long.step(response(HttpStatus::Redirect, Some("/6"))), WalkAction::Fail));
    let mut transport_success = RedirectWalk::start(&transport("a"));
    assert!(matches!(transport_success.step(response(HttpStatus::Success, None)), WalkAction::Fail));
}

#[test]
fn unread_transports_keep_their_order_without_the_read_ones() {
    let unread = unread_transports(&vec![transport("a"), transport("b"), transport("c")], &vec![transport("b")]);
    let names: Vec<String> = unread.iter().map(|u| u.as_str().to_owned()).collect();
    assert_eq!(names, vec![transport("a").as_str().to_owned(), transport("c").as_str().to_owned()]);
    assert!(unread_transports(&vec![transport("a")], &vec![transport("a")]).is_empty());
}
