use agy_search::calendar_date::CalendarDate;
use agy_search::cli::{
    Cli, Command, CrawlArgs, ExtractArgs, OutputArgs, QueryArgument, ResearchArgs, SearchArgs,
    SiteArgs,
};
use agy_search::error::AgyError;
use agy_search::http_url::HttpUrl;
use agy_search::invocation::{
    convert_command, model_effort_suffix, resolve_query, InvocationCommand, STDIN_LIMIT_BYTES,
};
use agy_search::request::{ContentRequest, ResearchAttemptBudget, ResearchRequest, SearchRequest, TemporalScopeRequest};
use agy_search::research_policy::{ResearchToolBudget, ResearchToolPolicy};
use agy_search::source_restriction::{SourceDomain, SourceRestriction};
use agy_search::temporal_contract::TemporalContract;
use agy_search::types::{DatePolicy, Effort, Operation, ScopePolicy, SourcePolicy, VerificationMode};

fn url(value: &str) -> HttpUrl {
    HttpUrl::parse(value).expect("test URL must parse")
}

fn output(path: Option<&str>) -> OutputArgs {
    OutputArgs { output: path.map(str::to_owned), json: false }
}

fn search_args(query: QueryArgument) -> SearchArgs {
    SearchArgs {
        query,
        max_results: 5,
        domains: Vec::new(),
        country: None,
        max_tokens_per_page: None,
        scopes: Vec::new(),
        source_urls: Vec::new(),
        cutoff: None,
        output: output(None),
    }
}

fn text(value: &str) -> QueryArgument {
    QueryArgument::Text(value.to_owned())
}

fn search_request(command: Result<(InvocationCommand, Option<String>), AgyError>) -> SearchRequest {
    match command {
        Ok((InvocationCommand::Content(request), _)) => match *request {
            ContentRequest::Search(search) => search,
            other => panic!("expected a search request, got {other:?}"),
        },
        other => panic!("expected a content command, got {other:?}"),
    }
}

#[test]
fn query_argument_reads_stdin_for_a_dash_and_refuses_blank_text() {
    assert!(matches!(QueryArgument::parse("-"), Ok(QueryArgument::Stdin)));
    assert!(matches!(QueryArgument::parse("rust release"), Ok(QueryArgument::Text(t)) if t == "rust release"));
    assert!(QueryArgument::parse("  \t").is_err());
    assert!(QueryArgument::parse("").is_err());
}

#[test]
fn stdin_query_must_be_bounded_utf8_text() {
    assert_eq!(resolve_query(QueryArgument::Stdin, b"latest rust\n"), Ok("latest rust\n".to_owned()));
    assert_eq!(resolve_query(QueryArgument::Stdin, b"   \n"), Err(AgyError::InvalidCommand));
    assert_eq!(resolve_query(QueryArgument::Stdin, &[0xff, 0xfe]), Err(AgyError::InvalidCommand));
    let too_long = vec![b'a'; STDIN_LIMIT_BYTES + 1];
    assert_eq!(resolve_query(QueryArgument::Stdin, &too_long), Err(AgyError::InvalidCommand));
    let at_limit = vec![b'a'; STDIN_LIMIT_BYTES];
    assert_eq!(resolve_query(QueryArgument::Stdin, &at_limit).map(|q| q.len()), Ok(STDIN_LIMIT_BYTES));
    assert_eq!(resolve_query(text("given"), b"ignored"), Ok("given".to_owned()));
}

#[test]
fn model_slug_suffix_names_its_effort() {
    assert_eq!(model_effort_suffix("gemini-3.6-flash-low"), Some(Effort::Low));
    assert_eq!(model_effort_suffix("model-medium"), Some(Effort::Medium));
    assert_eq!(model_effort_suffix("model-high"), Some(Effort::High));
    assert_eq!(model_effort_suffix("model"), None);
    assert_eq!(model_effort_suffix("low"), None);
}

#[test]
fn standard_search_becomes_an_unrestricted_primary_first_request() {
    let request = search_request(convert_command(
        Command::Search(search_args(text("rust 1.80 release date"))),
        VerificationMode::Standard,
        b"",
    ));
    assert_eq!(request.query, "rust 1.80 release date");
    assert_eq!(request.max_results, 5);
    assert!(request.temporal_contract.is_none());
    assert!(request.source_restriction.is_unrestricted());
}

#[test]
fn search_with_domains_is_restricted_and_too_many_domains_are_refused() {
    let mut args = search_args(text("release"));
    args.domains = vec![SourceDomain::parse("rust-lang.org").expect("valid domain")];
    let request = search_request(convert_command(Command::Search(args), VerificationMode::Standard, b""));
    assert!(!request.source_restriction.is_unrestricted());

    let mut args = search_args(text("release"));
    args.domains = (0..21)
        .map(|index| SourceDomain::parse(&format!("d{index}.example.com")).expect("valid domain"))
        .collect();
    assert!(matches!(
        convert_command(Command::Search(args), VerificationMode::Standard, b""),
        Err(AgyError::InvalidCommand)
    ));
}

#[test]
fn temporal_options_need_a_temporal_comparison() {
    let mut args = search_args(text("release"));
    args.scopes = vec!["Stable".to_owned()];
    assert!(matches!(
        convert_command(Command::Search(args), VerificationMode::Standard, b""),
        Err(AgyError::InvalidCommand)
    ));

    let mut args = search_args(text("release"));
    args.scopes = vec!["Stable".to_owned()];
    assert!(matches!(
        convert_command(Command::Search(args), VerificationMode::TemporalComparison, b""),
        Err(AgyError::InvalidCommand)
    ));

    let mut args = search_args(text("release"));
    args.scopes = vec!["Stable".to_owned()];
    args.cutoff = Some(CalendarDate::parse("2024-07-25").expect("valid date"));
    args.source_urls = vec![url("https://blog.rust-lang.org/releases/")];
    let request = search_request(convert_command(Command::Search(args), VerificationMode::TemporalComparison, b""));
    let contract = request.temporal_contract.expect("temporal contract");
    assert_eq!(contract.scopes, vec!["Stable".to_owned()]);
    assert_eq!(contract.source_urls.len(), 1);

    let mut args = search_args(text("release"));
    args.scopes = (0..9).map(|index| format!("scope-{index}")).collect();
    assert!(matches!(
        convert_command(Command::Search(args), VerificationMode::TemporalComparison, b""),
        Err(AgyError::InvalidCommand)
    ));
}

#[test]
fn standard_search_keeps_exact_urls_out_of_the_contract() {
    let parsed = TemporalContract::parse(
        VerificationMode::TemporalComparison,
        vec!["Stable".to_owned(), "Beta".to_owned()],
        vec![url("https://example.com/a")],
        None,
    );
    assert!(matches!(parsed, Ok(Some(ref c)) if c.scopes.len() == 2 && c.cutoff.is_none()));
    assert!(matches!(
        TemporalContract::parse(VerificationMode::Standard, Vec::new(), Vec::new(), None),
        Ok(None)
    ));
}

#[test]
fn research_budget_is_derived_from_requested_sources() {
    assert_eq!(ResearchAttemptBudget::from_max_sources(4).attempts, 6);
    assert_eq!(ResearchAttemptBudget::from_max_sources(u16::MAX).attempts, u16::MAX);
    let args = ResearchArgs {
        query: text("compare releases"),
        max_sources: 4,
        domains: Vec::new(),
        scopes: Vec::new(),
        source_urls: Vec::new(),
        cutoff: None,
        output: output(Some("answer.json")),
    };
    match convert_command(Command::Research(args), VerificationMode::Standard, b"") {
        Ok((InvocationCommand::Content(request), out)) => {
            assert_eq!(out.as_deref(), Some("answer.json"));
            assert_eq!(request.operation(), Operation::Research);
            assert_eq!(request.tool_budget(), ResearchToolBudget::Research(6));
            assert!(matches!(request.tool_policy(), ResearchToolPolicy::Budget(ResearchToolBudget::Research(6))));
        },
        other => panic!("expected a research request, got {other:?}"),
    }
}

#[test]
fn site_commands_move_their_options_unchanged() {
    let map = convert_command(
        Command::SiteMap(SiteArgs {
            url: url("https://example.com/"),
            limit: 50,
            instructions: None,
            allow_external: false,
            output: output(None),
        }),
        VerificationMode::TemporalComparison,
        b"",
    );
    match map {
        Ok((InvocationCommand::Content(request), None)) => {
            assert_eq!(request.operation(), Operation::SiteMap);
            assert_eq!(request.verification(), VerificationMode::Standard);
            assert_eq!(request.tool_budget(), ResearchToolBudget::Single);
            assert_eq!(request.search_result_limit(), None);
        },
        other => panic!("expected a map request, got {other:?}"),
    }
    let crawl = convert_command(
        Command::Crawl(CrawlArgs {
            url: url("https://example.com/"),
            limit: 20,
            instructions: Some("docs only".to_owned()),
            allow_external: true,
            output: output(None),
        }),
        VerificationMode::Standard,
        b"",
    );
    assert!(matches!(crawl, Ok((InvocationCommand::Content(ref r), None)) if r.operation() == Operation::Crawl));
    let extract = convert_command(
        Command::Extract(ExtractArgs { urls: vec![url("https://example.com/a")], query: None, output: output(None) }),
        VerificationMode::Standard,
        b"",
    );
    assert!(matches!(extract, Ok((InvocationCommand::Content(ref r), None)) if r.operation() == Operation::Extract));
    assert!(matches!(
        convert_command(Command::Status(output(Some("s.json"))), VerificationMode::Standard, b""),
        Ok((InvocationCommand::Status, Some(ref p))) if p == "s.json"
    ));
    assert!(matches!(
        convert_command(Command::Models(output(None)), VerificationMode::Standard, b""),
        Ok((InvocationCommand::Models, None))
    ));
}

#[test]
fn search_request_reports_its_limit_budget_and_restricted_policy() {
    let mut args = search_args(text("release"));
    args.domains = vec![SourceDomain::parse("rust-lang.org").expect("valid domain")];
    args.max_results = 7;
    let request = search_request(convert_command(Command::Search(args), VerificationMode::Standard, b""));
    let content = ContentRequest::Search(request);
    assert_eq!(content.search_result_limit(), Some(7));
    assert_eq!(content.tool_budget(), ResearchToolBudget::StandardSearch);
    assert!(content.temporal_contract().is_none());
    assert!(matches!(content.tool_policy(), ResearchToolPolicy::Restricted { budget: ResearchToolBudget::StandardSearch, .. }));
    assert!(!content.source_restriction().is_unrestricted());
}

#[test]
fn scope_request_copies_the_search_and_adds_the_required_query() {
    let request = search_request(convert_command(
        Command::Search(search_args(text("latest CLI"))),
        VerificationMode::Standard,
        b"",
    ));
    let scoped = TemporalScopeRequest::from_search(&request, "Stable".to_owned());
    assert_eq!(scoped.query, "latest CLI");
    assert_eq!(scoped.scope, "Stable");
    assert_eq!(scoped.max_results, 5);
    assert!(scoped.required_search_query.as_str().starts_with("For exact scope \"Stable\" only"));
    assert!(scoped.required_search_query.as_str().ends_with("Original request constraints: latest CLI"));

    let mut args = search_args(text("latest CLI"));
    args.domains = vec![
        SourceDomain::parse("rust-lang.org").expect("valid domain"),
        SourceDomain::parse("github.com").expect("valid domain"),
    ];
    args.country = Some("KR".to_owned());
    let request = search_request(convert_command(Command::Search(args), VerificationMode::Standard, b""));
    let scoped = TemporalScopeRequest::from_search(&request, "Beta".to_owned());
    assert!(scoped.required_search_query.as_str().starts_with("For exact scope \"Beta\" only"));
    assert!(scoped.required_search_query.as_str().ends_with("Original request constraints: latest CLI site:rust-lang.org site:github.com KR"));
}

fn cli(agy_path: &str, model: Option<&str>, effort: Option<Effort>, command: Command) -> Cli {
    Cli {
        agy_path: agy_path.to_owned(),
        model: model.map(str::to_owned),
        effort,
        verification: VerificationMode::Standard,
        timeout: 120,
        command,
    }
}

#[test]
fn invocation_checks_model_effort_and_executable() {
    let ok = cli("agy", Some("gemini-3.6-flash-low"), Some(Effort::Low), Command::Status(output(None)))
        .into_invocation(b"");
    let ok = ok.expect("consistent invocation");
    assert_eq!(ok.agy_path, "agy");
    assert_eq!(ok.timeout, 120);
    assert!(matches!(ok.command, InvocationCommand::Status));

    let conflict = cli("agy", Some("gemini-3.6-flash-low"), Some(Effort::High), Command::Status(output(None)))
        .into_invocation(b"");
    assert!(matches!(conflict, Err(AgyError::InvalidCommand)));

    let blank = cli("  ", None, Some(Effort::Low), Command::Models(output(None))).into_invocation(b"");
    assert!(matches!(blank, Err(AgyError::InvalidCommand)));

    let stdin = cli("agy", None, None, Command::Search(search_args(QueryArgument::Stdin)))
        .into_invocation(b"from stdin");
    match stdin {
        Ok(invocation) => match invocation.command {
            InvocationCommand::Content(request) => match *request {
                ContentRequest::Search(search) => assert_eq!(search.query, "from stdin"),
                other => panic!("expected search, got {other:?}"),
            },
            other => panic!("expected content, got {other:?}"),
        },
        Err(error) => panic!("unexpected error {error:?}"),
    }
}

#[test]
fn research_request_serializes_explicit_attempt_budget() {
    let request = ContentRequest::Research(ResearchRequest {
        query: "compare releases".to_owned(),
        source_policy: SourcePolicy::PrimaryFirst,
        scope_policy: ScopePolicy::CompleteRequestedScope,
        date_policy: DatePolicy::ExplicitSourceOnly,
        verification: VerificationMode::Standard,
        temporal_contract: None,
        source_restriction: SourceRestriction::Unrestricted,
        max_sources: 4,
        tool_call_budget: ResearchAttemptBudget::from_max_sources(4),
    });
    match &request {
        ContentRequest::Research(research) => assert_eq!(research.tool_call_budget.attempts, 6),
        other => panic!("unexpected {other:?}"),
    }
    assert_eq!(request.tool_budget(), ResearchToolBudget::Research(6));
}
