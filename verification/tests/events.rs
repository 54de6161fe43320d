use agy_search::events::generated_content_policy::provenance::GeneratedContentRoot;
use agy_search::events::research_tool_policy::scoped_search::attempts_are_valid;
use agy_search::events::stream::{
    ConversationId, Event, EventName, ResultEvent, StepState, StepType, StepUpdate, ToolInfo,
    ToolName, ToolParameters,
};
use agy_search::events::parse_structured_run;
use agy_search::http_url::HttpUrl;
use agy_search::research_policy::{RequiredSearchQuery, ResearchToolBudget, ResearchToolPolicy};
use agy_search::source_restriction::{SourceDomain, SourceRestriction};
use agy_search::types::Operation;
use serde_json::Value;

const HOME: &str = "/home/tester";

fn text_field(object: &serde_json::Map<String, Value>, keys: &[&str]) -> Result<Option<String>, ()> {
    for key in keys {
        match object.get(*key) {
            None | Some(Value::Null) => continue,
            Some(Value::String(text)) => return Ok(Some(text.clone())),
            Some(_) => return Err(()),
        }
    }
    Ok(None)
}

fn tool_name(text: &str) -> ToolName {
    match text {
        "search_web" => ToolName::SearchWeb,
        "read_url_content" => ToolName::ReadUrlContent,
        "view_file" => ToolName::ViewFile,
        "grep_search" => ToolName::GrepSearch,
        _ => ToolName::Other,
    }
}

fn parameters(value: &Value) -> Result<ToolParameters, ()> {
    let object = value.as_object().ok_or(())?;
    Ok(ToolParameters {
        query: text_field(object, &["query", "Query"])?,
        url: text_field(object, &["Url", "url"])?,
        absolute_path: text_field(object, &["AbsolutePath", "absolute_path"])?,
        search_path: text_field(object, &["SearchPath", "search_path"])?,
    })
}

fn info(value: &Value) -> Result<ToolInfo, ()> {
    let object = value.as_object().ok_or(())?;
    let name = object.get("name").and_then(Value::as_str).ok_or(())?;
    let error = !matches!(object.get("error"), None | Some(Value::Null));
    let parameters = match object.get("parameters") {
        None | Some(Value::Null) => None,
        Some(value) => Some(parameters(value)?),
    };
    Ok(ToolInfo { name: tool_name(name), error, parameters })
}

fn step(value: &Value) -> Result<StepUpdate, ()> {
    let object = value.as_object().ok_or(())?;
    let conversation_id = text_field(object, &["conversation_id"])?.map(|id| ConversationId { id });
    let step_index = match object.get("step_index") {
        None | Some(Value::Null) => None,
        Some(value) => Some(value.as_u64().ok_or(())?),
    };
    let step_type = match object.get("step_type").and_then(Value::as_str).ok_or(())? {
        "tool" => StepType::Tool,
        _ => StepType::Other,
    };
    let state = match object.get("state") {
        None | Some(Value::Null) => None,
        Some(Value::String(text)) => Some(match text.as_str() {
            "ACTIVE" => StepState::Active,
            "DONE" => StepState::Done,
            "ERROR" => StepState::Error,
            _ => StepState::Other,
        }),
        Some(_) => return Err(()),
    };
    let tool_info = match object.get("tool_info") {
        None | Some(Value::Null) => None,
        Some(value) => Some(info(value)?),
    };
    let tool_name = match object.get("tool_name") {
        None | Some(Value::Null) => None,
        Some(Value::String(text)) => Some(tool_name(text)),
        Some(_) => return Err(()),
    };
    Ok(StepUpdate { conversation_id, step_index, step_type, state, tool_info, tool_name })
}

fn event(line: &str) -> Result<Event, ()> {
    let value: Value = serde_json::from_str(line).map_err(|_| ())?;
    let object = value.as_object().ok_or(())?;
    let kind = match object.get("event").and_then(Value::as_str).ok_or(())? {
        "init" => EventName::Init,
        "step_update" => EventName::StepUpdate,
        "result" => EventName::Result,
        _ => EventName::Other,
    };
    let conversation_id = text_field(object, &["conversation_id"])?.map(|id| ConversationId { id });
    let step_update = match object.get("step_update") {
        None | Some(Value::Null) => None,
        Some(value) => Some(step(value)?),
    };
    let result = match object.get("result") {
        None | Some(Value::Null) => None,
        Some(value) => {
            let object = value.as_object().ok_or(())?;
            Some(ResultEvent {
                has_structured_output: !matches!(object.get("structured_output"), None | Some(Value::Null)),
            })
        }
    };
    Ok(Event { kind, conversation_id, step_update, result })
}

fn events(stream: &[u8]) -> Result<Vec<Event>, ()> {
    let text = std::str::from_utf8(stream).map_err(|_| ())?;
    let parsed = text
        .lines()
        .filter(|line| !line.trim().is_empty())
        .map(event)
        .collect::<Result<Vec<_>, _>>()?;
    if parsed.is_empty() {
        return Err(());
    }
    Ok(parsed)
}

fn run(stream: &[u8], operation: Operation, policy: &ResearchToolPolicy) -> Result<(), ()> {
    let events = events(stream)?;
    parse_structured_run(&events, Some(()), operation, policy, Some(HOME))
        .map(|_| ())
        .map_err(|_| ())
}

fn standard_policy() -> ResearchToolPolicy {
    ResearchToolPolicy::Budget(ResearchToolBudget::StandardSearch)
}

fn required_query() -> RequiredSearchQuery {
    RequiredSearchQuery::for_exact_scope("release status", "alpha", &Vec::new(), None)
}

fn scoped_policy() -> ResearchToolPolicy {
    ResearchToolPolicy::ScopedTemporalSearch(required_query())
}

fn restricted_research_policy() -> ResearchToolPolicy {
    let restriction = SourceRestriction::parse(
        vec![SourceDomain::parse("example.com").expect("valid test domain")],
        Vec::new(),
    )
    .expect("valid test restriction");
    ResearchToolPolicy::Restricted { budget: ResearchToolBudget::Research(4), restriction }
}

fn exact_url_research_policy() -> ResearchToolPolicy {
    let restriction = SourceRestriction::parse(
        Vec::new(),
        vec![HttpUrl::parse("https://doc.rust-lang.org/book/").expect("valid exact test URL")],
    )
    .expect("valid exact test restriction");
    ResearchToolPolicy::Restricted { budget: ResearchToolBudget::Research(4), restriction }
}

#[test]
fn restricted_research_accepts_paired_exact_url_read_without_search() {
    let stream = br#"{"event":"init","conversation_id":"current-conversation"}
{"event":"step_update","step_update":{"conversation_id":"current-conversation","state":"ACTIVE","step_type":"tool","tool_info":{"name":"read_url_content","parameters":{"Url":"https://doc.rust-lang.org/book/"}}}}
{"event":"step_update","step_update":{"conversation_id":"current-conversation","state":"DONE","step_type":"tool","tool_info":{"name":"read_url_content","parameters":{"Url":"https://doc.rust-lang.org/book/"}}}}
{"event":"result","result":{"structured_output":{"object":"research","evidence_audit":{"candidates":[{"scope":"primary","claim":"Evidence","url":"https://doc.rust-lang.org/book/","date":null}],"coverage_complete":true,"conclusion":"Evidence"},"title":"Research","summary":"Evidence","findings":[{"title":"Finding","summary":"Evidence","citations":["https://doc.rust-lang.org/book/"]}],"sources":[{"title":"Source","url":"https://doc.rust-lang.org/book/","snippet":"Evidence"}]}}}"#;

    let parsed = run(stream, Operation::Research, &exact_url_research_policy());

    assert!(parsed.is_ok());
}

#[test]
fn restricted_research_rejects_an_unpaired_exact_url_read_without_search() {
    let stream = br#"{"event":"init","conversation_id":"current-conversation"}
{"event":"step_update","step_update":{"conversation_id":"current-conversation","state":"DONE","step_type":"tool","tool_info":{"name":"read_url_content","parameters":{"Url":"https://doc.rust-lang.org/book/"}}}}
{"event":"result","result":{"structured_output":{"object":"research","evidence_audit":{"candidates":[{"scope":"primary","claim":"Evidence","url":"https://doc.rust-lang.org/book/","date":null}],"coverage_complete":true,"conclusion":"Evidence"},"title":"Research","summary":"Evidence","findings":[{"title":"Finding","summary":"Evidence","citations":["https://doc.rust-lang.org/book/"]}],"sources":[{"title":"Source","url":"https://doc.rust-lang.org/book/","snippet":"Evidence"}]}}}"#;

    let parsed = run(stream, Operation::Research, &exact_url_research_policy());

    assert!(parsed.is_err());
}

#[test]
fn scoped_temporal_search_rejects_missing_or_mutated_active_query() {
    for parameters in [
        "{}",
        r#"{"query":"release status"}"#,
        r#"{"query":"release status \"alpha\" release date"}"#,
    ] {
        let stream = format!(
            r#"{{"event":"init"}}
{{"event":"step_update","step_update":{{"state":"ACTIVE","step_type":"tool","tool_info":{{"name":"search_web","parameters":{parameters}}}}}}}
{{"event":"step_update","step_update":{{"state":"DONE","step_type":"tool","tool_info":{{"name":"search_web","parameters":{parameters}}}}}}}
{{"event":"result","result":{{"structured_output":{{"object":"search","results":[{{"title":"Source","url":"https://example.com/","snippet":"Evidence"}}]}}}}}}"#
        );

        let parsed = run(stream.as_bytes(), Operation::Search, &scoped_policy());

        assert!(parsed.is_err());
    }
}

#[test]
fn scoped_temporal_search_rejects_read_url_attempt_after_a_valid_search() {
    let stream = br#"{"event":"init"}
{"event":"step_update","step_update":{"state":"ACTIVE","step_type":"tool","tool_info":{"name":"search_web","parameters":{"query":"For exact scope \"alpha\" only, find its latest release, exact version, and source-published date; do not use another scope's value. Original request constraints: release status"}}}}
{"event":"step_update","step_update":{"state":"DONE","step_type":"tool","tool_info":{"name":"search_web","parameters":{"query":"For exact scope \"alpha\" only, find its latest release, exact version, and source-published date; do not use another scope's value. Original request constraints: release status"}}}}
{"event":"step_update","step_update":{"state":"ACTIVE","step_type":"tool","tool_info":{"name":"read_url_content"}}}
{"event":"result","result":{"structured_output":{"object":"search","results":[{"title":"Source","url":"https://example.com/","snippet":"Evidence"}]}}}"#;

    let parsed = run(stream, Operation::Search, &scoped_policy());

    assert!(parsed.is_err());
}

#[test]
fn scoped_temporal_search_allows_a_single_value_followup() {
    let stream = br#"{"event":"init","conversation_id":"current-conversation"}
{"event":"step_update","step_update":{"conversation_id":"current-conversation","state":"ACTIVE","step_type":"tool","tool_info":{"name":"search_web","parameters":{"query":"For exact scope \"alpha\" only, find its latest release, exact version, and source-published date; do not use another scope's value. Original request constraints: release status"}}}}
{"event":"step_update","step_update":{"conversation_id":"current-conversation","state":"DONE","step_type":"tool","tool_info":{"name":"search_web","parameters":{"query":"For exact scope \"alpha\" only, find its latest release, exact version, and source-published date; do not use another scope's value. Original request constraints: release status"}}}}
{"event":"step_update","step_update":{"conversation_id":"current-conversation","state":"ACTIVE","step_type":"tool","tool_info":{"name":"search_web","parameters":{"query":"For exact scope \"alpha\" only, find its latest release, exact version, and source-published date; do not use another scope's value. Original request constraints: release status 0.1.9"}}}}
{"event":"step_update","step_update":{"conversation_id":"current-conversation","state":"DONE","step_type":"tool","tool_info":{"name":"search_web","parameters":{"query":"For exact scope \"alpha\" only, find its latest release, exact version, and source-published date; do not use another scope's value. Original request constraints: release status 0.1.9"}}}}
{"event":"result","result":{"structured_output":{"object":"search","results":[{"title":"Source","url":"https://example.com/","snippet":"Evidence"}]}}}"#;

    let events = events(stream).expect("test stream must parse");

    assert!(attempts_are_valid(&events, &required_query()));
}

#[test]
fn scoped_temporal_search_rejects_a_poisoned_followup() {
    let stream = br#"{"event":"init"}
{"event":"step_update","step_update":{"state":"ACTIVE","step_type":"tool","tool_info":{"name":"search_web","parameters":{"query":"For exact scope \"alpha\" only, find its latest release, exact version, and source-published date; do not use another scope's value. Original request constraints: release status"}}}}
{"event":"step_update","step_update":{"state":"DONE","step_type":"tool","tool_info":{"name":"search_web","parameters":{"query":"For exact scope \"alpha\" only, find its latest release, exact version, and source-published date; do not use another scope's value. Original request constraints: release status"}}}}
{"event":"step_update","step_update":{"state":"ACTIVE","step_type":"tool","tool_info":{"name":"search_web","parameters":{"query":"For exact scope \"alpha\" only, find its latest release, exact version, and source-published date; do not use another scope's value. Original request constraints: release status 0.1.9 July 29, 2026 https://example.com/release"}}}}
{"event":"step_update","step_update":{"state":"DONE","step_type":"tool","tool_info":{"name":"search_web","parameters":{"query":"For exact scope \"alpha\" only, find its latest release, exact version, and source-published date; do not use another scope's value. Original request constraints: release status 0.1.9 July 29, 2026 https://example.com/release"}}}}
{"event":"result","result":{"structured_output":{"object":"search","results":[{"title":"Source","url":"https://example.com/","snippet":"Evidence"}]}}}"#;

    let events = events(stream).expect("test stream must parse");

    assert!(!attempts_are_valid(&events, &required_query()));
}

#[test]
fn scoped_temporal_search_requires_a_successful_search_and_rejects_failed_reads() {
    let stream = br#"{"event":"init"}
{"event":"step_update","step_update":{"state":"ACTIVE","step_type":"tool","tool_info":{"name":"search_web","parameters":{"query":"For exact scope \"alpha\" only, find its latest release, exact version, and source-published date; do not use another scope's value. Original request constraints: release status"}}}}
{"event":"step_update","step_update":{"state":"DONE","step_type":"tool","tool_info":{"name":"search_web","parameters":{"query":"For exact scope \"alpha\" only, find its latest release, exact version, and source-published date; do not use another scope's value. Original request constraints: release status"},"error":"network"}}}
{"event":"step_update","step_update":{"state":"ERROR","step_type":"tool","tool_info":{"name":"read_url_content","error":"denied"}}}
{"event":"result","result":{"structured_output":{"object":"search","results":[{"title":"Source","url":"https://example.com/","snippet":"Evidence"}]}}}"#;

    let parsed = run(stream, Operation::Search, &scoped_policy());

    assert!(parsed.is_err());
}

#[test]
fn generic_mcp_tool_does_not_prove_web_research() {
    let stream = br#"{"event":"init"}
{"event":"step_update","step_update":{"state":"DONE","step_type":"tool","tool_info":{"name":"call_mcp_tool"}}}
{"event":"result","result":{"structured_output":{"object":"search","results":[{"title":"Source","url":"https://example.com/","snippet":"Evidence"}]}}}"#;

    assert!(run(stream, Operation::Search, &standard_policy()).is_err());
}

#[test]
fn terminal_result_must_be_the_final_event() {
    let stream = br#"{"event":"init"}
{"event":"step_update","step_update":{"state":"DONE","step_type":"tool","tool_info":{"name":"search_web"}}}
{"event":"result","result":{"structured_output":{"object":"search","results":[{"title":"Source","url":"https://example.com/","snippet":"Evidence"}]}}}
{"event":"init"}"#;

    assert!(run(stream, Operation::Search, &standard_policy()).is_err());
}

#[test]
fn unknown_stream_event_is_rejected_before_terminal_output() {
    let stream = br#"{"event":"init"}
{"event":"unsupported"}
{"event":"result","result":{"structured_output":{"object":"search","results":[{"title":"Source","url":"https://example.com/","snippet":"Evidence"}]}}}"#;

    assert!(run(stream, Operation::Search, &standard_policy()).is_err());
}

#[test]
fn completed_tool_with_error_does_not_prove_research() {
    let stream = br#"{"event":"init"}
{"event":"step_update","step_update":{"state":"DONE","step_type":"tool","tool_info":{"name":"search_web","error":"private failure"}}}
{"event":"result","result":{"structured_output":{"object":"search","results":[{"title":"Source","url":"https://example.com/","snippet":"Evidence"}]}}}"#;

    assert!(run(stream, Operation::Search, &standard_policy()).is_err());
}

#[test]
fn successful_terminal_event_without_structured_output_fails_closed() {
    let stream = br#"{"event":"init"}
{"event":"step_update","step_update":{"state":"DONE","step_type":"tool","tool_info":{"name":"search_web"}}}
{"event":"result","result":{"status":"SUCCESS","response":"not the result"}}"#;

    assert!(run(stream, Operation::Search, &standard_policy()).is_err());
}

#[test]
fn optional_runtime_metadata_and_intermediate_errors_do_not_replace_terminal_output() {
    let stream = br#"{"event":"init","conversation_id":"current-conversation","init":{"expanded_commands":[{"name":"plan","type":"system"}]}}
{"event":"step_update","step_update":{"conversation_id":"current-conversation","state":"DONE","step_type":"tool","tool_info":{"name":"search_web"}}}
{"event":"step_update","step_update":{"state":"DONE","step_type":"error_message"}}
{"event":"result","result":{"status":"SUCCESS","response":"invalid prose","structured_output":{"object":"search","evidence_audit":{"candidates":[{"scope":"primary","claim":"Evidence","url":"https://example.com/","date":null}],"coverage_complete":true,"conclusion":"Evidence"},"results":[{"title":"Source","url":"https://example.com/","snippet":"Evidence"}]}}}"#;

    let parsed = run(stream, Operation::Search, &standard_policy());

    assert!(parsed.is_ok());
}

#[test]
fn restricted_direct_read_attempt_must_be_allowlisted() {
    let stream = br#"{"event":"init"}
{"event":"step_update","step_update":{"state":"DONE","step_type":"tool","tool_info":{"name":"search_web","parameters":{"query":"evidence site:example.com"}}}}
{"event":"step_update","step_update":{"state":"ACTIVE","step_type":"tool","tool_info":{"name":"read_url_content","parameters":{"Url":"https://outside.example/page"}}}}
{"event":"result","result":{"structured_output":{"object":"research","evidence_audit":{"candidates":[{"scope":"primary","claim":"Evidence","url":"https://example.com/page","date":null}],"coverage_complete":true,"conclusion":"Evidence"},"title":"Research","summary":"Evidence","findings":[{"title":"Finding","summary":"Evidence","citations":["https://example.com/page"]}],"sources":[{"title":"Source","url":"https://example.com/page","snippet":"Evidence"}]}}}"#;

    let parsed = run(stream, Operation::Research, &restricted_research_policy());

    assert!(parsed.is_err());
}

#[test]
fn unfinished_grounding_read_fails_closed_before_async_resolution() {
    let transport = "https://vertexaisearch.cloud.google.com/grounding-api-redirect/token";
    let stream = format!(
        r#"{{"event":"init","conversation_id":"current-conversation"}}
{{"event":"step_update","step_update":{{"conversation_id":"current-conversation","state":"DONE","step_type":"tool","tool_info":{{"name":"search_web","parameters":{{"query":"evidence site:example.com"}}}}}}}}
{{"event":"step_update","step_update":{{"conversation_id":"current-conversation","state":"ACTIVE","step_type":"tool","tool_info":{{"name":"read_url_content","parameters":{{"Url":"{transport}"}}}}}}}}
{{"event":"result","result":{{"structured_output":{{"object":"research","evidence_audit":{{"candidates":[{{"scope":"primary","claim":"Evidence","url":"{transport}","date":null}}],"coverage_complete":true,"conclusion":"Evidence"}},"title":"Research","summary":"Evidence","findings":[{{"title":"Finding","summary":"Evidence","citations":["{transport}"]}}],"sources":[{{"title":"Source","url":"{transport}","snippet":"Evidence"}}]}}}}}}"#
    );

    let parsed = run(stream.as_bytes(), Operation::Research, &restricted_research_policy());

    assert!(parsed.is_err());
}

#[test]
fn restricted_read_rejects_an_untyped_grounding_transport() {
    let stream = br#"{"event":"init"}
{"event":"step_update","step_update":{"state":"DONE","step_type":"tool","tool_info":{"name":"search_web","parameters":{"query":"evidence site:example.com"}}}}
{"event":"step_update","step_update":{"state":"ACTIVE","step_type":"tool","tool_info":{"name":"read_url_content","parameters":{"Url":"file:///grounding-api-redirect/token"}}}}
{"event":"result","result":{"structured_output":{"object":"research","evidence_audit":{"candidates":[{"scope":"primary","claim":"Evidence","url":"https://example.com/page","date":null}],"coverage_complete":true,"conclusion":"Evidence"},"title":"Research","summary":"Evidence","findings":[{"title":"Finding","summary":"Evidence","citations":["https://example.com/page"]}],"sources":[{"title":"Source","url":"https://example.com/page","snippet":"Evidence"}]}}}"#;

    let parsed = run(stream, Operation::Research, &restricted_research_policy());

    assert!(parsed.is_err());
}

const SEARCH: &str = r#"{"query":"release"}"#;
const READ: &str = r#"{"Url":"https://example.com/page"}"#;
const SEARCH_WEB: &str = "search_web";
const READ_URL: &str = "read_url_content";
const VIEW_FILE: &str = "view_file";
const GREP_SEARCH: &str = "grep_search";
const RUN_COMMAND: &str = "run_command";
const WORKSPACE: &str = "/workspace/agy-search";
const RESULT: &str = r#"{"event":"result","result":{"structured_output":{"object":"search","evidence_audit":{"candidates":[{"scope":"primary","claim":"Evidence","url":"https://example.com/page","date":null}],"coverage_complete":true,"conclusion":"Evidence"},"results":[{"title":"Source","url":"https://example.com/page","snippet":"Evidence"}]}}}"#;

fn policy(budget: ResearchToolBudget) -> ResearchToolPolicy {
    let restriction = SourceRestriction::parse(
        Vec::new(),
        vec![HttpUrl::parse("https://example.com/page").expect("valid URL")],
    )
    .expect("valid restriction");
    ResearchToolPolicy::Restricted { budget, restriction }
}

fn content_path(conversation: &str, producer: u64) -> String {
    GeneratedContentRoot::from_home(HOME)
        .expect("test HOME must identify content root")
        .test_content_path(conversation, producer)
}

fn parent(path: &str) -> String {
    let cut = path.rfind('/').expect("path must have a parent");
    path[..cut].to_owned()
}

fn quoted(path: &str) -> String {
    serde_json::to_string(path).expect("path must serialize")
}

fn view(path: &str) -> String {
    format!(r#"{{"AbsolutePath":{}}}"#, quoted(path))
}

fn grep(path: &str) -> String {
    format!(r#"{{"Query":"release","SearchPath":{}}}"#, quoted(path))
}

fn step_line(conversation: &str, index: u64, state: &str, tool: &str, parameters: &str) -> String {
    let info = format!(r#"{{"name":"{tool}","parameters":{parameters}}}"#);
    let update = format!(
        r#"{{"conversation_id":"{conversation}","step_index":{index},"state":"{state}","step_type":"tool","tool_name":"{tool}","tool_info":{info}}}"#
    );
    format!(r#"{{"event":"step_update","step_update":{update}}}"#)
}

fn pair(conversation: &str, index: u64, tool: &str, parameters: &str) -> [String; 2] {
    [
        step_line(conversation, index, "ACTIVE", tool, parameters),
        step_line(conversation, index, "DONE", tool, parameters),
    ]
}

fn stream(steps: Vec<String>) -> String {
    let mut lines = vec![r#"{"event":"init","conversation_id":"current-conversation"}"#.to_owned()];
    lines.extend(steps);
    lines.push(RESULT.to_owned());
    lines.join("\n")
}

fn search_and_read() -> Vec<String> {
    let mut steps = Vec::new();
    steps.extend(pair("current-conversation", 1, SEARCH_WEB, SEARCH));
    steps.extend(pair("current-conversation", 3, READ_URL, READ));
    steps
}

fn inspection_case(conversation: &str, active: &str, done: &str) -> String {
    let mut steps = search_and_read();
    steps.extend(pair(conversation, 4, VIEW_FILE, &view(active)));
    if active != done {
        steps.pop();
        steps.push(step_line(conversation, 4, "DONE", VIEW_FILE, &view(done)));
    }
    stream(steps)
}

#[test]
fn valid_generated_inspection_is_budget_neutral() {
    let path = content_path("current-conversation", 3);
    let mut steps = search_and_read();
    steps.extend(pair("current-conversation", 4, VIEW_FILE, &view(&path)));
    steps.extend(pair("current-conversation", 5, GREP_SEARCH, &grep(&path)));

    let parsed = run(
        stream(steps).as_bytes(),
        Operation::Search,
        &policy(ResearchToolBudget::StandardSearch),
    );

    assert!(parsed.is_ok());
}

#[test]
fn valid_generated_grep_step_directory_is_budget_neutral() {
    let content = content_path("current-conversation", 3);
    let directory = parent(&content);
    let mut steps = search_and_read();
    steps.extend(pair("current-conversation", 4, GREP_SEARCH, &grep(&directory)));

    let parsed = run(
        stream(steps).as_bytes(),
        Operation::Search,
        &policy(ResearchToolBudget::StandardSearch),
    );
    assert!(parsed.is_ok());
}

#[test]
fn generated_grep_rejects_broader_sibling_and_workspace_directories() {
    let content = content_path("current-conversation", 3);
    let step = parent(&content);
    let steps_root = parent(&step);
    let sibling = format!("{steps_root}/4");

    for unsafe_path in [steps_root.as_str(), sibling.as_str(), WORKSPACE] {
        let mut steps = search_and_read();
        steps.extend(pair("current-conversation", 4, GREP_SEARCH, &grep(unsafe_path)));
        let parsed = run(
            stream(steps).as_bytes(),
            Operation::Search,
            &policy(ResearchToolBudget::StandardSearch),
        );
        assert!(parsed.is_err(), "accepted unsafe grep path {unsafe_path:?}");
    }
}

#[test]
fn invalid_generated_content_attempts_fail_closed() {
    let valid = content_path("current-conversation", 3);
    let workspace = format!("{WORKSPACE}/Cargo.toml");
    let mut cases = vec![
        inspection_case("current-conversation", "/etc/passwd", "/etc/passwd"),
        inspection_case("current-conversation", &workspace, &workspace),
        inspection_case(
            "sibling-conversation",
            &content_path("sibling-conversation", 3),
            &content_path("sibling-conversation", 3),
        ),
        inspection_case(
            "current-conversation",
            &content_path("current-conversation", 4),
            &content_path("current-conversation", 4),
        ),
        inspection_case("current-conversation", &valid, "/etc/passwd"),
    ];

    let mut before_done = pair("current-conversation", 1, SEARCH_WEB, SEARCH).to_vec();
    before_done.push(step_line("current-conversation", 3, "ACTIVE", READ_URL, READ));
    before_done.push(step_line("current-conversation", 4, "ACTIVE", VIEW_FILE, &view(&valid)));
    before_done.push(step_line("current-conversation", 3, "DONE", READ_URL, READ));
    before_done.push(step_line("current-conversation", 4, "DONE", VIEW_FILE, &view(&valid)));
    cases.push(stream(before_done));

    let mut unrelated = search_and_read();
    unrelated.extend(pair("current-conversation", 6, RUN_COMMAND, r"{}"));
    cases.push(stream(unrelated));

    for candidate in cases {
        let parsed = run(
            candidate.as_bytes(),
            Operation::Search,
            &policy(ResearchToolBudget::TemporalSearch),
        );

        assert!(parsed.is_err());
    }
}

#[test]
fn content_paths_live_under_the_home_generated_root() {
    assert_eq!(
        content_path("conversation", 12),
        "/home/tester/.gemini/antigravity-cli/brain/conversation/.system_generated/steps/12/content.md"
    );
    assert!(GeneratedContentRoot::from_home("relative/home").is_none());
}

#[test]
fn path_safe_conversations_use_only_plain_characters() {
    assert!(ConversationId { id: "current-conversation_1".to_owned() }.is_path_safe());
    assert!(!ConversationId { id: String::new() }.is_path_safe());
    assert!(!ConversationId { id: "../escape".to_owned() }.is_path_safe());
    assert!(!ConversationId { id: "x".repeat(129) }.is_path_safe());
}
