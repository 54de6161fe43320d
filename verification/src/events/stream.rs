//! Parsed Antigravity `stream-json` event data.

use vstd::prelude::*;

use crate::text::{chars_of, is_ascii_alnum, is_ascii_alnum_exec};

verus! {

/// The kind of a stream event.
#[derive(Clone, Copy, Debug, PartialEq, Eq, Structural)]
pub enum EventName {
    Init,
    StepUpdate,
    Result,
    Other,
}

/// The kind of a step.
#[derive(Clone, Copy, Debug, PartialEq, Eq, Structural)]
pub enum StepType {
    Tool,
    Other,
}

/// The lifecycle state a step reports.
#[derive(Clone, Copy, Debug, PartialEq, Eq, Structural)]
pub enum StepState {
    Active,
    Done,
    Error,
    Other,
}

/// The tool a step runs.
#[derive(Clone, Copy, Debug, PartialEq, Eq, Structural)]
pub enum ToolName {
    SearchWeb,
    ReadUrlContent,
    ViewFile,
    GrepSearch,
    Other,
}

/// Search and direct reads are web evidence.
pub open spec fn web_evidence(t: ToolName) -> bool {
    t == ToolName::SearchWeb || t == ToolName::ReadUrlContent
}

impl ToolName {
    /// Whether the tool gathers web evidence.
    pub fn is_web_evidence(self) -> (r: bool)
        ensures
            r == web_evidence(self),
    {
        match self {
            ToolName::SearchWeb | ToolName::ReadUrlContent => true,
            ToolName::ViewFile | ToolName::GrepSearch | ToolName::Other => false,
        }
    }
}

/// A conversation identifier that can name a directory: 1 to 128 ASCII letters, digits,
/// hyphens and underscores.
pub open spec fn path_safe_id(s: Seq<char>) -> bool {
    s.len() > 0 && s.len() <= 128 && forall|i: int|
        0 <= i < s.len() ==> is_ascii_alnum(#[trigger] s[i]) || s[i] == '-' || s[i] == '_'
}

/// The conversation a stream belongs to.
#[derive(Debug, PartialEq, Eq, Hash)]
pub struct ConversationId {
    pub id: String,
}

impl View for ConversationId {
    type V = Seq<char>;

    open spec fn view(&self) -> Seq<char> {
        self.id@
    }
}

impl Clone for ConversationId {
    fn clone(&self) -> (r: Self)
        ensures
            r@ == self@,
    {
        ConversationId { id: self.id.clone() }
    }
}

impl ConversationId {
    /// Whether the identifier can safely name a directory.
    pub fn is_path_safe(&self) -> (r: bool)
        ensures
            r == path_safe_id(self@),
    {
        let chars = chars_of(self.id.as_str());
        if chars.len() == 0 || chars.len() > 128 {
            return false;
        }
        let mut i: usize = 0;
        while i < chars.len()
            invariant
                i <= chars@.len(),
                chars@ == self@,
                0 < chars@.len() <= 128,
                forall|k: int| 0 <= k < i ==> is_ascii_alnum(#[trigger] chars@[k]) || chars@[k] == '-' || chars@[k] == '_',
            decreases chars@.len() - i,
        {
            let c = chars[i];
            if !(is_ascii_alnum_exec(c) || c == '-' || c == '_') {
                return false;
            }
            i = i + 1;
        }
        true
    }

    /// The identifier text.
    pub fn as_str(&self) -> (s: &str)
        ensures
            s@ == self@,
    {
        self.id.as_str()
    }

    /// Whether two identifiers are the same.
    pub fn same_id(&self, other: &ConversationId) -> (r: bool)
        ensures
            r == (self@ == other@),
    {
        self.id == other.id
    }
}

/// The text of an optional string.
pub open spec fn opt_text(o: Option<String>) -> Option<Seq<char>> {
    match o {
        Some(s) => Some(s@),
        None => None,
    }
}

/// The identifier of an optional conversation.
pub open spec fn opt_id(o: Option<ConversationId>) -> Option<Seq<char>> {
    match o {
        Some(c) => Some(c@),
        None => None,
    }
}

/// The parameters a tool step names.
pub struct ParamsView {
    pub query: Option<Seq<char>>,
    pub url: Option<Seq<char>>,
    pub absolute_path: Option<Seq<char>>,
    pub search_path: Option<Seq<char>>,
}

/// The parameters a tool step names.
#[derive(Debug)]
pub struct ToolParameters {
    pub query: Option<String>,
    pub url: Option<String>,
    pub absolute_path: Option<String>,
    pub search_path: Option<String>,
}

impl View for ToolParameters {
    type V = ParamsView;

    open spec fn view(&self) -> ParamsView {
        ParamsView {
            query: opt_text(self.query),
            url: opt_text(self.url),
            absolute_path: opt_text(self.absolute_path),
            search_path: opt_text(self.search_path),
        }
    }
}

/// Optional string equality.
pub fn same_opt_text(a: &Option<String>, b: &Option<String>) -> (r: bool)
    ensures
        r == (opt_text(*a) == opt_text(*b)),
{
    match (a, b) {
        (Some(x), Some(y)) => crate::text::same_text(x.as_str(), y.as_str()),
        (None, None) => true,
        _ => false,
    }
}

impl ToolParameters {
    /// Whether two parameter sets are the same.
    pub fn same_parameters(&self, other: &ToolParameters) -> (r: bool)
        ensures
            r == (self@ == other@),
    {
        same_opt_text(&self.query, &other.query) && same_opt_text(&self.url, &other.url)
            && same_opt_text(&self.absolute_path, &other.absolute_path)
            && same_opt_text(&self.search_path, &other.search_path)
    }
}

/// What a tool step says about its tool.
pub struct InfoView {
    pub name: ToolName,
    pub error: bool,
    pub parameters: Option<ParamsView>,
}

/// What a tool step says about its tool: its name, whether it reported an error, and its
/// parameters.
#[derive(Debug)]
pub struct ToolInfo {
    pub name: ToolName,
    pub error: bool,
    pub parameters: Option<ToolParameters>,
}

/// The view of optional parameters.
pub open spec fn opt_params(o: Option<ToolParameters>) -> Option<ParamsView> {
    match o {
        Some(p) => Some(p@),
        None => None,
    }
}

impl View for ToolInfo {
    type V = InfoView;

    open spec fn view(&self) -> InfoView {
        InfoView { name: self.name, error: self.error, parameters: opt_params(self.parameters) }
    }
}

/// One step update.
pub struct StepView {
    pub conversation_id: Option<Seq<char>>,
    pub step_index: Option<u64>,
    pub step_type: StepType,
    pub state: Option<StepState>,
    pub tool_info: Option<InfoView>,
    pub tool_name: Option<ToolName>,
}

/// One step update.
#[derive(Debug)]
pub struct StepUpdate {
    pub conversation_id: Option<ConversationId>,
    pub step_index: Option<u64>,
    pub step_type: StepType,
    pub state: Option<StepState>,
    pub tool_info: Option<ToolInfo>,
    pub tool_name: Option<ToolName>,
}

/// The view of optional tool information.
pub open spec fn opt_info(o: Option<ToolInfo>) -> Option<InfoView> {
    match o {
        Some(i) => Some(i@),
        None => None,
    }
}

impl View for StepUpdate {
    type V = StepView;

    open spec fn view(&self) -> StepView {
        StepView {
            conversation_id: opt_id(self.conversation_id),
            step_index: self.step_index,
            step_type: self.step_type,
            state: self.state,
            tool_info: opt_info(self.tool_info),
            tool_name: self.tool_name,
        }
    }
}

/// A terminal result: whether it carries structured output.
#[derive(Debug)]
pub struct ResultEvent {
    pub has_structured_output: bool,
}

/// One stream event.
pub struct EventView {
    pub kind: EventName,
    pub conversation_id: Option<Seq<char>>,
    pub step_update: Option<StepView>,
    pub result: Option<bool>,
}

/// One stream event.
#[derive(Debug)]
pub struct Event {
    pub kind: EventName,
    pub conversation_id: Option<ConversationId>,
    pub step_update: Option<StepUpdate>,
    pub result: Option<ResultEvent>,
}

impl View for Event {
    type V = EventView;

    open spec fn view(&self) -> EventView {
        EventView {
            kind: self.kind,
            conversation_id: opt_id(self.conversation_id),
            step_update: match self.step_update {
                Some(s) => Some(s@),
                None => None,
            },
            result: match self.result {
                Some(r) => Some(r.has_structured_output),
                None => None,
            },
        }
    }
}

/// The views of a sequence of events.
pub open spec fn event_views(v: Seq<Event>) -> Seq<EventView> {
    Seq::new(v.len(), |i: int| v[i]@)
}

/// The tool step an event carries, whatever the event's kind.
pub open spec fn tool_step(e: EventView) -> Option<StepView> {
    match e.step_update {
        Some(s) => if s.step_type == StepType::Tool {
            Some(s)
        } else {
            None
        },
        None => None,
    }
}

/// The tool step a step-update event carries.
pub open spec fn update_tool_step(e: EventView) -> Option<StepView> {
    if e.kind == EventName::StepUpdate {
        tool_step(e)
    } else {
        None
    }
}

/// The conversation of the first init event, if it names one.
pub open spec fn init_conversation(es: Seq<EventView>) -> Option<Seq<char>>
    decreases es.len(),
{
    if es.len() == 0 {
        None
    } else if es[0].kind == EventName::Init {
        es[0].conversation_id
    } else {
        init_conversation(es.drop_first())
    }
}

/// The first init event's conversation.
pub fn init_conversation_exec(events: &Vec<Event>) -> (r: Option<&ConversationId>)
    ensures
        opt_id(match r { Some(c) => Some(*c), None => None }) == init_conversation(event_views(events@)),
{
    let ghost ev = event_views(events@);
    let mut i: usize = 0;
    proof {
        assert(ev.skip(0) =~= ev);
    }
    while i < events.len()
        invariant
            ev == event_views(events@),
            i <= events@.len(),
            init_conversation(ev) == init_conversation(ev.skip(i as int)),
        decreases events@.len() - i,
    {
        proof {
            assert(ev.skip(i as int).drop_first() =~= ev.skip(i + 1));
            assert(ev.skip(i as int)[0] == events@[i as int]@);
        }
        if events[i].kind == EventName::Init {
            return match &events[i].conversation_id {
                Some(c) => Some(c),
                None => None,
            };
        }
        i = i + 1;
    }
    None
}

} // verus!
