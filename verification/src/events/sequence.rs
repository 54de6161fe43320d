//! Stream sequence and terminal-evidence validation.

use vstd::prelude::*;

use super::stream::{
    event_views, update_tool_step, web_evidence, Event, EventName, EventView, StepState, StepType,
    ToolName,
};
use crate::error::AgyError;
use crate::types::Operation;

verus! {

/// How many events have kind `k`.
pub open spec fn kind_count(es: Seq<EventView>, k: EventName) -> nat
    decreases es.len(),
{
    if es.len() == 0 {
        0
    } else {
        kind_count(es.drop_last(), k) + if es.last().kind == k {
            1nat
        } else {
            0nat
        }
    }
}

/// A stream opens with its one init event, closes with its one result event, and holds no
/// event of an unknown kind.
pub open spec fn stream_well_formed(es: Seq<EventView>) -> bool {
    &&& es.len() > 0
    &&& es[0].kind == EventName::Init
    &&& es.last().kind == EventName::Result
    &&& kind_count(es, EventName::Init) == 1
    &&& kind_count(es, EventName::Result) == 1
    &&& kind_count(es, EventName::Other) == 0
}

/// Check the shape of an event stream.
pub fn validate(events: &Vec<Event>) -> (r: Result<(), AgyError>)
    ensures
        r is Ok <==> stream_well_formed(event_views(events@)),
        r matches Err(e) ==> e == AgyError::OutputInvalid,
{
    let ghost ev = event_views(events@);
    let n = events.len();
    let mut inits: usize = 0;
    let mut results: usize = 0;
    let mut others: usize = 0;
    let mut i: usize = 0;
    proof {
        assert(ev.take(0) =~= Seq::<EventView>::empty());
    }
    while i < n
        invariant
            ev == event_views(events@),
            n == events@.len(),
            i <= n,
            inits <= i,
            results <= i,
            others <= i,
            inits == kind_count(ev.take(i as int), EventName::Init),
            results == kind_count(ev.take(i as int), EventName::Result),
            others == kind_count(ev.take(i as int), EventName::Other),
        decreases n - i,
    {
        proof {
            assert(ev.take(i + 1).drop_last() =~= ev.take(i as int));
            assert(ev.take(i + 1).last() == events@[i as int]@);
        }
        match events[i].kind {
            EventName::Init => inits = inits + 1,
            EventName::Result => results = results + 1,
            EventName::Other => others = others + 1,
            EventName::StepUpdate => {},
        }
        i = i + 1;
    }
    proof {
        assert(ev.take(n as int) =~= ev);
    }
    if n > 0 && events[0].kind == EventName::Init && events[n - 1].kind == EventName::Result
        && inits == 1 && results == 1 && others == 0 {
        proof {
            assert(ev[0] == events@[0]@);
            assert(ev.last() == events@[n - 1]@);
        }
        Ok(())
    } else {
        proof {
            if n > 0 {
                assert(ev[0] == events@[0]@);
                assert(ev.last() == events@[n - 1]@);
            }
        }
        Err(AgyError::OutputInvalid)
    }
}

/// The index of the last result event.
pub open spec fn last_result(es: Seq<EventView>) -> Option<int>
    decreases es.len(),
{
    if es.len() == 0 {
        None
    } else if es.last().kind == EventName::Result {
        Some(es.len() - 1)
    } else {
        last_result(es.drop_last())
    }
}

/// The event holding the terminal output: the last result event, when it carries
/// structured output.
pub open spec fn terminal_index(es: Seq<EventView>) -> Option<int> {
    match last_result(es) {
        Some(i) => if es[i].result == Some(true) {
            Some(i)
        } else {
            None
        },
        None => None,
    }
}

proof fn lemma_last_result_bound(es: Seq<EventView>)
    ensures
        last_result(es) matches Some(i) ==> 0 <= i < es.len() && es[i].kind == EventName::Result,
    decreases es.len(),
{
    if es.len() > 0 && es.last().kind != EventName::Result {
        lemma_last_result_bound(es.drop_last());
    }
}

/// Find the event that holds the terminal structured output.
pub fn terminal_output(events: &Vec<Event>) -> (r: Result<usize, AgyError>)
    ensures
        match r {
            Ok(i) => terminal_index(event_views(events@)) == Some(i as int),
            Err(e) => terminal_index(event_views(events@)) is None && e == AgyError::OutputInvalid,
        },
{
    let ghost ev = event_views(events@);
    let mut k = events.len();
    proof {
        assert(ev.take(k as int) =~= ev);
    }
    while k > 0
        invariant
            ev == event_views(events@),
            k <= events@.len(),
            last_result(ev) == last_result(ev.take(k as int)),
        decreases k,
    {
        proof {
            assert(ev.take(k as int).drop_last() =~= ev.take(k - 1));
            assert(ev.take(k as int).last() == events@[k - 1]@);
        }
        if events[k - 1].kind == EventName::Result {
            let has = match &events[k - 1].result {
                Some(result) => result.has_structured_output,
                None => false,
            };
            proof {
                assert(ev[k - 1] == events@[k - 1]@);
            }
            if has {
                return Ok(k - 1);
            } else {
                return Err(AgyError::OutputInvalid);
            }
        }
        k = k - 1;
    }
    Err(AgyError::OutputInvalid)
}

/// The web-evidence tool a step-update event shows completed without error.
pub open spec fn completed_web_tool(e: EventView) -> Option<ToolName> {
    match update_tool_step(e) {
        Some(s) => if s.state == Some(StepState::Done) {
            match s.tool_info {
                Some(info) => if !info.error && web_evidence(info.name) {
                    Some(info.name)
                } else {
                    None
                },
                None => None,
            }
        } else {
            None
        },
        None => None,
    }
}

/// The web-evidence tools that completed without error, each once, in first-seen order.
pub open spec fn completed_tools(es: Seq<EventView>) -> Seq<ToolName>
    decreases es.len(),
{
    if es.len() == 0 {
        Seq::empty()
    } else {
        let done = completed_tools(es.drop_last());
        match completed_web_tool(es.last()) {
            Some(t) => if done.contains(t) {
                done
            } else {
                done.push(t)
            },
            None => done,
        }
    }
}

/// Whether `tools` holds `t`.
fn has_tool(tools: &[ToolName], t: ToolName) -> (r: bool)
    ensures
        r == tools@.contains(t),
{
    let mut i: usize = 0;
    while i < tools.len()
        invariant
            i <= tools@.len(),
            forall|k: int| 0 <= k < i ==> tools@[k] != t,
        decreases tools@.len() - i,
    {
        if tools[i] == t {
            proof {
                assert(tools@[i as int] == t);
            }
            return true;
        }
        i = i + 1;
    }
    false
}

/// The web-evidence tools that completed without error.
pub fn completed_research_tools(events: &Vec<Event>) -> (tools: Vec<ToolName>)
    ensures
        tools@ == completed_tools(event_views(events@)),
{
    let ghost ev = event_views(events@);
    let mut tools: Vec<ToolName> = Vec::new();
    let mut i: usize = 0;
    proof {
        assert(ev.take(0) =~= Seq::<EventView>::empty());
    }
    while i < events.len()
        invariant
            ev == event_views(events@),
            i <= events@.len(),
            tools@ == completed_tools(ev.take(i as int)),
        decreases events@.len() - i,
    {
        proof {
            assert(ev.take(i + 1).drop_last() =~= ev.take(i as int));
            assert(ev.take(i + 1).last() == events@[i as int]@);
        }
        let event = &events[i];
        if event.kind == EventName::StepUpdate {
            match &event.step_update {
                Some(step) => {
                    if step.step_type == StepType::Tool && step.state == Some(StepState::Done) {
                        match &step.tool_info {
                            Some(info) => {
                                if !info.error && info.name.is_web_evidence() && !has_tool(tools.as_slice(), info.name) {
                                    tools.push(info.name);
                                }
                            },
                            None => {},
                        }
                    }
                },
                None => {},
            }
        }
        i = i + 1;
    }
    proof {
        assert(ev.take(i as int) =~= ev);
    }
    tools
}

/// Each operation needs its kind of completed web evidence: a search for Search and Research,
/// a read for Extract and Crawl, either for a site map.
pub open spec fn required_evidence(operation: Operation, tools: Seq<ToolName>) -> bool {
    match operation {
        Operation::Search | Operation::Research => tools.contains(ToolName::SearchWeb),
        Operation::Extract | Operation::Crawl => tools.contains(ToolName::ReadUrlContent),
        Operation::SiteMap => tools.contains(ToolName::SearchWeb) || tools.contains(ToolName::ReadUrlContent),
    }
}

/// Whether the completed tools prove what the operation needs.
pub fn has_required_evidence(operation: Operation, tools: &[ToolName]) -> (r: bool)
    ensures
        r == required_evidence(operation, tools@),
{
    match operation {
        Operation::Search | Operation::Research => has_tool(tools, ToolName::SearchWeb),
        Operation::Extract | Operation::Crawl => has_tool(tools, ToolName::ReadUrlContent),
        Operation::SiteMap => has_tool(tools, ToolName::SearchWeb) || has_tool(tools, ToolName::ReadUrlContent),
    }
}

} // verus!

verus! {

/// Which completed tools satisfy an operation: a completed `search_web` satisfies Search,
/// Research and a site map; a completed `read_url_content` satisfies Extract, Crawl and a site
/// map; nothing else ever does, and completing more tools never takes evidence away.
pub proof fn law_required_evidence(operation: Operation, tools: Seq<ToolName>, more: Seq<ToolName>)
    ensures
        tools.contains(ToolName::SearchWeb) ==> required_evidence(Operation::Search, tools)
            && required_evidence(Operation::Research, tools) && required_evidence(Operation::SiteMap, tools),
        tools.contains(ToolName::ReadUrlContent) ==> required_evidence(Operation::Extract, tools)
            && required_evidence(Operation::Crawl, tools) && required_evidence(Operation::SiteMap, tools),
        !tools.contains(ToolName::SearchWeb) ==> !required_evidence(Operation::Search, tools)
            && !required_evidence(Operation::Research, tools),
        !tools.contains(ToolName::ReadUrlContent) ==> !required_evidence(Operation::Extract, tools)
            && !required_evidence(Operation::Crawl, tools),
        required_evidence(operation, tools) ==> exists|i: int| 0 <= i < tools.len() && web_evidence(#[trigger] tools[i]),
        required_evidence(operation, tools) ==> required_evidence(operation, tools + more),
{
    if required_evidence(operation, tools) {
        if tools.contains(ToolName::SearchWeb) {
            let i = choose|i: int| 0 <= i < tools.len() && tools[i] == ToolName::SearchWeb;
            assert(web_evidence(tools[i]));
            assert((tools + more)[i] == ToolName::SearchWeb);
        }
        if tools.contains(ToolName::ReadUrlContent) {
            let i = choose|i: int| 0 <= i < tools.len() && tools[i] == ToolName::ReadUrlContent;
            assert(web_evidence(tools[i]));
            assert((tools + more)[i] == ToolName::ReadUrlContent);
        }
    }
}

} // verus!
