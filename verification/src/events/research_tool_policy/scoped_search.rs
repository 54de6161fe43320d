//! Exact-query validation for one temporal-scope Search attempt sequence.

use vstd::prelude::*;

use super::super::stream::{
    event_views, update_tool_step, Event, EventName, EventView, InfoView, StepState, StepType,
    StepUpdate, StepView, ToolInfo, ToolName,
};
use super::{attempt_count, completed_research_attempt_count};
use crate::research_policy::{query_kind, RequiredSearchQuery, ScopedQueryKind};

verus! {

/// The query a tool's parameters name.
pub open spec fn info_query(info: InfoView) -> Option<Seq<char>> {
    match info.parameters {
        Some(p) => p.query,
        None => None,
    }
}

/// The tool's query is the required query or an allowed follow-up of it.
pub open spec fn info_query_valid(required: Seq<char>, info: InfoView) -> bool {
    info_query(info) matches Some(q) && query_kind(required, q) != ScopedQueryKind::Invalid
}

/// The step's query is the required query or an allowed follow-up of it.
pub open spec fn step_query_valid(required: Seq<char>, s: StepView) -> bool {
    s.tool_info matches Some(info) && info_query_valid(required, info)
}

/// The step's query is exactly the required query.
pub open spec fn step_query_exact(required: Seq<char>, s: StepView) -> bool {
    s.tool_info matches Some(info) && info_query(info) matches Some(q) && query_kind(required, q)
        == ScopedQueryKind::Initial
}

/// What a scan of the tool steps has seen so far.
pub struct ScopedScan {
    pub tools: nat,
    pub all_search: bool,
    pub actives: nat,
    pub first_exact: Option<bool>,
    pub actives_valid: bool,
    pub successes: nat,
    pub successes_valid: bool,
}

/// A tool step of `search_web`.
pub open spec fn step_is_search(s: StepView) -> bool {
    s.tool_info matches Some(i) && i.name == ToolName::SearchWeb
}

/// A tool step that started.
pub open spec fn step_active(s: StepView) -> bool {
    s.state == Some(StepState::Active)
}

/// A tool step that completed without error.
pub open spec fn step_success(s: StepView) -> bool {
    s.state == Some(StepState::Done) && (s.tool_info matches Some(i) && !i.error)
}

/// One event's part in the scan.
pub open spec fn scan_step(required: Seq<char>, st: ScopedScan, e: EventView) -> ScopedScan {
    match update_tool_step(e) {
        None => st,
        Some(s) => {
            let is_search = step_is_search(s);
            let active = step_active(s);
            let success = step_success(s);
            ScopedScan {
                tools: st.tools + 1,
                all_search: st.all_search && is_search,
                actives: if active { st.actives + 1 } else { st.actives },
                first_exact: if active && st.first_exact is None {
                    Some(step_query_exact(required, s))
                } else {
                    st.first_exact
                },
                actives_valid: st.actives_valid && (active ==> step_query_valid(required, s)),
                successes: if success { st.successes + 1 } else { st.successes },
                successes_valid: st.successes_valid && (success ==> step_query_valid(required, s)),
            }
        },
    }
}

/// The scan before any event.
pub open spec fn scan_start() -> ScopedScan {
    ScopedScan {
        tools: 0,
        all_search: true,
        actives: 0,
        first_exact: None,
        actives_valid: true,
        successes: 0,
        successes_valid: true,
    }
}

/// The scan after the events.
pub open spec fn scoped_scan(required: Seq<char>, es: Seq<EventView>) -> ScopedScan
    decreases es.len(),
{
    if es.len() == 0 {
        scan_start()
    } else {
        scan_step(required, scoped_scan(required, es.drop_last()), es.last())
    }
}

/// Every tool step among the events satisfies `ok`.
pub open spec fn every_tool_step(es: Seq<EventView>, ok: spec_fn(StepView) -> bool) -> bool {
    forall|i: int| 0 <= i < es.len() ==> (#[trigger] update_tool_step(es[i]) matches Some(s) ==> ok(s))
}

proof fn lemma_every_tool_step_last(es: Seq<EventView>, ok: spec_fn(StepView) -> bool)
    requires
        es.len() > 0,
    ensures
        every_tool_step(es, ok) == (every_tool_step(es.drop_last(), ok)
            && (update_tool_step(es.last()) matches Some(s) ==> ok(s))),
{
    let p = es.drop_last();
    if every_tool_step(es, ok) {
        assert forall|i: int| 0 <= i < p.len() implies (#[trigger] update_tool_step(p[i]) matches Some(s) ==> ok(s)) by {
            assert(p[i] == es[i]);
            assert(update_tool_step(es[i]) matches Some(s) ==> ok(s));
        }
        assert(update_tool_step(es[es.len() - 1]) matches Some(s) ==> ok(s));
    }
    if every_tool_step(p, ok) && (update_tool_step(es.last()) matches Some(s) ==> ok(s)) {
        assert forall|i: int| 0 <= i < es.len() implies (#[trigger] update_tool_step(es[i]) matches Some(s) ==> ok(s)) by {
            if i < p.len() {
                assert(p[i] == es[i]);
                assert(update_tool_step(p[i]) matches Some(s) ==> ok(s));
            }
        }
    }
}

/// What the scan's flags say, stated over the events directly: every tool step is a search,
/// every started search keeps the required query, and so does every successful one.
pub proof fn lemma_scoped_scan_flags(required: Seq<char>, es: Seq<EventView>)
    ensures
        scoped_scan(required, es).all_search == every_tool_step(es, |s: StepView| step_is_search(s)),
        scoped_scan(required, es).actives_valid == every_tool_step(es, |s: StepView| step_active(s) ==> step_query_valid(required, s)),
        scoped_scan(required, es).successes_valid == every_tool_step(es, |s: StepView| step_success(s) ==> step_query_valid(required, s)),
    decreases es.len(),
{
    if es.len() > 0 {
        lemma_scoped_scan_flags(required, es.drop_last());
        lemma_every_tool_step_last(es, |s: StepView| step_is_search(s));
        lemma_every_tool_step_last(es, |s: StepView| step_active(s) ==> step_query_valid(required, s));
        lemma_every_tool_step_last(es, |s: StepView| step_success(s) ==> step_query_valid(required, s));
    }
}

/// A scoped temporal search: only searches, at most two attempts, the first started search is
/// the exact required query and every started or successful search keeps it as its prefix, at
/// least one search succeeded, and no more succeeded than started.
pub open spec fn scoped_attempts_valid(required: Seq<char>, es: Seq<EventView>) -> bool {
    match attempt_count(es) {
        None => false,
        Some(count) => {
            let st = scoped_scan(required, es);
            &&& st.tools > 0
            &&& st.all_search
            &&& st.first_exact == Some(true)
            &&& count <= 2
            &&& st.actives <= 2
            &&& st.actives_valid
            &&& st.successes > 0
            &&& st.successes <= st.actives
            &&& st.successes_valid
        },
    }
}

/// Whether a tool's query is the required query or an allowed follow-up.
fn info_query_matches(info: &ToolInfo, required_query: &RequiredSearchQuery) -> (r: bool)
    ensures
        r == info_query_valid(required_query@, info@),
{
    match &info.parameters {
        Some(p) => match &p.query {
            Some(q) => required_query.classify(q.as_str()) != ScopedQueryKind::Invalid,
            None => false,
        },
        None => false,
    }
}

/// Whether a step's query is exactly the required query.
pub fn query_matches_exact(step: &StepUpdate, required_query: &RequiredSearchQuery) -> (r: bool)
    ensures
        r == step_query_exact(required_query@, step@),
{
    match &step.tool_info {
        Some(info) => match &info.parameters {
            Some(p) => match &p.query {
                Some(q) => required_query.classify(q.as_str()) == ScopedQueryKind::Initial,
                None => false,
            },
            None => false,
        },
        None => false,
    }
}

/// Whether a step's query keeps the required query as its prefix.
pub fn query_has_required_prefix(step: &StepUpdate, required_query: &RequiredSearchQuery) -> (r: bool)
    ensures
        r == step_query_valid(required_query@, step@),
{
    match &step.tool_info {
        Some(info) => info_query_matches(info, required_query),
        None => false,
    }
}

/// Whether a temporal-scope search kept to its required query.
pub fn attempts_are_valid(events: &Vec<Event>, required_query: &RequiredSearchQuery) -> (r: bool)
    ensures
        r == scoped_attempts_valid(required_query@, event_views(events@)),
{
    let count = match completed_research_attempt_count(events) {
        Some(c) => c,
        None => {
            return false;
        },
    };
    let ghost ev = event_views(events@);
    let ghost rq = required_query@;
    let mut tools: usize = 0;
    let mut all_search = true;
    let mut actives: usize = 0;
    let mut first_exact: Option<bool> = None;
    let mut actives_valid = true;
    let mut successes: usize = 0;
    let mut successes_valid = true;
    let mut i: usize = 0;
    proof {
        assert(ev.take(0) =~= Seq::<EventView>::empty());
    }
    while i < events.len()
        invariant
            ev == event_views(events@),
            rq == required_query@,
            i <= events@.len(),
            tools <= i,
            actives <= i,
            successes <= i,
            scoped_scan(rq, ev.take(i as int)) == (ScopedScan {
                tools: tools as nat,
                all_search,
                actives: actives as nat,
                first_exact,
                actives_valid,
                successes: successes as nat,
                successes_valid,
            }),
        decreases events@.len() - i,
    {
        proof {
            assert(ev.take(i + 1).drop_last() =~= ev.take(i as int));
            assert(ev.take(i + 1).last() == events@[i as int]@);
        }
        let event = &events[i];
        if event.kind == EventName::StepUpdate {
            match &event.step_update {
                Some(step) => {
                    if step.step_type == StepType::Tool {
                        tools = tools + 1;
                        let is_search = match &step.tool_info {
                            Some(info) => info.name == ToolName::SearchWeb,
                            None => false,
                        };
                        all_search = all_search && is_search;
                        if step.state == Some(StepState::Active) {
                            actives = actives + 1;
                            if first_exact.is_none() {
                                first_exact = Some(query_matches_exact(step, required_query));
                            }
                            actives_valid = actives_valid && query_has_required_prefix(step, required_query);
                        }
                        let success = step.state == Some(StepState::Done) && match &step.tool_info {
                            Some(info) => !info.error,
                            None => false,
                        };
                        if success {
                            successes = successes + 1;
                            successes_valid = successes_valid && query_has_required_prefix(step, required_query);
                        }
                    }
                },
                None => {},
            }
        }
        i = i + 1;
    }
    proof {
        assert(ev.take(i as int) =~= ev);
    }
    tools > 0 && all_search && first_exact == Some(true) && count <= 2 && actives <= 2 && actives_valid
        && successes > 0 && successes <= actives && successes_valid
}

} // verus!
