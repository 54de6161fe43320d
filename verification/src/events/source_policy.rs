//! Restricted direct-read validation and provisional grounding requirements.

use vstd::prelude::*;

use super::stream::{event_views, update_tool_step, Event, EventName, EventView, InfoView, StepType, StepView, ToolInfo, ToolName};
use super::research_tool_policy::scoped_search::info_query;
use crate::http_url::{http_url_text, url_kind, HttpUrl, SourceUrlKind};
use crate::research_policy::{PolicyView, ResearchToolPolicy};
use crate::source_restriction::{
    restriction_allows, restriction_allows_query, url_views, RestrictionView, SourceRestriction,
};

verus! {

/// The URL a tool's parameters name.
pub open spec fn info_url(info: InfoView) -> Option<Seq<char>> {
    match info.parameters {
        Some(p) => p.url,
        None => None,
    }
}

/// The restriction names no domain.
pub open spec fn no_domains(r: RestrictionView) -> bool {
    match r {
        RestrictionView::Unrestricted => true,
        RestrictionView::Allowlist { domains, .. } => domains.len() == 0,
    }
}

/// A tool step keeps to the restriction: searches keep the site expression when there are
/// domains, reads name an HTTP(S) URL that is allowed or a grounding transport, inspections
/// are judged elsewhere, and no other tool may run.
pub open spec fn step_allowed(r: RestrictionView, s: StepView) -> bool {
    match s.tool_info {
        None => false,
        Some(info) => match info.name {
            ToolName::SearchWeb => no_domains(r) || (info_query(info) matches Some(q)
                && restriction_allows_query(r, q)),
            ToolName::ReadUrlContent => info_url(info) matches Some(u) && http_url_text(u) && (url_kind(u)
                == SourceUrlKind::Direct ==> restriction_allows(r, u)),
            ToolName::ViewFile | ToolName::GrepSearch => true,
            ToolName::Other => false,
        },
    }
}

/// Every tool step of the run keeps to the restriction.
pub open spec fn attempts_allowed(es: Seq<EventView>, r: RestrictionView) -> bool {
    forall|i: int| 0 <= i < es.len() ==> (update_tool_step(#[trigger] es[i]) matches Some(s) ==> step_allowed(r, s))
}

/// Whether one tool keeps to the restriction.
fn info_allowed(info: &ToolInfo, restriction: &SourceRestriction) -> (r: bool)
    ensures
        r == (match info@.name {
            ToolName::SearchWeb => no_domains(restriction@) || (info_query(info@) matches Some(q)
                && restriction_allows_query(restriction@, q)),
            ToolName::ReadUrlContent => info_url(info@) matches Some(u) && http_url_text(u) && (url_kind(u)
                == SourceUrlKind::Direct ==> restriction_allows(restriction@, u)),
            ToolName::ViewFile | ToolName::GrepSearch => true,
            ToolName::Other => false,
        }),
{
    match info.name {
        ToolName::SearchWeb => {
            if !restriction.has_domains() {
                return true;
            }
            match &info.parameters {
                Some(p) => match &p.query {
                    Some(q) => restriction.allows_search_query(q.as_str()),
                    None => false,
                },
                None => false,
            }
        },
        ToolName::ReadUrlContent => {
            match &info.parameters {
                Some(p) => match &p.url {
                    Some(u) => match HttpUrl::parse(u.as_str()) {
                        Ok(url) => match url.source_kind() {
                            SourceUrlKind::Direct => restriction.allows(&url),
                            SourceUrlKind::GroundingRedirect => true,
                        },
                        Err(_) => false,
                    },
                    None => false,
                },
                None => false,
            }
        },
        ToolName::ViewFile | ToolName::GrepSearch => true,
        ToolName::Other => false,
    }
}

/// Whether every tool step keeps to the caller's restriction.
pub fn attempts_satisfy_restriction(events: &Vec<Event>, restriction: &SourceRestriction) -> (r: bool)
    ensures
        r == attempts_allowed(event_views(events@), restriction@),
{
    let ghost ev = event_views(events@);
    let mut i: usize = 0;
    while i < events.len()
        invariant
            ev == event_views(events@),
            i <= events@.len(),
            forall|k: int| 0 <= k < i ==> (update_tool_step(#[trigger] ev[k]) matches Some(s) ==> step_allowed(restriction@, s)),
        decreases events@.len() - i,
    {
        let event = &events[i];
        proof {
            assert(ev[i as int] == event@);
        }
        if event.kind == EventName::StepUpdate {
            match &event.step_update {
                Some(step) => {
                    if step.step_type == StepType::Tool {
                        let ok = match &step.tool_info {
                            Some(info) => info_allowed(info, restriction),
                            None => false,
                        };
                        if !ok {
                            return false;
                        }
                    }
                },
                None => {},
            }
        }
        i = i + 1;
    }
    true
}

/// The grounding transport a step-update event reads, if any.
pub open spec fn transport_read(e: EventView) -> Option<Seq<char>> {
    match update_tool_step(e) {
        Some(s) => match s.tool_info {
            Some(info) => if info.name == ToolName::ReadUrlContent {
                match info_url(info) {
                    Some(u) => if http_url_text(u) && url_kind(u) == SourceUrlKind::GroundingRedirect {
                        Some(u)
                    } else {
                        None
                    },
                    None => None,
                }
            } else {
                None
            },
            None => None,
        },
        None => None,
    }
}

/// The grounding transports the run read, each once, in first-seen order.
pub open spec fn read_transports(es: Seq<EventView>) -> Seq<Seq<char>>
    decreases es.len(),
{
    if es.len() == 0 {
        Seq::empty()
    } else {
        let seen = read_transports(es.drop_last());
        match transport_read(es.last()) {
            Some(u) => if seen.contains(u) {
                seen
            } else {
                seen.push(u)
            },
            None => seen,
        }
    }
}

/// What must still be resolved before a restricted run's response can be trusted.
#[derive(Debug)]
pub enum GroundingRequirement {
    NotRequired,
    Restricted { transports: Vec<HttpUrl>, restriction: SourceRestriction },
}

/// The grounding requirement of a run: none without a restriction; else the transports read.
pub open spec fn spec_grounding(es: Seq<EventView>, p: PolicyView) -> Option<(Seq<Seq<char>>, RestrictionView)> {
    match p {
        PolicyView::Budget(_) | PolicyView::ScopedTemporalSearch(_) => None,
        PolicyView::Restricted { restriction, .. } => Some((read_transports(es), restriction)),
        PolicyView::RestrictedScopedTemporalSearch { restriction, .. } => Some((read_transports(es), restriction)),
    }
}

/// The requirement, seen through its parts.
pub open spec fn requirement_view(g: GroundingRequirement) -> Option<(Seq<Seq<char>>, RestrictionView)> {
    match g {
        GroundingRequirement::NotRequired => None,
        GroundingRequirement::Restricted { transports, restriction } => Some((url_views(transports@), restriction@)),
    }
}

/// Whether `urls` holds `url`.
pub fn has_url(urls: &Vec<HttpUrl>, url: &HttpUrl) -> (r: bool)
    ensures
        r == url_views(urls@).contains(url@),
{
    let ghost uv = url_views(urls@);
    let mut i: usize = 0;
    while i < urls.len()
        invariant
            uv == url_views(urls@),
            i <= urls@.len(),
            forall|k: int| 0 <= k < i ==> uv[k] != url@,
        decreases urls@.len() - i,
    {
        if urls[i].same_url(url) {
            proof {
                assert(uv[i as int] == url@);
            }
            return true;
        }
        i = i + 1;
    }
    false
}

/// The transports a restricted run still has to resolve.
pub fn grounding_requirement(events: &Vec<Event>, policy: &ResearchToolPolicy) -> (g: GroundingRequirement)
    ensures
        requirement_view(g) == spec_grounding(event_views(events@), policy@),
{
    let restriction = match policy {
        ResearchToolPolicy::Budget(_) | ResearchToolPolicy::ScopedTemporalSearch(_) => {
            return GroundingRequirement::NotRequired;
        },
        ResearchToolPolicy::Restricted { restriction, .. } => restriction.clone(),
        ResearchToolPolicy::RestrictedScopedTemporalSearch { restriction, .. } => restriction.clone(),
    };
    let ghost ev = event_views(events@);
    let mut transports: Vec<HttpUrl> = Vec::new();
    let mut i: usize = 0;
    proof {
        assert(ev.take(0) =~= Seq::<EventView>::empty());
        assert(url_views(transports@) =~= Seq::<Seq<char>>::empty());
    }
    while i < events.len()
        invariant
            ev == event_views(events@),
            i <= events@.len(),
            url_views(transports@) == read_transports(ev.take(i as int)),
        decreases events@.len() - i,
    {
        proof {
            assert(ev.take(i + 1).drop_last() =~= ev.take(i as int));
            assert(ev.take(i + 1).last() == events@[i as int]@);
        }
        let event = &events[i];
        if event.kind == EventName::StepUpdate {
            match &event.step_update {
                Some(step) => {
                    if step.step_type == StepType::Tool {
                        match &step.tool_info {
                            Some(info) => {
                                if info.name == ToolName::ReadUrlContent {
                                    match &info.parameters {
                                        Some(p) => match &p.url {
                                            Some(u) => match HttpUrl::parse(u.as_str()) {
                                                Ok(url) => {
                                                    if url.source_kind() == SourceUrlKind::GroundingRedirect
                                                        && !has_url(&transports, &url) {
                                                        let ghost before = url_views(transports@);
                                                        transports.push(url);
                                                        proof {
                                                            assert(url_views(transports@) =~= before.push(u@));
                                                        }
                                                    }
                                                },
                                                Err(_) => {},
                                            },
                                            None => {},
                                        },
                                        None => {},
                                    }
                                }
                            },
                            None => {},
                        }
                    }
                },
                None => {},
            }
        }
        i = i + 1;
    }
    proof {
        assert(ev.take(i as int) =~= ev);
    }
    GroundingRequirement::Restricted { transports, restriction }
}

} // verus!
