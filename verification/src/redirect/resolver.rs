//! Decisions of grounding resolution: which transports to follow, how one hop continues, and
//! what a resolved transport may become.

use vstd::prelude::*;
use super::response::{HopResponse, HopView, HttpStatus};
use crate::error::AgyError;
use crate::events::source_policy::{has_url, requirement_view, GroundingRequirement};
use crate::events::{ParsedRun, PendingGrounding};
use super::pinning::{join_redirect, redirect_target};
use crate::http_url::{http_url_text, url_kind, HttpUrl, SourceUrlKind};
use crate::response_models::ResponseDocument;
use crate::response_urls::swapped_doc;
use crate::source_restriction::{restriction_allows, url_views};

verus! {

/// The most redirects one transport may take.
pub const MAX_REDIRECT_HOPS: usize = 5;

/// How probing goes on after one hop.
#[derive(Debug)]
pub enum HopStep {
    /// The probed URL is the direct target.
    Resolved,
    /// Follow the redirect to this location.
    Follow(String),
    /// The transport cannot be resolved.
    Fail,
}

/// The step after hop `hop` (counted from zero): a success without `Location` on a direct URL
/// resolves, a redirect with a location is followed while hops remain, anything else fails.
pub open spec fn hop_step_spec(hop: nat, current_direct: bool, response: HopView) -> Option<Option<Seq<char>>> {
    match response.status {
        HttpStatus::Success => if response.location is None && current_direct {
            Some(None)
        } else {
            None
        },
        HttpStatus::Redirect => if hop >= MAX_REDIRECT_HOPS {
            None
        } else {
            match response.location {
                Some(l) => Some(Some(l)),
                None => None,
            }
        },
        _ => None,
    }
}

/// The meaning of a step: resolved, followed to a location, or failed.
pub open spec fn step_view(s: HopStep) -> Option<Option<Seq<char>>> {
    match s {
        HopStep::Resolved => Some(None),
        HopStep::Follow(l) => Some(Some(l@)),
        HopStep::Fail => None,
    }
}

/// Decide how probing goes on after one hop.
pub fn hop_step(hop: usize, current_direct: bool, response: HopResponse) -> (s: HopStep)
    ensures
        step_view(s) == hop_step_spec(hop as nat, current_direct, response@),
{
    match response.status {
        HttpStatus::Success => if response.location.is_none() && current_direct {
            HopStep::Resolved
        } else {
            HopStep::Fail
        },
        HttpStatus::Redirect => if hop >= MAX_REDIRECT_HOPS {
            HopStep::Fail
        } else {
            match response.location {
                Some(l) => HopStep::Follow(l),
                None => HopStep::Fail,
            }
        },
        HttpStatus::Informational | HttpStatus::Other => HopStep::Fail,
    }
}

/// `seen` followed by each item of `extra` that is not already there, in order.
pub open spec fn append_unseen(seen: Seq<Seq<char>>, extra: Seq<Seq<char>>) -> Seq<Seq<char>>
    decreases extra.len(),
{
    if extra.len() == 0 {
        seen
    } else {
        let before = append_unseen(seen, extra.drop_last());
        if before.contains(extra.last()) {
            before
        } else {
            before.push(extra.last())
        }
    }
}

/// The transports a strict resolution follows: those the response names, then those a
/// restricted run read that the response does not name, each once.
pub open spec fn resolution_order(response_transports: Seq<Seq<char>>, grounding: Option<(Seq<Seq<char>>, crate::source_restriction::RestrictionView)>) -> Seq<Seq<char>> {
    match grounding {
        None => response_transports,
        Some((read, _)) => append_unseen(response_transports, read),
    }
}

/// The transports a strict resolution follows, in order.
pub fn transports_to_resolve(response_transports: Vec<HttpUrl>, grounding: &GroundingRequirement) -> (r: Vec<HttpUrl>)
    ensures
        url_views(r@) == resolution_order(url_views(response_transports@), requirement_view(*grounding)),
{
    match grounding {
        GroundingRequirement::NotRequired => response_transports,
        GroundingRequirement::Restricted { transports, .. } => {
            let mut out = response_transports;
            let ghost base = url_views(out@);
            let mut i: usize = 0;
            while i < transports.len()
                invariant
                    i <= transports@.len(),
                    url_views(out@) == append_unseen(base, url_views(transports@).take(i as int)),
                decreases transports@.len() - i,
            {
                let ghost t = url_views(transports@).take(i + 1);
                proof {
                    assert(t.drop_last() =~= url_views(transports@).take(i as int));
                    assert(t.last() == transports@[i as int]@);
                }
                if !has_url(&out, &transports[i]) {
                    let ghost before = url_views(out@);
                    out.push(transports[i].clone());
                    proof {
                        assert(url_views(out@) =~= before.push(transports@[i as int]@));
                    }
                }
                i = i + 1;
            }
            proof {
                assert(url_views(transports@).take(i as int) =~= url_views(transports@));
            }
            out
        },
    }
}

/// A restricted run reads a transport only toward an allowed target.
pub open spec fn target_allowed(grounding: Option<(Seq<Seq<char>>, crate::source_restriction::RestrictionView)>, transport: Seq<char>, direct: Seq<char>) -> bool {
    match grounding {
        None => true,
        Some((read, restriction)) => !read.contains(transport) || restriction_allows(restriction, direct),
    }
}

/// Put a resolved transport's direct target into the response, refusing a target outside the
/// restriction for a transport the run read.
pub fn apply_resolution(
    run: &mut ParsedRun<ResponseDocument, PendingGrounding>,
    transport: &HttpUrl,
    direct: &HttpUrl,
) -> (r: Result<(), AgyError>)
    ensures
        r is Ok <==> target_allowed(requirement_view(old(run).grounding), transport@, direct@),
        r matches Err(e) ==> e == AgyError::OutputInvalid && final(run).response@ == old(run).response@,
        r is Ok ==> final(run).response@ == swapped_doc(old(run).response@, transport@, direct@),
        requirement_view(final(run).grounding) == requirement_view(old(run).grounding),
{
    let allowed = match &run.grounding {
        GroundingRequirement::NotRequired => true,
        GroundingRequirement::Restricted { transports, restriction } => !has_url(transports, transport)
            || restriction.allows(direct),
    };
    if !allowed {
        return Err(AgyError::OutputInvalid);
    }
    run.response.replace_url(transport, direct);
    Ok(())
}

} // verus!

verus! {

/// After a `HEAD` probe, whether the hop must be probed again with a bounded `GET`: a direct
/// URL whose `HEAD` answer was no success, redirect or informational status.
pub fn needs_bounded_get(head: HttpStatus, url: &HttpUrl) -> (r: bool)
    ensures
        r == (head == HttpStatus::Other && url_kind(url@) == SourceUrlKind::Direct),
{
    match head {
        HttpStatus::Other => match url.source_kind() {
            SourceUrlKind::Direct => true,
            SourceUrlKind::GroundingRedirect => false,
        },
        _ => false,
    }
}

/// A transport being followed: the URL to probe next, every URL probed or to be probed, and
/// the hops taken.
pub struct RedirectWalk {
    current: HttpUrl,
    visited: Vec<HttpUrl>,
    hop: usize,
}

/// The state of a walk as plain values.
pub struct WalkView {
    pub current: Seq<char>,
    pub visited: Seq<Seq<char>>,
    pub hop: nat,
}

impl View for RedirectWalk {
    type V = WalkView;

    closed spec fn view(&self) -> WalkView {
        WalkView { current: self.current@, visited: url_views(self.visited@), hop: self.hop as nat }
    }
}

/// What a walk asks for after a hop.
pub enum WalkAction {
    /// Probe this URL next.
    Probe(HttpUrl),
    /// The transport resolves to this direct URL.
    Resolved(HttpUrl),
    /// The transport cannot be resolved.
    Fail,
}

/// A walk's action as plain values.
pub enum ActionView {
    Probe(Seq<char>),
    Resolved(Seq<char>),
    Fail,
}

pub open spec fn action_view(a: WalkAction) -> ActionView {
    match a {
        WalkAction::Probe(u) => ActionView::Probe(u@),
        WalkAction::Resolved(u) => ActionView::Resolved(u@),
        WalkAction::Fail => ActionView::Fail,
    }
}

/// The action after probing the walk's current URL: it resolves where the hop step resolves;
/// a followed location is probed next where it is an HTTPS URL that the walk has not probed
/// yet; anything else fails.
pub open spec fn walk_action(w: WalkView, response: HopView) -> ActionView {
    match hop_step_spec(w.hop, url_kind(w.current) == SourceUrlKind::Direct, response) {
        None => ActionView::Fail,
        Some(None) => ActionView::Resolved(w.current),
        Some(Some(location)) => match redirect_target(w.current, location) {
            None => ActionView::Fail,
            Some(t) => if http_url_text(t) && !w.visited.contains(t) {
                ActionView::Probe(t)
            } else {
                ActionView::Fail
            },
        },
    }
}

/// The walk after an action: a probe moves it on by one hop and records the URL.
pub open spec fn walk_after(w: WalkView, a: ActionView) -> WalkView {
    match a {
        ActionView::Probe(t) => WalkView { current: t, visited: w.visited.push(t), hop: w.hop + 1 },
        _ => w,
    }
}

/// A walk probes no URL twice, and moves on only while redirects remain: it takes at most
/// `MAX_REDIRECT_HOPS` redirects.
pub proof fn law_walk_is_fresh_and_bounded(w: WalkView, response: HopView)
    ensures
        walk_action(w, response) matches ActionView::Probe(t) ==> {
            &&& !w.visited.contains(t)
            &&& w.hop < MAX_REDIRECT_HOPS
            &&& walk_after(w, walk_action(w, response)).visited.contains(t)
        },
{
    match walk_action(w, response) {
        ActionView::Probe(t) => {
            assert(w.visited.push(t)[w.visited.len() as int] == t);
        },
        _ => {},
    }
}

impl RedirectWalk {
    /// A walk that probes `transport` first.
    pub fn start(transport: &HttpUrl) -> (w: RedirectWalk)
        ensures
            w@ == (WalkView { current: transport@, visited: seq![transport@], hop: 0 }),
    {
        let first = transport.clone();
        let mut visited: Vec<HttpUrl> = Vec::new();
        visited.push(transport.clone());
        proof {
            assert(url_views(visited@) =~= seq![transport@]);
        }
        RedirectWalk { current: first, visited, hop: 0 }
    }

    /// The URL to probe now.
    pub fn current(&self) -> (u: &HttpUrl)
        ensures
            u@ == self@.current,
    {
        &self.current
    }

    /// Take the answer to the probe of the current URL and say what follows.
    pub fn step(&mut self, response: HopResponse) -> (a: WalkAction)
        ensures
            action_view(a) == walk_action(old(self)@, response@),
            final(self)@ == walk_after(old(self)@, action_view(a)),
    {
        let direct = match self.current.source_kind() {
            SourceUrlKind::Direct => true,
            SourceUrlKind::GroundingRedirect => false,
        };
        match hop_step(self.hop, direct, response) {
            HopStep::Resolved => WalkAction::Resolved(self.current.clone()),
            HopStep::Fail => WalkAction::Fail,
            HopStep::Follow(location) => {
                let next = match join_redirect(&self.current, location.as_str()) {
                    Ok(next) => next,
                    Err(_) => return WalkAction::Fail,
                };
                if has_url(&self.visited, &next) {
                    return WalkAction::Fail;
                }
                let ghost before = url_views(self.visited@);
                self.visited.push(next.clone());
                proof {
                    assert(url_views(self.visited@) =~= before.push(next@));
                }
                self.current = next.clone();
                self.hop = self.hop + 1;
                WalkAction::Probe(next)
            },
        }
    }
}

} // verus!
