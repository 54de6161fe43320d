//! Research-tool attempt policy validation.

use vstd::prelude::*;

use super::stream::{
    event_views, init_conversation, init_conversation_exec, tool_step, web_evidence,
    Event, EventView, InfoView, ParamsView, StepState, StepType,
    StepUpdate, StepView, ToolInfo, ToolName, ToolParameters,
};

pub mod scoped_search;

use super::generated_content_policy::{assess_tool_attempts, tool_attempts, ToolAttemptAssessment};
use super::sequence::{completed_research_tools, completed_tools, has_required_evidence, required_evidence};
use super::source_policy::{attempts_allowed, attempts_satisfy_restriction};
use scoped_search::{attempts_are_valid, scoped_attempts_valid};
use crate::research_policy::{policy_maximum, PolicyView, ResearchToolPolicy};
use crate::source_restriction::{RestrictionView, SourceRestriction};
use crate::types::Operation;

verus! {

/// The verdict on a run's evidence.
#[derive(Clone, Copy, Debug, PartialEq, Eq, Structural)]
pub enum EvidencePolicyAssessment {
    Satisfied,
    RecoverableUnlistedTool,
    Rejected,
}

/// The restriction names exact URLs.
pub open spec fn names_exact_urls(r: RestrictionView) -> bool {
    r matches RestrictionView::Allowlist { urls, .. } && urls.len() > 0
}

/// Restricted evidence: what the operation needs, or, for Search and Research over exact URLs,
/// one paired successful direct read.
pub open spec fn restricted_sufficient(operation: Operation, r: RestrictionView, tools: Seq<ToolName>, es: Seq<EventView>) -> bool {
    required_evidence(operation, tools) || ((operation == Operation::Search || operation
        == Operation::Research) && names_exact_urls(r) && paired_direct_read(es))
}

/// The verdict on a run's evidence under a policy: unsafe tool attempts or a broken attempt
/// lifecycle reject it; so does evidence the policy finds insufficient; an unlisted tool makes
/// an otherwise sufficient run recoverable.
pub open spec fn evidence_assessment(operation: Operation, p: PolicyView, es: Seq<EventView>, home: Option<Seq<char>>) -> EvidencePolicyAssessment {
    let tools_verdict = tool_attempts(es, home);
    if tools_verdict == ToolAttemptAssessment::Unsafe {
        EvidencePolicyAssessment::Rejected
    } else {
        match attempt_count(es) {
            None => EvidencePolicyAssessment::Rejected,
            Some(count) => {
                let tools = completed_tools(es);
                let sufficient = match p {
                    PolicyView::Budget(_) => required_evidence(operation, tools) && count <= policy_maximum(p),
                    PolicyView::Restricted { restriction, .. } => restricted_sufficient(operation, restriction, tools, es)
                        && count <= policy_maximum(p) && attempts_allowed(es, restriction),
                    PolicyView::ScopedTemporalSearch(q) => operation == Operation::Search && scoped_attempts_valid(q, es),
                    PolicyView::RestrictedScopedTemporalSearch { required_query, restriction } => operation
                        == Operation::Search && scoped_attempts_valid(required_query, es) && attempts_allowed(es, restriction),
                };
                if !sufficient {
                    EvidencePolicyAssessment::Rejected
                } else if tools_verdict == ToolAttemptAssessment::UnlistedTool {
                    EvidencePolicyAssessment::RecoverableUnlistedTool
                } else {
                    EvidencePolicyAssessment::Satisfied
                }
            },
        }
    }
}

/// Who a research-tool attempt is: its step, its tool and its parameters.
pub struct AttemptView {
    pub step_index: Option<u64>,
    pub tool: ToolName,
    pub parameters: Option<ParamsView>,
}

/// The attempt a tool step describes.
pub open spec fn attempt_of(s: StepView, info: InfoView) -> AttemptView {
    AttemptView { step_index: s.step_index, tool: info.name, parameters: info.parameters }
}

/// The first index of `x` in `s`.
pub open spec fn first_index<A>(s: Seq<A>, x: A) -> int
    decreases s.len(),
{
    if s.len() == 0 || s[0] == x {
        0
    } else {
        1 + first_index(s.drop_first(), x)
    }
}

/// What one event does to the open web attempts and the attempt count; `None` refuses the run.
pub open spec fn count_step(current: Seq<char>, active: Seq<AttemptView>, count: nat, e: EventView) -> Option<(Seq<AttemptView>, nat)> {
    match tool_step(e) {
        None => Some((active, count)),
        Some(s) => match s.tool_info {
            None => None,
            Some(info) => if !web_evidence(info.name) {
                Some((active, count))
            } else if s.conversation_id != Some(current) {
                None
            } else {
                let id = attempt_of(s, info);
                if s.state == Some(StepState::Active) && !info.error {
                    if active.contains(id) {
                        None
                    } else {
                        Some((active.push(id), count + 1))
                    }
                } else if s.state == Some(StepState::Done) && !info.error {
                    if active.contains(id) {
                        Some((active.remove(first_index(active, id)), count))
                    } else {
                        Some((active, count + 1))
                    }
                } else {
                    None
                }
            },
        },
    }
}

/// The open web attempts and the attempt count after the events.
pub open spec fn count_fold(current: Seq<char>, es: Seq<EventView>) -> Option<(Seq<AttemptView>, nat)>
    decreases es.len(),
{
    if es.len() == 0 {
        Some((Seq::empty(), 0))
    } else {
        match count_fold(current, es.drop_last()) {
            None => None,
            Some((active, count)) => count_step(current, active, count, es.last()),
        }
    }
}

/// How many web attempts a run made: each started or completed attempt counts once; every
/// attempt must belong to the run's conversation, succeed, and be closed at the end.
pub open spec fn attempt_count(es: Seq<EventView>) -> Option<nat> {
    match init_conversation(es) {
        None => None,
        Some(current) => match count_fold(current, es) {
            Some((active, count)) => if active.len() == 0 {
                Some(count)
            } else {
                None
            },
            None => None,
        },
    }
}

/// One attempt, as the exec code holds it.
pub struct Attempt<'a> {
    pub step_index: Option<u64>,
    pub tool: ToolName,
    pub parameters: Option<&'a ToolParameters>,
}

impl<'a> View for Attempt<'a> {
    type V = AttemptView;

    open spec fn view(&self) -> AttemptView {
        AttemptView {
            step_index: self.step_index,
            tool: self.tool,
            parameters: match self.parameters {
                Some(p) => Some(p@),
                None => None,
            },
        }
    }
}

/// The views of a sequence of attempts.
pub open spec fn attempt_views<'a>(v: Seq<Attempt<'a>>) -> Seq<AttemptView> {
    Seq::new(v.len(), |i: int| v[i]@)
}

/// The attempt a tool step describes.
pub fn attempt_for<'a>(step: &'a StepUpdate, info: &'a ToolInfo) -> (a: Attempt<'a>)
    ensures
        a@ == attempt_of(step@, info@),
{
    Attempt {
        step_index: step.step_index,
        tool: info.name,
        parameters: match &info.parameters {
            Some(p) => Some(p),
            None => None,
        },
    }
}

/// Whether two attempts are the same.
pub fn same_attempt(a: &Attempt, b: &Attempt) -> (r: bool)
    ensures
        r == (a@ == b@),
{
    if a.step_index != b.step_index || a.tool != b.tool {
        return false;
    }
    match (a.parameters, b.parameters) {
        (Some(x), Some(y)) => x.same_parameters(y),
        (None, None) => true,
        _ => false,
    }
}

/// The first position of an attempt among open attempts.
pub fn attempt_position(active: &Vec<Attempt>, id: &Attempt) -> (r: Option<usize>)
    ensures
        r matches Some(p) ==> attempt_views(active@).contains(id@) && p == first_index(attempt_views(active@), id@)
            && p < active@.len(),
        r is None ==> !attempt_views(active@).contains(id@),
{
    let ghost av = attempt_views(active@);
    let mut i: usize = 0;
    proof {
        lemma_first_index_start(av, id@);
    }
    while i < active.len()
        invariant
            av == attempt_views(active@),
            i <= active@.len(),
            forall|k: int| 0 <= k < i ==> av[k] != id@,
            first_index(av, id@) == i + first_index(av.skip(i as int), id@),
        decreases active@.len() - i,
    {
        proof {
            assert(av.skip(i as int)[0] == av[i as int]);
            assert(av.skip(i as int).drop_first() =~= av.skip(i + 1));
        }
        if same_attempt(&active[i], id) {
            proof {
                assert(av[i as int] == id@);
            }
            return Some(i);
        }
        i = i + 1;
    }
    None
}

proof fn lemma_first_index_start<A>(s: Seq<A>, x: A)
    ensures
        first_index(s, x) == first_index(s.skip(0), x),
{
    assert(s.skip(0) =~= s);
}

/// How many web attempts the run made, when they all belong to it and closed cleanly.
pub fn completed_research_attempt_count(events: &Vec<Event>) -> (r: Option<usize>)
    ensures
        match r {
            Some(n) => attempt_count(event_views(events@)) == Some(n as nat),
            None => attempt_count(event_views(events@)) is None,
        },
{
    let ghost ev = event_views(events@);
    let current = match init_conversation_exec(events) {
        Some(c) => c,
        None => {
            return None;
        },
    };
    let mut active: Vec<Attempt> = Vec::new();
    let mut count: usize = 0;
    let mut i: usize = 0;
    proof {
        assert(ev.take(0) =~= Seq::<EventView>::empty());
        assert(attempt_views(active@) =~= Seq::<AttemptView>::empty());
    }
    while i < events.len()
        invariant
            ev == event_views(events@),
            init_conversation(ev) == Some(current@),
            i <= events@.len(),
            count <= i,
            count_fold(current@, ev.take(i as int)) == Some((attempt_views(active@), count as nat)),
        decreases events@.len() - i,
    {
        proof {
            assert(ev.take(i + 1).drop_last() =~= ev.take(i as int));
            assert(ev.take(i + 1).last() == events@[i as int]@);
        }
        let event = &events[i];
        let step = match &event.step_update {
            Some(s) => s,
            None => {
                i = i + 1;
                continue;
            },
        };
        if step.step_type != StepType::Tool {
            i = i + 1;
            continue;
        }
        let info = match &step.tool_info {
            Some(info) => info,
            None => {
                proof {
                    lemma_count_fold_none(current@, ev, i + 1);
                }
                return None;
            },
        };
        if !info.name.is_web_evidence() {
            i = i + 1;
            continue;
        }
        let same_conversation = match &step.conversation_id {
            Some(c) => c.same_id(current),
            None => false,
        };
        if !same_conversation {
            proof {
                lemma_count_fold_none(current@, ev, i + 1);
            }
            return None;
        }
        let id = attempt_for(step, info);
        if step.state == Some(StepState::Active) && !info.error {
            match attempt_position(&active, &id) {
                Some(_) => {
                    proof {
                        lemma_count_fold_none(current@, ev, i + 1);
                    }
                    return None;
                },
                None => {
                    let ghost before = attempt_views(active@);
                    active.push(id);
                    proof {
                        assert(attempt_views(active@) =~= before.push(id@));
                    }
                    count = count + 1;
                },
            }
        } else if step.state == Some(StepState::Done) && !info.error {
            match attempt_position(&active, &id) {
                Some(p) => {
                    let ghost before = attempt_views(active@);
                    active.remove(p);
                    proof {
                        assert(attempt_views(active@) =~= before.remove(p as int));
                    }
                },
                None => {
                    count = count + 1;
                },
            }
        } else {
            proof {
                lemma_count_fold_none(current@, ev, i + 1);
            }
            return None;
        }
        i = i + 1;
    }
    proof {
        assert(ev.take(i as int) =~= ev);
    }
    if active.len() == 0 {
        Some(count)
    } else {
        None
    }
}

/// Once a prefix of the events refuses the run, all of them do.
proof fn lemma_count_fold_none(current: Seq<char>, es: Seq<EventView>, k: int)
    requires
        0 <= k <= es.len(),
        count_fold(current, es.take(k)) is None,
    ensures
        count_fold(current, es) is None,
    decreases es.len() - k,
{
    if k < es.len() {
        assert(es.take(k + 1).drop_last() =~= es.take(k));
        lemma_count_fold_none(current, es, k + 1);
    } else {
        assert(es.take(k) =~= es);
    }
}

/// Whether restricted evidence suffices.
fn restricted_evidence_is_sufficient(operation: Operation, restriction: &SourceRestriction, tools: &[ToolName], events: &Vec<Event>) -> (r: bool)
    ensures
        r == restricted_sufficient(operation, restriction@, tools@, event_views(events@)),
{
    let direct_read_can_prove = (operation == Operation::Search || operation == Operation::Research)
        && restriction.has_exact_urls();
    has_required_evidence(operation, tools) || (direct_read_can_prove && has_completed_paired_direct_read(events))
}

/// Judge a run's evidence under its policy; `home` is where generated content lives.
pub fn assess_evidence_policy(operation: Operation, policy: &ResearchToolPolicy, events: &Vec<Event>, home: Option<&str>) -> (r: EvidencePolicyAssessment)
    ensures
        r == evidence_assessment(operation, policy@, event_views(events@), match home { Some(h) => Some(h@), None => None }),
{
    let tool_assessment = assess_tool_attempts(events, home);
    if tool_assessment == ToolAttemptAssessment::Unsafe {
        return EvidencePolicyAssessment::Rejected;
    }
    let attempt_count = match completed_research_attempt_count(events) {
        Some(c) => c,
        None => {
            return EvidencePolicyAssessment::Rejected;
        },
    };
    let tools = completed_research_tools(events);
    let evidence_is_sufficient = match policy {
        ResearchToolPolicy::Budget(_) => has_required_evidence(operation, tools.as_slice()) && attempt_count <= policy.maximum(),
        ResearchToolPolicy::Restricted { restriction, .. } => restricted_evidence_is_sufficient(operation, restriction, tools.as_slice(), events)
            && attempt_count <= policy.maximum() && attempts_satisfy_restriction(events, restriction),
        ResearchToolPolicy::ScopedTemporalSearch(required_query) => operation == Operation::Search && attempts_are_valid(events, required_query),
        ResearchToolPolicy::RestrictedScopedTemporalSearch { required_query, restriction } => operation == Operation::Search
            && attempts_are_valid(events, required_query) && attempts_satisfy_restriction(events, restriction),
    };
    if !evidence_is_sufficient {
        EvidencePolicyAssessment::Rejected
    } else if tool_assessment == ToolAttemptAssessment::UnlistedTool {
        EvidencePolicyAssessment::RecoverableUnlistedTool
    } else {
        EvidencePolicyAssessment::Satisfied
    }
}

/// Where a scan for a completed direct read stands.
pub enum ReadScan {
    Open(Seq<AttemptView>),
    Found(bool),
}

/// What one event does to the scan for a completed, paired direct read.
pub open spec fn paired_step(current: Seq<char>, active: Seq<AttemptView>, e: EventView) -> ReadScan {
    match tool_step(e) {
        None => ReadScan::Open(active),
        Some(s) => match s.tool_info {
            None => ReadScan::Found(false),
            Some(info) => if info.name != ToolName::ReadUrlContent {
                ReadScan::Open(active)
            } else if s.conversation_id != Some(current) {
                ReadScan::Found(false)
            } else {
                let id = attempt_of(s, info);
                if s.state == Some(StepState::Active) && !info.error {
                    ReadScan::Open(active.push(id))
                } else if s.state == Some(StepState::Done) && !info.error {
                    ReadScan::Found(active.contains(id))
                } else {
                    ReadScan::Found(false)
                }
            },
        },
    }
}

/// The scan after the events.
pub open spec fn paired_scan(current: Seq<char>, es: Seq<EventView>) -> ReadScan
    decreases es.len(),
{
    if es.len() == 0 {
        ReadScan::Open(Seq::empty())
    } else {
        match paired_scan(current, es.drop_last()) {
            ReadScan::Found(b) => ReadScan::Found(b),
            ReadScan::Open(active) => paired_step(current, active, es.last()),
        }
    }
}

/// The first completed direct read of the run's conversation was started by a matching read.
pub open spec fn paired_direct_read(es: Seq<EventView>) -> bool {
    match init_conversation(es) {
        None => false,
        Some(current) => match paired_scan(current, es) {
            ReadScan::Found(b) => b,
            ReadScan::Open(_) => false,
        },
    }
}

proof fn lemma_paired_scan_found(current: Seq<char>, es: Seq<EventView>, k: int, b: bool)
    requires
        0 <= k <= es.len(),
        paired_scan(current, es.take(k)) == ReadScan::Found(b),
    ensures
        paired_scan(current, es) == ReadScan::Found(b),
    decreases es.len() - k,
{
    if k < es.len() {
        assert(es.take(k + 1).drop_last() =~= es.take(k));
        lemma_paired_scan_found(current, es, k + 1, b);
    } else {
        assert(es.take(k) =~= es);
    }
}

/// Whether the run holds one successful direct read that a matching read started.
pub fn has_completed_paired_direct_read(events: &Vec<Event>) -> (r: bool)
    ensures
        r == paired_direct_read(event_views(events@)),
{
    let ghost ev = event_views(events@);
    let current = match init_conversation_exec(events) {
        Some(c) => c,
        None => {
            return false;
        },
    };
    let mut active: Vec<Attempt> = Vec::new();
    let mut i: usize = 0;
    proof {
        assert(ev.take(0) =~= Seq::<EventView>::empty());
        assert(attempt_views(active@) =~= Seq::<AttemptView>::empty());
    }
    while i < events.len()
        invariant
            ev == event_views(events@),
            init_conversation(ev) == Some(current@),
            i <= events@.len(),
            paired_scan(current@, ev.take(i as int)) == ReadScan::Open(attempt_views(active@)),
        decreases events@.len() - i,
    {
        proof {
            assert(ev.take(i + 1).drop_last() =~= ev.take(i as int));
            assert(ev.take(i + 1).last() == events@[i as int]@);
        }
        let event = &events[i];
        let step = match &event.step_update {
            Some(s) => s,
            None => {
                i = i + 1;
                continue;
            },
        };
        if step.step_type != StepType::Tool {
            i = i + 1;
            continue;
        }
        let info = match &step.tool_info {
            Some(info) => info,
            None => {
                proof {
                    lemma_paired_scan_found(current@, ev, i + 1, false);
                }
                return false;
            },
        };
        if info.name != ToolName::ReadUrlContent {
            i = i + 1;
            continue;
        }
        let same_conversation = match &step.conversation_id {
            Some(c) => c.same_id(current),
            None => false,
        };
        if !same_conversation {
            proof {
                lemma_paired_scan_found(current@, ev, i + 1, false);
            }
            return false;
        }
        let id = attempt_for(step, info);
        if step.state == Some(StepState::Active) && !info.error {
            let ghost before = attempt_views(active@);
            active.push(id);
            proof {
                assert(attempt_views(active@) =~= before.push(id@));
            }
        } else if step.state == Some(StepState::Done) && !info.error {
            let found = attempt_position(&active, &id).is_some();
            proof {
                lemma_paired_scan_found(current@, ev, i + 1, found);
            }
            return found;
        } else {
            proof {
                lemma_paired_scan_found(current@, ev, i + 1, false);
            }
            return false;
        }
        i = i + 1;
    }
    proof {
        assert(ev.take(i as int) =~= ev);
    }
    false
}

} // verus!
