//! Fail-closed validation for Antigravity-generated web-content artifacts.

use vstd::prelude::*;

pub mod attempt_state;
pub mod provenance;

use attempt_state::{track_inspection_spec, track_read_spec, AttemptState, InspectionContext, StateView};
use provenance::{root_from_home, GeneratedContentRoot};
use super::stream::{
    event_views, init_conversation, init_conversation_exec, path_safe_id, tool_step, Event, EventView,
    StepType, ToolName,
};

verus! {

/// How the tool attempts of a run look.
#[derive(Clone, Copy, Debug, PartialEq, Eq, Structural)]
pub enum ToolAttemptAssessment {
    Safe,
    UnlistedTool,
    Unsafe,
}

/// Where an assessment stands: still running with its lifecycles and whether an unlisted tool
/// ran, or stopped as unsafe.
pub enum AssessView {
    Running(StateView, bool),
    Stopped,
}

/// One event's part in the assessment. Every tool step must say which tool it ran, and agree
/// with the tool name it repeats; reads are tracked; views and greps need a path-safe current
/// conversation, a generated-content root and a clean inspection lifecycle.
pub open spec fn assess_step(current: Option<Seq<char>>, root: Option<Seq<Seq<char>>>, st: StateView, unlisted: bool, e: EventView) -> AssessView {
    match tool_step(e) {
        None => AssessView::Running(st, unlisted),
        Some(s) => match s.tool_info {
            None => AssessView::Stopped,
            Some(info) => if s.tool_name is Some && s.tool_name != Some(info.name) {
                AssessView::Stopped
            } else {
                match info.name {
                    ToolName::SearchWeb => AssessView::Running(st, unlisted),
                    ToolName::ReadUrlContent => AssessView::Running(track_read_spec(st, s, info), unlisted),
                    ToolName::ViewFile | ToolName::GrepSearch => match (current, root) {
                        (Some(c), Some(r)) => if !path_safe_id(c) {
                            AssessView::Stopped
                        } else {
                            let (ok, next) = track_inspection_spec(st, s, info, c, r);
                            if ok {
                                AssessView::Running(next, unlisted)
                            } else {
                                AssessView::Stopped
                            }
                        },
                        _ => AssessView::Stopped,
                    },
                    ToolName::Other => AssessView::Running(st, true),
                }
            },
        },
    }
}

/// The empty lifecycle state.
pub open spec fn start_state() -> StateView {
    StateView { reads: Seq::empty(), completed: Seq::empty(), inspections: Seq::empty() }
}

/// The assessment after the events.
pub open spec fn assess_fold(current: Option<Seq<char>>, root: Option<Seq<Seq<char>>>, es: Seq<EventView>) -> AssessView
    decreases es.len(),
{
    if es.len() == 0 {
        AssessView::Running(start_state(), false)
    } else {
        match assess_fold(current, root, es.drop_last()) {
            AssessView::Stopped => AssessView::Stopped,
            AssessView::Running(st, unlisted) => assess_step(current, root, st, unlisted, es.last()),
        }
    }
}

/// The verdict on a run's tool attempts, with generated content rooted under `home`:
/// unsafe when a step broke the rules or a read or inspection stayed open, else whether an
/// unlisted tool ran.
pub open spec fn tool_attempts(es: Seq<EventView>, home: Option<Seq<char>>) -> ToolAttemptAssessment {
    let root = match home {
        Some(h) => root_from_home(h),
        None => None,
    };
    match assess_fold(init_conversation(es), root, es) {
        AssessView::Stopped => ToolAttemptAssessment::Unsafe,
        AssessView::Running(st, unlisted) => if st.reads.len() > 0 || st.inspections.len() > 0 {
            ToolAttemptAssessment::Unsafe
        } else if unlisted {
            ToolAttemptAssessment::UnlistedTool
        } else {
            ToolAttemptAssessment::Safe
        },
    }
}

proof fn lemma_assess_stopped(current: Option<Seq<char>>, root: Option<Seq<Seq<char>>>, es: Seq<EventView>, k: int)
    requires
        0 <= k <= es.len(),
        assess_fold(current, root, es.take(k)) is Stopped,
    ensures
        assess_fold(current, root, es) is Stopped,
    decreases es.len() - k,
{
    if k < es.len() {
        assert(es.take(k + 1).drop_last() =~= es.take(k));
        lemma_assess_stopped(current, root, es, k + 1);
    } else {
        assert(es.take(k) =~= es);
    }
}

/// Judge a run's tool attempts; `home` is the home directory generated content lives under.
pub fn assess_tool_attempts(events: &Vec<Event>, home: Option<&str>) -> (r: ToolAttemptAssessment)
    ensures
        r == tool_attempts(event_views(events@), match home { Some(h) => Some(h@), None => None }),
{
    let ghost ev = event_views(events@);
    let ghost home_view = match home { Some(h) => Some(h@), None => None::<Seq<char>> };
    let current = init_conversation_exec(events);
    let root = match home {
        Some(h) => GeneratedContentRoot::from_home(h),
        None => None,
    };
    let ghost root_view = match &root { Some(r) => Some(r@), None => None::<Seq<Seq<char>>> };
    let ghost current_view = match current { Some(c) => Some(c@), None => None::<Seq<char>> };
    proof {
        assert(root_view == match home_view { Some(h) => root_from_home(h), None => None::<Seq<Seq<char>>> });
    }
    let mut attempts = AttemptState::new();
    let mut unlisted = false;
    let mut i: usize = 0;
    proof {
        assert(ev.take(0) =~= Seq::<EventView>::empty());
    }
    while i < events.len()
        invariant
            ev == event_views(events@),
            current_view == init_conversation(ev),
            current_view == match current { Some(c) => Some(c@), None => None::<Seq<char>> },
            root_view == match &root { Some(r) => Some(r@), None => None::<Seq<Seq<char>>> },
            home_view == match home { Some(h) => Some(h@), None => None::<Seq<char>> },
            root_view == match home_view { Some(h) => root_from_home(h), None => None::<Seq<Seq<char>>> },
            i <= events@.len(),
            assess_fold(current_view, root_view, ev.take(i as int)) == AssessView::Running(attempts@, unlisted),
        decreases events@.len() - i,
    {
        proof {
            assert(ev.take(i + 1).drop_last() =~= ev.take(i as int));
            assert(ev.take(i + 1).last() == events@[i as int]@);
        }
        let event = &events[i];
        let step = match &event.step_update {
            Some(s) => s,
            None => {
                i = i + 1;
                continue;
            },
        };
        if step.step_type != StepType::Tool {
            i = i + 1;
            continue;
        }
        let info = match &step.tool_info {
            Some(info) => info,
            None => {
                proof {
                    lemma_assess_stopped(current_view, root_view, ev, i + 1);
                }
                return ToolAttemptAssessment::Unsafe;
            },
        };
        let agrees = match step.tool_name {
            Some(name) => name == info.name,
            None => true,
        };
        if !agrees {
            proof {
                lemma_assess_stopped(current_view, root_view, ev, i + 1);
            }
            return ToolAttemptAssessment::Unsafe;
        }
        match info.name {
            ToolName::SearchWeb => {},
            ToolName::ReadUrlContent => attempts.track_read(step, info),
            ToolName::ViewFile | ToolName::GrepSearch => {
                let c = match current {
                    Some(c) => c,
                    None => {
                        proof {
                            lemma_assess_stopped(current_view, root_view, ev, i + 1);
                        }
                        return ToolAttemptAssessment::Unsafe;
                    },
                };
                if !c.is_path_safe() {
                    proof {
                        lemma_assess_stopped(current_view, root_view, ev, i + 1);
                    }
                    return ToolAttemptAssessment::Unsafe;
                }
                let r = match &root {
                    Some(r) => r,
                    None => {
                        proof {
                            lemma_assess_stopped(current_view, root_view, ev, i + 1);
                        }
                        return ToolAttemptAssessment::Unsafe;
                    },
                };
                let context = InspectionContext::new(c, r);
                if !attempts.track_inspection(step, info, &context) {
                    proof {
                        lemma_assess_stopped(current_view, root_view, ev, i + 1);
                    }
                    return ToolAttemptAssessment::Unsafe;
                }
            },
            ToolName::Other => {
                unlisted = true;
            },
        }
        i = i + 1;
    }
    proof {
        assert(ev.take(i as int) =~= ev);
    }
    if !attempts.has_balanced_attempts() {
        ToolAttemptAssessment::Unsafe
    } else if unlisted {
        ToolAttemptAssessment::UnlistedTool
    } else {
        ToolAttemptAssessment::Safe
    }
}

} // verus!
