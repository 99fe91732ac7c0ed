//! The sequence in which an isolated application is acted on: only what was observed, and only
//! while it holds, is acted on, and only once.
use vstd::prelude::*;

use crate::backend::sending::fault_of;
use crate::backend::sway::{Isolated, Layout, Screen};
use crate::model::{fault, ErrorCode, Fault, FaultView, Target};

verus! {

/// What has been done last.
#[derive(Debug, Clone, Copy, PartialEq, Eq, Structural)]
pub enum ActPhase {
    Starting,
    /// The cancellation is looked at.
    Checking,
    /// The displays are brought up to date.
    Refreshing,
    /// The windows are looked at.
    Looking,
    /// The displays are brought up to date once more.
    RefreshingAgain,
    /// The output is looked at.
    Measuring,
    /// The action is sent.
    Sending,
    Done,
}

/// What is to be done next.
#[derive(Debug)]
pub enum ActStep {
    /// Fail if the action was cancelled.
    Check,
    /// Bring the displays up to date.
    Refresh,
    /// Look at the windows.
    Look,
    /// Look at the output.
    Measure,
    /// Send the action.
    Send,
    /// Nothing; this is what came of it.
    Finished(Result<(), Fault>),
}

/// What is to be done next, by its values.
pub enum ActView {
    Check,
    Refresh,
    Look,
    Measure,
    Send,
    Finished(Option<FaultView>),
}

impl View for ActStep {
    type V = ActView;

    open spec fn view(&self) -> ActView {
        match *self {
            ActStep::Check => ActView::Check,
            ActStep::Refresh => ActView::Refresh,
            ActStep::Look => ActView::Look,
            ActStep::Measure => ActView::Measure,
            ActStep::Send => ActView::Send,
            ActStep::Finished(r) => ActView::Finished(fault_of(r)),
        }
    }
}

/// What came of what was done last. The layout matters after the windows were looked at, the
/// screen after the output was.
pub struct ActEvent {
    pub outcome: Result<(), Fault>,
    pub layout: Option<Layout>,
    /// Revision of the displays now.
    pub revision: u64,
    pub screen: Option<Screen>,
}

/// The fault of an action on what was not observed, or is no longer as observed.
pub open spec fn moved() -> FaultView {
    fault(ErrorCode::StaleTarget, "窗口身份或布局变化，请重新观察"@)
}

/// Why the windows do not permit an action, if they do not.
pub open spec fn look_refusal(i: Isolated, target: Target, e: ActEvent) -> Option<FaultView> {
    if target.id@ != i.target_id@ {
        Some(moved())
    } else if e.outcome is Err {
        fault_of(e.outcome)
    } else if e.layout is Some && i.current(target.id@, e.layout->0@, e.revision) {
        None
    } else {
        Some(moved())
    }
}

/// Why the output does not permit an action, if it does not.
pub open spec fn screen_refusal(target: Target, e: ActEvent) -> Option<FaultView> {
    match e.screen {
        None => Some(fault(ErrorCode::StaleTarget, "虚拟显示器消失"@)),
        Some(s) => if s.width != target.width || s.height != target.height {
            Some(fault(ErrorCode::StaleTarget, "虚拟显示器尺寸变化"@))
        } else {
            match s.scale {
                Err(f) => Some(f@),
                Ok(scale) => if scale.number() && target.scale.number() && scale.value()
                    == target.scale.value() {
                    None
                } else {
                    Some(fault(ErrorCode::StaleTarget, "虚拟显示器缩放变化"@))
                },
            }
        },
    }
}

/// Done, or on to a phase.
pub open spec fn onward(refusal: Option<FaultView>, phase: ActPhase, next: ActView) -> (
    ActPhase,
    ActView,
) {
    match refusal {
        Some(f) => (ActPhase::Done, ActView::Finished(Some(f))),
        None => (phase, next),
    }
}

/// What follows what was done last.
pub open spec fn act_stepped(i: Isolated, target: Target, phase: ActPhase, e: ActEvent) -> (
    ActPhase,
    ActView,
) {
    match phase {
        ActPhase::Starting => (ActPhase::Checking, ActView::Check),
        ActPhase::Checking => onward(
            fault_of(e.outcome),
            ActPhase::Refreshing,
            ActView::Refresh,
        ),
        ActPhase::Refreshing => onward(fault_of(e.outcome), ActPhase::Looking, ActView::Look),
        ActPhase::Looking => onward(
            look_refusal(i, target, e),
            ActPhase::RefreshingAgain,
            ActView::Refresh,
        ),
        ActPhase::RefreshingAgain => onward(
            fault_of(e.outcome),
            ActPhase::Measuring,
            ActView::Measure,
        ),
        ActPhase::Measuring => onward(screen_refusal(target, e), ActPhase::Sending, ActView::Send),
        ActPhase::Sending => (ActPhase::Done, ActView::Finished(fault_of(e.outcome))),
        ActPhase::Done => (ActPhase::Done, ActView::Finished(Some(moved()))),
    }
}

/// The application's state after what was done last: an action that was sent uses up what it was
/// based on.
pub open spec fn act_effect(i: Isolated, phase: ActPhase, e: ActEvent) -> Isolated {
    if phase == ActPhase::Sending && e.outcome is Ok {
        Isolated { geometry: None, ..i }
    } else {
        i
    }
}

fn proceed(
    result: Result<(), Fault>,
    phase: ActPhase,
    next: ActStep,
) -> (r: (ActPhase, ActStep))
    ensures
        (r.0, r.1@) == onward(fault_of(result), phase, next@),
{
    match result {
        Err(e) => (ActPhase::Done, ActStep::Finished(Err(e))),
        Ok(()) => (phase, next),
    }
}

impl Isolated {
    /// What is to be done to act on an application, by what came of what was done last.
    pub fn act(&mut self, target: &Target, phase: ActPhase, event: ActEvent) -> (r: (
        ActPhase,
        ActStep,
    ))
        ensures
            (r.0, r.1@) == act_stepped(*old(self), *target, phase, event),
            *final(self) == act_effect(*old(self), phase, event),
    {
        match phase {
            ActPhase::Starting => (ActPhase::Checking, ActStep::Check),
            ActPhase::Checking => proceed(event.outcome, ActPhase::Refreshing, ActStep::Refresh),
            ActPhase::Refreshing => proceed(event.outcome, ActPhase::Looking, ActStep::Look),
            ActPhase::Looking => {
                let layout = match event.outcome {
                    Err(e) => Err(e),
                    Ok(()) => match event.layout {
                        Some(l) => Ok(l),
                        None => Err(Fault::stale("窗口身份或布局变化，请重新观察")),
                    },
                };
                let checked = self.check_action(target.id.as_str(), layout, event.revision);
                proceed(checked, ActPhase::RefreshingAgain, ActStep::Refresh)
            },
            ActPhase::RefreshingAgain => proceed(
                event.outcome,
                ActPhase::Measuring,
                ActStep::Measure,
            ),
            ActPhase::Measuring => {
                let checked = self.check_screen(target, event.screen);
                proceed(checked, ActPhase::Sending, ActStep::Send)
            },
            ActPhase::Sending => {
                if event.outcome.is_ok() {
                    self.acted();
                }
                (ActPhase::Done, ActStep::Finished(event.outcome))
            },
            ActPhase::Done => (
                ActPhase::Done,
                ActStep::Finished(Err(Fault::stale("窗口身份或布局变化，请重新观察"))),
            ),
        }
    }
}

/// Where an action stands after some events, and the application's state.
pub open spec fn act_run(i: Isolated, target: Target, events: Seq<ActEvent>) -> (ActPhase, Isolated)
    decreases events.len(),
{
    if events.len() == 0 {
        (ActPhase::Starting, i)
    } else {
        let (phase, now) = act_run(i, target, events.drop_last());
        (
            act_stepped(now, target, phase, events.last()).0,
            act_effect(now, phase, events.last()),
        )
    }
}

/// Whether an event never shows an output other than as it was observed.
pub open spec fn stays(target: Target, e: ActEvent) -> bool {
    screen_refusal(target, e) is None
}

/// An action reaches the application only if the windows, the outputs and the target were found
/// to be as they were when they were last observed. Where that was never so, whatever is seen,
/// nothing is sent, and nothing is used up.
pub proof fn stale_actions_send_nothing(i: Isolated, target: Target, events: Seq<ActEvent>)
    requires
        forall|k: int|
            0 <= k < events.len() ==> {
                let e = #[trigger] events[k];
                e.layout is None || !i.current(target.id@, e.layout->0@, e.revision)
            },
    ensures
        act_run(i, target, events).0 != ActPhase::Sending,
        act_run(i, target, events).0 != ActPhase::RefreshingAgain,
        act_run(i, target, events).0 != ActPhase::Measuring,
        act_run(i, target, events).1 == i,
    decreases events.len(),
{
    if events.len() > 0 {
        let less = events.drop_last();
        assert forall|k: int| 0 <= k < less.len() implies {
            let e = #[trigger] less[k];
            e.layout is None || !i.current(target.id@, e.layout->0@, e.revision)
        } by {
            assert(less[k] == events[k]);
        }
        stale_actions_send_nothing(i, target, less);
        assert(events.last() == events[events.len() - 1]);
    }
}

/// Nothing is sent to an output that is gone, or of another size or scale than observed.
pub proof fn changed_outputs_get_nothing(i: Isolated, target: Target, events: Seq<ActEvent>)
    requires
        forall|k: int| 0 <= k < events.len() ==> !stays(target, #[trigger] events[k]),
    ensures
        act_run(i, target, events).0 != ActPhase::Sending,
        act_run(i, target, events).1 == i,
    decreases events.len(),
{
    if events.len() > 0 {
        let less = events.drop_last();
        assert forall|k: int| 0 <= k < less.len() implies !stays(target, #[trigger] less[k]) by {
            assert(less[k] == events[k]);
        }
        changed_outputs_get_nothing(i, target, less);
        assert(events.last() == events[events.len() - 1]);
        assert(!stays(target, events.last()));
    }
}

/// One observation serves one action: after an action was sent, no further one reaches the
/// application until something is observed again, whatever the windows are. Where looking at
/// them succeeds, it is refused as stale.
pub proof fn one_observation_one_action(
    i: Isolated,
    target: Target,
    sent: ActEvent,
    events: Seq<ActEvent>,
)
    requires
        sent.outcome is Ok,
    ensures
        ({
            let used = act_effect(i, ActPhase::Sending, sent);
            &&& act_run(used, target, events).0 != ActPhase::Sending
            &&& forall|e: ActEvent|
                #![trigger act_stepped(used, target, ActPhase::Looking, e)]
                e.outcome is Ok ==> act_stepped(used, target, ActPhase::Looking, e) == (
                    ActPhase::Done,
                    ActView::Finished(Some(moved())),
                )
        }),
{
    let used = act_effect(i, ActPhase::Sending, sent);
    assert(used.geometry is None);
    stale_actions_send_nothing(used, target, events);
}

} // verus!
