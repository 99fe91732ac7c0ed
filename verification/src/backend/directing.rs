//! The sequence in which the whole desktop is acted on: only what was observed, and only while
//! it holds, is acted on, and only once.
use vstd::prelude::*;

use crate::backend::desktop::{check_compositor, relaid, Desktop, Geometry};
use crate::backend::sending::fault_of;
use crate::model::{fault, Action, ErrorCode, Fault, FaultView, Target};

verus! {

/// What has been done last.
#[derive(Debug, Clone, Copy, PartialEq, Eq, Structural)]
pub enum DirectPhase {
    Starting,
    /// The cancellation is looked at.
    Checking,
    /// The compositor is looked for.
    Asking,
    /// The displays are brought up to date.
    Refreshing,
    /// The layout is looked at.
    Looking,
    /// The windows are listed again.
    Listing,
    /// The cancellation is looked at once more.
    Confirming,
    /// A window is given the focus.
    Focusing,
    /// Input is sent.
    Sending,
    Done,
}

/// How far an action on the desktop has come, and the window that it is about.
#[derive(Debug, Clone, Copy, PartialEq, Eq, Structural)]
pub struct Directing {
    pub phase: DirectPhase,
    pub window: u64,
}

/// What is to be done next.
#[derive(Debug)]
pub enum DirectStep {
    /// Fail if the action was cancelled.
    Check,
    /// Look whether the compositor is there.
    Ask,
    /// Bring the displays up to date.
    Refresh,
    /// Look at the layout.
    Look,
    /// List the windows again.
    List,
    /// Give a window the focus.
    Focus(u64),
    /// Send input to the display of this name.
    Send(String),
    /// Nothing; this is what came of it.
    Finished(Result<(), Fault>),
}

/// What came of what was done last.
pub struct DirectEvent {
    pub outcome: Result<(), Fault>,
    /// Whether the compositor is there.
    pub alive: bool,
    /// The layout, after it was looked at.
    pub geometry: Option<Geometry>,
    /// Revision of the displays now.
    pub revision: u64,
}

/// Whether a reference stands for some display.
pub open spec fn referred(d: Desktop, target: Seq<char>) -> bool {
    exists|k: Seq<char>|
        d.output_ids@.dom().contains(k) && (#[trigger] d.output_ids@[k])@ == target
}

/// Whether the layout is as it was observed.
pub open spec fn as_observed(d: Desktop, e: DirectEvent) -> bool {
    e.geometry is Some && d.current(e.geometry->0@, e.revision)
}

/// Why an action ends with a fault after what was done last, if it does.
pub open spec fn direct_refusal(
    d: Desktop,
    target: Target,
    action: Action,
    was: Directing,
    e: DirectEvent,
) -> Option<FaultView> {
    match was.phase {
        DirectPhase::Starting => None,
        DirectPhase::Asking => if e.alive {
            None
        } else {
            Some(fault(ErrorCode::StaleTarget, "niri 会话已经退出"@))
        },
        DirectPhase::Looking => if e.outcome is Err {
            fault_of(e.outcome)
        } else if !as_observed(d, e) {
            Some(relaid())
        } else {
            match action {
                Action::FocusWindow { window } => if d.windows@.dom().contains(window@) {
                    None
                } else {
                    Some(fault(ErrorCode::StaleTarget, "窗口引用已失效"@))
                },
                _ => if referred(d, target.id@) {
                    None
                } else {
                    Some(fault(ErrorCode::StaleTarget, "显示器引用失效"@))
                },
            }
        },
        DirectPhase::Listing => if e.outcome is Err {
            fault_of(e.outcome)
        } else {
            match action {
                Action::FocusWindow { window } => if d.windows@.dom().contains(window@)
                    && d.windows@[window@] == was.window {
                    None
                } else {
                    Some(fault(ErrorCode::StaleTarget, "窗口已经退出"@))
                },
                _ => None,
            }
        },
        DirectPhase::Done => Some(relaid()),
        _ => fault_of(e.outcome),
    }
}

/// How far an action has come after what was done last.
pub open spec fn directed(
    d: Desktop,
    target: Target,
    action: Action,
    was: Directing,
    e: DirectEvent,
) -> Directing {
    if direct_refusal(d, target, action, was, e) is Some {
        Directing { phase: DirectPhase::Done, ..was }
    } else {
        match was.phase {
            DirectPhase::Starting => Directing { phase: DirectPhase::Checking, ..was },
            DirectPhase::Checking => Directing { phase: DirectPhase::Asking, ..was },
            DirectPhase::Asking => Directing { phase: DirectPhase::Refreshing, ..was },
            DirectPhase::Refreshing => Directing { phase: DirectPhase::Looking, ..was },
            DirectPhase::Looking => match action {
                Action::FocusWindow { window } => Directing {
                    phase: DirectPhase::Listing,
                    window: d.windows@[window@],
                },
                _ => Directing { phase: DirectPhase::Sending, ..was },
            },
            DirectPhase::Listing => Directing { phase: DirectPhase::Confirming, ..was },
            DirectPhase::Confirming => Directing { phase: DirectPhase::Focusing, ..was },
            _ => Directing { phase: DirectPhase::Done, ..was },
        }
    }
}

/// Whether a step is the one that brings an action where it has come to.
pub open spec fn direct_fits(
    d: Desktop,
    target: Target,
    now: Directing,
    refusal: Option<FaultView>,
    step: DirectStep,
) -> bool {
    match now.phase {
        DirectPhase::Starting => false,
        DirectPhase::Checking | DirectPhase::Confirming => step is Check,
        DirectPhase::Asking => step is Ask,
        DirectPhase::Refreshing => step is Refresh,
        DirectPhase::Looking => step is Look,
        DirectPhase::Listing => step is List,
        DirectPhase::Focusing => step == DirectStep::Focus(now.window),
        DirectPhase::Sending => step matches DirectStep::Send(name) && d.output_ids@.dom().contains(
            name@,
        ) && d.output_ids@[name@]@ == target.id@,
        DirectPhase::Done => step matches DirectStep::Finished(r) && fault_of(r) == refusal,
    }
}

/// The desktop's state after what was done last: an action that was carried out uses up what it
/// was based on.
pub open spec fn direct_effect(d: Desktop, phase: DirectPhase, e: DirectEvent) -> Desktop {
    if (phase == DirectPhase::Sending || phase == DirectPhase::Focusing) && e.outcome is Ok {
        Desktop { geometry: None, ..d }
    } else {
        d
    }
}

fn forward(
    was: Directing,
    outcome: Result<(), Fault>,
    phase: DirectPhase,
    step: DirectStep,
) -> (r: (Directing, DirectStep))
    ensures
        match outcome {
            Ok(_) => r == (Directing { phase, ..was }, step),
            Err(e) => r.0 == (Directing { phase: DirectPhase::Done, ..was }) && r.1
                == DirectStep::Finished(outcome),
        },
{
    match outcome {
        Ok(()) => (Directing { phase, window: was.window }, step),
        Err(e) => (
            Directing { phase: DirectPhase::Done, window: was.window },
            DirectStep::Finished(Err(e)),
        ),
    }
}

impl Directing {
    /// Begins an action on the desktop.
    pub fn new() -> (r: Self)
        ensures
            r == (Directing { phase: DirectPhase::Starting, window: 0 }),
    {
        Directing { phase: DirectPhase::Starting, window: 0 }
    }

    fn looked(self, desktop: &Desktop, target: &Target, action: &Action, event: DirectEvent) -> (r: (
        Directing,
        DirectStep,
    ))
        requires
            self.phase == DirectPhase::Looking,
            desktop.wf(),
        ensures
            r.0 == directed(*desktop, *target, *action, self, event),
            direct_fits(
                *desktop,
                *target,
                r.0,
                direct_refusal(*desktop, *target, *action, self, event),
                r.1,
            ),
    {
        let fine = match event.outcome {
            Err(e) => Err(e),
            Ok(()) => match &event.geometry {
                Some(now) => desktop.check_layout(now, event.revision),
                None => Err(Fault::stale("显示器布局变化，请重新观察")),
            },
        };
        match fine {
            Err(e) => forward(self, Err(e), DirectPhase::Done, DirectStep::Look),
            Ok(()) => match action {
                Action::FocusWindow { window } => match desktop.window(window.as_str()) {
                    Err(e) => forward(self, Err(e), DirectPhase::Done, DirectStep::Look),
                    Ok(id) => (
                        Directing { phase: DirectPhase::Listing, window: id },
                        DirectStep::List,
                    ),
                },
                _ => match desktop.find_output(target.id.as_str()) {
                    Err(e) => forward(self, Err(e), DirectPhase::Done, DirectStep::Look),
                    Ok(name) => {
                        assert(desktop.output_ids@[name@]@ == target.id@);
                        forward(self, Ok(()), DirectPhase::Sending, DirectStep::Send(name))
                    },
                },
            },
        }
    }
}

impl Desktop {
    /// What is to be done to act on the desktop, by what came of what was done last.
    pub fn act(
        &mut self,
        was: Directing,
        target: &Target,
        action: &Action,
        event: DirectEvent,
    ) -> (r: (Directing, DirectStep))
        requires
            old(self).wf(),
        ensures
            final(self).wf(),
            *final(self) == direct_effect(*old(self), was.phase, event),
            r.0 == directed(*old(self), *target, *action, was, event),
            direct_fits(
                *old(self),
                *target,
                r.0,
                direct_refusal(*old(self), *target, *action, was, event),
                r.1,
            ),
    {
        match was.phase {
            DirectPhase::Starting => forward(
                was,
                Ok(()),
                DirectPhase::Checking,
                DirectStep::Check,
            ),
            DirectPhase::Checking => forward(
                was,
                event.outcome,
                DirectPhase::Asking,
                DirectStep::Ask,
            ),
            DirectPhase::Asking => forward(
                was,
                check_compositor(event.alive),
                DirectPhase::Refreshing,
                DirectStep::Refresh,
            ),
            DirectPhase::Refreshing => forward(
                was,
                event.outcome,
                DirectPhase::Looking,
                DirectStep::Look,
            ),
            DirectPhase::Looking => was.looked(self, target, action, event),
            DirectPhase::Listing => {
                let fine = match event.outcome {
                    Err(e) => Err(e),
                    Ok(()) => match action {
                        Action::FocusWindow { window } => self.still_there(
                            window.as_str(),
                            was.window,
                        ),
                        _ => Ok(()),
                    },
                };
                forward(was, fine, DirectPhase::Confirming, DirectStep::Check)
            },
            DirectPhase::Confirming => forward(
                was,
                event.outcome,
                DirectPhase::Focusing,
                DirectStep::Focus(was.window),
            ),
            DirectPhase::Focusing | DirectPhase::Sending => {
                if event.outcome.is_ok() {
                    self.acted();
                }
                (
                    Directing { phase: DirectPhase::Done, window: was.window },
                    DirectStep::Finished(event.outcome),
                )
            },
            DirectPhase::Done => forward(
                was,
                Err(Fault::stale("显示器布局变化，请重新观察")),
                DirectPhase::Done,
                DirectStep::Look,
            ),
        }
    }
}

/// How far an action has come after some events, each with the desktop's state at that time.
pub open spec fn direct_run(
    target: Target,
    action: Action,
    seen: Seq<(Desktop, DirectEvent)>,
) -> Directing
    decreases seen.len(),
{
    if seen.len() == 0 {
        Directing { phase: DirectPhase::Starting, window: 0 }
    } else {
        directed(
            seen.last().0,
            target,
            action,
            direct_run(target, action, seen.drop_last()),
            seen.last().1,
        )
    }
}

/// Whether an action has not yet begun to change anything.
pub open spec fn harmless(phase: DirectPhase) -> bool {
    phase != DirectPhase::Listing && phase != DirectPhase::Confirming && phase
        != DirectPhase::Focusing && phase != DirectPhase::Sending
}

/// The desktop is acted on only if its layout and displays were found to be as they were when
/// they were last observed. Where that was never so, nothing is sent and no window gets the
/// focus.
pub proof fn unobserved_desktops_are_left_alone(
    target: Target,
    action: Action,
    seen: Seq<(Desktop, DirectEvent)>,
)
    requires
        forall|k: int| 0 <= k < seen.len() ==> !as_observed((#[trigger] seen[k]).0, seen[k].1),
    ensures
        harmless(direct_run(target, action, seen).phase),
    decreases seen.len(),
{
    if seen.len() > 0 {
        let less = seen.drop_last();
        assert forall|k: int| 0 <= k < less.len() implies !as_observed(
            (#[trigger] less[k]).0,
            less[k].1,
        ) by {
            assert(less[k] == seen[k]);
        }
        unobserved_desktops_are_left_alone(target, action, less);
        assert(seen.last() == seen[seen.len() - 1]);
    }
}

/// One observation serves one action on the desktop: an action that was carried out leaves
/// nothing that another could be based on, whatever the layout is.
pub proof fn one_look_one_action(d: Desktop, phase: DirectPhase, sent: DirectEvent, e: DirectEvent)
    requires
        phase == DirectPhase::Sending || phase == DirectPhase::Focusing,
        sent.outcome is Ok,
    ensures
        !as_observed(direct_effect(d, phase, sent), e),
{
}

} // verus!
