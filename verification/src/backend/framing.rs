//! The sequence in which a live frame of an isolated application is taken: a frame is shown only
//! at the scale that the outputs had while it was taken.
use vstd::prelude::*;

use crate::backend::sway::{read_answer, scale_of, Application, IsolatedPreview};
use crate::json::json_of;
use crate::model::{fault, ErrorCode, Fault, FaultView, Target, TargetView};

verus! {

/// How far a frame has come.
#[derive(Debug, Clone, Copy, PartialEq, Eq, Structural)]
pub enum Framing {
    Starting,
    /// The processes are looked for.
    Asking,
    /// The displays are brought up to date.
    Refreshing,
    /// The outputs are asked for.
    Scaling,
    /// The frame is taken.
    Capturing,
    /// The cancellation is looked at; with the size of the frame.
    Confirming(u32, u32),
    Done,
}

/// What is to be done next.
#[derive(Debug)]
pub enum FramingStep {
    /// Look whether the compositor and the application are there.
    Ask,
    /// Bring the displays up to date.
    Refresh,
    /// Ask for the outputs.
    Outputs,
    /// Take the frame.
    Capture,
    /// Fail if the capture was cancelled.
    Check,
    /// Nothing; this is what the frame shows, or why there is none.
    Finished(Result<Target, Fault>),
}

/// What came of what was done last.
pub enum FramingEvent {
    Began,
    Alive(bool),
    Refreshed(Result<(), Fault>),
    Outputs(Result<Vec<u8>, Fault>),
    Captured(Result<(u32, u32), Fault>),
    Checked(Result<(), Fault>),
}

/// Whether a frame ended with a fault.
pub open spec fn frame_ended(now: Framing, step: FramingStep, f: FaultView) -> bool {
    &&& now is Done
    &&& step matches FramingStep::Finished(Err(e))
    &&& e@ == f
}

/// The fault of a frame whose outputs changed.
pub open spec fn outdated() -> FaultView {
    fault(ErrorCode::Busy, "输出尺寸变化，等待下一帧"@)
}

/// Whether a step is the one that follows what was done last, at a revision of the outputs.
pub open spec fn framed(
    p: IsolatedPreview,
    application: Application,
    was: Framing,
    revision: u64,
    event: FramingEvent,
    now: Framing,
    step: FramingStep,
) -> bool {
    match (was, event) {
        (Framing::Starting, _) => now is Asking && step is Ask,
        (Framing::Asking, FramingEvent::Alive(alive)) => if alive {
            now is Refreshing && step is Refresh
        } else {
            frame_ended(now, step, fault(ErrorCode::StaleTarget, "独立应用已退出"@))
        },
        (Framing::Refreshing, FramingEvent::Refreshed(Ok(_))) => if p.revision != revision {
            now is Scaling && step is Outputs
        } else {
            now is Capturing && step is Capture
        },
        (Framing::Scaling, FramingEvent::Outputs(Ok(answer))) => match json_of(answer@) {
            Err(m) => frame_ended(now, step, fault(ErrorCode::BackendUnavailable, m)),
            Ok(outputs) => if scale_of(outputs, "HEADLESS-1"@) is Some {
                now is Capturing && step is Capture
            } else {
                frame_ended(now, step, fault(ErrorCode::StaleTarget, "虚拟输出缩放无效"@))
            },
        },
        (Framing::Capturing, FramingEvent::Captured(Ok(size))) => now == Framing::Confirming(
            size.0,
            size.1,
        ) && step is Check,
        (Framing::Confirming(width, height), FramingEvent::Checked(Ok(_))) => if revision
            != p.revision {
            frame_ended(now, step, outdated())
        } else {
            &&& now is Done
            &&& step matches FramingStep::Finished(Ok(t)) && t@ == (TargetView {
                id: p.target_id@,
                label: application.shown(),
                width,
                height,
                scale: p.scale,
            })
        },
        (Framing::Refreshing, FramingEvent::Refreshed(Err(e))) => frame_ended(now, step, e@),
        (Framing::Scaling, FramingEvent::Outputs(Err(e))) => frame_ended(now, step, e@),
        (Framing::Capturing, FramingEvent::Captured(Err(e))) => frame_ended(now, step, e@),
        (Framing::Confirming(_, _), FramingEvent::Checked(Err(e))) => frame_ended(now, step, e@),
        (_, _) => frame_ended(now, step, outdated()),
    }
}

/// The preview after what was done last: the scale is read again where the outputs changed.
pub open spec fn frame_effect(
    p: IsolatedPreview,
    was: Framing,
    revision: u64,
    event: FramingEvent,
) -> IsolatedPreview {
    match (was, event) {
        (Framing::Scaling, FramingEvent::Outputs(Ok(answer))) => match json_of(answer@) {
            Ok(outputs) => match scale_of(outputs, "HEADLESS-1"@) {
                Some(scale) => IsolatedPreview { scale, revision, ..p },
                None => p,
            },
            Err(_) => p,
        },
        (_, _) => p,
    }
}

fn frame_end(e: Fault) -> (r: (Framing, FramingStep))
    ensures
        frame_ended(r.0, r.1, e@),
{
    (Framing::Done, FramingStep::Finished(Err(e)))
}

impl IsolatedPreview {
    /// What is to be done to take a frame, by what came of what was done last.
    pub fn frame(
        &mut self,
        application: &Application,
        was: Framing,
        revision: u64,
        event: FramingEvent,
    ) -> (r: (Framing, FramingStep))
        ensures
            *final(self) == frame_effect(*old(self), was, revision, event),
            framed(*old(self), *application, was, revision, event, r.0, r.1),
    {
        match (was, event) {
            (Framing::Starting, _) => (Framing::Asking, FramingStep::Ask),
            (Framing::Asking, FramingEvent::Alive(alive)) => match self.begin(alive, revision) {
                Ok(_) => (Framing::Refreshing, FramingStep::Refresh),
                Err(e) => frame_end(e),
            },
            (Framing::Refreshing, FramingEvent::Refreshed(Ok(()))) => match self.begin(
                true,
                revision,
            ) {
                Ok(true) => (Framing::Scaling, FramingStep::Outputs),
                Ok(false) => (Framing::Capturing, FramingStep::Capture),
                Err(e) => frame_end(e),
            },
            (Framing::Scaling, FramingEvent::Outputs(Ok(answer))) => match read_answer(&answer) {
                Err(e) => frame_end(e),
                Ok(outputs) => match self.rescale(&outputs, revision) {
                    Ok(()) => (Framing::Capturing, FramingStep::Capture),
                    Err(e) => frame_end(e),
                },
            },
            (Framing::Capturing, FramingEvent::Captured(Ok((width, height)))) => (
                Framing::Confirming(width, height),
                FramingStep::Check,
            ),
            (Framing::Confirming(width, height), FramingEvent::Checked(Ok(()))) => {
                match self.framed(application, width, height, revision) {
                    Ok(target) => (Framing::Done, FramingStep::Finished(Ok(target))),
                    Err(e) => frame_end(e),
                }
            },
            (Framing::Refreshing, FramingEvent::Refreshed(Err(e))) => frame_end(e),
            (Framing::Scaling, FramingEvent::Outputs(Err(e))) => frame_end(e),
            (Framing::Capturing, FramingEvent::Captured(Err(e))) => frame_end(e),
            (Framing::Confirming(_, _), FramingEvent::Checked(Err(e))) => frame_end(e),
            (_, _) => frame_end(Fault::new(ErrorCode::Busy, "输出尺寸变化，等待下一帧")),
        }
    }
}

/// A frame is shown at the scale of the outputs at their present revision, and is not shown once
/// it was cancelled.
pub proof fn frames_are_shown_at_their_scale(
    p: IsolatedPreview,
    application: Application,
    was: Framing,
    revision: u64,
    event: FramingEvent,
    now: Framing,
    step: FramingStep,
)
    requires
        framed(p, application, was, revision, event, now, step),
    ensures
        step matches FramingStep::Finished(Ok(t)) ==> {
            &&& event matches FramingEvent::Checked(Ok(_))
            &&& p.revision == revision
            &&& t@.scale == p.scale
        },
        now is Capturing ==> frame_effect(p, was, revision, event).revision == revision,
{
}

} // verus!
