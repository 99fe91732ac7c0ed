//! The sequences in which the desktop and isolated applications are observed: a picture counts
//! only if nothing moved while it was taken.
use vstd::prelude::*;

use crate::backend::desktop::{
    check_compositor, check_still, relaid, scaled, unmoved, Desktop, Geometry,
};
use crate::backend::directing::referred;
use crate::backend::sway::{Isolated, Layout, Screen};
use crate::identifier::{fresh_identifier, identifier};
use crate::model::{
    fault, targets_view, ErrorCode, Fault, FaultView, Observation, ObservationView, Target,
    TargetView,
};
use crate::number::Binary64;
use crate::text::precedes;

verus! {

/// The display that is observed, with its reference and the revision of the displays.
pub struct Subject {
    pub reference: String,
    pub name: String,
    pub revision: u64,
}

/// A picture of a display, with the display's own scale.
pub struct Shot {
    pub png: String,
    pub width: u32,
    pub height: u32,
    pub scale: i32,
}

/// How far an observation of the desktop has come.
pub enum Viewing {
    Starting,
    /// The compositor is looked for.
    Asking,
    /// The displays are brought up to date.
    Refreshing,
    /// The layout is looked at.
    Looking(Subject),
    /// The picture is taken.
    Capturing(Subject, Geometry),
    /// The layout is looked at once more.
    Comparing(Subject, Geometry, Shot),
    /// The windows are listed.
    Listing(Subject, Geometry, Shot),
    Done,
}

/// What is to be done next.
pub enum ViewStep {
    /// Look whether the compositor is there.
    Ask,
    /// Bring the displays up to date.
    Refresh,
    /// Look at the layout.
    Look,
    /// Take a picture of the display of this name.
    Capture(String),
    /// List the windows.
    List,
    /// Nothing; this is what came of it.
    Finished(Result<Observation, Fault>),
}

/// What came of what was done last.
pub enum ViewEvent {
    Began,
    Alive(bool),
    Refreshed(Result<(), Fault>),
    Looked(Result<Geometry, Fault>),
    Captured(Result<Shot, Fault>),
    Listed(Result<Vec<Target>, Fault>),
}

/// Why no display can be observed, if none can.
pub open spec fn subject_refusal(d: Desktop, target: Option<&str>) -> Option<FaultView> {
    match target {
        Some(id) => if referred(d, id@) {
            None
        } else {
            Some(fault(ErrorCode::PermissionDenied, "未授权的显示器引用"@))
        },
        None => if d.output_ids@.dom() =~= Set::<Seq<char>>::empty() {
            Some(fault(ErrorCode::BackendUnavailable, "没有显示器"@))
        } else {
            None
        },
    }
}

/// Whether a display is the one to observe: the one that is referred to, or the first by name.
pub open spec fn subject_of(d: Desktop, target: Option<&str>, s: Subject) -> bool {
    &&& d.output_ids@.dom().contains(s.name@)
    &&& s.reference@ == d.output_ids@[s.name@]@
    &&& match target {
        Some(id) => s.reference@ == id@,
        None => forall|k: Seq<char>| #[trigger]
            d.output_ids@.dom().contains(k) ==> !precedes(k, s.name@),
    }
}

/// Whether an observation of the desktop ended with a fault.
pub open spec fn view_failed(now: Viewing, step: ViewStep, f: FaultView) -> bool {
    &&& now is Done
    &&& step matches ViewStep::Finished(Err(e))
    &&& e@ == f
}

/// Whether an observation of the desktop shows a display as it was captured.
pub open spec fn view_shows(
    o: ObservationView,
    s: Subject,
    before: Geometry,
    shot: Shot,
    windows: Seq<Target>,
) -> bool {
    &&& identifier(o.observation_id)
    &&& scaled(before@, s.name@, shot.scale, o.target.scale)
    &&& o == (ObservationView {
        observation_id: o.observation_id,
        target: TargetView {
            id: s.reference@,
            label: s.name@,
            width: shot.width,
            height: shot.height,
            scale: o.target.scale,
        },
        png_base64: Some(shot.png@),
        nodes: Seq::empty(),
        windows: targets_view(windows),
    })
}

/// Whether a step is the one that follows what was done last.
pub open spec fn viewed(
    d: Desktop,
    target: Option<&str>,
    was: Viewing,
    revision: u64,
    event: ViewEvent,
    now: Viewing,
    step: ViewStep,
) -> bool {
    match (was, event) {
        (Viewing::Starting, _) => now is Asking && step is Ask,
        (Viewing::Asking, ViewEvent::Alive(alive)) => if alive {
            now is Refreshing && step is Refresh
        } else {
            view_failed(now, step, fault(ErrorCode::StaleTarget, "niri 会话已经退出"@))
        },
        (Viewing::Refreshing, ViewEvent::Refreshed(Ok(_))) => match subject_refusal(d, target) {
            Some(f) => view_failed(now, step, f),
            None => now matches Viewing::Looking(s) && subject_of(d, target, s) && s.revision
                == revision && step is Look,
        },
        (Viewing::Looking(s), ViewEvent::Looked(Ok(before))) => {
            &&& now == Viewing::Capturing(s, before)
            &&& step matches ViewStep::Capture(name) && name@ == s.name@
        },
        (Viewing::Capturing(s, before), ViewEvent::Captured(Ok(shot))) => now
            == Viewing::Comparing(s, before, shot) && step is Look,
        (Viewing::Comparing(s, before, shot), ViewEvent::Looked(Ok(after))) => if unmoved(
            before@,
            after@,
        ) && s.revision == revision {
            now == Viewing::Listing(s, before, shot) && step is List
        } else {
            view_failed(now, step, relaid())
        },
        (Viewing::Listing(s, before, shot), ViewEvent::Listed(Ok(windows))) => {
            &&& now is Done
            &&& step matches ViewStep::Finished(Ok(o)) && view_shows(
                o@,
                s,
                before,
                shot,
                windows@,
            )
        },
        (Viewing::Refreshing, ViewEvent::Refreshed(Err(e))) => view_failed(now, step, e@),
        (Viewing::Looking(_), ViewEvent::Looked(Err(e))) => view_failed(now, step, e@),
        (Viewing::Capturing(_, _), ViewEvent::Captured(Err(e))) => view_failed(now, step, e@),
        (Viewing::Comparing(_, _, _), ViewEvent::Looked(Err(e))) => view_failed(now, step, e@),
        (Viewing::Listing(_, _, _), ViewEvent::Listed(Err(e))) => view_failed(now, step, e@),
        (_, _) => view_failed(now, step, relaid()),
    }
}

/// The desktop's state after what was done last: what an observation was based on is kept for
/// the action that follows it.
pub open spec fn view_effect(d: Desktop, was: Viewing, event: ViewEvent) -> Desktop {
    match (was, event) {
        (Viewing::Listing(s, before, _), ViewEvent::Listed(Ok(_))) => Desktop {
            geometry: Some(before),
            output_revision: Some(s.revision),
            ..d
        },
        (_, _) => d,
    }
}

fn view_end(e: Fault) -> (r: (Viewing, ViewStep))
    ensures
        view_failed(r.0, r.1, e@),
{
    (Viewing::Done, ViewStep::Finished(Err(e)))
}

impl Desktop {
    /// The display to observe, now that the displays are up to date.
    pub fn subject(&self, target: Option<&str>, revision: u64) -> (r: Result<Subject, Fault>)
        requires
            self.wf(),
        ensures
            match subject_refusal(*self, target) {
                Some(f) => r matches Err(e) && e@ == f,
                None => r matches Ok(s) && subject_of(*self, target, s) && s.revision == revision,
            },
    {
        match self.pick_output(target) {
            Err(e) => Err(e),
            Ok(name) => {
                assert(self.output_ids@.dom().contains(name@));
                assert(self.output_ids@[name@]@ == self.output_ids@[name@]@);
                let reference = match self.output_ids.get(name.as_str()) {
                    Some(id) => id.clone(),
                    None => String::new(),
                };
                Ok(Subject { reference, name, revision })
            },
        }
    }

    /// What is to be done to observe the desktop, by what came of what was done last.
    pub fn observe(
        &mut self,
        target: Option<&str>,
        was: Viewing,
        revision: u64,
        event: ViewEvent,
    ) -> (r: (Viewing, ViewStep))
        requires
            old(self).wf(),
        ensures
            final(self).wf(),
            *final(self) == view_effect(*old(self), was, event),
            viewed(*old(self), target, was, revision, event, r.0, r.1),
    {
        match (was, event) {
            (Viewing::Starting, _) => (Viewing::Asking, ViewStep::Ask),
            (Viewing::Asking, ViewEvent::Alive(alive)) => match check_compositor(alive) {
                Ok(()) => (Viewing::Refreshing, ViewStep::Refresh),
                Err(e) => view_end(e),
            },
            (Viewing::Refreshing, ViewEvent::Refreshed(Ok(()))) => match self.subject(
                target,
                revision,
            ) {
                Ok(s) => (Viewing::Looking(s), ViewStep::Look),
                Err(e) => view_end(e),
            },
            (Viewing::Looking(s), ViewEvent::Looked(Ok(before))) => {
                let name = s.name.clone();
                (Viewing::Capturing(s, before), ViewStep::Capture(name))
            },
            (Viewing::Capturing(s, before), ViewEvent::Captured(Ok(shot))) => (
                Viewing::Comparing(s, before, shot),
                ViewStep::Look,
            ),
            (Viewing::Comparing(s, before, shot), ViewEvent::Looked(Ok(after))) => {
                match check_still(&before, &after, s.revision, revision) {
                    Ok(()) => (Viewing::Listing(s, before, shot), ViewStep::List),
                    Err(e) => view_end(e),
                }
            },
            (Viewing::Listing(s, before, shot), ViewEvent::Listed(Ok(windows))) => {
                let scale = before.scale_of(s.name.as_str(), shot.scale);
                let picture = (shot.png, shot.width, shot.height);
                let o = self.observed(
                    fresh_identifier(),
                    s.reference,
                    s.name,
                    picture,
                    scale,
                    windows,
                    before,
                    s.revision,
                );
                (Viewing::Done, ViewStep::Finished(Ok(o)))
            },
            (Viewing::Refreshing, ViewEvent::Refreshed(Err(e))) => view_end(e),
            (Viewing::Looking(_), ViewEvent::Looked(Err(e))) => view_end(e),
            (Viewing::Capturing(_, _), ViewEvent::Captured(Err(e))) => view_end(e),
            (Viewing::Comparing(_, _, _), ViewEvent::Looked(Err(e))) => view_end(e),
            (Viewing::Listing(_, _, _), ViewEvent::Listed(Err(e))) => view_end(e),
            (_, _) => view_end(Fault::stale("显示器布局变化，请重新观察")),
        }
    }
}

/// What is observed of the desktop is what an action may be based on: once an observation is
/// complete, its own layout is current, and before that nothing that was kept changes.
pub proof fn observations_are_what_actions_are_based_on(
    d: Desktop,
    target: Option<&str>,
    was: Viewing,
    revision: u64,
    event: ViewEvent,
    now: Viewing,
    step: ViewStep,
)
    requires
        viewed(d, target, was, revision, event, now, step),
    ensures
        step matches ViewStep::Finished(Ok(_)) ==> {
            &&& was matches Viewing::Listing(s, before, _)
            &&& view_effect(d, was, event).geometry == Some(before)
            &&& view_effect(d, was, event).output_revision == Some(s.revision)
        },
        !(step matches ViewStep::Finished(Ok(_))) ==> view_effect(d, was, event) == d,
{
}

/// A picture is kept only if nothing moved while it was taken.
pub proof fn pictures_are_of_a_still_desktop(
    d: Desktop,
    target: Option<&str>,
    s: Subject,
    before: Geometry,
    shot: Shot,
    revision: u64,
    event: ViewEvent,
    now: Viewing,
    step: ViewStep,
)
    requires
        viewed(d, target, Viewing::Comparing(s, before, shot), revision, event, now, step),
        now !is Done,
    ensures
        event matches ViewEvent::Looked(Ok(after)) && unmoved(before@, after@) && s.revision
            == revision,
{
}

/// How far an observation of an isolated application has come.
pub enum Seeing {
    Starting,
    /// The windows are looked at.
    Looking,
    /// The displays are brought up to date.
    Refreshing(Layout),
    /// The picture is taken.
    Capturing(Layout),
    /// The windows are looked at once more.
    Comparing(Layout, Shot),
    /// The scale is asked for; with the revision of the displays.
    Measuring(Layout, Layout, u64, Shot),
    Done,
}

/// What is to be done next.
pub enum SeeStep {
    /// Look at the windows.
    Look,
    /// Bring the displays up to date.
    Refresh,
    /// Take a picture of the first display.
    Capture,
    /// Ask for the scale of that display.
    Measure,
    /// Nothing; this is what came of it.
    Finished(Result<Observation, Fault>),
}

/// What came of what was done last.
pub enum SeeEvent {
    Began,
    Looked(Result<Layout, Fault>),
    Refreshed(Result<(), Fault>),
    /// Nothing where there is no display.
    Captured(Result<Option<Shot>, Fault>),
    Measured(Result<Binary64, Fault>),
}

/// The fault of an application that moved while it was observed.
pub open spec fn restless() -> FaultView {
    fault(ErrorCode::StaleTarget, "截图期间窗口布局改变，请重新观察"@)
}

/// Whether an observation of an application ended with a fault.
pub open spec fn see_failed(now: Seeing, step: SeeStep, f: FaultView) -> bool {
    &&& now is Done
    &&& step matches SeeStep::Finished(Err(e))
    &&& e@ == f
}

/// Whether a step is the one that follows what was done last.
pub open spec fn seen(
    i: Isolated,
    target: Option<&str>,
    was: Seeing,
    revision: u64,
    event: SeeEvent,
    now: Seeing,
    step: SeeStep,
) -> bool {
    match (was, event) {
        (Seeing::Starting, _) => if target matches Some(id) && id@ != i.target_id@ {
            see_failed(
                now,
                step,
                fault(ErrorCode::PermissionDenied, "目标不属于此应用会话"@),
            )
        } else {
            now is Looking && step is Look
        },
        (Seeing::Looking, SeeEvent::Looked(Ok(before))) => now == Seeing::Refreshing(before)
            && step is Refresh,
        (Seeing::Refreshing(before), SeeEvent::Refreshed(Ok(_))) => now == Seeing::Capturing(
            before,
        ) && step is Capture,
        (Seeing::Capturing(before), SeeEvent::Captured(Ok(shot))) => match shot {
            Some(shot) => now == Seeing::Comparing(before, shot) && step is Look,
            None => see_failed(
                now,
                step,
                fault(ErrorCode::BackendUnavailable, "没有虚拟显示器"@),
            ),
        },
        (Seeing::Comparing(before, shot), SeeEvent::Looked(Ok(after))) => if before@ == after@ {
            now == Seeing::Measuring(before, after, revision, shot) && step is Measure
        } else {
            see_failed(now, step, restless())
        },
        (Seeing::Measuring(before, after, _, shot), SeeEvent::Measured(scale)) => if before@
            != after@ {
            see_failed(now, step, restless())
        } else {
            match scale {
                Err(e) => see_failed(now, step, e@),
                Ok(scale) => {
                    &&& now is Done
                    &&& step matches SeeStep::Finished(Ok(o))
                    &&& identifier(o@.observation_id)
                    &&& o@ == (ObservationView {
                        observation_id: o@.observation_id,
                        target: i.target_of(shot.width, shot.height, scale),
                        png_base64: Some(shot.png@),
                        nodes: Seq::empty(),
                        windows: Seq::empty(),
                    })
                },
            }
        },
        (Seeing::Looking, SeeEvent::Looked(Err(e))) => see_failed(now, step, e@),
        (Seeing::Refreshing(_), SeeEvent::Refreshed(Err(e))) => see_failed(now, step, e@),
        (Seeing::Capturing(_), SeeEvent::Captured(Err(e))) => see_failed(now, step, e@),
        (Seeing::Comparing(_, _), SeeEvent::Looked(Err(e))) => see_failed(now, step, e@),
        (_, _) => see_failed(now, step, restless()),
    }
}

/// The application's state after what was done last: the layout that held while the picture was
/// taken is kept for the action that follows.
pub open spec fn see_effect(i: Isolated, was: Seeing, event: SeeEvent) -> Isolated {
    match (was, event) {
        (Seeing::Measuring(before, after, revision, _), SeeEvent::Measured(_)) => if before@
            == after@ {
            Isolated { geometry: Some((after, revision)), ..i }
        } else {
            i
        },
        (_, _) => i,
    }
}

fn see_end(e: Fault) -> (r: (Seeing, SeeStep))
    ensures
        see_failed(r.0, r.1, e@),
{
    (Seeing::Done, SeeStep::Finished(Err(e)))
}

impl Isolated {
    /// What is to be done to observe an application, by what came of what was done last.
    pub fn observe(
        &mut self,
        target: Option<&str>,
        was: Seeing,
        revision: u64,
        event: SeeEvent,
    ) -> (r: (Seeing, SeeStep))
        ensures
            *final(self) == see_effect(*old(self), was, event),
            seen(*old(self), target, was, revision, event, r.0, r.1),
    {
        match (was, event) {
            (Seeing::Starting, _) => match self.check_target(target) {
                Ok(()) => (Seeing::Looking, SeeStep::Look),
                Err(e) => see_end(e),
            },
            (Seeing::Looking, SeeEvent::Looked(Ok(before))) => (
                Seeing::Refreshing(before),
                SeeStep::Refresh,
            ),
            (Seeing::Refreshing(before), SeeEvent::Refreshed(Ok(()))) => (
                Seeing::Capturing(before),
                SeeStep::Capture,
            ),
            (Seeing::Capturing(before), SeeEvent::Captured(Ok(shot))) => match shot {
                Some(shot) => (Seeing::Comparing(before, shot), SeeStep::Look),
                None => see_end(Fault::unavailable("没有虚拟显示器")),
            },
            (Seeing::Comparing(before, shot), SeeEvent::Looked(Ok(after))) => {
                if before.equals(&after) {
                    (Seeing::Measuring(before, after, revision, shot), SeeStep::Measure)
                } else {
                    see_end(Fault::stale("截图期间窗口布局改变，请重新观察"))
                }
            },
            (Seeing::Measuring(before, after, then, shot), SeeEvent::Measured(scale)) => {
                let screen = Screen { width: shot.width, height: shot.height, scale };
                match self.observed(fresh_identifier(), before, after, then, shot.png, screen) {
                    Ok(o) => (Seeing::Done, SeeStep::Finished(Ok(o))),
                    Err(e) => see_end(e),
                }
            },
            (Seeing::Looking, SeeEvent::Looked(Err(e))) => see_end(e),
            (Seeing::Refreshing(_), SeeEvent::Refreshed(Err(e))) => see_end(e),
            (Seeing::Capturing(_), SeeEvent::Captured(Err(e))) => see_end(e),
            (Seeing::Comparing(_, _), SeeEvent::Looked(Err(e))) => see_end(e),
            (_, _) => see_end(Fault::stale("截图期间窗口布局改变，请重新观察")),
        }
    }
}

/// An application is seen only where the windows stood still around its picture, and the layout
/// that is kept is theirs.
pub proof fn pictures_are_of_still_windows(
    i: Isolated,
    target: Option<&str>,
    was: Seeing,
    revision: u64,
    event: SeeEvent,
    now: Seeing,
    step: SeeStep,
)
    requires
        seen(i, target, was, revision, event, now, step),
    ensures
        step matches SeeStep::Finished(Ok(_)) ==> {
            &&& was matches Seeing::Measuring(before, after, then, _)
            &&& before@ == after@
            &&& see_effect(i, was, event).geometry == Some((after, then))
        },
        now matches Seeing::Measuring(before, after, then, _) ==> before@ == after@ && then
            == revision,
{
}

} // verus!
