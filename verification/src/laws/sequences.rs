//! In which order applications and the desktop are looked at and acted on, and what stops it.
use vstd::prelude::*;

use crate::backend::acting::{ActEvent, ActPhase, ActStep};
use crate::backend::desktop::{Desktop, Geometry};
use crate::backend::directing::{DirectEvent, DirectPhase, DirectStep, Directing};
use crate::backend::framing::{Framing, FramingEvent, FramingStep};
use crate::backend::observing::{
    SeeEvent, SeeStep, Seeing, Shot, Subject, ViewEvent, ViewStep, Viewing,
};
use crate::backend::surveying::{SurveyEvent, SurveyStep, Surveying};
use crate::backend::sway::{
    check_windows, tree_view, Application, Isolated, IsolatedPreview, Layout, OwnedWindow, Owner,
    Placed, SavedSession, TreeWindow,
};
use crate::model::{Action, ErrorCode, Fault, Target};

verus! {

/// An action on an application goes from the cancellation over the displays, the windows, the
/// displays again and the output to the sending, and ends wherever one of these fails.
pub proof fn acting_takes_its_steps_in_order(
    before: Isolated,
    after: Isolated,
    target: &Target,
    phase: ActPhase,
    event: ActEvent,
    r: (ActPhase, ActStep),
)
    requires
        exists|i: &mut Isolated|
            *i == before && *final(i) == after && #[trigger] call_ensures(
                Isolated::act,
                (i, target, phase, event),
                r,
            ),
    ensures
        phase == ActPhase::Starting ==> r.0 == ActPhase::Checking && r.1 is Check,
        phase == ActPhase::Checking && event.outcome is Ok ==> r.0 == ActPhase::Refreshing && r.1
            is Refresh,
        phase == ActPhase::Refreshing && event.outcome is Ok ==> r.0 == ActPhase::Looking && r.1
            is Look,
        phase == ActPhase::RefreshingAgain && event.outcome is Ok ==> r.0 == ActPhase::Measuring
            && r.1 is Measure,
        r.1 is Send <==> phase == ActPhase::Measuring && r.0 == ActPhase::Sending,
        (phase == ActPhase::Checking || phase == ActPhase::Refreshing || phase
            == ActPhase::RefreshingAgain || phase == ActPhase::Sending) && event.outcome is Err
            ==> (r.1 matches ActStep::Finished(Err(e)) && e@ == event.outcome->Err_0@),
        phase == ActPhase::Sending && event.outcome is Ok ==> (r.1 matches ActStep::Finished(
            Ok(_),
        )),
        (r.1 matches ActStep::Finished(Ok(_))) ==> phase == ActPhase::Sending,
        r.1 is Finished <==> r.0 == ActPhase::Done,
        after.target_id == before.target_id && after.saved == before.saved && after.local_only
            == before.local_only,
        phase == ActPhase::Sending && event.outcome is Ok ==> after.geometry is None,
        !(phase == ActPhase::Sending && event.outcome is Ok) ==> after == before,
{
    let v = r.1@;
    assert(v == crate::backend::acting::act_stepped(before, *target, phase, event).1);
}

/// The windows let an action pass only if they are those of the latest observation, at the same
/// displays; the output only if it has the size and scale that were observed.
pub proof fn acting_needs_what_was_observed(
    before: Isolated,
    after: Isolated,
    target: &Target,
    event: ActEvent,
    looked: (ActPhase, ActStep),
    later: Isolated,
    measured: (ActPhase, ActStep),
    kept: Layout,
    at: u64,
    same: bool,
    layout: Layout,
)
    requires
        exists|i: &mut Isolated|
            *i == before && *final(i) == after && #[trigger] call_ensures(
                Isolated::act,
                (i, target, ActPhase::Looking, event),
                looked,
            ),
        exists|i: &mut Isolated|
            *i == before && *final(i) == later && #[trigger] call_ensures(
                Isolated::act,
                (i, target, ActPhase::Measuring, event),
                measured,
            ),
        before.geometry == Some((kept, at)),
        event.outcome is Ok,
        event.layout == Some(layout),
        call_ensures(Layout::equals, (&kept, &layout), same),
    ensures
        looked.0 == ActPhase::RefreshingAgain <==> target.id@ == before.target_id@ && same && at
            == event.revision,
        looked.0 != ActPhase::RefreshingAgain ==> (looked.1 matches ActStep::Finished(Err(e))
            && e.code == ErrorCode::StaleTarget),
        measured.1 is Send <==> {
            &&& event.screen matches Some(s)
            &&& s.width == target.width
            &&& s.height == target.height
            &&& s.scale matches Ok(scale)
            &&& scale.number() && target.scale.number() && scale.value() == target.scale.value()
        },
        event.screen is None ==> (measured.1 matches ActStep::Finished(Err(e)) && e.code
            == ErrorCode::StaleTarget),
{
    let v = looked.1@;
    assert(v == crate::backend::acting::act_stepped(
        before,
        *target,
        ActPhase::Looking,
        event,
    ).1);
    let w = measured.1@;
    assert(w == crate::backend::acting::act_stepped(
        before,
        *target,
        ActPhase::Measuring,
        event,
    ).1);
}

/// An action on the desktop goes from the cancellation over the compositor and the displays to
/// the layout; from there input is sent to the display that was named, or a window is listed
/// again, confirmed and then given the focus.
pub proof fn directing_takes_its_steps_in_order(
    before: Desktop,
    after: Desktop,
    was: Directing,
    target: &Target,
    action: &Action,
    event: DirectEvent,
    r: (Directing, DirectStep),
)
    requires
        before.wf(),
        exists|d: &mut Desktop|
            *d == before && *final(d) == after && #[trigger] call_ensures(
                Desktop::act,
                (d, was, target, action, event),
                r,
            ),
    ensures
        was.phase == DirectPhase::Starting ==> r.1 is Check && r.0.phase == DirectPhase::Checking,
        was.phase == DirectPhase::Checking && event.outcome is Ok ==> r.1 is Ask && r.0.phase
            == DirectPhase::Asking,
        was.phase == DirectPhase::Asking && event.alive ==> r.1 is Refresh && r.0.phase
            == DirectPhase::Refreshing,
        was.phase == DirectPhase::Asking && !event.alive ==> (r.1 matches DirectStep::Finished(
            Err(e),
        ) && e.code == ErrorCode::StaleTarget),
        was.phase == DirectPhase::Refreshing && event.outcome is Ok ==> r.1 is Look && r.0.phase
            == DirectPhase::Looking,
        r.1 matches DirectStep::Send(name) ==> {
            &&& was.phase == DirectPhase::Looking
            &&& !(*action is FocusWindow)
            &&& before.output_ids@.dom().contains(name@)
            &&& before.output_ids@[name@]@ == target.id@
        },
        r.1 is List <==> was.phase == DirectPhase::Looking && r.0.phase == DirectPhase::Listing,
        r.1 is List ==> (*action matches Action::FocusWindow { window }
            && before.windows@.dom().contains(window@) && r.0.window == before.windows@[window@]),
        was.phase == DirectPhase::Confirming && event.outcome is Ok ==> r.1
            == DirectStep::Focus(was.window),
        r.1 is Focus ==> was.phase == DirectPhase::Confirming,
        (was.phase == DirectPhase::Sending || was.phase == DirectPhase::Focusing) && event.outcome
            is Ok ==> after.geometry is None && (r.1 matches DirectStep::Finished(Ok(_))),
        (r.1 matches DirectStep::Finished(Ok(_))) ==> was.phase == DirectPhase::Sending
            || was.phase == DirectPhase::Focusing,
        !((was.phase == DirectPhase::Sending || was.phase == DirectPhase::Focusing)
            && event.outcome is Ok) ==> after == before,
        after.windows == before.windows && after.output_ids == before.output_ids,
{
}

/// The layout lets an action on the desktop pass only if it is that of the latest observation,
/// at the same displays.
pub proof fn directing_needs_what_was_observed(
    before: Desktop,
    after: Desktop,
    was: Directing,
    target: &Target,
    action: &Action,
    event: DirectEvent,
    r: (Directing, DirectStep),
    kept: Geometry,
    at: u64,
    now: Geometry,
    same: bool,
)
    requires
        before.wf(),
        exists|d: &mut Desktop|
            *d == before && *final(d) == after && #[trigger] call_ensures(
                Desktop::act,
                (d, was, target, action, event),
                r,
            ),
        was.phase == DirectPhase::Looking,
        before.geometry == Some(kept),
        before.output_revision == Some(at),
        event.outcome is Ok,
        event.geometry == Some(now),
        call_ensures(Geometry::means, (&kept, &now), same),
    ensures
        !same || at != event.revision ==> (r.1 matches DirectStep::Finished(Err(e)) && e.code
            == ErrorCode::StaleTarget),
        r.1 is Send || r.1 is List ==> same && at == event.revision,
        same && at == event.revision && (*action matches Action::FocusWindow { window }
            && before.windows@.dom().contains(window@)) ==> r.1 is List,
{
}

/// The desktop is observed from the compositor over the displays and the layout to the picture
/// of the display that was named, and the layout again; only if nothing moved are the windows
/// listed and is the observation complete.
pub proof fn observing_the_desktop_looks_twice(
    before: Desktop,
    after: Desktop,
    target: Option<&str>,
    was: Viewing,
    revision: u64,
    event: ViewEvent,
    r: (Viewing, ViewStep),
)
    requires
        before.wf(),
        exists|d: &mut Desktop|
            *d == before && *final(d) == after && #[trigger] call_ensures(
                Desktop::observe,
                (d, target, was, revision, event),
                r,
            ),
    ensures
        was is Starting ==> r.1 is Ask && r.0 is Asking,
        was is Asking ==> (event matches ViewEvent::Alive(alive) && alive <==> r.1 is Refresh),
        was is Looking && (event matches ViewEvent::Looked(Ok(_))) ==> (r.1
            matches ViewStep::Capture(name) && name@ == was->Looking_0.name@),
        r.1 is Capture ==> was is Looking,
        r.1 is List ==> was is Comparing && (event matches ViewEvent::Looked(Ok(_))),
        (r.1 matches ViewStep::Finished(Ok(_))) ==> was is Listing && (event
            matches ViewEvent::Listed(Ok(_))),
        !(r.1 matches ViewStep::Finished(Ok(_))) ==> after == before,
        after.windows == before.windows && after.output_ids == before.output_ids,
{
}

/// The picture of a display counts only if the layout afterwards is the one before it and the
/// displays are the same.
pub proof fn moved_desktops_are_observed_again(
    before: Desktop,
    after: Desktop,
    target: Option<&str>,
    s: Subject,
    first: Geometry,
    shot: Shot,
    second: Geometry,
    revision: u64,
    r: (Viewing, ViewStep),
    same: bool,
)
    requires
        before.wf(),
        exists|d: &mut Desktop|
            *d == before && *final(d) == after && #[trigger] call_ensures(
                Desktop::observe,
                (
                    d,
                    target,
                    Viewing::Comparing(s, first, shot),
                    revision,
                    ViewEvent::Looked(Ok(second)),
                ),
                r,
            ),
        call_ensures(Geometry::means, (&first, &second), same),
    ensures
        r.1 is List <==> same && s.revision == revision,
        !(r.1 is List) ==> (r.1 matches ViewStep::Finished(Err(e)) && e.code
            == ErrorCode::StaleTarget),
        r.1 is List ==> r.0 == Viewing::Listing(s, first, shot),
{
}

/// A complete observation of the desktop is of the display that was named, with the picture that
/// was taken and the windows that were listed, and is kept for the next action.
pub proof fn complete_observations_show_their_display(
    before: Desktop,
    after: Desktop,
    target: Option<&str>,
    s: Subject,
    first: Geometry,
    shot: Shot,
    windows: Vec<Target>,
    revision: u64,
    r: (Viewing, ViewStep),
)
    requires
        before.wf(),
        exists|d: &mut Desktop|
            *d == before && *final(d) == after && #[trigger] call_ensures(
                Desktop::observe,
                (
                    d,
                    target,
                    Viewing::Listing(s, first, shot),
                    revision,
                    ViewEvent::Listed(Ok(windows)),
                ),
                r,
            ),
    ensures
        r.1 matches ViewStep::Finished(Ok(o)) && {
            &&& o.target.id@ == s.reference@
            &&& o.target.label@ == s.name@
            &&& o.target.width == shot.width
            &&& o.target.height == shot.height
            &&& (o.png_base64 matches Some(png) && png@ == shot.png@)
            &&& o.windows@.len() == windows@.len()
            &&& o.nodes@.len() == 0
        },
        after.geometry == Some(first),
        after.output_revision == Some(s.revision),
{
    let o = r.1->Finished_0->Ok_0;
    assert(o@.windows.len() == o.windows@.len());
    assert(crate::model::targets_view(windows@).len() == windows@.len());
    assert(o@.nodes.len() == o.nodes@.len());
}

/// An application is observed from its windows over the displays to the picture, and its windows
/// again; only if they stood still is the scale asked for and the observation complete.
pub proof fn observing_an_application_looks_twice(
    before: Isolated,
    after: Isolated,
    target: Option<&str>,
    was: Seeing,
    revision: u64,
    event: SeeEvent,
    r: (Seeing, SeeStep),
)
    requires
        exists|i: &mut Isolated|
            *i == before && *final(i) == after && #[trigger] call_ensures(
                Isolated::observe,
                (i, target, was, revision, event),
                r,
            ),
    ensures
        was is Starting ==> (r.1 is Look <==> target is None || target->0@ == before.target_id@),
        was is Starting && !(r.1 is Look) ==> (r.1 matches SeeStep::Finished(Err(e)) && e.code
            == ErrorCode::PermissionDenied),
        r.1 is Refresh <==> was is Looking && (event matches SeeEvent::Looked(Ok(_))),
        r.1 is Capture <==> was is Refreshing && (event matches SeeEvent::Refreshed(Ok(_))),
        r.1 is Measure ==> was is Comparing && (event matches SeeEvent::Looked(Ok(_))),
        (r.1 matches SeeStep::Finished(Ok(_))) ==> was is Measuring && (event
            matches SeeEvent::Measured(Ok(_))),
        !(was is Measuring) ==> after == before,
        after.target_id == before.target_id && after.saved == before.saved && after.local_only
            == before.local_only,
{
}

/// The picture of an application counts only if its windows afterwards are those before it.
pub proof fn moved_applications_are_observed_again(
    before: Isolated,
    after: Isolated,
    target: Option<&str>,
    first: Layout,
    shot: Shot,
    second: Layout,
    revision: u64,
    r: (Seeing, SeeStep),
    same: bool,
)
    requires
        exists|i: &mut Isolated|
            *i == before && *final(i) == after && #[trigger] call_ensures(
                Isolated::observe,
                (
                    i,
                    target,
                    Seeing::Comparing(first, shot),
                    revision,
                    SeeEvent::Looked(Ok(second)),
                ),
                r,
            ),
        call_ensures(Layout::equals, (&first, &second), same),
    ensures
        r.1 is Measure <==> same,
        r.1 is Measure ==> r.0 == Seeing::Measuring(first, second, revision, shot),
        !same ==> (r.1 matches SeeStep::Finished(Err(e)) && e.code == ErrorCode::StaleTarget),
{
}

/// A complete observation of an application has its picture at its size, and is kept for the
/// next action with the windows and the displays it was taken of.
pub proof fn complete_observations_show_their_application(
    before: Isolated,
    after: Isolated,
    target: Option<&str>,
    first: Layout,
    second: Layout,
    then: u64,
    shot: Shot,
    scale: crate::number::Binary64,
    revision: u64,
    r: (Seeing, SeeStep),
    same: bool,
)
    requires
        exists|i: &mut Isolated|
            *i == before && *final(i) == after && #[trigger] call_ensures(
                Isolated::observe,
                (
                    i,
                    target,
                    Seeing::Measuring(first, second, then, shot),
                    revision,
                    SeeEvent::Measured(Ok(scale)),
                ),
                r,
            ),
        call_ensures(Layout::equals, (&first, &second), same),
    ensures
        (r.1 matches SeeStep::Finished(Ok(_))) <==> same,
        r.1 matches SeeStep::Finished(Ok(o)) ==> {
            &&& o.target.id@ == before.target_id@
            &&& o.target.width == shot.width
            &&& o.target.height == shot.height
            &&& o.target.scale == scale
            &&& (o.png_base64 matches Some(png) && png@ == shot.png@)
            &&& after.geometry == Some((second, then))
        },
        !same ==> after == before,
{
}

/// A live frame is taken once the processes and the displays were looked at, at the scale of the
/// present outputs; it is shown if it was not cancelled and the outputs are still the same.
pub proof fn live_frames_are_shown_at_the_present_scale(
    before: IsolatedPreview,
    after: IsolatedPreview,
    application: &Application,
    was: Framing,
    revision: u64,
    event: FramingEvent,
    r: (Framing, FramingStep),
)
    requires
        exists|p: &mut IsolatedPreview|
            *p == before && *final(p) == after && #[trigger] call_ensures(
                IsolatedPreview::frame,
                (p, application, was, revision, event),
                r,
            ),
    ensures
        was is Starting ==> r.1 is Ask,
        r.1 is Refresh <==> was is Asking && (event matches FramingEvent::Alive(alive) && alive),
        r.1 is Outputs <==> was is Refreshing && (event matches FramingEvent::Refreshed(Ok(_)))
            && before.revision != revision,
        r.1 is Capture ==> after.revision == revision,
        r.1 is Capture ==> was is Refreshing || was is Scaling,
        r.1 is Check <==> was is Capturing && (event matches FramingEvent::Captured(Ok(_))),
        was is Capturing ==> (event matches FramingEvent::Captured(Ok(size)) ==> r.0
            == Framing::Confirming(size.0, size.1)),
        (r.1 matches FramingStep::Finished(Ok(_))) <==> was is Confirming && (event
            matches FramingEvent::Checked(Ok(_))) && revision == before.revision,
        r.1 matches FramingStep::Finished(Ok(t)) ==> {
            &&& t.id@ == before.target_id@
            &&& t.width == was->Confirming_0
            &&& t.height == was->Confirming_1
            &&& t.scale == before.scale
        },
        !(was is Scaling) ==> after == before,
        after.target_id == before.target_id && after.viewport == before.viewport,
{
}

/// The windows of a session are looked at from its processes over the tree and the X11 windows
/// to the owners and the outputs; it has a layout only after all of them.
pub proof fn surveys_take_their_steps_in_order(
    saved: &SavedSession,
    local_only: bool,
    was: Surveying,
    event: SurveyEvent,
    r: (Surveying, SurveyStep),
)
    requires
        call_ensures(Isolated::check_saved_windows, (saved, local_only, was, event), r),
    ensures
        was is Starting ==> r.1 is Ask,
        r.1 is Tree <==> was is Asking && (event matches SurveyEvent::Alive { sway, app } && sway
            && app),
        r.1 is Match ==> was is Reading && saved.x11 is Some,
        r.1 is Own ==> was is Matching || was is Reading,
        r.1 is Own && was is Reading ==> saved.x11 is None,
        r.1 is Outputs ==> was is Owning,
        (r.1 matches SurveyStep::Finished(Ok(_))) ==> was is Finishing && (event
            matches SurveyEvent::Outputs(Ok(_))),
        was is Matching ==> (event matches SurveyEvent::Matched(Ok(found)) ==> r.0
            == Surveying::Owning(was->Matching_0, found)),
{
}

/// The owners are looked up one for one, for every window that is no X11 window; a layout goes on
/// only if the check of all windows passes.
pub proof fn every_owner_is_looked_up(
    saved: &SavedSession,
    local_only: bool,
    list: Vec<TreeWindow>,
    found: Vec<OwnedWindow>,
    r: (Surveying, SurveyStep),
    owners: Vec<Owner>,
    next: (Surveying, SurveyStep),
    checked: Result<Vec<Placed>, Fault>,
    k: int,
)
    requires
        call_ensures(
            Isolated::check_saved_windows,
            (
                saved,
                local_only,
                Surveying::Matching(list),
                SurveyEvent::Matched(Ok(found)),
            ),
            r,
        ),
        owners@.len() == list@.len(),
        call_ensures(
            Isolated::check_saved_windows,
            (saved, local_only, Surveying::Owning(list, found), SurveyEvent::Owned(owners)),
            next,
        ),
        call_ensures(check_windows, (saved, local_only, &list, &owners, &found), checked),
        0 <= k < list@.len(),
    ensures
        r.1 matches SurveyStep::Own(ids) && ids@.len() == list@.len() && (if list@[k].window
            is None && list@[k].pid is Some {
            ids@[k] matches Some(pid) && pid == list@[k].pid->0 % 0x1_0000_0000
        } else {
            ids@[k] is None
        }),
        next.1 is Outputs <==> checked is Ok,
        checked matches Err(e) ==> (next.1 matches SurveyStep::Finished(Err(f)) && f@ == e@),
{
    let t = tree_view(list@);
    assert(t[k] == list@[k]@);
}

} // verus!
