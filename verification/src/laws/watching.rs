//! What the local user sees and takes over, and what becomes of the sessions meanwhile.
use vstd::prelude::*;

use crate::backend::existing::Existing;
use crate::backend::wayland::{host_path, Output, Outputs, Progress};
use crate::backend::{Backend, Cancellation};
use crate::laws::sessions::{as_before, paused};
use crate::model::{ErrorCode, Fault, SessionStatus, Target};
use crate::number::unit;
use crate::picture::Transform;
use crate::policy::{BackendHandle, Policy};
use crate::text::{numeral, precedes, texts};
use crate::ui::panel::{Opened, Panel};
use crate::ui::view::{Presentation, Takeover};
use crate::ui::{same_statuses, statuses, statuses_of, statuses_view};

verus! {

proof fn lemma_views<B: Backend>(p: Policy<B>)
    ensures
        p@.sessions.len() == p.sessions@.len(),
        forall|j: int| 0 <= j < p.sessions@.len() ==> #[trigger] p@.sessions[j] == p.sessions@[j]@,
{
}

/// Taking over pauses every active session and is counted; giving back resumes none, is counted
/// down, and cancels the user's own input. Doing again what was done changes nothing.
pub proof fn taking_over_pauses_and_giving_back_resumes_nothing<B: Backend>(
    was: Takeover,
    is: Takeover,
    before: Policy<B>,
    after: Policy<B>,
    on: bool,
    j: int,
)
    requires
        before.wf(),
        exists|t: &mut Takeover, p: &mut Policy<B>|
            *t == was && *final(t) == is && *p == before && *final(p) == after
                && #[trigger] call_ensures(Takeover::toggle::<B>, (t, p, on), ()),
        0 <= j < before.sessions@.len(),
        was.active ==> before.manual_previews > 0,
        before.manual_previews < usize::MAX,
    ensures
        is.active == on,
        is.signal == was.signal,
        after.sessions@.len() == before.sessions@.len(),
        on && !was.active ==> {
            &&& paused(before.sessions@[j], after.sessions@[j])
            &&& after.manual_previews == before.manual_previews + 1
            &&& is.generation == was.generation
        },
        !on && was.active ==> {
            &&& as_before(before.sessions@[j], after.sessions@[j])
            &&& after.manual_previews == before.manual_previews - 1
            &&& is.generation != was.generation
        },
        on == was.active ==> after@ == before@ && is.generation == was.generation,
{
    lemma_views(before);
    lemma_views(after);
    assert(after@.sessions[j] == after.sessions@[j]@);
}

/// Closing a window gives back what was taken over and cancels the user's own input; hiding its
/// picture cancels it too, and takes a view from its own session only.
pub proof fn closed_windows_cancel_the_users_input<B: Backend>(
    was: Takeover,
    closed: Takeover,
    hidden: Takeover,
    before: Policy<B>,
    after: Policy<B>,
    later: Policy<B>,
    id: &str,
    j: int,
)
    requires
        before.wf(),
        exists|t: &mut Takeover, p: &mut Policy<B>|
            *t == was && *final(t) == closed && *p == before && *final(p) == after
                && #[trigger] call_ensures(Takeover::close::<B>, (t, p), ()),
        exists|t: &mut Takeover, p: &mut Policy<B>|
            *t == was && *final(t) == hidden && *p == before && *final(p) == later
                && #[trigger] call_ensures(Takeover::hidden::<B>, (t, p, Some(id)), ()),
        0 <= j < before.sessions@.len(),
    ensures
        closed.generation != was.generation && hidden.generation != was.generation,
        closed.signal == was.signal && hidden.signal == was.signal,
        hidden.active == was.active,
        after.sessions@.len() == before.sessions@.len(),
        as_before(before.sessions@[j], after.sessions@[j]),
        was.active && before.manual_previews > 0 ==> after.manual_previews
            == before.manual_previews - 1,
        !was.active ==> after@ == before@,
        later.sessions@.len() == before.sessions@.len(),
        before.sessions@[j].status.session_id@ != id@ ==> as_before(
            before.sessions@[j],
            later.sessions@[j],
        ),
        later.manual_previews == before.manual_previews,
{
    lemma_views(before);
    lemma_views(after);
    lemma_views(later);
    assert(after@.sessions[j] == after.sessions@[j]@);
    assert(later@.sessions[j] == later.sessions@[j]@);
}

/// The user's own input notices that it was cancelled by the window's own counter.
pub proof fn the_users_input_watches_its_window(t: Takeover, r: Cancellation, fresh: Takeover)
    requires
        call_ensures(Takeover::cancellation, (&t,), r),
        call_ensures(Takeover::new, (), fresh),
    ensures
        r.generation == t.signal && r.captured == t.generation,
        !fresh.active,
{
}

/// A frame that was shown is counted, is what the user acts on, and ends a failure.
pub proof fn shown_frames_are_counted(
    before: Presentation,
    after: Presentation,
    target: Target,
    now: u64,
    fresh: Presentation,
)
    requires
        before.shown < u64::MAX,
        exists|p: &mut Presentation|
            *p == before && *final(p) == after && #[trigger] call_ensures(
                Presentation::show,
                (p, target),
                (),
            ),
        call_ensures(Presentation::new, (now,), fresh),
    ensures
        after.target == Some(target),
        after.shown == before.shown + 1,
        after.failure is None,
        after.pending == before.pending && after.description == before.description
            && after.measured_since == before.measured_since,
        fresh.shown == 0 && fresh.target is None && fresh.failure is None && fresh.pending is None
            && fresh.measured_since == now && fresh.size_changed == now,
{
}

/// A window whose frames fail says why, and pauses its own session and no other.
pub proof fn failed_frames_pause_their_session<B: Backend>(
    was: Presentation,
    is: Presentation,
    before: Policy<B>,
    after: Policy<B>,
    id: &str,
    error: Fault,
    j: int,
)
    requires
        before.wf(),
        exists|v: &mut Presentation, p: &mut Policy<B>|
            *v == was && *final(v) == is && *p == before && *final(p) == after
                && #[trigger] call_ensures(Presentation::fail::<B>, (v, p, Some(id), error), ()),
        0 <= j < before.sessions@.len(),
    ensures
        is.failure matches Some(m) && m@ == error.message@,
        is.target == was.target && is.shown == was.shown,
        after.sessions@.len() == before.sessions@.len(),
        before.sessions@[j].status.session_id@ == id@ ==> paused(
            before.sessions@[j],
            after.sessions@[j],
        ),
        before.sessions@[j].status.session_id@ != id@ ==> as_before(
            before.sessions@[j],
            after.sessions@[j],
        ),
{
    lemma_views(before);
    lemma_views(after);
    assert(after@.sessions[j] == after.sessions@[j]@);
    assert(before@.sessions[j].id() == before.sessions@[j].status.session_id@);
}

/// Every half second a window says what failed, or who is in control, what is shown and how
/// fast, and counts anew; in between it says nothing.
pub proof fn windows_say_every_half_second_what_is(
    before: Presentation,
    after: Presentation,
    now: u64,
    control: &str,
    rate: &str,
    r: Option<String>,
)
    requires
        exists|p: &mut Presentation|
            *p == before && *final(p) == after && #[trigger] call_ensures(
                Presentation::measure,
                (p, now, control, rate),
                r,
            ),
    ensures
        r is Some <==> now >= before.measured_since + 500_000_000,
        r is None ==> after == before,
        r matches Some(line) ==> {
            &&& after.shown == 0 && after.measured_since == now
            &&& before.failure matches Some(f) ==> line@ == f@
            &&& before.failure is None ==> line@ == control@ + " · "@ + before.description@
                + " · "@ + (if before.shown == 0 {
                "静止"@
            } else {
                rate@
            })
        },
{
}

/// The panel is drawn exactly if what it shows changed since it was drawn, or it was told to.
pub proof fn panels_are_drawn_when_something_changed<B: Backend>(
    before: Panel<B>,
    after: Panel<B>,
    list: Vec<SessionStatus>,
    r: bool,
    again: Panel<B>,
    second: bool,
    told: Panel<B>,
    fresh: Panel<B>,
    third: bool,
    end: Panel<B>,
)
    requires
        exists|p: &mut Panel<B>|
            *p == before && *final(p) == after && #[trigger] call_ensures(
                Panel::<B>::draw,
                (p, list),
                r,
            ),
        exists|p: &mut Panel<B>|
            *p == after && *final(p) == again && #[trigger] call_ensures(
                Panel::<B>::draw,
                (p, list),
                second,
            ),
        exists|p: &mut Panel<B>|
            *p == after && *final(p) == told && #[trigger] call_ensures(
                Panel::<B>::invalidate,
                (p,),
                (),
            ),
        exists|p: &mut Panel<B>|
            *p == told && *final(p) == end && #[trigger] call_ensures(
                Panel::<B>::draw,
                (p, list),
                third,
            ),
        call_ensures(Panel::<B>::new, (), fresh),
    ensures
        !second,
        third,
        before.drawn is None ==> r,
        fresh.drawn is None,
        after@.prepared == before@.prepared && after@.busy == before@.busy && after@.banner
            == before@.banner && after@.detached == before@.detached,
{
    assert(after@.drawn == Some(statuses_view(list@)));
}

/// An application that was allowed is opened with its own backend if its request still waits
/// and the backend answered; the panel is then hidden unless something else asked for it
/// meanwhile. Otherwise nothing is opened, and the panel says why.
pub proof fn allowed_applications_are_opened<B: Backend>(
    was: Panel<B>,
    is: Panel<B>,
    before: Policy<B>,
    after: Policy<B>,
    id: &str,
    epoch: u64,
    label: String,
    handle: BackendHandle<B>,
    capabilities: Vec<String>,
    targets: Result<Vec<Target>, Fault>,
    busy: &Vec<String>,
    r: Option<Opened<B>>,
)
    requires
        before.wf(),
        exists|v: &mut Panel<B>, p: &mut Policy<B>|
            *v == was && *final(v) == is && *p == before && *final(p) == after
                && #[trigger] call_ensures(
                Panel::<B>::allowed_prepared,
                (v, p, id, epoch, label, handle, capabilities, targets, busy),
                r,
            ),
    ensures
        r is Some <==> before@.pending(id@) && targets is Ok,
        r matches Some(o) ==> o.backend == handle && (o.hide <==> before.ui_epoch == epoch),
        !before@.pending(id@) ==> after@ == before@ && is@.banner == "申请已结束"@,
        before@.pending(id@) && targets is Err ==> is@.banner == targets->Err_0.message@,
        is@.prepared == was@.prepared && is@.detached == was@.detached && is@.busy == was@.busy,
{
}

/// Confirming opens the window of an isolated session only; a request that ended is said to have
/// ended.
pub proof fn confirmed_sessions_open_their_window<B: Backend>(
    was: Panel<B>,
    is: Panel<B>,
    before: Policy<B>,
    after: Policy<B>,
    id: &str,
    label: String,
    handle: BackendHandle<B>,
    capabilities: Vec<String>,
    targets: Result<Vec<Target>, Fault>,
    busy: &Vec<String>,
    r: Option<BackendHandle<B>>,
    i: int,
)
    requires
        before.wf(),
        after.wf(),
        exists|v: &mut Panel<B>, p: &mut Policy<B>|
            *v == was && *final(v) == is && *p == before && *final(p) == after
                && #[trigger] call_ensures(
                Panel::<B>::confirm_prepared,
                (v, p, id, label, handle, capabilities, targets, busy),
                r,
            ),
        0 <= i < after.sessions@.len(),
        after.sessions@[i].status.session_id@ == id@,
    ensures
        r == (if after.sessions@[i].status.mode == crate::model::Mode::Isolated {
            after.sessions@[i].backend
        } else {
            None
        }),
        !before@.pending(id@) ==> after@ == before@ && is@.banner == "申请已结束"@,
        is@.drawn is None,
        is@.prepared == was@.prepared,
{
    crate::laws::permits::lemma_found(after, i, 0, id@);
}

/// Applications that outlived their session go to the panel, behind those that it has, and the
/// policy has none left.
pub proof fn outlived_applications_go_to_the_panel<B: Backend>(
    was: Panel<B>,
    is: Panel<B>,
    before: Policy<B>,
    after: Policy<B>,
)
    requires
        before.wf(),
        exists|v: &mut Panel<B>, p: &mut Policy<B>|
            *v == was && *final(v) == is && *p == before && *final(p) == after
                && #[trigger] call_ensures(Panel::<B>::adopt, (v, p), ()),
    ensures
        is.detached@.len() == was.detached@.len() + before.retained@.len(),
        after.retained@.len() == 0,
        before.retained@.len() > 0 ==> is@.drawn is None,
        after@.sessions == before@.sessions,
{
    assert(is@.detached.len() == is.detached@.len() && was@.detached.len() == was.detached@.len());
    assert(before@.retained.len() == before.retained@.len() && after@.retained.len()
        == after.retained@.len());
}

/// The panel shows every session once, in the order of their identifiers.
pub proof fn every_session_is_shown_in_order<B: Backend>(
    policy: &Policy<B>,
    r: Vec<SessionStatus>,
    i: int,
    j: int,
)
    requires
        call_ensures(statuses::<B>, (policy,), r),
        0 <= i < j < r@.len(),
    ensures
        !precedes(r@[j].session_id@, r@[i].session_id@),
        r@.len() == policy.sessions@.len(),
{
    let v = statuses_view(r@);
    assert(v[i] == r@[i]@ && v[j] == r@[j]@);
    v.to_multiset_ensures();
    statuses_of(policy@).to_multiset_ensures();
    assert(v.to_multiset().len() == v.len());
    assert(statuses_of(policy@).len() == policy.sessions@.len());
}

/// Two lists of sessions are the same only if they have the same sessions in the same states.
pub proof fn changed_sessions_are_noticed(
    a: &Vec<SessionStatus>,
    b: &Vec<SessionStatus>,
    r: bool,
    i: int,
)
    requires
        call_ensures(same_statuses, (a, b), r),
    ensures
        r ==> a@.len() == b@.len(),
        r && 0 <= i < a@.len() ==> {
            &&& a@[i].session_id@ == b@[i].session_id@
            &&& a@[i].state == b@[i].state
            &&& a@[i].mode == b@[i].mode
            &&& a@[i].scope == b@[i].scope
            &&& texts(a@[i].capabilities@) == texts(b@[i].capabilities@)
        },
        a@ == b@ ==> r,
{
    let v = statuses_view(a@);
    let w = statuses_view(b@);
    assert(v.len() == a@.len() && w.len() == b@.len());
    if r && 0 <= i < a@.len() {
        assert(v[i] == a@[i]@ && w[i] == b@[i]@);
    }
}

/// A display that appears is known under its number, upright, without a size yet; one that
/// vanishes is forgotten, and the others stay.
pub proof fn displays_come_and_go(
    before: Outputs,
    after: Outputs,
    global: u32,
    gone: Outputs,
    had: bool,
    o: Output,
)
    requires
        before.wf(),
        exists|x: &mut Outputs|
            *x == before && *final(x) == after && #[trigger] call_ensures(
                Outputs::announce,
                (x, global),
                (),
            ),
        exists|x: &mut Outputs|
            *x == before && *final(x) == gone && #[trigger] call_ensures(
                Outputs::retract,
                (x, global),
                had,
            ),
        o.global != global,
    ensures
        exists|i: int| {
            &&& 0 <= i < after.list@.len()
            &&& (#[trigger] after.list@[i]).global == global
            &&& after.list@[i].name@ == "output-"@ + numeral(global as nat, 10)
            &&& after.list@[i].width == 0 && after.list@[i].height == 0
            &&& after.list@[i].scale == 1
            &&& after.list@[i].transform == Transform::Normal
        },
        after.list@.contains(o) == before.list@.contains(o),
        gone.list@.contains(o) == before.list@.contains(o),
        forall|i: int|
            0 <= i < gone.list@.len() ==> (#[trigger] gone.list@[i]).global != global,
        had <==> exists|i: int|
            0 <= i < before.list@.len() && (#[trigger] before.list@[i]).global == global,
        had <==> gone.revision != before.revision,
{
    assert(after.holds(o) == before.holds(o));
    assert(gone.holds(o) == before.holds(o));
    let x = choose|x: Output|
        #![trigger after.holds(x)]
        {
            &&& after.holds(x)
            &&& x.global == global
            &&& x.name@ == "output-"@ + numeral(global as nat, 10)
            &&& x.width == 0
            &&& x.height == 0
            &&& x.scale == 1
            &&& x.transform == Transform::Normal
        };
    let i = choose|i: int| 0 <= i < after.list@.len() && after.list@[i] == x;
    assert(after.list@[i].global == global);
    assert(!gone.has(global));
}

/// The first display is the first of the list; a display is found by its name, the first of that
/// name.
pub proof fn displays_are_found_by_name(
    x: Outputs,
    name: &str,
    first: Option<Output>,
    r: Result<Output, Fault>,
    i: int,
)
    requires
        call_ensures(Outputs::first, (&x,), first),
        call_ensures(Outputs::named, (&x, name), r),
        0 <= i < x.list@.len(),
        forall|j: int| 0 <= j < i ==> (#[trigger] x.list@[j]).name@ != name@,
    ensures
        first == Some(x.list@[0]),
        x.list@[i].name@ == name@ ==> r == Ok::<Output, Fault>(x.list@[i]),
        r matches Ok(o) ==> o.name@ == name@ && x.list@.contains(o),
        r matches Err(e) ==> e.code == ErrorCode::StaleTarget
            && e.message@ == "显示器已移除"@,
{
    if x.list@[i].name@ == name@ && r is Ok {
        let k = choose|k: int|
            #![trigger x.list@[k]]
            {
                &&& 0 <= k < x.list@.len()
                &&& r->Ok_0 == x.list@[k]
                &&& r->Ok_0.name@ == name@
                &&& forall|j: int|
                    #![trigger x.list@[j]]
                    0 <= j < k ==> x.list@[j].name@ != name@
            };
        if k < i {
            assert(x.list@[k].name@ != name@);
        }
        if i < k {
            assert(x.list@[i].name@ != name@);
        }
    }
}

/// A capture is agreed on once its layout is known, and from the third version on all formats
/// were said; a failure ends it.
pub proof fn captures_are_agreed_on(
    p: Progress,
    version: u32,
    r: Option<Result<(), Fault>>,
)
    requires
        call_ensures(Progress::negotiation, (&p, version), r),
    ensures
        (r matches Some(Err(_))) <==> p.frame_failed,
        (r matches Some(Ok(_))) <==> !p.frame_failed && p.dimensions is Some && (version < 3
            || p.formats_done),
{
}

/// The user's display is found by its whole path, or by its name below the user's directory.
pub proof fn the_users_display_is_found(
    display: Vec<u8>,
    runtime: Vec<u8>,
    r: Result<Vec<u8>, Fault>,
    bare: Result<Vec<u8>, Fault>,
)
    requires
        call_ensures(host_path, (Some(display), Some(runtime)), r),
        call_ensures(host_path, (Some(display), None::<Vec<u8>>), bare),
    ensures
        display@.len() > 0 && display@[0] == 0x2f ==> (r matches Ok(v) && v@ == display@) && (bare
            matches Ok(v) && v@ == display@),
        display@.len() == 0 || display@[0] != 0x2f ==> (r matches Ok(v) && v@
            == crate::path::below(runtime@, display@)) && bare is Err,
        bare matches Err(e) ==> e.code == ErrorCode::BackendUnavailable,
{
}

/// A bound window is the target that it was bound as, without a size until it is seen; it can be
/// acted on while it is there and is named.
pub proof fn bound_windows_are_their_only_target(
    id: String,
    label: String,
    pid: u32,
    window: u64,
    x: Existing,
    alive: bool,
    r: Result<Vec<Target>, Fault>,
    target: &str,
    may: Result<(), Fault>,
)
    requires
        call_ensures(Existing::bind_as, (id, label, pid, window), x),
        call_ensures(Existing::targets, (&x, alive), r),
        call_ensures(Existing::check_action, (&x, target, alive), may),
    ensures
        x.target.id@ == id@ && x.target.label@ == label@ && x.target.width == 0 && x.target.height
            == 0 && x.target.scale.value() == unit(),
        x.pid == pid && x.window_id == window,
        r is Ok <==> alive,
        r matches Ok(v) ==> v@.len() == 1 && v@[0].id@ == id@,
        r matches Err(e) ==> e.code == ErrorCode::StaleTarget
            && e.message@ == "应用窗口已关闭"@,
        may is Ok <==> alive && target@ == id@,
        may matches Err(e) ==> e.code == ErrorCode::StaleTarget
            && e.message@ == "应用引用失效"@,
{
}

} // verus!
