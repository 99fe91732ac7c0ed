//! Which displays and windows references stand for, and when a picture of the desktop counts.
use vstd::prelude::*;

use crate::backend::accessibility::DesktopWindow;
use crate::backend::desktop::{
    capabilities, check_compositor, check_still, listed, names_of, places_view,
    reconnected_displays_get_a_new_reference, refreshed, vanished_displays_lose_their_reference,
    with_number, Desktop, Geometry, WindowPlace,
};
use crate::backend::wayland::Output;
use crate::json::Json;
use crate::model::{targets_view, ErrorCode, Fault, Observation, Target};
use crate::number::{unit, Binary64};
use crate::table::Table;
use crate::text::{precedes, texts};

verus! {

/// The desktop is shown only if it can be captured; windows can then be focused, and the rest
/// takes input.
pub proof fn desktops_take_input_if_it_can_be_sent(
    capture: bool,
    input: bool,
    r: Result<Vec<String>, Fault>,
)
    requires
        call_ensures(capabilities, (capture, input), r),
    ensures
        r is Ok <==> capture,
        r matches Ok(v) ==> {
            &&& v@.len() == if input {
                7
            } else {
                2int
            }
            &&& v@[0]@ == "screenshot"@ && v@[1]@ == "focus_window"@
            &&& input ==> v@[2]@ == "click"@ && v@[3]@ == "drag"@ && v@[4]@ == "scroll"@
                && v@[5]@ == "key"@ && v@[6]@ == "text"@
        },
        r matches Err(e) ==> e.code == ErrorCode::Unsupported,
{
    if r is Ok {
        let v = r->Ok_0@;
        let t = texts(v);
        assert(t.len() == v.len());
        assert(t[0] == v[0]@ && t[1] == v[1]@);
        if input {
            assert(t[2] == v[2]@ && t[3] == v[3]@ && t[4] == v[4]@ && t[5] == v[5]@ && t[6]
                == v[6]@);
        }
    }
}

/// The windows of the desktop are noted in the order of their numbers, each with its process,
/// its focus and its place, and none is left out or added.
pub proof fn windows_are_noted_by_number(
    outputs: Json,
    windows: Vec<WindowPlace>,
    r: Geometry,
    i: int,
    j: int,
)
    requires
        call_ensures(Geometry::new, (outputs, windows), r),
        0 <= i < windows@.len(),
        0 <= j < r.windows@.len(),
    ensures
        r.outputs@ == outputs@,
        forall|a: int, b: int|
            0 <= a < b < r.windows@.len() ==> (#[trigger] r.windows@[a]).id <= (
            #[trigger] r.windows@[b]).id,
        exists|k: int| {
            &&& 0 <= k < r.windows@.len()
            &&& (#[trigger] r.windows@[k]).id == windows@[i].id
            &&& r.windows@[k].pid == windows@[i].pid
            &&& r.windows@[k].focused == windows@[i].focused
            &&& r.windows@[k].layout@ == windows@[i].layout@
        },
        exists|k: int| {
            &&& 0 <= k < windows@.len()
            &&& (#[trigger] windows@[k]).id == r.windows@[j].id
            &&& windows@[k].pid == r.windows@[j].pid
            &&& windows@[k].focused == r.windows@[j].focused
            &&& windows@[k].layout@ == r.windows@[j].layout@
        },
{
    let given = places_view(windows@);
    let noted = places_view(r.windows@);
    assert forall|a: int, b: int| 0 <= a < b < r.windows@.len() implies (
    #[trigger] r.windows@[a]).id <= (#[trigger] r.windows@[b]).id by {
        assert(noted[a].id == r.windows@[a].id && noted[b].id == r.windows@[b].id);
    }
    let here = windows@[i].id;
    assert(given[i] == windows@[i]@);
    given.lemma_filter_contains(|w: crate::backend::desktop::PlaceView| w.id == here, i);
    assert(with_number(noted, here) == with_number(given, here));
    noted.lemma_filter_contains_rev(
        |w: crate::backend::desktop::PlaceView| w.id == here,
        given[i],
    );
    let k = choose|k: int| 0 <= k < noted.len() && noted[k] == given[i];
    assert(noted[k] == r.windows@[k]@);
    assert(r.windows@[k].id == windows@[i].id);
    let there = r.windows@[j].id;
    assert(noted[j] == r.windows@[j]@);
    noted.lemma_filter_contains(|w: crate::backend::desktop::PlaceView| w.id == there, j);
    assert(with_number(noted, there) == with_number(given, there));
    given.lemma_filter_contains_rev(
        |w: crate::backend::desktop::PlaceView| w.id == there,
        noted[j],
    );
    let m = choose|m: int| 0 <= m < given.len() && given[m] == noted[j];
    assert(given[m] == windows@[m]@);
    assert(windows@[m].id == r.windows@[j].id);
}

/// Nothing moved only if every window is the same, of the same process and with the same focus,
/// and there are as many.
pub proof fn moved_windows_are_noticed(a: Geometry, b: Geometry, r: bool, k: int)
    requires
        call_ensures(Geometry::means, (&a, &b), r),
    ensures
        r ==> a.windows@.len() == b.windows@.len(),
        r && 0 <= k < a.windows@.len() ==> {
            &&& a.windows@[k].id == b.windows@[k].id
            &&& a.windows@[k].pid == b.windows@[k].pid
            &&& a.windows@[k].focused == b.windows@[k].focused
        },
{
    assert(a@.windows.len() == a.windows@.len() && b@.windows.len() == b.windows@.len());
    if r && 0 <= k < a.windows@.len() {
        assert(a@.windows[k] == a.windows@[k]@ && b@.windows[k] == b.windows@[k]@);
        assert(crate::backend::desktop::in_place(a@.windows[k], b@.windows[k]));
    }
}

/// A picture counts exactly if nothing moved meanwhile and the displays stayed the same; an
/// action holds exactly if that is so since the latest observation, and only once.
pub proof fn pictures_of_the_desktop_count_if_nothing_moved(
    before: Geometry,
    after: Geometry,
    from: u64,
    to: u64,
    same: bool,
    still: Result<(), Fault>,
    d: Desktop,
    held: Result<(), Fault>,
    used: Desktop,
    next: Result<(), Fault>,
    alive: bool,
    there: Result<(), Fault>,
)
    requires
        call_ensures(Geometry::means, (&before, &after), same),
        call_ensures(check_still, (&before, &after, from, to), still),
        d.geometry == Some(before),
        d.output_revision == Some(from),
        call_ensures(Desktop::check_layout, (&d, &after, to), held),
        exists|x: &mut Desktop|
            *x == d && *final(x) == used && #[trigger] call_ensures(Desktop::acted, (x,), ()),
        call_ensures(Desktop::check_layout, (&used, &after, to), next),
        call_ensures(check_compositor, (alive,), there),
    ensures
        still is Ok <==> same && from == to,
        held is Ok <==> same && from == to,
        next is Err,
        still matches Err(e) ==> e.code == ErrorCode::StaleTarget,
        held matches Err(e) ==> e.code == ErrorCode::StaleTarget,
        there is Ok <==> alive,
        there matches Err(e) ==> e.code == ErrorCode::StaleTarget
            && e.message@ == "niri 会话已经退出"@,
        used.windows == d.windows && used.output_ids == d.output_ids && used.output_globals
            == d.output_globals,
{
}

/// An observation of a display says which one it is, how large its picture is, and which windows
/// there are; what it was taken of is kept for the next action.
pub proof fn observations_of_the_desktop_are_kept(
    before: Desktop,
    after: Desktop,
    id: String,
    reference: String,
    name: String,
    picture: (String, u32, u32),
    scale: Binary64,
    windows: Vec<Target>,
    geometry: Geometry,
    revision: u64,
    r: Observation,
    k: int,
)
    requires
        exists|x: &mut Desktop|
            *x == before && *final(x) == after && #[trigger] call_ensures(
                Desktop::observed,
                (x, id, reference, name, picture, scale, windows, geometry, revision),
                r,
            ),
    ensures
        r.observation_id@ == id@,
        r.target.id@ == reference@,
        r.target.label@ == name@,
        r.target.width == picture.1,
        r.target.height == picture.2,
        r.target.scale == scale,
        r.png_base64 matches Some(png) && png@ == picture.0@,
        r.nodes@.len() == 0,
        r.windows@.len() == windows@.len(),
        0 <= k < windows@.len() ==> r.windows@[k].id@ == windows@[k].id@
            && r.windows@[k].label@ == windows@[k].label@,
        after.geometry == Some(geometry),
        after.output_revision == Some(revision),
        after.windows == before.windows && after.output_ids == before.output_ids,
{
    assert(r@.windows.len() == r.windows@.len());
    assert(r@.nodes.len() == r.nodes@.len());
    if 0 <= k < windows@.len() {
        assert(r@.windows[k] == r.windows@[k]@);
        assert(targets_view(windows@)[k] == windows@[k]@);
    }
}

/// A display that vanished has no reference any more; one that stayed keeps its own, and one
/// that came back under another number has a new one.
pub proof fn references_follow_their_displays(
    before: Desktop,
    after: Desktop,
    outputs: &Vec<Output>,
    fresh: &Vec<String>,
    i: int,
    gone: Seq<char>,
)
    requires
        exists|x: &mut Desktop|
            *x == before && *final(x) == after && #[trigger] call_ensures(
                Desktop::refresh_with,
                (x, outputs, fresh),
                (),
            ),
        names_of(outputs@).no_duplicates(),
        0 <= i < outputs@.len(),
        forall|k: int| 0 <= k < outputs@.len() ==> (#[trigger] outputs@[k]).name@ != gone,
    ensures
        !after.output_ids@.dom().contains(gone),
        ({
            let name = outputs@[i].name@;
            let known = before.output_globals@.dom().contains(name) && before.output_globals@[name]
                == outputs@[i].global;
            if known {
                &&& after.output_ids@.dom().contains(name)
                    == before.output_ids@.dom().contains(name)
                &&& before.output_ids@.dom().contains(name) ==> after.output_ids@[name]
                    == before.output_ids@[name]
            } else {
                after.output_ids@.dom().contains(name) && after.output_ids@[name] == fresh@[i]
            }
        }),
        after.windows == before.windows && after.geometry == before.geometry
            && after.output_revision == before.output_revision,
{
    let d = before.displays();
    assert(after.displays() == refreshed(d, outputs@, fresh@));
    assert(!names_of(outputs@).contains(gone)) by {
        if names_of(outputs@).contains(gone) {
            let k = choose|k: int| 0 <= k < outputs@.len() && names_of(outputs@)[k] == gone;
            assert(outputs@[k].name@ == gone);
        }
    }
    vanished_displays_lose_their_reference(d, outputs@, fresh@, gone);
    reconnected_displays_get_a_new_reference(d, outputs@, fresh@, i);
    assert(after.displays().ids == after.output_ids@);
}

/// A client sees the display that its reference stands for, and only one it was given; without
/// a reference it sees the first by name.
pub proof fn references_stand_for_their_display(
    d: Desktop,
    id: &str,
    picked: Result<String, Fault>,
    found: Result<String, Fault>,
    first: Result<String, Fault>,
    name: Seq<char>,
)
    requires
        d.wf(),
        call_ensures(Desktop::pick_output, (&d, Some(id)), picked),
        call_ensures(Desktop::find_output, (&d, id), found),
        call_ensures(Desktop::pick_output, (&d, None::<&str>), first),
    ensures
        picked matches Ok(n) ==> d.output_ids@.dom().contains(n@) && d.output_ids@[n@]@ == id@,
        found matches Ok(n) ==> d.output_ids@.dom().contains(n@) && d.output_ids@[n@]@ == id@,
        d.output_ids@.dom().contains(name) && d.output_ids@[name]@ == id@ ==> picked is Ok
            && found is Ok && first is Ok,
        first matches Ok(n) ==> d.output_ids@.dom().contains(n@),
        first matches Ok(n) ==> (d.output_ids@.dom().contains(name) ==> !precedes(name, n@)),
        picked matches Err(e) ==> e.code == ErrorCode::PermissionDenied,
        found matches Err(e) ==> e.code == ErrorCode::StaleTarget,
        first matches Err(e) ==> e.code == ErrorCode::BackendUnavailable,
{
    if first is Err {
        assert(!d.output_ids@.dom().contains(name));
    }
}

/// A reference to a display is made once: later it is the one that was made.
pub proof fn references_are_made_once(
    before: Desktop,
    after: Desktop,
    name: &str,
    fresh: String,
    r: String,
    again: Desktop,
    other: String,
    s: String,
)
    requires
        before.wf(),
        exists|x: &mut Desktop|
            *x == before && *final(x) == after && #[trigger] call_ensures(
                Desktop::reference_with,
                (x, name, fresh),
                r,
            ),
        exists|x: &mut Desktop|
            *x == after && *final(x) == again && #[trigger] call_ensures(
                Desktop::reference_with,
                (x, name, other),
                s,
            ),
    ensures
        s@ == r@,
        again.output_ids@ == after.output_ids@,
        before.output_ids@.dom().contains(name@) ==> r@ == before.output_ids@[name@]@ && after
            == before,
        !before.output_ids@.dom().contains(name@) ==> r@ == fresh@,
        after.windows == before.windows && after.geometry == before.geometry,
{
}

proof fn lemma_listed(targets: Seq<crate::model::TargetView>, windows: Seq<DesktopWindow>, i: int)
    requires
        targets.len() == windows.len(),
        0 <= i < targets.len(),
        forall|j: int| i < j < targets.len() ==> (#[trigger] targets[j]).id != targets[i].id,
    ensures
        listed(targets, windows).dom().contains(targets[i].id),
        listed(targets, windows)[targets[i].id] == windows[i].id,
    decreases targets.len(),
{
    if i < targets.len() - 1 {
        let t = targets.drop_last();
        let w = windows.drop_last();
        assert forall|j: int| i < j < t.len() implies (#[trigger] t[j]).id != t[i].id by {
            assert(t[j] == targets[j]);
        }
        lemma_listed(t, w, i);
        assert(targets.last() == targets[targets.len() - 1]);
        assert(targets.last().id != targets[i].id);
    }
}

/// Windows are listed in their order, labelled by application and title; a window that was known
/// keeps a reference of its own, and each reference then stands for its window.
pub proof fn windows_keep_their_references(
    before: Desktop,
    after: Desktop,
    windows: &Vec<DesktopWindow>,
    fresh: &Vec<String>,
    r: Vec<Target>,
    i: int,
    reference: &str,
    w: Result<u64, Fault>,
    id: u64,
    there: Result<(), Fault>,
)
    requires
        before.wf(),
        fresh@.len() == windows@.len(),
        exists|x: &mut Desktop|
            *x == before && *final(x) == after && #[trigger] call_ensures(
                Desktop::list_with,
                (x, windows, fresh),
                r,
            ),
        0 <= i < windows@.len(),
        forall|j: int| i < j < r@.len() ==> (#[trigger] r@[j]).id@ != r@[i].id@,
        reference@ == r@[i].id@,
        call_ensures(Desktop::window, (&after, reference), w),
        call_ensures(Desktop::still_there, (&after, reference, id), there),
    ensures
        r@.len() == windows@.len(),
        r@[i].width == 0 && r@[i].height == 0 && r@[i].scale.value() == unit(),
        (windows@[i].app_id matches Some(a) && (windows@[i].title matches Some(t) && r@[i].label@
            == a@ + " — "@ + t@)) || windows@[i].app_id is None || windows@[i].title is None,
        w matches Ok(n) && n == windows@[i].id,
        there is Ok <==> id == windows@[i].id,
        before.windows@.dom().contains(reference@) || reference@ == fresh@[i]@,
        before.windows@.dom().contains(reference@) && reference@ != fresh@[i]@ ==>
            before.windows@[reference@] == windows@[i].id,
        after.output_ids == before.output_ids && after.geometry == before.geometry,
{
    let t = targets_view(r@);
    assert(t.len() == r@.len());
    assert(t[i] == r@[i]@);
    assert forall|j: int| i < j < t.len() implies (#[trigger] t[j]).id != t[i].id by {
        assert(t[j] == r@[j]@);
    }
    lemma_listed(t, windows@, i);
    assert(r@[i].label@ == crate::backend::desktop::label_of(windows@[i]));
}

/// A display's scale is what the compositor reports of it, or else its own.
pub proof fn reported_scales_come_first(g: Geometry, name: &str, own: i32, r: Binary64)
    requires
        call_ensures(Geometry::scale_of, (&g, name, own), r),
    ensures
        ({
            let said = g.outputs@.field("Outputs"@).field(name@).field("logical"@).field(
                "scale"@,
            ).float();
            &&& said matches Some(s) ==> r == s
            &&& said is None ==> r.finite() && r.value() == own * unit()
        }),
{
}

/// A table gives back what was put in under a name, keeps the rest, and forgets what is taken
/// out.
pub proof fn tables_give_back_what_was_put_in<V>(
    before: Table<V>,
    after: Table<V>,
    key: String,
    value: V,
    name: &str,
    r: Option<&V>,
    was: Option<&V>,
    taken: Table<V>,
    out: Option<V>,
    left: Option<&V>,
)
    requires
        before.wf(),
        exists|t: &mut Table<V>|
            *t == before && *final(t) == after && #[trigger] call_ensures(
                Table::<V>::insert,
                (t, key, value),
                (),
            ),
        call_ensures(Table::<V>::get, (&after, name), r),
        call_ensures(Table::<V>::get, (&before, name), was),
        exists|t: &mut Table<V>|
            *t == after && *final(t) == taken && #[trigger] call_ensures(
                Table::<V>::take,
                (t, name),
                out,
            ),
        call_ensures(Table::<V>::get, (&taken, name), left),
    ensures
        name@ == key@ ==> (r matches Some(v) && *v == value),
        name@ != key@ ==> (r is Some == was is Some),
        name@ != key@ && r is Some ==> *r->0 == *was->0,
        out is Some == r is Some,
        out matches Some(v) ==> v == *r->0,
        left is None,
{
}

} // verus!
