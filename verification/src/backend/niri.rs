//! Answers of the niri compositor, line by line.
use niri_ipc::{CastKind as Kind, CastTarget as Shown, Reply, Response};
use serde_json::{from_slice, to_value};
use vstd::prelude::*;

use crate::backend::accessibility::DesktopWindow;
use crate::backend::cast_watch::{casts_view, Cast, CastKind, CastTarget, CastView};
use crate::backend::desktop::{
    places_view, put_in_numbers, Geometry, PlaceView, WindowPlace,
};
use crate::json::{held, hold, Json, JsonView};
use crate::model::{optional, ErrorCode, Fault};

verus! {

/// A window as the compositor lists it. Its layout is kept as the crate writes it.
pub struct NiriWindow {
    pub id: u64,
    pub pid: Option<i32>,
    pub title: Option<String>,
    pub app_id: Option<String>,
    pub layout: serde_json::Value,
    pub focused: bool,
}

/// A window by its values.
#[verifier::ext_equal]
pub struct NiriWindowView {
    pub id: u64,
    pub pid: Option<i32>,
    pub title: Option<Seq<char>>,
    pub app_id: Option<Seq<char>>,
    pub layout: JsonView,
    pub focused: bool,
}

impl View for NiriWindow {
    type V = NiriWindowView;

    open spec fn view(&self) -> NiriWindowView {
        NiriWindowView {
            id: self.id,
            pid: self.pid,
            title: optional(self.title),
            app_id: optional(self.app_id),
            layout: held(self.layout),
            focused: self.focused,
        }
    }
}

/// Windows by their values.
pub open spec fn listed_view(v: Seq<NiriWindow>) -> Seq<NiriWindowView> {
    v.map_values(|w: NiriWindow| w@)
}

/// The windows that an answer lists, if it lists any, or why it is no answer.
pub uninterp spec fn windows_of_reply(line: Seq<u8>) -> Result<
    Option<Seq<NiriWindowView>>,
    Seq<char>,
>;

/// `serde_json::from_slice` into a `niri_ipc::Reply`, for its windows. An error is the
/// compositor's or the crate's, as a text. What the two crates make of the line depends on
/// nothing else and is left to the name `windows_of_reply`.
#[verifier::external_body]
fn read_windows(line: &Vec<u8>) -> (r: Result<Option<Vec<NiriWindow>>, String>)
    ensures
        match windows_of_reply(line@) {
            Ok(Some(v)) => r matches Ok(Some(w)) && listed_view(w@) == v,
            Ok(None) => r matches Ok(None),
            Err(m) => r matches Err(e) && e@ == m,
        },
{
    let plain = |w: niri_ipc::Window| Ok(NiriWindow { id: w.id, pid: w.pid, title: w.title, app_id: w.app_id,
        layout: to_value(w.layout).map_err(|e| e.to_string())?, focused: w.is_focused });
    match from_slice::<Reply>(line).map_err(|e| e.to_string())?? {
        Response::Windows(v) => v.into_iter().map(plain).collect::<Result<Vec<_>, _>>().map(Some),
        _ => Ok(None),
    }
}

/// The captures that an answer lists, if it lists any, or why it is no answer.
pub uninterp spec fn casts_of_reply(line: Seq<u8>) -> Result<Option<Seq<CastView>>, Seq<char>>;

/// `serde_json::from_slice` into a `niri_ipc::Reply`, for its captures. An error is the
/// compositor's or the crate's, as a text. What the two crates make of the line depends on
/// nothing else and is left to the name `casts_of_reply`.
#[verifier::external_body]
fn read_casts(line: &Vec<u8>) -> (r: Result<Option<Vec<Cast>>, String>)
    ensures
        match casts_of_reply(line@) {
            Ok(Some(v)) => r matches Ok(Some(c)) && casts_view(c@) == v,
            Ok(None) => r matches Ok(None),
            Err(m) => r matches Err(e) && e@ == m,
        },
{
    let plain = |c: niri_ipc::Cast| Cast { stream_id: c.stream_id, session_id: c.session_id,
        kind: match c.kind { Kind::PipeWire => CastKind::PipeWire, Kind::WlrScreencopy => CastKind::WlrScreencopy },
        target: match c.target { Shown::Nothing {} => CastTarget::Nothing,
            Shown::Output { name } => CastTarget::Output { name }, Shown::Window { id } => CastTarget::Window { id } },
        is_dynamic_target: c.is_dynamic_target, pw_node_id: c.pw_node_id };
    Ok(match from_slice::<Reply>(line).map_err(|e| e.to_string())?? {
        Response::Casts(v) => Some(v.into_iter().map(plain).collect()),
        _ => None,
    })
}

/// What an answer says, as the crate writes it, or why it is no answer.
pub uninterp spec fn response_of(line: Seq<u8>) -> Result<JsonView, Seq<char>>;

/// `serde_json::from_slice` into a `niri_ipc::Reply`, and `serde_json::to_value` of the
/// `niri_ipc::Response` in it. An error is the compositor's or the crate's, as a text. What the
/// two crates make of the line depends on nothing else and is left to the name `response_of`.
#[verifier::external_body]
fn read_response(line: &Vec<u8>) -> (r: Result<serde_json::Value, String>)
    ensures
        match response_of(line@) {
            Ok(v) => r matches Ok(tree) && held(tree) == v,
            Err(m) => r matches Err(e) && e@ == m,
        },
{
    to_value(from_slice::<Reply>(line).map_err(|e| e.to_string())??).map_err(|e| e.to_string())
}

/// Reads the windows that the compositor lists.
pub fn niri_windows(line: &Vec<u8>, otherwise: &str) -> (r: Result<Vec<NiriWindow>, Fault>)
    ensures
        match windows_of_reply(line@) {
            Ok(Some(v)) => r matches Ok(w) && listed_view(w@) == v,
            Ok(None) => r matches Err(e) && e.says(ErrorCode::BackendUnavailable, otherwise@),
            Err(m) => r matches Err(e) && e.says(ErrorCode::BackendUnavailable, m),
        },
{
    match read_windows(line) {
        Ok(Some(windows)) => Ok(windows),
        Ok(None) => Err(Fault::unavailable(otherwise)),
        Err(m) => Err(Fault::unavailable(m.as_str())),
    }
}

/// Reads the captures that the compositor lists; any other answer is the given fault.
pub fn niri_casts(line: &Vec<u8>, otherwise: Fault) -> (r: Result<Vec<Cast>, Fault>)
    ensures
        match casts_of_reply(line@) {
            Ok(Some(v)) => r matches Ok(c) && casts_view(c@) == v,
            Ok(None) => r == Err::<Vec<Cast>, Fault>(otherwise),
            Err(m) => r matches Err(e) && e.says(ErrorCode::BackendUnavailable, m),
        },
{
    match read_casts(line) {
        Ok(Some(casts)) => Ok(casts),
        Ok(None) => Err(otherwise),
        Err(m) => Err(Fault::unavailable(m.as_str())),
    }
}

/// Reads how the compositor describes its outputs, or whatever else it answered.
pub fn niri_outputs(line: &Vec<u8>) -> (r: Result<Json, Fault>)
    ensures
        match response_of(line@) {
            Ok(v) => r matches Ok(j) && j@ == v,
            Err(m) => r matches Err(e) && e.says(ErrorCode::BackendUnavailable, m),
        },
{
    match read_response(line) {
        Ok(tree) => Ok(hold(tree)),
        Err(m) => Err(Fault::unavailable(m.as_str())),
    }
}

/// A window without its place.
pub open spec fn shown_window(w: NiriWindow) -> DesktopWindow {
    DesktopWindow { id: w.id, pid: w.pid, title: w.title, app_id: w.app_id }
}

/// The windows without their places, one for one.
pub fn desktop_windows(windows: Vec<NiriWindow>) -> (r: Vec<DesktopWindow>)
    ensures
        r@ == windows@.map_values(|w: NiriWindow| shown_window(w)),
{
    let ghost f = |w: NiriWindow| shown_window(w);
    let ghost all = windows@;
    let mut rest = windows;
    let mut out: Vec<DesktopWindow> = Vec::new();
    let ghost mut done: int = 0;
    assert(all.skip(0) =~= all);
    while rest.len() > 0
        invariant
            0 <= done <= all.len(),
            f == (|w: NiriWindow| shown_window(w)),
            rest@ == all.skip(done),
            out@ == all.take(done).map_values(f),
        decreases rest@.len(),
    {
        let w = rest.remove(0);
        assert(w == all[done]);
        out.push(DesktopWindow { id: w.id, pid: w.pid, title: w.title, app_id: w.app_id });
        proof {
            assert(rest@ =~= all.skip(done + 1));
            assert(out@ =~= all.take(done + 1).map_values(f));
            done = done + 1;
        }
    }
    assert(all.take(done) =~= all);
    out
}

/// Where a window is.
pub open spec fn place_of(w: NiriWindowView) -> PlaceView {
    PlaceView { id: w.id, pid: w.pid, layout: w.layout, focused: w.focused }
}

/// Where everything on the desktop is, by what the compositor answered.
pub fn topology(outputs: Json, windows: Vec<NiriWindow>) -> (r: Geometry)
    ensures
        r@.outputs == outputs@,
        put_in_numbers(
            listed_view(windows@).map_values(|w: NiriWindowView| place_of(w)),
            r@.windows,
        ),
{
    let ghost f = |w: NiriWindowView| place_of(w);
    let ghost all = listed_view(windows@);
    let mut rest = windows;
    let mut places: Vec<WindowPlace> = Vec::new();
    let ghost mut done: int = 0;
    assert(all.skip(0) =~= all);
    assert(places_view(places@) =~= all.take(0).map_values(f));
    while rest.len() > 0
        invariant
            0 <= done <= all.len(),
            f == (|w: NiriWindowView| place_of(w)),
            listed_view(rest@) == all.skip(done),
            places_view(places@) == all.take(done).map_values(f),
        decreases rest@.len(),
    {
        let ghost were = rest@;
        assert(listed_view(were).len() == were.len());
        let w = rest.remove(0);
        assert(listed_view(were)[0] == w@);
        let layout = hold(w.layout);
        let ghost was = places@;
        places.push(WindowPlace { id: w.id, pid: w.pid, layout, focused: w.focused });
        proof {
            assert(listed_view(rest@) =~= listed_view(were).remove(0));
            assert(listed_view(rest@) =~= all.skip(done + 1));
            assert(places_view(places@) =~= places_view(was).push(place_of(w@)));
            assert(all.take(done + 1).map_values(f) =~= all.take(done).map_values(f).push(
                f(all[done]),
            ));
            done = done + 1;
        }
    }
    assert(listed_view(rest@).len() == rest@.len());
    assert(all.take(done) =~= all);
    Geometry::new(outputs, places)
}

} // verus!
