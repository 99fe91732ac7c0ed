//! How an isolated session is started, and what becomes of its processes.
use vstd::prelude::*;

use crate::backend::launch::{
    activation_arguments, application_settings, await_window, bus_address, bus_arguments,
    bus_config, bus_pid, candidates, candidates_of, check_activation, check_launcher,
    compositor_config, compositor_removed, compositor_settings, device_paths, devices,
    display_name, find_own, first_name, first_own, is_leftover, is_note, is_render_node,
    message_name, own_process, read_renderer, reaped, recoverable, renderer_label, renderer_name,
    sockets, start_step, state_dir, usable_paths, Attempts, Device, Launch, Ran, Renderer,
    StartStep,
};
use crate::backend::process::ProcessIdentity;
use crate::backend::sway::{
    owned_view, place, settings_view, tree_view, Application, OwnedWindow, SavedSession, Setting,
    TreeWindow,
};
use crate::model::{ErrorCode, Fault};
use crate::path::route;
use crate::text::{numeral, parse_number, texts, trim};

verus! {

/// A session that ended leaves its compositor and its bus to be ended, in this order; one whose
/// application runs is left alone. It can be taken up again while compositor and application
/// run.
pub proof fn running_applications_are_never_ended(
    saved: &SavedSession,
    app: bool,
    sway: bool,
    r: Vec<ProcessIdentity>,
    again: bool,
)
    requires
        call_ensures(reaped, (saved, app), r),
        call_ensures(recoverable, (sway, app), again),
    ensures
        app ==> r@.len() == 0,
        !app ==> {
            &&& r@.len() == 2
            &&& r@[0].pid == saved.sway.pid && r@[0].start_time == saved.sway.start_time
            &&& r@[1].pid == saved.bus.pid && r@[1].start_time == saved.bus.start_time
        },
        again <==> sway && app,
{
    if !app {
        assert(r@[0]@ == saved.sway@ && r@[1]@ == saved.bus@);
    }
}

/// A launch knows the processes that were started for it, and ends them in the opposite order if
/// it is given up; once it stands, it ends none.
pub proof fn launches_end_what_they_started(
    root: &Vec<u8>,
    id: String,
    application: Application,
    fresh: Launch,
    before: Launch,
    after: Launch,
    process: ProcessIdentity,
    doomed: Vec<ProcessIdentity>,
    released: Launch,
    none: Vec<ProcessIdentity>,
    note: String,
    k: int,
)
    requires
        id@.len() >= 12,
        call_ensures(Launch::begin_as, (id, root, application), fresh),
        exists|l: &mut Launch|
            *l == before && *final(l) == after && #[trigger] call_ensures(
                Launch::add,
                (l, process),
                (),
            ),
        call_ensures(Launch::doomed, (&after,), doomed),
        exists|l: &mut Launch|
            *l == after && *final(l) == released && #[trigger] call_ensures(
                Launch::release,
                (l,),
                (),
            ),
        call_ensures(Launch::doomed, (&released,), none),
        call_ensures(Launch::note, (&before,), note),
        0 <= k < before.started@.len(),
    ensures
        fresh.id == id && fresh.application == application && fresh.started@.len() == 0,
        after.started@ == before.started@.push(process),
        after.id == before.id && after.runtime == before.runtime,
        doomed@.len() == before.started@.len() + 1,
        doomed@[0]@ == process@,
        doomed@[doomed@.len() - 1 - k]@ == before.started@[k]@,
        none@.len() == 0,
        note@ == before.id@ + ".json"@,
{
    assert(after.started@[k] == before.started@[k]);
    assert(after.started@[after.started@.len() - 1] == process);
}

/// The bus is known by the number that it printed; a program that failed, printed none, or did
/// not start gives a fault.
pub proof fn the_bus_is_known_by_the_number_it_printed(
    out: Ran,
    stdout: &str,
    trimmed: String,
    text: &str,
    n: Option<u64>,
    r: Result<u32, Fault>,
    message: String,
    failed: Result<u32, Fault>,
)
    requires
        call_ensures(bus_pid, (Ok::<Ran, String>(out),), r),
        stdout@ == out.stdout@,
        call_ensures(trim, (stdout,), trimmed),
        text@ == trimmed@,
        call_ensures(parse_number, (text, u32::MAX as u64), n),
        call_ensures(bus_pid, (Err::<Ran, String>(message),), failed),
    ensures
        r is Ok <==> out.success && n is Some,
        r matches Ok(pid) ==> Some(pid as u64) == n,
        r matches Err(e) ==> e.code == ErrorCode::BackendUnavailable,
        !out.success ==> r->Err_0.message@ == out.stderr@,
        failed matches Err(e) && e.code == ErrorCode::BackendUnavailable,
{
}

/// The bus listens below the session's own directory, and lets in the one user.
pub proof fn the_bus_is_for_one_user(
    runtime: &str,
    address: String,
    bus: &str,
    uid: u32,
    config: String,
    path: &str,
    args: Vec<String>,
)
    requires
        call_ensures(bus_address, (runtime,), address),
        call_ensures(bus_config, (bus, uid), config),
        call_ensures(bus_arguments, (path,), args),
    ensures
        address@ == "unix:path="@ + runtime@ + "/bus"@,
        config@ == "<busconfig><type>session</type><listen>"@ + bus@
            + "</listen><auth>EXTERNAL</auth><standard_session_servicedirs/><policy context=\"default\"><allow user=\""@
            + numeral(uid as nat, 10)
            + "\"/><allow own=\"*\"/><allow send_destination=\"*\"/><allow receive_sender=\"*\"/></policy></busconfig>"@,
        args@.len() == 3,
        args@[0]@ == "--config-file="@ + path@,
        args@[1]@ == "--fork"@,
        args@[2]@ == "--print-pid=1"@,
{
    let t = texts(args@);
    assert(t.len() == args@.len());
    assert(t[0] == args@[0]@ && t[1] == args@[1]@ && t[2] == args@[2]@);
}

/// Services and the application are told of the session's own displays.
pub proof fn programs_are_told_of_the_sessions_displays(
    wayland: &str,
    display: &str,
    told: Vec<String>,
    socket: &Vec<u8>,
    settings: Vec<Setting>,
    ran: Result<bool, String>,
    r: Result<(), Fault>,
)
    requires
        call_ensures(activation_arguments, (wayland, display), told),
        call_ensures(application_settings, (socket, display), settings),
        call_ensures(check_activation, (ran,), r),
    ensures
        told@.len() == 2,
        told@[0]@ == "WAYLAND_DISPLAY="@ + wayland@,
        told@[1]@ == "DISPLAY="@ + display@,
        settings@.len() == 3,
        settings@[0].name@ == "WAYLAND_DISPLAY"@ && settings@[0].value@ == socket@,
        settings@[1].name@ == "DISPLAY"@ && settings@[1].value@ == vstd::utf8::encode_utf8(
            display@,
        ),
        settings@[2].name@ == "MOZ_ENABLE_WAYLAND"@ && settings@[2].value@
            == vstd::utf8::encode_utf8("1"@),
        r is Ok <==> ran matches Ok(true),
        r matches Err(e) ==> e.code == ErrorCode::BackendUnavailable,
{
    let t = texts(told@);
    assert(t.len() == told@.len());
    assert(t[0] == told@[0]@ && t[1] == told@[1]@);
    let v = settings_view(settings@);
    assert(v.len() == settings@.len());
    assert(v[0].0 == settings@[0].name@ && v[1].0 == settings@[1].name@ && v[2].0
        == settings@[2].name@);
}

/// A launcher that ended without a window is a fault; a window is waited for until it is late.
pub proof fn windows_are_awaited_while_there_is_time(
    found: Option<(u32, bool)>,
    late: bool,
    r: Result<Option<(u32, bool)>, Fault>,
    ended: Option<&str>,
    log: &str,
    runs: Result<(), Fault>,
)
    requires
        call_ensures(await_window, (found, late), r),
        call_ensures(check_launcher, (ended, log), runs),
    ensures
        r is Err <==> found is None && late,
        r matches Ok(f) ==> f == found,
        r matches Err(e) ==> e.code == ErrorCode::BackendUnavailable
            && e.message@ == "应用未创建可验证窗口；若个人配置被其他实例占用，请先关闭该应用再重试"@,
        runs is Err <==> ended is Some,
        runs matches Err(e) ==> e.code == ErrorCode::BackendUnavailable,
{
}

proof fn lemma_first_own(
    list: Seq<crate::backend::sway::TreeWindowView>,
    descends: Seq<bool>,
    xwindows: Seq<crate::backend::sway::OwnedView>,
)
    requires
        list.len() == descends.len(),
    ensures
        first_own(list, descends, xwindows) matches Some(p) ==> exists|i: int|
            0 <= i < list.len() && own_process(#[trigger] list[i], descends[i], xwindows) == Some(
                p,
            ),
        first_own(list, descends, xwindows) is None ==> forall|i: int|
            0 <= i < list.len() ==> own_process(#[trigger] list[i], descends[i], xwindows) is None,
    decreases list.len(),
{
    if list.len() > 0 {
        if own_process(list[0], descends[0], xwindows) is Some {
        } else {
            let l = list.drop_first();
            let d = descends.drop_first();
            lemma_first_own(l, d, xwindows);
            if first_own(l, d, xwindows) is Some {
                let p = first_own(l, d, xwindows)->0;
                let i = choose|i: int|
                    0 <= i < l.len() && own_process(#[trigger] l[i], d[i], xwindows) == Some(p);
                assert(list[i + 1] == l[i] && descends[i + 1] == d[i]);
            } else {
                assert forall|i: int| 0 <= i < list.len() implies own_process(
                    #[trigger] list[i],
                    descends[i],
                    xwindows,
                ) is None by {
                    if i > 0 {
                        assert(list[i] == l[i - 1] && descends[i] == d[i - 1]);
                    }
                }
            }
        }
    }
}

/// The application's process is that of a window whose process descends from the launcher, and
/// one is found if there is any.
pub proof fn own_windows_descend_from_the_launcher(
    list: &Vec<TreeWindow>,
    descends: &Vec<bool>,
    xwindows: &Vec<OwnedWindow>,
    r: Option<(u32, bool)>,
    i: int,
)
    requires
        descends@.len() == list@.len(),
        call_ensures(find_own, (list, descends, xwindows), r),
        0 <= i < list@.len(),
    ensures
        r matches Some((pid, false)) ==> exists|k: int| {
            &&& 0 <= k < list@.len()
            &&& (#[trigger] list@[k]).window is None
            &&& descends@[k]
            &&& list@[k].pid matches Some(p)
            &&& pid == p % 0x1_0000_0000
        },
        r matches Some((pid, true)) ==> exists|k: int| {
            &&& 0 <= k < xwindows@.len()
            &&& (#[trigger] xwindows@[k]).descends
            &&& xwindows@[k].window.process.pid == pid
        },
        list@[i].window is None && list@[i].pid is Some && descends@[i] ==> r is Some,
{
    let t = tree_view(list@);
    let x = owned_view(xwindows@);
    lemma_first_own(t, descends@, x);
    assert(t[i] == list@[i]@);
    if r is Some {
        let k = choose|k: int|
            0 <= k < t.len() && own_process(#[trigger] t[k], descends@[k], x) == Some(r->0);
        assert(t[k] == list@[k]@);
        if list@[k].window is Some {
            let id = (list@[k].window->0 % 0x1_0000_0000) as u32;
            lemma_place_bound(x, id);
            let j = place(x, id);
            assert(x[j] == xwindows@[j]@);
            assert(xwindows@[j].descends);
        }
    } else {
        assert(own_process(t[i], descends@[i], x) is None);
    }
}

proof fn lemma_place_bound(xwindows: Seq<crate::backend::sway::OwnedView>, id: u32)
    ensures
        0 <= place(xwindows, id) <= xwindows.len(),
    decreases xwindows.len(),
{
    if xwindows.len() > 0 {
        lemma_place_bound(xwindows.drop_first(), id);
    }
}

/// The renderer is the one asked for by name, any one if none is asked for, and an unknown name
/// is refused.
pub proof fn renderers_are_asked_for_by_name(
    name: &str,
    r: Result<Renderer, Fault>,
    none: Result<Renderer, Fault>,
)
    requires
        call_ensures(read_renderer, (Some(name),), r),
        call_ensures(read_renderer, (None::<&str>,), none),
    ensures
        r matches Ok(Renderer::Auto) ==> name@ == "auto"@,
        r matches Ok(Renderer::Gles2) ==> name@ == "gles2"@,
        r matches Ok(Renderer::Pixman) ==> name@ == "pixman"@,
        name@ == "auto"@ || name@ == "gles2"@ || name@ == "pixman"@ ==> r is Ok,
        none matches Ok(Renderer::Auto),
        r matches Err(e) ==> e.code == ErrorCode::BackendUnavailable
            && e.message@ == "COMPUTER_USE_RENDERER 必须为 auto、gles2 或 pixman"@,
{
}

proof fn lemma_usable(devices: Seq<Device>, i: int)
    requires
        0 <= i < devices.len(),
        devices[i].usable,
    ensures
        exists|k: int|
            0 <= k < usable_paths(devices).len() && #[trigger] usable_paths(devices)[k] == Some(
                devices[i].path@,
            ),
    decreases devices.len(),
{
    let rest = devices.drop_last();
    let u = usable_paths(devices);
    if i == devices.len() - 1 {
        assert(u[u.len() - 1] == Some(devices[i].path@));
    } else {
        assert(rest[i] == devices[i]);
        lemma_usable(rest, i);
        let w = usable_paths(rest);
        let k = choose|k: int| 0 <= k < w.len() && #[trigger] w[k] == Some(devices[i].path@);
        assert(u[k] == w[k]);
    }
}

proof fn lemma_only_usable(devices: Seq<Device>, k: int)
    requires
        0 <= k < usable_paths(devices).len(),
    ensures
        exists|i: int| {
            &&& 0 <= i < devices.len()
            &&& (#[trigger] devices[i]).usable
            &&& usable_paths(devices)[k] == Some(devices[i].path@)
        },
    decreases devices.len(),
{
    if devices.len() > 0 {
        let rest = devices.drop_last();
        if k < usable_paths(rest).len() {
            lemma_only_usable(rest, k);
            let i = choose|i: int| {
                &&& 0 <= i < rest.len()
                &&& (#[trigger] rest[i]).usable
                &&& usable_paths(rest)[k] == Some(rest[i].path@)
            };
            assert(devices[i] == rest[i]);
        } else {
            assert(devices[devices.len() - 1].usable);
        }
    }
}

/// Every usable device is tried unless only the processor is wanted, nothing unusable is, and
/// the processor comes last unless only devices are wanted.
pub proof fn usable_devices_are_tried_first(
    renderer: Renderer,
    devices: Vec<Device>,
    r: Vec<Option<Vec<u8>>>,
    i: int,
    k: int,
)
    requires
        call_ensures(candidates, (renderer, devices), r),
        0 <= i < devices@.len(),
        0 <= k < r@.len(),
    ensures
        renderer != Renderer::Pixman && devices@[i].usable ==> exists|n: int|
            0 <= n < r@.len() && ((#[trigger] r@[n]) matches Some(p) && p@ == devices@[i].path@),
        r@[k] matches Some(p) ==> renderer != Renderer::Pixman && exists|n: int|
            0 <= n < devices@.len() && (#[trigger] devices@[n]).usable && devices@[n].path@ == p@,
        r@[k] is None ==> k == r@.len() - 1 && renderer != Renderer::Gles2,
        renderer != Renderer::Gles2 ==> r@.len() > 0 && r@.last() is None,
{
    let v = crate::backend::launch::candidates_view(r@);
    let u = usable_paths(devices@);
    assert(v.len() == r@.len());
    assert(v == candidates_of(renderer, devices@));
    if renderer != Renderer::Pixman && devices@[i].usable {
        lemma_usable(devices@, i);
        let n = choose|n: int| 0 <= n < u.len() && #[trigger] u[n] == Some(devices@[i].path@);
        assert(v[n] == u[n]);
        assert(v[n] == crate::backend::launch::path_view(r@[n]));
        assert(r@[n] is Some);
    }
    assert(v[k] == crate::backend::launch::path_view(r@[k]));
    if r@[k] is Some {
        assert(renderer != Renderer::Pixman && k < u.len());
        assert(v[k] == u[k]);
        lemma_only_usable(devices@, k);
    } else {
        crate::backend::launch::the_processor_is_the_last_resort(renderer, devices@, k);
    }
    if renderer != Renderer::Gles2 {
        let last = r@.len() - 1;
        assert(v[last] is None);
        assert(v[last] == crate::backend::launch::path_view(r@[last]));
    }
}

/// The compositor is told to render as its candidate does: on the device that is named, or on
/// the processor, and nothing else chooses for it.
pub proof fn compositors_render_as_their_candidate(
    path: Vec<u8>,
    with: Vec<Setting>,
    without: Vec<Setting>,
    removed: Vec<String>,
    hardware: bool,
    name: &'static str,
)
    requires
        call_ensures(compositor_settings, (&Some(path),), with),
        call_ensures(compositor_settings, (&None::<Vec<u8>>,), without),
        call_ensures(compositor_removed, (), removed),
        call_ensures(renderer_name, (hardware,), name),
    ensures
        with@.len() == 5,
        with@[0].name@ == "WLR_BACKENDS"@ && with@[0].value@ == vstd::utf8::encode_utf8(
            "headless"@,
        ),
        with@[3].name@ == "WLR_RENDERER"@ && with@[3].value@ == vstd::utf8::encode_utf8("gles2"@),
        with@[4].name@ == "WLR_RENDER_DRM_DEVICE"@ && with@[4].value@ == path@,
        without@.len() == 4,
        without@[0].name@ == "WLR_BACKENDS"@ && without@[0].value@ == vstd::utf8::encode_utf8(
            "headless"@,
        ),
        without@[1].name@ == "WLR_HEADLESS_OUTPUTS"@ && without@[1].value@
            == vstd::utf8::encode_utf8("1"@),
        without@[2].name@ == "WLR_LIBINPUT_NO_DEVICES"@ && without@[2].value@
            == vstd::utf8::encode_utf8("1"@),
        without@[3].name@ == "WLR_RENDERER"@ && without@[3].value@ == vstd::utf8::encode_utf8(
            "pixman"@,
        ),
        texts(removed@).contains("WLR_RENDER_DRM_DEVICE"@),
        texts(removed@).contains("WLR_RENDERER_FORCE_SOFTWARE"@),
        texts(removed@).contains("WLR_RENDERER_ALLOW_SOFTWARE"@),
        name@ == if hardware {
            "gles2"@
        } else {
            "pixman"@
        },
{
    let v = settings_view(with@);
    let w = settings_view(without@);
    assert(v.len() == with@.len() && w.len() == without@.len());
    assert(v[0].0 == with@[0].name@ && v[3].0 == with@[3].name@ && v[4].0 == with@[4].name@);
    assert(w[0].0 == without@[0].name@ && w[1].0 == without@[1].name@ && w[2].0
        == without@[2].name@ && w[3].0 == without@[3].name@);
    let t = texts(removed@);
    assert(t[0] == "WLR_RENDERER_FORCE_SOFTWARE"@ && t[1] == "WLR_RENDERER_ALLOW_SOFTWARE"@
        && t[2] == "WLR_RENDER_DRM_DEVICE"@);
}

proof fn lemma_first(names: Seq<Vec<u8>>, good: spec_fn(Seq<u8>) -> bool)
    ensures
        first_name(names, good) matches Some(n) ==> good(n) && exists|i: int|
            0 <= i < names.len() && (#[trigger] names[i])@ == n,
        first_name(names, good) is None ==> forall|i: int|
            0 <= i < names.len() ==> !good((#[trigger] names[i])@),
    decreases names.len(),
{
    if names.len() > 0 && !good(names[0]@) {
        let rest = names.drop_first();
        lemma_first(rest, good);
        if first_name(rest, good) is Some {
            let n = first_name(rest, good)->0;
            let i = choose|i: int| 0 <= i < rest.len() && (#[trigger] rest[i])@ == n;
            assert(names[i + 1] == rest[i]);
        } else {
            assert forall|i: int| 0 <= i < names.len() implies !good((#[trigger] names[i])@) by {
                if i > 0 {
                    assert(names[i] == rest[i - 1]);
                }
            }
        }
    } else if names.len() > 0 {
        assert(names[0]@ == first_name(names, good)->0);
    }
}

/// The compositor's sockets are found once both are there: one whose name begins with
/// `wayland-` and is no lock, and one from `sway-ipc.` to `.sock`.
pub proof fn sockets_are_found_by_their_names(
    names: &Vec<Vec<u8>>,
    r: Option<(Vec<u8>, Vec<u8>)>,
    i: int,
    j: int,
)
    requires
        call_ensures(sockets, (names,), r),
        0 <= i < names@.len(),
        0 <= j < names@.len(),
    ensures
        r matches Some((d, m)) ==> {
            &&& crate::path::opens_with(d@, vstd::utf8::encode_utf8("wayland-"@))
            &&& !crate::path::closes_with(d@, vstd::utf8::encode_utf8(".lock"@))
            &&& crate::path::opens_with(m@, vstd::utf8::encode_utf8("sway-ipc."@))
            &&& crate::path::closes_with(m@, vstd::utf8::encode_utf8(".sock"@))
            &&& exists|n: int| 0 <= n < names@.len() && (#[trigger] names@[n])@ == d@
            &&& exists|n: int| 0 <= n < names@.len() && (#[trigger] names@[n])@ == m@
        },
        crate::path::opens_with(names@[i]@, vstd::utf8::encode_utf8("wayland-"@))
            && !crate::path::closes_with(names@[i]@, vstd::utf8::encode_utf8(".lock"@))
            && crate::path::opens_with(names@[j]@, vstd::utf8::encode_utf8("sway-ipc."@))
            && crate::path::closes_with(names@[j]@, vstd::utf8::encode_utf8(".sock"@)) ==> r
            is Some,
{
    let display = |n: Seq<u8>| display_name(n);
    let message = |n: Seq<u8>| message_name(n);
    lemma_first(names@, display);
    lemma_first(names@, message);
    if first_name(names@, display) is None {
        assert(!display(names@[i]@));
    }
    if first_name(names@, message) is None {
        assert(!message(names@[j]@));
    }
}

/// A compositor that ended failed, one that answers is ready, and one that does neither is waited
/// for until it is late.
pub proof fn compositors_are_waited_for(ended: bool, answers: bool, late: bool, r: StartStep)
    requires
        call_ensures(start_step, (ended, answers, late), r),
    ensures
        r == StartStep::Ended <==> ended,
        r == StartStep::Ready <==> !ended && answers,
        r == StartStep::Kill <==> !ended && !answers && late,
        r == StartStep::Wait <==> !ended && !answers && !late,
{
}

/// What a failed compositor leaves are its sockets and its note of the X11 display; the bus is
/// not among it. A noted session is a file with a name before `.json`.
pub proof fn failed_compositors_leave_their_sockets(
    name: &Vec<u8>,
    left: bool,
    noted: bool,
)
    requires
        call_ensures(is_leftover, (name,), left),
        call_ensures(is_note, (name,), noted),
    ensures
        left <==> {
            ||| crate::path::opens_with(name@, vstd::utf8::encode_utf8("wayland-"@))
            ||| crate::path::opens_with(name@, vstd::utf8::encode_utf8("sway-ipc."@))
            ||| name@ == vstd::utf8::encode_utf8("x11-display"@)
        },
        noted <==> crate::path::closes_with(name@, vstd::utf8::encode_utf8(".json"@))
            && name@.len() > vstd::utf8::encode_utf8(".json"@).len(),
{
}

/// Every renderer that failed is named when all have failed, in the order of the attempts.
pub proof fn failed_renderers_are_named(
    before: Attempts,
    after: Attempts,
    hardware: bool,
    device: &str,
    log: &str,
    r: Fault,
)
    requires
        exists|a: &mut Attempts|
            *a == before && *final(a) == after && #[trigger] call_ensures(
                Attempts::failed,
                (a, hardware, device),
                (),
            ),
        call_ensures(Attempts::give_up, (&after, log), r),
    ensures
        after.failures@.len() == before.failures@.len() + 1,
        after.failures@.last()@ == (if hardware {
            "gles2"@
        } else {
            "pixman"@
        }) + " "@ + device@,
        r.code == ErrorCode::BackendUnavailable,
        r.message@ == "无法启动独立渲染器（"@ + crate::text::joined(
            texts(after.failures@),
            ", "@,
        ) + "）；请检查 GPU 权限及 "@ + log@,
{
    let t = texts(after.failures@);
    assert(t.len() == after.failures@.len());
    assert(texts(before.failures@).len() == before.failures@.len());
    assert(t.last() == after.failures@.last()@);
}

/// The device that the user names is the only one looked at; otherwise it is those among the
/// files whose names begin with `renderD`, in the order of their paths.
pub proof fn devices_are_the_named_one_or_all(
    device: Vec<u8>,
    names: &Vec<Vec<u8>>,
    r: Vec<Vec<u8>>,
    all: Vec<Vec<u8>>,
)
    requires
        call_ensures(devices, (Some(device), names), r),
        call_ensures(devices, (None::<Vec<u8>>, names), all),
    ensures
        r@.len() == 1 && r@[0]@ == device@,
        crate::path::in_order(all@),
        crate::backend::launch::paths_view(all@).to_multiset() == device_paths(
            names@,
        ).to_multiset(),
{
}

/// A render device is a file of the graphics directory whose name begins with `renderD`.
pub proof fn render_devices_stand_in_the_graphics_directory(path: &Vec<u8>, r: bool)
    requires
        call_ensures(is_render_node, (path,), r),
    ensures
        r <==> {
            let at = route(path@);
            &&& at.absolute
            &&& at.parts.len() == 3
            &&& at.parts[0] == vstd::utf8::encode_utf8("dev"@)
            &&& at.parts[1] == vstd::utf8::encode_utf8("dri"@)
            &&& crate::path::opens_with(at.parts[2], vstd::utf8::encode_utf8("renderD"@))
        },
{
}

/// Users see which renderer a session has, and where its notes are: in their directory for such
/// states, or in the one below their home.
pub proof fn sessions_are_noted_in_the_users_directory(
    device: &str,
    with: String,
    without: String,
    state: Vec<u8>,
    home: Vec<u8>,
    r: Result<Vec<u8>, Fault>,
    s: Result<Vec<u8>, Fault>,
    none: Result<Vec<u8>, Fault>,
)
    requires
        call_ensures(renderer_label, (Some(device),), with),
        call_ensures(renderer_label, (None::<&str>,), without),
        call_ensures(state_dir, (Some(state), Some(home)), r),
        call_ensures(state_dir, (None::<Vec<u8>>, Some(home)), s),
        call_ensures(state_dir, (None::<Vec<u8>>, None::<Vec<u8>>), none),
    ensures
        with@ == "GPU · GLES2 ("@ + device@ + ")"@,
        without@ == "CPU · Pixman（兼容模式）"@,
        r matches Ok(p) && p@ == crate::path::below(
            state@,
            vstd::utf8::encode_utf8("computer-use-linux"@),
        ),
        s matches Ok(p) && p@ == crate::path::below(
            crate::path::below(home@, vstd::utf8::encode_utf8(".local/state"@)),
            vstd::utf8::encode_utf8("computer-use-linux"@),
        ),
        none matches Err(e) && e.code == ErrorCode::BackendUnavailable
            && e.message@ == "缺少用户目录"@,
{
}

/// An application starts in the directory that its definition names, or in the user's own.
pub proof fn applications_start_where_they_are_defined(
    launch: Launch,
    home: Vec<u8>,
    r: Option<Vec<u8>>,
    config: String,
)
    requires
        call_ensures(Launch::directory, (&launch, Some(home)), r),
        call_ensures(compositor_config, (), config),
    ensures
        launch.application matches Application::Installed(app) ==> (app.directory is Some ==> (r
            matches Some(d) && d@ == app.directory->0@)),
        launch.application matches Application::Installed(app) ==> (app.directory is None ==> (r
            matches Some(d) && d@ == home@)),
        !(launch.application is Installed) ==> (r matches Some(d) && d@ == home@),
        config@
            == "output HEADLESS-1 mode 1280x800\nseat seat0 fallback true\nfocus_on_window_activation none\nfocus_follows_mouse no\nfont monospace 10\nxwayland force\ndefault_border none\n"@
            + "exec sh -c 'umask 077; printf \"%s\" \"$DISPLAY\" > \"$XDG_RUNTIME_DIR/x11-display\"'\n"@,
{
}

} // verus!
