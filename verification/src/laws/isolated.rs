//! What an isolated session runs, what may be seen in it, and when an action still holds.
use vstd::prelude::*;

use crate::backend::applications::DesktopApplication;
use crate::backend::preview::Viewport;
use crate::backend::sway::{
    added_variables, capabilities, check_alive, check_resized, check_windows, checked, find_window,
    output_scale, place, removed_variables, reply_length, resize_command, settings_view,
    sway_message, Application, Isolated, IsolatedPreview, Layout, OwnedWindow, Owner, Placed,
    Resize, SavedSession, Screen, Setting, TreeWindow,
};
use crate::json::{items, Json, JsonView};
use crate::laws::permits::inside;
use crate::model::{Action, ErrorCode, Fault, Observation, Target};
use crate::number::Binary64;
use crate::path::{name_of, route};
use crate::text::{numeral, texts};

verus! {

/// An installed application is chosen over those that come along; of these each needs its own
/// name and that it was found.
pub proof fn installed_applications_come_first(
    name: &str,
    resolved: Result<DesktopApplication, Fault>,
    firefox: bool,
    editor: bool,
    r: Result<Application, Fault>,
)
    requires
        call_ensures(Application::requested, (name, resolved, firefox, editor), r),
    ensures
        resolved is Ok ==> (r matches Ok(Application::Installed(app)) && app.name@
            == resolved->Ok_0.name@ && app.program@ == resolved->Ok_0.program@ && texts(app.args@)
            == texts(resolved->Ok_0.args@)),
        resolved is Err ==> {
            &&& (r matches Ok(Application::Firefox)) <==> name@ == "firefox"@ && firefox
            &&& (r matches Ok(Application::TextEditor)) <==> name@ == "gnome-text-editor"@ && editor
            &&& !(r matches Ok(Application::Installed(_)))
            &&& r matches Err(e) ==> e@ == resolved->Err_0@
        },
{
    reveal_strlit("firefox");
    reveal_strlit("gnome-text-editor");
    assert("firefox"@.len() != "gnome-text-editor"@.len());
    if resolved is Ok {
        let a = r->Ok_0;
        assert(a@ is Installed);
        assert(a@->Installed_0 == resolved->Ok_0@);
    }
}

/// An application is shown under its own name, runs its own program, and gets its arguments
/// first; Firefox and the editor are told to keep to themselves, and no other program is.
pub proof fn applications_keep_their_names_and_arguments(
    app: Application,
    label: &str,
    program: Vec<u8>,
    args: Vec<String>,
)
    requires
        call_ensures(Application::label, (&app,), label),
        call_ensures(Application::executable, (&app,), program),
        call_ensures(Application::arguments, (&app,), args),
    ensures
        app is Firefox ==> label@ == "Firefox"@ && program@ == vstd::utf8::encode_utf8("firefox"@),
        app is TextEditor ==> label@ == "GNOME Text Editor"@ && program@
            == vstd::utf8::encode_utf8("gnome-text-editor"@),
        app matches Application::Installed(d) ==> label@ == d.name@ && program@ == d.program@,
        ({
            let given = match app {
                Application::Installed(d) => texts(d.args@),
                _ => Seq::empty(),
            };
            let name = name_of(program@);
            if name == Some(vstd::utf8::encode_utf8("firefox"@)) || name == Some(
                vstd::utf8::encode_utf8("firefox-esr"@),
            ) {
                texts(args@) == given + seq!["--no-remote"@, "--new-instance"@, "about:blank"@]
            } else if name == Some(vstd::utf8::encode_utf8("gnome-text-editor"@)) {
                texts(args@) == given + seq!["--standalone"@]
            } else {
                texts(args@) == given
            }
        }),
{
    let given = match app {
        Application::Installed(d) => texts(d.args@),
        _ => Seq::empty(),
    };
    assert(given + Seq::<Seq<char>>::empty() =~= given);
}

/// A program of a session finds the session's own directory and bus, and neither the user's
/// displays nor the user's bus.
pub proof fn sessions_have_their_own_bus_and_displays(
    runtime: &Vec<u8>,
    bus: &str,
    removed: Vec<String>,
    added: Vec<Setting>,
)
    requires
        call_ensures(removed_variables, (), removed),
        call_ensures(added_variables, (runtime, bus), added),
    ensures
        texts(removed@).contains("DISPLAY"@),
        texts(removed@).contains("WAYLAND_DISPLAY"@),
        texts(removed@).contains("WAYLAND_SOCKET"@),
        texts(removed@).contains("XAUTHORITY"@),
        texts(removed@).contains("DBUS_SESSION_BUS_ADDRESS"@),
        texts(removed@).contains("SESSION_MANAGER"@),
        texts(removed@).contains("NIRI_SOCKET"@),
        texts(removed@).contains("SWAYSOCK"@),
        texts(removed@).contains("AT_SPI_BUS_ADDRESS"@),
        texts(removed@).contains("XDG_ACTIVATION_TOKEN"@),
        texts(removed@).contains("DESKTOP_STARTUP_ID"@),
        texts(removed@).contains("DBUS_STARTER_ADDRESS"@),
        texts(removed@).contains("DBUS_STARTER_BUS_TYPE"@),
        texts(removed@).contains("GTK_IM_MODULE"@),
        texts(removed@).contains("QT_IM_MODULE"@),
        texts(removed@).contains("XMODIFIERS"@),
        removed@.len() == 16,
        added@.len() == 8,
        added@[0].name@ == "XDG_RUNTIME_DIR"@ && added@[0].value@ == runtime@,
        added@[1].name@ == "DBUS_SESSION_BUS_ADDRESS"@ && added@[1].value@
            == vstd::utf8::encode_utf8(bus@),
        added@[2].name@ == "XDG_CURRENT_DESKTOP"@ && added@[2].value@ == vstd::utf8::encode_utf8(
            "sway"@,
        ),
        added@[3].name@ == "XDG_SESSION_TYPE"@ && added@[3].value@ == vstd::utf8::encode_utf8(
            "wayland"@,
        ),
        added@[4].name@ == "GTK_USE_PORTAL"@ && added@[4].value@ == vstd::utf8::encode_utf8("0"@),
        added@[5].name@ == "GDK_BACKEND"@ && added@[5].value@ == vstd::utf8::encode_utf8(
            "wayland"@,
        ),
        added@[6].name@ == "QT_QPA_PLATFORM"@ && added@[6].value@ == vstd::utf8::encode_utf8(
            "wayland;xcb"@,
        ),
        added@[7].name@ == "NO_AT_BRIDGE"@ && added@[7].value@ == vstd::utf8::encode_utf8("1"@),
{
    let t = texts(removed@);
    assert(t.len() == removed@.len());
    assert(t[0] == "DISPLAY"@ && t[1] == "XAUTHORITY"@ && t[2] == "SESSION_MANAGER"@ && t[3]
        == "WAYLAND_DISPLAY"@ && t[4] == "WAYLAND_SOCKET"@ && t[5] == "NIRI_SOCKET"@ && t[6]
        == "SWAYSOCK"@ && t[7] == "DBUS_SESSION_BUS_ADDRESS"@);
    assert(t[8] == "DBUS_STARTER_ADDRESS"@ && t[9] == "DBUS_STARTER_BUS_TYPE"@ && t[10]
        == "XDG_ACTIVATION_TOKEN"@ && t[11] == "DESKTOP_STARTUP_ID"@ && t[12] == "GTK_IM_MODULE"@
        && t[13] == "QT_IM_MODULE"@ && t[14] == "XMODIFIERS"@ && t[15] == "AT_SPI_BUS_ADDRESS"@);
    let v = settings_view(added@);
    assert(v.len() == added@.len());
    assert forall|i: int| 0 <= i < 8 implies (added@[i].name@, added@[i].value@)
        == #[trigger] v[i] by {}
    assert(v[0].0 == added@[0].name@ && v[1].0 == added@[1].name@ && v[2].0 == added@[2].name@
        && v[3].0 == added@[3].name@);
    assert(v[4].0 == added@[4].name@ && v[5].0 == added@[5].name@ && v[6].0 == added@[6].name@
        && v[7].0 == added@[7].name@);
}

proof fn lemma_four(n: u32)
    ensures
        n % 256 + n / 256 % 256 * 256 + n / 65536 % 256 * 65536 + n / 16777216 * 16777216 == n,
        n / 16777216 < 256,
{
}

/// A message to the compositor begins with its mark, then its length and its kind, lowest byte
/// first, and then itself.
pub proof fn messages_carry_length_and_kind(kind: u32, payload: &str, r: Vec<u8>, bytes: Seq<u8>)
    requires
        bytes == vstd::utf8::encode_utf8(payload@),
        bytes.len() <= u32::MAX,
        call_ensures(sway_message, (kind, payload), r),
    ensures
        r@.len() == 14 + bytes.len(),
        r@.take(6) == seq![0x69u8, 0x33u8, 0x2du8, 0x69u8, 0x70u8, 0x63u8],
        r@[6] + r@[7] * 0x100 + r@[8] * 0x1_0000 + r@[9] * 0x100_0000 == bytes.len(),
        r@[10] + r@[11] * 0x100 + r@[12] * 0x1_0000 + r@[13] * 0x100_0000 == kind,
        r@.skip(14) == bytes,
{
    let l = bytes.len() as u32;
    lemma_four(l);
    lemma_four(kind);
    let m = crate::backend::sway::message(kind, bytes);
    assert(r@ == m);
    let mark = seq![0x69u8, 0x33u8, 0x2du8, 0x69u8, 0x70u8, 0x63u8];
    let x = crate::backend::sway::little(l);
    let y = crate::backend::sway::little(kind);
    assert(crate::backend::sway::magic() =~= mark);
    assert(m =~= mark + x + y + bytes);
    assert(m.take(6) =~= mark);
    assert(m.skip(14) =~= bytes);
    assert(m[6] == x[0] && m[7] == x[1] && m[8] == x[2] && m[9] == x[3]);
    assert(m[10] == y[0] && m[11] == y[1] && m[12] == y[2] && m[13] == y[3]);
    assert(x[0] == l % 256 && x[1] == l / 256 % 256 && x[2] == l / 65536 % 256 && x[3] == l
        / 16777216);
    assert(y[0] == kind % 256 && y[1] == kind / 256 % 256 && y[2] == kind / 65536 % 256 && y[3]
        == kind / 16777216);
}

/// The head of an answer must have the mark and the kind that was asked for, lowest byte first;
/// its length is read the same way, and has eight million bytes at most.
pub proof fn answers_are_of_the_kind_asked_for(
    kind: u32,
    head: &Vec<u8>,
    n: Result<usize, Fault>,
    length: int,
    of: int,
)
    requires
        head@.len() == 14,
        call_ensures(reply_length, (head, kind), n),
        length == head@[6] + head@[7] * 0x100 + head@[8] * 0x1_0000 + head@[9] * 0x100_0000,
        of == head@[10] + head@[11] * 0x100 + head@[12] * 0x1_0000 + head@[13] * 0x100_0000,
    ensures
        n is Ok <==> {
            &&& head@.take(6) == seq![0x69u8, 0x33u8, 0x2du8, 0x69u8, 0x70u8, 0x63u8]
            &&& of == kind
            &&& length <= 8388608
        },
        n matches Ok(m) ==> m == length,
        n matches Err(e) ==> e.code == ErrorCode::BackendUnavailable,
{
    let mark = seq![0x69u8, 0x33u8, 0x2du8, 0x69u8, 0x70u8, 0x63u8];
    assert(crate::backend::sway::magic() =~= mark);
    let a = head@.subrange(6, 10);
    let b = head@.subrange(10, 14);
    assert(a[0] == head@[6] && a[1] == head@[7] && a[2] == head@[8] && a[3] == head@[9]);
    assert(b[0] == head@[10] && b[1] == head@[11] && b[2] == head@[12] && b[3] == head@[13]);
    assert(crate::backend::sway::number(a) == length);
    assert(crate::backend::sway::number(b) == of);
}

proof fn lemma_place(xwindows: Seq<crate::backend::sway::OwnedView>, id: u32)
    ensures
        0 <= place(xwindows, id) <= xwindows.len(),
        forall|i: int| 0 <= i < place(xwindows, id) ==> (#[trigger] xwindows[i]).window.id != id,
        place(xwindows, id) < xwindows.len() ==> xwindows[place(xwindows, id)].window.id == id,
    decreases xwindows.len(),
{
    if xwindows.len() > 0 && xwindows[0].window.id != id {
        let rest = xwindows.drop_first();
        lemma_place(rest, id);
        assert forall|i: int| 0 <= i < place(xwindows, id) implies (
        #[trigger] xwindows[i]).window.id != id by {
            if i > 0 {
                assert(xwindows[i] == rest[i - 1]);
            }
        }
    }
}

/// An X11 window is found by its number, the first of that number.
pub proof fn windows_are_found_by_number(xwindows: &Vec<OwnedWindow>, id: u32, r: Option<usize>)
    requires
        call_ensures(find_window, (xwindows, id), r),
    ensures
        r matches Some(k) ==> k < xwindows@.len() && xwindows@[k as int].window.id == id,
        r matches Some(k) ==> forall|i: int|
            0 <= i < k ==> (#[trigger] xwindows@[i]).window.id != id,
        r is None ==> forall|i: int|
            0 <= i < xwindows@.len() ==> (#[trigger] xwindows@[i]).window.id != id,
{
    let v = crate::backend::sway::owned_view(xwindows@);
    lemma_place(v, id);
    assert(v.len() == xwindows@.len());
    assert forall|i: int| 0 <= i < xwindows@.len() implies (#[trigger] xwindows@[i]).window.id
        == v[i].window.id by {}
}

/// Whether a process runs a program, and descends from it.
pub open spec fn belongs(executable: Seq<u8>, descends: bool, saved: SavedSession) -> bool {
    descends && route(executable) == route(saved.app.executable@)
}

/// A layout passes for a client only if every X11 window is the compositor's or the
/// application's, and every other window has a process that descends from the application and
/// runs its program. Nothing passes that belongs to anyone else.
pub proof fn strangers_do_not_pass(
    saved: &SavedSession,
    list: &Vec<TreeWindow>,
    owners: &Vec<Owner>,
    xwindows: &Vec<OwnedWindow>,
    r: Result<Vec<Placed>, Fault>,
    i: int,
    k: int,
)
    requires
        owners@.len() == list@.len(),
        call_ensures(check_windows, (saved, false, list, owners, xwindows), r),
        r is Ok,
        0 <= i < list@.len(),
        0 <= k < xwindows@.len(),
    ensures
        ({
            let p = xwindows@[k].window.process;
            ||| p.pid == saved.sway.pid && p.start_time == saved.sway.start_time && route(
                p.executable@,
            ) == route(saved.sway.executable@)
            ||| belongs(p.executable@, xwindows@[k].descends, *saved)
        }),
        list@[i].window is None ==> {
            &&& list@[i].pid is Some
            &&& owners@[i].process matches Ok(p)
            &&& belongs(p.executable@, owners@[i].descends, *saved)
        },
        list@[i].window matches Some(n) ==> exists|j: int| {
            &&& 0 <= j < xwindows@.len()
            &&& (#[trigger] xwindows@[j]).window.id as int == n % 0x1_0000_0000
            &&& belongs(xwindows@[j].window.process.executable@, xwindows@[j].descends, *saved)
        },
{
    let t = crate::backend::sway::tree_view(list@);
    let o = crate::backend::sway::owners_view(owners@);
    let x = crate::backend::sway::owned_view(xwindows@);
    assert(checked(t, o, x, saved.sway@, saved.app.executable@, false) is Ok);
    crate::backend::sway::no_stranger_passes(t, o, x, saved.sway@, saved.app.executable@);
    assert(x[k] == xwindows@[k]@);
    assert(t[i] == list@[i]@);
    assert(o[i] == owners@[i]@);
    assert(crate::backend::sway::owner_of(t[i], o[i], x) is Ok);
    if list@[i].window is Some {
        let n = list@[i].window->0;
        let id = (n % 0x1_0000_0000) as u32;
        lemma_place(x, id);
        let j = place(x, id);
        assert(x[j] == xwindows@[j]@);
        assert(xwindows@[j].window.id as int == n % 0x1_0000_0000);
    }
}

/// A window of another application is refused, and a client is told so by a denial.
pub proof fn strangers_are_refused(
    saved: &SavedSession,
    list: &Vec<TreeWindow>,
    owners: &Vec<Owner>,
    xwindows: &Vec<OwnedWindow>,
    r: Result<Vec<Placed>, Fault>,
    k: int,
)
    requires
        owners@.len() == list@.len(),
        call_ensures(check_windows, (saved, false, list, owners, xwindows), r),
        0 <= k < xwindows@.len(),
        !belongs(xwindows@[k].window.process.executable@, xwindows@[k].descends, *saved),
        xwindows@[k].window.process.pid != saved.sway.pid,
    ensures
        r matches Err(e) && e.code == ErrorCode::PermissionDenied,
{
    let x = crate::backend::sway::owned_view(xwindows@);
    assert(x[k] == xwindows@[k]@);
    assert(!crate::backend::sway::tolerated(
        x[k],
        saved.sway@,
        saved.app.executable@,
        false,
    ));
}

/// A session is alive exactly if its compositor and its application are; a session without
/// windows is stale, and one without an X11 server has no X11 windows.
pub proof fn sessions_need_both_their_processes(sway: bool, app: bool, r: Result<(), Fault>)
    requires
        call_ensures(check_alive, (sway, app), r),
    ensures
        r is Ok <==> sway && app,
        r matches Err(e) ==> e.code == ErrorCode::StaleTarget
            && e.message@ == "独立应用或合成器已退出"@,
{
}

/// An isolated application can be seen, clicked, dragged, scrolled, and typed into.
pub proof fn isolated_applications_take_every_input(r: Vec<String>)
    requires
        call_ensures(capabilities, (), r),
    ensures
        r@.len() == 6,
        r@[0]@ == "screenshot"@ && r@[1]@ == "click"@ && r@[2]@ == "drag"@ && r@[3]@ == "scroll"@,
        r@[4]@ == "key"@ && r@[5]@ == "text"@,
{
    let t = texts(r@);
    assert(t.len() == r@.len());
    assert(t[0] == r@[0]@ && t[1] == r@[1]@ && t[2] == r@[2]@ && t[3] == r@[3]@ && t[4] == r@[4]@
        && t[5] == r@[5]@);
}

/// A picture counts only if nothing moved while it was taken: then it is what was seen, at the
/// size and scale of the output, and it is kept for the next action.
pub proof fn pictures_count_if_nothing_moved(
    before: Isolated,
    after: Isolated,
    id: String,
    was: Layout,
    is: Layout,
    revision: u64,
    png: String,
    screen: Screen,
    r: Result<Observation, Fault>,
    same: bool,
)
    requires
        exists|x: &mut Isolated|
            *x == before && *final(x) == after && #[trigger] call_ensures(
                Isolated::observed,
                (x, id, was, is, revision, png, screen),
                r,
            ),
        call_ensures(Layout::equals, (&was, &is), same),
    ensures
        r is Ok <==> same && screen.scale is Ok,
        r matches Ok(o) ==> {
            &&& o.observation_id@ == id@
            &&& o.target.id@ == before.target_id@
            &&& o.target.width == screen.width
            &&& o.target.height == screen.height
            &&& o.target.scale == screen.scale->Ok_0
            &&& (o.png_base64 matches Some(p) && p@ == png@)
            &&& o.windows@.len() == 0
            &&& after.geometry == Some((is, revision))
        },
        !same ==> after == before && (r matches Err(e) && e.code == ErrorCode::StaleTarget
            && e.message@ == "截图期间窗口布局改变，请重新观察"@),
        after.target_id == before.target_id && after.local_only == before.local_only
            && after.saved == before.saved,
{
    if r is Ok {
        assert(r->Ok_0@.windows.len() == r->Ok_0.windows@.len());
    }
}

/// What the user watches changes nothing that a client's action is based on.
pub proof fn watching_keeps_what_actions_are_based_on(
    before: Isolated,
    after: Isolated,
    id: String,
    was: Layout,
    is: Layout,
    revision: u64,
    png: String,
    screen: Screen,
    r: Result<Observation, Fault>,
    same: bool,
)
    requires
        exists|x: &mut Isolated|
            *x == before && *final(x) == after && #[trigger] call_ensures(
                Isolated::previewed,
                (x, id, was, is, revision, png, screen),
                r,
            ),
        call_ensures(Layout::equals, (&was, &is), same),
    ensures
        after == before,
        r is Ok <==> same && screen.scale is Ok,
        r matches Ok(o) ==> o.target.id@ == before.target_id@ && o.target.width == screen.width
            && o.target.height == screen.height,
{
}

/// An action holds exactly if it names the application, and layout and outputs are those of the
/// latest observation; once it was carried out, no other action holds.
pub proof fn actions_hold_on_what_was_observed(
    i: Isolated,
    done: Isolated,
    target: &str,
    layout: Layout,
    revision: u64,
    r: Result<(), Fault>,
    next: Result<(), Fault>,
    named: Result<(), Fault>,
    kept: Layout,
    at: u64,
    same: bool,
)
    requires
        i.geometry == Some((kept, at)),
        call_ensures(Layout::equals, (&kept, &layout), same),
        call_ensures(Isolated::check_action, (&i, target, Ok(layout), revision), r),
        exists|x: &mut Isolated|
            *x == i && *final(x) == done && #[trigger] call_ensures(Isolated::acted, (x,), ()),
        call_ensures(Isolated::check_action, (&done, target, Ok(layout), revision), next),
        call_ensures(Isolated::check_target, (&i, Some(target)), named),
    ensures
        r is Ok <==> target@ == i.target_id@ && same && at == revision,
        r matches Err(e) ==> e.code == ErrorCode::StaleTarget,
        next is Err,
        done.saved == i.saved && done.target_id == i.target_id && done.local_only == i.local_only,
        named is Ok <==> target@ == i.target_id@,
        named matches Err(e) ==> e.code == ErrorCode::PermissionDenied
            && e.message@ == "目标不属于此应用会话"@,
{
}

/// Two layouts are the same only if they have as many windows, X11 windows and outputs, and the
/// X11 windows have the same number, place, visibility and process; a layout is the same as
/// itself.
pub proof fn layouts_are_the_same_window_by_window(a: Layout, b: Layout, r: bool, k: int)
    requires
        call_ensures(Layout::equals, (&a, &b), r),
    ensures
        r ==> a.windows@.len() == b.windows@.len() && a.x11@.len() == b.x11@.len()
            && a.outputs@.len() == b.outputs@.len(),
        r && 0 <= k < a.x11@.len() ==> {
            let v = a.x11@[k].window;
            let w = b.x11@[k].window;
            &&& v.id == w.id
            &&& v.geometry == w.geometry
            &&& v.mapped == w.mapped
            &&& v.override_redirect == w.override_redirect
            &&& v.process.pid == w.process.pid
            &&& v.process.start_time == w.process.start_time
        },
        r && 0 <= k < a.windows@.len() ==> a.windows@[k].process.pid == b.windows@[k].process.pid
            && a.windows@[k].process.start_time == b.windows@[k].process.start_time,
        a == b ==> r,
{
    assert(a@.windows.len() == a.windows@.len() && b@.windows.len() == b.windows@.len());
    assert(a@.x11.len() == a.x11@.len() && b@.x11.len() == b.x11@.len());
    assert(a@.outputs.len() == a.outputs@.len() && b@.outputs.len() == b.outputs@.len());
    if r && 0 <= k < a.x11@.len() {
        assert(a@.x11[k] == a.x11@[k].window@);
        assert(b@.x11[k] == b.x11@[k].window@);
        assert(a@.x11[k].process == a.x11@[k].window.process@);
        assert(b@.x11[k].process == b.x11@[k].window.process@);
    }
    if r && 0 <= k < a.windows@.len() {
        assert(a@.windows[k].1 == a.windows@[k].process@);
        assert(b@.windows[k].1 == b.windows@[k].process@);
    }
}

/// The output must be there, and as large and scaled as it was observed.
pub proof fn outputs_must_be_as_observed(
    i: Isolated,
    target: &Target,
    screen: Screen,
    scale: Binary64,
    r: Result<(), Fault>,
    none: Result<(), Fault>,
)
    requires
        call_ensures(Isolated::check_screen, (&i, target, Some(screen)), r),
        call_ensures(Isolated::check_screen, (&i, target, None::<Screen>), none),
        screen.scale matches Ok(s) && s == scale,
    ensures
        r is Ok <==> {
            &&& screen.width == target.width
            &&& screen.height == target.height
            &&& scale.number() && target.scale.number() && scale.value() == target.scale.value()
        },
        r matches Err(e) ==> e.code == ErrorCode::StaleTarget,
        none matches Err(e) && e.code == ErrorCode::StaleTarget,
{
}

/// The user acts on what is there now: the layout is taken as it is, and the action must be
/// valid in the target's own width and height.
pub proof fn users_act_on_what_is_there_now(
    before: Isolated,
    after: Isolated,
    target: Target,
    layout: Layout,
    revision: u64,
    action: &Action,
    r: Result<Observation, Fault>,
)
    requires
        exists|x: &mut Isolated|
            *x == before && *final(x) == after && #[trigger] call_ensures(
                Isolated::human_ready,
                (x, target, Ok(layout), revision, action),
                r,
            ),
    ensures
        after.geometry == Some((layout, revision)),
        after.target_id == before.target_id && after.saved == before.saved && after.local_only
            == before.local_only,
        *action matches Action::Click { at, .. } ==> (r is Ok <==> inside(at.x, target.width)
            && inside(at.y, target.height)),
        r matches Ok(o) ==> o.target@ == target@ && o.png_base64 is None,
{
}

/// The user's target is the application at the size and scale of its output, unless it is no
/// longer as the user saw it.
pub proof fn users_see_the_application_as_it_is(
    i: Isolated,
    expected: &Target,
    screen: Screen,
    scale: Binary64,
    r: Result<Target, Fault>,
    free: Result<Target, Fault>,
    view: Isolated,
)
    requires
        call_ensures(Isolated::human_target, (&i, Some(expected), Some(screen)), r),
        call_ensures(Isolated::human_target, (&i, None::<&Target>, Some(screen)), free),
        call_ensures(Isolated::local_view, (&i,), view),
        screen.scale matches Ok(s) && s == scale,
    ensures
        free matches Ok(t) && t.id@ == i.target_id@ && t.width == screen.width && t.height
            == screen.height && t.scale == scale,
        r is Ok <==> {
            &&& expected.id@ == i.target_id@
            &&& expected.width == screen.width
            &&& expected.height == screen.height
            &&& scale.number() && expected.scale.number() && scale.value()
                == expected.scale.value()
        },
        r matches Ok(t) ==> t.width == screen.width && t.height == screen.height,
        view.local_only,
        view.target_id@ == i.target_id@,
        view.geometry is None,
        view.saved.app@ == i.saved.app@ && view.saved.sway@ == i.saved.sway@ && view.saved.bus@
            == i.saved.bus@,
        view.saved.socket@ == i.saved.socket@ && view.saved.wayland@ == i.saved.wayland@,
        view.saved.id@ == i.saved.id@ && view.saved.runtime@ == i.saved.runtime@,
{
}

/// A session that is opened can be acted on by nobody yet, and is no view of the user; it has
/// one target, of the size and scale of its output, if the compositor can capture and send
/// input.
pub proof fn opened_sessions_have_one_target(
    saved: SavedSession,
    id: String,
    i: Isolated,
    input: bool,
    capture: bool,
    screen: Screen,
    r: Result<Vec<Target>, Fault>,
)
    requires
        call_ensures(Isolated::open_as, (saved, id), i),
        call_ensures(Isolated::targets, (&i, input, capture, Some(screen)), r),
    ensures
        i.saved == saved && i.target_id == id && i.geometry is None && !i.local_only,
        r is Ok <==> input && capture && screen.scale is Ok,
        r matches Ok(v) ==> {
            &&& v@.len() == 1
            &&& v@[0].id@ == id@
            &&& v@[0].width == screen.width
            &&& v@[0].height == screen.height
            &&& v@[0].scale == screen.scale->Ok_0
        },
        !input || !capture ==> (r matches Err(e) && e.code == ErrorCode::Unsupported
            && e.message@ == "独立合成器缺少必要协议"@),
{
    if r is Ok {
        let v = r->Ok_0@;
        let t = crate::model::targets_view(v);
        assert(t.len() == v.len());
        assert(t[0] == v[0]@);
    }
}

/// A new size is sent as width, times, height, and the scale, which stays one for X11; a size
/// that the output has already is not sent again, and a dead session is stale.
pub proof fn sizes_are_sent_once(
    p: IsolatedPreview,
    sized: IsolatedPreview,
    viewport: Viewport,
    scale: &str,
    x11: bool,
    alive: bool,
    r: Result<Resize, Fault>,
    again: Result<Resize, Fault>,
    command: String,
)
    requires
        call_ensures(IsolatedPreview::resize, (&p, viewport, scale, x11, alive), r),
        exists|q: &mut IsolatedPreview|
            *q == p && *final(q) == sized && #[trigger] call_ensures(
                IsolatedPreview::resized,
                (q, viewport),
                (),
            ),
        call_ensures(IsolatedPreview::resize, (&sized, viewport, scale, x11, alive), again),
        call_ensures(resize_command, (viewport, scale, x11), command),
        viewport.scale.number(),
    ensures
        command@ == "output HEADLESS-1 mode "@ + numeral(viewport.width as nat, 10) + "x"@
            + numeral(viewport.height as nat, 10) + "@60Hz scale "@ + (if x11 {
            "1.000"@
        } else {
            scale@
        }),
        r matches Ok(Resize::Command(c)) ==> c@ == command@ && alive,
        p.viewport is None && alive ==> (r matches Ok(Resize::Command(_))),
        p.viewport is None && !alive ==> (r matches Err(e) && e.code == ErrorCode::StaleTarget
            && e.message@ == "独立应用已退出"@),
        again matches Ok(Resize::Nothing),
        sized.scale == p.scale && sized.revision == p.revision && sized.target_id == p.target_id,
{
}

/// A frame shows the application at the frame's size and the output's scale, and only if the
/// outputs are those at which the scale was read; otherwise the scale is read again.
pub proof fn frames_show_the_application_at_its_scale(
    p: IsolatedPreview,
    application: &Application,
    width: u32,
    height: u32,
    revision: u64,
    r: Result<Target, Fault>,
    alive: bool,
    again: Result<bool, Fault>,
)
    requires
        call_ensures(IsolatedPreview::framed, (&p, application, width, height, revision), r),
        call_ensures(IsolatedPreview::begin, (&p, alive, revision), again),
    ensures
        r is Ok <==> revision == p.revision,
        r matches Ok(t) ==> t.id@ == p.target_id@ && t.width == width && t.height == height
            && t.scale == p.scale,
        r matches Err(e) ==> e.code == ErrorCode::Busy
            && e.message@ == "输出尺寸变化，等待下一帧"@,
        again is Ok <==> alive,
        again matches Ok(b) ==> (b <==> revision != p.revision),
        again matches Err(e) ==> e.code == ErrorCode::StaleTarget
            && e.message@ == "独立应用已退出"@,
{
}

/// The scale of an output is the positive number that the compositor reports for its name.
pub proof fn scales_are_positive_numbers(outputs: &Json, name: &str, r: Result<Binary64, Fault>)
    requires
        call_ensures(output_scale, (outputs, name), r),
    ensures
        r matches Ok(s) ==> s.finite() && s.value() > 0,
        r matches Ok(s) ==> exists|k: int| {
            &&& 0 <= k < items(outputs@).len()
            &&& (#[trigger] items(outputs@)[k]).field("name"@) == JsonView::Text(name@)
            &&& items(outputs@)[k].field("scale"@).float() == Some(s)
        },
        r matches Err(e) ==> e.code == ErrorCode::StaleTarget
            && e.message@ == "虚拟显示器缩放信息无效"@,
        items(outputs@).len() == 1 && items(outputs@)[0].field("name"@) == JsonView::Text(name@)
            && (items(outputs@)[0].field("scale"@).float() matches Some(s) && s.finite()
            && s.value() > 0) ==> r == Ok::<Binary64, Fault>(
            items(outputs@)[0].field("scale"@).float()->0,
        ),
{
    lemma_output(items(outputs@), name@);
}

proof fn lemma_output(outputs: Seq<JsonView>, name: Seq<char>)
    ensures
        ({
            let k = crate::backend::sway::output_place(outputs, name);
            &&& 0 <= k <= outputs.len()
            &&& k < outputs.len() ==> outputs[k].field("name"@) == JsonView::Text(name)
        }),
    decreases outputs.len(),
{
    if outputs.len() > 0 && outputs[0].field("name"@) != JsonView::Text(name) {
        lemma_output(outputs.drop_first(), name);
    }
}

/// A command was carried out only if the compositor says so of every part of it.
pub proof fn commands_succeed_part_by_part(answer: &Json, r: Result<(), Fault>)
    requires
        call_ensures(check_resized, (answer,), r),
    ensures
        r is Ok ==> answer@ is List && items(answer@).len() > 0,
        r is Ok ==> forall|i: int|
            0 <= i < items(answer@).len() ==> (#[trigger] items(answer@)[i]).field("success"@)
                == JsonView::Bool(true),
        (answer@ is List && items(answer@).len() > 0 && forall|i: int|
            0 <= i < items(answer@).len() ==> (#[trigger] items(answer@)[i]).field("success"@)
                == JsonView::Bool(true)) ==> r is Ok,
        r matches Err(e) ==> e.code == ErrorCode::BackendUnavailable
            && e.message@ == "无法调整独立输出尺寸"@,
{
}

/// A session that is taken up again is what was noted of it.
pub proof fn sessions_are_copied_whole(saved: SavedSession, r: SavedSession)
    requires
        call_ensures(SavedSession::clone, (&saved,), r),
    ensures
        r.id@ == saved.id@ && r.runtime@ == saved.runtime@ && r.socket@ == saved.socket@
            && r.wayland@ == saved.wayland@ && r.renderer@ == saved.renderer@,
        r.sway.pid == saved.sway.pid && r.sway.start_time == saved.sway.start_time
            && r.sway.executable@ == saved.sway.executable@,
        r.app.pid == saved.app.pid && r.app.start_time == saved.app.start_time
            && r.app.executable@ == saved.app.executable@,
        r.bus.pid == saved.bus.pid && r.bus.start_time == saved.bus.start_time
            && r.bus.executable@ == saved.bus.executable@,
        r.x11 == saved.x11 && r.x11_application == saved.x11_application,
{
    assert(r.sway@ == saved.sway@ && r.app@ == saved.app@ && r.bus@ == saved.bus@);
}

/// The scale of a preview is that of the session's own output, read at the present revision; a
/// layout is complete only with a list of outputs.
pub proof fn previews_read_the_scale_of_their_output(
    before: IsolatedPreview,
    after: IsolatedPreview,
    outputs: &Json,
    revision: u64,
    r: Result<(), Fault>,
    id: String,
    fresh: IsolatedPreview,
    windows: Vec<Placed>,
    x11: Vec<OwnedWindow>,
    layout: Result<Layout, Fault>,
)
    requires
        exists|p: &mut IsolatedPreview|
            *p == before && *final(p) == after && #[trigger] call_ensures(
                IsolatedPreview::rescale,
                (p, outputs, revision),
                r,
            ),
        call_ensures(IsolatedPreview::new, (id,), fresh),
        call_ensures(Layout::complete, (windows, x11, outputs), layout),
    ensures
        r is Ok ==> after.revision == revision && exists|k: int| {
            &&& 0 <= k < items(outputs@).len()
            &&& (#[trigger] items(outputs@)[k]).field("name"@) == JsonView::Text("HEADLESS-1"@)
            &&& items(outputs@)[k].field("scale"@).float() == Some(after.scale)
        },
        r is Err ==> after == before && r->Err_0.code == ErrorCode::StaleTarget,
        after.target_id == before.target_id && after.viewport == before.viewport,
        fresh.target_id == id && fresh.viewport is None && fresh.revision == 0,
        layout is Ok <==> outputs@ is List,
        layout matches Ok(l) ==> l.windows@.len() == windows@.len() && l.x11@.len() == x11@.len()
            && l.outputs@.len() == items(outputs@).len(),
        layout matches Err(e) ==> e.code == ErrorCode::StaleTarget
            && e.message@ == "虚拟输出列表无效"@,
{
    lemma_output(items(outputs@), "HEADLESS-1"@);
    if layout is Ok {
        let l = layout->Ok_0;
        assert(l@.windows.len() == l.windows@.len());
        assert(crate::backend::sway::placed_view(windows@).len() == windows@.len());
        assert(l@.x11.len() == l.x11@.len() && crate::backend::sway::bare(x11@).len()
            == x11@.len());
        assert(l@.outputs.len() == l.outputs@.len());
    }
}

} // verus!
