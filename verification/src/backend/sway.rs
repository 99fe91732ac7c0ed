//! Isolated sessions: a private compositor, its environment and messages, and the check that
//! only windows of the authorized application are in it.
use vstd::prelude::*;

use crate::backend::applications::{ApplicationView, DesktopApplication};
use crate::backend::preview::{same_viewport, Viewport};
use crate::backend::process::{same_bytes, IdentityView, ProcessIdentity};
use crate::backend::x11::{Endpoint, Window, WindowView};
use crate::identifier::fresh_identifier;
use crate::json::{
    find_key, items, json_of, json_view, list_view, lists_are_smaller, read_json, same_values,
    Json, JsonView,
};
use crate::model::{
    fault, targets_view, Action, ErrorCode, Fault, FaultView, Observation, ObservationView, Target,
    TargetView,
};
use crate::number::Binary64;
use crate::path::{bytes_of, file_name, name_of, route, same_path};
use crate::text::{decimal, numeral, same, texts};

verus! {

/// An application that can run isolated.
#[derive(Debug)]
pub enum Application {
    Firefox,
    TextEditor,
    Installed(DesktopApplication),
}

/// An application by its values.
#[verifier::ext_equal]
pub enum ChosenView {
    Firefox,
    TextEditor,
    Installed(ApplicationView),
}

impl View for Application {
    type V = ChosenView;

    open spec fn view(&self) -> ChosenView {
        match *self {
            Application::Firefox => ChosenView::Firefox,
            Application::TextEditor => ChosenView::TextEditor,
            Application::Installed(app) => ChosenView::Installed(app@),
        }
    }
}

impl Clone for Application {
    fn clone(&self) -> (r: Self)
        ensures
            r@ == self@,
    {
        match self {
            Application::Firefox => Application::Firefox,
            Application::TextEditor => Application::TextEditor,
            Application::Installed(app) => Application::Installed(app.clone()),
        }
    }
}

impl Application {
    /// Chooses the application that a client asked for: an installed one, or one of two that
    /// come with this program and were found.
    pub fn requested(
        name: &str,
        resolved: Result<DesktopApplication, Fault>,
        firefox: bool,
        editor: bool,
    ) -> (r: Result<Self, Fault>)
        ensures
            match resolved {
                Ok(app) => r matches Ok(a) && a@ == ChosenView::Installed(app@),
                Err(f) => if name@ == "firefox"@ && firefox {
                    r matches Ok(a) && a@ == ChosenView::Firefox
                } else if name@ == "gnome-text-editor"@ && editor {
                    r matches Ok(a) && a@ == ChosenView::TextEditor
                } else {
                    r matches Err(e) && e@ == f@
                },
            },
    {
        match resolved {
            Ok(app) => Ok(Application::Installed(app)),
            Err(e) => {
                if firefox && same(name, "firefox") {
                    return Ok(Application::Firefox);
                }
                if editor && same(name, "gnome-text-editor") {
                    proof {
                        reveal_strlit("firefox");
                        reveal_strlit("gnome-text-editor");
                    }
                    return Ok(Application::TextEditor);
                }
                Err(e)
            },
        }
    }

    /// The name that users see.
    pub open spec fn shown(self) -> Seq<char> {
        match self {
            Application::Firefox => "Firefox"@,
            Application::TextEditor => "GNOME Text Editor"@,
            Application::Installed(app) => app.name@,
        }
    }

    /// The program that is started.
    pub open spec fn program(self) -> Seq<u8> {
        match self {
            Application::Firefox => vstd::utf8::encode_utf8("firefox"@),
            Application::TextEditor => vstd::utf8::encode_utf8("gnome-text-editor"@),
            Application::Installed(app) => app.program@,
        }
    }

    /// The name that users see.
    pub fn label(&self) -> (r: &str)
        ensures
            r@ == self.shown(),
    {
        match self {
            Application::Firefox => "Firefox",
            Application::TextEditor => "GNOME Text Editor",
            Application::Installed(app) => app.name.as_str(),
        }
    }

    /// The program that is started.
    pub fn executable(&self) -> (r: Vec<u8>)
        ensures
            r@ == self.program(),
    {
        match self {
            Application::Firefox => bytes_of("firefox"),
            Application::TextEditor => bytes_of("gnome-text-editor"),
            Application::Installed(app) => {
                let r = app.program.clone();
                assert(r@ =~= app.program@);
                r
            },
        }
    }

    /// Whether the program file has a name.
    fn is_program(&self, name: &str) -> (r: bool)
        ensures
            r == (name_of(self.program()) == Some(vstd::utf8::encode_utf8(name@))),
    {
        let program = self.executable();
        match file_name(&program) {
            Some(file) => same_bytes(&file, &bytes_of(name)),
            None => false,
        }
    }

    /// Whether the program is Firefox, whose windows would otherwise go to a running one.
    pub open spec fn is_firefox(self) -> bool {
        name_of(self.program()) == Some(vstd::utf8::encode_utf8("firefox"@)) || name_of(
            self.program(),
        ) == Some(vstd::utf8::encode_utf8("firefox-esr"@))
    }

    /// Whether the program is the text editor.
    pub open spec fn is_editor(self) -> bool {
        name_of(self.program()) == Some(vstd::utf8::encode_utf8("gnome-text-editor"@))
    }

    /// Arguments that keep a program within its own session.
    pub open spec fn own_args(self) -> Seq<Seq<char>> {
        if self.is_firefox() {
            seq!["--no-remote"@, "--new-instance"@, "about:blank"@]
        } else if self.is_editor() {
            seq!["--standalone"@]
        } else {
            Seq::empty()
        }
    }

    /// The arguments of an application: those of its launch definition, then those that keep
    /// it within its own session.
    pub fn arguments(&self) -> (r: Vec<String>)
        ensures
            texts(r@) == (match *self {
                Application::Installed(app) => texts(app.args@),
                _ => Seq::empty(),
            }) + self.own_args(),
    {
        let mut v: Vec<String> = match self {
            Application::Installed(app) => crate::text::copy_texts(&app.args),
            _ => Vec::new(),
        };
        let ghost start = texts(v@);
        assert(start =~= match *self {
            Application::Installed(app) => texts(app.args@),
            _ => Seq::empty(),
        });
        if self.is_program("firefox") || self.is_program("firefox-esr") {
            v.push("--no-remote".to_owned());
            v.push("--new-instance".to_owned());
            v.push("about:blank".to_owned());
        } else if self.is_program("gnome-text-editor") {
            v.push("--standalone".to_owned());
        }
        assert(texts(v@) =~= start + self.own_args());
        v
    }
}

/// The renderer of sessions that did not note theirs.
pub fn legacy_renderer() -> (r: String)
    ensures
        r@ == "旧实例 · 渲染方式未知"@,
{
    "旧实例 · 渲染方式未知".to_owned()
}

/// What is kept of a session, so that it can be found again.
#[derive(Debug)]
pub struct SavedSession {
    pub id: String,
    pub application: Application,
    pub runtime: Vec<u8>,
    pub sway: ProcessIdentity,
    pub app: ProcessIdentity,
    pub bus: ProcessIdentity,
    pub socket: Vec<u8>,
    pub wayland: Vec<u8>,
    pub renderer: String,
    pub x11: Option<Endpoint>,
    pub x11_application: bool,
}

fn copy_bytes(v: &Vec<u8>) -> (r: Vec<u8>)
    ensures
        r@ == v@,
{
    let r = v.clone();
    assert(r@ =~= v@);
    r
}

impl Clone for SavedSession {
    fn clone(&self) -> (r: Self)
        ensures
            r.id@ == self.id@,
            r.application@ == self.application@,
            r.runtime@ == self.runtime@,
            r.sway@ == self.sway@,
            r.app@ == self.app@,
            r.bus@ == self.bus@,
            r.socket@ == self.socket@,
            r.wayland@ == self.wayland@,
            r.renderer@ == self.renderer@,
            r.x11 == self.x11,
            r.x11_application == self.x11_application,
    {
        SavedSession {
            id: self.id.clone(),
            application: self.application.clone(),
            runtime: copy_bytes(&self.runtime),
            sway: self.sway.clone(),
            app: self.app.clone(),
            bus: self.bus.clone(),
            socket: copy_bytes(&self.socket),
            wayland: copy_bytes(&self.wayland),
            renderer: self.renderer.clone(),
            x11: match &self.x11 {
                Some(e) => Some(e.clone()),
                None => None,
            },
            x11_application: self.x11_application,
        }
    }
}

/// Variables that would lead to the user's own graphical session.
pub open spec fn foreign_variables() -> Seq<Seq<char>> {
    seq![
        "DISPLAY"@,
        "XAUTHORITY"@,
        "SESSION_MANAGER"@,
        "WAYLAND_DISPLAY"@,
        "WAYLAND_SOCKET"@,
        "NIRI_SOCKET"@,
        "SWAYSOCK"@,
        "DBUS_SESSION_BUS_ADDRESS"@,
        "DBUS_STARTER_ADDRESS"@,
        "DBUS_STARTER_BUS_TYPE"@,
        "XDG_ACTIVATION_TOKEN"@,
        "DESKTOP_STARTUP_ID"@,
        "GTK_IM_MODULE"@,
        "QT_IM_MODULE"@,
        "XMODIFIERS"@,
        "AT_SPI_BUS_ADDRESS"@,
    ]
}

/// The variables to take out of the environment of every program of a session.
pub fn removed_variables() -> (r: Vec<String>)
    ensures
        texts(r@) == foreign_variables(),
{
    let mut v: Vec<String> = Vec::new();
    v.push("DISPLAY".to_owned());
    v.push("XAUTHORITY".to_owned());
    v.push("SESSION_MANAGER".to_owned());
    v.push("WAYLAND_DISPLAY".to_owned());
    v.push("WAYLAND_SOCKET".to_owned());
    v.push("NIRI_SOCKET".to_owned());
    v.push("SWAYSOCK".to_owned());
    v.push("DBUS_SESSION_BUS_ADDRESS".to_owned());
    v.push("DBUS_STARTER_ADDRESS".to_owned());
    v.push("DBUS_STARTER_BUS_TYPE".to_owned());
    v.push("XDG_ACTIVATION_TOKEN".to_owned());
    v.push("DESKTOP_STARTUP_ID".to_owned());
    v.push("GTK_IM_MODULE".to_owned());
    v.push("QT_IM_MODULE".to_owned());
    v.push("XMODIFIERS".to_owned());
    v.push("AT_SPI_BUS_ADDRESS".to_owned());
    assert(texts(v@) =~= foreign_variables());
    v
}

/// A variable with its value.
#[derive(Debug)]
pub struct Setting {
    pub name: &'static str,
    pub value: Vec<u8>,
}

/// Settings by their values.
pub open spec fn settings_view(v: Seq<Setting>) -> Seq<(Seq<char>, Seq<u8>)> {
    v.map_values(|s: Setting| (s.name@, s.value@))
}

/// A setting from two texts.
pub open spec fn plain_setting(name: Seq<char>, value: Seq<char>) -> (Seq<char>, Seq<u8>) {
    (name, vstd::utf8::encode_utf8(value))
}

/// The environment that every program of a session is given.
pub open spec fn session_settings(runtime: Seq<u8>, bus: Seq<char>) -> Seq<(Seq<char>, Seq<u8>)> {
    seq![
        ("XDG_RUNTIME_DIR"@, runtime),
        plain_setting("DBUS_SESSION_BUS_ADDRESS"@, bus),
        plain_setting("XDG_CURRENT_DESKTOP"@, "sway"@),
        plain_setting("XDG_SESSION_TYPE"@, "wayland"@),
        plain_setting("GTK_USE_PORTAL"@, "0"@),
        plain_setting("GDK_BACKEND"@, "wayland"@),
        plain_setting("QT_QPA_PLATFORM"@, "wayland;xcb"@),
        plain_setting("NO_AT_BRIDGE"@, "1"@),
    ]
}

fn setting(name: &'static str, value: &str) -> (r: Setting)
    ensures
        (r.name@, r.value@) == plain_setting(name@, value@),
{
    Setting { name, value: bytes_of(value) }
}

/// The environment that every program of a session is given.
pub fn added_variables(runtime: &Vec<u8>, bus: &str) -> (r: Vec<Setting>)
    ensures
        settings_view(r@) == session_settings(runtime@, bus@),
{
    let mut v: Vec<Setting> = Vec::new();
    v.push(Setting { name: "XDG_RUNTIME_DIR", value: copy_bytes(runtime) });
    v.push(setting("DBUS_SESSION_BUS_ADDRESS", bus));
    v.push(setting("XDG_CURRENT_DESKTOP", "sway"));
    v.push(setting("XDG_SESSION_TYPE", "wayland"));
    v.push(setting("GTK_USE_PORTAL", "0"));
    v.push(setting("GDK_BACKEND", "wayland"));
    v.push(setting("QT_QPA_PLATFORM", "wayland;xcb"));
    v.push(setting("NO_AT_BRIDGE", "1"));
    assert(settings_view(v@) =~= session_settings(runtime@, bus@));
    v
}

/// Variables that tell a program where the user's own data is.
pub open spec fn personal(name: Seq<char>) -> bool {
    ||| name == "HOME"@
    ||| name == "XDG_CONFIG_HOME"@
    ||| name == "XDG_DATA_HOME"@
    ||| name == "XDG_STATE_HOME"@
    ||| name == "XDG_CACHE_HOME"@
}

/// Programs of a session use the user's own data: of the variables that lead there none is
/// taken away or set.
pub proof fn personal_data_is_shared(runtime: Seq<u8>, bus: Seq<char>)
    ensures
        forall|i: int|
            0 <= i < foreign_variables().len() ==> !personal(#[trigger] foreign_variables()[i]),
        forall|i: int|
            0 <= i < session_settings(runtime, bus).len() ==> !personal(
                (#[trigger] session_settings(runtime, bus)[i]).0,
            ),
{
    reveal_strlit("DISPLAY");
    reveal_strlit("XAUTHORITY");
    reveal_strlit("SESSION_MANAGER");
    reveal_strlit("WAYLAND_DISPLAY");
    reveal_strlit("WAYLAND_SOCKET");
    reveal_strlit("NIRI_SOCKET");
    reveal_strlit("SWAYSOCK");
    reveal_strlit("DBUS_SESSION_BUS_ADDRESS");
    reveal_strlit("DBUS_STARTER_ADDRESS");
    reveal_strlit("DBUS_STARTER_BUS_TYPE");
    reveal_strlit("XDG_ACTIVATION_TOKEN");
    reveal_strlit("DESKTOP_STARTUP_ID");
    reveal_strlit("GTK_IM_MODULE");
    reveal_strlit("QT_IM_MODULE");
    reveal_strlit("XMODIFIERS");
    reveal_strlit("AT_SPI_BUS_ADDRESS");
    reveal_strlit("XDG_RUNTIME_DIR");
    reveal_strlit("XDG_CURRENT_DESKTOP");
    reveal_strlit("XDG_SESSION_TYPE");
    reveal_strlit("GTK_USE_PORTAL");
    reveal_strlit("GDK_BACKEND");
    reveal_strlit("QT_QPA_PLATFORM");
    reveal_strlit("NO_AT_BRIDGE");
    reveal_strlit("HOME");
    reveal_strlit("XDG_CONFIG_HOME");
    reveal_strlit("XDG_DATA_HOME");
    reveal_strlit("XDG_STATE_HOME");
    reveal_strlit("XDG_CACHE_HOME");
    assert forall|i: int| 0 <= i < foreign_variables().len() implies !personal(
        #[trigger] foreign_variables()[i],
    ) by {
        differs(foreign_variables()[i]);
    }
    assert forall|i: int| 0 <= i < session_settings(runtime, bus).len() implies !personal(
        (#[trigger] session_settings(runtime, bus)[i]).0,
    ) by {
        differs(session_settings(runtime, bus)[i].0);
    }
}

/// A name that does not end as the personal ones do is none of them.
proof fn differs(name: Seq<char>)
    requires
        name.len() < 4 || name[name.len() - 4] != 'H' || name[name.len() - 3] != 'O'
            || name[name.len() - 2] != 'M' || name[name.len() - 1] != 'E',
    ensures
        !personal(name),
{
    reveal_strlit("HOME");
    reveal_strlit("XDG_CONFIG_HOME");
    reveal_strlit("XDG_DATA_HOME");
    reveal_strlit("XDG_STATE_HOME");
    reveal_strlit("XDG_CACHE_HOME");
}

/// The first bytes of every message to and from the compositor.
pub open spec fn magic() -> Seq<u8> {
    seq![105u8, 51u8, 45u8, 105u8, 112u8, 99u8]
}

/// Four bytes of a number, lowest first.
pub open spec fn little(n: u32) -> Seq<u8> {
    seq![
        (n % 256) as u8,
        (n / 256 % 256) as u8,
        (n / 65536 % 256) as u8,
        (n / 16777216) as u8,
    ]
}

/// Number of four bytes, lowest first.
pub open spec fn number(b: Seq<u8>) -> int {
    b[0] + b[1] * 256 + b[2] * 65536 + b[3] * 16777216
}

/// A message to the compositor.
pub open spec fn message(kind: u32, payload: Seq<u8>) -> Seq<u8> {
    magic() + little(payload.len() as u32) + little(kind) + payload
}

/// Length of the head of a message.
pub const HEAD: usize = 14;

/// Most bytes of an answer of the compositor.
pub const MAX_REPLY: u32 = 8388608;

fn push_little(out: &mut Vec<u8>, n: u32)
    ensures
        final(out)@ == old(out)@ + little(n),
{
    out.push((n % 256) as u8);
    out.push((n / 256 % 256) as u8);
    out.push((n / 65536 % 256) as u8);
    out.push((n / 16777216) as u8);
    assert(out@ =~= old(out)@ + little(n));
}

/// Writes a message to the compositor.
pub fn sway_message(kind: u32, payload: &str) -> (r: Vec<u8>)
    requires
        crate::text::bytes(payload@) <= u32::MAX,
    ensures
        r@ == message(kind, vstd::utf8::encode_utf8(payload@)),
{
    let body = bytes_of(payload);
    let mut out: Vec<u8> = Vec::new();
    out.push(105);
    out.push(51);
    out.push(45);
    out.push(105);
    out.push(112);
    out.push(99);
    assert(out@ =~= magic());
    let n: u32 = body.len() as u32;
    push_little(&mut out, n);
    push_little(&mut out, kind);
    let mut rest = body;
    out.append(&mut rest);
    assert(out@ =~= message(kind, vstd::utf8::encode_utf8(payload@)));
    out
}

/// Whether a head announces an answer of a kind.
pub open spec fn answers(head: Seq<u8>, kind: u32) -> bool {
    head.take(6) == magic() && number(head.subrange(10, 14)) == kind
}

fn read_little(head: &Vec<u8>, at: usize) -> (r: u32)
    requires
        at + 4 <= head@.len(),
    ensures
        r == number(head@.subrange(at as int, at + 4)),
{
    let total: usize = head.len();
    assert(at + 4 <= total);
    let b0: u32 = head[at] as u32;
    let b1: u32 = head[at + 1] as u32;
    let b2: u32 = head[at + 2] as u32;
    let b3: u32 = head[at + 3] as u32;
    b0 + b1 * 256 + b2 * 65536 + b3 * 16777216
}

/// Length of the answer that a head announces.
pub fn reply_length(head: &Vec<u8>, kind: u32) -> (r: Result<usize, Fault>)
    requires
        head@.len() == HEAD,
    ensures
        ({
            let length = number(head@.subrange(6, 10));
            if !answers(head@, kind) {
                r matches Err(e) && e.says(ErrorCode::BackendUnavailable, "Sway IPC 响应类型错误"@)
            } else if length > MAX_REPLY {
                r matches Err(e) && e.says(ErrorCode::BackendUnavailable, "Sway IPC 响应过大"@)
            } else {
                r matches Ok(n) && n == length
            }
        }),
{
    let known = head[0] == 105 && head[1] == 51 && head[2] == 45 && head[3] == 105 && head[4] == 112
        && head[5] == 99;
    proof {
        let t = head@.take(6);
        assert(known == (t =~= magic())) by {
            if t =~= magic() {
                assert(t[0] == magic()[0] && t[1] == magic()[1] && t[2] == magic()[2] && t[3]
                    == magic()[3] && t[4] == magic()[4] && t[5] == magic()[5]);
            }
        }
    }
    if !known || read_little(head, 10) != kind {
        return Err(Fault::unavailable("Sway IPC 响应类型错误"));
    }
    let length: u32 = read_little(head, 6);
    if length > MAX_REPLY {
        return Err(Fault::unavailable("Sway IPC 响应过大"));
    }
    Ok(length as usize)
}

/// What is written as a message is read as an answer of its kind and length.
pub proof fn messages_read_back(kind: u32, payload: Seq<u8>)
    requires
        payload.len() <= u32::MAX,
    ensures
        ({
            let head = message(kind, payload).take(HEAD as int);
            &&& head.len() == HEAD
            &&& answers(head, kind)
            &&& number(head.subrange(6, 10)) == payload.len()
            &&& message(kind, payload).skip(HEAD as int) == payload
        }),
{
    let m = message(kind, payload);
    let head = m.take(HEAD as int);
    let n = payload.len() as u32;
    assert(head.take(6) =~= magic());
    assert(head.subrange(6, 10) =~= little(n));
    assert(head.subrange(10, 14) =~= little(kind));
    lemma_little(n);
    lemma_little(kind);
    assert(m.skip(HEAD as int) =~= payload);
}

proof fn lemma_little(n: u32)
    ensures
        number(little(n)) == n,
{
    assert(n % 256 + n / 256 % 256 * 256 + n / 65536 % 256 * 65536 + n / 16777216 * 16777216 == n);
}

/// A window of the compositor's tree: its X11 window, its process, and its number, place and
/// focus.
#[derive(Debug)]
pub struct TreeWindow {
    pub window: Option<u64>,
    pub pid: Option<u64>,
    pub mark: Vec<Json>,
}

/// A window of the tree by its values.
#[verifier::ext_equal]
pub struct TreeWindowView {
    pub window: Option<u64>,
    pub pid: Option<u64>,
    pub mark: Seq<JsonView>,
}

impl View for TreeWindow {
    type V = TreeWindowView;

    open spec fn view(&self) -> TreeWindowView {
        TreeWindowView { window: self.window, pid: self.pid, mark: list_view(self.mark@) }
    }
}

/// Windows of the tree by their values.
pub open spec fn tree_view(v: Seq<TreeWindow>) -> Seq<TreeWindowView> {
    v.map_values(|w: TreeWindow| w@)
}

/// Whether a node is a window: an X11 window, or a process that names an application.
pub open spec fn is_window(n: JsonView) -> bool {
    n.field("window"@).number() is Some || (n.field("pid"@).number() is Some && n.field("app_id"@)
        != JsonView::Null)
}

/// What is noted of a window.
pub open spec fn window_of(n: JsonView) -> TreeWindowView {
    TreeWindowView {
        window: n.field("window"@).number(),
        pid: n.field("pid"@).number(),
        mark: seq![n.field("id"@), n.field("rect"@), n.field("focused"@)],
    }
}

/// The windows of a tree: a node before what is below it, tiled ones before floating ones.
pub open spec fn windows_of(n: JsonView) -> Seq<TreeWindowView>
    decreases n, 0int,
{
    let tiled = items(n.field("nodes"@));
    let floating = items(n.field("floating_nodes"@));
    proof {
        if tiled.len() > 0 {
            lists_are_smaller(n, "nodes"@);
        }
        if floating.len() > 0 {
            lists_are_smaller(n, "floating_nodes"@);
        }
    }
    (if is_window(n) {
        seq![window_of(n)]
    } else {
        Seq::empty()
    }) + (if tiled.len() > 0 {
        windows_in(tiled)
    } else {
        Seq::empty()
    }) + (if floating.len() > 0 {
        windows_in(floating)
    } else {
        Seq::empty()
    })
}

/// The windows of some trees, one after the other.
pub open spec fn windows_in(v: Seq<JsonView>) -> Seq<TreeWindowView>
    decreases v, 0int,
{
    if v.len() == 0 {
        Seq::empty()
    } else {
        windows_in(v.drop_last()) + windows_of(v[v.len() - 1])
    }
}

/// Collects the windows of the trees in a list below a node.
fn windows_below(node: &Json, key: &str, out: &mut Vec<TreeWindow>)
    ensures
        tree_view(final(out)@) == tree_view(old(out)@) + windows_in(items(node@.field(key@))),
    decreases *node, 0int,
{
    let ghost start = tree_view(out@);
    let ghost nothing: Seq<TreeWindowView> = Seq::empty();
    assert(start + nothing =~= start);
    match node {
        Json::Object { keys, values } => {
            let k: usize = find_key(keys, key);
            assert(texts(keys@).len() == keys@.len());
            assert(list_view(values@).len() == values@.len());
            if k < keys.len() && k < values.len() {
                assert(list_view(values@)[k as int] == json_view(values@[k as int]));
                match &values[k] {
                    Json::List(v) => {
                        let ghost all = list_view(v@);
                        assert(items(node@.field(key@)) == all);
                        let mut i: usize = 0;
                        assert(all.take(0) =~= Seq::empty());
                        while i < v.len()
                            invariant
                                i <= v@.len(),
                                *node == (Json::Object { keys: *keys, values: *values }),
                                k < values@.len(),
                                values@[k as int] == Json::List(*v),
                                all == list_view(v@),
                                tree_view(out@) == start + windows_in(all.take(i as int)),
                            decreases v@.len() - i,
                        {
                            proof {
                                assert(decreases_to!(*node => node->values@[k as int]));
                                let list = node->values@[k as int];
                                assert(decreases_to!(list => list->List_0@[i as int]));
                            }
                            windows(&v[i], out);
                            proof {
                                let t = all.take(i + 1);
                                assert(t.drop_last() =~= all.take(i as int));
                                assert(t[t.len() - 1] == json_view(v@[i as int]));
                                assert(tree_view(out@) =~= start + windows_in(t));
                            }
                            i = i + 1;
                        }
                        assert(all.take(i as int) =~= all);
                    },
                    _ => {},
                }
            }
        },
        _ => {},
    }
}

/// Collects the windows of a tree.
pub fn windows(node: &Json, out: &mut Vec<TreeWindow>)
    ensures
        tree_view(final(out)@) == tree_view(old(out)@) + windows_of(node@),
    decreases *node, 1int,
{
    let ghost start = tree_view(out@);
    let ghost own = if is_window(node@) {
        seq![window_of(node@)]
    } else {
        Seq::empty()
    };
    let window = node.number("window");
    let pid = node.number("pid");
    if window.is_some() || (pid.is_some() && node.has("app_id")) {
        let mut mark: Vec<Json> = Vec::new();
        mark.push(node.copy_field("id"));
        mark.push(node.copy_field("rect"));
        mark.push(node.copy_field("focused"));
        assert(list_view(mark@) =~= window_of(node@).mark);
        out.push(TreeWindow { window, pid, mark });
    }
    assert(tree_view(out@) =~= start + own);
    windows_below(node, "nodes", out);
    windows_below(node, "floating_nodes", out);
    assert(tree_view(out@) =~= start + windows_of(node@));
}

/// Reads an answer of the compositor.
pub fn read_answer(answer: &Vec<u8>) -> (r: Result<Json, Fault>)
    ensures
        match json_of(answer@) {
            Ok(v) => r matches Ok(j) && j@ == v,
            Err(m) => r matches Err(e) && e.says(ErrorCode::BackendUnavailable, m),
        },
{
    match read_json(answer) {
        Ok(j) => Ok(j),
        Err(m) => Err(Fault::unavailable(m.as_str())),
    }
}

/// The windows of the tree that an answer of the compositor holds.
pub fn read_windows(answer: &Vec<u8>) -> (r: Result<Vec<TreeWindow>, Fault>)
    ensures
        match json_of(answer@) {
            Ok(tree) => r matches Ok(v) && tree_view(v@) == windows_of(tree),
            Err(m) => r matches Err(e) && e.says(ErrorCode::BackendUnavailable, m),
        },
{
    match read_answer(answer) {
        Ok(tree) => {
            let mut out: Vec<TreeWindow> = Vec::new();
            windows(&tree, &mut out);
            assert(tree_view(out@) =~= windows_of(tree@));
            Ok(out)
        },
        Err(e) => Err(e),
    }
}

/// What is noted of an output.
pub open spec fn output_mark(o: JsonView) -> Seq<JsonView> {
    seq![
        o.field("name"@),
        o.field("rect"@),
        o.field("scale"@),
        o.field("transform"@),
        o.field("current_mode"@),
        o.field("active"@),
    ]
}

/// What is noted of each output.
pub open spec fn output_marks(v: Seq<JsonView>) -> Seq<Seq<JsonView>> {
    v.map_values(|o: JsonView| output_mark(o))
}

/// Notes by their values.
pub open spec fn marks_view(v: Seq<Vec<Json>>) -> Seq<Seq<JsonView>> {
    v.map_values(|m: Vec<Json>| list_view(m@))
}

/// What is noted of each output, if there is a list of them.
pub fn note_outputs(outputs: &Json) -> (r: Option<Vec<Vec<Json>>>)
    ensures
        match outputs@ {
            JsonView::List(v) => r matches Some(m) && marks_view(m@) == output_marks(v),
            _ => r is None,
        },
{
    match outputs {
        Json::List(v) => {
            let ghost all = list_view(v@);
            let mut out: Vec<Vec<Json>> = Vec::new();
            let mut i: usize = 0;
            assert(marks_view(out@) =~= output_marks(all.take(0)));
            while i < v.len()
                invariant
                    i <= v@.len(),
                    all == list_view(v@),
                    marks_view(out@) == output_marks(all.take(i as int)),
                decreases v@.len() - i,
            {
                let ghost was = marks_view(out@);
                let o = &v[i];
                let mut mark: Vec<Json> = Vec::new();
                mark.push(o.copy_field("name"));
                mark.push(o.copy_field("rect"));
                mark.push(o.copy_field("scale"));
                mark.push(o.copy_field("transform"));
                mark.push(o.copy_field("current_mode"));
                mark.push(o.copy_field("active"));
                assert(list_view(mark@) =~= output_mark(o@));
                out.push(mark);
                proof {
                    assert(all[i as int] == o@);
                    assert(marks_view(out@) =~= was.push(output_mark(o@)));
                    assert(all.take(i + 1) =~= all.take(i as int).push(all[i as int]));
                    assert(output_marks(all.take(i + 1)) =~= was.push(output_mark(o@)));
                }
                i = i + 1;
            }
            assert(all.take(i as int) =~= all);
            Some(out)
        },
        _ => None,
    }
}

/// The number of an X11 window, which has thirty-two bits.
pub open spec fn xid(n: u64) -> u32 {
    (n % 0x1_0000_0000) as u32
}

/// The X11 windows among those of the tree.
pub open spec fn managed_of(list: Seq<TreeWindowView>) -> Seq<u32> {
    list.filter_map(
        |w: TreeWindowView|
            match w.window {
                Some(n) => Some(xid(n)),
                None => None,
            },
    )
}

/// The X11 windows among those of the tree.
pub fn managed_windows(list: &Vec<TreeWindow>) -> (r: Vec<u32>)
    ensures
        r@ == managed_of(tree_view(list@)),
{
    let ghost f = |w: TreeWindowView|
        match w.window {
            Some(n) => Some(xid(n)),
            None => None,
        };
    let ghost all = tree_view(list@);
    let mut out: Vec<u32> = Vec::new();
    let mut i: usize = 0;
    assert(out@ =~= all.take(0).filter_map(f));
    while i < list.len()
        invariant
            i <= list@.len(),
            all == tree_view(list@),
            f == (|w: TreeWindowView|
                match w.window {
                    Some(n) => Some(xid(n)),
                    None => None,
                }),
            out@ == all.take(i as int).filter_map(f),
        decreases list@.len() - i,
    {
        proof {
            all.lemma_filter_map_take_succ(f, i as int);
            assert(all[i as int] == list@[i as int]@);
        }
        match list[i].window {
            Some(n) => {
                let id: u32 = (n % 0x1_0000_0000) as u32;
                out.push(id);
            },
            None => {},
        }
        i = i + 1;
    }
    assert(all.take(i as int) =~= all);
    out
}

/// The fault of a session whose application or compositor is gone.
pub fn check_alive(sway: bool, app: bool) -> (r: Result<(), Fault>)
    ensures
        if sway && app {
            r is Ok
        } else {
            r matches Err(e) && e.says(ErrorCode::StaleTarget, "独立应用或合成器已退出"@)
        },
{
    if sway && app {
        Ok(())
    } else {
        Err(Fault::stale("独立应用或合成器已退出"))
    }
}

/// The X11 windows to look up, from the windows of the tree. There must be some window, and
/// X11 windows need the session's own X11 server.
pub fn listed_windows(list: &Vec<TreeWindow>, x11: bool) -> (r: Result<Vec<u32>, Fault>)
    ensures
        if list@.len() == 0 {
            r matches Err(e) && e.says(ErrorCode::StaleTarget, "应用没有窗口"@)
        } else if !x11 && managed_of(tree_view(list@)).len() > 0 {
            r matches Err(e) && e.says(
                ErrorCode::PermissionDenied,
                "此旧会话没有获准的 X11 端点"@,
            )
        } else {
            r matches Ok(v) && v@ == managed_of(tree_view(list@))
        },
{
    if list.len() == 0 {
        return Err(Fault::stale("应用没有窗口"));
    }
    let managed = managed_windows(list);
    if !x11 && managed.len() > 0 {
        return Err(Fault::denied("此旧会话没有获准的 X11 端点"));
    }
    Ok(managed)
}

/// An X11 window, and whether its process descends from the application.
#[derive(Debug)]
pub struct OwnedWindow {
    pub window: Window,
    pub descends: bool,
}

/// What was found out of the process of a window that is not an X11 window.
#[derive(Debug)]
pub struct Owner {
    pub process: Result<ProcessIdentity, Fault>,
    pub descends: bool,
}

/// An owned window by its values.
#[verifier::ext_equal]
pub struct OwnedView {
    pub window: WindowView,
    pub descends: bool,
}

/// An owner by its values.
#[verifier::ext_equal]
pub struct OwnerView {
    pub process: Result<IdentityView, FaultView>,
    pub descends: bool,
}

impl View for OwnedWindow {
    type V = OwnedView;

    open spec fn view(&self) -> OwnedView {
        OwnedView { window: self.window@, descends: self.descends }
    }
}

impl View for Owner {
    type V = OwnerView;

    open spec fn view(&self) -> OwnerView {
        OwnerView {
            process: match self.process {
                Ok(p) => Ok(p@),
                Err(f) => Err(f@),
            },
            descends: self.descends,
        }
    }
}

/// Owned windows by their values.
pub open spec fn owned_view(v: Seq<OwnedWindow>) -> Seq<OwnedView> {
    v.map_values(|w: OwnedWindow| w@)
}

/// Owners by their values.
pub open spec fn owners_view(v: Seq<Owner>) -> Seq<OwnerView> {
    v.map_values(|o: Owner| o@)
}

/// Whether a process is the application: a descendant of it that runs the same program. The
/// user's own view of a session takes every window.
pub open spec fn authorized(
    process: IdentityView,
    descends: bool,
    program: Seq<u8>,
    local_only: bool,
) -> bool {
    local_only || (descends && route(process.executable) == route(program))
}

/// The fault of a window of another application.
pub open spec fn stranger() -> FaultView {
    fault(
        ErrorCode::PermissionDenied,
        "独立会话出现未授权应用窗口；暂停观察和输入，请在本地接管处理"@,
    )
}

/// Whether an X11 window is allowed: one of the compositor itself, or of the application.
pub open spec fn tolerated(
    w: OwnedView,
    sway: IdentityView,
    program: Seq<u8>,
    local_only: bool,
) -> bool {
    w.window.process.fits(sway) || authorized(w.window.process, w.descends, program, local_only)
}

/// Place of the X11 window with a number, or the end.
pub open spec fn place(xwindows: Seq<OwnedView>, id: u32) -> int
    decreases xwindows.len(),
{
    if xwindows.len() == 0 {
        0
    } else if xwindows[0].window.id == id {
        0
    } else {
        1 + place(xwindows.drop_first(), id)
    }
}

/// The owner of a window of the tree, or why there is none.
pub open spec fn owner_of(
    w: TreeWindowView,
    owner: OwnerView,
    xwindows: Seq<OwnedView>,
) -> Result<(IdentityView, bool), FaultView> {
    match w.window {
        Some(n) => {
            let k = place(xwindows, xid(n));
            if k < xwindows.len() {
                Ok((xwindows[k].window.process, xwindows[k].descends))
            } else {
                Err(fault(ErrorCode::StaleTarget, "X11 窗口已关闭"@))
            }
        },
        None => if w.pid is None {
            Err(fault(ErrorCode::PermissionDenied, "窗口没有可验证身份"@))
        } else {
            match owner.process {
                Ok(p) => Ok((p, owner.descends)),
                Err(f) => Err(f),
            }
        },
    }
}

/// A window of a layout: its mark and the process that it belongs to.
#[derive(Debug)]
pub struct Placed {
    pub mark: Vec<Json>,
    pub process: ProcessIdentity,
}

/// Windows of a layout by their values.
pub open spec fn placed_view(v: Seq<Placed>) -> Seq<(Seq<JsonView>, IdentityView)> {
    v.map_values(|p: Placed| (list_view(p.mark@), p.process@))
}

/// The windows of the tree with their processes, or why the layout is refused.
pub open spec fn placed_of(
    list: Seq<TreeWindowView>,
    owners: Seq<OwnerView>,
    xwindows: Seq<OwnedView>,
    program: Seq<u8>,
    local_only: bool,
) -> Result<Seq<(Seq<JsonView>, IdentityView)>, FaultView>
    decreases list.len(),
{
    if list.len() == 0 {
        Ok(Seq::empty())
    } else {
        match placed_of(list.drop_last(), owners, xwindows, program, local_only) {
            Err(f) => Err(f),
            Ok(before) => match owner_of(list.last(), owners[list.len() - 1], xwindows) {
                Err(f) => Err(f),
                Ok((process, descends)) => if authorized(process, descends, program, local_only) {
                    Ok(before.push((list.last().mark, process)))
                } else {
                    Err(stranger())
                },
            },
        }
    }
}

/// The layout of the windows, or why it is refused: every X11 window, menus among them, and
/// every window of the tree must belong to the application.
pub open spec fn checked(
    list: Seq<TreeWindowView>,
    owners: Seq<OwnerView>,
    xwindows: Seq<OwnedView>,
    sway: IdentityView,
    program: Seq<u8>,
    local_only: bool,
) -> Result<Seq<(Seq<JsonView>, IdentityView)>, FaultView> {
    if exists|i: int|
        0 <= i < xwindows.len() && !tolerated(#[trigger] xwindows[i], sway, program, local_only) {
        Err(stranger())
    } else {
        placed_of(list, owners, xwindows, program, local_only)
    }
}

fn copy_values(v: &Vec<Json>) -> (r: Vec<Json>)
    ensures
        list_view(r@) == list_view(v@),
{
    let mut out: Vec<Json> = Vec::new();
    let mut i: usize = 0;
    while i < v.len()
        invariant
            i <= v@.len(),
            out@.len() == i,
            forall|j: int| 0 <= j < i ==> json_view(#[trigger] out@[j]) == json_view(v@[j]),
        decreases v@.len() - i,
    {
        out.push(v[i].clone());
        i = i + 1;
    }
    assert(list_view(out@) =~= list_view(v@));
    out
}

/// Finds the X11 window with a number.
pub fn find_window(xwindows: &Vec<OwnedWindow>, id: u32) -> (r: Option<usize>)
    ensures
        ({
            let k = place(owned_view(xwindows@), id);
            match r {
                Some(i) => i < xwindows@.len() && k == i,
                None => k == xwindows@.len(),
            }
        }),
{
    let ghost all = owned_view(xwindows@);
    let mut i: usize = 0;
    assert(all.skip(0) =~= all);
    while i < xwindows.len()
        invariant
            i <= xwindows@.len(),
            all == owned_view(xwindows@),
            place(all, id) == i + place(all.skip(i as int), id),
        decreases xwindows@.len() - i,
    {
        assert(all.skip(i as int)[0] == xwindows@[i as int]@);
        if xwindows[i].window.id == id {
            return Some(i);
        }
        assert(all.skip(i as int).drop_first() =~= all.skip(i + 1));
        i = i + 1;
    }
    assert(all.skip(i as int) =~= Seq::empty());
    None
}

proof fn lemma_refused(
    list: Seq<TreeWindowView>,
    owners: Seq<OwnerView>,
    xwindows: Seq<OwnedView>,
    program: Seq<u8>,
    local_only: bool,
    n: int,
)
    requires
        0 <= n <= list.len(),
        placed_of(list.take(n), owners, xwindows, program, local_only) is Err,
    ensures
        placed_of(list, owners, xwindows, program, local_only) == placed_of(
            list.take(n),
            owners,
            xwindows,
            program,
            local_only,
        ),
    decreases list.len() - n,
{
    if n < list.len() {
        assert(list.take(n + 1).drop_last() =~= list.take(n));
        lemma_refused(list, owners, xwindows, program, local_only, n + 1);
    } else {
        assert(list.take(n) =~= list);
    }
}

/// Checks that every window belongs to the application, and notes where each one is.
pub fn check_windows(
    saved: &SavedSession,
    local_only: bool,
    list: &Vec<TreeWindow>,
    owners: &Vec<Owner>,
    xwindows: &Vec<OwnedWindow>,
) -> (r: Result<Vec<Placed>, Fault>)
    requires
        owners@.len() == list@.len(),
    ensures
        match checked(
            tree_view(list@),
            owners_view(owners@),
            owned_view(xwindows@),
            saved.sway@,
            saved.app.executable@,
            local_only,
        ) {
            Ok(v) => r matches Ok(p) && placed_view(p@) == v,
            Err(f) => r matches Err(e) && e@ == f,
        },
{
    let ghost tree = tree_view(list@);
    let ghost known = owners_view(owners@);
    let ghost all = owned_view(xwindows@);
    let ghost program = saved.app.executable@;
    let mut i: usize = 0;
    while i < xwindows.len()
        invariant
            i <= xwindows@.len(),
            all == owned_view(xwindows@),
            program == saved.app.executable@,
            forall|j: int|
                0 <= j < i ==> tolerated(#[trigger] all[j], saved.sway@, program, local_only),
        decreases xwindows@.len() - i,
    {
        let w = &xwindows[i];
        assert(all[i as int] == w@);
        let fine = w.window.process.same_process(&saved.sway) || local_only || (w.descends
            && same_path(&w.window.process.executable, &saved.app.executable));
        if !fine {
            assert(!tolerated(all[i as int], saved.sway@, program, local_only));
            return Err(
                Fault::denied("独立会话出现未授权应用窗口；暂停观察和输入，请在本地接管处理"),
            );
        }
        i = i + 1;
    }
    assert(i == all.len());
    let mut out: Vec<Placed> = Vec::new();
    let mut n: usize = 0;
    assert(tree.take(0) =~= Seq::empty());
    assert(placed_view(out@) =~= Seq::empty());
    while n < list.len()
        invariant
            n <= list@.len(),
            owners@.len() == list@.len(),
            tree == tree_view(list@),
            known == owners_view(owners@),
            all == owned_view(xwindows@),
            program == saved.app.executable@,
            forall|j: int|
                0 <= j < all.len() ==> tolerated(
                    #[trigger] all[j],
                    saved.sway@,
                    program,
                    local_only,
                ),
            placed_of(tree.take(n as int), known, all, program, local_only) == Ok::<
                Seq<(Seq<JsonView>, IdentityView)>,
                FaultView,
            >(placed_view(out@)),
        decreases list@.len() - n,
    {
        let ghost was = placed_view(out@);
        let window = &list[n];
        proof {
            assert(tree.take(n + 1).drop_last() =~= tree.take(n as int));
            assert(tree.take(n + 1).last() == window@);
            assert(known[n as int] == owners@[n as int]@);
        }
        let (process, descends) = match window.window {
            Some(number) => {
                let id: u32 = (number % 0x1_0000_0000) as u32;
                match find_window(xwindows, id) {
                    Some(k) => {
                        assert(all[k as int] == xwindows@[k as int]@);
                        (&xwindows[k].window.process, xwindows[k].descends)
                    },
                    None => {
                        proof {
                            lemma_refused(tree, known, all, program, local_only, n + 1);
                        }
                        return Err(Fault::stale("X11 窗口已关闭"));
                    },
                }
            },
            None => {
                if window.pid.is_none() {
                    proof {
                        lemma_refused(tree, known, all, program, local_only, n + 1);
                    }
                    return Err(Fault::denied("窗口没有可验证身份"));
                }
                match &owners[n].process {
                    Ok(p) => (p, owners[n].descends),
                    Err(f) => {
                        proof {
                            lemma_refused(tree, known, all, program, local_only, n + 1);
                        }
                        return Err(f.clone());
                    },
                }
            },
        };
        if !(local_only || (descends && same_path(&process.executable, &saved.app.executable))) {
            proof {
                lemma_refused(tree, known, all, program, local_only, n + 1);
            }
            return Err(
                Fault::denied("独立会话出现未授权应用窗口；暂停观察和输入，请在本地接管处理"),
            );
        }
        out.push(Placed { mark: copy_values(&window.mark), process: process.clone() });
        assert(placed_view(out@) =~= was.push((window@.mark, process@)));
        n = n + 1;
    }
    assert(tree.take(n as int) =~= tree);
    Ok(out)
}

/// Where a layout passes, every X11 window is the compositor's own or the application's, and
/// every window of the tree has an owner that is the application.
pub proof fn no_stranger_passes(
    list: Seq<TreeWindowView>,
    owners: Seq<OwnerView>,
    xwindows: Seq<OwnedView>,
    sway: IdentityView,
    program: Seq<u8>,
)
    requires
        checked(list, owners, xwindows, sway, program, false) is Ok,
    ensures
        forall|i: int|
            0 <= i < xwindows.len() ==> (#[trigger] xwindows[i]).window.process.fits(sway) || (
            xwindows[i].descends && route(xwindows[i].window.process.executable) == route(program)),
        forall|i: int|
            0 <= i < list.len() ==> (owner_of(#[trigger] list[i], owners[i], xwindows) matches Ok(
                (process, descends),
            ) && descends && route(process.executable) == route(program)),
{
    assert forall|i: int| 0 <= i < xwindows.len() implies (
    #[trigger] xwindows[i]).window.process.fits(sway) || (xwindows[i].descends && route(
        xwindows[i].window.process.executable,
    ) == route(program)) by {
        assert(tolerated(xwindows[i], sway, program, false));
    }
    assert forall|i: int| 0 <= i < list.len() implies (owner_of(
        #[trigger] list[i],
        owners[i],
        xwindows,
    ) matches Ok((process, descends)) && descends && route(process.executable) == route(program)) by {
        lemma_placed(list, owners, xwindows, program, i);
    }
}

proof fn lemma_placed(
    list: Seq<TreeWindowView>,
    owners: Seq<OwnerView>,
    xwindows: Seq<OwnedView>,
    program: Seq<u8>,
    i: int,
)
    requires
        0 <= i < list.len(),
        placed_of(list, owners, xwindows, program, false) is Ok,
    ensures
        owner_of(list[i], owners[i], xwindows) matches Ok((process, descends)) && descends
            && route(process.executable) == route(program),
    decreases list.len(),
{
    if i < list.len() - 1 {
        lemma_placed(list.drop_last(), owners, xwindows, program, i);
    }
}

/// Where everything is: windows, X11 windows and outputs.
#[derive(Debug)]
pub struct Layout {
    pub windows: Vec<Placed>,
    pub x11: Vec<OwnedWindow>,
    pub outputs: Vec<Vec<Json>>,
}

/// A layout by its values.
#[verifier::ext_equal]
pub struct LayoutView {
    pub windows: Seq<(Seq<JsonView>, IdentityView)>,
    pub x11: Seq<WindowView>,
    pub outputs: Seq<Seq<JsonView>>,
}

/// The X11 windows among owned ones.
pub open spec fn bare(v: Seq<OwnedWindow>) -> Seq<WindowView> {
    v.map_values(|w: OwnedWindow| w.window@)
}

impl View for Layout {
    type V = LayoutView;

    open spec fn view(&self) -> LayoutView {
        LayoutView {
            windows: placed_view(self.windows@),
            x11: bare(self.x11@),
            outputs: marks_view(self.outputs@),
        }
    }
}

fn same_window(a: &Window, b: &Window) -> (r: bool)
    ensures
        r == (a@ == b@),
{
    let r = a.id == b.id && a.process.equals(&b.process) && a.geometry.0 == b.geometry.0
        && a.geometry.1 == b.geometry.1 && a.geometry.2 == b.geometry.2 && a.geometry.3
        == b.geometry.3 && a.mapped == b.mapped && a.override_redirect == b.override_redirect;
    proof {
        if r {
            assert(a@ =~= b@);
        } else if a@ == b@ {
            assert(a@.process == b@.process && a@.geometry == b@.geometry && a@.id == b@.id
                && a@.mapped == b@.mapped && a@.override_redirect == b@.override_redirect);
        }
    }
    r
}

impl Layout {
    /// Completes a layout with the outputs, which must be a list.
    pub fn complete(windows: Vec<Placed>, x11: Vec<OwnedWindow>, outputs: &Json) -> (r: Result<
        Self,
        Fault,
    >)
        ensures
            match outputs@ {
                JsonView::List(v) => {
                    &&& r matches Ok(l)
                    &&& l@ == (LayoutView {
                        windows: placed_view(windows@),
                        x11: bare(x11@),
                        outputs: output_marks(v),
                    })
                },
                _ => r matches Err(e) && e.says(ErrorCode::StaleTarget, "虚拟输出列表无效"@),
            },
    {
        match note_outputs(outputs) {
            Some(outputs) => Ok(Layout { windows, x11, outputs }),
            None => Err(Fault::stale("虚拟输出列表无效")),
        }
    }

    fn same_outputs(&self, other: &Layout) -> (r: bool)
        ensures
            r == (self@.outputs == other@.outputs),
    {
        assert(self@.outputs.len() == self.outputs@.len());
        assert(other@.outputs.len() == other.outputs@.len());
        if self.outputs.len() != other.outputs.len() {
            return false;
        }
        let mut i: usize = 0;
        while i < self.outputs.len()
            invariant
                i <= self.outputs@.len(),
                self.outputs@.len() == other.outputs@.len(),
                forall|j: int| 0 <= j < i ==> #[trigger] self@.outputs[j] == other@.outputs[j],
            decreases self.outputs@.len() - i,
        {
            assert(self@.outputs[i as int] == list_view(self.outputs@[i as int]@));
            assert(other@.outputs[i as int] == list_view(other.outputs@[i as int]@));
            if !same_values(&self.outputs[i], &other.outputs[i]) {
                return false;
            }
            i = i + 1;
        }
        assert(self@.outputs =~= other@.outputs);
        true
    }

    /// Whether nothing changed from one layout to another.
    pub fn equals(&self, other: &Layout) -> (r: bool)
        ensures
            r == (self@ == other@),
    {
        if self.windows.len() != other.windows.len() || self.x11.len() != other.x11.len()
            || !self.same_outputs(other) {
            proof {
                if self@ == other@ {
                    assert(self@.windows.len() == other@.windows.len());
                    assert(self@.x11.len() == other@.x11.len());
                    assert(self@.outputs == other@.outputs);
                }
            }
            return false;
        }
        let mut i: usize = 0;
        while i < self.windows.len()
            invariant
                i <= self.windows@.len(),
                self.windows@.len() == other.windows@.len(),
                self@.outputs == other@.outputs,
                forall|j: int|
                    0 <= j < i ==> #[trigger] self@.windows[j] == other@.windows[j],
            decreases self.windows@.len() - i,
        {
            let a = &self.windows[i];
            let b = &other.windows[i];
            assert(self@.windows[i as int] == (list_view(a.mark@), a.process@));
            assert(other@.windows[i as int] == (list_view(b.mark@), b.process@));
            if !(same_values(&a.mark, &b.mark) && a.process.equals(&b.process)) {
                assert(self@.windows[i as int] != other@.windows[i as int]);
                return false;
            }
            i = i + 1;
        }
        let mut k: usize = 0;
        while k < self.x11.len()
            invariant
                k <= self.x11@.len(),
                self.x11@.len() == other.x11@.len(),
                forall|j: int| 0 <= j < k ==> #[trigger] self@.x11[j] == other@.x11[j],
            decreases self.x11@.len() - k,
        {
            assert(self@.x11[k as int] == self.x11@[k as int].window@);
            assert(other@.x11[k as int] == other.x11@[k as int].window@);
            if !same_window(&self.x11[k].window, &other.x11[k].window) {
                assert(self@.x11[k as int] != other@.x11[k as int]);
                return false;
            }
            k = k + 1;
        }
        assert(self@ =~= other@);
        true
    }
}

/// Place of the first output with a name, or the end.
pub open spec fn output_place(outputs: Seq<JsonView>, name: Seq<char>) -> int
    decreases outputs.len(),
{
    if outputs.len() == 0 {
        0
    } else if outputs[0].field("name"@) == JsonView::Text(name) {
        0
    } else {
        1 + output_place(outputs.drop_first(), name)
    }
}

/// The scale of the first output with a name.
pub open spec fn scale_of(outputs: JsonView, name: Seq<char>) -> Option<Binary64> {
    let k = output_place(items(outputs), name);
    if 0 <= k < items(outputs).len() {
        items(outputs)[k].field("scale"@).float()
    } else {
        None
    }
}

fn find_scale(outputs: &Json, name: &str) -> (r: Option<Binary64>)
    ensures
        r == scale_of(outputs@, name@),
{
    match outputs {
        Json::List(v) => {
            let ghost all = list_view(v@);
            let mut i: usize = 0;
            assert(all.skip(0) =~= all);
            while i < v.len()
                invariant
                    i <= v@.len(),
                    *outputs == Json::List(*v),
                    all == list_view(v@),
                    output_place(all, name@) == i + output_place(all.skip(i as int), name@),
                decreases v@.len() - i,
            {
                assert(all.skip(i as int)[0] == json_view(v@[i as int]));
                let found = match v[i].text("name") {
                    Some(n) => same(n.as_str(), name),
                    None => false,
                };
                if found {
                    return v[i].float("scale");
                }
                assert(all.skip(i as int).drop_first() =~= all.skip(i + 1));
                i = i + 1;
            }
            assert(all.skip(i as int) =~= Seq::empty());
            None
        },
        _ => None,
    }
}

/// The scale of an output, which must be a positive number.
pub fn output_scale(outputs: &Json, name: &str) -> (r: Result<Binary64, Fault>)
    ensures
        match scale_of(outputs@, name@) {
            Some(s) => if s.finite() && s.value() > 0 {
                r == Ok::<Binary64, Fault>(s)
            } else {
                r matches Err(e) && e.says(ErrorCode::StaleTarget, "虚拟显示器缩放信息无效"@)
            },
            None => r matches Err(e) && e.says(ErrorCode::StaleTarget, "虚拟显示器缩放信息无效"@),
        },
{
    match find_scale(outputs, name) {
        Some(s) => {
            if s.is_finite() && Binary64::from_u32(0).less(s) {
                return Ok(s);
            }
            Err(Fault::stale("虚拟显示器缩放信息无效"))
        },
        None => Err(Fault::stale("虚拟显示器缩放信息无效")),
    }
}

/// The first output: the size of its pictures, and its scale.
#[derive(Debug)]
pub struct Screen {
    pub width: u32,
    pub height: u32,
    pub scale: Result<Binary64, Fault>,
}

/// What can be done with an isolated application.
pub open spec fn isolated_capabilities() -> Seq<Seq<char>> {
    seq!["screenshot"@, "click"@, "drag"@, "scroll"@, "key"@, "text"@]
}

/// What can be done with an isolated application.
pub fn capabilities() -> (r: Vec<String>)
    ensures
        texts(r@) == isolated_capabilities(),
{
    let mut v: Vec<String> = Vec::new();
    v.push("screenshot".to_owned());
    v.push("click".to_owned());
    v.push("drag".to_owned());
    v.push("scroll".to_owned());
    v.push("key".to_owned());
    v.push("text".to_owned());
    assert(texts(v@) =~= isolated_capabilities());
    v
}

/// An isolated application.
pub struct Isolated {
    pub saved: SavedSession,
    pub target_id: String,
    /// Layout and revision of the outputs at the latest observation, until it is used.
    pub geometry: Option<(Layout, u64)>,
    /// Whether this is the user's own view, which takes every window.
    pub local_only: bool,
}

impl Isolated {
    /// An application under a given reference.
    pub fn open_as(saved: SavedSession, target_id: String) -> (r: Self)
        ensures
            r == (Isolated { saved, target_id, geometry: None, local_only: false }),
    {
        Isolated { saved, target_id, geometry: None, local_only: false }
    }

    /// An application under a new reference.
    pub fn open(saved: SavedSession) -> (r: Self)
        ensures
            r.saved == saved,
            crate::identifier::identifier(r.target_id@),
            r.geometry is None,
            !r.local_only,
    {
        Isolated::open_as(saved, fresh_identifier())
    }

    /// The user's own view of the application, under the same reference.
    pub fn local_view(&self) -> (r: Self)
        ensures
            r.saved.id@ == self.saved.id@,
            r.saved.application@ == self.saved.application@,
            r.saved.runtime@ == self.saved.runtime@,
            r.saved.sway@ == self.saved.sway@,
            r.saved.app@ == self.saved.app@,
            r.saved.bus@ == self.saved.bus@,
            r.saved.socket@ == self.saved.socket@,
            r.saved.wayland@ == self.saved.wayland@,
            r.saved.renderer@ == self.saved.renderer@,
            r.saved.x11 == self.saved.x11,
            r.saved.x11_application == self.saved.x11_application,
            r.target_id@ == self.target_id@,
            r.geometry is None,
            r.local_only,
    {
        Isolated {
            saved: self.saved.clone(),
            target_id: self.target_id.clone(),
            geometry: None,
            local_only: true,
        }
    }

    /// The application as a target of a given size and scale.
    pub open spec fn target_of(self, width: u32, height: u32, scale: Binary64) -> TargetView {
        TargetView {
            id: self.target_id@,
            label: self.saved.application.shown(),
            width,
            height,
            scale,
        }
    }

    fn target(&self, width: u32, height: u32, scale: Binary64) -> (r: Target)
        ensures
            r@ == self.target_of(width, height, scale),
    {
        Target {
            id: self.target_id.clone(),
            label: self.saved.application.label().to_owned(),
            width,
            height,
            scale,
        }
    }

    /// The targets of the application, given what the compositor supports and its output.
    pub fn targets(&self, input: bool, capture: bool, screen: Option<Screen>) -> (r: Result<
        Vec<Target>,
        Fault,
    >)
        ensures
            if !input || !capture {
                r matches Err(e) && e.says(ErrorCode::Unsupported, "独立合成器缺少必要协议"@)
            } else {
                match screen {
                    None => r matches Err(e) && e.says(
                        ErrorCode::BackendUnavailable,
                        "没有虚拟显示器"@,
                    ),
                    Some(s) => match s.scale {
                        Err(f) => r matches Err(e) && e@ == f@,
                        Ok(scale) => r matches Ok(v) && targets_view(v@) == seq![
                            self.target_of(s.width, s.height, scale),
                        ],
                    },
                }
            },
    {
        if !input || !capture {
            return Err(Fault::unsupported("独立合成器缺少必要协议"));
        }
        match screen {
            None => Err(Fault::unavailable("没有虚拟显示器")),
            Some(s) => match s.scale {
                Err(e) => Err(e),
                Ok(scale) => {
                    let mut v: Vec<Target> = Vec::new();
                    v.push(self.target(s.width, s.height, scale));
                    assert(targets_view(v@) =~= seq![self.target_of(s.width, s.height, scale)]);
                    Ok(v)
                },
            },
        }
    }

    /// Whether a client names this application, or nothing.
    pub fn check_target(&self, target: Option<&str>) -> (r: Result<(), Fault>)
        ensures
            if target matches Some(id) && id@ != self.target_id@ {
                r matches Err(e) && e.says(ErrorCode::PermissionDenied, "目标不属于此应用会话"@)
            } else {
                r is Ok
            },
    {
        match target {
            Some(id) => {
                if same(id, self.target_id.as_str()) {
                    Ok(())
                } else {
                    Err(Fault::denied("目标不属于此应用会话"))
                }
            },
            None => Ok(()),
        }
    }

    /// Completes an observation, from the layouts before and after the picture was taken. A
    /// changed layout makes it void; an unchanged one is kept for the action that follows.
    pub fn observed(
        &mut self,
        observation_id: String,
        before: Layout,
        after: Layout,
        revision: u64,
        png: String,
        screen: Screen,
    ) -> (r: Result<Observation, Fault>)
        ensures
            final(self).saved == old(self).saved,
            final(self).target_id == old(self).target_id,
            final(self).local_only == old(self).local_only,
            if before@ != after@ {
                &&& r matches Err(e)
                &&& e.says(ErrorCode::StaleTarget, "截图期间窗口布局改变，请重新观察"@)
                &&& final(self).geometry == old(self).geometry
            } else {
                &&& final(self).geometry == Some((after, revision))
                &&& match screen.scale {
                    Err(f) => r matches Err(e) && e@ == f@,
                    Ok(scale) => {
                        &&& r matches Ok(o)
                        &&& o@ == (ObservationView {
                            observation_id: observation_id@,
                            target: old(self).target_of(screen.width, screen.height, scale),
                            png_base64: Some(png@),
                            nodes: Seq::empty(),
                            windows: Seq::empty(),
                        })
                    },
                }
            },
    {
        if !before.equals(&after) {
            return Err(Fault::stale("截图期间窗口布局改变，请重新观察"));
        }
        self.geometry = Some((after, revision));
        match screen.scale {
            Err(e) => Err(e),
            Ok(scale) => {
                let o = Observation {
                    observation_id,
                    target: self.target(screen.width, screen.height, scale),
                    png_base64: Some(png),
                    nodes: Vec::new(),
                    windows: Vec::new(),
                };
                assert(o@.windows =~= Seq::empty());
                assert(o@.nodes =~= Seq::empty());
                Ok(o)
            },
        }
    }

    /// Completes an observation for the user's eyes, which serves no action: what is kept for
    /// an action stays as it was.
    pub fn previewed(
        &mut self,
        observation_id: String,
        before: Layout,
        after: Layout,
        revision: u64,
        png: String,
        screen: Screen,
    ) -> (r: Result<Observation, Fault>)
        ensures
            *final(self) == *old(self),
            if before@ != after@ {
                r matches Err(e) && e.says(
                    ErrorCode::StaleTarget,
                    "截图期间窗口布局改变，请重新观察"@,
                )
            } else {
                match screen.scale {
                    Err(f) => r matches Err(e) && e@ == f@,
                    Ok(scale) => {
                        &&& r matches Ok(o)
                        &&& o@ == (ObservationView {
                            observation_id: observation_id@,
                            target: old(self).target_of(screen.width, screen.height, scale),
                            png_base64: Some(png@),
                            nodes: Seq::empty(),
                            windows: Seq::empty(),
                        })
                    },
                }
            },
    {
        let mut kept: Option<(Layout, u64)> = None;
        std::mem::swap(&mut kept, &mut self.geometry);
        let r = self.observed(observation_id, before, after, revision, png, screen);
        self.geometry = kept;
        r
    }

    /// Whether an action is based on what still holds: the reference, the layout and the
    /// outputs.
    pub open spec fn current(self, target: Seq<char>, layout: LayoutView, revision: u64) -> bool {
        &&& target == self.target_id@
        &&& self.geometry matches Some((kept, at))
        &&& kept@ == layout
        &&& at == revision
    }

    /// Checks that an action is based on what still holds.
    pub fn check_action(&self, target: &str, layout: Result<Layout, Fault>, revision: u64) -> (r:
        Result<(), Fault>)
        ensures
            if target@ != self.target_id@ {
                r matches Err(e) && e.says(
                    ErrorCode::StaleTarget,
                    "窗口身份或布局变化，请重新观察"@,
                )
            } else {
                match layout {
                    Err(f) => r matches Err(e) && e@ == f@,
                    Ok(l) => if self.current(target@, l@, revision) {
                        r is Ok
                    } else {
                        r matches Err(e) && e.says(
                            ErrorCode::StaleTarget,
                            "窗口身份或布局变化，请重新观察"@,
                        )
                    },
                }
            },
    {
        if !same(target, self.target_id.as_str()) {
            return Err(Fault::stale("窗口身份或布局变化，请重新观察"));
        }
        match layout {
            Err(e) => Err(e),
            Ok(l) => {
                let fine = match &self.geometry {
                    Some(g) => g.1 == revision && g.0.equals(&l),
                    None => false,
                };
                if fine {
                    Ok(())
                } else {
                    Err(Fault::stale("窗口身份或布局变化，请重新观察"))
                }
            },
        }
    }

    /// Checks that the output is as it was observed.
    pub fn check_screen(&self, target: &Target, screen: Option<Screen>) -> (r: Result<(), Fault>)
        ensures
            match screen {
                None => r matches Err(e) && e.says(ErrorCode::StaleTarget, "虚拟显示器消失"@),
                Some(s) => if s.width != target.width || s.height != target.height {
                    r matches Err(e) && e.says(ErrorCode::StaleTarget, "虚拟显示器尺寸变化"@)
                } else {
                    match s.scale {
                        Err(f) => r matches Err(e) && e@ == f@,
                        Ok(scale) => if scale.number() && target.scale.number() && scale.value()
                            == target.scale.value() {
                            r is Ok
                        } else {
                            r matches Err(e) && e.says(
                                ErrorCode::StaleTarget,
                                "虚拟显示器缩放变化"@,
                            )
                        },
                    }
                },
            },
    {
        match screen {
            None => Err(Fault::stale("虚拟显示器消失")),
            Some(s) => {
                if s.width != target.width || s.height != target.height {
                    return Err(Fault::stale("虚拟显示器尺寸变化"));
                }
                match s.scale {
                    Err(e) => Err(e),
                    Ok(scale) => {
                        if scale.same(target.scale) {
                            Ok(())
                        } else {
                            Err(Fault::stale("虚拟显示器缩放变化"))
                        }
                    },
                }
            },
        }
    }

    /// An action was carried out. What it was based on serves no other.
    pub fn acted(&mut self)
        ensures
            *final(self) == (Isolated { geometry: None, ..*old(self) }),
    {
        self.geometry = None;
    }

    /// The application as the user sees it, if it is as the user saw it when acting.
    pub fn human_target(&self, expected: Option<&Target>, screen: Option<Screen>) -> (r: Result<
        Target,
        Fault,
    >)
        ensures
            match screen {
                None => r matches Err(e) && e.says(ErrorCode::StaleTarget, "虚拟输出已关闭"@),
                Some(s) => match s.scale {
                    Err(f) => r matches Err(e) && e@ == f@,
                    Ok(scale) => if expected is None || unchanged(
                        *expected->0,
                        self.target_of(s.width, s.height, scale),
                    ) {
                        r matches Ok(t) && t@ == self.target_of(s.width, s.height, scale)
                    } else {
                        r matches Err(e) && e.says(
                            ErrorCode::StaleTarget,
                            "预览尺寸已变化，请等待新画面后操作"@,
                        )
                    },
                },
            },
    {
        match screen {
            None => Err(Fault::stale("虚拟输出已关闭")),
            Some(s) => match s.scale {
                Err(e) => Err(e),
                Ok(scale) => {
                    let fine = match expected {
                        None => true,
                        Some(t) => same(t.id.as_str(), self.target_id.as_str()) && t.width
                            == s.width && t.height == s.height && t.scale.same(scale),
                    };
                    if fine {
                        Ok(self.target(s.width, s.height, scale))
                    } else {
                        Err(Fault::stale("预览尺寸已变化，请等待新画面后操作"))
                    }
                },
            },
        }
    }

    /// Prepares an action of the user, which needs no picture: the layout is taken as it is
    /// now, and the action must be valid within the target.
    pub fn human_ready(
        &mut self,
        target: Target,
        layout: Result<Layout, Fault>,
        revision: u64,
        action: &Action,
    ) -> (r: Result<Observation, Fault>)
        ensures
            final(self).saved == old(self).saved,
            final(self).target_id == old(self).target_id,
            final(self).local_only == old(self).local_only,
            match layout {
                Err(f) => {
                    &&& r matches Err(e)
                    &&& e@ == f@
                    &&& final(self).geometry == old(self).geometry
                },
                Ok(l) => {
                    &&& final(self).geometry == Some((l, revision))
                    &&& match action.objection(target.width, target.height) {
                        Some(m) => r matches Err(e) && e.says(ErrorCode::InvalidRequest, m),
                        None => {
                            &&& r matches Ok(o)
                            &&& o@ == (ObservationView {
                                observation_id: Seq::empty(),
                                target: target@,
                                png_base64: None,
                                nodes: Seq::empty(),
                                windows: Seq::empty(),
                            })
                        },
                    }
                },
            },
    {
        match layout {
            Err(e) => Err(e),
            Ok(l) => {
                self.geometry = Some((l, revision));
                match action.validate(target.width, target.height) {
                    Err(e) => Err(e),
                    Ok(()) => {
                        let o = Observation {
                            observation_id: String::new(),
                            target,
                            png_base64: None,
                            nodes: Vec::new(),
                            windows: Vec::new(),
                        };
                        assert(o@.observation_id =~= Seq::empty());
                        assert(o@.windows =~= Seq::empty());
                        assert(o@.nodes =~= Seq::empty());
                        Ok(o)
                    },
                }
            },
        }
    }
}

/// Whether a target is still what it was, in reference, size and scale.
pub open spec fn unchanged(old_target: Target, now: TargetView) -> bool {
    &&& old_target.id@ == now.id
    &&& old_target.width == now.width
    &&& old_target.height == now.height
    &&& old_target.scale.number()
    &&& now.scale.number()
    &&& old_target.scale.value() == now.scale.value()
}

/// After an action, no layout or revision makes another action current until something is
/// observed again.
pub proof fn an_observed_layout_serves_one_action(
    i: Isolated,
    target: Seq<char>,
    layout: LayoutView,
    revision: u64,
)
    ensures
        !(Isolated { geometry: None, ..i }).current(target, layout, revision),
{
}

/// Live frames of an isolated application.
pub struct IsolatedPreview {
    pub target_id: String,
    pub viewport: Option<Viewport>,
    /// Revision of the outputs at which the scale was read.
    pub revision: u64,
    pub scale: Binary64,
}

/// What to do for a new size of the view.
#[derive(Debug)]
pub enum Resize {
    Nothing,
    /// Send this command to the compositor.
    Command(String),
}

/// A command that gives the output of a session a size and a scale.
pub open spec fn mode_command(width: u32, height: u32, scale: Seq<char>) -> Seq<char> {
    "output HEADLESS-1 mode "@ + numeral(width as nat, 10) + "x"@ + numeral(height as nat, 10)
        + "@60Hz scale "@ + scale
}

/// A command that gives the output of a session a size and a scale. X11 applications do not
/// scale, so their scale stays one.
pub fn resize_command(viewport: Viewport, scale: &str, x11: bool) -> (r: String)
    ensures
        r@ == mode_command(
            viewport.width,
            viewport.height,
            if x11 {
                "1.000"@
            } else {
                scale@
            },
        ),
{
    let mut command = "output HEADLESS-1 mode ".to_owned();
    command.append(decimal(viewport.width as u64).as_str());
    command.append("x");
    command.append(decimal(viewport.height as u64).as_str());
    command.append("@60Hz scale ");
    if x11 {
        command.append("1.000");
    } else {
        command.append(scale);
    }
    command
}

/// Whether the compositor carried out a command: it answered with a list, and every part of
/// it succeeded.
pub open spec fn succeeded(answer: JsonView) -> bool {
    &&& answer is List
    &&& items(answer).len() > 0
    &&& forall|i: int|
        0 <= i < items(answer).len() ==> (#[trigger] items(answer)[i]).field("success"@)
            == JsonView::Bool(true)
}

/// Checks the answer to a command.
pub fn check_resized(answer: &Json) -> (r: Result<(), Fault>)
    ensures
        if succeeded(answer@) {
            r is Ok
        } else {
            r matches Err(e) && e.says(ErrorCode::BackendUnavailable, "无法调整独立输出尺寸"@)
        },
{
    match answer {
        Json::List(v) => {
            let ghost all = list_view(v@);
            let mut i: usize = 0;
            while i < v.len()
                invariant
                    i <= v@.len(),
                    *answer == Json::List(*v),
                    all == list_view(v@),
                    forall|j: int|
                        0 <= j < i ==> (#[trigger] all[j]).field("success"@) == JsonView::Bool(
                            true,
                        ),
                decreases v@.len() - i,
            {
                assert(all[i as int] == json_view(v@[i as int]));
                if !v[i].is_true("success") {
                    assert(items(answer@)[i as int] == all[i as int]);
                    return Err(Fault::unavailable("无法调整独立输出尺寸"));
                }
                i = i + 1;
            }
            assert(items(answer@) == all);
            if v.len() == 0 {
                Err(Fault::unavailable("无法调整独立输出尺寸"))
            } else {
                Ok(())
            }
        },
        _ => Err(Fault::unavailable("无法调整独立输出尺寸")),
    }
}

impl IsolatedPreview {
    /// A preview that has no size yet.
    pub fn new(target_id: String) -> (r: Self)
        ensures
            r.target_id == target_id,
            r.viewport is None,
            r.revision == 0,
            r.scale.finite(),
            r.scale.value() == crate::number::unit(),
    {
        IsolatedPreview { target_id, viewport: None, revision: 0, scale: Binary64::from_u32(1) }
    }

    /// Decides what a new size of the view asks for. The view is valid and its scale is given
    /// with three decimals; the session must be alive.
    pub fn resize(&self, viewport: Viewport, scale: &str, x11: bool, alive: bool) -> (r: Result<
        Resize,
        Fault,
    >)
        ensures
            if self.viewport matches Some(v) && same_viewport(v, viewport) {
                r matches Ok(Resize::Nothing)
            } else if !alive {
                r matches Err(e) && e.says(ErrorCode::StaleTarget, "独立应用已退出"@)
            } else {
                r matches Ok(Resize::Command(c)) && c@ == mode_command(
                    viewport.width,
                    viewport.height,
                    if x11 {
                        "1.000"@
                    } else {
                        scale@
                    },
                )
            },
    {
        let known = match self.viewport {
            Some(v) => v.width == viewport.width && v.height == viewport.height && v.scale.same(
                viewport.scale,
            ),
            None => false,
        };
        if known {
            return Ok(Resize::Nothing);
        }
        if !alive {
            return Err(Fault::stale("独立应用已退出"));
        }
        Ok(Resize::Command(resize_command(viewport, scale, x11)))
    }

    /// The output has the size of the view.
    pub fn resized(&mut self, viewport: Viewport)
        ensures
            *final(self) == (IsolatedPreview { viewport: Some(viewport), ..*old(self) }),
    {
        self.viewport = Some(viewport);
    }

    /// Before a frame: whether the scale must be read again, at a revision of the outputs.
    pub fn begin(&self, alive: bool, revision: u64) -> (r: Result<bool, Fault>)
        ensures
            if alive {
                r == Ok::<bool, Fault>(self.revision != revision)
            } else {
                r matches Err(e) && e.says(ErrorCode::StaleTarget, "独立应用已退出"@)
            },
    {
        if alive {
            Ok(self.revision != revision)
        } else {
            Err(Fault::stale("独立应用已退出"))
        }
    }

    /// Takes the scale in, at a revision of the outputs.
    pub fn rescale(&mut self, outputs: &Json, revision: u64) -> (r: Result<(), Fault>)
        ensures
            match scale_of(outputs@, "HEADLESS-1"@) {
                Some(s) => {
                    &&& r is Ok
                    &&& *final(self) == (IsolatedPreview { scale: s, revision, ..*old(self) })
                },
                None => {
                    &&& r matches Err(e)
                    &&& e.says(ErrorCode::StaleTarget, "虚拟输出缩放无效"@)
                    &&& *final(self) == *old(self)
                },
            },
    {
        match find_scale(outputs, "HEADLESS-1") {
            Some(s) => {
                self.scale = s;
                self.revision = revision;
                Ok(())
            },
            None => Err(Fault::stale("虚拟输出缩放无效")),
        }
    }

    /// After a frame: the application at the size of the frame, unless the outputs changed.
    pub fn framed(&self, application: &Application, width: u32, height: u32, revision: u64) -> (r:
        Result<Target, Fault>)
        ensures
            if revision != self.revision {
                r matches Err(e) && e.says(ErrorCode::Busy, "输出尺寸变化，等待下一帧"@)
            } else {
                &&& r matches Ok(t)
                &&& t@ == (TargetView {
                    id: self.target_id@,
                    label: application.shown(),
                    width,
                    height,
                    scale: self.scale,
                })
            },
    {
        if revision != self.revision {
            return Err(Fault::new(ErrorCode::Busy, "输出尺寸变化，等待下一帧"));
        }
        Ok(
            Target {
                id: self.target_id.clone(),
                label: application.label().to_owned(),
                width,
                height,
                scale: self.scale,
            },
        )
    }
}

} // verus!
