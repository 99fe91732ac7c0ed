//! Starting an isolated session: its bus, its compositor with the first renderer that works,
//! and its application, up to the first window that is known to be the application's.
use vstd::prelude::*;

use crate::backend::process::{same_bytes, ProcessIdentity};
use crate::backend::sway::{
    owned_view, place, tree_view, xid, Application, OwnedView, OwnedWindow, SavedSession, Setting,
    TreeWindow, TreeWindowView,
};
use crate::backend::x11::REPORT_DISPLAY;
use crate::identifier::{fresh_identifier, identifier};
use crate::model::{ErrorCode, Fault};
use crate::path::{
    below, bytes_of, closes_with, is_absolute, join, name_closes_with, name_opens_with, opens_with,
    parts, route, runs, sort,
};
use crate::text::{
    chars_of, decimal, joined, numeral, parse_number, parsed, same, text_of, texts, trim,
    without_lead, without_trail,
};

verus! {

/// Where sessions are noted, so that they can be found again.
pub open spec fn state_path(state_home: Option<Seq<u8>>, home: Option<Seq<u8>>) -> Option<
    Seq<u8>,
> {
    match state_home {
        Some(s) => Some(below(s, vstd::utf8::encode_utf8("computer-use-linux"@))),
        None => match home {
            Some(h) => Some(
                below(
                    below(h, vstd::utf8::encode_utf8(".local/state"@)),
                    vstd::utf8::encode_utf8("computer-use-linux"@),
                ),
            ),
            None => None,
        },
    }
}

/// A path by its bytes, if there is one.
pub open spec fn path_view(p: Option<Vec<u8>>) -> Option<Seq<u8>> {
    match p {
        Some(v) => Some(v@),
        None => None,
    }
}

/// Where sessions are noted, from the user's environment.
pub fn state_dir(state_home: Option<Vec<u8>>, home: Option<Vec<u8>>) -> (r: Result<Vec<u8>, Fault>)
    ensures
        match state_path(path_view(state_home), path_view(home)) {
            Some(p) => r matches Ok(v) && v@ == p,
            None => r matches Err(e) && e.says(ErrorCode::BackendUnavailable, "缺少用户目录"@),
        },
{
    let root = match state_home {
        Some(p) => p,
        None => match home {
            Some(h) => join(&h, &bytes_of(".local/state")),
            None => {
                return Err(Fault::unavailable("缺少用户目录"));
            },
        },
    };
    Ok(join(&root, &bytes_of("computer-use-linux")))
}

/// Whether a file may hold a noted session, by its name.
pub fn is_note(name: &Vec<u8>) -> (r: bool)
    ensures
        r == (closes_with(name@, vstd::utf8::encode_utf8(".json"@)) && name@.len()
            > vstd::utf8::encode_utf8(".json"@).len()),
{
    let ending = bytes_of(".json");
    name_closes_with(name, ".json") && name.len() > ending.len()
}

/// Whether a noted session can be taken up again.
pub fn recoverable(sway: bool, app: bool) -> (r: bool)
    ensures
        r == (sway && app),
{
    sway && app
}

/// The processes of a session that have no purpose any more: its compositor and its bus, once
/// the application ended. A running application, with its unsaved work, is never ended.
pub fn reaped(saved: &SavedSession, app: bool) -> (r: Vec<ProcessIdentity>)
    ensures
        if app {
            r@.len() == 0
        } else {
            r@.len() == 2 && r@[0]@ == saved.sway@ && r@[1]@ == saved.bus@
        },
{
    let mut v: Vec<ProcessIdentity> = Vec::new();
    if !app {
        v.push(saved.sway.clone());
        v.push(saved.bus.clone());
    }
    v
}

/// A session that is being started, and the processes that were started for it.
pub struct Launch {
    pub id: String,
    pub application: Application,
    /// Directory of its sockets and logs.
    pub runtime: Vec<u8>,
    pub started: Vec<ProcessIdentity>,
}

/// How a program ended.
#[derive(Debug)]
pub struct Ran {
    pub success: bool,
    pub stdout: String,
    pub stderr: String,
}

/// The number of the bus, or why there is none.
pub open spec fn bus_number(ran: Result<Ran, String>) -> Result<u32, Seq<char>> {
    match ran {
        Err(message) => Err("启动独立 D-Bus: "@ + message@),
        Ok(out) => if !out.success {
            Err(out.stderr@)
        } else {
            match parsed(without_trail(without_lead(out.stdout@)), u32::MAX as nat) {
                Some(n) => Ok(n as u32),
                None => Err("D-Bus 未返回进程号"@),
            }
        },
    }
}

impl Launch {
    /// Begins a session under a given identifier, of which the first twelve characters name
    /// its directory: paths of sockets must be short.
    pub fn begin_as(id: String, root: &Vec<u8>, application: Application) -> (r: Self)
        requires
            id@.len() >= 12,
        ensures
            r.id == id,
            r.application == application,
            r.runtime@ == below(root@, vstd::utf8::encode_utf8("s-"@ + id@.take(12))),
            r.started@.len() == 0,
    {
        let mut name = "s-".to_owned();
        let all = chars_of(id.as_str());
        name.append(text_of(&all, 0, 12).as_str());
        assert(all@.subrange(0, 12) =~= id@.take(12));
        let runtime = join(root, &bytes_of(name.as_str()));
        Launch { id, application, runtime, started: Vec::new() }
    }

    /// Begins a session.
    pub fn begin(root: &Vec<u8>, application: Application) -> (r: Self)
        ensures
            identifier(r.id@),
            r.application == application,
            r.runtime@ == below(root@, vstd::utf8::encode_utf8("s-"@ + r.id@.take(12))),
            r.started@.len() == 0,
    {
        Launch::begin_as(fresh_identifier(), root, application)
    }

    /// A process was started for the session.
    pub fn add(&mut self, process: ProcessIdentity)
        ensures
            *final(self) == (Launch { started: final(self).started, ..*old(self) }),
            final(self).started@ == old(self).started@.push(process),
    {
        self.started.push(process);
    }

    /// The session stands; its processes stay.
    pub fn release(&mut self)
        ensures
            *final(self) == (Launch { started: final(self).started, ..*old(self) }),
            final(self).started@.len() == 0,
    {
        self.started.clear();
    }

    /// The processes to end where the session is given up: all that were started, last first.
    pub fn doomed(&self) -> (r: Vec<ProcessIdentity>)
        ensures
            r@.len() == self.started@.len(),
            forall|i: int|
                0 <= i < r@.len() ==> (#[trigger] r@[i])@ == self.started@[r@.len() - 1 - i]@,
    {
        let n: usize = self.started.len();
        let mut out: Vec<ProcessIdentity> = Vec::new();
        let mut i: usize = 0;
        while i < n
            invariant
                n == self.started@.len(),
                i <= n,
                out@.len() == i,
                forall|j: int| 0 <= j < i ==> (#[trigger] out@[j])@ == self.started@[n - 1 - j]@,
            decreases n - i,
        {
            out.push(self.started[n - 1 - i].clone());
            i = i + 1;
        }
        out
    }

    /// Name of the file that notes the session.
    pub fn note(&self) -> (r: String)
        ensures
            r@ == self.id@ + ".json"@,
    {
        let mut name = self.id.clone();
        name.append(".json");
        name
    }

    /// The directory in which the application starts: that of its launch definition, or the
    /// user's own.
    pub fn directory(&self, home: Option<Vec<u8>>) -> (r: Option<Vec<u8>>)
        ensures
            path_view(r) == (if self.application matches Application::Installed(app)
                && app.directory is Some {
                Some(self.application->Installed_0.directory->0@)
            } else {
                path_view(home)
            }),
    {
        match &self.application {
            Application::Installed(app) => match &app.directory {
                Some(d) => {
                    let v = d.clone();
                    assert(v@ =~= d@);
                    Some(v)
                },
                None => home,
            },
            _ => home,
        }
    }
}

/// The address of a session's bus, in the directory with the given text.
pub fn bus_address(runtime: &str) -> (r: String)
    ensures
        r@ == "unix:path="@ + runtime@ + "/bus"@,
{
    let mut s = "unix:path=".to_owned();
    s.append(runtime);
    s.append("/bus");
    s
}

/// What a bus is configured with: its address, and the one user that may use it. Services
/// that it activates stay within the session.
pub open spec fn bus_rules(bus: Seq<char>, uid: u32) -> Seq<char> {
    "<busconfig><type>session</type><listen>"@ + bus
        + "</listen><auth>EXTERNAL</auth><standard_session_servicedirs/><policy context=\"default\"><allow user=\""@
        + numeral(uid as nat, 10)
        + "\"/><allow own=\"*\"/><allow send_destination=\"*\"/><allow receive_sender=\"*\"/></policy></busconfig>"@
}

/// What a bus is configured with.
pub fn bus_config(bus: &str, uid: u32) -> (r: String)
    ensures
        r@ == bus_rules(bus@, uid),
{
    let mut s = "<busconfig><type>session</type><listen>".to_owned();
    s.append(bus);
    s.append(
        "</listen><auth>EXTERNAL</auth><standard_session_servicedirs/><policy context=\"default\"><allow user=\"",
    );
    s.append(decimal(uid as u64).as_str());
    s.append(
        "\"/><allow own=\"*\"/><allow send_destination=\"*\"/><allow receive_sender=\"*\"/></policy></busconfig>",
    );
    s
}

/// Arguments of the bus, given the text of its configuration's path.
pub fn bus_arguments(config: &str) -> (r: Vec<String>)
    ensures
        texts(r@) == seq!["--config-file="@ + config@, "--fork"@, "--print-pid=1"@],
{
    let mut first = "--config-file=".to_owned();
    first.append(config);
    let mut v: Vec<String> = Vec::new();
    v.push(first);
    v.push("--fork".to_owned());
    v.push("--print-pid=1".to_owned());
    assert(texts(v@) =~= seq!["--config-file="@ + config@, "--fork"@, "--print-pid=1"@]);
    v
}

/// The number of the bus's process, as it reported it.
pub fn bus_pid(ran: Result<Ran, String>) -> (r: Result<u32, Fault>)
    ensures
        match bus_number(ran) {
            Ok(n) => r == Ok::<u32, Fault>(n),
            Err(m) => r matches Err(e) && e.says(ErrorCode::BackendUnavailable, m),
        },
{
    match ran {
        Err(message) => {
            let mut s = "启动独立 D-Bus: ".to_owned();
            s.append(message.as_str());
            Err(Fault::unavailable(s.as_str()))
        },
        Ok(out) => {
            if !out.success {
                return Err(Fault::unavailable(out.stderr.as_str()));
            }
            let number = trim(out.stdout.as_str());
            match parse_number(number.as_str(), 0xffff_ffff) {
                Some(n) => Ok(n as u32),
                None => Err(Fault::unavailable("D-Bus 未返回进程号")),
            }
        },
    }
}

/// What a compositor is configured with before it tells its X11 display.
pub open spec fn compositor_rules() -> Seq<char> {
    "output HEADLESS-1 mode 1280x800\nseat seat0 fallback true\nfocus_on_window_activation none\nfocus_follows_mouse no\nfont monospace 10\nxwayland force\ndefault_border none\n"@
}

/// What a compositor is configured with.
pub fn compositor_config() -> (r: String)
    ensures
        r@ == compositor_rules() + REPORT_DISPLAY@,
{
    let mut s = "output HEADLESS-1 mode 1280x800\nseat seat0 fallback true\nfocus_on_window_activation none\nfocus_follows_mouse no\nfont monospace 10\nxwayland force\ndefault_border none\n".to_owned();
    s.append(REPORT_DISPLAY);
    s
}

/// What services of the session are told of its displays.
pub fn activation_arguments(wayland: &str, display: &str) -> (r: Vec<String>)
    ensures
        texts(r@) == seq!["WAYLAND_DISPLAY="@ + wayland@, "DISPLAY="@ + display@],
{
    let mut first = "WAYLAND_DISPLAY=".to_owned();
    first.append(wayland);
    let mut second = "DISPLAY=".to_owned();
    second.append(display);
    let mut v: Vec<String> = Vec::new();
    v.push(first);
    v.push(second);
    assert(texts(v@) =~= seq!["WAYLAND_DISPLAY="@ + wayland@, "DISPLAY="@ + display@]);
    v
}

/// Checks that the services were told.
pub fn check_activation(ran: Result<bool, String>) -> (r: Result<(), Fault>)
    ensures
        match ran {
            Err(m) => r matches Err(e) && e.says(
                ErrorCode::BackendUnavailable,
                "设置图形会话服务环境: "@ + m@,
            ),
            Ok(true) => r is Ok,
            Ok(false) => r matches Err(e) && e.says(
                ErrorCode::BackendUnavailable,
                "无法设置独立图形会话的服务环境"@,
            ),
        },
{
    match ran {
        Err(m) => {
            let mut s = "设置图形会话服务环境: ".to_owned();
            s.append(m.as_str());
            Err(Fault::unavailable(s.as_str()))
        },
        Ok(success) => {
            if success {
                Ok(())
            } else {
                Err(Fault::unavailable("无法设置独立图形会话的服务环境"))
            }
        },
    }
}

/// What the application is told of the displays, besides what every program is told.
pub fn application_settings(wayland: &Vec<u8>, display: &str) -> (r: Vec<Setting>)
    ensures
        crate::backend::sway::settings_view(r@) == seq![
            ("WAYLAND_DISPLAY"@, wayland@),
            ("DISPLAY"@, vstd::utf8::encode_utf8(display@)),
            ("MOZ_ENABLE_WAYLAND"@, vstd::utf8::encode_utf8("1"@)),
        ],
{
    let path = wayland.clone();
    assert(path@ =~= wayland@);
    let mut v: Vec<Setting> = Vec::new();
    v.push(Setting { name: "WAYLAND_DISPLAY", value: path });
    v.push(Setting { name: "DISPLAY", value: bytes_of(display) });
    v.push(Setting { name: "MOZ_ENABLE_WAYLAND", value: bytes_of("1") });
    assert(crate::backend::sway::settings_view(v@) =~= seq![
        ("WAYLAND_DISPLAY"@, wayland@),
        ("DISPLAY"@, vstd::utf8::encode_utf8(display@)),
        ("MOZ_ENABLE_WAYLAND"@, vstd::utf8::encode_utf8("1"@)),
    ]);
    v
}

/// The message on a launcher that ended without a window.
pub open spec fn launcher_ended(status: Seq<char>, log: Seq<char>) -> Seq<char> {
    "应用启动器已退出（"@ + status
        + "），未创建可验证窗口；可能不兼容当前图形会话或配置被占用。查看 "@ + log
        + "；日志为空时，启动器可能屏蔽了子进程输出"@
}

/// Checks that the launcher still runs, while a window is awaited.
pub fn check_launcher(ended: Option<&str>, log: &str) -> (r: Result<(), Fault>)
    ensures
        match ended {
            Some(status) => r matches Err(e) && e.says(
                ErrorCode::BackendUnavailable,
                launcher_ended(status@, log@),
            ),
            None => r is Ok,
        },
{
    match ended {
        Some(status) => {
            let mut s = "应用启动器已退出（".to_owned();
            s.append(status);
            s.append("），未创建可验证窗口；可能不兼容当前图形会话或配置被占用。查看 ");
            s.append(log);
            s.append("；日志为空时，启动器可能屏蔽了子进程输出");
            Err(Fault::unavailable(s.as_str()))
        },
        None => Ok(()),
    }
}

/// The process of a window of the tree if it descends from the launcher, and whether it is an
/// X11 window.
pub open spec fn own_process(
    w: TreeWindowView,
    descends: bool,
    xwindows: Seq<OwnedView>,
) -> Option<(u32, bool)> {
    match w.window {
        Some(n) => {
            let k = place(xwindows, xid(n));
            if k < xwindows.len() && xwindows[k].descends {
                Some((xwindows[k].window.process.pid, true))
            } else {
                None
            }
        },
        None => match w.pid {
            Some(p) => if descends {
                Some((xid(p), false))
            } else {
                None
            },
            None => None,
        },
    }
}

/// The process of the first such window.
pub open spec fn first_own(
    list: Seq<TreeWindowView>,
    descends: Seq<bool>,
    xwindows: Seq<OwnedView>,
) -> Option<(u32, bool)>
    decreases list.len(),
{
    if list.len() == 0 {
        None
    } else if own_process(list[0], descends[0], xwindows) is Some {
        own_process(list[0], descends[0], xwindows)
    } else {
        first_own(list.drop_first(), descends.drop_first(), xwindows)
    }
}

/// The process of the first window that belongs to the application, given for each window
/// without X11 whether its process descends from the launcher.
pub fn find_own(list: &Vec<TreeWindow>, descends: &Vec<bool>, xwindows: &Vec<OwnedWindow>) -> (r:
    Option<(u32, bool)>)
    requires
        descends@.len() == list@.len(),
    ensures
        r == first_own(tree_view(list@), descends@, owned_view(xwindows@)),
{
    let ghost tree = tree_view(list@);
    let ghost all = owned_view(xwindows@);
    let mut i: usize = 0;
    assert(tree.skip(0) =~= tree);
    assert(descends@.skip(0) =~= descends@);
    while i < list.len()
        invariant
            i <= list@.len(),
            descends@.len() == list@.len(),
            tree == tree_view(list@),
            all == owned_view(xwindows@),
            first_own(tree, descends@, all) == first_own(
                tree.skip(i as int),
                descends@.skip(i as int),
                all,
            ),
        decreases list@.len() - i,
    {
        let w = &list[i];
        proof {
            assert(tree.skip(i as int)[0] == w@);
            assert(descends@.skip(i as int)[0] == descends@[i as int]);
            assert(tree.skip(i as int).drop_first() =~= tree.skip(i + 1));
            assert(descends@.skip(i as int).drop_first() =~= descends@.skip(i + 1));
        }
        match w.window {
            Some(n) => {
                let id: u32 = (n % 0x1_0000_0000) as u32;
                match crate::backend::sway::find_window(xwindows, id) {
                    Some(k) => {
                        assert(all[k as int] == xwindows@[k as int]@);
                        if xwindows[k].descends {
                            return Some((xwindows[k].window.process.pid, true));
                        }
                    },
                    None => {},
                }
            },
            None => match w.pid {
                Some(p) => {
                    if descends[i] {
                        return Some(((p % 0x1_0000_0000) as u32, false));
                    }
                },
                None => {},
            },
        }
        i = i + 1;
    }
    assert(tree.skip(i as int) =~= Seq::empty());
    None
}

/// Decides whether to go on waiting for a window of the application.
pub fn await_window(found: Option<(u32, bool)>, late: bool) -> (r: Result<
    Option<(u32, bool)>,
    Fault,
>)
    ensures
        if found is None && late {
            r matches Err(e) && e.says(
                ErrorCode::BackendUnavailable,
                "应用未创建可验证窗口；若个人配置被其他实例占用，请先关闭该应用再重试"@,
            )
        } else {
            r == Ok::<Option<(u32, bool)>, Fault>(found)
        },
{
    if found.is_none() && late {
        Err(
            Fault::unavailable(
                "应用未创建可验证窗口；若个人配置被其他实例占用，请先关闭该应用再重试",
            ),
        )
    } else {
        Ok(found)
    }
}

/// Which renderers the user wants.
#[derive(Debug, Clone, Copy, PartialEq, Eq, Structural)]
pub enum Renderer {
    Auto,
    Gles2,
    Pixman,
}

/// Which renderers the user wants, from the environment.
pub fn read_renderer(requested: Option<&str>) -> (r: Result<Renderer, Fault>)
    ensures
        ({
            let name = match requested {
                Some(s) => s@,
                None => "auto"@,
            };
            if name == "auto"@ {
                r == Ok::<Renderer, Fault>(Renderer::Auto)
            } else if name == "gles2"@ {
                r == Ok::<Renderer, Fault>(Renderer::Gles2)
            } else if name == "pixman"@ {
                r == Ok::<Renderer, Fault>(Renderer::Pixman)
            } else {
                r matches Err(e) && e.says(
                    ErrorCode::BackendUnavailable,
                    "COMPUTER_USE_RENDERER 必须为 auto、gles2 或 pixman"@,
                )
            }
        }),
{
    let name = match requested {
        Some(s) => s,
        None => "auto",
    };
    if same(name, "auto") {
        Ok(Renderer::Auto)
    } else if same(name, "gles2") {
        Ok(Renderer::Gles2)
    } else if same(name, "pixman") {
        Ok(Renderer::Pixman)
    } else {
        Err(Fault::unavailable("COMPUTER_USE_RENDERER 必须为 auto、gles2 或 pixman"))
    }
}

/// Whether a file of the graphics directory is a render device.
pub open spec fn render_name(name: Seq<u8>) -> bool {
    opens_with(name, vstd::utf8::encode_utf8("renderD"@))
}

/// Paths of the render devices among the files of the graphics directory.
pub open spec fn device_paths(names: Seq<Vec<u8>>) -> Seq<Seq<u8>>
    decreases names.len(),
{
    if names.len() == 0 {
        Seq::empty()
    } else if render_name(names.last()@) {
        device_paths(names.drop_last()).push(
            below(vstd::utf8::encode_utf8("/dev/dri"@), names.last()@),
        )
    } else {
        device_paths(names.drop_last())
    }
}

/// Paths by their bytes.
pub open spec fn paths_view(v: Seq<Vec<u8>>) -> Seq<Seq<u8>> {
    v.map_values(|p: Vec<u8>| p@)
}

/// The render devices among the files of the graphics directory.
pub fn find_devices(names: &Vec<Vec<u8>>) -> (r: Vec<Vec<u8>>)
    ensures
        paths_view(r@) == device_paths(names@),
{
    let directory = bytes_of("/dev/dri");
    let mut out: Vec<Vec<u8>> = Vec::new();
    let mut i: usize = 0;
    assert(paths_view(out@) =~= device_paths(names@.take(0)));
    while i < names.len()
        invariant
            i <= names@.len(),
            directory@ == vstd::utf8::encode_utf8("/dev/dri"@),
            paths_view(out@) == device_paths(names@.take(i as int)),
        decreases names@.len() - i,
    {
        let ghost was = paths_view(out@);
        assert(names@.take(i + 1).drop_last() =~= names@.take(i as int));
        assert(names@.take(i + 1).last() == names@[i as int]);
        if name_opens_with(&names[i], "renderD") {
            let path = join(&directory, &names[i]);
            let ghost bytes = path@;
            out.push(path);
            assert(paths_view(out@) =~= was.push(bytes));
        }
        i = i + 1;
    }
    assert(names@.take(i as int) =~= names@);
    out
}

/// The render devices to look at, in the order of their paths: the one that the user names,
/// or all.
pub fn devices(chosen: Option<Vec<u8>>, names: &Vec<Vec<u8>>) -> (r: Vec<Vec<u8>>)
    ensures
        match chosen {
            Some(device) => r@.len() == 1 && r@[0]@ == device@,
            None => crate::path::in_order(r@) && paths_view(r@).to_multiset() == device_paths(
                names@,
            ).to_multiset(),
        },
{
    match chosen {
        Some(device) => {
            let mut v: Vec<Vec<u8>> = Vec::new();
            v.push(device);
            v
        },
        None => {
            let found = find_devices(names);
            let ghost before = found@;
            let r = sort(found);
            proof {
                lemma_paths_multiset(r@, before);
            }
            r
        },
    }
}

proof fn lemma_paths_multiset(a: Seq<Vec<u8>>, b: Seq<Vec<u8>>)
    requires
        a.to_multiset() == b.to_multiset(),
    ensures
        paths_view(a).to_multiset() == paths_view(b).to_multiset(),
    decreases a.len(),
{
    broadcast use vstd::seq_lib::group_to_multiset_ensures;

    if a.len() == 0 {
        assert(b.len() == 0) by {
            assert(a.to_multiset().len() == 0);
        }
        assert(paths_view(a) =~= paths_view(b));
    } else {
        let x = a[0];
        assert(a.contains(x));
        assert(a.to_multiset().count(x) > 0);
        assert(b.contains(x));
        let k = choose|k: int| 0 <= k < b.len() && b[k] == x;
        let c = a.remove(0);
        let d = b.remove(k);
        assert(c.to_multiset() == a.to_multiset().remove(x));
        assert(d.to_multiset() == b.to_multiset().remove(x));
        lemma_paths_multiset(c, d);
        assert(paths_view(c) =~= paths_view(a).remove(0));
        assert(paths_view(d) =~= paths_view(b).remove(k));
        assert(paths_view(a)[0] == x@ && paths_view(b)[k] == x@);
        assert(paths_view(a).contains(x@) && paths_view(b).contains(x@));
        assert(paths_view(a).to_multiset() =~= paths_view(c).to_multiset().insert(x@));
        assert(paths_view(b).to_multiset() =~= paths_view(d).to_multiset().insert(x@));
    }
}

/// A render device, and whether it can be opened.
#[derive(Debug)]
pub struct Device {
    pub path: Vec<u8>,
    pub usable: bool,
}

/// The usable ones among some devices.
pub open spec fn usable_paths(devices: Seq<Device>) -> Seq<Option<Seq<u8>>>
    decreases devices.len(),
{
    if devices.len() == 0 {
        Seq::empty()
    } else if devices.last().usable {
        usable_paths(devices.drop_last()).push(Some(devices.last().path@))
    } else {
        usable_paths(devices.drop_last())
    }
}

/// What to render with, one after the other: usable devices, and then the processor. Either
/// can be excluded.
pub open spec fn candidates_of(renderer: Renderer, devices: Seq<Device>) -> Seq<Option<Seq<u8>>> {
    (if renderer == Renderer::Pixman {
        Seq::empty()
    } else {
        usable_paths(devices)
    }) + (if renderer == Renderer::Gles2 {
        Seq::empty()
    } else {
        seq![None::<Seq<u8>>]
    })
}

/// Candidates by their bytes.
pub open spec fn candidates_view(v: Seq<Option<Vec<u8>>>) -> Seq<Option<Seq<u8>>> {
    v.map_values(|p: Option<Vec<u8>>| path_view(p))
}

/// What to render with, one after the other.
pub fn candidates(renderer: Renderer, devices: Vec<Device>) -> (r: Vec<Option<Vec<u8>>>)
    ensures
        candidates_view(r@) == candidates_of(renderer, devices@),
{
    let mut out: Vec<Option<Vec<u8>>> = Vec::new();
    let ghost empty: Seq<Option<Seq<u8>>> = Seq::empty();
    assert(candidates_view(out@) =~= empty);
    if renderer != Renderer::Pixman {
        let mut i: usize = 0;
        assert(devices@.take(0) =~= Seq::empty());
        while i < devices.len()
            invariant
                i <= devices@.len(),
                candidates_view(out@) == usable_paths(devices@.take(i as int)),
            decreases devices@.len() - i,
        {
            let ghost was = candidates_view(out@);
            assert(devices@.take(i + 1).drop_last() =~= devices@.take(i as int));
            assert(devices@.take(i + 1).last() == devices@[i as int]);
            if devices[i].usable {
                let path = devices[i].path.clone();
                assert(path@ =~= devices@[i as int].path@);
                out.push(Some(path));
                assert(candidates_view(out@) =~= was.push(Some(devices@[i as int].path@)));
            }
            i = i + 1;
        }
        assert(devices@.take(i as int) =~= devices@);
    }
    let ghost was = candidates_view(out@);
    if renderer != Renderer::Gles2 {
        out.push(None);
        assert(candidates_view(out@) =~= was + seq![None::<Seq<u8>>]);
    } else {
        assert(was + empty =~= was);
    }
    out
}

/// Rendering on the processor is tried after everything else, if at all.
pub proof fn the_processor_is_the_last_resort(renderer: Renderer, devices: Seq<Device>, i: int)
    requires
        0 <= i < candidates_of(renderer, devices).len(),
        candidates_of(renderer, devices)[i] is None,
    ensures
        i == candidates_of(renderer, devices).len() - 1,
        renderer != Renderer::Gles2,
{
    lemma_usable(devices);
}

proof fn lemma_usable(devices: Seq<Device>)
    ensures
        forall|i: int|
            0 <= i < usable_paths(devices).len() ==> #[trigger] usable_paths(devices)[i] is Some,
    decreases devices.len(),
{
    if devices.len() > 0 {
        lemma_usable(devices.drop_last());
    }
}

/// The name of a candidate's renderer.
pub open spec fn renderer_of(hardware: bool) -> Seq<char> {
    if hardware {
        "gles2"@
    } else {
        "pixman"@
    }
}

/// The name of a candidate's renderer.
pub fn renderer_name(hardware: bool) -> (r: &'static str)
    ensures
        r@ == renderer_of(hardware),
{
    if hardware {
        "gles2"
    } else {
        "pixman"
    }
}

/// Variables that would choose the renderer behind the candidate's back.
pub fn compositor_removed() -> (r: Vec<String>)
    ensures
        texts(r@) == seq![
            "WLR_RENDERER_FORCE_SOFTWARE"@,
            "WLR_RENDERER_ALLOW_SOFTWARE"@,
            "WLR_RENDER_DRM_DEVICE"@,
        ],
{
    let mut v: Vec<String> = Vec::new();
    v.push("WLR_RENDERER_FORCE_SOFTWARE".to_owned());
    v.push("WLR_RENDERER_ALLOW_SOFTWARE".to_owned());
    v.push("WLR_RENDER_DRM_DEVICE".to_owned());
    assert(texts(v@) =~= seq![
        "WLR_RENDERER_FORCE_SOFTWARE"@,
        "WLR_RENDERER_ALLOW_SOFTWARE"@,
        "WLR_RENDER_DRM_DEVICE"@,
    ]);
    v
}

/// The compositor's environment for a candidate, besides what every program is told.
pub open spec fn compositor_environment(device: Option<Seq<u8>>) -> Seq<(Seq<char>, Seq<u8>)> {
    let common = seq![
        ("WLR_BACKENDS"@, vstd::utf8::encode_utf8("headless"@)),
        ("WLR_HEADLESS_OUTPUTS"@, vstd::utf8::encode_utf8("1"@)),
        ("WLR_LIBINPUT_NO_DEVICES"@, vstd::utf8::encode_utf8("1"@)),
        ("WLR_RENDERER"@, vstd::utf8::encode_utf8(renderer_of(device is Some))),
    ];
    match device {
        Some(path) => common.push(("WLR_RENDER_DRM_DEVICE"@, path)),
        None => common,
    }
}

/// The compositor's environment for a candidate.
pub fn compositor_settings(device: &Option<Vec<u8>>) -> (r: Vec<Setting>)
    ensures
        crate::backend::sway::settings_view(r@) == compositor_environment(path_view(*device)),
{
    let mut v: Vec<Setting> = Vec::new();
    v.push(Setting { name: "WLR_BACKENDS", value: bytes_of("headless") });
    v.push(Setting { name: "WLR_HEADLESS_OUTPUTS", value: bytes_of("1") });
    v.push(Setting { name: "WLR_LIBINPUT_NO_DEVICES", value: bytes_of("1") });
    v.push(
        Setting { name: "WLR_RENDERER", value: bytes_of(renderer_name(device.is_some())) },
    );
    match device {
        Some(d) => {
            let path = d.clone();
            assert(path@ =~= d@);
            v.push(Setting { name: "WLR_RENDER_DRM_DEVICE", value: path });
        },
        None => {},
    }
    assert(crate::backend::sway::settings_view(v@) =~= compositor_environment(
        path_view(*device),
    ));
    v
}

/// Whether a file is the socket of the display.
pub open spec fn display_name(name: Seq<u8>) -> bool {
    opens_with(name, vstd::utf8::encode_utf8("wayland-"@)) && !closes_with(
        name,
        vstd::utf8::encode_utf8(".lock"@),
    )
}

/// Whether a file is the socket for messages to the compositor.
pub open spec fn message_name(name: Seq<u8>) -> bool {
    opens_with(name, vstd::utf8::encode_utf8("sway-ipc."@)) && closes_with(
        name,
        vstd::utf8::encode_utf8(".sock"@),
    )
}

/// The first of some names.
pub open spec fn first_name(names: Seq<Vec<u8>>, good: spec_fn(Seq<u8>) -> bool) -> Option<Seq<u8>>
    decreases names.len(),
{
    if names.len() == 0 {
        None
    } else if good(names[0]@) {
        Some(names[0]@)
    } else {
        first_name(names.drop_first(), good)
    }
}

/// The compositor's sockets among the names in its directory, once both are there.
pub fn sockets(names: &Vec<Vec<u8>>) -> (r: Option<(Vec<u8>, Vec<u8>)>)
    ensures
        ({
            let display = first_name(names@, |n: Seq<u8>| display_name(n));
            let message = first_name(names@, |n: Seq<u8>| message_name(n));
            if display is Some && message is Some {
                r matches Some((d, m)) && d@ == display->0 && m@ == message->0
            } else {
                r is None
            }
        }),
{
    let ghost p = |n: Seq<u8>| display_name(n);
    let ghost q = |n: Seq<u8>| message_name(n);
    let mut display: Option<usize> = None;
    let mut message: Option<usize> = None;
    let mut i: usize = 0;
    assert(names@.skip(0) =~= names@);
    while i < names.len()
        invariant
            i <= names@.len(),
            p == (|n: Seq<u8>| display_name(n)),
            q == (|n: Seq<u8>| message_name(n)),
            match display {
                Some(k) => k < names@.len() && first_name(names@, p) == Some(names@[k as int]@),
                None => first_name(names@, p) == first_name(names@.skip(i as int), p),
            },
            match message {
                Some(k) => k < names@.len() && first_name(names@, q) == Some(names@[k as int]@),
                None => first_name(names@, q) == first_name(names@.skip(i as int), q),
            },
        decreases names@.len() - i,
    {
        proof {
            assert(names@.skip(i as int)[0] == names@[i as int]);
            assert(names@.skip(i as int).drop_first() =~= names@.skip(i + 1));
        }
        if display.is_none() && name_opens_with(&names[i], "wayland-") && !name_closes_with(
            &names[i],
            ".lock",
        ) {
            display = Some(i);
        }
        if message.is_none() && name_opens_with(&names[i], "sway-ipc.") && name_closes_with(
            &names[i],
            ".sock",
        ) {
            message = Some(i);
        }
        i = i + 1;
    }
    assert(names@.skip(i as int) =~= Seq::empty());
    match display {
        None => None,
        Some(d) => match message {
            None => None,
            Some(m) => {
                let x = names[d].clone();
                let y = names[m].clone();
                assert(x@ =~= names@[d as int]@);
                assert(y@ =~= names@[m as int]@);
                Some((x, y))
            },
        },
    }
}

/// What to do with a compositor that is starting.
#[derive(Debug, Clone, Copy, PartialEq, Eq, Structural)]
pub enum StartStep {
    /// It ended: the candidate failed.
    Ended,
    /// It answers.
    Ready,
    /// It took too long: end it; the candidate failed.
    Kill,
    /// Look again soon.
    Wait,
}

/// Decides what to do with a compositor that is starting.
pub fn start_step(ended: bool, answers: bool, late: bool) -> (r: StartStep)
    ensures
        r == (if ended {
            StartStep::Ended
        } else if answers {
            StartStep::Ready
        } else if late {
            StartStep::Kill
        } else {
            StartStep::Wait
        }),
{
    if ended {
        StartStep::Ended
    } else if answers {
        StartStep::Ready
    } else if late {
        StartStep::Kill
    } else {
        StartStep::Wait
    }
}

/// What users see of a renderer: the name of its device, or that there is none.
pub fn renderer_label(device: Option<&str>) -> (r: String)
    ensures
        r@ == (match device {
            Some(name) => "GPU · GLES2 ("@ + name@ + ")"@,
            None => "CPU · Pixman（兼容模式）"@,
        }),
{
    match device {
        Some(name) => {
            let mut s = "GPU · GLES2 (".to_owned();
            s.append(name);
            s.append(")");
            s
        },
        None => "CPU · Pixman（兼容模式）".to_owned(),
    }
}

/// Whether a file was left by a compositor that failed. Neither the bus nor anything of the
/// application is among these.
pub open spec fn leftover(name: Seq<u8>) -> bool {
    ||| opens_with(name, vstd::utf8::encode_utf8("wayland-"@))
    ||| opens_with(name, vstd::utf8::encode_utf8("sway-ipc."@))
    ||| name == vstd::utf8::encode_utf8("x11-display"@)
}

/// Whether a file was left by a compositor that failed.
pub fn is_leftover(name: &Vec<u8>) -> (r: bool)
    ensures
        r == leftover(name@),
{
    name_opens_with(name, "wayland-") || name_opens_with(name, "sway-ipc.")
        || same_bytes(name, &bytes_of("x11-display"))
}

/// Renderers that were tried and failed.
pub struct Attempts {
    pub failures: Vec<String>,
}

/// The message on renderers that all failed.
pub open spec fn all_failed(failures: Seq<Seq<char>>, log: Seq<char>) -> Seq<char> {
    "无法启动独立渲染器（"@ + joined(failures, ", "@) + "）；请检查 GPU 权限及 "@ + log
}

impl Attempts {
    pub fn new() -> (r: Self)
        ensures
            r.failures@.len() == 0,
    {
        Attempts { failures: Vec::new() }
    }

    /// A candidate failed, whose device has the given text.
    pub fn failed(&mut self, hardware: bool, device: &str)
        ensures
            texts(final(self).failures@) == texts(old(self).failures@).push(
                renderer_of(hardware) + " "@ + device@,
            ),
    {
        let ghost was = texts(self.failures@);
        let mut s = renderer_name(hardware).to_owned();
        s.append(" ");
        s.append(device);
        let ghost last = s@;
        self.failures.push(s);
        assert(texts(self.failures@) =~= was.push(last));
    }

    /// Every candidate failed.
    pub fn give_up(&self, log: &str) -> (r: Fault)
        ensures
            r.says(ErrorCode::BackendUnavailable, all_failed(texts(self.failures@), log@)),
    {
        let mut s = "无法启动独立渲染器（".to_owned();
        s.append(crate::text::join(&self.failures, ", ").as_str());
        s.append("）；请检查 GPU 权限及 ");
        s.append(log);
        Fault::unavailable(s.as_str())
    }
}

/// Whether an open file of the compositor is the render device that it uses.
pub open spec fn render_node(path: Seq<u8>) -> bool {
    let at = route(path);
    &&& at.absolute
    &&& at.parts.len() == 3
    &&& at.parts[0] == vstd::utf8::encode_utf8("dev"@)
    &&& at.parts[1] == vstd::utf8::encode_utf8("dri"@)
    &&& render_name(at.parts[2])
}

/// Whether an open file of the compositor is the render device that it uses.
pub fn is_render_node(path: &Vec<u8>) -> (r: bool)
    ensures
        r == render_node(path@),
{
    let at = parts(path);
    assert(runs(at@).len() == at@.len());
    if !is_absolute(path) || at.len() != 3 {
        return false;
    }
    assert(runs(at@)[0] == at@[0]@ && runs(at@)[1] == at@[1]@ && runs(at@)[2] == at@[2]@);
    same_bytes(&at[0], &bytes_of("dev")) && same_bytes(&at[1], &bytes_of("dri"))
        && name_opens_with(&at[2], "renderD")
}

} // verus!
