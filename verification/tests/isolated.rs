use computer_use_linux::backend::acting::{ActEvent, ActPhase, ActStep};
use computer_use_linux::backend::applications::DesktopApplication;
use computer_use_linux::backend::launch::{
    activation_arguments, application_settings, await_window, bus_address, bus_arguments,
    bus_config, bus_pid, candidates, check_activation, check_launcher, compositor_config,
    compositor_removed, compositor_settings, devices, find_own, is_leftover, is_note,
    is_render_node, read_renderer, reaped, recoverable, renderer_label, sockets, start_step,
    state_dir, Attempts, Device, Launch, Ran, Renderer, StartStep,
};
use computer_use_linux::backend::preview::Viewport;
use computer_use_linux::backend::process::ProcessIdentity;
use computer_use_linux::backend::sway::{
    added_variables, capabilities, check_alive, check_resized, check_windows, legacy_renderer,
    listed_windows, managed_windows, output_scale, read_answer, read_windows, removed_variables,
    reply_length, resize_command, sway_message, Application, Isolated, IsolatedPreview, Layout,
    OwnedWindow, Owner, Placed, Resize, SavedSession, Screen, Setting, TreeWindow,
};
use computer_use_linux::backend::x11::Window;
use computer_use_linux::json::read_json;
use computer_use_linux::model::{Action, Button, ErrorCode, Fault, Point, Target};
use computer_use_linux::number::Binary64;

fn number(x: f64) -> Binary64 {
    Binary64::from_bits(x.to_bits())
}

fn process(pid: u32, executable: &str) -> ProcessIdentity {
    ProcessIdentity { pid, start_time: 1, executable: executable.as_bytes().to_vec() }
}

fn installed(program: &str) -> Application {
    Application::Installed(DesktopApplication {
        id: "app.desktop".into(),
        name: "App".into(),
        program: program.as_bytes().to_vec(),
        args: vec!["-x".into()],
        directory: None,
        desktop_file: b"/app.desktop".to_vec(),
    })
}

fn saved() -> SavedSession {
    SavedSession {
        id: "s".into(),
        application: installed("/bin/app"),
        runtime: b"/run/s".to_vec(),
        sway: process(2, "/bin/sway"),
        app: process(3, "/bin/app"),
        bus: process(4, "/bin/dbus-daemon"),
        socket: b"/run/s/sway".to_vec(),
        wayland: b"/run/s/wayland-1".to_vec(),
        renderer: legacy_renderer(),
        x11: None,
        x11_application: false,
    }
}

fn text(bytes: &[u8]) -> &str {
    std::str::from_utf8(bytes).unwrap()
}

fn shown(settings: &[Setting]) -> Vec<(&str, &str)> {
    settings.iter().map(|s| (s.name, text(&s.value))).collect()
}

#[test]
fn applications_are_resolved_with_two_exceptions() {
    let unknown = || Err(Fault::invalid("unknown"));
    assert!(matches!(
        Application::requested("firefox", unknown(), true, false),
        Ok(Application::Firefox)
    ));
    assert!(matches!(
        Application::requested("gnome-text-editor", unknown(), false, true),
        Ok(Application::TextEditor)
    ));
    let missing = Application::requested("firefox", unknown(), false, true).unwrap_err();
    assert_eq!(missing.message, "unknown");
    assert!(Application::requested("kitty", unknown(), true, true).is_err());
    match installed("/bin/app") {
        Application::Installed(app) => assert!(matches!(
            Application::requested("firefox", Ok(app), true, true),
            Ok(Application::Installed(_))
        )),
        _ => unreachable!(),
    }
    assert_eq!(Application::Firefox.label(), "Firefox");
    assert_eq!(Application::TextEditor.label(), "GNOME Text Editor");
    assert_eq!(installed("/bin/app").label(), "App");
    assert_eq!(Application::TextEditor.executable(), b"gnome-text-editor");
}

#[test]
fn applications_do_not_reach_the_other_session() {
    assert_eq!(
        Application::Firefox.arguments(),
        ["--no-remote", "--new-instance", "about:blank"]
    );
    assert_eq!(Application::TextEditor.arguments(), ["--standalone"]);
    assert_eq!(installed("/bin/app").arguments(), ["-x"]);
    assert_eq!(
        installed("/usr/bin/firefox-esr").arguments(),
        ["-x", "--no-remote", "--new-instance", "about:blank"]
    );
    assert_eq!(installed("/bin/gnome-text-editor").arguments(), ["-x", "--standalone"]);
}

#[test]
fn the_users_own_data_stays_in_reach() {
    let removed = removed_variables();
    assert_eq!(removed.len(), 16);
    assert!(removed.contains(&"WAYLAND_DISPLAY".to_string()));
    assert!(removed.contains(&"AT_SPI_BUS_ADDRESS".to_string()));
    let added = added_variables(&b"/run/s".to_vec(), "unix:path=/run/s/bus");
    assert_eq!(
        shown(&added),
        [
            ("XDG_RUNTIME_DIR", "/run/s"),
            ("DBUS_SESSION_BUS_ADDRESS", "unix:path=/run/s/bus"),
            ("XDG_CURRENT_DESKTOP", "sway"),
            ("XDG_SESSION_TYPE", "wayland"),
            ("GTK_USE_PORTAL", "0"),
            ("GDK_BACKEND", "wayland"),
            ("QT_QPA_PLATFORM", "wayland;xcb"),
            ("NO_AT_BRIDGE", "1"),
        ]
    );
    for name in ["HOME", "XDG_CONFIG_HOME", "XDG_DATA_HOME", "XDG_STATE_HOME", "XDG_CACHE_HOME"] {
        assert!(!removed.iter().any(|r| r == name));
        assert!(!added.iter().any(|s| s.name == name));
    }
}

#[test]
fn messages_are_framed_for_the_compositor() {
    assert_eq!(
        sway_message(3, "猫"),
        [
            b"i3-ipc".to_vec(),
            3u32.to_le_bytes().to_vec(),
            3u32.to_le_bytes().to_vec(),
            "猫".as_bytes().to_vec()
        ]
        .concat()
    );
    let head = |magic: &[u8], length: u32, kind: u32| {
        let bytes = [magic, &length.to_le_bytes(), &kind.to_le_bytes()].concat();
        reply_length(&bytes, 4)
    };
    assert_eq!(head(b"i3-ipc", 70000, 4).unwrap(), 70000);
    assert_eq!(head(b"i3-ipc", 8 * 1024 * 1024, 4).unwrap(), 8 * 1024 * 1024);
    assert_eq!(
        head(b"i3-ipc", 8 * 1024 * 1024 + 1, 4).unwrap_err().message,
        "Sway IPC 响应过大"
    );
    assert_eq!(head(b"i3-ipc", 1, 3).unwrap_err().message, "Sway IPC 响应类型错误");
    assert_eq!(head(b"i3-IPC", 1, 4).unwrap_err().message, "Sway IPC 响应类型错误");
}

const TREE: &str = r#"{"id":1,"nodes":[
    {"id":2,"window":4294967303,"rect":{"x":1},"focused":true,"nodes":[]},
    {"id":3,"pid":12,"app_id":null,"floating_nodes":[
        {"id":4,"pid":12,"app_id":"a","rect":{"x":2},"focused":false}]}],
    "floating_nodes":[{"id":5,"pid":13,"app_id":"b"},{"id":6,"pid":-1,"app_id":"c"}]}"#;

fn tree() -> Vec<TreeWindow> {
    read_windows(&TREE.as_bytes().to_vec()).unwrap()
}

#[test]
fn windows_are_found_in_the_tree() {
    let list = tree();
    let found: Vec<_> = list.iter().map(|w| (w.window, w.pid)).collect();
    assert_eq!(
        found,
        [(Some(4294967303), None), (None, Some(12)), (None, Some(13))]
    );
    assert_eq!(managed_windows(&list), [7]);
    assert!(read_answer(&b"{".to_vec()).is_err());
    assert!(read_windows(&b"{".to_vec()).is_err());
    assert_eq!(listed_windows(&vec![], true).unwrap_err().message, "应用没有窗口");
    assert_eq!(listed_windows(&list, true).unwrap(), [7]);
    assert_eq!(
        listed_windows(&list, false).unwrap_err().message,
        "此旧会话没有获准的 X11 端点"
    );
    assert!(check_alive(true, true).is_ok());
    assert_eq!(check_alive(true, false).unwrap_err().message, "独立应用或合成器已退出");
    assert!(check_alive(false, true).is_err());
}

fn xwindow(id: u32, owner: ProcessIdentity, descends: bool) -> OwnedWindow {
    OwnedWindow {
        window: Window {
            id,
            process: owner,
            geometry: (0, 0, 1, 1),
            mapped: true,
            override_redirect: false,
        },
        descends,
    }
}

fn owner(pid: u32, executable: &str, descends: bool) -> Owner {
    Owner { process: Ok(process(pid, executable)), descends }
}

fn owners(executable: &str) -> Vec<Owner> {
    vec![
        owner(0, "", false),
        owner(12, "/bin/app", true),
        owner(13, executable, true),
    ]
}

#[test]
fn every_window_must_belong_to_the_application() {
    let session = saved();
    let own = || vec![xwindow(7, process(9, "/bin/app"), true)];
    let check = |local: bool, owners: &Vec<Owner>, xwindows: &Vec<OwnedWindow>| {
        check_windows(&session, local, &tree(), owners, xwindows)
    };
    let placed = check(false, &owners("/bin/app"), &own()).unwrap();
    let pids: Vec<_> = placed.iter().map(|p: &Placed| p.process.pid).collect();
    assert_eq!(pids, [9, 12, 13]);
    let stranger = check(false, &owners("/bin/other"), &own()).unwrap_err();
    assert_eq!(stranger.code, ErrorCode::PermissionDenied);
    assert_eq!(
        stranger.message,
        "独立会话出现未授权应用窗口；暂停观察和输入，请在本地接管处理"
    );
    assert!(check(true, &owners("/bin/other"), &own()).is_ok());
    let mut unrelated = owners("/bin/app");
    unrelated[2].descends = false;
    assert!(check(false, &unrelated, &own()).is_err());
    assert_eq!(
        check(false, &owners("/bin/app"), &vec![]).unwrap_err().message,
        "X11 窗口已关闭"
    );
    let mut menu = own();
    menu.push(xwindow(8, process(10, "/bin/menu"), true));
    assert!(check(false, &owners("/bin/app"), &menu).is_err());
    assert!(check(true, &owners("/bin/app"), &menu).is_ok());
    let mut selection = own();
    selection.push(xwindow(8, process(2, "/bin/sway"), false));
    assert!(check(false, &owners("/bin/app"), &selection).is_ok());
    selection[1].window.process.start_time += 1;
    assert!(check(false, &owners("/bin/app"), &selection).is_err());
    let mut gone = owners("/bin/app");
    gone[1].process = Err(Fault::stale("进程已经退出"));
    assert_eq!(check(false, &gone, &own()).unwrap_err().message, "进程已经退出");
    let mut list = tree();
    list[1].pid = None;
    assert_eq!(
        check_windows(&session, false, &list, &owners("/bin/app"), &own()).unwrap_err().message,
        "窗口没有可验证身份"
    );
}

const OUTPUTS: &str =
    r#"[{"name":"HEADLESS-1","rect":{"x":0},"scale":1.25,"active":true,"ignored":1}]"#;

fn layout(outputs: &str) -> Layout {
    let windows = check_windows(
        &saved(),
        false,
        &tree(),
        &owners("/bin/app"),
        &vec![xwindow(7, process(9, "/bin/app"), true)],
    )
    .unwrap();
    let json = read_json(&outputs.as_bytes().to_vec()).unwrap();
    Layout::complete(windows, vec![xwindow(7, process(9, "/bin/app"), true)], &json).unwrap()
}

#[test]
fn layouts_compare_by_what_they_note() {
    let first = layout(OUTPUTS);
    assert!(first.equals(&layout(&OUTPUTS.replace("\"ignored\":1", "\"ignored\":2"))));
    assert!(!first.equals(&layout(&OUTPUTS.replace("1.25", "1.5"))));
    let mut moved = layout(OUTPUTS);
    moved.x11[0].window.geometry.0 = 1;
    assert!(!first.equals(&moved));
    let mut other = layout(OUTPUTS);
    other.windows[0].process.pid = 10;
    assert!(!first.equals(&other));
    let json = read_json(&b"{}".to_vec()).unwrap();
    assert_eq!(
        Layout::complete(vec![], vec![], &json).unwrap_err().message,
        "虚拟输出列表无效"
    );
}

#[test]
fn scales_are_read_from_the_outputs() {
    let scale = |outputs: &str, name: &str| {
        output_scale(&read_json(&outputs.as_bytes().to_vec()).unwrap(), name)
    };
    assert_eq!(scale(OUTPUTS, "HEADLESS-1").unwrap(), number(1.25));
    assert_eq!(scale(OUTPUTS, "HEADLESS-2").unwrap_err().message, "虚拟显示器缩放信息无效");
    for bad in ["0", "-1", "null", "\"1\""] {
        assert!(scale(&OUTPUTS.replace("1.25", bad), "HEADLESS-1").is_err());
    }
    assert_eq!(scale(&OUTPUTS.replace("1.25", "2"), "HEADLESS-1").unwrap(), number(2.0));
    assert!(scale("{}", "HEADLESS-1").is_err());
}

fn screen() -> Screen {
    Screen { width: 10, height: 20, scale: Ok(number(1.25)) }
}

#[test]
fn observed_layouts_serve_one_action() {
    assert_eq!(capabilities(), ["screenshot", "click", "drag", "scroll", "key", "text"]);
    let mut app = Isolated::open_as(saved(), "t".into());
    assert_eq!(Isolated::open(saved()).target_id.len(), 36);
    assert!(app.check_target(None).is_ok());
    assert!(app.check_target(Some("t")).is_ok());
    assert_eq!(app.check_target(Some("u")).unwrap_err().message, "目标不属于此应用会话");
    let targets = app.targets(true, true, Some(screen())).unwrap();
    assert_eq!((targets[0].id.as_str(), targets[0].label.as_str()), ("t", "App"));
    assert_eq!((targets[0].width, targets[0].height), (10, 20));
    assert_eq!(
        app.targets(false, true, Some(screen())).unwrap_err().code,
        ErrorCode::Unsupported
    );
    assert!(app.targets(true, false, Some(screen())).is_err());
    assert_eq!(app.targets(true, true, None).unwrap_err().message, "没有虚拟显示器");
    let now = || Ok(layout(OUTPUTS));
    assert!(app.check_action("t", now(), 4).is_err());
    let other = layout(&OUTPUTS.replace("1.25", "1.5"));
    assert_eq!(
        app.observed("o".into(), layout(OUTPUTS), other, 4, "png".into(), screen())
            .unwrap_err()
            .message,
        "截图期间窗口布局改变，请重新观察"
    );
    let seen = app
        .observed("o".into(), layout(OUTPUTS), layout(OUTPUTS), 4, "png".into(), screen())
        .unwrap();
    assert_eq!(seen.png_base64.as_deref(), Some("png"));
    assert!(app.check_action("t", now(), 4).is_ok());
    assert!(app.check_action("t", now(), 5).is_err());
    assert!(app.check_action("u", now(), 4).is_err());
    assert_eq!(app.check_action("t", Err(Fault::stale("x")), 4).unwrap_err().message, "x");
    app.previewed("p".into(), layout(OUTPUTS), layout(OUTPUTS), 9, "png".into(), screen())
        .unwrap();
    assert!(app.check_action("t", now(), 4).is_ok());
    assert!(app.check_screen(&seen.target, Some(screen())).is_ok());
    assert_eq!(app.check_screen(&seen.target, None).unwrap_err().message, "虚拟显示器消失");
    let wider = Screen { width: 11, ..screen() };
    assert_eq!(
        app.check_screen(&seen.target, Some(wider)).unwrap_err().message,
        "虚拟显示器尺寸变化"
    );
    let scaled = Screen { scale: Ok(number(1.0)), ..screen() };
    assert_eq!(
        app.check_screen(&seen.target, Some(scaled)).unwrap_err().message,
        "虚拟显示器缩放变化"
    );
    app.acted();
    assert!(app.check_action("t", now(), 4).is_err());
}

#[test]
fn users_act_on_what_they_see() {
    let app = Isolated::open_as(saved(), "t".into());
    let mut view = app.local_view();
    assert!(view.local_only);
    let seen = view.human_target(None, Some(screen())).unwrap();
    assert!(view.human_target(Some(&seen), Some(screen())).is_ok());
    let old = Target { width: 9, ..seen.clone() };
    assert_eq!(
        view.human_target(Some(&old), Some(screen())).unwrap_err().message,
        "预览尺寸已变化，请等待新画面后操作"
    );
    assert_eq!(view.human_target(None, None).unwrap_err().message, "虚拟输出已关闭");
    let click = |x: f64| Action::Click {
        at: Point { x: number(x), y: number(0.0) },
        button: Button::Left,
    };
    let ready = view.human_ready(seen.clone(), Ok(layout(OUTPUTS)), 4, &click(9.5)).unwrap();
    assert_eq!(ready.observation_id, "");
    assert!(view.check_action("t", Ok(layout(OUTPUTS)), 4).is_ok());
    assert_eq!(
        view.human_ready(seen.clone(), Ok(layout(OUTPUTS)), 4, &click(10.0))
            .unwrap_err()
            .message,
        "坐标超出观察图像"
    );
    assert!(view.human_ready(seen, Err(Fault::stale("x")), 4, &click(0.0)).is_err());
}

#[test]
fn previews_follow_the_size_of_the_view() {
    let size = Viewport::new(2400, 1350, number(1.25), number(1.25)).unwrap();
    assert_eq!(
        resize_command(size, "1.250", false),
        "output HEADLESS-1 mode 2400x1350@60Hz scale 1.250"
    );
    assert_eq!(
        resize_command(size, "1.250", true),
        "output HEADLESS-1 mode 2400x1350@60Hz scale 1.000"
    );
    let mut preview = IsolatedPreview::new("t".into());
    assert!(matches!(
        preview.resize(size, "1.250", false, true),
        Ok(Resize::Command(c)) if c.ends_with("scale 1.250")
    ));
    assert_eq!(
        preview.resize(size, "1.250", false, false).unwrap_err().message,
        "独立应用已退出"
    );
    preview.resized(size);
    assert!(matches!(preview.resize(size, "1.250", false, false), Ok(Resize::Nothing)));
    let answer = |s: &str| check_resized(&read_json(&s.as_bytes().to_vec()).unwrap());
    assert!(answer("[{\"success\":true},{\"success\":true}]").is_ok());
    for bad in ["[]", "{}", "[{\"success\":true},{\"success\":false}]", "[{}]", "[{\"success\":1}]"]
    {
        assert_eq!(answer(bad).unwrap_err().message, "无法调整独立输出尺寸");
    }
    assert!(preview.begin(true, 3).unwrap());
    assert!(!preview.begin(true, 0).unwrap());
    assert!(preview.begin(false, 0).is_err());
    let json = read_json(&OUTPUTS.as_bytes().to_vec()).unwrap();
    preview.rescale(&json, 3).unwrap();
    assert_eq!(
        preview.rescale(&read_json(&b"[]".to_vec()).unwrap(), 4).unwrap_err().message,
        "虚拟输出缩放无效"
    );
    assert_eq!(
        preview.framed(&Application::Firefox, 1, 2, 4).unwrap_err().code,
        ErrorCode::Busy
    );
    let target = preview.framed(&Application::Firefox, 1, 2, 3).unwrap();
    assert_eq!((target.id.as_str(), target.label.as_str()), ("t", "Firefox"));
    assert_eq!((target.width, target.height, target.scale), (1, 2, number(1.25)));
}

#[test]
fn sessions_are_noted_below_the_state_directory() {
    let bytes = |s: &str| Some(s.as_bytes().to_vec());
    assert_eq!(
        text(&state_dir(bytes("/state"), bytes("/home/u")).unwrap()),
        "/state/computer-use-linux"
    );
    assert_eq!(
        text(&state_dir(None, bytes("/home/u")).unwrap()),
        "/home/u/.local/state/computer-use-linux"
    );
    assert_eq!(state_dir(None, None).unwrap_err().message, "缺少用户目录");
    assert!(is_note(&b"a.json".to_vec()));
    assert!(!is_note(&b".json".to_vec()));
    assert!(!is_note(&b"a.jsonl".to_vec()));
    assert!(recoverable(true, true));
    assert!(!recoverable(true, false));
    assert!(!recoverable(false, true));
    assert!(reaped(&saved(), true).is_empty());
    let pids: Vec<_> = reaped(&saved(), false).iter().map(|p| p.pid).collect();
    assert_eq!(pids, [2, 4]);
}

#[test]
fn failed_sessions_end_what_they_started() {
    let id = "0123456789abcdef".to_string();
    let mut launch = Launch::begin_as(id, &b"/run/c".to_vec(), installed("/bin/app"));
    assert_eq!(text(&launch.runtime), "/run/c/s-0123456789ab");
    assert_eq!(launch.note(), "0123456789abcdef.json");
    assert!(launch.doomed().is_empty());
    launch.add(process(4, "bus"));
    launch.add(process(2, "sway"));
    let pids: Vec<_> = launch.doomed().iter().map(|p| p.pid).collect();
    assert_eq!(pids, [2, 4]);
    launch.release();
    assert!(launch.doomed().is_empty());
    assert_eq!(launch.directory(Some(b"/home".to_vec())).unwrap(), b"/home");
    if let Application::Installed(app) = &mut launch.application {
        app.directory = Some(b"/srv".to_vec());
    }
    assert_eq!(launch.directory(Some(b"/home".to_vec())).unwrap(), b"/srv");
    assert_eq!(Launch::begin(&b"/run".to_vec(), Application::Firefox).id.len(), 36);
}

fn ran(success: bool, stdout: &str, stderr: &str) -> Result<Ran, String> {
    Ok(Ran { success, stdout: stdout.into(), stderr: stderr.into() })
}

#[test]
fn the_bus_is_private() {
    let address = bus_address("/run/s");
    assert_eq!(address, "unix:path=/run/s/bus");
    assert_eq!(
        bus_config(&address, 1000),
        "<busconfig><type>session</type><listen>unix:path=/run/s/bus</listen><auth>EXTERNAL</auth><standard_session_servicedirs/><policy context=\"default\"><allow user=\"1000\"/><allow own=\"*\"/><allow send_destination=\"*\"/><allow receive_sender=\"*\"/></policy></busconfig>"
    );
    assert_eq!(
        bus_arguments("/run/s/dbus.conf"),
        ["--config-file=/run/s/dbus.conf", "--fork", "--print-pid=1"]
    );
    assert_eq!(bus_pid(ran(true, " 123\n", "")).unwrap(), 123);
    assert_eq!(bus_pid(ran(true, "x", "")).unwrap_err().message, "D-Bus 未返回进程号");
    assert_eq!(bus_pid(ran(false, "1", "no")).unwrap_err().message, "no");
    assert_eq!(bus_pid(Err("e".into())).unwrap_err().message, "启动独立 D-Bus: e");
    assert_eq!(
        activation_arguments("/w", ":3"),
        ["WAYLAND_DISPLAY=/w", "DISPLAY=:3"]
    );
    assert!(check_activation(Ok(true)).is_ok());
    assert_eq!(
        check_activation(Ok(false)).unwrap_err().message,
        "无法设置独立图形会话的服务环境"
    );
    assert_eq!(
        check_activation(Err("e".into())).unwrap_err().message,
        "设置图形会话服务环境: e"
    );
    assert_eq!(
        shown(&application_settings(&b"/w".to_vec(), ":3")),
        [("WAYLAND_DISPLAY", "/w"), ("DISPLAY", ":3"), ("MOZ_ENABLE_WAYLAND", "1")]
    );
}

#[test]
fn the_first_window_of_the_application_is_awaited() {
    assert!(check_launcher(None, "/log").is_ok());
    assert_eq!(
        check_launcher(Some("exit status: 1"), "/log").unwrap_err().message,
        "应用启动器已退出（exit status: 1），未创建可验证窗口；可能不兼容当前图形会话或配置被占用。查看 /log；日志为空时，启动器可能屏蔽了子进程输出"
    );
    let own = vec![xwindow(7, process(9, "/bin/app"), true)];
    let foreign = vec![xwindow(7, process(9, "/bin/app"), false)];
    let none = vec![false, false, false];
    assert_eq!(find_own(&tree(), &none, &own), Some((9, true)));
    assert_eq!(find_own(&tree(), &none, &foreign), None);
    assert_eq!(find_own(&tree(), &vec![true, false, true], &foreign), Some((13, false)));
    assert_eq!(find_own(&tree(), &vec![true, false, false], &vec![]), None);
    assert_eq!(await_window(Some((9, true)), true).unwrap(), Some((9, true)));
    assert_eq!(await_window(None, false).unwrap(), None);
    assert!(await_window(None, true).is_err());
}

#[test]
fn renderers_are_tried_in_order() {
    assert_eq!(read_renderer(None).unwrap(), Renderer::Auto);
    assert_eq!(read_renderer(Some("gles2")).unwrap(), Renderer::Gles2);
    assert_eq!(read_renderer(Some("pixman")).unwrap(), Renderer::Pixman);
    assert!(read_renderer(Some("vulkan")).is_err());
    let names: Vec<Vec<u8>> = ["renderD129", "card0", "renderD128", "by-path"]
        .iter()
        .map(|n| n.as_bytes().to_vec())
        .collect();
    let found = devices(None, &names);
    assert_eq!(found, [b"/dev/dri/renderD128".to_vec(), b"/dev/dri/renderD129".to_vec()]);
    assert_eq!(devices(Some(b"/d".to_vec()), &names), [b"/d".to_vec()]);
    let usable = || {
        vec![
            Device { path: b"/a".to_vec(), usable: false },
            Device { path: b"/b".to_vec(), usable: true },
        ]
    };
    assert_eq!(candidates(Renderer::Auto, usable()), [Some(b"/b".to_vec()), None]);
    assert_eq!(candidates(Renderer::Gles2, usable()), [Some(b"/b".to_vec())]);
    assert_eq!(candidates(Renderer::Pixman, usable()), [None]);
    assert_eq!(
        shown(&compositor_settings(&Some(b"/b".to_vec()))),
        [
            ("WLR_BACKENDS", "headless"),
            ("WLR_HEADLESS_OUTPUTS", "1"),
            ("WLR_LIBINPUT_NO_DEVICES", "1"),
            ("WLR_RENDERER", "gles2"),
            ("WLR_RENDER_DRM_DEVICE", "/b"),
        ]
    );
    assert_eq!(shown(&compositor_settings(&None))[3], ("WLR_RENDERER", "pixman"));
    assert_eq!(compositor_settings(&None).len(), 4);
    assert_eq!(compositor_removed().len(), 3);
    assert!(compositor_config().starts_with("output HEADLESS-1 mode 1280x800\nseat seat0"));
    assert!(compositor_config().contains("x11-display"));
    assert_eq!(renderer_label(Some("renderD128")), "GPU · GLES2 (renderD128)");
    assert_eq!(renderer_label(None), "CPU · Pixman（兼容模式）");
}

#[test]
fn compositors_are_found_by_their_sockets() {
    let names = |list: &[&str]| -> Vec<Vec<u8>> {
        list.iter().map(|n| n.as_bytes().to_vec()).collect()
    };
    let all = names(&["bus", "wayland-1.lock", "wayland-1", "sway-ipc.1.lock", "sway-ipc.1.sock"]);
    assert_eq!(
        sockets(&all).unwrap(),
        (b"wayland-1".to_vec(), b"sway-ipc.1.sock".to_vec())
    );
    assert!(sockets(&names(&["wayland-1"])).is_none());
    assert!(sockets(&names(&["wayland-1.lock", "sway-ipc.1.sock"])).is_none());
    assert_eq!(start_step(true, true, true), StartStep::Ended);
    assert_eq!(start_step(false, true, true), StartStep::Ready);
    assert_eq!(start_step(false, false, true), StartStep::Kill);
    assert_eq!(start_step(false, false, false), StartStep::Wait);
    for left in ["wayland-1", "wayland-1.lock", "sway-ipc.1.sock", "x11-display"] {
        assert!(is_leftover(&left.as_bytes().to_vec()));
    }
    for kept in ["bus", "dbus.conf", "sway.log", "x11-display2"] {
        assert!(!is_leftover(&kept.as_bytes().to_vec()));
    }
    let mut attempts = Attempts::new();
    attempts.failed(true, "Some(\"/b\")");
    attempts.failed(false, "None");
    assert_eq!(
        attempts.give_up("/run/s/sway.log").message,
        "无法启动独立渲染器（gles2 Some(\"/b\"), pixman None）；请检查 GPU 权限及 /run/s/sway.log"
    );
    assert!(is_render_node(&b"/dev/dri/renderD128".to_vec()));
    assert!(!is_render_node(&b"/dev/dri/card0".to_vec()));
    assert!(!is_render_node(&b"/tmp/renderD128".to_vec()));
}

/// Acts on an application; what is done, and what comes of it.
fn performed(
    app: &mut Isolated,
    target: &Target,
    seen: &str,
    measured: Screen,
) -> (Vec<&'static str>, Result<(), Fault>) {
    let mut phase = ActPhase::Starting;
    let mut done = vec![];
    let mut measured = Some(measured);
    loop {
        let mut event = ActEvent { outcome: Ok(()), layout: None, revision: 4, screen: None };
        match phase {
            ActPhase::Looking => event.layout = Some(layout(seen)),
            ActPhase::Measuring => event.screen = measured.take(),
            _ => {}
        }
        let (after, step) = app.act(target, phase, event);
        phase = after;
        match step {
            ActStep::Check => done.push("check"),
            ActStep::Refresh => done.push("refresh"),
            ActStep::Look => done.push("look"),
            ActStep::Measure => done.push("measure"),
            ActStep::Send => done.push("send"),
            ActStep::Finished(outcome) => return (done, outcome),
        }
    }
}

#[test]
fn an_observation_allows_one_action_on_what_it_saw() {
    let mut app = Isolated::open_as(saved(), "t".into());
    let look = |app: &mut Isolated| {
        app.observed("o".into(), layout(OUTPUTS), layout(OUTPUTS), 4, "png".into(), screen())
            .unwrap()
            .target
    };
    let target = look(&mut app);
    let other = OUTPUTS.replace("1.25", "1.5");
    let (done, outcome) = performed(&mut app, &target, &other, screen());
    assert_eq!(done, ["check", "refresh", "look"]);
    assert_eq!(outcome.unwrap_err().code, ErrorCode::StaleTarget);
    let wider = Screen { width: 11, ..screen() };
    let (done, outcome) = performed(&mut app, &target, OUTPUTS, wider);
    assert_eq!(done.last(), Some(&"measure"));
    assert_eq!(outcome.unwrap_err().code, ErrorCode::StaleTarget);
    let (done, outcome) = performed(&mut app, &target, OUTPUTS, screen());
    assert_eq!(done, ["check", "refresh", "look", "refresh", "measure", "send"]);
    assert!(outcome.is_ok());
    let (done, outcome) = performed(&mut app, &target, OUTPUTS, screen());
    assert_eq!(done, ["check", "refresh", "look"]);
    assert_eq!(outcome.unwrap_err().code, ErrorCode::StaleTarget);
    let target = look(&mut app);
    assert!(performed(&mut app, &target, OUTPUTS, screen()).1.is_ok());
}
