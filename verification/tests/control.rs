use computer_use_linux::backend::accessibility::{
    call_fault, candidate, check_owner, considered, focused, mutation_capabilities,
    refuse_action, text_length, unique_window, wants_text, window_alive, Control, DesktopWindow,
    Walk, WalkStep,
};
use computer_use_linux::backend::applications::{
    check_entry, eq_ignore_ascii_case, expand_exec, unique_match, DesktopApplication, Entry,
    Listing, WorkingDirectory,
};
use computer_use_linux::backend::cast_watch::{
    check_answer, check_reply, Binding, Cast, CastEvent, CastKind, CastTarget, CastWatch,
    ReadOutcome,
};
use computer_use_linux::backend::desktop::{
    self, check_compositor, check_still, Desktop, Geometry, WindowPlace,
};
use computer_use_linux::backend::directing::{DirectEvent, DirectStep, Directing};
use computer_use_linux::backend::existing::{self, window_shown, Existing};
use computer_use_linux::backend::input::{
    char_symbol, key_symbol, make_keymap, plan, InputGuard, InputStep,
};
use computer_use_linux::backend::niri::{
    self, desktop_windows, niri_casts, niri_outputs, niri_windows,
};
use computer_use_linux::backend::preview::{NextFrame, Stream, Viewport, Work};
use computer_use_linux::backend::process::{Ascent, AscentStep, ProcessIdentity};
use computer_use_linux::backend::sending::{Sending, SendingStep};
use computer_use_linux::backend::verified::{editable, editor, EDITOR, GTK};
use computer_use_linux::backend::wayland::Output;
use computer_use_linux::backend::x11::{
    discover_step, socket_path, wanted_windows, ClientId, Discovery, Endpoint, Peer, SocketFile,
    WindowReply,
};
use computer_use_linux::backend::Cancellation;
use computer_use_linux::json::{read_json, Json};
use computer_use_linux::model::{Action, Button, ErrorCode, Fault, Modifier, Node, Point};
use computer_use_linux::number::Binary64;
use computer_use_linux::picture::Transform;

fn number(x: f64) -> Binary64 {
    Binary64::from_bits(x.to_bits())
}

fn point(x: f64, y: f64) -> Point {
    Point { x: number(x), y: number(y) }
}

fn process(pid: u32, start_time: u64, executable: &str) -> ProcessIdentity {
    ProcessIdentity { pid, start_time, executable: executable.as_bytes().to_vec() }
}

#[test]
fn noneditable_and_password_controls_are_never_allowed() {
    let interfaces = vec!["org.a11y.atspi.EditableText".into()];
    assert!(editable("text box", &interfaces, &[(1 << 7) | (1 << 24) | (1 << 17)]));
    assert!(!editable("password text", &interfaces, &[(1 << 7) | (1 << 24) | (1 << 17)]));
    assert!(!editable("text box", &interfaces, &[1 << 8]));
}

#[test]
fn defunct_controls_and_other_editors_are_not_written() {
    let interfaces = vec!["org.a11y.atspi.EditableText".into()];
    let flags = (1 << 7) | (1 << 24) | (1 << 17);
    assert!(!editable("text box", &interfaces, &[flags | (1 << 6)]));
    assert!(!editable("text box", &[], &[flags]));
    assert!(!editable("text box", &interfaces, &[]));
    let program = EDITOR.as_bytes().to_vec();
    let maps = format!("7f00 r-xp 00 00 1 {GTK}0\n7f01 r--p 00 00 2 /lib/libc.so\n");
    assert!(editor(true, &program, "GTK", "4.22.4", true, Some(&maps)));
    assert!(!editor(false, &program, "GTK", "4.22.4", true, Some(&maps)));
    assert!(!editor(true, &b"/bin/sh".to_vec(), "GTK", "4.22.4", true, Some(&maps)));
    assert!(!editor(true, &program, "Qt", "4.22.4", true, Some(&maps)));
    assert!(!editor(true, &program, "GTK", "4.22.5", true, Some(&maps)));
    assert!(!editor(true, &program, "GTK", "4.22.4", false, Some(&maps)));
    assert!(!editor(true, &program, "GTK", "4.22.4", true, None));
    assert!(!editor(true, &program, "GTK", "4.22.4", true, Some("7f01 /lib/libc.so")));
}

#[test]
fn key_names_cannot_inject_xkb_configuration() {
    assert!(key_symbol("x }; include evil").is_err());
    assert_eq!(key_symbol("猫").unwrap(), "U732B");
}

#[test]
fn keys_have_symbols() {
    assert_eq!(key_symbol("a").unwrap(), "0x61");
    assert_eq!(key_symbol("Enter").unwrap(), "Return");
    assert_eq!(key_symbol("Esc").unwrap(), "Escape");
    assert_eq!(key_symbol("Space").unwrap(), "space");
    assert_eq!(key_symbol("Backspace").unwrap(), "BackSpace");
    assert_eq!(key_symbol("F12").unwrap(), "F12");
    assert_eq!(key_symbol("Page_Up").unwrap(), "Page_Up");
    for bad in ["", "F13", "enter", "ab"] {
        assert_eq!(key_symbol(bad).unwrap_err().message, "未知按键名称");
    }
    assert_eq!(char_symbol('ÿ'), "0xff");
    assert_eq!(char_symbol('Ā'), "U0100");
    assert_eq!(char_symbol('😀'), "U1F600");
}

#[test]
fn keymaps_have_one_key_for_each_symbol() {
    let map = make_keymap(&vec!["0x61".into(), "Return".into()]);
    let expected = "xkb_keymap { xkb_keycodes \"mcp\" { minimum=8; maximum=255; <K000> = 38;\n<K001> = 39;\n <LFSH>=250; <LCTL>=251; <LALT>=252; <LWIN>=253; }; xkb_types \"mcp\" { include \"complete\" }; xkb_compatibility \"mcp\" { include \"complete\" }; xkb_symbols \"mcp\" { key <K000> { [ 0x61 ] };\nkey <K001> { [ Return ] };\n key <LFSH> { [ Shift_L ] }; key <LCTL> { [ Control_L ] }; key <LALT> { [ Alt_L ] }; key <LWIN> { [ Super_L ] }; modifier_map Shift { <LFSH> }; modifier_map Control { <LCTL> }; modifier_map Mod1 { <LALT> }; modifier_map Mod4 { <LWIN> }; }; };\0";
    assert_eq!(map, expected);
}

fn pressed(steps: &[InputStep]) -> Vec<u32> {
    steps
        .iter()
        .filter_map(|s| match s {
            InputStep::KeyDown(k) => Some(*k),
            _ => None,
        })
        .collect()
}

#[test]
fn clicks_and_drags_let_the_button_go() {
    let click = plan(&Action::Click { at: point(1.0, 2.0), button: Button::Right }).unwrap();
    assert_eq!(click.len(), 8);
    assert!(matches!(click[0], InputStep::Move(_)));
    assert!(matches!(click[3], InputStep::Press(0x111)));
    assert!(matches!(click[5], InputStep::Sleep(20)));
    assert!(matches!(click[7], InputStep::Release(0x111)));
    let drag = plan(&Action::Drag { from: point(0.0, 0.0), to: point(9.0, 9.0) }).unwrap();
    let moves = drag.iter().filter(|s| matches!(s, InputStep::MoveBetween { .. })).count();
    assert_eq!(moves, 30);
    assert!(matches!(drag.last(), Some(InputStep::Release(0x110))));
    for steps in [click, drag] {
        let mut guard = InputGuard::new();
        for step in &steps {
            guard.note(step);
        }
        assert!(guard.buttons.is_empty() && guard.keys.is_empty());
    }
}

#[test]
fn scrolling_sends_what_is_not_zero() {
    let scroll = |dx, dy| {
        plan(&Action::Scroll { at: point(0.0, 0.0), dx: number(dx), dy: number(dy) }).unwrap()
    };
    assert_eq!(scroll(0.0, -0.0).len(), 5);
    assert!(matches!(scroll(0.0, 15.0)[4], InputStep::Vertical(_)));
    assert!(matches!(scroll(3.0, 0.0)[4], InputStep::Horizontal(_)));
    assert_eq!(scroll(1.0, 1.0).len(), 7);
}

#[test]
fn text_is_typed_in_chunks() {
    let steps = plan(&Action::Text { text: "a\n\t猫".into() }).unwrap();
    assert_eq!(pressed(&steps), [30, 31, 32, 33]);
    match &steps[1] {
        InputStep::Keymap(map) => {
            assert!(map.contains("key <K001> { [ Return ] };"));
            assert!(map.contains("key <K002> { [ Tab ] };"));
            assert!(map.contains("key <K003> { [ U732B ] };"));
        }
        _ => panic!("a keymap comes before the keys"),
    }
    let long = plan(&Action::Text { text: "x".repeat(201) }).unwrap();
    let maps = long.iter().filter(|s| matches!(s, InputStep::Keymap(_))).count();
    assert_eq!(maps, 2);
    assert_eq!(pressed(&long).len(), 201);
    assert_eq!(pressed(&long)[199], 229);
    assert_eq!(pressed(&long)[200], 30);
    assert!(plan(&Action::Text { text: "".into() }).unwrap().is_empty());
}

#[test]
fn interrupted_keys_are_released() {
    let steps = plan(&Action::Key {
        key: "c".into(),
        modifiers: vec![Modifier::Ctrl, Modifier::Shift, Modifier::Ctrl],
    })
    .unwrap();
    assert!(steps.iter().any(|s| matches!(s, InputStep::Modifiers(5))));
    assert!(matches!(steps.last(), Some(InputStep::Modifiers(0))));
    let mut guard = InputGuard::new();
    for step in &steps {
        guard.note(step);
        if matches!(step, InputStep::KeyDown(_)) {
            break;
        }
    }
    assert_eq!(guard.keys, [30]);
    let release = guard.release_all();
    assert!(release.iter().any(|s| matches!(s, InputStep::KeyUp(30))));
    assert!(release.iter().any(|s| matches!(s, InputStep::Modifiers(0))));
    assert!(plan(&Action::Key { key: "evil key".into(), modifiers: vec![] }).is_err());
    assert_eq!(
        plan(&Action::FocusWindow { window: "w".into() }).unwrap_err().message,
        "此操作不是虚拟输入动作"
    );
}

#[test]
fn only_private_local_display_names_are_accepted() {
    assert_eq!(socket_path(":12").unwrap(), "/tmp/.X11-unix/X12");
    for bad in ["", ":", "localhost:0", "host:1", ":1/../../tmp", ":1.0", ":-1"] {
        assert!(socket_path(bad).is_err());
    }
}

#[test]
fn display_numbers_have_six_digits_at_most() {
    assert_eq!(socket_path(":123456").unwrap(), "/tmp/.X11-unix/X123456");
    assert!(socket_path(":1234567").is_err());
    assert!(socket_path(":１").is_err());
    assert!(matches!(discover_step(true, Some(":3"), false), Ok(Discovery::Connect(p)) if p == "/tmp/.X11-unix/X3"));
    assert!(matches!(discover_step(true, Some(""), false), Ok(Discovery::Wait)));
    assert_eq!(discover_step(true, None, true).unwrap_err().code, ErrorCode::BackendUnavailable);
    assert_eq!(discover_step(false, Some(":3"), false).unwrap_err().code, ErrorCode::StaleTarget);
    assert_eq!(
        discover_step(true, Some("host:0"), false).unwrap_err().code,
        ErrorCode::PermissionDenied
    );
}

fn reply(id: u32, clients: Vec<ClientId>) -> WindowReply {
    WindowReply {
        id,
        viewable: true,
        input_output: true,
        override_redirect: false,
        clients,
        process: Ok(process(9, 1, "/bin/app")),
        geometry: (0, 0, 10, 10),
    }
}

fn local(values: &[u32]) -> ClientId {
    ClientId { local_pid: true, values: values.to_vec() }
}

#[test]
fn windows_need_an_owner_that_the_server_knows() {
    let file = SocketFile { device: 1, inode: 2 };
    let e = Endpoint::bind(":1".into(), file, file, Peer { uid: 5, pid: 7 }, 5).unwrap();
    let listed = e.windows((1, 2), &vec![reply(3, vec![local(&[9])])], &vec![]).unwrap();
    assert_eq!((listed.len(), listed[0].id, listed[0].process.pid), (1, 3, 9));
    let message = |r: Vec<WindowReply>| e.windows((1, 2), &r, &vec![]).unwrap_err().message;
    assert_eq!(
        message(vec![reply(3, vec![])]),
        "X11 窗口身份不可验证，请重新观察: XRes 没有返回本地客户端 PID"
    );
    assert!(!message(vec![reply(3, vec![local(&[1])])]).is_empty());
    assert!(!message(vec![reply(3, vec![local(&[]), local(&[9])])]).is_empty());
    let mut gone = reply(3, vec![local(&[9])]);
    gone.process = Err(Fault::stale("进程已经退出"));
    assert_eq!(
        message(vec![gone]),
        "X11 窗口身份不可验证，请重新观察: StaleTarget: 进程已经退出"
    );
    assert!(e.windows((1, 1), &vec![], &vec![]).is_err());
    let mut hidden = reply(3, vec![]);
    hidden.viewable = false;
    assert!(e.windows((2, 0), &vec![hidden], &vec![]).unwrap().is_empty());
    let mut managed = reply(3, vec![local(&[9])]);
    managed.viewable = false;
    assert_eq!(e.windows((1, 2), &vec![managed], &vec![3]).unwrap().len(), 1);
    assert_eq!(wanted_windows(&vec![5, 1, 5], &vec![3, 1]), [1, 3, 5]);
}

#[test]
fn a_replaced_server_loses_its_authority() {
    let file = SocketFile { device: 1, inode: 2 };
    let other = SocketFile { device: 1, inode: 3 };
    let peer = Peer { uid: 5, pid: 7 };
    let bind = |connected, uid| Endpoint::bind(":1".into(), file, connected, peer, uid);
    assert_eq!(bind(other, 5).unwrap_err().code, ErrorCode::StaleTarget);
    assert_eq!(bind(file, 6).unwrap_err().code, ErrorCode::PermissionDenied);
    let e = bind(file, 5).unwrap();
    assert!(e.check_file(Some(file)).is_ok());
    assert_eq!(e.check_file(None).unwrap_err().message, "独立 X11 服务已退出");
    assert_eq!(e.check_file(Some(other)).unwrap_err().message, "独立 X11 服务已更换，旧授权失效");
    assert!(e.check_peer(Some(file), peer, 5).is_ok());
    assert!(e.check_peer(Some(file), Peer { uid: 5, pid: 8 }, 5).is_err());
    assert!(e.check_peer(Some(file), Peer { uid: 6, pid: 7 }, 5).is_err());
    assert!(e.check_peer(None, peer, 5).is_err());
}

const STAT: &str = "42 (a) b) S 17 42 42 0 -1 4194304 1 2 3 4 5 6 7 8 20 0 1 0 987654 10 20";

#[test]
fn identities_notice_a_changed_start_time() {
    let program = || Some(b"/bin/app".to_vec());
    let mut identity = ProcessIdentity::identify(42, Some(STAT), program()).unwrap();
    assert_eq!(identity.start_time, 987654);
    let current = ProcessIdentity::identify(42, Some(STAT), program());
    assert!(identity.alive(&current));
    identity.start_time += 1;
    assert!(!identity.alive(&current));
    assert!(!identity.alive(&Err(Fault::stale("进程已经退出"))));
    let message =
        |s, p| ProcessIdentity::identify(42, s, p).unwrap_err().message;
    assert_eq!(message(None, program()), "进程已经退出");
    assert_eq!(message(Some("42 a S"), program()), "进程状态无效");
    assert_eq!(message(Some("42 (a) S 1 2"), program()), "进程生命周期无效");
    assert_eq!(message(Some(STAT), None), "无法验证进程身份");
}

#[test]
fn descent_is_followed_upwards() {
    let mut ascent = Ascent::new(42, 17);
    assert!(matches!(ascent.step(), AscentStep::Read(42)));
    assert!(ascent.climb(Some(STAT)));
    assert!(matches!(ascent.step(), AscentStep::Answer(true)));
    let mut lost = Ascent::new(42, 99);
    assert!(!lost.climb(None));
    assert!(!Ascent::new(42, 99).climb(Some("42 (a) S 1 2")));
    assert!(!Ascent::new(42, 99).climb(Some("42 (a) S 42 2")));
    assert!(!Ascent::new(42, 99).climb(Some("42 (a) S x 2")));
    let mut long = Ascent::new(42, 99);
    for pid in 43..107 {
        assert!(long.climb(Some(&format!("1 (a) S {pid} 2"))));
    }
    assert!(matches!(long.step(), AscentStep::Answer(false)));
}

fn cast() -> Cast {
    Cast {
        stream_id: 1,
        session_id: 2,
        kind: CastKind::PipeWire,
        target: CastTarget::Window { id: 3 },
        is_dynamic_target: false,
        pw_node_id: Some(4),
    }
}

#[test]
fn target_switch_and_restore_never_revalidates_authority() {
    let expected = cast();
    let mut binding = Binding { expected: expected.clone(), valid: true, initialized: false };
    binding.update(&CastEvent::CastsChanged { casts: vec![expected.clone()] });
    assert!(binding.valid && binding.initialized);
    let mut other = expected.clone();
    other.target = CastTarget::Window { id: 99 };
    binding.update(&CastEvent::CastStartedOrChanged { cast: other });
    binding.update(&CastEvent::CastStartedOrChanged { cast: expected });
    assert!(!binding.valid);
}

#[test]
fn missing_stream_in_snapshot_invalidates_binding() {
    let mut binding = Binding { expected: cast(), valid: true, initialized: false };
    binding.update(&CastEvent::CastsChanged { casts: vec![] });
    assert!(!binding.valid);
}

fn snapshot_line(target: &str) -> String {
    format!(
        "{{\"CastsChanged\":{{\"casts\":[{{\"stream_id\":1,\"session_id\":2,\"kind\":\"PipeWire\",\"target\":{target},\"is_dynamic_target\":false,\"is_active\":true,\"pid\":null,\"pw_node_id\":4}}]}}}}\n"
    )
}

#[test]
fn reports_are_read_line_by_line() {
    let mut watch = CastWatch::new(cast());
    assert!(watch.awaiting(false).unwrap());
    assert_eq!(watch.awaiting(true).unwrap_err().message, "niri 未发送采集流初始状态");
    let line = snapshot_line("{\"Window\":{\"id\":3}}");
    let (first, second) = line.split_at(20);
    assert!(watch.received(ReadOutcome::Data(first.as_bytes().to_vec()), false));
    watch.take_lines().unwrap();
    assert_eq!(watch.pending, first.as_bytes());
    assert!(watch.received(ReadOutcome::Data(second.as_bytes().to_vec()), false));
    watch.take_lines().unwrap();
    assert!(watch.pending.is_empty());
    assert!(!watch.awaiting(true).unwrap());
    assert!(!watch.received(ReadOutcome::Empty, false));
    assert!(watch.verdict().is_ok());
    let stopped = b"{\"CastStopped\":{\"stream_id\":9}}\n".to_vec();
    assert!(watch.received(ReadOutcome::Data(stopped), false));
    watch.take_lines().unwrap();
    assert!(watch.verdict().is_ok());
    let moved = snapshot_line("{\"Output\":{\"name\":\"eDP-1\"}}").into_bytes();
    assert!(watch.received(ReadOutcome::Data(moved), false));
    watch.take_lines().unwrap();
    assert_eq!(watch.verdict().unwrap_err().code, ErrorCode::StaleTarget);
}

#[test]
fn what_is_no_report_ends_the_watch() {
    let mut watch = CastWatch::new(cast());
    let mut data = snapshot_line("{\"Window\":{\"id\":3}}").into_bytes();
    data.extend(b"nonsense\n");
    assert!(watch.received(ReadOutcome::Data(data), false));
    assert_eq!(watch.take_lines().unwrap_err().message, "采集流监视协议错误");
    assert_eq!(watch.pending, b"nonsense\n");
    assert!(watch.verdict().is_err());
    for outcome in [ReadOutcome::Closed, ReadOutcome::Failed] {
        let mut watch = CastWatch::new(cast());
        assert!(!watch.received(outcome, false));
        assert!(watch.verdict().is_err());
    }
    let mut late = CastWatch::new(cast());
    assert!(!late.received(ReadOutcome::Data(vec![]), true));
    assert!(late.verdict().is_err());
    let mut direct = CastWatch::new(cast());
    direct.pending = b"x\ny".to_vec();
    direct.accept(Some(CastEvent::CastStopped { stream_id: 1 })).unwrap();
    assert_eq!(direct.pending, b"y");
    assert!(direct.accept(None).is_err());
}

#[test]
fn the_compositor_answers_the_request_for_reports() {
    assert!(check_reply(&b"{\"Ok\":\"Handled\"}\n".to_vec()).is_ok());
    assert_eq!(check_reply(&b"{\"Err\":\"no\"}\n".to_vec()).unwrap_err().message, "no");
    assert!(check_reply(&b"".to_vec()).is_err());
    assert!(check_answer(Ok(None)).is_ok());
    assert_eq!(check_answer(Ok(Some("a".into()))).unwrap_err().message, "a");
    assert_eq!(check_answer(Err("b".into())).unwrap_err().message, "b");
}

fn words(list: &[&str]) -> Vec<Option<String>> {
    list.iter().map(|s| Some(s.to_string())).collect()
}

#[test]
fn desktop_arguments_are_expanded_without_shell_interpretation() {
    let file = "/tmp/an app.desktop";
    assert_eq!(
        expand_exec(
            &words(&[
                "/bin/app", "--name", "%c", "%i", "%k", "%U", "literal; $(touch nope)", "%%"
            ]),
            "中文 App",
            file,
            Some("icon name")
        )
        .unwrap(),
        [
            "/bin/app",
            "--name",
            "中文 App",
            "--icon",
            "icon name",
            "/tmp/an app.desktop",
            "literal; $(touch nope)",
            "%"
        ]
    );
    assert!(expand_exec(&words(&["app", "%Z"]), "x", file, None).is_err());
    assert!(expand_exec(&words(&["app", "--files=%F"]), "x", file, None).is_err());
}

#[test]
fn launch_definitions_need_a_program() {
    let expand = |w: &[&str]| expand_exec(&words(w), "n", "f", Some(""));
    assert_eq!(expand(&["app", "%i", "a%db%nc"]).unwrap(), ["app", "abc"]);
    assert_eq!(expand(&["app", "--at=%k:%c"]).unwrap(), ["app", "--at=f:n"]);
    for bad in [&[][..], &["%f"], &["A=b", "app"], &[""]] {
        assert_eq!(expand(bad).unwrap_err().message, "桌面条目没有有效启动程序");
    }
    assert!(expand(&["app", "50%"]).is_err());
    let broken = vec![Some("app".into()), None];
    assert_eq!(
        expand_exec(&broken, "n", "f", None).unwrap_err().message,
        "启动参数不是 UTF-8"
    );
}

fn listing(display_name: &str, program: &str) -> Listing {
    Listing {
        hidden: false,
        no_display: false,
        display_name: display_name.into(),
        name: None,
        program: Some(program.into()),
    }
}

#[test]
fn names_must_match_one_application() {
    let mut list = vec![listing("Kitty", "kitty"), listing("Firefox", "firefox")];
    assert_eq!(unique_match(&list, "KITTY").unwrap(), 0);
    assert_eq!(unique_match(&list, "firefox").unwrap(), 1);
    assert!(unique_match(&list, "fire").is_err());
    list.push(listing("firefox", "other"));
    assert_eq!(unique_match(&list, "Firefox").unwrap_err().code, ErrorCode::InvalidRequest);
    list[2].hidden = true;
    assert_eq!(unique_match(&list, "Firefox").unwrap(), 1);
    list[2].hidden = false;
    list[2].no_display = true;
    assert_eq!(unique_match(&list, "Firefox").unwrap(), 1);
    assert!(eq_ignore_ascii_case("Ab猫", "aB猫"));
    assert!(!eq_ignore_ascii_case("É", "é"));
}

#[test]
fn entries_must_be_launchable() {
    let entry = |hidden, terminal, has_file, has_exec| {
        check_entry(&Entry { hidden, terminal, has_file, has_exec })
    };
    assert!(entry(false, false, true, true).is_ok());
    assert_eq!(
        entry(true, false, true, true).unwrap_err().message,
        "该条目已隐藏或需要外部终端；请申请独立的图形应用"
    );
    assert!(entry(false, true, true, true).is_err());
    assert_eq!(entry(false, false, false, true).unwrap_err().message, "应用缺少桌面条目文件");
    assert_eq!(
        entry(false, false, true, false).unwrap_err().message,
        "应用没有可独立启动的 Exec；不使用宿主 D-Bus 激活"
    );
    let build = |program: Option<&str>, directory: Option<(&str, bool)>| {
        DesktopApplication::from_parts(
            None,
            "App".into(),
            vec!["app".into(), "-x".into()],
            program.map(|p| p.as_bytes().to_vec()),
            directory.map(|(p, exists)| WorkingDirectory {
                path: p.as_bytes().to_vec(),
                exists,
            }),
            b"/a.desktop".to_vec(),
            "/a.desktop",
        )
    };
    let app = build(Some("/bin/app"), Some(("/srv", true))).unwrap();
    assert_eq!(app.id, "/a.desktop");
    assert_eq!(app.args, ["-x"]);
    assert_eq!(app.directory.unwrap(), b"/srv");
    assert!(build(Some("/bin/app"), Some(("", false))).unwrap().directory.is_none());
    assert!(build(None, None).is_err());
    assert!(build(Some("/bin/app"), Some(("srv", true))).is_err());
    assert!(build(Some("/bin/app"), Some(("/srv", false))).is_err());
}

fn viewport(width: u32, height: u32, scale: f64) -> Result<Viewport, Fault> {
    let rounded = (scale * 1000.0).round() / 1000.0;
    Viewport::new(width, height, number(scale), number(rounded))
}

#[test]
fn viewport_preserves_physical_pixels_and_fractional_scale() {
    assert_eq!(viewport(2400, 1350, 1.25).unwrap().scale, number(1.25));
    assert!(viewport(0, 800, 1.0).is_err());
    assert!(viewport(8192, 8192, 1.0).is_err());
    assert!(viewport(1280, 800, f64::NAN).is_err());
}

#[test]
fn viewports_are_bounded() {
    assert!(viewport(64, 64, 0.5).is_ok());
    assert!(viewport(4096, 4096, 4.0).is_ok());
    assert!(viewport(63, 64, 1.0).is_err());
    assert!(viewport(8193, 64, 1.0).is_err());
    assert!(viewport(4097, 4096, 1.0).is_err());
    assert!(viewport(640, 480, 0.49).is_err());
    assert!(viewport(640, 480, 4.01).is_err());
    assert!(viewport(640, 480, f64::INFINITY).is_err());
}

fn events(
    state: &mut Stream<u8>,
    running: Option<Cancellation>,
) -> (Vec<&'static str>, Option<Cancellation>) {
    let mut seen = vec![];
    let mut running = running;
    if let Some(cancel) = running.clone() {
        if cancel.check().is_ok() {
            return (seen, running);
        }
        seen.push("cancelled");
        let next = state.finished(cancel.captured, Err(Fault::new(ErrorCode::Paused, "x")));
        running = None;
        if matches!(next, NextFrame::Stop) {
            seen.push("dropped");
            return (seen, running);
        }
    }
    if let Work::Capture { cancel, .. } = state.next(true) {
        seen.push("capture");
        running = Some(cancel);
    }
    (seen, running)
}

#[test]
fn hidden_resize_and_stop_cancel_inflight_capture() {
    let mut state: Stream<u8> = Stream::start();
    state.configure(viewport(1920, 1080, 1.0).unwrap());
    let (seen, running) = events(&mut state, None);
    assert!(seen.is_empty());
    state.visible(true);
    let (seen, running) = events(&mut state, running);
    assert_eq!(seen, ["capture"]);
    state.configure(viewport(2400, 1350, 1.25).unwrap());
    let (seen, running) = events(&mut state, running);
    assert_eq!(seen, ["cancelled", "capture"]);
    state.visible(false);
    let (seen, running) = events(&mut state, running);
    assert_eq!(seen, ["cancelled"]);
    state.visible(true);
    let (seen, running) = events(&mut state, running);
    assert_eq!(seen, ["capture"]);
    state.stop();
    let (seen, _) = events(&mut state, running);
    assert_eq!(seen, ["cancelled", "dropped"]);
    assert!(state.take().is_none());
}

#[test]
fn views_hold_the_latest_frame() {
    let mut state: Stream<u8> = Stream::start();
    let size = viewport(2400, 1350, 1.25).unwrap();
    assert!(state.configure(size));
    assert!(!state.configure(size));
    assert!(state.visible(true));
    assert!(!state.visible(true));
    assert!(matches!(state.next(false), Work::WaitForNext));
    state.fallback_to_memory();
    let generation = match state.next(true) {
        Work::Capture { viewport, disable_dma, cancel } => {
            assert_eq!(viewport, size);
            assert!(disable_dma);
            assert!(cancel.check().is_ok());
            cancel.captured
        }
        _ => panic!("a visible view is captured"),
    };
    assert_eq!(state.finished(generation, Ok(6)), NextFrame::Interval);
    assert_eq!(state.finished(generation, Ok(7)), NextFrame::Interval);
    assert_eq!(state.take().unwrap().unwrap(), 7);
    assert!(state.take().is_none());
    let busy = Err(Fault::new(ErrorCode::Busy, "x"));
    assert_eq!(state.finished(generation, busy), NextFrame::After(4));
    assert!(state.take().is_none());
    assert_eq!(state.finished(generation, Err(Fault::stale("x"))), NextFrame::After(100));
    assert!(state.take().unwrap().is_err());
    assert_eq!(state.finished(generation + 1, Ok(8)), NextFrame::Now);
    assert!(state.take().is_none());
}

fn shown(id: u64, pid: i32, title: &str) -> DesktopWindow {
    DesktopWindow { id, pid: Some(pid), title: Some(title.into()), app_id: None }
}

#[test]
fn windows_are_found_by_process_and_title() {
    let list = vec![shown(1, 7, "a"), shown(2, 7, "b"), shown(3, 8, "a")];
    assert_eq!(unique_window(&list, 7, "a"), Some(1));
    assert_eq!(unique_window(&list, 9, "a"), None);
    let twice = vec![shown(1, 7, "a"), shown(2, 7, "a")];
    assert_eq!(unique_window(&twice, 7, "a"), None);
    let owner = process(7, 1, "/bin/app");
    let found =
        candidate(":1", ":1", "/root".into(), &owner, "App", "a", "GTK", "4", &list).unwrap();
    assert_eq!((found.label.as_str(), found.window_id), ("App — a", 1));
    assert!(candidate(":1", ":2", "/root".into(), &owner, "App", "a", "GTK", "4", &list)
        .is_none());
    assert!(considered(":1.2", 7, 8));
    assert!(!considered("org.a", 7, 8));
    assert!(!considered(":1.2", 8, 8));
    assert!(check_owner(true, 7, &found).is_ok());
    assert_eq!(check_owner(true, 8, &found).unwrap_err().message, "应用身份已改变");
    assert!(check_owner(false, 7, &found).is_err());
    assert!(window_alive(true, Some(7), true, 7));
    assert!(!window_alive(true, None, true, 7));
    assert_eq!(call_fault("x").code, ErrorCode::BackendUnavailable);
}

fn control(role_number: u32, children: &[(&str, &str)], text: Option<&str>) -> Control {
    Control {
        name: "name".into(),
        role: "role".into(),
        role_number,
        children: children.iter().map(|(b, p)| (b.to_string(), p.to_string())).collect(),
        text: text.map(String::from),
    }
}

fn finish(walk: &mut Walk, read: impl Fn(&str) -> Result<Control, Fault>) -> Node {
    let mut n = 0;
    loop {
        match walk.step(false) {
            WalkStep::Read(path) => {
                n += 1;
                assert!(walk.supply(format!("id{n}"), read(&path)).is_none());
            }
            WalkStep::Continue => {}
            WalkStep::Done(node) => return node,
        }
    }
}

#[test]
fn controls_are_walked_once_and_within_the_application() {
    let mut walk = Walk::new(":1".into(), "/r".into(), false).unwrap();
    let root = control(
        1,
        &[(":1", "/a"), (":2", "/x"), (":1", "/a"), (":1", "/r"), (":1", "/bad")],
        Some("hello"),
    );
    assert!(walk.supply("root".into(), Ok(root)).is_none());
    let tree = finish(&mut walk, |path| match path {
        "/a" => Ok(control(40, &[(":1", "/secret")], Some("never"))),
        _ => Err(Fault::unavailable("gone")),
    });
    assert_eq!(tree.id, "root");
    assert_eq!(tree.text.as_deref(), Some("hello"));
    assert_eq!(tree.children.len(), 1);
    let password = &tree.children[0];
    assert_eq!(password.name, "密码输入框");
    assert!(password.children.is_empty());
    assert!(tree.actions.is_empty());
    assert!(Walk::new(":1".into(), "/r".into(), true).is_err());
    let mut failed = Walk::new(":1".into(), "/r".into(), false).unwrap();
    assert!(failed.supply("root".into(), Err(Fault::unavailable("gone"))).is_some());
}

#[test]
fn trees_end_at_their_limits() {
    let mut walk = Walk::new(":1".into(), "/0".into(), false).unwrap();
    walk.supply("root".into(), Ok(control(1, &[(":1", "/1")], None)));
    let mut node = finish(&mut walk, |path| {
        let n: u32 = path[1..].parse().unwrap();
        Ok(control(1, &[(":1", &format!("/{}", n + 1))], None))
    });
    let mut depth = 0;
    while let Some(child) = node.children.pop() {
        depth += 1;
        node = child;
    }
    assert_eq!(depth, 12);
    let children: Vec<(String, String)> =
        (0..400).map(|n| (":1".to_string(), format!("/c{n}"))).collect();
    let mut wide = Walk::new(":1".into(), "/r".into(), false).unwrap();
    let mut root = control(1, &[], None);
    root.children = children;
    wide.supply("root".into(), Ok(root));
    let tree = finish(&mut wide, |_| Ok(control(1, &[], None)));
    assert_eq!(tree.children.len(), 255);
}

#[test]
fn passwords_are_not_read() {
    let text = vec!["org.a11y.atspi.Text".to_string()];
    assert!(wants_text(1, &text));
    assert!(!wants_text(40, &text));
    assert!(!wants_text(1, &vec![]));
    assert_eq!(text_length(-1), 0);
    assert_eq!(text_length(9), 9);
    assert_eq!(text_length(5000), 4096);
    assert!(focused(&vec![1 << 1]).unwrap());
    assert!(focused(&vec![1 << 12]).unwrap());
    assert!(!focused(&vec![1 << 2]).unwrap());
    assert_eq!(focused(&vec![]).unwrap_err().message, "缺少窗口焦点状态");
    assert!(mutation_capabilities().is_empty());
    assert_eq!(refuse_action(true).code, ErrorCode::Paused);
    assert_eq!(refuse_action(false).code, ErrorCode::Unsupported);
}

#[test]
fn existing_windows_are_observed_within_bounds() {
    assert_eq!(existing::capabilities(true), ["accessibility_tree", "screenshot"]);
    assert_eq!(existing::capabilities(false), ["accessibility_tree"]);
    assert!(window_shown(&vec![shown(1, 7, "a")], 1, 7));
    assert!(!window_shown(&vec![shown(1, 7, "a")], 1, 8));
    let mut window = Existing::bind("App".into(), 7, 1);
    assert_eq!(window.target.id.len(), 36);
    assert!(window.check_target(None).is_ok());
    let id = window.target.id.clone();
    assert!(window.check_target(Some(&id)).is_ok());
    assert_eq!(window.check_target(Some("x")).unwrap_err().code, ErrorCode::PermissionDenied);
    assert_eq!(window.targets(true).unwrap().len(), 1);
    assert!(window.targets(false).is_err());
    let picture = || Some(("png".to_string(), 3, 4));
    let seen = window.observed("o".into(), vec![], picture(), true, Ok(())).unwrap();
    assert_eq!((seen.target.width, seen.target.height), (3, 4));
    assert_eq!(seen.png_base64.as_deref(), Some("png"));
    assert!(window.observed("o".into(), vec![], None, false, Ok(())).is_err());
    let cancelled = window.observed("o".into(), vec![], None, true, Err(Fault::stale("x")));
    assert_eq!(cancelled.unwrap_err().message, "x");
    assert!(window.check_action(&id, true).is_ok());
    assert!(window.check_action("x", true).is_err());
    assert!(window.check_action(&id, false).is_err());
}

fn output(global: u32, name: &str) -> Output {
    Output {
        global,
        name: name.into(),
        width: 10,
        height: 20,
        scale: 2,
        transform: Transform::Quarter,
    }
}

fn geometry(windows: &[u64]) -> Geometry {
    let outputs = read_json(
        &b"{\"Outputs\":{\"a\":{\"logical\":{\"scale\":1.25}},\"b\":{\"logical\":null}}}".to_vec(),
    )
    .unwrap();
    let places = windows
        .iter()
        .map(|id| WindowPlace {
            id: *id,
            pid: Some(1),
            layout: read_json(&b"[1,2]".to_vec()).unwrap(),
            focused: false,
        })
        .collect();
    Geometry::new(outputs, places)
}

#[test]
fn reconnected_displays_lose_their_references() {
    let mut d = Desktop::new();
    d.refresh_with(&vec![output(1, "b"), output(2, "a")], &vec!["x".into(), "y".into()]);
    assert_eq!(d.pick_output(None).unwrap(), "a");
    assert_eq!(d.pick_output(Some("x")).unwrap(), "b");
    assert_eq!(d.pick_output(Some("z")).unwrap_err().code, ErrorCode::PermissionDenied);
    d.refresh_with(&vec![output(1, "b"), output(3, "a")], &vec!["p".into(), "q".into()]);
    assert_eq!(d.find_output("x").unwrap(), "b");
    assert_eq!(d.find_output("y").unwrap_err().message, "显示器引用失效");
    assert_eq!(d.find_output("q").unwrap(), "a");
    d.refresh_outputs(&vec![]);
    assert_eq!(d.pick_output(None).unwrap_err().message, "没有显示器");
    d.refresh_outputs(&vec![output(1, "b")]);
    assert!(d.find_output("x").is_err());
    let target = d.output_target(&output(1, "b"), number(1.25));
    assert_eq!((target.width, target.height, target.label.as_str()), (20, 10, "b"));
    assert_eq!(target.id.len(), 36);
    assert_eq!(d.find_output(&target.id).unwrap(), "b");
}

#[test]
fn windows_keep_their_references_while_they_are_there() {
    let mut d = Desktop::new();
    let first = d.list_windows(&vec![shown(1, 7, "a"), shown(2, 7, "b")]);
    assert_eq!(first[0].label, " — a");
    assert_ne!(first[0].id, first[1].id);
    assert_eq!(d.window(&first[1].id).unwrap(), 2);
    let second = d.list_windows(&vec![shown(2, 7, "c"), shown(3, 7, "d")]);
    assert_eq!(second[0].id, first[1].id);
    assert_eq!(second[0].label, " — c");
    assert!(d.still_there(&first[1].id, 2).is_ok());
    assert_eq!(d.still_there(&first[0].id, 1).unwrap_err().message, "窗口已经退出");
    assert_eq!(d.window(&first[0].id).unwrap_err().message, "窗口引用已失效");
}

#[test]
fn nested_numbers_are_read_once() {
    let text = "{\"a\":[0.9083333333333333,-7,18446744073709551615,\"b\"]}";
    let tree: serde_json::Value = serde_json::from_str(text).unwrap();
    let value = read_json(&text.as_bytes().to_vec()).unwrap();
    let list = match value.copy_field("a") {
        Json::List(v) => v,
        _ => panic!("not a list"),
    };
    assert_eq!(list.len(), 4);
    for i in 0..3 {
        let n = tree["a"][i].as_number().unwrap();
        match &list[i] {
            Json::Number { text, whole, double } => {
                assert_eq!(text, &n.to_string());
                assert_eq!(*whole, n.as_u64());
                assert_eq!(*double, n.as_f64().map(number));
            }
            _ => panic!("not a number"),
        }
    }
    assert!(matches!(&list[3], Json::Text(s) if s == "b"));
    assert!(read_json(&b"{".to_vec()).is_err());
}

#[test]
fn a_floating_zero_has_no_sign() {
    let value = |text: &str| read_json(&text.as_bytes().to_vec()).unwrap();
    assert!(value("[0.0,{\"x\":-0.0}]").means(&value("[-0.0,{\"x\":0.0}]")));
    assert!(!value("[0.0,{\"x\":-0.0}]").equals(&value("[-0.0,{\"x\":0.0}]")));
    assert!(value("[1,null,true,\"a\"]").means(&value("[1,null,true,\"a\"]")));
    assert!(!value("0").means(&value("0.0")));
    assert!(!value("1.5").means(&value("-1.5")));
    assert!(!value("[1]").means(&value("[1,1]")));
    assert!(!value("{\"a\":1}").means(&value("{\"b\":1}")));
    assert!(!value("null").means(&value("false")));
    let placed = |x: &str| {
        let place = WindowPlace { id: 1, pid: None, layout: value(x), focused: true };
        Geometry::new(value("{}"), vec![place])
    };
    assert!(check_still(&placed("[0.0]"), &placed("[-0.0]"), 1, 1).is_ok());
    assert!(check_still(&placed("[0.0]"), &placed("[0.5]"), 1, 1).is_err());
}

#[test]
fn windows_are_put_in_the_order_of_their_numbers() {
    let place = |id: u64, pid: i32| WindowPlace {
        id,
        pid: Some(pid),
        layout: read_json(&b"null".to_vec()).unwrap(),
        focused: false,
    };
    let sorted = Geometry::new(
        read_json(&b"{}".to_vec()).unwrap(),
        vec![place(3, 1), place(1, 2), place(3, 3), place(2, 4)],
    );
    let ids: Vec<_> = sorted.windows.iter().map(|w| (w.id, w.pid.unwrap())).collect();
    assert_eq!(ids, vec![(1, 2), (2, 4), (3, 1), (3, 3)]);
}

#[test]
fn actions_need_the_observed_layout() {
    let mut d = Desktop::new();
    d.refresh_with(&vec![output(1, "a")], &vec!["x".into()]);
    assert!(d.check_layout(&geometry(&[1, 2]), 5).is_err());
    let scale = geometry(&[]).scale(&output(1, "a"));
    assert_eq!(scale, number(1.25));
    let seen =
        d.observed("o".into(), "x".into(), "a".into(), ("png".into(), 3, 4), scale, vec![], geometry(&[2, 1]), 5);
    assert_eq!((seen.target.id.as_str(), seen.target.label.as_str()), ("x", "a"));
    assert!(d.check_layout(&geometry(&[1, 2]), 5).is_ok());
    assert!(d.check_layout(&geometry(&[1, 2]), 6).is_err());
    assert_eq!(d.check_layout(&geometry(&[1, 3]), 5).unwrap_err().code, ErrorCode::StaleTarget);
    d.acted();
    assert!(d.check_layout(&geometry(&[1, 2]), 5).is_err());
    assert!(check_still(&geometry(&[1]), &geometry(&[1]), 5, 5).is_ok());
    assert!(check_still(&geometry(&[1]), &geometry(&[2]), 5, 5).is_err());
    assert!(check_still(&geometry(&[1]), &geometry(&[1]), 5, 6).is_err());
    assert_eq!(geometry(&[]).scale(&output(1, "b")), number(2.0));
    assert_eq!(geometry(&[]).scale(&output(1, "c")), number(2.0));
    assert!(check_compositor(true).is_ok());
    assert_eq!(check_compositor(false).unwrap_err().message, "niri 会话已经退出");
    assert_eq!(desktop::capabilities(true, false).unwrap(), ["screenshot", "focus_window"]);
    assert_eq!(desktop::capabilities(true, true).unwrap().len(), 7);
    assert!(desktop::capabilities(false, true).is_err());
}

#[test]
fn cancelled_operations_notice() {
    let counter = std::sync::Arc::new(std::sync::atomic::AtomicU64::new(4));
    let cancel = Cancellation::new(counter.clone());
    assert!(cancel.check().is_ok());
    assert!(cancel.verdict(4).is_ok());
    counter.store(5, std::sync::atomic::Ordering::SeqCst);
    let stopped = cancel.check().unwrap_err();
    assert_eq!(stopped.code, ErrorCode::Paused);
    assert_eq!(stopped.message, "操作已取消，请在本地界面恢复");
}

const WINDOWS: &str = "{\"Ok\":{\"Windows\":[\
    {\"id\":9,\"title\":\"a\",\"app_id\":null,\"pid\":7,\"workspace_id\":1,\"is_focused\":true,\
    \"is_floating\":false,\"is_urgent\":false,\"focus_timestamp\":null,\"layout\":{\
    \"pos_in_scrolling_layout\":[1,2],\"tile_size\":[0.5,2.0],\"window_size\":[3,4],\
    \"tile_pos_in_workspace_view\":null,\"window_offset_in_tile\":[0.0,0.0]}},\
    {\"id\":4,\"title\":null,\"app_id\":\"x\",\"pid\":null,\"workspace_id\":null,\
    \"is_focused\":false,\"is_floating\":true,\"is_urgent\":false,\"focus_timestamp\":null,\
    \"layout\":{\"pos_in_scrolling_layout\":null,\"tile_size\":[1.0,1.0],\"window_size\":[1,1],\
    \"tile_pos_in_workspace_view\":[0.0,-0.0],\"window_offset_in_tile\":[0.0,0.0]}}]}}\n";

fn line(text: &str) -> Vec<u8> {
    text.as_bytes().to_vec()
}

#[test]
fn the_compositor_lists_its_windows() {
    let list = niri_windows(&line(WINDOWS), "none").unwrap();
    assert_eq!(list.len(), 2);
    assert_eq!((list[0].id, list[0].pid, list[0].focused), (9, Some(7), true));
    assert_eq!(list[1].app_id.as_deref(), Some("x"));
    assert_eq!(list[0].layout["tile_size"][0].as_f64(), Some(0.5));
    let shown = desktop_windows(list);
    assert_eq!((shown[0].id, shown[0].title.as_deref()), (9, Some("a")));
    assert_eq!((shown[1].id, shown[1].pid), (4, None));
    let handled = line("{\"Ok\":\"Handled\"}");
    let other = niri_windows(&handled, "none").err().unwrap();
    assert_eq!((other.code, other.message.as_str()), (ErrorCode::BackendUnavailable, "none"));
    let refused = niri_windows(&line("{\"Err\":\"no\"}"), "none").err().unwrap();
    assert_eq!(refused.message, "no");
    assert!(niri_windows(&line("{"), "none").is_err());
}

#[test]
fn the_compositor_says_where_everything_is() {
    let outputs = niri_outputs(&line("{\"Ok\":\"Handled\"}")).unwrap();
    assert!(matches!(&outputs, Json::Text(s) if s == "Handled"));
    assert_eq!(niri_outputs(&line("{\"Err\":\"no\"}")).unwrap_err().message, "no");
    let place = |text: &str| {
        let outputs = niri_outputs(&line("{\"Ok\":{\"Outputs\":{}}}")).unwrap();
        niri::topology(outputs, niri_windows(&line(text), "none").unwrap())
    };
    let now = place(WINDOWS);
    assert_eq!((now.windows[0].id, now.windows[1].id), (4, 9));
    assert!(now.windows[1].focused);
    assert!(matches!(now.windows[1].layout.copy_field("window_size"), Json::List(v) if v.len() == 2));
    assert!(check_still(&now, &place(&WINDOWS.replace("-0.0", "0.0")), 1, 1).is_ok());
    assert!(check_still(&now, &place(&WINDOWS.replace("0.5", "0.75")), 1, 1).is_err());
}

#[test]
fn the_compositor_lists_its_captures() {
    let text = "{\"Ok\":{\"Casts\":[{\"stream_id\":1,\"session_id\":2,\"kind\":\"PipeWire\",\
        \"target\":{\"Window\":{\"id\":3}},\"is_dynamic_target\":false,\"is_active\":true,\
        \"pid\":null,\"pw_node_id\":4}]}}";
    let casts = niri_casts(&line(text), Fault::stale("x")).unwrap();
    assert_eq!((casts[0].stream_id, casts[0].session_id, casts[0].pw_node_id), (1, 2, Some(4)));
    assert!(matches!(casts[0].target, CastTarget::Window { id: 3 }));
    let other = niri_casts(&line("{\"Ok\":\"Handled\"}"), Fault::stale("x")).unwrap_err();
    assert_eq!((other.code, other.message.as_str()), (ErrorCode::StaleTarget, "x"));
    assert_eq!(
        niri_casts(&line("{\"Err\":\"no\"}"), Fault::stale("x")).unwrap_err().message,
        "no"
    );
}

/// Sends a click; the step of the given number fails. What is done, and what comes of it.
fn clicked(fails: usize) -> (Vec<String>, Result<(), Fault>) {
    let action = Action::Click { at: point(1.0, 2.0), button: Button::Left };
    let mut sending = Sending::new(&action, true);
    let mut done = vec![];
    let mut event = Ok(());
    loop {
        match sending.next(event, 7) {
            SendingStep::Finished(outcome) => return (done, outcome),
            step => done.push(format!("{step:?}")),
        }
        event = if done.len() == fails { Err(Fault::stale("x")) } else { Ok(()) };
    }
}

#[test]
fn input_is_checked_sent_and_let_go() {
    let (done, outcome) = clicked(0);
    assert!(outcome.is_ok());
    assert_eq!(&done[..4], ["Check", "Validate", "SetUp", "Validate"]);
    assert_eq!(done[5], "Send(Sync)");
    assert_eq!(done[6], "Validate");
    assert_eq!(done[8], "Send(Press(272))");
    assert_eq!(done[13], "Send(Release(272))");
    assert_eq!(
        &done[14..],
        ["Flush", "LetGo(Modifiers(0))", "LetGo(Frame)", "Flush", "Settle"]
    );
    for early in 1..5 {
        let (done, outcome) = clicked(early);
        assert_eq!(done.len(), early);
        assert_eq!(outcome.unwrap_err().message, "x");
    }
    let (done, outcome) = clicked(10);
    assert_eq!(outcome.unwrap_err().message, "x");
    assert_eq!(
        &done[9..],
        [
            "Send(Sync)",
            "LetGo(Modifiers(0))",
            "LetGo(Release(272))",
            "LetGo(Frame)",
            "Flush",
            "Settle"
        ]
    );
    let (done, outcome) = clicked(19);
    assert_eq!((done.len(), outcome.unwrap_err().message.as_str()), (19, "x"));
}

#[test]
fn input_stops_where_displays_change() {
    let action = Action::Click { at: point(1.0, 2.0), button: Button::Left };
    let mut unsupported = Sending::new(&action, false);
    unsupported.next(Ok(()), 1);
    unsupported.next(Ok(()), 1);
    assert!(matches!(
        unsupported.next(Ok(()), 1),
        SendingStep::Finished(Err(e)) if e.code == ErrorCode::Unsupported
    ));
    let mut moved = Sending::new(&action, true);
    for _ in 0..3 {
        moved.next(Ok(()), 1);
    }
    assert!(matches!(
        moved.next(Ok(()), 2),
        SendingStep::Finished(Err(e)) if e.message == "输入设备初始化期间显示器变化"
    ));
    let mut late = Sending::new(&action, true);
    for _ in 0..6 {
        late.next(Ok(()), 1);
    }
    assert!(matches!(late.next(Ok(()), 2), SendingStep::LetGo(_)));
    let outcome = loop {
        if let SendingStep::Finished(outcome) = late.next(Ok(()), 2) {
            break outcome;
        }
    };
    assert_eq!(outcome.unwrap_err().message, "输入期间显示器变化");
    let focus = Action::FocusWindow { window: "w".into() };
    let mut other = Sending::new(&focus, true);
    for _ in 0..4 {
        other.next(Ok(()), 1);
    }
    assert!(matches!(other.next(Ok(()), 1), SendingStep::LetGo(_)));
    let outcome = loop {
        if let SendingStep::Finished(outcome) = other.next(Ok(()), 1) {
            break outcome;
        }
    };
    assert_eq!(outcome.unwrap_err().code, ErrorCode::Unsupported);
}

/// Acts on the desktop; what is done, and what comes of it.
fn directed(d: &mut Desktop, id: &str, action: &Action, now: &[u64]) -> (String, Result<(), Fault>) {
    let target = computer_use_linux::model::Target {
        id: id.into(),
        label: "a".into(),
        width: 3,
        height: 4,
        scale: number(1.25),
    };
    let mut directing = Directing::new();
    let mut done = String::new();
    loop {
        let event = DirectEvent {
            outcome: Ok(()),
            alive: true,
            geometry: Some(geometry(now)),
            revision: 5,
        };
        let (after, step) = d.act(directing, &target, action, event);
        directing = after;
        match step {
            DirectStep::Check => done.push('c'),
            DirectStep::Ask => done.push('a'),
            DirectStep::Refresh => done.push('r'),
            DirectStep::Look => done.push('l'),
            DirectStep::List => done.push('w'),
            DirectStep::Focus(id) => done.push_str(&format!("f{id}")),
            DirectStep::Send(name) => done.push_str(&format!("s{name}")),
            DirectStep::Finished(outcome) => return (done, outcome),
        }
    }
}

#[test]
fn the_desktop_is_acted_on_once_as_observed() {
    let mut d = Desktop::new();
    d.refresh_with(&vec![output(1, "a")], &vec!["x".into()]);
    let click = Action::Click { at: point(1.0, 2.0), button: Button::Left };
    let observe = |d: &mut Desktop| {
        let windows = d.list_windows(&vec![shown(1, 7, "w")]);
        let reference = windows[0].id.clone();
        let picture = ("png".into(), 3, 4);
        d.observed("o".into(), "x".into(), "a".into(), picture, number(1.25), windows, geometry(&[1]), 5);
        reference
    };
    assert!(directed(&mut d, "x", &click, &[1]).1.is_err());
    let window = observe(&mut d);
    let (done, outcome) = directed(&mut d, "x", &click, &[2]);
    assert_eq!((done.as_str(), outcome.unwrap_err().code), ("carl", ErrorCode::StaleTarget));
    assert_eq!(directed(&mut d, "y", &click, &[1]).1.unwrap_err().message, "显示器引用失效");
    let (done, outcome) = directed(&mut d, "x", &click, &[1]);
    assert_eq!((done.as_str(), outcome.is_ok()), ("carlsa", true));
    let (done, outcome) = directed(&mut d, "x", &click, &[1]);
    assert_eq!((done.as_str(), outcome.unwrap_err().code), ("carl", ErrorCode::StaleTarget));
    observe(&mut d);
    let focus = Action::FocusWindow { window };
    let (done, outcome) = directed(&mut d, "x", &focus, &[1]);
    assert_eq!((done.as_str(), outcome.is_ok()), ("carlwcf1", true));
    observe(&mut d);
    let gone = Action::FocusWindow { window: "none".into() };
    assert_eq!(directed(&mut d, "x", &gone, &[1]).1.unwrap_err().message, "窗口引用已失效");
}
