use std::sync::atomic::{AtomicU64, Ordering};
use std::sync::Arc;

use computer_use_linux::backend::accessibility::{same_number, Control, Walk, WalkStep};
use computer_use_linux::backend::applications::{
    with_ending, Chosen, DesktopApplication, Listing,
};
use computer_use_linux::backend::copying::{
    CopyEvent, CopyStep, Copying, DmaCopying, DmaEvent, DmaStep,
};
use computer_use_linux::backend::desktop::{Desktop, Geometry, WindowPlace};
use computer_use_linux::backend::framing::{Framing, FramingEvent, FramingStep};
use computer_use_linux::backend::launch::is_render_node;
use computer_use_linux::backend::observing::{
    SeeEvent, SeeStep, Seeing, Shot, ViewEvent, ViewStep, Viewing,
};
use computer_use_linux::backend::portal::{check_rows, check_size};
use computer_use_linux::backend::preview::{
    capture_next, CaptureEvent, CaptureStep, Stream, Viewport,
};
use computer_use_linux::backend::process::ProcessIdentity;
use computer_use_linux::backend::surveying::{SurveyEvent, SurveyStep, Surveying};
use computer_use_linux::backend::sway::{
    legacy_renderer, Application, Isolated, IsolatedPreview, Layout, OwnedWindow, Owner,
    SavedSession,
};
use computer_use_linux::backend::wayland::{self, BufferPool, Output, Progress, ShmFormat};
use computer_use_linux::backend::x11::{Endpoint, SocketFile, Window};
use computer_use_linux::backend::Cancellation;
use computer_use_linux::identifier::draw;
use computer_use_linux::json::read_json;
use computer_use_linux::model::{ErrorCode, Fault, Observation, Target};
use computer_use_linux::number::Binary64;
use computer_use_linux::path::same_path;
use computer_use_linux::picture::Transform;

fn number(x: f64) -> Binary64 {
    Binary64::from_bits(x.to_bits())
}

fn process(pid: u32, executable: &str) -> ProcessIdentity {
    ProcessIdentity { pid, start_time: 1, executable: executable.as_bytes().to_vec() }
}

#[test]
fn identifiers_are_drawn() {
    let id = draw();
    assert_eq!((id.len(), id.as_bytes()[14]), (36, b'4'));
    assert_ne!(id, draw());
}

#[test]
fn copies_of_a_cancellation_end_with_it() {
    let counter = Arc::new(AtomicU64::new(4));
    let cancel = Cancellation::new(counter.clone());
    let copy = cancel.clone();
    assert!(copy.check().is_ok());
    counter.store(5, Ordering::SeqCst);
    assert!(cancel.check().is_err() && copy.check().is_err());
    assert!(Cancellation::new(counter.clone()).check().is_ok());
    counter.store(6, Ordering::SeqCst);
    assert!(cancel.check().is_err() && copy.check().is_err());
}

#[test]
fn paths_are_compared_by_their_parts() {
    let same = |a: &str, b: &str| same_path(&a.as_bytes().to_vec(), &b.as_bytes().to_vec());
    assert!(same("/bin//app", "/bin/app") && same("/bin/./app/", "/bin/app"));
    assert!(!same("/bin/app", "bin/app") && !same("./a", "a") && !same("/a/../b", "/b"));
    assert!(is_render_node(&b"/dev/dri/renderD128".to_vec()));
    assert!(is_render_node(&b"/dev//dri/./renderD128".to_vec()));
    assert!(!is_render_node(&b"/dev/dri/card0".to_vec()));
    assert!(process(1, "/bin//a").same_process(&process(1, "/bin/a")));
    assert!(!process(1, "/bin/a").same_process(&process(2, "/bin/a")));
    assert!(same_number(7, 7) && same_number(-1, u32::MAX) && !same_number(7, 8));
}

fn listing(name: &str) -> Listing {
    Listing {
        hidden: false,
        no_display: false,
        display_name: name.into(),
        name: None,
        program: None,
    }
}

#[test]
fn identifiers_go_before_names() {
    let list = vec![listing("A"), listing("B"), listing("b")];
    let resolve = |request: &str, by_id: bool, ended: bool| {
        DesktopApplication::resolve(request, by_id, ended, &list)
    };
    assert_eq!(resolve("a", true, true).unwrap(), Chosen::ById);
    assert_eq!(resolve("a", false, true).unwrap(), Chosen::ByIdWithEnding);
    assert_eq!(resolve("a", false, false).unwrap(), Chosen::Listed(0));
    for request in ["b", "c"] {
        let none = resolve(request, false, false).unwrap_err();
        assert_eq!(none.code, ErrorCode::InvalidRequest);
        assert_eq!(
            none.message,
            "应用名称无法唯一对应本机桌面条目；请提供准确的 .desktop ID"
        );
    }
    assert_eq!(with_ending("猫"), "猫.desktop");
}

#[test]
fn cancelled_walks_end() {
    let counter = Arc::new(AtomicU64::new(1));
    let cancel = Cancellation::new(counter.clone());
    let mut walk = Walk::new(":1".into(), "/r".into(), false).unwrap();
    let root = Control {
        name: "n".into(),
        role: "r".into(),
        role_number: 1,
        children: vec![(":1".into(), "/a".into())],
        text: None,
    };
    assert!(walk.supply("root".into(), Ok(root)).is_none());
    counter.store(2, Ordering::SeqCst);
    match walk.walk(&cancel, false) {
        Err(e) => assert_eq!(e.code, ErrorCode::Paused),
        Ok(_) => panic!("a cancelled walk ends"),
    }
    let cancel = Cancellation::new(counter);
    match walk.walk(&cancel, false) {
        Ok(WalkStep::Read(path)) => assert_eq!(path, "/a"),
        _ => panic!("a child is read"),
    }
}

#[test]
fn frames_of_windows_have_limits() {
    assert!(check_size(16384, 1).is_ok());
    for (width, height) in [(0, 1), (1, 0), (16385, 1), (1, 16385), (-1, 1)] {
        assert_eq!(check_size(width, height).unwrap_err().message, "窗口图像尺寸无效");
    }
    assert!(check_rows(8192, 8192, 8192 * 4).is_ok());
    assert!(check_rows(8192, 8193, 8192 * 4).is_err());
    assert_eq!(check_rows(2, 2, 7).unwrap_err().message, "窗口图像步长或大小无效");
}

#[test]
fn captures_are_sized_before_they_are_taken() {
    let size = Viewport { width: 10, height: 20, scale: number(1.0) };
    let next = |disable_dma: bool, event: CaptureEvent<u8>| capture_next(size, disable_dma, event);
    assert!(matches!(next(true, CaptureEvent::Began), CaptureStep::Withdraw));
    assert!(matches!(next(false, CaptureEvent::Began), CaptureStep::Resize(s) if s == size));
    assert!(matches!(next(true, CaptureEvent::Withdrawn), CaptureStep::Resize(s) if s == size));
    assert!(matches!(next(true, CaptureEvent::Resized(Ok(()))), CaptureStep::Frame));
    let refused = next(true, CaptureEvent::Resized(Err(Fault::stale("x"))));
    assert!(matches!(refused, CaptureStep::Finished(Err(e)) if e.message == "x"));
    assert!(matches!(next(true, CaptureEvent::Framed(Ok(7))), CaptureStep::Finished(Ok(7))));
    let mut stream: Stream<u8> = Stream::start();
    assert!(stream.configure(Viewport { scale: number(0.0), ..size }));
    assert!(!stream.configure(Viewport { scale: number(-0.0), ..size }));
    assert!(stream.configure(Viewport { scale: number(f64::NAN), ..size }));
    assert!(stream.configure(Viewport { scale: number(f64::NAN), ..size }));
}

fn geometry(windows: &[u64]) -> Geometry {
    let outputs =
        read_json(&b"{\"Outputs\":{\"a\":{\"logical\":{\"scale\":1.25}}}}".to_vec()).unwrap();
    let places = windows
        .iter()
        .map(|id| WindowPlace {
            id: *id,
            pid: Some(1),
            layout: read_json(&b"[1,2]".to_vec()).unwrap(),
            focused: false,
        })
        .collect();
    Geometry::new(outputs, places)
}

fn shot() -> Shot {
    Shot { png: "png".into(), width: 3, height: 4, scale: 2 }
}

fn desktop() -> Desktop {
    let mut d = Desktop::new();
    let output = |global: u32, name: &str| Output {
        global,
        name: name.into(),
        width: 10,
        height: 20,
        scale: 2,
        transform: Transform::Normal,
    };
    d.refresh_with(&vec![output(1, "b"), output(2, "a")], &vec!["y".into(), "x".into()]);
    d
}

/// Observes a desktop whose layout and revision are these while and after the picture is taken.
fn viewed(
    d: &mut Desktop,
    target: Option<&str>,
    alive: bool,
    after: &[u64],
    revision: u64,
) -> (String, Result<Observation, Fault>) {
    let mut steps = String::new();
    let mut viewing = Viewing::Starting;
    let mut event = ViewEvent::Began;
    let mut now = 5;
    loop {
        let (next, step) = d.observe(target, viewing, now, event);
        viewing = next;
        event = match step {
            ViewStep::Ask => {
                steps.push('a');
                ViewEvent::Alive(alive)
            }
            ViewStep::Refresh => {
                steps.push('r');
                ViewEvent::Refreshed(Ok(()))
            }
            ViewStep::Look if !steps.contains('c') => {
                steps.push('l');
                ViewEvent::Looked(Ok(geometry(&[1])))
            }
            ViewStep::Look => {
                steps.push('l');
                ViewEvent::Looked(Ok(geometry(after)))
            }
            ViewStep::Capture(name) => {
                steps.push('c');
                steps.push_str(&name);
                now = revision;
                ViewEvent::Captured(Ok(shot()))
            }
            ViewStep::List => {
                steps.push('w');
                let w = Target { id: "w".into(), label: "W".into(), ..target_of("w") };
                ViewEvent::Listed(Ok(vec![w]))
            }
            ViewStep::Finished(outcome) => return (steps, outcome),
        };
    }
}

fn target_of(id: &str) -> Target {
    Target { id: id.into(), label: id.into(), width: 1, height: 1, scale: number(1.0) }
}

#[test]
fn the_desktop_is_observed_while_it_stands_still() {
    let mut d = desktop();
    let (steps, seen) = viewed(&mut d, None, true, &[1], 5);
    let seen = seen.unwrap();
    assert_eq!(steps, "arlcalw");
    assert_eq!((seen.target.id.as_str(), seen.target.label.as_str()), ("x", "a"));
    assert_eq!((seen.target.width, seen.target.height), (3, 4));
    assert_eq!(seen.target.scale, number(1.25));
    assert_eq!((seen.windows.len(), seen.observation_id.len()), (1, 36));
    assert!(d.check_layout(&geometry(&[1]), 5).is_ok());
    let (steps, seen) = viewed(&mut d, Some("y"), true, &[1], 5);
    let seen = seen.unwrap();
    assert_eq!((steps.as_str(), seen.target.label.as_str()), ("arlcblw", "b"));
    assert_eq!(seen.target.scale, number(2.0));
    for (after, revision) in [(&[2][..], 5), (&[1][..], 6)] {
        let mut d = desktop();
        let (steps, moved) = viewed(&mut d, None, true, after, revision);
        assert_eq!(steps, "arlcal");
        assert_eq!(moved.unwrap_err().message, "显示器布局变化，请重新观察");
        assert!(d.geometry.is_none());
    }
    let (steps, gone) = viewed(&mut d, None, false, &[1], 5);
    assert_eq!((steps.as_str(), gone.unwrap_err().message.as_str()), ("a", "niri 会话已经退出"));
    let (steps, foreign) = viewed(&mut d, Some("z"), true, &[1], 5);
    assert_eq!(steps, "ar");
    assert_eq!(foreign.unwrap_err().code, ErrorCode::PermissionDenied);
    let (_, none) = viewed(&mut Desktop::new(), None, true, &[1], 5);
    assert_eq!(none.unwrap_err().message, "没有显示器");
    let failed = |viewing: Viewing, event: ViewEvent| {
        match desktop().observe(None, viewing, 5, event).1 {
            ViewStep::Finished(Err(e)) => e.message,
            _ => panic!("a fault ends an observation"),
        }
    };
    let fault = || Fault::unavailable("x");
    assert_eq!(failed(Viewing::Refreshing, ViewEvent::Refreshed(Err(fault()))), "x");
    assert_eq!(failed(Viewing::Done, ViewEvent::Began), "显示器布局变化，请重新观察");
}

fn saved(x11: bool) -> SavedSession {
    let file = SocketFile { device: 1, inode: 2 };
    SavedSession {
        id: "s".into(),
        application: Application::Firefox,
        runtime: b"/run/s".to_vec(),
        sway: process(2, "/bin/sway"),
        app: process(3, "/bin/app"),
        bus: process(4, "/bin/dbus-daemon"),
        socket: b"/run/s/sway".to_vec(),
        wayland: b"/run/s/wayland-1".to_vec(),
        renderer: legacy_renderer(),
        x11: if x11 {
            Some(Endpoint { display: ":7".into(), file, peer_pid: 2 })
        } else {
            None
        },
        x11_application: false,
    }
}

fn owned(executable: &str) -> Vec<OwnedWindow> {
    let window = Window {
        id: 7,
        process: process(9, executable),
        geometry: (0, 0, 1, 1),
        mapped: true,
        override_redirect: false,
    };
    vec![OwnedWindow { window, descends: true }]
}

const TREE: &str = r#"{"nodes":[{"id":2,"window":7},{"id":3,"pid":4294967308,"app_id":"a"}]}"#;
const PLAIN: &str = r#"{"nodes":[{"id":3,"pid":12,"app_id":"a"}]}"#;

/// Looks at the windows of a session, of which these are the tree and the programs.
fn surveyed(
    x11: bool,
    tree: &str,
    foreign: &str,
    program: &str,
    outputs: &str,
) -> (String, Result<Layout, Fault>) {
    let session = saved(x11);
    let mut steps = String::new();
    let mut surveying = Surveying::Starting;
    let mut event = SurveyEvent::Began;
    loop {
        let (next, step) = Isolated::check_saved_windows(&session, false, surveying, event);
        surveying = next;
        event = match step {
            SurveyStep::Ask => {
                steps.push('a');
                SurveyEvent::Alive { sway: true, app: program != "gone" }
            }
            SurveyStep::Tree => {
                steps.push('t');
                SurveyEvent::Tree(Ok(tree.as_bytes().to_vec()))
            }
            SurveyStep::Match(ids) => {
                steps.push('x');
                assert_eq!(ids, [7]);
                SurveyEvent::Matched(Ok(owned(foreign)))
            }
            SurveyStep::Own(pids) => {
                steps.push('o');
                let owner = |pid: Option<u32>| Owner {
                    process: match pid {
                        Some(pid) => Ok(process(pid, program)),
                        None => Err(Fault::stale("no process")),
                    },
                    descends: true,
                };
                SurveyEvent::Owned(pids.into_iter().map(owner).collect())
            }
            SurveyStep::Outputs => {
                steps.push('d');
                SurveyEvent::Outputs(Ok(outputs.as_bytes().to_vec()))
            }
            SurveyStep::Finished(outcome) => return (steps, outcome),
        };
    }
}

fn layout(program: &str) -> Layout {
    surveyed(true, TREE, "/bin/app", program, "[{\"name\":\"H\"}]").1.unwrap()
}

#[test]
fn windows_are_checked_before_a_layout_is_known() {
    let (steps, found) = surveyed(true, TREE, "/bin/app", "/bin//app", "[{\"name\":\"H\"}]");
    let found = found.unwrap();
    assert_eq!((steps.as_str(), found.windows.len(), found.x11.len()), ("atxod", 2, 1));
    assert_eq!((found.windows[0].process.pid, found.windows[1].process.pid), (9, 12));
    let (steps, plain) = surveyed(false, PLAIN, "", "/bin/app", "[]");
    assert_eq!((steps.as_str(), plain.is_ok()), ("atod", true));
    let (steps, old) = surveyed(false, TREE, "", "/bin/app", "[]");
    assert_eq!((steps.as_str(), old.unwrap_err().code), ("at", ErrorCode::PermissionDenied));
    for (foreign, program) in [("/bin/other", "/bin/app"), ("/bin/app", "/bin/other")] {
        let (steps, stranger) = surveyed(true, TREE, foreign, program, "[]");
        assert_eq!(steps, "atxo");
        assert_eq!(
            stranger.unwrap_err().message,
            "独立会话出现未授权应用窗口；暂停观察和输入，请在本地接管处理"
        );
    }
    let (steps, gone) = surveyed(true, TREE, "/bin/app", "gone", "[]");
    assert_eq!((steps.as_str(), gone.unwrap_err().code), ("a", ErrorCode::StaleTarget));
    assert_eq!(surveyed(true, "{}", "", "", "[]").1.unwrap_err().message, "应用没有窗口");
    assert!(surveyed(true, "{", "", "", "[]").1.is_err());
    let (_, wrong) = surveyed(true, TREE, "/bin/app", "/bin/app", "{}");
    assert_eq!(wrong.unwrap_err().message, "虚拟输出列表无效");
    let few = Isolated::check_saved_windows(
        &saved(true),
        false,
        Surveying::Owning(vec![], vec![]),
        SurveyEvent::Owned(vec![Owner { process: Ok(process(1, "")), descends: true }]),
    );
    assert!(matches!(few.1, SurveyStep::Finished(Err(_))));
}

/// Observes an application, whose windows run this program after the picture is taken.
fn seen(
    app: &mut Isolated,
    target: Option<&str>,
    picture: bool,
    after: &str,
    scale: Result<Binary64, Fault>,
) -> (String, Result<Observation, Fault>) {
    let mut steps = String::new();
    let mut seeing = Seeing::Starting;
    let mut event = SeeEvent::Began;
    let mut scale = Some(scale);
    loop {
        let (next, step) = app.observe(target, seeing, 4, event);
        seeing = next;
        event = match step {
            SeeStep::Look if !steps.contains('c') => {
                steps.push('l');
                SeeEvent::Looked(Ok(layout("/bin/app")))
            }
            SeeStep::Look => {
                steps.push('l');
                SeeEvent::Looked(Ok(layout(after)))
            }
            SeeStep::Refresh => {
                steps.push('r');
                SeeEvent::Refreshed(Ok(()))
            }
            SeeStep::Capture => {
                steps.push('c');
                SeeEvent::Captured(Ok(if picture { Some(shot()) } else { None }))
            }
            SeeStep::Measure => {
                steps.push('m');
                SeeEvent::Measured(scale.take().unwrap())
            }
            SeeStep::Finished(outcome) => return (steps, outcome),
        };
    }
}

#[test]
fn applications_are_observed_while_they_stand_still() {
    let scale = || Ok(number(1.5));
    let mut app = Isolated::open_as(saved(true), "t".into());
    let (steps, got) = seen(&mut app, Some("t"), true, "/bin/app", scale());
    let got = got.unwrap();
    assert_eq!((steps.as_str(), got.target.id.as_str()), ("lrclm", "t"));
    assert_eq!((got.target.width, got.target.height), (3, 4));
    assert_eq!((got.target.scale, got.observation_id.len()), (number(1.5), 36));
    assert_eq!(app.geometry.as_ref().unwrap().1, 4);
    let mut app = Isolated::open_as(saved(true), "t".into());
    let (steps, moved) = seen(&mut app, None, true, "/bin//app", scale());
    assert_eq!(steps, "lrcl");
    assert_eq!(moved.unwrap_err().message, "截图期间窗口布局改变，请重新观察");
    assert!(app.geometry.is_none());
    let (steps, other) = seen(&mut app, Some("u"), true, "/bin/app", scale());
    assert_eq!((steps.as_str(), other.unwrap_err().code), ("", ErrorCode::PermissionDenied));
    let (steps, none) = seen(&mut app, None, false, "/bin/app", scale());
    assert_eq!((steps.as_str(), none.unwrap_err().message.as_str()), ("lrc", "没有虚拟显示器"));
    let (steps, unknown) = seen(&mut app, None, true, "/bin/app", Err(Fault::stale("x")));
    assert_eq!((steps.as_str(), unknown.unwrap_err().message.as_str()), ("lrclm", "x"));
    assert!(app.geometry.is_some());
}

fn copied(pool: &mut BufferPool<u8>, damage: bool, used: &[bool], fails: bool) -> String {
    let layout = wayland::Layout { format: ShmFormat::Argb8888, width: 2, height: 3, stride: 8 };
    let mut steps = String::new();
    let mut copying = Copying::Starting;
    let mut event = CopyEvent::Started;
    let mut progress = Progress::new();
    loop {
        let (next, step) = pool.capture_raw(damage, copying, event);
        copying = next;
        event = match step {
            CopyStep::Begin => {
                steps.push('b');
                CopyEvent::Begun(Ok((true, Some(layout), 3)))
            }
            CopyStep::Choose => {
                steps.push('?');
                let free = pool.buffers.iter().enumerate();
                CopyEvent::Free(free.map(|(i, _)| !used.contains(&true) || !used[i]).collect())
            }
            CopyStep::Create(made, size) => {
                steps.push('+');
                assert_eq!((made, size), (layout, 24));
                CopyEvent::Created(Ok(9))
            }
            CopyStep::Write { slot, on_change } => {
                assert_eq!(on_change, damage);
                steps.push_str(&slot.to_string());
                CopyEvent::Waited(Ok((progress, false)))
            }
            CopyStep::Wait => {
                steps.push('w');
                progress.frame_failed = fails;
                let ready = progress.frame_ready;
                progress.frame_ready = true;
                CopyEvent::Waited(Ok((progress, ready)))
            }
            CopyStep::Show { layout: shown, inverted } => {
                assert_eq!((shown, inverted), (layout, false));
                steps.push('s');
                return steps;
            }
            CopyStep::Failed(e) => return steps + &e.message,
        };
    }
}

#[test]
fn displays_are_copied_into_buffers_that_nobody_uses() {
    let mut pool: BufferPool<u8> = BufferPool::new();
    assert_eq!(copied(&mut pool, false, &[], false), "b?+0ws");
    assert_eq!(pool.buffers.len(), 0);
    assert_eq!(copied(&mut pool, true, &[], false), "b?+0wws");
    assert_eq!(pool.buffers.len(), 1);
    assert_eq!(copied(&mut pool, true, &[false], false), "b?0wws");
    assert_eq!(copied(&mut pool, true, &[true], false), "b?+1wws");
    assert_eq!(copied(&mut pool, true, &[true, false], false), "b?1wws");
    assert_eq!(copied(&mut pool, true, &[true, false], true), "b?1w截图传输失败");
    copied(&mut pool, true, &[true, true], false);
    copied(&mut pool, true, &[true, true, true], false);
    assert_eq!(
        copied(&mut pool, true, &[true; 4], false),
        "b?显示缓冲区仍在使用，丢弃过时帧"
    );
    assert_eq!(pool.buffers.len(), 4);
    let mut begun = |shm: bool, layout: Option<wayland::Layout>| {
        match pool.capture_raw(true, Copying::Beginning, CopyEvent::Begun(Ok((shm, layout, 1)))).1 {
            CopyStep::Failed(e) => e.message,
            _ => panic!("a copy needs shared memory and a layout"),
        }
    };
    assert_eq!(begun(false, None), "缺少 wl_shm");
    assert_eq!(begun(true, None), "截图被合成器拒绝");
    let wide =
        wayland::Layout { format: ShmFormat::Argb8888, width: 16385, height: 1, stride: 65540 };
    assert_eq!(begun(true, Some(wide)), "截图尺寸超出限制");
}

fn device_copied(
    pool: &mut BufferPool<u8>,
    transform: Transform,
    used: &[bool],
    inverted: bool,
) -> String {
    let layout = wayland::DmaLayout { fourcc: 1, width: 2, height: 3 };
    let mut steps = String::new();
    let mut copying = DmaCopying::Starting;
    let mut event = DmaEvent::Started;
    let mut progress = Progress::new();
    progress.inverted = inverted;
    loop {
        let (next, step) = pool.capture_dma(transform, copying, event);
        copying = next;
        event = match step {
            DmaStep::Begin => {
                steps.push('b');
                DmaEvent::Begun(Ok(Some(layout)))
            }
            DmaStep::Choose => {
                steps.push('?');
                DmaEvent::Free(used.iter().map(|used| !used).collect())
            }
            DmaStep::Create(made) => {
                steps.push('+');
                assert_eq!(made, layout);
                DmaEvent::Created(Ok(9))
            }
            DmaStep::Write(slot) => {
                steps.push_str(&slot.to_string());
                DmaEvent::Waited(Ok((progress, false)))
            }
            DmaStep::Wait => {
                steps.push('w');
                let ready = progress.frame_ready;
                progress.frame_ready = true;
                DmaEvent::Waited(Ok((progress, ready)))
            }
            DmaStep::Show(slot) => {
                steps.push('s');
                return steps + &slot.to_string();
            }
            DmaStep::Failed(e) => return steps + &e.message,
        };
    }
}

#[test]
fn frames_stay_on_the_graphics_device() {
    let mut pool: BufferPool<u8> = BufferPool::new();
    let upright = Transform::Normal;
    assert_eq!(
        device_copied(&mut pool, Transform::Half, &[], false),
        "旋转输出使用共享内存预览"
    );
    assert_eq!(device_copied(&mut pool, upright, &[], false), "b?+0wws0");
    assert_eq!(device_copied(&mut pool, upright, &[false], false), "b?0wws0");
    assert_eq!(device_copied(&mut pool, upright, &[true], false), "b?+1wws1");
    assert_eq!(
        device_copied(&mut pool, upright, &[true, false], true),
        "b?1wwDMA-BUF 传输失败或需要翻转"
    );
    device_copied(&mut pool, upright, &[true; 2], false);
    device_copied(&mut pool, upright, &[true; 3], false);
    assert_eq!(device_copied(&mut pool, upright, &[true; 4], false), "b?GPU 帧仍被 GTK 持有");
    let mut begun = |offered: Option<wayland::DmaLayout>| {
        let event = DmaEvent::Begun(Ok(offered));
        match pool.capture_dma(upright, DmaCopying::Beginning, event).1 {
            DmaStep::Failed(e) => e.message,
            _ => panic!("a copy needs a layout"),
        }
    };
    assert_eq!(begun(None), "输出不支持 DMA-BUF 截图");
    let wide = wayland::DmaLayout { fourcc: 1, width: 8193, height: 1 };
    assert_eq!(begun(Some(wide)), "DMA-BUF 尺寸超出预览限制");
}

fn framed(
    preview: &mut IsolatedPreview,
    outputs: &str,
    revisions: [u64; 2],
) -> (String, Result<Target, Fault>) {
    let mut steps = String::new();
    let mut framing = Framing::Starting;
    let mut event = FramingEvent::Began;
    let mut revision = revisions[0];
    loop {
        let (next, step) = preview.frame(&Application::Firefox, framing, revision, event);
        framing = next;
        event = match step {
            FramingStep::Ask => {
                steps.push('a');
                FramingEvent::Alive(outputs != "gone")
            }
            FramingStep::Refresh => {
                steps.push('r');
                FramingEvent::Refreshed(Ok(()))
            }
            FramingStep::Outputs => {
                steps.push('o');
                FramingEvent::Outputs(Ok(outputs.as_bytes().to_vec()))
            }
            FramingStep::Capture => {
                steps.push('c');
                revision = revisions[1];
                FramingEvent::Captured(Ok((3, 4)))
            }
            FramingStep::Check => {
                steps.push('k');
                FramingEvent::Checked(Ok(()))
            }
            FramingStep::Finished(outcome) => return (steps, outcome),
        };
    }
}

#[test]
fn live_frames_have_the_scale_of_their_outputs() {
    let outputs = "[{\"name\":\"HEADLESS-1\",\"scale\":1.5}]";
    let mut preview = IsolatedPreview::new("t".into());
    let (steps, target) = framed(&mut preview, outputs, [3, 3]);
    let target = target.unwrap();
    assert_eq!((steps.as_str(), target.id.as_str()), ("arock", "t"));
    assert_eq!((target.label.as_str(), target.width, target.height), ("Firefox", 3, 4));
    assert_eq!(target.scale, number(1.5));
    let (steps, again) = framed(&mut preview, "[]", [3, 3]);
    assert_eq!((steps.as_str(), again.unwrap().scale), ("arck", number(1.5)));
    let (steps, late) = framed(&mut preview, "[]", [3, 4]);
    assert_eq!((steps.as_str(), late.unwrap_err().code), ("arck", ErrorCode::Busy));
    let (steps, unscaled) = framed(&mut preview, "[]", [4, 4]);
    assert_eq!(steps, "aro");
    assert_eq!(unscaled.unwrap_err().message, "虚拟输出缩放无效");
    let (steps, gone) = framed(&mut preview, "gone", [3, 3]);
    assert_eq!((steps.as_str(), gone.unwrap_err().message.as_str()), ("a", "独立应用已退出"));
    let cancelled = FramingEvent::Checked(Err(Fault::new(ErrorCode::Paused, "x")));
    let (_, step) = preview.frame(&Application::Firefox, Framing::Confirming(3, 4), 3, cancelled);
    assert!(matches!(step, FramingStep::Finished(Err(e)) if e.message == "x"));
}
