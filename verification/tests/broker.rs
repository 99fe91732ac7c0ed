use std::sync::{Arc, Mutex};

use computer_use_linux::backend::preview::Viewport;
use computer_use_linux::backend::sway::Application;
use computer_use_linux::backend::{Backend, Cancellation};
use computer_use_linux::ipc::{
    acted, begin, check_act, check_broker, check_observe, check_private, check_root, concluded,
    incoming, is_lost, observed, observed_checked, read_frame, runtime_path, same_user, shown,
    write_frame, Begun, Exchange, FrameReader, FrameStep, Incoming, MAX_REQUEST, MAX_RESPONSE,
};
use computer_use_linux::json::{read_json, same_values, Json};
use computer_use_linux::mcp::{input_over, shape, Body};
use computer_use_linux::model::{
    ActRequest, Action, Button, ErrorCode, Fault, Mode, Modifier, Observation, ObserveRequest,
    Point, Request, Response, Scope, SessionRef, SessionRequest, SessionStatus, State, Target,
};
use computer_use_linux::number::Binary64;
use computer_use_linux::path;
use computer_use_linux::policy::Policy;
use computer_use_linux::table::Table;
use computer_use_linux::text;
use computer_use_linux::ui::panel::{may_present, resume_hidden, Panel, Prepared};
use computer_use_linux::ui::view::{
    check_released, click_button, control_of, drag_action, key_action, key_name, scroll_action,
    text_action, Presentation, Takeover, FRESH, MEASURED, SETTLED,
};
use computer_use_linux::ui::{
    capabilities_text, describe_application, describe_desktop, idle_text, row, same_statuses,
    statuses, Offer, RowBody,
};

struct Fake {
    fails: bool,
}

impl Backend for Fake {
    fn capabilities(&self) -> Vec<String> {
        vec!["screenshot".into(), "click".into()]
    }
    fn targets(&mut self) -> Result<Vec<Target>, Fault> {
        if self.fails {
            Err(Fault::stale("应用没有窗口"))
        } else {
            Ok(vec![])
        }
    }
    fn observe(&mut self, _: Option<&str>, _: &Cancellation) -> Result<Observation, Fault> {
        unreachable!()
    }
    fn act(&mut self, _: &Observation, _: &Action, _: &Cancellation) -> Result<(), Fault> {
        unreachable!()
    }
    fn alive(&mut self) -> bool {
        true
    }
}

const OWNER: u128 = 7;

fn number(x: f64) -> Binary64 {
    Binary64::from_bits(x.to_bits())
}

fn observation(id: &str) -> Observation {
    Observation {
        observation_id: id.into(),
        target: Target {
            id: "t".into(),
            label: "x".into(),
            width: 10,
            height: 10,
            scale: number(1.0),
        },
        png_base64: Some("png".into()),
        nodes: vec![],
        windows: vec![],
    }
}

fn application() -> Request {
    Request::RequestSession(SessionRequest {
        scope: Scope::Application,
        mode: Mode::Isolated,
        application: Some("firefox".into()),
    })
}

fn reference(id: &str) -> SessionRef {
    SessionRef { session_id: id.into() }
}

fn asked(policy: &mut Policy<Fake>) -> SessionStatus {
    match begin(policy, OWNER, application()) {
        Begun::Show { asked: Some(status) } => status,
        _ => panic!("a request needs the panel"),
    }
}

fn running() -> (Policy<Fake>, String) {
    let mut policy = Policy::new();
    policy.register(OWNER);
    let id = asked(&mut policy).session_id;
    policy.grant(&id, "Firefox".into(), Fake { fails: false }, &vec![]).unwrap();
    policy.view_opened(&id);
    policy.hide_ui();
    policy.resume(&id).unwrap();
    (policy, id)
}

fn state(policy: &Policy<Fake>, id: &str) -> State {
    policy.session(id).unwrap().status.state.clone()
}

fn error(response: Response) -> Fault {
    match response {
        Response::Error(e) => e,
        _ => panic!("expected a fault"),
    }
}

#[test]
fn oversize_frame_rejected_before_allocation() {
    assert!(read_frame(&vec![0xff, 0xff, 0xff, 0xff], MAX_REQUEST).is_err());
}

#[test]
fn frames_have_bounds() {
    assert_eq!(read_frame(&vec![0, 2, 0, 0], MAX_REQUEST).unwrap(), 131072);
    assert_eq!(
        read_frame(&vec![0, 2, 0, 1], MAX_REQUEST).unwrap_err().message,
        "IPC 消息大小超出限制"
    );
    assert!(read_frame(&vec![0, 0, 0, 0], MAX_REQUEST).is_err());
    assert_eq!(write_frame(b"ab".to_vec()).unwrap(), [0, 0, 0, 2, b'a', b'b']);
    let frame = write_frame(vec![1; 70000]).unwrap();
    assert_eq!(read_frame(&frame[..4].to_vec(), MAX_RESPONSE).unwrap(), 70000);
    assert_eq!(write_frame(vec![0; MAX_RESPONSE + 1]).unwrap_err().message, "IPC 响应过大");
}

#[test]
fn the_runtime_directory_is_private() {
    assert_eq!(
        runtime_path(Some(&b"/run/user/1".to_vec())).unwrap(),
        b"/run/user/1/computer-use-linux"
    );
    assert_eq!(runtime_path(None).unwrap_err().message, "缺少 XDG_RUNTIME_DIR");
    assert!(check_root(true, 1, 1).is_ok());
    assert_eq!(check_root(true, 0, 1).unwrap_err().message, "运行目录不属于当前用户");
    assert!(check_root(false, 1, 1).is_err());
    assert!(check_private(true, 1, 1, 0o40700).is_ok());
    for (directory, owner, mode) in [(false, 1, 0o700), (true, 2, 0o700), (true, 1, 0o710)] {
        assert_eq!(
            check_private(directory, owner, 1, mode).unwrap_err().message,
            "MCP 运行目录权限必须为 0700，且不能是符号链接"
        );
    }
    assert!(same_user(1, 1) && !same_user(0, 1));
    assert_eq!(check_broker(0, 1).unwrap_err().message, "服务用户不匹配");
}

#[test]
fn requests_need_the_panel() {
    let mut policy = Policy::new();
    policy.register(OWNER);
    let status = asked(&mut policy);
    assert!(policy.ui_visible);
    let id = status.session_id.clone();
    assert!(matches!(shown(&mut policy, Some(status), true), Response::Status(_)));
    assert_eq!(state(&policy, &id), State::Pending);
    let second = asked(&mut policy);
    let id = second.session_id.clone();
    assert_eq!(error(shown(&mut policy, Some(second), false)).message, "授权界面不可用");
    assert_eq!(state(&policy, &id), State::Denied);
    assert!(matches!(
        begin(&mut policy, OWNER, Request::ShowUi),
        Begun::Show { asked: None }
    ));
    assert!(matches!(shown(&mut policy, None, true), Response::Done));
    assert!(matches!(shown(&mut policy, None, false), Response::Error(_)));
}

#[test]
fn clients_cannot_approve_or_resume() {
    let (mut policy, id) = running();
    policy.pause_all();
    let requests = vec![
        Request::SessionStatus(reference(&id)),
        Request::Observe(ObserveRequest { session_id: id.clone(), target: None }),
        Request::PauseAll,
        Request::ShowUi,
        application(),
        Request::CloseSession(reference(&id)),
    ];
    for request in requests {
        begin(&mut policy, OWNER, request);
        assert_ne!(state(&policy, &id), State::Active);
    }
}

#[test]
fn foreign_clients_are_refused() {
    let (mut policy, id) = running();
    for request in [
        Request::SessionStatus(reference(&id)),
        Request::CloseSession(reference(&id)),
        Request::Observe(ObserveRequest { session_id: id.clone(), target: None }),
    ] {
        match begin(&mut policy, OWNER + 1, request) {
            Begun::Answer { response, detach: None } => {
                assert_eq!(error(response).message, "会话不存在或不属于当前连接")
            }
            _ => panic!("foreign sessions are not served"),
        }
    }
    assert_eq!(state(&policy, &id), State::Active);
}

#[test]
fn observations_precede_actions() {
    let (mut policy, id) = running();
    let act = || {
        Request::Act(ActRequest {
            session_id: id.clone(),
            observation_id: "o".into(),
            target: "t".into(),
            action: Action::Click {
                at: Point { x: number(1.0), y: number(1.0) },
                button: Button::Left,
            },
        })
    };
    match begin(&mut policy, OWNER, act()) {
        Begun::Answer { response, .. } => assert_eq!(error(response).message, "请先重新观察"),
        _ => panic!("nothing was observed"),
    }
    let cancel = match begin(
        &mut policy,
        OWNER,
        Request::Observe(ObserveRequest { session_id: id.clone(), target: Some("t".into()) }),
    ) {
        Begun::Observe { permit, session_id, target } => {
            assert_eq!((session_id, target.as_deref()), (id.clone(), Some("t")));
            permit.cancel
        }
        _ => panic!("an active session observes"),
    };
    let response = observed(&mut policy, OWNER, &id, Some(Ok(observation("o"))), &cancel);
    assert!(matches!(response, Response::Observation(o) if o.png_base64.is_some()));
    assert!(matches!(
        begin(&mut policy, OWNER, act()),
        Begun::Act { permit, .. } if permit.observation.is_some()
    ));
    assert!(matches!(begin(&mut policy, OWNER, act()), Begun::Answer { .. }));
    let lost = observed(&mut policy, OWNER, &id, None, &cancel);
    assert_eq!(error(lost).message, "后端任务意外结束");
    let failed = observed(&mut policy, OWNER, &id, Some(Err(Fault::stale("x"))), &cancel);
    assert_eq!(error(failed).message, "x");
    policy.pause(&id);
    let late = observed(&mut policy, OWNER, &id, Some(Ok(observation("o"))), &cancel);
    assert_eq!(error(late).code, ErrorCode::Paused);
    let refused = observed_checked(
        &mut policy,
        OWNER,
        &id,
        Some(Ok(observation("o"))),
        Err(Fault::stale("y")),
    );
    assert_eq!(error(refused).message, "y");
    assert!(policy.session(&id).unwrap().observation.is_none());
}

#[test]
fn closing_hands_the_backend_back() {
    let (mut policy, id) = running();
    match begin(&mut policy, OWNER, Request::CloseSession(reference(&id))) {
        Begun::Answer { response: Response::Done, detach } => assert!(detach.is_some()),
        _ => panic!("an owned session is closed"),
    }
    assert_eq!(state(&policy, &id), State::Closed);
    assert_eq!(policy.retained.len(), 1);
}

#[test]
fn backends_serve_one_operation() {
    assert!(check_observe(true, true).is_ok());
    assert_eq!(check_observe(false, false).unwrap_err().code, ErrorCode::Busy);
    assert_eq!(check_observe(true, false).unwrap_err().message, "目标实例已退出");
    assert!(check_act(true, Ok(()), true).is_ok());
    assert_eq!(check_act(false, Ok(()), true).unwrap_err().message, "后端正在执行其他操作");
    assert_eq!(check_act(true, Err(Fault::stale("x")), false).unwrap_err().message, "x");
    assert_eq!(check_act(true, Ok(()), false).unwrap_err().code, ErrorCode::StaleTarget);
    assert!(matches!(acted(Some(Ok(()))), Response::Done));
    assert_eq!(error(acted(None)).message, "后端任务意外结束");
    assert_eq!(error(acted(Some(Err(Fault::stale("x"))))).message, "x");
    assert!(is_lost(Some(false)));
    assert!(!is_lost(Some(true)) && !is_lost(None));
}

#[test]
fn connections_carry_one_exchange() {
    assert!(matches!(incoming(None, true), Incoming::Refuse(Response::Error(e)) if e.message == "无效请求"));
    assert!(matches!(incoming(None, false), Incoming::Refuse(_)));
    assert!(matches!(incoming(Some(Request::ShowUi), true), Incoming::Serve(Request::ShowUi)));
    assert!(matches!(incoming(Some(Request::ShowUi), false), Incoming::HangUp));
    let mut exchange = Exchange::new();
    assert!(exchange.start().is_ok());
    assert_eq!(exchange.start().unwrap_err().message, "MCP 连接已结束；请重新连接");
    exchange.complete();
    assert!(exchange.start().is_ok());
    assert!(concluded(Response::Done).is_ok());
    assert_eq!(concluded(Response::Error(Fault::stale("x"))).unwrap_err().message, "x");
}

#[test]
fn answers_are_shaped_for_the_model() {
    let seen = shape(Ok(Response::Observation(observation("o"))));
    assert!(!seen.failed);
    assert_eq!(seen.picture.as_deref(), Some("png"));
    assert!(matches!(seen.body, Body::Observation(o) if o.png_base64.is_none()));
    let failed = shape(Ok(Response::Error(Fault::stale("x"))));
    assert!(failed.failed && failed.picture.is_none());
    assert!(matches!(failed.body, Body::Fault(e) if e.message == "x"));
    let broken = shape(Err("gone".into()));
    assert!(broken.failed);
    assert!(matches!(broken.body, Body::Fault(e) if e.code == ErrorCode::BackendUnavailable));
    let done = shape(Ok(Response::Done));
    assert!(!done.failed && matches!(done.body, Body::Response(Response::Done)));
    assert!(input_over(true, true, 1, 5));
    assert!(input_over(true, false, 5, 5));
    assert!(!input_over(true, false, 4, 5));
    assert!(!input_over(false, false, 5, 5));
}

#[test]
fn rows_say_what_can_be_decided() {
    let (mut policy, id) = running();
    let status = statuses(&policy).remove(0);
    let granted = row(&status, false, None);
    assert_eq!(granted.title, "Firefox · 独立应用 · AI 控制中");
    assert_eq!(granted.session, format!("会话 {id}"));
    assert!(matches!(
        granted.body,
        RowBody::Granted { capabilities, window: true } if capabilities == "已开放：截图、点击"
    ));
    let pending = asked(&mut policy);
    assert_eq!(row(&pending, false, None).title, "新的授权申请 · 独立应用 · 等待授权");
    assert_eq!(row(&pending, false, None).message.as_deref(), Some("等待本地用户授权"));
    assert!(matches!(row(&pending, false, None).body, RowBody::Undecided));
    let offer = || Some(Offer { label: "整个电脑".into(), capabilities: vec!["key".into()] });
    assert!(matches!(row(&pending, true, offer()).body, RowBody::Preparing));
    assert!(matches!(
        row(&pending, false, offer()).body,
        RowBody::Ready { label, capabilities }
            if label == "将授权：整个电脑" && capabilities == "能力：按键"
    ));
    policy.deny(&id, "no".into());
    let denied = &statuses(&policy)[usize::from(pending.session_id < id)];
    assert!(matches!(row(denied, false, None).body, RowBody::Ended));
    let names = ["screenshot", "click", "drag", "scroll", "key", "text", "focus_window", "x"];
    assert_eq!(
        capabilities_text(&names.iter().map(|s| s.to_string()).collect()),
        "截图、点击、拖动、滚动、按键、文本输入、切换窗口、未知能力"
    );
    assert_eq!(idle_text(), "等待 MCP 客户端请求。没有活动授权。");
    assert!(describe_desktop().starts_with("将允许 AI"));
    let notes = describe_application("firefox", &Application::Firefox, "firefox", "[]");
    assert_eq!(notes[0], "请求启动：firefox");
    assert_eq!(notes[1], "应用：Firefox\n启动程序：firefox");
    assert_eq!(notes.len(), 3);
}

#[test]
fn statuses_come_in_order() {
    let mut policy: Policy<Fake> = Policy::new();
    policy.register(OWNER);
    for _ in 0..5 {
        asked(&mut policy);
    }
    let list = statuses(&policy);
    assert_eq!(list.len(), 5);
    assert!(list.windows(2).all(|w| w[0].session_id < w[1].session_id));
    assert!(same_statuses(&list, &statuses(&policy)));
    policy.deny(&list[3].session_id, "no".into());
    assert!(!same_statuses(&list, &statuses(&policy)));
}

fn ready(fails: bool, survives: bool) -> Result<Prepared<Fake>, Fault> {
    Ok(Prepared { backend: Fake { fails }, label: "Firefox".into(), preview: None, survives })
}

#[test]
fn allowed_applications_open_their_window() {
    let mut policy = Policy::new();
    policy.register(OWNER);
    let id = asked(&mut policy).session_id;
    let mut panel = Panel::new();
    assert!(panel.prepare(&id));
    assert!(!panel.prepare(&id));
    assert!(panel.is_busy(&id));
    let epoch = policy.ui_epoch;
    let opened = panel.allowed(&mut policy, id.clone(), epoch, ready(false, true), &vec![]);
    assert!(opened.unwrap().hide);
    assert!(!panel.is_busy(&id));
    assert_eq!(state(&policy, &id), State::Paused);
    assert!(may_present(&policy, epoch));
    assert!(resume_hidden(&mut policy, &id, epoch, true).is_none());
    policy.view_opened(&id);
    assert!(resume_hidden(&mut policy, &id, epoch, false).unwrap().is_ok());
    assert_eq!(state(&policy, &id), State::Active);
    let late = panel.allowed(&mut policy, id.clone(), epoch, ready(false, true), &vec![]);
    assert!(late.is_none());
    assert_eq!(panel.detached.len(), 1);
}

#[test]
fn newer_requests_keep_the_panel_open() {
    let mut policy = Policy::new();
    policy.register(OWNER);
    let id = asked(&mut policy).session_id;
    let epoch = policy.ui_epoch;
    asked(&mut policy);
    let mut panel = Panel::new();
    let opened = panel.allowed(&mut policy, id.clone(), epoch, ready(false, true), &vec![]);
    assert!(!opened.unwrap().hide);
    policy.view_opened(&id);
    assert!(resume_hidden(&mut policy, &id, epoch, false).is_none());
    assert!(!may_present(&policy, epoch));
    assert_eq!(state(&policy, &id), State::Paused);
}

#[test]
fn failed_applications_are_denied() {
    let mut policy = Policy::new();
    policy.register(OWNER);
    let id = asked(&mut policy).session_id;
    let mut panel: Panel<Fake> = Panel::new();
    let failed = panel.allowed(&mut policy, id.clone(), 1, Err(Fault::stale("no")), &vec![]);
    assert!(failed.is_none());
    assert_eq!(panel.banner, "no");
    assert_eq!(state(&policy, &id), State::Denied);
    let second = asked(&mut policy).session_id;
    let refused = panel.allowed(&mut policy, second.clone(), 2, ready(true, true), &vec![]);
    assert!(refused.is_none());
    assert_eq!(panel.banner, "应用没有窗口");
    assert_eq!(state(&policy, &second), State::Pending);
}

#[test]
fn prepared_backends_wait_for_the_user() {
    let mut policy = Policy::new();
    policy.register(OWNER);
    let id = asked(&mut policy).session_id;
    let mut panel = Panel::new();
    panel.prepare(&id);
    panel.finished(&policy, id.clone(), ready(false, true));
    assert_eq!(panel.offer(&id).unwrap().label, "Firefox");
    assert!(panel.draw(statuses(&policy)));
    assert!(!panel.draw(statuses(&policy)));
    panel.invalidate();
    assert!(panel.draw(statuses(&policy)));
    assert!(panel.confirm(&mut policy, &id, &vec![]).is_some());
    assert_eq!(state(&policy, &id), State::Paused);
    assert!(panel.offer(&id).is_none());
    assert!(panel.revoke(&mut policy, &id).is_some());
    panel.adopt(&mut policy);
    assert_eq!(panel.detached.len(), 1);
    let denied = asked(&mut policy).session_id;
    panel.finished(&policy, denied.clone(), ready(false, true));
    panel.deny(&mut policy, &denied);
    assert_eq!(state(&policy, &denied), State::Denied);
    assert_eq!(panel.detached.len(), 2);
    panel.finished(&policy, denied.clone(), ready(false, false));
    assert_eq!(panel.detached.len(), 2);
    panel.finished(&policy, denied, Err(Fault::stale("x")));
    assert_eq!(panel.banner, "x");
    panel.recovered(vec![("Firefox".into(), Arc::new(Mutex::new(Fake { fails: false })))]);
    assert_eq!(panel.detached[2].0, "恢复：Firefox");
}

#[test]
fn taking_over_pauses_and_giving_back_resumes_nothing() {
    let (mut policy, id) = running();
    let mut takeover = Takeover::new();
    takeover.toggle(&mut policy, true);
    assert!(takeover.active);
    assert_eq!((state(&policy, &id), policy.manual_previews), (State::Paused, 1));
    assert!(policy.resume(&id).is_err());
    takeover.toggle(&mut policy, true);
    assert_eq!(policy.manual_previews, 1);
    takeover.toggle(&mut policy, false);
    assert_eq!((takeover.generation, policy.manual_previews), (1, 0));
    assert_eq!(state(&policy, &id), State::Paused);
    policy.resume(&id).unwrap();
    takeover.hidden(&mut policy, Some(&id));
    assert_eq!(takeover.generation, 2);
    assert_eq!(state(&policy, &id), State::Paused);
    takeover.toggle(&mut policy, true);
    takeover.close(&mut policy);
    assert_eq!((takeover.generation, policy.manual_previews), (3, 0));
}

#[test]
fn views_show_settled_sizes_and_fresh_frames() {
    let (mut policy, id) = running();
    let mut view = Presentation::new(0);
    let size = Viewport::new(640, 480, number(1.0), number(1.0)).unwrap();
    assert!(!view.resize(size, 5));
    assert!(!view.resize(size, 4 + SETTLED));
    assert!(view.resize(size, 5 + SETTLED));
    assert!(!view.arrive(FRESH, 1, 2, "r", "SHM"));
    assert!(view.arrive(FRESH - 1, 1, 2, "r", "SHM"));
    assert_eq!(view.description, "1×2 · r · SHM");
    assert!(view.measure(MEASURED - 1, "c", "9 FPS").is_none());
    assert_eq!(view.measure(MEASURED, "c", "9 FPS").unwrap(), "c · 1×2 · r · SHM · 静止");
    view.show(observation("o").target);
    assert_eq!(
        view.measure(2 * MEASURED, "c", "9 FPS").unwrap(),
        "c · 1×2 · r · SHM · 9 FPS"
    );
    assert_eq!(control_of(&policy, Some(&id)), "AI 正在控制 · 你可以继续使用其他窗口");
    view.fail(&mut policy, Some(&id), Fault::stale("x"));
    assert_eq!(view.measure(3 * MEASURED, "c", "").unwrap(), "x");
    assert_eq!(control_of(&policy, Some(&id)), "AI 已暂停 · 可手动接管");
    policy.close_local(&id);
    assert_eq!(control_of(&policy, Some(&id)), "AI 授权已结束 · 应用保留供你使用");
    assert_eq!(control_of(&policy, None), "本地预览 · 可手动接管");
}

#[test]
fn the_users_input_becomes_actions() {
    let at = Point { x: number(1.0), y: number(2.0) };
    assert_eq!(click_button(true, 1), None);
    assert_eq!(click_button(true, 2), Some(Button::Middle));
    assert_eq!(click_button(true, 3), Some(Button::Right));
    assert_eq!(click_button(true, 8), Some(Button::Left));
    assert_eq!(click_button(false, 2), None);
    assert!(matches!(
        drag_action(true, false, Some(at), Some(at), true),
        Some(Action::Click { button: Button::Left, .. })
    ));
    assert!(matches!(
        drag_action(true, false, Some(at), Some(at), false),
        Some(Action::Drag { .. })
    ));
    assert!(drag_action(true, true, Some(at), Some(at), false).is_none());
    assert!(drag_action(false, false, Some(at), Some(at), false).is_none());
    assert!(drag_action(true, false, Some(at), None, false).is_none());
    assert!(scroll_action(true, Some(at), number(1.0), number(2.0)).is_some());
    assert!(scroll_action(false, Some(at), number(1.0), number(2.0)).is_none());
    assert_eq!(key_name(Some('a'), Some("a_key")).unwrap(), "a");
    assert_eq!(key_name(Some('\u{8}'), Some("BackSpace")).unwrap(), "BackSpace");
    assert_eq!(key_name(None, None), None);
    assert!(matches!(
        key_action(true, Some("c".into()), true, false, true, true),
        Some(Action::Key { modifiers, .. })
            if modifiers == [Modifier::Ctrl, Modifier::Shift, Modifier::Super]
    ));
    assert!(key_action(false, Some("c".into()), true, false, false, false).is_none());
    assert!(matches!(text_action(true, "猫"), Some(Action::Text { text }) if text == "猫"));
    assert!(text_action(true, "").is_none() && text_action(false, "a").is_none());
    assert!(check_released(true).is_ok());
    assert_eq!(
        check_released(false).unwrap_err().message,
        "输入后端异常，无法确认按键已释放"
    );
}

#[test]
fn json_is_read() {
    let json = |s: &str| read_json(&s.as_bytes().to_vec());
    let value = json(r#"{"b":[1,-2,1.5,"x",true,null],"a":{"n":18446744073709551615}}"#).unwrap();
    match value.field("b") {
        Some(Json::List(items)) => {
            assert!(matches!(&items[0], Json::Number { whole: Some(1), .. }));
            assert!(matches!(
                &items[1],
                Json::Number { whole: None, double: Some(d), .. } if *d == number(-2.0)
            ));
            assert!(matches!(&items[2], Json::Number { double: Some(d), .. } if *d == number(1.5)));
            assert!(matches!(&items[3], Json::Text(s) if s == "x"));
            assert!(matches!(items[4], Json::Bool(true)));
            assert!(matches!(items[5], Json::Null));
        }
        _ => panic!("a list is a list"),
    }
    assert_eq!(value.field("a").unwrap().number("n"), Some(u64::MAX));
    assert_eq!(value.field("a").unwrap().float("n"), Some(number(u64::MAX as f64)));
    assert!(value.field("c").is_none());
    assert!(matches!(value.copy_field("c"), Json::Null));
    assert!(value.has("a") && !value.has("c"));
    let flags = json(r#"{"t":true,"f":false,"s":"x","z":null}"#).unwrap();
    assert!(flags.is_true("t") && !flags.is_true("f") && !flags.is_true("s"));
    assert_eq!(flags.text("s").as_deref(), Some("x"));
    assert!(!flags.has("z"));
    assert!(value.equals(&value.clone()));
    assert!(!value.equals(&flags));
    assert!(json("[1]").unwrap().equals(&json("[ 1 ]").unwrap()));
    assert!(!json("[1]").unwrap().equals(&json("[1.0]").unwrap()));
    assert!(same_values(&vec![json("{}").unwrap()], &vec![json("{}").unwrap()]));
    assert!(!same_values(&vec![], &vec![json("{}").unwrap()]));
    for bad in ["", "{", "[1,]", "nul", "\"\\x\""] {
        assert!(json(bad).is_err());
    }
}

#[test]
fn numbers_order_as_doubles_do() {
    let samples = [
        0.0,
        -0.0,
        1.0,
        -1.0,
        0.5,
        f64::MIN_POSITIVE,
        5e-324,
        f64::MAX,
        f64::MIN,
        f64::INFINITY,
        f64::NEG_INFINITY,
        f64::NAN,
        2000.0,
        2000.0000000000002,
    ];
    for a in samples {
        assert_eq!(number(a).is_finite(), a.is_finite());
        assert_eq!(number(a).abs(), number(a.abs()));
        for b in samples {
            assert_eq!(number(a).less(number(b)), a < b);
            assert_eq!(number(a).same(number(b)), a == b);
        }
    }
    for n in [0, 1, 2, 3, 255, 256, 65535, 16777217, u32::MAX] {
        assert_eq!(Binary64::from_u32(n), number(f64::from(n)));
    }
    for n in [0, 1, -1, i32::MAX, i32::MIN] {
        assert_eq!(Binary64::from_i32(n), number(f64::from(n)));
    }
}

#[test]
fn characters_are_classified_as_everywhere() {
    for c in '\0'..=char::MAX {
        assert_eq!(text::is_control(c), c.is_control());
        assert_eq!(text::is_white_space(c), c.is_whitespace());
    }
}

#[test]
fn texts_are_handled_by_characters() {
    for s in ["", "a", "  a b\t", "猫😀é", "\u{a0}x\u{3000}"] {
        assert_eq!(text::byte_len(s), s.len());
        assert_eq!(text::trim(s), s.trim());
    }
    assert!(text::same("猫", "猫") && !text::same("猫", "犬"));
    assert!(text::starts_with("abc", "ab") && !text::starts_with("a", "ab"));
    assert!(text::has_char("a=b", '=') && !text::has_char("ab", '='));
    assert_eq!(text::decimal(0), "0");
    assert_eq!(text::decimal(u64::MAX), "18446744073709551615");
    assert_eq!(text::to_base(0x732b, 16), "732b");
    assert_eq!(text::to_upper_hex("732b"), "732B");
    assert_eq!(text::zero_fill("7", 3), "007");
    assert_eq!(text::join(&vec!["a".into(), "b".into()], ", "), "a, b");
    assert_eq!(text::split("a\n\nb", '\n'), ["a", "", "b"]);
    assert_eq!(text::parse_number("+12", 255), Some(12));
    assert_eq!(text::parse_number("256", 255), None);
    assert_eq!(text::parse_number("", 255), None);
    assert_eq!(text::parse_number("1x", 255), None);
    assert!(text::less("a", "b") && text::less("a", "aa") && !text::less("b", "a"));
}

#[test]
fn paths_are_joined_and_sorted() {
    let bytes = |s: &str| s.as_bytes().to_vec();
    assert_eq!(path::join(&bytes("/a"), &bytes("b")), b"/a/b");
    assert_eq!(path::join(&bytes("/a/"), &bytes("b")), b"/a/b");
    assert_eq!(path::join(&bytes("/a"), &bytes("/b")), b"/b");
    assert!(path::is_absolute(&bytes("/a")) && !path::is_absolute(&bytes("a")));
    for p in ["/a/b", "b", "/", "", "/a/..", "/a/b/", "..", "/a/.", "a/./"] {
        let expected = std::path::Path::new(p).file_name().and_then(|n| n.to_str());
        assert_eq!(path::file_name(&bytes(p)), expected.map(|n| n.as_bytes().to_vec()));
    }
    assert_eq!(
        path::sort(vec![bytes("b"), bytes("a"), bytes("aa")]),
        [bytes("a"), bytes("aa"), bytes("b")]
    );
}

#[test]
fn tables_hold_one_value_for_a_key() {
    let mut table = Table::new();
    table.insert("a".into(), 1u64);
    table.insert("b".into(), 2);
    table.insert("a".into(), 3);
    assert_eq!((table.get("a"), table.get("b"), table.get("c")), (Some(&3), Some(&2), None));
    assert_eq!(table.key_of_number(2).as_deref(), Some("b"));
    assert_eq!(table.take("a"), Some(3));
    assert_eq!(table.take("a"), None);
    table.retain(&vec!["c".into()]);
    assert!(table.entries.is_empty());
}

#[test]
fn frames_are_read_from_a_stream() {
    let framed = write_frame(b"hello".to_vec()).unwrap();
    let mut reader = FrameReader::new(5);
    let mut at = 0;
    let message = loop {
        match reader.next() {
            FrameStep::More(n) => {
                reader.feed(framed[at..at + n].to_vec());
                at += n;
            }
            FrameStep::Message(message) => break message,
            FrameStep::Refused(e) => panic!("{}", e.message),
        }
    };
    assert_eq!((message.as_slice(), at), (b"hello".as_slice(), framed.len()));
    let mut small = FrameReader::new(4);
    small.feed(framed[..4].to_vec());
    assert!(matches!(small.next(), FrameStep::Refused(e) if e.message == "IPC 消息大小超出限制"));
    let mut empty = FrameReader::new(4);
    empty.feed(vec![0, 0]);
    assert!(matches!(empty.next(), FrameStep::More(2)));
    empty.feed(vec![0, 0]);
    assert!(matches!(empty.next(), FrameStep::Refused(_)));
}

#[test]
fn grants_follow_what_the_backend_answered() {
    let mut policy: Policy<Fake> = Policy::new();
    policy.register(OWNER);
    let id = asked(&mut policy).session_id;
    let mut panel: Panel<Fake> = Panel::new();
    let handle = Arc::new(Mutex::new(Fake { fails: false }));
    let epoch = policy.ui_epoch;
    let none = panel.allowed_prepared(
        &mut policy,
        &id,
        epoch,
        "a".into(),
        handle.clone(),
        vec!["click".into()],
        Err(Fault::stale("no")),
        &vec![],
    );
    assert!(none.is_none());
    assert_eq!((state(&policy, &id), panel.banner.as_str()), (State::Pending, "no"));
    let opened = panel
        .allowed_prepared(
            &mut policy,
            &id,
            epoch,
            "a".into(),
            handle.clone(),
            vec!["click".into()],
            Ok(vec![observation("o").target]),
            &vec![],
        )
        .unwrap();
    assert!(opened.hide && Arc::ptr_eq(&opened.backend, &handle));
    let status = policy.status(OWNER, &id).unwrap();
    assert_eq!((status.capabilities, status.targets.len()), (vec!["click".to_string()], 1));
    let late = panel.confirm_prepared(
        &mut policy,
        &id,
        "b".into(),
        Arc::new(Mutex::new(Fake { fails: false })),
        vec![],
        Ok(vec![]),
        &vec![],
    );
    assert!(Arc::ptr_eq(&late.unwrap(), &handle));
    assert_eq!(panel.banner, "申请已结束");
    let second = asked(&mut policy).session_id;
    let window = panel.confirm_prepared(
        &mut policy,
        &second,
        "b".into(),
        handle.clone(),
        vec![],
        Ok(vec![]),
        &vec![],
    );
    assert!(Arc::ptr_eq(&window.unwrap(), &handle));
    assert_eq!(policy.status(OWNER, &second).unwrap().label.as_deref(), Some("b"));
}

#[test]
fn the_users_own_input_is_cancelled_with_its_view() {
    let (mut policy, id) = running();
    let mut takeover = Takeover::new();
    takeover.toggle(&mut policy, true);
    let cancel = takeover.cancellation();
    assert!(cancel.check().is_ok());
    takeover.hidden(&mut policy, Some(&id));
    assert!(cancel.check().is_err());
    assert!(takeover.cancellation().check().is_ok());
}
