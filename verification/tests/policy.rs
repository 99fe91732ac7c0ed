use computer_use_linux::backend::{Backend, Cancellation};
use computer_use_linux::model::{
    ActRequest, Action, Button, ErrorCode, Fault, Mode, Observation, Point, Scope,
    SessionRequest, State, Target,
};
use computer_use_linux::number::Binary64;
use computer_use_linux::policy::Policy;
use uuid::Uuid;

struct Fake;

impl Backend for Fake {
    fn capabilities(&self) -> Vec<String> {
        vec!["click".into()]
    }
    fn targets(&mut self) -> Result<Vec<Target>, Fault> {
        Ok(vec![])
    }
    fn observe(&mut self, _: Option<&str>, _: &Cancellation) -> Result<Observation, Fault> {
        unreachable!()
    }
    fn act(&mut self, _: &Observation, _: &Action, _: &Cancellation) -> Result<(), Fault> {
        unreachable!()
    }
    fn alive(&mut self) -> bool {
        true
    }
}

fn number(x: f64) -> Binary64 {
    Binary64::from_bits(x.to_bits())
}

fn point(x: f64, y: f64) -> Point {
    Point { x: number(x), y: number(y) }
}

fn client() -> u128 {
    Uuid::new_v4().as_u128()
}

fn isolated(application: &str) -> SessionRequest {
    SessionRequest {
        scope: Scope::Application,
        mode: Mode::Isolated,
        application: Some(application.into()),
    }
}

fn desktop() -> SessionRequest {
    SessionRequest { scope: Scope::Desktop, mode: Mode::Desktop, application: None }
}

fn observation(id: &str, target: &str) -> Observation {
    Observation {
        observation_id: id.into(),
        target: Target {
            id: target.into(),
            label: "x".into(),
            width: 10,
            height: 10,
            scale: number(1.0),
        },
        png_base64: None,
        nodes: vec![],
        windows: vec![],
    }
}

fn granted(scope: Scope, mode: Mode) -> (Policy<Fake>, u128, String) {
    let mut p = Policy::new();
    let owner = client();
    p.register(owner);
    let id = p
        .request(
            owner,
            SessionRequest {
                scope,
                mode,
                application: if mode == Mode::Isolated { Some("firefox".into()) } else { None },
            },
        )
        .unwrap()
        .session_id;
    p.grant(&id, "test".into(), Fake, &vec![]).unwrap();
    p.view_opened(&id);
    p.ui_visible = false;
    p.resume(&id).unwrap();
    (p, owner, id)
}

#[test]
fn disconnected_client_cannot_create_late_request() {
    let mut p: Policy<Fake> = Policy::new();
    let owner = client();
    p.register(owner);
    p.disconnect(owner);
    assert!(p.request(owner, isolated("gnome-text-editor")).is_err());
}

#[test]
fn disconnected_isolated_application_remains_available_only_locally() {
    let (mut p, owner, id) = granted(Scope::Application, Mode::Isolated);
    p.disconnect(owner);
    assert_eq!(p.retained.len(), 1);
    assert!(p.status(owner, &id).is_err());
    assert!(p.permit(owner, &id, None).is_err());
}

#[test]
fn visible_application_is_required_but_passive_view_does_not_pause() {
    let (mut p, owner, id) = granted(Scope::Application, Mode::Isolated);
    p.view_opened(&id);
    assert_eq!(p.status(owner, &id).unwrap().state, State::Active);
    p.view_closed(&id);
    assert_eq!(p.status(owner, &id).unwrap().state, State::Active);
    p.view_closed(&id);
    assert_eq!(p.status(owner, &id).unwrap().state, State::Paused);
    assert!(p.resume(&id).is_err());
    p.view_opened(&id);
    p.resume(&id).unwrap();
}

#[test]
fn isolated_request_requires_an_application_without_command_paths() {
    let mut p: Policy<Fake> = Policy::new();
    let owner = client();
    p.register(owner);
    for application in
        [None, Some("".into()), Some("/bin/sh".into()), Some("firefox\n".into())]
    {
        assert!(p
            .request(
                owner,
                SessionRequest { scope: Scope::Application, mode: Mode::Isolated, application }
            )
            .is_err());
    }
    let status = p.request(owner, isolated("kitty.desktop")).unwrap();
    assert_eq!(
        p.session(&status.session_id).unwrap().requested_application.as_deref(),
        Some("kitty.desktop")
    );
    assert!(
        status.label.is_none() && status.capabilities.is_empty() && status.targets.is_empty()
    );
    assert!(p.permit(owner, &status.session_id, None).is_err());
}

#[test]
fn pending_reveals_no_targets_and_cannot_observe() {
    let mut p: Policy<Fake> = Policy::new();
    let owner = client();
    p.register(owner);
    let s = p.request(owner, isolated("gnome-text-editor")).unwrap();
    assert!(s.targets.is_empty() && s.label.is_none());
    assert!(p.permit(owner, &s.session_id, None).is_err());
}

#[test]
fn ownership_and_disconnect_invalidate_authority() {
    let (mut p, owner, id) = granted(Scope::Application, Mode::Isolated);
    assert_eq!(p.status(client(), &id).unwrap_err().code, ErrorCode::PermissionDenied);
    let permit = p.permit(owner, &id, None).ok().unwrap();
    p.disconnect(owner);
    assert!(permit.cancel.check().is_err());
    assert!(p.permit(owner, &id, None).is_err());
}

#[test]
fn disconnected_input_is_included_in_authorization_barrier() {
    let (mut p, owner, id) = granted(Scope::Desktop, Mode::Desktop);
    let permit = p.permit(owner, &id, None).ok().unwrap();
    let held = std::sync::Arc::downgrade(&permit.backend);
    drop(p.disconnect(owner));
    assert!(permit.cancel.check().is_err());
    let leases = |held: &std::sync::Weak<_>| match held.upgrade() {
        Some(handle) => vec![(id.clone(), handle)],
        None => vec![],
    };
    assert_eq!(p.input_handles(&leases(&held)).len(), 1);
    drop(permit);
    assert!(p.input_handles(&leases(&held)).is_empty());
}

#[test]
fn opening_approval_cancels_inflight_and_never_auto_resumes() {
    let (mut p, owner, id) = granted(Scope::Application, Mode::Isolated);
    let permit = p.permit(owner, &id, None).ok().unwrap();
    p.request(owner, desktop()).unwrap();
    assert!(permit.cancel.check().is_err());
    assert_eq!(p.status(owner, &id).unwrap().state, State::Paused);
    assert!(p.resume(&id).is_err());
    p.ui_visible = false;
    assert_eq!(p.status(owner, &id).unwrap().state, State::Paused);
}

#[test]
fn desktop_input_has_single_owner() {
    let (mut p, owner, first) = granted(Scope::Desktop, Mode::Desktop);
    let second = p.request(owner, desktop()).unwrap().session_id;
    p.grant(&second, "second".into(), Fake, &vec![first.clone()]).unwrap();
    p.ui_visible = false;
    p.resume(&first).unwrap();
    p.resume(&second).unwrap();
    assert_eq!(p.status(owner, &first).unwrap().state, State::Paused);
}

#[test]
fn revoke_during_observation_discards_result() {
    let (mut p, owner, id) = granted(Scope::Application, Mode::Isolated);
    let permit = p.permit(owner, &id, None).ok().unwrap();
    p.close(owner, &id).unwrap();
    let o = observation("o", "x");
    assert!(p.remember(owner, &id, o, &permit.cancel).is_err());
}

#[test]
fn rejects_stale_and_unsupported_actions_without_backend_fallback() {
    let (mut p, owner, id) = granted(Scope::Application, Mode::Isolated);
    let permit = p.permit(owner, &id, None).ok().unwrap();
    let o = observation("current", "target");
    p.remember(owner, &id, o, &permit.cancel).unwrap();
    let mut a = ActRequest {
        session_id: id.clone(),
        observation_id: "old".into(),
        target: "target".into(),
        action: Action::Click { at: point(1.0, 1.0), button: Button::Left },
    };
    assert!(matches!(
        p.permit(owner, &id, Some(&a)),
        Err(Fault { code: ErrorCode::StaleTarget, .. })
    ));
    a.observation_id = "current".into();
    a.action = Action::FocusWindow { window: "other".into() };
    assert!(matches!(
        p.permit(owner, &id, Some(&a)),
        Err(Fault { code: ErrorCode::Unsupported, .. })
    ));
    a.action = Action::Click { at: point(f64::NAN, 1.0), button: Button::Left };
    assert!(p.permit(owner, &id, Some(&a)).is_err());
}

#[test]
fn one_action_uses_an_observation_up() {
    let (mut p, owner, id) = granted(Scope::Application, Mode::Isolated);
    let permit = p.permit(owner, &id, None).ok().unwrap();
    p.remember(owner, &id, observation("current", "target"), &permit.cancel).unwrap();
    let a = ActRequest {
        session_id: id.clone(),
        observation_id: "current".into(),
        target: "target".into(),
        action: Action::Click { at: point(9.5, 0.0), button: Button::Left },
    };
    let taken = p.action_permit(owner, &a).ok().unwrap();
    assert_eq!(taken.observation.unwrap().observation_id, "current");
    let again = p.action_permit(owner, &a).err().unwrap();
    assert_eq!(again.code, ErrorCode::StaleTarget);
    assert_eq!(again.message, "请先重新观察");
}

#[test]
fn local_control_blocks_actions_but_not_observing() {
    let (mut p, owner, id) = granted(Scope::Application, Mode::Isolated);
    p.begin_takeover();
    assert_eq!(p.status(owner, &id).unwrap().state, State::Paused);
    assert!(p.permit(owner, &id, None).is_ok());
    assert_eq!(p.resume(&id).unwrap_err().message, "请先关闭授权界面和手动预览窗口");
    p.end_takeover();
    assert_eq!(p.status(owner, &id).unwrap().state, State::Paused);
    p.resume(&id).unwrap();
    p.end_takeover();
    assert_eq!(p.manual_previews, 0);
}

#[test]
fn a_client_has_eight_live_sessions_at_most() {
    let mut p: Policy<Fake> = Policy::new();
    let owner = client();
    p.register(owner);
    let first = p.request(owner, desktop()).unwrap().session_id;
    for _ in 0..7 {
        p.request(owner, desktop()).unwrap();
    }
    let refused = p.request(owner, desktop()).unwrap_err();
    assert_eq!(refused.code, ErrorCode::Busy);
    p.deny(&first, "no".into());
    assert_eq!(p.status(owner, &first).unwrap().message.as_deref(), Some("no"));
    p.request(owner, desktop()).unwrap();
    let other = client();
    p.register(other);
    p.request(other, desktop()).unwrap();
}

#[test]
fn scope_mode_and_application_must_agree() {
    let mut p: Policy<Fake> = Policy::new();
    let owner = client();
    p.register(owner);
    let mixed =
        SessionRequest { scope: Scope::Desktop, mode: Mode::Isolated, application: None };
    assert_eq!(p.request(owner, mixed).unwrap_err().message, "授权范围和模式不匹配");
    let removed =
        SessionRequest { scope: Scope::Application, mode: Mode::Existing, application: None };
    assert_eq!(p.request(owner, removed).unwrap_err().code, ErrorCode::InvalidRequest);
    let named = SessionRequest {
        scope: Scope::Desktop,
        mode: Mode::Desktop,
        application: Some("firefox".into()),
    };
    assert_eq!(
        p.request(owner, named).unwrap_err().message,
        "application 参数仅适用于独立实例"
    );
    for name in [" firefox", "firefox ", "a\\b", "a/b", "\u{7f}"] {
        assert!(p.request(owner, isolated(name)).is_err());
    }
    assert!(p.request(owner, isolated(&"a".repeat(257))).is_err());
    assert!(p.request(owner, isolated(&"猫".repeat(85))).is_ok());
}

#[test]
fn new_requests_get_different_identifiers_and_open_the_panel() {
    let mut p: Policy<Fake> = Policy::new();
    let owner = client();
    p.register(owner);
    let epoch = p.ui_epoch;
    let a = p.request(owner, desktop()).unwrap();
    assert!(p.ui_visible);
    assert_eq!(p.ui_epoch, epoch + 1);
    let b = p.request(owner, desktop()).unwrap();
    assert_ne!(a.session_id, b.session_id);
    assert_eq!(a.session_id.len(), 36);
    assert_eq!(a.message.as_deref(), Some("等待本地用户授权"));
    assert_eq!(p.sessions.len(), 2);
}

#[test]
fn closed_sessions_offer_nothing() {
    let (mut p, owner, id) = granted(Scope::Desktop, Mode::Desktop);
    let handle = p.close(owner, &id).unwrap();
    assert!(handle.is_some());
    let status = p.status(owner, &id).unwrap();
    assert_eq!(status.state, State::Closed);
    assert!(status.capabilities.is_empty() && status.targets.is_empty());
    assert!(p.retained.is_empty());
    assert!(p.close(client(), &id).is_err());
    assert_eq!(p.resume(&id).unwrap_err().message, "当前会话不能恢复");
    assert_eq!(p.resume("nobody").unwrap_err().code, ErrorCode::StaleTarget);
    assert_eq!(
        p.grant(&id, "late".into(), Fake, &vec![]).unwrap_err().message,
        "申请已结束"
    );
}

#[test]
fn observations_of_others_are_not_kept() {
    let (mut p, _, id) = granted(Scope::Desktop, Mode::Desktop);
    let quiet = std::sync::Arc::new(std::sync::atomic::AtomicU64::new(0));
    let cancel = Cancellation::new(quiet);
    let refused =
        p.remember(client(), &id, observation("o", "x"), &cancel).unwrap_err();
    assert_eq!(refused.code, ErrorCode::PermissionDenied);
}

#[test]
fn a_handed_over_application_is_taken_once() {
    let (mut p, owner, _) = granted(Scope::Application, Mode::Isolated);
    p.disconnect(owner);
    let taken = p.take_retained();
    assert_eq!(taken.len(), 1);
    assert_eq!(taken[0].0, "test");
    assert!(p.take_retained().is_empty());
    assert!(p.backends().is_empty());
}

#[test]
fn sessions_with_a_backend_are_listed() {
    let (p, _, id) = granted(Scope::Desktop, Mode::Desktop);
    let listed = p.backends();
    assert_eq!(listed.len(), 1);
    assert_eq!(listed[0].0, id);
}

#[test]
fn pausing_cancels_and_keeps_the_session() {
    let (mut p, owner, id) = granted(Scope::Desktop, Mode::Desktop);
    let permit = p.permit(owner, &id, None).ok().unwrap();
    assert!(permit.cancel.check().is_ok());
    p.pause(&id);
    assert_eq!(permit.cancel.check().unwrap_err().code, ErrorCode::Paused);
    assert_eq!(p.status(owner, &id).unwrap().state, State::Paused);
    p.resume(&id).unwrap();
    p.pause_all();
    assert_eq!(p.status(owner, &id).unwrap().state, State::Paused);
    p.open_ui();
    p.hide_ui();
    assert!(!p.ui_visible);
    assert_eq!(p.status(owner, &id).unwrap().state, State::Paused);
}

#[test]
fn actions_are_checked_against_the_observed_picture() {
    let text = |n: usize| Action::Text { text: "a".repeat(n) };
    assert!(text(65536).validate(1, 1).is_ok());
    assert_eq!(text(65537).validate(1, 1).unwrap_err().message, "文本超过 64 KiB");
    let drag = Action::Drag { from: point(0.0, 0.0), to: point(4.0, 3.0) };
    assert!(drag.validate(5, 4).is_ok());
    assert_eq!(drag.validate(4, 4).unwrap_err().message, "坐标超出观察图像");
    assert!(Action::Click { at: point(-0.5, 0.0), button: Button::Left }
        .validate(5, 5)
        .is_err());
    assert!(Action::Click { at: point(-0.0, 0.0), button: Button::Left }
        .validate(5, 5)
        .is_ok());
    let scroll = |dx: f64| Action::Scroll { at: point(0.0, 0.0), dx: number(dx), dy: number(0.0) };
    assert!(scroll(-2000.0).validate(1, 1).is_ok());
    assert_eq!(scroll(2000.5).validate(1, 1).unwrap_err().message, "滚动范围无效");
    assert!(scroll(f64::INFINITY).validate(1, 1).is_err());
    let key = Action::Key { key: "k".repeat(65), modifiers: vec![] };
    assert_eq!(key.validate(1, 1).unwrap_err().message, "按键参数无效");
    assert_eq!(key.capability(), "key");
    assert!(Action::SetText { node: "n".into(), text: "a".repeat(65537) }
        .validate(1, 1)
        .is_err());
    assert_eq!(Action::Invoke { node: "n".into(), action: "a".into() }.capability(), "invoke");
}

#[test]
fn faults_name_their_code() {
    let codes = [
        (Fault::denied("x"), "PermissionDenied: x"),
        (Fault::invalid("x"), "InvalidRequest: x"),
        (Fault::unavailable("x"), "BackendUnavailable: x"),
        (Fault::stale("x"), "StaleTarget: x"),
        (Fault::unsupported("x"), "Unsupported: x"),
        (Fault::new(ErrorCode::Busy, "x"), "Busy: x"),
        (Fault::new(ErrorCode::Paused, "x"), "Paused: x"),
    ];
    for (fault, line) in codes {
        assert_eq!(fault.describe(), line);
    }
}

#[test]
fn whatever_stops_reaches_running_operations() {
    let stops: [fn(&mut Policy<Fake>, u128, &str); 7] = [
        |p, _, id| p.pause(id),
        |p, _, _| p.pause_all(),
        |p, _, _| p.open_ui(),
        |p, _, _| p.begin_takeover(),
        |p, _, id| p.deny(id, "no".into()),
        |p, owner, id| drop(p.close(owner, id)),
        |p, owner, _| drop(p.disconnect(owner)),
    ];
    for stop in stops {
        let (mut p, owner, id) = granted(Scope::Application, Mode::Isolated);
        let permit = p.permit(owner, &id, None).ok().unwrap();
        p.remember(owner, &id, observation("o", "x"), &permit.cancel).unwrap();
        stop(&mut p, owner, &id);
        assert_eq!(permit.cancel.check().unwrap_err().code, ErrorCode::Paused);
        assert!(p.remember(owner, &id, observation("o", "x"), &permit.cancel).is_err());
    }
}
