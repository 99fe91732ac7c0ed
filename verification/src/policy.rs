//! Authorizations bound to a client connection, their revocation and the life of
//! observations.
use std::sync::atomic::AtomicU64;
use std::sync::{Arc, Mutex};
use vstd::prelude::*;

use crate::backend::{
    cancelled, in_step, may_read, was_made, was_written, Backend, Cancellation,
};
use crate::identifier::{fresh_identifier, identifier};
use crate::model::{
    copy_optional, fault, optional, targets_view, ActRequest, ErrorCode, Fault, FaultView, Mode,
    Observation, ObservationView, Scope, SessionRequest, SessionStatus, State, StatusView, Target,
};
use crate::text::{
    byte_len, bytes, chars_of, control, is_control, is_white_space, same, texts, white_space,
};

verus! {

/// `std::sync::Mutex`, which only guards a backend here and is never opened.
#[verifier::external_type_specification]
#[verifier::external_body]
#[verifier::reject_recursive_types(T)]
pub struct ExMutex<T: ?Sized>(std::sync::Mutex<T>);

/// `std::sync::Mutex::new`: nothing is promised of the value but its type.
pub assume_specification<T>[ std::sync::Mutex::<T>::new ](t: T) -> std::sync::Mutex<T>;

/// A backend that several threads share.
pub type BackendHandle<B> = Arc<Mutex<B>>;

/// Most sessions of one client that are neither closed nor denied.
pub const MAX_SESSIONS: usize = 8;

/// Most bytes in the name of a requested application.
pub const MAX_NAME: usize = 256;

/// An authorization, from its request to its end.
#[verifier::reject_recursive_types(B)]
pub struct Session<B: Backend> {
    pub owner: u128,
    pub status: SessionStatus,
    /// Moves on whenever running operations are cancelled.
    pub generation: u64,
    /// Tells running operations the generation.
    pub signal: Arc<AtomicU64>,
    pub backend: Option<BackendHandle<B>>,
    pub observation: Option<Observation>,
    pub visible_views: usize,
    pub requested_application: Option<String>,
}

/// A session by its values.
#[verifier::ext_equal]
#[verifier::reject_recursive_types(B)]
pub struct SessionView<B: Backend> {
    pub owner: u128,
    pub status: StatusView,
    pub generation: u64,
    pub signal: Arc<AtomicU64>,
    pub backend: Option<BackendHandle<B>>,
    pub observation: Option<ObservationView>,
    pub visible_views: usize,
    pub requested_application: Option<Seq<char>>,
}

/// The value of an optional observation.
pub open spec fn optional_observation(o: Option<Observation>) -> Option<ObservationView> {
    match o {
        Some(v) => Some(v@),
        None => None,
    }
}

impl<B: Backend> View for Session<B> {
    type V = SessionView<B>;

    open spec fn view(&self) -> SessionView<B> {
        SessionView {
            owner: self.owner,
            status: self.status@,
            generation: self.generation,
            signal: self.signal,
            backend: self.backend,
            observation: optional_observation(self.observation),
            visible_views: self.visible_views,
            requested_application: optional(self.requested_application),
        }
    }
}

/// The generation after another.
pub open spec fn next_generation(n: u64) -> u64 {
    if n == u64::MAX {
        0
    } else {
        (n + 1) as u64
    }
}

impl<B: Backend> SessionView<B> {
    pub open spec fn id(self) -> Seq<char> {
        self.status.session_id
    }

    /// Whether the client still holds or awaits authority.
    pub open spec fn live(self) -> bool {
        self.status.state != State::Closed && self.status.state != State::Denied
    }

    pub open spec fn with_state(self, state: State) -> Self {
        SessionView { status: StatusView { state, ..self.status }, ..self }
    }

    pub open spec fn with_message(self, message: Option<Seq<char>>) -> Self {
        SessionView { status: StatusView { message, ..self.status }, ..self }
    }

    pub open spec fn with_observation(self, observation: Option<ObservationView>) -> Self {
        SessionView { observation, ..self }
    }

    /// Running operations cancelled, the observation forgotten, a new state.
    pub open spec fn stopped(self, state: State) -> Self {
        SessionView {
            generation: next_generation(self.generation),
            observation: None,
            ..self.with_state(state)
        }
    }

    /// Paused if it was active, else unchanged.
    pub open spec fn held(self) -> Self {
        if self.status.state == State::Active {
            self.stopped(State::Paused)
        } else {
            self
        }
    }

    /// One visible view fewer; paused if none is left.
    pub open spec fn view_lost(self) -> Self {
        let left = if self.visible_views == 0 {
            0
        } else {
            (self.visible_views - 1) as usize
        };
        let s = SessionView { visible_views: left, ..self };
        if left == 0 {
            s.held()
        } else {
            s
        }
    }

    /// Authority given up: nothing is offered any more.
    pub open spec fn closed(self) -> Self {
        let s = self.stopped(State::Closed);
        SessionView {
            status: StatusView {
                targets: Seq::empty(),
                capabilities: Seq::empty(),
                ..s.status
            },
            backend: None,
            ..s
        }
    }

    /// What stays for the local user when authority ends: an isolated application.
    pub open spec fn leftover(self) -> Option<(Seq<char>, BackendHandle<B>)> {
        if self.status.mode == Mode::Isolated && self.backend is Some {
            Some(
                (
                    match self.status.label {
                        Some(label) => label,
                        None => "独立应用"@,
                    },
                    self.backend->0,
                ),
            )
        } else {
            None
        }
    }
}

/// All sessions by their values.
pub open spec fn views<B: Backend>(sessions: Seq<Session<B>>) -> Seq<SessionView<B>> {
    sessions.map_values(|s: Session<B>| s@)
}

/// The values of a list of named backends.
pub open spec fn named<B: Backend>(v: Seq<(String, BackendHandle<B>)>) -> Seq<
    (Seq<char>, BackendHandle<B>),
> {
    v.map_values(|p: (String, BackendHandle<B>)| (p.0@, p.1))
}

/// Decides what every client may do.
#[verifier::reject_recursive_types(B)]
pub struct Policy<B: Backend> {
    pub sessions: Vec<Session<B>>,
    pub ui_visible: bool,
    pub ui_epoch: u64,
    pub manual_previews: usize,
    pub retained: Vec<(String, BackendHandle<B>)>,
    /// Connected clients.
    pub clients: Vec<u128>,
    /// Sessions whose backend may still be sending input, in the order of their grant.
    pub input_backends: Vec<String>,
}

/// A policy by its values.
#[verifier::ext_equal]
#[verifier::reject_recursive_types(B)]
pub struct PolicyView<B: Backend> {
    pub sessions: Seq<SessionView<B>>,
    pub ui_visible: bool,
    pub ui_epoch: u64,
    pub manual_previews: usize,
    pub retained: Seq<(Seq<char>, BackendHandle<B>)>,
    pub clients: Set<u128>,
    pub input_backends: Seq<Seq<char>>,
}

impl<B: Backend> Policy<B> {
    /// No two sessions share an identifier, and each has told its generation.
    pub open spec fn wf(&self) -> bool {
        self@.distinct() && self@.heard()
    }
}

impl<B: Backend> View for Policy<B> {
    type V = PolicyView<B>;

    open spec fn view(&self) -> PolicyView<B> {
        PolicyView {
            sessions: views(self.sessions@),
            ui_visible: self.ui_visible,
            ui_epoch: self.ui_epoch,
            manual_previews: self.manual_previews,
            retained: named(self.retained@),
            clients: Set::new(|o: u128| self.clients@.contains(o)),
            input_backends: texts(self.input_backends@),
        }
    }
}

/// A session that was just requested.
pub open spec fn requested<B: Backend>(
    owner: u128,
    request: SessionRequest,
    id: Seq<char>,
    signal: Arc<AtomicU64>,
) -> SessionView<B> {
    SessionView {
        owner,
        status: StatusView {
            session_id: id,
            scope: request.scope,
            mode: request.mode,
            state: State::Pending,
            label: None,
            capabilities: Seq::empty(),
            targets: Seq::empty(),
            message: Some("等待本地用户授权"@),
        },
        generation: 0,
        signal,
        backend: None,
        observation: None,
        visible_views: 0,
        requested_application: optional(request.application),
    }
}

/// A name under which an application can be requested: an ID or a display name, no
/// command and no path.
pub open spec fn acceptable_name(name: Seq<char>) -> bool {
    &&& name.len() > 0
    &&& bytes(name) <= MAX_NAME
    &&& !white_space(name[0])
    &&& !white_space(name.last())
    &&& forall|i: int|
        0 <= i < name.len() ==> !control(#[trigger] name[i]) && name[i] != '/' && name[i] != '\\'
}

/// Why a request is refused whatever the sessions are.
pub open spec fn malformed(request: SessionRequest) -> Option<Seq<char>> {
    if !((request.scope == Scope::Application && request.mode == Mode::Isolated) || (request.scope
        == Scope::Desktop && request.mode == Mode::Desktop)) {
        Some("授权范围和模式不匹配"@)
    } else if request.mode == Mode::Isolated {
        match request.application {
            Some(name) if acceptable_name(name@) => None,
            _ => Some(
                "独立实例必须指定 application：已安装应用的名称或 .desktop ID，不能传命令或路径"@,
            ),
        }
    } else if request.application is Some {
        Some("application 参数仅适用于独立实例"@)
    } else {
        None
    }
}

impl<B: Backend> PolicyView<B> {
    /// No two sessions share an identifier.
    pub open spec fn distinct(self) -> bool {
        forall|i: int, j: int|
            #![trigger self.sessions[i], self.sessions[j]]
            0 <= i < j < self.sessions.len() ==> self.sessions[i].id() != self.sessions[j].id()
    }

    /// Whether session number `i` has this identifier.
    pub open spec fn at(self, i: int, id: Seq<char>) -> bool {
        0 <= i < self.sessions.len() && self.sessions[i].id() == id
    }

    pub open spec fn has(self, id: Seq<char>) -> bool {
        exists|i: int| self.at(i, id)
    }

    /// The session with an identifier.
    pub open spec fn get(self, id: Seq<char>) -> SessionView<B> {
        self.sessions[choose|i: int| self.at(i, id)]
    }

    /// Whether a session exists and belongs to a client.
    pub open spec fn owned(self, owner: u128, id: Seq<char>) -> bool {
        self.has(id) && self.get(id).owner == owner
    }

    /// The session with an identifier changed, all others as they are.
    pub open spec fn change(
        self,
        id: Seq<char>,
        f: spec_fn(SessionView<B>) -> SessionView<B>,
    ) -> Self {
        PolicyView {
            sessions: self.sessions.map_values(
                |s: SessionView<B>|
                    if s.id() == id {
                        f(s)
                    } else {
                        s
                    },
            ),
            ..self
        }
    }

    /// Every active session paused.
    pub open spec fn all_held(self) -> Self {
        PolicyView { sessions: self.sessions.map_values(|s: SessionView<B>| s.held()), ..self }
    }

    /// The authorization panel opened.
    pub open spec fn opened(self) -> Self {
        PolicyView {
            ui_visible: true,
            ui_epoch: next_generation(self.ui_epoch),
            ..self.all_held()
        }
    }

    /// Number of sessions of a client that are neither closed nor denied.
    pub open spec fn live_sessions(self, owner: u128) -> nat {
        self.sessions.filter(|s: SessionView<B>| s.owner == owner && s.live()).len()
    }

    /// Why a request for authorization is refused, if it is.
    pub open spec fn request_refusal(self, owner: u128, request: SessionRequest) -> Option<
        FaultView,
    > {
        if !self.clients.contains(owner) {
            Some(fault(ErrorCode::PermissionDenied, "客户端连接已断开"@))
        } else if malformed(request) is Some {
            Some(fault(ErrorCode::InvalidRequest, malformed(request)->0))
        } else if self.live_sessions(owner) >= MAX_SESSIONS {
            Some(fault(ErrorCode::Busy, "每个连接最多八个活动或待处理会话"@))
        } else {
            None
        }
    }

    /// A session added; one that had its identifier is replaced.
    pub open spec fn add(self, session: SessionView<B>) -> Self {
        PolicyView {
            sessions: self.sessions.filter(|s: SessionView<B>| s.id() != session.id()).push(
                session,
            ),
            ..self
        }
    }

    /// A pending session granted: its backend is known, and it is paused.
    pub open spec fn granted(
        self,
        id: Seq<char>,
        label: Seq<char>,
        handle: BackendHandle<B>,
        capabilities: Seq<Seq<char>>,
        targets: Seq<crate::model::TargetView>,
        busy: Seq<Seq<char>>,
    ) -> Self {
        PolicyView {
            input_backends: self.input_backends.filter(|i: Seq<char>| busy.contains(i)).push(id),
            ..self.change(
                id,
                |s: SessionView<B>|
                    SessionView {
                        status: StatusView {
                            label: Some(label),
                            capabilities,
                            targets,
                            state: State::Paused,
                            message: Some("已授权；关闭授权窗口后可在本地恢复"@),
                            ..s.status
                        },
                        backend: Some(handle),
                        ..s
                    },
            )
        }
    }

    /// Whether a pending session was granted as its backend answered: not at all where it
    /// could not name its targets.
    pub open spec fn answered(
        self,
        later: Self,
        id: Seq<char>,
        label: Seq<char>,
        handle: BackendHandle<B>,
        capabilities: Vec<String>,
        targets: Result<Vec<Target>, Fault>,
        busy: Seq<Seq<char>>,
    ) -> bool {
        later == (match targets {
            Ok(list) => self.granted(
                id,
                label,
                handle,
                texts(capabilities@),
                targets_view(list@),
                busy,
            ),
            Err(_) => self,
        })
    }

    /// Every other active desktop session paused.
    pub open spec fn others_held(self, id: Seq<char>) -> Self {
        PolicyView {
            sessions: self.sessions.map_values(
                |s: SessionView<B>|
                    if s.id() != id && s.status.scope == Scope::Desktop {
                        s.held()
                    } else {
                        s
                    },
            ),
            ..self
        }
    }

    /// Why a session cannot be resumed, before anything is changed.
    pub open spec fn resume_obstacle(self, id: Seq<char>) -> Option<FaultView> {
        if self.has(id) && self.get(id).status.mode == Mode::Isolated && self.get(id).visible_views
            == 0 {
            Some(fault(ErrorCode::Paused, "请先打开应用窗口；不允许隐藏运行"@))
        } else if !self.has(id) {
            Some(fault(ErrorCode::StaleTarget, "会话不存在"@))
        } else if self.ui_visible || self.manual_previews > 0 {
            Some(fault(ErrorCode::Paused, "请先关闭授权界面和手动预览窗口"@))
        } else {
            None
        }
    }

    /// Whether a session is granted and paused.
    pub open spec fn resumable(self, id: Seq<char>) -> bool {
        self.has(id) && self.get(id).status.state == State::Paused && self.get(id).backend is Some
    }

    /// The policy after an attempt to resume that met no obstacle.
    pub open spec fn resumed(self, id: Seq<char>) -> Self {
        let quiet = if self.get(id).status.scope == Scope::Desktop {
            self.others_held(id)
        } else {
            self
        };
        if self.resumable(id) {
            quiet.change(id, |s: SessionView<B>| s.with_state(State::Active).with_message(None))
        } else {
            quiet
        }
    }

    /// Why a client may not observe, or act, if it may not.
    pub open spec fn permit_refusal(
        self,
        owner: u128,
        id: Seq<char>,
        action: Option<ActRequest>,
    ) -> Option<FaultView> {
        let s = self.get(id);
        if !self.owned(owner, id) {
            Some(foreign())
        } else if s.status.state != State::Active && s.status.state != State::Paused {
            Some(fault(ErrorCode::PermissionDenied, "尚未获得有效授权"@))
        } else if action is Some && self.action_refusal(s, action->0) is Some {
            self.action_refusal(s, action->0)
        } else if s.backend is None {
            Some(fault(ErrorCode::BackendUnavailable, "后端未连接"@))
        } else {
            None
        }
    }

    /// Why an action is refused on an authorized session, if it is.
    pub open spec fn action_refusal(self, s: SessionView<B>, a: ActRequest) -> Option<FaultView> {
        if s.status.state != State::Active || self.ui_visible || self.manual_previews > 0 {
            Some(fault(ErrorCode::Paused, "自动输入已暂停"@))
        } else if !s.status.capabilities.contains(a.action.capability_name()) {
            Some(fault(ErrorCode::Unsupported, "该后端未开放此操作；不会切换到整机输入"@))
        } else {
            match s.observation {
                None => Some(fault(ErrorCode::StaleTarget, "请先重新观察"@)),
                Some(o) => if o.observation_id != a.observation_id@ || o.target.id != a.target@ {
                    Some(fault(ErrorCode::StaleTarget, "观察或目标已经失效"@))
                } else {
                    match a.action.objection(o.target.width, o.target.height) {
                        Some(message) => Some(fault(ErrorCode::InvalidRequest, message)),
                        None => None,
                    }
                },
            }
        }
    }

    /// Why an observation is not kept, if it is not.
    pub open spec fn remember_refusal(
        self,
        owner: u128,
        id: Seq<char>,
        cancelled: Option<FaultView>,
    ) -> Option<FaultView> {
        let s = self.get(id);
        if !self.owned(owner, id) {
            Some(foreign())
        } else if cancelled is Some {
            cancelled
        } else if s.status.state != State::Active && s.status.state != State::Paused {
            Some(fault(ErrorCode::PermissionDenied, "授权已撤销"@))
        } else {
            None
        }
    }

    /// Whether a session waits for the local user to decide.
    pub open spec fn pending(self, id: Seq<char>) -> bool {
        self.has(id) && self.get(id).status.state == State::Pending
    }

    /// Whether a permit is what a session allows.
    pub open spec fn allows(self, id: Seq<char>, permit: Permit<B>) -> bool {
        let s = self.get(id);
        &&& s.backend == Some(permit.backend)
        &&& permit.cancel.generation == s.signal
        &&& permit.cancel.captured == s.generation
        &&& optional_observation(permit.observation) == s.observation
    }

    /// Whether every session that is in another generation later has told so to the counter
    /// that its running operations watch.
    pub open spec fn told(self, later: Self) -> bool {
        forall|i: int|
            #![trigger self.sessions[i]]
            #![trigger later.sessions[i]]
            0 <= i < self.sessions.len() && i < later.sessions.len()
                && later.sessions[i].generation != self.sessions[i].generation ==> was_written(
                *later.sessions[i].signal,
                later.sessions[i].generation,
            )
    }

    /// Whether the counter of every session was told or made with the session's generation.
    pub open spec fn heard(self) -> bool {
        forall|i: int|
            0 <= i < self.sessions.len() ==> in_step(
                *(#[trigger] self.sessions[i]).signal,
                self.sessions[i].generation,
            )
    }

    /// A session closed on this side; an isolated application stays for the local user.
    pub open spec fn closed(self, id: Seq<char>) -> Self {
        if self.has(id) {
            PolicyView {
                retained: match self.get(id).leftover() {
                    Some(left) => self.retained.push(left),
                    None => self.retained,
                },
                ..self.change(id, |s: SessionView<B>| s.closed())
            }
        } else {
            self
        }
    }

    /// Sessions of a client.
    pub open spec fn sessions_of(self, owner: u128) -> Seq<SessionView<B>> {
        self.sessions.filter(|s: SessionView<B>| s.owner == owner)
    }

    /// Every session of a client closed.
    pub open spec fn left(self, owner: u128) -> Self {
        PolicyView {
            sessions: self.sessions.map_values(
                |s: SessionView<B>|
                    if s.owner == owner {
                        s.closed()
                    } else {
                        s
                    },
            ),
            ..self
        }
    }

    /// Everything of a client gone; its isolated applications stay for the local user.
    pub open spec fn disconnected(self, owner: u128) -> Self {
        PolicyView {
            sessions: self.sessions.filter(|s: SessionView<B>| s.owner != owner),
            retained: self.retained + self.sessions_of(owner).filter_map(
                |s: SessionView<B>| s.leftover(),
            ),
            clients: self.clients.remove(owner),
            ..self
        }
    }
}

/// Leave to use a backend once, until it is cancelled.
#[verifier::reject_recursive_types(B)]
pub struct Permit<B: Backend> {
    pub backend: BackendHandle<B>,
    pub cancel: Cancellation,
    pub observation: Option<Observation>,
}

/// Whether a backend may say that it offers these capabilities and then these targets.
pub open spec fn offers<B: Backend>(
    backend: B,
    capabilities: Vec<String>,
    targets: Result<Vec<Target>, Fault>,
) -> bool {
    &&& call_ensures(B::capabilities, (&backend,), capabilities)
    &&& exists|b: &mut B|
        *b == backend && #[trigger] call_ensures(B::targets, (b,), targets)
}

/// Asks a backend what it offers.
pub fn ask<B: Backend>(backend: &mut B) -> (r: (Vec<String>, Result<Vec<Target>, Fault>))
    ensures
        offers(*old(backend), r.0, r.1),
        exists|b: &mut B|
            *b == *old(backend) && *final(b) == *final(backend) && #[trigger] call_ensures(
                B::targets,
                (b,),
                r.1,
            ),
{
    let capabilities = backend.capabilities();
    assert(call_ensures(B::capabilities, (&*old(backend),), capabilities));
    let targets = backend.targets();
    assert(exists|b: &mut B|
        *b == *old(backend) && #[trigger] call_ensures(B::targets, (b,), targets));
    (capabilities, targets)
}

/// Whether a handle was made for a backend: `Mutex::new` of it may give what the handle shares.
pub open spec fn shares<B: Backend>(handle: BackendHandle<B>, backend: B) -> bool {
    call_ensures(std::sync::Mutex::<B>::new, (backend,), *handle)
}

/// Makes a handle for a backend.
pub fn share<B: Backend>(backend: B) -> (r: BackendHandle<B>)
    ensures
        shares(r, backend),
{
    let ghost given = backend;
    let guarded = Mutex::new(backend);
    assert(call_ensures(std::sync::Mutex::<B>::new, (given,), guarded));
    Arc::new(guarded)
}

impl<B: Backend> Permit<B> {
    /// Whether the counter that this permit watches was told to leave its generation. A check
    /// that reads what was told fails.
    pub open spec fn revoked(self) -> bool {
        exists|value: u64|
            value != self.cancel.captured && #[trigger] was_written(*self.cancel.generation, value)
    }
}

proof fn lemma_unique<B: Backend>(p: PolicyView<B>, id: Seq<char>, i: int)
    requires
        p.distinct(),
        p.at(i, id),
    ensures
        p.has(id),
        p.get(id) == p.sessions[i],
        forall|j: int| p.at(j, id) ==> j == i,
{
    let k = choose|k: int| p.at(k, id);
    assert(p.at(k, id));
    assert forall|j: int| p.at(j, id) implies j == i by {
        if j < i {
            assert(p.sessions[j].id() != p.sessions[i].id());
        } else if i < j {
            assert(p.sessions[i].id() != p.sessions[j].id());
        }
    }
}

/// Changes that keep identifiers keep them distinct.
proof fn lemma_distinct_kept<B: Backend>(p: PolicyView<B>, q: PolicyView<B>)
    requires
        p.distinct(),
        p.sessions.len() == q.sessions.len(),
        forall|i: int| 0 <= i < p.sessions.len() ==> (#[trigger] q.sessions[i]).id() == p.sessions[i].id(),
    ensures
        q.distinct(),
{
}

/// One session replaced by its changed self is the change by identifier.
proof fn lemma_change_at<B: Backend>(
    p: PolicyView<B>,
    id: Seq<char>,
    i: int,
    f: spec_fn(SessionView<B>) -> SessionView<B>,
)
    requires
        p.distinct(),
        p.at(i, id),
        f(p.sessions[i]).id() == id,
    ensures
        p.change(id, f).sessions == p.sessions.update(i, f(p.sessions[i])),
        p.change(id, f).distinct(),
{
    lemma_unique(p, id, i);
    assert forall|j: int| 0 <= j < p.sessions.len() implies #[trigger] p.change(id, f).sessions[j]
        == p.sessions.update(i, f(p.sessions[i]))[j] by {
        if p.sessions[j].id() == id {
            assert(p.at(j, id));
        }
    }
    assert(p.change(id, f).sessions =~= p.sessions.update(i, f(p.sessions[i])));
    lemma_distinct_kept(p, p.change(id, f));
}

impl<B: Backend> Policy<B> {
    /// A policy without clients or sessions.
    pub fn new() -> (r: Self)
        ensures
            r.wf(),
            r@.sessions == Seq::<SessionView<B>>::empty(),
            !r@.ui_visible,
            r@.ui_epoch == 0,
            r@.manual_previews == 0,
            r@.retained == Seq::<(Seq<char>, BackendHandle<B>)>::empty(),
            r@.clients == Set::<u128>::empty(),
            r@.input_backends == Seq::<Seq<char>>::empty(),
    {
        Policy {
            sessions: Vec::new(),
            ui_visible: false,
            ui_epoch: 0,
            manual_previews: 0,
            retained: Vec::new(),
            clients: Vec::new(),
            input_backends: Vec::new(),
        }
    }

    fn connected(&self, owner: u128) -> (r: bool)
        ensures
            r == self@.clients.contains(owner),
    {
        let mut i: usize = 0;
        while i < self.clients.len()
            invariant
                i <= self.clients@.len(),
                forall|j: int| 0 <= j < i ==> self.clients@[j] != owner,
            decreases self.clients@.len() - i,
        {
            if self.clients[i] == owner {
                return true;
            }
            i = i + 1;
        }
        false
    }

    /// A client connected.
    pub fn register(&mut self, owner: u128)
        ensures
            final(self)@ == (PolicyView { clients: old(self)@.clients.insert(owner), ..old(self)@ }),
    {
        let ghost before = self.clients@;
        self.clients.push(owner);
        proof {
            assert(self.clients@[before.len() as int] == owner);
            assert forall|o: u128|
                self@.clients.contains(o) == old(self)@.clients.insert(owner).contains(o) by {
                if before.contains(o) {
                    let k = choose|k: int| 0 <= k < before.len() && before[k] == o;
                    assert(self.clients@[k] == o);
                }
                if self.clients@.contains(o) && o != owner {
                    let k = choose|k: int| 0 <= k < self.clients@.len() && self.clients@[k] == o;
                    assert(before[k] == o);
                }
            }
            assert(self@.clients =~= old(self)@.clients.insert(owner));
        }
    }

    /// Place of a session.
    fn position(&self, id: &str) -> (r: Option<usize>)
        ensures
            match r {
                Some(i) => self@.at(i as int, id@),
                None => !self@.has(id@),
            },
    {
        let mut i: usize = 0;
        while i < self.sessions.len()
            invariant
                i <= self.sessions@.len(),
                forall|j: int| 0 <= j < i ==> !self@.at(j, id@),
            decreases self.sessions@.len() - i,
        {
            if same(self.sessions[i].status.session_id.as_str(), id) {
                return Some(i);
            }
            assert(!self@.at(i as int, id@));
            i = i + 1;
        }
        None
    }

    /// The session with an identifier.
    pub fn session(&self, id: &str) -> (r: Option<&Session<B>>)
        requires
            self.wf(),
        ensures
            match r {
                Some(s) => self@.has(id@) && s@ == self@.get(id@),
                None => !self@.has(id@),
            },
    {
        match self.position(id) {
            Some(i) => {
                proof {
                    lemma_unique(self@, id@, i as int);
                }
                Some(&self.sessions[i])
            },
            None => None,
        }
    }

    fn stop(s: &mut Session<B>, state: State)
        ensures
            final(s)@ == old(s)@.stopped(state),
            was_written(*final(s).signal, final(s).generation),
    {
        let next: u64 = if s.generation == u64::MAX {
            0
        } else {
            s.generation + 1
        };
        s.generation = next;
        s.signal.store(next, std::sync::atomic::Ordering::SeqCst);
        assert(was_written(*s.signal, next));
        s.observation = None;
        s.status.state = state;
    }

    /// Pauses every active session and cancels what it is doing.
    pub fn pause_all(&mut self)
        requires
            old(self).wf(),
        ensures
            final(self)@ == old(self)@.all_held(),
            old(self)@.told(final(self)@),
            final(self).wf(),
    {
        let ghost before = self@;
        let mut i: usize = 0;
        while i < self.sessions.len()
            invariant
                i <= self.sessions@.len(),
                before.distinct(),
                self@.sessions.len() == before.sessions.len(),
                self@ == (PolicyView { sessions: self@.sessions, ..before }),
                before.told(self@),
                forall|j: int| 0 <= j < i ==> self@.sessions[j] == #[trigger] before.sessions[j].held(),
                forall|j: int|
                    i <= j < before.sessions.len() ==> self@.sessions[j] == #[trigger] before.sessions[j],
            decreases self.sessions@.len() - i,
        {
            if self.sessions[i].status.state == State::Active {
                Self::stop(&mut self.sessions[i], State::Paused);
            }
            i = i + 1;
        }
        proof {
            assert(self@.sessions =~= before.all_held().sessions);
            lemma_distinct_kept(before, self@);
        }
    }

    /// Opens the authorization panel: nothing acts on its own while it is open.
    pub fn open_ui(&mut self)
        requires
            old(self).wf(),
        ensures
            final(self)@ == old(self)@.opened(),
            old(self)@.told(final(self)@),
            final(self).wf(),
    {
        self.pause_all();
        self.ui_visible = true;
        self.ui_epoch = if self.ui_epoch == u64::MAX {
            0
        } else {
            self.ui_epoch + 1
        };
    }

    /// Hides the authorization panel; nothing resumes by that.
    pub fn hide_ui(&mut self)
        ensures
            final(self)@ == (PolicyView { ui_visible: false, ..old(self)@ }),
    {
        self.ui_visible = false;
    }

    /// Refuses a request, or ends a session, with a message.
    pub fn deny(&mut self, id: &str, message: String)
        requires
            old(self).wf(),
        ensures
            final(self)@ == old(self)@.change(
                id@,
                |s: SessionView<B>| s.stopped(State::Denied).with_message(Some(message@)),
            ),
            old(self)@.told(final(self)@),
            final(self).wf(),
    {
        let ghost before = self@;
        let ghost f = |s: SessionView<B>| s.stopped(State::Denied).with_message(Some(message@));
        match self.position(id) {
            Some(i) => {
                Self::stop(&mut self.sessions[i], State::Denied);
                self.sessions[i].status.message = Some(message);
                proof {
                    lemma_change_at(before, id@, i as int, f);
                    assert(self@.sessions =~= before.change(id@, f).sessions);
                }
            },
            None => {
                proof {
                    lemma_no_change(before, id@, f);
                }
            },
        }
    }

    /// Pauses a session if it is active.
    pub fn pause(&mut self, id: &str)
        requires
            old(self).wf(),
        ensures
            final(self)@ == old(self)@.change(id@, |s: SessionView<B>| s.held()),
            old(self)@.told(final(self)@),
            final(self).wf(),
    {
        let ghost before = self@;
        let ghost f = |s: SessionView<B>| s.held();
        match self.position(id) {
            Some(i) => {
                if self.sessions[i].status.state == State::Active {
                    Self::stop(&mut self.sessions[i], State::Paused);
                }
                proof {
                    lemma_change_at(before, id@, i as int, f);
                    assert(self@.sessions =~= before.change(id@, f).sessions);
                }
            },
            None => {
                proof {
                    lemma_no_change(before, id@, f);
                }
            },
        }
    }

    /// A view of the application became visible.
    pub fn view_opened(&mut self, id: &str)
        requires
            old(self).wf(),
            old(self)@.has(id@) ==> old(self)@.get(id@).visible_views < usize::MAX,
        ensures
            final(self)@ == old(self)@.change(
                id@,
                |s: SessionView<B>|
                    SessionView { visible_views: (s.visible_views + 1) as usize, ..s },
            ),
            final(self).wf(),
    {
        let ghost before = self@;
        let ghost f = |s: SessionView<B>|
            SessionView { visible_views: (s.visible_views + 1) as usize, ..s };
        match self.position(id) {
            Some(i) => {
                proof {
                    lemma_unique(before, id@, i as int);
                }
                let count: usize = self.sessions[i].visible_views;
                self.sessions[i].visible_views = count + 1;
                proof {
                    lemma_change_at(before, id@, i as int, f);
                    assert(self@.sessions =~= before.change(id@, f).sessions);
                }
            },
            None => {
                proof {
                    lemma_no_change(before, id@, f);
                }
            },
        }
    }

    /// A view of the application was hidden; without any, the session pauses.
    pub fn view_closed(&mut self, id: &str)
        requires
            old(self).wf(),
        ensures
            final(self)@ == old(self)@.change(id@, |s: SessionView<B>| s.view_lost()),
            old(self)@.told(final(self)@),
            final(self).wf(),
    {
        let ghost before = self@;
        let ghost f = |s: SessionView<B>| s.view_lost();
        match self.position(id) {
            Some(i) => {
                let count: usize = self.sessions[i].visible_views;
                let left: usize = if count == 0 {
                    0
                } else {
                    count - 1
                };
                self.sessions[i].visible_views = left;
                if left == 0 && self.sessions[i].status.state == State::Active {
                    Self::stop(&mut self.sessions[i], State::Paused);
                }
                proof {
                    lemma_change_at(before, id@, i as int, f);
                    assert(self@.sessions =~= before.change(id@, f).sessions);
                }
            },
            None => {
                proof {
                    lemma_no_change(before, id@, f);
                }
            },
        }
    }
}

/// Without the only element that fails a test, what is left passes it.
proof fn lemma_filter_one<A>(s: Seq<A>, p: spec_fn(A) -> bool, i: int)
    requires
        0 <= i < s.len(),
        !p(s[i]),
        forall|j: int| 0 <= j < s.len() && j != i ==> p(#[trigger] s[j]),
    ensures
        s.filter(p) == s.remove(i),
    decreases s.len(),
{
    reveal(Seq::filter);
    let rest = s.drop_last();
    if i == s.len() - 1 {
        lemma_filter_all(rest, p);
        assert(s.remove(i) =~= rest);
    } else {
        lemma_filter_one(rest, p, i);
        assert(s.remove(i) =~= rest.remove(i).push(s.last()));
    }
}

/// A test that everything passes leaves everything.
proof fn lemma_filter_all<A>(s: Seq<A>, p: spec_fn(A) -> bool)
    requires
        forall|j: int| 0 <= j < s.len() ==> p(#[trigger] s[j]),
    ensures
        s.filter(p) == s,
    decreases s.len(),
{
    reveal(Seq::filter);
    if s.len() > 0 {
        lemma_filter_all(s.drop_last(), p);
        assert(s =~= s.drop_last().push(s.last()));
    }
}

/// One more element in what is filtered.
proof fn lemma_filter_step<A>(s: Seq<A>, p: spec_fn(A) -> bool, i: int)
    requires
        0 <= i < s.len(),
    ensures
        s.take(i + 1).filter(p) == (if p(s[i]) {
            s.take(i).filter(p).push(s[i])
        } else {
            s.take(i).filter(p)
        }),
{
    reveal(Seq::filter);
    assert(s.take(i + 1).drop_last() =~= s.take(i));
}

/// Whether a request is well formed, whatever the sessions are.
fn check_form(request: &SessionRequest) -> (r: Result<(), Fault>)
    ensures
        match malformed(*request) {
            None => r is Ok,
            Some(message) => r matches Err(e) && e.says(ErrorCode::InvalidRequest, message),
        },
{
    match (request.scope, request.mode) {
        (Scope::Application, Mode::Isolated) => {
            match &request.application {
                Some(name) => {
                    if is_acceptable_name(name.as_str()) {
                        return Ok(());
                    }
                },
                None => {},
            }
            Err(
                Fault::invalid(
                    "独立实例必须指定 application：已安装应用的名称或 .desktop ID，不能传命令或路径",
                ),
            )
        },
        (Scope::Desktop, Mode::Desktop) => {
            if request.application.is_some() {
                Err(Fault::invalid("application 参数仅适用于独立实例"))
            } else {
                Ok(())
            }
        },
        _ => Err(Fault::invalid("授权范围和模式不匹配")),
    }
}

fn is_acceptable_name(name: &str) -> (r: bool)
    ensures
        r == acceptable_name(name@),
{
    let all = chars_of(name);
    let n: usize = all.len();
    if n == 0 || byte_len(name) > MAX_NAME || is_white_space(all[0]) || is_white_space(all[n - 1]) {
        return false;
    }
    let mut i: usize = 0;
    while i < n
        invariant
            i <= n,
            n == all@.len(),
            all@ == name@,
            forall|j: int|
                0 <= j < i ==> !control(#[trigger] name@[j]) && name@[j] != '/' && name@[j] != '\\',
        decreases n - i,
    {
        let c = all[i];
        if is_control(c) || c == '/' || c == '\\' {
            assert(name@[i as int] == c);
            return false;
        }
        i = i + 1;
    }
    true
}

impl<B: Backend> Policy<B> {
    fn live_count(&self, owner: u128) -> (r: usize)
        ensures
            r == self@.live_sessions(owner),
    {
        let ghost p = |s: SessionView<B>| s.owner == owner && s.live();
        let mut count: usize = 0;
        let mut i: usize = 0;
        assert(self@.sessions.take(0).filter(p).len() == 0) by {
            reveal(Seq::filter);
        }
        while i < self.sessions.len()
            invariant
                i <= self.sessions@.len(),
                count <= i,
                count == self@.sessions.take(i as int).filter(p).len(),
                p == (|s: SessionView<B>| s.owner == owner && s.live()),
            decreases self.sessions@.len() - i,
        {
            proof {
                lemma_filter_step(self@.sessions, p, i as int);
            }
            let s = &self.sessions[i];
            assert(self@.sessions[i as int] == s@);
            let live = match s.status.state {
                State::Closed => false,
                State::Denied => false,
                _ => true,
            };
            if s.owner == owner && live {
                count = count + 1;
            }
            i = i + 1;
        }
        assert(self@.sessions.take(i as int) =~= self@.sessions);
        count
    }

    /// Records a request for authorization under a given identifier. It reveals and
    /// permits nothing: the session is pending until the local user decides.
    pub fn request_as(&mut self, owner: u128, request: SessionRequest, id: String) -> (r: Result<
        SessionStatus,
        Fault,
    >)
        requires
            old(self).wf(),
        ensures
            final(self).wf(),
            match old(self)@.request_refusal(owner, request) {
                Some(f) => {
                    &&& r matches Err(e)
                    &&& e@ == f
                    &&& final(self)@ == old(self)@
                },
                None => {
                    &&& r matches Ok(status)
                    &&& exists|signal: Arc<AtomicU64>| {
                        let s = #[trigger] requested::<B>(owner, request, id@, signal);
                        &&& status@ == s.status
                        &&& final(self)@ == old(self)@.opened().add(s)
                        &&& was_made(*signal, 0)
                    }
                    &&& old(self)@.told(old(self)@.opened())
                },
            },
    {
        if !self.connected(owner) {
            return Err(Fault::denied("客户端连接已断开"));
        }
        match check_form(&request) {
            Err(e) => {
                return Err(e);
            },
            Ok(()) => {},
        }
        if self.live_count(owner) >= MAX_SESSIONS {
            return Err(Fault::new(ErrorCode::Busy, "每个连接最多八个活动或待处理会话"));
        }
        self.open_ui();
        let ghost opened = self@;
        let ghost other = |s: SessionView<B>| s.id() != id@;
        let status = SessionStatus {
            session_id: id.clone(),
            scope: request.scope,
            mode: request.mode,
            state: State::Pending,
            label: None,
            capabilities: Vec::new(),
            targets: Vec::new(),
            message: Some("等待本地用户授权".to_owned()),
        };
        let answer = status.clone();
        let counter = AtomicU64::new(0);
        assert(was_made(counter, 0));
        let session = Session {
            owner,
            status,
            generation: 0,
            signal: Arc::new(counter),
            backend: None,
            observation: None,
            visible_views: 0,
            requested_application: copy_optional(&request.application),
        };
        match self.position(id.as_str()) {
            Some(i) => {
                proof {
                    lemma_unique(opened, id@, i as int);
                    assert forall|j: int| 0 <= j < opened.sessions.len() && j != i implies other(
                        #[trigger] opened.sessions[j],
                    ) by {
                        if opened.sessions[j].id() == id@ {
                            assert(opened.at(j, id@));
                        }
                    }
                    lemma_filter_one(opened.sessions, other, i as int);
                }
                self.sessions.remove(i);
                assert(self@.sessions =~= opened.sessions.remove(i as int));
            },
            None => {
                proof {
                    assert forall|j: int| 0 <= j < opened.sessions.len() implies other(
                        #[trigger] opened.sessions[j],
                    ) by {
                        if opened.sessions[j].id() == id@ {
                            assert(opened.at(j, id@));
                        }
                    }
                    lemma_filter_all(opened.sessions, other);
                }
            },
        }
        proof {
            let s = requested::<B>(owner, request, id@, session.signal);
            assert(session@.status =~= s.status);
            assert(session@ =~= s);
            assert(opened.add(s).sessions =~= self@.sessions.push(s));
        }
        let ghost kept = self@;
        self.sessions.push(session);
        proof {
            let s = requested::<B>(owner, request, id@, session.signal);
            assert(self@.sessions =~= kept.sessions.push(s));
            assert(self@ =~= opened.add(s));
            lemma_filter_passes(opened.sessions, other);
            lemma_filter_distinct(opened, other);
        }
        Ok(answer)
    }

    /// Records a request for authorization.
    pub fn request(&mut self, owner: u128, request: SessionRequest) -> (r: Result<
        SessionStatus,
        Fault,
    >)
        requires
            old(self).wf(),
        ensures
            final(self).wf(),
            match old(self)@.request_refusal(owner, request) {
                Some(f) => {
                    &&& r matches Err(e)
                    &&& e@ == f
                    &&& final(self)@ == old(self)@
                },
                None => {
                    &&& r matches Ok(status)
                    &&& identifier(status.session_id@)
                    &&& exists|signal: Arc<AtomicU64>| {
                        let s = #[trigger] requested::<B>(
                            owner,
                            request,
                            status.session_id@,
                            signal,
                        );
                        &&& status@ == s.status
                        &&& final(self)@ == old(self)@.opened().add(s)
                        &&& was_made(*signal, 0)
                    }
                    &&& old(self)@.told(old(self)@.opened())
                },
            },
    {
        let id = fresh_identifier();
        self.request_as(owner, request, id)
    }
}

/// Leave refused: the session is not there or not this client's.
pub open spec fn foreign() -> FaultView {
    fault(ErrorCode::PermissionDenied, "会话不存在或不属于当前连接"@)
}

/// Whether a text is among others.
fn listed(list: &Vec<String>, text: &str) -> (r: bool)
    ensures
        r == texts(list@).contains(text@),
{
    let mut i: usize = 0;
    while i < list.len()
        invariant
            i <= list@.len(),
            forall|j: int| 0 <= j < i ==> texts(list@)[j] != text@,
        decreases list@.len() - i,
    {
        if same(list[i].as_str(), text) {
            assert(texts(list@)[i as int] == text@);
            return true;
        }
        i = i + 1;
    }
    false
}

/// The first handle listed for a session.
pub open spec fn lease_of<B: Backend>(
    leases: Seq<(Seq<char>, BackendHandle<B>)>,
    id: Seq<char>,
) -> Option<BackendHandle<B>>
    decreases leases.len(),
{
    if leases.len() == 0 {
        None
    } else if leases[0].0 == id {
        Some(leases[0].1)
    } else {
        lease_of(leases.drop_first(), id)
    }
}

fn find_lease<B: Backend>(leases: &Vec<(String, BackendHandle<B>)>, id: &str) -> (r: Option<
    BackendHandle<B>,
>)
    ensures
        r == lease_of(named(leases@), id@),
{
    let mut i: usize = 0;
    assert(named(leases@).skip(0) =~= named(leases@));
    while i < leases.len()
        invariant
            i <= leases@.len(),
            lease_of(named(leases@), id@) == lease_of(named(leases@).skip(i as int), id@),
        decreases leases@.len() - i,
    {
        let ghost rest = named(leases@).skip(i as int);
        assert(rest.drop_first() =~= named(leases@).skip(i + 1));
        assert(rest[0] == named(leases@)[i as int]);
        if same(leases[i].0.as_str(), id) {
            return Some(leases[i].1.clone());
        }
        i = i + 1;
    }
    None
}

impl<B: Backend> Policy<B> {
    /// Place of a session that belongs to a client.
    fn owned(&self, owner: u128, id: &str) -> (r: Result<usize, Fault>)
        requires
            self.wf(),
        ensures
            match r {
                Ok(i) => self@.owned(owner, id@) && self@.at(i as int, id@) && self@.get(id@)
                    == self@.sessions[i as int],
                Err(e) => !self@.owned(owner, id@) && e@ == foreign(),
            },
    {
        match self.position(id) {
            Some(i) => {
                proof {
                    lemma_unique(self@, id@, i as int);
                }
                if self.sessions[i].owner == owner {
                    Ok(i)
                } else {
                    Err(Fault::denied("会话不存在或不属于当前连接"))
                }
            },
            None => Err(Fault::denied("会话不存在或不属于当前连接")),
        }
    }

    /// What a client may know of its session.
    pub fn status(&self, owner: u128, id: &str) -> (r: Result<SessionStatus, Fault>)
        requires
            self.wf(),
        ensures
            match r {
                Ok(status) => self@.owned(owner, id@) && status@ == self@.get(id@).status,
                Err(e) => !self@.owned(owner, id@) && e@ == foreign(),
            },
    {
        match self.owned(owner, id) {
            Ok(i) => Ok(self.sessions[i].status.clone()),
            Err(e) => Err(e),
        }
    }

    /// The handles, among those that are still alive, of all backends that may be sending
    /// input: also of a disconnected session whose last input is being cleaned up.
    pub fn input_handles(&self, leases: &Vec<(String, BackendHandle<B>)>) -> (r: Vec<
        BackendHandle<B>,
    >)
        ensures
            r@ == self@.input_backends.filter_map(|id: Seq<char>| lease_of(named(leases@), id)),
    {
        let ghost f = |id: Seq<char>| lease_of(named(leases@), id);
        let mut out: Vec<BackendHandle<B>> = Vec::new();
        let mut i: usize = 0;
        while i < self.input_backends.len()
            invariant
                i <= self.input_backends@.len(),
                f == (|id: Seq<char>| lease_of(named(leases@), id)),
                out@ == self@.input_backends.take(i as int).filter_map(f),
            decreases self.input_backends@.len() - i,
        {
            proof {
                self@.input_backends.lemma_filter_map_take_succ(f, i as int);
                assert(self@.input_backends[i as int] == self.input_backends@[i as int]@);
            }
            match find_lease(leases, self.input_backends[i].as_str()) {
                Some(handle) => {
                    out.push(handle);
                },
                None => {},
            }
            i = i + 1;
        }
        assert(self@.input_backends.take(i as int) =~= self@.input_backends);
        out
    }

    /// Records what the local user granted, once the backend has said what it offers.
    /// `busy` lists the sessions whose backend is still held by someone.
    pub fn grant_prepared(
        &mut self,
        id: &str,
        label: String,
        handle: BackendHandle<B>,
        capabilities: Vec<String>,
        targets: Result<Vec<Target>, Fault>,
        busy: &Vec<String>,
    ) -> (r: Result<(), Fault>)
        requires
            old(self).wf(),
        ensures
            final(self).wf(),
            if !old(self)@.pending(id@) {
                &&& r matches Err(e)
                &&& e.says(ErrorCode::StaleTarget, "申请已结束"@)
                &&& final(self)@ == old(self)@
            } else {
                match targets {
                    Err(f) => {
                        &&& r matches Err(e)
                        &&& e@ == f@
                        &&& final(self)@ == old(self)@
                    },
                    Ok(list) => {
                        &&& r is Ok
                        &&& final(self)@ == old(self)@.granted(
                            id@,
                            label@,
                            handle,
                            texts(capabilities@),
                            targets_view(list@),
                            texts(busy@),
                        )
                    },
                }
            },
    {
        let ghost before = self@;
        let i: usize = match self.position(id) {
            Some(i) => i,
            None => {
                return Err(Fault::stale("申请已结束"));
            },
        };
        proof {
            lemma_unique(before, id@, i as int);
        }
        match self.sessions[i].status.state {
            State::Pending => {},
            _ => {
                return Err(Fault::stale("申请已结束"));
            },
        }
        let list = match targets {
            Ok(list) => list,
            Err(e) => {
                return Err(e);
            },
        };
        let ghost f = |s: SessionView<B>|
            SessionView {
                status: StatusView {
                    label: Some(label@),
                    capabilities: texts(capabilities@),
                    targets: targets_view(list@),
                    state: State::Paused,
                    message: Some("已授权；关闭授权窗口后可在本地恢复"@),
                    ..s.status
                },
                backend: Some(handle),
                ..s
            };
        self.sessions[i].status.label = Some(label);
        self.sessions[i].status.capabilities = capabilities;
        self.sessions[i].status.targets = list;
        self.sessions[i].status.state = State::Paused;
        self.sessions[i].status.message = Some(
            "已授权；关闭授权窗口后可在本地恢复".to_owned(),
        );
        self.sessions[i].backend = Some(handle);
        let ghost still = |i: Seq<char>| texts(busy@).contains(i);
        let ghost input = self@.input_backends;
        let mut kept: Vec<String> = Vec::new();
        let mut k: usize = 0;
        assert(input.take(0).filter(still) =~= Seq::empty()) by {
            reveal(Seq::filter);
        }
        while k < self.input_backends.len()
            invariant
                k <= self.input_backends@.len(),
                input == texts(self.input_backends@),
                still == (|i: Seq<char>| texts(busy@).contains(i)),
                texts(kept@) == input.take(k as int).filter(still),
            decreases self.input_backends@.len() - k,
        {
            let ghost was = kept@;
            proof {
                lemma_filter_step(input, still, k as int);
            }
            if listed(busy, self.input_backends[k].as_str()) {
                kept.push(self.input_backends[k].clone());
                assert(texts(kept@) =~= texts(was).push(input[k as int]));
            }
            k = k + 1;
        }
        assert(input.take(k as int) =~= input);
        let ghost was = kept@;
        kept.push(id.to_owned());
        assert(texts(kept@) =~= texts(was).push(id@));
        self.input_backends = kept;
        proof {
            lemma_change_at(before, id@, i as int, f);
            assert(self@.sessions =~= before.change(id@, f).sessions);
        }
        Ok(())
    }

    /// Grants a pending session its backend. Only the local user can cause this; no
    /// request of a client does.
    pub fn grant(&mut self, id: &str, label: String, backend: B, busy: &Vec<String>) -> (r: Result<
        (),
        Fault,
    >)
        requires
            old(self).wf(),
        ensures
            final(self).wf(),
            if !old(self)@.pending(id@) {
                &&& r matches Err(e)
                &&& e.says(ErrorCode::StaleTarget, "申请已结束"@)
                &&& final(self)@ == old(self)@
            } else {
                exists|
                    handle: BackendHandle<B>,
                    capabilities: Vec<String>,
                    targets: Result<Vec<Target>, Fault>,
                |
                    {
                        &&& offers(backend, capabilities, targets)
                        &&& exists|b: &mut B|
                            *b == backend && #[trigger] call_ensures(B::targets, (b,), targets)
                                && shares(handle, *final(b))
                        &&& #[trigger] old(self)@.answered(
                            final(self)@,
                            id@,
                            label@,
                            handle,
                            capabilities,
                            targets,
                            texts(busy@),
                        )
                        &&& match targets {
                            Ok(_) => r is Ok,
                            Err(f) => r matches Err(e) && e@ == f@,
                        }
                    }
            },
    {
        let ghost given = backend;
        let mut backend = backend;
        let pending = match self.session(id) {
            Some(session) => {
                match session.status.state {
                    State::Pending => true,
                    _ => false,
                }
            },
            None => false,
        };
        if !pending {
            return Err(Fault::stale("申请已结束"));
        }
        let (capabilities, targets) = ask(&mut backend);
        let handle = share(backend);
        let ghost (c, t) = (capabilities, targets);
        let r = self.grant_prepared(id, label, handle.clone(), capabilities, targets, busy);
        proof {
            assert(offers(given, c, t));
            assert(old(self)@.answered(self@, id@, label@, handle, c, t, texts(busy@)));
        }
        r
    }

    /// Lets a paused session act again. Only the local user can cause this. Of all desktop
    /// sessions at most this one stays active.
    pub fn resume(&mut self, id: &str) -> (r: Result<(), Fault>)
        requires
            old(self).wf(),
        ensures
            final(self).wf(),
            match old(self)@.resume_obstacle(id@) {
                Some(f) => {
                    &&& r matches Err(e)
                    &&& e@ == f
                    &&& final(self)@ == old(self)@
                },
                None => {
                    &&& final(self)@ == old(self)@.resumed(id@)
                    &&& old(self)@.told(final(self)@)
                    &&& old(self)@.resumable(id@) ==> r is Ok
                    &&& !old(self)@.resumable(id@) ==> (r matches Err(e) && e.says(
                        ErrorCode::PermissionDenied,
                        "当前会话不能恢复"@,
                    ))
                },
            },
    {
        let ghost before = self@;
        let i: usize = match self.position(id) {
            Some(i) => i,
            None => {
                return Err(Fault::stale("会话不存在"));
            },
        };
        proof {
            lemma_unique(before, id@, i as int);
        }
        if self.sessions[i].status.mode == Mode::Isolated && self.sessions[i].visible_views == 0 {
            return Err(Fault::new(ErrorCode::Paused, "请先打开应用窗口；不允许隐藏运行"));
        }
        if self.ui_visible || self.manual_previews > 0 {
            return Err(Fault::new(ErrorCode::Paused, "请先关闭授权界面和手动预览窗口"));
        }
        if self.sessions[i].status.scope == Scope::Desktop {
            self.hold_others(id);
        }
        let ghost quiet = self@;
        assert(quiet.at(i as int, id@));
        proof {
            lemma_unique(quiet, id@, i as int);
        }
        let paused = match self.sessions[i].status.state {
            State::Paused => true,
            _ => false,
        };
        if !paused || self.sessions[i].backend.is_none() {
            return Err(Fault::denied("当前会话不能恢复"));
        }
        let ghost f = |s: SessionView<B>| s.with_state(State::Active).with_message(None);
        self.sessions[i].status.state = State::Active;
        self.sessions[i].status.message = None;
        proof {
            lemma_change_at(quiet, id@, i as int, f);
            assert(self@.sessions =~= quiet.change(id@, f).sessions);
        }
        Ok(())
    }

    fn hold_others(&mut self, id: &str)
        requires
            old(self).wf(),
        ensures
            final(self)@ == old(self)@.others_held(id@),
            old(self)@.told(final(self)@),
            final(self).wf(),
    {
        let ghost before = self@;
        let mut i: usize = 0;
        while i < self.sessions.len()
            invariant
                i <= self.sessions@.len(),
                before.distinct(),
                self@.sessions.len() == before.sessions.len(),
                self@ == (PolicyView { sessions: self@.sessions, ..before }),
                before.told(self@),
                forall|j: int|
                    0 <= j < i ==> self@.sessions[j] == #[trigger] before.others_held(id@).sessions[j],
                forall|j: int|
                    i <= j < before.sessions.len() ==> self@.sessions[j] == #[trigger] before.sessions[j],
            decreases self.sessions@.len() - i,
        {
            let other = !same(self.sessions[i].status.session_id.as_str(), id);
            assert(self@.sessions[i as int] == before.sessions[i as int]);
            if other && self.sessions[i].status.scope == Scope::Desktop
                && self.sessions[i].status.state == State::Active {
                Self::stop(&mut self.sessions[i], State::Paused);
            }
            assert(self@.sessions[i as int] == before.others_held(id@).sessions[i as int]);
            i = i + 1;
        }
        proof {
            assert(self@.sessions =~= before.others_held(id@).sessions);
            lemma_distinct_kept(before, self@);
        }
    }

    /// Leave to observe, or to perform one action on the latest observation.
    pub fn permit(&self, owner: u128, id: &str, action: Option<&ActRequest>) -> (r: Result<
        Permit<B>,
        Fault,
    >)
        requires
            self.wf(),
        ensures
            match self@.permit_refusal(owner, id@, asked(action)) {
                Some(f) => r matches Err(e) && e@ == f,
                None => r matches Ok(permit) && self@.allows(id@, permit),
            },
    {
        let i: usize = match self.owned(owner, id) {
            Ok(i) => i,
            Err(e) => {
                return Err(e);
            },
        };
        let s = &self.sessions[i];
        match s.status.state {
            State::Active => {},
            State::Paused => {},
            _ => {
                return Err(Fault::denied("尚未获得有效授权"));
            },
        }
        match action {
            Some(a) => {
                match self.check_action(i, a) {
                    Err(e) => {
                        return Err(e);
                    },
                    Ok(()) => {},
                }
            },
            None => {},
        }
        match &s.backend {
            None => Err(Fault::unavailable("后端未连接")),
            Some(handle) => {
                let observation = match &s.observation {
                    Some(o) => Some(o.clone()),
                    None => None,
                };
                Ok(
                    Permit {
                        backend: handle.clone(),
                        cancel: Cancellation::watching(s.signal.clone(), s.generation),
                        observation,
                    },
                )
            },
        }
    }

    fn check_action(&self, i: usize, a: &ActRequest) -> (r: Result<(), Fault>)
        requires
            i < self.sessions@.len(),
        ensures
            match self@.action_refusal(self@.sessions[i as int], *a) {
                Some(f) => r matches Err(e) && e@ == f,
                None => r is Ok,
            },
    {
        let s = &self.sessions[i];
        assert(self@.sessions[i as int] == s@);
        let active = match s.status.state {
            State::Active => true,
            _ => false,
        };
        if !active || self.ui_visible || self.manual_previews > 0 {
            return Err(Fault::new(ErrorCode::Paused, "自动输入已暂停"));
        }
        if !listed(&s.status.capabilities, a.action.capability()) {
            return Err(Fault::unsupported("该后端未开放此操作；不会切换到整机输入"));
        }
        match &s.observation {
            None => Err(Fault::stale("请先重新观察")),
            Some(o) => {
                if o.observation_id != a.observation_id || o.target.id != a.target {
                    Err(Fault::stale("观察或目标已经失效"))
                } else {
                    a.action.validate(o.target.width, o.target.height)
                }
            },
        }
    }

    /// Leave to perform one action. It uses the observation up.
    pub fn action_permit(&mut self, owner: u128, request: &ActRequest) -> (r: Result<
        Permit<B>,
        Fault,
    >)
        requires
            old(self).wf(),
        ensures
            final(self).wf(),
            match old(self)@.permit_refusal(owner, request.session_id@, Some(*request)) {
                Some(f) => {
                    &&& r matches Err(e)
                    &&& e@ == f
                    &&& final(self)@ == old(self)@
                },
                None => {
                    &&& r matches Ok(permit)
                    &&& old(self)@.allows(request.session_id@, permit)
                    &&& permit.observation is Some
                    &&& final(self)@ == old(self)@.change(
                        request.session_id@,
                        |s: SessionView<B>| s.with_observation(None),
                    )
                },
            },
    {
        let ghost before = self@;
        let ghost f = |s: SessionView<B>| s.with_observation(None);
        match self.permit(owner, request.session_id.as_str(), Some(request)) {
            Err(e) => Err(e),
            Ok(permit) => {
                match self.position(request.session_id.as_str()) {
                    Some(i) => {
                        self.sessions[i].observation = None;
                        proof {
                            lemma_change_at(before, request.session_id@, i as int, f);
                            assert(self@.sessions =~= before.change(request.session_id@, f).sessions);
                        }
                    },
                    None => {},
                }
                Ok(permit)
            },
        }
    }

    /// Keeps an observation for later actions, given whether it was cancelled meanwhile.
    pub fn remember_checked(
        &mut self,
        owner: u128,
        id: &str,
        observation: Observation,
        verdict: Result<(), Fault>,
    ) -> (r: Result<(), Fault>)
        requires
            old(self).wf(),
        ensures
            final(self).wf(),
            match old(self)@.remember_refusal(
                owner,
                id@,
                match verdict {
                    Ok(_) => None,
                    Err(e) => Some(e@),
                },
            ) {
                Some(f) => {
                    &&& r matches Err(e)
                    &&& e@ == f
                    &&& final(self)@ == old(self)@
                },
                None => {
                    &&& r is Ok
                    &&& final(self)@ == old(self)@.change(
                        id@,
                        |s: SessionView<B>| s.with_observation(Some(observation@)),
                    )
                },
            },
    {
        let ghost before = self@;
        let ghost f = |s: SessionView<B>| s.with_observation(Some(observation@));
        let i: usize = match self.owned(owner, id) {
            Ok(i) => i,
            Err(e) => {
                return Err(e);
            },
        };
        match verdict {
            Err(e) => {
                return Err(e);
            },
            Ok(()) => {},
        }
        match self.sessions[i].status.state {
            State::Active => {},
            State::Paused => {},
            _ => {
                return Err(Fault::denied("授权已撤销"));
            },
        }
        self.sessions[i].observation = Some(observation);
        proof {
            lemma_change_at(before, id@, i as int, f);
            assert(self@.sessions =~= before.change(id@, f).sessions);
        }
        Ok(())
    }

    /// Keeps an observation for later actions, unless it was cancelled meanwhile.
    pub fn remember(
        &mut self,
        owner: u128,
        id: &str,
        observation: Observation,
        cancel: &Cancellation,
    ) -> (r: Result<(), Fault>)
        requires
            old(self).wf(),
        ensures
            final(self).wf(),
            match old(self)@.remember_refusal(owner, id@, None) {
                Some(f) => {
                    &&& r matches Err(e)
                    &&& e@ == f || old(self)@.owned(owner, id@) && e@ == cancelled()
                    &&& final(self)@ == old(self)@
                },
                None => match r {
                    Ok(_) => final(self)@ == old(self)@.change(
                        id@,
                        |s: SessionView<B>| s.with_observation(Some(observation@)),
                    ),
                    Err(e) => e@ == cancelled() && final(self)@ == old(self)@,
                },
            },
            old(self)@.remember_refusal(owner, id@, None) is None ==> exists|current: u64| #[trigger]
                may_read(*cancel.generation, current) && (r is Ok) == (current == cancel.captured),
    {
        let verdict = cancel.check();
        self.remember_checked(owner, id, observation, verdict)
    }

    /// Ends a session. What runs is cancelled and nothing is offered any more; an isolated
    /// application stays for the local user.
    fn retire(s: &mut Session<B>, retained: &mut Vec<(String, BackendHandle<B>)>) -> (r: Option<
        BackendHandle<B>,
    >)
        ensures
            final(s)@ == old(s)@.closed(),
            was_written(*final(s).signal, final(s).generation),
            r == old(s)@.backend,
            named(final(retained)@) == (match old(s)@.leftover() {
                Some(left) => named(old(retained)@).push(left),
                None => named(old(retained)@),
            }),
    {
        let ghost before = s@;
        Self::stop(s, State::Closed);
        s.status.targets = Vec::new();
        s.status.capabilities = Vec::new();
        let backend = s.backend.take();
        if s.status.mode == Mode::Isolated {
            match &backend {
                Some(handle) => {
                    let name = match &s.status.label {
                        Some(label) => label.clone(),
                        None => "独立应用".to_owned(),
                    };
                    let ghost was = retained@;
                    retained.push((name, handle.clone()));
                    assert(named(retained@) =~= named(was).push((name@, *handle)));
                },
                None => {},
            }
        }
        assert(s@.status =~= before.closed().status);
        backend
    }

    /// Ends a session on behalf of the local user or the broker.
    pub fn close_local(&mut self, id: &str) -> (r: Option<BackendHandle<B>>)
        requires
            old(self).wf(),
        ensures
            final(self).wf(),
            final(self)@ == old(self)@.closed(id@),
            old(self)@.told(final(self)@),
            r == (if old(self)@.has(id@) {
                old(self)@.get(id@).backend
            } else {
                None
            }),
    {
        let ghost before = self@;
        let ghost f = |s: SessionView<B>| s.closed();
        match self.position(id) {
            Some(i) => {
                proof {
                    lemma_unique(before, id@, i as int);
                }
                let r = Self::retire(&mut self.sessions[i], &mut self.retained);
                proof {
                    lemma_change_at(before, id@, i as int, f);
                    assert(self@.sessions =~= before.change(id@, f).sessions);
                }
                r
            },
            None => None,
        }
    }

    /// Ends a session at the wish of its client.
    pub fn close(&mut self, owner: u128, id: &str) -> (r: Result<Option<BackendHandle<B>>, Fault>)
        requires
            old(self).wf(),
        ensures
            final(self).wf(),
            match r {
                Ok(handle) => {
                    &&& old(self)@.owned(owner, id@)
                    &&& handle == old(self)@.get(id@).backend
                    &&& final(self)@ == old(self)@.closed(id@)
                    &&& old(self)@.told(final(self)@)
                },
                Err(e) => {
                    &&& !old(self)@.owned(owner, id@)
                    &&& e@ == foreign()
                    &&& final(self)@ == old(self)@
                },
            },
    {
        match self.owned(owner, id) {
            Ok(_) => Ok(self.close_local(id)),
            Err(e) => Err(e),
        }
    }
}

impl<B: Backend> Policy<B> {
    /// A client disconnected: all its authority ends at once. The handles of its backends
    /// are returned for detaching.
    pub fn disconnect(&mut self, owner: u128) -> (r: Vec<BackendHandle<B>>)
        requires
            old(self).wf(),
        ensures
            final(self).wf(),
            final(self)@ == old(self)@.disconnected(owner),
            old(self)@.told(old(self)@.left(owner)),
            r@ == old(self)@.sessions_of(owner).filter_map(|s: SessionView<B>| s.backend),
    {
        let ghost before = self@;
        self.forget_client(owner);
        let ghost theirs = |s: SessionView<B>| s.owner == owner;
        let ghost others = |s: SessionView<B>| s.owner != owner;
        let ghost left = |s: SessionView<B>| s.leftover();
        let ghost held = |s: SessionView<B>| s.backend;
        let ghost all = before.sessions;
        let mut handles: Vec<BackendHandle<B>> = Vec::new();
        let mut kept: Vec<Session<B>> = Vec::new();
        let ghost mut done: int = 0;
        proof {
            reveal(Seq::filter);
            assert(all.take(0) =~= Seq::empty());
            assert(all.skip(0) =~= all);
            assert(before.retained + Seq::empty() =~= before.retained);
        }
        while self.sessions.len() > 0
            invariant
                0 <= done <= all.len(),
                theirs == (|s: SessionView<B>| s.owner == owner),
                others == (|s: SessionView<B>| s.owner != owner),
                left == (|s: SessionView<B>| s.leftover()),
                held == (|s: SessionView<B>| s.backend),
                self@.sessions == all.skip(done),
                forall|j: int|
                    0 <= j < done && (#[trigger] all[j]).owner == owner ==> was_written(
                        *all[j].signal,
                        next_generation(all[j].generation),
                    ),
                views(kept@) == all.take(done).filter(others),
                handles@ == all.take(done).filter(theirs).filter_map(held),
                self@.retained == before.retained + all.take(done).filter(theirs).filter_map(left),
                self@ == (PolicyView {
                    sessions: self@.sessions,
                    retained: self@.retained,
                    clients: before.clients.remove(owner),
                    ..before
                }),
            decreases self.sessions@.len(),
        {
            let ghost rest = self@.sessions;
            let ghost kept_was = kept@;
            assert(rest.len() == self.sessions@.len());
            assert(rest.len() == all.len() - done);
            let ghost raw = self.sessions@;
            let mut s = self.sessions.remove(0);
            proof {
                assert(rest[0] == all[done]);
                assert(self.sessions@ =~= raw.remove(0));
                assert(self@.sessions =~= rest.remove(0));
                assert(self@.sessions =~= all.skip(done + 1));
                lemma_filter_step(all, theirs, done);
                lemma_filter_step(all, others, done);
            }
            if s.owner == owner {
                let backend = Self::retire(&mut s, &mut self.retained);
                proof {
                    let mine = all.take(done).filter(theirs);
                    assert(mine.push(all[done]).drop_last() =~= mine);
                    assert(mine.push(all[done]).last() == all[done]);
                    assert(self@.retained =~= before.retained + mine.push(all[done]).filter_map(
                        left,
                    ));
                }
                match backend {
                    Some(handle) => {
                        handles.push(handle);
                    },
                    None => {},
                }
                assert(handles@ =~= all.take(done + 1).filter(theirs).filter_map(held));
            } else {
                kept.push(s);
                assert(views(kept@) =~= views(kept_was).push(all[done]));
            }
            proof {
                done = done + 1;
            }
        }
        proof {
            assert(self@.sessions.len() == self.sessions@.len());
            assert(all.skip(done).len() == all.len() - done);
            assert(all.take(done) =~= all);
        }
        self.sessions = kept;
        proof {
            lemma_filter_distinct(before, others);
            let fewer = PolicyView { sessions: before.sessions.filter(others), ..before };
            assert(self@.sessions == fewer.sessions);
            lemma_distinct_kept(fewer, self@);
            assert forall|i: int| 0 <= i < self@.sessions.len() implies in_step(
                *(#[trigger] self@.sessions[i]).signal,
                self@.sessions[i].generation,
            ) by {
                let s = self@.sessions[i];
                before.sessions.lemma_filter_contains_rev(others, s);
                let k = choose|k: int| 0 <= k < before.sessions.len() && before.sessions[k] == s;
                assert(in_step(*before.sessions[k].signal, before.sessions[k].generation));
            }
        }
        handles
    }

    fn forget_client(&mut self, owner: u128)
        ensures
            final(self)@ == (PolicyView { clients: old(self)@.clients.remove(owner), ..old(self)@ }),
    {
        let ghost before = self.clients@;
        let mut kept: Vec<u128> = Vec::new();
        let mut i: usize = 0;
        while i < self.clients.len()
            invariant
                i <= self.clients@.len(),
                self.clients@ == before,
                forall|j: int| 0 <= j < i && before[j] != owner ==> kept@.contains(#[trigger] before[j]),
                forall|j: int|
                    0 <= j < kept@.len() ==> #[trigger] kept@[j] != owner && before.contains(kept@[j]),
            decreases self.clients@.len() - i,
        {
            let c: u128 = self.clients[i];
            if c != owner {
                let ghost was = kept@;
                kept.push(c);
                proof {
                    assert(kept@[was.len() as int] == c);
                    assert forall|j: int| 0 <= j < i && before[j] != owner implies kept@.contains(
                        #[trigger] before[j],
                    ) by {
                        let k = choose|k: int| 0 <= k < was.len() && was[k] == before[j];
                        assert(kept@[k] == before[j]);
                    }
                }
            }
            i = i + 1;
        }
        self.clients = kept;
        proof {
            assert forall|o: u128|
                self@.clients.contains(o) == old(self)@.clients.remove(owner).contains(o) by {
                if before.contains(o) && o != owner {
                    let k = choose|k: int| 0 <= k < before.len() && before[k] == o;
                    assert(kept@.contains(before[k]));
                }
                if kept@.contains(o) {
                    let k = choose|k: int| 0 <= k < kept@.len() && kept@[k] == o;
                    assert(before.contains(kept@[k]));
                }
            }
            assert(self@.clients =~= old(self)@.clients.remove(owner));
        }
    }

    /// Every session that has a backend, with its handle.
    pub fn backends(&self) -> (r: Vec<(String, BackendHandle<B>)>)
        ensures
            named(r@) == self@.sessions.filter_map(
                |s: SessionView<B>|
                    match s.backend {
                        Some(handle) => Some((s.id(), handle)),
                        None => None,
                    },
            ),
    {
        let ghost f = |s: SessionView<B>|
            match s.backend {
                Some(handle) => Some((s.id(), handle)),
                None => None,
            };
        let mut out: Vec<(String, BackendHandle<B>)> = Vec::new();
        let mut i: usize = 0;
        assert(named(out@) =~= self@.sessions.take(0).filter_map(f));
        while i < self.sessions.len()
            invariant
                i <= self.sessions@.len(),
                f == (|s: SessionView<B>|
                    match s.backend {
                        Some(handle) => Some((s.id(), handle)),
                        None => None,
                    }),
                named(out@) == self@.sessions.take(i as int).filter_map(f),
            decreases self.sessions@.len() - i,
        {
            let ghost was = out@;
            proof {
                self@.sessions.lemma_filter_map_take_succ(f, i as int);
            }
            let s = &self.sessions[i];
            assert(self@.sessions[i as int] == s@);
            match &s.backend {
                Some(handle) => {
                    out.push((s.status.session_id.clone(), handle.clone()));
                    assert(named(out@) =~= named(was).push((s@.id(), *handle)));
                },
                None => {},
            }
            i = i + 1;
        }
        assert(self@.sessions.take(i as int) =~= self@.sessions);
        out
    }

    /// The local user takes control: everything pauses, and nothing resumes meanwhile.
    pub fn begin_takeover(&mut self)
        requires
            old(self).wf(),
            old(self)@.manual_previews < usize::MAX,
        ensures
            final(self).wf(),
            final(self)@ == (PolicyView {
                manual_previews: (old(self)@.manual_previews + 1) as usize,
                ..old(self)@.all_held()
            }),
            old(self)@.told(final(self)@),
    {
        self.pause_all();
        self.manual_previews = self.manual_previews + 1;
    }

    /// The local user gives control back; nothing resumes by that.
    pub fn end_takeover(&mut self)
        ensures
            final(self)@ == (PolicyView {
                manual_previews: if old(self)@.manual_previews == 0 {
                    0
                } else {
                    (old(self)@.manual_previews - 1) as usize
                },
                ..old(self)@
            }),
    {
        if self.manual_previews > 0 {
            self.manual_previews = self.manual_previews - 1;
        }
    }

    /// Hands over the applications that outlived their authorization.
    pub fn take_retained(&mut self) -> (r: Vec<(String, BackendHandle<B>)>)
        ensures
            named(r@) == old(self)@.retained,
            final(self)@ == (PolicyView { retained: Seq::empty(), ..old(self)@ }),
    {
        let mut out: Vec<(String, BackendHandle<B>)> = Vec::new();
        std::mem::swap(&mut out, &mut self.retained);
        assert(named(self.retained@) =~= Seq::empty());
        out
    }
}

/// An optional request by its value.
pub open spec fn asked(action: Option<&ActRequest>) -> Option<ActRequest> {
    match action {
        Some(a) => Some(*a),
        None => None,
    }
}

/// What passes a filter passes its test.
proof fn lemma_filter_passes<A>(s: Seq<A>, p: spec_fn(A) -> bool)
    ensures
        forall|i: int| 0 <= i < s.filter(p).len() ==> p(#[trigger] s.filter(p)[i]),
{
    assert forall|i: int| 0 <= i < s.filter(p).len() implies p(#[trigger] s.filter(p)[i]) by {
        s.lemma_filter_pred(p, i);
    }
}

/// Leaving sessions out keeps identifiers distinct.
proof fn lemma_filter_distinct<B: Backend>(
    p: PolicyView<B>,
    keep: spec_fn(SessionView<B>) -> bool,
)
    requires
        p.distinct(),
    ensures
        (PolicyView { sessions: p.sessions.filter(keep), ..p }).distinct(),
    decreases p.sessions.len(),
{
    reveal(Seq::filter);
    if p.sessions.len() > 0 {
        let rest = PolicyView { sessions: p.sessions.drop_last(), ..p };
        assert(rest.distinct()) by {
            assert forall|i: int, j: int|
                #![trigger rest.sessions[i], rest.sessions[j]]
                0 <= i < j < rest.sessions.len() implies rest.sessions[i].id()
                != rest.sessions[j].id() by {
                assert(rest.sessions[i] == p.sessions[i]);
                assert(rest.sessions[j] == p.sessions[j]);
            }
        }
        lemma_filter_distinct(rest, keep);
        let kept = rest.sessions.filter(keep);
        assert forall|i: int| 0 <= i < kept.len() implies (#[trigger] kept[i]).id()
            != p.sessions.last().id() by {
            rest.sessions.lemma_filter_contains_rev(keep, kept[i]);
            let k = choose|k: int| 0 <= k < rest.sessions.len() && rest.sessions[k] == kept[i];
            assert(p.sessions[k] == kept[i]);
            assert(p.sessions[p.sessions.len() - 1] == p.sessions.last());
        }
        let inner = PolicyView { sessions: kept, ..rest };
        let all = PolicyView { sessions: p.sessions.filter(keep), ..p };
        assert forall|i: int, j: int|
            #![trigger all.sessions[i], all.sessions[j]]
            0 <= i < j < all.sessions.len() implies all.sessions[i].id() != all.sessions[j].id() by {
            assert(all.sessions[i] == inner.sessions[i]);
            if j < kept.len() {
                assert(all.sessions[j] == inner.sessions[j]);
            } else {
                assert(all.sessions[i] == kept[i]);
            }
        }
    }
}

/// A change of a session that is not there changes nothing.
proof fn lemma_no_change<B: Backend>(
    p: PolicyView<B>,
    id: Seq<char>,
    f: spec_fn(SessionView<B>) -> SessionView<B>,
)
    requires
        !p.has(id),
    ensures
        p.change(id, f) == p,
{
    assert forall|j: int| 0 <= j < p.sessions.len() implies #[trigger] p.change(id, f).sessions[j]
        == p.sessions[j] by {
        assert(!p.at(j, id));
    }
    assert(p.change(id, f).sessions =~= p.sessions);
}

} // verus!
