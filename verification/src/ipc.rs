//! The broker's socket: where it stands, how messages are framed, and what each request of a
//! client does.
use std::sync::atomic::AtomicU64;
use std::sync::Arc;
use vstd::prelude::*;

use crate::authority::{acting, after, halted, only_resuming_activates, sound, Step};
use crate::backend::{may_read, was_made, Backend, Cancellation};
use crate::identifier::identifier;
use crate::model::{
    fault, Action, ErrorCode, Fault, FaultView, Observation, Request, Response, SessionStatus,
};
use crate::path::{below, bytes_of, join};
use crate::policy::{foreign, requested, BackendHandle, Permit, Policy, PolicyView, SessionView};

verus! {

/// Most bytes of a request.
pub const MAX_REQUEST: usize = 131072;

/// Most bytes of an answer.
pub const MAX_RESPONSE: usize = 67108864;

/// The directory of the broker's socket, below the user's directory for such files.
pub fn runtime_path(root: Option<&Vec<u8>>) -> (r: Result<Vec<u8>, Fault>)
    ensures
        match root {
            Some(p) => r matches Ok(v) && v@ == below(
                p@,
                vstd::utf8::encode_utf8("computer-use-linux"@),
            ),
            None => r matches Err(e) && e.says(
                ErrorCode::BackendUnavailable,
                "缺少 XDG_RUNTIME_DIR"@,
            ),
        },
{
    match root {
        Some(p) => Ok(join(p, &bytes_of("computer-use-linux"))),
        None => Err(Fault::unavailable("缺少 XDG_RUNTIME_DIR")),
    }
}

/// Checks that the user's directory is a directory of the user.
pub fn check_root(directory: bool, owner: u32, user: u32) -> (r: Result<(), Fault>)
    ensures
        if directory && owner == user {
            r is Ok
        } else {
            r matches Err(e) && e.says(ErrorCode::BackendUnavailable, "运行目录不属于当前用户"@)
        },
{
    if directory && owner == user {
        Ok(())
    } else {
        Err(Fault::unavailable("运行目录不属于当前用户"))
    }
}

/// Permissions of a file beyond those of its owner: the last two octal digits.
pub open spec fn shared(mode: u32) -> bool {
    mode % 64 != 0
}

/// Checks that the directory of the socket is the user's alone, and no link.
pub fn check_private(directory: bool, owner: u32, user: u32, mode: u32) -> (r: Result<(), Fault>)
    ensures
        if directory && owner == user && !shared(mode) {
            r is Ok
        } else {
            r matches Err(e) && e.says(
                ErrorCode::BackendUnavailable,
                "MCP 运行目录权限必须为 0700，且不能是符号链接"@,
            )
        },
{
    if directory && owner == user && mode % 64 == 0 {
        Ok(())
    } else {
        Err(Fault::unavailable("MCP 运行目录权限必须为 0700，且不能是符号链接"))
    }
}

/// Whether the other end of a connection belongs to the user.
pub fn same_user(peer: u32, user: u32) -> (r: bool)
    ensures
        r == (peer == user),
{
    peer == user
}

/// Checks that the broker at the other end belongs to the user.
pub fn check_broker(peer: u32, user: u32) -> (r: Result<(), Fault>)
    ensures
        if peer == user {
            r is Ok
        } else {
            r matches Err(e) && e.says(ErrorCode::BackendUnavailable, "服务用户不匹配"@)
        },
{
    if same_user(peer, user) {
        Ok(())
    } else {
        Err(Fault::unavailable("服务用户不匹配"))
    }
}

/// Bytes in the head of a frame.
pub const HEAD: usize = 4;

/// Four bytes of a number, highest first.
pub open spec fn big(n: u32) -> Seq<u8> {
    seq![
        (n / 16777216) as u8,
        (n / 65536 % 256) as u8,
        (n / 256 % 256) as u8,
        (n % 256) as u8,
    ]
}

/// Number of four bytes, highest first.
pub open spec fn announced(head: Seq<u8>) -> int {
    head[0] * 16777216 + head[1] * 65536 + head[2] * 256 + head[3]
}

/// Length of the message that a frame's head announces. One that is empty or too large is
/// refused before anything is set aside for it.
pub fn read_frame(head: &Vec<u8>, limit: usize) -> (r: Result<usize, Fault>)
    requires
        head@.len() == HEAD,
    ensures
        if 0 < announced(head@) <= limit {
            r matches Ok(n) && n == announced(head@)
        } else {
            r matches Err(e) && e.says(ErrorCode::BackendUnavailable, "IPC 消息大小超出限制"@)
        },
{
    let n: u32 = head[0] as u32 * 16777216 + head[1] as u32 * 65536 + head[2] as u32 * 256
        + head[3] as u32;
    let length: u64 = n as u64;
    if length > 0 && length <= limit as u64 {
        Ok(n as usize)
    } else {
        Err(Fault::unavailable("IPC 消息大小超出限制"))
    }
}

/// Frames a message.
pub fn write_frame(data: Vec<u8>) -> (r: Result<Vec<u8>, Fault>)
    ensures
        if data@.len() <= MAX_RESPONSE {
            r matches Ok(v) && v@ == big(data@.len() as u32) + data@
        } else {
            r matches Err(e) && e.says(ErrorCode::BackendUnavailable, "IPC 响应过大"@)
        },
{
    if data.len() > MAX_RESPONSE {
        return Err(Fault::unavailable("IPC 响应过大"));
    }
    let n: u32 = data.len() as u32;
    let mut out: Vec<u8> = Vec::new();
    out.push((n / 16777216) as u8);
    out.push((n / 65536 % 256) as u8);
    out.push((n / 256 % 256) as u8);
    out.push((n % 256) as u8);
    assert(out@ =~= big(n));
    let mut rest = data;
    out.append(&mut rest);
    Ok(out)
}

/// What a reader of frames does next.
#[derive(Debug)]
pub enum FrameStep {
    /// Read so many bytes more.
    More(usize),
    /// Nothing: the frame is refused.
    Refused(Fault),
    /// Nothing: this is the message.
    Message(Vec<u8>),
}

/// What a reader of frames does next, by its values.
pub enum FrameView {
    More(int),
    Refused(FaultView),
    Message(Seq<u8>),
}

impl View for FrameStep {
    type V = FrameView;

    open spec fn view(&self) -> FrameView {
        match *self {
            FrameStep::More(n) => FrameView::More(n as int),
            FrameStep::Refused(f) => FrameView::Refused(f@),
            FrameStep::Message(v) => FrameView::Message(v@),
        }
    }
}

/// The fault of a message that is empty or too large.
pub open spec fn missized() -> FaultView {
    fault(ErrorCode::BackendUnavailable, "IPC 消息大小超出限制"@)
}

/// What follows some bytes of a frame.
pub open spec fn frame_next(taken: Seq<u8>, limit: usize) -> FrameView {
    let n = announced(taken.take(HEAD as int));
    if taken.len() < HEAD {
        FrameView::More(HEAD - taken.len())
    } else if !(0 < n <= limit) {
        FrameView::Refused(missized())
    } else if taken.len() < HEAD + n {
        FrameView::More(HEAD + n - taken.len())
    } else {
        FrameView::Message(taken.subrange(HEAD as int, HEAD + n))
    }
}

/// Reads one frame, byte by byte or all at once.
pub struct FrameReader {
    pub limit: usize,
    pub taken: Vec<u8>,
}

impl FrameReader {
    pub fn new(limit: usize) -> (r: Self)
        ensures
            r.limit == limit,
            r.taken@ == Seq::<u8>::empty(),
    {
        FrameReader { limit, taken: Vec::new() }
    }

    /// Bytes were read.
    pub fn feed(&mut self, bytes: Vec<u8>)
        ensures
            final(self).limit == old(self).limit,
            final(self).taken@ == old(self).taken@ + bytes@,
    {
        let mut bytes = bytes;
        self.taken.append(&mut bytes);
    }

    /// What is to be read, or what came of it.
    pub fn next(&self) -> (r: FrameStep)
        ensures
            r@ == frame_next(self.taken@, self.limit),
    {
        if self.taken.len() < HEAD {
            return FrameStep::More(HEAD - self.taken.len());
        }
        let mut head: Vec<u8> = Vec::new();
        head.push(self.taken[0]);
        head.push(self.taken[1]);
        head.push(self.taken[2]);
        head.push(self.taken[3]);
        assert(head@ =~= self.taken@.take(HEAD as int));
        match read_frame(&head, self.limit) {
            Err(e) => FrameStep::Refused(e),
            Ok(n) => {
                let total: usize = self.taken.len();
                let have: usize = total - HEAD;
                if have < n {
                    return FrameStep::More(n - have);
                }
                let mut out: Vec<u8> = Vec::new();
                let mut i: usize = 0;
                while i < n
                    invariant
                        i <= n,
                        HEAD + n <= total,
                        total == self.taken@.len(),
                        out@ == self.taken@.subrange(HEAD as int, HEAD + i),
                    decreases n - i,
                {
                    out.push(self.taken[HEAD + i]);
                    i = i + 1;
                    assert(out@ =~= self.taken@.subrange(HEAD as int, HEAD + i));
                }
                FrameStep::Message(out)
            },
        }
    }
}

/// What comes of reading a frame from a stream: a message, and what the stream still holds; a
/// refusal, likewise; or the stream ended first.
pub enum Received {
    Message { data: Seq<u8>, rest: Seq<u8> },
    Refused { rest: Seq<u8> },
    Ended,
}

/// Reading a frame from a stream as its reader asks, after some bytes were taken.
pub open spec fn received(taken: Seq<u8>, stream: Seq<u8>, limit: usize) -> Received
    decreases stream.len(),
{
    match frame_next(taken, limit) {
        FrameView::Message(data) => Received::Message { data, rest: stream },
        FrameView::Refused(_) => Received::Refused { rest: stream },
        FrameView::More(n) => if n <= 0 || n > stream.len() {
            Received::Ended
        } else {
            received(taken + stream.take(n), stream.skip(n), limit)
        },
    }
}

/// What a stream gives: the message that its first four bytes announce if it is neither empty
/// nor too large and follows them whole, and nothing beyond it is read. A wrong size is refused
/// before a byte of the message is read.
pub proof fn frames_are_read(stream: Seq<u8>, limit: usize)
    ensures
        ({
            let n = announced(stream.take(HEAD as int));
            received(Seq::empty(), stream, limit) == (if stream.len() < HEAD {
                Received::Ended
            } else if !(0 < n <= limit) {
                Received::Refused { rest: stream.skip(HEAD as int) }
            } else if stream.len() < HEAD + n {
                Received::Ended
            } else {
                Received::Message {
                    data: stream.subrange(HEAD as int, HEAD + n),
                    rest: stream.skip(HEAD + n),
                }
            })
        }),
{
    let none = Seq::<u8>::empty();
    let head = stream.take(HEAD as int);
    let n = announced(head);
    reveal_with_fuel(received, 3);
    if stream.len() >= HEAD {
        let body = stream.skip(HEAD as int);
        assert(none + head =~= head);
        assert(head.take(HEAD as int) =~= head);
        if 0 < n <= limit && stream.len() >= HEAD + n {
            let whole = head + body.take(n);
            assert(whole.take(HEAD as int) =~= head);
            assert(whole.subrange(HEAD as int, HEAD + n) =~= stream.subrange(
                HEAD as int,
                HEAD + n,
            ));
            assert(body.skip(n) =~= stream.skip(HEAD + n));
        }
    }
}

/// What is framed is read back, whatever follows it: the message, and no byte beyond it.
pub proof fn frames_read_back(data: Seq<u8>, after: Seq<u8>, limit: usize)
    requires
        0 < data.len() <= MAX_RESPONSE,
        data.len() <= limit,
    ensures
        received(Seq::empty(), big(data.len() as u32) + data + after, limit)
            == (Received::Message { data, rest: after }),
{
    let n = data.len() as u32;
    let stream = big(n) + data + after;
    assert(stream.take(HEAD as int) =~= big(n));
    assert(n / 16777216 * 16777216 + n / 65536 % 256 * 65536 + n / 256 % 256 * 256 + n % 256 == n);
    frames_are_read(stream, limit);
    assert(stream.subrange(HEAD as int, HEAD + n) =~= data);
    assert(stream.skip(HEAD + n) =~= after);
}

/// How a request begins.
#[verifier::reject_recursive_types(B)]
pub enum Begun<B: Backend> {
    /// It is answered. A backend that lost its session is to be detached.
    Answer { response: Response, detach: Option<BackendHandle<B>> },
    /// The panel must be raised: for this request of authorization, or because a client asked.
    Show { asked: Option<SessionStatus> },
    /// The backend must observe.
    Observe { permit: Permit<B>, session_id: String, target: Option<String> },
    /// The backend must act.
    Act { permit: Permit<B>, action: Action },
}

/// What a client's request does to the policy when it begins. A request that is accepted gets
/// an identifier and a signal.
pub open spec fn effect<B: Backend>(
    p: PolicyView<B>,
    owner: u128,
    request: Request,
    id: Seq<char>,
    signal: Arc<AtomicU64>,
) -> Option<Step<B>> {
    match request {
        Request::RequestSession(q) => Some(Step::Request { owner, request: q, id, signal }),
        Request::SessionStatus(_) => None,
        Request::Observe(_) => None,
        Request::Act(a) => Some(Step::Act { owner, request: a }),
        Request::CloseSession(s) => if p.owned(owner, s.session_id@) {
            Some(Step::Close { id: s.session_id@ })
        } else {
            None
        },
        Request::PauseAll => Some(Step::PauseAll),
        Request::ShowUi => Some(Step::OpenUi),
    }
}

/// The policy after a client's request began.
pub open spec fn served<B: Backend>(
    p: PolicyView<B>,
    owner: u128,
    request: Request,
    id: Seq<char>,
    signal: Arc<AtomicU64>,
) -> PolicyView<B> {
    match effect(p, owner, request, id, signal) {
        Some(step) => after(p, step),
        None => p,
    }
}

/// Whether a request was answered with a fault.
pub open spec fn refused<B: Backend>(r: Begun<B>, f: FaultView) -> bool {
    &&& r matches Begun::Answer { response: Response::Error(e), detach: None }
    &&& e@ == f
}

/// Whether a request that began is what the policy allows.
pub open spec fn fitting<B: Backend>(
    p: PolicyView<B>,
    owner: u128,
    request: Request,
    id: Seq<char>,
    signal: Arc<AtomicU64>,
    r: Begun<B>,
) -> bool {
    match request {
        Request::RequestSession(q) => match p.request_refusal(owner, q) {
            Some(f) => refused(r, f),
            None => {
                &&& r matches Begun::Show { asked: Some(status) }
                &&& status@ == requested::<B>(owner, q, id, signal).status
                &&& identifier(id)
                &&& was_made(*signal, 0)
            },
        },
        Request::SessionStatus(s) => if p.owned(owner, s.session_id@) {
            &&& r matches Begun::Answer { response: Response::Status(status), detach: None }
            &&& status@ == p.get(s.session_id@).status
        } else {
            refused(r, foreign())
        },
        Request::Observe(o) => match p.permit_refusal(owner, o.session_id@, None) {
            Some(f) => refused(r, f),
            None => {
                &&& r matches Begun::Observe { permit, session_id, target }
                &&& p.allows(o.session_id@, permit)
                &&& session_id == o.session_id
                &&& target == o.target
            },
        },
        Request::Act(a) => match p.permit_refusal(owner, a.session_id@, Some(a)) {
            Some(f) => refused(r, f),
            None => {
                &&& r matches Begun::Act { permit, action }
                &&& p.allows(a.session_id@, permit)
                &&& permit.observation is Some
                &&& action == a.action
            },
        },
        Request::CloseSession(s) => if p.owned(owner, s.session_id@) {
            &&& r matches Begun::Answer { response: Response::Done, detach }
            &&& detach == p.get(s.session_id@).backend
        } else {
            refused(r, foreign())
        },
        Request::PauseAll => r matches Begun::Answer { response: Response::Done, detach: None },
        Request::ShowUi => r matches Begun::Show { asked: None },
    }
}

/// Whether a request that began did to the policy what it asks for, is what the policy allows,
/// and told whom it halted.
pub open spec fn begun<B: Backend>(
    before: PolicyView<B>,
    now: PolicyView<B>,
    owner: u128,
    request: Request,
    r: Begun<B>,
) -> bool {
    exists|id: Seq<char>, signal: Arc<AtomicU64>|
        {
            &&& now == #[trigger] served(before, owner, request, id, signal)
            &&& fitting(before, owner, request, id, signal, r)
            &&& match effect(before, owner, request, id, signal) {
                Some(step) => before.told(halted(before, step)),
                None => true,
            }
        }
}

/// Begins a request of a client: what needs neither the panel nor a backend is answered.
pub fn begin<B: Backend>(policy: &mut Policy<B>, owner: u128, request: Request) -> (r: Begun<B>)
    requires
        old(policy).wf(),
    ensures
        final(policy).wf(),
        begun(old(policy)@, final(policy)@, owner, request, r),
{
    let ghost before = policy@;
    let ghost asked = request;
    let ghost none: Seq<char> = Seq::empty();
    let ghost signal: Arc<AtomicU64> = arbitrary();
    match request {
        Request::RequestSession(q) => {
            match policy.request(owner, q) {
                Ok(status) => {
                    let r: Begun<B> = Begun::Show { asked: Some(status) };
                    proof {
                        let given = choose|signal: Arc<AtomicU64>|
                            {
                                let s = #[trigger] requested::<B>(
                                    owner,
                                    q,
                                    status.session_id@,
                                    signal,
                                );
                                &&& status@ == s.status
                                &&& policy@ == before.opened().add(s)
                                &&& was_made(*signal, 0)
                            };
                        let id = status.session_id@;
                        assert(policy@ == served(before, owner, asked, id, given));
                        assert(fitting(before, owner, asked, id, given, r));
                    }
                    r
                },
                Err(e) => {
                    let r: Begun<B> = refusal(e);
                    proof {
                        assert(policy@ == served(before, owner, asked, none, signal));
                        assert(fitting(before, owner, asked, none, signal, r));
                    }
                    r
                },
            }
        },
        Request::SessionStatus(s) => {
            let r: Begun<B> = match policy.status(owner, s.session_id.as_str()) {
                Ok(status) => Begun::Answer { response: Response::Status(status), detach: None },
                Err(e) => refusal(e),
            };
            proof {
                assert(policy@ == served(before, owner, asked, none, signal));
                assert(fitting(before, owner, asked, none, signal, r));
            }
            r
        },
        Request::Observe(o) => {
            let r: Begun<B> = match policy.permit(owner, o.session_id.as_str(), None) {
                Ok(permit) => Begun::Observe {
                    permit,
                    session_id: o.session_id,
                    target: o.target,
                },
                Err(e) => refusal(e),
            };
            proof {
                assert(policy@ == served(before, owner, asked, none, signal));
                assert(fitting(before, owner, asked, none, signal, r));
            }
            r
        },
        Request::Act(a) => {
            let r: Begun<B> = match policy.action_permit(owner, &a) {
                Ok(permit) => Begun::Act { permit, action: a.action },
                Err(e) => refusal(e),
            };
            proof {
                assert(policy@ == served(before, owner, asked, none, signal));
                assert(fitting(before, owner, asked, none, signal, r));
            }
            r
        },
        Request::CloseSession(s) => {
            let r: Begun<B> = match policy.close(owner, s.session_id.as_str()) {
                Ok(detach) => Begun::Answer { response: Response::Done, detach },
                Err(e) => refusal(e),
            };
            proof {
                assert(policy@ == served(before, owner, asked, none, signal));
                assert(fitting(before, owner, asked, none, signal, r));
            }
            r
        },
        Request::PauseAll => {
            policy.pause_all();
            let r: Begun<B> = Begun::Answer { response: Response::Done, detach: None };
            proof {
                assert(policy@ == served(before, owner, asked, none, signal));
                assert(fitting(before, owner, asked, none, signal, r));
            }
            r
        },
        Request::ShowUi => {
            policy.open_ui();
            let r: Begun<B> = Begun::Show { asked: None };
            proof {
                assert(policy@ == served(before, owner, asked, none, signal));
                assert(fitting(before, owner, asked, none, signal, r));
            }
            r
        },
    }
}

fn refusal<B: Backend>(e: Fault) -> (r: Begun<B>)
    ensures
        refused(r, e@),
{
    Begun::Answer { response: Response::Error(e), detach: None }
}

/// No request of a client makes a session active: approving and resuming are not among what
/// clients can ask for.
pub proof fn clients_activate_nothing<B: Backend>(
    p: PolicyView<B>,
    owner: u128,
    request: Request,
    id: Seq<char>,
    signal: Arc<AtomicU64>,
    session: Seq<char>,
)
    requires
        sound(p),
        served(p, owner, request, id, signal).has(session),
        acting(served(p, owner, request, id, signal).get(session)),
    ensures
        p.has(session),
        acting(p.get(session)),
{
    match effect(p, owner, request, id, signal) {
        Some(step) => {
            if !(p.has(session) && acting(p.get(session))) {
                only_resuming_activates(p, step, session);
            }
        },
        None => {},
    }
}

/// The panel was raised, or could not be. Where it could not, the request is denied: nobody
/// would see it.
pub fn shown<B: Backend>(policy: &mut Policy<B>, asked: Option<SessionStatus>, raised: bool) -> (r:
    Response)
    requires
        old(policy).wf(),
    ensures
        final(policy).wf(),
        if raised {
            &&& final(policy)@ == old(policy)@
            &&& match asked {
                Some(status) => r == Response::Status(status),
                None => r == Response::Done,
            }
        } else {
            &&& final(policy)@ == (match asked {
                Some(status) => after(
                    old(policy)@,
                    Step::Deny { id: status.session_id@, message: "授权界面不可用"@ },
                ),
                None => old(policy)@,
            })
            &&& r matches Response::Error(e)
            &&& e.says(ErrorCode::BackendUnavailable, "授权界面不可用"@)
        },
        old(policy)@.told(final(policy)@),
{
    match asked {
        Some(status) => {
            if raised {
                return Response::Status(status);
            }
            policy.deny(status.session_id.as_str(), "授权界面不可用".to_owned());
            Response::Error(Fault::unavailable("授权界面不可用"))
        },
        None => {
            if raised {
                Response::Done
            } else {
                Response::Error(Fault::unavailable("授权界面不可用"))
            }
        },
    }
}

/// Why a backend does not observe, if it does not: it is in use, or its target is gone.
pub fn check_observe(free: bool, alive: bool) -> (r: Result<(), Fault>)
    ensures
        if !free {
            r matches Err(e) && e.says(ErrorCode::Busy, "后端正在执行其他操作"@)
        } else if !alive {
            r matches Err(e) && e.says(ErrorCode::StaleTarget, "目标实例已退出"@)
        } else {
            r is Ok
        },
{
    if !free {
        Err(Fault::new(ErrorCode::Busy, "后端正在执行其他操作"))
    } else if !alive {
        Err(Fault::stale("目标实例已退出"))
    } else {
        Ok(())
    }
}

/// Why a backend does not act, if it does not: it is in use, the action was cancelled
/// meanwhile, or its target is gone.
pub fn check_act(free: bool, verdict: Result<(), Fault>, alive: bool) -> (r: Result<(), Fault>)
    ensures
        if !free {
            r matches Err(e) && e.says(ErrorCode::Busy, "后端正在执行其他操作"@)
        } else {
            match verdict {
                Err(f) => r matches Err(e) && e@ == f@,
                Ok(_) => if !alive {
                    r matches Err(e) && e.says(ErrorCode::StaleTarget, "目标实例已退出"@)
                } else {
                    r is Ok
                },
            }
        },
{
    if !free {
        return Err(Fault::new(ErrorCode::Busy, "后端正在执行其他操作"));
    }
    match verdict {
        Err(e) => Err(e),
        Ok(()) => {
            if !alive {
                Err(Fault::stale("目标实例已退出"))
            } else {
                Ok(())
            }
        },
    }
}

/// What came of an observation: what the backend gave, unless its task ended unexpectedly.
pub open spec fn outcome_fault<T>(outcome: Option<Result<T, Fault>>) -> Option<FaultView> {
    match outcome {
        None => Some(fault(ErrorCode::BackendUnavailable, "后端任务意外结束"@)),
        Some(Err(f)) => Some(f@),
        Some(Ok(_)) => None,
    }
}

/// Answers with an observation, given whether it was cancelled meanwhile, and keeps it for
/// the action that may follow.
pub fn observed_checked<B: Backend>(
    policy: &mut Policy<B>,
    owner: u128,
    id: &str,
    outcome: Option<Result<Observation, Fault>>,
    verdict: Result<(), Fault>,
) -> (r: Response)
    requires
        old(policy).wf(),
    ensures
        final(policy).wf(),
        match outcome_fault(outcome) {
            Some(f) => {
                &&& r matches Response::Error(e)
                &&& e@ == f
                &&& final(policy)@ == old(policy)@
            },
            None => match old(policy)@.remember_refusal(
                owner,
                id@,
                match verdict {
                    Ok(_) => None,
                    Err(e) => Some(e@),
                },
            ) {
                Some(f) => {
                    &&& r matches Response::Error(e)
                    &&& e@ == f
                    &&& final(policy)@ == old(policy)@
                },
                None => {
                    &&& r matches Response::Observation(o)
                    &&& o@ == outcome->0->Ok_0@
                    &&& final(policy)@ == old(policy)@.change(
                        id@,
                        |s: SessionView<B>| s.with_observation(Some(o@)),
                    )
                },
            },
        },
{
    match outcome {
        None => Response::Error(Fault::unavailable("后端任务意外结束")),
        Some(Err(e)) => Response::Error(e),
        Some(Ok(observation)) => {
            let kept = observation.clone();
            match policy.remember_checked(owner, id, kept, verdict) {
                Ok(()) => Response::Observation(observation),
                Err(e) => Response::Error(e),
            }
        },
    }
}

/// Answers with an observation, unless it was cancelled meanwhile.
pub fn observed<B: Backend>(
    policy: &mut Policy<B>,
    owner: u128,
    id: &str,
    outcome: Option<Result<Observation, Fault>>,
    cancel: &Cancellation,
) -> (r: Response)
    requires
        old(policy).wf(),
    ensures
        final(policy).wf(),
        match outcome_fault(outcome) {
            Some(f) => {
                &&& r matches Response::Error(e)
                &&& e@ == f
                &&& final(policy)@ == old(policy)@
            },
            None => match r {
                Response::Observation(o) => {
                    &&& old(policy)@.remember_refusal(owner, id@, None) is None
                    &&& o@ == outcome->0->Ok_0@
                    &&& final(policy)@ == old(policy)@.change(
                        id@,
                        |s: SessionView<B>| s.with_observation(Some(o@)),
                    )
                },
                Response::Error(e) => {
                    &&& final(policy)@ == old(policy)@
                    &&& old(policy)@.remember_refusal(owner, id@, None) == Some(e@)
                        || old(policy)@.owned(owner, id@) && e@ == crate::backend::cancelled()
                },
                _ => false,
            },
        },
        outcome_fault(outcome) is None && old(policy)@.remember_refusal(owner, id@, None) is None
            ==> exists|current: u64| #[trigger]
            may_read(*cancel.generation, current) && (r is Observation) == (current
                == cancel.captured),
{
    let verdict = cancel.check();
    observed_checked(policy, owner, id, outcome, verdict)
}

/// Answers an action.
pub fn acted(outcome: Option<Result<(), Fault>>) -> (r: Response)
    ensures
        match outcome_fault(outcome) {
            Some(f) => r matches Response::Error(e) && e@ == f,
            None => r == Response::Done,
        },
{
    match outcome {
        None => Response::Error(Fault::unavailable("后端任务意外结束")),
        Some(Err(e)) => Response::Error(e),
        Some(Ok(())) => Response::Done,
    }
}

/// What to do with a message of a client.
#[derive(Debug)]
pub enum Incoming {
    /// Answer that it is no request, and read on.
    Refuse(Response),
    /// Serve it, and read on.
    Serve(Request),
    /// Hang up: the client did not wait for an answer.
    HangUp,
}

/// Decides what to do with a message of a client. A client has one request at a time, but the
/// connection is read all the while, so that its end cancels what is running.
pub fn incoming(request: Option<Request>, idle: bool) -> (r: Incoming)
    ensures
        match request {
            None => r matches Incoming::Refuse(Response::Error(e)) && e.says(
                ErrorCode::InvalidRequest,
                "无效请求"@,
            ),
            Some(q) => if idle {
                r == Incoming::Serve(q)
            } else {
                r == Incoming::HangUp
            },
        },
{
    match request {
        None => Incoming::Refuse(Response::Error(Fault::invalid("无效请求"))),
        Some(q) => {
            if idle {
                Incoming::Serve(q)
            } else {
                Incoming::HangUp
            }
        },
    }
}

/// Whether a session must be closed, given what its backend said of its target. One that is
/// in use is asked later.
pub fn is_lost(alive: Option<bool>) -> (r: bool)
    ensures
        r == (alive == Some(false)),
{
    match alive {
        Some(a) => !a,
        None => false,
    }
}

/// The client's end of a connection. It is in use from a request until its answer: an
/// exchange that is broken off never leaves an answer to the next one.
pub struct Exchange {
    pub open: bool,
}

impl Exchange {
    pub fn new() -> (r: Self)
        ensures
            r.open,
    {
        Exchange { open: true }
    }

    /// A request is about to be sent.
    pub fn start(&mut self) -> (r: Result<(), Fault>)
        ensures
            !final(self).open,
            if old(self).open {
                r is Ok
            } else {
                r matches Err(e) && e.says(
                    ErrorCode::BackendUnavailable,
                    "MCP 连接已结束；请重新连接"@,
                )
            },
    {
        if self.open {
            self.open = false;
            Ok(())
        } else {
            Err(Fault::unavailable("MCP 连接已结束；请重新连接"))
        }
    }

    /// The answer was read whole.
    pub fn complete(&mut self)
        ensures
            final(self).open,
    {
        self.open = true;
    }
}

/// What a command of the local user comes to.
pub fn concluded(response: Response) -> (r: Result<(), Fault>)
    ensures
        match response {
            Response::Error(f) => r matches Err(e) && e@ == f@,
            _ => r is Ok,
        },
{
    match response {
        Response::Error(e) => Err(e),
        _ => Ok(()),
    }
}

} // verus!
