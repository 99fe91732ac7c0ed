//! What a client's requests do, what they are answered, and how the answers travel.
use vstd::prelude::*;

use crate::backend::Backend;
use crate::ipc::{
    acted, announced, begin, big, check_act, check_broker, check_observe, check_private,
    check_root, concluded, incoming, is_lost, observed_checked, read_frame, runtime_path,
    same_user, shown, write_frame, Begun, Exchange, FrameReader, FrameStep, Incoming, MAX_REQUEST,
    MAX_RESPONSE,
};
use crate::laws::permits::{inside, lemma_found, need};
use crate::laws::sessions::{as_before, paused, same_grant};
use crate::model::{
    Action, ErrorCode, Fault, Node, Observation, Point, Request, Response, SessionStatus, State,
    Target,
};
use crate::number::unit;
use crate::policy::Policy;
use crate::text::texts;

verus! {

/// A number that is framed stands before its message, highest byte first, and is read back from
/// there; nothing else is added.
pub proof fn framed_lengths_are_read_back(
    data: Vec<u8>,
    r: Result<Vec<u8>, Fault>,
    head: &Vec<u8>,
    limit: usize,
    n: Result<usize, Fault>,
)
    requires
        call_ensures(write_frame, (data,), r),
        call_ensures(read_frame, (head, limit), n),
        head@.len() == 4,
        r is Ok ==> head@ == r->Ok_0@.take(4),
    ensures
        r is Ok <==> data@.len() <= 67108864,
        r matches Ok(f) ==> {
            &&& f@.len() == data@.len() + 4
            &&& f@.skip(4) == data@
            &&& f@[0] * 0x100_0000 + f@[1] * 0x1_0000 + f@[2] * 0x100 + f@[3] == data@.len()
            &&& n is Ok <==> 0 < data@.len() <= limit
            &&& n matches Ok(length) ==> length == data@.len()
        },
        r matches Err(e) ==> e.code == ErrorCode::BackendUnavailable
            && e.message@ == "IPC 响应过大"@,
{
    if r is Ok {
        let f = r->Ok_0@;
        let m = data@.len() as u32;
        assert(f.skip(4) =~= data@);
        assert(head@ =~= big(m));
        assert(m / 16777216 < 256);
        assert(m / 16777216 * 16777216 + m / 65536 % 256 * 65536 + m / 256 % 256 * 256 + m % 256
            == m);
        assert(f[0] == big(m)[0] && f[1] == big(m)[1] && f[2] == big(m)[2] && f[3] == big(m)[3]);
    }
}

/// A reader asks for the head first, then for what it announces, and gives the message once it
/// has it all, without the head. An announced size that is wrong is refused at once.
pub proof fn frames_are_read_head_first(reader: FrameReader, r: FrameStep, n: int)
    requires
        call_ensures(FrameReader::next, (&reader,), r),
        reader.taken@.len() >= 4 ==> n == reader.taken@[0] * 0x100_0000 + reader.taken@[1]
            * 0x1_0000 + reader.taken@[2] * 0x100 + reader.taken@[3],
    ensures
        reader.taken@.len() < 4 ==> r == FrameStep::More((4 - reader.taken@.len()) as usize),
        reader.taken@.len() >= 4 ==> {
            &&& r is Refused <==> !(0 < n <= reader.limit)
            &&& r is More <==> 0 < n <= reader.limit && reader.taken@.len() < 4 + n
            &&& r matches FrameStep::More(more) ==> more == 4 + n - reader.taken@.len()
            &&& r matches FrameStep::Message(m) ==> m@.len() == n && m@ == reader.taken@.subrange(
                4,
                4 + n,
            )
            &&& r matches FrameStep::Refused(e) ==> e.code == ErrorCode::BackendUnavailable
        },
{
    if reader.taken@.len() >= 4 {
        let head = reader.taken@.take(4);
        assert(head[0] == reader.taken@[0] && head[1] == reader.taken@[1] && head[2]
            == reader.taken@[2] && head[3] == reader.taken@[3]);
        assert(announced(head) == n);
    } else {
        assert(r@ == crate::ipc::FrameView::More(4 - reader.taken@.len()));
    }
}

/// What is read is kept in the order in which it came.
pub proof fn bytes_are_taken_in_order(
    before: FrameReader,
    after: FrameReader,
    bytes: Vec<u8>,
    fresh: FrameReader,
    limit: usize,
)
    requires
        exists|f: &mut FrameReader|
            *f == before && *final(f) == after && #[trigger] call_ensures(
                FrameReader::feed,
                (f, bytes),
                (),
            ),
        call_ensures(FrameReader::new, (limit,), fresh),
    ensures
        after.taken@ == before.taken@ + bytes@,
        after.limit == before.limit,
        fresh.limit == limit && fresh.taken@.len() == 0,
{
}

/// The socket stands in a directory of its own below the user's.
pub proof fn the_socket_stands_below_the_users_directory(
    root: &Vec<u8>,
    r: Result<Vec<u8>, Fault>,
    none: Result<Vec<u8>, Fault>,
)
    requires
        call_ensures(runtime_path, (Some(root),), r),
        call_ensures(runtime_path, (None::<&Vec<u8>>,), none),
    ensures
        r is Ok,
        root@.len() > 0 && root@.last() != 0x2f ==> r->Ok_0@ == root@ + seq![0x2fu8]
            + vstd::utf8::encode_utf8("computer-use-linux"@),
        root@.len() > 0 && root@.last() == 0x2f ==> r->Ok_0@ == root@ + vstd::utf8::encode_utf8(
            "computer-use-linux"@,
        ),
        none matches Err(e) && e.code == ErrorCode::BackendUnavailable
            && e.message@ == "缺少 XDG_RUNTIME_DIR"@,
{
    reveal_strlit("computer-use-linux");
    let name = "computer-use-linux"@;
    assert(vstd::utf8::is_ascii_chars(name)) by {
        assert forall|i: int| 0 <= i < name.len() implies 0 <= #[trigger] name[i] as nat
            && (name[i] as nat) < 128 by {}
    }
    vstd::utf8::is_ascii_chars_encode_utf8(name);
    assert(vstd::utf8::encode_utf8(name)[0] == 0x63);
    assert(!crate::path::absolute(vstd::utf8::encode_utf8(name)));
    assert(root@.push(0x2fu8) =~= root@ + seq![0x2fu8]);
}

/// The directory of the socket must be a directory, the user's, and closed to all others; only
/// the user is served.
pub proof fn the_socket_is_the_users_alone(
    directory: bool,
    owner: u32,
    user: u32,
    mode: u32,
    root: Result<(), Fault>,
    private: Result<(), Fault>,
    same: bool,
    broker: Result<(), Fault>,
)
    requires
        call_ensures(check_root, (directory, owner, user), root),
        call_ensures(check_private, (directory, owner, user, mode), private),
        call_ensures(same_user, (owner, user), same),
        call_ensures(check_broker, (owner, user), broker),
    ensures
        root is Ok <==> directory && owner == user,
        private is Ok <==> directory && owner == user && mode & 0o077 == 0,
        same <==> owner == user,
        broker is Ok <==> owner == user,
        root matches Err(e) ==> e.code == ErrorCode::BackendUnavailable
            && e.message@ == "运行目录不属于当前用户"@,
        private matches Err(e) ==> e.code == ErrorCode::BackendUnavailable
            && e.message@ == "MCP 运行目录权限必须为 0700，且不能是符号链接"@,
        broker matches Err(e) ==> e.code == ErrorCode::BackendUnavailable
            && e.message@ == "服务用户不匹配"@,
{
    assert(mode & 0o077 == mode % 64) by (bit_vector);
}

/// A backend in use is busy, one whose target is gone is stale, and a cancelled action says why;
/// otherwise it goes on.
pub proof fn backends_work_when_free_and_alive(
    free: bool,
    alive: bool,
    verdict: Result<(), Fault>,
    observing: Result<(), Fault>,
    acting: Result<(), Fault>,
)
    requires
        call_ensures(check_observe, (free, alive), observing),
        call_ensures(check_act, (free, verdict, alive), acting),
    ensures
        observing is Ok <==> free && alive,
        acting is Ok <==> free && alive && verdict is Ok,
        !free ==> observing->Err_0.code == ErrorCode::Busy && acting->Err_0.code
            == ErrorCode::Busy,
        free && !alive ==> observing->Err_0.code == ErrorCode::StaleTarget,
        free && !alive && verdict is Ok ==> acting->Err_0.code == ErrorCode::StaleTarget,
        free && verdict is Err ==> acting->Err_0@ == verdict->Err_0@,
{
}

/// An action is done if its backend did it; else the answer says why not. A command of the user
/// fails exactly if its answer is an error.
pub proof fn failed_actions_are_answered_with_their_fault(
    outcome: Option<Result<(), Fault>>,
    r: Response,
    response: Response,
    end: Result<(), Fault>,
)
    requires
        call_ensures(acted, (outcome,), r),
        call_ensures(concluded, (response,), end),
    ensures
        r is Done <==> (outcome matches Some(Ok(_))),
        outcome matches Some(Err(f)) ==> (r matches Response::Error(e) && e.code == f.code
            && e.message@ == f.message@),
        outcome is None ==> (r matches Response::Error(e) && e.code
            == ErrorCode::BackendUnavailable),
        end is Err <==> response is Error,
        response matches Response::Error(f) ==> end->Err_0.code == f.code
            && end->Err_0.message@ == f.message@,
{
    if outcome is Some && outcome->0 is Err {
        assert(r->Error_0@ == outcome->0->Err_0@);
    }
    if response is Error {
        assert(end->Err_0@ == response->Error_0@);
    }
}

/// A client is served one request at a time: one that sends another before its answer is hung up
/// on, and what is no request is refused.
pub proof fn clients_are_served_one_request_at_a_time(
    request: Option<Request>,
    idle: bool,
    r: Incoming,
    alive: Option<bool>,
    lost: bool,
)
    requires
        call_ensures(incoming, (request, idle), r),
        call_ensures(is_lost, (alive,), lost),
    ensures
        r is Serve <==> request is Some && idle,
        r is HangUp <==> request is Some && !idle,
        r is Refuse <==> request is None,
        r matches Incoming::Serve(q) ==> Some(q) == request,
        r matches Incoming::Refuse(answer) ==> (answer matches Response::Error(e) && e.code
            == ErrorCode::InvalidRequest),
        lost <==> alive matches Some(false),
{
}

/// An exchange that began must end before the next one begins.
pub proof fn exchanges_end_before_the_next(
    before: Exchange,
    started: Exchange,
    r: Result<(), Fault>,
    ended: Exchange,
    fresh: Exchange,
)
    requires
        exists|x: &mut Exchange|
            *x == before && *final(x) == started && #[trigger] call_ensures(
                Exchange::start,
                (x,),
                r,
            ),
        exists|x: &mut Exchange|
            *x == started && *final(x) == ended && #[trigger] call_ensures(
                Exchange::complete,
                (x,),
                (),
            ),
        call_ensures(Exchange::new, (), fresh),
    ensures
        r is Ok <==> before.open,
        !started.open,
        ended.open,
        fresh.open,
        r matches Err(e) ==> e.code == ErrorCode::BackendUnavailable
            && e.message@ == "MCP 连接已结束；请重新连接"@,
{
}

proof fn lemma_views<B: Backend>(p: Policy<B>)
    ensures
        p@.sessions.len() == p.sessions@.len(),
        forall|j: int| 0 <= j < p.sessions@.len() ==> #[trigger] p@.sessions[j] == p.sessions@[j]@,
{
}

/// A client that asks for a status learns that of its own session, and nothing changes; of one
/// that is another's it learns nothing.
pub proof fn asking_for_a_status_changes_nothing<B: Backend>(
    before: Policy<B>,
    after: Policy<B>,
    owner: u128,
    request: Request,
    r: Begun<B>,
    i: int,
)
    requires
        exists|p: &mut Policy<B>|
            *p == before && *final(p) == after && #[trigger] call_ensures(
                begin::<B>,
                (p, owner, request),
                r,
            ),
        before.wf(),
        request is SessionStatus,
        0 <= i < before.sessions@.len(),
        before.sessions@[i].status.session_id@ == request->SessionStatus_0.session_id@,
    ensures
        after@ == before@,
        before.sessions@[i].owner == owner ==> {
            &&& r matches Begun::Answer { response: Response::Status(status), detach }
            &&& detach is None
            &&& status@ == before.sessions@[i].status@
        },
        before.sessions@[i].owner != owner ==> {
            &&& r matches Begun::Answer { response: Response::Error(e), detach }
            &&& detach is None
            &&& e.code == ErrorCode::PermissionDenied
        },
{
    lemma_found(before, i, owner, request->SessionStatus_0.session_id@);
}

/// A client that closes its session ends it at once, and its backend is to be detached; it
/// cannot close another's, nor change any other.
pub proof fn closing_ends_only_the_clients_own<B: Backend>(
    before: Policy<B>,
    after: Policy<B>,
    owner: u128,
    request: Request,
    r: Begun<B>,
    i: int,
    j: int,
)
    requires
        exists|p: &mut Policy<B>|
            *p == before && *final(p) == after && #[trigger] call_ensures(
                begin::<B>,
                (p, owner, request),
                r,
            ),
        before.wf(),
        request is CloseSession,
        0 <= i < before.sessions@.len(),
        before.sessions@[i].status.session_id@ == request->CloseSession_0.session_id@,
        0 <= j < before.sessions@.len(),
    ensures
        before.sessions@[i].owner == owner ==> {
            &&& r matches Begun::Answer { response: Response::Done, detach }
            &&& detach == before.sessions@[i].backend
            &&& after.sessions@.len() == before.sessions@.len()
            &&& after.sessions@[i].status.state == State::Closed
            &&& after.sessions@[i].observation is None
            &&& after.sessions@[i].generation != before.sessions@[i].generation
            &&& j != i ==> as_before(before.sessions@[j], after.sessions@[j])
        },
        before.sessions@[i].owner != owner ==> {
            &&& r matches Begun::Answer { response: Response::Error(e), detach }
            &&& detach is None
            &&& e.code == ErrorCode::PermissionDenied
            &&& after@ == before@
        },
{
    let id = request->CloseSession_0.session_id@;
    lemma_found(before, i, owner, id);
    lemma_views(before);
    lemma_views(after);
    if before.sessions@[i].owner == owner {
        assert(after@ == before@.closed(id));
        assert(before@.sessions[i].id() == id);
        if j != i {
            assert(before@.sessions[j].id() != id);
            assert(after@.sessions[j] == after.sessions@[j]@);
        }
        assert(after@.sessions[i] == after.sessions@[i]@);
    }
}

/// A client that pauses everything pauses every active session, and one that asks for the panel
/// has it shown, which pauses them too.
pub proof fn clients_may_always_pause<B: Backend>(
    before: Policy<B>,
    after: Policy<B>,
    owner: u128,
    request: Request,
    r: Begun<B>,
    j: int,
)
    requires
        exists|p: &mut Policy<B>|
            *p == before && *final(p) == after && #[trigger] call_ensures(
                begin::<B>,
                (p, owner, request),
                r,
            ),
        before.wf(),
        request is PauseAll || request is ShowUi,
        0 <= j < before.sessions@.len(),
    ensures
        after.sessions@.len() == before.sessions@.len(),
        paused(before.sessions@[j], after.sessions@[j]),
        request is PauseAll ==> {
            &&& r matches Begun::Answer { response: Response::Done, detach }
            &&& detach is None
            &&& after.ui_visible == before.ui_visible
        },
        request is ShowUi ==> {
            &&& r matches Begun::Show { asked }
            &&& asked is None
            &&& after.ui_visible
        },
{
    lemma_views(before);
    lemma_views(after);
    assert(after@.sessions[j] == after.sessions@[j]@);
}

/// A client that observes is handed what it asked for, under the authority of its own session,
/// and nothing changes.
pub proof fn observing_is_handed_to_the_backend<B: Backend>(
    before: Policy<B>,
    after: Policy<B>,
    owner: u128,
    request: Request,
    r: Begun<B>,
    i: int,
)
    requires
        exists|p: &mut Policy<B>|
            *p == before && *final(p) == after && #[trigger] call_ensures(
                begin::<B>,
                (p, owner, request),
                r,
            ),
        before.wf(),
        request is Observe,
        0 <= i < before.sessions@.len(),
        before.sessions@[i].status.session_id@ == request->Observe_0.session_id@,
    ensures
        after@ == before@,
        r is Observe || (r matches Begun::Answer { response: Response::Error(_), detach }
            && detach is None),
        before.sessions@[i].owner != owner ==> !(r is Observe),
        r matches Begun::Observe { permit, session_id, target } ==> {
            &&& session_id@ == request->Observe_0.session_id@
            &&& target == request->Observe_0.target
            &&& Some(permit.backend) == before.sessions@[i].backend
            &&& permit.cancel.generation == before.sessions@[i].signal
            &&& permit.cancel.captured == before.sessions@[i].generation
        },
{
    lemma_found(before, i, owner, request->Observe_0.session_id@);
}

/// A client's action is handed to its session's own backend as it was asked for, and its
/// observation is used up; a refused one changes nothing.
pub proof fn acting_uses_up_the_observation<B: Backend>(
    before: Policy<B>,
    after: Policy<B>,
    owner: u128,
    request: Request,
    r: Begun<B>,
    i: int,
    j: int,
)
    requires
        exists|p: &mut Policy<B>|
            *p == before && *final(p) == after && #[trigger] call_ensures(
                begin::<B>,
                (p, owner, request),
                r,
            ),
        before.wf(),
        request is Act,
        0 <= i < before.sessions@.len(),
        before.sessions@[i].status.session_id@ == request->Act_0.session_id@,
        0 <= j < before.sessions@.len(),
    ensures
        r is Act || (r matches Begun::Answer { response: Response::Error(_), detach }
            && detach is None && after@ == before@),
        before.sessions@[i].owner != owner ==> !(r is Act),
        r matches Begun::Act { permit, action } ==> {
            &&& action == request->Act_0.action
            &&& Some(permit.backend) == before.sessions@[i].backend
            &&& permit.cancel.captured == before.sessions@[i].generation
            &&& before.sessions@[i].status.state == State::Active
            &&& before.sessions@[i].observation is Some
            &&& after.sessions@.len() == before.sessions@.len()
            &&& after.sessions@[i].observation is None
            &&& same_grant(before.sessions@[i], after.sessions@[i])
            &&& after.sessions@[i].status.state == State::Active
            &&& j != i ==> as_before(before.sessions@[j], after.sessions@[j])
        },
{
    let id = request->Act_0.session_id@;
    lemma_found(before, i, owner, id);
    lemma_views(before);
    lemma_views(after);
    if r is Act {
        assert(before@.sessions[i].id() == id);
        assert(after@.sessions[i] == after.sessions@[i]@);
        assert(after@.sessions[i].observation is None);
        if j != i {
            assert(before@.sessions[j].id() != id);
            assert(after@.sessions[j] == after.sessions@[j]@);
        }
    }
}

/// A request of authorization that cannot be shown is denied; one that was shown is answered
/// with its status.
pub proof fn requests_that_nobody_sees_are_denied<B: Backend>(
    before: Policy<B>,
    after: Policy<B>,
    status: SessionStatus,
    raised: bool,
    r: Response,
    j: int,
)
    requires
        exists|p: &mut Policy<B>|
            *p == before && *final(p) == after && #[trigger] call_ensures(
                shown::<B>,
                (p, Some(status), raised),
                r,
            ),
        before.wf(),
        0 <= j < before.sessions@.len(),
    ensures
        raised ==> r == Response::Status(status) && after@ == before@,
        !raised ==> {
            &&& r matches Response::Error(e)
            &&& e.code == ErrorCode::BackendUnavailable
            &&& after.sessions@.len() == before.sessions@.len()
            &&& if before.sessions@[j].status.session_id@ == status.session_id@ {
                after.sessions@[j].status.state == State::Denied
                    && after.sessions@[j].observation is None
            } else {
                as_before(before.sessions@[j], after.sessions@[j])
            }
        },
{
    lemma_views(before);
    lemma_views(after);
    if !raised {
        assert(after@.sessions[j] == after.sessions@[j]@);
        assert(before@.sessions[j].id() == before.sessions@[j].status.session_id@);
    }
}

/// What a backend observed is answered and kept for the session that asked, if the session is
/// the client's, authorized, and was not halted meanwhile; otherwise nothing is kept.
pub proof fn observations_are_answered_and_kept<B: Backend>(
    before: Policy<B>,
    after: Policy<B>,
    owner: u128,
    id: &str,
    outcome: Option<Result<Observation, Fault>>,
    verdict: Result<(), Fault>,
    r: Response,
    i: int,
    j: int,
)
    requires
        exists|p: &mut Policy<B>|
            *p == before && *final(p) == after && #[trigger] call_ensures(
                observed_checked::<B>,
                (p, owner, id, outcome, verdict),
                r,
            ),
        before.wf(),
        0 <= i < before.sessions@.len(),
        before.sessions@[i].status.session_id@ == id@,
        0 <= j < before.sessions@.len(),
    ensures
        r is Observation <==> {
            &&& outcome matches Some(Ok(_))
            &&& verdict is Ok
            &&& before.sessions@[i].owner == owner
            &&& before.sessions@[i].status.state == State::Active
                || before.sessions@[i].status.state == State::Paused
        },
        r matches Response::Observation(o) ==> {
            &&& o@ == outcome->0->Ok_0@
            &&& after.sessions@.len() == before.sessions@.len()
            &&& after.sessions@[i].observation matches Some(kept)
            &&& kept@ == o@
            &&& same_grant(before.sessions@[i], after.sessions@[i])
            &&& after.sessions@[i].status.state == before.sessions@[i].status.state
            &&& after.sessions@[i].generation == before.sessions@[i].generation
            &&& j != i ==> as_before(before.sessions@[j], after.sessions@[j])
        },
        !(r is Observation) ==> r is Error && after@ == before@,
{
    lemma_found(before, i, owner, id@);
    lemma_views(before);
    lemma_views(after);
    if r is Observation {
        assert(before@.sessions[i].id() == id@);
        assert(after@.sessions[i] == after.sessions@[i]@);
        if j != i {
            assert(before@.sessions[j].id() != id@);
            assert(after@.sessions[j] == after.sessions@[j]@);
        }
    }
}

/// Whether a place is in a picture: what goes to the right below its width, what goes down below
/// its height.
pub open spec fn in_picture(at: Point, width: u32, height: u32) -> bool {
    inside(at.x, width) && inside(at.y, height)
}

/// Actions are valid that stay in the picture and within the limits of their kind; anything else
/// is an invalid request.
pub proof fn valid_actions_stay_in_the_picture(
    action: Action,
    width: u32,
    height: u32,
    r: Result<(), Fault>,
    name: &'static str,
)
    requires
        call_ensures(Action::validate, (&action, width, height), r),
        call_ensures(Action::capability, (&action,), name),
    ensures
        action matches Action::Click { at, .. } ==> (r is Ok <==> in_picture(at, width, height)),
        action matches Action::Drag { from, to } ==> (r is Ok <==> in_picture(from, width, height)
            && in_picture(to, width, height)),
        action matches Action::Scroll { at, dx, dy } ==> (r is Ok <==> {
            &&& in_picture(at, width, height)
            &&& dx.finite() && -2000 * unit() <= dx.value() <= 2000 * unit()
            &&& dy.finite() && -2000 * unit() <= dy.value() <= 2000 * unit()
        }),
        action matches Action::Text { text } ==> (r is Ok <==> vstd::utf8::encode_utf8(
            text@,
        ).len() <= 65536),
        action matches Action::SetText { text, .. } ==> (r is Ok <==> vstd::utf8::encode_utf8(
            text@,
        ).len() <= 65536),
        action matches Action::Key { key, modifiers } ==> (r is Ok <==> vstd::utf8::encode_utf8(
            key@,
        ).len() <= 64 && modifiers@.len() <= 4),
        action is Invoke || action is FocusWindow ==> r is Ok,
        r matches Err(e) ==> e.code == ErrorCode::InvalidRequest,
        name@ == need(action),
{
}

/// A fault is described by the name of its code, a colon, and what it says; every way to make
/// one gives it its own code and the message that is asked for.
pub proof fn faults_say_what_they_are(
    f: Fault,
    line: String,
    code: ErrorCode,
    message: &str,
    new: Fault,
    denied: Fault,
    invalid: Fault,
    unavailable: Fault,
    stale: Fault,
    unsupported: Fault,
    copy: Fault,
)
    requires
        call_ensures(Fault::describe, (&f,), line),
        call_ensures(Fault::new, (code, message), new),
        call_ensures(Fault::denied, (message,), denied),
        call_ensures(Fault::invalid, (message,), invalid),
        call_ensures(Fault::unavailable, (message,), unavailable),
        call_ensures(Fault::stale, (message,), stale),
        call_ensures(Fault::unsupported, (message,), unsupported),
        call_ensures(Fault::clone, (&f,), copy),
    ensures
        line@ == (match f.code {
            ErrorCode::PermissionDenied => "PermissionDenied"@,
            ErrorCode::Paused => "Paused"@,
            ErrorCode::Unsupported => "Unsupported"@,
            ErrorCode::StaleTarget => "StaleTarget"@,
            ErrorCode::BackendUnavailable => "BackendUnavailable"@,
            ErrorCode::InvalidRequest => "InvalidRequest"@,
            ErrorCode::Busy => "Busy"@,
        }) + ": "@ + f.message@,
        new.code == code && new.message@ == message@,
        denied.code == ErrorCode::PermissionDenied && denied.message@ == message@,
        invalid.code == ErrorCode::InvalidRequest && invalid.message@ == message@,
        unavailable.code == ErrorCode::BackendUnavailable && unavailable.message@ == message@,
        stale.code == ErrorCode::StaleTarget && stale.message@ == message@,
        unsupported.code == ErrorCode::Unsupported && unsupported.message@ == message@,
        copy == f,
{
}

/// Copies hold what was copied, field by field.
pub proof fn copies_hold_what_was_copied(
    t: Target,
    target: Target,
    s: SessionStatus,
    status: SessionStatus,
    o: Observation,
    observation: Observation,
    n: Node,
    node: Node,
)
    requires
        call_ensures(Target::clone, (&t,), target),
        call_ensures(SessionStatus::clone, (&s,), status),
        call_ensures(Observation::clone, (&o,), observation),
        call_ensures(Node::clone, (&n,), node),
    ensures
        target == t,
        status.session_id@ == s.session_id@,
        status.scope == s.scope && status.mode == s.mode && status.state == s.state,
        status.label is Some == s.label is Some,
        status.label matches Some(label) ==> label@ == s.label->0@,
        texts(status.capabilities@) == texts(s.capabilities@),
        status.targets@.len() == s.targets@.len(),
        status.message is Some == s.message is Some,
        status.message matches Some(m) ==> m@ == s.message->0@,
        observation.observation_id@ == o.observation_id@,
        observation.target.id@ == o.target.id@,
        observation.target.width == o.target.width && observation.target.height
            == o.target.height && observation.target.scale == o.target.scale,
        observation.png_base64 is Some == o.png_base64 is Some,
        observation.png_base64 matches Some(png) ==> png@ == o.png_base64->0@,
        observation.nodes@.len() == o.nodes@.len(),
        observation.windows@.len() == o.windows@.len(),
        node.id@ == n.id@ && node.name@ == n.name@ && node.role@ == n.role@,
        node.text is Some == n.text is Some,
        node.text matches Some(text) ==> text@ == n.text->0@,
        texts(node.actions@) == texts(n.actions@),
        node.children@.len() == n.children@.len(),
{
    assert(status@.targets.len() == s@.targets.len());
    assert(status@.label == s@.label && status@.message == s@.message);
    assert(observation@.png_base64 == o@.png_base64);
    assert(observation@.nodes.len() == o@.nodes.len());
    assert(observation@.windows.len() == o@.windows.len());
    let a = crate::model::node_view(node);
    let b = crate::model::node_view(n);
    assert(a.children.len() == b.children.len());
    assert(a.text == b.text);
}

/// A request of the longest text is no more than half of what a request may hold, and a request
/// that is no larger can always be framed.
pub proof fn requests_have_room_for_the_longest_text(
    action: Action,
    r: Result<(), Fault>,
    text: String,
)
    requires
        action == (Action::Text { text }),
        call_ensures(Action::validate, (&action, 0, 0), r),
        r is Ok,
    ensures
        2 * vstd::utf8::encode_utf8(text@).len() <= MAX_REQUEST,
        MAX_REQUEST == 128 * 1024,
        MAX_REQUEST < MAX_RESPONSE,
{
}

} // verus!
