//! What each decision does to every session, told from what the policy held before and after.
use vstd::prelude::*;

use crate::backend::Backend;
use crate::model::{ErrorCode, Fault, Mode, Scope, SessionRequest, SessionStatus, State, Target};
use crate::policy::{views, BackendHandle, Policy, Session, SessionView};

verus! {

/// Whether a session is as it was, in everything that is known of it.
pub open spec fn as_before<B: Backend>(a: Session<B>, b: Session<B>) -> bool {
    b@ == a@
}

/// Whether a session is the same authorization: same client, name, scope, mode, offers, backend,
/// views and requested application. Only its state, its message, its generation and what was
/// observed may differ.
pub open spec fn same_grant<B: Backend>(a: Session<B>, b: Session<B>) -> bool {
    &&& b.owner == a.owner
    &&& b.status.session_id@ == a.status.session_id@
    &&& b.status.scope == a.status.scope
    &&& b.status.mode == a.status.mode
    &&& b@.status.label == a@.status.label
    &&& b@.status.capabilities == a@.status.capabilities
    &&& b@.status.targets == a@.status.targets
    &&& b.backend == a.backend
    &&& b.signal == a.signal
    &&& b.visible_views == a.visible_views
    &&& b@.requested_application == a@.requested_application
}

/// Whether a session was paused as far as it was active: what ran is cancelled, and what was
/// observed is forgotten.
pub open spec fn paused<B: Backend>(a: Session<B>, b: Session<B>) -> bool {
    if a.status.state == State::Active {
        &&& same_grant(a, b)
        &&& b.status.state == State::Paused
        &&& b.generation != a.generation
        &&& b.observation is None
        &&& b@.status.message == a@.status.message
    } else {
        as_before(a, b)
    }
}

proof fn lemma_views<B: Backend>(p: Policy<B>)
    ensures
        p@.sessions.len() == p.sessions@.len(),
        forall|j: int| 0 <= j < p.sessions@.len() ==> #[trigger] p@.sessions[j] == p.sessions@[j]@,
{
}

/// Pausing everything pauses every active session and touches nothing else.
pub proof fn pausing_all_pauses_the_active<B: Backend>(before: Policy<B>, after: Policy<B>, j: int)
    requires
        exists|p: &mut Policy<B>|
            *p == before && *final(p) == after && #[trigger] call_ensures(
                Policy::<B>::pause_all,
                (p,),
                (),
            ),
        before.wf(),
        0 <= j < before.sessions@.len(),
    ensures
        after.sessions@.len() == before.sessions@.len(),
        paused(before.sessions@[j], after.sessions@[j]),
        after.ui_visible == before.ui_visible,
        after.manual_previews == before.manual_previews,
        after@.clients == before@.clients,
        after@.retained == before@.retained,
        after@.input_backends == before@.input_backends,
{
    lemma_views(before);
    lemma_views(after);
    assert(after@.sessions[j] == after.sessions@[j]@);
}

/// Opening the panel pauses every active session, and the panel is seen; hiding it resumes none.
pub proof fn the_panel_pauses_while_it_is_open<B: Backend>(
    before: Policy<B>,
    after: Policy<B>,
    j: int,
)
    requires
        exists|p: &mut Policy<B>|
            *p == before && *final(p) == after && #[trigger] call_ensures(
                Policy::<B>::open_ui,
                (p,),
                (),
            ),
        before.wf(),
        0 <= j < before.sessions@.len(),
    ensures
        after.sessions@.len() == before.sessions@.len(),
        paused(before.sessions@[j], after.sessions@[j]),
        after.ui_visible,
        after.ui_epoch != before.ui_epoch,
        after.manual_previews == before.manual_previews,
        after@.clients == before@.clients,
        after@.retained == before@.retained,
{
    lemma_views(before);
    lemma_views(after);
    assert(after@.sessions[j] == after.sessions@[j]@);
}

/// Hiding the panel changes nothing but that it is hidden.
pub proof fn hiding_the_panel_resumes_nothing<B: Backend>(
    before: Policy<B>,
    after: Policy<B>,
    j: int,
)
    requires
        exists|p: &mut Policy<B>|
            *p == before && *final(p) == after && #[trigger] call_ensures(
                Policy::<B>::hide_ui,
                (p,),
                (),
            ),
        0 <= j < before.sessions@.len(),
    ensures
        after.sessions@.len() == before.sessions@.len(),
        as_before(before.sessions@[j], after.sessions@[j]),
        !after.ui_visible,
        after.ui_epoch == before.ui_epoch,
        after.manual_previews == before.manual_previews,
        after@.clients == before@.clients,
        after@.retained == before@.retained,
{
    lemma_views(before);
    lemma_views(after);
    assert(after@.sessions[j] == after.sessions@[j]@);
}

/// Pausing one session pauses that one, and no other.
pub proof fn pausing_one_pauses_that_one<B: Backend>(
    before: Policy<B>,
    after: Policy<B>,
    id: &str,
    j: int,
)
    requires
        exists|p: &mut Policy<B>|
            *p == before && *final(p) == after && #[trigger] call_ensures(
                Policy::<B>::pause,
                (p, id),
                (),
            ),
        before.wf(),
        0 <= j < before.sessions@.len(),
    ensures
        after.sessions@.len() == before.sessions@.len(),
        before.sessions@[j].status.session_id@ == id@ ==> paused(
            before.sessions@[j],
            after.sessions@[j],
        ),
        before.sessions@[j].status.session_id@ != id@ ==> as_before(
            before.sessions@[j],
            after.sessions@[j],
        ),
        after.ui_visible == before.ui_visible,
        after.manual_previews == before.manual_previews,
{
    lemma_views(before);
    lemma_views(after);
    assert(after@.sessions[j] == after.sessions@[j]@);
}

/// A denied session is denied with the message given, what it did is cancelled, and no other
/// session is touched.
pub proof fn denying_ends_one_session<B: Backend>(
    before: Policy<B>,
    after: Policy<B>,
    id: &str,
    message: String,
    j: int,
)
    requires
        exists|p: &mut Policy<B>|
            *p == before && *final(p) == after && #[trigger] call_ensures(
                Policy::<B>::deny,
                (p, id, message),
                (),
            ),
        before.wf(),
        0 <= j < before.sessions@.len(),
    ensures
        after.sessions@.len() == before.sessions@.len(),
        before.sessions@[j].status.session_id@ == id@ ==> {
            let s = after.sessions@[j];
            &&& same_grant(before.sessions@[j], s)
            &&& s.status.state == State::Denied
            &&& s.status.message matches Some(m)
            &&& m@ == message@
            &&& s.generation != before.sessions@[j].generation
            &&& s.observation is None
        },
        before.sessions@[j].status.session_id@ != id@ ==> as_before(
            before.sessions@[j],
            after.sessions@[j],
        ),
{
    lemma_views(before);
    lemma_views(after);
    assert(after@.sessions[j] == after.sessions@[j]@);
}

/// A view that opens is counted, for its session alone, and pauses nothing.
pub proof fn opened_views_are_counted<B: Backend>(
    before: Policy<B>,
    after: Policy<B>,
    id: &str,
    j: int,
)
    requires
        exists|p: &mut Policy<B>|
            *p == before && *final(p) == after && #[trigger] call_ensures(
                Policy::<B>::view_opened,
                (p, id),
                (),
            ),
        before.wf(),
        0 <= j < before.sessions@.len(),
        before.sessions@[j].visible_views < usize::MAX,
    ensures
        after.sessions@.len() == before.sessions@.len(),
        ({
            let (a, b) = (before.sessions@[j], after.sessions@[j]);
            &&& b.visible_views - a.visible_views == (if a.status.session_id@ == id@ {
                1int
            } else {
                0
            })
            &&& b.status@ == a.status@
            &&& b.generation == a.generation
            &&& b@.observation == a@.observation
            &&& b.backend == a.backend
        }),
{
    lemma_views(before);
    lemma_views(after);
    assert(after@.sessions[j] == after.sessions@[j]@);
}

/// A view that closes is counted out, and its session pauses exactly if none is left.
pub proof fn the_last_closed_view_pauses_its_session<B: Backend>(
    before: Policy<B>,
    after: Policy<B>,
    id: &str,
    j: int,
)
    requires
        exists|p: &mut Policy<B>|
            *p == before && *final(p) == after && #[trigger] call_ensures(
                Policy::<B>::view_closed,
                (p, id),
                (),
            ),
        before.wf(),
        0 <= j < before.sessions@.len(),
    ensures
        after.sessions@.len() == before.sessions@.len(),
        before.sessions@[j].status.session_id@ != id@ ==> as_before(
            before.sessions@[j],
            after.sessions@[j],
        ),
        before.sessions@[j].status.session_id@ == id@ ==> {
            let (a, b) = (before.sessions@[j], after.sessions@[j]);
            &&& a.visible_views > 0 ==> b.visible_views == a.visible_views - 1
            &&& a.visible_views == 0 ==> b.visible_views == 0
            &&& a.status.state == State::Active && b.visible_views == 0 ==> {
                &&& b.status.state == State::Paused
                &&& b.generation != a.generation
                &&& b.observation is None
            }
            &&& a.status.state != State::Active || b.visible_views > 0 ==> {
                &&& b.status@ == a.status@
                &&& b.generation == a.generation
                &&& b@.observation == a@.observation
            }
            &&& b.backend == a.backend
        },
{
    lemma_views(before);
    lemma_views(after);
    assert(after@.sessions[j] == after.sessions@[j]@);
}

/// The sessions of a client that are neither closed nor denied.
pub open spec fn living<B: Backend>(sessions: Seq<Session<B>>, owner: u128) -> nat
    decreases sessions.len(),
{
    if sessions.len() == 0 {
        0
    } else {
        let s = sessions.last();
        living(sessions.drop_last(), owner) + (if s.owner == owner && (s.status.state
            == State::Pending || s.status.state == State::Active || s.status.state
            == State::Paused) {
            1nat
        } else {
            0
        })
    }
}

proof fn lemma_living<B: Backend>(sessions: Seq<Session<B>>, owner: u128)
    ensures
        views(sessions).filter(|s: SessionView<B>| s.owner == owner && s.live()).len() == living(
            sessions,
            owner,
        ),
    decreases sessions.len(),
{
    let f = |s: SessionView<B>| s.owner == owner && s.live();
    reveal(Seq::filter);
    if sessions.len() > 0 {
        lemma_living(sessions.drop_last(), owner);
        assert(views(sessions).drop_last() =~= views(sessions.drop_last()));
        assert(views(sessions).last() == sessions.last()@);
    }
}

proof fn lemma_kept<A>(s: Seq<A>, f: spec_fn(A) -> bool, j: int)
    requires
        0 <= j < s.filter(f).len(),
    ensures
        exists|k: int| 0 <= k < s.len() && #[trigger] s[k] == s.filter(f)[j],
    decreases s.len(),
{
    reveal(Seq::filter);
    if s.len() > 0 {
        let rest = s.drop_last();
        if j < rest.filter(f).len() {
            lemma_kept(rest, f, j);
            let k = choose|k: int| 0 <= k < rest.len() && #[trigger] rest[k] == rest.filter(f)[j];
            assert(s[k] == s.filter(f)[j]);
        } else {
            assert(s[s.len() - 1] == s.filter(f)[j]);
        }
    }
}

/// Whether a request asks for something that can be granted: an application of its own by its
/// name, or the desktop without one.
pub open spec fn askable(request: SessionRequest) -> bool {
    ||| {
        &&& request.scope == Scope::Application
        &&& request.mode == Mode::Isolated
        &&& request.application is Some
    }
    ||| {
        &&& request.scope == Scope::Desktop
        &&& request.mode == Mode::Desktop
        &&& request.application is None
    }
}

/// A request is taken up only from a client that is connected, asks for something askable, and
/// has fewer than eight living sessions. What is taken up waits for the user: it belongs to the
/// client, is pending, and reveals and permits nothing, while everything else pauses and the
/// panel is seen. What is not changes nothing.
pub proof fn requests_wait_for_the_user<B: Backend>(
    before: Policy<B>,
    after: Policy<B>,
    owner: u128,
    request: SessionRequest,
    r: Result<SessionStatus, Fault>,
)
    requires
        exists|p: &mut Policy<B>|
            *p == before && *final(p) == after && #[trigger] call_ensures(
                Policy::<B>::request,
                (p, owner, request),
                r,
            ),
        before.wf(),
    ensures
        r is Ok ==> before.clients@.contains(owner) && askable(request) && living(
            before.sessions@,
            owner,
        ) < 8,
        request.scope == Scope::Desktop && askable(request) && before.clients@.contains(owner)
            && living(before.sessions@, owner) < 8 ==> r is Ok,
        r matches Err(e) ==> {
            &&& after@ == before@
            &&& e.code == ErrorCode::PermissionDenied <==> !before.clients@.contains(owner)
        },
        r matches Ok(status) ==> {
            let s = after.sessions@.last();
            &&& after.sessions@.len() > 0
            &&& s.owner == owner
            &&& s.status@ == status@
            &&& s.status.scope == request.scope
            &&& s.status.mode == request.mode
            &&& s.status.state == State::Pending
            &&& s.status.label is None
            &&& s.status.capabilities@.len() == 0
            &&& s.status.targets@.len() == 0
            &&& s.backend is None
            &&& s.observation is None
            &&& s.visible_views == 0
            &&& s@.requested_application == crate::model::optional(request.application)
            &&& after.ui_visible
            &&& after.manual_previews == before.manual_previews
            &&& forall|j: int|
                0 <= j < after.sessions@.len() ==> (#[trigger] after.sessions@[j]).status.state
                    != State::Active
        },
{
    lemma_views(before);
    lemma_views(after);
    lemma_living(before.sessions@, owner);
    assert(before@.clients.contains(owner) == before.clients@.contains(owner));
    if r is Ok {
        let n = after.sessions@.len() - 1;
        let opened = before@.opened();
        let id = r->Ok_0.session_id@;
        let f = |s: SessionView<B>| s.id() != id;
        assert forall|k: int| 0 <= k < opened.sessions.len() implies (
        #[trigger] opened.sessions[k]).status.state != State::Active by {}
        let kept = opened.sessions.filter(f);
        assert forall|j: int| 0 <= j < after.sessions@.len() implies (
        #[trigger] after.sessions@[j]).status.state != State::Active by {
            assert(after@.sessions[j] == after.sessions@[j]@);
            if j < kept.len() {
                assert(after@.sessions[j] == kept[j]);
                lemma_kept(opened.sessions, f, j);
            }
        }
        assert(after@.sessions[n] == after.sessions@[n]@);
        assert(after@.sessions.last().status == r->Ok_0@);
        assert(after.sessions@.last()@.status.capabilities.len() == 0);
        assert(after.sessions@.last()@.status.targets.len() == 0);
    }
}

/// What a pending session is granted is what its backend offers, under the label that the user
/// saw, and it waits paused. A session that is not pending, or whose backend cannot name its
/// targets, is granted nothing.
pub proof fn grants_are_what_the_backend_offers<B: Backend>(
    before: Policy<B>,
    after: Policy<B>,
    id: &str,
    label: String,
    handle: BackendHandle<B>,
    capabilities: Vec<String>,
    targets: Result<Vec<Target>, Fault>,
    busy: &Vec<String>,
    r: Result<(), Fault>,
    i: int,
    j: int,
)
    requires
        exists|p: &mut Policy<B>|
            *p == before && *final(p) == after && #[trigger] call_ensures(
                Policy::<B>::grant_prepared,
                (p, id, label, handle, capabilities, targets, busy),
                r,
            ),
        before.wf(),
        0 <= i < before.sessions@.len(),
        before.sessions@[i].status.session_id@ == id@,
        0 <= j < before.sessions@.len(),
    ensures
        r is Ok <==> before.sessions@[i].status.state == State::Pending && targets is Ok,
        after.sessions@.len() == before.sessions@.len(),
        r is Err || j != i ==> as_before(before.sessions@[j], after.sessions@[j]),
        r is Ok ==> {
            let s = after.sessions@[i];
            &&& s.status.state == State::Paused
            &&& s.status.label matches Some(l)
            &&& l@ == label@
            &&& s.backend == Some(handle)
            &&& s.status.capabilities@.len() == capabilities@.len()
            &&& forall|k: int|
                0 <= k < capabilities@.len() ==> (#[trigger] s.status.capabilities@[k])@
                    == capabilities@[k]@
            &&& s.status.targets@.len() == targets->Ok_0@.len()
            &&& forall|k: int|
                0 <= k < targets->Ok_0@.len() ==> (#[trigger] s.status.targets@[k])@
                    == targets->Ok_0@[k]@
            &&& s.owner == before.sessions@[i].owner
            &&& s.status.scope == before.sessions@[i].status.scope
            &&& s.status.mode == before.sessions@[i].status.mode
        },
        after.ui_visible == before.ui_visible,
        after.manual_previews == before.manual_previews,
{
    lemma_views(before);
    lemma_views(after);
    crate::laws::permits::lemma_found(before, i, before.sessions@[i].owner, id@);
    assert(after@.sessions[j] == after.sessions@[j]@);
    assert(before@.sessions[j] == before.sessions@[j]@);
    assert(after@.sessions[i] == after.sessions@[i]@);
    if j != i {
        assert(before@.sessions[j].id() != before@.sessions[i].id());
    }
    if r is Ok {
        let s = after.sessions@[i];
        assert(s@.status.capabilities.len() == s.status.capabilities@.len());
        assert(s@.status.targets.len() == s.status.targets@.len());
        assert forall|k: int| 0 <= k < capabilities@.len() implies (
        #[trigger] s.status.capabilities@[k])@ == capabilities@[k]@ by {
            assert(s@.status.capabilities[k] == s.status.capabilities@[k]@);
        }
        assert forall|k: int| 0 <= k < targets->Ok_0@.len() implies (
        #[trigger] s.status.targets@[k])@ == targets->Ok_0@[k]@ by {
            assert(s@.status.targets[k] == s.status.targets@[k]@);
        }
    }
}

} // verus!
