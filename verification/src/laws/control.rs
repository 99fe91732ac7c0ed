//! Who is in control: resuming, taking over, remembering and ending, told from what the policy
//! held before and after.
use vstd::prelude::*;

use crate::backend::Backend;
use crate::laws::permits::lemma_found;
use crate::laws::sessions::{as_before, paused, same_grant};
use crate::model::{
    ActRequest, ErrorCode, Fault, Mode, Observation, Scope, SessionRequest, SessionStatus, State,
};
use crate::policy::{BackendHandle, Permit, Policy, SessionView};
use crate::text::{bytes, control, white_space};

verus! {

proof fn lemma_views<B: Backend>(p: Policy<B>)
    ensures
        p@.sessions.len() == p.sessions@.len(),
        forall|j: int| 0 <= j < p.sessions@.len() ==> #[trigger] p@.sessions[j] == p.sessions@[j]@,
{
}

/// A session is resumed only where it is paused and has its backend, no panel is open, nobody
/// has taken over, and an application is in view. It is then active without a message. A desktop
/// that is resumed pauses every other desktop, and an application pauses nothing.
pub proof fn resuming_takes_a_free_hand<B: Backend>(
    before: Policy<B>,
    after: Policy<B>,
    id: &str,
    r: Result<(), Fault>,
    i: int,
    j: int,
)
    requires
        exists|p: &mut Policy<B>|
            *p == before && *final(p) == after && #[trigger] call_ensures(
                Policy::<B>::resume,
                (p, id),
                r,
            ),
        before.wf(),
        0 <= i < before.sessions@.len(),
        before.sessions@[i].status.session_id@ == id@,
        0 <= j < before.sessions@.len(),
        j != i,
    ensures
        after.sessions@.len() == before.sessions@.len(),
        r is Ok <==> {
            let s = before.sessions@[i];
            &&& s.status.state == State::Paused
            &&& s.backend is Some
            &&& !before.ui_visible
            &&& before.manual_previews == 0
            &&& s.status.mode == Mode::Isolated ==> s.visible_views > 0
        },
        r is Ok ==> {
            &&& same_grant(before.sessions@[i], after.sessions@[i])
            &&& after.sessions@[i].status.state == State::Active
            &&& after.sessions@[i].status.message is None
            &&& after.sessions@[i].generation == before.sessions@[i].generation
            &&& if before.sessions@[i].status.scope == Scope::Desktop
                && before.sessions@[j].status.scope == Scope::Desktop {
                paused(before.sessions@[j], after.sessions@[j])
            } else {
                as_before(before.sessions@[j], after.sessions@[j])
            }
        },
        r is Err ==> {
            &&& after.sessions@[i].status.state == before.sessions@[i].status.state
            &&& after.sessions@[j].status.state == State::Active
                ==> before.sessions@[j].status.state == State::Active
        },
        after.ui_visible == before.ui_visible,
        after.manual_previews == before.manual_previews,
{
    lemma_views(before);
    lemma_views(after);
    lemma_found(before, i, before.sessions@[i].owner, id@);
    assert(before@.sessions[j].id() != before@.sessions[i].id());
    assert(after@.sessions[j] == after.sessions@[j]@);
    assert(after@.sessions[i] == after.sessions@[i]@);
}

/// An observation is kept for its own session alone, and only where that is authorized and was
/// not cancelled meanwhile.
pub proof fn observations_are_kept_for_their_session<B: Backend>(
    before: Policy<B>,
    after: Policy<B>,
    owner: u128,
    id: &str,
    observation: Observation,
    verdict: Result<(), Fault>,
    r: Result<(), Fault>,
    i: int,
    j: int,
)
    requires
        exists|p: &mut Policy<B>|
            *p == before && *final(p) == after && #[trigger] call_ensures(
                Policy::<B>::remember_checked,
                (p, owner, id, observation, verdict),
                r,
            ),
        before.wf(),
        0 <= i < before.sessions@.len(),
        before.sessions@[i].status.session_id@ == id@,
        0 <= j < before.sessions@.len(),
    ensures
        r is Ok <==> before.sessions@[i].owner == owner && verdict is Ok && (
        before.sessions@[i].status.state == State::Active || before.sessions@[i].status.state
            == State::Paused),
        after.sessions@.len() == before.sessions@.len(),
        r is Err || j != i ==> as_before(before.sessions@[j], after.sessions@[j]),
        r is Ok ==> {
            let s = after.sessions@[i];
            &&& s.observation matches Some(o)
            &&& o@ == observation@
            &&& s.status@ == before.sessions@[i].status@
            &&& s.generation == before.sessions@[i].generation
            &&& s.backend == before.sessions@[i].backend
            &&& s.visible_views == before.sessions@[i].visible_views
        },
{
    lemma_views(before);
    lemma_views(after);
    lemma_found(before, i, owner, id@);
    assert(after@.sessions[j] == after.sessions@[j]@);
    assert(after@.sessions[i] == after.sessions@[i]@);
    if j != i {
        assert(before@.sessions[j].id() != before@.sessions[i].id());
    }
}

/// What is left of a session that has ended: it is closed, offers nothing, has no backend and
/// no observation, and what ran is cancelled.
pub open spec fn ended<B: Backend>(
    a: crate::policy::Session<B>,
    b: crate::policy::Session<B>,
) -> bool {
    &&& b.owner == a.owner
    &&& b.status.session_id@ == a.status.session_id@
    &&& b.status.scope == a.status.scope
    &&& b.status.mode == a.status.mode
    &&& b@.status.label == a@.status.label
    &&& b.status.state == State::Closed
    &&& b.status.capabilities@.len() == 0
    &&& b.status.targets@.len() == 0
    &&& b.backend is None
    &&& b.observation is None
    &&& b.generation != a.generation
    &&& b.signal == a.signal
}

/// A session is closed by its own client only; the backend is handed back, an application of
/// its own stays for the user under its label, and no other session is touched.
pub proof fn clients_close_their_own_sessions<B: Backend>(
    before: Policy<B>,
    after: Policy<B>,
    owner: u128,
    id: &str,
    r: Result<Option<BackendHandle<B>>, Fault>,
    i: int,
    j: int,
)
    requires
        exists|p: &mut Policy<B>|
            *p == before && *final(p) == after && #[trigger] call_ensures(
                Policy::<B>::close,
                (p, owner, id),
                r,
            ),
        before.wf(),
        0 <= i < before.sessions@.len(),
        before.sessions@[i].status.session_id@ == id@,
        0 <= j < before.sessions@.len(),
    ensures
        r is Ok <==> before.sessions@[i].owner == owner,
        after.sessions@.len() == before.sessions@.len(),
        r is Err || j != i ==> as_before(before.sessions@[j], after.sessions@[j]),
        r matches Err(e) ==> e.code == ErrorCode::PermissionDenied && after@ == before@,
        r matches Ok(handle) ==> {
            let s = before.sessions@[i];
            &&& handle == s.backend
            &&& ended(s, after.sessions@[i])
            &&& s.status.mode == Mode::Isolated && s.backend is Some ==> {
                let kept = after.retained@.last();
                &&& after.retained@.len() == before.retained@.len() + 1
                &&& Some(kept.1) == s.backend
                &&& s.status.label matches Some(l) ==> kept.0@ == l@
                &&& s.status.label is None ==> kept.0@ == "独立应用"@
            }
            &&& s.status.mode != Mode::Isolated || s.backend is None ==> after.retained@.len()
                == before.retained@.len()
        },
{
    lemma_views(before);
    lemma_views(after);
    lemma_found(before, i, owner, id@);
    assert(after@.sessions[j] == after.sessions@[j]@);
    assert(after@.sessions[i] == after.sessions@[i]@);
    assert(after@.retained.len() == after.retained@.len());
    assert(before@.retained.len() == before.retained@.len());
    if j != i {
        assert(before@.sessions[j].id() != before@.sessions[i].id());
    }
    if r is Ok {
        let b = after.sessions@[i];
        assert(b@.status.capabilities.len() == b.status.capabilities@.len());
        assert(b@.status.targets.len() == b.status.targets@.len());
        if after.retained@.len() > 0 {
            let n = after.retained@.len() - 1;
            assert(after@.retained[n] == (after.retained@[n].0@, after.retained@[n].1));
        }
    }
}

/// The user closes any session, to the same effect.
pub proof fn the_user_closes_any_session<B: Backend>(
    before: Policy<B>,
    after: Policy<B>,
    id: &str,
    r: Option<BackendHandle<B>>,
    i: int,
    j: int,
)
    requires
        exists|p: &mut Policy<B>|
            *p == before && *final(p) == after && #[trigger] call_ensures(
                Policy::<B>::close_local,
                (p, id),
                r,
            ),
        before.wf(),
        0 <= i < before.sessions@.len(),
        before.sessions@[i].status.session_id@ == id@,
        0 <= j < before.sessions@.len(),
    ensures
        r == before.sessions@[i].backend,
        after.sessions@.len() == before.sessions@.len(),
        ended(before.sessions@[i], after.sessions@[i]),
        j != i ==> as_before(before.sessions@[j], after.sessions@[j]),
        after.retained@.len() == before.retained@.len() + (if before.sessions@[i].status.mode
            == Mode::Isolated && before.sessions@[i].backend is Some {
            1int
        } else {
            0
        }),
{
    lemma_views(before);
    lemma_views(after);
    lemma_found(before, i, before.sessions@[i].owner, id@);
    assert(after@.sessions[j] == after.sessions@[j]@);
    assert(after@.sessions[i] == after.sessions@[i]@);
    assert(after@.retained.len() == after.retained@.len());
    assert(before@.retained.len() == before.retained@.len());
    if j != i {
        assert(before@.sessions[j].id() != before@.sessions[i].id());
    }
    let b = after.sessions@[i];
    assert(b@.status.capabilities.len() == b.status.capabilities@.len());
    assert(b@.status.targets.len() == b.status.targets@.len());
}

/// Of a client that disconnected no session is left, and of the others every one is left as it
/// was; the client is no longer known, and the others are.
pub proof fn disconnecting_leaves_the_others<B: Backend>(
    before: Policy<B>,
    after: Policy<B>,
    owner: u128,
    r: Vec<BackendHandle<B>>,
    i: int,
    j: int,
)
    requires
        exists|p: &mut Policy<B>|
            *p == before && *final(p) == after && #[trigger] call_ensures(
                Policy::<B>::disconnect,
                (p, owner),
                r,
            ),
        before.wf(),
        0 <= i < before.sessions@.len(),
        0 <= j < after.sessions@.len(),
    ensures
        after.sessions@[j].owner != owner,
        before.sessions@[i].owner != owner ==> exists|k: int|
            0 <= k < after.sessions@.len() && as_before(
                before.sessions@[i],
                #[trigger] after.sessions@[k],
            ),
        before.sessions@[i].owner == owner ==> (before.sessions@[i].backend matches Some(h)
            ==> r@.contains(h)),
        forall|client: u128|
            after.clients@.contains(client) <==> before.clients@.contains(client) && client
                != owner,
        after.ui_visible == before.ui_visible,
        after.manual_previews == before.manual_previews,
{
    lemma_views(before);
    lemma_views(after);
    let f = |s: SessionView<B>| s.owner != owner;
    before@.sessions.lemma_filter_pred(f, j);
    assert(after@.sessions[j] == after.sessions@[j]@);
    assert(f(after@.sessions[j]));
    let a = before@.sessions[i];
    assert(a == before.sessions@[i]@);
    if a.owner != owner {
        assert(f(a));
        before@.sessions.lemma_filter_contains(f, i);
        let k = choose|k: int| 0 <= k < after@.sessions.len() && after@.sessions[k] == a;
        assert(after@.sessions[k] == after.sessions@[k]@);
    } else {
        let g = |s: SessionView<B>| s.owner == owner;
        let h = |s: SessionView<B>| s.backend;
        before@.sessions.lemma_filter_contains(g, i);
        let mine = before@.sessions.filter(g);
        let k = choose|k: int| 0 <= k < mine.len() && mine[k] == a;
        if a.backend is Some {
            assert(h(mine[k]) is Some);
            lemma_mapped(mine, h, k);
        }
    }
    assert forall|client: u128|
        after.clients@.contains(client) <==> before.clients@.contains(client) && client
            != owner by {
        assert(after@.clients.contains(client) == after.clients@.contains(client));
        assert(before@.clients.contains(client) == before.clients@.contains(client));
    }
}

pub(crate) proof fn lemma_mapped<A, C>(s: Seq<A>, f: spec_fn(A) -> Option<C>, k: int)
    requires
        0 <= k < s.len(),
        f(s[k]) is Some,
    ensures
        s.filter_map(f).contains(f(s[k])->0),
    decreases s.len(),
{
    reveal(Seq::filter_map);
    let rest = s.drop_last();
    if k < rest.len() {
        lemma_mapped(rest, f, k);
        let i = choose|i: int| 0 <= i < rest.filter_map(f).len() && rest.filter_map(f)[i] == f(s[k])->0;
        assert(s.filter_map(f)[i] == f(s[k])->0);
    } else {
        let n = rest.filter_map(f).len() as int;
        assert(s.filter_map(f)[n] == f(s[k])->0);
    }
}

/// A client that registers is known from then on, and nothing else changes.
pub proof fn registering_makes_a_client_known<B: Backend>(
    before: Policy<B>,
    after: Policy<B>,
    owner: u128,
)
    requires
        exists|p: &mut Policy<B>|
            *p == before && *final(p) == after && #[trigger] call_ensures(
                Policy::<B>::register,
                (p, owner),
                (),
            ),
    ensures
        forall|client: u128|
            after.clients@.contains(client) <==> before.clients@.contains(client) || client
                == owner,
        after@.sessions == before@.sessions,
        after.ui_visible == before.ui_visible,
        after.manual_previews == before.manual_previews,
{
    assert forall|client: u128|
        after.clients@.contains(client) <==> before.clients@.contains(client) || client
            == owner by {
        assert(after@.clients.contains(client) == after.clients@.contains(client));
        assert(before@.clients.contains(client) == before.clients@.contains(client));
    }
}

/// Taking over pauses every active session and is counted.
pub proof fn taking_over_pauses_the_active<B: Backend>(
    before: Policy<B>,
    after: Policy<B>,
    j: int,
)
    requires
        exists|p: &mut Policy<B>|
            *p == before && *final(p) == after && #[trigger] call_ensures(
                Policy::<B>::begin_takeover,
                (p,),
                (),
            ),
        before.wf(),
        before.manual_previews < usize::MAX,
        0 <= j < before.sessions@.len(),
    ensures
        after.sessions@.len() == before.sessions@.len(),
        paused(before.sessions@[j], after.sessions@[j]),
        after.manual_previews == before.manual_previews + 1,
        after.ui_visible == before.ui_visible,
{
    lemma_views(before);
    lemma_views(after);
    assert(after@.sessions[j] == after.sessions@[j]@);
}

/// Giving back is counted and resumes nothing.
pub proof fn giving_back_resumes_nothing<B: Backend>(before: Policy<B>, after: Policy<B>, j: int)
    requires
        exists|p: &mut Policy<B>|
            *p == before && *final(p) == after && #[trigger] call_ensures(
                Policy::<B>::end_takeover,
                (p,),
                (),
            ),
        0 <= j < before.sessions@.len(),
    ensures
        after.sessions@.len() == before.sessions@.len(),
        as_before(before.sessions@[j], after.sessions@[j]),
        before.manual_previews > 0 ==> after.manual_previews == before.manual_previews - 1,
        before.manual_previews == 0 ==> after.manual_previews == 0,
        after.ui_visible == before.ui_visible,
{
    lemma_views(before);
    lemma_views(after);
    assert(after@.sessions[j] == after.sessions@[j]@);
}

/// A client learns the status of its own sessions, as it is, and of no other.
pub proof fn statuses_are_for_their_client<B: Backend>(
    p: Policy<B>,
    owner: u128,
    id: &str,
    r: Result<SessionStatus, Fault>,
    i: int,
)
    requires
        call_ensures(Policy::<B>::status, (&p, owner, id), r),
        p.wf(),
        0 <= i < p.sessions@.len(),
        p.sessions@[i].status.session_id@ == id@,
    ensures
        r is Ok <==> p.sessions@[i].owner == owner,
        r matches Ok(status) ==> status@ == p.sessions@[i].status@,
        r matches Err(e) ==> e.code == ErrorCode::PermissionDenied,
{
    lemma_found(p, i, owner, id@);
}

/// Observing is permitted to the session's own client while the session is active or paused,
/// whoever is in control, and to nobody else.
pub proof fn observing_is_permitted_while_authorized<B: Backend>(
    p: Policy<B>,
    owner: u128,
    id: &str,
    action: Option<&ActRequest>,
    r: Result<Permit<B>, Fault>,
    i: int,
)
    requires
        call_ensures(Policy::<B>::permit, (&p, owner, id, action), r),
        p.wf(),
        0 <= i < p.sessions@.len(),
        p.sessions@[i].status.session_id@ == id@,
    ensures
        action is None ==> (r is Ok <==> {
            let s = p.sessions@[i];
            &&& s.owner == owner
            &&& s.status.state == State::Active || s.status.state == State::Paused
            &&& s.backend is Some
        }),
        r matches Ok(permit) ==> {
            &&& p.sessions@[i].owner == owner
            &&& Some(permit.backend) == p.sessions@[i].backend
            &&& permit.cancel.generation == p.sessions@[i].signal
            &&& permit.cancel.captured == p.sessions@[i].generation
            &&& action is Some ==> {
                &&& p.sessions@[i].status.state == State::Active
                &&& !p.ui_visible
                &&& p.manual_previews == 0
            }
        },
{
    lemma_found(p, i, owner, id@);
}

/// An application is asked for by its own name: one that is not empty, has 256 bytes at most,
/// neither begins nor ends in white space, and holds no control character and no part of a path.
/// With such a name a connected client that has room is taken up, and with no other.
pub proof fn applications_are_asked_for_by_name<B: Backend>(
    before: Policy<B>,
    after: Policy<B>,
    owner: u128,
    request: SessionRequest,
    name: String,
    r: Result<SessionStatus, Fault>,
)
    requires
        exists|p: &mut Policy<B>|
            *p == before && *final(p) == after && #[trigger] call_ensures(
                Policy::<B>::request,
                (p, owner, request),
                r,
            ),
        before.wf(),
        before.clients@.contains(owner),
        before.sessions@.len() == 0,
        request.scope == Scope::Application,
        request.mode == Mode::Isolated,
        request.application == Some(name),
    ensures
        r is Ok <==> {
            &&& 0 < name@.len()
            &&& bytes(name@) <= 256
            &&& !white_space(name@[0])
            &&& !white_space(name@[name@.len() - 1])
            &&& forall|k: int|
                0 <= k < name@.len() ==> {
                    &&& #[trigger] name@[k] != '/'
                    &&& name@[k] != '\\'
                    &&& !control(name@[k])
                }
        },
        r matches Err(e) ==> e.code == ErrorCode::InvalidRequest,
{
    assert(before@.clients.contains(owner));
    assert(before@.sessions.len() == 0);
    reveal(Seq::filter);
    let f = |s: SessionView<B>| s.owner == owner && s.live();
    assert(before@.sessions.filter(f).len() == 0);
}

} // verus!
