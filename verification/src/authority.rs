//! What holds of authority throughout, whatever the clients and the local user do.
use std::sync::atomic::AtomicU64;
use std::sync::Arc;
use vstd::prelude::*;

use crate::backend::{in_step, was_written, Backend};
use crate::model::{
    fault, ActRequest, ErrorCode, Mode, ObservationView, Scope, SessionRequest, State, TargetView,
};
use crate::policy::{
    foreign, next_generation, requested, BackendHandle, Permit, PolicyView, SessionView, MAX_SESSIONS,
};

verus! {

/// Anything that can happen to a policy.
#[verifier::reject_recursive_types(B)]
pub enum Step<B: Backend> {
    Register { owner: u128 },
    Disconnect { owner: u128 },
    OpenUi,
    HideUi,
    Request { owner: u128, request: SessionRequest, id: Seq<char>, signal: Arc<AtomicU64> },
    Grant {
        id: Seq<char>,
        label: Seq<char>,
        handle: BackendHandle<B>,
        capabilities: Seq<Seq<char>>,
        targets: Seq<TargetView>,
        busy: Seq<Seq<char>>,
    },
    Deny { id: Seq<char>, message: Seq<char> },
    Resume { id: Seq<char> },
    Pause { id: Seq<char> },
    PauseAll,
    ViewOpened { id: Seq<char> },
    ViewClosed { id: Seq<char> },
    Act { owner: u128, request: ActRequest },
    Remember { owner: u128, id: Seq<char>, observation: ObservationView },
    Close { id: Seq<char> },
    BeginTakeover,
    EndTakeover,
    TakeRetained,
}

/// The policy after a step; a refused step changes nothing.
pub open spec fn after<B: Backend>(p: PolicyView<B>, step: Step<B>) -> PolicyView<B> {
    match step {
        Step::Register { owner } => PolicyView { clients: p.clients.insert(owner), ..p },
        Step::Disconnect { owner } => p.disconnected(owner),
        Step::OpenUi => p.opened(),
        Step::HideUi => PolicyView { ui_visible: false, ..p },
        Step::Request { owner, request, id, signal } => if p.request_refusal(owner, request) is None {
            p.opened().add(requested(owner, request, id, signal))
        } else {
            p
        },
        Step::Grant { id, label, handle, capabilities, targets, busy } => if p.pending(id) {
            p.granted(id, label, handle, capabilities, targets, busy)
        } else {
            p
        },
        Step::Deny { id, message } => p.change(
            id,
            |s: SessionView<B>| s.stopped(State::Denied).with_message(Some(message)),
        ),
        Step::Resume { id } => if p.resume_obstacle(id) is None {
            p.resumed(id)
        } else {
            p
        },
        Step::Pause { id } => p.change(id, |s: SessionView<B>| s.held()),
        Step::PauseAll => p.all_held(),
        Step::ViewOpened { id } => if p.has(id) && p.get(id).visible_views == usize::MAX {
            p
        } else {
            p.change(
                id,
                |s: SessionView<B>|
                    SessionView { visible_views: (s.visible_views + 1) as usize, ..s },
            )
        },
        Step::ViewClosed { id } => p.change(id, |s: SessionView<B>| s.view_lost()),
        Step::Act { owner, request } => if p.permit_refusal(
            owner,
            request.session_id@,
            Some(request),
        ) is None {
            p.change(request.session_id@, |s: SessionView<B>| s.with_observation(None))
        } else {
            p
        },
        Step::Remember { owner, id, observation } => if p.remember_refusal(owner, id, None) is None {
            p.change(id, |s: SessionView<B>| s.with_observation(Some(observation)))
        } else {
            p
        },
        Step::Close { id } => p.closed(id),
        Step::BeginTakeover => if p.manual_previews == usize::MAX {
            p
        } else {
            PolicyView { manual_previews: (p.manual_previews + 1) as usize, ..p.all_held() }
        },
        Step::EndTakeover => PolicyView {
            manual_previews: if p.manual_previews == 0 {
                0
            } else {
                (p.manual_previews - 1) as usize
            },
            ..p
        },
        Step::TakeRetained => PolicyView { retained: Seq::empty(), ..p },
    }
}

/// The sessions as a step leaves them, before any of them is added or taken away.
pub open spec fn halted<B: Backend>(p: PolicyView<B>, step: Step<B>) -> PolicyView<B> {
    match step {
        Step::Request { owner, request, .. } => if p.request_refusal(owner, request) is None {
            p.opened()
        } else {
            p
        },
        Step::Disconnect { owner } => p.left(owner),
        _ => after(p, step),
    }
}

/// Whether a step takes away what a session was permitted to do.
pub open spec fn revokes<B: Backend>(p: PolicyView<B>, step: Step<B>, s: SessionView<B>) -> bool {
    match step {
        Step::Disconnect { owner } => s.owner == owner,
        Step::OpenUi => acting(s),
        Step::Request { owner, request, .. } => acting(s) && p.request_refusal(owner, request) is None,
        Step::Deny { id, .. } => s.id() == id,
        Step::Close { id } => s.id() == id,
        Step::Pause { id } => s.id() == id && acting(s),
        Step::PauseAll => acting(s),
        Step::ViewClosed { id } => s.id() == id && acting(s) && s.visible_views <= 1,
        Step::BeginTakeover => acting(s) && p.manual_previews < usize::MAX,
        Step::Resume { id } => {
            &&& acting(s)
            &&& s.id() != id
            &&& s.status.scope == Scope::Desktop
            &&& p.resume_obstacle(id) is None
            &&& p.get(id).status.scope == Scope::Desktop
        },
        _ => false,
    }
}

/// Whether a session may act on its own.
pub open spec fn acting<B: Backend>(s: SessionView<B>) -> bool {
    s.status.state == State::Active
}

/// What holds of each session: a pending one reveals nothing and has no backend, an active
/// one has a backend and, if isolated, a visible view, and one that has ended offers
/// nothing to act on.
pub open spec fn sane<B: Backend>(s: SessionView<B>) -> bool {
    match s.status.state {
        State::Pending => {
            &&& s.backend is None
            &&& s.status.label is None
            &&& s.status.capabilities.len() == 0
            &&& s.status.targets.len() == 0
            &&& s.observation is None
        },
        State::Active => {
            &&& s.backend is Some
            &&& s.status.mode == Mode::Isolated ==> s.visible_views > 0
        },
        State::Paused => true,
        State::Denied => s.observation is None,
        State::Closed => {
            &&& s.backend is None
            &&& s.status.capabilities.len() == 0
            &&& s.status.targets.len() == 0
            &&& s.observation is None
        },
    }
}

/// What holds of a policy at all times.
pub open spec fn sound<B: Backend>(p: PolicyView<B>) -> bool {
    &&& p.distinct()
    &&& forall|i: int| 0 <= i < p.sessions.len() ==> sane(#[trigger] p.sessions[i])
    // Nothing acts while the panel is open or the local user has taken over.
    &&& (p.ui_visible || p.manual_previews > 0) ==> forall|i: int|
        0 <= i < p.sessions.len() ==> !acting(#[trigger] p.sessions[i])
    // The desktop has one owner at most.
    &&& forall|i: int, j: int|
        #![trigger p.sessions[i], p.sessions[j]]
        0 <= i < j < p.sessions.len() && p.sessions[i].status.scope == Scope::Desktop
            && p.sessions[j].status.scope == Scope::Desktop ==> !(acting(p.sessions[i]) && acting(
            p.sessions[j],
        ))
    // A client has eight live sessions at most.
    &&& forall|owner: u128| #[trigger] p.live_sessions(owner) <= MAX_SESSIONS
}

/// A policy that nothing has happened to.
pub open spec fn fresh<B: Backend>(p: PolicyView<B>) -> bool {
    &&& p.sessions.len() == 0
    &&& !p.ui_visible
    &&& p.manual_previews == 0
}

/// The invariants hold of a new policy.
pub proof fn new_policy_is_sound<B: Backend>(p: PolicyView<B>)
    requires
        fresh(p),
    ensures
        sound(p),
{
    assert forall|owner: u128| #[trigger] p.live_sessions(owner) <= MAX_SESSIONS by {
        p.sessions.lemma_filter_len(|s: SessionView<B>| s.owner == owner && s.live());
    }
}

/// No step of any client or of the local user breaks the invariants.
pub proof fn every_step_is_sound<B: Backend>(p: PolicyView<B>, step: Step<B>)
    requires
        sound(p),
    ensures
        sound(after(p, step)),
{
    let q = after(p, step);
    match step {
        Step::Register { owner } => {
            same_sessions(p, q);
        },
        Step::HideUi => {
            same_sessions(p, q);
        },
        Step::EndTakeover => {
            same_sessions(p, q);
        },
        Step::TakeRetained => {
            same_sessions(p, q);
        },
        Step::Disconnect { owner } => {
            fewer_sessions(p, q, |s: SessionView<B>| s.owner != owner);
        },
        Step::Request { owner, request, id, signal } => {
            if p.request_refusal(owner, request) is None {
                let o = p.opened();
                calmer_sessions(p, o);
                let new = requested::<B>(owner, request, id, signal);
                let other = |s: SessionView<B>| s.id() != new.id();
                let r = PolicyView { sessions: o.sessions.filter(other), ..o };
                fewer_sessions(o, r, other);
                request_is_sound(p, o, r, q, new, owner, other);
            }
        },
        Step::Grant { id, .. } => {
            if p.pending(id) {
                grant_is_sound(p, step);
            }
        },
        Step::Resume { id } => {
            if p.resume_obstacle(id) is None {
                resume_is_sound(p, id);
            }
        },
        Step::Remember { owner, id, observation } => {
            if p.remember_refusal(owner, id, None) is None {
                the_one(p, id);
                calmer_sessions(p, q);
            }
        },
        Step::ViewOpened { id } => {
            if p.has(id) {
                the_one(p, id);
            }
            assert forall|i: int| 0 <= i < p.sessions.len() implies calmer(
                p.sessions[i],
                #[trigger] q.sessions[i],
            ) by {
                if p.sessions[i].id() == id {
                    assert(p.at(i, id));
                }
            }
            calmer_sessions(p, q);
        },
        _ => {
            calmer_sessions(p, q);
        },
    }
}

proof fn same_sessions<B: Backend>(p: PolicyView<B>, q: PolicyView<B>)
    requires
        sound(p),
        q.sessions == p.sessions,
        (q.ui_visible || q.manual_previews > 0) ==> (p.ui_visible || p.manual_previews > 0),
    ensures
        sound(q),
{
    assert forall|owner: u128| #[trigger] q.live_sessions(owner) <= MAX_SESSIONS by {
        assert(p.live_sessions(owner) <= MAX_SESSIONS);
    }
    assert(q.distinct()) by {
        assert forall|i: int, j: int|
            #![trigger q.sessions[i], q.sessions[j]]
            0 <= i < j < q.sessions.len() implies q.sessions[i].id() != q.sessions[j].id() by {
            assert(p.sessions[i].id() != p.sessions[j].id());
        }
    }
}

/// The sessions of `q` are those of `p`, none of them newly active, live or owned.
spec fn calmer<B: Backend>(a: SessionView<B>, b: SessionView<B>) -> bool {
    &&& b.id() == a.id()
    &&& b.owner == a.owner
    &&& b.status.scope == a.status.scope
    &&& acting(b) ==> acting(a)
    &&& b.live() ==> a.live()
    &&& sane(a) ==> sane(b)
}

proof fn calmer_sessions<B: Backend>(p: PolicyView<B>, q: PolicyView<B>)
    requires
        sound(p),
        q.sessions.len() == p.sessions.len(),
        forall|i: int| 0 <= i < p.sessions.len() ==> calmer(p.sessions[i], #[trigger] q.sessions[i]),
        (q.ui_visible || q.manual_previews > 0) ==> (p.ui_visible || p.manual_previews > 0) || forall|
            i: int,
        |
            0 <= i < q.sessions.len() ==> !acting(#[trigger] q.sessions[i]),
    ensures
        sound(q),
{
    assert(q.distinct()) by {
        assert forall|i: int, j: int|
            #![trigger q.sessions[i], q.sessions[j]]
            0 <= i < j < q.sessions.len() implies q.sessions[i].id() != q.sessions[j].id() by {
            assert(p.sessions[i].id() != p.sessions[j].id());
        }
    }
    assert forall|owner: u128| #[trigger] q.live_sessions(owner) <= MAX_SESSIONS by {
        let f = |s: SessionView<B>| s.owner == owner && s.live();
        fewer_pass(p.sessions, q.sessions, f);
        assert(p.live_sessions(owner) <= MAX_SESSIONS);
    }
    assert forall|i: int| 0 <= i < q.sessions.len() implies sane(#[trigger] q.sessions[i]) by {
        assert(sane(p.sessions[i]));
    }
    assert forall|i: int, j: int|
        #![trigger q.sessions[i], q.sessions[j]]
        0 <= i < j < q.sessions.len() && q.sessions[i].status.scope == Scope::Desktop
            && q.sessions[j].status.scope == Scope::Desktop implies !(acting(q.sessions[i])
        && acting(q.sessions[j])) by {
        assert(calmer(p.sessions[i], q.sessions[i]));
        assert(calmer(p.sessions[j], q.sessions[j]));
    }
    if p.ui_visible || p.manual_previews > 0 {
        assert forall|i: int| 0 <= i < q.sessions.len() implies !acting(#[trigger] q.sessions[i]) by {
            assert(!acting(p.sessions[i]));
        }
    }
}

/// If less passes a test place by place, less passes it in all.
proof fn fewer_pass<A>(s: Seq<A>, t: Seq<A>, f: spec_fn(A) -> bool)
    requires
        s.len() == t.len(),
        forall|i: int| 0 <= i < s.len() && f(#[trigger] t[i]) ==> f(s[i]),
    ensures
        t.filter(f).len() <= s.filter(f).len(),
    decreases s.len(),
{
    reveal(Seq::filter);
    if s.len() > 0 {
        fewer_pass(s.drop_last(), t.drop_last(), f);
        assert(f(t[t.len() - 1]) ==> f(s[s.len() - 1]));
    }
}

/// Filtering first can only lower a count.
proof fn filtered_count<A>(s: Seq<A>, keep: spec_fn(A) -> bool, f: spec_fn(A) -> bool)
    ensures
        s.filter(keep).filter(f).len() <= s.filter(f).len(),
    decreases s.len(),
{
    reveal(Seq::filter);
    if s.len() > 0 {
        filtered_count(s.drop_last(), keep, f);
        let kept = s.drop_last().filter(keep);
        if keep(s.last()) {
            assert(kept.push(s.last()).drop_last() =~= kept);
        }
    }
}

/// Two places in a filtered sequence stem from two places in the same order.
proof fn filtered_pair<A>(s: Seq<A>, keep: spec_fn(A) -> bool, i: int, j: int) -> (r: (int, int))
    requires
        0 <= i < j < s.filter(keep).len(),
    ensures
        0 <= r.0 < r.1 < s.len(),
        s[r.0] == s.filter(keep)[i],
        s[r.1] == s.filter(keep)[j],
    decreases s.len(),
{
    reveal(Seq::filter);
    let rest = s.drop_last().filter(keep);
    if j < rest.len() {
        filtered_pair(s.drop_last(), keep, i, j)
    } else {
        s.drop_last().lemma_filter_contains_rev(keep, rest[i]);
        let k = choose|k: int| 0 <= k < s.drop_last().len() && s.drop_last()[k] == rest[i];
        (k, s.len() - 1)
    }
}

proof fn fewer_sessions<B: Backend>(
    p: PolicyView<B>,
    q: PolicyView<B>,
    keep: spec_fn(SessionView<B>) -> bool,
)
    requires
        sound(p),
        q.sessions == p.sessions.filter(keep),
        q.ui_visible == p.ui_visible,
        q.manual_previews == p.manual_previews,
    ensures
        sound(q),
{
    assert forall|i: int| 0 <= i < q.sessions.len() implies exists|k: int|
        0 <= k < p.sessions.len() && p.sessions[k] == #[trigger] q.sessions[i] by {
        p.sessions.lemma_filter_contains_rev(keep, q.sessions[i]);
    }
    assert forall|i: int| 0 <= i < q.sessions.len() implies sane(#[trigger] q.sessions[i]) by {
        let k = choose|k: int| 0 <= k < p.sessions.len() && p.sessions[k] == q.sessions[i];
        assert(sane(p.sessions[k]));
    }
    if p.ui_visible || p.manual_previews > 0 {
        assert forall|i: int| 0 <= i < q.sessions.len() implies !acting(#[trigger] q.sessions[i]) by {
            let k = choose|k: int| 0 <= k < p.sessions.len() && p.sessions[k] == q.sessions[i];
            assert(!acting(p.sessions[k]));
        }
    }
    assert forall|i: int, j: int|
        #![trigger q.sessions[i], q.sessions[j]]
        0 <= i < j < q.sessions.len() implies q.sessions[i].id() != q.sessions[j].id() && !(
    q.sessions[i].status.scope == Scope::Desktop && q.sessions[j].status.scope == Scope::Desktop
        && acting(q.sessions[i]) && acting(q.sessions[j])) by {
        let (a, b) = filtered_pair(p.sessions, keep, i, j);
        assert(p.sessions[a].id() != p.sessions[b].id());
    }
    assert forall|owner: u128| #[trigger] q.live_sessions(owner) <= MAX_SESSIONS by {
        filtered_count(p.sessions, keep, |s: SessionView<B>| s.owner == owner && s.live());
        assert(p.live_sessions(owner) <= MAX_SESSIONS);
    }
}

proof fn request_is_sound<B: Backend>(
    p: PolicyView<B>,
    o: PolicyView<B>,
    r: PolicyView<B>,
    q: PolicyView<B>,
    new: SessionView<B>,
    owner: u128,
    other: spec_fn(SessionView<B>) -> bool,
)
    requires
        sound(r),
        o == p.opened(),
        other == (|s: SessionView<B>| s.id() != new.id()),
        r == (PolicyView { sessions: o.sessions.filter(other), ..o }),
        q == o.add(new),
        sane(new),
        !acting(new),
        new.owner == owner,
        p.live_sessions(owner) < MAX_SESSIONS,
    ensures
        sound(q),
{
    assert(q.sessions == r.sessions.push(new));
    assert forall|i: int| 0 <= i < r.sessions.len() implies (#[trigger] r.sessions[i]).id()
        != new.id() by {
        o.sessions.lemma_filter_pred(other, i);
    }
    assert forall|i: int, j: int|
        #![trigger q.sessions[i], q.sessions[j]]
        0 <= i < j < q.sessions.len() implies q.sessions[i].id() != q.sessions[j].id() && !(
    q.sessions[i].status.scope == Scope::Desktop && q.sessions[j].status.scope == Scope::Desktop
        && acting(q.sessions[i]) && acting(q.sessions[j])) by {
        assert(q.sessions[i] == r.sessions[i]);
        if j < r.sessions.len() {
            assert(q.sessions[j] == r.sessions[j]);
            assert(r.sessions[i].id() != r.sessions[j].id());
        }
    }
    assert forall|i: int| 0 <= i < q.sessions.len() implies sane(#[trigger] q.sessions[i])
        && !acting(q.sessions[i]) by {
        if i < r.sessions.len() {
            assert(q.sessions[i] == r.sessions[i]);
            assert(!acting(r.sessions[i]));
        }
    }
    assert forall|who: u128| #[trigger] q.live_sessions(who) <= MAX_SESSIONS by {
        let f = |s: SessionView<B>| s.owner == who && s.live();
        r.sessions.lemma_filter_push(new, f);
        assert(r.live_sessions(who) <= MAX_SESSIONS);
        if who == owner {
            filtered_count(o.sessions, other, f);
            fewer_pass(p.sessions, o.sessions, f);
        }
    }
}

/// The session with an identifier stands in one place.
proof fn the_one<B: Backend>(p: PolicyView<B>, id: Seq<char>)
    requires
        p.distinct(),
        p.has(id),
    ensures
        forall|i: int| p.at(i, id) ==> p.sessions[i] == p.get(id),
{
    let k = choose|k: int| p.at(k, id);
    assert forall|i: int| p.at(i, id) implies p.sessions[i] == p.get(id) by {
        if i < k {
            assert(p.sessions[i].id() != p.sessions[k].id());
        } else if k < i {
            assert(p.sessions[k].id() != p.sessions[i].id());
        }
    }
}

proof fn grant_is_sound<B: Backend>(p: PolicyView<B>, step: Step<B>)
    requires
        sound(p),
        step matches Step::Grant { id, .. } && p.pending(id),
    ensures
        sound(after(p, step)),
{
    let q = after(p, step);
    the_one(p, step->Grant_id);
    assert forall|i: int| 0 <= i < p.sessions.len() implies calmer(
        p.sessions[i],
        #[trigger] q.sessions[i],
    ) by {
        if p.sessions[i].id() == step->Grant_id {
            assert(p.at(i, step->Grant_id));
        }
    }
    calmer_sessions(p, q);
}

proof fn resume_is_sound<B: Backend>(p: PolicyView<B>, id: Seq<char>)
    requires
        sound(p),
        p.resume_obstacle(id) is None,
    ensures
        sound(p.resumed(id)),
{
    let quiet = if p.get(id).status.scope == Scope::Desktop {
        p.others_held(id)
    } else {
        p
    };
    calmer_sessions(p, quiet);
    the_one(p, id);
    if p.resumable(id) {
        let q = p.resumed(id);
        assert forall|i: int| 0 <= i < q.sessions.len() implies {
            &&& (#[trigger] q.sessions[i]).id() == p.sessions[i].id()
            &&& q.sessions[i].owner == p.sessions[i].owner
            &&& q.sessions[i].status.scope == p.sessions[i].status.scope
            &&& q.sessions[i].live() ==> p.sessions[i].live()
            &&& sane(q.sessions[i])
            &&& q.sessions[i].id() != id ==> q.sessions[i] == quiet.sessions[i]
            &&& q.sessions[i].id() == id ==> p.get(id) == p.sessions[i]
        } by {
            assert(quiet.sessions[i].id() == p.sessions[i].id());
            assert(sane(quiet.sessions[i]));
            if p.sessions[i].id() == id {
                assert(p.at(i, id));
                assert(quiet.sessions[i] == p.sessions[i]);
            }
        }
        assert forall|i: int, j: int|
            #![trigger q.sessions[i], q.sessions[j]]
            0 <= i < j < q.sessions.len() implies q.sessions[i].id() != q.sessions[j].id() && !(
        q.sessions[i].status.scope == Scope::Desktop && q.sessions[j].status.scope == Scope::Desktop
            && acting(q.sessions[i]) && acting(q.sessions[j])) by {
            assert(p.sessions[i].id() != p.sessions[j].id());
            assert(quiet.sessions[i].id() != quiet.sessions[j].id());
        }
        assert forall|owner: u128| #[trigger] q.live_sessions(owner) <= MAX_SESSIONS by {
            let f = |s: SessionView<B>| s.owner == owner && s.live();
            fewer_pass(p.sessions, q.sessions, f);
            assert(p.live_sessions(owner) <= MAX_SESSIONS);
        }
    }
}

/// Only the local user's resuming makes a session active: an authorization panel that is
/// hidden, a takeover that ends or a view that reappears does not.
pub proof fn only_resuming_activates<B: Backend>(p: PolicyView<B>, step: Step<B>, id: Seq<char>)
    requires
        sound(p),
        after(p, step).has(id),
        acting(after(p, step).get(id)),
        !(p.has(id) && acting(p.get(id))),
    ensures
        step == (Step::<B>::Resume { id }),
        p.resume_obstacle(id) is None,
        p.resumable(id),
{
    let q = after(p, step);
    every_step_is_sound(p, step);
    the_one(q, id);
    let k = choose|k: int| q.at(k, id);
    assert(q.at(k, id));
    assert(acting(q.sessions[k]));
    match step {
        Step::Disconnect { owner } => {
            let keep = |s: SessionView<B>| s.owner != owner;
            p.sessions.lemma_filter_contains_rev(keep, q.sessions[k]);
            let m = choose|m: int| 0 <= m < p.sessions.len() && p.sessions[m] == q.sessions[k];
            assert(p.at(m, id));
            the_one(p, id);
        },
        Step::Request { owner, request, id: new_id, signal } => {
            if p.request_refusal(owner, request) is None {
                assert(q.ui_visible);
                assert(!acting(q.sessions[k]));
            } else {
                assert(p.at(k, id));
                the_one(p, id);
            }
        },
        Step::Grant { id: granted, .. } => {
            if p.pending(granted) {
                assert(p.sessions[k].id() == id);
            }
            assert(p.at(k, id));
            the_one(p, id);
        },
        Step::Resume { id: other } => {
            if p.resume_obstacle(other) is None {
                the_one(p, other);
                let quiet = if p.get(other).status.scope == Scope::Desktop {
                    p.others_held(other)
                } else {
                    p
                };
                assert(quiet.sessions[k].id() == p.sessions[k].id());
                assert(p.at(k, id));
                the_one(p, id);
            } else {
                assert(p.at(k, id));
                the_one(p, id);
            }
        },
        _ => {
            assert(p.sessions[k].id() == id);
            assert(p.at(k, id));
            the_one(p, id);
        },
    }
}

/// An authorization that has ended stays ended: no step makes a denied or closed session
/// usable again.
pub proof fn ended_stays_ended<B: Backend>(p: PolicyView<B>, step: Step<B>, id: Seq<char>)
    requires
        sound(p),
        p.has(id),
        !p.get(id).live(),
        after(p, step).has(id),
        !(step matches Step::Request { id: again, .. } && again == id),
    ensures
        !after(p, step).get(id).live(),
{
    let q = after(p, step);
    every_step_is_sound(p, step);
    the_one(q, id);
    the_one(p, id);
    let k = choose|k: int| q.at(k, id);
    assert(q.at(k, id));
    match step {
        Step::Disconnect { owner } => {
            let keep = |s: SessionView<B>| s.owner != owner;
            p.sessions.lemma_filter_contains_rev(keep, q.sessions[k]);
            let m = choose|m: int| 0 <= m < p.sessions.len() && p.sessions[m] == q.sessions[k];
            assert(p.at(m, id));
        },
        Step::Request { owner, request, id: new_id, signal } => {
            if p.request_refusal(owner, request) is None {
                let o = p.opened();
                let new = requested::<B>(owner, request, new_id, signal);
                let other = |s: SessionView<B>| s.id() != new.id();
                assert(q.sessions == o.sessions.filter(other).push(new));
                assert(k < o.sessions.filter(other).len());
                o.sessions.lemma_filter_contains_rev(other, q.sessions[k]);
                let m = choose|m: int| 0 <= m < o.sessions.len() && o.sessions[m] == q.sessions[k];
                assert(p.sessions[m].id() == id);
                assert(p.at(m, id));
            } else {
                assert(p.at(k, id));
            }
        },
        Step::Grant { id: granted, .. } => {
            if p.pending(granted) {
                the_one(p, granted);
            }
            assert(p.sessions[k].id() == id);
            assert(p.at(k, id));
        },
        Step::Resume { id: other } => {
            if p.resume_obstacle(other) is None {
                the_one(p, other);
            }
            assert(p.sessions[k].id() == id);
            assert(p.at(k, id));
        },
        Step::Remember { owner, id: other, observation } => {
            assert(p.sessions[k].id() == id);
            assert(p.at(k, id));
        },
        _ => {
            assert(p.sessions[k].id() == id);
            assert(p.at(k, id));
        },
    }
}

/// A pending session permits nothing and reveals nothing.
pub proof fn pending_reveals_and_permits_nothing<B: Backend>(
    p: PolicyView<B>,
    owner: u128,
    id: Seq<char>,
    action: Option<ActRequest>,
)
    requires
        sound(p),
        p.pending(id),
    ensures
        p.permit_refusal(owner, id, action) is Some,
        p.get(id).status.label is None,
        p.get(id).status.capabilities.len() == 0,
        p.get(id).status.targets.len() == 0,
{
    let k = choose|k: int| p.at(k, id);
    assert(sane(p.sessions[k]));
}

/// Nothing can be done with the session of another client.
pub proof fn strangers_get_nothing<B: Backend>(
    p: PolicyView<B>,
    owner: u128,
    id: Seq<char>,
    action: Option<ActRequest>,
)
    requires
        !p.owned(owner, id),
    ensures
        p.permit_refusal(owner, id, action) == Some(foreign()),
        p.remember_refusal(owner, id, None) == Some(foreign()),
{
}

/// A client that disconnected owns nothing and can request nothing any more.
pub proof fn disconnecting_ends_all_authority<B: Backend>(
    p: PolicyView<B>,
    owner: u128,
    id: Seq<char>,
    action: Option<ActRequest>,
    request: SessionRequest,
)
    requires
        p.distinct(),
    ensures
        !p.disconnected(owner).owned(owner, id),
        p.disconnected(owner).permit_refusal(owner, id, action) == Some(foreign()),
        p.disconnected(owner).request_refusal(owner, request) == Some(
            fault(ErrorCode::PermissionDenied, "客户端连接已断开"@),
        ),
{
    let q = p.disconnected(owner);
    if q.has(id) {
        let k = choose|k: int| q.at(k, id);
        assert(q.at(k, id));
        p.sessions.lemma_filter_pred(|s: SessionView<B>| s.owner != owner, k);
    }
}

/// A disconnected backend still counts as sending input until it is released.
pub proof fn disconnected_input_stays_in_the_barrier<B: Backend>(p: PolicyView<B>, owner: u128)
    ensures
        p.disconnected(owner).input_backends == p.input_backends,
{
}

/// An isolated application outlives its authorization for the local user.
pub proof fn isolated_application_is_retained<B: Backend>(p: PolicyView<B>, id: Seq<char>)
    requires
        p.has(id),
        p.get(id).status.mode == Mode::Isolated,
        p.get(id).backend is Some,
    ensures
        p.closed(id).retained.len() == p.retained.len() + 1,
        Some(p.closed(id).retained.last().1) == p.get(id).backend,
{
}

/// What a partial map gives for an element is among what it gives for all.
proof fn mapped_is_kept<A, C>(s: Seq<A>, f: spec_fn(A) -> Option<C>, k: int)
    requires
        0 <= k < s.len(),
        f(s[k]) is Some,
    ensures
        s.filter_map(f).contains(f(s[k])->0),
    decreases s.len(),
{
    let rest = s.drop_last();
    let all = s.filter_map(f);
    if k == s.len() - 1 {
        assert(all[rest.filter_map(f).len() as int] == f(s[k])->0);
    } else {
        mapped_is_kept(rest, f, k);
        let less = rest.filter_map(f);
        let m = choose|m: int| 0 <= m < less.len() && less[m] == f(s[k])->0;
        assert(all[m] == less[m]);
    }
}

/// Every session of a disconnected client that had an isolated application leaves it
/// behind.
pub proof fn disconnected_applications_are_retained<B: Backend>(
    p: PolicyView<B>,
    owner: u128,
    i: int,
)
    requires
        0 <= i < p.sessions.len(),
        p.sessions[i].owner == owner,
        p.sessions[i].leftover() is Some,
    ensures
        p.disconnected(owner).retained.contains(p.sessions[i].leftover()->0),
{
    let theirs = |s: SessionView<B>| s.owner == owner;
    let left = |s: SessionView<B>| s.leftover();
    let mine = p.sessions_of(owner);
    p.sessions.lemma_filter_contains(theirs, i);
    let item = p.sessions[i].leftover()->0;
    let k = choose|k: int| 0 <= k < mine.len() && mine[k] == p.sessions[i];
    let tail = mine.filter_map(left);
    mapped_is_kept(mine, left, k);
    assert(tail.contains(item));
    let m = choose|m: int| 0 <= m < tail.len() && tail[m] == item;
    assert(p.disconnected(owner).retained[p.retained.len() + m] == item);
}

/// Opening the panel cancels whatever acts: the generation that a permit captured is over.
pub proof fn opening_the_panel_cancels_and_pauses<B: Backend>(p: PolicyView<B>, i: int)
    requires
        0 <= i < p.sessions.len(),
    ensures
        !acting(p.opened().sessions[i]),
        acting(p.sessions[i]) ==> p.opened().sessions[i].status.state == State::Paused
            && p.opened().sessions[i].generation != p.sessions[i].generation
            && p.opened().sessions[i].observation is None,
        !acting(p.sessions[i]) ==> p.opened().sessions[i] == p.sessions[i],
        p.opened().ui_visible,
{
}

/// A stop moves the generation on, keeps the counter, and forgets the observation.
pub proof fn stopping_moves_on<B: Backend>(s: SessionView<B>, state: State)
    ensures
        s.stopped(state).generation != s.generation,
        s.stopped(state).signal == s.signal,
        s.stopped(state).observation is None,
        s.closed().generation != s.generation,
        s.closed().signal == s.signal,
        s.closed().backend is None,
{
}

/// A permit watches a counter that was told, or made with, the generation that the permit was
/// given in.
pub proof fn permits_are_in_step<B: Backend>(p: PolicyView<B>, id: Seq<char>, permit: Permit<B>)
    requires
        p.heard(),
        p.has(id),
        p.allows(id, permit),
    ensures
        in_step(*permit.cancel.generation, permit.cancel.captured),
{
    let k = choose|k: int| p.at(k, id);
    assert(p.at(k, id));
    assert(in_step(*p.sessions[k].signal, p.sessions[k].generation));
}

/// Revocation reaches what is running: whatever takes away what a session was permitted tells
/// the counter that the permit watches to leave the permit's generation.
pub proof fn revocation_reaches_permits<B: Backend>(
    p: PolicyView<B>,
    step: Step<B>,
    i: int,
    permit: Permit<B>,
)
    requires
        p.distinct(),
        0 <= i < p.sessions.len(),
        p.allows(p.sessions[i].id(), permit),
        revokes(p, step, p.sessions[i]),
        p.told(halted(p, step)),
    ensures
        permit.revoked(),
        halted(p, step).sessions[i].generation != permit.cancel.captured,
        was_written(*permit.cancel.generation, halted(p, step).sessions[i].generation),
{
    let id = p.sessions[i].id();
    let q = halted(p, step);
    assert(p.at(i, id));
    the_one(p, id);
    let k = choose|k: int| p.at(k, id);
    assert(p.at(k, id));
    assert(k == i) by {
        if k < i {
            assert(p.sessions[k].id() != p.sessions[i].id());
        } else if i < k {
            assert(p.sessions[i].id() != p.sessions[k].id());
        }
    }
    assert(q.sessions.len() == p.sessions.len());
    assert(q.sessions[i].signal == p.sessions[i].signal);
    assert(q.sessions[i].generation == next_generation(p.sessions[i].generation));
}

/// An action uses its observation up: the same request again is refused as stale.
pub proof fn an_observation_serves_one_action<B: Backend>(
    p: PolicyView<B>,
    owner: u128,
    request: ActRequest,
)
    requires
        p.distinct(),
        p.permit_refusal(owner, request.session_id@, Some(request)) is None,
    ensures
        after(p, Step::<B>::Act { owner, request }).permit_refusal(
            owner,
            request.session_id@,
            Some(request),
        ) == Some(fault(ErrorCode::StaleTarget, "请先重新观察"@)),
{
    let id = request.session_id@;
    let q = after(p, Step::<B>::Act { owner, request });
    let k = choose|k: int| p.at(k, id);
    assert(p.at(k, id));
    assert(q.at(k, id));
    assert(q.distinct()) by {
        assert forall|i: int, j: int|
            #![trigger q.sessions[i], q.sessions[j]]
            0 <= i < j < q.sessions.len() implies q.sessions[i].id() != q.sessions[j].id() by {
            assert(p.sessions[i].id() != p.sessions[j].id());
        }
    }
    the_one(p, id);
    the_one(q, id);
}

/// A session closed while it was being observed does not take the observation.
pub proof fn closing_discards_a_late_observation<B: Backend>(
    p: PolicyView<B>,
    owner: u128,
    id: Seq<char>,
)
    requires
        p.distinct(),
        p.has(id),
    ensures
        p.closed(id).remember_refusal(owner, id, None) is Some,
{
    let q = p.closed(id);
    let k = choose|k: int| p.at(k, id);
    assert(p.at(k, id));
    assert(q.at(k, id));
    assert(q.distinct()) by {
        assert forall|i: int, j: int|
            #![trigger q.sessions[i], q.sessions[j]]
            0 <= i < j < q.sessions.len() implies q.sessions[i].id() != q.sessions[j].id() by {
            assert(p.sessions[i].id() != p.sessions[j].id());
        }
    }
    the_one(q, id);
}

/// No action passes while the panel is open or the local user has taken over.
pub proof fn local_control_blocks_actions<B: Backend>(
    p: PolicyView<B>,
    owner: u128,
    id: Seq<char>,
    request: ActRequest,
)
    requires
        p.ui_visible || p.manual_previews > 0,
    ensures
        p.permit_refusal(owner, id, Some(request)) is Some,
{
}

/// Resuming a desktop session leaves no other desktop session active.
pub proof fn resuming_the_desktop_takes_it_over<B: Backend>(
    p: PolicyView<B>,
    id: Seq<char>,
    other: int,
)
    requires
        p.distinct(),
        p.has(id),
        p.get(id).status.scope == Scope::Desktop,
        0 <= other < p.sessions.len(),
        p.sessions[other].id() != id,
        p.sessions[other].status.scope == Scope::Desktop,
    ensures
        !acting(p.resumed(id).sessions[other]),
        acting(p.sessions[other]) ==> p.resumed(id).sessions[other].generation
            != p.sessions[other].generation,
{
    let quiet = p.others_held(id);
    assert(quiet.sessions[other].id() == p.sessions[other].id());
}

/// A hidden view pauses an isolated application only when it was the last one; opening
/// a view pauses nothing.
pub proof fn the_last_view_pauses<B: Backend>(s: SessionView<B>)
    requires
        acting(s),
        s.visible_views > 0,
    ensures
        s.visible_views == 1 ==> s.view_lost().status.state == State::Paused
            && s.view_lost().generation != s.generation,
        s.visible_views > 1 ==> acting(s.view_lost()) && s.view_lost().generation == s.generation,
{
}

} // verus!
