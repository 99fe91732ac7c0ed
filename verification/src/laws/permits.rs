//! Whom the policy lets act, and where.
use vstd::prelude::*;

use crate::backend::Backend;
use crate::model::{ActRequest, Action, Fault, Point, State};
use crate::number::{unit, Binary64};
use crate::policy::{Permit, Policy};
use crate::text::bytes;

verus! {

/// Whether a session is in a place, belongs to a client, and has authority that nothing holds up.
pub open spec fn free_to_act<B: Backend>(
    p: Policy<B>,
    i: int,
    owner: u128,
    request: ActRequest,
) -> bool {
    &&& p.wf()
    &&& 0 <= i < p.sessions@.len()
    &&& p.sessions@[i].status.session_id@ == request.session_id@
    &&& p.sessions@[i].owner == owner
    &&& p.sessions@[i].status.state == State::Active
    &&& p.sessions@[i].backend is Some
    &&& !p.ui_visible
    &&& p.manual_previews == 0
}

/// Whether a session offers what an action needs, and was last seen as the request says.
pub open spec fn well_aimed<B: Backend>(p: Policy<B>, i: int, request: ActRequest, needs: Seq<char>)
    -> bool {
    &&& exists|j: int|
        0 <= j < p.sessions@[i].status.capabilities@.len() && (
        #[trigger] p.sessions@[i].status.capabilities@[j])@ == needs
    &&& p.sessions@[i].observation matches Some(o)
    &&& o.observation_id@ == request.observation_id@
    &&& o.target.id@ == request.target@
}

/// Whether a coordinate is a number at or above nothing and below a bound.
pub open spec fn inside(n: Binary64, bound: u32) -> bool {
    n.finite() && 0 <= n.value() && n.value() < bound * unit()
}

/// Whether a place is in the picture that a session was last seen in.
pub open spec fn pictured<B: Backend>(p: Policy<B>, i: int, at: Point) -> bool {
    &&& p.sessions@[i].observation matches Some(o)
    &&& inside(at.x, o.target.width)
    &&& inside(at.y, o.target.height)
}

pub(crate) proof fn lemma_found<B: Backend>(p: Policy<B>, i: int, owner: u128, id: Seq<char>)
    requires
        p.wf(),
        0 <= i < p.sessions@.len(),
        p.sessions@[i].status.session_id@ == id,
    ensures
        p@.has(id),
        p@.get(id) == p.sessions@[i]@,
        p@.owned(owner, id) == (p.sessions@[i].owner == owner),
{
    assert(p@.sessions[i] == p.sessions@[i]@);
    assert(p@.at(i, id));
    let j = choose|j: int| p@.at(j, id);
    assert(p@.at(j, id));
    if i != j {
        assert(p@.sessions[i].id() == p@.sessions[j].id());
    }
}

proof fn lemma_offered<B: Backend>(p: Policy<B>, i: int, needs: Seq<char>)
    requires
        0 <= i < p.sessions@.len(),
    ensures
        p.sessions@[i]@.status.capabilities.contains(needs) == exists|j: int|
            0 <= j < p.sessions@[i].status.capabilities@.len() && (
            #[trigger] p.sessions@[i].status.capabilities@[j])@ == needs,
{
    let all = p.sessions@[i].status.capabilities@;
    let seen = p.sessions@[i]@.status.capabilities;
    if seen.contains(needs) {
        let j = choose|j: int| 0 <= j < seen.len() && seen[j] == needs;
        assert(all[j]@ == needs);
    }
    if exists|j: int| 0 <= j < all.len() && (#[trigger] all[j])@ == needs {
        let j = choose|j: int| 0 <= j < all.len() && (#[trigger] all[j])@ == needs;
        assert(seen[j] == needs);
    }
}

/// Whether an action may be performed, by what it is: a click, a drag and a scroll stay in the
/// picture, whose width bounds what goes to the right and whose height bounds what goes down; a
/// scroll is of two thousand at most each way; texts have 65536 bytes at most, names of keys 64,
/// and four modifiers at most go with a key.
pub open spec fn fair<B: Backend>(p: Policy<B>, i: int, action: Action) -> bool {
    match action {
        Action::Click { at, .. } => pictured(p, i, at),
        Action::Drag { from, to } => pictured(p, i, from) && pictured(p, i, to),
        Action::Scroll { at, dx, dy } => {
            &&& pictured(p, i, at)
            &&& dx.finite() && -2000 * unit() <= dx.value() && dx.value() <= 2000 * unit()
            &&& dy.finite() && -2000 * unit() <= dy.value() && dy.value() <= 2000 * unit()
        },
        Action::Text { text } => bytes(text@) <= 65536,
        Action::SetText { text, .. } => bytes(text@) <= 65536,
        Action::Key { key, modifiers } => bytes(key@) <= 64 && modifiers@.len() <= 4,
        Action::Invoke { .. } => true,
        Action::FocusWindow { .. } => true,
    }
}

/// The capability that an action needs.
pub open spec fn need(action: Action) -> Seq<char> {
    match action {
        Action::Click { .. } => "click"@,
        Action::Drag { .. } => "drag"@,
        Action::Scroll { .. } => "scroll"@,
        Action::Text { .. } => "text"@,
        Action::Key { .. } => "key"@,
        Action::SetText { .. } => "set_text"@,
        Action::Invoke { .. } => "invoke"@,
        Action::FocusWindow { .. } => "focus_window"@,
    }
}

/// A session that is free to act is permitted an action if and only if it offers what the action
/// needs, the action is for what was observed last, and it is fair. The permit is for the
/// session's own backend and observation.
pub proof fn actions_are_permitted_on_what_was_observed<B: Backend>(
    p: Policy<B>,
    i: int,
    owner: u128,
    id: &str,
    request: ActRequest,
    r: Result<Permit<B>, Fault>,
)
    requires
        call_ensures(Policy::<B>::permit, (&p, owner, id, Some(&request)), r),
        id@ == request.session_id@,
        free_to_act(p, i, owner, request),
    ensures
        r is Ok <==> well_aimed(p, i, request, need(request.action)) && fair(p, i, request.action),
        r matches Ok(permit) ==> {
            &&& Some(permit.backend) == p.sessions@[i].backend
            &&& permit.cancel.generation == p.sessions@[i].signal
            &&& permit.cancel.captured == p.sessions@[i].generation
        },
{
    lemma_found(p, i, owner, id@);
    lemma_offered(p, i, need(request.action));
}

/// An action uses up what it was permitted on: afterwards the session has no observation, and
/// nothing else has changed. A refused action changes nothing.
pub proof fn permitted_actions_use_up_their_observation<B: Backend>(
    before: Policy<B>,
    after: Policy<B>,
    i: int,
    j: int,
    owner: u128,
    request: ActRequest,
    r: Result<Permit<B>, Fault>,
)
    requires
        exists|p: &mut Policy<B>|
            *p == before && *final(p) == after && #[trigger] call_ensures(
                Policy::<B>::action_permit,
                (p, owner, &request),
                r,
            ),
        free_to_act(before, i, owner, request),
        0 <= j < before.sessions@.len(),
    ensures
        r is Ok <==> well_aimed(before, i, request, need(request.action)) && fair(
            before,
            i,
            request.action,
        ),
        after.sessions@.len() == before.sessions@.len(),
        r is Ok ==> after.sessions@[i].observation is None,
        r is Err || j != i ==> after.sessions@[j]@ == before.sessions@[j]@,
        after.sessions@[j].status@ == before.sessions@[j].status@,
        after.sessions@[j].generation == before.sessions@[j].generation,
        after.sessions@[j].backend == before.sessions@[j].backend,
        after.ui_visible == before.ui_visible,
        after.manual_previews == before.manual_previews,
{
    lemma_found(before, i, owner, request.session_id@);
    lemma_offered(before, i, need(request.action));
    assert(after@.sessions.len() == after.sessions@.len());
    assert(before@.sessions.len() == before.sessions@.len());
    assert(before@.sessions[i] == before.sessions@[i]@);
    assert(before@.sessions[j] == before.sessions@[j]@);
    assert(after@.sessions[i] == after.sessions@[i]@);
    assert(after@.sessions[j] == after.sessions@[j]@);
}

} // verus!
