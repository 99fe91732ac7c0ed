//! Which backends the policy and the panel hold, and for whom.
use vstd::prelude::*;

use crate::backend::Backend;
use crate::laws::permits::lemma_found;
use crate::model::{Fault, Target};
use crate::policy::{lease_of, named, BackendHandle, Policy, Session, SessionView};
use crate::table::Table;
use crate::text::texts;
use crate::ui::panel::{Panel, Prepared};

verus! {

/// A session is found by its identifier, whoever it belongs to.
pub proof fn sessions_are_found_by_identifier<B: Backend>(
    p: Policy<B>,
    id: &str,
    r: Option<&Session<B>>,
    i: int,
)
    requires
        p.wf(),
        call_ensures(Policy::<B>::session, (&p, id), r),
        0 <= i < p.sessions@.len(),
    ensures
        p.sessions@[i].status.session_id@ == id@ ==> (r matches Some(s) && s@
            == p.sessions@[i]@),
        r is None ==> p.sessions@[i].status.session_id@ != id@,
{
    if p.sessions@[i].status.session_id@ == id@ {
        lemma_found(p, i, 0, id@);
    }
}

proof fn lemma_kept<A, C>(s: Seq<A>, f: spec_fn(A) -> Option<C>, k: int)
    requires
        0 <= k < s.filter_map(f).len(),
    ensures
        exists|i: int| 0 <= i < s.len() && f(#[trigger] s[i]) == Some(s.filter_map(f)[k]),
    decreases s.len(),
{
    reveal(Seq::filter_map);
    if s.len() > 0 {
        let rest = s.drop_last();
        if k < rest.filter_map(f).len() {
            lemma_kept(rest, f, k);
            let i = choose|i: int|
                0 <= i < rest.len() && f(#[trigger] rest[i]) == Some(rest.filter_map(f)[k]);
            assert(s[i] == rest[i]);
            assert(s.filter_map(f)[k] == rest.filter_map(f)[k]);
        } else {
            assert(f(s[s.len() - 1]) == Some(s.filter_map(f)[k]));
        }
    }
}

/// Every session that has a backend is listed with it, under its own identifier, and nothing
/// else is.
pub proof fn every_backend_is_listed_with_its_session<B: Backend>(
    p: Policy<B>,
    r: Vec<(String, BackendHandle<B>)>,
    i: int,
    k: int,
)
    requires
        call_ensures(Policy::<B>::backends, (&p,), r),
        0 <= i < p.sessions@.len(),
        0 <= k < r@.len(),
    ensures
        p.sessions@[i].backend matches Some(handle) ==> exists|n: int| {
            &&& 0 <= n < r@.len()
            &&& (#[trigger] r@[n]).0@ == p.sessions@[i].status.session_id@
            &&& r@[n].1 == handle
        },
        exists|n: int| {
            &&& 0 <= n < p.sessions@.len()
            &&& (#[trigger] p.sessions@[n]).status.session_id@ == r@[k].0@
            &&& p.sessions@[n].backend == Some(r@[k].1)
        },
{
    let f = |s: SessionView<B>|
        match s.backend {
            Some(handle) => Some((s.id(), handle)),
            None => None,
        };
    let all = p@.sessions;
    let v = named(r@);
    assert(v.len() == r@.len());
    assert(v == all.filter_map(f));
    assert(all[i] == p.sessions@[i]@);
    if p.sessions@[i].backend is Some {
        crate::laws::control::lemma_mapped(all, f, i);
        let n = choose|n: int| 0 <= n < v.len() && v[n] == f(all[i])->0;
        assert(v[n] == (r@[n].0@, r@[n].1));
        assert(r@[n].0@ == p.sessions@[i].status.session_id@);
    }
    lemma_kept(all, f, k);
    let n = choose|n: int| 0 <= n < all.len() && f(#[trigger] all[n]) == Some(v[k]);
    assert(v[k] == (r@[k].0@, r@[k].1));
    assert(all[n] == p.sessions@[n]@);
    assert(p.sessions@[n].status.session_id@ == r@[k].0@);
}

proof fn lemma_lease<B: Backend>(leases: Seq<(Seq<char>, BackendHandle<B>)>, id: Seq<char>, i: int)
    requires
        0 <= i < leases.len(),
        leases[i].0 == id,
        forall|j: int| 0 <= j < i ==> (#[trigger] leases[j]).0 != id,
    ensures
        lease_of(leases, id) == Some(leases[i].1),
    decreases i,
{
    if i > 0 {
        let rest = leases.drop_first();
        assert(leases[0].0 != id);
        assert forall|j: int| 0 <= j < i - 1 implies (#[trigger] rest[j]).0 != id by {
            assert(rest[j] == leases[j + 1]);
        }
        lemma_lease(rest, id, i - 1);
    }
}

/// Every backend that may be sending input is handed out by its session's name, as long as
/// somebody keeps it.
pub proof fn senders_of_input_are_handed_out<B: Backend>(
    p: Policy<B>,
    leases: &Vec<(String, BackendHandle<B>)>,
    r: Vec<BackendHandle<B>>,
    k: int,
    i: int,
)
    requires
        call_ensures(Policy::<B>::input_handles, (&p, leases), r),
        0 <= k < p.input_backends@.len(),
        0 <= i < leases@.len(),
        leases@[i].0@ == p.input_backends@[k]@,
        forall|j: int| 0 <= j < i ==> (#[trigger] leases@[j]).0@ != p.input_backends@[k]@,
    ensures
        r@.contains(leases@[i].1),
{
    let n = named(leases@);
    let id = p.input_backends@[k]@;
    assert(n.len() == leases@.len());
    assert(n[i] == (leases@[i].0@, leases@[i].1));
    assert forall|j: int| 0 <= j < i implies (#[trigger] n[j]).0 != id by {
        assert(n[j].0 == leases@[j].0@);
    }
    lemma_lease(n, id, i);
    let f = |x: Seq<char>| lease_of(n, x);
    assert(p@.input_backends[k] == id);
    crate::laws::control::lemma_mapped(p@.input_backends, f, k);
}

/// What outlived its session is handed over once.
pub proof fn outlived_backends_are_handed_over_once<B: Backend>(
    before: Policy<B>,
    after: Policy<B>,
    r: Vec<(String, BackendHandle<B>)>,
)
    requires
        exists|p: &mut Policy<B>|
            *p == before && *final(p) == after && #[trigger] call_ensures(
                Policy::<B>::take_retained,
                (p,),
                r,
            ),
    ensures
        named(r@) == named(before.retained@),
        after.retained@.len() == 0,
        after@.sessions == before@.sessions,
        after@.clients == before@.clients,
{
    assert(after@.retained.len() == after.retained@.len());
}

/// What was prepared waits for its request while that is pending; once the request ended it goes
/// to the user if it survives. What could not be prepared is said. Either way it is no longer
/// being prepared.
pub proof fn prepared_backends_wait_for_their_request<B: Backend>(
    before: Panel<B>,
    after: Panel<B>,
    policy: &Policy<B>,
    id: String,
    ready: Prepared<B>,
    failed: Panel<B>,
    f: Fault,
    name: &str,
    busy: bool,
    other: &str,
    was: bool,
    is: bool,
    offer: Option<&Prepared<B>>,
)
    requires
        before.wf(),
        policy.wf(),
        exists|p: &mut Panel<B>|
            *p == before && *final(p) == after && #[trigger] call_ensures(
                Panel::<B>::finished,
                (p, policy, id, Ok::<Prepared<B>, Fault>(ready)),
                (),
            ),
        exists|p: &mut Panel<B>|
            *p == before && *final(p) == failed && #[trigger] call_ensures(
                Panel::<B>::finished,
                (p, policy, id, Err::<Prepared<B>, Fault>(f)),
                (),
            ),
        name@ == id@,
        other@ != id@,
        call_ensures(Panel::<B>::is_busy, (&after, name), busy),
        call_ensures(Panel::<B>::is_busy, (&before, other), was),
        call_ensures(Panel::<B>::is_busy, (&after, other), is),
        call_ensures(Panel::<B>::offer, (&after, name), offer),
    ensures
        !busy,
        is == was,
        policy@.pending(id@) ==> (offer matches Some(p) && *p == ready),
        !policy@.pending(id@) ==> after@.prepared == before@.prepared,
        after.detached@.len() == before.detached@.len() + (if !policy@.pending(id@)
            && ready.survives {
            1int
        } else {
            0
        }),
        after@.banner == before@.banner,
        failed.banner@ == f.message@,
        failed@.prepared == before@.prepared,
{
    assert(after@.detached.len() == after.detached@.len());
    assert(before@.detached.len() == before.detached@.len());
}

/// Applications of an earlier run are shown behind the others, as recovered.
pub proof fn recovered_applications_are_named_so<B: Backend>(
    before: Panel<B>,
    after: Panel<B>,
    found: Vec<(String, BackendHandle<B>)>,
    i: int,
)
    requires
        exists|p: &mut Panel<B>|
            *p == before && *final(p) == after && #[trigger] call_ensures(
                Panel::<B>::recovered,
                (p, found),
                (),
            ),
        0 <= i < found@.len(),
    ensures
        after.detached@.len() == before.detached@.len() + found@.len(),
        after.detached@[before.detached@.len() + i].0@ == "恢复："@ + found@[i].0@,
        after.detached@[before.detached@.len() + i].1 == found@[i].1,
        after@.prepared == before@.prepared && after@.busy == before@.busy,
{
    let a = after@.detached;
    let n = before.detached@.len() as int;
    assert(a.len() == after.detached@.len());
    assert(before@.detached.len() == before.detached@.len());
    assert(named(found@).len() == found@.len());
    assert(a[n + i] == (after.detached@[n + i].0@, after.detached@[n + i].1));
}

/// A table keeps the keys that it is told to keep, with their values, and drops the others; a
/// key is found by its value.
pub proof fn tables_keep_what_they_are_told(
    before: Table<String>,
    after: Table<String>,
    keys: &Vec<String>,
    key: &str,
    was: Option<&String>,
    is: Option<&String>,
    value: &str,
    found: Option<String>,
)
    requires
        before.wf(),
        exists|t: &mut Table<String>|
            *t == before && *final(t) == after && #[trigger] call_ensures(
                Table::<String>::retain,
                (t, keys),
                (),
            ),
        call_ensures(Table::<String>::get, (&before, key), was),
        call_ensures(Table::<String>::get, (&after, key), is),
        call_ensures(Table::<String>::key_of, (&before, value), found),
    ensures
        is is Some <==> was is Some && texts(keys@).contains(key@),
        is matches Some(v) ==> v@ == was->0@,
        was matches Some(v) ==> (v@ == value@ ==> found is Some),
        found matches Some(k) ==> (k@ == key@ ==> (was matches Some(v) && v@ == value@)),
{
    if was is Some && was->0@ == value@ && found is None {
        assert(before@[key@]@ != value@);
    }
}

/// A granted session may send input from then on; those before it may as long as their backend
/// is still held by someone.
pub proof fn granted_sessions_may_send_input<B: Backend>(
    before: Policy<B>,
    after: Policy<B>,
    id: &str,
    label: String,
    handle: BackendHandle<B>,
    capabilities: Vec<String>,
    targets: Result<Vec<Target>, Fault>,
    busy: &Vec<String>,
    r: Result<(), Fault>,
    k: int,
)
    requires
        exists|p: &mut Policy<B>|
            *p == before && *final(p) == after && #[trigger] call_ensures(
                Policy::<B>::grant_prepared,
                (p, id, label, handle, capabilities, targets, busy),
                r,
            ),
        before.wf(),
        r is Ok,
        0 <= k < before.input_backends@.len(),
        before.input_backends@[k]@ != id@,
    ensures
        after.input_backends@.len() > 0 && after.input_backends@.last()@ == id@,
        texts(after.input_backends@).contains(before.input_backends@[k]@) <==> texts(
            busy@,
        ).contains(before.input_backends@[k]@),
{
    let was = texts(before.input_backends@);
    let is = texts(after.input_backends@);
    let held = |i: Seq<char>| texts(busy@).contains(i);
    assert(was.len() == before.input_backends@.len() && is.len() == after.input_backends@.len());
    assert(was == before@.input_backends && is == after@.input_backends);
    let kept = was.filter(held);
    assert(is == kept.push(id@));
    assert(is.last() == after.input_backends@.last()@);
    let x = before.input_backends@[k]@;
    assert(was[k] == x);
    if held(x) {
        was.lemma_filter_contains(held, k);
        let n = choose|n: int| 0 <= n < kept.len() && kept[n] == x;
        assert(is[n] == x);
    }
    if is.contains(x) {
        let n = choose|n: int| 0 <= n < is.len() && is[n] == x;
        assert(n < kept.len());
        was.lemma_filter_pred(held, n);
        assert(kept[n] == x);
    }
}

} // verus!
