//! The panel's own state: backends that are being prepared or are ready, applications without
//! a session, and what the local user's decisions do.
use vstd::prelude::*;

use crate::authority::{after, Step};
use crate::backend::Backend;
use crate::model::{ErrorCode, Fault, Mode, SessionStatus, State, StatusView, Target};
use crate::policy::{ask, named, offers, share, shares, BackendHandle, Policy, PolicyView};
use crate::table::Table;
use crate::text::{same, texts};
use crate::ui::{same_statuses, statuses_view};

verus! {

/// A backend that is ready for a request, until the local user decides.
#[verifier::reject_recursive_types(B)]
pub struct Prepared<B: Backend> {
    pub backend: B,
    pub label: String,
    /// A picture of what will be granted.
    pub preview: Option<String>,
    /// Whether it stays for the local user where the request has ended.
    pub survives: bool,
}

/// The state of the panel.
#[verifier::reject_recursive_types(B)]
pub struct Panel<B: Backend> {
    pub prepared: Table<Prepared<B>>,
    /// Requests for which a backend is being prepared.
    pub busy: Vec<String>,
    /// Applications without a session.
    pub detached: Vec<(String, BackendHandle<B>)>,
    pub banner: String,
    /// What was drawn last, unless it must be drawn again.
    pub drawn: Option<Vec<SessionStatus>>,
}

/// The state of the panel by its values.
#[verifier::ext_equal]
#[verifier::reject_recursive_types(B)]
pub struct PanelView<B: Backend> {
    pub prepared: Map<Seq<char>, Prepared<B>>,
    pub busy: Set<Seq<char>>,
    pub detached: Seq<(Seq<char>, BackendHandle<B>)>,
    pub banner: Seq<char>,
    pub drawn: Option<Seq<StatusView>>,
}

/// The identifiers in a list.
pub open spec fn members(v: Seq<String>) -> Set<Seq<char>> {
    Set::new(|s: Seq<char>| texts(v).contains(s))
}

impl<B: Backend> View for Panel<B> {
    type V = PanelView<B>;

    open spec fn view(&self) -> PanelView<B> {
        PanelView {
            prepared: self.prepared@,
            busy: members(self.busy@),
            detached: named(self.detached@),
            banner: self.banner@,
            drawn: match self.drawn {
                Some(v) => Some(statuses_view(v@)),
                None => None,
            },
        }
    }
}

fn is_member(v: &Vec<String>, id: &str) -> (r: bool)
    ensures
        r == members(v@).contains(id@),
{
    let mut i: usize = 0;
    while i < v.len()
        invariant
            i <= v@.len(),
            forall|j: int| 0 <= j < i ==> #[trigger] texts(v@)[j] != id@,
        decreases v@.len() - i,
    {
        assert(texts(v@)[i as int] == v@[i as int]@);
        if same(v[i].as_str(), id) {
            return true;
        }
        i = i + 1;
    }
    assert(texts(v@).len() == v@.len());
    false
}

fn add_member(v: &mut Vec<String>, id: &str)
    ensures
        members(final(v)@) == members(old(v)@).insert(id@),
{
    let ghost was = texts(v@);
    if !is_member(v, id) {
        v.push(id.to_owned());
        proof {
            assert(texts(v@) =~= was.push(id@));
            assert forall|s: Seq<char>| #[trigger] was.push(id@).contains(s) == (was.contains(s)
                || s == id@) by {
                if was.contains(s) {
                    let k = choose|k: int| 0 <= k < was.len() && was[k] == s;
                    assert(was.push(id@)[k] == s);
                }
                if s == id@ {
                    assert(was.push(id@)[was.len() as int] == s);
                }
            }
            assert(members(v@) =~= members(old(v)@).insert(id@));
        }
    } else {
        assert(members(v@) =~= members(old(v)@).insert(id@));
    }
}

fn drop_member(v: &mut Vec<String>, id: &str)
    ensures
        members(final(v)@) == members(old(v)@).remove(id@),
{
    let ghost all = texts(v@);
    let mut out: Vec<String> = Vec::new();
    let mut i: usize = 0;
    while i < v.len()
        invariant
            i <= v@.len(),
            v@ == old(v)@,
            all == texts(v@),
            forall|s: Seq<char>| #[trigger]
                texts(out@).contains(s) == (all.take(i as int).contains(s) && s != id@),
        decreases v@.len() - i,
    {
        let ghost was = texts(out@);
        let ghost x = all[i as int];
        assert(x == v@[i as int]@);
        let keep = !same(v[i].as_str(), id);
        if keep {
            out.push(v[i].clone());
            assert(texts(out@) =~= was.push(x));
        }
        proof {
            assert forall|s: Seq<char>| #[trigger]
                texts(out@).contains(s) == (all.take(i + 1).contains(s) && s != id@) by {
                let t = all.take(i + 1);
                assert(was.contains(s) == (all.take(i as int).contains(s) && s != id@));
                if texts(out@).contains(s) {
                    let k = choose|k: int| 0 <= k < texts(out@).len() && texts(out@)[k] == s;
                    if k < was.len() {
                        assert(was[k] == s);
                        let m = choose|m: int| 0 <= m < i && all.take(i as int)[m] == s;
                        assert(t[m] == s);
                    } else {
                        assert(t[i as int] == s);
                    }
                }
                if t.contains(s) && s != id@ {
                    let m = choose|m: int| 0 <= m < t.len() && t[m] == s;
                    if m < i {
                        assert(all.take(i as int)[m] == s);
                        let k = choose|k: int| 0 <= k < was.len() && was[k] == s;
                        assert(texts(out@)[k] == s);
                    } else {
                        assert(texts(out@)[was.len() as int] == s);
                    }
                }
            }
        }
        i = i + 1;
    }
    assert(all.take(i as int) =~= all);
    assert(members(out@) =~= members(old(v)@).remove(id@));
    *v = out;
}

/// The backend of an isolated session, whose window can be opened.
pub open spec fn window_of<B: Backend>(p: PolicyView<B>, id: Seq<char>) -> Option<
    BackendHandle<B>,
> {
    if p.has(id) && p.get(id).status.mode == Mode::Isolated {
        p.get(id).backend
    } else {
        None
    }
}

/// An application that was allowed and runs: its window is to be opened, and the panel hidden
/// unless something else asks for it.
#[verifier::reject_recursive_types(B)]
pub struct Opened<B: Backend> {
    pub backend: BackendHandle<B>,
    pub hide: bool,
}

/// What comes of an application that was allowed while its request was pending, by what its
/// backend answered: the banner, and what is opened.
pub open spec fn allowance<B: Backend>(
    p: PolicyView<B>,
    epoch: u64,
    handle: BackendHandle<B>,
    targets: Result<Vec<Target>, Fault>,
    banner: Seq<char>,
) -> (Seq<char>, Option<Opened<B>>) {
    match targets {
        Ok(_) => (banner, Some(Opened { backend: handle, hide: p.ui_epoch == epoch })),
        Err(e) => (e.message@, None),
    }
}

/// What the banner says after a confirmation, by what the backend answered.
pub open spec fn confirmed_banner(
    targets: Result<Vec<Target>, Fault>,
    banner: Seq<char>,
) -> Seq<char> {
    match targets {
        Ok(_) => banner,
        Err(e) => e.message@,
    }
}

impl<B: Backend> Panel<B> {
    /// No request has two prepared backends.
    pub open spec fn wf(&self) -> bool {
        self.prepared.wf()
    }

    pub fn new() -> (r: Self)
        ensures
            r.wf(),
            r@ == (PanelView::<B> {
                prepared: Map::empty(),
                busy: Set::empty(),
                detached: Seq::empty(),
                banner: Seq::empty(),
                drawn: None,
            }),
    {
        let r = Panel {
            prepared: Table::new(),
            busy: Vec::new(),
            detached: Vec::new(),
            banner: String::new(),
            drawn: None,
        };
        proof {
            assert(texts(r.busy@) =~= Seq::empty());
            assert(r@.busy =~= Set::empty());
            assert(r@.detached =~= Seq::empty());
            assert(r@.banner =~= Seq::empty());
        }
        r
    }

    /// The panel must be drawn again.
    pub fn invalidate(&mut self)
        ensures
            final(self)@ == (PanelView { drawn: None, ..old(self)@ }),
            final(self).prepared == old(self).prepared,
    {
        self.drawn = None;
    }

    /// Whether the panel must be drawn, for some statuses. They are then taken as drawn.
    pub fn draw(&mut self, statuses: Vec<SessionStatus>) -> (r: bool)
        ensures
            final(self)@ == (PanelView { drawn: Some(statuses_view(statuses@)), ..old(self)@ }),
            final(self).prepared == old(self).prepared,
            r == (old(self)@.drawn != Some(statuses_view(statuses@))),
    {
        let changed = match &self.drawn {
            Some(v) => !same_statuses(v, &statuses),
            None => true,
        };
        self.drawn = Some(statuses);
        changed
    }

    /// Whether a backend is being prepared for a request.
    pub fn is_busy(&self, id: &str) -> (r: bool)
        ensures
            r == self@.busy.contains(id@),
    {
        is_member(&self.busy, id)
    }

    /// Begins to prepare a backend, unless one is being prepared already.
    pub fn prepare(&mut self, id: &str) -> (r: bool)
        ensures
            r == !old(self)@.busy.contains(id@),
            final(self).prepared == old(self).prepared,
            final(self)@ == (if r {
                PanelView { busy: old(self)@.busy.insert(id@), drawn: None, ..old(self)@ }
            } else {
                old(self)@
            }),
    {
        if self.is_busy(id) {
            return false;
        }
        add_member(&mut self.busy, id);
        self.drawn = None;
        true
    }

    fn detach(&mut self, label: String, backend: B) -> (r: BackendHandle<B>)
        ensures
            final(self).prepared == old(self).prepared,
            final(self).busy == old(self).busy,
            final(self).banner == old(self).banner,
            final(self).drawn == old(self).drawn,
            named(final(self).detached@) == named(old(self).detached@).push((label@, r)),
            shares(r, backend),
    {
        let ghost was = named(self.detached@);
        let handle = share(backend);
        let ghost name = label@;
        self.detached.push((label, handle.clone()));
        assert(named(self.detached@) =~= was.push((name, handle)));
        handle
    }

    /// A backend was prepared, or could not be. If its request has ended meanwhile, it stays
    /// for the local user where it can.
    pub fn finished(&mut self, policy: &Policy<B>, id: String, result: Result<Prepared<B>, Fault>)
        requires
            old(self).wf(),
            policy.wf(),
        ensures
            final(self).wf(),
            final(self)@.busy == old(self)@.busy.remove(id@),
            final(self)@.drawn is None,
            match result {
                Ok(ready) => {
                    &&& final(self)@.banner == old(self)@.banner
                    &&& final(self)@.prepared == (if policy@.pending(id@) {
                        old(self)@.prepared.insert(id@, ready)
                    } else {
                        old(self)@.prepared
                    })
                    &&& if !policy@.pending(id@) && ready.survives {
                        exists|handle: BackendHandle<B>|
                            #![trigger old(self)@.detached.push((ready.label@, handle))]
                            shares(handle, ready.backend) && final(self)@.detached
                                == old(self)@.detached.push((ready.label@, handle))
                    } else {
                        final(self)@.detached == old(self)@.detached
                    }
                },
                Err(e) => {
                    &&& final(self)@.banner == e.message@
                    &&& final(self)@.prepared == old(self)@.prepared
                    &&& final(self)@.detached == old(self)@.detached
                },
            },
    {
        drop_member(&mut self.busy, id.as_str());
        self.drawn = None;
        match result {
            Ok(ready) => {
                if is_pending(policy, id.as_str()) {
                    self.prepared.insert(id, ready);
                } else if ready.survives {
                    let ghost name = ready.label@;
                    let handle = self.detach(ready.label, ready.backend);
                    assert(self@.detached == old(self)@.detached.push((name, handle)));
                }
            },
            Err(e) => {
                self.banner = e.message;
            },
        }
    }

    /// An application that the local user allowed was started, or could not be. Where its
    /// request has ended meanwhile, it stays for the local user without any session.
    pub fn allowed(
        &mut self,
        policy: &mut Policy<B>,
        id: String,
        epoch: u64,
        result: Result<Prepared<B>, Fault>,
        busy: &Vec<String>,
    ) -> (r: Option<Opened<B>>)
        requires
            old(self).wf(),
            old(policy).wf(),
        ensures
            final(self).wf(),
            final(policy).wf(),
            final(self)@.busy == old(self)@.busy.remove(id@),
            final(self)@.drawn is None,
            final(self)@.prepared == old(self)@.prepared,
            match result {
                Err(e) => {
                    &&& r is None
                    &&& final(policy)@ == after(
                        old(policy)@,
                        Step::Deny { id: id@, message: e.message@ },
                    )
                    &&& final(self)@.banner == e.message@
                    &&& final(self)@.detached == old(self)@.detached
                },
                Ok(ready) => if !old(policy)@.pending(id@) {
                    &&& r is None
                    &&& final(policy)@ == old(policy)@
                    &&& final(self)@.banner == old(self)@.banner
                    &&& exists|handle: BackendHandle<B>|
                        shares(handle, ready.backend) && final(self)@.detached
                            == #[trigger] old(self)@.detached.push((ready.label@, handle))
                } else {
                    &&& final(self)@.detached == old(self)@.detached
                    &&& exists|
                        handle: BackendHandle<B>,
                        capabilities: Vec<String>,
                        targets: Result<Vec<Target>, Fault>,
                    |
                        {
                            &&& offers(ready.backend, capabilities, targets)
                            &&& exists|b: &mut B|
                                *b == ready.backend && #[trigger] call_ensures(
                                    B::targets,
                                    (b,),
                                    targets,
                                ) && shares(handle, *final(b))
                            &&& #[trigger] old(policy)@.answered(
                                final(policy)@,
                                id@,
                                ready.label@,
                                handle,
                                capabilities,
                                targets,
                                texts(busy@),
                            )
                            &&& (final(self)@.banner, r) == allowance(
                                old(policy)@,
                                epoch,
                                handle,
                                targets,
                                old(self)@.banner,
                            )
                        }
                },
            },
            result is Err ==> old(policy)@.told(final(policy)@),
    {
        drop_member(&mut self.busy, id.as_str());
        self.drawn = None;
        match result {
            Err(e) => {
                let message = e.message.clone();
                policy.deny(id.as_str(), e.message);
                self.banner = message;
                None
            },
            Ok(ready) => {
                if !is_pending(policy, id.as_str()) {
                    let ghost name = ready.label@;
                    let handle = self.detach(ready.label, ready.backend);
                    assert(self@.detached == old(self)@.detached.push((name, handle)));
                    return None;
                }
                let mut backend = ready.backend;
                let (capabilities, targets) = ask(&mut backend);
                let handle = share(backend);
                let ghost (c, t) = (capabilities, targets);
                let ghost name = ready.label@;
                let r = self.allowed_prepared(
                    policy,
                    id.as_str(),
                    epoch,
                    ready.label,
                    handle.clone(),
                    capabilities,
                    targets,
                    busy,
                );
                proof {
                    assert(offers(ready.backend, c, t));
                    assert(old(policy)@.answered(policy@, id@, name, handle, c, t, texts(busy@)));
                }
                r
            },
        }
    }

    /// An application that the local user allowed runs, and its backend has answered what it
    /// offers.
    pub fn allowed_prepared(
        &mut self,
        policy: &mut Policy<B>,
        id: &str,
        epoch: u64,
        label: String,
        handle: BackendHandle<B>,
        capabilities: Vec<String>,
        targets: Result<Vec<Target>, Fault>,
        busy: &Vec<String>,
    ) -> (r: Option<Opened<B>>)
        requires
            old(policy).wf(),
        ensures
            final(policy).wf(),
            final(self).prepared == old(self).prepared,
            final(self)@ == (PanelView { banner: final(self)@.banner, ..old(self)@ }),
            if !old(policy)@.pending(id@) {
                &&& final(policy)@ == old(policy)@
                &&& final(self)@.banner == "申请已结束"@
                &&& r is None
            } else {
                &&& old(policy)@.answered(
                    final(policy)@,
                    id@,
                    label@,
                    handle,
                    capabilities,
                    targets,
                    texts(busy@),
                )
                &&& (final(self)@.banner, r) == allowance(
                    old(policy)@,
                    epoch,
                    handle,
                    targets,
                    old(self)@.banner,
                )
            },
    {
        let hide = policy.ui_epoch == epoch;
        match policy.grant_prepared(id, label, handle.clone(), capabilities, targets, busy) {
            Err(e) => {
                self.banner = e.message;
                None
            },
            Ok(()) => Some(Opened { backend: handle, hide }),
        }
    }

    /// Applications of an earlier run were found.
    pub fn recovered(&mut self, found: Vec<(String, BackendHandle<B>)>)
        ensures
            final(self).prepared == old(self).prepared,
            final(self)@ == (PanelView {
                detached: old(self)@.detached + named(found@).map_values(
                    |p: (Seq<char>, BackendHandle<B>)| ("恢复："@ + p.0, p.1),
                ),
                drawn: None,
                ..old(self)@
            }),
    {
        let ghost start = named(self.detached@);
        let ghost f = |p: (Seq<char>, BackendHandle<B>)| ("恢复："@ + p.0, p.1);
        let ghost all = named(found@);
        let mut i: usize = 0;
        assert(start + all.take(0).map_values(f) =~= start);
        while i < found.len()
            invariant
                i <= found@.len(),
                f == (|p: (Seq<char>, BackendHandle<B>)| ("恢复："@ + p.0, p.1)),
                all == named(found@),
                named(self.detached@) == start + all.take(i as int).map_values(f),
                self.prepared == old(self).prepared,
                self.busy == old(self).busy,
                self.banner == old(self).banner,
                self.drawn == old(self).drawn,
            decreases found@.len() - i,
        {
            let ghost was = named(self.detached@);
            let mut label = "恢复：".to_owned();
            label.append(found[i].0.as_str());
            let ghost name = label@;
            let handle = found[i].1.clone();
            self.detached.push((label, handle));
            proof {
                assert(named(self.detached@) =~= was.push((name, handle)));
                assert(all[i as int] == (found@[i as int].0@, found@[i as int].1));
                assert(all.take(i + 1) =~= all.take(i as int).push(all[i as int]));
                assert(start + all.take(i + 1).map_values(f) =~= was.push((name, handle)));
            }
            i = i + 1;
        }
        assert(all.take(i as int) =~= all);
        self.drawn = None;
    }

    /// Takes over applications that outlived their session.
    pub fn adopt(&mut self, policy: &mut Policy<B>)
        requires
            old(policy).wf(),
        ensures
            final(policy).wf(),
            final(policy)@ == after(old(policy)@, Step::TakeRetained),
            final(self).prepared == old(self).prepared,
            final(self)@ == (PanelView {
                detached: old(self)@.detached + old(policy)@.retained,
                drawn: if old(policy)@.retained.len() == 0 {
                    old(self)@.drawn
                } else {
                    None
                },
                ..old(self)@
            }),
    {
        let ghost start = named(self.detached@);
        let ghost before = policy@;
        let retained = policy.take_retained();
        let mut list = retained;
        let ghost more = named(list@);
        assert(more.len() == list@.len());
        if list.len() > 0 {
            self.drawn = None;
        }
        self.detached.append(&mut list);
        assert(named(self.detached@) =~= start + more);
        assert(policy.wf()) by {
            assert(policy@.sessions == before.sessions);
            assert forall|i: int, j: int|
                #![trigger policy@.sessions[i], policy@.sessions[j]]
                0 <= i < j < policy@.sessions.len() implies policy@.sessions[i].id()
                != policy@.sessions[j].id() by {
                assert(before.sessions[i].id() != before.sessions[j].id());
            }
        }
    }

    /// What is ready for a request.
    pub fn offer(&self, id: &str) -> (r: Option<&Prepared<B>>)
        requires
            self.wf(),
        ensures
            match r {
                Some(p) => self@.prepared.dom().contains(id@) && self@.prepared[id@] == *p,
                None => !self@.prepared.dom().contains(id@),
            },
    {
        self.prepared.get(id)
    }

    /// The local user confirms what is ready. The window of an isolated application is to be
    /// opened.
    pub fn confirm(&mut self, policy: &mut Policy<B>, id: &str, busy: &Vec<String>) -> (r: Option<
        BackendHandle<B>,
    >)
        requires
            old(self).wf(),
            old(policy).wf(),
        ensures
            final(self).wf(),
            final(policy).wf(),
            final(self)@.prepared == old(self)@.prepared.remove(id@),
            final(self)@.busy == old(self)@.busy,
            final(self)@.detached == old(self)@.detached,
            final(self)@.drawn is None,
            r == window_of(final(policy)@, id@),
            if !old(self)@.prepared.dom().contains(id@) {
                &&& final(policy)@ == old(policy)@
                &&& final(self)@.banner == old(self)@.banner
            } else if !old(policy)@.pending(id@) {
                &&& final(policy)@ == old(policy)@
                &&& final(self)@.banner == "申请已结束"@
            } else {
                exists|
                    handle: BackendHandle<B>,
                    capabilities: Vec<String>,
                    targets: Result<Vec<Target>, Fault>,
                |
                    {
                        &&& offers(old(self)@.prepared[id@].backend, capabilities, targets)
                        &&& exists|b: &mut B|
                            *b == old(self)@.prepared[id@].backend && #[trigger] call_ensures(
                                B::targets,
                                (b,),
                                targets,
                            ) && shares(handle, *final(b))
                        &&& #[trigger] old(policy)@.answered(
                            final(policy)@,
                            id@,
                            old(self)@.prepared[id@].label@,
                            handle,
                            capabilities,
                            targets,
                            texts(busy@),
                        )
                        &&& final(self)@.banner == confirmed_banner(targets, old(self)@.banner)
                    }
            },
    {
        match self.prepared.take(id) {
            Some(ready) => {
                if is_pending(policy, id) {
                    let mut backend = ready.backend;
                    let (capabilities, targets) = ask(&mut backend);
                    let handle = share(backend);
                    let ghost (c, t) = (capabilities, targets);
                    let ghost name = ready.label@;
                    let r = self.confirm_prepared(
                        policy,
                        id,
                        ready.label,
                        handle.clone(),
                        capabilities,
                        targets,
                        busy,
                    );
                    proof {
                        assert(offers(ready.backend, c, t));
                        assert(old(policy)@.answered(
                            policy@,
                            id@,
                            name,
                            handle,
                            c,
                            t,
                            texts(busy@),
                        ));
                    }
                    return r;
                }
                self.banner = "申请已结束".to_owned();
            },
            None => {},
        }
        self.drawn = None;
        window(policy, id)
    }

    /// The local user confirmed what was ready, and its backend has answered what it offers.
    pub fn confirm_prepared(
        &mut self,
        policy: &mut Policy<B>,
        id: &str,
        label: String,
        handle: BackendHandle<B>,
        capabilities: Vec<String>,
        targets: Result<Vec<Target>, Fault>,
        busy: &Vec<String>,
    ) -> (r: Option<BackendHandle<B>>)
        requires
            old(policy).wf(),
        ensures
            final(policy).wf(),
            final(self).prepared == old(self).prepared,
            final(self)@ == (PanelView { banner: final(self)@.banner, drawn: None, ..old(self)@ }),
            r == window_of(final(policy)@, id@),
            if !old(policy)@.pending(id@) {
                &&& final(policy)@ == old(policy)@
                &&& final(self)@.banner == "申请已结束"@
            } else {
                &&& old(policy)@.answered(
                    final(policy)@,
                    id@,
                    label@,
                    handle,
                    capabilities,
                    targets,
                    texts(busy@),
                )
                &&& final(self)@.banner == confirmed_banner(targets, old(self)@.banner)
            },
    {
        match policy.grant_prepared(id, label, handle, capabilities, targets, busy) {
            Ok(()) => {},
            Err(e) => {
                self.banner = e.message;
            },
        }
        self.drawn = None;
        window(policy, id)
    }

    /// The local user denies a request. What was ready for it stays for the user where it can.
    pub fn deny(&mut self, policy: &mut Policy<B>, id: &str)
        requires
            old(self).wf(),
            old(policy).wf(),
        ensures
            final(self).wf(),
            final(policy).wf(),
            final(policy)@ == after(
                old(policy)@,
                Step::Deny { id: id@, message: "用户拒绝授权"@ },
            ),
            old(policy)@.told(final(policy)@),
            final(self)@.prepared == old(self)@.prepared.remove(id@),
            final(self)@.busy == old(self)@.busy,
            final(self)@.banner == old(self)@.banner,
            final(self)@.drawn is None,
            if old(self)@.prepared.dom().contains(id@) && old(self)@.prepared[id@].survives {
                exists|handle: BackendHandle<B>|
                    shares(handle, old(self)@.prepared[id@].backend) && final(self)@.detached
                        == #[trigger] old(self)@.detached.push(
                        (old(self)@.prepared[id@].label@, handle),
                    )
            } else {
                final(self)@.detached == old(self)@.detached
            },
    {
        policy.deny(id, "用户拒绝授权".to_owned());
        match self.prepared.take(id) {
            Some(ready) => {
                if ready.survives {
                    let ghost name = ready.label@;
                    let handle = self.detach(ready.label, ready.backend);
                    assert(self@.detached == old(self)@.detached.push((name, handle)));
                }
            },
            None => {},
        }
        self.drawn = None;
    }

    /// The local user revokes a session. Its backend is to be detached.
    pub fn revoke(&mut self, policy: &mut Policy<B>, id: &str) -> (r: Option<BackendHandle<B>>)
        requires
            old(policy).wf(),
        ensures
            final(policy).wf(),
            final(policy)@ == after(old(policy)@, Step::Close { id: id@ }),
            old(policy)@.told(final(policy)@),
            final(self).prepared == old(self).prepared,
            final(self)@ == (PanelView { drawn: None, ..old(self)@ }),
            r == (if old(policy)@.has(id@) {
                old(policy)@.get(id@).backend
            } else {
                None
            }),
    {
        self.drawn = None;
        policy.close_local(id)
    }
}

fn is_pending<B: Backend>(policy: &Policy<B>, id: &str) -> (r: bool)
    requires
        policy.wf(),
    ensures
        r == policy@.pending(id@),
{
    match policy.session(id) {
        Some(s) => match s.status.state {
            State::Pending => true,
            _ => false,
        },
        None => false,
    }
}

fn window<B: Backend>(policy: &Policy<B>, id: &str) -> (r: Option<BackendHandle<B>>)
    requires
        policy.wf(),
    ensures
        r == window_of(policy@, id@),
{
    match policy.session(id) {
        Some(s) => {
            let isolated = match s.status.mode {
                Mode::Isolated => true,
                _ => false,
            };
            match &s.backend {
                Some(handle) => {
                    if isolated {
                        Some(handle.clone())
                    } else {
                        None
                    }
                },
                None => None,
            }
        },
        None => None,
    }
}

/// Whether the panel may be shown once no input is under way: it is still wanted, and for the
/// same reason.
pub fn may_present<B: Backend>(policy: &Policy<B>, epoch: u64) -> (r: bool)
    ensures
        r == (policy@.ui_visible && policy@.ui_epoch == epoch),
{
    policy.ui_visible && policy.ui_epoch == epoch
}

/// Resumes a session some time after the panel was hidden for it, unless the panel was asked
/// for again meanwhile or can be seen.
pub fn resume_hidden<B: Backend>(
    policy: &mut Policy<B>,
    id: &str,
    epoch: u64,
    visible: bool,
) -> (r: Option<Result<(), Fault>>)
    requires
        old(policy).wf(),
    ensures
        final(policy).wf(),
        if old(policy)@.ui_epoch != epoch || visible {
            &&& r is None
            &&& final(policy)@ == old(policy)@
        } else {
            let hidden = after(old(policy)@, Step::HideUi);
            &&& final(policy)@ == after(hidden, Step::Resume { id: id@ })
            &&& old(policy)@.told(final(policy)@)
            &&& match hidden.resume_obstacle(id@) {
                Some(f) => r matches Some(Err(e)) && e@ == f,
                None => if hidden.resumable(id@) {
                    r matches Some(Ok(_))
                } else {
                    r matches Some(Err(e)) && e.says(
                        ErrorCode::PermissionDenied,
                        "当前会话不能恢复"@,
                    )
                },
            }
        },
{
    if policy.ui_epoch != epoch || visible {
        return None;
    }
    let ghost before = policy@;
    policy.hide_ui();
    assert(policy.wf()) by {
        assert forall|i: int, j: int|
            #![trigger policy@.sessions[i], policy@.sessions[j]]
            0 <= i < j < policy@.sessions.len() implies policy@.sessions[i].id()
            != policy@.sessions[j].id() by {
            assert(before.sessions[i].id() != before.sessions[j].id());
        }
    }
    Some(policy.resume(id))
}

/// A request that came after the panel was hidden keeps a session from being resumed: it
/// moves the epoch on.
pub proof fn newer_requests_prevent_resuming<B: Backend>(p: PolicyView<B>)
    ensures
        p.opened().ui_epoch != p.ui_epoch,
        p.opened().ui_visible,
{
}

} // verus!
