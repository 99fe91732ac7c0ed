//! The sequence in which an action is sent: what must hold is checked before and while it is
//! sent, and whatever happens, nothing stays held down.
use vstd::prelude::*;

use crate::backend::input::{
    held_after, held_along, interrupted_actions_let_go, letting_go, nothing_held, plan, planned,
    steps_view, Held, InputGuard, InputStep, StepView,
};
use crate::backend::wayland::{displaced, same_revision, InputPhase};
use crate::model::{fault, Action, ErrorCode, Fault, FaultView};

verus! {

/// What has been done last.
#[derive(Debug, Clone, Copy, PartialEq, Eq, Structural)]
pub enum Phase {
    Starting,
    /// The cancellation is looked at.
    Checking,
    /// The target is looked at.
    Validating,
    /// The devices are made ready.
    SettingUp,
    /// The target is looked at once more.
    Revalidating,
    /// A step of the plan is performed.
    Sending,
    /// The compositor catches up, within the plan.
    Syncing,
    /// The target is looked at within the plan.
    Confirming,
    /// The last steps of the plan are on their way.
    Flushing,
    /// What is held down is let go of.
    Releasing,
    /// The last of that is on its way.
    Released,
    /// The compositor catches up with that, cancelled or not.
    Settling,
    Done,
}

/// What is to be done next.
#[derive(Debug)]
pub enum SendingStep {
    /// Fail if the action was cancelled.
    Check,
    /// Fail if the target is not what it should be.
    Validate,
    /// Make the devices ready.
    SetUp,
    /// Perform a step of the plan. The one that synchronizes fails if the action was cancelled.
    Send(InputStep),
    /// Pass on what was sent.
    Flush,
    /// Perform a step that lets go of something. It does not matter whether it fails.
    LetGo(InputStep),
    /// Wait until the compositor has seen everything, cancelled or not.
    Settle,
    /// Nothing; this is what came of it.
    Finished(Result<(), Fault>),
}

/// What is to be done next, by its values.
pub enum NextView {
    Check,
    Validate,
    SetUp,
    Send(StepView),
    Flush,
    LetGo(StepView),
    Settle,
    Finished(Option<FaultView>),
}

/// The fault of a result, if it is one.
pub open spec fn fault_of(r: Result<(), Fault>) -> Option<FaultView> {
    match r {
        Ok(_) => None,
        Err(e) => Some(e@),
    }
}

impl View for SendingStep {
    type V = NextView;

    open spec fn view(&self) -> NextView {
        match *self {
            SendingStep::Check => NextView::Check,
            SendingStep::Validate => NextView::Validate,
            SendingStep::SetUp => NextView::SetUp,
            SendingStep::Send(s) => NextView::Send(s@),
            SendingStep::Flush => NextView::Flush,
            SendingStep::LetGo(s) => NextView::LetGo(s@),
            SendingStep::Settle => NextView::Settle,
            SendingStep::Finished(r) => NextView::Finished(fault_of(r)),
        }
    }
}

/// An action that is being sent.
pub struct Sending {
    pub phase: Phase,
    /// Whether the compositor takes input at all.
    pub supported: bool,
    /// Revision of the displays before the devices were made ready.
    pub revision: u64,
    /// Why there is no plan, if there is none.
    pub objection: Option<Fault>,
    /// What is left of the plan, or of letting go.
    pub todo: Vec<InputStep>,
    pub guard: InputGuard,
    /// What failed first.
    pub failure: Option<Fault>,
}

/// An action that is being sent, by its values.
#[verifier::ext_equal]
pub struct SendingView {
    pub phase: Phase,
    pub supported: bool,
    pub revision: u64,
    pub objection: Option<FaultView>,
    pub todo: Seq<StepView>,
    pub held: Held,
    pub failure: Option<FaultView>,
}

/// An optional fault by its value.
pub open spec fn optional_fault(f: Option<Fault>) -> Option<FaultView> {
    match f {
        Some(e) => Some(e@),
        None => None,
    }
}

impl View for Sending {
    type V = SendingView;

    open spec fn view(&self) -> SendingView {
        SendingView {
            phase: self.phase,
            supported: self.supported,
            revision: self.revision,
            objection: optional_fault(self.objection),
            todo: steps_view(self.todo@),
            held: self.guard@,
            failure: optional_fault(self.failure),
        }
    }
}

/// The fault of a compositor that takes no input.
pub open spec fn no_input() -> FaultView {
    fault(ErrorCode::Unsupported, "合成器缺少虚拟输入协议"@)
}

impl SendingView {
    /// Nothing more is done.
    pub open spec fn ended(self, outcome: Option<FaultView>) -> (Self, NextView) {
        (
            SendingView { phase: Phase::Done, failure: outcome, ..self },
            NextView::Finished(outcome),
        )
    }

    /// Something is looked at.
    pub open spec fn at(self, phase: Phase, next: NextView) -> (Self, NextView) {
        (SendingView { phase, ..self }, next)
    }

    /// The next step of the plan, which counts as performed from now on, or its end.
    pub open spec fn issued(self) -> (Self, NextView) {
        if self.todo.len() == 0 {
            self.at(Phase::Flushing, NextView::Flush)
        } else {
            let step = self.todo[0];
            (
                SendingView {
                    phase: if step == StepView::Sync {
                        Phase::Syncing
                    } else {
                        Phase::Sending
                    },
                    todo: self.todo.drop_first(),
                    held: held_after(self.held, step),
                    ..self
                },
                NextView::Send(step),
            )
        }
    }

    /// The next step of letting go, or its end.
    pub open spec fn released(self) -> (Self, NextView) {
        if self.todo.len() == 0 {
            self.at(Phase::Released, NextView::Flush)
        } else {
            (
                SendingView {
                    phase: Phase::Releasing,
                    todo: self.todo.drop_first(),
                    ..self
                },
                NextView::LetGo(self.todo[0]),
            )
        }
    }

    /// The plan is over, done or not: what is held is let go of.
    pub open spec fn stopped(self, failure: Option<FaultView>) -> (Self, NextView) {
        SendingView { failure, todo: letting_go(self.held), ..self }.released()
    }

    /// What follows what was done last, by what came of it and the displays' revision now.
    pub open spec fn stepped(self, event: Option<FaultView>, revision: u64) -> (Self, NextView) {
        match self.phase {
            Phase::Starting => self.at(Phase::Checking, NextView::Check),
            Phase::Checking => if event is Some {
                self.ended(event)
            } else {
                self.at(Phase::Validating, NextView::Validate)
            },
            Phase::Validating => if event is Some {
                self.ended(event)
            } else if !self.supported {
                self.ended(Some(no_input()))
            } else {
                SendingView { revision, ..self }.at(Phase::SettingUp, NextView::SetUp)
            },
            Phase::SettingUp => if event is Some {
                self.ended(event)
            } else if revision != self.revision {
                self.ended(Some(displaced(InputPhase::Setup)))
            } else {
                self.at(Phase::Revalidating, NextView::Validate)
            },
            Phase::Revalidating => if event is Some {
                self.ended(event)
            } else if self.objection is Some {
                self.stopped(self.objection)
            } else {
                self.issued()
            },
            Phase::Sending => if event is Some {
                self.stopped(event)
            } else {
                self.issued()
            },
            Phase::Syncing => if event is Some {
                self.stopped(event)
            } else if revision != self.revision {
                self.stopped(Some(displaced(InputPhase::Sending)))
            } else {
                self.at(Phase::Confirming, NextView::Validate)
            },
            Phase::Confirming => if event is Some {
                self.stopped(event)
            } else {
                self.issued()
            },
            Phase::Flushing => self.stopped(event),
            Phase::Releasing => self.released(),
            Phase::Released => self.at(Phase::Settling, NextView::Settle),
            Phase::Settling => if self.failure is Some {
                self.ended(self.failure)
            } else {
                self.ended(event)
            },
            Phase::Done => self.ended(self.failure),
        }
    }
}

fn copy_fault(f: &Option<Fault>) -> (r: Option<Fault>)
    ensures
        optional_fault(r) == optional_fault(*f),
{
    match f {
        Some(e) => Some(e.clone()),
        None => None,
    }
}

impl Sending {
    /// Begins to send an action.
    pub fn new(action: &Action, supported: bool) -> (r: Self)
        ensures
            r@ == (SendingView {
                phase: Phase::Starting,
                supported,
                revision: 0,
                objection: match planned(*action) {
                    Ok(_) => None,
                    Err(f) => Some(f),
                },
                todo: match planned(*action) {
                    Ok(steps) => steps,
                    Err(_) => Seq::empty(),
                },
                held: nothing_held(),
                failure: None,
            }),
    {
        let (objection, todo) = match plan(action) {
            Ok(steps) => (None, steps),
            Err(e) => (Some(e), Vec::new()),
        };
        assert(planned(*action) is Err ==> steps_view(todo@) =~= Seq::empty());
        Sending {
            phase: Phase::Starting,
            supported,
            revision: 0,
            objection,
            todo,
            guard: InputGuard::new(),
            failure: None,
        }
    }

    fn end(&mut self, outcome: Option<Fault>) -> (r: SendingStep)
        ensures
            (final(self)@, r@) == old(self)@.ended(optional_fault(outcome)),
    {
        self.phase = Phase::Done;
        let copy = copy_fault(&outcome);
        self.failure = outcome;
        SendingStep::Finished(
            match copy {
                Some(e) => Err(e),
                None => Ok(()),
            },
        )
    }

    fn issue(&mut self) -> (r: SendingStep)
        ensures
            (final(self)@, r@) == old(self)@.issued(),
    {
        assert(self@.todo.len() == self.todo@.len());
        if self.todo.len() == 0 {
            self.phase = Phase::Flushing;
            return SendingStep::Flush;
        }
        let ghost before = self.todo@;
        let step = self.todo.remove(0);
        proof {
            assert(steps_view(before)[0] == step@);
            assert(steps_view(self.todo@) =~= steps_view(before).drop_first());
        }
        self.guard.note(&step);
        self.phase = match step {
            InputStep::Sync => Phase::Syncing,
            _ => Phase::Sending,
        };
        SendingStep::Send(step)
    }

    fn release(&mut self) -> (r: SendingStep)
        ensures
            (final(self)@, r@) == old(self)@.released(),
    {
        assert(self@.todo.len() == self.todo@.len());
        if self.todo.len() == 0 {
            self.phase = Phase::Released;
            return SendingStep::Flush;
        }
        let ghost before = self.todo@;
        let step = self.todo.remove(0);
        proof {
            assert(steps_view(before)[0] == step@);
            assert(steps_view(self.todo@) =~= steps_view(before).drop_first());
        }
        self.phase = Phase::Releasing;
        SendingStep::LetGo(step)
    }

    fn stop(&mut self, failure: Option<Fault>) -> (r: SendingStep)
        ensures
            (final(self)@, r@) == old(self)@.stopped(optional_fault(failure)),
    {
        self.failure = failure;
        self.todo = self.guard.release_all();
        self.release()
    }

    /// What is to be done, by what came of what was done last and the displays' revision now.
    pub fn next(&mut self, event: Result<(), Fault>, revision: u64) -> (r: SendingStep)
        ensures
            (final(self)@, r@) == old(self)@.stepped(fault_of(event), revision),
    {
        let error = match event {
            Ok(()) => None,
            Err(e) => Some(e),
        };
        match self.phase {
            Phase::Starting => {
                self.phase = Phase::Checking;
                SendingStep::Check
            },
            Phase::Checking => {
                if error.is_some() {
                    return self.end(error);
                }
                self.phase = Phase::Validating;
                SendingStep::Validate
            },
            Phase::Validating => {
                if error.is_some() {
                    return self.end(error);
                }
                if !self.supported {
                    return self.end(Some(Fault::unsupported("合成器缺少虚拟输入协议")));
                }
                self.revision = revision;
                self.phase = Phase::SettingUp;
                SendingStep::SetUp
            },
            Phase::SettingUp => {
                if error.is_some() {
                    return self.end(error);
                }
                match same_revision(self.revision, revision, InputPhase::Setup) {
                    Err(e) => self.end(Some(e)),
                    Ok(()) => {
                        self.phase = Phase::Revalidating;
                        SendingStep::Validate
                    },
                }
            },
            Phase::Revalidating => {
                if error.is_some() {
                    return self.end(error);
                }
                let objection = copy_fault(&self.objection);
                if objection.is_some() {
                    return self.stop(objection);
                }
                self.issue()
            },
            Phase::Sending => {
                if error.is_some() {
                    return self.stop(error);
                }
                self.issue()
            },
            Phase::Syncing => {
                if error.is_some() {
                    return self.stop(error);
                }
                match same_revision(self.revision, revision, InputPhase::Sending) {
                    Err(e) => self.stop(Some(e)),
                    Ok(()) => {
                        self.phase = Phase::Confirming;
                        SendingStep::Validate
                    },
                }
            },
            Phase::Confirming => {
                if error.is_some() {
                    return self.stop(error);
                }
                self.issue()
            },
            Phase::Flushing => self.stop(error),
            Phase::Releasing => self.release(),
            Phase::Released => {
                self.phase = Phase::Settling;
                SendingStep::Settle
            },
            Phase::Settling => {
                let failure = copy_fault(&self.failure);
                if failure.is_some() {
                    return self.end(failure);
                }
                self.end(error)
            },
            Phase::Done => {
                let failure = copy_fault(&self.failure);
                self.end(failure)
            },
        }
    }
}

/// Whether the first steps of a plan were performed, as many as given, and nothing failed.
pub open spec fn performed(v: SendingView, steps: Seq<StepView>, n: int) -> bool {
    &&& 0 <= n <= steps.len()
    &&& v.todo == steps.skip(n)
    &&& v.held == held_along(nothing_held(), steps.take(n))
    &&& v.failure is None
}

/// Whether the first steps of a plan were performed, and then some of letting go.
pub open spec fn letting(v: SendingView, steps: Seq<StepView>, n: int, m: int) -> bool {
    &&& 0 <= n <= steps.len()
    &&& v.held == held_along(nothing_held(), steps.take(n))
    &&& 0 <= m <= letting_go(v.held).len()
    &&& v.todo == letting_go(v.held).skip(m)
}

/// What holds of an action while it is sent: before the target was looked at twice nothing was
/// performed; then steps of the plan are, in order; and then what they hold is let go of.
pub open spec fn follows(v: SendingView, steps: Seq<StepView>) -> bool {
    match v.phase {
        Phase::Starting | Phase::Checking | Phase::Validating | Phase::SettingUp
        | Phase::Revalidating => performed(v, steps, 0),
        Phase::Sending | Phase::Syncing | Phase::Confirming => exists|n: int|
            performed(v, steps, n),
        Phase::Flushing => performed(v, steps, steps.len() as int),
        Phase::Releasing => exists|n: int, m: int| letting(v, steps, n, m),
        Phase::Released | Phase::Settling => exists|n: int|
            #[trigger] letting(v, steps, n, letting_go(v.held).len() as int),
        Phase::Done => true,
    }
}

proof fn held_by_one_more(steps: Seq<StepView>, n: int)
    requires
        0 <= n < steps.len(),
    ensures
        held_along(nothing_held(), steps.take(n + 1)) == held_after(
            held_along(nothing_held(), steps.take(n)),
            steps[n],
        ),
{
    assert(steps.take(n + 1).drop_last() =~= steps.take(n));
    assert(steps.take(n + 1).last() == steps[n]);
}

/// Sending keeps to its plan: each event leaves it so, and a step is only ever performed as the
/// plan's next one.
pub proof fn sending_follows_its_plan(
    v: SendingView,
    steps: Seq<StepView>,
    event: Option<FaultView>,
    revision: u64,
)
    requires
        follows(v, steps),
    ensures
        follows(v.stepped(event, revision).0, steps),
        v.stepped(event, revision).1 matches NextView::Send(s) ==> exists|n: int|
            performed(v, steps, n) && n < steps.len() && s == steps[n],
{
    let (w, next) = v.stepped(event, revision);
    match v.phase {
        Phase::Revalidating | Phase::Sending | Phase::Syncing | Phase::Confirming
        | Phase::Flushing => {
            let n = if v.phase == Phase::Revalidating {
                0
            } else if v.phase == Phase::Flushing {
                steps.len() as int
            } else {
                choose|n: int| performed(v, steps, n)
            };
            assert(performed(v, steps, n));
            if w.phase == Phase::Releasing {
                let t = letting_go(v.held);
                assert(t.len() > 0);
                assert(t.skip(1) =~= t.drop_first());
                assert(letting(w, steps, n, 1));
            } else if next is Send {
                held_by_one_more(steps, n);
                assert(steps.skip(n)[0] == steps[n]);
                assert(steps.skip(n).drop_first() =~= steps.skip(n + 1));
                assert(performed(w, steps, n + 1));
            } else if w.phase == Phase::Flushing {
                assert(n == steps.len());
            } else {
                assert(w.phase == Phase::Done || performed(w, steps, n));
            }
        },
        Phase::Releasing => {
            let (n, m) = choose|n: int, m: int| letting(v, steps, n, m);
            let t = letting_go(v.held);
            if v.todo.len() == 0 {
                assert(m == t.len());
                assert(letting(w, steps, n, t.len() as int));
            } else {
                assert(t.skip(m).drop_first() =~= t.skip(m + 1));
                assert(letting(w, steps, n, m + 1));
            }
        },
        Phase::Released => {
            let n = choose|n: int| letting(v, steps, n, letting_go(v.held).len() as int);
            assert(letting(w, steps, n, letting_go(v.held).len() as int));
        },
        _ => {},
    }
}

/// Whatever was performed when the plan ended, done, failed or cancelled: once the compositor is
/// awaited for the last time, everything was let go of.
pub proof fn everything_is_let_go(v: SendingView, steps: Seq<StepView>)
    requires
        follows(v, steps),
        v.phase == Phase::Settling,
    ensures
        exists|n: int|
            0 <= n <= steps.len() && #[trigger] held_along(
                nothing_held(),
                steps.take(n) + letting_go(v.held),
            ) == nothing_held(),
{
    let n = choose|n: int| letting(v, steps, n, letting_go(v.held).len() as int);
    interrupted_actions_let_go(steps.take(n));
    assert(held_along(nothing_held(), steps.take(n) + letting_go(v.held)) == nothing_held());
}

/// Once something failed or the plan is done, no step of it is performed any more: what is left
/// of letting go follows, whatever comes of it, then the last wait, and what failed first is the
/// outcome.
pub proof fn stopping_is_final(v: SendingView, event: Option<FaultView>, revision: u64)
    requires
        v.phase == Phase::Releasing || v.phase == Phase::Released || v.phase == Phase::Settling
            || v.phase == Phase::Done,
    ensures
        ({
            let (w, next) = v.stepped(event, revision);
            &&& !(next is Send)
            &&& w.phase == Phase::Releasing || w.phase == Phase::Released || w.phase
                == Phase::Settling || w.phase == Phase::Done
            &&& v.failure is Some ==> w.failure == v.failure
            &&& next matches NextView::Finished(outcome) ==> outcome == (if v.failure is Some
                || v.phase == Phase::Done {
                v.failure
            } else {
                event
            })
        }),
{
}

/// A failure or a cancellation while an action is sent stops it at once.
pub proof fn failures_stop_the_plan(v: SendingView, event: Option<FaultView>, revision: u64)
    requires
        event is Some,
        v.phase != Phase::Starting,
    ensures
        !(v.stepped(event, revision).1 is Send),
        v.phase == Phase::Sending || v.phase == Phase::Syncing || v.phase == Phase::Confirming
            || v.phase == Phase::Flushing ==> {
            &&& v.stepped(event, revision).0.failure == event
            &&& v.stepped(event, revision).1 == NextView::LetGo(letting_go(v.held)[0])
        },
{
    assert(letting_go(v.held).len() > 0);
}

/// An action that has yet to be sent follows its plan: nothing was performed.
pub proof fn sending_begins_with_nothing(action: Action, v: SendingView)
    requires
        planned(action) is Ok,
        v.phase == Phase::Starting,
        v.todo == planned(action)->Ok_0,
        v.held == nothing_held(),
        v.failure is None,
    ensures
        follows(v, planned(action)->Ok_0),
{
    let steps = planned(action)->Ok_0;
    assert(steps.skip(0) =~= steps);
    assert(steps.take(0) =~= Seq::empty());
}

} // verus!
