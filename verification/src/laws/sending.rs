//! In which order an action is checked, sent and let go of.
use vstd::prelude::*;

use crate::backend::input::{steps_view, InputGuard, InputStep};
use crate::backend::sending::{Phase, Sending, SendingStep};
use crate::model::{ErrorCode, Fault};

verus! {

/// Before anything is sent, the cancellation is looked at, then the target, then the devices are
/// made ready, and then the target is looked at once more; what fails ends the action with its
/// own fault, and so does a compositor that takes no input or a display that changed meanwhile.
pub proof fn actions_are_checked_before_they_are_sent(
    before: Sending,
    after: Sending,
    event: Result<(), Fault>,
    revision: u64,
    r: SendingStep,
)
    requires
        exists|s: &mut Sending|
            *s == before && *final(s) == after && #[trigger] call_ensures(
                Sending::next,
                (s, event, revision),
                r,
            ),
    ensures
        before.phase == Phase::Starting ==> r is Check && after.phase == Phase::Checking,
        before.phase == Phase::Checking && event is Ok ==> r is Validate && after.phase
            == Phase::Validating,
        before.phase == Phase::Validating && event is Ok && before.supported ==> r is SetUp
            && after.phase == Phase::SettingUp && after.revision == revision,
        before.phase == Phase::Validating && event is Ok && !before.supported ==> (
        r matches SendingStep::Finished(Err(e)) && e.code == ErrorCode::Unsupported),
        before.phase == Phase::SettingUp && event is Ok && before.revision == revision
            ==> r is Validate && after.phase == Phase::Revalidating,
        before.phase == Phase::SettingUp && event is Ok && before.revision != revision ==> (
        r matches SendingStep::Finished(Err(e)) && e.code == ErrorCode::StaleTarget),
        event is Err && (before.phase == Phase::Checking || before.phase == Phase::Validating
            || before.phase == Phase::SettingUp || before.phase == Phase::Revalidating) ==> (
        r matches SendingStep::Finished(Err(e)) && e@ == event->Err_0@),
        r is Send ==> event is Ok && (before.phase == Phase::Revalidating || before.phase
            == Phase::Sending || before.phase == Phase::Confirming),
        before.phase == Phase::Syncing && event is Ok && before.revision == revision
            ==> r is Validate && after.phase == Phase::Confirming,
{
    match r {
        SendingStep::Finished(o) => {},
        _ => {},
    }
}

/// The steps of the plan are sent one after the other, none of them twice, and what is held down
/// is remembered; after each wait for the compositor the target is looked at again.
pub proof fn plans_are_sent_in_order(
    before: Sending,
    after: Sending,
    event: Result<(), Fault>,
    revision: u64,
    r: SendingStep,
)
    requires
        exists|s: &mut Sending|
            *s == before && *final(s) == after && #[trigger] call_ensures(
                Sending::next,
                (s, event, revision),
                r,
            ),
        event is Ok,
        before.phase == Phase::Sending || before.phase == Phase::Confirming || (before.phase
            == Phase::Revalidating && before.objection is None),
    ensures
        before.todo@.len() == 0 ==> r is Flush && after.phase == Phase::Flushing,
        before.todo@.len() > 0 ==> {
            &&& r matches SendingStep::Send(step)
            &&& step@ == before.todo@[0]@
            &&& after.todo@.len() == before.todo@.len() - 1
            &&& forall|i: int|
                0 <= i < after.todo@.len() ==> (#[trigger] after.todo@[i])@ == before.todo@[i + 1]@
            &&& after.phase == (if step is Sync {
                Phase::Syncing
            } else {
                Phase::Sending
            })
            &&& step matches InputStep::Press(b) ==> after.guard.buttons@
                == before.guard.buttons@.push(b)
            &&& step matches InputStep::KeyDown(k) ==> after.guard.keys@
                == before.guard.keys@.push(k)
            &&& step matches InputStep::Modifiers(m) ==> after.guard.modifiers == m
        },
{
    assert(steps_view(before.todo@).len() == before.todo@.len());
    assert(steps_view(after.todo@).len() == after.todo@.len());
    if before.todo@.len() > 0 {
        assert(steps_view(before.todo@)[0] == before.todo@[0]@);
        assert forall|i: int| 0 <= i < after.todo@.len() implies (#[trigger] after.todo@[i])@
            == before.todo@[i + 1]@ by {
            assert(steps_view(after.todo@)[i] == after.todo@[i]@);
            assert(steps_view(before.todo@)[i + 1] == before.todo@[i + 1]@);
        }
    }
}

/// Whatever ends the plan, what is held down is let go of: first the keys, then the modifiers,
/// then the buttons. What failed first is what the action comes to.
pub proof fn what_is_held_is_let_go_of(
    before: Sending,
    after: Sending,
    event: Result<(), Fault>,
    revision: u64,
    r: SendingStep,
)
    requires
        exists|s: &mut Sending|
            *s == before && *final(s) == after && #[trigger] call_ensures(
                Sending::next,
                (s, event, revision),
                r,
            ),
    ensures
        event is Err && (before.phase == Phase::Sending || before.phase == Phase::Syncing
            || before.phase == Phase::Confirming || before.phase == Phase::Flushing) ==> {
            &&& r matches SendingStep::LetGo(step)
            &&& before.guard.keys@.len() > 0 ==> step == InputStep::KeyUp(before.guard.keys@[0])
            &&& before.guard.keys@.len() == 0 ==> step == InputStep::Modifiers(0)
            &&& after.todo@.len() == before.guard.keys@.len() + before.guard.buttons@.len() + 1
            &&& after.failure matches Some(f)
            &&& f@ == event->Err_0@
        },
        before.phase == Phase::Syncing && event is Ok && before.revision != revision ==> {
            &&& r is LetGo
            &&& after.failure matches Some(f)
            &&& f.code == ErrorCode::StaleTarget
        },
        before.phase == Phase::Flushing && event is Ok ==> r is LetGo && after.failure is None,
        before.phase == Phase::Releasing ==> (r is LetGo <==> before.todo@.len() > 0)
            && after.failure is Some == before.failure is Some,
        before.phase == Phase::Releasing && before.todo@.len() == 0 ==> r is Flush,
        before.phase == Phase::Released ==> r is Settle,
        before.phase == Phase::Settling ==> {
            &&& r matches SendingStep::Finished(outcome)
            &&& before.failure matches Some(f) ==> (outcome matches Err(e) && e@ == f@)
            &&& before.failure is None && event is Ok ==> outcome is Ok
            &&& before.failure is None && event is Err ==> (outcome matches Err(e) && e@
                == event->Err_0@)
        },
{
    assert(steps_view(before.todo@).len() == before.todo@.len());
    assert(steps_view(after.todo@).len() == after.todo@.len());
    match r {
        SendingStep::Finished(o) => {},
        SendingStep::LetGo(s) => {},
        _ => {},
    }
}

/// The steps that let go name every key and every button that is held, and no other.
pub proof fn everything_held_is_named(g: InputGuard, r: Vec<InputStep>)
    requires
        call_ensures(InputGuard::release_all, (&g,), r),
    ensures
        r@.len() == g.keys@.len() + g.buttons@.len() + 2,
        forall|i: int|
            0 <= i < g.keys@.len() ==> r@[i] == InputStep::KeyUp(#[trigger] g.keys@[i]),
        r@[g.keys@.len() as int] == InputStep::Modifiers(0),
        forall|i: int|
            0 <= i < g.buttons@.len() ==> r@[g.keys@.len() + 1 + i] == InputStep::Release(
                #[trigger] g.buttons@[i],
            ),
        r@.last() is Frame,
{
    let s = steps_view(r@);
    assert(s.len() == r@.len());
    assert(forall|i: int| 0 <= i < r@.len() ==> s[i] == (#[trigger] r@[i])@);
    assert forall|i: int| 0 <= i < g.keys@.len() implies r@[i] == InputStep::KeyUp(
        #[trigger] g.keys@[i],
    ) by {
        assert(s[i] == r@[i]@);
    }
    assert forall|i: int| 0 <= i < g.buttons@.len() implies r@[g.keys@.len() + 1 + i]
        == InputStep::Release(#[trigger] g.buttons@[i]) by {
        assert(s[g.keys@.len() + 1 + i] == r@[g.keys@.len() + 1 + i]@);
    }
    assert(s[g.keys@.len() as int] == r@[g.keys@.len() as int]@);
    assert(s[r@.len() - 1] == r@[r@.len() - 1]@);
}

/// What is pressed is held until it is let go of, and letting go of one thing keeps the others.
pub proof fn what_is_pressed_is_held(before: InputGuard, after: InputGuard, step: &InputStep)
    requires
        exists|g: &mut InputGuard|
            *g == before && *final(g) == after && #[trigger] call_ensures(
                InputGuard::note,
                (g, step),
                (),
            ),
    ensures
        *step matches InputStep::Press(b) ==> after.buttons@.contains(b),
        *step matches InputStep::Release(b) ==> !after.buttons@.contains(b),
        *step matches InputStep::KeyDown(k) ==> after.keys@.contains(k),
        *step matches InputStep::KeyUp(k) ==> !after.keys@.contains(k),
        *step matches InputStep::Modifiers(m) ==> after.modifiers == m,
        !(*step is Press || *step is Release) ==> after.buttons@ == before.buttons@,
        !(*step is KeyDown || *step is KeyUp) ==> after.keys@ == before.keys@,
        !(*step is Modifiers) ==> after.modifiers == before.modifiers,
        forall|x: u32|
            before.buttons@.contains(x) && !(*step == InputStep::Release(x))
                ==> #[trigger] after.buttons@.contains(x),
        forall|x: u32|
            before.keys@.contains(x) && !(*step == InputStep::KeyUp(x))
                ==> #[trigger] after.keys@.contains(x),
{
    match *step {
        InputStep::Press(b) => {
            assert(after.buttons@[before.buttons@.len() as int] == b);
            assert forall|x: u32| before.buttons@.contains(x) implies #[trigger] after.buttons@.contains(x) by {
                let i = choose|i: int| 0 <= i < before.buttons@.len() && before.buttons@[i] == x;
                assert(after.buttons@[i] == x);
            }
        },
        InputStep::KeyDown(k) => {
            assert(after.keys@[before.keys@.len() as int] == k);
            assert forall|x: u32| before.keys@.contains(x) implies #[trigger] after.keys@.contains(x) by {
                let i = choose|i: int| 0 <= i < before.keys@.len() && before.keys@[i] == x;
                assert(after.keys@[i] == x);
            }
        },
        InputStep::Release(b) => {
            lemma_without(before.buttons@, after.buttons@, b);
        },
        InputStep::KeyUp(k) => {
            lemma_without(before.keys@, after.keys@, k);
        },
        _ => {},
    }
}

proof fn lemma_without(v: Seq<u32>, left: Seq<u32>, b: u32)
    requires
        left == v.filter(|y: u32| y != b),
    ensures
        !left.contains(b),
        forall|x: u32| v.contains(x) && x != b ==> #[trigger] left.contains(x),
{
    let f = |y: u32| y != b;
    if left.contains(b) {
        let i = choose|i: int| 0 <= i < left.len() && left[i] == b;
        v.lemma_filter_pred(f, i);
    }
    assert forall|x: u32| v.contains(x) && x != b implies #[trigger] left.contains(x) by {
        let i = choose|i: int| 0 <= i < v.len() && v[i] == x;
        v.lemma_filter_contains(f, i);
    }
}

} // verus!
