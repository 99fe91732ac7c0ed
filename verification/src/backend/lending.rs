//! What holds of the pixels that a view was lent, over any run of captures.
use vstd::prelude::*;

use crate::backend::wayland::{chosen, first_free, unused, Slot, MAX_BUFFERS};

verus! {

/// A buffer of the pool: which capture wrote it last, whether the compositor has released it,
/// and how many hold its pixels beside the pool.
pub struct LentBuffer {
    pub written: nat,
    pub released: bool,
    pub lent: nat,
}

/// What happens to the pool of a view whose output keeps its size.
pub enum PoolEvent {
    /// A frame is captured. It is lent unless the capture fails after it began.
    Capture { lent: bool },
    /// The compositor releases a buffer.
    Release(int),
    /// A frame that is held is held once more.
    Share(int),
    /// A frame is dropped.
    Drop(int),
}

/// Which buffers nobody uses.
pub open spec fn free(pool: Seq<LentBuffer>) -> Seq<bool> {
    pool.map_values(|b: LentBuffer| unused(b.released, 1 + b.lent))
}

/// The pool after something happened, which was the event of this number.
pub open spec fn pooled(pool: Seq<LentBuffer>, event: PoolEvent, number: nat) -> Seq<LentBuffer> {
    match event {
        PoolEvent::Capture { lent } => {
            let b = LentBuffer {
                written: number,
                released: false,
                lent: if lent {
                    1
                } else {
                    0
                },
            };
            match chosen(free(pool)) {
                Some(Slot::Reuse(i)) => pool.update(i as int, b),
                Some(Slot::Create) => pool.push(b),
                None => pool,
            }
        },
        PoolEvent::Release(i) => if 0 <= i < pool.len() {
            pool.update(i, LentBuffer { released: true, ..pool[i] })
        } else {
            pool
        },
        PoolEvent::Share(i) => if 0 <= i < pool.len() && pool[i].lent > 0 {
            pool.update(i, LentBuffer { lent: pool[i].lent + 1, ..pool[i] })
        } else {
            pool
        },
        PoolEvent::Drop(i) => if 0 <= i < pool.len() && pool[i].lent > 0 {
            pool.update(i, LentBuffer { lent: (pool[i].lent - 1) as nat, ..pool[i] })
        } else {
            pool
        },
    }
}

/// The pool after a run of events.
pub open spec fn pool_run(pool: Seq<LentBuffer>, events: Seq<PoolEvent>) -> Seq<LentBuffer>
    decreases events.len(),
{
    if events.len() == 0 {
        pool
    } else {
        pooled(pool_run(pool, events.drop_last()), events.last(), events.len())
    }
}

/// Whether the frame in a buffer is held throughout a run.
pub open spec fn held_throughout(pool: Seq<LentBuffer>, events: Seq<PoolEvent>, i: int) -> bool {
    forall|n: int|
        0 <= n <= events.len() ==> {
            let now = #[trigger] pool_run(pool, events.take(n));
            i < now.len() && now[i].lent > 0
        }
}

proof fn free_places(available: Seq<bool>)
    ensures
        first_free(available) <= available.len(),
        first_free(available) < available.len() ==> available[first_free(available) as int],
        first_free(available) == available.len() ==> forall|j: int|
            0 <= j < available.len() ==> !(#[trigger] available[j]),
    decreases available.len(),
{
    if available.len() > 0 && !available[0] {
        let rest = available.drop_first();
        free_places(rest);
        assert(first_free(rest) < rest.len() ==> rest[first_free(rest) as int]
            == available[first_free(rest) as int + 1]);
        if first_free(rest) == rest.len() {
            assert forall|j: int| 0 <= j < available.len() implies !(#[trigger] available[j]) by {
                if j > 0 {
                    assert(rest[j - 1] == available[j]);
                }
            }
        }
    }
}

/// The pixels of a frame do not change while anyone holds it, through any run of captures: no
/// capture writes its buffer.
pub proof fn held_frames_are_not_rewritten(
    pool: Seq<LentBuffer>,
    events: Seq<PoolEvent>,
    i: int,
)
    requires
        0 <= i < pool.len() <= MAX_BUFFERS,
        held_throughout(pool, events, i),
    ensures
        i < pool_run(pool, events).len(),
        pool_run(pool, events)[i].written == pool[i].written,
    decreases events.len(),
{
    if events.len() > 0 {
        let less = events.drop_last();
        assert(held_throughout(pool, less, i)) by {
            assert forall|n: int| 0 <= n <= less.len() implies {
                let now = #[trigger] pool_run(pool, less.take(n));
                i < now.len() && now[i].lent > 0
            } by {
                assert(less.take(n) =~= events.take(n));
                assert(pool_run(pool, events.take(n)).len() > i);
            }
        }
        held_frames_are_not_rewritten(pool, less, i);
        let before = pool_run(pool, less);
        assert(events.take(events.len() - 1) =~= less);
        assert(pool_run(pool, events.take(events.len() - 1))[i].lent > 0);
        free_places(free(before));
        four_buffers_at_most(pool, less);
        if events.last() is Capture && first_free(free(before)) < before.len() {
            let k = first_free(free(before)) as int;
            assert(free(before)[k] == unused(before[k].released, 1 + before[k].lent));
            assert(k != i);
        }
    }
}

/// There are never more than four buffers.
pub proof fn four_buffers_at_most(pool: Seq<LentBuffer>, events: Seq<PoolEvent>)
    requires
        pool.len() <= MAX_BUFFERS,
    ensures
        pool_run(pool, events).len() <= MAX_BUFFERS,
    decreases events.len(),
{
    if events.len() > 0 {
        four_buffers_at_most(pool, events.drop_last());
    }
}

/// While four frames are held nothing is captured.
pub proof fn four_held_frames_are_busy(pool: Seq<LentBuffer>)
    requires
        pool.len() == MAX_BUFFERS,
        forall|i: int| 0 <= i < pool.len() ==> (#[trigger] pool[i]).lent > 0,
    ensures
        chosen(free(pool)) is None,
{
    free_places(free(pool));
    let k = first_free(free(pool)) as int;
    if k < pool.len() {
        assert(free(pool)[k] == unused(pool[k].released, 1 + pool[k].lent));
    }
}

/// Once a frame was dropped and its buffer released, there is room for a capture again.
pub proof fn dropped_frames_make_room(pool: Seq<LentBuffer>, i: int)
    requires
        0 <= i < pool.len() <= MAX_BUFFERS,
        pool[i].lent == 0,
        pool[i].released,
    ensures
        chosen(free(pool)) is Some,
{
    free_places(free(pool));
    assert(free(pool)[i]);
}

} // verus!
