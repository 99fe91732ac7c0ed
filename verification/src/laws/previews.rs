//! When live frames are captured, cancelled and shown.
use vstd::prelude::*;

use crate::backend::preview::{
    capture_next, CaptureEvent, CaptureStep, NextFrame, Stream, Viewport, Work, FRAMES_PER_SECOND,
    FRAME_INTERVAL,
};
use crate::backend::Cancellation;
use crate::model::{ErrorCode, Fault};
use crate::number::{unit, Binary64};

verus! {

/// A view has sides of 64 to 8192 and sixteen million pixels at most, at a scale from one half
/// to four; it keeps its size and takes the rounded scale.
pub proof fn views_are_bounded(
    width: u32,
    height: u32,
    scale: Binary64,
    rounded: Binary64,
    r: Result<Viewport, Fault>,
)
    requires
        call_ensures(Viewport::new, (width, height, scale, rounded), r),
    ensures
        r is Ok <==> {
            &&& 64 <= width <= 8192
            &&& 64 <= height <= 8192
            &&& width * height <= 4096 * 4096
            &&& scale.finite()
            &&& 2 * scale.value() >= unit()
            &&& scale.value() <= 4 * unit()
        },
        r matches Ok(v) ==> v.width == width && v.height == height && v.scale == rounded,
        r matches Err(e) ==> e.code == ErrorCode::Unsupported
            && e.message@ == "预览尺寸或缩放超出范围（最多 1600 万像素）"@,
{
}

/// Frames are captured only of a view that is shown, has a size and was not stopped, once the
/// next one is due: of that size, and until the stream moves on. The wish to leave the graphics
/// device is passed on once.
pub proof fn frames_are_captured_of_what_is_shown<T>(
    before: Stream<T>,
    after: Stream<T>,
    due: bool,
    r: Work,
)
    requires
        exists|s: &mut Stream<T>|
            *s == before && *final(s) == after && #[trigger] call_ensures(
                Stream::<T>::next,
                (s, due),
                r,
            ),
    ensures
        r is Stop <==> before.stopped,
        r is Capture <==> !before.stopped && before.shown && before.viewport is Some && due,
        r is WaitForNext <==> !before.stopped && before.shown && before.viewport is Some && !due,
        r is Wait <==> !before.stopped && !(before.shown && before.viewport is Some),
        r matches Work::Capture { viewport, disable_dma, cancel } ==> {
            &&& Some(viewport) == before.viewport
            &&& disable_dma == before.disable_dma
            &&& cancel.generation == before.signal
            &&& cancel.captured == before.generation
            &&& !after.disable_dma
        },
        !(r is Capture) ==> after.disable_dma == before.disable_dma,
        after.generation == before.generation,
        after.latest == before.latest,
        after.viewport == before.viewport && after.shown == before.shown && after.stopped
            == before.stopped,
{
}

/// A view that gets another size, is shown or hidden, leaves the graphics device or stops
/// cancels the capture that runs and drops its frame; one that stays as it is cancels nothing.
pub proof fn changed_views_cancel_their_capture<T>(
    before: Stream<T>,
    sized: Stream<T>,
    seen: Stream<T>,
    fallen: Stream<T>,
    ended: Stream<T>,
    viewport: Viewport,
    visible: bool,
    resized: bool,
    changed: bool,
)
    requires
        exists|s: &mut Stream<T>|
            *s == before && *final(s) == sized && #[trigger] call_ensures(
                Stream::<T>::configure,
                (s, viewport),
                resized,
            ),
        exists|s: &mut Stream<T>|
            *s == before && *final(s) == seen && #[trigger] call_ensures(
                Stream::<T>::visible,
                (s, visible),
                changed,
            ),
        exists|s: &mut Stream<T>|
            *s == before && *final(s) == fallen && #[trigger] call_ensures(
                Stream::<T>::fallback_to_memory,
                (s,),
                (),
            ),
        exists|s: &mut Stream<T>|
            *s == before && *final(s) == ended && #[trigger] call_ensures(
                Stream::<T>::stop,
                (s,),
                (),
            ),
    ensures
        resized ==> sized.viewport == Some(viewport) && sized.latest is None && sized.generation
            != before.generation,
        !resized ==> sized == before,
        before.viewport matches Some(v) ==> (resized <==> v.width != viewport.width || v.height
            != viewport.height || !v.scale.number() || !viewport.scale.number() || v.scale.value()
            != viewport.scale.value()),
        before.viewport is None ==> resized,
        sized.shown == before.shown && sized.stopped == before.stopped,
        seen.shown == visible,
        changed <==> before.shown != visible,
        changed ==> seen.latest is None && seen.generation != before.generation,
        !changed ==> seen == before,
        seen.viewport == before.viewport && seen.stopped == before.stopped,
        fallen.disable_dma && fallen.latest is None && fallen.generation != before.generation,
        fallen.shown == before.shown && fallen.viewport == before.viewport && !fallen.stopped
            == !before.stopped,
        ended.stopped && ended.latest is None && ended.generation != before.generation,
{
}

/// A frame waits to be shown only if nothing cancelled its capture; a busy buffer leaves the
/// frame in waiting as it is. The next one follows at the rate of the display, soon after a busy
/// buffer, and later after a failure.
pub proof fn frames_wait_unless_cancelled<T>(
    before: Stream<T>,
    after: Stream<T>,
    generation: u64,
    result: Result<T, Fault>,
    r: NextFrame,
)
    requires
        exists|s: &mut Stream<T>|
            *s == before && *final(s) == after && #[trigger] call_ensures(
                Stream::<T>::finished,
                (s, generation, result),
                r,
            ),
    ensures
        r == NextFrame::Stop <==> before.stopped,
        r == NextFrame::Now <==> !before.stopped && generation != before.generation,
        r == NextFrame::Interval <==> !before.stopped && generation == before.generation
            && result is Ok,
        !before.stopped && generation == before.generation && result is Err ==> {
            if result->Err_0.code == ErrorCode::Busy {
                r == NextFrame::After(4)
            } else {
                r == NextFrame::After(100)
            }
        },
        before.stopped || generation != before.generation ==> after == before,
        !before.stopped && generation == before.generation && result is Ok ==> after.latest == Some(
            result,
        ),
        result matches Err(e) ==> (e.code == ErrorCode::Busy ==> after == before),
        after.generation == before.generation && after.viewport == before.viewport && after.shown
            == before.shown,
{
}

/// The frame in waiting is taken once.
pub proof fn frames_are_taken_once<T>(
    before: Stream<T>,
    after: Stream<T>,
    r: Option<Result<T, Fault>>,
)
    requires
        exists|s: &mut Stream<T>|
            *s == before && *final(s) == after && #[trigger] call_ensures(
                Stream::<T>::take,
                (s,),
                r,
            ),
    ensures
        r == before.latest,
        after.latest is None,
        after.generation == before.generation && after.viewport == before.viewport && after.shown
            == before.shown && after.stopped == before.stopped,
{
}

/// Before a frame is taken, the application has its size, and before that the graphics device
/// was left if it was to be; what fails ends the capture.
pub proof fn applications_are_sized_before_their_frame<T>(
    viewport: Viewport,
    disable_dma: bool,
    event: CaptureEvent<T>,
    r: CaptureStep<T>,
)
    requires
        call_ensures(capture_next::<T>, (viewport, disable_dma, event), r),
    ensures
        r is Withdraw <==> event is Began && disable_dma,
        r is Frame <==> (event matches CaptureEvent::Resized(Ok(_))),
        r is Resize <==> event is Withdrawn || (event is Began && !disable_dma),
        r matches CaptureStep::Resize(v) ==> v == viewport,
        event matches CaptureEvent::Resized(Err(e)) ==> r == CaptureStep::<T>::Finished(Err(e)),
        event matches CaptureEvent::Framed(result) ==> r == CaptureStep::<T>::Finished(result),
{
}

/// A copy of an operation that can be cancelled is cancelled with it: what it reads is the same
/// counter, against the same generation.
pub proof fn operations_notice_that_they_are_cancelled(
    c: Cancellation,
    copy: Cancellation,
    current: u64,
    r: Result<(), Fault>,
    s: Result<(), Fault>,
)
    requires
        call_ensures(Cancellation::clone, (&c,), copy),
        call_ensures(Cancellation::verdict, (&c, current), r),
        call_ensures(Cancellation::verdict, (&copy, current), s),
    ensures
        copy.generation == c.generation,
        r is Ok <==> current == c.captured,
        s is Ok <==> r is Ok,
        r matches Err(e) ==> e.code == ErrorCode::Paused,
{
}

/// As many frames as a second is for fill it, and one nanosecond more for each would not fit.
pub proof fn frames_fill_a_second(late: u64)
    requires
        late > FRAME_INTERVAL,
    ensures
        60 * FRAME_INTERVAL <= 1_000_000_000 < 60 * late,
        FRAMES_PER_SECOND == 60,
{
}

} // verus!
