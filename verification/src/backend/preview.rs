//! Live frames of an isolated application: one worker and one frame in waiting for each view.
//! A slow view drops old frames, and a hidden or closed one cancels the capture.
use std::sync::atomic::AtomicU64;
use std::sync::Arc;
use vstd::prelude::*;

use crate::backend::{was_made, was_written, Cancellation};
use crate::model::{ErrorCode, Fault};
use crate::number::{unit, Binary64};

verus! {

/// Size of a view in physical pixels, and the scale of its display.
#[derive(Clone, Copy, Debug, PartialEq, Eq, Structural)]
pub struct Viewport {
    pub width: u32,
    pub height: u32,
    pub scale: Binary64,
}

/// Least width and height.
pub const MIN_SIDE: u32 = 64;

/// Greatest width and height.
pub const MAX_SIDE: u32 = 8192;

/// Most pixels.
pub const MAX_PIXELS: u64 = 16777216;

/// Whether a view of this size and scale is supported. The scale is from one half to four.
pub open spec fn supported(width: u32, height: u32, scale: Binary64) -> bool {
    &&& MIN_SIDE <= width <= MAX_SIDE
    &&& MIN_SIDE <= height <= MAX_SIDE
    &&& width * height <= MAX_PIXELS
    &&& scale.finite()
    &&& unit() <= 2 * scale.value()
    &&& scale.value() <= 4 * unit()
}

/// Bits of the double one half.
pub const HALF: u64 = 0x3fe0_0000_0000_0000;

fn half() -> (r: Binary64)
    ensures
        r.number(),
        2 * r.value() == unit(),
{
    proof {
        vstd::arithmetic::power2::lemma2_to64_rest();
        vstd::arithmetic::power2::lemma_pow2_adds(52, 1021);
        vstd::arithmetic::power2::lemma_pow2_adds(1, 1073);
        vstd::arithmetic::power2::lemma2_to64();
        assert(HALF / crate::number::FRACTION == 1022);
        assert(HALF % crate::number::FRACTION == 0);
    }
    Binary64::from_bits(HALF)
}

impl Viewport {
    /// A view of a given size, with its scale and the scale rounded to thousandths.
    pub fn new(width: u32, height: u32, scale: Binary64, rounded: Binary64) -> (r: Result<
        Self,
        Fault,
    >)
        ensures
            if supported(width, height, scale) {
                r == Ok::<Viewport, Fault>(Viewport { width, height, scale: rounded })
            } else {
                r matches Err(e) && e.says(
                    ErrorCode::Unsupported,
                    "预览尺寸或缩放超出范围（最多 1600 万像素）"@,
                )
            },
    {
        assert(width * height <= 0xffff_ffff * 0xffff_ffff) by (nonlinear_arith)
            requires
                width <= 0xffff_ffff,
                height <= 0xffff_ffff,
        ;
        let pixels: u64 = width as u64 * height as u64;
        if width < MIN_SIDE || height < MIN_SIDE || width > MAX_SIDE || height > MAX_SIDE || pixels
            > MAX_PIXELS || !scale.is_finite() || scale.less(half()) || Binary64::from_u32(4).less(
            scale,
        ) {
            Err(Fault::unsupported("预览尺寸或缩放超出范围（最多 1600 万像素）"))
        } else {
            Ok(Viewport { width, height, scale: rounded })
        }
    }
}

/// Whether two views have the same size and scale.
pub open spec fn same_viewport(a: Viewport, b: Viewport) -> bool {
    &&& a.width == b.width
    &&& a.height == b.height
    &&& a.scale.number()
    &&& b.scale.number()
    &&& a.scale.value() == b.scale.value()
}

/// Frames per second of a moving picture.
pub const FRAMES_PER_SECOND: u64 = 60;

/// Nanoseconds between frames of a moving picture.
pub const FRAME_INTERVAL: u64 = 16666666;

/// What the views and the worker share of a stream of frames.
pub struct Stream<T> {
    pub viewport: Option<Viewport>,
    pub shown: bool,
    pub stopped: bool,
    pub disable_dma: bool,
    pub latest: Option<Result<T, Fault>>,
    /// Moves on whenever a running capture is cancelled.
    pub generation: u64,
    /// Tells a running capture the generation.
    pub signal: Arc<AtomicU64>,
}

/// What the worker does next.
pub enum Work {
    /// End.
    Stop,
    /// Wait until something changes.
    Wait,
    /// Wait until something changes or the next frame is due.
    WaitForNext,
    /// Capture a frame, unless that is cancelled.
    Capture { viewport: Viewport, disable_dma: bool, cancel: Cancellation },
}

/// When the worker looks again.
#[derive(Clone, Copy, Debug, PartialEq, Eq, Structural)]
pub enum NextFrame {
    /// Never.
    Stop,
    /// At once.
    Now,
    /// So many milliseconds from now.
    After(u64),
    /// One frame interval after the capture began.
    Interval,
}

/// The generation after another.
pub open spec fn following(n: u64) -> u64 {
    if n == u64::MAX {
        0
    } else {
        (n + 1) as u64
    }
}

fn follow(n: u64) -> (r: u64)
    ensures
        r == following(n),
{
    if n == u64::MAX {
        0
    } else {
        n + 1
    }
}

impl<T> Stream<T> {
    /// The running capture cancelled and its frame dropped.
    pub open spec fn cancelled(self) -> Self {
        Stream { latest: None, generation: following(self.generation), ..self }
    }

    /// The size set.
    pub open spec fn configured(self, viewport: Viewport) -> Self {
        if self.viewport matches Some(v) && same_viewport(v, viewport) {
            self
        } else {
            Stream { viewport: Some(viewport), ..self }.cancelled()
        }
    }

    /// Shown or hidden.
    pub open spec fn seen(self, visible: bool) -> Self {
        if self.shown == visible {
            self
        } else {
            Stream { shown: visible, ..self }.cancelled()
        }
    }

    /// The graphics device given up.
    pub open spec fn fallen_back(self) -> Self {
        Stream { disable_dma: true, ..self }.cancelled()
    }

    /// Ended.
    pub open spec fn ended(self) -> Self {
        Stream { stopped: true, ..self }.cancelled()
    }

    /// Whether a capture that is cancelled by a change is told so.
    pub open spec fn told(self, later: Self) -> bool {
        later.generation != self.generation ==> was_written(*later.signal, later.generation)
    }

    /// Begins a stream: nothing is captured until a view is sized and shown.
    pub fn start() -> (r: Self)
        ensures
            r == (Stream::<T> {
                viewport: None,
                shown: false,
                stopped: false,
                disable_dma: false,
                latest: None,
                generation: 0,
                signal: r.signal,
            }),
            was_made(*r.signal, 0),
    {
        let counter = AtomicU64::new(0);
        assert(was_made(counter, 0));
        Stream {
            viewport: None,
            shown: false,
            stopped: false,
            disable_dma: false,
            latest: None,
            generation: 0,
            signal: Arc::new(counter),
        }
    }

    fn cancel(&mut self)
        ensures
            *final(self) == old(self).cancelled(),
            was_written(*final(self).signal, final(self).generation),
    {
        self.latest = None;
        let next: u64 = follow(self.generation);
        self.generation = next;
        self.signal.store(next, std::sync::atomic::Ordering::SeqCst);
        assert(was_written(*self.signal, next));
    }

    /// Sets the size. A new size cancels a capture of the old one.
    pub fn configure(&mut self, viewport: Viewport) -> (changed: bool)
        ensures
            changed == !(old(self).viewport matches Some(v) && same_viewport(v, viewport)),
            *final(self) == old(self).configured(viewport),
            old(self).told(*final(self)),
    {
        let known = match self.viewport {
            Some(v) => v.width == viewport.width && v.height == viewport.height && v.scale.same(
                viewport.scale,
            ),
            None => false,
        };
        if known {
            return false;
        }
        self.viewport = Some(viewport);
        self.cancel();
        true
    }

    /// Shows or hides the view. Either way a running capture is cancelled.
    pub fn visible(&mut self, visible: bool) -> (changed: bool)
        ensures
            changed == (old(self).shown != visible),
            *final(self) == old(self).seen(visible),
            old(self).told(*final(self)),
    {
        if self.shown == visible {
            return false;
        }
        self.shown = visible;
        self.cancel();
        true
    }

    /// Takes the frame in waiting.
    pub fn take(&mut self) -> (r: Option<Result<T, Fault>>)
        ensures
            r == old(self).latest,
            *final(self) == (Stream { latest: None, ..*old(self) }),
    {
        self.latest.take()
    }

    /// Gives the graphics device up for capture.
    pub fn fallback_to_memory(&mut self)
        ensures
            *final(self) == old(self).fallen_back(),
            old(self).told(*final(self)),
    {
        self.disable_dma = true;
        self.cancel();
    }

    /// Ends the stream.
    pub fn stop(&mut self)
        ensures
            *final(self) == old(self).ended(),
            old(self).told(*final(self)),
    {
        self.stopped = true;
        self.cancel();
    }

    /// What the worker does, given whether the next frame is due.
    pub open spec fn work(self, due: bool) -> Work {
        if self.stopped {
            Work::Stop
        } else {
            match self.viewport {
                Some(viewport) if self.shown => if due {
                    Work::Capture {
                        viewport,
                        disable_dma: self.disable_dma,
                        cancel: Cancellation {
                            generation: self.signal,
                            captured: self.generation,
                        },
                    }
                } else {
                    Work::WaitForNext
                },
                _ => Work::Wait,
            }
        }
    }

    /// After the worker was told what to do.
    pub open spec fn worked(self, due: bool) -> Self {
        if self.work(due) is Capture {
            Stream { disable_dma: false, ..self }
        } else {
            self
        }
    }

    /// After a capture of a generation ended.
    pub open spec fn settled(self, generation: u64, result: Result<T, Fault>) -> Self {
        if self.stopped || generation != self.generation || (result matches Err(e) && e.code
            == ErrorCode::Busy) {
            self
        } else {
            Stream { latest: Some(result), ..self }
        }
    }

    /// Decides what the worker does. The wish to give the graphics device up is passed on
    /// with the next capture, once.
    pub fn next(&mut self, due: bool) -> (r: Work)
        ensures
            r == old(self).work(due),
            *final(self) == old(self).worked(due),
    {
        if self.stopped {
            return Work::Stop;
        }
        match self.viewport {
            Some(viewport) => {
                if !self.shown {
                    Work::Wait
                } else if due {
                    let disable_dma = self.disable_dma;
                    self.disable_dma = false;
                    let cancel = Cancellation::watching(self.signal.clone(), self.generation);
                    Work::Capture { viewport, disable_dma, cancel }
                } else {
                    Work::WaitForNext
                }
            },
            None => Work::Wait,
        }
    }

    /// A capture ended. Its result counts only if nothing cancelled it meanwhile; a buffer
    /// that was busy leaves the frame in waiting as it is.
    pub fn finished(&mut self, generation: u64, result: Result<T, Fault>) -> (r: NextFrame)
        ensures
            *final(self) == old(self).settled(generation, result),
            r == (if old(self).stopped {
                NextFrame::Stop
            } else if generation != old(self).generation {
                NextFrame::Now
            } else {
                match result {
                    Ok(_) => NextFrame::Interval,
                    Err(e) => if e.code == ErrorCode::Busy {
                        NextFrame::After(4)
                    } else {
                        NextFrame::After(100)
                    },
                }
            }),
    {
        if self.stopped {
            return NextFrame::Stop;
        }
        if generation != self.generation {
            return NextFrame::Now;
        }
        let (busy, failed) = match &result {
            Ok(_) => (false, false),
            Err(e) => (e.code == ErrorCode::Busy, true),
        };
        if busy {
            return NextFrame::After(4);
        }
        self.latest = Some(result);
        if failed {
            NextFrame::After(100)
        } else {
            NextFrame::Interval
        }
    }
}

/// What came of the last step of a capture.
pub enum CaptureEvent<T> {
    Began,
    Withdrawn,
    Resized(Result<(), Fault>),
    Framed(Result<T, Fault>),
}

/// What a capture does next.
pub enum CaptureStep<T> {
    /// Offer no formats of the graphics device.
    Withdraw,
    /// Give the application this size.
    Resize(Viewport),
    /// Take a frame.
    Frame,
    /// Nothing; this is what came of it.
    Finished(Result<T, Fault>),
}

/// What follows a step of a capture.
pub open spec fn captured<T>(viewport: Viewport, disable_dma: bool, event: CaptureEvent<T>) -> CaptureStep<
    T,
> {
    match event {
        CaptureEvent::Began => if disable_dma {
            CaptureStep::Withdraw
        } else {
            CaptureStep::Resize(viewport)
        },
        CaptureEvent::Withdrawn => CaptureStep::Resize(viewport),
        CaptureEvent::Resized(Ok(_)) => CaptureStep::Frame,
        CaptureEvent::Resized(Err(e)) => CaptureStep::Finished(Err(e)),
        CaptureEvent::Framed(result) => CaptureStep::Finished(result),
    }
}

/// What a capture does, by what came of its last step.
pub fn capture_next<T>(viewport: Viewport, disable_dma: bool, event: CaptureEvent<T>) -> (r:
    CaptureStep<T>)
    ensures
        r == captured(viewport, disable_dma, event),
{
    match event {
        CaptureEvent::Began => if disable_dma {
            CaptureStep::Withdraw
        } else {
            CaptureStep::Resize(viewport)
        },
        CaptureEvent::Withdrawn => CaptureStep::Resize(viewport),
        CaptureEvent::Resized(Ok(())) => CaptureStep::Frame,
        CaptureEvent::Resized(Err(e)) => CaptureStep::Finished(Err(e)),
        CaptureEvent::Framed(result) => CaptureStep::Finished(result),
    }
}

/// A frame is taken only once the application took the size that it is captured in.
pub proof fn frames_follow_resizing<T>(viewport: Viewport, disable_dma: bool, event: CaptureEvent<T>)
    ensures
        captured(viewport, disable_dma, event) is Frame ==> event matches CaptureEvent::Resized(Ok(_)),
{
}

/// A capture is of the size that the view has, and watches the stream's own counter.
pub proof fn captures_are_of_the_latest_size<T>(s: Stream<T>, due: bool)
    ensures
        s.work(due) matches Work::Capture { viewport, cancel, .. } ==> {
            &&& s.viewport == Some(viewport)
            &&& s.shown
            &&& !s.stopped
            &&& cancel.generation == s.signal
            &&& cancel.captured == s.generation
        },
{
}

/// Hiding a view, giving it a new size, falling back or stopping cancels a running capture:
/// its generation is over, the counter that it watches is told so, and its frame is not shown.
pub proof fn changes_cancel_the_running_capture<T>(s: Stream<T>, due: bool)
    requires
        s.work(due) is Capture,
        s.told(s.cancelled()),
    ensures
        s.cancelled().latest is None,
        ({
            let cancel = s.work(due)->cancel;
            &&& s.cancelled().generation != cancel.captured
            &&& was_written(*cancel.generation, s.cancelled().generation)
        }),
{
}

/// Anything that happens to a stream.
pub enum StreamEvent<T> {
    Configure(Viewport),
    Visible(bool),
    Take,
    Fallback,
    Stop,
    Next { due: bool },
    Finished { generation: u64, result: Result<T, Fault> },
}

/// A stream after something happened.
pub open spec fn streamed<T>(s: Stream<T>, event: StreamEvent<T>) -> Stream<T> {
    match event {
        StreamEvent::Configure(viewport) => s.configured(viewport),
        StreamEvent::Visible(visible) => s.seen(visible),
        StreamEvent::Take => Stream { latest: None, ..s },
        StreamEvent::Fallback => s.fallen_back(),
        StreamEvent::Stop => s.ended(),
        StreamEvent::Next { due } => s.worked(due),
        StreamEvent::Finished { generation, result } => s.settled(generation, result),
    }
}

/// A stream after a run of events.
pub open spec fn run<T>(s: Stream<T>, events: Seq<StreamEvent<T>>) -> Stream<T>
    decreases events.len(),
{
    if events.len() == 0 {
        s
    } else {
        streamed(run(s, events.drop_last()), events.last())
    }
}

/// How often a run cancels what is running.
pub open spec fn cancellations<T>(s: Stream<T>, events: Seq<StreamEvent<T>>) -> nat
    decreases events.len(),
{
    if events.len() == 0 {
        0
    } else {
        let before = run(s, events.drop_last());
        cancellations(s, events.drop_last()) + (if streamed(before, events.last()).generation
            != before.generation {
            1nat
        } else {
            0
        })
    }
}

proof fn generations_count<T>(s: Stream<T>, events: Seq<StreamEvent<T>>)
    ensures
        run(s, events).generation == (s.generation + cancellations(s, events))
            % 0x1_0000_0000_0000_0000,
    decreases events.len(),
{
    if events.len() > 0 {
        generations_count(s, events.drop_last());
        let before = run(s, events.drop_last());
        let next = streamed(before, events.last());
        assert(next.generation == before.generation || next.generation == following(
            before.generation,
        ));
    }
}

proof fn run_over_both<T>(
    s: Stream<T>,
    first: Seq<StreamEvent<T>>,
    second: Seq<StreamEvent<T>>,
)
    ensures
        run(s, first + second) == run(run(s, first), second),
    decreases second.len(),
{
    if second.len() > 0 {
        run_over_both(s, first, second.drop_last());
        assert((first + second).drop_last() =~= first + second.drop_last());
        assert((first + second).last() == second.last());
    } else {
        assert(first + second =~= first);
    }
}

/// What a capture gives after it was cancelled makes no difference to anything that follows, and
/// so never comes out. Generations repeat after two to the power of 64 cancellations; a capture
/// does not last as long.
pub proof fn cancelled_captures_never_come_out<T>(
    s: Stream<T>,
    events: Seq<StreamEvent<T>>,
    result: Result<T, Fault>,
    later: Seq<StreamEvent<T>>,
)
    requires
        0 < cancellations(s, events) <= u64::MAX,
    ensures
        run(s, events.push(StreamEvent::Finished { generation: s.generation, result }) + later)
            == run(s, events + later),
{
    let end = StreamEvent::Finished { generation: s.generation, result };
    generations_count(s, events);
    assert(run(s, events).generation != s.generation);
    assert(events.push(end).drop_last() =~= events);
    assert(run(s, events.push(end)) == run(s, events));
    run_over_both(s, events.push(end), later);
    run_over_both(s, events, later);
}

/// What a capture gave and nobody took is gone when something cancels, and a busy buffer leaves
/// no trace at all.
pub proof fn waiting_frames_are_dropped<T>(
    s: Stream<T>,
    generation: u64,
    result: Result<T, Fault>,
    event: StreamEvent<T>,
)
    ensures
        streamed(s, event).generation != s.generation ==> streamed(
            s.settled(generation, result),
            event,
        ) == streamed(s, event),
        (result matches Err(e) && e.code == ErrorCode::Busy) ==> s.settled(generation, result)
            == s,
{
}

/// Nothing comes out of a stream that was stopped, whatever happens afterwards.
pub proof fn stopped_streams_are_silent<T>(s: Stream<T>, events: Seq<StreamEvent<T>>)
    ensures
        run(s.ended(), events).latest is None,
        run(s.ended(), events).stopped,
    decreases events.len(),
{
    if events.len() > 0 {
        stopped_streams_are_silent(s, events.drop_last());
    }
}

/// A hidden, unsized or stopped view captures nothing.
pub proof fn hidden_views_capture_nothing<T>(s: Stream<T>, due: bool)
    requires
        !s.shown || s.viewport is None || s.stopped,
    ensures
        !(s.work(due) is Capture),
{
}

} // verus!
