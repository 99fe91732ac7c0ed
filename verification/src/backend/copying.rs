//! The sequences in which a display is copied, into shared memory or into a buffer of the
//! graphics device: no buffer is written that
//! somebody still looks at, and no pixels are shown before they are complete.
use vstd::prelude::*;

use crate::backend::dmabuf::{check_upright, dma_layout, dma_slot};
use crate::backend::wayland::{
    capture_slot, chosen, first_free, BufferKey, BufferPool, DmaLayout, Layout, Progress, Slot,
    MAX_BUFFERS,
};
use crate::model::{fault, ErrorCode, Fault, FaultView};
use crate::picture::Transform;

verus! {

/// A copy whose layout is known, with the version of the protocol.
#[derive(Debug, Clone, Copy, PartialEq, Eq, Structural)]
pub struct CopyPlan {
    pub layout: Layout,
    pub version: u32,
}

/// How far a copy has come.
#[derive(Debug, Clone, Copy, PartialEq, Eq, Structural)]
pub enum Copying {
    Starting,
    /// The compositor is asked for a frame.
    Beginning,
    /// The buffers are looked at.
    Choosing(CopyPlan),
    /// A buffer is made.
    Creating(CopyPlan),
    /// The compositor writes into the buffer at this place.
    Waiting(CopyPlan, usize),
    Done,
}

/// What is to be done next.
#[derive(Debug)]
pub enum CopyStep {
    /// Ask the compositor for a frame.
    Begin,
    /// Look which buffers nobody uses.
    Choose,
    /// Make a buffer of this layout and number of bytes.
    Create(Layout, u64),
    /// Have the frame written into the buffer at this place, once it changes or at once.
    Write { slot: usize, on_change: bool },
    /// Wait for the compositor.
    Wait,
    /// Show the pixels of the buffer that was written, which are turned over or not.
    Show { layout: Layout, inverted: bool },
    /// Nothing; the copy failed.
    Failed(Fault),
}

/// What came of what was done last.
pub enum CopyEvent<T> {
    Started,
    /// The compositor agreed: whether there is shared memory, and how the frame is laid out.
    Begun(Result<(bool, Option<Layout>, u32), Fault>),
    /// Which buffers nobody uses, in their order.
    Free(Vec<bool>),
    Created(Result<T, Fault>),
    /// The compositor was waited for: how far it has come, and whether it released the buffer.
    Waited(Result<(Progress, bool), Fault>),
}

/// The fault of a copy that the compositor refuses.
pub open spec fn refused() -> FaultView {
    fault(ErrorCode::BackendUnavailable, "截图被合成器拒绝"@)
}

/// Whether a copy ended with a fault.
pub open spec fn copy_failed(now: Copying, step: CopyStep, f: FaultView) -> bool {
    &&& now is Done
    &&& step matches CopyStep::Failed(e)
    &&& e@ == f
}

/// Whether a copy goes on with writing into a buffer.
pub open spec fn writes(c: CopyPlan, slot: usize, damage: bool, now: Copying, step: CopyStep) -> bool {
    &&& now == Copying::Waiting(c, slot)
    &&& step == (CopyStep::Write { slot, on_change: damage && c.version >= 2 })
}

/// Whether a step is the one that follows what was done last.
pub open spec fn copied<T>(
    buffers: nat,
    damage: bool,
    was: Copying,
    event: CopyEvent<T>,
    now: Copying,
    step: CopyStep,
) -> bool {
    match (was, event) {
        (Copying::Starting, _) => now is Beginning && step is Begin,
        (Copying::Beginning, CopyEvent::Begun(Ok((shm, layout, version)))) => if !shm {
            copy_failed(now, step, fault(ErrorCode::Unsupported, "缺少 wl_shm"@))
        } else {
            match layout {
                None => copy_failed(now, step, refused()),
                Some(layout) => if layout.sensible() {
                    now == Copying::Choosing(CopyPlan { layout, version }) && step is Choose
                } else {
                    copy_failed(
                        now,
                        step,
                        fault(ErrorCode::BackendUnavailable, "截图尺寸超出限制"@),
                    )
                },
            }
        },
        (Copying::Choosing(c), CopyEvent::Free(available)) => if available@.len() != buffers
            || !c.layout.sensible() {
            copy_failed(now, step, refused())
        } else {
            match chosen(available@) {
                Some(Slot::Reuse(slot)) => writes(c, slot, damage, now, step),
                Some(Slot::Create) => now == Copying::Creating(c) && step == CopyStep::Create(
                    c.layout,
                    (c.layout.stride * c.layout.height) as u64,
                ),
                None => copy_failed(
                    now,
                    step,
                    fault(ErrorCode::Busy, "显示缓冲区仍在使用，丢弃过时帧"@),
                ),
            }
        },
        (Copying::Creating(c), CopyEvent::Created(Ok(_))) => if buffers < MAX_BUFFERS {
            writes(c, buffers as usize, damage, now, step)
        } else {
            copy_failed(now, step, refused())
        },
        (Copying::Waiting(c, slot), CopyEvent::Waited(Ok((progress, released)))) => {
            if progress.frame_failed {
                copy_failed(
                    now,
                    step,
                    fault(ErrorCode::BackendUnavailable, "截图传输失败"@),
                )
            } else if progress.frame_ready && (damage ==> released) {
                now is Done && step == (CopyStep::Show {
                    layout: c.layout,
                    inverted: progress.inverted,
                })
            } else {
                now == was && step is Wait
            }
        },
        (Copying::Beginning, CopyEvent::Begun(Err(e))) => copy_failed(now, step, e@),
        (Copying::Creating(_), CopyEvent::Created(Err(e))) => copy_failed(now, step, e@),
        (Copying::Waiting(_, _), CopyEvent::Waited(Err(e))) => copy_failed(now, step, e@),
        (_, _) => copy_failed(now, step, refused()),
    }
}

/// The buffers after what was done last: a single picture uses a buffer of its own, and those
/// of another layout are dropped before one is chosen.
pub open spec fn pool_after<T>(
    buffers: Seq<(BufferKey, T)>,
    damage: bool,
    was: Copying,
    event: CopyEvent<T>,
    now: Copying,
    step: CopyStep,
) -> Seq<(BufferKey, T)> {
    match (was, event) {
        (Copying::Starting, _) => if damage {
            buffers
        } else {
            Seq::empty()
        },
        (Copying::Beginning, _) => match now {
            Copying::Choosing(c) => buffers.filter(
                |b: (BufferKey, T)| b.0 == BufferKey::Shm(c.layout),
            ),
            _ => buffers,
        },
        (Copying::Creating(c), CopyEvent::Created(Ok(buffer))) => if buffers.len() < MAX_BUFFERS {
            buffers.push((BufferKey::Shm(c.layout), buffer))
        } else {
            buffers
        },
        (Copying::Waiting(_, _), _) => if step is Show && !damage {
            Seq::empty()
        } else {
            buffers
        },
        (_, _) => buffers,
    }
}

fn copy_end(e: Fault) -> (r: (Copying, CopyStep))
    ensures
        copy_failed(r.0, r.1, e@),
{
    (Copying::Done, CopyStep::Failed(e))
}

fn write(c: CopyPlan, slot: usize, damage: bool) -> (r: (Copying, CopyStep))
    ensures
        writes(c, slot, damage, r.0, r.1),
{
    (Copying::Waiting(c, slot), CopyStep::Write { slot, on_change: damage && c.version >= 2 })
}

impl<T> BufferPool<T> {
    fn begun(&mut self, shm: bool, layout: Option<Layout>, version: u32) -> (r: (Copying, CopyStep))
        requires
            old(self).wf(),
        ensures
            final(self).wf(),
            final(self).buffers@ == pool_after(
                old(self).buffers@,
                true,
                Copying::Beginning,
                CopyEvent::<T>::Started,
                r.0,
                r.1,
            ),
            copied(
                old(self).buffers@.len(),
                true,
                Copying::Beginning,
                CopyEvent::<T>::Begun(Ok((shm, layout, version))),
                r.0,
                r.1,
            ),
    {
        if !shm {
            return copy_end(Fault::unsupported("缺少 wl_shm"));
        }
        match layout {
            None => copy_end(Fault::unavailable("截图被合成器拒绝")),
            Some(layout) => match layout.buffer_size() {
                Err(e) => copy_end(e),
                Ok(_) => {
                    self.retain(BufferKey::Shm(layout));
                    (Copying::Choosing(CopyPlan { layout, version }), CopyStep::Choose)
                },
            },
        }
    }

    fn place(&self, c: CopyPlan, damage: bool, available: Vec<bool>) -> (r: (Copying, CopyStep))
        ensures
            copied(
                self.buffers@.len(),
                damage,
                Copying::Choosing(c),
                CopyEvent::<T>::Free(available),
                r.0,
                r.1,
            ),
    {
        if available.len() != self.buffers.len() {
            return copy_end(Fault::unavailable("截图被合成器拒绝"));
        }
        match c.layout.buffer_size() {
            Err(_) => copy_end(Fault::unavailable("截图被合成器拒绝")),
            Ok(size) => match capture_slot(self, &available) {
                Err(e) => copy_end(e),
                Ok(Slot::Reuse(slot)) => write(c, slot, damage),
                Ok(Slot::Create) => (Copying::Creating(c), CopyStep::Create(c.layout, size)),
            },
        }
    }

    /// What is to be done to copy a display, by what came of what was done last. What follows
    /// damage is written into buffers that are used again.
    pub fn capture_raw(&mut self, damage: bool, was: Copying, event: CopyEvent<T>) -> (r: (
        Copying,
        CopyStep,
    ))
        requires
            old(self).wf(),
        ensures
            final(self).wf(),
            copied(old(self).buffers@.len(), damage, was, event, r.0, r.1),
            final(self).buffers@ == pool_after(
                old(self).buffers@,
                damage,
                was,
                event,
                r.0,
                r.1,
            ),
    {
        match (was, event) {
            (Copying::Starting, _) => {
                if !damage {
                    self.clear();
                    assert(self.buffers@ =~= Seq::empty());
                }
                (Copying::Beginning, CopyStep::Begin)
            },
            (Copying::Beginning, CopyEvent::Begun(Ok((shm, layout, version)))) => self.begun(
                shm,
                layout,
                version,
            ),
            (Copying::Choosing(c), CopyEvent::Free(available)) => self.place(
                c,
                damage,
                available,
            ),
            (Copying::Creating(c), CopyEvent::Created(Ok(buffer))) => {
                if self.buffers.len() < MAX_BUFFERS {
                    let slot = self.add(BufferKey::Shm(c.layout), buffer);
                    write(c, slot, damage)
                } else {
                    copy_end(Fault::unavailable("截图被合成器拒绝"))
                }
            },
            (Copying::Waiting(c, slot), CopyEvent::Waited(Ok((progress, released)))) => {
                match progress.copied(damage, released) {
                    None => (Copying::Waiting(c, slot), CopyStep::Wait),
                    Some(Err(e)) => copy_end(e),
                    Some(Ok(())) => {
                        if !damage {
                            self.clear();
                            assert(self.buffers@ =~= Seq::empty());
                        }
                        (
                            Copying::Done,
                            CopyStep::Show { layout: c.layout, inverted: progress.inverted },
                        )
                    },
                }
            },
            (Copying::Beginning, CopyEvent::Begun(Err(e))) => copy_end(e),
            (Copying::Creating(_), CopyEvent::Created(Err(e))) => copy_end(e),
            (Copying::Waiting(_, _), CopyEvent::Waited(Err(e))) => copy_end(e),
            (_, _) => copy_end(Fault::unavailable("截图被合成器拒绝")),
        }
    }
}

/// A buffer is written only if nobody uses it or it is new, and pixels are shown only once the
/// compositor has said that they are complete.
pub proof fn copies_are_safe_to_look_at<T>(
    buffers: nat,
    damage: bool,
    was: Copying,
    event: CopyEvent<T>,
    now: Copying,
    step: CopyStep,
)
    requires
        copied(buffers, damage, was, event, now, step),
        buffers <= MAX_BUFFERS,
    ensures
        step matches CopyStep::Write { slot, .. } ==> {
            ||| was is Creating && slot == buffers
            ||| event matches CopyEvent::Free(available) && slot < available@.len()
                && available@[slot as int]
        },
        step is Show ==> (event matches CopyEvent::Waited(Ok((progress, released)))
            && progress.frame_ready && !progress.frame_failed && (damage ==> released)),
{
    match event {
        CopyEvent::Free(available) => {
            lemma_free(available@);
        },
        _ => {},
    }
}

/// How far a copy into a buffer of the graphics device has come.
#[derive(Debug, Clone, Copy, PartialEq, Eq, Structural)]
pub enum DmaCopying {
    Starting,
    /// The compositor is asked for a frame.
    Beginning,
    /// The buffers are looked at.
    Choosing(DmaLayout),
    /// A buffer is made.
    Creating(DmaLayout),
    /// The compositor writes into the buffer at this place.
    Waiting(usize),
    Done,
}

/// What is to be done next.
#[derive(Debug)]
pub enum DmaStep {
    /// Ask the compositor for a frame.
    Begin,
    /// Look which buffers nobody uses.
    Choose,
    /// Make a buffer of this layout.
    Create(DmaLayout),
    /// Have the frame written into the buffer at this place, once it changes.
    Write(usize),
    /// Wait for the compositor.
    Wait,
    /// Show the buffer at this place.
    Show(usize),
    /// Nothing; the copy failed.
    Failed(Fault),
}

/// What came of what was done last.
pub enum DmaEvent<T> {
    Started,
    /// The compositor agreed, and offers a layout or none.
    Begun(Result<Option<DmaLayout>, Fault>),
    /// Which buffers nobody uses, in their order.
    Free(Vec<bool>),
    Created(Result<T, Fault>),
    /// The compositor was waited for: how far it has come, and whether it released the buffer.
    Waited(Result<(Progress, bool), Fault>),
}

/// Whether a copy into a buffer of the graphics device ended with a fault.
pub open spec fn dma_failed(now: DmaCopying, step: DmaStep, f: FaultView) -> bool {
    &&& now is Done
    &&& step matches DmaStep::Failed(e)
    &&& e@ == f
}

/// The fault of a display that offers no such copy.
pub open spec fn unoffered() -> FaultView {
    fault(ErrorCode::Unsupported, "输出不支持 DMA-BUF 截图"@)
}

/// Whether a step is the one that follows what was done last.
pub open spec fn dma_copied<T>(
    buffers: nat,
    transform: Transform,
    was: DmaCopying,
    event: DmaEvent<T>,
    now: DmaCopying,
    step: DmaStep,
) -> bool {
    match (was, event) {
        (DmaCopying::Starting, _) => if transform == Transform::Normal {
            now is Beginning && step is Begin
        } else {
            dma_failed(now, step, fault(ErrorCode::Unsupported, "旋转输出使用共享内存预览"@))
        },
        (DmaCopying::Beginning, DmaEvent::Begun(Ok(offered))) => match offered {
            None => dma_failed(now, step, unoffered()),
            Some(layout) => if layout.sensible() {
                now == DmaCopying::Choosing(layout) && step is Choose
            } else {
                dma_failed(
                    now,
                    step,
                    fault(ErrorCode::Unsupported, "DMA-BUF 尺寸超出预览限制"@),
                )
            },
        },
        (DmaCopying::Choosing(layout), DmaEvent::Free(available)) => if available@.len()
            != buffers {
            dma_failed(now, step, unoffered())
        } else {
            match chosen(available@) {
                Some(Slot::Reuse(slot)) => now == DmaCopying::Waiting(slot) && step
                    == DmaStep::Write(slot),
                Some(Slot::Create) => now == DmaCopying::Creating(layout) && step
                    == DmaStep::Create(layout),
                None => dma_failed(now, step, fault(ErrorCode::Busy, "GPU 帧仍被 GTK 持有"@)),
            }
        },
        (DmaCopying::Creating(_), DmaEvent::Created(Ok(_))) => if buffers < MAX_BUFFERS {
            now == DmaCopying::Waiting(buffers as usize) && step == DmaStep::Write(
                buffers as usize,
            )
        } else {
            dma_failed(now, step, unoffered())
        },
        (DmaCopying::Waiting(slot), DmaEvent::Waited(Ok((progress, released)))) => {
            if !progress.frame_failed && !(progress.frame_ready && released) {
                now == was && step is Wait
            } else if progress.frame_failed || progress.inverted {
                dma_failed(
                    now,
                    step,
                    fault(ErrorCode::BackendUnavailable, "DMA-BUF 传输失败或需要翻转"@),
                )
            } else {
                now is Done && step == DmaStep::Show(slot)
            }
        },
        (DmaCopying::Beginning, DmaEvent::Begun(Err(e))) => dma_failed(now, step, e@),
        (DmaCopying::Creating(_), DmaEvent::Created(Err(e))) => dma_failed(now, step, e@),
        (DmaCopying::Waiting(_), DmaEvent::Waited(Err(e))) => dma_failed(now, step, e@),
        (_, _) => dma_failed(now, step, unoffered()),
    }
}

/// The buffers of the graphics device after what was done last: those of another layout are
/// dropped before one is chosen, and a new one is kept.
pub open spec fn dma_pool_after<T>(
    buffers: Seq<(BufferKey, T)>,
    was: DmaCopying,
    event: DmaEvent<T>,
    now: DmaCopying,
) -> Seq<(BufferKey, T)> {
    match (was, event) {
        (DmaCopying::Beginning, _) => match now {
            DmaCopying::Choosing(layout) => buffers.filter(
                |b: (BufferKey, T)| b.0 == BufferKey::Dma(layout),
            ),
            _ => buffers,
        },
        (DmaCopying::Creating(layout), DmaEvent::Created(Ok(buffer))) => if buffers.len()
            < MAX_BUFFERS {
            buffers.push((BufferKey::Dma(layout), buffer))
        } else {
            buffers
        },
        (_, _) => buffers,
    }
}

fn dma_end(e: Fault) -> (r: (DmaCopying, DmaStep))
    ensures
        dma_failed(r.0, r.1, e@),
{
    (DmaCopying::Done, DmaStep::Failed(e))
}

impl<T> BufferPool<T> {
    fn place_dma(&self, layout: DmaLayout, available: Vec<bool>) -> (r: (DmaCopying, DmaStep))
        ensures
            dma_copied(
                self.buffers@.len(),
                Transform::Normal,
                DmaCopying::Choosing(layout),
                DmaEvent::<T>::Free(available),
                r.0,
                r.1,
            ),
    {
        if available.len() != self.buffers.len() {
            return dma_end(Fault::unsupported("输出不支持 DMA-BUF 截图"));
        }
        match dma_slot(self, &available) {
            Err(e) => dma_end(e),
            Ok(Slot::Reuse(slot)) => (DmaCopying::Waiting(slot), DmaStep::Write(slot)),
            Ok(Slot::Create) => (DmaCopying::Creating(layout), DmaStep::Create(layout)),
        }
    }

    /// What is to be done to copy a display into a buffer of the graphics device, by what came
    /// of what was done last.
    pub fn capture_dma(&mut self, transform: Transform, was: DmaCopying, event: DmaEvent<T>) -> (r:
        (DmaCopying, DmaStep))
        requires
            old(self).wf(),
        ensures
            final(self).wf(),
            dma_copied(old(self).buffers@.len(), transform, was, event, r.0, r.1),
            final(self).buffers@ == dma_pool_after(old(self).buffers@, was, event, r.0),
    {
        match (was, event) {
            (DmaCopying::Starting, _) => match check_upright(transform) {
                Ok(()) => (DmaCopying::Beginning, DmaStep::Begin),
                Err(e) => dma_end(e),
            },
            (DmaCopying::Beginning, DmaEvent::Begun(Ok(offered))) => match dma_layout(offered) {
                Ok(layout) => {
                    self.retain(BufferKey::Dma(layout));
                    (DmaCopying::Choosing(layout), DmaStep::Choose)
                },
                Err(e) => dma_end(e),
            },
            (DmaCopying::Choosing(layout), DmaEvent::Free(available)) => self.place_dma(
                layout,
                available,
            ),
            (DmaCopying::Creating(layout), DmaEvent::Created(Ok(buffer))) => {
                if self.buffers.len() < MAX_BUFFERS {
                    let slot = self.add(BufferKey::Dma(layout), buffer);
                    (DmaCopying::Waiting(slot), DmaStep::Write(slot))
                } else {
                    dma_end(Fault::unsupported("输出不支持 DMA-BUF 截图"))
                }
            },
            (DmaCopying::Waiting(slot), DmaEvent::Waited(Ok((progress, released)))) => {
                match progress.copied_dma(released) {
                    None => (DmaCopying::Waiting(slot), DmaStep::Wait),
                    Some(Err(e)) => dma_end(e),
                    Some(Ok(())) => (DmaCopying::Done, DmaStep::Show(slot)),
                }
            },
            (DmaCopying::Beginning, DmaEvent::Begun(Err(e))) => dma_end(e),
            (DmaCopying::Creating(_), DmaEvent::Created(Err(e))) => dma_end(e),
            (DmaCopying::Waiting(_), DmaEvent::Waited(Err(e))) => dma_end(e),
            (_, _) => dma_end(Fault::unsupported("输出不支持 DMA-BUF 截图")),
        }
    }
}

/// A buffer of the graphics device is written only if nobody uses it or it is new, and is shown
/// only once it is complete, released and upright.
pub proof fn device_copies_are_safe_to_look_at<T>(
    buffers: nat,
    transform: Transform,
    was: DmaCopying,
    event: DmaEvent<T>,
    now: DmaCopying,
    step: DmaStep,
)
    requires
        dma_copied(buffers, transform, was, event, now, step),
        buffers <= MAX_BUFFERS,
    ensures
        step matches DmaStep::Write(slot) ==> {
            ||| was is Creating && slot == buffers
            ||| event matches DmaEvent::Free(available) && slot < available@.len()
                && available@[slot as int]
        },
        step is Show ==> (event matches DmaEvent::Waited(Ok((progress, released)))
            && progress.frame_ready && !progress.frame_failed && released && !progress.inverted),
{
    match event {
        DmaEvent::Free(available) => {
            lemma_free(available@);
        },
        _ => {},
    }
}

proof fn lemma_free(available: Seq<bool>)
    ensures
        first_free(available) < available.len() ==> available[first_free(available) as int],
    decreases available.len(),
{
    if available.len() > 0 && !available[0] {
        lemma_free(available.drop_first());
    }
}

} // verus!
