//! Capture into buffers of the graphics device: which formats, which buffer, and when to
//! fall back to shared memory.
use vstd::prelude::*;

use crate::backend::wayland::{chosen, BufferPool, DmaLayout, Slot};
use crate::model::{ErrorCode, Fault};
use crate::picture::Transform;

verus! {

/// A pixel format of the graphics device with a memory layout.
#[derive(Debug, Clone, Copy, PartialEq, Eq, Structural)]
pub struct DmaFormat {
    pub fourcc: u32,
    pub modifier: u64,
}

/// The modifier that stands for no known layout.
pub const INVALID_MODIFIER: u64 = 0x00ff_ffff_ffff_ffff;

/// Greatest width and height of a preview.
pub const MAX_PREVIEW_SIDE: u32 = 8192;

/// Most pixels of a preview.
pub const MAX_PREVIEW_PIXELS: u64 = 16777216;

/// A modifier from its halves.
pub open spec fn whole(high: u32, low: u32) -> u64 {
    (high as u64 * 0x1_0000_0000 + low as u64) as u64
}

/// A modifier from the halves that the compositor sends.
pub fn modifier_of(high: u32, low: u32) -> (r: u64)
    ensures
        r == whole(high, low),
{
    high as u64 * 0x1_0000_0000 + low as u64
}

/// The halves of a modifier, the high one first.
pub fn modifier_halves(modifier: u64) -> (r: (u32, u32))
    ensures
        r.0 == modifier / 0x1_0000_0000,
        r.1 == modifier % 0x1_0000_0000,
{
    ((modifier / 0x1_0000_0000) as u32, (modifier % 0x1_0000_0000) as u32)
}

/// A modifier survives being sent in halves.
pub proof fn halves_make_the_whole(modifier: u64)
    ensures
        whole((modifier / 0x1_0000_0000) as u32, (modifier % 0x1_0000_0000) as u32) == modifier,
{
}

/// Whether the graphics device can be used for capture at all.
pub fn dma_usable(device: bool, formats: &Vec<DmaFormat>, offered: bool) -> (r: bool)
    ensures
        r == (device && formats@.len() > 0 && offered),
{
    device && formats.len() > 0 && offered
}

impl DmaLayout {
    /// Whether a preview of this size is made on the graphics device.
    pub open spec fn sensible(self) -> bool {
        &&& 0 < self.width <= MAX_PREVIEW_SIDE
        &&& 0 < self.height <= MAX_PREVIEW_SIDE
        &&& self.width * self.height <= MAX_PREVIEW_PIXELS
    }
}

/// Turned displays are captured in shared memory.
pub fn check_upright(transform: Transform) -> (r: Result<(), Fault>)
    ensures
        transform == Transform::Normal ==> r is Ok,
        transform != Transform::Normal ==> (r matches Err(e) && e.says(
            ErrorCode::Unsupported,
            "旋转输出使用共享内存预览"@,
        )),
{
    match transform {
        Transform::Normal => Ok(()),
        _ => Err(Fault::unsupported("旋转输出使用共享内存预览")),
    }
}

/// The layout to capture into, if the compositor offers one within the limits.
pub fn dma_layout(offered: Option<DmaLayout>) -> (r: Result<DmaLayout, Fault>)
    ensures
        match offered {
            None => r matches Err(e) && e.says(
                ErrorCode::Unsupported,
                "输出不支持 DMA-BUF 截图"@,
            ),
            Some(layout) => if layout.sensible() {
                r == Ok::<DmaLayout, Fault>(layout)
            } else {
                r matches Err(e) && e.says(ErrorCode::Unsupported, "DMA-BUF 尺寸超出预览限制"@)
            },
        },
{
    match offered {
        None => Err(Fault::unsupported("输出不支持 DMA-BUF 截图")),
        Some(layout) => {
            assert(layout.width * layout.height <= 0xffff_ffff * 0xffff_ffff) by (nonlinear_arith)
                requires
                    layout.width <= 0xffff_ffff,
                    layout.height <= 0xffff_ffff,
            ;
            let pixels: u64 = layout.width as u64 * layout.height as u64;
            if layout.width == 0 || layout.height == 0 || layout.width > MAX_PREVIEW_SIDE
                || layout.height > MAX_PREVIEW_SIDE || pixels > MAX_PREVIEW_PIXELS {
                Err(Fault::unsupported("DMA-BUF 尺寸超出预览限制"))
            } else {
                Ok(layout)
            }
        },
    }
}

/// Whether a format is among others.
pub fn knows(formats: &Vec<DmaFormat>, format: DmaFormat) -> (r: bool)
    ensures
        r == formats@.contains(format),
{
    let mut i: usize = 0;
    while i < formats.len()
        invariant
            i <= formats@.len(),
            forall|j: int| 0 <= j < i ==> formats@[j] != format,
        decreases formats@.len() - i,
    {
        if formats[i] == format {
            assert(formats@[i as int] == format);
            return true;
        }
        i = i + 1;
    }
    false
}

/// The modifiers that both the compositor and the display toolkit know for a format, in the
/// order of the compositor.
pub open spec fn common(
    fourcc: u32,
    compositor: Seq<DmaFormat>,
    toolkit: Seq<DmaFormat>,
) -> Seq<DmaFormat> {
    compositor.filter(
        |f: DmaFormat|
            f.fourcc == fourcc && f.modifier != INVALID_MODIFIER && toolkit.contains(f),
    )
}

/// The modifiers to allocate a buffer with.
pub fn common_modifiers(
    fourcc: u32,
    compositor: &Vec<DmaFormat>,
    toolkit: &Vec<DmaFormat>,
) -> (r: Result<Vec<u64>, Fault>)
    ensures
        match r {
            Ok(v) => {
                &&& v@ == common(fourcc, compositor@, toolkit@).map_values(
                    |f: DmaFormat| f.modifier,
                )
                &&& v@.len() > 0
            },
            Err(e) => {
                &&& common(fourcc, compositor@, toolkit@).len() == 0
                &&& e.says(ErrorCode::Unsupported, "GTK 与合成器没有共同 DMA-BUF 格式"@)
            },
        },
{
    let ghost p = |f: DmaFormat|
        f.fourcc == fourcc && f.modifier != INVALID_MODIFIER && toolkit@.contains(f);
    let ghost m = |f: DmaFormat| f.modifier;
    let ghost all = compositor@;
    let mut out: Vec<u64> = Vec::new();
    let mut i: usize = 0;
    proof {
        reveal(Seq::filter);
        assert(all.take(0) =~= Seq::empty());
        assert(out@ =~= all.take(0).filter(p).map_values(m));
    }
    while i < compositor.len()
        invariant
            i <= compositor@.len(),
            all == compositor@,
            p == (|f: DmaFormat|
                f.fourcc == fourcc && f.modifier != INVALID_MODIFIER && toolkit@.contains(f)),
            m == (|f: DmaFormat| f.modifier),
            out@ == all.take(i as int).filter(p).map_values(m),
        decreases compositor@.len() - i,
    {
        proof {
            reveal(Seq::filter);
            assert(all.take(i + 1).drop_last() =~= all.take(i as int));
        }
        let f = compositor[i];
        let ghost was = all.take(i as int).filter(p);
        if f.fourcc == fourcc && f.modifier != INVALID_MODIFIER && knows(toolkit, f) {
            out.push(f.modifier);
            assert(out@ =~= was.push(f).map_values(m));
        }
        i = i + 1;
    }
    assert(all.take(i as int) =~= all);
    if out.len() == 0 {
        Err(Fault::unsupported("GTK 与合成器没有共同 DMA-BUF 格式"))
    } else {
        Ok(out)
    }
}

/// Checks what the device allocated: a known layout of one to four planes.
pub fn check_allocation(format: DmaFormat, planes: u32, toolkit: &Vec<DmaFormat>) -> (r: Result<
    (),
    Fault,
>)
    ensures
        if toolkit@.contains(format) && 1 <= planes <= 4 {
            r is Ok
        } else {
            r matches Err(e) && e.says(ErrorCode::Unsupported, "GBM 返回不支持的缓冲区布局"@)
        },
{
    if !knows(toolkit, format) || planes < 1 || planes > 4 {
        Err(Fault::unsupported("GBM 返回不支持的缓冲区布局"))
    } else {
        Ok(())
    }
}

/// Where to capture, or why not now.
pub fn dma_slot<T>(pool: &BufferPool<T>, available: &Vec<bool>) -> (r: Result<Slot, Fault>)
    requires
        available@.len() == pool.buffers@.len(),
    ensures
        match chosen(available@) {
            Some(slot) => r == Ok::<Slot, Fault>(slot),
            None => r matches Err(e) && e.says(ErrorCode::Busy, "GPU 帧仍被 GTK 持有"@),
        },
{
    match pool.slot(available) {
        Some(slot) => Ok(slot),
        None => Err(Fault::new(ErrorCode::Busy, "GPU 帧仍被 GTK 持有")),
    }
}

/// The import of a buffer into the compositor that is awaited.
pub struct Import {
    pub id: u64,
    pub outcome: Option<bool>,
}

impl Import {
    pub fn new() -> (r: Self)
        ensures
            r.id == 0,
            r.outcome is None,
    {
        Import { id: 0, outcome: None }
    }

    /// Awaits a new import; what earlier ones become does not matter any more.
    pub fn begin(&mut self) -> (r: u64)
        ensures
            r == crate::backend::wayland::next_revision(old(self).id),
            final(self).id == r,
            final(self).outcome is None,
    {
        self.id = if self.id == u64::MAX {
            0
        } else {
            self.id + 1
        };
        self.outcome = None;
        self.id
    }

    /// An import succeeded or failed. False if nobody awaits it, so that its buffer must go.
    pub fn finished(&mut self, id: u64, success: bool) -> (r: bool)
        ensures
            r == (id == old(self).id),
            final(self).id == old(self).id,
            final(self).outcome == (if r {
                Some(success)
            } else {
                old(self).outcome
            }),
    {
        if id == self.id {
            self.outcome = Some(success);
            true
        } else {
            false
        }
    }

    /// The awaited outcome: nothing while the import goes on.
    pub fn result(&self) -> (r: Option<Result<(), Fault>>)
        ensures
            match self.outcome {
                None => r is None,
                Some(true) => r matches Some(Ok(_)),
                Some(false) => r matches Some(Err(e)) && e.says(
                    ErrorCode::Unsupported,
                    "合成器无法导入 GPU 缓冲区"@,
                ),
            },
    {
        match self.outcome {
            None => None,
            Some(true) => Some(Ok(())),
            Some(false) => Some(Err(Fault::unsupported("合成器无法导入 GPU 缓冲区"))),
        }
    }
}

/// What follows a capture on the graphics device.
#[derive(Debug, Clone, Copy, PartialEq, Eq, Structural)]
pub enum AfterDma {
    /// Keep the device and hand the result on.
    Keep,
    /// Give the device up and capture in shared memory.
    FallBack,
}

/// A capture that was only interrupted keeps the device; any other failure gives it up.
pub fn after_dma(failure: Option<ErrorCode>) -> (r: AfterDma)
    ensures
        r == (match failure {
            None => AfterDma::Keep,
            Some(code) => if code == ErrorCode::Busy || code == ErrorCode::Paused {
                AfterDma::Keep
            } else {
                AfterDma::FallBack
            },
        }),
{
    match failure {
        None => AfterDma::Keep,
        Some(code) => {
            if code == ErrorCode::Busy || code == ErrorCode::Paused {
                AfterDma::Keep
            } else {
                AfterDma::FallBack
            }
        },
    }
}

} // verus!
