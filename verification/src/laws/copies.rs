//! Which buffers are written and shown when a display is copied.
use vstd::prelude::*;

use crate::backend::copying::{CopyEvent, CopyStep, Copying, DmaCopying, DmaEvent, DmaStep};
use crate::backend::dmabuf::{
    after_dma, check_allocation, check_upright, common, common_modifiers, dma_layout, dma_slot,
    dma_usable, knows, modifier_halves, modifier_of, AfterDma, DmaFormat, Import,
};
use crate::backend::frame::Image;
use crate::backend::wayland::{capture_slot, first_free, BufferKey, BufferPool, DmaLayout, Slot};
use crate::model::{ErrorCode, Fault};
use crate::picture::Transform;

verus! {

proof fn lemma_free(available: Seq<bool>)
    ensures
        first_free(available) <= available.len(),
        first_free(available) < available.len() ==> available[first_free(available) as int],
        forall|j: int| 0 <= j < first_free(available) ==> !(#[trigger] available[j]),
    decreases available.len(),
{
    if available.len() > 0 && !available[0] {
        let rest = available.drop_first();
        lemma_free(rest);
        assert forall|j: int| 0 <= j < first_free(available) implies !(
        #[trigger] available[j]) by {
            if j > 0 {
                assert(available[j] == rest[j - 1]);
            }
        }
    }
}

/// A capture goes into the first buffer that nobody uses, or into a new one while there are
/// fewer than four; when all four are in use, it waits.
pub proof fn captures_use_free_buffers<T>(
    pool: &BufferPool<T>,
    available: &Vec<bool>,
    r: Result<Slot, Fault>,
    dma: Result<Slot, Fault>,
)
    requires
        available@.len() == pool.buffers@.len(),
        call_ensures(capture_slot::<T>, (pool, available), r),
        call_ensures(dma_slot::<T>, (pool, available), dma),
        available@.len() <= 4,
    ensures
        r matches Ok(Slot::Reuse(i)) ==> i < available@.len() && available@[i as int] && forall|
            j: int,
        |
            0 <= j < i ==> !(#[trigger] available@[j]),
        (r matches Ok(Slot::Create)) <==> available@.len() < 4 && forall|j: int|
            0 <= j < available@.len() ==> !(#[trigger] available@[j]),
        r is Err <==> available@.len() == 4 && forall|j: int|
            0 <= j < 4 ==> !(#[trigger] available@[j]),
        r is Ok <==> dma is Ok,
        r is Ok ==> r->Ok_0 == dma->Ok_0,
        r matches Err(e) ==> e.code == ErrorCode::Busy
            && e.message@ == "显示缓冲区仍在使用，丢弃过时帧"@,
        dma matches Err(e) ==> e.code == ErrorCode::Busy
            && e.message@ == "GPU 帧仍被 GTK 持有"@,
{
    lemma_free(available@);
}

/// A copy asks for a frame, looks at the buffers, writes one that is free or new, and waits;
/// pixels are shown only when they are complete, and, if they follow damage, released.
pub proof fn copies_are_shown_when_complete<T>(
    before: BufferPool<T>,
    after: BufferPool<T>,
    damage: bool,
    was: Copying,
    event: CopyEvent<T>,
    r: (Copying, CopyStep),
)
    requires
        before.wf(),
        exists|p: &mut BufferPool<T>|
            *p == before && *final(p) == after && #[trigger] call_ensures(
                BufferPool::<T>::capture_raw,
                (p, damage, was, event),
                r,
            ),
    ensures
        was is Starting ==> r.1 is Begin && (damage ==> after.buffers@ == before.buffers@)
            && (!damage ==> after.buffers@.len() == 0),
        r.1 matches CopyStep::Show { layout, inverted } ==> {
            &&& was matches Copying::Waiting(c, _)
            &&& event matches CopyEvent::Waited(Ok((progress, released)))
            &&& layout == c.layout
            &&& inverted == progress.inverted
            &&& progress.frame_ready && !progress.frame_failed
            &&& damage ==> released
        },
        r.1 matches CopyStep::Write { slot, on_change } ==> {
            &&& r.0 matches Copying::Waiting(c, to)
            &&& to == slot
            &&& on_change <==> damage && c.version >= 2
            &&& was is Creating || (event matches CopyEvent::Free(available)
                && slot < available@.len() && available@[slot as int])
        },
        r.1 matches CopyStep::Create(layout, bytes) ==> bytes == layout.stride * layout.height
            && (was matches Copying::Choosing(c) && c.layout == layout),
        was is Waiting && (event matches CopyEvent::Waited(Ok((progress, released)))
            && progress.frame_ready && !progress.frame_failed && (damage ==> released)) ==> r.1
            is Show,
        was is Waiting && (event matches CopyEvent::Waited(Ok((progress, _)))
            && progress.frame_failed) ==> r.1 is Failed,
        after.buffers@.len() <= 4,
{
    if event is Free {
        lemma_free(event->Free_0@);
    }
}

/// A copy into a buffer of the graphics device is for upright displays; it is shown when it is
/// complete, released and not turned over, and goes where nobody looks.
pub proof fn device_copies_are_shown_when_complete<T>(
    before: BufferPool<T>,
    after: BufferPool<T>,
    transform: Transform,
    was: DmaCopying,
    event: DmaEvent<T>,
    r: (DmaCopying, DmaStep),
)
    requires
        before.wf(),
        exists|p: &mut BufferPool<T>|
            *p == before && *final(p) == after && #[trigger] call_ensures(
                BufferPool::<T>::capture_dma,
                (p, transform, was, event),
                r,
            ),
    ensures
        was is Starting ==> (r.1 is Begin <==> transform == Transform::Normal),
        r.1 matches DmaStep::Show(slot) ==> {
            &&& was == DmaCopying::Waiting(slot)
            &&& event matches DmaEvent::Waited(Ok((progress, released)))
            &&& progress.frame_ready && !progress.frame_failed && !progress.inverted && released
        },
        r.1 matches DmaStep::Write(slot) ==> {
            &&& r.0 == DmaCopying::Waiting(slot)
            &&& was is Creating || (event matches DmaEvent::Free(available) && slot
                < available@.len() && available@[slot as int])
        },
        r.1 matches DmaStep::Create(layout) ==> was == DmaCopying::Choosing(layout),
        was is Waiting && (event matches DmaEvent::Waited(Ok((progress, _)))
            && progress.frame_failed) ==> r.1 is Failed,
        after.buffers@.len() <= 4,
{
    if event is Free {
        lemma_free(event->Free_0@);
    }
}

/// A new buffer is kept last, under its own layout; buffers of another layout go.
pub proof fn buffers_are_kept_by_layout<T>(
    before: BufferPool<T>,
    kept: BufferPool<T>,
    key: BufferKey,
    cleared: BufferPool<T>,
    i: int,
    k: int,
)
    requires
        before.wf(),
        exists|p: &mut BufferPool<T>|
            *p == before && *final(p) == kept && #[trigger] call_ensures(
                BufferPool::<T>::retain,
                (p, key),
                (),
            ),
        exists|p: &mut BufferPool<T>|
            *p == before && *final(p) == cleared && #[trigger] call_ensures(
                BufferPool::<T>::clear,
                (p,),
                (),
            ),
        0 <= i < before.buffers@.len(),
        0 <= k < kept.buffers@.len(),
    ensures
        kept.buffers@[k].0 == key,
        before.buffers@[i].0 == key ==> kept.buffers@.contains(before.buffers@[i]),
        before.buffers@.contains(kept.buffers@[k]),
        cleared.buffers@.len() == 0,
{
    let f = |b: (BufferKey, T)| b.0 == key;
    before.buffers@.lemma_filter_pred(f, k);
    if before.buffers@[i].0 == key {
        before.buffers@.lemma_filter_contains(f, i);
    }
    assert(before.buffers@.filter(f).contains(before.buffers@.filter(f)[k]));
    before.buffers@.lemma_filter_contains_rev(f, kept.buffers@[k]);
}

/// A modifier is put together from its halves as it is taken apart.
pub proof fn modifiers_survive_their_halves(modifier: u64, halves: (u32, u32), r: u64)
    requires
        call_ensures(modifier_halves, (modifier,), halves),
        call_ensures(modifier_of, (halves.0, halves.1), r),
    ensures
        r == modifier,
        halves.0 * 0x1_0000_0000 + halves.1 == modifier,
{
}

/// The modifiers to allocate with are those of the format that both sides know, without the one
/// that stands for none.
pub proof fn modifiers_are_known_to_both_sides(
    fourcc: u32,
    compositor: &Vec<DmaFormat>,
    toolkit: &Vec<DmaFormat>,
    r: Result<Vec<u64>, Fault>,
    i: int,
    k: int,
)
    requires
        call_ensures(common_modifiers, (fourcc, compositor, toolkit), r),
        0 <= i < compositor@.len(),
    ensures
        r matches Ok(v) ==> (0 <= k < v@.len() ==> {
            let f = DmaFormat { fourcc, modifier: v@[k] };
            &&& compositor@.contains(f)
            &&& toolkit@.contains(f)
            &&& v@[k] != 0xff_ffff_ffff_ffff
        }),
        compositor@[i].fourcc == fourcc && compositor@[i].modifier != 0xff_ffff_ffff_ffff
            && toolkit@.contains(compositor@[i]) ==> (r matches Ok(v) && v@.contains(
            compositor@[i].modifier,
        )),
        r matches Err(e) ==> e.code == ErrorCode::Unsupported
            && e.message@ == "GTK 与合成器没有共同 DMA-BUF 格式"@,
{
    let f = |f: DmaFormat| f.fourcc == fourcc && f.modifier != 0xff_ffff_ffff_ffff
        && toolkit@.contains(f);
    let c = compositor@.filter(f);
    let g = |f: DmaFormat|
        f.fourcc == fourcc && f.modifier != crate::backend::dmabuf::INVALID_MODIFIER
            && toolkit@.contains(f);
    assert(f =~= g);
    assert(c == common(fourcc, compositor@, toolkit@));
    if r is Ok && 0 <= k < r->Ok_0@.len() {
        compositor@.lemma_filter_pred(f, k);
        assert(c.contains(c[k]));
        compositor@.lemma_filter_contains_rev(f, c[k]);
        assert(c[k] == DmaFormat { fourcc, modifier: r->Ok_0@[k] });
    }
    if f(compositor@[i]) {
        compositor@.lemma_filter_contains(f, i);
        let n = choose|n: int| 0 <= n < c.len() && c[n] == compositor@[i];
        assert(c.len() > 0);
        assert(r->Ok_0@[n] == compositor@[i].modifier);
    }
}

/// The graphics device is used if it is there and both sides offer something; for previews of
/// 8192 by 8192 at most and sixteen million pixels, upright, in a known layout of one to four
/// planes.
pub proof fn the_graphics_device_is_used_within_limits(
    device: bool,
    formats: &Vec<DmaFormat>,
    offered: bool,
    usable: bool,
    transform: Transform,
    upright: Result<(), Fault>,
    layout: DmaLayout,
    r: Result<DmaLayout, Fault>,
    none: Result<DmaLayout, Fault>,
    format: DmaFormat,
    planes: u32,
    known: bool,
    allocated: Result<(), Fault>,
)
    requires
        call_ensures(dma_usable, (device, formats, offered), usable),
        call_ensures(check_upright, (transform,), upright),
        call_ensures(dma_layout, (Some(layout),), r),
        call_ensures(dma_layout, (None::<DmaLayout>,), none),
        call_ensures(knows, (formats, format), known),
        call_ensures(check_allocation, (format, planes, formats), allocated),
    ensures
        usable <==> device && offered && formats@.len() > 0,
        upright is Ok <==> transform == Transform::Normal,
        r is Ok <==> 1 <= layout.width <= 8192 && 1 <= layout.height <= 8192 && layout.width
            * layout.height <= 4096 * 4096,
        r matches Ok(l) ==> l == layout,
        none is Err,
        known <==> exists|i: int| 0 <= i < formats@.len() && #[trigger] formats@[i] == format,
        allocated is Ok <==> known && 1 <= planes <= 4,
        upright matches Err(e) ==> e.code == ErrorCode::Unsupported
            && e.message@ == "旋转输出使用共享内存预览"@,
        r matches Err(e) ==> e.code == ErrorCode::Unsupported,
{
}

/// Only the import that is awaited counts; a failure other than an interruption gives the device
/// up.
pub proof fn only_the_awaited_import_counts(
    before: Import,
    after: Import,
    id: u64,
    success: bool,
    r: bool,
    outcome: Option<Result<(), Fault>>,
    failure: Option<ErrorCode>,
    then: AfterDma,
    begun: Import,
    number: u64,
)
    requires
        exists|i: &mut Import|
            *i == before && *final(i) == after && #[trigger] call_ensures(
                Import::finished,
                (i, id, success),
                r,
            ),
        call_ensures(Import::result, (&after,), outcome),
        call_ensures(after_dma, (failure,), then),
        exists|i: &mut Import|
            *i == before && *final(i) == begun && #[trigger] call_ensures(
                Import::begin,
                (i,),
                number,
            ),
    ensures
        r <==> id == before.id,
        r && success ==> (outcome matches Some(Ok(_))),
        r && !success ==> (outcome matches Some(Err(e)) && e.code == ErrorCode::Unsupported),
        !r ==> after.outcome == before.outcome,
        after.id == before.id,
        begun.outcome is None && begun.id == number && number != before.id,
        then == AfterDma::FallBack <==> (failure matches Some(code) && code != ErrorCode::Busy
            && code != ErrorCode::Paused),
{
}

/// An image has its own width and height, and travels as it is made.
pub proof fn images_have_their_own_size(image: Image, size: (u32, u32), how: &'static str)
    requires
        call_ensures(Image::size, (&image,), size),
        call_ensures(Image::transport, (&image,), how),
    ensures
        image matches Image::Memory { width, height } ==> size.0 == width && size.1 == height
            && how@ == "SHM"@,
        image matches Image::Dma { width, height } ==> size.0 == width && size.1 == height && how@
            == "DMA-BUF"@,
{
}

} // verus!
