//! What a captured display or window looks like.
use vstd::prelude::*;

use crate::backend::frame::PixelFormat;
use crate::backend::portal::WindowFrame;
use crate::backend::wayland::{
    binding, buffer_available, finish_in, frame_patience, input_setup, same_revision, Bound,
    ByteOrder, Capture, FrameEvent, InputPhase, InputSetup, Interface, Layout, Output, OutputEvent,
    Outputs, Progress, ShmFormat, Shown,
};
use crate::laws::pictures::{lemma_pixel, pixel, seen_at};
use crate::model::{ErrorCode, Fault};
use crate::picture::{channel, Transform};

verus! {

/// The word that four bytes make.
pub open spec fn word(b: Seq<u8>, order: ByteOrder) -> int {
    match order {
        ByteOrder::Little => b[0] + 256 * b[1] + 65536 * b[2] + 16777216 * b[3],
        ByteOrder::Big => b[3] + 256 * b[2] + 65536 * b[1] + 16777216 * b[0],
    }
}

/// The colour that a word stands for: eight bits each for alpha, red, green and blue from the
/// highest down, or for alpha, blue, green and red.
pub open spec fn colour(w: int, format: ShmFormat) -> Seq<int> {
    match format {
        ShmFormat::Argb8888 => seq![w / 65536 % 256, w / 256 % 256, w % 256, 255],
        ShmFormat::Xrgb8888 => seq![w / 65536 % 256, w / 256 % 256, w % 256, 255],
        _ => seq![w % 256, w / 256 % 256, w / 65536 % 256, 255],
    }
}

proof fn lemma_word(b: Seq<u8>, order: ByteOrder)
    requires
        b.len() == 4,
    ensures
        order is Little ==> word(b, order) % 256 == b[0] && word(b, order) / 256 % 256 == b[1]
            && word(b, order) / 65536 % 256 == b[2],
        order is Big ==> word(b, order) % 256 == b[3] && word(b, order) / 256 % 256 == b[2]
            && word(b, order) / 65536 % 256 == b[1],
{
    let (p, q, s, t) = if order is Little {
        (b[0] as int, b[1] as int, b[2] as int, b[3] as int)
    } else {
        (b[3] as int, b[2] as int, b[1] as int, b[0] as int)
    };
    let w = p + 256 * q + 65536 * s + 16777216 * t;
    assert(w % 256 == p && w / 256 % 256 == q && w / 65536 % 256 == s) by (nonlinear_arith)
        requires
            w == p + 256 * q + 65536 * s + 16777216 * t,
            0 <= p < 256,
            0 <= q < 256,
            0 <= s < 256,
            0 <= t < 256,
    ;
}

/// The bytes of the pixel in a column and a row that a capture shows: a capture that stands on
/// its head has its last row first.
pub open spec fn captured<'a>(c: Capture<'a>, u: int, v: int) -> Seq<u8> {
    let row = if c.inverted {
        c.height - 1 - v
    } else {
        v
    };
    c.bytes@.subrange(row * c.stride + 4 * u, row * c.stride + 4 * u + 4)
}

/// Whether a capture holds all of its rows.
pub open spec fn whole<'a>(c: Capture<'a>) -> bool {
    c.stride >= 4 * c.width && c.bytes@.len() >= c.stride * c.height
}

proof fn lemma_whole<'a>(c: Capture<'a>, u: int, v: int)
    requires
        whole(c),
        0 <= u < c.width,
        0 <= v < c.height,
    ensures
        c.complete(),
        captured(c, u, v).len() == 4,
        forall|k: int| 0 <= k < 4 ==> #[trigger] captured(c, u, v)[k] == c.bytes@[c.place(u, v) + k],
{
    assert forall|x: int, y: int| 0 <= x < c.width && 0 <= y < c.height implies 0 <= #[trigger] c.place(x, y)
        && c.place(x, y) + 4 <= c.bytes@.len() by {
        let row = if c.inverted {
            c.height - 1 - y
        } else {
            y
        };
        assert((row + 1) * c.stride <= c.stride * c.height) by (nonlinear_arith)
            requires
                0 <= row < c.height,
                c.stride >= 0,
        ;
        assert((row + 1) * c.stride == row * c.stride + c.stride) by (nonlinear_arith);
        assert(0 <= row * c.stride) by (nonlinear_arith)
            requires
                0 <= row,
                0 <= c.stride,
        ;
    }
    assert(c.place(u, v) + 4 <= c.bytes@.len());
}

/// A capture is read pixel by pixel: each one stands where it was captured and has the colour
/// that its word stands for, and is opaque.
pub proof fn captures_keep_colour_and_place<'a>(
    c: Capture<'a>,
    order: ByteOrder,
    r: Result<Vec<u8>, Fault>,
    u: int,
    v: int,
)
    requires
        call_ensures(Capture::decode_in, (&c, order), r),
        whole(c),
        0 <= u < c.width,
        0 <= v < c.height,
    ensures
        c.format == ShmFormat::Other ==> (r matches Err(e) && e.code == ErrorCode::Unsupported
            && e.message@ == "不支持的 SHM 像素格式"@),
        c.format != ShmFormat::Other ==> (r matches Ok(p) && p@.len() == 4 * (c.width * c.height)
            && pixel(p@, c.width as int, u, v).map_values(|b: u8| b as int) == colour(
            word(captured(c, u, v), order),
            c.format,
        )),
{
    lemma_whole(c, u, v);
    if c.format != ShmFormat::Other {
        let p = r->Ok_0@;
        let w = c.width as int;
        lemma_pixel(p, w, c.height as int, u, v);
        let b = captured(c, u, v);
        lemma_word(b, order);
        assert(b[0] == c.bytes@[c.place(u, v) + 0]);
        assert(b[1] == c.bytes@[c.place(u, v) + 1]);
        assert(b[2] == c.bytes@[c.place(u, v) + 2]);
        assert(b[3] == c.bytes@[c.place(u, v) + 3]);
        assert(channel(p, w, u, v, 0) == c.shown(order, u, v, 0));
        assert(channel(p, w, u, v, 1) == c.shown(order, u, v, 1));
        assert(channel(p, w, u, v, 2) == c.shown(order, u, v, 2));
        assert(channel(p, w, u, v, 3) == c.shown(order, u, v, 3));
        assert(pixel(p, w, u, v).map_values(|b: u8| b as int) =~= colour(
            word(b, order),
            c.format,
        ));
    }
}

/// A finished capture is shown as it is only where it stands upright and its bytes are in the
/// order that displays take, and is then named by that order; otherwise every pixel is shown
/// where the display puts it, with its own colour.
pub proof fn finished_captures_are_upright<'a>(
    c: &Capture<'a>,
    transform: Transform,
    order: ByteOrder,
    r: Result<Shown, Fault>,
    u: int,
    v: int,
)
    requires
        call_ensures(finish_in, (c, transform, order), r),
        whole(*c),
        0 <= u < c.width,
        0 <= v < c.height,
    ensures
        c.format == ShmFormat::Other <==> r is Err,
        r matches Ok(Shown::Direct(format)) ==> {
            &&& order is Little && transform is Normal && !c.inverted
            &&& c.format == ShmFormat::Argb8888 ==> format == PixelFormat::Bgra
            &&& c.format == ShmFormat::Xrgb8888 ==> format == PixelFormat::Bgrx
            &&& c.format == ShmFormat::Abgr8888 ==> format == PixelFormat::Rgba
            &&& c.format == ShmFormat::Xbgr8888 ==> format == PixelFormat::Rgbx
        },
        r matches Ok(Shown::Converted(p, width, height)) ==> {
            let (x, y) = seen_at(c.width as int, c.height as int, transform, u, v);
            &&& p@.len() == 4 * (width * height)
            &&& width * height == c.width * c.height
            &&& 0 <= x < width
            &&& 0 <= y < height
            &&& pixel(p@, width as int, x, y).map_values(|b: u8| b as int) == colour(
                word(captured(*c, u, v), order),
                c.format,
            )
        },
{
    lemma_whole(*c, u, v);
    if r matches Ok(Shown::Converted(..)) {
        let p = r->Ok_0->Converted_0@;
        let width = r->Ok_0->Converted_1 as int;
        let height = r->Ok_0->Converted_2 as int;
        assert(c.width * c.height == c.height * c.width) by (nonlinear_arith);
        let (x, y) = seen_at(c.width as int, c.height as int, transform, u, v);
        lemma_pixel(p, width, height, x, y);
        let b = captured(*c, u, v);
        lemma_word(b, order);
        assert(b[0] == c.bytes@[c.place(u, v) + 0]);
        assert(b[1] == c.bytes@[c.place(u, v) + 1]);
        assert(b[2] == c.bytes@[c.place(u, v) + 2]);
        assert(b[3] == c.bytes@[c.place(u, v) + 3]);
        assert(channel(p, width, x, y, 0) == c.shown(order, u, v, 0));
        assert(channel(p, width, x, y, 1) == c.shown(order, u, v, 1));
        assert(channel(p, width, x, y, 2) == c.shown(order, u, v, 2));
        assert(channel(p, width, x, y, 3) == c.shown(order, u, v, 3));
        assert(pixel(p, width, x, y).map_values(|b: u8| b as int) =~= colour(
            word(b, order),
            c.format,
        ));
    }
}

/// A frame of a window keeps every pixel in its place, without what pads its rows.
pub proof fn window_frames_keep_every_pixel_in_its_place<'a>(
    f: WindowFrame<'a>,
    r: Result<Vec<u8>, Fault>,
    x: int,
    y: int,
)
    requires
        call_ensures(WindowFrame::pixels, (&f,), r),
        0 < f.width <= 16384,
        0 < f.height <= 16384,
        f.width * f.height <= 64 * 1024 * 1024,
        f.stride >= 4 * f.width,
        f.plane@.len() >= f.stride * f.height,
        0 <= x < f.width,
        0 <= y < f.height,
    ensures
        r matches Ok(p) && p@.len() == 4 * (f.width * f.height) && pixel(p@, f.width as int, x, y)
            == f.plane@.subrange(y * f.stride + 4 * x, y * f.stride + 4 * x + 4),
{
    assert forall|v: int| 0 <= v < f.height implies #[trigger] f.whole(v) by {
        assert((v + 1) * f.stride <= f.stride * f.height) by (nonlinear_arith)
            requires
                0 <= v < f.height,
                f.stride >= 0,
        ;
        assert((v + 1) * f.stride == v * f.stride + f.stride) by (nonlinear_arith);
    }
    assert(f.complete());
    assert(!f.torn());
    let p = r->Ok_0@;
    let w = f.width as int;
    lemma_pixel(p, w, f.height as int, x, y);
    assert(f.whole(y));
    assert(0 <= y * f.stride) by (nonlinear_arith)
        requires
            0 <= y,
            0 <= f.stride,
    ;
    assert(channel(p, w, x, y, 0) == f.plane@[y * f.stride + x * 4 + 0]);
    assert(channel(p, w, x, y, 1) == f.plane@[y * f.stride + x * 4 + 1]);
    assert(channel(p, w, x, y, 2) == f.plane@[y * f.stride + x * 4 + 2]);
    assert(channel(p, w, x, y, 3) == f.plane@[y * f.stride + x * 4 + 3]);
    assert(pixel(p, w, x, y) =~= f.plane@.subrange(
        y * f.stride + 4 * x,
        y * f.stride + 4 * x + 4,
    ));
}

/// A frame of a window that is empty, too large, or has rows too short for its width is refused.
pub proof fn window_frames_have_limits<'a>(f: WindowFrame<'a>, r: Result<Vec<u8>, Fault>)
    requires
        call_ensures(WindowFrame::pixels, (&f,), r),
    ensures
        r is Ok ==> {
            &&& 0 < f.width <= 16384
            &&& 0 < f.height <= 16384
            &&& f.width * f.height <= 64 * 1024 * 1024
            &&& f.stride >= 4 * f.width
            &&& f.plane@.len() >= (f.height - 1) * f.stride + 4 * f.width
        },
        r matches Err(e) ==> e.code == ErrorCode::BackendUnavailable,
{
    if r is Ok {
        assert(f.whole(f.height - 1));
    }
}

/// What is said of one display changes that display in what was said, and no other; the size of
/// a mode that is not the current one changes nothing, and no size is below zero.
pub proof fn displays_are_what_was_said_of_them(
    before: Outputs,
    after: Outputs,
    global: u32,
    event: OutputEvent,
    i: int,
    j: int,
)
    requires
        exists|o: &mut Outputs|
            *o == before && *final(o) == after && #[trigger] call_ensures(
                Outputs::update,
                (o, global, event),
                (),
            ),
        before.wf(),
        0 <= i < before.list@.len(),
        before.list@[i].global == global,
        0 <= j < before.list@.len(),
        j != i,
    ensures
        after.list@.len() == before.list@.len(),
        after.list@[j] == before.list@[j],
        after.list@[i].global == global,
        ({
            let (a, b) = (before.list@[i], after.list@[i]);
            &&& event matches OutputEvent::Name(n) ==> b.name == n
            &&& !(event is Name) ==> b.name == a.name
            &&& event matches OutputEvent::Scale(s) ==> b.scale == s
            &&& !(event is Scale) ==> b.scale == a.scale
            &&& event matches OutputEvent::Geometry(t) ==> b.transform == t
            &&& !(event is Geometry) ==> b.transform == a.transform
            &&& event matches OutputEvent::Mode { current, width, height } ==> {
                &&& !current ==> b.width == a.width && b.height == a.height
                &&& current && width >= 0 ==> b.width == width
                &&& current && height >= 0 ==> b.height == height
                &&& current && width < 0 ==> b.width == 0
                &&& current && height < 0 ==> b.height == 0
            }
            &&& !(event is Mode) ==> b.width == a.width && b.height == a.height
            &&& (after.revision == before.revision) <==> a.name@ == b.name@ && a.width == b.width
                && a.height == b.height && a.scale == b.scale && a.transform == b.transform
        }),
{
    assert(before.has(global));
}

/// A display that stands on its side shows its height as its width.
pub proof fn displays_on_their_side_exchange_their_sizes(o: Output, r: (u32, u32))
    requires
        call_ensures(Output::image_size, (&o,), r),
    ensures
        o.transform is Normal || o.transform is Half || o.transform is Flipped || o.transform
            is FlippedHalf <==> r == (o.width, o.height) && !(o.transform is Quarter || o.transform
            is ThreeQuarters || o.transform is FlippedQuarter || o.transform
            is FlippedThreeQuarters),
        o.transform is Quarter || o.transform is ThreeQuarters || o.transform is FlippedQuarter
            || o.transform is FlippedThreeQuarters ==> r == (o.height, o.width),
{
}

/// What is bound of the compositor's offers, by their names, and in no later version than is
/// understood.
pub proof fn offers_are_bound_by_their_names(
    interface: &str,
    version: u32,
    have_seat: bool,
    r: Option<(Interface, u32)>,
)
    requires
        call_ensures(binding, (interface, version, have_seat), r),
    ensures
        interface@ == "wl_output"@ ==> (r matches Some(b) && b.0 is Output && b.1 <= 4 && b.1
            <= version && (b.1 == 4 || b.1 == version)),
        interface@ == "wl_seat"@ ==> if have_seat {
            r is None
        } else {
            r matches Some(b) && b.0 is Seat && b.1 <= 7 && b.1 <= version && (b.1 == 7 || b.1
                == version)
        },
        interface@ == "wl_shm"@ ==> r == Some((Interface::Shm, 1u32)),
        interface@ == "zwp_linux_dmabuf_v1"@ ==> if version < 3 {
            r is None
        } else {
            r == Some((Interface::Dmabuf, 3u32))
        },
        interface@ == "zwlr_screencopy_manager_v1"@ ==> (r matches Some(b) && b.0 is Screencopy
            && b.1 <= 3 && b.1 <= version && (b.1 == 3 || b.1 == version)),
        interface@ == "zwlr_virtual_pointer_manager_v1"@ ==> (r matches Some(b) && b.0 is Pointers
            && b.1 <= 2 && b.1 <= version && (b.1 == 2 || b.1 == version)),
        interface@ == "zwp_virtual_keyboard_manager_v1"@ ==> r == Some((Interface::Keyboards, 1u32)),
        r is Some ==> {
            ||| interface@ == "wl_output"@
            ||| interface@ == "wl_seat"@
            ||| interface@ == "wl_shm"@
            ||| interface@ == "zwp_linux_dmabuf_v1"@
            ||| interface@ == "zwlr_screencopy_manager_v1"@
            ||| interface@ == "zwlr_virtual_pointer_manager_v1"@
            ||| interface@ == "zwp_virtual_keyboard_manager_v1"@
        },
{
    reveal_strlit("wl_output");
    reveal_strlit("wl_seat");
    reveal_strlit("wl_shm");
    reveal_strlit("zwp_linux_dmabuf_v1");
    reveal_strlit("zwlr_screencopy_manager_v1");
    reveal_strlit("zwlr_virtual_pointer_manager_v1");
    reveal_strlit("zwp_virtual_keyboard_manager_v1");
    assert("wl_output"@.len() == 9 && "wl_seat"@.len() == 7 && "wl_shm"@.len() == 6);
    assert("zwp_linux_dmabuf_v1"@.len() == 19 && "zwlr_screencopy_manager_v1"@.len() == 26);
    assert("zwlr_virtual_pointer_manager_v1"@[2] == 'l');
    assert("zwp_virtual_keyboard_manager_v1"@[2] == 'p');
}

/// Input needs a seat, virtual keyboards, and virtual pointers of the second version; capture
/// needs screencopy and shared memory.
pub proof fn support_is_what_is_bound(b: Bound, send: bool, capture: bool)
    requires
        call_ensures(Bound::input_supported, (&b,), send),
        call_ensures(Bound::capture_supported, (&b,), capture),
    ensures
        send <==> b.seat && b.keyboards && b.pointers is Some && b.pointers->0 >= 2,
        capture <==> b.screencopy && b.shm,
{
}

/// Devices serve one display: they are kept for it, and a new pointer is made for another.
pub proof fn devices_serve_one_display(
    serving: Option<u32>,
    global: u32,
    b: &Bound,
    r: Result<InputSetup, Fault>,
)
    requires
        call_ensures(input_setup, (serving, global, b), r),
    ensures
        serving == Some(global) <==> r == Ok::<InputSetup, Fault>(InputSetup::Keep),
        serving != Some(global) ==> {
            let able = b.seat && b.keyboards && b.pointers is Some && b.pointers->0 >= 2;
            &&& r is Ok <==> able
            &&& able && serving is Some ==> r == Ok::<InputSetup, Fault>(InputSetup::NewPointer)
            &&& able && serving is None ==> r == Ok::<InputSetup, Fault>(InputSetup::NewDevices)
        },
{
}

/// Input stops once a display changed.
pub proof fn input_stops_where_displays_changed(
    began: u64,
    now: u64,
    phase: InputPhase,
    r: Result<(), Fault>,
)
    requires
        call_ensures(same_revision, (began, now, phase), r),
    ensures
        r is Ok <==> began == now,
        r matches Err(e) ==> e.code == ErrorCode::StaleTarget,
{
}

/// A buffer is captured into only if it is neither empty nor too large, and its size is that of
/// all its rows.
pub proof fn buffers_have_limits(l: Layout, r: Result<u64, Fault>)
    requires
        call_ensures(Layout::buffer_size, (&l,), r),
    ensures
        r is Ok <==> {
            &&& 1 <= l.width <= 16384
            &&& 1 <= l.height <= 16384
            &&& l.stride >= 4 * l.width
            &&& l.stride * l.height <= 256 * 1024 * 1024
        },
        r matches Ok(size) ==> size == l.stride * l.height,
{
}

/// A buffer is written again only once the compositor released it and nobody else holds it.
pub proof fn lent_buffers_are_not_written(released: bool, holders: usize, r: bool)
    requires
        call_ensures(buffer_available, (released, holders), r),
    ensures
        r <==> released && holders == 1,
{
}

/// What the compositor says of the present capture is noted, each as what it is; what it says of
/// another is not.
pub proof fn captures_hear_what_concerns_them(
    before: Progress,
    after: Progress,
    id: u64,
    event: FrameEvent,
)
    requires
        exists|p: &mut Progress|
            *p == before && *final(p) == after && #[trigger] call_ensures(
                Progress::event,
                (p, id, event),
                (),
            ),
    ensures
        after.capture_id == before.capture_id,
        id != before.capture_id ==> after == before,
        id == before.capture_id ==> {
            &&& event matches FrameEvent::Buffer(l) ==> after.dimensions == Some(l)
            &&& !(event is Buffer) ==> after.dimensions == before.dimensions
            &&& event matches FrameEvent::LinuxDmabuf(l) ==> after.dma_dimensions == Some(l)
            &&& !(event is LinuxDmabuf) ==> after.dma_dimensions == before.dma_dimensions
            &&& after.formats_done == (before.formats_done || event is BufferDone)
            &&& after.frame_ready == (before.frame_ready || event is Ready)
            &&& after.frame_failed == (before.frame_failed || event is Failed)
            &&& event matches FrameEvent::Flags { inverted } ==> after.inverted == inverted
            &&& !(event is Flags) ==> after.inverted == before.inverted
        },
{
}

/// A capture begins with nothing known, under a number of its own.
pub proof fn captures_begin_afresh(before: Progress, after: Progress, r: u64)
    requires
        exists|p: &mut Progress|
            *p == before && *final(p) == after && #[trigger] call_ensures(
                Progress::begin,
                (p,),
                r,
            ),
    ensures
        r == after.capture_id,
        r != before.capture_id,
        after.dimensions is None && after.dma_dimensions is None,
        !after.formats_done && !after.frame_ready && !after.frame_failed && !after.inverted,
{
}

/// A copy is complete once the frame is ready and, where its buffer is to be used again, was
/// released; a frame that failed is never shown.
pub proof fn copies_are_complete_when_ready(
    p: Progress,
    damage: bool,
    released: bool,
    version: u32,
    negotiated: Option<Result<(), Fault>>,
    memory: Option<Result<(), Fault>>,
    device: Option<Result<(), Fault>>,
)
    requires
        call_ensures(Progress::negotiation, (&p, version), negotiated),
        call_ensures(Progress::copied, (&p, damage, released), memory),
        call_ensures(Progress::copied_dma, (&p, released), device),
    ensures
        (memory matches Some(Ok(_))) <==> p.frame_ready && !p.frame_failed && (!damage || released),
        (memory matches Some(Err(_))) <==> p.frame_failed,
        (device matches Some(Ok(_))) <==> p.frame_ready && !p.frame_failed && released
            && !p.inverted,
        device is None <==> !p.frame_failed && !(p.frame_ready && released),
        (negotiated matches Some(Ok(_))) <==> !p.frame_failed && p.dimensions is Some && (version < 3
            || p.formats_done),
        (negotiated matches Some(Err(_))) <==> p.frame_failed,
{
}

/// A still picture is waited for an hour, a single one four seconds.
pub proof fn still_pictures_are_waited_for(damage: bool, r: u64)
    requires
        call_ensures(frame_patience, (damage,), r),
    ensures
        damage ==> r == 60 * 60,
        !damage ==> r == 4,
{
}

} // verus!
