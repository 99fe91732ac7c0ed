//! Which bytes of a buffer stand where in a picture.
use vstd::prelude::*;

use crate::backend::frame::{PixelFormat, RawFrame};
use crate::picture::{channel, orient, Transform};

verus! {

/// The four bytes of a pixel of a picture whose rows have no padding.
pub open spec fn pixel(bytes: Seq<u8>, width: int, x: int, y: int) -> Seq<u8> {
    bytes.subrange(4 * (y * width + x), 4 * (y * width + x) + 4)
}

pub(crate) proof fn lemma_pixel(bytes: Seq<u8>, width: int, height: int, x: int, y: int)
    requires
        0 <= x < width,
        0 <= y < height,
        bytes.len() == 4 * (width * height),
    ensures
        0 <= 4 * (y * width + x),
        4 * (y * width + x) + 4 <= bytes.len(),
        pixel(bytes, width, x, y) == seq![
            channel(bytes, width, x, y, 0),
            channel(bytes, width, x, y, 1),
            channel(bytes, width, x, y, 2),
            channel(bytes, width, x, y, 3),
        ],
{
    assert(0 <= y * width) by (nonlinear_arith)
        requires
            0 <= y,
            0 <= width,
    ;
    assert(y * width + x + 1 <= width * height) by (nonlinear_arith)
        requires
            0 <= x < width,
            0 <= y < height,
    ;
    assert(pixel(bytes, width, x, y) =~= seq![
        channel(bytes, width, x, y, 0),
        channel(bytes, width, x, y, 1),
        channel(bytes, width, x, y, 2),
        channel(bytes, width, x, y, 3),
    ]);
}

/// Column and row of a screenshot are those of the buffer: the pixel at a place has the red,
/// green and blue of the four bytes there, whatever their order, and is opaque.
pub proof fn screenshots_keep_every_pixel_in_its_place<'a>(
    frame: RawFrame<'a>,
    r: Vec<u8>,
    x: int,
    y: int,
)
    requires
        call_ensures(RawFrame::rgba, (&frame,), r),
        frame.width > 0,
        frame.stride >= 4 * frame.width,
        frame.pixels@.len() >= frame.stride * frame.height,
        0 <= x < frame.width,
        0 <= y < frame.height,
    ensures
        r@.len() == 4 * (frame.width * frame.height),
        ({
            let b = frame.pixels@.subrange(
                y * frame.stride + 4 * x,
                y * frame.stride + 4 * x + 4,
            );
            pixel(r@, frame.width as int, x, y) == (match frame.format {
                PixelFormat::Rgba => seq![b[0], b[1], b[2], 255],
                PixelFormat::Rgbx => seq![b[0], b[1], b[2], 255],
                PixelFormat::Bgra => seq![b[2], b[1], b[0], 255],
                PixelFormat::Bgrx => seq![b[2], b[1], b[0], 255],
            })
        }),
{
    let (w, h, s) = (frame.width as int, frame.height as int, frame.stride as int);
    lemma_pixel(r@, w, h, x, y);
    assert((y + 1) * s <= s * h) by (nonlinear_arith)
        requires
            0 <= y < h,
            s >= 0,
    ;
    assert((y + 1) * s == y * s + s) by (nonlinear_arith);
    assert(0 <= y * s) by (nonlinear_arith)
        requires
            0 <= y,
            0 <= s,
    ;
    assert(channel(r@, w, x, y, 0) == frame.shown(x, y, 0));
    assert(channel(r@, w, x, y, 1) == frame.shown(x, y, 1));
    assert(channel(r@, w, x, y, 2) == frame.shown(x, y, 2));
    assert(channel(r@, w, x, y, 3) == frame.shown(x, y, 3));
}

/// Where a pixel of a buffer is seen, once the buffer was turned upright: an output that stands
/// on its side shows its first row as its last column, and so on; one that is mirrored shows
/// its columns the other way round first.
pub open spec fn seen_at(width: int, height: int, transform: Transform, u: int, v: int) -> (
    int,
    int,
) {
    match transform {
        Transform::Normal => (u, v),
        Transform::Quarter => (height - 1 - v, u),
        Transform::Half => (width - 1 - u, height - 1 - v),
        Transform::ThreeQuarters => (v, width - 1 - u),
        Transform::Flipped => (width - 1 - u, v),
        Transform::FlippedQuarter => (height - 1 - v, width - 1 - u),
        Transform::FlippedHalf => (u, height - 1 - v),
        Transform::FlippedThreeQuarters => (v, u),
    }
}

/// Every pixel of a buffer is seen, unchanged, where the way that the output stands puts it.
pub proof fn turned_buffers_show_every_pixel(
    pixels: Vec<u8>,
    width: u32,
    height: u32,
    transform: Transform,
    r: (Vec<u8>, u32, u32),
    u: int,
    v: int,
)
    requires
        call_ensures(orient, (pixels, width, height, transform), r),
        pixels@.len() == 4 * (width * height),
        0 <= u < width,
        0 <= v < height,
    ensures
        r.0@.len() == 4 * (r.1 * r.2),
        r.1 * r.2 == width * height,
        (transform is Normal || transform is Half || transform is Flipped || transform
            is FlippedHalf) ==> r.1 == width && r.2 == height,
        (transform is Quarter || transform is ThreeQuarters || transform is FlippedQuarter
            || transform is FlippedThreeQuarters) ==> r.1 == height && r.2 == width,
        ({
            let (x, y) = seen_at(width as int, height as int, transform, u, v);
            pixel(r.0@, r.1 as int, x, y) == pixel(pixels@, width as int, u, v)
        }),
{
    let (w, h) = (width as int, height as int);
    let (x, y) = seen_at(w, h, transform, u, v);
    assert(width * height == height * width) by (nonlinear_arith);
    lemma_pixel(pixels@, w, h, u, v);
    lemma_pixel(r.0@, r.1 as int, r.2 as int, x, y);
    assert(channel(r.0@, r.1 as int, x, y, 0) == channel(pixels@, w, u, v, 0));
    assert(channel(r.0@, r.1 as int, x, y, 1) == channel(pixels@, w, u, v, 1));
    assert(channel(r.0@, r.1 as int, x, y, 2) == channel(pixels@, w, u, v, 2));
    assert(channel(r.0@, r.1 as int, x, y, 3) == channel(pixels@, w, u, v, 3));
}

} // verus!
