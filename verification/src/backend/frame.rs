//! Captured frames before any encoding.
use vstd::prelude::*;

use crate::picture::{channel, fits};

verus! {

/// What a frame for display is made of, and its size.
#[derive(Clone, Copy, Debug, PartialEq, Eq, Structural)]
pub enum Image {
    /// Pixels in shared memory.
    Memory { width: u32, height: u32 },
    /// A buffer of the graphics device.
    Dma { width: u32, height: u32 },
}

impl Image {
    pub open spec fn extent(self) -> (u32, u32) {
        match self {
            Image::Memory { width, height } => (width, height),
            Image::Dma { width, height } => (width, height),
        }
    }

    /// Width and height.
    pub fn size(&self) -> (r: (u32, u32))
        ensures
            r == self.extent(),
    {
        match self {
            Image::Memory { width, height } => (*width, *height),
            Image::Dma { width, height } => (*width, *height),
        }
    }

    /// How the frame travels, as shown to the user.
    pub fn transport(&self) -> (r: &'static str)
        ensures
            r@ == (match *self {
                Image::Memory { .. } => "SHM"@,
                Image::Dma { .. } => "DMA-BUF"@,
            }),
    {
        match self {
            Image::Memory { .. } => "SHM",
            Image::Dma { .. } => "DMA-BUF",
        }
    }
}

/// Order of the bytes of a pixel.
#[derive(Clone, Copy, Debug, PartialEq, Eq, Structural)]
pub enum PixelFormat {
    Bgra,
    Bgrx,
    Rgba,
    Rgbx,
}

/// Place of red in a pixel; blue stands at the place across.
pub open spec fn red_place(format: PixelFormat) -> int {
    match format {
        PixelFormat::Bgra => 2,
        PixelFormat::Bgrx => 2,
        PixelFormat::Rgba => 0,
        PixelFormat::Rgbx => 0,
    }
}

/// Pixels in rows of a given number of bytes.
pub struct RawFrame<'a> {
    pub pixels: &'a [u8],
    pub width: u32,
    pub height: u32,
    pub stride: u32,
    pub format: PixelFormat,
}

impl<'a> RawFrame<'a> {
    /// Byte `c` of an opaque RGBA picture of the frame. What lies beyond the last whole row,
    /// or beyond the end of a row, is transparent black.
    pub open spec fn shown(self, x: int, y: int, c: int) -> u8 {
        if (y + 1) * self.stride <= self.pixels@.len() && (x + 1) * 4 <= self.stride {
            let at = y * self.stride + x * 4;
            if c == 0 {
                self.pixels@[at + red_place(self.format)]
            } else if c == 1 {
                self.pixels@[at + 1]
            } else if c == 2 {
                self.pixels@[at + 2 - red_place(self.format)]
            } else {
                255
            }
        } else {
            0
        }
    }

    /// An RGBA picture of the frame. Only screenshots and turned outputs need this.
    pub fn rgba(&self) -> (r: Vec<u8>)
        requires
            self.stride > 0,
            self.width > 0,
            4 * (self.width * self.height) <= usize::MAX,
        ensures
            fits(r@, self.width as int, self.height as int),
            forall|x: int, y: int, c: int|
                0 <= x < self.width && 0 <= y < self.height && 0 <= c < 4 ==> #[trigger] channel(
                    r@,
                    self.width as int,
                    x,
                    y,
                    c,
                ) == self.shown(x, y, c),
    {
        let stride: usize = self.stride as usize;
        let total: usize = self.pixels.len();
        let rows: usize = total / stride;
        let columns: usize = stride / 4;
        let width: usize = self.width as usize;
        let height: usize = self.height as usize;
        let mut out: Vec<u8> = Vec::new();
        let mut y: usize = 0;
        while y < height
            invariant
                self.stride > 0,
                stride == self.stride,
                width == self.width,
                height == self.height,
                total == self.pixels@.len(),
                rows == self.pixels@.len() / (stride as nat),
                columns == stride / 4,
                y <= height,
                out@.len() == (y * width) * 4,
                forall|x: int, v: int, c: int|
                    0 <= x < width && 0 <= v < y && 0 <= c < 4 ==> #[trigger] channel(
                        out@,
                        width as int,
                        x,
                        v,
                        c,
                    ) == self.shown(x, v, c),
            decreases height - y,
        {
            let mut x: usize = 0;
            let ghost before = out@;
            while x < width
                invariant
                    self.stride > 0,
                    stride == self.stride,
                    width == self.width,
                    height == self.height,
                    total == self.pixels@.len(),
                    rows == self.pixels@.len() / (stride as nat),
                    columns == stride / 4,
                    x <= width,
                    y < height,
                    before.len() == (y * width) * 4,
                    out@.len() == (y * width + x) * 4,
                    out@.take(before.len() as int) == before,
                    forall|u: int, c: int|
                        0 <= u < x && 0 <= c < 4 ==> #[trigger] channel(
                            out@,
                            width as int,
                            u,
                            y as int,
                            c,
                        ) == self.shown(u, y as int, c),
                decreases width - x,
            {
                let ghost prior = out@;
                proof {
                    lemma_rows(y as int, rows as int, stride as int, self.pixels@.len() as int);
                }
                if y < rows && x < columns {
                    proof {
                        assert(y * stride + x * 4 + 3 < self.pixels@.len()) by (nonlinear_arith)
                            requires
                                (y + 1) * stride <= self.pixels@.len(),
                                x * 4 + 4 <= stride,
                        ;
                        assert(y * stride >= 0) by (nonlinear_arith);
                    }
                    let at: usize = y * stride + x * 4;
                    let first: u8 = self.pixels[at];
                    let third: u8 = self.pixels[at + 2];
                    let swapped = match self.format {
                        PixelFormat::Bgra => true,
                        PixelFormat::Bgrx => true,
                        PixelFormat::Rgba => false,
                        PixelFormat::Rgbx => false,
                    };
                    if swapped {
                        out.push(third);
                        out.push(self.pixels[at + 1]);
                        out.push(first);
                    } else {
                        out.push(first);
                        out.push(self.pixels[at + 1]);
                        out.push(third);
                    }
                    out.push(255);
                } else {
                    out.push(0);
                    out.push(0);
                    out.push(0);
                    out.push(0);
                }
                proof {
                    assert forall|u: int, c: int| 0 <= u < x + 1 && 0 <= c < 4 implies #[trigger] channel(
                        out@,
                        width as int,
                        u,
                        y as int,
                        c,
                    ) == self.shown(u, y as int, c) by {
                        if u < x {
                            assert(channel(out@, width as int, u, y as int, c) == channel(
                                prior,
                                width as int,
                                u,
                                y as int,
                                c,
                            ));
                        } else {
                            assert((y * width + u) * 4 + c == prior.len() + c);
                        }
                    }
                    assert(out@.take(before.len() as int) =~= prior.take(before.len() as int)) by {
                        assert(before.len() <= prior.len()) by (nonlinear_arith)
                            requires
                                before.len() == (y * width) * 4,
                                prior.len() == (y * width + x) * 4,
                        ;
                    }
                }
                x = x + 1;
            }
            proof {
                assert((y * width + width) * 4 == ((y + 1) * width) * 4) by (nonlinear_arith);
                assert forall|u: int, v: int, c: int|
                    0 <= u < width && 0 <= v < y + 1 && 0 <= c < 4 implies #[trigger] channel(
                    out@,
                    width as int,
                    u,
                    v,
                    c,
                ) == self.shown(u, v, c) by {
                    if v < y {
                        lemma_earlier(width as int, u, v, y as int, c);
                        assert(channel(out@, width as int, u, v, c) == channel(
                            out@.take(before.len() as int),
                            width as int,
                            u,
                            v,
                            c,
                        ));
                    } else {
                        assert(v == y);
                    }
                }
            }
            y = y + 1;
        }
        proof {
            assert((height * width) * 4 == 4 * (width * height)) by (nonlinear_arith);
        }
        out
    }
}

/// A row is whole exactly if it is among the whole rows.
proof fn lemma_rows(y: int, rows: int, stride: int, length: int)
    requires
        stride > 0,
        length >= 0,
        y >= 0,
        rows == length / stride,
    ensures
        (y < rows) == ((y + 1) * stride <= length),
{
    assert(rows * stride <= length < (rows + 1) * stride) by (nonlinear_arith)
        requires
            stride > 0,
            rows == length / stride,
    ;
    if y < rows {
        assert((y + 1) * stride <= rows * stride) by (nonlinear_arith)
            requires
                y + 1 <= rows,
                stride > 0,
        ;
    } else {
        assert((rows + 1) * stride <= (y + 1) * stride) by (nonlinear_arith)
            requires
                rows <= y,
                stride > 0,
        ;
    }
}

/// Pixels of earlier rows stand before those of later ones.
pub(crate) proof fn lemma_earlier(width: int, x: int, v: int, y: int, c: int)
    requires
        0 <= x < width,
        0 <= v < y,
        0 <= c < 4,
    ensures
        0 <= (v * width + x) * 4 + c < (y * width) * 4,
{
    assert(v * width + x + 1 <= y * width) by (nonlinear_arith)
        requires
            0 <= x < width,
            0 <= v < y,
    ;
    assert(0 <= v * width) by (nonlinear_arith)
        requires
            0 <= v,
            0 <= width,
    ;
}

} // verus!
