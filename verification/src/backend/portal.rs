//! A window stream that the user chose in the desktop portal: that it shows the authorized
//! window and no other, and how its frames become pictures.
use vstd::prelude::*;

use crate::backend::cast_watch::{Cast, CastTarget, ShownView};
use crate::backend::frame::lemma_earlier;
use crate::model::{fault, ErrorCode, Fault, FaultView};
use crate::picture::{channel, fits, png_of, publish};

verus! {

/// What kind of source a chosen stream is.
#[derive(Debug, Clone, Copy, PartialEq, Eq, Structural)]
pub enum SourceKind {
    Window,
    Other,
}

/// Exactly one window must have been chosen, and no display.
pub fn check_streams(streams: &Vec<SourceKind>) -> (r: Result<(), Fault>)
    ensures
        if streams@.len() == 1 && streams@[0] == SourceKind::Window {
            r is Ok
        } else {
            r matches Err(e) && e.says(
                ErrorCode::PermissionDenied,
                "必须选择一个应用窗口，不能选择整块显示器"@,
            )
        },
{
    if streams.len() != 1 || streams[0] != SourceKind::Window {
        Err(Fault::denied("必须选择一个应用窗口，不能选择整块显示器"))
    } else {
        Ok(())
    }
}

/// The captures with a stream node.
pub open spec fn of_node(casts: Seq<Cast>, node: u32) -> Seq<Cast> {
    casts.filter(|c: Cast| c.pw_node_id == Some(node))
}

/// Whether a capture shows a window, and cannot be pointed elsewhere.
pub open spec fn shows_window(cast: Cast, window: u64) -> bool {
    !cast.is_dynamic_target && cast.target@ == ShownView::Window(window)
}

fn is_showing(cast: &Cast, window: u64) -> (r: bool)
    ensures
        r == shows_window(*cast, window),
{
    !cast.is_dynamic_target && match cast.target {
        CastTarget::Window { id } => id == window,
        _ => false,
    }
}

/// The fault of a stream that shows something else.
pub open spec fn wrong_window() -> FaultView {
    fault(
        ErrorCode::PermissionDenied,
        "选择的截图窗口与授权应用不一致，或使用了动态共享目标"@,
    )
}

/// Finds the one capture with the chosen stream's node, which must show the window.
pub fn bind_window(casts: &Vec<Cast>, node: u32, window: u64) -> (r: Result<Cast, Fault>)
    ensures
        ({
            let matching = of_node(casts@, node);
            if matching.len() == 1 && shows_window(matching[0], window) {
                r == Ok::<Cast, Fault>(matching[0])
            } else {
                r matches Err(e) && e@ == wrong_window()
            }
        }),
{
    let ghost p = |c: Cast| c.pw_node_id == Some(node);
    let mut count: usize = 0;
    let mut found: usize = 0;
    let mut i: usize = 0;
    proof {
        reveal(Seq::filter);
        assert(casts@.take(0) =~= Seq::empty());
    }
    while i < casts.len()
        invariant
            i <= casts@.len(),
            count <= i,
            p == (|c: Cast| c.pw_node_id == Some(node)),
            count == casts@.take(i as int).filter(p).len(),
            count > 0 ==> found < casts@.len() && casts@.take(i as int).filter(p).last()
                == casts@[found as int],
        decreases casts@.len() - i,
    {
        proof {
            reveal(Seq::filter);
            assert(casts@.take(i + 1).drop_last() =~= casts@.take(i as int));
        }
        if casts[i].pw_node_id == Some(node) {
            count = count + 1;
            found = i;
        }
        i = i + 1;
    }
    assert(casts@.take(i as int) =~= casts@);
    if count != 1 || !is_showing(&casts[found], window) {
        Err(Fault::denied("选择的截图窗口与授权应用不一致，或使用了动态共享目标"))
    } else {
        Ok(casts[found].clone())
    }
}

/// Whether a capture is the bound one, still of its window.
pub open spec fn still(cast: Cast, stream: u64, node: u32, window: u64) -> bool {
    cast.stream_id == stream && cast.pw_node_id == Some(node) && shows_window(cast, window)
}

/// Whether the bound capture is among others, still of its window.
pub open spec fn among(casts: Seq<Cast>, stream: u64, node: u32, window: u64) -> bool {
    exists|i: int| 0 <= i < casts.len() && still(#[trigger] casts[i], stream, node, window)
}

/// Checks that the bound capture still shows its window.
pub fn check_binding(casts: &Vec<Cast>, stream: u64, node: u32, window: u64) -> (r: Result<
    (),
    Fault,
>)
    ensures
        if among(casts@, stream, node, window) {
            r is Ok
        } else {
            r matches Err(e) && e.says(
                ErrorCode::StaleTarget,
                "窗口采集目标发生变化；必须重新授权"@,
            )
        },
{
    let mut i: usize = 0;
    while i < casts.len()
        invariant
            i <= casts@.len(),
            forall|j: int| 0 <= j < i ==> !still(#[trigger] casts@[j], stream, node, window),
        decreases casts@.len() - i,
    {
        if casts[i].stream_id == stream && casts[i].pw_node_id == Some(node) && is_showing(
            &casts[i],
            window,
        ) {
            assert(still(casts@[i as int], stream, node, window));
            return Ok(());
        }
        i = i + 1;
    }
    Err(Fault::stale("窗口采集目标发生变化；必须重新授权"))
}

/// Binding requires that a stream was bound and is watched.
pub fn check_bound(bound: bool, watched: bool) -> (r: Result<(), Fault>)
    ensures
        if !bound {
            r matches Err(e) && e.says(ErrorCode::PermissionDenied, "截图流尚未绑定获准窗口"@)
        } else if !watched {
            r matches Err(e) && e.says(ErrorCode::PermissionDenied, "窗口流没有生命周期监视"@)
        } else {
            r is Ok
        },
{
    if !bound {
        Err(Fault::denied("截图流尚未绑定获准窗口"))
    } else if !watched {
        Err(Fault::denied("窗口流没有生命周期监视"))
    } else {
        Ok(())
    }
}

/// What to do while a frame is awaited.
#[derive(Debug)]
pub enum FrameWait {
    Take,
    Wait,
}

/// Decides how to go on: whether the stream ended and how, whether a frame is there, and
/// whether the time is over.
pub fn await_frame(ended: Option<&str>, frame: bool, late: bool) -> (r: Result<FrameWait, Fault>)
    ensures
        match ended {
            Some(how) => r matches Err(e) && e@ == fault(
                ErrorCode::StaleTarget,
                "窗口采集流已结束："@ + how@,
            ),
            None => if frame {
                r matches Ok(FrameWait::Take)
            } else if late {
                r matches Err(e) && e.says(ErrorCode::BackendUnavailable, "窗口图像采集超时"@)
            } else {
                r matches Ok(FrameWait::Wait)
            },
        },
{
    match ended {
        Some(how) => {
            let mut text = "窗口采集流已结束：".to_owned();
            text.append(how);
            Err(Fault::stale(text.as_str()))
        },
        None => {
            if frame {
                Ok(FrameWait::Take)
            } else if late {
                Err(Fault::unavailable("窗口图像采集超时"))
            } else {
                Ok(FrameWait::Wait)
            }
        },
    }
}

/// Greatest width and height of a frame.
pub const MAX_SIDE: i32 = 16384;

/// Most pixels of a frame.
pub const MAX_PIXELS: u64 = 67108864;

/// Whether the size of a frame is within the limits.
pub open spec fn sized(width: i32, height: i32) -> bool {
    0 < width <= MAX_SIDE && 0 < height <= MAX_SIDE
}

/// Whether the rows of a frame are long enough and its pixels few enough.
pub open spec fn strided(width: i32, height: i32, stride: i32) -> bool {
    stride >= width * 4 && width * height <= MAX_PIXELS
}

/// Checks the size of a frame, before anything else of it is looked at.
pub fn check_size(width: i32, height: i32) -> (r: Result<(), Fault>)
    ensures
        if sized(width, height) {
            r is Ok
        } else {
            r matches Err(e) && e.says(ErrorCode::BackendUnavailable, "窗口图像尺寸无效"@)
        },
{
    if width <= 0 || height <= 0 || width > MAX_SIDE || height > MAX_SIDE {
        Err(Fault::unavailable("窗口图像尺寸无效"))
    } else {
        Ok(())
    }
}

/// Checks the rows of a frame of a checked size, before its pixels are looked at.
pub fn check_rows(width: i32, height: i32, stride: i32) -> (r: Result<(), Fault>)
    requires
        sized(width, height),
    ensures
        if strided(width, height, stride) {
            r is Ok
        } else {
            r matches Err(e) && e.says(
                ErrorCode::BackendUnavailable,
                "窗口图像步长或大小无效"@,
            )
        },
{
    proof {
        assert(width * height <= 16384 * 16384) by (nonlinear_arith)
            requires
                0 < width <= 16384,
                0 < height <= 16384,
        ;
    }
    let pixels: u64 = width as u64 * height as u64;
    if stride < width * 4 || pixels > MAX_PIXELS {
        Err(Fault::unavailable("窗口图像步长或大小无效"))
    } else {
        Ok(())
    }
}

/// A frame of a window stream: RGBA pixels in rows.
pub struct WindowFrame<'a> {
    pub plane: &'a [u8],
    pub width: i32,
    pub height: i32,
    pub stride: i32,
}

impl<'a> WindowFrame<'a> {
    /// Whether the size is within the limits.
    pub open spec fn sized(self) -> bool {
        sized(self.width, self.height)
    }

    /// Whether rows are long enough and pixels few enough.
    pub open spec fn strided(self) -> bool {
        strided(self.width, self.height, self.stride)
    }

    /// Whether a row begins in the plane.
    pub open spec fn begun(self, y: int) -> bool {
        y * self.stride < self.plane@.len()
    }

    /// Whether a row is whole.
    pub open spec fn whole(self, y: int) -> bool {
        y * self.stride + self.width * 4 <= self.plane@.len()
    }

    /// Whether a row begins without being whole.
    pub open spec fn torn(self) -> bool {
        exists|y: int| 0 <= y < self.height && #[trigger] self.begun(y) && !self.whole(y)
    }

    /// Whether every row is whole.
    pub open spec fn complete(self) -> bool {
        forall|y: int| 0 <= y < self.height ==> #[trigger] self.whole(y)
    }

    /// Why a frame cannot be used, if it cannot.
    pub open spec fn flaw(self) -> Option<Seq<char>> {
        if !self.sized() {
            Some("窗口图像尺寸无效"@)
        } else if !self.strided() {
            Some("窗口图像步长或大小无效"@)
        } else if self.torn() {
            Some("窗口图像行不完整"@)
        } else if !self.complete() {
            Some("窗口图像缓冲区长度无效"@)
        } else {
            None
        }
    }

    /// Whether a picture holds the frame.
    pub open spec fn held_by(self, picture: Seq<u8>) -> bool {
        &&& fits(picture, self.width as int, self.height as int)
        &&& forall|x: int, y: int, c: int|
            0 <= x < self.width && 0 <= y < self.height && 0 <= c < 4 ==> #[trigger] channel(
                picture,
                self.width as int,
                x,
                y,
                c,
            ) == self.plane@[y * self.stride + x * 4 + c]
    }

    /// Copies the rows without what pads them.
    pub fn pixels(&self) -> (r: Result<Vec<u8>, Fault>)
        ensures
            match self.flaw() {
                Some(message) => r matches Err(e) && e.says(
                    ErrorCode::BackendUnavailable,
                    message,
                ),
                None => r matches Ok(picture) && self.held_by(picture@),
            },
    {
        match check_size(self.width, self.height) {
            Err(e) => {
                return Err(e);
            },
            Ok(()) => {},
        }
        match check_rows(self.width, self.height, self.stride) {
            Err(e) => {
                return Err(e);
            },
            Ok(()) => {},
        }
        let total: usize = self.plane.len();
        let stride: usize = self.stride as usize;
        let row: usize = self.width as usize * 4;
        let ghost w = self.width as int;
        let mut out: Vec<u8> = Vec::new();
        let mut y: i32 = 0;
        let mut at: usize = 0;
        while y < self.height
            invariant
                self.sized(),
                self.strided(),
                w == self.width,
                total == self.plane@.len(),
                stride == self.stride,
                row == w * 4,
                0 <= y <= self.height,
                y < self.height ==> at == y * stride || (at == total && self.begun(y as int) == false),
                y == 0 || self.whole(y - 1),
                forall|v: int| 0 <= v < y ==> #[trigger] self.whole(v),
                out@.len() == (y * w) * 4,
                forall|x: int, v: int, c: int|
                    0 <= x < w && 0 <= v < y && 0 <= c < 4 ==> #[trigger] channel(out@, w, x, v, c)
                        == self.plane@[v * self.stride + x * 4 + c],
            decreases self.height - y,
        {
            if at >= total {
                proof {
                    assert(!self.begun(y as int));
                    assert(!self.whole(y as int));
                    lemma_not_torn(*self, y as int);
                }
                return Err(Fault::unavailable("窗口图像缓冲区长度无效"));
            }
            assert(at == y * stride);
            if total - at < row {
                proof {
                    assert(self.begun(y as int) && !self.whole(y as int));
                }
                return Err(Fault::unavailable("窗口图像行不完整"));
            }
            let ghost before = out@;
            let mut k: usize = 0;
            while k < row
                invariant
                    k <= row,
                    at + row <= total,
                    total == self.plane@.len(),
                    out@ == before + self.plane@.subrange(at as int, at + k),
                decreases row - k,
            {
                out.push(self.plane[at + k]);
                k = k + 1;
                assert(out@ =~= before + self.plane@.subrange(at as int, at + k));
            }
            proof {
                assert((y * w) * 4 + w * 4 == ((y + 1) * w) * 4) by (nonlinear_arith);
                assert forall|x: int, v: int, c: int|
                    0 <= x < w && 0 <= v < y + 1 && 0 <= c < 4 implies #[trigger] channel(
                    out@,
                    w,
                    x,
                    v,
                    c,
                ) == self.plane@[v * self.stride + x * 4 + c] by {
                    if v < y {
                        lemma_earlier(w, x, v, y as int, c);
                        assert(channel(out@, w, x, v, c) == channel(before, w, x, v, c));
                    } else {
                        assert((y * w + x) * 4 + c == (y * w) * 4 + x * 4 + c);
                        assert(out@[before.len() + x * 4 + c] == self.plane@[at + x * 4 + c]);
                    }
                }
                assert(self.whole(y as int));
                assert((y + 1) * stride == y * stride + stride) by (nonlinear_arith);
            }
            if total - at < stride {
                at = total;
            } else {
                at = at + stride;
            }
            y = y + 1;
        }
        proof {
            assert((self.height * w) * 4 == 4 * (w * self.height)) by (nonlinear_arith);
            assert(self.complete());
            assert(!self.torn());
        }
        Ok(out)
    }

    /// Publishes the frame as a picture.
    pub fn published(&self) -> (r: Result<(String, u32, u32), Fault>)
        ensures
            match self.flaw() {
                Some(message) => r matches Err(e) && e.says(
                    ErrorCode::BackendUnavailable,
                    message,
                ),
                None => exists|picture: Seq<u8>|
                    {
                        &&& #[trigger] self.held_by(picture)
                        &&& match png_of(picture, self.width as u32, self.height as u32) {
                            Ok(file) => r matches Ok(v) && v.0@ == crate::picture::base64_of(file)
                                && v.1 == self.width && v.2 == self.height,
                            Err(message) => r matches Err(e) && e.says(
                                ErrorCode::BackendUnavailable,
                                message,
                            ),
                        }
                    },
            },
    {
        match self.pixels() {
            Err(e) => Err(e),
            Ok(picture) => {
                assert(self.held_by(picture@));
                publish(picture, self.width as u32, self.height as u32)
            },
        }
    }
}

/// If the rows before one are whole and it does not begin, no row is torn.
proof fn lemma_not_torn<'a>(f: WindowFrame<'a>, y: int)
    requires
        f.sized(),
        f.strided(),
        0 <= y < f.height,
        !f.begun(y),
        forall|v: int| 0 <= v < y ==> #[trigger] f.whole(v),
    ensures
        !f.torn(),
{
    assert forall|v: int| 0 <= v < f.height && #[trigger] f.begun(v) implies f.whole(v) by {
        if v >= y {
            assert(v * f.stride >= y * f.stride) by (nonlinear_arith)
                requires
                    v >= y,
                    f.stride > 0,
            ;
        }
    }
}

} // verus!
