//! Bounded Wayland capture and virtual input: what to bind, when a capture is complete,
//! which buffer to use, how pixels are read and which events an action consists of.
use vstd::prelude::*;

use crate::backend::frame::PixelFormat;
use crate::model::{ErrorCode, Fault, fault, FaultView};
use crate::path::{absolute, below, is_absolute, join};
use crate::picture::{channel, fits, oriented_size, shown_size, Transform};

verus! {

/// Layout of a pixel in shared memory, by the word that it makes.
#[derive(Debug, Clone, Copy, PartialEq, Eq, Structural)]
pub enum ShmFormat {
    Argb8888,
    Xrgb8888,
    Abgr8888,
    Xbgr8888,
    Other,
}

/// Order of the bytes of a word.
#[derive(Debug, Clone, Copy, PartialEq, Eq, Structural)]
pub enum ByteOrder {
    Little,
    Big,
}

/// `u32::from_ne_bytes` of one byte 1 and three bytes 0: one, or, where the byte order is
/// the other one, two to the power of 24.
#[verifier::external_body]
fn word_of_first_byte() -> (r: u32)
    ensures
        r == 1 || r == 0x100_0000,
{
    u32::from_ne_bytes([1, 0, 0, 0])
}

/// The byte order in which a word is this number if its first byte is 1 and the others 0.
pub open spec fn order_by(word: u32) -> ByteOrder {
    if word == 1 {
        ByteOrder::Little
    } else {
        ByteOrder::Big
    }
}

/// Whether this machine reads a word in a byte order.
pub closed spec fn native(order: ByteOrder) -> bool {
    exists|word: u32| #[trigger]
        call_ensures(word_of_first_byte, (), word) && order == order_by(word)
}

/// Byte order of this machine.
pub fn native_order() -> (r: ByteOrder)
    ensures
        native(r),
{
    let word: u32 = word_of_first_byte();
    assert(call_ensures(word_of_first_byte, (), word));
    if word == 1 {
        ByteOrder::Little
    } else {
        ByteOrder::Big
    }
}

/// Byte of a pixel in memory that holds the given eight bits of its word, counted from the
/// lowest.
pub open spec fn byte_place(order: ByteOrder, rank: int) -> int {
    match order {
        ByteOrder::Little => rank,
        ByteOrder::Big => 3 - rank,
    }
}

/// Eight bits of the word that hold red; green stands at rank one, blue at the other end.
pub open spec fn red_rank(format: ShmFormat) -> int {
    match format {
        ShmFormat::Abgr8888 => 0,
        ShmFormat::Xbgr8888 => 0,
        _ => 2,
    }
}

/// Whether a format can be read.
pub open spec fn readable(format: ShmFormat) -> bool {
    format != ShmFormat::Other
}

/// A buffer in shared memory as it was captured.
pub struct Capture<'a> {
    pub bytes: &'a [u8],
    pub format: ShmFormat,
    pub width: u32,
    pub height: u32,
    pub stride: u32,
    /// Whether the lowest row comes first.
    pub inverted: bool,
}

impl<'a> Capture<'a> {
    /// Place of the first byte of a shown pixel.
    pub open spec fn place(self, x: int, y: int) -> int {
        let row = if self.inverted {
            self.height - 1 - y
        } else {
            y
        };
        row * self.stride + x * 4
    }

    /// Whether every shown pixel lies in the buffer.
    pub open spec fn complete(self) -> bool {
        forall|x: int, y: int|
            0 <= x < self.width && 0 <= y < self.height ==> #[trigger] self.place(x, y) + 4
                <= self.bytes@.len()
    }

    /// Byte `c` of the opaque RGBA picture that the buffer shows.
    pub open spec fn shown(self, order: ByteOrder, x: int, y: int, c: int) -> u8 {
        let at = self.place(x, y);
        if c == 0 {
            self.bytes@[at + byte_place(order, red_rank(self.format))]
        } else if c == 1 {
            self.bytes@[at + byte_place(order, 1)]
        } else if c == 2 {
            self.bytes@[at + byte_place(order, 2 - red_rank(self.format))]
        } else {
            255
        }
    }

    /// Whether a picture is what the buffer shows.
    pub open spec fn shows(self, order: ByteOrder, picture: Seq<u8>) -> bool {
        &&& fits(picture, self.width as int, self.height as int)
        &&& forall|x: int, y: int, c: int|
            0 <= x < self.width && 0 <= y < self.height && 0 <= c < 4 ==> #[trigger] channel(
                picture,
                self.width as int,
                x,
                y,
                c,
            ) == self.shown(order, x, y, c)
    }

    /// Reads the buffer as an RGBA picture, for a given byte order.
    pub fn decode_in(&self, order: ByteOrder) -> (r: Result<Vec<u8>, Fault>)
        ensures
            if !readable(self.format) {
                r matches Err(e) && e.says(ErrorCode::Unsupported, "不支持的 SHM 像素格式"@)
            } else if !self.complete() {
                r matches Err(e) && e.says(ErrorCode::BackendUnavailable, "截图缓冲区不完整"@)
            } else {
                r matches Ok(picture) && self.shows(order, picture@)
            },
    {
        match self.format {
            ShmFormat::Other => {
                return Err(Fault::unsupported("不支持的 SHM 像素格式"));
            },
            _ => {},
        }
        let red_low = match self.format {
            ShmFormat::Abgr8888 => true,
            ShmFormat::Xbgr8888 => true,
            _ => false,
        };
        let low_first = match order {
            ByteOrder::Little => true,
            ByteOrder::Big => false,
        };
        let total: usize = self.bytes.len();
        let ghost w = self.width as int;
        let mut out: Vec<u8> = Vec::new();
        let mut y: u32 = 0;
        while y < self.height
            invariant
                w == self.width,
                total == self.bytes@.len(),
                readable(self.format),
                red_low == (red_rank(self.format) == 0),
                low_first == (order == ByteOrder::Little),
                y <= self.height,
                out@.len() == (y * w) * 4,
                forall|x: int, v: int|
                    0 <= x < w && 0 <= v < y ==> #[trigger] self.place(x, v) + 4 <= total,
                forall|x: int, v: int, c: int|
                    0 <= x < w && 0 <= v < y && 0 <= c < 4 ==> #[trigger] channel(out@, w, x, v, c)
                        == self.shown(order, x, v, c),
            decreases self.height - y,
        {
            let row: u32 = if self.inverted {
                self.height - 1 - y
            } else {
                y
            };
            let mut x: u32 = 0;
            let ghost before = out@;
            while x < self.width
                invariant
                    w == self.width,
                    total == self.bytes@.len(),
                    readable(self.format),
                    red_low == (red_rank(self.format) == 0),
                    low_first == (order == ByteOrder::Little),
                    x <= self.width,
                    y < self.height,
                    row == (if self.inverted {
                        self.height - 1 - y
                    } else {
                        y as int
                    }),
                    before.len() == (y * w) * 4,
                    out@.len() == (y * w + x) * 4,
                    out@.take(before.len() as int) == before,
                    forall|u: int| 0 <= u < x ==> #[trigger] self.place(u, y as int) + 4 <= total,
                    forall|u: int, c: int|
                        0 <= u < x && 0 <= c < 4 ==> #[trigger] channel(out@, w, u, y as int, c)
                            == self.shown(order, u, y as int, c),
                decreases self.width - x,
            {
                let ghost prior = out@;
                proof {
                    assert(row * self.stride <= 0xffff_ffff * 0xffff_ffff) by (nonlinear_arith)
                        requires
                            row <= 0xffff_ffff,
                            self.stride <= 0xffff_ffff,
                    ;
                }
                let wide: u128 = row as u128 * self.stride as u128 + x as u128 * 4;
                assert(wide == self.place(x as int, y as int));
                if wide + 4 > total as u128 {
                    assert(!self.complete());
                    return Err(Fault::unavailable("截图缓冲区不完整"));
                }
                let at: usize = wide as usize;
                let p0: u8 = self.bytes[at];
                let p1: u8 = self.bytes[at + 1];
                let p2: u8 = self.bytes[at + 2];
                let p3: u8 = self.bytes[at + 3];
                let (low, green, high) = if low_first {
                    (p0, p1, p2)
                } else {
                    (p3, p2, p1)
                };
                if red_low {
                    out.push(low);
                    out.push(green);
                    out.push(high);
                } else {
                    out.push(high);
                    out.push(green);
                    out.push(low);
                }
                out.push(255);
                proof {
                    assert forall|u: int, c: int| 0 <= u < x + 1 && 0 <= c < 4 implies #[trigger] channel(
                        out@,
                        w,
                        u,
                        y as int,
                        c,
                    ) == self.shown(order, u, y as int, c) by {
                        if u < x {
                            assert(channel(out@, w, u, y as int, c) == channel(
                                prior,
                                w,
                                u,
                                y as int,
                                c,
                            ));
                        } else {
                            assert((y * w + u) * 4 + c == prior.len() + c);
                        }
                    }
                    assert(out@.take(before.len() as int) =~= prior.take(before.len() as int));
                }
                x = x + 1;
            }
            proof {
                assert((y * w + w) * 4 == ((y + 1) * w) * 4) by (nonlinear_arith);
                assert forall|u: int, v: int, c: int|
                    0 <= u < w && 0 <= v < y + 1 && 0 <= c < 4 implies #[trigger] channel(
                    out@,
                    w,
                    u,
                    v,
                    c,
                ) == self.shown(order, u, v, c) by {
                    if v < y {
                        crate::backend::frame::lemma_earlier(w, u, v, y as int, c);
                        assert(channel(out@, w, u, v, c) == channel(
                            out@.take(before.len() as int),
                            w,
                            u,
                            v,
                            c,
                        ));
                    } else {
                        assert(v == y);
                    }
                }
                assert forall|u: int, v: int| 0 <= u < w && 0 <= v < y + 1 implies #[trigger] self.place(
                    u,
                    v,
                ) + 4 <= total by {
                    if v == y {
                        assert(self.place(u, y as int) + 4 <= total);
                    }
                }
            }
            y = y + 1;
        }
        proof {
            assert((self.height * w) * 4 == 4 * (w * self.height)) by (nonlinear_arith);
            assert(self.complete());
        }
        Ok(out)
    }
}

/// Reads a buffer in shared memory as an RGBA picture, in the byte order of this machine.
pub fn decode_shm(
    bytes: &[u8],
    format: ShmFormat,
    width: u32,
    height: u32,
    stride: u32,
    inverted: bool,
) -> (r: Result<Vec<u8>, Fault>)
    ensures
        ({
            let capture = Capture { bytes, format, width, height, stride, inverted };
            if !readable(format) {
                r matches Err(e) && e.says(ErrorCode::Unsupported, "不支持的 SHM 像素格式"@)
            } else if !capture.complete() {
                r matches Err(e) && e.says(ErrorCode::BackendUnavailable, "截图缓冲区不完整"@)
            } else {
                r matches Ok(picture) && exists|order: ByteOrder| #[trigger]
                    native(order) && capture.shows(order, picture@)
            }
        }),
{
    let capture = Capture { bytes, format, width, height, stride, inverted };
    capture.decode_in(native_order())
}

/// A display of the compositor.
#[derive(Debug)]
pub struct Output {
    pub global: u32,
    pub name: String,
    pub width: u32,
    pub height: u32,
    pub scale: i32,
    pub transform: Transform,
}

impl Clone for Output {
    fn clone(&self) -> (r: Self)
        ensures
            r == *self,
    {
        Output {
            global: self.global,
            name: self.name.clone(),
            width: self.width,
            height: self.height,
            scale: self.scale,
            transform: self.transform,
        }
    }
}

impl Output {
    /// Size of what the display shows.
    pub fn image_size(&self) -> (r: (u32, u32))
        ensures
            r == shown_size(self.width, self.height, self.transform),
    {
        oriented_size(self.width, self.height, self.transform)
    }
}

/// What the compositor says of a display.
#[derive(Debug)]
pub enum OutputEvent {
    Name(String),
    Mode { current: bool, width: i32, height: i32 },
    Scale(i32),
    Geometry(Transform),
    Other,
}

/// A size that is not below zero.
pub open spec fn clamped(n: i32) -> u32 {
    if n < 0 {
        0
    } else {
        n as u32
    }
}

/// A display after what the compositor said of it.
pub open spec fn told(o: Output, event: OutputEvent) -> Output {
    match event {
        OutputEvent::Name(name) => Output { name, ..o },
        OutputEvent::Mode { current, width, height } => if current {
            Output { width: clamped(width), height: clamped(height), ..o }
        } else {
            o
        },
        OutputEvent::Scale(scale) => Output { scale, ..o },
        OutputEvent::Geometry(transform) => Output { transform, ..o },
        OutputEvent::Other => o,
    }
}

/// Whether two displays show the same, whatever their number.
pub open spec fn alike(a: Output, b: Output) -> bool {
    a.name@ == b.name@ && a.width == b.width && a.height == b.height && a.scale == b.scale
        && a.transform == b.transform
}

/// The displays in the order of their numbers, and how often they have changed.
pub struct Outputs {
    pub list: Vec<Output>,
    pub revision: u64,
}

/// The revision after another.
pub open spec fn next_revision(n: u64) -> u64 {
    if n == u64::MAX {
        0
    } else {
        (n + 1) as u64
    }
}

fn bump(n: u64) -> (r: u64)
    ensures
        r == next_revision(n),
{
    if n == u64::MAX {
        0
    } else {
        n + 1
    }
}

impl Outputs {
    /// The numbers rise.
    pub open spec fn wf(self) -> bool {
        forall|i: int, j: int|
            0 <= i < j < self.list@.len() ==> (#[trigger] self.list@[i]).global < (
            #[trigger] self.list@[j]).global
    }

    /// Whether a display with this number is known.
    pub open spec fn has(self, global: u32) -> bool {
        exists|i: int| 0 <= i < self.list@.len() && (#[trigger] self.list@[i]).global == global
    }

    /// Whether a display is known.
    pub open spec fn holds(self, o: Output) -> bool {
        self.list@.contains(o)
    }

    pub fn new() -> (r: Self)
        ensures
            r.wf(),
            r.list@.len() == 0,
            r.revision == 0,
    {
        Outputs { list: Vec::new(), revision: 0 }
    }

    fn place(&self, global: u32) -> (r: usize)
        requires
            self.wf(),
        ensures
            r <= self.list@.len(),
            forall|i: int| 0 <= i < r ==> (#[trigger] self.list@[i]).global < global,
            forall|i: int| r <= i < self.list@.len() ==> (#[trigger] self.list@[i]).global >= global,
    {
        let mut i: usize = 0;
        while i < self.list.len() && self.list[i].global < global
            invariant
                i <= self.list@.len(),
                forall|j: int| 0 <= j < i ==> (#[trigger] self.list@[j]).global < global,
            decreases self.list@.len() - i,
        {
            i = i + 1;
        }
        assert forall|j: int| i <= j < self.list@.len() implies (#[trigger] self.list@[j]).global
            >= global by {
            if i < j {
                assert(self.list@[i as int].global < self.list@[j].global);
            }
        }
        i
    }

    /// A display appeared. Nothing is known of it yet; one with its number is replaced.
    pub fn announce(&mut self, global: u32)
        requires
            old(self).wf(),
        ensures
            final(self).wf(),
            final(self).revision == old(self).revision,
            exists|o: Output|
                #![trigger final(self).holds(o)]
                {
                    &&& final(self).holds(o)
                    &&& o.global == global
                    &&& o.name@ == "output-"@ + crate::text::numeral(global as nat, 10)
                    &&& o.width == 0
                    &&& o.height == 0
                    &&& o.scale == 1
                    &&& o.transform == Transform::Normal
                },
            forall|o: Output|
                #![trigger final(self).holds(o)]
                o.global != global ==> final(self).holds(o) == old(self).holds(o),
    {
        let mut name = "output-".to_owned();
        name.append(crate::text::decimal(global as u64).as_str());
        let fresh = Output {
            global,
            name,
            width: 0,
            height: 0,
            scale: 1,
            transform: Transform::Normal,
        };
        let i: usize = self.place(global);
        let ghost before = self.list@;
        if i < self.list.len() && self.list[i].global == global {
            self.list.set(i, fresh);
            proof {
                assert forall|o: Output| o.global != global implies #[trigger] self.holds(o)
                    == before.contains(o) by {
                    if before.contains(o) {
                        let k = choose|k: int| 0 <= k < before.len() && before[k] == o;
                        assert(self.list@[k] == o);
                    }
                    if self.list@.contains(o) {
                        let k = choose|k: int| 0 <= k < before.len() && self.list@[k] == o;
                        assert(before[k] == o);
                    }
                }
            }
        } else {
            proof {
                if i < before.len() {
                    assert(before[i as int].global > global);
                }
                assert forall|j: int| i <= j < before.len() implies (#[trigger] before[j]).global
                    > global by {
                    if i < j {
                        assert(before[i as int].global < before[j].global);
                    }
                }
            }
            self.list.insert(i, fresh);
            proof {
                assert forall|o: Output| o.global != global implies #[trigger] self.holds(o)
                    == before.contains(o) by {
                    if before.contains(o) {
                        let k = choose|k: int| 0 <= k < before.len() && before[k] == o;
                        assert(self.list@[if k < i { k } else { k + 1 }] == o);
                    }
                    if self.list@.contains(o) {
                        let k = choose|k: int| 0 <= k < self.list@.len() && self.list@[k] == o;
                        assert(before[if k < i { k } else { k - 1 }] == o);
                    }
                }
            }
        }
        assert(self.list@[i as int] == fresh);
        assert(self.holds(fresh));
    }

    /// A display vanished.
    pub fn retract(&mut self, global: u32) -> (r: bool)
        requires
            old(self).wf(),
        ensures
            final(self).wf(),
            r == old(self).has(global),
            final(self).revision == (if r {
                next_revision(old(self).revision)
            } else {
                old(self).revision
            }),
            !final(self).has(global),
            forall|o: Output|
                #![trigger final(self).holds(o)]
                o.global != global ==> final(self).holds(o) == old(self).holds(o),
    {
        let i: usize = self.place(global);
        let ghost before = self.list@;
        if i < self.list.len() && self.list[i].global == global {
            self.list.remove(i);
            self.revision = bump(self.revision);
            proof {
                assert(before[i as int].global == global);
                assert forall|o: Output| o.global != global implies #[trigger] self.holds(o)
                    == before.contains(o) by {
                    if before.contains(o) {
                        let k = choose|k: int| 0 <= k < before.len() && before[k] == o;
                        assert(self.list@[if k < i { k } else { k - 1 }] == o);
                    }
                    if self.list@.contains(o) {
                        let k = choose|k: int| 0 <= k < self.list@.len() && self.list@[k] == o;
                        assert(before[if k < i { k } else { k + 1 }] == o);
                    }
                }
                assert forall|k: int| 0 <= k < self.list@.len() implies (#[trigger] self.list@[k]).global
                    != global by {
                    if k < i {
                        assert(before[k].global < before[i as int].global);
                    } else {
                        assert(self.list@[k] == before[k + 1]);
                        assert(before[i as int].global < before[k + 1].global);
                    }
                }
            }
            true
        } else {
            proof {
                assert forall|k: int| 0 <= k < before.len() implies (#[trigger] before[k]).global
                    != global by {
                    if k > i {
                        assert(before[i as int].global < before[k].global);
                    }
                }
            }
            false
        }
    }

    /// The compositor said something of a display; the revision rises if that changed it.
    pub fn update(&mut self, global: u32, event: OutputEvent)
        requires
            old(self).wf(),
        ensures
            final(self).wf(),
            !old(self).has(global) ==> *final(self) == *old(self),
            forall|i: int|
                #![trigger old(self).list@[i]]
                0 <= i < old(self).list@.len() && old(self).list@[i].global == global ==> {
                    &&& final(self).list@ == old(self).list@.update(
                        i,
                        told(old(self).list@[i], event),
                    )
                    &&& final(self).revision == (if alike(
                        old(self).list@[i],
                        told(old(self).list@[i], event),
                    ) {
                        old(self).revision
                    } else {
                        next_revision(old(self).revision)
                    })
                },
    {
        let i: usize = self.place(global);
        let ghost before = self.list@;
        if i >= self.list.len() || self.list[i].global != global {
            proof {
                assert forall|k: int| 0 <= k < before.len() implies (#[trigger] before[k]).global
                    != global by {
                    if k > i {
                        assert(before[i as int].global < before[k].global);
                    }
                }
            }
            return ;
        }
        let was = self.list[i].clone();
        let now = match event {
            OutputEvent::Name(name) => Output { name, ..was.clone() },
            OutputEvent::Mode { current, width, height } => {
                if current {
                    Output {
                        width: if width < 0 {
                            0
                        } else {
                            width as u32
                        },
                        height: if height < 0 {
                            0
                        } else {
                            height as u32
                        },
                        ..was.clone()
                    }
                } else {
                    was.clone()
                }
            },
            OutputEvent::Scale(scale) => Output { scale, ..was.clone() },
            OutputEvent::Geometry(transform) => Output { transform, ..was.clone() },
            OutputEvent::Other => was.clone(),
        };
        assert(now == told(was, event));
        let changed = was.name != now.name || was.width != now.width || was.height != now.height
            || was.scale != now.scale || was.transform != now.transform;
        self.list.set(i, now);
        if changed {
            self.revision = bump(self.revision);
        }
        proof {
            assert forall|k: int| 0 <= k < before.len() && (#[trigger] before[k]).global == global implies k
                == i by {
                if k < i {
                    assert(before[k].global < before[i as int].global);
                } else if k > i {
                    assert(before[i as int].global < before[k].global);
                }
            }
        }
    }

    /// The first display.
    pub fn first(&self) -> (r: Option<Output>)
        ensures
            r == (if self.list@.len() > 0 {
                Some(self.list@[0])
            } else {
                None
            }),
    {
        if self.list.len() > 0 {
            Some(self.list[0].clone())
        } else {
            None
        }
    }

    /// The first display with a name.
    pub fn named(&self, name: &str) -> (r: Result<Output, Fault>)
        ensures
            match r {
                Ok(o) => exists|i: int|
                    #![trigger self.list@[i]]
                    {
                        &&& 0 <= i < self.list@.len()
                        &&& o == self.list@[i]
                        &&& o.name@ == name@
                        &&& forall|j: int|
                            #![trigger self.list@[j]]
                            0 <= j < i ==> self.list@[j].name@ != name@
                    },
                Err(e) => {
                    &&& forall|j: int|
                        #![trigger self.list@[j]]
                        0 <= j < self.list@.len() ==> self.list@[j].name@ != name@
                    &&& e.says(ErrorCode::StaleTarget, "显示器已移除"@)
                },
            },
    {
        let mut i: usize = 0;
        while i < self.list.len()
            invariant
                i <= self.list@.len(),
                forall|j: int| 0 <= j < i ==> (#[trigger] self.list@[j]).name@ != name@,
            decreases self.list@.len() - i,
        {
            if crate::text::same(self.list[i].name.as_str(), name) {
                return Ok(self.list[i].clone());
            }
            i = i + 1;
        }
        Err(Fault::stale("显示器已移除"))
    }
}

/// What a compositor offers and this client binds.
#[derive(Debug, Clone, Copy, PartialEq, Eq, Structural)]
pub enum Interface {
    Output,
    Seat,
    Dmabuf,
    Shm,
    Screencopy,
    Pointers,
    Keyboards,
}

/// The lesser of two versions.
pub open spec fn at_most(version: u32, most: u32) -> u32 {
    if version < most {
        version
    } else {
        most
    }
}

/// What is bound of an offer, and in which version.
pub open spec fn bound(interface: Seq<char>, version: u32, have_seat: bool) -> Option<
    (Interface, u32),
> {
    if interface == "wl_output"@ {
        Some((Interface::Output, at_most(version, 4)))
    } else if interface == "wl_seat"@ {
        if have_seat {
            None
        } else {
            Some((Interface::Seat, at_most(version, 7)))
        }
    } else if interface == "zwp_linux_dmabuf_v1"@ {
        if version >= 3 {
            Some((Interface::Dmabuf, 3))
        } else {
            None
        }
    } else if interface == "wl_shm"@ {
        Some((Interface::Shm, 1))
    } else if interface == "zwlr_screencopy_manager_v1"@ {
        Some((Interface::Screencopy, at_most(version, 3)))
    } else if interface == "zwlr_virtual_pointer_manager_v1"@ {
        Some((Interface::Pointers, at_most(version, 2)))
    } else if interface == "zwp_virtual_keyboard_manager_v1"@ {
        Some((Interface::Keyboards, 1))
    } else {
        None
    }
}

fn lesser(version: u32, most: u32) -> (r: u32)
    ensures
        r == at_most(version, most),
{
    if version < most {
        version
    } else {
        most
    }
}

/// Decides whether to bind an offer of the compositor.
pub fn binding(interface: &str, version: u32, have_seat: bool) -> (r: Option<(Interface, u32)>)
    ensures
        r == bound(interface@, version, have_seat),
{
    if crate::text::same(interface, "wl_output") {
        Some((Interface::Output, lesser(version, 4)))
    } else if crate::text::same(interface, "wl_seat") {
        if have_seat {
            None
        } else {
            Some((Interface::Seat, lesser(version, 7)))
        }
    } else if crate::text::same(interface, "zwp_linux_dmabuf_v1") {
        if version >= 3 {
            Some((Interface::Dmabuf, 3))
        } else {
            None
        }
    } else if crate::text::same(interface, "wl_shm") {
        Some((Interface::Shm, 1))
    } else if crate::text::same(interface, "zwlr_screencopy_manager_v1") {
        Some((Interface::Screencopy, lesser(version, 3)))
    } else if crate::text::same(interface, "zwlr_virtual_pointer_manager_v1") {
        Some((Interface::Pointers, lesser(version, 2)))
    } else if crate::text::same(interface, "zwp_virtual_keyboard_manager_v1") {
        Some((Interface::Keyboards, 1))
    } else {
        None
    }
}

/// What of the compositor is bound.
#[derive(Debug, Clone, Copy, PartialEq, Eq, Structural)]
pub struct Bound {
    pub seat: bool,
    pub shm: bool,
    pub screencopy: bool,
    /// Version of the manager of virtual pointers.
    pub pointers: Option<u32>,
    pub keyboards: bool,
}

impl Bound {
    pub open spec fn can_send(self) -> bool {
        self.seat && self.keyboards && (self.pointers matches Some(version) && version >= 2)
    }

    pub open spec fn can_capture(self) -> bool {
        self.screencopy && self.shm
    }

    /// Whether virtual input can be sent to one display.
    pub fn input_supported(&self) -> (r: bool)
        ensures
            r == self.can_send(),
    {
        match self.pointers {
            Some(version) => self.seat && version >= 2 && self.keyboards,
            None => false,
        }
    }

    /// Whether displays can be captured.
    pub fn capture_supported(&self) -> (r: bool)
        ensures
            r == self.can_capture(),
    {
        self.screencopy && self.shm
    }
}

/// How to get devices for input to a display.
#[derive(Debug, Clone, Copy, PartialEq, Eq, Structural)]
pub enum InputSetup {
    /// The present devices serve.
    Keep,
    /// A pointer for this display is needed; the keyboard stays, since clients lose the
    /// first key after a keyboard vanished.
    NewPointer,
    /// A pointer and a keyboard are needed.
    NewDevices,
}

/// Decides how to get devices for input to a display, given the display that the present
/// devices serve.
pub fn input_setup(serving: Option<u32>, global: u32, bound: &Bound) -> (r: Result<
    InputSetup,
    Fault,
>)
    ensures
        match r {
            Ok(InputSetup::Keep) => serving == Some(global),
            Ok(InputSetup::NewPointer) => {
                &&& serving is Some
                &&& serving != Some(global)
                &&& bound.can_send()
            },
            Ok(InputSetup::NewDevices) => serving is None && bound.can_send(),
            Err(e) => {
                &&& serving != Some(global)
                &&& !bound.can_send()
                &&& e.says(ErrorCode::Unsupported, "合成器缺少虚拟输入协议"@)
            },
        },
{
    match serving {
        Some(now) => {
            if now == global {
                return Ok(InputSetup::Keep);
            }
        },
        None => {},
    }
    if !bound.input_supported() {
        return Err(Fault::unsupported("合成器缺少虚拟输入协议"));
    }
    match serving {
        Some(_) => Ok(InputSetup::NewPointer),
        None => Ok(InputSetup::NewDevices),
    }
}

/// When input finds that a display changed.
#[derive(Debug, Clone, Copy, PartialEq, Eq, Structural)]
pub enum InputPhase {
    Setup,
    Sending,
}

/// The fault of input whose displays changed.
pub open spec fn displaced(phase: InputPhase) -> FaultView {
    match phase {
        InputPhase::Setup => fault(ErrorCode::StaleTarget, "输入设备初始化期间显示器变化"@),
        InputPhase::Sending => fault(ErrorCode::StaleTarget, "输入期间显示器变化"@),
    }
}

/// Input goes on only while the displays are as they were when it began.
pub fn same_revision(began: u64, now: u64, phase: InputPhase) -> (r: Result<(), Fault>)
    ensures
        began == now ==> r is Ok,
        began != now ==> (r matches Err(e) && e@ == displaced(phase)),
{
    if began == now {
        Ok(())
    } else {
        match phase {
            InputPhase::Setup => Err(Fault::stale("输入设备初始化期间显示器变化")),
            InputPhase::Sending => Err(Fault::stale("输入期间显示器变化")),
        }
    }
}

/// Layout of a buffer in shared memory.
#[derive(Debug, Clone, Copy, PartialEq, Eq, Structural)]
pub struct Layout {
    pub format: ShmFormat,
    pub width: u32,
    pub height: u32,
    pub stride: u32,
}

/// Layout of a buffer of the graphics device.
#[derive(Debug, Clone, Copy, PartialEq, Eq, Structural)]
pub struct DmaLayout {
    pub fourcc: u32,
    pub width: u32,
    pub height: u32,
}

/// What the compositor says of a frame.
#[derive(Debug, Clone, Copy, PartialEq, Eq, Structural)]
pub enum FrameEvent {
    Buffer(Layout),
    LinuxDmabuf(DmaLayout),
    BufferDone,
    Ready,
    Failed,
    Flags { inverted: bool },
    Other,
}

/// How far a capture has come.
#[derive(Debug, Clone, Copy, PartialEq, Eq, Structural)]
pub struct Progress {
    pub capture_id: u64,
    pub dimensions: Option<Layout>,
    pub dma_dimensions: Option<DmaLayout>,
    pub formats_done: bool,
    pub frame_ready: bool,
    pub frame_failed: bool,
    pub inverted: bool,
}

impl Progress {
    /// The start of a capture.
    pub open spec fn begun(capture_id: u64) -> Progress {
        Progress {
            capture_id,
            dimensions: None,
            dma_dimensions: None,
            formats_done: false,
            frame_ready: false,
            frame_failed: false,
            inverted: false,
        }
    }

    /// A capture after an event of its own.
    pub open spec fn heard(self, event: FrameEvent) -> Progress {
        match event {
            FrameEvent::Buffer(layout) => Progress { dimensions: Some(layout), ..self },
            FrameEvent::LinuxDmabuf(layout) => Progress { dma_dimensions: Some(layout), ..self },
            FrameEvent::BufferDone => Progress { formats_done: true, ..self },
            FrameEvent::Ready => Progress { frame_ready: true, ..self },
            FrameEvent::Failed => Progress { frame_failed: true, ..self },
            FrameEvent::Flags { inverted } => Progress { inverted, ..self },
            FrameEvent::Other => self,
        }
    }

    /// Nothing captured yet.
    pub fn new() -> (r: Self)
        ensures
            r == Progress::begun(0),
    {
        Progress {
            capture_id: 0,
            dimensions: None,
            dma_dimensions: None,
            formats_done: false,
            frame_ready: false,
            frame_failed: false,
            inverted: false,
        }
    }

    /// Begins a capture under the next number.
    pub fn begin(&mut self) -> (r: u64)
        ensures
            r == next_revision(old(self).capture_id),
            *final(self) == Progress::begun(r),
    {
        let next: u64 = bump(self.capture_id);
        *self = Progress {
            capture_id: next,
            dimensions: None,
            dma_dimensions: None,
            formats_done: false,
            frame_ready: false,
            frame_failed: false,
            inverted: false,
        };
        next
    }

    /// An event arrived; those of earlier captures are ignored.
    pub fn event(&mut self, capture_id: u64, event: FrameEvent)
        ensures
            *final(self) == (if capture_id == old(self).capture_id {
                old(self).heard(event)
            } else {
                *old(self)
            }),
    {
        if capture_id != self.capture_id {
            return ;
        }
        match event {
            FrameEvent::Buffer(layout) => {
                self.dimensions = Some(layout);
            },
            FrameEvent::LinuxDmabuf(layout) => {
                self.dma_dimensions = Some(layout);
            },
            FrameEvent::BufferDone => {
                self.formats_done = true;
            },
            FrameEvent::Ready => {
                self.frame_ready = true;
            },
            FrameEvent::Failed => {
                self.frame_failed = true;
            },
            FrameEvent::Flags { inverted } => {
                self.inverted = inverted;
            },
            FrameEvent::Other => {},
        }
    }

    /// Whether the formats are known, for a frame object of the given version.
    pub open spec fn negotiated(self, version: u32) -> bool {
        self.dimensions is Some && (version >= 3 ==> self.formats_done)
    }

    /// Outcome of the negotiation: nothing while it goes on.
    pub fn negotiation(&self, version: u32) -> (r: Option<Result<(), Fault>>)
        ensures
            match r {
                None => !self.frame_failed && !self.negotiated(version),
                Some(Ok(_)) => !self.frame_failed && self.negotiated(version),
                Some(Err(e)) => self.frame_failed && e.says(
                    ErrorCode::BackendUnavailable,
                    "截图被合成器拒绝"@,
                ),
            },
    {
        if self.frame_failed {
            Some(Err(Fault::unavailable("截图被合成器拒绝")))
        } else if self.dimensions.is_none() || (version >= 3 && !self.formats_done) {
            None
        } else {
            Some(Ok(()))
        }
    }

    /// Outcome of a copy into shared memory: nothing while it goes on. A frame that follows
    /// damage also waits for its buffer to be released.
    pub fn copied(&self, damage: bool, released: bool) -> (r: Option<Result<(), Fault>>)
        ensures
            match r {
                None => !self.frame_failed && !(self.frame_ready && (damage ==> released)),
                Some(Ok(_)) => !self.frame_failed && self.frame_ready && (damage ==> released),
                Some(Err(e)) => self.frame_failed && e.says(
                    ErrorCode::BackendUnavailable,
                    "截图传输失败"@,
                ),
            },
    {
        if self.frame_failed {
            Some(Err(Fault::unavailable("截图传输失败")))
        } else if !self.frame_ready || (damage && !released) {
            None
        } else {
            Some(Ok(()))
        }
    }

    /// Outcome of a copy into a buffer of the graphics device, which cannot be turned over.
    pub fn copied_dma(&self, released: bool) -> (r: Option<Result<(), Fault>>)
        ensures
            match r {
                None => !self.frame_failed && !(self.frame_ready && released),
                Some(Ok(_)) => !self.frame_failed && self.frame_ready && released && !self.inverted,
                Some(Err(e)) => {
                    &&& self.frame_failed || (self.frame_ready && released && self.inverted)
                    &&& e.says(ErrorCode::BackendUnavailable, "DMA-BUF 传输失败或需要翻转"@)
                },
            },
    {
        if !self.frame_failed && (!self.frame_ready || !released) {
            None
        } else if self.frame_failed || self.inverted {
            Some(Err(Fault::unavailable("DMA-BUF 传输失败或需要翻转")))
        } else {
            Some(Ok(()))
        }
    }
}

/// An event of an earlier capture changes nothing of the present one.
pub proof fn late_events_are_ignored(p: Progress, late: Progress)
    requires
        p == Progress::begun(next_revision(late.capture_id)),
    ensures
        p.capture_id != late.capture_id,
{
}

/// Most bytes of a buffer in shared memory.
pub const MAX_BUFFER: u64 = 268435456;

/// Greatest width and height of a captured display.
pub const MAX_SIDE: u32 = 16384;

impl Layout {
    /// Whether a layout can be captured.
    pub open spec fn sensible(self) -> bool {
        &&& 0 < self.width <= MAX_SIDE
        &&& 0 < self.height <= MAX_SIDE
        &&& self.stride >= self.width * 4
        &&& self.stride * self.height <= MAX_BUFFER
    }

    /// Number of bytes of a buffer, if its layout is within the limits.
    pub fn buffer_size(&self) -> (r: Result<u64, Fault>)
        ensures
            match r {
                Ok(size) => self.sensible() && size == self.stride * self.height,
                Err(e) => !self.sensible() && e.says(
                    ErrorCode::BackendUnavailable,
                    "截图尺寸超出限制"@,
                ),
            },
    {
        assert(self.stride * self.height <= 0xffff_ffff * 0xffff_ffff) by (nonlinear_arith)
            requires
                self.stride <= 0xffff_ffff,
                self.height <= 0xffff_ffff,
        ;
        let size: u64 = self.stride as u64 * self.height as u64;
        let row: u64 = self.width as u64 * 4;
        if self.width == 0 || self.height == 0 || self.width > MAX_SIDE || self.height > MAX_SIDE
            || (self.stride as u64) < row || size > MAX_BUFFER {
            Err(Fault::unavailable("截图尺寸超出限制"))
        } else {
            Ok(size)
        }
    }
}

/// Every pixel of a sensible layout lies in a buffer of its size.
pub proof fn sensible_buffers_are_complete<'a>(capture: Capture<'a>)
    requires
        (Layout {
            format: capture.format,
            width: capture.width,
            height: capture.height,
            stride: capture.stride,
        }).sensible(),
        capture.bytes@.len() >= capture.stride * capture.height,
    ensures
        capture.complete(),
{
    assert forall|x: int, y: int|
        0 <= x < capture.width && 0 <= y < capture.height implies #[trigger] capture.place(x, y) + 4
        <= capture.bytes@.len() by {
        let row = if capture.inverted {
            capture.height - 1 - y
        } else {
            y
        };
        assert((row + 1) * capture.stride <= capture.stride * capture.height) by (nonlinear_arith)
            requires
                0 <= row < capture.height,
                capture.stride >= 0,
        ;
        assert((row + 1) * capture.stride == row * capture.stride + capture.stride)
            by (nonlinear_arith);
    }
}

/// What to capture into.
#[derive(Debug, Clone, Copy, PartialEq, Eq, Structural)]
pub enum Slot {
    Reuse(usize),
    Create,
}

/// Most buffers of one view.
pub const MAX_BUFFERS: usize = 4;

/// Place of the first buffer that nobody uses, or the end.
pub open spec fn first_free(available: Seq<bool>) -> nat
    decreases available.len(),
{
    if available.len() == 0 || available[0] {
        0
    } else {
        1 + first_free(available.drop_first())
    }
}

/// What is captured into: the first buffer that nobody uses, or a new one while there is room.
pub open spec fn chosen(available: Seq<bool>) -> Option<Slot> {
    if first_free(available) < available.len() {
        Some(Slot::Reuse(first_free(available) as usize))
    } else if available.len() < MAX_BUFFERS {
        Some(Slot::Create)
    } else {
        None
    }
}

/// Layout of a buffer of either kind.
#[derive(Debug, Clone, Copy, PartialEq, Eq, Structural)]
pub enum BufferKey {
    Shm(Layout),
    Dma(DmaLayout),
}

/// Buffers of one layout, most of them lent to the display.
pub struct BufferPool<T> {
    pub buffers: Vec<(BufferKey, T)>,
}

impl<T> BufferPool<T> {
    /// No more buffers than allowed.
    pub open spec fn wf(self) -> bool {
        self.buffers@.len() <= MAX_BUFFERS
    }

    pub fn new() -> (r: Self)
        ensures
            r.wf(),
            r.buffers@.len() == 0,
    {
        BufferPool { buffers: Vec::new() }
    }

    /// Drops every buffer; what is lent stays alive with its borrower.
    pub fn clear(&mut self)
        ensures
            final(self).wf(),
            final(self).buffers@.len() == 0,
    {
        self.buffers.clear();
    }

    /// Picks the first buffer that nobody uses, or room for one more.
    pub fn slot(&self, available: &Vec<bool>) -> (r: Option<Slot>)
        requires
            available@.len() == self.buffers@.len(),
        ensures
            r == chosen(available@),
    {
        let mut i: usize = 0;
        assert(available@.skip(0) =~= available@);
        while i < available.len()
            invariant
                i <= available@.len(),
                available@.len() == self.buffers@.len(),
                first_free(available@) == i + first_free(available@.skip(i as int)),
            decreases available@.len() - i,
        {
            assert(available@.skip(i as int)[0] == available@[i as int]);
            assert(available@.skip(i as int).drop_first() =~= available@.skip(i + 1));
            if available[i] {
                return Some(Slot::Reuse(i));
            }
            i = i + 1;
        }
        if self.buffers.len() < MAX_BUFFERS {
            Some(Slot::Create)
        } else {
            None
        }
    }

    /// Adds a buffer and tells its place.
    pub fn add(&mut self, key: BufferKey, buffer: T) -> (r: usize)
        requires
            old(self).buffers@.len() < MAX_BUFFERS,
        ensures
            final(self).wf(),
            final(self).buffers@ == old(self).buffers@.push((key, buffer)),
            r == old(self).buffers@.len(),
    {
        self.buffers.push((key, buffer));
        self.buffers.len() - 1
    }

    /// Drops the buffers of other layouts.
    pub fn retain(&mut self, key: BufferKey)
        requires
            old(self).wf(),
        ensures
            final(self).wf(),
            final(self).buffers@ == old(self).buffers@.filter(|b: (BufferKey, T)| b.0 == key),
    {
        let ghost all = self.buffers@;
        let ghost p = |b: (BufferKey, T)| b.0 == key;
        let mut kept: Vec<(BufferKey, T)> = Vec::new();
        let ghost mut done: int = 0;
        proof {
            reveal(Seq::filter);
            assert(all.take(0) =~= Seq::empty());
            assert(all.skip(0) =~= all);
        }
        while self.buffers.len() > 0
            invariant
                0 <= done <= all.len(),
                p == (|b: (BufferKey, T)| b.0 == key),
                self.buffers@ == all.skip(done),
                kept@ == all.take(done).filter(p),
                kept@.len() <= done,
            decreases self.buffers@.len(),
        {
            let entry = self.buffers.remove(0);
            proof {
                assert(entry == all[done]);
                assert(self.buffers@ =~= all.skip(done + 1));
                assert(all.take(done + 1).drop_last() =~= all.take(done));
                reveal(Seq::filter);
            }
            if entry.0 == key {
                kept.push(entry);
            }
            proof {
                done = done + 1;
            }
        }
        proof {
            assert(all.take(done) =~= all);
        }
        self.buffers = kept;
    }
}

/// Whether the compositor has released a buffer and nobody but the pool holds it.
pub open spec fn unused(released: bool, holders: nat) -> bool {
    released && holders == 1
}

/// A buffer may be written again once the compositor has released it and nobody but the
/// pool holds it.
pub fn buffer_available(released: bool, holders: usize) -> (r: bool)
    ensures
        r == unused(released, holders as nat),
{
    released && holders == 1
}

/// Where to capture, or why not now.
pub fn capture_slot<T>(pool: &BufferPool<T>, available: &Vec<bool>) -> (r: Result<
    Slot,
    Fault,
>)
    requires
        available@.len() == pool.buffers@.len(),
    ensures
        match chosen(available@) {
            Some(slot) => r == Ok::<Slot, Fault>(slot),
            None => r matches Err(e) && e.says(
                ErrorCode::Busy,
                "显示缓冲区仍在使用，丢弃过时帧"@,
            ),
        },
{
    match pool.slot(available) {
        Some(slot) => Ok(slot),
        None => Err(Fault::new(ErrorCode::Busy, "显示缓冲区仍在使用，丢弃过时帧")),
    }
}

/// Seconds to wait for a frame: long for one that follows damage, since a still picture
/// makes none.
pub fn frame_patience(damage: bool) -> (r: u64)
    ensures
        r == (if damage {
            3600u64
        } else {
            4u64
        }),
{
    if damage {
        3600
    } else {
        4
    }
}

/// What a captured buffer is shown as.
pub enum Shown {
    /// As it is, by the order of its bytes.
    Direct(PixelFormat),
    /// As an upright RGBA picture of the given size.
    Converted(Vec<u8>, u32, u32),
}

/// Order of the bytes of a pixel in memory that a little-endian machine captured.
pub open spec fn direct_format(format: ShmFormat) -> Option<PixelFormat> {
    match format {
        ShmFormat::Argb8888 => Some(PixelFormat::Bgra),
        ShmFormat::Xrgb8888 => Some(PixelFormat::Bgrx),
        ShmFormat::Abgr8888 => Some(PixelFormat::Rgba),
        ShmFormat::Xbgr8888 => Some(PixelFormat::Rgbx),
        ShmFormat::Other => None,
    }
}

/// Whether an upright RGBA picture shows a captured buffer.
pub open spec fn upright<'a>(
    capture: Capture<'a>,
    order: ByteOrder,
    transform: Transform,
    picture: Seq<u8>,
    width: u32,
    height: u32,
) -> bool {
    &&& (width, height) == shown_size(capture.width, capture.height, transform)
    &&& fits(picture, width as int, height as int)
    &&& forall|x: int, y: int, c: int|
        0 <= x < width && 0 <= y < height && 0 <= c < 4 ==> #[trigger] channel(
            picture,
            width as int,
            x,
            y,
            c,
        ) == ({
            let at = crate::picture::origin(
                capture.width as int,
                capture.height as int,
                transform,
                x,
                y,
            );
            capture.shown(order, at.0, at.1, c)
        })
}

/// Whether a capture is shown as it should be: directly if it stands upright in the byte order
/// that displays take, else converted.
pub open spec fn finished_as<'a>(
    capture: Capture<'a>,
    transform: Transform,
    order: ByteOrder,
    r: Result<Shown, Fault>,
) -> bool {
    if !readable(capture.format) {
        r matches Err(e) && e.says(ErrorCode::Unsupported, "不支持的 SHM 像素格式"@)
    } else if order == ByteOrder::Little && transform == Transform::Normal && !capture.inverted {
        r matches Ok(Shown::Direct(format)) && Some(format) == direct_format(capture.format)
    } else if !capture.complete() {
        r matches Err(e) && e.says(ErrorCode::BackendUnavailable, "截图缓冲区不完整"@)
    } else {
        r matches Ok(Shown::Converted(picture, width, height)) && upright(
            capture,
            order,
            transform,
            picture@,
            width,
            height,
        )
    }
}

/// Turns a finished capture into what is shown, for a given byte order.
pub fn finish_in(capture: &Capture, transform: Transform, order: ByteOrder) -> (r: Result<
    Shown,
    Fault,
>)
    ensures
        finished_as(*capture, transform, order, r),
{
    let little = match order {
        ByteOrder::Little => true,
        ByteOrder::Big => false,
    };
    let normal = match transform {
        Transform::Normal => true,
        _ => false,
    };
    if little && normal && !capture.inverted {
        return match capture.format {
            ShmFormat::Argb8888 => Ok(Shown::Direct(PixelFormat::Bgra)),
            ShmFormat::Xrgb8888 => Ok(Shown::Direct(PixelFormat::Bgrx)),
            ShmFormat::Abgr8888 => Ok(Shown::Direct(PixelFormat::Rgba)),
            ShmFormat::Xbgr8888 => Ok(Shown::Direct(PixelFormat::Rgbx)),
            ShmFormat::Other => Err(Fault::unsupported("不支持的 SHM 像素格式")),
        };
    }
    match capture.decode_in(order) {
        Err(e) => Err(e),
        Ok(rgba) => {
            let ghost flat = rgba@;
            let (picture, width, height) = crate::picture::orient(
                rgba,
                capture.width,
                capture.height,
                transform,
            );
            proof {
                let w = capture.width as int;
                let h = capture.height as int;
                assert forall|x: int, y: int, c: int|
                    0 <= x < width && 0 <= y < height && 0 <= c < 4 implies #[trigger] channel(
                    picture@,
                    width as int,
                    x,
                    y,
                    c,
                ) == ({
                    let at = crate::picture::origin(w, h, transform, x, y);
                    capture.shown(order, at.0, at.1, c)
                }) by {
                    let at = crate::picture::origin(w, h, transform, x, y);
                    assert(channel(flat, w, at.0, at.1, c) == capture.shown(order, at.0, at.1, c));
                }
            }
            Ok(Shown::Converted(picture, width, height))
        },
    }
}

/// Turns a finished capture into what is shown, on this machine.
pub fn finish_capture(capture: &Capture, transform: Transform) -> (r: Result<Shown, Fault>)
    ensures
        exists|order: ByteOrder| #[trigger]
            native(order) && finished_as(*capture, transform, order, r),
{
    finish_in(capture, transform, native_order())
}

/// Path of the user's display: its name, below the user's directory for such files unless it
/// is a whole path.
pub fn host_path(display: Option<Vec<u8>>, runtime: Option<Vec<u8>>) -> (r: Result<Vec<u8>, Fault>)
    ensures
        match display {
            None => r matches Err(e) && e.says(
                ErrorCode::BackendUnavailable,
                "缺少 WAYLAND_DISPLAY"@,
            ),
            Some(name) => if absolute(name@) {
                r matches Ok(v) && v@ == name@
            } else {
                match runtime {
                    None => r matches Err(e) && e.says(
                        ErrorCode::BackendUnavailable,
                        "缺少 XDG_RUNTIME_DIR"@,
                    ),
                    Some(directory) => r matches Ok(v) && v@ == below(directory@, name@),
                }
            },
        },
{
    match display {
        None => Err(Fault::unavailable("缺少 WAYLAND_DISPLAY")),
        Some(name) => {
            if is_absolute(&name) {
                return Ok(name);
            }
            match runtime {
                None => Err(Fault::unavailable("缺少 XDG_RUNTIME_DIR")),
                Some(directory) => Ok(join(&directory, &name)),
            }
        },
    }
}

} // verus!
