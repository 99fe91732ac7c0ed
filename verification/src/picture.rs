//! Pictures of four bytes a pixel: orientation, PNG and base64.
use vstd::prelude::*;

use crate::model::{ErrorCode, Fault};

verus! {

/// Byte `c` of the pixel in column `x` and row `y`.
pub open spec fn channel(pixels: Seq<u8>, width: int, x: int, y: int, c: int) -> u8 {
    pixels[(y * width + x) * 4 + c]
}

/// Whether bytes hold a picture of the given size.
pub open spec fn fits(pixels: Seq<u8>, width: int, height: int) -> bool {
    pixels.len() == 4 * (width * height)
}

/// Whether a picture holds, place by place, what another holds at a related place.
pub open spec fn copied(
    to: Seq<u8>,
    width: int,
    height: int,
    from: Seq<u8>,
    from_width: int,
    place: spec_fn(int, int) -> (int, int),
) -> bool {
    forall|x: int, y: int, c: int|
        0 <= x < width && 0 <= y < height && 0 <= c < 4 ==> #[trigger] channel(to, width, x, y, c)
            == channel(from, from_width, place(x, y).0, place(x, y).1, c)
}

/// `image::imageops::rotate90`: a quarter turn clockwise.
#[verifier::external_body]
fn turn_90(pixels: Vec<u8>, width: u32, height: u32) -> (r: Vec<u8>)
    requires
        fits(pixels@, width as int, height as int),
    ensures
        fits(r@, height as int, width as int),
        copied(
            r@,
            height as int,
            width as int,
            pixels@,
            width as int,
            |x: int, y: int| (y, height - 1 - x),
        ),
{
    let picture = image::RgbaImage::from_raw(width, height, pixels).unwrap();
    image::imageops::rotate90(&picture).into_raw()
}

/// `image::imageops::rotate180`: half a turn.
#[verifier::external_body]
fn turn_180(pixels: Vec<u8>, width: u32, height: u32) -> (r: Vec<u8>)
    requires
        fits(pixels@, width as int, height as int),
    ensures
        fits(r@, width as int, height as int),
        copied(
            r@,
            width as int,
            height as int,
            pixels@,
            width as int,
            |x: int, y: int| (width - 1 - x, height - 1 - y),
        ),
{
    let picture = image::RgbaImage::from_raw(width, height, pixels).unwrap();
    image::imageops::rotate180(&picture).into_raw()
}

/// `image::imageops::rotate270`: three quarters of a turn clockwise.
#[verifier::external_body]
fn turn_270(pixels: Vec<u8>, width: u32, height: u32) -> (r: Vec<u8>)
    requires
        fits(pixels@, width as int, height as int),
    ensures
        fits(r@, height as int, width as int),
        copied(
            r@,
            height as int,
            width as int,
            pixels@,
            width as int,
            |x: int, y: int| (width - 1 - y, x),
        ),
{
    let picture = image::RgbaImage::from_raw(width, height, pixels).unwrap();
    image::imageops::rotate270(&picture).into_raw()
}

/// `image::imageops::flip_horizontal`: left and right exchanged.
#[verifier::external_body]
fn mirror(pixels: Vec<u8>, width: u32, height: u32) -> (r: Vec<u8>)
    requires
        fits(pixels@, width as int, height as int),
    ensures
        fits(r@, width as int, height as int),
        copied(
            r@,
            width as int,
            height as int,
            pixels@,
            width as int,
            |x: int, y: int| (width - 1 - x, y),
        ),
{
    let picture = image::RgbaImage::from_raw(width, height, pixels).unwrap();
    image::imageops::flip_horizontal(&picture).into_raw()
}

/// How an output stands: turned by quarters, after being mirrored or not.
#[derive(Debug, Clone, Copy, PartialEq, Eq, Structural)]
pub enum Transform {
    Normal,
    Quarter,
    Half,
    ThreeQuarters,
    Flipped,
    FlippedQuarter,
    FlippedHalf,
    FlippedThreeQuarters,
}

/// Whether a transform exchanges width and height.
pub open spec fn sideways(transform: Transform) -> bool {
    match transform {
        Transform::Quarter => true,
        Transform::ThreeQuarters => true,
        Transform::FlippedQuarter => true,
        Transform::FlippedThreeQuarters => true,
        _ => false,
    }
}

/// Size of what an output of the given size and transform shows.
pub open spec fn shown_size(width: u32, height: u32, transform: Transform) -> (u32, u32) {
    if sideways(transform) {
        (height, width)
    } else {
        (width, height)
    }
}

/// Size of what an output shows.
pub fn oriented_size(width: u32, height: u32, transform: Transform) -> (r: (u32, u32))
    ensures
        r == shown_size(width, height, transform),
{
    match transform {
        Transform::Quarter => (height, width),
        Transform::ThreeQuarters => (height, width),
        Transform::FlippedQuarter => (height, width),
        Transform::FlippedThreeQuarters => (height, width),
        _ => (width, height),
    }
}

/// Where in a buffer of the given size the pixel stands that is shown at a place.
pub open spec fn origin(
    width: int,
    height: int,
    transform: Transform,
    x: int,
    y: int,
) -> (int, int) {
    match transform {
        Transform::Normal => (x, y),
        Transform::Quarter => (y, height - 1 - x),
        Transform::Half => (width - 1 - x, height - 1 - y),
        Transform::ThreeQuarters => (width - 1 - y, x),
        Transform::Flipped => (width - 1 - x, y),
        Transform::FlippedQuarter => (width - 1 - y, height - 1 - x),
        Transform::FlippedHalf => (x, height - 1 - y),
        Transform::FlippedThreeQuarters => (y, x),
    }
}

/// Turns a buffer upright. Every shown pixel comes from its place in the buffer.
pub fn orient(pixels: Vec<u8>, width: u32, height: u32, transform: Transform) -> (r: (
    Vec<u8>,
    u32,
    u32,
))
    requires
        fits(pixels@, width as int, height as int),
    ensures
        (r.1, r.2) == shown_size(width, height, transform),
        fits(r.0@, r.1 as int, r.2 as int),
        copied(
            r.0@,
            r.1 as int,
            r.2 as int,
            pixels@,
            width as int,
            |x: int, y: int| origin(width as int, height as int, transform, x, y),
        ),
{
    let ghost source = pixels@;
    let ghost w = width as int;
    let ghost h = height as int;
    match transform {
        Transform::Normal => (pixels, width, height),
        Transform::Quarter => (turn_90(pixels, width, height), height, width),
        Transform::Half => (turn_180(pixels, width, height), width, height),
        Transform::ThreeQuarters => (turn_270(pixels, width, height), height, width),
        Transform::Flipped => (mirror(pixels, width, height), width, height),
        Transform::FlippedQuarter => {
            let flipped = mirror(pixels, width, height);
            let ghost middle = flipped@;
            let out = turn_90(flipped, width, height);
            proof {
                assert forall|x: int, y: int, c: int|
                    0 <= x < h && 0 <= y < w && 0 <= c < 4 implies #[trigger] channel(
                    out@,
                    h,
                    x,
                    y,
                    c,
                ) == channel(source, w, w - 1 - y, h - 1 - x, c) by {
                    assert(channel(out@, h, x, y, c) == channel(middle, w, y, h - 1 - x, c));
                }
            }
            (out, height, width)
        },
        Transform::FlippedHalf => {
            let flipped = mirror(pixels, width, height);
            let ghost middle = flipped@;
            let out = turn_180(flipped, width, height);
            proof {
                assert forall|x: int, y: int, c: int|
                    0 <= x < w && 0 <= y < h && 0 <= c < 4 implies #[trigger] channel(
                    out@,
                    w,
                    x,
                    y,
                    c,
                ) == channel(source, w, x, h - 1 - y, c) by {
                    assert(channel(out@, w, x, y, c) == channel(middle, w, w - 1 - x, h - 1 - y, c));
                }
            }
            (out, width, height)
        },
        Transform::FlippedThreeQuarters => {
            let flipped = mirror(pixels, width, height);
            let ghost middle = flipped@;
            let out = turn_270(flipped, width, height);
            proof {
                assert forall|x: int, y: int, c: int|
                    0 <= x < h && 0 <= y < w && 0 <= c < 4 implies #[trigger] channel(
                    out@,
                    h,
                    x,
                    y,
                    c,
                ) == channel(source, w, y, x, c) by {
                    assert(channel(out@, h, x, y, c) == channel(middle, w, w - 1 - y, x, c));
                }
            }
            (out, height, width)
        },
    }
}

/// Turning a buffer upright loses no pixel: each place of the buffer is shown at exactly
/// one place, within the shown size.
pub proof fn orientation_is_a_bijection(
    width: int,
    height: int,
    transform: Transform,
    x: int,
    y: int,
)
    requires
        0 <= x < width,
        0 <= y < height,
    ensures
        exists|u: int, v: int|
            #![trigger origin(width, height, transform, u, v)]
            {
                &&& origin(width, height, transform, u, v) == (x, y)
                &&& sideways(transform) ==> 0 <= u < height && 0 <= v < width
                &&& !sideways(transform) ==> 0 <= u < width && 0 <= v < height
            },
        forall|u: int, v: int, s: int, t: int|
            #![trigger origin(width, height, transform, u, v), origin(width, height, transform, s, t)]
            origin(width, height, transform, u, v) == origin(width, height, transform, s, t) ==> (
            u,
            v,
        ) == (s, t),
{
    let (u, v) = match transform {
        Transform::Normal => (x, y),
        Transform::Quarter => (height - 1 - y, x),
        Transform::Half => (width - 1 - x, height - 1 - y),
        Transform::ThreeQuarters => (y, width - 1 - x),
        Transform::Flipped => (width - 1 - x, y),
        Transform::FlippedQuarter => (height - 1 - y, width - 1 - x),
        Transform::FlippedHalf => (x, height - 1 - y),
        Transform::FlippedThreeQuarters => (y, x),
    };
    assert(origin(width, height, transform, u, v) == (x, y));
}

/// The PNG file that the `image` crate writes for a picture, or its error message.
pub uninterp spec fn png_of(pixels: Seq<u8>, width: u32, height: u32) -> Result<
    Seq<u8>,
    Seq<char>,
>;

/// `image::ImageBuffer::write_to` with the PNG format, into memory: the file, or the text
/// of the error. Both are left to the name `png_of`, which depends on nothing else.
#[verifier::external_body]
fn write_png(pixels: Vec<u8>, width: u32, height: u32) -> (r: Result<Vec<u8>, String>)
    requires
        fits(pixels@, width as int, height as int),
    ensures
        match png_of(pixels@, width, height) {
            Ok(file) => r matches Ok(v) && v@ == file,
            Err(message) => r matches Err(m) && m@ == message,
        },
{
    let mut file = std::io::Cursor::new(Vec::new());
    image::RgbaImage::from_raw(width, height, pixels).unwrap()
        .write_to(&mut file, image::ImageFormat::Png)
        .map_err(|e| e.to_string())?;
    Ok(file.into_inner())
}

/// A symbol of the standard base64 alphabet.
pub open spec fn base64_symbol(n: int) -> char {
    if n < 26 {
        (65 + n) as char
    } else if n < 52 {
        (71 + n) as char
    } else if n < 62 {
        (n - 4) as char
    } else if n == 62 {
        '+'
    } else {
        '/'
    }
}

/// A byte, or zero past the end.
pub open spec fn byte_or_zero(b: Seq<u8>, i: int) -> int {
    if 0 <= i < b.len() {
        b[i] as int
    } else {
        0
    }
}

/// Standard base64 with padding: four symbols for every three bytes, of six bits each from
/// the highest down, and `=` where a symbol would hold no bit of the input.
pub open spec fn base64_of(b: Seq<u8>) -> Seq<char> {
    Seq::new(
        ((b.len() + 2) / 3 * 4) as nat,
        |i: int|
            {
                let first = i / 4 * 3;
                let place = i % 4;
                let group = byte_or_zero(b, first) * 65536 + byte_or_zero(b, first + 1) * 256
                    + byte_or_zero(b, first + 2);
                if place >= 2 && first + place - 1 >= b.len() {
                    '='
                } else if place == 0 {
                    base64_symbol(group / 262144)
                } else if place == 1 {
                    base64_symbol(group / 4096 % 64)
                } else if place == 2 {
                    base64_symbol(group / 64 % 64)
                } else {
                    base64_symbol(group % 64)
                }
            },
    )
}

/// `base64::Engine::encode` of the standard engine: base64 with padding.
#[verifier::external_body]
fn write_base64(data: &Vec<u8>) -> (r: String)
    ensures
        r@ == base64_of(data@),
{
    base64::Engine::encode(&base64::engine::general_purpose::STANDARD, data)
}

/// `base64::Engine::decode` of the standard engine, which takes only what encoding gives:
/// padding is required, and bits that would be lost must be zero.
#[verifier::external_body]
fn read_base64(text: &str) -> (r: Option<Vec<u8>>)
    ensures
        match r {
            Some(data) => base64_of(data@) == text@,
            None => forall|data: Seq<u8>| #[trigger] base64_of(data) != text@,
        },
{
    base64::Engine::decode(&base64::engine::general_purpose::STANDARD, text).ok()
}

/// What is handed to the client of a picture that was written, or not, as a PNG file.
pub fn published(file: Result<Vec<u8>, String>, width: u32, height: u32) -> (r: Result<
    (String, u32, u32),
    Fault,
>)
    ensures
        match file {
            Ok(data) => r matches Ok(v) && v.0@ == base64_of(data@) && v.1 == width && v.2
                == height,
            Err(message) => r matches Err(e) && e.says(ErrorCode::BackendUnavailable, message@),
        },
{
    match file {
        Ok(data) => Ok((write_base64(&data), width, height)),
        Err(message) => Err(Fault::unavailable(message.as_str())),
    }
}

/// Publishes a picture: PNG in base64, with its size.
pub fn publish(pixels: Vec<u8>, width: u32, height: u32) -> (r: Result<(String, u32, u32), Fault>)
    requires
        fits(pixels@, width as int, height as int),
    ensures
        match png_of(pixels@, width, height) {
            Ok(file) => r matches Ok(v) && v.0@ == base64_of(file) && v.1 == width && v.2 == height,
            Err(message) => r matches Err(e) && e.says(ErrorCode::BackendUnavailable, message),
        },
{
    let file = write_png(pixels, width, height);
    published(file, width, height)
}

/// Whether a text is the base64 of a file, or none is given as it is that of no file.
pub open spec fn holds_file(text: Seq<char>, file: Option<Vec<u8>>) -> bool {
    match file {
        Some(data) => base64_of(data@) == text,
        None => forall|data: Seq<u8>| #[trigger] base64_of(data) != text,
    }
}

/// The file in a published picture.
pub fn unpublish(text: &str) -> (r: Option<Vec<u8>>)
    ensures
        holds_file(text@, r),
{
    read_base64(text)
}

proof fn symbols_differ(m: int, n: int)
    requires
        0 <= m < 64,
        0 <= n < 64,
        base64_symbol(m) == base64_symbol(n),
    ensures
        m == n,
{
}

/// Base64 tells files apart: what is read back is what was written.
pub proof fn base64_reads_back(a: Seq<u8>, b: Seq<u8>)
    requires
        base64_of(a) == base64_of(b),
    ensures
        a == b,
{
    let s = base64_of(a);
    let t = base64_of(b);
    assert(s.len() == (a.len() + 2) / 3 * 4);
    assert(t.len() == (b.len() + 2) / 3 * 4);
    let groups = (a.len() + 2) / 3;
    assert(groups == (b.len() + 2) / 3);
    assert(forall|n: int| 0 <= n < 64 ==> #[trigger] base64_symbol(n) != '=');
    if groups > 0 {
        let last = (groups - 1) as int;
        assert(last * 4 / 4 * 3 == last * 3);
        assert((last * 4 + 2) / 4 * 3 == last * 3);
        assert((last * 4 + 3) / 4 * 3 == last * 3);
        lemma_padding(a, last);
        lemma_padding(b, last);
        assert(s[last * 4 + 2] == t[last * 4 + 2]);
        assert(s[last * 4 + 3] == t[last * 4 + 3]);
    }
    assert(a.len() == b.len());
    assert forall|i: int| 0 <= i < a.len() implies a[i] == b[i] by {
        lemma_group(a, b, i / 3);
        assert(i == i / 3 * 3 + i % 3);
        assert(byte_or_zero(a, i) == a[i]);
        assert(byte_or_zero(b, i) == b[i]);
    }
    assert(a =~= b);
}

/// Where the last group is padded tells the length.
proof fn lemma_padding(a: Seq<u8>, last: int)
    requires
        a.len() > 0,
        last == (a.len() + 2) / 3 - 1,
    ensures
        (base64_of(a)[last * 4 + 2] == '=') == (a.len() == last * 3 + 1),
        (base64_of(a)[last * 4 + 3] == '=') == (a.len() <= last * 3 + 2),
{
    let s = base64_of(a);
    let group = byte_or_zero(a, last * 3) * 65536 + byte_or_zero(a, last * 3 + 1) * 256
        + byte_or_zero(a, last * 3 + 2);
    assert((last * 4 + 2) / 4 * 3 == last * 3 && (last * 4 + 2) % 4 == 2);
    assert((last * 4 + 3) / 4 * 3 == last * 3 && (last * 4 + 3) % 4 == 3);
    assert(base64_symbol(group / 64 % 64) != '=');
    assert(base64_symbol(group % 64) != '=');
}

/// Equal symbols of a group come from equal bytes.
proof fn lemma_group(a: Seq<u8>, b: Seq<u8>, q: int)
    requires
        base64_of(a) == base64_of(b),
        a.len() == b.len(),
        0 <= q,
        q * 3 < a.len(),
    ensures
        byte_or_zero(a, q * 3) == byte_or_zero(b, q * 3),
        byte_or_zero(a, q * 3 + 1) == byte_or_zero(b, q * 3 + 1),
        byte_or_zero(a, q * 3 + 2) == byte_or_zero(b, q * 3 + 2),
{
    let s = base64_of(a);
    let t = base64_of(b);
    let g = group_of(a, q);
    let h = group_of(b, q);
    assert(q * 4 + 3 < s.len());
    assert((q * 4) / 4 * 3 == q * 3 && (q * 4) % 4 == 0);
    assert((q * 4 + 1) / 4 * 3 == q * 3 && (q * 4 + 1) % 4 == 1);
    assert((q * 4 + 2) / 4 * 3 == q * 3 && (q * 4 + 2) % 4 == 2);
    assert((q * 4 + 3) / 4 * 3 == q * 3 && (q * 4 + 3) % 4 == 3);
    assert(s[q * 4] == t[q * 4]);
    assert(s[q * 4 + 1] == t[q * 4 + 1]);
    assert(s[q * 4 + 2] == t[q * 4 + 2]);
    assert(s[q * 4 + 3] == t[q * 4 + 3]);
    assert(0 <= g < 16777216);
    assert(0 <= h < 16777216);
    symbols_differ(g / 262144, h / 262144);
    symbols_differ(g / 4096 % 64, h / 4096 % 64);
    assert(g / 64 % 64 == h / 64 % 64) by {
        if q * 3 + 1 < a.len() {
            symbols_differ(g / 64 % 64, h / 64 % 64);
        } else {
            lemma_multiple(byte_or_zero(a, q * 3), byte_or_zero(b, q * 3));
        }
    }
    assert(g % 64 == h % 64) by {
        if q * 3 + 2 < a.len() {
            symbols_differ(g % 64, h % 64);
        }
    }
    lemma_sextets(g, h);
    lemma_bytes(
        byte_or_zero(a, q * 3),
        byte_or_zero(a, q * 3 + 1),
        byte_or_zero(a, q * 3 + 2),
        byte_or_zero(b, q * 3),
        byte_or_zero(b, q * 3 + 1),
        byte_or_zero(b, q * 3 + 2),
    );
}

/// The three bytes of a group as one number.
spec fn group_of(b: Seq<u8>, q: int) -> int {
    byte_or_zero(b, q * 3) * 65536 + byte_or_zero(b, q * 3 + 1) * 256 + byte_or_zero(b, q * 3 + 2)
}

proof fn lemma_multiple(x: int, y: int)
    ensures
        x * 65536 / 64 % 64 == 0,
        y * 65536 / 64 % 64 == 0,
{
    lemma_multiple_of_one(x);
    lemma_multiple_of_one(y);
}

proof fn lemma_multiple_of_one(x: int)
    ensures
        x * 65536 / 64 % 64 == 0,
{
    vstd::arithmetic::div_mod::lemma_div_multiples_vanish(x * 1024, 64);
    assert(x * 65536 == 64 * (x * 1024));
    vstd::arithmetic::div_mod::lemma_mod_multiples_basic(x * 16, 64);
    assert(x * 1024 == (x * 16) * 64);
}

/// Four sextets determine a number.
proof fn lemma_sextets(g: int, h: int)
    requires
        0 <= g < 16777216,
        0 <= h < 16777216,
        g / 262144 == h / 262144,
        g / 4096 % 64 == h / 4096 % 64,
        g / 64 % 64 == h / 64 % 64,
        g % 64 == h % 64,
    ensures
        g == h,
{
    assert(g / 4096 == g / 262144 * 64 + g / 4096 % 64);
    assert(h / 4096 == h / 262144 * 64 + h / 4096 % 64);
    assert(g / 64 == g / 4096 * 64 + g / 64 % 64);
    assert(h / 64 == h / 4096 * 64 + h / 64 % 64);
}

/// A number below two to the power of 24 has one reading as three bytes.
proof fn lemma_bytes(x0: int, x1: int, x2: int, y0: int, y1: int, y2: int)
    requires
        0 <= x0 < 256,
        0 <= x1 < 256,
        0 <= x2 < 256,
        0 <= y0 < 256,
        0 <= y1 < 256,
        0 <= y2 < 256,
        x0 * 65536 + x1 * 256 + x2 == y0 * 65536 + y1 * 256 + y2,
    ensures
        x0 == y0,
        x1 == y1,
        x2 == y2,
{
}

} // verus!
