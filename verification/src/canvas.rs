//! The fixed-size RGBA canvas: raw buffers, data-URL transcoding, and
//! hollow-rectangle rendering.
//!
//! A canvas travels in two forms: a raw buffer of `CANVAS_BYTES` RGBA
//! bytes, and a `data:image/png;base64,` URL wrapping a base64 PNG. The
//! PNG and base64 codecs and the rectangle rasterizer are outside
//! collaborators; each is reached through one trusted wrapper whose
//! contract names its result, and everything around the calls is verified.

use vstd::prelude::*;
use crate::color::Color;
use crate::color::color_of;
use crate::color::valid_color;
use crate::error::CanvasError;
use crate::shape::ShapeKind;
use crate::shape::axis_extent;
use crate::shape::axis_min;
use crate::shape::line_name;
use crate::shape::parse_shape;
use crate::shape::rect_name;
use crate::shape::normalize_axis;
use crate::color::parse_color;

verus! {

/// Canvas width in pixels: the whole system draws at one fixed size.
pub const CANVAS_WIDTH: u32 = 800;

/// Canvas height in pixels.
pub const CANVAS_HEIGHT: u32 = 600;

/// Bytes in one raw RGBA canvas: four bytes per pixel.
pub const CANVAS_BYTES: usize = 800 * 600 * 4;

/// base64's decode error, carried through unread.
#[verifier::external_type_specification]
#[verifier::external_body]
pub struct ExDecodeError(base64::DecodeError);

/// image's error type, carried through unread.
#[verifier::external_type_specification]
#[verifier::external_body]
pub struct ExImageError(image::ImageError);

/// What standard-alphabet base64 decoding yields on the bytes, if anything.
pub uninterp spec fn base64_decoded(s: Seq<u8>) -> Option<Seq<u8>>;

/// The standard-alphabet base64 encoding of the bytes.
pub uninterp spec fn base64_of(s: Seq<u8>) -> Seq<u8>;

/// The RGBA pixels and dimensions an image byte stream decodes to, if any.
pub uninterp spec fn rgba_decoded(s: Seq<u8>) -> Option<(Seq<u8>, u32, u32)>;

/// The PNG encoding of one raw canvas of the fixed size.
pub uninterp spec fn png_encoded(s: Seq<u8>) -> Seq<u8>;

/// The canvas after a hollow rectangle of the given color is rasterized
/// onto it, with top-left corner `(x, y)`, width `w` and height `h`.
pub uninterp spec fn hollow_rect_on(
    c: Seq<u8>,
    x: u32,
    y: u32,
    w: u32,
    h: u32,
    r: u8,
    g: u8,
    b: u8,
) -> Seq<u8>;

/// Relies on base64::engine::Engine::decode with the standard engine: the
/// outcome, success or failure, is a function of the input bytes alone.
#[verifier::external_body]
fn base64_decode(s: &[u8]) -> (r: Result<Vec<u8>, base64::DecodeError>)
    ensures
        r matches Ok(v) ==> base64_decoded(s@) == Some(v@),
        r is Err ==> base64_decoded(s@) is None,
{
    base64::engine::Engine::decode(&base64::engine::general_purpose::STANDARD, s)
}

/// Relies on base64::engine::Engine::encode with the standard engine: the
/// encoding is total and a function of the input bytes alone.
#[verifier::external_body]
fn base64_encode(s: &[u8]) -> (r: Vec<u8>)
    ensures
        r@ == base64_of(s@),
{
    base64::engine::Engine::encode(&base64::engine::general_purpose::STANDARD, s).into_bytes()
}

/// Relies on image::load_from_memory and DynamicImage::to_rgba8: the
/// outcome is a function of the input bytes alone, and an RGBA buffer
/// holds four bytes per pixel of the decoded dimensions.
#[verifier::external_body]
fn png_decode(s: &[u8]) -> (r: Result<(Vec<u8>, u32, u32), image::ImageError>)
    ensures
        r matches Ok(t) ==> rgba_decoded(s@) == Some((t.0@, t.1, t.2)) && t.0@.len() == 4 * (
        t.1 as int) * (t.2 as int),
        r is Err ==> rgba_decoded(s@) is None,
{
    let img = image::load_from_memory(s)?.to_rgba8();
    let (w, h) = (img.width(), img.height());
    Ok((img.into_raw(), w, h))
}

/// Relies on image's PngEncoder::write_image for an 800 by 600 RGBA
/// buffer: writing into a fresh Vec cannot fail, and the encoded bytes are
/// a function of the pixel bytes alone.
#[verifier::external_body]
fn png_encode(c: &[u8]) -> (r: Vec<u8>)
    requires
        c@.len() == CANVAS_BYTES,
    ensures
        r@ == png_encoded(c@),
{
    let mut buf = Vec::new();
    let enc = image::codecs::png::PngEncoder::new(&mut buf);
    image::ImageEncoder::write_image(enc, c, CANVAS_WIDTH, CANVAS_HEIGHT,
        image::ExtendedColorType::Rgba8).unwrap();
    buf
}

/// Relies on imageproc::drawing::draw_hollow_rect_mut and RgbaImage's raw
/// buffer round trip: the outline is a function of the arguments alone and
/// drawing never changes the buffer's length. The bounds keep imageproc's
/// rectangle arithmetic in range and its width and height nonzero, so the
/// call cannot panic.
#[verifier::external_body]
fn rasterize_hollow_rect(canvas: Vec<u8>, x: u32, y: u32, w: u32, h: u32, color: Color) -> (r: Vec<
    u8,
>)
    requires
        canvas@.len() == CANVAS_BYTES,
        x < CANVAS_WIDTH,
        y < CANVAS_HEIGHT,
        1 <= w <= CANVAS_WIDTH + 1,
        1 <= h <= CANVAS_HEIGHT + 1,
    ensures
        r@ == hollow_rect_on(canvas@, x, y, w, h, color.r, color.g, color.b),
        r@.len() == canvas@.len(),
{
    let mut img = image::RgbaImage::from_vec(CANVAS_WIDTH, CANVAS_HEIGHT, canvas).unwrap();
    let rect = imageproc::rect::Rect::at(x as i32, y as i32).of_size(w, h);
    imageproc::drawing::draw_hollow_rect_mut(&mut img, rect,
        image::Rgba([color.r, color.g, color.b, 255]));
    img.into_raw()
}

/// The fully transparent canvas: every byte zero.
pub open spec fn blank() -> Seq<u8> {
    Seq::new(CANVAS_BYTES as nat, |i: int| 0u8)
}

/// A fresh fully transparent canvas.
pub fn blank_canvas() -> (r: Vec<u8>)
    ensures
        r@ == blank(),
{
    let r = vec![0u8; CANVAS_BYTES];
    proof {
        assert forall|i: int| 0 <= i < r@.len() implies r@[i] == 0u8 by {
            assert(vstd::pervasive::cloned::<u8>(0u8, r@[i]));
        }
        assert(r@ =~= blank());
    }
    r
}

/// Whether the bytes contain a comma: a data URL's header ends at the
/// first one.
pub open spec fn has_comma(s: Seq<u8>) -> bool {
    exists|i: int| 0 <= i < s.len() && s[i] == 44
}

/// Whether `i` is the index of the first comma in `s`.
pub open spec fn is_first_comma(s: Seq<u8>, i: int) -> bool {
    &&& 0 <= i < s.len()
    &&& s[i] == 44
    &&& forall|j: int| 0 <= j < i ==> s[j] != 44
}

/// The index of the first comma in `s`.
pub open spec fn first_comma(s: Seq<u8>) -> int {
    choose|i: int| is_first_comma(s, i)
}

proof fn lemma_some_first_comma(s: Seq<u8>, k: int)
    requires
        0 <= k < s.len(),
        s[k] == 44,
    ensures
        is_first_comma(s, first_comma(s)),
    decreases k,
{
    if forall|j: int| 0 <= j < k ==> s[j] != 44 {
        assert(is_first_comma(s, k));
    } else {
        let j = choose|j: int| 0 <= j < k && s[j] == 44;
        lemma_some_first_comma(s, j);
    }
}

/// Finds the first comma, if any.
fn find_comma(s: &[u8]) -> (r: Option<usize>)
    ensures
        match r {
            Some(i) => is_first_comma(s@, i as int) && i as int == first_comma(s@),
            None => !has_comma(s@),
        },
{
    let mut i: usize = 0;
    while i < s.len()
        invariant
            i <= s@.len(),
            forall|j: int| 0 <= j < i ==> s@[j] != 44,
        decreases s@.len() - i,
    {
        if s[i] == 44 {
            proof {
                lemma_some_first_comma(s@, i as int);
            }
            return Some(i);
        }
        i += 1;
    }
    None
}

/// The base64 payload of a data URL: everything after the first comma.
pub open spec fn url_payload(s: Seq<u8>) -> Option<Seq<u8>> {
    if has_comma(s) {
        Some(s.skip(first_comma(s) + 1))
    } else {
        None
    }
}

/// The canvas a data URL denotes: the payload after the first comma,
/// base64 decoded, PNG decoded, and of the fixed canvas size.
pub open spec fn canvas_of_url(s: Seq<u8>) -> Option<Seq<u8>> {
    match url_payload(s) {
        None => None,
        Some(p) => match base64_decoded(p) {
            None => None,
            Some(png) => match rgba_decoded(png) {
                None => None,
                Some(d) => if d.1 == CANVAS_WIDTH && d.2 == CANVAS_HEIGHT {
                    Some(d.0)
                } else {
                    None
                },
            },
        },
    }
}

/// Decodes a `data:...;base64,` URL into a raw canvas of the fixed size,
/// rejecting anything else.
pub fn decode_data_url(s: &[u8]) -> (r: Result<Vec<u8>, CanvasError>)
    ensures
        match r {
            Ok(v) => canvas_of_url(s@) == Some(v@) && v@.len() == CANVAS_BYTES,
            Err(e) => canvas_of_url(s@) is None && e == CanvasError::InvalidEncoding,
        },
{
    let i = match find_comma(s) {
        Some(i) => i,
        None => {
            return Err(CanvasError::InvalidEncoding);
        },
    };
    let n = s.len();
    let payload = &s[i + 1..n];
    proof {
        assert(payload@ =~= s@.skip(i + 1));
    }
    let png = match base64_decode(payload) {
        Ok(v) => v,
        Err(_) => {
            return Err(CanvasError::InvalidEncoding);
        },
    };
    let (buf, w, h) = match png_decode(png.as_slice()) {
        Ok(t) => t,
        Err(_) => {
            return Err(CanvasError::InvalidEncoding);
        },
    };
    if w != CANVAS_WIDTH || h != CANVAS_HEIGHT {
        return Err(CanvasError::InvalidEncoding);
    }
    Ok(buf)
}

/// The base canvas a command starts from: a blank canvas when none is
/// given, else the canvas the data URL denotes.
pub open spec fn spec_base_canvas(current: Option<Seq<u8>>) -> Option<Seq<u8>> {
    match current {
        None => Some(blank()),
        Some(s) => canvas_of_url(s),
    }
}

/// The canvas to draw on: blank when no current canvas is given, else the
/// decoded current canvas.
pub fn base_canvas(current: Option<&Vec<u8>>) -> (r: Result<Vec<u8>, CanvasError>)
    ensures
        match r {
            Ok(v) => spec_base_canvas(match current {
                Some(c) => Some(c@),
                None => None,
            }) == Some(v@) && v@.len() == CANVAS_BYTES,
            Err(e) => spec_base_canvas(match current {
                Some(c) => Some(c@),
                None => None,
            }) is None && e == CanvasError::InvalidEncoding,
        },
{
    match current {
        None => {
            let v = blank_canvas();
            proof {
                assert(blank().len() == CANVAS_BYTES as int);
            }
            Ok(v)
        },
        Some(c) => decode_data_url(c.as_slice()),
    }
}

/// The `data:image/png;base64,` header, as bytes.
pub open spec fn data_url_header() -> Seq<u8> {
    seq![
        100u8,
        97u8,
        116u8,
        97u8,
        58u8,
        105u8,
        109u8,
        97u8,
        103u8,
        101u8,
        47u8,
        112u8,
        110u8,
        103u8,
        59u8,
        98u8,
        97u8,
        115u8,
        101u8,
        54u8,
        52u8,
        44u8,
    ]
}

/// The data URL of a canvas: the PNG of its pixels, base64 encoded,
/// behind the fixed header.
pub open spec fn data_url_of(c: Seq<u8>) -> Seq<u8> {
    data_url_header() + base64_of(png_encoded(c))
}

/// Encodes a raw canvas as a `data:image/png;base64,` URL.
pub fn encode_data_url(canvas: &[u8]) -> (r: Vec<u8>)
    requires
        canvas@.len() == CANVAS_BYTES,
    ensures
        r@ == data_url_of(canvas@),
{
    let png = png_encode(canvas);
    let mut b64 = base64_encode(png.as_slice());
    let mut out: Vec<u8> = Vec::new();
    out.push(100);  // 'd'
    out.push(97);  // 'a'
    out.push(116);  // 't'
    out.push(97);  // 'a'
    out.push(58);  // ':'
    out.push(105);  // 'i'
    out.push(109);  // 'm'
    out.push(97);  // 'a'
    out.push(103);  // 'g'
    out.push(101);  // 'e'
    out.push(47);  // '/'
    out.push(112);  // 'p'
    out.push(110);  // 'n'
    out.push(103);  // 'g'
    out.push(59);  // ';'
    out.push(98);  // 'b'
    out.push(97);  // 'a'
    out.push(115);  // 's'
    out.push(101);  // 'e'
    out.push(54);  // '6'
    out.push(52);  // '4'
    out.push(44);  // ','
    proof {
        assert(out@ =~= data_url_header());
    }
    out.append(&mut b64);
    out
}

/// An extent clipped so the far edge stops one pixel past the canvas:
/// everything beyond the edge is invisible either way, so the clipped
/// rectangle rasterizes to the same visible outline.
pub open spec fn clip_extent(e: u32, limit: int) -> u32 {
    if e as int <= limit {
        e
    } else {
        limit as u32
    }
}

/// The canvas after the draw-rectangle command: corners normalized so
/// either order names the same rectangle, the extent clipped to the
/// canvas, and a degenerate or fully off-canvas rectangle drawing
/// nothing.
pub open spec fn rect_drawn(c: Seq<u8>, sx: u32, sy: u32, ex: u32, ey: u32, color: Color) -> Seq<
    u8,
> {
    let x = axis_min(sx, ex);
    let y = axis_min(sy, ey);
    let w = axis_extent(sx, ex);
    let h = axis_extent(sy, ey);
    if w == 0 || h == 0 || x >= CANVAS_WIDTH || y >= CANVAS_HEIGHT {
        c
    } else {
        hollow_rect_on(
            c,
            x,
            y,
            clip_extent(w, CANVAS_WIDTH as int + 1 - x),
            clip_extent(h, CANVAS_HEIGHT as int + 1 - y),
            color.r,
            color.g,
            color.b,
        )
    }
}

/// Law: a rectangle drawn from reversed corner coordinates is the same
/// rectangle: the command normalizes the corners before computing any
/// extent, so no subtraction can underflow.
pub proof fn lemma_rect_drawn_symmetric(
    c: Seq<u8>,
    sx: u32,
    sy: u32,
    ex: u32,
    ey: u32,
    color: Color,
)
    ensures
        rect_drawn(c, sx, sy, ex, ey, color) == rect_drawn(c, ex, ey, sx, sy, color),
{
    crate::shape::lemma_axis_symmetric(sx, ex);
    crate::shape::lemma_axis_symmetric(sy, ey);
}

/// Draws a hollow rectangle between two corners, given in either order,
/// onto the canvas.
pub fn draw_rect(canvas: Vec<u8>, sx: u32, sy: u32, ex: u32, ey: u32, color: Color) -> (r: Vec<u8>)
    requires
        canvas@.len() == CANVAS_BYTES,
    ensures
        r@ == rect_drawn(canvas@, sx, sy, ex, ey, color),
        r@.len() == CANVAS_BYTES,
{
    let (x, w0) = normalize_axis(sx, ex);
    let (y, h0) = normalize_axis(sy, ey);
    if w0 == 0 || h0 == 0 || x >= CANVAS_WIDTH || y >= CANVAS_HEIGHT {
        return canvas;
    }
    let wlimit = CANVAS_WIDTH + 1 - x;
    let hlimit = CANVAS_HEIGHT + 1 - y;
    let w = if w0 <= wlimit {
        w0
    } else {
        wlimit
    };
    let h = if h0 <= hlimit {
        h0
    } else {
        hlimit
    };
    rasterize_hollow_rect(canvas, x, y, w, h, color)
}

/// What one draw-shape command produced.
#[derive(Debug, PartialEq, Eq)]
pub enum DrawOutcome {
    /// The finished canvas, as a data URL.
    Rendered(Vec<u8>),
    /// A line was requested. Rasterizing a line takes floating-point
    /// endpoints, which this library does not touch: the prepared base
    /// canvas and parsed color come back, and the caller rasterizes the
    /// line onto the canvas and encodes the result.
    LinePending(Vec<u8>, Color),
}

/// Carries out one draw-shape command.
///
/// The color must be `#RRGGBB`, else the command is rejected; a current
/// canvas that is not a well-formed data URL of a PNG of the fixed size is
/// rejected too. A `rect` shape is rendered and encoded here; a `line`
/// comes back as [`DrawOutcome::LinePending`]; any other shape name draws
/// nothing, and the base canvas is re-encoded unchanged.
pub fn draw_shape(
    shape: &[u8],
    start_x: u32,
    start_y: u32,
    end_x: u32,
    end_y: u32,
    color: &[u8],
    current: Option<&Vec<u8>>,
) -> (r: Result<DrawOutcome, CanvasError>)
    ensures
        ({
            let cur = match current {
                Some(c) => Some(c@),
                None => None::<Seq<u8>>,
            };
            match r {
                Err(CanvasError::InvalidColor) => !valid_color(color@),
                Err(CanvasError::InvalidEncoding) => valid_color(color@) && spec_base_canvas(
                    cur,
                ) is None,
                Ok(out) => valid_color(color@) && spec_base_canvas(cur) is Some && {
                    let base = spec_base_canvas(cur).unwrap();
                    match out {
                        DrawOutcome::Rendered(v) => shape@ != line_name() && v@ == data_url_of(
                            if shape@ == rect_name() {
                                rect_drawn(
                                    base,
                                    start_x,
                                    start_y,
                                    end_x,
                                    end_y,
                                    color_of(color@),
                                )
                            } else {
                                base
                            },
                        ),
                        DrawOutcome::LinePending(b, c) => shape@ == line_name() && b@ == base && c
                            == color_of(color@),
                    }
                },
            }
        }),
{
    let col = match parse_color(color) {
        Ok(c) => c,
        Err(e) => {
            return Err(e);
        },
    };
    let base = match base_canvas(current) {
        Ok(b) => b,
        Err(e) => {
            return Err(e);
        },
    };
    match parse_shape(shape) {
        Some(ShapeKind::Line) => Ok(DrawOutcome::LinePending(base, col)),
        Some(ShapeKind::Rect) => {
            let drawn = draw_rect(base, start_x, start_y, end_x, end_y, col);
            Ok(DrawOutcome::Rendered(encode_data_url(drawn.as_slice())))
        },
        None => Ok(DrawOutcome::Rendered(encode_data_url(base.as_slice()))),
    }
}

} // verus!
