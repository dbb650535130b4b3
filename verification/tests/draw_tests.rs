use base64::Engine;
use canvas_history::canvas::blank_canvas;
use canvas_history::canvas::decode_data_url;
use canvas_history::canvas::draw_shape;
use canvas_history::canvas::encode_data_url;
use canvas_history::canvas::DrawOutcome;
use canvas_history::canvas::CANVAS_BYTES;
use canvas_history::canvas::CANVAS_HEIGHT;
use canvas_history::canvas::CANVAS_WIDTH;
use canvas_history::error::CanvasError;

const HEADER: &[u8] = b"data:image/png;base64,";

/// Decodes a data URL produced by the library back into raw RGBA bytes,
/// through the real base64 and PNG codecs.
fn raw_pixels(url: &[u8]) -> Vec<u8> {
    assert!(url.starts_with(HEADER));
    let png = base64::engine::general_purpose::STANDARD
        .decode(&url[HEADER.len()..])
        .expect("payload is valid base64");
    let img = image::load_from_memory(&png).expect("payload is a PNG").to_rgba8();
    assert_eq!(img.width(), CANVAS_WIDTH);
    assert_eq!(img.height(), CANVAS_HEIGHT);
    img.into_raw()
}

fn pixel(raw: &[u8], x: u32, y: u32) -> [u8; 4] {
    let i = ((y * CANVAS_WIDTH + x) * 4) as usize;
    [raw[i], raw[i + 1], raw[i + 2], raw[i + 3]]
}

fn rendered(r: Result<DrawOutcome, CanvasError>) -> Vec<u8> {
    match r {
        Ok(DrawOutcome::Rendered(url)) => url,
        _ => panic!("expected a rendered canvas"),
    }
}

#[test]
fn blank_canvas_is_all_zero() {
    let c = blank_canvas();
    assert_eq!(c.len(), CANVAS_BYTES);
    assert!(c.iter().all(|&b| b == 0));
}

#[test]
fn encode_then_decode_round_trips() {
    let c = blank_canvas();
    let url = encode_data_url(&c);
    assert!(url.starts_with(HEADER));
    assert!(url.len() > HEADER.len());
    let back = decode_data_url(&url).expect("own encoding decodes");
    assert_eq!(back, c);
}

#[test]
fn rect_on_blank_canvas() {
    // A red hollow rectangle between (10, 10) and (50, 40): the outline
    // spans columns 10..=49 and rows 10..=39, and every other pixel stays
    // fully transparent.
    let url = rendered(draw_shape(b"rect", 10, 10, 50, 40, b"#FF0000", None));
    let raw = raw_pixels(&url);
    let red = [255, 0, 0, 255];
    let clear = [0, 0, 0, 0];
    // corners of the outline
    assert_eq!(pixel(&raw, 10, 10), red);
    assert_eq!(pixel(&raw, 49, 10), red);
    assert_eq!(pixel(&raw, 10, 39), red);
    assert_eq!(pixel(&raw, 49, 39), red);
    // edges between the corners
    assert_eq!(pixel(&raw, 30, 10), red);
    assert_eq!(pixel(&raw, 30, 39), red);
    assert_eq!(pixel(&raw, 10, 25), red);
    assert_eq!(pixel(&raw, 49, 25), red);
    // interior and exterior stay untouched
    assert_eq!(pixel(&raw, 30, 25), clear);
    assert_eq!(pixel(&raw, 9, 9), clear);
    assert_eq!(pixel(&raw, 50, 40), clear);
    assert_eq!(pixel(&raw, 0, 0), clear);
}

#[test]
fn reversed_corners_draw_the_same_rect() {
    let forward = rendered(draw_shape(b"rect", 10, 10, 50, 40, b"#FF0000", None));
    let reversed = rendered(draw_shape(b"rect", 50, 40, 10, 10, b"#FF0000", None));
    assert_eq!(forward, reversed);
}

#[test]
fn rect_on_existing_canvas_keeps_old_pixels() {
    let first = rendered(draw_shape(b"rect", 10, 10, 50, 40, b"#FF0000", None));
    let second = rendered(draw_shape(b"rect", 0, 0, 6, 6, b"#0000FF", Some(&first)));
    let raw = raw_pixels(&second);
    // the old red outline survives
    assert_eq!(pixel(&raw, 10, 10), [255, 0, 0, 255]);
    assert_eq!(pixel(&raw, 49, 39), [255, 0, 0, 255]);
    // the new blue outline spans columns 0..=5 and rows 0..=5
    assert_eq!(pixel(&raw, 0, 0), [0, 0, 255, 255]);
    assert_eq!(pixel(&raw, 5, 5), [0, 0, 255, 255]);
    assert_eq!(pixel(&raw, 3, 3), [0, 0, 0, 0]);
}

#[test]
fn degenerate_rect_draws_nothing() {
    let url = rendered(draw_shape(b"rect", 20, 20, 20, 35, b"#FF0000", None));
    let raw = raw_pixels(&url);
    assert!(raw.iter().all(|&b| b == 0));
}

#[test]
fn unknown_shape_draws_nothing() {
    let url = rendered(draw_shape(b"blob", 10, 10, 50, 40, b"#FF0000", None));
    let raw = raw_pixels(&url);
    assert!(raw.iter().all(|&b| b == 0));
}

#[test]
fn line_comes_back_for_the_caller() {
    match draw_shape(b"line", 1, 2, 3, 4, b"#00FF00", None) {
        Ok(DrawOutcome::LinePending(base, color)) => {
            assert_eq!(base.len(), CANVAS_BYTES);
            assert!(base.iter().all(|&b| b == 0));
            assert_eq!((color.r, color.g, color.b), (0, 255, 0));
        },
        _ => panic!("expected a pending line"),
    }
}

#[test]
fn malformed_color_is_rejected() {
    let missing_hash = draw_shape(b"rect", 0, 0, 1, 1, b"FF0000", None);
    assert_eq!(missing_hash, Err(CanvasError::InvalidColor));
    let bad_digit = draw_shape(b"rect", 0, 0, 1, 1, b"#GG0000", None);
    assert_eq!(bad_digit, Err(CanvasError::InvalidColor));
    let too_short = draw_shape(b"rect", 0, 0, 1, 1, b"#FF000", None);
    assert_eq!(too_short, Err(CanvasError::InvalidColor));
}

#[test]
fn url_without_comma_is_rejected() {
    let cur = b"data:image/png;base64".to_vec();
    let r = draw_shape(b"rect", 0, 0, 1, 1, b"#FF0000", Some(&cur));
    assert_eq!(r, Err(CanvasError::InvalidEncoding));
}

#[test]
fn bad_base64_payload_is_rejected() {
    let cur = b"data:image/png;base64,!!!".to_vec();
    let r = draw_shape(b"rect", 0, 0, 1, 1, b"#FF0000", Some(&cur));
    assert_eq!(r, Err(CanvasError::InvalidEncoding));
}

#[test]
fn payload_that_is_no_png_is_rejected() {
    let payload = base64::engine::general_purpose::STANDARD.encode(b"hello");
    let cur = format!("data:image/png;base64,{}", payload).into_bytes();
    let r = draw_shape(b"rect", 0, 0, 1, 1, b"#FF0000", Some(&cur));
    assert_eq!(r, Err(CanvasError::InvalidEncoding));
}

#[test]
fn png_of_wrong_size_is_rejected() {
    let small = image::RgbaImage::new(10, 10);
    let mut png = Vec::new();
    small
        .write_to(&mut std::io::Cursor::new(&mut png), image::ImageFormat::Png)
        .expect("encoding a small image succeeds");
    let payload = base64::engine::general_purpose::STANDARD.encode(&png);
    let cur = format!("data:image/png;base64,{}", payload).into_bytes();
    let r = draw_shape(b"rect", 0, 0, 1, 1, b"#FF0000", Some(&cur));
    assert_eq!(r, Err(CanvasError::InvalidEncoding));
}
