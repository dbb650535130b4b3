use canvas_history::color::parse_color;
use canvas_history::color::Color;
use canvas_history::error::CanvasError;
use canvas_history::shape::normalize_axis;
use canvas_history::shape::parse_shape;
use canvas_history::shape::ShapeKind;

#[test]
fn parses_primary_colors() {
    assert_eq!(parse_color(b"#FF0000"), Ok(Color { r: 255, g: 0, b: 0 }));
    assert_eq!(parse_color(b"#00FF00"), Ok(Color { r: 0, g: 255, b: 0 }));
    assert_eq!(parse_color(b"#0000FF"), Ok(Color { r: 0, g: 0, b: 255 }));
}

#[test]
fn parses_mixed_case_hex() {
    assert_eq!(parse_color(b"#0aF3c9"), Ok(Color { r: 10, g: 243, b: 201 }));
    assert_eq!(parse_color(b"#ffffff"), Ok(Color { r: 255, g: 255, b: 255 }));
    assert_eq!(parse_color(b"#000000"), Ok(Color { r: 0, g: 0, b: 0 }));
}

#[test]
fn rejects_malformed_colors() {
    assert_eq!(parse_color(b""), Err(CanvasError::InvalidColor));
    assert_eq!(parse_color(b"FF0000"), Err(CanvasError::InvalidColor));
    assert_eq!(parse_color(b"#FF000"), Err(CanvasError::InvalidColor));
    assert_eq!(parse_color(b"#FF00000"), Err(CanvasError::InvalidColor));
    assert_eq!(parse_color(b"#GG0000"), Err(CanvasError::InvalidColor));
    assert_eq!(parse_color(b"#FF 000"), Err(CanvasError::InvalidColor));
}

#[test]
fn recognizes_shape_names() {
    assert_eq!(parse_shape(b"line"), Some(ShapeKind::Line));
    assert_eq!(parse_shape(b"rect"), Some(ShapeKind::Rect));
    assert_eq!(parse_shape(b"RECT"), None);
    assert_eq!(parse_shape(b"circle"), None);
    assert_eq!(parse_shape(b""), None);
}

#[test]
fn normalizes_axis_in_either_order() {
    assert_eq!(normalize_axis(10, 50), (10, 40));
    assert_eq!(normalize_axis(50, 10), (10, 40));
    assert_eq!(normalize_axis(7, 7), (7, 0));
    assert_eq!(normalize_axis(0, u32::MAX), (0, u32::MAX));
}
