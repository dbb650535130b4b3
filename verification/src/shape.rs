//! Shape names and rectangle-extent normalization.

use vstd::prelude::*;

verus! {

/// The shapes the drawing surface knows how to rasterize.
#[derive(Debug, PartialEq, Eq, Structural, Clone, Copy)]
pub enum ShapeKind {
    Line,
    Rect,
}

/// The byte string `"line"`.
pub open spec fn line_name() -> Seq<u8> {
    seq![108u8, 105u8, 110u8, 101u8]
}

/// The byte string `"rect"`.
pub open spec fn rect_name() -> Seq<u8> {
    seq![114u8, 101u8, 99u8, 116u8]
}

/// Parses a shape name; any byte string but `"line"` and `"rect"` names no
/// shape.
pub fn parse_shape(s: &[u8]) -> (r: Option<ShapeKind>)
    ensures
        r == Some(ShapeKind::Line) <==> s@ == line_name(),
        r == Some(ShapeKind::Rect) <==> s@ == rect_name(),
        r is None <==> s@ != line_name() && s@ != rect_name(),
{
    if s.len() == 4 {
        if s[0] == 108 && s[1] == 105 && s[2] == 110 && s[3] == 101 {
            proof {
                assert(s@ =~= line_name());
            }
            return Some(ShapeKind::Line);
        }
        if s[0] == 114 && s[1] == 101 && s[2] == 99 && s[3] == 116 {
            proof {
                assert(s@ =~= rect_name());
            }
            return Some(ShapeKind::Rect);
        }
    }
    None
}

/// The lower of two coordinates on one axis.
pub open spec fn axis_min(a: u32, b: u32) -> u32 {
    if a <= b {
        a
    } else {
        b
    }
}

/// The unsigned distance between two coordinates on one axis.
pub open spec fn axis_extent(a: u32, b: u32) -> u32 {
    if a <= b {
        (b - a) as u32
    } else {
        (a - b) as u32
    }
}

/// Law: an axis reads the same in either direction, so a rectangle given
/// by reversed corners has the same origin and extent as the forward one.
pub proof fn lemma_axis_symmetric(a: u32, b: u32)
    ensures
        axis_min(a, b) == axis_min(b, a),
        axis_extent(a, b) == axis_extent(b, a),
{
}

/// The lower coordinate and the extent between two endpoints, in either
/// order; the subtraction can never underflow.
pub fn normalize_axis(a: u32, b: u32) -> (r: (u32, u32))
    ensures
        r.0 == axis_min(a, b),
        r.1 == axis_extent(a, b),
{
    if a <= b {
        (a, b - a)
    } else {
        (b, a - b)
    }
}

} // verus!
