//! Errors a drawing command can report.

use vstd::prelude::*;

verus! {

/// Why a drawing command was rejected.
#[derive(Debug, PartialEq, Eq, Structural, Clone, Copy)]
pub enum CanvasError {
    /// The color string is not of the form `#RRGGBB`.
    InvalidColor,
    /// The current-canvas argument is not a data URL holding a base64
    /// encoded PNG of the fixed canvas size.
    InvalidEncoding,
}

} // verus!
