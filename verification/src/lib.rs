//! Undo/redo history and shape-drawing commands for a fixed-size RGBA canvas.
//!
//! The heart of the crate is [`history::History`], a bounded pair of snapshot
//! stacks with exact contracts for recording, undoing and redoing edits.
//! The drawing side parses colors and shape descriptors, normalizes rectangle
//! coordinates, and moves canvases between raw pixel buffers and
//! base64-encoded PNG data URLs.

pub mod canvas;
pub mod color;
pub mod error;
pub mod history;
pub mod shape;
