//! Fundamental type definitions for the rendering engine: identifiers,
//! handles, shared enumerations and the enumerations of stroke and text
//! styling.
use vstd::prelude::*;

pub mod uuid;
pub mod handles;
pub mod common;

verus! {

/// Fill rule for determining inside/outside of shapes.
#[derive(Debug, Clone, Copy, PartialEq, Eq, Structural)]
pub enum FillRule {
    /// Non-zero winding rule.
    NonZero,
    /// Even-odd rule.
    EvenOdd,
}

/// Line join style for strokes.
#[derive(Debug, Clone, Copy, PartialEq, Eq, Structural)]
pub enum LineJoin {
    /// Miter join (sharp corner).
    Miter,
    /// Round join.
    Round,
    /// Bevel join.
    Bevel,
}

/// Line cap style for strokes.
#[derive(Debug, Clone, Copy, PartialEq, Eq, Structural)]
pub enum LineCap {
    /// Butt cap (flat end).
    Butt,
    /// Round cap.
    Round,
    /// Square cap.
    Square,
}

/// Blur direction options.
#[derive(Debug, Clone, Copy, PartialEq, Eq, Structural)]
pub enum BlurDirection {
    /// Horizontal blur only.
    Horizontal,
    /// Vertical blur only.
    Vertical,
    /// Both horizontal and vertical (full) blur.
    Both,
}

/// Text alignment options.
#[derive(Debug, Clone, Copy, PartialEq, Eq, Structural)]
pub enum TextAlignment {
    /// Left align text.
    Left,
    /// Center align text.
    Center,
    /// Right align text.
    Right,
}

} // verus!
