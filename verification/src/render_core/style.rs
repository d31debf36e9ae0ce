//! Enumerations of fill and stroke styling, and which styles batch.
use vstd::prelude::*;

verus! {

/// Fill rules for determining inside/outside.
#[derive(Debug, Clone, Copy, PartialEq, Eq, Structural)]
pub enum FillRule {
    NonZero,
    EvenOdd,
}

/// Line join types for stroke corners.
#[derive(Debug, Clone, Copy, PartialEq, Eq, Structural)]
pub enum LineJoin {
    Miter,
    Bevel,
    Round,
}

/// Line cap types for stroke endpoints.
#[derive(Debug, Clone, Copy, PartialEq, Eq, Structural)]
pub enum LineCap {
    Butt,
    Round,
    Square,
}

/// The kind of paint a fill or stroke uses.
#[derive(Debug, Clone, Copy, PartialEq, Eq, Structural)]
pub enum PaintKind {
    Solid,
    LinearGradient,
    RadialGradient,
    Texture,
    Pattern,
}

/// Whether a fill with this paint can be batched with similar fills: solid
/// colors and linear gradients can.
pub fn fill_is_batchable(paint: PaintKind) -> (r: bool)
    ensures
        r <==> (paint == PaintKind::Solid || paint == PaintKind::LinearGradient),
{
    match paint {
        PaintKind::Solid | PaintKind::LinearGradient => true,
        _ => false,
    }
}

/// Whether a stroke with this paint can be batched with similar strokes:
/// undashed solid strokes can.
pub fn stroke_is_batchable(paint: PaintKind, dashed: bool) -> (r: bool)
    ensures
        r <==> (!dashed && paint == PaintKind::Solid),
{
    !dashed && match paint {
        PaintKind::Solid => true,
        _ => false,
    }
}

} // verus!
