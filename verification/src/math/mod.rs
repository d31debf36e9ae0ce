//! Mathematics of the renderer that is independent of number
//! representation.

pub mod interpolation;
