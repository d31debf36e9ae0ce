//! Blur effect directions.
use vstd::prelude::*;

verus! {

/// Direction for blur effect application.
#[derive(Debug, Clone, Copy, PartialEq, Eq, Structural)]
pub enum BlurDirection {
    /// Blur in horizontal direction only.
    Horizontal,
    /// Blur in vertical direction only.
    Vertical,
    /// Blur in both directions (full blur).
    Both,
}

impl BlurDirection {
    /// The name by which a blur describes its direction.
    pub fn label(&self) -> (r: &'static str)
        ensures
            *self == BlurDirection::Horizontal ==> r@ == "horizontal"@,
            *self == BlurDirection::Vertical ==> r@ == "vertical"@,
            *self == BlurDirection::Both ==> r@ == "both"@,
    {
        match self {
            BlurDirection::Horizontal => "horizontal",
            BlurDirection::Vertical => "vertical",
            BlurDirection::Both => "both",
        }
    }
}

} // verus!
