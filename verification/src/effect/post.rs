//! Post-processing effect kinds.
use vstd::prelude::*;

verus! {

/// Common post-processing effects.
#[derive(Debug, Clone, Copy, PartialEq, Eq, Structural)]
pub enum PostProcessingType {
    /// Grayscale effect (desaturates colors).
    Grayscale,
    /// Sepia tone effect (applies a brown-yellow tint).
    Sepia,
    /// Invert colors effect.
    Invert,
    /// Brightness adjustment.
    Brightness,
    /// Contrast adjustment.
    Contrast,
    /// Saturation adjustment.
    Saturation,
    /// Custom shader effect.
    Custom,
}

impl PostProcessingType {
    /// Whether effects of this kind can be batched: brightness, contrast and
    /// saturation adjustments can; the others need render passes of their
    /// own.
    pub fn is_batchable(&self) -> (r: bool)
        ensures
            r <==> (*self == PostProcessingType::Brightness || *self
                == PostProcessingType::Contrast || *self == PostProcessingType::Saturation),
    {
        match self {
            PostProcessingType::Brightness | PostProcessingType::Contrast
            | PostProcessingType::Saturation => true,
            _ => false,
        }
    }

    /// The name of the effect kind.
    pub fn name(&self) -> (r: &'static str)
        ensures
            *self == PostProcessingType::Grayscale ==> r@ == "Grayscale"@,
            *self == PostProcessingType::Sepia ==> r@ == "Sepia"@,
            *self == PostProcessingType::Invert ==> r@ == "Invert"@,
            *self == PostProcessingType::Brightness ==> r@ == "Brightness"@,
            *self == PostProcessingType::Contrast ==> r@ == "Contrast"@,
            *self == PostProcessingType::Saturation ==> r@ == "Saturation"@,
            *self == PostProcessingType::Custom ==> r@ == "Custom"@,
    {
        match self {
            PostProcessingType::Grayscale => "Grayscale",
            PostProcessingType::Sepia => "Sepia",
            PostProcessingType::Invert => "Invert",
            PostProcessingType::Brightness => "Brightness",
            PostProcessingType::Contrast => "Contrast",
            PostProcessingType::Saturation => "Saturation",
            PostProcessingType::Custom => "Custom",
        }
    }
}

} // verus!
