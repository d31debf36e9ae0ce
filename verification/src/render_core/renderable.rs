//! Enumerations and placeholders of the tessellation interface.
use vstd::prelude::*;

verus! {

/// Quality level for tessellation.
#[derive(Debug, Clone, Copy, PartialEq, Eq, Structural)]
pub enum TessellationQuality {
    /// Low quality, faster tessellation.
    Low,
    /// Medium quality, balanced tessellation.
    Medium,
    /// High quality, slower tessellation.
    High,
    /// Custom quality with specific settings.
    Custom,
}

/// Face culling mode.
#[derive(Debug, Clone, Copy, PartialEq, Eq, Structural)]
pub enum CullMode {
    /// No face culling.
    NoCulling,
    /// Cull front faces.
    Front,
    /// Cull back faces.
    Back,
}

/// Stream interface for incremental tessellation; it carries no data yet.
#[derive(Debug)]
pub struct VertexStream {}

} // verus!
