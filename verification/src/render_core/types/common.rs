//! Enumerations shared by the renderer and its backends.
use vstd::prelude::*;

verus! {

/// Dimensionality of coordinate space.
#[derive(Debug, Clone, Copy, PartialEq, Eq, Structural, Hash)]
pub enum Dimensionality {
    D2,
    D3,
}

/// Filter mode for texture sampling.
#[derive(Debug, Clone, Copy, PartialEq, Eq, Structural, Hash)]
pub enum FilterMode {
    Nearest,
    Linear,
}

/// Compare function for depth/stencil operations.
#[derive(Debug, Clone, Copy, PartialEq, Eq, Structural, Hash)]
pub enum CompareFunction {
    Never,
    Less,
    Equal,
    LessEqual,
    Greater,
    NotEqual,
    GreaterEqual,
    Always,
}

/// Index format for indexed drawing.
#[derive(Debug, Clone, Copy, PartialEq, Eq, Structural, Hash)]
pub enum IndexFormat {
    Uint16,
    Uint32,
}

/// Direction of face culling.
#[derive(Debug, Clone, Copy, PartialEq, Eq, Structural, Hash)]
pub enum Face {
    Front,
    Back,
}

/// Front face vertex winding order.
#[derive(Debug, Clone, Copy, PartialEq, Eq, Structural, Hash)]
pub enum FrontFace {
    Ccw,
    Cw,
}

/// Primitive topology.
#[derive(Debug, Clone, Copy, PartialEq, Eq, Structural, Hash)]
pub enum PrimitiveTopology {
    PointList,
    LineList,
    LineStrip,
    TriangleList,
    TriangleStrip,
}

/// Polygon fill mode.
#[derive(Debug, Clone, Copy, PartialEq, Eq, Structural, Hash)]
pub enum PolygonMode {
    Fill,
    Line,
    Point,
}

/// The modes of face culling.
#[derive(Debug, Clone, Copy, PartialEq, Eq, Structural, Hash)]
pub enum CullMode {
    /// No face culling.
    NoCulling,
    Front,
    Back,
    All,
}

/// Quality settings for tessellation.
#[derive(Debug, Clone, Copy, PartialEq, Eq, Structural, Hash)]
pub enum TessellationQuality {
    Fast,
    Medium,
    High,
    Ultra,
}

/// Resource type enum.
#[derive(Debug, Clone, Copy, PartialEq, Eq, Structural, Hash)]
pub enum ResourceType {
    Buffer,
    Texture,
    Sampler,
    Pipeline,
    BindGroup,
    Shader,
}

/// Texture format.
#[derive(Debug, Clone, Copy, PartialEq, Eq, Structural, Hash)]
pub enum TextureFormat {
    Rgba8Unorm,
    Rgba8UnormSrgb,
    Bgra8Unorm,
    Bgra8UnormSrgb,
}

} // verus!
