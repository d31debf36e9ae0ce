//! Plain descriptions of GPU resources and pipeline state.
//!
//! These are the values that a pipeline is keyed by and that resource
//! creation is asked for with. They are plain data: two descriptions are the
//! same description exactly when their fields are equal.
use vstd::prelude::*;
use crate::render_core::types::common::{
    CompareFunction, Face, FrontFace, IndexFormat, PolygonMode, PrimitiveTopology, TextureFormat,
};

verus! {

/// Whether a vertex buffer advances per vertex or per instance.
#[derive(Debug, Clone, Copy, PartialEq, Eq, Structural, Hash)]
pub enum VertexStepMode {
    Vertex,
    Instance,
}

/// The format of one vertex attribute.
#[derive(Debug, Clone, Copy, PartialEq, Eq, Structural, Hash)]
pub enum VertexFormat {
    Uint8x2,
    Uint8x4,
    Uint32,
    Uint32x2,
    Uint32x3,
    Uint32x4,
    Float32,
    Float32x2,
    Float32x3,
    Float32x4,
}

/// One attribute of a vertex buffer layout.
#[derive(Debug, Clone, Copy, PartialEq, Eq, Structural, Hash)]
pub struct VertexAttribute {
    pub format: VertexFormat,
    pub offset: u64,
    pub shader_location: u32,
}

/// The layout of one vertex buffer.
#[derive(Debug, Clone, PartialEq, Eq, Hash)]
pub struct VertexBufferLayout {
    pub array_stride: u64,
    pub step_mode: VertexStepMode,
    pub attributes: Vec<VertexAttribute>,
}

/// The value of a vertex buffer layout: its stride, step mode and the
/// sequence of its attributes.
pub struct VertexBufferLayoutView {
    pub array_stride: u64,
    pub step_mode: VertexStepMode,
    pub attributes: Seq<VertexAttribute>,
}

impl View for VertexBufferLayout {
    type V = VertexBufferLayoutView;

    open spec fn view(&self) -> VertexBufferLayoutView {
        VertexBufferLayoutView {
            array_stride: self.array_stride,
            step_mode: self.step_mode,
            attributes: self.attributes@,
        }
    }
}

/// What a stencil test does to the stencil value.
#[derive(Debug, Clone, Copy, PartialEq, Eq, Structural, Hash)]
pub enum StencilOperation {
    Keep,
    Zero,
    Replace,
    Invert,
    IncrementClamp,
    DecrementClamp,
    IncrementWrap,
    DecrementWrap,
}

/// The stencil test of one face.
#[derive(Debug, Clone, Copy, PartialEq, Eq, Structural, Hash)]
pub struct StencilFaceState {
    pub compare: CompareFunction,
    pub fail_op: StencilOperation,
    pub depth_fail_op: StencilOperation,
    pub pass_op: StencilOperation,
}

/// Depth and stencil state of a pipeline.
///
/// The slope scale and clamp of the depth bias are held as the bit patterns
/// of their 32-bit floating-point values, so that two states compare and
/// hash exactly.
#[derive(Debug, Clone, Copy, PartialEq, Eq, Structural, Hash)]
pub struct DepthStencilState {
    pub format: TextureFormat,
    pub depth_write_enabled: bool,
    pub depth_compare: CompareFunction,
    pub stencil_front: StencilFaceState,
    pub stencil_back: StencilFaceState,
    pub stencil_read_mask: u32,
    pub stencil_write_mask: u32,
    pub depth_bias: i32,
    pub depth_bias_slope_scale: u32,
    pub depth_bias_clamp: u32,
}

/// Primitive assembly state of a pipeline.
#[derive(Debug, Clone, Copy, PartialEq, Eq, Structural, Hash)]
pub struct PrimitiveState {
    pub topology: PrimitiveTopology,
    pub strip_index_format: Option<IndexFormat>,
    pub front_face: FrontFace,
    pub cull_mode: Option<Face>,
    pub polygon_mode: PolygonMode,
    pub conservative: bool,
}

/// Multisampling state of a pipeline.
#[derive(Debug, Clone, Copy, PartialEq, Eq, Structural, Hash)]
pub struct MultisampleState {
    pub count: u32,
    pub mask: u64,
    pub alpha_to_coverage_enabled: bool,
}

/// The ways a buffer may be used, as a set of flag bits.
#[derive(Debug, Clone, Copy, PartialEq, Eq, Structural, Hash)]
pub struct BufferUsage {
    pub bits: u32,
}

impl BufferUsage {
    /// Usable as a vertex buffer.
    pub fn vertex() -> (r: BufferUsage)
        ensures
            r.bits == 0x20,
    {
        BufferUsage { bits: 0x20 }
    }

    /// Usable as an index buffer.
    pub fn index() -> (r: BufferUsage)
        ensures
            r.bits == 0x10,
    {
        BufferUsage { bits: 0x10 }
    }
}

/// The ways a texture may be used, as a set of flag bits.
#[derive(Debug, Clone, Copy, PartialEq, Eq, Structural, Hash)]
pub struct TextureUsage {
    pub bits: u32,
}

impl TextureUsage {
    /// Usable as the destination of a copy.
    pub fn copy_dst() -> (r: TextureUsage)
        ensures
            r.bits == 0x02,
    {
        TextureUsage { bits: 0x02 }
    }

    /// Usable in a bind group.
    pub fn texture_binding() -> (r: TextureUsage)
        ensures
            r.bits == 0x04,
    {
        TextureUsage { bits: 0x04 }
    }

    /// Both sets of flags.
    pub fn union(self, other: TextureUsage) -> (r: TextureUsage)
        ensures
            r.bits == self.bits | other.bits,
    {
        TextureUsage { bits: self.bits | other.bits }
    }
}

} // verus!
