//! Vectron Render: the verified core of a tiered rendering system.
//!
//! This crate holds the parts of the renderer whose behaviour is integer and
//! bookkeeping logic: resource handles and their identifiers, the resource
//! manager's binding and upload state, the pipeline cache, batch ordering,
//! clip and transform stacks, spline indexing, mesh index generation and
//! packed colors.

pub mod keyed;
pub mod backend;
pub mod render_core;
pub mod renderer;
pub mod math;
pub mod error;
pub mod effect;

pub use error::RenderError;
pub use render_core::operation::batch::{BatchKey, Batcher};
pub use render_core::types::common::{
    CompareFunction, CullMode, Dimensionality, Face, FilterMode, FrontFace, IndexFormat,
    PolygonMode, PrimitiveTopology, ResourceType, TessellationQuality, TextureFormat,
};
pub use render_core::types::handles::{
    BindGroupHandle, BufferHandle, GeometryHandle, IndexBufferHandle, MaterialHandle,
    PipelineHandle, SamplerHandle, ShaderHandle, TextureHandle, VertexBufferHandle,
};
pub use render_core::types::uuid::{Uuid, UuidSequence};
pub use renderer::clip_stack::ClipStack;
pub use renderer::pipeline_cache::PipelineCache;
pub use renderer::resource_manager::ResourceManager;
pub use renderer::transform_stack::TransformStack;
