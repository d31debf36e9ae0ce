//! Renderer-side state: pipeline cache, resource bookkeeping and the clip
//! and transform stacks.

pub mod pipeline_cache;
pub mod resource_manager;
pub mod clip_stack;
pub mod transform_stack;
pub mod stats;
pub mod context;
