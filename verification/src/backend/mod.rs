//! Descriptions that the renderer hands to a GPU backend.

pub mod resource;
