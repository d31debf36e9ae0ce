//! Error types of the rendering engine.
use vstd::prelude::*;

verus! {

/// Core error types for the rendering engine.
#[derive(Debug, Clone, PartialEq, Eq)]
pub enum RenderError {
    DeviceCreation(String),
    ResourceCreation(String),
    InvalidOperation(String),
    UnsupportedFeature(String),
    OutOfMemory(String),
    SurfaceError(String),
    TessellationError(String),
    ResourceNotFound(String),
    Backend(BackendError),
    Other(String),
}

/// Backend-specific errors.
#[derive(Debug, Clone, PartialEq, Eq)]
pub enum BackendError {
    DeviceCreation(String),
    ResourceCreation(String),
    InvalidOperation(String),
    UnsupportedFeature(String),
    OutOfMemory(String),
    SurfaceError(String),
    Other(String),
}

impl From<BackendError> for RenderError {
    fn from(err: BackendError) -> (r: RenderError) {
        RenderError::Backend(err)
    }
}

impl vstd::std_specs::convert::FromSpecImpl<BackendError> for RenderError {
    open spec fn obeys_from_spec() -> bool {
        true
    }

    open spec fn from_spec(err: BackendError) -> RenderError {
        RenderError::Backend(err)
    }
}

} // verus!
