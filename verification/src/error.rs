//! Error handling for the render crate.
use vstd::prelude::*;

verus! {

/// Render error type with detailed information.
#[derive(Debug, Clone, PartialEq, Eq)]
pub enum RenderError {
    ResourceCreationFailed(String),
    InvalidResourceHandle(String),
    InvalidState(String),
    StackUnderflow(String),
    UnsupportedOperation(String),
    ShaderCompilationFailed(String),
    TextLayoutError(String),
    PathTessellationError(String),
    /// An error reported by the GPU.
    GpuError(String),
    Other(String),
}

/// Where an error arose: source file, line and the operation under way.
#[derive(Debug, Clone, Copy)]
pub struct ErrorContext {
    pub file: &'static str,
    pub line: u32,
    pub operation: &'static str,
}

/// Error recovery options.
#[derive(Debug, Clone, Copy, PartialEq, Eq, Structural)]
pub enum RecoveryAction {
    /// Continue with default/fallback values.
    UseFallback,
    /// Retry the operation.
    Retry,
    /// Skip the current operation.
    Skip,
    /// Abort the entire rendering process.
    Abort,
}

/// Context-aware error handling, for components to implement.
pub trait WithRecovery {
    /// Handle an error with possible recovery.
    fn handle_error<T, F: FnOnce(RecoveryAction) -> Result<T, RenderError>>(
        &self,
        error: RenderError,
        operation: &str,
        recovery: F,
    ) -> Result<T, RenderError>;
}

} // verus!
