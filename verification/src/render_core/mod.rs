//! Core types of the rendering engine.

pub mod types;
pub mod error;
pub mod style;
pub mod renderable;
pub mod operation;
pub mod drawable;
pub mod color;
