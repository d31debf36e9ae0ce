//! Render operations: the geometry placeholder and batching.
use vstd::prelude::*;

pub mod batch;
pub mod execution;

verus! {

/// Geometry data produced during rendering; the renderer decides its
/// contents, so it carries no data here.
#[derive(Debug)]
pub struct GeometryData {}

} // verus!
