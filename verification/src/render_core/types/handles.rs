//! Resource handles that carry a phantom marker type.
//!
//! Every handle is a [`Uuid`]; the marker parameter makes handles of different
//! resource kinds distinct types, so a buffer handle cannot stand where a
//! texture handle is expected.
use vstd::prelude::*;
use core::marker::PhantomData;
use super::uuid::{Uuid, UuidSequence, sequence_successor};

verus! {

/// Generic resource handle with phantom type for type safety.
#[derive(Debug, Hash)]
pub struct ResourceHandle<T> {
    id: Uuid,
    _marker: PhantomData<T>,
}

impl<T> Clone for ResourceHandle<T> {
    fn clone(&self) -> (r: Self)
        ensures
            r == *self,
    {
        ResourceHandle { id: self.id, _marker: PhantomData }
    }
}

impl<T> Copy for ResourceHandle<T> {
}

impl<T> PartialEq for ResourceHandle<T> {
    fn eq(&self, other: &Self) -> (r: bool) {
        self.id == other.id
    }
}

impl<T> vstd::std_specs::cmp::PartialEqSpecImpl for ResourceHandle<T> {
    open spec fn obeys_eq_spec() -> bool {
        true
    }

    open spec fn eq_spec(&self, other: &Self) -> bool {
        self.spec_id() == other.spec_id()
    }
}

impl<T> Eq for ResourceHandle<T> {
}

impl<T> ResourceHandle<T> {
    /// The identifier of this handle, in specifications.
    pub closed spec fn spec_id(&self) -> Uuid {
        self.id
    }

    /// The handle with the given identifier.
    pub closed spec fn from_id_spec(id: Uuid) -> Self {
        ResourceHandle { id, _marker: PhantomData }
    }

    /// Create a new handle with the specified ID.
    pub fn with_id(id: Uuid) -> (r: Self)
        ensures
            r == Self::from_id_spec(id),
            r.spec_id() == id,
    {
        ResourceHandle { id, _marker: PhantomData }
    }

    /// Create a new handle with a sequential ID drawn from `ids`.
    pub fn sequential(ids: &mut UuidSequence) -> (r: Self)
        ensures
            r.spec_id() == Uuid::from_u64_spec(old(ids).spec_next()),
            r.spec_id().spec_high() == 0,
            r.spec_id().spec_low() == old(ids).spec_next(),
            final(ids).spec_next() == sequence_successor(old(ids).spec_next()),
    {
        Self::with_id(Uuid::sequential(ids))
    }

    /// Create a new handle from a u64 value.
    pub fn from_u64(value: u64) -> (r: Self)
        ensures
            r.spec_id() == Uuid::from_u64_spec(value),
            r.spec_id().spec_high() == 0,
            r.spec_id().spec_low() == value,
    {
        Self::with_id(Uuid::from_u64(value))
    }

    /// Get the UUID value of this handle.
    pub fn uuid(&self) -> (r: Uuid)
        ensures
            r == self.spec_id(),
    {
        self.id
    }

    /// Get the ID of this handle (shorthand for uuid).
    #[verifier::when_used_as_spec(spec_id)]
    pub fn id(&self) -> (r: Uuid)
        ensures
            r == self.spec_id(),
    {
        self.id
    }

    /// Get the low 64 bits of this handle's UUID.
    pub fn value(&self) -> (r: u64)
        ensures
            r == self.spec_id().spec_low(),
    {
        self.id.low()
    }

    /// Convert this handle to a raw UUID.
    pub fn to_uuid(&self) -> (r: Uuid)
        ensures
            r == self.spec_id(),
    {
        self.id
    }

    /// Create a handle from a raw UUID.
    pub fn from_uuid(uuid: Uuid) -> (r: Self)
        ensures
            r == Self::from_id_spec(uuid),
            r.spec_id() == uuid,
    {
        Self::with_id(uuid)
    }
}

/// A handle and its identifier determine each other: converting a handle to
/// its UUID and back gives the same handle, and the handle made from a UUID
/// has that UUID.
pub proof fn lemma_handle_uuid_roundtrip<T>(h: ResourceHandle<T>, id: Uuid)
    ensures
        ResourceHandle::<T>::from_id_spec(h.spec_id()) == h,
        ResourceHandle::<T>::from_id_spec(id).spec_id() == id,
{
}

/// Two handles of one kind are equal exactly when their identifiers are equal.
pub proof fn lemma_handle_equal_iff_ids<T>(a: ResourceHandle<T>, b: ResourceHandle<T>)
    ensures
        (a == b) <==> (a.spec_id() == b.spec_id()),
{
}

/// Marker for texture handles.
#[derive(Debug, Clone, Copy, PartialEq, Eq, Structural, Hash)]
pub struct TextureMarker;

/// Marker for pattern handles.
#[derive(Debug, Clone, Copy, PartialEq, Eq, Structural, Hash)]
pub struct PatternMarker;

/// Marker for material handles.
#[derive(Debug, Clone, Copy, PartialEq, Eq, Structural, Hash)]
pub struct MaterialMarker;

/// Marker for geometry handles.
#[derive(Debug, Clone, Copy, PartialEq, Eq, Structural, Hash)]
pub struct GeometryMarker;

/// Marker for buffer handles.
#[derive(Debug, Clone, Copy, PartialEq, Eq, Structural, Hash)]
pub struct BufferMarker;

/// Marker for sampler handles.
#[derive(Debug, Clone, Copy, PartialEq, Eq, Structural, Hash)]
pub struct SamplerMarker;

/// Marker for pipeline handles.
#[derive(Debug, Clone, Copy, PartialEq, Eq, Structural, Hash)]
pub struct PipelineMarker;

/// Marker for bind group handles.
#[derive(Debug, Clone, Copy, PartialEq, Eq, Structural, Hash)]
pub struct BindGroupMarker;

/// Marker for shader handles.
#[derive(Debug, Clone, Copy, PartialEq, Eq, Structural, Hash)]
pub struct ShaderMarker;

/// Marker for vertex buffer handles.
#[derive(Debug, Clone, Copy, PartialEq, Eq, Structural, Hash)]
pub struct VertexBufferMarker;

/// Marker for index buffer handles.
#[derive(Debug, Clone, Copy, PartialEq, Eq, Structural, Hash)]
pub struct IndexBufferMarker;

/// Handle of a texture.
pub type TextureHandle = ResourceHandle<TextureMarker>;

/// Handle of a pattern.
pub type PatternHandle = ResourceHandle<PatternMarker>;

/// Handle of a material.
pub type MaterialHandle = ResourceHandle<MaterialMarker>;

/// Handle of a geometry.
pub type GeometryHandle = ResourceHandle<GeometryMarker>;

/// Handle of a buffer.
pub type BufferHandle = ResourceHandle<BufferMarker>;

/// Handle of a sampler.
pub type SamplerHandle = ResourceHandle<SamplerMarker>;

/// Handle of a pipeline.
pub type PipelineHandle = ResourceHandle<PipelineMarker>;

/// Handle of a bind group.
pub type BindGroupHandle = ResourceHandle<BindGroupMarker>;

/// Handle of a shader.
pub type ShaderHandle = ResourceHandle<ShaderMarker>;

/// Handle of a vertex buffer.
pub type VertexBufferHandle = ResourceHandle<VertexBufferMarker>;

/// Handle of an index buffer.
pub type IndexBufferHandle = ResourceHandle<IndexBufferMarker>;

impl ResourceHandle<TextureMarker> {
    /// Create a new texture handle with a sequential ID.
    pub fn new(ids: &mut UuidSequence) -> (r: Self)
        ensures
            r.spec_id() == Uuid::from_u64_spec(old(ids).spec_next()),
            r.spec_id().spec_high() == 0,
            r.spec_id().spec_low() == old(ids).spec_next(),
            final(ids).spec_next() == sequence_successor(old(ids).spec_next()),
    {
        Self::sequential(ids)
    }
}

impl ResourceHandle<GeometryMarker> {
    /// Create a new geometry handle with a sequential ID.
    pub fn new(ids: &mut UuidSequence) -> (r: Self)
        ensures
            r.spec_id() == Uuid::from_u64_spec(old(ids).spec_next()),
            r.spec_id().spec_high() == 0,
            r.spec_id().spec_low() == old(ids).spec_next(),
            final(ids).spec_next() == sequence_successor(old(ids).spec_next()),
    {
        Self::sequential(ids)
    }
}

impl ResourceHandle<BufferMarker> {
    /// Create a new buffer handle with a sequential ID.
    pub fn new(ids: &mut UuidSequence) -> (r: Self)
        ensures
            r.spec_id() == Uuid::from_u64_spec(old(ids).spec_next()),
            r.spec_id().spec_high() == 0,
            r.spec_id().spec_low() == old(ids).spec_next(),
            final(ids).spec_next() == sequence_successor(old(ids).spec_next()),
    {
        Self::sequential(ids)
    }
}

impl ResourceHandle<SamplerMarker> {
    /// Create a new sampler handle with a sequential ID.
    pub fn new(ids: &mut UuidSequence) -> (r: Self)
        ensures
            r.spec_id() == Uuid::from_u64_spec(old(ids).spec_next()),
            r.spec_id().spec_high() == 0,
            r.spec_id().spec_low() == old(ids).spec_next(),
            final(ids).spec_next() == sequence_successor(old(ids).spec_next()),
    {
        Self::sequential(ids)
    }
}

impl ResourceHandle<PipelineMarker> {
    /// Create a new pipeline handle with a sequential ID.
    pub fn new(ids: &mut UuidSequence) -> (r: Self)
        ensures
            r.spec_id() == Uuid::from_u64_spec(old(ids).spec_next()),
            r.spec_id().spec_high() == 0,
            r.spec_id().spec_low() == old(ids).spec_next(),
            final(ids).spec_next() == sequence_successor(old(ids).spec_next()),
    {
        Self::sequential(ids)
    }
}

impl ResourceHandle<BindGroupMarker> {
    /// Create a new bind group handle with a sequential ID.
    pub fn new(ids: &mut UuidSequence) -> (r: Self)
        ensures
            r.spec_id() == Uuid::from_u64_spec(old(ids).spec_next()),
            r.spec_id().spec_high() == 0,
            r.spec_id().spec_low() == old(ids).spec_next(),
            final(ids).spec_next() == sequence_successor(old(ids).spec_next()),
    {
        Self::sequential(ids)
    }
}

impl ResourceHandle<ShaderMarker> {
    /// Create a new shader handle with a sequential ID.
    pub fn new(ids: &mut UuidSequence) -> (r: Self)
        ensures
            r.spec_id() == Uuid::from_u64_spec(old(ids).spec_next()),
            r.spec_id().spec_high() == 0,
            r.spec_id().spec_low() == old(ids).spec_next(),
            final(ids).spec_next() == sequence_successor(old(ids).spec_next()),
    {
        Self::sequential(ids)
    }
}

impl ResourceHandle<VertexBufferMarker> {
    /// Create a new vertex buffer handle with a sequential ID.
    pub fn new(ids: &mut UuidSequence) -> (r: Self)
        ensures
            r.spec_id() == Uuid::from_u64_spec(old(ids).spec_next()),
            r.spec_id().spec_high() == 0,
            r.spec_id().spec_low() == old(ids).spec_next(),
            final(ids).spec_next() == sequence_successor(old(ids).spec_next()),
    {
        Self::sequential(ids)
    }
}

impl ResourceHandle<IndexBufferMarker> {
    /// Create a new index buffer handle with a sequential ID.
    pub fn new(ids: &mut UuidSequence) -> (r: Self)
        ensures
            r.spec_id() == Uuid::from_u64_spec(old(ids).spec_next()),
            r.spec_id().spec_high() == 0,
            r.spec_id().spec_low() == old(ids).spec_next(),
            final(ids).spec_next() == sequence_successor(old(ids).spec_next()),
    {
        Self::sequential(ids)
    }
}

} // verus!
