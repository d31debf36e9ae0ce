//! Caching of pipeline objects, so that each pipeline configuration is
//! created once.
use vstd::prelude::*;
use crate::backend::resource::{
    DepthStencilState, MultisampleState, PrimitiveState, VertexBufferLayout, VertexBufferLayoutView,
};
use crate::keyed::{
    has_key, keyed_map, lemma_keyed_map_dom, lemma_keyed_map_finite, lemma_keyed_map_len,
    lemma_keyed_map_push,
    lemma_keyed_map_value, unique_keys,
};
use crate::render_core::error::RenderError;
use crate::render_core::types::common::TextureFormat;
use crate::render_core::types::handles::{PipelineHandle, ShaderHandle, lemma_handle_equal_iff_ids};

verus! {

/// A key identifying a unique pipeline configuration.
#[derive(Clone, Debug, Hash)]
pub struct PipelineKey {
    vertex_shader: ShaderHandle,
    fragment_shader: Option<ShaderHandle>,
    vertex_layouts: Vec<VertexBufferLayout>,
    color_formats: Vec<Option<TextureFormat>>,
    depth_stencil: Option<DepthStencilState>,
    primitive: PrimitiveState,
    multisample: MultisampleState,
}

/// The value of a pipeline key: every part of the configuration, with the
/// vertex layouts and color formats as sequences.
pub struct PipelineKeyView {
    pub vertex_shader: ShaderHandle,
    pub fragment_shader: Option<ShaderHandle>,
    pub vertex_layouts: Seq<VertexBufferLayoutView>,
    pub color_formats: Seq<Option<TextureFormat>>,
    pub depth_stencil: Option<DepthStencilState>,
    pub primitive: PrimitiveState,
    pub multisample: MultisampleState,
}

/// The values of a sequence of vertex buffer layouts.
pub open spec fn layout_views(layouts: Seq<VertexBufferLayout>) -> Seq<VertexBufferLayoutView> {
    layouts.map_values(|l: VertexBufferLayout| l@)
}

impl View for PipelineKey {
    type V = PipelineKeyView;

    closed spec fn view(&self) -> PipelineKeyView {
        PipelineKeyView {
            vertex_shader: self.vertex_shader,
            fragment_shader: self.fragment_shader,
            vertex_layouts: layout_views(self.vertex_layouts@),
            color_formats: self.color_formats@,
            depth_stencil: self.depth_stencil,
            primitive: self.primitive,
            multisample: self.multisample,
        }
    }
}

/// Whether two vertex buffer layouts are the same layout.
fn same_layout(a: &VertexBufferLayout, b: &VertexBufferLayout) -> (r: bool)
    ensures
        r == (a@ == b@),
{
    if a.array_stride != b.array_stride || a.step_mode != b.step_mode || a.attributes.len()
        != b.attributes.len() {
        return false;
    }
    let n = a.attributes.len();
    let mut i: usize = 0;
    while i < n
        invariant
            n == a.attributes.len(),
            n == b.attributes.len(),
            i <= n,
            forall|j: int| 0 <= j < i ==> a.attributes@[j] == b.attributes@[j],
        decreases n - i,
    {
        if a.attributes[i] != b.attributes[i] {
            return false;
        }
        i = i + 1;
    }
    assert(a.attributes@ =~= b.attributes@);
    true
}

impl PipelineKey {
    /// Create a new pipeline key.
    pub fn new(
        vertex_shader: ShaderHandle,
        fragment_shader: Option<ShaderHandle>,
        vertex_layouts: Vec<VertexBufferLayout>,
        color_formats: Vec<Option<TextureFormat>>,
        depth_stencil: Option<DepthStencilState>,
        primitive: PrimitiveState,
        multisample: MultisampleState,
    ) -> (r: Self)
        ensures
            r@ == (PipelineKeyView {
                vertex_shader,
                fragment_shader,
                vertex_layouts: layout_views(vertex_layouts@),
                color_formats: color_formats@,
                depth_stencil,
                primitive,
                multisample,
            }),
    {
        PipelineKey {
            vertex_shader,
            fragment_shader,
            vertex_layouts,
            color_formats,
            depth_stencil,
            primitive,
            multisample,
        }
    }

    /// Get the vertex shader.
    pub fn vertex_shader(&self) -> (r: ShaderHandle)
        ensures
            r == self@.vertex_shader,
    {
        self.vertex_shader
    }

    /// Get the fragment shader.
    pub fn fragment_shader(&self) -> (r: Option<ShaderHandle>)
        ensures
            r == self@.fragment_shader,
    {
        self.fragment_shader
    }

    /// Get the vertex buffer layouts.
    pub fn vertex_layouts(&self) -> (r: &[VertexBufferLayout])
        ensures
            layout_views(r@) == self@.vertex_layouts,
    {
        self.vertex_layouts.as_slice()
    }

    /// Get the color attachment formats.
    pub fn color_formats(&self) -> (r: &[Option<TextureFormat>])
        ensures
            r@ == self@.color_formats,
    {
        self.color_formats.as_slice()
    }

    /// Get the depth stencil state.
    pub fn depth_stencil(&self) -> (r: Option<&DepthStencilState>)
        ensures
            match r {
                Some(d) => self@.depth_stencil == Some(*d),
                None => self@.depth_stencil is None,
            },
    {
        self.depth_stencil.as_ref()
    }

    /// Get the primitive state.
    pub fn primitive(&self) -> (r: &PrimitiveState)
        ensures
            *r == self@.primitive,
    {
        &self.primitive
    }

    /// Get the multisample state.
    pub fn multisample(&self) -> (r: &MultisampleState)
        ensures
            *r == self@.multisample,
    {
        &self.multisample
    }

    /// Whether two keys describe the same pipeline configuration.
    pub fn same_configuration(&self, other: &PipelineKey) -> (r: bool)
        ensures
            r == (self@ == other@),
    {
        if self.vertex_shader != other.vertex_shader || self.primitive != other.primitive
            || self.multisample != other.multisample {
            return false;
        }
        let same_fragment = match (self.fragment_shader, other.fragment_shader) {
            (Some(a), Some(b)) => a == b,
            (None, None) => true,
            _ => false,
        };
        if !same_fragment {
            return false;
        }
        let same_depth = match (self.depth_stencil, other.depth_stencil) {
            (Some(a), Some(b)) => a == b,
            (None, None) => true,
            _ => false,
        };
        if !same_depth {
            return false;
        }
        if self.color_formats.len() != other.color_formats.len() || self.vertex_layouts.len()
            != other.vertex_layouts.len() {
            assert(self@.color_formats.len() != other@.color_formats.len()
                || self@.vertex_layouts.len() != other@.vertex_layouts.len());
            return false;
        }
        let n = self.color_formats.len();
        let mut i: usize = 0;
        while i < n
            invariant
                n == self.color_formats.len(),
                n == other.color_formats.len(),
                i <= n,
                forall|j: int| 0 <= j < i ==> self.color_formats@[j] == other.color_formats@[j],
            decreases n - i,
        {
            let same_format = match (self.color_formats[i], other.color_formats[i]) {
                (Some(a), Some(b)) => a == b,
                (None, None) => true,
                _ => false,
            };
            if !same_format {
                assert(self@.color_formats[i as int] != other@.color_formats[i as int]);
                return false;
            }
            i = i + 1;
        }
        assert(self.color_formats@ =~= other.color_formats@);
        let m = self.vertex_layouts.len();
        let mut k: usize = 0;
        while k < m
            invariant
                m == self.vertex_layouts.len(),
                m == other.vertex_layouts.len(),
                k <= m,
                forall|j: int| 0 <= j < k ==> self.vertex_layouts@[j]@ == other.vertex_layouts@[j]@,
            decreases m - k,
        {
            if !same_layout(&self.vertex_layouts[k], &other.vertex_layouts[k]) {
                assert(self@.vertex_layouts[k as int] != other@.vertex_layouts[k as int]);
                return false;
            }
            k = k + 1;
        }
        proof {
            lemma_handle_equal_iff_ids(self.vertex_shader, other.vertex_shader);
            if self.fragment_shader is Some && other.fragment_shader is Some {
                lemma_handle_equal_iff_ids(
                    self.fragment_shader.unwrap(),
                    other.fragment_shader.unwrap(),
                );
            }
        }
        assert(self@.vertex_layouts =~= other@.vertex_layouts);
        assert(self@.color_formats =~= other@.color_formats);
        true
    }
}

impl PartialEq for PipelineKey {
    fn eq(&self, other: &Self) -> (r: bool) {
        self.same_configuration(other)
    }
}

impl vstd::std_specs::cmp::PartialEqSpecImpl for PipelineKey {
    open spec fn obeys_eq_spec() -> bool {
        true
    }

    open spec fn eq_spec(&self, other: &Self) -> bool {
        self@ == other@
    }
}

impl Eq for PipelineKey {
}

/// The PipelineCache manages pipeline objects to minimize creation overhead.
///
/// Its value is a finite map from pipeline configurations to the handles of
/// the pipelines created for them.
pub struct PipelineCache {
    pipelines: Vec<(PipelineKey, PipelineHandle)>,
}

impl PipelineCache {
    /// The cached pairs, with each key taken by its value.
    pub closed spec fn entries(&self) -> Seq<(PipelineKeyView, PipelineHandle)> {
        self.pipelines@.map_values(|e: (PipelineKey, PipelineHandle)| (e.0@, e.1))
    }

    /// No configuration is cached twice.
    #[verifier::type_invariant]
    closed spec fn inv(&self) -> bool {
        unique_keys(self.entries())
    }
}

impl View for PipelineCache {
    type V = Map<PipelineKeyView, PipelineHandle>;

    closed spec fn view(&self) -> Map<PipelineKeyView, PipelineHandle> {
        keyed_map(self.entries())
    }
}

impl PipelineCache {
    /// Create a new pipeline cache.
    pub fn new() -> (r: Self)
        ensures
            r@ == Map::<PipelineKeyView, PipelineHandle>::empty(),
            r@.dom().finite(),
    {
        let r = PipelineCache { pipelines: Vec::new() };
        assert(r.entries() =~= Seq::empty());
        r
    }

    /// The position of the pair whose key is `key`, if there is one.
    fn find(&self, key: &PipelineKey) -> (r: Option<usize>)
        ensures
            match r {
                Some(i) => i < self.entries().len() && self.entries()[i as int].0 == key@,
                None => !has_key(self.entries(), key@),
            },
    {
        let n = self.pipelines.len();
        let mut i: usize = 0;
        while i < n
            invariant
                n == self.pipelines.len(),
                i <= n,
                forall|j: int| 0 <= j < i ==> self.entries()[j].0 != key@,
            decreases n - i,
        {
            if self.pipelines[i].0.same_configuration(key) {
                return Some(i);
            }
            i = i + 1;
        }
        None
    }

    /// The handle cached for a configuration, if any.
    pub fn cached(&self, key: &PipelineKey) -> (r: Option<PipelineHandle>)
        ensures
            match r {
                Some(h) => self@.contains_key(key@) && self@[key@] == h,
                None => !self@.contains_key(key@),
            },
    {
        proof {
            use_type_invariant(self);
            lemma_keyed_map_dom(self.entries(), key@);
        }
        match self.find(key) {
            Some(i) => {
                proof {
                    lemma_keyed_map_value(self.entries(), i as int);
                }
                Some(self.pipelines[i].1)
            },
            None => None,
        }
    }

    /// Get or create a pipeline for the given key.
    ///
    /// The device is handed through the call: `create` makes the pipeline
    /// on it and hands it back. A configuration that is cached is answered
    /// from the cache: `create` is not called and the device comes back
    /// untouched. Otherwise `create` makes the pipeline; on success its
    /// handle is cached for the key and returned, and on failure the error is
    /// returned and the cache is unchanged.
    pub fn get_or_create<
        D,
        F: FnOnce(D, &PipelineKey) -> (D, Result<PipelineHandle, RenderError>),
    >(&mut self, key: PipelineKey, device: D, create: F) -> (r: (
        D,
        Result<PipelineHandle, RenderError>,
    ))
        requires
            call_requires(create, (device, &key)),
        ensures
            old(self)@.contains_key(key@) ==> r == (device, Ok::<PipelineHandle, RenderError>(
                old(self)@[key@],
            )) && final(self)@ == old(self)@,
            !old(self)@.contains_key(key@) ==> call_ensures(create, (device, &key), r),
            !old(self)@.contains_key(key@) ==> match r.1 {
                Ok(h) => final(self)@ == old(self)@.insert(key@, h),
                Err(_) => final(self)@ == old(self)@,
            },
            !old(self)@.contains_key(key@) && r.1 is Ok ==> final(self)@.len() == old(self)@.len()
                + 1,
            final(self)@.dom().finite(),
    {
        proof {
            lemma_keyed_map_finite(self.entries());
        }
        if let Some(handle) = self.cached(&key) {
            return (device, Ok(handle));
        }
        let (device, pipeline) = create(device, &key);
        match pipeline {
            Ok(handle) => {
                self.insert_new(key, handle);
                proof {
                    lemma_keyed_map_finite(self.entries());
                }
                (device, Ok(handle))
            },
            Err(e) => (device, Err(e)),
        }
    }

    /// Cache a configuration that is not yet cached.
    fn insert_new(&mut self, key: PipelineKey, handle: PipelineHandle)
        requires
            !old(self)@.contains_key(key@),
        ensures
            final(self)@ == old(self)@.insert(key@, handle),
    {
        proof {
            use_type_invariant(&*self);
            lemma_keyed_map_dom(self.entries(), key@);
            lemma_keyed_map_push(self.entries(), key@, handle);
        }
        let ghost before = self.entries();
        let ghost k = key@;
        let mut pipelines = Vec::new();
        std::mem::swap(&mut pipelines, &mut self.pipelines);
        pipelines.push((key, handle));
        assert(pipelines@.map_values(|e: (PipelineKey, PipelineHandle)| (e.0@, e.1)) =~= before.push(
            (k, handle),
        ));
        self.pipelines = pipelines;
    }

    /// Clear the cache.
    pub fn clear(&mut self)
        ensures
            final(self)@ == Map::<PipelineKeyView, PipelineHandle>::empty(),
            final(self)@.dom().finite(),
    {
        self.pipelines = Vec::new();
        assert(self.entries() =~= Seq::empty());
    }

    /// Number of cached pipelines.
    pub fn count(&self) -> (r: usize)
        ensures
            r == self@.len(),
    {
        proof {
            use_type_invariant(self);
            lemma_keyed_map_len(self.entries());
        }
        self.pipelines.len()
    }
}

/// A cache holds finitely many pipelines.
pub proof fn lemma_cache_is_finite(cache: PipelineCache)
    ensures
        cache@.dom().finite(),
{
    lemma_keyed_map_finite(cache.entries());
}

/// After `get_or_create` created `handle` for a configuration that was not
/// cached (its cache becoming `before.insert(key, handle)`), the cache holds
/// `handle` for that configuration, so by `get_or_create`'s contract a later
/// request for it is answered with `handle` without calling `create`; the
/// cache holds one more pipeline than before.
pub proof fn lemma_created_pipeline_is_cached(
    before: Map<PipelineKeyView, PipelineHandle>,
    key: PipelineKeyView,
    handle: PipelineHandle,
)
    requires
        before.dom().finite(),
        !before.contains_key(key),
    ensures
        before.insert(key, handle).contains_key(key),
        before.insert(key, handle)[key] == handle,
        before.insert(key, handle).len() == before.len() + 1,
{
}

} // verus!
