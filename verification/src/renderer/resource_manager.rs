//! GPU resource bookkeeping during rendering.
//!
//! The resource manager remembers which buffers back each registered
//! geometry, queues data uploads until they are processed, and tracks the
//! currently bound pipeline, vertex buffers, index buffer and bind groups so
//! that a bind of what is already bound is skipped.
//!
//! The work on the GPU itself is done by the backend device. Each operation
//! that needs the device takes a closure that performs the device call. The
//! device itself is handed through those calls and back to the caller, so
//! the contracts state exactly which calls the device received, in which
//! order and with which arguments: a bind of what is already bound, or an
//! empty upload queue, hands the device back untouched.
use vstd::prelude::*;
use std::collections::HashMap;
use crate::backend::resource::{BufferUsage, TextureUsage};
use crate::keyed::{
    has_key, keyed_map, lemma_keyed_map_dom, lemma_keyed_map_push, lemma_keyed_map_update,
    lemma_keyed_map_value, unique_keys,
};
use crate::render_core::error::RenderError;
use crate::render_core::types::common::{IndexFormat, TextureFormat};
use crate::render_core::types::handles::{
    BindGroupHandle, BufferHandle, GeometryHandle, PipelineHandle, TextureHandle,
    lemma_handle_equal_iff_ids,
};
use crate::render_core::types::uuid::{Uuid, UuidSequence, lemma_from_u64_halves, sequence_successor};

verus! {

broadcast use vstd::std_specs::hash::group_hash_axioms;

/// A resource pending upload to the GPU.
#[allow(inconsistent_fields)]
#[derive(Debug)]
pub enum PendingUpload {
    Buffer { handle: BufferHandle, data: Vec<u8>, offset: u64 },
    Texture {
        handle: TextureHandle,
        data: Vec<u8>,
        width: u32,
        height: u32,
        depth: u32,
        offset_x: u32,
        offset_y: u32,
        offset_z: u32,
    },
}

/// The value of a pending upload, with its data as a sequence of bytes.
#[allow(inconsistent_fields)]
pub enum UploadView {
    Buffer { handle: BufferHandle, data: Seq<u8>, offset: u64 },
    Texture {
        handle: TextureHandle,
        data: Seq<u8>,
        width: u32,
        height: u32,
        depth: u32,
        offset_x: u32,
        offset_y: u32,
        offset_z: u32,
    },
}

impl View for PendingUpload {
    type V = UploadView;

    open spec fn view(&self) -> UploadView {
        match self {
            PendingUpload::Buffer { handle, data, offset } => UploadView::Buffer {
                handle: *handle,
                data: data@,
                offset: *offset,
            },
            PendingUpload::Texture {
                handle,
                data,
                width,
                height,
                depth,
                offset_x,
                offset_y,
                offset_z,
            } => UploadView::Texture {
                handle: *handle,
                data: data@,
                width: *width,
                height: *height,
                depth: *depth,
                offset_x: *offset_x,
                offset_y: *offset_y,
                offset_z: *offset_z,
            },
        }
    }
}

/// The values of a sequence of pending uploads.
pub open spec fn upload_views(s: Seq<PendingUpload>) -> Seq<UploadView> {
    s.map_values(|u: PendingUpload| u@)
}

/// The upload of a whole buffer's data, starting at offset 0.
pub open spec fn whole_buffer_upload(handle: BufferHandle, data: Seq<u8>) -> UploadView {
    UploadView::Buffer { handle, data, offset: 0 }
}

/// The upload of a texture's data into a `width` by `height` image of depth 1.
pub open spec fn whole_texture_upload(
    handle: TextureHandle,
    data: Seq<u8>,
    width: u32,
    height: u32,
) -> UploadView {
    UploadView::Texture {
        handle,
        data,
        width,
        height,
        depth: 1,
        offset_x: 0,
        offset_y: 0,
        offset_z: 0,
    }
}

/// The usage a registered geometry's vertex buffer is created with.
pub open spec fn vertex_usage() -> BufferUsage {
    BufferUsage { bits: 0x20 }
}

/// The usage a registered geometry's index buffer is created with.
pub open spec fn index_usage() -> BufferUsage {
    BufferUsage { bits: 0x10 }
}

/// The usage a texture is created with: bindable, and a copy destination.
pub open spec fn sampled_texture_usage() -> TextureUsage {
    TextureUsage { bits: 0x06 }
}

/// Handing the device through `g`, the first `k` of `uploads` were
/// accepted one after the other, oldest first, the device going through the
/// states `devices[0]`, ..., `devices[k]`.
pub open spec fn uploads_accepted<
    D,
    F: Fn(D, &PendingUpload) -> (D, Result<(), RenderError>),
>(g: F, devices: Seq<D>, uploads: Seq<PendingUpload>, k: int) -> bool {
    &&& 0 <= k <= uploads.len()
    &&& devices.len() >= k + 1
    &&& forall|i: int|
        0 <= i < k ==> #[trigger] call_ensures(
            g,
            (devices[i], &uploads[i]),
            (devices[i + 1], Ok::<(), RenderError>(())),
        )
}

/// Starting from the device `start`, `uploads` were handed to `g`, each
/// once and oldest first, with the outcome `r` (the device at the end and
/// the result): either every upload was accepted and the result is `Ok`, or
/// a prefix was accepted, the next upload failed with the error in the
/// result, and no upload after it was handed over.
pub open spec fn uploads_handed_over<
    D,
    F: Fn(D, &PendingUpload) -> (D, Result<(), RenderError>),
>(g: F, start: D, uploads: Seq<PendingUpload>, r: (D, Result<(), RenderError>)) -> bool {
    ||| {
        &&& r.1 is Ok
        &&& exists|devices: Seq<D>|
            #[trigger] uploads_accepted(g, devices, uploads, uploads.len() as int) && devices.len()
                == uploads.len() + 1 && devices[0] == start && r.0 == devices[uploads.len() as int]
    }
    ||| {
        &&& r.1 is Err
        &&& exists|devices: Seq<D>, k: int|
            #[trigger] uploads_accepted(g, devices, uploads, k) && k < uploads.len()
                && devices.len() == k + 2 && devices[0] == start && call_ensures(
                g,
                (devices[k], &uploads[k]),
                (devices[k + 1], r.1),
            ) && r.0 == devices[k + 1]
    }
}

/// Every geometry registered in `v` has an identifier drawn from a sequence
/// that now stands at `next` and has not wrapped around: its high half is 0
/// and its low half is below `next`.
pub open spec fn ids_drawn_before(v: ResourceManagerView, next: u64) -> bool {
    forall|h: GeometryHandle|
        #[trigger] v.geometry.contains_key(h) ==> h.spec_id().spec_high() == 0
            && h.spec_id().spec_low() < next
}

/// Handing the device `start` through `create`, a vertex buffer of
/// `vertex_size` bytes was asked for first and came back as
/// `vertex_buffer`, then an index buffer of `index_size` bytes was asked
/// for with the outcome `index`, the device ending as `end`: exactly these
/// two requests, in this order.
pub open spec fn buffers_created<
    D,
    F: Fn(D, u64, BufferUsage) -> (D, Result<BufferHandle, RenderError>),
>(
    create: F,
    start: D,
    vertex_size: u64,
    index_size: u64,
    end: D,
    vertex_buffer: BufferHandle,
    index: Result<BufferHandle, RenderError>,
) -> bool {
    exists|mid: D|
        #[trigger] call_ensures(
            create,
            (start, vertex_size, vertex_usage()),
            (mid, Ok::<BufferHandle, RenderError>(vertex_buffer)),
        ) && call_ensures(create, (mid, index_size, index_usage()), (end, index))
}

/// `v` has `pipeline` bound.
pub open spec fn pipeline_bound(v: ResourceManagerView, pipeline: PipelineHandle) -> bool {
    v.pipeline == Some(pipeline)
}

/// `v` has `buffer` bound as index buffer at `offset`.
pub open spec fn index_buffer_bound(v: ResourceManagerView, buffer: BufferHandle, offset: u64) -> bool {
    v.index_buffer == Some((buffer, offset))
}

/// The state after `pipeline` was bound successfully in `v`.
pub open spec fn after_pipeline_bind(v: ResourceManagerView, pipeline: PipelineHandle) -> ResourceManagerView {
    ResourceManagerView { pipeline: Some(pipeline), ..v }
}

/// The state after `buffer` at `offset` was bound successfully to `slot` in
/// `v`.
pub open spec fn after_vertex_buffer_bind(
    v: ResourceManagerView,
    slot: u32,
    buffer: BufferHandle,
    offset: u64,
) -> ResourceManagerView {
    ResourceManagerView { vertex_buffers: v.vertex_buffers.insert(slot, (buffer, offset)), ..v }
}

/// The state after `buffer` at `offset` was bound successfully as index
/// buffer in `v`.
pub open spec fn after_index_buffer_bind(
    v: ResourceManagerView,
    buffer: BufferHandle,
    offset: u64,
) -> ResourceManagerView {
    ResourceManagerView { index_buffer: Some((buffer, offset)), ..v }
}

/// The state after `bind_group` was bound successfully at `index` in `v`.
pub open spec fn after_bind_group_bind(
    v: ResourceManagerView,
    index: u32,
    bind_group: BindGroupHandle,
) -> ResourceManagerView {
    ResourceManagerView { bind_groups: v.bind_groups.insert(index, bind_group), ..v }
}

/// The state after the binding state of `v` was reset.
pub open spec fn after_reset(v: ResourceManagerView) -> ResourceManagerView {
    ResourceManagerView {
        pipeline: None,
        vertex_buffers: Map::<u32, (BufferHandle, u64)>::empty(),
        index_buffer: None,
        bind_groups: Map::<u32, BindGroupHandle>::empty(),
        ..v
    }
}

/// The slot of `v` holds `buffer` at `offset`.
pub open spec fn vertex_buffer_bound(
    v: ResourceManagerView,
    slot: u32,
    buffer: BufferHandle,
    offset: u64,
) -> bool {
    v.vertex_buffers.contains_key(slot) && v.vertex_buffers[slot] == (buffer, offset)
}

/// The index of `v` holds `bind_group`.
pub open spec fn bind_group_bound(v: ResourceManagerView, index: u32, bind_group: BindGroupHandle) -> bool {
    v.bind_groups.contains_key(index) && v.bind_groups[index] == bind_group
}

/// The state of a resource manager.
pub struct ResourceManagerView {
    /// The vertex and index buffers of each registered geometry.
    pub geometry: Map<GeometryHandle, (BufferHandle, BufferHandle)>,
    /// Uploads waiting to be processed, oldest first.
    pub pending: Seq<UploadView>,
    /// The bound pipeline.
    pub pipeline: Option<PipelineHandle>,
    /// The bound vertex buffer and offset of each slot.
    pub vertex_buffers: Map<u32, (BufferHandle, u64)>,
    /// The bound index buffer and offset.
    pub index_buffer: Option<(BufferHandle, u64)>,
    /// The bound bind group of each index.
    pub bind_groups: Map<u32, BindGroupHandle>,
}

/// The ResourceManager handles GPU resources during rendering.
/// It tracks which resources are in use, manages uploads, and handles
/// resource lifecycle.
pub struct ResourceManager {
    geometry_buffers: Vec<(GeometryHandle, (BufferHandle, BufferHandle))>,
    pending_uploads: Vec<PendingUpload>,
    current_pipeline: Option<PipelineHandle>,
    current_vertex_buffers: HashMap<u32, (BufferHandle, u64)>,
    current_index_buffer: Option<(BufferHandle, u64)>,
    current_bind_groups: HashMap<u32, BindGroupHandle>,
}

impl View for ResourceManager {
    type V = ResourceManagerView;

    closed spec fn view(&self) -> ResourceManagerView {
        ResourceManagerView {
            geometry: keyed_map(self.geometry_buffers@),
            pending: upload_views(self.pending_uploads@),
            pipeline: self.current_pipeline,
            vertex_buffers: self.current_vertex_buffers@,
            index_buffer: self.current_index_buffer,
            bind_groups: self.current_bind_groups@,
        }
    }
}

impl ResourceManager {
    /// The manager is well formed: no geometry is registered twice.
    pub closed spec fn wf(&self) -> bool {
        unique_keys(self.geometry_buffers@)
    }

    /// The pending uploads, oldest first.
    pub closed spec fn pending_uploads(&self) -> Seq<PendingUpload> {
        self.pending_uploads@
    }

    /// Create a new resource manager with nothing registered, queued or
    /// bound.
    pub fn new() -> (r: Self)
        ensures
            r.wf(),
            r@.geometry == Map::<GeometryHandle, (BufferHandle, BufferHandle)>::empty(),
            r@.pending == Seq::<UploadView>::empty(),
            r@.pipeline is None,
            r@.vertex_buffers == Map::<u32, (BufferHandle, u64)>::empty(),
            r@.index_buffer is None,
            r@.bind_groups == Map::<u32, BindGroupHandle>::empty(),
    {
        let r = ResourceManager {
            geometry_buffers: Vec::new(),
            pending_uploads: Vec::new(),
            current_pipeline: None,
            current_vertex_buffers: HashMap::new(),
            current_index_buffer: None,
            current_bind_groups: HashMap::new(),
        };
        assert(r.geometry_buffers@ =~= Seq::empty());
        assert(upload_views(r.pending_uploads@) =~= Seq::empty());
        r
    }

    /// The position of a geometry's entry, if it is registered.
    fn find_geometry(&self, handle: GeometryHandle) -> (r: Option<usize>)
        ensures
            match r {
                Some(i) => i < self.geometry_buffers@.len() && self.geometry_buffers@[i as int].0
                    == handle,
                None => !has_key(self.geometry_buffers@, handle),
            },
    {
        let n = self.geometry_buffers.len();
        let mut i: usize = 0;
        while i < n
            invariant
                n == self.geometry_buffers.len(),
                i <= n,
                forall|j: int| 0 <= j < i ==> self.geometry_buffers@[j].0 != handle,
            decreases n - i,
        {
            let entry = self.geometry_buffers[i].0;
            if entry == handle {
                proof {
                    lemma_handle_equal_iff_ids(entry, handle);
                }
                return Some(i);
            }
            i = i + 1;
        }
        None
    }

    /// Append an upload to the queue.
    fn queue_upload(&mut self, upload: PendingUpload)
        ensures
            final(self).geometry_buffers == old(self).geometry_buffers,
            final(self).current_pipeline == old(self).current_pipeline,
            final(self).current_vertex_buffers == old(self).current_vertex_buffers,
            final(self).current_index_buffer == old(self).current_index_buffer,
            final(self).current_bind_groups == old(self).current_bind_groups,
            final(self)@.pending == old(self)@.pending.push(upload@),
    {
        let ghost before = self.pending_uploads@;
        self.pending_uploads.push(upload);
        assert(upload_views(self.pending_uploads@) =~= upload_views(before).push(upload@));
    }

    /// Record the buffers of a geometry, replacing any earlier record of it.
    fn record_geometry(&mut self, handle: GeometryHandle, buffers: (BufferHandle, BufferHandle))
        requires
            old(self).wf(),
        ensures
            final(self).wf(),
            final(self)@.geometry == old(self)@.geometry.insert(handle, buffers),
            final(self)@.pending == old(self)@.pending,
            final(self).current_pipeline == old(self).current_pipeline,
            final(self).current_vertex_buffers == old(self).current_vertex_buffers,
            final(self).current_index_buffer == old(self).current_index_buffer,
            final(self).current_bind_groups == old(self).current_bind_groups,
    {
        match self.find_geometry(handle) {
            Some(i) => {
                proof {
                    lemma_keyed_map_update(self.geometry_buffers@, i as int, buffers);
                }
                self.geometry_buffers.set(i, (handle, buffers));
            },
            None => {
                proof {
                    lemma_keyed_map_push(self.geometry_buffers@, handle, buffers);
                }
                self.geometry_buffers.push((handle, buffers));
            },
        }
    }

    /// Register geometry with vertex and index data.
    ///
    /// The device is handed through the calls: `create_buffer` makes a
    /// buffer of the given size and usage on it and hands it back. It is
    /// asked exactly for the vertex buffer and then, only when that
    /// succeeded, for the index buffer; a failure returns that error (and the
    /// device) and changes nothing else. On success
    /// the data of both buffers is queued for upload, the geometry gets the
    /// next identifier of `ids`, and its buffers are recorded.
    pub fn register_geometry<
        D,
        F: Fn(D, u64, BufferUsage) -> (D, Result<BufferHandle, RenderError>),
    >(
        &mut self,
        vertex_data: &[u8],
        index_data: &[u8],
        ids: &mut UuidSequence,
        device: D,
        create_buffer: F,
    ) -> (r: (D, Result<GeometryHandle, RenderError>))
        requires
            old(self).wf(),
            forall|d: D, size: u64, usage: BufferUsage| call_requires(create_buffer, (d, size, usage)),
        ensures
            final(self).wf(),
            match r.1 {
                Ok(handle) => {
                    let vertex_buffer = final(self)@.geometry[handle].0;
                    let index_buffer = final(self)@.geometry[handle].1;
                    &&& buffers_created(
                        create_buffer,
                        device,
                        vertex_data@.len() as u64,
                        index_data@.len() as u64,
                        r.0,
                        vertex_buffer,
                        Ok::<BufferHandle, RenderError>(index_buffer),
                    )
                    &&& handle.spec_id() == Uuid::from_u64_spec(old(ids).spec_next())
                    &&& ids_drawn_before(old(self)@, old(ids).spec_next())
                        ==> !old(self)@.geometry.contains_key(handle)
                    &&& ids_drawn_before(old(self)@, old(ids).spec_next()) && old(ids).spec_next()
                        < u64::MAX ==> ids_drawn_before(final(self)@, final(ids).spec_next())
                    &&& final(ids).spec_next() == sequence_successor(old(ids).spec_next())
                    &&& final(self)@ == (ResourceManagerView {
                        geometry: old(self)@.geometry.insert(handle, (vertex_buffer, index_buffer)),
                        pending: old(self)@.pending.push(
                            whole_buffer_upload(vertex_buffer, vertex_data@),
                        ).push(whole_buffer_upload(index_buffer, index_data@)),
                        ..old(self)@
                    })
                },
                Err(e) => {
                    &&& final(self)@ == old(self)@
                    &&& *final(ids) == *old(ids)
                    &&& (call_ensures(
                        create_buffer,
                        (device, vertex_data@.len() as u64, vertex_usage()),
                        (r.0, Err::<BufferHandle, RenderError>(e)),
                    ) || exists|vertex_buffer: BufferHandle|
                        #[trigger] buffers_created(
                            create_buffer,
                            device,
                            vertex_data@.len() as u64,
                            index_data@.len() as u64,
                            r.0,
                            vertex_buffer,
                            Err::<BufferHandle, RenderError>(e),
                        ))
                },
            },
    {
        let vertex_size = vertex_data.len() as u64;
        let index_size = index_data.len() as u64;
        let ghost start = device;
        let (device, vertex_result) = create_buffer(device, vertex_size, BufferUsage::vertex());
        let ghost mid = device;
        let vertex_buffer = match vertex_result {
            Ok(b) => b,
            Err(e) => {
                return (device, Err(e));
            },
        };
        let (device, index_result) = create_buffer(device, index_size, BufferUsage::index());
        let index_buffer = match index_result {
            Ok(b) => b,
            Err(e) => {
                assert(buffers_created(
                    create_buffer,
                    start,
                    vertex_size,
                    index_size,
                    device,
                    vertex_buffer,
                    Err::<BufferHandle, RenderError>(e),
                ));
                return (device, Err(e));
            },
        };
        assert(buffers_created(
            create_buffer,
            start,
            vertex_size,
            index_size,
            device,
            vertex_buffer,
            Ok::<BufferHandle, RenderError>(index_buffer),
        ));
        self.queue_upload(
            PendingUpload::Buffer {
                handle: vertex_buffer,
                data: vstd::slice::slice_to_vec(vertex_data),
                offset: 0,
            },
        );
        self.queue_upload(
            PendingUpload::Buffer {
                handle: index_buffer,
                data: vstd::slice::slice_to_vec(index_data),
                offset: 0,
            },
        );
        let geometry_handle = GeometryHandle::new(ids);
        proof {
            lemma_from_u64_halves(old(ids).spec_next());
        }
        self.record_geometry(geometry_handle, (vertex_buffer, index_buffer));
        (device, Ok(geometry_handle))
    }

    /// Get the GPU buffers for a geometry handle.
    pub fn get_geometry_buffers(&self, handle: GeometryHandle) -> (r: Option<
        (BufferHandle, BufferHandle),
    >)
        requires
            self.wf(),
        ensures
            r == (if self@.geometry.contains_key(handle) {
                Some(self@.geometry[handle])
            } else {
                None::<(BufferHandle, BufferHandle)>
            }),
    {
        proof {
            lemma_keyed_map_dom(self.geometry_buffers@, handle);
        }
        match self.find_geometry(handle) {
            Some(i) => {
                proof {
                    lemma_keyed_map_value(self.geometry_buffers@, i as int);
                }
                Some(self.geometry_buffers[i].1)
            },
            None => None,
        }
    }

    /// Update geometry data.
    ///
    /// For a registered geometry, the given vertex data is queued for upload
    /// to its vertex buffer and then the given index data to its index
    /// buffer. An unregistered handle is an error and changes nothing.
    pub fn update_geometry(
        &mut self,
        handle: GeometryHandle,
        vertex_data: Option<&[u8]>,
        index_data: Option<&[u8]>,
    ) -> (r: Result<(), RenderError>)
        requires
            old(self).wf(),
        ensures
            final(self).wf(),
            old(self)@.geometry.contains_key(handle) <==> r is Ok,
            r is Ok ==> {
                let (vertex_buffer, index_buffer) = old(self)@.geometry[handle];
                let with_vertex = match vertex_data {
                    Some(d) => old(self)@.pending.push(whole_buffer_upload(vertex_buffer, d@)),
                    None => old(self)@.pending,
                };
                let with_index = match index_data {
                    Some(d) => with_vertex.push(whole_buffer_upload(index_buffer, d@)),
                    None => with_vertex,
                };
                final(self)@ == (ResourceManagerView { pending: with_index, ..old(self)@ })
            },
            r is Err ==> final(self)@ == old(self)@,
            r matches Err(e) ==> e matches RenderError::ResourceNotFound(m) && m@
                == "Geometry handle not found"@,
    {
        match self.get_geometry_buffers(handle) {
            Some((vertex_buffer, index_buffer)) => {
                if let Some(data) = vertex_data {
                    self.queue_upload(
                        PendingUpload::Buffer {
                            handle: vertex_buffer,
                            data: vstd::slice::slice_to_vec(data),
                            offset: 0,
                        },
                    );
                }
                if let Some(data) = index_data {
                    self.queue_upload(
                        PendingUpload::Buffer {
                            handle: index_buffer,
                            data: vstd::slice::slice_to_vec(data),
                            offset: 0,
                        },
                    );
                }
                Ok(())
            },
            None => Err(RenderError::ResourceNotFound("Geometry handle not found".to_string())),
        }
    }

    /// Create a texture with the provided data.
    ///
    /// `create` makes the texture on the device; it is asked for a
    /// `width` by `height` texture of depth 1 with one mip level, the given
    /// format, and the bindable, copy-destination usage. Its error is returned
    /// unchanged. On success, data that is given is queued for upload into the
    /// whole texture.
    pub fn create_texture<
        F: FnOnce(u32, u32, u32, u32, TextureFormat, TextureUsage) -> Result<
            TextureHandle,
            RenderError,
        >,
    >(
        &mut self,
        width: u32,
        height: u32,
        format: TextureFormat,
        data: Option<&[u8]>,
        create: F,
    ) -> (r: Result<TextureHandle, RenderError>)
        requires
            call_requires(create, (width, height, 1u32, 1u32, format, sampled_texture_usage())),
        ensures
            old(self).wf() ==> final(self).wf(),
            call_ensures(create, (width, height, 1u32, 1u32, format, sampled_texture_usage()), r),
            match r {
                Ok(texture) => final(self)@ == (ResourceManagerView {
                    pending: match data {
                        Some(d) => old(self)@.pending.push(
                            whole_texture_upload(texture, d@, width, height),
                        ),
                        None => old(self)@.pending,
                    },
                    ..old(self)@
                }),
                Err(_) => final(self)@ == old(self)@,
            },
    {
        let usage = TextureUsage::texture_binding().union(TextureUsage::copy_dst());
        assert(0x04u32 | 0x02u32 == 0x06u32) by (bit_vector);
        let texture = create(width, height, 1, 1, format, usage)?;
        if let Some(data) = data {
            self.queue_upload(
                PendingUpload::Texture {
                    handle: texture,
                    data: vstd::slice::slice_to_vec(data),
                    width,
                    height,
                    depth: 1,
                    offset_x: 0,
                    offset_y: 0,
                    offset_z: 0,
                },
            );
        }
        Ok(texture)
    }

    /// Set the current pipeline.
    ///
    /// The device is handed through the call: `bind` binds the pipeline on
    /// it and hands it back. If the pipeline is already bound, `bind` is not
    /// called and the device comes back untouched. Otherwise the pipeline
    /// becomes the current one when the bind succeeds.
    pub fn set_pipeline<D, F: FnOnce(D, PipelineHandle) -> (D, Result<(), RenderError>)>(
        &mut self,
        pipeline: PipelineHandle,
        device: D,
        bind: F,
    ) -> (r: (D, Result<(), RenderError>))
        requires
            call_requires(bind, (device, pipeline)),
        ensures
            old(self).wf() ==> final(self).wf(),
            pipeline_bound(old(self)@, pipeline) ==> r == (device, Ok::<(), RenderError>(()))
                && final(self)@ == old(self)@,
            !pipeline_bound(old(self)@, pipeline) ==> call_ensures(bind, (device, pipeline), r),
            !pipeline_bound(old(self)@, pipeline) ==> match r.1 {
                Ok(_) => final(self)@ == after_pipeline_bind(old(self)@, pipeline),
                Err(_) => final(self)@ == old(self)@,
            },
    {
        if let Some(current) = self.current_pipeline {
            if current == pipeline {
                proof {
                    lemma_handle_equal_iff_ids(current, pipeline);
                }
                return (device, Ok(()));
            }
        }
        let (device, result) = bind(device, pipeline);
        if result.is_ok() {
            self.current_pipeline = Some(pipeline);
        }
        (device, result)
    }

    /// Set a vertex buffer.
    ///
    /// The device is handed through the call. If the slot already holds
    /// this buffer at this offset, `bind` is not called and the device comes
    /// back untouched. Otherwise `bind` binds it on the device, and the slot
    /// records it when that succeeds.
    pub fn set_vertex_buffer<
        D,
        F: FnOnce(D, u32, BufferHandle, u64) -> (D, Result<(), RenderError>),
    >(&mut self, slot: u32, buffer: BufferHandle, offset: u64, device: D, bind: F) -> (r: (
        D,
        Result<(), RenderError>,
    ))
        requires
            call_requires(bind, (device, slot, buffer, offset)),
        ensures
            old(self).wf() ==> final(self).wf(),
            vertex_buffer_bound(old(self)@, slot, buffer, offset) ==> r == (device, Ok::<
                (),
                RenderError,
            >(())) && final(self)@ == old(self)@,
            !vertex_buffer_bound(old(self)@, slot, buffer, offset) ==> call_ensures(
                bind,
                (device, slot, buffer, offset),
                r,
            ),
            !vertex_buffer_bound(old(self)@, slot, buffer, offset) ==> match r.1 {
                Ok(_) => final(self)@ == after_vertex_buffer_bind(old(self)@, slot, buffer, offset),
                Err(_) => final(self)@ == old(self)@,
            },
    {
        if let Some((current_buffer, current_offset)) = self.current_vertex_buffers.get(&slot) {
            if *current_buffer == buffer && *current_offset == offset {
                proof {
                    lemma_handle_equal_iff_ids(*current_buffer, buffer);
                }
                return (device, Ok(()));
            }
        }
        let (device, result) = bind(device, slot, buffer, offset);
        if result.is_ok() {
            self.current_vertex_buffers.insert(slot, (buffer, offset));
        }
        (device, result)
    }

    /// Set an index buffer (32-bit indices).
    ///
    /// The device is handed through the call. If this buffer is already
    /// bound at this offset, `bind` is not called and the device comes back
    /// untouched. Otherwise `bind` binds it on the device with the 32-bit
    /// index format, and it is recorded when that succeeds.
    pub fn set_index_buffer<
        D,
        F: FnOnce(D, BufferHandle, u64, IndexFormat) -> (D, Result<(), RenderError>),
    >(&mut self, buffer: BufferHandle, offset: u64, device: D, bind: F) -> (r: (
        D,
        Result<(), RenderError>,
    ))
        requires
            call_requires(bind, (device, buffer, offset, IndexFormat::Uint32)),
        ensures
            old(self).wf() ==> final(self).wf(),
            index_buffer_bound(old(self)@, buffer, offset) ==> r == (device, Ok::<
                (),
                RenderError,
            >(())) && final(self)@ == old(self)@,
            !index_buffer_bound(old(self)@, buffer, offset) ==> call_ensures(
                bind,
                (device, buffer, offset, IndexFormat::Uint32),
                r,
            ),
            !index_buffer_bound(old(self)@, buffer, offset) ==> match r.1 {
                Ok(_) => final(self)@ == after_index_buffer_bind(old(self)@, buffer, offset),
                Err(_) => final(self)@ == old(self)@,
            },
    {
        if let Some((current_buffer, current_offset)) = self.current_index_buffer {
            if current_buffer == buffer && current_offset == offset {
                proof {
                    lemma_handle_equal_iff_ids(current_buffer, buffer);
                }
                return (device, Ok(()));
            }
        }
        let (device, result) = bind(device, buffer, offset, IndexFormat::Uint32);
        if result.is_ok() {
            self.current_index_buffer = Some((buffer, offset));
        }
        (device, result)
    }

    /// Set a bind group.
    ///
    /// The device is handed through the call. If the index already holds
    /// this bind group, `bind` is not called and the device comes back
    /// untouched. Otherwise `bind` binds it on the device, and the index
    /// records it when that succeeds.
    pub fn set_bind_group<
        D,
        F: FnOnce(D, u32, BindGroupHandle) -> (D, Result<(), RenderError>),
    >(&mut self, index: u32, bind_group: BindGroupHandle, device: D, bind: F) -> (r: (
        D,
        Result<(), RenderError>,
    ))
        requires
            call_requires(bind, (device, index, bind_group)),
        ensures
            old(self).wf() ==> final(self).wf(),
            bind_group_bound(old(self)@, index, bind_group) ==> r == (device, Ok::<
                (),
                RenderError,
            >(())) && final(self)@ == old(self)@,
            !bind_group_bound(old(self)@, index, bind_group) ==> call_ensures(
                bind,
                (device, index, bind_group),
                r,
            ),
            !bind_group_bound(old(self)@, index, bind_group) ==> match r.1 {
                Ok(_) => final(self)@ == after_bind_group_bind(old(self)@, index, bind_group),
                Err(_) => final(self)@ == old(self)@,
            },
    {
        if let Some(current_bind_group) = self.current_bind_groups.get(&index) {
            if *current_bind_group == bind_group {
                proof {
                    lemma_handle_equal_iff_ids(*current_bind_group, bind_group);
                }
                return (device, Ok(()));
            }
        }
        let (device, result) = bind(device, index, bind_group);
        if result.is_ok() {
            self.current_bind_groups.insert(index, bind_group);
        }
        (device, result)
    }

    /// Reset the binding state for a new frame: nothing is bound afterwards.
    /// Registered geometry and pending uploads are kept.
    pub fn reset_state(&mut self)
        ensures
            old(self).wf() ==> final(self).wf(),
            final(self)@ == after_reset(old(self)@),
    {
        self.current_pipeline = None;
        self.current_vertex_buffers.clear();
        self.current_index_buffer = None;
        self.current_bind_groups.clear();
    }

    /// Process pending uploads to the GPU.
    ///
    /// The device is handed through the calls: `upload` hands one upload to
    /// it and hands it back. The queued uploads (whose views are the view's
    /// `pending`) are handed over each once, oldest first, until one fails;
    /// that error is returned. Either way the queue is empty afterwards: the
    /// uploads after a failed one are dropped. An empty queue hands the device
    /// back untouched.
    pub fn process_uploads<D, F: Fn(D, &PendingUpload) -> (D, Result<(), RenderError>)>(
        &mut self,
        device: D,
        upload: F,
    ) -> (r: (D, Result<(), RenderError>))
        requires
            forall|d: D, u: &PendingUpload| call_requires(upload, (d, u)),
        ensures
            old(self).wf() ==> final(self).wf(),
            final(self)@ == (ResourceManagerView { pending: Seq::<UploadView>::empty(), ..old(self)@ }),
            upload_views(old(self).pending_uploads()) == old(self)@.pending,
            uploads_handed_over(upload, device, old(self).pending_uploads(), r),
            old(self)@.pending.len() == 0 ==> r == (device, Ok::<(), RenderError>(())),
    {
        let mut uploads: Vec<PendingUpload> = Vec::new();
        std::mem::swap(&mut uploads, &mut self.pending_uploads);
        assert(upload_views(self.pending_uploads@) =~= Seq::<UploadView>::empty());
        let ghost all = uploads@;
        let ghost start = device;
        let mut current = device;
        let ghost mut devices: Seq<D> = seq![start];
        let n = uploads.len();
        let mut i: usize = 0;
        while i < n
            invariant
                n == uploads.len(),
                uploads@ == all,
                all == old(self).pending_uploads(),
                i <= n,
                self@ == (ResourceManagerView { pending: Seq::<UploadView>::empty(), ..old(self)@ }),
                self.wf() == old(self).wf(),
                forall|d: D, u: &PendingUpload| call_requires(upload, (d, u)),
                devices.len() == i + 1,
                devices[0] == start,
                start == device,
                devices[i as int] == current,
                uploads_accepted(upload, devices, all, i as int),
            decreases n - i,
        {
            let ghost before = current;
            let (next_device, result) = upload(current, &uploads[i]);
            current = next_device;
            assert(call_ensures(upload, (before, &all[i as int]), (current, result)));
            match result {
                Ok(unit) => {
                    assert(unit == ());
                    proof {
                        let old_devices = devices;
                        devices = devices.push(current);
                        assert forall|j: int| 0 <= j < i + 1 implies #[trigger] call_ensures(
                            upload,
                            (devices[j], &all[j]),
                            (devices[j + 1], Ok::<(), RenderError>(())),
                        ) by {
                            if j < i {
                                assert(devices[j] == old_devices[j]);
                                assert(devices[j + 1] == old_devices[j + 1]);
                            }
                        }
                    }
                },
                Err(e) => {
                    proof {
                        let old_devices = devices;
                        devices = devices.push(current);
                        assert forall|j: int| 0 <= j < i implies #[trigger] call_ensures(
                            upload,
                            (devices[j], &all[j]),
                            (devices[j + 1], Ok::<(), RenderError>(())),
                        ) by {
                            assert(devices[j] == old_devices[j]);
                            assert(devices[j + 1] == old_devices[j + 1]);
                        }
                        assert(uploads_accepted(upload, devices, all, i as int));
                        assert(devices[i as int] == before);
                        assert(devices[i + 1] == current);
                        assert(call_ensures(
                            upload,
                            (devices[i as int], &all[i as int]),
                            (devices[i + 1], Err::<(), RenderError>(e)),
                        ));
                    }
                    let ret = (current, Err(e));
                    assert(uploads_handed_over(upload, start, all, ret));
                    return ret;
                },
            }
            i = i + 1;
        }
        assert(uploads_accepted(upload, devices, all, n as int));
        (current, Ok(()))
    }
}

/// What looking up a geometry's buffers answers in a given state.
pub open spec fn geometry_lookup(v: ResourceManagerView, handle: GeometryHandle) -> Option<
    (BufferHandle, BufferHandle),
> {
    if v.geometry.contains_key(handle) {
        Some(v.geometry[handle])
    } else {
        None
    }
}

/// A geometry that was registered (or recorded) with some buffers is found
/// with exactly those buffers, and every other geometry is found as before.
pub proof fn lemma_geometry_read_after_register(
    before: ResourceManagerView,
    after: ResourceManagerView,
    handle: GeometryHandle,
    buffers: (BufferHandle, BufferHandle),
    other: GeometryHandle,
)
    requires
        after.geometry == before.geometry.insert(handle, buffers),
    ensures
        geometry_lookup(after, handle) == Some(buffers),
        other != handle ==> geometry_lookup(after, other) == geometry_lookup(before, other),
{
}

/// One step of a history of manager states: the step registered the
/// geometry in `registered` with its buffers (`register_geometry` returning
/// `Ok`), or, with `None`, left the geometry as it was (every other
/// operation, and a failed registration).
pub open spec fn geometry_step(
    before: ResourceManagerView,
    after: ResourceManagerView,
    registered: Option<(GeometryHandle, (BufferHandle, BufferHandle))>,
) -> bool {
    match registered {
        Some((h, b)) => after.geometry == before.geometry.insert(h, b),
        None => after.geometry == before.geometry,
    }
}

/// Step `i` of `registered` is the last registration of `handle`, with the
/// buffers `buffers`.
pub open spec fn last_registration(
    registered: Seq<Option<(GeometryHandle, (BufferHandle, BufferHandle))>>,
    handle: GeometryHandle,
    buffers: (BufferHandle, BufferHandle),
    i: int,
) -> bool {
    &&& 0 <= i < registered.len()
    &&& registered[i] == Some((handle, buffers))
    &&& forall|j: int|
        i < j < registered.len() ==> !(#[trigger] registered[j] matches Some(r) && r.0 == handle)
}

/// Looking up a geometry after a history of operations that started from a
/// new manager finds exactly the buffers of the last successful
/// registration of that geometry, and nothing when it was never registered.
pub proof fn lemma_geometry_lookup_history(
    states: Seq<ResourceManagerView>,
    registered: Seq<Option<(GeometryHandle, (BufferHandle, BufferHandle))>>,
    handle: GeometryHandle,
    buffers: (BufferHandle, BufferHandle),
)
    requires
        states.len() == registered.len() + 1,
        states[0].geometry == Map::<GeometryHandle, (BufferHandle, BufferHandle)>::empty(),
        forall|i: int|
            0 <= i < registered.len() ==> #[trigger] geometry_step(
                states[i],
                states[i + 1],
                registered[i],
            ),
    ensures
        geometry_lookup(states.last(), handle) == Some(buffers) <==> exists|i: int|
            #[trigger] last_registration(registered, handle, buffers, i),
        geometry_lookup(states.last(), handle) is None <==> forall|i: int|
            0 <= i < registered.len() ==> !(#[trigger] registered[i] matches Some(r) && r.0
                == handle),
    decreases registered.len(),
{
    let n = registered.len() as int;
    if n == 0 {
        assert(states.last() == states[0]);
    } else {
        let prev_states = states.drop_last();
        let prev_reg = registered.drop_last();
        assert forall|i: int| 0 <= i < prev_reg.len() implies #[trigger] geometry_step(
            prev_states[i],
            prev_states[i + 1],
            prev_reg[i],
        ) by {
            assert(geometry_step(states[i], states[i + 1], registered[i]));
        }
        lemma_geometry_lookup_history(prev_states, prev_reg, handle, buffers);
        assert(prev_states.last() == states[n - 1]);
        assert(geometry_step(states[n - 1], states[n], registered[n - 1]));
        assert(states.last() == states[n]);
        let lastr = registered[n - 1];
        if lastr matches Some(r) && r.0 == handle {
            if geometry_lookup(states.last(), handle) == Some(buffers) {
                assert(last_registration(registered, handle, buffers, n - 1));
            }
            if exists|i: int| #[trigger] last_registration(registered, handle, buffers, i) {
                let i = choose|i: int| #[trigger] last_registration(registered, handle, buffers, i);
                assert(i == n - 1);
            }
        } else {
            if exists|i: int| #[trigger] last_registration(prev_reg, handle, buffers, i) {
                let i = choose|i: int| #[trigger] last_registration(prev_reg, handle, buffers, i);
                assert forall|j: int| i < j < registered.len() implies !(
                #[trigger] registered[j] matches Some(r) && r.0 == handle) by {
                    if j < n - 1 {
                        assert(registered[j] == prev_reg[j]);
                    }
                }
                assert(last_registration(registered, handle, buffers, i));
            }
            if exists|i: int| #[trigger] last_registration(registered, handle, buffers, i) {
                let i = choose|i: int| #[trigger] last_registration(registered, handle, buffers, i);
                assert(i < n - 1);
                assert forall|j: int| i < j < prev_reg.len() implies !(
                #[trigger] prev_reg[j] matches Some(r) && r.0 == handle) by {
                    assert(registered[j] == prev_reg[j]);
                }
                assert(last_registration(prev_reg, handle, buffers, i));
            }
            assert forall|i: int| 0 <= i < registered.len() && (forall|j: int|
                0 <= j < prev_reg.len() ==> !(#[trigger] prev_reg[j] matches Some(r) && r.0
                    == handle)) implies !(#[trigger] registered[i] matches Some(r) && r.0
                == handle) by {
                if i < n - 1 {
                    assert(registered[i] == prev_reg[i]);
                }
            }
            assert forall|i: int| 0 <= i < prev_reg.len() && (forall|j: int|
                0 <= j < registered.len() ==> !(#[trigger] registered[j] matches Some(r) && r.0
                    == handle)) implies !(#[trigger] prev_reg[i] matches Some(r) && r.0
                == handle) by {
                assert(registered[i] == prev_reg[i]);
            }
        }
    }
}

/// After a successful bind, the same bind finds it bound, so by the
/// contracts of `set_pipeline`, `set_vertex_buffer`, `set_index_buffer` and
/// `set_bind_group` it hands the device back untouched; a bind of something
/// else still finds it unbound and goes to the device.
pub proof fn lemma_rebind_is_skipped(
    before: ResourceManagerView,
    pipeline: PipelineHandle,
    other_pipeline: PipelineHandle,
    slot: u32,
    buffer: BufferHandle,
    offset: u64,
    index: u32,
    bind_group: BindGroupHandle,
)
    ensures
        pipeline_bound(after_pipeline_bind(before, pipeline), pipeline),
        other_pipeline != pipeline ==> !pipeline_bound(
            after_pipeline_bind(before, pipeline),
            other_pipeline,
        ),
        vertex_buffer_bound(after_vertex_buffer_bind(before, slot, buffer, offset), slot, buffer, offset),
        index_buffer_bound(after_index_buffer_bind(before, buffer, offset), buffer, offset),
        bind_group_bound(after_bind_group_bind(before, index, bind_group), index, bind_group),
{
}

/// After the binding state is reset nothing is bound, so by the contracts
/// of the bind functions each of the next binds goes to the device;
/// registered geometry and pending uploads are kept.
pub proof fn lemma_reset_forgets_bindings(
    before: ResourceManagerView,
    pipeline: PipelineHandle,
    slot: u32,
    buffer: BufferHandle,
    offset: u64,
    index: u32,
    bind_group: BindGroupHandle,
)
    ensures
        !pipeline_bound(after_reset(before), pipeline),
        !vertex_buffer_bound(after_reset(before), slot, buffer, offset),
        !index_buffer_bound(after_reset(before), buffer, offset),
        !bind_group_bound(after_reset(before), index, bind_group),
        after_reset(before).geometry == before.geometry,
        after_reset(before).pending == before.pending,
{
}

} // verus!
