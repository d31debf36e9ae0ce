use vectron_render::backend::resource::{BufferUsage, TextureUsage};
use vectron_render::render_core::error::RenderError;
use vectron_render::render_core::types::common::{IndexFormat, TextureFormat};
use vectron_render::render_core::types::handles::{
    BindGroupHandle, BufferHandle, GeometryHandle, PipelineHandle, TextureHandle,
};
use vectron_render::render_core::types::uuid::UuidSequence;
use vectron_render::renderer::resource_manager::{PendingUpload, ResourceManager};

/// A device whose log records each buffer request; buffers are numbered
/// from 11.
fn create_logged(mut log: Vec<(u64, u32)>, size: u64, usage: BufferUsage) -> (Vec<(u64, u32)>, Result<BufferHandle, RenderError>) {
    log.push((size, usage.bits));
    let handle = BufferHandle::from_u64(10 + log.len() as u64);
    (log, Ok(handle))
}

/// A device whose log records each upload it accepts.
fn upload_logged(mut log: Vec<(u64, Vec<u8>, u64)>, u: &PendingUpload) -> (Vec<(u64, Vec<u8>, u64)>, Result<(), RenderError>) {
    match u {
        PendingUpload::Buffer { handle, data, offset } => log.push((handle.value(), data.clone(), *offset)),
        PendingUpload::Texture { handle, data, .. } => log.push((handle.value(), data.clone(), 0)),
    }
    (log, Ok(()))
}

/// A device that counts what it was handed.
fn count_upload(n: usize, _u: &PendingUpload) -> (usize, Result<(), RenderError>) {
    (n + 1, Ok(()))
}

fn registered() -> (ResourceManager, GeometryHandle, Vec<(u64, u32)>) {
    let mut rm = ResourceManager::new();
    let mut ids = UuidSequence::new();
    let (calls, g) = rm.register_geometry(&[1, 2, 3, 4], &[0, 1], &mut ids, Vec::new(), create_logged);
    (rm, g.unwrap(), calls)
}

#[test]
fn register_geometry_creates_buffers_and_queues_data() {
    let (mut rm, g, calls) = registered();
    assert_eq!(calls, vec![(4, BufferUsage::vertex().bits), (2, BufferUsage::index().bits)]);
    assert_eq!(g, GeometryHandle::from_u64(1));
    assert_eq!(
        rm.get_geometry_buffers(g),
        Some((BufferHandle::from_u64(11), BufferHandle::from_u64(12)))
    );
    let (seen, r) = rm.process_uploads(Vec::new(), upload_logged);
    r.unwrap();
    assert_eq!(seen, vec![(11, vec![1, 2, 3, 4], 0), (12, vec![0, 1], 0)]);
    assert_eq!(rm.process_uploads(0usize, count_upload), (0, Ok(())));
}

#[test]
fn register_geometry_failure_changes_nothing() {
    let mut rm = ResourceManager::new();
    let mut ids = UuidSequence::new();
    let (n, r) = rm.register_geometry(&[1], &[2], &mut ids, 0u64, |n: u64, _s, _u| {
        let n = n + 1;
        if n == 2 {
            (n, Err(RenderError::OutOfMemory("index".to_string())))
        } else {
            (n, Ok(BufferHandle::from_u64(n)))
        }
    });
    assert_eq!(n, 2);
    assert_eq!(r, Err(RenderError::OutOfMemory("index".to_string())));
    assert_eq!(ids.next_value(), 1);
    assert_eq!(rm.get_geometry_buffers(GeometryHandle::from_u64(1)), None);
    assert_eq!(rm.process_uploads(0usize, count_upload), (0, Ok(())));
}

#[test]
fn failed_vertex_buffer_asks_for_no_index_buffer() {
    let mut rm = ResourceManager::new();
    let mut ids = UuidSequence::new();
    let (n, r) = rm.register_geometry(&[1], &[2], &mut ids, 0u64, |n: u64, _s, _u| {
        (n + 1, Err(RenderError::OutOfMemory("vertex".to_string())))
    });
    assert_eq!(n, 1);
    assert_eq!(r, Err(RenderError::OutOfMemory("vertex".to_string())));
}

#[test]
fn update_geometry_of_unknown_handle_is_an_error() {
    let mut rm = ResourceManager::new();
    let r = rm.update_geometry(GeometryHandle::from_u64(5), Some(&[1]), None);
    assert_eq!(r, Err(RenderError::ResourceNotFound("Geometry handle not found".to_string())));
}

#[test]
fn update_geometry_queues_given_data() {
    let (mut rm, g, _) = registered();
    rm.process_uploads(0usize, count_upload).1.unwrap();
    rm.update_geometry(g, None, Some(&[9, 9])).unwrap();
    let (seen, r) = rm.process_uploads(Vec::new(), upload_logged);
    r.unwrap();
    assert_eq!(seen, vec![(12, vec![9, 9], 0)]);
}

#[test]
fn process_uploads_stops_at_first_failure_and_empties_queue() {
    let (mut rm, g, _) = registered();
    rm.update_geometry(g, Some(&[5]), Some(&[6])).unwrap();
    let (handed, r) = rm.process_uploads(0usize, |handed: usize, _u: &PendingUpload| {
        let handed = handed + 1;
        if handed == 2 {
            (handed, Err(RenderError::Other("upload".to_string())))
        } else {
            (handed, Ok(()))
        }
    });
    assert_eq!(r, Err(RenderError::Other("upload".to_string())));
    assert_eq!(handed, 2);
    assert_eq!(rm.process_uploads(0usize, count_upload), (0, Ok(())));
}

#[test]
fn create_texture_asks_device_and_queues_data() {
    let mut rm = ResourceManager::new();
    let mut asked = None;
    let t = rm
        .create_texture(4, 2, TextureFormat::Bgra8Unorm, Some(&[7; 32]), |w, h, d, m, f, u| {
            asked = Some((w, h, d, m, f, u.bits));
            Ok(TextureHandle::from_u64(70))
        })
        .unwrap();
    assert_eq!(t, TextureHandle::from_u64(70));
    let usage = TextureUsage::texture_binding().union(TextureUsage::copy_dst());
    assert_eq!(asked, Some((4, 2, 1, 1, TextureFormat::Bgra8Unorm, usage.bits)));
    assert_eq!(usage.bits, 6);
    let (seen, r) = rm.process_uploads(Vec::new(), |mut log: Vec<(u64, usize, u32, u32, u32, u32, u32, u32)>, u: &PendingUpload| {
        if let PendingUpload::Texture { handle, data, width, height, depth, offset_x, offset_y, offset_z } = u {
            log.push((handle.value(), data.len(), *width, *height, *depth, *offset_x, *offset_y, *offset_z));
        }
        (log, Ok(()))
    });
    r.unwrap();
    assert_eq!(seen, vec![(70, 32, 4, 2, 1, 0, 0, 0)]);
}

#[test]
fn create_texture_failure_and_no_data() {
    let mut rm = ResourceManager::new();
    let r = rm.create_texture(1, 1, TextureFormat::Rgba8Unorm, Some(&[1]), |_w, _h, _d, _m, _f, _u| {
        Err(RenderError::UnsupportedFeature("format".to_string()))
    });
    assert!(matches!(r, Err(RenderError::UnsupportedFeature(_))));
    let t = rm
        .create_texture(1, 1, TextureFormat::Rgba8Unorm, None, |_w, _h, _d, _m, _f, _u| {
            Ok(TextureHandle::from_u64(3))
        })
        .unwrap();
    assert_eq!(t.value(), 3);
    assert_eq!(rm.process_uploads(0usize, count_upload), (0, Ok(())));
}

#[test]
fn redundant_binds_are_skipped() {
    let mut rm = ResourceManager::new();
    let p = PipelineHandle::from_u64(1);
    let bind_pipeline = |n: u32, _p: PipelineHandle| (n + 1, Ok(()));
    let (binds, r) = rm.set_pipeline(p, 0u32, bind_pipeline);
    r.unwrap();
    let (binds, r) = rm.set_pipeline(p, binds, bind_pipeline);
    r.unwrap();
    assert_eq!(binds, 1);
    let (binds, r) = rm.set_pipeline(PipelineHandle::from_u64(2), binds, bind_pipeline);
    r.unwrap();
    assert_eq!(binds, 2);

    let b = BufferHandle::from_u64(4);
    let bind_vb = |mut log: Vec<(u32, BufferHandle, u64)>, s, h, o| {
        log.push((s, h, o));
        (log, Ok(()))
    };
    let (vb, _) = rm.set_vertex_buffer(0, b, 0, Vec::new(), bind_vb);
    let (vb, _) = rm.set_vertex_buffer(0, b, 0, vb, bind_vb);
    let (vb, _) = rm.set_vertex_buffer(0, b, 16, vb, bind_vb);
    let (vb, _) = rm.set_vertex_buffer(1, b, 16, vb, bind_vb);
    assert_eq!(vb, vec![(0, b, 0), (0, b, 16), (1, b, 16)]);

    let bind_ib = |mut log: Vec<(BufferHandle, u64, IndexFormat)>, h, o, f| {
        log.push((h, o, f));
        (log, Ok(()))
    };
    let (ib, _) = rm.set_index_buffer(b, 8, Vec::new(), bind_ib);
    let (ib, _) = rm.set_index_buffer(b, 8, ib, bind_ib);
    assert_eq!(ib, vec![(b, 8, IndexFormat::Uint32)]);

    let bg = BindGroupHandle::from_u64(6);
    let bind_bg = |mut log: Vec<(u32, BindGroupHandle)>, i, g| {
        log.push((i, g));
        (log, Ok(()))
    };
    let (groups, _) = rm.set_bind_group(2, bg, Vec::new(), bind_bg);
    let (groups, _) = rm.set_bind_group(2, bg, groups, bind_bg);
    assert_eq!(groups, vec![(2, bg)]);
}

#[test]
fn failed_bind_is_not_recorded_and_reset_forgets_bindings() {
    let mut rm = ResourceManager::new();
    let p = PipelineHandle::from_u64(1);
    let (_, r) = rm.set_pipeline(p, (), |d, _p| (d, Err(RenderError::InvalidOperation("bind".to_string()))));
    assert!(r.is_err());
    let bind_pipeline = |n: u32, _p: PipelineHandle| (n + 1, Ok(()));
    let (binds, _) = rm.set_pipeline(p, 0u32, bind_pipeline);
    assert_eq!(binds, 1);
    rm.reset_state();
    let (binds, _) = rm.set_pipeline(p, binds, bind_pipeline);
    assert_eq!(binds, 2);
}

#[test]
fn registered_handles_are_fresh_and_uploads_follow_queue_order() {
    let mut rm = ResourceManager::new();
    let mut ids = UuidSequence::new();
    let (_, g1) = rm.register_geometry(&[1], &[2], &mut ids, (), |d, size, _| (d, Ok(BufferHandle::from_u64(100 + size))));
    let (_, g2) = rm.register_geometry(&[3, 4], &[5, 6, 7], &mut ids, (), |d, size, _| (d, Ok(BufferHandle::from_u64(200 + size))));
    let (g1, g2) = (g1.unwrap(), g2.unwrap());
    assert_ne!(g1, g2);
    assert_eq!(rm.get_geometry_buffers(g1), Some((BufferHandle::from_u64(101), BufferHandle::from_u64(101))));
    let (seen, r) = rm.process_uploads(Vec::new(), upload_logged);
    r.unwrap();
    let data: Vec<Vec<u8>> = seen.into_iter().map(|(_, d, _)| d).collect();
    assert_eq!(data, vec![vec![1u8], vec![2], vec![3, 4], vec![5, 6, 7]]);
    assert_eq!(rm.process_uploads(0usize, count_upload), (0, Ok(())));
}
