use vectron_render::backend::resource::{
    MultisampleState, PrimitiveState, VertexAttribute, VertexBufferLayout, VertexFormat,
    VertexStepMode,
};
use vectron_render::render_core::error::RenderError;
use vectron_render::render_core::types::common::{
    FrontFace, PolygonMode, PrimitiveTopology, TextureFormat,
};
use vectron_render::render_core::types::handles::{PipelineHandle, ShaderHandle};
use vectron_render::renderer::pipeline_cache::{PipelineCache, PipelineKey};

fn primitive() -> PrimitiveState {
    PrimitiveState {
        topology: PrimitiveTopology::TriangleList,
        strip_index_format: None,
        front_face: FrontFace::Ccw,
        cull_mode: None,
        polygon_mode: PolygonMode::Fill,
        conservative: false,
    }
}

fn multisample() -> MultisampleState {
    MultisampleState { count: 1, mask: u64::MAX, alpha_to_coverage_enabled: false }
}

fn layout(stride: u64) -> VertexBufferLayout {
    VertexBufferLayout {
        array_stride: stride,
        step_mode: VertexStepMode::Vertex,
        attributes: vec![VertexAttribute {
            format: VertexFormat::Float32x2,
            offset: 0,
            shader_location: 0,
        }],
    }
}

fn key(shader: u64, stride: u64) -> PipelineKey {
    PipelineKey::new(
        ShaderHandle::from_u64(shader),
        Some(ShaderHandle::from_u64(shader + 100)),
        vec![layout(stride)],
        vec![Some(TextureFormat::Rgba8Unorm)],
        None,
        primitive(),
        multisample(),
    )
}

/// A device that counts the pipelines it made and numbers them from 501.
fn make(created: u64, _k: &PipelineKey) -> (u64, Result<PipelineHandle, RenderError>) {
    (created + 1, Ok(PipelineHandle::from_u64(501 + created)))
}

#[test]
fn pipeline_is_created_once_per_configuration() {
    let mut cache = PipelineCache::new();
    let (created, first) = cache.get_or_create(key(1, 8), 0u64, make);
    let first = first.unwrap();
    assert_eq!(first, PipelineHandle::from_u64(501));
    assert_eq!(created, 1);
    assert_eq!(cache.count(), 1);
    let (created, again) = cache.get_or_create(key(1, 8), created, make);
    assert_eq!(again.unwrap(), first);
    assert_eq!(created, 1);
    assert_eq!(cache.count(), 1);
    let (created, other) = cache.get_or_create(key(1, 12), created, make);
    let other = other.unwrap();
    assert_eq!(other, PipelineHandle::from_u64(502));
    assert_eq!(created, 2);
    assert_eq!(cache.count(), 2);
    assert_eq!(cache.cached(&key(1, 12)), Some(other));
}

#[test]
fn failed_creation_is_not_cached() {
    let mut cache = PipelineCache::new();
    let (_, r) = cache.get_or_create(key(2, 8), (), |d, _k| (d, Err(RenderError::ResourceCreation("no".to_string()))));
    assert_eq!(r, Err(RenderError::ResourceCreation("no".to_string())));
    assert_eq!(cache.count(), 0);
    assert_eq!(cache.cached(&key(2, 8)), None);
}

#[test]
fn creation_sees_the_key() {
    let mut cache = PipelineCache::new();
    let k = key(3, 16);
    let (_, h) = cache.get_or_create(k.clone(), (), |d, k: &PipelineKey| {
        assert_eq!(k.vertex_shader(), ShaderHandle::from_u64(3));
        assert_eq!(k.fragment_shader(), Some(ShaderHandle::from_u64(103)));
        assert_eq!(k.vertex_layouts()[0].array_stride, 16);
        assert_eq!(k.color_formats(), &[Some(TextureFormat::Rgba8Unorm)]);
        assert!(k.depth_stencil().is_none());
        assert_eq!(*k.primitive(), primitive());
        assert_eq!(*k.multisample(), multisample());
        (d, Ok(PipelineHandle::from_u64(9)))
    });
    assert_eq!(h.unwrap(), PipelineHandle::from_u64(9));
}

#[test]
fn clear_empties_the_cache() {
    let mut cache = PipelineCache::new();
    let (created, _) = cache.get_or_create(key(1, 8), 0u64, make);
    let (created, _) = cache.get_or_create(key(2, 8), created, make);
    assert_eq!(created, 2);
    assert_eq!(cache.count(), 2);
    cache.clear();
    assert_eq!(cache.count(), 0);
    assert_eq!(cache.cached(&key(1, 8)), None);
    let (created, _) = cache.get_or_create(key(1, 8), created, make);
    assert_eq!(created, 3);
}

#[test]
fn keys_compare_by_configuration() {
    assert_eq!(key(1, 8), key(1, 8));
    assert!(key(1, 8).same_configuration(&key(1, 8)));
    assert_ne!(key(1, 8), key(1, 9));
    assert_ne!(key(1, 8), key(2, 8));
    let mut l = layout(8);
    l.attributes.push(VertexAttribute { format: VertexFormat::Float32, offset: 8, shader_location: 1 });
    let k2 = PipelineKey::new(
        ShaderHandle::from_u64(1),
        Some(ShaderHandle::from_u64(101)),
        vec![l],
        vec![Some(TextureFormat::Rgba8Unorm)],
        None,
        primitive(),
        multisample(),
    );
    assert_ne!(key(1, 8), k2);
}
