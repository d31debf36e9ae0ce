use vectron_render::render_core::types::handles::{
    BufferHandle, GeometryHandle, PipelineHandle, ResourceHandle, ShaderHandle, TextureHandle,
    TextureMarker,
};
use vectron_render::render_core::types::uuid::{Uuid, UuidSequence};

#[test]
fn uuid_halves() {
    let id = Uuid::new(7, 9);
    assert_eq!(id.high(), 7);
    assert_eq!(id.low(), 9);
    let small = Uuid::from_u64(42);
    assert_eq!(small.high(), 0);
    assert_eq!(small.low(), 42);
    assert_eq!(small, Uuid::new(0, 42));
    assert_ne!(small, Uuid::new(1, 42));
}

#[test]
fn sequential_uuids_start_at_one_and_increase() {
    let mut ids = UuidSequence::new();
    let a = Uuid::sequential(&mut ids);
    let b = Uuid::sequential(&mut ids);
    let c = Uuid::sequential(&mut ids);
    assert_eq!(a, Uuid::from_u64(1));
    assert_eq!(b, Uuid::from_u64(2));
    assert_eq!(c, Uuid::from_u64(3));
    assert_eq!(ids.next_value(), 4);
}

#[test]
fn sequential_uuids_wrap_after_max() {
    let mut ids = UuidSequence::starting_at(u64::MAX);
    let a = Uuid::sequential(&mut ids);
    let b = Uuid::sequential(&mut ids);
    assert_eq!(a.low(), u64::MAX);
    assert_eq!(b.low(), 0);
    assert_ne!(a, b);
}

#[test]
fn uuid_debug_string_is_hexadecimal() {
    let id = Uuid::new(0x1234, 0xabcdef);
    assert_eq!(id.debug_string(), "Uuid(00000000000012340000000000abcdef)");
    assert_eq!(id.debug_string().len(), 38);
    assert_eq!(
        Uuid::new(u64::MAX, 0).debug_string(),
        "Uuid(ffffffffffffffff0000000000000000)"
    );
}

#[test]
fn handles_carry_their_uuid() {
    let id = Uuid::new(3, 5);
    let h: TextureHandle = ResourceHandle::with_id(id);
    assert_eq!(h.id(), id);
    assert_eq!(h.uuid(), id);
    assert_eq!(h.to_uuid(), id);
    assert_eq!(h.value(), 5);
    let back: ResourceHandle<TextureMarker> = ResourceHandle::from_uuid(h.to_uuid());
    assert_eq!(back, h);
    let b = BufferHandle::from_u64(77);
    assert_eq!(b.value(), 77);
    assert_eq!(b.id(), Uuid::from_u64(77));
    assert_ne!(BufferHandle::from_u64(1), BufferHandle::from_u64(2));
}

#[test]
fn handle_constructors_draw_sequential_ids() {
    let mut ids = UuidSequence::new();
    let t = TextureHandle::new(&mut ids);
    let g = GeometryHandle::new(&mut ids);
    let p = PipelineHandle::new(&mut ids);
    let s = ShaderHandle::sequential(&mut ids);
    assert_eq!(t.value(), 1);
    assert_eq!(g.value(), 2);
    assert_eq!(p.value(), 3);
    assert_eq!(s.value(), 4);
}
