use vectron_render::render_core::style::{fill_is_batchable, stroke_is_batchable, PaintKind};

#[test]
fn test_fill_batching_by_paint() {
    assert!(fill_is_batchable(PaintKind::Solid));
    assert!(fill_is_batchable(PaintKind::LinearGradient));
    assert!(!fill_is_batchable(PaintKind::RadialGradient));
    assert!(!fill_is_batchable(PaintKind::Texture));
    assert!(!fill_is_batchable(PaintKind::Pattern));
}

#[test]
fn test_stroke_batching_by_paint_and_dash() {
    assert!(stroke_is_batchable(PaintKind::Solid, false));
    assert!(!stroke_is_batchable(PaintKind::Solid, true));
    assert!(!stroke_is_batchable(PaintKind::LinearGradient, false));
    assert!(!stroke_is_batchable(PaintKind::Texture, true));
}
