use vectron_render::effect::blur::BlurDirection;
use vectron_render::effect::post::PostProcessingType;
use vectron_render::render_core::error::{BackendError, RenderError};

#[test]
fn post_processing_batchability() {
    assert!(PostProcessingType::Brightness.is_batchable());
    assert!(PostProcessingType::Contrast.is_batchable());
    assert!(PostProcessingType::Saturation.is_batchable());
    assert!(!PostProcessingType::Grayscale.is_batchable());
    assert!(!PostProcessingType::Sepia.is_batchable());
    assert!(!PostProcessingType::Invert.is_batchable());
    assert!(!PostProcessingType::Custom.is_batchable());
    assert_eq!(PostProcessingType::Sepia.name(), "Sepia");
    assert_eq!(PostProcessingType::Custom.name(), "Custom");
}

#[test]
fn blur_direction_labels() {
    assert_eq!(BlurDirection::Horizontal.label(), "horizontal");
    assert_eq!(BlurDirection::Vertical.label(), "vertical");
    assert_eq!(BlurDirection::Both.label(), "both");
}

#[test]
fn backend_errors_convert() {
    let e: RenderError = BackendError::OutOfMemory("vram".to_string()).into();
    assert_eq!(e, RenderError::Backend(BackendError::OutOfMemory("vram".to_string())));
}
