use vectron_render::renderer::stats::RenderCounters;

#[test]
fn test_counters_start_at_zero() {
    let c = RenderCounters::new();
    assert!(!c.frame_open());
    assert_eq!(c.frame_count(), 0);
    assert_eq!(c.draw_calls(), 0);
    assert_eq!(c.operation_count(), 0);
    assert_eq!(c.triangle_count(), 0);
    assert_eq!(c.vertex_count(), 0);
}

#[test]
fn test_frame_counts_draw_calls_and_operations() {
    let mut c = RenderCounters::new();
    c.begin_frame();
    assert!(c.frame_open());
    c.record_draw_call(2, 4);
    c.record_draw_call(10, 30);
    c.increment_operations();
    assert_eq!(c.draw_calls(), 2);
    assert_eq!(c.triangle_count(), 12);
    assert_eq!(c.vertex_count(), 34);
    assert_eq!(c.operation_count(), 1);
    assert!(c.end_frame());
    assert_eq!(c.frame_count(), 1);
    // The last frame's counts stay readable after it ends.
    assert_eq!(c.draw_calls(), 2);
    assert!(!c.frame_open());
}

#[test]
fn test_begin_frame_discards_previous_counts() {
    let mut c = RenderCounters::new();
    c.begin_frame();
    c.record_draw_call(1, 3);
    c.end_frame();
    c.begin_frame();
    assert_eq!(c.draw_calls(), 0);
    assert_eq!(c.triangle_count(), 0);
    assert_eq!(c.vertex_count(), 0);
    assert_eq!(c.frame_count(), 1);
}

#[test]
fn test_end_frame_without_open_frame_changes_nothing() {
    let mut c = RenderCounters::new();
    assert!(!c.end_frame());
    assert_eq!(c.frame_count(), 0);
    c.begin_frame();
    assert!(c.end_frame());
    assert!(!c.end_frame());
    assert_eq!(c.frame_count(), 1);
}

#[test]
fn test_counters_reset() {
    let mut c = RenderCounters::new();
    c.begin_frame();
    c.increment_operations();
    c.end_frame();
    c.reset();
    assert_eq!(c.frame_count(), 0);
    assert_eq!(c.operation_count(), 0);
    assert!(!c.frame_open());
}
