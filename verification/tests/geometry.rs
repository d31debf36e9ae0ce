use vectron_render::math::interpolation::bezier::{BezierSpline, CubicBezier, QuadraticBezier};
use vectron_render::render_core::color::rgba8_from_hex;
use vectron_render::render_core::drawable::{
    box_indices, mesh_triangles, path_segments, rectangle_triangulation, sphere_indices,
    RenderHints,
};

#[test]
fn spline_segments_of_open_and_closed_splines() {
    let open = BezierSpline::new(vec![0, 1, 2, 3, 4, 5, 6], false);
    assert_eq!(open.segment_count(), 2);
    assert!(!open.is_closed());
    assert_eq!(open.get_segment_control_points(0), (0, 1, 2, 3));
    assert_eq!(open.get_segment_control_points(1), (3, 4, 5, 6));
    assert_eq!(open.control_points(), &[0, 1, 2, 3, 4, 5, 6]);

    let closed = BezierSpline::new(vec![10, 11, 12, 13, 14, 15], true);
    assert_eq!(closed.segment_count(), 2);
    assert!(closed.is_closed());
    assert_eq!(closed.get_segment_control_points(0), (10, 11, 12, 13));
    assert_eq!(closed.get_segment_control_points(1), (13, 14, 15, 10));
    assert_eq!(closed.get_segment_control_points(2), (10, 11, 12, 13));
}

#[test]
fn curves_hold_their_points() {
    let c = CubicBezier::new(1, 2, 3, 4);
    assert_eq!((c.p0, c.p1, c.p2, c.p3), (1, 2, 3, 4));
    let q = QuadraticBezier::new(5, 6, 7);
    assert_eq!((q.p0, q.p1, q.p2), (5, 6, 7));
}

#[test]
fn rectangle_and_box_triangles() {
    assert_eq!(rectangle_triangulation(), vec![0, 1, 2, 0, 2, 3]);
    let b = box_indices();
    assert_eq!(b.len(), 36);
    assert_eq!(&b[0..6], &[0, 1, 2, 0, 2, 3]);
    assert_eq!(&b[30..36], &[0, 3, 7, 0, 7, 4]);
    assert!(b.iter().all(|&i| i < 8));
}

#[test]
fn sphere_indices_cover_all_quads() {
    let s = 2u32;
    let idx = sphere_indices(s);
    assert_eq!(idx.len(), 6 * 2 * 4);
    assert_eq!(&idx[0..6], &[0, 4, 5, 0, 5, 1]);
    // last column wraps to the first one of the ring
    assert_eq!(&idx[18..24], &[3, 7, 4, 3, 4, 0]);
    let vertex_count = (s + 1) * 2 * s;
    assert!(idx.iter().all(|&i| i < vertex_count));
    assert!(sphere_indices(0).is_empty());
    assert_eq!(sphere_indices(16).len(), 6 * 16 * 32);
}

#[test]
fn path_segments_open_and_closed() {
    let pts = vec![(0, 0), (1, 0), (1, 1)];
    assert_eq!(path_segments(&pts, false), vec![((0, 0), (1, 0)), ((1, 0), (1, 1))]);
    assert_eq!(
        path_segments(&pts, true),
        vec![((0, 0), (1, 0)), ((1, 0), (1, 1)), ((1, 1), (0, 0))]
    );
    let two = vec![1, 2];
    assert_eq!(path_segments(&two, true), vec![(1, 2)]);
    let one = vec![1];
    assert!(path_segments(&one, true).is_empty());
}

#[test]
fn hex_colors() {
    assert_eq!(rgba8_from_hex(0x336699), (0x33, 0x66, 0x99, 255));
    assert_eq!(rgba8_from_hex(0x80FF0000), (0xFF, 0, 0, 0x80));
    assert_eq!(rgba8_from_hex(0xFFFFFF), (255, 255, 255, 255));
    assert_eq!(rgba8_from_hex(0x01000000), (0, 0, 0, 1));
}

#[test]
fn default_render_hints() {
    let h = RenderHints::default();
    assert!(!h.can_batch && !h.needs_alpha_blending && !h.can_use_shader_transform);
}

#[test]
fn mesh_triangles_skip_incomplete_and_out_of_range() {
    let indices = vec![0, 1, 2, 2, 3, 9, 1, 2, 3, 4, 5];
    assert_eq!(mesh_triangles(&indices, 4), vec![(0, 1, 2), (1, 2, 3)]);
    assert_eq!(mesh_triangles(&indices, 10), vec![(0, 1, 2), (2, 3, 9), (1, 2, 3)]);
    assert!(mesh_triangles(&vec![0, 1], 3).is_empty());
}
