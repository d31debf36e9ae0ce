//! The counters of rendering statistics.
//!
//! Per frame the renderer counts draw calls, operations, triangles and
//! vertices, and over its life the frames it completed. Frame timing is
//! measured with the clock by the caller; the counters say when a frame is
//! open and count it when it is closed.
use vstd::prelude::*;

verus! {

/// The counters, as numbers.
pub struct RenderCountersView {
    /// A frame has begun and not yet ended.
    pub frame_open: bool,
    /// The number of frames completed.
    pub frame_count: nat,
    /// Draw calls in the current (or last) frame.
    pub draw_calls: nat,
    /// Render operations in the current (or last) frame.
    pub operation_count: nat,
    /// Triangles drawn in the current (or last) frame.
    pub triangle_count: nat,
    /// Vertices processed in the current (or last) frame.
    pub vertex_count: nat,
}

/// Counters of rendering work.
#[derive(Debug, Clone)]
pub struct RenderCounters {
    frame_open: bool,
    frame_count: u64,
    draw_calls: u32,
    operation_count: u32,
    triangle_count: u32,
    vertex_count: u32,
}

impl View for RenderCounters {
    type V = RenderCountersView;

    closed spec fn view(&self) -> RenderCountersView {
        RenderCountersView {
            frame_open: self.frame_open,
            frame_count: self.frame_count as nat,
            draw_calls: self.draw_calls as nat,
            operation_count: self.operation_count as nat,
            triangle_count: self.triangle_count as nat,
            vertex_count: self.vertex_count as nat,
        }
    }
}

/// Counters with nothing counted and no frame open.
pub open spec fn zero_counters() -> RenderCountersView {
    RenderCountersView {
        frame_open: false,
        frame_count: 0,
        draw_calls: 0,
        operation_count: 0,
        triangle_count: 0,
        vertex_count: 0,
    }
}

impl RenderCounters {
    /// Counters with nothing counted and no frame open.
    pub fn new() -> (r: Self)
        ensures
            r@ == zero_counters(),
    {
        RenderCounters {
            frame_open: false,
            frame_count: 0,
            draw_calls: 0,
            operation_count: 0,
            triangle_count: 0,
            vertex_count: 0,
        }
    }

    /// Begin a frame: the per-frame counts start from zero and the frame is
    /// open; the number of completed frames is kept.
    pub fn begin_frame(&mut self)
        ensures
            final(self)@ == (RenderCountersView {
                frame_open: true,
                frame_count: old(self)@.frame_count,
                ..zero_counters()
            }),
    {
        self.frame_open = true;
        self.draw_calls = 0;
        self.operation_count = 0;
        self.triangle_count = 0;
        self.vertex_count = 0;
    }

    /// End the open frame: it is counted and closed, and `true` is
    /// returned. Without an open frame nothing changes and `false` is
    /// returned. The per-frame counts stay readable until the next frame.
    pub fn end_frame(&mut self) -> (r: bool)
        requires
            old(self)@.frame_open ==> old(self)@.frame_count < u64::MAX,
        ensures
            r == old(self)@.frame_open,
            r ==> final(self)@ == (RenderCountersView {
                frame_open: false,
                frame_count: old(self)@.frame_count + 1,
                ..old(self)@
            }),
            !r ==> final(self)@ == old(self)@,
    {
        if self.frame_open {
            self.frame_count = self.frame_count + 1;
            self.frame_open = false;
            true
        } else {
            false
        }
    }

    /// Record a draw call of `triangles` triangles and `vertices` vertices.
    pub fn record_draw_call(&mut self, triangles: u32, vertices: u32)
        requires
            old(self)@.draw_calls < u32::MAX,
            old(self)@.triangle_count + triangles <= u32::MAX,
            old(self)@.vertex_count + vertices <= u32::MAX,
        ensures
            final(self)@ == (RenderCountersView {
                draw_calls: old(self)@.draw_calls + 1,
                triangle_count: old(self)@.triangle_count + triangles as nat,
                vertex_count: old(self)@.vertex_count + vertices as nat,
                ..old(self)@
            }),
    {
        self.draw_calls = self.draw_calls + 1;
        self.triangle_count = self.triangle_count + triangles;
        self.vertex_count = self.vertex_count + vertices;
    }

    /// Count one more render operation.
    pub fn increment_operations(&mut self)
        requires
            old(self)@.operation_count < u32::MAX,
        ensures
            final(self)@ == (RenderCountersView {
                operation_count: old(self)@.operation_count + 1,
                ..old(self)@
            }),
    {
        self.operation_count = self.operation_count + 1;
    }

    /// Whether a frame is open.
    pub fn frame_open(&self) -> (r: bool)
        ensures
            r == self@.frame_open,
    {
        self.frame_open
    }

    /// The number of completed frames.
    pub fn frame_count(&self) -> (r: u64)
        ensures
            r == self@.frame_count,
    {
        self.frame_count
    }

    /// The number of draw calls in the current or last frame.
    pub fn draw_calls(&self) -> (r: u32)
        ensures
            r == self@.draw_calls,
    {
        self.draw_calls
    }

    /// The number of render operations in the current or last frame.
    pub fn operation_count(&self) -> (r: u32)
        ensures
            r == self@.operation_count,
    {
        self.operation_count
    }

    /// The number of triangles in the current or last frame.
    pub fn triangle_count(&self) -> (r: u32)
        ensures
            r == self@.triangle_count,
    {
        self.triangle_count
    }

    /// The number of vertices in the current or last frame.
    pub fn vertex_count(&self) -> (r: u32)
        ensures
            r == self@.vertex_count,
    {
        self.vertex_count
    }

    /// Reset every counter and close the frame.
    pub fn reset(&mut self)
        ensures
            final(self)@ == zero_counters(),
    {
        *self = RenderCounters::new();
    }
}

} // verus!
