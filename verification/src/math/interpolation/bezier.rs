//! Bezier curves and splines of control points.
//!
//! A spline of cubic segments stores its control points in one vector:
//! segment `k` uses the points `3k, 3k+1, 3k+2, 3k+3`, so adjacent segments
//! share their end and start points. A closed spline wraps around, its last
//! segment ending at the first point.
use vstd::prelude::*;

verus! {

/// A cubic Bezier curve with 4 control points.
#[derive(Debug, Clone, Copy)]
pub struct CubicBezier<T> {
    pub p0: T,
    pub p1: T,
    pub p2: T,
    pub p3: T,
}

impl<T> CubicBezier<T> {
    /// Creates a new cubic Bezier curve with the given control points.
    pub fn new(p0: T, p1: T, p2: T, p3: T) -> (r: Self)
        ensures
            r == (CubicBezier { p0, p1, p2, p3 }),
    {
        CubicBezier { p0, p1, p2, p3 }
    }
}

/// A quadratic Bezier curve with 3 control points.
#[derive(Debug, Clone, Copy)]
pub struct QuadraticBezier<T> {
    pub p0: T,
    pub p1: T,
    pub p2: T,
}

impl<T> QuadraticBezier<T> {
    /// Creates a new quadratic Bezier curve with the given control points.
    pub fn new(p0: T, p1: T, p2: T) -> (r: Self)
        ensures
            r == (QuadraticBezier { p0, p1, p2 }),
    {
        QuadraticBezier { p0, p1, p2 }
    }
}

/// The number of control points is valid for a spline: `3n` points (n at
/// least 1) when closed, `3n + 1` points (n at least 1) when open.
pub open spec fn valid_point_count(len: int, closed: bool) -> bool {
    if closed {
        len >= 3 && len % 3 == 0
    } else {
        len >= 4 && (len - 1) % 3 == 0
    }
}

/// The number of segments of a spline with `len` control points.
pub open spec fn segment_count_of(len: int, closed: bool) -> int {
    if closed {
        len / 3
    } else {
        (len - 1) / 3
    }
}

/// The positions of the four control points of segment `k`.
pub open spec fn segment_indices(len: int, closed: bool, k: int) -> (int, int, int, int) {
    if closed {
        let i = (k * 3) % len;
        (i, (i + 1) % len, (i + 2) % len, (i + 3) % len)
    } else {
        (k * 3, k * 3 + 1, k * 3 + 2, k * 3 + 3)
    }
}

/// The four control points of segment `k`.
pub open spec fn segment_points<T>(points: Seq<T>, closed: bool, k: int) -> (T, T, T, T) {
    let (a, b, c, d) = segment_indices(points.len() as int, closed, k);
    (points[a], points[b], points[c], points[d])
}

/// The position `step` places after `i` in a cycle of length `n`.
fn wrap_forward(i: usize, step: usize, n: usize) -> (r: usize)
    requires
        i < n,
        step <= 3,
        3 <= n,
    ensures
        r == (i + step) % (n as int),
{
    if i >= n - step {
        proof {
            vstd::arithmetic::div_mod::lemma_fundamental_div_mod_converse(
                (i + step) as int,
                n as int,
                1,
                (i + step - n) as int,
            );
        }
        i - (n - step)
    } else {
        proof {
            vstd::arithmetic::div_mod::lemma_small_mod((i + step) as nat, n as nat);
        }
        i + step
    }
}

/// A Bezier spline composed of multiple connected cubic Bezier curves.
#[derive(Debug, Clone)]
pub struct BezierSpline<T: Copy> {
    control_points: Vec<T>,
    closed: bool,
}

impl<T: Copy> BezierSpline<T> {
    /// The control points, in specifications.
    pub closed spec fn points(&self) -> Seq<T> {
        self.control_points@
    }

    /// Whether the spline is closed, in specifications.
    pub closed spec fn spec_is_closed(&self) -> bool {
        self.closed
    }

    /// The spline has a valid number of control points.
    pub closed spec fn wf(&self) -> bool {
        valid_point_count(self.control_points@.len() as int, self.closed)
    }

    /// Creates a new Bezier spline from control points.
    ///
    /// For open splines the number of control points must be 3n+1, and for
    /// closed splines 3n, where n >= 1 is the number of segments.
    pub fn new(control_points: Vec<T>, closed: bool) -> (r: Self)
        requires
            valid_point_count(control_points@.len() as int, closed),
        ensures
            r.wf(),
            r.points() == control_points@,
            r.spec_is_closed() == closed,
    {
        BezierSpline { control_points, closed }
    }

    /// Returns the number of segments in the spline.
    pub fn segment_count(&self) -> (r: usize)
        requires
            self.wf(),
        ensures
            r == segment_count_of(self.points().len() as int, self.spec_is_closed()),
            self.spec_is_closed() ==> 3 * r == self.points().len(),
            !self.spec_is_closed() ==> 3 * r + 1 == self.points().len(),
            r >= 1,
            valid_point_count(self.points().len() as int, self.spec_is_closed()),
    {
        if self.closed {
            self.control_points.len() / 3
        } else {
            (self.control_points.len() - 1) / 3
        }
    }

    /// Gets the control points for a specific segment.
    ///
    /// For a closed spline any index is accepted and taken around the
    /// spline; for an open one the index must name a segment.
    pub fn get_segment_control_points(&self, segment_index: usize) -> (r: (T, T, T, T))
        requires
            self.wf(),
            self.spec_is_closed() ==> segment_index * 3 <= usize::MAX,
            !self.spec_is_closed() ==> segment_index < segment_count_of(
                self.points().len() as int,
                self.spec_is_closed(),
            ),
        ensures
            r == segment_points(self.points(), self.spec_is_closed(), segment_index as int),
            !self.spec_is_closed() ==> r == (
                self.points()[3 * segment_index],
                self.points()[3 * segment_index + 1],
                self.points()[3 * segment_index + 2],
                self.points()[3 * segment_index + 3],
            ),
            self.spec_is_closed() ==> {
                let n = self.points().len() as int;
                let i = (3 * segment_index) % n;
                r == (
                    self.points()[i],
                    self.points()[(i + 1) % n],
                    self.points()[(i + 2) % n],
                    self.points()[(i + 3) % n],
                )
            },
    {
        if self.closed {
            let n = self.control_points.len();
            let i = (segment_index * 3) % n;
            (
                self.control_points[i],
                self.control_points[wrap_forward(i, 1, n)],
                self.control_points[wrap_forward(i, 2, n)],
                self.control_points[wrap_forward(i, 3, n)],
            )
        } else {
            let len = self.control_points.len();
            proof {
                assert(segment_index * 3 + 3 < len) by (nonlinear_arith)
                    requires
                        segment_index < (len - 1) / 3,
                        len >= 4,
                ;
            }
            let i = segment_index * 3;
            (
                self.control_points[i],
                self.control_points[i + 1],
                self.control_points[i + 2],
                self.control_points[i + 3],
            )
        }
    }

    /// Returns whether the spline is closed.
    #[verifier::when_used_as_spec(spec_is_closed)]
    pub fn is_closed(&self) -> (r: bool)
        ensures
            r == self.spec_is_closed(),
    {
        self.closed
    }

    /// Returns a reference to the control points.
    pub fn control_points(&self) -> (r: &[T])
        ensures
            r@ == self.points(),
    {
        self.control_points.as_slice()
    }
}

/// Adjacent segments of a spline share a control point: each segment but
/// the last ends where the next one starts, and the last segment of a closed
/// spline ends at the first control point. An open spline's last segment
/// ends at its last control point.
pub proof fn lemma_segments_connect<T: Copy>(spline: BezierSpline<T>, k: int)
    requires
        valid_point_count(spline.points().len() as int, spline.spec_is_closed()),
        0 <= k < segment_count_of(spline.points().len() as int, spline.spec_is_closed()),
    ensures
        k + 1 < segment_count_of(spline.points().len() as int, spline.spec_is_closed())
            ==> segment_points(spline.points(), spline.spec_is_closed(), k).3 == segment_points(
            spline.points(),
            spline.spec_is_closed(),
            k + 1,
        ).0,
        k + 1 == segment_count_of(spline.points().len() as int, spline.spec_is_closed())
            && spline.spec_is_closed() ==> segment_points(
            spline.points(),
            spline.spec_is_closed(),
            k,
        ).3 == spline.points()[0],
        k + 1 == segment_count_of(spline.points().len() as int, spline.spec_is_closed())
            && !spline.spec_is_closed() ==> segment_points(
            spline.points(),
            spline.spec_is_closed(),
            k,
        ).3 == spline.points().last(),
{
    let n = spline.points().len() as int;
    if spline.spec_is_closed() {
        assert((k * 3) % n == k * 3) by {
            vstd::arithmetic::div_mod::lemma_small_mod((k * 3) as nat, n as nat);
        }
        if k + 1 < n / 3 {
            assert(((k + 1) * 3) % n == (k + 1) * 3) by {
                vstd::arithmetic::div_mod::lemma_small_mod(((k + 1) * 3) as nat, n as nat);
            }
            assert((k * 3 + 3) % n == k * 3 + 3) by {
                vstd::arithmetic::div_mod::lemma_small_mod((k * 3 + 3) as nat, n as nat);
            }
        }
        if k + 1 == n / 3 {
            assert(k * 3 + 3 == n);
            assert((k * 3 + 3) % n == 0) by {
                vstd::arithmetic::div_mod::lemma_mod_self_0(n);
            }
        }
    }
}

} // verus!
