//! Drawable shapes: rendering hints and the index structure of their
//! meshes.
//!
//! The vertex positions of the shapes are computed elsewhere; the functions
//! here give the order in which those vertices form triangles and the
//! segments a path is made of.
use vstd::prelude::*;

verus! {

/// Hints for rendering optimization.
#[derive(Clone, Copy, Debug)]
pub struct RenderHints {
    pub can_batch: bool,
    pub needs_alpha_blending: bool,
    pub can_use_shader_transform: bool,
}

impl Default for RenderHints {
    fn default() -> (r: Self)
        ensures
            !r.can_batch,
            !r.needs_alpha_blending,
            !r.can_use_shader_transform,
    {
        RenderHints {
            can_batch: false,
            needs_alpha_blending: false,
            can_use_shader_transform: false,
        }
    }
}

/// The two triangles of a rectangle whose corners are given
/// counter-clockwise from the top-left: (0, 1, 2) and (0, 2, 3).
pub fn rectangle_triangulation() -> (r: Vec<u16>)
    ensures
        r@ == seq![0u16, 1, 2, 0, 2, 3],
{
    let mut r = Vec::new();
    r.push(0);
    r.push(1);
    r.push(2);
    r.push(0);
    r.push(2);
    r.push(3);
    assert(r@ =~= seq![0u16, 1, 2, 0, 2, 3]);
    r
}

/// The twelve triangles of a box whose eight corners are numbered front face
/// first (0 to 3) and back face second (4 to 7): two for each of the front,
/// back, top, bottom, right and left faces.
pub fn box_indices() -> (r: Vec<u32>)
    ensures
        r@ == seq![
            0u32, 1, 2, 0, 2, 3,
            4, 7, 6, 4, 6, 5,
            3, 2, 6, 3, 6, 7,
            0, 4, 5, 0, 5, 1,
            1, 5, 6, 1, 6, 2,
            0, 3, 7, 0, 7, 4,
        ],
{
    let mut r: Vec<u32> = Vec::new();
    let faces: [[u32; 6]; 6] = [
        [0, 1, 2, 0, 2, 3],
        [4, 7, 6, 4, 6, 5],
        [3, 2, 6, 3, 6, 7],
        [0, 4, 5, 0, 5, 1],
        [1, 5, 6, 1, 6, 2],
        [0, 3, 7, 0, 7, 4],
    ];
    let mut f: usize = 0;
    while f < 6
        invariant
            f <= 6,
            faces@.len() == 6,
            forall|a: int| 0 <= a < 6 ==> (#[trigger] faces@[a])@.len() == 6,
            r@.len() == 6 * f,
            forall|a: int, b: int|
                0 <= a < f && 0 <= b < 6 ==> r@[6 * a + b] == faces@[a]@[b],
        decreases 6 - f,
    {
        let face = faces[f];
        let mut c: usize = 0;
        while c < 6
            invariant
                f < 6,
                c <= 6,
                face@.len() == 6,
                face == faces@[f as int],
                faces@.len() == 6,
                r@.len() == 6 * f + c,
                forall|a: int, b: int|
                    0 <= a < f && 0 <= b < 6 ==> r@[6 * a + b] == faces@[a]@[b],
                forall|b: int| 0 <= b < c ==> r@[6 * f + b] == face@[b],
            decreases 6 - c,
        {
            r.push(face[c]);
            c = c + 1;
        }
        f = f + 1;
    }
    assert(r@ =~= seq![
        0u32, 1, 2, 0, 2, 3,
        4, 7, 6, 4, 6, 5,
        3, 2, 6, 3, 6, 7,
        0, 4, 5, 0, 5, 1,
        1, 5, 6, 1, 6, 2,
        0, 3, 7, 0, 7, 4,
    ]) by {
        assert(faces@[0]@ =~= seq![0u32, 1, 2, 0, 2, 3]);
        assert(faces@[1]@ =~= seq![4u32, 7, 6, 4, 6, 5]);
        assert(faces@[2]@ =~= seq![3u32, 2, 6, 3, 6, 7]);
        assert(faces@[3]@ =~= seq![0u32, 4, 5, 0, 5, 1]);
        assert(faces@[4]@ =~= seq![1u32, 5, 6, 1, 6, 2]);
        assert(faces@[5]@ =~= seq![0u32, 3, 7, 0, 7, 4]);
    }
    r
}

/// The position in the index list of corner `t` of the two triangles of
/// the quad in ring `i` and column `j` of a sphere with `s` segments.
pub open spec fn sphere_slot(s: int, i: int, j: int, t: int) -> int {
    6 * (i * (2 * s) + j) + t
}

/// Corner `t` (0 to 5) of the two triangles of the quad in ring `i` and
/// column `j` of a UV sphere with `s` segments, whose vertices are numbered
/// ring by ring with `2s` vertices per ring: the upper triangle is (this
/// ring's column, next ring's column, next ring's next column) and the lower
/// one (this ring's column, next ring's next column, this ring's next
/// column), the next column wrapping around the ring.
pub open spec fn sphere_corner(s: int, i: int, j: int, t: int) -> int {
    let w = 2 * s;
    let nj = (j + 1) % w;
    let cur = i * w;
    let next = (i + 1) * w;
    if t == 0 {
        cur + j
    } else if t == 1 {
        next + j
    } else if t == 2 {
        next + nj
    } else if t == 3 {
        cur + j
    } else if t == 4 {
        next + nj
    } else {
        cur + nj
    }
}

proof fn lemma_sphere_slot_order(s: int, i: int, j: int, t: int, i2: int, j2: int)
    requires
        0 <= i < s,
        0 <= j < 2 * s,
        0 <= t < 6,
        0 <= i2 <= s,
        0 <= j2 <= 2 * s,
        i < i2 || (i == i2 && j < j2),
    ensures
        sphere_slot(s, i, j, t) < 6 * (i2 * (2 * s) + j2),
{
    assert(i * (2 * s) + j + 1 <= i2 * (2 * s) + j2) by (nonlinear_arith)
        requires
            0 <= j < 2 * s,
            0 <= j2,
            i < i2 || (i == i2 && j < j2),
    ;
}

/// Every index of a sphere's triangles names one of its `(s + 1) * 2s`
/// vertices.
pub proof fn lemma_sphere_corner_in_range(s: int, i: int, j: int, t: int)
    requires
        0 <= i < s,
        0 <= j < 2 * s,
        0 <= t < 6,
    ensures
        0 <= sphere_corner(s, i, j, t) < (s + 1) * (2 * s),
{
    let w = 2 * s;
    assert(0 <= (j + 1) % w < w) by {
        vstd::arithmetic::div_mod::lemma_mod_bound(j + 1, w);
    }
    assert(0 <= i * w && (i + 2) * w <= (s + 1) * w) by (nonlinear_arith)
        requires
            0 <= i < s,
            w > 0,
    ;
    assert((i + 1) * w == i * w + w && (i + 2) * w == i * w + 2 * w) by (nonlinear_arith);
}

/// A list laid out as a sphere's index list (each slot holding its corner)
/// names only the sphere's `(s + 1) * 2s` vertices, and makes whole
/// triangles.
pub proof fn lemma_sphere_indices_in_range(s: int, indices: Seq<u32>)
    requires
        s >= 0,
        indices.len() == 6 * s * (2 * s),
        forall|i: int, j: int, t: int|
            0 <= i < s && 0 <= j < 2 * s && 0 <= t < 6 ==> #[trigger] indices[sphere_slot(
                s,
                i,
                j,
                t,
            )] == sphere_corner(s, i, j, t),
    ensures
        indices.len() % 3 == 0,
        forall|k: int| 0 <= k < indices.len() ==> (#[trigger] indices[k]) < (s + 1) * (2 * s),
{
    assert(indices.len() == 3 * (4 * s * s)) by (nonlinear_arith)
        requires
            indices.len() == 6 * s * (2 * s),
    ;
    vstd::arithmetic::div_mod::lemma_mod_multiples_basic(4 * s * s, 3);
    assert forall|k: int| 0 <= k < indices.len() implies (#[trigger] indices[k]) < (s + 1) * (2
        * s) by {
        let w = 2 * s;
        assert(s >= 1) by (nonlinear_arith)
            requires
                0 <= k < 6 * s * (2 * s),
                s >= 0,
        ;
        let q = k / 6;
        let t = k % 6;
        vstd::arithmetic::div_mod::lemma_fundamental_div_mod(k, 6);
        vstd::arithmetic::div_mod::lemma_mod_bound(k, 6);
        let i = q / w;
        let j = q % w;
        vstd::arithmetic::div_mod::lemma_fundamental_div_mod(q, w);
        vstd::arithmetic::div_mod::lemma_mod_bound(q, w);
        assert(0 <= q < s * w) by (nonlinear_arith)
            requires
                k == 6 * q + t,
                0 <= t < 6,
                0 <= k < 6 * s * (2 * s),
                w == 2 * s,
        ;
        assert(0 <= i < s) by (nonlinear_arith)
            requires
                q == w * i + j,
                0 <= j < w,
                0 <= q < s * w,
                w > 0,
        ;
        assert(k == sphere_slot(s, i, j, t)) by (nonlinear_arith)
            requires
                k == 6 * q + t,
                q == w * i + j,
                w == 2 * s,
        ;
        lemma_sphere_corner_in_range(s, i, j, t);
    }
}

/// In a list laid out as a sphere's index list, the six entries of the quad
/// in ring `i` and column `j` are, in terms of the ring width `w = 2s`: the
/// upper triangle (this ring's column, next ring's column, next ring's next
/// column) and the lower triangle (this ring's column, next ring's next
/// column, this ring's next column), the next column wrapping to 0.
pub proof fn lemma_sphere_quad_entries(s: int, indices: Seq<u32>)
    requires
        s >= 0,
        forall|i: int, j: int, t: int|
            0 <= i < s && 0 <= j < 2 * s && 0 <= t < 6 ==> #[trigger] indices[sphere_slot(
                s,
                i,
                j,
                t,
            )] == sphere_corner(s, i, j, t),
    ensures
        forall|i: int, j: int|
            0 <= i < s && 0 <= j < 2 * s ==> {
                let w = 2 * s;
                let nj = if j + 1 == w { 0 } else { j + 1 };
                &&& #[trigger] indices[sphere_slot(s, i, j, 0)] == i * w + j
                &&& indices[sphere_slot(s, i, j, 1)] == (i + 1) * w + j
                &&& indices[sphere_slot(s, i, j, 2)] == (i + 1) * w + nj
                &&& indices[sphere_slot(s, i, j, 3)] == i * w + j
                &&& indices[sphere_slot(s, i, j, 4)] == (i + 1) * w + nj
                &&& indices[sphere_slot(s, i, j, 5)] == i * w + nj
            },
{
    assert forall|i: int, j: int| 0 <= i < s && 0 <= j < 2 * s implies {
        let w = 2 * s;
        let nj = if j + 1 == w { 0 } else { j + 1 };
        &&& #[trigger] indices[sphere_slot(s, i, j, 0)] == i * w + j
        &&& indices[sphere_slot(s, i, j, 1)] == (i + 1) * w + j
        &&& indices[sphere_slot(s, i, j, 2)] == (i + 1) * w + nj
        &&& indices[sphere_slot(s, i, j, 3)] == i * w + j
        &&& indices[sphere_slot(s, i, j, 4)] == (i + 1) * w + nj
        &&& indices[sphere_slot(s, i, j, 5)] == i * w + nj
    } by {
        let w = 2 * s;
        if j + 1 == w {
            vstd::arithmetic::div_mod::lemma_mod_self_0(w);
        } else {
            vstd::arithmetic::div_mod::lemma_small_mod((j + 1) as nat, w as nat);
        }
        assert(indices[sphere_slot(s, i, j, 0)] == sphere_corner(s, i, j, 0));
        assert(indices[sphere_slot(s, i, j, 1)] == sphere_corner(s, i, j, 1));
        assert(indices[sphere_slot(s, i, j, 2)] == sphere_corner(s, i, j, 2));
        assert(indices[sphere_slot(s, i, j, 3)] == sphere_corner(s, i, j, 3));
        assert(indices[sphere_slot(s, i, j, 4)] == sphere_corner(s, i, j, 4));
        assert(indices[sphere_slot(s, i, j, 5)] == sphere_corner(s, i, j, 5));
    }
}

/// The triangle indices of a UV sphere with `segments` segments: two
/// triangles for each quad, ring by ring and column by column (see
/// [`sphere_corner`]).
pub fn sphere_indices(segments: u32) -> (r: Vec<u32>)
    requires
        2 * segments * (segments + 1) <= 0x1_0000_0000,
    ensures
        r@.len() == 6 * segments * (2 * segments),
        forall|i: int, j: int, t: int|
            0 <= i < segments && 0 <= j < 2 * segments && 0 <= t < 6 ==> #[trigger] r@[sphere_slot(
                segments as int,
                i,
                j,
                t,
            )] == sphere_corner(segments as int, i, j, t),
        r@.len() % 3 == 0,
        forall|k: int|
            0 <= k < r@.len() ==> (#[trigger] r@[k]) < (segments + 1) * (2 * segments),
        forall|i: int, j: int|
            0 <= i < segments && 0 <= j < 2 * segments ==> {
                let w = 2 * segments as int;
                let nj = if j + 1 == w { 0 } else { j + 1 };
                &&& #[trigger] r@[sphere_slot(segments as int, i, j, 0)] == i * w + j
                &&& r@[sphere_slot(segments as int, i, j, 1)] == (i + 1) * w + j
                &&& r@[sphere_slot(segments as int, i, j, 2)] == (i + 1) * w + nj
                &&& r@[sphere_slot(segments as int, i, j, 3)] == i * w + j
                &&& r@[sphere_slot(segments as int, i, j, 4)] == (i + 1) * w + nj
                &&& r@[sphere_slot(segments as int, i, j, 5)] == i * w + nj
            },
{
    let ghost s = segments as int;
    let mut indices: Vec<u32> = Vec::new();
    if segments == 0 {
        return indices;
    }
    proof {
        assert(4 * s <= 2 * s * (s + 1)) by (nonlinear_arith)
            requires
                s >= 1,
        ;
    }
    let w = segments * 2;
    let mut i: u32 = 0;
    while i < segments
        invariant
            s == segments,
            s >= 1,
            w == 2 * s,
            2 * s * (s + 1) <= 0x1_0000_0000,
            i <= segments,
            indices@.len() == 6 * (i * w),
            forall|a: int, b: int, t: int|
                0 <= a < i && 0 <= b < w && 0 <= t < 6 ==> #[trigger] indices@[sphere_slot(
                    s,
                    a,
                    b,
                    t,
                )] == sphere_corner(s, a, b, t),
        decreases segments - i,
    {
        proof {
            assert(i * w + w == (i + 1) * w && (i + 1) * w <= s * w && s * w <= 2 * s * (s + 1)
                - w) by (nonlinear_arith)
                requires
                    i < s,
                    w == 2 * s,
                    s >= 1,
            ;
        }
        let current_row = i * w;
        let next_row = (i + 1) * w;
        let mut j: u32 = 0;
        while j < w
            invariant
                s == segments,
                s >= 1,
                w == 2 * s,
                2 * s * (s + 1) <= 0x1_0000_0000,
                i < segments,
                current_row == i * w,
                next_row == (i + 1) * w,
                current_row + w == next_row,
                next_row + w <= 0x1_0000_0000,
                j <= w,
                indices@.len() == 6 * (i * w + j),
                forall|a: int, b: int, t: int|
                    (0 <= a < i && 0 <= b < w || a == i && 0 <= b < j) && 0 <= t < 6
                        ==> #[trigger] indices@[sphere_slot(s, a, b, t)] == sphere_corner(
                        s,
                        a,
                        b,
                        t,
                    ),
            decreases w - j,
        {
            let next_j = (j + 1) % w;
            let ghost before = indices@;
            indices.push(current_row + j);
            indices.push(next_row + j);
            indices.push(next_row + next_j);
            indices.push(current_row + j);
            indices.push(next_row + next_j);
            indices.push(current_row + next_j);
            proof {
                assert forall|a: int, b: int, t: int|
                    (0 <= a < i && 0 <= b < w || a == i && 0 <= b < j + 1) && 0 <= t < 6
                        implies #[trigger] indices@[sphere_slot(s, a, b, t)] == sphere_corner(
                        s,
                        a,
                        b,
                        t,
                    ) by {
                    if a == i && b == j {
                        assert(sphere_slot(s, a, b, t) == before.len() + t);
                    } else {
                        lemma_sphere_slot_order(s, a, b, t, i as int, j as int);
                        assert(indices@[sphere_slot(s, a, b, t)] == before[sphere_slot(
                            s,
                            a,
                            b,
                            t,
                        )]);
                    }
                }
            }
            j = j + 1;
        }
        proof {
            assert(i * w + w == (i + 1) * w) by (nonlinear_arith);
        }
        i = i + 1;
    }
    proof {
        assert(6 * (s * w) == 6 * s * (2 * s)) by (nonlinear_arith)
            requires
                w == 2 * s,
        ;
        lemma_sphere_indices_in_range(s, indices@);
        lemma_sphere_quad_entries(segments as int, indices@);
        assert(forall|i: int, j: int|
            0 <= i < segments && 0 <= j < 2 * segments ==> {
                let w = 2 * segments as int;
                let nj = if j + 1 == w { 0 } else { j + 1 };
                #[trigger] indices@[sphere_slot(segments as int, i, j, 0)] == i * w + j
            });
    }
    indices
}

/// The segments of a path through `points`: from each point to the next,
/// and, for a closed path of at least three points, from the last point
/// back to the first. A path of fewer than two points has no segments.
pub open spec fn path_segment_count(n: int, closed: bool) -> int {
    if n < 2 {
        0
    } else if closed && n >= 3 {
        n
    } else {
        n - 1
    }
}

/// The endpoints of segment `k` of a path through `points`.
pub open spec fn path_segment<T>(points: Seq<T>, k: int) -> (T, T) {
    if k + 1 < points.len() {
        (points[k], points[k + 1])
    } else {
        (points.last(), points[0])
    }
}

/// Get the line segments that make up a path, as pairs of endpoints.
pub fn path_segments<T: Copy>(points: &Vec<T>, closed: bool) -> (r: Vec<(T, T)>)
    ensures
        r@.len() == path_segment_count(points@.len() as int, closed),
        forall|k: int| 0 <= k < r@.len() ==> #[trigger] r@[k] == path_segment(points@, k),
        points@.len() < 2 ==> r@.len() == 0,
        points@.len() >= 2 && !(closed && points@.len() >= 3) ==> r@.len() == points@.len() - 1,
        closed && points@.len() >= 3 ==> r@.len() == points@.len() && r@[points@.len() - 1] == (
            points@[points@.len() - 1],
            points@[0],
        ),
        forall|k: int|
            0 <= k < points@.len() - 1 ==> #[trigger] r@[k] == (points@[k], points@[k + 1]),
{
    let n = points.len();
    let mut segments: Vec<(T, T)> = Vec::new();
    if n < 2 {
        return segments;
    }
    let mut i: usize = 0;
    while i < n - 1
        invariant
            n == points@.len(),
            n >= 2,
            i <= n - 1,
            segments@.len() == i,
            forall|k: int| 0 <= k < i ==> #[trigger] segments@[k] == path_segment(points@, k),
        decreases n - 1 - i,
    {
        segments.push((points[i], points[i + 1]));
        i = i + 1;
    }
    if closed && n >= 3 {
        segments.push((points[n - 1], points[0]));
    }
    segments
}

/// Triangle `t` of an index list: the vertex positions at `3t`, `3t + 1`
/// and `3t + 2`.
pub open spec fn triangle_at(indices: Seq<u32>, t: int) -> (usize, usize, usize) {
    (indices[3 * t] as usize, indices[3 * t + 1] as usize, indices[3 * t + 2] as usize)
}

/// All three corners of triangle `t` name one of `vertex_count` vertices.
pub open spec fn triangle_in_range(indices: Seq<u32>, t: int, vertex_count: int) -> bool {
    &&& indices[3 * t] < vertex_count
    &&& indices[3 * t + 1] < vertex_count
    &&& indices[3 * t + 2] < vertex_count
}

/// The triangles among the first `count` triangles of an index list whose
/// corners all name existing vertices, in order.
pub open spec fn usable_triangles(indices: Seq<u32>, count: int, vertex_count: int) -> Seq<
    (usize, usize, usize),
>
    decreases count,
{
    if count <= 0 {
        Seq::empty()
    } else {
        let before = usable_triangles(indices, count - 1, vertex_count);
        if triangle_in_range(indices, count - 1, vertex_count) {
            before.push(triangle_at(indices, count - 1))
        } else {
            before
        }
    }
}

/// The triangles of a mesh that contribute to its vertex normals: every
/// complete triple of the index list (a trailing incomplete triple is
/// ignored) whose three indices name existing vertices, in order.
pub fn mesh_triangles(indices: &Vec<u32>, vertex_count: usize) -> (r: Vec<(usize, usize, usize)>)
    ensures
        r@ == usable_triangles(indices@, (indices@.len() / 3) as int, vertex_count as int),
        forall|t: int|
            0 <= t < indices@.len() / 3 && indices@[3 * t] < vertex_count && indices@[3 * t + 1]
                < vertex_count && indices@[3 * t + 2] < vertex_count ==> #[trigger] has_triangle(
                r@,
                triangle_at(indices@, t),
            ),
        forall|k: int|
            0 <= k < r@.len() ==> #[trigger] kept_triangle(
                indices@,
                (indices@.len() / 3) as int,
                vertex_count as int,
                r@[k],
            ),
        forall|k1: int, k2: int|
            0 <= k1 < k2 < r@.len() ==> #[trigger] from_earlier_and_later(
                indices@,
                (indices@.len() / 3) as int,
                r@[k1],
                r@[k2],
            ),
{
    let mut triangles: Vec<(usize, usize, usize)> = Vec::new();
    let n = indices.len() / 3;
    let mut t: usize = 0;
    while t < n
        invariant
            n == (indices@.len() / 3) as int,
            t <= n,
            triangles@ == usable_triangles(indices@, t as int, vertex_count as int),
        decreases n - t,
    {
        let len = indices.len();
        proof {
            assert(3 * t + 2 < len) by (nonlinear_arith)
                requires
                    t < len / 3,
            ;
        }
        let i = 3 * t;
        let a = indices[i] as usize;
        let b = indices[i + 1] as usize;
        let c = indices[i + 2] as usize;
        if a < vertex_count && b < vertex_count && c < vertex_count {
            triangles.push((a, b, c));
        }
        t = t + 1;
    }
    proof {
        let n = (indices@.len() / 3) as int;
        assert(3 * n <= indices@.len()) by (nonlinear_arith)
            requires
                n == indices@.len() / 3,
        ;
        lemma_usable_triangles_complete(indices@, n, vertex_count as int);
        lemma_usable_triangles_sound(indices@, n, vertex_count as int);
        lemma_usable_triangles_ordered(indices@, n, vertex_count as int);
    }
    triangles
}

/// Some entry of `triangles` is `tri`.
pub open spec fn has_triangle(triangles: Seq<(usize, usize, usize)>, tri: (usize, usize, usize)) -> bool {
    exists|k: int| 0 <= k < triangles.len() && triangles[k] == tri
}

/// `tri` is one of the first `count` triangles of the list whose three
/// corners all name one of `vertex_count` vertices.
pub open spec fn kept_triangle(
    indices: Seq<u32>,
    count: int,
    vertex_count: int,
    tri: (usize, usize, usize),
) -> bool {
    exists|t: int|
        0 <= t < count && indices[3 * t] < vertex_count && indices[3 * t + 1] < vertex_count
            && indices[3 * t + 2] < vertex_count && tri == triangle_at(indices, t)
}

/// `first` is triangle `t1` and `second` triangle `t2` of the list, for some
/// `t1 < t2` among the first `count`.
pub open spec fn from_earlier_and_later(
    indices: Seq<u32>,
    count: int,
    first: (usize, usize, usize),
    second: (usize, usize, usize),
) -> bool {
    exists|t1: int, t2: int|
        0 <= t1 < t2 < count && first == triangle_at(indices, t1) && second == triangle_at(
            indices,
            t2,
        )
}

/// Every triangle among the first `count` whose corners all name existing
/// vertices is kept. (`triangle_at(indices, t)` is the triple of entries
/// `3t`, `3t + 1`, `3t + 2`.)
pub proof fn lemma_usable_triangles_complete(indices: Seq<u32>, count: int, vertex_count: int)
    requires
        0 <= count,
        3 * count <= indices.len(),
    ensures
        forall|t: int|
            0 <= t < count && indices[3 * t] < vertex_count && indices[3 * t + 1] < vertex_count
                && indices[3 * t + 2] < vertex_count ==> #[trigger] has_triangle(
                usable_triangles(indices, count, vertex_count),
                triangle_at(indices, t),
            ),
    decreases count,
{
    if count > 0 {
        let r = usable_triangles(indices, count, vertex_count);
        let before = usable_triangles(indices, count - 1, vertex_count);
        lemma_usable_triangles_complete(indices, count - 1, vertex_count);
        let last = count - 1;
        assert forall|t: int|
            0 <= t < count && indices[3 * t] < vertex_count && indices[3 * t + 1] < vertex_count
                && indices[3 * t + 2] < vertex_count implies #[trigger] has_triangle(
                r,
                triangle_at(indices, t),
            ) by {
            if t == last {
                assert(r == before.push(triangle_at(indices, last)));
                assert(r[r.len() - 1] == triangle_at(indices, t));
            } else {
                assert(has_triangle(before, triangle_at(indices, t)));
                let k = choose|k: int| 0 <= k < before.len() && before[k] == triangle_at(indices, t);
                if triangle_in_range(indices, last, vertex_count) {
                    assert(r == before.push(triangle_at(indices, last)));
                } else {
                    assert(r == before);
                }
                assert(r[k] == before[k]);
            }
        }
    }
}

/// Only triangles whose corners all name existing vertices are kept, each
/// one of the first `count` triangles of the list.
pub proof fn lemma_usable_triangles_sound(indices: Seq<u32>, count: int, vertex_count: int)
    ensures
        forall|k: int|
            0 <= k < usable_triangles(indices, count, vertex_count).len() ==> #[trigger] kept_triangle(
                indices,
                count,
                vertex_count,
                usable_triangles(indices, count, vertex_count)[k],
            ),
    decreases count,
{
    if count > 0 {
        let r = usable_triangles(indices, count, vertex_count);
        let before = usable_triangles(indices, count - 1, vertex_count);
        lemma_usable_triangles_sound(indices, count - 1, vertex_count);
        let last = count - 1;
        if triangle_in_range(indices, last, vertex_count) {
            assert(r == before.push(triangle_at(indices, last)));
        } else {
            assert(r == before);
        }
        assert forall|k: int| 0 <= k < r.len() implies #[trigger] kept_triangle(
            indices,
            count,
            vertex_count,
            r[k],
        ) by {
            if k < before.len() {
                assert(r[k] == before[k]);
                assert(kept_triangle(indices, count - 1, vertex_count, before[k]));
                let t = choose|t: int|
                    0 <= t < count - 1 && indices[3 * t] < vertex_count && indices[3 * t + 1]
                        < vertex_count && indices[3 * t + 2] < vertex_count && before[k]
                        == triangle_at(indices, t);
                assert(r[k] == triangle_at(indices, t));
            } else {
                assert(r[k] == triangle_at(indices, last));
            }
        }
    }
}

/// The kept triangles come in the order of the index list.
pub proof fn lemma_usable_triangles_ordered(indices: Seq<u32>, count: int, vertex_count: int)
    ensures
        forall|k1: int, k2: int|
            0 <= k1 < k2 < usable_triangles(indices, count, vertex_count).len()
                ==> #[trigger] from_earlier_and_later(
                indices,
                count,
                usable_triangles(indices, count, vertex_count)[k1],
                usable_triangles(indices, count, vertex_count)[k2],
            ),
    decreases count,
{
    if count > 0 {
        let r = usable_triangles(indices, count, vertex_count);
        let before = usable_triangles(indices, count - 1, vertex_count);
        lemma_usable_triangles_ordered(indices, count - 1, vertex_count);
        lemma_usable_triangles_sound(indices, count - 1, vertex_count);
        let last = count - 1;
        if triangle_in_range(indices, last, vertex_count) {
            assert(r == before.push(triangle_at(indices, last)));
        } else {
            assert(r == before);
        }
        assert forall|k1: int, k2: int| 0 <= k1 < k2 < r.len() implies #[trigger] from_earlier_and_later(
            indices,
            count,
            r[k1],
            r[k2],
        ) by {
            assert(r[k1] == before[k1]);
            if k2 < before.len() {
                assert(r[k2] == before[k2]);
                assert(from_earlier_and_later(indices, count - 1, before[k1], before[k2]));
                let (t1, t2) = choose|t1: int, t2: int|
                    0 <= t1 < t2 < count - 1 && before[k1] == triangle_at(indices, t1)
                        && before[k2] == triangle_at(indices, t2);
                assert(r[k1] == triangle_at(indices, t1) && r[k2] == triangle_at(indices, t2));
            } else {
                assert(kept_triangle(indices, count - 1, vertex_count, before[k1]));
                let t1 = choose|t: int|
                    0 <= t < count - 1 && indices[3 * t] < vertex_count && indices[3 * t + 1]
                        < vertex_count && indices[3 * t + 2] < vertex_count && before[k1]
                        == triangle_at(indices, t);
                assert(r[k2] == triangle_at(indices, last));
                assert(r[k1] == triangle_at(indices, t1) && r[k2] == triangle_at(indices, last));
            }
        }
    }
}

/// Every triangle that contributes to the normals names existing vertices.
pub proof fn lemma_usable_triangles_in_range(indices: Seq<u32>, count: int, vertex_count: int, k: int)
    requires
        0 <= k < usable_triangles(indices, count, vertex_count).len(),
    ensures
        usable_triangles(indices, count, vertex_count)[k].0 < vertex_count,
        usable_triangles(indices, count, vertex_count)[k].1 < vertex_count,
        usable_triangles(indices, count, vertex_count)[k].2 < vertex_count,
    decreases count,
{
    if count > 0 {
        let before = usable_triangles(indices, count - 1, vertex_count);
        if k < before.len() {
            lemma_usable_triangles_in_range(indices, count - 1, vertex_count, k);
        }
    }
}

} // verus!
