//! Rotation, uniform zoom and orthographic projection of a surface.
//!
//! The screen plane is spanned by the rotated `x` axis (horizontal) and the
//! rotated `z` axis (vertical); the rotated `y` axis is dropped.

use vstd::prelude::*;
use crate::UNITS_PER_ONE;
use crate::color::Color;
use crate::mesh::{Point3, Surface, Vertex3D};

verus! {

/// A 3x3 matrix whose entries are fixed-point numbers with
/// [`UNITS_PER_ONE`] standing for one; `xy` is the entry of row `x`, column `y`.
#[derive(Clone, Copy, Debug, PartialEq, Eq, Structural)]
pub struct Matrix3 {
    pub xx: i64,
    pub xy: i64,
    pub xz: i64,
    pub yx: i64,
    pub yy: i64,
    pub yz: i64,
    pub zx: i64,
    pub zy: i64,
    pub zz: i64,
}

/// A projected point, in the same fixed-point units as the mesh positions.
#[derive(Clone, Copy, Debug, PartialEq, Eq, Structural)]
pub struct Point2 {
    pub x: i128,
    pub y: i128,
}

impl Point2 {
    pub open spec fn xy(self) -> (int, int) {
        (self.x as int, self.y as int)
    }
}

pub open spec fn within_one(e: i64) -> bool {
    -UNITS_PER_ONE <= e <= UNITS_PER_ONE
}

impl Matrix3 {
    /// Every entry lies in `[-1, 1]`, as in any rotation matrix.
    pub open spec fn is_bounded(self) -> bool {
        &&& within_one(self.xx) &&& within_one(self.xy) &&& within_one(self.xz)
        &&& within_one(self.yx) &&& within_one(self.yy) &&& within_one(self.yz)
        &&& within_one(self.zx) &&& within_one(self.zy) &&& within_one(self.zz)
    }
}

/// `a / b` truncated toward zero (for `b > 0`).
pub open spec fn trunc_div(a: int, b: int) -> int {
    if a >= 0 {
        a / b
    } else {
        -((-a) / b)
    }
}

/// One coordinate of `row · p · zoom`, scaled back to position units.
pub open spec fn scaled_dot(a: int, b: int, c: int, p: Point3, zoom: int) -> int {
    trunc_div(
        (a * p.x + b * p.y + c * p.z) * zoom,
        UNITS_PER_ONE as int * UNITS_PER_ONE as int,
    )
}

/// Screen position of `p`: the `x` and `z` coordinates of `m · p · zoom`.
pub open spec fn projected(m: Matrix3, p: Point3, zoom: int) -> (int, int) {
    (scaled_dot(m.xx as int, m.xy as int, m.xz as int, p, zoom),
     scaled_dot(m.zx as int, m.zy as int, m.zz as int, p, zoom))
}

/// Bounds on `a x + b y + c z` and on its product with `zoom`, for entries
/// within one and any `i64` coordinates.
proof fn lemma_dot_bound(a: i64, b: i64, c: i64, p: Point3, zoom: u32)
    requires
        within_one(a),
        within_one(b),
        within_one(c),
    ensures
        -0x1000_0000_0000_0000_0000_0000 < a * p.x < 0x1000_0000_0000_0000_0000_0000,
        -0x1000_0000_0000_0000_0000_0000 < b * p.y < 0x1000_0000_0000_0000_0000_0000,
        -0x1000_0000_0000_0000_0000_0000 < c * p.z < 0x1000_0000_0000_0000_0000_0000,
        -0x4000_0000_0000_0000_0000_0000_0000_0000 < (a * p.x + b * p.y + c * p.z) * zoom
            < 0x4000_0000_0000_0000_0000_0000_0000_0000,
{
    let bound: int = 1_000_000int * 0x8000_0000_0000_0000int;
    assert(-bound <= a * p.x <= bound) by (nonlinear_arith)
        requires -1_000_000 <= a <= 1_000_000, -0x8000_0000_0000_0000 <= p.x < 0x8000_0000_0000_0000,
            bound == 1_000_000 * 0x8000_0000_0000_0000;
    assert(-bound <= b * p.y <= bound) by (nonlinear_arith)
        requires -1_000_000 <= b <= 1_000_000, -0x8000_0000_0000_0000 <= p.y < 0x8000_0000_0000_0000,
            bound == 1_000_000 * 0x8000_0000_0000_0000;
    assert(-bound <= c * p.z <= bound) by (nonlinear_arith)
        requires -1_000_000 <= c <= 1_000_000, -0x8000_0000_0000_0000 <= p.z < 0x8000_0000_0000_0000,
            bound == 1_000_000 * 0x8000_0000_0000_0000;
    let d = a * p.x + b * p.y + c * p.z;
    assert(-3 * bound * 0x1_0000_0000 <= d * zoom <= 3 * bound * 0x1_0000_0000) by (nonlinear_arith)
        requires -3 * bound <= d <= 3 * bound, 0 <= zoom < 0x1_0000_0000, bound > 0;
}

/// One coordinate of `row · p · zoom` in position units.
fn scaled_dot_exec(a: i64, b: i64, c: i64, p: Point3, zoom: u32) -> (r: i128)
    requires
        within_one(a),
        within_one(b),
        within_one(c),
    ensures
        r == scaled_dot(a as int, b as int, c as int, p, zoom as int),
{
    proof {
        lemma_dot_bound(a, b, c, p, zoom);
    }
    let dot: i128 = a as i128 * p.x as i128 + b as i128 * p.y as i128 + c as i128 * p.z as i128;
    let v: i128 = dot * zoom as i128;
    assert(UNITS_PER_ONE as int * UNITS_PER_ONE as int == 1_000_000_000_000) by (nonlinear_arith)
        requires
            UNITS_PER_ONE == 1_000_000,
    ;
    let s: i128 = UNITS_PER_ONE as i128 * UNITS_PER_ONE as i128;
    if v >= 0 {
        v / s
    } else {
        -((-v) / s)
    }
}

/// Screen position of `p` after rotation by `m` and scaling by `zoom`
/// (both in fixed point): the rotated `x` and `z` coordinates.
pub fn project_vertex(m: &Matrix3, p: &Point3, zoom: u32) -> (q: Point2)
    requires
        m.is_bounded(),
    ensures
        q.xy() == projected(*m, *p, zoom as int),
{
    Point2 {
        x: scaled_dot_exec(m.xx, m.xy, m.xz, *p, zoom),
        y: scaled_dot_exec(m.zx, m.zy, m.zz, *p, zoom),
    }
}

/// The origin is projected onto the origin, whatever the rotation and zoom.
pub proof fn lemma_origin_projects_to_origin(m: Matrix3, zoom: int)
    ensures
        projected(m, Point3 { x: 0, y: 0, z: 0 }, zoom) == (0int, 0int),
{
    let o = Point3 { x: 0, y: 0, z: 0 };
    assert(m.xx * o.x + m.xy * o.y + m.xz * o.z == 0);
    assert(m.zx * o.x + m.zy * o.y + m.zz * o.z == 0);
    assert(0 * zoom == 0);
    assert(0int / (UNITS_PER_ONE as int * UNITS_PER_ONE as int) == 0);
}

impl Surface {
    /// Projects every vertex, row by row, with the colours alongside.
    pub fn project_points(&self, rotation: &Matrix3, zoom: u32) -> (r: (Vec<Point2>, Vec<Color>))
        requires
            rotation.is_bounded(),
        ensures
            r.0.len() == self.vertices.len(),
            r.1.len() == self.vertices.len(),
            forall|k: int|
                0 <= k < self.vertices.len() ==> (#[trigger] r.0@[k]).xy() == projected(
                    *rotation,
                    self.vertices@[k].position,
                    zoom as int,
                ) && r.1@[k] == self.vertices@[k].color,
    {
        let mut positions: Vec<Point2> = Vec::new();
        let mut colors: Vec<Color> = Vec::new();
        let mut k: usize = 0;
        while k < self.vertices.len()
            invariant
                rotation.is_bounded(),
                0 <= k <= self.vertices.len(),
                positions.len() == k,
                colors.len() == k,
                forall|m: int|
                    0 <= m < k ==> (#[trigger] positions@[m]).xy() == projected(
                        *rotation,
                        self.vertices@[m].position,
                        zoom as int,
                    ) && colors@[m] == self.vertices@[m].color,
            decreases self.vertices.len() - k,
        {
            let v: Vertex3D = self.vertices[k];
            positions.push(project_vertex(rotation, &v.position, zoom));
            colors.push(v.color);
            k += 1;
        }
        (positions, colors)
    }

    /// The wireframe: one polyline per grid row `i` (through vertices
    /// `(i, 0)` to `(i, resolution)`), then one per grid column `j`
    /// (through vertices `(0, j)` to `(resolution, j)`), each of projected
    /// points.
    pub fn get_wireframe_lines(&self, rotation: &Matrix3, zoom: u32) -> (lines: Vec<Vec<Point2>>)
        requires
            self.wf(),
            rotation.is_bounded(),
        ensures
            lines.len() == 2 * self.side(),
            forall|i: int|
                0 <= i < self.side() ==> (#[trigger] lines@[i]).len() == self.side(),
            forall|j: int|
                0 <= j < self.side() ==> (#[trigger] lines@[self.side() + j]).len() == self.side(),
            forall|i: int, j: int|
                0 <= i < self.side() && 0 <= j < self.side() ==> (#[trigger] lines@[i]@[j]).xy()
                    == projected(*rotation, self.vertices@[i * self.side() + j].position, zoom as int),
            forall|i: int, j: int|
                0 <= i < self.side() && 0 <= j < self.side() ==> (
                #[trigger] lines@[self.side() + j]@[i]).xy() == projected(
                    *rotation,
                    self.vertices@[i * self.side() + j].position,
                    zoom as int,
                ),
    {
        proof {
            assert(self.resolution + 1 <= self.side() * self.side()) by (nonlinear_arith)
                requires
                    self.side() >= 2,
            ;
        }
        let n: usize = self.resolution + 1;
        let mut lines: Vec<Vec<Point2>> = Vec::new();
        let mut i: usize = 0;
        while i < n
            invariant
                self.wf(),
                rotation.is_bounded(),
                n == self.side(),
                0 <= i <= n,
                lines.len() == i,
                forall|a: int| 0 <= a < i ==> (#[trigger] lines@[a]).len() == n,
                forall|a: int, b: int|
                    0 <= a < i && 0 <= b < n ==> (#[trigger] lines@[a]@[b]).xy() == projected(
                        *rotation,
                        self.vertices@[a * n + b].position,
                        zoom as int,
                    ),
            decreases n - i,
        {
            let mut line: Vec<Point2> = Vec::new();
            let mut j: usize = 0;
            while j < n
                invariant
                    self.wf(),
                    rotation.is_bounded(),
                    n == self.side(),
                    0 <= i < n,
                    0 <= j <= n,
                    line.len() == j,
                    forall|b: int|
                        0 <= b < j ==> (#[trigger] line@[b]).xy() == projected(
                            *rotation,
                            self.vertices@[i * n + b].position,
                            zoom as int,
                        ),
                decreases n - j,
            {
                assert(i * n + j < n * n) by (nonlinear_arith)
                    requires
                        i < n,
                        j < n,
                ;
                let v: Vertex3D = self.vertices[i * n + j];
                line.push(project_vertex(rotation, &v.position, zoom));
                j += 1;
            }
            lines.push(line);
            i += 1;
        }
        let mut j: usize = 0;
        while j < n
            invariant
                self.wf(),
                rotation.is_bounded(),
                n == self.side(),
                0 <= j <= n,
                lines.len() == n + j,
                forall|a: int| 0 <= a < n ==> (#[trigger] lines@[a]).len() == n,
                forall|b: int| 0 <= b < j ==> (#[trigger] lines@[n + b]).len() == n,
                forall|a: int, b: int|
                    0 <= a < n && 0 <= b < n ==> (#[trigger] lines@[a]@[b]).xy() == projected(
                        *rotation,
                        self.vertices@[a * n + b].position,
                        zoom as int,
                    ),
                forall|a: int, b: int|
                    0 <= a < n && 0 <= b < j ==> (#[trigger] lines@[n + b]@[a]).xy() == projected(
                        *rotation,
                        self.vertices@[a * n + b].position,
                        zoom as int,
                    ),
            decreases n - j,
        {
            let mut line: Vec<Point2> = Vec::new();
            let mut i: usize = 0;
            while i < n
                invariant
                    self.wf(),
                    rotation.is_bounded(),
                    n == self.side(),
                    0 <= i <= n,
                    0 <= j < n,
                    line.len() == i,
                    forall|a: int|
                        0 <= a < i ==> (#[trigger] line@[a]).xy() == projected(
                            *rotation,
                            self.vertices@[a * n + j].position,
                            zoom as int,
                        ),
                decreases n - i,
            {
                assert(i * n + j < n * n) by (nonlinear_arith)
                    requires
                        i < n,
                        j < n,
                ;
                let v: Vertex3D = self.vertices[i * n + j];
                line.push(project_vertex(rotation, &v.position, zoom));
                i += 1;
            }
            lines.push(line);
            j += 1;
        }
        lines
    }
}

} // verus!
