//! The sampled surface: a square grid of coloured 3D vertices.

use vstd::prelude::*;
use vstd::arithmetic::div_mod::{
    lemma_div_is_ordered,
    lemma_div_multiples_vanish,
    lemma_fundamental_div_mod_converse,
};
use crate::color::{Color, color_from_height, height_color, midpoint_color};

verus! {

/// A position in fixed-point units.
#[derive(Clone, Copy, Debug, PartialEq, Eq, Structural)]
pub struct Point3 {
    pub x: i64,
    pub y: i64,
    pub z: i64,
}

/// A mesh vertex: its position and its display colour.
#[derive(Clone, Copy, Debug, PartialEq, Eq, Structural)]
pub struct Vertex3D {
    pub position: Point3,
    pub color: Color,
}

/// A `(resolution + 1) x (resolution + 1)` grid of vertices over the square
/// `[-range, range]²`, stored row by row: vertex `(i, j)` is at index
/// `i * (resolution + 1) + j`, with `y` given by the row `i` and `x` by the
/// column `j`.
pub struct Surface {
    pub vertices: Vec<Vertex3D>,
    pub range: i64,
    pub resolution: usize,
}

/// The `j`-th of the `resolution + 1` evenly spaced sample coordinates from
/// `-range` to `range`, that is `-range + j * 2 range / resolution`,
/// truncated toward zero.
pub open spec fn grid_coord(range: int, resolution: int, j: int) -> int {
    if 2 * j >= resolution {
        (range * (2 * j - resolution)) / resolution
    } else {
        -((range * (resolution - 2 * j)) / resolution)
    }
}

/// The height stored for a sample: its value, or zero where evaluation failed.
pub open spec fn height_or_zero(s: Option<i64>) -> int {
    match s {
        Some(z) => z as int,
        None => 0,
    }
}

/// Least and greatest height among the successful samples, if any.
pub open spec fn height_extent(s: Seq<Option<i64>>) -> Option<(int, int)>
    decreases s.len(),
{
    if s.len() == 0 {
        None
    } else {
        let rest = height_extent(s.drop_last());
        match s.last() {
            None => rest,
            Some(z) => match rest {
                None => Some((z as int, z as int)),
                Some((lo, hi)) => Some(
                    (
                        if (z as int) < lo { z as int } else { lo },
                        if (z as int) > hi { z as int } else { hi },
                    ),
                ),
            },
        }
    }
}

/// Colour of sample `k`: its height normalized over the extent of the
/// successful samples, or the ramp's midpoint when that extent is empty or flat.
pub open spec fn sample_color(s: Seq<Option<i64>>, k: int) -> (int, int, int) {
    match height_extent(s) {
        Some((lo, hi)) => if hi > lo {
            height_color(height_or_zero(s[k]) - lo, hi - lo)
        } else {
            midpoint_color()
        },
        None => midpoint_color(),
    }
}

/// The sample coordinate `j` of a grid, computed exactly as [`grid_coord`].
pub fn grid_coordinate(range: i64, resolution: usize, j: usize) -> (c: i64)
    requires
        0 < range,
        1 <= resolution,
        j <= resolution,
    ensures
        c == grid_coord(range as int, resolution as int, j as int),
        -range <= c <= range,
{
    let r: i128 = range as i128;
    let res: i128 = resolution as i128;
    let jj: i128 = j as i128;
    let t: i128 = if 2 * jj >= res { 2 * jj - res } else { res - 2 * jj };
    assert(0 <= r * t <= r * res) by (nonlinear_arith)
        requires
            0 < r,
            0 <= t <= res,
    ;
    assert(r * res <= 0x7fff_ffff_ffff_ffff * 0xffff_ffff_ffff_ffff) by (nonlinear_arith)
        requires
            0 < r <= 0x7fff_ffff_ffff_ffff,
            0 < res <= 0xffff_ffff_ffff_ffff,
    ;
    let q: i128 = (r * t) / res;
    proof {
        lemma_div_is_ordered(r * t, r * res, res as int);
        lemma_div_multiples_vanish(r as int, res as int);
        assert(r * res == res * r) by (nonlinear_arith);
        lemma_div_is_ordered(0, r * t, res as int);
    }
    if 2 * jj >= res {
        q as i64
    } else {
        (-q) as i64
    }
}

proof fn lemma_side_fits(resolution: int)
    requires
        1 <= resolution,
        (resolution + 1) * (resolution + 1) <= usize::MAX,
    ensures
        resolution + 1 <= usize::MAX,
{
    assert(resolution + 1 <= (resolution + 1) * (resolution + 1)) by (nonlinear_arith)
        requires
            1 <= resolution,
    ;
}

/// The extent of samples that all succeed with the same height `c` is `c` to `c`.
proof fn lemma_extent_of_constant(s: Seq<Option<i64>>, c: i64)
    requires
        s.len() > 0,
        forall|k: int| 0 <= k < s.len() ==> s[k] == Some(c),
    ensures
        height_extent(s) == Some((c as int, c as int)),
    decreases s.len(),
{
    assert(s.last() == Some(c));
    if s.len() > 1 {
        assert forall|k: int| 0 <= k < s.drop_last().len() implies s.drop_last()[k] == Some(c) by {
            assert(s.drop_last()[k] == s[k]);
        }
        lemma_extent_of_constant(s.drop_last(), c);
    } else {
        assert(s.drop_last().len() == 0);
    }
}

/// A rebuilt mesh has `(resolution + 1)²` vertices, its first corner lies at
/// `x = y = -range` and its last corner at `x = y = range`.
pub proof fn lemma_rebuilt_mesh_corners(s: &Surface, samples: Seq<Option<i64>>)
    requires
        s.wf(),
        s.is_rebuilt_from(samples),
    ensures
        s.vertices.len() == (s.resolution + 1) * (s.resolution + 1),
        s.vertices@[0].position.x == -s.range,
        s.vertices@[0].position.y == -s.range,
        s.vertices@[s.vertices.len() - 1].position.x == s.range,
        s.vertices@[s.vertices.len() - 1].position.y == s.range,
{
    let n = s.side();
    let r = s.resolution as int;
    let last = n * n - 1;
    assert(last == r * n + r) by (nonlinear_arith)
        requires
            n == r + 1,
            last == n * n - 1,
    ;
    lemma_fundamental_div_mod_converse(0, n, 0, 0);
    lemma_fundamental_div_mod_converse(last, n, r, r);
    lemma_div_multiples_vanish(s.range as int, r);
    assert(s.range * r == r * s.range) by (nonlinear_arith);
    // Instantiate the grid description at both corners.
    assert(s.vertices@[0] == s.vertices@[0]);
    assert(s.vertices@[last] == s.vertices@[last]);
}

/// Where every sample succeeds with one and the same height, every vertex
/// gets the midpoint colour of the ramp.
pub proof fn lemma_flat_surface_midpoint_color(s: &Surface, samples: Seq<Option<i64>>, c: i64)
    requires
        s.wf(),
        s.is_rebuilt_from(samples),
        forall|k: int| 0 <= k < samples.len() ==> samples[k] == Some(c),
    ensures
        forall|k: int|
            0 <= k < s.vertices.len() ==> (#[trigger] s.vertices@[k]).color.rgb() == midpoint_color(),
{
    assert(s.side() * s.side() > 0) by (nonlinear_arith)
        requires
            s.side() >= 2,
    ;
    lemma_extent_of_constant(samples, c);
}

impl Surface {
    /// Number of grid points along each side.
    pub open spec fn side(&self) -> int {
        self.resolution + 1
    }

    /// The grid invariant: at least one step per side, a positive range,
    /// and exactly `(resolution + 1)²` vertices.
    pub open spec fn wf(&self) -> bool {
        &&& 1 <= self.resolution
        &&& 0 < self.range
        &&& self.side() * self.side() <= usize::MAX
        &&& self.vertices.len() == self.side() * self.side()
    }

    /// The mesh is what a rebuild from `samples` (one per vertex, row by
    /// row) yields: grid positions, heights of the successful samples (zero
    /// for the others), and colours from heights normalized over the extent
    /// of the successful samples.
    pub open spec fn is_rebuilt_from(&self, samples: Seq<Option<i64>>) -> bool {
        let n = self.side();
        &&& samples.len() == n * n
        &&& self.vertices.len() == n * n
        &&& forall|k: int|
            0 <= k < n * n ==> {
                let v = #[trigger] self.vertices@[k];
                &&& v.position.x == grid_coord(self.range as int, self.resolution as int, k % n)
                &&& v.position.y == grid_coord(self.range as int, self.resolution as int, k / n)
                &&& v.position.z == height_or_zero(samples[k])
                &&& v.color.rgb() == sample_color(samples, k)
            }
    }

    /// A grid of `(resolution + 1)²` white vertices at the origin.
    pub fn new(resolution: usize, range: i64) -> (s: Surface)
        requires
            1 <= resolution,
            0 < range,
            (resolution + 1) * (resolution + 1) <= usize::MAX,
        ensures
            s.wf(),
            s.resolution == resolution,
            s.range == range,
            forall|k: int|
                0 <= k < s.vertices.len() ==> (#[trigger] s.vertices@[k]).position == (Point3 {
                    x: 0,
                    y: 0,
                    z: 0,
                }) && s.vertices@[k].color.rgb() == (255int, 255int, 255int),
    {
        proof {
            lemma_side_fits(resolution as int);
        }
        let count: usize = (resolution + 1) * (resolution + 1);
        let mut vertices: Vec<Vertex3D> = Vec::new();
        while vertices.len() < count
            invariant
                vertices.len() <= count,
                forall|k: int|
                    0 <= k < vertices.len() ==> (#[trigger] vertices@[k]).position == (Point3 {
                        x: 0,
                        y: 0,
                        z: 0,
                    }) && vertices@[k].color.rgb() == (255int, 255int, 255int),
            decreases count - vertices.len(),
        {
            vertices.push(Vertex3D { position: Point3 { x: 0, y: 0, z: 0 }, color: Color::white() });
        }
        Surface { vertices, range, resolution }
    }

    /// Rebuilds the whole grid from one sample per vertex (row by row): a
    /// first pass places every vertex and tracks the extent of the
    /// successful heights, a second pass colours each vertex by its height
    /// normalized over that extent.
    pub fn fill_from_samples(&mut self, samples: &Vec<Option<i64>>)
        requires
            old(self).wf(),
            samples.len() == old(self).side() * old(self).side(),
        ensures
            final(self).wf(),
            final(self).resolution == old(self).resolution,
            final(self).range == old(self).range,
            final(self).is_rebuilt_from(samples@),
    {
        proof {
            lemma_side_fits(self.resolution as int);
        }
        let n: usize = self.resolution + 1;
        let ghost total = n * n;
        let mut positions: Vec<Point3> = Vec::new();
        let mut any: bool = false;
        let mut lo: i64 = 0;
        let mut hi: i64 = 0;
        let mut i: usize = 0;
        while i < n
            invariant
                self.wf(),
                n == self.side(),
                samples.len() == total,
                total == n * n,
                0 <= i <= n,
                positions.len() == i * n,
                forall|k: int|
                    0 <= k < positions.len() ==> {
                        let p = #[trigger] positions@[k];
                        &&& p.x == grid_coord(self.range as int, self.resolution as int, k % (n as int))
                        &&& p.y == grid_coord(self.range as int, self.resolution as int, k / (n as int))
                        &&& p.z == height_or_zero(samples@[k])
                    },
                height_extent(samples@.take(positions.len() as int)) == (if any {
                    Some((lo as int, hi as int))
                } else {
                    None
                }),
            decreases n - i,
        {
            let y: i64 = grid_coordinate(self.range, self.resolution, i);
            let mut j: usize = 0;
            while j < n
                invariant
                    self.wf(),
                    n == self.side(),
                    samples.len() == total,
                    total == n * n,
                    0 <= i < n,
                    0 <= j <= n,
                    y == grid_coord(self.range as int, self.resolution as int, i as int),
                    positions.len() == i * n + j,
                    forall|k: int|
                        0 <= k < positions.len() ==> {
                            let p = #[trigger] positions@[k];
                            &&& p.x == grid_coord(self.range as int, self.resolution as int, k % (n as int))
                            &&& p.y == grid_coord(self.range as int, self.resolution as int, k / (n as int))
                            &&& p.z == height_or_zero(samples@[k])
                        },
                    height_extent(samples@.take(positions.len() as int)) == (if any {
                        Some((lo as int, hi as int))
                    } else {
                        None
                    }),
                decreases n - j,
            {
                let k: usize = positions.len();
                assert(i * n + j < n * n) by (nonlinear_arith)
                    requires
                        i < n,
                        j < n,
                ;
                proof {
                    lemma_fundamental_div_mod_converse(k as int, n as int, i as int, j as int);
                    assert(samples@.take(k + 1).drop_last() =~= samples@.take(k as int));
                }
                let x: i64 = grid_coordinate(self.range, self.resolution, j);
                let z: i64 = match samples[k] {
                    Some(v) => {
                        if !any {
                            lo = v;
                            hi = v;
                            any = true;
                        } else {
                            if v < lo {
                                lo = v;
                            }
                            if v > hi {
                                hi = v;
                            }
                        }
                        v
                    },
                    None => 0,
                };
                positions.push(Point3 { x, y, z });
                j += 1;
            }
            assert((i + 1) * n == i * n + n) by (nonlinear_arith);
            i += 1;
        }
        assert(samples@.take(total) =~= samples@);
        let mut vertices: Vec<Vertex3D> = Vec::new();
        let mut k: usize = 0;
        while k < positions.len()
            invariant
                positions.len() == total,
                samples.len() == total,
                0 <= k <= total,
                vertices.len() == k,
                height_extent(samples@) == (if any {
                    Some((lo as int, hi as int))
                } else {
                    None
                }),
                forall|m: int|
                    0 <= m < k ==> (#[trigger] vertices@[m]).position == positions@[m]
                        && vertices@[m].color.rgb() == sample_color(samples@, m),
                forall|m: int|
                    0 <= m < total ==> (#[trigger] positions@[m]).z == height_or_zero(samples@[m]),
            decreases total - k,
        {
            let p: Point3 = positions[k];
            let c: Color = if any && hi > lo {
                color_from_height(p.z as i128 - lo as i128, (hi as i128 - lo as i128) as u64)
            } else {
                color_from_height(1, 2)
            };
            vertices.push(Vertex3D { position: p, color: c });
            k += 1;
        }
        self.vertices = vertices;
    }

    /// Rebuilds the whole grid by sampling `expr_fn` at every grid point
    /// `(x, y)`; `None` marks a point where the function is undefined.
    pub fn generate_from_expression<F: Fn(i64, i64) -> Option<i64>>(&mut self, expr_fn: F)
        requires
            old(self).wf(),
            forall|x: i64, y: i64| expr_fn.requires((x, y)),
        ensures
            final(self).wf(),
            final(self).resolution == old(self).resolution,
            final(self).range == old(self).range,
            exists|samples: Seq<Option<i64>>|
                {
                    &&& final(self).is_rebuilt_from(samples)
                    &&& forall|k: int|
                        0 <= k < samples.len() ==> expr_fn.ensures(
                            (
                                grid_coord(
                                    old(self).range as int,
                                    old(self).resolution as int,
                                    k % old(self).side(),
                                ) as i64,
                                grid_coord(
                                    old(self).range as int,
                                    old(self).resolution as int,
                                    k / old(self).side(),
                                ) as i64,
                            ),
                            #[trigger] samples[k],
                        )
                },
    {
        proof {
            lemma_side_fits(self.resolution as int);
        }
        let n: usize = self.resolution + 1;
        let ghost total = n * n;
        let mut samples: Vec<Option<i64>> = Vec::new();
        let mut i: usize = 0;
        while i < n
            invariant
                self.wf(),
                n == self.side(),
                total == n * n,
                0 <= i <= n,
                samples.len() == i * n,
                forall|x: i64, y: i64| expr_fn.requires((x, y)),
                forall|k: int|
                    0 <= k < samples.len() ==> expr_fn.ensures(
                        (
                            grid_coord(self.range as int, self.resolution as int, k % (n as int)) as i64,
                            grid_coord(self.range as int, self.resolution as int, k / (n as int)) as i64,
                        ),
                        #[trigger] samples@[k],
                    ),
            decreases n - i,
        {
            let y: i64 = grid_coordinate(self.range, self.resolution, i);
            let mut j: usize = 0;
            while j < n
                invariant
                    self.wf(),
                    n == self.side(),
                    total == n * n,
                    0 <= i < n,
                    0 <= j <= n,
                    y == grid_coord(self.range as int, self.resolution as int, i as int),
                    samples.len() == i * n + j,
                    forall|x: i64, y: i64| expr_fn.requires((x, y)),
                    forall|k: int|
                        0 <= k < samples.len() ==> expr_fn.ensures(
                            (
                                grid_coord(self.range as int, self.resolution as int, k % (n as int)) as i64,
                                grid_coord(self.range as int, self.resolution as int, k / (n as int)) as i64,
                            ),
                            #[trigger] samples@[k],
                        ),
                decreases n - j,
            {
                proof {
                    lemma_fundamental_div_mod_converse(samples.len() as int, n as int, i as int, j as int);
                }
                let x: i64 = grid_coordinate(self.range, self.resolution, j);
                let z: Option<i64> = expr_fn(x, y);
                samples.push(z);
                j += 1;
            }
            assert((i + 1) * n == i * n + n) by (nonlinear_arith);
            i += 1;
        }
        self.fill_from_samples(&samples);
        assert(final(self).is_rebuilt_from(samples@));
    }
}

} // verus!
