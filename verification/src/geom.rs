//! Fixed-point 3D vectors and the integer arithmetic the scene and picking
//! logic is built on.

use vstd::prelude::*;

verus! {

/// Fixed-point subunits per world unit: a coordinate of `1500` stands for
/// `1.5` world units.
pub const SCALE: i64 = 1000;

/// Largest magnitude a coordinate may have, in subunits (a thousand world
/// units): keeps every squared distance well inside `i64`.
pub const COORD_MAX: i64 = 1_000_000;

/// Upper bound on the squared norms this crate computes: three squares of
/// differences of in-range coordinates stay below it.
pub const NORM_SQ_MAX: i64 = 13_000_000_000_000;

/// A point or direction in 3D, in fixed-point subunits.
#[derive(Clone, Copy, PartialEq, Eq, Structural, Debug)]
pub struct Vec3i {
    pub x: i64,
    pub y: i64,
    pub z: i64,
}

pub open spec fn sq(v: int) -> int {
    v * v
}

impl Vec3i {
    /// Every coordinate within `[-COORD_MAX, COORD_MAX]`.
    pub open spec fn in_range(self) -> bool {
        &&& -COORD_MAX <= self.x <= COORD_MAX
        &&& -COORD_MAX <= self.y <= COORD_MAX
        &&& -COORD_MAX <= self.z <= COORD_MAX
    }

    /// Squared Euclidean norm, as a mathematical integer.
    pub open spec fn norm_sq(self) -> int {
        sq(self.x as int) + sq(self.y as int) + sq(self.z as int)
    }
}

/// Squared Euclidean distance between two points, as a mathematical integer.
pub open spec fn spec_dist_sq(a: Vec3i, b: Vec3i) -> int {
    sq(a.x - b.x) + sq(a.y - b.y) + sq(a.z - b.z)
}

proof fn lemma_sq_bound(v: int, m: int)
    requires
        -m <= v <= m,
        0 <= m,
    ensures
        0 <= sq(v) <= m * m,
{
    assert(0 <= v * v <= m * m) by (nonlinear_arith)
        requires
            -m <= v <= m,
            0 <= m,
    ;
}

/// Componentwise difference `a - b`.
pub fn sub(a: Vec3i, b: Vec3i) -> (d: Vec3i)
    requires
        a.in_range(),
        b.in_range(),
    ensures
        d.x == a.x - b.x,
        d.y == a.y - b.y,
        d.z == a.z - b.z,
{
    Vec3i { x: a.x - b.x, y: a.y - b.y, z: a.z - b.z }
}

/// Squared Euclidean distance between two in-range points; exact, no
/// overflow.
pub fn dist_sq(a: Vec3i, b: Vec3i) -> (d: i64)
    requires
        a.in_range(),
        b.in_range(),
    ensures
        d == spec_dist_sq(a, b),
        0 <= d <= NORM_SQ_MAX,
{
    let dx: i64 = a.x - b.x;
    let dy: i64 = a.y - b.y;
    let dz: i64 = a.z - b.z;
    proof {
        lemma_sq_bound(dx as int, 2 * COORD_MAX as int);
        lemma_sq_bound(dy as int, 2 * COORD_MAX as int);
        lemma_sq_bound(dz as int, 2 * COORD_MAX as int);
    }
    dx * dx + dy * dy + dz * dz
}

/// Squared Euclidean norm of an in-range vector; exact, no overflow.
pub fn norm_sq(v: Vec3i) -> (n: i64)
    requires
        v.in_range(),
    ensures
        n == v.norm_sq(),
        0 <= n <= NORM_SQ_MAX,
{
    proof {
        lemma_sq_bound(v.x as int, COORD_MAX as int);
        lemma_sq_bound(v.y as int, COORD_MAX as int);
        lemma_sq_bound(v.z as int, COORD_MAX as int);
    }
    v.x * v.x + v.y * v.y + v.z * v.z
}

/// `r` is the floor of the real square root of `n`.
pub open spec fn is_sqrt_floor(n: int, r: int) -> bool {
    &&& 0 <= r
    &&& r * r <= n
    &&& n < (r + 1) * (r + 1)
}

/// The floor of a square root is unique.
pub proof fn lemma_sqrt_floor_unique(n: int, r1: int, r2: int)
    requires
        is_sqrt_floor(n, r1),
        is_sqrt_floor(n, r2),
    ensures
        r1 == r2,
{
    if r1 < r2 {
        assert((r1 + 1) * (r1 + 1) <= r2 * r2) by (nonlinear_arith)
            requires
                0 <= r1,
                r1 < r2,
        ;
    }
    if r2 < r1 {
        assert((r2 + 1) * (r2 + 1) <= r1 * r1) by (nonlinear_arith)
            requires
                0 <= r2,
                r2 < r1,
        ;
    }
}

/// Integer square root (floor), by binary search.
pub fn isqrt(n: i64) -> (r: i64)
    requires
        0 <= n <= NORM_SQ_MAX,
    ensures
        is_sqrt_floor(n as int, r as int),
{
    if n == 0 {
        return 0;
    }
    let mut lo: i64 = 0;
    let mut hi: i64 = 3_700_000;
    assert(3_700_000i64 * 3_700_000i64 == 13_690_000_000_000) by (nonlinear_arith);
    while lo + 1 < hi
        invariant
            0 <= lo < hi <= 3_700_000,
            lo * lo <= n,
            n < hi * hi,
        decreases hi - lo,
    {
        let mid: i64 = lo + (hi - lo) / 2;
        proof {
            assert(0 <= mid * mid <= 3_700_000i64 * 3_700_000i64) by (nonlinear_arith)
                requires
                    0 <= mid <= 3_700_000,
            ;
        }
        if mid * mid <= n {
            lo = mid;
        } else {
            hi = mid;
        }
    }
    lo
}

} // verus!
