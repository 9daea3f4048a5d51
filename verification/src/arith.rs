//! Exact arithmetic on grid coordinates.

use vstd::prelude::*;

verus! {

/// The largest magnitude of a grid coordinate.
pub const COORD_LIMIT: i64 = 1_048_576;

/// A point of the grid, or a direction between two of them. In two
/// dimensions `z` is zero.
#[derive(Clone, Copy, Debug, PartialEq, Eq, Structural)]
pub struct Point {
    pub x: i64,
    pub y: i64,
    pub z: i64,
}

/// A rational number `num / den`.
#[derive(Clone, Copy, Debug, PartialEq, Eq, Structural)]
pub struct Ratio {
    pub num: i128,
    pub den: i128,
}

impl Point {
    /// Every coordinate lies within the grid.
    pub open spec fn in_range(self) -> bool {
        &&& -COORD_LIMIT <= self.x <= COORD_LIMIT
        &&& -COORD_LIMIT <= self.y <= COORD_LIMIT
        &&& -COORD_LIMIT <= self.z <= COORD_LIMIT
    }

    /// Tells whether every coordinate lies within the grid.
    pub fn is_in_range(&self) -> (r: bool)
        ensures
            r == self.in_range(),
    {
        -COORD_LIMIT <= self.x && self.x <= COORD_LIMIT && -COORD_LIMIT <= self.y && self.y
            <= COORD_LIMIT && -COORD_LIMIT <= self.z && self.z <= COORD_LIMIT
    }

    /// Builds a point from its coordinates.
    pub fn new(x: i64, y: i64, z: i64) -> (p: Point)
        ensures
            p == (Point { x, y, z }),
    {
        Point { x, y, z }
    }
}

/// The scalar product of two directions.
pub open spec fn dot(a: Point, b: Point) -> int {
    a.x * b.x + a.y * b.y + a.z * b.z
}

/// The scalar product of the direction from `from` to `to` with `d`.
pub open spec fn dot_from(to: Point, from: Point, d: Point) -> int {
    (to.x - from.x) * d.x + (to.y - from.y) * d.y + (to.z - from.z) * d.z
}

/// The product of two bounded numbers is bounded by the product of the bounds.
pub proof fn lemma_product_bound(a: int, b: int, x: int, y: int)
    requires
        -x <= a <= x,
        -y <= b <= y,
    ensures
        -(x * y) <= a * b <= x * y,
{
    assert(-(x * y) <= a * b <= x * y) by (nonlinear_arith)
        requires
            -x <= a <= x,
            -y <= b <= y,
    {
        assert((x - a) * (y - b) >= 0);
        assert((x + a) * (y + b) >= 0);
        assert((x - a) * (y + b) >= 0);
        assert((x + a) * (y - b) >= 0);
    }
}

/// Multiplies two numbers whose magnitudes are known to be at most `x` and `y`.
pub(crate) fn product(a: i128, b: i128, Ghost(x): Ghost<int>, Ghost(y): Ghost<int>) -> (r: i128)
    requires
        -x <= a <= x,
        -y <= b <= y,
        x * y <= 0x4000_0000_0000_0000_0000_0000_0000_0000,
    ensures
        r == a * b,
        -(x * y) <= r <= x * y,
{
    proof {
        lemma_product_bound(a as int, b as int, x, y);
    }
    a * b
}

/// The largest magnitude of a product that is handed to the vector
/// operations of `nalgebra`.
pub const PRODUCT_LIMIT: i128 = 0x1000_0000_0000_0000_0000_0000_0000_0000;

/// The scalar product of two vectors of three numbers, computed by
/// `nalgebra`'s `Matrix::dot` on two `Vector3<i128>`.
///
/// Trusted: for vectors of three rows `dot` multiplies the rows pairwise
/// and adds the three products. The bound on each product keeps the
/// products and their sums within `i128`.
#[verifier::external_body]
fn vector_dot(ax: i128, ay: i128, az: i128, bx: i128, by: i128, bz: i128) -> (r: i128)
    requires
        -PRODUCT_LIMIT <= ax * bx <= PRODUCT_LIMIT,
        -PRODUCT_LIMIT <= ay * by <= PRODUCT_LIMIT,
        -PRODUCT_LIMIT <= az * bz <= PRODUCT_LIMIT,
    ensures
        r == ax * bx + ay * by + az * bz,
{
    nalgebra::Vector3::new(ax, ay, az).dot(&nalgebra::Vector3::new(bx, by, bz))
}

/// The perpendicular product of two vectors of two numbers, computed by
/// `nalgebra`'s `Matrix::perp` on two `Vector2<i128>`.
///
/// Trusted: `perp` returns `a.x * b.y - a.y * b.x`. The bound on each
/// product keeps the products and their difference within `i128`.
#[verifier::external_body]
pub(crate) fn vector_perp(au: i128, av: i128, bu: i128, bv: i128) -> (r: i128)
    requires
        -PRODUCT_LIMIT <= au * bv <= PRODUCT_LIMIT,
        -PRODUCT_LIMIT <= av * bu <= PRODUCT_LIMIT,
    ensures
        r == au * bv - av * bu,
{
    nalgebra::Vector2::new(au, av).perp(&nalgebra::Vector2::new(bu, bv))
}

/// Computes `dot_from(to, from, d)` for grid points and a direction whose
/// coordinates have magnitude at most `bound`.
pub(crate) fn dot_from_exec(to: &Point, from: &Point, d: &Point, Ghost(bound): Ghost<int>) -> (r: i128)
    requires
        to.in_range(),
        from.in_range(),
        -bound <= d.x <= bound,
        -bound <= d.y <= bound,
        -bound <= d.z <= bound,
        0 <= bound <= 0x400_0000_0000,
    ensures
        r == dot_from(*to, *from, *d),
        -(6291456 * bound) <= r <= 6291456 * bound,
{
    let dx: i128 = to.x as i128 - from.x as i128;
    let dy: i128 = to.y as i128 - from.y as i128;
    let dz: i128 = to.z as i128 - from.z as i128;
    proof {
        assert(2097152 * bound <= 0x8000_0000_0000_0000) by (nonlinear_arith)
            requires
                0 <= bound <= 0x400_0000_0000,
        ;
        lemma_product_bound(dx as int, d.x as int, 2097152, bound);
        lemma_product_bound(dy as int, d.y as int, 2097152, bound);
        lemma_product_bound(dz as int, d.z as int, 2097152, bound);
    }
    vector_dot(dx, dy, dz, d.x as i128, d.y as i128, d.z as i128)
}

/// The scalar product of two grid directions, and that of a difference of
/// grid points with a grid direction, stay far below the machine's limits.
pub proof fn lemma_dot_bounds(to: Point, from: Point, d: Point)
    requires
        to.in_range(),
        from.in_range(),
        d.in_range(),
    ensures
        -6597069766656 <= dot_from(to, from, d) <= 6597069766656,
        -3298534883328 <= dot(to, d) <= 3298534883328,
{
    lemma_product_bound(to.x - from.x, d.x as int, 2097152, 1048576);
    lemma_product_bound(to.y - from.y, d.y as int, 2097152, 1048576);
    lemma_product_bound(to.z - from.z, d.z as int, 2097152, 1048576);
    lemma_product_bound(to.x as int, d.x as int, 1048576, 1048576);
    lemma_product_bound(to.y as int, d.y as int, 1048576, 1048576);
    lemma_product_bound(to.z as int, d.z as int, 1048576, 1048576);
}

} // verus!
