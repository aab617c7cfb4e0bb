//! The mathematical model of the grid: lattice points over the unbounded
//! integers, and the laws of their algebra.
//!
//! Every executable coordinate type of this crate is viewed as an [`Axial`]
//! point, and every contract is stated over the functions defined here.

use vstd::prelude::*;

verus! {

/// A point of the hexagonal lattice in axial coordinates.
///
/// The third cubic coordinate `s` is derived, so that `q + r + s == 0` holds
/// by construction.
pub struct Axial {
    pub q: int,
    pub r: int,
}

/// The absolute value of an integer.
pub open spec fn magnitude(x: int) -> int {
    if x < 0 {
        -x
    } else {
        x
    }
}

impl Axial {
    /// The third cubic coordinate.
    pub open spec fn s(self) -> int {
        -(self.q + self.r)
    }

    /// The origin of the lattice.
    pub open spec fn zero() -> Axial {
        Axial { q: 0, r: 0 }
    }

    /// Whether both stored coordinates can be held in an `i32`.
    pub open spec fn fits(self) -> bool {
        &&& i32::MIN <= self.q <= i32::MAX
        &&& i32::MIN <= self.r <= i32::MAX
    }

    /// Component-wise sum.
    pub open spec fn plus(self, other: Axial) -> Axial {
        Axial { q: self.q + other.q, r: self.r + other.r }
    }

    /// Component-wise difference.
    pub open spec fn minus(self, other: Axial) -> Axial {
        Axial { q: self.q - other.q, r: self.r - other.r }
    }

    /// The point opposite to `self` across the origin.
    pub open spec fn negated(self) -> Axial {
        Axial { q: -self.q, r: -self.r }
    }

    /// `self` stretched by the integer factor `k`.
    pub open spec fn scaled(self, k: int) -> Axial {
        Axial { q: self.q * k, r: self.r * k }
    }

    /// The unit direction with index `i`, the index taken modulo 6.
    pub open spec fn unit(i: int) -> Axial {
        let k = i % 6;
        if k == 0 {
            Axial { q: 0, r: -1 }
        } else if k == 1 {
            Axial { q: 0, r: 1 }
        } else if k == 2 {
            Axial { q: -1, r: 0 }
        } else if k == 3 {
            Axial { q: 1, r: 0 }
        } else if k == 4 {
            Axial { q: -1, r: 1 }
        } else {
            Axial { q: 1, r: -1 }
        }
    }

    /// `self` turned by `k` sixth-turns about the origin, `k` taken modulo 6.
    ///
    /// One sixth-turn sends `(q, r)` to `(-r, q + r)`. The definition is
    /// opaque: a proof that computes a turn reveals it, and other proofs go
    /// by the laws of rotation below.
    #[verifier::opaque]
    pub open spec fn rotated(self, k: int) -> Axial {
        let n = k % 6;
        if n == 0 {
            self
        } else if n == 1 {
            Axial { q: -self.r, r: self.q + self.r }
        } else if n == 2 {
            Axial { q: -self.q - self.r, r: self.q }
        } else if n == 3 {
            Axial { q: -self.q, r: -self.r }
        } else if n == 4 {
            Axial { q: self.r, r: -self.q - self.r }
        } else {
            Axial { q: self.q + self.r, r: -self.q }
        }
    }

    /// `self` turned by `k` sixth-turns about `pivot`.
    pub open spec fn rotated_around(self, pivot: Axial, k: int) -> Axial {
        pivot.plus(self.minus(pivot).rotated(k))
    }

    /// The sum of the absolute cubic coordinates, which is twice the distance
    /// from the origin.
    pub open spec fn cubic_norm(self) -> int {
        magnitude(self.q) + magnitude(self.r) + magnitude(self.s())
    }

    /// The number of steps between neighboring cells on a shortest path from
    /// `self` to `other`.
    pub open spec fn distance(self, other: Axial) -> int {
        self.minus(other).cubic_norm() / 2
    }

    /// Whether every cell within `radius` steps of `self` has coordinates that
    /// an `i32` can hold.
    pub open spec fn disk_fits(self, radius: int) -> bool {
        &&& 0 <= radius
        &&& i32::MIN <= self.q - radius
        &&& self.q + radius <= i32::MAX
        &&& i32::MIN <= self.r - radius
        &&& self.r + radius <= i32::MAX
    }
}

/// The three cubic coordinates of every point sum to zero.
pub proof fn lemma_cubic_coordinates_sum_to_zero(c: Axial)
    ensures
        c.q + c.r + c.s() == 0,
{
}

/// Any six unit directions with consecutive indices sum to the origin.
pub proof fn lemma_units_sum_to_zero(i: int)
    ensures
        Axial::unit(i).plus(Axial::unit(i + 1)).plus(Axial::unit(i + 2)).plus(
            Axial::unit(i + 3),
        ).plus(Axial::unit(i + 4)).plus(Axial::unit(i + 5)) == Axial::zero(),
{
}

/// The six unit directions are exactly the points at distance one from the
/// origin.
pub proof fn lemma_units_are_neighbors(c: Axial)
    ensures
        Axial::zero().distance(c) == 1 <==> exists|i: int| 0 <= i < 6 && Axial::unit(i) == c,
{
    if Axial::zero().distance(c) == 1 {
        if c.q == 0 && c.r == -1 {
            assert(Axial::unit(0) == c);
        } else if c.q == 0 && c.r == 1 {
            assert(Axial::unit(1) == c);
        } else if c.q == -1 && c.r == 0 {
            assert(Axial::unit(2) == c);
        } else if c.q == 1 && c.r == 0 {
            assert(Axial::unit(3) == c);
        } else if c.q == -1 && c.r == 1 {
            assert(Axial::unit(4) == c);
        } else {
            assert(Axial::unit(5) == c);
        }
    }
}

/// The cubic norm is even, so the distance is the exact half of it.
pub proof fn lemma_distance_is_integral(a: Axial, b: Axial)
    ensures
        2 * a.distance(b) == a.minus(b).cubic_norm(),
{
}

/// The distance is the largest absolute cubic coordinate of the difference.
pub proof fn lemma_distance_is_largest_coordinate(a: Axial, b: Axial)
    ensures
        ({
            let d = a.minus(b);
            &&& a.distance(b) >= magnitude(d.q)
            &&& a.distance(b) >= magnitude(d.r)
            &&& a.distance(b) >= magnitude(d.s())
            &&& (a.distance(b) == magnitude(d.q) || a.distance(b) == magnitude(d.r) || a.distance(b)
                == magnitude(d.s()))
        }),
{
}

/// The distance does not depend on the order of its arguments.
pub proof fn lemma_distance_symmetric(a: Axial, b: Axial)
    ensures
        a.distance(b) == b.distance(a),
{
}

/// A point is at distance zero from itself, and from no other point.
pub proof fn lemma_distance_zero(a: Axial, b: Axial)
    ensures
        a.distance(a) == 0,
        a.distance(b) >= 0,
        a.distance(b) == 0 <==> a == b,
{
}

/// The distance obeys the triangle inequality.
pub proof fn lemma_distance_triangle(a: Axial, b: Axial, c: Axial)
    ensures
        a.distance(c) <= a.distance(b) + b.distance(c),
{
    lemma_distance_is_integral(a, b);
    lemma_distance_is_integral(b, c);
    lemma_distance_is_integral(a, c);
}

/// Turning by `j` and then by `k` sixth-turns is turning by `j + k`.
pub proof fn lemma_rotation_composes(c: Axial, j: int, k: int)
    ensures
        c.rotated(j).rotated(k) == c.rotated(j + k),
{
    reveal(Axial::rotated);
}

/// Rotation distributes over sums, differences and negation.
pub proof fn lemma_rotation_is_linear(a: Axial, b: Axial, k: int)
    ensures
        a.plus(b).rotated(k) == a.rotated(k).plus(b.rotated(k)),
        a.minus(b).rotated(k) == a.rotated(k).minus(b.rotated(k)),
        a.negated().rotated(k) == a.rotated(k).negated(),
{
    reveal(Axial::rotated);
}

/// Rotation about the origin keeps the distance between two points.
pub proof fn lemma_rotation_preserves_distance(a: Axial, b: Axial, k: int)
    ensures
        a.rotated(k).distance(b.rotated(k)) == a.distance(b),
{
    reveal(Axial::rotated);
}

/// Rotation about any pivot keeps the distance between two points, and keeps
/// the pivot where it is.
pub proof fn lemma_rotation_around_is_rigid(a: Axial, b: Axial, pivot: Axial, k: int)
    ensures
        a.rotated_around(pivot, k).distance(b.rotated_around(pivot, k)) == a.distance(b),
        pivot.rotated_around(pivot, k) == pivot,
{
    reveal(Axial::rotated);
}

/// Turning about a pivot by `j` and then by `k` sixth-turns is turning by
/// `j + k`.
pub proof fn lemma_rotation_around_composes(c: Axial, pivot: Axial, j: int, k: int)
    ensures
        c.rotated_around(pivot, j).rotated_around(pivot, k) == c.rotated_around(pivot, j + k),
{
    let d = c.minus(pivot);
    assert(c.rotated_around(pivot, j).minus(pivot) == d.rotated(j));
    lemma_rotation_composes(d, j, k);
}

/// A full turn, and any whole number of full turns, leaves every point where
/// it is.
pub proof fn lemma_full_turn(c: Axial, pivot: Axial, turns: int)
    ensures
        c.rotated_around(pivot, 6) == c,
        c.rotated_around(pivot, 6 * turns) == c,
        c.rotated_around(pivot, 0) == c,
{
    reveal(Axial::rotated);
}

/// Six single sixth-turns in a row leave every point where it is.
pub proof fn lemma_six_sixth_turns(c: Axial, pivot: Axial)
    ensures
        c.rotated_around(pivot, 1).rotated_around(pivot, 1).rotated_around(pivot, 1).rotated_around(
            pivot,
            1,
        ).rotated_around(pivot, 1).rotated_around(pivot, 1) == c,
{
    reveal(Axial::rotated);
}

/// The rotation index only matters modulo 6.
pub proof fn lemma_rotation_wraps(c: Axial, pivot: Axial, j: int, k: int)
    requires
        j % 6 == k % 6,
    ensures
        c.rotated(j) == c.rotated(k),
        c.rotated_around(pivot, j) == c.rotated_around(pivot, k),
        Axial::unit(j) == Axial::unit(k),
{
    reveal(Axial::rotated);
}

} // verus!
