use vstd::prelude::*;
use crate::axial::{magnitude, Axial};
use crate::hex_half_edge::HexHalfEdge;
use crate::hex_range_iterator::{HexHalfEdgeIterator, HexVertexIterator};
use crate::hex_vertex::HexVertex;

verus! {

/// A coordinate specifying a hex on a hex grid.
///
/// It stores the axial coordinates `q` and `r`; the third cubic coordinate
/// `s` is derived, so that the three always sum to zero.
#[derive(Copy, Clone, PartialEq, Eq, Structural, Hash, Debug)]
pub struct HexCoord {
    pub q: i32,
    pub r: i32,
}

impl View for HexCoord {
    type V = Axial;

    open spec fn view(&self) -> Axial {
        Axial { q: self.q as int, r: self.r as int }
    }
}

/// Reduces an index to the range `0..6`, wrapping rather than clamping.
pub(crate) fn wrap_index(i: i32) -> (k: i32)
    ensures
        k == i % 6,
        0 <= k < 6,
{
    let m: i32 = i % 6;
    if m < 0 {
        m + 6
    } else {
        m
    }
}

/// The absolute value of a difference of two `i32` coordinates, or of a sum
/// of two such differences.
fn absolute(x: i64) -> (a: i64)
    requires
        i64::MIN < x,
    ensures
        a == magnitude(x as int),
{
    if x < 0 {
        -x
    } else {
        x
    }
}

/// Turns the point `(q, r)` by `rotation` sixth-turns about the origin, in
/// arithmetic wide enough for differences and sums of `i32` coordinates.
pub(crate) fn turn(q: i64, r: i64, rotation: i32) -> (out: (i64, i64))
    requires
        -0x2_0000_0000 <= q <= 0x2_0000_0000,
        -0x2_0000_0000 <= r <= 0x2_0000_0000,
    ensures
        (Axial { q: out.0 as int, r: out.1 as int }) == (Axial { q: q as int, r: r as int })
            .rotated(rotation as int),
{
    proof {
        reveal(Axial::rotated);
    }
    match wrap_index(rotation) {
        0 => (q, r),
        1 => (-r, q + r),
        2 => (-q - r, q),
        3 => (-q, -r),
        4 => (r, -q - r),
        _ => (q + r, -q),
    }
}

impl HexCoord {
    /// Returns the *q* coordinate of the hex.
    pub fn q(&self) -> (q: i32)
        ensures
            q == self@.q,
    {
        self.q
    }

    /// Returns the *r* coordinate of the hex.
    pub fn r(&self) -> (r: i32)
        ensures
            r == self@.r,
    {
        self.r
    }

    /// Returns the *s* coordinate of the hex, the one that makes the three
    /// cubic coordinates sum to zero.
    pub fn s(&self) -> (s: i32)
        requires
            i32::MIN <= self@.s() <= i32::MAX,
        ensures
            s == self@.s(),
    {
        (-(self.q as i64 + self.r as i64)) as i32
    }

    /// Creates a `HexCoord` with the given *q* and *r* coordinates.
    pub fn new(q: i32, r: i32) -> (c: HexCoord)
        ensures
            c.q == q,
            c.r == r,
    {
        HexCoord { q, r }
    }

    /// The origin of the hex coordinate system.
    pub fn zero() -> (c: HexCoord)
        ensures
            c@ == Axial::zero(),
    {
        HexCoord { q: 0, r: 0 }
    }

    /// Returns one of the six unit directions from a hex to its neighbors.
    /// The index `i` is wrapped (not clamped) to the range [0, 5].
    pub fn get_unit_coord(i: i32) -> (c: HexCoord)
        ensures
            c@ == Axial::unit(i as int),
    {
        match wrap_index(i) {
            0 => HexCoord::new(0, -1),
            1 => HexCoord::new(0, 1),
            2 => HexCoord::new(-1, 0),
            3 => HexCoord::new(1, 0),
            4 => HexCoord::new(-1, 1),
            _ => HexCoord::new(1, -1),
        }
    }

    /// Returns the `i`th vertex of `self`.
    /// The index `i` is wrapped (not clamped) to the range [0, 5].
    pub fn get_vertex(&self, i: i32) -> (v: HexVertex)
        requires
            self@.corner(i as int).fits(),
        ensures
            v@ == self@.corner(i as int),
    {
        HexVertex::get_unit_coord(i).translate(self)
    }

    /// Returns a walk over the six vertices of `self`, by increasing index.
    pub fn vertices(&self) -> (walk: HexVertexIterator)
        requires
            self@.corners_fit(),
        ensures
            walk.remaining() == self@.corners(),
    {
        HexVertexIterator::new(*self)
    }

    /// Returns the `i`th half-edge of `self`, which runs from vertex `i` to
    /// vertex `i + 1`.
    /// The index `i` is wrapped (not clamped) to the range [0, 5].
    pub fn get_half_edge(&self, i: i32) -> (edge: HexHalfEdge)
        requires
            self@.edge(i as int).fits(),
        ensures
            edge@ == self@.edge(i as int),
    {
        HexHalfEdge::new(self.get_vertex(i), self.get_vertex(wrap_index(i) + 1))
    }

    /// Returns a walk over the six half-edges of `self`, by increasing index.
    pub fn edges(&self) -> (walk: HexHalfEdgeIterator)
        requires
            self@.corners_fit(),
        ensures
            walk.remaining() == self@.boundary(),
    {
        HexHalfEdgeIterator::new(*self)
    }

    /// Returns `self` turned back by one sixth-turn about the origin: the
    /// inverse of [`HexCoord::rotate_forward`].
    pub fn rotate_back(&self) -> (out: HexCoord)
        requires
            self@.rotated(-1).fits(),
        ensures
            out@ == self@.rotated(-1),
    {
        proof {
            reveal(Axial::rotated);
        }
        HexCoord { q: (self.q as i64 + self.r as i64) as i32, r: (-(self.q as i64)) as i32 }
    }

    /// Returns `self` turned forward by one sixth-turn about the origin.
    pub fn rotate_forward(&self) -> (out: HexCoord)
        requires
            self@.rotated(1).fits(),
        ensures
            out@ == self@.rotated(1),
    {
        proof {
            reveal(Axial::rotated);
        }
        HexCoord { q: (-(self.r as i64)) as i32, r: (self.q as i64 + self.r as i64) as i32 }
    }

    /// Returns `self` turned by `rotation` sixth-turns about `pivot`.
    /// The number of turns is wrapped to the range [0, 5].
    pub fn rotate_around(&self, pivot: HexCoord, rotation: i32) -> (out: HexCoord)
        requires
            self@.rotated_around(pivot@, rotation as int).fits(),
        ensures
            out@ == self@.rotated_around(pivot@, rotation as int),
    {
        let q: i64 = self.q as i64 - pivot.q as i64;
        let r: i64 = self.r as i64 - pivot.r as i64;
        let turned: (i64, i64) = turn(q, r, rotation);
        HexCoord { q: (pivot.q as i64 + turned.0) as i32, r: (pivot.r as i64 + turned.1) as i32 }
    }

    /// Returns the number of hexes in the shortest path along the hex grid
    /// from `a` to `b`, counting `b` but not `a`.
    pub fn hex_distance(a: HexCoord, b: HexCoord) -> (d: i32)
        requires
            a@.distance(b@) <= i32::MAX,
        ensures
            d == a@.distance(b@),
    {
        let dq: i64 = a.q as i64 - b.q as i64;
        let dr: i64 = a.r as i64 - b.r as i64;
        let ds: i64 = -(dq + dr);
        ((absolute(dq) + absolute(dr) + absolute(ds)) / 2) as i32
    }
}

impl core::ops::Add for HexCoord {
    type Output = HexCoord;

    fn add(self, other: HexCoord) -> (out: HexCoord)
        ensures
            out@ == self@.plus(other@),
    {
        HexCoord { q: self.q + other.q, r: self.r + other.r }
    }
}

impl vstd::std_specs::ops::AddSpecImpl for HexCoord {
    open spec fn obeys_add_spec() -> bool {
        true
    }

    open spec fn add_req(self, other: HexCoord) -> bool {
        self@.plus(other@).fits()
    }

    open spec fn add_spec(self, other: HexCoord) -> HexCoord {
        HexCoord { q: (self.q + other.q) as i32, r: (self.r + other.r) as i32 }
    }
}

impl core::ops::AddAssign for HexCoord {
    fn add_assign(&mut self, other: HexCoord)
        requires
            old(self)@.plus(other@).fits(),
        ensures
            final(self)@ == old(self)@.plus(other@),
    {
        *self = *self + other;
    }
}

impl core::ops::Sub for HexCoord {
    type Output = HexCoord;

    fn sub(self, other: HexCoord) -> (out: HexCoord)
        ensures
            out@ == self@.minus(other@),
    {
        HexCoord { q: self.q - other.q, r: self.r - other.r }
    }
}

impl vstd::std_specs::ops::SubSpecImpl for HexCoord {
    open spec fn obeys_sub_spec() -> bool {
        true
    }

    open spec fn sub_req(self, other: HexCoord) -> bool {
        self@.minus(other@).fits()
    }

    open spec fn sub_spec(self, other: HexCoord) -> HexCoord {
        HexCoord { q: (self.q - other.q) as i32, r: (self.r - other.r) as i32 }
    }
}

impl core::ops::SubAssign for HexCoord {
    fn sub_assign(&mut self, other: HexCoord)
        requires
            old(self)@.minus(other@).fits(),
        ensures
            final(self)@ == old(self)@.minus(other@),
    {
        *self = *self - other;
    }
}

impl core::ops::Neg for HexCoord {
    type Output = HexCoord;

    fn neg(self) -> (out: HexCoord)
        ensures
            out@ == self@.negated(),
    {
        HexCoord { q: -self.q, r: -self.r }
    }
}

impl vstd::std_specs::ops::NegSpecImpl for HexCoord {
    open spec fn obeys_neg_spec() -> bool {
        true
    }

    open spec fn neg_req(self) -> bool {
        self@.negated().fits()
    }

    open spec fn neg_spec(self) -> HexCoord {
        HexCoord { q: (-self.q) as i32, r: (-self.r) as i32 }
    }
}

impl core::ops::Mul<i32> for HexCoord {
    type Output = HexCoord;

    fn mul(self, other: i32) -> (out: HexCoord)
        ensures
            out@ == self@.scaled(other as int),
    {
        HexCoord { q: self.q * other, r: self.r * other }
    }
}

impl vstd::std_specs::ops::MulSpecImpl<i32> for HexCoord {
    open spec fn obeys_mul_spec() -> bool {
        true
    }

    open spec fn mul_req(self, other: i32) -> bool {
        self@.scaled(other as int).fits()
    }

    open spec fn mul_spec(self, other: i32) -> HexCoord {
        HexCoord { q: (self.q * other) as i32, r: (self.r * other) as i32 }
    }
}

impl core::ops::Mul<HexCoord> for i32 {
    type Output = HexCoord;

    fn mul(self, other: HexCoord) -> (out: HexCoord)
        ensures
            out@ == other@.scaled(self as int),
    {
        HexCoord { q: other.q * self, r: other.r * self }
    }
}

impl vstd::std_specs::ops::MulSpecImpl<HexCoord> for i32 {
    open spec fn obeys_mul_spec() -> bool {
        true
    }

    open spec fn mul_req(self, other: HexCoord) -> bool {
        other@.scaled(self as int).fits()
    }

    open spec fn mul_spec(self, other: HexCoord) -> HexCoord {
        HexCoord { q: (other.q * self) as i32, r: (other.r * self) as i32 }
    }
}

impl core::ops::MulAssign<i32> for HexCoord {
    fn mul_assign(&mut self, other: i32)
        requires
            old(self)@.scaled(other as int).fits(),
        ensures
            final(self)@ == old(self)@.scaled(other as int),
    {
        *self = *self * other;
    }
}

} // verus!
