use vstd::prelude::*;
use crate::axial::Axial;
use crate::hex_coord::{wrap_index, HexCoord};
use crate::hex_half_edge::{AxialEdge, HexHalfEdge};

verus! {

/// A coordinate specifying a vertex of the hex grid.
///
/// Vertices live on a lattice three times as fine as the lattice of cells,
/// so that their coordinates are integers: the cell `(q, r)` has its center
/// at `(3q, 3r)` of the finer lattice, and its six corners around it. The
/// view of a vertex is its point on that finer lattice.
#[derive(Copy, Clone, PartialEq, Eq, Structural, Hash, Debug)]
pub struct HexVertex {
    pub three_q: i32,
    pub three_r: i32,
}

impl View for HexVertex {
    type V = Axial;

    open spec fn view(&self) -> Axial {
        Axial { q: self.three_q as int, r: self.three_r as int }
    }
}

impl Axial {
    /// The offset on the finer lattice from the center of a cell to its
    /// corner `i`, the index taken modulo 6.
    pub open spec fn corner_offset(i: int) -> Axial {
        let k = i % 6;
        if k == 0 {
            Axial { q: 2, r: -1 }
        } else if k == 1 {
            Axial { q: 1, r: 1 }
        } else if k == 2 {
            Axial { q: -1, r: 2 }
        } else if k == 3 {
            Axial { q: -2, r: 1 }
        } else if k == 4 {
            Axial { q: -1, r: -1 }
        } else {
            Axial { q: 1, r: -2 }
        }
    }

    /// The point of the finer lattice at which corner `i` of the cell `self`
    /// lies.
    pub open spec fn corner(self, i: int) -> Axial {
        self.scaled(3).plus(Axial::corner_offset(i))
    }

    /// Whether all six corners of the cell `self` have coordinates that an
    /// `i32` can hold.
    pub open spec fn corners_fit(self) -> bool {
        &&& i32::MIN <= 3 * self.q - 2
        &&& 3 * self.q + 2 <= i32::MAX
        &&& i32::MIN <= 3 * self.r - 2
        &&& 3 * self.r + 2 <= i32::MAX
    }

    /// Whether the point of the finer lattice is a vertex of the first of the
    /// two families: the even corners of the cells.
    pub open spec fn on_positive_basis(self) -> bool {
        (self.q + 1) % 3 == 0 && (self.r + 1) % 3 == 0
    }

    /// Whether the point of the finer lattice is a vertex of the second of the
    /// two families: the odd corners of the cells.
    pub open spec fn on_negative_basis(self) -> bool {
        (self.q - 1) % 3 == 0 && (self.r - 1) % 3 == 0
    }

    /// Whether the point of the finer lattice is the center of a cell.
    pub open spec fn is_center(self) -> bool {
        self.q % 3 == 0 && self.r % 3 == 0
    }

    /// The displacement along the `i`-th of the three edges that leave the
    /// vertex `self`, the index taken modulo 3.
    ///
    /// A vertex of the first family is left along the even corner offsets, a
    /// vertex of the second family along the odd ones.
    pub open spec fn spoke(self, i: int) -> Axial {
        if self.on_positive_basis() {
            Axial::corner_offset(2 * i)
        } else {
            Axial::corner_offset(2 * i + 1)
        }
    }

    /// The `i`-th edge that leaves the vertex `self`.
    pub open spec fn outgoing(self, i: int) -> AxialEdge {
        AxialEdge { source: self, destination: self.plus(self.spoke(i)) }
    }
}

/// Tells whether `x` is a multiple of three, for negative `x` too.
fn is_multiple_of_three(x: i64) -> (b: bool)
    ensures
        b == (x % 3 == 0),
{
    match x.checked_rem_euclid(3) {
        Some(m) => m == 0,
        None => false,
    }
}

impl HexVertex {
    /// Returns the *q* coordinate of the vertex on the finer lattice.
    pub fn three_q(&self) -> (q: i32)
        ensures
            q == self@.q,
    {
        self.three_q
    }

    /// Returns the *r* coordinate of the vertex on the finer lattice.
    pub fn three_r(&self) -> (r: i32)
        ensures
            r == self@.r,
    {
        self.three_r
    }

    /// Returns the *s* coordinate of the vertex on the finer lattice.
    pub fn three_s(&self) -> (s: i32)
        requires
            i32::MIN <= self@.s() <= i32::MAX,
        ensures
            s == self@.s(),
    {
        (-(self.three_q as i64 + self.three_r as i64)) as i32
    }

    /// Creates a vertex from its coordinates on the finer lattice.
    pub fn new(three_q: i32, three_r: i32) -> (v: HexVertex)
        ensures
            v.three_q == three_q,
            v.three_r == three_r,
    {
        HexVertex { three_q, three_r }
    }

    /// Tells whether the vertex belongs to the first of the two families of
    /// vertices.
    pub fn on_positive_basis(&self) -> (b: bool)
        ensures
            b == self@.on_positive_basis(),
    {
        is_multiple_of_three(self.three_q as i64 + 1) && is_multiple_of_three(
            self.three_r as i64 + 1,
        )
    }

    /// Tells whether the vertex belongs to the second of the two families of
    /// vertices.
    pub fn on_negative_basis(&self) -> (b: bool)
        ensures
            b == self@.on_negative_basis(),
    {
        is_multiple_of_three(self.three_q as i64 - 1) && is_multiple_of_three(
            self.three_r as i64 - 1,
        )
    }

    /// Returns the `i`-th of the three edges that leave the vertex.
    /// The index is wrapped to the range [0, 2].
    ///
    /// Only a point of one of the two families of vertices has such edges.
    pub fn get_outgoing_edge(&self, i: i32) -> (edge: HexHalfEdge)
        requires
            self@.on_positive_basis() || self@.on_negative_basis(),
            self@.outgoing(i as int).fits(),
        ensures
            edge@ == self@.outgoing(i as int),
    {
        let k: i32 = wrap_index(i);
        let direction = if self.on_positive_basis() {
            HexVertex::get_unit_coord(2 * k)
        } else {
            HexVertex::get_unit_coord(2 * k + 1)
        };
        HexHalfEdge::new(
            *self,
            HexVertex::new(self.three_q + direction.three_q, self.three_r + direction.three_r),
        )
    }

    /// Returns the `i`-th of the three edges that arrive at the vertex: the
    /// twin of the `i`-th edge that leaves it.
    pub fn get_incoming_edge(&self, i: i32) -> (edge: HexHalfEdge)
        requires
            self@.on_positive_basis() || self@.on_negative_basis(),
            self@.outgoing(i as int).fits(),
        ensures
            edge@ == self@.outgoing(i as int).twin(),
    {
        self.get_outgoing_edge(i).twin()
    }

    /// Returns the offset from the center of a cell to its corner `i`.
    /// The index is wrapped (not clamped) to the range [0, 5].
    pub fn get_unit_coord(i: i32) -> (v: HexVertex)
        ensures
            v@ == Axial::corner_offset(i as int),
    {
        match wrap_index(i) {
            0 => HexVertex::new(2, -1),
            1 => HexVertex::new(1, 1),
            2 => HexVertex::new(-1, 2),
            3 => HexVertex::new(-2, 1),
            4 => HexVertex::new(-1, -1),
            _ => HexVertex::new(1, -2),
        }
    }

    /// Returns the vertex moved by as many cells as `translation` says.
    pub fn translate(&self, translation: &HexCoord) -> (v: HexVertex)
        requires
            self@.plus(translation@.scaled(3)).fits(),
        ensures
            v@ == self@.plus(translation@.scaled(3)),
    {
        HexVertex {
            three_q: (self.three_q as i64 + 3 * (translation.q as i64)) as i32,
            three_r: (self.three_r as i64 + 3 * (translation.r as i64)) as i32,
        }
    }
}

/// The corner offsets follow each other by sixth-turns.
pub proof fn lemma_corner_offsets_turn(i: int, k: int)
    ensures
        Axial::corner_offset(i).rotated(k) == Axial::corner_offset(i + k),
        Axial::corner_offset(i) == Axial::corner_offset(0).rotated(i),
{
    reveal(Axial::rotated);
}

/// The even corners of every cell belong to the first family of vertices, the
/// odd corners to the second, and no point belongs to both or is a center as
/// well.
pub proof fn lemma_corner_families(c: Axial, i: int)
    ensures
        c.corner(i).on_positive_basis() <==> i % 2 == 0,
        c.corner(i).on_negative_basis() <==> i % 2 != 0,
        !c.corner(i).is_center(),
{
}

/// Moving a vertex by whole cells keeps it in its family.
pub proof fn lemma_translation_keeps_family(v: Axial, translation: Axial)
    ensures
        v.plus(translation.scaled(3)).on_positive_basis() == v.on_positive_basis(),
        v.plus(translation.scaled(3)).on_negative_basis() == v.on_negative_basis(),
        v.plus(translation.scaled(3)).is_center() == v.is_center(),
{
}

/// Every point of one of the two families is a corner of some cell.
pub proof fn lemma_vertex_is_a_corner(v: Axial)
    requires
        v.on_positive_basis() || v.on_negative_basis(),
    ensures
        exists|c: Axial, i: int| 0 <= i < 6 && #[trigger] c.corner(i) == v,
{
    if v.on_positive_basis() {
        let c = Axial { q: (v.q - 2) / 3, r: (v.r + 1) / 3 };
        assert(c.corner(0) == v);
    } else {
        let c = Axial { q: (v.q - 1) / 3, r: (v.r - 1) / 3 };
        assert(c.corner(1) == v);
    }
}

/// The corners of a cell can be held in `i32` coordinates exactly when the
/// closed bounds of [`Axial::corners_fit`] hold.
pub proof fn lemma_corners_fit(c: Axial)
    ensures
        c.corners_fit() <==> forall|i: int| #[trigger] c.corner(i).fits(),
{
    if c.corners_fit() {
        assert forall|i: int| #[trigger] c.corner(i).fits() by {}
    }
    if forall|i: int| #[trigger] c.corner(i).fits() {
        assert(c.corner(0).fits());
        assert(c.corner(2).fits());
        assert(c.corner(3).fits());
        assert(c.corner(5).fits());
    }
}

/// An edge that leaves a vertex arrives at a vertex of the other family, and
/// a vertex has no more than three edges that leave it.
pub proof fn lemma_outgoing_changes_family(v: Axial, i: int)
    requires
        v.on_positive_basis() || v.on_negative_basis(),
    ensures
        v.on_positive_basis() <==> v.outgoing(i).destination.on_negative_basis(),
        v.on_negative_basis() <==> v.outgoing(i).destination.on_positive_basis(),
        v.outgoing(i + 3) == v.outgoing(i),
{
    let third = i % 3;
    assert((2 * i) % 6 == 2 * third);
    assert((2 * i + 1) % 6 == 2 * third + 1);
    assert((2 * (i + 3)) % 6 == 2 * third);
    assert((2 * (i + 3) + 1) % 6 == 2 * third + 1);
    let d = v.spoke(i);
    assert(v.spoke(i + 3) == d);
    if v.on_positive_basis() {
        assert(d == Axial::corner_offset(2 * third));
        assert((d.q - 2) % 3 == 0 && (d.r - 2) % 3 == 0);
    } else {
        assert(d == Axial::corner_offset(2 * third + 1));
        assert((d.q - 1) % 3 == 0 && (d.r - 1) % 3 == 0);
    }
}

} // verus!
