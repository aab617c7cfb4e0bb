use vstd::prelude::*;
use crate::axial::Axial;
use crate::hex_coord::HexCoord;
use crate::hex_vertex::HexVertex;

verus! {

/// A directed edge between two points of the finer lattice: the model of a
/// [`HexHalfEdge`].
pub struct AxialEdge {
    pub source: Axial,
    pub destination: Axial,
}

/// A third of `x`, rounded toward zero.
pub open spec fn third_toward_zero(x: int) -> int {
    if x >= 0 {
        x / 3
    } else {
        -((-x) / 3)
    }
}

impl AxialEdge {
    /// Whether both ends have coordinates that an `i32` can hold.
    pub open spec fn fits(self) -> bool {
        self.source.fits() && self.destination.fits()
    }

    /// The step from the source to the destination.
    pub open spec fn displacement(self) -> Axial {
        self.destination.minus(self.source)
    }

    /// The point of the finer lattice that the edge goes around: the source
    /// moved by the displacement turned one sixth-turn.
    pub open spec fn center(self) -> Axial {
        self.source.plus(self.displacement().rotated(1))
    }

    /// The cell that the edge borders: the center brought back from the finer
    /// lattice to the lattice of cells.
    pub open spec fn cell(self) -> Axial {
        Axial { q: third_toward_zero(self.center().q), r: third_toward_zero(self.center().r) }
    }

    /// The same edge walked the other way, as the cell across it sees it.
    pub open spec fn twin(self) -> AxialEdge {
        AxialEdge { source: self.destination, destination: self.source }
    }

    /// The edge that follows `self` around the same cell.
    pub open spec fn next(self) -> AxialEdge {
        AxialEdge {
            source: self.destination,
            destination: self.destination.plus(self.displacement().rotated(1)),
        }
    }

    /// The edge that precedes `self` around the same cell.
    pub open spec fn prev(self) -> AxialEdge {
        AxialEdge {
            source: self.source.minus(self.displacement().rotated(-1)),
            destination: self.source,
        }
    }

    /// Whether the edge is one of the six boundary edges of some cell: its
    /// ends are then two vertices that lie next to each other.
    pub open spec fn is_boundary(self) -> bool {
        exists|c: Axial, i: int| 0 <= i < 6 && #[trigger] c.edge(i) == self
    }

    /// The edge moved by as many cells as `translation` says.
    pub open spec fn translated(self, translation: Axial) -> AxialEdge {
        AxialEdge {
            source: self.source.plus(translation.scaled(3)),
            destination: self.destination.plus(translation.scaled(3)),
        }
    }
}

impl Axial {
    /// The `i`-th boundary edge of the cell `self`, which runs from corner `i`
    /// to corner `i + 1`.
    pub open spec fn edge(self, i: int) -> AxialEdge {
        AxialEdge { source: self.corner(i), destination: self.corner(i + 1) }
    }
}

/// A directed edge between two vertices: one half of an edge of the grid, as
/// seen from one of the two cells that it separates.
#[derive(Copy, Clone, PartialEq, Eq, Structural, Hash, Debug)]
pub struct HexHalfEdge {
    pub source: HexVertex,
    pub destination: HexVertex,
}

impl View for HexHalfEdge {
    type V = AxialEdge;

    open spec fn view(&self) -> AxialEdge {
        AxialEdge { source: self.source@, destination: self.destination@ }
    }
}

impl HexHalfEdge {
    /// Returns the vertex at which the edge starts.
    pub fn source(&self) -> (v: HexVertex)
        ensures
            v == self.source,
    {
        self.source
    }

    /// Returns the vertex at which the edge ends.
    pub fn destination(&self) -> (v: HexVertex)
        ensures
            v == self.destination,
    {
        self.destination
    }

    /// Creates the edge from `source` to `destination`.
    pub fn new(source: HexVertex, destination: HexVertex) -> (edge: HexHalfEdge)
        ensures
            edge.source == source,
            edge.destination == destination,
    {
        HexHalfEdge { source, destination }
    }

    /// Returns the cell that the edge borders.
    pub fn hex(&self) -> (cell: HexCoord)
        ensures
            cell@ == self@.cell(),
    {
        proof {
            reveal(Axial::rotated);
        }
        let dq: i64 = self.destination.three_q as i64 - self.source.three_q as i64;
        let dr: i64 = self.destination.three_r as i64 - self.source.three_r as i64;
        let center_q: i64 = self.source.three_q as i64 - dr;
        let center_r: i64 = self.source.three_r as i64 + dq + dr;
        HexCoord::new((center_q / 3) as i32, (center_r / 3) as i32)
    }

    /// Returns the same edge walked the other way.
    pub fn twin(&self) -> (edge: HexHalfEdge)
        ensures
            edge@ == self@.twin(),
            edge.source == self.destination,
            edge.destination == self.source,
    {
        HexHalfEdge { source: self.destination, destination: self.source }
    }

    /// Returns the edge that follows this one around the same cell.
    pub fn next(&self) -> (edge: HexHalfEdge)
        requires
            self@.next().fits(),
        ensures
            edge@ == self@.next(),
    {
        proof {
            reveal(Axial::rotated);
        }
        let dq: i64 = self.destination.three_q as i64 - self.source.three_q as i64;
        let dr: i64 = self.destination.three_r as i64 - self.source.three_r as i64;
        HexHalfEdge {
            source: self.destination,
            destination: HexVertex::new(
                (self.destination.three_q as i64 - dr) as i32,
                (self.destination.three_r as i64 + dq + dr) as i32,
            ),
        }
    }

    /// Returns the edge that precedes this one around the same cell.
    pub fn prev(&self) -> (edge: HexHalfEdge)
        requires
            self@.prev().fits(),
        ensures
            edge@ == self@.prev(),
    {
        proof {
            reveal(Axial::rotated);
        }
        let dq: i64 = self.destination.three_q as i64 - self.source.three_q as i64;
        let dr: i64 = self.destination.three_r as i64 - self.source.three_r as i64;
        HexHalfEdge {
            source: HexVertex::new(
                (self.source.three_q as i64 - (dq + dr)) as i32,
                (self.source.three_r as i64 + dq) as i32,
            ),
            destination: self.source,
        }
    }

    /// Returns the edge moved by as many cells as `translation` says.
    pub fn translate(&self, translation: &HexCoord) -> (edge: HexHalfEdge)
        requires
            self@.translated(translation@).fits(),
        ensures
            edge@ == self@.translated(translation@),
    {
        HexHalfEdge::new(self.source.translate(translation), self.destination.translate(translation))
    }
}

/// The twin of the twin of an edge is the edge itself.
pub proof fn lemma_twin_is_an_involution(e: AxialEdge)
    ensures
        e.twin().twin() == e,
{
}

/// Stepping to the next edge and stepping to the previous edge undo each
/// other.
pub proof fn lemma_next_and_prev_are_inverse(e: AxialEdge)
    ensures
        e.prev().next() == e,
        e.next().prev() == e,
{
    reveal(Axial::rotated);
}

/// Stepping around a cell keeps the point that the edge goes around, and so
/// the cell that it borders.
pub proof fn lemma_steps_keep_the_cell(e: AxialEdge)
    ensures
        e.next().center() == e.center(),
        e.prev().center() == e.center(),
        e.next().cell() == e.cell(),
        e.prev().cell() == e.cell(),
{
    reveal(Axial::rotated);
}

/// Six steps forward lead back to the edge from which they started.
pub proof fn lemma_six_steps_go_around(e: AxialEdge)
    ensures
        e.next().next().next().next().next().next() == e,
{
    reveal(Axial::rotated);
}

/// Each of the six boundary edges of a cell borders that cell.
pub proof fn lemma_boundary_edge_borders_cell(c: Axial, i: int)
    ensures
        c.edge(i).center() == c.scaled(3),
        c.edge(i).cell() == c,
{
    reveal(Axial::rotated);
}

/// The boundary edges of a cell follow each other in the order of their
/// indices.
pub proof fn lemma_boundary_edges_are_chained(c: Axial, i: int)
    ensures
        c.edge(i).next() == c.edge(i + 1),
        c.edge(i).prev() == c.edge(i - 1),
        c.edge(i + 6) == c.edge(i),
{
    reveal(Axial::rotated);
}

/// Moving a boundary edge of a cell by whole cells gives the boundary edge
/// with the same index of the cell moved alike.
pub proof fn lemma_boundary_edge_moves_with_cell(c: Axial, translation: Axial, i: int)
    ensures
        c.corner(i).plus(translation.scaled(3)) == c.plus(translation).corner(i),
        c.edge(i).translated(translation) == c.plus(translation).edge(i),
        c.edge(i).translated(translation).cell() == c.plus(translation),
{
    lemma_boundary_edge_borders_cell(c.plus(translation), i);
}

/// The twin of the `i`-th boundary edge of a cell borders the neighbor that
/// lies `i` sixth-turns on from the neighbor at `(1, 0)`, and is the edge of
/// that neighbor with the opposite index.
pub proof fn lemma_twin_borders_neighbor(c: Axial, i: int)
    ensures
        c.edge(i).twin().cell() == c.plus((Axial { q: 1, r: 0 }).rotated(i)),
        c.edge(i).twin().cell().distance(c) == 1,
        c.edge(i).twin() == c.edge(i).twin().cell().edge(i + 3),
{
    reveal(Axial::rotated);
}

/// The boundary edges are closed under every way of getting from one edge to
/// another: the twin, the next, the previous and the moved edge of a boundary
/// edge are boundary edges. A boundary edge has two different ends, and it
/// goes around the exact center of the cell that it borders.
pub proof fn lemma_boundary_edges_are_closed(e: AxialEdge, translation: Axial)
    requires
        e.is_boundary(),
    ensures
        e.twin().is_boundary(),
        e.next().is_boundary(),
        e.prev().is_boundary(),
        e.translated(translation).is_boundary(),
        e.source != e.destination,
        e.center() == e.cell().scaled(3),
{
    let (c, i) = choose|c: Axial, i: int| 0 <= i < 6 && #[trigger] c.edge(i) == e;
    lemma_boundary_edge_borders_cell(c, i);
    lemma_twin_borders_neighbor(c, i);
    lemma_boundary_edges_are_chained(c, i);
    lemma_boundary_edge_moves_with_cell(c, translation, i);
    let across = e.twin().cell();
    assert(across.edge((i + 3) % 6) == e.twin());
    assert(c.edge((i + 1) % 6) == e.next());
    assert(c.edge((i + 5) % 6) == e.prev());
    assert(c.plus(translation).edge(i) == e.translated(translation));
}

/// Every edge that leaves a vertex is a boundary edge of some cell.
pub proof fn lemma_outgoing_edge_is_boundary(v: Axial, k: int)
    requires
        v.on_positive_basis() || v.on_negative_basis(),
    ensures
        v.outgoing(k).is_boundary(),
{
    reveal(Axial::rotated);
    let e = v.outgoing(k);
    let c = e.cell();
    let third = k % 3;
    if v.on_positive_basis() {
        if third == 0 {
            assert(c.edge(4) == e);
        } else if third == 1 {
            assert(c.edge(0) == e);
        } else {
            assert(c.edge(2) == e);
        }
    } else {
        if third == 0 {
            assert(c.edge(5) == e);
        } else if third == 1 {
            assert(c.edge(1) == e);
        } else {
            assert(c.edge(3) == e);
        }
    }
}

/// A boundary edge of a cell leaves its source vertex as one of the three
/// outgoing edges of that vertex.
pub proof fn lemma_boundary_edge_is_outgoing(c: Axial, i: int)
    ensures
        exists|k: int| 0 <= k < 3 && #[trigger] c.corner(i).outgoing(k) == c.edge(i),
{
    let v = c.corner(i);
    let m = i % 6;
    if m == 0 {
        assert(v.outgoing(1) == c.edge(i));
    } else if m == 1 {
        assert(v.outgoing(1) == c.edge(i));
    } else if m == 2 {
        assert(v.outgoing(2) == c.edge(i));
    } else if m == 3 {
        assert(v.outgoing(2) == c.edge(i));
    } else if m == 4 {
        assert(v.outgoing(0) == c.edge(i));
    } else {
        assert(v.outgoing(0) == c.edge(i));
    }
}

} // verus!
