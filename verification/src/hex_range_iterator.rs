use vstd::prelude::*;
use crate::axial::Axial;
use crate::hex_coord::HexCoord;
use crate::hex_half_edge::{AxialEdge, HexHalfEdge};
use crate::hex_transform::{
    lemma_identity_is_neutral, lemma_inverse_undoes, lemma_motion_preserves_distance,
    HexTransform, Rigid,
};
use crate::hex_vertex::HexVertex;

verus! {

impl Axial {
    /// The six corners of the cell `self`, by increasing index.
    pub open spec fn corners(self) -> Seq<Axial> {
        Seq::new(6, |i: int| self.corner(i))
    }

    /// The six boundary edges of the cell `self`, by increasing index.
    pub open spec fn boundary(self) -> Seq<AxialEdge> {
        Seq::new(6, |i: int| self.edge(i))
    }
}

/// Hands out the six vertices of a cell, one at a time, by increasing index.
pub struct HexVertexIterator {
    face: HexCoord,
    i: i32,
}

impl HexVertexIterator {
    #[verifier::type_invariant]
    spec fn well_formed(self) -> bool {
        self.face@.corners_fit() && -1 <= self.i <= 5
    }

    /// The vertices that are still to come, the next one first.
    pub closed spec fn remaining(self) -> Seq<Axial> {
        self.face@.corners().skip(self.i + 1)
    }

    /// Starts a walk over the vertices of `face`.
    pub fn new(face: HexCoord) -> (walk: Self)
        requires
            face@.corners_fit(),
        ensures
            walk.remaining() == face@.corners(),
    {
        Self { face, i: -1 }
    }

    /// Hands out the next vertex, or `None` when all six have been handed
    /// out.
    pub fn next(&mut self) -> (item: Option<HexVertex>)
        ensures
            match item {
                Some(v) => {
                    &&& old(self).remaining().len() > 0
                    &&& v@ == old(self).remaining().first()
                    &&& final(self).remaining() == old(self).remaining().drop_first()
                },
                None => old(self).remaining().len() == 0 && *final(self) == *old(self),
            },
    {
        proof {
            use_type_invariant(&*self);
        }
        if self.i >= 5 {
            None
        } else {
            self.i = self.i + 1;
            assert(self.remaining() =~= old(self).remaining().drop_first());
            Some(self.face.get_vertex(self.i))
        }
    }
}

/// Hands out the six half-edges of a cell, one at a time, by increasing
/// index.
pub struct HexHalfEdgeIterator {
    face: HexCoord,
    i: i32,
}

impl HexHalfEdgeIterator {
    #[verifier::type_invariant]
    spec fn well_formed(self) -> bool {
        self.face@.corners_fit() && -1 <= self.i <= 5
    }

    /// The half-edges that are still to come, the next one first.
    pub closed spec fn remaining(self) -> Seq<AxialEdge> {
        self.face@.boundary().skip(self.i + 1)
    }

    /// Starts a walk over the half-edges of `face`.
    pub fn new(face: HexCoord) -> (walk: Self)
        requires
            face@.corners_fit(),
        ensures
            walk.remaining() == face@.boundary(),
    {
        Self { face, i: -1 }
    }

    /// Hands out the next half-edge, or `None` when all six have been handed
    /// out.
    pub fn next(&mut self) -> (item: Option<HexHalfEdge>)
        ensures
            match item {
                Some(e) => {
                    &&& old(self).remaining().len() > 0
                    &&& e@ == old(self).remaining().first()
                    &&& final(self).remaining() == old(self).remaining().drop_first()
                },
                None => old(self).remaining().len() == 0 && *final(self) == *old(self),
            },
    {
        proof {
            use_type_invariant(&*self);
        }
        if self.i >= 5 {
            None
        } else {
            self.i = self.i + 1;
            assert(self.remaining() =~= old(self).remaining().drop_first());
            Some(self.face.get_half_edge(self.i))
        }
    }
}

/// The least `r` of the cells of row `q` that lie within `n` steps of the
/// origin.
pub open spec fn row_first(n: int, q: int) -> int {
    if q < 0 {
        -q - n
    } else {
        -n
    }
}

/// The greatest `r` of the cells of row `q` that lie within `n` steps of the
/// origin.
pub open spec fn row_last(n: int, q: int) -> int {
    if q < 0 {
        n
    } else {
        n - q
    }
}

/// The cells of row `q` that lie within `n` steps of the origin, by
/// increasing `r`.
pub open spec fn row(n: int, q: int) -> Seq<Axial> {
    Seq::new(
        (if row_last(n, q) >= row_first(n, q) {
            row_last(n, q) - row_first(n, q) + 1
        } else {
            0
        }) as nat,
        |j: int| Axial { q, r: row_first(n, q) + j },
    )
}

/// The cells of the rows from `q` on that lie within `n` steps of the origin:
/// row after row, and by increasing `r` within each row.
pub open spec fn rows_from(n: int, q: int) -> Seq<Axial>
    decreases n - q + 1,
{
    if q > n {
        Seq::empty()
    } else {
        row(n, q) + rows_from(n, q + 1)
    }
}

/// All cells within `n` steps of the origin: by increasing `q`, and by
/// increasing `r` among cells with the same `q`.
pub open spec fn disk(n: int) -> Seq<Axial> {
    rows_from(n, -n)
}

/// Where the motion `t` takes the cells within `n` steps of the origin, in
/// the order of [`disk`].
pub open spec fn moved_disk(n: int, t: Rigid) -> Seq<Axial> {
    disk(n).map_values(|c: Axial| t.apply(c))
}

/// Hands out all cells within a range of the origin, each moved by a
/// transform, one at a time.
pub struct HexRangeIterator {
    q: i32,
    r: i32,
    range: u32,
    transform: HexTransform,
}

impl HexRangeIterator {
    #[verifier::type_invariant]
    spec fn well_formed(self) -> bool {
        &&& self.transform@.translation.disk_fits(self.range as int)
        &&& -self.range - 1 <= self.q <= self.range
        &&& self.q == -self.range - 1 ==> self.r == self.range
        &&& row_first(self.range as int, self.q as int) - 1 <= self.r <= row_last(
            self.range as int,
            self.q as int,
        )
    }

    /// The cells of the disk that follow the cell `(q, r)`, before they are
    /// moved.
    spec fn cells_after(n: int, q: int, r: int) -> Seq<Axial> {
        row(n, q).skip(r - row_first(n, q) + 1) + rows_from(n, q + 1)
    }

    /// The cells that are still to come, the next one first.
    pub closed spec fn remaining(self) -> Seq<Axial> {
        Self::cells_after(self.range as int, self.q as int, self.r as int).map_values(
            |c: Axial| self.transform@.apply(c),
        )
    }

    /// Starts a walk over the cells within `range` steps of the origin, each
    /// moved by `transform`.
    pub fn new(range: u32, transform: HexTransform) -> (walk: Self)
        requires
            transform@.translation.disk_fits(range as int),
        ensures
            walk.remaining() == moved_disk(range as int, transform@),
    {
        let q: i32 = (-(range as i64) - 1) as i32;
        let r: i32 = range as i32;
        assert(Self::cells_after(range as int, q as int, r as int) =~= disk(range as int));
        Self { q, r, range, transform }
    }

    /// Hands out the next cell, or `None` when all have been handed out.
    pub fn next(&mut self) -> (item: Option<HexCoord>)
        ensures
            match item {
                Some(c) => {
                    &&& old(self).remaining().len() > 0
                    &&& c@ == old(self).remaining().first()
                    &&& final(self).remaining() == old(self).remaining().drop_first()
                },
                None => old(self).remaining().len() == 0 && *final(self) == *old(self),
            },
    {
        proof {
            use_type_invariant(&*self);
        }
        let n: i64 = self.range as i64;
        let q: i64 = self.q as i64;
        let last: i64 = if q < 0 {
            n
        } else {
            n - q
        };
        let ghost before = Self::cells_after(n as int, q as int, self.r as int);
        if (self.r as i64) < last {
            *self = Self { q: self.q, r: self.r + 1, range: self.range, transform: self.transform };
        } else if q < n {
            let first: i64 = if q + 1 < 0 {
                -(q + 1) - n
            } else {
                -n
            };
            *self = Self {
                q: self.q + 1,
                r: first as i32,
                range: self.range,
                transform: self.transform,
            };
        } else {
            assert(before =~= Seq::<Axial>::empty());
            return None;
        }
        let ghost cell = Axial { q: self.q as int, r: self.r as int };
        proof {
            assert(before.len() > 0);
            assert(before.first() == cell);
            assert(Self::cells_after(n as int, self.q as int, self.r as int) =~= before.drop_first());
            assert(self.remaining() =~= old(self).remaining().drop_first());
            assert(Axial::zero().distance(cell) <= n);
            lemma_moved_cell_fits(self.transform@, n as int, cell);
        }
        Some(self.transform * HexCoord::new(self.q, self.r))
    }
}

/// Whether `a` comes before `b` in the order of the disk: by `q` first, and
/// by `r` among cells with the same `q`.
pub open spec fn comes_before(a: Axial, b: Axial) -> bool {
    a.q < b.q || (a.q == b.q && a.r < b.r)
}

/// The rows from `a` on hold the cells within `n` steps of the origin whose
/// `q` is at least `a`, and no others.
proof fn lemma_rows_hold(n: int, a: int, c: Axial)
    requires
        0 <= n,
        -n <= a,
    ensures
        rows_from(n, a).contains(c) <==> a <= c.q && Axial::zero().distance(c) <= n,
    decreases n - a + 1,
{
    if a <= n {
        let head = row(n, a);
        let tail = rows_from(n, a + 1);
        let all = head + tail;
        lemma_rows_hold(n, a + 1, c);
        if head.contains(c) {
            let j = choose|j: int| 0 <= j < head.len() && head[j] == c;
            assert(all[j] == c);
        }
        if tail.contains(c) {
            let j = choose|j: int| 0 <= j < tail.len() && tail[j] == c;
            assert(all[head.len() + j] == c);
        }
        if all.contains(c) {
            let j = choose|j: int| 0 <= j < all.len() && all[j] == c;
            if j < head.len() {
                assert(head[j] == c);
            } else {
                assert(tail[j - head.len()] == c);
            }
        }
        if c.q == a && Axial::zero().distance(c) <= n {
            assert(head[c.r - row_first(n, a)] == c);
        }
    }
}

/// The rows from `a` on are in order: by `q` first, and by `r` among cells
/// with the same `q`.
proof fn lemma_rows_are_in_order(n: int, a: int, i: int, j: int)
    requires
        0 <= n,
        -n <= a,
        0 <= i < j < rows_from(n, a).len(),
    ensures
        comes_before(rows_from(n, a)[i], rows_from(n, a)[j]),
    decreases n - a + 1,
{
    if a <= n {
        let head = row(n, a);
        let tail = rows_from(n, a + 1);
        if j < head.len() {
        } else if i < head.len() {
            let later = tail[j - head.len()];
            assert(tail.contains(later));
            lemma_rows_hold(n, a + 1, later);
        } else {
            lemma_rows_are_in_order(n, a + 1, i - head.len(), j - head.len());
        }
    }
}

/// Twice the number of cells in the rows from `a` on.
proof fn lemma_rows_count(n: int, a: int)
    requires
        0 <= n,
        -n <= a <= n + 1,
    ensures
        2 * rows_from(n, a).len() == (if a >= 0 {
            (n - a + 1) * (3 * n + 2 - a)
        } else {
            (n + 1) * (3 * n + 2) - a * (4 * n + 1 + a)
        }),
    decreases n - a + 1,
{
    if a <= n {
        lemma_rows_count(n, a + 1);
        let rest = rows_from(n, a + 1).len() as int;
        let here = row(n, a).len() as int;
        assert(rows_from(n, a).len() == here + rest);
        if a >= 0 {
            assert(2 * (here + rest) == (n - a + 1) * (3 * n + 2 - a)) by (nonlinear_arith)
                requires
                    here == 2 * n + 1 - a,
                    2 * rest == (n - (a + 1) + 1) * (3 * n + 2 - (a + 1)),
            ;
        } else if a == -1 {
            assert(2 * (here + rest) == (n + 1) * (3 * n + 2) - a * (4 * n + 1 + a))
                by (nonlinear_arith)
                requires
                    a == -1,
                    here == 2 * n + 1 + a,
                    2 * rest == (n - 0 + 1) * (3 * n + 2 - 0),
            ;
        } else {
            assert(2 * (here + rest) == (n + 1) * (3 * n + 2) - a * (4 * n + 1 + a))
                by (nonlinear_arith)
                requires
                    here == 2 * n + 1 + a,
                    2 * rest == (n + 1) * (3 * n + 2) - (a + 1) * (4 * n + 1 + (a + 1)),
            ;
        }
    } else {
        assert((n - a + 1) * (3 * n + 2 - a) == 0) by (nonlinear_arith)
            requires
                a == n + 1,
        ;
    }
}

/// The disk of radius `n` holds exactly the cells within `n` steps of the
/// origin.
pub proof fn lemma_disk_holds_the_cells_in_reach(n: int, c: Axial)
    requires
        0 <= n,
    ensures
        disk(n).contains(c) <==> Axial::zero().distance(c) <= n,
{
    lemma_rows_hold(n, -n, c);
}

/// The disk of radius `n` is in order, so that it holds no cell twice.
pub proof fn lemma_disk_is_in_order(n: int, i: int, j: int)
    requires
        0 <= n,
        0 <= i < j < disk(n).len(),
    ensures
        comes_before(disk(n)[i], disk(n)[j]),
        disk(n)[i] != disk(n)[j],
{
    lemma_rows_are_in_order(n, -n, i, j);
}

/// The disk of radius `n` holds `3 n^2 + 3 n + 1` cells.
pub proof fn lemma_disk_size(n: int)
    requires
        0 <= n,
    ensures
        disk(n).len() == 3 * n * n + 3 * n + 1,
{
    lemma_rows_count(n, -n);
    let count = disk(n).len() as int;
    if n == 0 {
    } else {
        assert(count == 3 * n * n + 3 * n + 1) by (nonlinear_arith)
            requires
                2 * count == (n + 1) * (3 * n + 2) - (-n) * (4 * n + 1 + (-n)),
        ;
    }
}

/// A moved disk holds exactly the cells within `n` steps of the cell to which
/// the motion takes the origin, each of them once.
pub proof fn lemma_moved_disk_holds_the_cells_in_reach(n: int, t: Rigid, c: Axial)
    requires
        0 <= n,
    ensures
        moved_disk(n, t).len() == disk(n).len(),
        moved_disk(n, t).contains(c) <==> t.translation.distance(c) <= n,
        forall|i: int, j: int|
            0 <= i < j < moved_disk(n, t).len() ==> moved_disk(n, t)[i] != moved_disk(n, t)[j],
{
    let moved = moved_disk(n, t);
    let source = t.inverse().apply(c);
    lemma_inverse_undoes(t, c);
    lemma_motion_preserves_distance(t, Axial::zero(), source);
    lemma_identity_is_neutral(t, Axial::zero());
    assert(t.apply(Axial::zero()) == t.translation) by {
        reveal(Axial::rotated);
    }
    lemma_disk_holds_the_cells_in_reach(n, source);
    if disk(n).contains(source) {
        let i = choose|i: int| 0 <= i < disk(n).len() && disk(n)[i] == source;
        assert(moved[i] == c);
    }
    if moved.contains(c) {
        let i = choose|i: int| 0 <= i < moved.len() && moved[i] == c;
        lemma_inverse_undoes(t, disk(n)[i]);
        assert(disk(n)[i] == source);
    }
    assert forall|i: int, j: int| 0 <= i < j < moved.len() implies moved[i] != moved[j] by {
        lemma_disk_is_in_order(n, i, j);
        lemma_inverse_undoes(t, disk(n)[i]);
        lemma_inverse_undoes(t, disk(n)[j]);
    }
}

/// A motion whose translation leaves room for a disk of radius `n` takes
/// every cell within `n` steps of the origin to coordinates that an `i32` can
/// hold.
pub proof fn lemma_moved_cell_fits(t: Rigid, n: int, c: Axial)
    requires
        t.translation.disk_fits(n),
        Axial::zero().distance(c) <= n,
    ensures
        t.apply(c).fits(),
{
    reveal(Axial::rotated);
}

} // verus!
