use vstd::prelude::*;
use vstd::arithmetic::div_mod::{
    lemma_fundamental_div_mod, lemma_fundamental_div_mod_converse, lemma_mod_bound,
};
use crate::axial::{lemma_distance_is_largest_coordinate, Axial};
use crate::hex_coord::HexCoord;

verus! {

/// The number of cells within `radius` steps of a cell, that cell included.
pub open spec fn chunk_area(radius: int) -> int {
    3 * radius * radius + 3 * radius + 1
}

/// The factor by which the tiling shifts one cubic coordinate against the
/// next.
pub open spec fn chunk_shift(radius: int) -> int {
    3 * radius + 2
}

/// The cell at the center of the chunk with coordinate `chunk`, for chunks of
/// the given radius.
pub open spec fn chunk_center(radius: int, chunk: Axial) -> Axial {
    Axial {
        q: (2 * radius + 1) * chunk.q + radius * chunk.r,
        r: (radius + 1) * chunk.r - radius * chunk.q,
    }
}

/// The coordinate of the chunk that holds `cell`, for chunks of the given
/// radius. All divisions round down.
pub open spec fn containing_chunk(radius: int, cell: Axial) -> Axial {
    let area = chunk_area(radius);
    let shift = chunk_shift(radius);
    let xh = (cell.r + shift * cell.q) / area;
    let yh = (cell.s() + shift * cell.r) / area;
    let zh = (cell.q + shift * cell.s()) / area;
    Axial { q: (1 + xh - yh) / 3, r: (1 + yh - zh) / 3 }
}

/// Tiles the grid with hexagonal chunks of one radius, each addressed by a
/// hex coordinate of its own.
///
/// The area and the shift are kept in integers wide enough for every radius
/// that a `u32` can hold.
pub struct HexChunker {
    chunk_radius: u32,
    area: i128,
    shift: i128,
}

/// Divides by a positive divisor, rounding down.
fn floor_div(x: i128, d: i128) -> (quotient: i128)
    requires
        d > 0,
    ensures
        quotient == x / d,
{
    proof {
        lemma_quotient_bound(x as int, d as int, i128::MIN as int, i128::MAX as int);
    }
    x.checked_div_euclid(d).unwrap()
}

impl HexChunker {
    #[verifier::type_invariant]
    spec fn well_formed(self) -> bool {
        &&& self.area == chunk_area(self.chunk_radius as int)
        &&& self.shift == chunk_shift(self.chunk_radius as int)
    }

    /// The radius of the chunks.
    pub closed spec fn radius(&self) -> int {
        self.chunk_radius as int
    }

    /// Creates a chunker for chunks of the given radius. A radius of zero
    /// makes every cell a chunk of its own.
    pub fn new(chunk_radius: u32) -> (chunker: HexChunker)
        ensures
            chunker.radius() == chunk_radius,
    {
        let radius: i128 = chunk_radius as i128;
        proof {
            lemma_product_bound(radius as int, radius as int, 0x1_0000_0000, 0x1_0000_0000);
        }
        let square: i128 = radius * radius;
        assert(3 * square == 3 * radius * radius) by (nonlinear_arith)
            requires
                square == radius * radius,
        ;
        HexChunker { chunk_radius, area: 3 * square + 3 * radius + 1, shift: 3 * radius + 2 }
    }

    /// Returns the cell at the center of the chunk with coordinate
    /// `chunk_coord`.
    pub fn get_chunk_center(&self, chunk_coord: HexCoord) -> (center: HexCoord)
        requires
            chunk_center(self.radius(), chunk_coord@).fits(),
        ensures
            center@ == chunk_center(self.radius(), chunk_coord@),
    {
        let radius: i128 = self.chunk_radius as i128;
        let q: i128 = chunk_coord.q as i128;
        let r: i128 = chunk_coord.r as i128;
        proof {
            lemma_product_bound(2 * radius + 1, q as int, 0x2_0000_0000, 0x8000_0000);
            lemma_product_bound(radius as int, r as int, 0x2_0000_0000, 0x8000_0000);
            lemma_product_bound(radius as int, q as int, 0x2_0000_0000, 0x8000_0000);
            lemma_product_bound(radius + 1, r as int, 0x2_0000_0000, 0x8000_0000);
        }
        HexCoord::new(
            ((2 * radius + 1) * q + radius * r) as i32,
            ((radius + 1) * r - radius * q) as i32,
        )
    }

    /// Returns the coordinate of the chunk that holds the cell `coord`: the
    /// one chunk whose center lies within the radius of `coord`.
    pub fn get_containing_chunk(&self, coord: HexCoord) -> (chunk: HexCoord)
        ensures
            chunk@ == containing_chunk(self.radius(), coord@),
            coord@.distance(chunk_center(self.radius(), chunk@)) <= self.radius(),
    {
        proof {
            use_type_invariant(self);
            lemma_containing_chunk_fits(self.radius(), coord@);
            lemma_cell_is_near_its_center(self.radius(), coord@);
        }
        let area: i128 = self.area;
        let shift: i128 = self.shift;
        let q: i128 = coord.q as i128;
        let r: i128 = coord.r as i128;
        let s: i128 = -(q + r);
        proof {
            assert(0 < area) by (nonlinear_arith)
                requires
                    0 <= self.chunk_radius,
                    area == 3 * self.chunk_radius * self.chunk_radius + 3 * self.chunk_radius + 1,
            ;
            lemma_product_bound(shift as int, q as int, 0x4_0000_0000, 0x1_0000_0000);
            lemma_product_bound(shift as int, r as int, 0x4_0000_0000, 0x1_0000_0000);
            lemma_product_bound(shift as int, s as int, 0x4_0000_0000, 0x1_0000_0000);
        }
        let xh: i128 = floor_div(r + shift * q, area);
        let yh: i128 = floor_div(s + shift * r, area);
        let zh: i128 = floor_div(q + shift * s, area);
        proof {
            let bound = 0x8_0000_0000_0000_0000int;
            lemma_quotient_bound(r + shift * q, area as int, -bound, bound);
            lemma_quotient_bound(s + shift * r, area as int, -bound, bound);
            lemma_quotient_bound(q + shift * s, area as int, -bound, bound);
        }
        HexCoord::new(floor_div(1 + xh - yh, 3) as i32, floor_div(1 + yh - zh, 3) as i32)
    }
}

/// The three sums that the tiling divides by the area are, at the center of
/// the chunk `chunk`, exact multiples of the area.
proof fn lemma_sums_at_center(radius: int, chunk: Axial)
    ensures
        ({
            let area = chunk_area(radius);
            let shift = chunk_shift(radius);
            let center = chunk_center(radius, chunk);
            &&& center.r + shift * center.q == area * (2 * chunk.q + chunk.r)
            &&& center.s() + shift * center.r == area * (chunk.r - chunk.q)
            &&& center.q + shift * center.s() == area * (-(chunk.q + 2 * chunk.r))
        }),
{
    let a = chunk.q;
    let b = chunk.r;
    let area = chunk_area(radius);
    let shift = chunk_shift(radius);
    let cq = (2 * radius + 1) * a + radius * b;
    let cr = (radius + 1) * b - radius * a;
    let cs = -(cq + cr);
    assert(cr + shift * cq == area * (2 * a + b)) by (nonlinear_arith)
        requires
            area == 3 * radius * radius + 3 * radius + 1,
            shift == 3 * radius + 2,
            cq == (2 * radius + 1) * a + radius * b,
            cr == (radius + 1) * b - radius * a,
    ;
    assert(cs + shift * cr == area * (b - a)) by (nonlinear_arith)
        requires
            area == 3 * radius * radius + 3 * radius + 1,
            shift == 3 * radius + 2,
            cq == (2 * radius + 1) * a + radius * b,
            cr == (radius + 1) * b - radius * a,
            cs == -(cq + cr),
    ;
    assert(cq + shift * cs == area * (-(a + 2 * b))) by (nonlinear_arith)
        requires
            area == 3 * radius * radius + 3 * radius + 1,
            shift == 3 * radius + 2,
            cq == (2 * radius + 1) * a + radius * b,
            cr == (radius + 1) * b - radius * a,
            cs == -(cq + cr),
    ;
}

/// A sum of one coordinate and the shifted next one stays below the area in
/// absolute value while both coordinates stay within the radius.
proof fn lemma_shifted_sum_is_small(radius: int, u: int, v: int)
    by (nonlinear_arith)
    requires
        0 <= radius,
        -radius <= u <= radius,
        -radius <= v <= radius,
    ensures
        -chunk_area(radius) < u + chunk_shift(radius) * v < chunk_area(radius),
{
}

/// The quotient of a multiple of the divisor plus a small rest: the rest
/// takes one off the quotient when it is negative.
proof fn lemma_quotient_near_multiple(area: int, multiple: int, rest: int)
    requires
        0 < area,
        -area < rest < area,
    ensures
        (area * multiple + rest) / area == multiple + (if rest < 0 {
            -1int
        } else {
            0int
        }),
{
    let x = area * multiple + rest;
    if rest < 0 {
        assert(x == (multiple - 1) * area + (rest + area)) by (nonlinear_arith)
            requires
                x == area * multiple + rest,
        ;
        lemma_fundamental_div_mod_converse(x, area, multiple - 1, rest + area);
    } else {
        assert(x == multiple * area + rest) by (nonlinear_arith)
            requires
                x == area * multiple + rest,
        ;
        lemma_fundamental_div_mod_converse(x, area, multiple, rest);
    }
}

/// One of the three quotients of the tiling, for a cell that lies off the
/// center of a chunk by at most the radius in each coordinate: the multiple
/// found at the center, less one if the sum of the offsets is negative.
proof fn lemma_quotient_off_center(
    radius: int,
    center_u: int,
    center_v: int,
    multiple: int,
    off_u: int,
    off_v: int,
)
    requires
        0 <= radius,
        center_u + chunk_shift(radius) * center_v == chunk_area(radius) * multiple,
        -radius <= off_u <= radius,
        -radius <= off_v <= radius,
    ensures
        ((center_u + off_u) + chunk_shift(radius) * (center_v + off_v)) / chunk_area(radius)
            == multiple + (if off_u + chunk_shift(radius) * off_v < 0 {
            -1int
        } else {
            0int
        }),
{
    let area = chunk_area(radius);
    let shift = chunk_shift(radius);
    let rest = off_u + shift * off_v;
    lemma_shifted_sum_is_small(radius, off_u, off_v);
    assert((center_u + off_u) + shift * (center_v + off_v) == area * multiple + rest)
        by (nonlinear_arith)
        requires
            center_u + shift * center_v == area * multiple,
            rest == off_u + shift * off_v,
    ;
    lemma_quotient_near_multiple(area, multiple, rest);
}

/// Every cell within the radius of the center of a chunk lies in that chunk.
///
/// As no cell lies in two chunks, the disks around the centers of different
/// chunks do not overlap.
pub proof fn lemma_chunk_holds_its_disk(radius: int, chunk: Axial, cell: Axial)
    requires
        0 <= radius,
        cell.distance(chunk_center(radius, chunk)) <= radius,
    ensures
        containing_chunk(radius, cell) == chunk,
{
    let center = chunk_center(radius, chunk);
    let d = cell.minus(center);
    lemma_distance_is_largest_coordinate(cell, center);
    lemma_sums_at_center(radius, chunk);
    lemma_quotient_off_center(radius, center.r, center.q, 2 * chunk.q + chunk.r, d.r, d.q);
    lemma_quotient_off_center(radius, center.s(), center.r, chunk.r - chunk.q, d.s(), d.r);
    lemma_quotient_off_center(
        radius,
        center.q,
        center.s(),
        -(chunk.q + 2 * chunk.r),
        d.q,
        d.s(),
    );
    // Each quotient is the multiple found at the center, less one at most:
    // the two divisions by three bring back the coordinates of the chunk.
}

/// One coordinate of an offset, recovered from two of the three sums that
/// the tiling divides: it stays within the radius while the two sums stay
/// within the area.
proof fn lemma_offset_is_small(radius: int, u: int, v: int, w: int)
    requires
        0 <= radius,
        u + v + w == 0,
        -chunk_area(radius) <= v + chunk_shift(radius) * u <= chunk_area(radius),
        -chunk_area(radius) <= w + chunk_shift(radius) * v <= chunk_area(radius),
    ensures
        -radius <= u <= radius,
        3 * chunk_area(radius) * u == (chunk_shift(radius) - 1) * (v + chunk_shift(radius) * u) - (w
            + chunk_shift(radius) * v),
{
    let area = chunk_area(radius);
    let shift = chunk_shift(radius);
    let first = v + shift * u;
    let second = w + shift * v;
    assert(3 * area * u == (shift - 1) * first - second) by (nonlinear_arith)
        requires
            area == 3 * radius * radius + 3 * radius + 1,
            shift == 3 * radius + 2,
            first == v + shift * u,
            second == w + shift * v,
            u + v + w == 0,
    ;
    assert(-(shift * area) <= (shift - 1) * first - second <= shift * area) by (nonlinear_arith)
        requires
            0 <= radius,
            shift == 3 * radius + 2,
            -area <= first <= area,
            -area <= second <= area,
    ;
    assert(-radius <= u <= radius) by (nonlinear_arith)
        requires
            0 <= radius,
            area == 3 * radius * radius + 3 * radius + 1,
            shift == 3 * radius + 2,
            -(shift * area) <= 3 * area * u <= shift * area,
    ;
}

/// When the second sum of an offset is zero, the first is neither the area
/// nor the negated area: the offset would not be whole.
proof fn lemma_sums_are_not_extreme(radius: int, u: int, v: int, w: int)
    requires
        0 <= radius,
        u + v + w == 0,
        w + chunk_shift(radius) * v == 0,
    ensures
        v + chunk_shift(radius) * u != chunk_area(radius),
        v + chunk_shift(radius) * u != -chunk_area(radius),
{
    let area = chunk_area(radius);
    let shift = chunk_shift(radius);
    let first = v + shift * u;
    if first == area || first == -area {
        lemma_offset_is_small(radius, u, v, w);
        assert(3 * u == shift - 1 || 3 * u == -(shift - 1)) by (nonlinear_arith)
            requires
                0 <= radius,
                area == 3 * radius * radius + 3 * radius + 1,
                first == area || first == -area,
                3 * area * u == (shift - 1) * first - 0,
        ;
    }
}

/// The whole and the rest of a division by the area: the sum at a cell is
/// the sum at the center of a chunk plus the sum of the offset.
proof fn lemma_quotient_splits(radius: int, center_u: int, center_v: int, multiple: int, off_u: int, off_v: int)
    requires
        0 <= radius,
        center_u + chunk_shift(radius) * center_v == chunk_area(radius) * multiple,
    ensures
        ((center_u + off_u) + chunk_shift(radius) * (center_v + off_v)) / chunk_area(radius)
            == multiple + (off_u + chunk_shift(radius) * off_v) / chunk_area(radius),
{
    let area = chunk_area(radius);
    let shift = chunk_shift(radius);
    let rest = off_u + shift * off_v;
    assert(0 < area) by (nonlinear_arith)
        requires
            0 <= radius,
            area == 3 * radius * radius + 3 * radius + 1,
    ;
    lemma_fundamental_div_mod(rest, area);
    lemma_mod_bound(rest, area);
    let whole = rest / area;
    let part = rest % area;
    assert((center_u + off_u) + shift * (center_v + off_v) == (multiple + whole) * area + part)
        by (nonlinear_arith)
        requires
            center_u + shift * center_v == area * multiple,
            rest == off_u + shift * off_v,
            rest == area * whole + part,
    ;
    lemma_fundamental_div_mod_converse(
        (center_u + off_u) + shift * (center_v + off_v),
        area,
        multiple + whole,
        part,
    );
}

/// Three sums that add up to zero have quotients by the area that add up to
/// zero, to minus one or to minus two.
proof fn lemma_quotients_of_zero_sum(area: int, x: int, y: int, z: int)
    requires
        0 < area,
        x + y + z == 0,
    ensures
        -2 <= x / area + y / area + z / area <= 0,
        area * (x / area) <= x < area * (x / area) + area,
        area * (y / area) <= y < area * (y / area) + area,
        area * (z / area) <= z < area * (z / area) + area,
{
    lemma_fundamental_div_mod(x, area);
    lemma_fundamental_div_mod(y, area);
    lemma_fundamental_div_mod(z, area);
    lemma_mod_bound(x, area);
    lemma_mod_bound(y, area);
    lemma_mod_bound(z, area);
    let total = x / area + y / area + z / area;
    let parts = x % area + y % area + z % area;
    assert(area * total + parts == 0) by (nonlinear_arith)
        requires
            x == area * (x / area) + x % area,
            y == area * (y / area) + y % area,
            z == area * (z / area) + z % area,
            total == x / area + y / area + z / area,
            parts == x % area + y % area + z % area,
            x + y + z == 0,
    ;
    assert(-2 <= total <= 0) by (nonlinear_arith)
        requires
            0 < area,
            area * total + parts == 0,
            0 <= parts < 3 * area,
    ;
}

/// Every cell lies within the radius of the center of the chunk that holds
/// it.
///
/// So the disks around the centers of the chunks leave no cell out, and the
/// chunk that holds a cell is the one chunk whose center is that near.
pub proof fn lemma_cell_is_near_its_center(radius: int, cell: Axial)
    requires
        0 <= radius,
    ensures
        cell.distance(chunk_center(radius, containing_chunk(radius, cell))) <= radius,
{
    let area = chunk_area(radius);
    let shift = chunk_shift(radius);
    let chunk = containing_chunk(radius, cell);
    let center = chunk_center(radius, chunk);
    let d = cell.minus(center);
    assert(0 < area) by (nonlinear_arith)
        requires
            0 <= radius,
            area == 3 * radius * radius + 3 * radius + 1,
    ;
    let x_rest = d.r + shift * d.q;
    let y_rest = d.s() + shift * d.r;
    let z_rest = d.q + shift * d.s();
    let ex = x_rest / area;
    let ey = y_rest / area;
    let ez = z_rest / area;
    lemma_sums_at_center(radius, chunk);
    lemma_quotient_splits(radius, center.r, center.q, 2 * chunk.q + chunk.r, d.r, d.q);
    lemma_quotient_splits(radius, center.s(), center.r, chunk.r - chunk.q, d.s(), d.r);
    lemma_quotient_splits(radius, center.q, center.s(), -(chunk.q + 2 * chunk.r), d.q, d.s());
    assert(center.r + d.r == cell.r && center.q + d.q == cell.q && center.s() + d.s() == cell.s());
    let xh = (cell.r + shift * cell.q) / area;
    let yh = (cell.s() + shift * cell.r) / area;
    let zh = (cell.q + shift * cell.s()) / area;
    assert(xh == 2 * chunk.q + chunk.r + ex);
    assert(yh == chunk.r - chunk.q + ey);
    assert(zh == -(chunk.q + 2 * chunk.r) + ez);
    // The chunk was computed from these quotients, which bounds the
    // differences between the three quotients of the offset.
    assert(chunk.q == (1 + xh - yh) / 3 && chunk.r == (1 + yh - zh) / 3);
    assert(-1 <= ex - ey <= 1 && -1 <= ey - ez <= 1);
    assert(x_rest + y_rest + z_rest == 0) by (nonlinear_arith)
        requires
            x_rest == d.r + shift * d.q,
            y_rest == d.s() + shift * d.r,
            z_rest == d.q + shift * d.s(),
            d.s() == -(d.q + d.r),
    ;
    lemma_quotients_of_zero_sum(area, x_rest, y_rest, z_rest);
    if ex == 1 && ey == 0 && ez == -1 {
        assert(x_rest == area && y_rest == 0) by (nonlinear_arith)
            requires
                area * ex <= x_rest,
                area * ey <= y_rest,
                area * ez <= z_rest,
                x_rest + y_rest + z_rest == 0,
                ex == 1 && ey == 0 && ez == -1,
        ;
        lemma_sums_are_not_extreme(radius, d.q, d.r, d.s());
    } else if ex == -1 && ey == 0 && ez == 1 {
        assert(x_rest == -area && y_rest == 0) by (nonlinear_arith)
            requires
                area * ex <= x_rest,
                area * ey <= y_rest,
                area * ez <= z_rest,
                x_rest + y_rest + z_rest == 0,
                ex == -1 && ey == 0 && ez == 1,
        ;
        lemma_sums_are_not_extreme(radius, d.q, d.r, d.s());
    } else {
        assert(-1 <= ex <= 0 && -1 <= ey <= 0 && -1 <= ez <= 0);
        assert(-area <= x_rest < area && -area <= y_rest < area && -area <= z_rest < area)
            by (nonlinear_arith)
            requires
                0 < area,
                -1 <= ex <= 0 && -1 <= ey <= 0 && -1 <= ez <= 0,
                area * ex <= x_rest < area * ex + area,
                area * ey <= y_rest < area * ey + area,
                area * ez <= z_rest < area * ez + area,
        ;
        lemma_offset_is_small(radius, d.q, d.r, d.s());
        lemma_offset_is_small(radius, d.r, d.s(), d.q);
        lemma_offset_is_small(radius, d.s(), d.q, d.r);
        lemma_distance_is_largest_coordinate(cell, center);
    }
}

/// The coordinate of a chunk, recovered from its center.
proof fn lemma_chunk_from_center(radius: int, chunk: Axial)
    ensures
        ({
            let center = chunk_center(radius, chunk);
            &&& chunk_area(radius) * chunk.q == (radius + 1) * center.q - radius * center.r
            &&& chunk_area(radius) * chunk.r == radius * center.q + (2 * radius + 1) * center.r
        }),
{
    let a = chunk.q;
    let b = chunk.r;
    let area = chunk_area(radius);
    let cq = (2 * radius + 1) * a + radius * b;
    let cr = (radius + 1) * b - radius * a;
    assert(area * a == (radius + 1) * cq - radius * cr) by (nonlinear_arith)
        requires
            area == 3 * radius * radius + 3 * radius + 1,
            cq == (2 * radius + 1) * a + radius * b,
            cr == (radius + 1) * b - radius * a,
    ;
    assert(area * b == radius * cq + (2 * radius + 1) * cr) by (nonlinear_arith)
        requires
            area == 3 * radius * radius + 3 * radius + 1,
            cq == (2 * radius + 1) * a + radius * b,
            cr == (radius + 1) * b - radius * a,
    ;
}

/// A whole number whose product with the area lies strictly between the
/// products of the area with two bounds lies between those bounds.
proof fn lemma_cancel_area(area: int, x: int, low: int, high: int)
    by (nonlinear_arith)
    requires
        0 < area,
        area * low - area < area * x < area * high + area,
    ensures
        low <= x <= high,
{
}

/// The chunk that holds a cell with `i32` coordinates has `i32` coordinates
/// as well: chunks are no finer than cells.
pub proof fn lemma_containing_chunk_fits(radius: int, cell: Axial)
    requires
        0 <= radius,
        cell.fits(),
    ensures
        containing_chunk(radius, cell).fits(),
{
    let area = chunk_area(radius);
    let chunk = containing_chunk(radius, cell);
    let center = chunk_center(radius, chunk);
    let low = i32::MIN as int;
    let high = i32::MAX as int;
    lemma_cell_is_near_its_center(radius, cell);
    lemma_distance_is_largest_coordinate(cell, center);
    lemma_chunk_from_center(radius, chunk);
    let cq = center.q;
    let cr = center.r;
    assert(low - radius <= cq <= high + radius && low - radius <= cr <= high + radius);
    assert(0 < area) by (nonlinear_arith)
        requires
            0 <= radius,
            area == 3 * radius * radius + 3 * radius + 1,
    ;
    assert(area * low - area < (radius + 1) * cq - radius * cr < area * high + area)
        by (nonlinear_arith)
        requires
            0 <= radius,
            area == 3 * radius * radius + 3 * radius + 1,
            low == -0x8000_0000,
            high == 0x7fff_ffff,
            low - radius <= cq <= high + radius,
            low - radius <= cr <= high + radius,
    ;
    assert(area * low - area < radius * cq + (2 * radius + 1) * cr < area * high + area)
        by (nonlinear_arith)
        requires
            0 <= radius,
            area == 3 * radius * radius + 3 * radius + 1,
            low == -0x8000_0000,
            high == 0x7fff_ffff,
            low - radius <= cq <= high + radius,
            low - radius <= cr <= high + radius,
    ;
    lemma_cancel_area(area, chunk.q, low, high);
    lemma_cancel_area(area, chunk.r, low, high);
}

/// The chunk that holds a cell is the only chunk whose center lies within the
/// radius of that cell.
pub proof fn lemma_chunks_partition_the_grid(radius: int, chunk: Axial, cell: Axial)
    requires
        0 <= radius,
    ensures
        containing_chunk(radius, cell) == chunk <==> cell.distance(chunk_center(radius, chunk))
            <= radius,
{
    if cell.distance(chunk_center(radius, chunk)) <= radius {
        lemma_chunk_holds_its_disk(radius, chunk, cell);
    }
    lemma_cell_is_near_its_center(radius, cell);
}

/// The center of a chunk lies in that chunk.
pub proof fn lemma_center_lies_in_its_chunk(radius: int, chunk: Axial)
    requires
        0 <= radius,
    ensures
        containing_chunk(radius, chunk_center(radius, chunk)) == chunk,
{
    lemma_chunk_holds_its_disk(radius, chunk, chunk_center(radius, chunk));
}

/// A product is no larger than the product of the bounds of its factors.
proof fn lemma_product_bound(a: int, b: int, a_bound: int, b_bound: int)
    by (nonlinear_arith)
    requires
        -a_bound <= a <= a_bound,
        -b_bound <= b <= b_bound,
    ensures
        -(a_bound * b_bound) <= a * b <= a_bound * b_bound,
{
}

/// Dividing by a positive divisor, rounding down, does not lead out of
/// bounds that have zero between them.
proof fn lemma_quotient_bound(x: int, d: int, low: int, high: int)
    requires
        d > 0,
        low <= 0 <= high,
        low <= x <= high,
    ensures
        low <= x / d <= high,
{
    lemma_fundamental_div_mod(x, d);
    lemma_mod_bound(x, d);
    assert(low <= x / d <= high) by (nonlinear_arith)
        requires
            d > 0,
            low <= 0 <= high,
            low <= x <= high,
            x == d * (x / d) + (x % d),
            0 <= (x % d) < d,
    ;
}

} // verus!
