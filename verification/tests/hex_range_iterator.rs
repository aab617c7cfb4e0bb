use sturdy_hex::hex_range_iterator::{HexHalfEdgeIterator, HexVertexIterator};
use sturdy_hex::{HexCoord, HexRangeIterator, HexTransform};

fn drain(mut walk: HexRangeIterator) -> Vec<HexCoord> {
    let mut cells = Vec::new();
    while let Some(c) = walk.next() {
        cells.push(c);
    }
    assert_eq!(walk.next(), None);
    assert_eq!(walk.next(), None);
    cells
}

fn coords(pairs: &[(i32, i32)]) -> Vec<HexCoord> {
    pairs.iter().map(|p| HexCoord::new(p.0, p.1)).collect()
}

#[test]
fn range_zero_is_the_center_alone() {
    let cells = drain(HexRangeIterator::new(0, HexTransform::identity()));
    assert_eq!(cells, coords(&[(0, 0)]));
}

#[test]
fn range_one_in_row_order() {
    let cells = drain(HexRangeIterator::new(1, HexTransform::identity()));
    assert_eq!(cells, coords(&[(-1, 0), (-1, 1), (0, -1), (0, 0), (0, 1), (1, -1), (1, 0)]));
}

#[test]
fn range_two_in_row_order() {
    let cells = drain(HexRangeIterator::new(2, HexTransform::identity()));
    assert_eq!(
        cells,
        coords(&[
            (-2, 0),
            (-2, 1),
            (-2, 2),
            (-1, -1),
            (-1, 0),
            (-1, 1),
            (-1, 2),
            (0, -2),
            (0, -1),
            (0, 0),
            (0, 1),
            (0, 2),
            (1, -2),
            (1, -1),
            (1, 0),
            (1, 1),
            (2, -2),
            (2, -1),
            (2, 0),
        ])
    );
}

#[test]
fn range_under_a_transform() {
    let t = HexTransform::new(HexCoord::new(5, -2), 1);
    let cells = drain(HexRangeIterator::new(1, t));
    assert_eq!(cells, coords(&[(5, -3), (4, -2), (6, -3), (5, -2), (4, -1), (6, -2), (5, -1)]));
}

#[test]
fn range_holds_exactly_the_cells_within_reach() {
    for range in 0..6u32 {
        let center = HexCoord::new(-3, 8);
        let cells = drain(HexRangeIterator::new(range, HexTransform::from_translation(center)));
        assert_eq!(cells.len() as u32, 3 * range * range + 3 * range + 1);
        for (i, c) in cells.iter().enumerate() {
            assert!(HexCoord::hex_distance(*c, center) <= range as i32);
            assert!(!cells[..i].contains(c));
        }
    }
}

#[test]
fn range_at_the_edge_of_the_i32_range() {
    let center = HexCoord::new(i32::MAX - 1, i32::MIN + 1);
    let cells = drain(HexRangeIterator::new(1, HexTransform::new(center, 3)));
    assert_eq!(cells.len(), 7);
    assert_eq!(cells[0], HexCoord::new(i32::MAX, i32::MIN + 1));
    assert_eq!(cells[6], HexCoord::new(i32::MAX - 2, i32::MIN + 1));
}

#[test]
fn vertex_walk_hands_out_six_vertices_in_order() {
    let c = HexCoord::new(2, -3);
    let mut walk = c.vertices();
    for i in 0..6 {
        assert_eq!(walk.next(), Some(c.get_vertex(i)));
    }
    assert_eq!(walk.next(), None);
    assert_eq!(walk.next(), None);
    let mut again = HexVertexIterator::new(c);
    assert_eq!(again.next(), Some(c.get_vertex(0)));
}

#[test]
fn edge_walk_hands_out_six_edges_in_order() {
    let c = HexCoord::new(-4, 1);
    let mut walk = c.edges();
    for i in 0..6 {
        assert_eq!(walk.next(), Some(c.get_half_edge(i)));
    }
    assert_eq!(walk.next(), None);
    assert_eq!(walk.next(), None);
    let mut again = HexHalfEdgeIterator::new(c);
    assert_eq!(again.next(), Some(c.get_half_edge(0)));
}
