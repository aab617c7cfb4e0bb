use sturdy_hex::{HexCoord, HexHalfEdge, HexVertex};

fn cells_with_edges() -> [HexCoord; 5] {
    [
        HexCoord::new(0, 0),
        HexCoord::new(2, -3),
        HexCoord::new(-4, 1),
        HexCoord::new(-1, -1),
        HexCoord::new(1000, -2000),
    ]
}

#[test]
fn edge_accessors() {
    let e = HexHalfEdge::new(HexVertex::new(8, -10), HexVertex::new(7, -8));
    assert_eq!(e.source(), HexVertex::new(8, -10));
    assert_eq!(e.destination(), HexVertex::new(7, -8));
}

#[test]
fn every_edge_of_a_cell_reports_that_cell() {
    for c in cells_with_edges() {
        for i in 0..6 {
            assert_eq!(c.get_half_edge(i).hex(), c);
        }
    }
}

#[test]
fn edges_walk_reports_the_cell() {
    for c in cells_with_edges() {
        let mut walk = c.edges();
        let mut count = 0;
        while let Some(e) = walk.next() {
            assert_eq!(e.hex(), c);
            count += 1;
        }
        assert_eq!(count, 6);
    }
}

#[test]
fn twin_borders_the_neighbor_across_the_edge() {
    let c = HexCoord::new(2, -3);
    let expected = [(3, -3), (2, -2), (1, -2), (1, -3), (2, -4), (3, -4)];
    for i in 0..6 {
        let twin = c.get_half_edge(i as i32).twin();
        assert_eq!(twin.hex(), HexCoord::new(expected[i].0, expected[i].1));
        assert_eq!(HexCoord::hex_distance(twin.hex(), c), 1);
    }
}

#[test]
fn twin_of_twin_is_the_edge() {
    for c in cells_with_edges() {
        for i in 0..6 {
            let e = c.get_half_edge(i);
            assert_eq!(e.twin().twin(), e);
            assert_eq!(e.twin().source(), e.destination());
            assert_eq!(e.twin().destination(), e.source());
        }
    }
}

#[test]
fn next_and_prev_values() {
    let e = HexHalfEdge::new(HexVertex::new(8, -10), HexVertex::new(7, -8));
    assert_eq!(e.next(), HexHalfEdge::new(HexVertex::new(7, -8), HexVertex::new(5, -7)));
    assert_eq!(e.prev(), HexHalfEdge::new(HexVertex::new(7, -11), HexVertex::new(8, -10)));
}

#[test]
fn next_and_prev_undo_each_other() {
    for c in cells_with_edges() {
        for i in 0..6 {
            let e = c.get_half_edge(i);
            assert_eq!(e.next().prev(), e);
            assert_eq!(e.prev().next(), e);
        }
    }
    let odd = HexHalfEdge::new(HexVertex::new(5, 9), HexVertex::new(-20, 3));
    assert_eq!(odd.next().prev(), odd);
    assert_eq!(odd.prev().next(), odd);
}

#[test]
fn next_and_prev_follow_the_boundary() {
    for c in cells_with_edges() {
        for i in 0..6 {
            let e = c.get_half_edge(i);
            assert_eq!(e.next(), c.get_half_edge(i + 1));
            assert_eq!(e.prev(), c.get_half_edge(i - 1));
            assert_eq!(e.next().hex(), c);
            assert_eq!(e.prev().hex(), c);
        }
    }
}

#[test]
fn six_steps_go_around_the_cell() {
    let c = HexCoord::new(-4, 1);
    let start = c.get_half_edge(2);
    let mut e = start;
    for _ in 0..6 {
        e = e.next();
    }
    assert_eq!(e, start);
}

#[test]
fn hex_of_an_edge_between_arbitrary_points_rounds_toward_zero() {
    // source (0, 0), destination (1, 0): the center is (0, 1) on the finer lattice.
    assert_eq!(HexHalfEdge::new(HexVertex::new(0, 0), HexVertex::new(1, 0)).hex(), HexCoord::new(0, 0));
    // source (0, 0), destination (0, 5): the center is (-5, 5).
    assert_eq!(HexHalfEdge::new(HexVertex::new(0, 0), HexVertex::new(0, 5)).hex(), HexCoord::new(-1, 1));
    // source (0, 0), destination (0, -5): the center is (5, -5).
    assert_eq!(HexHalfEdge::new(HexVertex::new(0, 0), HexVertex::new(0, -5)).hex(), HexCoord::new(1, -1));
}

#[test]
fn hex_of_extreme_edges_does_not_overflow() {
    let e = HexHalfEdge::new(HexVertex::new(i32::MAX, i32::MAX), HexVertex::new(i32::MIN, i32::MIN));
    // displacement (-(2^32 - 1), -(2^32 - 1)); center (MAX + 2^32 - 1, MAX - 2 (2^32 - 1)).
    let center_q = i32::MAX as i64 + 4294967295;
    let center_r = i32::MAX as i64 - 2 * 4294967295;
    assert_eq!(e.hex(), HexCoord::new((center_q / 3) as i32, (center_r / 3) as i32));
}

#[test]
fn translate_moves_both_ends() {
    let c = HexCoord::new(2, -3);
    let by = HexCoord::new(-5, 4);
    for i in 0..6 {
        let moved = c.get_half_edge(i).translate(&by);
        assert_eq!(moved, (c + by).get_half_edge(i));
        assert_eq!(moved.hex(), c + by);
    }
}
