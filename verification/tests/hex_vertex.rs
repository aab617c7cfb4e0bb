use sturdy_hex::{HexCoord, HexHalfEdge, HexVertex};

#[test]
fn vertex_accessors() {
    let v = HexVertex::new(8, -10);
    assert_eq!(v.three_q(), 8);
    assert_eq!(v.three_r(), -10);
    assert_eq!(v.three_s(), 2);
}

#[test]
fn vertex_unit_coords_by_index() {
    let expected = [(2, -1), (1, 1), (-1, 2), (-2, 1), (-1, -1), (1, -2)];
    for i in 0..6 {
        assert_eq!(HexVertex::get_unit_coord(i as i32), HexVertex::new(expected[i].0, expected[i].1));
    }
    assert_eq!(HexVertex::get_unit_coord(6), HexVertex::new(2, -1));
    assert_eq!(HexVertex::get_unit_coord(-1), HexVertex::new(1, -2));
    assert_eq!(HexVertex::get_unit_coord(-7), HexVertex::new(1, -2));
}

#[test]
fn vertex_unit_coords_sum_zero() {
    let mut q = 0;
    let mut r = 0;
    for i in 0..6 {
        q += HexVertex::get_unit_coord(i).three_q();
        r += HexVertex::get_unit_coord(i).three_r();
    }
    assert_eq!((q, r), (0, 0));
}

#[test]
fn corners_alternate_between_the_two_bases() {
    for c in [HexCoord::new(0, 0), HexCoord::new(2, -3), HexCoord::new(-4, 1), HexCoord::new(-1, -1)] {
        for i in 0..6 {
            let v = c.get_vertex(i);
            assert_eq!(v.on_positive_basis(), i % 2 == 0);
            assert_eq!(v.on_negative_basis(), i % 2 == 1);
        }
    }
}

#[test]
fn centers_and_other_points_are_on_no_basis() {
    for v in [HexVertex::new(0, 0), HexVertex::new(3, -6), HexVertex::new(2, 1), HexVertex::new(-1, 1)] {
        assert!(!v.on_positive_basis());
        assert!(!v.on_negative_basis());
    }
    assert!(HexVertex::new(-1, -1).on_positive_basis());
    assert!(HexVertex::new(-2, -2).on_negative_basis());
    assert!(HexVertex::new(i32::MAX, i32::MAX).on_negative_basis());
    assert!(HexVertex::new(i32::MIN, i32::MIN).on_negative_basis());
}

#[test]
fn outgoing_edges_of_a_positive_vertex() {
    let v = HexVertex::new(8, -10);
    assert_eq!(v.get_outgoing_edge(0), HexHalfEdge::new(v, HexVertex::new(10, -11)));
    assert_eq!(v.get_outgoing_edge(1), HexHalfEdge::new(v, HexVertex::new(7, -8)));
    assert_eq!(v.get_outgoing_edge(2), HexHalfEdge::new(v, HexVertex::new(7, -11)));
    assert_eq!(v.get_outgoing_edge(3), v.get_outgoing_edge(0));
    assert_eq!(v.get_outgoing_edge(-1), v.get_outgoing_edge(2));
    assert_eq!(v.get_outgoing_edge(i32::MAX), v.get_outgoing_edge(1));
}

#[test]
fn outgoing_edges_of_a_negative_vertex() {
    let v = HexVertex::new(7, -8);
    assert_eq!(v.get_outgoing_edge(0), HexHalfEdge::new(v, HexVertex::new(8, -7)));
    assert_eq!(v.get_outgoing_edge(1), HexHalfEdge::new(v, HexVertex::new(5, -7)));
    assert_eq!(v.get_outgoing_edge(2), HexHalfEdge::new(v, HexVertex::new(8, -10)));
    assert_eq!(v.get_outgoing_edge(-1), v.get_outgoing_edge(2));
}

#[test]
fn outgoing_edges_lead_to_the_other_basis() {
    let c = HexCoord::new(-4, 1);
    for i in 0..6 {
        let v = c.get_vertex(i);
        for k in 0..3 {
            let e = v.get_outgoing_edge(k);
            assert_eq!(e.source(), v);
            assert_eq!(e.destination().on_positive_basis(), v.on_negative_basis());
            assert_eq!(e.destination().on_negative_basis(), v.on_positive_basis());
        }
    }
}

#[test]
fn incoming_edges_are_twins_of_outgoing_edges() {
    let v = HexVertex::new(8, -10);
    for k in -2..5 {
        let e = v.get_incoming_edge(k);
        assert_eq!(e, v.get_outgoing_edge(k).twin());
        assert_eq!(e.destination(), v);
    }
    assert_eq!(v.get_incoming_edge(1), HexHalfEdge::new(HexVertex::new(7, -8), v));
}

#[test]
fn translate_moves_by_three_times_the_cell() {
    let v = HexVertex::new(2, -1);
    assert_eq!(v.translate(&HexCoord::new(2, -3)), HexVertex::new(8, -10));
    assert_eq!(v.translate(&HexCoord::zero()), v);
    assert_eq!(v.translate(&HexCoord::new(-1, 0)), HexVertex::new(-1, -1));
}

#[test]
fn outgoing_edges_are_boundary_edges_of_the_cell_they_border() {
    for c in [HexCoord::new(0, 0), HexCoord::new(2, -3), HexCoord::new(-4, 1)] {
        for i in 0..6 {
            let v = c.get_vertex(i);
            let mut bordered = Vec::new();
            for k in 0..3 {
                let e = v.get_outgoing_edge(k);
                let cell = e.hex();
                assert!((0..6).any(|j| cell.get_half_edge(j) == e));
                assert_eq!(HexCoord::hex_distance(cell, c) <= 1, true);
                assert!(!bordered.contains(&cell));
                bordered.push(cell);
            }
            assert!(bordered.contains(&c));
        }
    }
}
