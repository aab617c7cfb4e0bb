use sturdy_hex::{HexChunker, HexCoord, HexRangeIterator, HexTransform};

#[test]
fn chunk_center_of_the_first_neighbor() {
    let chunker = HexChunker::new(1);
    assert_eq!(chunker.get_chunk_center(HexCoord::new(1, 0)), HexCoord::new(3, -1));
}

#[test]
fn chunk_center_values() {
    let one = HexChunker::new(1);
    assert_eq!(one.get_chunk_center(HexCoord::new(0, 0)), HexCoord::new(0, 0));
    assert_eq!(one.get_chunk_center(HexCoord::new(0, 1)), HexCoord::new(1, 2));
    assert_eq!(one.get_chunk_center(HexCoord::new(-1, 2)), HexCoord::new(-1, 5));
    let two = HexChunker::new(2);
    assert_eq!(two.get_chunk_center(HexCoord::new(1, 0)), HexCoord::new(5, -2));
    assert_eq!(two.get_chunk_center(HexCoord::new(-3, 2)), HexCoord::new(-11, 12));
    let three = HexChunker::new(3);
    assert_eq!(three.get_chunk_center(HexCoord::new(2, -5)), HexCoord::new(-1, -26));
}

#[test]
fn containing_chunk_values() {
    let one = HexChunker::new(1);
    assert_eq!(one.get_containing_chunk(HexCoord::new(2, 0)), HexCoord::new(1, 0));
    assert_eq!(one.get_containing_chunk(HexCoord::new(1, 1)), HexCoord::new(0, 1));
    assert_eq!(one.get_containing_chunk(HexCoord::new(-2, -1)), HexCoord::new(0, -1));
    assert_eq!(one.get_containing_chunk(HexCoord::new(100, -37)), HexCoord::new(34, -2));
    let two = HexChunker::new(2);
    assert_eq!(two.get_containing_chunk(HexCoord::new(5, -4)), HexCoord::new(1, 0));
    assert_eq!(two.get_containing_chunk(HexCoord::new(-1000, 999)), HexCoord::new(-263, 158));
    let three = HexChunker::new(3);
    assert_eq!(three.get_containing_chunk(HexCoord::new(-10, 4)), HexCoord::new(-1, 0));
}

#[test]
fn radius_zero_makes_every_cell_its_own_chunk() {
    let chunker = HexChunker::new(0);
    for c in [HexCoord::new(0, 0), HexCoord::new(7, -3), HexCoord::new(-12, -30)] {
        assert_eq!(chunker.get_chunk_center(c), c);
        assert_eq!(chunker.get_containing_chunk(c), c);
    }
}

#[test]
fn center_of_a_chunk_lies_in_that_chunk() {
    let chunker = HexChunker::new(1);
    let mut rings = HexRangeIterator::new(3, HexTransform::identity());
    let mut count = 0;
    while let Some(chunk) = rings.next() {
        assert_eq!(chunker.get_containing_chunk(chunker.get_chunk_center(chunk)), chunk);
        count += 1;
    }
    assert_eq!(count, 37);
}

#[test]
fn every_cell_around_a_center_lies_in_that_chunk() {
    for radius in 0..5u32 {
        let chunker = HexChunker::new(radius);
        let mut chunks = HexRangeIterator::new(2, HexTransform::from_translation(HexCoord::new(-4, 9)));
        while let Some(chunk) = chunks.next() {
            let center = chunker.get_chunk_center(chunk);
            let mut cells = HexRangeIterator::new(radius, HexTransform::from_translation(center));
            let mut count = 0;
            while let Some(cell) = cells.next() {
                assert_eq!(chunker.get_containing_chunk(cell), chunk);
                count += 1;
            }
            assert_eq!(count, 3 * radius * radius + 3 * radius + 1);
        }
    }
}

#[test]
fn every_cell_is_near_the_center_of_its_chunk() {
    for radius in 0..5u32 {
        let chunker = HexChunker::new(radius);
        let mut cells = HexRangeIterator::new(12, HexTransform::from_translation(HexCoord::new(30, -70)));
        while let Some(cell) = cells.next() {
            let center = chunker.get_chunk_center(chunker.get_containing_chunk(cell));
            assert!(HexCoord::hex_distance(cell, center) <= radius as i32);
        }
    }
}

#[test]
fn chunks_of_a_large_radius() {
    let chunker = HexChunker::new(26754);
    assert_eq!(chunker.get_chunk_center(HexCoord::new(1, 0)), HexCoord::new(53509, -26754));
    assert_eq!(chunker.get_containing_chunk(HexCoord::new(53509, -26754)), HexCoord::new(1, 0));
    assert_eq!(chunker.get_containing_chunk(HexCoord::new(26754, 0)), HexCoord::new(0, 0));
    assert_eq!(chunker.get_containing_chunk(HexCoord::new(26755, 0)), HexCoord::new(1, 0));
    let wider = HexChunker::new(100000);
    assert_eq!(wider.get_chunk_center(HexCoord::new(1, 0)), HexCoord::new(200001, -100000));
    assert_eq!(wider.get_chunk_center(HexCoord::new(-3, 2)), HexCoord::new(-400003, 500002));
    assert_eq!(wider.get_containing_chunk(HexCoord::new(100000, 0)), HexCoord::new(0, 0));
    assert_eq!(wider.get_containing_chunk(HexCoord::new(100001, 0)), HexCoord::new(1, 0));
    assert_eq!(
        wider.get_containing_chunk(HexCoord::new(123456789, -987654321)),
        HexCoord::new(3704, -6173)
    );
}

#[test]
fn chunks_at_the_edge_of_the_i32_range() {
    let one = HexChunker::new(1);
    // The center of this chunk lies one step outside the range of an i32.
    assert_eq!(
        one.get_containing_chunk(HexCoord::new(i32::MAX, i32::MIN)),
        HexCoord::new(920350135, -613566757)
    );
    let wide = HexChunker::new(26754);
    assert_eq!(wide.get_containing_chunk(HexCoord::new(i32::MAX, i32::MAX)), HexCoord::new(1, 80266));
    assert_eq!(wide.get_containing_chunk(HexCoord::new(i32::MIN, i32::MIN)), HexCoord::new(-1, -80266));
    assert_eq!(
        wide.get_containing_chunk(HexCoord::new(i32::MAX, i32::MIN)),
        HexCoord::new(53511, -26756)
    );
    let widest = HexChunker::new(u32::MAX);
    assert_eq!(widest.get_containing_chunk(HexCoord::new(i32::MAX, i32::MAX)), HexCoord::new(0, 0));
    assert_eq!(widest.get_containing_chunk(HexCoord::new(i32::MIN, i32::MIN)), HexCoord::new(0, -1));
    assert_eq!(widest.get_containing_chunk(HexCoord::new(i32::MAX, i32::MIN)), HexCoord::new(0, 0));
    assert_eq!(widest.get_chunk_center(HexCoord::new(0, 0)), HexCoord::new(0, 0));
}
