use sturdy_hex::{HexCoord, HexTransform};

fn sample_transforms() -> [HexTransform; 6] {
    [
        HexTransform::identity(),
        HexTransform::new(HexCoord::new(2, -1), 2),
        HexTransform::new(HexCoord::new(-3, 4), 5),
        HexTransform::new(HexCoord::new(0, 0), -1),
        HexTransform::new(HexCoord::new(7, 7), 13),
        HexTransform::new(HexCoord::new(-100, 1), i32::MIN),
    ]
}

fn sample_cells() -> [HexCoord; 5] {
    [
        HexCoord::new(0, 0),
        HexCoord::new(1, 1),
        HexCoord::new(7, -9),
        HexCoord::new(-4, 0),
        HexCoord::new(-6, -6),
    ]
}

#[test]
fn constructors_and_accessors() {
    let t = HexTransform::new(HexCoord::new(2, -1), 8);
    assert_eq!(t.translation(), HexCoord::new(2, -1));
    assert_eq!(t.rotation(), 8);
    let moved = HexTransform::from_translation(HexCoord::new(5, 6));
    assert_eq!(moved.translation(), HexCoord::new(5, 6));
    assert_eq!(moved.rotation(), 0);
    let turned = HexTransform::from_rotation(-2);
    assert_eq!(turned.translation(), HexCoord::zero());
    assert_eq!(turned.rotation(), -2);
    assert_eq!(HexTransform::identity(), HexTransform::new(HexCoord::zero(), 0));
}

#[test]
fn apply_turns_and_then_moves() {
    let t = HexTransform::new(HexCoord::new(5, -2), 1);
    assert_eq!(t.apply_to(HexCoord::new(0, 0)), HexCoord::new(5, -2));
    assert_eq!(t.apply_to(HexCoord::new(1, 0)), HexCoord::new(5, -1));
    assert_eq!(t.apply_to(HexCoord::new(0, 1)), HexCoord::new(4, -1));
    assert_eq!(t.apply_to(HexCoord::new(-1, 0)), HexCoord::new(5, -3));
    assert_eq!(t * HexCoord::new(1, -1), HexCoord::new(6, -2));
}

#[test]
fn identity_moves_nothing() {
    for c in sample_cells() {
        assert_eq!(HexTransform::identity().apply_to(c), c);
    }
}

#[test]
fn composition_value() {
    let t1 = HexTransform::new(HexCoord::new(2, -1), 2);
    let t2 = HexTransform::new(HexCoord::new(-3, 4), 5);
    let both = t1 * t2;
    assert_eq!(both.translation(), HexCoord::new(1, -4));
    assert_eq!(both.rotation(), 1);
    assert_eq!(both.apply_to(HexCoord::new(1, 1)), HexCoord::new(0, -2));
}

#[test]
fn composition_applies_the_right_factor_first() {
    for t1 in sample_transforms() {
        for t2 in sample_transforms() {
            for c in sample_cells() {
                assert_eq!((t1 * t2).apply_to(c), t1.apply_to(t2.apply_to(c)));
            }
        }
    }
}

#[test]
fn composition_is_associative_but_does_not_commute() {
    for t1 in sample_transforms() {
        for t2 in sample_transforms() {
            for t3 in sample_transforms() {
                assert_eq!((t1 * t2) * t3, t1 * (t2 * t3));
            }
        }
    }
    let moved = HexTransform::from_translation(HexCoord::new(1, 0));
    let turned = HexTransform::from_rotation(1);
    assert_ne!(moved * turned, turned * moved);
}

#[test]
fn composed_rotation_is_reduced() {
    let a = HexTransform::from_rotation(4);
    let b = HexTransform::from_rotation(5);
    assert_eq!((a * b).rotation(), 3);
    assert_eq!((HexTransform::from_rotation(-1) * HexTransform::identity()).rotation(), 5);
    let extreme = HexTransform::from_rotation(i32::MAX) * HexTransform::from_rotation(i32::MAX);
    assert_eq!(extreme.rotation(), 2);
}

#[test]
fn inverse_value() {
    let t = HexTransform::new(HexCoord::new(2, -1), 2);
    let back = t.inverse();
    assert_eq!(back.translation(), HexCoord::new(1, 1));
    assert_eq!(back.rotation(), 4);
    assert_eq!(HexTransform::identity().inverse(), HexTransform::identity());
}

#[test]
fn inverse_undoes_the_transform() {
    for t in sample_transforms() {
        let back = t.inverse();
        for c in sample_cells() {
            assert_eq!(back.apply_to(t.apply_to(c)), c);
            assert_eq!(t.apply_to(back.apply_to(c)), c);
        }
        assert_eq!(back * t, HexTransform::identity());
        assert_eq!(t * back, HexTransform::identity());
    }
}

#[test]
fn transformed_applies_the_argument_last() {
    let t = HexTransform::new(HexCoord::new(2, -1), 2);
    let then = HexTransform::new(HexCoord::new(-3, 4), 5);
    assert_eq!(t.transformed(then), then * t);
    for c in sample_cells() {
        assert_eq!(t.transformed(then).apply_to(c), then.apply_to(t.apply_to(c)));
    }
}

#[test]
fn translated_and_rotated() {
    let t = HexTransform::new(HexCoord::new(2, -1), 2);
    let moved = t.translated(HexCoord::new(10, 20));
    assert_eq!(moved.translation(), HexCoord::new(12, 19));
    assert_eq!(moved.rotation(), 2);
    let turned = t.rotated(1);
    assert_eq!(turned.translation(), HexCoord::new(1, 1));
    assert_eq!(turned.rotation(), 3);
    for c in sample_cells() {
        assert_eq!(moved.apply_to(c), t.apply_to(c) + HexCoord::new(10, 20));
        assert_eq!(turned.apply_to(c), t.apply_to(c).rotate_around(HexCoord::zero(), 1));
    }
}

#[test]
fn assigning_operators() {
    let t = HexTransform::new(HexCoord::new(2, -1), 2);
    let then = HexTransform::new(HexCoord::new(-3, 4), 5);
    let mut chained = t;
    chained *= then;
    assert_eq!(chained, then * t);
    let mut c = HexCoord::new(1, 1);
    c *= t;
    assert_eq!(c, t.apply_to(HexCoord::new(1, 1)));
}

#[test]
fn transforms_keep_distances() {
    for t in sample_transforms() {
        for a in sample_cells() {
            for b in sample_cells() {
                assert_eq!(
                    HexCoord::hex_distance(t.apply_to(a), t.apply_to(b)),
                    HexCoord::hex_distance(a, b)
                );
            }
        }
    }
}
