use sturdy_hex::hex_field::{Handedness, HexOrientation};

#[test]
fn orientation_and_handedness_can_be_told_apart() {
    assert!(matches!(HexOrientation::FlatTop, HexOrientation::FlatTop));
    assert!(!matches!(HexOrientation::FlatTop, HexOrientation::PointyTop));
    assert!(matches!(Handedness::LeftHanded, Handedness::LeftHanded));
    assert!(!matches!(Handedness::RightHanded, Handedness::LeftHanded));
}
