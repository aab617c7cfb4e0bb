use vstd::prelude::*;

verus! {

/// Which way the hexes of a grid are turned: with an edge or with a corner
/// at the top.
pub enum HexOrientation {
    FlatTop,
    PointyTop,
}

/// The handedness of a coordinate system in which a grid is laid out.
pub enum Handedness {
    LeftHanded,
    RightHanded,
}

} // verus!
