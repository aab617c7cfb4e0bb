//! A geometric kernel for hexagonal grids: integer coordinates for cells,
//! their vertices and their edges, rigid transforms, shapes and views of
//! shapes, sparse storage by cell, and a tiling of the grid by hexagonal
//! chunks.
//!
//! The executable types are viewed as points, edges and motions over the
//! unbounded integers; the contracts and the laws of the grid are stated over
//! those.

pub mod axial;
pub mod hex_coord;
pub mod hex_half_edge;
pub mod hex_vertex;

pub mod hex_range_iterator;
pub mod hex_shape;
pub mod hex_transform;

pub mod hex_chunker;
pub mod hex_data;
pub mod hex_field;

pub use axial::Axial;
pub use hex_coord::HexCoord;
pub use hex_half_edge::{AxialEdge, HexHalfEdge};
pub use hex_vertex::HexVertex;

pub use hex_range_iterator::HexRangeIterator;
pub use hex_shape::{HexShape, HexShapeView};
pub use hex_transform::{HexTransform, Rigid};

pub use hex_chunker::HexChunker;
pub use hex_data::{HashMapHexData, HexData};
