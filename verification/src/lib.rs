//! Dense storage and indexing for bounded hexagonal grids: cube coordinates,
//! closed-form bijections between coordinates and array slots for hexagon- and
//! rectangle-shaped regions, and a flat map with wraparound-aware
//! neighbourhood queries.

pub mod edge;
pub mod flat_map;
pub mod hex_coord;
pub mod hexagon;
pub mod map_index;
pub mod neighbourhood;
pub mod orientation;
pub mod rectangle;
pub mod world;

pub use crate::edge::Edge;
pub use crate::flat_map::CellBucket;
pub use crate::flat_map::FlatMap;
pub use crate::hex_coord::HexCoord;
pub use crate::neighbourhood::Neighbourhood;
pub use crate::neighbourhood::NeighbourhoodNode;
pub use crate::hexagon::HexagonIndexer;
pub use crate::map_index::Indexer;
pub use crate::map_index::MapIndex;
pub use crate::orientation::HexOrientation;
pub use crate::rectangle::RectangleIndexer;
pub use crate::world::HexWorld;
pub use crate::world::HexWorldShape;
