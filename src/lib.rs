//! Exact coordinate algebra for entities on a tile grid laid over a continuous
//! world, and a bisection search for the point where a path leaves a valid region.
//!
//! Every length is a fixed-point decimal: an integer count of ticks, where one
//! world unit is `TICKS_PER_UNIT` ticks. Arithmetic on positions is therefore
//! exact, and equality is plain field equality.

pub mod crossing;
pub mod position;
pub mod precision;
pub mod text;
pub mod world;

pub use crossing::{find_crossing, Bracket, Crossing, SearchReport, SearchStatus};
pub use position::{PositionError, SignedTilePosition, TilePosition};
pub use precision::{round, Precision, TICKS_PER_UNIT};
pub use world::WorldCoords;
