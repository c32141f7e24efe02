//! A sparse map of payloads on a hexagonal lattice.
//!
//! Positions are pairs of integers whose sum is even, so that each of the six neighbours of a
//! position is one whole-number step away. A [`HexGrid`] holds at most one [`HexCell`] per
//! position and answers point lookups, the occupied neighbours of a position, and the occupied
//! axis points of the rings around it.

pub mod adjacent;
pub mod cell;
pub mod coord;
pub mod error;
pub mod grid;
pub mod validate;
pub mod walkdirection;

pub use adjacent::{adjacent_coords, immediate_adjacent_coords};
pub use cell::HexCell;
pub use coord::HexCoord;
pub use error::HexGridError;
pub use grid::HexGrid;
pub use validate::check_snapping;
pub use walkdirection::WalkDirection;
