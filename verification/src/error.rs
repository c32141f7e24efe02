//! The two ways a grid operation can be refused.

use crate::coord::HexCoord;
use vstd::prelude::*;

verus! {

/// Why an operation did not run. Both kinds report bad caller input; neither has a side effect.
#[derive(Debug, Clone, Copy, PartialEq, Eq, Structural)]
pub enum HexGridError {
    /// The requested pair of components is not a lattice point; the pair is carried along.
    NotSnappedToGrid(HexCoord),
    /// A disk was requested with resolution zero.
    ResolutionSetToZero,
}

} // verus!
