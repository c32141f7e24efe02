//! The six axes of the hex lattice.

use vstd::prelude::*;

verus! {

/// One of the six directions in which a lattice point has a neighbour.
#[derive(Copy, Clone, Debug, PartialEq, Eq, Structural)]
pub enum WalkDirection {
    Up,
    UpRight,
    DownRight,
    Down,
    DownLeft,
    UpLeft,
}

impl WalkDirection {
    /// The change in `x` made by one step in this direction.
    pub open spec fn dx(self) -> int {
        match self {
            WalkDirection::Up => 0,
            WalkDirection::UpRight => 1,
            WalkDirection::DownRight => 1,
            WalkDirection::Down => 0,
            WalkDirection::DownLeft => -1,
            WalkDirection::UpLeft => -1,
        }
    }

    /// The change in `y` made by one step in this direction.
    pub open spec fn dy(self) -> int {
        match self {
            WalkDirection::Up => 2,
            WalkDirection::UpRight => 1,
            WalkDirection::DownRight => -1,
            WalkDirection::Down => -2,
            WalkDirection::DownLeft => -1,
            WalkDirection::UpLeft => 1,
        }
    }

    /// The six directions in their fixed listing order.
    pub open spec fn listing() -> Seq<WalkDirection> {
        seq![
            WalkDirection::Up,
            WalkDirection::UpRight,
            WalkDirection::DownRight,
            WalkDirection::Down,
            WalkDirection::DownLeft,
            WalkDirection::UpLeft,
        ]
    }

    /// Returns the six directions, clockwise from `Up`.
    pub fn all_directions() -> (dirs: [WalkDirection; 6])
        ensures
            dirs@ == Self::listing(),
    {
        let dirs = [
            WalkDirection::Up,
            WalkDirection::UpRight,
            WalkDirection::DownRight,
            WalkDirection::Down,
            WalkDirection::DownLeft,
            WalkDirection::UpLeft,
        ];
        assert(dirs@ =~= Self::listing());
        dirs
    }
}

} // verus!
