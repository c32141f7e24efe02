//! Positions on the hex lattice.

use crate::error::HexGridError;
use crate::validate::{check_snapping, snapped};
use crate::walkdirection::WalkDirection;
use vstd::prelude::*;

verus! {

/// An axial position. Only pairs with an even component sum are lattice points.
#[derive(Eq, PartialEq, Hash, Copy, Clone, Debug, Structural)]
pub struct HexCoord {
    pub x: isize,
    pub y: isize,
}

impl HexCoord {
    /// Whether this position is a lattice point.
    pub open spec fn on_lattice(self) -> bool {
        snapped(self.x as int, self.y as int)
    }

    /// The `x` component reached after `distance` steps in `direction`.
    pub open spec fn walk_x(self, direction: WalkDirection, distance: nat) -> int {
        self.x + direction.dx() * distance
    }

    /// The `y` component reached after `distance` steps in `direction`.
    pub open spec fn walk_y(self, direction: WalkDirection, distance: nat) -> int {
        self.y + direction.dy() * distance
    }

    /// Whether the position `distance` steps away in `direction` has machine-sized components.
    pub open spec fn can_walk(self, direction: WalkDirection, distance: nat) -> bool {
        &&& isize::MIN <= self.walk_x(direction, distance) <= isize::MAX
        &&& isize::MIN <= self.walk_y(direction, distance) <= isize::MAX
    }

    /// The position `distance` steps away in `direction`.
    pub open spec fn walked(self, direction: WalkDirection, distance: nat) -> HexCoord {
        HexCoord {
            x: self.walk_x(direction, distance) as isize,
            y: self.walk_y(direction, distance) as isize,
        }
    }

    /// Builds the position `(x, y)` if it is a lattice point, and reports the pair otherwise.
    pub fn new(x: isize, y: isize) -> (made: Result<Self, HexGridError>)
        ensures
            snapped(x as int, y as int) ==> made == Ok::<HexCoord, HexGridError>(HexCoord { x, y }),
            !snapped(x as int, y as int) ==> made == Err::<HexCoord, HexGridError>(
                HexGridError::NotSnappedToGrid(HexCoord { x, y }),
            ),
    {
        if !check_snapping(x, y) {
            return Err(HexGridError::NotSnappedToGrid(HexCoord { x, y }));
        }
        Ok(HexCoord { x, y })
    }

    /// Moves `distance` whole steps in `direction`.
    pub fn walk(&self, direction: &WalkDirection, distance: usize) -> (reached: Self)
        requires
            self.can_walk(*direction, distance as nat),
        ensures
            reached == self.walked(*direction, distance as nat),
            reached.x == self.walk_x(*direction, distance as nat),
            reached.y == self.walk_y(*direction, distance as nat),
            self.on_lattice() ==> reached.on_lattice(),
    {
        let x: i128 = self.x as i128;
        let y: i128 = self.y as i128;
        let d: i128 = distance as i128;
        match direction {
            WalkDirection::Up => HexCoord { x: self.x, y: (y + d * 2) as isize },
            WalkDirection::UpRight => HexCoord { x: (x + d) as isize, y: (y + d) as isize },
            WalkDirection::DownRight => HexCoord { x: (x + d) as isize, y: (y - d) as isize },
            WalkDirection::Down => HexCoord { x: self.x, y: (y - d * 2) as isize },
            WalkDirection::DownLeft => HexCoord { x: (x - d) as isize, y: (y - d) as isize },
            WalkDirection::UpLeft => HexCoord { x: (x - d) as isize, y: (y + d) as isize },
        }
    }
}

/// Walking any number of steps from a lattice point ends on a lattice point.
pub proof fn lemma_walk_stays_on_lattice(start: HexCoord, direction: WalkDirection, distance: nat)
    requires
        start.on_lattice(),
    ensures
        snapped(start.walk_x(direction, distance), start.walk_y(direction, distance)),
{
}

} // verus!
