//! The lattice-membership rule shared by every component.

use vstd::prelude::*;

verus! {

/// A pair of integers lies on the hex lattice when the sum of its components is even.
pub open spec fn snapped(x: int, y: int) -> bool {
    (x + y) % 2 == 0
}

/// Decides lattice membership of `(x, y)` without ever forming the sum `x + y`.
pub fn check_snapping(x: isize, y: isize) -> (on_lattice: bool)
    ensures
        on_lattice == snapped(x as int, y as int),
{
    (x % 2 == 0) == (y % 2 == 0)
}

} // verus!
