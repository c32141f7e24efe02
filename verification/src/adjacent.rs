//! The positions around a centre: its six neighbours, and the six axis points of a ring.

use crate::coord::{lemma_walk_stays_on_lattice, HexCoord};
use crate::walkdirection::WalkDirection;
use vstd::prelude::*;

verus! {

/// The six positions `radius` steps from `center`, one per direction, in listing order.
pub open spec fn ring(center: HexCoord, radius: nat) -> Seq<HexCoord> {
    Seq::new(6, |i: int| center.walked(WalkDirection::listing()[i], radius))
}

/// Whether all six positions of the ring of `radius` around `center` have machine-sized
/// components.
pub open spec fn ring_fits(center: HexCoord, radius: nat) -> bool {
    &&& isize::MIN <= center.x - radius
    &&& center.x + radius <= isize::MAX
    &&& isize::MIN <= center.y - 2 * radius
    &&& center.y + 2 * radius <= isize::MAX
}

/// A ring fits exactly when a walk of its radius is possible in every direction.
pub proof fn lemma_ring_fits_every_walk(center: HexCoord, radius: nat)
    ensures
        ring_fits(center, radius) <==> forall|d: WalkDirection| center.can_walk(d, radius),
{
    if forall|d: WalkDirection| center.can_walk(d, radius) {
        assert(center.can_walk(WalkDirection::Up, radius));
        assert(center.can_walk(WalkDirection::Down, radius));
        assert(center.can_walk(WalkDirection::UpRight, radius));
        assert(center.can_walk(WalkDirection::DownLeft, radius));
    }
}

/// Where a ring fits, every ring of a smaller radius around the same centre fits too.
pub proof fn lemma_ring_fits_inward(center: HexCoord, inner: nat, outer: nat)
    requires
        inner <= outer,
        ring_fits(center, outer),
    ensures
        ring_fits(center, inner),
{
}

/// Every position of a ring around a lattice point is a lattice point.
pub proof fn lemma_ring_on_lattice(center: HexCoord, radius: nat)
    requires
        center.on_lattice(),
        ring_fits(center, radius),
    ensures
        ring(center, radius).len() == 6,
        forall|i: int| 0 <= i < 6 ==> (#[trigger] ring(center, radius)[i]).on_lattice(),
{
    assert forall|i: int| 0 <= i < 6 implies (#[trigger] ring(center, radius)[i]).on_lattice() by {
        let d = WalkDirection::listing()[i];
        lemma_ring_fits_every_walk(center, radius);
        assert(center.can_walk(d, radius));
        lemma_walk_stays_on_lattice(center, d, radius);
    }
}

/// The six neighbours of `center`: up, up right, down right, down, down left, up left.
pub fn immediate_adjacent_coords(center: &HexCoord) -> (around: [HexCoord; 6])
    requires
        center.on_lattice(),
        ring_fits(*center, 1),
    ensures
        around@ == ring(*center, 1),
        forall|i: int| 0 <= i < 6 ==> (#[trigger] around@[i]).on_lattice(),
{
    let around = [
        HexCoord::new(center.x, center.y + 2).unwrap(),
        HexCoord::new(center.x + 1, center.y + 1).unwrap(),
        HexCoord::new(center.x + 1, center.y - 1).unwrap(),
        HexCoord::new(center.x, center.y - 2).unwrap(),
        HexCoord::new(center.x - 1, center.y - 1).unwrap(),
        HexCoord::new(center.x - 1, center.y + 1).unwrap(),
    ];
    assert(around@ =~= ring(*center, 1));
    around
}

/// The six positions reached by walking `resolution` steps from `center` in each direction.
pub fn adjacent_coords(center: &HexCoord, resolution: usize) -> (around: Vec<HexCoord>)
    requires
        ring_fits(*center, resolution as nat),
    ensures
        around@ == ring(*center, resolution as nat),
        center.on_lattice() ==> forall|i: int| 0 <= i < 6 ==> (#[trigger] around@[i]).on_lattice(),
{
    let all_d = WalkDirection::all_directions();
    let mut around: Vec<HexCoord> = Vec::new();
    for i in 0..6usize
        invariant
            ring_fits(*center, resolution as nat),
            all_d@ == WalkDirection::listing(),
            around@ == ring(*center, resolution as nat).take(i as int),
    {
        around.push(center.walk(&all_d[i], resolution));
    }
    around
}

} // verus!
