//! A payload pinned to a lattice position.

use crate::coord::HexCoord;
use vstd::prelude::*;

verus! {

/// What is stored at one position of a grid: the position itself and the caller's payload.
#[derive(Debug)]
pub struct HexCell {
    pub coord: HexCoord,
    pub data: String,
}

/// The mathematical content of a [`HexCell`]: its position and the characters of its payload.
pub struct HexCellView {
    pub coord: HexCoord,
    pub data: Seq<char>,
}

impl View for HexCell {
    type V = HexCellView;

    open spec fn view(&self) -> HexCellView {
        HexCellView { coord: self.coord, data: self.data@ }
    }
}

impl DeepView for HexCell {
    type V = HexCellView;

    open spec fn deep_view(&self) -> HexCellView {
        self@
    }
}

impl PartialEq for HexCell {
    /// Two cells are equal when they sit on the same position and carry the same payload.
    fn eq(&self, other: &Self) -> (same: bool) {
        self.coord == other.coord && self.data == other.data
    }
}

impl vstd::std_specs::cmp::PartialEqSpecImpl for HexCell {
    open spec fn obeys_eq_spec() -> bool {
        true
    }

    open spec fn eq_spec(&self, other: &Self) -> bool {
        self@ == other@
    }
}

impl Clone for HexCell {
    /// Copies the position and the payload.
    fn clone(&self) -> (copy: Self)
        ensures
            copy == *self,
    {
        HexCell { coord: self.coord, data: self.data.clone() }
    }
}

} // verus!
