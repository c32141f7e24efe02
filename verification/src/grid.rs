//! The sparse container: at most one cell per lattice point.

use crate::adjacent::{
    adjacent_coords, immediate_adjacent_coords, lemma_ring_fits_inward, ring, ring_fits,
};
use crate::cell::{HexCell, HexCellView};
use crate::coord::HexCoord;
use crate::error::HexGridError;
use crate::validate::{check_snapping, snapped};
use std::collections::HashMap;
use vstd::prelude::*;
use vstd::relations::injective_on;
use vstd::set_lib::lemma_map_size;

verus! {

/// The content of a grid: the payload stored at each occupied position.
pub type GridContent = Map<HexCoord, Seq<char>>;

/// The cell that `content` holds at `coord`, if that position is occupied.
pub open spec fn cell_at(content: GridContent, coord: HexCoord) -> Option<HexCellView> {
    if content.contains_key(coord) {
        Some(HexCellView { coord, data: content[coord] })
    } else {
        None
    }
}

/// The cells that `content` holds at the positions `coords`, in the order of `coords`.
/// Unoccupied positions are skipped.
pub open spec fn occupied(content: GridContent, coords: Seq<HexCoord>) -> Seq<HexCellView> {
    coords.filter_map(|coord: HexCoord| cell_at(content, coord))
}

/// The occupied cells on the rings of radius 1 up to and including `outer` around `center`,
/// nearest ring first.
pub open spec fn rings_within(content: GridContent, center: HexCoord, outer: nat) -> Seq<
    HexCellView,
>
    decreases outer,
{
    if outer == 0 {
        Seq::empty()
    } else {
        rings_within(content, center, (outer - 1) as nat) + occupied(content, ring(center, outer))
    }
}

/// Looking one position further along `coords` adds that position's cell, if it has one.
pub proof fn lemma_occupied_step(content: GridContent, coords: Seq<HexCoord>, i: int)
    requires
        0 <= i < coords.len(),
    ensures
        occupied(content, coords.take(i + 1)) == occupied(content, coords.take(i)) + (match cell_at(
            content,
            coords[i],
        ) {
            Some(cell) => seq![cell],
            None => Seq::empty(),
        }),
{
    coords.lemma_filter_map_take_succ(|coord: HexCoord| cell_at(content, coord), i);
}

/// No more cells are found than positions are looked at, and each found cell sits on one of
/// those positions and carries what the content holds there.
pub proof fn lemma_occupied_from_content(content: GridContent, coords: Seq<HexCoord>)
    ensures
        occupied(content, coords).len() <= coords.len(),
        forall|j: int|
            0 <= j < occupied(content, coords).len() ==> {
                let cell = #[trigger] occupied(content, coords)[j];
                &&& coords.contains(cell.coord)
                &&& cell_at(content, cell.coord) == Some(cell)
            },
    decreases coords.len(),
{
    if coords.len() > 0 {
        let rest = coords.drop_last();
        lemma_occupied_from_content(content, rest);
        assert forall|j: int| 0 <= j < occupied(content, coords).len() implies {
            let cell = #[trigger] occupied(content, coords)[j];
            &&& coords.contains(cell.coord)
            &&& cell_at(content, cell.coord) == Some(cell)
        } by {
            let cell = occupied(content, coords)[j];
            if j < occupied(content, rest).len() {
                let earlier = occupied(content, rest)[j];
                assert(cell == earlier);
                let at = choose|at: int| 0 <= at < rest.len() && rest[at] == earlier.coord;
                assert(coords[at] == cell.coord);
            } else {
                assert(coords[coords.len() - 1] == coords.last());
            }
        }
    }
}

/// Storing a payload and then looking at the same position finds exactly that payload, and
/// every other position is as it was.
pub proof fn lemma_add_then_get(content: GridContent, coord: HexCoord, data: Seq<char>)
    ensures
        cell_at(content.insert(coord, data), coord) == Some(HexCellView { coord, data }),
        forall|other: HexCoord|
            other != coord ==> #[trigger] cell_at(content.insert(coord, data), other) == cell_at(
                content,
                other,
            ),
{
}

/// Storing at an occupied position replaces: the count stays. Storing at a free position adds
/// one to the count.
pub proof fn lemma_add_counts(content: GridContent, coord: HexCoord, data: Seq<char>)
    requires
        content.dom().finite(),
    ensures
        content.insert(coord, data).dom().finite(),
        cell_at(content, coord) is Some ==> content.insert(coord, data).len() == content.len(),
        cell_at(content, coord) is None ==> content.insert(coord, data).len() == content.len() + 1,
{
}

/// After a removal the position is free and every other position is as it was; removing from a
/// free position changes nothing.
pub proof fn lemma_remove_then_get(content: GridContent, coord: HexCoord)
    ensures
        cell_at(content.remove(coord), coord) is None,
        forall|other: HexCoord|
            other != coord ==> #[trigger] cell_at(content.remove(coord), other) == cell_at(
                content,
                other,
            ),
        cell_at(content, coord) is None ==> content.remove(coord) == content,
{
    if cell_at(content, coord) is None {
        assert(content.remove(coord) =~= content);
    }
}

/// Removing from an occupied position takes one from the count.
pub proof fn lemma_remove_counts(content: GridContent, coord: HexCoord)
    requires
        content.dom().finite(),
    ensures
        content.remove(coord).dom().finite(),
        cell_at(content, coord) is Some ==> content.remove(coord).len() == content.len() - 1,
        cell_at(content, coord) is None ==> content.remove(coord).len() == content.len(),
{
}

/// A second removal at the same position finds nothing and leaves the content as the first
/// removal left it.
pub proof fn lemma_remove_again(content: GridContent, coord: HexCoord)
    ensures
        cell_at(content.remove(coord), coord) is None,
        content.remove(coord).remove(coord) == content.remove(coord),
{
    assert(content.remove(coord).remove(coord) =~= content.remove(coord));
}

/// The rings within radius 1 are the occupied neighbours.
pub proof fn lemma_first_ring_is_neighbours(content: GridContent, center: HexCoord)
    ensures
        rings_within(content, center, 1) == occupied(content, ring(center, 1)),
{
    reveal_with_fuel(rings_within, 2);
    assert(rings_within(content, center, 1) =~= occupied(content, ring(center, 1)));
}

/// Each ring contributes at most six cells.
pub proof fn lemma_rings_within_len(content: GridContent, center: HexCoord, outer: nat)
    ensures
        rings_within(content, center, outer).len() <= 6 * outer,
    decreases outer,
{
    if outer > 0 {
        lemma_rings_within_len(content, center, (outer - 1) as nat);
        lemma_occupied_from_content(content, ring(center, outer));
    }
}

/// The number under which a position is filed: both components, shifted to be non-negative,
/// side by side.
spec fn slot(coord: HexCoord) -> u128 {
    ((coord.x - isize::MIN) * 0x1_0000_0000_0000_0000 + (coord.y - isize::MIN)) as u128
}

/// Every stored cell is filed under the slot of its own position, which is a lattice point.
spec fn filed_by_position(held: Map<u128, HexCell>) -> bool {
    forall|s: u128| #[trigger]
        held.contains_key(s) ==> slot(held[s].coord) == s && held[s].coord.on_lattice()
}

/// The content that a store of filed cells stands for.
spec fn content_of(held: Map<u128, HexCell>) -> GridContent {
    Map::new(
        |coord: HexCoord| held.contains_key(slot(coord)),
        |coord: HexCoord| held[slot(coord)].data@,
    )
}

/// Two positions with the same slot are the same position.
proof fn lemma_slot_injective(a: HexCoord, b: HexCoord)
    requires
        slot(a) == slot(b),
    ensures
        a == b,
{
}

/// A store holds as many cells as its content has occupied positions, all of them lattice
/// points.
proof fn lemma_content_matches_store(held: Map<u128, HexCell>)
    requires
        held.dom().finite(),
        filed_by_position(held),
    ensures
        content_of(held).dom().finite(),
        content_of(held).len() == held.len(),
        forall|coord: HexCoord| #[trigger] content_of(held).contains_key(coord) ==> coord.on_lattice(),
{
    let content = content_of(held);
    let position = |s: u128| held[s].coord;
    assert(injective_on(position, held.dom())) by {
        assert forall|s1: u128, s2: u128|
            held.dom().contains(s1) && held.dom().contains(s2) && position(s1) == position(
                s2,
            ) implies s1 == s2 by {
            assert(held.contains_key(s1) && held.contains_key(s2));
        }
    }
    assert forall|coord: HexCoord| #[trigger] content.contains_key(coord) implies held.dom().map(
        position,
    ).contains(coord) && coord.on_lattice() by {
        let s = slot(coord);
        assert(held.contains_key(s));
        lemma_slot_injective(position(s), coord);
        assert(held.dom().contains(s) && coord == position(s));
    }
    assert forall|coord: HexCoord|
        held.dom().map(position).contains(coord) implies content.dom().contains(coord) by {
        let s = choose|s: u128| held.dom().contains(s) && coord == position(s);
        assert(held.contains_key(s));
    }
    assert(held.dom().map(position) =~= content.dom());
    lemma_map_size(held.dom(), content.dom(), position);
}

/// Computes the slot of a position.
fn slot_of(coord: &HexCoord) -> (s: u128)
    ensures
        s == slot(*coord),
{
    let x: u128 = (coord.x as i128 - isize::MIN as i128) as u128;
    let y: u128 = (coord.y as i128 - isize::MIN as i128) as u128;
    x * 0x1_0000_0000_0000_0000 + y
}

/// A sparse map from lattice points to cells.
pub struct HexGrid {
    cells: HashMap<u128, HexCell>,
}

impl View for HexGrid {
    type V = GridContent;

    closed spec fn view(&self) -> GridContent {
        content_of(self.cells@)
    }
}

impl HexGrid {
    /// Holds of every grid: each cell is filed under its own position, and only lattice points
    /// are occupied.
    #[verifier::type_invariant]
    spec fn well_filed(self) -> bool {
        filed_by_position(self.cells@)
    }

    /// An empty grid.
    pub fn new() -> (grid: Self)
        ensures
            grid@ == GridContent::empty(),
    {
        let grid = HexGrid { cells: HashMap::<u128, HexCell>::new() };
        assert(grid@ =~= GridContent::empty());
        grid
    }

    /// The number of occupied positions.
    pub fn count_cells(&self) -> (count: usize)
        ensures
            self@.dom().finite(),
            count == self@.len(),
    {
        proof {
            use_type_invariant(self);
            lemma_content_matches_store(self.cells@);
        }
        self.cells.len()
    }

    /// The cell at `(x, y)`, if that position is occupied; refused if `(x, y)` is no lattice
    /// point.
    pub fn get_cell_at(&self, x: isize, y: isize) -> (found: Result<Option<HexCell>, HexGridError>)
        ensures
            snapped(x as int, y as int) ==> found is Ok && found->Ok_0.deep_view() == cell_at(
                self@,
                HexCoord { x, y },
            ),
            !snapped(x as int, y as int) ==> found == Err::<Option<HexCell>, HexGridError>(
                HexGridError::NotSnappedToGrid(HexCoord { x, y }),
            ),
    {
        if !check_snapping(x, y) {
            return Err(HexGridError::NotSnappedToGrid(HexCoord { x, y }));
        }
        Ok(self.get_cell(&HexCoord { x, y }))
    }

    /// Stores `data` at `(x, y)` and hands back the cell it replaces, if any; refused, with the
    /// grid untouched, if `(x, y)` is no lattice point.
    pub fn add_cell_at(&mut self, x: isize, y: isize, data: String) -> (prior: Result<
        Option<HexCell>,
        HexGridError,
    >)
        ensures
            snapped(x as int, y as int) ==> {
                &&& final(self)@ == old(self)@.insert(HexCoord { x, y }, data@)
                &&& prior is Ok
                &&& prior->Ok_0.deep_view() == cell_at(old(self)@, HexCoord { x, y })
                &&& final(self)@.len() == old(self)@.len() + (if prior->Ok_0 is Some {
                    0int
                } else {
                    1int
                })
            },
            !snapped(x as int, y as int) ==> {
                &&& final(self)@ == old(self)@
                &&& prior == Err::<Option<HexCell>, HexGridError>(
                    HexGridError::NotSnappedToGrid(HexCoord { x, y }),
                )
            },
    {
        if !check_snapping(x, y) {
            return Err(HexGridError::NotSnappedToGrid(HexCoord { x, y }));
        }
        let coord = HexCoord { x, y };
        Ok(self.add_cell(&coord, data))
    }

    /// Empties the position `(x, y)` and hands back the cell that was there, if any; refused,
    /// with the grid untouched, if `(x, y)` is no lattice point.
    pub fn remove_cell_at(&mut self, x: isize, y: isize) -> (prior: Result<
        Option<HexCell>,
        HexGridError,
    >)
        ensures
            snapped(x as int, y as int) ==> {
                &&& final(self)@ == old(self)@.remove(HexCoord { x, y })
                &&& prior is Ok
                &&& prior->Ok_0.deep_view() == cell_at(old(self)@, HexCoord { x, y })
                &&& final(self)@.len() == old(self)@.len() - (if prior->Ok_0 is Some {
                    1int
                } else {
                    0int
                })
            },
            !snapped(x as int, y as int) ==> {
                &&& final(self)@ == old(self)@
                &&& prior == Err::<Option<HexCell>, HexGridError>(
                    HexGridError::NotSnappedToGrid(HexCoord { x, y }),
                )
            },
    {
        if !check_snapping(x, y) {
            return Err(HexGridError::NotSnappedToGrid(HexCoord { x, y }));
        }
        Ok(self.remove_cell(&HexCoord { x, y }))
    }

    /// A copy of the cell at `coord`, if that position is occupied. Only lattice points are ever
    /// occupied.
    pub fn get_cell(&self, coord: &HexCoord) -> (found: Option<HexCell>)
        ensures
            found.deep_view() == cell_at(self@, *coord),
            found is Some ==> coord.on_lattice(),
    {
        proof {
            use_type_invariant(self);
            lemma_content_matches_store(self.cells@);
        }
        let s = slot_of(coord);
        match self.cells.get(&s) {
            Some(cell) => {
                proof {
                    lemma_slot_injective(cell.coord, *coord);
                }
                Some(cell.clone())
            },
            None => None,
        }
    }

    /// Stores `data` at `coord`, replacing what was there, and hands back the replaced cell.
    pub fn add_cell(&mut self, coord: &HexCoord, data: String) -> (prior: Option<HexCell>)
        requires
            coord.on_lattice(),
        ensures
            final(self)@ == old(self)@.insert(*coord, data@),
            prior.deep_view() == cell_at(old(self)@, *coord),
            final(self)@.len() == old(self)@.len() + (if prior is Some {
                0int
            } else {
                1int
            }),
    {
        proof {
            use_type_invariant(&*self);
            lemma_content_matches_store(self.cells@);
        }
        let s = slot_of(coord);
        // The store is taken out while it is changed, so that the grid is well filed at every
        // moment.
        let mut cells: HashMap<u128, HexCell> = HashMap::new();
        std::mem::swap(&mut self.cells, &mut cells);
        let prior = cells.insert(s, HexCell { coord: *coord, data });
        std::mem::swap(&mut self.cells, &mut cells);
        proof {
            assert forall|other: HexCoord| slot(other) == s implies other == *coord by {
                lemma_slot_injective(other, *coord);
            }
            assert(self@ =~= old(self)@.insert(*coord, data@));
        }
        prior
    }

    /// Empties the position `coord` and hands back the cell that was there, if any.
    pub fn remove_cell(&mut self, coord: &HexCoord) -> (prior: Option<HexCell>)
        ensures
            final(self)@ == old(self)@.remove(*coord),
            prior.deep_view() == cell_at(old(self)@, *coord),
            final(self)@.len() == old(self)@.len() - (if prior is Some {
                1int
            } else {
                0int
            }),
    {
        proof {
            use_type_invariant(&*self);
            lemma_content_matches_store(self.cells@);
        }
        let s = slot_of(coord);
        let mut cells: HashMap<u128, HexCell> = HashMap::new();
        std::mem::swap(&mut self.cells, &mut cells);
        let prior = cells.remove(&s);
        std::mem::swap(&mut self.cells, &mut cells);
        proof {
            assert forall|other: HexCoord| slot(other) == s implies other == *coord by {
                lemma_slot_injective(other, *coord);
            }
            assert(self@ =~= old(self)@.remove(*coord));
        }
        prior
    }

    /// The cells on the occupied neighbours of `center`, in the listing order of the directions.
    pub fn get_adjacent(&self, center: &HexCoord) -> (around: Vec<HexCell>)
        requires
            center.on_lattice(),
            ring_fits(*center, 1),
        ensures
            around.deep_view() == occupied(self@, ring(*center, 1)),
            around@.len() <= 6,
    {
        let adj_coords = immediate_adjacent_coords(center);
        let mut bag: Vec<HexCell> = Vec::new();
        assert(bag.deep_view() =~= occupied(self@, adj_coords@.take(0)));
        for i in 0..6usize
            invariant
                bag.deep_view() == occupied(self@, adj_coords@.take(i as int)),
        {
            proof {
                lemma_occupied_step(self@, adj_coords@, i as int);
            }
            let ghost before = bag.deep_view();
            if let Some(c) = self.get_cell(&adj_coords[i]) {
                bag.push(c);
                assert(bag.deep_view() =~= before + seq![c@]);
            }
        }
        proof {
            assert(adj_coords@.take(6) =~= adj_coords@);
            lemma_occupied_from_content(self@, adj_coords@);
        }
        bag
    }

    /// The occupied cells around `center`, ring by ring. Resolution 1 gives the neighbours; a
    /// larger resolution gives the rings of radius 1 up to, but not including, the resolution.
    /// Resolution 0 is refused.
    pub fn get_in_circle(&self, center: &HexCoord, resolution: usize) -> (within: Result<
        Vec<HexCell>,
        HexGridError,
    >)
        requires
            resolution == 1 ==> center.on_lattice() && ring_fits(*center, 1),
            resolution > 1 ==> ring_fits(*center, (resolution - 1) as nat),
        ensures
            resolution == 0 ==> within == Err::<Vec<HexCell>, HexGridError>(
                HexGridError::ResolutionSetToZero,
            ),
            resolution == 1 ==> within is Ok && within->Ok_0.deep_view() == occupied(
                self@,
                ring(*center, 1),
            ),
            resolution > 1 ==> within is Ok && within->Ok_0.deep_view() == rings_within(
                self@,
                *center,
                (resolution - 1) as nat,
            ),
            resolution == 1 ==> within->Ok_0@.len() <= 6,
            resolution > 1 ==> within->Ok_0@.len() <= 6 * (resolution - 1),
    {
        if resolution == 0 {
            Err(HexGridError::ResolutionSetToZero)
        } else if resolution == 1 {
            Ok(self.get_adjacent(center))
        } else {
            let mut bag: Vec<HexCell> = Vec::new();
            assert(bag.deep_view() =~= rings_within(self@, *center, 0));
            for r in 1..resolution
                invariant
                    ring_fits(*center, (resolution - 1) as nat),
                    bag.deep_view() == rings_within(self@, *center, (r - 1) as nat),
            {
                proof {
                    lemma_ring_fits_inward(*center, r as nat, (resolution - 1) as nat);
                }
                let coords = adjacent_coords(center, r);
                let ghost inner = bag.deep_view();
                assert(bag.deep_view() =~= inner + occupied(self@, coords@.take(0)));
                for i in 0..6usize
                    invariant
                        coords@ == ring(*center, r as nat),
                        bag.deep_view() == inner + occupied(self@, coords@.take(i as int)),
                {
                    proof {
                        lemma_occupied_step(self@, coords@, i as int);
                    }
                    let ghost before = bag.deep_view();
                    if let Some(c) = self.get_cell(&coords[i]) {
                        bag.push(c);
                        assert(bag.deep_view() =~= before + seq![c@]);
                    }
                }
                assert(coords@.take(6) =~= coords@);
            }
            proof {
                lemma_rings_within_len(self@, *center, (resolution - 1) as nat);
            }
            Ok(bag)
        }
    }
}

} // verus!
