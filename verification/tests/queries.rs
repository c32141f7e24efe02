use hexgrid::{HexCell, HexCoord, HexGrid, HexGridError};

fn at(x: isize, y: isize) -> HexCoord {
    HexCoord { x, y }
}

fn cell(x: isize, y: isize, data: &str) -> HexCell {
    HexCell { coord: at(x, y), data: data.to_string() }
}

fn grid_of(cells: &[(isize, isize, &str)]) -> HexGrid {
    let mut grid = HexGrid::new();
    for (x, y, data) in cells {
        assert_eq!(grid.add_cell_at(*x, *y, data.to_string()), Ok(None));
    }
    grid
}

#[test]
fn a_new_grid_is_empty() {
    let grid = HexGrid::new();
    assert_eq!(grid.count_cells(), 0);
    assert_eq!(grid.get_cell_at(0, 0), Ok(None));
    assert_eq!(grid.get_cell(&at(2, 2)), None);
}

#[test]
fn insert_then_get_returns_the_payload() {
    let mut grid = HexGrid::new();
    assert_eq!(grid.add_cell_at(1, 1, "first".to_string()), Ok(None));
    assert_eq!(grid.count_cells(), 1);
    assert_eq!(grid.get_cell_at(1, 1), Ok(Some(cell(1, 1, "first"))));
    assert_eq!(grid.get_cell(&at(1, 1)), Some(cell(1, 1, "first")));
}

#[test]
fn insert_overwrites_and_returns_the_previous_cell() {
    let mut grid = HexGrid::new();
    assert_eq!(grid.add_cell_at(1, 1, "first".to_string()), Ok(None));
    assert_eq!(grid.add_cell_at(1, 1, "second".to_string()), Ok(Some(cell(1, 1, "first"))));
    assert_eq!(grid.count_cells(), 1);
    assert_eq!(grid.get_cell_at(1, 1), Ok(Some(cell(1, 1, "second"))));
}

#[test]
fn insert_at_a_new_position_adds_one() {
    let mut grid = grid_of(&[(0, 0, "a"), (1, 1, "b")]);
    assert_eq!(grid.count_cells(), 2);
    assert_eq!(grid.add_cell(&at(-1, 1), "c".to_string()), None);
    assert_eq!(grid.count_cells(), 3);
    assert_eq!(grid.get_cell(&at(0, 0)), Some(cell(0, 0, "a")));
    assert_eq!(grid.get_cell(&at(1, 1)), Some(cell(1, 1, "b")));
    assert_eq!(grid.get_cell(&at(-1, 1)), Some(cell(-1, 1, "c")));
}

#[test]
fn insert_off_the_lattice_is_refused_and_changes_nothing() {
    let mut grid = HexGrid::new();
    assert_eq!(grid.add_cell_at(0, 0, "zero".to_string()), Ok(None));
    assert_eq!(
        grid.add_cell_at(0, 1, "x".to_string()),
        Err(HexGridError::NotSnappedToGrid(at(0, 1)))
    );
    assert_eq!(grid.count_cells(), 1);
    assert_eq!(grid.get_cell_at(0, 0), Ok(Some(cell(0, 0, "zero"))));
}

#[test]
fn get_and_remove_off_the_lattice_are_refused() {
    let mut grid = grid_of(&[(0, 0, "a")]);
    assert_eq!(grid.get_cell_at(1, 0), Err(HexGridError::NotSnappedToGrid(at(1, 0))));
    assert_eq!(grid.remove_cell_at(-2, 5), Err(HexGridError::NotSnappedToGrid(at(-2, 5))));
    assert_eq!(grid.count_cells(), 1);
}

#[test]
fn remove_then_get_finds_nothing() {
    let mut grid = grid_of(&[(0, 0, "a"), (2, 0, "b")]);
    assert_eq!(grid.remove_cell_at(0, 0), Ok(Some(cell(0, 0, "a"))));
    assert_eq!(grid.get_cell_at(0, 0), Ok(None));
    assert_eq!(grid.count_cells(), 1);
    assert_eq!(grid.get_cell_at(2, 0), Ok(Some(cell(2, 0, "b"))));
}

#[test]
fn removing_an_absent_cell_is_no_error() {
    let mut grid = grid_of(&[(2, 0, "b")]);
    assert_eq!(grid.remove_cell_at(0, 0), Ok(None));
    assert_eq!(grid.remove_cell(&at(4, 4)), None);
    assert_eq!(grid.count_cells(), 1);
}

#[test]
fn repeated_removal_keeps_returning_nothing() {
    let mut grid = grid_of(&[(3, 1, "a"), (1, 1, "b")]);
    assert_eq!(grid.remove_cell(&at(3, 1)), Some(cell(3, 1, "a")));
    for _ in 0..4 {
        assert_eq!(grid.remove_cell(&at(3, 1)), None);
        assert_eq!(grid.count_cells(), 1);
        assert_eq!(grid.get_cell(&at(1, 1)), Some(cell(1, 1, "b")));
    }
}

#[test]
fn positions_far_apart_do_not_collide() {
    let mut grid = HexGrid::new();
    let corners = [
        (isize::MIN, isize::MIN, "a"),
        (isize::MIN, isize::MAX - 1, "b"),
        (isize::MAX, isize::MIN + 1, "c"),
        (isize::MAX, isize::MAX, "d"),
        (0, 0, "e"),
        (-1, -1, "f"),
        (-1, 1, "g"),
        (1, -1, "h"),
    ];
    for (x, y, data) in corners {
        assert_eq!(grid.add_cell_at(x, y, data.to_string()), Ok(None));
    }
    assert_eq!(grid.count_cells(), 8);
    for (x, y, data) in corners {
        assert_eq!(grid.get_cell_at(x, y), Ok(Some(cell(x, y, data))));
    }
}

#[test]
fn neighbours_skip_free_positions_and_keep_the_order() {
    let grid = grid_of(&[(0, 0, "centre"), (-1, 1, "ul"), (1, -1, "dr"), (0, 2, "up"), (0, 4, "far")]);
    assert_eq!(
        grid.get_adjacent(&at(0, 0)),
        vec![cell(0, 2, "up"), cell(1, -1, "dr"), cell(-1, 1, "ul")]
    );
}

#[test]
fn neighbours_of_a_full_neighbourhood() {
    let grid = grid_of(&[
        (-1, -1, "dl"),
        (0, -2, "d"),
        (1, 1, "ur"),
        (-1, 1, "ul"),
        (1, -1, "dr"),
        (0, 2, "u"),
    ]);
    assert_eq!(
        grid.get_adjacent(&at(0, 0)),
        vec![
            cell(0, 2, "u"),
            cell(1, 1, "ur"),
            cell(1, -1, "dr"),
            cell(0, -2, "d"),
            cell(-1, -1, "dl"),
            cell(-1, 1, "ul"),
        ]
    );
}

#[test]
fn disk_of_resolution_zero_is_refused() {
    let grid = grid_of(&[(0, 0, "a"), (1, 1, "b")]);
    assert_eq!(grid.get_in_circle(&at(0, 0), 0), Err(HexGridError::ResolutionSetToZero));
    assert_eq!(HexGrid::new().get_in_circle(&at(3, 3), 0), Err(HexGridError::ResolutionSetToZero));
}

#[test]
fn disk_of_resolution_one_is_the_neighbours() {
    let grid = grid_of(&[(0, 0, "centre"), (-1, 1, "ul"), (1, -1, "dr"), (0, 2, "up"), (2, 2, "far")]);
    let around = grid.get_adjacent(&at(0, 0));
    assert_eq!(around.len(), 3);
    assert_eq!(grid.get_in_circle(&at(0, 0), 1), Ok(around));
}

#[test]
fn disk_leaves_out_the_ring_of_its_resolution() {
    let grid = grid_of(&[(0, 2, "r1"), (0, 4, "r2"), (0, 6, "r3")]);
    assert_eq!(grid.get_in_circle(&at(0, 0), 2), Ok(vec![cell(0, 2, "r1")]));
    assert_eq!(grid.get_in_circle(&at(0, 0), 3), Ok(vec![cell(0, 2, "r1"), cell(0, 4, "r2")]));
    assert_eq!(
        grid.get_in_circle(&at(0, 0), 4),
        Ok(vec![cell(0, 2, "r1"), cell(0, 4, "r2"), cell(0, 6, "r3")])
    );
}

#[test]
fn disk_goes_ring_by_ring_and_only_along_the_axes() {
    let grid = grid_of(&[
        (-2, -2, "dl2"),
        (1, 3, "off axis"),
        (2, 0, "off axis too"),
        (-1, 1, "ul1"),
        (2, 2, "ur2"),
        (0, -2, "d1"),
        (0, 4, "u2"),
        (0, 0, "centre"),
        (3, 3, "ur3"),
    ]);
    assert_eq!(
        grid.get_in_circle(&at(0, 0), 3),
        Ok(vec![
            cell(0, -2, "d1"),
            cell(-1, 1, "ul1"),
            cell(0, 4, "u2"),
            cell(2, 2, "ur2"),
            cell(-2, -2, "dl2"),
        ])
    );
}

#[test]
fn disk_around_another_centre() {
    let grid = grid_of(&[(5, 1, "c"), (5, 3, "u1"), (7, -1, "dr2"), (4, 0, "dl1"), (5, 5, "u2")]);
    assert_eq!(
        grid.get_in_circle(&at(5, 1), 3),
        Ok(vec![cell(5, 3, "u1"), cell(4, 0, "dl1"), cell(5, 5, "u2"), cell(7, -1, "dr2")])
    );
}

#[test]
fn cells_compare_by_position_and_payload() {
    assert_eq!(cell(1, 1, "a"), cell(1, 1, "a"));
    assert_ne!(cell(1, 1, "a"), cell(1, 1, "b"));
    assert_ne!(cell(1, 1, "a"), cell(1, -1, "a"));
    assert_ne!(cell(1, 1, "a"), cell(-1, 1, "a"));
    assert_ne!(cell(1, 1, ""), cell(1, 1, "a"));
}

#[test]
fn a_cloned_cell_equals_its_source() {
    let source = cell(-3, 5, "payload");
    let copy = source.clone();
    assert_eq!(copy, source);
    assert_eq!(copy.coord, at(-3, 5));
    assert_eq!(copy.data, "payload");
}

#[test]
fn a_found_cell_is_a_copy() {
    let mut grid = grid_of(&[(2, 2, "kept")]);
    let mut found = grid.get_cell(&at(2, 2)).unwrap();
    found.data.push_str(" and changed");
    assert_eq!(grid.get_cell(&at(2, 2)), Some(cell(2, 2, "kept")));
    assert_eq!(grid.remove_cell(&at(2, 2)), Some(cell(2, 2, "kept")));
}
