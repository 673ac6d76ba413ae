use lifers::ConwaysGrid;

#[test]
fn conways_test_count_neighbors_toricgrid_enabled() {
    let mut grid: ConwaysGrid = ConwaysGrid::new(3, 3, true);
    grid.set_cell_state(0, 1, 1);
    grid.set_cell_state(2, 1, 1);

    assert_eq!(grid.count_neighbors(1, 1), 2);
    assert_eq!(grid.count_neighbors(0, 0), 2);
    assert_eq!(grid.count_neighbors(2, 2), 2);
}

#[test]
fn conways_test_count_neighbors_toricgrid_disabled() {
    let mut grid: ConwaysGrid = ConwaysGrid::new(3, 3, false);
    grid.set_cell_state(0, 1, 1);
    grid.set_cell_state(2, 1, 1);

    assert_eq!(grid.count_neighbors(1, 1), 2);
    assert_eq!(grid.count_neighbors(0, 0), 1);
    assert_eq!(grid.count_neighbors(2, 2), 1);
}
