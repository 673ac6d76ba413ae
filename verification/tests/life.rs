use lifers::grid_count_neighbors_conways;

#[test]
fn test_grid_count_neighbors_conways_toricgrid_enabled() {
    let current_cells = vec![0, 0, 0, 2, 0, 2, 0, 0, 0];
    let rows = 3;
    let cols = 3;
    let toricgrid = true;

    assert_eq!(
        grid_count_neighbors_conways(1, 1, &current_cells, rows, cols, toricgrid),
        2
    );
    assert_eq!(
        grid_count_neighbors_conways(0, 0, &current_cells, rows, cols, toricgrid),
        2
    );
    assert_eq!(
        grid_count_neighbors_conways(2, 2, &current_cells, rows, cols, toricgrid),
        2
    );
}

#[test]
fn test_grid_count_neighbors_conways_toricgrid_disabled() {
    let current_cells = vec![0, 0, 0, 2, 0, 2, 0, 0, 0];
    let rows = 3;
    let cols = 3;
    let toricgrid = false;

    assert_eq!(
        grid_count_neighbors_conways(1, 1, &current_cells, rows, cols, toricgrid),
        2
    );
    assert_eq!(
        grid_count_neighbors_conways(0, 0, &current_cells, rows, cols, toricgrid),
        1
    );
    assert_eq!(
        grid_count_neighbors_conways(2, 2, &current_cells, rows, cols, toricgrid),
        1
    );
}
