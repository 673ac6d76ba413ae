use lifers::grid_count_neighbors_conways;
use lifers::grid_index;
use lifers::life::{
    grid_fmt, grid_get_value_neighbors_lenia, grid_is_alive, grid_set_cell_state,
    grid_toggle_cell_state,
};
use lifers::Grid;

#[test]
fn index_formula_row_major() {
    assert_eq!(grid_index(2, 2, 3), 8);
    assert_eq!(grid_index(0, 0, 7), 0);
    assert_eq!(grid_index(3, 4, 7), 25);
}

#[test]
fn count_alive_stays_within_eight() {
    // Even on a fully live toroidal grid no cell sees more than 8
    // neighbors, and a fully dead grid sees none.
    let full = vec![1; 9];
    let empty = vec![0; 9];
    for row in 0..3 {
        for col in 0..3 {
            for &toric in &[true, false] {
                let c = grid_count_neighbors_conways(row, col, &full, 3, 3, toric);
                assert!(c <= 8);
                assert_eq!(grid_count_neighbors_conways(row, col, &empty, 3, 3, toric), 0);
            }
        }
    }
    assert_eq!(grid_count_neighbors_conways(1, 1, &full, 3, 3, true), 8);
}

#[test]
fn corner_counts_differ_by_off_grid_slots() {
    // At the (0,0) corner of a fully live 3x3 grid, five of the eight
    // neighbor slots are off-grid: the toroidal count and the bounded
    // count differ exactly by those five slots.
    let full = vec![1; 9];
    let toroidal = grid_count_neighbors_conways(0, 0, &full, 3, 3, true);
    let bounded = grid_count_neighbors_conways(0, 0, &full, 3, 3, false);
    assert_eq!(toroidal, 8);
    assert_eq!(bounded, 3);
    assert_eq!(toroidal - bounded, 5);
}

#[test]
fn set_cell_round_trip_all_values() {
    let mut grid = Grid::new(3, 3, true);
    for row in 0..3 {
        for col in 0..3 {
            for value in 0..=255u8 {
                grid.set_cell_state(row, col, value);
                let index = grid.index(row, col);
                assert_eq!(grid.current_cells()[index], value);
            }
        }
    }
}

#[test]
fn toggle_twice_restores_classification() {
    let mut grid = Grid::new(2, 2, false);
    // A live cell stored above 1: two toggles restore the alive
    // classification but not the stored byte.
    grid.set_cell_state(0, 0, 7);
    assert!(grid.is_alive(0, 0));
    grid.toggle_cell_state(0, 0);
    assert!(!grid.is_alive(0, 0));
    grid.toggle_cell_state(0, 0);
    assert!(grid.is_alive(0, 0));
    assert_eq!(grid.current_cells()[0], 1);
    // A dead cell comes back dead.
    grid.toggle_cell_state(1, 1);
    grid.toggle_cell_state(1, 1);
    assert!(!grid.is_alive(1, 1));
    assert_eq!(grid.current_cells()[3], 0);
}

#[test]
fn update_all_dead_stays_all_dead() {
    for &toric in &[true, false] {
        let mut grid = Grid::new(3, 3, toric);
        grid.update();
        assert!(grid.current_cells().iter().all(|&v| v == 0));
    }
}

#[test]
fn blinker_oscillates_across_two_updates() {
    // A horizontal bar of live cells (stored as 2 to exercise the
    // value-preserving survival) flips to a vertical bar and back; the
    // second update must read the values the first one produced, which
    // checks that the buffers are swapped, not copied.
    let mut grid = Grid::from_vect(vec![0, 0, 0, 2, 2, 2, 0, 0, 0], 3, 3, false);
    grid.update();
    assert_eq!(grid.current_cells().as_slice(), &[0, 1, 0, 0, 2, 0, 0, 1, 0]);
    grid.update();
    assert_eq!(grid.current_cells().as_slice(), &[0, 0, 0, 1, 2, 1, 0, 0, 0]);
}

#[test]
fn survival_guard_is_strict() {
    // A cell stored as exactly 1 with two live neighbors falls through
    // the `> 1` survival guard and dies; stored as 2 it survives and
    // keeps its value.
    let mut weak = Grid::from_vect(vec![0, 0, 0, 2, 1, 2, 0, 0, 0], 3, 3, false);
    weak.update();
    assert_eq!(weak.current_cells()[4], 0);

    let mut strong = Grid::from_vect(vec![0, 0, 0, 2, 5, 2, 0, 0, 0], 3, 3, false);
    strong.update();
    assert_eq!(strong.current_cells()[4], 5);

    // Three live neighbors always produce a live cell of value 1.
    let mut born = Grid::from_vect(vec![0, 2, 0, 2, 0, 2, 0, 0, 0], 3, 3, false);
    born.update();
    assert_eq!(born.current_cells()[4], 1);
}

#[test]
fn grid_new_random_cells_binary() {
    let grid = Grid::new_random(5, 4, true);
    assert_eq!(grid.rows(), 5);
    assert_eq!(grid.cols(), 4);
    assert!(grid.is_toricgrid());
    assert_eq!(grid.current_cells().len(), 20);
    assert!(grid.current_cells().iter().all(|&v| v < 2));
}

#[test]
fn neighbor_value_sum_literal() {
    let current_cells = vec![1, 2, 3, 4, 5, 6, 7, 8, 9];
    assert_eq!(
        grid_get_value_neighbors_lenia(1, 1, &current_cells, 3, 3, false),
        40
    );
    assert_eq!(
        grid_get_value_neighbors_lenia(1, 0, &current_cells, 3, 3, false),
        23
    );
    assert_eq!(
        grid_get_value_neighbors_lenia(1, 0, &current_cells, 3, 3, true),
        41
    );
}

#[test]
fn free_cell_mutation_functions() {
    let mut current_cells = vec![0, 0, 0, 1, 0, 1, 0, 0, 0];
    let cols = 3;

    grid_set_cell_state(0, 0, 1, &mut current_cells, cols);
    assert_eq!(current_cells[0], 1);
    grid_set_cell_state(2, 2, 0, &mut current_cells, cols);
    assert_eq!(current_cells[8], 0);

    grid_toggle_cell_state(0, 1, &mut current_cells, cols);
    assert_eq!(current_cells[1], 1);
    grid_toggle_cell_state(0, 1, &mut current_cells, cols);
    assert_eq!(current_cells[1], 0);

    assert!(!grid_is_alive(0, 2, &current_cells, cols));
    assert!(grid_is_alive(1, 0, &current_cells, cols));
}

#[test]
fn grid_fmt_renders_rows_of_symbols() {
    let rendering = grid_fmt(2, 2, &vec![1, 0, 0, 2]);
    assert_eq!(rendering, "■□\n□■\n");
}
