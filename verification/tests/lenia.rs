use lifers::growth::lenia_growth_function_default;
use lifers::LeniaGrid;

#[test]
fn lenia_convolution_ring_filter_literal() {
    let cells = vec![1, 2, 3, 4, 5, 6, 7, 8, 9];
    let grid = LeniaGrid::from_vect(cells.clone(), 3, 3, false);
    assert_eq!(grid.get_value_neighbors_lenia(1, 1), 40);
    assert_eq!(grid.get_value_neighbors_lenia(1, 0), 23);

    let toric = LeniaGrid::from_vect(cells, 3, 3, true);
    assert_eq!(toric.get_value_neighbors_lenia(1, 0), 41);
}

#[test]
fn lenia_convolution_column_filter_literal() {
    let cells = vec![1, 2, 3, 4, 5, 6, 7, 8, 9];
    let filter = vec![1, 0, 1, 1, 0, 1, 1, 0, 1];

    let mut toric = LeniaGrid::from_vect(cells.clone(), 3, 3, true);
    toric.set_filter(filter.clone());
    assert_eq!(toric.get_value_neighbors_lenia(1, 1), 30);
    assert_eq!(toric.get_value_neighbors_lenia(1, 0), 33);

    let mut bounded = LeniaGrid::from_vect(cells, 3, 3, false);
    bounded.set_filter(filter);
    assert_eq!(bounded.get_value_neighbors_lenia(1, 0), 15);
}

#[test]
fn lenia_default_growth_values() {
    // The bump saturates at 255 for distances up to 22 from the center.
    assert_eq!(lenia_growth_function_default(122), 255);
    assert_eq!(lenia_growth_function_default(100), 255);
    assert_eq!(lenia_growth_function_default(144), 255);
    // First value past the saturated band, on both sides of the center.
    assert_eq!(lenia_growth_function_default(99), 253);
    assert_eq!(lenia_growth_function_default(145), 253);
    // A mid-tail value and the far tail.
    assert_eq!(lenia_growth_function_default(200), 12);
    assert_eq!(lenia_growth_function_default(230), 1);
    assert_eq!(lenia_growth_function_default(0), 0);
    assert_eq!(lenia_growth_function_default(255), 0);
}

#[test]
fn lenia_update_single_cell_torus() {
    // On a 1x1 torus all eight neighbor slots wrap to the cell itself, so
    // the ring convolution is 8 times the value and the average is the
    // value again: one step maps the cell through the growth function.
    let mut grid = LeniaGrid::from_vect(vec![100], 1, 1, true);
    grid.update();
    assert_eq!(grid.current_cells()[0], lenia_growth_function_default(100));
    assert_eq!(grid.current_cells()[0], 255);

    let mut far = LeniaGrid::from_vect(vec![200], 1, 1, true);
    far.update();
    assert_eq!(far.current_cells()[0], 12);
}

#[test]
fn lenia_update_identity_growth_averages() {
    // With the identity growth table the new cell value is exactly the
    // truncated average of the weighted convolution.
    let mut grid = LeniaGrid::from_vect(vec![1, 2, 3, 4, 5, 6, 7, 8, 9], 3, 3, false);
    grid.set_filter(vec![1, 0, 1, 1, 0, 1, 1, 0, 1]);
    let identity: Vec<u8> = (0..=255).collect();
    grid.set_growth_function(identity);
    grid.update();
    // Convolution 30 over 6 non-zero weights -> 5; 15 over 6 -> 2.
    assert_eq!(grid.current_cells()[4], 5);
    assert_eq!(grid.current_cells()[3], 2);
}

#[test]
fn lenia_new_random_cells_below_top_value() {
    let grid = LeniaGrid::new_random(4, 5, true);
    assert_eq!(grid.current_cells().len(), 20);
    assert!(grid.current_cells().iter().all(|&v| v < 255));
}

#[test]
fn lenia_set_and_toggle_cell() {
    let mut grid = LeniaGrid::new(2, 2, false);
    grid.set_cell_state(0, 1, 200);
    assert!(grid.is_alive(0, 1));
    assert_eq!(grid.current_cells()[1], 200);
    grid.toggle_cell_state(0, 1);
    assert!(!grid.is_alive(0, 1));
    grid.toggle_cell_state(0, 1);
    assert!(grid.is_alive(0, 1));
    assert_eq!(grid.current_cells()[1], 1);
}
