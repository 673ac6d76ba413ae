//! Free functions over flat cell buffers: indexing, cell mutation, the
//! three neighborhood aggregations and the two full-grid transitions.

use vstd::prelude::*;

use crate::model::{
    conways_next_cell, conways_step, convolution_sum, filter_ok, flat_index, grid_dims_ok,
    lemma_flat_index_in_range, lenia_average, lenia_next_cell, lenia_step, neighbor_count,
    neighbor_value_sum, render_cell, render_grid, slot_cell, slot_weighted, toggled_cells,
    value_alive, wrap_index,
};
use vstd::arithmetic::div_mod::lemma_fundamental_div_mod_converse;

verus! {

/// Flat storage offset of the cell at `(row, col)` in a row-major grid
/// with `cols` columns.
pub fn grid_index(row: usize, col: usize, cols: usize) -> (r: usize)
    requires
        flat_index(row as int, col as int, cols as int) <= usize::MAX,
    ensures
        r == flat_index(row as int, col as int, cols as int),
{
    row * cols + col
}

/// Dividing a flat offset by the column count recovers the row and column
/// it was built from.
pub proof fn lemma_flat_index_coords(rows: int, cols: int, row: int, col: int)
    requires
        0 <= row < rows,
        0 <= col < cols,
    ensures
        flat_index(row, col, cols) / cols == row,
        flat_index(row, col, cols) % cols == col,
{
    lemma_fundamental_div_mod_converse(flat_index(row, col, cols), cols, row, col);
}

/// The cell at neighbor slot `(dr, dc)` of center `(row, col)`, or `None`
/// for the center slot and for out-of-range slots of a bounded grid.
#[verifier::rlimit(30)]
fn neighbor_slot(
    cells: &Vec<u8>,
    rows: usize,
    cols: usize,
    toroidal: bool,
    row: usize,
    col: usize,
    dr: i8,
    dc: i8,
) -> (r: Option<u8>)
    requires
        grid_dims_ok(cells@, rows as int, cols as int),
        row < rows,
        col < cols,
        -1 <= dr <= 1,
        -1 <= dc <= 1,
    ensures
        r == slot_cell(
            cells@,
            rows as int,
            cols as int,
            toroidal,
            row as int,
            col as int,
            dr as int,
            dc as int,
        ),
{
    if dr == 0 && dc == 0 {
        return None;
    }
    let buffer_len: usize = cells.len();
    if toroidal {
        let wrapped_row: usize = if dr < 0 {
            if row == 0 {
                rows - 1
            } else {
                row - 1
            }
        } else if dr > 0 {
            if row + 1 >= rows {
                0
            } else {
                row + 1
            }
        } else {
            row
        };
        let wrapped_col: usize = if dc < 0 {
            if col == 0 {
                cols - 1
            } else {
                col - 1
            }
        } else if dc > 0 {
            if col + 1 >= cols {
                0
            } else {
                col + 1
            }
        } else {
            col
        };
        assert(wrapped_row == wrap_index(row + dr, rows as int));
        assert(wrapped_col == wrap_index(col + dc, cols as int));
        proof {
            assert(buffer_len == cells@.len());
            lemma_flat_index_in_range(rows as int, cols as int, wrapped_row as int, wrapped_col as int);
        }
        Some(cells[wrapped_row * cols + wrapped_col])
    } else {
        let in_rows: bool = if dr < 0 {
            row >= 1
        } else if dr > 0 {
            row + 1 < rows
        } else {
            true
        };
        let in_cols: bool = if dc < 0 {
            col >= 1
        } else if dc > 0 {
            col + 1 < cols
        } else {
            true
        };
        if in_rows && in_cols {
            let target_row: usize = if dr < 0 {
                row - 1
            } else if dr > 0 {
                row + 1
            } else {
                row
            };
            let target_col: usize = if dc < 0 {
                col - 1
            } else if dc > 0 {
                col + 1
            } else {
                col
            };
            proof {
                assert(buffer_len == cells@.len());
                lemma_flat_index_in_range(rows as int, cols as int, target_row as int, target_col as int);
            }
            Some(cells[target_row * cols + target_col])
        } else {
            None
        }
    }
}

/// Number of live cells among the eight neighbor slots of `(row, col)`,
/// under the grid's topology. The result never exceeds `8`.
pub fn grid_count_neighbors_conways(
    row: usize,
    col: usize,
    current_cells: &Vec<u8>,
    rows: usize,
    cols: usize,
    toricgrid: bool,
) -> (count: usize)
    requires
        grid_dims_ok(current_cells@, rows as int, cols as int),
        row < rows,
        col < cols,
    ensures
        count == neighbor_count(
            current_cells@,
            rows as int,
            cols as int,
            toricgrid,
            row as int,
            col as int,
        ),
        count <= 8,
{
    let mut count: usize = 0;
    if let Some(v) = neighbor_slot(current_cells, rows, cols, toricgrid, row, col, -1, -1) {
        if v >= 1 {
            count += 1;
        }
    }
    if let Some(v) = neighbor_slot(current_cells, rows, cols, toricgrid, row, col, -1, 0) {
        if v >= 1 {
            count += 1;
        }
    }
    if let Some(v) = neighbor_slot(current_cells, rows, cols, toricgrid, row, col, -1, 1) {
        if v >= 1 {
            count += 1;
        }
    }
    if let Some(v) = neighbor_slot(current_cells, rows, cols, toricgrid, row, col, 0, -1) {
        if v >= 1 {
            count += 1;
        }
    }
    if let Some(v) = neighbor_slot(current_cells, rows, cols, toricgrid, row, col, 0, 1) {
        if v >= 1 {
            count += 1;
        }
    }
    if let Some(v) = neighbor_slot(current_cells, rows, cols, toricgrid, row, col, 1, -1) {
        if v >= 1 {
            count += 1;
        }
    }
    if let Some(v) = neighbor_slot(current_cells, rows, cols, toricgrid, row, col, 1, 0) {
        if v >= 1 {
            count += 1;
        }
    }
    if let Some(v) = neighbor_slot(current_cells, rows, cols, toricgrid, row, col, 1, 1) {
        if v >= 1 {
            count += 1;
        }
    }
    count
}

/// The textual rendering of a grid: one line per row, top to bottom, one
/// symbol per cell — a filled square for a live cell, an empty square
/// for a dead one.
pub fn grid_fmt(rows: usize, cols: usize, current_cells: &Vec<u8>) -> (s: String)
    requires
        grid_dims_ok(current_cells@, rows as int, cols as int),
    ensures
        s@ == render_grid(current_cells@, rows as int, cols as int),
{
    let mut s: String = String::new();
    let mut row: usize = 0;
    while row < rows
        invariant
            grid_dims_ok(current_cells@, rows as int, cols as int),
            row <= rows,
            s@ == render_grid(current_cells@, row as int, cols as int),
        decreases rows - row,
    {
        let mut col: usize = 0;
        while col < cols
            invariant
                grid_dims_ok(current_cells@, rows as int, cols as int),
                row < rows,
                col <= cols,
                s@ == render_grid(current_cells@, row as int, cols as int) + Seq::new(
                    col as nat,
                    |c: int| render_cell(current_cells@[flat_index(row as int, c, cols as int)]),
                ),
            decreases cols - col,
        {
            proof {
                lemma_flat_index_in_range(rows as int, cols as int, row as int, col as int);
                reveal_strlit("■");
                reveal_strlit("□");
            }
            if grid_is_alive(row, col, current_cells, cols) {
                s.append("■");
            } else {
                s.append("□");
            }
            proof {
                assert(s@ =~= render_grid(current_cells@, row as int, cols as int) + Seq::new(
                    (col + 1) as nat,
                    |c: int| render_cell(current_cells@[flat_index(row as int, c, cols as int)]),
                ));
            }
            col += 1;
        }
        proof {
            reveal_strlit("\n");
        }
        s.append("\n");
        proof {
            assert(s@ =~= render_grid(current_cells@, (row + 1) as int, cols as int));
        }
        row += 1;
    }
    s
}

/// Overwrites the cell at `(row, col)` with `alive`; every other cell is
/// untouched.
pub fn grid_set_cell_state(
    row: usize,
    col: usize,
    alive: u8,
    current_cells: &mut Vec<u8>,
    cols: usize,
)
    requires
        flat_index(row as int, col as int, cols as int) < old(current_cells)@.len(),
    ensures
        final(current_cells)@ == old(current_cells)@.update(
            flat_index(row as int, col as int, cols as int),
            alive,
        ),
{
    let buffer_len: usize = current_cells.len();
    assert(flat_index(row as int, col as int, cols as int) < buffer_len);
    let index: usize = grid_index(row, col, cols);
    current_cells[index] = alive;
}

/// Inverts the alive/dead state of the cell at `(row, col)`: a live cell
/// (value `1` or above) becomes `0`, a dead cell becomes `1`.
pub fn grid_toggle_cell_state(row: usize, col: usize, current_cells: &mut Vec<u8>, cols: usize)
    requires
        flat_index(row as int, col as int, cols as int) < old(current_cells)@.len(),
    ensures
        final(current_cells)@ == toggled_cells(
            old(current_cells)@,
            flat_index(row as int, col as int, cols as int),
        ),
{
    let buffer_len: usize = current_cells.len();
    assert(flat_index(row as int, col as int, cols as int) < buffer_len);
    let index: usize = grid_index(row, col, cols);
    current_cells[index] = if current_cells[index] >= 1 {
        0
    } else {
        1
    };
}

/// Whether the cell at `(row, col)` is alive, that is, has value `1` or
/// above.
pub fn grid_is_alive(row: usize, col: usize, current_cells: &Vec<u8>, cols: usize) -> (r: bool)
    requires
        flat_index(row as int, col as int, cols as int) < current_cells@.len(),
    ensures
        r == value_alive(current_cells@[flat_index(row as int, col as int, cols as int)]),
{
    let buffer_len: usize = current_cells.len();
    assert(flat_index(row as int, col as int, cols as int) < buffer_len);
    current_cells[grid_index(row, col, cols)] >= 1
}

/// Arithmetic sum of the values of the eight cells around `(row, col)`,
/// widened to 16 bits so that eight neighbors at value `255` cannot
/// overflow.
pub fn grid_get_value_neighbors_lenia(
    row: usize,
    col: usize,
    current_cells: &Vec<u8>,
    rows: usize,
    cols: usize,
    toricgrid: bool,
) -> (sum: u16)
    requires
        grid_dims_ok(current_cells@, rows as int, cols as int),
        row < rows,
        col < cols,
    ensures
        sum == neighbor_value_sum(
            current_cells@,
            rows as int,
            cols as int,
            toricgrid,
            row as int,
            col as int,
        ),
        sum <= 2040,
{
    let mut sum: u16 = 0;
    if let Some(v) = neighbor_slot(current_cells, rows, cols, toricgrid, row, col, -1, -1) {
        sum += v as u16;
    }
    if let Some(v) = neighbor_slot(current_cells, rows, cols, toricgrid, row, col, -1, 0) {
        sum += v as u16;
    }
    if let Some(v) = neighbor_slot(current_cells, rows, cols, toricgrid, row, col, -1, 1) {
        sum += v as u16;
    }
    if let Some(v) = neighbor_slot(current_cells, rows, cols, toricgrid, row, col, 0, -1) {
        sum += v as u16;
    }
    if let Some(v) = neighbor_slot(current_cells, rows, cols, toricgrid, row, col, 0, 1) {
        sum += v as u16;
    }
    if let Some(v) = neighbor_slot(current_cells, rows, cols, toricgrid, row, col, 1, -1) {
        sum += v as u16;
    }
    if let Some(v) = neighbor_slot(current_cells, rows, cols, toricgrid, row, col, 1, 0) {
        sum += v as u16;
    }
    if let Some(v) = neighbor_slot(current_cells, rows, cols, toricgrid, row, col, 1, 1) {
        sum += v as u16;
    }
    sum
}

/// One convolution term: the value of the neighbor at slot `(dr, dc)`
/// times that slot's filter weight, or `0` for an absent slot.
fn convolution_term(
    cells: &Vec<u8>,
    rows: usize,
    cols: usize,
    toroidal: bool,
    filter: &Vec<u8>,
    row: usize,
    col: usize,
    dr: i8,
    dc: i8,
) -> (term: u16)
    requires
        grid_dims_ok(cells@, rows as int, cols as int),
        filter_ok(filter@),
        row < rows,
        col < cols,
        -1 <= dr <= 1,
        -1 <= dc <= 1,
    ensures
        term == slot_weighted(
            cells@,
            rows as int,
            cols as int,
            toroidal,
            filter@,
            row as int,
            col as int,
            dr as int,
            dc as int,
        ),
        term <= 8160,
{
    if let Some(v) = neighbor_slot(cells, rows, cols, toroidal, row, col, dr, dc) {
        let weight_pos: usize = ((dr + 1) as usize) * 3 + ((dc + 1) as usize);
        let w: u8 = filter[weight_pos];
        assert((v as int) * (w as int) <= 255 * 32) by (nonlinear_arith)
            requires
                v as int <= 255,
                w as int <= 32,
                v as int >= 0,
                w as int >= 0,
        ;
        (v as u16) * (w as u16)
    } else {
        0
    }
}

/// Weighted sum of the values of the cells around `(row, col)`, each
/// multiplied by its weight in the row-major 3x3 `filter` window. The
/// center weight is never applied. The 16-bit accumulator cannot overflow
/// because every weight is at most `32`.
pub fn grid_convolution_neighbors_lenia(
    row: usize,
    col: usize,
    current_cells: &Vec<u8>,
    rows: usize,
    cols: usize,
    toricgrid: bool,
    filter: &Vec<u8>,
) -> (weighted_sum: u16)
    requires
        grid_dims_ok(current_cells@, rows as int, cols as int),
        filter_ok(filter@),
        row < rows,
        col < cols,
    ensures
        weighted_sum == convolution_sum(
            current_cells@,
            rows as int,
            cols as int,
            toricgrid,
            filter@,
            row as int,
            col as int,
        ),
{
    let mut weighted_sum: u16 = 0;
    weighted_sum += convolution_term(current_cells, rows, cols, toricgrid, filter, row, col, -1, -1);
    weighted_sum += convolution_term(current_cells, rows, cols, toricgrid, filter, row, col, -1, 0);
    weighted_sum += convolution_term(current_cells, rows, cols, toricgrid, filter, row, col, -1, 1);
    weighted_sum += convolution_term(current_cells, rows, cols, toricgrid, filter, row, col, 0, -1);
    weighted_sum += convolution_term(current_cells, rows, cols, toricgrid, filter, row, col, 0, 1);
    weighted_sum += convolution_term(current_cells, rows, cols, toricgrid, filter, row, col, 1, -1);
    weighted_sum += convolution_term(current_cells, rows, cols, toricgrid, filter, row, col, 1, 0);
    weighted_sum += convolution_term(current_cells, rows, cols, toricgrid, filter, row, col, 1, 1);
    weighted_sum
}

/// Advances the whole grid by one generation of the discrete
/// survival/birth rule. Every next value is computed from the consistent
/// prior snapshot into the scratch buffer, then the two buffers are
/// swapped — never copied — so afterwards `current_cells` holds the new
/// generation and `next_cells` holds the previous one.
pub fn grid_update_conways(
    current_cells: &mut Vec<u8>,
    next_cells: &mut Vec<u8>,
    rows: usize,
    cols: usize,
    toricgrid: bool,
)
    requires
        grid_dims_ok(old(current_cells)@, rows as int, cols as int),
        old(next_cells)@.len() == rows * cols,
    ensures
        final(current_cells)@ == conways_step(
            old(current_cells)@,
            rows as int,
            cols as int,
            toricgrid,
        ),
        final(next_cells)@ == old(current_cells)@,
{
    let buffer_len: usize = current_cells.len();
    proof {
        assert(buffer_len == current_cells@.len());
    }
    let mut row: usize = 0;
    while row < rows
        invariant
            grid_dims_ok(current_cells@, rows as int, cols as int),
            current_cells@ == old(current_cells)@,
            next_cells@.len() == rows * cols,
            rows * cols <= usize::MAX,
            row <= rows,
            forall|k: int|
                0 <= k < row * cols ==> next_cells@[k] == conways_next_cell(
                    old(current_cells)@,
                    rows as int,
                    cols as int,
                    toricgrid,
                    k,
                ),
        decreases rows - row,
    {
        let mut col: usize = 0;
        while col < cols
            invariant
                grid_dims_ok(current_cells@, rows as int, cols as int),
                current_cells@ == old(current_cells)@,
                next_cells@.len() == rows * cols,
                rows * cols <= usize::MAX,
                row < rows,
                col <= cols,
                forall|k: int|
                    0 <= k < row * cols + col ==> next_cells@[k] == conways_next_cell(
                        old(current_cells)@,
                        rows as int,
                        cols as int,
                        toricgrid,
                        k,
                    ),
            decreases cols - col,
        {
            proof {
                lemma_flat_index_in_range(rows as int, cols as int, row as int, col as int);
            }
            let index: usize = grid_index(row, col, cols);
            let neighbors_count: usize = grid_count_neighbors_conways(
                row,
                col,
                current_cells,
                rows,
                cols,
                toricgrid,
            );
            let current_value: u8 = current_cells[index];
            // The discrete rule: survival preserves the exact stored value,
            // and only for values strictly above 1; three live neighbors
            // always (re)produce a live cell of value 1.
            let next_value: u8 = if (neighbors_count == 2 || neighbors_count == 3)
                && current_value > 1 {
                current_value
            } else if neighbors_count == 3 {
                1
            } else {
                0
            };
            next_cells[index] = next_value;
            proof {
                lemma_flat_index_coords(rows as int, cols as int, row as int, col as int);
                assert(next_cells@[index as int] == conways_next_cell(
                    old(current_cells)@,
                    rows as int,
                    cols as int,
                    toricgrid,
                    index as int,
                ));
            }
            col += 1;
        }
        proof {
            assert(row * cols + cols == (row + 1) * cols) by (nonlinear_arith);
        }
        row += 1;
    }
    proof {
        assert(next_cells@ =~= conways_step(
            old(current_cells)@,
            rows as int,
            cols as int,
            toricgrid,
        ));
    }
    core::mem::swap(current_cells, next_cells);
}

/// Advances the whole grid by one generation of the continuous rule: for
/// every cell, the weighted convolution over its neighborhood is divided
/// by the non-zero weight count (truncating) and mapped through the
/// 256-entry growth table. The buffers are then swapped, never copied.
pub fn grid_update_lenia(
    current_cells: &mut Vec<u8>,
    next_cells: &mut Vec<u8>,
    rows: usize,
    cols: usize,
    toricgrid: bool,
    filter: &Vec<u8>,
    neighbors_filter: usize,
    growth: &Vec<u8>,
)
    requires
        grid_dims_ok(old(current_cells)@, rows as int, cols as int),
        old(next_cells)@.len() == rows * cols,
        filter_ok(filter@),
        1 <= neighbors_filter <= u16::MAX,
        growth@.len() == 256,
    ensures
        final(current_cells)@ == lenia_step(
            old(current_cells)@,
            rows as int,
            cols as int,
            toricgrid,
            filter@,
            neighbors_filter as int,
            growth@,
        ),
        final(next_cells)@ == old(current_cells)@,
{
    let buffer_len: usize = current_cells.len();
    proof {
        assert(buffer_len == current_cells@.len());
    }
    let divisor: u16 = neighbors_filter as u16;
    let mut row: usize = 0;
    while row < rows
        invariant
            grid_dims_ok(current_cells@, rows as int, cols as int),
            current_cells@ == old(current_cells)@,
            next_cells@.len() == rows * cols,
            rows * cols <= usize::MAX,
            filter_ok(filter@),
            growth@.len() == 256,
            1 <= neighbors_filter <= u16::MAX,
            divisor == neighbors_filter as u16,
            row <= rows,
            forall|k: int|
                0 <= k < row * cols ==> next_cells@[k] == lenia_next_cell(
                    old(current_cells)@,
                    rows as int,
                    cols as int,
                    toricgrid,
                    filter@,
                    neighbors_filter as int,
                    growth@,
                    k,
                ),
        decreases rows - row,
    {
        let mut col: usize = 0;
        while col < cols
            invariant
                grid_dims_ok(current_cells@, rows as int, cols as int),
                current_cells@ == old(current_cells)@,
                next_cells@.len() == rows * cols,
                rows * cols <= usize::MAX,
                filter_ok(filter@),
                growth@.len() == 256,
                1 <= neighbors_filter <= u16::MAX,
                divisor == neighbors_filter as u16,
                row < rows,
                col <= cols,
                forall|k: int|
                    0 <= k < row * cols + col ==> next_cells@[k] == lenia_next_cell(
                        old(current_cells)@,
                        rows as int,
                        cols as int,
                        toricgrid,
                        filter@,
                        neighbors_filter as int,
                        growth@,
                        k,
                    ),
            decreases cols - col,
        {
            proof {
                lemma_flat_index_in_range(rows as int, cols as int, row as int, col as int);
            }
            let index: usize = grid_index(row, col, cols);
            let weighted_sum: u16 = grid_convolution_neighbors_lenia(
                row,
                col,
                current_cells,
                rows,
                cols,
                toricgrid,
                filter,
            );
            // Truncating 16-bit to 8-bit reduction of the averaged value:
            // the low byte of the quotient.
            let average: u8 = ((weighted_sum / divisor) % 256) as u8;
            let updated_value: u8 = growth[average as usize];
            next_cells[index] = updated_value;
            proof {
                lemma_flat_index_coords(rows as int, cols as int, row as int, col as int);
                assert(average as int == lenia_average(
                    old(current_cells)@,
                    rows as int,
                    cols as int,
                    toricgrid,
                    filter@,
                    neighbors_filter as int,
                    index as int,
                ));
                assert(next_cells@[index as int] == lenia_next_cell(
                    old(current_cells)@,
                    rows as int,
                    cols as int,
                    toricgrid,
                    filter@,
                    neighbors_filter as int,
                    growth@,
                    index as int,
                ));
            }
            col += 1;
        }
        proof {
            assert(row * cols + cols == (row + 1) * cols) by (nonlinear_arith);
        }
        row += 1;
    }
    proof {
        assert(next_cells@ =~= lenia_step(
            old(current_cells)@,
            rows as int,
            cols as int,
            toricgrid,
            filter@,
            neighbors_filter as int,
            growth@,
        ));
    }
    core::mem::swap(current_cells, next_cells);
}

} // verus!
