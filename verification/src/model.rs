//! Mathematical model of the automaton: flat indexing, the 3x3 neighborhood
//! under bounded and toroidal topologies, the three aggregation policies
//! (live count, plain sum, weighted convolution) and the two transition rules.

use vstd::prelude::*;

verus! {

/// Flat storage offset of the cell at `(row, col)` in a row-major grid.
pub open spec fn flat_index(row: int, col: int, cols: int) -> int {
    row * cols + col
}

/// A well-formed cell buffer: positive dimensions and one entry per cell.
pub open spec fn grid_dims_ok(cells: Seq<u8>, rows: int, cols: int) -> bool {
    &&& rows >= 1
    &&& cols >= 1
    &&& cells.len() == rows * cols
}

/// A flat offset of a valid cell position stays inside the buffer.
pub proof fn lemma_flat_index_in_range(rows: int, cols: int, row: int, col: int)
    requires
        0 <= row < rows,
        0 <= col < cols,
    ensures
        0 <= flat_index(row, col, cols) < rows * cols,
{
    assert(row * cols + col < rows * cols) by (nonlinear_arith)
        requires
            0 <= row < rows,
            0 <= col < cols,
    ;
}

/// Wrap-around correction of a toroidal grid for an index one step out of
/// `[0, n)`: one step below `0` maps to `n - 1`, one step past the last
/// index maps to `0`.
pub open spec fn wrap_index(i: int, n: int) -> int {
    if i < 0 {
        n - 1
    } else if i >= n {
        0
    } else {
        i
    }
}

/// Whether a cell value counts as alive: any value of `1` or above.
pub open spec fn value_alive(v: u8) -> bool {
    v >= 1
}

/// The binary toggle of a cell value: a live cell dies, a dead cell is set
/// to `1`.
pub open spec fn toggle_value(v: u8) -> u8 {
    if v >= 1 {
        0
    } else {
        1
    }
}

/// The cell buffer after a binary toggle of the cell at flat position
/// `k`.
pub open spec fn toggled_cells(cells: Seq<u8>, k: int) -> Seq<u8> {
    cells.update(k, toggle_value(cells[k]))
}

/// The cell found at neighbor slot `(dr, dc)` of center `(row, col)`.
/// The center slot itself never contributes. A toroidal grid wraps the
/// offset position, so all eight slots are present; a bounded grid treats
/// out-of-range positions as absent.
pub open spec fn slot_cell(
    cells: Seq<u8>,
    rows: int,
    cols: int,
    toroidal: bool,
    row: int,
    col: int,
    dr: int,
    dc: int,
) -> Option<u8> {
    if dr == 0 && dc == 0 {
        None
    } else if toroidal {
        Some(cells[flat_index(wrap_index(row + dr, rows), wrap_index(col + dc, cols), cols)])
    } else if 0 <= row + dr < rows && 0 <= col + dc < cols {
        Some(cells[flat_index(row + dr, col + dc, cols)])
    } else {
        None
    }
}

/// Contribution of one neighbor slot to the live count: `1` for a live
/// cell, `0` for a dead cell or an absent slot.
pub open spec fn slot_alive(
    cells: Seq<u8>,
    rows: int,
    cols: int,
    toroidal: bool,
    row: int,
    col: int,
    dr: int,
    dc: int,
) -> int {
    match slot_cell(cells, rows, cols, toroidal, row, col, dr, dc) {
        Some(v) => if value_alive(v) { 1int } else { 0 },
        None => 0,
    }
}

/// Contribution of one neighbor slot to the plain sum: the cell value, or
/// `0` for an absent slot.
pub open spec fn slot_value(
    cells: Seq<u8>,
    rows: int,
    cols: int,
    toroidal: bool,
    row: int,
    col: int,
    dr: int,
    dc: int,
) -> int {
    match slot_cell(cells, rows, cols, toroidal, row, col, dr, dc) {
        Some(v) => v as int,
        None => 0,
    }
}

/// Contribution of one neighbor slot to the weighted convolution: the cell
/// value times the filter weight of that slot, or `0` for an absent slot.
/// The filter is a row-major 3x3 window indexed by `(dr + 1) * 3 + dc + 1`.
pub open spec fn slot_weighted(
    cells: Seq<u8>,
    rows: int,
    cols: int,
    toroidal: bool,
    filter: Seq<u8>,
    row: int,
    col: int,
    dr: int,
    dc: int,
) -> int {
    match slot_cell(cells, rows, cols, toroidal, row, col, dr, dc) {
        Some(v) => v * filter[(dr + 1) * 3 + dc + 1],
        None => 0,
    }
}

/// Number of live cells among the eight neighbor slots of `(row, col)`.
pub open spec fn neighbor_count(
    cells: Seq<u8>,
    rows: int,
    cols: int,
    toroidal: bool,
    row: int,
    col: int,
) -> int {
    slot_alive(cells, rows, cols, toroidal, row, col, -1, -1)
        + slot_alive(cells, rows, cols, toroidal, row, col, -1, 0)
        + slot_alive(cells, rows, cols, toroidal, row, col, -1, 1)
        + slot_alive(cells, rows, cols, toroidal, row, col, 0, -1)
        + slot_alive(cells, rows, cols, toroidal, row, col, 0, 1)
        + slot_alive(cells, rows, cols, toroidal, row, col, 1, -1)
        + slot_alive(cells, rows, cols, toroidal, row, col, 1, 0)
        + slot_alive(cells, rows, cols, toroidal, row, col, 1, 1)
}

/// Arithmetic sum of the cell values over the eight neighbor slots.
pub open spec fn neighbor_value_sum(
    cells: Seq<u8>,
    rows: int,
    cols: int,
    toroidal: bool,
    row: int,
    col: int,
) -> int {
    slot_value(cells, rows, cols, toroidal, row, col, -1, -1)
        + slot_value(cells, rows, cols, toroidal, row, col, -1, 0)
        + slot_value(cells, rows, cols, toroidal, row, col, -1, 1)
        + slot_value(cells, rows, cols, toroidal, row, col, 0, -1)
        + slot_value(cells, rows, cols, toroidal, row, col, 0, 1)
        + slot_value(cells, rows, cols, toroidal, row, col, 1, -1)
        + slot_value(cells, rows, cols, toroidal, row, col, 1, 0)
        + slot_value(cells, rows, cols, toroidal, row, col, 1, 1)
}

/// Weighted sum of the cell values over the eight neighbor slots, each
/// multiplied by its 3x3 filter weight. The center weight is never used.
pub open spec fn convolution_sum(
    cells: Seq<u8>,
    rows: int,
    cols: int,
    toroidal: bool,
    filter: Seq<u8>,
    row: int,
    col: int,
) -> int {
    slot_weighted(cells, rows, cols, toroidal, filter, row, col, -1, -1)
        + slot_weighted(cells, rows, cols, toroidal, filter, row, col, -1, 0)
        + slot_weighted(cells, rows, cols, toroidal, filter, row, col, -1, 1)
        + slot_weighted(cells, rows, cols, toroidal, filter, row, col, 0, -1)
        + slot_weighted(cells, rows, cols, toroidal, filter, row, col, 0, 1)
        + slot_weighted(cells, rows, cols, toroidal, filter, row, col, 1, -1)
        + slot_weighted(cells, rows, cols, toroidal, filter, row, col, 1, 0)
        + slot_weighted(cells, rows, cols, toroidal, filter, row, col, 1, 1)
}

/// A 3x3 filter acceptable for a 16-bit convolution accumulator: nine
/// weights, each at most `32`, so that eight neighbors at value `255`
/// cannot overflow (`8 * 255 * 32 <= u16::MAX`).
pub open spec fn filter_ok(filter: Seq<u8>) -> bool {
    &&& filter.len() == 9
    &&& forall|k: int| 0 <= k < 9 ==> filter[k] <= 32
}

/// Number of non-zero entries of a weight sequence.
pub open spec fn count_nonzero(filter: Seq<u8>) -> int
    decreases filter.len(),
{
    if filter.len() == 0 {
        0
    } else {
        count_nonzero(filter.drop_last()) + if filter.last() != 0 {
            1int
        } else {
            0
        }
    }
}

/// The display symbol of one cell: a filled square for a live cell, an
/// empty square for a dead one.
pub open spec fn render_cell(v: u8) -> char {
    if v >= 1 {
        '■'
    } else {
        '□'
    }
}

/// The rendering of one grid row: one symbol per cell, closed by a line
/// break.
pub open spec fn render_row(cells: Seq<u8>, cols: int, row: int) -> Seq<char> {
    Seq::new(cols as nat, |c: int| render_cell(cells[flat_index(row, c, cols)])) + seq!['\n']
}

/// The rendering of the first `rows` rows of a grid, top to bottom.
pub open spec fn render_grid(cells: Seq<u8>, rows: int, cols: int) -> Seq<char>
    decreases rows,
{
    if rows <= 0 {
        Seq::empty()
    } else {
        render_grid(cells, rows - 1, cols) + render_row(cells, cols, rows - 1)
    }
}

/// A weight sequence has between `0` and `len` non-zero entries.
pub proof fn lemma_count_nonzero_bounds(s: Seq<u8>)
    ensures
        0 <= count_nonzero(s) <= s.len(),
    decreases s.len(),
{
    if s.len() > 0 {
        lemma_count_nonzero_bounds(s.drop_last());
    }
}

/// The discrete survival/birth rule applied to one cell. A cell whose
/// stored value is strictly above `1` keeps that exact value when it has
/// two or three live neighbors; any cell with exactly three live neighbors
/// is (re)born at value `1`; every other cell dies. The strict `> 1`
/// survival guard is a deliberate, preserved behavior of the rule: a live
/// cell stored as exactly `1` with two live neighbors dies.
pub open spec fn conways_rule(cell: u8, neighbors: int) -> u8 {
    if (neighbors == 2 || neighbors == 3) && cell > 1 {
        cell
    } else if neighbors == 3 {
        1
    } else {
        0
    }
}

/// The value the discrete rule writes at flat position `k` of the next
/// generation.
pub open spec fn conways_next_cell(
    cells: Seq<u8>,
    rows: int,
    cols: int,
    toroidal: bool,
    k: int,
) -> u8 {
    conways_rule(cells[k], neighbor_count(cells, rows, cols, toroidal, k / cols, k % cols))
}

/// One full generation of the discrete rule, computed from a consistent
/// snapshot of the whole grid.
pub open spec fn conways_step(cells: Seq<u8>, rows: int, cols: int, toroidal: bool) -> Seq<u8> {
    Seq::new((rows * cols) as nat, |k: int| conways_next_cell(cells, rows, cols, toroidal, k))
}

/// The averaged neighborhood value of the continuous rule at flat position
/// `k`: the weighted convolution divided by the non-zero weight count
/// (truncating integer division), reduced to a byte as the 16-bit to 8-bit
/// cast of the accumulator does.
pub open spec fn lenia_average(
    cells: Seq<u8>,
    rows: int,
    cols: int,
    toroidal: bool,
    filter: Seq<u8>,
    weight_count: int,
    k: int,
) -> int {
    (convolution_sum(cells, rows, cols, toroidal, filter, k / cols, k % cols) / weight_count) % 256
}

/// The value the continuous rule writes at flat position `k` of the next
/// generation: the growth mapping applied to the averaged neighborhood
/// value. The growth mapping is given pointwise, as a 256-entry table.
pub open spec fn lenia_next_cell(
    cells: Seq<u8>,
    rows: int,
    cols: int,
    toroidal: bool,
    filter: Seq<u8>,
    weight_count: int,
    growth: Seq<u8>,
    k: int,
) -> u8 {
    growth[lenia_average(cells, rows, cols, toroidal, filter, weight_count, k)]
}

/// One full generation of the continuous rule, computed from a consistent
/// snapshot of the whole grid.
pub open spec fn lenia_step(
    cells: Seq<u8>,
    rows: int,
    cols: int,
    toroidal: bool,
    filter: Seq<u8>,
    weight_count: int,
    growth: Seq<u8>,
) -> Seq<u8> {
    Seq::new(
        (rows * cols) as nat,
        |k: int| lenia_next_cell(cells, rows, cols, toroidal, filter, weight_count, growth, k),
    )
}

/// The live-neighbor count lies in `[0, 8]` for every grid, position and
/// topology: each of the eight slots contributes either `0` or `1`.
pub proof fn lemma_neighbor_count_range(
    cells: Seq<u8>,
    rows: int,
    cols: int,
    toroidal: bool,
    row: int,
    col: int,
)
    ensures
        0 <= neighbor_count(cells, rows, cols, toroidal, row, col) <= 8,
{
}

/// Both coordinates recovered from a valid flat offset are in range.
pub proof fn lemma_flat_coords_bounds(rows: int, cols: int, k: int)
    requires
        rows >= 1,
        cols >= 1,
        0 <= k < rows * cols,
    ensures
        0 <= k / cols < rows,
        0 <= k % cols < cols,
{
    vstd::arithmetic::div_mod::lemma_fundamental_div_mod(k, cols);
    vstd::arithmetic::div_mod::lemma_mod_bound(k, cols);
    let q = k / cols;
    let r = k % cols;
    assert(k == cols * q + r);
    assert(0 <= q < rows) by (nonlinear_arith)
        requires
            k == cols * q + r,
            0 <= r < cols,
            0 <= k < rows * cols,
            rows >= 1,
            cols >= 1,
    ;
}

/// Distinct valid positions have distinct flat offsets.
pub proof fn lemma_flat_index_injective(rows: int, cols: int, r1: int, c1: int, r2: int, c2: int)
    requires
        0 <= r1 < rows,
        0 <= c1 < cols,
        0 <= r2 < rows,
        0 <= c2 < cols,
    ensures
        (flat_index(r1, c1, cols) == flat_index(r2, c2, cols)) == (r1 == r2 && c1 == c2),
{
    vstd::arithmetic::div_mod::lemma_fundamental_div_mod_converse(
        flat_index(r1, c1, cols),
        cols,
        r1,
        c1,
    );
    vstd::arithmetic::div_mod::lemma_fundamental_div_mod_converse(
        flat_index(r2, c2, cols),
        cols,
        r2,
        c2,
    );
}

/// Writing a cell is read back exactly: after an update of `(row, col)`
/// to `v`, that cell holds `v` — for every valid position and every byte
/// value — and every other cell is untouched.
pub proof fn lemma_set_get_round_trip(
    cells: Seq<u8>,
    rows: int,
    cols: int,
    row: int,
    col: int,
    v: u8,
)
    requires
        grid_dims_ok(cells, rows, cols),
        0 <= row < rows,
        0 <= col < cols,
    ensures
        cells.update(flat_index(row, col, cols), v)[flat_index(row, col, cols)] == v,
        forall|r2: int, c2: int|
            0 <= r2 < rows && 0 <= c2 < cols && !(r2 == row && c2 == col)
                ==> cells.update(flat_index(row, col, cols), v)[flat_index(r2, c2, cols)]
                == cells[flat_index(r2, c2, cols)],
{
    crate::model::lemma_flat_index_in_range(rows, cols, row, col);
    assert forall|r2: int, c2: int|
        0 <= r2 < rows && 0 <= c2 < cols && !(r2 == row && c2 == col)
            implies cells.update(flat_index(row, col, cols), v)[flat_index(r2, c2, cols)]
            == cells[flat_index(r2, c2, cols)] by {
        crate::model::lemma_flat_index_in_range(rows, cols, r2, c2);
        lemma_flat_index_injective(rows, cols, r2, c2, row, col);
    }
}

/// Toggling the same cell twice restores the alive/dead classification
/// of every cell. The stored byte is not necessarily restored: a live
/// value above `1` comes back as `1`.
pub proof fn lemma_toggle_twice_restores_classification(cells: Seq<u8>, k: int)
    requires
        0 <= k < cells.len(),
    ensures
        forall|j: int|
            0 <= j < cells.len() ==> value_alive(toggled_cells(toggled_cells(cells, k), k)[j])
                == value_alive(cells[j]),
{
}

/// One neighbor slot of an all-dead grid contributes nothing to the live
/// count.
proof fn lemma_slot_alive_zero(
    cells: Seq<u8>,
    rows: int,
    cols: int,
    toroidal: bool,
    row: int,
    col: int,
    dr: int,
    dc: int,
)
    requires
        grid_dims_ok(cells, rows, cols),
        forall|k: int| 0 <= k < cells.len() ==> cells[k] == 0,
        0 <= row < rows,
        0 <= col < cols,
        -1 <= dr <= 1,
        -1 <= dc <= 1,
    ensures
        slot_alive(cells, rows, cols, toroidal, row, col, dr, dc) == 0,
{
    if dr == 0 && dc == 0 {
    } else if toroidal {
        crate::model::lemma_flat_index_in_range(
            rows,
            cols,
            wrap_index(row + dr, rows),
            wrap_index(col + dc, cols),
        );
    } else if 0 <= row + dr < rows && 0 <= col + dc < cols {
        crate::model::lemma_flat_index_in_range(rows, cols, row + dr, col + dc);
    }
}

/// An all-dead grid has no live neighbors anywhere, so one discrete step
/// produces an all-dead grid again: no spontaneous birth is possible
/// without exactly three live neighbors.
pub proof fn lemma_dead_grid_stays_dead(cells: Seq<u8>, rows: int, cols: int, toroidal: bool)
    requires
        grid_dims_ok(cells, rows, cols),
        forall|k: int| 0 <= k < cells.len() ==> cells[k] == 0,
    ensures
        forall|k: int|
            0 <= k < rows * cols ==> conways_step(cells, rows, cols, toroidal)[k] == 0,
{
    assert forall|k: int|
        0 <= k < rows * cols implies conways_step(cells, rows, cols, toroidal)[k] == 0 by {
        lemma_flat_coords_bounds(rows, cols, k);
        let row = k / cols;
        let col = k % cols;
        lemma_slot_alive_zero(cells, rows, cols, toroidal, row, col, -1, -1);
        lemma_slot_alive_zero(cells, rows, cols, toroidal, row, col, -1, 0);
        lemma_slot_alive_zero(cells, rows, cols, toroidal, row, col, -1, 1);
        lemma_slot_alive_zero(cells, rows, cols, toroidal, row, col, 0, -1);
        lemma_slot_alive_zero(cells, rows, cols, toroidal, row, col, 0, 1);
        lemma_slot_alive_zero(cells, rows, cols, toroidal, row, col, 1, -1);
        lemma_slot_alive_zero(cells, rows, cols, toroidal, row, col, 1, 0);
        lemma_slot_alive_zero(cells, rows, cols, toroidal, row, col, 1, 1);
        assert(neighbor_count(cells, rows, cols, toroidal, row, col) == 0);
    }
}

/// One neighbor slot of a fully live grid contributes one to the live
/// count of a toroidal grid, and one to the live count of a bounded grid
/// exactly when the offset position is on the grid.
proof fn lemma_slot_alive_full(
    cells: Seq<u8>,
    rows: int,
    cols: int,
    toroidal: bool,
    row: int,
    col: int,
    dr: int,
    dc: int,
)
    requires
        grid_dims_ok(cells, rows, cols),
        forall|k: int| 0 <= k < cells.len() ==> value_alive(cells[k]),
        0 <= row < rows,
        0 <= col < cols,
        -1 <= dr <= 1,
        -1 <= dc <= 1,
        !(dr == 0 && dc == 0),
    ensures
        toroidal ==> slot_alive(cells, rows, cols, toroidal, row, col, dr, dc) == 1,
        !toroidal ==> slot_alive(cells, rows, cols, toroidal, row, col, dr, dc) == (
        if 0 <= row + dr < rows && 0 <= col + dc < cols {
            1int
        } else {
            0int
        }),
{
    if toroidal {
        crate::model::lemma_flat_index_in_range(
            rows,
            cols,
            wrap_index(row + dr, rows),
            wrap_index(col + dc, cols),
        );
    } else if 0 <= row + dr < rows && 0 <= col + dc < cols {
        crate::model::lemma_flat_index_in_range(rows, cols, row + dr, col + dc);
    }
}

/// At the `(0, 0)` corner of a fully live grid, the toroidal and the
/// bounded neighbor counts differ exactly by the number of off-grid
/// neighbor slots of that corner: five of the eight slots fall outside a
/// bounded grid, so the counts are `8` and `3`.
pub proof fn lemma_corner_toroidal_vs_bounded(cells: Seq<u8>, rows: int, cols: int)
    requires
        grid_dims_ok(cells, rows, cols),
        rows >= 2,
        cols >= 2,
        forall|k: int| 0 <= k < cells.len() ==> value_alive(cells[k]),
    ensures
        neighbor_count(cells, rows, cols, true, 0, 0) == 8,
        neighbor_count(cells, rows, cols, false, 0, 0) == 3,
        neighbor_count(cells, rows, cols, true, 0, 0) - neighbor_count(
            cells,
            rows,
            cols,
            false,
            0,
            0,
        ) == 5,
{
    lemma_slot_alive_full(cells, rows, cols, true, 0, 0, -1, -1);
    lemma_slot_alive_full(cells, rows, cols, true, 0, 0, -1, 0);
    lemma_slot_alive_full(cells, rows, cols, true, 0, 0, -1, 1);
    lemma_slot_alive_full(cells, rows, cols, true, 0, 0, 0, -1);
    lemma_slot_alive_full(cells, rows, cols, true, 0, 0, 0, 1);
    lemma_slot_alive_full(cells, rows, cols, true, 0, 0, 1, -1);
    lemma_slot_alive_full(cells, rows, cols, true, 0, 0, 1, 0);
    lemma_slot_alive_full(cells, rows, cols, true, 0, 0, 1, 1);
    lemma_slot_alive_full(cells, rows, cols, false, 0, 0, -1, -1);
    lemma_slot_alive_full(cells, rows, cols, false, 0, 0, -1, 0);
    lemma_slot_alive_full(cells, rows, cols, false, 0, 0, -1, 1);
    lemma_slot_alive_full(cells, rows, cols, false, 0, 0, 0, -1);
    lemma_slot_alive_full(cells, rows, cols, false, 0, 0, 0, 1);
    lemma_slot_alive_full(cells, rows, cols, false, 0, 0, 1, -1);
    lemma_slot_alive_full(cells, rows, cols, false, 0, 0, 1, 0);
    lemma_slot_alive_full(cells, rows, cols, false, 0, 0, 1, 1);
}

} // verus!
