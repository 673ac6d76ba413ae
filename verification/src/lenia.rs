//! The continuous grid: the same double-buffered cell store as the
//! discrete grid, plus a 3x3 convolution filter with its cached non-zero
//! weight count and a swappable growth mapping given as a 256-entry
//! table.

use vstd::prelude::*;

use crate::growth::{default_growth_seq, default_growth_table};
use crate::life::{
    grid_convolution_neighbors_lenia, grid_count_neighbors_conways, grid_index, grid_is_alive,
    grid_set_cell_state, grid_toggle_cell_state, grid_update_lenia,
};
use crate::model::{
    convolution_sum, count_nonzero, filter_ok, flat_index, lemma_count_nonzero_bounds,
    lemma_flat_index_in_range, lenia_step,
    neighbor_count, toggled_cells, value_alive,
};
use crate::rng::{fresh_rng, rng_below};

verus! {

/// Ghost state of a continuous grid: the discrete grid's state plus the
/// filter, its cached non-zero weight count and the growth table.
pub ghost struct LeniaModel {
    pub cells: Seq<u8>,
    pub scratch: Seq<u8>,
    pub rows: int,
    pub cols: int,
    pub toroidal: bool,
    pub filter: Seq<u8>,
    pub weight_count: int,
    pub growth: Seq<u8>,
}

/// Well-formedness of a continuous grid: a well-formed cell store, an
/// acceptable 3x3 filter with at least one non-zero weight, the cached
/// count agreeing with the filter, and a total growth table.
pub open spec fn lenia_model_ok(m: LeniaModel) -> bool {
    &&& m.rows >= 1
    &&& m.cols >= 1
    &&& m.rows * m.cols <= usize::MAX
    &&& m.cells.len() == m.rows * m.cols
    &&& m.scratch.len() == m.rows * m.cols
    &&& filter_ok(m.filter)
    &&& m.weight_count == count_nonzero(m.filter)
    &&& m.weight_count >= 1
    &&& m.growth.len() == 256
}

/// The default ring filter: weight `1` on all eight neighbor slots, `0`
/// on the unused center slot.
pub open spec fn ring_filter_seq() -> Seq<u8> {
    seq![1u8, 1u8, 1u8, 1u8, 0u8, 1u8, 1u8, 1u8, 1u8]
}

/// The ring filter has exactly eight non-zero weights and acceptable
/// magnitudes.
pub proof fn lemma_ring_filter_ok()
    ensures
        filter_ok(ring_filter_seq()),
        count_nonzero(ring_filter_seq()) == 8,
{
    reveal_with_fuel(count_nonzero, 10);
    assert(count_nonzero(ring_filter_seq()) == 8) by {
        reveal_with_fuel(count_nonzero, 10);
        assert(ring_filter_seq().drop_last() =~= seq![1u8, 1u8, 1u8, 1u8, 0u8, 1u8, 1u8, 1u8]);
    }
}

/// Builds the default ring filter.
fn ring_filter() -> (f: Vec<u8>)
    ensures
        f@ == ring_filter_seq(),
{
    let mut f: Vec<u8> = Vec::new();
    f.push(1);
    f.push(1);
    f.push(1);
    f.push(1);
    f.push(0);
    f.push(1);
    f.push(1);
    f.push(1);
    f.push(1);
    proof {
        assert(f@ =~= ring_filter_seq());
    }
    f
}

/// A grid of byte-valued density cells stepped by the continuous rule:
/// weighted convolution, truncating average, then the growth mapping.
#[derive(Clone)]
pub struct LeniaGrid {
    current_cells: Vec<u8>,
    next_cells: Vec<u8>,
    rows: usize,
    cols: usize,
    toricgrid: bool,
    filter: Vec<u8>,
    neighbors_filter: usize,
    growth: Vec<u8>,
}

impl View for LeniaGrid {
    type V = LeniaModel;

    closed spec fn view(&self) -> LeniaModel {
        LeniaModel {
            cells: self.current_cells@,
            scratch: self.next_cells@,
            rows: self.rows as int,
            cols: self.cols as int,
            toroidal: self.toricgrid,
            filter: self.filter@,
            weight_count: self.neighbors_filter as int,
            growth: self.growth@,
        }
    }
}

impl LeniaGrid {
    /// A new continuous grid of the given dimensions and topology with
    /// every cell at `0`, the default ring filter and the default growth
    /// mapping.
    pub fn new(rows: usize, cols: usize, toricgrid: bool) -> (g: LeniaGrid)
        requires
            rows >= 1,
            cols >= 1,
            rows * cols <= usize::MAX,
        ensures
            lenia_model_ok(g@),
            g@.rows == rows,
            g@.cols == cols,
            g@.toroidal == toricgrid,
            forall|k: int| 0 <= k < rows * cols ==> g@.cells[k] == 0,
            g@.filter == ring_filter_seq(),
            g@.weight_count == 8,
            g@.growth == default_growth_seq(),
    {
        proof {
            lemma_ring_filter_ok();
        }
        LeniaGrid {
            current_cells: vec![0u8; rows * cols],
            next_cells: vec![0u8; rows * cols],
            rows,
            cols,
            toricgrid,
            filter: ring_filter(),
            neighbors_filter: 8,
            growth: default_growth_table(),
        }
    }

    /// A new continuous grid whose cells are drawn at random, each
    /// uniformly over `0..=254` — the top value `255` is deliberately
    /// excluded (a half-open `0..255` range).
    pub fn new_random(rows: usize, cols: usize, toricgrid: bool) -> (g: LeniaGrid)
        requires
            rows >= 1,
            cols >= 1,
            rows * cols <= usize::MAX,
        ensures
            lenia_model_ok(g@),
            g@.rows == rows,
            g@.cols == cols,
            g@.toroidal == toricgrid,
            forall|k: int| 0 <= k < rows * cols ==> g@.cells[k] < 255,
            g@.filter == ring_filter_seq(),
            g@.weight_count == 8,
            g@.growth == default_growth_seq(),
    {
        proof {
            lemma_ring_filter_ok();
        }
        let mut rng = fresh_rng();
        let total: usize = rows * cols;
        let mut current_cells: Vec<u8> = Vec::new();
        let mut i: usize = 0;
        while i < total
            invariant
                i <= total,
                current_cells@.len() == i,
                forall|k: int| 0 <= k < i ==> current_cells@[k] < 255,
            decreases total - i,
        {
            let cell_state: u8 = rng_below(&mut rng, 255);
            current_cells.push(cell_state);
            i += 1;
        }
        LeniaGrid {
            current_cells,
            next_cells: vec![0u8; total],
            rows,
            cols,
            toricgrid,
            filter: ring_filter(),
            neighbors_filter: 8,
            growth: default_growth_table(),
        }
    }

    /// A continuous grid built from an existing row-major cell buffer,
    /// which must hold exactly one entry per cell.
    pub fn from_vect(cels: Vec<u8>, rows: usize, cols: usize, toricgrid: bool) -> (g: LeniaGrid)
        requires
            rows >= 1,
            cols >= 1,
            rows * cols <= usize::MAX,
            cels@.len() == rows * cols,
        ensures
            lenia_model_ok(g@),
            g@.rows == rows,
            g@.cols == cols,
            g@.toroidal == toricgrid,
            g@.cells == cels@,
            g@.filter == ring_filter_seq(),
            g@.weight_count == 8,
            g@.growth == default_growth_seq(),
    {
        proof {
            lemma_ring_filter_ok();
        }
        LeniaGrid {
            current_cells: cels,
            next_cells: vec![0u8; rows * cols],
            rows,
            cols,
            toricgrid,
            filter: ring_filter(),
            neighbors_filter: 8,
            growth: default_growth_table(),
        }
    }

    /// The weighted convolution of the neighborhood of `(row, col)` under
    /// the grid's filter and topology.
    pub fn get_value_neighbors_lenia(&self, row: usize, col: usize) -> (r: u16)
        requires
            lenia_model_ok(self@),
            row < self@.rows,
            col < self@.cols,
        ensures
            r == convolution_sum(
                self@.cells,
                self@.rows,
                self@.cols,
                self@.toroidal,
                self@.filter,
                row as int,
                col as int,
            ),
    {
        grid_convolution_neighbors_lenia(
            row,
            col,
            &self.current_cells,
            self.rows,
            self.cols,
            self.toricgrid,
            &self.filter,
        )
    }

    /// Replaces the convolution filter. The filter must be a 3x3 window
    /// with at least one non-zero weight — a degenerate all-zero filter
    /// would make the averaging divide by zero — and with weights small
    /// enough for the 16-bit accumulator. The cached non-zero weight
    /// count is recomputed.
    pub fn set_filter(&mut self, filter: Vec<u8>)
        requires
            lenia_model_ok(old(self)@),
            filter_ok(filter@),
            count_nonzero(filter@) >= 1,
        ensures
            lenia_model_ok(final(self)@),
            final(self)@ == (LeniaModel {
                filter: filter@,
                weight_count: count_nonzero(filter@),
                ..old(self)@
            }),
    {
        let mut count_neighbors: usize = 0;
        let mut i: usize = 0;
        while i < filter.len()
            invariant
                filter_ok(filter@),
                i <= filter@.len(),
                count_neighbors <= i,
                count_neighbors == count_nonzero(filter@.take(i as int)),
            decreases filter@.len() - i,
        {
            proof {
                assert(filter@.take(i + 1).drop_last() =~= filter@.take(i as int));
                assert(filter@.take(i + 1).last() == filter@[i as int]);
            }
            if filter[i] != 0 {
                count_neighbors += 1;
            }
            i += 1;
        }
        proof {
            assert(filter@.take(filter@.len() as int) =~= filter@);
        }
        self.neighbors_filter = count_neighbors;
        self.filter = filter;
    }

    /// Replaces the growth mapping. The mapping is given pointwise: entry
    /// `v` of the table is the next cell value for an averaged
    /// neighborhood value of `v`.
    pub fn set_growth_function(&mut self, growth: Vec<u8>)
        requires
            lenia_model_ok(old(self)@),
            growth@.len() == 256,
        ensures
            lenia_model_ok(final(self)@),
            final(self)@ == (LeniaModel { growth: growth@, ..old(self)@ }),
    {
        self.growth = growth;
    }

    /// The number of rows of the grid.
    pub fn rows(&self) -> (r: usize)
        ensures
            r == self@.rows,
    {
        self.rows
    }

    /// The number of columns of the grid.
    pub fn cols(&self) -> (r: usize)
        ensures
            r == self@.cols,
    {
        self.cols
    }

    /// Whether the edges of the grid wrap around, forming a torus.
    pub fn is_toricgrid(&self) -> (r: bool)
        ensures
            r == self@.toroidal,
    {
        self.toricgrid
    }

    /// A read-only view of the current cell buffer, in row-major order.
    pub fn current_cells(&self) -> (r: &Vec<u8>)
        ensures
            r@ == self@.cells,
    {
        &self.current_cells
    }

    /// Overwrites the cell at `(row, col)` with `alive`; every other cell
    /// and the grid's configuration are untouched.
    pub fn set_cell_state(&mut self, row: usize, col: usize, alive: u8)
        requires
            lenia_model_ok(old(self)@),
            row < old(self)@.rows,
            col < old(self)@.cols,
        ensures
            lenia_model_ok(final(self)@),
            final(self)@ == (LeniaModel {
                cells: old(self)@.cells.update(
                    flat_index(row as int, col as int, old(self)@.cols),
                    alive,
                ),
                ..old(self)@
            }),
    {
        let cols = self.cols;
        proof {
            lemma_flat_index_in_range(self@.rows, self@.cols, row as int, col as int);
        }
        grid_set_cell_state(row, col, alive, &mut self.current_cells, cols);
    }

    /// Inverts the alive/dead state of the cell at `(row, col)`: a live
    /// cell becomes `0`, a dead cell becomes `1`. This is a binary
    /// toggle; for a continuous grid it is only meaningful for cells
    /// holding `0` or `1`.
    pub fn toggle_cell_state(&mut self, row: usize, col: usize)
        requires
            lenia_model_ok(old(self)@),
            row < old(self)@.rows,
            col < old(self)@.cols,
        ensures
            lenia_model_ok(final(self)@),
            final(self)@ == (LeniaModel {
                cells: toggled_cells(
                    old(self)@.cells,
                    flat_index(row as int, col as int, old(self)@.cols),
                ),
                ..old(self)@
            }),
    {
        let cols = self.cols;
        proof {
            lemma_flat_index_in_range(self@.rows, self@.cols, row as int, col as int);
        }
        grid_toggle_cell_state(row, col, &mut self.current_cells, cols);
    }

    /// Whether the cell at `(row, col)` is alive, that is, holds a value
    /// of `1` or above.
    pub fn is_alive(&self, row: usize, col: usize) -> (r: bool)
        requires
            lenia_model_ok(self@),
            row < self@.rows,
            col < self@.cols,
        ensures
            r == value_alive(self@.cells[flat_index(row as int, col as int, self@.cols)]),
    {
        proof {
            lemma_flat_index_in_range(self@.rows, self@.cols, row as int, col as int);
        }
        grid_is_alive(row, col, &self.current_cells, self.cols)
    }

    /// Flat storage offset of the cell at `(row, col)`.
    pub fn index(&self, row: usize, col: usize) -> (r: usize)
        requires
            lenia_model_ok(self@),
            row < self@.rows,
            col < self@.cols,
        ensures
            r == flat_index(row as int, col as int, self@.cols),
    {
        proof {
            lemma_flat_index_in_range(self@.rows, self@.cols, row as int, col as int);
        }
        grid_index(row, col, self.cols)
    }

    /// Number of live cells among the eight neighbor slots of
    /// `(row, col)`, under the grid's topology. Never exceeds `8`.
    pub fn count_neighbors(&self, row: usize, col: usize) -> (count: usize)
        requires
            lenia_model_ok(self@),
            row < self@.rows,
            col < self@.cols,
        ensures
            count == neighbor_count(
                self@.cells,
                self@.rows,
                self@.cols,
                self@.toroidal,
                row as int,
                col as int,
            ),
            count <= 8,
    {
        grid_count_neighbors_conways(
            row,
            col,
            &self.current_cells,
            self.rows,
            self.cols,
            self.toricgrid,
        )
    }

    /// Advances the grid by one generation of the continuous rule: every
    /// cell becomes the growth mapping of its truncated average
    /// convolution value, computed from the prior snapshot; the buffers
    /// are then swapped, never copied.
    pub fn update(&mut self)
        requires
            lenia_model_ok(old(self)@),
        ensures
            lenia_model_ok(final(self)@),
            final(self)@ == (LeniaModel {
                cells: lenia_step(
                    old(self)@.cells,
                    old(self)@.rows,
                    old(self)@.cols,
                    old(self)@.toroidal,
                    old(self)@.filter,
                    old(self)@.weight_count,
                    old(self)@.growth,
                ),
                scratch: old(self)@.cells,
                ..old(self)@
            }),
    {
        proof {
            lemma_count_nonzero_bounds(self@.filter);
        }
        grid_update_lenia(
            &mut self.current_cells,
            &mut self.next_cells,
            self.rows,
            self.cols,
            self.toricgrid,
            &self.filter,
            self.neighbors_filter,
            &self.growth,
        );
    }
}

} // verus!
