//! The discrete grid: two same-length flat cell buffers, fixed
//! dimensions and a topology flag, stepped by the discrete
//! survival/birth rule with a buffer swap.

use vstd::prelude::*;

use crate::life::{
    grid_count_neighbors_conways, grid_index, grid_is_alive, grid_set_cell_state,
    grid_toggle_cell_state, grid_update_conways,
};
use crate::model::{
    conways_step, flat_index, lemma_flat_index_in_range, neighbor_count, toggled_cells,
    value_alive,
};
use crate::rng::{fresh_rng, rng_below};

verus! {

/// Ghost state of a discrete grid: the visible cell buffer, the scratch
/// buffer it alternates with, the dimensions and the topology.
pub ghost struct GridModel {
    pub cells: Seq<u8>,
    pub scratch: Seq<u8>,
    pub rows: int,
    pub cols: int,
    pub toroidal: bool,
}

/// Well-formedness of a grid: positive dimensions that fit the machine,
/// and both buffers holding exactly one entry per cell.
pub open spec fn model_ok(m: GridModel) -> bool {
    &&& m.rows >= 1
    &&& m.cols >= 1
    &&& m.rows * m.cols <= usize::MAX
    &&& m.cells.len() == m.rows * m.cols
    &&& m.scratch.len() == m.rows * m.cols
}

/// A grid of byte-valued cells stepped by the discrete survival/birth
/// rule. Exactly one of the two buffers is current at any time; an update
/// fills the other one and swaps their roles.
#[derive(Clone)]
pub struct Grid {
    current_cells: Vec<u8>,
    next_cells: Vec<u8>,
    rows: usize,
    cols: usize,
    toricgrid: bool,
}

impl View for Grid {
    type V = GridModel;

    closed spec fn view(&self) -> GridModel {
        GridModel {
            cells: self.current_cells@,
            scratch: self.next_cells@,
            rows: self.rows as int,
            cols: self.cols as int,
            toroidal: self.toricgrid,
        }
    }
}

impl Grid {
    /// A new grid of the given dimensions and topology with every cell
    /// dead.
    pub fn new(rows: usize, cols: usize, toricgrid: bool) -> (g: Grid)
        requires
            rows >= 1,
            cols >= 1,
            rows * cols <= usize::MAX,
        ensures
            model_ok(g@),
            g@.rows == rows,
            g@.cols == cols,
            g@.toroidal == toricgrid,
            forall|k: int| 0 <= k < rows * cols ==> g@.cells[k] == 0,
    {
        Grid {
            current_cells: vec![0u8; rows * cols],
            next_cells: vec![0u8; rows * cols],
            rows,
            cols,
            toricgrid,
        }
    }

    /// A new grid whose cells are drawn at random, each either `0` (dead)
    /// or `1` (alive).
    pub fn new_random(rows: usize, cols: usize, toricgrid: bool) -> (g: Grid)
        requires
            rows >= 1,
            cols >= 1,
            rows * cols <= usize::MAX,
        ensures
            model_ok(g@),
            g@.rows == rows,
            g@.cols == cols,
            g@.toroidal == toricgrid,
            forall|k: int| 0 <= k < rows * cols ==> g@.cells[k] < 2,
    {
        let mut rng = fresh_rng();
        let total: usize = rows * cols;
        let mut current_cells: Vec<u8> = Vec::new();
        let mut i: usize = 0;
        while i < total
            invariant
                i <= total,
                current_cells@.len() == i,
                forall|k: int| 0 <= k < i ==> current_cells@[k] < 2,
            decreases total - i,
        {
            let cell_state: u8 = rng_below(&mut rng, 2);
            current_cells.push(cell_state);
            i += 1;
        }
        Grid { current_cells, next_cells: vec![0u8; total], rows, cols, toricgrid }
    }

    /// A grid built from an existing row-major cell buffer, which must
    /// hold exactly one entry per cell.
    pub fn from_vect(cels: Vec<u8>, rows: usize, cols: usize, toricgrid: bool) -> (g: Grid)
        requires
            rows >= 1,
            cols >= 1,
            rows * cols <= usize::MAX,
            cels@.len() == rows * cols,
        ensures
            model_ok(g@),
            g@.rows == rows,
            g@.cols == cols,
            g@.toroidal == toricgrid,
            g@.cells == cels@,
    {
        Grid { current_cells: cels, next_cells: vec![0u8; rows * cols], rows, cols, toricgrid }
    }

    /// The number of rows of the grid.
    pub fn rows(&self) -> (r: usize)
        ensures
            r == self@.rows,
    {
        self.rows
    }

    /// The number of columns of the grid.
    pub fn cols(&self) -> (r: usize)
        ensures
            r == self@.cols,
    {
        self.cols
    }

    /// Whether the edges of the grid wrap around, forming a torus.
    pub fn is_toricgrid(&self) -> (r: bool)
        ensures
            r == self@.toroidal,
    {
        self.toricgrid
    }

    /// A read-only view of the current cell buffer, in row-major order.
    pub fn current_cells(&self) -> (r: &Vec<u8>)
        ensures
            r@ == self@.cells,
    {
        &self.current_cells
    }

    /// Overwrites the cell at `(row, col)` with `alive`; every other cell
    /// and the grid's shape are untouched.
    pub fn set_cell_state(&mut self, row: usize, col: usize, alive: u8)
        requires
            model_ok(old(self)@),
            row < old(self)@.rows,
            col < old(self)@.cols,
        ensures
            model_ok(final(self)@),
            final(self)@ == (GridModel {
                cells: old(self)@.cells.update(
                    flat_index(row as int, col as int, old(self)@.cols),
                    alive,
                ),
                ..old(self)@
            }),
    {
        let cols = self.cols;
        proof {
            lemma_flat_index_in_range(
                self@.rows,
                self@.cols,
                row as int,
                col as int,
            );
        }
        grid_set_cell_state(row, col, alive, &mut self.current_cells, cols);
    }

    /// Inverts the alive/dead state of the cell at `(row, col)`: a live
    /// cell becomes `0`, a dead cell becomes `1`.
    pub fn toggle_cell_state(&mut self, row: usize, col: usize)
        requires
            model_ok(old(self)@),
            row < old(self)@.rows,
            col < old(self)@.cols,
        ensures
            model_ok(final(self)@),
            final(self)@ == (GridModel {
                cells: toggled_cells(
                    old(self)@.cells,
                    flat_index(row as int, col as int, old(self)@.cols),
                ),
                ..old(self)@
            }),
    {
        let cols = self.cols;
        proof {
            lemma_flat_index_in_range(
                self@.rows,
                self@.cols,
                row as int,
                col as int,
            );
        }
        grid_toggle_cell_state(row, col, &mut self.current_cells, cols);
    }

    /// Whether the cell at `(row, col)` is alive, that is, holds a value
    /// of `1` or above.
    pub fn is_alive(&self, row: usize, col: usize) -> (r: bool)
        requires
            model_ok(self@),
            row < self@.rows,
            col < self@.cols,
        ensures
            r == value_alive(self@.cells[flat_index(row as int, col as int, self@.cols)]),
    {
        proof {
            lemma_flat_index_in_range(
                self@.rows,
                self@.cols,
                row as int,
                col as int,
            );
        }
        grid_is_alive(row, col, &self.current_cells, self.cols)
    }

    /// Flat storage offset of the cell at `(row, col)`.
    pub fn index(&self, row: usize, col: usize) -> (r: usize)
        requires
            model_ok(self@),
            row < self@.rows,
            col < self@.cols,
        ensures
            r == flat_index(row as int, col as int, self@.cols),
    {
        proof {
            lemma_flat_index_in_range(
                self@.rows,
                self@.cols,
                row as int,
                col as int,
            );
        }
        grid_index(row, col, self.cols)
    }

    /// Number of live cells among the eight neighbor slots of
    /// `(row, col)`, under the grid's topology. Never exceeds `8`.
    pub fn count_neighbors(&self, row: usize, col: usize) -> (count: usize)
        requires
            model_ok(self@),
            row < self@.rows,
            col < self@.cols,
        ensures
            count == neighbor_count(
                self@.cells,
                self@.rows,
                self@.cols,
                self@.toroidal,
                row as int,
                col as int,
            ),
            count <= 8,
    {
        grid_count_neighbors_conways(
            row,
            col,
            &self.current_cells,
            self.rows,
            self.cols,
            self.toricgrid,
        )
    }

    /// Advances the grid by one generation of the discrete rule. The new
    /// generation is computed entirely from the prior snapshot, written to
    /// the scratch buffer, and the buffers are then swapped — never
    /// copied — so the scratch buffer holds the previous generation
    /// afterwards.
    pub fn update(&mut self)
        requires
            model_ok(old(self)@),
        ensures
            model_ok(final(self)@),
            final(self)@ == (GridModel {
                cells: conways_step(
                    old(self)@.cells,
                    old(self)@.rows,
                    old(self)@.cols,
                    old(self)@.toroidal,
                ),
                scratch: old(self)@.cells,
                ..old(self)@
            }),
    {
        grid_update_conways(
            &mut self.current_cells,
            &mut self.next_cells,
            self.rows,
            self.cols,
            self.toricgrid,
        );
    }
}

} // verus!
