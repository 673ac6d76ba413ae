//! A cellular-automaton engine: a rectangular grid of byte-valued cells,
//! stepped by local 3x3 neighborhood rules over either a bounded or a
//! wrap-around (toroidal) topology. Two rule families are provided: a
//! discrete survival/birth rule and a continuous convolution/growth rule.

use vstd::prelude::*;

verus! {

pub mod conways;

pub mod grid;

pub mod growth;

pub mod lenia;

pub mod life;

pub mod model;

pub mod rng;

pub use conways::ConwaysGrid;
pub use grid::Grid;
pub use lenia::LeniaGrid;
pub use life::grid_count_neighbors_conways;
pub use life::grid_index;

} // verus!
