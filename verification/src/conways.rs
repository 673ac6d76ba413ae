//! The discrete grid under its rule-family name. The engine has a single
//! discrete grid implementation; `ConwaysGrid` and [`crate::grid::Grid`]
//! are the same type, and both names are kept for callers.

use vstd::prelude::*;

verus! {

/// A grid of byte-valued cells stepped by the discrete survival/birth
/// rule.
pub type ConwaysGrid = crate::grid::Grid;

} // verus!
