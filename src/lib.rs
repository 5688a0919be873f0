//! Height-coloured, rotatable surface plots of `z = f(x, y)`.
//!
//! Lengths and heights are fixed-point integers: one unit is a millionth
//! of the plotted coordinate system (see [`UNITS_PER_ONE`]).

use vstd::prelude::*;

pub mod color;
pub mod formula;
pub mod mesh;
pub mod projection;

verus! {

/// Number of fixed-point units in one plotted unit of length.
pub const UNITS_PER_ONE: i64 = 1_000_000;

} // verus!
