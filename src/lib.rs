//! Simulation core of a reconfigurable "ghost block" logic fabric: the
//! order-dependent evaluation of a single cell, the serpentine grid driver
//! and the bit-packed signal buffer that carries signals between cells.
use vstd::prelude::*;

pub mod cell;
pub mod fpga;

verus! {

} // verus!
