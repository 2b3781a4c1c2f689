//! The items a simulation needs, in one import.

pub use crate::grid::SpinGrid;
pub use crate::lattice::{Lattice, LatticeError};
pub use crate::sweep::{FlipGroup, GroupState, SweepSchedule, SweepStep};
