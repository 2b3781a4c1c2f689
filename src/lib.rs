//! Simulation of the two-dimensional Ising model: a toroidal lattice of
//! spins evolved by the Metropolis Monte Carlo process.
//!
//! Spin indices are `[usize; 2]`, spins are `i32` values `-1` or `1`, and
//! energies are exact integers (the coupling constant is one).

pub mod grid;
pub mod lattice;
pub mod prelude;
pub mod random;
pub mod sweep;
