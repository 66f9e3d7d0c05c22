//! A 2-D incompressible-flow solver on a fixed rectangular grid.
//!
//! The solver advances a velocity field and a transported three-channel
//! quantity ("density") through a fixed pipeline of diffusion, divergence
//! projection and semi-Lagrangian advection. Field values are held in a
//! fixed-point representation (see [`fixed`]) so that every pass has an
//! exact, machine-checked description of the value it writes into each cell.

pub mod advect;
pub mod boundary;
pub mod fixed;
pub mod flow_box;
pub mod grid;
pub mod project;
pub mod solver;
