//! Rigid holonomic constraints and time integration for systems of rigid
//! bodies: the geometry of rods, the right-hand sides the solvers call, and
//! the drivers that decide, call by call, what a solver is asked to do next.
//!
//! The numbers are a parameter. Everything is written over [`scalar::Scalar`],
//! whose operations the contracts name, so that a contract fixes which
//! quantities are combined, in which order, and where the result goes.
//! [`fixed::Fixed`] is an instance whose arithmetic is itself verified.

pub mod constrain;
pub mod fixed;
pub mod integrate;
pub mod linalg;
pub mod scalar;
pub mod system;
pub mod text;
