//! Explicit finite-difference evolution of a two-dimensional scalar field.
//!
//! The crate holds the discrete part of a heat-equation solver: the dense
//! row-major grid, the five-point stencil pass with fixed boundary cells, the
//! double-buffering discipline, and the planning of an accelerator session.
//!
//! Cell values are opaque to the in-process engine: the arithmetic of the
//! update is handed in by the caller, and a simulation has the precision of
//! that arithmetic. The accelerator session carries its cells and constants
//! as binary32 bit patterns, so a device computes in single precision. The
//! two backends therefore agree only within a tolerance, never bit for bit,
//! when the engine is run in double precision.

pub mod error;
pub mod buffers;
pub mod engine;
pub mod formula;
pub mod grid;
pub mod laws;
pub mod params;
pub mod session;
pub mod stencil;
pub mod words;
