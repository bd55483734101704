//! Inputs for a proving engine: the executable it runs and the witness stream
//! it reads.
//!
//! The crate accepts executables in two on-disk schemas and migrates the older
//! one in memory, and it assembles the witness stream from decoded pages and
//! from the field elements that chained proof records expose.
pub mod field;
pub mod program;
pub mod executable;
pub mod legacy;
pub mod loader;
pub mod witness;
pub mod engine;
