//! A debug-mode constraint verifier for a PLONK-style arithmetization.
//!
//! A circuit description (columns, gates, lookup arguments, permutation
//! arguments) is paired with a synthesized witness: field values written into
//! a row-indexed grid, grouped into regions, with copy constraints recorded in
//! permutation assemblies.  The verifier then checks, without any cryptographic
//! machinery, whether that witness satisfies every constraint, and reports the
//! complete list of failures rather than a single pass/fail bit.

pub mod checks;
pub mod circuit;
pub mod field;
pub mod laws;
pub mod permutation;
pub mod prover;
