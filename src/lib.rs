//! A checker for Hilbert-style proofs in matching logic, run as a stack
//! machine over a compact byte encoding of a theory, its claims and a proof.
use vstd::prelude::*;

pub mod error;
pub mod instruction;
pub mod invariants;
pub mod laws;
pub mod machine;
pub mod pattern;
pub mod subst;

verus! {

} // verus!
