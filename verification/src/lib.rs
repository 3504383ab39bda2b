//! Folding layer for sumcheck-style proofs over the bls12-381 scalar field.
//!
//! The crate batches many claims of the form "the sum of a product of
//! multilinear extensions over a Boolean hypercube equals some value" into a
//! single outer sumcheck proof, and adapts rounds of a layered-circuit (GKR)
//! protocol into such batches.

pub mod field;
pub mod mle;
pub mod sumfold;
pub mod gkrfold;
