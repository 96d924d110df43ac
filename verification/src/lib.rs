//! Rank-1 constraint systems over the BLS12-381 scalar field, with Groth16
//! proving and verification on top of them.
//!
//! The constraint system, its satisfaction check, the matrices it defines and
//! the rules that bind a key to a constraint shape are verified here. Field
//! arithmetic, key decoding, proof generation and the pairing check are done
//! by the arkworks crates, behind a small number of trusted functions.

pub mod error;
pub mod field;
pub mod linear;
pub mod system;
pub mod matrix;
pub mod domain;
pub mod groth16;
pub mod relation;
pub mod laws;
