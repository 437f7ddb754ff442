//! A rank-1 constraint system for the relation `out = x^7 + x^5 + 3` over
//! the scalar field of BLS12-381, with the witness propagation and the
//! protocol sequence that go with it.

pub mod field;
pub mod witness;
pub mod r1cs;
pub mod circuit;
pub mod protocol;
