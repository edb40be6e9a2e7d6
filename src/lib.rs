//! The Keccak family of sponge hash functions, with the Keccak-f[1600]
//! permutation and the sponge state machine proved against a mathematical
//! model of both.
pub mod keccakf;
pub mod sponge;
pub mod keccak;
pub mod laws;

pub use keccak::Keccak;
pub use sponge::{Buffer, KeccakState, Mode};
