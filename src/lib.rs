//! Chaum–Pedersen zero-knowledge authentication: group arithmetic, the prover
//! engine, the verifier's per-user registry and session claims.
pub mod bignum;
pub mod group;
pub mod laws;
pub mod prover;
pub mod registry;
pub mod session;
