//! A bridge library that turns a serialized circuit witness and a
//! serialized proving key into a Groth16 proof over BN254, exported as
//! eight decimal strings in the coordinate order Ethereum verifiers
//! expect.
//!
//! The two pieces of logic owned by this crate are verified: the witness
//! decoder (bytes to canonical scalar field elements, including sign
//! normalization modulo the field order) and the proof export layout.
//! Key parsing, proving, and pairing arithmetic are delegated to the
//! arkworks crates through a small set of trusted declarations.

pub mod bridge;
pub mod export;
pub mod limbs;
pub mod prover;
pub mod scalar;
pub mod witness;
pub mod zkey_check;

use vstd::prelude::*;

verus! {

/// What can go wrong during a prove call.
#[derive(Debug, Clone, Copy, PartialEq, Eq, Structural)]
pub enum ProveError {
    /// The proving-key buffer was refused by the parser, or its framing
    /// is not that of a proving-key file.
    MalformedKey,
    /// The witness buffer is not a whole number of 32-byte blocks.
    MalformedWitness,
    /// The prover rejected the inputs, or the witness does not carry the
    /// public-input count the key demands.
    ProverFailure,
    /// The freshly produced proof did not verify against its own key:
    /// a deep invariant violation, never returned for well-formed inputs.
    SelfVerificationFailure,
}

} // verus!
