//! A verifiable random function over secp256k1, with a variant whose proofs
//! are shaped for cheap checking inside a contract virtual machine, and a
//! Lagrange-weighted combination of several participants' outputs.
pub mod bytes;
pub mod error;
pub mod curve;
pub mod secp;
pub mod gadget;
pub mod hashing;
pub mod vrf;
pub mod combine;
pub mod contract;
pub mod keypair;
pub mod encoding;
