//! A tamper-evident event ledger: blocks bound to their predecessor by a
//! SHA-256 digest, stamped with a proof of work and signed with ECDSA over
//! P-256. The digest and signature primitives come from the `sha2`, `hex` and
//! `p256` crates; everything built on top of them is verified.

pub mod encoding;
pub mod hashing;
pub mod signing;
pub mod block;
pub mod blockchain;
pub mod utils;
