//! Construction, encoding, hashing, signing and signature checking of
//! transactions for a blockchain node, with the byte layout, the energy costs
//! and the threshold rules stated as contracts.

pub mod constants;
pub mod crypto;
pub mod endpoints;
pub mod wire;
pub mod types;
