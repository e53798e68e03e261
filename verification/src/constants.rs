//! Limits and fixed values of the protocol.

use vstd::prelude::*;

verus! {

/// Maximum size of a transaction payload, in bytes.
pub const MAX_PAYLOAD_SIZE: u32 = 102400;

/// Minimum valid transaction nonce. Nonces of an account are strictly
/// sequential, starting with this value.
pub const MIN_NONCE: u64 = 1;

/// Size of a SHA-256 digest in bytes.
pub const SHA256: usize = 32;

/// Maximum size of data registered with a register-data transaction.
pub const MAX_REGISTERED_DATA_SIZE: usize = 256;

/// Maximum size of a memo.
pub const MAX_MEMO_SIZE: usize = 256;

/// Maximum length of a smart contract parameter.
pub const MAX_PARAMETER_LEN: usize = 1024;

/// Maximum size of a Wasm module that can be deployed.
pub const MAX_WASM_MODULE_SIZE: u32 = 65536;

/// Identifier of the default network over which messages are transmitted.
pub const DEFAULT_NETWORK_ID: u16 = 100;

} // verus!
