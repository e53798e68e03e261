//! Scalar quantities and short byte strings that transactions carry.

use vstd::prelude::*;
use crate::constants::{MAX_MEMO_SIZE, MAX_REGISTERED_DATA_SIZE};

verus! {

/// An amount of energy, the unit in which the execution cost of a
/// transaction is counted.
#[derive(Clone, Copy, Debug, PartialEq, Eq, Structural)]
pub struct Energy {
    pub energy: u64,
}

impl Energy {
    pub fn new(energy: u64) -> (e: Energy)
        ensures
            e.energy == energy,
    {
        Energy { energy }
    }
}

/// The kind of a credential, which decides the cost of deploying it.
#[derive(Clone, Copy, Debug, PartialEq, Eq, Structural)]
pub enum CredentialType {
    /// A credential created by the identity provider together with the account.
    Initial,
    /// A credential created by the account holder.
    Normal,
}

/// The address of an account: 32 bytes.
#[derive(Clone, Copy, Debug, PartialEq, Eq)]
pub struct AccountAddress {
    pub bytes: [u8; 32],
}

impl View for AccountAddress {
    type V = Seq<u8>;

    open spec fn view(&self) -> Seq<u8> {
        self.bytes@
    }
}

/// An amount of the chain's currency, in its smallest unit.
#[derive(Clone, Copy, Debug, PartialEq, Eq, Structural)]
pub struct Amount {
    pub micro_ccd: u64,
}

/// The sequence number of a transaction of an account. The first valid
/// nonce of an account is 1.
#[derive(Clone, Copy, Debug, PartialEq, Eq, Structural)]
pub struct Nonce {
    pub nonce: u64,
}

/// A point in time in seconds since the Unix epoch, as transactions carry
/// it for their expiry.
#[derive(Clone, Copy, Debug, PartialEq, Eq, Structural)]
pub struct TransactionTime {
    pub seconds: u64,
}

/// A point in time in milliseconds since the Unix epoch.
#[derive(Clone, Copy, Debug, PartialEq, Eq, Structural)]
pub struct Timestamp {
    pub millis: u64,
}

/// The sequence number of an update instruction.
#[derive(Clone, Copy, Debug, PartialEq, Eq, Structural)]
pub struct UpdateSequenceNumber {
    pub number: u64,
}

/// The address of a smart contract instance.
#[derive(Clone, Copy, Debug, PartialEq, Eq, Structural)]
pub struct ContractAddress {
    pub index: u64,
    pub subindex: u64,
}

/// The registration identifier of a credential: 48 bytes.
#[derive(Clone, Copy, Debug, PartialEq, Eq)]
pub struct CredentialRegistrationID {
    pub bytes: [u8; 48],
}

impl View for CredentialRegistrationID {
    type V = Seq<u8>;

    open spec fn view(&self) -> Seq<u8> {
        self.bytes@
    }
}

/// The number of credentials that must sign a transaction of an account.
/// A valid threshold is at least 1.
#[derive(Clone, Copy, Debug, PartialEq, Eq, Structural)]
pub struct AccountThreshold {
    pub threshold: u8,
}

impl AccountThreshold {
    /// The threshold with the given value, where that is at least 1.
    pub fn new(threshold: u8) -> (r: Option<AccountThreshold>)
        ensures
            r == if threshold >= 1 {
                Some(AccountThreshold { threshold })
            } else {
                None
            },
    {
        if threshold >= 1 {
            Some(AccountThreshold { threshold })
        } else {
            None
        }
    }
}

/// The number of keys of a credential that must sign for the credential to
/// count. A valid threshold is at least 1.
#[derive(Clone, Copy, Debug, PartialEq, Eq, Structural)]
pub struct SignatureThreshold {
    pub threshold: u8,
}

impl SignatureThreshold {
    /// The threshold with the given value, where that is at least 1.
    pub fn new(threshold: u8) -> (r: Option<SignatureThreshold>)
        ensures
            r == if threshold >= 1 {
                Some(SignatureThreshold { threshold })
            } else {
                None
            },
    {
        if threshold >= 1 {
            Some(SignatureThreshold { threshold })
        } else {
            None
        }
    }
}

/// A memo attached to a transfer: at most 256 bytes.
#[derive(Clone, Debug, PartialEq, Eq)]
pub struct Memo {
    pub bytes: Vec<u8>,
}

impl View for Memo {
    type V = Seq<u8>;

    open spec fn view(&self) -> Seq<u8> {
        self.bytes@
    }
}

impl Memo {
    /// The memo with the given bytes, where they are few enough.
    pub fn new(bytes: Vec<u8>) -> (r: Option<Memo>)
        ensures
            r is Some <==> bytes@.len() <= MAX_MEMO_SIZE,
            r matches Some(m) ==> m@ == bytes@,
    {
        if bytes.len() <= MAX_MEMO_SIZE {
            Some(Memo { bytes })
        } else {
            None
        }
    }
}

/// Data registered on the chain: at most 256 bytes.
#[derive(Clone, Debug, PartialEq, Eq)]
pub struct RegisteredData {
    pub bytes: Vec<u8>,
}

impl View for RegisteredData {
    type V = Seq<u8>;

    open spec fn view(&self) -> Seq<u8> {
        self.bytes@
    }
}

impl RegisteredData {
    /// The data with the given bytes, where they are few enough.
    pub fn new(bytes: Vec<u8>) -> (r: Option<RegisteredData>)
        ensures
            r is Some <==> bytes@.len() <= MAX_REGISTERED_DATA_SIZE,
            r matches Some(d) ==> d@ == bytes@,
    {
        if bytes.len() <= MAX_REGISTERED_DATA_SIZE {
            Some(RegisteredData { bytes })
        } else {
            None
        }
    }
}

/// A SHA-256 digest.
#[derive(Clone, Copy, Debug, PartialEq, Eq)]
pub struct HashBytes {
    pub bytes: [u8; 32],
}

impl View for HashBytes {
    type V = Seq<u8>;

    open spec fn view(&self) -> Seq<u8> {
        self.bytes@
    }
}

/// The hash of a transaction's header and payload, which is what gets signed.
pub type TransactionSignHash = HashBytes;

/// The hash that identifies a block item on the chain.
pub type TransactionHash = HashBytes;

/// The hash of an update instruction's header and payload, which is what
/// gets signed.
pub type UpdateSignHash = HashBytes;

} // verus!
