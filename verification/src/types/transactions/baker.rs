//! Putting together the keys of a baker with the proofs that the sender
//! knows the secret keys. Each proof answers a challenge that binds it to
//! the kind of transaction, to the sender and to the three public keys.

use vstd::prelude::*;
use core::marker::PhantomData;
use crate::types::basic::AccountAddress;
use crate::types::transactions::payload::{
    BakerAddKeysPayload, BakerKeysPayload, BakerKeysView, BakerUpdateKeysPayload,
};
use crate::wire::put_bytes;

verus! {

/// The public keys of a baker.
#[derive(Clone, Copy, Debug, PartialEq, Eq)]
pub struct BakerPublicKeys {
    /// Public key for taking part in the election lottery.
    pub election_verify: [u8; 32],
    /// Public key for verifying the baker's signatures.
    pub signature_verify: [u8; 32],
    /// Public key for verifying the baker's signatures on finalization
    /// records.
    pub aggregation_verify: [u8; 96],
}

/// The proofs that someone knows the secret keys of a baker.
#[derive(Clone, Copy, Debug, PartialEq, Eq)]
pub struct BakerKeyProofs {
    /// Proof of knowledge of the secret signature key.
    pub proof_sig: [u8; 64],
    /// Proof of knowledge of the secret election key.
    pub proof_election: [u8; 64],
    /// Proof of knowledge of the secret aggregation key.
    pub proof_aggregation: [u8; 64],
}

/// The text `addBaker` in bytes, with which the challenge of the proofs for
/// adding a baker starts.
pub open spec fn add_baker_prefix() -> Seq<u8> {
    seq![97u8, 100, 100, 66, 97, 107, 101, 114]
}

/// The text `updateBakerKeys` in bytes, with which the challenge of the
/// proofs for updating a baker's keys starts.
pub open spec fn update_baker_keys_prefix() -> Seq<u8> {
    seq![117u8, 112, 100, 97, 116, 101, 66, 97, 107, 101, 114, 75, 101, 121, 115]
}

/// The challenge that the proofs of a baker's keys answer: the prefix of the
/// kind of transaction, the sender, and the election, signature and
/// aggregation keys.
pub open spec fn spec_challenge(prefix: Seq<u8>, sender: Seq<u8>, keys: BakerPublicKeys) -> Seq<u8> {
    prefix + sender + keys.election_verify@ + keys.signature_verify@ + keys.aggregation_verify@
}

impl<V> BakerKeysPayload<V> {
    /// The challenge for proofs with the given prefix.
    fn challenge_with_prefix(
        baker_keys: &BakerPublicKeys,
        sender: AccountAddress,
        challenge_prefix: &[u8],
    ) -> (challenge: Vec<u8>)
        ensures
            challenge@ == spec_challenge(challenge_prefix@, sender@, *baker_keys),
    {
        let mut challenge: Vec<u8> = Vec::new();
        put_bytes(&mut challenge, challenge_prefix);
        put_bytes(&mut challenge, sender.bytes.as_slice());
        put_bytes(&mut challenge, baker_keys.election_verify.as_slice());
        put_bytes(&mut challenge, baker_keys.signature_verify.as_slice());
        put_bytes(&mut challenge, baker_keys.aggregation_verify.as_slice());
        assert(challenge@ =~= spec_challenge(challenge_prefix@, sender@, *baker_keys));
        challenge
    }

    /// The payload with the given keys and proofs.
    fn new_payload(baker_keys: &BakerPublicKeys, proofs: BakerKeyProofs) -> (payload: Self)
        ensures
            payload@ == (BakerKeysView {
                election_verify_key: baker_keys.election_verify@,
                signature_verify_key: baker_keys.signature_verify@,
                aggregation_verify_key: baker_keys.aggregation_verify@,
                proof_sig: proofs.proof_sig@,
                proof_election: proofs.proof_election@,
                proof_aggregation: proofs.proof_aggregation@,
            }),
    {
        BakerKeysPayload {
            phantom: PhantomData,
            election_verify_key: baker_keys.election_verify,
            signature_verify_key: baker_keys.signature_verify,
            aggregation_verify_key: baker_keys.aggregation_verify,
            proof_sig: proofs.proof_sig,
            proof_election: proofs.proof_election,
            proof_aggregation: proofs.proof_aggregation,
        }
    }
}

impl BakerAddKeysPayload {
    /// The challenge that the proofs for adding a baker answer.
    pub fn challenge(baker_keys: &BakerPublicKeys, sender: AccountAddress) -> (challenge: Vec<u8>)
        ensures
            challenge@ == spec_challenge(add_baker_prefix(), sender@, *baker_keys),
    {
        let prefix: [u8; 8] = [97, 100, 100, 66, 97, 107, 101, 114];
        assert(prefix@ =~= add_baker_prefix());
        Self::challenge_with_prefix(baker_keys, sender, prefix.as_slice())
    }

    /// The keys of a baker with proofs that were made for adding a baker,
    /// which means that they answer [`Self::challenge`].
    pub fn new(baker_keys: &BakerPublicKeys, proofs: BakerKeyProofs) -> (payload: Self)
        ensures
            payload@ == (BakerKeysView {
                election_verify_key: baker_keys.election_verify@,
                signature_verify_key: baker_keys.signature_verify@,
                aggregation_verify_key: baker_keys.aggregation_verify@,
                proof_sig: proofs.proof_sig@,
                proof_election: proofs.proof_election@,
                proof_aggregation: proofs.proof_aggregation@,
            }),
    {
        Self::new_payload(baker_keys, proofs)
    }
}

impl BakerUpdateKeysPayload {
    /// The challenge that the proofs for updating a baker's keys answer.
    pub fn challenge(baker_keys: &BakerPublicKeys, sender: AccountAddress) -> (challenge: Vec<u8>)
        ensures
            challenge@ == spec_challenge(update_baker_keys_prefix(), sender@, *baker_keys),
    {
        let prefix: [u8; 15] = [117, 112, 100, 97, 116, 101, 66, 97, 107, 101, 114, 75, 101, 121, 115];
        assert(prefix@ =~= update_baker_keys_prefix());
        Self::challenge_with_prefix(baker_keys, sender, prefix.as_slice())
    }

    /// The keys of a baker with proofs that were made for updating a
    /// baker's keys, which means that they answer [`Self::challenge`].
    pub fn new(baker_keys: &BakerPublicKeys, proofs: BakerKeyProofs) -> (payload: Self)
        ensures
            payload@ == (BakerKeysView {
                election_verify_key: baker_keys.election_verify@,
                signature_verify_key: baker_keys.signature_verify@,
                aggregation_verify_key: baker_keys.aggregation_verify@,
                proof_sig: proofs.proof_sig@,
                proof_election: proofs.proof_election@,
                proof_aggregation: proofs.proof_aggregation@,
            }),
    {
        Self::new_payload(baker_keys, proofs)
    }
}

} // verus!
