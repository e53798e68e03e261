//! The cryptographic primitives that the library builds on: the SHA-256
//! digest and Ed25519 signatures. They are computed by outside crates; the
//! functions here hand bytes to them and take bytes back. What each one
//! returns is a fixed function of its arguments, which the contracts name
//! and do not define. One thing more is taken from the signature scheme:
//! what a secret key signs is accepted under its public key.

use vstd::prelude::*;
use ed25519_dalek::Verifier;
use sha2::Digest;

verus! {

/// The SHA-256 digest of a sequence of bytes.
pub uninterp spec fn spec_sha256(data: Seq<u8>) -> Seq<u8>;

/// The Ed25519 public key that belongs to a secret key of 32 bytes.
pub uninterp spec fn spec_ed25519_public_key(secret: Seq<u8>) -> Seq<u8>;

/// The Ed25519 signature that a secret key of 32 bytes makes on a message.
pub uninterp spec fn spec_ed25519_sign(secret: Seq<u8>, message: Seq<u8>) -> Seq<u8>;

/// Whether 64 bytes are accepted as an Ed25519 signature on a message under
/// a public key of 32 bytes.
pub uninterp spec fn spec_ed25519_verify(
    public: Seq<u8>,
    message: Seq<u8>,
    signature: Seq<u8>,
) -> bool;

/// Calls `sha2::Sha256::digest`. Trusted: the result is the digest of the
/// given bytes, which depends on nothing but the bytes.
#[verifier::external_body]
pub(crate) fn sha256(data: &[u8]) -> (digest: [u8; 32])
    ensures
        digest@ == spec_sha256(data@),
{
    sha2::Sha256::digest(data).into()
}

/// Calls `ed25519_dalek::PublicKey::from` on the secret key with the given
/// bytes. Trusted: the result is the public key of that secret key, which
/// depends on nothing but the secret key.
#[verifier::external_body]
pub(crate) fn ed25519_public_key(secret: &[u8; 32]) -> (public: [u8; 32])
    ensures
        public@ == spec_ed25519_public_key(secret@),
{
    let secret_key = ed25519_dalek::SecretKey::from_bytes(secret).expect("a secret key has 32 bytes");
    ed25519_dalek::PublicKey::from(&secret_key).to_bytes()
}

/// Calls `ed25519_dalek::ExpandedSecretKey::sign` with the expansion of the
/// secret key with the given bytes and the public key that belongs to it.
/// Trusted: the result is the signature of that key on the message. Ed25519
/// signatures are deterministic, so it depends on nothing but the key and
/// the message. Trusted as well: the outside crate accepts the signature on
/// the message under the public key of the secret key, which is what its
/// documentation says of every key pair and every message, and what makes
/// Ed25519 a signature scheme.
#[verifier::external_body]
pub(crate) fn ed25519_sign(secret: &[u8; 32], message: &[u8]) -> (signature: [u8; 64])
    ensures
        signature@ == spec_ed25519_sign(secret@, message@),
        spec_ed25519_verify(spec_ed25519_public_key(secret@), message@, signature@),
{
    let secret_key = ed25519_dalek::SecretKey::from_bytes(secret).expect("a secret key has 32 bytes");
    let public_key = ed25519_dalek::PublicKey::from(&secret_key);
    ed25519_dalek::ExpandedSecretKey::from(&secret_key).sign(message, &public_key).to_bytes()
}

/// Calls `ed25519_dalek::PublicKey::verify`. Trusted: the result says
/// whether the outside crate accepts the signature on the message under the
/// key, which depends on nothing but the three. Bytes that are no public key
/// or no signature to the outside crate are not accepted.
#[verifier::external_body]
pub(crate) fn ed25519_verify(public: &[u8; 32], message: &[u8], signature: &[u8; 64]) -> (valid:
    bool)
    ensures
        valid == spec_ed25519_verify(public@, message@, signature@),
{
    let key = match ed25519_dalek::PublicKey::from_bytes(public) {
        Ok(key) => key,
        Err(_) => return false,
    };
    let sig = match ed25519_dalek::Signature::from_bytes(signature) {
        Ok(sig) => sig,
        Err(_) => return false,
    };
    key.verify(message, &sig).is_ok()
}

} // verus!
