//! Verification keys, signatures and the key structures of credentials and
//! accounts.

use vstd::prelude::*;
use vstd::slice::slice_to_vec;
use crate::crypto::{
    ed25519_public_key, ed25519_sign, ed25519_verify, spec_ed25519_public_key, spec_ed25519_sign,
    spec_ed25519_verify,
};
use crate::types::basic::SignatureThreshold;
use crate::types::index_map::{lemma_entries_below, IndexMap};
use crate::wire::{lists, 
    and_next, enc_many, entry_key, error_at, has_at, increasing,
    lemma_enc_many_push,
    lemma_has_at_concat, lemma_parse_fixed, lemma_parse_increasing, lemma_parse_increasing_error,
    lemma_parse_increasing_is_increasing, lemma_parse_u8,
    lemma_views_push, parse_fixed, parse_increasing, parse_u8, put_bytes, put_u8, read_array,
    read_u8, reads, views, ParseError, ParseErrorKind, ParseResult, Parsed,
};

verus! {

/// A key with which signatures are verified. The only scheme is Ed25519,
/// whose keys are 32 bytes.
#[derive(Clone, Copy, Debug, PartialEq, Eq)]
pub enum VerifyKey {
    Ed25519VerifyKey([u8; 32]),
}

impl View for VerifyKey {
    type V = Seq<u8>;

    open spec fn view(&self) -> Seq<u8> {
        match self {
            VerifyKey::Ed25519VerifyKey(key) => key@,
        }
    }
}

/// A signature, as the bytes of it.
#[derive(Clone, Debug, PartialEq, Eq)]
pub struct Signature {
    pub sig: Vec<u8>,
}

impl View for Signature {
    type V = Seq<u8>;

    open spec fn view(&self) -> Seq<u8> {
        self.sig@
    }
}

/// The public keys of a credential, listed by strictly increasing key index,
/// with the number of them that must sign.
#[derive(Clone, Debug, PartialEq, Eq)]
pub struct CredentialPublicKeys {
    pub keys: IndexMap<VerifyKey>,
    pub threshold: SignatureThreshold,
}

/// The mathematical content of [`CredentialPublicKeys`].
pub struct CredentialPublicKeysView {
    pub keys: Seq<(u8, Seq<u8>)>,
    pub threshold: u8,
}

impl View for CredentialPublicKeys {
    type V = CredentialPublicKeysView;

    open spec fn view(&self) -> CredentialPublicKeysView {
        CredentialPublicKeysView { keys: self.keys@, threshold: self.threshold.threshold }
    }
}

impl CredentialPublicKeysView {
    /// The keys are 32 bytes each, at most 255 and listed by strictly
    /// increasing index, and the threshold is at least 1.
    pub open spec fn wf(self) -> bool {
        &&& self.keys.len() <= 255
        &&& increasing(self.keys, entry_key())
        &&& forall|i: int| 0 <= i < self.keys.len() ==> (#[trigger] self.keys[i]).1.len() == 32
        &&& self.threshold >= 1
    }
}

/// The encoding of one key of a credential: its index, the byte 0 for the
/// scheme, and the 32 bytes of the key.
pub open spec fn enc_key_entry(e: (u8, Seq<u8>)) -> Seq<u8> {
    seq![e.0, 0u8] + e.1
}

/// [`enc_key_entry`] as a value.
pub open spec fn key_entry_encoder() -> spec_fn((u8, Seq<u8>)) -> Seq<u8> {
    |e: (u8, Seq<u8>)| enc_key_entry(e)
}

/// The encoding of the keys of a credential: their number in one byte, the
/// keys by increasing index, and the threshold.
pub open spec fn enc_credential_keys(k: CredentialPublicKeysView) -> Seq<u8> {
    seq![k.keys.len() as u8] + enc_many(k.keys, key_entry_encoder()) + seq![k.threshold]
}

/// One key of a credential at offset `at`.
pub open spec fn parse_key_entry(s: Seq<u8>, at: int) -> Parsed<(u8, Seq<u8>)> {
    and_next(
        parse_u8(s, at),
        |index: u8, a1: int|
            and_next(
                parse_u8(s, a1),
                |scheme: u8, a2: int|
                    if scheme != 0 {
                        error_at(ParseErrorKind::UnsupportedKeyScheme { tag: scheme }, a1)
                    } else {
                        and_next(
                            parse_fixed(s, a2, 32),
                            |key: Seq<u8>, a3: int| Ok::<_, ParseError>(((index, key), a3)),
                        )
                    },
            ),
    )
}

/// [`parse_key_entry`] as a value.
pub open spec fn key_entry_parser() -> spec_fn(Seq<u8>, int, int) -> Parsed<(u8, Seq<u8>)> {
    |s: Seq<u8>, at: int, i: int| parse_key_entry(s, at)
}

/// The keys of a credential at offset `at`.
pub open spec fn parse_credential_keys(s: Seq<u8>, at: int) -> Parsed<CredentialPublicKeysView> {
    and_next(
        parse_u8(s, at),
        |n: u8, a1: int|
            and_next(
                parse_increasing(s, a1, n as nat, key_entry_parser(), entry_key()),
                |keys: Seq<(u8, Seq<u8>)>, a2: int|
                    and_next(
                        parse_u8(s, a2),
                        |threshold: u8, a3: int|
                            if threshold == 0 {
                                error_at(ParseErrorKind::ZeroThreshold, a2)
                            } else {
                                Ok::<_, ParseError>(
                                    (CredentialPublicKeysView { keys, threshold }, a3),
                                )
                            },
                    ),
            ),
    )
}

impl VerifyKey {
    /// The bytes of the key.
    pub fn bytes(&self) -> (b: &[u8; 32])
        ensures
            b@ == self@,
    {
        match self {
            VerifyKey::Ed25519VerifyKey(key) => key,
        }
    }
}

impl CredentialPublicKeys {
    /// Whether the keys are within the limits of the protocol: at most 255,
    /// listed by strictly increasing index, with a threshold of at least 1.
    pub fn is_valid(&self) -> (ok: bool)
        ensures
            ok == self@.wf(),
    {
        proof {
            lemma_entries_below(self.keys.map@, 256);
            assert forall|i: int| 0 <= i < self.keys@.len() implies (#[trigger] self.keys@[i]).1.len()
                == 32 by {
                let e = self.keys@[i];
                assert(e.1 == self.keys.map@[e.0]@);
            }
        }
        self.keys.len() <= 255 && self.threshold.threshold >= 1
    }

    /// Appends the encoding of the keys to `out`.
    pub fn serial(&self, out: &mut Vec<u8>)
        ensures
            final(out)@ == old(out)@ + enc_credential_keys(self@),
    {
        put_u8(out, self.keys.len() as u8);
        let mut i: usize = 0;
        let items = self.keys.entries();
        while i < self.keys.len()
            invariant
                lists(items@, self.keys@),
                i <= self.keys@.len(),
                out@ == old(out)@ + seq![self.keys@.len() as u8] + enc_many(
                    self.keys@.take(i as int),
                    key_entry_encoder(),
                ),
            decreases self.keys@.len() - i,
        {
            let index = items[i].0;
            put_u8(out, index);
            put_u8(out, 0u8);
            put_bytes(out, items[i].1.bytes().as_slice());
            proof {
                let all = self.keys@;
                let e = all[i as int];
                assert(all.take(i + 1) =~= all.take(i as int).push(e));
                lemma_enc_many_push(all.take(i as int), e, key_entry_encoder());
                assert(enc_key_entry(e) =~= seq![index] + seq![0u8] + e.1);
                assert(out@ =~= old(out)@ + seq![self.keys@.len() as u8] + enc_many(
                    all.take(i + 1),
                    key_entry_encoder(),
                ));
            }
            i = i + 1;
        }
        proof {
            assert(self.keys@.take(i as int) =~= self.keys@);
        }
        put_u8(out, self.threshold.threshold);
    }

    /// Reads the keys of a credential at offset `at`.
    pub fn deserial(src: &[u8], at: usize) -> (r: ParseResult<CredentialPublicKeys>)
        requires
            at <= src.len(),
        ensures
            reads(r, parse_credential_keys(src@, at as int), src@.len()),
            r matches Ok(p) ==> p.0@.wf(),
    {
        let (n, a1) = read_u8(src, at)?;
        let mut keys: Vec<(u8, VerifyKey)> = Vec::new();
        let mut pos: usize = a1;
        let mut i: u8 = 0;
        assert(views(keys@) =~= Seq::empty());
        while i < n
            invariant
                i <= n,
                a1 <= pos <= src.len(),
                parse_u8(src@, at as int) == Ok::<_, ParseError>((n, a1 as int)),
                parse_increasing(src@, a1 as int, i as nat, key_entry_parser(), entry_key())
                    == Ok::<_, ParseError>((views(keys@), pos as int)),
                keys@.len() == i,
            decreases n - i,
        {
            let entry = read_key_entry(src, pos);
            let ghost row = parse_increasing(
                src@,
                a1 as int,
                (i + 1) as nat,
                key_entry_parser(),
                entry_key(),
            );
            let in_order = match &entry {
                Ok(e) => keys.len() == 0 || keys[keys.len() - 1].0 < e.0.0,
                Err(_) => true,
            };
            proof {
                if keys@.len() > 0 {
                    assert(views(keys@).last() == keys@.last()@);
                }
                if entry is Err || !in_order {
                    assert(row is Err);
                    lemma_parse_increasing_error(
                        src@,
                        a1 as int,
                        (i + 1) as nat,
                        n as nat,
                        key_entry_parser(),
                        entry_key(),
                    );
                }
            }
            let (e, next) = entry?;
            if !in_order {
                return Err(ParseError { kind: ParseErrorKind::KeysNotInOrder, at: pos });
            }
            proof {
                lemma_views_push(keys@, e);
            }
            keys.push(e);
            pos = next;
            i = i + 1;
        }
        let (threshold, a3) = read_u8(src, pos)?;
        if threshold == 0 {
            return Err(ParseError { kind: ParseErrorKind::ZeroThreshold, at: pos });
        }
        proof {
            lemma_parse_increasing_is_increasing(
                src@,
                a1 as int,
                n as nat,
                key_entry_parser(),
                entry_key(),
            );
            assert forall|k: int| 0 <= k < keys@.len() implies (#[trigger] views(keys@)[k]).1.len()
                == 32 by {
                assert(views(keys@)[k].1 == keys@[k].1@);
            }
        }
        Ok(
            (
                CredentialPublicKeys {
                    keys: IndexMap::from_increasing(keys),
                    threshold: SignatureThreshold { threshold },
                },
                a3,
            ),
        )
    }
}

/// Reads one key of a credential at offset `at`.
pub fn read_key_entry(src: &[u8], at: usize) -> (r: ParseResult<(u8, VerifyKey)>)
    requires
        at <= src.len(),
    ensures
        reads(r, parse_key_entry(src@, at as int), src@.len()),
{
    let (index, a1) = read_u8(src, at)?;
    let (scheme, a2) = read_u8(src, a1)?;
    if scheme != 0 {
        return Err(
            ParseError { kind: ParseErrorKind::UnsupportedKeyScheme { tag: scheme }, at: a1 },
        );
    }
    let (key, a3) = read_array::<32>(src, a2)?;
    Ok(((index, VerifyKey::Ed25519VerifyKey(key)), a3))
}

/// The keys of a well-formed credential are parsed from wherever the input
/// holds their encoding.
pub proof fn lemma_parse_credential_keys(s: Seq<u8>, at: int, k: CredentialPublicKeysView)
    requires
        k.wf(),
        has_at(s, at, enc_credential_keys(k)),
    ensures
        parse_credential_keys(s, at) == Ok::<_, ParseError>(
            (k, at + enc_credential_keys(k).len()),
        ),
{
    let count = seq![k.keys.len() as u8];
    let body = enc_many(k.keys, key_entry_encoder());
    lemma_has_at_concat(s, at, count + body, seq![k.threshold]);
    lemma_has_at_concat(s, at, count, body);
    lemma_parse_u8(s, at, k.keys.len() as u8);
    assert forall|a: int, i: int|
        0 <= i < k.keys.len() && #[trigger] has_at(
            s,
            a,
            key_entry_encoder()(k.keys[i]),
        ) implies key_entry_parser()(s, a, i) == Ok::<_, ParseError>(
        (k.keys[i], a + key_entry_encoder()(k.keys[i]).len()),
    ) by {
        lemma_parse_key_entry(s, a, k.keys[i]);
    }
    lemma_parse_increasing(s, at + 1, k.keys, key_entry_encoder(), key_entry_parser(), entry_key());
    lemma_parse_u8(s, at + 1 + body.len(), k.threshold);
}

/// A key of 32 bytes is parsed from wherever the input holds its encoding.
pub proof fn lemma_parse_key_entry(s: Seq<u8>, at: int, e: (u8, Seq<u8>))
    requires
        e.1.len() == 32,
        has_at(s, at, enc_key_entry(e)),
    ensures
        parse_key_entry(s, at) == Ok::<_, ParseError>((e, at + 34)),
{
    lemma_has_at_concat(s, at, seq![e.0, 0u8], e.1);
    assert(seq![e.0, 0u8] =~= seq![e.0] + seq![0u8]);
    lemma_has_at_concat(s, at, seq![e.0], seq![0u8]);
    lemma_parse_u8(s, at, e.0);
    lemma_parse_u8(s, at + 1, 0u8);
    lemma_parse_fixed(s, at + 2, e.1);
}

/// A signing key with the verification key that belongs to it.
#[derive(Clone, Copy, Debug, PartialEq, Eq)]
pub struct KeyPair {
    pub secret: [u8; 32],
    pub public: [u8; 32],
}

/// The mathematical content of [`KeyPair`].
pub struct KeyPairView {
    pub secret: Seq<u8>,
    pub public: Seq<u8>,
}

impl View for KeyPair {
    type V = KeyPairView;

    open spec fn view(&self) -> KeyPairView {
        KeyPairView { secret: self.secret@, public: self.public@ }
    }
}

impl KeyPair {
    /// The key pair of the given secret key.
    pub fn from_secret(secret: [u8; 32]) -> (pair: KeyPair)
        ensures
            pair@.secret == secret@,
            pair@.public == spec_ed25519_public_key(secret@),
    {
        let public = ed25519_public_key(&secret);
        KeyPair { secret, public }
    }

    /// Signs the message with the secret key. The signature verifies under
    /// the public key of the secret key.
    pub fn sign(&self, message: &[u8]) -> (signature: Signature)
        ensures
            signature@ == spec_ed25519_sign(self@.secret, message@),
            signature_verifies(spec_ed25519_public_key(self@.secret), message@, signature@),
    {
        let bytes = ed25519_sign(&self.secret, message);
        let signature = Signature { sig: slice_to_vec(bytes.as_slice()) };
        assert(signature@ =~= bytes@);
        signature
    }

    /// The verification key of the pair.
    pub fn verify_key(&self) -> (key: VerifyKey)
        ensures
            key@ == self@.public,
    {
        VerifyKey::Ed25519VerifyKey(self.public)
    }
}

/// A signature verifies under a key when it has 64 bytes and Ed25519
/// accepts it on the message under the key.
pub open spec fn signature_verifies(key: Seq<u8>, message: Seq<u8>, signature: Seq<u8>) -> bool {
    signature.len() == 64 && spec_ed25519_verify(key, message, signature)
}

impl VerifyKey {
    /// Whether the signature verifies on the message under this key.
    pub fn verify(&self, message: &[u8], signature: &Signature) -> (ok: bool)
        ensures
            ok == signature_verifies(self@, message@, signature@),
    {
        match read_array::<64>(signature.sig.as_slice(), 0) {
            Ok((bytes, next)) => {
                if next == signature.sig.len() {
                    assert(bytes@ =~= signature@);
                    ed25519_verify(self.bytes(), message, &bytes)
                } else {
                    false
                }
            },
            Err(_) => false,
        }
    }
}

} // verus!
