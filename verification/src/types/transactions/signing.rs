//! Signing the hash of a transaction with the keys of an account.

use vstd::prelude::*;
use crate::crypto::{spec_ed25519_public_key, spec_ed25519_sign, spec_sha256};
use crate::types::basic::{AccountThreshold, SignatureThreshold, TransactionSignHash};
use crate::types::index_map::{lemma_entries_below, lookup, IndexMap};
use crate::types::keys::{
    signature_verifies, CredentialPublicKeysView, KeyPair, KeyPairView, Signature,
};
use crate::types::transactions::verify::{
    credential_entry_verifies, key_signature_verifies, transaction_signature_verifies,
    AccountAccessStructure, HasAccountAccessStructure,
};
use crate::types::transactions::account::AccountTransaction;
use crate::types::transactions::header::{
    compute_transaction_sign_hash, sign_hash_input, PayloadLike, TransactionHeader,
};
use crate::types::transactions::signature::{
    CredentialSignaturesView, TransactionSignature, TransactionSignatureView,
};
use crate::wire::{entry_key, increasing, lemma_views_push, lists, views};

verus! {

/// Something that holds secret keys and signs transaction hashes with them.
pub trait TransactionSigner {
    /// The signature that the signer makes on a hash.
    spec fn spec_sign(&self, hash: Seq<u8>) -> TransactionSignatureView;

    /// Signs the given transaction hash.
    fn sign_transaction_hash(&self, hash_to_sign: &TransactionSignHash) -> (signature:
        TransactionSignature)
        ensures
            signature@ == self.spec_sign(hash_to_sign@),
    ;
}

/// A number of keys as it is counted in 32 bits: itself where it fits, and
/// the greatest number of 32 bits where it does not. A map from one-byte
/// indices to maps from one-byte indices holds at most 65536 keys, so the
/// count of such a signer is always itself.
pub open spec fn counted(n: nat) -> u32 {
    if n <= u32::MAX {
        n as u32
    } else {
        u32::MAX
    }
}

/// A signer that knows beforehand with how many keys it will sign.
pub trait ExactSizeTransactionSigner: TransactionSigner {
    /// The number of keys that the signer says it signs with.
    spec fn spec_num_keys(&self) -> nat;

    /// The number of keys that the signer signs with.
    fn num_keys(&self) -> (n: u32)
        ensures
            n == counted(self.spec_num_keys()),
    ;
}

/// The first `n` items of a sequence, or all of them where there are fewer.
pub open spec fn first<T>(s: Seq<T>, n: int) -> Seq<T> {
    if 0 <= n <= s.len() {
        s.take(n)
    } else {
        s
    }
}

/// The sum of a measure over the items of a sequence.
pub open spec fn sum_of<T>(s: Seq<T>, measure: spec_fn(T) -> nat) -> nat
    decreases s.len(),
{
    if s.len() == 0 {
        0
    } else {
        sum_of(s.drop_last(), measure) + measure(s.last())
    }
}

/// A sum over items that each measure at most `bound` is at most `bound`
/// times their number.
pub proof fn lemma_sum_of_bound<T>(s: Seq<T>, measure: spec_fn(T) -> nat, bound: nat)
    requires
        forall|i: int| 0 <= i < s.len() ==> measure(#[trigger] s[i]) <= bound,
    ensures
        sum_of(s, measure) <= bound * s.len(),
    decreases s.len(),
{
    if s.len() > 0 {
        assert forall|i: int| 0 <= i < s.drop_last().len() implies measure(
            #[trigger] s.drop_last()[i],
        ) <= bound by {
            assert(s.drop_last()[i] == s[i]);
        }
        lemma_sum_of_bound(s.drop_last(), measure, bound);
        assert(measure(s[s.len() - 1]) <= bound);
        assert(bound * s.len() == bound * (s.len() - 1) + bound) by (nonlinear_arith);
    }
}

/// The signatures that the given keys make on a hash, each under the index
/// of its key.
pub open spec fn sign_with_keys(keys: Seq<(u8, KeyPairView)>, hash: Seq<u8>)
    -> CredentialSignaturesView {
    keys.map_values(|e: (u8, KeyPairView)| (e.0, spec_ed25519_sign(e.1.secret, hash)))
}

/// Each of the key pairs makes a signature on the hash that verifies under
/// the public key of its secret key.
pub open spec fn keys_sign_validly(keys: Seq<(u8, KeyPairView)>, hash: Seq<u8>) -> bool {
    forall|j: int|
        0 <= j < keys.len() ==> signature_verifies(
            spec_ed25519_public_key((#[trigger] keys[j]).1.secret),
            hash,
            spec_ed25519_sign(keys[j].1.secret, hash),
        )
}

/// Signs the hash with each of the first `limit` keys. Each signature
/// verifies under the public key of the key that made it.
pub fn sign_with_first_keys(keys: &IndexMap<KeyPair>, limit: usize, hash: &TransactionSignHash) -> (sigs:
    IndexMap<Signature>)
    ensures
        sigs@ == sign_with_keys(first(keys@, limit as int), hash@),
        keys_sign_validly(first(keys@, limit as int), hash@),
{
    let n = if limit <= keys.len() {
        limit
    } else {
        keys.len()
    };
    let mut sigs: Vec<(u8, Signature)> = Vec::new();
    let mut j: usize = 0;
    assert(views(sigs@) =~= sign_with_keys(keys@.take(0), hash@));
    let items = keys.entries();
    while j < n
        invariant
            lists(items@, keys@),
            j <= n <= keys@.len(),
            views(sigs@) == sign_with_keys(keys@.take(j as int), hash@),
            keys_sign_validly(keys@.take(j as int), hash@),
        decreases n - j,
    {
        let sig = items[j].1.sign(hash.bytes.as_slice());
        let entry = (items[j].0, sig);
        proof {
            lemma_views_push(sigs@, entry);
            assert(sign_with_keys(keys@.take(j + 1), hash@) =~= sign_with_keys(
                keys@.take(j as int),
                hash@,
            ).push(entry@));
            assert forall|k: int| 0 <= k < j + 1 implies signature_verifies(
                spec_ed25519_public_key((#[trigger] keys@.take(j + 1)[k]).1.secret),
                hash@,
                spec_ed25519_sign(keys@.take(j + 1)[k].1.secret, hash@),
            ) by {
                if k < j {
                    assert(keys@.take(j as int)[k] == keys@.take(j + 1)[k]);
                }
            }
        }
        sigs.push(entry);
        j = j + 1;
    }
    assert(keys@.take(n as int) =~= first(keys@, limit as int));
    proof {
        keys.lemma_wf();
        let made = views(sigs@);
        assert forall|a: int, b: int| 0 <= a < b < made.len() implies entry_key()(
            #[trigger] made[a],
        ) < entry_key()(#[trigger] made[b]) by {
            assert(entry_key()(keys@[a]) < entry_key()(keys@[b]));
        }
    }
    IndexMap::from_increasing(sigs)
}

/// The secret keys of an account by credential index and key index. As a
/// signer it signs with every key it holds.
pub type AccountKeyMap = IndexMap<IndexMap<KeyPair>>;

/// The signature that a map of keys makes on a hash: every key signs.
pub open spec fn sign_with_all(keys: Seq<(u8, Seq<(u8, KeyPairView)>)>, hash: Seq<u8>)
    -> TransactionSignatureView {
    keys.map_values(|e: (u8, Seq<(u8, KeyPairView)>)| (e.0, sign_with_keys(e.1, hash)))
}

/// Each key pair of each credential makes a signature on the hash that
/// verifies under the public key of its secret key.
pub open spec fn all_sign_validly(keys: Seq<(u8, Seq<(u8, KeyPairView)>)>, hash: Seq<u8>) -> bool {
    forall|i: int| 0 <= i < keys.len() ==> keys_sign_validly((#[trigger] keys[i]).1, hash)
}

/// The number of keys of a credential in a map of keys.
pub open spec fn key_count() -> spec_fn((u8, Seq<(u8, KeyPairView)>)) -> nat {
    |e: (u8, Seq<(u8, KeyPairView)>)| e.1.len()
}

impl TransactionSigner for IndexMap<IndexMap<KeyPair>> {
    open spec fn spec_sign(&self, hash: Seq<u8>) -> TransactionSignatureView {
        sign_with_all(self@, hash)
    }

    /// Signs the hash with every key. The signature of each key verifies
    /// under its own public key, so the whole verifies for every account
    /// that holds these keys and whose thresholds they meet.
    fn sign_transaction_hash(&self, hash_to_sign: &TransactionSignHash) -> (signature:
        TransactionSignature)
        ensures
            all_sign_validly(self@, hash_to_sign@),
            forall|access: AccountAccessStructure| #[trigger]
                holds_the_keys(&access, self@) ==> transaction_signature_verifies(
                    &access,
                    hash_to_sign@,
                    signature@,
                ),
    {
        let mut creds: Vec<(u8, IndexMap<Signature>)> = Vec::new();
        let mut i: usize = 0;
        assert(views(creds@) =~= sign_with_all(self@.take(0), hash_to_sign@));
        let items = self.entries();
        while i < self.len()
            invariant
                lists(items@, self@),
                i <= self@.len(),
                views(creds@) == sign_with_all(self@.take(i as int), hash_to_sign@),
                all_sign_validly(self@.take(i as int), hash_to_sign@),
            decreases self@.len() - i,
        {
            let cred_keys = items[i].1;
            let sigs = sign_with_first_keys(cred_keys, cred_keys.len(), hash_to_sign);
            let entry = (items[i].0, sigs);
            proof {
                assert(first(cred_keys@, cred_keys@.len() as int) =~= cred_keys@);
                lemma_views_push(creds@, entry);
                assert(sign_with_all(self@.take(i + 1), hash_to_sign@) =~= sign_with_all(
                    self@.take(i as int),
                    hash_to_sign@,
                ).push(entry@));
                assert forall|k: int| 0 <= k < i + 1 implies keys_sign_validly(
                    (#[trigger] self@.take(i + 1)[k]).1,
                    hash_to_sign@,
                ) by {
                    if k < i {
                        assert(self@.take(i as int)[k] == self@.take(i + 1)[k]);
                    }
                }
            }
            creds.push(entry);
            i = i + 1;
        }
        assert(self@.take(i as int) =~= self@);
        proof {
            self.lemma_wf();
            let made = views(creds@);
            assert forall|a: int, b: int| 0 <= a < b < made.len() implies entry_key()(
                #[trigger] made[a],
            ) < entry_key()(#[trigger] made[b]) by {
                assert(entry_key()(self@[a]) < entry_key()(self@[b]));
            }
            assert forall|access: AccountAccessStructure| #[trigger]
                holds_the_keys(&access, self@) implies transaction_signature_verifies(
                &access,
                hash_to_sign@,
                sign_with_all(self@, hash_to_sign@),
            ) by {
                what_all_keys_sign_verifies(&access, self@, hash_to_sign@);
            }
        }
        TransactionSignature { signatures: IndexMap::from_increasing(creds) }
    }
}

impl ExactSizeTransactionSigner for IndexMap<IndexMap<KeyPair>> {
    open spec fn spec_num_keys(&self) -> nat {
        sum_of(self@, key_count())
    }

    fn num_keys(&self) -> (n: u32) {
        let mut n: u32 = 0;
        let mut i: usize = 0;
        let items = self.entries();
        while i < self.len()
            invariant
                lists(items@, self@),
                i <= self@.len(),
                n == counted(sum_of(self@.take(i as int), key_count())),
            decreases self@.len() - i,
        {
            proof {
                assert(self@.take(i + 1).drop_last() =~= self@.take(i as int));
                assert(self@.take(i + 1).last() == self@[i as int]);
            }
            let len = items[i].1.len();
            if len > (u32::MAX - n) as usize {
                n = u32::MAX;
            } else {
                n = n + len as u32;
            }
            i = i + 1;
        }
        assert(self@.take(i as int) =~= self@);
        n
    }
}

/// A map of keys holds at most 65536 keys, so their number is counted as
/// it is.
pub proof fn key_map_count_is_exact(keys: &AccountKeyMap)
    ensures
        keys.spec_num_keys() <= 65536,
        counted(keys.spec_num_keys()) == keys.spec_num_keys(),
{
    keys.lemma_wf();
    lemma_entries_below(keys.map@, 256);
    assert forall|i: int| 0 <= i < keys@.len() implies key_count()(#[trigger] keys@[i])
        <= 256 by {
        let inner = keys.map@[keys@[i].0];
        inner.lemma_wf();
        assert(keys@[i].1 == inner@);
    }
    lemma_sum_of_bound(keys@, key_count(), 256);
    assert(256 * keys@.len() <= 65536) by (nonlinear_arith)
        requires
            keys@.len() <= 256,
    ;
}

/// The secret keys of one credential with the number of them that must
/// sign.
#[derive(Debug, Clone, PartialEq, Eq)]
pub struct CredentialData {
    pub keys: IndexMap<KeyPair>,
    pub threshold: SignatureThreshold,
}

/// The mathematical content of [`CredentialData`].
pub struct CredentialDataView {
    pub keys: Seq<(u8, KeyPairView)>,
    pub threshold: u8,
}

impl View for CredentialData {
    type V = CredentialDataView;

    open spec fn view(&self) -> CredentialDataView {
        CredentialDataView { keys: self.keys@, threshold: self.threshold.threshold }
    }
}

/// The secret keys of an account: those of each credential by credential
/// index, with the number of credentials that must sign. As a signer it
/// signs with the first credentials up to the account's threshold, and for
/// each of them with the first keys up to the credential's threshold.
#[derive(Debug, Clone, PartialEq, Eq)]
pub struct AccountKeys {
    pub keys: IndexMap<CredentialData>,
    pub threshold: AccountThreshold,
}

/// The signature that one credential of an account makes on a hash: the
/// first keys sign, as many as the credential's threshold says.
pub open spec fn sign_with_credential(e: (u8, CredentialDataView), hash: Seq<u8>) -> (
    u8,
    CredentialSignaturesView,
) {
    (e.0, sign_with_keys(first(e.1.keys, e.1.threshold as int), hash))
}

/// The signature that the keys of an account make on a hash: the first
/// credentials sign, as many as the account's threshold says, each with its
/// first keys, as many as its own threshold says.
pub open spec fn sign_with_account(
    keys: Seq<(u8, CredentialDataView)>,
    threshold: u8,
    hash: Seq<u8>,
) -> TransactionSignatureView {
    first(keys, threshold as int).map_values(
        |e: (u8, CredentialDataView)| sign_with_credential(e, hash),
    )
}

/// The key pairs that the keys of an account sign with: those of the first
/// credentials, as many as the account's threshold says, and of each the
/// first, as many as its own threshold says.
pub open spec fn signing_keys(keys: Seq<(u8, CredentialDataView)>, threshold: u8) -> Seq<
    (u8, Seq<(u8, KeyPairView)>),
> {
    first(keys, threshold as int).map_values(
        |e: (u8, CredentialDataView)| (e.0, first(e.1.keys, e.1.threshold as int)),
    )
}

/// The keys of an account sign as the map of the key pairs that they sign
/// with does.
pub proof fn account_keys_sign_as_their_signing_keys(
    keys: Seq<(u8, CredentialDataView)>,
    threshold: u8,
    hash: Seq<u8>,
)
    ensures
        sign_with_account(keys, threshold, hash) == sign_with_all(
            signing_keys(keys, threshold),
            hash,
        ),
{
    assert(sign_with_account(keys, threshold, hash) =~= sign_with_all(
        signing_keys(keys, threshold),
        hash,
    ));
}

/// The threshold of a credential of an account.
pub open spec fn credential_threshold() -> spec_fn((u8, CredentialDataView)) -> nat {
    |e: (u8, CredentialDataView)| e.1.threshold as nat
}

impl TransactionSigner for AccountKeys {
    open spec fn spec_sign(&self, hash: Seq<u8>) -> TransactionSignatureView {
        sign_with_account(self.keys@, self.threshold.threshold, hash)
    }

    /// Signs the hash with the first keys of the first credentials, as the
    /// thresholds say. The signature of each key verifies under its own
    /// public key, so the whole verifies for every account that holds the
    /// keys that signed and whose thresholds they meet.
    fn sign_transaction_hash(&self, hash_to_sign: &TransactionSignHash) -> (signature:
        TransactionSignature)
        ensures
            all_sign_validly(signing_keys(self.keys@, self.threshold.threshold), hash_to_sign@),
            forall|access: AccountAccessStructure| #[trigger]
                holds_the_keys(&access, signing_keys(self.keys@, self.threshold.threshold))
                    ==> transaction_signature_verifies(&access, hash_to_sign@, signature@),
    {
        let limit = self.threshold.threshold as usize;
        let n = if limit <= self.keys.len() {
            limit
        } else {
            self.keys.len()
        };
        let ghost chosen = first(self.keys@, limit as int);
        assert(self.keys@.take(n as int) =~= chosen);
        let mut creds: Vec<(u8, IndexMap<Signature>)> = Vec::new();
        let mut i: usize = 0;
        assert(views(creds@) =~= chosen.take(0).map_values(
            |e: (u8, CredentialDataView)| sign_with_credential(e, hash_to_sign@),
        ));
        let items = self.keys.entries();
        while i < n
            invariant
                lists(items@, self.keys@),
                i <= n <= self.keys@.len(),
                chosen == self.keys@.take(n as int),
                views(creds@) == chosen.take(i as int).map_values(
                    |e: (u8, CredentialDataView)| sign_with_credential(e, hash_to_sign@),
                ),
                forall|k: int|
                    0 <= k < i ==> keys_sign_validly(
                        first((#[trigger] chosen[k]).1.keys, chosen[k].1.threshold as int),
                        hash_to_sign@,
                    ),
            decreases n - i,
        {
            let credential = items[i].1;
            let sigs = sign_with_first_keys(
                &credential.keys,
                credential.threshold.threshold as usize,
                hash_to_sign,
            );
            let entry = (items[i].0, sigs);
            proof {
                lemma_views_push(creds@, entry);
                assert(chosen[i as int] == self.keys@[i as int]);
                assert(chosen.take(i + 1).map_values(
                    |e: (u8, CredentialDataView)| sign_with_credential(e, hash_to_sign@),
                ) =~= chosen.take(i as int).map_values(
                    |e: (u8, CredentialDataView)| sign_with_credential(e, hash_to_sign@),
                ).push(entry@));
            }
            creds.push(entry);
            i = i + 1;
        }
        assert(chosen.take(i as int) =~= chosen);
        proof {
            self.keys.lemma_wf();
            let made = views(creds@);
            assert forall|a: int, b: int| 0 <= a < b < made.len() implies entry_key()(
                #[trigger] made[a],
            ) < entry_key()(#[trigger] made[b]) by {
                assert(chosen[a] == self.keys@[a] && chosen[b] == self.keys@[b]);
                assert(entry_key()(self.keys@[a]) < entry_key()(self.keys@[b]));
            }
            let signing = signing_keys(self.keys@, self.threshold.threshold);
            account_keys_sign_as_their_signing_keys(
                self.keys@,
                self.threshold.threshold,
                hash_to_sign@,
            );
            assert forall|k: int| 0 <= k < signing.len() implies keys_sign_validly(
                (#[trigger] signing[k]).1,
                hash_to_sign@,
            ) by {
                assert(signing[k].1 == first(chosen[k].1.keys, chosen[k].1.threshold as int));
            }
            assert forall|access: AccountAccessStructure| #[trigger]
                holds_the_keys(&access, signing) implies transaction_signature_verifies(
                &access,
                hash_to_sign@,
                sign_with_all(signing, hash_to_sign@),
            ) by {
                what_all_keys_sign_verifies(&access, signing, hash_to_sign@);
            }
        }
        TransactionSignature { signatures: IndexMap::from_increasing(creds) }
    }
}

impl ExactSizeTransactionSigner for AccountKeys {
    open spec fn spec_num_keys(&self) -> nat {
        sum_of(first(self.keys@, self.threshold.threshold as int), credential_threshold())
    }

    fn num_keys(&self) -> (n: u32) {
        let limit = self.threshold.threshold as usize;
        let m = if limit <= self.keys.len() {
            limit
        } else {
            self.keys.len()
        };
        let ghost chosen = first(self.keys@, limit as int);
        assert(self.keys@.take(m as int) =~= chosen);
        let mut n: u32 = 0;
        let mut i: usize = 0;
        let items = self.keys.entries();
        while i < m
            invariant
                lists(items@, self.keys@),
                i <= m <= self.keys@.len(),
                m <= 255,
                chosen == self.keys@.take(m as int),
                n == sum_of(chosen.take(i as int), credential_threshold()),
                n <= 255 * i,
            decreases m - i,
        {
            proof {
                assert(chosen.take(i + 1).drop_last() =~= chosen.take(i as int));
                assert(chosen.take(i + 1).last() == self.keys@[i as int]);
            }
            n = n + items[i].1.threshold.threshold as u32;
            i = i + 1;
        }
        assert(chosen.take(i as int) =~= chosen);
        n
    }
}

// ---------------------------------------------------------------------------
// What holds of signing
// ---------------------------------------------------------------------------

/// In a map the first entries are those with the least indices: every one
/// of the first `n` entries has a lesser index than every entry behind them.
pub proof fn first_are_least<T>(m: Seq<(u8, T)>, n: int, i: int, j: int)
    requires
        increasing(m, entry_key()),
        0 <= i < first(m, n).len() <= j < m.len(),
    ensures
        first(m, n)[i] == m[i],
        m[i].0 < m[j].0,
{
    assert(entry_key()(m[i]) < entry_key()(m[j]));
}

/// What a map of keys signs has an entry for each credential and for each
/// of its keys, under the same indices and in the same order, with the
/// signature of that key: so it is a map where the keys are one.
pub proof fn signatures_follow_the_keys(keys: Seq<(u8, Seq<(u8, KeyPairView)>)>, hash: Seq<u8>)
    ensures
        sign_with_all(keys, hash).len() == keys.len(),
        forall|i: int|
            0 <= i < keys.len() ==> (#[trigger] sign_with_all(keys, hash)[i]) == (
                keys[i].0,
                sign_with_keys(keys[i].1, hash),
            ),
        forall|i: int, j: int|
            0 <= i < keys.len() && 0 <= j < keys[i].1.len() ==> (#[trigger] sign_with_keys(
                keys[i].1,
                hash,
            )[j]) == (keys[i].1[j].0, spec_ed25519_sign(keys[i].1[j].1.secret, hash)),
        increasing(keys, entry_key()) ==> increasing(sign_with_all(keys, hash), entry_key()),
        forall|i: int|
            0 <= i < keys.len() && increasing((#[trigger] keys[i]).1, entry_key()) ==> increasing(
                sign_with_keys(keys[i].1, hash),
                entry_key(),
            ),
{
    let sig = sign_with_all(keys, hash);
    if increasing(keys, entry_key()) {
        assert forall|a: int, b: int| 0 <= a < b < sig.len() implies entry_key()(#[trigger] sig[a])
            < entry_key()(#[trigger] sig[b]) by {
            assert(entry_key()(keys[a]) < entry_key()(keys[b]));
        }
    }
    assert forall|i: int|
        0 <= i < keys.len() && increasing((#[trigger] keys[i]).1, entry_key()) implies increasing(
        sign_with_keys(keys[i].1, hash),
        entry_key(),
    ) by {
        let ks = keys[i].1;
        let ss = sign_with_keys(ks, hash);
        assert forall|a: int, b: int| 0 <= a < b < ss.len() implies entry_key()(#[trigger] ss[a])
            < entry_key()(#[trigger] ss[b]) by {
            assert(entry_key()(ks[a]) < entry_key()(ks[b]));
        }
    }
}

/// The key pair is the one that the credential has under this index: the
/// credential holds there the public key of the pair's secret key.
pub open spec fn key_pair_matches(cred_keys: CredentialPublicKeysView, k: (u8, KeyPairView)) -> bool {
    lookup(cred_keys.keys, k.0) == Some(spec_ed25519_public_key(k.1.secret))
}

/// The key pairs are those of a credential of the account: the account has
/// a credential with this index, the key pairs are listed by strictly
/// increasing index and are at least as many as its threshold, and each of
/// them matches.
pub open spec fn credential_key_pairs_match<K: HasAccountAccessStructure>(
    access: &K,
    e: (u8, Seq<(u8, KeyPairView)>),
) -> bool {
    match access.spec_credential_keys(e.0) {
        Some(cred_keys) => {
            &&& increasing(e.1, entry_key())
            &&& cred_keys.threshold <= e.1.len()
            &&& forall|j: int| 0 <= j < e.1.len() ==> key_pair_matches(cred_keys, #[trigger] e.1[j])
        },
        None => false,
    }
}

/// The key pairs are keys of the account and meet its thresholds: they are
/// listed by strictly increasing credential index, they are of at least as
/// many credentials as the account's threshold, and those of each
/// credential are keys of that credential of the account, at least as many
/// as its threshold.
pub open spec fn holds_the_keys<K: HasAccountAccessStructure>(
    access: &K,
    keys: Seq<(u8, Seq<(u8, KeyPairView)>)>,
) -> bool {
    &&& increasing(keys, entry_key())
    &&& access.spec_threshold() <= keys.len()
    &&& forall|i: int| 0 <= i < keys.len() ==> credential_key_pairs_match(access, #[trigger] keys[i])
}

/// What all keys sign verifies: where the key pairs are keys of the account
/// and meet its thresholds, and the signature of each verifies under its
/// own public key, as signing ensures, the signature that they make on a
/// hash verifies for the account.
pub proof fn what_all_keys_sign_verifies<K: HasAccountAccessStructure>(
    access: &K,
    keys: Seq<(u8, Seq<(u8, KeyPairView)>)>,
    hash: Seq<u8>,
)
    requires
        holds_the_keys(access, keys),
        all_sign_validly(keys, hash),
    ensures
        transaction_signature_verifies(access, hash, sign_with_all(keys, hash)),
{
    let sig = sign_with_all(keys, hash);
    signatures_follow_the_keys(keys, hash);
    assert forall|i: int| 0 <= i < sig.len() implies credential_entry_verifies(
        access,
        hash,
        #[trigger] sig[i],
    ) by {
        assert(credential_key_pairs_match(access, keys[i]));
        assert(keys_sign_validly(keys[i].1, hash));
        let cred_keys = access.spec_credential_keys(keys[i].0).unwrap();
        let ks = keys[i].1;
        let ss = sign_with_keys(ks, hash);
        assert(sig[i] == (keys[i].0, ss));
        assert forall|j: int| 0 <= j < ss.len() implies key_signature_verifies(
            cred_keys,
            hash,
            #[trigger] ss[j],
        ) by {
            assert(key_pair_matches(cred_keys, ks[j]));
            assert(ss[j] == (ks[j].0, spec_ed25519_sign(ks[j].1.secret, hash)));
        }
    }
}

/// Signs the header and the payload, and puts the transaction together from
/// the three. What is signed is the sign hash of the header and the payload.
pub fn sign_transaction<S: TransactionSigner, P: PayloadLike>(
    signer: &S,
    header: TransactionHeader,
    payload: P,
) -> (transaction: AccountTransaction<P>)
    ensures
        transaction.header == header,
        transaction.payload == payload,
        transaction.signature@ == signer.spec_sign(
            spec_sha256(sign_hash_input(header@, payload.encoding())),
        ),
{
    let hash_to_sign = compute_transaction_sign_hash(&header, &payload);
    let signature = signer.sign_transaction_hash(&hash_to_sign);
    AccountTransaction { signature, header, payload }
}

} // verus!
