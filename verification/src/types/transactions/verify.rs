//! Checking the signature of a transaction against the keys of an account:
//! enough credentials must have signed, each with enough of its keys, and
//! whatever is in the signature must be known to the account and valid.

use vstd::prelude::*;
use crate::types::basic::{AccountThreshold, TransactionSignHash};
use crate::types::index_map::{lookup, IndexMap};
use crate::types::keys::{
    signature_verifies, CredentialPublicKeys, CredentialPublicKeysView, Signature,
};
use crate::wire::{lists, entry_key, increasing};
use crate::types::transactions::signature::{
    CredentialSignaturesView, TransactionSignature, TransactionSignatureView,
};

verus! {

/// Something that knows the keys with which the signatures on the
/// transactions of an account are verified.
pub trait HasAccountAccessStructure {
    /// The number of credentials that must sign.
    spec fn spec_threshold(&self) -> u8;

    /// The keys of the credential with the given index, if the account has
    /// one.
    spec fn spec_credential_keys(&self, idx: u8) -> Option<CredentialPublicKeysView>;

    /// The number of credentials that must sign.
    fn threshold(&self) -> (t: AccountThreshold)
        ensures
            t.threshold == self.spec_threshold(),
    ;

    /// The keys of the credential with the given index, if the account has
    /// one.
    fn credential_keys(&self, idx: u8) -> (r: Option<&CredentialPublicKeys>)
        ensures
            match r {
                Some(keys) => self.spec_credential_keys(idx) == Some(keys@),
                None => self.spec_credential_keys(idx) is None,
            },
    ;
}

/// The plainest access structure: the account threshold and the keys of
/// each credential by credential index.
#[derive(Debug, Clone, PartialEq, Eq)]
pub struct AccountAccessStructure {
    /// The number of credentials that must sign a transaction.
    pub threshold: AccountThreshold,
    /// Keys by credential index.
    pub keys: IndexMap<CredentialPublicKeys>,
}

impl HasAccountAccessStructure for AccountAccessStructure {
    open spec fn spec_threshold(&self) -> u8 {
        self.threshold.threshold
    }

    open spec fn spec_credential_keys(&self, idx: u8) -> Option<CredentialPublicKeysView> {
        lookup(self.keys@, idx)
    }

    fn threshold(&self) -> (t: AccountThreshold) {
        self.threshold
    }

    fn credential_keys(&self, idx: u8) -> (r: Option<&CredentialPublicKeys>) {
        self.keys.get(idx)
    }
}

/// A credential of an account as the chain reports it, without its proofs.
/// Of either kind, only the keys matter here.
#[derive(Debug, Clone, PartialEq, Eq)]
pub enum AccountCredentialWithoutProofs {
    /// A credential that the identity provider created with the account.
    Initial { cred_account: CredentialPublicKeys },
    /// A credential that the account holder created.
    Normal { cred_key_info: CredentialPublicKeys },
}

impl View for AccountCredentialWithoutProofs {
    type V = CredentialPublicKeysView;

    open spec fn view(&self) -> CredentialPublicKeysView {
        match self {
            AccountCredentialWithoutProofs::Initial { cred_account } => cred_account@,
            AccountCredentialWithoutProofs::Normal { cred_key_info } => cred_key_info@,
        }
    }
}

/// What the chain reports of an account, as far as checking signatures
/// needs it: the account threshold and the credentials by index.
#[derive(Debug, Clone, PartialEq, Eq)]
pub struct AccountInfo {
    /// The number of credentials that must sign a transaction.
    pub account_threshold: AccountThreshold,
    /// The credentials of the account by credential index.
    pub account_credentials: IndexMap<AccountCredentialWithoutProofs>,
}

impl HasAccountAccessStructure for AccountInfo {
    open spec fn spec_threshold(&self) -> u8 {
        self.account_threshold.threshold
    }

    open spec fn spec_credential_keys(&self, idx: u8) -> Option<CredentialPublicKeysView> {
        lookup(self.account_credentials@, idx)
    }

    fn threshold(&self) -> (t: AccountThreshold) {
        self.account_threshold
    }

    fn credential_keys(&self, idx: u8) -> (r: Option<&CredentialPublicKeys>) {
        match self.account_credentials.get(idx) {
            Some(credential) => match credential {
                AccountCredentialWithoutProofs::Initial { cred_account } => Some(cred_account),
                AccountCredentialWithoutProofs::Normal { cred_key_info } => Some(cred_key_info),
            },
            None => None,
        }
    }
}

/// The signature of one key is good: the credential has a key with this
/// index, and the signature verifies on the hash under it.
pub open spec fn key_signature_verifies(
    keys: CredentialPublicKeysView,
    hash: Seq<u8>,
    e: (u8, Seq<u8>),
) -> bool {
    match lookup(keys.keys, e.0) {
        Some(key) => signature_verifies(key, hash, e.1),
        None => false,
    }
}

/// The signatures of one credential are good: they are listed by strictly
/// increasing key index, so that no key counts twice, they are at least as
/// many as the credential's threshold, and each of them is good.
pub open spec fn credential_signatures_verify(
    keys: CredentialPublicKeysView,
    hash: Seq<u8>,
    sigs: CredentialSignaturesView,
) -> bool {
    &&& increasing(sigs, entry_key())
    &&& keys.threshold <= sigs.len()
    &&& forall|j: int| 0 <= j < sigs.len() ==> key_signature_verifies(keys, hash, #[trigger] sigs[j])
}

/// The entry of one credential in a signature is good: the account has a
/// credential with this index, and the signatures are good for its keys.
pub open spec fn credential_entry_verifies<K: HasAccountAccessStructure>(
    keys: &K,
    hash: Seq<u8>,
    e: (u8, CredentialSignaturesView),
) -> bool {
    match keys.spec_credential_keys(e.0) {
        Some(cred_keys) => credential_signatures_verify(cred_keys, hash, e.1),
        None => false,
    }
}

/// A signature verifies for an account: its entries are listed by strictly
/// increasing credential index, so that no credential counts twice, they
/// are of at least as many credentials as the account's threshold, and every
/// entry is good. There is no partial credit: one signature that does not
/// verify, one credential or key that the account does not have, one index
/// that is listed twice or out of order, or one credential with too few
/// signatures, and the signature as a whole does not verify.
pub open spec fn transaction_signature_verifies<K: HasAccountAccessStructure>(
    keys: &K,
    hash: Seq<u8>,
    signature: TransactionSignatureView,
) -> bool {
    &&& increasing(signature, entry_key())
    &&& keys.spec_threshold() <= signature.len()
    &&& forall|i: int|
        0 <= i < signature.len() ==> credential_entry_verifies(keys, hash, #[trigger] signature[i])
}

/// Checks the signatures of the keys of one credential on a hash.
pub fn verify_credential_signatures(
    cred_keys: &CredentialPublicKeys,
    hash: &TransactionSignHash,
    sigs: &IndexMap<Signature>,
) -> (ok: bool)
    ensures
        ok == credential_signatures_verify(cred_keys@, hash@, sigs@),
{
    proof {
        sigs.lemma_wf();
    }
    if cred_keys.threshold.threshold as usize > sigs.len() {
        return false;
    }
    let mut j: usize = 0;
    let items = sigs.entries();
    while j < sigs.len()
        invariant
            lists(items@, sigs@),
            j <= sigs@.len(),
            increasing(sigs@, entry_key()),
            forall|k: int| 0 <= k < j ==> key_signature_verifies(cred_keys@, hash@, #[trigger] sigs@[k]),
        decreases sigs@.len() - j,
    {
        match cred_keys.keys.get(items[j].0) {
            Some(key) => {
                if !key.verify(hash.bytes.as_slice(), items[j].1) {
                    assert(!key_signature_verifies(cred_keys@, hash@, sigs@[j as int]));
                    return false;
                }
            },
            None => {
                assert(!key_signature_verifies(cred_keys@, hash@, sigs@[j as int]));
                return false;
            },
        }
        j = j + 1;
    }
    true
}

/// Verifies a signature on the sign hash of a transaction against the keys
/// of an account. Taking the hash, it spares computing it again.
pub fn verify_signature_transaction_sign_hash<K: HasAccountAccessStructure>(
    keys: &K,
    hash: &TransactionSignHash,
    signature: &TransactionSignature,
) -> (ok: bool)
    ensures
        ok == transaction_signature_verifies(keys, hash@, signature@),
{
    let creds = &signature.signatures;
    proof {
        creds.lemma_wf();
    }
    if keys.threshold().threshold as usize > creds.len() {
        return false;
    }
    let mut i: usize = 0;
    let items = creds.entries();
    while i < creds.len()
        invariant
            lists(items@, creds@),
            i <= creds@.len(),
            creds@ == signature@,
            increasing(creds@, entry_key()),
            forall|k: int| 0 <= k < i ==> credential_entry_verifies(keys, hash@, #[trigger] creds@[k]),
        decreases creds@.len() - i,
    {
        match keys.credential_keys(items[i].0) {
            Some(cred_keys) => {
                if !verify_credential_signatures(cred_keys, hash, items[i].1) {
                    assert(!credential_entry_verifies(keys, hash@, creds@[i as int]));
                    return false;
                }
            },
            None => {
                assert(!credential_entry_verifies(keys, hash@, creds@[i as int]));
                return false;
            },
        }
        i = i + 1;
    }
    true
}

// ---------------------------------------------------------------------------
// What holds of verification
// ---------------------------------------------------------------------------

/// A signature with entries of fewer credentials than the account's
/// threshold does not verify, whether or not its signatures are valid.
pub proof fn too_few_credentials_fail<K: HasAccountAccessStructure>(
    keys: &K,
    hash: Seq<u8>,
    signature: TransactionSignatureView,
)
    requires
        keys.spec_threshold() > signature.len(),
    ensures
        !transaction_signature_verifies(keys, hash, signature),
{
}

/// A signature verifies exactly when it lists each index once and in
/// order, supplies entries of at least as many credentials as the account's
/// threshold, every one of them a credential of the account with at least
/// as many signatures as its own threshold, each signature under a key of
/// that credential and valid for the hash.
pub proof fn verification_is_threshold_check<K: HasAccountAccessStructure>(
    keys: &K,
    hash: Seq<u8>,
    signature: TransactionSignatureView,
)
    ensures
        transaction_signature_verifies(keys, hash, signature) <==> {
            &&& increasing(signature, entry_key())
            &&& signature.len() >= keys.spec_threshold()
            &&& forall|i: int|
                0 <= i < signature.len() ==> {
                    let cred_keys = keys.spec_credential_keys((#[trigger] signature[i]).0);
                    &&& cred_keys is Some
                    &&& increasing(signature[i].1, entry_key())
                    &&& signature[i].1.len() >= cred_keys.unwrap().threshold
                    &&& forall|j: int|
                        0 <= j < signature[i].1.len() ==> {
                            let key = lookup(
                                cred_keys.unwrap().keys,
                                (#[trigger] signature[i].1[j]).0,
                            );
                            &&& key is Some
                            &&& signature_verifies(key.unwrap(), hash, signature[i].1[j].1)
                        }
                }
        },
{
    let rhs = {
        &&& increasing(signature, entry_key())
        &&& signature.len() >= keys.spec_threshold()
        &&& forall|i: int|
            0 <= i < signature.len() ==> {
                let cred_keys = keys.spec_credential_keys((#[trigger] signature[i]).0);
                &&& cred_keys is Some
                &&& increasing(signature[i].1, entry_key())
                &&& signature[i].1.len() >= cred_keys.unwrap().threshold
                &&& forall|j: int|
                    0 <= j < signature[i].1.len() ==> {
                        let key = lookup(cred_keys.unwrap().keys, (#[trigger] signature[i].1[j]).0);
                        &&& key is Some
                        &&& signature_verifies(key.unwrap(), hash, signature[i].1[j].1)
                    }
            }
    };
    if transaction_signature_verifies(keys, hash, signature) {
        assert forall|i: int| 0 <= i < signature.len() implies {
            let cred_keys = keys.spec_credential_keys((#[trigger] signature[i]).0);
            &&& cred_keys is Some
            &&& increasing(signature[i].1, entry_key())
            &&& signature[i].1.len() >= cred_keys.unwrap().threshold
            &&& forall|j: int|
                0 <= j < signature[i].1.len() ==> {
                    let key = lookup(cred_keys.unwrap().keys, (#[trigger] signature[i].1[j]).0);
                    &&& key is Some
                    &&& signature_verifies(key.unwrap(), hash, signature[i].1[j].1)
                }
        } by {
            assert(credential_entry_verifies(keys, hash, signature[i]));
            let cred_keys = keys.spec_credential_keys(signature[i].0).unwrap();
            assert forall|j: int| 0 <= j < signature[i].1.len() implies {
                let key = lookup(cred_keys.keys, (#[trigger] signature[i].1[j]).0);
                &&& key is Some
                &&& signature_verifies(key.unwrap(), hash, signature[i].1[j].1)
            } by {
                assert(key_signature_verifies(cred_keys, hash, signature[i].1[j]));
            }
        }
        assert(rhs);
    }
    if rhs {
        assert forall|i: int| 0 <= i < signature.len() implies credential_entry_verifies(
            keys,
            hash,
            #[trigger] signature[i],
        ) by {
            let cred_keys = keys.spec_credential_keys(signature[i].0).unwrap();
            assert forall|j: int| 0 <= j < signature[i].1.len() implies key_signature_verifies(
                cred_keys,
                hash,
                #[trigger] signature[i].1[j],
            ) by {
                let key = lookup(cred_keys.keys, signature[i].1[j].0);
                assert(key is Some);
            }
        }
    }
}

/// Taking away a signature that was needed turns success into failure: if a
/// signature verifies and one of its credentials has signed with exactly as
/// many keys as its threshold asks for, the signature without one of the
/// signatures of that credential does not verify.
pub proof fn removing_a_required_key_signature_fails<K: HasAccountAccessStructure>(
    keys: &K,
    hash: Seq<u8>,
    signature: TransactionSignatureView,
    i: int,
    j: int,
)
    requires
        transaction_signature_verifies(keys, hash, signature),
        0 <= i < signature.len(),
        0 <= j < signature[i].1.len(),
        keys.spec_credential_keys(signature[i].0) matches Some(cred_keys)
            && signature[i].1.len() == cred_keys.threshold,
    ensures
        !transaction_signature_verifies(
            keys,
            hash,
            signature.update(i, (signature[i].0, signature[i].1.remove(j))),
        ),
{
    let fewer = signature.update(i, (signature[i].0, signature[i].1.remove(j)));
    assert(fewer[i] == (signature[i].0, signature[i].1.remove(j)));
    assert(!credential_entry_verifies(keys, hash, fewer[i]));
}

/// Taking away a credential that was needed turns success into failure: if
/// a signature verifies and holds entries of exactly as many credentials as
/// the account's threshold asks for, the signature without one of the
/// entries does not verify.
pub proof fn removing_a_required_credential_fails<K: HasAccountAccessStructure>(
    keys: &K,
    hash: Seq<u8>,
    signature: TransactionSignatureView,
    i: int,
)
    requires
        transaction_signature_verifies(keys, hash, signature),
        0 <= i < signature.len(),
        signature.len() == keys.spec_threshold(),
    ensures
        !transaction_signature_verifies(keys, hash, signature.remove(i)),
{
}

/// Nothing counts twice: a signature that lists a credential index twice,
/// or a key index twice within a credential, does not verify, whatever its
/// signatures are.
pub proof fn repeated_index_fails<K: HasAccountAccessStructure>(
    keys: &K,
    hash: Seq<u8>,
    signature: TransactionSignatureView,
    i: int,
    a: int,
    b: int,
)
    requires
        0 <= i < signature.len(),
        0 <= a < b,
        (b < signature.len() && signature[a].0 == signature[b].0) || (b < signature[i].1.len()
            && signature[i].1[a].0 == signature[i].1[b].0),
    ensures
        !transaction_signature_verifies(keys, hash, signature),
{
    if b < signature.len() && signature[a].0 == signature[b].0 {
        assert(!(entry_key()(signature[a]) < entry_key()(signature[b])));
    } else {
        let sigs = signature[i].1;
        assert(!(entry_key()(sigs[a]) < entry_key()(sigs[b])));
        assert(!credential_entry_verifies(keys, hash, signature[i]));
    }
}

/// One bad signature spoils the whole: a signature in which some key's
/// signature does not verify under the account's key of that index, or
/// stands under an index for which the credential has no key, does not
/// verify.
pub proof fn one_invalid_signature_fails<K: HasAccountAccessStructure>(
    keys: &K,
    hash: Seq<u8>,
    signature: TransactionSignatureView,
    i: int,
    j: int,
)
    requires
        0 <= i < signature.len(),
        0 <= j < signature[i].1.len(),
        keys.spec_credential_keys(signature[i].0) matches Some(cred_keys) ==> !key_signature_verifies(
            cred_keys,
            hash,
            signature[i].1[j],
        ),
    ensures
        !transaction_signature_verifies(keys, hash, signature),
{
    assert(!credential_entry_verifies(keys, hash, signature[i]));
}

} // verus!
