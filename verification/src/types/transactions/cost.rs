//! Energy costs of transactions.

use vstd::prelude::*;
use crate::types::basic::{CredentialType, Energy};

verus! {

/// Energy charged per signature on a transaction.
pub const A: u64 = 100;

/// Energy charged per byte of a transaction.
pub const B: u64 = 1;

/// The base cost as a function on the naturals: one unit per byte and a
/// hundred per signature.
pub open spec fn spec_base_cost(transaction_size: nat, num_signatures: nat) -> nat {
    1 * transaction_size + 100 * num_signatures
}

/// Base cost of a transaction: the minimum cost, which accounts for the
/// transaction's size and for checking its signatures. Each kind of
/// transaction adds a cost of its own to it.
pub fn base_cost(transaction_size: u64, num_signatures: u32) -> (e: Energy)
    requires
        spec_base_cost(transaction_size as nat, num_signatures as nat) <= u64::MAX,
    ensures
        e.energy == spec_base_cost(transaction_size as nat, num_signatures as nat),
{
    let per_signature: u64 = A * (num_signatures as u64);
    Energy { energy: B * transaction_size + per_signature }
}

/// The base cost never decreases when the size or the number of signatures
/// grows.
pub proof fn base_cost_is_monotonic(size1: nat, n1: nat, size2: nat, n2: nat)
    requires
        size1 <= size2,
        n1 <= n2,
    ensures
        spec_base_cost(size1, n1) <= spec_base_cost(size2, n2),
{
}

/// Additional cost of a plain transfer from account to account.
pub const SIMPLE_TRANSFER: u64 = 300;

/// Additional cost of an encrypted transfer.
pub const ENCRYPTED_TRANSFER: u64 = 27000;

/// Additional cost of a transfer from public to encrypted balance.
pub const TRANSFER_TO_ENCRYPTED: u64 = 600;

/// Additional cost of a transfer from encrypted to public balance.
pub const TRANSFER_TO_PUBLIC: u64 = 14850;

/// Additional cost of registering the account as a baker.
pub const ADD_BAKER: u64 = 4050;

/// Additional cost of updating a baker's keys.
pub const UPDATE_BAKER_KEYS: u64 = 4050;

/// Additional cost of changing a baker's stake.
pub const UPDATE_BAKER_STAKE: u64 = 300;

/// Additional cost of changing a baker's restake flag.
pub const UPDATE_BAKER_RESTAKE: u64 = 300;

/// Additional cost of removing a baker.
pub const REMOVE_BAKER: u64 = 300;

/// Additional cost of registering a piece of data.
pub const REGISTER_DATA: u64 = 300;

/// Fixed part of the cost of updating an account's credentials.
pub const UPDATE_CREDENTIALS_BASE: u64 = 500;

/// Cost of a scheduled transfer with the given number of releases.
pub fn scheduled_transfer(num_releases: u16) -> (e: Energy)
    ensures
        e.energy == num_releases as nat * (300 + 64),
{
    let per_release: u64 = 300 + 64;
    Energy { energy: (num_releases as u64) * per_release }
}

/// Additional cost of deploying a module of the given size in bytes: a tenth
/// of the size, rounded down.
pub fn deploy_module(module_size: u64) -> (e: Energy)
    ensures
        e.energy == module_size as nat / 10,
{
    Energy { energy: module_size / 10 }
}

/// The cost of deploying a credential, as a function on the naturals.
pub open spec fn spec_deploy_credential(ty: CredentialType, num_keys: nat) -> nat {
    match ty {
        CredentialType::Initial => 1000 + 100 * num_keys,
        CredentialType::Normal => 54000 + 100 * num_keys,
    }
}

/// Additional cost of deploying a credential of the given kind with the
/// given number of keys.
pub fn deploy_credential(ty: CredentialType, num_keys: u16) -> (e: Energy)
    ensures
        e.energy == spec_deploy_credential(ty, num_keys as nat),
{
    match ty {
        CredentialType::Initial => Energy { energy: 1000 + 100 * (num_keys as u64) },
        CredentialType::Normal => Energy { energy: 54000 + 100 * (num_keys as u64) },
    }
}

/// Sum of the costs of deploying normal credentials with the given numbers of
/// keys.
pub open spec fn spec_added_credentials_cost(num_keys: Seq<u16>) -> nat
    decreases num_keys.len(),
{
    if num_keys.len() == 0 {
        0
    } else {
        spec_added_credentials_cost(num_keys.drop_last()) + spec_deploy_credential(
            CredentialType::Normal,
            num_keys.last() as nat,
        )
    }
}

/// The part of the cost of a credential update that depends on the account
/// and on the credentials added.
pub open spec fn spec_update_credentials_variable(
    num_credentials_before: nat,
    num_keys: Seq<u16>,
) -> nat {
    500 * num_credentials_before + spec_added_credentials_cost(num_keys)
}

/// The whole cost of a credential update.
pub open spec fn spec_update_credentials(num_credentials_before: nat, num_keys: Seq<u16>) -> nat {
    500 + spec_update_credentials_variable(num_credentials_before, num_keys)
}

/// Each added credential costs at least 54000 and at most 54000 + 6553500.
pub proof fn added_credentials_cost_bounds(num_keys: Seq<u16>)
    ensures
        54000 * num_keys.len() <= spec_added_credentials_cost(num_keys) <= 6607500
            * num_keys.len(),
    decreases num_keys.len(),
{
    if num_keys.len() > 0 {
        added_credentials_cost_bounds(num_keys.drop_last());
    }
}

/// The variable part of the cost of updating an account's credentials. The
/// part for the credentials already on the account covers updates that change
/// nothing, which still rewrite the stored account.
pub fn update_credentials_variable(num_credentials_before: u16, num_keys: &[u16]) -> (e: Energy)
    requires
        spec_update_credentials_variable(num_credentials_before as nat, num_keys@) <= u64::MAX,
    ensures
        e.energy == spec_update_credentials_variable(num_credentials_before as nat, num_keys@),
{
    let mut sum: u64 = 0;
    let mut i: usize = 0;
    while i < num_keys.len()
        invariant
            i <= num_keys.len(),
            sum == spec_added_credentials_cost(num_keys@.take(i as int)),
            spec_added_credentials_cost(num_keys@) <= u64::MAX,
        decreases num_keys.len() - i,
    {
        proof {
            let next = num_keys@.take(i + 1);
            assert(next.drop_last() =~= num_keys@.take(i as int));
            added_credentials_cost_is_monotonic(next, num_keys@, i + 1);
        }
        let c = deploy_credential(CredentialType::Normal, num_keys[i]);
        sum = sum + c.energy;
        i = i + 1;
    }
    proof {
        assert(num_keys@.take(i as int) =~= num_keys@);
    }
    Energy { energy: 500 * (num_credentials_before as u64) + sum }
}

/// The cost of the first `n` added credentials is at most the cost of all.
pub proof fn added_credentials_cost_is_monotonic(prefix: Seq<u16>, all: Seq<u16>, n: int)
    requires
        0 <= n <= all.len(),
        prefix == all.take(n),
    ensures
        spec_added_credentials_cost(prefix) <= spec_added_credentials_cost(all),
    decreases all.len() - n,
{
    if n < all.len() {
        let next = all.take(n + 1);
        assert(next.drop_last() =~= prefix);
        added_credentials_cost_is_monotonic(next, all, n + 1);
    } else {
        assert(prefix =~= all);
    }
}

/// Additional cost of updating an account's credentials, given the number of
/// credentials on the account before the update and the number of keys of
/// each credential that is added.
pub fn update_credentials(num_credentials_before: u16, num_keys: &[u16]) -> (e: Energy)
    requires
        spec_update_credentials(num_credentials_before as nat, num_keys@) <= u64::MAX,
    ensures
        e.energy == spec_update_credentials(num_credentials_before as nat, num_keys@),
{
    let variable = update_credentials_variable(num_credentials_before, num_keys);
    Energy { energy: UPDATE_CREDENTIALS_BASE + variable.energy }
}

/// The cost of deploying a credential never decreases when the number of
/// keys grows, and a normal credential costs more than an initial one with
/// the same keys.
pub proof fn deploy_credential_is_monotonic(ty: CredentialType, keys1: nat, keys2: nat)
    requires
        keys1 <= keys2,
    ensures
        spec_deploy_credential(ty, keys1) <= spec_deploy_credential(ty, keys2),
        spec_deploy_credential(CredentialType::Initial, keys1) < spec_deploy_credential(
            CredentialType::Normal,
            keys1,
        ),
{
}

/// The cost of updating credentials never decreases when the account holds
/// more credentials or when one more credential is added.
pub proof fn update_credentials_is_monotonic(
    before1: nat,
    before2: nat,
    num_keys: Seq<u16>,
    one_more: u16,
)
    requires
        before1 <= before2,
    ensures
        spec_update_credentials(before1, num_keys) <= spec_update_credentials(before2, num_keys),
        spec_update_credentials(before1, num_keys) <= spec_update_credentials(
            before1,
            num_keys.push(one_more),
        ),
{
    assert(num_keys.push(one_more).drop_last() =~= num_keys);
}

} // verus!
