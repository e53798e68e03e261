//! Making and signing transactions in one step: each function builds the
//! transaction of one kind, counts the signer's keys into its cost, and
//! signs it.

use vstd::prelude::*;
use crate::crypto::spec_sha256;
use crate::types::basic::{
    AccountAddress, Amount, Energy, Memo, Nonce, RegisteredData, Timestamp, TransactionTime,
};
use crate::types::smart_contracts::ModuleSource;
use crate::types::transactions::account::AccountTransaction;
use crate::types::transactions::construct;
use crate::types::transactions::construct::{
    added, built_header, schedule_energy, ConstructionError, PreAccountTransaction,
};
use crate::types::transactions::cost;
use crate::types::transactions::header::{
    sign_hash_input, EncodedPayload, TransactionHeaderView,
};
use crate::types::transactions::payload::{
    enc_payload, schedule_view, BakerAddKeysPayload, BakerUpdateKeysPayload,
    EncryptedAmountTransferData, InitContractPayload, Payload, PayloadView,
    SecToPubAmountTransferData, UpdateContractPayload,
};
use crate::types::transactions::signing::{counted, ExactSizeTransactionSigner};

verus! {

/// The transaction is the one that is built from the given parts and signed
/// by the signer: its header is the one that is built, its payload the
/// encoding of the given one, and its signature the signer's on the hash of
/// the two.
pub open spec fn is_signed<S: ExactSizeTransactionSigner>(
    transaction: AccountTransaction<EncodedPayload>,
    signer: &S,
    sender: Seq<u8>,
    nonce: u64,
    expiry: u64,
    energy: construct::GivenEnergy,
    payload: PayloadView,
) -> bool {
    &&& built_header(sender, nonce, expiry, energy, payload) == Ok::<_, ConstructionError>(
        transaction.header@,
    )
    &&& transaction.payload@ == enc_payload(payload)
    &&& transaction.signature@ == signer.spec_sign(
        spec_sha256(sign_hash_input(transaction.header@, transaction.payload@)),
    )
}

/// The result of building a transaction from the given parts and signing it
/// is `r`: the signed transaction, or the reason why none was built.
pub open spec fn is_sent<S: ExactSizeTransactionSigner>(
    r: Result<AccountTransaction<EncodedPayload>, ConstructionError>,
    signer: &S,
    sender: Seq<u8>,
    nonce: u64,
    expiry: u64,
    energy: construct::GivenEnergy,
    payload: PayloadView,
) -> bool {
    match r {
        Ok(transaction) => is_signed(transaction, signer, sender, nonce, expiry, energy, payload),
        Err(e) => built_header(sender, nonce, expiry, energy, payload) == Err::<
            TransactionHeaderView,
            _,
        >(e),
    }
}

/// Signs a transaction that was built, where one was.
fn sign_built<S: ExactSizeTransactionSigner>(
    r: Result<PreAccountTransaction, ConstructionError>,
    signer: &S,
) -> (signed: Result<AccountTransaction<EncodedPayload>, ConstructionError>)
    ensures
        forall|sender: Seq<u8>,
            nonce: u64,
            expiry: u64,
            energy: construct::GivenEnergy,
            payload: PayloadView|
            #[trigger] construct::is_built(r, sender, nonce, expiry, energy, payload) ==> is_sent(
                signed,
                signer,
                sender,
                nonce,
                expiry,
                energy,
                payload,
            ),
{
    match r {
        Ok(t) => Ok(t.sign(signer)),
        Err(e) => Err(e),
    }
}

/// Makes and signs a transfer.
pub fn transfer<S: ExactSizeTransactionSigner>(
    signer: &S,
    sender: AccountAddress,
    nonce: Nonce,
    expiry: TransactionTime,
    receiver: AccountAddress,
    amount: Amount,
) -> (transaction: AccountTransaction<EncodedPayload>)
    ensures
        is_signed(
            transaction,
            signer,
            sender@,
            nonce.nonce,
            expiry.seconds,
            added(counted(signer.spec_num_keys()), cost::SIMPLE_TRANSFER),
            PayloadView::Transfer { to_address: receiver@, amount: amount.micro_ccd },
        ),
{
    construct::transfer(signer.num_keys(), sender, nonce, expiry, receiver, amount).sign(signer)
}

/// Makes and signs a transfer with a memo.
pub fn transfer_with_memo<S: ExactSizeTransactionSigner>(
    signer: &S,
    sender: AccountAddress,
    nonce: Nonce,
    expiry: TransactionTime,
    receiver: AccountAddress,
    amount: Amount,
    memo: Memo,
) -> (r: Result<AccountTransaction<EncodedPayload>, ConstructionError>)
    ensures
        is_sent(
            r,
            signer,
            sender@,
            nonce.nonce,
            expiry.seconds,
            added(counted(signer.spec_num_keys()), cost::SIMPLE_TRANSFER),
            PayloadView::TransferWithMemo { to_address: receiver@, memo: memo@, amount: amount.micro_ccd },
        ),
{
    sign_built(construct::transfer_with_memo(signer.num_keys(), sender, nonce, expiry, receiver, amount, memo), signer)
}

/// Makes and signs an encrypted transfer from the data of one.
pub fn encrypted_transfer<S: ExactSizeTransactionSigner>(
    signer: &S,
    sender: AccountAddress,
    nonce: Nonce,
    expiry: TransactionTime,
    receiver: AccountAddress,
    data: EncryptedAmountTransferData,
) -> (r: Result<AccountTransaction<EncodedPayload>, ConstructionError>)
    ensures
        is_sent(
            r,
            signer,
            sender@,
            nonce.nonce,
            expiry.seconds,
            added(counted(signer.spec_num_keys()), cost::ENCRYPTED_TRANSFER),
            PayloadView::EncryptedAmountTransfer { to: receiver@, data: data.bytes@ },
        ),
{
    sign_built(construct::encrypted_transfer(signer.num_keys(), sender, nonce, expiry, receiver, data), signer)
}

/// Makes and signs an encrypted transfer with a memo from the data of one.
pub fn encrypted_transfer_with_memo<S: ExactSizeTransactionSigner>(
    signer: &S,
    sender: AccountAddress,
    nonce: Nonce,
    expiry: TransactionTime,
    receiver: AccountAddress,
    data: EncryptedAmountTransferData,
    memo: Memo,
) -> (r: Result<AccountTransaction<EncodedPayload>, ConstructionError>)
    ensures
        is_sent(
            r,
            signer,
            sender@,
            nonce.nonce,
            expiry.seconds,
            added(counted(signer.spec_num_keys()), cost::ENCRYPTED_TRANSFER),
            PayloadView::EncryptedAmountTransferWithMemo { to: receiver@, memo: memo@, data: data.bytes@ },
        ),
{
    sign_built(construct::encrypted_transfer_with_memo(signer.num_keys(), sender, nonce, expiry, receiver, data, memo), signer)
}

/// Makes and signs a transfer of the given amount from the public to the
/// encrypted balance of the sender.
pub fn transfer_to_encrypted<S: ExactSizeTransactionSigner>(
    signer: &S,
    sender: AccountAddress,
    nonce: Nonce,
    expiry: TransactionTime,
    amount: Amount,
) -> (transaction: AccountTransaction<EncodedPayload>)
    ensures
        is_signed(
            transaction,
            signer,
            sender@,
            nonce.nonce,
            expiry.seconds,
            added(counted(signer.spec_num_keys()), cost::TRANSFER_TO_ENCRYPTED),
            PayloadView::TransferToEncrypted { amount: amount.micro_ccd },
        ),
{
    construct::transfer_to_encrypted(signer.num_keys(), sender, nonce, expiry, amount).sign(signer)
}

/// Makes and signs a transfer from the encrypted to the public balance of
/// the sender from the data of one.
pub fn transfer_to_public<S: ExactSizeTransactionSigner>(
    signer: &S,
    sender: AccountAddress,
    nonce: Nonce,
    expiry: TransactionTime,
    data: SecToPubAmountTransferData,
) -> (r: Result<AccountTransaction<EncodedPayload>, ConstructionError>)
    ensures
        is_sent(
            r,
            signer,
            sender@,
            nonce.nonce,
            expiry.seconds,
            added(counted(signer.spec_num_keys()), cost::TRANSFER_TO_PUBLIC),
            PayloadView::TransferToPublic { data: data.bytes@ },
        ),
{
    sign_built(construct::transfer_to_public(signer.num_keys(), sender, nonce, expiry, data), signer)
}

/// Makes and signs a transfer that is released by the given schedule.
pub fn transfer_with_schedule<S: ExactSizeTransactionSigner>(
    signer: &S,
    sender: AccountAddress,
    nonce: Nonce,
    expiry: TransactionTime,
    receiver: AccountAddress,
    schedule: Vec<(Timestamp, Amount)>,
) -> (r: Result<AccountTransaction<EncodedPayload>, ConstructionError>)
    ensures
        is_sent(
            r,
            signer,
            sender@,
            nonce.nonce,
            expiry.seconds,
            added(counted(signer.spec_num_keys()), schedule_energy(schedule@.len())),
            PayloadView::TransferWithSchedule { to: receiver@, schedule: schedule_view(schedule@) },
        ),
{
    sign_built(construct::transfer_with_schedule(signer.num_keys(), sender, nonce, expiry, receiver, schedule), signer)
}

/// Makes and signs a transfer with a memo that is released by the given
/// schedule.
pub fn transfer_with_schedule_and_memo<S: ExactSizeTransactionSigner>(
    signer: &S,
    sender: AccountAddress,
    nonce: Nonce,
    expiry: TransactionTime,
    receiver: AccountAddress,
    schedule: Vec<(Timestamp, Amount)>,
    memo: Memo,
) -> (r: Result<AccountTransaction<EncodedPayload>, ConstructionError>)
    ensures
        is_sent(
            r,
            signer,
            sender@,
            nonce.nonce,
            expiry.seconds,
            added(counted(signer.spec_num_keys()), schedule_energy(schedule@.len())),
            PayloadView::TransferWithScheduleAndMemo {
                to: receiver@,
                memo: memo@,
                schedule: schedule_view(schedule@),
            },
        ),
{
    sign_built(construct::transfer_with_schedule_and_memo(signer.num_keys(), sender, nonce, expiry, receiver, schedule, memo), signer)
}

/// Makes and signs the registration of the sender as a baker.
pub fn add_baker<S: ExactSizeTransactionSigner>(
    signer: &S,
    sender: AccountAddress,
    nonce: Nonce,
    expiry: TransactionTime,
    baking_stake: Amount,
    restake_earnings: bool,
    keys: BakerAddKeysPayload,
) -> (transaction: AccountTransaction<EncodedPayload>)
    ensures
        is_signed(
            transaction,
            signer,
            sender@,
            nonce.nonce,
            expiry.seconds,
            added(counted(signer.spec_num_keys()), cost::ADD_BAKER),
            PayloadView::AddBaker {
                keys: keys@,
                baking_stake: baking_stake.micro_ccd,
                restake_earnings,
            },
        ),
{
    construct::add_baker(signer.num_keys(), sender, nonce, expiry, baking_stake, restake_earnings, keys).sign(signer)
}

/// Makes and signs an update of the keys of the baker of the sender.
pub fn update_baker_keys<S: ExactSizeTransactionSigner>(
    signer: &S,
    sender: AccountAddress,
    nonce: Nonce,
    expiry: TransactionTime,
    keys: BakerUpdateKeysPayload,
) -> (transaction: AccountTransaction<EncodedPayload>)
    ensures
        is_signed(
            transaction,
            signer,
            sender@,
            nonce.nonce,
            expiry.seconds,
            added(counted(signer.spec_num_keys()), cost::UPDATE_BAKER_KEYS),
            PayloadView::UpdateBakerKeys { keys: keys@ },
        ),
{
    construct::update_baker_keys(signer.num_keys(), sender, nonce, expiry, keys).sign(signer)
}

/// Makes and signs the deregistration of the sender as a baker.
pub fn remove_baker<S: ExactSizeTransactionSigner>(
    signer: &S,
    sender: AccountAddress,
    nonce: Nonce,
    expiry: TransactionTime,
) -> (transaction: AccountTransaction<EncodedPayload>)
    ensures
        is_signed(
            transaction,
            signer,
            sender@,
            nonce.nonce,
            expiry.seconds,
            added(counted(signer.spec_num_keys()), cost::REMOVE_BAKER),
            PayloadView::RemoveBaker,
        ),
{
    construct::remove_baker(signer.num_keys(), sender, nonce, expiry).sign(signer)
}

/// Makes and signs an update of the amount that the sender stakes as a
/// baker.
pub fn update_baker_stake<S: ExactSizeTransactionSigner>(
    signer: &S,
    sender: AccountAddress,
    nonce: Nonce,
    expiry: TransactionTime,
    new_stake: Amount,
) -> (transaction: AccountTransaction<EncodedPayload>)
    ensures
        is_signed(
            transaction,
            signer,
            sender@,
            nonce.nonce,
            expiry.seconds,
            added(counted(signer.spec_num_keys()), cost::UPDATE_BAKER_STAKE),
            PayloadView::UpdateBakerStake { stake: new_stake.micro_ccd },
        ),
{
    construct::update_baker_stake(signer.num_keys(), sender, nonce, expiry, new_stake).sign(signer)
}

/// Makes and signs an update of whether the earnings of the sender as a
/// baker are added to the stake.
pub fn update_baker_restake_earnings<S: ExactSizeTransactionSigner>(
    signer: &S,
    sender: AccountAddress,
    nonce: Nonce,
    expiry: TransactionTime,
    restake_earnings: bool,
) -> (transaction: AccountTransaction<EncodedPayload>)
    ensures
        is_signed(
            transaction,
            signer,
            sender@,
            nonce.nonce,
            expiry.seconds,
            added(counted(signer.spec_num_keys()), cost::UPDATE_BAKER_RESTAKE),
            PayloadView::UpdateBakerRestakeEarnings { restake_earnings },
        ),
{
    construct::update_baker_restake_earnings(signer.num_keys(), sender, nonce, expiry, restake_earnings).sign(signer)
}

/// Makes and signs the registration of the given piece of data.
pub fn register_data<S: ExactSizeTransactionSigner>(
    signer: &S,
    sender: AccountAddress,
    nonce: Nonce,
    expiry: TransactionTime,
    data: RegisteredData,
) -> (r: Result<AccountTransaction<EncodedPayload>, ConstructionError>)
    ensures
        is_sent(
            r,
            signer,
            sender@,
            nonce.nonce,
            expiry.seconds,
            added(counted(signer.spec_num_keys()), cost::REGISTER_DATA),
            PayloadView::RegisterData { data: data@ },
        ),
{
    sign_built(construct::register_data(signer.num_keys(), sender, nonce, expiry, data), signer)
}

/// Makes and signs the deployment of the given Wasm module, with version 0.
pub fn deploy_module<S: ExactSizeTransactionSigner>(
    signer: &S,
    sender: AccountAddress,
    nonce: Nonce,
    expiry: TransactionTime,
    source: ModuleSource,
) -> (r: Result<AccountTransaction<EncodedPayload>, ConstructionError>)
    ensures
        is_sent(
            r,
            signer,
            sender@,
            nonce.nonce,
            expiry.seconds,
            added(counted(signer.spec_num_keys()), (source@.len() / 10) as u64),
            PayloadView::DeployModule { version: 0, source: source@ },
        ),
{
    sign_built(construct::deploy_module(signer.num_keys(), sender, nonce, expiry, source), signer)
}

/// Makes and signs the initialization of a smart contract, which is given
/// `energy` for its execution on top of the base cost of the transaction.
pub fn init_contract<S: ExactSizeTransactionSigner>(
    signer: &S,
    sender: AccountAddress,
    nonce: Nonce,
    expiry: TransactionTime,
    payload: InitContractPayload,
    energy: Energy,
) -> (r: Result<AccountTransaction<EncodedPayload>, ConstructionError>)
    ensures
        is_sent(
            r,
            signer,
            sender@,
            nonce.nonce,
            expiry.seconds,
            added(counted(signer.spec_num_keys()), energy.energy),
            (Payload::InitContract { payload })@,
        ),
{
    sign_built(construct::init_contract(signer.num_keys(), sender, nonce, expiry, payload, energy), signer)
}

/// Makes and signs the update of a smart contract instance, which is given
/// `energy` for its execution on top of the base cost of the transaction.
pub fn update_contract<S: ExactSizeTransactionSigner>(
    signer: &S,
    sender: AccountAddress,
    nonce: Nonce,
    expiry: TransactionTime,
    payload: UpdateContractPayload,
    energy: Energy,
) -> (r: Result<AccountTransaction<EncodedPayload>, ConstructionError>)
    ensures
        is_sent(
            r,
            signer,
            sender@,
            nonce.nonce,
            expiry.seconds,
            added(counted(signer.spec_num_keys()), energy.energy),
            (Payload::Update { payload })@,
        ),
{
    sign_built(construct::update_contract(signer.num_keys(), sender, nonce, expiry, payload, energy), signer)
}

/// How much energy a transaction that is made and signed in one step is
/// given.
#[derive(Clone, Copy, Debug)]
pub enum GivenEnergy {
    /// Exactly this amount.
    Absolute(Energy),
    /// This amount on top of the base cost, which covers the size of the
    /// transaction and the checking of the signer's signatures.
    Add(Energy),
}

/// The energy policy with the signer's number of keys filled in.
pub open spec fn with_num_keys(energy: GivenEnergy, num_keys: nat) -> construct::GivenEnergy {
    match energy {
        GivenEnergy::Absolute(e) => construct::GivenEnergy::Absolute(e),
        GivenEnergy::Add(e) => construct::GivenEnergy::Add { energy: e, num_sigs: counted(num_keys) },
    }
}

/// Makes and signs a transaction with the given payload and energy.
pub fn make_and_sign_transaction<S: ExactSizeTransactionSigner>(
    signer: &S,
    sender: AccountAddress,
    nonce: Nonce,
    expiry: TransactionTime,
    energy: GivenEnergy,
    payload: Payload,
) -> (r: Result<AccountTransaction<EncodedPayload>, ConstructionError>)
    ensures
        is_sent(
            r,
            signer,
            sender@,
            nonce.nonce,
            expiry.seconds,
            with_num_keys(energy, signer.spec_num_keys()),
            payload@,
        ),
{
    match energy {
        GivenEnergy::Absolute(energy) => sign_built(
            construct::make_transaction(
                sender,
                nonce,
                expiry,
                construct::GivenEnergy::Absolute(energy),
                payload,
            ),
            signer,
        ),
        GivenEnergy::Add(energy) => sign_built(
            construct::make_transaction(
                sender,
                nonce,
                expiry,
                construct::GivenEnergy::Add { energy, num_sigs: signer.num_keys() },
                payload,
            ),
            signer,
        ),
    }
}

} // verus!
