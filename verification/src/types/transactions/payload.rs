//! The payloads of account transactions: the data of each kind of
//! transaction, what it stands for mathematically, and its byte layout.

use vstd::prelude::*;
use core::marker::PhantomData;
use crate::types::basic::{
    AccountAddress, AccountThreshold, Amount, CredentialRegistrationID, Memo, RegisteredData,
    Timestamp,
};
use crate::types::index_map::IndexMap;
use crate::types::keys::{
    enc_credential_keys, parse_credential_keys, CredentialPublicKeys, CredentialPublicKeysView,
};
use crate::types::smart_contracts::{
    InitName, ModuleRef, Parameter, ReceiveName, WasmModule,
};
use crate::types::basic::ContractAddress;
use crate::wire::{
    and_next, be_u32, be_u64, enc_bool, enc_bytes16, enc_bytes32, enc_many, entry_key, error_at,
    increasing, parse_bool, parse_bytes16, parse_bytes32, parse_fixed, parse_increasing,
    parse_many, parse_u32, parse_u64, parse_u8, views, ParseError, ParseErrorKind, Parsed,
};

verus! {

/// Marks baker keys whose proofs were made for a transaction that adds a
/// baker.
#[derive(Debug, Copy, Clone, PartialEq, Eq)]
pub enum AddBakerKeysMarker {
    AddBaker,
}

/// Marks baker keys whose proofs were made for a transaction that updates a
/// baker's keys.
#[derive(Debug, Copy, Clone, PartialEq, Eq)]
pub enum UpdateBakerKeysMarker {
    UpdateBakerKeys,
}

/// The public keys of a baker with the proofs that the sender knows the
/// secret keys. The proofs are made for one of two kinds of transaction,
/// which the parameter `V` records.
#[derive(Debug, PartialEq, Eq)]
pub struct BakerKeysPayload<V> {
    pub phantom: PhantomData<V>,
    /// Public key for taking part in the election lottery.
    pub election_verify_key: [u8; 32],
    /// Public key for verifying the baker's signatures.
    pub signature_verify_key: [u8; 32],
    /// Public key for verifying the baker's signatures on finalization
    /// records.
    pub aggregation_verify_key: [u8; 96],
    /// Proof of knowledge of the secret signature key.
    pub proof_sig: [u8; 64],
    /// Proof of knowledge of the secret election key.
    pub proof_election: [u8; 64],
    /// Proof of knowledge of the secret aggregation key.
    pub proof_aggregation: [u8; 64],
}

/// Baker keys with proofs made for adding a baker.
pub type BakerAddKeysPayload = BakerKeysPayload<AddBakerKeysMarker>;

/// Baker keys with proofs made for updating a baker's keys.
pub type BakerUpdateKeysPayload = BakerKeysPayload<UpdateBakerKeysMarker>;

/// The mathematical content of [`BakerKeysPayload`].
pub struct BakerKeysView {
    pub election_verify_key: Seq<u8>,
    pub signature_verify_key: Seq<u8>,
    pub aggregation_verify_key: Seq<u8>,
    pub proof_sig: Seq<u8>,
    pub proof_election: Seq<u8>,
    pub proof_aggregation: Seq<u8>,
}

impl BakerKeysView {
    /// Each key and each proof has its fixed width.
    pub open spec fn wf(self) -> bool {
        &&& self.election_verify_key.len() == 32
        &&& self.signature_verify_key.len() == 32
        &&& self.aggregation_verify_key.len() == 96
        &&& self.proof_sig.len() == 64
        &&& self.proof_election.len() == 64
        &&& self.proof_aggregation.len() == 64
    }
}

impl<V> View for BakerKeysPayload<V> {
    type V = BakerKeysView;

    open spec fn view(&self) -> BakerKeysView {
        BakerKeysView {
            election_verify_key: self.election_verify_key@,
            signature_verify_key: self.signature_verify_key@,
            aggregation_verify_key: self.aggregation_verify_key@,
            proof_sig: self.proof_sig@,
            proof_election: self.proof_election@,
            proof_aggregation: self.proof_aggregation@,
        }
    }
}

impl<V> Clone for BakerKeysPayload<V> {
    fn clone(&self) -> (r: Self)
        ensures
            r@ == self@,
    {
        BakerKeysPayload {
            phantom: PhantomData,
            election_verify_key: self.election_verify_key,
            signature_verify_key: self.signature_verify_key,
            aggregation_verify_key: self.aggregation_verify_key,
            proof_sig: self.proof_sig,
            proof_election: self.proof_election,
            proof_aggregation: self.proof_aggregation,
        }
    }
}

/// Payload of the transaction that registers the account as a baker.
#[derive(Debug, Clone, PartialEq, Eq)]
pub struct AddBakerPayload {
    /// The keys with which the baker registers.
    pub keys: BakerAddKeysPayload,
    /// Initial baking stake.
    pub baking_stake: Amount,
    /// Whether earnings are added to the stake automatically.
    pub restake_earnings: bool,
}

/// Data needed to initialize a smart contract.
#[derive(Debug, Clone, PartialEq, Eq)]
pub struct InitContractPayload {
    /// Amount to deposit.
    pub amount: Amount,
    /// Reference to the module from which to initialize the instance.
    pub mod_ref: ModuleRef,
    /// Name of the contract in the module.
    pub init_name: InitName,
    /// Message to invoke the initialization method with.
    pub param: Parameter,
}

/// Data needed to update a smart contract instance.
#[derive(Debug, Clone, PartialEq, Eq)]
pub struct UpdateContractPayload {
    /// Amount to send to the instance together with the message.
    pub amount: Amount,
    /// Address of the contract instance to invoke.
    pub address: ContractAddress,
    /// Name of the method to invoke on the contract.
    pub receive_name: ReceiveName,
    /// Message to send to the contract instance.
    pub message: Parameter,
}

/// The data of an encrypted transfer: the encrypted amounts and the proof
/// that the accounting is right, in serialized form. The payload codec
/// carries these bytes and does not look into them.
#[derive(Debug, Clone, PartialEq, Eq)]
pub struct EncryptedAmountTransferData {
    pub bytes: Vec<u8>,
}

/// The data of a transfer from encrypted to public balance, in serialized
/// form. The payload codec carries these bytes and does not look into them.
#[derive(Debug, Clone, PartialEq, Eq)]
pub struct SecToPubAmountTransferData {
    pub bytes: Vec<u8>,
}

/// A credential with its proofs, as it is deployed to an account, in
/// serialized form. The payload codec carries these bytes and does not look
/// into them.
#[derive(Debug, Clone, PartialEq, Eq)]
pub struct CredentialDeploymentInfo {
    pub bytes: Vec<u8>,
}

impl View for CredentialDeploymentInfo {
    type V = Seq<u8>;

    open spec fn view(&self) -> Seq<u8> {
        self.bytes@
    }
}

/// Payload of an account transaction.
#[derive(Debug, Clone, PartialEq, Eq)]
pub enum Payload {
    /// Deploy a Wasm module with the given source.
    DeployModule { module: WasmModule },
    /// Initialize a new smart contract instance.
    InitContract { payload: InitContractPayload },
    /// Update a smart contract instance by invoking a specific function.
    Update { payload: UpdateContractPayload },
    /// Transfer an amount to an account.
    Transfer {
        /// Address to send to.
        to_address: AccountAddress,
        /// Amount to send.
        amount: Amount,
    },
    /// Register the sender account as a baker.
    AddBaker { payload: Box<AddBakerPayload> },
    /// Deregister the account as a baker.
    RemoveBaker,
    /// Update the baker's stake.
    UpdateBakerStake {
        /// The new stake.
        stake: Amount,
    },
    /// Set whether earnings are added to the baker's stake automatically.
    UpdateBakerRestakeEarnings {
        /// New value of the flag.
        restake_earnings: bool,
    },
    /// Update the baker's keys.
    UpdateBakerKeys { payload: Box<BakerUpdateKeysPayload> },
    /// Update the signing keys of a credential.
    UpdateCredentialKeys {
        /// Id of the credential whose keys are to be updated.
        cred_id: CredentialRegistrationID,
        /// The new public keys.
        keys: CredentialPublicKeys,
    },
    /// Transfer an encrypted amount.
    EncryptedAmountTransfer {
        /// The recipient's address.
        to: AccountAddress,
        /// The encrypted amount to transfer and the proof of correct
        /// accounting.
        data: Box<EncryptedAmountTransferData>,
    },
    /// Transfer from the public to the encrypted balance of the sender.
    TransferToEncrypted {
        /// The amount to transfer.
        amount: Amount,
    },
    /// Transfer from the encrypted to the public balance of the sender.
    TransferToPublic {
        /// The amount to transfer and the proof of correct accounting.
        data: Box<SecToPubAmountTransferData>,
    },
    /// Transfer an amount that is released by a schedule.
    TransferWithSchedule {
        /// The recipient.
        to: AccountAddress,
        /// The release schedule: at most 255 releases.
        schedule: Vec<(Timestamp, Amount)>,
    },
    /// Update the account's credentials.
    UpdateCredentials {
        /// New credentials to add, by index: at most 255.
        new_cred_infos: IndexMap<CredentialDeploymentInfo>,
        /// Ids of the credentials to remove: at most 255.
        remove_cred_ids: Vec<CredentialRegistrationID>,
        /// The new account threshold.
        new_threshold: AccountThreshold,
    },
    /// Register the given data on the chain.
    RegisterData {
        /// The data to register.
        data: RegisteredData,
    },
    /// Transfer an amount to an account, with a memo.
    TransferWithMemo {
        /// Address to send to.
        to_address: AccountAddress,
        /// Memo to include in the transfer.
        memo: Memo,
        /// Amount to send.
        amount: Amount,
    },
    /// Transfer an encrypted amount, with a memo.
    EncryptedAmountTransferWithMemo {
        /// The recipient's address.
        to: AccountAddress,
        /// Memo to include in the transfer.
        memo: Memo,
        /// The encrypted amount to transfer and the proof of correct
        /// accounting.
        data: Box<EncryptedAmountTransferData>,
    },
    /// Transfer an amount that is released by a schedule, with a memo.
    TransferWithScheduleAndMemo {
        /// The recipient.
        to: AccountAddress,
        /// Memo to include in the transfer.
        memo: Memo,
        /// The release schedule: at most 255 releases.
        schedule: Vec<(Timestamp, Amount)>,
    },
}

/// The mathematical content of [`Payload`]: byte strings are sequences of
/// bytes, amounts and times are integers.
pub enum PayloadView {
    DeployModule { version: u32, source: Seq<u8> },
    InitContract { amount: u64, mod_ref: Seq<u8>, init_name: Seq<u8>, param: Seq<u8> },
    Update { amount: u64, index: u64, subindex: u64, receive_name: Seq<u8>, message: Seq<u8> },
    Transfer { to_address: Seq<u8>, amount: u64 },
    AddBaker { keys: BakerKeysView, baking_stake: u64, restake_earnings: bool },
    RemoveBaker,
    UpdateBakerStake { stake: u64 },
    UpdateBakerRestakeEarnings { restake_earnings: bool },
    UpdateBakerKeys { keys: BakerKeysView },
    UpdateCredentialKeys { cred_id: Seq<u8>, keys: CredentialPublicKeysView },
    EncryptedAmountTransfer { to: Seq<u8>, data: Seq<u8> },
    TransferToEncrypted { amount: u64 },
    TransferToPublic { data: Seq<u8> },
    TransferWithSchedule { to: Seq<u8>, schedule: Seq<(u64, u64)> },
    UpdateCredentials {
        new_cred_infos: Seq<(u8, Seq<u8>)>,
        remove_cred_ids: Seq<Seq<u8>>,
        new_threshold: u8,
    },
    RegisterData { data: Seq<u8> },
    TransferWithMemo { to_address: Seq<u8>, memo: Seq<u8>, amount: u64 },
    EncryptedAmountTransferWithMemo { to: Seq<u8>, memo: Seq<u8>, data: Seq<u8> },
    TransferWithScheduleAndMemo { to: Seq<u8>, memo: Seq<u8>, schedule: Seq<(u64, u64)> },
}

/// The releases of a schedule as pairs of integers: the time in
/// milliseconds and the amount.
pub open spec fn schedule_view(schedule: Seq<(Timestamp, Amount)>) -> Seq<(u64, u64)> {
    schedule.map_values(|r: (Timestamp, Amount)| (r.0.millis, r.1.micro_ccd))
}

impl View for Payload {
    type V = PayloadView;

    open spec fn view(&self) -> PayloadView {
        match self {
            Payload::DeployModule { module } => PayloadView::DeployModule {
                version: module.version,
                source: module.source@,
            },
            Payload::InitContract { payload } => PayloadView::InitContract {
                amount: payload.amount.micro_ccd,
                mod_ref: payload.mod_ref@,
                init_name: payload.init_name@,
                param: payload.param@,
            },
            Payload::Update { payload } => PayloadView::Update {
                amount: payload.amount.micro_ccd,
                index: payload.address.index,
                subindex: payload.address.subindex,
                receive_name: payload.receive_name@,
                message: payload.message@,
            },
            Payload::Transfer { to_address, amount } => PayloadView::Transfer {
                to_address: to_address@,
                amount: amount.micro_ccd,
            },
            Payload::AddBaker { payload } => PayloadView::AddBaker {
                keys: payload.keys@,
                baking_stake: payload.baking_stake.micro_ccd,
                restake_earnings: payload.restake_earnings,
            },
            Payload::RemoveBaker => PayloadView::RemoveBaker,
            Payload::UpdateBakerStake { stake } => PayloadView::UpdateBakerStake {
                stake: stake.micro_ccd,
            },
            Payload::UpdateBakerRestakeEarnings {
                restake_earnings,
            } => PayloadView::UpdateBakerRestakeEarnings { restake_earnings: *restake_earnings },
            Payload::UpdateBakerKeys { payload } => PayloadView::UpdateBakerKeys {
                keys: (**payload)@,
            },
            Payload::UpdateCredentialKeys { cred_id, keys } => PayloadView::UpdateCredentialKeys {
                cred_id: cred_id@,
                keys: keys@,
            },
            Payload::EncryptedAmountTransfer { to, data } => PayloadView::EncryptedAmountTransfer {
                to: to@,
                data: data.bytes@,
            },
            Payload::TransferToEncrypted { amount } => PayloadView::TransferToEncrypted {
                amount: amount.micro_ccd,
            },
            Payload::TransferToPublic { data } => PayloadView::TransferToPublic {
                data: data.bytes@,
            },
            Payload::TransferWithSchedule { to, schedule } => PayloadView::TransferWithSchedule {
                to: to@,
                schedule: schedule_view(schedule@),
            },
            Payload::UpdateCredentials {
                new_cred_infos,
                remove_cred_ids,
                new_threshold,
            } => PayloadView::UpdateCredentials {
                new_cred_infos: new_cred_infos@,
                remove_cred_ids: views(remove_cred_ids@),
                new_threshold: new_threshold.threshold,
            },
            Payload::RegisterData { data } => PayloadView::RegisterData { data: data@ },
            Payload::TransferWithMemo { to_address, memo, amount } => PayloadView::TransferWithMemo {
                to_address: to_address@,
                memo: memo@,
                amount: amount.micro_ccd,
            },
            Payload::EncryptedAmountTransferWithMemo {
                to,
                memo,
                data,
            } => PayloadView::EncryptedAmountTransferWithMemo {
                to: to@,
                memo: memo@,
                data: data.bytes@,
            },
            Payload::TransferWithScheduleAndMemo {
                to,
                memo,
                schedule,
            } => PayloadView::TransferWithScheduleAndMemo {
                to: to@,
                memo: memo@,
                schedule: schedule_view(schedule@),
            },
        }
    }
}

// ---------------------------------------------------------------------------
// The byte layout
// ---------------------------------------------------------------------------

/// The encoding of baker keys: the three keys, then the three proofs.
pub open spec fn enc_baker_keys(k: BakerKeysView) -> Seq<u8> {
    k.election_verify_key + k.signature_verify_key + k.aggregation_verify_key + k.proof_sig
        + k.proof_election + k.proof_aggregation
}

/// The encoding of a release: the time, then the amount.
pub open spec fn enc_release(r: (u64, u64)) -> Seq<u8> {
    be_u64(r.0) + be_u64(r.1)
}

/// [`enc_release`] as a value.
pub open spec fn release_encoder() -> spec_fn((u64, u64)) -> Seq<u8> {
    |r: (u64, u64)| enc_release(r)
}

/// The encoding of a schedule: the number of releases in one byte, then the
/// releases.
pub open spec fn enc_schedule(schedule: Seq<(u64, u64)>) -> Seq<u8> {
    seq![schedule.len() as u8] + enc_many(schedule, release_encoder())
}

/// The encoding of a credential to add: its index, then its bytes.
pub open spec fn enc_new_credential(e: (u8, Seq<u8>)) -> Seq<u8> {
    seq![e.0] + e.1
}

/// [`enc_new_credential`] as a value.
pub open spec fn new_credential_encoder() -> spec_fn((u8, Seq<u8>)) -> Seq<u8> {
    |e: (u8, Seq<u8>)| enc_new_credential(e)
}

/// The encoding of the id of a credential to remove: its bytes.
pub open spec fn credential_id_encoder() -> spec_fn(Seq<u8>) -> Seq<u8> {
    |id: Seq<u8>| id
}

/// The encoding of the credentials to add: their number in one byte, then
/// the credentials.
pub open spec fn enc_new_credentials(creds: Seq<(u8, Seq<u8>)>) -> Seq<u8> {
    seq![creds.len() as u8] + enc_many(creds, new_credential_encoder())
}

/// The encoding of the ids of the credentials to remove: their number in one
/// byte, then the ids.
pub open spec fn enc_credential_ids(ids: Seq<Seq<u8>>) -> Seq<u8> {
    seq![ids.len() as u8] + enc_many(ids, credential_id_encoder())
}

/// The discriminant of each kind of payload.
pub open spec fn payload_tag(p: PayloadView) -> u8 {
    match p {
        PayloadView::DeployModule { .. } => 0,
        PayloadView::InitContract { .. } => 1,
        PayloadView::Update { .. } => 2,
        PayloadView::Transfer { .. } => 3,
        PayloadView::AddBaker { .. } => 4,
        PayloadView::RemoveBaker => 5,
        PayloadView::UpdateBakerStake { .. } => 6,
        PayloadView::UpdateBakerRestakeEarnings { .. } => 7,
        PayloadView::UpdateBakerKeys { .. } => 8,
        PayloadView::UpdateCredentialKeys { .. } => 13,
        PayloadView::EncryptedAmountTransfer { .. } => 16,
        PayloadView::TransferToEncrypted { .. } => 17,
        PayloadView::TransferToPublic { .. } => 18,
        PayloadView::TransferWithSchedule { .. } => 19,
        PayloadView::UpdateCredentials { .. } => 20,
        PayloadView::RegisterData { .. } => 21,
        PayloadView::TransferWithMemo { .. } => 22,
        PayloadView::EncryptedAmountTransferWithMemo { .. } => 23,
        PayloadView::TransferWithScheduleAndMemo { .. } => 24,
    }
}

/// Whether a byte is the discriminant of a kind of payload.
pub open spec fn is_payload_tag(tag: u8) -> bool {
    tag <= 8 || tag == 13 || 16 <= tag <= 24
}

/// The fields of a payload in their declared order, each in its encoding:
/// integers big-endian at their fixed width, addresses, keys and proofs as
/// their bytes, memos, names, parameters and registered data behind a 16-bit
/// length, a module source behind a 32-bit length, collections behind their
/// count in one byte.
pub open spec fn enc_payload_body(p: PayloadView) -> Seq<u8> {
    match p {
        PayloadView::DeployModule { version, source } => be_u32(version) + enc_bytes32(source),
        PayloadView::InitContract { amount, mod_ref, init_name, param } => be_u64(amount)
            + mod_ref + enc_bytes16(init_name) + enc_bytes16(param),
        PayloadView::Update { amount, index, subindex, receive_name, message } => be_u64(amount)
            + be_u64(index) + be_u64(subindex) + enc_bytes16(receive_name) + enc_bytes16(message),
        PayloadView::Transfer { to_address, amount } => to_address + be_u64(amount),
        PayloadView::AddBaker { keys, baking_stake, restake_earnings } => enc_baker_keys(keys)
            + be_u64(baking_stake) + enc_bool(restake_earnings),
        PayloadView::RemoveBaker => Seq::empty(),
        PayloadView::UpdateBakerStake { stake } => be_u64(stake),
        PayloadView::UpdateBakerRestakeEarnings { restake_earnings } => enc_bool(restake_earnings),
        PayloadView::UpdateBakerKeys { keys } => enc_baker_keys(keys),
        PayloadView::UpdateCredentialKeys { cred_id, keys } => cred_id + enc_credential_keys(keys),
        PayloadView::EncryptedAmountTransfer { to, data } => to + data,
        PayloadView::TransferToEncrypted { amount } => be_u64(amount),
        PayloadView::TransferToPublic { data } => data,
        PayloadView::TransferWithSchedule { to, schedule } => to + enc_schedule(schedule),
        PayloadView::UpdateCredentials {
            new_cred_infos,
            remove_cred_ids,
            new_threshold,
        } => enc_new_credentials(new_cred_infos) + enc_credential_ids(remove_cred_ids)
            + seq![new_threshold],
        PayloadView::RegisterData { data } => enc_bytes16(data),
        PayloadView::TransferWithMemo { to_address, memo, amount } => to_address + enc_bytes16(
            memo,
        ) + be_u64(amount),
        PayloadView::EncryptedAmountTransferWithMemo { to, memo, data } => to + enc_bytes16(memo)
            + data,
        PayloadView::TransferWithScheduleAndMemo { to, memo, schedule } => to + enc_bytes16(memo)
            + enc_schedule(schedule),
    }
}

/// The encoding of a payload: its discriminant, then its fields.
pub open spec fn enc_payload(p: PayloadView) -> Seq<u8> {
    seq![payload_tag(p)] + enc_payload_body(p)
}

// ---------------------------------------------------------------------------
// Parsing, as functions on sequences
// ---------------------------------------------------------------------------

/// Baker keys at offset `at`.
pub open spec fn parse_baker_keys(s: Seq<u8>, at: int) -> Parsed<BakerKeysView> {
    and_next(
        parse_fixed(s, at, 32),
        |election_verify_key: Seq<u8>, a1: int|
            and_next(
                parse_fixed(s, a1, 32),
                |signature_verify_key: Seq<u8>, a2: int|
                    and_next(
                        parse_fixed(s, a2, 96),
                        |aggregation_verify_key: Seq<u8>, a3: int|
                            and_next(
                                parse_fixed(s, a3, 64),
                                |proof_sig: Seq<u8>, a4: int|
                                    and_next(
                                        parse_fixed(s, a4, 64),
                                        |proof_election: Seq<u8>, a5: int|
                                            and_next(
                                                parse_fixed(s, a5, 64),
                                                |proof_aggregation: Seq<u8>, a6: int|
                                                    Ok::<_, ParseError>(
                                                        (
                                                            BakerKeysView {
                                                                election_verify_key,
                                                                signature_verify_key,
                                                                aggregation_verify_key,
                                                                proof_sig,
                                                                proof_election,
                                                                proof_aggregation,
                                                            },
                                                            a6,
                                                        ),
                                                    ),
                                            ),
                                    ),
                            ),
                    ),
            ),
    )
}

/// A release at offset `at`.
pub open spec fn parse_release(s: Seq<u8>, at: int) -> Parsed<(u64, u64)> {
    and_next(
        parse_u64(s, at),
        |time: u64, a1: int|
            and_next(
                parse_u64(s, a1),
                |amount: u64, a2: int| Ok::<_, ParseError>(((time, amount), a2)),
            ),
    )
}

/// [`parse_release`] as a value.
pub open spec fn release_parser() -> spec_fn(Seq<u8>, int, int) -> Parsed<(u64, u64)> {
    |s: Seq<u8>, at: int, i: int| parse_release(s, at)
}

/// A schedule at offset `at`.
pub open spec fn parse_schedule(s: Seq<u8>, at: int) -> Parsed<Seq<(u64, u64)>> {
    and_next(
        parse_u8(s, at),
        |n: u8, a1: int| parse_many(s, a1, n as nat, release_parser()),
    )
}

/// A credential to add at offset `at`, whose bytes are as many as `size`
/// says.
pub open spec fn parse_new_credential(s: Seq<u8>, at: int, size: int) -> Parsed<(u8, Seq<u8>)> {
    and_next(
        parse_u8(s, at),
        |index: u8, a1: int|
            and_next(
                parse_fixed(s, a1, size),
                |bytes: Seq<u8>, a2: int| Ok::<_, ParseError>(((index, bytes), a2)),
            ),
    )
}

/// The parser of the credential at each position, given the sizes of all.
pub open spec fn new_credential_parser(sizes: Seq<usize>) -> spec_fn(Seq<u8>, int, int) -> Parsed<
    (u8, Seq<u8>),
> {
    |s: Seq<u8>, at: int, i: int| parse_new_credential(s, at, sizes[i] as int)
}

/// The credentials to add at offset `at`. The codec does not look into a
/// credential, so the caller says how many bytes each one has: `sizes` must
/// hold one size for each credential that the payload announces.
pub open spec fn parse_new_credentials(s: Seq<u8>, at: int, sizes: Seq<usize>) -> Parsed<
    Seq<(u8, Seq<u8>)>,
> {
    and_next(
        parse_u8(s, at),
        |n: u8, a1: int|
            if sizes.len() != n {
                error_at(ParseErrorKind::CarriedSizes { needed: n }, at)
            } else {
                parse_increasing(s, a1, n as nat, new_credential_parser(sizes), entry_key())
            },
    )
}

/// The parser of the id of a credential.
pub open spec fn credential_id_parser() -> spec_fn(Seq<u8>, int, int) -> Parsed<Seq<u8>> {
    |s: Seq<u8>, at: int, i: int| parse_fixed(s, at, 48)
}

/// The ids of the credentials to remove at offset `at`.
pub open spec fn parse_credential_ids(s: Seq<u8>, at: int) -> Parsed<Seq<Seq<u8>>> {
    and_next(
        parse_u8(s, at),
        |n: u8, a1: int| parse_many(s, a1, n as nat, credential_id_parser()),
    )
}

/// A threshold at offset `at`: one byte that is not 0.
pub open spec fn parse_threshold(s: Seq<u8>, at: int) -> Parsed<u8> {
    and_next(
        parse_u8(s, at),
        |threshold: u8, a1: int|
            if threshold == 0 {
                error_at(ParseErrorKind::ZeroThreshold, at)
            } else {
                Ok::<_, ParseError>((threshold, a1))
            },
    )
}

/// The fields of a module deployment at offset `at`.
pub open spec fn parse_deploy_module(s: Seq<u8>, at: int) -> Parsed<PayloadView> {
    and_next(
        parse_u32(s, at),
        |version: u32, a1: int|
            and_next(
                parse_bytes32(s, a1, 65536),
                |source: Seq<u8>, a2: int|
                    Ok::<_, ParseError>((PayloadView::DeployModule { version, source }, a2)),
            ),
    )
}

/// The fields of a contract initialization at offset `at`.
pub open spec fn parse_init_contract(s: Seq<u8>, at: int) -> Parsed<PayloadView> {
    and_next(
        parse_u64(s, at),
        |amount: u64, a1: int|
            and_next(
                parse_fixed(s, a1, 32),
                |mod_ref: Seq<u8>, a2: int|
                    and_next(
                        parse_bytes16(s, a2, 65535),
                        |init_name: Seq<u8>, a3: int|
                            and_next(
                                parse_bytes16(s, a3, 1024),
                                |param: Seq<u8>, a4: int|
                                    Ok::<_, ParseError>(
                                        (
                                            PayloadView::InitContract {
                                                amount,
                                                mod_ref,
                                                init_name,
                                                param,
                                            },
                                            a4,
                                        ),
                                    ),
                            ),
                    ),
            ),
    )
}

/// The fields of a contract update at offset `at`.
pub open spec fn parse_update_contract(s: Seq<u8>, at: int) -> Parsed<PayloadView> {
    and_next(
        parse_u64(s, at),
        |amount: u64, a1: int|
            and_next(
                parse_u64(s, a1),
                |index: u64, a2: int|
                    and_next(
                        parse_u64(s, a2),
                        |subindex: u64, a3: int|
                            and_next(
                                parse_bytes16(s, a3, 65535),
                                |receive_name: Seq<u8>, a4: int|
                                    and_next(
                                        parse_bytes16(s, a4, 1024),
                                        |message: Seq<u8>, a5: int|
                                            Ok::<_, ParseError>(
                                                (
                                                    PayloadView::Update {
                                                        amount,
                                                        index,
                                                        subindex,
                                                        receive_name,
                                                        message,
                                                    },
                                                    a5,
                                                ),
                                            ),
                                    ),
                            ),
                    ),
            ),
    )
}

/// The fields of a transfer at offset `at`.
pub open spec fn parse_transfer(s: Seq<u8>, at: int) -> Parsed<PayloadView> {
    and_next(
        parse_fixed(s, at, 32),
        |to_address: Seq<u8>, a1: int|
            and_next(
                parse_u64(s, a1),
                |amount: u64, a2: int|
                    Ok::<_, ParseError>((PayloadView::Transfer { to_address, amount }, a2)),
            ),
    )
}

/// The fields of a baker registration at offset `at`.
pub open spec fn parse_add_baker(s: Seq<u8>, at: int) -> Parsed<PayloadView> {
    and_next(
        parse_baker_keys(s, at),
        |keys: BakerKeysView, a1: int|
            and_next(
                parse_u64(s, a1),
                |baking_stake: u64, a2: int|
                    and_next(
                        parse_bool(s, a2),
                        |restake_earnings: bool, a3: int|
                            Ok::<_, ParseError>(
                                (
                                    PayloadView::AddBaker { keys, baking_stake, restake_earnings },
                                    a3,
                                ),
                            ),
                    ),
            ),
    )
}

/// The fields of an update of a credential's keys at offset `at`.
pub open spec fn parse_update_credential_keys(s: Seq<u8>, at: int) -> Parsed<PayloadView> {
    and_next(
        parse_fixed(s, at, 48),
        |cred_id: Seq<u8>, a1: int|
            and_next(
                parse_credential_keys(s, a1),
                |keys: CredentialPublicKeysView, a2: int|
                    Ok::<_, ParseError>((PayloadView::UpdateCredentialKeys { cred_id, keys }, a2)),
            ),
    )
}

/// A part that is carried as it is, at offset `at`: as many bytes as the one
/// size says that the parser was handed. The codec does not look into such a
/// part, so it cannot tell where it ends: whoever made the part can.
pub open spec fn parse_carried(s: Seq<u8>, at: int, sizes: Seq<usize>) -> Parsed<Seq<u8>> {
    if sizes.len() != 1 {
        error_at(ParseErrorKind::CarriedSizes { needed: 1 }, at)
    } else {
        parse_fixed(s, at, sizes[0] as int)
    }
}

/// The fields of an encrypted transfer at offset `at`: the recipient, then
/// the data in as many bytes as `sizes` says.
pub open spec fn parse_encrypted_transfer(s: Seq<u8>, at: int, sizes: Seq<usize>) -> Parsed<
    PayloadView,
> {
    and_next(
        parse_fixed(s, at, 32),
        |to: Seq<u8>, a1: int|
            and_next(
                parse_carried(s, a1, sizes),
                |data: Seq<u8>, a2: int|
                    Ok::<_, ParseError>((PayloadView::EncryptedAmountTransfer { to, data }, a2)),
            ),
    )
}

/// The fields of a transfer to the public balance at offset `at`: the data
/// in as many bytes as `sizes` says.
pub open spec fn parse_transfer_to_public(s: Seq<u8>, at: int, sizes: Seq<usize>) -> Parsed<
    PayloadView,
> {
    and_next(
        parse_carried(s, at, sizes),
        |data: Seq<u8>, a1: int|
            Ok::<_, ParseError>((PayloadView::TransferToPublic { data }, a1)),
    )
}

/// The fields of a scheduled transfer at offset `at`.
pub open spec fn parse_transfer_with_schedule(s: Seq<u8>, at: int) -> Parsed<PayloadView> {
    and_next(
        parse_fixed(s, at, 32),
        |to: Seq<u8>, a1: int|
            and_next(
                parse_schedule(s, a1),
                |schedule: Seq<(u64, u64)>, a2: int|
                    Ok::<_, ParseError>((PayloadView::TransferWithSchedule { to, schedule }, a2)),
            ),
    )
}

/// The fields of an update of the account's credentials at offset `at`.
pub open spec fn parse_update_credentials(s: Seq<u8>, at: int, sizes: Seq<usize>) -> Parsed<
    PayloadView,
> {
    and_next(
        parse_new_credentials(s, at, sizes),
        |new_cred_infos: Seq<(u8, Seq<u8>)>, a1: int|
            and_next(
                parse_credential_ids(s, a1),
                |remove_cred_ids: Seq<Seq<u8>>, a2: int|
                    and_next(
                        parse_threshold(s, a2),
                        |new_threshold: u8, a3: int|
                            Ok::<_, ParseError>(
                                (
                                    PayloadView::UpdateCredentials {
                                        new_cred_infos,
                                        remove_cred_ids,
                                        new_threshold,
                                    },
                                    a3,
                                ),
                            ),
                    ),
            ),
    )
}

/// The fields of a transfer with a memo at offset `at`.
pub open spec fn parse_transfer_with_memo(s: Seq<u8>, at: int) -> Parsed<PayloadView> {
    and_next(
        parse_fixed(s, at, 32),
        |to_address: Seq<u8>, a1: int|
            and_next(
                parse_bytes16(s, a1, 256),
                |memo: Seq<u8>, a2: int|
                    and_next(
                        parse_u64(s, a2),
                        |amount: u64, a3: int|
                            Ok::<_, ParseError>(
                                (PayloadView::TransferWithMemo { to_address, memo, amount }, a3),
                            ),
                    ),
            ),
    )
}

/// The fields of an encrypted transfer with a memo at offset `at`: the
/// recipient, the memo, then the data in as many bytes as `sizes` says.
pub open spec fn parse_encrypted_transfer_with_memo(s: Seq<u8>, at: int, sizes: Seq<usize>)
    -> Parsed<PayloadView> {
    and_next(
        parse_fixed(s, at, 32),
        |to: Seq<u8>, a1: int|
            and_next(
                parse_bytes16(s, a1, 256),
                |memo: Seq<u8>, a2: int|
                    and_next(
                        parse_carried(s, a2, sizes),
                        |data: Seq<u8>, a3: int|
                            Ok::<_, ParseError>(
                                (
                                    PayloadView::EncryptedAmountTransferWithMemo { to, memo, data },
                                    a3,
                                ),
                            ),
                    ),
            ),
    )
}

/// The fields of a scheduled transfer with a memo at offset `at`.
pub open spec fn parse_transfer_with_schedule_and_memo(s: Seq<u8>, at: int) -> Parsed<
    PayloadView,
> {
    and_next(
        parse_fixed(s, at, 32),
        |to: Seq<u8>, a1: int|
            and_next(
                parse_bytes16(s, a1, 256),
                |memo: Seq<u8>, a2: int|
                    and_next(
                        parse_schedule(s, a2),
                        |schedule: Seq<(u64, u64)>, a3: int|
                            Ok::<_, ParseError>(
                                (
                                    PayloadView::TransferWithScheduleAndMemo { to, memo, schedule },
                                    a3,
                                ),
                            ),
                    ),
            ),
    )
}

/// The fields of the payload with discriminant `tag` at offset `at`. An
/// unknown discriminant is an error at the offset of the discriminant, which
/// is the byte before `at`. Encrypted amounts with their proofs, and
/// credentials, are carried as bytes that the codec does not look into;
/// `sizes` says how many bytes each of them has.
pub open spec fn parse_payload_body(s: Seq<u8>, tag: u8, at: int, sizes: Seq<usize>) -> Parsed<
    PayloadView,
> {
    if tag == 0 {
        parse_deploy_module(s, at)
    } else if tag == 1 {
        parse_init_contract(s, at)
    } else if tag == 2 {
        parse_update_contract(s, at)
    } else if tag == 3 {
        parse_transfer(s, at)
    } else if tag == 4 {
        parse_add_baker(s, at)
    } else if tag == 5 {
        Ok((PayloadView::RemoveBaker, at))
    } else if tag == 6 {
        and_next(
            parse_u64(s, at),
            |stake: u64, a1: int|
                Ok::<_, ParseError>((PayloadView::UpdateBakerStake { stake }, a1)),
        )
    } else if tag == 7 {
        and_next(
            parse_bool(s, at),
            |restake_earnings: bool, a1: int|
                Ok::<_, ParseError>(
                    (PayloadView::UpdateBakerRestakeEarnings { restake_earnings }, a1),
                ),
        )
    } else if tag == 8 {
        and_next(
            parse_baker_keys(s, at),
            |keys: BakerKeysView, a1: int|
                Ok::<_, ParseError>((PayloadView::UpdateBakerKeys { keys }, a1)),
        )
    } else if tag == 13 {
        parse_update_credential_keys(s, at)
    } else if tag == 16 {
        parse_encrypted_transfer(s, at, sizes)
    } else if tag == 17 {
        and_next(
            parse_u64(s, at),
            |amount: u64, a1: int|
                Ok::<_, ParseError>((PayloadView::TransferToEncrypted { amount }, a1)),
        )
    } else if tag == 18 {
        parse_transfer_to_public(s, at, sizes)
    } else if tag == 19 {
        parse_transfer_with_schedule(s, at)
    } else if tag == 20 {
        parse_update_credentials(s, at, sizes)
    } else if tag == 21 {
        and_next(
            parse_bytes16(s, at, 256),
            |data: Seq<u8>, a1: int| Ok::<_, ParseError>((PayloadView::RegisterData { data }, a1)),
        )
    } else if tag == 22 {
        parse_transfer_with_memo(s, at)
    } else if tag == 23 {
        parse_encrypted_transfer_with_memo(s, at, sizes)
    } else if tag == 24 {
        parse_transfer_with_schedule_and_memo(s, at)
    } else {
        error_at(ParseErrorKind::UnsupportedPayloadTag { tag }, at - 1)
    }
}

/// A payload at the start of the input: the discriminant, then the fields
/// that it announces. `sizes` holds the sizes of the parts that are carried
/// as they are, in their order: one for the data of an encrypted transfer
/// or of a transfer to the public balance, one for each credential that an
/// update of credentials adds. It is not looked at for any other payload.
/// What follows the payload in the input is not looked at either.
pub open spec fn parse_payload(s: Seq<u8>, sizes: Seq<usize>) -> Parsed<PayloadView> {
    and_next(parse_u8(s, 0), |tag: u8, a1: int| parse_payload_body(s, tag, a1, sizes))
}

// ---------------------------------------------------------------------------
// Validity
// ---------------------------------------------------------------------------

impl PayloadView {
    /// The payload is within the limits of the protocol: addresses, hashes,
    /// keys and proofs have their fixed widths; a module source has at most
    /// 65536 bytes, a parameter at most 1024, a memo and registered data at
    /// most 256, a name at most 65535; a schedule and the lists of
    /// credentials have at most 255 entries; the credentials to add are
    /// listed by strictly increasing index; the size of each part that is
    /// carried as it is fits a machine word; thresholds are at least 1.
    pub open spec fn wf(self) -> bool {
        match self {
            PayloadView::DeployModule { version, source } => source.len() <= 65536,
            PayloadView::InitContract { amount, mod_ref, init_name, param } => {
                &&& mod_ref.len() == 32
                &&& init_name.len() <= 65535
                &&& param.len() <= 1024
            },
            PayloadView::Update { amount, index, subindex, receive_name, message } => {
                &&& receive_name.len() <= 65535
                &&& message.len() <= 1024
            },
            PayloadView::Transfer { to_address, amount } => to_address.len() == 32,
            PayloadView::AddBaker { keys, baking_stake, restake_earnings } => keys.wf(),
            PayloadView::RemoveBaker => true,
            PayloadView::UpdateBakerStake { stake } => true,
            PayloadView::UpdateBakerRestakeEarnings { restake_earnings } => true,
            PayloadView::UpdateBakerKeys { keys } => keys.wf(),
            PayloadView::UpdateCredentialKeys { cred_id, keys } => {
                &&& cred_id.len() == 48
                &&& keys.wf()
            },
            PayloadView::EncryptedAmountTransfer { to, data } => {
                &&& to.len() == 32
                &&& data.len() <= usize::MAX
            },
            PayloadView::TransferToEncrypted { amount } => true,
            PayloadView::TransferToPublic { data } => data.len() <= usize::MAX,
            PayloadView::TransferWithSchedule { to, schedule } => {
                &&& to.len() == 32
                &&& schedule.len() <= 255
            },
            PayloadView::UpdateCredentials { new_cred_infos, remove_cred_ids, new_threshold } => {
                &&& new_cred_infos.len() <= 255
                &&& increasing(new_cred_infos, entry_key())
                &&& forall|i: int|
                    0 <= i < new_cred_infos.len() ==> (#[trigger] new_cred_infos[i]).1.len()
                        <= usize::MAX
                &&& remove_cred_ids.len() <= 255
                &&& forall|i: int|
                    0 <= i < remove_cred_ids.len() ==> (#[trigger] remove_cred_ids[i]).len() == 48
                &&& new_threshold >= 1
            },
            PayloadView::RegisterData { data } => data.len() <= 256,
            PayloadView::TransferWithMemo { to_address, memo, amount } => {
                &&& to_address.len() == 32
                &&& memo.len() <= 256
            },
            PayloadView::EncryptedAmountTransferWithMemo { to, memo, data } => {
                &&& to.len() == 32
                &&& memo.len() <= 256
                &&& data.len() <= usize::MAX
            },
            PayloadView::TransferWithScheduleAndMemo { to, memo, schedule } => {
                &&& to.len() == 32
                &&& memo.len() <= 256
                &&& schedule.len() <= 255
            },
        }
    }

    /// The sizes of the parts of the payload that are carried as they are,
    /// in their order: that of the data of an encrypted transfer or of a
    /// transfer to the public balance, those of the credentials that an
    /// update of credentials adds; none for every other payload.
    pub open spec fn carried_sizes(self) -> Seq<usize> {
        match self {
            PayloadView::EncryptedAmountTransfer { to, data } => seq![data.len() as usize],
            PayloadView::TransferToPublic { data } => seq![data.len() as usize],
            PayloadView::EncryptedAmountTransferWithMemo { to, memo, data } => seq![
                data.len() as usize,
            ],
            PayloadView::UpdateCredentials {
                new_cred_infos,
                remove_cred_ids,
                new_threshold,
            } => new_cred_infos.map_values(|e: (u8, Seq<u8>)| e.1.len() as usize),
            _ => Seq::empty(),
        }
    }
}

} // verus!
