//! Making transactions that are ready to be signed. The energy of a
//! transaction depends on its size in bytes, which is known only when the
//! payload has been encoded: so a transaction is built in two steps, and
//! only the finished one, whose hash covers the final header, leaves this
//! module.

use vstd::prelude::*;
use vstd::pervasive::unreached;
use crate::constants::MAX_PAYLOAD_SIZE;
use crate::crypto::spec_sha256;
use crate::types::basic::{
    AccountAddress, Amount, Energy, Memo, Nonce, RegisteredData, Timestamp, TransactionSignHash,
    TransactionTime,
};
use crate::types::smart_contracts::{
    ModuleSource, WasmModule,
};
use crate::types::transactions::account::AccountTransaction;
use crate::types::transactions::cost;
use crate::types::transactions::cost::spec_base_cost;
use crate::types::transactions::header::{
    compute_transaction_sign_hash, decode_payload, enc_header, get_encoded_payload, parse_header,
    sign_hash_input, EncodedPayload, PayloadLike, PayloadSize, TransactionHeader,
    TransactionHeaderView,
};
use crate::types::transactions::laws::payload_round_trip;
use crate::types::transactions::payload::{
    enc_baker_keys, enc_payload, schedule_view, AddBakerPayload, BakerAddKeysPayload,
    BakerUpdateKeysPayload, EncryptedAmountTransferData, InitContractPayload, Payload, PayloadView,
    SecToPubAmountTransferData, UpdateContractPayload,
};
use crate::types::transactions::signing::{
    sign_transaction, TransactionSigner,
};
use crate::wire::{
    and_next, lemma_be_lengths, parse_fixed, ParseError, ParseResult, Parsed,
};

verus! {

/// Why a transaction could not be built.
#[derive(Clone, Copy, Debug, PartialEq, Eq, Structural)]
pub enum ConstructionError {
    /// The payload is not within the limits of the protocol: a collection
    /// or a byte string is too long, indices are not strictly increasing,
    /// or a threshold is 0.
    InvalidPayload,
    /// The encoded payload is larger than a transaction may carry.
    PayloadTooLarge { size: usize },
    /// The energy of the transaction does not fit in 64 bits.
    EnergyOverflow,
}

/// A transaction that is ready to be signed.
#[derive(Debug, Clone, PartialEq, Eq)]
pub struct PreAccountTransaction {
    pub header: TransactionHeader,
    /// The payload.
    pub payload: Payload,
    /// The payload in encoded form, which was made to compute the cost.
    pub encoded: EncodedPayload,
    /// Hash of the transaction to sign.
    pub hash_to_sign: TransactionSignHash,
}

/// How much energy a transaction is given.
#[derive(Clone, Copy, Debug, PartialEq, Eq)]
pub enum GivenEnergy {
    /// Exactly this amount.
    Absolute(Energy),
    /// This amount on top of the base cost, which covers the size of the
    /// transaction and the checking of `num_sigs` signatures.
    Add { energy: Energy, num_sigs: u32 },
}

/// The energy of a transaction of `size` bytes.
pub open spec fn given_energy(energy: GivenEnergy, size: nat) -> nat {
    match energy {
        GivenEnergy::Absolute(e) => e.energy as nat,
        GivenEnergy::Add { energy, num_sigs } => spec_base_cost(size, num_sigs as nat)
            + energy.energy as nat,
    }
}

/// The header of the transaction that is built from the given parts, or the
/// reason why none is built. The payload must be within the limits of the
/// protocol and its encoding at most 102400 bytes long; the size of the
/// transaction is that of the header, 60, and of the encoded payload; the
/// energy is computed from this size and must fit in 64 bits.
pub open spec fn built_header(
    sender: Seq<u8>,
    nonce: u64,
    expiry: u64,
    energy: GivenEnergy,
    payload: PayloadView,
) -> Result<TransactionHeaderView, ConstructionError> {
    let len = enc_payload(payload).len();
    if !payload.wf() {
        Err(ConstructionError::InvalidPayload)
    } else if len > MAX_PAYLOAD_SIZE {
        Err(ConstructionError::PayloadTooLarge { size: len as usize })
    } else if given_energy(energy, 60 + len) > u64::MAX {
        Err(ConstructionError::EnergyOverflow)
    } else {
        Ok(
            TransactionHeaderView {
                sender,
                nonce,
                energy_amount: given_energy(energy, 60 + len) as u64,
                payload_size: len as u32,
                expiry,
            },
        )
    }
}

impl PreAccountTransaction {
    /// The transaction holds the given header and payload, the encoding of
    /// the payload, and the hash of the two that is to be signed.
    pub open spec fn holds(&self, header: TransactionHeaderView, payload: PayloadView) -> bool {
        &&& self.header@ == header
        &&& self.payload@ == payload
        &&& self.encoded@ == enc_payload(payload)
        &&& self.hash_to_sign@ == spec_sha256(sign_hash_input(header, enc_payload(payload)))
    }
}

/// The result of building a transaction from the given parts is `r`.
pub open spec fn is_built(
    r: Result<PreAccountTransaction, ConstructionError>,
    sender: Seq<u8>,
    nonce: u64,
    expiry: u64,
    energy: GivenEnergy,
    payload: PayloadView,
) -> bool {
    match r {
        Ok(t) => built_header(sender, nonce, expiry, energy, payload) == Ok::<
            _,
            ConstructionError,
        >(t.header@) && t.holds(t.header@, payload),
        Err(e) => built_header(sender, nonce, expiry, energy, payload) == Err::<
            TransactionHeaderView,
            _,
        >(e),
    }
}

/// The intermediate state of a transaction that is being built: the payload
/// is encoded and its size is in the header, but the energy is not yet
/// known, and nothing has been hashed.
struct TransactionBuilder {
    header: TransactionHeader,
    payload: Payload,
    encoded: EncodedPayload,
}

impl TransactionBuilder {
    /// The parts are consistent: the payload is valid, the encoding is that
    /// of the payload and fits a transaction, and the header records its
    /// size.
    spec fn wf(&self) -> bool {
        &&& self.payload@.wf()
        &&& self.encoded@ == enc_payload(self.payload@)
        &&& self.encoded@.len() <= MAX_PAYLOAD_SIZE
        &&& self.header.payload_size.size == self.encoded@.len()
    }

    /// Encodes the payload and starts a transaction with it, with no energy
    /// yet. A payload that is not valid, or whose encoding is too large, is
    /// refused.
    fn new(sender: AccountAddress, nonce: Nonce, expiry: TransactionTime, payload: Payload) -> (r:
        Result<TransactionBuilder, ConstructionError>)
        ensures
            match r {
                Ok(b) => b.wf() && b.payload == payload && b.header@.sender == sender@
                    && b.header@.nonce == nonce.nonce && b.header@.expiry == expiry.seconds,
                Err(e) => e == if !payload@.wf() {
                    ConstructionError::InvalidPayload
                } else {
                    ConstructionError::PayloadTooLarge {
                        size: enc_payload(payload@).len() as usize,
                    }
                } && (!payload@.wf() || enc_payload(payload@).len() > MAX_PAYLOAD_SIZE),
            },
    {
        if !payload.is_valid() {
            return Err(ConstructionError::InvalidPayload);
        }
        let encoded = payload.encode();
        if encoded.payload.len() > MAX_PAYLOAD_SIZE as usize {
            return Err(ConstructionError::PayloadTooLarge { size: encoded.payload.len() });
        }
        let header = TransactionHeader {
            sender,
            nonce,
            energy_amount: Energy { energy: 0 },
            payload_size: PayloadSize { size: encoded.payload.len() as u32 },
            expiry,
        };
        Ok(TransactionBuilder { header, payload, encoded })
    }

    /// The size of the transaction in bytes: that of the header and of the
    /// encoded payload.
    fn size(&self) -> (size: u64)
        requires
            self.wf(),
        ensures
            size == 60 + self.encoded@.len(),
    {
        60 + self.header.payload_size.size as u64
    }

    /// Finishes the transaction: computes the energy from the size, puts it
    /// in the header, and hashes the header and the payload.
    fn construct(self, energy: GivenEnergy) -> (r: Result<
        PreAccountTransaction,
        ConstructionError,
    >)
        requires
            self.wf(),
        ensures
            is_built(
                r,
                self.header@.sender,
                self.header@.nonce,
                self.header@.expiry,
                energy,
                self.payload@,
            ),
            r matches Ok(t) ==> t.payload == self.payload,
    {
        let size = self.size();
        let energy_amount = match energy {
            GivenEnergy::Absolute(e) => e,
            GivenEnergy::Add { energy, num_sigs } => {
                let base = cost::base_cost(size, num_sigs);
                if energy.energy > u64::MAX - base.energy {
                    return Err(ConstructionError::EnergyOverflow);
                }
                Energy { energy: base.energy + energy.energy }
            },
        };
        let header = TransactionHeader {
            sender: self.header.sender,
            nonce: self.header.nonce,
            energy_amount,
            payload_size: self.header.payload_size,
            expiry: self.header.expiry,
        };
        let hash_to_sign = compute_transaction_sign_hash(&header, &self.encoded);
        Ok(PreAccountTransaction { header, payload: self.payload, encoded: self.encoded, hash_to_sign })
    }
}

/// Builds a transaction with the given payload and energy, ready to be
/// signed.
pub fn make_transaction(
    sender: AccountAddress,
    nonce: Nonce,
    expiry: TransactionTime,
    energy: GivenEnergy,
    payload: Payload,
) -> (r: Result<PreAccountTransaction, ConstructionError>)
    ensures
        is_built(r, sender@, nonce.nonce, expiry.seconds, energy, payload@),
        r matches Ok(t) ==> t.payload == payload,
{
    match TransactionBuilder::new(sender, nonce, expiry, payload) {
        Ok(builder) => builder.construct(energy),
        Err(e) => Err(e),
    }
}

/// What is built can be read back: the encoded payload of a transaction
/// that was built decodes to its payload, where the decoder is handed the
/// sizes of the parts that the payload carries as they are.
pub proof fn built_payload_decodes(
    t: PreAccountTransaction,
    sender: Seq<u8>,
    nonce: u64,
    expiry: u64,
    energy: GivenEnergy,
    payload: PayloadView,
)
    requires
        is_built(Ok(t), sender, nonce, expiry, energy, payload),
    ensures
        decode_payload(t.encoded@, payload.carried_sizes()) == Ok::<_, ParseError>(t.payload@),
        t.header@.payload_size == t.encoded@.len(),
        t.header@.payload_size <= MAX_PAYLOAD_SIZE,
{
    payload_round_trip(payload);
}

impl PreAccountTransaction {
    /// Signs the transaction. The signer must belong to the sender and sign
    /// with as many keys as were counted when the transaction was built;
    /// otherwise the transaction will be refused.
    pub fn sign<S: TransactionSigner>(self, signer: &S) -> (transaction: AccountTransaction<
        EncodedPayload,
    >)
        ensures
            transaction.header == self.header,
            transaction.payload == self.encoded,
            transaction.signature@ == signer.spec_sign(
                spec_sha256(sign_hash_input(self.header@, self.encoded@)),
            ),
    {
        sign_transaction(signer, self.header, self.encoded)
    }

    /// Appends the header and the encoded payload, which is what the body
    /// of a transaction is read back from.
    pub fn serial(&self, out: &mut Vec<u8>)
        ensures
            final(out)@ == old(out)@ + enc_header(self.header@) + self.encoded@,
    {
        self.header.serial(out);
        self.encoded.serial(out);
    }

    /// Reads the body of a transaction at offset `at`: the header and as
    /// many bytes of payload as it says, which are decoded and hashed.
    pub fn deserial(src: &[u8], at: usize, carried_sizes: &[usize]) -> (r: ParseResult<
        PreAccountTransaction,
    >)
        requires
            at <= src.len(),
        ensures
            match r {
                Ok(p) => parse_transaction_body(src@, at as int, carried_sizes@) == Ok::<
                    _,
                    ParseError,
                >(((p.0.header@, p.0.payload@), p.1 as int)) && p.1 <= src.len()
                    && p.0.encoded@ == src@.subrange(
                    p.1 - p.0.header@.payload_size,
                    p.1 as int,
                ) && p.0.hash_to_sign@ == spec_sha256(sign_hash_input(p.0.header@, p.0.encoded@)),
                Err(e) => parse_transaction_body(src@, at as int, carried_sizes@) == Err::<
                    ((TransactionHeaderView, PayloadView), int),
                    _,
                >(e),
            },
    {
        let (header, a1) = TransactionHeader::deserial(src, at)?;
        let (encoded, a2) = get_encoded_payload(src, a1, header.payload_size)?;
        let payload = encoded.decode(carried_sizes)?;
        let hash_to_sign = compute_transaction_sign_hash(&header, &encoded);
        Ok((PreAccountTransaction { header, payload, encoded, hash_to_sign }, a2))
    }
}

/// The body of a transaction at offset `at`: the header, then the payload
/// in as many bytes as the header says, which must spell a payload and be
/// taken up by it.
pub open spec fn parse_transaction_body(s: Seq<u8>, at: int, sizes: Seq<usize>) -> Parsed<
    (TransactionHeaderView, PayloadView),
> {
    and_next(
        parse_header(s, at),
        |header: TransactionHeaderView, a1: int|
            and_next(
                parse_fixed(s, a1, header.payload_size as int),
                |bytes: Seq<u8>, a2: int|
                    match decode_payload(bytes, sizes) {
                        Ok(payload) => Ok::<_, ParseError>(((header, payload), a2)),
                        Err(e) => Err(e),
                    },
            ),
    )
}

// ---------------------------------------------------------------------------
// One function for each kind of transaction
// ---------------------------------------------------------------------------

/// The energy policy of the transactions with a fixed extra cost.
pub open spec fn added(num_sigs: u32, energy: u64) -> GivenEnergy {
    GivenEnergy::Add { energy: Energy { energy }, num_sigs }
}

/// Takes the transaction out of a result that is known to hold one.
fn built(r: Result<PreAccountTransaction, ConstructionError>) -> (t: PreAccountTransaction)
    requires
        r is Ok,
    ensures
        r == Ok::<_, ConstructionError>(t),
{
    match r {
        Ok(t) => t,
        Err(_) => unreached(),
    }
}

/// Constructs a transfer. It is 101 bytes long, the header included, and
/// costs the base cost of its size and signatures and 300 more.
pub fn transfer(
    num_sigs: u32,
    sender: AccountAddress,
    nonce: Nonce,
    expiry: TransactionTime,
    receiver: AccountAddress,
    amount: Amount,
) -> (t: PreAccountTransaction)
    ensures
        is_built(
            Ok(t),
            sender@,
            nonce.nonce,
            expiry.seconds,
            added(num_sigs, cost::SIMPLE_TRANSFER),
            PayloadView::Transfer { to_address: receiver@, amount: amount.micro_ccd },
        ),
        t.encoded@.len() == 41,
        t.header@.energy_amount == 101 + 100 * num_sigs + 300,
{
    let payload = Payload::Transfer { to_address: receiver, amount };
    proof {
        lemma_be_lengths();
    }
    built(
        make_transaction(
            sender,
            nonce,
            expiry,
            GivenEnergy::Add { num_sigs, energy: Energy { energy: cost::SIMPLE_TRANSFER } },
            payload,
        ),
    )
}

/// Constructs a transfer with a memo.
pub fn transfer_with_memo(
    num_sigs: u32,
    sender: AccountAddress,
    nonce: Nonce,
    expiry: TransactionTime,
    receiver: AccountAddress,
    amount: Amount,
    memo: Memo,
) -> (r: Result<PreAccountTransaction, ConstructionError>)
    ensures
        is_built(
            r,
            sender@,
            nonce.nonce,
            expiry.seconds,
            added(num_sigs, cost::SIMPLE_TRANSFER),
            PayloadView::TransferWithMemo {
                to_address: receiver@,
                memo: memo@,
                amount: amount.micro_ccd,
            },
        ),
{
    let payload = Payload::TransferWithMemo { to_address: receiver, memo, amount };
    make_transaction(
        sender,
        nonce,
        expiry,
        GivenEnergy::Add { num_sigs, energy: Energy { energy: cost::SIMPLE_TRANSFER } },
        payload,
    )
}

/// Constructs an encrypted transfer from the data of one.
pub fn encrypted_transfer(
    num_sigs: u32,
    sender: AccountAddress,
    nonce: Nonce,
    expiry: TransactionTime,
    receiver: AccountAddress,
    data: EncryptedAmountTransferData,
) -> (r: Result<PreAccountTransaction, ConstructionError>)
    ensures
        is_built(
            r,
            sender@,
            nonce.nonce,
            expiry.seconds,
            added(num_sigs, cost::ENCRYPTED_TRANSFER),
            PayloadView::EncryptedAmountTransfer { to: receiver@, data: data.bytes@ },
        ),
{
    let payload = Payload::EncryptedAmountTransfer { to: receiver, data: Box::new(data) };
    make_transaction(
        sender,
        nonce,
        expiry,
        GivenEnergy::Add { num_sigs, energy: Energy { energy: cost::ENCRYPTED_TRANSFER } },
        payload,
    )
}

/// Constructs an encrypted transfer with a memo from the data of one.
pub fn encrypted_transfer_with_memo(
    num_sigs: u32,
    sender: AccountAddress,
    nonce: Nonce,
    expiry: TransactionTime,
    receiver: AccountAddress,
    data: EncryptedAmountTransferData,
    memo: Memo,
) -> (r: Result<PreAccountTransaction, ConstructionError>)
    ensures
        is_built(
            r,
            sender@,
            nonce.nonce,
            expiry.seconds,
            added(num_sigs, cost::ENCRYPTED_TRANSFER),
            PayloadView::EncryptedAmountTransferWithMemo {
                to: receiver@,
                memo: memo@,
                data: data.bytes@,
            },
        ),
{
    let payload = Payload::EncryptedAmountTransferWithMemo {
        to: receiver,
        memo,
        data: Box::new(data),
    };
    make_transaction(
        sender,
        nonce,
        expiry,
        GivenEnergy::Add { num_sigs, energy: Energy { energy: cost::ENCRYPTED_TRANSFER } },
        payload,
    )
}

/// Constructs a transfer of the given amount from the public to the
/// encrypted balance of the sender.
pub fn transfer_to_encrypted(
    num_sigs: u32,
    sender: AccountAddress,
    nonce: Nonce,
    expiry: TransactionTime,
    amount: Amount,
) -> (t: PreAccountTransaction)
    ensures
        is_built(
            Ok(t),
            sender@,
            nonce.nonce,
            expiry.seconds,
            added(num_sigs, cost::TRANSFER_TO_ENCRYPTED),
            PayloadView::TransferToEncrypted { amount: amount.micro_ccd },
        ),
{
    let payload = Payload::TransferToEncrypted { amount };
    proof {
        lemma_be_lengths();
    }
    built(
        make_transaction(
            sender,
            nonce,
            expiry,
            GivenEnergy::Add { num_sigs, energy: Energy { energy: cost::TRANSFER_TO_ENCRYPTED } },
            payload,
        ),
    )
}

/// Constructs a transfer from the encrypted to the public balance of the
/// sender from the data of one.
pub fn transfer_to_public(
    num_sigs: u32,
    sender: AccountAddress,
    nonce: Nonce,
    expiry: TransactionTime,
    data: SecToPubAmountTransferData,
) -> (r: Result<PreAccountTransaction, ConstructionError>)
    ensures
        is_built(
            r,
            sender@,
            nonce.nonce,
            expiry.seconds,
            added(num_sigs, cost::TRANSFER_TO_PUBLIC),
            PayloadView::TransferToPublic { data: data.bytes@ },
        ),
{
    let payload = Payload::TransferToPublic { data: Box::new(data) };
    make_transaction(
        sender,
        nonce,
        expiry,
        GivenEnergy::Add { num_sigs, energy: Energy { energy: cost::TRANSFER_TO_PUBLIC } },
        payload,
    )
}

/// The cost of the releases of a schedule: 364 for each. A schedule of more
/// than 255 releases makes no valid payload, whatever is computed for it.
pub open spec fn schedule_energy(num_releases: nat) -> u64 {
    ((num_releases as u16) * (300 + 64)) as u64
}

/// Constructs a transfer that is released by the given schedule.
pub fn transfer_with_schedule(
    num_sigs: u32,
    sender: AccountAddress,
    nonce: Nonce,
    expiry: TransactionTime,
    receiver: AccountAddress,
    schedule: Vec<(Timestamp, Amount)>,
) -> (r: Result<PreAccountTransaction, ConstructionError>)
    ensures
        is_built(
            r,
            sender@,
            nonce.nonce,
            expiry.seconds,
            added(num_sigs, schedule_energy(schedule@.len())),
            PayloadView::TransferWithSchedule {
                to: receiver@,
                schedule: schedule_view(schedule@),
            },
        ),
{
    let num_releases = schedule.len() as u16;
    let payload = Payload::TransferWithSchedule { to: receiver, schedule };
    make_transaction(
        sender,
        nonce,
        expiry,
        GivenEnergy::Add { num_sigs, energy: cost::scheduled_transfer(num_releases) },
        payload,
    )
}

/// Constructs a transfer with a memo that is released by the given
/// schedule.
pub fn transfer_with_schedule_and_memo(
    num_sigs: u32,
    sender: AccountAddress,
    nonce: Nonce,
    expiry: TransactionTime,
    receiver: AccountAddress,
    schedule: Vec<(Timestamp, Amount)>,
    memo: Memo,
) -> (r: Result<PreAccountTransaction, ConstructionError>)
    ensures
        is_built(
            r,
            sender@,
            nonce.nonce,
            expiry.seconds,
            added(num_sigs, schedule_energy(schedule@.len())),
            PayloadView::TransferWithScheduleAndMemo {
                to: receiver@,
                memo: memo@,
                schedule: schedule_view(schedule@),
            },
        ),
{
    let num_releases = schedule.len() as u16;
    let payload = Payload::TransferWithScheduleAndMemo { to: receiver, memo, schedule };
    make_transaction(
        sender,
        nonce,
        expiry,
        GivenEnergy::Add { num_sigs, energy: cost::scheduled_transfer(num_releases) },
        payload,
    )
}

/// Constructs the registration of the sender as a baker.
pub fn add_baker(
    num_sigs: u32,
    sender: AccountAddress,
    nonce: Nonce,
    expiry: TransactionTime,
    baking_stake: Amount,
    restake_earnings: bool,
    keys: BakerAddKeysPayload,
) -> (t: PreAccountTransaction)
    ensures
        is_built(
            Ok(t),
            sender@,
            nonce.nonce,
            expiry.seconds,
            added(num_sigs, cost::ADD_BAKER),
            PayloadView::AddBaker {
                keys: keys@,
                baking_stake: baking_stake.micro_ccd,
                restake_earnings,
            },
        ),
{
    let payload = Payload::AddBaker {
        payload: Box::new(AddBakerPayload { keys, baking_stake, restake_earnings }),
    };
    proof {
        lemma_be_lengths();
        assert(enc_baker_keys(keys@).len() == 352);
    }
    built(
        make_transaction(
            sender,
            nonce,
            expiry,
            GivenEnergy::Add { num_sigs, energy: Energy { energy: cost::ADD_BAKER } },
            payload,
        ),
    )
}

/// Constructs an update of the keys of the baker of the sender.
pub fn update_baker_keys(
    num_sigs: u32,
    sender: AccountAddress,
    nonce: Nonce,
    expiry: TransactionTime,
    keys: BakerUpdateKeysPayload,
) -> (t: PreAccountTransaction)
    ensures
        is_built(
            Ok(t),
            sender@,
            nonce.nonce,
            expiry.seconds,
            added(num_sigs, cost::UPDATE_BAKER_KEYS),
            PayloadView::UpdateBakerKeys { keys: keys@ },
        ),
{
    proof {
        assert(enc_baker_keys(keys@).len() == 352);
    }
    let payload = Payload::UpdateBakerKeys { payload: Box::new(keys) };
    built(
        make_transaction(
            sender,
            nonce,
            expiry,
            GivenEnergy::Add { num_sigs, energy: Energy { energy: cost::UPDATE_BAKER_KEYS } },
            payload,
        ),
    )
}

/// Constructs the deregistration of the sender as a baker.
pub fn remove_baker(num_sigs: u32, sender: AccountAddress, nonce: Nonce, expiry: TransactionTime) -> (t:
    PreAccountTransaction)
    ensures
        is_built(
            Ok(t),
            sender@,
            nonce.nonce,
            expiry.seconds,
            added(num_sigs, cost::REMOVE_BAKER),
            PayloadView::RemoveBaker,
        ),
{
    let payload = Payload::RemoveBaker;
    built(
        make_transaction(
            sender,
            nonce,
            expiry,
            GivenEnergy::Add { num_sigs, energy: Energy { energy: cost::REMOVE_BAKER } },
            payload,
        ),
    )
}

/// Constructs an update of the amount that the sender stakes as a baker.
pub fn update_baker_stake(
    num_sigs: u32,
    sender: AccountAddress,
    nonce: Nonce,
    expiry: TransactionTime,
    new_stake: Amount,
) -> (t: PreAccountTransaction)
    ensures
        is_built(
            Ok(t),
            sender@,
            nonce.nonce,
            expiry.seconds,
            added(num_sigs, cost::UPDATE_BAKER_STAKE),
            PayloadView::UpdateBakerStake { stake: new_stake.micro_ccd },
        ),
{
    let payload = Payload::UpdateBakerStake { stake: new_stake };
    proof {
        lemma_be_lengths();
    }
    built(
        make_transaction(
            sender,
            nonce,
            expiry,
            GivenEnergy::Add { num_sigs, energy: Energy { energy: cost::UPDATE_BAKER_STAKE } },
            payload,
        ),
    )
}

/// Constructs an update of whether the earnings of the sender as a baker
/// are added to the stake.
pub fn update_baker_restake_earnings(
    num_sigs: u32,
    sender: AccountAddress,
    nonce: Nonce,
    expiry: TransactionTime,
    restake_earnings: bool,
) -> (t: PreAccountTransaction)
    ensures
        is_built(
            Ok(t),
            sender@,
            nonce.nonce,
            expiry.seconds,
            added(num_sigs, cost::UPDATE_BAKER_RESTAKE),
            PayloadView::UpdateBakerRestakeEarnings { restake_earnings },
        ),
{
    let payload = Payload::UpdateBakerRestakeEarnings { restake_earnings };
    built(
        make_transaction(
            sender,
            nonce,
            expiry,
            GivenEnergy::Add { num_sigs, energy: Energy { energy: cost::UPDATE_BAKER_RESTAKE } },
            payload,
        ),
    )
}

/// Constructs the registration of the given piece of data.
pub fn register_data(
    num_sigs: u32,
    sender: AccountAddress,
    nonce: Nonce,
    expiry: TransactionTime,
    data: RegisteredData,
) -> (r: Result<PreAccountTransaction, ConstructionError>)
    ensures
        is_built(
            r,
            sender@,
            nonce.nonce,
            expiry.seconds,
            added(num_sigs, cost::REGISTER_DATA),
            PayloadView::RegisterData { data: data@ },
        ),
{
    let payload = Payload::RegisterData { data };
    make_transaction(
        sender,
        nonce,
        expiry,
        GivenEnergy::Add { num_sigs, energy: Energy { energy: cost::REGISTER_DATA } },
        payload,
    )
}

/// Constructs the deployment of the given Wasm module, with version 0. The
/// source is deployed as it is given.
pub fn deploy_module(
    num_sigs: u32,
    sender: AccountAddress,
    nonce: Nonce,
    expiry: TransactionTime,
    source: ModuleSource,
) -> (r: Result<PreAccountTransaction, ConstructionError>)
    ensures
        is_built(
            r,
            sender@,
            nonce.nonce,
            expiry.seconds,
            added(num_sigs, (source@.len() / 10) as u64),
            PayloadView::DeployModule { version: 0, source: source@ },
        ),
{
    let module_size = source.size();
    let payload = Payload::DeployModule { module: WasmModule { version: 0, source } };
    make_transaction(
        sender,
        nonce,
        expiry,
        GivenEnergy::Add { num_sigs, energy: cost::deploy_module(module_size) },
        payload,
    )
}

/// Constructs the initialization of a smart contract, which is given
/// `energy` for its execution on top of the base cost of the transaction.
pub fn init_contract(
    num_sigs: u32,
    sender: AccountAddress,
    nonce: Nonce,
    expiry: TransactionTime,
    payload: InitContractPayload,
    energy: Energy,
) -> (r: Result<PreAccountTransaction, ConstructionError>)
    ensures
        is_built(
            r,
            sender@,
            nonce.nonce,
            expiry.seconds,
            added(num_sigs, energy.energy),
            (Payload::InitContract { payload })@,
        ),
{
    let payload = Payload::InitContract { payload };
    make_transaction(sender, nonce, expiry, GivenEnergy::Add { num_sigs, energy }, payload)
}

/// Constructs the update of a smart contract instance, which is given
/// `energy` for its execution on top of the base cost of the transaction.
pub fn update_contract(
    num_sigs: u32,
    sender: AccountAddress,
    nonce: Nonce,
    expiry: TransactionTime,
    payload: UpdateContractPayload,
    energy: Energy,
) -> (r: Result<PreAccountTransaction, ConstructionError>)
    ensures
        is_built(
            r,
            sender@,
            nonce.nonce,
            expiry.seconds,
            added(num_sigs, energy.energy),
            (Payload::Update { payload })@,
        ),
{
    let payload = Payload::Update { payload };
    make_transaction(sender, nonce, expiry, GivenEnergy::Add { num_sigs, energy }, payload)
}

} // verus!
