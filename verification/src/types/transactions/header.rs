//! The header of an account transaction, payloads in encoded form, and the
//! hash of a transaction that is signed.

use vstd::prelude::*;
use vstd::slice::slice_to_vec;
use crate::constants::MAX_PAYLOAD_SIZE;
use crate::crypto::{sha256, spec_sha256};
use crate::types::basic::{
    AccountAddress, Energy, HashBytes, Nonce, TransactionSignHash, TransactionTime,
};
use crate::types::transactions::payload::{enc_payload, parse_payload, Payload, PayloadView};
use crate::wire::{
    and_next, be_u32, be_u64, error_at, has_at, lemma_be_lengths, lemma_has_at_concat,
    lemma_parse_fixed, lemma_parse_u32, lemma_parse_u64, parse_fixed, parse_u32, parse_u64,
    put_bytes, put_u32, put_u64, read_array, read_fixed, read_u32, read_u64, reads, ParseError,
    ParseErrorKind, ParseResult, Parsed,
};

verus! {

/// The size of a transaction's payload in bytes, as its header records it.
#[derive(Clone, Copy, Debug, PartialEq, Eq, Structural)]
pub struct PayloadSize {
    pub size: u32,
}

/// A payload size at offset `at`: a 32-bit integer that is at most the
/// maximum payload size.
pub open spec fn parse_payload_size(s: Seq<u8>, at: int) -> Parsed<u32> {
    and_next(
        parse_u32(s, at),
        |size: u32, a1: int|
            if size > MAX_PAYLOAD_SIZE {
                error_at(ParseErrorKind::PayloadTooLarge { size }, at)
            } else {
                Ok::<_, ParseError>((size, a1))
            },
    )
}

impl PayloadSize {
    /// Reads a payload size at offset `at`, and refuses one that is larger
    /// than the protocol allows.
    pub fn deserial(src: &[u8], at: usize) -> (r: ParseResult<PayloadSize>)
        requires
            at <= src.len(),
        ensures
            r matches Ok(p) ==> parse_payload_size(src@, at as int) == Ok::<_, ParseError>(
                (p.0.size, p.1 as int),
            ) && p.1 <= src.len(),
            r matches Err(e) ==> parse_payload_size(src@, at as int) == Err::<(u32, int), _>(e),
    {
        let (size, a1) = read_u32(src, at)?;
        if size > MAX_PAYLOAD_SIZE {
            return Err(ParseError { kind: ParseErrorKind::PayloadTooLarge { size }, at });
        }
        Ok((PayloadSize { size }, a1))
    }
}

/// Header of an account transaction: what is needed to check that the
/// sender and the transaction are valid.
#[derive(Clone, Copy, Debug, PartialEq, Eq)]
pub struct TransactionHeader {
    /// Sender account of the transaction.
    pub sender: AccountAddress,
    /// Sequence number of the transaction.
    pub nonce: Nonce,
    /// Maximum amount of energy the transaction can take to execute.
    pub energy_amount: Energy,
    /// Size of the transaction payload.
    pub payload_size: PayloadSize,
    /// Latest time the transaction can be included in a block.
    pub expiry: TransactionTime,
}

/// The mathematical content of [`TransactionHeader`].
pub struct TransactionHeaderView {
    pub sender: Seq<u8>,
    pub nonce: u64,
    pub energy_amount: u64,
    pub payload_size: u32,
    pub expiry: u64,
}

impl View for TransactionHeader {
    type V = TransactionHeaderView;

    open spec fn view(&self) -> TransactionHeaderView {
        TransactionHeaderView {
            sender: self.sender@,
            nonce: self.nonce.nonce,
            energy_amount: self.energy_amount.energy,
            payload_size: self.payload_size.size,
            expiry: self.expiry.seconds,
        }
    }
}

impl TransactionHeaderView {
    /// The sender has 32 bytes and the payload size is at most the maximum.
    pub open spec fn wf(self) -> bool {
        &&& self.sender.len() == 32
        &&& self.payload_size <= MAX_PAYLOAD_SIZE
    }
}

/// The width of an encoded header in bytes: 32 + 8 + 8 + 4 + 8.
pub const TRANSACTION_HEADER_SIZE: u64 = 60;

/// The encoding of a header: the sender, the nonce, the energy, the payload
/// size and the expiry, each at its fixed width.
pub open spec fn enc_header(h: TransactionHeaderView) -> Seq<u8> {
    h.sender + be_u64(h.nonce) + be_u64(h.energy_amount) + be_u32(h.payload_size) + be_u64(
        h.expiry,
    )
}

/// A header at offset `at`.
pub open spec fn parse_header(s: Seq<u8>, at: int) -> Parsed<TransactionHeaderView> {
    and_next(
        parse_fixed(s, at, 32),
        |sender: Seq<u8>, a1: int|
            and_next(
                parse_u64(s, a1),
                |nonce: u64, a2: int|
                    and_next(
                        parse_u64(s, a2),
                        |energy_amount: u64, a3: int|
                            and_next(
                                parse_payload_size(s, a3),
                                |payload_size: u32, a4: int|
                                    and_next(
                                        parse_u64(s, a4),
                                        |expiry: u64, a5: int|
                                            Ok::<_, ParseError>(
                                                (
                                                    TransactionHeaderView {
                                                        sender,
                                                        nonce,
                                                        energy_amount,
                                                        payload_size,
                                                        expiry,
                                                    },
                                                    a5,
                                                ),
                                            ),
                                    ),
                            ),
                    ),
            ),
    )
}

/// The encoding of a header whose sender has 32 bytes has 60 bytes.
pub proof fn lemma_header_size(h: TransactionHeaderView)
    requires
        h.sender.len() == 32,
    ensures
        enc_header(h).len() == 60,
{
    lemma_be_lengths();
}

/// A valid header is parsed from wherever the input holds its encoding.
pub proof fn lemma_parse_header(s: Seq<u8>, at: int, h: TransactionHeaderView)
    requires
        h.wf(),
        has_at(s, at, enc_header(h)),
    ensures
        parse_header(s, at) == Ok::<_, ParseError>((h, at + 60)),
{
    lemma_be_lengths();
    let e1 = h.sender;
    let e2 = e1 + be_u64(h.nonce);
    let e3 = e2 + be_u64(h.energy_amount);
    let e4 = e3 + be_u32(h.payload_size);
    lemma_has_at_concat(s, at, e4, be_u64(h.expiry));
    lemma_has_at_concat(s, at, e3, be_u32(h.payload_size));
    lemma_has_at_concat(s, at, e2, be_u64(h.energy_amount));
    lemma_has_at_concat(s, at, e1, be_u64(h.nonce));
    lemma_parse_fixed(s, at, h.sender);
    lemma_parse_u64(s, at + 32, h.nonce);
    lemma_parse_u64(s, at + 40, h.energy_amount);
    lemma_parse_u32(s, at + 48, h.payload_size);
    lemma_parse_u64(s, at + 52, h.expiry);
}

impl TransactionHeader {
    /// Appends the encoding of the header, which is 60 bytes.
    pub fn serial(&self, out: &mut Vec<u8>)
        ensures
            final(out)@ == old(out)@ + enc_header(self@),
            final(out)@.len() == old(out)@.len() + 60,
    {
        put_bytes(out, self.sender.bytes.as_slice());
        put_u64(out, self.nonce.nonce);
        put_u64(out, self.energy_amount.energy);
        put_u32(out, self.payload_size.size);
        put_u64(out, self.expiry.seconds);
        proof {
            lemma_header_size(self@);
        }
        assert(out@ =~= old(out)@ + enc_header(self@));
    }

    /// Reads a header at offset `at`.
    pub fn deserial(src: &[u8], at: usize) -> (r: ParseResult<TransactionHeader>)
        requires
            at <= src.len(),
        ensures
            reads(r, parse_header(src@, at as int), src@.len()),
            r matches Ok(p) ==> p.0@.wf(),
    {
        let (sender, a1) = read_array::<32>(src, at)?;
        let (nonce, a2) = read_u64(src, a1)?;
        let (energy, a3) = read_u64(src, a2)?;
        let (payload_size, a4) = PayloadSize::deserial(src, a3)?;
        let (seconds, a5) = read_u64(src, a4)?;
        Ok(
            (
                TransactionHeader {
                    sender: AccountAddress { bytes: sender },
                    nonce: Nonce { nonce },
                    energy_amount: Energy { energy },
                    payload_size,
                    expiry: TransactionTime { seconds },
                },
                a5,
            ),
        )
    }
}

/// An account transaction payload in encoded form, which is decoded only
/// when its content is needed.
#[derive(Clone, Debug, PartialEq, Eq)]
pub struct EncodedPayload {
    pub payload: Vec<u8>,
}

impl View for EncodedPayload {
    type V = Seq<u8>;

    open spec fn view(&self) -> Seq<u8> {
        self.payload@
    }
}

/// What decoding a whole encoded payload gives: the payload that the bytes
/// spell, where they spell one and it takes all of them. Bytes that are left
/// over are an error that says how many.
pub open spec fn decode_payload(bytes: Seq<u8>, sizes: Seq<usize>) -> Result<
    PayloadView,
    ParseError,
> {
    match parse_payload(bytes, sizes) {
        Ok((p, consumed)) => if consumed == bytes.len() {
            Ok(p)
        } else {
            Err(
                ParseError {
                    kind: ParseErrorKind::LengthMismatch {
                        remaining: (bytes.len() - consumed) as usize,
                    },
                    at: consumed as usize,
                },
            )
        },
        Err(e) => Err(e),
    }
}

impl EncodedPayload {
    /// Decodes the payload. It must take all of the bytes: bytes that are
    /// left over are an error. `carried_sizes` holds the sizes of the parts
    /// that are carried as they are, in their order: one for the data of an
    /// encrypted transfer or of a transfer to the public balance, one for
    /// each credential that an update of credentials adds. No other payload
    /// looks at it.
    pub fn decode(&self, carried_sizes: &[usize]) -> (r: Result<Payload, ParseError>)
        ensures
            match r {
                Ok(p) => decode_payload(self@, carried_sizes@) == Ok::<_, ParseError>(p@)
                    && p@.wf(),
                Err(e) => decode_payload(self@, carried_sizes@) == Err::<PayloadView, _>(e),
            },
    {
        let (payload, consumed) = Payload::deserial(self.payload.as_slice(), carried_sizes)?;
        if consumed != self.payload.len() {
            return Err(
                ParseError {
                    kind: ParseErrorKind::LengthMismatch {
                        remaining: self.payload.len() - consumed,
                    },
                    at: consumed,
                },
            );
        }
        Ok(payload)
    }

    /// The number of bytes of the payload as a header records it: in 32
    /// bits. A valid payload is far shorter than what 32 bits can count; of
    /// a longer one the low 32 bits of the number are kept.
    pub fn size(&self) -> (size: PayloadSize)
        ensures
            size.size == self@.len() as u32,
            self@.len() <= u32::MAX ==> size.size == self@.len(),
    {
        PayloadSize { size: self.payload.len() as u32 }
    }

    /// Appends the bytes of the payload as they are. There is no length
    /// before them: whoever reads them back must know it.
    pub fn serial(&self, out: &mut Vec<u8>)
        ensures
            final(out)@ == old(out)@ + self@,
    {
        put_bytes(out, self.payload.as_slice());
    }
}

/// Reads an encoded payload of the given size at offset `at`.
pub fn get_encoded_payload(src: &[u8], at: usize, len: PayloadSize) -> (r: ParseResult<
    EncodedPayload,
>)
    requires
        at <= src.len(),
    ensures
        reads(r, parse_fixed(src@, at as int, len.size as int), src@.len()),
        r matches Ok(p) ==> p.0@.len() == len.size,
{
    let (payload, next) = read_fixed(src, at, len.size as usize)?;
    Ok((EncodedPayload { payload }, next))
}

/// What can stand as the payload of a transaction: a payload, or the bytes
/// of one.
pub trait PayloadLike {
    /// The bytes of the payload as they are transmitted.
    spec fn encoding(&self) -> Seq<u8>;

    /// Encodes the payload.
    fn encode(&self) -> (e: EncodedPayload)
        ensures
            e@ == self.encoding(),
    ;

    /// Appends the encoding of the payload to a buffer.
    fn encode_to_buffer(&self, out: &mut Vec<u8>)
        ensures
            final(out)@ == old(out)@ + self.encoding(),
    ;
}

impl PayloadLike for EncodedPayload {
    open spec fn encoding(&self) -> Seq<u8> {
        self@
    }

    fn encode(&self) -> (e: EncodedPayload) {
        EncodedPayload { payload: slice_to_vec(self.payload.as_slice()) }
    }

    fn encode_to_buffer(&self, out: &mut Vec<u8>) {
        put_bytes(out, self.payload.as_slice());
    }
}

impl PayloadLike for Payload {
    open spec fn encoding(&self) -> Seq<u8> {
        enc_payload(self@)
    }

    fn encode(&self) -> (e: EncodedPayload) {
        let mut payload: Vec<u8> = Vec::new();
        self.serial(&mut payload);
        assert(payload@ =~= enc_payload(self@));
        EncodedPayload { payload }
    }

    fn encode_to_buffer(&self, out: &mut Vec<u8>) {
        self.serial(out);
    }
}

/// The bytes that the sign hash of a transaction is the digest of: the
/// encoded header, then the payload as it is transmitted. The signatures are
/// no part of them.
pub open spec fn sign_hash_input(header: TransactionHeaderView, payload: Seq<u8>) -> Seq<u8> {
    enc_header(header) + payload
}

/// Computes the hash of a transaction that is signed: the SHA-256 digest of
/// the encoded header followed by the payload bytes as they are transmitted.
pub fn compute_transaction_sign_hash<P: PayloadLike>(header: &TransactionHeader, payload: &P) -> (hash:
    TransactionSignHash)
    ensures
        hash@ == spec_sha256(sign_hash_input(header@, payload.encoding())),
{
    let mut buffer: Vec<u8> = Vec::new();
    header.serial(&mut buffer);
    payload.encode_to_buffer(&mut buffer);
    assert(buffer@ =~= sign_hash_input(header@, payload.encoding()));
    HashBytes { bytes: sha256(buffer.as_slice()) }
}

/// The sign hash is a function of the bytes of the header and of the
/// payload: two transactions whose headers and payloads have the same bytes
/// have the same sign hash, whatever values the bytes were encoded from.
pub proof fn sign_hash_depends_on_bytes_only(
    header1: TransactionHeaderView,
    payload1: Seq<u8>,
    header2: TransactionHeaderView,
    payload2: Seq<u8>,
)
    requires
        enc_header(header1) == enc_header(header2),
        payload1 == payload2,
    ensures
        spec_sha256(sign_hash_input(header1, payload1)) == spec_sha256(
            sign_hash_input(header2, payload2),
        ),
{
}

} // verus!
