//! Update instructions: the messages that change the parameters of the
//! chain. They are built like account transactions, but are signed by a flat
//! set of keys; which keys must sign is decided elsewhere. An instruction
//! without any signature is never decoded.

use vstd::prelude::*;
use vstd::slice::{slice_subrange, slice_to_vec};
use crate::constants::MAX_PAYLOAD_SIZE;
use crate::crypto::{
    sha256, spec_ed25519_sign, spec_sha256,
};
use crate::types::basic::{
    HashBytes, TransactionTime, UpdateSequenceNumber, UpdateSignHash,
};
use crate::types::keys::{
    KeyPair, KeyPairView, Signature,
};
use crate::types::transactions::construct::ConstructionError;
use crate::types::update_map::{lemma_put, put, update_key, UpdateMap};
use crate::types::transactions::header::{
    parse_payload_size, PayloadSize,
};
use crate::wire::{lists, 
    and_next, be_u16, be_u32, be_u64, enc_bytes16, enc_many, error_at, has_at, increasing,
    lemma_be_lengths, lemma_enc_many_push, lemma_has_at_concat, lemma_parse_bytes16,
    lemma_parse_fixed, lemma_parse_increasing, lemma_parse_increasing_error,
    lemma_parse_increasing_is_increasing, lemma_parse_u16,
    lemma_parse_u32, lemma_parse_u64, lemma_views_push,
    parse_bytes16, parse_fixed, parse_increasing, parse_u16, parse_u64, parse_u8, put_bytes,
    put_bytes16, put_u16, put_u32, put_u64, put_u8, read_bytes16, read_fixed, read_u16, read_u64,
    read_u8, reads, views, ParseError, ParseErrorKind, ParseResult, Parsed,
};

verus! {

/// The header of an update instruction.
#[derive(Debug, Clone, Copy, PartialEq, Eq)]
pub struct UpdateHeader {
    pub seq_number: UpdateSequenceNumber,
    pub effective_time: TransactionTime,
    pub timeout: TransactionTime,
    pub payload_size: PayloadSize,
}

/// The mathematical content of [`UpdateHeader`].
pub struct UpdateHeaderView {
    pub seq_number: u64,
    pub effective_time: u64,
    pub timeout: u64,
    pub payload_size: u32,
}

impl View for UpdateHeader {
    type V = UpdateHeaderView;

    open spec fn view(&self) -> UpdateHeaderView {
        UpdateHeaderView {
            seq_number: self.seq_number.number,
            effective_time: self.effective_time.seconds,
            timeout: self.timeout.seconds,
            payload_size: self.payload_size.size,
        }
    }
}

/// The encoding of the header of an update instruction: the sequence
/// number, the effective time, the timeout and the payload size, each at
/// its fixed width, which makes 28 bytes.
pub open spec fn enc_update_header(h: UpdateHeaderView) -> Seq<u8> {
    be_u64(h.seq_number) + be_u64(h.effective_time) + be_u64(h.timeout) + be_u32(h.payload_size)
}

/// The header of an update instruction at offset `at`.
pub open spec fn parse_update_header(s: Seq<u8>, at: int) -> Parsed<UpdateHeaderView> {
    and_next(
        parse_u64(s, at),
        |seq_number: u64, a1: int|
            and_next(
                parse_u64(s, a1),
                |effective_time: u64, a2: int|
                    and_next(
                        parse_u64(s, a2),
                        |timeout: u64, a3: int|
                            and_next(
                                parse_payload_size(s, a3),
                                |payload_size: u32, a4: int|
                                    Ok::<_, ParseError>(
                                        (
                                            UpdateHeaderView {
                                                seq_number,
                                                effective_time,
                                                timeout,
                                                payload_size,
                                            },
                                            a4,
                                        ),
                                    ),
                            ),
                    ),
            ),
    )
}

impl UpdateHeader {
    /// Appends the encoding of the header.
    pub fn serial(&self, out: &mut Vec<u8>)
        ensures
            final(out)@ == old(out)@ + enc_update_header(self@),
    {
        put_u64(out, self.seq_number.number);
        put_u64(out, self.effective_time.seconds);
        put_u64(out, self.timeout.seconds);
        put_u32(out, self.payload_size.size);
        assert(out@ =~= old(out)@ + enc_update_header(self@));
    }

    /// Reads the header of an update instruction at offset `at`.
    pub fn deserial(src: &[u8], at: usize) -> (r: ParseResult<UpdateHeader>)
        requires
            at <= src.len(),
        ensures
            reads(r, parse_update_header(src@, at as int), src@.len()),
    {
        let (number, a1) = read_u64(src, at)?;
        let (effective, a2) = read_u64(src, a1)?;
        let (timeout, a3) = read_u64(src, a2)?;
        let (payload_size, a4) = PayloadSize::deserial(src, a3)?;
        Ok(
            (
                UpdateHeader {
                    seq_number: UpdateSequenceNumber { number },
                    effective_time: TransactionTime { seconds: effective },
                    timeout: TransactionTime { seconds: timeout },
                    payload_size,
                },
                a4,
            ),
        )
    }
}

/// The payload of an update instruction. There is one kind for each
/// parameter of the chain that can be updated; each carries the new value
/// in its encoded form, which is not looked into here.
#[derive(Debug, Clone, PartialEq, Eq)]
pub enum UpdatePayload {
    Protocol(Vec<u8>),
    ElectionDifficulty(Vec<u8>),
    EuroPerEnergy(Vec<u8>),
    MicroGTUPerEuro(Vec<u8>),
    FoundationAccount(Vec<u8>),
    MintDistribution(Vec<u8>),
    TransactionFeeDistribution(Vec<u8>),
    GASRewards(Vec<u8>),
    BakerStakeThreshold(Vec<u8>),
    Root(Vec<u8>),
    Level1(Vec<u8>),
    AddAnonymityRevoker(Vec<u8>),
    AddIdentityProvider(Vec<u8>),
}

/// The mathematical content of [`UpdatePayload`]: the discriminant of its
/// kind and the bytes of the new value.
pub struct UpdatePayloadView {
    pub tag: u8,
    pub body: Seq<u8>,
}

impl View for UpdatePayload {
    type V = UpdatePayloadView;

    open spec fn view(&self) -> UpdatePayloadView {
        match self {
            UpdatePayload::Protocol(body) => UpdatePayloadView { tag: 1, body: body@ },
            UpdatePayload::ElectionDifficulty(body) => UpdatePayloadView { tag: 2, body: body@ },
            UpdatePayload::EuroPerEnergy(body) => UpdatePayloadView { tag: 3, body: body@ },
            UpdatePayload::MicroGTUPerEuro(body) => UpdatePayloadView { tag: 4, body: body@ },
            UpdatePayload::FoundationAccount(body) => UpdatePayloadView { tag: 5, body: body@ },
            UpdatePayload::MintDistribution(body) => UpdatePayloadView { tag: 6, body: body@ },
            UpdatePayload::TransactionFeeDistribution(body) => UpdatePayloadView {
                tag: 7,
                body: body@,
            },
            UpdatePayload::GASRewards(body) => UpdatePayloadView { tag: 8, body: body@ },
            UpdatePayload::BakerStakeThreshold(body) => UpdatePayloadView { tag: 9, body: body@ },
            UpdatePayload::Root(body) => UpdatePayloadView { tag: 10, body: body@ },
            UpdatePayload::Level1(body) => UpdatePayloadView { tag: 11, body: body@ },
            UpdatePayload::AddAnonymityRevoker(body) => UpdatePayloadView { tag: 12, body: body@ },
            UpdatePayload::AddIdentityProvider(body) => UpdatePayloadView { tag: 13, body: body@ },
        }
    }
}

/// Whether a byte is the discriminant of a kind of update payload.
pub open spec fn is_update_payload_tag(tag: u8) -> bool {
    1 <= tag <= 13
}

/// The encoding of an update payload: the discriminant of its kind, then
/// the bytes of the new value.
pub open spec fn enc_update_payload(p: UpdatePayloadView) -> Seq<u8> {
    seq![p.tag] + p.body
}

/// What decoding the bytes of an update payload gives: they start with the
/// discriminant of a known kind, and the rest is the new value. An unknown
/// discriminant is an error that names it.
pub open spec fn decode_update_payload(bytes: Seq<u8>) -> Result<UpdatePayloadView, ParseError> {
    match parse_u8(bytes, 0) {
        Ok((tag, next)) => if is_update_payload_tag(tag) {
            Ok(UpdatePayloadView { tag, body: bytes.subrange(1, bytes.len() as int) })
        } else {
            Err(ParseError { kind: ParseErrorKind::UnknownUpdatePayloadTag { tag }, at: 0 })
        },
        Err(e) => Err(e),
    }
}

impl UpdatePayload {
    /// The discriminant of the kind of the payload, and the bytes of the
    /// new value.
    pub fn parts(&self) -> (r: (u8, &Vec<u8>))
        ensures
            r.0 == self@.tag,
            r.1@ == self@.body,
            is_update_payload_tag(r.0),
    {
        match self {
            UpdatePayload::Protocol(body) => (1, body),
            UpdatePayload::ElectionDifficulty(body) => (2, body),
            UpdatePayload::EuroPerEnergy(body) => (3, body),
            UpdatePayload::MicroGTUPerEuro(body) => (4, body),
            UpdatePayload::FoundationAccount(body) => (5, body),
            UpdatePayload::MintDistribution(body) => (6, body),
            UpdatePayload::TransactionFeeDistribution(body) => (7, body),
            UpdatePayload::GASRewards(body) => (8, body),
            UpdatePayload::BakerStakeThreshold(body) => (9, body),
            UpdatePayload::Root(body) => (10, body),
            UpdatePayload::Level1(body) => (11, body),
            UpdatePayload::AddAnonymityRevoker(body) => (12, body),
            UpdatePayload::AddIdentityProvider(body) => (13, body),
        }
    }

    /// Appends the encoding of the payload: the discriminant, then the new
    /// value.
    pub fn serial(&self, out: &mut Vec<u8>)
        ensures
            final(out)@ == old(out)@ + enc_update_payload(self@),
    {
        let (tag, body) = self.parts();
        put_u8(out, tag);
        put_bytes(out, body.as_slice());
        assert(out@ =~= old(out)@ + enc_update_payload(self@));
    }

    /// Decodes the bytes of an update payload. A discriminant that is not
    /// known is an error: no kind stands in for it.
    pub fn deserial(src: &[u8]) -> (r: Result<UpdatePayload, ParseError>)
        ensures
            match r {
                Ok(p) => decode_update_payload(src@) == Ok::<_, ParseError>(p@),
                Err(e) => decode_update_payload(src@) == Err::<UpdatePayloadView, _>(e),
            },
    {
        let (tag, a1) = read_u8(src, 0)?;
        let body = slice_to_vec(slice_subrange(src, a1, src.len()));
        match tag {
            1 => Ok(UpdatePayload::Protocol(body)),
            2 => Ok(UpdatePayload::ElectionDifficulty(body)),
            3 => Ok(UpdatePayload::EuroPerEnergy(body)),
            4 => Ok(UpdatePayload::MicroGTUPerEuro(body)),
            5 => Ok(UpdatePayload::FoundationAccount(body)),
            6 => Ok(UpdatePayload::MintDistribution(body)),
            7 => Ok(UpdatePayload::TransactionFeeDistribution(body)),
            8 => Ok(UpdatePayload::GASRewards(body)),
            9 => Ok(UpdatePayload::BakerStakeThreshold(body)),
            10 => Ok(UpdatePayload::Root(body)),
            11 => Ok(UpdatePayload::Level1(body)),
            12 => Ok(UpdatePayload::AddAnonymityRevoker(body)),
            13 => Ok(UpdatePayload::AddIdentityProvider(body)),
            _ => Err(ParseError { kind: ParseErrorKind::UnknownUpdatePayloadTag { tag }, at: 0 }),
        }
    }
}

/// Decoding undoes encoding: the encoding of an update payload of a known
/// kind decodes to the payload.
pub proof fn update_payload_round_trip(p: UpdatePayloadView)
    requires
        is_update_payload_tag(p.tag),
    ensures
        decode_update_payload(enc_update_payload(p)) == Ok::<_, ParseError>(p),
{
    let s = enc_update_payload(p);
    assert(s.subrange(1, s.len() as int) =~= p.body);
}

/// No unknown discriminant is ever decoded: bytes whose first is not the
/// discriminant of a kind of update payload are refused with an error that
/// names it, and what is decoded has the discriminant that the bytes start
/// with.
pub proof fn unknown_update_payload_tag_is_refused(s: Seq<u8>)
    requires
        s.len() >= 1,
    ensures
        !is_update_payload_tag(s[0]) ==> decode_update_payload(s) == Err::<UpdatePayloadView, _>(
            ParseError { kind: ParseErrorKind::UnknownUpdatePayloadTag { tag: s[0] }, at: 0 },
        ),
        decode_update_payload(s) matches Ok(p) ==> p.tag == s[0] && is_update_payload_tag(p.tag),
{
}

// ---------------------------------------------------------------------------
// Signatures
// ---------------------------------------------------------------------------

/// The mathematical content of [`UpdateInstructionSignature`]: the
/// signatures by key index.
pub type UpdateSignaturesView = Seq<(u16, Seq<u8>)>;

/// The signature of an update instruction: a map from the index of a key to
/// its signature.
#[derive(Debug, Clone, PartialEq, Eq)]
pub struct UpdateInstructionSignature {
    pub signatures: UpdateMap<Signature>,
}

impl View for UpdateInstructionSignature {
    type V = UpdateSignaturesView;

    open spec fn view(&self) -> UpdateSignaturesView {
        self.signatures@
    }
}

/// The signatures are at least one and at most 65535, by strictly
/// increasing key index, and each is at most 65535 bytes long.
pub open spec fn update_signatures_wf(sigs: UpdateSignaturesView) -> bool {
    &&& 1 <= sigs.len() <= 65535
    &&& increasing(sigs, update_key())
    &&& forall|i: int| 0 <= i < sigs.len() ==> (#[trigger] sigs[i]).1.len() <= 65535
}

/// The encoding of the signature of an update key: the index of the key as
/// a 16-bit integer, then the signature behind its length as a 16-bit
/// integer.
pub open spec fn enc_update_signature(e: (u16, Seq<u8>)) -> Seq<u8> {
    be_u16(e.0) + enc_bytes16(e.1)
}

/// [`enc_update_signature`] as a value.
pub open spec fn update_signature_encoder() -> spec_fn((u16, Seq<u8>)) -> Seq<u8> {
    |e: (u16, Seq<u8>)| enc_update_signature(e)
}

/// The encoding of the signatures of an update instruction: their number as
/// a 16-bit integer, then the signatures by increasing key index.
pub open spec fn enc_update_signatures(sigs: UpdateSignaturesView) -> Seq<u8> {
    be_u16(sigs.len() as u16) + enc_many(sigs, update_signature_encoder())
}

/// The signature of an update key at offset `at`.
pub open spec fn parse_update_signature(s: Seq<u8>, at: int) -> Parsed<(u16, Seq<u8>)> {
    and_next(
        parse_u16(s, at),
        |index: u16, a1: int|
            and_next(
                parse_bytes16(s, a1, 65535),
                |sig: Seq<u8>, a2: int| Ok::<_, ParseError>(((index, sig), a2)),
            ),
    )
}

/// [`parse_update_signature`] as a value.
pub open spec fn update_signature_parser() -> spec_fn(Seq<u8>, int, int) -> Parsed<
    (u16, Seq<u8>),
> {
    |s: Seq<u8>, at: int, i: int| parse_update_signature(s, at)
}

/// The signatures of an update instruction at offset `at`. There must be at
/// least one: a count of zero is an error.
pub open spec fn parse_update_signatures(s: Seq<u8>, at: int) -> Parsed<UpdateSignaturesView> {
    and_next(
        parse_u16(s, at),
        |n: u16, a1: int|
            if n == 0 {
                error_at(ParseErrorKind::NoSignatures, at)
            } else {
                parse_increasing(s, a1, n as nat, update_signature_parser(), update_key())
            },
    )
}

/// Reads the signature of an update key at offset `at`.
pub fn read_update_signature(src: &[u8], at: usize) -> (r: ParseResult<(u16, Signature)>)
    requires
        at <= src.len(),
    ensures
        reads(r, parse_update_signature(src@, at as int), src@.len()),
        r matches Ok(p) ==> p.0.1@.len() <= 65535,
{
    let (index, a1) = read_u16(src, at)?;
    let (sig, a2) = read_bytes16(src, a1, 65535)?;
    Ok(((index, Signature { sig }), a2))
}

impl UpdateInstructionSignature {
    /// Appends the encoding of the signatures.
    pub fn serial(&self, out: &mut Vec<u8>)
        ensures
            final(out)@ == old(out)@ + enc_update_signatures(self@),
    {
        let sigs = &self.signatures;
        let n = sigs.len();
        put_u16(out, n as u16);
        let mut i: usize = 0;
        let items = sigs.entries();
        while i < n
            invariant
                lists(items@, sigs@),
                i <= n,
                n == sigs@.len(),
                out@ == old(out)@ + be_u16(sigs@.len() as u16) + enc_many(
                    sigs@.take(i as int),
                    update_signature_encoder(),
                ),
            decreases n - i,
        {
            put_u16(out, items[i].0);
            put_bytes16(out, items[i].1.sig.as_slice());
            proof {
                let e = sigs@[i as int];
                assert(sigs@.take(i + 1) =~= sigs@.take(i as int).push(e));
                lemma_enc_many_push(sigs@.take(i as int), e, update_signature_encoder());
                assert(out@ =~= old(out)@ + be_u16(sigs@.len() as u16) + enc_many(
                    sigs@.take(i + 1),
                    update_signature_encoder(),
                ));
            }
            i = i + 1;
        }
        proof {
            assert(sigs@.take(i as int) =~= sigs@);
        }
    }

    /// Reads the signatures of an update instruction at offset `at`. There
    /// must be at least one signature, and the key indices must be strictly
    /// increasing.
    pub fn deserial(src: &[u8], at: usize) -> (r: ParseResult<UpdateInstructionSignature>)
        requires
            at <= src.len(),
        ensures
            reads(r, parse_update_signatures(src@, at as int), src@.len()),
            r matches Ok(p) ==> update_signatures_wf(p.0@),
    {
        let (n, a1) = read_u16(src, at)?;
        if n == 0 {
            return Err(ParseError { kind: ParseErrorKind::NoSignatures, at });
        }
        let mut sigs: Vec<(u16, Signature)> = Vec::new();
        let mut pos: usize = a1;
        let mut i: u16 = 0;
        assert(views(sigs@) =~= Seq::empty());
        while i < n
            invariant
                i <= n,
                n != 0,
                pos <= src.len(),
                at <= src.len(),
                parse_u16(src@, at as int) == Ok::<_, ParseError>((n, a1 as int)),
                parse_increasing(
                    src@,
                    a1 as int,
                    i as nat,
                    update_signature_parser(),
                    update_key(),
                ) == Ok::<_, ParseError>((views(sigs@), pos as int)),
                sigs@.len() == i,
                forall|k: int|
                    0 <= k < sigs@.len() ==> (#[trigger] views(sigs@)[k]).1.len() <= 65535,
            decreases n - i,
        {
            let entry = read_update_signature(src, pos);
            let in_order = match &entry {
                Ok(e) => sigs.len() == 0 || sigs[sigs.len() - 1].0 < e.0.0,
                Err(_) => true,
            };
            proof {
                if sigs@.len() > 0 {
                    assert(views(sigs@).last() == sigs@.last()@);
                }
                if entry is Err || !in_order {
                    assert(parse_increasing(
                        src@,
                        a1 as int,
                        (i + 1) as nat,
                        update_signature_parser(),
                        update_key(),
                    ) is Err);
                    lemma_parse_increasing_error(
                        src@,
                        a1 as int,
                        (i + 1) as nat,
                        n as nat,
                        update_signature_parser(),
                        update_key(),
                    );
                }
            }
            let (e, next) = entry?;
            if !in_order {
                return Err(ParseError { kind: ParseErrorKind::KeysNotInOrder, at: pos });
            }
            proof {
                lemma_views_push(sigs@, e);
                assert forall|k: int| 0 <= k < sigs@.len() + 1 implies (#[trigger] views(
                    sigs@,
                ).push(e@)[k]).1.len() <= 65535 by {
                    if k < sigs@.len() {
                        assert(views(sigs@).push(e@)[k] == views(sigs@)[k]);
                    }
                }
            }
            sigs.push(e);
            pos = next;
            i = i + 1;
        }
        proof {
            lemma_parse_increasing_is_increasing(
                src@,
                a1 as int,
                n as nat,
                update_signature_parser(),
                update_key(),
            );
        }
        Ok((UpdateInstructionSignature { signatures: UpdateMap::from_increasing(sigs) }, pos))
    }
}

/// Well-formed signatures of an update instruction are parsed from wherever
/// the input holds their encoding.
pub proof fn lemma_parse_update_signatures(s: Seq<u8>, at: int, sigs: UpdateSignaturesView)
    requires
        update_signatures_wf(sigs),
        has_at(s, at, enc_update_signatures(sigs)),
    ensures
        parse_update_signatures(s, at) == Ok::<_, ParseError>(
            (sigs, at + enc_update_signatures(sigs).len()),
        ),
{
    lemma_be_lengths();
    lemma_has_at_concat(
        s,
        at,
        be_u16(sigs.len() as u16),
        enc_many(sigs, update_signature_encoder()),
    );
    lemma_parse_u16(s, at, sigs.len() as u16);
    assert forall|a: int, i: int|
        0 <= i < sigs.len() && #[trigger] has_at(
            s,
            a,
            update_signature_encoder()(sigs[i]),
        ) implies update_signature_parser()(s, a, i) == Ok::<_, ParseError>(
        (sigs[i], a + update_signature_encoder()(sigs[i]).len()),
    ) by {
        let e = sigs[i];
        lemma_has_at_concat(s, a, be_u16(e.0), enc_bytes16(e.1));
        lemma_parse_u16(s, a, e.0);
        lemma_parse_bytes16(s, a + 2, e.1, 65535);
    }
    lemma_parse_increasing(
        s,
        at + 2,
        sigs,
        update_signature_encoder(),
        update_signature_parser(),
        update_key(),
    );
}

/// An update instruction without a signature is never decoded: where the
/// input announces no signatures, reading them is the error that says that
/// at least one is required.
pub proof fn no_signatures_is_refused(s: Seq<u8>, at: int)
    requires
        has_at(s, at, be_u16(0)),
    ensures
        parse_update_signatures(s, at) == Err::<(UpdateSignaturesView, int), _>(
            ParseError { kind: ParseErrorKind::NoSignatures, at: at as usize },
        ),
{
    lemma_parse_u16(s, at, 0);
}

// ---------------------------------------------------------------------------
// Update instructions
// ---------------------------------------------------------------------------

/// An update instruction: a header, a payload and the signatures.
#[derive(Debug, Clone, PartialEq, Eq)]
pub struct UpdateInstruction {
    pub header: UpdateHeader,
    pub payload: UpdatePayload,
    pub signatures: UpdateInstructionSignature,
}

/// The mathematical content of [`UpdateInstruction`].
pub struct UpdateInstructionView {
    pub header: UpdateHeaderView,
    pub payload: UpdatePayloadView,
    pub signatures: UpdateSignaturesView,
}

impl View for UpdateInstruction {
    type V = UpdateInstructionView;

    open spec fn view(&self) -> UpdateInstructionView {
        UpdateInstructionView {
            header: self.header@,
            payload: self.payload@,
            signatures: self.signatures@,
        }
    }
}

/// The encoding of an update instruction: the header, the payload, and the
/// signatures.
pub open spec fn enc_update_instruction(u: UpdateInstructionView) -> Seq<u8> {
    enc_update_header(u.header) + enc_update_payload(u.payload) + enc_update_signatures(
        u.signatures,
    )
}

/// An update instruction at offset `at`: the header, the payload in as many
/// bytes as the header says, and the signatures, of which there must be at
/// least one. Errors of the payload give offsets from its start.
pub open spec fn parse_update_instruction(s: Seq<u8>, at: int) -> Parsed<UpdateInstructionView> {
    and_next(
        parse_update_header(s, at),
        |header: UpdateHeaderView, a1: int|
            and_next(
                parse_fixed(s, a1, header.payload_size as int),
                |bytes: Seq<u8>, a2: int|
                    match decode_update_payload(bytes) {
                        Ok(payload) => and_next(
                            parse_update_signatures(s, a2),
                            |signatures: UpdateSignaturesView, a3: int|
                                Ok::<_, ParseError>(
                                    (UpdateInstructionView { header, payload, signatures }, a3),
                                ),
                        ),
                        Err(e) => Err(e),
                    },
            ),
    )
}

impl UpdateInstruction {
    /// Appends the encoding of the instruction.
    pub fn serial(&self, out: &mut Vec<u8>)
        ensures
            final(out)@ == old(out)@ + enc_update_instruction(self@),
    {
        self.header.serial(out);
        self.payload.serial(out);
        self.signatures.serial(out);
        assert(out@ =~= old(out)@ + enc_update_instruction(self@));
    }

    /// Reads an update instruction at offset `at`.
    pub fn deserial(src: &[u8], at: usize) -> (r: ParseResult<UpdateInstruction>)
        requires
            at <= src.len(),
        ensures
            reads(r, parse_update_instruction(src@, at as int), src@.len()),
    {
        let (header, a1) = UpdateHeader::deserial(src, at)?;
        let (bytes, a2) = read_fixed(src, a1, header.payload_size.size as usize)?;
        let payload = UpdatePayload::deserial(bytes.as_slice())?;
        let (signatures, a3) = UpdateInstructionSignature::deserial(src, a2)?;
        Ok((UpdateInstruction { header, payload, signatures }, a3))
    }
}

/// The encoding of the header of an update instruction has 28 bytes.
pub proof fn lemma_update_header_size(h: UpdateHeaderView)
    ensures
        enc_update_header(h).len() == 28,
{
    lemma_be_lengths();
}

/// A header of an update instruction whose payload size is within the limit
/// is parsed from wherever the input holds its encoding.
pub proof fn lemma_parse_update_header(s: Seq<u8>, at: int, h: UpdateHeaderView)
    requires
        h.payload_size <= MAX_PAYLOAD_SIZE,
        has_at(s, at, enc_update_header(h)),
    ensures
        parse_update_header(s, at) == Ok::<_, ParseError>((h, at + 28)),
{
    lemma_be_lengths();
    let e1 = be_u64(h.seq_number);
    let e2 = e1 + be_u64(h.effective_time);
    let e3 = e2 + be_u64(h.timeout);
    lemma_has_at_concat(s, at, e3, be_u32(h.payload_size));
    lemma_has_at_concat(s, at, e2, be_u64(h.timeout));
    lemma_has_at_concat(s, at, e1, be_u64(h.effective_time));
    lemma_parse_u64(s, at, h.seq_number);
    lemma_parse_u64(s, at + 8, h.effective_time);
    lemma_parse_u64(s, at + 16, h.timeout);
    lemma_parse_u32(s, at + 24, h.payload_size);
}

/// Decoding undoes encoding: an update instruction of a known kind with
/// well-formed signatures, whose header gives the size of its payload, is
/// parsed from wherever the input holds its encoding.
pub proof fn update_instruction_round_trip(s: Seq<u8>, at: int, u: UpdateInstructionView)
    requires
        is_update_payload_tag(u.payload.tag),
        update_signatures_wf(u.signatures),
        u.header.payload_size <= MAX_PAYLOAD_SIZE,
        enc_update_payload(u.payload).len() == u.header.payload_size,
        has_at(s, at, enc_update_instruction(u)),
    ensures
        parse_update_instruction(s, at) == Ok::<_, ParseError>(
            (u, at + enc_update_instruction(u).len()),
        ),
{
    let e1 = enc_update_header(u.header);
    let e2 = e1 + enc_update_payload(u.payload);
    lemma_update_header_size(u.header);
    lemma_has_at_concat(s, at, e2, enc_update_signatures(u.signatures));
    lemma_has_at_concat(s, at, e1, enc_update_payload(u.payload));
    lemma_parse_update_header(s, at, u.header);
    lemma_parse_fixed(s, at + 28, enc_update_payload(u.payload));
    update_payload_round_trip(u.payload);
    lemma_parse_update_signatures(s, at + e2.len(), u.signatures);
}

// ---------------------------------------------------------------------------
// Signing
// ---------------------------------------------------------------------------

/// Something that holds secret keys and signs the hashes of update
/// instructions with them.
pub trait UpdateSigner {
    /// The signatures that the signer makes on a hash.
    spec fn spec_sign_update(&self, hash: Seq<u8>) -> UpdateSignaturesView;

    /// Signs the given hash of an update instruction.
    fn sign_update_hash(&self, hash_to_sign: &UpdateSignHash) -> (signatures:
        UpdateInstructionSignature)
        ensures
            signatures@ == self.spec_sign_update(hash_to_sign@),
    ;
}

/// The secret keys for signing update instructions, by key index. As a
/// signer it signs with every key it holds.
#[derive(Debug, Clone, PartialEq, Eq)]
pub struct UpdateKeys {
    pub keys: UpdateMap<KeyPair>,
}

impl View for UpdateKeys {
    type V = Seq<(u16, KeyPairView)>;

    open spec fn view(&self) -> Seq<(u16, KeyPairView)> {
        self.keys@
    }
}

/// The signatures that the given keys make on a hash, each under the index
/// of its key.
pub open spec fn sign_update_with_keys(keys: Seq<(u16, KeyPairView)>, hash: Seq<u8>)
    -> UpdateSignaturesView {
    keys.map_values(|e: (u16, KeyPairView)| (e.0, spec_ed25519_sign(e.1.secret, hash)))
}

impl UpdateSigner for UpdateKeys {
    open spec fn spec_sign_update(&self, hash: Seq<u8>) -> UpdateSignaturesView {
        sign_update_with_keys(self@, hash)
    }

    fn sign_update_hash(&self, hash_to_sign: &UpdateSignHash) -> (signatures:
        UpdateInstructionSignature) {
        let mut sigs: Vec<(u16, Signature)> = Vec::new();
        let ghost all = self.keys@;
        let n = self.keys.len();
        let mut i: usize = 0;
        assert(views(sigs@) =~= sign_update_with_keys(all.take(0), hash_to_sign@));
        let items = self.keys.entries();
        while i < n
            invariant
                lists(items@, self.keys@),
                i <= n,
                n == self.keys@.len(),
                all == self.keys@,
                views(sigs@) == sign_update_with_keys(all.take(i as int), hash_to_sign@),
            decreases n - i,
        {
            let sig = items[i].1.sign(hash_to_sign.bytes.as_slice());
            let entry = (items[i].0, sig);
            proof {
                lemma_views_push(sigs@, entry);
                assert(sign_update_with_keys(all.take(i + 1), hash_to_sign@)
                    =~= sign_update_with_keys(all.take(i as int), hash_to_sign@).push(entry@));
            }
            sigs.push(entry);
            i = i + 1;
        }
        assert(all.take(i as int) =~= all);
        proof {
            self.keys.lemma_wf();
            let made = views(sigs@);
            assert forall|a: int, b: int| 0 <= a < b < made.len() implies update_key()(
                #[trigger] made[a],
            ) < update_key()(#[trigger] made[b]) by {
                assert(update_key()(all[a]) < update_key()(all[b]));
            }
        }
        UpdateInstructionSignature { signatures: UpdateMap::from_increasing(sigs) }
    }
}

/// The signatures that a list of keys in any order makes on a hash: the
/// signature of each key is put in under its index, one after the other, so
/// that of keys with the same index the last one counts.
pub open spec fn sign_update_with_list(keys: Seq<(u16, KeyPairView)>, hash: Seq<u8>)
    -> UpdateSignaturesView
    decreases keys.len(),
{
    if keys.len() == 0 {
        Seq::empty()
    } else {
        put(
            sign_update_with_list(keys.drop_last(), hash),
            (keys.last().0, spec_ed25519_sign(keys.last().1.secret, hash)),
        )
    }
}

/// What a list of keys signs is listed by strictly increasing key index,
/// and holds under each index the signature of the last key with it and
/// nothing else.
pub proof fn list_signatures_are_a_map(keys: Seq<(u16, KeyPairView)>, hash: Seq<u8>)
    ensures
        increasing(sign_update_with_list(keys, hash), update_key()),
        forall|x: (u16, Seq<u8>)| #[trigger]
            sign_update_with_list(keys, hash).contains(x) <==> exists|i: int|
                0 <= i < keys.len() && x == (
                    (#[trigger] keys[i]).0,
                    spec_ed25519_sign(keys[i].1.secret, hash),
                ) && forall|j: int| i < j < keys.len() ==> (#[trigger] keys[j]).0 != keys[i].0,
    decreases keys.len(),
{
    let r = sign_update_with_list(keys, hash);
    if keys.len() == 0 {
        assert forall|x: (u16, Seq<u8>)| !(#[trigger] r.contains(x)) by {
            if r.contains(x) {
                let i = choose|i: int| 0 <= i < r.len() && r[i] == x;
            }
        }
    } else {
        let front = keys.drop_last();
        let before = sign_update_with_list(front, hash);
        let e = (keys.last().0, spec_ed25519_sign(keys.last().1.secret, hash));
        list_signatures_are_a_map(front, hash);
        lemma_put(before, e);
        assert forall|x: (u16, Seq<u8>)| #[trigger] r.contains(x) <==> exists|i: int|
            0 <= i < keys.len() && x == (
                (#[trigger] keys[i]).0,
                spec_ed25519_sign(keys[i].1.secret, hash),
            ) && forall|j: int| i < j < keys.len() ==> (#[trigger] keys[j]).0 != keys[i].0 by {
            if r.contains(x) {
                if x == e {
                    assert(keys[keys.len() - 1].0 == x.0);
                } else {
                    assert(before.contains(x));
                    let i = choose|i: int|
                        0 <= i < front.len() && x == (
                            (#[trigger] front[i]).0,
                            spec_ed25519_sign(front[i].1.secret, hash),
                        ) && forall|j: int|
                            i < j < front.len() ==> (#[trigger] front[j]).0 != front[i].0;
                    assert(keys[i] == front[i]);
                    assert forall|j: int| i < j < keys.len() implies (#[trigger] keys[j]).0
                        != keys[i].0 by {
                        if j < front.len() {
                            assert(front[j] == keys[j]);
                        }
                    }
                }
            }
            if exists|i: int|
                0 <= i < keys.len() && x == (
                    (#[trigger] keys[i]).0,
                    spec_ed25519_sign(keys[i].1.secret, hash),
                ) && forall|j: int| i < j < keys.len() ==> (#[trigger] keys[j]).0 != keys[i].0 {
                let i = choose|i: int|
                    0 <= i < keys.len() && x == (
                        (#[trigger] keys[i]).0,
                        spec_ed25519_sign(keys[i].1.secret, hash),
                    ) && forall|j: int| i < j < keys.len() ==> (#[trigger] keys[j]).0 != keys[i].0;
                if i < keys.len() - 1 {
                    assert(front[i] == keys[i]);
                    assert(keys[keys.len() - 1].0 != keys[i].0);
                    assert forall|j: int| i < j < front.len() implies (#[trigger] front[j]).0
                        != front[i].0 by {
                        assert(front[j] == keys[j]);
                    }
                    assert(before.contains(x));
                }
            }
        }
    }
}

impl UpdateSigner for Vec<(u16, KeyPair)> {
    open spec fn spec_sign_update(&self, hash: Seq<u8>) -> UpdateSignaturesView {
        sign_update_with_list(views(self@), hash)
    }

    fn sign_update_hash(&self, hash_to_sign: &UpdateSignHash) -> (signatures:
        UpdateInstructionSignature) {
        let mut sigs: UpdateMap<Signature> = UpdateMap::new();
        let ghost all = views(self@);
        let mut i: usize = 0;
        assert(sigs@ =~= sign_update_with_list(all.take(0), hash_to_sign@));
        while i < self.len()
            invariant
                i <= self@.len(),
                all == views(self@),
                sigs@ == sign_update_with_list(all.take(i as int), hash_to_sign@),
            decreases self@.len() - i,
        {
            let sig = self[i].1.sign(hash_to_sign.bytes.as_slice());
            proof {
                assert(all.take(i + 1).drop_last() =~= all.take(i as int));
                assert(all.take(i + 1).last() == all[i as int]);
            }
            sigs.insert(self[i].0, sig);
            i = i + 1;
        }
        assert(all.take(i as int) =~= all);
        UpdateInstructionSignature { signatures: sigs }
    }
}

/// The bytes that the sign hash of an update instruction is the digest of:
/// the encoded header, then the encoded payload.
pub open spec fn update_sign_hash_input(header: UpdateHeaderView, payload: Seq<u8>) -> Seq<u8> {
    enc_update_header(header) + payload
}

/// Computes the hash of an update instruction that is signed: the SHA-256
/// digest of the encoded header followed by the encoded payload.
fn compute_sign_hash(header: &UpdateHeader, payload: &[u8]) -> (hash: UpdateSignHash)
    ensures
        hash@ == spec_sha256(update_sign_hash_input(header@, payload@)),
{
    let mut buffer: Vec<u8> = Vec::new();
    header.serial(&mut buffer);
    put_bytes(&mut buffer, payload);
    assert(buffer@ =~= update_sign_hash_input(header@, payload@));
    HashBytes { bytes: sha256(buffer.as_slice()) }
}

/// Makes an update instruction and signs it. A payload whose encoding is
/// larger than the maximum payload size is refused.
pub fn update<S: UpdateSigner>(
    signer: &S,
    seq_number: UpdateSequenceNumber,
    effective_time: TransactionTime,
    timeout: TransactionTime,
    payload: UpdatePayload,
) -> (r: Result<UpdateInstruction, ConstructionError>)
    ensures
        match r {
            Ok(u) => {
                &&& enc_update_payload(payload@).len() <= MAX_PAYLOAD_SIZE
                &&& u.payload == payload
                &&& u.header@ == UpdateHeaderView {
                    seq_number: seq_number.number,
                    effective_time: effective_time.seconds,
                    timeout: timeout.seconds,
                    payload_size: enc_update_payload(payload@).len() as u32,
                }
                &&& u.signatures@ == signer.spec_sign_update(
                    spec_sha256(update_sign_hash_input(u.header@, enc_update_payload(payload@))),
                )
            },
            Err(e) => {
                &&& enc_update_payload(payload@).len() > MAX_PAYLOAD_SIZE
                &&& e == ConstructionError::PayloadTooLarge {
                    size: enc_update_payload(payload@).len() as usize,
                }
            },
        },
{
    let mut serialized_payload: Vec<u8> = Vec::new();
    payload.serial(&mut serialized_payload);
    assert(serialized_payload@ =~= enc_update_payload(payload@));
    if serialized_payload.len() > MAX_PAYLOAD_SIZE as usize {
        return Err(ConstructionError::PayloadTooLarge { size: serialized_payload.len() });
    }
    let header = UpdateHeader {
        seq_number,
        effective_time,
        timeout,
        payload_size: PayloadSize { size: serialized_payload.len() as u32 },
    };
    let hash = compute_sign_hash(&header, serialized_payload.as_slice());
    let signatures = signer.sign_update_hash(&hash);
    Ok(UpdateInstruction { header, payload, signatures })
}

} // verus!
