//! Account transactions: a signature, a header and a payload, where the
//! payload is either decoded or still in its bytes.

use vstd::prelude::*;
use crate::crypto::spec_sha256;
use crate::types::transactions::header::{
    compute_transaction_sign_hash, decode_payload, enc_header, get_encoded_payload,
    lemma_header_size, lemma_parse_header, parse_header, sign_hash_input, EncodedPayload,
    PayloadLike, TransactionHeader, TransactionHeaderView,
};
use crate::types::transactions::laws::payload_round_trip;
use crate::types::transactions::payload::{enc_payload, Payload, PayloadView};
use crate::types::transactions::signature::{
    enc_transaction_signature, lemma_parse_transaction_signature, parse_transaction_signature,
    transaction_signature_wf, TransactionSignature, TransactionSignatureView,
};
use crate::types::transactions::verify::{
    transaction_signature_verifies, verify_signature_transaction_sign_hash,
    HasAccountAccessStructure,
};
use crate::wire::{
    and_next, has_at, lemma_has_at_concat, lemma_parse_fixed, parse_fixed, reads, ParseError,
    ParseResult, Parsed,
};

verus! {

/// An account transaction: signed and paid for by a sender account. The
/// payload is a parameter, so that a transaction can carry its payload
/// decoded or in its bytes; decoding some payloads is costly, and is best
/// put off until the signatures and the sender have been checked.
#[derive(Debug, Clone, PartialEq, Eq)]
pub struct AccountTransaction<PayloadType> {
    pub signature: TransactionSignature,
    pub header: TransactionHeader,
    pub payload: PayloadType,
}

/// The mathematical content of [`AccountTransaction`].
pub struct AccountTransactionView<P> {
    pub signature: TransactionSignatureView,
    pub header: TransactionHeaderView,
    pub payload: P,
}

impl<P: View> View for AccountTransaction<P> {
    type V = AccountTransactionView<P::V>;

    open spec fn view(&self) -> AccountTransactionView<P::V> {
        AccountTransactionView {
            signature: self.signature@,
            header: self.header@,
            payload: self.payload@,
        }
    }
}

/// The encoding of an account transaction: the signature, the header, and
/// the bytes of the payload.
pub open spec fn enc_account_transaction(
    signature: TransactionSignatureView,
    header: TransactionHeaderView,
    payload: Seq<u8>,
) -> Seq<u8> {
    enc_transaction_signature(signature) + enc_header(header) + payload
}

/// An account transaction at offset `at`, with its payload in bytes: the
/// signature, the header, and as many bytes of payload as the header says.
pub open spec fn parse_account_transaction(s: Seq<u8>, at: int) -> Parsed<
    AccountTransactionView<Seq<u8>>,
> {
    and_next(
        parse_transaction_signature(s, at),
        |signature: TransactionSignatureView, a1: int|
            and_next(
                parse_header(s, a1),
                |header: TransactionHeaderView, a2: int|
                    and_next(
                        parse_fixed(s, a2, header.payload_size as int),
                        |payload: Seq<u8>, a3: int|
                            Ok::<_, ParseError>(
                                (AccountTransactionView { signature, header, payload }, a3),
                            ),
                    ),
            ),
    )
}

/// An account transaction at offset `at`, with its payload decoded: the
/// bytes of the payload must spell a payload and be taken up by it. Errors
/// of the payload give offsets from the start of the payload.
pub open spec fn parse_decoded_account_transaction(s: Seq<u8>, at: int, sizes: Seq<usize>)
    -> Parsed<AccountTransactionView<PayloadView>> {
    and_next(
        parse_account_transaction(s, at),
        |t: AccountTransactionView<Seq<u8>>, a1: int|
            match decode_payload(t.payload, sizes) {
                Ok(payload) => Ok::<_, ParseError>(
                    (
                        AccountTransactionView {
                            signature: t.signature,
                            header: t.header,
                            payload,
                        },
                        a1,
                    ),
                ),
                Err(e) => Err(e),
            },
    )
}

impl<P: PayloadLike> AccountTransaction<P> {
    /// Appends the encoding of the transaction: the signature, the header,
    /// and the payload as it is transmitted.
    pub fn serial(&self, out: &mut Vec<u8>)
        ensures
            final(out)@ == old(out)@ + enc_account_transaction(
                self.signature@,
                self.header@,
                self.payload.encoding(),
            ),
    {
        self.signature.serial(out);
        self.header.serial(out);
        self.payload.encode_to_buffer(out);
        assert(out@ =~= old(out)@ + enc_account_transaction(
            self.signature@,
            self.header@,
            self.payload.encoding(),
        ));
    }

    /// Verifies the signature of the transaction with the keys of an
    /// account: whether it verifies on the sign hash of the header and the
    /// payload.
    pub fn verify_transaction_signature<K: HasAccountAccessStructure>(&self, keys: &K) -> (ok: bool)
        ensures
            ok == transaction_signature_verifies(
                keys,
                spec_sha256(sign_hash_input(self.header@, self.payload.encoding())),
                self.signature@,
            ),
    {
        let hash = compute_transaction_sign_hash(&self.header, &self.payload);
        verify_signature_transaction_sign_hash(keys, &hash, &self.signature)
    }
}

impl AccountTransaction<EncodedPayload> {
    /// Reads an account transaction at offset `at` and leaves its payload
    /// in bytes.
    pub fn deserial(src: &[u8], at: usize) -> (r: ParseResult<AccountTransaction<EncodedPayload>>)
        requires
            at <= src.len(),
        ensures
            reads(r, parse_account_transaction(src@, at as int), src@.len()),
            r matches Ok(p) ==> transaction_signature_wf(p.0@.signature) && p.0@.header.wf()
                && p.0@.payload.len() == p.0@.header.payload_size,
    {
        let (signature, a1) = TransactionSignature::deserial(src, at)?;
        let (header, a2) = TransactionHeader::deserial(src, a1)?;
        let (payload, a3) = get_encoded_payload(src, a2, header.payload_size)?;
        Ok((AccountTransaction { signature, header, payload }, a3))
    }
}

impl AccountTransaction<Payload> {
    /// Reads an account transaction at offset `at` and decodes its payload,
    /// which must take exactly as many bytes as the header says.
    /// `carried_sizes` holds the sizes of the parts of the payload that
    /// are carried as they are; a payload without such parts does not look
    /// at it.
    pub fn deserial(src: &[u8], at: usize, carried_sizes: &[usize]) -> (r: ParseResult<
        AccountTransaction<Payload>,
    >)
        requires
            at <= src.len(),
        ensures
            reads(
                r,
                parse_decoded_account_transaction(src@, at as int, carried_sizes@),
                src@.len(),
            ),
            r matches Ok(p) ==> transaction_signature_wf(p.0@.signature) && p.0@.header.wf()
                && p.0@.payload.wf(),
    {
        let (signature, a1) = TransactionSignature::deserial(src, at)?;
        let (header, a2) = TransactionHeader::deserial(src, a1)?;
        let (encoded, a3) = get_encoded_payload(src, a2, header.payload_size)?;
        let payload = encoded.decode(carried_sizes)?;
        Ok((AccountTransaction { signature, header, payload }, a3))
    }
}

/// Decoding undoes encoding: an account transaction with a well-formed
/// signature and a valid header, whose payload has as many bytes as the
/// header says, is parsed from wherever the input holds its encoding.
pub proof fn account_transaction_round_trip(s: Seq<u8>, at: int, t: AccountTransactionView<Seq<u8>>)
    requires
        transaction_signature_wf(t.signature),
        t.header.wf(),
        t.payload.len() == t.header.payload_size,
        has_at(s, at, enc_account_transaction(t.signature, t.header, t.payload)),
    ensures
        parse_account_transaction(s, at) == Ok::<_, ParseError>(
            (t, at + enc_account_transaction(t.signature, t.header, t.payload).len()),
        ),
{
    let e1 = enc_transaction_signature(t.signature);
    let e2 = e1 + enc_header(t.header);
    lemma_header_size(t.header);
    lemma_has_at_concat(s, at, e2, t.payload);
    lemma_has_at_concat(s, at, e1, enc_header(t.header));
    lemma_parse_transaction_signature(s, at, t.signature);
    lemma_parse_header(s, at + e1.len(), t.header);
    lemma_parse_fixed(s, at + e2.len(), t.payload);
}

/// Decoding undoes encoding, payload included: an account transaction with
/// a well-formed signature and a valid header, whose payload is within the
/// limits of the protocol and has as many bytes as the header says, is
/// parsed and decoded from wherever the input holds its encoding.
pub proof fn decoded_account_transaction_round_trip(
    s: Seq<u8>,
    at: int,
    t: AccountTransactionView<PayloadView>,
)
    requires
        transaction_signature_wf(t.signature),
        t.header.wf(),
        t.payload.wf(),
        enc_payload(t.payload).len() == t.header.payload_size,
        has_at(s, at, enc_account_transaction(t.signature, t.header, enc_payload(t.payload))),
    ensures
        parse_decoded_account_transaction(s, at, t.payload.carried_sizes()) == Ok::<
            _,
            ParseError,
        >((t, at + enc_account_transaction(t.signature, t.header, enc_payload(t.payload)).len())),
{
    let encoded = AccountTransactionView {
        signature: t.signature,
        header: t.header,
        payload: enc_payload(t.payload),
    };
    account_transaction_round_trip(s, at, encoded);
    payload_round_trip(t.payload);
}

} // verus!
