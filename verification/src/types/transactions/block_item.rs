//! Block items: what users send to the chain, on its own or as part of a
//! block. A block item is an account transaction, a credential deployment
//! or an update instruction, behind a byte that says which.

use vstd::prelude::*;
use crate::crypto::{sha256, spec_sha256};
use crate::types::basic::{HashBytes, TransactionHash};
use crate::constants::MAX_PAYLOAD_SIZE;
use crate::types::transactions::account::{
    account_transaction_round_trip, enc_account_transaction, parse_account_transaction,
    AccountTransaction, AccountTransactionView,
};
use crate::types::transactions::header::{EncodedPayload, PayloadLike};
use crate::types::transactions::signature::{
    enc_transaction_signature, transaction_signature_wf, TransactionSignature,
};
use crate::types::transactions::update::{
    enc_update_instruction, enc_update_payload, is_update_payload_tag, parse_update_instruction,
    update_instruction_round_trip, update_signatures_wf, UpdateInstruction,
    UpdateInstructionView,
};
use crate::wire::{
    and_next, error_at, has_at, lemma_has_at_concat, lemma_has_at_whole, lemma_parse_fixed,
    lemma_parse_u8, parse_fixed, parse_u8, put_bytes, put_u8, read_fixed, read_u8, ParseError,
    ParseErrorKind, ParseResult, Parsed,
};

verus! {

/// The message that deploys a credential and so creates an account, in its
/// encoded form, which is not looked into here.
#[derive(Debug, Clone, PartialEq, Eq)]
pub struct AccountCredentialMessage {
    pub bytes: Vec<u8>,
}

/// A block item: a message that a user sends to the chain.
#[derive(Debug, Clone, PartialEq, Eq)]
pub enum BlockItem<PayloadType> {
    /// A transaction that is signed and paid for by an account.
    AccountTransaction(AccountTransaction<PayloadType>),
    /// The deployment of a credential, which creates an account. The sender
    /// does not pay for it.
    CredentialDeployment(Box<AccountCredentialMessage>),
    /// An instruction to update a parameter of the chain.
    UpdateInstruction(UpdateInstruction),
}

/// The mathematical content of a block item whose transactions carry their
/// payload in bytes.
pub enum BlockItemView {
    AccountTransaction(AccountTransactionView<Seq<u8>>),
    CredentialDeployment(Seq<u8>),
    UpdateInstruction(UpdateInstructionView),
}

impl<P: PayloadLike> BlockItem<P> {
    /// The block item with the payload of a transaction as it is
    /// transmitted.
    pub open spec fn encoded_view(&self) -> BlockItemView {
        match self {
            BlockItem::AccountTransaction(t) => BlockItemView::AccountTransaction(
                AccountTransactionView {
                    signature: t.signature@,
                    header: t.header@,
                    payload: t.payload.encoding(),
                },
            ),
            BlockItem::CredentialDeployment(c) => BlockItemView::CredentialDeployment(c.bytes@),
            BlockItem::UpdateInstruction(u) => BlockItemView::UpdateInstruction(u@),
        }
    }
}

impl<P> From<AccountTransaction<P>> for BlockItem<P> {
    fn from(transaction: AccountTransaction<P>) -> (item: BlockItem<P>) {
        BlockItem::AccountTransaction(transaction)
    }
}

impl<P> vstd::std_specs::convert::FromSpecImpl<AccountTransaction<P>> for BlockItem<P> {
    open spec fn obeys_from_spec() -> bool {
        true
    }

    open spec fn from_spec(transaction: AccountTransaction<P>) -> BlockItem<P> {
        BlockItem::AccountTransaction(transaction)
    }
}

impl<P> From<AccountCredentialMessage> for BlockItem<P> {
    fn from(message: AccountCredentialMessage) -> (item: BlockItem<P>) {
        BlockItem::CredentialDeployment(Box::new(message))
    }
}

impl<P> vstd::std_specs::convert::FromSpecImpl<AccountCredentialMessage> for BlockItem<P> {
    open spec fn obeys_from_spec() -> bool {
        true
    }

    open spec fn from_spec(message: AccountCredentialMessage) -> BlockItem<P> {
        BlockItem::CredentialDeployment(Box::new(message))
    }
}

impl<P> From<UpdateInstruction> for BlockItem<P> {
    fn from(instruction: UpdateInstruction) -> (item: BlockItem<P>) {
        BlockItem::UpdateInstruction(instruction)
    }
}

impl<P> vstd::std_specs::convert::FromSpecImpl<UpdateInstruction> for BlockItem<P> {
    open spec fn obeys_from_spec() -> bool {
        true
    }

    open spec fn from_spec(instruction: UpdateInstruction) -> BlockItem<P> {
        BlockItem::UpdateInstruction(instruction)
    }
}

impl View for BlockItem<EncodedPayload> {
    type V = BlockItemView;

    open spec fn view(&self) -> BlockItemView {
        self.encoded_view()
    }
}

/// The encoding of a block item: the byte 0, 1 or 2 for its kind, then the
/// encoding of the transaction, the credential deployment or the update
/// instruction.
pub open spec fn enc_block_item(b: BlockItemView) -> Seq<u8> {
    match b {
        BlockItemView::AccountTransaction(t) => seq![0u8] + enc_account_transaction(
            t.signature,
            t.header,
            t.payload,
        ),
        BlockItemView::CredentialDeployment(c) => seq![1u8] + c,
        BlockItemView::UpdateInstruction(u) => seq![2u8] + enc_update_instruction(u),
    }
}

/// A block item at the start of the input. A credential deployment is
/// carried as it is, in as many bytes as `deployment_size` says, which is
/// not looked at for the other kinds. A first byte other than 0, 1 and 2 is
/// an error that names it. What follows the block item in the input is not
/// looked at.
pub open spec fn parse_block_item(s: Seq<u8>, deployment_size: usize) -> Parsed<BlockItemView> {
    and_next(
        parse_u8(s, 0),
        |tag: u8, a1: int|
            if tag == 0 {
                and_next(
                    parse_account_transaction(s, a1),
                    |t: AccountTransactionView<Seq<u8>>, a2: int|
                        Ok::<_, ParseError>((BlockItemView::AccountTransaction(t), a2)),
                )
            } else if tag == 1 {
                and_next(
                    parse_fixed(s, a1, deployment_size as int),
                    |c: Seq<u8>, a2: int|
                        Ok::<_, ParseError>((BlockItemView::CredentialDeployment(c), a2)),
                )
            } else if tag == 2 {
                and_next(
                    parse_update_instruction(s, a1),
                    |u: UpdateInstructionView, a2: int|
                        Ok::<_, ParseError>((BlockItemView::UpdateInstruction(u), a2)),
                )
            } else {
                error_at(ParseErrorKind::UnsupportedBlockItemTag { tag }, 0)
            },
    )
}

impl<P: PayloadLike> BlockItem<P> {
    /// Appends the encoding of the block item.
    pub fn serial(&self, out: &mut Vec<u8>)
        ensures
            final(out)@ == old(out)@ + enc_block_item(self.encoded_view()),
    {
        match self {
            BlockItem::AccountTransaction(t) => {
                put_u8(out, 0);
                t.serial(out);
            },
            BlockItem::CredentialDeployment(c) => {
                put_u8(out, 1);
                put_bytes(out, c.bytes.as_slice());
            },
            BlockItem::UpdateInstruction(u) => {
                put_u8(out, 2);
                u.serial(out);
            },
        }
        assert(out@ =~= old(out)@ + enc_block_item(self.encoded_view()));
    }

    /// Computes the hash that identifies the block item on the chain: the
    /// SHA-256 digest of its whole encoding, signatures included.
    pub fn hash(&self) -> (hash: TransactionHash)
        ensures
            hash@ == spec_sha256(enc_block_item(self.encoded_view())),
    {
        let mut buffer: Vec<u8> = Vec::new();
        self.serial(&mut buffer);
        assert(buffer@ =~= enc_block_item(self.encoded_view()));
        HashBytes { bytes: sha256(buffer.as_slice()) }
    }

    /// The bytes in which the block item is submitted to a node: the byte 0
    /// for the version of the format, then the encoding of the block item.
    pub fn versioned_bytes(&self) -> (bytes: Vec<u8>)
        ensures
            bytes@ == seq![0u8] + enc_block_item(self.encoded_view()),
    {
        let mut bytes: Vec<u8> = Vec::new();
        put_u8(&mut bytes, 0);
        self.serial(&mut bytes);
        assert(bytes@ =~= seq![0u8] + enc_block_item(self.encoded_view()));
        bytes
    }
}

impl BlockItem<EncodedPayload> {
    /// Reads a block item at the start of the input, and leaves the payload
    /// of a transaction in its bytes. A credential deployment is read in as
    /// many bytes as `deployment_size` says, which the other kinds do not
    /// look at. A first byte that stands for no kind of block item is an
    /// error.
    pub fn deserial(src: &[u8], deployment_size: usize) -> (r: ParseResult<
        BlockItem<EncodedPayload>,
    >)
        ensures
            match r {
                Ok(p) => parse_block_item(src@, deployment_size) == Ok::<_, ParseError>(
                    (p.0@, p.1 as int),
                ) && p.1 <= src.len(),
                Err(e) => parse_block_item(src@, deployment_size) == Err::<
                    (BlockItemView, int),
                    _,
                >(e),
            },
    {
        let (tag, a1) = read_u8(src, 0)?;
        match tag {
            0 => {
                let (t, a2) = AccountTransaction::<EncodedPayload>::deserial(src, a1)?;
                Ok((BlockItem::AccountTransaction(t), a2))
            },
            1 => {
                let (bytes, a2) = read_fixed(src, a1, deployment_size)?;
                Ok(
                    (
                        BlockItem::CredentialDeployment(Box::new(AccountCredentialMessage { bytes })),
                        a2,
                    ),
                )
            },
            2 => {
                let (u, a2) = UpdateInstruction::deserial(src, a1)?;
                Ok((BlockItem::UpdateInstruction(u), a2))
            },
            _ => Err(ParseError { kind: ParseErrorKind::UnsupportedBlockItemTag { tag }, at: 0 }),
        }
    }
}

impl BlockItemView {
    /// What the block item wraps is well formed: a transaction has a
    /// well-formed signature and a valid header that gives the size of its
    /// payload, the size of a credential deployment fits a machine word,
    /// and an update instruction is of a known kind, has well-formed
    /// signatures and a header that gives the size of its payload.
    pub open spec fn wf(self) -> bool {
        match self {
            BlockItemView::AccountTransaction(t) => {
                &&& transaction_signature_wf(t.signature)
                &&& t.header.wf()
                &&& t.payload.len() == t.header.payload_size
            },
            BlockItemView::CredentialDeployment(c) => c.len() <= usize::MAX,
            BlockItemView::UpdateInstruction(u) => {
                &&& is_update_payload_tag(u.payload.tag)
                &&& update_signatures_wf(u.signatures)
                &&& u.header.payload_size <= MAX_PAYLOAD_SIZE
                &&& enc_update_payload(u.payload).len() == u.header.payload_size
            },
        }
    }

    /// The size of the credential deployment that the block item is, and 0
    /// for the other kinds.
    pub open spec fn deployment_size(self) -> usize {
        match self {
            BlockItemView::CredentialDeployment(c) => c.len() as usize,
            _ => 0,
        }
    }
}

/// A well-formed block item is parsed from every input that starts with its
/// encoding, whatever follows: the result is the block item, and what was
/// taken is its encoding and no more.
pub proof fn lemma_parse_block_item(s: Seq<u8>, b: BlockItemView)
    requires
        b.wf(),
        has_at(s, 0, enc_block_item(b)),
    ensures
        parse_block_item(s, b.deployment_size()) == Ok::<_, ParseError>(
            (b, enc_block_item(b).len() as int),
        ),
{
    match b {
        BlockItemView::AccountTransaction(t) => {
            let inner = enc_account_transaction(t.signature, t.header, t.payload);
            lemma_has_at_concat(s, 0, seq![0u8], inner);
            lemma_parse_u8(s, 0, 0u8);
            account_transaction_round_trip(s, 1, t);
        },
        BlockItemView::CredentialDeployment(c) => {
            lemma_has_at_concat(s, 0, seq![1u8], c);
            lemma_parse_u8(s, 0, 1u8);
            lemma_parse_fixed(s, 1, c);
        },
        BlockItemView::UpdateInstruction(u) => {
            lemma_has_at_concat(s, 0, seq![2u8], enc_update_instruction(u));
            lemma_parse_u8(s, 0, 2u8);
            update_instruction_round_trip(s, 1, u);
        },
    }
}

/// Decoding undoes encoding: the encoding of a well-formed block item is
/// parsed to the block item, and all of it is taken.
pub proof fn block_item_round_trip(b: BlockItemView)
    requires
        b.wf(),
    ensures
        parse_block_item(enc_block_item(b), b.deployment_size()) == Ok::<_, ParseError>(
            (b, enc_block_item(b).len() as int),
        ),
{
    lemma_has_at_whole(enc_block_item(b));
    lemma_parse_block_item(enc_block_item(b), b);
}

/// Bytes behind a block item are left unread: parsing the encoding of a
/// well-formed block item followed by any bytes gives the block item and
/// takes its encoding, no more and no less.
pub proof fn block_item_round_trip_before_more(b: BlockItemView, rest: Seq<u8>)
    requires
        b.wf(),
    ensures
        parse_block_item(enc_block_item(b) + rest, b.deployment_size()) == Ok::<_, ParseError>(
            (b, enc_block_item(b).len() as int),
        ),
{
    let s = enc_block_item(b) + rest;
    assert(s.subrange(0, enc_block_item(b).len() as int) =~= enc_block_item(b));
    lemma_parse_block_item(s, b);
}

/// No unknown kind of block item is ever decoded: an input whose first byte
/// is not 0, 1 or 2 is refused with an error that names the byte.
pub proof fn unknown_block_item_tag_is_refused(s: Seq<u8>, deployment_size: usize)
    requires
        s.len() >= 1,
        s[0] > 2,
    ensures
        parse_block_item(s, deployment_size) == Err::<(BlockItemView, int), _>(
            ParseError { kind: ParseErrorKind::UnsupportedBlockItemTag { tag: s[0] }, at: 0 },
        ),
{
}

/// The bytes in which an account transaction is submitted to a node, given
/// its signatures and its body: the byte 0 for the version of the format,
/// the byte 0 for the kind of block item, the signatures, and the body,
/// which is the header and the payload.
pub open spec fn raw_account_transaction_bytes(
    signatures: Seq<(u8, Seq<(u8, Seq<u8>)>)>,
    body: Seq<u8>,
) -> Seq<u8> {
    seq![0u8, 0u8] + enc_transaction_signature(signatures) + body
}

/// What is sent for an account transaction that someone else has built,
/// together with the hash under which the chain will know it.
pub struct RawAccountTransaction {
    /// The bytes to submit.
    pub data: Vec<u8>,
    /// The hash that identifies the transaction.
    pub hash: TransactionHash,
}

/// Puts together the bytes in which an account transaction is submitted,
/// from its signatures and its body, and computes the hash under which its
/// status can be asked for: the SHA-256 digest of all these bytes. Nothing
/// is decoded.
pub fn raw_account_transaction(signatures: &TransactionSignature, body: &[u8]) -> (raw:
    RawAccountTransaction)
    ensures
        raw.data@ == raw_account_transaction_bytes(signatures@, body@),
        raw.hash@ == spec_sha256(raw.data@),
{
    let mut data: Vec<u8> = Vec::new();
    put_u8(&mut data, 0);
    put_u8(&mut data, 0);
    signatures.serial(&mut data);
    put_bytes(&mut data, body);
    assert(data@ =~= raw_account_transaction_bytes(signatures@, body@));
    let hash = HashBytes { bytes: sha256(data.as_slice()) };
    RawAccountTransaction { data, hash }
}

} // verus!
