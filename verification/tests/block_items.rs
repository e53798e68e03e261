use concordium_rust_sdk::types::basic::{
    AccountAddress, Amount, Energy, Nonce, TransactionTime, UpdateSequenceNumber,
};
use concordium_rust_sdk::types::index_map::IndexMap;
use concordium_rust_sdk::types::update_map::UpdateMap;
use concordium_rust_sdk::types::keys::{KeyPair, Signature};
use concordium_rust_sdk::types::transactions::account::AccountTransaction;
use concordium_rust_sdk::types::transactions::block_item::{
    raw_account_transaction, AccountCredentialMessage, BlockItem,
};
use concordium_rust_sdk::types::transactions::header::{
    EncodedPayload, PayloadLike, PayloadSize, TransactionHeader,
};
use concordium_rust_sdk::types::transactions::payload::Payload;
use concordium_rust_sdk::types::transactions::signature::TransactionSignature;
use concordium_rust_sdk::types::transactions::signing::{sign_transaction, AccountKeyMap};
use concordium_rust_sdk::types::transactions::update::{
    UpdateHeader, UpdateInstruction, UpdateInstructionSignature, UpdatePayload,
};
use concordium_rust_sdk::wire::{ParseError, ParseErrorKind};

fn unhex(s: &str) -> Vec<u8> {
    (0..s.len() / 2).map(|i| u8::from_str_radix(&s[2 * i..2 * i + 2], 16).unwrap()).collect()
}

fn header() -> TransactionHeader {
    TransactionHeader {
        sender: AccountAddress { bytes: [7; 32] },
        nonce: Nonce { nonce: 1 },
        energy_amount: Energy { energy: 501 },
        payload_size: PayloadSize { size: 41 },
        expiry: TransactionTime { seconds: 1_700_000_000 },
    }
}

fn transfer() -> Payload {
    Payload::Transfer {
        to_address: AccountAddress { bytes: [9; 32] },
        amount: Amount { micro_ccd: 100 },
    }
}

fn unsigned() -> AccountTransaction<EncodedPayload> {
    AccountTransaction {
        signature: TransactionSignature { signatures: IndexMap::new() },
        header: header(),
        payload: transfer().encode(),
    }
}

fn instruction() -> UpdateInstruction {
    UpdateInstruction {
        header: UpdateHeader {
            seq_number: UpdateSequenceNumber { number: 5 },
            effective_time: TransactionTime { seconds: 10 },
            timeout: TransactionTime { seconds: 20 },
            payload_size: PayloadSize { size: 4 },
        },
        payload: UpdatePayload::EuroPerEnergy(vec![1, 2, 3]),
        signatures: UpdateInstructionSignature {
            signatures: UpdateMap::from_increasing(vec![(1, Signature { sig: vec![0xa1] })]),
        },
    }
}

#[test]
fn block_items_are_tagged_0_1_2() {
    let item: BlockItem<EncodedPayload> = BlockItem::from(unsigned());
    let mut out = Vec::new();
    item.serial(&mut out);
    let mut inner = Vec::new();
    unsigned().serial(&mut inner);
    assert_eq!(out[0], 0);
    assert_eq!(&out[1..], &inner[..]);
    assert_eq!(BlockItem::deserial(&out, 0), Ok((item.clone(), out.len())));
    assert_eq!(item, BlockItem::AccountTransaction(unsigned()));

    let message = AccountCredentialMessage { bytes: vec![1, 2, 3] };
    let item: BlockItem<EncodedPayload> = BlockItem::from(message.clone());
    let mut out = Vec::new();
    item.serial(&mut out);
    assert_eq!(out, vec![1, 1, 2, 3]);
    assert_eq!(BlockItem::deserial(&out, 3), Ok((item.clone(), 4)));
    // What follows the deployment is left unread, and a deployment that is
    // cut short is refused.
    let mut more = out.clone();
    more.extend_from_slice(&[9, 9]);
    assert_eq!(BlockItem::deserial(&more, 3), Ok((item.clone(), 4)));
    assert_eq!(
        BlockItem::deserial(&out[..3], 3),
        Err(ParseError { kind: ParseErrorKind::UnexpectedEnd { needed: 3 }, at: 1 })
    );
    assert_eq!(item, BlockItem::CredentialDeployment(Box::new(message)));

    let item: BlockItem<EncodedPayload> = BlockItem::from(instruction());
    let mut out = Vec::new();
    item.serial(&mut out);
    let mut inner = Vec::new();
    instruction().serial(&mut inner);
    assert_eq!(out[0], 2);
    assert_eq!(&out[1..], &inner[..]);
    assert_eq!(BlockItem::deserial(&out, 0), Ok((item.clone(), out.len())));
    assert_eq!(item, BlockItem::UpdateInstruction(instruction()));
}

#[test]
fn unknown_block_item_tags_are_refused() {
    for tag in 3..=255u8 {
        let mut bytes = vec![tag];
        bytes.extend_from_slice(&[0; 100]);
        assert_eq!(
            BlockItem::deserial(&bytes, 0),
            Err(ParseError { kind: ParseErrorKind::UnsupportedBlockItemTag { tag }, at: 0 })
        );
    }
    assert_eq!(
        BlockItem::deserial(&[], 0),
        Err(ParseError { kind: ParseErrorKind::UnexpectedEnd { needed: 1 }, at: 0 })
    );
    // An update instruction without signatures, wrapped.
    let mut none = instruction();
    none.signatures.signatures.map.clear();
    let item: BlockItem<EncodedPayload> = BlockItem::from(none);
    let mut out = Vec::new();
    item.serial(&mut out);
    assert_eq!(
        BlockItem::deserial(&out, 0),
        Err(ParseError { kind: ParseErrorKind::NoSignatures, at: 33 })
    );
}

#[test]
fn block_item_hash_is_the_digest_of_its_bytes() {
    let item: BlockItem<EncodedPayload> =
        BlockItem::from(AccountCredentialMessage { bytes: vec![1, 2, 3] });
    assert_eq!(
        item.hash().bytes.to_vec(),
        unhex("9184abd2bb318731d717e972057240eae26cca202a8d35dbe9d2176f526886a0")
    );
    let item: BlockItem<EncodedPayload> = BlockItem::from(unsigned());
    assert_eq!(
        item.hash().bytes.to_vec(),
        unhex("b719644a4476dca9cc890404ef1307587655a1c475456f22d0bbadb151da88ea")
    );
    // With the payload decoded the bytes are the same, and so is the hash.
    let decoded: BlockItem<Payload> = BlockItem::from(AccountTransaction {
        signature: TransactionSignature { signatures: IndexMap::new() },
        header: header(),
        payload: transfer(),
    });
    assert_eq!(decoded.hash(), item.hash());
    // The signatures are part of what is hashed.
    let mut keys: AccountKeyMap = IndexMap::new();
    let mut cred = IndexMap::new();
    cred.insert(0, KeyPair::from_secret([1; 32]));
    keys.insert(0, cred);
    let signed: BlockItem<EncodedPayload> =
        BlockItem::from(sign_transaction(&keys, header(), transfer().encode()));
    assert_ne!(signed.hash(), item.hash());
}

#[test]
fn versioned_bytes_start_with_the_version() {
    let item: BlockItem<EncodedPayload> = BlockItem::from(unsigned());
    let mut out = Vec::new();
    item.serial(&mut out);
    let versioned = item.versioned_bytes();
    assert_eq!(versioned[0], 0);
    assert_eq!(&versioned[1..], &out[..]);
}

#[test]
fn raw_account_transaction_bytes_and_hash() {
    let mut body = Vec::new();
    header().serial(&mut body);
    transfer().encode_to_buffer(&mut body);
    let raw = raw_account_transaction(&TransactionSignature { signatures: IndexMap::new() }, &body);
    let mut expected = vec![0u8, 0, 0];
    expected.extend_from_slice(&body);
    assert_eq!(raw.data, expected);
    assert_eq!(
        raw.hash.bytes.to_vec(),
        unhex("3b0c89c9be0254b55eb0abdac4c4455a81c9c01ba13ba1b080321a9c75f93feb")
    );
    // It is the versioned block item of the same transaction.
    let item: BlockItem<EncodedPayload> = BlockItem::from(unsigned());
    assert_eq!(raw.data, item.versioned_bytes());

    let mut keys: AccountKeyMap = IndexMap::new();
    let mut cred = IndexMap::new();
    cred.insert(0, KeyPair::from_secret([1; 32]));
    keys.insert(0, cred);
    let signed = sign_transaction(&keys, header(), transfer().encode());
    let raw = raw_account_transaction(&signed.signature, &body);
    let item: BlockItem<EncodedPayload> = BlockItem::from(signed);
    assert_eq!(raw.data, item.versioned_bytes());
    assert_eq!(BlockItem::deserial(&raw.data[1..], 0), Ok((item, raw.data.len() - 1)));
}
