use concordium_rust_sdk::types::basic::{
    AccountAddress, AccountThreshold, Amount, Energy, HashBytes, Nonce, RegisteredData,
    SignatureThreshold, TransactionTime,
};
use concordium_rust_sdk::types::index_map::IndexMap;
use concordium_rust_sdk::types::keys::{CredentialPublicKeys, KeyPair, Signature};
use concordium_rust_sdk::types::transactions::account::AccountTransaction;
use concordium_rust_sdk::types::transactions::construct::PreAccountTransaction;
use concordium_rust_sdk::types::transactions::header::{
    compute_transaction_sign_hash, get_encoded_payload, EncodedPayload, PayloadLike, PayloadSize,
    TransactionHeader, TRANSACTION_HEADER_SIZE,
};
use concordium_rust_sdk::types::transactions::payload::Payload;
use concordium_rust_sdk::types::transactions::signature::TransactionSignature;
use concordium_rust_sdk::types::transactions::signing::{
    sign_transaction, AccountKeyMap, TransactionSigner,
};
use concordium_rust_sdk::types::transactions::verify::AccountAccessStructure;
use concordium_rust_sdk::wire::{ParseError, ParseErrorKind};

fn unhex(s: &str) -> Vec<u8> {
    (0..s.len() / 2).map(|i| u8::from_str_radix(&s[2 * i..2 * i + 2], 16).unwrap()).collect()
}

fn header() -> TransactionHeader {
    TransactionHeader {
        sender: AccountAddress { bytes: [7; 32] },
        nonce: Nonce { nonce: 1 },
        energy_amount: Energy { energy: 501 },
        payload_size: PayloadSize { size: 41 },
        expiry: TransactionTime { seconds: 1_700_000_000 },
    }
}

fn transfer() -> Payload {
    Payload::Transfer {
        to_address: AccountAddress { bytes: [9; 32] },
        amount: Amount { micro_ccd: 100 },
    }
}

fn keys() -> AccountKeyMap {
    let mut keys: AccountKeyMap = IndexMap::new();
    let mut first = IndexMap::new();
    first.insert(0, KeyPair::from_secret([1; 32]));
    first.insert(1, KeyPair::from_secret([2; 32]));
    keys.insert(0, first);
    let mut second = IndexMap::new();
    second.insert(4, KeyPair::from_secret([3; 32]));
    keys.insert(2, second);
    keys
}

fn access(keys: &AccountKeyMap) -> AccountAccessStructure {
    let mut pub_keys = IndexMap::new();
    for (ci, cred) in keys.map.iter() {
        let mut verify_keys = IndexMap::new();
        for (ki, kp) in cred.map.iter() {
            verify_keys.insert(*ki, kp.verify_key());
        }
        pub_keys.insert(
            *ci,
            CredentialPublicKeys { keys: verify_keys, threshold: SignatureThreshold { threshold: 1 } },
        );
    }
    AccountAccessStructure { threshold: AccountThreshold { threshold: 2 }, keys: pub_keys }
}

#[test]
fn header_is_sixty_bytes_in_field_order() {
    let mut out = Vec::new();
    header().serial(&mut out);
    assert_eq!(out.len(), 60);
    assert_eq!(TRANSACTION_HEADER_SIZE, 60);
    assert_eq!(
        out,
        unhex("0707070707070707070707070707070707070707070707070707070707070707000000000000000100000000000001f500000029000000006553f100")
    );
    assert_eq!(&out[..32], &[7; 32]);
    assert_eq!(&out[32..40], &[0, 0, 0, 0, 0, 0, 0, 1]);
    assert_eq!(&out[40..48], &[0, 0, 0, 0, 0, 0, 1, 0xf5]);
    assert_eq!(&out[48..52], &[0, 0, 0, 41]);
    assert_eq!(&out[52..60], &1_700_000_000u64.to_be_bytes());
    assert_eq!(TransactionHeader::deserial(&out, 0), Ok((header(), 60)));
    let mut shifted = vec![0xee, 0xee, 0xee];
    header().serial(&mut shifted);
    assert_eq!(TransactionHeader::deserial(&shifted, 3), Ok((header(), 63)));
}

#[test]
fn header_with_too_large_payload_is_refused() {
    let mut h = header();
    h.payload_size = PayloadSize { size: 102_400 };
    let mut out = Vec::new();
    h.serial(&mut out);
    assert_eq!(TransactionHeader::deserial(&out, 0), Ok((h, 60)));

    h.payload_size = PayloadSize { size: 102_401 };
    let mut out = Vec::new();
    h.serial(&mut out);
    assert_eq!(
        TransactionHeader::deserial(&out, 0),
        Err(ParseError { kind: ParseErrorKind::PayloadTooLarge { size: 102_401 }, at: 48 })
    );
    assert_eq!(
        PayloadSize::deserial(&[0, 1, 0x90, 1], 0),
        Err(ParseError { kind: ParseErrorKind::PayloadTooLarge { size: 102_401 }, at: 0 })
    );
    assert_eq!(PayloadSize::deserial(&[0, 1, 0x90, 0], 0), Ok((PayloadSize { size: 102_400 }, 4)));
}

#[test]
fn truncated_header_is_refused() {
    let mut out = Vec::new();
    header().serial(&mut out);
    for cut in 0..60 {
        let r = TransactionHeader::deserial(&out[..cut], 0);
        assert!(matches!(
            r,
            Err(ParseError { kind: ParseErrorKind::UnexpectedEnd { .. }, .. })
        ));
    }
}

#[test]
fn sign_hash_is_the_digest_of_header_and_payload() {
    let expected = unhex("96ce69cb51b415fb0223fe452b2304b4da3a9a7e3d975c09db55c858935bbe13");
    let hash = compute_transaction_sign_hash(&header(), &transfer());
    assert_eq!(hash.bytes.to_vec(), expected);
    // The bytes are what counts, not what they were encoded from.
    let encoded = transfer().encode();
    assert_eq!(compute_transaction_sign_hash(&header(), &encoded), hash);
    // And the same bytes give the same hash again.
    assert_eq!(compute_transaction_sign_hash(&header(), &transfer()), hash);
}

#[test]
fn sign_hash_changes_with_every_byte() {
    let hash = compute_transaction_sign_hash(&header(), &transfer());
    let bytes = transfer().encode().payload;
    for i in 0..bytes.len() {
        let mut other = bytes.clone();
        other[i] ^= 1;
        let changed = compute_transaction_sign_hash(&header(), &EncodedPayload { payload: other });
        assert_ne!(changed, hash);
        if i == 40 {
            assert_eq!(
                changed.bytes.to_vec(),
                unhex("68d2d8ec4dabb2e8785a8ee90b916c06cb4e41e25aded833620292f722fac03a")
            );
        }
    }
    let mut header_bytes = Vec::new();
    header().serial(&mut header_bytes);
    for i in 0..60 {
        let mut other = header_bytes.clone();
        other[i] ^= 1;
        // Put the changed bytes back into a header, where they still make one.
        if let Ok((h, _)) = TransactionHeader::deserial(&other, 0) {
            assert_ne!(compute_transaction_sign_hash(&h, &transfer()), hash);
        }
    }
    let mut h = header();
    h.energy_amount = Energy { energy: 502 };
    assert_ne!(compute_transaction_sign_hash(&h, &transfer()), hash);
}

#[test]
fn signing_a_transaction_signs_its_sign_hash() {
    let keys = keys();
    let transaction = sign_transaction(&keys, header(), transfer());
    assert_eq!(transaction.header, header());
    assert_eq!(transaction.payload, transfer());
    let hash = compute_transaction_sign_hash(&header(), &transfer());
    assert_eq!(transaction.signature, keys.sign_transaction_hash(&hash));
    assert!(transaction.verify_transaction_signature(&access(&keys)));

    // Any change of the header or of the payload breaks the signature.
    let mut changed = transaction.clone();
    changed.header.energy_amount = Energy { energy: 502 };
    assert!(!changed.verify_transaction_signature(&access(&keys)));
    let mut changed = transaction.clone();
    changed.payload = Payload::Transfer {
        to_address: AccountAddress { bytes: [9; 32] },
        amount: Amount { micro_ccd: 101 },
    };
    assert!(!changed.verify_transaction_signature(&access(&keys)));
    // The signature itself is not part of what is signed.
    let encoded = sign_transaction(&keys, header(), transfer().encode());
    assert_eq!(encoded.signature, transaction.signature);
    assert!(encoded.verify_transaction_signature(&access(&keys)));
}

#[test]
fn account_transaction_round_trip() {
    let keys = keys();
    let transaction = sign_transaction(&keys, header(), transfer().encode());
    let mut out = vec![0xaa];
    transaction.serial(&mut out);

    // The signature: 2 credentials; 0 with keys 0 and 1, 2 with key 4.
    assert_eq!(out[0], 0xaa);
    assert_eq!(&out[1..4], &[2, 0, 2]);
    assert_eq!(&out[4..7], &[0, 0, 64]);
    let sig_len = 1 + (1 + 1 + 2 * (1 + 2 + 64)) + (1 + 1 + (1 + 2 + 64));
    assert_eq!(out.len(), 1 + sig_len + 60 + 41);
    assert_eq!(&out[1 + sig_len..1 + sig_len + 32], &[7; 32]);
    assert_eq!(out[1 + sig_len + 60], 3);

    let (read, next) = AccountTransaction::<EncodedPayload>::deserial(&out, 1).unwrap();
    assert_eq!(read, transaction);
    assert_eq!(next, out.len());
    let (decoded, next) = AccountTransaction::<Payload>::deserial(&out, 1, &[]).unwrap();
    assert_eq!(next, out.len());
    assert_eq!(decoded.payload, transfer());
    assert_eq!(decoded.header, header());
    assert_eq!(decoded.signature, transaction.signature);
    assert!(decoded.verify_transaction_signature(&access(&keys)));
    // The decoded transaction encodes to the same bytes.
    let mut again = vec![0xaa];
    decoded.serial(&mut again);
    assert_eq!(again, out);
}

#[test]
fn declared_payload_size_must_match() {
    let empty = TransactionSignature { signatures: IndexMap::new() };
    // The header says 10 bytes, and the payload that they hold takes 10.
    let payload = Payload::RegisterData { data: RegisteredData { bytes: vec![7; 7] } };
    let mut h = header();
    h.payload_size = PayloadSize { size: 10 };
    let transaction =
        AccountTransaction { signature: empty.clone(), header: h, payload: payload.clone() };
    let mut out = Vec::new();
    transaction.serial(&mut out);
    assert_eq!(AccountTransaction::<Payload>::deserial(&out, 0, &[]), Ok((transaction, 71)));

    // The header says 12 bytes, and the payload in them takes 10.
    h.payload_size = PayloadSize { size: 12 };
    let mut bytes = payload.encode().payload;
    bytes.extend_from_slice(&[0, 0]);
    let transaction = AccountTransaction {
        signature: empty.clone(),
        header: h,
        payload: EncodedPayload { payload: bytes },
    };
    let mut out = Vec::new();
    transaction.serial(&mut out);
    assert_eq!(
        AccountTransaction::<EncodedPayload>::deserial(&out, 0),
        Ok((transaction.clone(), 73))
    );
    assert_eq!(
        AccountTransaction::<Payload>::deserial(&out, 0, &[]),
        Err(ParseError { kind: ParseErrorKind::LengthMismatch { remaining: 2 }, at: 10 })
    );
    assert_eq!(
        transaction.payload.decode(&[]),
        Err(ParseError { kind: ParseErrorKind::LengthMismatch { remaining: 2 }, at: 10 })
    );

    // The header says 12 bytes, and 10 are there.
    out.truncate(71);
    assert_eq!(
        AccountTransaction::<EncodedPayload>::deserial(&out, 0),
        Err(ParseError { kind: ParseErrorKind::UnexpectedEnd { needed: 12 }, at: 61 })
    );

    // The header says 8 bytes, which end in the middle of the data.
    h.payload_size = PayloadSize { size: 8 };
    let transaction = AccountTransaction {
        signature: empty,
        header: h,
        payload: EncodedPayload { payload: payload.encode().payload[..8].to_vec() },
    };
    let mut out = Vec::new();
    transaction.serial(&mut out);
    assert_eq!(
        AccountTransaction::<Payload>::deserial(&out, 0, &[]),
        Err(ParseError { kind: ParseErrorKind::UnexpectedEnd { needed: 7 }, at: 3 })
    );
}

#[test]
fn encoded_payload_is_read_by_its_size() {
    let src = [1u8, 2, 3, 4, 5];
    assert_eq!(
        get_encoded_payload(&src, 1, PayloadSize { size: 3 }),
        Ok((EncodedPayload { payload: vec![2, 3, 4] }, 4))
    );
    assert_eq!(
        get_encoded_payload(&src, 5, PayloadSize { size: 0 }),
        Ok((EncodedPayload { payload: vec![] }, 5))
    );
    assert_eq!(
        get_encoded_payload(&src, 3, PayloadSize { size: 3 }),
        Err(ParseError { kind: ParseErrorKind::UnexpectedEnd { needed: 3 }, at: 3 })
    );
}

#[test]
fn transaction_signature_layout_and_order() {
    let mut first = IndexMap::new();
    first.insert(3, Signature { sig: vec![0xa1, 0xa2] });
    first.insert(1, Signature { sig: vec![] });
    let mut second = IndexMap::new();
    second.insert(0, Signature { sig: vec![0xb1] });
    let mut signatures = IndexMap::new();
    signatures.insert(9, second);
    signatures.insert(2, first);
    let signature = TransactionSignature { signatures };
    let mut out = Vec::new();
    signature.serial(&mut out);
    assert_eq!(
        out,
        vec![2, 2, 2, 1, 0, 0, 3, 0, 2, 0xa1, 0xa2, 9, 1, 0, 0, 1, 0xb1]
    );
    assert_eq!(TransactionSignature::deserial(&out, 0), Ok((signature, out.len())));

    let empty = TransactionSignature { signatures: IndexMap::new() };
    let mut out = Vec::new();
    empty.serial(&mut out);
    assert_eq!(out, vec![0]);
    assert_eq!(TransactionSignature::deserial(&out, 0), Ok((empty, 1)));

    // Credentials out of order, and twice the same.
    for second in [1u8, 2] {
        let bytes = [2, 2, 0, second, 0];
        assert_eq!(
            TransactionSignature::deserial(&bytes, 0),
            Err(ParseError { kind: ParseErrorKind::KeysNotInOrder, at: 3 })
        );
    }
    // Keys out of order.
    let bytes = [1, 0, 2, 5, 0, 0, 4, 0, 0];
    assert_eq!(
        TransactionSignature::deserial(&bytes, 0),
        Err(ParseError { kind: ParseErrorKind::KeysNotInOrder, at: 6 })
    );
    // Cut short.
    let bytes = [1, 0, 1, 5, 0, 2, 1];
    assert_eq!(
        TransactionSignature::deserial(&bytes, 0),
        Err(ParseError { kind: ParseErrorKind::UnexpectedEnd { needed: 2 }, at: 6 })
    );
}

#[test]
fn transaction_body_round_trip() {
    let hash = compute_transaction_sign_hash(&header(), &transfer());
    let pre = PreAccountTransaction {
        header: header(),
        payload: transfer(),
        encoded: transfer().encode(),
        hash_to_sign: hash,
    };
    let mut out = vec![1, 2];
    pre.serial(&mut out);
    assert_eq!(out.len(), 2 + 60 + 41);
    assert_eq!(PreAccountTransaction::deserial(&out, 2, &[]), Ok((pre.clone(), 103)));
    // What is read back is hashed anew.
    let (read, _) = PreAccountTransaction::deserial(&out, 2, &[]).unwrap();
    assert_eq!(read.hash_to_sign, HashBytes { bytes: hash.bytes });
    out.push(0);
    assert_eq!(PreAccountTransaction::deserial(&out, 2, &[]), Ok((pre.clone(), 103)));
    out.truncate(100);
    assert_eq!(
        PreAccountTransaction::deserial(&out, 2, &[]),
        Err(ParseError { kind: ParseErrorKind::UnexpectedEnd { needed: 41 }, at: 62 })
    );
    let keys = keys();
    let signed = pre.clone().sign(&keys);
    assert_eq!(signed.header, pre.header);
    assert_eq!(signed.payload, pre.encoded);
    assert_eq!(signed.signature, keys.sign_transaction_hash(&hash));
    assert!(signed.verify_transaction_signature(&access(&keys)));
}
