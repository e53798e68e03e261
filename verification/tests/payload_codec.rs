use concordium_rust_sdk::types::basic::{
    AccountAddress, AccountThreshold, Amount, ContractAddress, CredentialRegistrationID, Memo,
    RegisteredData, SignatureThreshold, Timestamp,
};
use concordium_rust_sdk::types::index_map::IndexMap;
use concordium_rust_sdk::types::keys::{CredentialPublicKeys, VerifyKey};
use concordium_rust_sdk::types::smart_contracts::{
    InitName, ModuleRef, ModuleSource, Parameter, ReceiveName, WasmModule,
};
use concordium_rust_sdk::types::transactions::header::{EncodedPayload, PayloadLike};
use concordium_rust_sdk::types::transactions::payload::{
    AddBakerPayload, BakerKeysPayload, CredentialDeploymentInfo, EncryptedAmountTransferData,
    InitContractPayload, Payload, SecToPubAmountTransferData, UpdateContractPayload,
};
use concordium_rust_sdk::wire::{ParseError, ParseErrorKind};
use std::marker::PhantomData;

fn index_map<V>(entries: Vec<(u8, V)>) -> IndexMap<V> {
    IndexMap { map: entries.into_iter().collect() }
}

fn address(b: u8) -> AccountAddress {
    AccountAddress { bytes: [b; 32] }
}

fn baker_keys<V>() -> BakerKeysPayload<V> {
    BakerKeysPayload {
        phantom: PhantomData,
        election_verify_key: [1; 32],
        signature_verify_key: [2; 32],
        aggregation_verify_key: [3; 96],
        proof_sig: [4; 64],
        proof_election: [5; 64],
        proof_aggregation: [6; 64],
    }
}

fn credential_keys() -> CredentialPublicKeys {
    CredentialPublicKeys {
        keys: index_map(vec![
            (0, VerifyKey::Ed25519VerifyKey([10; 32])),
            (3, VerifyKey::Ed25519VerifyKey([11; 32])),
            (255, VerifyKey::Ed25519VerifyKey([12; 32])),
        ]),
        threshold: SignatureThreshold { threshold: 2 },
    }
}

fn schedule() -> Vec<(Timestamp, Amount)> {
    vec![
        (Timestamp { millis: 1_000 }, Amount { micro_ccd: 5 }),
        (Timestamp { millis: 2_000 }, Amount { micro_ccd: 6 }),
        (Timestamp { millis: u64::MAX }, Amount { micro_ccd: u64::MAX }),
    ]
}

/// One payload of each kind, with the sizes of the credentials it adds.
fn one_of_each() -> Vec<(Payload, Vec<usize>)> {
    let none = Vec::new;
    vec![
        (
            Payload::DeployModule {
                module: WasmModule { version: 0, source: ModuleSource { bytes: vec![0, 97, 115, 109] } },
            },
            none(),
        ),
        (
            Payload::InitContract {
                payload: InitContractPayload {
                    amount: Amount { micro_ccd: 17 },
                    mod_ref: ModuleRef { bytes: [8; 32] },
                    init_name: InitName { name: b"init_counter".to_vec() },
                    param: Parameter { bytes: vec![1, 2, 3] },
                },
            },
            none(),
        ),
        (
            Payload::Update {
                payload: UpdateContractPayload {
                    amount: Amount { micro_ccd: 0 },
                    address: ContractAddress { index: 12, subindex: 1 },
                    receive_name: ReceiveName { name: b"counter.inc".to_vec() },
                    message: Parameter { bytes: vec![] },
                },
            },
            none(),
        ),
        (Payload::Transfer { to_address: address(9), amount: Amount { micro_ccd: 100 } }, none()),
        (
            Payload::AddBaker {
                payload: Box::new(AddBakerPayload {
                    keys: baker_keys(),
                    baking_stake: Amount { micro_ccd: 1_000_000 },
                    restake_earnings: true,
                }),
            },
            none(),
        ),
        (Payload::RemoveBaker, none()),
        (Payload::UpdateBakerStake { stake: Amount { micro_ccd: 77 } }, none()),
        (Payload::UpdateBakerRestakeEarnings { restake_earnings: false }, none()),
        (Payload::UpdateBakerKeys { payload: Box::new(baker_keys()) }, none()),
        (
            Payload::UpdateCredentialKeys {
                cred_id: CredentialRegistrationID { bytes: [13; 48] },
                keys: credential_keys(),
            },
            none(),
        ),
        (
            Payload::EncryptedAmountTransfer {
                to: address(1),
                data: Box::new(EncryptedAmountTransferData { bytes: vec![21, 22, 23, 24, 25] }),
            },
            vec![5],
        ),
        (Payload::TransferToEncrypted { amount: Amount { micro_ccd: u64::MAX } }, none()),
        (
            Payload::TransferToPublic {
                data: Box::new(SecToPubAmountTransferData { bytes: vec![31, 32, 33] }),
            },
            vec![3],
        ),
        (Payload::TransferWithSchedule { to: address(2), schedule: schedule() }, none()),
        (
            Payload::UpdateCredentials {
                new_cred_infos: index_map(vec![
                    (1, CredentialDeploymentInfo { bytes: vec![41, 42, 43] }),
                    (4, CredentialDeploymentInfo { bytes: vec![] }),
                    (9, CredentialDeploymentInfo { bytes: vec![44; 70] }),
                ]),
                remove_cred_ids: vec![
                    CredentialRegistrationID { bytes: [14; 48] },
                    CredentialRegistrationID { bytes: [15; 48] },
                ],
                new_threshold: AccountThreshold { threshold: 2 },
            },
            vec![3, 0, 70],
        ),
        (Payload::RegisterData { data: RegisteredData { bytes: vec![7; 7] } }, none()),
        (
            Payload::TransferWithMemo {
                to_address: address(3),
                memo: Memo { bytes: b"thanks".to_vec() },
                amount: Amount { micro_ccd: 1 },
            },
            none(),
        ),
        (
            Payload::EncryptedAmountTransferWithMemo {
                to: address(4),
                memo: Memo { bytes: vec![] },
                data: Box::new(EncryptedAmountTransferData { bytes: vec![51; 300] }),
            },
            vec![300],
        ),
        (
            Payload::TransferWithScheduleAndMemo {
                to: address(5),
                memo: Memo { bytes: vec![0xff; 256] },
                schedule: schedule(),
            },
            none(),
        ),
    ]
}

#[test]
fn every_kind_of_payload_decodes_to_itself() {
    let all = one_of_each();
    assert_eq!(all.len(), 19);
    for (payload, sizes) in all {
        assert!(payload.is_valid(), "{:?}", payload);
        let encoded = payload.encode();
        let (decoded, consumed) = Payload::deserial(&encoded.payload, &sizes).unwrap();
        assert_eq!(decoded, payload);
        assert!(decoded.is_valid());
        assert_eq!(payload.carried_sizes(), sizes);
        assert_eq!(consumed, encoded.payload.len());
        assert_eq!(encoded.decode(&sizes), Ok(payload.clone()));
        // What is decoded encodes to the same bytes.
        assert_eq!(decoded.encode(), encoded);
    }
}

#[test]
fn every_kind_of_payload_has_its_discriminant() {
    let tags: Vec<u8> = one_of_each().iter().map(|(p, _)| p.tag()).collect();
    assert_eq!(tags, vec![0, 1, 2, 3, 4, 5, 6, 7, 8, 13, 16, 17, 18, 19, 20, 21, 22, 23, 24]);
    for (payload, _) in one_of_each() {
        assert_eq!(payload.encode().payload[0], payload.tag());
    }
}

#[test]
fn encoding_appends_to_the_buffer() {
    for (payload, _) in one_of_each() {
        let mut out = vec![0xaa, 0xbb];
        payload.encode_to_buffer(&mut out);
        assert_eq!(&out[..2], &[0xaa, 0xbb]);
        assert_eq!(&out[2..], &payload.encode().payload[..]);
        let mut out = vec![0xcc];
        payload.serial(&mut out);
        assert_eq!(&out[1..], &payload.encode().payload[..]);
        let mut body = Vec::new();
        payload.serial_body(&mut body);
        assert_eq!(&body[..], &payload.encode().payload[1..]);
    }
}

#[test]
fn transfer_is_tag_address_amount() {
    let payload = Payload::Transfer { to_address: address(9), amount: Amount { micro_ccd: 100 } };
    let mut expected = vec![3u8];
    expected.extend_from_slice(&[9; 32]);
    expected.extend_from_slice(&[0, 0, 0, 0, 0, 0, 0, 100]);
    assert_eq!(payload.encode().payload, expected);
    assert_eq!(expected.len(), 41);
}

#[test]
fn short_payloads_byte_for_byte() {
    assert_eq!(Payload::RemoveBaker.encode().payload, vec![5]);
    assert_eq!(
        Payload::UpdateBakerStake { stake: Amount { micro_ccd: 0x0102 } }.encode().payload,
        vec![6, 0, 0, 0, 0, 0, 0, 1, 2]
    );
    assert_eq!(
        Payload::UpdateBakerRestakeEarnings { restake_earnings: true }.encode().payload,
        vec![7, 1]
    );
    assert_eq!(
        Payload::UpdateBakerRestakeEarnings { restake_earnings: false }.encode().payload,
        vec![7, 0]
    );
    assert_eq!(
        Payload::TransferToEncrypted { amount: Amount { micro_ccd: 1 } }.encode().payload,
        vec![17, 0, 0, 0, 0, 0, 0, 0, 1]
    );
    assert_eq!(
        Payload::TransferToPublic { data: Box::new(SecToPubAmountTransferData { bytes: vec![1, 2] }) }
            .encode()
            .payload,
        vec![18, 1, 2]
    );
    assert_eq!(
        Payload::RegisterData { data: RegisteredData { bytes: vec![5, 6, 7] } }.encode().payload,
        vec![21, 0, 3, 5, 6, 7]
    );
    assert_eq!(
        Payload::DeployModule {
            module: WasmModule { version: 1, source: ModuleSource { bytes: vec![9] } }
        }
        .encode()
        .payload,
        vec![0, 0, 0, 0, 1, 0, 0, 0, 1, 9]
    );
}

#[test]
fn collections_stand_behind_a_one_byte_count() {
    let payload = Payload::TransferWithSchedule {
        to: address(2),
        schedule: vec![
            (Timestamp { millis: 1 }, Amount { micro_ccd: 2 }),
            (Timestamp { millis: 3 }, Amount { micro_ccd: 4 }),
        ],
    };
    let bytes = payload.encode().payload;
    assert_eq!(bytes.len(), 1 + 32 + 1 + 2 * 16);
    assert_eq!(bytes[33], 2);
    assert_eq!(&bytes[34..50], &[0, 0, 0, 0, 0, 0, 0, 1, 0, 0, 0, 0, 0, 0, 0, 2]);
    assert_eq!(&bytes[50..66], &[0, 0, 0, 0, 0, 0, 0, 3, 0, 0, 0, 0, 0, 0, 0, 4]);

    let payload = Payload::UpdateCredentials {
        new_cred_infos: index_map(vec![(7, CredentialDeploymentInfo { bytes: vec![1, 2] })]),
        remove_cred_ids: vec![CredentialRegistrationID { bytes: [3; 48] }],
        new_threshold: AccountThreshold { threshold: 1 },
    };
    let bytes = payload.encode().payload;
    let mut expected = vec![20u8, 1, 7, 1, 2, 1];
    expected.extend_from_slice(&[3; 48]);
    expected.push(1);
    assert_eq!(bytes, expected);

    let payload = Payload::UpdateCredentialKeys {
        cred_id: CredentialRegistrationID { bytes: [13; 48] },
        keys: CredentialPublicKeys {
            keys: index_map(vec![(5, VerifyKey::Ed25519VerifyKey([10; 32]))]),
            threshold: SignatureThreshold { threshold: 1 },
        },
    };
    let bytes = payload.encode().payload;
    let mut expected = vec![13u8];
    expected.extend_from_slice(&[13; 48]);
    expected.extend_from_slice(&[1, 5, 0]);
    expected.extend_from_slice(&[10; 32]);
    expected.push(1);
    assert_eq!(bytes, expected);
}

#[test]
fn baker_payloads_have_their_fixed_sizes() {
    let add = Payload::AddBaker {
        payload: Box::new(AddBakerPayload {
            keys: baker_keys(),
            baking_stake: Amount { micro_ccd: 3 },
            restake_earnings: true,
        }),
    };
    let bytes = add.encode().payload;
    assert_eq!(bytes.len(), 1 + 32 + 32 + 96 + 64 + 64 + 64 + 8 + 1);
    assert_eq!(bytes[0], 4);
    assert_eq!(&bytes[1..33], &[1; 32]);
    assert_eq!(&bytes[33..65], &[2; 32]);
    assert_eq!(&bytes[65..161], &[3; 96]);
    assert_eq!(&bytes[161..225], &[4; 64]);
    assert_eq!(&bytes[225..289], &[5; 64]);
    assert_eq!(&bytes[289..353], &[6; 64]);
    assert_eq!(&bytes[353..361], &[0, 0, 0, 0, 0, 0, 0, 3]);
    assert_eq!(bytes[361], 1);
    let update = Payload::UpdateBakerKeys { payload: Box::new(baker_keys()) };
    assert_eq!(update.encode().payload.len(), 353);
}

#[test]
fn unknown_discriminants_are_refused() {
    let known = [0u8, 1, 2, 3, 4, 5, 6, 7, 8, 13, 16, 17, 18, 19, 20, 21, 22, 23, 24];
    for tag in 0..=255u8 {
        if known.contains(&tag) {
            continue;
        }
        // Whatever follows, and however much of it.
        for rest in [0usize, 1, 41, 400] {
            let mut bytes = vec![tag];
            bytes.extend(std::iter::repeat(0u8).take(rest));
            let expected =
                ParseError { kind: ParseErrorKind::UnsupportedPayloadTag { tag }, at: 0 };
            assert_eq!(Payload::deserial(&bytes, &[]), Err(expected));
            assert_eq!(EncodedPayload { payload: bytes }.decode(&[]), Err(expected));
        }
    }
}

#[test]
fn what_is_decoded_has_the_discriminant_of_the_input() {
    for (payload, sizes) in one_of_each() {
        let bytes = payload.encode().payload;
        let (decoded, _) = Payload::deserial(&bytes, &sizes).unwrap();
        assert_eq!(decoded.tag(), bytes[0]);
    }
}

#[test]
fn empty_input_is_refused() {
    assert_eq!(
        Payload::deserial(&[], &[]),
        Err(ParseError { kind: ParseErrorKind::UnexpectedEnd { needed: 1 }, at: 0 })
    );
}

#[test]
fn truncated_payloads_are_refused() {
    for (payload, sizes) in one_of_each() {
        let bytes = payload.encode().payload;
        // Every strict prefix of an encoding, the empty one included, is an
        // error: the input ends before all fields are read.
        for cut in 0..bytes.len() {
            let r = Payload::deserial(&bytes[..cut], &sizes);
            assert!(r.is_err(), "{:?} cut at {}", payload, cut);
            let e = r.unwrap_err();
            assert!(
                matches!(e.kind, ParseErrorKind::UnexpectedEnd { .. }),
                "{:?} cut at {}: {:?}",
                payload,
                cut,
                e
            );
            assert!(e.at <= cut);
            assert!(EncodedPayload { payload: bytes[..cut].to_vec() }.decode(&sizes).is_err());
        }
    }
}

#[test]
fn bytes_behind_a_payload_are_left_unread() {
    for (payload, sizes) in one_of_each() {
        let bytes = payload.encode().payload;
        for rest in [vec![0u8], vec![0xff, 0xff], vec![7; 100]] {
            let mut longer = bytes.clone();
            longer.extend_from_slice(&rest);
            assert_eq!(Payload::deserial(&longer, &sizes), Ok((payload.clone(), bytes.len())));
        }
    }
}

#[test]
fn carried_data_has_the_size_that_is_handed_over() {
    let data = SecToPubAmountTransferData { bytes: vec![31, 32, 33] };
    let payload = Payload::TransferToPublic { data: Box::new(data) };
    let bytes = payload.encode().payload;
    assert_eq!(bytes, vec![18, 31, 32, 33]);
    assert_eq!(Payload::deserial(&bytes, &[3]), Ok((payload.clone(), 4)));
    // Without a size, or with more than one, nothing is read.
    let needs_one = ParseError { kind: ParseErrorKind::CarriedSizes { needed: 1 }, at: 1 };
    assert_eq!(Payload::deserial(&bytes, &[]), Err(needs_one));
    assert_eq!(Payload::deserial(&bytes, &[1, 2]), Err(needs_one));
    // With a greater size the input is too short.
    assert_eq!(
        Payload::deserial(&bytes, &[4]),
        Err(ParseError { kind: ParseErrorKind::UnexpectedEnd { needed: 4 }, at: 1 })
    );
    // With a lesser size the rest is left over.
    let shorter = Payload::TransferToPublic {
        data: Box::new(SecToPubAmountTransferData { bytes: vec![31, 32] }),
    };
    assert_eq!(Payload::deserial(&bytes, &[2]), Ok((shorter, 3)));
    assert_eq!(
        EncodedPayload { payload: bytes.clone() }.decode(&[2]),
        Err(ParseError { kind: ParseErrorKind::LengthMismatch { remaining: 1 }, at: 3 })
    );
    // The same for the encrypted transfers.
    let payload = Payload::EncryptedAmountTransfer {
        to: address(1),
        data: Box::new(EncryptedAmountTransferData { bytes: vec![1, 2] }),
    };
    let mut bytes = payload.encode().payload;
    assert_eq!(Payload::deserial(&bytes, &[]), Err(ParseError { kind: ParseErrorKind::CarriedSizes { needed: 1 }, at: 33 }));
    bytes.push(9);
    assert_eq!(Payload::deserial(&bytes, &[2]), Ok((payload.clone(), 35)));
    assert_eq!(
        EncodedPayload { payload: bytes }.decode(&[2]),
        Err(ParseError { kind: ParseErrorKind::LengthMismatch { remaining: 1 }, at: 35 })
    );
    let payload = Payload::EncryptedAmountTransferWithMemo {
        to: address(1),
        memo: Memo { bytes: vec![5] },
        data: Box::new(EncryptedAmountTransferData { bytes: vec![1, 2] }),
    };
    let mut bytes = payload.encode().payload;
    assert_eq!(Payload::deserial(&bytes, &[]), Err(ParseError { kind: ParseErrorKind::CarriedSizes { needed: 1 }, at: 36 }));
    bytes.push(9);
    assert_eq!(Payload::deserial(&bytes, &[2]), Ok((payload.clone(), 38)));
    assert_eq!(
        EncodedPayload { payload: bytes }.decode(&[2]),
        Err(ParseError { kind: ParseErrorKind::LengthMismatch { remaining: 1 }, at: 38 })
    );
}

#[test]
fn leftover_bytes_are_a_length_mismatch() {
    // Registered data of 7 bytes makes a payload of 10 bytes; the buffer
    // holds 12.
    let payload = Payload::RegisterData { data: RegisteredData { bytes: vec![7; 7] } };
    let mut bytes = payload.encode().payload;
    assert_eq!(bytes.len(), 10);
    bytes.extend_from_slice(&[0xde, 0xad]);
    assert_eq!(bytes.len(), 12);
    let encoded = EncodedPayload { payload: bytes.clone() };
    assert_eq!(
        encoded.decode(&[]),
        Err(ParseError { kind: ParseErrorKind::LengthMismatch { remaining: 2 }, at: 10 })
    );
    // Reading from a longer input is fine, and says where the payload ends.
    assert_eq!(Payload::deserial(&bytes, &[]), Ok((payload, 10)));
}

#[test]
fn leftover_bytes_after_each_kind() {
    for (payload, sizes) in one_of_each() {
        let mut bytes = payload.encode().payload;
        let len = bytes.len();
        bytes.extend_from_slice(&[0, 0]);
        assert_eq!(
            EncodedPayload { payload: bytes }.decode(&sizes),
            Err(ParseError { kind: ParseErrorKind::LengthMismatch { remaining: 2 }, at: len })
        );
    }
}

#[test]
fn bad_boolean_is_refused() {
    assert_eq!(
        Payload::deserial(&[7, 2], &[]),
        Err(ParseError { kind: ParseErrorKind::InvalidBool { value: 2 }, at: 1 })
    );
}

#[test]
fn byte_strings_over_the_protocol_limits_are_refused() {
    // A memo of 257 bytes.
    let mut bytes = vec![22u8];
    bytes.extend_from_slice(&[1; 32]);
    bytes.extend_from_slice(&[1, 1]);
    bytes.extend_from_slice(&[0; 257]);
    bytes.extend_from_slice(&[0; 8]);
    assert_eq!(
        Payload::deserial(&bytes, &[]),
        Err(ParseError { kind: ParseErrorKind::TooLong { len: 257, max: 256 }, at: 33 })
    );
    // Registered data of 257 bytes.
    let mut bytes = vec![21u8, 1, 1];
    bytes.extend_from_slice(&[0; 257]);
    assert_eq!(
        Payload::deserial(&bytes, &[]),
        Err(ParseError { kind: ParseErrorKind::TooLong { len: 257, max: 256 }, at: 1 })
    );
    // A parameter of 1025 bytes.
    let mut bytes = vec![1u8];
    bytes.extend_from_slice(&[0; 8]);
    bytes.extend_from_slice(&[0; 32]);
    bytes.extend_from_slice(&[0, 0]);
    bytes.extend_from_slice(&[4, 1]);
    bytes.extend_from_slice(&[0; 1025]);
    assert_eq!(
        Payload::deserial(&bytes, &[]),
        Err(ParseError { kind: ParseErrorKind::TooLong { len: 1025, max: 1024 }, at: 43 })
    );
    // A module of 65537 bytes.
    let mut bytes = vec![0u8, 0, 0, 0, 0, 0, 1, 0, 1];
    bytes.extend(std::iter::repeat(0u8).take(65537));
    assert_eq!(
        Payload::deserial(&bytes, &[]),
        Err(ParseError { kind: ParseErrorKind::TooLong { len: 65537, max: 65536 }, at: 5 })
    );
}

#[test]
fn limits_themselves_are_accepted() {
    let payload = Payload::TransferWithMemo {
        to_address: address(3),
        memo: Memo { bytes: vec![1; 256] },
        amount: Amount { micro_ccd: 1 },
    };
    assert_eq!(payload.encode().decode(&[]), Ok(payload));
    let payload = Payload::RegisterData { data: RegisteredData { bytes: vec![1; 256] } };
    assert_eq!(payload.encode().decode(&[]), Ok(payload));
    let payload = Payload::DeployModule {
        module: WasmModule { version: 0, source: ModuleSource { bytes: vec![1; 65536] } },
    };
    assert_eq!(payload.encode().decode(&[]), Ok(payload));
    let payload = Payload::TransferWithSchedule {
        to: address(1),
        schedule: vec![(Timestamp { millis: 1 }, Amount { micro_ccd: 1 }); 255],
    };
    assert!(payload.is_valid());
    assert_eq!(payload.encode().decode(&[]), Ok(payload));
}

#[test]
fn keys_out_of_order_are_refused() {
    let mut bytes = vec![13u8];
    bytes.extend_from_slice(&[13; 48]);
    bytes.push(2);
    bytes.extend_from_slice(&[5, 0]);
    bytes.extend_from_slice(&[10; 32]);
    let second = bytes.len();
    bytes.extend_from_slice(&[5, 0]);
    bytes.extend_from_slice(&[11; 32]);
    bytes.push(1);
    assert_eq!(
        Payload::deserial(&bytes, &[]),
        Err(ParseError { kind: ParseErrorKind::KeysNotInOrder, at: second })
    );
}

#[test]
fn unknown_key_scheme_is_refused() {
    let mut bytes = vec![13u8];
    bytes.extend_from_slice(&[13; 48]);
    bytes.push(1);
    bytes.extend_from_slice(&[5, 1]);
    bytes.extend_from_slice(&[10; 32]);
    bytes.push(1);
    assert_eq!(
        Payload::deserial(&bytes, &[]),
        Err(ParseError { kind: ParseErrorKind::UnsupportedKeyScheme { tag: 1 }, at: 51 })
    );
}

#[test]
fn zero_thresholds_are_refused() {
    let mut bytes = vec![13u8];
    bytes.extend_from_slice(&[13; 48]);
    bytes.push(1);
    bytes.extend_from_slice(&[5, 0]);
    bytes.extend_from_slice(&[10; 32]);
    bytes.push(0);
    assert_eq!(
        Payload::deserial(&bytes, &[]),
        Err(ParseError { kind: ParseErrorKind::ZeroThreshold, at: 84 })
    );
    // No credentials added, none removed, threshold 0.
    assert_eq!(
        Payload::deserial(&[20, 0, 0, 0], &[]),
        Err(ParseError { kind: ParseErrorKind::ZeroThreshold, at: 3 })
    );
    assert!(!Payload::UpdateCredentials {
        new_cred_infos: IndexMap::new(),
        remove_cred_ids: vec![],
        new_threshold: AccountThreshold { threshold: 0 },
    }
    .is_valid());
}

#[test]
fn added_credentials_need_their_sizes() {
    let payload = Payload::UpdateCredentials {
        new_cred_infos: index_map(vec![
            (2, CredentialDeploymentInfo { bytes: vec![44] }),
            (1, CredentialDeploymentInfo { bytes: vec![41, 42, 43] }),
        ]),
        remove_cred_ids: vec![],
        new_threshold: AccountThreshold { threshold: 1 },
    };
    let bytes = payload.encode().payload;
    assert_eq!(Payload::deserial(&bytes, &[3, 1]), Ok((payload.clone(), bytes.len())));
    let mismatch = ParseError { kind: ParseErrorKind::CarriedSizes { needed: 2 }, at: 1 };
    assert_eq!(Payload::deserial(&bytes, &[]), Err(mismatch));
    assert_eq!(Payload::deserial(&bytes, &[3]), Err(mismatch));
    assert_eq!(Payload::deserial(&bytes, &[3, 1, 0]), Err(mismatch));
    assert_eq!(payload.encode().decode(&[]), Err(mismatch));
    // With other sizes the bytes are cut elsewhere: here the second index is
    // read from the first credential's bytes, the count of removed ids from
    // what follows, and the input ends before 43 ids of 48 bytes are read.
    assert_eq!(
        Payload::deserial(&bytes, &[0, 1]),
        Err(ParseError { kind: ParseErrorKind::UnexpectedEnd { needed: 48 }, at: 6 })
    );
}

#[test]
fn added_credentials_out_of_order_are_refused() {
    // Two added credentials, the index 2 before the index 1, of one byte
    // each; no credential removed; threshold 1.
    let bytes = vec![20u8, 2, 2, 1, 1, 2, 0, 1];
    assert_eq!(
        Payload::deserial(&bytes, &[1, 1]),
        Err(ParseError { kind: ParseErrorKind::KeysNotInOrder, at: 4 })
    );
    // The same index twice is refused as well.
    let bytes = vec![20u8, 2, 1, 1, 1, 2, 0, 1];
    assert_eq!(
        Payload::deserial(&bytes, &[1, 1]),
        Err(ParseError { kind: ParseErrorKind::KeysNotInOrder, at: 4 })
    );
    // In order they are read.
    let bytes = vec![20u8, 2, 1, 1, 2, 2, 0, 1];
    assert_eq!(
        Payload::deserial(&bytes, &[1, 1]),
        Ok((
            Payload::UpdateCredentials {
                new_cred_infos: index_map(vec![
                    (1, CredentialDeploymentInfo { bytes: vec![1] }),
                    (2, CredentialDeploymentInfo { bytes: vec![2] }),
                ]),
                remove_cred_ids: vec![],
                new_threshold: AccountThreshold { threshold: 1 },
            },
            8
        ))
    );
}

#[test]
fn validity_follows_the_limits() {
    for (payload, _) in one_of_each() {
        assert!(payload.is_valid());
    }
    let too_long_memo = Payload::TransferWithMemo {
        to_address: address(3),
        memo: Memo { bytes: vec![0; 257] },
        amount: Amount { micro_ccd: 1 },
    };
    assert!(!too_long_memo.is_valid());
    let too_many_releases = Payload::TransferWithSchedule {
        to: address(1),
        schedule: vec![(Timestamp { millis: 1 }, Amount { micro_ccd: 1 }); 256],
    };
    assert!(!too_many_releases.is_valid());
    // Its count byte wraps round to 0, and what follows is left over.
    let encoded = too_many_releases.encode();
    assert_eq!(encoded.payload[33], 0);
    assert_eq!(
        encoded.decode(&[]),
        Err(ParseError { kind: ParseErrorKind::LengthMismatch { remaining: 256 * 16 }, at: 34 })
    );
    assert!(!Payload::RegisterData { data: RegisteredData { bytes: vec![0; 257] } }.is_valid());
    assert!(!Payload::DeployModule {
        module: WasmModule { version: 0, source: ModuleSource { bytes: vec![0; 65537] } }
    }
    .is_valid());
    let mut keys = credential_keys();
    keys.threshold = SignatureThreshold { threshold: 0 };
    assert!(!keys.is_valid());
    assert!(credential_keys().is_valid());
}

#[test]
fn bounded_byte_strings_are_built_within_their_limits() {
    assert!(Memo::new(vec![0; 256]).is_some());
    assert!(Memo::new(vec![0; 257]).is_none());
    assert!(RegisteredData::new(vec![0; 256]).is_some());
    assert!(RegisteredData::new(vec![0; 257]).is_none());
    assert!(Parameter::new(vec![0; 1024]).is_some());
    assert!(Parameter::new(vec![0; 1025]).is_none());
    assert!(ModuleSource::new(vec![0; 65536]).is_some());
    assert!(ModuleSource::new(vec![0; 65537]).is_none());
    assert_eq!(ModuleSource::new(vec![0; 12]).unwrap().size(), 12);
    assert_eq!(AccountThreshold::new(0), None);
    assert_eq!(AccountThreshold::new(1), Some(AccountThreshold { threshold: 1 }));
    assert_eq!(SignatureThreshold::new(0), None);
    assert_eq!(SignatureThreshold::new(255), Some(SignatureThreshold { threshold: 255 }));
}

#[test]
fn encoded_payload_is_its_own_encoding() {
    let encoded = EncodedPayload { payload: vec![5] };
    assert_eq!(encoded.encode(), encoded);
    let mut out = vec![1];
    encoded.encode_to_buffer(&mut out);
    assert_eq!(out, vec![1, 5]);
    let mut out = vec![2];
    encoded.serial(&mut out);
    assert_eq!(out, vec![2, 5]);
    assert_eq!(encoded.size().size, 1);
    assert_eq!(encoded.decode(&[]), Ok(Payload::RemoveBaker));
}
