use concordium_rust_sdk::types::basic::{
    AccountAddress, AccountThreshold, Amount, ContractAddress, Energy, Memo, Nonce,
    RegisteredData, SignatureThreshold, Timestamp, TransactionTime,
};
use concordium_rust_sdk::types::index_map::IndexMap;
use concordium_rust_sdk::types::keys::{CredentialPublicKeys, KeyPair};
use concordium_rust_sdk::types::smart_contracts::{
    InitName, ModuleRef, ModuleSource, Parameter, ReceiveName,
};
use concordium_rust_sdk::types::transactions::baker::{BakerKeyProofs, BakerPublicKeys};
use concordium_rust_sdk::types::transactions::construct;
use concordium_rust_sdk::types::transactions::construct::{
    ConstructionError, GivenEnergy, PreAccountTransaction,
};
use concordium_rust_sdk::types::transactions::cost;
use concordium_rust_sdk::types::transactions::header::{
    compute_transaction_sign_hash, PayloadLike,
};
use concordium_rust_sdk::types::transactions::payload::{
    BakerAddKeysPayload, BakerUpdateKeysPayload, CredentialDeploymentInfo,
    EncryptedAmountTransferData, InitContractPayload, Payload, SecToPubAmountTransferData,
    UpdateContractPayload,
};
use concordium_rust_sdk::types::transactions::send;
use concordium_rust_sdk::types::transactions::signing::{
    AccountKeyMap, ExactSizeTransactionSigner, TransactionSigner,
};
use concordium_rust_sdk::types::transactions::verify::AccountAccessStructure;

fn sender() -> AccountAddress {
    AccountAddress { bytes: [7; 32] }
}

fn receiver() -> AccountAddress {
    AccountAddress { bytes: [9; 32] }
}

fn nonce() -> Nonce {
    Nonce { nonce: 1 }
}

fn expiry() -> TransactionTime {
    TransactionTime { seconds: 1_700_000_000 }
}

fn baker_public_keys() -> BakerPublicKeys {
    BakerPublicKeys {
        election_verify: [1; 32],
        signature_verify: [2; 32],
        aggregation_verify: [3; 96],
    }
}

fn baker_proofs() -> BakerKeyProofs {
    BakerKeyProofs { proof_sig: [4; 64], proof_election: [5; 64], proof_aggregation: [6; 64] }
}

/// What every finished transaction must satisfy.
fn check(t: &PreAccountTransaction, num_sigs: u64, extra: u64) {
    assert_eq!(t.header.sender, sender());
    assert_eq!(t.header.nonce, nonce());
    assert_eq!(t.header.expiry, expiry());
    assert_eq!(t.encoded, t.payload.encode());
    assert_eq!(t.header.payload_size.size as usize, t.encoded.payload.len());
    let size = 60 + t.encoded.payload.len() as u64;
    assert_eq!(t.header.energy_amount.energy, size + 100 * num_sigs + extra);
    assert_eq!(
        t.header.energy_amount.energy,
        cost::base_cost(size, num_sigs as u32).energy + extra
    );
    // The hash covers the finished header.
    assert_eq!(t.hash_to_sign, compute_transaction_sign_hash(&t.header, &t.encoded));
    // What was built can be read back.
    assert_eq!(t.encoded.decode(&t.payload.carried_sizes()), Ok(t.payload.clone()));
}

#[test]
fn transfer_of_one_signature_costs_501() {
    let t = construct::transfer(
        1,
        sender(),
        Nonce { nonce: 1 },
        expiry(),
        receiver(),
        Amount { micro_ccd: 100 },
    );
    assert_eq!(t.encoded.payload.len(), 41);
    assert_eq!(t.header.payload_size.size, 41);
    assert_eq!(60 + t.encoded.payload.len(), 101);
    assert_eq!(cost::base_cost(101, 1).energy, 201);
    assert_eq!(t.header.energy_amount.energy, 501);
    assert_eq!(t.encoded.payload[0], 3);
    assert_eq!(&t.encoded.payload[1..33], &[9u8; 32]);
    assert_eq!(&t.encoded.payload[33..41], &[0, 0, 0, 0, 0, 0, 0, 100]);
    assert_eq!(
        t.payload,
        Payload::Transfer { to_address: receiver(), amount: Amount { micro_ccd: 100 } }
    );
    check(&t, 1, 300);
}

#[test]
fn fixed_cost_transactions() {
    for num_sigs in [0u32, 1, 2, 7] {
        let n = num_sigs as u64;
        check(
            &construct::transfer(num_sigs, sender(), nonce(), expiry(), receiver(), Amount { micro_ccd: 5 }),
            n,
            300,
        );
        let t = construct::transfer_to_encrypted(num_sigs, sender(), nonce(), expiry(), Amount { micro_ccd: 5 });
        check(&t, n, 600);
        assert_eq!(t.payload, Payload::TransferToEncrypted { amount: Amount { micro_ccd: 5 } });
        let t = construct::remove_baker(num_sigs, sender(), nonce(), expiry());
        check(&t, n, 300);
        assert_eq!(t.payload, Payload::RemoveBaker);
        assert_eq!(t.header.energy_amount.energy, 61 + 100 * n + 300);
        let t = construct::update_baker_stake(num_sigs, sender(), nonce(), expiry(), Amount { micro_ccd: 8 });
        check(&t, n, 300);
        assert_eq!(t.payload, Payload::UpdateBakerStake { stake: Amount { micro_ccd: 8 } });
        let t = construct::update_baker_restake_earnings(num_sigs, sender(), nonce(), expiry(), true);
        check(&t, n, 300);
        assert_eq!(t.payload, Payload::UpdateBakerRestakeEarnings { restake_earnings: true });
        let keys = BakerAddKeysPayload::new(&baker_public_keys(), baker_proofs());
        let t = construct::add_baker(num_sigs, sender(), nonce(), expiry(), Amount { micro_ccd: 9 }, false, keys);
        check(&t, n, 4050);
        assert_eq!(t.encoded.payload.len(), 362);
        assert!(matches!(t.payload, Payload::AddBaker { .. }));
        let keys = BakerUpdateKeysPayload::new(&baker_public_keys(), baker_proofs());
        let t = construct::update_baker_keys(num_sigs, sender(), nonce(), expiry(), keys);
        check(&t, n, 4050);
        assert_eq!(t.encoded.payload.len(), 353);
        assert!(matches!(t.payload, Payload::UpdateBakerKeys { .. }));
    }
}

#[test]
fn transactions_with_data_of_any_size() {
    let memo = Memo { bytes: b"for lunch".to_vec() };
    let t = construct::transfer_with_memo(2, sender(), nonce(), expiry(), receiver(), Amount { micro_ccd: 5 }, memo.clone())
        .unwrap();
    check(&t, 2, 300);
    assert_eq!(
        t.payload,
        Payload::TransferWithMemo { to_address: receiver(), memo: memo.clone(), amount: Amount { micro_ccd: 5 } }
    );

    let data = EncryptedAmountTransferData { bytes: vec![3; 500] };
    let t = construct::encrypted_transfer(2, sender(), nonce(), expiry(), receiver(), data.clone()).unwrap();
    check(&t, 2, 27000);
    assert_eq!(t.encoded.payload.len(), 1 + 32 + 500);
    let t = construct::encrypted_transfer_with_memo(2, sender(), nonce(), expiry(), receiver(), data, memo.clone())
        .unwrap();
    check(&t, 2, 27000);

    let data = SecToPubAmountTransferData { bytes: vec![4; 300] };
    let t = construct::transfer_to_public(1, sender(), nonce(), expiry(), data).unwrap();
    check(&t, 1, 14850);

    let data = RegisteredData { bytes: vec![1, 2, 3] };
    let t = construct::register_data(1, sender(), nonce(), expiry(), data).unwrap();
    check(&t, 1, 300);
    assert_eq!(t.encoded.payload, vec![21, 0, 3, 1, 2, 3]);

    let source = ModuleSource { bytes: vec![0; 1234] };
    let t = construct::deploy_module(1, sender(), nonce(), expiry(), source).unwrap();
    check(&t, 1, 123);
    match &t.payload {
        Payload::DeployModule { module } => {
            assert_eq!(module.version, 0);
            assert_eq!(module.source.bytes.len(), 1234);
        }
        other => panic!("{:?}", other),
    }
}

#[test]
fn scheduled_transfers_cost_by_the_release() {
    for n in [0usize, 1, 2, 255] {
        let schedule = vec![(Timestamp { millis: 1 }, Amount { micro_ccd: 2 }); n];
        let t = construct::transfer_with_schedule(1, sender(), nonce(), expiry(), receiver(), schedule.clone())
            .unwrap();
        check(&t, 1, 364 * n as u64);
        assert_eq!(t.encoded.payload.len(), 1 + 32 + 1 + 16 * n);
        let memo = Memo { bytes: vec![1] };
        let t = construct::transfer_with_schedule_and_memo(1, sender(), nonce(), expiry(), receiver(), schedule, memo)
            .unwrap();
        check(&t, 1, 364 * n as u64);
    }
}

#[test]
fn contract_transactions_add_the_given_energy() {
    let init = InitContractPayload {
        amount: Amount { micro_ccd: 1 },
        mod_ref: ModuleRef { bytes: [8; 32] },
        init_name: InitName { name: b"init_counter".to_vec() },
        param: Parameter { bytes: vec![1, 2] },
    };
    let t = construct::init_contract(3, sender(), nonce(), expiry(), init.clone(), Energy { energy: 10_000 })
        .unwrap();
    check(&t, 3, 10_000);
    assert_eq!(t.payload, Payload::InitContract { payload: init.clone() });
    let update = UpdateContractPayload {
        amount: Amount { micro_ccd: 1 },
        address: ContractAddress { index: 4, subindex: 0 },
        receive_name: ReceiveName { name: b"counter.inc".to_vec() },
        message: Parameter { bytes: vec![] },
    };
    let t = construct::update_contract(3, sender(), nonce(), expiry(), update.clone(), Energy { energy: 0 })
        .unwrap();
    check(&t, 3, 0);
    assert_eq!(t.payload, Payload::Update { payload: update.clone() });

    // Energy that does not fit.
    assert_eq!(
        construct::init_contract(3, sender(), nonce(), expiry(), init.clone(), Energy { energy: u64::MAX }),
        Err(ConstructionError::EnergyOverflow)
    );
    assert_eq!(
        construct::update_contract(0, sender(), nonce(), expiry(), update.clone(), Energy { energy: u64::MAX }),
        Err(ConstructionError::EnergyOverflow)
    );
    // The most that fits.
    let size = 60 + Payload::Update { payload: update.clone() }.encode().payload.len() as u64;
    let most = u64::MAX - size;
    let t = construct::update_contract(0, sender(), nonce(), expiry(), update.clone(), Energy { energy: most }).unwrap();
    assert_eq!(t.header.energy_amount.energy, u64::MAX);
    assert_eq!(
        construct::update_contract(0, sender(), nonce(), expiry(), update, Energy { energy: most + 1 }),
        Err(ConstructionError::EnergyOverflow)
    );
}

#[test]
fn payloads_outside_the_limits_are_not_built() {
    let memo = Memo { bytes: vec![0; 257] };
    assert_eq!(
        construct::transfer_with_memo(1, sender(), nonce(), expiry(), receiver(), Amount { micro_ccd: 5 }, memo.clone()),
        Err(ConstructionError::InvalidPayload)
    );
    let data = EncryptedAmountTransferData { bytes: vec![3; 5] };
    assert_eq!(
        construct::encrypted_transfer_with_memo(1, sender(), nonce(), expiry(), receiver(), data, memo.clone()),
        Err(ConstructionError::InvalidPayload)
    );
    for n in [256usize, 257, 65_536, 65_537] {
        let schedule = vec![(Timestamp { millis: 1 }, Amount { micro_ccd: 2 }); n];
        assert_eq!(
            construct::transfer_with_schedule(1, sender(), nonce(), expiry(), receiver(), schedule.clone()),
            Err(ConstructionError::InvalidPayload)
        );
        assert_eq!(
            construct::transfer_with_schedule_and_memo(1, sender(), nonce(), expiry(), receiver(), schedule, Memo { bytes: vec![] }),
            Err(ConstructionError::InvalidPayload)
        );
    }
    assert_eq!(
        construct::register_data(1, sender(), nonce(), expiry(), RegisteredData { bytes: vec![0; 257] }),
        Err(ConstructionError::InvalidPayload)
    );
    assert_eq!(
        construct::deploy_module(1, sender(), nonce(), expiry(), ModuleSource { bytes: vec![0; 65_537] }),
        Err(ConstructionError::InvalidPayload)
    );
    let init = InitContractPayload {
        amount: Amount { micro_ccd: 1 },
        mod_ref: ModuleRef { bytes: [8; 32] },
        init_name: InitName { name: b"init_counter".to_vec() },
        param: Parameter { bytes: vec![0; 1025] },
    };
    assert_eq!(
        construct::init_contract(1, sender(), nonce(), expiry(), init, Energy { energy: 1 }),
        Err(ConstructionError::InvalidPayload)
    );
    let too_many = Payload::UpdateCredentials {
        new_cred_infos: IndexMap::new(),
        remove_cred_ids: vec![],
        new_threshold: AccountThreshold { threshold: 0 },
    };
    assert_eq!(
        construct::make_transaction(sender(), nonce(), expiry(), GivenEnergy::Absolute(Energy { energy: 1 }), too_many),
        Err(ConstructionError::InvalidPayload)
    );
}

#[test]
fn payloads_that_are_too_large_are_not_built() {
    // 1 + 32 + 102367 = 102400 bytes is the most.
    let data = EncryptedAmountTransferData { bytes: vec![3; 102_367] };
    let t = construct::encrypted_transfer(1, sender(), nonce(), expiry(), receiver(), data).unwrap();
    assert_eq!(t.header.payload_size.size, 102_400);
    assert_eq!(t.header.energy_amount.energy, 102_460 + 100 + 27_000);
    let data = EncryptedAmountTransferData { bytes: vec![3; 102_368] };
    assert_eq!(
        construct::encrypted_transfer(1, sender(), nonce(), expiry(), receiver(), data),
        Err(ConstructionError::PayloadTooLarge { size: 102_401 })
    );
    let data = SecToPubAmountTransferData { bytes: vec![3; 200_000] };
    assert_eq!(
        construct::transfer_to_public(1, sender(), nonce(), expiry(), data),
        Err(ConstructionError::PayloadTooLarge { size: 200_001 })
    );
    // A valid payload that is too large all the same: credentials are not
    // limited in size one by one.
    let payload = Payload::UpdateCredentials {
        new_cred_infos: index_map(vec![(1, CredentialDeploymentInfo { bytes: vec![0; 102_400] })]),
        remove_cred_ids: vec![],
        new_threshold: AccountThreshold { threshold: 1 },
    };
    assert!(payload.is_valid());
    assert_eq!(
        construct::make_transaction(sender(), nonce(), expiry(), GivenEnergy::Absolute(Energy { energy: 1 }), payload),
        Err(ConstructionError::PayloadTooLarge { size: 102_405 })
    );
}

#[test]
fn energy_can_be_given_outright_or_on_top() {
    let payload = Payload::Transfer { to_address: receiver(), amount: Amount { micro_ccd: 100 } };
    let t = construct::make_transaction(
        sender(),
        nonce(),
        expiry(),
        GivenEnergy::Absolute(Energy { energy: 12_345 }),
        payload.clone(),
    )
    .unwrap();
    assert_eq!(t.header.energy_amount.energy, 12_345);
    assert_eq!(t.hash_to_sign, compute_transaction_sign_hash(&t.header, &t.encoded));
    let t = construct::make_transaction(
        sender(),
        nonce(),
        expiry(),
        GivenEnergy::Add { energy: Energy { energy: 12_345 }, num_sigs: 2 },
        payload.clone(),
    )
    .unwrap();
    check(&t, 2, 12_345);
    assert_eq!(t.header.energy_amount.energy, 101 + 200 + 12_345);
    // With an outright amount nothing is added, so nothing overflows.
    let t = construct::make_transaction(
        sender(),
        nonce(),
        expiry(),
        GivenEnergy::Absolute(Energy { energy: u64::MAX }),
        payload,
    )
    .unwrap();
    assert_eq!(t.header.energy_amount.energy, u64::MAX);
}

#[test]
fn credential_updates_are_read_back_with_their_sizes() {
    let payload = Payload::UpdateCredentials {
        new_cred_infos: index_map(vec![
            (1, CredentialDeploymentInfo { bytes: vec![5; 10] }),
            (2, CredentialDeploymentInfo { bytes: vec![6; 20] }),
        ]),
        remove_cred_ids: vec![],
        new_threshold: AccountThreshold { threshold: 1 },
    };
    let energy = cost::update_credentials(1, &[1, 2]);
    let t = construct::make_transaction(
        sender(),
        nonce(),
        expiry(),
        GivenEnergy::Add { energy, num_sigs: 1 },
        payload.clone(),
    )
    .unwrap();
    assert_eq!(
        t.header.energy_amount.energy,
        60 + t.encoded.payload.len() as u64 + 100 + 500 + 500 + 54_100 + 54_200
    );
    assert_eq!(payload.carried_sizes(), vec![10, 20]);
    assert_eq!(t.encoded.decode(&[10, 20]), Ok(payload));
}

fn index_map<V>(entries: Vec<(u8, V)>) -> IndexMap<V> {
    IndexMap { map: entries.into_iter().collect() }
}

fn keys() -> AccountKeyMap {
    let mut keys: AccountKeyMap = IndexMap::new();
    let mut first = IndexMap::new();
    first.insert(0, KeyPair::from_secret([1; 32]));
    first.insert(1, KeyPair::from_secret([2; 32]));
    keys.insert(0, first);
    let mut second = IndexMap::new();
    second.insert(4, KeyPair::from_secret([3; 32]));
    keys.insert(2, second);
    keys
}

fn access(keys: &AccountKeyMap) -> AccountAccessStructure {
    let mut pub_keys = IndexMap::new();
    for (ci, cred) in keys.map.iter() {
        let mut verify_keys = IndexMap::new();
        for (ki, kp) in cred.map.iter() {
            verify_keys.insert(*ki, kp.verify_key());
        }
        pub_keys.insert(
            *ci,
            CredentialPublicKeys { keys: verify_keys, threshold: SignatureThreshold { threshold: 1 } },
        );
    }
    AccountAccessStructure { threshold: AccountThreshold { threshold: 2 }, keys: pub_keys }
}

#[test]
fn sending_is_building_and_signing() {
    let keys = keys();
    assert_eq!(keys.num_keys(), 3);
    let signed = send::transfer(&keys, sender(), nonce(), expiry(), receiver(), Amount { micro_ccd: 100 });
    let built = construct::transfer(3, sender(), nonce(), expiry(), receiver(), Amount { micro_ccd: 100 });
    assert_eq!(signed.header, built.header);
    assert_eq!(signed.header.energy_amount.energy, 101 + 300 + 300);
    assert_eq!(signed.payload, built.encoded);
    assert_eq!(signed.signature, keys.sign_transaction_hash(&built.hash_to_sign));
    assert!(signed.verify_transaction_signature(&access(&keys)));
    assert_eq!(signed, built.sign(&keys));
}

#[test]
fn every_kind_is_sent_as_it_is_built() {
    let keys = keys();
    let n = keys.num_keys();
    let memo = Memo { bytes: vec![1, 2] };
    let schedule = vec![(Timestamp { millis: 1 }, Amount { micro_ccd: 2 }); 3];
    let enc = EncryptedAmountTransferData { bytes: vec![3; 50] };
    let sec = SecToPubAmountTransferData { bytes: vec![4; 50] };
    let init = InitContractPayload {
        amount: Amount { micro_ccd: 1 },
        mod_ref: ModuleRef { bytes: [8; 32] },
        init_name: InitName { name: b"init_counter".to_vec() },
        param: Parameter { bytes: vec![1, 2] },
    };
    let update = UpdateContractPayload {
        amount: Amount { micro_ccd: 1 },
        address: ContractAddress { index: 4, subindex: 0 },
        receive_name: ReceiveName { name: b"counter.inc".to_vec() },
        message: Parameter { bytes: vec![] },
    };
    let amount = Amount { micro_ccd: 5 };
    let energy = Energy { energy: 77 };
    let add_keys = || BakerAddKeysPayload::new(&baker_public_keys(), baker_proofs());
    let update_keys = || BakerUpdateKeysPayload::new(&baker_public_keys(), baker_proofs());

    let pairs = vec![
        (
            send::transfer_with_memo(&keys, sender(), nonce(), expiry(), receiver(), amount, memo.clone()).unwrap(),
            construct::transfer_with_memo(n, sender(), nonce(), expiry(), receiver(), amount, memo.clone()).unwrap(),
        ),
        (
            send::encrypted_transfer(&keys, sender(), nonce(), expiry(), receiver(), enc.clone()).unwrap(),
            construct::encrypted_transfer(n, sender(), nonce(), expiry(), receiver(), enc.clone()).unwrap(),
        ),
        (
            send::encrypted_transfer_with_memo(&keys, sender(), nonce(), expiry(), receiver(), enc.clone(), memo.clone()).unwrap(),
            construct::encrypted_transfer_with_memo(n, sender(), nonce(), expiry(), receiver(), enc.clone(), memo.clone()).unwrap(),
        ),
        (
            send::transfer_to_encrypted(&keys, sender(), nonce(), expiry(), amount),
            construct::transfer_to_encrypted(n, sender(), nonce(), expiry(), amount),
        ),
        (
            send::transfer_to_public(&keys, sender(), nonce(), expiry(), sec.clone()).unwrap(),
            construct::transfer_to_public(n, sender(), nonce(), expiry(), sec.clone()).unwrap(),
        ),
        (
            send::transfer_with_schedule(&keys, sender(), nonce(), expiry(), receiver(), schedule.clone()).unwrap(),
            construct::transfer_with_schedule(n, sender(), nonce(), expiry(), receiver(), schedule.clone()).unwrap(),
        ),
        (
            send::transfer_with_schedule_and_memo(&keys, sender(), nonce(), expiry(), receiver(), schedule.clone(), memo.clone()).unwrap(),
            construct::transfer_with_schedule_and_memo(n, sender(), nonce(), expiry(), receiver(), schedule.clone(), memo.clone()).unwrap(),
        ),
        (
            send::add_baker(&keys, sender(), nonce(), expiry(), amount, true, add_keys()),
            construct::add_baker(n, sender(), nonce(), expiry(), amount, true, add_keys()),
        ),
        (
            send::update_baker_keys(&keys, sender(), nonce(), expiry(), update_keys()),
            construct::update_baker_keys(n, sender(), nonce(), expiry(), update_keys()),
        ),
        (
            send::remove_baker(&keys, sender(), nonce(), expiry()),
            construct::remove_baker(n, sender(), nonce(), expiry()),
        ),
        (
            send::update_baker_stake(&keys, sender(), nonce(), expiry(), amount),
            construct::update_baker_stake(n, sender(), nonce(), expiry(), amount),
        ),
        (
            send::update_baker_restake_earnings(&keys, sender(), nonce(), expiry(), false),
            construct::update_baker_restake_earnings(n, sender(), nonce(), expiry(), false),
        ),
        (
            send::register_data(&keys, sender(), nonce(), expiry(), RegisteredData { bytes: vec![1] }).unwrap(),
            construct::register_data(n, sender(), nonce(), expiry(), RegisteredData { bytes: vec![1] }).unwrap(),
        ),
        (
            send::deploy_module(&keys, sender(), nonce(), expiry(), ModuleSource { bytes: vec![1; 100] }).unwrap(),
            construct::deploy_module(n, sender(), nonce(), expiry(), ModuleSource { bytes: vec![1; 100] }).unwrap(),
        ),
        (
            send::init_contract(&keys, sender(), nonce(), expiry(), init.clone(), energy).unwrap(),
            construct::init_contract(n, sender(), nonce(), expiry(), init.clone(), energy).unwrap(),
        ),
        (
            send::update_contract(&keys, sender(), nonce(), expiry(), update.clone(), energy).unwrap(),
            construct::update_contract(n, sender(), nonce(), expiry(), update.clone(), energy).unwrap(),
        ),
    ];
    assert_eq!(pairs.len(), 16);
    for (signed, built) in pairs {
        assert_eq!(signed.header, built.header);
        assert_eq!(signed.payload, built.encoded);
        assert_eq!(signed.signature, keys.sign_transaction_hash(&built.hash_to_sign));
        assert!(signed.verify_transaction_signature(&access(&keys)));
    }

    // Errors pass through.
    assert_eq!(
        send::register_data(&keys, sender(), nonce(), expiry(), RegisteredData { bytes: vec![0; 257] }),
        Err(ConstructionError::InvalidPayload)
    );
    assert_eq!(
        send::init_contract(&keys, sender(), nonce(), expiry(), init, Energy { energy: u64::MAX }),
        Err(ConstructionError::EnergyOverflow)
    );
}

#[test]
fn make_and_sign_counts_the_signers_keys() {
    let keys = keys();
    let payload = Payload::Transfer { to_address: receiver(), amount: Amount { micro_ccd: 100 } };
    let signed = send::make_and_sign_transaction(
        &keys,
        sender(),
        nonce(),
        expiry(),
        send::GivenEnergy::Add(Energy { energy: 300 }),
        payload.clone(),
    )
    .unwrap();
    assert_eq!(signed.header.energy_amount.energy, 101 + 3 * 100 + 300);
    assert_eq!(
        signed,
        send::transfer(&keys, sender(), nonce(), expiry(), receiver(), Amount { micro_ccd: 100 })
    );
    let signed = send::make_and_sign_transaction(
        &keys,
        sender(),
        nonce(),
        expiry(),
        send::GivenEnergy::Absolute(Energy { energy: 5 }),
        payload,
    )
    .unwrap();
    assert_eq!(signed.header.energy_amount.energy, 5);
    assert!(signed.verify_transaction_signature(&access(&keys)));
    assert_eq!(
        send::make_and_sign_transaction(
            &keys,
            sender(),
            nonce(),
            expiry(),
            send::GivenEnergy::Absolute(Energy { energy: 5 }),
            Payload::RegisterData { data: RegisteredData { bytes: vec![0; 300] } },
        ),
        Err(ConstructionError::InvalidPayload)
    );
}

#[test]
fn baker_key_challenges() {
    let add = BakerAddKeysPayload::challenge(&baker_public_keys(), sender());
    let mut expected = b"addBaker".to_vec();
    expected.extend_from_slice(&[7; 32]);
    expected.extend_from_slice(&[1; 32]);
    expected.extend_from_slice(&[2; 32]);
    expected.extend_from_slice(&[3; 96]);
    assert_eq!(add, expected);
    let update = BakerUpdateKeysPayload::challenge(&baker_public_keys(), sender());
    let mut expected = b"updateBakerKeys".to_vec();
    expected.extend_from_slice(&[7; 32]);
    expected.extend_from_slice(&[1; 32]);
    expected.extend_from_slice(&[2; 32]);
    expected.extend_from_slice(&[3; 96]);
    assert_eq!(update, expected);
    assert_ne!(add, update);

    let keys = BakerAddKeysPayload::new(&baker_public_keys(), baker_proofs());
    assert_eq!(keys.election_verify_key, [1; 32]);
    assert_eq!(keys.signature_verify_key, [2; 32]);
    assert_eq!(keys.aggregation_verify_key, [3; 96]);
    assert_eq!(keys.proof_sig, [4; 64]);
    assert_eq!(keys.proof_election, [5; 64]);
    assert_eq!(keys.proof_aggregation, [6; 64]);
    let keys = BakerUpdateKeysPayload::new(&baker_public_keys(), baker_proofs());
    assert_eq!(keys.proof_aggregation, [6; 64]);
    assert_eq!(keys.clone(), keys);
}
