use concordium_rust_sdk::types::basic::CredentialType;
use concordium_rust_sdk::types::transactions::cost;

#[test]
fn base_cost_is_size_plus_hundred_per_signature() {
    assert_eq!(cost::base_cost(101, 1).energy, 201);
    assert_eq!(cost::base_cost(0, 0).energy, 0);
    assert_eq!(cost::base_cost(60, 3).energy, 360);
    assert_eq!(cost::base_cost(102_460, 255).energy, 102_460 + 25_500);
    assert_eq!(cost::base_cost(1, u32::MAX).energy, 1 + 100 * (u32::MAX as u64));
}

#[test]
fn base_cost_constants() {
    assert_eq!(cost::A, 100);
    assert_eq!(cost::B, 1);
}

#[test]
fn base_cost_does_not_decrease() {
    let sizes = [0u64, 1, 59, 60, 61, 101, 1000, 102_460];
    let sigs = [0u32, 1, 2, 3, 17, 255, 65_536];
    for (i, &s1) in sizes.iter().enumerate() {
        for &s2 in &sizes[i..] {
            for (j, &n1) in sigs.iter().enumerate() {
                for &n2 in &sigs[j..] {
                    assert!(cost::base_cost(s1, n1).energy <= cost::base_cost(s2, n2).energy);
                }
            }
        }
    }
}

#[test]
fn fixed_costs() {
    assert_eq!(cost::SIMPLE_TRANSFER, 300);
    assert_eq!(cost::ENCRYPTED_TRANSFER, 27000);
    assert_eq!(cost::TRANSFER_TO_ENCRYPTED, 600);
    assert_eq!(cost::TRANSFER_TO_PUBLIC, 14850);
    assert_eq!(cost::ADD_BAKER, 4050);
    assert_eq!(cost::UPDATE_BAKER_KEYS, 4050);
    assert_eq!(cost::UPDATE_BAKER_STAKE, 300);
    assert_eq!(cost::UPDATE_BAKER_RESTAKE, 300);
    assert_eq!(cost::REMOVE_BAKER, 300);
    assert_eq!(cost::REGISTER_DATA, 300);
    assert_eq!(cost::UPDATE_CREDENTIALS_BASE, 500);
}

#[test]
fn scheduled_transfer_costs_364_per_release() {
    assert_eq!(cost::scheduled_transfer(0).energy, 0);
    assert_eq!(cost::scheduled_transfer(1).energy, 364);
    assert_eq!(cost::scheduled_transfer(10).energy, 3640);
    assert_eq!(cost::scheduled_transfer(255).energy, 92_820);
    assert_eq!(cost::scheduled_transfer(u16::MAX).energy, 65_535 * 364);
}

#[test]
fn deploy_module_costs_a_tenth_of_the_size() {
    assert_eq!(cost::deploy_module(0).energy, 0);
    assert_eq!(cost::deploy_module(9).energy, 0);
    assert_eq!(cost::deploy_module(10).energy, 1);
    assert_eq!(cost::deploy_module(19).energy, 1);
    assert_eq!(cost::deploy_module(65_536).energy, 6553);
    assert_eq!(cost::deploy_module(u64::MAX).energy, u64::MAX / 10);
}

#[test]
fn deploy_credential_by_kind() {
    assert_eq!(cost::deploy_credential(CredentialType::Initial, 0).energy, 1000);
    assert_eq!(cost::deploy_credential(CredentialType::Initial, 3).energy, 1300);
    assert_eq!(cost::deploy_credential(CredentialType::Normal, 0).energy, 54_000);
    assert_eq!(cost::deploy_credential(CredentialType::Normal, 3).energy, 54_300);
    assert_eq!(cost::deploy_credential(CredentialType::Normal, u16::MAX).energy, 54_000 + 6_553_500);
}

#[test]
fn update_credentials_adds_up() {
    // Nothing on the account and nothing added: just the base.
    assert_eq!(cost::update_credentials(0, &[]).energy, 500);
    // 500 for each credential on the account.
    assert_eq!(cost::update_credentials(3, &[]).energy, 500 + 1500);
    // Each added credential is a normal one.
    assert_eq!(cost::update_credentials(0, &[1]).energy, 500 + 54_100);
    assert_eq!(cost::update_credentials(2, &[1, 3]).energy, 500 + 1000 + 54_100 + 54_300);
    assert_eq!(cost::update_credentials_variable(2, &[1, 3]).energy, 1000 + 54_100 + 54_300);
}
