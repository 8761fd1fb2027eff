use lumina_core::contracts::milestone_vesting::VestingContract as MilestoneVesting;
use lumina_core::contracts::vesting_nft::{VaultInfo, VestingNFTWrapper};

fn s(v: &str) -> String {
    v.to_string()
}

fn wrapper() -> VestingNFTWrapper {
    let mut w = VestingNFTWrapper::new();
    w.initialize(s("admin"), s("vesting"), s("Vesting NFT"), s("VNFT"));
    w
}

fn info(total: i128, title: &str) -> VaultInfo {
    VaultInfo { total_amount: total, start_time: 1000, end_time: 2000, title: s(title), is_transferable: true }
}

#[test]
fn test_nft_initialization() {
    let w = wrapper();
    assert_eq!(w.name(), &s("Vesting NFT"));
    assert_eq!(w.symbol(), &s("VNFT"));
    assert_eq!(w.total_supply(), 0);
}

#[test]
fn test_nft_minting() {
    let w = wrapper();
    assert_eq!(w.total_supply(), 0);
    assert_eq!(w.balance_of(&s("beneficiary")), 0);
}

#[test]
fn test_nft_transfer() {
    let mut w = wrapper();
    let owner = s("owner");
    let new_owner = s("new_owner");
    let (token_id, _) = w.mint_vesting_nft(1, owner.clone(), info(1000, "v"), s("wrapper"), 0);

    let update = w.transfer(token_id, new_owner.clone());

    assert_eq!(w.owner_of(token_id), &new_owner);
    assert_eq!(w.balance_of(&owner), 0);
    assert_eq!(w.balance_of(&new_owner), 1);
    assert_eq!(update.new_beneficiary, new_owner);
    assert_eq!(update.vault_id, 1);
    assert_eq!(update.vesting_contract, s("vesting"));
}

#[test]
fn test_token_metadata() {
    let mut w = wrapper();
    let (token_id, _) = w.mint_vesting_nft(123, s("owner"), info(1000, "Test Vault"), s("wrapper"), 500);
    let retrieved = w.token_metadata(token_id);
    assert_eq!(retrieved.vault_id, 123);
    assert_eq!(retrieved.total_amount, 1000);
    assert_eq!(retrieved.title, s("Test Vault"));
    assert_eq!(retrieved.created_at, 500);
}

#[test]
fn test_vault_reference() {
    let mut w = wrapper();
    let (token_id, update) = w.mint_vesting_nft(456, s("owner"), info(1, "t"), s("wrapper"), 0);
    let retrieved = w.token_vault_reference(token_id);
    assert_eq!(retrieved.vault_id, 456);
    assert_eq!(retrieved.vesting_contract, s("vesting"));
    assert_eq!(update.new_beneficiary, s("wrapper"));
}

#[test]
fn test_owner_tokens_query() {
    let mut w = wrapper();
    let owner = s("owner");
    for vault in 1..=3u64 {
        w.mint_vesting_nft(vault, owner.clone(), info(1, "t"), s("wrapper"), 0);
    }
    let retrieved = w.tokens_of_owner(&owner);
    assert_eq!(retrieved.len(), 3);
    assert_eq!(retrieved, vec![1, 2, 3]);
    assert_eq!(w.balance_of(&owner), 3);
}

#[test]
fn test_admin_functions() {
    let mut w = wrapper();
    assert!(!w.is_transfer_locked());
    w.set_transfer_lock(true);
    assert!(w.is_transfer_locked());
    w.set_transfer_lock(false);
    assert!(!w.is_transfer_locked());
}

#[test]
fn claims_go_to_the_wrapped_vault() {
    let mut w = wrapper();
    let (token_id, _) = w.mint_vesting_nft(9, s("owner"), info(1, "t"), s("wrapper"), 0);
    let req = w.claim_tokens(token_id, 40);
    assert_eq!(req.vault_id, 9);
    assert_eq!(req.claim_amount, 40);
    assert_eq!(w.get_claimable_amount(token_id).vault_id, 9);
}

#[test]
fn milestone_vault_releases_triggered_tranches() {
    let mut c = MilestoneVesting::new();
    c.initialize(s("admin"), 10_000);
    c.set_required_sbt(s("sbt"));
    let id = c.create_milestone_vault(s("alice"), 1_000, vec![25, 25, 50], 77);
    assert_eq!(id, 1);
    assert_eq!(c.admin_balance, 9_000);
    assert!(c.check_invariant());
    c.trigger_milestone(id, 0, s("admin"), 80);
    assert_eq!(c.get_milestone_vault(id).current_milestone, 1);
    assert_eq!(c.claim_milestone_tokens(id, 1), 250);
    c.trigger_milestone(id, 1, s("admin"), 90);
    assert_eq!(c.claim_milestone_tokens(id, 1), 250);
    assert!(c.check_invariant());
    assert_eq!(c.get_vault(id, s("me")).released_amount, 500);
    assert_eq!(c.get_vault(99, s("me")).owner, s("me"));
    assert!(!c.get_vault(99, s("me")).is_initialized);
}

#[test]
fn milestone_claim_simulation_withholds_tax() {
    let mut c = MilestoneVesting::new();
    c.initialize(s("admin"), 10_000);
    let id = c.create_milestone_vault(s("alice"), 1_000, vec![100], 0);
    assert_eq!(c.simulate_claim(id, None), (850, 1_000_000, 150));
    assert_eq!(c.simulate_claim(id, Some(100)), (85, 1_000_000, 15));
}

#[test]
fn token_exists_only_once_minted() {
    let mut w = wrapper();
    assert!(!w.token_exists(1));
    let (token_id, _) = w.mint_vesting_nft(3, s("owner"), info(500, "v"), s("wrapper"), 0);
    assert!(w.token_exists(token_id));
    assert!(!w.token_exists(token_id + 1));
}
