use lumina_core::contracts::vesting::{
    Allocation, BatchCreateData, Milestone, VestingContract, MAX_DURATION,
};

fn s(v: &str) -> String {
    v.to_string()
}

fn basket(parts: &[(&str, i128)]) -> Allocation {
    let mut a = Allocation::new();
    for (asset, amount) in parts {
        a.add_asset(s(asset), *amount);
    }
    a
}

fn contract() -> VestingContract {
    let mut c = VestingContract::new();
    c.initialize(s("admin"), 1_000_000);
    c
}

#[test]
fn allocation_totals_its_basket() {
    let a = basket(&[("XLM", 600), ("USDC", 400)]);
    assert_eq!(a.total_amount(), 1000);
    assert_eq!(Allocation::new().total_amount(), 0);
}

#[test]
fn vault_creation_moves_supply_into_shares() {
    let mut c = contract();
    let id = c.create_vault_full(s("alice"), basket(&[("XLM", 1000)]), 100, 1100, 0, true, false, 0, 50);
    assert_eq!(id, 1);
    assert_eq!(c.admin_balance, 999_000);
    assert_eq!(c.total_shares, 1000);
    assert_eq!(c.get_user_vaults(s("alice")), vec![1]);
    let v = c.get_vault(1);
    assert!(v.is_initialized);
    assert!(!v.is_irrevocable);
    assert_eq!(v.creation_time, 50);
    let lazy = c.create_vault_lazy(s("bob"), basket(&[("XLM", 10)]), 0, MAX_DURATION, 0, false, false, 0, 60);
    assert_eq!(lazy, 2);
    assert!(!c.get_vault(2).is_initialized);
    assert!(c.get_vault(2).is_irrevocable);
    assert_eq!(c.get_user_vaults(s("bob")), Vec::<u64>::new());
}

#[test]
fn linear_and_stepped_schedules() {
    let mut c = contract();
    c.create_vault_full(s("alice"), basket(&[("XLM", 1000)]), 100, 1100, 0, true, false, 0, 0);
    c.create_vault_full(s("bob"), basket(&[("XLM", 1000)]), 100, 1100, 0, true, false, 300, 0);
    assert_eq!(c.get_claimable_amount(1, 100), 0);
    assert_eq!(c.get_claimable_amount(1, 600), 500);
    assert_eq!(c.get_claimable_amount(1, 5000), 1000);
    // three steps of 300s fit in 1000s; 2 completed at t=750
    assert_eq!(c.get_claimable_amount(2, 750), 666);
}

#[test]
fn acceleration_moves_the_clock_forward() {
    let mut c = contract();
    c.create_vault_full(s("alice"), basket(&[("XLM", 1000)]), 100, 1100, 0, true, false, 0, 0);
    c.accelerate_all_schedules(50);
    assert_eq!(c.get_claimable_amount(1, 100), 500);
}

#[test]
fn claims_are_paid_pro_rata() {
    let mut c = contract();
    c.create_vault_full(s("alice"), basket(&[("XLM", 600), ("USDC", 400)]), 0, 1000, 0, true, false, 0, 0);
    let paid = c.claim_tokens(1, 500, 500);
    assert_eq!(paid, vec![(s("XLM"), 300), (s("USDC"), 200)]);
    assert_eq!(c.get_vault(1).released_amount, 500);
    assert_eq!(c.get_claimable_amount(1, 500), 0);
}

#[test]
fn milestones_drive_vesting() {
    let mut c = contract();
    c.create_vault_full(s("alice"), basket(&[("XLM", 1000)]), 0, 1000, 0, true, false, 0, 0);
    c.set_milestones(1, vec![
        Milestone { id: 1, percentage: 25, is_unlocked: false },
        Milestone { id: 2, percentage: 75, is_unlocked: false },
    ]);
    assert_eq!(c.get_claimable_amount(1, 999), 0);
    c.unlock_milestone(1, 1);
    assert_eq!(c.get_claimable_amount(1, 0), 250);
    assert!(c.get_milestones(1)[0].is_unlocked);
    assert!(!c.get_milestones(1)[1].is_unlocked);
}

#[test]
fn slashing_returns_unvested_to_treasury() {
    let mut c = contract();
    c.create_vault_full(s("alice"), basket(&[("XLM", 600), ("USDC", 400)]), 0, 1000, 0, true, false, 0, 0);
    let transfers = c.slash_unvested_balance(1, s("treasury"), 250);
    assert_eq!(transfers.len(), 2);
    assert_eq!(transfers[0].asset, s("XLM"));
    assert_eq!(transfers[0].to, s("treasury"));
    assert_eq!(transfers[0].amount, 450);
    assert_eq!(transfers[1].amount, 300);
    let v = c.get_vault(1);
    assert_eq!(v.allocation.total_amount(), 250);
    assert_eq!(v.end_time, 250);
    assert_eq!(v.step_duration, 0);
    assert_eq!(c.total_shares, 250);
    assert_eq!(c.get_milestones(1).len(), 0);
}

#[test]
fn voting_power_follows_delegation() {
    let mut c = contract();
    c.create_vault_full(s("alice"), basket(&[("XLM", 1000)]), 0, 1000, 0, false, false, 0, 0);
    c.create_vault_full(s("bob"), basket(&[("XLM", 400)]), 0, 1000, 0, true, false, 0, 0);
    assert_eq!(c.get_voting_power(s("alice")), 1000);
    assert_eq!(c.get_voting_power(s("bob")), 200);
    c.delegate_voting_power(s("bob"), s("alice"));
    assert_eq!(c.get_voting_power(s("alice")), 1200);
    assert_eq!(c.get_voting_power(s("bob")), 0);
    c.delegate_voting_power(s("bob"), s("bob"));
    assert_eq!(c.get_voting_power(s("alice")), 1000);
    assert_eq!(c.get_voting_power(s("bob")), 200);
}

#[test]
fn batch_creation_numbers_vaults_in_order() {
    let mut c = contract();
    let data = BatchCreateData {
        recipients: vec![s("a"), s("b"), s("a")],
        allocations: vec![basket(&[("XLM", 10)]), basket(&[("XLM", 20)]), basket(&[("XLM", 30)])],
        start_times: vec![0, 0, 0],
        end_times: vec![100, 100, 100],
        keeper_fees: vec![0, 0, 0],
        step_durations: vec![5],
    };
    let ids = c.batch_create_vaults_full(data, 7);
    assert_eq!(ids, vec![1, 2, 3]);
    assert_eq!(c.get_user_vaults(s("a")), vec![1, 3]);
    assert_eq!(c.get_vault(1).step_duration, 5);
    assert_eq!(c.get_vault(3).step_duration, 0);
    assert_eq!(c.admin_balance, 1_000_000 - 60);
}

#[test]
fn admin_handover_and_pause() {
    let mut c = contract();
    c.propose_new_admin(s("next"));
    c.accept_ownership();
    assert_eq!(c.get_admin(), &s("next"));
    assert!(!c.is_paused());
    c.toggle_pause();
    assert!(c.is_paused());
}
