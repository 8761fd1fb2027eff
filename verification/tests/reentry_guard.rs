use lumina_core::contracts::anti_reentry_guard::{
    AntiReentryGrantContract, GrantError, GrantState, ReentryError, ReentryStatus, REENTRY_TIMEOUT_SECONDS,
};

#[test]
fn guard_codes_follow_contract_numbering() {
    assert_eq!(ReentryStatus::Idle.code(), 0);
    assert_eq!(ReentryStatus::ClaimInProgress.code(), 1);
    assert_eq!(ReentryStatus::ExternalTransferInProgress.code(), 2);
    assert_eq!(ReentryError::ReentryDetected.code(), 1000);
    assert_eq!(ReentryError::ReentryTimeout.code(), 1004);
}

#[test]
fn fresh_contract_has_no_locked_grant() {
    let mut c = AntiReentryGrantContract::new();
    assert_eq!(c.initialize(), Ok(()));
    assert_eq!(c.is_grant_locked("alice".to_string(), 7, 1_000), Ok(false));
    assert!(c.get_guard_info("alice".to_string(), 7, 1_000).unwrap().is_none());
}

#[test]
fn guard_holds_until_timeout_and_lapses_after() {
    let mut c = AntiReentryGrantContract::new();
    let alice = "alice".to_string();
    c.set_reentry_guard(&alice, 7, ReentryStatus::ClaimInProgress, 1_000).unwrap();
    assert_eq!(c.is_grant_locked(alice.clone(), 7, 1_000), Ok(true));
    assert_eq!(c.is_grant_locked(alice.clone(), 7, 1_000 + REENTRY_TIMEOUT_SECONDS), Ok(true));
    let info = c.get_guard_info(alice.clone(), 7, 1_100).unwrap().unwrap();
    assert_eq!(info.status, 1);
    assert_eq!(info.caller, "alice");
    assert_eq!(info.grant_id, 7);
    assert_eq!(info.timestamp, 1_000);
    assert_eq!(c.is_grant_locked(alice.clone(), 7, 1_301), Ok(false));
    // the stale guard was dropped: an earlier time no longer finds it
    assert_eq!(c.is_grant_locked(alice, 7, 1_000), Ok(false));
}

#[test]
fn guards_are_kept_per_caller_and_grant() {
    let mut c = AntiReentryGrantContract::new();
    let alice = "alice".to_string();
    let bob = "bob".to_string();
    c.set_reentry_guard(&alice, 1, ReentryStatus::ClaimInProgress, 10).unwrap();
    c.set_reentry_guard(&bob, 1, ReentryStatus::ExternalTransferInProgress, 20).unwrap();
    assert_eq!(c.is_grant_locked(alice.clone(), 2, 15), Ok(false));
    assert_eq!(c.get_guard_info(bob.clone(), 1, 25).unwrap().unwrap().status, 2);
    c.emergency_clear_guard(alice.clone(), 1).unwrap();
    assert_eq!(c.is_grant_locked(alice, 1, 25), Ok(false));
    assert_eq!(c.is_grant_locked(bob, 1, 25), Ok(true));
}

#[test]
fn setting_a_guard_again_replaces_it() {
    let mut c = AntiReentryGrantContract::new();
    let alice = "alice".to_string();
    c.set_reentry_guard(&alice, 3, ReentryStatus::ClaimInProgress, 0).unwrap();
    c.set_reentry_guard(&alice, 3, ReentryStatus::ExternalTransferInProgress, 500).unwrap();
    let info = c.get_guard_info(alice.clone(), 3, 700).unwrap().unwrap();
    assert_eq!(info.status, 2);
    assert_eq!(info.timestamp, 500);
    c.clear_reentry_guard(&alice, 3);
    assert!(c.check_reentry_guard(&alice, 3, 700).unwrap().is_none());
}

#[test]
fn guard_taken_near_the_end_of_time_never_lapses() {
    let mut c = AntiReentryGrantContract::new();
    let alice = "alice".to_string();
    c.set_reentry_guard(&alice, 1, ReentryStatus::ClaimInProgress, u64::MAX - 10).unwrap();
    assert_eq!(c.is_grant_locked(alice, 1, u64::MAX), Ok(true));
}

#[test]
fn global_lock_is_taken_once() {
    let mut c = AntiReentryGrantContract::new();
    assert_eq!(c.set_global_lock(ReentryStatus::ClaimInProgress, 5), Ok(()));
    assert_eq!(c.set_global_lock(ReentryStatus::ExternalTransferInProgress, 6), Err(ReentryError::ReentryDetected));
    c.clear_global_lock();
    assert_eq!(c.set_global_lock(ReentryStatus::ExternalTransferInProgress, 7), Ok(()));
}

#[test]
fn open_claim_refuses_external_transfer_until_released() {
    let mut c = AntiReentryGrantContract::new();
    let alice = "alice".to_string();
    assert_eq!(c.begin_withdrawal(&alice, 9, false, 100), Ok(()));
    assert_eq!(c.get_guard_info(alice.clone(), 9, 100).unwrap().unwrap().status, 1);
    assert_eq!(c.begin_withdrawal(&alice, 9, true, 150), Err(ReentryError::InvalidReentryState));
    // the refusal left the claim guard as it was
    assert_eq!(c.get_guard_info(alice.clone(), 9, 150).unwrap().unwrap().timestamp, 100);
    // another claim by the same caller is let through and refreshes the guard
    assert_eq!(c.begin_withdrawal(&alice, 9, false, 160), Ok(()));
    assert_eq!(c.get_guard_info(alice.clone(), 9, 160).unwrap().unwrap().timestamp, 160);
    c.clear_reentry_guard(&alice, 9);
    assert_eq!(c.begin_withdrawal(&alice, 9, true, 170), Ok(()));
    assert_eq!(c.begin_withdrawal(&alice, 9, false, 171), Err(ReentryError::InvalidReentryState));
}

#[test]
fn stale_guard_does_not_block_a_withdrawal() {
    let mut c = AntiReentryGrantContract::new();
    let alice = "alice".to_string();
    assert_eq!(c.begin_withdrawal(&alice, 4, true, 0), Ok(()));
    assert_eq!(c.begin_withdrawal(&alice, 4, false, 301), Ok(()));
    assert_eq!(c.get_guard_info(alice, 4, 301).unwrap().unwrap().status, 1);
}

#[test]
fn guards_of_other_grants_do_not_interfere() {
    let mut c = AntiReentryGrantContract::new();
    let alice = "alice".to_string();
    assert_eq!(c.begin_withdrawal(&alice, 1, false, 0), Ok(()));
    assert_eq!(c.begin_withdrawal(&alice, 2, true, 0), Ok(()));
    assert_eq!(c.begin_withdrawal(&"bob".to_string(), 1, true, 0), Ok(()));
}

fn grant(claimable: i128, withdrawn: i128, total: i128) -> GrantState {
    GrantState {
        recipient: "alice".to_string(),
        total_amount: total,
        claimable,
        withdrawn,
        active: true,
        completed: false,
    }
}

#[test]
fn withdrawal_moves_claimable_and_leaves_no_guard() {
    let mut c = AntiReentryGrantContract::new();
    let mut g = grant(400, 100, 1000);
    assert_eq!(c.withdraw_with_guard(&mut g, 7, 150, false, 10), Ok(()));
    assert_eq!(g.claimable, 250);
    assert_eq!(g.withdrawn, 250);
    assert!(g.active && !g.completed);
    assert_eq!(c.is_grant_locked("alice".to_string(), 7, 10), Ok(false));
}

#[test]
fn withdrawal_completes_a_fully_accounted_grant() {
    let mut c = AntiReentryGrantContract::new();
    let mut g = grant(300, 700, 1000);
    assert_eq!(c.withdraw_with_guard(&mut g, 1, 300, true, 0), Ok(()));
    assert_eq!(g.claimable, 0);
    assert_eq!(g.withdrawn, 1000);
    assert!(g.completed && !g.active);
}

#[test]
fn withdrawal_refusals_in_order_and_without_effect() {
    let mut c = AntiReentryGrantContract::new();
    let mut g = grant(100, 0, 1000);
    assert_eq!(c.withdraw_with_guard(&mut g, 1, 0, false, 0), Err(GrantError::InvalidAmount));
    assert_eq!(c.withdraw_with_guard(&mut g, 1, 101, false, 0), Err(GrantError::InvalidAmount));
    let mut inactive = grant(100, 0, 1000);
    inactive.active = false;
    assert_eq!(c.withdraw_with_guard(&mut inactive, 1, 5, false, 0), Err(GrantError::InvalidState));
    // a claim in progress blocks an external transfer, which changes nothing
    c.set_reentry_guard(&"alice".to_string(), 1, ReentryStatus::ClaimInProgress, 50).unwrap();
    assert_eq!(c.withdraw_with_guard(&mut g, 1, 10, true, 60), Err(GrantError::InvalidState));
    assert_eq!(g.claimable, 100);
    assert_eq!(c.is_grant_locked("alice".to_string(), 1, 60), Ok(true));
    // a claim of the same kind goes through and releases the guard
    assert_eq!(c.withdraw_with_guard(&mut g, 1, 10, false, 60), Ok(()));
    assert_eq!(c.is_grant_locked("alice".to_string(), 1, 60), Ok(false));
    let mut huge = grant(10, i128::MAX - 5, i128::MAX);
    assert_eq!(c.withdraw_with_guard(&mut huge, 2, 10, false, 0), Err(GrantError::MathOverflow));
}
