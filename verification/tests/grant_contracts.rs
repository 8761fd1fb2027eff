use lumina_core::contracts::fraud_clawback::{
    has_dispute_status, set_dispute_status, FraudClawback, FraudError, DISPUTE_STATUS_CONFIRMED_FRAUD,
    DISPUTE_STATUS_DISMISSED, DISPUTE_STATUS_FROZEN, DISPUTE_STATUS_JURY_SELECTED, DISPUTE_STATUS_RAISED,
    DISPUTE_STATUS_RESOLVED, JURY_SIZE, VOTING_PERIOD_SECS,
};
use lumina_core::contracts::virtual_accumulator::{AccumulatorError, VirtualAccumulator};

fn s(v: &str) -> String {
    v.to_string()
}

fn council_of_five() -> (FraudClawback, String, String) {
    let mut fc = FraudClawback::new();
    let admin = s("admin");
    let dao = s("dao");
    fc.initialize(admin.clone(), dao.clone()).unwrap();
    for j in ["juror1", "juror2", "juror3", "juror4", "juror5"] {
        fc.add_security_council_member(admin.clone(), s(j)).unwrap();
    }
    (fc, admin, dao)
}

#[test]
fn test_fraud_clawback() {
    let (mut fc, _admin, dao) = council_of_five();
    let beneficiary = s("beneficiary");

    let council = fc.get_active_council_members().unwrap();
    assert_eq!(council.len(), 5);

    let grant_id = 12345u64;
    let now = 1_000u64;
    let dispute_id = fc
        .raise_fraud_dispute(dao, grant_id, beneficiary.clone(), Some(s("hash123")), s("Suspicious activity detected"), now)
        .unwrap();

    assert!(fc.is_grant_frozen(grant_id));

    let dispute = fc.read_dispute(dispute_id).unwrap();
    assert_eq!(dispute.target_grant_id, grant_id);
    assert_eq!(dispute.target_beneficiary, beneficiary);
    assert_eq!(dispute.jury_members.len(), JURY_SIZE as usize);
    assert!(has_dispute_status(dispute.status_mask, DISPUTE_STATUS_FROZEN));
    assert!(has_dispute_status(dispute.status_mask, DISPUTE_STATUS_JURY_SELECTED));

    let jury_members = dispute.jury_members.clone();

    fc.cast_jury_vote(jury_members[0].clone(), dispute_id, true, None, now + 1).unwrap();
    fc.cast_jury_vote(jury_members[1].clone(), dispute_id, true, None, now + 2).unwrap();
    fc.cast_jury_vote(jury_members[2].clone(), dispute_id, true, None, now + 3).unwrap();

    let dispute = fc.read_dispute(dispute_id).unwrap();
    assert!(dispute.resolved_timestamp.is_some());
    assert!(dispute.resolution.is_fraud_confirmed);

    assert!(!fc.is_grant_frozen(grant_id));

    assert_eq!(
        fc.cast_jury_vote(jury_members[0].clone(), dispute_id, false, None, now + 4),
        Err(FraudError::AlreadyVoted)
    );

    assert_eq!(
        fc.cast_jury_vote(jury_members[3].clone(), dispute_id, false, None, now + 5),
        Err(FraudError::VotingPeriodExpired)
    );
}

#[test]
fn test_fraud_clawback_dismissal() {
    let (mut fc, _admin, dao) = council_of_five();
    let grant_id = 12346u64;
    let now = 50u64;
    let dispute_id = fc.raise_fraud_dispute(dao, grant_id, s("beneficiary"), None, s("Test dispute"), now).unwrap();

    let jury_members = fc.read_dispute(dispute_id).unwrap().jury_members.clone();

    fc.cast_jury_vote(jury_members[0].clone(), dispute_id, false, None, now).unwrap();
    fc.cast_jury_vote(jury_members[1].clone(), dispute_id, false, None, now).unwrap();
    fc.cast_jury_vote(jury_members[2].clone(), dispute_id, true, None, now).unwrap();

    let dispute = fc.read_dispute(dispute_id).unwrap();
    assert!(dispute.resolved_timestamp.is_none());

    fc.cast_jury_vote(jury_members[3].clone(), dispute_id, false, None, now).unwrap();
    fc.cast_jury_vote(jury_members[4].clone(), dispute_id, false, None, now).unwrap();

    let dispute = fc.read_dispute(dispute_id).unwrap();
    assert!(dispute.resolved_timestamp.is_some());
    assert!(!dispute.resolution.is_fraud_confirmed);
    assert_eq!(dispute.votes_against, 4);
    assert_eq!(dispute.votes_for_fraud, 1);
}

#[test]
fn fraud_dispute_starts_raised_frozen_with_jury() {
    let (mut fc, _admin, dao) = council_of_five();
    let id = fc.raise_fraud_dispute(dao, 5, s("ben"), None, s("d"), 100).unwrap();
    assert_eq!(id, 1);
    let d = fc.read_dispute(id).unwrap();
    assert_eq!(d.status_mask, DISPUTE_STATUS_RAISED | DISPUTE_STATUS_FROZEN | DISPUTE_STATUS_JURY_SELECTED);
    assert_eq!(d.voting_deadline, 100 + VOTING_PERIOD_SECS);
    assert_eq!(d.raised_timestamp, 100);
    assert_eq!(d.jury_members, vec![s("juror1"), s("juror2"), s("juror3"), s("juror4"), s("juror5")]);
}

#[test]
fn fraud_dispute_refusals() {
    let (mut fc, _admin, dao) = council_of_five();
    assert_eq!(fc.raise_fraud_dispute(s("not-dao"), 1, s("b"), None, s("d"), 0), Err(FraudError::NotAuthorized));
    assert_eq!(fc.raise_fraud_dispute(dao.clone(), 1, s("b"), None, s("d"), 0), Ok(1));
    assert_eq!(fc.raise_fraud_dispute(dao.clone(), 1, s("b"), None, s("d"), 0), Err(FraudError::GrantAlreadyFrozen));
    // excluding a council member as beneficiary leaves four eligible jurors, all drawn
    let id = fc.raise_fraud_dispute(dao, 2, s("juror3"), None, s("d"), 0).unwrap();
    assert_eq!(id, 2);
    assert_eq!(fc.read_dispute(id).unwrap().jury_members, vec![s("juror1"), s("juror2"), s("juror4"), s("juror5")]);
    assert_eq!(fc.cast_jury_vote(s("juror1"), 99, true, None, 0), Err(FraudError::DisputeNotFound));
    assert_eq!(fc.cast_jury_vote(s("stranger"), 1, true, None, 0), Err(FraudError::InvalidJuror));
    assert_eq!(
        fc.cast_jury_vote(s("juror1"), 1, true, None, VOTING_PERIOD_SECS + 1),
        Err(FraudError::VotingPeriodExpired)
    );
    let uninitialized = FraudClawback::new();
    assert_eq!(uninitialized.read_admin(), Err(FraudError::NotInitialized));
    assert_eq!(uninitialized.get_active_council_members().err(), Some(FraudError::SecurityCouncilEmpty));
}

#[test]
fn test_overlapping_disputes() {
    let mut fc = FraudClawback::new();
    let admin = s("admin");
    let dao = s("dao");
    let beneficiary1 = s("beneficiary1");
    let beneficiary2 = s("beneficiary2");
    let juror = s("juror");

    fc.initialize(admin.clone(), dao.clone()).unwrap();
    fc.add_security_council_member(admin.clone(), juror).unwrap();

    let grant1 = 1001u64;
    let grant2 = 1002u64;
    let grant3 = 1003u64;

    let dispute1 = fc.raise_fraud_dispute(dao.clone(), grant1, beneficiary1.clone(), None, s("Dispute 1"), 0).unwrap();
    let dispute2 = fc.raise_fraud_dispute(dao.clone(), grant2, beneficiary2.clone(), None, s("Dispute 2"), 0).unwrap();
    let dispute3 = fc.raise_fraud_dispute(dao.clone(), grant3, beneficiary1.clone(), None, s("Dispute 3"), 0).unwrap();

    assert!(fc.is_grant_frozen(grant1));
    assert!(fc.is_grant_frozen(grant2));
    assert!(fc.is_grant_frozen(grant3));

    let d1 = fc.read_dispute(dispute1).unwrap();
    let d2 = fc.read_dispute(dispute2).unwrap();
    let d3 = fc.read_dispute(dispute3).unwrap();

    assert_ne!(d1.dispute_id, d2.dispute_id);
    assert_ne!(d2.dispute_id, d3.dispute_id);
    assert_ne!(d1.dispute_id, d3.dispute_id);

    assert_eq!(d1.target_grant_id, grant1);
    assert_eq!(d2.target_grant_id, grant2);
    assert_eq!(d3.target_grant_id, grant3);

    assert_eq!(d1.target_beneficiary, beneficiary1);
    assert_eq!(d2.target_beneficiary, beneficiary2);
    assert_eq!(d3.target_beneficiary, beneficiary1);
}

#[test]
fn dispute_needs_an_eligible_juror_and_admin_adds_new_members() {
    let mut fc = FraudClawback::new();
    let admin = s("admin");
    let dao = s("dao");
    fc.initialize(admin.clone(), dao.clone()).unwrap();
    assert_eq!(fc.add_security_council_member(admin.clone(), s("ben")), Ok(()));
    assert_eq!(fc.add_security_council_member(admin.clone(), s("ben")), Err(FraudError::InvalidJuror));
    assert_eq!(fc.add_security_council_member(s("mallory"), s("x")), Err(FraudError::NotAuthorized));
    // the only member is the beneficiary: nobody is left to judge
    assert_eq!(fc.raise_fraud_dispute(dao, 7, s("ben"), None, s("d"), 0), Err(FraudError::JurySelectionFailed));
    assert!(!fc.is_grant_frozen(7));
}

#[test]
fn fraud_council_rejects_duplicates_and_strangers() {
    let (mut fc, admin, _dao) = council_of_five();
    assert_eq!(fc.add_security_council_member(admin, s("juror2")), Err(FraudError::InvalidJuror));
    assert_eq!(fc.add_security_council_member(s("mallory"), s("juror9")), Err(FraudError::NotAuthorized));
    assert_eq!(FraudError::SecurityCouncilEmpty.code(), 4014);
}

#[test]
fn dispute_status_bits() {
    let m = set_dispute_status(DISPUTE_STATUS_RAISED, DISPUTE_STATUS_RESOLVED);
    assert!(has_dispute_status(m, DISPUTE_STATUS_RESOLVED));
    assert!(has_dispute_status(m, DISPUTE_STATUS_RAISED));
    assert!(!has_dispute_status(m, DISPUTE_STATUS_DISMISSED));
    assert!(!has_dispute_status(m, DISPUTE_STATUS_CONFIRMED_FRAUD));
}

fn accumulator_with_grant() -> VirtualAccumulator {
    let mut acc = VirtualAccumulator::new();
    acc.initialize(s("admin"), 0, "SG", &None, 0).unwrap();
    acc.create_vesting(1, s("alice"), 100, 100, 200, 100, 0, 0).unwrap();
    acc
}

#[test]
fn accumulator_vests_linearly() {
    let acc = accumulator_with_grant();
    assert_eq!(acc.get_vested_amount(1, 100).unwrap(), 0);
    assert_eq!(acc.get_vested_amount(1, 150).unwrap(), 50);
    assert_eq!(acc.get_vested_amount(1, 200).unwrap(), 100);
    assert_eq!(acc.get_vested_amount(2, 150), Err(AccumulatorError::VestingNotFound));
}

#[test]
fn accumulator_claims_never_exceed_vested() {
    let mut acc = accumulator_with_grant();
    acc.claim(1, 30, 150).unwrap();
    assert_eq!(acc.get_claimable_amount(1, 150).unwrap(), 20);
    assert!(acc.claim(1, 21, 150).is_err());
    assert_eq!(acc.get_claimable_amount(1, 150).unwrap(), 20);
}

#[test]
fn accumulator_refuses_amounts_beyond_fixed_point_range() {
    let mut acc = VirtualAccumulator::new();
    acc.initialize(s("admin"), 0, "SG", &None, 0).unwrap();
    assert_eq!(acc.create_vesting(1, s("alice"), 1000, 100, 200, 100, 0, 0), Err(AccumulatorError::MathOverflow));
}

#[test]
fn accumulator_initialize_once() {
    let mut acc = VirtualAccumulator::new();
    assert_eq!(acc.initialize(s("admin"), 0, "XX", &None, 0), Err(AccumulatorError::NotAuthorized));
    acc.initialize(s("admin"), 0, "US", &None, 0).unwrap();
    assert_eq!(acc.initialize(s("admin"), 0, "US", &None, 0), Err(AccumulatorError::AlreadyInitialized));
}
