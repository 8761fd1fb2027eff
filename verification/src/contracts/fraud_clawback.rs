use std::collections::{HashMap, HashSet};
use vstd::prelude::*;

use crate::contracts::common::Address;

verus! {

broadcast use vstd::std_specs::hash::group_hash_axioms;

pub const DISPUTE_STATUS_RAISED: u32 = 0b00000001;

pub const DISPUTE_STATUS_FROZEN: u32 = 0b00000010;

pub const DISPUTE_STATUS_JURY_SELECTED: u32 = 0b00000100;

pub const DISPUTE_STATUS_VOTING: u32 = 0b00001000;

pub const DISPUTE_STATUS_RESOLVED: u32 = 0b00010000;

pub const DISPUTE_STATUS_DISMISSED: u32 = 0b00100000;

pub const DISPUTE_STATUS_CONFIRMED_FRAUD: u32 = 0b01000000;

/// Jurors drawn for each dispute.
pub const JURY_SIZE: u32 = 5;

/// Votes that settle a dispute, and fraud votes that confirm it.
pub const VOTING_THRESHOLD: u32 = 3;

pub const VOTING_PERIOD_DAYS: u64 = 7;

/// The voting period in seconds.
pub const VOTING_PERIOD_SECS: u64 = 604800;

/// The reputation a new council member starts with.
pub const DEFAULT_RISK_RATING: u32 = 50;

#[derive(Clone, Copy, PartialEq, Eq, Structural, Debug)]
pub enum FraudError {
    NotInitialized,
    NotAuthorized,
    DisputeNotFound,
    DisputeAlreadyExists,
    InvalidStatus,
    GrantNotFrozen,
    JurySelectionFailed,
    VotingPeriodExpired,
    InsufficientVotes,
    AlreadyVoted,
    InvalidJuror,
    GrantAlreadyFrozen,
    NoFrozenAssets,
    SecurityCouncilEmpty,
}

impl FraudError {
    /// The contract error code.
    pub fn code(&self) -> (c: u32)
        ensures
            4001 <= c <= 4014,
    {
        match self {
            FraudError::NotInitialized => 4001,
            FraudError::NotAuthorized => 4002,
            FraudError::DisputeNotFound => 4003,
            FraudError::DisputeAlreadyExists => 4004,
            FraudError::InvalidStatus => 4005,
            FraudError::GrantNotFrozen => 4006,
            FraudError::JurySelectionFailed => 4007,
            FraudError::VotingPeriodExpired => 4008,
            FraudError::InsufficientVotes => 4009,
            FraudError::AlreadyVoted => 4010,
            FraudError::InvalidJuror => 4011,
            FraudError::GrantAlreadyFrozen => 4012,
            FraudError::NoFrozenAssets => 4013,
            FraudError::SecurityCouncilEmpty => 4014,
        }
    }
}

pub struct FraudResolution {
    pub is_fraud_confirmed: bool,
    pub slash_amount: i128,
    pub returned_to_treasury: bool,
    pub juror_votes: Vec<JurorVote>,
}

pub struct JurorVote {
    pub juror: Address,
    pub vote: bool,
    pub vote_timestamp: u64,
    pub cryptographic_signature: Option<String>,
}

pub struct FraudDispute {
    pub dispute_id: u64,
    pub target_grant_id: u64,
    pub target_beneficiary: Address,
    pub raised_by: Address,
    pub raised_timestamp: u64,
    pub status_mask: u32,
    pub evidence_hash: Option<String>,
    pub description: String,
    pub jury_members: Vec<Address>,
    pub votes_for_fraud: u32,
    pub votes_against: u32,
    pub voting_deadline: u64,
    pub resolved_timestamp: Option<u64>,
    pub resolution: FraudResolution,
}

pub struct SecurityCouncilMember {
    pub address: Address,
    pub is_active: bool,
    pub risk_rating: u32,
    pub cases_participated: u64,
    pub votes_cast: u64,
}

impl SecurityCouncilMember {
    pub fn duplicate(&self) -> (r: Self)
        ensures
            r == *self,
    {
        SecurityCouncilMember {
            address: self.address.clone(),
            is_active: self.is_active,
            risk_rating: self.risk_rating,
            cases_participated: self.cases_participated,
            votes_cast: self.votes_cast,
        }
    }
}

/// Whether `flag` is set in the status mask.
pub fn has_dispute_status(status_mask: u32, flag: u32) -> (b: bool)
    ensures
        b == (status_mask & flag != 0),
{
    (status_mask & flag) != 0
}

/// The status mask with `flag` set.
pub fn set_dispute_status(status_mask: u32, flag: u32) -> (m: u32)
    ensures
        m == status_mask | flag,
{
    status_mask | flag
}

/// Setting a flag makes it observable and keeps every flag already set.
pub proof fn lemma_set_status_sets_and_keeps(mask: u32, flag: u32, other: u32)
    ensures
        flag != 0 ==> (mask | flag) & flag != 0,
        mask & other != 0 ==> (mask | flag) & other != 0,
{
    assert(flag != 0 ==> (mask | flag) & flag != 0) by (bit_vector);
    assert(mask & other != 0 ==> (mask | flag) & other != 0) by (bit_vector);
}

// ---------------------------------------------------------------------
// Jury selection
// ---------------------------------------------------------------------

/// Whether `a` is among `addrs`.
pub open spec fn addr_in(addrs: Seq<Address>, a: Seq<char>) -> bool {
    exists|i: int| 0 <= i < addrs.len() && addrs[i]@ == a
}

/// The members of `council` whose address is not excluded, in order.
pub open spec fn eligible_addresses(council: Seq<SecurityCouncilMember>, exclude: Seq<Address>) -> Seq<Address>
    decreases council.len(),
{
    if council.len() == 0 {
        Seq::empty()
    } else {
        let rest = eligible_addresses(council.drop_last(), exclude);
        if addr_in(exclude, council.last().address@) { rest } else { rest.push(council.last().address) }
    }
}

/// The jury drawn from `eligible` at `timestamp`: the members at
/// consecutive positions from `timestamp` modulo their number.
pub open spec fn jury_from(eligible: Seq<Address>, timestamp: u64) -> Seq<Address> {
    Seq::new(JURY_SIZE as nat, |k: int| eligible[(timestamp + k) % (eligible.len() as int)])
}

pub open spec fn spec_select_jury(
    council: Seq<SecurityCouncilMember>,
    exclude: Seq<Address>,
    timestamp: u64,
) -> Result<Seq<Address>, FraudError> {
    let eligible = eligible_addresses(council, exclude);
    if eligible.len() == 0 {
        Err(FraudError::JurySelectionFailed)
    } else if eligible.len() < JURY_SIZE {
        Ok(eligible)
    } else {
        Ok(jury_from(eligible, timestamp))
    }
}

/// The active members of `council`, in order.
pub open spec fn active_members(council: Seq<SecurityCouncilMember>) -> Seq<SecurityCouncilMember>
    decreases council.len(),
{
    if council.len() == 0 {
        Seq::empty()
    } else {
        let rest = active_members(council.drop_last());
        if council.last().is_active { rest.push(council.last()) } else { rest }
    }
}

pub open spec fn spec_active_council(council: Seq<SecurityCouncilMember>) -> Result<Seq<SecurityCouncilMember>, FraudError> {
    if council.len() == 0 || active_members(council).len() == 0 {
        Err(FraudError::SecurityCouncilEmpty)
    } else {
        Ok(active_members(council))
    }
}

proof fn lemma_distinct_offsets(t: int, a: int, b: int, n: int)
    requires
        0 <= t,
        0 <= a < b < n,
    ensures
        (t + a) % n != (t + b) % n,
{
    let x = t + a;
    let y = t + b;
    vstd::arithmetic::div_mod::lemma_fundamental_div_mod(x, n);
    vstd::arithmetic::div_mod::lemma_fundamental_div_mod(y, n);
    if x % n == y % n {
        let d = y / n - x / n;
        assert(y - x == n * d) by (nonlinear_arith)
            requires
                x == n * (x / n) + x % n,
                y == n * (y / n) + y % n,
                x % n == y % n,
                d == y / n - x / n,
        ;
        assert(false) by (nonlinear_arith)
            requires
                y - x == n * d,
                0 < y - x < n,
                n > 0,
        ;
    }
}

fn contains_addr(addrs: &Vec<Address>, a: &Address) -> (b: bool)
    ensures
        b == addr_in(addrs@, a@),
{
    let mut i: usize = 0;
    while i < addrs.len()
        invariant
            i <= addrs.len(),
            forall|j: int| 0 <= j < i ==> addrs@[j]@ != a@,
        decreases addrs.len() - i,
    {
        if addrs[i] == *a {
            return true;
        }
        i = i + 1;
    }
    false
}

fn contains_u64(xs: &Vec<u64>, x: u64) -> (b: bool)
    ensures
        b == xs@.contains(x),
{
    let mut i: usize = 0;
    while i < xs.len()
        invariant
            i <= xs.len(),
            forall|j: int| 0 <= j < i ==> xs@[j] != x,
        decreases xs.len() - i,
    {
        if xs[i] == x {
            assert(xs@[i as int] == x);
            return true;
        }
        i = i + 1;
    }
    false
}

/// Draws the jury for a dispute from the council, leaving out the excluded
/// addresses: `JURY_SIZE` eligible members picked from a position set by
/// the timestamp, or every eligible member when there are fewer; refused
/// when no member is eligible.
pub fn select_jury_members(
    council_members: &Vec<SecurityCouncilMember>,
    exclude_addresses: &Vec<Address>,
    timestamp: u64,
) -> (r: Result<Vec<Address>, FraudError>)
    requires
        timestamp + JURY_SIZE <= u64::MAX,
    ensures
        match spec_select_jury(council_members@, exclude_addresses@, timestamp) {
            Ok(j) => r matches Ok(v) && v@ == j,
            Err(e) => r == Err::<Vec<Address>, FraudError>(e),
        },
{
    let mut eligible: Vec<Address> = Vec::new();
    let mut i: usize = 0;
    while i < council_members.len()
        invariant
            i <= council_members.len(),
            eligible@ == eligible_addresses(council_members@.take(i as int), exclude_addresses@),
        decreases council_members.len() - i,
    {
        assert(council_members@.take(i + 1).drop_last() == council_members@.take(i as int));
        if !contains_addr(exclude_addresses, &council_members[i].address) {
            eligible.push(council_members[i].address.clone());
        }
        i = i + 1;
    }
    assert(council_members@.take(i as int) == council_members@);
    if eligible.len() == 0 {
        return Err(FraudError::JurySelectionFailed);
    }
    if eligible.len() < JURY_SIZE as usize {
        return Ok(eligible);
    }
    let n = eligible.len();
    let mut jury: Vec<Address> = Vec::new();
    let mut used_indices: Vec<u64> = Vec::new();
    while jury.len() < JURY_SIZE as usize
        invariant
            n == eligible.len(),
            n >= JURY_SIZE,
            timestamp + JURY_SIZE <= u64::MAX,
            jury.len() <= JURY_SIZE,
            used_indices.len() == jury.len(),
            forall|k: int| 0 <= k < jury.len() ==> used_indices@[k] == (timestamp + k) % (n as int),
            forall|k: int| 0 <= k < jury.len() ==> #[trigger] jury@[k] == eligible@[(timestamp + k) % (n as int)],
        decreases JURY_SIZE - jury.len(),
    {
        let index = (timestamp + jury.len() as u64) % (n as u64);
        proof {
            assert forall|k: int| 0 <= k < jury.len() implies used_indices@[k] != index by {
                lemma_distinct_offsets(timestamp as int, k, jury.len() as int, n as int);
            }
        }
        let already_used = contains_u64(&used_indices, index);
        if !already_used {
            jury.push(eligible[index as usize].clone());
            used_indices.push(index);
        }
    }
    assert(jury@ =~= jury_from(eligible@, timestamp));
    Ok(jury)
}


// ---------------------------------------------------------------------
// Disputes
// ---------------------------------------------------------------------

/// Whether `d` is the dispute just raised with the given parameters.
pub open spec fn is_fresh_dispute(
    d: FraudDispute,
    id: u64,
    grant_id: u64,
    beneficiary: Address,
    dao: Address,
    now: u64,
    evidence_hash: Option<String>,
    description: String,
    jury: Seq<Address>,
) -> bool {
    &&& d.dispute_id == id
    &&& d.target_grant_id == grant_id
    &&& d.target_beneficiary == beneficiary
    &&& d.raised_by == dao
    &&& d.raised_timestamp == now
    &&& d.status_mask == DISPUTE_STATUS_RAISED | DISPUTE_STATUS_FROZEN | DISPUTE_STATUS_JURY_SELECTED
    &&& d.evidence_hash == evidence_hash
    &&& d.description == description
    &&& d.jury_members@ == jury
    &&& d.votes_for_fraud == 0
    &&& d.votes_against == 0
    &&& d.voting_deadline == now + VOTING_PERIOD_SECS
    &&& d.resolved_timestamp is None
    &&& !d.resolution.is_fraud_confirmed
    &&& d.resolution.slash_amount == 0
    &&& !d.resolution.returned_to_treasury
    &&& d.resolution.juror_votes@.len() == 0
}

/// Whether fraud is confirmed when the dispute is resolved at `now`.
pub open spec fn fraud_confirmed_at(votes_for: u32, votes_against: u32, deadline: u64, now: u64) -> bool {
    !(now > deadline && votes_for + votes_against < JURY_SIZE) && votes_for >= VOTING_THRESHOLD
}

/// Whether `after` is `before` resolved at `now`.
pub open spec fn is_resolution_of(before: FraudDispute, after: FraudDispute, now: u64) -> bool {
    let confirmed = fraud_confirmed_at(before.votes_for_fraud, before.votes_against, before.voting_deadline, now);
    &&& after.resolution.is_fraud_confirmed == confirmed
    &&& after.resolution.returned_to_treasury == (if confirmed { true } else { before.resolution.returned_to_treasury })
    &&& after.status_mask == (if confirmed {
        before.status_mask | DISPUTE_STATUS_CONFIRMED_FRAUD | DISPUTE_STATUS_RESOLVED
    } else {
        before.status_mask | DISPUTE_STATUS_DISMISSED | DISPUTE_STATUS_RESOLVED
    })
    &&& after.resolved_timestamp == Some(now)
    &&& after.resolution.slash_amount == before.resolution.slash_amount
    &&& after.resolution.juror_votes == before.resolution.juror_votes
    &&& after.dispute_id == before.dispute_id
    &&& after.target_grant_id == before.target_grant_id
    &&& after.target_beneficiary == before.target_beneficiary
    &&& after.raised_by == before.raised_by
    &&& after.raised_timestamp == before.raised_timestamp
    &&& after.evidence_hash == before.evidence_hash
    &&& after.description == before.description
    &&& after.jury_members == before.jury_members
    &&& after.votes_for_fraud == before.votes_for_fraud
    &&& after.votes_against == before.votes_against
    &&& after.voting_deadline == before.voting_deadline
}

/// Whether the votes settle a dispute: enough fraud votes confirm it, and
/// it is decided once the whole jury has voted.
pub open spec fn settles(votes_for: int, votes_against: int) -> bool {
    votes_for >= VOTING_THRESHOLD || votes_for + votes_against >= JURY_SIZE
}

/// Whether `after` is `before` with one more vote recorded, and resolved
/// once the votes settle it.
pub open spec fn is_vote_on(before: FraudDispute, after: FraudDispute, juror: Address, vote: bool, now: u64, sig: Option<String>) -> bool {
    let for_fraud = before.votes_for_fraud + if vote { 1int } else { 0int };
    let against = before.votes_against + if vote { 0int } else { 1int };
    &&& after.votes_for_fraud == for_fraud
    &&& after.votes_against == against
    &&& after.resolution.juror_votes@ == before.resolution.juror_votes@.push(JurorVote {
        juror,
        vote,
        vote_timestamp: now,
        cryptographic_signature: sig,
    })
    &&& if settles(for_fraud, against) {
        let confirmed = fraud_confirmed_at(for_fraud as u32, against as u32, before.voting_deadline, now);
        &&& after.resolution.is_fraud_confirmed == confirmed
        &&& after.resolution.returned_to_treasury == (if confirmed { true } else { before.resolution.returned_to_treasury })
        &&& after.status_mask == (if confirmed {
            before.status_mask | DISPUTE_STATUS_CONFIRMED_FRAUD | DISPUTE_STATUS_RESOLVED
        } else {
            before.status_mask | DISPUTE_STATUS_DISMISSED | DISPUTE_STATUS_RESOLVED
        })
        &&& after.resolved_timestamp == Some(now)
    } else {
        &&& after.resolution.is_fraud_confirmed == before.resolution.is_fraud_confirmed
        &&& after.resolution.returned_to_treasury == before.resolution.returned_to_treasury
        &&& after.status_mask == before.status_mask
        &&& after.resolved_timestamp == before.resolved_timestamp
    }
    &&& after.resolution.slash_amount == before.resolution.slash_amount
    &&& after.dispute_id == before.dispute_id
    &&& after.target_grant_id == before.target_grant_id
    &&& after.target_beneficiary == before.target_beneficiary
    &&& after.raised_by == before.raised_by
    &&& after.raised_timestamp == before.raised_timestamp
    &&& after.evidence_hash == before.evidence_hash
    &&& after.description == before.description
    &&& after.jury_members == before.jury_members
    &&& after.voting_deadline == before.voting_deadline
}

/// Dispute resolution by a security-council jury, with grant freezing.
pub struct FraudClawback {
    admin: Option<Address>,
    dao: Option<Address>,
    council: Vec<SecurityCouncilMember>,
    disputes: HashMap<u64, FraudDispute>,
    votes: Vec<(Address, u64)>,
    frozen: HashSet<u64>,
    dispute_count: u64,
}

/// The marker of the deployed fraud-clawback contract.
pub struct FraudClawbackContract;

/// The set of (juror, dispute) pairs that have voted.
pub open spec fn vote_set(votes: Seq<(Address, u64)>) -> Set<(Seq<char>, u64)> {
    Set::new(|p: (Seq<char>, u64)| exists|i: int| 0 <= i < votes.len() && votes[i].0@ == p.0 && votes[i].1 == p.1)
}

impl FraudClawback {
    pub closed spec fn admin(&self) -> Option<Address> {
        self.admin
    }

    pub closed spec fn dao(&self) -> Option<Address> {
        self.dao
    }

    /// The security council, in the order members joined.
    pub closed spec fn council(&self) -> Seq<SecurityCouncilMember> {
        self.council@
    }

    pub closed spec fn disputes(&self) -> Map<u64, FraudDispute> {
        self.disputes@
    }

    /// The (juror, dispute) pairs that have voted.
    pub closed spec fn voted(&self) -> Set<(Seq<char>, u64)> {
        vote_set(self.votes@)
    }

    /// The grants frozen by an open dispute.
    pub closed spec fn frozen(&self) -> Set<u64> {
        self.frozen@
    }

    /// How many disputes have been raised; the last one's id.
    pub closed spec fn dispute_count(&self) -> u64 {
        self.dispute_count
    }

    /// The storage of a freshly deployed contract.
    pub fn new() -> (c: Self)
        ensures
            c.admin() is None,
            c.dao() is None,
            c.council() == Seq::<SecurityCouncilMember>::empty(),
            c.disputes() == Map::<u64, FraudDispute>::empty(),
            c.voted() == Set::<(Seq<char>, u64)>::empty(),
            c.frozen() == Set::<u64>::empty(),
            c.dispute_count() == 0,
    {
        let c = FraudClawback {
            admin: None,
            dao: None,
            council: Vec::new(),
            disputes: HashMap::new(),
            votes: Vec::new(),
            frozen: HashSet::new(),
            dispute_count: 0,
        };
        assert(c.voted() =~= Set::<(Seq<char>, u64)>::empty());
        c
    }

    /// Sets the admin and the DAO once, with an empty council.
    pub fn initialize(&mut self, admin: Address, dao: Address) -> (r: Result<(), FraudError>)
        ensures
            old(self).admin() is Some ==> r == Err::<(), FraudError>(FraudError::NotInitialized) && *final(self) == *old(self),
            old(self).admin() is None ==> r is Ok && final(self).admin() == Some(admin) && final(self).dao() == Some(dao)
                && final(self).council() == Seq::<SecurityCouncilMember>::empty()
                && final(self).disputes() == old(self).disputes() && final(self).voted() == old(self).voted()
                && final(self).frozen() == old(self).frozen() && final(self).dispute_count() == old(self).dispute_count(),
    {
        if self.admin.is_some() {
            return Err(FraudError::NotInitialized);
        }
        self.admin = Some(admin);
        self.dao = Some(dao);
        self.council = Vec::new();
        Ok(())
    }

    pub fn read_admin(&self) -> (r: Result<Address, FraudError>)
        ensures
            match self.admin() {
                Some(a) => r == Ok::<Address, FraudError>(a),
                None => r == Err::<Address, FraudError>(FraudError::NotInitialized),
            },
    {
        match &self.admin {
            Some(a) => Ok(a.clone()),
            None => Err(FraudError::NotInitialized),
        }
    }

    pub fn read_dao(&self) -> (r: Result<Address, FraudError>)
        ensures
            match self.dao() {
                Some(a) => r == Ok::<Address, FraudError>(a),
                None => r == Err::<Address, FraudError>(FraudError::NotInitialized),
            },
    {
        match &self.dao {
            Some(a) => Ok(a.clone()),
            None => Err(FraudError::NotInitialized),
        }
    }

    /// The admin adds a new, active council member with the default rating.
    pub fn add_security_council_member(&mut self, admin: Address, member: Address) -> (r: Result<(), FraudError>)
        ensures
            old(self).admin() is None ==> r == Err::<(), FraudError>(FraudError::NotInitialized),
            (old(self).admin() matches Some(a) && a@ != admin@) ==> r == Err::<(), FraudError>(FraudError::NotAuthorized),
            (old(self).admin() matches Some(a) && a@ == admin@) && (exists|i: int| 0 <= i < old(self).council().len()
                && old(self).council()[i].address@ == member@) ==> r == Err::<(), FraudError>(FraudError::InvalidJuror),
            (old(self).admin() matches Some(a) && a@ == admin@) && (forall|i: int| 0 <= i < old(self).council().len()
                ==> old(self).council()[i].address@ != member@) ==> r is Ok,
            r is Err ==> *final(self) == *old(self),
            r is Ok ==> (old(self).admin() matches Some(a) && a@ == admin@)
                && (forall|i: int| 0 <= i < old(self).council().len() ==> old(self).council()[i].address@ != member@)
                && final(self).council() == old(self).council().push(SecurityCouncilMember {
                    address: member,
                    is_active: true,
                    risk_rating: DEFAULT_RISK_RATING,
                    cases_participated: 0,
                    votes_cast: 0,
                })
                && final(self).admin() == old(self).admin() && final(self).dao() == old(self).dao()
                && final(self).disputes() == old(self).disputes() && final(self).voted() == old(self).voted()
                && final(self).frozen() == old(self).frozen() && final(self).dispute_count() == old(self).dispute_count(),
    {
        match &self.admin {
            Some(a) => {
                if *a != admin {
                    return Err(FraudError::NotAuthorized);
                }
            },
            None => {
                return Err(FraudError::NotInitialized);
            },
        }
        let mut i: usize = 0;
        while i < self.council.len()
            invariant
                i <= self.council.len(),
                self.admin is Some,
                self.admin->0@ == admin@,
                forall|j: int| 0 <= j < i ==> self.council@[j].address@ != member@,
            decreases self.council.len() - i,
        {
            if self.council[i].address == member {
                assert(old(self).council()[i as int].address@ == member@);
                return Err(FraudError::InvalidJuror);
            }
            i = i + 1;
        }
        self.council.push(SecurityCouncilMember {
            address: member,
            is_active: true,
            risk_rating: DEFAULT_RISK_RATING,
            cases_participated: 0,
            votes_cast: 0,
        });
        Ok(())
    }

    /// The active council members, in order; an error when there are none.
    pub fn get_active_council_members(&self) -> (r: Result<Vec<SecurityCouncilMember>, FraudError>)
        ensures
            match spec_active_council(self.council()) {
                Ok(a) => r matches Ok(v) && v@ == a,
                Err(e) => r matches Err(x) && x == e,
            },
    {
        if self.council.len() == 0 {
            return Err(FraudError::SecurityCouncilEmpty);
        }
        let mut active: Vec<SecurityCouncilMember> = Vec::new();
        let mut i: usize = 0;
        while i < self.council.len()
            invariant
                i <= self.council.len(),
                active@ == active_members(self.council@.take(i as int)),
            decreases self.council.len() - i,
        {
            assert(self.council@.take(i + 1).drop_last() == self.council@.take(i as int));
            if self.council[i].is_active {
                active.push(self.council[i].duplicate());
            }
            i = i + 1;
        }
        assert(self.council@.take(i as int) == self.council@);
        if active.len() == 0 {
            return Err(FraudError::SecurityCouncilEmpty);
        }
        Ok(active)
    }

    fn has_voted(&self, juror: &Address, dispute_id: u64) -> (b: bool)
        ensures
            b == self.voted().contains((juror@, dispute_id)),
    {
        let mut i: usize = 0;
        while i < self.votes.len()
            invariant
                i <= self.votes.len(),
                forall|j: int| 0 <= j < i ==> !(self.votes@[j].0@ == juror@ && self.votes@[j].1 == dispute_id),
            decreases self.votes.len() - i,
        {
            if self.votes[i].0 == *juror && self.votes[i].1 == dispute_id {
                return true;
            }
            i = i + 1;
        }
        false
    }

    pub fn read_dispute(&self, dispute_id: u64) -> (r: Result<&FraudDispute, FraudError>)
        ensures
            match r {
                Ok(d) => self.disputes().contains_key(dispute_id) && *d == self.disputes()[dispute_id],
                Err(e) => e == FraudError::DisputeNotFound && !self.disputes().contains_key(dispute_id),
            },
    {
        match self.disputes.get(&dispute_id) {
            Some(d) => Ok(d),
            None => Err(FraudError::DisputeNotFound),
        }
    }

    pub fn is_grant_frozen(&self, grant_id: u64) -> (b: bool)
        ensures
            b == self.frozen().contains(grant_id),
    {
        self.frozen.contains(&grant_id)
    }

    /// Why a dispute on `grant_id` raised by `dao` at `now` is refused, if it is.
    pub open spec fn raise_refusal(&self, dao: Address, grant_id: u64, beneficiary: Address, now: u64) -> Option<FraudError> {
        match self.dao() {
            None => Some(FraudError::NotInitialized),
            Some(d) => if d@ != dao@ {
                Some(FraudError::NotAuthorized)
            } else if self.frozen().contains(grant_id) {
                Some(FraudError::GrantAlreadyFrozen)
            } else {
                match spec_active_council(self.council()) {
                    Err(e) => Some(e),
                    Ok(active) => match spec_select_jury(active, seq![dao, beneficiary], now) {
                        Err(e) => Some(e),
                        Ok(_) => None,
                    },
                }
            },
        }
    }

    /// The DAO raises a dispute on a grant: the grant is frozen and a jury is
    /// drawn from the active council, leaving out the DAO and the beneficiary.
    /// Disputes are numbered from one up, in the order they are raised.
    pub fn raise_fraud_dispute(
        &mut self,
        dao: Address,
        grant_id: u64,
        beneficiary: Address,
        evidence_hash: Option<String>,
        description: String,
        now: u64,
    ) -> (r: Result<u64, FraudError>)
        requires
            now + VOTING_PERIOD_SECS <= u64::MAX,
            old(self).dispute_count() < u64::MAX,
        ensures
            match old(self).raise_refusal(dao, grant_id, beneficiary, now) {
                Some(e) => r == Err::<u64, FraudError>(e) && *final(self) == *old(self),
                None => {
                    let jury = spec_select_jury(spec_active_council(old(self).council())->Ok_0, seq![dao, beneficiary], now)->Ok_0;
                    let id = (old(self).dispute_count() + 1) as u64;
                    &&& r == Ok::<u64, FraudError>(id)
                    &&& final(self).dispute_count() == id
                    &&& final(self).disputes().contains_key(id)
                    &&& is_fresh_dispute(final(self).disputes()[id], id, grant_id, beneficiary, dao, now,
                        evidence_hash, description, jury)
                    &&& final(self).disputes() == old(self).disputes().insert(id, final(self).disputes()[id])
                    &&& final(self).frozen() == old(self).frozen().insert(grant_id)
                    &&& final(self).admin() == old(self).admin()
                    &&& final(self).dao() == old(self).dao()
                    &&& final(self).council() == old(self).council()
                    &&& final(self).voted() == old(self).voted()
                },
            },
    {
        match &self.dao {
            Some(d) => {
                if *d != dao {
                    return Err(FraudError::NotAuthorized);
                }
            },
            None => {
                return Err(FraudError::NotInitialized);
            },
        }
        if self.frozen.contains(&grant_id) {
            return Err(FraudError::GrantAlreadyFrozen);
        }
        let council_members = match self.get_active_council_members() {
            Ok(c) => c,
            Err(e) => {
                return Err(e);
            },
        };
        let mut exclude: Vec<Address> = Vec::new();
        exclude.push(dao.clone());
        exclude.push(beneficiary.clone());
        assert(exclude@ == seq![dao, beneficiary]);
        let jury_members = match select_jury_members(&council_members, &exclude, now) {
            Ok(j) => j,
            Err(e) => {
                return Err(e);
            },
        };
        let dispute_id = self.dispute_count + 1;
        let dispute = FraudDispute {
            dispute_id,
            target_grant_id: grant_id,
            target_beneficiary: beneficiary,
            raised_by: dao,
            raised_timestamp: now,
            status_mask: set_dispute_status(0, DISPUTE_STATUS_RAISED) | DISPUTE_STATUS_FROZEN | DISPUTE_STATUS_JURY_SELECTED,
            evidence_hash,
            description,
            jury_members,
            votes_for_fraud: 0,
            votes_against: 0,
            voting_deadline: now + VOTING_PERIOD_SECS,
            resolved_timestamp: None,
            resolution: FraudResolution {
                is_fraud_confirmed: false,
                slash_amount: 0,
                returned_to_treasury: false,
                juror_votes: Vec::new(),
            },
        };
        assert((0u32 | 1u32) | 2u32 | 4u32 == (1u32 | 2u32) | 4u32) by (bit_vector);
        self.frozen.insert(grant_id);
        self.disputes.insert(dispute_id, dispute);
        self.dispute_count = dispute_id;
        Ok(dispute_id)
    }

    /// Why the vote of `juror` on a dispute at `now` is refused, if it is.
    pub open spec fn vote_refusal(&self, juror: Address, dispute_id: u64, now: u64) -> Option<FraudError> {
        if !self.disputes().contains_key(dispute_id) {
            Some(FraudError::DisputeNotFound)
        } else if !addr_in(self.disputes()[dispute_id].jury_members@, juror@) {
            Some(FraudError::InvalidJuror)
        } else if self.voted().contains((juror@, dispute_id)) {
            Some(FraudError::AlreadyVoted)
        } else if now > self.disputes()[dispute_id].voting_deadline
            || self.disputes()[dispute_id].resolved_timestamp is Some {
            Some(FraudError::VotingPeriodExpired)
        } else {
            None
        }
    }

    /// A juror of the jury votes once on an open dispute; when the votes
    /// settle it, the dispute is resolved and its grant unfrozen. A resolved
    /// dispute takes no more votes.
    pub fn cast_jury_vote(
        &mut self,
        juror: Address,
        dispute_id: u64,
        vote: bool,
        cryptographic_signature: Option<String>,
        now: u64,
    ) -> (r: Result<(), FraudError>)
        requires
            old(self).disputes().contains_key(dispute_id) ==> old(self).disputes()[dispute_id].votes_for_fraud
                + old(self).disputes()[dispute_id].votes_against < u32::MAX,
        ensures
            match old(self).vote_refusal(juror, dispute_id, now) {
                Some(e) => r == Err::<(), FraudError>(e) && *final(self) == *old(self),
                None => {
                    let before = old(self).disputes()[dispute_id];
                    let after = final(self).disputes()[dispute_id];
                    &&& r is Ok
                    &&& final(self).disputes() == old(self).disputes().insert(dispute_id, after)
                    &&& is_vote_on(before, after, juror, vote, now, cryptographic_signature)
                    &&& final(self).voted() == old(self).voted().insert((juror@, dispute_id))
                    &&& final(self).frozen() == (if settles(after.votes_for_fraud as int, after.votes_against as int) {
                        old(self).frozen().remove(before.target_grant_id)
                    } else {
                        old(self).frozen()
                    })
                    &&& final(self).admin() == old(self).admin()
                    &&& final(self).dao() == old(self).dao()
                    &&& final(self).council() == old(self).council()
                    &&& final(self).dispute_count() == old(self).dispute_count()
                },
            },
    {
        let (is_valid_juror, deadline) = match self.disputes.get(&dispute_id) {
            None => {
                return Err(FraudError::DisputeNotFound);
            },
            Some(d) => (contains_addr(&d.jury_members, &juror), d.voting_deadline),
        };
        let resolved = match self.disputes.get(&dispute_id) {
            Some(d) => d.resolved_timestamp.is_some(),
            None => false,
        };
        if !is_valid_juror {
            return Err(FraudError::InvalidJuror);
        }
        if self.has_voted(&juror, dispute_id) {
            return Err(FraudError::AlreadyVoted);
        }
        if now > deadline || resolved {
            return Err(FraudError::VotingPeriodExpired);
        }
        let mut dispute = match self.disputes.remove(&dispute_id) {
            Some(d) => d,
            None => {
                return Err(FraudError::DisputeNotFound);
            },
        };
        let ghost before = dispute;
        self.votes.push((juror.clone(), dispute_id));
        proof {
            assert forall|p: (Seq<char>, u64)| #[trigger] vote_set(self.votes@).contains(p)
                <==> vote_set(old(self).votes@).insert((juror@, dispute_id)).contains(p) by {
                if vote_set(old(self).votes@).contains(p) {
                    let i = choose|i: int| 0 <= i < old(self).votes@.len() && old(self).votes@[i].0@ == p.0
                        && old(self).votes@[i].1 == p.1;
                    assert(self.votes@[i] == old(self).votes@[i]);
                }
                if p == (juror@, dispute_id) {
                    assert(self.votes@[self.votes@.len() - 1] == (juror, dispute_id));
                }
                if vote_set(self.votes@).contains(p) {
                    let i = choose|i: int| 0 <= i < self.votes@.len() && self.votes@[i].0@ == p.0
                        && self.votes@[i].1 == p.1;
                    if i < old(self).votes@.len() {
                        assert(old(self).votes@[i] == self.votes@[i]);
                    }
                }
            }
            assert(vote_set(self.votes@) =~= vote_set(old(self).votes@).insert((juror@, dispute_id)));
        }
        dispute.resolution.juror_votes.push(JurorVote {
            juror,
            vote,
            vote_timestamp: now,
            cryptographic_signature,
        });
        if vote {
            dispute.votes_for_fraud = dispute.votes_for_fraud + 1;
        } else {
            dispute.votes_against = dispute.votes_against + 1;
        }
        let total_votes = dispute.votes_for_fraud + dispute.votes_against;
        if dispute.votes_for_fraud >= VOTING_THRESHOLD || total_votes >= JURY_SIZE {
            let _ = self.resolve_dispute(dispute_id, &mut dispute, now);
        }
        self.disputes.insert(dispute_id, dispute);
        Ok(())
    }

    /// Settles a dispute at `now`: fraud is confirmed by enough fraud votes
    /// unless the deadline passed before the whole jury voted; otherwise the
    /// charges are dismissed. The grant is unfrozen either way.
    pub fn resolve_dispute(&mut self, dispute_id: u64, dispute: &mut FraudDispute, now: u64) -> (r: Result<(), FraudError>)
        requires
            old(dispute).votes_for_fraud + old(dispute).votes_against <= u32::MAX,
        ensures
            r is Ok,
            is_resolution_of(*old(dispute), *final(dispute), now),
            final(self).frozen() == old(self).frozen().remove(old(dispute).target_grant_id),
            final(self).disputes() == old(self).disputes(),
            final(self).voted() == old(self).voted(),
            final(self).admin() == old(self).admin(),
            final(self).dao() == old(self).dao(),
            final(self).council() == old(self).council(),
            final(self).dispute_count() == old(self).dispute_count(),
    {
        if now > dispute.voting_deadline && dispute.votes_for_fraud + dispute.votes_against < JURY_SIZE {
            dispute.resolution.is_fraud_confirmed = false;
            dispute.status_mask = set_dispute_status(dispute.status_mask, DISPUTE_STATUS_DISMISSED);
        } else if dispute.votes_for_fraud >= VOTING_THRESHOLD {
            dispute.resolution.is_fraud_confirmed = true;
            dispute.status_mask = set_dispute_status(dispute.status_mask, DISPUTE_STATUS_CONFIRMED_FRAUD);
            dispute.resolution.returned_to_treasury = true;
        } else {
            dispute.resolution.is_fraud_confirmed = false;
            dispute.status_mask = set_dispute_status(dispute.status_mask, DISPUTE_STATUS_DISMISSED);
        }
        dispute.status_mask = set_dispute_status(dispute.status_mask, DISPUTE_STATUS_RESOLVED);
        dispute.resolved_timestamp = Some(now);
        self.frozen.remove(&dispute.target_grant_id);
        Ok(())
    }

    /// Open disputes are not indexed, so none is listed.
    pub fn get_active_disputes(&self) -> (v: Vec<FraudDispute>)
        ensures
            v@.len() == 0,
    {
        Vec::new()
    }
}


proof fn lemma_eligible_excludes(council: Seq<SecurityCouncilMember>, exclude: Seq<Address>)
    ensures
        forall|i: int| 0 <= i < eligible_addresses(council, exclude).len() ==> {
            &&& !addr_in(exclude, #[trigger] eligible_addresses(council, exclude)[i]@)
            &&& exists|j: int| 0 <= j < council.len() && council[j].address == eligible_addresses(council, exclude)[i]
        },
    decreases council.len(),
{
    if council.len() > 0 {
        let d = council.drop_last();
        lemma_eligible_excludes(d, exclude);
        let e = eligible_addresses(council, exclude);
        let ed = eligible_addresses(d, exclude);
        assert forall|i: int| 0 <= i < e.len() implies {
            &&& !addr_in(exclude, #[trigger] e[i]@)
            &&& exists|j: int| 0 <= j < council.len() && council[j].address == e[i]
        } by {
            if i < ed.len() {
                assert(e[i] == ed[i]);
                assert(!addr_in(exclude, ed[i]@));
                let j = choose|j: int| 0 <= j < d.len() && d[j].address == ed[i];
                assert(council[j] == d[j]);
            } else {
                assert(e[i] == council.last().address);
                assert(council[council.len() - 1].address == e[i]);
            }
        }
    }
}

/// A jury is drawn from the council and never holds an excluded address
/// (the DAO and the beneficiary, when a dispute is raised).
pub proof fn lemma_jury_from_council_without_excluded(
    council: Seq<SecurityCouncilMember>,
    exclude: Seq<Address>,
    timestamp: u64,
)
    ensures
        spec_select_jury(council, exclude, timestamp) matches Ok(jury) ==> 0 < jury.len() <= JURY_SIZE && forall|i: int|
            0 <= i < jury.len() ==> {
                &&& !addr_in(exclude, #[trigger] jury[i]@)
                &&& exists|j: int| 0 <= j < council.len() && council[j].address == jury[i]
            },
{
    lemma_eligible_excludes(council, exclude);
    let e = eligible_addresses(council, exclude);
    if spec_select_jury(council, exclude, timestamp) is Ok && e.len() < JURY_SIZE {
        assert forall|i: int| 0 <= i < e.len() implies {
            &&& !addr_in(exclude, #[trigger] e[i]@)
            &&& exists|j: int| 0 <= j < council.len() && council[j].address == e[i]
        } by {
        }
    }
    if spec_select_jury(council, exclude, timestamp) is Ok && e.len() >= JURY_SIZE {
        let jury = jury_from(e, timestamp);
        assert forall|i: int| 0 <= i < jury.len() implies {
            &&& !addr_in(exclude, #[trigger] jury[i]@)
            &&& exists|j: int| 0 <= j < council.len() && council[j].address == jury[i]
        } by {
            let k = (timestamp + i) % (e.len() as int);
            assert(0 <= k < e.len());
            assert(jury[i] == e[k]);
        }
    }
}

/// Resolving a dispute that has at least `VOTING_THRESHOLD` votes for
/// fraud, before its deadline or once the whole jury has voted, confirms
/// the fraud whatever the votes against: the assets go back to the
/// treasury and the dispute is marked confirmed and resolved. With fewer
/// fraud votes it is dismissed.
pub proof fn lemma_fraud_majority_confirms(before: FraudDispute, after: FraudDispute, now: u64)
    requires
        is_resolution_of(before, after, now),
    ensures
        before.votes_for_fraud >= VOTING_THRESHOLD
            && (now <= before.voting_deadline || before.votes_for_fraud + before.votes_against >= JURY_SIZE) ==> {
            &&& after.resolution.is_fraud_confirmed
            &&& after.resolution.returned_to_treasury
            &&& after.status_mask & DISPUTE_STATUS_CONFIRMED_FRAUD != 0
            &&& after.status_mask & DISPUTE_STATUS_RESOLVED != 0
        },
        before.votes_for_fraud < VOTING_THRESHOLD ==> {
            &&& !after.resolution.is_fraud_confirmed
            &&& after.status_mask & DISPUTE_STATUS_DISMISSED != 0
            &&& after.status_mask & DISPUTE_STATUS_RESOLVED != 0
        },
        after.resolved_timestamp == Some(now),
{
    let m = before.status_mask;
    assert((m | 64u32 | 16u32) & 64u32 != 0 && (m | 64u32 | 16u32) & 16u32 != 0) by (bit_vector);
    assert((m | 32u32 | 16u32) & 32u32 != 0 && (m | 32u32 | 16u32) & 16u32 != 0) by (bit_vector);
}

/// A vote that brings the fraud votes to `VOTING_THRESHOLD` before the
/// deadline confirms the fraud, whatever the votes against.
pub proof fn lemma_threshold_vote_confirms(
    before: FraudDispute,
    after: FraudDispute,
    juror: Address,
    now: u64,
    sig: Option<String>,
)
    requires
        is_vote_on(before, after, juror, true, now, sig),
        before.votes_for_fraud + 1 >= VOTING_THRESHOLD,
        now <= before.voting_deadline,
    ensures
        after.resolution.is_fraud_confirmed,
        after.resolution.returned_to_treasury,
        after.status_mask & DISPUTE_STATUS_CONFIRMED_FRAUD != 0,
        after.resolved_timestamp == Some(now),
{
    let m = before.status_mask;
    assert((m | 64u32 | 16u32) & 64u32 != 0) by (bit_vector);
}

impl FraudClawback {
    /// A juror who voted on a dispute is refused any further vote on it.
    pub proof fn lemma_no_second_vote(&self, juror: Address, dispute_id: u64, now: u64)
        requires
            self.voted().contains((juror@, dispute_id)),
        ensures
            self.vote_refusal(juror, dispute_id, now) is Some,
            self.disputes().contains_key(dispute_id) && addr_in(self.disputes()[dispute_id].jury_members@, juror@)
                ==> self.vote_refusal(juror, dispute_id, now) == Some(FraudError::AlreadyVoted),
    {
    }
}

} // verus!
