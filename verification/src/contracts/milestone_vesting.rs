//! Milestone-gated vesting: each vault releases its amount in tranches as
//! the admin triggers its milestones in order, to a beneficiary holding the
//! required soul-bound token. The supply is conserved: what the admin still
//! holds and what the vaults were given add up to the initial supply.

use std::collections::HashMap;
use vstd::prelude::*;

use crate::contracts::common::Address;
use crate::str_map::StrMap;

verus! {

broadcast use vstd::std_specs::hash::group_hash_axioms;

/// The flat fee a claim is estimated to cost, in stroops.
pub const ESTIMATED_GAS_FEE: i128 = 1_000_000;

/// The tax withheld on a claim, in percent.
pub const TAX_WITHHOLDING_PCT: i128 = 15;

#[derive(Debug, Clone)]
pub struct Vault {
    pub owner: Address,
    pub total_amount: i128,
    pub released_amount: i128,
    pub start_time: u64,
    pub end_time: u64,
    pub is_initialized: bool,
}

impl Vault {
    pub fn duplicate(&self) -> (r: Self)
        ensures
            r == *self,
    {
        Vault {
            owner: self.owner.clone(),
            total_amount: self.total_amount,
            released_amount: self.released_amount,
            start_time: self.start_time,
            end_time: self.end_time,
            is_initialized: self.is_initialized,
        }
    }
}

#[derive(Debug, Clone)]
pub struct BatchCreateData {
    pub recipients: Vec<Address>,
    pub amounts: Vec<i128>,
    pub start_times: Vec<u64>,
    pub end_times: Vec<u64>,
}

#[derive(Debug, Clone)]
pub struct SplitClaimData {
    pub vault_id: u64,
    pub secondary_address: Address,
    /// Percentage (0-100) that goes to the secondary address.
    pub split_percentage: u32,
}

#[derive(Debug, Clone)]
pub struct MilestoneEvent {
    pub milestone_id: u32,
    pub is_triggered: bool,
    pub trigger_time: u64,
    pub triggered_by: Address,
}

#[derive(Debug, Clone)]
pub struct MilestoneVault {
    pub vault_id: u64,
    /// The percentage released by each milestone.
    pub milestones: Vec<u32>,
    pub current_milestone: u32,
    pub milestone_events: HashMap<u32, MilestoneEvent>,
}

/// The sum of `ps`.
pub open spec fn pct_sum(ps: Seq<u32>) -> int
    decreases ps.len(),
{
    if ps.len() == 0 { 0 } else { pct_sum(ps.drop_last()) + ps.last() }
}

/// The percentage released by the triggered milestones among the first `n`.
pub open spec fn released_pct(mv: MilestoneVault, n: int) -> int
    decreases n,
{
    if n <= 0 {
        0
    } else {
        released_pct(mv, n - 1) + if mv.milestone_events@.contains_key((n - 1) as u32) && mv.milestone_events@[(n - 1) as u32].is_triggered {
            mv.milestones@[n - 1] as int
        } else {
            0
        }
    }
}

/// Whether the milestones before `id` have all been triggered.
pub open spec fn earlier_triggered(mv: MilestoneVault, id: u32) -> bool {
    forall|i: u32| i < id ==> #[trigger] mv.milestone_events@.contains_key(i) && mv.milestone_events@[i].is_triggered
}

/// The amount given to the vaults numbered one to `n`.
pub open spec fn given(vaults: Map<u64, Vault>, n: nat) -> int
    decreases n,
{
    if n == 0 {
        0
    } else {
        given(vaults, (n - 1) as nat) + if vaults.contains_key(n as u64) { vaults[n as u64].total_amount as int } else { 0 }
    }
}

/// The amount still locked in the vaults numbered one to `n`.
pub open spec fn locked_amount(vaults: Map<u64, Vault>, n: nat) -> int
    decreases n,
{
    if n == 0 {
        0
    } else {
        locked_amount(vaults, (n - 1) as nat) + if vaults.contains_key(n as u64) {
            vaults[n as u64].total_amount - vaults[n as u64].released_amount
        } else {
            0
        }
    }
}

/// The amount released from the vaults numbered one to `n`.
pub open spec fn claimed_amount(vaults: Map<u64, Vault>, n: nat) -> int
    decreases n,
{
    if n == 0 {
        0
    } else {
        claimed_amount(vaults, (n - 1) as nat) + if vaults.contains_key(n as u64) { vaults[n as u64].released_amount as int } else { 0 }
    }
}

proof fn lemma_locked_plus_claimed(vaults: Map<u64, Vault>, n: nat)
    ensures
        locked_amount(vaults, n) + claimed_amount(vaults, n) == given(vaults, n),
    decreases n,
{
    if n > 0 {
        lemma_locked_plus_claimed(vaults, (n - 1) as nat);
    }
}

proof fn lemma_given_same_totals(a: Map<u64, Vault>, b: Map<u64, Vault>, n: nat)
    requires
        n <= u64::MAX,
        forall|i: u64| 1 <= i <= n ==> (#[trigger] a.contains_key(i) <==> b.contains_key(i)),
        forall|i: u64| 1 <= i <= n && #[trigger] a.contains_key(i) ==> a[i].total_amount == b[i].total_amount,
    ensures
        given(a, n) == given(b, n),
    decreases n,
{
    if n > 0 {
        lemma_given_same_totals(a, b, (n - 1) as nat);
        let k = n as u64;
        assert(k == n);
        assert(a.contains_key(k) <==> b.contains_key(k));
    }
}

/// The contract's storage.
pub struct VestingContract {
    pub initial_supply: i128,
    pub admin_balance: i128,
    pub vault_count: u64,
    pub vaults: HashMap<u64, Vault>,
    pub milestone_vaults: HashMap<u64, MilestoneVault>,
    pub user_vaults: StrMap<Vec<u64>>,
    pub required_sbt: Option<Address>,
}

impl VestingContract {
    /// The supply is conserved: the admin's balance and what the vaults
    /// were given add up to the initial supply.
    pub open spec fn balanced(&self) -> bool {
        self.initial_supply == self.admin_balance + given(self.vaults@, self.vault_count as nat)
    }

    pub open spec fn vaults_of(&self, user: Seq<char>) -> Seq<u64> {
        if self.user_vaults.view_map().contains_key(user) { self.user_vaults.view_map()[user]@ } else { Seq::empty() }
    }

    pub fn new() -> (c: Self)
        ensures
            c.vault_count == 0,
            c.vaults@ == Map::<u64, Vault>::empty(),
            c.required_sbt is None,
            c.balanced(),
    {
        VestingContract {
            initial_supply: 0,
            admin_balance: 0,
            vault_count: 0,
            vaults: HashMap::new(),
            milestone_vaults: HashMap::new(),
            user_vaults: StrMap::new(),
            required_sbt: None,
        }
    }

    /// Sets the initial supply, all of it held by the admin, and restarts
    /// the vault count.
    pub fn initialize(&mut self, admin: Address, initial_supply: i128)
        ensures
            *final(self) == (VestingContract { initial_supply, admin_balance: initial_supply, vault_count: 0, ..*old(self) }),
            final(self).balanced(),
    {
        self.initial_supply = initial_supply;
        self.admin_balance = initial_supply;
        self.vault_count = 0;
    }

    /// Sets the soul-bound token a beneficiary must hold to claim.
    pub fn set_required_sbt(&mut self, sbt_address: Address)
        ensures
            *final(self) == (VestingContract { required_sbt: Some(sbt_address), ..*old(self) }),
    {
        self.required_sbt = Some(sbt_address);
    }

    /// Creates a vault of `amount` for `owner` at `now`, released by
    /// milestones whose percentages add up to a hundred.
    pub fn create_milestone_vault(&mut self, owner: Address, amount: i128, milestones: Vec<u32>, now: u64) -> (id: u64)
        requires
            pct_sum(milestones@) == 100,
            milestones@.len() > 0,
            old(self).vault_count < u64::MAX,
            old(self).admin_balance >= amount,
            old(self).admin_balance - amount <= i128::MAX,
        ensures
            id == old(self).vault_count + 1,
            final(self).vault_count == id,
            final(self).admin_balance == old(self).admin_balance - amount,
            final(self).vaults@ == old(self).vaults@.insert(id, Vault {
                owner,
                total_amount: amount,
                released_amount: 0,
                start_time: now,
                end_time: u64::MAX,
                is_initialized: true,
            }),
            final(self).milestone_vaults@.contains_key(id),
            final(self).milestone_vaults@[id].vault_id == id,
            final(self).milestone_vaults@[id].milestones@ == milestones@,
            final(self).milestone_vaults@[id].current_milestone == 0,
            final(self).milestone_vaults@[id].milestone_events@ == Map::<u32, MilestoneEvent>::empty(),
            final(self).milestone_vaults@ == old(self).milestone_vaults@.insert(id, final(self).milestone_vaults@[id]),
            final(self).vaults_of(owner@) == old(self).vaults_of(owner@).push(id),
            final(self).initial_supply == old(self).initial_supply,
            final(self).required_sbt == old(self).required_sbt,
            old(self).balanced() ==> final(self).balanced(),
    {
        let id = self.vault_count + 1;
        self.admin_balance = self.admin_balance - amount;
        let vault = Vault {
            owner: owner.clone(),
            total_amount: amount,
            released_amount: 0,
            start_time: now,
            end_time: u64::MAX,
            is_initialized: true,
        };
        let ghost before = self.vaults@;
        self.vaults.insert(id, vault);
        let mv = MilestoneVault { vault_id: id, milestones, current_milestone: 0, milestone_events: HashMap::new() };
        self.milestone_vaults.insert(id, mv);
        let mut ids: Vec<u64> = match self.user_vaults.get(&owner) {
            Some(v) => v.clone(),
            None => Vec::new(),
        };
        ids.push(id);
        self.user_vaults.insert(owner, ids);
        self.vault_count = id;
        proof {
            lemma_given_same_totals(before, self.vaults@, (id - 1) as nat);
        }
        id
    }

    /// The admin triggers a milestone of a vault at `now`, once every earlier
    /// milestone has been triggered.
    pub fn trigger_milestone(&mut self, vault_id: u64, milestone_id: u32, admin: Address, now: u64)
        requires
            old(self).milestone_vaults@.contains_key(vault_id),
            milestone_id < old(self).milestone_vaults@[vault_id].milestones@.len(),
            old(self).milestone_vaults@[vault_id].milestones@.len() <= u32::MAX,
            earlier_triggered(old(self).milestone_vaults@[vault_id], milestone_id),
        ensures
            ({
                let before = old(self).milestone_vaults@[vault_id];
                let after = final(self).milestone_vaults@[vault_id];
                &&& final(self).milestone_vaults@ == old(self).milestone_vaults@.insert(vault_id, after)
                &&& after.vault_id == before.vault_id
                &&& after.milestones@ == before.milestones@
                &&& after.current_milestone == milestone_id + 1
                &&& after.milestone_events@ == before.milestone_events@.insert(milestone_id, MilestoneEvent {
                    milestone_id,
                    is_triggered: true,
                    trigger_time: now,
                    triggered_by: admin,
                })
            }),
            final(self).vaults == old(self).vaults,
            final(self).vault_count == old(self).vault_count,
            final(self).admin_balance == old(self).admin_balance,
            final(self).initial_supply == old(self).initial_supply,
    {
        let mut mv = self.milestone_vaults.remove(&vault_id).unwrap();
        mv.milestone_events.insert(milestone_id, MilestoneEvent {
            milestone_id,
            is_triggered: true,
            trigger_time: now,
            triggered_by: admin,
        });
        mv.current_milestone = milestone_id + 1;
        self.milestone_vaults.insert(vault_id, mv);
    }

    /// What a vault's beneficiary may claim: its triggered milestones' share
    /// of the vault, less what was already released.
    pub open spec fn available(&self, vault_id: u64) -> int {
        let v = self.vaults@[vault_id];
        let mv = self.milestone_vaults@[vault_id];
        tdiv100(v.total_amount * released_pct(mv, mv.current_milestone as int)) - v.released_amount
    }

    /// The beneficiary of a vault, holding `sbt_balance` of the required
    /// soul-bound token, claims everything its triggered milestones released.
    pub fn claim_milestone_tokens(&mut self, vault_id: u64, sbt_balance: i128) -> (claimed: i128)
        requires
            old(self).vaults@.contains_key(vault_id),
            old(self).milestone_vaults@.contains_key(vault_id),
            old(self).required_sbt is Some,
            sbt_balance > 0,
            old(self).milestone_vaults@[vault_id].current_milestone <= old(self).milestone_vaults@[vault_id].milestones@.len(),
            pct_sum(old(self).milestone_vaults@[vault_id].milestones@) <= 100,
            i128::MIN <= old(self).vaults@[vault_id].total_amount * 100 <= i128::MAX,
            i128::MIN <= old(self).available(vault_id) <= i128::MAX,
            old(self).available(vault_id) > 0,
        ensures
            claimed == old(self).available(vault_id),
            final(self).vaults@ == old(self).vaults@.insert(vault_id, Vault {
                released_amount: (old(self).vaults@[vault_id].released_amount + claimed) as i128,
                ..old(self).vaults@[vault_id]
            }),
            *final(self) == (VestingContract { vaults: final(self).vaults, ..*old(self) }),
            old(self).balanced() ==> final(self).balanced(),
    {
        let vault = self.vaults.get(&vault_id).unwrap();
        let mv = self.milestone_vaults.get(&vault_id).unwrap();
        let mut pct: u32 = 0;
        let mut i: u32 = 0;
        while i < mv.current_milestone
            invariant
                i <= mv.current_milestone <= mv.milestones@.len(),
                pct_sum(mv.milestones@) <= 100,
                pct == released_pct(*mv, i as int),
                pct <= pct_sum(mv.milestones@.take(i as int)),
            decreases mv.current_milestone - i,
        {
            proof {
                lemma_pct_prefix(mv.milestones@, i as int + 1);
                assert(mv.milestones@.take(i + 1).drop_last() =~= mv.milestones@.take(i as int));
            }
            match mv.milestone_events.get(&i) {
                Some(event) => {
                    if event.is_triggered {
                        pct = pct + mv.milestones[i as usize];
                    }
                },
                None => {},
            }
            i = i + 1;
        }
        proof {
            lemma_pct_prefix(mv.milestones@, i as int);
            assert(0 <= pct <= 100);
            assert(0 <= vault.total_amount * pct <= vault.total_amount * 100 || vault.total_amount * 100 <= vault.total_amount * pct <= 0) by (nonlinear_arith)
                requires
                    0 <= pct <= 100,
            ;
        }
        let total_claimable = (vault.total_amount * pct as i128) / 100;
        let available = total_claimable - vault.released_amount;
        let mut updated = vault.duplicate();
        updated.released_amount = updated.released_amount + available;
        self.vaults.insert(vault_id, updated);
        proof {
            lemma_given_same_totals(old(self).vaults@, self.vaults@, self.vault_count as nat);
        }
        available
    }

    /// The amount a dry run of a claim works on: the given amount, or all
    /// that is left in the vault.
    pub open spec fn claim_base(&self, vault_id: u64, claim_amount: Option<i128>) -> int {
        let v = self.vaults@[vault_id];
        match claim_amount {
            Some(a) => a as int,
            None => v.total_amount - v.released_amount,
        }
    }

    /// The dry run of a claim: what would be released after the tax
    /// withholding, the estimated fee and the tax.
    pub fn simulate_claim(&self, vault_id: u64, claim_amount: Option<i128>) -> (r: (i128, i128, i128))
        requires
            self.vaults@.contains_key(vault_id),
            self.vaults@[vault_id].is_initialized,
            i128::MIN <= self.vaults@[vault_id].total_amount - self.vaults@[vault_id].released_amount <= i128::MAX,
            claim_amount matches Some(a) ==> 0 < a <= self.vaults@[vault_id].total_amount - self.vaults@[vault_id].released_amount,
            i128::MIN <= self.claim_base(vault_id, claim_amount) * TAX_WITHHOLDING_PCT <= i128::MAX,
        ensures
            ({
                let amount = self.claim_base(vault_id, claim_amount);
                let tax = tdiv100(amount * TAX_WITHHOLDING_PCT);
                r == ((amount - tax) as i128, ESTIMATED_GAS_FEE, tax as i128)
            }),
    {
        let vault = self.vaults.get(&vault_id).unwrap();
        let available = vault.total_amount - vault.released_amount;
        let amount = match claim_amount {
            Some(a) => a,
            None => available,
        };
        let tax_withholding = (amount * TAX_WITHHOLDING_PCT) / 100;
        let tokens_to_release = amount - tax_withholding;
        (tokens_to_release, ESTIMATED_GAS_FEE, tax_withholding)
    }

    pub fn get_milestone_vault(&self, vault_id: u64) -> (m: &MilestoneVault)
        requires
            self.milestone_vaults@.contains_key(vault_id),
        ensures
            *m == self.milestone_vaults@[vault_id],
    {
        self.milestone_vaults.get(&vault_id).unwrap()
    }

    /// The vault `vault_id`, or an empty uninitialized vault owned by the
    /// contract itself when there is none.
    pub fn get_vault(&self, vault_id: u64, contract_address: Address) -> (v: Vault)
        ensures
            self.vaults@.contains_key(vault_id) ==> v == self.vaults@[vault_id],
            !self.vaults@.contains_key(vault_id) ==> v == (Vault {
                owner: contract_address,
                total_amount: 0,
                released_amount: 0,
                start_time: 0,
                end_time: 0,
                is_initialized: false,
            }),
    {
        match self.vaults.get(&vault_id) {
            Some(v) => v.duplicate(),
            None => Vault {
                owner: contract_address,
                total_amount: 0,
                released_amount: 0,
                start_time: 0,
                end_time: 0,
                is_initialized: false,
            },
        }
    }

    /// Whether the locked and claimed amounts of the vaults and the admin's
    /// balance add up to the initial supply.
    pub fn check_invariant(&self) -> (b: bool)
        requires
            forall|k: nat| k <= self.vault_count ==> i128::MIN <= #[trigger] locked_amount(self.vaults@, k) <= i128::MAX
                && i128::MIN <= claimed_amount(self.vaults@, k) <= i128::MAX,
            forall|k: nat| 1 <= k <= self.vault_count && self.vaults@.contains_key(k as u64)
                ==> i128::MIN <= #[trigger] self.vaults@[k as u64].total_amount - self.vaults@[k as u64].released_amount <= i128::MAX,
            i128::MIN <= locked_amount(self.vaults@, self.vault_count as nat) + claimed_amount(self.vaults@, self.vault_count as nat)
                <= i128::MAX,
            i128::MIN <= locked_amount(self.vaults@, self.vault_count as nat) + claimed_amount(self.vaults@, self.vault_count as nat)
                + self.admin_balance <= i128::MAX,
        ensures
            b == self.balanced(),
    {
        let mut total_locked: i128 = 0;
        let mut total_claimed: i128 = 0;
        let mut i: u64 = 0;
        while i < self.vault_count
            invariant
                i <= self.vault_count,
                total_locked == locked_amount(self.vaults@, i as nat),
                total_claimed == claimed_amount(self.vaults@, i as nat),
                forall|k: nat| k <= self.vault_count ==> i128::MIN <= #[trigger] locked_amount(self.vaults@, k) <= i128::MAX
                    && i128::MIN <= claimed_amount(self.vaults@, k) <= i128::MAX,
                forall|k: nat| 1 <= k <= self.vault_count && self.vaults@.contains_key(k as u64)
                    ==> i128::MIN <= #[trigger] self.vaults@[k as u64].total_amount - self.vaults@[k as u64].released_amount <= i128::MAX,
            decreases self.vault_count - i,
        {
            let id = i + 1;
            assert(i128::MIN <= locked_amount(self.vaults@, id as nat) <= i128::MAX);
            assert(i128::MIN <= claimed_amount(self.vaults@, id as nat) <= i128::MAX);
            match self.vaults.get(&id) {
                Some(v) => {
                    assert(self.vaults@.contains_key((id as nat) as u64));
                    total_locked = total_locked + (v.total_amount - v.released_amount);
                    total_claimed = total_claimed + v.released_amount;
                },
                None => {},
            }
            i = id;
        }
        proof {
            lemma_locked_plus_claimed(self.vaults@, self.vault_count as nat);
        }
        total_locked + total_claimed + self.admin_balance == self.initial_supply
    }
}

/// Division by a hundred, rounding toward zero.
pub open spec fn tdiv100(a: int) -> int {
    if a >= 0 { a / 100 } else { -((-a) / 100) }
}

proof fn lemma_pct_prefix(ps: Seq<u32>, k: int)
    requires
        0 <= k <= ps.len(),
    ensures
        0 <= pct_sum(ps.take(k)) <= pct_sum(ps),
    decreases ps.len() - k,
{
    if k < ps.len() {
        lemma_pct_prefix(ps, k + 1);
        assert(ps.take(k + 1).drop_last() =~= ps.take(k));
    } else {
        assert(ps.take(k) =~= ps);
    }
    lemma_pct_nonneg(ps.take(k));
}

proof fn lemma_pct_nonneg(ps: Seq<u32>)
    ensures
        pct_sum(ps) >= 0,
    decreases ps.len(),
{
    if ps.len() > 0 {
        lemma_pct_nonneg(ps.drop_last());
    }
}

} // verus!
