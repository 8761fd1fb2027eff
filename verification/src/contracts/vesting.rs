use std::collections::HashMap;
use vstd::prelude::*;

use crate::contracts::common::Address;
use crate::str_map::StrMap;

verus! {

broadcast use vstd::std_specs::hash::group_hash_axioms;

/// Ten years in seconds: the longest schedule a vault may have.
pub const MAX_DURATION: u64 = 315_360_000;

/// The most assets a diversified vesting basket may hold.
pub const MAX_ASSET_BASKET_SIZE: u32 = 10;

/// Basis points in a whole.
pub const BASIS_POINTS: i128 = 10000;

#[derive(Debug, Clone)]
pub struct AssetAllocation {
    pub asset: Address,
    pub amount: i128,
}

impl AssetAllocation {
    pub fn duplicate(&self) -> (r: Self)
        ensures
            r == *self,
    {
        AssetAllocation { asset: self.asset.clone(), amount: self.amount }
    }
}

/// The sum of the amounts of `assets`.
pub open spec fn amount_sum(assets: Seq<AssetAllocation>) -> int
    decreases assets.len(),
{
    if assets.len() == 0 {
        0
    } else {
        amount_sum(assets.drop_last()) + assets.last().amount
    }
}

/// Whether every running sum of the amounts of `assets` fits in an `i128`.
pub open spec fn sums_fit(assets: Seq<AssetAllocation>) -> bool {
    forall|k: int| 0 <= k <= assets.len() ==> i128::MIN <= #[trigger] amount_sum(assets.take(k)) <= i128::MAX
}

/// A basket of assets vesting together.
#[derive(Debug, Clone)]
pub struct Allocation {
    pub assets: Vec<AssetAllocation>,
}

impl Allocation {
    pub fn new() -> (a: Self)
        ensures
            a.assets@ == Seq::<AssetAllocation>::empty(),
    {
        Allocation { assets: Vec::new() }
    }

    pub fn add_asset(&mut self, asset: Address, amount: i128)
        ensures
            final(self).assets@ == old(self).assets@.push(AssetAllocation { asset, amount }),
    {
        self.assets.push(AssetAllocation { asset, amount });
    }

    /// The sum of the amounts of the basket.
    pub fn total_amount(&self) -> (t: i128)
        requires
            sums_fit(self.assets@),
        ensures
            t == amount_sum(self.assets@),
    {
        let mut sum: i128 = 0;
        let mut i: usize = 0;
        while i < self.assets.len()
            invariant
                i <= self.assets.len(),
                sums_fit(self.assets@),
                sum == amount_sum(self.assets@.take(i as int)),
            decreases self.assets.len() - i,
        {
            assert(self.assets@.take(i + 1).drop_last() =~= self.assets@.take(i as int));
            assert(i128::MIN <= amount_sum(self.assets@.take(i + 1)) <= i128::MAX);
            sum = sum + self.assets[i].amount;
            i = i + 1;
        }
        assert(self.assets@.take(i as int) =~= self.assets@);
        sum
    }

    pub fn duplicate(&self) -> (r: Self)
        ensures
            r.assets@ == self.assets@,
    {
        let mut assets: Vec<AssetAllocation> = Vec::new();
        let mut i: usize = 0;
        while i < self.assets.len()
            invariant
                i <= self.assets.len(),
                assets@ == self.assets@.take(i as int),
            decreases self.assets.len() - i,
        {
            assets.push(self.assets[i].duplicate());
            assert(assets@ =~= self.assets@.take(i + 1));
            i = i + 1;
        }
        assert(assets@ =~= self.assets@);
        Allocation { assets }
    }
}

#[derive(Debug, Clone, Copy)]
pub enum WhitelistDataKey {
    WhitelistedTokens,
}

#[derive(Clone, Copy, PartialEq, Eq, Structural, Debug)]
pub struct Milestone {
    pub id: u64,
    pub percentage: u32,
    pub is_unlocked: bool,
}

/// The sum of the percentages of `ms`.
pub open spec fn percentage_sum(ms: Seq<Milestone>) -> int
    decreases ms.len(),
{
    if ms.len() == 0 {
        0
    } else {
        percentage_sum(ms.drop_last()) + ms.last().percentage
    }
}

/// The sum of the percentages of the unlocked milestones of `ms`.
pub open spec fn unlocked_sum(ms: Seq<Milestone>) -> int
    decreases ms.len(),
{
    if ms.len() == 0 {
        0
    } else {
        unlocked_sum(ms.drop_last()) + if ms.last().is_unlocked { ms.last().percentage as int } else { 0 }
    }
}

proof fn lemma_unlocked_le_total(ms: Seq<Milestone>)
    ensures
        0 <= unlocked_sum(ms) <= percentage_sum(ms),
    decreases ms.len(),
{
    if ms.len() > 0 {
        lemma_unlocked_le_total(ms.drop_last());
    }
}

proof fn lemma_prefix_sums_le(ms: Seq<Milestone>, k: int)
    requires
        0 <= k <= ms.len(),
    ensures
        0 <= percentage_sum(ms.take(k)) <= percentage_sum(ms),
        0 <= unlocked_sum(ms.take(k)) <= unlocked_sum(ms),
    decreases ms.len() - k,
{
    if k < ms.len() {
        lemma_prefix_sums_le(ms, k + 1);
        assert(ms.take(k + 1).drop_last() =~= ms.take(k));
        lemma_unlocked_le_total(ms.take(k));
    } else {
        assert(ms.take(k) =~= ms);
    }
    lemma_unlocked_le_total(ms.take(k));
    lemma_unlocked_le_total(ms);
}

/// `ms` with the milestone `id` unlocked.
pub open spec fn unlock_in(ms: Seq<Milestone>, id: u64) -> Seq<Milestone> {
    ms.map_values(|m: Milestone| if m.id == id { Milestone { id: m.id, percentage: m.percentage, is_unlocked: true } } else { m })
}

proof fn lemma_unlock_keeps_total(ms: Seq<Milestone>, id: u64)
    ensures
        percentage_sum(unlock_in(ms, id)) == percentage_sum(ms),
    decreases ms.len(),
{
    if ms.len() > 0 {
        lemma_unlock_keeps_total(ms.drop_last(), id);
        assert(unlock_in(ms, id).drop_last() =~= unlock_in(ms.drop_last(), id));
    }
}


/// The unlocked percentage of milestones adds up over concatenation: the
/// unlocked milestones of `a + b` carry the percentages of those of `a`
/// and those of `b`.
pub proof fn lemma_unlocked_sum_adds(a: Seq<Milestone>, b: Seq<Milestone>)
    ensures
        unlocked_sum(a + b) == unlocked_sum(a) + unlocked_sum(b),
    decreases b.len(),
{
    if b.len() == 0 {
        assert(a + b =~= a);
    } else {
        lemma_unlocked_sum_adds(a, b.drop_last());
        assert((a + b).drop_last() =~= a + b.drop_last());
    }
}

/// With every milestone unlocked, the unlocked percentage is the whole of
/// the milestones' percentages.
pub proof fn lemma_all_unlocked_count_fully(ms: Seq<Milestone>)
    requires
        forall|i: int| 0 <= i < ms.len() ==> #[trigger] ms[i].is_unlocked,
    ensures
        unlocked_sum(ms) == percentage_sum(ms),
    decreases ms.len(),
{
    if ms.len() > 0 {
        lemma_all_unlocked_count_fully(ms.drop_last());
    }
}

/// Unlocking the one locked milestone with a given id raises the unlocked
/// percentage by exactly that milestone's percentage.
pub proof fn lemma_unlock_adds_percentage(ms: Seq<Milestone>, k: int)
    requires
        0 <= k < ms.len(),
        !ms[k].is_unlocked,
        forall|i: int| 0 <= i < ms.len() && i != k ==> #[trigger] ms[i].id != ms[k].id,
    ensures
        unlocked_sum(unlock_in(ms, ms[k].id)) == unlocked_sum(ms) + ms[k].percentage,
    decreases ms.len(),
{
    let id = ms[k].id;
    let u = unlock_in(ms, id);
    assert(u.drop_last() =~= unlock_in(ms.drop_last(), id));
    if k == ms.len() - 1 {
        assert(unlock_in(ms.drop_last(), id) =~= ms.drop_last()) by {
            assert forall|i: int| 0 <= i < ms.drop_last().len() implies ms.drop_last()[i].id != id by {
                assert(ms[i].id != ms[k].id);
            }
        }
    } else {
        let d = ms.drop_last();
        assert forall|i: int| 0 <= i < d.len() && i != k implies #[trigger] d[i].id != d[k].id by {
            assert(ms[i].id != ms[k].id);
        }
        lemma_unlock_adds_percentage(d, k);
        assert(ms.last().id != id);
    }
}

/// A vault whose milestones are all unlocked and whose percentages reach
/// 100 has vested its whole allocation; in general its vested amount is
/// the allocation times the sum of its milestones' percentages (at most
/// 100), rounded toward zero.
pub proof fn lemma_unlocked_milestones_vest_their_sum(vault: Vault, ms: Seq<Milestone>, now: u64, accel_pct: u32)
    requires
        forall|i: int| 0 <= i < ms.len() ==> #[trigger] ms[i].is_unlocked,
        percentage_sum(ms) <= 100,
    ensures
        spec_vested(vault, Some(ms), now, accel_pct) == tdiv(amount_sum(vault.allocation.assets@) * percentage_sum(ms), 100),
        percentage_sum(ms) == 100 ==> spec_vested(vault, Some(ms), now, accel_pct) == amount_sum(vault.allocation.assets@),
{
    lemma_all_unlocked_count_fully(ms);
    let total = amount_sum(vault.allocation.assets@);
    if percentage_sum(ms) == 100 {
        assert(total * 100 / 100 == total) by (nonlinear_arith);
        assert((-total) * 100 / 100 == -total) by (nonlinear_arith);
        assert(total * 100 == -((-total) * 100)) by (nonlinear_arith);
    }
}

/// Division of `a` by a positive `b`, rounding toward zero.
pub open spec fn tdiv(a: int, b: int) -> int {
    if a >= 0 { a / b } else { -((-a) / b) }
}

#[derive(Debug, Clone)]
pub struct Vault {
    pub allocation: Allocation,
    pub released_amount: i128,
    pub keeper_fee: i128,
    pub staked_amount: i128,
    pub owner: Address,
    pub delegate: Option<Address>,
    pub title: String,
    pub start_time: u64,
    pub end_time: u64,
    pub creation_time: u64,
    pub step_duration: u64,
    pub is_initialized: bool,
    pub is_irrevocable: bool,
    pub is_transferable: bool,
    pub is_frozen: bool,
}

/// The time at which a schedule is read at `now`, moved forward by the
/// global acceleration.
pub open spec fn shifted_time(start: u64, end: u64, now: u64, accel_pct: u32) -> int {
    if accel_pct > 0 {
        now + ((end - start) * accel_pct) / 100
    } else {
        now as int
    }
}

/// The amount of a basket of `total` vested at `now` on the schedule from
/// `start` to `end`, in steps of `step` seconds when `step` is positive.
pub open spec fn schedule_vested(total: int, start: u64, end: u64, step: u64, now: u64, accel_pct: u32) -> int {
    let t = shifted_time(start, end, now, accel_pct);
    let duration = end - start;
    if t <= start {
        0
    } else if t >= end {
        total
    } else if step > 0 {
        let steps = duration / (step as int);
        if steps == 0 {
            0
        } else {
            tdiv(total * ((t - start) / (step as int)), steps)
        }
    } else {
        tdiv(total * (t - start), duration)
    }
}

/// The amount of a vault vested at `now`: by its unlocked milestones when
/// it has any, else by its time schedule.
pub open spec fn spec_vested(vault: Vault, milestones: Option<Seq<Milestone>>, now: u64, accel_pct: u32) -> int {
    let total = amount_sum(vault.allocation.assets@);
    match milestones {
        Some(ms) => {
            let pct = if unlocked_sum(ms) > 100 { 100 } else { unlocked_sum(ms) };
            tdiv(total * pct, 100)
        },
        None => schedule_vested(total, vault.start_time, vault.end_time, vault.step_duration, now, accel_pct),
    }
}

/// Whether reading the vested amount of `vault` at `now` stays within the
/// machine integers.
pub open spec fn vested_in_range(vault: Vault, milestones: Option<Seq<Milestone>>, now: u64, accel_pct: u32) -> bool {
    let total = amount_sum(vault.allocation.assets@);
    &&& sums_fit(vault.allocation.assets@)
    &&& match milestones {
        Some(ms) => i128::MIN <= total * 100 <= i128::MAX,
        None => {
            let t = shifted_time(vault.start_time, vault.end_time, now, accel_pct);
            &&& vault.start_time <= vault.end_time
            &&& accel_pct <= 100
            &&& t <= u64::MAX
            &&& (vault.start_time < t < vault.end_time ==> i128::MIN <= total * (t - vault.start_time) <= i128::MAX)
        },
    }
}

proof fn lemma_mul_bounds(a: int, b: int, c: int)
    requires
        0 <= b <= c,
        i128::MIN <= a * c <= i128::MAX,
    ensures
        i128::MIN <= a * b <= i128::MAX,
{
    if a >= 0 {
        assert(0 <= a * b <= a * c) by (nonlinear_arith)
            requires
                a >= 0,
                0 <= b <= c,
        ;
    } else {
        assert(a * c <= a * b <= 0) by (nonlinear_arith)
            requires
                a < 0,
                0 <= b <= c,
        ;
    }
}

fn unlocked_percentage(ms: &Vec<Milestone>) -> (pct: u32)
    requires
        percentage_sum(ms@) <= 100,
    ensures
        pct == unlocked_sum(ms@),
{
    let mut pct: u32 = 0;
    let mut i: usize = 0;
    while i < ms.len()
        invariant
            i <= ms.len(),
            percentage_sum(ms@) <= 100,
            pct == unlocked_sum(ms@.take(i as int)),
        decreases ms.len() - i,
    {
        proof {
            lemma_prefix_sums_le(ms@, i + 1);
            assert(ms@.take(i + 1).drop_last() =~= ms@.take(i as int));
            lemma_unlocked_le_total(ms@);
        }
        if ms[i].is_unlocked {
            pct = pct + ms[i].percentage;
        }
        i = i + 1;
    }
    assert(ms@.take(i as int) =~= ms@);
    pct
}

/// The amount of `vault` vested at `now`, given its milestones if it has any.
pub fn calculate_vested(vault: &Vault, milestones: Option<&Vec<Milestone>>, now: u64, accel_pct: u32) -> (v: i128)
    requires
        vested_in_range(*vault, match milestones { Some(m) => Some(m@), None => None }, now, accel_pct),
        milestones matches Some(m) ==> percentage_sum(m@) <= 100,
    ensures
        v == spec_vested(*vault, match milestones { Some(m) => Some(m@), None => None }, now, accel_pct),
{
    let total_allocation = vault.allocation.total_amount();
    match milestones {
        Some(ms) => {
            let mut pct = unlocked_percentage(ms);
            if pct > 100 {
                pct = 100;
            }
            proof { lemma_mul_bounds(total_allocation as int, pct as int, 100); }
            (total_allocation * pct as i128) / 100
        },
        None => {
            let duration = (vault.end_time - vault.start_time) as i128;
            let mut t = now;
            if accel_pct > 0 {
                assert(0 <= duration * accel_pct <= duration * 100) by (nonlinear_arith)
                    requires
                        duration >= 0,
                        accel_pct <= 100,
                ;
                let shift = (duration * accel_pct as i128 / 100) as u64;
                t = t + shift;
            }
            if t <= vault.start_time {
                return 0;
            }
            if t >= vault.end_time {
                return total_allocation;
            }
            let elapsed = (t - vault.start_time) as i128;
            if vault.step_duration > 0 {
                let steps = duration / vault.step_duration as i128;
                if steps == 0 {
                    return 0;
                }
                let completed = elapsed / vault.step_duration as i128;
                assert(0 <= completed <= elapsed) by (nonlinear_arith)
                    requires
                        completed as int == (elapsed as int) / (vault.step_duration as int),
                        elapsed >= 0,
                        vault.step_duration > 0,
                ;
                proof { lemma_mul_bounds(total_allocation as int, completed as int, elapsed as int); }
                (total_allocation * completed) / steps
            } else {
                (total_allocation * elapsed) / duration
            }
        },
    }
}

/// Milestone lists by vault; each list's percentages add up to at most a
/// hundred.
pub struct MilestoneBook {
    lists: HashMap<u64, Vec<Milestone>>,
}

impl MilestoneBook {
    #[verifier::type_invariant]
    spec fn within_whole(self) -> bool {
        forall|id: u64| #[trigger] self.lists@.contains_key(id) ==> percentage_sum(self.lists@[id]@) <= 100
    }

    pub closed spec fn view_map(self) -> Map<u64, Seq<Milestone>> {
        Map::new(|id: u64| self.lists@.contains_key(id), |id: u64| self.lists@[id]@)
    }

    pub fn new() -> (b: Self)
        ensures
            b.view_map() == Map::<u64, Seq<Milestone>>::empty(),
    {
        let b = MilestoneBook { lists: HashMap::new() };
        assert(b.view_map() =~= Map::<u64, Seq<Milestone>>::empty());
        b
    }

    pub fn get(&self, id: u64) -> (r: Option<&Vec<Milestone>>)
        ensures
            match r {
                Some(v) => self.view_map().contains_key(id) && v@ == self.view_map()[id]
                    && percentage_sum(v@) <= 100,
                None => !self.view_map().contains_key(id),
            },
    {
        proof { use_type_invariant(self); }
        self.lists.get(&id)
    }

    pub fn set(&mut self, id: u64, ms: Vec<Milestone>)
        requires
            percentage_sum(ms@) <= 100,
        ensures
            final(self).view_map() == old(self).view_map().insert(id, ms@),
    {
        proof { use_type_invariant(&*self); }
        let ghost v = ms@;
        let mut lists: HashMap<u64, Vec<Milestone>> = HashMap::new();
        std::mem::swap(&mut lists, &mut self.lists);
        lists.insert(id, ms);
        *self = MilestoneBook { lists };
        assert(self.view_map() =~= old(self).view_map().insert(id, v));
    }

    pub fn remove(&mut self, id: u64)
        ensures
            final(self).view_map() == old(self).view_map().remove(id),
    {
        proof { use_type_invariant(&*self); }
        let mut lists: HashMap<u64, Vec<Milestone>> = HashMap::new();
        std::mem::swap(&mut lists, &mut self.lists);
        lists.remove(&id);
        *self = MilestoneBook { lists };
        assert(self.view_map() =~= old(self).view_map().remove(id));
    }
}



/// A token movement out of the contract.
#[derive(Debug, Clone)]
pub struct TokenTransfer {
    pub asset: Address,
    pub to: Address,
    pub amount: i128,
}

/// The share, in basis points, of an asset of `amount` in a basket of `total`.
pub open spec fn asset_ratio(amount: int, total: int) -> int {
    if total > 0 { tdiv(amount * 10000, total) } else { 0 }
}

/// The part of `whole` that falls to an asset of `amount` in a basket of
/// `total`.
pub open spec fn pro_rata(whole: int, amount: int, total: int) -> int {
    tdiv(whole * asset_ratio(amount, total), 10000)
}

/// Whether splitting `whole` pro rata over `assets` stays within `i128`.
pub open spec fn split_in_range(assets: Seq<AssetAllocation>, total: int, whole: int) -> bool {
    forall|i: int| 0 <= i < assets.len() ==> {
        &&& i128::MIN <= #[trigger] assets[i].amount * 10000 <= i128::MAX
        &&& i128::MIN <= whole * asset_ratio(assets[i].amount as int, total) <= i128::MAX
    }
}

/// Whether taking the pro-rata parts of `whole` out of `assets` stays within
/// `i128`.
pub open spec fn deduction_in_range(assets: Seq<AssetAllocation>, total: int, whole: int) -> bool {
    &&& split_in_range(assets, total, whole)
    &&& forall|i: int| 0 <= i < assets.len() ==>
        i128::MIN <= #[trigger] assets[i].amount - pro_rata(whole, assets[i].amount as int, total) <= i128::MAX
}

/// The transfers of `parts` to `to`.
pub open spec fn transfers_to(parts: Seq<(Address, i128)>, to: Address) -> Seq<TokenTransfer> {
    parts.map_values(|p: (Address, i128)| TokenTransfer { asset: p.0, to, amount: p.1 })
}

/// The positive pro-rata parts of `whole` over `assets`, in basket order.
pub open spec fn payouts(assets: Seq<AssetAllocation>, total: int, whole: int) -> Seq<(Address, i128)>
    decreases assets.len(),
{
    if assets.len() == 0 {
        Seq::empty()
    } else {
        let rest = payouts(assets.drop_last(), total, whole);
        let a = assets.last();
        let part = pro_rata(whole, a.amount as int, total);
        if part > 0 { rest.push((a.asset, part as i128)) } else { rest }
    }
}

/// The assets left once the pro-rata parts of `whole` are taken out; those
/// left with nothing are dropped.
pub open spec fn remaining_assets(assets: Seq<AssetAllocation>, total: int, whole: int) -> Seq<AssetAllocation>
    decreases assets.len(),
{
    if assets.len() == 0 {
        Seq::empty()
    } else {
        let rest = remaining_assets(assets.drop_last(), total, whole);
        let a = assets.last();
        let left = a.amount - pro_rata(whole, a.amount as int, total);
        if left > 0 { rest.push(AssetAllocation { asset: a.asset, amount: left as i128 }) } else { rest }
    }
}

fn pro_rata_part(whole: i128, amount: i128, total: i128) -> (p: i128)
    requires
        i128::MIN <= amount * 10000 <= i128::MAX,
        i128::MIN <= whole * asset_ratio(amount as int, total as int) <= i128::MAX,
    ensures
        p == pro_rata(whole as int, amount as int, total as int),
{
    let ratio: i128 = if total > 0 { (amount * 10000) / total } else { 0 };
    (whole * ratio) / 10000
}

/// The voting weight of a vault: what it still holds, counted in full when
/// irrevocable and by half otherwise.
pub open spec fn vault_power(v: Vault) -> int {
    tdiv((amount_sum(v.allocation.assets@) - v.released_amount) * (if v.is_irrevocable { 100int } else { 50int }), 100)
}

/// Whether the weight of `v` is computed within `i128`.
pub open spec fn vault_power_in_range(v: Vault) -> bool {
    let held = amount_sum(v.allocation.assets@) - v.released_amount;
    &&& sums_fit(v.allocation.assets@)
    &&& i128::MIN <= held <= i128::MAX
    &&& i128::MIN <= held * 100 <= i128::MAX
}

/// The summed weight of the vaults `ids`.
pub open spec fn ids_power(vaults: Map<u64, Vault>, ids: Seq<u64>) -> int
    decreases ids.len(),
{
    if ids.len() == 0 {
        0
    } else {
        ids_power(vaults, ids.drop_last()) + vault_power(vaults[ids.last()])
    }
}

/// Whether the vaults `ids` all exist and their weights add up within `i128`.
pub open spec fn ids_power_in_range(vaults: Map<u64, Vault>, ids: Seq<u64>) -> bool {
    &&& forall|i: int| 0 <= i < ids.len() ==> #[trigger] vaults.contains_key(ids[i]) && vault_power_in_range(vaults[ids[i]])
    &&& forall|k: int| 0 <= k <= ids.len() ==> i128::MIN <= #[trigger] ids_power(vaults, ids.take(k)) <= i128::MAX
}

/// The first position of `a` in `s`.
pub open spec fn is_first_position(s: Seq<Address>, a: Seq<char>, i: int) -> bool {
    0 <= i < s.len() && s[i]@ == a && forall|j: int| 0 <= j < i ==> s[j]@ != a
}

/// Whether `a` is in `s`.
pub open spec fn holds_address(s: Seq<Address>, a: Seq<char>) -> bool {
    exists|i: int| 0 <= i < s.len() && s[i]@ == a
}

fn first_position(s: &Vec<Address>, a: &Address) -> (r: Option<usize>)
    ensures
        match r {
            Some(i) => is_first_position(s@, a@, i as int),
            None => !holds_address(s@, a@),
        },
{
    let mut i: usize = 0;
    while i < s.len()
        invariant
            i <= s.len(),
            forall|j: int| 0 <= j < i ==> s@[j]@ != a@,
        decreases s.len() - i,
    {
        if s[i] == *a {
            return Some(i);
        }
        i = i + 1;
    }
    None
}

pub struct BatchCreateData {
    pub recipients: Vec<Address>,
    pub allocations: Vec<Allocation>,
    pub start_times: Vec<u64>,
    pub end_times: Vec<u64>,
    pub keeper_fees: Vec<i128>,
    pub step_durations: Vec<u64>,
}

/// The summed basket totals of the first `k` allocations.
pub open spec fn prefix_total(allocations: Seq<Allocation>, k: int) -> int
    decreases k,
{
    if k <= 0 {
        0
    } else {
        prefix_total(allocations, k - 1) + amount_sum(allocations[k - 1].assets@)
    }
}

/// The step of the `k`-th vault of a batch: zero where none is given.
pub open spec fn batch_step(data: BatchCreateData, k: int) -> u64 {
    if k < data.step_durations@.len() { data.step_durations@[k] } else { 0 }
}

/// The user index once the `n` vaults numbered from `first` are indexed for
/// their recipients.
pub open spec fn batch_index(index: Map<Seq<char>, Seq<u64>>, recipients: Seq<Address>, first: int, n: int) -> Map<Seq<char>, Seq<u64>>
    decreases n,
{
    if n <= 0 {
        index
    } else {
        let prev = batch_index(index, recipients, first, n - 1);
        let r = recipients[n - 1]@;
        let ids = if prev.contains_key(r) { prev[r] } else { Seq::<u64>::empty() };
        prev.insert(r, ids.push((first + n - 1) as u64))
    }
}

/// The contract's storage.
pub struct VestingContract {
    pub admin: Option<Address>,
    pub admin_balance: i128,
    pub initial_supply: i128,
    pub proposed_admin: Option<Address>,
    pub vault_count: u64,
    pub vaults: HashMap<u64, Vault>,
    pub milestones: MilestoneBook,
    pub user_vaults: StrMap<Vec<u64>>,
    pub paused: bool,
    pub deprecated: bool,
    pub token: Option<Address>,
    pub total_shares: i128,
    pub total_staked: i128,
    pub voting_delegates: StrMap<Address>,
    pub delegators: StrMap<Vec<Address>>,
    pub acceleration_pct: u32,
    pub whitelist: StrMap<bool>,
}

impl VestingContract {
    /// The milestones of vault `id`, if it has any.
    pub open spec fn milestones_of(&self, id: u64) -> Option<Seq<Milestone>> {
        if self.milestones.view_map().contains_key(id) {
            Some(self.milestones.view_map()[id])
        } else {
            None
        }
    }

    /// The vaults of each user, in creation order.
    pub open spec fn user_index(&self) -> Map<Seq<char>, Seq<u64>> {
        self.user_vaults.view_map().map_values(|v: Vec<u64>| v@)
    }

    /// The vaults indexed for `user`.
    pub open spec fn vaults_of(&self, user: Seq<char>) -> Seq<u64> {
        if self.user_index().contains_key(user) { self.user_index()[user] } else { Seq::empty() }
    }

    /// The amount of vault `id` vested at `now`.
    pub open spec fn vested_of(&self, id: u64, now: u64) -> int {
        spec_vested(self.vaults@[id], self.milestones_of(id), now, self.acceleration_pct)
    }

    pub open spec fn vested_readable(&self, id: u64, now: u64) -> bool {
        &&& self.vaults@.contains_key(id)
        &&& vested_in_range(self.vaults@[id], self.milestones_of(id), now, self.acceleration_pct)
    }

    /// The storage of a freshly deployed contract.
    pub fn new() -> (c: Self)
        ensures
            c.admin is None,
            c.vault_count == 0,
            c.vaults@ == Map::<u64, Vault>::empty(),
            c.milestones.view_map() == Map::<u64, Seq<Milestone>>::empty(),
            c.user_vaults.view_map() == Map::<Seq<char>, Vec<u64>>::empty(),
            !c.paused,
            c.acceleration_pct == 0,
    {
        VestingContract {
            admin: None,
            admin_balance: 0,
            initial_supply: 0,
            proposed_admin: None,
            vault_count: 0,
            vaults: HashMap::new(),
            milestones: MilestoneBook::new(),
            user_vaults: StrMap::new(),
            paused: false,
            deprecated: false,
            token: None,
            total_shares: 0,
            total_staked: 0,
            voting_delegates: StrMap::new(),
            delegators: StrMap::new(),
            acceleration_pct: 0,
            whitelist: StrMap::new(),
        }
    }

    /// Sets the admin and the supply it may vest, once.
    pub fn initialize(&mut self, admin: Address, initial_supply: i128)
        requires
            old(self).admin is None,
        ensures
            *final(self) == (VestingContract {
                admin: Some(admin),
                admin_balance: initial_supply,
                initial_supply,
                vault_count: 0,
                paused: false,
                deprecated: false,
                total_shares: 0,
                total_staked: 0,
                ..*old(self)
            }),
    {
        self.admin = Some(admin);
        self.admin_balance = initial_supply;
        self.initial_supply = initial_supply;
        self.vault_count = 0;
        self.paused = false;
        self.deprecated = false;
        self.total_shares = 0;
        self.total_staked = 0;
    }

    /// The admin sets the vested token, once.
    pub fn set_token(&mut self, token: Address)
        requires
            old(self).admin is Some,
            old(self).token is None,
        ensures
            *final(self) == (VestingContract { token: Some(token), ..*old(self) }),
    {
        self.token = Some(token);
    }

    /// The admin whitelists a token.
    pub fn add_to_whitelist(&mut self, token: Address)
        requires
            old(self).admin is Some,
        ensures
            final(self).whitelist.view_map() == old(self).whitelist.view_map().insert(token@, true),
            *final(self) == (VestingContract { whitelist: final(self).whitelist, ..*old(self) }),
    {
        self.whitelist.insert(token, true);
    }

    /// The admin proposes a successor.
    pub fn propose_new_admin(&mut self, new_admin: Address)
        requires
            old(self).admin is Some,
        ensures
            *final(self) == (VestingContract { proposed_admin: Some(new_admin), ..*old(self) }),
    {
        self.proposed_admin = Some(new_admin);
    }

    /// The proposed successor takes over.
    pub fn accept_ownership(&mut self)
        requires
            old(self).proposed_admin is Some,
        ensures
            *final(self) == (VestingContract { admin: old(self).proposed_admin, proposed_admin: None, ..*old(self) }),
    {
        let proposed = self.proposed_admin.take();
        self.admin = proposed;
    }

    pub fn toggle_pause(&mut self)
        requires
            old(self).admin is Some,
        ensures
            *final(self) == (VestingContract { paused: !old(self).paused, ..*old(self) }),
    {
        self.paused = !self.paused;
    }

    pub fn is_paused(&self) -> (b: bool)
        ensures
            b == self.paused,
    {
        self.paused
    }

    pub fn get_admin(&self) -> (a: &Address)
        requires
            self.admin is Some,
        ensures
            Some(*a) == self.admin,
    {
        self.admin.as_ref().unwrap()
    }

    pub fn get_vault(&self, vault_id: u64) -> (v: &Vault)
        requires
            self.vaults@.contains_key(vault_id),
        ensures
            *v == self.vaults@[vault_id],
    {
        self.vaults.get(&vault_id).unwrap()
    }

    pub fn get_user_vaults(&self, user: Address) -> (v: Vec<u64>)
        ensures
            v@ == self.vaults_of(user@),
    {
        match self.user_vaults.get(&user) {
            Some(ids) => ids.clone(),
            None => Vec::new(),
        }
    }

    /// Whether `v` is the vault created for `owner` at `now`.
    pub open spec fn is_new_vault(
        v: Vault,
        owner: Address,
        assets: Seq<AssetAllocation>,
        start_time: u64,
        end_time: u64,
        keeper_fee: i128,
        is_revocable: bool,
        is_transferable: bool,
        step_duration: u64,
        now: u64,
        initialized: bool,
    ) -> bool {
        &&& v.allocation.assets@ == assets
        &&& v.released_amount == 0
        &&& v.keeper_fee == keeper_fee
        &&& v.staked_amount == 0
        &&& v.owner == owner
        &&& v.delegate is None
        &&& v.title@ == Seq::<char>::empty()
        &&& v.start_time == start_time
        &&& v.end_time == end_time
        &&& v.creation_time == now
        &&& v.step_duration == step_duration
        &&& v.is_initialized == initialized
        &&& v.is_irrevocable == !is_revocable
        &&& v.is_transferable == is_transferable
        &&& !v.is_frozen
    }

    /// Whether a vault of `assets` from `start_time` to `end_time` can be
    /// created: a valid schedule, a basket the admin balance covers, and
    /// counters that stay in range.
    pub open spec fn can_create(&self, assets: Seq<AssetAllocation>, start_time: u64, end_time: u64) -> bool {
        let total = amount_sum(assets);
        &&& start_time < end_time
        &&& end_time - start_time <= MAX_DURATION
        &&& self.vault_count < u64::MAX
        &&& sums_fit(assets)
        &&& self.admin_balance >= total
        &&& i128::MIN <= self.admin_balance - total <= i128::MAX
        &&& i128::MIN <= self.total_shares + total <= i128::MAX
    }

    fn create_vault(
        &mut self,
        owner: Address,
        allocation: Allocation,
        start_time: u64,
        end_time: u64,
        keeper_fee: i128,
        is_revocable: bool,
        is_transferable: bool,
        step_duration: u64,
        now: u64,
        full: bool,
    ) -> (id: u64)
        requires
            old(self).can_create(allocation.assets@, start_time, end_time),
        ensures
            id == old(self).vault_count + 1,
            final(self).vault_count == id,
            final(self).vaults@ == old(self).vaults@.insert(id, final(self).vaults@[id]),
            Self::is_new_vault(final(self).vaults@[id], owner, allocation.assets@, start_time, end_time, keeper_fee,
                is_revocable, is_transferable, step_duration, now, full),
            final(self).admin_balance == old(self).admin_balance - amount_sum(allocation.assets@),
            final(self).total_shares == old(self).total_shares + amount_sum(allocation.assets@),
            final(self).user_index() == (if full {
                old(self).user_index().insert(owner@, old(self).vaults_of(owner@).push(id))
            } else {
                old(self).user_index()
            }),
            !full ==> final(self).user_vaults == old(self).user_vaults,
            *final(self) == (VestingContract {
                vault_count: final(self).vault_count,
                vaults: final(self).vaults,
                admin_balance: final(self).admin_balance,
                total_shares: final(self).total_shares,
                user_vaults: final(self).user_vaults,
                ..*old(self)
            }),
    {
        let id = self.vault_count + 1;
        self.vault_count = id;
        let total = allocation.total_amount();
        self.admin_balance = self.admin_balance - total;
        let vault = Vault {
            allocation,
            released_amount: 0,
            keeper_fee,
            staked_amount: 0,
            owner: owner.clone(),
            delegate: None,
            title: String::new(),
            start_time,
            end_time,
            creation_time: now,
            step_duration,
            is_initialized: full,
            is_irrevocable: !is_revocable,
            is_transferable,
            is_frozen: false,
        };
        self.vaults.insert(id, vault);
        if full {
            let mut ids: Vec<u64> = match self.user_vaults.get(&owner) {
                Some(v) => v.clone(),
                None => Vec::new(),
            };
            ids.push(id);
            let ghost pushed = ids@;
            self.user_vaults.insert(owner, ids);
            proof {
                assert(self.user_index() =~= old(self).user_index().insert(owner@, pushed));
            }
        }
        self.total_shares = self.total_shares + total;
        id
    }

    /// The admin creates an initialized vault and indexes it for its owner.
    pub fn create_vault_full(
        &mut self,
        owner: Address,
        allocation: Allocation,
        start_time: u64,
        end_time: u64,
        keeper_fee: i128,
        is_revocable: bool,
        is_transferable: bool,
        step_duration: u64,
        now: u64,
    ) -> (id: u64)
        requires
            old(self).admin is Some,
            old(self).can_create(allocation.assets@, start_time, end_time),
        ensures
            final(self).admin_balance + final(self).total_shares == old(self).admin_balance + old(self).total_shares,
            id == old(self).vault_count + 1,
            final(self).vault_count == id,
            final(self).vaults@ == old(self).vaults@.insert(id, final(self).vaults@[id]),
            Self::is_new_vault(final(self).vaults@[id], owner, allocation.assets@, start_time, end_time, keeper_fee,
                is_revocable, is_transferable, step_duration, now, true),
            final(self).admin_balance == old(self).admin_balance - amount_sum(allocation.assets@),
            final(self).total_shares == old(self).total_shares + amount_sum(allocation.assets@),
            final(self).user_index() == old(self).user_index().insert(owner@, old(self).vaults_of(owner@).push(id)),
            *final(self) == (VestingContract {
                vault_count: final(self).vault_count,
                vaults: final(self).vaults,
                admin_balance: final(self).admin_balance,
                total_shares: final(self).total_shares,
                user_vaults: final(self).user_vaults,
                ..*old(self)
            }),
    {
        self.create_vault(owner, allocation, start_time, end_time, keeper_fee, is_revocable, is_transferable,
            step_duration, now, true)
    }

    /// The admin creates a vault to be initialized later; it is not indexed
    /// for its owner.
    pub fn create_vault_lazy(
        &mut self,
        owner: Address,
        allocation: Allocation,
        start_time: u64,
        end_time: u64,
        keeper_fee: i128,
        is_revocable: bool,
        is_transferable: bool,
        step_duration: u64,
        now: u64,
    ) -> (id: u64)
        requires
            old(self).admin is Some,
            old(self).can_create(allocation.assets@, start_time, end_time),
        ensures
            final(self).admin_balance + final(self).total_shares == old(self).admin_balance + old(self).total_shares,
            id == old(self).vault_count + 1,
            final(self).vault_count == id,
            final(self).vaults@ == old(self).vaults@.insert(id, final(self).vaults@[id]),
            Self::is_new_vault(final(self).vaults@[id], owner, allocation.assets@, start_time, end_time, keeper_fee,
                is_revocable, is_transferable, step_duration, now, false),
            final(self).admin_balance == old(self).admin_balance - amount_sum(allocation.assets@),
            final(self).total_shares == old(self).total_shares + amount_sum(allocation.assets@),
            *final(self) == (VestingContract {
                vault_count: final(self).vault_count,
                vaults: final(self).vaults,
                admin_balance: final(self).admin_balance,
                total_shares: final(self).total_shares,
                ..*old(self)
            }),
    {
        self.create_vault(owner, allocation, start_time, end_time, keeper_fee, is_revocable, is_transferable,
            step_duration, now, false)
    }

    /// The admin sets the milestones of a vault; their percentages add up to
    /// at most a hundred.
    pub fn set_milestones(&mut self, vault_id: u64, milestones: Vec<Milestone>)
        requires
            old(self).admin is Some,
            percentage_sum(milestones@) <= 100,
        ensures
            final(self).milestones.view_map() == old(self).milestones.view_map().insert(vault_id, milestones@),
            *final(self) == (VestingContract { milestones: final(self).milestones, ..*old(self) }),
    {
        self.milestones.set(vault_id, milestones);
    }

    /// The milestones of a vault; their percentages add up to at most a
    /// hundred.
    pub fn get_milestones(&self, vault_id: u64) -> (v: Vec<Milestone>)
        ensures
            v@ == (match self.milestones_of(vault_id) {
                Some(ms) => ms,
                None => Seq::<Milestone>::empty(),
            }),
            percentage_sum(v@) <= 100,
    {
        match self.milestones.get(vault_id) {
            Some(ms) => ms.clone(),
            None => Vec::new(),
        }
    }

    /// The admin unlocks a milestone of a vault.
    pub fn unlock_milestone(&mut self, vault_id: u64, milestone_id: u64)
        requires
            old(self).admin is Some,
            old(self).milestones_of(vault_id) matches Some(ms) && exists|i: int| 0 <= i < ms.len() && ms[i].id == milestone_id,
        ensures
            final(self).milestones.view_map() == old(self).milestones.view_map().insert(
                vault_id,
                unlock_in(old(self).milestones_of(vault_id)->Some_0, milestone_id),
            ),
            *final(self) == (VestingContract { milestones: final(self).milestones, ..*old(self) }),
    {
        let ms = self.milestones.get(vault_id).unwrap();
        let mut updated: Vec<Milestone> = Vec::new();
        let mut i: usize = 0;
        while i < ms.len()
            invariant
                i <= ms.len(),
                updated@ == unlock_in(ms@, milestone_id).take(i as int),
            decreases ms.len() - i,
        {
            let m = ms[i];
            if m.id == milestone_id {
                updated.push(Milestone { id: m.id, percentage: m.percentage, is_unlocked: true });
            } else {
                updated.push(m);
            }
            assert(updated@ =~= unlock_in(ms@, milestone_id).take(i + 1));
            i = i + 1;
        }
        proof {
            assert(updated@ =~= unlock_in(ms@, milestone_id));
            lemma_unlock_keeps_total(ms@, milestone_id);
        }
        self.milestones.set(vault_id, updated);
    }

    /// The admin freezes or thaws a vault.
    pub fn freeze_vault(&mut self, vault_id: u64, freeze: bool)
        requires
            old(self).admin is Some,
            old(self).vaults@.contains_key(vault_id),
        ensures
            final(self).vaults@ == old(self).vaults@.insert(vault_id, Vault { is_frozen: freeze, ..old(self).vaults@[vault_id] }),
            *final(self) == (VestingContract { vaults: final(self).vaults, ..*old(self) }),
    {
        let mut vault = self.vaults.remove(&vault_id).unwrap();
        vault.is_frozen = freeze;
        self.vaults.insert(vault_id, vault);
    }

    /// The admin makes a vault irrevocable.
    pub fn mark_irrevocable(&mut self, vault_id: u64)
        requires
            old(self).admin is Some,
            old(self).vaults@.contains_key(vault_id),
        ensures
            final(self).vaults@ == old(self).vaults@.insert(vault_id, Vault { is_irrevocable: true, ..old(self).vaults@[vault_id] }),
            *final(self) == (VestingContract { vaults: final(self).vaults, ..*old(self) }),
    {
        let mut vault = self.vaults.remove(&vault_id).unwrap();
        vault.is_irrevocable = true;
        self.vaults.insert(vault_id, vault);
    }

    fn vested_amount(&self, vault_id: u64, now: u64) -> (v: i128)
        requires
            self.vested_readable(vault_id, now),
        ensures
            v == self.vested_of(vault_id, now),
    {
        let vault = self.vaults.get(&vault_id).unwrap();
        calculate_vested(vault, self.milestones.get(vault_id), now, self.acceleration_pct)
    }

    /// What the owner of a vault could still claim at `now`.
    pub fn get_claimable_amount(&self, vault_id: u64, now: u64) -> (c: i128)
        requires
            self.vested_readable(vault_id, now),
            i128::MIN <= self.vested_of(vault_id, now) - self.vaults@[vault_id].released_amount <= i128::MAX,
        ensures
            c == self.vested_of(vault_id, now) - self.vaults@[vault_id].released_amount,
    {
        let vested = self.vested_amount(vault_id, now);
        vested - self.vaults.get(&vault_id).unwrap().released_amount
    }

    /// The owner of an initialized, unfrozen vault claims part of what has
    /// vested; the claim is paid out pro rata over the basket, and the
    /// positive parts are returned in basket order.
    pub fn claim_tokens(&mut self, vault_id: u64, claim_amount: i128, now: u64) -> (r: Vec<(Address, i128)>)
        requires
            !old(self).paused,
            old(self).vested_readable(vault_id, now),
            !old(self).vaults@[vault_id].is_frozen,
            old(self).vaults@[vault_id].is_initialized,
            claim_amount > 0,
            i128::MIN <= old(self).vested_of(vault_id, now) - old(self).vaults@[vault_id].released_amount <= i128::MAX,
            claim_amount <= old(self).vested_of(vault_id, now) - old(self).vaults@[vault_id].released_amount,
            split_in_range(
                old(self).vaults@[vault_id].allocation.assets@,
                amount_sum(old(self).vaults@[vault_id].allocation.assets@),
                claim_amount as int,
            ),
        ensures
            final(self).vaults@ == old(self).vaults@.insert(
                vault_id,
                Vault {
                    released_amount: (old(self).vaults@[vault_id].released_amount + claim_amount) as i128,
                    ..old(self).vaults@[vault_id]
                },
            ),
            *final(self) == (VestingContract { vaults: final(self).vaults, ..*old(self) }),
            final(self).vaults@[vault_id].released_amount <= old(self).vested_of(vault_id, now),
            r@ == payouts(
                old(self).vaults@[vault_id].allocation.assets@,
                amount_sum(old(self).vaults@[vault_id].allocation.assets@),
                claim_amount as int,
            ),
    {
        let vested = self.vested_amount(vault_id, now);
        let mut vault = self.vaults.remove(&vault_id).unwrap();
        let total_claimable = vested - vault.released_amount;
        assert(claim_amount <= total_claimable);
        vault.released_amount = vault.released_amount + claim_amount;
        let total_allocation = vault.allocation.total_amount();
        let ghost assets = vault.allocation.assets@;
        let mut claimed: Vec<(Address, i128)> = Vec::new();
        let mut i: usize = 0;
        while i < vault.allocation.assets.len()
            invariant
                i <= assets.len(),
                assets == vault.allocation.assets@,
                total_allocation == amount_sum(assets),
                split_in_range(assets, total_allocation as int, claim_amount as int),
                claimed@ == payouts(assets.take(i as int), total_allocation as int, claim_amount as int),
            decreases assets.len() - i,
        {
            let a = &vault.allocation.assets[i];
            assert(i128::MIN <= assets[i as int].amount * 10000 <= i128::MAX);
            let part = pro_rata_part(claim_amount, a.amount, total_allocation);
            if part > 0 {
                claimed.push((a.asset.clone(), part));
            }
            assert(assets.take(i + 1).drop_last() =~= assets.take(i as int));
            i = i + 1;
        }
        assert(assets.take(i as int) =~= assets);
        self.vaults.insert(vault_id, vault);
        claimed
    }

    /// The admin takes back what has not vested in a vault: each asset gives
    /// up its pro-rata part of the unvested amount, assets left empty leave
    /// the basket, the schedule stops at `now` and the milestones are
    /// dropped. The parts go to the treasury.
    pub fn slash_unvested_balance(&mut self, vault_id: u64, treasury: Address, now: u64) -> (r: Vec<TokenTransfer>)
        requires
            old(self).admin is Some,
            old(self).vested_readable(vault_id, now),
            i128::MIN <= amount_sum(old(self).vaults@[vault_id].allocation.assets@) - old(self).vested_of(vault_id, now) <= i128::MAX,
            amount_sum(old(self).vaults@[vault_id].allocation.assets@) - old(self).vested_of(vault_id, now) > 0,
            deduction_in_range(
                old(self).vaults@[vault_id].allocation.assets@,
                amount_sum(old(self).vaults@[vault_id].allocation.assets@),
                amount_sum(old(self).vaults@[vault_id].allocation.assets@) - old(self).vested_of(vault_id, now),
            ),
            i128::MIN <= old(self).total_shares - (amount_sum(old(self).vaults@[vault_id].allocation.assets@)
                - old(self).vested_of(vault_id, now)) <= i128::MAX,
        ensures
            ({
                let v = old(self).vaults@[vault_id];
                let total = amount_sum(v.allocation.assets@);
                let unvested = total - old(self).vested_of(vault_id, now);
                let after = final(self).vaults@[vault_id];
                &&& final(self).vaults@ == old(self).vaults@.insert(vault_id, after)
                &&& after == (Vault { allocation: after.allocation, end_time: now, step_duration: 0, ..v })
                &&& after.allocation.assets@ == remaining_assets(v.allocation.assets@, total, unvested)
                &&& final(self).milestones.view_map() == old(self).milestones.view_map().remove(vault_id)
                &&& final(self).total_shares == old(self).total_shares - unvested
                &&& r@ == transfers_to(payouts(v.allocation.assets@, total, unvested), treasury)
            }),
            *final(self) == (VestingContract {
                vaults: final(self).vaults,
                milestones: final(self).milestones,
                total_shares: final(self).total_shares,
                ..*old(self)
            }),
    {
        let vested = self.vested_amount(vault_id, now);
        let mut vault = self.vaults.remove(&vault_id).unwrap();
        let total_allocation = vault.allocation.total_amount();
        let unvested = total_allocation - vested;
        let ghost assets = vault.allocation.assets@;
        let mut new_assets: Vec<AssetAllocation> = Vec::new();
        let mut transfers: Vec<TokenTransfer> = Vec::new();
        let mut i: usize = 0;
        while i < vault.allocation.assets.len()
            invariant
                i <= assets.len(),
                assets == vault.allocation.assets@,
                total_allocation == amount_sum(assets),
                deduction_in_range(assets, total_allocation as int, unvested as int),
                new_assets@ == remaining_assets(assets.take(i as int), total_allocation as int, unvested as int),
                transfers@ == transfers_to(payouts(assets.take(i as int), total_allocation as int, unvested as int), treasury),
            decreases assets.len() - i,
        {
            let a = &vault.allocation.assets[i];
            assert(i128::MIN <= assets[i as int].amount * 10000 <= i128::MAX);
            let slashed = pro_rata_part(unvested, a.amount, total_allocation);
            assert(i128::MIN <= assets[i as int].amount - pro_rata(unvested as int, assets[i as int].amount as int, total_allocation as int) <= i128::MAX);
            let remaining = a.amount - slashed;
            if slashed > 0 {
                transfers.push(TokenTransfer { asset: a.asset.clone(), to: treasury.clone(), amount: slashed });
            }
            if remaining > 0 {
                new_assets.push(AssetAllocation { asset: a.asset.clone(), amount: remaining });
            }
            assert(assets.take(i + 1).drop_last() =~= assets.take(i as int));
            assert(transfers@ =~= transfers_to(payouts(assets.take(i + 1), total_allocation as int, unvested as int), treasury));
            i = i + 1;
        }
        assert(assets.take(i as int) =~= assets);
        vault.allocation.assets = new_assets;
        vault.end_time = now;
        vault.step_duration = 0;
        self.milestones.remove(vault_id);
        self.vaults.insert(vault_id, vault);
        self.total_shares = self.total_shares - unvested;
        transfers
    }

    /// Each beneficiary's representative.
    pub open spec fn delegate_index(&self) -> Map<Seq<char>, Address> {
        self.voting_delegates.view_map()
    }

    /// The beneficiaries that delegated to each representative.
    pub open spec fn delegator_index(&self) -> Map<Seq<char>, Seq<Address>> {
        self.delegators.view_map().map_values(|v: Vec<Address>| v@)
    }

    pub open spec fn delegators_of(&self, rep: Seq<char>) -> Seq<Address> {
        if self.delegator_index().contains_key(rep) { self.delegator_index()[rep] } else { Seq::empty() }
    }

    /// The weight of the vaults indexed for `user`.
    pub open spec fn own_power(&self, user: Seq<char>) -> int {
        ids_power(self.vaults@, self.vaults_of(user))
    }

    /// The summed weight of the users `ds`.
    pub open spec fn users_power(&self, ds: Seq<Address>) -> int
        decreases ds.len(),
    {
        if ds.len() == 0 {
            0
        } else {
            self.users_power(ds.drop_last()) + self.own_power(ds.last()@)
        }
    }

    /// The voting power of `user`: none once it delegated, else its own
    /// weight and that of those who delegated to it.
    pub open spec fn voting_power(&self, user: Seq<char>) -> int {
        if self.delegate_index().contains_key(user) {
            0
        } else {
            self.own_power(user) + self.users_power(self.delegators_of(user))
        }
    }

    /// Whether the voting power of `user` is computed within `i128`.
    pub open spec fn voting_power_in_range(&self, user: Seq<char>) -> bool {
        let ds = self.delegators_of(user);
        &&& ids_power_in_range(self.vaults@, self.vaults_of(user))
        &&& forall|i: int| 0 <= i < ds.len() ==> ids_power_in_range(self.vaults@, self.vaults_of(#[trigger] ds[i]@))
        &&& forall|k: int| 0 <= k <= ds.len() ==> i128::MIN <= self.own_power(user) + #[trigger] self.users_power(ds.take(k)) <= i128::MAX
    }

    fn user_own_power(&self, user: &Address) -> (p: i128)
        requires
            ids_power_in_range(self.vaults@, self.vaults_of(user@)),
        ensures
            p == self.own_power(user@),
    {
        let ids: Vec<u64> = self.get_user_vaults(user.clone());
        let mut total_power: i128 = 0;
        let mut i: usize = 0;
        while i < ids.len()
            invariant
                i <= ids.len(),
                ids@ == self.vaults_of(user@),
                ids_power_in_range(self.vaults@, ids@),
                total_power == ids_power(self.vaults@, ids@.take(i as int)),
            decreases ids.len() - i,
        {
            let id = ids[i];
            assert(self.vaults@.contains_key(ids@[i as int]) && vault_power_in_range(self.vaults@[ids@[i as int]]));
            let vault = self.vaults.get(&id).unwrap();
            let balance = vault.allocation.total_amount() - vault.released_amount;
            let weight: i128 = if vault.is_irrevocable { 100 } else { 50 };
            proof { lemma_mul_bounds(balance as int, weight as int, 100); }
            assert(ids@.take(i + 1).drop_last() =~= ids@.take(i as int));
            assert(i128::MIN <= ids_power(self.vaults@, ids@.take(i + 1)) <= i128::MAX);
            total_power = total_power + (balance * weight) / 100;
            i = i + 1;
        }
        assert(ids@.take(i as int) =~= ids@);
        total_power
    }

    /// The voting power of `user`.
    pub fn get_voting_power(&self, user: Address) -> (p: i128)
        requires
            !self.delegate_index().contains_key(user@) ==> self.voting_power_in_range(user@),
        ensures
            p == self.voting_power(user@),
    {
        if self.voting_delegates.contains_key(&user) {
            return 0;
        }
        let mut total_power = self.user_own_power(&user);
        let ds: Vec<Address> = match self.delegators.get(&user) {
            Some(v) => v.clone(),
            None => Vec::new(),
        };
        proof {
            assert(ds@ == self.delegators_of(user@));
        }
        let mut i: usize = 0;
        while i < ds.len()
            invariant
                i <= ds.len(),
                ds@ == self.delegators_of(user@),
                self.voting_power_in_range(user@),
                total_power == self.own_power(user@) + self.users_power(ds@.take(i as int)),
            decreases ds.len() - i,
        {
            assert(ids_power_in_range(self.vaults@, self.vaults_of(ds@[i as int]@)));
            let p = self.user_own_power(&ds[i]);
            assert(ds@.take(i + 1).drop_last() =~= ds@.take(i as int));
            assert(i128::MIN <= self.own_power(user@) + self.users_power(ds@.take(i + 1)) <= i128::MAX);
            total_power = total_power + p;
            i = i + 1;
        }
        assert(ds@.take(i as int) =~= ds@);
        total_power
    }

    /// `beneficiary` hands its voting power to `representative`; naming
    /// itself takes it back.
    pub fn delegate_voting_power(&mut self, beneficiary: Address, representative: Address)
        ensures
            ({
                let old_rep = old(self).delegate_index().get(beneficiary@);
                if old_rep matches Some(o) && o@ == representative@ {
                    *final(self) == *old(self)
                } else {
                    let cleared = match old_rep {
                        Some(o) => if holds_address(old(self).delegators_of(o@), beneficiary@) {
                            old(self).delegator_index().insert(
                                o@,
                                old(self).delegators_of(o@).remove(
                                    choose|i: int| is_first_position(old(self).delegators_of(o@), beneficiary@, i),
                                ),
                            )
                        } else {
                            old(self).delegator_index()
                        },
                        None => old(self).delegator_index(),
                    };
                    let listed = if cleared.contains_key(representative@) { cleared[representative@] } else { Seq::empty() };
                    &&& beneficiary@ == representative@ ==> {
                        &&& final(self).delegate_index() == old(self).delegate_index().remove(beneficiary@)
                        &&& final(self).delegator_index() == cleared
                    }
                    &&& beneficiary@ != representative@ ==> {
                        &&& final(self).delegate_index() == old(self).delegate_index().insert(beneficiary@, representative)
                        &&& final(self).delegator_index() == (if holds_address(listed, beneficiary@) {
                            cleared
                        } else {
                            cleared.insert(representative@, listed.push(beneficiary))
                        })
                    }
                    &&& *final(self) == (VestingContract {
                        voting_delegates: final(self).voting_delegates,
                        delegators: final(self).delegators,
                        ..*old(self)
                    })
                }
            }),
    {
        let ghost before = self.delegator_index();
        let old_rep: Option<Address> = match self.voting_delegates.get(&beneficiary) {
            Some(a) => Some(a.clone()),
            None => None,
        };
        if let Some(old) = old_rep {
            if old == representative {
                return;
            }
            let mut old_list: Vec<Address> = match self.delegators.get(&old) {
                Some(v) => v.clone(),
                None => Vec::new(),
            };
            assert(old_list@ == self.delegators_of(old@));
            match first_position(&old_list, &beneficiary) {
                Some(idx) => {
                    let ghost listed = old_list@;
                    old_list.remove(idx);
                    let ghost shortened = old_list@;
                    self.delegators.insert(old, old_list);
                    proof {
                        let c = choose|i: int| is_first_position(listed, beneficiary@, i);
                        assert(c == idx as int) by {
                            if c < idx { assert(listed[c]@ != beneficiary@); }
                            if c > idx { assert(listed[idx as int]@ != beneficiary@); }
                        }
                        assert(self.delegator_index() =~= before.insert(old@, shortened));
                    }
                },
                None => {},
            }
        }
        let ghost cleared = self.delegator_index();
        if beneficiary == representative {
            self.voting_delegates.remove(&beneficiary);
        } else {
            self.voting_delegates.insert(beneficiary.clone(), representative.clone());
            let mut new_list: Vec<Address> = match self.delegators.get(&representative) {
                Some(v) => v.clone(),
                None => Vec::new(),
            };
            match first_position(&new_list, &beneficiary) {
                Some(_) => {},
                None => {
                    new_list.push(beneficiary);
                    let ghost pushed = new_list@;
                    self.delegators.insert(representative, new_list);
                    proof {
                        assert(self.delegator_index() =~= cleared.insert(representative@, pushed));
                    }
                },
            }
        }
    }

    /// Whether the `n` vaults of `data` can be created one after the other.
    pub open spec fn batch_ok(&self, data: BatchCreateData, n: int) -> bool {
        &&& n <= data.allocations@.len()
        &&& n <= data.start_times@.len()
        &&& n <= data.end_times@.len()
        &&& n <= data.keeper_fees@.len()
        &&& self.vault_count + n <= u64::MAX
        &&& forall|k: int| 0 <= k < n ==> {
            let assets = #[trigger] data.allocations@[k].assets@;
            let total = amount_sum(assets);
            let spent = prefix_total(data.allocations@, k);
            &&& data.start_times@[k] < data.end_times@[k]
            &&& data.end_times@[k] - data.start_times@[k] <= MAX_DURATION
            &&& sums_fit(assets)
            &&& self.admin_balance - spent >= total
            &&& i128::MIN <= self.admin_balance - spent - total <= i128::MAX
            &&& i128::MIN <= self.total_shares + spent + total <= i128::MAX
        }
    }

    /// Whether `after` holds the vaults of `before` and the first `n` vaults
    /// of `data`, numbered from `first`.
    pub open spec fn batch_created(
        before: Map<u64, Vault>,
        after: Map<u64, Vault>,
        data: BatchCreateData,
        first: int,
        n: int,
        now: u64,
        full: bool,
    ) -> bool {
        &&& forall|id: u64| #[trigger] after.contains_key(id) <==> before.contains_key(id) || first <= id < first + n
        &&& forall|id: u64| #[trigger] after.contains_key(id) ==> if first <= id < first + n {
            let k = id - first;
            Self::is_new_vault(after[id], data.recipients@[k], data.allocations@[k].assets@, data.start_times@[k],
                data.end_times@[k], data.keeper_fees@[k], true, false, batch_step(data, k), now, full)
        } else {
            after[id] == before[id]
        }
    }

    fn batch_create(&mut self, data: &BatchCreateData, now: u64, full: bool) -> (ids: Vec<u64>)
        requires
            old(self).batch_ok(*data, data.recipients@.len() as int),
        ensures
            ids@ == Seq::new(data.recipients@.len(), |k: int| (old(self).vault_count + k + 1) as u64),
            final(self).vault_count == old(self).vault_count + data.recipients@.len(),
            final(self).admin_balance == old(self).admin_balance - prefix_total(data.allocations@, data.recipients@.len() as int),
            final(self).total_shares == old(self).total_shares + prefix_total(data.allocations@, data.recipients@.len() as int),
            Self::batch_created(old(self).vaults@, final(self).vaults@, *data, old(self).vault_count + 1,
                data.recipients@.len() as int, now, full),
            full ==> final(self).user_index() == batch_index(old(self).user_index(), data.recipients@,
                old(self).vault_count + 1, data.recipients@.len() as int),
            !full ==> final(self).user_vaults == old(self).user_vaults,
            *final(self) == (VestingContract {
                vault_count: final(self).vault_count,
                vaults: final(self).vaults,
                admin_balance: final(self).admin_balance,
                total_shares: final(self).total_shares,
                user_vaults: final(self).user_vaults,
                ..*old(self)
            }),
    {
        let n = data.recipients.len();
        let ghost first = self.vault_count + 1;
        let mut ids: Vec<u64> = Vec::new();
        let mut i: usize = 0;
        while i < n
            invariant
                i <= n,
                n == data.recipients@.len(),
                old(self).batch_ok(*data, n as int),
                first == old(self).vault_count + 1,
                self.vault_count == old(self).vault_count + i,
                self.admin_balance == old(self).admin_balance - prefix_total(data.allocations@, i as int),
                self.total_shares == old(self).total_shares + prefix_total(data.allocations@, i as int),
                ids@ == Seq::new(i as nat, |k: int| (old(self).vault_count + k + 1) as u64),
                Self::batch_created(old(self).vaults@, self.vaults@, *data, first, i as int, now, full),
                full ==> self.user_index() == batch_index(old(self).user_index(), data.recipients@, first, i as int),
                !full ==> self.user_vaults == old(self).user_vaults,
                *self == (VestingContract {
                    vault_count: self.vault_count,
                    vaults: self.vaults,
                    admin_balance: self.admin_balance,
                    total_shares: self.total_shares,
                    user_vaults: self.user_vaults,
                    ..*old(self)
                }),
            decreases n - i,
        {
            let step = if i < data.step_durations.len() { data.step_durations[i] } else { 0 };
            let allocation = data.allocations[i].duplicate();
            let ghost prev = self.vaults@;
            let ghost prev_index = self.user_index();
            assert(data.allocations@[i as int].assets@ == allocation.assets@);
            let id = self.create_vault(
                data.recipients[i].clone(),
                allocation,
                data.start_times[i],
                data.end_times[i],
                data.keeper_fees[i],
                true,
                false,
                step,
                now,
                full,
            );
            ids.push(id);
            proof {
                let m = i as int;
                assert(ids@ =~= Seq::new((m + 1) as nat, |k: int| (old(self).vault_count + k + 1) as u64));
                assert forall|vid: u64| #[trigger] self.vaults@.contains_key(vid) implies
                    if first <= vid < first + m + 1 {
                        let k = vid - first;
                        Self::is_new_vault(self.vaults@[vid], data.recipients@[k], data.allocations@[k].assets@,
                            data.start_times@[k], data.end_times@[k], data.keeper_fees@[k], true, false,
                            batch_step(*data, k), now, full)
                    } else {
                        self.vaults@[vid] == old(self).vaults@[vid]
                    } by {
                    if vid != id {
                        assert(prev.contains_key(vid));
                    }
                }
            }
            i = i + 1;
        }
        ids
    }

    /// The admin creates the vaults of a batch, initialized and indexed for
    /// their recipients; their ids are returned in order.
    pub fn batch_create_vaults_full(&mut self, data: BatchCreateData, now: u64) -> (ids: Vec<u64>)
        requires
            old(self).admin is Some,
            old(self).batch_ok(data, data.recipients@.len() as int),
        ensures
            final(self).admin_balance + final(self).total_shares == old(self).admin_balance + old(self).total_shares,
            ids@ == Seq::new(data.recipients@.len(), |k: int| (old(self).vault_count + k + 1) as u64),
            final(self).vault_count == old(self).vault_count + data.recipients@.len(),
            final(self).admin_balance == old(self).admin_balance - prefix_total(data.allocations@, data.recipients@.len() as int),
            final(self).total_shares == old(self).total_shares + prefix_total(data.allocations@, data.recipients@.len() as int),
            Self::batch_created(old(self).vaults@, final(self).vaults@, data, old(self).vault_count + 1,
                data.recipients@.len() as int, now, true),
            final(self).user_index() == batch_index(old(self).user_index(), data.recipients@,
                old(self).vault_count + 1, data.recipients@.len() as int),
            *final(self) == (VestingContract {
                vault_count: final(self).vault_count,
                vaults: final(self).vaults,
                admin_balance: final(self).admin_balance,
                total_shares: final(self).total_shares,
                user_vaults: final(self).user_vaults,
                ..*old(self)
            }),
    {
        self.batch_create(&data, now, true)
    }

    /// The admin creates the vaults of a batch, to be initialized later;
    /// their ids are returned in order.
    pub fn batch_create_vaults_lazy(&mut self, data: BatchCreateData, now: u64) -> (ids: Vec<u64>)
        requires
            old(self).admin is Some,
            old(self).batch_ok(data, data.recipients@.len() as int),
        ensures
            final(self).admin_balance + final(self).total_shares == old(self).admin_balance + old(self).total_shares,
            ids@ == Seq::new(data.recipients@.len(), |k: int| (old(self).vault_count + k + 1) as u64),
            final(self).vault_count == old(self).vault_count + data.recipients@.len(),
            final(self).admin_balance == old(self).admin_balance - prefix_total(data.allocations@, data.recipients@.len() as int),
            final(self).total_shares == old(self).total_shares + prefix_total(data.allocations@, data.recipients@.len() as int),
            Self::batch_created(old(self).vaults@, final(self).vaults@, data, old(self).vault_count + 1,
                data.recipients@.len() as int, now, false),
            *final(self) == (VestingContract {
                vault_count: final(self).vault_count,
                vaults: final(self).vaults,
                admin_balance: final(self).admin_balance,
                total_shares: final(self).total_shares,
                ..*old(self)
            }),
    {
        self.batch_create(&data, now, false)
    }

    /// The admin sets the global acceleration of all schedules.
    pub fn accelerate_all_schedules(&mut self, percentage: u32)
        requires
            old(self).admin is Some,
            percentage <= 100,
        ensures
            *final(self) == (VestingContract { acceleration_pct: percentage, ..*old(self) }),
    {
        self.acceleration_pct = percentage;
    }
}

} // verus!
