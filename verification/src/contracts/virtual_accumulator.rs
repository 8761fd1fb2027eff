use std::collections::HashMap;
use vstd::prelude::*;

use crate::contracts::common::Address;
use crate::contracts::lessor_registry::{spec_compliance, validate_compliance_requirements};

verus! {

broadcast use vstd::std_specs::hash::group_hash_axioms;

/// Fixed-point scale of amounts and rates: 18 decimal places.
pub const PRECISION_MULTIPLIER: u128 = 1_000_000_000_000_000_000;

pub const MAX_ACCUMULATOR_ENTRIES: u32 = 1000;

/// Entry count at which the accumulator of a grant is compacted.
pub const COMPACTION_THRESHOLD: u32 = 800;

pub const MIN_VESTING_INTERVAL: u64 = 1;

/// The accumulator head of a schedule that has no entry.
pub const NO_ENTRY: u32 = 4294967295;

/// Entry type of a rate change.
pub const ENTRY_RATE_CHANGE: u32 = 0;

/// Entry type of a claim.
pub const ENTRY_VESTING_EVENT: u32 = 1;

/// Entry type of the entry that replaces a compacted accumulator.
pub const ENTRY_COMPACTION: u32 = 2;

#[derive(Clone, Copy, PartialEq, Eq, Structural, Debug)]
pub struct AccumulatorEntry {
    pub timestamp: u64,
    pub rate_per_second: u128,
    pub cumulative_amount: u128,
    pub grant_id: u64,
    pub entry_type: u32,
}

#[derive(Clone, Copy, PartialEq, Eq, Structural, Debug)]
pub enum EntryType {
    RateChange,
    VestingEvent,
    Compaction,
    Correction,
}

#[derive(Clone, Debug)]
pub struct HighFrequencyVesting {
    pub grant_id: u64,
    pub recipient: Address,
    pub total_amount: u128,
    pub start_time: u64,
    pub end_time: u64,
    pub cliff_time: u64,
    pub current_rate: u128,
    pub last_update: u64,
    pub vested_amount: u128,
    pub claimed_amount: u128,
    pub accumulator_head: u32,
    pub is_active: bool,
    pub vesting_type: u32,
}

#[derive(Clone, Copy, PartialEq, Eq, Structural, Debug)]
pub enum VestingType {
    Linear,
    Accelerated,
    Decelerated,
    Custom,
}

#[derive(Clone, Copy, PartialEq, Eq, Structural, Debug)]
pub struct AccumulatorState {
    pub total_entries: u32,
    pub last_compaction: u64,
    pub precision_loss: u128,
    pub compaction_count: u32,
}

#[derive(Clone, Copy, PartialEq, Eq, Structural, Debug)]
pub enum AccumulatorDataKey {
    Admin,
    Vesting(u64),
    Accumulator(u64, u32),
    AccumulatorState(u64),
    GlobalStats,
    CompactionQueue,
}

#[derive(Clone, Copy, PartialEq, Eq, Structural, Debug)]
pub enum AccumulatorError {
    NotInitialized,
    AlreadyInitialized,
    NotAuthorized,
    VestingNotFound,
    InvalidVestingParameters,
    InsufficientBalance,
    AccumulatorOverflow,
    PrecisionLossTooHigh,
    InvalidTimeRange,
    RateChangeTooFrequent,
    CompactionFailed,
    MathOverflow,
}

impl AccumulatorError {
    /// The contract error code.
    pub fn code(&self) -> (c: u32)
        ensures
            3000 <= c <= 3011,
    {
        match self {
            AccumulatorError::NotInitialized => 3000,
            AccumulatorError::AlreadyInitialized => 3001,
            AccumulatorError::NotAuthorized => 3002,
            AccumulatorError::VestingNotFound => 3003,
            AccumulatorError::InvalidVestingParameters => 3004,
            AccumulatorError::InsufficientBalance => 3005,
            AccumulatorError::AccumulatorOverflow => 3006,
            AccumulatorError::PrecisionLossTooHigh => 3007,
            AccumulatorError::InvalidTimeRange => 3008,
            AccumulatorError::RateChangeTooFrequent => 3009,
            AccumulatorError::CompactionFailed => 3010,
            AccumulatorError::MathOverflow => 3011,
        }
    }
}

// ---------------------------------------------------------------------
// Fixed-point arithmetic
// ---------------------------------------------------------------------

pub open spec fn spec_to_precision(amount: i128) -> Result<u128, AccumulatorError> {
    if amount < 0 {
        Err(AccumulatorError::InvalidVestingParameters)
    } else if amount * PRECISION_MULTIPLIER > u128::MAX {
        Err(AccumulatorError::MathOverflow)
    } else {
        Ok((amount * PRECISION_MULTIPLIER) as u128)
    }
}

pub open spec fn spec_precise_multiply(a: u128, b: u128) -> Result<u128, AccumulatorError> {
    if a * b > u128::MAX {
        Err(AccumulatorError::MathOverflow)
    } else {
        Ok(((a * b) / (PRECISION_MULTIPLIER as int)) as u128)
    }
}

pub open spec fn spec_precise_divide(a: u128, b: u128) -> Result<u128, AccumulatorError> {
    if b == 0 {
        Err(AccumulatorError::InvalidVestingParameters)
    } else if a * PRECISION_MULTIPLIER > u128::MAX {
        Err(AccumulatorError::MathOverflow)
    } else {
        Ok(((a * PRECISION_MULTIPLIER) / (b as int)) as u128)
    }
}

/// Scales a non-negative whole amount to fixed point.
pub fn to_precision(amount: i128) -> (r: Result<u128, AccumulatorError>)
    ensures
        r == spec_to_precision(amount),
{
    if amount < 0 {
        return Err(AccumulatorError::InvalidVestingParameters);
    }
    let a = amount as u128;
    match a.checked_mul(PRECISION_MULTIPLIER) {
        Some(v) => Ok(v),
        None => Err(AccumulatorError::MathOverflow),
    }
}

/// Drops the fractional part of a fixed-point amount.
pub fn from_precision(amount: u128) -> (r: Result<i128, AccumulatorError>)
    ensures
        r matches Ok(v) && v == amount / PRECISION_MULTIPLIER,
{
    let q = amount / PRECISION_MULTIPLIER;
    assert(q <= 340282366920938463463) by (nonlinear_arith)
        requires
            q == amount / PRECISION_MULTIPLIER,
            amount <= u128::MAX,
    ;
    Ok(q as i128)
}

/// The fixed-point product of `a` and `b`.
pub fn precise_multiply(a: u128, b: u128) -> (r: Result<u128, AccumulatorError>)
    ensures
        r == spec_precise_multiply(a, b),
{
    match a.checked_mul(b) {
        Some(p) => Ok(p / PRECISION_MULTIPLIER),
        None => Err(AccumulatorError::MathOverflow),
    }
}

/// The fixed-point quotient of `a` by `b`.
pub fn precise_divide(a: u128, b: u128) -> (r: Result<u128, AccumulatorError>)
    ensures
        r == spec_precise_divide(a, b),
{
    if b == 0 {
        return Err(AccumulatorError::InvalidVestingParameters);
    }
    match a.checked_mul(PRECISION_MULTIPLIER) {
        Some(p) => Ok(p / b),
        None => Err(AccumulatorError::MathOverflow),
    }
}

// ---------------------------------------------------------------------
// The contract's storage as plain values
// ---------------------------------------------------------------------

/// The contract's storage: its admin, and per grant the schedule, the
/// accumulator bookkeeping and the accumulator entries in index order.
pub struct AccumulatorModel {
    pub admin: Option<Seq<char>>,
    pub global_stats: Option<AccumulatorState>,
    pub vestings: Map<u64, HighFrequencyVesting>,
    pub states: Map<u64, AccumulatorState>,
    pub entries: Map<u64, Seq<AccumulatorEntry>>,
}

/// The entries of a grant, none when it has none stored.
pub open spec fn entries_of(m: AccumulatorModel, grant_id: u64) -> Seq<AccumulatorEntry> {
    if m.entries.contains_key(grant_id) { m.entries[grant_id] } else { Seq::empty() }
}

/// The latest entry of `es` of the given type.
pub open spec fn last_of_type(es: Seq<AccumulatorEntry>, entry_type: u32) -> Option<AccumulatorEntry>
    decreases es.len(),
{
    if es.len() == 0 {
        None
    } else if es.last().entry_type == entry_type {
        Some(es.last())
    } else {
        last_of_type(es.drop_last(), entry_type)
    }
}

/// The amount vested at `now` under schedule `v` and its entries `es`.
pub open spec fn spec_vested(v: HighFrequencyVesting, es: Seq<AccumulatorEntry>, now: u64) -> Result<u128, AccumulatorError> {
    if now < v.start_time {
        Ok(0)
    } else if now >= v.end_time || !v.is_active {
        Ok(v.total_amount)
    } else if v.accumulator_head == NO_ENTRY {
        spec_precise_multiply(v.current_rate, (now - v.start_time) as u128)
    } else if v.accumulator_head >= es.len() {
        Err(AccumulatorError::VestingNotFound)
    } else {
        let e = es[v.accumulator_head as int];
        let elapsed: u128 = if now >= e.timestamp { (now - e.timestamp) as u128 } else { 0 };
        match spec_precise_multiply(e.rate_per_second, elapsed) {
            Err(x) => Err(x),
            Ok(extra) => if e.cumulative_amount + extra > u128::MAX {
                Err(AccumulatorError::MathOverflow)
            } else {
                Ok((e.cumulative_amount + extra) as u128)
            },
        }
    }
}

/// The entry that replaces a compacted accumulator: the latest rate and the
/// latest claimed cumulative amount.
pub open spec fn compaction_entry(es: Seq<AccumulatorEntry>, grant_id: u64, now: u64) -> AccumulatorEntry {
    AccumulatorEntry {
        timestamp: now,
        rate_per_second: match last_of_type(es, ENTRY_RATE_CHANGE) {
            Some(e) => e.rate_per_second,
            None => 0,
        },
        cumulative_amount: match last_of_type(es, ENTRY_VESTING_EVENT) {
            Some(e) => e.cumulative_amount,
            None => 0,
        },
        grant_id,
        entry_type: ENTRY_COMPACTION,
    }
}

/// Compaction of a grant's accumulator once it reaches the threshold.
pub open spec fn spec_compact(m: AccumulatorModel, grant_id: u64, now: u64) -> Result<AccumulatorModel, AccumulatorError> {
    if m.admin is None {
        Err(AccumulatorError::NotInitialized)
    } else if !m.states.contains_key(grant_id) {
        Err(AccumulatorError::VestingNotFound)
    } else if m.states[grant_id].total_entries < COMPACTION_THRESHOLD {
        Ok(m)
    } else if !m.vestings.contains_key(grant_id) {
        Err(AccumulatorError::VestingNotFound)
    } else {
        let st = m.states[grant_id];
        let v = m.vestings[grant_id];
        Ok(AccumulatorModel {
            states: m.states.insert(grant_id, AccumulatorState {
                total_entries: 1,
                last_compaction: now,
                compaction_count: (st.compaction_count + 1) as u32,
                ..st
            }),
            entries: m.entries.insert(grant_id, seq![compaction_entry(entries_of(m, grant_id), grant_id, now)]),
            vestings: m.vestings.insert(grant_id, HighFrequencyVesting { accumulator_head: 0, ..v }),
            ..m
        })
    }
}

/// Appends `e` to a grant's accumulator, compacting first when it is full;
/// yields the new state and the index of the appended entry.
pub open spec fn spec_add_entry(m: AccumulatorModel, grant_id: u64, e: AccumulatorEntry, now: u64) -> Result<(AccumulatorModel, u32), AccumulatorError> {
    if !m.states.contains_key(grant_id) {
        Err(AccumulatorError::VestingNotFound)
    } else {
        let compacted = if m.states[grant_id].total_entries >= COMPACTION_THRESHOLD {
            spec_compact(m, grant_id, now)
        } else {
            Ok(m)
        };
        match compacted {
            Err(x) => Err(x),
            Ok(m1) => {
                let st = m1.states[grant_id];
                Ok((AccumulatorModel {
                    states: m1.states.insert(grant_id, AccumulatorState { total_entries: (st.total_entries + 1) as u32, ..st }),
                    entries: m1.entries.insert(grant_id, entries_of(m1, grant_id).push(e)),
                    ..m1
                }, st.total_entries))
            },
        }
    }
}

pub open spec fn fresh_state(now: u64) -> AccumulatorState {
    AccumulatorState { total_entries: 0, last_compaction: now, precision_loss: 0, compaction_count: 0 }
}

pub open spec fn spec_create_vesting(
    m: AccumulatorModel,
    grant_id: u64,
    recipient: Address,
    total_amount: i128,
    start_time: u64,
    end_time: u64,
    cliff_time: u64,
    vesting_type: u32,
    now: u64,
) -> Result<AccumulatorModel, AccumulatorError> {
    if m.admin is None {
        Err(AccumulatorError::NotInitialized)
    } else if total_amount <= 0 {
        Err(AccumulatorError::InvalidVestingParameters)
    } else if start_time >= end_time || cliff_time > end_time {
        Err(AccumulatorError::InvalidTimeRange)
    } else if m.vestings.contains_key(grant_id) {
        Err(AccumulatorError::AlreadyInitialized)
    } else {
        match spec_to_precision(total_amount) {
            Err(x) => Err(x),
            Ok(total) => match spec_precise_divide(total, (end_time - start_time) as u128) {
                Err(x) => Err(x),
                Ok(rate) => {
                    let m1 = AccumulatorModel {
                        states: m.states.insert(grant_id, fresh_state(now)),
                        entries: m.entries.insert(grant_id, Seq::empty()),
                        ..m
                    };
                    let e = AccumulatorEntry {
                        timestamp: start_time,
                        rate_per_second: rate,
                        cumulative_amount: 0,
                        grant_id,
                        entry_type: ENTRY_RATE_CHANGE,
                    };
                    match spec_add_entry(m1, grant_id, e, now) {
                        Err(x) => Err(x),
                        Ok((m2, idx)) => Ok(AccumulatorModel {
                            vestings: m2.vestings.insert(grant_id, HighFrequencyVesting {
                                grant_id,
                                recipient,
                                total_amount: total,
                                start_time,
                                end_time,
                                cliff_time,
                                current_rate: rate,
                                last_update: start_time,
                                vested_amount: 0,
                                claimed_amount: 0,
                                accumulator_head: idx,
                                is_active: true,
                                vesting_type,
                            }),
                            ..m2
                        }),
                    }
                },
            },
        }
    }
}


pub open spec fn spec_update_rate(m: AccumulatorModel, grant_id: u64, new_rate: i128, now: u64) -> Result<AccumulatorModel, AccumulatorError> {
    if m.admin is None {
        Err(AccumulatorError::NotInitialized)
    } else if new_rate < 0 {
        Err(AccumulatorError::InvalidVestingParameters)
    } else if !m.vestings.contains_key(grant_id) {
        Err(AccumulatorError::VestingNotFound)
    } else if !m.vestings[grant_id].is_active {
        Err(AccumulatorError::InvalidVestingParameters)
    } else {
        let v = m.vestings[grant_id];
        match spec_vested(v, entries_of(m, grant_id), now) {
            Err(x) => Err(x),
            Ok(vested) => match spec_to_precision(new_rate) {
                Err(x) => Err(x),
                Ok(rate) => {
                    let e = AccumulatorEntry {
                        timestamp: now,
                        rate_per_second: rate,
                        cumulative_amount: vested,
                        grant_id,
                        entry_type: ENTRY_RATE_CHANGE,
                    };
                    match spec_add_entry(m, grant_id, e, now) {
                        Err(x) => Err(x),
                        Ok((m2, idx)) => Ok(AccumulatorModel {
                            vestings: m2.vestings.insert(grant_id, HighFrequencyVesting {
                                current_rate: rate,
                                last_update: now,
                                accumulator_head: idx,
                                vested_amount: vested,
                                ..v
                            }),
                            ..m2
                        }),
                    }
                },
            },
        }
    }
}

pub open spec fn spec_claim(m: AccumulatorModel, grant_id: u64, amount: i128, now: u64) -> Result<AccumulatorModel, AccumulatorError> {
    if amount <= 0 {
        Err(AccumulatorError::InvalidVestingParameters)
    } else if !m.vestings.contains_key(grant_id) {
        Err(AccumulatorError::VestingNotFound)
    } else if now < m.vestings[grant_id].cliff_time {
        Err(AccumulatorError::InvalidVestingParameters)
    } else {
        let v = m.vestings[grant_id];
        match spec_vested(v, entries_of(m, grant_id), now) {
            Err(x) => Err(x),
            Ok(vested) => {
                let available: int = if vested >= v.claimed_amount { vested - v.claimed_amount } else { 0 };
                match spec_to_precision(amount) {
                    Err(x) => Err(x),
                    Ok(precise) => if precise > available {
                        Err(AccumulatorError::InsufficientBalance)
                    } else {
                        let e = AccumulatorEntry {
                            timestamp: now,
                            rate_per_second: v.current_rate,
                            cumulative_amount: vested,
                            grant_id,
                            entry_type: ENTRY_VESTING_EVENT,
                        };
                        match spec_add_entry(m, grant_id, e, now) {
                            Err(x) => Err(x),
                            Ok((m2, idx)) => {
                                let claimed = (v.claimed_amount + precise) as u128;
                                Ok(AccumulatorModel {
                                    vestings: m2.vestings.insert(grant_id, HighFrequencyVesting {
                                        claimed_amount: claimed,
                                        last_update: now,
                                        accumulator_head: idx,
                                        is_active: if claimed >= v.total_amount { false } else { v.is_active },
                                        ..v
                                    }),
                                    ..m2
                                })
                            },
                        }
                    },
                }
            },
        }
    }
}

pub open spec fn spec_emergency_reset(m: AccumulatorModel, grant_id: u64, now: u64) -> Result<AccumulatorModel, AccumulatorError> {
    if m.admin is None {
        Err(AccumulatorError::NotInitialized)
    } else if !m.vestings.contains_key(grant_id) || !m.states.contains_key(grant_id) {
        Err(AccumulatorError::VestingNotFound)
    } else {
        let v = m.vestings[grant_id];
        Ok(AccumulatorModel {
            vestings: m.vestings.insert(grant_id, HighFrequencyVesting { accumulator_head: NO_ENTRY, last_update: now, ..v }),
            states: m.states.insert(grant_id, fresh_state(now)),
            entries: m.entries.insert(grant_id, Seq::empty()),
            ..m
        })
    }
}

/// A rate change never alters what had vested: right after
/// `update_rate(g, r, t)` the grant has vested what it had at `t`, and at
/// any later time before the end it has vested that amount plus the new
/// rate over the time since `t`.
pub proof fn lemma_rate_change_keeps_vested(m: AccumulatorModel, g: u64, new_rate: i128, t: u64, later: u64)
    requires
        model_consistent(m),
        spec_update_rate(m, g, new_rate, t) is Ok,
        m.vestings[g].start_time <= t <= later,
        later < m.vestings[g].end_time,
    ensures
        spec_vested(m.vestings[g], entries_of(m, g), t) is Ok,
        ({
            let m2 = spec_update_rate(m, g, new_rate, t)->Ok_0;
            let before = spec_vested(m.vestings[g], entries_of(m, g), t)->Ok_0;
            let rate = (new_rate * PRECISION_MULTIPLIER) as u128;
            &&& spec_vested(m2.vestings[g], entries_of(m2, g), t) == Ok::<u128, AccumulatorError>(before)
            &&& match spec_precise_multiply(rate, (later - t) as u128) {
                Ok(extra) => before + extra <= u128::MAX ==> spec_vested(m2.vestings[g], entries_of(m2, g), later)
                    == Ok::<u128, AccumulatorError>((before + extra) as u128),
                Err(_) => true,
            }
        }),
{
    let v = m.vestings[g];
    let before = spec_vested(v, entries_of(m, g), t)->Ok_0;
    let rate = spec_to_precision(new_rate)->Ok_0;
    let e = AccumulatorEntry {
        timestamp: t,
        rate_per_second: rate,
        cumulative_amount: before,
        grant_id: g,
        entry_type: ENTRY_RATE_CHANGE,
    };
    assert(m.states.contains_key(g));
    let added = spec_add_entry(m, g, e, t);
    assert(added is Ok);
    let (m2a, idx) = added->Ok_0;
    let m2 = spec_update_rate(m, g, new_rate, t)->Ok_0;
    assert(entries_of(m2, g) == entries_of(m2a, g));
    if m.states[g].total_entries >= COMPACTION_THRESHOLD {
        let m1 = spec_compact(m, g, t)->Ok_0;
        assert(entries_of(m1, g) =~= seq![compaction_entry(entries_of(m, g), g, t)]);
        assert(m1.states[g].total_entries == 1);
        assert(idx == 1);
        assert(entries_of(m2a, g) =~= seq![compaction_entry(entries_of(m, g), g, t), e]);
    } else {
        assert(entries_of(m, g).len() == m.states[g].total_entries);
        assert(idx == m.states[g].total_entries);
        assert(entries_of(m2a, g) == entries_of(m, g).push(e));
    }
    assert(entries_of(m2, g)[idx as int] == e);
    assert(m2.vestings[g].accumulator_head == idx);
    assert(spec_precise_multiply(rate, 0) == Ok::<u128, AccumulatorError>(0)) by (nonlinear_arith);
}

/// Storage consistency: every grant has a schedule, bookkeeping and entries
/// together, the entry count matches, and stays within the threshold.
pub open spec fn model_consistent(m: AccumulatorModel) -> bool {
    &&& forall|g: u64| m.states.contains_key(g) <==> #[trigger] m.vestings.contains_key(g)
    &&& entries_consistent(m)
}

/// The entries of every grant match its bookkeeping.
pub open spec fn entries_consistent(m: AccumulatorModel) -> bool {
    &&& forall|g: u64| m.states.contains_key(g) <==> #[trigger] m.entries.contains_key(g)
    &&& forall|g: u64| #[trigger] m.states.contains_key(g) ==> m.entries[g].len() == m.states[g].total_entries
        && m.states[g].total_entries <= COMPACTION_THRESHOLD
}

/// The compaction counter of a grant has room for one more compaction.
pub open spec fn can_compact_once_more(m: AccumulatorModel, grant_id: u64) -> bool {
    m.states.contains_key(grant_id) ==> m.states[grant_id].compaction_count < u32::MAX
}


proof fn lemma_last_of_type_step(es: Seq<AccumulatorEntry>, i: int, t: u32)
    requires
        0 <= i < es.len(),
    ensures
        es.take(i + 1).drop_last() == es.take(i),
        es.take(i + 1).last() == es[i],
        es[i].entry_type != t ==> last_of_type(es.take(i + 1), t) == last_of_type(es.take(i), t),
        es[i].entry_type == t ==> last_of_type(es.take(i + 1), t) == Some(es[i]),
{
    assert(es.take(i + 1).drop_last() =~= es.take(i));
}

/// The latest entry of the given type.
fn latest_of_type(es: &Vec<AccumulatorEntry>, t: u32) -> (r: Option<AccumulatorEntry>)
    ensures
        r == last_of_type(es@, t),
{
    let mut i = es.len();
    assert(es@.take(i as int) =~= es@);
    while i > 0
        invariant
            i <= es.len(),
            last_of_type(es@, t) == last_of_type(es@.take(i as int), t),
        decreases i,
    {
        i = i - 1;
        proof { lemma_last_of_type_step(es@, i as int, t); }
        if es[i].entry_type == t {
            return Some(es[i]);
        }
    }
    None
}


impl HighFrequencyVesting {
    /// A copy of the schedule.
    pub fn duplicate(&self) -> (r: Self)
        ensures
            r == *self,
    {
        HighFrequencyVesting {
            grant_id: self.grant_id,
            recipient: self.recipient.clone(),
            total_amount: self.total_amount,
            start_time: self.start_time,
            end_time: self.end_time,
            cliff_time: self.cliff_time,
            current_rate: self.current_rate,
            last_update: self.last_update,
            vested_amount: self.vested_amount,
            claimed_amount: self.claimed_amount,
            accumulator_head: self.accumulator_head,
            is_active: self.is_active,
            vesting_type: self.vesting_type,
        }
    }
}

/// The contract that tracks high-frequency vesting with fixed-point
/// accumulators.
pub struct VirtualAccumulator {
    admin: Option<Address>,
    global_stats: Option<AccumulatorState>,
    vestings: HashMap<u64, HighFrequencyVesting>,
    states: HashMap<u64, AccumulatorState>,
    entries: HashMap<u64, Vec<AccumulatorEntry>>,
}

impl VirtualAccumulator {
    /// The contract's storage as plain values.
    pub closed spec fn model(&self) -> AccumulatorModel {
        AccumulatorModel {
            admin: match self.admin {
                Some(a) => Some(a@),
                None => None,
            },
            global_stats: self.global_stats,
            vestings: self.vestings@,
            states: self.states@,
            entries: self.entries@.map_values(|v: Vec<AccumulatorEntry>| v@),
        }
    }

    /// The storage is consistent.
    pub open spec fn wf(&self) -> bool {
        model_consistent(self.model())
    }

    /// The storage of a freshly deployed contract.
    pub fn new() -> (c: Self)
        ensures
            c.wf(),
            c.model().admin is None,
            c.model().global_stats is None,
            c.model().vestings == Map::<u64, HighFrequencyVesting>::empty(),
            c.model().states == Map::<u64, AccumulatorState>::empty(),
            c.model().entries == Map::<u64, Seq<AccumulatorEntry>>::empty(),
    {
        let c = VirtualAccumulator {
            admin: None,
            global_stats: None,
            vestings: HashMap::new(),
            states: HashMap::new(),
            entries: HashMap::new(),
        };
        assert(c.model().entries =~= Map::<u64, Seq<AccumulatorEntry>>::empty());
        c
    }

    fn vested_of(&self, v: &HighFrequencyVesting, grant_id: u64, now: u64) -> (r: Result<u128, AccumulatorError>)
        requires
            entries_consistent(self.model()),
        ensures
            r == spec_vested(*v, entries_of(self.model(), grant_id), now),
    {
        if now < v.start_time {
            return Ok(0);
        }
        if now >= v.end_time || !v.is_active {
            return Ok(v.total_amount);
        }
        if v.accumulator_head == NO_ENTRY {
            return precise_multiply(v.current_rate, (now - v.start_time) as u128);
        }
        let e = match self.entries.get(&grant_id) {
            Some(es) => {
                if (v.accumulator_head as usize) < es.len() {
                    es[v.accumulator_head as usize]
                } else {
                    return Err(AccumulatorError::VestingNotFound);
                }
            },
            None => {
                return Err(AccumulatorError::VestingNotFound);
            },
        };
        let elapsed: u128 = if now >= e.timestamp { (now - e.timestamp) as u128 } else { 0 };
        let extra = match precise_multiply(e.rate_per_second, elapsed) {
            Ok(x) => x,
            Err(x) => {
                return Err(x);
            },
        };
        match e.cumulative_amount.checked_add(extra) {
            Some(total) => Ok(total),
            None => Err(AccumulatorError::MathOverflow),
        }
    }

    fn compact_impl(&mut self, grant_id: u64, now: u64) -> (r: Result<(), AccumulatorError>)
        requires
            entries_consistent(old(self).model()),
            can_compact_once_more(old(self).model(), grant_id),
        ensures
            entries_consistent(final(self).model()),
            final(self).model().vestings.dom() == old(self).model().vestings.dom(),
            final(self).model().admin == old(self).model().admin,
            final(self).model().global_stats == old(self).model().global_stats,
            match spec_compact(old(self).model(), grant_id, now) {
                Ok(m) => r is Ok && final(self).model() == m,
                Err(e) => r == Err::<(), AccumulatorError>(e) && final(self).model() == old(self).model(),
            },
    {
        if self.admin.is_none() {
            return Err(AccumulatorError::NotInitialized);
        }
        let st = match self.states.get(&grant_id) {
            Some(s) => *s,
            None => {
                return Err(AccumulatorError::VestingNotFound);
            },
        };
        if st.total_entries < COMPACTION_THRESHOLD {
            return Ok(());
        }
        if !self.vestings.contains_key(&grant_id) {
            return Err(AccumulatorError::VestingNotFound);
        }
        let v = self.vestings.remove(&grant_id).unwrap();
        let ghost m = old(self).model();
        let es = self.entries.remove(&grant_id);
        let (rate, cumulative) = match &es {
            Some(es) => {
                let rate = match latest_of_type(es, ENTRY_RATE_CHANGE) {
                    Some(e) => e.rate_per_second,
                    None => 0,
                };
                let cumulative = match latest_of_type(es, ENTRY_VESTING_EVENT) {
                    Some(e) => e.cumulative_amount,
                    None => 0,
                };
                (rate, cumulative)
            },
            None => (0, 0),
        };
        let ce = AccumulatorEntry {
            timestamp: now,
            rate_per_second: rate,
            cumulative_amount: cumulative,
            grant_id,
            entry_type: ENTRY_COMPACTION,
        };
        assert(ce == compaction_entry(entries_of(m, grant_id), grant_id, now));
        let mut new_es: Vec<AccumulatorEntry> = Vec::new();
        new_es.push(ce);
        self.entries.insert(grant_id, new_es);
        self.states.insert(grant_id, AccumulatorState {
            total_entries: 1,
            last_compaction: now,
            compaction_count: st.compaction_count + 1,
            ..st
        });
        self.vestings.insert(grant_id, HighFrequencyVesting { accumulator_head: 0, ..v });
        proof {
            assert(self.model().entries =~= m.entries.insert(grant_id, seq![ce]));
            assert(self.model().vestings =~= m.vestings.insert(grant_id, HighFrequencyVesting { accumulator_head: 0, ..v }));
        }
        Ok(())
    }

    fn add_entry(&mut self, grant_id: u64, e: AccumulatorEntry, now: u64) -> (r: Result<u32, AccumulatorError>)
        requires
            entries_consistent(old(self).model()),
            can_compact_once_more(old(self).model(), grant_id),
        ensures
            entries_consistent(final(self).model()),
            final(self).model().vestings.dom() == old(self).model().vestings.dom(),
            final(self).model().admin == old(self).model().admin,
            final(self).model().global_stats == old(self).model().global_stats,
            match spec_add_entry(old(self).model(), grant_id, e, now) {
                Ok((m, idx)) => r == Ok::<u32, AccumulatorError>(idx) && final(self).model() == m,
                Err(x) => r == Err::<u32, AccumulatorError>(x) && final(self).model() == old(self).model(),
            },
    {
        let total = match self.states.get(&grant_id) {
            Some(s) => s.total_entries,
            None => {
                return Err(AccumulatorError::VestingNotFound);
            },
        };
        if total >= COMPACTION_THRESHOLD {
            match self.compact_impl(grant_id, now) {
                Ok(()) => {},
                Err(x) => {
                    return Err(x);
                },
            }
        }
        let ghost m1 = self.model();
        let st = *self.states.get(&grant_id).unwrap();
        let mut es = match self.entries.remove(&grant_id) {
            Some(es) => es,
            None => Vec::new(),
        };
        es.push(e);
        self.entries.insert(grant_id, es);
        self.states.insert(grant_id, AccumulatorState { total_entries: st.total_entries + 1, ..st });
        proof {
            assert(self.model().entries =~= m1.entries.insert(grant_id, entries_of(m1, grant_id).push(e)));
        }
        Ok(st.total_entries)
    }

    /// Sets the admin of a fresh contract once its compliance checks pass.
    pub fn initialize(
        &mut self,
        admin: Address,
        compliance_level: u32,
        jurisdiction: &str,
        license_number: &Option<String>,
        now: u64,
    ) -> (r: Result<(), AccumulatorError>)
        requires
            old(self).wf(),
        ensures
            final(self).wf(),
            old(self).model().admin is Some ==> r == Err::<(), AccumulatorError>(AccumulatorError::AlreadyInitialized)
                && final(self).model() == old(self).model(),
            old(self).model().admin is None && spec_compliance(compliance_level, jurisdiction@, license_number is Some) is Err
                ==> r == Err::<(), AccumulatorError>(AccumulatorError::NotAuthorized)
                && final(self).model() == old(self).model(),
            old(self).model().admin is None && spec_compliance(compliance_level, jurisdiction@, license_number is Some) is Ok
                ==> r is Ok && final(self).model() == (AccumulatorModel {
                    admin: Some(admin@),
                    global_stats: Some(fresh_state(now)),
                    ..old(self).model()
                }),
    {
        if self.admin.is_some() {
            return Err(AccumulatorError::AlreadyInitialized);
        }
        match validate_compliance_requirements(compliance_level, jurisdiction, license_number) {
            Ok(()) => {},
            Err(_) => {
                return Err(AccumulatorError::NotAuthorized);
            },
        }
        self.admin = Some(admin);
        self.global_stats = Some(AccumulatorState {
            total_entries: 0,
            last_compaction: now,
            precision_loss: 0,
            compaction_count: 0,
        });
        Ok(())
    }

    /// Creates the schedule of a new grant: the whole amount vests linearly
    /// from `start_time` to `end_time`, recorded as the first accumulator entry.
    pub fn create_vesting(
        &mut self,
        grant_id: u64,
        recipient: Address,
        total_amount: i128,
        start_time: u64,
        end_time: u64,
        cliff_time: u64,
        vesting_type: u32,
        now: u64,
    ) -> (r: Result<(), AccumulatorError>)
        requires
            old(self).wf(),
        ensures
            final(self).wf(),
            match spec_create_vesting(old(self).model(), grant_id, recipient, total_amount, start_time, end_time, cliff_time, vesting_type, now) {
                Ok(m) => r is Ok && final(self).model() == m,
                Err(e) => r == Err::<(), AccumulatorError>(e) && final(self).model() == old(self).model(),
            },
    {
        if self.admin.is_none() {
            return Err(AccumulatorError::NotInitialized);
        }
        if total_amount <= 0 {
            return Err(AccumulatorError::InvalidVestingParameters);
        }
        if start_time >= end_time || cliff_time > end_time {
            return Err(AccumulatorError::InvalidTimeRange);
        }
        if self.vestings.contains_key(&grant_id) {
            return Err(AccumulatorError::AlreadyInitialized);
        }
        let total = match to_precision(total_amount) {
            Ok(t) => t,
            Err(x) => {
                return Err(x);
            },
        };
        let duration = end_time - start_time;
        let rate = match precise_divide(total, duration as u128) {
            Ok(r) => r,
            Err(x) => {
                return Err(x);
            },
        };
        let ghost m = self.model();
        self.states.insert(grant_id, AccumulatorState {
            total_entries: 0,
            last_compaction: now,
            precision_loss: 0,
            compaction_count: 0,
        });
        self.entries.insert(grant_id, Vec::new());
        proof {
            assert(self.model().entries =~= m.entries.insert(grant_id, Seq::empty()));
        }
        let e = AccumulatorEntry {
            timestamp: start_time,
            rate_per_second: rate,
            cumulative_amount: 0,
            grant_id,
            entry_type: ENTRY_RATE_CHANGE,
        };
        let idx = match self.add_entry(grant_id, e, now) {
            Ok(i) => i,
            Err(x) => {
                return Err(x);
            },
        };
        self.vestings.insert(grant_id, HighFrequencyVesting {
            grant_id,
            recipient,
            total_amount: total,
            start_time,
            end_time,
            cliff_time,
            current_rate: rate,
            last_update: start_time,
            vested_amount: 0,
            claimed_amount: 0,
            accumulator_head: idx,
            is_active: true,
            vesting_type,
        });
        Ok(())
    }


    /// Switches a grant to a new per-second rate from `now`, recording the
    /// amount vested so far as a rate-change entry.
    pub fn update_rate(&mut self, grant_id: u64, new_rate: i128, now: u64) -> (r: Result<(), AccumulatorError>)
        requires
            old(self).wf(),
            can_compact_once_more(old(self).model(), grant_id),
        ensures
            final(self).wf(),
            match spec_update_rate(old(self).model(), grant_id, new_rate, now) {
                Ok(m) => r is Ok && final(self).model() == m,
                Err(e) => r == Err::<(), AccumulatorError>(e) && final(self).model() == old(self).model(),
            },
    {
        if self.admin.is_none() {
            return Err(AccumulatorError::NotInitialized);
        }
        if new_rate < 0 {
            return Err(AccumulatorError::InvalidVestingParameters);
        }
        let v = match self.vestings.get(&grant_id) {
            Some(v) => v.duplicate(),
            None => {
                return Err(AccumulatorError::VestingNotFound);
            },
        };
        if !v.is_active {
            return Err(AccumulatorError::InvalidVestingParameters);
        }
        let vested = match self.vested_of(&v, grant_id, now) {
            Ok(x) => x,
            Err(x) => {
                return Err(x);
            },
        };
        let rate = match to_precision(new_rate) {
            Ok(x) => x,
            Err(x) => {
                return Err(x);
            },
        };
        let e = AccumulatorEntry {
            timestamp: now,
            rate_per_second: rate,
            cumulative_amount: vested,
            grant_id,
            entry_type: ENTRY_RATE_CHANGE,
        };
        let idx = match self.add_entry(grant_id, e, now) {
            Ok(i) => i,
            Err(x) => {
                return Err(x);
            },
        };
        self.vestings.insert(grant_id, HighFrequencyVesting {
            current_rate: rate,
            last_update: now,
            accumulator_head: idx,
            vested_amount: vested,
            ..v
        });
        Ok(())
    }

    /// Pays out `amount` whole tokens of what has vested and not yet been
    /// claimed, recording the claim as a vesting-event entry; the schedule
    /// ends once the whole amount is claimed.
    pub fn claim(&mut self, grant_id: u64, amount: i128, now: u64) -> (r: Result<(), AccumulatorError>)
        requires
            old(self).wf(),
            can_compact_once_more(old(self).model(), grant_id),
        ensures
            final(self).wf(),
            match spec_claim(old(self).model(), grant_id, amount, now) {
                Ok(m) => r is Ok && final(self).model() == m,
                Err(e) => r == Err::<(), AccumulatorError>(e) && final(self).model() == old(self).model(),
            },
    {
        if amount <= 0 {
            return Err(AccumulatorError::InvalidVestingParameters);
        }
        let v = match self.vestings.get(&grant_id) {
            Some(v) => v.duplicate(),
            None => {
                return Err(AccumulatorError::VestingNotFound);
            },
        };
        if now < v.cliff_time {
            return Err(AccumulatorError::InvalidVestingParameters);
        }
        let vested = match self.vested_of(&v, grant_id, now) {
            Ok(x) => x,
            Err(x) => {
                return Err(x);
            },
        };
        let available = vested.saturating_sub(v.claimed_amount);
        let precise = match to_precision(amount) {
            Ok(x) => x,
            Err(x) => {
                return Err(x);
            },
        };
        if precise > available {
            return Err(AccumulatorError::InsufficientBalance);
        }
        let e = AccumulatorEntry {
            timestamp: now,
            rate_per_second: v.current_rate,
            cumulative_amount: vested,
            grant_id,
            entry_type: ENTRY_VESTING_EVENT,
        };
        let idx = match self.add_entry(grant_id, e, now) {
            Ok(i) => i,
            Err(x) => {
                return Err(x);
            },
        };
        let claimed = v.claimed_amount + precise;
        let still_active = if claimed >= v.total_amount { false } else { v.is_active };
        self.vestings.insert(grant_id, HighFrequencyVesting {
            claimed_amount: claimed,
            last_update: now,
            accumulator_head: idx,
            is_active: still_active,
            ..v
        });
        Ok(())
    }

    /// The whole tokens vested at `now`.
    pub fn get_vested_amount(&self, grant_id: u64, now: u64) -> (r: Result<i128, AccumulatorError>)
        requires
            self.wf(),
        ensures
            !self.model().vestings.contains_key(grant_id) ==> r == Err::<i128, AccumulatorError>(AccumulatorError::VestingNotFound),
            self.model().vestings.contains_key(grant_id) ==> match spec_vested(self.model().vestings[grant_id], entries_of(self.model(), grant_id), now) {
                Ok(x) => r matches Ok(y) && y == x / PRECISION_MULTIPLIER,
                Err(e) => r == Err::<i128, AccumulatorError>(e),
            },
    {
        let v = match self.vestings.get(&grant_id) {
            Some(v) => v,
            None => {
                return Err(AccumulatorError::VestingNotFound);
            },
        };
        match self.vested_of(v, grant_id, now) {
            Ok(x) => from_precision(x),
            Err(e) => Err(e),
        }
    }

    /// The whole tokens claimable at `now`: none before the cliff, otherwise
    /// what has vested beyond what was claimed.
    pub fn get_claimable_amount(&self, grant_id: u64, now: u64) -> (r: Result<i128, AccumulatorError>)
        requires
            self.wf(),
        ensures
            !self.model().vestings.contains_key(grant_id) ==> r == Err::<i128, AccumulatorError>(AccumulatorError::VestingNotFound),
            self.model().vestings.contains_key(grant_id) ==> {
                let v = self.model().vestings[grant_id];
                if now < v.cliff_time {
                    r == Ok::<i128, AccumulatorError>(0)
                } else {
                    match spec_vested(v, entries_of(self.model(), grant_id), now) {
                        Ok(x) => r matches Ok(y) && y == (if x >= v.claimed_amount { x - v.claimed_amount } else { 0 }) / (PRECISION_MULTIPLIER as int),
                        Err(e) => r == Err::<i128, AccumulatorError>(e),
                    }
                }
            },
    {
        let v = match self.vestings.get(&grant_id) {
            Some(v) => v,
            None => {
                return Err(AccumulatorError::VestingNotFound);
            },
        };
        if now < v.cliff_time {
            return Ok(0);
        }
        match self.vested_of(v, grant_id, now) {
            Ok(x) => from_precision(x.saturating_sub(v.claimed_amount)),
            Err(e) => Err(e),
        }
    }

    /// The entry at `entry_index` of a grant's accumulator.
    pub fn get_accumulator_entry(&self, grant_id: u64, entry_index: u32) -> (r: Result<AccumulatorEntry, AccumulatorError>)
        requires
            self.wf(),
        ensures
            ({
                let es = entries_of(self.model(), grant_id);
                if entry_index < es.len() {
                    r == Ok::<AccumulatorEntry, AccumulatorError>(es[entry_index as int])
                } else {
                    r == Err::<AccumulatorEntry, AccumulatorError>(AccumulatorError::VestingNotFound)
                }
            }),
    {
        match self.entries.get(&grant_id) {
            Some(es) => {
                if (entry_index as usize) < es.len() {
                    Ok(es[entry_index as usize])
                } else {
                    Err(AccumulatorError::VestingNotFound)
                }
            },
            None => Err(AccumulatorError::VestingNotFound),
        }
    }

    /// The accumulator bookkeeping of a grant.
    pub fn get_accumulator_state(&self, grant_id: u64) -> (r: Result<AccumulatorState, AccumulatorError>)
        ensures
            if self.model().states.contains_key(grant_id) {
                r == Ok::<AccumulatorState, AccumulatorError>(self.model().states[grant_id])
            } else {
                r == Err::<AccumulatorState, AccumulatorError>(AccumulatorError::VestingNotFound)
            },
    {
        match self.states.get(&grant_id) {
            Some(s) => Ok(*s),
            None => Err(AccumulatorError::VestingNotFound),
        }
    }

    /// Replaces a full accumulator by a single compaction entry that keeps
    /// the latest rate and the latest claimed cumulative amount.
    pub fn compact_accumulator(&mut self, grant_id: u64, now: u64) -> (r: Result<(), AccumulatorError>)
        requires
            old(self).wf(),
            can_compact_once_more(old(self).model(), grant_id),
        ensures
            final(self).wf(),
            match spec_compact(old(self).model(), grant_id, now) {
                Ok(m) => r is Ok && final(self).model() == m,
                Err(e) => r == Err::<(), AccumulatorError>(e) && final(self).model() == old(self).model(),
            },
    {
        self.compact_impl(grant_id, now)
    }

    /// Drops a grant's accumulator and restarts its bookkeeping.
    pub fn emergency_reset(&mut self, grant_id: u64, now: u64) -> (r: Result<(), AccumulatorError>)
        requires
            old(self).wf(),
        ensures
            final(self).wf(),
            match spec_emergency_reset(old(self).model(), grant_id, now) {
                Ok(m) => r is Ok && final(self).model() == m,
                Err(e) => r == Err::<(), AccumulatorError>(e) && final(self).model() == old(self).model(),
            },
    {
        if self.admin.is_none() {
            return Err(AccumulatorError::NotInitialized);
        }
        let v = match self.vestings.get(&grant_id) {
            Some(v) => v.duplicate(),
            None => {
                return Err(AccumulatorError::VestingNotFound);
            },
        };
        if !self.states.contains_key(&grant_id) {
            return Err(AccumulatorError::VestingNotFound);
        }
        let ghost m = self.model();
        self.vestings.insert(grant_id, HighFrequencyVesting { accumulator_head: NO_ENTRY, last_update: now, ..v });
        self.entries.insert(grant_id, Vec::new());
        self.states.insert(grant_id, AccumulatorState {
            total_entries: 0,
            last_compaction: now,
            precision_loss: 0,
            compaction_count: 0,
        });
        proof {
            assert(self.model().entries =~= m.entries.insert(grant_id, Seq::empty()));
        }
        Ok(())
    }
}

} // verus!
