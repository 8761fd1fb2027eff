//! Dead-letter queue for failed message processing: compact failure
//! envelopes that operators or background workers inspect, retry or mark
//! resolved, kept off the user-facing critical path.

use std::collections::VecDeque;
use vstd::prelude::*;

use crate::clock::now_millis;

verus! {

/// Operational state of a dead-lettered message.
#[derive(Debug, Clone, Copy, PartialEq, Eq, Structural)]
pub enum DeadLetterStatus {
    Pending,
    Retrying,
    Resolved,
}

/// The failure envelope of a message that could not be processed. Identifiers
/// are UUIDs in their 128-bit form; times are milliseconds since the Unix
/// epoch.
#[derive(Debug, Clone)]
pub struct DeadLetterMessage {
    pub id: u128,
    pub message_id: Option<u128>,
    pub sender_id: Option<u128>,
    pub recipient_id: Option<u128>,
    pub failure_stage: String,
    pub error_class: String,
    pub error_message: String,
    pub payload_digest: String,
    pub retry_count: u32,
    pub status: DeadLetterStatus,
    pub first_failed_at: u64,
    pub last_failed_at: u64,
    pub next_retry_at: u64,
}

impl DeadLetterMessage {
    pub fn duplicate(&self) -> (r: Self)
        ensures
            r == *self,
    {
        DeadLetterMessage {
            id: self.id,
            message_id: self.message_id,
            sender_id: self.sender_id,
            recipient_id: self.recipient_id,
            failure_stage: self.failure_stage.clone(),
            error_class: self.error_class.clone(),
            error_message: self.error_message.clone(),
            payload_digest: self.payload_digest.clone(),
            retry_count: self.retry_count,
            status: self.status,
            first_failed_at: self.first_failed_at,
            last_failed_at: self.last_failed_at,
            next_retry_at: self.next_retry_at,
        }
    }
}

/// What is recorded of a failed processing attempt.
#[derive(Debug, Clone)]
pub struct DeadLetterInput {
    pub message_id: Option<u128>,
    pub sender_id: Option<u128>,
    pub recipient_id: Option<u128>,
    pub failure_stage: String,
    pub error_class: String,
    pub error_message: String,
    pub payload_digest: String,
}

/// Retry backoff settings, in milliseconds.
#[derive(Debug, Clone, Copy, PartialEq, Eq, Structural)]
pub struct RetryPolicy {
    pub base_delay_ms: u64,
    pub max_delay_ms: u64,
    pub max_retries: u32,
}

impl Default for RetryPolicy {
    fn default() -> (p: Self)
        ensures
            p.base_delay_ms == 30_000,
            p.max_delay_ms == 900_000,
            p.max_retries == 5,
    {
        RetryPolicy { base_delay_ms: 30_000, max_delay_ms: 900_000, max_retries: 5 }
    }
}

/// `2` to the power `k`.
pub open spec fn pow2(k: nat) -> nat
    decreases k,
{
    if k == 0 { 1 } else { 2 * pow2((k - 1) as nat) }
}

/// The delay before the next retry after `retry_count` failed retries: the
/// base doubled once per retry (at most sixteen times), saturating, and
/// capped at the maximum.
pub open spec fn retry_delay(p: RetryPolicy, retry_count: u32) -> int {
    let k: nat = if retry_count < 16 { retry_count as nat } else { 16 };
    let scaled = p.base_delay_ms * pow2(k);
    let saturated = if scaled > u64::MAX { u64::MAX as int } else { scaled };
    if saturated < p.max_delay_ms { saturated } else { p.max_delay_ms as int }
}

impl RetryPolicy {
    pub fn next_delay(&self, retry_count: u32) -> (d: u64)
        ensures
            d == retry_delay(*self, retry_count),
    {
        let k: u32 = if retry_count < 16 { retry_count } else { 16 };
        let mut multiplier: u64 = 1;
        let mut i: u32 = 0;
        while i < k
            invariant
                i <= k <= 16,
                multiplier == pow2(i as nat),
                1 <= multiplier <= 65536,
            decreases k - i,
        {
            proof {
                assert(pow2((i + 1) as nat) == 2 * pow2(i as nat));
                if i < 16 {
                    lemma_pow2_bound(i as nat);
                }
            }
            multiplier = multiplier * 2;
            i = i + 1;
        }
        let scaled: u64 = if multiplier > 0 && self.base_delay_ms > u64::MAX / multiplier {
            u64::MAX
        } else {
            proof {
                assert(self.base_delay_ms * multiplier <= u64::MAX) by (nonlinear_arith)
                    requires
                        multiplier > 0,
                        self.base_delay_ms <= u64::MAX / multiplier,
                ;
            }
            self.base_delay_ms * multiplier
        };
        proof {
            if multiplier > 0 && self.base_delay_ms > u64::MAX / multiplier {
                assert(self.base_delay_ms * multiplier > u64::MAX) by (nonlinear_arith)
                    requires
                        multiplier > 0,
                        self.base_delay_ms > u64::MAX / multiplier,
                ;
            }
        }
        if scaled < self.max_delay_ms { scaled } else { self.max_delay_ms }
    }
}

proof fn lemma_pow2_mono(k: nat, m: nat)
    requires
        k <= m,
    ensures
        1 <= pow2(k) <= pow2(m),
    decreases m,
{
    if k < m {
        lemma_pow2_mono(k, (m - 1) as nat);
    } else if k > 0 {
        lemma_pow2_mono((k - 1) as nat, (k - 1) as nat);
    }
}

proof fn lemma_pow2_bound(k: nat)
    requires
        k < 16,
    ensures
        2 * pow2(k) <= 65536,
{
    assert(pow2(16) == 65536) by {
        reveal_with_fuel(pow2, 17);
    }
    lemma_pow2_mono(k + 1, 16);
}

/// The envelope recorded for `input` with identifier `id` at `now`.
pub open spec fn fresh_envelope(input: DeadLetterInput, id: u128, now: u64, base_delay_ms: u64) -> DeadLetterMessage {
    DeadLetterMessage {
        id,
        message_id: input.message_id,
        sender_id: input.sender_id,
        recipient_id: input.recipient_id,
        failure_stage: input.failure_stage,
        error_class: input.error_class,
        error_message: input.error_message,
        payload_digest: input.payload_digest,
        retry_count: 0,
        status: DeadLetterStatus::Pending,
        first_failed_at: now,
        last_failed_at: now,
        next_retry_at: (now + base_delay_ms) as u64,
    }
}

/// The pending envelopes of `s`, in order.
pub open spec fn pending_of(s: Seq<DeadLetterMessage>) -> Seq<DeadLetterMessage>
    decreases s.len(),
{
    if s.len() == 0 {
        Seq::empty()
    } else {
        let rest = pending_of(s.drop_last());
        if s.last().status == DeadLetterStatus::Pending { rest.push(s.last()) } else { rest }
    }
}

/// The first position of the envelope `id` in `s`.
pub open spec fn first_with_id(s: Seq<DeadLetterMessage>, id: u128, i: int) -> bool {
    0 <= i < s.len() && s[i].id == id && forall|j: int| 0 <= j < i ==> s[j].id != id
}

/// A fresh UUID (version 4) in its 128-bit form, from `uuid::Uuid::new_v4`.
/// Nothing is promised of its value: it is random.
#[verifier::external_body]
fn new_uuid() -> u128 {
    uuid::Uuid::new_v4().as_u128()
}

/// Bounded queue of failure envelopes, oldest first.
pub struct DeadLetterQueue {
    entries: VecDeque<DeadLetterMessage>,
    max_entries: usize,
    retry_policy: RetryPolicy,
}

impl DeadLetterQueue {
    /// The envelopes, oldest first.
    pub closed spec fn entries(&self) -> Seq<DeadLetterMessage> {
        self.entries@
    }

    pub closed spec fn capacity(&self) -> usize {
        self.max_entries
    }

    pub closed spec fn policy(&self) -> RetryPolicy {
        self.retry_policy
    }

    pub fn new(max_entries: usize, retry_policy: RetryPolicy) -> (q: Self)
        ensures
            q.entries() == Seq::<DeadLetterMessage>::empty(),
            q.capacity() == max_entries,
            q.policy() == retry_policy,
    {
        DeadLetterQueue { entries: VecDeque::new(), max_entries, retry_policy }
    }

    /// Records a failure as a pending envelope with identifier `id` at `now`;
    /// when the queue is full, the oldest envelope makes room.
    pub fn record_failure_at(&mut self, input: DeadLetterInput, id: u128, now: u64) -> (m: DeadLetterMessage)
        requires
            now + old(self).policy().base_delay_ms <= u64::MAX,
        ensures
            m == fresh_envelope(input, id, now, old(self).policy().base_delay_ms),
            final(self).entries() == (if old(self).entries().len() == old(self).capacity() && old(self).capacity() > 0 {
                old(self).entries().drop_first()
            } else {
                old(self).entries()
            }).push(m),
            final(self).capacity() == old(self).capacity(),
            final(self).policy() == old(self).policy(),
            old(self).entries().len() <= old(self).capacity() && old(self).capacity() > 0
                ==> final(self).entries().len() <= final(self).capacity(),
    {
        if self.entries.len() == self.max_entries {
            let _ = self.entries.pop_front();
        }
        let entry = DeadLetterMessage {
            id,
            message_id: input.message_id,
            sender_id: input.sender_id,
            recipient_id: input.recipient_id,
            failure_stage: input.failure_stage,
            error_class: input.error_class,
            error_message: input.error_message,
            payload_digest: input.payload_digest,
            retry_count: 0,
            status: DeadLetterStatus::Pending,
            first_failed_at: now,
            last_failed_at: now,
            next_retry_at: now + self.retry_policy.base_delay_ms,
        };
        self.entries.push_back(entry.duplicate());
        entry
    }

    /// Records a failure under a fresh identifier at the clock's reading
    /// (the retry time saturates at the end of time).
    pub fn record_failure(&mut self, input: DeadLetterInput) -> (m: DeadLetterMessage)
        ensures
            exists|id: u128, now: u64| now + old(self).policy().base_delay_ms <= u64::MAX
                && m == #[trigger] fresh_envelope(input, id, now, old(self).policy().base_delay_ms),
            m.status == DeadLetterStatus::Pending,
            m.retry_count == 0,
            final(self).entries() == (if old(self).entries().len() == old(self).capacity() && old(self).capacity() > 0 {
                old(self).entries().drop_first()
            } else {
                old(self).entries()
            }).push(m),
            final(self).entries().len() > 0,
            final(self).entries().last() == m,
            final(self).capacity() == old(self).capacity(),
            final(self).policy() == old(self).policy(),
            old(self).entries().len() <= old(self).capacity() && old(self).capacity() > 0
                ==> final(self).entries().len() <= final(self).capacity(),
    {
        let id = new_uuid();
        let clock = now_millis();
        let now = if clock <= u64::MAX - self.retry_policy.base_delay_ms {
            clock
        } else {
            u64::MAX - self.retry_policy.base_delay_ms
        };
        let ghost input_v = input;
        let m = self.record_failure_at(input, id, now);
        assert(m == fresh_envelope(input_v, id, now, old(self).policy().base_delay_ms));
        m
    }

    /// The pending envelopes, oldest first.
    pub fn pending(&self) -> (v: Vec<&DeadLetterMessage>)
        ensures
            v@.len() == pending_of(self.entries()).len(),
            forall|j: int| 0 <= j < v@.len() ==> *v@[j] == pending_of(self.entries())[j],
    {
        let mut out: Vec<&DeadLetterMessage> = Vec::new();
        let mut i: usize = 0;
        while i < self.entries.len()
            invariant
                i <= self.entries@.len(),
                out@.len() == pending_of(self.entries@.take(i as int)).len(),
                forall|j: int| 0 <= j < out@.len() ==> *out@[j] == pending_of(self.entries@.take(i as int))[j],
            decreases self.entries@.len() - i,
        {
            assert(self.entries@.take(i + 1).drop_last() =~= self.entries@.take(i as int));
            let e = &self.entries[i];
            if e.status == DeadLetterStatus::Pending {
                out.push(e);
            }
            i = i + 1;
        }
        assert(self.entries@.take(i as int) =~= self.entries@);
        out
    }

    fn position_of(&self, id: u128) -> (r: Option<usize>)
        ensures
            match r {
                Some(i) => first_with_id(self.entries(), id, i as int),
                None => forall|j: int| 0 <= j < self.entries().len() ==> self.entries()[j].id != id,
            },
    {
        let mut i: usize = 0;
        while i < self.entries.len()
            invariant
                i <= self.entries@.len(),
                forall|j: int| 0 <= j < i ==> self.entries@[j].id != id,
            decreases self.entries@.len() - i,
        {
            if self.entries[i].id == id {
                return Some(i);
            }
            i = i + 1;
        }
        None
    }

    /// Records another failed retry of envelope `id` at `now`: the count
    /// goes up, the envelope waits out the next backoff delay, and it is
    /// pending again once the retries are used up.
    pub fn mark_retry_failed_at(&mut self, id: u128, error_message: String, now: u64) -> (r: Option<DeadLetterMessage>)
        requires
            forall|j: int| 0 <= j < old(self).entries().len() && old(self).entries()[j].id == id
                ==> old(self).entries()[j].retry_count < u32::MAX,
        ensures
            match r {
                None => (forall|j: int| 0 <= j < old(self).entries().len() ==> old(self).entries()[j].id != id)
                    && *final(self) == *old(self),
                Some(m) => exists|i: int| {
                    &&& first_with_id(old(self).entries(), id, i)
                    &&& final(self).entries() == old(self).entries().update(i, m)
                    &&& m == (DeadLetterMessage {
                        retry_count: (old(self).entries()[i].retry_count + 1) as u32,
                        last_failed_at: now,
                        error_message,
                        status: if old(self).entries()[i].retry_count + 1 >= old(self).policy().max_retries {
                            DeadLetterStatus::Pending
                        } else {
                            DeadLetterStatus::Retrying
                        },
                        next_retry_at: if now + retry_delay(old(self).policy(), (old(self).entries()[i].retry_count + 1) as u32) > u64::MAX {
                            u64::MAX
                        } else {
                            (now + retry_delay(old(self).policy(), (old(self).entries()[i].retry_count + 1) as u32)) as u64
                        },
                        ..old(self).entries()[i]
                    })
                },
            },
            final(self).capacity() == old(self).capacity(),
            final(self).policy() == old(self).policy(),
    {
        let i = match self.position_of(id) {
            Some(i) => i,
            None => {
                return None;
            },
        };
        let ghost before = self.entries@;
        let mut entry = self.entries.remove(i).unwrap();
        entry.retry_count = entry.retry_count + 1;
        entry.last_failed_at = now;
        entry.error_message = error_message;
        entry.status = if entry.retry_count >= self.retry_policy.max_retries {
            DeadLetterStatus::Pending
        } else {
            DeadLetterStatus::Retrying
        };
        let delay = self.retry_policy.next_delay(entry.retry_count);
        entry.next_retry_at = now.saturating_add(delay);
        let result = entry.duplicate();
        self.entries.insert(i, entry);
        assert(self.entries@ =~= before.update(i as int, result));
        Some(result)
    }

    /// Records another failed retry of envelope `id` at the clock's reading.
    pub fn mark_retry_failed(&mut self, id: u128, error_message: String) -> (r: Option<DeadLetterMessage>)
        requires
            forall|j: int| 0 <= j < old(self).entries().len() && old(self).entries()[j].id == id
                ==> old(self).entries()[j].retry_count < u32::MAX,
        ensures
            r is None <==> forall|j: int| 0 <= j < old(self).entries().len() ==> old(self).entries()[j].id != id,
    {
        self.mark_retry_failed_at(id, error_message, now_millis())
    }

    /// Marks envelope `id` resolved; the result says whether it was found.
    pub fn mark_resolved(&mut self, id: u128) -> (b: bool)
        ensures
            b <==> exists|j: int| 0 <= j < old(self).entries().len() && old(self).entries()[j].id == id,
            b ==> exists|i: int| first_with_id(old(self).entries(), id, i) && final(self).entries()
                == old(self).entries().update(i, DeadLetterMessage { status: DeadLetterStatus::Resolved, ..old(self).entries()[i] }),
            !b ==> *final(self) == *old(self),
            final(self).capacity() == old(self).capacity(),
            final(self).policy() == old(self).policy(),
    {
        match self.position_of(id) {
            Some(i) => {
                let ghost before = self.entries@;
                let mut entry = self.entries.remove(i).unwrap();
                entry.status = DeadLetterStatus::Resolved;
                let ghost e = entry;
                self.entries.insert(i, entry);
                assert(self.entries@ =~= before.update(i as int, e));
                true
            },
            None => false,
        }
    }

    pub fn len(&self) -> (n: usize)
        ensures
            n == self.entries().len(),
    {
        self.entries.len()
    }
}

/// Records a failure and says whether it took less than `budget_ms`
/// milliseconds by the clock.
pub fn records_within_budget(queue: &mut DeadLetterQueue, input: DeadLetterInput, budget_ms: u64) -> (b: bool)
    ensures
        final(queue).entries().len() > 0,
        final(queue).capacity() == old(queue).capacity(),
{
    let started = now_millis();
    queue.record_failure(input);
    let finished = now_millis();
    finished.saturating_sub(started) < budget_ms
}

} // verus!
