use vstd::prelude::*;

use crate::contracts::common::Address;

verus! {

/// How long a guard holds before a check treats it as stale, in seconds.
pub const REENTRY_TIMEOUT_SECONDS: u64 = 300;

/// What a guarded section is doing.
#[derive(Clone, Copy, PartialEq, Eq, Structural, Debug)]
pub enum ReentryStatus {
    Idle,
    ClaimInProgress,
    ExternalTransferInProgress,
}

impl ReentryStatus {
    /// The number under which a guard records this status.
    pub fn code(&self) -> (c: u32)
        ensures
            c == status_code(*self),
    {
        match self {
            ReentryStatus::Idle => 0,
            ReentryStatus::ClaimInProgress => 1,
            ReentryStatus::ExternalTransferInProgress => 2,
        }
    }
}

pub open spec fn status_code(s: ReentryStatus) -> u32 {
    match s {
        ReentryStatus::Idle => 0,
        ReentryStatus::ClaimInProgress => 1,
        ReentryStatus::ExternalTransferInProgress => 2,
    }
}

#[derive(Clone, Copy, PartialEq, Eq, Structural, Debug)]
pub enum ReentryError {
    ReentryDetected,
    ExternalTransferInProgress,
    ClaimInProgress,
    InvalidReentryState,
    ReentryTimeout,
}

impl ReentryError {
    /// The contract error code.
    pub fn code(&self) -> (c: u32)
        ensures
            c == match *self {
                ReentryError::ReentryDetected => 1000u32,
                ReentryError::ExternalTransferInProgress => 1001u32,
                ReentryError::ClaimInProgress => 1002u32,
                ReentryError::InvalidReentryState => 1003u32,
                ReentryError::ReentryTimeout => 1004u32,
            },
    {
        match self {
            ReentryError::ReentryDetected => 1000,
            ReentryError::ExternalTransferInProgress => 1001,
            ReentryError::ClaimInProgress => 1002,
            ReentryError::InvalidReentryState => 1003,
            ReentryError::ReentryTimeout => 1004,
        }
    }
}

/// A guard held by `caller` over grant `grant_id` since `timestamp`.
pub struct ReentryGuard {
    pub status: u32,
    pub caller: Address,
    pub grant_id: u64,
    pub timestamp: u64,
}

impl ReentryGuard {
    pub fn duplicate(&self) -> (r: Self)
        ensures
            r == *self,
    {
        ReentryGuard {
            status: self.status,
            caller: self.caller.clone(),
            grant_id: self.grant_id,
            timestamp: self.timestamp,
        }
    }
}

/// The storage key of a guard: its caller and grant.
pub open spec fn guard_key(g: ReentryGuard) -> (Seq<char>, u64) {
    (g.caller@, g.grant_id)
}

/// Whether a guard taken at `g.timestamp` has run out at `now`.
pub open spec fn guard_expired(g: ReentryGuard, now: u64) -> bool {
    now > g.timestamp + REENTRY_TIMEOUT_SECONDS
}

/// No two guards share a key.
pub open spec fn guards_unique(s: Seq<ReentryGuard>) -> bool {
    forall|i: int, j: int| 0 <= i < j < s.len() ==> guard_key(s[i]) != guard_key(s[j])
}

pub open spec fn holds_key(s: Seq<ReentryGuard>, k: (Seq<char>, u64), i: int) -> bool {
    0 <= i < s.len() && guard_key(s[i]) == k
}

/// The guards of `s`, by key.
pub open spec fn guard_view(s: Seq<ReentryGuard>) -> Map<(Seq<char>, u64), ReentryGuard> {
    Map::new(
        |k: (Seq<char>, u64)| exists|i: int| holds_key(s, k, i),
        |k: (Seq<char>, u64)| s[choose|i: int| holds_key(s, k, i)],
    )
}

proof fn lemma_view_at(s: Seq<ReentryGuard>, i: int)
    requires
        guards_unique(s),
        0 <= i < s.len(),
    ensures
        guard_view(s).contains_key(guard_key(s[i])),
        guard_view(s)[guard_key(s[i])] == s[i],
{
    let k = guard_key(s[i]);
    assert(holds_key(s, k, i));
    let j = choose|j: int| holds_key(s, k, j);
    if j != i {
        if j < i {
            assert(guard_key(s[j]) != guard_key(s[i]));
        } else {
            assert(guard_key(s[i]) != guard_key(s[j]));
        }
    }
}

/// Why a guarded withdrawal is refused.
#[derive(Clone, Copy, PartialEq, Eq, Structural, Debug)]
pub enum GrantError {
    InvalidAmount,
    InvalidState,
    MathOverflow,
}

/// The part of a grant that a withdrawal reads and changes, as settled up
/// to the time of the withdrawal.
pub struct GrantState {
    pub recipient: Address,
    pub total_amount: i128,
    pub claimable: i128,
    pub withdrawn: i128,
    pub active: bool,
    pub completed: bool,
}

/// Why a withdrawal of `amount` from `grant` is refused, given the live
/// guard of its recipient over the grant, if it is.
pub open spec fn withdrawal_refusal(
    grant: GrantState,
    live: Option<ReentryGuard>,
    amount: i128,
    external_transfer: bool,
) -> Option<GrantError> {
    if amount <= 0 {
        Some(GrantError::InvalidAmount)
    } else if !grant.active {
        Some(GrantError::InvalidState)
    } else if AntiReentryGrantContract::withdrawal_conflicts(live, external_transfer) {
        Some(GrantError::InvalidState)
    } else if amount > grant.claimable {
        Some(GrantError::InvalidAmount)
    } else if grant.withdrawn + amount > i128::MAX || grant.withdrawn + grant.claimable > i128::MAX {
        Some(GrantError::MathOverflow)
    } else {
        None
    }
}

/// `grant` after a withdrawal of `amount`: it moves from claimable to
/// withdrawn, and a grant whose withdrawn and claimable amounts make up its
/// total is completed and no longer active.
pub open spec fn withdrawn_grant(grant: GrantState, amount: i128) -> GrantState {
    let claimable = grant.claimable - amount;
    let withdrawn = grant.withdrawn + amount;
    let done = withdrawn + claimable == grant.total_amount;
    GrantState {
        recipient: grant.recipient,
        total_amount: grant.total_amount,
        claimable: claimable as i128,
        withdrawn: withdrawn as i128,
        active: grant.active && !done,
        completed: grant.completed || done,
    }
}

/// The lock state of the anti-reentry contract: one guard per caller and
/// grant, and one global lock.
pub struct AntiReentryGrantContract {
    guards: Vec<ReentryGuard>,
    global_lock: Option<ReentryGuard>,
}

impl AntiReentryGrantContract {
    #[verifier::type_invariant]
    spec fn wf(self) -> bool {
        guards_unique(self.guards@)
    }

    /// The guards held, by caller and grant.
    pub closed spec fn guards(self) -> Map<(Seq<char>, u64), ReentryGuard> {
        guard_view(self.guards@)
    }

    /// The global lock, if taken.
    pub closed spec fn lock(self) -> Option<ReentryGuard> {
        self.global_lock
    }

    /// The guards that a check at `now` leaves in place: all but the one of
    /// `key` if that one has run out.
    pub open spec fn after_check(
        guards: Map<(Seq<char>, u64), ReentryGuard>,
        key: (Seq<char>, u64),
        now: u64,
    ) -> Map<(Seq<char>, u64), ReentryGuard> {
        if guards.contains_key(key) && guard_expired(guards[key], now) {
            guards.remove(key)
        } else {
            guards
        }
    }

    /// The live guard of `key` at `now`, if any.
    pub open spec fn live_guard(
        guards: Map<(Seq<char>, u64), ReentryGuard>,
        key: (Seq<char>, u64),
        now: u64,
    ) -> Option<ReentryGuard> {
        if guards.contains_key(key) && !guard_expired(guards[key], now) {
            Some(guards[key])
        } else {
            None
        }
    }

    /// A contract holding no guard and no lock.
    pub fn new() -> (c: Self)
        ensures
            c.guards() == Map::<(Seq<char>, u64), ReentryGuard>::empty(),
            c.lock() is None,
    {
        let c = AntiReentryGrantContract { guards: Vec::new(), global_lock: None };
        proof {
            assert(c.guards() =~= Map::<(Seq<char>, u64), ReentryGuard>::empty());
        }
        c
    }

    /// Nothing needs setting up; always succeeds and changes nothing.
    pub fn initialize(&mut self) -> (r: Result<(), ReentryError>)
        ensures
            r is Ok,
            final(self).guards() == old(self).guards(),
            final(self).lock() == old(self).lock(),
    {
        Ok(())
    }

    fn position(&self, caller: &Address, grant_id: u64) -> (r: Option<usize>)
        ensures
            match r {
                Some(i) => holds_key(self.guards@, (caller@, grant_id), i as int),
                None => !self.guards().contains_key((caller@, grant_id)),
            },
    {
        let mut i: usize = 0;
        while i < self.guards.len()
            invariant
                i <= self.guards.len(),
                forall|j: int| 0 <= j < i ==> guard_key(self.guards@[j]) != (caller@, grant_id),
            decreases self.guards.len() - i,
        {
            if self.guards[i].grant_id == grant_id && self.guards[i].caller == *caller {
                return Some(i);
            }
            i = i + 1;
        }
        None
    }

    /// Records a guard of `status` for `caller` over `grant_id`, taken at
    /// `now`, in place of any guard it held there.
    pub fn set_reentry_guard(
        &mut self,
        caller: &Address,
        grant_id: u64,
        status: ReentryStatus,
        now: u64,
    ) -> (r: Result<(), ReentryError>)
        ensures
            r is Ok,
            final(self).guards() == old(self).guards().insert(
                (caller@, grant_id),
                ReentryGuard { status: status_code(status), caller: *caller, grant_id, timestamp: now },
            ),
            final(self).lock() == old(self).lock(),
    {
        proof { use_type_invariant(&*self); }
        let guard = ReentryGuard { status: status.code(), caller: caller.clone(), grant_id, timestamp: now };
        let ghost s = self.guards@;
        let ghost k = (caller@, grant_id);
        let found = self.position(caller, grant_id);
        let mut guards: Vec<ReentryGuard> = Vec::new();
        std::mem::swap(&mut guards, &mut self.guards);
        let ghost view = guard_view(s);
        match found {
            Some(i) => {
                guards.set(i, guard);
                proof {
                    let t = guards@;
                    assert(guards_unique(t)) by {
                        assert forall|a: int, b: int| 0 <= a < b < t.len() implies guard_key(t[a]) != guard_key(t[b]) by {
                            assert(guard_key(t[a]) == guard_key(s[a]));
                            assert(guard_key(t[b]) == guard_key(s[b]));
                        }
                    }
                    assert(guard_view(t) =~= view.insert(k, t[i as int])) by {
                        assert forall|key: (Seq<char>, u64)| #[trigger] guard_view(t).contains_key(key)
                            == view.insert(k, t[i as int]).contains_key(key) by {
                            if exists|j: int| holds_key(s, key, j) {
                                let j = choose|j: int| holds_key(s, key, j);
                                assert(holds_key(t, key, j));
                            }
                            if exists|j: int| holds_key(t, key, j) {
                                let j = choose|j: int| holds_key(t, key, j);
                                assert(holds_key(s, key, j));
                            }
                            assert(holds_key(t, k, i as int));
                        }
                        assert forall|key: (Seq<char>, u64)| #[trigger] guard_view(t).contains_key(key)
                            implies guard_view(t)[key] == view.insert(k, t[i as int])[key] by {
                            let j = choose|j: int| holds_key(t, key, j);
                            lemma_view_at(t, j);
                            if j != i {
                                lemma_view_at(s, j);
                            }
                        }
                    }
                }
            },
            None => {
                guards.push(guard);
                proof {
                    let t = guards@;
                    assert(guards_unique(t)) by {
                        assert forall|a: int, b: int| 0 <= a < b < t.len() implies guard_key(t[a]) != guard_key(t[b]) by {
                            assert(t[a] == s[a]);
                            if b < s.len() {
                                assert(t[b] == s[b]);
                            } else {
                                assert(!holds_key(s, k, a));
                            }
                        }
                    }
                    assert(guard_view(t) =~= view.insert(k, t[s.len() as int])) by {
                        assert forall|key: (Seq<char>, u64)| #[trigger] guard_view(t).contains_key(key)
                            == view.insert(k, t[s.len() as int]).contains_key(key) by {
                            if exists|j: int| holds_key(s, key, j) {
                                let j = choose|j: int| holds_key(s, key, j);
                                assert(holds_key(t, key, j));
                            }
                            if exists|j: int| holds_key(t, key, j) {
                                let j = choose|j: int| holds_key(t, key, j);
                                if j < s.len() {
                                    assert(holds_key(s, key, j));
                                }
                            }
                            assert(holds_key(t, k, s.len() as int));
                        }
                        assert forall|key: (Seq<char>, u64)| #[trigger] guard_view(t).contains_key(key)
                            implies guard_view(t)[key] == view.insert(k, t[s.len() as int])[key] by {
                            let j = choose|j: int| holds_key(t, key, j);
                            lemma_view_at(t, j);
                            if j < s.len() {
                                assert(t[j] == s[j]);
                                lemma_view_at(s, j);
                            }
                        }
                    }
                }
            },
        }
        self.guards = guards;
        Ok(())
    }

    /// Drops the guard of `caller` over `grant_id`, if there is one.
    pub fn clear_reentry_guard(&mut self, caller: &Address, grant_id: u64)
        ensures
            final(self).guards() == old(self).guards().remove((caller@, grant_id)),
            final(self).lock() == old(self).lock(),
    {
        proof { use_type_invariant(&*self); }
        let ghost s = self.guards@;
        let ghost k = (caller@, grant_id);
        match self.position(caller, grant_id) {
            Some(i) => {
                let mut guards: Vec<ReentryGuard> = Vec::new();
                std::mem::swap(&mut guards, &mut self.guards);
                guards.remove(i);
                proof {
                    let t = guards@;
                    assert(guards_unique(t)) by {
                        assert forall|a: int, b: int| 0 <= a < b < t.len() implies guard_key(t[a]) != guard_key(t[b]) by {
                            let a2 = if a < i { a } else { a + 1 };
                            let b2 = if b < i { b } else { b + 1 };
                            assert(t[a] == s[a2] && t[b] == s[b2]);
                        }
                    }
                    assert(guard_view(t) =~= guard_view(s).remove(k)) by {
                        assert forall|key: (Seq<char>, u64)| #[trigger] guard_view(t).contains_key(key)
                            == guard_view(s).remove(k).contains_key(key) by {
                            if exists|j: int| holds_key(t, key, j) {
                                let j = choose|j: int| holds_key(t, key, j);
                                let j2 = if j < i { j } else { j + 1 };
                                assert(t[j] == s[j2]);
                                assert(holds_key(s, key, j2));
                                if key == k {
                                    if j2 < i {
                                        assert(guard_key(s[j2]) != guard_key(s[i as int]));
                                    } else {
                                        assert(guard_key(s[i as int]) != guard_key(s[j2]));
                                    }
                                }
                            }
                            if key != k && exists|j: int| holds_key(s, key, j) {
                                let j = choose|j: int| holds_key(s, key, j);
                                assert(j != i);
                                let j2 = if j < i { j } else { j - 1 };
                                assert(t[j2] == s[j]);
                                assert(holds_key(t, key, j2));
                            }
                        }
                        assert forall|key: (Seq<char>, u64)| #[trigger] guard_view(t).contains_key(key)
                            implies guard_view(t)[key] == guard_view(s).remove(k)[key] by {
                            let j = choose|j: int| holds_key(t, key, j);
                            let j2 = if j < i { j } else { j + 1 };
                            assert(t[j] == s[j2]);
                            lemma_view_at(t, j);
                            lemma_view_at(s, j2);
                        }
                    }
                }
                self.guards = guards;
            },
            None => {
                proof {
                    assert(guard_view(s).remove(k) =~= guard_view(s));
                }
            },
        }
    }

    /// The guard of `caller` over `grant_id` as a check at `now` finds it:
    /// one that has run out is dropped and reported as absent.
    pub fn check_reentry_guard(
        &mut self,
        caller: &Address,
        grant_id: u64,
        now: u64,
    ) -> (r: Result<Option<ReentryGuard>, ReentryError>)
        ensures
            r == Ok::<Option<ReentryGuard>, ReentryError>(
                Self::live_guard(old(self).guards(), (caller@, grant_id), now),
            ),
            final(self).guards() == Self::after_check(old(self).guards(), (caller@, grant_id), now),
            final(self).lock() == old(self).lock(),
    {
        proof { use_type_invariant(&*self); }
        match self.position(caller, grant_id) {
            Some(i) => {
                proof { lemma_view_at(self.guards@, i as int); }
                let limit = match self.guards[i].timestamp.checked_add(REENTRY_TIMEOUT_SECONDS) {
                    Some(t) => t,
                    None => u64::MAX,
                };
                if now > limit {
                    self.clear_reentry_guard(caller, grant_id);
                    return Ok(None);
                }
                if !(self.guards[i].caller == *caller) {
                    return Err(ReentryError::ReentryDetected);
                }
                Ok(Some(self.guards[i].duplicate()))
            },
            None => Ok(None),
        }
    }

    /// Takes the global lock for `lock_type` at `now`; refused while it is
    /// held.
    pub fn set_global_lock(&mut self, lock_type: ReentryStatus, now: u64) -> (r: Result<(), ReentryError>)
        ensures
            final(self).guards() == old(self).guards(),
            old(self).lock() is Some ==> r == Err::<(), ReentryError>(ReentryError::ReentryDetected)
                && final(self).lock() == old(self).lock(),
            old(self).lock() is None ==> (r is Ok && (final(self).lock() matches Some(g)
                && g.status == status_code(lock_type) && g.caller@ == global_lock_holder()
                && g.grant_id == 0 && g.timestamp == now)),
    {
        proof { use_type_invariant(&*self); }
        let holder = String::from_str("GD...");
        proof { reveal_strlit("GD..."); }
        let guard = ReentryGuard { status: lock_type.code(), caller: holder, grant_id: 0, timestamp: now };
        if self.global_lock.is_some() {
            return Err(ReentryError::ReentryDetected);
        }
        self.global_lock = Some(guard);
        Ok(())
    }

    /// Releases the global lock.
    pub fn clear_global_lock(&mut self)
        ensures
            final(self).guards() == old(self).guards(),
            final(self).lock() is None,
    {
        proof { use_type_invariant(&*self); }
        self.global_lock = None;
    }

    /// Whether `caller` holds a live guard over `grant_id` at `now`; a guard
    /// that has run out is dropped on the way.
    pub fn is_grant_locked(&mut self, caller: Address, grant_id: u64, now: u64) -> (r: Result<bool, ReentryError>)
        ensures
            r == Ok::<bool, ReentryError>(Self::live_guard(old(self).guards(), (caller@, grant_id), now) is Some),
            final(self).guards() == Self::after_check(old(self).guards(), (caller@, grant_id), now),
            final(self).lock() == old(self).lock(),
    {
        match self.check_reentry_guard(&caller, grant_id, now) {
            Ok(Some(_)) => Ok(true),
            Ok(None) => Ok(false),
            Err(e) => Err(e),
        }
    }

    /// The status a withdrawal records: an external transfer or a claim.
    pub open spec fn withdrawal_status(external_transfer: bool) -> u32 {
        if external_transfer { 2u32 } else { 1u32 }
    }

    /// Whether a live guard of the other kind stands in the way of a
    /// withdrawal of the given kind.
    pub open spec fn withdrawal_conflicts(live: Option<ReentryGuard>, external_transfer: bool) -> bool {
        match live {
            Some(g) => (external_transfer && g.status == 1) || (!external_transfer && g.status == 2),
            None => false,
        }
    }

    /// The guard step that opens a withdrawal by `caller` from `grant_id` at
    /// `now`: refused while the caller holds a live guard of the other kind
    /// over the grant; otherwise the guard of this kind is set (a guard of
    /// the same kind is taken over). A refusal changes nothing; the guard is
    /// released with `clear_reentry_guard` once the withdrawal is done.
    pub fn begin_withdrawal(
        &mut self,
        caller: &Address,
        grant_id: u64,
        external_transfer: bool,
        now: u64,
    ) -> (r: Result<(), ReentryError>)
        ensures
            ({
                let live = Self::live_guard(old(self).guards(), (caller@, grant_id), now);
                if Self::withdrawal_conflicts(live, external_transfer) {
                    &&& r == Err::<(), ReentryError>(ReentryError::InvalidReentryState)
                    &&& final(self).guards() == old(self).guards()
                } else {
                    &&& r is Ok
                    &&& final(self).guards() == old(self).guards().insert(
                        (caller@, grant_id),
                        ReentryGuard {
                            status: Self::withdrawal_status(external_transfer),
                            caller: *caller,
                            grant_id,
                            timestamp: now,
                        },
                    )
                }
            }),
            final(self).lock() == old(self).lock(),
    {
        let ghost before = self.guards();
        match self.check_reentry_guard(caller, grant_id, now) {
            Ok(Some(guard)) => {
                if external_transfer && guard.status == ReentryStatus::ClaimInProgress.code() {
                    return Err(ReentryError::InvalidReentryState);
                }
                if !external_transfer && guard.status == ReentryStatus::ExternalTransferInProgress.code() {
                    return Err(ReentryError::InvalidReentryState);
                }
            },
            Ok(None) => {},
            Err(_) => {
                return Err(ReentryError::InvalidReentryState);
            },
        }
        let status = if external_transfer {
            ReentryStatus::ExternalTransferInProgress
        } else {
            ReentryStatus::ClaimInProgress
        };
        let ghost mid = self.guards();
        let _ = self.set_reentry_guard(caller, grant_id, status, now);
        proof {
            let k = (caller@, grant_id);
            let g = ReentryGuard { status: status_code(status), caller: *caller, grant_id, timestamp: now };
            assert(mid.insert(k, g) =~= before.insert(k, g));
        }
        Ok(())
    }

    /// The live guard of `caller` over `grant_id` at `now`, read without
    /// dropping a stale one.
    fn peek_live(&self, caller: &Address, grant_id: u64, now: u64) -> (r: Option<u32>)
        ensures
            r == match Self::live_guard(self.guards(), (caller@, grant_id), now) {
                Some(g) => Some(g.status),
                None => None::<u32>,
            },
    {
        proof { use_type_invariant(self); }
        match self.position(caller, grant_id) {
            Some(i) => {
                proof { lemma_view_at(self.guards@, i as int); }
                let limit = match self.guards[i].timestamp.checked_add(REENTRY_TIMEOUT_SECONDS) {
                    Some(t) => t,
                    None => u64::MAX,
                };
                if now > limit { None } else { Some(self.guards[i].status) }
            },
            None => None,
        }
    }

    /// A withdrawal of `amount` from grant `grant_id` by its recipient at
    /// `now`, under the reentry guard: refused for a non-positive amount, an
    /// inactive grant, a live guard of the other kind (a claim during an
    /// external transfer or the reverse), an amount above what is claimable,
    /// or an overflow; otherwise the amount moves from claimable to
    /// withdrawn, the grant completes once withdrawn and claimable make up
    /// its total, and the recipient's guard over the grant is gone
    /// afterwards. A refusal changes nothing.
    pub fn withdraw_with_guard(
        &mut self,
        grant: &mut GrantState,
        grant_id: u64,
        amount: i128,
        external_transfer: bool,
        now: u64,
    ) -> (r: Result<(), GrantError>)
        ensures
            ({
                let key = (old(grant).recipient@, grant_id);
                let live = Self::live_guard(old(self).guards(), key, now);
                match withdrawal_refusal(*old(grant), live, amount, external_transfer) {
                    Some(e) => {
                        &&& r == Err::<(), GrantError>(e)
                        &&& *final(grant) == *old(grant)
                        &&& final(self).guards() == old(self).guards()
                    },
                    None => {
                        &&& r is Ok
                        &&& *final(grant) == withdrawn_grant(*old(grant), amount)
                        &&& final(self).guards() == old(self).guards().remove(key)
                    },
                }
            }),
            final(self).lock() == old(self).lock(),
    {
        if amount <= 0 {
            return Err(GrantError::InvalidAmount);
        }
        if !grant.active {
            return Err(GrantError::InvalidState);
        }
        let caller = grant.recipient.clone();
        match self.peek_live(&caller, grant_id, now) {
            Some(status) => {
                if external_transfer && status == ReentryStatus::ClaimInProgress.code() {
                    return Err(GrantError::InvalidState);
                }
                if !external_transfer && status == ReentryStatus::ExternalTransferInProgress.code() {
                    return Err(GrantError::InvalidState);
                }
            },
            None => {},
        }
        if amount > grant.claimable {
            return Err(GrantError::InvalidAmount);
        }
        let withdrawn = match grant.withdrawn.checked_add(amount) {
            Some(w) => w,
            None => {
                return Err(GrantError::MathOverflow);
            },
        };
        let claimable = grant.claimable - amount;
        let accounted = match withdrawn.checked_add(claimable) {
            Some(a) => a,
            None => {
                return Err(GrantError::MathOverflow);
            },
        };
        let status = if external_transfer {
            ReentryStatus::ExternalTransferInProgress
        } else {
            ReentryStatus::ClaimInProgress
        };
        let _ = self.set_reentry_guard(&caller, grant_id, status, now);
        grant.claimable = claimable;
        grant.withdrawn = withdrawn;
        if accounted == grant.total_amount {
            grant.completed = true;
            grant.active = false;
        }
        self.clear_reentry_guard(&caller, grant_id);
        proof {
            let key = (caller@, grant_id);
            assert(self.guards() =~= old(self).guards().remove(key));
        }
        Ok(())
    }

    /// Drops the guard of `caller` over `grant_id` whatever its state.
    pub fn emergency_clear_guard(&mut self, caller: Address, grant_id: u64) -> (r: Result<(), ReentryError>)
        ensures
            r is Ok,
            final(self).guards() == old(self).guards().remove((caller@, grant_id)),
            final(self).lock() == old(self).lock(),
    {
        self.clear_reentry_guard(&caller, grant_id);
        Ok(())
    }

    /// The live guard of `caller` over `grant_id` at `now`, as
    /// `check_reentry_guard` finds it.
    pub fn get_guard_info(
        &mut self,
        caller: Address,
        grant_id: u64,
        now: u64,
    ) -> (r: Result<Option<ReentryGuard>, ReentryError>)
        ensures
            r == Ok::<Option<ReentryGuard>, ReentryError>(
                Self::live_guard(old(self).guards(), (caller@, grant_id), now),
            ),
            final(self).guards() == Self::after_check(old(self).guards(), (caller@, grant_id), now),
            final(self).lock() == old(self).lock(),
    {
        self.check_reentry_guard(&caller, grant_id, now)
    }
}

/// The address recorded as the holder of the global lock.
pub open spec fn global_lock_holder() -> Seq<char> {
    "GD..."@
}

/// A guard just set at `t` holds the grant locked for its caller at every
/// time up to `t` plus the timeout, and no longer after.
pub proof fn lemma_guard_holds_until_timeout(
    guards: Map<(Seq<char>, u64), ReentryGuard>,
    g: ReentryGuard,
    now: u64,
)
    ensures
        AntiReentryGrantContract::live_guard(guards.insert(guard_key(g), g), guard_key(g), now) is Some
            <==> now <= g.timestamp + REENTRY_TIMEOUT_SECONDS,
        now > g.timestamp + REENTRY_TIMEOUT_SECONDS ==> !AntiReentryGrantContract::after_check(
            guards.insert(guard_key(g), g),
            guard_key(g),
            now,
        ).contains_key(guard_key(g)),
{
}

/// After a withdrawal of one kind has opened its guard at `t`, a
/// withdrawal of the other kind by the same caller from the same grant is
/// refused at every time up to `t` plus the timeout, while one of the same
/// kind is let through.
pub proof fn lemma_open_withdrawal_blocks_other_kind(
    guards: Map<(Seq<char>, u64), ReentryGuard>,
    caller: Address,
    grant_id: u64,
    external_transfer: bool,
    t: u64,
    now: u64,
)
    requires
        now <= t + REENTRY_TIMEOUT_SECONDS,
    ensures
        ({
            let opened = guards.insert(
                (caller@, grant_id),
                ReentryGuard {
                    status: AntiReentryGrantContract::withdrawal_status(external_transfer),
                    caller,
                    grant_id,
                    timestamp: t,
                },
            );
            let live = AntiReentryGrantContract::live_guard(opened, (caller@, grant_id), now);
            &&& AntiReentryGrantContract::withdrawal_conflicts(live, !external_transfer)
            &&& !AntiReentryGrantContract::withdrawal_conflicts(live, external_transfer)
        }),
{
}

/// Once a guard is cleared, its grant reads as unlocked for its caller.
pub proof fn lemma_cleared_guard_unlocked(
    guards: Map<(Seq<char>, u64), ReentryGuard>,
    key: (Seq<char>, u64),
    now: u64,
)
    ensures
        AntiReentryGrantContract::live_guard(guards.remove(key), key, now) is None,
{
}

/// A check of one caller and grant leaves the guards of all others as they
/// were, and reports them unchanged.
pub proof fn lemma_check_keeps_other_guards(
    guards: Map<(Seq<char>, u64), ReentryGuard>,
    key: (Seq<char>, u64),
    other: (Seq<char>, u64),
    now: u64,
    later: u64,
)
    requires
        key != other,
    ensures
        AntiReentryGrantContract::after_check(guards, key, now).contains_key(other) == guards.contains_key(other),
        guards.contains_key(other) ==> AntiReentryGrantContract::after_check(guards, key, now)[other] == guards[other],
        AntiReentryGrantContract::live_guard(AntiReentryGrantContract::after_check(guards, key, now), other, later)
            == AntiReentryGrantContract::live_guard(guards, other, later),
{
}

} // verus!
