use std::collections::HashMap;
use vstd::prelude::*;

use crate::contracts::common::Address;
use crate::contracts::virtual_accumulator::{
    can_compact_once_more, spec_compact, AccumulatorError, AccumulatorModel, VirtualAccumulator,
};
use crate::str_map::StrMap;

verus! {

broadcast use vstd::std_specs::hash::group_hash_axioms;

#[derive(Clone, Copy, PartialEq, Eq, Structural, Debug)]
pub enum LessorStatus {
    Pending,
    Active,
    Suspended,
    Revoked,
    UnderReview,
}

#[derive(Clone, Copy, PartialEq, Eq, Structural, Debug)]
pub enum ComplianceLevel {
    Basic,
    Standard,
    Enhanced,
    Premium,
}

#[derive(Clone, Copy, PartialEq, Eq, Structural, Debug)]
pub enum LessorRegistryError {
    NotAuthorized,
    LessorNotFound,
    LessorAlreadyExists,
    InvalidStatus,
    InvalidComplianceLevel,
    InsufficientAllocation,
    MaxAllocationExceeded,
    VestingScheduleNotFound,
    InvalidVestingParameters,
    ComplianceCheckFailed,
    JurisdictionNotSupported,
    LicenseRequired,
    AuditLogError,
}

impl LessorRegistryError {
    /// The contract error code.
    pub fn code(&self) -> (c: u32)
        ensures
            2000 <= c <= 2012,
    {
        match self {
            LessorRegistryError::NotAuthorized => 2000,
            LessorRegistryError::LessorNotFound => 2001,
            LessorRegistryError::LessorAlreadyExists => 2002,
            LessorRegistryError::InvalidStatus => 2003,
            LessorRegistryError::InvalidComplianceLevel => 2004,
            LessorRegistryError::InsufficientAllocation => 2005,
            LessorRegistryError::MaxAllocationExceeded => 2006,
            LessorRegistryError::VestingScheduleNotFound => 2007,
            LessorRegistryError::InvalidVestingParameters => 2008,
            LessorRegistryError::ComplianceCheckFailed => 2009,
            LessorRegistryError::JurisdictionNotSupported => 2010,
            LessorRegistryError::LicenseRequired => 2011,
            LessorRegistryError::AuditLogError => 2012,
        }
    }
}

/// The two-letter jurisdiction codes the registry serves.
pub open spec fn spec_supported_jurisdiction(j: Seq<char>) -> bool {
    ||| j == seq!['U', 'S']
    ||| j == seq!['G', 'B']
    ||| j == seq!['E', 'U']
    ||| j == seq!['S', 'G']
    ||| j == seq!['J', 'P']
    ||| j == seq!['C', 'H']
    ||| j == seq!['C', 'A']
    ||| j == seq!['A', 'U']
}

/// Jurisdictions where any level above basic needs a license.
pub open spec fn spec_license_jurisdiction(j: Seq<char>) -> bool {
    ||| j == seq!['U', 'S']
    ||| j == seq!['G', 'B']
    ||| j == seq!['E', 'U']
}

/// The outcome of the compliance check of a registration.
pub open spec fn spec_compliance(level: u32, j: Seq<char>, has_license: bool) -> Result<(), LessorRegistryError> {
    if !spec_supported_jurisdiction(j) {
        Err(LessorRegistryError::JurisdictionNotSupported)
    } else if level >= 1 && spec_license_jurisdiction(j) && !has_license {
        Err(LessorRegistryError::LicenseRequired)
    } else {
        Ok(())
    }
}

fn two_chars(s: &str) -> (r: Option<(char, char)>)
    ensures
        match r {
            Some((a, b)) => s@ == seq![a, b],
            None => s@.len() != 2,
        },
{
    if s.unicode_len() != 2 {
        return None;
    }
    let a = s.get_char(0);
    let b = s.get_char(1);
    assert(s@ =~= seq![a, b]);
    Some((a, b))
}

pub fn is_jurisdiction_supported(jurisdiction: &str) -> (b: bool)
    ensures
        b == spec_supported_jurisdiction(jurisdiction@),
{
    match two_chars(jurisdiction) {
        Some((a, b)) => {
            (a == 'U' && b == 'S') || (a == 'G' && b == 'B') || (a == 'E' && b == 'U') || (a == 'S' && b == 'G')
                || (a == 'J' && b == 'P') || (a == 'C' && b == 'H') || (a == 'C' && b == 'A') || (a == 'A'
                && b == 'U')
        },
        None => false,
    }
}

fn needs_license_jurisdiction(jurisdiction: &str) -> (b: bool)
    ensures
        b == spec_license_jurisdiction(jurisdiction@),
{
    match two_chars(jurisdiction) {
        Some((a, b)) => (a == 'U' && b == 'S') || (a == 'G' && b == 'B') || (a == 'E' && b == 'U'),
        None => false,
    }
}

/// Checks that the jurisdiction is served and that a license is present
/// where the level and jurisdiction call for one.
pub fn validate_compliance_requirements(
    compliance_level: u32,
    jurisdiction: &str,
    license_number: &Option<String>,
) -> (r: Result<(), LessorRegistryError>)
    ensures
        r == spec_compliance(compliance_level, jurisdiction@, license_number is Some),
{
    if !is_jurisdiction_supported(jurisdiction) {
        return Err(LessorRegistryError::JurisdictionNotSupported);
    }
    if compliance_level >= 1 && needs_license_jurisdiction(jurisdiction) && license_number.is_none() {
        return Err(LessorRegistryError::LicenseRequired);
    }
    Ok(())
}


/// Above the basic level, a lessor in the United States, Great Britain or
/// the European Union must hold a license: without one the compliance check
/// fails with `LicenseRequired`; with one, or at the basic level, it passes.
pub proof fn lemma_license_required_above_basic(level: u32, j: Seq<char>, has_license: bool)
    requires
        j == seq!['U', 'S'] || j == seq!['G', 'B'] || j == seq!['E', 'U'],
    ensures
        level >= 1 && !has_license ==> spec_compliance(level, j, has_license)
            == Err::<(), LessorRegistryError>(LessorRegistryError::LicenseRequired),
        level == 0 || has_license ==> spec_compliance(level, j, has_license) is Ok,
{
}

/// Status code of a lessor awaiting approval.
pub const LESSOR_PENDING: u32 = 0;

/// Status code of an approved lessor.
pub const LESSOR_ACTIVE: u32 = 1;

/// Status code of a suspended lessor.
pub const LESSOR_SUSPENDED: u32 = 2;

/// Status code of a revoked lessor.
pub const LESSOR_REVOKED: u32 = 3;

pub struct LessorInfo {
    pub lessor_address: Address,
    pub name: String,
    pub status: u32,
    pub compliance_level: u32,
    pub registration_date: u64,
    pub last_updated: u64,
    pub authorized_by: Address,
    pub max_total_allocation: i128,
    pub current_allocation: i128,
    pub jurisdiction: String,
    pub license_number: Option<String>,
    pub metadata: Vec<(String, String)>,
}

pub struct InstitutionalVestingSchedule {
    pub lessor_address: Address,
    pub grant_id: u64,
    pub total_amount: i128,
    pub vesting_start: u64,
    pub vesting_duration: u64,
    pub cliff_duration: u64,
    pub slice_period: u64,
    pub created_at: u64,
    pub last_vesting_update: u64,
    pub vested_amount: i128,
    pub released_amount: i128,
    pub is_active: bool,
}

/// The registry's error for a failure of the accumulator it compacts.
pub open spec fn spec_registry_error_from(e: AccumulatorError) -> LessorRegistryError {
    match e {
        AccumulatorError::NotInitialized => LessorRegistryError::NotAuthorized,
        AccumulatorError::NotAuthorized => LessorRegistryError::NotAuthorized,
        AccumulatorError::VestingNotFound => LessorRegistryError::VestingScheduleNotFound,
        _ => LessorRegistryError::InvalidVestingParameters,
    }
}

pub fn registry_error_from(e: AccumulatorError) -> (r: LessorRegistryError)
    ensures
        r == spec_registry_error_from(e),
{
    match e {
        AccumulatorError::NotInitialized => LessorRegistryError::NotAuthorized,
        AccumulatorError::NotAuthorized => LessorRegistryError::NotAuthorized,
        AccumulatorError::VestingNotFound => LessorRegistryError::VestingScheduleNotFound,
        _ => LessorRegistryError::InvalidVestingParameters,
    }
}

/// The registry's storage as plain values.
pub struct RegistryModel {
    pub admin: Option<Address>,
    pub lessors: Map<Seq<char>, LessorInfo>,
    pub all_lessors: Seq<Address>,
    pub pending: Seq<Address>,
    pub suspended: Seq<Address>,
    pub schedules: Map<u64, InstitutionalVestingSchedule>,
    pub lessor_schedules: Map<Seq<char>, Seq<u64>>,
    pub accumulator: AccumulatorModel,
}

/// `addrs` without its first occurrence of `a`, if there is one.
pub open spec fn remove_first(addrs: Seq<Address>, a: Seq<char>) -> Seq<Address>
    decreases addrs.len(),
{
    if addrs.len() == 0 {
        addrs
    } else if addrs[0]@ == a {
        addrs.drop_first()
    } else {
        seq![addrs[0]] + remove_first(addrs.drop_first(), a)
    }
}

pub open spec fn spec_register(
    m: RegistryModel,
    lessor: Address,
    name: String,
    compliance_level: u32,
    jurisdiction: String,
    license_number: Option<String>,
    max_total_allocation: i128,
    metadata: Vec<(String, String)>,
    now: u64,
) -> Result<RegistryModel, LessorRegistryError> {
    if m.admin is None {
        Err(LessorRegistryError::NotAuthorized)
    } else if m.lessors.contains_key(lessor@) {
        Err(LessorRegistryError::LessorAlreadyExists)
    } else if spec_compliance(compliance_level, jurisdiction@, license_number is Some) is Err {
        Err(spec_compliance(compliance_level, jurisdiction@, license_number is Some)->Err_0)
    } else {
        Ok(RegistryModel {
            lessors: m.lessors.insert(lessor@, LessorInfo {
                lessor_address: lessor,
                name,
                status: LESSOR_PENDING,
                compliance_level,
                registration_date: now,
                last_updated: now,
                authorized_by: m.admin->Some_0,
                max_total_allocation,
                current_allocation: 0,
                jurisdiction,
                license_number,
                metadata,
            }),
            pending: m.pending.push(lessor),
            ..m
        })
    }
}

pub open spec fn spec_approve(m: RegistryModel, lessor: Address, now: u64) -> Result<RegistryModel, LessorRegistryError> {
    if m.admin is None {
        Err(LessorRegistryError::NotAuthorized)
    } else if !m.lessors.contains_key(lessor@) {
        Err(LessorRegistryError::LessorNotFound)
    } else if m.lessors[lessor@].status != LESSOR_PENDING {
        Err(LessorRegistryError::InvalidStatus)
    } else {
        let info = m.lessors[lessor@];
        Ok(RegistryModel {
            lessors: m.lessors.insert(lessor@, LessorInfo { status: LESSOR_ACTIVE, last_updated: now, ..info }),
            pending: remove_first(m.pending, lessor@),
            all_lessors: m.all_lessors.push(lessor),
            ..m
        })
    }
}

pub open spec fn spec_create_institutional_vesting(
    m: RegistryModel,
    grant_id: u64,
    lessor: Address,
    total_amount: i128,
    vesting_duration: u64,
    cliff_duration: u64,
    slice_period: u64,
    now: u64,
) -> Result<RegistryModel, LessorRegistryError> {
    if m.admin is None {
        Err(LessorRegistryError::NotAuthorized)
    } else if !m.lessors.contains_key(lessor@) {
        Err(LessorRegistryError::LessorNotFound)
    } else if m.lessors[lessor@].status != LESSOR_ACTIVE {
        Err(LessorRegistryError::InvalidStatus)
    } else if m.lessors[lessor@].current_allocation + total_amount > m.lessors[lessor@].max_total_allocation {
        Err(LessorRegistryError::MaxAllocationExceeded)
    } else if total_amount <= 0 || vesting_duration == 0 || slice_period == 0 {
        Err(LessorRegistryError::InvalidVestingParameters)
    } else if cliff_duration > vesting_duration {
        Err(LessorRegistryError::InvalidVestingParameters)
    } else {
        match spec_compact(m.accumulator, grant_id, now) {
            Err(e) => Err(spec_registry_error_from(e)),
            Ok(acc) => {
                let info = m.lessors[lessor@];
                let list = if m.lessor_schedules.contains_key(lessor@) {
                    m.lessor_schedules[lessor@]
                } else {
                    Seq::empty()
                };
                Ok(RegistryModel {
                    schedules: m.schedules.insert(grant_id, InstitutionalVestingSchedule {
                        lessor_address: lessor,
                        grant_id,
                        total_amount,
                        vesting_start: now,
                        vesting_duration,
                        cliff_duration,
                        slice_period,
                        created_at: now,
                        last_vesting_update: now,
                        vested_amount: 0,
                        released_amount: 0,
                        is_active: true,
                    }),
                    lessors: m.lessors.insert(lessor@, LessorInfo {
                        current_allocation: (info.current_allocation + total_amount) as i128,
                        last_updated: now,
                        ..info
                    }),
                    lessor_schedules: m.lessor_schedules.insert(lessor@, list.push(grant_id)),
                    accumulator: acc,
                    ..m
                })
            },
        }
    }
}

pub open spec fn spec_suspend(m: RegistryModel, lessor: Address, now: u64) -> Result<RegistryModel, LessorRegistryError> {
    if m.admin is None {
        Err(LessorRegistryError::NotAuthorized)
    } else if !m.lessors.contains_key(lessor@) {
        Err(LessorRegistryError::LessorNotFound)
    } else if m.lessors[lessor@].status == LESSOR_SUSPENDED || m.lessors[lessor@].status == LESSOR_REVOKED {
        Err(LessorRegistryError::InvalidStatus)
    } else {
        let info = m.lessors[lessor@];
        Ok(RegistryModel {
            lessors: m.lessors.insert(lessor@, LessorInfo { status: LESSOR_SUSPENDED, last_updated: now, ..info }),
            suspended: m.suspended.push(lessor),
            ..m
        })
    }
}


/// A registration that succeeds never lets in a lessor above the basic
/// level from the United States, Great Britain or the European Union
/// without a license.
pub proof fn lemma_registered_lessor_is_licensed(
    m: RegistryModel,
    lessor: Address,
    name: String,
    compliance_level: u32,
    jurisdiction: String,
    license_number: Option<String>,
    max_total_allocation: i128,
    metadata: Vec<(String, String)>,
    now: u64,
)
    requires
        spec_register(m, lessor, name, compliance_level, jurisdiction, license_number, max_total_allocation, metadata, now) is Ok,
        jurisdiction@ == seq!['U', 'S'] || jurisdiction@ == seq!['G', 'B'] || jurisdiction@ == seq!['E', 'U'],
        compliance_level >= 1,
    ensures
        license_number is Some,
{
}

/// Every lessor's allocation stays within its maximum: a schedule is
/// created only when the lessor's current allocation plus the schedule's
/// amount is at most its maximum, the allocation then grows by exactly that
/// amount, and a registry whose lessors were all within their maxima stays
/// so.
pub proof fn lemma_allocation_within_maximum(
    m: RegistryModel,
    grant_id: u64,
    lessor: Address,
    total_amount: i128,
    vesting_duration: u64,
    cliff_duration: u64,
    slice_period: u64,
    now: u64,
)
    requires
        spec_create_institutional_vesting(m, grant_id, lessor, total_amount, vesting_duration, cliff_duration, slice_period, now) is Ok,
    ensures
        ({
            let m2 = spec_create_institutional_vesting(m, grant_id, lessor, total_amount, vesting_duration, cliff_duration,
                slice_period, now)->Ok_0;
            let before = m.lessors[lessor@];
            let after = m2.lessors[lessor@];
            &&& m.lessors.contains_key(lessor@)
            &&& before.current_allocation + total_amount <= before.max_total_allocation
            &&& after.current_allocation == before.current_allocation + total_amount
            &&& after.current_allocation <= after.max_total_allocation
            &&& after.max_total_allocation == before.max_total_allocation
            &&& (forall|k: Seq<char>| #[trigger] m.lessors.contains_key(k)
                ==> m.lessors[k].current_allocation <= m.lessors[k].max_total_allocation)
                ==> (forall|k: Seq<char>| #[trigger] m2.lessors.contains_key(k)
                ==> m2.lessors[k].current_allocation <= m2.lessors[k].max_total_allocation)
        }),
{
}

proof fn lemma_remove_first_at(addrs: Seq<Address>, a: Seq<char>, i: int)
    requires
        0 <= i <= addrs.len(),
        forall|j: int| 0 <= j < i ==> addrs[j]@ != a,
        i < addrs.len() ==> addrs[i]@ == a,
    ensures
        i < addrs.len() ==> remove_first(addrs, a) == addrs.remove(i),
        i == addrs.len() ==> remove_first(addrs, a) == addrs,
    decreases addrs.len(),
{
    if addrs.len() > 0 && i > 0 {
        lemma_remove_first_at(addrs.drop_first(), a, i - 1);
        if i < addrs.len() {
            assert(seq![addrs[0]] + addrs.drop_first().remove(i - 1) =~= addrs.remove(i));
        } else {
            assert(seq![addrs[0]] + addrs.drop_first() =~= addrs);
        }
    } else if addrs.len() > 0 {
        assert(addrs.drop_first() =~= addrs.remove(0));
    }
}

/// Removes the first occurrence of `a` from `addrs`.
fn remove_first_exec(addrs: &mut Vec<Address>, a: &Address)
    ensures
        final(addrs)@ == remove_first(old(addrs)@, a@),
{
    let mut i: usize = 0;
    while i < addrs.len()
        invariant
            i <= addrs.len(),
            addrs@ == old(addrs)@,
            forall|j: int| 0 <= j < i ==> addrs@[j]@ != a@,
        decreases addrs.len() - i,
    {
        if addrs[i] == *a {
            proof { lemma_remove_first_at(addrs@, a@, i as int); }
            addrs.remove(i);
            return;
        }
        i = i + 1;
    }
    proof { lemma_remove_first_at(addrs@, a@, i as int); }
}

/// The registry of institutional lessors and their vesting schedules.
pub struct AuthorizedLessorRegistry {
    admin: Option<Address>,
    lessors: StrMap<LessorInfo>,
    all_lessors: Vec<Address>,
    pending: Vec<Address>,
    suspended: Vec<Address>,
    schedules: HashMap<u64, InstitutionalVestingSchedule>,
    lessor_schedules: StrMap<Vec<u64>>,
    accumulator: VirtualAccumulator,
}

impl AuthorizedLessorRegistry {
    pub closed spec fn model(&self) -> RegistryModel {
        RegistryModel {
            admin: self.admin,
            lessors: self.lessors.view_map(),
            all_lessors: self.all_lessors@,
            pending: self.pending@,
            suspended: self.suspended@,
            schedules: self.schedules@,
            lessor_schedules: self.lessor_schedules.view_map().map_values(|v: Vec<u64>| v@),
            accumulator: self.accumulator.model(),
        }
    }

    pub closed spec fn wf(&self) -> bool {
        self.accumulator.wf()
    }

    /// The storage of a freshly deployed registry.
    pub fn new() -> (r: Self)
        ensures
            r.wf(),
            r.model().admin is None,
            r.model().lessors == Map::<Seq<char>, LessorInfo>::empty(),
            r.model().all_lessors == Seq::<Address>::empty(),
            r.model().pending == Seq::<Address>::empty(),
            r.model().suspended == Seq::<Address>::empty(),
            r.model().schedules == Map::<u64, InstitutionalVestingSchedule>::empty(),
            r.model().lessor_schedules == Map::<Seq<char>, Seq<u64>>::empty(),
            r.model().accumulator.admin is None,
    {
        let r = AuthorizedLessorRegistry {
            admin: None,
            lessors: StrMap::new(),
            all_lessors: Vec::new(),
            pending: Vec::new(),
            suspended: Vec::new(),
            schedules: HashMap::new(),
            lessor_schedules: StrMap::new(),
            accumulator: VirtualAccumulator::new(),
        };
        assert(r.model().lessor_schedules =~= Map::<Seq<char>, Seq<u64>>::empty());
        r
    }

    /// Sets the admin once, with empty lessor lists.
    pub fn initialize(&mut self, admin: Address) -> (r: Result<(), LessorRegistryError>)
        requires
            old(self).wf(),
        ensures
            final(self).wf(),
            old(self).model().admin is Some ==> r == Err::<(), LessorRegistryError>(LessorRegistryError::NotAuthorized)
                && final(self).model() == old(self).model(),
            old(self).model().admin is None ==> r is Ok && final(self).model() == (RegistryModel {
                admin: Some(admin),
                all_lessors: Seq::empty(),
                pending: Seq::empty(),
                suspended: Seq::empty(),
                ..old(self).model()
            }),
    {
        if self.admin.is_some() {
            return Err(LessorRegistryError::NotAuthorized);
        }
        self.admin = Some(admin);
        self.all_lessors = Vec::new();
        self.pending = Vec::new();
        self.suspended = Vec::new();
        Ok(())
    }

    /// Registers a new lessor as pending approval, once its compliance
    /// requirements are met.
    pub fn register_lessor(
        &mut self,
        lessor_address: Address,
        name: String,
        compliance_level: u32,
        jurisdiction: String,
        license_number: Option<String>,
        max_total_allocation: i128,
        metadata: Vec<(String, String)>,
        now: u64,
    ) -> (r: Result<(), LessorRegistryError>)
        requires
            old(self).wf(),
        ensures
            final(self).wf(),
            match spec_register(old(self).model(), lessor_address, name, compliance_level, jurisdiction,
                license_number, max_total_allocation, metadata, now) {
                Ok(m) => r is Ok && final(self).model() == m,
                Err(e) => r == Err::<(), LessorRegistryError>(e) && final(self).model() == old(self).model(),
            },
    {
        let authorized_by = match &self.admin {
            Some(a) => a.clone(),
            None => {
                return Err(LessorRegistryError::NotAuthorized);
            },
        };
        if self.lessors.contains_key(&lessor_address) {
            return Err(LessorRegistryError::LessorAlreadyExists);
        }
        match validate_compliance_requirements(compliance_level, jurisdiction.as_str(), &license_number) {
            Ok(()) => {},
            Err(e) => {
                return Err(e);
            },
        }
        let key = lessor_address.clone();
        self.pending.push(lessor_address.clone());
        self.lessors.insert(key, LessorInfo {
            lessor_address,
            name,
            status: LESSOR_PENDING,
            compliance_level,
            registration_date: now,
            last_updated: now,
            authorized_by,
            max_total_allocation,
            current_allocation: 0,
            jurisdiction,
            license_number,
            metadata,
        });
        Ok(())
    }

    /// Activates a pending lessor: it leaves the pending list and joins the
    /// list of active lessors.
    pub fn approve_lessor(&mut self, lessor_address: Address, now: u64) -> (r: Result<(), LessorRegistryError>)
        requires
            old(self).wf(),
        ensures
            final(self).wf(),
            match spec_approve(old(self).model(), lessor_address, now) {
                Ok(m) => r is Ok && final(self).model() == m,
                Err(e) => r == Err::<(), LessorRegistryError>(e) && final(self).model() == old(self).model(),
            },
    {
        if self.admin.is_none() {
            return Err(LessorRegistryError::NotAuthorized);
        }
        match self.lessors.get(&lessor_address) {
            Some(info) => {
                if info.status != LESSOR_PENDING {
                    return Err(LessorRegistryError::InvalidStatus);
                }
            },
            None => {
                return Err(LessorRegistryError::LessorNotFound);
            },
        }
        let ghost m = self.model();
        let info = self.lessors.remove(&lessor_address).unwrap();
        self.lessors.insert(lessor_address.clone(), LessorInfo { status: LESSOR_ACTIVE, last_updated: now, ..info });
        remove_first_exec(&mut self.pending, &lessor_address);
        self.all_lessors.push(lessor_address);
        proof {
            assert(self.model().lessors =~= m.lessors.insert(lessor_address@, LessorInfo { status: LESSOR_ACTIVE, last_updated: now, ..info }));
        }
        Ok(())
    }

    /// Opens an institutional schedule for an active lessor within its
    /// allocation limit, and compacts the grant's accumulator in the shared
    /// storage.
    pub fn create_institutional_vesting(
        &mut self,
        grant_id: u64,
        lessor_address: Address,
        total_amount: i128,
        vesting_duration: u64,
        cliff_duration: u64,
        slice_period: u64,
        now: u64,
    ) -> (r: Result<(), LessorRegistryError>)
        requires
            old(self).wf(),
            can_compact_once_more(old(self).model().accumulator, grant_id),
            old(self).model().lessors.contains_key(lessor_address@) ==> i128::MIN
                <= old(self).model().lessors[lessor_address@].current_allocation + total_amount <= i128::MAX,
        ensures
            final(self).wf(),
            match spec_create_institutional_vesting(old(self).model(), grant_id, lessor_address, total_amount,
                vesting_duration, cliff_duration, slice_period, now) {
                Ok(m) => r is Ok && final(self).model() == m,
                Err(e) => r == Err::<(), LessorRegistryError>(e) && final(self).model() == old(self).model(),
            },
    {
        if self.admin.is_none() {
            return Err(LessorRegistryError::NotAuthorized);
        }
        match self.lessors.get(&lessor_address) {
            Some(info) => {
                if info.status != LESSOR_ACTIVE {
                    return Err(LessorRegistryError::InvalidStatus);
                }
                if info.current_allocation + total_amount > info.max_total_allocation {
                    return Err(LessorRegistryError::MaxAllocationExceeded);
                }
            },
            None => {
                return Err(LessorRegistryError::LessorNotFound);
            },
        }
        if total_amount <= 0 || vesting_duration == 0 || slice_period == 0 {
            return Err(LessorRegistryError::InvalidVestingParameters);
        }
        if cliff_duration > vesting_duration {
            return Err(LessorRegistryError::InvalidVestingParameters);
        }
        match self.accumulator.compact_accumulator(grant_id, now) {
            Ok(()) => {},
            Err(e) => {
                return Err(registry_error_from(e));
            },
        }
        let ghost m = self.model();
        self.schedules.insert(grant_id, InstitutionalVestingSchedule {
            lessor_address: lessor_address.clone(),
            grant_id,
            total_amount,
            vesting_start: now,
            vesting_duration,
            cliff_duration,
            slice_period,
            created_at: now,
            last_vesting_update: now,
            vested_amount: 0,
            released_amount: 0,
            is_active: true,
        });
        let info = self.lessors.remove(&lessor_address).unwrap();
        let allocation = info.current_allocation + total_amount;
        self.lessors.insert(lessor_address.clone(), LessorInfo { current_allocation: allocation, last_updated: now, ..info });
        let mut list = match self.lessor_schedules.remove(&lessor_address) {
            Some(l) => l,
            None => Vec::new(),
        };
        list.push(grant_id);
        let ghost new_list = list@;
        self.lessor_schedules.insert(lessor_address.clone(), list);
        proof {
            assert(self.model().lessors =~= m.lessors.insert(lessor_address@, LessorInfo {
                current_allocation: allocation,
                last_updated: now,
                ..info
            }));
            assert(self.model().lessor_schedules =~= m.lessor_schedules.insert(lessor_address@, new_list));
        }
        Ok(())
    }

    /// Suspends a lessor that is neither suspended nor revoked.
    pub fn suspend_lessor(&mut self, lessor_address: Address, reason: String, now: u64) -> (r: Result<(), LessorRegistryError>)
        requires
            old(self).wf(),
        ensures
            final(self).wf(),
            match spec_suspend(old(self).model(), lessor_address, now) {
                Ok(m) => r is Ok && final(self).model() == m,
                Err(e) => r == Err::<(), LessorRegistryError>(e) && final(self).model() == old(self).model(),
            },
    {
        if self.admin.is_none() {
            return Err(LessorRegistryError::NotAuthorized);
        }
        match self.lessors.get(&lessor_address) {
            Some(info) => {
                if info.status == LESSOR_SUSPENDED || info.status == LESSOR_REVOKED {
                    return Err(LessorRegistryError::InvalidStatus);
                }
            },
            None => {
                return Err(LessorRegistryError::LessorNotFound);
            },
        }
        let ghost m = self.model();
        let info = self.lessors.remove(&lessor_address).unwrap();
        self.lessors.insert(lessor_address.clone(), LessorInfo { status: LESSOR_SUSPENDED, last_updated: now, ..info });
        self.suspended.push(lessor_address);
        proof {
            assert(self.model().lessors =~= m.lessors.insert(lessor_address@, LessorInfo { status: LESSOR_SUSPENDED, last_updated: now, ..info }));
        }
        Ok(())
    }

    pub fn get_lessor_info(&self, lessor_address: &Address) -> (r: Result<&LessorInfo, LessorRegistryError>)
        ensures
            match r {
                Ok(info) => self.model().lessors.contains_key(lessor_address@) && *info == self.model().lessors[lessor_address@],
                Err(e) => e == LessorRegistryError::LessorNotFound && !self.model().lessors.contains_key(lessor_address@),
            },
    {
        match self.lessors.get(lessor_address) {
            Some(info) => Ok(info),
            None => Err(LessorRegistryError::LessorNotFound),
        }
    }

    /// Whether the lessor is registered and active.
    pub fn is_lessor_authorized(&self, lessor_address: &Address) -> (r: Result<bool, LessorRegistryError>)
        ensures
            r == Ok::<bool, LessorRegistryError>(
                self.model().lessors.contains_key(lessor_address@) && self.model().lessors[lessor_address@].status == LESSOR_ACTIVE,
            ),
    {
        match self.lessors.get(lessor_address) {
            Some(info) => Ok(info.status == LESSOR_ACTIVE),
            None => Ok(false),
        }
    }

    /// Lessors in the order they were approved.
    pub fn get_active_lessors(&self) -> (r: Result<&Vec<Address>, LessorRegistryError>)
        ensures
            r matches Ok(v) && v@ == self.model().all_lessors,
    {
        Ok(&self.all_lessors)
    }

    /// Lessors awaiting approval, in registration order.
    pub fn get_pending_approvals(&self) -> (r: Result<&Vec<Address>, LessorRegistryError>)
        ensures
            r matches Ok(v) && v@ == self.model().pending,
    {
        Ok(&self.pending)
    }

    pub fn get_vesting_schedule(&self, grant_id: u64) -> (r: Result<&InstitutionalVestingSchedule, LessorRegistryError>)
        ensures
            match r {
                Ok(s) => self.model().schedules.contains_key(grant_id) && *s == self.model().schedules[grant_id],
                Err(e) => e == LessorRegistryError::VestingScheduleNotFound && !self.model().schedules.contains_key(grant_id),
            },
    {
        match self.schedules.get(&grant_id) {
            Some(s) => Ok(s),
            None => Err(LessorRegistryError::VestingScheduleNotFound),
        }
    }

    /// Hands the registry to a new admin.
    pub fn update_admin(&mut self, new_admin: Address) -> (r: Result<(), LessorRegistryError>)
        requires
            old(self).wf(),
        ensures
            final(self).wf(),
            old(self).model().admin is None ==> r == Err::<(), LessorRegistryError>(LessorRegistryError::NotAuthorized)
                && final(self).model() == old(self).model(),
            old(self).model().admin is Some ==> r is Ok && final(self).model() == (RegistryModel {
                admin: Some(new_admin),
                ..old(self).model()
            }),
    {
        if self.admin.is_none() {
            return Err(LessorRegistryError::NotAuthorized);
        }
        self.admin = Some(new_admin);
        Ok(())
    }

    /// The accumulator part of the shared storage.
    pub fn accumulator(&self) -> (a: &VirtualAccumulator)
        ensures
            a.model() == self.model().accumulator,
            a.wf() == self.wf(),
    {
        &self.accumulator
    }
}

} // verus!
