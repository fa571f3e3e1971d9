//! Micro-insurance policies: creation, premium payments, deactivation,
//! premium schedules executed by a keeper, and pause/upgrade administration.
//!
//! Every operation that fails leaves the state exactly as it was, as the
//! ledger discards the writes of a failed invocation.
use vstd::prelude::*;
use crate::address::Address;
use crate::admin::{AdminState, admin_check, may_appoint, reported_version};
use crate::id_map::{
    Criterion, IdMap, criterion_pred, keys_increasing, lemma_entry_in_map, lemma_map_key_in_seq, lemma_take_step,
    seq_to_map,
};
use crate::schedule::{caught_up_due, catch_up, lemma_caught_up_is_first_after, missed_periods};

verus! {

pub const CONTRACT_VERSION: u32 = 1;

/// Time between premium payments: thirty days.
pub const PAYMENT_PERIOD: u64 = 2592000;

pub const MAX_PREMIUM_BATCH: usize = 20;

#[derive(Clone, Copy, PartialEq, Eq, Structural, Debug)]
pub enum InsuranceError {
    PolicyNotFound,
    Unauthorized,
    InvalidAmount,
    PolicyInactive,
    ContractPaused,
    FunctionPaused,
    InvalidTimestamp,
    BatchTooLarge,
}

pub open spec fn insurance_error_code(e: InsuranceError) -> u32 {
    match e {
        InsuranceError::PolicyNotFound => 1,
        InsuranceError::Unauthorized => 2,
        InsuranceError::InvalidAmount => 3,
        InsuranceError::PolicyInactive => 4,
        InsuranceError::ContractPaused => 5,
        InsuranceError::FunctionPaused => 6,
        InsuranceError::InvalidTimestamp => 7,
        InsuranceError::BatchTooLarge => 8,
    }
}

impl InsuranceError {
    /// The contract error code.
    pub fn code(self) -> (c: u32)
        ensures
            c == insurance_error_code(self),
    {
        match self {
            InsuranceError::PolicyNotFound => 1,
            InsuranceError::Unauthorized => 2,
            InsuranceError::InvalidAmount => 3,
            InsuranceError::PolicyInactive => 4,
            InsuranceError::ContractPaused => 5,
            InsuranceError::FunctionPaused => 6,
            InsuranceError::InvalidTimestamp => 7,
            InsuranceError::BatchTooLarge => 8,
        }
    }
}

/// Audit-trail event kinds of the insurance contract.
#[derive(Clone, Copy, PartialEq, Eq, Structural, Debug)]
pub enum InsuranceEvent {
    PolicyCreated,
    PremiumPaid,
    PolicyDeactivated,
    ScheduleCreated,
    ScheduleExecuted,
    ScheduleMissed,
    ScheduleModified,
    ScheduleCancelled,
}

/// Payload of the event published when a policy is created.
#[derive(Debug)]
pub struct PolicyCreatedEvent {
    pub policy_id: u32,
    pub name: String,
    pub coverage_type: String,
    pub monthly_premium: i128,
    pub coverage_amount: i128,
    pub timestamp: u64,
}

/// Payload of the event published when a premium is paid.
#[derive(Debug)]
pub struct PremiumPaidEvent {
    pub policy_id: u32,
    pub name: String,
    pub amount: i128,
    pub next_payment_date: u64,
    pub timestamp: u64,
}

/// Payload of the event published when a policy is deactivated.
#[derive(Debug)]
pub struct PolicyDeactivatedEvent {
    pub policy_id: u32,
    pub name: String,
    pub timestamp: u64,
}

#[derive(Debug)]
pub struct InsurancePolicy {
    pub id: u32,
    pub owner: Address,
    pub name: String,
    pub coverage_type: String,
    pub monthly_premium: i128,
    pub coverage_amount: i128,
    pub active: bool,
    pub next_payment_date: u64,
    pub schedule_id: Option<u32>,
}

impl Clone for InsurancePolicy {
    fn clone(&self) -> (r: Self)
        ensures
            r == *self,
    {
        InsurancePolicy {
            id: self.id,
            owner: self.owner,
            name: self.name.clone(),
            coverage_type: self.coverage_type.clone(),
            monthly_premium: self.monthly_premium,
            coverage_amount: self.coverage_amount,
            active: self.active,
            next_payment_date: self.next_payment_date,
            schedule_id: self.schedule_id,
        }
    }
}

#[derive(Clone, Copy, PartialEq, Eq, Structural, Debug)]
pub struct PremiumSchedule {
    pub id: u32,
    pub owner: Address,
    pub policy_id: u32,
    pub next_due: u64,
    pub interval: u64,
    pub recurring: bool,
    pub active: bool,
    pub created_at: u64,
    pub last_executed: Option<u64>,
    pub missed_count: u32,
}

pub open spec fn create_policy_fn() -> Seq<char> {
    "crt_pol"@
}

pub open spec fn pay_premium_fn() -> Seq<char> {
    "pay_prem"@
}

pub open spec fn deactivate_fn() -> Seq<char> {
    "deact"@
}

pub open spec fn create_schedule_fn() -> Seq<char> {
    "crt_sch"@
}

pub open spec fn modify_schedule_fn() -> Seq<char> {
    "mod_sch"@
}

pub open spec fn cancel_schedule_fn() -> Seq<char> {
    "can_sch"@
}

pub fn create_policy_name() -> (s: String)
    ensures
        s@ == create_policy_fn(),
{
    "crt_pol".to_owned()
}

pub fn pay_premium_name() -> (s: String)
    ensures
        s@ == pay_premium_fn(),
{
    "pay_prem".to_owned()
}

pub fn deactivate_name() -> (s: String)
    ensures
        s@ == deactivate_fn(),
{
    "deact".to_owned()
}

pub fn create_schedule_name() -> (s: String)
    ensures
        s@ == create_schedule_fn(),
{
    "crt_sch".to_owned()
}

pub fn modify_schedule_name() -> (s: String)
    ensures
        s@ == modify_schedule_fn(),
{
    "mod_sch".to_owned()
}

pub fn cancel_schedule_name() -> (s: String)
    ensures
        s@ == cancel_schedule_fn(),
{
    "can_sch".to_owned()
}

/// A policy after a premium paid at `now`: the next payment is thirty days later.
pub open spec fn premium_paid(p: InsurancePolicy, now: u64) -> InsurancePolicy {
    InsurancePolicy { next_payment_date: (now + 2592000) as u64, ..p }
}

/// Sum of the monthly premiums of the active policies of `owner` in `s`.
pub open spec fn active_premium_sum(s: Seq<InsurancePolicy>, owner: Address) -> int
    decreases s.len(),
{
    if s.len() == 0 {
        0
    } else {
        active_premium_sum(s.drop_last(), owner) + if s.last().active && s.last().owner == owner {
            s.last().monthly_premium as int
        } else {
            0
        }
    }
}

/// A schedule that the keeper executes at `now`.
pub open spec fn schedule_due(s: PremiumSchedule, now: u64) -> bool {
    s.active && s.next_due <= now
}

/// A due schedule after its execution at `now`: a recurring one catches up
/// to its first due date after `now`, counting the missed intervals; any
/// other one is retired.
pub open spec fn executed_schedule(s: PremiumSchedule, now: u64) -> PremiumSchedule {
    if s.recurring && s.interval > 0 {
        PremiumSchedule {
            last_executed: Some(now),
            missed_count: (s.missed_count + missed_periods(s.next_due, s.interval, now)) as u32,
            next_due: caught_up_due(s.next_due, s.interval, now) as u64,
            ..s
        }
    } else {
        PremiumSchedule { last_executed: Some(now), active: false, ..s }
    }
}

/// Executing a due schedule at `now` stays within the integer widths.
pub open spec fn execution_fits(s: PremiumSchedule, now: u64) -> bool {
    s.recurring && s.interval > 0 ==> {
        &&& caught_up_due(s.next_due, s.interval, now) <= u64::MAX
        &&& s.missed_count + missed_periods(s.next_due, s.interval, now) <= u32::MAX
    }
}

/// Schedule `s` pays a policy that exists and is active.
pub open spec fn pays_active_policy(policies: Map<u32, InsurancePolicy>, s: PremiumSchedule) -> bool {
    policies.contains_key(s.policy_id) && policies[s.policy_id].active
}

/// The schedules after the keeper ran at `now`.
pub open spec fn schedules_after_run(m: Map<u32, PremiumSchedule>, now: u64) -> Map<u32, PremiumSchedule> {
    Map::new(
        |k: u32| m.contains_key(k),
        |k: u32|
            if schedule_due(m[k], now) {
                executed_schedule(m[k], now)
            } else {
                m[k]
            },
    )
}

/// Policy `k` is paid by some due schedule among `m`.
pub open spec fn paid_by_schedule(m: Map<u32, PremiumSchedule>, k: u32, now: u64) -> bool {
    exists|j: u32| #[trigger] m.contains_key(j) && schedule_due(m[j], now) && m[j].policy_id == k
}

/// The policies after the keeper ran at `now`: every active policy paid by
/// a due schedule has its next payment thirty days after `now`.
pub open spec fn policies_after_run(
    policies: Map<u32, InsurancePolicy>,
    schedules: Map<u32, PremiumSchedule>,
    now: u64,
) -> Map<u32, InsurancePolicy> {
    Map::new(
        |k: u32| policies.contains_key(k),
        |k: u32|
            if policies[k].active && paid_by_schedule(schedules, k, now) {
                premium_paid(policies[k], now)
            } else {
                policies[k]
            },
    )
}

/// Identifiers of the schedules due at `now`, in ascending order.
pub open spec fn due_ids(entries: Seq<(u32, PremiumSchedule)>, now: u64) -> Seq<u32>
    decreases entries.len(),
{
    if entries.len() == 0 {
        Seq::empty()
    } else {
        let rest = due_ids(entries.drop_last(), now);
        if schedule_due(entries.last().1, now) {
            rest.push(entries.last().0)
        } else {
            rest
        }
    }
}

/// Active policies of one owner.
pub struct ActivePolicyOf {
    pub owner: Address,
}

impl Criterion<InsurancePolicy> for ActivePolicyOf {
    open spec fn holds(&self, p: InsurancePolicy) -> bool {
        p.active && p.owner == self.owner
    }

    fn test(&self, p: &InsurancePolicy) -> (r: bool) {
        p.active && p.owner == self.owner
    }
}

/// Schedules of one owner.
pub struct ScheduleOf {
    pub owner: Address,
}

impl Criterion<PremiumSchedule> for ScheduleOf {
    open spec fn holds(&self, s: PremiumSchedule) -> bool {
        s.owner == self.owner
    }

    fn test(&self, s: &PremiumSchedule) -> (r: bool) {
        s.owner == self.owner
    }
}

pub open spec fn is_active_policy_of(owner: Address) -> spec_fn(InsurancePolicy) -> bool {
    |p: InsurancePolicy| p.active && p.owner == owner
}

pub open spec fn is_schedule_of(owner: Address) -> spec_fn(PremiumSchedule) -> bool {
    |s: PremiumSchedule| s.owner == owner
}

/// The insurance contract state.
pub struct Insurance {
    pub admin: AdminState,
    pub policies: IdMap<InsurancePolicy>,
    /// Last policy identifier handed out; 0 before the first policy.
    pub next_id: u32,
    pub schedules: IdMap<PremiumSchedule>,
    /// Last schedule identifier handed out; 0 before the first schedule.
    pub next_schedule_id: u32,
}

impl Insurance {
    /// Well-formedness: ordered maps, positive premiums, and no time-locked
    /// unpause (this contract never schedules one).
    pub open spec fn wf(&self) -> bool {
        &&& self.policies.wf()
        &&& self.schedules.wf()
        &&& self.admin.unpause_at is None
        &&& forall|k: u32| #[trigger]
            self.policies@.contains_key(k) ==> self.policies@[k].monthly_premium > 0
    }

    pub open spec fn pause_error(&self, func: Seq<char>) -> Option<InsuranceError> {
        if self.admin.paused {
            Some(InsuranceError::ContractPaused)
        } else if self.admin.paused_fns@.contains(func) {
            Some(InsuranceError::FunctionPaused)
        } else {
            None
        }
    }

    /// Policies and schedules are as in `other`.
    pub open spec fn same_records(&self, other: &Self) -> bool {
        &&& self.policies == other.policies
        &&& self.next_id == other.next_id
        &&& self.schedules == other.schedules
        &&& self.next_schedule_id == other.next_schedule_id
    }

    pub open spec fn create_error(&self, monthly_premium: i128, coverage_amount: i128) -> Option<
        InsuranceError,
    > {
        if self.pause_error(create_policy_fn()) is Some {
            self.pause_error(create_policy_fn())
        } else if monthly_premium <= 0 || coverage_amount <= 0 {
            Some(InsuranceError::InvalidAmount)
        } else {
            None
        }
    }

    pub open spec fn pay_error(&self, caller: Address, policy_id: u32) -> Option<InsuranceError> {
        premium_error(self.admin.paused, self.admin.paused_fns@, self.policies@, caller, policy_id)
    }

    pub open spec fn deactivate_error(&self, caller: Address, policy_id: u32) -> Option<
        InsuranceError,
    > {
        if self.pause_error(deactivate_fn()) is Some {
            self.pause_error(deactivate_fn())
        } else if !self.policies@.contains_key(policy_id) {
            Some(InsuranceError::PolicyNotFound)
        } else if self.policies@[policy_id].owner != caller {
            Some(InsuranceError::Unauthorized)
        } else {
            None
        }
    }

    pub open spec fn create_schedule_error(
        &self,
        owner: Address,
        policy_id: u32,
        next_due: u64,
        now: u64,
    ) -> Option<InsuranceError> {
        if self.pause_error(create_schedule_fn()) is Some {
            self.pause_error(create_schedule_fn())
        } else if !self.policies@.contains_key(policy_id) {
            Some(InsuranceError::PolicyNotFound)
        } else if self.policies@[policy_id].owner != owner {
            Some(InsuranceError::Unauthorized)
        } else if next_due <= now {
            Some(InsuranceError::InvalidTimestamp)
        } else {
            None
        }
    }

    pub open spec fn modify_schedule_error(
        &self,
        caller: Address,
        schedule_id: u32,
        next_due: u64,
        now: u64,
    ) -> Option<InsuranceError> {
        if self.pause_error(modify_schedule_fn()) is Some {
            self.pause_error(modify_schedule_fn())
        } else if next_due <= now {
            Some(InsuranceError::InvalidTimestamp)
        } else if !self.schedules@.contains_key(schedule_id) {
            Some(InsuranceError::PolicyNotFound)
        } else if self.schedules@[schedule_id].owner != caller {
            Some(InsuranceError::Unauthorized)
        } else {
            None
        }
    }

    pub open spec fn cancel_schedule_error(&self, caller: Address, schedule_id: u32) -> Option<
        InsuranceError,
    > {
        if self.pause_error(cancel_schedule_fn()) is Some {
            self.pause_error(cancel_schedule_fn())
        } else if !self.schedules@.contains_key(schedule_id) {
            Some(InsuranceError::PolicyNotFound)
        } else if self.schedules@[schedule_id].owner != caller {
            Some(InsuranceError::Unauthorized)
        } else {
            None
        }
    }

    /// A freshly deployed contract: no policies, no schedules, nothing paused.
    pub fn new() -> (s: Insurance)
        ensures
            s.wf(),
            s.policies@ == Map::<u32, InsurancePolicy>::empty(),
            s.schedules@ == Map::<u32, PremiumSchedule>::empty(),
            s.next_id == 0,
            s.next_schedule_id == 0,
            s.admin.pause_admin is None,
            !s.admin.paused,
            s.admin.paused_fns@ == Set::<Seq<char>>::empty(),
            s.admin.upgrade_admin is None,
            s.admin.version is None,
    {
        Insurance {
            admin: AdminState::new(),
            policies: IdMap::new(),
            next_id: 0,
            schedules: IdMap::new(),
            next_schedule_id: 0,
        }
    }

    fn require_not_paused(&self, func: &String) -> (r: Option<InsuranceError>)
        ensures
            r == self.pause_error(func@),
    {
        if self.admin.paused {
            Some(InsuranceError::ContractPaused)
        } else if self.admin.paused_fns.contains(func) {
            Some(InsuranceError::FunctionPaused)
        } else {
            None
        }
    }

    // ----- pause & upgrade administration -----

    /// Sets or transfers the pause admin: first self-appointment, then hand-over by the admin.
    pub fn set_pause_admin(&mut self, caller: Address, new_admin: Address) -> (r: Result<
        (),
        InsuranceError,
    >)
        requires
            old(self).wf(),
        ensures
            final(self).wf(),
            match r {
                Ok(()) => may_appoint(old(self).admin.pause_admin, caller, new_admin)
                    && final(self).admin.pause_admin == Some(new_admin),
                Err(e) => !may_appoint(old(self).admin.pause_admin, caller, new_admin) && e
                    == InsuranceError::Unauthorized && final(self).admin.pause_admin == old(self).admin.pause_admin,
            },
            final(self).same_records(&*old(self)),
            final(self).admin.paused == old(self).admin.paused,
            final(self).admin.paused_fns@ == old(self).admin.paused_fns@,
            final(self).admin.upgrade_admin == old(self).admin.upgrade_admin,
            final(self).admin.version == old(self).admin.version,
    {
        if self.admin.appoint_pause_admin(caller, new_admin) {
            Ok(())
        } else {
            Err(InsuranceError::Unauthorized)
        }
    }

    /// Pauses every state-changing function (pause admin only).
    pub fn pause(&mut self, caller: Address) -> (r: Result<(), InsuranceError>)
        requires
            old(self).wf(),
        ensures
            final(self).wf(),
            match r {
                Ok(()) => admin_check(old(self).admin.pause_admin, caller) is None
                    && final(self).admin.paused,
                Err(e) => admin_check(old(self).admin.pause_admin, caller) is Some && e
                    == InsuranceError::Unauthorized && final(self).admin.paused == old(self).admin.paused,
            },
            final(self).same_records(&*old(self)),
            final(self).admin.pause_admin == old(self).admin.pause_admin,
            final(self).admin.paused_fns == old(self).admin.paused_fns,
            final(self).admin.upgrade_admin == old(self).admin.upgrade_admin,
            final(self).admin.version == old(self).admin.version,
    {
        if self.admin.check_pause_admin(caller).is_some() {
            return Err(InsuranceError::Unauthorized);
        }
        self.admin.paused = true;
        Ok(())
    }

    /// Unpauses (pause admin only).
    pub fn unpause(&mut self, caller: Address) -> (r: Result<(), InsuranceError>)
        requires
            old(self).wf(),
        ensures
            final(self).wf(),
            match r {
                Ok(()) => admin_check(old(self).admin.pause_admin, caller) is None
                    && !final(self).admin.paused,
                Err(e) => admin_check(old(self).admin.pause_admin, caller) is Some && e
                    == InsuranceError::Unauthorized && final(self).admin.paused == old(self).admin.paused,
            },
            final(self).same_records(&*old(self)),
            final(self).admin.pause_admin == old(self).admin.pause_admin,
            final(self).admin.paused_fns == old(self).admin.paused_fns,
            final(self).admin.upgrade_admin == old(self).admin.upgrade_admin,
            final(self).admin.version == old(self).admin.version,
    {
        if self.admin.check_pause_admin(caller).is_some() {
            return Err(InsuranceError::Unauthorized);
        }
        self.admin.paused = false;
        Ok(())
    }

    /// Pauses one function by name (pause admin only; a pause admin must exist).
    pub fn pause_function(&mut self, caller: Address, func: String) -> (r: Result<
        (),
        InsuranceError,
    >)
        requires
            old(self).wf(),
            old(self).admin.pause_admin is Some,
        ensures
            final(self).wf(),
            match r {
                Ok(()) => old(self).admin.pause_admin == Some(caller) && final(self).admin.paused_fns@
                    == old(self).admin.paused_fns@.insert(func@),
                Err(e) => old(self).admin.pause_admin != Some(caller) && e
                    == InsuranceError::Unauthorized && final(self).admin.paused_fns == old(self).admin.paused_fns,
            },
            final(self).same_records(&*old(self)),
            final(self).admin.pause_admin == old(self).admin.pause_admin,
            final(self).admin.paused == old(self).admin.paused,
            final(self).admin.upgrade_admin == old(self).admin.upgrade_admin,
            final(self).admin.version == old(self).admin.version,
    {
        if self.admin.check_pause_admin(caller).is_some() {
            return Err(InsuranceError::Unauthorized);
        }
        self.admin.paused_fns.insert(func);
        Ok(())
    }

    /// Unpauses one function by name (pause admin only; a pause admin must exist).
    pub fn unpause_function(&mut self, caller: Address, func: String) -> (r: Result<
        (),
        InsuranceError,
    >)
        requires
            old(self).wf(),
            old(self).admin.pause_admin is Some,
        ensures
            final(self).wf(),
            match r {
                Ok(()) => old(self).admin.pause_admin == Some(caller) && final(self).admin.paused_fns@
                    == old(self).admin.paused_fns@.remove(func@),
                Err(e) => old(self).admin.pause_admin != Some(caller) && e
                    == InsuranceError::Unauthorized && final(self).admin.paused_fns == old(self).admin.paused_fns,
            },
            final(self).same_records(&*old(self)),
            final(self).admin.pause_admin == old(self).admin.pause_admin,
            final(self).admin.paused == old(self).admin.paused,
            final(self).admin.upgrade_admin == old(self).admin.upgrade_admin,
            final(self).admin.version == old(self).admin.version,
    {
        if self.admin.check_pause_admin(caller).is_some() {
            return Err(InsuranceError::Unauthorized);
        }
        self.admin.paused_fns.remove(&func);
        Ok(())
    }

    /// Pauses the contract and every tracked function when the caller is the
    /// pause admin, and does nothing otherwise (a pause admin must exist).
    pub fn emergency_pause_all(&mut self, caller: Address)
        requires
            old(self).wf(),
            old(self).admin.pause_admin is Some,
        ensures
            final(self).wf(),
            old(self).admin.pause_admin == Some(caller) ==> final(self).admin.paused && final(self).admin.paused_fns@ == old(self).admin.paused_fns@.insert(create_policy_fn()).insert(
                pay_premium_fn(),
            ).insert(deactivate_fn()).insert(create_schedule_fn()).insert(modify_schedule_fn()).insert(
                cancel_schedule_fn(),
            ),
            old(self).admin.pause_admin != Some(caller) ==> final(self).admin.paused == old(self).admin.paused && final(self).admin.paused_fns == old(self).admin.paused_fns,
            final(self).same_records(&*old(self)),
            final(self).admin.pause_admin == old(self).admin.pause_admin,
            final(self).admin.upgrade_admin == old(self).admin.upgrade_admin,
            final(self).admin.version == old(self).admin.version,
    {
        if self.admin.check_pause_admin(caller).is_some() {
            return ;
        }
        self.admin.paused = true;
        self.admin.paused_fns.insert(create_policy_name());
        self.admin.paused_fns.insert(pay_premium_name());
        self.admin.paused_fns.insert(deactivate_name());
        self.admin.paused_fns.insert(create_schedule_name());
        self.admin.paused_fns.insert(modify_schedule_name());
        self.admin.paused_fns.insert(cancel_schedule_name());
    }

    pub fn is_paused(&self) -> (b: bool)
        ensures
            b == self.admin.paused,
    {
        self.admin.paused
    }

    /// The recorded contract version, 1 when none was recorded.
    pub fn get_version(&self) -> (v: u32)
        ensures
            v == reported_version(self.admin.version, 1),
    {
        self.admin.version_or(CONTRACT_VERSION)
    }

    /// Sets or transfers the upgrade admin, with the same rule as the pause admin.
    pub fn set_upgrade_admin(&mut self, caller: Address, new_admin: Address) -> (r: Result<
        (),
        InsuranceError,
    >)
        requires
            old(self).wf(),
        ensures
            final(self).wf(),
            match r {
                Ok(()) => may_appoint(old(self).admin.upgrade_admin, caller, new_admin)
                    && final(self).admin.upgrade_admin == Some(new_admin),
                Err(e) => !may_appoint(old(self).admin.upgrade_admin, caller, new_admin) && e
                    == InsuranceError::Unauthorized && final(self).admin.upgrade_admin == old(self).admin.upgrade_admin,
            },
            final(self).same_records(&*old(self)),
            final(self).admin.pause_admin == old(self).admin.pause_admin,
            final(self).admin.paused == old(self).admin.paused,
            final(self).admin.paused_fns@ == old(self).admin.paused_fns@,
            final(self).admin.version == old(self).admin.version,
    {
        if self.admin.appoint_upgrade_admin(caller, new_admin) {
            Ok(())
        } else {
            Err(InsuranceError::Unauthorized)
        }
    }

    /// Records a new contract version (upgrade admin only; one must exist).
    pub fn set_version(&mut self, caller: Address, new_version: u32) -> (r: Result<
        (),
        InsuranceError,
    >)
        requires
            old(self).wf(),
            old(self).admin.upgrade_admin is Some,
        ensures
            final(self).wf(),
            match r {
                Ok(()) => old(self).admin.upgrade_admin == Some(caller) && final(self).admin.version
                    == Some(new_version),
                Err(e) => old(self).admin.upgrade_admin != Some(caller) && e
                    == InsuranceError::Unauthorized && final(self).admin.version == old(self).admin.version,
            },
            final(self).same_records(&*old(self)),
            final(self).admin.pause_admin == old(self).admin.pause_admin,
            final(self).admin.paused == old(self).admin.paused,
            final(self).admin.paused_fns == old(self).admin.paused_fns,
            final(self).admin.upgrade_admin == old(self).admin.upgrade_admin,
    {
        if self.admin.check_upgrade_admin(caller).is_some() {
            return Err(InsuranceError::Unauthorized);
        }
        self.admin.version = Some(new_version);
        Ok(())
    }
}

/// Why a premium of `policy_id` cannot be paid by `caller`.
pub open spec fn premium_error(
    paused: bool,
    paused_fns: Set<Seq<char>>,
    policies: Map<u32, InsurancePolicy>,
    caller: Address,
    policy_id: u32,
) -> Option<InsuranceError> {
    if paused {
        Some(InsuranceError::ContractPaused)
    } else if paused_fns.contains(pay_premium_fn()) {
        Some(InsuranceError::FunctionPaused)
    } else if !policies.contains_key(policy_id) {
        Some(InsuranceError::PolicyNotFound)
    } else if policies[policy_id].owner != caller {
        Some(InsuranceError::Unauthorized)
    } else if !policies[policy_id].active {
        Some(InsuranceError::PolicyInactive)
    } else {
        None
    }
}

/// The first refusal met when paying the premiums of `ids` in order.
pub open spec fn premium_batch_error(
    paused: bool,
    paused_fns: Set<Seq<char>>,
    policies: Map<u32, InsurancePolicy>,
    caller: Address,
    ids: Seq<u32>,
) -> Option<InsuranceError>
    decreases ids.len(),
{
    if ids.len() == 0 {
        None
    } else {
        match premium_batch_error(paused, paused_fns, policies, caller, ids.drop_last()) {
            Some(e) => Some(e),
            None => premium_error(paused, paused_fns, policies, caller, ids.last()),
        }
    }
}

/// The policies after paying the premiums of `ids` at `now`.
pub open spec fn premiums_paid(policies: Map<u32, InsurancePolicy>, ids: Seq<u32>, now: u64) -> Map<
    u32,
    InsurancePolicy,
> {
    Map::new(
        |k: u32| policies.contains_key(k),
        |k: u32|
            if ids.contains(k) {
                premium_paid(policies[k], now)
            } else {
                policies[k]
            },
    )
}

proof fn lemma_premium_batch_prefix(
    paused: bool,
    paused_fns: Set<Seq<char>>,
    policies: Map<u32, InsurancePolicy>,
    caller: Address,
    ids: Seq<u32>,
    j: int,
)
    requires
        0 <= j <= ids.len(),
        premium_batch_error(paused, paused_fns, policies, caller, ids.take(j)) is Some,
    ensures
        premium_batch_error(paused, paused_fns, policies, caller, ids) == premium_batch_error(
            paused,
            paused_fns,
            policies,
            caller,
            ids.take(j),
        ),
    decreases ids.len() - j,
{
    if j < ids.len() {
        assert(ids.take(j + 1).drop_last() =~= ids.take(j));
        lemma_premium_batch_prefix(paused, paused_fns, policies, caller, ids, j + 1);
    } else {
        assert(ids.take(j) =~= ids);
    }
}

proof fn lemma_premium_prefix(s: Seq<InsurancePolicy>, owner: Address, i: int)
    requires
        0 <= i <= s.len(),
        forall|j: int| 0 <= j < s.len() ==> #[trigger] s[j].monthly_premium > 0,
    ensures
        0 <= active_premium_sum(s.take(i), owner) <= active_premium_sum(s, owner),
    decreases s.len() - i,
{
    if i == s.len() {
        assert(s.take(i) =~= s);
        lemma_premium_nonneg(s, owner);
    } else {
        lemma_premium_prefix(s, owner, i + 1);
        assert(s.take(i + 1).drop_last() =~= s.take(i));
        lemma_premium_nonneg(s.take(i), owner);
    }
}

proof fn lemma_premium_nonneg(s: Seq<InsurancePolicy>, owner: Address)
    requires
        forall|j: int| 0 <= j < s.len() ==> #[trigger] s[j].monthly_premium > 0,
    ensures
        active_premium_sum(s, owner) >= 0,
    decreases s.len(),
{
    if s.len() > 0 {
        assert(forall|j: int| 0 <= j < s.drop_last().len() ==> s.drop_last()[j] == s[j]);
        lemma_premium_nonneg(s.drop_last(), owner);
    }
}


impl Insurance {
    proof fn lemma_premiums_positive(&self)
        requires
            self.wf(),
        ensures
            forall|i: int|
                0 <= i < self.policies.values().len() ==> #[trigger] self.policies.values()[i].monthly_premium
                    > 0,
    {
        assert forall|i: int| 0 <= i < self.policies.values().len() implies #[trigger] self.policies.values()[i].monthly_premium > 0 by {
            self.policies.lemma_entry(i);
        }
    }

    /// Creates an active policy for `owner`, next payment due thirty days after `now`.
    pub fn create_policy(
        &mut self,
        owner: Address,
        name: String,
        coverage_type: String,
        monthly_premium: i128,
        coverage_amount: i128,
        now: u64,
    ) -> (r: Result<u32, InsuranceError>)
        requires
            old(self).wf(),
            old(self).create_error(monthly_premium, coverage_amount) is None ==> old(self).next_id
                < u32::MAX && now + 2592000 <= u64::MAX,
        ensures
            final(self).wf(),
            match r {
                Ok(id) => {
                    &&& old(self).create_error(monthly_premium, coverage_amount) is None
                    &&& id == old(self).next_id + 1
                    &&& final(self).next_id == id
                    &&& final(self).policies@ == old(self).policies@.insert(
                        id,
                        InsurancePolicy {
                            id,
                            owner,
                            name,
                            coverage_type,
                            monthly_premium,
                            coverage_amount,
                            active: true,
                            next_payment_date: (now + 2592000) as u64,
                            schedule_id: None,
                        },
                    )
                    &&& final(self).schedules == old(self).schedules
                    &&& final(self).next_schedule_id == old(self).next_schedule_id
                    &&& final(self).admin == old(self).admin
                },
                Err(e) => old(self).create_error(monthly_premium, coverage_amount) == Some(e) && *final(self)
                    == *old(self),
            },
    {
        if let Some(e) = self.create_refusal(monthly_premium, coverage_amount) {
            return Err(e);
        }
        let id = self.next_id + 1;
        let policy = InsurancePolicy {
            id,
            owner,
            name,
            coverage_type,
            monthly_premium,
            coverage_amount,
            active: true,
            next_payment_date: now + PAYMENT_PERIOD,
            schedule_id: None,
        };
        self.policies.set(id, policy);
        self.next_id = id;
        Ok(id)
    }

    /// The refusal of creating a policy with these amounts, if any.
    pub fn create_refusal(&self, monthly_premium: i128, coverage_amount: i128) -> (r: Option<
        InsuranceError,
    >)
        requires
            self.wf(),
        ensures
            r == self.create_error(monthly_premium, coverage_amount),
    {
        if let Some(e) = self.require_not_paused(&create_policy_name()) {
            return Some(e);
        }
        if monthly_premium <= 0 || coverage_amount <= 0 {
            Some(InsuranceError::InvalidAmount)
        } else {
            None
        }
    }

    /// The refusal of paying the premium of `policy_id` by `caller`, if any.
    pub fn pay_refusal(&self, caller: Address, policy_id: u32) -> (r: Option<InsuranceError>)
        requires
            self.wf(),
        ensures
            r == self.pay_error(caller, policy_id),
    {
        if let Some(e) = self.require_not_paused(&pay_premium_name()) {
            return Some(e);
        }
        match self.policies.get(policy_id) {
            None => Some(InsuranceError::PolicyNotFound),
            Some(p) => if p.owner != caller {
                Some(InsuranceError::Unauthorized)
            } else if !p.active {
                Some(InsuranceError::PolicyInactive)
            } else {
                None
            },
        }
    }

    /// Pays the monthly premium of a policy of the caller: its next payment
    /// falls due thirty days after `now`.
    pub fn pay_premium(&mut self, caller: Address, policy_id: u32, now: u64) -> (r: Result<
        bool,
        InsuranceError,
    >)
        requires
            old(self).wf(),
            old(self).pay_error(caller, policy_id) is None ==> now + 2592000 <= u64::MAX,
            old(self).pay_error(caller, policy_id) != Some(InsuranceError::Unauthorized),
        ensures
            final(self).wf(),
            match r {
                Ok(b) => {
                    &&& b
                    &&& old(self).pay_error(caller, policy_id) is None
                    &&& final(self).policies@ == old(self).policies@.insert(
                        policy_id,
                        premium_paid(old(self).policies@[policy_id], now),
                    )
                    &&& final(self).next_id == old(self).next_id
                    &&& final(self).schedules == old(self).schedules
                    &&& final(self).next_schedule_id == old(self).next_schedule_id
                    &&& final(self).admin == old(self).admin
                },
                Err(e) => old(self).pay_error(caller, policy_id) == Some(e) && *final(self) == *old(self),
            },
    {
        if let Some(e) = self.require_not_paused(&pay_premium_name()) {
            return Err(e);
        }
        let mut policy = match self.policies.get(policy_id) {
            None => {
                return Err(InsuranceError::PolicyNotFound);
            },
            Some(p) => p.clone(),
        };
        if policy.owner != caller {
            return Err(InsuranceError::Unauthorized);
        }
        if !policy.active {
            return Err(InsuranceError::PolicyInactive);
        }
        policy.next_payment_date = now + PAYMENT_PERIOD;
        self.policies.set(policy_id, policy);
        Ok(true)
    }

    /// Pays the premiums of several policies of the caller: either all are
    /// paid or, on the first refusal, none is.  Returns how many were paid.
    pub fn batch_pay_premiums(&mut self, caller: Address, policy_ids: Vec<u32>, now: u64) -> (r:
        Result<u32, InsuranceError>)
        requires
            old(self).wf(),
            0 < policy_ids@.len() <= 20 && premium_error(
                old(self).admin.paused,
                old(self).admin.paused_fns@,
                old(self).policies@,
                caller,
                policy_ids@[0],
            ) is None ==> now + 2592000 <= u64::MAX,
            policy_ids@.len() <= 20 ==> premium_batch_error(
                old(self).admin.paused,
                old(self).admin.paused_fns@,
                old(self).policies@,
                caller,
                policy_ids@,
            ) != Some(InsuranceError::Unauthorized),
        ensures
            final(self).wf(),
            match r {
                Ok(count) => {
                    &&& policy_ids@.len() <= 20
                    &&& premium_batch_error(
                        old(self).admin.paused,
                        old(self).admin.paused_fns@,
                        old(self).policies@,
                        caller,
                        policy_ids@,
                    ) is None
                    &&& count == policy_ids@.len()
                    &&& final(self).policies@ == premiums_paid(old(self).policies@, policy_ids@, now)
                    &&& final(self).next_id == old(self).next_id
                    &&& final(self).schedules == old(self).schedules
                    &&& final(self).next_schedule_id == old(self).next_schedule_id
                    &&& final(self).admin == old(self).admin
                },
                Err(e) => {
                    &&& if policy_ids@.len() > 20 {
                        e == InsuranceError::BatchTooLarge
                    } else {
                        premium_batch_error(
                            old(self).admin.paused,
                            old(self).admin.paused_fns@,
                            old(self).policies@,
                            caller,
                            policy_ids@,
                        ) == Some(e)
                    }
                    &&& *final(self) == *old(self)
                },
            },
    {
        if policy_ids.len() > MAX_PREMIUM_BATCH {
            return Err(InsuranceError::BatchTooLarge);
        }
        let ghost ids = policy_ids@;
        let ghost start = self.policies@;
        let m = policy_ids.len();
        let mut j: usize = 0;
        while j < m
            invariant
                m == ids.len(),
                ids == policy_ids@,
                m <= 20,
                j <= m,
                *self == *old(self),
                self.wf(),
                start == self.policies@,
                premium_batch_error(
                    self.admin.paused,
                    self.admin.paused_fns@,
                    start,
                    caller,
                    ids.take(j as int),
                ) is None,
            decreases m - j,
        {
            let id = policy_ids[j];
            proof {
                assert(ids.take(j + 1).drop_last() =~= ids.take(j as int));
                assert(ids.take(j + 1).last() == id);
            }
            let refusal = if self.admin.paused {
                Some(InsuranceError::ContractPaused)
            } else if self.admin.paused_fns.contains(&pay_premium_name()) {
                Some(InsuranceError::FunctionPaused)
            } else {
                match self.policies.get(id) {
                    None => Some(InsuranceError::PolicyNotFound),
                    Some(p) => if p.owner != caller {
                        Some(InsuranceError::Unauthorized)
                    } else if !p.active {
                        Some(InsuranceError::PolicyInactive)
                    } else {
                        None
                    },
                }
            };
            if let Some(e) = refusal {
                proof {
                    lemma_premium_batch_prefix(
                        self.admin.paused,
                        self.admin.paused_fns@,
                        start,
                        caller,
                        ids,
                        j + 1,
                    );
                }
                return Err(e);
            }
            j += 1;
        }
        assert(ids.take(m as int) =~= ids);
        proof {
            if m > 0 {
                lemma_batch_entry_ok(self.admin.paused, self.admin.paused_fns@, start, caller, ids, 0);
            }
        }
        let mut j: usize = 0;
        while j < m
            invariant
                m == ids.len(),
                ids == policy_ids@,
                m <= 20,
                j <= m,
                m > 0 ==> now + 2592000 <= u64::MAX,
                self.policies.wf(),
                self.wf(),
                self.next_id == old(self).next_id,
                self.schedules == old(self).schedules,
                self.next_schedule_id == old(self).next_schedule_id,
                self.admin == old(self).admin,
                premium_batch_error(self.admin.paused, self.admin.paused_fns@, start, caller, ids)
                    is None,
                self.policies@ == premiums_paid(start, ids.take(j as int), now),
            decreases m - j,
        {
            let id = policy_ids[j];
            proof {
                assert(ids.take(j + 1).drop_last() =~= ids.take(j as int));
                lemma_batch_entry_ok(
                    self.admin.paused,
                    self.admin.paused_fns@,
                    start,
                    caller,
                    ids,
                    j as int,
                );
            }
            let mut policy = match self.policies.get(id) {
                None => {
                    return Err(InsuranceError::PolicyNotFound);
                },
                Some(p) => p.clone(),
            };
            policy.next_payment_date = now + PAYMENT_PERIOD;
            self.policies.set(id, policy);
            proof {
                let t0 = ids.take(j as int);
                let t1 = ids.take(j + 1);
                assert(t1 =~= t0.push(id));
                assert forall|x: u32| #![auto] t1.contains(x) == (t0.contains(x) || x == id) by {
                    if t1.contains(x) {
                        let w = choose|w: int| 0 <= w < t1.len() && t1[w] == x;
                        if w < t0.len() {
                            assert(t0[w] == x);
                        }
                    }
                    if t0.contains(x) {
                        let w = choose|w: int| 0 <= w < t0.len() && t0[w] == x;
                        assert(t1[w] == x);
                    }
                    if x == id {
                        assert(t1[j as int] == x);
                    }
                }
                assert(self.policies@ =~= premiums_paid(start, t1, now));
            }
            j += 1;
        }
        assert(ids.take(m as int) =~= ids);
        Ok(m as u32)
    }

    pub fn get_policy(&self, policy_id: u32) -> (r: Option<InsurancePolicy>)
        requires
            self.wf(),
        ensures
            r == if self.policies@.contains_key(policy_id) {
                Some(self.policies@[policy_id])
            } else {
                None
            },
    {
        match self.policies.get(policy_id) {
            Some(p) => Some(p.clone()),
            None => None,
        }
    }

    /// The active policies of `owner`, in identifier order.
    pub fn get_active_policies(&self, owner: Address) -> (r: Vec<InsurancePolicy>)
        ensures
            r@ == self.policies.values().filter(is_active_policy_of(owner)),
    {
        let r = self.policies.select(&ActivePolicyOf { owner });
        assert(criterion_pred(ActivePolicyOf { owner }) =~= is_active_policy_of(owner));
        r
    }

    /// Total monthly premium of the active policies of `owner`.
    pub fn get_total_monthly_premium(&self, owner: Address) -> (t: i128)
        requires
            self.wf(),
            active_premium_sum(self.policies.values(), owner) <= i128::MAX,
        ensures
            t == active_premium_sum(self.policies.values(), owner),
    {
        proof {
            self.lemma_premiums_positive();
        }
        let ghost vals = self.policies.values();
        let n = self.policies.len();
        let mut total: i128 = 0;
        let mut i: usize = 0;
        while i < n
            invariant
                n == vals.len(),
                vals == self.policies.values(),
                i <= n,
                forall|j: int| 0 <= j < vals.len() ==> #[trigger] vals[j].monthly_premium > 0,
                active_premium_sum(vals, owner) <= i128::MAX,
                total == active_premium_sum(vals.take(i as int), owner),
            decreases n - i,
        {
            let p = self.policies.value_at(i);
            proof {
                assert(vals.take(i + 1).drop_last() =~= vals.take(i as int));
                assert(vals[i as int] == *p);
                lemma_premium_prefix(vals, owner, i + 1);
            }
            if p.active && p.owner == owner {
                total = total + p.monthly_premium;
            }
            i += 1;
        }
        assert(vals.take(n as int) =~= vals);
        total
    }

    /// Deactivates a policy of the caller.
    pub fn deactivate_policy(&mut self, caller: Address, policy_id: u32) -> (r: Result<
        bool,
        InsuranceError,
    >)
        requires
            old(self).wf(),
        ensures
            final(self).wf(),
            match r {
                Ok(b) => {
                    &&& b
                    &&& old(self).deactivate_error(caller, policy_id) is None
                    &&& final(self).policies@ == old(self).policies@.insert(
                        policy_id,
                        InsurancePolicy { active: false, ..old(self).policies@[policy_id] },
                    )
                    &&& final(self).next_id == old(self).next_id
                    &&& final(self).schedules == old(self).schedules
                    &&& final(self).next_schedule_id == old(self).next_schedule_id
                    &&& final(self).admin == old(self).admin
                },
                Err(e) => old(self).deactivate_error(caller, policy_id) == Some(e) && *final(self)
                    == *old(self),
            },
    {
        if let Some(e) = self.require_not_paused(&deactivate_name()) {
            return Err(e);
        }
        let mut policy = match self.policies.get(policy_id) {
            None => {
                return Err(InsuranceError::PolicyNotFound);
            },
            Some(p) => p.clone(),
        };
        if policy.owner != caller {
            return Err(InsuranceError::Unauthorized);
        }
        policy.active = false;
        self.policies.set(policy_id, policy);
        Ok(true)
    }

    /// Creates a premium schedule for a policy of `owner`, first due at
    /// `next_due`; a zero interval makes it a one-off.
    pub fn create_premium_schedule(
        &mut self,
        owner: Address,
        policy_id: u32,
        next_due: u64,
        interval: u64,
        now: u64,
    ) -> (r: Result<u32, InsuranceError>)
        requires
            old(self).wf(),
            old(self).create_schedule_error(owner, policy_id, next_due, now) is None ==> old(self).next_schedule_id < u32::MAX,
        ensures
            final(self).wf(),
            r is Ok ==> next_due > now,
            match r {
                Ok(sid) => {
                    &&& old(self).create_schedule_error(owner, policy_id, next_due, now) is None
                    &&& sid == old(self).next_schedule_id + 1
                    &&& final(self).next_schedule_id == sid
                    &&& final(self).schedules@ == old(self).schedules@.insert(
                        sid,
                        PremiumSchedule {
                            id: sid,
                            owner,
                            policy_id,
                            next_due,
                            interval,
                            recurring: interval > 0,
                            active: true,
                            created_at: now,
                            last_executed: None,
                            missed_count: 0,
                        },
                    )
                    &&& final(self).policies@ == old(self).policies@.insert(
                        policy_id,
                        InsurancePolicy { schedule_id: Some(sid), ..old(self).policies@[policy_id] },
                    )
                    &&& final(self).next_id == old(self).next_id
                    &&& final(self).admin == old(self).admin
                },
                Err(e) => old(self).create_schedule_error(owner, policy_id, next_due, now) == Some(e)
                    && *final(self) == *old(self),
            },
    {
        if let Some(e) = self.require_not_paused(&create_schedule_name()) {
            return Err(e);
        }
        let mut policy = match self.policies.get(policy_id) {
            None => {
                return Err(InsuranceError::PolicyNotFound);
            },
            Some(p) => p.clone(),
        };
        if policy.owner != owner {
            return Err(InsuranceError::Unauthorized);
        }
        if next_due <= now {
            return Err(InsuranceError::InvalidTimestamp);
        }
        let sid = self.next_schedule_id + 1;
        let schedule = PremiumSchedule {
            id: sid,
            owner,
            policy_id,
            next_due,
            interval,
            recurring: interval > 0,
            active: true,
            created_at: now,
            last_executed: None,
            missed_count: 0,
        };
        policy.schedule_id = Some(sid);
        self.schedules.set(sid, schedule);
        self.next_schedule_id = sid;
        self.policies.set(policy_id, policy);
        Ok(sid)
    }

    /// Reschedules a premium schedule of the caller.
    pub fn modify_premium_schedule(
        &mut self,
        caller: Address,
        schedule_id: u32,
        next_due: u64,
        interval: u64,
        now: u64,
    ) -> (r: Result<bool, InsuranceError>)
        requires
            old(self).wf(),
        ensures
            final(self).wf(),
            r is Ok ==> next_due > now,
            match r {
                Ok(b) => {
                    &&& b
                    &&& old(self).modify_schedule_error(caller, schedule_id, next_due, now) is None
                    &&& final(self).schedules@ == old(self).schedules@.insert(
                        schedule_id,
                        PremiumSchedule {
                            next_due,
                            interval,
                            recurring: interval > 0,
                            ..old(self).schedules@[schedule_id]
                        },
                    )
                    &&& final(self).policies == old(self).policies
                    &&& final(self).next_id == old(self).next_id
                    &&& final(self).next_schedule_id == old(self).next_schedule_id
                    &&& final(self).admin == old(self).admin
                },
                Err(e) => old(self).modify_schedule_error(caller, schedule_id, next_due, now) == Some(
                    e,
                ) && *final(self) == *old(self),
            },
    {
        if let Some(e) = self.require_not_paused(&modify_schedule_name()) {
            return Err(e);
        }
        if next_due <= now {
            return Err(InsuranceError::InvalidTimestamp);
        }
        let mut schedule = match self.schedules.get(schedule_id) {
            None => {
                return Err(InsuranceError::PolicyNotFound);
            },
            Some(s) => *s,
        };
        if schedule.owner != caller {
            return Err(InsuranceError::Unauthorized);
        }
        schedule.next_due = next_due;
        schedule.interval = interval;
        schedule.recurring = interval > 0;
        self.schedules.set(schedule_id, schedule);
        Ok(true)
    }

    /// Deactivates a premium schedule of the caller.
    pub fn cancel_premium_schedule(&mut self, caller: Address, schedule_id: u32) -> (r: Result<
        bool,
        InsuranceError,
    >)
        requires
            old(self).wf(),
        ensures
            final(self).wf(),
            match r {
                Ok(b) => {
                    &&& b
                    &&& old(self).cancel_schedule_error(caller, schedule_id) is None
                    &&& final(self).schedules@ == old(self).schedules@.insert(
                        schedule_id,
                        PremiumSchedule { active: false, ..old(self).schedules@[schedule_id] },
                    )
                    &&& final(self).policies == old(self).policies
                    &&& final(self).next_id == old(self).next_id
                    &&& final(self).next_schedule_id == old(self).next_schedule_id
                    &&& final(self).admin == old(self).admin
                },
                Err(e) => old(self).cancel_schedule_error(caller, schedule_id) == Some(e) && *final(self) == *old(self),
            },
    {
        if let Some(e) = self.require_not_paused(&cancel_schedule_name()) {
            return Err(e);
        }
        let mut schedule = match self.schedules.get(schedule_id) {
            None => {
                return Err(InsuranceError::PolicyNotFound);
            },
            Some(s) => *s,
        };
        if schedule.owner != caller {
            return Err(InsuranceError::Unauthorized);
        }
        schedule.active = false;
        self.schedules.set(schedule_id, schedule);
        Ok(true)
    }

    /// Executes every schedule due at `now` (any caller may): the policies
    /// they pay get their next payment thirty days later, recurring schedules
    /// catch up past `now`, one-off schedules retire.  Returns the executed
    /// schedule identifiers in ascending order.
    pub fn execute_due_premium_schedules(&mut self, now: u64) -> (r: Vec<u32>)
        requires
            old(self).wf(),
            forall|k: u32| #[trigger]
                old(self).schedules@.contains_key(k) && schedule_due(old(self).schedules@[k], now)
                    ==> execution_fits(old(self).schedules@[k], now) && (pays_active_policy(
                    old(self).policies@,
                    old(self).schedules@[k],
                ) ==> now + 2592000 <= u64::MAX),
        ensures
            final(self).wf(),
            r@ == due_ids(old(self).schedules.entries(), now),
            final(self).schedules@ == schedules_after_run(old(self).schedules@, now),
            final(self).policies@ == policies_after_run(old(self).policies@, old(self).schedules@, now),
            final(self).next_id == old(self).next_id,
            final(self).next_schedule_id == old(self).next_schedule_id,
            final(self).admin == old(self).admin,
    {
        let ghost s = self.schedules.entries();
        let ghost start_pol = self.policies@;
        let ghost start_sched = self.schedules@;
        let n = self.schedules.len();
        let mut updated: IdMap<PremiumSchedule> = IdMap::new();
        let mut executed: Vec<u32> = Vec::new();
        let mut i: usize = 0;
        while i < n
            invariant
                n == s.len(),
                s == self.schedules.entries(),
                start_sched == self.schedules@,
                self.schedules.wf(),
                i <= n,
                forall|k: u32| #[trigger]
                    start_sched.contains_key(k) && schedule_due(start_sched[k], now)
                        ==> execution_fits(start_sched[k], now) && (pays_active_policy(
                        start_pol,
                        start_sched[k],
                    ) ==> now + 2592000 <= u64::MAX),
                updated.wf(),
                updated@ == schedules_after_run(seq_to_map(s.take(i as int)), now),
                executed@ == due_ids(s.take(i as int), now),
                self.policies.wf(),
                forall|k: u32| #[trigger]
                    self.policies@.contains_key(k) ==> self.policies@[k].monthly_premium > 0,
                self.policies@ == policies_after_run(start_pol, seq_to_map(s.take(i as int)), now),
                self.next_id == old(self).next_id,
                self.next_schedule_id == old(self).next_schedule_id,
                self.admin == old(self).admin,
                self.admin.unpause_at is None,
            decreases n - i,
        {
            let k = self.schedules.key_at(i);
            let sched = *self.schedules.value_at(i);
            let ghost m0 = seq_to_map(s.take(i as int));
            let ghost m1 = seq_to_map(s.take(i + 1));
            proof {
                lemma_take_step(s, i as int);
                self.schedules.lemma_entry(i as int);
                assert(s.take(i + 1).drop_last() =~= s.take(i as int));
                assert(m1 == m0.insert(k, sched));
            }
            if sched.active && sched.next_due <= now {
                match self.policies.get(sched.policy_id) {
                    Some(p) => {
                        if p.active {
                            proof {
                                assert(start_sched.contains_key(k));
                                assert(start_pol.contains_key(sched.policy_id));
                                assert(pays_active_policy(start_pol, start_sched[k]));
                            }
                            let mut paid = p.clone();
                            paid.next_payment_date = now + PAYMENT_PERIOD;
                            self.policies.set(sched.policy_id, paid);
                        }
                    },
                    None => {},
                }
                proof {
                    assert forall|x: u32| #![auto]
                        paid_by_schedule(m1, x, now) == (paid_by_schedule(m0, x, now) || x
                            == sched.policy_id) by {
                        if paid_by_schedule(m1, x, now) {
                            let j = choose|j: u32|
                                #[trigger] m1.contains_key(j) && schedule_due(m1[j], now) && m1[j].policy_id
                                    == x;
                            if j != k {
                                assert(m0.contains_key(j));
                            }
                        }
                        if paid_by_schedule(m0, x, now) {
                            let j = choose|j: u32|
                                #[trigger] m0.contains_key(j) && schedule_due(m0[j], now) && m0[j].policy_id
                                    == x;
                            assert(m1.contains_key(j));
                        }
                        if x == sched.policy_id {
                            assert(m1.contains_key(k));
                        }
                    }
                    assert(self.policies@ =~= policies_after_run(start_pol, m1, now));
                }
                let mut next = sched;
                next.last_executed = Some(now);
                if sched.recurring && sched.interval > 0 {
                    proof {
                        assert(start_sched.contains_key(k));
                        assert(execution_fits(start_sched[k], now));
                    }
                    let (due, missed) = catch_up(sched.next_due, sched.interval, now);
                    next.missed_count = sched.missed_count + (missed as u32);
                    next.next_due = due;
                } else {
                    next.active = false;
                }
                updated.set(k, next);
                executed.push(k);
                proof {
                    assert(updated@ =~= schedules_after_run(m1, now));
                }
            } else {
                updated.set(k, sched);
                proof {
                    assert forall|x: u32| #![auto]
                        paid_by_schedule(m1, x, now) == paid_by_schedule(m0, x, now) by {
                        if paid_by_schedule(m1, x, now) {
                            let j = choose|j: u32|
                                #[trigger] m1.contains_key(j) && schedule_due(m1[j], now) && m1[j].policy_id
                                    == x;
                            assert(j != k);
                            assert(m0.contains_key(j));
                        }
                        if paid_by_schedule(m0, x, now) {
                            let j = choose|j: u32|
                                #[trigger] m0.contains_key(j) && schedule_due(m0[j], now) && m0[j].policy_id
                                    == x;
                            assert(m1.contains_key(j));
                        }
                    }
                    assert(self.policies@ =~= policies_after_run(start_pol, m1, now));
                    assert(updated@ =~= schedules_after_run(m1, now));
                }
            }
            i += 1;
        }
        proof {
            assert(s.take(n as int) =~= s);
        }
        self.schedules = updated;
        executed
    }

    /// The premium schedules of `owner`, in identifier order.
    pub fn get_premium_schedules(&self, owner: Address) -> (r: Vec<PremiumSchedule>)
        ensures
            r@ == self.schedules.values().filter(is_schedule_of(owner)),
    {
        let r = self.schedules.select(&ScheduleOf { owner });
        assert(criterion_pred(ScheduleOf { owner }) =~= is_schedule_of(owner));
        r
    }

    pub fn get_premium_schedule(&self, schedule_id: u32) -> (r: Option<PremiumSchedule>)
        requires
            self.wf(),
        ensures
            r == if self.schedules@.contains_key(schedule_id) {
                Some(self.schedules@[schedule_id])
            } else {
                None
            },
    {
        match self.schedules.get(schedule_id) {
            Some(s) => Some(*s),
            None => None,
        }
    }
}

/// When a batch passes validation, each of its policies exists, belongs to
/// the caller and is active.
proof fn lemma_batch_entry_ok(
    paused: bool,
    paused_fns: Set<Seq<char>>,
    policies: Map<u32, InsurancePolicy>,
    caller: Address,
    ids: Seq<u32>,
    j: int,
)
    requires
        0 <= j < ids.len(),
        premium_batch_error(paused, paused_fns, policies, caller, ids) is None,
    ensures
        premium_error(paused, paused_fns, policies, caller, ids[j]) is None,
    decreases ids.len(),
{
    if j < ids.len() - 1 {
        lemma_batch_entry_ok(paused, paused_fns, policies, caller, ids.drop_last(), j);
    }
}


/// Sum of the monthly premiums of the policies in `s`.
pub open spec fn premium_amounts(s: Seq<InsurancePolicy>) -> int
    decreases s.len(),
{
    if s.len() == 0 {
        0
    } else {
        premium_amounts(s.drop_last()) + s.last().monthly_premium as int
    }
}

proof fn lemma_premium_sum_is_filtered_sum(policies: Seq<InsurancePolicy>, owner: Address)
    ensures
        active_premium_sum(policies, owner) == premium_amounts(
            policies.filter(is_active_policy_of(owner)),
        ),
    decreases policies.len(),
{
    if policies.len() > 0 {
        let rest = policies.drop_last();
        lemma_premium_sum_is_filtered_sum(rest, owner);
        rest.lemma_filter_push(policies.last(), is_active_policy_of(owner));
        assert(rest.push(policies.last()) =~= policies);
        let f = rest.filter(is_active_policy_of(owner));
        assert(f.push(policies.last()).drop_last() =~= f);
    } else {
        reveal(Seq::filter);
    }
}

/// The total that `get_total_monthly_premium` reports for an owner is the
/// sum of the premiums of the policies that `get_active_policies` lists:
/// deactivated policies and other owners' policies count for nothing.
pub proof fn law_total_premium_sums_active_policies(s: &Insurance, owner: Address)
    ensures
        active_premium_sum(s.policies.values(), owner) == premium_amounts(
            s.policies.values().filter(is_active_policy_of(owner)),
        ),
{
    lemma_premium_sum_is_filtered_sum(s.policies.values(), owner);
}

proof fn lemma_due_ids_ordered(s: Seq<(u32, PremiumSchedule)>, now: u64)
    requires
        keys_increasing(s),
    ensures
        forall|i: int, j: int|
            0 <= i < j < due_ids(s, now).len() ==> due_ids(s, now)[i] < due_ids(s, now)[j],
        forall|i: int|
            0 <= i < due_ids(s, now).len() ==> exists|j: int|
                0 <= j < s.len() && s[j].0 == #[trigger] due_ids(s, now)[i] && s[j].1.active && s[j].1.next_due <= now,
        forall|j: int|
            0 <= j < s.len() && s[j].1.active && s[j].1.next_due <= now ==> due_ids(s, now).contains(#[trigger] s[j].0),
    decreases s.len(),
{
    if s.len() > 0 {
        let r = s.drop_last();
        assert(keys_increasing(r));
        lemma_due_ids_ordered(r, now);
        let rest = due_ids(r, now);
        let ids = due_ids(s, now);
        assert forall|i: int| 0 <= i < rest.len() implies rest[i] < s.last().0 by {
            let j = choose|j: int| 0 <= j < r.len() && r[j].0 == rest[i] && r[j].1.active && r[j].1.next_due <= now;
            assert(s[j] == r[j]);
        }
        assert forall|i: int|
            0 <= i < ids.len() implies exists|j: int|
                0 <= j < s.len() && s[j].0 == #[trigger] ids[i] && s[j].1.active && s[j].1.next_due <= now by {
            if i < rest.len() {
                assert(ids[i] == rest[i]);
                let j = choose|j: int| 0 <= j < r.len() && r[j].0 == rest[i] && r[j].1.active && r[j].1.next_due <= now;
                assert(s[j] == r[j]);
            } else {
                assert(s[s.len() - 1] == s.last());
            }
        }
        assert forall|j: int| 0 <= j < s.len() && s[j].1.active && s[j].1.next_due <= now implies ids.contains(
            #[trigger] s[j].0,
        ) by {
            if j < s.len() - 1 {
                assert(s[j] == r[j]);
                let k = choose|k: int| 0 <= k < rest.len() && rest[k] == r[j].0;
                assert(ids[k] == rest[k]);
            } else {
                assert(ids[ids.len() - 1] == s.last().0);
            }
        }
    }
}

/// One run of the premium schedules reports each active schedule whose due
/// date has come exactly once, in ascending order of identifiers, and
/// nothing else: a cancelled schedule is never reported.
pub proof fn law_premium_run_ascending(s: &Insurance, now: u64)
    requires
        s.wf(),
    ensures
        forall|i: int, j: int|
            0 <= i < j < due_ids(s.schedules.entries(), now).len() ==> due_ids(s.schedules.entries(), now)[i]
                < due_ids(s.schedules.entries(), now)[j],
        forall|k: u32|
            due_ids(s.schedules.entries(), now).contains(k) <==> (s.schedules@.contains_key(k)
                && s.schedules@[k].active && s.schedules@[k].next_due <= now),
{
    let e = s.schedules.entries();
    lemma_due_ids_ordered(e, now);
    assert forall|k: u32|
        due_ids(e, now).contains(k) <==> (s.schedules@.contains_key(k) && s.schedules@[k].active
            && s.schedules@[k].next_due <= now) by {
        if due_ids(e, now).contains(k) {
            let i = choose|i: int| 0 <= i < due_ids(e, now).len() && due_ids(e, now)[i] == k;
            let j = choose|j: int| 0 <= j < e.len() && e[j].0 == due_ids(e, now)[i] && e[j].1.active && e[j].1.next_due <= now;
            lemma_entry_in_map(e, j);
        }
        if s.schedules@.contains_key(k) && s.schedules@[k].active && s.schedules@[k].next_due <= now {
            lemma_map_key_in_seq(e, k);
        }
    }
}

proof fn lemma_premium_run_entry(before: &Insurance, ids: Seq<u32>, now: u64, k: u32)
    requires
        before.wf(),
        ids == due_ids(before.schedules.entries(), now),
        ids.contains(k),
    ensures
        before.schedules@.contains_key(k),
        schedule_due(before.schedules@[k], now),
{
    law_premium_run_ascending(before, now);
}

/// One keeper run leaves every schedule it does not report as it was (a
/// cancelled schedule, or a one-off schedule that already ran, among them);
/// every reported schedule records the run; a one-off one retires, and a
/// recurring one stays active and moves on by whole intervals to its first
/// due date after `now`, counting as missed the intervals it skipped. An
/// active policy that a reported schedule pays falls due thirty days after
/// `now`; a policy that no reported schedule pays keeps its payment date.
pub proof fn law_premium_run_touches_only_reported(
    before: &Insurance,
    after: &Insurance,
    ids: Seq<u32>,
    now: u64,
)
    requires
        before.wf(),
        forall|k: u32| #[trigger]
            before.schedules@.contains_key(k) && schedule_due(before.schedules@[k], now)
                ==> execution_fits(before.schedules@[k], now) && (pays_active_policy(
                before.policies@,
                before.schedules@[k],
            ) ==> now + 2592000 <= u64::MAX),
        ids == due_ids(before.schedules.entries(), now),
        after.schedules@ == schedules_after_run(before.schedules@, now),
        after.policies@ == policies_after_run(before.policies@, before.schedules@, now),
    ensures
        forall|k: u32|
            #[trigger] before.schedules@.contains_key(k) && !before.schedules@[k].active ==> !ids.contains(k),
        forall|k: u32|
            #[trigger] before.schedules@.contains_key(k) && !ids.contains(k) ==> after.schedules@[k]
                == before.schedules@[k],
        forall|k: u32|
            #[trigger] ids.contains(k) ==> after.schedules@[k].last_executed == Some(now) && (!(
            before.schedules@[k].recurring && before.schedules@[k].interval > 0)
                ==> !after.schedules@[k].active),
        forall|p: u32|
            #[trigger] before.policies@.contains_key(p) && (forall|k: u32|
                ids.contains(k) ==> before.schedules@[k].policy_id != p) ==> after.policies@[p]
                == before.policies@[p],
        forall|k: u32|
            #[trigger] ids.contains(k) && before.policies@.contains_key(before.schedules@[k].policy_id)
                && before.policies@[before.schedules@[k].policy_id].active ==> after.policies@[before.schedules@[k].policy_id].next_payment_date
                == now + 2592000,
        forall|k: u32|
            #[trigger] ids.contains(k) && before.schedules@[k].recurring && before.schedules@[k].interval
                > 0 ==> {
                let b = before.schedules@[k];
                let a = after.schedules@[k];
                &&& a.active
                &&& a.next_due > now
                &&& a.next_due - b.interval <= now
                &&& a.next_due == b.next_due + (a.missed_count - b.missed_count + 1) * b.interval
            },
{
    assert forall|k: u32|
        #[trigger] ids.contains(k) && before.policies@.contains_key(before.schedules@[k].policy_id)
            && before.policies@[before.schedules@[k].policy_id].active implies after.policies@[before.schedules@[k].policy_id].next_payment_date
            == now + 2592000 by {
        lemma_premium_run_entry(before, ids, now, k);
        assert(paid_by_schedule(before.schedules@, before.schedules@[k].policy_id, now));
    }
    assert forall|k: u32|
        #[trigger] ids.contains(k) && before.schedules@[k].recurring && before.schedules@[k].interval
            > 0 implies {
            let b = before.schedules@[k];
            let a = after.schedules@[k];
            &&& a.active
            &&& a.next_due > now
            &&& a.next_due - b.interval <= now
            &&& a.next_due == b.next_due + (a.missed_count - b.missed_count + 1) * b.interval
        } by {
        lemma_premium_run_entry(before, ids, now, k);
        let b = before.schedules@[k];
        lemma_caught_up_is_first_after(b.next_due, b.interval, now);
    }
    law_premium_run_ascending(before, now);
    assert forall|p: u32|
        #[trigger] before.policies@.contains_key(p) && (forall|k: u32|
            ids.contains(k) ==> before.schedules@[k].policy_id != p) implies after.policies@[p]
            == before.policies@[p] by {
        if paid_by_schedule(before.schedules@, p, now) {
            let j = choose|j: u32|
                #[trigger] before.schedules@.contains_key(j) && schedule_due(before.schedules@[j], now)
                    && before.schedules@[j].policy_id == p;
            assert(ids.contains(j));
        }
    }
}

/// While the contract is paused, every request that would change policies
/// or schedules is refused as paused, whatever its caller and arguments.
pub proof fn law_pause_refuses_changes(
    s: &Insurance,
    caller: Address,
    policy_id: u32,
    schedule_id: u32,
    monthly_premium: i128,
    coverage_amount: i128,
    next_due: u64,
    now: u64,
)
    requires
        s.admin.paused,
    ensures
        s.create_error(monthly_premium, coverage_amount) == Some(InsuranceError::ContractPaused),
        s.pay_error(caller, policy_id) == Some(InsuranceError::ContractPaused),
        s.deactivate_error(caller, policy_id) == Some(InsuranceError::ContractPaused),
        s.create_schedule_error(caller, policy_id, next_due, now) == Some(
            InsuranceError::ContractPaused,
        ),
        s.modify_schedule_error(caller, schedule_id, next_due, now) == Some(
            InsuranceError::ContractPaused,
        ),
        s.cancel_schedule_error(caller, schedule_id) == Some(InsuranceError::ContractPaused),
{
}

/// A premium schedule is created or moved only to a due date after `now`:
/// unless the contract refuses the request for being paused, a date that
/// is not in the future is refused as an invalid timestamp when moving a
/// schedule, and refused when creating one.
pub proof fn law_premium_schedule_dates_lie_ahead(
    s: &Insurance,
    caller: Address,
    policy_id: u32,
    schedule_id: u32,
    next_due: u64,
    now: u64,
)
    ensures
        s.create_schedule_error(caller, policy_id, next_due, now) is None ==> next_due > now,
        s.modify_schedule_error(caller, schedule_id, next_due, now) is None ==> next_due > now,
        next_due <= now && !s.admin.paused && !s.admin.paused_fns@.contains(modify_schedule_fn())
            ==> s.modify_schedule_error(caller, schedule_id, next_due, now) == Some(
            InsuranceError::InvalidTimestamp,
        ),
        next_due <= now ==> s.create_schedule_error(caller, policy_id, next_due, now) is Some,
{
}

/// Paying a premium moves the policy's next payment to thirty days after
/// `now` and changes nothing else of it, nor any other policy.
pub proof fn law_pay_premium_moves_payment_date(
    before: &Insurance,
    after: &Insurance,
    caller: Address,
    policy_id: u32,
    now: u64,
)
    requires
        before.wf(),
        before.pay_error(caller, policy_id) is None,
        now + 2592000 <= u64::MAX,
        after.policies@ == before.policies@.insert(policy_id, premium_paid(before.policies@[policy_id], now)),
    ensures
        ({
            let b = before.policies@[policy_id];
            let p = after.policies@[policy_id];
            &&& after.policies@.contains_key(policy_id)
            &&& p.next_payment_date == now + 2592000
            &&& p.id == b.id && p.owner == b.owner && p.name == b.name && p.coverage_type == b.coverage_type
            &&& p.monthly_premium == b.monthly_premium && p.coverage_amount == b.coverage_amount
            &&& p.active && b.active && p.schedule_id == b.schedule_id
        }),
        forall|k: u32|
            #[trigger] before.policies@.contains_key(k) && k != policy_id ==> after.policies@[k]
                == before.policies@[k],
{
}

} // verus!
