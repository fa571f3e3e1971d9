//! Goal-based savings: goals with targets that start locked, deposits and
//! withdrawals, time locks, deposit schedules executed by a keeper, an
//! audit log, paginated listing, and checksummed export and import of all
//! goals with replay protection by nonce.
//!
//! Every operation that fails leaves the state exactly as it was, as the
//! ledger discards the writes of a failed invocation.
use vstd::prelude::*;
use crate::address::{Address, KeyMap};
use crate::id_map::{
    Criterion, IdMap, criterion_pred, keys_increasing, lemma_entries_unique, lemma_entry_in_map, lemma_take_step,
    seq_to_map, seq_values,
};
use crate::schedule::{caught_up_due, lemma_caught_up_is_first_after, missed_periods, try_catch_up};

verus! {

pub const SNAPSHOT_VERSION: u32 = 1;

pub const MAX_AUDIT_ENTRIES: usize = 100;

pub const DEFAULT_PAGE_LIMIT: u32 = 20;

pub const MAX_PAGE_LIMIT: u32 = 100;

/// 2 to the 64th power.
pub const TWO_POW_64: i128 = 18446744073709551616;

#[derive(Clone, Copy, PartialEq, Eq, Structural, Debug)]
pub enum SavingsGoalError {
    TargetAmountMustBePositive,
    InvalidAmount,
    GoalNotFound,
    Unauthorized,
    GoalLocked,
    TimeLocked,
    InsufficientBalance,
    Overflow,
    UnlockDateNotInFuture,
    NextDueNotInFuture,
    ScheduleNotFound,
    InvalidNonce,
    UnsupportedSnapshotVersion,
    SnapshotChecksumMismatch,
}

/// The failure message of each refusal.
pub open spec fn savings_message(e: SavingsGoalError) -> Seq<char> {
    match e {
        SavingsGoalError::TargetAmountMustBePositive => "Target amount must be positive"@,
        SavingsGoalError::InvalidAmount => "Amount must be positive"@,
        SavingsGoalError::GoalNotFound => "Goal not found"@,
        SavingsGoalError::Unauthorized => "Only the owner can perform this operation"@,
        SavingsGoalError::GoalLocked => "Cannot withdraw from a locked goal"@,
        SavingsGoalError::TimeLocked => "Goal is time-locked until unlock date"@,
        SavingsGoalError::InsufficientBalance => "Insufficient balance"@,
        SavingsGoalError::Overflow => "overflow"@,
        SavingsGoalError::UnlockDateNotInFuture => "Unlock date must be in the future"@,
        SavingsGoalError::NextDueNotInFuture => "Next due date must be in the future"@,
        SavingsGoalError::ScheduleNotFound => "Schedule not found"@,
        SavingsGoalError::InvalidNonce => "Invalid nonce"@,
        SavingsGoalError::UnsupportedSnapshotVersion => "Unsupported snapshot version"@,
        SavingsGoalError::SnapshotChecksumMismatch => "Snapshot checksum mismatch"@,
    }
}

impl SavingsGoalError {
    /// The contract's failure message for this refusal.
    pub fn message(self) -> (m: &'static str)
        ensures
            m@ == savings_message(self),
    {
        match self {
            SavingsGoalError::TargetAmountMustBePositive => "Target amount must be positive",
            SavingsGoalError::InvalidAmount => "Amount must be positive",
            SavingsGoalError::GoalNotFound => "Goal not found",
            SavingsGoalError::Unauthorized => "Only the owner can perform this operation",
            SavingsGoalError::GoalLocked => "Cannot withdraw from a locked goal",
            SavingsGoalError::TimeLocked => "Goal is time-locked until unlock date",
            SavingsGoalError::InsufficientBalance => "Insufficient balance",
            SavingsGoalError::Overflow => "overflow",
            SavingsGoalError::UnlockDateNotInFuture => "Unlock date must be in the future",
            SavingsGoalError::NextDueNotInFuture => "Next due date must be in the future",
            SavingsGoalError::ScheduleNotFound => "Schedule not found",
            SavingsGoalError::InvalidNonce => "Invalid nonce",
            SavingsGoalError::UnsupportedSnapshotVersion => "Unsupported snapshot version",
            SavingsGoalError::SnapshotChecksumMismatch => "Snapshot checksum mismatch",
        }
    }
}

/// Audit-trail event kinds of the savings contract.
#[derive(Clone, Copy, PartialEq, Eq, Structural, Debug)]
pub enum SavingsEvent {
    GoalCreated,
    FundsAdded,
    FundsWithdrawn,
    GoalCompleted,
    GoalLocked,
    GoalUnlocked,
    ScheduleCreated,
    ScheduleExecuted,
    ScheduleMissed,
    ScheduleModified,
    ScheduleCancelled,
}

/// Payload of the event published when a goal is created.
#[derive(Debug)]
pub struct GoalCreatedEvent {
    pub goal_id: u32,
    pub name: String,
    pub target_amount: i128,
    pub target_date: u64,
    pub timestamp: u64,
}

/// Payload of the event published when funds are added.
#[derive(Clone, Copy, PartialEq, Eq, Structural, Debug)]
pub struct FundsAddedEvent {
    pub goal_id: u32,
    pub amount: i128,
    pub new_total: i128,
    pub timestamp: u64,
}

/// Payload of the event published when a goal reaches its target.
#[derive(Debug)]
pub struct GoalCompletedEvent {
    pub goal_id: u32,
    pub name: String,
    pub final_amount: i128,
    pub timestamp: u64,
}

#[derive(Debug)]
pub struct SavingsGoal {
    pub id: u32,
    pub owner: Address,
    pub name: String,
    pub target_amount: i128,
    pub current_amount: i128,
    pub target_date: u64,
    pub locked: bool,
    pub unlock_date: Option<u64>,
}

impl Clone for SavingsGoal {
    fn clone(&self) -> (r: Self)
        ensures
            r == *self,
    {
        SavingsGoal {
            id: self.id,
            owner: self.owner,
            name: self.name.clone(),
            target_amount: self.target_amount,
            current_amount: self.current_amount,
            target_date: self.target_date,
            locked: self.locked,
            unlock_date: self.unlock_date,
        }
    }
}

#[derive(Clone, Copy, PartialEq, Eq, Structural, Debug)]
pub struct SavingsSchedule {
    pub id: u32,
    pub owner: Address,
    pub goal_id: u32,
    pub amount: i128,
    pub next_due: u64,
    pub interval: u64,
    pub recurring: bool,
    pub active: bool,
    pub created_at: u64,
    pub last_executed: Option<u64>,
    pub missed_count: u32,
}

/// All goals with a version, their identifier counter and a checksum.
#[derive(Debug)]
pub struct GoalsExportSnapshot {
    pub version: u32,
    pub checksum: u64,
    pub next_id: u32,
    pub goals: Vec<SavingsGoal>,
}

#[derive(Debug)]
pub struct AuditEntry {
    pub operation: String,
    pub caller: Address,
    pub timestamp: u64,
    pub success: bool,
}

impl Clone for AuditEntry {
    fn clone(&self) -> (r: Self)
        ensures
            r == *self,
    {
        AuditEntry {
            operation: self.operation.clone(),
            caller: self.caller,
            timestamp: self.timestamp,
            success: self.success,
        }
    }
}

/// One page of an owner's goals.
#[derive(Debug)]
pub struct GoalsPage {
    pub goals: Vec<SavingsGoal>,
    pub next_cursor: Option<u32>,
    pub has_more: bool,
}

/// Goals of one owner.
pub struct GoalOf {
    pub owner: Address,
}

impl Criterion<SavingsGoal> for GoalOf {
    open spec fn holds(&self, g: SavingsGoal) -> bool {
        g.owner == self.owner
    }

    fn test(&self, g: &SavingsGoal) -> (r: bool) {
        g.owner == self.owner
    }
}

/// Schedules of one owner.
pub struct SavingsScheduleOf {
    pub owner: Address,
}

impl Criterion<SavingsSchedule> for SavingsScheduleOf {
    open spec fn holds(&self, s: SavingsSchedule) -> bool {
        s.owner == self.owner
    }

    fn test(&self, s: &SavingsSchedule) -> (r: bool) {
        s.owner == self.owner
    }
}

pub open spec fn is_goal_of(owner: Address) -> spec_fn(SavingsGoal) -> bool {
    |g: SavingsGoal| g.owner == owner
}

pub open spec fn is_savings_schedule_of(owner: Address) -> spec_fn(SavingsSchedule) -> bool {
    |s: SavingsSchedule| s.owner == owner
}

/// The audit log after appending `e`: the oldest entry is dropped when the
/// log already holds a hundred.
pub open spec fn audit_appended(log: Seq<AuditEntry>, e: AuditEntry) -> Seq<AuditEntry> {
    if log.len() >= 100 {
        log.drop_first().push(e)
    } else {
        log.push(e)
    }
}

/// The successful audit entry of `operation` by `caller` at `now`.
pub open spec fn success_entry(operation: Seq<char>, caller: Address, now: u64) -> spec_fn(AuditEntry) -> bool {
    |e: AuditEntry| e.operation@ == operation && e.caller == caller && e.timestamp == now && e.success
}

/// `goals` with the balance of goal `id` set to `total`.
pub open spec fn goal_with_balance(goals: Map<u32, SavingsGoal>, id: u32, total: i128) -> Map<
    u32,
    SavingsGoal,
> {
    goals.insert(id, SavingsGoal { current_amount: total, ..goals[id] })
}

/// The low 64 bits of `x`, as a number.
pub open spec fn low64(x: i128) -> int {
    (x as int) % 0x1_0000_0000_0000_0000int
}

/// Sum over goals of identifier, target and current amount, each taken as
/// its low 64 bits.
pub open spec fn checksum_sum(goals: Seq<SavingsGoal>) -> int
    decreases goals.len(),
{
    if goals.len() == 0 {
        0
    } else {
        checksum_sum(goals.drop_last()) + goals.last().id + low64(goals.last().target_amount) + low64(
            goals.last().current_amount,
        )
    }
}

/// The checksum of a snapshot: the sum above plus version and identifier
/// counter, times 31, all modulo 2^64.
pub open spec fn goals_checksum(version: u32, next_id: u32, goals: Seq<SavingsGoal>) -> u64 {
    (((version + next_id + checksum_sum(goals)) % 0x1_0000_0000_0000_0000int) * 31
        % 0x1_0000_0000_0000_0000int) as u64
}

/// The goals map a snapshot restores: each listed goal under its own
/// identifier, later ones replacing earlier ones.
pub open spec fn goals_from_list(goals: Seq<SavingsGoal>) -> Map<u32, SavingsGoal>
    decreases goals.len(),
{
    if goals.len() == 0 {
        Map::empty()
    } else {
        goals_from_list(goals.drop_last()).insert(goals.last().id, goals.last())
    }
}

/// Deposits that due schedules among `entries` make into goal `goal` at `now`.
pub open spec fn due_deposits(entries: Seq<(u32, SavingsSchedule)>, goal: u32, now: u64) -> int
    decreases entries.len(),
{
    if entries.len() == 0 {
        0
    } else {
        due_deposits(entries.drop_last(), goal, now) + if savings_due(entries.last().1, now)
            && entries.last().1.goal_id == goal {
            entries.last().1.amount as int
        } else {
            0
        }
    }
}

/// A schedule that the keeper executes at `now`.
pub open spec fn savings_due(s: SavingsSchedule, now: u64) -> bool {
    s.active && s.next_due <= now
}

/// A due schedule after its execution at `now`.
pub open spec fn executed_savings(s: SavingsSchedule, now: u64) -> SavingsSchedule {
    if s.recurring && s.interval > 0 {
        SavingsSchedule {
            last_executed: Some(now),
            missed_count: (s.missed_count + missed_periods(s.next_due, s.interval, now)) as u32,
            next_due: caught_up_due(s.next_due, s.interval, now) as u64,
            ..s
        }
    } else {
        SavingsSchedule { last_executed: Some(now), active: false, ..s }
    }
}

/// Executing a due schedule at `now` stays within the integer widths.
pub open spec fn savings_execution_fits(s: SavingsSchedule, now: u64) -> bool {
    s.recurring && s.interval > 0 ==> {
        &&& caught_up_due(s.next_due, s.interval, now) <= u64::MAX
        &&& s.missed_count + missed_periods(s.next_due, s.interval, now) <= u32::MAX
    }
}

pub open spec fn savings_after_run(m: Map<u32, SavingsSchedule>, now: u64) -> Map<u32, SavingsSchedule> {
    Map::new(
        |k: u32| m.contains_key(k),
        |k: u32|
            if savings_due(m[k], now) {
                executed_savings(m[k], now)
            } else {
                m[k]
            },
    )
}

/// The goals after the deposits of the schedules among `entries` due at `now`.
pub open spec fn goals_after_run(
    goals: Map<u32, SavingsGoal>,
    entries: Seq<(u32, SavingsSchedule)>,
    now: u64,
) -> Map<u32, SavingsGoal> {
    Map::new(
        |k: u32| goals.contains_key(k),
        |k: u32|
            SavingsGoal {
                current_amount: (goals[k].current_amount + due_deposits(entries, k, now)) as i128,
                ..goals[k]
            },
    )
}

/// Identifiers of the schedules due at `now`, in ascending order.
pub open spec fn due_savings_ids(entries: Seq<(u32, SavingsSchedule)>, now: u64) -> Seq<u32>
    decreases entries.len(),
{
    if entries.len() == 0 {
        Seq::empty()
    } else {
        let rest = due_savings_ids(entries.drop_last(), now);
        if savings_due(entries.last().1, now) {
            rest.push(entries.last().0)
        } else {
            rest
        }
    }
}

/// The number of goals a page holds for a requested limit: 20 by default,
/// at least 1 and at most 100.
pub open spec fn page_limit(limit: Option<u32>) -> int {
    match limit {
        None => 20,
        Some(l) => if l == 0 {
            1
        } else if l > 100 {
            100
        } else {
            l as int
        },
    }
}

/// The savings-goals contract state.
pub struct SavingsGoalContract {
    pub goals: IdMap<SavingsGoal>,
    /// Last goal identifier handed out; 0 before the first goal.
    pub next_id: u32,
    pub schedules: IdMap<SavingsSchedule>,
    /// Last schedule identifier handed out; 0 before the first schedule.
    pub next_schedule_id: u32,
    pub nonces: KeyMap<Address, u64>,
    /// The most recent audit entries, oldest first, at most a hundred.
    pub audit: Vec<AuditEntry>,
    /// Whether the separate long-lived storage was initialised.
    pub persistent_ready: bool,
}


/// The entry just appended to `new_log` records `operation` by `caller`
/// at `now` as a success, and `new_log` is `old_log` with it appended.
pub open spec fn audit_records(
    old_log: Seq<AuditEntry>,
    new_log: Seq<AuditEntry>,
    operation: Seq<char>,
    caller: Address,
    now: u64,
) -> bool {
    &&& new_log.len() > 0
    &&& new_log == audit_appended(old_log, new_log.last())
    &&& success_entry(operation, caller, now)(new_log.last())
}

/// Where a page starts in `list`: at the beginning without a cursor, just
/// after the first goal named by the cursor, nowhere when no goal has that name.
pub open spec fn page_start(list: Seq<SavingsGoal>, cursor: Option<u32>) -> Option<int> {
    match cursor {
        None => Some(0),
        Some(c) => if exists|j: int| 0 <= j < list.len() && list[j].id == c {
            Some(
                (choose|j: int|
                    0 <= j < list.len() && list[j].id == c && forall|p: int|
                        0 <= p < j ==> list[p].id != c) + 1,
            )
        } else {
            None
        },
    }
}

impl SavingsGoalContract {
    /// Well-formedness: ordered maps, goals stored under their own
    /// identifiers, positive scheduled deposits, a bounded audit log.
    pub open spec fn wf(&self) -> bool {
        &&& self.goals.wf()
        &&& self.schedules.wf()
        &&& self.nonces.wf()
        &&& self.audit@.len() <= 100
        &&& forall|k: u32| #[trigger] self.goals@.contains_key(k) ==> self.goals@[k].id == k
        &&& forall|k: u32| #[trigger]
            self.schedules@.contains_key(k) ==> self.schedules@[k].amount > 0
    }

    /// The nonce `a` must present next.
    pub open spec fn nonce_of(&self, a: Address) -> u64 {
        if self.nonces@.contains_key(a) {
            self.nonces@[a]
        } else {
            0
        }
    }

    /// Everything but the goals and the audit log is as in `other`.
    pub open spec fn same_besides_goals(&self, other: &Self) -> bool {
        &&& self.next_id == other.next_id
        &&& self.schedules == other.schedules
        &&& self.next_schedule_id == other.next_schedule_id
        &&& self.nonces == other.nonces
        &&& self.persistent_ready == other.persistent_ready
    }

    /// Everything but the schedules is as in `other`.
    pub open spec fn same_besides_schedules(&self, other: &Self) -> bool {
        &&& self.goals == other.goals
        &&& self.next_id == other.next_id
        &&& self.nonces == other.nonces
        &&& self.audit == other.audit
        &&& self.persistent_ready == other.persistent_ready
    }

    pub open spec fn add_error(&self, caller: Address, goal_id: u32, amount: i128) -> Option<
        SavingsGoalError,
    > {
        if amount <= 0 {
            Some(SavingsGoalError::InvalidAmount)
        } else if !self.goals@.contains_key(goal_id) || self.goals@[goal_id].owner != caller {
            Some(SavingsGoalError::GoalNotFound)
        } else if self.goals@[goal_id].current_amount + amount > i128::MAX {
            Some(SavingsGoalError::Overflow)
        } else {
            None
        }
    }

    pub open spec fn withdraw_error(&self, caller: Address, goal_id: u32, amount: i128, now: u64) -> Option<
        SavingsGoalError,
    > {
        if amount <= 0 {
            Some(SavingsGoalError::InvalidAmount)
        } else if !self.goals@.contains_key(goal_id) {
            Some(SavingsGoalError::GoalNotFound)
        } else if self.goals@[goal_id].owner != caller {
            Some(SavingsGoalError::Unauthorized)
        } else if self.goals@[goal_id].locked {
            Some(SavingsGoalError::GoalLocked)
        } else if self.goals@[goal_id].unlock_date is Some && now
            < self.goals@[goal_id].unlock_date->0 {
            Some(SavingsGoalError::TimeLocked)
        } else if amount > self.goals@[goal_id].current_amount {
            Some(SavingsGoalError::InsufficientBalance)
        } else {
            None
        }
    }

    pub open spec fn owner_error(&self, caller: Address, goal_id: u32) -> Option<SavingsGoalError> {
        if !self.goals@.contains_key(goal_id) {
            Some(SavingsGoalError::GoalNotFound)
        } else if self.goals@[goal_id].owner != caller {
            Some(SavingsGoalError::Unauthorized)
        } else {
            None
        }
    }

    pub open spec fn import_error(&self, caller: Address, nonce: u64, version: u32, checksum: u64, next_id: u32, goals: Seq<SavingsGoal>) -> Option<
        SavingsGoalError,
    > {
        if nonce != self.nonce_of(caller) {
            Some(SavingsGoalError::InvalidNonce)
        } else if version != 1 {
            Some(SavingsGoalError::UnsupportedSnapshotVersion)
        } else if checksum != goals_checksum(version, next_id, goals) {
            Some(SavingsGoalError::SnapshotChecksumMismatch)
        } else if nonce == u64::MAX {
            Some(SavingsGoalError::Overflow)
        } else {
            None
        }
    }

    pub open spec fn create_schedule_error(
        &self,
        owner: Address,
        goal_id: u32,
        amount: i128,
        next_due: u64,
        now: u64,
    ) -> Option<SavingsGoalError> {
        if amount <= 0 {
            Some(SavingsGoalError::InvalidAmount)
        } else if !self.goals@.contains_key(goal_id) {
            Some(SavingsGoalError::GoalNotFound)
        } else if self.goals@[goal_id].owner != owner {
            Some(SavingsGoalError::Unauthorized)
        } else if next_due <= now {
            Some(SavingsGoalError::NextDueNotInFuture)
        } else {
            None
        }
    }

    pub open spec fn modify_schedule_error(
        &self,
        caller: Address,
        schedule_id: u32,
        amount: i128,
        next_due: u64,
        now: u64,
    ) -> Option<SavingsGoalError> {
        if amount <= 0 {
            Some(SavingsGoalError::InvalidAmount)
        } else if next_due <= now {
            Some(SavingsGoalError::NextDueNotInFuture)
        } else if !self.schedules@.contains_key(schedule_id) {
            Some(SavingsGoalError::ScheduleNotFound)
        } else if self.schedules@[schedule_id].owner != caller {
            Some(SavingsGoalError::Unauthorized)
        } else {
            None
        }
    }

    pub open spec fn cancel_schedule_error(&self, caller: Address, schedule_id: u32) -> Option<
        SavingsGoalError,
    > {
        if !self.schedules@.contains_key(schedule_id) {
            Some(SavingsGoalError::ScheduleNotFound)
        } else if self.schedules@[schedule_id].owner != caller {
            Some(SavingsGoalError::Unauthorized)
        } else {
            None
        }
    }

    /// Whether executing the schedules due at `now` overflows: a recurring
    /// schedule cannot catch up within the integer widths, or some goal's
    /// balance would exceed the largest `i128`.
    pub open spec fn execution_overflows(&self, now: u64) -> bool {
        ||| exists|k: u32| #[trigger]
            self.schedules@.contains_key(k) && savings_due(self.schedules@[k], now)
                && !savings_execution_fits(self.schedules@[k], now)
        ||| exists|k: u32| #[trigger]
            self.goals@.contains_key(k) && self.goals@[k].current_amount + due_deposits(
                self.schedules.entries(),
                k,
                now,
            ) > i128::MAX
    }

    /// A freshly deployed contract.
    pub fn new() -> (s: SavingsGoalContract)
        ensures
            s.wf(),
            s.goals@ == Map::<u32, SavingsGoal>::empty(),
            s.schedules@ == Map::<u32, SavingsSchedule>::empty(),
            s.next_id == 0,
            s.next_schedule_id == 0,
            s.nonces@ == Map::<Address, u64>::empty(),
            s.audit@ == Seq::<AuditEntry>::empty(),
            !s.persistent_ready,
    {
        SavingsGoalContract {
            goals: IdMap::new(),
            next_id: 0,
            schedules: IdMap::new(),
            next_schedule_id: 0,
            nonces: KeyMap::new(),
            audit: Vec::new(),
            persistent_ready: false,
        }
    }

    /// Initialises the separate long-lived storage; repeated calls change nothing.
    pub fn init(&mut self)
        ensures
            final(self).persistent_ready,
            final(self).goals == old(self).goals,
            final(self).next_id == old(self).next_id,
            final(self).schedules == old(self).schedules,
            final(self).next_schedule_id == old(self).next_schedule_id,
            final(self).nonces == old(self).nonces,
            final(self).audit == old(self).audit,
    {
        if !self.persistent_ready {
            self.persistent_ready = true;
        }
    }

    fn append_audit(&mut self, operation: &str, caller: Address, now: u64)
        requires
            old(self).audit@.len() <= 100,
        ensures
            final(self).audit@.len() <= 100,
            audit_records(old(self).audit@, final(self).audit@, operation@, caller, now),
            final(self).goals == old(self).goals,
            final(self).next_id == old(self).next_id,
            final(self).schedules == old(self).schedules,
            final(self).next_schedule_id == old(self).next_schedule_id,
            final(self).nonces == old(self).nonces,
            final(self).persistent_ready == old(self).persistent_ready,
    {
        if self.audit.len() >= MAX_AUDIT_ENTRIES {
            self.audit.remove(0);
        }
        let entry = AuditEntry { operation: operation.to_owned(), caller, timestamp: now, success: true };
        self.audit.push(entry);
        proof {
            if old(self).audit@.len() >= 100 {
                assert(self.audit@ =~= old(self).audit@.drop_first().push(self.audit@.last()));
            } else {
                assert(self.audit@ =~= old(self).audit@.push(self.audit@.last()));
            }
        }
    }

    /// Creates a locked goal for `owner`; its identifier is one past the last one.
    pub fn create_goal(
        &mut self,
        owner: Address,
        name: String,
        target_amount: i128,
        target_date: u64,
    ) -> (r: Result<u32, SavingsGoalError>)
        requires
            old(self).wf(),
            target_amount > 0 ==> old(self).next_id < u32::MAX,
        ensures
            final(self).wf(),
            match r {
                Ok(id) => {
                    &&& target_amount > 0
                    &&& id == old(self).next_id + 1
                    &&& final(self).next_id == id
                    &&& final(self).goals@ == old(self).goals@.insert(
                        id,
                        SavingsGoal {
                            id,
                            owner,
                            name,
                            target_amount,
                            current_amount: 0,
                            target_date,
                            locked: true,
                            unlock_date: None,
                        },
                    )
                    &&& final(self).schedules == old(self).schedules
                    &&& final(self).next_schedule_id == old(self).next_schedule_id
                    &&& final(self).nonces == old(self).nonces
                    &&& final(self).audit == old(self).audit
                    &&& final(self).persistent_ready == old(self).persistent_ready
                },
                Err(e) => target_amount <= 0 && e == SavingsGoalError::TargetAmountMustBePositive
                    && *final(self) == *old(self),
            },
    {
        if target_amount <= 0 {
            return Err(SavingsGoalError::TargetAmountMustBePositive);
        }
        let id = self.next_id + 1;
        let goal = SavingsGoal {
            id,
            owner,
            name,
            target_amount,
            current_amount: 0,
            target_date,
            locked: true,
            unlock_date: None,
        };
        self.goals.set(id, goal);
        self.next_id = id;
        Ok(id)
    }

    /// Adds `amount` to a goal of the caller and returns the new balance.
    pub fn add_to_goal(&mut self, caller: Address, goal_id: u32, amount: i128, now: u64) -> (r:
        Result<i128, SavingsGoalError>)
        requires
            old(self).wf(),
        ensures
            final(self).wf(),
            match r {
                Ok(total) => {
                    &&& old(self).add_error(caller, goal_id, amount) is None
                    &&& total == old(self).goals@[goal_id].current_amount + amount
                    &&& final(self).goals@ == goal_with_balance(old(self).goals@, goal_id, total)
                    &&& audit_records(old(self).audit@, final(self).audit@, "add"@, caller, now)
                    &&& final(self).same_besides_goals(&*old(self))
                },
                Err(e) => old(self).add_error(caller, goal_id, amount) == Some(e) && *final(self)
                    == *old(self),
            },
    {
        if amount <= 0 {
            return Err(SavingsGoalError::InvalidAmount);
        }
        let mut goal = match self.goals.get(goal_id) {
            None => {
                return Err(SavingsGoalError::GoalNotFound);
            },
            Some(g) => g.clone(),
        };
        if goal.owner != caller {
            return Err(SavingsGoalError::GoalNotFound);
        }
        let total = match goal.current_amount.checked_add(amount) {
            None => {
                return Err(SavingsGoalError::Overflow);
            },
            Some(t) => t,
        };
        goal.current_amount = total;
        self.goals.set(goal_id, goal);
        self.append_audit("add", caller, now);
        Ok(total)
    }

    /// Withdraws `amount` from an unlocked goal of the caller whose time
    /// lock, if any, has passed; returns the new balance.
    pub fn withdraw_from_goal(&mut self, caller: Address, goal_id: u32, amount: i128, now: u64) -> (r:
        Result<i128, SavingsGoalError>)
        requires
            old(self).wf(),
        ensures
            final(self).wf(),
            match r {
                Ok(total) => {
                    &&& old(self).withdraw_error(caller, goal_id, amount, now) is None
                    &&& total == old(self).goals@[goal_id].current_amount - amount
                    &&& final(self).goals@ == goal_with_balance(old(self).goals@, goal_id, total)
                    &&& audit_records(old(self).audit@, final(self).audit@, "withdraw"@, caller, now)
                    &&& final(self).same_besides_goals(&*old(self))
                },
                Err(e) => old(self).withdraw_error(caller, goal_id, amount, now) == Some(e) && *final(self) == *old(self),
            },
    {
        if amount <= 0 {
            return Err(SavingsGoalError::InvalidAmount);
        }
        let mut goal = match self.goals.get(goal_id) {
            None => {
                return Err(SavingsGoalError::GoalNotFound);
            },
            Some(g) => g.clone(),
        };
        if goal.owner != caller {
            return Err(SavingsGoalError::Unauthorized);
        }
        if goal.locked {
            return Err(SavingsGoalError::GoalLocked);
        }
        if let Some(unlock_date) = goal.unlock_date {
            if now < unlock_date {
                return Err(SavingsGoalError::TimeLocked);
            }
        }
        if amount > goal.current_amount {
            return Err(SavingsGoalError::InsufficientBalance);
        }
        let total = goal.current_amount - amount;
        goal.current_amount = total;
        self.goals.set(goal_id, goal);
        self.append_audit("withdraw", caller, now);
        Ok(total)
    }

    /// Locks a goal of the caller against withdrawals.
    pub fn lock_goal(&mut self, caller: Address, goal_id: u32, now: u64) -> (r: Result<
        bool,
        SavingsGoalError,
    >)
        requires
            old(self).wf(),
        ensures
            final(self).wf(),
            match r {
                Ok(b) => {
                    &&& b
                    &&& old(self).owner_error(caller, goal_id) is None
                    &&& final(self).goals@ == old(self).goals@.insert(
                        goal_id,
                        SavingsGoal { locked: true, ..old(self).goals@[goal_id] },
                    )
                    &&& audit_records(old(self).audit@, final(self).audit@, "lock"@, caller, now)
                    &&& final(self).same_besides_goals(&*old(self))
                },
                Err(e) => old(self).owner_error(caller, goal_id) == Some(e) && *final(self) == *old(self),
            },
    {
        let mut goal = match self.goals.get(goal_id) {
            None => {
                return Err(SavingsGoalError::GoalNotFound);
            },
            Some(g) => g.clone(),
        };
        if goal.owner != caller {
            return Err(SavingsGoalError::Unauthorized);
        }
        goal.locked = true;
        self.goals.set(goal_id, goal);
        self.append_audit("lock", caller, now);
        Ok(true)
    }

    /// Unlocks a goal of the caller, allowing withdrawals.
    pub fn unlock_goal(&mut self, caller: Address, goal_id: u32, now: u64) -> (r: Result<
        bool,
        SavingsGoalError,
    >)
        requires
            old(self).wf(),
        ensures
            final(self).wf(),
            match r {
                Ok(b) => {
                    &&& b
                    &&& old(self).owner_error(caller, goal_id) is None
                    &&& final(self).goals@ == old(self).goals@.insert(
                        goal_id,
                        SavingsGoal { locked: false, ..old(self).goals@[goal_id] },
                    )
                    &&& audit_records(old(self).audit@, final(self).audit@, "unlock"@, caller, now)
                    &&& final(self).same_besides_goals(&*old(self))
                },
                Err(e) => old(self).owner_error(caller, goal_id) == Some(e) && *final(self) == *old(self),
            },
    {
        let mut goal = match self.goals.get(goal_id) {
            None => {
                return Err(SavingsGoalError::GoalNotFound);
            },
            Some(g) => g.clone(),
        };
        if goal.owner != caller {
            return Err(SavingsGoalError::Unauthorized);
        }
        goal.locked = false;
        self.goals.set(goal_id, goal);
        self.append_audit("unlock", caller, now);
        Ok(true)
    }

    pub fn get_goal(&self, goal_id: u32) -> (r: Option<SavingsGoal>)
        requires
            self.wf(),
        ensures
            r == if self.goals@.contains_key(goal_id) {
                Some(self.goals@[goal_id])
            } else {
                None
            },
    {
        match self.goals.get(goal_id) {
            Some(g) => Some(g.clone()),
            None => None,
        }
    }

    /// The goals of `owner`, in identifier order.
    pub fn get_all_goals(&self, owner: Address) -> (r: Vec<SavingsGoal>)
        ensures
            r@ == self.goals.values().filter(is_goal_of(owner)),
    {
        let r = self.goals.select(&GoalOf { owner });
        assert(criterion_pred(GoalOf { owner }) =~= is_goal_of(owner));
        r
    }

    /// A goal is completed when its balance reached its target.
    pub fn is_goal_completed(&self, goal_id: u32) -> (b: bool)
        requires
            self.wf(),
        ensures
            b == (self.goals@.contains_key(goal_id) && self.goals@[goal_id].current_amount
                >= self.goals@[goal_id].target_amount),
    {
        match self.goals.get(goal_id) {
            Some(g) => g.current_amount >= g.target_amount,
            None => false,
        }
    }

    /// The nonce that `address` must present to its next import.
    pub fn get_nonce(&self, address: Address) -> (n: u64)
        requires
            self.wf(),
        ensures
            n == self.nonce_of(address),
    {
        match self.nonces.get(address) {
            Some(n) => *n,
            None => 0,
        }
    }

    /// Sets a time lock when the request is valid, and otherwise reports
    /// why it is refused, changing nothing.
    pub fn try_set_time_lock(&mut self, caller: Address, goal_id: u32, unlock_date: u64, now: u64) -> (r:
        Result<bool, SavingsGoalError>)
        requires
            old(self).wf(),
        ensures
            final(self).wf(),
            match r {
                Ok(b) => {
                    &&& b
                    &&& old(self).owner_error(caller, goal_id) is None
                    &&& unlock_date > now
                    &&& final(self).goals@ == old(self).goals@.insert(
                        goal_id,
                        SavingsGoal { unlock_date: Some(unlock_date), ..old(self).goals@[goal_id] },
                    )
                    &&& audit_records(old(self).audit@, final(self).audit@, "timelock"@, caller, now)
                    &&& final(self).same_besides_goals(&*old(self))
                },
                Err(e) => *final(self) == *old(self) && if old(self).owner_error(caller, goal_id) is Some {
                    old(self).owner_error(caller, goal_id) == Some(e)
                } else {
                    unlock_date <= now && e == SavingsGoalError::UnlockDateNotInFuture
                },
            },
    {
        let mut goal = match self.goals.get(goal_id) {
            None => {
                return Err(SavingsGoalError::GoalNotFound);
            },
            Some(g) => g.clone(),
        };
        if goal.owner != caller {
            return Err(SavingsGoalError::Unauthorized);
        }
        if unlock_date <= now {
            return Err(SavingsGoalError::UnlockDateNotInFuture);
        }
        goal.unlock_date = Some(unlock_date);
        self.goals.set(goal_id, goal);
        self.append_audit("timelock", caller, now);
        Ok(true)
    }

    /// Sets a time lock on a goal of the caller: withdrawals stay refused
    /// before `unlock_date`, which must lie in the future.
    pub fn set_time_lock(&mut self, caller: Address, goal_id: u32, unlock_date: u64, now: u64) -> (b: bool)
        requires
            old(self).wf(),
            old(self).owner_error(caller, goal_id) is None,
            unlock_date > now,
        ensures
            final(self).wf(),
            b,
            final(self).goals@ == old(self).goals@.insert(
                goal_id,
                SavingsGoal { unlock_date: Some(unlock_date), ..old(self).goals@[goal_id] },
            ),
            audit_records(old(self).audit@, final(self).audit@, "timelock"@, caller, now),
            final(self).same_besides_goals(&*old(self)),
    {
        self.try_set_time_lock(caller, goal_id, unlock_date, now).unwrap()
    }

    /// Up to `limit` (capped at a hundred) audit entries from position `from_index`.
    pub fn get_audit_log(&self, from_index: u32, limit: u32) -> (r: Vec<AuditEntry>)
        requires
            self.wf(),
        ensures
            r@ == if from_index >= self.audit@.len() {
                Seq::<AuditEntry>::empty()
            } else {
                self.audit@.subrange(
                    from_index as int,
                    vstd::math::min(
                        from_index + vstd::math::min(100, limit as int),
                        self.audit@.len() as int,
                    ),
                )
            },
    {
        let len = self.audit.len();
        let cap: usize = if limit < 100 {
            limit as usize
        } else {
            MAX_AUDIT_ENTRIES
        };
        let mut out: Vec<AuditEntry> = Vec::new();
        if from_index as usize >= len {
            return out;
        }
        let from = from_index as usize;
        let end = if from + cap < len {
            from + cap
        } else {
            len
        };
        let mut i = from;
        while i < end
            invariant
                from <= i <= end,
                end <= len,
                len == self.audit@.len(),
                out@ == self.audit@.subrange(from as int, i as int),
            decreases end - i,
        {
            let e = self.audit[i].clone();
            out.push(e);
            assert(self.audit@.subrange(from as int, i + 1) =~= self.audit@.subrange(
                from as int,
                i as int,
            ).push(self.audit@[i as int]));
            i += 1;
        }
        out
    }

    /// Creates a deposit schedule when the request is valid, and otherwise
    /// reports why it is refused, changing nothing.
    pub fn try_create_savings_schedule(
        &mut self,
        owner: Address,
        goal_id: u32,
        amount: i128,
        next_due: u64,
        interval: u64,
        now: u64,
    ) -> (r: Result<u32, SavingsGoalError>)
        requires
            old(self).wf(),
            old(self).create_schedule_error(owner, goal_id, amount, next_due, now) is None ==> old(self).next_schedule_id < u32::MAX,
        ensures
            final(self).wf(),
            r is Ok ==> next_due > now,
            match r {
                Ok(sid) => {
                    &&& old(self).create_schedule_error(owner, goal_id, amount, next_due, now) is None
                    &&& sid == old(self).next_schedule_id + 1
                    &&& final(self).next_schedule_id == sid
                    &&& final(self).schedules@ == old(self).schedules@.insert(
                        sid,
                        SavingsSchedule {
                            id: sid,
                            owner,
                            goal_id,
                            amount,
                            next_due,
                            interval,
                            recurring: interval > 0,
                            active: true,
                            created_at: now,
                            last_executed: None,
                            missed_count: 0,
                        },
                    )
                    &&& final(self).same_besides_schedules(&*old(self))
                },
                Err(e) => old(self).create_schedule_error(owner, goal_id, amount, next_due, now)
                    == Some(e) && *final(self) == *old(self),
            },
    {
        if amount <= 0 {
            return Err(SavingsGoalError::InvalidAmount);
        }
        match self.goals.get(goal_id) {
            None => {
                return Err(SavingsGoalError::GoalNotFound);
            },
            Some(g) => {
                if g.owner != owner {
                    return Err(SavingsGoalError::Unauthorized);
                }
            },
        }
        if next_due <= now {
            return Err(SavingsGoalError::NextDueNotInFuture);
        }
        let sid = self.next_schedule_id + 1;
        let schedule = SavingsSchedule {
            id: sid,
            owner,
            goal_id,
            amount,
            next_due,
            interval,
            recurring: interval > 0,
            active: true,
            created_at: now,
            last_executed: None,
            missed_count: 0,
        };
        self.schedules.set(sid, schedule);
        self.next_schedule_id = sid;
        Ok(sid)
    }

    /// Creates a deposit schedule of `amount` into a goal of `owner`, first
    /// due at `next_due` (in the future) and repeating every `interval`
    /// seconds when that is positive; its identifier is one past the last one.
    pub fn create_savings_schedule(
        &mut self,
        owner: Address,
        goal_id: u32,
        amount: i128,
        next_due: u64,
        interval: u64,
        now: u64,
    ) -> (sid: u32)
        requires
            old(self).wf(),
            old(self).create_schedule_error(owner, goal_id, amount, next_due, now) is None,
            old(self).next_schedule_id < u32::MAX,
        ensures
            final(self).wf(),
            next_due > now,
            sid == old(self).next_schedule_id + 1,
            final(self).next_schedule_id == sid,
            final(self).schedules@ == old(self).schedules@.insert(
                sid,
                SavingsSchedule {
                    id: sid,
                    owner,
                    goal_id,
                    amount,
                    next_due,
                    interval,
                    recurring: interval > 0,
                    active: true,
                    created_at: now,
                    last_executed: None,
                    missed_count: 0,
                },
            ),
            final(self).same_besides_schedules(&*old(self)),
    {
        self.try_create_savings_schedule(owner, goal_id, amount, next_due, interval, now).unwrap()
    }

    /// Changes a deposit schedule when the request is valid, and otherwise
    /// reports why it is refused, changing nothing.
    pub fn try_modify_savings_schedule(
        &mut self,
        caller: Address,
        schedule_id: u32,
        amount: i128,
        next_due: u64,
        interval: u64,
        now: u64,
    ) -> (r: Result<bool, SavingsGoalError>)
        requires
            old(self).wf(),
        ensures
            final(self).wf(),
            r is Ok ==> next_due > now,
            match r {
                Ok(b) => {
                    &&& b
                    &&& old(self).modify_schedule_error(caller, schedule_id, amount, next_due, now)
                        is None
                    &&& final(self).schedules@ == old(self).schedules@.insert(
                        schedule_id,
                        SavingsSchedule {
                            amount,
                            next_due,
                            interval,
                            recurring: interval > 0,
                            ..old(self).schedules@[schedule_id]
                        },
                    )
                    &&& final(self).next_schedule_id == old(self).next_schedule_id
                    &&& final(self).same_besides_schedules(&*old(self))
                },
                Err(e) => old(self).modify_schedule_error(caller, schedule_id, amount, next_due, now)
                    == Some(e) && *final(self) == *old(self),
            },
    {
        if amount <= 0 {
            return Err(SavingsGoalError::InvalidAmount);
        }
        if next_due <= now {
            return Err(SavingsGoalError::NextDueNotInFuture);
        }
        let mut schedule = match self.schedules.get(schedule_id) {
            None => {
                return Err(SavingsGoalError::ScheduleNotFound);
            },
            Some(s) => *s,
        };
        if schedule.owner != caller {
            return Err(SavingsGoalError::Unauthorized);
        }
        schedule.amount = amount;
        schedule.next_due = next_due;
        schedule.interval = interval;
        schedule.recurring = interval > 0;
        self.schedules.set(schedule_id, schedule);
        Ok(true)
    }

    /// Changes the amount and timing of a deposit schedule of the caller.
    pub fn modify_savings_schedule(
        &mut self,
        caller: Address,
        schedule_id: u32,
        amount: i128,
        next_due: u64,
        interval: u64,
        now: u64,
    ) -> (b: bool)
        requires
            old(self).wf(),
            old(self).modify_schedule_error(caller, schedule_id, amount, next_due, now) is None,
        ensures
            final(self).wf(),
            next_due > now,
            b,
            final(self).schedules@ == old(self).schedules@.insert(
                schedule_id,
                SavingsSchedule {
                    amount,
                    next_due,
                    interval,
                    recurring: interval > 0,
                    ..old(self).schedules@[schedule_id]
                },
            ),
            final(self).next_schedule_id == old(self).next_schedule_id,
            final(self).same_besides_schedules(&*old(self)),
    {
        self.try_modify_savings_schedule(caller, schedule_id, amount, next_due, interval, now).unwrap()
    }

    /// Deactivates a deposit schedule when the request is valid, and
    /// otherwise reports why it is refused, changing nothing.
    pub fn try_cancel_savings_schedule(&mut self, caller: Address, schedule_id: u32) -> (r: Result<
        bool,
        SavingsGoalError,
    >)
        requires
            old(self).wf(),
        ensures
            final(self).wf(),
            match r {
                Ok(b) => {
                    &&& b
                    &&& old(self).cancel_schedule_error(caller, schedule_id) is None
                    &&& final(self).schedules@ == old(self).schedules@.insert(
                        schedule_id,
                        SavingsSchedule { active: false, ..old(self).schedules@[schedule_id] },
                    )
                    &&& final(self).next_schedule_id == old(self).next_schedule_id
                    &&& final(self).same_besides_schedules(&*old(self))
                },
                Err(e) => old(self).cancel_schedule_error(caller, schedule_id) == Some(e) && *final(self) == *old(self),
            },
    {
        let mut schedule = match self.schedules.get(schedule_id) {
            None => {
                return Err(SavingsGoalError::ScheduleNotFound);
            },
            Some(s) => *s,
        };
        if schedule.owner != caller {
            return Err(SavingsGoalError::Unauthorized);
        }
        schedule.active = false;
        self.schedules.set(schedule_id, schedule);
        Ok(true)
    }

    /// Deactivates a deposit schedule of the caller.
    pub fn cancel_savings_schedule(&mut self, caller: Address, schedule_id: u32) -> (b: bool)
        requires
            old(self).wf(),
            old(self).cancel_schedule_error(caller, schedule_id) is None,
        ensures
            final(self).wf(),
            b,
            final(self).schedules@ == old(self).schedules@.insert(
                schedule_id,
                SavingsSchedule { active: false, ..old(self).schedules@[schedule_id] },
            ),
            final(self).next_schedule_id == old(self).next_schedule_id,
            final(self).same_besides_schedules(&*old(self)),
    {
        self.try_cancel_savings_schedule(caller, schedule_id).unwrap()
    }

    /// The deposit schedules of `owner`, in identifier order.
    pub fn get_savings_schedules(&self, owner: Address) -> (r: Vec<SavingsSchedule>)
        ensures
            r@ == self.schedules.values().filter(is_savings_schedule_of(owner)),
    {
        let r = self.schedules.select(&SavingsScheduleOf { owner });
        assert(criterion_pred(SavingsScheduleOf { owner }) =~= is_savings_schedule_of(owner));
        r
    }

    pub fn get_savings_schedule(&self, schedule_id: u32) -> (r: Option<SavingsSchedule>)
        requires
            self.wf(),
        ensures
            r == if self.schedules@.contains_key(schedule_id) {
                Some(self.schedules@[schedule_id])
            } else {
                None
            },
    {
        match self.schedules.get(schedule_id) {
            Some(s) => Some(*s),
            None => None,
        }
    }
}


/// Goals exported in a snapshot: identifiers from 1 up to the counter.
pub struct InExportRange {
    pub next_id: u32,
}

impl Criterion<SavingsGoal> for InExportRange {
    open spec fn holds(&self, g: SavingsGoal) -> bool {
        1 <= g.id <= self.next_id
    }

    fn test(&self, g: &SavingsGoal) -> (r: bool) {
        1 <= g.id && g.id <= self.next_id
    }
}

pub open spec fn is_exportable(next_id: u32) -> spec_fn(SavingsGoal) -> bool {
    |g: SavingsGoal| 1 <= g.id <= next_id
}

proof fn lemma_wrap_add(a: int, y: int)
    requires
        0 <= y < 0x1_0000_0000_0000_0000int,
    ensures
        ({
            let m = 0x1_0000_0000_0000_0000int;
            let z = a % m + y;
            (if z > u64::MAX {
                z - m
            } else {
                z
            }) == (a + y) % m
        }),
{
    let m = 0x1_0000_0000_0000_0000int;
    vstd::arithmetic::div_mod::lemma_add_mod_noop(a, y, m);
    vstd::arithmetic::div_mod::lemma_small_mod(y as nat, m as nat);
    let r = a % m;
    assert(0 <= r < m);
    let z = r + y;
    if z >= m {
        vstd::arithmetic::div_mod::lemma_small_mod((z - m) as nat, m as nat);
        vstd::arithmetic::div_mod::lemma_mod_sub_multiples_vanish(z, m);
    } else {
        vstd::arithmetic::div_mod::lemma_small_mod(z as nat, m as nat);
    }
}

/// Deposits of a prefix never exceed those of the whole (amounts are positive).
proof fn lemma_due_deposits_prefix(s: Seq<(u32, SavingsSchedule)>, goal: u32, now: u64, i: int)
    requires
        0 <= i <= s.len(),
        forall|j: int| 0 <= j < s.len() ==> #[trigger] s[j].1.amount > 0,
    ensures
        0 <= due_deposits(s.take(i), goal, now) <= due_deposits(s, goal, now),
    decreases s.len() - i,
{
    if i == s.len() {
        assert(s.take(i) =~= s);
        lemma_due_deposits_nonneg(s, goal, now);
    } else {
        lemma_due_deposits_prefix(s, goal, now, i + 1);
        assert(s.take(i + 1).drop_last() =~= s.take(i));
        lemma_due_deposits_nonneg(s.take(i), goal, now);
    }
}

proof fn lemma_due_deposits_nonneg(s: Seq<(u32, SavingsSchedule)>, goal: u32, now: u64)
    requires
        forall|j: int| 0 <= j < s.len() ==> #[trigger] s[j].1.amount > 0,
    ensures
        due_deposits(s, goal, now) >= 0,
    decreases s.len(),
{
    if s.len() > 0 {
        assert(forall|j: int| 0 <= j < s.drop_last().len() ==> s.drop_last()[j] == s[j]);
        lemma_due_deposits_nonneg(s.drop_last(), goal, now);
    }
}

/// The checksum of `goals` for a snapshot of `version` and counter `next_id`.
pub fn compute_goals_checksum(version: u32, next_id: u32, goals: &Vec<SavingsGoal>) -> (c: u64)
    ensures
        c == goals_checksum(version, next_id, goals@),
{
    let ghost m: int = 0x1_0000_0000_0000_0000int;
    let mut c: u64 = version as u64 + next_id as u64;
    let n = goals.len();
    let mut i: usize = 0;
    assert(goals@.take(0) =~= Seq::<SavingsGoal>::empty());
    proof {
        vstd::arithmetic::div_mod::lemma_small_mod(c as nat, m as nat);
    }
    while i < n
        invariant
            n == goals@.len(),
            i <= n,
            m == 0x1_0000_0000_0000_0000int,
            c == (version + next_id + checksum_sum(goals@.take(i as int))) % m,
        decreases n - i,
    {
        let g = &goals[i];
        let ghost a0 = version + next_id + checksum_sum(goals@.take(i as int));
        assert(goals@.take(i + 1).drop_last() =~= goals@.take(i as int));
        let t = match g.target_amount.checked_rem_euclid(TWO_POW_64) {
            Some(x) => x as u64,
            None => 0,
        };
        let u = match g.current_amount.checked_rem_euclid(TWO_POW_64) {
            Some(x) => x as u64,
            None => 0,
        };
        assert(t == low64(g.target_amount));
        assert(u == low64(g.current_amount));
        proof {
            lemma_wrap_add(a0, g.id as int);
        }
        let c1 = c.wrapping_add(g.id as u64);
        proof {
            lemma_wrap_add(a0 + g.id, t as int);
        }
        let c2 = c1.wrapping_add(t);
        proof {
            lemma_wrap_add(a0 + g.id + t, u as int);
        }
        c = c2.wrapping_add(u);
        i += 1;
    }
    assert(goals@.take(n as int) =~= goals@);
    c.wrapping_mul(31)
}

impl SavingsGoalContract {
    /// All goals numbered from 1 up to the identifier counter, in order,
    /// with version and checksum.
    pub fn export_snapshot(&self, caller: Address) -> (snap: GoalsExportSnapshot)
        requires
            self.wf(),
        ensures
            snap.version == 1,
            snap.next_id == self.next_id,
            snap.goals@ == self.goals.values().filter(is_exportable(self.next_id)),
            snap.checksum == goals_checksum(1, self.next_id, snap.goals@),
    {
        let list = self.goals.select(&InExportRange { next_id: self.next_id });
        assert(criterion_pred(InExportRange { next_id: self.next_id }) =~= is_exportable(
            self.next_id,
        ));
        let checksum = compute_goals_checksum(SNAPSHOT_VERSION, self.next_id, &list);
        GoalsExportSnapshot { version: SNAPSHOT_VERSION, checksum, next_id: self.next_id, goals: list }
    }

    /// Imports a snapshot when the request is valid, and otherwise reports
    /// why it is refused, changing nothing.
    pub fn try_import_snapshot(
        &mut self,
        caller: Address,
        nonce: u64,
        snapshot: GoalsExportSnapshot,
        now: u64,
    ) -> (r: Result<bool, SavingsGoalError>)
        requires
            old(self).wf(),
        ensures
            final(self).wf(),
            match r {
                Ok(b) => {
                    &&& b
                    &&& old(self).import_error(
                        caller,
                        nonce,
                        snapshot.version,
                        snapshot.checksum,
                        snapshot.next_id,
                        snapshot.goals@,
                    ) is None
                    &&& final(self).goals@ == goals_from_list(snapshot.goals@)
                    &&& final(self).next_id == snapshot.next_id
                    &&& final(self).nonces@ == old(self).nonces@.insert(caller, (nonce + 1) as u64)
                    &&& audit_records(old(self).audit@, final(self).audit@, "import"@, caller, now)
                    &&& final(self).schedules == old(self).schedules
                    &&& final(self).next_schedule_id == old(self).next_schedule_id
                    &&& final(self).persistent_ready == old(self).persistent_ready
                },
                Err(e) => old(self).import_error(
                    caller,
                    nonce,
                    snapshot.version,
                    snapshot.checksum,
                    snapshot.next_id,
                    snapshot.goals@,
                ) == Some(e) && *final(self) == *old(self),
            },
    {
        let current = self.get_nonce(caller);
        if nonce != current {
            return Err(SavingsGoalError::InvalidNonce);
        }
        if snapshot.version != SNAPSHOT_VERSION {
            return Err(SavingsGoalError::UnsupportedSnapshotVersion);
        }
        let expected = compute_goals_checksum(snapshot.version, snapshot.next_id, &snapshot.goals);
        if snapshot.checksum != expected {
            return Err(SavingsGoalError::SnapshotChecksumMismatch);
        }
        if nonce == u64::MAX {
            return Err(SavingsGoalError::Overflow);
        }
        let ghost list = snapshot.goals@;
        let n = snapshot.goals.len();
        let mut goals: IdMap<SavingsGoal> = IdMap::new();
        let mut i: usize = 0;
        while i < n
            invariant
                n == list.len(),
                list == snapshot.goals@,
                i <= n,
                goals.wf(),
                goals@ == goals_from_list(list.take(i as int)),
                forall|k: u32| #[trigger] goals@.contains_key(k) ==> goals@[k].id == k,
            decreases n - i,
        {
            let g = snapshot.goals[i].clone();
            assert(list.take(i + 1).drop_last() =~= list.take(i as int));
            goals.set(g.id, g);
            i += 1;
        }
        assert(list.take(n as int) =~= list);
        self.goals = goals;
        self.next_id = snapshot.next_id;
        self.nonces.set(caller, nonce + 1);
        self.append_audit("import", caller, now);
        Ok(true)
    }

    /// Replaces all goals and the identifier counter by those of a snapshot
    /// whose version and checksum are valid, when the caller presents its
    /// current nonce; the nonce then advances.
    pub fn import_snapshot(
        &mut self,
        caller: Address,
        nonce: u64,
        snapshot: GoalsExportSnapshot,
        now: u64,
    ) -> (b: bool)
        requires
            old(self).wf(),
            old(self).import_error(
                caller,
                nonce,
                snapshot.version,
                snapshot.checksum,
                snapshot.next_id,
                snapshot.goals@,
            ) is None,
        ensures
            final(self).wf(),
            b,
            final(self).goals@ == goals_from_list(snapshot.goals@),
            final(self).next_id == snapshot.next_id,
            final(self).nonces@ == old(self).nonces@.insert(caller, (nonce + 1) as u64),
            audit_records(old(self).audit@, final(self).audit@, "import"@, caller, now),
            final(self).schedules == old(self).schedules,
            final(self).next_schedule_id == old(self).next_schedule_id,
            final(self).persistent_ready == old(self).persistent_ready,
    {
        self.try_import_snapshot(caller, nonce, snapshot, now).unwrap()
    }

    /// Executes the deposit schedules due at `now` when no balance or date
    /// would overflow, and otherwise reports the overflow, changing nothing.
    pub fn try_execute_due_savings_schedules(&mut self, now: u64) -> (r: Result<
        Vec<u32>,
        SavingsGoalError,
    >)
        requires
            old(self).wf(),
        ensures
            final(self).wf(),
            match r {
                Ok(ids) => {
                    &&& !old(self).execution_overflows(now)
                    &&& ids@ == due_savings_ids(old(self).schedules.entries(), now)
                    &&& final(self).schedules@ == savings_after_run(old(self).schedules@, now)
                    &&& final(self).goals@ == goals_after_run(
                        old(self).goals@,
                        old(self).schedules.entries(),
                        now,
                    )
                    &&& final(self).next_id == old(self).next_id
                    &&& final(self).next_schedule_id == old(self).next_schedule_id
                    &&& final(self).nonces == old(self).nonces
                    &&& final(self).audit == old(self).audit
                    &&& final(self).persistent_ready == old(self).persistent_ready
                },
                Err(e) => old(self).execution_overflows(now) && e == SavingsGoalError::Overflow
                    && *final(self) == *old(self),
            },
    {
        let ghost s = self.schedules.entries();
        let ghost start_goals = self.goals@;
        proof {
            assert forall|j: int| 0 <= j < s.len() implies #[trigger] s[j].1.amount > 0 by {
                self.schedules.lemma_entry(j);
            }
        }
        let n = self.schedules.len();
        let mut goals = self.goals.duplicate();
        let mut updated: IdMap<SavingsSchedule> = IdMap::new();
        let mut executed: Vec<u32> = Vec::new();
        let mut i: usize = 0;
        while i < n
            invariant
                n == s.len(),
                s == self.schedules.entries(),
                *self == *old(self),
                self.wf(),
                start_goals == self.goals@,
                forall|j: int| 0 <= j < s.len() ==> #[trigger] s[j].1.amount > 0,
                i <= n,
                goals.wf(),
                goals@ == goals_after_run(start_goals, s.take(i as int), now),
                forall|k: u32| #[trigger]
                    start_goals.contains_key(k) ==> start_goals[k].current_amount + due_deposits(
                        s.take(i as int),
                        k,
                        now,
                    ) <= i128::MAX,
                forall|j: int|
                    0 <= j < i && savings_due(s[j].1, now) ==> savings_execution_fits(
                        #[trigger] s[j].1,
                        now,
                    ),
                forall|k: u32| #[trigger] goals@.contains_key(k) ==> goals@[k].id == k,
                updated.wf(),
                updated@ == savings_after_run(seq_to_map(s.take(i as int)), now),
                forall|k: u32| #[trigger] updated@.contains_key(k) ==> updated@[k].amount > 0,
                executed@ == due_savings_ids(s.take(i as int), now),
            decreases n - i,
        {
            let k = self.schedules.key_at(i);
            let sched = *self.schedules.value_at(i);
            let ghost t0 = s.take(i as int);
            let ghost t1 = s.take(i + 1);
            proof {
                lemma_take_step(s, i as int);
                self.schedules.lemma_entry(i as int);
                assert(t1.drop_last() =~= t0);
                assert(t1.last() == s[i as int]);
                assert forall|g: u32| #![auto]
                    due_deposits(t1, g, now) == due_deposits(t0, g, now) + if savings_due(sched, now)
                        && sched.goal_id == g {
                        sched.amount as int
                    } else {
                        0
                    } by {}
            }
            if sched.active && sched.next_due <= now {
                let gid = sched.goal_id;
                match goals.get(gid) {
                    Some(g) => {
                        let mut g2 = g.clone();
                        proof {
                            lemma_due_deposits_prefix(s, gid, now, i as int);
                            lemma_due_deposits_prefix(s, gid, now, i + 1);
                            assert(start_goals.contains_key(gid));
                            assert(g2.current_amount == start_goals[gid].current_amount
                                + due_deposits(t0, gid, now));
                        }
                        match g2.current_amount.checked_add(sched.amount) {
                            None => {
                                proof {
                                    assert(self.goals@.contains_key(gid));
                                    assert(self.goals@[gid].current_amount + due_deposits(
                                        self.schedules.entries(),
                                        gid,
                                        now,
                                    ) > i128::MAX);
                                    assert(self.execution_overflows(now));
                                }
                                return Err(SavingsGoalError::Overflow);
                            },
                            Some(total) => {
                                g2.current_amount = total;
                            },
                        }
                        goals.set(gid, g2);
                        proof {
                            assert forall|x: u32| #[trigger] goals@.contains_key(x) implies goals@[x]
                                == goals_after_run(start_goals, t1, now)[x] by {
                                if x != gid {
                                    assert(due_deposits(t1, x, now) == due_deposits(t0, x, now));
                                }
                            }
                            assert(goals@ =~= goals_after_run(start_goals, t1, now));
                        }
                    },
                    None => {
                        proof {
                            assert forall|x: u32| #[trigger] goals@.contains_key(x) implies goals@[x]
                                == goals_after_run(start_goals, t1, now)[x] by {
                                assert(x != gid);
                                assert(due_deposits(t1, x, now) == due_deposits(t0, x, now));
                            }
                            assert(goals@ =~= goals_after_run(start_goals, t1, now));
                        }
                    },
                }
                let mut next = sched;
                next.last_executed = Some(now);
                if sched.recurring && sched.interval > 0 {
                    match try_catch_up(sched.next_due, sched.interval, now) {
                        None => {
                            proof {
                                assert(self.schedules@.contains_key(k));
                            }
                            return Err(SavingsGoalError::Overflow);
                        },
                        Some(p) => {
                            let (due, missed) = p;
                            if missed > (u32::MAX - sched.missed_count) as u64 {
                                proof {
                                    assert(self.schedules@.contains_key(k));
                                }
                                return Err(SavingsGoalError::Overflow);
                            }
                            next.missed_count = sched.missed_count + (missed as u32);
                            next.next_due = due;
                        },
                    }
                } else {
                    next.active = false;
                }
                updated.set(k, next);
                executed.push(k);
                proof {
                    assert(updated@ =~= savings_after_run(seq_to_map(t1), now));
                }
            } else {
                updated.set(k, sched);
                proof {
                    assert(goals@ =~= goals_after_run(start_goals, t1, now));
                    assert(updated@ =~= savings_after_run(seq_to_map(t1), now));
                }
            }
            i += 1;
        }
        proof {
            assert(s.take(n as int) =~= s);
            assert forall|k: u32| #[trigger]
                self.schedules@.contains_key(k) && savings_due(self.schedules@[k], now)
                    implies savings_execution_fits(self.schedules@[k], now) by {
                let j = self.schedules.lemma_key(k);
            }
        }
        self.goals = goals;
        self.schedules = updated;
        Ok(executed)
    }

    /// Executes every deposit schedule due at `now` (any caller may): each
    /// deposits into its goal, recurring schedules catch up past `now` and
    /// one-off schedules retire.  Returns the executed schedule identifiers
    /// in ascending order.
    pub fn execute_due_savings_schedules(&mut self, now: u64) -> (ids: Vec<u32>)
        requires
            old(self).wf(),
            !old(self).execution_overflows(now),
        ensures
            final(self).wf(),
            ids@ == due_savings_ids(old(self).schedules.entries(), now),
            final(self).schedules@ == savings_after_run(old(self).schedules@, now),
            final(self).goals@ == goals_after_run(old(self).goals@, old(self).schedules.entries(), now),
            final(self).next_id == old(self).next_id,
            final(self).next_schedule_id == old(self).next_schedule_id,
            final(self).nonces == old(self).nonces,
            final(self).audit == old(self).audit,
            final(self).persistent_ready == old(self).persistent_ready,
    {
        self.try_execute_due_savings_schedules(now).unwrap()
    }

    /// One page of the goals of `owner`, in identifier order, starting after
    /// the goal named by `cursor`.
    pub fn get_goals_paginated(&self, owner: Address, cursor: Option<u32>, limit: Option<u32>) -> (r:
        GoalsPage)
        requires
            self.wf(),
        ensures
            ({
                let list = self.goals.values().filter(is_goal_of(owner));
                match page_start(list, cursor) {
                    None => r.goals@.len() == 0 && !r.has_more && r.next_cursor is None,
                    Some(st) => {
                        let end = vstd::math::min(st + page_limit(limit), list.len() as int);
                        &&& r.goals@ == list.subrange(st, end)
                        &&& r.has_more == (end < list.len())
                        &&& r.next_cursor == if end < list.len() {
                            Some(list[end - 1].id)
                        } else {
                            None::<u32>
                        }
                    },
                }
            }),
    {
        let list = self.get_all_goals(owner);
        let ghost l = list@;
        let lim: usize = match limit {
            None => 20,
            Some(x) => if x == 0 {
                1
            } else if x > MAX_PAGE_LIMIT {
                100
            } else {
                x as usize
            },
        };
        let len = list.len();
        let start: usize = match cursor {
            None => 0,
            Some(c) => {
                let mut j: usize = 0;
                while j < len && list[j].id != c
                    invariant
                        len == l.len(),
                        l == list@,
                        j <= len,
                        forall|q: int| 0 <= q < j ==> l[q].id != c,
                    decreases len - j,
                {
                    j += 1;
                }
                if j == len {
                    return GoalsPage { goals: Vec::new(), next_cursor: None, has_more: false };
                }
                proof {
                    assert(l[j as int].id == c);
                    assert(exists|q: int| 0 <= q < l.len() && l[q].id == c && forall|p: int|
                        0 <= p < q ==> l[p].id != c);
                    let w = choose|q: int| 0 <= q < l.len() && l[q].id == c && forall|p: int|
                        0 <= p < q ==> l[p].id != c;
                    if w < j {
                    } else if w > j {
                        assert(l[j as int].id != c);
                    }
                }
                j + 1
            },
        };
        assert(start <= len);
        let end = if lim < len - start {
            start + lim
        } else {
            len
        };
        let mut out: Vec<SavingsGoal> = Vec::new();
        let mut i = start;
        while i < end
            invariant
                start <= i <= end,
                end <= len,
                len == l.len(),
                l == list@,
                out@ == l.subrange(start as int, i as int),
            decreases end - i,
        {
            let g = list[i].clone();
            out.push(g);
            assert(l.subrange(start as int, i + 1) =~= l.subrange(start as int, i as int).push(
                l[i as int],
            ));
            i += 1;
        }
        let has_more = end < len;
        let next_cursor = if has_more {
            Some(list[end - 1].id)
        } else {
            None
        };
        GoalsPage { goals: out, next_cursor, has_more }
    }
}


/// Withdrawing what was just added to an unlocked goal with a balance that
/// is not negative, whose time lock has passed, is accepted and gives the
/// goals back as they were.
pub proof fn law_withdraw_undoes_add(
    before: &SavingsGoalContract,
    after_add: &SavingsGoalContract,
    caller: Address,
    goal_id: u32,
    amount: i128,
    now: u64,
)
    requires
        before.wf(),
        before.add_error(caller, goal_id, amount) is None,
        after_add.goals@ == goal_with_balance(
            before.goals@,
            goal_id,
            (before.goals@[goal_id].current_amount + amount) as i128,
        ),
        !before.goals@[goal_id].locked,
        before.goals@[goal_id].current_amount >= 0,
        before.goals@[goal_id].unlock_date is Some ==> before.goals@[goal_id].unlock_date->0 <= now,
    ensures
        after_add.withdraw_error(caller, goal_id, amount, now) is None,
        goal_with_balance(
            after_add.goals@,
            goal_id,
            (after_add.goals@[goal_id].current_amount - amount) as i128,
        ) == before.goals@,
{
    let g = before.goals@;
    let h = goal_with_balance(g, goal_id, (g[goal_id].current_amount + amount) as i128);
    assert(goal_with_balance(h, goal_id, (h[goal_id].current_amount - amount) as i128) =~= g);
}

proof fn lemma_list_restores_entries(s: Seq<(u32, SavingsGoal)>, next_id: u32)
    requires
        keys_increasing(s),
        forall|i: int| 0 <= i < s.len() ==> (#[trigger] s[i]).1.id == s[i].0,
    ensures
        goals_from_list(seq_values(s).filter(is_exportable(next_id))) == seq_to_map(s).restrict(
            Set::new(|k: u32| 1 <= k <= next_id),
        ),
    decreases s.len(),
{
    let keep = Set::new(|k: u32| 1 <= k <= next_id);
    if s.len() == 0 {
        reveal(Seq::filter);
        assert(seq_values(s).filter(is_exportable(next_id)) =~= Seq::<SavingsGoal>::empty());
        assert(seq_to_map(s).restrict(keep) =~= Map::<u32, SavingsGoal>::empty());
    } else {
        let rest = s.drop_last();
        let last = s.last();
        assert(keys_increasing(rest));
        lemma_list_restores_entries(rest, next_id);
        assert(seq_values(rest).push(last.1) =~= seq_values(s));
        seq_values(rest).lemma_filter_push(last.1, is_exportable(next_id));
        let f = seq_values(rest).filter(is_exportable(next_id));
        assert(f.push(last.1).drop_last() =~= f);
        lemma_take_step(s, s.len() - 1);
        assert(s.take(s.len() - 1) =~= rest);
        assert(s.take(s.len() as int) =~= s);
        assert(seq_to_map(s).restrict(keep) =~= if 1 <= last.0 <= next_id {
            seq_to_map(rest).restrict(keep).insert(last.0, last.1)
        } else {
            seq_to_map(rest).restrict(keep)
        });
    }
}

/// Importing a snapshot that `export_snapshot` produced, into this or any
/// other contract and whatever changed there since, with the caller's
/// current nonce, is accepted and restores every exported goal (those
/// numbered from 1 up to the counter) and the identifier counter.
pub proof fn law_import_restores_export(
    s: &SavingsGoalContract,
    u: &SavingsGoalContract,
    caller: Address,
    snap: GoalsExportSnapshot,
)
    requires
        s.wf(),
        u.nonce_of(caller) < u64::MAX,
        snap.version == 1,
        snap.next_id == s.next_id,
        snap.goals@ == s.goals.values().filter(is_exportable(s.next_id)),
        snap.checksum == goals_checksum(1, s.next_id, snap.goals@),
    ensures
        u.import_error(
            caller,
            u.nonce_of(caller),
            snap.version,
            snap.checksum,
            snap.next_id,
            snap.goals@,
        ) is None,
        goals_from_list(snap.goals@) == s.goals@.restrict(Set::new(|k: u32| 1 <= k <= s.next_id)),
{
    let e = s.goals.entries();
    assert forall|i: int| 0 <= i < e.len() implies (#[trigger] e[i]).1.id == e[i].0 by {
        lemma_entry_in_map(e, i);
    }
    lemma_list_restores_entries(e, s.next_id);
}


proof fn lemma_filter_keeps_ids_increasing(s: Seq<SavingsGoal>, p: spec_fn(SavingsGoal) -> bool)
    requires
        forall|i: int, j: int| 0 <= i < j < s.len() ==> s[i].id < s[j].id,
    ensures
        forall|i: int, j: int|
            0 <= i < j < s.filter(p).len() ==> s.filter(p)[i].id < s.filter(p)[j].id,
    decreases s.len(),
{
    if s.len() == 0 {
        reveal(Seq::filter);
    } else {
        let rest = s.drop_last();
        let last = s.last();
        lemma_filter_keeps_ids_increasing(rest, p);
        rest.lemma_filter_push(last, p);
        assert(rest.push(last) =~= s);
        let f = rest.filter(p);
        assert forall|i: int| 0 <= i < f.len() implies f[i].id < last.id by {
            assert(f.contains(f[i]));
            rest.lemma_filter_contains_rev(p, f[i]);
            let k = choose|k: int| 0 <= k < rest.len() && rest[k] == f[i];
            assert(s[k] == rest[k]);
        }
    }
}

/// Asking for the page after the cursor that a page returned continues
/// exactly where that page ended: consecutive pages neither skip nor repeat
/// a goal.
pub proof fn law_next_page_follows(
    s: &SavingsGoalContract,
    owner: Address,
    cursor: Option<u32>,
    limit: Option<u32>,
)
    requires
        s.wf(),
    ensures
        ({
            let list = s.goals.values().filter(is_goal_of(owner));
            match page_start(list, cursor) {
                Some(st) => {
                    let end = vstd::math::min(st + page_limit(limit), list.len() as int);
                    end < list.len() ==> page_start(list, Some(list[end - 1].id)) == Some(end)
                },
                None => true,
            }
        }),
{
    let e = s.goals.entries();
    let vals = s.goals.values();
    assert forall|i: int, j: int| 0 <= i < j < vals.len() implies vals[i].id < vals[j].id by {
        lemma_entry_in_map(e, i);
        lemma_entry_in_map(e, j);
    }
    lemma_filter_keeps_ids_increasing(vals, is_goal_of(owner));
    let list = vals.filter(is_goal_of(owner));
    if let Some(st) = page_start(list, cursor) {
        let end = vstd::math::min(st + page_limit(limit), list.len() as int);
        if end < list.len() {
            let c = list[end - 1].id;
            assert(0 <= end - 1 < list.len() && list[end - 1].id == c);
            let j = choose|j: int|
                0 <= j < list.len() && list[j].id == c && forall|p: int| 0 <= p < j ==> list[p].id != c;
            assert(0 <= end - 1 && forall|p: int| 0 <= p < end - 1 ==> list[p].id != c);
            if j < end - 1 {
                assert(list[j].id < list[end - 1].id);
            } else if j > end - 1 {
                assert(list[end - 1].id != c);
            }
        }
    }
}

/// The entries that a list of goals with increasing identifiers makes, each
/// goal under its identifier.
spec fn entries_of_list(goals: Seq<SavingsGoal>) -> Seq<(u32, SavingsGoal)> {
    goals.map_values(|g: SavingsGoal| (g.id, g))
}

proof fn lemma_list_entries(goals: Seq<SavingsGoal>)
    requires
        forall|i: int, j: int| 0 <= i < j < goals.len() ==> goals[i].id < goals[j].id,
    ensures
        keys_increasing(entries_of_list(goals)),
        seq_to_map(entries_of_list(goals)) == goals_from_list(goals),
    decreases goals.len(),
{
    let e = entries_of_list(goals);
    assert(keys_increasing(e));
    if goals.len() == 0 {
        assert(seq_to_map(e) =~= Map::<u32, SavingsGoal>::empty());
    } else {
        let n = goals.len() - 1;
        lemma_list_entries(goals.drop_last());
        lemma_take_step(e, n);
        assert(e.take(n) =~= entries_of_list(goals.drop_last()));
        assert(e.take(n + 1) =~= e);
    }
}

proof fn lemma_filter_keeps_all(s: Seq<SavingsGoal>, p: spec_fn(SavingsGoal) -> bool)
    requires
        forall|i: int| 0 <= i < s.len() ==> p(#[trigger] s[i]),
    ensures
        s.filter(p) == s,
    decreases s.len(),
{
    if s.len() == 0 {
        reveal(Seq::filter);
        assert(s.filter(p) =~= s);
    } else {
        let rest = s.drop_last();
        lemma_filter_keeps_all(rest, p);
        rest.lemma_filter_push(s.last(), p);
        assert(rest.push(s.last()) =~= s);
    }
}

/// Exporting again right after importing an exported snapshot gives that
/// snapshot back: the same version, counter, goals in the same order, and
/// checksum. The caller's nonce has moved on by one, so the same import
/// repeated is refused for its nonce.
pub proof fn law_export_after_import(
    s: &SavingsGoalContract,
    u: &SavingsGoalContract,
    t: &SavingsGoalContract,
    caller: Address,
    snap: GoalsExportSnapshot,
)
    requires
        s.wf(),
        t.wf(),
        u.nonce_of(caller) < u64::MAX,
        t.nonces@ == u.nonces@.insert(caller, (u.nonce_of(caller) + 1) as u64),
        snap.version == 1,
        snap.next_id == s.next_id,
        snap.goals@ == s.goals.values().filter(is_exportable(s.next_id)),
        snap.checksum == goals_checksum(1, s.next_id, snap.goals@),
        t.goals@ == goals_from_list(snap.goals@),
        t.next_id == snap.next_id,
    ensures
        t.goals.values().filter(is_exportable(t.next_id)) == snap.goals@,
        goals_checksum(1, t.next_id, t.goals.values().filter(is_exportable(t.next_id))) == snap.checksum,
        t.nonce_of(caller) == u.nonce_of(caller) + 1,
        t.import_error(
            caller,
            u.nonce_of(caller),
            snap.version,
            snap.checksum,
            snap.next_id,
            snap.goals@,
        ) == Some(SavingsGoalError::InvalidNonce),
{
    let e = s.goals.entries();
    let vals = s.goals.values();
    assert forall|i: int, j: int| 0 <= i < j < vals.len() implies vals[i].id < vals[j].id by {
        lemma_entry_in_map(e, i);
        lemma_entry_in_map(e, j);
    }
    lemma_filter_keeps_ids_increasing(vals, is_exportable(s.next_id));
    let g = snap.goals@;
    broadcast use vstd::seq_lib::group_filter_ensures;
    lemma_list_entries(g);
    lemma_entries_unique(t.goals.entries(), entries_of_list(g));
    assert(t.goals.values() =~= g);
    lemma_filter_keeps_all(g, is_exportable(t.next_id));
}

/// Each recorded operation appends one success entry, naming the operation,
/// its caller and its time, at the end of the audit log. The log never holds
/// more than 100 entries: once full, the oldest entry leaves, and the others
/// stay in the order in which they were recorded.
pub proof fn law_audit_log_capped(
    old_log: Seq<AuditEntry>,
    new_log: Seq<AuditEntry>,
    operation: Seq<char>,
    caller: Address,
    now: u64,
)
    requires
        old_log.len() <= 100,
        audit_records(old_log, new_log, operation, caller, now),
    ensures
        new_log.len() <= 100,
        new_log.len() == if old_log.len() == 100 {
            100
        } else {
            old_log.len() + 1
        },
        new_log.last().operation@ == operation,
        new_log.last().caller == caller,
        new_log.last().timestamp == now,
        new_log.last().success,
        forall|i: int|
            0 <= i < new_log.len() - 1 ==> #[trigger] new_log[i] == old_log[i + if old_log.len() == 100 {
                1int
            } else {
                0int
            }],
{
    assert(success_entry(operation, caller, now)(new_log.last()));
}

proof fn lemma_due_savings_ids(s: Seq<(u32, SavingsSchedule)>, now: u64)
    requires
        keys_increasing(s),
    ensures
        forall|i: int, j: int|
            0 <= i < j < due_savings_ids(s, now).len() ==> due_savings_ids(s, now)[i] < due_savings_ids(
                s,
                now,
            )[j],
        forall|i: int|
            0 <= i < due_savings_ids(s, now).len() ==> exists|j: int|
                0 <= j < s.len() && s[j].0 == #[trigger] due_savings_ids(s, now)[i] && s[j].1.active
                    && s[j].1.next_due <= now,
        forall|j: int|
            0 <= j < s.len() && s[j].1.active && s[j].1.next_due <= now ==> due_savings_ids(
                s,
                now,
            ).contains(#[trigger] s[j].0),
    decreases s.len(),
{
    if s.len() > 0 {
        let r = s.drop_last();
        assert(keys_increasing(r));
        lemma_due_savings_ids(r, now);
        let rest = due_savings_ids(r, now);
        let ids = due_savings_ids(s, now);
        assert forall|i: int| 0 <= i < rest.len() implies rest[i] < s.last().0 by {
            let j = choose|j: int|
                0 <= j < r.len() && r[j].0 == rest[i] && r[j].1.active && r[j].1.next_due <= now;
            assert(s[j] == r[j]);
        }
        assert forall|i: int|
            0 <= i < ids.len() implies exists|j: int|
                0 <= j < s.len() && s[j].0 == #[trigger] ids[i] && s[j].1.active && s[j].1.next_due
                    <= now by {
            if i < rest.len() {
                assert(ids[i] == rest[i]);
                let j = choose|j: int|
                    0 <= j < r.len() && r[j].0 == rest[i] && r[j].1.active && r[j].1.next_due <= now;
                assert(s[j] == r[j]);
            } else {
                assert(s[s.len() - 1] == s.last());
            }
        }
        assert forall|j: int| 0 <= j < s.len() && s[j].1.active && s[j].1.next_due <= now implies ids.contains(
            #[trigger] s[j].0,
        ) by {
            if j < s.len() - 1 {
                assert(s[j] == r[j]);
                let k = choose|k: int| 0 <= k < rest.len() && rest[k] == r[j].0;
                assert(ids[k] == rest[k]);
            } else {
                assert(ids[ids.len() - 1] == s.last().0);
            }
        }
    }
}

proof fn lemma_no_due_deposits(s: Seq<(u32, SavingsSchedule)>, goal: u32, now: u64)
    requires
        forall|j: int|
            0 <= j < s.len() && (#[trigger] s[j]).1.active && s[j].1.next_due <= now ==> s[j].1.goal_id
                != goal,
    ensures
        due_deposits(s, goal, now) == 0,
    decreases s.len(),
{
    if s.len() > 0 {
        let r = s.drop_last();
        assert forall|j: int|
            0 <= j < r.len() && (#[trigger] r[j]).1.active && r[j].1.next_due <= now implies r[j].1.goal_id
                != goal by {
            assert(r[j] == s[j]);
        }
        lemma_no_due_deposits(r, goal, now);
        assert(s[s.len() - 1] == s.last());
    }
}

proof fn lemma_savings_run_catch_up(before: &SavingsGoalContract, ids: Seq<u32>, now: u64, k: u32)
    requires
        before.wf(),
        !before.execution_overflows(now),
        ids == due_savings_ids(before.schedules.entries(), now),
        ids.contains(k),
        before.schedules@[k].recurring,
        before.schedules@[k].interval > 0,
    ensures
        ({
            let b = before.schedules@[k];
            let a = savings_after_run(before.schedules@, now)[k];
            &&& a.active
            &&& a.next_due > now
            &&& a.next_due - b.interval <= now
            &&& a.next_due == b.next_due + (a.missed_count - b.missed_count + 1) * b.interval
        }),
{
    let e = before.schedules.entries();
    lemma_due_savings_ids(e, now);
    let i = choose|i: int| 0 <= i < ids.len() && ids[i] == k;
    let j = choose|j: int| 0 <= j < e.len() && e[j].0 == ids[i] && e[j].1.active && e[j].1.next_due <= now;
    lemma_entry_in_map(e, j);
    let b = before.schedules@[k];
    assert(savings_due(b, now));
    assert(savings_execution_fits(b, now));
    lemma_caught_up_is_first_after(b.next_due, b.interval, now);
}

/// One keeper run executes exactly the active schedules whose due date has
/// come, reporting their identifiers once each in ascending order; a
/// cancelled schedule, or a one-off schedule that already ran, is skipped
/// and left as it was. Every executed schedule records the run; a one-off
/// one retires, and a recurring one stays active and moves on by whole
/// intervals to its first due date after `now`, counting as missed the
/// intervals it skipped. A goal that no executed schedule feeds keeps its
/// balance.
pub proof fn law_savings_run_executes_only_active_due(
    before: &SavingsGoalContract,
    after: &SavingsGoalContract,
    ids: Seq<u32>,
    now: u64,
)
    requires
        before.wf(),
        !before.execution_overflows(now),
        ids == due_savings_ids(before.schedules.entries(), now),
        after.schedules@ == savings_after_run(before.schedules@, now),
        after.goals@ == goals_after_run(before.goals@, before.schedules.entries(), now),
    ensures
        forall|i: int, j: int| 0 <= i < j < ids.len() ==> ids[i] < ids[j],
        forall|k: u32|
            ids.contains(k) <==> (before.schedules@.contains_key(k) && before.schedules@[k].active
                && before.schedules@[k].next_due <= now),
        forall|k: u32|
            #[trigger] before.schedules@.contains_key(k) && !ids.contains(k) ==> after.schedules@[k]
                == before.schedules@[k],
        forall|k: u32|
            #[trigger] ids.contains(k) ==> after.schedules@[k].last_executed == Some(now) && (!(
            before.schedules@[k].recurring && before.schedules@[k].interval > 0)
                ==> !after.schedules@[k].active),
        forall|g: u32|
            #[trigger] before.goals@.contains_key(g) && (forall|k: u32|
                ids.contains(k) ==> before.schedules@[k].goal_id != g) ==> after.goals@[g]
                == before.goals@[g],
        forall|k: u32|
            #[trigger] ids.contains(k) && before.schedules@[k].recurring && before.schedules@[k].interval
                > 0 ==> {
                let b = before.schedules@[k];
                let a = after.schedules@[k];
                &&& a.active
                &&& a.next_due > now
                &&& a.next_due - b.interval <= now
                &&& a.next_due == b.next_due + (a.missed_count - b.missed_count + 1) * b.interval
            },
{
    assert forall|k: u32|
        #[trigger] ids.contains(k) && before.schedules@[k].recurring && before.schedules@[k].interval
            > 0 implies {
            let b = before.schedules@[k];
            let a = after.schedules@[k];
            &&& a.active
            &&& a.next_due > now
            &&& a.next_due - b.interval <= now
            &&& a.next_due == b.next_due + (a.missed_count - b.missed_count + 1) * b.interval
        } by {
        lemma_savings_run_catch_up(before, ids, now, k);
    }
    let e = before.schedules.entries();
    lemma_due_savings_ids(e, now);
    assert forall|k: u32|
        ids.contains(k) <==> (before.schedules@.contains_key(k) && before.schedules@[k].active
            && before.schedules@[k].next_due <= now) by {
        if ids.contains(k) {
            let i = choose|i: int| 0 <= i < ids.len() && ids[i] == k;
            let j = choose|j: int|
                0 <= j < e.len() && e[j].0 == ids[i] && e[j].1.active && e[j].1.next_due <= now;
            lemma_entry_in_map(e, j);
        }
        if before.schedules@.contains_key(k) && before.schedules@[k].active
            && before.schedules@[k].next_due <= now {
            before.schedules.lemma_key(k);
        }
    }
    assert forall|g: u32|
        #[trigger] before.goals@.contains_key(g) && (forall|k: u32|
            ids.contains(k) ==> before.schedules@[k].goal_id != g) implies after.goals@[g]
            == before.goals@[g] by {
        assert forall|j: int|
            0 <= j < e.len() && (#[trigger] e[j]).1.active && e[j].1.next_due <= now implies e[j].1.goal_id
                != g by {
            lemma_entry_in_map(e, j);
            assert(ids.contains(e[j].0));
        }
        lemma_no_due_deposits(e, g, now);
    }
}

/// What one goal adds to a snapshot's checksum: its identifier and the low
/// 64 bits of its target and of its balance.
pub open spec fn goal_weight(g: SavingsGoal) -> int {
    g.id + low64(g.target_amount) + low64(g.current_amount)
}

proof fn lemma_checksum_update(s: Seq<SavingsGoal>, i: int, g: SavingsGoal)
    requires
        0 <= i < s.len(),
    ensures
        checksum_sum(s.update(i, g)) == checksum_sum(s) - goal_weight(s[i]) + goal_weight(g),
    decreases s.len(),
{
    let u = s.update(i, g);
    if i == s.len() - 1 {
        assert(u.drop_last() =~= s.drop_last());
    } else {
        lemma_checksum_update(s.drop_last(), i, g);
        assert(u.drop_last() =~= s.drop_last().update(i, g));
        assert(u.last() == s.last());
    }
}

/// The checksum sum covers every goal of a list: an empty list sums to
/// nothing, appending a goal adds its weight, and replacing any one goal,
/// for instance by altering its balance, changes the sum by exactly the
/// difference of the two weights.
pub proof fn law_checksum_covers_every_goal(s: Seq<SavingsGoal>, g: SavingsGoal, i: int)
    ensures
        checksum_sum(Seq::<SavingsGoal>::empty()) == 0,
        checksum_sum(s.push(g)) == checksum_sum(s) + g.id + low64(g.target_amount) + low64(
            g.current_amount,
        ),
        0 <= i < s.len() ==> checksum_sum(s.update(i, g)) == checksum_sum(s) - (s[i].id + low64(
            s[i].target_amount,
        ) + low64(s[i].current_amount)) + (g.id + low64(g.target_amount) + low64(g.current_amount)),
{
    assert(s.push(g).drop_last() =~= s);
    if 0 <= i < s.len() {
        lemma_checksum_update(s, i, g);
    }
}

/// A savings schedule is created or moved only to a due date after `now`:
/// with a positive amount, a date that is not in the future is refused as
/// such when moving a schedule, and refused when creating one.
pub proof fn law_savings_schedule_dates_lie_ahead(
    s: &SavingsGoalContract,
    caller: Address,
    goal_id: u32,
    schedule_id: u32,
    amount: i128,
    next_due: u64,
    now: u64,
)
    ensures
        s.create_schedule_error(caller, goal_id, amount, next_due, now) is None ==> next_due > now,
        s.modify_schedule_error(caller, schedule_id, amount, next_due, now) is None ==> next_due > now,
        amount > 0 && next_due <= now ==> s.modify_schedule_error(
            caller,
            schedule_id,
            amount,
            next_due,
            now,
        ) == Some(SavingsGoalError::NextDueNotInFuture),
        next_due <= now ==> s.create_schedule_error(caller, goal_id, amount, next_due, now) is Some,
{
}

/// A withdrawal is accepted exactly when the amount is positive, the goal
/// exists and belongs to the caller, it is neither locked nor time-locked
/// at `now`, and its balance covers the amount; the accepted withdrawal
/// lowers that goal's balance by the amount and touches nothing else of it,
/// nor any other goal. A deposit likewise raises one goal's balance.
pub proof fn law_withdrawal_guards(
    s: &SavingsGoalContract,
    caller: Address,
    goal_id: u32,
    amount: i128,
    now: u64,
    total: i128,
)
    ensures
        s.withdraw_error(caller, goal_id, amount, now) is None <==> {
            &&& amount > 0
            &&& s.goals@.contains_key(goal_id)
            &&& s.goals@[goal_id].owner == caller
            &&& !s.goals@[goal_id].locked
            &&& (s.goals@[goal_id].unlock_date is None || s.goals@[goal_id].unlock_date->0 <= now)
            &&& amount <= s.goals@[goal_id].current_amount
        },
        s.add_error(caller, goal_id, amount) is None ==> amount > 0 && s.goals@.contains_key(goal_id)
            && s.goals@[goal_id].owner == caller,
        s.goals@.contains_key(goal_id) ==> {
            let after = goal_with_balance(s.goals@, goal_id, total);
            &&& after.dom() == s.goals@.dom()
            &&& after[goal_id].current_amount == total
            &&& after[goal_id] == (SavingsGoal { current_amount: total, ..s.goals@[goal_id] })
            &&& forall|k: u32| #[trigger] s.goals@.contains_key(k) && k != goal_id ==> after[k] == s.goals@[k]
        },
{
    if s.goals@.contains_key(goal_id) {
        let after = goal_with_balance(s.goals@, goal_id, total);
        assert(after.dom() =~= s.goals@.dom());
    }
}

} // verus!
