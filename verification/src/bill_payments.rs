//! Bill tracking: one-time and recurring bills, payment, cancellation,
//! archiving of paid bills, and pause/upgrade administration.
//!
//! Every operation that fails leaves the state exactly as it was, as the
//! ledger discards the writes of a failed invocation.
use vstd::prelude::*;
use crate::address::Address;
use crate::admin::{AdminDenial, AdminState, admin_check, may_appoint, reported_version};
use crate::id_map::{
    Criterion, IdMap, criterion_pred, lemma_entries_unique, lemma_len_bounded, lemma_map_key_in_seq,
    lemma_remove_entry, lemma_take_step, seq_to_map, seq_values,
};

verus! {

pub const CONTRACT_VERSION: u32 = 1;

pub const MAX_BATCH_SIZE: u32 = 50;

pub const SECONDS_PER_DAY: u64 = 86400;

/// How far in the future a restored bill falls due: thirty days.
pub const RESTORE_DUE_OFFSET: u64 = 2592000;

#[derive(Clone, Copy, PartialEq, Eq, Structural, Debug)]
pub enum Error {
    BillNotFound,
    BillAlreadyPaid,
    InvalidAmount,
    InvalidFrequency,
    Unauthorized,
    ContractPaused,
    UnauthorizedPause,
    FunctionPaused,
    BatchTooLarge,
    BatchValidationFailed,
}

pub open spec fn error_code(e: Error) -> u32 {
    match e {
        Error::BillNotFound => 1,
        Error::BillAlreadyPaid => 2,
        Error::InvalidAmount => 3,
        Error::InvalidFrequency => 4,
        Error::Unauthorized => 5,
        Error::ContractPaused => 6,
        Error::UnauthorizedPause => 7,
        Error::FunctionPaused => 8,
        Error::BatchTooLarge => 9,
        Error::BatchValidationFailed => 10,
    }
}

impl Error {
    /// The contract error code.
    pub fn code(self) -> (c: u32)
        ensures
            c == error_code(self),
    {
        match self {
            Error::BillNotFound => 1,
            Error::BillAlreadyPaid => 2,
            Error::InvalidAmount => 3,
            Error::InvalidFrequency => 4,
            Error::Unauthorized => 5,
            Error::ContractPaused => 6,
            Error::UnauthorizedPause => 7,
            Error::FunctionPaused => 8,
            Error::BatchTooLarge => 9,
            Error::BatchValidationFailed => 10,
        }
    }
}

#[derive(Debug)]
pub struct Bill {
    pub id: u32,
    pub owner: Address,
    pub name: String,
    pub amount: i128,
    pub due_date: u64,
    pub recurring: bool,
    pub frequency_days: u32,
    pub paid: bool,
    pub created_at: u64,
    pub paid_at: Option<u64>,
    pub schedule_id: Option<u32>,
}

impl Clone for Bill {
    fn clone(&self) -> (r: Self)
        ensures
            r == *self,
    {
        Bill {
            id: self.id,
            owner: self.owner,
            name: self.name.clone(),
            amount: self.amount,
            due_date: self.due_date,
            recurring: self.recurring,
            frequency_days: self.frequency_days,
            paid: self.paid,
            created_at: self.created_at,
            paid_at: self.paid_at,
            schedule_id: self.schedule_id,
        }
    }
}

#[derive(Debug)]
pub struct ArchivedBill {
    pub id: u32,
    pub owner: Address,
    pub name: String,
    pub amount: i128,
    pub paid_at: u64,
    pub archived_at: u64,
}

impl Clone for ArchivedBill {
    fn clone(&self) -> (r: Self)
        ensures
            r == *self,
    {
        ArchivedBill {
            id: self.id,
            owner: self.owner,
            name: self.name.clone(),
            amount: self.amount,
            paid_at: self.paid_at,
            archived_at: self.archived_at,
        }
    }
}

#[derive(Clone, Copy, PartialEq, Eq, Structural, Debug)]
pub struct StorageStats {
    pub active_bills: u32,
    pub archived_bills: u32,
    pub total_unpaid_amount: i128,
    pub total_archived_amount: i128,
    pub last_updated: u64,
}

// ----- names of the individually pausable functions -----

pub open spec fn create_bill_fn() -> Seq<char> {
    "crt_bill"@
}

pub open spec fn pay_bill_fn() -> Seq<char> {
    "pay_bill"@
}

pub open spec fn cancel_bill_fn() -> Seq<char> {
    "can_bill"@
}

pub open spec fn archive_fn() -> Seq<char> {
    "archive"@
}

pub open spec fn restore_fn() -> Seq<char> {
    "restore"@
}

pub fn create_bill_name() -> (s: String)
    ensures
        s@ == create_bill_fn(),
{
    "crt_bill".to_owned()
}

pub fn pay_bill_name() -> (s: String)
    ensures
        s@ == pay_bill_fn(),
{
    "pay_bill".to_owned()
}

pub fn cancel_bill_name() -> (s: String)
    ensures
        s@ == cancel_bill_fn(),
{
    "can_bill".to_owned()
}

pub fn archive_name() -> (s: String)
    ensures
        s@ == archive_fn(),
{
    "archive".to_owned()
}

pub fn restore_name() -> (s: String)
    ensures
        s@ == restore_fn(),
{
    "restore".to_owned()
}

// ----- the meaning of the operations on bills -----

/// A bill marked paid at `now`.
pub open spec fn paid_version(b: Bill, now: u64) -> Bill {
    Bill { paid: true, paid_at: Some(now), ..b }
}

/// Due date of the next occurrence of a recurring bill.
pub open spec fn next_due(b: Bill) -> int {
    b.due_date + b.frequency_days * 86400
}

/// The next occurrence of a recurring bill, created at `now` under `id`.
pub open spec fn next_occurrence(b: Bill, id: u32, now: u64) -> Bill {
    Bill {
        id,
        due_date: next_due(b) as u64,
        recurring: true,
        paid: false,
        created_at: now,
        paid_at: None,
        ..b
    }
}

/// A paid bill is archivable when it was paid before `before`.
pub open spec fn archivable(b: Bill, before: u64) -> bool {
    b.paid && b.paid_at is Some && b.paid_at->0 < before
}

/// The archive record of a bill archived at `now`.
pub open spec fn archive_record(b: Bill, now: u64) -> ArchivedBill {
    ArchivedBill {
        id: b.id,
        owner: b.owner,
        name: b.name,
        amount: b.amount,
        paid_at: b.paid_at->0,
        archived_at: now,
    }
}

/// The bills that stay active when those paid before `before` are archived.
pub open spec fn kept_bills(bills: Map<u32, Bill>, before: u64) -> Map<u32, Bill> {
    Map::new(|k: u32| bills.contains_key(k) && !archivable(bills[k], before), |k: u32| bills[k])
}

/// The archive records of the bills paid before `before`.
pub open spec fn moved_bills(bills: Map<u32, Bill>, before: u64, now: u64) -> Map<u32, ArchivedBill> {
    Map::new(
        |k: u32| bills.contains_key(k) && archivable(bills[k], before),
        |k: u32| archive_record(bills[k], now),
    )
}

/// The archive records that survive a cleanup of those archived before `before`.
pub open spec fn surviving_archive(archived: Map<u32, ArchivedBill>, before: u64) -> Map<
    u32,
    ArchivedBill,
> {
    Map::new(
        |k: u32| archived.contains_key(k) && !(archived[k].archived_at < before),
        |k: u32| archived[k],
    )
}

/// A bill brought back from the archive at `now`: paid, due in thirty days.
pub open spec fn restored_bill(a: ArchivedBill, now: u64) -> Bill {
    Bill {
        id: a.id,
        owner: a.owner,
        name: a.name,
        amount: a.amount,
        due_date: (now + 2592000) as u64,
        recurring: false,
        frequency_days: 0,
        paid: true,
        created_at: a.paid_at,
        paid_at: Some(a.paid_at),
        schedule_id: None,
    }
}

/// Sum of the amounts of the unpaid bills in `s`.
pub open spec fn unpaid_sum(s: Seq<Bill>) -> int
    decreases s.len(),
{
    if s.len() == 0 {
        0
    } else {
        unpaid_sum(s.drop_last()) + if !s.last().paid {
            s.last().amount as int
        } else {
            0
        }
    }
}

/// Sum of the amounts of the unpaid bills of `owner` in `s`.
pub open spec fn owner_unpaid_sum(s: Seq<Bill>, owner: Address) -> int
    decreases s.len(),
{
    if s.len() == 0 {
        0
    } else {
        owner_unpaid_sum(s.drop_last(), owner) + if !s.last().paid && s.last().owner == owner {
            s.last().amount as int
        } else {
            0
        }
    }
}

/// Sum of the amounts of archived bills in `s`.
pub open spec fn archived_sum(s: Seq<ArchivedBill>) -> int
    decreases s.len(),
{
    if s.len() == 0 {
        0
    } else {
        archived_sum(s.drop_last()) + s.last().amount as int
    }
}

/// `x`, or the largest `i128` where `x` exceeds it.
pub open spec fn clamp_high(x: int) -> i128 {
    if x > i128::MAX {
        i128::MAX
    } else {
        x as i128
    }
}

pub open spec fn is_unpaid_of(owner: Address) -> spec_fn(Bill) -> bool {
    |b: Bill| !b.paid && b.owner == owner
}

pub open spec fn is_overdue_at(now: u64) -> spec_fn(Bill) -> bool {
    |b: Bill| !b.paid && b.due_date < now
}

pub open spec fn is_bill_of(owner: Address) -> spec_fn(Bill) -> bool {
    |b: Bill| b.owner == owner
}

pub open spec fn is_archived_of(owner: Address) -> spec_fn(ArchivedBill) -> bool {
    |b: ArchivedBill| b.owner == owner
}

pub open spec fn is_archivable_before(before: u64) -> spec_fn(Bill) -> bool {
    |b: Bill| archivable(b, before)
}

pub open spec fn is_stale_before(before: u64) -> spec_fn(ArchivedBill) -> bool {
    |a: ArchivedBill| a.archived_at < before
}

/// Unpaid bills of one owner.
pub struct UnpaidOf {
    pub owner: Address,
}

impl Criterion<Bill> for UnpaidOf {
    open spec fn holds(&self, b: Bill) -> bool {
        !b.paid && b.owner == self.owner
    }

    fn test(&self, b: &Bill) -> (r: bool) {
        !b.paid && b.owner == self.owner
    }
}

/// Unpaid bills due before a time.
pub struct OverdueAt {
    pub now: u64,
}

impl Criterion<Bill> for OverdueAt {
    open spec fn holds(&self, b: Bill) -> bool {
        !b.paid && b.due_date < self.now
    }

    fn test(&self, b: &Bill) -> (r: bool) {
        !b.paid && b.due_date < self.now
    }
}

/// Bills of one owner.
pub struct BillOf {
    pub owner: Address,
}

impl Criterion<Bill> for BillOf {
    open spec fn holds(&self, b: Bill) -> bool {
        b.owner == self.owner
    }

    fn test(&self, b: &Bill) -> (r: bool) {
        b.owner == self.owner
    }
}

/// Every bill.
pub struct AnyBill;

impl Criterion<Bill> for AnyBill {
    open spec fn holds(&self, b: Bill) -> bool {
        true
    }

    fn test(&self, b: &Bill) -> (r: bool) {
        true
    }
}

/// Archive records of one owner.
pub struct ArchivedOf {
    pub owner: Address,
}

impl Criterion<ArchivedBill> for ArchivedOf {
    open spec fn holds(&self, b: ArchivedBill) -> bool {
        b.owner == self.owner
    }

    fn test(&self, b: &ArchivedBill) -> (r: bool) {
        b.owner == self.owner
    }
}

/// Why a bill cannot be paid by `caller` inside a batch validation.
pub open spec fn batch_check(bills: Map<u32, Bill>, id: u32, caller: Address) -> Option<Error> {
    if !bills.contains_key(id) {
        Some(Error::BillNotFound)
    } else if bills[id].owner != caller {
        Some(Error::Unauthorized)
    } else if bills[id].paid {
        Some(Error::BillAlreadyPaid)
    } else {
        None
    }
}

/// The first refusal met when validating `ids` in order against `bills`.
pub open spec fn batch_validation(bills: Map<u32, Bill>, ids: Seq<u32>, caller: Address) -> Option<
    Error,
>
    decreases ids.len(),
{
    if ids.len() == 0 {
        None
    } else {
        match batch_validation(bills, ids.drop_last(), caller) {
            Some(e) => Some(e),
            None => batch_check(bills, ids.last(), caller),
        }
    }
}

/// The identifier after `n`, staying at the largest `u32`.
pub open spec fn saturating_next(n: u32) -> u32 {
    if n == u32::MAX {
        n
    } else {
        (n + 1) as u32
    }
}

/// Paying one bill inside a batch: bills and the last identifier after it.
pub open spec fn batch_step(bills: Map<u32, Bill>, next_id: u32, id: u32, caller: Address, now: u64) -> Result<
    (Map<u32, Bill>, u32),
    Error,
> {
    if !bills.contains_key(id) {
        Err(Error::BillNotFound)
    } else if bills[id].owner != caller || bills[id].paid {
        Err(Error::BatchValidationFailed)
    } else {
        let b = bills[id];
        if b.recurring {
            let nid = saturating_next(next_id);
            Ok((bills.insert(nid, next_occurrence(b, nid, now)).insert(id, paid_version(b, now)), nid))
        } else {
            Ok((bills.insert(id, paid_version(b, now)), next_id))
        }
    }
}

/// Paying `ids` one after another.
pub open spec fn batch_run(bills: Map<u32, Bill>, next_id: u32, ids: Seq<u32>, caller: Address, now: u64) -> Result<
    (Map<u32, Bill>, u32),
    Error,
>
    decreases ids.len(),
{
    if ids.len() == 0 {
        Ok((bills, next_id))
    } else {
        match batch_run(bills, next_id, ids.drop_last(), caller, now) {
            Err(e) => Err(e),
            Ok(p) => batch_step(p.0, p.1, ids.last(), caller, now),
        }
    }
}

/// No due date computed while paying `ids` exceeds the largest `u64`.
pub open spec fn batch_fits(bills: Map<u32, Bill>, next_id: u32, ids: Seq<u32>, caller: Address, now: u64) -> bool
    decreases ids.len(),
{
    if ids.len() == 0 {
        true
    } else {
        batch_fits(bills, next_id, ids.drop_last(), caller, now) && match batch_run(
            bills,
            next_id,
            ids.drop_last(),
            caller,
            now,
        ) {
            Err(_) => true,
            Ok(p) => p.0.contains_key(ids.last()) && p.0[ids.last()].recurring ==> next_due(
                p.0[ids.last()],
            ) <= u64::MAX,
        }
    }
}

/// The bill-payments contract state.
pub struct BillPayments {
    pub admin: AdminState,
    pub bills: IdMap<Bill>,
    pub archived: IdMap<ArchivedBill>,
    /// Last identifier handed out; 0 before the first bill.
    pub next_id: u32,
    pub stats: Option<StorageStats>,
}

impl BillPayments {
    /// Well-formedness: both maps are ordered, every amount is positive, and
    /// every stored identifier, active or archived, was handed out already.
    pub open spec fn wf(&self) -> bool {
        &&& self.bills.wf()
        &&& self.archived.wf()
        &&& forall|k: u32| #[trigger] self.bills@.contains_key(k) ==> self.bills@[k].amount > 0
        &&& forall|k: u32| #[trigger] self.archived@.contains_key(k) ==> self.archived@[k].amount > 0
        &&& forall|k: u32| #[trigger] self.bills@.contains_key(k) ==> 1 <= k <= self.next_id
        &&& forall|k: u32| #[trigger] self.archived@.contains_key(k) ==> 1 <= k <= self.next_id
    }

    /// A well-formed state holds at most as many bills, active or archived,
    /// as identifiers were handed out.
    proof fn lemma_countable(&self)
        requires
            self.wf(),
        ensures
            self.bills.entries().len() <= self.next_id,
            self.archived.entries().len() <= self.next_id,
            self.countable(),
    {
        let b = self.bills.entries();
        let a = self.archived.entries();
        assert forall|i: int| 0 <= i < b.len() implies 1 <= #[trigger] b[i].0 <= self.next_id by {
            self.bills.lemma_entry(i);
        }
        assert forall|i: int| 0 <= i < a.len() implies 1 <= #[trigger] a[i].0 <= self.next_id by {
            self.archived.lemma_entry(i);
        }
        lemma_len_bounded(b, self.next_id as int);
        lemma_len_bounded(a, self.next_id as int);
    }

    /// The refusal caused by pausing, for function `func`.
    pub open spec fn pause_error(&self, func: Seq<char>) -> Option<Error> {
        if self.admin.paused {
            Some(Error::ContractPaused)
        } else if self.admin.paused_fns@.contains(func) {
            Some(Error::FunctionPaused)
        } else {
            None
        }
    }

    /// Bills and archive are as in `other`.
    pub open spec fn same_records(&self, other: &Self) -> bool {
        &&& self.bills == other.bills
        &&& self.archived == other.archived
        &&& self.next_id == other.next_id
        &&& self.stats == other.stats
    }

    /// The statistics of the current bills and archive, taken at `now`.
    pub open spec fn computed_stats(&self, now: u64) -> StorageStats {
        StorageStats {
            active_bills: self.bills.entries().len() as u32,
            archived_bills: self.archived.entries().len() as u32,
            total_unpaid_amount: clamp_high(unpaid_sum(self.bills.values())),
            total_archived_amount: clamp_high(archived_sum(self.archived.values())),
            last_updated: now,
        }
    }

    /// Both collections are small enough to be counted in a `u32`.
    pub open spec fn countable(&self) -> bool {
        &&& self.bills.entries().len() <= u32::MAX
        &&& self.archived.entries().len() <= u32::MAX
    }

    pub open spec fn create_error(&self, amount: i128, recurring: bool, frequency_days: u32) -> Option<
        Error,
    > {
        if self.pause_error(create_bill_fn()) is Some {
            self.pause_error(create_bill_fn())
        } else if amount <= 0 {
            Some(Error::InvalidAmount)
        } else if recurring && frequency_days == 0 {
            Some(Error::InvalidFrequency)
        } else {
            None
        }
    }

    pub open spec fn pay_error(&self, caller: Address, bill_id: u32) -> Option<Error> {
        if self.pause_error(pay_bill_fn()) is Some {
            self.pause_error(pay_bill_fn())
        } else if !self.bills@.contains_key(bill_id) {
            Some(Error::BillNotFound)
        } else if self.bills@[bill_id].owner != caller {
            Some(Error::Unauthorized)
        } else if self.bills@[bill_id].paid {
            Some(Error::BillAlreadyPaid)
        } else {
            None
        }
    }

    pub open spec fn cancel_error(&self, caller: Address, bill_id: u32) -> Option<Error> {
        if self.pause_error(cancel_bill_fn()) is Some {
            self.pause_error(cancel_bill_fn())
        } else if !self.bills@.contains_key(bill_id) {
            Some(Error::BillNotFound)
        } else if self.bills@[bill_id].owner != caller {
            Some(Error::Unauthorized)
        } else {
            None
        }
    }

    pub open spec fn restore_error(&self, caller: Address, bill_id: u32) -> Option<Error> {
        if self.pause_error(restore_fn()) is Some {
            self.pause_error(restore_fn())
        } else if !self.archived@.contains_key(bill_id) {
            Some(Error::BillNotFound)
        } else if self.archived@[bill_id].owner != caller {
            Some(Error::Unauthorized)
        } else {
            None
        }
    }

    pub open spec fn batch_error(&self, caller: Address, ids: Seq<u32>, now: u64) -> Option<Error> {
        if self.pause_error(pay_bill_fn()) is Some {
            self.pause_error(pay_bill_fn())
        } else if ids.len() > 50 {
            Some(Error::BatchTooLarge)
        } else if batch_validation(self.bills@, ids, caller) is Some {
            batch_validation(self.bills@, ids, caller)
        } else {
            match batch_run(self.bills@, self.next_id, ids, caller, now) {
                Err(e) => Some(e),
                Ok(_) => None,
            }
        }
    }

    /// A freshly deployed contract: no bills, nothing paused, no admins.
    pub fn new() -> (s: BillPayments)
        ensures
            s.wf(),
            s.bills@ == Map::<u32, Bill>::empty(),
            s.archived@ == Map::<u32, ArchivedBill>::empty(),
            s.next_id == 0,
            s.stats is None,
            s.admin.pause_admin is None,
            !s.admin.paused,
            s.admin.paused_fns@ == Set::<Seq<char>>::empty(),
            s.admin.unpause_at is None,
            s.admin.upgrade_admin is None,
            s.admin.version is None,
    {
        BillPayments {
            admin: AdminState::new(),
            bills: IdMap::new(),
            archived: IdMap::new(),
            next_id: 0,
            stats: None,
        }
    }

    fn require_not_paused(&self, func: &String) -> (r: Option<Error>)
        ensures
            r == self.pause_error(func@),
    {
        if self.admin.paused {
            Some(Error::ContractPaused)
        } else if self.admin.paused_fns.contains(func) {
            Some(Error::FunctionPaused)
        } else {
            None
        }
    }

    proof fn lemma_bill_values_positive(&self)
        requires
            self.wf(),
        ensures
            forall|i: int|
                0 <= i < self.bills.values().len() ==> #[trigger] self.bills.values()[i].amount > 0,
    {
        assert forall|i: int| 0 <= i < self.bills.values().len() implies #[trigger] self.bills.values()[i].amount > 0 by {
            self.bills.lemma_entry(i);
        }
    }

    proof fn lemma_archived_values_positive(&self)
        requires
            self.wf(),
        ensures
            forall|i: int|
                0 <= i < self.archived.values().len() ==> #[trigger] self.archived.values()[i].amount
                    > 0,
    {
        assert forall|i: int| 0 <= i < self.archived.values().len() implies #[trigger] self.archived.values()[i].amount > 0 by {
            self.archived.lemma_entry(i);
        }
    }

    // ----- pause & upgrade administration -----

    /// Sets or transfers the pause admin.  With no admin yet, callers may only
    /// appoint themselves; afterwards only the admin may hand over.
    pub fn set_pause_admin(&mut self, caller: Address, new_admin: Address) -> (r: Result<(), Error>)
        ensures
            match r {
                Ok(()) => may_appoint(old(self).admin.pause_admin, caller, new_admin)
                    && final(self).admin.pause_admin == Some(new_admin),
                Err(e) => !may_appoint(old(self).admin.pause_admin, caller, new_admin) && e
                    == Error::UnauthorizedPause && final(self).admin.pause_admin == old(self).admin.pause_admin,
            },
            final(self).same_records(&*old(self)),
            final(self).admin.paused == old(self).admin.paused,
            final(self).admin.paused_fns@ == old(self).admin.paused_fns@,
            final(self).admin.unpause_at == old(self).admin.unpause_at,
            final(self).admin.upgrade_admin == old(self).admin.upgrade_admin,
            final(self).admin.version == old(self).admin.version,
    {
        if self.admin.appoint_pause_admin(caller, new_admin) {
            Ok(())
        } else {
            Err(Error::UnauthorizedPause)
        }
    }

    /// Pauses every state-changing function (pause admin only).
    pub fn pause(&mut self, caller: Address) -> (r: Result<(), Error>)
        ensures
            match r {
                Ok(()) => admin_check(old(self).admin.pause_admin, caller) is None
                    && final(self).admin.paused,
                Err(e) => admin_check(old(self).admin.pause_admin, caller) is Some && e
                    == Error::UnauthorizedPause && final(self).admin.paused == old(self).admin.paused,
            },
            final(self).same_records(&*old(self)),
            final(self).admin.pause_admin == old(self).admin.pause_admin,
            final(self).admin.paused_fns == old(self).admin.paused_fns,
            final(self).admin.unpause_at == old(self).admin.unpause_at,
            final(self).admin.upgrade_admin == old(self).admin.upgrade_admin,
            final(self).admin.version == old(self).admin.version,
    {
        if self.admin.check_pause_admin(caller).is_some() {
            return Err(Error::UnauthorizedPause);
        }
        self.admin.paused = true;
        Ok(())
    }

    /// Unpauses (pause admin only); refused while a scheduled unpause time
    /// lies ahead of `now`, and clears a schedule that has been reached.
    pub fn unpause(&mut self, caller: Address, now: u64) -> (r: Result<(), Error>)
        ensures
            match r {
                Ok(()) => admin_check(old(self).admin.pause_admin, caller) is None && !(old(self).admin.unpause_at is Some && now < old(self).admin.unpause_at->0) && !final(self).admin.paused && final(self).admin.unpause_at is None,
                Err(e) => {
                    &&& if admin_check(old(self).admin.pause_admin, caller) is Some {
                        e == Error::UnauthorizedPause
                    } else {
                        old(self).admin.unpause_at is Some && now < old(self).admin.unpause_at->0
                            && e == Error::ContractPaused
                    }
                    &&& final(self).admin.paused == old(self).admin.paused
                    &&& final(self).admin.unpause_at == old(self).admin.unpause_at
                },
            },
            final(self).same_records(&*old(self)),
            final(self).admin.pause_admin == old(self).admin.pause_admin,
            final(self).admin.paused_fns == old(self).admin.paused_fns,
            final(self).admin.upgrade_admin == old(self).admin.upgrade_admin,
            final(self).admin.version == old(self).admin.version,
    {
        if self.admin.check_pause_admin(caller).is_some() {
            return Err(Error::UnauthorizedPause);
        }
        if let Some(at) = self.admin.unpause_at {
            if now < at {
                return Err(Error::ContractPaused);
            }
        }
        self.admin.unpause_at = None;
        self.admin.paused = false;
        Ok(())
    }

    /// Schedules the earliest time at which an unpause is allowed (pause admin only).
    pub fn schedule_unpause(&mut self, caller: Address, at_timestamp: u64, now: u64) -> (r: Result<
        (),
        Error,
    >)
        ensures
            match r {
                Ok(()) => admin_check(old(self).admin.pause_admin, caller) is None && at_timestamp
                    > now && final(self).admin.unpause_at == Some(at_timestamp),
                Err(e) => {
                    &&& if admin_check(old(self).admin.pause_admin, caller) is Some {
                        e == Error::UnauthorizedPause
                    } else {
                        at_timestamp <= now && e == Error::InvalidAmount
                    }
                    &&& final(self).admin.unpause_at == old(self).admin.unpause_at
                },
            },
            final(self).same_records(&*old(self)),
            final(self).admin.pause_admin == old(self).admin.pause_admin,
            final(self).admin.paused == old(self).admin.paused,
            final(self).admin.paused_fns == old(self).admin.paused_fns,
            final(self).admin.upgrade_admin == old(self).admin.upgrade_admin,
            final(self).admin.version == old(self).admin.version,
    {
        if self.admin.check_pause_admin(caller).is_some() {
            return Err(Error::UnauthorizedPause);
        }
        if at_timestamp <= now {
            return Err(Error::InvalidAmount);
        }
        self.admin.unpause_at = Some(at_timestamp);
        Ok(())
    }

    /// Pauses one function by name (pause admin only).
    pub fn pause_function(&mut self, caller: Address, func: String) -> (r: Result<(), Error>)
        ensures
            match r {
                Ok(()) => admin_check(old(self).admin.pause_admin, caller) is None && final(self).admin.paused_fns@ == old(self).admin.paused_fns@.insert(func@),
                Err(e) => admin_check(old(self).admin.pause_admin, caller) is Some && e
                    == Error::UnauthorizedPause && final(self).admin.paused_fns == old(self).admin.paused_fns,
            },
            final(self).same_records(&*old(self)),
            final(self).admin.pause_admin == old(self).admin.pause_admin,
            final(self).admin.paused == old(self).admin.paused,
            final(self).admin.unpause_at == old(self).admin.unpause_at,
            final(self).admin.upgrade_admin == old(self).admin.upgrade_admin,
            final(self).admin.version == old(self).admin.version,
    {
        if self.admin.check_pause_admin(caller).is_some() {
            return Err(Error::UnauthorizedPause);
        }
        self.admin.paused_fns.insert(func);
        Ok(())
    }

    /// Unpauses one function by name (pause admin only).
    pub fn unpause_function(&mut self, caller: Address, func: String) -> (r: Result<(), Error>)
        ensures
            match r {
                Ok(()) => admin_check(old(self).admin.pause_admin, caller) is None && final(self).admin.paused_fns@ == old(self).admin.paused_fns@.remove(func@),
                Err(e) => admin_check(old(self).admin.pause_admin, caller) is Some && e
                    == Error::UnauthorizedPause && final(self).admin.paused_fns == old(self).admin.paused_fns,
            },
            final(self).same_records(&*old(self)),
            final(self).admin.pause_admin == old(self).admin.pause_admin,
            final(self).admin.paused == old(self).admin.paused,
            final(self).admin.unpause_at == old(self).admin.unpause_at,
            final(self).admin.upgrade_admin == old(self).admin.upgrade_admin,
            final(self).admin.version == old(self).admin.version,
    {
        if self.admin.check_pause_admin(caller).is_some() {
            return Err(Error::UnauthorizedPause);
        }
        self.admin.paused_fns.remove(&func);
        Ok(())
    }

    /// Pauses the contract and each tracked function (pause admin only).
    pub fn emergency_pause_all(&mut self, caller: Address) -> (r: Result<(), Error>)
        ensures
            match r {
                Ok(()) => admin_check(old(self).admin.pause_admin, caller) is None && final(self).admin.paused && final(self).admin.paused_fns@ == old(self).admin.paused_fns@.insert(create_bill_fn()).insert(pay_bill_fn()).insert(
                    cancel_bill_fn(),
                ).insert(archive_fn()).insert(restore_fn()),
                Err(e) => admin_check(old(self).admin.pause_admin, caller) is Some && e
                    == Error::UnauthorizedPause && final(self).admin.paused == old(self).admin.paused && final(self).admin.paused_fns == old(self).admin.paused_fns,
            },
            final(self).same_records(&*old(self)),
            final(self).admin.pause_admin == old(self).admin.pause_admin,
            final(self).admin.unpause_at == old(self).admin.unpause_at,
            final(self).admin.upgrade_admin == old(self).admin.upgrade_admin,
            final(self).admin.version == old(self).admin.version,
    {
        if self.admin.check_pause_admin(caller).is_some() {
            return Err(Error::UnauthorizedPause);
        }
        self.admin.paused = true;
        self.admin.paused_fns.insert(create_bill_name());
        self.admin.paused_fns.insert(pay_bill_name());
        self.admin.paused_fns.insert(cancel_bill_name());
        self.admin.paused_fns.insert(archive_name());
        self.admin.paused_fns.insert(restore_name());
        Ok(())
    }

    pub fn is_paused(&self) -> (b: bool)
        ensures
            b == self.admin.paused,
    {
        self.admin.paused
    }

    pub fn is_function_paused_public(&self, func: &String) -> (b: bool)
        ensures
            b == self.admin.paused_fns@.contains(func@),
    {
        self.admin.paused_fns.contains(func)
    }

    pub fn get_pause_admin_public(&self) -> (a: Option<Address>)
        ensures
            a == self.admin.pause_admin,
    {
        self.admin.pause_admin
    }

    /// The recorded contract version, 1 when none was recorded.
    pub fn get_version(&self) -> (v: u32)
        ensures
            v == reported_version(self.admin.version, 1),
    {
        self.admin.version_or(CONTRACT_VERSION)
    }

    /// Sets or transfers the upgrade admin, with the same rule as the pause admin.
    pub fn set_upgrade_admin(&mut self, caller: Address, new_admin: Address) -> (r: Result<
        (),
        Error,
    >)
        ensures
            match r {
                Ok(()) => may_appoint(old(self).admin.upgrade_admin, caller, new_admin)
                    && final(self).admin.upgrade_admin == Some(new_admin),
                Err(e) => !may_appoint(old(self).admin.upgrade_admin, caller, new_admin) && e
                    == Error::Unauthorized && final(self).admin.upgrade_admin == old(self).admin.upgrade_admin,
            },
            final(self).same_records(&*old(self)),
            final(self).admin.pause_admin == old(self).admin.pause_admin,
            final(self).admin.paused == old(self).admin.paused,
            final(self).admin.paused_fns@ == old(self).admin.paused_fns@,
            final(self).admin.unpause_at == old(self).admin.unpause_at,
            final(self).admin.version == old(self).admin.version,
    {
        if self.admin.appoint_upgrade_admin(caller, new_admin) {
            Ok(())
        } else {
            Err(Error::Unauthorized)
        }
    }

    /// Records a new contract version (upgrade admin only).
    pub fn set_version(&mut self, caller: Address, new_version: u32) -> (r: Result<(), Error>)
        ensures
            match r {
                Ok(()) => admin_check(old(self).admin.upgrade_admin, caller) is None && final(self).admin.version == Some(new_version),
                Err(e) => admin_check(old(self).admin.upgrade_admin, caller) is Some && e
                    == Error::Unauthorized && final(self).admin.version == old(self).admin.version,
            },
            final(self).same_records(&*old(self)),
            final(self).admin.pause_admin == old(self).admin.pause_admin,
            final(self).admin.paused == old(self).admin.paused,
            final(self).admin.paused_fns == old(self).admin.paused_fns,
            final(self).admin.unpause_at == old(self).admin.unpause_at,
            final(self).admin.upgrade_admin == old(self).admin.upgrade_admin,
    {
        if self.admin.check_upgrade_admin(caller).is_some() {
            return Err(Error::Unauthorized);
        }
        self.admin.version = Some(new_version);
        Ok(())
    }
}


/// What one bill adds to the unpaid total of `owner`.
pub open spec fn unpaid_share(b: Bill, owner: Address) -> int {
    if !b.paid && b.owner == owner {
        b.amount as int
    } else {
        0
    }
}

/// Taking one bill out of a sequence takes its share out of the unpaid total.
proof fn lemma_owner_unpaid_remove(s: Seq<Bill>, owner: Address, i: int)
    requires
        0 <= i < s.len(),
    ensures
        owner_unpaid_sum(s, owner) == owner_unpaid_sum(s.remove(i), owner) + unpaid_share(s[i], owner),
    decreases s.len(),
{
    if i == s.len() - 1 {
        assert(s.remove(i) =~= s.drop_last());
    } else {
        lemma_owner_unpaid_remove(s.drop_last(), owner, i);
        assert(s.remove(i).drop_last() =~= s.drop_last().remove(i));
        assert(s.remove(i).last() == s.last());
    }
}

/// Taking the entry at `i` out of a sequence of bill entries takes its
/// share out of the unpaid total of its values.
proof fn lemma_entry_share(s: Seq<(u32, Bill)>, owner: Address, i: int)
    requires
        0 <= i < s.len(),
    ensures
        owner_unpaid_sum(seq_values(s), owner) == owner_unpaid_sum(seq_values(s.remove(i)), owner)
            + unpaid_share(s[i].1, owner),
{
    lemma_owner_unpaid_remove(seq_values(s), owner, i);
    assert(seq_values(s).remove(i) =~= seq_values(s.remove(i)));
}

/// With positive amounts, a prefix never sums to more than the whole.
proof fn lemma_owner_unpaid_prefix(s: Seq<Bill>, owner: Address, i: int)
    requires
        0 <= i <= s.len(),
        forall|j: int| 0 <= j < s.len() ==> #[trigger] s[j].amount > 0,
    ensures
        0 <= owner_unpaid_sum(s.take(i), owner) <= owner_unpaid_sum(s, owner),
    decreases s.len() - i,
{
    if i == s.len() {
        assert(s.take(i) =~= s);
        lemma_owner_unpaid_nonneg(s, owner);
    } else {
        lemma_owner_unpaid_prefix(s, owner, i + 1);
        assert(s.take(i + 1).drop_last() =~= s.take(i));
        lemma_owner_unpaid_nonneg(s.take(i), owner);
    }
}

proof fn lemma_owner_unpaid_nonneg(s: Seq<Bill>, owner: Address)
    requires
        forall|j: int| 0 <= j < s.len() ==> #[trigger] s[j].amount > 0,
    ensures
        owner_unpaid_sum(s, owner) >= 0,
    decreases s.len(),
{
    if s.len() > 0 {
        assert(forall|j: int| 0 <= j < s.drop_last().len() ==> s.drop_last()[j] == s[j]);
        lemma_owner_unpaid_nonneg(s.drop_last(), owner);
    }
}

/// A refusal in a prefix of the batch is the refusal of the whole batch.
proof fn lemma_validation_prefix(bills: Map<u32, Bill>, ids: Seq<u32>, caller: Address, j: int)
    requires
        0 <= j <= ids.len(),
        batch_validation(bills, ids.take(j), caller) is Some,
    ensures
        batch_validation(bills, ids, caller) == batch_validation(bills, ids.take(j), caller),
    decreases ids.len() - j,
{
    if j < ids.len() {
        assert(ids.take(j + 1).drop_last() =~= ids.take(j));
        lemma_validation_prefix(bills, ids, caller, j + 1);
    } else {
        assert(ids.take(j) =~= ids);
    }
}

proof fn lemma_run_prefix(bills: Map<u32, Bill>, n: u32, ids: Seq<u32>, caller: Address, now: u64, j: int)
    requires
        0 <= j <= ids.len(),
        batch_run(bills, n, ids.take(j), caller, now) is Err,
    ensures
        batch_run(bills, n, ids, caller, now) == batch_run(bills, n, ids.take(j), caller, now),
    decreases ids.len() - j,
{
    if j < ids.len() {
        assert(ids.take(j + 1).drop_last() =~= ids.take(j));
        lemma_run_prefix(bills, n, ids, caller, now, j + 1);
    } else {
        assert(ids.take(j) =~= ids);
    }
}

proof fn lemma_fits_prefix(bills: Map<u32, Bill>, n: u32, ids: Seq<u32>, caller: Address, now: u64, j: int)
    requires
        0 <= j <= ids.len(),
        batch_fits(bills, n, ids, caller, now),
    ensures
        batch_fits(bills, n, ids.take(j), caller, now),
    decreases ids.len() - j,
{
    if j < ids.len() {
        lemma_fits_prefix(bills, n, ids, caller, now, j + 1);
        assert(ids.take(j + 1).drop_last() =~= ids.take(j));
    } else {
        assert(ids.take(j) =~= ids);
    }
}

impl BillPayments {
    fn unpaid_total_clamped(&self) -> (t: i128)
        requires
            self.wf(),
        ensures
            t == clamp_high(unpaid_sum(self.bills.values())),
    {
        proof {
            self.lemma_bill_values_positive();
        }
        let ghost vals = self.bills.values();
        let n = self.bills.len();
        let mut acc: i128 = 0;
        let mut i: usize = 0;
        while i < n
            invariant
                n == vals.len(),
                vals == self.bills.values(),
                i <= n,
                forall|j: int| 0 <= j < vals.len() ==> #[trigger] vals[j].amount > 0,
                unpaid_sum(vals.take(i as int)) >= 0,
                acc == clamp_high(unpaid_sum(vals.take(i as int))),
            decreases n - i,
        {
            let b = self.bills.value_at(i);
            proof {
                assert(vals.take(i + 1).drop_last() =~= vals.take(i as int));
                assert(vals[i as int] == *b);
            }
            if !b.paid {
                if acc > i128::MAX - b.amount {
                    acc = i128::MAX;
                } else {
                    acc = acc + b.amount;
                }
            }
            i += 1;
        }
        assert(vals.take(n as int) =~= vals);
        acc
    }

    fn archived_total_clamped(&self) -> (t: i128)
        requires
            self.wf(),
        ensures
            t == clamp_high(archived_sum(self.archived.values())),
    {
        proof {
            self.lemma_archived_values_positive();
        }
        let ghost vals = self.archived.values();
        let n = self.archived.len();
        let mut acc: i128 = 0;
        let mut i: usize = 0;
        while i < n
            invariant
                n == vals.len(),
                vals == self.archived.values(),
                i <= n,
                forall|j: int| 0 <= j < vals.len() ==> #[trigger] vals[j].amount > 0,
                archived_sum(vals.take(i as int)) >= 0,
                acc == clamp_high(archived_sum(vals.take(i as int))),
            decreases n - i,
        {
            let b = self.archived.value_at(i);
            proof {
                assert(vals.take(i + 1).drop_last() =~= vals.take(i as int));
                assert(vals[i as int] == *b);
            }
            if acc > i128::MAX - b.amount {
                acc = i128::MAX;
            } else {
                acc = acc + b.amount;
            }
            i += 1;
        }
        assert(vals.take(n as int) =~= vals);
        acc
    }

    /// Recomputes the storage statistics at `now`.
    fn refresh_stats(&mut self, now: u64)
        requires
            old(self).wf(),
        ensures
            final(self).stats == Some(old(self).computed_stats(now)),
            final(self).bills == old(self).bills,
            final(self).archived == old(self).archived,
            final(self).next_id == old(self).next_id,
            final(self).admin == old(self).admin,
    {
        proof {
            self.lemma_countable();
        }
        let active = self.bills.len() as u32;
        let archived_count = self.archived.len() as u32;
        let unpaid = self.unpaid_total_clamped();
        let archived_total = self.archived_total_clamped();
        self.stats = Some(
            StorageStats {
                active_bills: active,
                archived_bills: archived_count,
                total_unpaid_amount: unpaid,
                total_archived_amount: archived_total,
                last_updated: now,
            },
        );
    }

    /// Creates a bill for `owner`; its identifier is one past the last one handed out.
    pub fn create_bill(
        &mut self,
        owner: Address,
        name: String,
        amount: i128,
        due_date: u64,
        recurring: bool,
        frequency_days: u32,
        now: u64,
    ) -> (r: Result<u32, Error>)
        requires
            old(self).wf(),
            old(self).create_error(amount, recurring, frequency_days) is None ==> old(self).next_id
                < u32::MAX,
        ensures
            final(self).wf(),
            match r {
                Ok(id) => {
                    &&& old(self).create_error(amount, recurring, frequency_days) is None
                    &&& id == old(self).next_id + 1
                    &&& final(self).next_id == id
                    &&& final(self).bills@ == old(self).bills@.insert(
                        id,
                        Bill {
                            id,
                            owner,
                            name,
                            amount,
                            due_date,
                            recurring,
                            frequency_days,
                            paid: false,
                            created_at: now,
                            paid_at: None,
                            schedule_id: None,
                        },
                    )
                    &&& final(self).archived == old(self).archived
                    &&& final(self).stats == old(self).stats
                    &&& final(self).admin == old(self).admin
                },
                Err(e) => old(self).create_error(amount, recurring, frequency_days) == Some(e) && *final(self) == *old(self),
            },
    {
        if let Some(e) = self.require_not_paused(&create_bill_name()) {
            return Err(e);
        }
        if amount <= 0 {
            return Err(Error::InvalidAmount);
        }
        if recurring && frequency_days == 0 {
            return Err(Error::InvalidFrequency);
        }
        let id = self.next_id + 1;
        let bill = Bill {
            id,
            owner,
            name,
            amount,
            due_date,
            recurring,
            frequency_days,
            paid: false,
            created_at: now,
            paid_at: None,
            schedule_id: None,
        };
        self.bills.set(id, bill);
        self.next_id = id;
        Ok(id)
    }

    /// Marks a bill paid at `now`; a recurring bill gets its next occurrence
    /// under the next identifier.
    pub fn pay_bill(&mut self, caller: Address, bill_id: u32, now: u64) -> (r: Result<(), Error>)
        requires
            old(self).wf(),
            old(self).pay_error(caller, bill_id) is None && old(self).bills@[bill_id].recurring
                ==> old(self).next_id < u32::MAX && next_due(old(self).bills@[bill_id]) <= u64::MAX,
        ensures
            final(self).wf(),
            match r {
                Ok(()) => {
                    let b = old(self).bills@[bill_id];
                    &&& old(self).pay_error(caller, bill_id) is None
                    &&& if b.recurring {
                        &&& final(self).next_id == old(self).next_id + 1
                        &&& final(self).bills@ == old(self).bills@.insert(
                            final(self).next_id,
                            next_occurrence(b, final(self).next_id, now),
                        ).insert(bill_id, paid_version(b, now))
                    } else {
                        &&& final(self).next_id == old(self).next_id
                        &&& final(self).bills@ == old(self).bills@.insert(
                            bill_id,
                            paid_version(b, now),
                        )
                    }
                    &&& final(self).archived == old(self).archived
                    &&& final(self).stats == old(self).stats
                    &&& final(self).admin == old(self).admin
                },
                Err(e) => old(self).pay_error(caller, bill_id) == Some(e) && *final(self) == *old(self),
            },
    {
        if let Some(e) = self.require_not_paused(&pay_bill_name()) {
            return Err(e);
        }
        let mut bill = match self.bills.get(bill_id) {
            None => {
                return Err(Error::BillNotFound);
            },
            Some(b) => b.clone(),
        };
        if bill.owner != caller {
            return Err(Error::Unauthorized);
        }
        if bill.paid {
            return Err(Error::BillAlreadyPaid);
        }
        if bill.recurring {
            let next_id = self.next_id + 1;
            let next_bill = Bill {
                id: next_id,
                owner: bill.owner,
                name: bill.name.clone(),
                amount: bill.amount,
                due_date: bill.due_date + (bill.frequency_days as u64) * SECONDS_PER_DAY,
                recurring: true,
                frequency_days: bill.frequency_days,
                paid: false,
                created_at: now,
                paid_at: None,
                schedule_id: bill.schedule_id,
            };
            self.bills.set(next_id, next_bill);
            self.next_id = next_id;
        }
        bill.paid = true;
        bill.paid_at = Some(now);
        self.bills.set(bill_id, bill);
        Ok(())
    }

    pub fn get_bill(&self, bill_id: u32) -> (r: Option<Bill>)
        requires
            self.wf(),
        ensures
            r == if self.bills@.contains_key(bill_id) {
                Some(self.bills@[bill_id])
            } else {
                None
            },
    {
        match self.bills.get(bill_id) {
            Some(b) => Some(b.clone()),
            None => None,
        }
    }

    /// The unpaid bills of `owner`, in identifier order.
    pub fn get_unpaid_bills(&self, owner: Address) -> (r: Vec<Bill>)
        ensures
            r@ == self.bills.values().filter(is_unpaid_of(owner)),
    {
        let r = self.bills.select(&UnpaidOf { owner });
        assert(criterion_pred(UnpaidOf { owner }) =~= is_unpaid_of(owner));
        r
    }

    /// The unpaid bills of every owner that fell due before `now`, in identifier order.
    pub fn get_overdue_bills(&self, now: u64) -> (r: Vec<Bill>)
        ensures
            r@ == self.bills.values().filter(is_overdue_at(now)),
    {
        let r = self.bills.select(&OverdueAt { now });
        assert(criterion_pred(OverdueAt { now }) =~= is_overdue_at(now));
        r
    }

    /// Total amount of the unpaid bills of `owner`.
    pub fn get_total_unpaid(&self, owner: Address) -> (t: i128)
        requires
            self.wf(),
            owner_unpaid_sum(self.bills.values(), owner) <= i128::MAX,
        ensures
            t == owner_unpaid_sum(self.bills.values(), owner),
    {
        proof {
            self.lemma_bill_values_positive();
        }
        let ghost vals = self.bills.values();
        let n = self.bills.len();
        let mut total: i128 = 0;
        let mut i: usize = 0;
        while i < n
            invariant
                n == vals.len(),
                vals == self.bills.values(),
                i <= n,
                forall|j: int| 0 <= j < vals.len() ==> #[trigger] vals[j].amount > 0,
                owner_unpaid_sum(vals, owner) <= i128::MAX,
                total == owner_unpaid_sum(vals.take(i as int), owner),
            decreases n - i,
        {
            let b = self.bills.value_at(i);
            proof {
                assert(vals.take(i + 1).drop_last() =~= vals.take(i as int));
                assert(vals[i as int] == *b);
                lemma_owner_unpaid_prefix(vals, owner, i + 1);
            }
            if !b.paid && b.owner == owner {
                total = total + b.amount;
            }
            i += 1;
        }
        assert(vals.take(n as int) =~= vals);
        total
    }

    /// Deletes a bill of the caller.
    pub fn cancel_bill(&mut self, caller: Address, bill_id: u32) -> (r: Result<(), Error>)
        requires
            old(self).wf(),
        ensures
            final(self).wf(),
            match r {
                Ok(()) => old(self).cancel_error(caller, bill_id) is None && final(self).bills@ == old(self).bills@.remove(bill_id) && final(self).archived == old(self).archived && final(self).next_id == old(self).next_id && final(self).stats == old(self).stats && final(self).admin == old(self).admin,
                Err(e) => old(self).cancel_error(caller, bill_id) == Some(e) && *final(self) == *old(self),
            },
    {
        if let Some(e) = self.require_not_paused(&cancel_bill_name()) {
            return Err(e);
        }
        match self.bills.get(bill_id) {
            None => {
                return Err(Error::BillNotFound);
            },
            Some(b) => {
                if b.owner != caller {
                    return Err(Error::Unauthorized);
                }
            },
        }
        self.bills.remove(bill_id);
        Ok(())
    }

    /// Moves every bill paid before `before_timestamp` into the archive and
    /// returns how many moved; the statistics are recomputed.
    pub fn archive_paid_bills(&mut self, caller: Address, before_timestamp: u64, now: u64) -> (r:
        Result<u32, Error>)
        requires
            old(self).wf(),
        ensures
            final(self).wf(),
            match r {
                Ok(count) => {
                    &&& old(self).pause_error(archive_fn()) is None
                    &&& final(self).bills@ == kept_bills(old(self).bills@, before_timestamp)
                    &&& final(self).archived@ == old(self).archived@.union_prefer_right(
                        moved_bills(old(self).bills@, before_timestamp, now),
                    )
                    &&& count == old(self).bills.values().filter(
                        is_archivable_before(before_timestamp),
                    ).len()
                    &&& final(self).stats == Some(final(self).computed_stats(now))
                    &&& final(self).next_id == old(self).next_id
                    &&& final(self).admin == old(self).admin
                },
                Err(e) => old(self).pause_error(archive_fn()) == Some(e) && *final(self) == *old(self),
            },
    {
        if let Some(e) = self.require_not_paused(&archive_name()) {
            return Err(e);
        }
        proof {
            self.lemma_bill_values_positive();
        }
        let ghost s = self.bills.entries();
        let ghost vals = self.bills.values();
        let ghost old_arch = self.archived@;
        proof {
            self.lemma_countable();
        }
        let n = self.bills.len();
        let mut kept: IdMap<Bill> = IdMap::new();
        let mut count: u32 = 0;
        let mut i: usize = 0;
        while i < n
            invariant
                n == s.len(),
                s == self.bills.entries(),
                vals == self.bills.values(),
                self.bills.wf(),
                i <= n,
                forall|j: int| 0 <= j < vals.len() ==> #[trigger] vals[j].amount > 0,
                kept.wf(),
                kept@ == kept_bills(seq_to_map(s.take(i as int)), before_timestamp),
                kept.entries().len() <= i,
                forall|k: u32| #[trigger] kept@.contains_key(k) ==> kept@[k].amount > 0,
                self.archived.wf(),
                self.archived@ == old_arch.union_prefer_right(
                    moved_bills(seq_to_map(s.take(i as int)), before_timestamp, now),
                ),
                forall|k: u32| #[trigger] self.archived@.contains_key(k) ==> self.archived@[k].amount > 0,
                count == vals.take(i as int).filter(is_archivable_before(before_timestamp)).len(),
                count <= i,
                self.next_id == old(self).next_id,
                self.admin == old(self).admin,
                self.bills == old(self).bills,
                n <= u32::MAX,
            decreases n - i,
        {
            let k = self.bills.key_at(i);
            let b = self.bills.value_at(i);
            proof {
                lemma_take_step(s, i as int);
                reveal(Seq::filter);
                assert(vals.take(i + 1).drop_last() =~= vals.take(i as int));
                assert(vals[i as int] == *b);
                let m0 = seq_to_map(s.take(i as int));
                let m1 = seq_to_map(s.take(i + 1));
                assert(m1 == m0.insert(k, *b));
                if archivable(*b, before_timestamp) {
                    assert(kept_bills(m1, before_timestamp) =~= kept_bills(m0, before_timestamp));
                    assert(moved_bills(m1, before_timestamp, now) =~= moved_bills(
                        m0,
                        before_timestamp,
                        now,
                    ).insert(k, archive_record(*b, now)));
                } else {
                    assert(kept_bills(m1, before_timestamp) =~= kept_bills(
                        m0,
                        before_timestamp,
                    ).insert(k, *b));
                    assert(moved_bills(m1, before_timestamp, now) =~= moved_bills(
                        m0,
                        before_timestamp,
                        now,
                    ));
                }
            }
            let archive_it = match b.paid_at {
                Some(p) => b.paid && p < before_timestamp,
                None => false,
            };
            if archive_it {
                let rec = ArchivedBill {
                    id: b.id,
                    owner: b.owner,
                    name: b.name.clone(),
                    amount: b.amount,
                    paid_at: match b.paid_at {
                        Some(p) => p,
                        None => 0,
                    },
                    archived_at: now,
                };
                self.archived.set(k, rec);
                proof {
                    assert(self.archived@ =~= old_arch.union_prefer_right(
                        moved_bills(seq_to_map(s.take(i + 1)), before_timestamp, now),
                    ));
                }
                count = count + 1;
            } else {
                kept.set(k, b.clone());
            }
            i += 1;
        }
        proof {
            assert(s.take(n as int) =~= s);
            assert(vals.take(n as int) =~= vals);
        }
        self.bills = kept;
        self.refresh_stats(now);
        Ok(count)
    }

    /// The archive records of `owner`, in identifier order.
    pub fn get_archived_bills(&self, owner: Address) -> (r: Vec<ArchivedBill>)
        ensures
            r@ == self.archived.values().filter(is_archived_of(owner)),
    {
        let r = self.archived.select(&ArchivedOf { owner });
        assert(criterion_pred(ArchivedOf { owner }) =~= is_archived_of(owner));
        r
    }

    pub fn get_archived_bill(&self, bill_id: u32) -> (r: Option<ArchivedBill>)
        requires
            self.wf(),
        ensures
            r == if self.archived@.contains_key(bill_id) {
                Some(self.archived@[bill_id])
            } else {
                None
            },
    {
        match self.archived.get(bill_id) {
            Some(b) => Some(b.clone()),
            None => None,
        }
    }

    /// Brings an archived bill of the caller back as a paid bill due in thirty days.
    pub fn restore_bill(&mut self, caller: Address, bill_id: u32, now: u64) -> (r: Result<(), Error>)
        requires
            old(self).wf(),
            old(self).restore_error(caller, bill_id) is None ==> now + 2592000 <= u64::MAX,
        ensures
            final(self).wf(),
            match r {
                Ok(()) => {
                    &&& old(self).restore_error(caller, bill_id) is None
                    &&& final(self).bills@ == old(self).bills@.insert(
                        bill_id,
                        restored_bill(old(self).archived@[bill_id], now),
                    )
                    &&& final(self).archived@ == old(self).archived@.remove(bill_id)
                    &&& final(self).stats == Some(final(self).computed_stats(now))
                    &&& final(self).next_id == old(self).next_id
                    &&& final(self).admin == old(self).admin
                },
                Err(e) => old(self).restore_error(caller, bill_id) == Some(e) && *final(self) == *old(self),
            },
    {
        if let Some(e) = self.require_not_paused(&restore_name()) {
            return Err(e);
        }
        let a = match self.archived.get(bill_id) {
            None => {
                return Err(Error::BillNotFound);
            },
            Some(a) => a.clone(),
        };
        if a.owner != caller {
            return Err(Error::Unauthorized);
        }
        let restored = Bill {
            id: a.id,
            owner: a.owner,
            name: a.name,
            amount: a.amount,
            due_date: now + RESTORE_DUE_OFFSET,
            recurring: false,
            frequency_days: 0,
            paid: true,
            created_at: a.paid_at,
            paid_at: Some(a.paid_at),
            schedule_id: None,
        };
        self.bills.set(bill_id, restored);
        self.archived.remove(bill_id);
        self.refresh_stats(now);
        Ok(())
    }

    /// Deletes every archive record archived before `before_timestamp` and
    /// returns how many were deleted; the statistics are recomputed.
    pub fn bulk_cleanup_bills(&mut self, caller: Address, before_timestamp: u64, now: u64) -> (r:
        Result<u32, Error>)
        requires
            old(self).wf(),
        ensures
            final(self).wf(),
            match r {
                Ok(count) => {
                    &&& old(self).pause_error(archive_fn()) is None
                    &&& final(self).archived@ == surviving_archive(old(self).archived@, before_timestamp)
                    &&& count == old(self).archived.values().filter(
                        is_stale_before(before_timestamp),
                    ).len()
                    &&& final(self).bills == old(self).bills
                    &&& final(self).stats == Some(final(self).computed_stats(now))
                    &&& final(self).next_id == old(self).next_id
                    &&& final(self).admin == old(self).admin
                },
                Err(e) => old(self).pause_error(archive_fn()) == Some(e) && *final(self) == *old(self),
            },
    {
        if let Some(e) = self.require_not_paused(&archive_name()) {
            return Err(e);
        }
        proof {
            self.lemma_countable();
        }
        let ghost s = self.archived.entries();
        let ghost vals = self.archived.values();
        let n = self.archived.len();
        let mut kept: IdMap<ArchivedBill> = IdMap::new();
        let mut count: u32 = 0;
        let mut i: usize = 0;
        while i < n
            invariant
                n == s.len(),
                s == self.archived.entries(),
                vals == self.archived.values(),
                self.archived.wf(),
                forall|k: u32| #[trigger] self.archived@.contains_key(k) ==> self.archived@[k].amount > 0,
                forall|k: u32| #[trigger] self.archived@.contains_key(k) ==> 1 <= k <= self.next_id,
                i <= n,
                n <= u32::MAX,
                kept.wf(),
                kept@ == surviving_archive(seq_to_map(s.take(i as int)), before_timestamp),
                kept.entries().len() <= i,
                forall|k: u32| #[trigger] kept@.contains_key(k) ==> kept@[k].amount > 0,
                count == vals.take(i as int).filter(is_stale_before(before_timestamp)).len(),
                count <= i,
            decreases n - i,
        {
            let k = self.archived.key_at(i);
            let a = self.archived.value_at(i);
            proof {
                lemma_take_step(s, i as int);
                reveal(Seq::filter);
                assert(vals.take(i + 1).drop_last() =~= vals.take(i as int));
                assert(vals[i as int] == *a);
                let m0 = seq_to_map(s.take(i as int));
                let m1 = seq_to_map(s.take(i + 1));
                if a.archived_at < before_timestamp {
                    assert(surviving_archive(m1, before_timestamp) =~= surviving_archive(
                        m0,
                        before_timestamp,
                    ));
                } else {
                    assert(surviving_archive(m1, before_timestamp) =~= surviving_archive(
                        m0,
                        before_timestamp,
                    ).insert(k, *a));
                }
            }
            proof {
                self.archived.lemma_entry(i as int);
            }
            if a.archived_at < before_timestamp {
                count = count + 1;
            } else {
                kept.set(k, a.clone());
            }
            i += 1;
        }
        proof {
            assert(s.take(n as int) =~= s);
            assert(vals.take(n as int) =~= vals);
            assert(forall|k: u32| #[trigger] kept@.contains_key(k) ==> self.archived@.contains_key(k));
        }
        self.archived = kept;
        self.refresh_stats(now);
        Ok(count)
    }

    /// The refusal of paying `bill_id` by `caller`, if any.
    pub fn pay_refusal(&self, caller: Address, bill_id: u32) -> (r: Option<Error>)
        requires
            self.wf(),
        ensures
            r == self.pay_error(caller, bill_id),
    {
        if let Some(e) = self.require_not_paused(&pay_bill_name()) {
            return Some(e);
        }
        match self.bills.get(bill_id) {
            None => Some(Error::BillNotFound),
            Some(b) => if b.owner != caller {
                Some(Error::Unauthorized)
            } else if b.paid {
                Some(Error::BillAlreadyPaid)
            } else {
                None
            },
        }
    }

    /// The refusal of restoring `bill_id` by `caller`, if any.
    pub fn restore_refusal(&self, caller: Address, bill_id: u32) -> (r: Option<Error>)
        requires
            self.wf(),
        ensures
            r == self.restore_error(caller, bill_id),
    {
        if let Some(e) = self.require_not_paused(&restore_name()) {
            return Some(e);
        }
        match self.archived.get(bill_id) {
            None => Some(Error::BillNotFound),
            Some(a) => if a.owner != caller {
                Some(Error::Unauthorized)
            } else {
                None
            },
        }
    }

    /// The refusal of a batch payment met before any bill is paid, if any:
    /// pausing, the batch size, then the first bill that is missing, of
    /// another owner or already paid.
    pub fn batch_precheck(&self, caller: Address, bill_ids: &Vec<u32>) -> (r: Option<Error>)
        requires
            self.wf(),
        ensures
            r == if self.pause_error(pay_bill_fn()) is Some {
                self.pause_error(pay_bill_fn())
            } else if bill_ids@.len() > 50 {
                Some(Error::BatchTooLarge)
            } else {
                batch_validation(self.bills@, bill_ids@, caller)
            },
    {
        if let Some(e) = self.require_not_paused(&pay_bill_name()) {
            return Some(e);
        }
        if bill_ids.len() > 50 {
            return Some(Error::BatchTooLarge);
        }
        let ghost ids = bill_ids@;
        let m = bill_ids.len();
        let mut j: usize = 0;
        while j < m
            invariant
                m == ids.len(),
                ids == bill_ids@,
                j <= m,
                m <= 50,
                self.wf(),
                self.pause_error(pay_bill_fn()) is None,
                batch_validation(self.bills@, ids.take(j as int), caller) is None,
            decreases m - j,
        {
            let id = bill_ids[j];
            proof {
                assert(ids.take(j + 1).drop_last() =~= ids.take(j as int));
                assert(ids.take(j + 1).last() == id);
            }
            match self.bills.get(id) {
                None => {
                    proof {
                        lemma_validation_prefix(self.bills@, ids, caller, j + 1);
                    }
                    return Some(Error::BillNotFound);
                },
                Some(b) => {
                    if b.owner != caller {
                        proof {
                            lemma_validation_prefix(self.bills@, ids, caller, j + 1);
                        }
                        return Some(Error::Unauthorized);
                    }
                    if b.paid {
                        proof {
                            lemma_validation_prefix(self.bills@, ids, caller, j + 1);
                        }
                        return Some(Error::BillAlreadyPaid);
                    }
                },
            }
            j += 1;
        }
        assert(ids.take(m as int) =~= ids);
        None
    }

    /// Pays several bills of the caller at once: either all are paid or,
    /// on the first refusal, none is.
    pub fn batch_pay_bills(&mut self, caller: Address, bill_ids: Vec<u32>, now: u64) -> (r: Result<
        u32,
        Error,
    >)
        requires
            old(self).wf(),
            old(self).pause_error(pay_bill_fn()) is None && bill_ids@.len() <= 50 && batch_validation(
                old(self).bills@,
                bill_ids@,
                caller,
            ) is None ==> batch_fits(old(self).bills@, old(self).next_id, bill_ids@, caller, now),
        ensures
            final(self).wf(),
            match r {
                Ok(count) => {
                    &&& old(self).batch_error(caller, bill_ids@, now) is None
                    &&& count == bill_ids@.len()
                    &&& batch_run(old(self).bills@, old(self).next_id, bill_ids@, caller, now)
                        == Ok::<(Map<u32, Bill>, u32), Error>((final(self).bills@, final(self).next_id))
                    &&& final(self).archived == old(self).archived
                    &&& final(self).stats == Some(final(self).computed_stats(now))
                    &&& final(self).admin == old(self).admin
                },
                Err(e) => old(self).batch_error(caller, bill_ids@, now) == Some(e) && *final(self)
                    == *old(self),
            },
    {
        if let Some(e) = self.batch_precheck(caller, &bill_ids) {
            return Err(e);
        }
        let ghost ids = bill_ids@;
        let m = bill_ids.len();
        proof {
            self.lemma_bill_values_positive();
        }
        let ghost start = self.bills@;
        let mut work = self.bills.duplicate();
        let mut nid = self.next_id;
        let mut j: usize = 0;
        while j < m
            invariant
                m == ids.len(),
                ids == bill_ids@,
                m <= 50,
                j <= m,
                *self == *old(self),
                self.wf(),
                self.pause_error(pay_bill_fn()) is None,
                batch_validation(self.bills@, ids, caller) is None,
                start == self.bills@,
                work.wf(),
                forall|k: u32| #[trigger] work@.contains_key(k) ==> work@[k].amount > 0,
                self.next_id <= nid,
                forall|k: u32| #[trigger] work@.contains_key(k) ==> 1 <= k <= nid,
                batch_fits(start, self.next_id, ids, caller, now),
                batch_run(start, self.next_id, ids.take(j as int), caller, now) == Ok::<
                    (Map<u32, Bill>, u32),
                    Error,
                >((work@, nid)),
            decreases m - j,
        {
            let id = bill_ids[j];
            proof {
                assert(ids.take(j + 1).drop_last() =~= ids.take(j as int));
                assert(ids.take(j + 1).last() == id);
                lemma_fits_prefix(start, self.next_id, ids, caller, now, j + 1);
            }
            let mut bill = match work.get(id) {
                None => {
                    proof {
                        lemma_run_prefix(start, self.next_id, ids, caller, now, j + 1);
                    }
                    return Err(Error::BillNotFound);
                },
                Some(b) => b.clone(),
            };
            if bill.owner != caller || bill.paid {
                proof {
                    lemma_run_prefix(start, self.next_id, ids, caller, now, j + 1);
                }
                return Err(Error::BatchValidationFailed);
            }
            if bill.recurring {
                nid = if nid == u32::MAX {
                    nid
                } else {
                    nid + 1
                };
                let next_bill = Bill {
                    id: nid,
                    owner: bill.owner,
                    name: bill.name.clone(),
                    amount: bill.amount,
                    due_date: bill.due_date + (bill.frequency_days as u64) * SECONDS_PER_DAY,
                    recurring: true,
                    frequency_days: bill.frequency_days,
                    paid: false,
                    created_at: now,
                    paid_at: None,
                    schedule_id: bill.schedule_id,
                };
                work.set(nid, next_bill);
            }
            bill.paid = true;
            bill.paid_at = Some(now);
            work.set(id, bill);
            j += 1;
        }
        assert(ids.take(m as int) =~= ids);
        self.bills = work;
        self.next_id = nid;
        self.refresh_stats(now);
        Ok(m as u32)
    }

    /// The last recorded statistics, all zero before any were recorded.
    pub fn get_storage_stats(&self) -> (s: StorageStats)
        ensures
            s == match self.stats {
                Some(x) => x,
                None => StorageStats {
                    active_bills: 0,
                    archived_bills: 0,
                    total_unpaid_amount: 0,
                    total_archived_amount: 0,
                    last_updated: 0,
                },
            },
    {
        match self.stats {
            Some(x) => x,
            None => StorageStats {
                active_bills: 0,
                archived_bills: 0,
                total_unpaid_amount: 0,
                total_archived_amount: 0,
                last_updated: 0,
            },
        }
    }

    /// The bills of `owner`, paid or not, in identifier order.
    pub fn get_all_bills_for_owner(&self, owner: Address) -> (r: Vec<Bill>)
        ensures
            r@ == self.bills.values().filter(is_bill_of(owner)),
    {
        let r = self.bills.select(&BillOf { owner });
        assert(criterion_pred(BillOf { owner }) =~= is_bill_of(owner));
        r
    }

    /// Every bill of every owner, for the pause admin only.
    pub fn get_all_bills(&self, caller: Address) -> (r: Result<Vec<Bill>, Error>)
        ensures
            match r {
                Ok(v) => admin_check(self.admin.pause_admin, caller) is None && v@ == self.bills.values(),
                Err(e) => admin_check(self.admin.pause_admin, caller) is Some && e == Error::Unauthorized,
            },
    {
        if self.admin.check_pause_admin(caller).is_some() {
            return Err(Error::Unauthorized);
        }
        let v = self.bills.select(&AnyBill);
        proof {
            assert(criterion_pred(AnyBill) =~= (|b: Bill| true));
            lemma_filter_all(self.bills.values());
        }
        Ok(v)
    }
}

/// Keeping every element keeps the sequence.
proof fn lemma_filter_all(s: Seq<Bill>)
    ensures
        s.filter(|b: Bill| true) == s,
    decreases s.len(),
{
    reveal(Seq::filter);
    if s.len() > 0 {
        lemma_filter_all(s.drop_last());
        assert(s.drop_last().push(s.last()) =~= s);
    } else {
        assert(s.filter(|b: Bill| true) =~= s);
    }
}


/// Sum of the amounts of the bills in `s`.
pub open spec fn bill_amounts(s: Seq<Bill>) -> int
    decreases s.len(),
{
    if s.len() == 0 {
        0
    } else {
        bill_amounts(s.drop_last()) + s.last().amount as int
    }
}

proof fn lemma_unpaid_sum_is_filtered_sum(bills: Seq<Bill>, owner: Address)
    ensures
        owner_unpaid_sum(bills, owner) == bill_amounts(bills.filter(is_unpaid_of(owner))),
    decreases bills.len(),
{
    if bills.len() > 0 {
        let rest = bills.drop_last();
        lemma_unpaid_sum_is_filtered_sum(rest, owner);
        rest.lemma_filter_push(bills.last(), is_unpaid_of(owner));
        assert(rest.push(bills.last()) =~= bills);
        let f = rest.filter(is_unpaid_of(owner));
        assert(f.push(bills.last()).drop_last() =~= f);
    } else {
        reveal(Seq::filter);
    }
}

/// A bill that is not yet paid.
pub open spec fn is_unpaid() -> spec_fn(Bill) -> bool {
    |b: Bill| !b.paid
}

proof fn lemma_all_unpaid_is_filtered_sum(bills: Seq<Bill>)
    ensures
        unpaid_sum(bills) == bill_amounts(bills.filter(is_unpaid())),
    decreases bills.len(),
{
    if bills.len() > 0 {
        let rest = bills.drop_last();
        lemma_all_unpaid_is_filtered_sum(rest);
        rest.lemma_filter_push(bills.last(), is_unpaid());
        assert(rest.push(bills.last()) =~= bills);
        let f = rest.filter(is_unpaid());
        assert(f.push(bills.last()).drop_last() =~= f);
    } else {
        reveal(Seq::filter);
    }
}

/// The recorded statistics count the active and the archived bills; their
/// unpaid total is the sum of the amounts of the active bills not yet
/// paid, a paid bill adding nothing, capped at the largest `i128`.
pub proof fn law_stats_total_unpaid(s: &BillPayments, now: u64)
    ensures
        s.computed_stats(now).active_bills == s.bills.entries().len() as u32,
        s.computed_stats(now).archived_bills == s.archived.entries().len() as u32,
        s.computed_stats(now).total_unpaid_amount == clamp_high(
            bill_amounts(s.bills.values().filter(is_unpaid())),
        ),
        s.computed_stats(now).last_updated == now,
{
    lemma_all_unpaid_is_filtered_sum(s.bills.values());
}

/// The total that `get_total_unpaid` reports for an owner is the sum of the
/// amounts of the bills that `get_unpaid_bills` lists for that owner.
pub proof fn law_total_unpaid_sums_unpaid_bills(s: &BillPayments, owner: Address)
    ensures
        owner_unpaid_sum(s.bills.values(), owner) == bill_amounts(
            s.bills.values().filter(is_unpaid_of(owner)),
        ),
{
    lemma_unpaid_sum_is_filtered_sum(s.bills.values(), owner);
}

/// Paying a bill marks it paid at `now` and changes nothing else of it; a
/// recurring bill is followed by an unpaid bill with the same owner, name,
/// amount and frequency, created at `now`, under the next identifier and
/// due one frequency after the paid one. No other bill changes.
pub proof fn law_pay_bill_records_payment(
    before: &BillPayments,
    after: &BillPayments,
    caller: Address,
    bill_id: u32,
    now: u64,
)
    requires
        before.wf(),
        before.pay_error(caller, bill_id) is None,
        before.bills@[bill_id].recurring ==> next_due(before.bills@[bill_id]) <= u64::MAX,
        ({
            let b = before.bills@[bill_id];
            if b.recurring {
                &&& after.next_id == before.next_id + 1
                &&& after.bills@ == before.bills@.insert(
                    after.next_id,
                    next_occurrence(b, after.next_id, now),
                ).insert(bill_id, paid_version(b, now))
            } else {
                after.bills@ == before.bills@.insert(bill_id, paid_version(b, now))
            }
        }),
    ensures
        ({
            let b = before.bills@[bill_id];
            let p = after.bills@[bill_id];
            &&& after.bills@.contains_key(bill_id)
            &&& !b.paid && p.paid && p.paid_at == Some(now)
            &&& p.id == b.id && p.owner == b.owner && p.name == b.name && p.amount == b.amount
            &&& p.due_date == b.due_date && p.recurring == b.recurring && p.frequency_days == b.frequency_days
            &&& p.created_at == b.created_at && p.schedule_id == b.schedule_id
            &&& b.recurring ==> {
                let n = after.bills@[after.next_id];
                &&& after.bills@.contains_key(after.next_id)
                &&& !before.bills@.contains_key(after.next_id)
                &&& n.id == after.next_id && !n.paid && n.paid_at is None && n.recurring
                &&& n.owner == b.owner && n.name == b.name && n.amount == b.amount
                &&& n.frequency_days == b.frequency_days && n.created_at == now
                &&& n.due_date == b.due_date + b.frequency_days * 86400
            }
        }),
        forall|k: u32|
            #[trigger] before.bills@.contains_key(k) && k != bill_id ==> after.bills@[k] == before.bills@[k],
{
}

/// Paying a one-off bill lowers its owner's unpaid total by the bill's
/// amount; paying a recurring bill leaves it as it was, as the next
/// occurrence, unpaid and of the same amount under the next identifier,
/// takes its place. The totals of other owners do not change.
pub proof fn law_pay_bill_unpaid_total(
    before: &BillPayments,
    after: &BillPayments,
    caller: Address,
    bill_id: u32,
    now: u64,
    owner: Address,
)
    requires
        before.wf(),
        after.wf(),
        before.pay_error(caller, bill_id) is None,
        ({
            let b = before.bills@[bill_id];
            if b.recurring {
                &&& after.next_id == before.next_id + 1
                &&& after.bills@ == before.bills@.insert(
                    after.next_id,
                    next_occurrence(b, after.next_id, now),
                ).insert(bill_id, paid_version(b, now))
            } else {
                after.bills@ == before.bills@.insert(bill_id, paid_version(b, now))
            }
        }),
    ensures
        owner_unpaid_sum(after.bills.values(), owner) == owner_unpaid_sum(before.bills.values(), owner) - if !before.bills@[bill_id].recurring && before.bills@[bill_id].owner == owner {
            before.bills@[bill_id].amount as int
        } else {
            0
        },
{
    let m = before.bills@;
    let b = m[bill_id];
    let s = before.bills.entries();
    let t = after.bills.entries();
    let i = lemma_map_key_in_seq(s, bill_id);
    lemma_remove_entry(s, i);
    lemma_entry_share(s, owner, i);
    let j = lemma_map_key_in_seq(t, bill_id);
    lemma_remove_entry(t, j);
    lemma_entry_share(t, owner, j);
    let t1 = t.remove(j);
    if b.recurring {
        let n = after.next_id;
        let occ = next_occurrence(b, n, now);
        assert(seq_to_map(t1).contains_key(n));
        let j1 = lemma_map_key_in_seq(t1, n);
        lemma_remove_entry(t1, j1);
        lemma_entry_share(t1, owner, j1);
        assert(seq_to_map(t1.remove(j1)) =~= seq_to_map(s.remove(i)));
        lemma_entries_unique(t1.remove(j1), s.remove(i));
        assert(t1[j1].1 == occ);
    } else {
        assert(seq_to_map(t1) =~= seq_to_map(s.remove(i)));
        lemma_entries_unique(t1, s.remove(i));
    }
}

/// Archiving moves away exactly the bills that were paid before the cutoff:
/// they leave the active bills and each enters the archive with its
/// identifier, owner, name, amount and payment time, stamped with `now`;
/// every other bill stays active as it was, and earlier archive records of
/// other bills stay. A cleanup keeps exactly the archive records archived
/// at or after its cutoff.
pub proof fn law_archive_moves_paid_bills(
    before: &BillPayments,
    after: &BillPayments,
    before_timestamp: u64,
    now: u64,
    k: u32,
)
    requires
        after.bills@ == kept_bills(before.bills@, before_timestamp),
        after.archived@ == before.archived@.union_prefer_right(
            moved_bills(before.bills@, before_timestamp, now),
        ),
    ensures
        after.bills@.contains_key(k) <==> (before.bills@.contains_key(k) && !(before.bills@[k].paid
            && before.bills@[k].paid_at is Some && before.bills@[k].paid_at->0 < before_timestamp)),
        after.bills@.contains_key(k) ==> after.bills@[k] == before.bills@[k],
        before.bills@.contains_key(k) && before.bills@[k].paid && before.bills@[k].paid_at is Some
            && before.bills@[k].paid_at->0 < before_timestamp ==> {
            let b = before.bills@[k];
            let a = after.archived@[k];
            &&& after.archived@.contains_key(k)
            &&& a.id == b.id && a.owner == b.owner && a.name == b.name && a.amount == b.amount
            &&& a.paid_at == b.paid_at->0 && a.archived_at == now
        },
        !before.bills@.contains_key(k) && before.archived@.contains_key(k) ==> after.archived@.contains_key(k)
            && after.archived@[k] == before.archived@[k],
        surviving_archive(before.archived@, before_timestamp).contains_key(k) <==> (
        before.archived@.contains_key(k) && before.archived@[k].archived_at >= before_timestamp),
        surviving_archive(before.archived@, before_timestamp).contains_key(k) ==> surviving_archive(
            before.archived@,
            before_timestamp,
        )[k] == before.archived@[k],
{
}

/// After archiving moved a paid bill away, its owner may restore it, as long
/// as restoring is not paused; the restored bill has again its identifier,
/// owner, name, amount and payment: archiving and restoring lose none of
/// them. Only its due date is new, thirty days after the restoration.
pub proof fn law_restore_undoes_archive(
    before: &BillPayments,
    archived: &BillPayments,
    bill_id: u32,
    before_timestamp: u64,
    archived_at: u64,
    restored_at: u64,
)
    requires
        before.bills@.contains_key(bill_id),
        archivable(before.bills@[bill_id], before_timestamp),
        archived.bills@ == kept_bills(before.bills@, before_timestamp),
        archived.archived@ == before.archived@.union_prefer_right(
            moved_bills(before.bills@, before_timestamp, archived_at),
        ),
        archived.pause_error(restore_fn()) is None,
        restored_at + 2592000 <= u64::MAX,
    ensures
        !archived.bills@.contains_key(bill_id),
        archived.restore_error(before.bills@[bill_id].owner, bill_id) is None,
        ({
            let b = before.bills@[bill_id];
            let back = restored_bill(archived.archived@[bill_id], restored_at);
            &&& back.id == b.id
            &&& back.owner == b.owner
            &&& back.name == b.name
            &&& back.amount == b.amount
            &&& back.paid == b.paid
            &&& back.paid_at == b.paid_at
            &&& back.due_date == restored_at + 2592000
        }),
{
    assert(moved_bills(before.bills@, before_timestamp, archived_at).contains_key(bill_id));
}

/// While the contract is paused, every request that would change bills is
/// refused as paused, whatever its caller and arguments.
pub proof fn law_pause_refuses_changes(
    s: &BillPayments,
    caller: Address,
    bill_id: u32,
    amount: i128,
    recurring: bool,
    frequency_days: u32,
    ids: Seq<u32>,
    now: u64,
)
    requires
        s.admin.paused,
    ensures
        s.create_error(amount, recurring, frequency_days) == Some(Error::ContractPaused),
        s.pay_error(caller, bill_id) == Some(Error::ContractPaused),
        s.cancel_error(caller, bill_id) == Some(Error::ContractPaused),
        s.restore_error(caller, bill_id) == Some(Error::ContractPaused),
        s.batch_error(caller, ids, now) == Some(Error::ContractPaused),
{
}

} // verus!
