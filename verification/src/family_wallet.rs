//! A family wallet with roles and multi-signature approval: transactions of
//! each type need a configured number of signatures from configured signers;
//! small withdrawals run at once; an emergency mode allows one-click
//! transfers within limits, a cooldown and a minimum remaining balance.
//!
//! Token transfers are not made here: an operation that moves tokens returns
//! the transfer for the host layer to carry out.  Every operation that fails
//! leaves the state exactly as it was, as the ledger discards the writes of a
//! failed invocation.
use vstd::prelude::*;
use crate::address::{Address, KeyMap};

verus! {

/// Signatures expire a day after the proposal.
pub const SIGNATURE_EXPIRATION: u64 = 86400;

/// Default spending limit and emergency maximum: 1000 tokens of 7 decimals.
pub const DEFAULT_LIMIT: i128 = 10000000000;

pub const DEFAULT_COOLDOWN: u64 = 3600;

#[derive(Clone, Copy, PartialEq, Eq, Structural, Debug)]
pub enum TransactionType {
    LargeWithdrawal,
    SplitConfigChange,
    RoleChange,
    EmergencyTransfer,
    PolicyCancellation,
    RegularWithdrawal,
}

#[derive(Clone, Copy, PartialEq, Eq, Structural, Debug)]
pub enum FamilyRole {
    Owner,
    Admin,
    Member,
}

/// What a transaction does.
#[derive(Clone, Copy, PartialEq, Eq, Structural, Debug)]
pub enum TransactionData {
    /// Token, recipient, amount.
    Withdrawal(Address, Address, i128),
    /// Spending, savings, bills and insurance percentages.
    SplitConfigChange(u32, u32, u32, u32),
    /// Member and new role.
    RoleChange(Address, FamilyRole),
    /// Token, recipient, amount.
    EmergencyTransfer(Address, Address, i128),
    /// Policy identifier.
    PolicyCancellation(u32),
}

#[derive(Debug)]
pub struct MultiSigConfig {
    pub threshold: u32,
    pub signers: Vec<Address>,
    pub spending_limit: i128,
}

impl Clone for MultiSigConfig {
    fn clone(&self) -> (r: Self)
        ensures
            r.threshold == self.threshold,
            r.signers@ == self.signers@,
            r.spending_limit == self.spending_limit,
    {
        MultiSigConfig {
            threshold: self.threshold,
            signers: copy_addresses(&self.signers),
            spending_limit: self.spending_limit,
        }
    }
}

#[derive(Debug)]
pub struct PendingTransaction {
    pub tx_id: u64,
    pub tx_type: TransactionType,
    pub proposer: Address,
    pub signatures: Vec<Address>,
    pub created_at: u64,
    pub expires_at: u64,
    pub data: TransactionData,
}

impl Clone for PendingTransaction {
    fn clone(&self) -> (r: Self)
        ensures
            r.same_as(self),
    {
        PendingTransaction {
            tx_id: self.tx_id,
            tx_type: self.tx_type,
            proposer: self.proposer,
            signatures: copy_addresses(&self.signatures),
            created_at: self.created_at,
            expires_at: self.expires_at,
            data: self.data,
        }
    }
}

impl PendingTransaction {
    /// Equal fields, signatures compared by content.
    pub open spec fn same_as(&self, other: &PendingTransaction) -> bool {
        &&& self.tx_id == other.tx_id
        &&& self.tx_type == other.tx_type
        &&& self.proposer == other.proposer
        &&& self.signatures@ == other.signatures@
        &&& self.created_at == other.created_at
        &&& self.expires_at == other.expires_at
        &&& self.data == other.data
    }
}

impl MultiSigConfig {
    /// Equal fields, signers compared by content.
    pub open spec fn same_as(&self, other: &MultiSigConfig) -> bool {
        &&& self.threshold == other.threshold
        &&& self.signers@ == other.signers@
        &&& self.spending_limit == other.spending_limit
    }
}

#[derive(Clone, Copy, PartialEq, Eq, Structural, Debug)]
pub struct FamilyMember {
    pub address: Address,
    pub role: FamilyRole,
    pub added_at: u64,
}

#[derive(Clone, Copy, PartialEq, Eq, Structural, Debug)]
pub struct EmergencyConfig {
    /// Maximum amount allowed per emergency transfer.
    pub max_amount: i128,
    /// Seconds that must pass between emergency transfers.
    pub cooldown: u64,
    /// Balance that must remain after an emergency transfer.
    pub min_balance: i128,
}

/// Events of emergency mode and transfers.
#[derive(Clone, Copy, PartialEq, Eq, Structural, Debug)]
pub enum EmergencyEvent {
    ModeOn,
    ModeOff,
    TransferInit,
    TransferExec,
}

/// The wallet's error codes.
#[derive(Clone, Copy, PartialEq, Eq, Structural, Debug)]
pub enum Error {
    Unauthorized,
    InvalidThreshold,
    InvalidSigner,
    TransactionNotFound,
    TransactionExpired,
    InsufficientSignatures,
    DuplicateSignature,
    InvalidTransactionType,
    InvalidAmount,
    InvalidRole,
    MemberNotFound,
    TransactionAlreadyExecuted,
    InvalidSpendingLimit,
}

/// Why the wallet refused a request.
#[derive(Clone, Copy, PartialEq, Eq, Structural, Debug)]
pub enum WalletError {
    AlreadyInitialized,
    NotInitialized,
    OnlyOwnerOrAdminConfigure,
    InvalidThreshold,
    SignerNotMember,
    NegativeSpendingLimit,
    ProposerNotMember,
    ConfigNotFound,
    SignerNotFamily,
    TransactionNotFound,
    TransactionExpired,
    AlreadySigned,
    SignerNotAuthorized,
    AmountNotPositive,
    PercentagesMustSumTo100,
    OnlyOwnerOrAdminEmergency,
    EmergencyMaxNotPositive,
    EmergencyMinBalanceNegative,
    OnlyOwnerOrAdminMode,
    OnlyOwnerOrAdminAddMember,
    OnlyOwnerRemove,
    CannotRemoveOwner,
    EmergencyConfigNotSet,
    EmergencyAmountExceedsMax,
    EmergencyCooldown,
    EmergencyMinBalance,
    DataMismatch,
}

/// The failure message of each refusal.
pub open spec fn wallet_message(e: WalletError) -> Seq<char> {
    match e {
        WalletError::AlreadyInitialized => "Wallet already initialized"@,
        WalletError::NotInitialized => "Wallet not initialized"@,
        WalletError::OnlyOwnerOrAdminConfigure => "Only Owner or Admin can configure multi-sig"@,
        WalletError::InvalidThreshold => "Invalid threshold"@,
        WalletError::SignerNotMember => "Signer must be a family member"@,
        WalletError::NegativeSpendingLimit => "Spending limit must be non-negative"@,
        WalletError::ProposerNotMember => "Only family members can propose transactions"@,
        WalletError::ConfigNotFound => "Multi-sig config not found"@,
        WalletError::SignerNotFamily => "Only family members can sign transactions"@,
        WalletError::TransactionNotFound => "Transaction not found"@,
        WalletError::TransactionExpired => "Transaction expired"@,
        WalletError::AlreadySigned => "Already signed this transaction"@,
        WalletError::SignerNotAuthorized => "Signer not authorized for this transaction type"@,
        WalletError::AmountNotPositive => "Amount must be positive"@,
        WalletError::PercentagesMustSumTo100 => "Percentages must sum to 100"@,
        WalletError::OnlyOwnerOrAdminEmergency => "Only Owner or Admin can configure emergency settings"@,
        WalletError::EmergencyMaxNotPositive => "Emergency max amount must be positive"@,
        WalletError::EmergencyMinBalanceNegative => "Emergency min balance must be non-negative"@,
        WalletError::OnlyOwnerOrAdminMode => "Only Owner or Admin can change emergency mode"@,
        WalletError::OnlyOwnerOrAdminAddMember => "Only Owner or Admin can add family members"@,
        WalletError::OnlyOwnerRemove => "Only Owner can remove family members"@,
        WalletError::CannotRemoveOwner => "Cannot remove owner"@,
        WalletError::EmergencyConfigNotSet => "Emergency config not set"@,
        WalletError::EmergencyAmountExceedsMax => "Emergency amount exceeds maximum allowed"@,
        WalletError::EmergencyCooldown => "Emergency transfer cooldown period not elapsed"@,
        WalletError::EmergencyMinBalance => "Emergency transfer would violate minimum balance requirement"@,
        WalletError::DataMismatch => "Invalid transaction type or data mismatch"@,
    }
}

impl WalletError {
    /// The contract's failure message for this refusal.
    pub fn message(self) -> (m: &'static str)
        ensures
            m@ == wallet_message(self),
    {
        match self {
            WalletError::AlreadyInitialized => "Wallet already initialized",
            WalletError::NotInitialized => "Wallet not initialized",
            WalletError::OnlyOwnerOrAdminConfigure => "Only Owner or Admin can configure multi-sig",
            WalletError::InvalidThreshold => "Invalid threshold",
            WalletError::SignerNotMember => "Signer must be a family member",
            WalletError::NegativeSpendingLimit => "Spending limit must be non-negative",
            WalletError::ProposerNotMember => "Only family members can propose transactions",
            WalletError::ConfigNotFound => "Multi-sig config not found",
            WalletError::SignerNotFamily => "Only family members can sign transactions",
            WalletError::TransactionNotFound => "Transaction not found",
            WalletError::TransactionExpired => "Transaction expired",
            WalletError::AlreadySigned => "Already signed this transaction",
            WalletError::SignerNotAuthorized => "Signer not authorized for this transaction type",
            WalletError::AmountNotPositive => "Amount must be positive",
            WalletError::PercentagesMustSumTo100 => "Percentages must sum to 100",
            WalletError::OnlyOwnerOrAdminEmergency => "Only Owner or Admin can configure emergency settings",
            WalletError::EmergencyMaxNotPositive => "Emergency max amount must be positive",
            WalletError::EmergencyMinBalanceNegative => "Emergency min balance must be non-negative",
            WalletError::OnlyOwnerOrAdminMode => "Only Owner or Admin can change emergency mode",
            WalletError::OnlyOwnerOrAdminAddMember => "Only Owner or Admin can add family members",
            WalletError::OnlyOwnerRemove => "Only Owner can remove family members",
            WalletError::CannotRemoveOwner => "Cannot remove owner",
            WalletError::EmergencyConfigNotSet => "Emergency config not set",
            WalletError::EmergencyAmountExceedsMax => "Emergency amount exceeds maximum allowed",
            WalletError::EmergencyCooldown => "Emergency transfer cooldown period not elapsed",
            WalletError::EmergencyMinBalance => "Emergency transfer would violate minimum balance requirement",
            WalletError::DataMismatch => "Invalid transaction type or data mismatch",
        }
    }
}

/// A token transfer for the host layer to carry out.
#[derive(Clone, Copy, PartialEq, Eq, Structural, Debug)]
pub struct TokenTransfer {
    pub token: Address,
    pub from: Address,
    pub to: Address,
    pub amount: i128,
}

pub fn copy_addresses(v: &Vec<Address>) -> (r: Vec<Address>)
    ensures
        r@ == v@,
{
    let mut r: Vec<Address> = Vec::new();
    let n = v.len();
    let mut i: usize = 0;
    while i < n
        invariant
            n == v@.len(),
            i <= n,
            r@ == v@.take(i as int),
        decreases n - i,
    {
        r.push(v[i]);
        assert(v@.take(i + 1) =~= v@.take(i as int).push(v@[i as int]));
        i += 1;
    }
    assert(v@.take(n as int) =~= v@);
    r
}

pub fn contains_address(v: &Vec<Address>, a: Address) -> (b: bool)
    ensures
        b == v@.contains(a),
{
    let n = v.len();
    let mut i: usize = 0;
    while i < n
        invariant
            n == v@.len(),
            i <= n,
            forall|j: int| 0 <= j < i ==> v@[j] != a,
        decreases n - i,
    {
        if v[i] == a {
            assert(v@[i as int] == a);
            return true;
        }
        i += 1;
    }
    false
}

/// Position of a transaction type's configuration.
pub open spec fn type_index(t: TransactionType) -> int {
    match t {
        TransactionType::LargeWithdrawal => 0,
        TransactionType::SplitConfigChange => 1,
        TransactionType::RoleChange => 2,
        TransactionType::EmergencyTransfer => 3,
        TransactionType::PolicyCancellation => 4,
        TransactionType::RegularWithdrawal => 5,
    }
}

pub fn type_slot(t: TransactionType) -> (i: usize)
    ensures
        i == type_index(t),
{
    match t {
        TransactionType::LargeWithdrawal => 0,
        TransactionType::SplitConfigChange => 1,
        TransactionType::RoleChange => 2,
        TransactionType::EmergencyTransfer => 3,
        TransactionType::PolicyCancellation => 4,
        TransactionType::RegularWithdrawal => 5,
    }
}

/// The configuration that governs a proposal of `t`: regular withdrawals
/// are judged against the large-withdrawal configuration.
pub open spec fn governing_type(t: TransactionType) -> TransactionType {
    if t == TransactionType::RegularWithdrawal {
        TransactionType::LargeWithdrawal
    } else {
        t
    }
}

/// Whether a proposal of `t` with `data` must collect signatures, given the
/// spending limit `limit`: only regular withdrawals within the limit (and
/// regular proposals of other data) run at once.
pub open spec fn needs_multisig(t: TransactionType, data: TransactionData, limit: i128) -> bool {
    match t {
        TransactionType::RegularWithdrawal => match data {
            TransactionData::Withdrawal(_, _, amount) => amount > limit,
            _ => false,
        },
        _ => true,
    }
}

/// The effect of executing a transaction proposed by `proposer`: the new
/// members and the transfer to make, or a refusal for mismatched data.
pub open spec fn execution_effect(
    members: Map<Address, FamilyMember>,
    proposer: Address,
    t: TransactionType,
    data: TransactionData,
) -> Result<(Map<Address, FamilyMember>, Option<TokenTransfer>), WalletError> {
    match (t, data) {
        (TransactionType::RegularWithdrawal, TransactionData::Withdrawal(token, to, amount))
        | (TransactionType::LargeWithdrawal, TransactionData::Withdrawal(token, to, amount)) => Ok(
            (members, Some(TokenTransfer { token, from: proposer, to, amount })),
        ),
        (TransactionType::SplitConfigChange, TransactionData::SplitConfigChange(_, _, _, _)) => Ok(
            (members, None),
        ),
        (TransactionType::RoleChange, TransactionData::RoleChange(member, role)) => Ok(
            (
                if members.contains_key(member) {
                    members.insert(member, FamilyMember { role, ..members[member] })
                } else {
                    members
                },
                None,
            ),
        ),
        (TransactionType::EmergencyTransfer, TransactionData::EmergencyTransfer(token, to, amount)) => Ok(
            (members, Some(TokenTransfer { token, from: proposer, to, amount })),
        ),
        (TransactionType::PolicyCancellation, TransactionData::PolicyCancellation(_)) => Ok(
            (members, None),
        ),
        _ => Err(WalletError::DataMismatch),
    }
}

/// Whether `data` is the kind of data that a transaction of type `t` carries.
pub fn data_fits(t: TransactionType, data: TransactionData) -> (b: bool)
    ensures
        forall|m: Map<Address, FamilyMember>, p: Address|
            b == (#[trigger] execution_effect(m, p, t, data) is Ok),
{
    match (t, data) {
        (TransactionType::RegularWithdrawal, TransactionData::Withdrawal(_, _, _))
        | (TransactionType::LargeWithdrawal, TransactionData::Withdrawal(_, _, _)) => true,
        (TransactionType::SplitConfigChange, TransactionData::SplitConfigChange(_, _, _, _)) => true,
        (TransactionType::RoleChange, TransactionData::RoleChange(_, _)) => true,
        (TransactionType::EmergencyTransfer, TransactionData::EmergencyTransfer(_, _, _)) => true,
        (TransactionType::PolicyCancellation, TransactionData::PolicyCancellation(_)) => true,
        _ => false,
    }
}

/// A multi-signature configuration as `init` installs it: two signatures,
/// no named signers, the default spending limit.
pub open spec fn is_default_config(c: Option<MultiSigConfig>) -> bool {
    c matches Some(cfg) && cfg.threshold == 2 && cfg.signers@.len() == 0 && cfg.spending_limit
        == DEFAULT_LIMIT
}

/// The members right after initialisation: the owner, then each initial
/// member as a plain member (a later entry replacing an earlier one).
pub open spec fn members_after_init(owner: Address, list: Seq<Address>, now: u64) -> Map<Address, FamilyMember>
    decreases list.len(),
{
    if list.len() == 0 {
        Map::empty().insert(owner, FamilyMember { address: owner, role: FamilyRole::Owner, added_at: now })
    } else {
        members_after_init(owner, list.drop_last(), now).insert(
            list.last(),
            FamilyMember { address: list.last(), role: FamilyRole::Member, added_at: now },
        )
    }
}

/// The wallet state.
pub struct FamilyWallet {
    pub owner: Option<Address>,
    pub members: KeyMap<Address, FamilyMember>,
    /// One optional configuration per transaction type, by `type_index`.
    pub configs: Vec<Option<MultiSigConfig>>,
    pub pending: KeyMap<u64, PendingTransaction>,
    pub executed: KeyMap<u64, bool>,
    pub next_tx: u64,
    pub emergency_config: Option<EmergencyConfig>,
    pub emergency_mode: bool,
    /// Time of the last emergency transfer; 0 when none happened.
    pub last_emergency: u64,
}


impl FamilyWallet {
    /// Well-formedness: ordered maps, one configuration slot per transaction
    /// type, and no pending transaction carries the same signer twice.
    pub open spec fn wf(&self) -> bool {
        &&& self.members.wf()
        &&& self.pending.wf()
        &&& self.executed.wf()
        &&& self.configs@.len() == 6
        &&& forall|id: u64| #[trigger]
            self.pending@.contains_key(id) ==> self.pending@[id].signatures@.no_duplicates()
    }

    pub open spec fn is_member(&self, a: Address) -> bool {
        self.members@.contains_key(a)
    }

    pub open spec fn is_owner_or_admin(&self, a: Address) -> bool {
        &&& self.members@.contains_key(a)
        &&& (self.members@[a].role == FamilyRole::Owner || self.members@[a].role == FamilyRole::Admin)
    }

    pub open spec fn config_of(&self, t: TransactionType) -> Option<MultiSigConfig> {
        self.configs@[type_index(t)]
    }

    /// Owner, configurations, executed record and emergency settings are as in `other`.
    pub open spec fn same_settings(&self, other: &Self) -> bool {
        &&& self.owner == other.owner
        &&& self.configs == other.configs
        &&& self.executed == other.executed
        &&& self.emergency_config == other.emergency_config
        &&& self.emergency_mode == other.emergency_mode
        &&& self.last_emergency == other.last_emergency
    }

    /// Why a proposal of `t` with `data` by `proposer` is refused.
    pub open spec fn proposal_error(&self, proposer: Address, t: TransactionType, data: TransactionData) -> Option<
        WalletError,
    > {
        if !self.is_member(proposer) {
            Some(WalletError::ProposerNotMember)
        } else if self.config_of(governing_type(t)) is None {
            Some(WalletError::ConfigNotFound)
        } else if !needs_multisig(t, data, self.config_of(governing_type(t))->0.spending_limit)
            && execution_effect(self.members@, proposer, t, data) is Err {
            Some(WalletError::DataMismatch)
        } else {
            None
        }
    }

    /// Whether the proposal needs signatures (meaningful when it is not refused).
    pub open spec fn proposal_needs_signatures(&self, t: TransactionType, data: TransactionData) -> bool {
        needs_multisig(t, data, self.config_of(governing_type(t))->0.spending_limit)
    }

    /// How an accepted proposal changes the wallet from `self` to `new`,
    /// yielding identifier `id` and transfer `transfer`.
    pub open spec fn proposal_outcome(
        &self,
        new: &Self,
        proposer: Address,
        t: TransactionType,
        data: TransactionData,
        now: u64,
        id: u64,
        transfer: Option<TokenTransfer>,
    ) -> bool {
        &&& new.same_settings(self)
        &&& if self.proposal_needs_signatures(t, data) {
            &&& id == self.next_tx
            &&& new.next_tx == self.next_tx + 1
            &&& transfer is None
            &&& new.members == self.members
            &&& new.pending@ == self.pending@.insert(id, new.pending@[id])
            &&& new.pending@[id].tx_id == id
            &&& new.pending@[id].tx_type == t
            &&& new.pending@[id].proposer == proposer
            &&& new.pending@[id].signatures@ == seq![proposer]
            &&& new.pending@[id].created_at == now
            &&& new.pending@[id].expires_at == now + 86400
            &&& new.pending@[id].data == data
        } else {
            &&& id == 0
            &&& execution_effect(self.members@, proposer, t, data) == Ok::<
                (Map<Address, FamilyMember>, Option<TokenTransfer>),
                WalletError,
            >((new.members@, transfer))
            &&& new.next_tx == self.next_tx
            &&& new.pending == self.pending
        }
    }

    /// Why signing transaction `tx_id` by `signer` at `now` is refused.
    pub open spec fn sign_error(&self, signer: Address, tx_id: u64, now: u64) -> Option<WalletError> {
        let tx = self.pending@[tx_id];
        let c = self.config_of(tx.tx_type)->0;
        if !self.is_member(signer) {
            Some(WalletError::SignerNotFamily)
        } else if !self.pending@.contains_key(tx_id) {
            Some(WalletError::TransactionNotFound)
        } else if now > tx.expires_at {
            Some(WalletError::TransactionExpired)
        } else if tx.signatures@.contains(signer) {
            Some(WalletError::AlreadySigned)
        } else if self.config_of(tx.tx_type) is None {
            Some(WalletError::ConfigNotFound)
        } else if !c.signers@.contains(signer) {
            Some(WalletError::SignerNotAuthorized)
        } else if tx.signatures@.len() + 1 >= c.threshold && execution_effect(
            self.members@,
            tx.proposer,
            tx.tx_type,
            tx.data,
        ) is Err {
            Some(WalletError::DataMismatch)
        } else {
            None
        }
    }

    /// Why an immediate emergency transfer of `amount` is refused, given the
    /// proposer's balance `balance`.
    pub open spec fn emergency_error(&self, amount: i128, balance: i128, now: u64) -> Option<
        WalletError,
    > {
        let c = self.emergency_config->0;
        if self.emergency_config is None {
            Some(WalletError::EmergencyConfigNotSet)
        } else if amount > c.max_amount {
            Some(WalletError::EmergencyAmountExceedsMax)
        } else if self.last_emergency != 0 && now < vstd::math::min(
            self.last_emergency + c.cooldown,
            u64::MAX as int,
        ) {
            Some(WalletError::EmergencyCooldown)
        } else if balance - amount < c.min_balance {
            Some(WalletError::EmergencyMinBalance)
        } else {
            None
        }
    }

    /// Why initialising is refused: only once.
    pub open spec fn init_error(&self) -> Option<WalletError> {
        if self.owner is Some {
            Some(WalletError::AlreadyInitialized)
        } else {
            None
        }
    }

    /// Why configuring multi-signature approval is refused.
    pub open spec fn configure_error(
        &self,
        caller: Address,
        threshold: u32,
        signers: Seq<Address>,
        spending_limit: i128,
    ) -> Option<WalletError> {
        if !self.is_owner_or_admin(caller) {
            Some(WalletError::OnlyOwnerOrAdminConfigure)
        } else if threshold == 0 || threshold > signers.len() {
            Some(WalletError::InvalidThreshold)
        } else if exists|j: int| 0 <= j < signers.len() && !self.is_member(#[trigger] signers[j]) {
            Some(WalletError::SignerNotMember)
        } else if spending_limit < 0 {
            Some(WalletError::NegativeSpendingLimit)
        } else {
            None
        }
    }

    /// The type under which a withdrawal of `amount` is proposed: large
    /// above the large-withdrawal spending limit, regular otherwise.
    pub open spec fn withdrawal_type(&self, amount: i128) -> TransactionType {
        if amount > self.config_of(TransactionType::LargeWithdrawal)->0.spending_limit {
            TransactionType::LargeWithdrawal
        } else {
            TransactionType::RegularWithdrawal
        }
    }

    /// Why a withdrawal is refused.
    pub open spec fn withdraw_error(&self, proposer: Address, token: Address, recipient: Address, amount: i128) -> Option<
        WalletError,
    > {
        if amount <= 0 {
            Some(WalletError::AmountNotPositive)
        } else if self.config_of(TransactionType::LargeWithdrawal) is None {
            Some(WalletError::ConfigNotFound)
        } else {
            self.proposal_error(
                proposer,
                self.withdrawal_type(amount),
                TransactionData::Withdrawal(token, recipient, amount),
            )
        }
    }

    /// Why a proposal of new split percentages is refused.
    pub open spec fn split_change_error(
        &self,
        proposer: Address,
        spending_percent: u32,
        savings_percent: u32,
        bills_percent: u32,
        insurance_percent: u32,
    ) -> Option<WalletError> {
        if spending_percent + savings_percent + bills_percent + insurance_percent != 100 {
            Some(WalletError::PercentagesMustSumTo100)
        } else {
            self.proposal_error(
                proposer,
                TransactionType::SplitConfigChange,
                TransactionData::SplitConfigChange(
                    spending_percent,
                    savings_percent,
                    bills_percent,
                    insurance_percent,
                ),
            )
        }
    }

    /// Why an emergency transfer is refused: in emergency mode by the
    /// emergency limits, otherwise as any proposal.
    pub open spec fn emergency_transfer_error(
        &self,
        proposer: Address,
        token: Address,
        recipient: Address,
        amount: i128,
        balance: i128,
        now: u64,
    ) -> Option<WalletError> {
        if amount <= 0 {
            Some(WalletError::AmountNotPositive)
        } else if self.emergency_mode {
            self.emergency_error(amount, balance, now)
        } else {
            self.proposal_error(
                proposer,
                TransactionType::EmergencyTransfer,
                TransactionData::EmergencyTransfer(token, recipient, amount),
            )
        }
    }

    /// Why setting the emergency limits is refused.
    pub open spec fn configure_emergency_error(&self, caller: Address, max_amount: i128, min_balance: i128) -> Option<
        WalletError,
    > {
        if !self.is_owner_or_admin(caller) {
            Some(WalletError::OnlyOwnerOrAdminEmergency)
        } else if max_amount <= 0 {
            Some(WalletError::EmergencyMaxNotPositive)
        } else if min_balance < 0 {
            Some(WalletError::EmergencyMinBalanceNegative)
        } else {
            None
        }
    }

    /// Why switching emergency mode is refused.
    pub open spec fn mode_error(&self, caller: Address) -> Option<WalletError> {
        if !self.is_owner_or_admin(caller) {
            Some(WalletError::OnlyOwnerOrAdminMode)
        } else {
            None
        }
    }

    /// Why adding a member is refused.
    pub open spec fn add_member_error(&self, caller: Address) -> Option<WalletError> {
        if !self.is_owner_or_admin(caller) {
            Some(WalletError::OnlyOwnerOrAdminAddMember)
        } else {
            None
        }
    }

    /// Why removing a member is refused.
    pub open spec fn remove_member_error(&self, caller: Address, member: Address) -> Option<WalletError> {
        match self.owner {
            None => Some(WalletError::NotInitialized),
            Some(o) => if caller != o {
                Some(WalletError::OnlyOwnerRemove)
            } else if member == o {
                Some(WalletError::CannotRemoveOwner)
            } else {
                None
            },
        }
    }

    /// A wallet before initialisation.
    pub fn new() -> (w: FamilyWallet)
        ensures
            w.wf(),
            w.owner is None,
            w.members@ == Map::<Address, FamilyMember>::empty(),
            forall|i: int| 0 <= i < 6 ==> #[trigger] w.configs@[i] is None,
            w.pending@ == Map::<u64, PendingTransaction>::empty(),
            w.executed@ == Map::<u64, bool>::empty(),
            w.next_tx == 1,
            w.emergency_config is None,
            !w.emergency_mode,
            w.last_emergency == 0,
    {
        let mut configs: Vec<Option<MultiSigConfig>> = Vec::new();
        let mut i: usize = 0;
        while i < 6
            invariant
                i <= 6,
                configs@.len() == i,
                forall|j: int| 0 <= j < i ==> #[trigger] configs@[j] is None,
            decreases 6 - i,
        {
            configs.push(None);
            i += 1;
        }
        FamilyWallet {
            owner: None,
            members: KeyMap::new(),
            configs,
            pending: KeyMap::new(),
            executed: KeyMap::new(),
            next_tx: 1,
            emergency_config: None,
            emergency_mode: false,
            last_emergency: 0,
        }
    }

    fn member_role(&self, a: Address) -> (r: Option<FamilyRole>)
        requires
            self.wf(),
        ensures
            r == if self.members@.contains_key(a) {
                Some(self.members@[a].role)
            } else {
                None
            },
    {
        match self.members.get(a) {
            Some(m) => Some(m.role),
            None => None,
        }
    }

    fn check_owner_or_admin(&self, a: Address) -> (b: bool)
        requires
            self.wf(),
        ensures
            b == self.is_owner_or_admin(a),
    {
        match self.member_role(a) {
            Some(FamilyRole::Owner) => true,
            Some(FamilyRole::Admin) => true,
            _ => false,
        }
    }

    /// Whether the wallet has been initialised.
    pub fn initialized(&self) -> (b: bool)
        ensures
            b == (self.owner is Some),
    {
        self.owner.is_some()
    }

    /// The refusal of `init`, if any.
    pub fn init_refusal(&self) -> (r: Option<WalletError>)
        ensures
            r == self.init_error(),
    {
        if self.owner.is_some() {
            Some(WalletError::AlreadyInitialized)
        } else {
            None
        }
    }

    /// The refusal of `configure_multisig`, if any.
    pub fn configure_multisig_refusal(
        &self,
        caller: Address,
        threshold: u32,
        signers: &Vec<Address>,
        spending_limit: i128,
    ) -> (r: Option<WalletError>)
        requires
            self.wf(),
        ensures
            r == self.configure_error(caller, threshold, signers@, spending_limit),
    {
        if !self.check_owner_or_admin(caller) {
            return Some(WalletError::OnlyOwnerOrAdminConfigure);
        }
        if threshold == 0 || threshold as usize > signers.len() {
            return Some(WalletError::InvalidThreshold);
        }
        let n = signers.len();
        let mut j: usize = 0;
        while j < n
            invariant
                n == signers@.len(),
                j <= n,
                self.wf(),
                self.is_owner_or_admin(caller),
                0 < threshold <= signers@.len(),
                forall|q: int| 0 <= q < j ==> self.is_member(#[trigger] signers@[q]),
            decreases n - j,
        {
            if !self.members.contains_key(signers[j]) {
                assert(!self.is_member(signers@[j as int]));
                return Some(WalletError::SignerNotMember);
            }
            j += 1;
        }
        if spending_limit < 0 {
            return Some(WalletError::NegativeSpendingLimit);
        }
        None
    }

    /// The refusal of a proposal of `tx_type` with `data`, if any.
    pub fn proposal_refusal(&self, proposer: Address, tx_type: TransactionType, data: TransactionData) -> (r:
        Option<WalletError>)
        requires
            self.wf(),
        ensures
            r == self.proposal_error(proposer, tx_type, data),
    {
        if !self.members.contains_key(proposer) {
            return Some(WalletError::ProposerNotMember);
        }
        let slot = type_slot(
            if tx_type == TransactionType::RegularWithdrawal {
                TransactionType::LargeWithdrawal
            } else {
                tx_type
            },
        );
        let limit = match &self.configs[slot] {
            None => {
                return Some(WalletError::ConfigNotFound);
            },
            Some(c) => c.spending_limit,
        };
        let needs = match tx_type {
            TransactionType::RegularWithdrawal => match data {
                TransactionData::Withdrawal(_, _, amount) => amount > limit,
                _ => false,
            },
            _ => true,
        };
        if !needs && !data_fits(tx_type, data) {
            return Some(WalletError::DataMismatch);
        }
        None
    }

    /// The refusal of signing `tx_id` by `signer` at `now`, if any.
    pub fn sign_refusal(&self, signer: Address, tx_id: u64, now: u64) -> (r: Option<WalletError>)
        requires
            self.wf(),
        ensures
            r == self.sign_error(signer, tx_id, now),
    {
        if !self.members.contains_key(signer) {
            return Some(WalletError::SignerNotFamily);
        }
        let tx = match self.pending.get(tx_id) {
            None => {
                return Some(WalletError::TransactionNotFound);
            },
            Some(t) => t,
        };
        if now > tx.expires_at {
            return Some(WalletError::TransactionExpired);
        }
        if contains_address(&tx.signatures, signer) {
            return Some(WalletError::AlreadySigned);
        }
        let slot = type_slot(tx.tx_type);
        match &self.configs[slot] {
            None => Some(WalletError::ConfigNotFound),
            Some(c) => {
                if !contains_address(&c.signers, signer) {
                    Some(WalletError::SignerNotAuthorized)
                } else if (tx.signatures.len() >= c.threshold as usize || tx.signatures.len() + 1
                    == c.threshold as usize) && !data_fits(tx.tx_type, tx.data) {
                    Some(WalletError::DataMismatch)
                } else {
                    None
                }
            },
        }
    }

    /// The refusal of a withdrawal, if any.
    pub fn withdraw_refusal(&self, proposer: Address, token: Address, recipient: Address, amount: i128) -> (r:
        Option<WalletError>)
        requires
            self.wf(),
        ensures
            r == self.withdraw_error(proposer, token, recipient, amount),
    {
        if amount <= 0 {
            return Some(WalletError::AmountNotPositive);
        }
        let limit = match &self.configs[0] {
            None => {
                return Some(WalletError::ConfigNotFound);
            },
            Some(c) => c.spending_limit,
        };
        let tx_type = if amount > limit {
            TransactionType::LargeWithdrawal
        } else {
            TransactionType::RegularWithdrawal
        };
        self.proposal_refusal(proposer, tx_type, TransactionData::Withdrawal(token, recipient, amount))
    }

    /// The refusal of a proposal of new split percentages, if any.
    pub fn split_change_refusal(
        &self,
        proposer: Address,
        spending_percent: u32,
        savings_percent: u32,
        bills_percent: u32,
        insurance_percent: u32,
    ) -> (r: Option<WalletError>)
        requires
            self.wf(),
            spending_percent + savings_percent + bills_percent + insurance_percent <= u32::MAX,
        ensures
            r == self.split_change_error(
                proposer,
                spending_percent,
                savings_percent,
                bills_percent,
                insurance_percent,
            ),
    {
        if spending_percent + savings_percent + bills_percent + insurance_percent != 100 {
            return Some(WalletError::PercentagesMustSumTo100);
        }
        self.proposal_refusal(
            proposer,
            TransactionType::SplitConfigChange,
            TransactionData::SplitConfigChange(
                spending_percent,
                savings_percent,
                bills_percent,
                insurance_percent,
            ),
        )
    }

    /// The refusal of an emergency transfer, if any; `proposer_balance` is
    /// consulted only in emergency mode.
    pub fn emergency_transfer_refusal(
        &self,
        proposer: Address,
        token: Address,
        recipient: Address,
        amount: i128,
        proposer_balance: i128,
        now: u64,
    ) -> (r: Option<WalletError>)
        requires
            self.wf(),
            self.emergency_mode && amount > 0 ==> proposer_balance - amount >= i128::MIN,
        ensures
            r == self.emergency_transfer_error(proposer, token, recipient, amount, proposer_balance, now),
    {
        if amount <= 0 {
            return Some(WalletError::AmountNotPositive);
        }
        if self.emergency_mode {
            match self.emergency_config {
                None => Some(WalletError::EmergencyConfigNotSet),
                Some(c) => {
                    if amount > c.max_amount {
                        Some(WalletError::EmergencyAmountExceedsMax)
                    } else if self.last_emergency != 0 && now < self.last_emergency.saturating_add(
                        c.cooldown,
                    ) {
                        Some(WalletError::EmergencyCooldown)
                    } else if proposer_balance - amount < c.min_balance {
                        Some(WalletError::EmergencyMinBalance)
                    } else {
                        None
                    }
                },
            }
        } else {
            self.proposal_refusal(
                proposer,
                TransactionType::EmergencyTransfer,
                TransactionData::EmergencyTransfer(token, recipient, amount),
            )
        }
    }

    /// The refusal of `configure_emergency`, if any.
    pub fn configure_emergency_refusal(&self, caller: Address, max_amount: i128, min_balance: i128) -> (r:
        Option<WalletError>)
        requires
            self.wf(),
        ensures
            r == self.configure_emergency_error(caller, max_amount, min_balance),
    {
        if !self.check_owner_or_admin(caller) {
            Some(WalletError::OnlyOwnerOrAdminEmergency)
        } else if max_amount <= 0 {
            Some(WalletError::EmergencyMaxNotPositive)
        } else if min_balance < 0 {
            Some(WalletError::EmergencyMinBalanceNegative)
        } else {
            None
        }
    }

    /// The refusal of `set_emergency_mode`, if any.
    pub fn emergency_mode_refusal(&self, caller: Address) -> (r: Option<WalletError>)
        requires
            self.wf(),
        ensures
            r == self.mode_error(caller),
    {
        if !self.check_owner_or_admin(caller) {
            Some(WalletError::OnlyOwnerOrAdminMode)
        } else {
            None
        }
    }

    /// The refusal of `add_family_member`, if any.
    pub fn add_member_refusal(&self, caller: Address) -> (r: Option<WalletError>)
        requires
            self.wf(),
        ensures
            r == self.add_member_error(caller),
    {
        if !self.check_owner_or_admin(caller) {
            Some(WalletError::OnlyOwnerOrAdminAddMember)
        } else {
            None
        }
    }

    /// The refusal of `remove_family_member`, if any.
    pub fn remove_member_refusal(&self, caller: Address, member: Address) -> (r: Option<WalletError>)
        ensures
            r == self.remove_member_error(caller, member),
    {
        match self.owner {
            None => Some(WalletError::NotInitialized),
            Some(o) => if caller != o {
                Some(WalletError::OnlyOwnerRemove)
            } else if member == o {
                Some(WalletError::CannotRemoveOwner)
            } else {
                None
            },
        }
    }

    /// Initialises the wallet: `owner` becomes its owner, each initial member
    /// a member; every multi-signature type gets a two-signature default and
    /// emergency mode starts off.
    pub fn init(&mut self, owner: Address, initial_members: Vec<Address>, now: u64) -> (b: bool)
        requires
            old(self).wf(),
            old(self).init_error() is None,
        ensures
            final(self).wf(),
            b,
            final(self).owner == Some(owner),
            final(self).members@ == members_after_init(owner, initial_members@, now),
            forall|i: int| 0 <= i < 5 ==> is_default_config(#[trigger] final(self).configs@[i]),
            final(self).configs@[5] == old(self).configs@[5],
            final(self).pending@ == Map::<u64, PendingTransaction>::empty(),
            final(self).executed@ == Map::<u64, bool>::empty(),
            final(self).next_tx == 1,
            final(self).emergency_config == Some(
                EmergencyConfig { max_amount: 10000000000, cooldown: 3600, min_balance: 0 },
            ),
            !final(self).emergency_mode,
            final(self).last_emergency == 0,
    {
        self.owner = Some(owner);
        let mut members: KeyMap<Address, FamilyMember> = KeyMap::new();
        members.set(owner, FamilyMember { address: owner, role: FamilyRole::Owner, added_at: now });
        let ghost list = initial_members@;
        let n = initial_members.len();
        let mut i: usize = 0;
        assert(list.take(0) =~= Seq::<Address>::empty());
        while i < n
            invariant
                n == list.len(),
                list == initial_members@,
                i <= n,
                members.wf(),
                members@ == members_after_init(owner, list.take(i as int), now),
            decreases n - i,
        {
            let a = initial_members[i];
            assert(list.take(i + 1).drop_last() =~= list.take(i as int));
            members.set(a, FamilyMember { address: a, role: FamilyRole::Member, added_at: now });
            i += 1;
        }
        assert(list.take(n as int) =~= list);
        self.members = members;
        let mut k: usize = 0;
        while k < 5
            invariant
                k <= 5,
                self.configs@.len() == 6,
                self.configs@[5] == old(self).configs@[5],
                forall|j: int| 0 <= j < k ==> is_default_config(#[trigger] self.configs@[j]),
                self.members.wf(),
                self.members@ == members_after_init(owner, initial_members@, now),
                self.owner == Some(owner),
                old(self).owner is None,
            decreases 5 - k,
        {
            self.configs.set(
                k,
                Some(MultiSigConfig { threshold: 2, signers: Vec::new(), spending_limit: DEFAULT_LIMIT }),
            );
            k += 1;
        }
        self.pending = KeyMap::new();
        self.executed = KeyMap::new();
        self.next_tx = 1;
        self.emergency_config = Some(
            EmergencyConfig { max_amount: DEFAULT_LIMIT, cooldown: DEFAULT_COOLDOWN, min_balance: 0 },
        );
        self.emergency_mode = false;
        self.last_emergency = 0;
        true
    }

    /// Sets the threshold, signers and spending limit of a transaction type
    /// (owner or admin only); every signer must be a member.
    pub fn configure_multisig(
        &mut self,
        caller: Address,
        tx_type: TransactionType,
        threshold: u32,
        signers: Vec<Address>,
        spending_limit: i128,
    ) -> (b: bool)
        requires
            old(self).wf(),
            old(self).configure_error(caller, threshold, signers@, spending_limit) is None,
        ensures
            final(self).wf(),
            b,
            final(self).configs@.len() == 6,
            forall|i: int|
                0 <= i < 6 && i != type_index(tx_type) ==> #[trigger] final(self).configs@[i]
                    == old(self).configs@[i],
            final(self).configs@[type_index(tx_type)] matches Some(c) && c.threshold == threshold
                && c.signers@ == signers@ && c.spending_limit == spending_limit,
            final(self).members == old(self).members,
            final(self).pending == old(self).pending,
            final(self).executed == old(self).executed,
            final(self).next_tx == old(self).next_tx,
            final(self).owner == old(self).owner,
            final(self).emergency_config == old(self).emergency_config,
            final(self).emergency_mode == old(self).emergency_mode,
            final(self).last_emergency == old(self).last_emergency,
    {
        let slot = type_slot(tx_type);
        self.configs.set(slot, Some(MultiSigConfig { threshold, signers, spending_limit }));
        true
    }

    fn execute_internal(&mut self, proposer: Address, t: TransactionType, data: TransactionData) -> (transfer:
        Option<TokenTransfer>)
        requires
            old(self).wf(),
            execution_effect(old(self).members@, proposer, t, data) is Ok,
        ensures
            final(self).wf(),
            execution_effect(old(self).members@, proposer, t, data) == Ok::<
                (Map<Address, FamilyMember>, Option<TokenTransfer>),
                WalletError,
            >((final(self).members@, transfer)),
            final(self).same_settings(&*old(self)),
            final(self).pending == old(self).pending,
            final(self).next_tx == old(self).next_tx,
    {
        match (t, data) {
            (TransactionType::RegularWithdrawal, TransactionData::Withdrawal(token, to, amount))
            | (TransactionType::LargeWithdrawal, TransactionData::Withdrawal(token, to, amount)) => {
                Some(TokenTransfer { token, from: proposer, to, amount })
            },
            (TransactionType::RoleChange, TransactionData::RoleChange(member, role)) => {
                match self.members.get(member) {
                    Some(m) => {
                        let updated = FamilyMember { role, ..*m };
                        self.members.set(member, updated);
                    },
                    None => {},
                }
                None
            },
            (
                TransactionType::EmergencyTransfer,
                TransactionData::EmergencyTransfer(token, to, amount),
            ) => { Some(TokenTransfer { token, from: proposer, to, amount }) },
            _ => None,
        }
    }

    /// Whether a proposal of `tx_type` with `data` must collect signatures
    /// before it runs.
    pub fn needs_signatures(&self, tx_type: TransactionType, data: TransactionData) -> (b: bool)
        requires
            self.wf(),
            self.config_of(governing_type(tx_type)) is Some,
        ensures
            b == self.proposal_needs_signatures(tx_type, data),
    {
        let slot = type_slot(
            if tx_type == TransactionType::RegularWithdrawal {
                TransactionType::LargeWithdrawal
            } else {
                tx_type
            },
        );
        let limit = match &self.configs[slot] {
            None => 0,
            Some(c) => c.spending_limit,
        };
        let needs = match tx_type {
            TransactionType::RegularWithdrawal => match data {
                TransactionData::Withdrawal(_, _, amount) => amount > limit,
                _ => false,
            },
            _ => true,
        };
        needs
    }

    /// The type under which a withdrawal of `amount` is proposed.
    pub fn withdrawal_kind(&self, amount: i128) -> (t: TransactionType)
        requires
            self.wf(),
            self.config_of(TransactionType::LargeWithdrawal) is Some,
        ensures
            t == self.withdrawal_type(amount),
    {
        let limit = match &self.configs[0] {
            None => 0,
            Some(c) => c.spending_limit,
        };
        if amount > limit {
            TransactionType::LargeWithdrawal
        } else {
            TransactionType::RegularWithdrawal
        }
    }

    /// Proposes a transaction.  One that needs no signatures runs at once
    /// and yields 0; otherwise it waits, signed by its proposer, under a new
    /// identifier.  The transfer to carry out, if any, comes with the result.
    pub fn propose_transaction(
        &mut self,
        proposer: Address,
        tx_type: TransactionType,
        data: TransactionData,
        now: u64,
    ) -> (r: (u64, Option<TokenTransfer>))
        requires
            old(self).wf(),
            old(self).proposal_needs_signatures(tx_type, data) ==> old(self).next_tx < u64::MAX && now
                + 86400 <= u64::MAX,
            old(self).proposal_error(proposer, tx_type, data) is None,
        ensures
            final(self).wf(),
            old(self).proposal_outcome(&*final(self), proposer, tx_type, data, now, r.0, r.1),
    {
        let needs = self.needs_signatures(tx_type, data);
        if !needs {
            let transfer = self.execute_internal(proposer, tx_type, data);
            return (0, transfer);
        }
        let tx_id = self.next_tx;
        self.next_tx = tx_id + 1;
        let mut signatures: Vec<Address> = Vec::new();
        signatures.push(proposer);
        let tx = PendingTransaction {
            tx_id,
            tx_type,
            proposer,
            signatures,
            created_at: now,
            expires_at: now + SIGNATURE_EXPIRATION,
            data,
        };
        self.pending.set(tx_id, tx);
        proof {
            assert(self.pending@[tx_id].signatures@ =~= seq![proposer]);
        }
        (tx_id, None)
    }

    /// Adds a signature from an authorised signer; when the signatures reach
    /// the threshold the transaction runs, leaves the pending set and is
    /// recorded as executed.  The transfer to carry out, if any, comes with
    /// the result.
    pub fn sign_transaction(&mut self, signer: Address, tx_id: u64, now: u64) -> (r: (
        bool,
        Option<TokenTransfer>,
    ))
        requires
            old(self).wf(),
            old(self).sign_error(signer, tx_id, now) is None,
        ensures
            final(self).wf(),
            ({
                let tx = old(self).pending@[tx_id];
                let c = old(self).config_of(tx.tx_type)->0;
                &&& r.0
                &&& final(self).owner == old(self).owner
                &&& final(self).configs == old(self).configs
                &&& final(self).emergency_config == old(self).emergency_config
                &&& final(self).emergency_mode == old(self).emergency_mode
                &&& final(self).last_emergency == old(self).last_emergency
                &&& final(self).next_tx == old(self).next_tx
                &&& if tx.signatures@.len() + 1 >= c.threshold {
                    &&& execution_effect(old(self).members@, tx.proposer, tx.tx_type, tx.data)
                        == Ok::<(Map<Address, FamilyMember>, Option<TokenTransfer>), WalletError>(
                        (final(self).members@, r.1),
                    )
                    &&& final(self).pending@ == old(self).pending@.remove(tx_id)
                    &&& final(self).executed@ == old(self).executed@.insert(tx_id, true)
                } else {
                    &&& r.1 is None
                    &&& final(self).members == old(self).members
                    &&& final(self).executed == old(self).executed
                    &&& final(self).pending@ == old(self).pending@.insert(
                        tx_id,
                        final(self).pending@[tx_id],
                    )
                    &&& final(self).pending@[tx_id].signatures@ == tx.signatures@.push(signer)
                    &&& final(self).pending@[tx_id].tx_id == tx.tx_id
                    &&& final(self).pending@[tx_id].tx_type == tx.tx_type
                    &&& final(self).pending@[tx_id].proposer == tx.proposer
                    &&& final(self).pending@[tx_id].created_at == tx.created_at
                    &&& final(self).pending@[tx_id].expires_at == tx.expires_at
                    &&& final(self).pending@[tx_id].data == tx.data
                }
            }),
    {
        let mut tx = self.pending.get(tx_id).unwrap().clone();
        let slot = type_slot(tx.tx_type);
        let threshold = match &self.configs[slot] {
            Some(c) => c.threshold,
            None => 0,
        };
        tx.signatures.push(signer);
        if tx.signatures.len() >= threshold as usize {
            let transfer = self.execute_internal(tx.proposer, tx.tx_type, tx.data);
            self.pending.remove(tx_id);
            self.executed.set(tx_id, true);
            return (true, transfer);
        }
        self.pending.set(tx_id, tx);
        (true, None)
    }

    /// Withdraws `amount` of `token` to `recipient`: within the spending
    /// limit of large withdrawals it runs at once, above it it needs signatures.
    pub fn withdraw(
        &mut self,
        proposer: Address,
        token: Address,
        recipient: Address,
        amount: i128,
        now: u64,
    ) -> (r: (u64, Option<TokenTransfer>))
        requires
            old(self).wf(),
            old(self).proposal_needs_signatures(
                old(self).withdrawal_type(amount),
                TransactionData::Withdrawal(token, recipient, amount),
            ) ==> old(self).next_tx < u64::MAX && now + 86400 <= u64::MAX,
            old(self).withdraw_error(proposer, token, recipient, amount) is None,
        ensures
            final(self).wf(),
            old(self).proposal_outcome(
                &*final(self),
                proposer,
                old(self).withdrawal_type(amount),
                TransactionData::Withdrawal(token, recipient, amount),
                now,
                r.0,
                r.1,
            ),
    {
        let tx_type = self.withdrawal_kind(amount);
        self.propose_transaction(
            proposer,
            tx_type,
            TransactionData::Withdrawal(token, recipient, amount),
            now,
        )
    }

    /// Proposes new split percentages, which must add up to one hundred.
    pub fn propose_split_config_change(
        &mut self,
        proposer: Address,
        spending_percent: u32,
        savings_percent: u32,
        bills_percent: u32,
        insurance_percent: u32,
        now: u64,
    ) -> (r: (u64, Option<TokenTransfer>))
        requires
            old(self).wf(),
            old(self).next_tx < u64::MAX,
            now + 86400 <= u64::MAX,
            spending_percent + savings_percent + bills_percent + insurance_percent <= u32::MAX,
            old(self).split_change_error(
                proposer,
                spending_percent,
                savings_percent,
                bills_percent,
                insurance_percent,
            ) is None,
        ensures
            final(self).wf(),
            old(self).proposal_outcome(
                &*final(self),
                proposer,
                TransactionType::SplitConfigChange,
                TransactionData::SplitConfigChange(
                    spending_percent,
                    savings_percent,
                    bills_percent,
                    insurance_percent,
                ),
                now,
                r.0,
                r.1,
            ),
    {
        self.propose_transaction(
            proposer,
            TransactionType::SplitConfigChange,
            TransactionData::SplitConfigChange(
                spending_percent,
                savings_percent,
                bills_percent,
                insurance_percent,
            ),
            now,
        )
    }

    /// Proposes giving `member` the role `new_role`.
    pub fn propose_role_change(
        &mut self,
        proposer: Address,
        member: Address,
        new_role: FamilyRole,
        now: u64,
    ) -> (r: (u64, Option<TokenTransfer>))
        requires
            old(self).wf(),
            old(self).next_tx < u64::MAX,
            now + 86400 <= u64::MAX,
            old(self).proposal_error(
                proposer,
                TransactionType::RoleChange,
                TransactionData::RoleChange(member, new_role),
            ) is None,
        ensures
            final(self).wf(),
            old(self).proposal_outcome(
                &*final(self),
                proposer,
                TransactionType::RoleChange,
                TransactionData::RoleChange(member, new_role),
                now,
                r.0,
                r.1,
            ),
    {
        self.propose_transaction(
            proposer,
            TransactionType::RoleChange,
            TransactionData::RoleChange(member, new_role),
            now,
        )
    }

    /// Proposes cancelling insurance policy `policy_id`.
    pub fn propose_policy_cancellation(&mut self, proposer: Address, policy_id: u32, now: u64) -> (r: (
        u64,
        Option<TokenTransfer>,
    ))
        requires
            old(self).wf(),
            old(self).next_tx < u64::MAX,
            now + 86400 <= u64::MAX,
            old(self).proposal_error(
                proposer,
                TransactionType::PolicyCancellation,
                TransactionData::PolicyCancellation(policy_id),
            ) is None,
        ensures
            final(self).wf(),
            old(self).proposal_outcome(
                &*final(self),
                proposer,
                TransactionType::PolicyCancellation,
                TransactionData::PolicyCancellation(policy_id),
                now,
                r.0,
                r.1,
            ),
    {
        self.propose_transaction(
            proposer,
            TransactionType::PolicyCancellation,
            TransactionData::PolicyCancellation(policy_id),
            now,
        )
    }

    /// Proposes an emergency transfer.  In emergency mode it runs at once
    /// within the emergency limits (`proposer_balance` is the proposer's
    /// balance of `token`, consulted only then) and yields 0; otherwise it
    /// needs signatures like any other proposal.
    pub fn propose_emergency_transfer(
        &mut self,
        proposer: Address,
        token: Address,
        recipient: Address,
        amount: i128,
        proposer_balance: i128,
        now: u64,
    ) -> (r: (u64, Option<TokenTransfer>))
        requires
            old(self).wf(),
            !old(self).emergency_mode ==> old(self).next_tx < u64::MAX && now + 86400 <= u64::MAX,
            old(self).emergency_mode && amount > 0 ==> proposer_balance - amount >= i128::MIN,
            old(self).emergency_transfer_error(
                proposer,
                token,
                recipient,
                amount,
                proposer_balance,
                now,
            ) is None,
        ensures
            final(self).wf(),
            if old(self).emergency_mode {
                &&& r.0 == 0
                &&& r.1 == Some(TokenTransfer { token, from: proposer, to: recipient, amount })
                &&& final(self).last_emergency == if now == 0 {
                    1
                } else {
                    now
                }
                &&& final(self).owner == old(self).owner
                &&& final(self).members == old(self).members
                &&& final(self).configs == old(self).configs
                &&& final(self).pending == old(self).pending
                &&& final(self).executed == old(self).executed
                &&& final(self).next_tx == old(self).next_tx
                &&& final(self).emergency_config == old(self).emergency_config
                &&& final(self).emergency_mode == old(self).emergency_mode
            } else {
                old(self).proposal_outcome(
                    &*final(self),
                    proposer,
                    TransactionType::EmergencyTransfer,
                    TransactionData::EmergencyTransfer(token, recipient, amount),
                    now,
                    r.0,
                    r.1,
                )
            },
    {
        if self.emergency_mode {
            self.last_emergency = if now == 0 {
                1
            } else {
                now
            };
            return (0, Some(TokenTransfer { token, from: proposer, to: recipient, amount }));
        }
        self.propose_transaction(
            proposer,
            TransactionType::EmergencyTransfer,
            TransactionData::EmergencyTransfer(token, recipient, amount),
            now,
        )
    }

    /// Sets the emergency limits (owner or admin only).
    pub fn configure_emergency(&mut self, caller: Address, max_amount: i128, cooldown: u64, min_balance: i128) -> (b:
        bool)
        requires
            old(self).wf(),
            old(self).configure_emergency_error(caller, max_amount, min_balance) is None,
        ensures
            final(self).wf(),
            b,
            final(self).emergency_config == Some(EmergencyConfig { max_amount, cooldown, min_balance }),
            final(self).members == old(self).members,
            final(self).configs == old(self).configs,
            final(self).pending == old(self).pending,
            final(self).executed == old(self).executed,
            final(self).next_tx == old(self).next_tx,
            final(self).owner == old(self).owner,
            final(self).emergency_mode == old(self).emergency_mode,
            final(self).last_emergency == old(self).last_emergency,
    {
        self.emergency_config = Some(EmergencyConfig { max_amount, cooldown, min_balance });
        true
    }

    /// Turns emergency mode on or off (owner or admin only).
    pub fn set_emergency_mode(&mut self, caller: Address, enabled: bool) -> (b: bool)
        requires
            old(self).wf(),
            old(self).mode_error(caller) is None,
        ensures
            final(self).wf(),
            b,
            final(self).emergency_mode == enabled,
            final(self).members == old(self).members,
            final(self).configs == old(self).configs,
            final(self).pending == old(self).pending,
            final(self).executed == old(self).executed,
            final(self).next_tx == old(self).next_tx,
            final(self).owner == old(self).owner,
            final(self).emergency_config == old(self).emergency_config,
            final(self).last_emergency == old(self).last_emergency,
    {
        self.emergency_mode = enabled;
        true
    }

    /// Adds or re-roles a member (owner or admin only).
    pub fn add_family_member(&mut self, caller: Address, member: Address, role: FamilyRole, now: u64) -> (b:
        bool)
        requires
            old(self).wf(),
            old(self).add_member_error(caller) is None,
        ensures
            final(self).wf(),
            b,
            final(self).members@ == old(self).members@.insert(
                member,
                FamilyMember { address: member, role, added_at: now },
            ),
            final(self).same_settings(&*old(self)),
            final(self).pending == old(self).pending,
            final(self).next_tx == old(self).next_tx,
    {
        self.members.set(member, FamilyMember { address: member, role, added_at: now });
        true
    }

    /// Removes a member (owner only); the owner cannot be removed.
    pub fn remove_family_member(&mut self, caller: Address, member: Address) -> (b: bool)
        requires
            old(self).wf(),
            old(self).remove_member_error(caller, member) is None,
        ensures
            final(self).wf(),
            b,
            final(self).members@ == old(self).members@.remove(member),
            final(self).same_settings(&*old(self)),
            final(self).pending == old(self).pending,
            final(self).next_tx == old(self).next_tx,
    {
        self.members.remove(member);
        true
    }

    /// A pending transaction of the initialised wallet.
    pub fn get_pending_transaction(&self, tx_id: u64) -> (r: Option<PendingTransaction>)
        requires
            self.wf(),
            self.owner is Some,
        ensures
            match r {
                None => !self.pending@.contains_key(tx_id),
                Some(t) => self.pending@.contains_key(tx_id) && t.same_as(&self.pending@[tx_id]),
            },
    {
        match self.pending.get(tx_id) {
            Some(t) => Some(t.clone()),
            None => None,
        }
    }

    pub fn get_multisig_config(&self, tx_type: TransactionType) -> (r: Option<MultiSigConfig>)
        requires
            self.wf(),
        ensures
            match r {
                None => self.config_of(tx_type) is None,
                Some(c) => self.config_of(tx_type) is Some && c.same_as(&self.config_of(tx_type)->0),
            },
    {
        match &self.configs[type_slot(tx_type)] {
            Some(c) => Some(c.clone()),
            None => None,
        }
    }

    /// A member's record in the initialised wallet.
    pub fn get_family_member(&self, member: Address) -> (r: Option<FamilyMember>)
        requires
            self.wf(),
            self.owner is Some,
        ensures
            r == if self.members@.contains_key(member) {
                Some(self.members@[member])
            } else {
                None
            },
    {
        match self.members.get(member) {
            Some(m) => Some(*m),
            None => None,
        }
    }

    /// The owner of the initialised wallet.
    pub fn get_owner(&self) -> (o: Address)
        requires
            self.owner is Some,
        ensures
            self.owner == Some(o),
    {
        self.owner.unwrap()
    }

    pub fn get_emergency_config(&self) -> (r: Option<EmergencyConfig>)
        ensures
            r == self.emergency_config,
    {
        self.emergency_config
    }

    pub fn is_emergency_mode(&self) -> (b: bool)
        ensures
            b == self.emergency_mode,
    {
        self.emergency_mode
    }

    /// Time of the last emergency transfer, if one happened.
    pub fn get_last_emergency_at(&self) -> (r: Option<u64>)
        ensures
            r == if self.last_emergency == 0 {
                None
            } else {
                Some(self.last_emergency)
            },
    {
        if self.last_emergency == 0 {
            None
        } else {
            Some(self.last_emergency)
        }
    }
}


/// Once an emergency transfer went through at `at`, a second one requested
/// before the cooldown has passed is refused for the cooldown, whatever the
/// balance, as long as its amount is within the emergency maximum.
pub proof fn law_emergency_cooldown(w: &FamilyWallet, at: u64, later: u64, amount: i128, balance: i128)
    requires
        w.emergency_config is Some,
        w.last_emergency == (if at == 0 { 1 } else { at }),
        amount <= w.emergency_config->0.max_amount,
        w.last_emergency <= later < w.last_emergency + w.emergency_config->0.cooldown,
        w.last_emergency + w.emergency_config->0.cooldown <= u64::MAX,
    ensures
        w.emergency_error(amount, balance, later) == Some(WalletError::EmergencyCooldown),
{
}

} // verus!
