use remitwise::address::Address;
use remitwise::family_wallet::{
    FamilyRole, FamilyWallet, TokenTransfer, TransactionData, TransactionType, WalletError,
};
use std::collections::HashMap;

/// Token balances kept by the test in place of the token contract: the
/// wallet hands out transfers, the test carries them out.
struct Balances {
    held: HashMap<(u64, u64), i128>,
}

impl Balances {
    fn new() -> Balances {
        Balances { held: HashMap::new() }
    }

    fn mint(&mut self, token: Address, to: Address, amount: i128) {
        *self.held.entry((token.id, to.id)).or_insert(0) += amount;
    }

    fn balance(&self, token: Address, of: Address) -> i128 {
        *self.held.get(&(token.id, of.id)).unwrap_or(&0)
    }

    fn apply(&mut self, t: Option<TokenTransfer>) {
        if let Some(t) = t {
            *self.held.entry((t.token.id, t.from.id)).or_insert(0) -= t.amount;
            *self.held.entry((t.token.id, t.to.id)).or_insert(0) += t.amount;
        }
    }
}

fn addr(id: u64) -> Address {
    Address::new(id)
}

/// Fails as the wallet contract does when a request is refused.
fn check(refusal: Option<WalletError>) {
    if let Some(e) = refusal {
        panic!("{}", e.message());
    }
}

fn init(w: &mut FamilyWallet, owner: Address, members: Vec<Address>, now: u64) -> bool {
    check(w.init_refusal());
    w.init(owner, members, now)
}

fn configure(w: &mut FamilyWallet, caller: Address, t: TransactionType, threshold: u32, signers: Vec<Address>, limit: i128) -> bool {
    check(w.configure_multisig_refusal(caller, threshold, &signers, limit));
    w.configure_multisig(caller, t, threshold, signers, limit)
}

fn withdraw(w: &mut FamilyWallet, p: Address, token: Address, to: Address, amount: i128, now: u64) -> (u64, Option<TokenTransfer>) {
    check(w.withdraw_refusal(p, token, to, amount));
    w.withdraw(p, token, to, amount, now)
}

fn sign(w: &mut FamilyWallet, signer: Address, tx_id: u64, now: u64) -> (bool, Option<TokenTransfer>) {
    check(w.sign_refusal(signer, tx_id, now));
    w.sign_transaction(signer, tx_id, now)
}

fn emergency(w: &mut FamilyWallet, p: Address, token: Address, to: Address, amount: i128, balance: i128, now: u64) -> (u64, Option<TokenTransfer>) {
    check(w.emergency_transfer_refusal(p, token, to, amount, balance, now));
    w.propose_emergency_transfer(p, token, to, amount, balance, now)
}

fn configure_emergency(w: &mut FamilyWallet, caller: Address, max: i128, cooldown: u64, min: i128) -> bool {
    check(w.configure_emergency_refusal(caller, max, min));
    w.configure_emergency(caller, max, cooldown, min)
}

fn set_mode(w: &mut FamilyWallet, caller: Address, on: bool) -> bool {
    check(w.emergency_mode_refusal(caller));
    w.set_emergency_mode(caller, on)
}

fn add_member(w: &mut FamilyWallet, caller: Address, member: Address, role: FamilyRole, now: u64) -> bool {
    check(w.add_member_refusal(caller));
    w.add_family_member(caller, member, role, now)
}

fn split_change(w: &mut FamilyWallet, p: Address, a: u32, b: u32, c: u32, d: u32, now: u64) -> (u64, Option<TokenTransfer>) {
    check(w.split_change_refusal(p, a, b, c, d));
    w.propose_split_config_change(p, a, b, c, d, now)
}

fn role_change(w: &mut FamilyWallet, p: Address, member: Address, role: FamilyRole, now: u64) -> (u64, Option<TokenTransfer>) {
    check(w.proposal_refusal(p, TransactionType::RoleChange, TransactionData::RoleChange(member, role)));
    w.propose_role_change(p, member, role, now)
}

fn cancel_policy(w: &mut FamilyWallet, p: Address, policy_id: u32, now: u64) -> (u64, Option<TokenTransfer>) {
    check(w.proposal_refusal(p, TransactionType::PolicyCancellation, TransactionData::PolicyCancellation(policy_id)));
    w.propose_policy_cancellation(p, policy_id, now)
}

fn remove_member(w: &mut FamilyWallet, caller: Address, member: Address) -> bool {
    check(w.remove_member_refusal(caller, member));
    w.remove_family_member(caller, member)
}

fn propose(w: &mut FamilyWallet, p: Address, t: TransactionType, data: TransactionData, now: u64) -> (u64, Option<TokenTransfer>) {
    check(w.proposal_refusal(p, t, data));
    w.propose_transaction(p, t, data, now)
}

fn wallet_with(owner: Address, members: &[Address]) -> FamilyWallet {
    let mut w = FamilyWallet::new();
    assert!(init(&mut w, owner, members.to_vec(), 0));
    w
}

#[test]
fn test_init_family_wallet() {
    let owner = addr(1);
    let member1 = addr(2);
    let member2 = addr(3);
    let mut w = FamilyWallet::new();
    let result = init(&mut w, owner, vec![member1, member2], 0);
    assert!(result);

    let stored_owner = w.get_owner();
    assert_eq!(stored_owner, owner);

    let member1_data = w.get_family_member(member1);
    assert!(member1_data.is_some());
    assert_eq!(member1_data.unwrap().role, FamilyRole::Member);

    let member2_data = w.get_family_member(member2);
    assert!(member2_data.is_some());
    assert_eq!(member2_data.unwrap().role, FamilyRole::Member);

    let owner_data = w.get_family_member(owner);
    assert!(owner_data.is_some());
    assert_eq!(owner_data.unwrap().role, FamilyRole::Owner);
}

#[test]
fn test_configure_multisig() {
    let owner = addr(1);
    let (member1, member2, member3) = (addr(2), addr(3), addr(4));
    let mut w = wallet_with(owner, &[member1, member2, member3]);

    let signers = vec![member1, member2, member3];
    let result = configure(
        &mut w,
        owner,
        TransactionType::LargeWithdrawal,
        2,
        signers,
        1000_0000000,
    );
    assert!(result);

    let config = w.get_multisig_config(TransactionType::LargeWithdrawal);
    assert!(config.is_some());
    let config = config.unwrap();
    assert_eq!(config.threshold, 2);
    assert_eq!(config.signers.len(), 3);
    assert_eq!(config.spending_limit, 1000_0000000);
}

#[test]
#[should_panic(expected = "Only Owner or Admin can configure multi-sig")]
fn test_configure_multisig_unauthorized() {
    let owner = addr(1);
    let (member1, member2) = (addr(2), addr(3));
    let mut w = wallet_with(owner, &[member1, member2]);
    let signers = vec![member1, member2];
    configure(
        &mut w,
        member1,
        TransactionType::LargeWithdrawal,
        2,
        signers,
        1000_0000000,
    );
}

#[test]
fn test_withdraw_below_threshold_no_multisig() {
    let owner = addr(1);
    let (member1, member2) = (addr(2), addr(3));
    let mut w = wallet_with(owner, &[member1, member2]);
    let token = addr(100);
    let mut bank = Balances::new();
    let amount = 5000_0000000;
    bank.mint(token, owner, amount);

    let signers = vec![owner, member1, member2];
    configure(
        &mut w,
        owner,
        TransactionType::LargeWithdrawal,
        2,
        signers,
        1000_0000000,
    );

    let recipient = addr(9);
    let withdraw_amount = 500_0000000;
    let (tx_id, transfer) = withdraw(&mut w, owner, token, recipient, withdraw_amount, 0);
    bank.apply(transfer);

    assert_eq!(tx_id, 0);
    assert_eq!(bank.balance(token, recipient), withdraw_amount);
    assert_eq!(bank.balance(token, owner), amount - withdraw_amount);
}

#[test]
fn test_withdraw_above_threshold_requires_multisig() {
    let owner = addr(1);
    let (member1, member2) = (addr(2), addr(3));
    let mut w = wallet_with(owner, &[member1, member2]);
    let token = addr(100);
    let mut bank = Balances::new();
    let amount = 5000_0000000;
    bank.mint(token, owner, amount);

    let signers = vec![owner, member1, member2];
    configure(
        &mut w,
        owner,
        TransactionType::LargeWithdrawal,
        2,
        signers,
        1000_0000000,
    );

    let recipient = addr(9);
    let withdraw_amount = 2000_0000000;
    let (tx_id, transfer) = withdraw(&mut w, owner, token, recipient, withdraw_amount, 0);
    bank.apply(transfer);
    assert!(tx_id > 0);

    let pending_tx = w.get_pending_transaction(tx_id);
    assert!(pending_tx.is_some());
    let pending_tx = pending_tx.unwrap();
    assert_eq!(pending_tx.tx_type, TransactionType::LargeWithdrawal);
    assert_eq!(pending_tx.signatures.len(), 1);

    assert_eq!(bank.balance(token, recipient), 0);
    assert_eq!(bank.balance(token, owner), amount);

    let (_, transfer) = sign(&mut w, member1, tx_id, 0);
    bank.apply(transfer);

    assert_eq!(bank.balance(token, recipient), withdraw_amount);
    assert_eq!(bank.balance(token, owner), amount - withdraw_amount);

    let pending_tx = w.get_pending_transaction(tx_id);
    assert!(pending_tx.is_none());
}

#[test]
fn test_multisig_threshold_validation() {
    let owner = addr(1);
    let (member1, member2, member3) = (addr(2), addr(3), addr(4));
    let mut w = wallet_with(owner, &[member1, member2, member3]);
    let token = addr(100);
    let mut bank = Balances::new();
    bank.mint(token, owner, 5000_0000000);

    let signers = vec![owner, member1, member2];
    configure(
        &mut w,
        owner,
        TransactionType::LargeWithdrawal,
        3,
        signers,
        1000_0000000,
    );

    let recipient = addr(9);
    let withdraw_amount = 2000_0000000;
    let (tx_id, transfer) = withdraw(&mut w, owner, token, recipient, withdraw_amount, 0);
    bank.apply(transfer);

    let (_, transfer) = sign(&mut w, member1, tx_id, 0);
    bank.apply(transfer);

    let pending_tx = w.get_pending_transaction(tx_id);
    assert!(pending_tx.is_some());
    assert_eq!(bank.balance(token, recipient), 0);

    let (_, transfer) = sign(&mut w, member2, tx_id, 0);
    bank.apply(transfer);

    assert_eq!(bank.balance(token, recipient), withdraw_amount);
    let pending_tx = w.get_pending_transaction(tx_id);
    assert!(pending_tx.is_none());
}

#[test]
#[should_panic(expected = "Already signed this transaction")]
fn test_duplicate_signature_prevention() {
    let owner = addr(1);
    let (member1, member2) = (addr(2), addr(3));
    let mut w = wallet_with(owner, &[member1, member2]);
    let token = addr(100);

    let signers = vec![owner, member1, member2];
    configure(
        &mut w,
        owner,
        TransactionType::LargeWithdrawal,
        3,
        signers,
        1000_0000000,
    );

    let recipient = addr(9);
    let (tx_id, _) = withdraw(&mut w, owner, token, recipient, 2000_0000000, 0);

    sign(&mut w, member1, tx_id, 0);
    sign(&mut w, member1, tx_id, 0);
}

#[test]
fn test_propose_split_config_change() {
    let owner = addr(1);
    let (member1, member2) = (addr(2), addr(3));
    let mut w = wallet_with(owner, &[member1, member2]);

    let signers = vec![owner, member1, member2];
    configure(&mut w, owner, TransactionType::SplitConfigChange, 2, signers, 0);

    let (tx_id, _) = split_change(&mut w, owner, 40, 30, 20, 10, 0);
    assert!(tx_id > 0);

    let pending_tx = w.get_pending_transaction(tx_id);
    assert!(pending_tx.is_some());
    assert_eq!(pending_tx.unwrap().tx_type, TransactionType::SplitConfigChange);

    sign(&mut w, member1, tx_id, 0);

    let pending_tx = w.get_pending_transaction(tx_id);
    assert!(pending_tx.is_none());
}

#[test]
fn test_propose_role_change() {
    let owner = addr(1);
    let (member1, member2) = (addr(2), addr(3));
    let mut w = wallet_with(owner, &[member1, member2]);

    let signers = vec![owner, member1];
    configure(&mut w, owner, TransactionType::RoleChange, 2, signers, 0);

    let (tx_id, _) = role_change(&mut w, owner, member2, FamilyRole::Admin, 0);
    assert!(tx_id > 0);

    sign(&mut w, member1, tx_id, 0);

    let member2_data = w.get_family_member(member2);
    assert!(member2_data.is_some());
    assert_eq!(member2_data.unwrap().role, FamilyRole::Admin);
}

#[test]
fn test_propose_emergency_transfer() {
    let owner = addr(1);
    let (member1, member2) = (addr(2), addr(3));
    let mut w = wallet_with(owner, &[member1, member2]);
    let token = addr(100);
    let mut bank = Balances::new();
    bank.mint(token, owner, 5000_0000000);

    let signers = vec![owner, member1, member2];
    configure(&mut w, owner, TransactionType::EmergencyTransfer, 2, signers, 0);

    let recipient = addr(9);
    let transfer_amount = 3000_0000000;
    let balance = bank.balance(token, owner);
    let (tx_id, transfer) = emergency(
        &mut w,
        owner,
        token,
        recipient,
        transfer_amount,
        balance,
        0,
    );
    bank.apply(transfer);
    assert!(tx_id > 0);

    let (_, transfer) = sign(&mut w, member1, tx_id, 0);
    bank.apply(transfer);

    assert_eq!(bank.balance(token, recipient), transfer_amount);
    assert_eq!(bank.balance(token, owner), 5000_0000000 - transfer_amount);
}

#[test]
fn test_emergency_mode_direct_transfer_within_limits() {
    let owner = addr(1);
    let (member1, member2) = (addr(2), addr(3));
    let mut w = wallet_with(owner, &[member1, member2]);
    let token = addr(100);
    let mut bank = Balances::new();
    let total = 5000_0000000;
    bank.mint(token, owner, total);

    configure_emergency(&mut w, owner, 2000_0000000, 3600u64, 1000_0000000);
    set_mode(&mut w, owner, true);
    assert!(w.is_emergency_mode());

    let recipient = addr(9);
    let amount = 1500_0000000;
    let balance = bank.balance(token, owner);
    let (tx_id, transfer) =
        emergency(&mut w, owner, token, recipient, amount, balance, 0);
    bank.apply(transfer);

    assert_eq!(tx_id, 0);
    assert_eq!(bank.balance(token, recipient), amount);
    assert_eq!(bank.balance(token, owner), total - amount);

    let last_ts = w.get_last_emergency_at();
    assert!(last_ts.is_some());
}

#[test]
#[should_panic(expected = "Emergency amount exceeds maximum allowed")]
fn test_emergency_transfer_exceeds_limit() {
    let owner = addr(1);
    let mut w = wallet_with(owner, &[]);
    let token = addr(100);
    let mut bank = Balances::new();
    bank.mint(token, owner, 5000_0000000);

    configure_emergency(&mut w, owner, 1000_0000000, 3600u64, 0);
    set_mode(&mut w, owner, true);

    let recipient = addr(9);
    let balance = bank.balance(token, owner);
    emergency(&mut w, owner, token, recipient, 2000_0000000, balance, 0);
}

#[test]
#[should_panic(expected = "Emergency transfer cooldown period not elapsed")]
fn test_emergency_transfer_cooldown_enforced() {
    let owner = addr(1);
    let mut w = wallet_with(owner, &[]);
    let token = addr(100);
    let mut bank = Balances::new();
    bank.mint(token, owner, 5000_0000000);

    configure_emergency(&mut w, owner, 2000_0000000, 3600u64, 0);
    set_mode(&mut w, owner, true);

    let recipient = addr(9);
    let amount = 1000_0000000;

    let balance = bank.balance(token, owner);
    let (tx_id, transfer) =
        emergency(&mut w, owner, token, recipient, amount, balance, 0);
    bank.apply(transfer);
    assert_eq!(tx_id, 0);

    let balance = bank.balance(token, owner);
    emergency(&mut w, owner, token, recipient, amount, balance, 0);
}

#[test]
#[should_panic(expected = "Emergency transfer would violate minimum balance requirement")]
fn test_emergency_transfer_min_balance_enforced() {
    let owner = addr(1);
    let mut w = wallet_with(owner, &[]);
    let token = addr(100);
    let mut bank = Balances::new();
    let total = 3000_0000000;
    bank.mint(token, owner, total);

    configure_emergency(&mut w, owner, 2000_0000000, 0u64, 2500_0000000);
    set_mode(&mut w, owner, true);

    let recipient = addr(9);
    let balance = bank.balance(token, owner);
    emergency(&mut w, owner, token, recipient, 1000_0000000, balance, 0);
}

#[test]
fn test_add_and_remove_family_member() {
    let owner = addr(1);
    let member1 = addr(2);
    let mut w = wallet_with(owner, &[member1]);

    let new_member = addr(5);
    let result = add_member(&mut w, owner, new_member, FamilyRole::Admin, 0);
    assert!(result);

    let member_data = w.get_family_member(new_member);
    assert!(member_data.is_some());
    assert_eq!(member_data.unwrap().role, FamilyRole::Admin);

    let result = remove_member(&mut w, owner, new_member);
    assert!(result);

    let member_data = w.get_family_member(new_member);
    assert!(member_data.is_none());
}

#[test]
#[should_panic(expected = "Only Owner or Admin can add family members")]
fn test_add_member_unauthorized() {
    let owner = addr(1);
    let member1 = addr(2);
    let mut w = wallet_with(owner, &[member1]);
    let new_member = addr(5);
    add_member(&mut w, member1, new_member, FamilyRole::Member, 0);
}

#[test]
fn test_different_thresholds_for_different_transaction_types() {
    let owner = addr(1);
    let (member1, member2, member3) = (addr(2), addr(3), addr(4));
    let mut w = wallet_with(owner, &[member1, member2, member3]);

    let all_signers = vec![owner, member1, member2, member3];

    configure(
        &mut w,
        owner,
        TransactionType::LargeWithdrawal,
        2,
        all_signers.clone(),
        1000_0000000,
    );
    configure(&mut w, owner, TransactionType::RoleChange, 3, all_signers.clone(), 0);
    configure(&mut w, owner, TransactionType::EmergencyTransfer, 4, all_signers, 0);

    let withdraw_config = w.get_multisig_config(TransactionType::LargeWithdrawal);
    assert_eq!(withdraw_config.unwrap().threshold, 2);

    let role_config = w.get_multisig_config(TransactionType::RoleChange);
    assert_eq!(role_config.unwrap().threshold, 3);

    let emergency_config = w.get_multisig_config(TransactionType::EmergencyTransfer);
    assert_eq!(emergency_config.unwrap().threshold, 4);
}

#[test]
#[should_panic(expected = "Signer not authorized for this transaction type")]
fn test_unauthorized_signer() {
    let owner = addr(1);
    let (member1, member2, member3) = (addr(2), addr(3), addr(4));
    let mut w = wallet_with(owner, &[member1, member2, member3]);
    let token = addr(100);

    let signers = vec![owner, member1];
    configure(
        &mut w,
        owner,
        TransactionType::LargeWithdrawal,
        2,
        signers,
        1000_0000000,
    );

    let recipient = addr(9);
    let (tx_id, _) = withdraw(&mut w, owner, token, recipient, 2000_0000000, 0);
    sign(&mut w, member2, tx_id, 0);
}

// ----- further cases -----

#[test]
fn wallet_init_twice_is_refused() {
    let owner = addr(1);
    let w = wallet_with(owner, &[]);
    assert_eq!(w.init_refusal(), Some(WalletError::AlreadyInitialized));
    assert_eq!(FamilyWallet::new().init_refusal(), None);
}

#[test]
fn wallet_init_sets_default_configuration() {
    let owner = addr(1);
    let w = wallet_with(owner, &[addr(2)]);
    for t in [
        TransactionType::LargeWithdrawal,
        TransactionType::SplitConfigChange,
        TransactionType::RoleChange,
        TransactionType::EmergencyTransfer,
        TransactionType::PolicyCancellation,
    ] {
        let c = w.get_multisig_config(t).unwrap();
        assert_eq!(c.threshold, 2);
        assert_eq!(c.signers.len(), 0);
        assert_eq!(c.spending_limit, 10000000000);
    }
    assert!(w.get_multisig_config(TransactionType::RegularWithdrawal).is_none());
    let e = w.get_emergency_config().unwrap();
    assert_eq!((e.max_amount, e.cooldown, e.min_balance), (10000000000, 3600, 0));
    assert!(!w.is_emergency_mode());
    assert_eq!(w.get_last_emergency_at(), None);
}

#[test]
fn wallet_reports_whether_it_is_initialised() {
    assert!(!FamilyWallet::new().initialized());
    assert!(wallet_with(addr(1), &[]).initialized());
}

#[test]
fn configure_multisig_rejects_bad_arguments() {
    let owner = addr(1);
    let member1 = addr(2);
    let outsider = addr(7);
    let w = wallet_with(owner, &[member1]);
    assert_eq!(w.configure_multisig_refusal(owner, 0, &vec![owner], 10), Some(WalletError::InvalidThreshold));
    assert_eq!(w.configure_multisig_refusal(owner, 2, &vec![owner], 10), Some(WalletError::InvalidThreshold));
    assert_eq!(w.configure_multisig_refusal(owner, 1, &vec![outsider], 10), Some(WalletError::SignerNotMember));
    assert_eq!(w.configure_multisig_refusal(owner, 1, &vec![owner], -1), Some(WalletError::NegativeSpendingLimit));
    assert_eq!(w.configure_multisig_refusal(owner, 1, &vec![owner], 0), None);
}

#[test]
fn withdraw_of_nothing_is_refused() {
    let owner = addr(1);
    let w = wallet_with(owner, &[]);
    assert_eq!(w.withdraw_refusal(owner, addr(100), addr(9), 0), Some(WalletError::AmountNotPositive));
}

#[test]
fn outsiders_cannot_propose_or_sign() {
    let owner = addr(1);
    let member1 = addr(2);
    let outsider = addr(7);
    let mut w = wallet_with(owner, &[member1]);
    assert_eq!(
        w.proposal_refusal(outsider, TransactionType::PolicyCancellation, TransactionData::PolicyCancellation(3)),
        Some(WalletError::ProposerNotMember)
    );
    let (tx_id, _) = cancel_policy(&mut w, owner, 3, 0);
    assert!(tx_id > 0);
    assert_eq!(w.sign_refusal(outsider, tx_id, 0), Some(WalletError::SignerNotFamily));
    assert_eq!(w.sign_refusal(member1, tx_id + 5, 0), Some(WalletError::TransactionNotFound));
}

#[test]
fn signing_after_expiry_is_refused() {
    let owner = addr(1);
    let member1 = addr(2);
    let mut w = wallet_with(owner, &[member1]);
    configure(&mut w, owner, TransactionType::PolicyCancellation, 2, vec![owner, member1], 0);
    let (tx_id, _) = cancel_policy(&mut w, owner, 3, 100);
    let tx = w.get_pending_transaction(tx_id).unwrap();
    assert_eq!(tx.expires_at, 100 + 86400);
    assert_eq!(tx.data, TransactionData::PolicyCancellation(3));
    assert_eq!(w.sign_refusal(member1, tx_id, 100 + 86400 + 1), Some(WalletError::TransactionExpired));
    assert_eq!(sign(&mut w, member1, tx_id, 100 + 86400), (true, None));
    assert!(w.get_pending_transaction(tx_id).is_none());
}

#[test]
fn split_change_needs_percentages_summing_to_100() {
    let owner = addr(1);
    let w = wallet_with(owner, &[]);
    assert_eq!(w.split_change_refusal(owner, 40, 30, 20, 20), Some(WalletError::PercentagesMustSumTo100));
}

#[test]
fn emergency_settings_are_validated() {
    let owner = addr(1);
    let member1 = addr(2);
    let w = wallet_with(owner, &[member1]);
    assert_eq!(w.configure_emergency_refusal(member1, 10, 0), Some(WalletError::OnlyOwnerOrAdminEmergency));
    assert_eq!(w.configure_emergency_refusal(owner, 0, 0), Some(WalletError::EmergencyMaxNotPositive));
    assert_eq!(w.configure_emergency_refusal(owner, 10, -1), Some(WalletError::EmergencyMinBalanceNegative));
    assert_eq!(w.emergency_mode_refusal(member1), Some(WalletError::OnlyOwnerOrAdminMode));
    assert_eq!(w.add_member_refusal(member1), Some(WalletError::OnlyOwnerOrAdminAddMember));
}

#[test]
fn emergency_cooldown_passes_after_its_length() {
    let owner = addr(1);
    let mut w = wallet_with(owner, &[]);
    configure_emergency(&mut w, owner, 100, 50, 0);
    set_mode(&mut w, owner, true);
    let token = addr(100);
    emergency(&mut w, owner, token, addr(9), 10, 1000, 1000);
    assert_eq!(w.get_last_emergency_at(), Some(1000));
    assert_eq!(
        w.emergency_transfer_refusal(owner, token, addr(9), 10, 1000, 1049),
        Some(WalletError::EmergencyCooldown)
    );
    assert_eq!(w.emergency_transfer_refusal(owner, token, addr(9), 10, 1000, 1050), None);
}

#[test]
fn owner_cannot_be_removed_and_only_owner_removes() {
    let owner = addr(1);
    let member1 = addr(2);
    let w = wallet_with(owner, &[member1]);
    assert_eq!(w.remove_member_refusal(owner, owner), Some(WalletError::CannotRemoveOwner));
    assert_eq!(w.remove_member_refusal(member1, member1), Some(WalletError::OnlyOwnerRemove));
    assert_eq!(FamilyWallet::new().remove_member_refusal(owner, member1), Some(WalletError::NotInitialized));
}

#[test]
fn withdrawing_before_init_finds_no_configuration() {
    let w = FamilyWallet::new();
    assert_eq!(w.withdraw_refusal(addr(1), addr(100), addr(9), 10), Some(WalletError::ConfigNotFound));
}

#[test]
fn mismatched_transaction_data_is_refused() {
    let owner = addr(1);
    let w = wallet_with(owner, &[]);
    assert_eq!(
        w.proposal_refusal(owner, TransactionType::RegularWithdrawal, TransactionData::PolicyCancellation(1)),
        Some(WalletError::DataMismatch)
    );
}

#[test]
fn immediate_role_change_data_is_accepted() {
    let owner = addr(1);
    let w = wallet_with(owner, &[]);
    assert_eq!(
        w.proposal_refusal(owner, TransactionType::RoleChange, TransactionData::RoleChange(owner, FamilyRole::Admin)),
        None
    );
}

#[test]
fn small_withdrawals_need_no_signatures() {
    let owner = addr(1);
    let mut w = wallet_with(owner, &[addr(2)]);
    configure(&mut w, owner, TransactionType::LargeWithdrawal, 2, vec![owner, addr(2)], 100);
    assert_eq!(w.withdrawal_kind(100), TransactionType::RegularWithdrawal);
    assert_eq!(w.withdrawal_kind(101), TransactionType::LargeWithdrawal);
    let small = TransactionData::Withdrawal(addr(100), addr(9), 100);
    let large = TransactionData::Withdrawal(addr(100), addr(9), 101);
    assert!(!w.needs_signatures(TransactionType::RegularWithdrawal, small));
    assert!(w.needs_signatures(TransactionType::RegularWithdrawal, large));
    assert!(w.needs_signatures(TransactionType::PolicyCancellation, TransactionData::PolicyCancellation(1)));
}
