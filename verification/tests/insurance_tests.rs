use remitwise::address::Address;
use remitwise::insurance::{Insurance, InsuranceError};

const DAY: u64 = 86400;

fn s(text: &str) -> String {
    text.to_string()
}

fn policy(c: &mut Insurance, owner: Address, name: &str, kind: &str, premium: i128, coverage: i128, now: u64) -> u32 {
    c.create_policy(owner, s(name), s(kind), premium, coverage, now).unwrap()
}

#[test]
fn test_create_policy() {
    let mut c = Insurance::new();
    let owner = Address::new(1);
    let policy_id = policy(&mut c, owner, "Health Policy", "Health", 100, 10000, 0);
    assert_eq!(policy_id, 1);

    let p = c.get_policy(policy_id).unwrap();
    assert_eq!(p.owner, owner);
    assert_eq!(p.monthly_premium, 100);
    assert_eq!(p.coverage_amount, 10000);
    assert!(p.active);
}

#[test]
fn lib_test_create_policy_invalid_premium() {
    let mut c = Insurance::new();
    let owner = Address::new(1);
    let result = c.create_policy(owner, s("Life"), s("Health"), 0, 10000, 0);
    assert_eq!(result, Err(InsuranceError::InvalidAmount));
}

#[test]
fn test_pay_premium() {
    let mut c = Insurance::new();
    let owner = Address::new(1);
    let policy_id = policy(&mut c, owner, "Policy", "Type", 100, 10000, 0);

    let initial_due = c.get_policy(policy_id).unwrap().next_payment_date;
    let now = 1000;
    let success = c.pay_premium(owner, policy_id, now).unwrap();
    assert!(success);

    let updated = c.get_policy(policy_id).unwrap();
    assert!(updated.next_payment_date > initial_due);
}

#[test]
fn test_deactivate_policy() {
    let mut c = Insurance::new();
    let owner = Address::new(1);
    let policy_id = policy(&mut c, owner, "Policy", "Type", 100, 10000, 0);

    let success = c.deactivate_policy(owner, policy_id).unwrap();
    assert!(success);

    let p = c.get_policy(policy_id).unwrap();
    assert!(!p.active);
}

#[test]
fn test_get_active_policies() {
    let mut c = Insurance::new();
    let owner = Address::new(1);
    policy(&mut c, owner, "P1", "T1", 100, 1000, 0);
    let p2 = policy(&mut c, owner, "P2", "T2", 200, 2000, 0);
    policy(&mut c, owner, "P3", "T3", 300, 3000, 0);

    c.deactivate_policy(owner, p2).unwrap();

    let active = c.get_active_policies(owner);
    assert_eq!(active.len(), 2);
}

#[test]
fn test_get_total_monthly_premium() {
    let mut c = Insurance::new();
    let owner = Address::new(1);
    policy(&mut c, owner, "P1", "T1", 100, 1000, 0);
    policy(&mut c, owner, "P2", "T2", 200, 2000, 0);

    let total = c.get_total_monthly_premium(owner);
    assert_eq!(total, 300);
}

fn zero_policies() {
    let c = Insurance::new();
    let owner = Address::new(1);
    let total = c.get_total_monthly_premium(owner);
    assert_eq!(total, 0);
}

fn one_policy() {
    let mut c = Insurance::new();
    let owner = Address::new(1);
    policy(&mut c, owner, "Single Policy", "health", 500, 10000, 0);
    let total = c.get_total_monthly_premium(owner);
    assert_eq!(total, 500);
}

fn multiple_active_policies() {
    let mut c = Insurance::new();
    let owner = Address::new(1);
    policy(&mut c, owner, "Policy 1", "health", 100, 1000, 0);
    policy(&mut c, owner, "Policy 2", "life", 200, 2000, 0);
    policy(&mut c, owner, "Policy 3", "emergency", 300, 3000, 0);
    let total = c.get_total_monthly_premium(owner);
    assert_eq!(total, 600);
}

fn deactivated_policy_excluded() {
    let mut c = Insurance::new();
    let owner = Address::new(1);
    let policy1 = policy(&mut c, owner, "Policy 1", "health", 100, 1000, 0);
    policy(&mut c, owner, "Policy 2", "life", 200, 2000, 0);

    let total_initial = c.get_total_monthly_premium(owner);
    assert_eq!(total_initial, 300);

    c.deactivate_policy(owner, policy1).unwrap();

    let total_after_deactivation = c.get_total_monthly_premium(owner);
    assert_eq!(total_after_deactivation, 200);
}

fn different_owner_isolation() {
    let mut c = Insurance::new();
    let owner_a = Address::new(1);
    let owner_b = Address::new(2);
    policy(&mut c, owner_a, "Policy A1", "health", 100, 1000, 0);
    policy(&mut c, owner_a, "Policy A2", "life", 200, 2000, 0);
    policy(&mut c, owner_b, "Policy B1", "emergency", 300, 3000, 0);

    let total_a = c.get_total_monthly_premium(owner_a);
    assert_eq!(total_a, 300);
    let total_b = c.get_total_monthly_premium(owner_b);
    assert_eq!(total_b, 300);
    assert_ne!(total_a, 0);
    assert_ne!(total_b, 0);
    assert_eq!(total_a, total_b);
}

#[test]
fn test_test_get_total_monthly_premium_zero_policies() {
    zero_policies();
}

#[test]
fn lib_test_get_total_monthly_premium_zero_policies() {
    zero_policies();
}

#[test]
fn test_test_get_total_monthly_premium_one_policy() {
    one_policy();
}

#[test]
fn lib_test_get_total_monthly_premium_one_policy() {
    one_policy();
}

#[test]
fn test_test_get_total_monthly_premium_multiple_active_policies() {
    multiple_active_policies();
}

#[test]
fn lib_test_get_total_monthly_premium_multiple_active_policies() {
    multiple_active_policies();
}

#[test]
fn test_test_get_total_monthly_premium_deactivated_policy_excluded() {
    deactivated_policy_excluded();
}

#[test]
fn lib_test_get_total_monthly_premium_deactivated_policy_excluded() {
    deactivated_policy_excluded();
}

#[test]
fn test_test_get_total_monthly_premium_different_owner_isolation() {
    different_owner_isolation();
}

#[test]
fn lib_test_get_total_monthly_premium_different_owner_isolation() {
    different_owner_isolation();
}

#[test]
fn test_multiple_premium_payments() {
    let mut c = Insurance::new();
    let owner = Address::new(1);
    let policy_id = policy(&mut c, owner, "LongTerm", "Life", 100, 10000, 0);

    let first_due = c.get_policy(policy_id).unwrap().next_payment_date;

    c.pay_premium(owner, policy_id, 0).unwrap();
    let now = 5000;
    c.pay_premium(owner, policy_id, now).unwrap();

    let p2 = c.get_policy(policy_id).unwrap();
    assert!(p2.next_payment_date > first_due);
    assert_eq!(p2.next_payment_date, now + (30 * DAY));
}

#[test]
fn test_create_premium_schedule() {
    let mut c = Insurance::new();
    let owner = Address::new(1);
    let now = 1000;
    let policy_id = policy(&mut c, owner, "Health Insurance", "health", 500, 50000, now);

    let schedule_id = c.create_premium_schedule(owner, policy_id, 3000, 2592000, now).unwrap();
    assert_eq!(schedule_id, 1);

    let schedule = c.get_premium_schedule(schedule_id);
    assert!(schedule.is_some());
    let schedule = schedule.unwrap();
    assert_eq!(schedule.next_due, 3000);
    assert_eq!(schedule.interval, 2592000);
    assert!(schedule.active);
}

#[test]
fn test_modify_premium_schedule() {
    let mut c = Insurance::new();
    let owner = Address::new(1);
    let now = 1000;
    let policy_id = policy(&mut c, owner, "Health Insurance", "health", 500, 50000, now);

    let schedule_id = c.create_premium_schedule(owner, policy_id, 3000, 2592000, now).unwrap();
    c.modify_premium_schedule(owner, schedule_id, 4000, 2678400, now).unwrap();

    let schedule = c.get_premium_schedule(schedule_id).unwrap();
    assert_eq!(schedule.next_due, 4000);
    assert_eq!(schedule.interval, 2678400);
}

#[test]
fn test_cancel_premium_schedule() {
    let mut c = Insurance::new();
    let owner = Address::new(1);
    let now = 1000;
    let policy_id = policy(&mut c, owner, "Health Insurance", "health", 500, 50000, now);

    let schedule_id = c.create_premium_schedule(owner, policy_id, 3000, 2592000, now).unwrap();
    c.cancel_premium_schedule(owner, schedule_id).unwrap();

    let schedule = c.get_premium_schedule(schedule_id).unwrap();
    assert!(!schedule.active);
}

#[test]
fn test_execute_due_premium_schedules() {
    let mut c = Insurance::new();
    let owner = Address::new(1);
    let policy_id = policy(&mut c, owner, "Health Insurance", "health", 500, 50000, 1000);

    let schedule_id = c.create_premium_schedule(owner, policy_id, 3000, 0, 1000).unwrap();

    let executed = c.execute_due_premium_schedules(3500);
    assert_eq!(executed.len(), 1);
    assert_eq!(executed[0], schedule_id);

    let p = c.get_policy(policy_id).unwrap();
    assert_eq!(p.next_payment_date, 3500 + 30 * DAY);
}

#[test]
fn test_execute_recurring_premium_schedule() {
    let mut c = Insurance::new();
    let owner = Address::new(1);
    let policy_id = policy(&mut c, owner, "Health Insurance", "health", 500, 50000, 1000);

    let schedule_id = c.create_premium_schedule(owner, policy_id, 3000, 2592000, 1000).unwrap();

    c.execute_due_premium_schedules(3500);

    let schedule = c.get_premium_schedule(schedule_id).unwrap();
    assert!(schedule.active);
    assert_eq!(schedule.next_due, 3000 + 2592000);
}

#[test]
fn test_execute_missed_premium_schedules() {
    let mut c = Insurance::new();
    let owner = Address::new(1);
    let policy_id = policy(&mut c, owner, "Health Insurance", "health", 500, 50000, 1000);

    let schedule_id = c.create_premium_schedule(owner, policy_id, 3000, 2592000, 1000).unwrap();

    c.execute_due_premium_schedules(3000 + 2592000 * 3 + 100);

    let schedule = c.get_premium_schedule(schedule_id).unwrap();
    assert_eq!(schedule.missed_count, 3);
    assert!(schedule.next_due > 3000 + 2592000 * 3);
}

#[test]
fn test_get_premium_schedules() {
    let mut c = Insurance::new();
    let owner = Address::new(1);
    let policy_id1 = policy(&mut c, owner, "Health Insurance", "health", 500, 50000, 1000);
    let policy_id2 = policy(&mut c, owner, "Life Insurance", "life", 300, 100000, 1000);

    c.create_premium_schedule(owner, policy_id1, 3000, 2592000, 1000).unwrap();
    c.create_premium_schedule(owner, policy_id2, 4000, 2592000, 1000).unwrap();

    let schedules = c.get_premium_schedules(owner);
    assert_eq!(schedules.len(), 2);
}

#[test]
fn test_new_policy_initial_state() {
    let mut c = Insurance::new();
    let owner = Address::new(1);
    let creation_timestamp = 10000;
    let policy_id = policy(&mut c, owner, "Test Policy", "health", 150, 25000, creation_timestamp);

    let p = c.get_policy(policy_id).unwrap();
    assert!(p.active, "New policy should be active");
    let expected_next_payment = creation_timestamp + (30 * DAY);
    assert_eq!(
        p.next_payment_date, expected_next_payment,
        "New policy next_payment_date should be creation time + 30 days"
    );
}

// ----- further cases -----

#[test]
fn policy_with_no_coverage_is_refused() {
    let mut c = Insurance::new();
    assert_eq!(
        c.create_policy(Address::new(1), s("Bad"), s("Type"), 100, 0, 0),
        Err(InsuranceError::InvalidAmount)
    );
}

#[test]
fn premium_of_another_owner_is_refused() {
    let mut c = Insurance::new();
    let owner = Address::new(1);
    let other = Address::new(2);
    let policy_id = policy(&mut c, owner, "Policy", "Type", 100, 10000, 0);
    assert_eq!(c.pay_refusal(other, policy_id), Some(InsuranceError::Unauthorized));
    assert_eq!(c.pay_refusal(owner, policy_id), None);
    assert_eq!(c.pay_premium(owner, policy_id + 1, 0), Err(InsuranceError::PolicyNotFound));
    c.deactivate_policy(owner, policy_id).unwrap();
    assert_eq!(c.pay_premium(owner, policy_id, 0), Err(InsuranceError::PolicyInactive));
}

#[test]
fn batch_payment_is_all_or_nothing() {
    let mut c = Insurance::new();
    let owner = Address::new(1);
    let a = policy(&mut c, owner, "A", "t", 100, 1000, 0);
    let b = policy(&mut c, owner, "B", "t", 200, 1000, 0);
    assert_eq!(c.batch_pay_premiums(owner, vec![a, b], 500), Ok(2));
    assert_eq!(c.get_policy(a).unwrap().next_payment_date, 500 + 30 * DAY);
    assert_eq!(c.get_policy(b).unwrap().next_payment_date, 500 + 30 * DAY);
    assert_eq!(c.batch_pay_premiums(owner, vec![a, 99], 900), Err(InsuranceError::PolicyNotFound));
    assert_eq!(c.get_policy(a).unwrap().next_payment_date, 500 + 30 * DAY);
    let too_many: Vec<u32> = (0..51).map(|_| a).collect();
    assert_eq!(c.batch_pay_premiums(owner, too_many, 900), Err(InsuranceError::BatchTooLarge));
}

#[test]
fn schedule_due_in_the_past_is_refused() {
    let mut c = Insurance::new();
    let owner = Address::new(1);
    let policy_id = policy(&mut c, owner, "P", "t", 100, 1000, 1000);
    assert_eq!(
        c.create_premium_schedule(owner, policy_id, 1000, 10, 1000),
        Err(InsuranceError::InvalidTimestamp)
    );
    assert_eq!(
        c.create_premium_schedule(Address::new(2), policy_id, 2000, 10, 1000),
        Err(InsuranceError::Unauthorized)
    );
}

#[test]
fn pausing_blocks_changes_until_unpaused() {
    let mut c = Insurance::new();
    let admin = Address::new(9);
    let owner = Address::new(1);
    assert_eq!(c.pause(admin), Err(InsuranceError::Unauthorized));
    c.set_pause_admin(admin, admin).unwrap();
    assert_eq!(c.set_pause_admin(owner, owner), Err(InsuranceError::Unauthorized));
    c.pause(admin).unwrap();
    assert!(c.is_paused());
    assert_eq!(
        c.create_policy(owner, s("P"), s("t"), 100, 1000, 0),
        Err(InsuranceError::ContractPaused)
    );
    c.unpause(admin).unwrap();
    let id = policy(&mut c, owner, "P", "t", 100, 1000, 0);
    c.pause_function(admin, s("pay_prem")).unwrap();
    assert_eq!(c.pay_premium(owner, id, 0), Err(InsuranceError::FunctionPaused));
    c.unpause_function(admin, s("pay_prem")).unwrap();
    assert_eq!(c.pay_premium(owner, id, 0), Ok(true));
    c.emergency_pause_all(admin);
    assert!(c.is_paused());
    assert_eq!(c.deactivate_policy(owner, id), Err(InsuranceError::ContractPaused));
}

#[test]
fn version_is_set_by_the_upgrade_admin() {
    let mut c = Insurance::new();
    let admin = Address::new(9);
    assert_eq!(c.get_version(), 1);
    c.set_upgrade_admin(admin, admin).unwrap();
    assert_eq!(c.set_version(Address::new(1), 5), Err(InsuranceError::Unauthorized));
    c.set_version(admin, 5).unwrap();
    assert_eq!(c.get_version(), 5);
}

#[test]
fn error_codes_match_the_contract() {
    assert_eq!(InsuranceError::PolicyNotFound.code(), 1);
    assert_eq!(InsuranceError::InvalidAmount.code(), 3);
    assert_eq!(InsuranceError::BatchTooLarge.code(), 8);
}

#[test]
fn premium_run_reports_due_schedules_in_ascending_order() {
    let mut c = Insurance::new();
    let owner = Address::new(1);
    let a = policy(&mut c, owner, "A", "health", 100, 1000, 0);
    let b = policy(&mut c, owner, "B", "life", 100, 1000, 0);
    let d = policy(&mut c, owner, "C", "home", 100, 1000, 0);
    let sa = c.create_premium_schedule(owner, a, 3000, 0, 1000).unwrap();
    let sb = c.create_premium_schedule(owner, b, 9000, 0, 1000).unwrap();
    let sd = c.create_premium_schedule(owner, d, 2000, 0, 1000).unwrap();
    assert!(sa < sb && sb < sd);
    assert_eq!(c.execute_due_premium_schedules(3500), vec![sa, sd]);
}

#[test]
fn premium_run_for_an_inactive_policy_needs_no_time_room() {
    let mut c = Insurance::new();
    let owner = Address::new(1);
    let id = policy(&mut c, owner, "A", "health", 100, 1000, 0);
    let sched = c.create_premium_schedule(owner, id, 3000, 0, 1000).unwrap();
    c.deactivate_policy(owner, id).unwrap();
    let due_before = c.get_policy(id).unwrap().next_payment_date;
    assert_eq!(c.execute_due_premium_schedules(u64::MAX), vec![sched]);
    assert_eq!(c.get_policy(id).unwrap().next_payment_date, due_before);
    assert!(!c.get_premium_schedule(sched).unwrap().active);
}

#[test]
fn policy_creation_refusals_are_reported_before_creating() {
    let c = Insurance::new();
    assert_eq!(c.create_refusal(0, 100), Some(InsuranceError::InvalidAmount));
    assert_eq!(c.create_refusal(100, 0), Some(InsuranceError::InvalidAmount));
    assert_eq!(c.create_refusal(100, 100), None);
}
