use remitwise::address::Address;
use remitwise::savings_goals::{SavingsGoalContract, SavingsGoalError};

fn s(text: &str) -> String {
    text.to_string()
}

fn contract() -> SavingsGoalContract {
    let mut c = SavingsGoalContract::new();
    c.init();
    c
}

#[test]
fn test_create_goal_unique_ids() {
    let mut c = contract();
    let user = Address::new(1);
    let id1 = c.create_goal(user, s("Goal 1"), 1000, 1735689600).unwrap();
    let id2 = c.create_goal(user, s("Goal 2"), 2000, 1735689600).unwrap();
    assert_ne!(id1, id2);
}

#[test]
fn test_add_to_goal_increments() {
    let mut c = contract();
    let user = Address::new(1);
    let id = c.create_goal(user, s("Save"), 1000, 2000000000).unwrap();
    let new_balance = c.add_to_goal(user, id, 500, 0).unwrap();
    assert_eq!(new_balance, 500);
}

#[test]
fn test_add_to_non_existent_goal() {
    let mut c = contract();
    let user = Address::new(1);
    let res = c.add_to_goal(user, 99, 500, 0);
    assert_eq!(res, Err(SavingsGoalError::GoalNotFound));
}

#[test]
fn test_get_goal_retrieval() {
    let mut c = contract();
    let user = Address::new(1);
    let name = s("Car");
    let id = c.create_goal(user, name.clone(), 5000, 2000000000).unwrap();
    let goal = c.get_goal(id).unwrap();
    assert_eq!(goal.name, name);
}

#[test]
fn test_get_all_goals() {
    let mut c = contract();
    let user = Address::new(1);
    c.create_goal(user, s("A"), 100, 2000000000).unwrap();
    c.create_goal(user, s("B"), 200, 2000000000).unwrap();
    let all_goals = c.get_all_goals(user);
    assert_eq!(all_goals.len(), 2);
}

#[test]
fn test_is_goal_completed() {
    let mut c = contract();
    let user = Address::new(1);
    let target = 1000;
    let id = c.create_goal(user, s("Trip"), target, 2000000000).unwrap();

    assert!(!c.is_goal_completed(id), "Goal should not be complete at start");

    c.add_to_goal(user, id, target, 0).unwrap();

    let goal = c.get_goal(id).unwrap();
    assert_eq!(goal.current_amount, target, "The amount was not saved correctly");

    assert!(c.is_goal_completed(id), "Goal should be completed when current == target");

    c.add_to_goal(user, id, 1, 0).unwrap();
    assert!(c.is_goal_completed(id), "Goal should stay completed if overfunded");
}

#[test]
fn test_edge_cases_large_amounts() {
    let mut c = contract();
    let user = Address::new(1);
    let id = c.create_goal(user, s("Max"), i128::MAX, 2000000000).unwrap();
    c.add_to_goal(user, id, i128::MAX - 100, 0).unwrap();
    let goal = c.get_goal(id).unwrap();
    assert_eq!(goal.current_amount, i128::MAX - 100);
}

#[test]
fn test_zero_amount_fails() {
    let mut c = contract();
    let user = Address::new(1);
    let res = c.create_goal(user, s("Fail"), 0, 2000000000);
    assert_eq!(res, Err(SavingsGoalError::TargetAmountMustBePositive));
}

#[test]
fn test_multiple_goals_management() {
    let mut c = contract();
    let user = Address::new(1);
    let id1 = c.create_goal(user, s("G1"), 1000, 2000000000).unwrap();
    let id2 = c.create_goal(user, s("G2"), 2000, 2000000000).unwrap();

    c.add_to_goal(user, id1, 500, 0).unwrap();
    c.add_to_goal(user, id2, 1500, 0).unwrap();

    let g1 = c.get_goal(id1).unwrap();
    let g2 = c.get_goal(id2).unwrap();
    assert_eq!(g1.current_amount, 500);
    assert_eq!(g2.current_amount, 1500);
}

#[test]
fn test_withdraw_from_goal() {
    let mut c = contract();
    let user = Address::new(1);
    let id = c.create_goal(user, s("W"), 1000, 2000000000).unwrap();
    c.unlock_goal(user, id, 0).unwrap();
    c.add_to_goal(user, id, 500, 0).unwrap();

    let new_balance = c.withdraw_from_goal(user, id, 200, 0).unwrap();
    assert_eq!(new_balance, 300);

    let goal = c.get_goal(id).unwrap();
    assert_eq!(goal.current_amount, 300);
}

#[test]
fn test_withdraw_too_much() {
    let mut c = contract();
    let user = Address::new(1);
    let id = c.create_goal(user, s("W"), 1000, 2000000000).unwrap();
    c.unlock_goal(user, id, 0).unwrap();
    c.add_to_goal(user, id, 100, 0).unwrap();
    let res = c.withdraw_from_goal(user, id, 200, 0);
    assert_eq!(res, Err(SavingsGoalError::InsufficientBalance));
}

#[test]
fn test_withdraw_locked() {
    let mut c = contract();
    let user = Address::new(1);
    let id = c.create_goal(user, s("L"), 1000, 2000000000).unwrap();
    c.add_to_goal(user, id, 500, 0).unwrap();
    let res = c.withdraw_from_goal(user, id, 100, 0);
    assert_eq!(res, Err(SavingsGoalError::GoalLocked));
}

#[test]
fn test_withdraw_unauthorized() {
    let mut c = contract();
    let user = Address::new(1);
    let other = Address::new(2);
    let id = c.create_goal(user, s("Auth"), 1000, 2000000000).unwrap();
    c.unlock_goal(user, id, 0).unwrap();
    c.add_to_goal(user, id, 500, 0).unwrap();
    let res = c.withdraw_from_goal(other, id, 100, 0);
    assert_eq!(res, Err(SavingsGoalError::Unauthorized));
}

#[test]
fn test_lock_unlock_goal() {
    let mut c = contract();
    let user = Address::new(1);
    let id = c.create_goal(user, s("Lock"), 1000, 2000000000).unwrap();

    let goal = c.get_goal(id).unwrap();
    assert!(goal.locked);

    c.unlock_goal(user, id, 0).unwrap();
    let goal = c.get_goal(id).unwrap();
    assert!(!goal.locked);

    c.lock_goal(user, id, 0).unwrap();
    let goal = c.get_goal(id).unwrap();
    assert!(goal.locked);
}

#[test]
fn test_full_withdrawal() {
    let mut c = contract();
    let user = Address::new(1);
    let id = c.create_goal(user, s("W"), 1000, 2000000000).unwrap();
    c.unlock_goal(user, id, 0).unwrap();
    c.add_to_goal(user, id, 500, 0).unwrap();

    let new_balance = c.withdraw_from_goal(user, id, 500, 0).unwrap();
    assert_eq!(new_balance, 0);

    let goal = c.get_goal(id).unwrap();
    assert_eq!(goal.current_amount, 0);
    assert!(!c.is_goal_completed(id));
}

#[test]
fn test_exact_goal_completion() {
    let mut c = contract();
    let user = Address::new(1);
    let id = c.create_goal(user, s("Exact"), 1000, 2000000000).unwrap();

    c.add_to_goal(user, id, 500, 0).unwrap();
    assert!(!c.is_goal_completed(id));

    c.add_to_goal(user, id, 500, 0).unwrap();
    assert!(c.is_goal_completed(id));

    let goal = c.get_goal(id).unwrap();
    assert_eq!(goal.current_amount, 1000);
}

#[test]
fn test_set_time_lock() {
    let mut c = SavingsGoalContract::new();
    let owner = Address::new(1);
    let now = 1000;
    let goal_id = c.create_goal(owner, s("Education"), 10000, 5000).unwrap();

    c.set_time_lock(owner, goal_id, 10000, now);

    let goal = c.get_goal(goal_id).unwrap();
    assert_eq!(goal.unlock_date, Some(10000));
}

#[test]
fn test_withdraw_time_locked_goal_before_unlock() {
    let mut c = SavingsGoalContract::new();
    let owner = Address::new(1);
    let now = 1000;
    let goal_id = c.create_goal(owner, s("Education"), 10000, 5000).unwrap();

    c.add_to_goal(owner, goal_id, 5000, now).unwrap();
    c.unlock_goal(owner, goal_id, now).unwrap();
    c.set_time_lock(owner, goal_id, 10000, now);

    let result = c.withdraw_from_goal(owner, goal_id, 1000, now);
    assert!(result.is_err());
}

#[test]
fn test_withdraw_time_locked_goal_after_unlock() {
    let mut c = SavingsGoalContract::new();
    let owner = Address::new(1);
    let now = 1000;
    let goal_id = c.create_goal(owner, s("Education"), 10000, 5000).unwrap();

    c.add_to_goal(owner, goal_id, 5000, now).unwrap();
    c.unlock_goal(owner, goal_id, now).unwrap();
    c.set_time_lock(owner, goal_id, 3000, now);

    let later = 3500;
    let new_amount = c.withdraw_from_goal(owner, goal_id, 1000, later).unwrap();
    assert_eq!(new_amount, 4000);
}

#[test]
fn test_create_savings_schedule() {
    let mut c = SavingsGoalContract::new();
    let owner = Address::new(1);
    let now = 1000;
    let goal_id = c.create_goal(owner, s("Education"), 10000, 5000).unwrap();

    let schedule_id = c.create_savings_schedule(owner, goal_id, 500, 3000, 86400, now);
    assert_eq!(schedule_id, 1);

    let schedule = c.get_savings_schedule(schedule_id);
    assert!(schedule.is_some());
    let schedule = schedule.unwrap();
    assert_eq!(schedule.amount, 500);
    assert_eq!(schedule.next_due, 3000);
    assert!(schedule.active);
}

#[test]
fn test_modify_savings_schedule() {
    let mut c = SavingsGoalContract::new();
    let owner = Address::new(1);
    let now = 1000;
    let goal_id = c.create_goal(owner, s("Education"), 10000, 5000).unwrap();

    let schedule_id = c.create_savings_schedule(owner, goal_id, 500, 3000, 86400, now);
    c.modify_savings_schedule(owner, schedule_id, 1000, 4000, 172800, now);

    let schedule = c.get_savings_schedule(schedule_id).unwrap();
    assert_eq!(schedule.amount, 1000);
    assert_eq!(schedule.next_due, 4000);
    assert_eq!(schedule.interval, 172800);
}

#[test]
fn test_cancel_savings_schedule() {
    let mut c = SavingsGoalContract::new();
    let owner = Address::new(1);
    let now = 1000;
    let goal_id = c.create_goal(owner, s("Education"), 10000, 5000).unwrap();

    let schedule_id = c.create_savings_schedule(owner, goal_id, 500, 3000, 86400, now);
    c.cancel_savings_schedule(owner, schedule_id);

    let schedule = c.get_savings_schedule(schedule_id).unwrap();
    assert!(!schedule.active);
}

#[test]
fn test_execute_due_savings_schedules() {
    let mut c = SavingsGoalContract::new();
    let owner = Address::new(1);
    let goal_id = c.create_goal(owner, s("Education"), 10000, 5000).unwrap();

    let schedule_id = c.create_savings_schedule(owner, goal_id, 500, 3000, 0, 1000);

    let executed = c.execute_due_savings_schedules(3500);
    assert_eq!(executed.len(), 1);
    assert_eq!(executed[0], schedule_id);

    let goal = c.get_goal(goal_id).unwrap();
    assert_eq!(goal.current_amount, 500);
}

#[test]
fn test_execute_recurring_savings_schedule() {
    let mut c = SavingsGoalContract::new();
    let owner = Address::new(1);
    let goal_id = c.create_goal(owner, s("Education"), 10000, 5000).unwrap();

    let schedule_id = c.create_savings_schedule(owner, goal_id, 500, 3000, 86400, 1000);

    c.execute_due_savings_schedules(3500);

    let schedule = c.get_savings_schedule(schedule_id).unwrap();
    assert!(schedule.active);
    assert_eq!(schedule.next_due, 3000 + 86400);

    let goal = c.get_goal(goal_id).unwrap();
    assert_eq!(goal.current_amount, 500);
}

#[test]
fn test_execute_missed_savings_schedules() {
    let mut c = SavingsGoalContract::new();
    let owner = Address::new(1);
    let goal_id = c.create_goal(owner, s("Education"), 10000, 5000).unwrap();

    let schedule_id = c.create_savings_schedule(owner, goal_id, 500, 3000, 86400, 1000);

    c.execute_due_savings_schedules(3000 + 86400 * 3 + 100);

    let schedule = c.get_savings_schedule(schedule_id).unwrap();
    assert_eq!(schedule.missed_count, 3);
    assert!(schedule.next_due > 3000 + 86400 * 3);
}

#[test]
fn test_savings_schedule_goal_completion() {
    let mut c = SavingsGoalContract::new();
    let owner = Address::new(1);
    let goal_id = c.create_goal(owner, s("Education"), 1000, 5000).unwrap();

    c.create_savings_schedule(owner, goal_id, 1000, 3000, 0, 1000);

    c.execute_due_savings_schedules(3500);

    let goal = c.get_goal(goal_id).unwrap();
    assert_eq!(goal.current_amount, 1000);
    assert!(c.is_goal_completed(goal_id));
}

#[test]
fn test_lock_goal_success() {
    let mut c = contract();
    let user = Address::new(1);
    let id = c.create_goal(user, s("Lock Test"), 1000, 2000000000).unwrap();

    c.unlock_goal(user, id, 0).unwrap();
    assert!(!c.get_goal(id).unwrap().locked);

    c.lock_goal(user, id, 0).unwrap();
    assert!(c.get_goal(id).unwrap().locked);
}

#[test]
fn test_unlock_goal_success() {
    let mut c = contract();
    let user = Address::new(1);
    let id = c.create_goal(user, s("Unlock Test"), 1000, 2000000000).unwrap();

    assert!(c.get_goal(id).unwrap().locked);

    c.unlock_goal(user, id, 0).unwrap();
    assert!(!c.get_goal(id).unwrap().locked);
}

#[test]
fn test_lock_goal_unauthorized_panics() {
    let mut c = contract();
    let user = Address::new(1);
    let other = Address::new(2);
    let id = c.create_goal(user, s("Auth Test"), 1000, 2000000000).unwrap();
    c.unlock_goal(user, id, 0).unwrap();
    let res = c.lock_goal(other, id, 0);
    assert_eq!(res, Err(SavingsGoalError::Unauthorized));
}

#[test]
fn test_unlock_goal_unauthorized_panics() {
    let mut c = contract();
    let user = Address::new(1);
    let other = Address::new(2);
    let id = c.create_goal(user, s("Auth Test"), 1000, 2000000000).unwrap();
    let res = c.unlock_goal(other, id, 0);
    assert_eq!(res, Err(SavingsGoalError::Unauthorized));
}

#[test]
fn test_withdraw_after_lock_fails() {
    let mut c = contract();
    let user = Address::new(1);
    let id = c.create_goal(user, s("Withdraw Fail"), 1000, 2000000000).unwrap();
    c.unlock_goal(user, id, 0).unwrap();
    c.add_to_goal(user, id, 500, 0).unwrap();
    c.lock_goal(user, id, 0).unwrap();
    let res = c.withdraw_from_goal(user, id, 100, 0);
    assert_eq!(res, Err(SavingsGoalError::GoalLocked));
}

#[test]
fn test_withdraw_after_unlock_succeeds() {
    let mut c = contract();
    let user = Address::new(1);
    let id = c.create_goal(user, s("Withdraw Success"), 1000, 2000000000).unwrap();
    c.unlock_goal(user, id, 0).unwrap();
    c.add_to_goal(user, id, 500, 0).unwrap();

    let new_balance = c.withdraw_from_goal(user, id, 200, 0).unwrap();
    assert_eq!(new_balance, 300);

    let goal = c.get_goal(id).unwrap();
    assert_eq!(goal.current_amount, 300);
}

#[test]
fn test_lock_nonexistent_goal_panics() {
    let mut c = contract();
    let user = Address::new(1);
    let res = c.lock_goal(user, 99, 0);
    assert_eq!(res, Err(SavingsGoalError::GoalNotFound));
}

fn goals_for(c: &mut SavingsGoalContract, user: Address, n: usize) -> Vec<u32> {
    (0..n)
        .map(|i| {
            c.create_goal(user, format!("Goal {}", i), 1000 + i as i128, 1735689600)
                .unwrap()
        })
        .collect()
}

#[test]
fn test_get_goals_paginated_empty_owner() {
    let mut c = contract();
    let user = Address::new(1);
    let empty_user = Address::new(2);
    goals_for(&mut c, user, 2);

    let response = c.get_goals_paginated(empty_user, None, Some(10));
    assert_eq!(response.goals.len(), 0);
    assert!(!response.has_more);
    assert_eq!(response.next_cursor, None);
}

#[test]
fn test_get_goals_paginated_single_page() {
    let mut c = contract();
    let user = Address::new(1);
    let ids = goals_for(&mut c, user, 3);

    let response = c.get_goals_paginated(user, None, Some(10));
    assert_eq!(response.goals.len(), 3);
    assert!(!response.has_more);
    assert_eq!(response.next_cursor, None);

    let goal_ids: Vec<u32> = response.goals.iter().map(|g| g.id).collect();
    assert!(goal_ids.contains(&ids[0]));
    assert!(goal_ids.contains(&ids[1]));
    assert!(goal_ids.contains(&ids[2]));
}

#[test]
fn test_get_goals_paginated_multiple_pages() {
    let mut c = contract();
    let user = Address::new(1);
    let ids = goals_for(&mut c, user, 5);

    let page1 = c.get_goals_paginated(user, None, Some(2));
    assert_eq!(page1.goals.len(), 2);
    assert!(page1.has_more);
    assert!(page1.next_cursor.is_some());

    let page2 = c.get_goals_paginated(user, page1.next_cursor, Some(2));
    assert_eq!(page2.goals.len(), 2);
    assert!(page2.has_more);
    assert!(page2.next_cursor.is_some());

    let page3 = c.get_goals_paginated(user, page2.next_cursor, Some(2));
    assert_eq!(page3.goals.len(), 1);
    assert!(!page3.has_more);
    assert_eq!(page3.next_cursor, None);

    let mut all_goals: Vec<u32> = Vec::new();
    for page in [&page1, &page2, &page3] {
        for g in page.goals.iter() {
            all_goals.push(g.id);
        }
    }
    assert_eq!(all_goals.len(), 5);
    for id in ids.iter() {
        assert!(all_goals.contains(id));
    }
}

#[test]
fn test_get_goals_paginated_default_limit() {
    let mut c = contract();
    let user = Address::new(1);
    goals_for(&mut c, user, 25);

    let response = c.get_goals_paginated(user, None, None);
    assert_eq!(response.goals.len(), 20);
    assert!(response.has_more);
    assert!(response.next_cursor.is_some());
}

#[test]
fn test_get_goals_paginated_max_limit_enforcement() {
    let mut c = contract();
    let user = Address::new(1);
    goals_for(&mut c, user, 25);

    let response = c.get_goals_paginated(user, None, Some(200));
    assert_eq!(response.goals.len(), 25);
    assert!(!response.has_more);
    assert_eq!(response.next_cursor, None);
}

#[test]
fn test_get_goals_paginated_minimum_limit() {
    let mut c = contract();
    let user = Address::new(1);
    goals_for(&mut c, user, 5);

    let response = c.get_goals_paginated(user, None, Some(0));
    assert_eq!(response.goals.len(), 1);
    assert!(response.has_more);
    assert!(response.next_cursor.is_some());
}

#[test]
fn test_get_goals_paginated_cursor_behavior() {
    let mut c = contract();
    let user = Address::new(1);
    let ids = goals_for(&mut c, user, 3);
    let (goal1, goal2, goal3) = (ids[0], ids[1], ids[2]);

    let page1 = c.get_goals_paginated(user, None, Some(1));
    assert_eq!(page1.goals.len(), 1);
    assert!(page1.has_more);
    assert!(page1.next_cursor.is_some());
    assert_eq!(page1.goals[0].id, goal1);
    assert_eq!(page1.next_cursor.unwrap(), goal1);

    let page2 = c.get_goals_paginated(user, page1.next_cursor, Some(1));
    assert_eq!(page2.goals.len(), 1);
    assert!(page2.has_more);
    assert!(page2.next_cursor.is_some());
    assert_eq!(page2.goals[0].id, goal2);
    assert_eq!(page2.next_cursor.unwrap(), goal2);

    let page3 = c.get_goals_paginated(user, page2.next_cursor, Some(1));
    assert_eq!(page3.goals.len(), 1);
    assert!(!page3.has_more);
    assert_eq!(page3.next_cursor, None);
    assert_eq!(page3.goals[0].id, goal3);
}

#[test]
fn test_get_goals_paginated_cursor_not_found() {
    let mut c = contract();
    let user = Address::new(1);
    goals_for(&mut c, user, 3);

    let response = c.get_goals_paginated(user, Some(999), Some(10));
    assert_eq!(response.goals.len(), 0);
    assert!(!response.has_more);
    assert_eq!(response.next_cursor, None);
}

// ----- further cases -----

#[test]
fn withdrawing_what_was_added_restores_the_balance() {
    let mut c = contract();
    let user = Address::new(1);
    let id = c.create_goal(user, s("Roundtrip"), 1000, 0).unwrap();
    c.unlock_goal(user, id, 0).unwrap();
    c.add_to_goal(user, id, 250, 0).unwrap();
    let before = c.get_goal(id).unwrap().current_amount;
    c.add_to_goal(user, id, 77, 0).unwrap();
    assert_eq!(c.withdraw_from_goal(user, id, 77, 0), Ok(before));
}

#[test]
fn export_then_import_restores_goals() {
    let mut c = contract();
    let user = Address::new(1);
    let a = c.create_goal(user, s("A"), 1000, 0).unwrap();
    let b = c.create_goal(user, s("B"), 2000, 0).unwrap();
    c.add_to_goal(user, a, 300, 0).unwrap();
    let snapshot = c.export_snapshot(user);
    assert_eq!(snapshot.version, 1);
    assert_eq!(snapshot.goals.len(), 2);

    let mut other = contract();
    let nonce = other.get_nonce(user);
    assert_eq!(nonce, 0);
    assert!(other.import_snapshot(user, nonce, snapshot, 5));
    assert_eq!(other.get_goal(a).unwrap().current_amount, 300);
    assert_eq!(other.get_goal(b).unwrap().target_amount, 2000);
    assert_eq!(other.get_nonce(user), 1);
}

#[test]
fn import_checks_nonce_version_and_checksum() {
    let mut c = contract();
    let user = Address::new(1);
    c.create_goal(user, s("A"), 1000, 0).unwrap();

    let mut target = contract();
    assert_eq!(
        target.try_import_snapshot(user, 7, c.export_snapshot(user), 0),
        Err(SavingsGoalError::InvalidNonce)
    );
    let mut bad_version = c.export_snapshot(user);
    bad_version.version = 2;
    assert_eq!(
        target.try_import_snapshot(user, 0, bad_version, 0),
        Err(SavingsGoalError::UnsupportedSnapshotVersion)
    );
    let mut bad_sum = c.export_snapshot(user);
    bad_sum.checksum = bad_sum.checksum.wrapping_add(1);
    assert_eq!(
        target.try_import_snapshot(user, 0, bad_sum, 0),
        Err(SavingsGoalError::SnapshotChecksumMismatch)
    );
    assert_eq!(target.get_nonce(user), 0);
}

#[test]
fn checksum_has_an_exact_value() {
    let mut c = contract();
    let user = Address::new(1);
    let id = c.create_goal(user, s("A"), 1000, 0).unwrap();
    c.add_to_goal(user, id, 5, 0).unwrap();
    let snap = c.export_snapshot(user);
    // (version 1 + counter 1 + id 1 + target 1000 + current 5) * 31
    assert_eq!(snap.checksum, (1 + 1 + 1 + 1000 + 5) * 31);
}

#[test]
fn audit_log_records_operations() {
    let mut c = contract();
    let user = Address::new(1);
    let id = c.create_goal(user, s("A"), 1000, 0).unwrap();
    c.add_to_goal(user, id, 5, 42).unwrap();
    let log = c.get_audit_log(0, 10);
    assert_eq!(log.len(), 1);
    assert_eq!(log[0].operation, "add");
    assert_eq!(log[0].caller, user);
    assert_eq!(log[0].timestamp, 42);
    assert!(log[0].success);
}

#[test]
fn time_lock_must_lie_in_the_future() {
    let mut c = contract();
    let user = Address::new(1);
    let id = c.create_goal(user, s("A"), 1000, 0).unwrap();
    assert_eq!(c.try_set_time_lock(user, id, 500, 500), Err(SavingsGoalError::UnlockDateNotInFuture));
}

#[test]
fn schedules_are_validated() {
    let mut c = contract();
    let user = Address::new(1);
    let id = c.create_goal(user, s("A"), 1000, 0).unwrap();
    assert_eq!(c.try_create_savings_schedule(user, id, 0, 3000, 0, 1000), Err(SavingsGoalError::InvalidAmount));
    assert_eq!(
        c.try_create_savings_schedule(user, id, 10, 1000, 0, 1000),
        Err(SavingsGoalError::NextDueNotInFuture)
    );
    assert_eq!(c.try_create_savings_schedule(user, 99, 10, 3000, 0, 1000), Err(SavingsGoalError::GoalNotFound));
    assert_eq!(c.try_cancel_savings_schedule(user, 5), Err(SavingsGoalError::ScheduleNotFound));
}

#[test]
fn adding_past_the_largest_balance_is_refused() {
    let mut c = contract();
    let user = Address::new(1);
    let id = c.create_goal(user, s("A"), 1000, 0).unwrap();
    c.add_to_goal(user, id, i128::MAX, 0).unwrap();
    assert_eq!(c.add_to_goal(user, id, 1, 0), Err(SavingsGoalError::Overflow));
    assert_eq!(c.add_to_goal(user, id, 0, 0), Err(SavingsGoalError::InvalidAmount));
}

#[test]
fn withdrawing_before_the_time_lock_is_refused_as_time_locked() {
    let mut c = contract();
    let user = Address::new(1);
    let id = c.create_goal(user, s("A"), 1000, 0).unwrap();
    c.add_to_goal(user, id, 500, 0).unwrap();
    c.unlock_goal(user, id, 0).unwrap();
    c.set_time_lock(user, id, 100, 0);
    assert_eq!(c.withdraw_from_goal(user, id, 10, 99), Err(SavingsGoalError::TimeLocked));
    assert_eq!(c.withdraw_from_goal(user, id, 10, 100), Ok(490));
}

#[test]
fn exporting_after_an_import_gives_the_snapshot_back() {
    let mut c = contract();
    let user = Address::new(1);
    let a = c.create_goal(user, s("A"), 1000, 0).unwrap();
    c.create_goal(user, s("B"), 2000, 0).unwrap();
    c.add_to_goal(user, a, 300, 0).unwrap();
    let snapshot = c.export_snapshot(user);
    let copy = c.export_snapshot(user);

    let mut other = contract();
    assert!(other.import_snapshot(user, 0, snapshot, 5));
    let again = other.export_snapshot(user);
    assert_eq!(again.version, copy.version);
    assert_eq!(again.next_id, copy.next_id);
    assert_eq!(again.checksum, copy.checksum);
    assert_eq!(again.goals.len(), copy.goals.len());
    for (x, y) in again.goals.iter().zip(copy.goals.iter()) {
        assert_eq!(x.id, y.id);
        assert_eq!(x.name, y.name);
        assert_eq!(x.target_amount, y.target_amount);
        assert_eq!(x.current_amount, y.current_amount);
    }
}
