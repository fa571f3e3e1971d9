use remitwise::address::Address;
use remitwise::bill_payments::{BillPayments, Error};

fn s(text: &str) -> String {
    text.to_string()
}

const DAY: u64 = 86400;

#[test]
fn bill_is_created_unpaid_with_next_identifier() {
    let mut c = BillPayments::new();
    let owner = Address::new(1);
    let id = c.create_bill(owner, s("Electricity"), 150, 30 * DAY, false, 0, 10).unwrap();
    assert_eq!(id, 1);
    let b = c.get_bill(id).unwrap();
    assert_eq!(b.owner, owner);
    assert_eq!(b.name, "Electricity");
    assert_eq!(b.amount, 150);
    assert!(!b.paid);
    assert_eq!(b.created_at, 10);
    assert_eq!(b.paid_at, None);
    assert_eq!(c.create_bill(owner, s("Water"), 10, 0, false, 0, 10), Ok(2));
}

#[test]
fn bill_creation_is_validated() {
    let mut c = BillPayments::new();
    let owner = Address::new(1);
    assert_eq!(c.create_bill(owner, s("X"), 0, 0, false, 0, 0), Err(Error::InvalidAmount));
    assert_eq!(c.create_bill(owner, s("X"), 10, 0, true, 0, 0), Err(Error::InvalidFrequency));
    assert!(c.get_bill(1).is_none());
}

#[test]
fn paying_a_recurring_bill_creates_the_next_occurrence() {
    let mut c = BillPayments::new();
    let owner = Address::new(1);
    let id = c.create_bill(owner, s("Insurance"), 50, 1000, true, 30, 0).unwrap();
    c.pay_bill(owner, id, 500).unwrap();
    let paid = c.get_bill(id).unwrap();
    assert!(paid.paid);
    assert_eq!(paid.paid_at, Some(500));
    let next = c.get_bill(id + 1).unwrap();
    assert!(!next.paid);
    assert!(next.recurring);
    assert_eq!(next.amount, 50);
    assert_eq!(next.due_date, 1000 + 30 * DAY);
    assert_eq!(next.created_at, 500);
}

#[test]
fn paying_is_refused_for_others_twice_and_unknown() {
    let mut c = BillPayments::new();
    let owner = Address::new(1);
    let id = c.create_bill(owner, s("Rent"), 500, 0, false, 0, 0).unwrap();
    assert_eq!(c.pay_bill(Address::new(2), id, 0), Err(Error::Unauthorized));
    assert_eq!(c.pay_bill(owner, 77, 0), Err(Error::BillNotFound));
    c.pay_bill(owner, id, 0).unwrap();
    assert_eq!(c.pay_bill(owner, id, 0), Err(Error::BillAlreadyPaid));
}

#[test]
fn unpaid_and_overdue_listings_and_total() {
    let mut c = BillPayments::new();
    let a = Address::new(1);
    let b = Address::new(2);
    let b1 = c.create_bill(a, s("1"), 100, 50, false, 0, 0).unwrap();
    c.create_bill(a, s("2"), 200, 500, false, 0, 0).unwrap();
    c.create_bill(b, s("3"), 400, 10, false, 0, 0).unwrap();
    c.pay_bill(a, b1, 0).unwrap();

    let unpaid = c.get_unpaid_bills(a);
    assert_eq!(unpaid.len(), 1);
    assert_eq!(unpaid[0].amount, 200);
    assert_eq!(c.get_total_unpaid(a), 200);
    assert_eq!(c.get_total_unpaid(b), 400);

    let overdue = c.get_overdue_bills(100);
    assert_eq!(overdue.len(), 1);
    assert_eq!(overdue[0].owner, b);

    assert_eq!(c.get_all_bills_for_owner(a).len(), 2);
}

#[test]
fn cancelling_removes_a_bill_of_its_owner() {
    let mut c = BillPayments::new();
    let owner = Address::new(1);
    let id = c.create_bill(owner, s("Gym"), 30, 0, false, 0, 0).unwrap();
    assert_eq!(c.cancel_bill(Address::new(2), id), Err(Error::Unauthorized));
    c.cancel_bill(owner, id).unwrap();
    assert!(c.get_bill(id).is_none());
    assert_eq!(c.cancel_bill(owner, id), Err(Error::BillNotFound));
}

#[test]
fn archive_then_restore_brings_the_bill_back() {
    let mut c = BillPayments::new();
    let owner = Address::new(1);
    let id = c.create_bill(owner, s("Phone"), 70, 0, false, 0, 0).unwrap();
    let open = c.create_bill(owner, s("Open"), 20, 0, false, 0, 0).unwrap();
    c.pay_bill(owner, id, 100).unwrap();

    assert_eq!(c.archive_paid_bills(owner, 200, 300), Ok(1));
    assert!(c.get_bill(id).is_none());
    assert!(c.get_bill(open).is_some());
    let archived = c.get_archived_bill(id).unwrap();
    assert_eq!(archived.amount, 70);
    assert_eq!(archived.paid_at, 100);
    assert_eq!(archived.archived_at, 300);
    assert_eq!(c.get_archived_bills(owner).len(), 1);

    let stats = c.get_storage_stats();
    assert_eq!(stats.active_bills, 1);
    assert_eq!(stats.archived_bills, 1);
    assert_eq!(stats.total_unpaid_amount, 20);
    assert_eq!(stats.total_archived_amount, 70);

    assert_eq!(c.restore_bill(Address::new(2), id, 400), Err(Error::Unauthorized));
    c.restore_bill(owner, id, 400).unwrap();
    let back = c.get_bill(id).unwrap();
    assert_eq!(back.amount, 70);
    assert!(back.paid);
    assert_eq!(back.paid_at, Some(100));
    assert_eq!(back.due_date, 400 + 30 * DAY);
    assert!(c.get_archived_bill(id).is_none());
}

#[test]
fn cleanup_drops_old_archive_records() {
    let mut c = BillPayments::new();
    let owner = Address::new(1);
    let id = c.create_bill(owner, s("Old"), 70, 0, false, 0, 0).unwrap();
    c.pay_bill(owner, id, 1).unwrap();
    c.archive_paid_bills(owner, 10, 5).unwrap();
    assert_eq!(c.bulk_cleanup_bills(owner, 5, 20), Ok(0));
    assert_eq!(c.bulk_cleanup_bills(owner, 6, 20), Ok(1));
    assert!(c.get_archived_bill(id).is_none());
}

#[test]
fn batch_payment_pays_all_or_none() {
    let mut c = BillPayments::new();
    let owner = Address::new(1);
    let a = c.create_bill(owner, s("A"), 10, 0, false, 0, 0).unwrap();
    let b = c.create_bill(owner, s("B"), 20, 0, true, 7, 0).unwrap();
    assert_eq!(c.batch_pay_bills(owner, vec![a, 99], 5), Err(Error::BillNotFound));
    assert!(!c.get_bill(a).unwrap().paid);
    assert_eq!(c.batch_pay_bills(owner, vec![a, b], 5), Ok(2));
    assert!(c.get_bill(a).unwrap().paid);
    assert!(c.get_bill(b).unwrap().paid);
    assert_eq!(c.get_bill(b + 1).unwrap().due_date, 7 * DAY);
    let too_many: Vec<u32> = (0..51).collect();
    assert_eq!(c.batch_pay_bills(owner, too_many, 5), Err(Error::BatchTooLarge));
}

#[test]
fn pause_blocks_bill_changes() {
    let mut c = BillPayments::new();
    let admin = Address::new(9);
    let owner = Address::new(1);
    let id = c.create_bill(owner, s("A"), 10, 0, false, 0, 0).unwrap();
    c.set_pause_admin(admin, admin).unwrap();
    assert_eq!(c.pause(owner), Err(Error::UnauthorizedPause));
    c.pause(admin).unwrap();
    assert!(c.is_paused());
    assert_eq!(c.create_bill(owner, s("B"), 10, 0, false, 0, 0), Err(Error::ContractPaused));
    assert_eq!(c.pay_bill(owner, id, 0), Err(Error::ContractPaused));
    c.unpause(admin, 0).unwrap();
    c.pause_function(admin, s("pay_bill")).unwrap();
    assert!(c.is_function_paused_public(&s("pay_bill")));
    assert_eq!(c.pay_bill(owner, id, 0), Err(Error::FunctionPaused));
    c.unpause_function(admin, s("pay_bill")).unwrap();
    assert_eq!(c.pay_bill(owner, id, 0), Ok(()));
}

#[test]
fn scheduled_unpause_waits_for_its_time() {
    let mut c = BillPayments::new();
    let admin = Address::new(9);
    c.set_pause_admin(admin, admin).unwrap();
    c.pause(admin).unwrap();
    c.schedule_unpause(admin, 100, 10).unwrap();
    assert_eq!(c.unpause(admin, 50), Err(Error::ContractPaused));
    assert!(c.is_paused());
    c.unpause(admin, 100).unwrap();
    assert!(!c.is_paused());
}

#[test]
fn version_and_error_codes() {
    let mut c = BillPayments::new();
    assert_eq!(c.get_version(), 1);
    let admin = Address::new(9);
    c.set_upgrade_admin(admin, admin).unwrap();
    c.set_version(admin, 3).unwrap();
    assert_eq!(c.get_version(), 3);
    assert_eq!(Error::BillNotFound.code(), 1);
    assert_eq!(Error::Unauthorized.code(), 5);
    assert_eq!(Error::BatchValidationFailed.code(), 10);
}

#[test]
fn batch_paying_the_same_bill_twice_fails_validation() {
    let mut c = BillPayments::new();
    let owner = Address::new(1);
    let a = c.create_bill(owner, s("A"), 10, 0, false, 0, 0).unwrap();
    assert_eq!(c.batch_pay_bills(owner, vec![a, a], 5), Err(Error::BatchValidationFailed));
    assert!(!c.get_bill(a).unwrap().paid);
}

#[test]
fn paying_a_bill_lowers_the_unpaid_total_unless_it_recurs() {
    let mut c = BillPayments::new();
    let owner = Address::new(1);
    let other = Address::new(2);
    let once = c.create_bill(owner, s("Rent"), 400, 1000, false, 0, 0).unwrap();
    let monthly = c.create_bill(owner, s("Phone"), 30, 1000, true, 30, 0).unwrap();
    c.create_bill(other, s("Gas"), 70, 1000, false, 0, 0).unwrap();
    assert_eq!(c.get_total_unpaid(owner), 430);
    c.pay_bill(owner, once, 10).unwrap();
    assert_eq!(c.get_total_unpaid(owner), 30);
    c.pay_bill(owner, monthly, 20).unwrap();
    assert_eq!(c.get_total_unpaid(owner), 30);
    assert_eq!(c.get_total_unpaid(other), 70);
}

#[test]
fn refusals_are_reported_before_paying_or_restoring() {
    let mut c = BillPayments::new();
    let owner = Address::new(1);
    let other = Address::new(2);
    let id = c.create_bill(owner, s("Rent"), 400, 1000, false, 0, 0).unwrap();
    assert_eq!(c.pay_refusal(other, id), Some(Error::Unauthorized));
    assert_eq!(c.pay_refusal(owner, id + 1), Some(Error::BillNotFound));
    assert_eq!(c.pay_refusal(owner, id), None);
    assert_eq!(c.batch_precheck(owner, &vec![id, id + 1]), Some(Error::BillNotFound));
    assert_eq!(c.batch_precheck(owner, &vec![id; 51]), Some(Error::BatchTooLarge));
    assert_eq!(c.batch_precheck(owner, &vec![id]), None);
    c.pay_bill(owner, id, 100).unwrap();
    assert_eq!(c.pay_refusal(owner, id), Some(Error::BillAlreadyPaid));
    assert_eq!(c.restore_refusal(owner, id), Some(Error::BillNotFound));
    c.archive_paid_bills(owner, 200, 300).unwrap();
    assert_eq!(c.restore_refusal(other, id), Some(Error::Unauthorized));
    assert_eq!(c.restore_refusal(owner, id), None);
}
