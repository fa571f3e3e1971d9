use remitwise::events::{EventCategory, EventPriority, RemitwiseEvents};
use remitwise::schedule::{catch_up, try_catch_up};

#[test]
fn category_codes_follow_declaration_order() {
    assert_eq!(EventCategory::Transaction.to_u32(), 0);
    assert_eq!(EventCategory::State.to_u32(), 1);
    assert_eq!(EventCategory::Alert.to_u32(), 2);
    assert_eq!(EventCategory::System.to_u32(), 3);
    assert_eq!(EventCategory::Access.to_u32(), 4);
}

#[test]
fn priority_codes_follow_declaration_order() {
    assert_eq!(EventPriority::Low.to_u32(), 0);
    assert_eq!(EventPriority::Medium.to_u32(), 1);
    assert_eq!(EventPriority::High.to_u32(), 2);
}

#[test]
fn event_topic_codes() {
    assert_eq!(RemitwiseEvents::emit_codes(EventCategory::Alert, EventPriority::High), (2, 2));
    assert_eq!(RemitwiseEvents::emit_batch_codes(EventCategory::System), (3, 0));
}

#[test]
fn catch_up_skips_missed_periods() {
    assert_eq!(catch_up(3000, 86400, 3500), (3000 + 86400, 0));
    assert_eq!(catch_up(3000, 86400, 3000 + 86400 * 3 + 100), (3000 + 86400 * 4, 3));
    assert_eq!(catch_up(10, 5, 15), (20, 1));
}

#[test]
fn catch_up_reports_overflow() {
    assert_eq!(try_catch_up(u64::MAX - 1, 10, u64::MAX), None);
    assert_eq!(try_catch_up(0, 10, 25), Some((30, 2)));
}
