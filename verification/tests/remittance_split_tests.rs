use remitwise::address::Address;
use remitwise::remittance_split::{RemittanceSplit, SplitError};

fn check(refusal: Option<SplitError>) {
    if let Some(e) = refusal {
        panic!("{}", e.message());
    }
}

fn initialize(s: &mut RemittanceSplit, owner: Address, p: [u32; 4]) -> bool {
    check(s.initialize_refusal(p[0], p[1], p[2], p[3]));
    s.initialize_split(owner, p[0], p[1], p[2], p[3])
}

fn update(s: &mut RemittanceSplit, caller: Address, p: [u32; 4]) -> bool {
    check(s.update_refusal(caller, p[0], p[1], p[2], p[3]));
    s.update_split(caller, p[0], p[1], p[2], p[3])
}

fn calculate(s: &RemittanceSplit, total: i128) -> Vec<i128> {
    check(s.calculate_refusal(total));
    s.calculate_split(total)
}

fn initialized(owner: Address, p: [u32; 4]) -> RemittanceSplit {
    let mut s = RemittanceSplit::new();
    assert!(initialize(&mut s, owner, p));
    s
}

#[test]
fn test_initialize_split() {
    let owner = Address::new(1);
    let mut s = RemittanceSplit::new();
    let success = initialize(&mut s, owner, [50, 30, 15, 5]);
    assert!(success);

    let config = s.get_config().unwrap();
    assert_eq!(config.owner, owner);
    assert_eq!(config.spending_percent, 50);
    assert_eq!(config.savings_percent, 30);
    assert_eq!(config.bills_percent, 15);
    assert_eq!(config.insurance_percent, 5);
}

#[test]
#[should_panic(expected = "Percentages must sum to 100")]
fn test_initialize_split_invalid_sum() {
    let owner = Address::new(1);
    let mut s = RemittanceSplit::new();
    initialize(&mut s, owner, [50, 50, 10, 0]);
}

#[test]
#[should_panic(expected = "Split already initialized. Use update_split to modify.")]
fn test_initialize_split_already_initialized() {
    let owner = Address::new(1);
    let mut s = RemittanceSplit::new();
    initialize(&mut s, owner, [50, 30, 15, 5]);
    initialize(&mut s, owner, [50, 30, 15, 5]);
}

#[test]
fn test_update_split() {
    let owner = Address::new(1);
    let mut s = initialized(owner, [50, 30, 15, 5]);

    let success = update(&mut s, owner, [40, 40, 10, 10]);
    assert!(success);

    let config = s.get_config().unwrap();
    assert_eq!(config.spending_percent, 40);
    assert_eq!(config.savings_percent, 40);
    assert_eq!(config.bills_percent, 10);
    assert_eq!(config.insurance_percent, 10);
}

#[test]
#[should_panic(expected = "Only the owner can update the split configuration")]
fn test_update_split_unauthorized() {
    let owner = Address::new(1);
    let other = Address::new(2);
    let mut s = initialized(owner, [50, 30, 15, 5]);
    update(&mut s, other, [40, 40, 10, 10]);
}

#[test]
fn test_calculate_split() {
    let owner = Address::new(1);
    let s = initialized(owner, [50, 30, 15, 5]);

    let amounts = calculate(&s, 1000);
    assert_eq!(amounts[0], 500);
    assert_eq!(amounts[1], 300);
    assert_eq!(amounts[2], 150);
    assert_eq!(amounts[3], 50);
}

#[test]
fn test_calculate_split_rounding() {
    let owner = Address::new(1);
    let s = initialized(owner, [33, 33, 33, 1]);

    let amounts = calculate(&s, 100);
    assert_eq!(amounts[0], 33);
    assert_eq!(amounts[1], 33);
    assert_eq!(amounts[2], 33);
    assert_eq!(amounts[3], 1);
}

#[test]
#[should_panic(expected = "Total amount must be positive")]
fn test_calculate_split_zero_amount() {
    let owner = Address::new(1);
    let s = initialized(owner, [50, 30, 15, 5]);
    calculate(&s, 0);
}

#[test]
fn test_calculate_complex_rounding() {
    let owner = Address::new(1);
    let s = initialized(owner, [17, 19, 23, 41]);

    let amounts = calculate(&s, 1000);
    assert_eq!(amounts[0], 170);
    assert_eq!(amounts[1], 190);
    assert_eq!(amounts[2], 230);
    assert_eq!(amounts[3], 410);

    let tiny_amounts = calculate(&s, 3);
    assert_eq!(tiny_amounts[0], 0);
    assert_eq!(tiny_amounts[3], 3);
}

// ----- further cases -----

#[test]
fn split_defaults_before_configuration() {
    let s = RemittanceSplit::new();
    assert_eq!(s.get_split(), vec![50, 30, 15, 5]);
    assert!(s.get_config().is_none());
}

#[test]
fn split_reports_configured_percentages() {
    let s = initialized(Address::new(1), [17, 19, 23, 41]);
    assert_eq!(s.get_split(), vec![17, 19, 23, 41]);
}

#[test]
fn split_amounts_add_up_to_total() {
    let s = initialized(Address::new(1), [33, 33, 33, 1]);
    for total in [1i128, 7, 99, 101, 12345, 1_000_000_007] {
        let a = s.calculate_split(total);
        assert_eq!(a.iter().sum::<i128>(), total);
        assert!(a.iter().all(|x| *x >= 0));
    }
}

#[test]
fn update_before_initialisation_is_refused() {
    let s = RemittanceSplit::new();
    assert_eq!(s.update_refusal(Address::new(1), 25, 25, 25, 25), Some(SplitError::NotInitialized));
}

#[test]
fn update_needs_percentages_summing_to_100() {
    let owner = Address::new(1);
    let s = initialized(owner, [50, 30, 15, 5]);
    assert_eq!(s.update_refusal(owner, 25, 25, 25, 24), Some(SplitError::PercentagesMustSumTo100));
    assert_eq!(s.get_split(), vec![50, 30, 15, 5]);
}

#[test]
fn negative_total_is_refused() {
    let s = initialized(Address::new(1), [50, 30, 15, 5]);
    assert_eq!(s.calculate_refusal(-5), Some(SplitError::NonPositiveTotal));
    assert_eq!(s.calculate_refusal(0), Some(SplitError::NonPositiveTotal));
    assert_eq!(s.calculate_refusal(1), None);
}

#[test]
fn second_initialisation_is_refused() {
    let owner = Address::new(1);
    let s = initialized(owner, [50, 30, 15, 5]);
    assert_eq!(s.initialize_refusal(25, 25, 25, 25), Some(SplitError::AlreadyInitialized));
    let fresh = RemittanceSplit::new();
    assert_eq!(fresh.initialize_refusal(50, 50, 10, 0), Some(SplitError::PercentagesMustSumTo100));
    assert_eq!(fresh.initialize_refusal(25, 25, 25, 25), None);
}
