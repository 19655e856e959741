use rymeon_ca::errors::CaError;
use rymeon_ca::validity::{ValidityPolicy, SECONDS_PER_DAY};

#[test]
fn compute_spans_exactly_the_lifetime() {
    let policy = ValidityPolicy::new(0);
    let v = policy.compute(1_000_000, 2).unwrap();
    assert_eq!(v.not_before, 1_000_000);
    assert_eq!(v.not_after, 1_000_000 + 2 * SECONDS_PER_DAY);
    assert_eq!(v.not_after - v.not_before, 2 * SECONDS_PER_DAY);
}

#[test]
fn compute_backdates_by_the_skew_tolerance() {
    let policy = ValidityPolicy::new(300);
    let v = policy.compute(1_000_000, 1).unwrap();
    assert_eq!(v.not_before, 999_700);
    assert_eq!(v.not_after, 1_000_000 + SECONDS_PER_DAY);
    assert_eq!(v.not_after - v.not_before, SECONDS_PER_DAY + 300);
}

#[test]
fn compute_rejects_zero_lifetime() {
    let policy = ValidityPolicy::new(0);
    assert_eq!(policy.compute(1_000_000, 0), Err(CaError::InvalidLifetime));
}
