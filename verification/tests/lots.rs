use openbook_v2_fuzz::lots::{
    checked_product, checked_sum, fee_ceil, fee_floor, lots_to_native, native_to_lots,
    native_to_lots_floor, referrer_share,
};

#[test]
fn lots_to_native_multiplies() {
    assert_eq!(lots_to_native(10_000, 10), Some(100_000));
    assert_eq!(lots_to_native(1, 100), Some(100));
    assert_eq!(lots_to_native(i64::MAX, 2), None);
}

#[test]
fn native_to_lots_wants_whole_lots() {
    assert_eq!(native_to_lots(100_000, 10), Some(10_000));
    assert_eq!(native_to_lots(100_005, 10), None);
    assert_eq!(native_to_lots(-10, 10), None);
    assert_eq!(native_to_lots(10, 0), None);
    assert_eq!(native_to_lots_floor(100_005, 10), Some(10_000));
    assert_eq!(native_to_lots_floor(9, 10), Some(0));
    assert_eq!(native_to_lots_floor(-1, 10), None);
}

#[test]
fn fees_round_in_the_protocols_favour() {
    // 2 bps of 100_000 is exactly 20
    assert_eq!(fee_ceil(100_000, 200), Some(20));
    assert_eq!(fee_floor(100_000, 200), Some(20));
    // 2 bps of 100_001 is 20.0002: up for a fee, down for a rebate
    assert_eq!(fee_ceil(100_001, 200), Some(21));
    assert_eq!(fee_floor(100_001, 200), Some(20));
    assert_eq!(fee_ceil(0, 200), Some(0));
    assert_eq!(fee_ceil(-1, 200), None);
    assert_eq!(fee_ceil(1, 1_000_001), None);
    assert_eq!(fee_ceil(i64::MAX, 1_000_000), Some(i64::MAX));
}

#[test]
fn checked_arithmetic_reports_overflow() {
    assert_eq!(checked_sum(i64::MAX, 1), None);
    assert_eq!(checked_sum(1, 2), Some(3));
    assert_eq!(checked_product(i64::MIN, -1), None);
    assert_eq!(checked_product(-3, 4), Some(-12));
}

#[test]
fn referrer_gets_a_fifth() {
    assert_eq!(referrer_share(20), 4);
    assert_eq!(referrer_share(4), 0);
    assert_eq!(referrer_share(-20), 0);
}
