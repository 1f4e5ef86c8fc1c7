use fixed::types::I80F48;
use openbook_v2_fuzz::address::AccountRef;
use openbook_v2_fuzz::market::Market;
use openbook_v2_fuzz::oracle::{Decimal, DECIMAL_ONE};

fn oracle_market(base_lot_size: i64, quote_lot_size: i64) -> Market {
    Market::new(base_lot_size, quote_lot_size, 0, 0, AccountRef { key: [0; 32] }).unwrap()
}

#[test]
fn decimal_is_the_fixed_point_type() {
    assert_eq!(Decimal::one().bits, I80F48::ONE.to_bits());
    assert_eq!(DECIMAL_ONE, I80F48::ONE.to_bits());
    assert_eq!(Decimal::from_int(1000).bits, I80F48::from_num(1000).to_bits());
    assert_eq!(Decimal::from_int(-7).bits, I80F48::from_num(-7).to_bits());
}

#[test]
fn floor_rounds_towards_minus_infinity() {
    let two_and_a_half = Decimal { bits: I80F48::from_num(2.5).to_bits() };
    assert_eq!(two_and_a_half.floor(), Some(2));
    let minus = Decimal { bits: I80F48::from_num(-2.5).to_bits() };
    assert_eq!(minus.floor(), Some(-3));
    assert_eq!(Decimal::from_int(41).floor(), Some(41));
    assert_eq!(Decimal { bits: i128::MAX }.floor(), None);
    assert_eq!(Decimal { bits: 1 }.floor(), Some(0));
    assert_eq!(Decimal { bits: -1 }.floor(), Some(-1));
}

#[test]
fn native_price_becomes_lots() {
    let m = oracle_market(100, 10);
    assert_eq!(m.native_price_to_lot(Decimal::from_int(1000)), Some(10000));
    assert_eq!(m.native_price_to_lot(Decimal::one()), Some(10));
    let half = Decimal { bits: I80F48::from_num(0.5).to_bits() };
    assert_eq!(m.native_price_to_lot(half), Some(5));
    // 0.05 * 100 / 10 = 0.5: rounded down
    let small = Decimal { bits: I80F48::from_num(0.05).to_bits() };
    assert_eq!(m.native_price_to_lot(small), Some(0));
    let m = oracle_market(10, 3);
    // 7 * 10 / 3 = 23.33
    assert_eq!(m.native_price_to_lot(Decimal::from_int(7)), Some(23));
}

#[test]
fn native_price_that_does_not_fit_is_refused() {
    let m = oracle_market(i64::MAX, 1);
    assert_eq!(m.native_price_to_lot(Decimal { bits: i128::MAX }), None);
    assert_eq!(m.native_price_to_lot(Decimal::from_int(i64::MAX)), None);
    let m = oracle_market(1, 1);
    assert_eq!(m.native_price_to_lot(Decimal::from_int(i64::MAX)), Some(i64::MAX));
    let bare = Market { quote_lot_size: 0, ..oracle_market(1, 1) };
    assert_eq!(bare.native_price_to_lot(Decimal::one()), None);
}
