use openbook_v2_fuzz::address::AccountRef;
use openbook_v2_fuzz::market::{FillAmounts, Market};
use openbook_v2_fuzz::types::Side;

fn fee_admin() -> AccountRef {
    AccountRef { key: [9; 32] }
}

#[test]
fn market_wants_valid_parameters() {
    assert!(Market::new(100, 10, 100, 200, fee_admin()).is_some());
    // a rebate of at most the taker fee
    assert!(Market::new(1, 1, -200, 200, fee_admin()).is_some());
    assert!(Market::new(1, 1, -201, 200, fee_admin()).is_none());
    assert!(Market::new(1, 1, i64::MIN, 200, fee_admin()).is_none());
    let fresh = Market::new(1, 1, 0, 0, fee_admin()).unwrap();
    assert_eq!((fresh.fees_accrued, fresh.referrer_rebates_accrued, fresh.seq_num), (0, 0, 0));
    assert!(Market::new(1, 1, 1_000_000, 0, fee_admin()).is_some());
    assert!(Market::new(0, 10, 0, 0, fee_admin()).is_none());
    assert!(Market::new(10, 0, 0, 0, fee_admin()).is_none());
    assert!(Market::new(10, 10, -1, 0, fee_admin()).is_none());
    assert!(Market::new(10, 10, 0, -1, fee_admin()).is_none());
    assert!(Market::new(10, 10, 0, 1_000_001, fee_admin()).is_none());
}

#[test]
fn fill_amounts_follow_price_quantity_and_rates() {
    let m = Market::new(100, 10, 100, 200, fee_admin()).unwrap();
    let f = m.fill_amounts(10_000, 1).unwrap();
    assert_eq!(f.quantity, 1);
    assert_eq!(f.quote_lots, 10_000);
    assert_eq!(f.base_native, 100);
    assert_eq!(f.quote_native, 100_000);
    assert_eq!(f.taker_fee, 20);
    assert_eq!(f.maker_fee, 10);
    // fees round up
    let f = m.fill_amounts(3, 7).unwrap();
    assert_eq!(f.quote_native, 210);
    assert_eq!(f.taker_fee, 1);
    assert_eq!(f.maker_fee, 1);
    assert!(m.fill_amounts(0, 1).is_none());
    assert!(m.fill_amounts(1, 0).is_none());
    assert!(m.fill_amounts(i64::MAX, 2).is_none());
    assert!(m.fill_amounts(i64::MAX / 10 + 1, 1).is_none());
}

#[test]
fn maker_rebate_rounds_down() {
    let m = Market::new(100, 10, -150, 200, fee_admin()).unwrap();
    // 1.5 bps of 100_010 is 15.0015: the maker is paid 15; the taker pays 21
    let f = m.fill_amounts(10_001, 1).unwrap();
    assert_eq!(f.quote_native, 100_010);
    assert_eq!(f.maker_fee, -15);
    assert_eq!(f.taker_fee, 21);
    // 1.5 bps of 210 is 0.0315: no rebate; the taker still pays 1
    let f = m.fill_amounts(3, 7).unwrap();
    assert_eq!(f.maker_fee, 0);
    assert_eq!(f.taker_fee, 1);
}

#[test]
fn resting_lot_locks_price_and_fee_reserve() {
    let m = Market::new(100, 10, 100, 200, fee_admin()).unwrap();
    assert_eq!(m.unit_lock(Side::Bid, 10_000), Some(100_020));
    assert_eq!(m.unit_lock(Side::Bid, 1), Some(11));
    assert_eq!(m.unit_lock(Side::Ask, 10_000), Some(100));
    assert_eq!(m.unit_lock(Side::Bid, 0), None);
    assert_eq!(m.unit_lock(Side::Bid, i64::MAX), None);
    // the reserve is at the higher of the two rates
    let dear = Market::new(100, 10, 500, 200, fee_admin()).unwrap();
    assert_eq!(dear.unit_lock(Side::Bid, 10_000), Some(100_050));
}

#[test]
fn maker_gets_back_what_the_lock_left() {
    let m = Market::new(100, 10, 100, 200, fee_admin()).unwrap();
    let f = m.fill_amounts(10_000, 2).unwrap();
    assert_eq!(Market::maker_release(Side::Bid, &f, 100_020), Some((200, 20)));
    assert_eq!(Market::maker_release(Side::Ask, &f, 100), Some((0, 199_980)));
    // a lock that does not cover price and fee
    assert_eq!(Market::maker_release(Side::Bid, &f, 100_000), None);
    let paid = FillAmounts { maker_fee: -20, ..f };
    assert_eq!(Market::maker_release(Side::Ask, &paid, 100), Some((0, 200_020)));
}
