use openbook_v2_fuzz::address::AccountRef;
use openbook_v2_fuzz::book_side::BookSide;
use openbook_v2_fuzz::cancel::{
    cancel_all_orders, cancel_order, cancel_order_by_client_order_id, cancel_slot, release_order,
};
use openbook_v2_fuzz::order::Order;
use openbook_v2_fuzz::position::Position;
use openbook_v2_fuzz::types::{MatchError, Side};

fn canceller(n: u8) -> AccountRef {
    AccountRef { key: [n; 32] }
}

fn cancel_resting(owner: u8, seq_num: u64, price_lots: i64, quantity: i64, unit_lock: i64) -> Order {
    Order {
        owner: canceller(owner),
        seq_num,
        client_order_id: 1000 + seq_num,
        price_lots,
        quantity,
        expiry_timestamp: 0,
        is_pegged: false,
        peg_offset: 0,
        peg_limit: 0,
        unit_lock,
    }
}

fn cancel_book() -> (BookSide, BookSide, Position) {
    let mut bids = BookSide::new(Side::Bid, 8);
    let mut asks = BookSide::new(Side::Ask, 8);
    bids.insert(cancel_resting(1, 0, 10, 2, 101)).unwrap();
    bids.insert(cancel_resting(2, 1, 9, 1, 91)).unwrap();
    bids.insert(cancel_resting(1, 2, 8, 3, 81)).unwrap();
    asks.insert(cancel_resting(1, 3, 12, 4, 100)).unwrap();
    asks.insert(cancel_resting(2, 4, 13, 1, 100)).unwrap();
    let mut position = Position::new();
    position.bids_base_lots = 5;
    position.asks_base_lots = 4;
    (bids, asks, position)
}

#[test]
fn cancelled_order_leaves_the_book_and_frees_its_lock() {
    let (mut bids, mut asks, mut position) = cancel_book();
    let o = cancel_order(&mut bids, &mut asks, &mut position, &canceller(1), 2).unwrap().unwrap();
    assert_eq!((o.price_lots, o.quantity), (8, 3));
    assert_eq!(bids.len(), 2);
    assert_eq!(asks.len(), 2);
    assert_eq!(position.bids_base_lots, 2);
    assert_eq!(position.quote_free_native, 243);
    assert_eq!(position.base_free_native, 0);
    let o = cancel_order(&mut bids, &mut asks, &mut position, &canceller(1), 3).unwrap().unwrap();
    assert_eq!(o.quantity, 4);
    assert_eq!(asks.len(), 1);
    assert_eq!(position.asks_base_lots, 0);
    assert_eq!(position.base_free_native, 400);
}

#[test]
fn cancelling_what_is_not_there_is_no_error() {
    let (mut bids, mut asks, mut position) = cancel_book();
    let before = position;
    // no such sequence number
    assert!(cancel_order(&mut bids, &mut asks, &mut position, &canceller(1), 77).unwrap().is_none());
    // another owner's order
    assert!(cancel_order(&mut bids, &mut asks, &mut position, &canceller(1), 1).unwrap().is_none());
    assert_eq!(bids.len(), 3);
    assert_eq!(asks.len(), 2);
    assert_eq!(position, before);
}

#[test]
fn orders_are_cancelled_by_client_order_id() {
    let (mut bids, mut asks, mut position) = cancel_book();
    let o = cancel_order_by_client_order_id(&mut bids, &mut asks, &mut position, &canceller(1), 1003)
        .unwrap()
        .unwrap();
    assert_eq!(o.seq_num, 3);
    assert_eq!(asks.len(), 1);
    let none =
        cancel_order_by_client_order_id(&mut bids, &mut asks, &mut position, &canceller(1), 1001)
            .unwrap();
    assert!(none.is_none());
    assert_eq!(bids.len(), 3);
}

#[test]
fn cancel_all_takes_bids_first_up_to_its_limit() {
    let (mut bids, mut asks, mut position) = cancel_book();
    assert_eq!(cancel_all_orders(&mut bids, &mut asks, &mut position, &canceller(1), 2), Ok(2));
    assert_eq!(bids.len(), 1);
    assert_eq!(bids.best().unwrap().seq_num, 1);
    assert_eq!(asks.len(), 2);
    assert_eq!(position.bids_base_lots, 0);
    assert_eq!(position.quote_free_native, 2 * 101 + 3 * 81);
    assert_eq!(cancel_all_orders(&mut bids, &mut asks, &mut position, &canceller(1), 9), Ok(1));
    assert_eq!(asks.len(), 1);
    assert_eq!(position.asks_base_lots, 0);
    assert_eq!(cancel_all_orders(&mut bids, &mut asks, &mut position, &canceller(1), 9), Ok(0));
    assert_eq!(cancel_all_orders(&mut bids, &mut asks, &mut position, &canceller(2), 0), Ok(0));
    assert_eq!(bids.len(), 1);
}

#[test]
fn cancellation_that_the_position_cannot_take_changes_nothing() {
    let (mut bids, mut asks, _) = cancel_book();
    // the position does not hold the lots that rest
    let mut position = Position::new();
    position.bids_base_lots = 2;
    assert_eq!(
        cancel_all_orders(&mut bids, &mut asks, &mut position, &canceller(1), 9),
        Err(MatchError::ArithmeticOverflow)
    );
    assert_eq!(bids.len(), 3);
    assert_eq!(asks.len(), 2);
    assert_eq!(position.bids_base_lots, 2);
    assert_eq!(position.quote_free_native, 0);
    assert_eq!(
        cancel_slot(&mut asks, &mut position, 0).err(),
        Some(MatchError::ArithmeticOverflow)
    );
    assert_eq!(asks.len(), 2);
    let freed = release_order(Side::Bid, &cancel_resting(1, 0, 10, 2, 101), &position).unwrap();
    assert_eq!(freed.quote_free_native, 202);
    assert_eq!(freed.bids_base_lots, 0);
}
