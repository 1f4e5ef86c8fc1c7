use openbook_v2_fuzz::address::AccountRef;
use openbook_v2_fuzz::book_side::BookSide;
use openbook_v2_fuzz::order::{peg_price, Order};
use openbook_v2_fuzz::types::{BookFull, Side};

fn book_owner(n: u8) -> AccountRef {
    AccountRef { key: [n; 32] }
}

fn book_order(seq_num: u64, price_lots: i64, quantity: i64) -> Order {
    Order {
        owner: book_owner(1),
        seq_num,
        client_order_id: 100 + seq_num,
        price_lots,
        quantity,
        expiry_timestamp: 0,
        is_pegged: false,
        peg_offset: 0,
        peg_limit: 0,
        unit_lock: 1,
    }
}

fn book_pegged(seq_num: u64, price_lots: i64, offset: i64, limit: i64) -> Order {
    Order { is_pegged: true, peg_offset: offset, peg_limit: limit, ..book_order(seq_num, price_lots, 1) }
}

fn book_keys(side: &BookSide) -> Vec<(i64, u64)> {
    side.orders.iter().map(|o| (o.price_lots, o.seq_num)).collect()
}

#[test]
fn bids_rest_best_price_first() {
    let mut bids = BookSide::new(Side::Bid, 8);
    assert!(bids.best().is_none());
    assert_eq!(bids.insert(book_order(0, 10, 1)).unwrap().slot, 0);
    assert_eq!(bids.insert(book_order(1, 12, 1)).unwrap().slot, 0);
    assert_eq!(bids.insert(book_order(2, 11, 1)).unwrap().slot, 1);
    assert_eq!(book_keys(&bids), vec![(12, 1), (11, 2), (10, 0)]);
    assert_eq!(bids.best().unwrap().price_lots, 12);
    assert_eq!(bids.len(), 3);
}

#[test]
fn asks_rest_lowest_price_first() {
    let mut asks = BookSide::new(Side::Ask, 8);
    asks.insert(book_order(0, 10, 1)).unwrap();
    asks.insert(book_order(1, 12, 1)).unwrap();
    asks.insert(book_order(2, 9, 1)).unwrap();
    assert_eq!(book_keys(&asks), vec![(9, 2), (10, 0), (12, 1)]);
    assert_eq!(asks.best().unwrap().seq_num, 2);
}

#[test]
fn equal_prices_rest_in_order_of_arrival() {
    let mut asks = BookSide::new(Side::Ask, 8);
    asks.insert(book_order(5, 10, 1)).unwrap();
    asks.insert(book_order(6, 10, 1)).unwrap();
    asks.insert(book_order(7, 9, 1)).unwrap();
    let at = asks.insert(book_order(8, 10, 1)).unwrap();
    assert_eq!(at.slot, 3);
    assert!(at.evicted.is_none());
    assert_eq!(book_keys(&asks), vec![(9, 7), (10, 5), (10, 6), (10, 8)]);
}

#[test]
fn full_side_evicts_its_worst_for_a_better_price_only() {
    let mut bids = BookSide::new(Side::Bid, 2);
    bids.insert(book_order(0, 10, 3)).unwrap();
    bids.insert(book_order(1, 11, 1)).unwrap();
    // strictly better than the worst: the worst leaves
    let ins = bids.insert(book_order(2, 12, 1)).unwrap();
    assert_eq!(ins.slot, 0);
    let evicted = ins.evicted.unwrap();
    assert_eq!((evicted.price_lots, evicted.seq_num, evicted.quantity), (10, 0, 3));
    assert_eq!(book_keys(&bids), vec![(12, 2), (11, 1)]);
    // worse than the worst: refused, nothing changes
    assert_eq!(bids.insert(book_order(3, 9, 1)).err(), Some(BookFull));
    // as good as the worst is not strictly better: refused
    assert_eq!(bids.insert(book_order(4, 11, 1)).err(), Some(BookFull));
    assert_eq!(book_keys(&bids), vec![(12, 2), (11, 1)]);
    let mut none = BookSide::new(Side::Ask, 0);
    assert_eq!(none.insert(book_order(0, 1, 1)).err(), Some(BookFull));
}

#[test]
fn remove_hands_out_the_order_at_the_slot() {
    let mut asks = BookSide::new(Side::Ask, 8);
    asks.insert(book_order(0, 10, 1)).unwrap();
    asks.insert(book_order(1, 11, 2)).unwrap();
    asks.insert(book_order(2, 12, 3)).unwrap();
    let o = asks.remove(1);
    assert_eq!((o.price_lots, o.quantity), (11, 2));
    assert_eq!(book_keys(&asks), vec![(10, 0), (12, 2)]);
}

#[test]
fn orders_are_found_by_owner_and_id() {
    let mut asks = BookSide::new(Side::Ask, 8);
    asks.insert(book_order(0, 10, 1)).unwrap();
    asks.insert(book_order(1, 11, 2)).unwrap();
    assert_eq!(asks.find_order(&book_owner(1), 1), Some(1));
    assert_eq!(asks.find_order(&book_owner(2), 1), None);
    assert_eq!(asks.find_order(&book_owner(1), 9), None);
    assert_eq!(asks.find_client_order(&book_owner(1), 100), Some(0));
    assert_eq!(asks.find_client_order(&book_owner(1), 7), None);
}

#[test]
fn matchable_orders_are_live_and_within_the_limit() {
    let mut asks = BookSide::new(Side::Ask, 8);
    asks.insert(book_order(0, 10, 1)).unwrap();
    asks.insert(Order { expiry_timestamp: 50, ..book_order(1, 11, 1) }).unwrap();
    asks.insert(Order { expiry_timestamp: 100, ..book_order(2, 12, 1) }).unwrap();
    asks.insert(book_order(3, 13, 1)).unwrap();
    let keys: Vec<u64> = asks.iterate_matchable(12, 100).iter().map(|o| o.seq_num).collect();
    assert_eq!(keys, vec![0, 2]);
    // a second walk starts anew
    assert_eq!(asks.iterate_matchable(12, 100).len(), 2);
    assert_eq!(asks.iterate_matchable(9, 0).len(), 0);
    assert_eq!(asks.iterate_matchable(13, 0).len(), 4);
    assert_eq!(asks.len(), 4);
}

#[test]
fn peg_price_follows_the_oracle_within_its_limit() {
    assert_eq!(peg_price(Side::Bid, 50, -5, 100), 45);
    assert_eq!(peg_price(Side::Bid, 200, -5, 100), 100);
    assert_eq!(peg_price(Side::Ask, 10, 5, 30), 30);
    assert_eq!(peg_price(Side::Ask, 40, 5, 30), 45);
    // never under one lot
    assert_eq!(peg_price(Side::Bid, 50, -100, 100), 1);
    assert_eq!(peg_price(Side::Ask, i64::MAX, i64::MAX, 30), i64::MAX);
}

#[test]
fn reanchoring_moves_pegged_orders_and_sorts_again() {
    let mut bids = BookSide::new(Side::Bid, 8);
    bids.insert(book_order(0, 48, 1)).unwrap();
    bids.insert(book_pegged(1, 45, -5, 100)).unwrap();
    bids.insert(book_order(2, 40, 1)).unwrap();
    assert_eq!(book_keys(&bids), vec![(48, 0), (45, 1), (40, 2)]);
    bids.reanchor_pegged_orders(60);
    assert_eq!(book_keys(&bids), vec![(55, 1), (48, 0), (40, 2)]);
    bids.reanchor_pegged_orders(40);
    assert_eq!(book_keys(&bids), vec![(48, 0), (40, 2), (35, 1)]);
    bids.reanchor_pegged_orders(45);
    // equal price: the earlier sequence number first
    assert_eq!(book_keys(&bids), vec![(48, 0), (40, 1), (40, 2)]);
    bids.reanchor_pegged_orders(1000);
    assert_eq!(book_keys(&bids), vec![(100, 1), (48, 0), (40, 2)]);
    assert_eq!(bids.len(), 3);
}
