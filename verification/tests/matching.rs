use openbook_v2_fuzz::address::AccountRef;
use openbook_v2_fuzz::book_side::BookSide;
use openbook_v2_fuzz::event_queue::{Event, EventQueue};
use openbook_v2_fuzz::market::Market;
use openbook_v2_fuzz::matching::IncomingOrder;
use openbook_v2_fuzz::placement::{place_order, PlacementOutcome};
use openbook_v2_fuzz::position::Position;
use openbook_v2_fuzz::types::{MatchError, OrderType, SelfTradeBehavior, Side};

struct Engine {
    bids: BookSide,
    asks: BookSide,
    queue: EventQueue,
    market: Market,
    positions: Vec<Position>,
    oracle: Option<i64>,
    now: u64,
}

fn trader(n: u8) -> AccountRef {
    AccountRef { key: [n; 32] }
}

fn engine(book_capacity: usize, queue_capacity: usize, maker_fee: i64, taker_fee: i64) -> Engine {
    Engine {
        bids: BookSide::new(Side::Bid, book_capacity),
        asks: BookSide::new(Side::Ask, book_capacity),
        queue: EventQueue::new(queue_capacity),
        market: Market::new(100, 10, maker_fee, taker_fee, trader(200)).unwrap(),
        positions: vec![Position::new(); 8],
        oracle: None,
        now: 0,
    }
}

fn limit(owner: u8, side: Side, price_lots: i64, max_base_lots: i64) -> IncomingOrder {
    IncomingOrder {
        owner: trader(owner),
        side,
        price_lots,
        max_base_lots,
        max_quote_lots_including_fees: i64::MAX,
        order_type: OrderType::Limit,
        self_trade_behavior: SelfTradeBehavior::DecrementBoth,
        client_order_id: 0,
        expiry_timestamp: 0,
        is_pegged: false,
        peg_offset: 0,
        peg_limit: 0,
    }
}

fn place(e: &mut Engine, order: &IncomingOrder) -> Result<PlacementOutcome, MatchError> {
    place_with(e, order, i64::MAX)
}

fn place_with(e: &mut Engine, order: &IncomingOrder, funds: i64) -> Result<PlacementOutcome, MatchError> {
    let who = order.owner.key[0] as usize;
    let mut position = e.positions[who];
    let r = place_order(
        order,
        &mut e.bids,
        &mut e.asks,
        &mut e.queue,
        &mut e.market,
        &mut position,
        funds,
        e.oracle,
        e.now,
    );
    e.positions[who] = position;
    r
}

fn fills(e: &Engine) -> Vec<(u8, u8, i64, i64)> {
    e.queue
        .events
        .iter()
        .filter_map(|ev| match ev {
            Event::Fill(f) => Some((f.maker.key[0], f.taker.key[0], f.price_lots, f.quantity)),
            Event::Out(_) => None,
        })
        .collect()
}

fn outs(e: &Engine) -> Vec<(u8, i64, i64, i64)> {
    e.queue
        .events
        .iter()
        .filter_map(|ev| match ev {
            Event::Out(o) => Some((o.owner.key[0], o.quantity, o.base_free, o.quote_free)),
            Event::Fill(_) => None,
        })
        .collect()
}

fn resting(side: &BookSide) -> Vec<(u8, i64, i64)> {
    side.orders.iter().map(|o| (o.owner.key[0], o.price_lots, o.quantity)).collect()
}

#[test]
fn best_price_matches_first_and_equal_prices_in_order_of_arrival() {
    let mut e = engine(16, 16, 0, 0);
    place(&mut e, &limit(1, Side::Ask, 102, 1)).unwrap();
    place(&mut e, &limit(2, Side::Ask, 100, 1)).unwrap();
    place(&mut e, &limit(3, Side::Ask, 101, 1)).unwrap();
    place(&mut e, &limit(4, Side::Ask, 100, 1)).unwrap();
    let out = place(&mut e, &limit(5, Side::Bid, 101, 3)).unwrap();
    assert_eq!(fills(&e), vec![(2, 5, 100, 1), (4, 5, 100, 1), (3, 5, 101, 1)]);
    assert_eq!(out.base_lots_matched, 3);
    assert_eq!(out.quote_lots_matched, 301);
    assert_eq!(out.quote_native_matched, 3010);
    assert_eq!(out.posted_lots, 0);
    assert!(!out.inserted);
    assert_eq!(resting(&e.asks), vec![(1, 102, 1)]);
    assert_eq!(resting(&e.bids), vec![]);
}

#[test]
fn second_order_at_a_price_is_touched_once_the_first_is_used_up() {
    let mut e = engine(16, 16, 0, 0);
    place(&mut e, &limit(1, Side::Ask, 100, 3)).unwrap();
    place(&mut e, &limit(2, Side::Ask, 100, 5)).unwrap();
    // less than the first order has: the second is not touched
    place(&mut e, &limit(3, Side::Bid, 100, 2)).unwrap();
    assert_eq!(fills(&e), vec![(1, 3, 100, 2)]);
    assert_eq!(resting(&e.asks), vec![(1, 100, 1), (2, 100, 5)]);
    // more than the first order has left: min(q, q1), then min(q - q1, q2)
    place(&mut e, &limit(4, Side::Bid, 100, 4)).unwrap();
    assert_eq!(fills(&e), vec![(1, 3, 100, 2), (1, 4, 100, 1), (2, 4, 100, 3)]);
    assert_eq!(resting(&e.asks), vec![(2, 100, 2)]);
    // a better price goes first whatever its sequence number
    place(&mut e, &limit(5, Side::Ask, 99, 1)).unwrap();
    place(&mut e, &limit(6, Side::Bid, 100, 9)).unwrap();
    let last: Vec<_> = fills(&e).into_iter().skip(3).collect();
    assert_eq!(last, vec![(5, 6, 99, 1), (2, 6, 100, 2)]);
    assert_eq!(resting(&e.bids), vec![(6, 100, 6)]);
}

#[test]
fn order_trades_and_rests_as_far_as_its_quote_goes() {
    let mut e = engine(16, 16, 0, 0);
    place(&mut e, &limit(1, Side::Ask, 100, 2)).unwrap();
    place(&mut e, &limit(2, Side::Ask, 110, 5)).unwrap();
    // 450 quote lots buy 2 lots at 100 and 2 of the 5 lots at 110
    let order = IncomingOrder { max_quote_lots_including_fees: 450, ..limit(3, Side::Bid, 120, 9) };
    let out = place(&mut e, &order).unwrap();
    assert_eq!(fills(&e), vec![(1, 3, 100, 2), (2, 3, 110, 2)]);
    assert_eq!(out.base_lots_matched, 4);
    assert_eq!(out.quote_lots_matched, 420);
    // out of quote: what remains of the order does not rest
    assert_eq!(out.posted_lots, 0);
    assert!(!out.inserted);
    assert_eq!(resting(&e.asks), vec![(2, 110, 3)]);
    assert_eq!(resting(&e.bids), vec![]);
    // not the quote for one lot at the best price: nothing trades
    let poor = IncomingOrder { max_quote_lots_including_fees: 109, ..limit(4, Side::Bid, 120, 9) };
    let out = place(&mut e, &poor).unwrap();
    assert_eq!(out.base_lots_matched, 0);
    assert!(!out.inserted);
    assert_eq!(resting(&e.asks), vec![(2, 110, 3)]);
    // the quote bounds what rests, too: 250 quote lots rest 2 lots at 105
    let shy = IncomingOrder { max_quote_lots_including_fees: 250, ..limit(5, Side::Bid, 105, 9) };
    let out = place(&mut e, &shy).unwrap();
    assert_eq!(out.posted_lots, 2);
    assert_eq!(resting(&e.bids), vec![(5, 105, 2)]);
    assert_eq!(e.positions[5].bids_base_lots, 2);
}

#[test]
fn bids_match_highest_price_first() {
    let mut e = engine(16, 16, 0, 0);
    place(&mut e, &limit(1, Side::Bid, 98, 2)).unwrap();
    place(&mut e, &limit(2, Side::Bid, 100, 2)).unwrap();
    place(&mut e, &limit(3, Side::Bid, 99, 2)).unwrap();
    let out = place(&mut e, &limit(4, Side::Ask, 99, 3)).unwrap();
    assert_eq!(fills(&e), vec![(2, 4, 100, 2), (3, 4, 99, 1)]);
    assert_eq!(out.base_lots_matched, 3);
    assert_eq!(resting(&e.bids), vec![(3, 99, 1), (1, 98, 2)]);
}

#[test]
fn remainder_of_a_limit_order_rests() {
    let mut e = engine(16, 16, 0, 0);
    place(&mut e, &limit(1, Side::Ask, 100, 2)).unwrap();
    let out = place(&mut e, &limit(2, Side::Bid, 105, 5)).unwrap();
    assert_eq!(out.base_lots_matched, 2);
    assert_eq!(out.posted_lots, 3);
    assert!(out.inserted);
    assert_eq!(resting(&e.bids), vec![(2, 105, 3)]);
    assert_eq!(resting(&e.asks), vec![]);
    // traded at the resting price 100; the rest locks 3 lots at 105
    assert_eq!(out.deposit_native, 2 * 100 * 10 + 3 * 105 * 10);
    assert_eq!(e.positions[2].bids_base_lots, 3);
    assert_eq!(e.positions[2].base_free_native, 200);
    assert_eq!(e.positions[2].taker_base_lots, 2);
    assert_eq!(e.positions[2].taker_quote_lots, -200);
    assert_eq!(e.market.seq_num, 3);
}

#[test]
fn immediate_or_cancel_drops_its_remainder() {
    let mut e = engine(16, 16, 0, 0);
    place(&mut e, &limit(1, Side::Ask, 100, 2)).unwrap();
    let order = IncomingOrder { order_type: OrderType::ImmediateOrCancel, ..limit(2, Side::Bid, 100, 5) };
    let out = place(&mut e, &order).unwrap();
    assert_eq!(out.base_lots_matched, 2);
    assert_eq!(out.posted_lots, 0);
    assert!(!out.inserted);
    assert_eq!(resting(&e.bids), vec![]);
    // nothing to trade with: still no error
    let out = place(&mut e, &order).unwrap();
    assert_eq!(out.base_lots_matched, 0);
    assert_eq!(out.deposit_native, 0);
}

#[test]
fn fill_or_kill_beyond_the_resting_liquidity_fails_and_changes_nothing() {
    let mut e = engine(16, 16, 100, 200);
    place(&mut e, &limit(1, Side::Ask, 100, 2)).unwrap();
    place(&mut e, &limit(3, Side::Ask, 101, 1)).unwrap();
    let before_market = e.market;
    let before_position = e.positions[2];
    let order = IncomingOrder { order_type: OrderType::FillOrKill, ..limit(2, Side::Bid, 101, 4) };
    assert_eq!(place(&mut e, &order), Err(MatchError::WouldNotFullyFill));
    assert_eq!(resting(&e.asks), vec![(1, 100, 2), (3, 101, 1)]);
    assert_eq!(resting(&e.bids), vec![]);
    assert_eq!(e.queue.len(), 0);
    assert_eq!(e.positions[2], before_position);
    assert_eq!(e.positions[1].asks_base_lots, 2);
    assert_eq!(e.market.seq_num, before_market.seq_num);
    assert_eq!(e.market.fees_accrued, before_market.fees_accrued);
    // an empty book fails it too
    let mut empty = engine(16, 16, 0, 0);
    assert_eq!(place(&mut empty, &order), Err(MatchError::WouldNotFullyFill));
}

#[test]
fn fill_or_kill_within_the_resting_liquidity_trades() {
    let mut e = engine(16, 16, 0, 0);
    place(&mut e, &limit(1, Side::Ask, 100, 2)).unwrap();
    place(&mut e, &limit(3, Side::Ask, 101, 2)).unwrap();
    let order = IncomingOrder { order_type: OrderType::FillOrKill, ..limit(2, Side::Bid, 101, 3) };
    let out = place(&mut e, &order).unwrap();
    assert_eq!(out.base_lots_matched, 3);
    assert_eq!(fills(&e), vec![(1, 2, 100, 2), (3, 2, 101, 1)]);
    assert_eq!(resting(&e.asks), vec![(3, 101, 1)]);
}

#[test]
fn self_trade_decrements_both_orders_without_a_fill() {
    let mut e = engine(16, 16, 100, 200);
    place(&mut e, &limit(1, Side::Ask, 100, 3)).unwrap();
    let out = place(&mut e, &limit(1, Side::Bid, 100, 2)).unwrap();
    assert_eq!(fills(&e), vec![]);
    // two lots of the ask went out, each unlocks one base lot
    assert_eq!(outs(&e), vec![(1, 2, 200, 0)]);
    assert_eq!(out.base_lots_matched, 0);
    assert_eq!(out.taker_fees, 0);
    assert_eq!(out.posted_lots, 0);
    assert_eq!(resting(&e.asks), vec![(1, 100, 1)]);
    assert_eq!(resting(&e.bids), vec![]);
    assert_eq!(e.market.fees_accrued, 0);
}

#[test]
fn self_trade_can_cancel_the_resting_order() {
    let mut e = engine(16, 16, 0, 0);
    place(&mut e, &limit(1, Side::Ask, 100, 3)).unwrap();
    place(&mut e, &limit(2, Side::Ask, 101, 1)).unwrap();
    let order = IncomingOrder {
        self_trade_behavior: SelfTradeBehavior::CancelResting,
        ..limit(1, Side::Bid, 101, 2)
    };
    let out = place(&mut e, &order).unwrap();
    assert_eq!(outs(&e), vec![(1, 3, 300, 0)]);
    // the incoming order went on to the next resting order
    assert_eq!(fills(&e), vec![(2, 1, 101, 1)]);
    assert_eq!(out.base_lots_matched, 1);
    assert_eq!(out.posted_lots, 1);
    assert_eq!(resting(&e.asks), vec![]);
    assert_eq!(resting(&e.bids), vec![(1, 101, 1)]);
}

#[test]
fn self_trade_can_cancel_the_incoming_order() {
    let mut e = engine(16, 16, 0, 0);
    place(&mut e, &limit(2, Side::Ask, 99, 1)).unwrap();
    place(&mut e, &limit(1, Side::Ask, 100, 3)).unwrap();
    place(&mut e, &limit(3, Side::Ask, 100, 3)).unwrap();
    let order = IncomingOrder {
        self_trade_behavior: SelfTradeBehavior::CancelIncoming,
        ..limit(1, Side::Bid, 100, 5)
    };
    let out = place(&mut e, &order).unwrap();
    assert_eq!(fills(&e), vec![(2, 1, 99, 1)]);
    assert_eq!(outs(&e), vec![]);
    assert_eq!(out.base_lots_matched, 1);
    assert_eq!(out.posted_lots, 0);
    assert!(!out.inserted);
    assert_eq!(resting(&e.asks), vec![(1, 100, 3), (3, 100, 3)]);
    assert_eq!(resting(&e.bids), vec![]);
}

#[test]
fn self_trade_can_be_rejected() {
    let mut e = engine(16, 16, 0, 0);
    place(&mut e, &limit(2, Side::Ask, 99, 1)).unwrap();
    place(&mut e, &limit(1, Side::Ask, 100, 3)).unwrap();
    let order = IncomingOrder {
        self_trade_behavior: SelfTradeBehavior::Reject,
        ..limit(1, Side::Bid, 100, 5)
    };
    let before = e.positions[1];
    assert_eq!(place(&mut e, &order), Err(MatchError::SelfTradeReject));
    assert_eq!(resting(&e.asks), vec![(2, 99, 1), (1, 100, 3)]);
    assert_eq!(e.queue.len(), 0);
    assert_eq!(e.positions[1], before);
    // no self trade in reach: the order is placed
    let shy = IncomingOrder { price_lots: 99, max_base_lots: 1, ..order };
    assert!(place(&mut e, &shy).is_ok());
}

#[test]
fn no_fill_ever_has_one_account_on_both_sides() {
    for behavior in [
        SelfTradeBehavior::DecrementBoth,
        SelfTradeBehavior::CancelResting,
        SelfTradeBehavior::CancelIncoming,
        SelfTradeBehavior::Reject,
    ] {
        let mut e = engine(16, 64, 0, 10);
        place(&mut e, &limit(1, Side::Ask, 100, 1)).unwrap();
        place(&mut e, &limit(2, Side::Ask, 100, 1)).unwrap();
        place(&mut e, &limit(1, Side::Ask, 101, 1)).unwrap();
        place(&mut e, &limit(3, Side::Ask, 101, 1)).unwrap();
        let order = IncomingOrder { self_trade_behavior: behavior, ..limit(1, Side::Bid, 102, 4) };
        let _ = place(&mut e, &order);
        for (maker, taker, _, _) in fills(&e) {
            assert_ne!(maker, taker);
        }
    }
}

#[test]
fn expired_orders_go_out_instead_of_trading() {
    let mut e = engine(16, 16, 0, 0);
    let short = IncomingOrder { expiry_timestamp: 50, ..limit(1, Side::Ask, 100, 2) };
    place(&mut e, &short).unwrap();
    place(&mut e, &limit(2, Side::Ask, 101, 1)).unwrap();
    e.now = 50;
    // at its expiry the order still counts
    let out = place(&mut e, &limit(3, Side::Bid, 100, 1)).unwrap();
    assert_eq!(out.base_lots_matched, 1);
    e.now = 51;
    let out = place(&mut e, &limit(3, Side::Bid, 101, 1)).unwrap();
    assert_eq!(outs(&e), vec![(1, 1, 100, 0)]);
    assert_eq!(fills(&e), vec![(1, 3, 100, 1), (2, 3, 101, 1)]);
    assert_eq!(out.base_lots_matched, 1);
    assert_eq!(resting(&e.asks), vec![]);
}

#[test]
fn pegged_orders_follow_the_oracle() {
    let mut e = engine(16, 16, 0, 0);
    e.oracle = Some(100);
    let pegged = IncomingOrder {
        is_pegged: true,
        peg_offset: 5,
        peg_limit: 90,
        ..limit(1, Side::Ask, 0, 2)
    };
    let out = place(&mut e, &pegged).unwrap();
    assert!(out.inserted);
    assert_eq!(resting(&e.asks), vec![(1, 105, 2)]);
    // a bid at 100 does not reach it
    place(&mut e, &limit(2, Side::Bid, 100, 1)).unwrap();
    assert_eq!(fills(&e), vec![]);
    // the oracle falls: the ask follows, down to its limit, and meets the bid
    e.oracle = Some(80);
    let out = place(&mut e, &limit(3, Side::Bid, 95, 1)).unwrap();
    assert_eq!(fills(&e), vec![(1, 3, 90, 1)]);
    assert_eq!(out.quote_lots_matched, 90);
    assert_eq!(resting(&e.asks), vec![(1, 90, 1)]);
}

#[test]
fn pegged_orders_need_an_oracle_price() {
    let mut e = engine(16, 16, 0, 0);
    let pegged = IncomingOrder {
        is_pegged: true,
        peg_offset: -5,
        peg_limit: 120,
        ..limit(1, Side::Bid, 0, 2)
    };
    assert_eq!(place(&mut e, &pegged), Err(MatchError::OracleUnavailable));
    e.oracle = Some(100);
    let out = place(&mut e, &pegged).unwrap();
    // the bid rests at 95 and locks at its limit 120
    assert_eq!(resting(&e.bids), vec![(1, 95, 2)]);
    assert_eq!(out.deposit_native, 2 * 120 * 10);
    // without an oracle price the pegged bid is passed over
    e.oracle = None;
    let out = place(&mut e, &limit(2, Side::Ask, 90, 1)).unwrap();
    assert_eq!(out.base_lots_matched, 0);
    assert_eq!(resting(&e.bids), vec![(1, 95, 2)]);
    assert_eq!(resting(&e.asks), vec![(2, 90, 1)]);
    let bad = IncomingOrder { peg_limit: 0, ..pegged };
    assert_eq!(place(&mut e, &bad), Err(MatchError::InvalidPrice));
}

#[test]
fn pegged_bid_gets_back_what_it_locked_above_the_price() {
    let mut e = engine(16, 16, 0, 0);
    e.oracle = Some(100);
    let pegged = IncomingOrder {
        is_pegged: true,
        peg_offset: -5,
        peg_limit: 120,
        ..limit(1, Side::Bid, 0, 1)
    };
    place(&mut e, &pegged).unwrap();
    place(&mut e, &limit(2, Side::Ask, 95, 1)).unwrap();
    match e.queue.peek_head().unwrap() {
        Event::Fill(f) => {
            assert_eq!(f.price_lots, 95);
            assert_eq!(f.maker_base_free, 100);
            assert_eq!(f.maker_quote_free, (120 - 95) * 10);
            assert!(f.maker_out);
        }
        Event::Out(_) => panic!("a fill was expected"),
    }
}

#[test]
fn invalid_orders_are_refused() {
    let mut e = engine(16, 16, 0, 0);
    assert_eq!(place(&mut e, &limit(1, Side::Bid, 0, 1)), Err(MatchError::InvalidPrice));
    assert_eq!(place(&mut e, &limit(1, Side::Bid, -3, 1)), Err(MatchError::InvalidPrice));
    assert_eq!(place(&mut e, &limit(1, Side::Ask, 10, 0)), Err(MatchError::InvalidQuantity));
    assert_eq!(place(&mut e, &limit(1, Side::Ask, 10, -1)), Err(MatchError::InvalidQuantity));
    let no_quote = IncomingOrder { max_quote_lots_including_fees: 0, ..limit(1, Side::Bid, 10, 1) };
    assert_eq!(place(&mut e, &no_quote), Err(MatchError::InvalidQuantity));
    assert_eq!(e.market.seq_num, 0);
}

#[test]
fn full_own_side_rejects_or_evicts() {
    let mut e = engine(1, 16, 0, 0);
    place(&mut e, &limit(1, Side::Bid, 10, 2)).unwrap();
    // not better than the worst, nothing traded: rejected
    assert_eq!(place(&mut e, &limit(2, Side::Bid, 10, 1)), Err(MatchError::BookFull));
    assert_eq!(resting(&e.bids), vec![(1, 10, 2)]);
    assert_eq!(e.queue.len(), 0);
    // better than the worst: the worst is evicted with an out event
    let out = place(&mut e, &limit(3, Side::Bid, 11, 1)).unwrap();
    assert!(out.inserted);
    assert_eq!(resting(&e.bids), vec![(3, 11, 1)]);
    assert_eq!(outs(&e), vec![(1, 2, 0, 200)]);
}

#[test]
fn remainder_is_dropped_where_the_side_is_full_after_a_trade() {
    let mut e = engine(1, 16, 0, 0);
    e.oracle = Some(100);
    let pegged = IncomingOrder {
        is_pegged: true,
        peg_offset: 5,
        peg_limit: 1,
        ..limit(1, Side::Ask, 0, 2)
    };
    place(&mut e, &pegged).unwrap();
    place(&mut e, &limit(2, Side::Bid, 103, 1)).unwrap();
    assert_eq!(resting(&e.asks), vec![(1, 105, 2)]);
    // the oracle falls to 90: the pegged ask stands at 95 when the next order
    // comes, which trades one lot with the bid and cannot rest at 100
    e.oracle = Some(90);
    let out = place(&mut e, &limit(3, Side::Ask, 100, 3)).unwrap();
    assert_eq!(out.base_lots_matched, 1);
    assert_eq!(out.posted_lots, 0);
    assert!(!out.inserted);
    assert_eq!(fills(&e), vec![(2, 3, 103, 1)]);
    assert_eq!(resting(&e.asks), vec![(1, 95, 2)]);
    assert_eq!(resting(&e.bids), vec![]);
    assert_eq!(e.positions[3].asks_base_lots, 0);
    // only the lot sold had to be paid in
    assert_eq!(out.deposit_native, 100);
}

#[test]
fn queue_without_capacity_fails_a_match() {
    let mut e = engine(16, 0, 0, 0);
    place(&mut e, &limit(1, Side::Ask, 10, 1)).unwrap();
    assert_eq!(place(&mut e, &limit(2, Side::Bid, 10, 1)), Err(MatchError::QueueFull));
    assert_eq!(resting(&e.asks), vec![(1, 10, 1)]);
    assert_eq!(e.positions[2], Position::new());
}

#[test]
fn placement_needs_the_funds_it_locks() {
    let mut e = engine(16, 16, 0, 200);
    // 3 lots at 100 lock 3000 and a fee reserve of 2 bps, rounded up per lot
    assert_eq!(
        place_with(&mut e, &limit(1, Side::Bid, 100, 3), 3002),
        Err(MatchError::InsufficientFunds)
    );
    assert_eq!(resting(&e.bids), vec![]);
    let out = place_with(&mut e, &limit(1, Side::Bid, 100, 3), 3003).unwrap();
    assert_eq!(out.deposit_native, 3003);
    // an ask locks base
    let out = place_with(&mut e, &limit(2, Side::Ask, 200, 3), 300).unwrap();
    assert_eq!(out.deposit_native, 300);
    assert_eq!(
        place_with(&mut e, &limit(2, Side::Ask, 200, 3), 299),
        Err(MatchError::InsufficientFunds)
    );
}

#[test]
fn placement_is_paid_in_full_and_leaves_the_free_balances() {
    let mut e = engine(16, 16, 0, 0);
    e.positions[1] = e.positions[1].deposit(0, 2500).unwrap();
    let out = place(&mut e, &limit(1, Side::Bid, 100, 3)).unwrap();
    assert_eq!(out.deposit_native, 3000);
    assert_eq!(e.positions[1].quote_free_native, 2500);
    e.positions[2] = e.positions[2].deposit(1000, 0).unwrap();
    let out = place(&mut e, &limit(2, Side::Ask, 200, 3)).unwrap();
    assert_eq!(out.deposit_native, 300);
    assert_eq!(e.positions[2].base_free_native, 1000);
}

#[test]
fn amounts_that_do_not_fit_fail_the_placement() {
    let mut e = engine(16, 16, 0, 0);
    assert_eq!(
        place(&mut e, &limit(1, Side::Bid, i64::MAX, 1)),
        Err(MatchError::ArithmeticOverflow)
    );
    assert_eq!(
        place(&mut e, &limit(1, Side::Ask, 1, i64::MAX)),
        Err(MatchError::ArithmeticOverflow)
    );
    assert_eq!(e.market.seq_num, 0);
    assert_eq!(resting(&e.bids), vec![]);
}

#[test]
fn taker_fee_is_charged_on_every_fill_rounded_up() {
    let mut e = engine(16, 16, 0, 200);
    // notional of one lot at 33 is 330: 2 bps of it is 0.066, charged as 1
    place(&mut e, &limit(1, Side::Ask, 33, 1)).unwrap();
    place(&mut e, &limit(2, Side::Ask, 33, 1)).unwrap();
    let out = place(&mut e, &limit(3, Side::Bid, 33, 2)).unwrap();
    assert_eq!(out.taker_fees, 2);
    assert_eq!(e.market.fees_accrued, 2);
    assert_eq!(out.deposit_native, 660 + 2);
    assert_eq!(e.positions[3].quote_position_native, -2);
}

#[test]
fn error_codes_are_distinct() {
    let all = [
        MatchError::BookFull,
        MatchError::WouldNotFullyFill,
        MatchError::InvalidPrice,
        MatchError::InvalidQuantity,
        MatchError::SelfTradeReject,
        MatchError::ArithmeticOverflow,
        MatchError::QueueFull,
        MatchError::OracleUnavailable,
        MatchError::InsufficientFunds,
    ];
    for (i, a) in all.iter().enumerate() {
        for (j, b) in all.iter().enumerate() {
            assert_eq!(a.code() == b.code(), i == j);
        }
    }
    assert_eq!(MatchError::BookFull.code(), 6000);
}
