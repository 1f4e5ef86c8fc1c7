use vstd::prelude::*;
use crate::book_side::{insert_sorted, resorted, seq_unused, seqs_under, BookSide};
use crate::event_queue::{pushed_upto, Event, EventQueue};
use crate::lots::{
    checked_product, checked_sum, fits_i64, referrer_share, referrer_share_spec,
};
use crate::market::Market;
use crate::matching::{
    out_event, out_event_spec, walk_book, walk_spec, IncomingOrder, MatchContext, Walk,
    WalkView,
};
use crate::matching_laws::lemma_walk_keeps_book;
use crate::order::{peg_price, peg_price_spec, price_better, Order};
use crate::position::Position;
use crate::types::{MatchError, OrderType, Side};

verus! {

/// What a placement did.
#[derive(Clone, Copy, Debug, PartialEq, Eq, Structural)]
pub struct PlacementOutcome {
    /// Base lots traded.
    pub base_lots_matched: i64,
    /// Quote lots traded.
    pub quote_lots_matched: i64,
    /// Native quote units traded, before fees.
    pub quote_native_matched: i64,
    /// Fees charged to the taker, in native quote units.
    pub taker_fees: i64,
    /// Base lots that now rest on the book.
    pub posted_lots: i64,
    /// Whether what remained was put on the book.
    pub inserted: bool,
    /// Sequence number of the resting order, where one was put on the book.
    pub order_id: u64,
    /// Native units that have to be paid in from the owner's token account:
    /// quote for a bid, base for an ask.
    pub deposit_native: i64,
}

/// What is left of an incoming order after the pass, and what resting it
/// does to its own side.
pub struct RestView {
    pub posted_lots: i64,
    /// Native units the resting lots lock.
    pub posted_lock: i64,
    pub inserted: bool,
    pub order_id: u64,
    /// The own side afterwards.
    pub own: Seq<Order>,
    /// The events of the pass, and the one for an evicted order.
    pub events: Seq<Event>,
    pub next_seq: u64,
}

/// All that a placement leaves behind.
pub struct Placement {
    pub outcome: PlacementOutcome,
    pub opposite: Seq<Order>,
    pub own: Seq<Order>,
    /// The events to append to the queue, oldest first.
    pub events: Seq<Event>,
    pub position: Position,
    pub market: Market,
}

impl IncomingOrder {
    /// The order with the price it trades at: a pegged order takes the price
    /// the oracle gives it.
    pub open spec fn anchored(self, oracle_price_lots: Option<i64>) -> IncomingOrder {
        match oracle_price_lots {
            Some(p) => if self.is_pegged {
                IncomingOrder {
                    price_lots: peg_price_spec(
                        self.side,
                        p as int,
                        self.peg_offset as int,
                        self.peg_limit as int,
                    ) as i64,
                    ..self
                }
            } else {
                self
            },
            None => self,
        }
    }

    /// The price at which what rests of the order is locked: the limit of
    /// a pegged bid, else the order's price.
    pub open spec fn lock_price(self) -> i64 {
        if self.is_pegged && self.side == Side::Bid {
            self.peg_limit
        } else {
            self.price_lots
        }
    }

    /// The lots of the order that rest, where `remaining` lots are left of
    /// it and it may spend `quote_left` quote lots more: all that are left,
    /// as far as the quote goes at the order's price.
    pub open spec fn resting_lots(self, remaining: i64, quote_left: i64) -> i64 {
        if self.price_lots < 1 || quote_left < self.price_lots {
            0
        } else if quote_left as int / self.price_lots as int >= remaining {
            remaining
        } else {
            (quote_left as int / self.price_lots as int) as i64
        }
    }

    /// The order that rests for what remains of this one.
    pub open spec fn resting(self, quantity: i64, unit_lock: i64, seq_num: u64) -> Order {
        Order {
            owner: self.owner,
            seq_num,
            client_order_id: self.client_order_id,
            price_lots: self.price_lots,
            quantity,
            expiry_timestamp: self.expiry_timestamp,
            is_pegged: self.is_pegged,
            peg_offset: self.peg_offset,
            peg_limit: self.peg_limit,
            unit_lock,
        }
    }

    /// Why the order is refused before the book is looked at, if it is.
    pub open spec fn refusal(self, oracle_price_lots: Option<i64>) -> Option<MatchError> {
        if self.max_base_lots < 1 || self.max_quote_lots_including_fees < 1 {
            Some(MatchError::InvalidQuantity)
        } else if self.is_pegged && self.peg_limit < 1 {
            Some(MatchError::InvalidPrice)
        } else if !self.is_pegged && self.price_lots < 1 {
            Some(MatchError::InvalidPrice)
        } else if self.is_pegged && oracle_price_lots.is_none() {
            Some(MatchError::OracleUnavailable)
        } else {
            None
        }
    }
}

/// What resting the remainder of `order` does, after the pass `w`. An order
/// that is done, was cancelled, has not the quote for one lot more at its
/// price, or never rests, posts nothing. Else the remainder, as far as the
/// quote goes, goes on its own side, which when full evicts its worst order
/// for a strictly better priced one. Where the side refuses, the remainder
/// is dropped if anything was traded, and the placement fails with
/// `BookFull` if nothing was.
pub open spec fn rest_spec(
    order: IncomingOrder,
    w: WalkView,
    own: Seq<Order>,
    own_capacity: usize,
    market: Market,
    now_ts: u64,
) -> Result<RestView, MatchError> {
    let nothing = RestView {
        posted_lots: 0,
        posted_lock: 0,
        inserted: false,
        order_id: 0,
        own,
        events: w.events,
        next_seq: w.next_seq,
    };
    let lots = order.resting_lots(w.remaining, w.quote_left);
    if !(w.remaining > 0 && !w.cancelled && order.order_type == OrderType::Limit && lots > 0) {
        Ok(nothing)
    } else {
        match market.unit_lock_spec(order.side, order.lock_price() as int) {
            None => Err(MatchError::ArithmeticOverflow),
            Some(unit_lock) => {
                let resting = order.resting(lots, unit_lock, w.next_seq);
                let lock = lots * unit_lock;
                if !fits_i64(lock) || unit_lock < 0 || w.next_seq == u64::MAX {
                    Err(MatchError::ArithmeticOverflow)
                } else if own.len() < own_capacity {
                    Ok(
                        RestView {
                            posted_lots: lots,
                            posted_lock: lock as i64,
                            inserted: true,
                            order_id: w.next_seq,
                            own: insert_sorted(order.side, own, resting),
                            events: w.events,
                            next_seq: (w.next_seq + 1) as u64,
                        },
                    )
                } else if own.len() == 0 || !price_better(
                    order.side,
                    resting.price_lots,
                    own.last().price_lots,
                ) {
                    if w.totals.base_lots == 0 {
                        Err(MatchError::BookFull)
                    } else {
                        Ok(nothing)
                    }
                } else {
                    match out_event_spec(
                        order.side,
                        own.last(),
                        own.last().quantity,
                        now_ts,
                        (w.next_seq + 1) as u64,
                    ) {
                        Some(e) => if w.next_seq + 1 < u64::MAX {
                            Ok(
                                RestView {
                                    posted_lots: lots,
                                    posted_lock: lock as i64,
                                    inserted: true,
                                    order_id: w.next_seq,
                                    own: insert_sorted(order.side, own.drop_last(), resting),
                                    events: w.events.push(e),
                                    next_seq: (w.next_seq + 2) as u64,
                                },
                            )
                        } else {
                            Err(MatchError::ArithmeticOverflow)
                        },
                        None => Err(MatchError::ArithmeticOverflow),
                    }
                }
            },
        }
    }
}

/// What a placement leaves behind once the pass `w` is over: a failed pass
/// fails the placement; a fill-or-kill order that is not filled in full
/// fails it; else the remainder rests as `rest_spec` says, the taker's
/// position takes the trades, and the market's fees and sequence counter
/// move on: the fees grow by the taker's fees less the makers' rebates,
/// and what the accounts may claim for referrers grows by the referrers'
/// part of the taker's fees. A placement that has to be paid more in than `funds`, what the
/// owner's token account can pay, fails with `InsufficientFunds`.
pub open spec fn finish_spec(
    order: IncomingOrder,
    w: WalkView,
    own: Seq<Order>,
    own_capacity: usize,
    queue_capacity: usize,
    market: Market,
    position: Position,
    funds: i64,
    now_ts: u64,
) -> Result<Placement, MatchError> {
    if w.error.is_some() {
        Err(w.error.unwrap())
    } else if order.order_type == OrderType::FillOrKill && w.remaining > 0 {
        Err(MatchError::WouldNotFullyFill)
    } else {
        match rest_spec(order, w, own, own_capacity, market, now_ts) {
            Err(e) => Err(e),
            Ok(r) => match position.taker_spec(order.side, w.totals, r.posted_lots, r.posted_lock) {
                None => Err(MatchError::ArithmeticOverflow),
                Some((p, deposit)) => if deposit > funds {
                    Err(MatchError::InsufficientFunds)
                } else if !fits_i64(market.fees_accrued + w.totals.fees_to_market) || !fits_i64(
                    market.referrer_rebates_accrued + referrer_share_spec(
                        w.totals.taker_fees as int,
                    ),
                ) {
                    Err(MatchError::ArithmeticOverflow)
                } else if r.events.len() > 0 && queue_capacity == 0 {
                    Err(MatchError::QueueFull)
                } else {
                    Ok(
                        Placement {
                            outcome: PlacementOutcome {
                                base_lots_matched: w.totals.base_lots,
                                quote_lots_matched: w.totals.quote_lots,
                                quote_native_matched: w.totals.quote_native,
                                taker_fees: w.totals.taker_fees,
                                posted_lots: r.posted_lots,
                                inserted: r.inserted,
                                order_id: r.order_id,
                                deposit_native: deposit,
                            },
                            opposite: w.kept,
                            own: r.own,
                            events: r.events,
                            position: p,
                            market: Market {
                                fees_accrued: (market.fees_accrued + w.totals.fees_to_market) as i64,
                                referrer_rebates_accrued: (market.referrer_rebates_accrued
                                    + referrer_share_spec(w.totals.taker_fees as int)) as i64,
                                seq_num: r.next_seq,
                                ..market
                            },
                        },
                    )
                },
            },
        }
    }
}

/// What placing `order` leaves behind. The order is checked; with an oracle
/// price both sides are re-anchored first; then the opposite side is walked
/// from its best order and the placement finished as `finish_spec` says.
pub open spec fn place_spec(
    order: IncomingOrder,
    opposite: Seq<Order>,
    own: Seq<Order>,
    own_capacity: usize,
    queue_capacity: usize,
    market: Market,
    position: Position,
    funds: i64,
    oracle_price_lots: Option<i64>,
    now_ts: u64,
) -> Result<Placement, MatchError> {
    match order.refusal(oracle_price_lots) {
        Some(e) => Err(e),
        None => {
            let taker = order.anchored(oracle_price_lots);
            let c = MatchContext { market, taker, now_ts, has_oracle: oracle_price_lots.is_some() };
            let opposite_now = match oracle_price_lots {
                Some(p) => resorted(order.side.inverted(), opposite, p),
                None => opposite,
            };
            let own_now = match oracle_price_lots {
                Some(p) => resorted(order.side, own, p),
                None => own,
            };
            let w = walk_spec(opposite_now, order.side.inverted(), c, market.seq_num);
            finish_spec(
                taker,
                w,
                own_now,
                own_capacity,
                queue_capacity,
                market,
                position,
                funds,
                now_ts,
            )
        },
    }
}

/// A copy of `orders`.
pub fn copy_orders(orders: &Vec<Order>) -> (r: Vec<Order>)
    ensures
        r@ == orders@,
{
    let mut out: Vec<Order> = Vec::new();
    let mut i: usize = 0;
    while i < orders.len()
        invariant
            i <= orders@.len(),
            out@ == orders@.take(i as int),
        decreases orders@.len() - i,
    {
        out.push(orders[i]);
        proof {
            assert(orders@.take(i + 1) =~= orders@.take(i as int).push(orders@[i as int]));
        }
        i += 1;
    }
    proof {
        assert(orders@.take(orders@.len() as int) =~= orders@);
    }
    out
}

/// What resting the remainder did: the figures, and the event of an
/// eviction.
struct Rest {
    posted_lots: i64,
    posted_lock: i64,
    inserted: bool,
    order_id: u64,
    evicted: Option<Event>,
    next_seq: u64,
}

/// Rests what remains of `order` on `own`, a scratch copy of its side.
fn rest_remainder(
    order: &IncomingOrder,
    w: &Walk,
    own: &mut BookSide,
    market: &Market,
    now_ts: u64,
) -> (r: Result<Rest, MatchError>)
    requires
        old(own).wf(),
        old(own).side == order.side,
        market.wf(),
        w@.ok(),
        w.error.is_none(),
        seq_unused(old(own)@, w.next_seq),
        order.price_lots >= 1,
        order.is_pegged ==> order.peg_limit >= 1,
    ensures
        final(own).side == old(own).side,
        final(own).capacity == old(own).capacity,
        match rest_spec(*order, w@, old(own)@, old(own).capacity, *market, now_ts) {
            Err(e) => r == Err::<Rest, MatchError>(e),
            Ok(v) => r matches Ok(rest) && {
                &&& final(own).wf()
                &&& final(own)@ == v.own
                &&& rest.posted_lots == v.posted_lots
                &&& rest.posted_lock == v.posted_lock
                &&& rest.inserted == v.inserted
                &&& rest.order_id == v.order_id
                &&& rest.next_seq == v.next_seq
                &&& v.events == match rest.evicted {
                    Some(e) => w@.events.push(e),
                    None => w@.events,
                }
                &&& rest.posted_lots >= 0
                &&& rest.posted_lock >= 0
                &&& rest.next_seq >= w.next_seq
                &&& forall|bound: u64|
                    seqs_under(old(own)@, bound) && w.next_seq < bound ==> seqs_under(
                        final(own)@,
                        bound,
                    )
            },
        },
{
    let nothing = Rest {
        posted_lots: 0,
        posted_lock: 0,
        inserted: false,
        order_id: 0,
        evicted: None,
        next_seq: w.next_seq,
    };
    let is_limit = match order.order_type {
        OrderType::Limit => true,
        _ => false,
    };
    if !(w.remaining > 0 && !w.cancelled && is_limit) || w.quote_left < order.price_lots {
        return Ok(nothing);
    }
    let by_quote = w.quote_left / order.price_lots;
    proof {
        let left = w.quote_left as int;
        let price = order.price_lots as int;
        assert(1 <= left / price <= left) by (nonlinear_arith)
            requires
                1 <= price <= left,
        ;
    }
    let lots = if by_quote >= w.remaining {
        w.remaining
    } else {
        by_quote
    };
    let is_bid = match order.side {
        Side::Bid => true,
        Side::Ask => false,
    };
    let lock_price = if order.is_pegged && is_bid {
        order.peg_limit
    } else {
        order.price_lots
    };
    let unit_lock = match market.unit_lock(order.side, lock_price) {
        Some(u) => u,
        None => {
            return Err(MatchError::ArithmeticOverflow);
        },
    };
    let lock = match checked_product(lots, unit_lock) {
        Some(l) => l,
        None => {
            return Err(MatchError::ArithmeticOverflow);
        },
    };
    if unit_lock < 0 || w.next_seq == u64::MAX {
        return Err(MatchError::ArithmeticOverflow);
    }
    proof {
        assert(lots as int * unit_lock as int >= 0) by (nonlinear_arith)
            requires
                lots >= 0,
                unit_lock >= 0,
        ;
    }
    let resting = Order {
        owner: order.owner,
        seq_num: w.next_seq,
        client_order_id: order.client_order_id,
        price_lots: order.price_lots,
        quantity: lots,
        expiry_timestamp: order.expiry_timestamp,
        is_pegged: order.is_pegged,
        peg_offset: order.peg_offset,
        peg_limit: order.peg_limit,
        unit_lock,
    };
    let ghost before = own@;
    match own.insert(resting) {
        Err(_) => {
            if w.totals.base_lots == 0 {
                Err(MatchError::BookFull)
            } else {
                Ok(nothing)
            }
        },
        Ok(ins) => {
            proof {
                let kept = if ins.evicted.is_some() {
                    before.drop_last()
                } else {
                    before
                };
                kept.insert_ensures(ins.slot as int, resting);
                assert forall|bound: u64|
                    seqs_under(before, bound) && w.next_seq < bound implies seqs_under(
                    own@,
                    bound,
                ) by {
                    assert forall|j: int| 0 <= j < own@.len() implies (#[trigger] own@[j]).seq_num
                        < bound by {
                        if j < ins.slot {
                            assert(own@[j] == kept[j]);
                            assert(kept[j] == before[j]);
                        } else if j > ins.slot {
                            assert(own@[j] == kept[j - 1]);
                            assert(kept[j - 1] == before[j - 1]);
                        }
                    }
                }
            }
            match ins.evicted {
                None => Ok(
                    Rest {
                        posted_lots: lots,
                        posted_lock: lock,
                        inserted: true,
                        order_id: w.next_seq,
                        evicted: None,
                        next_seq: w.next_seq + 1,
                    },
                ),
                Some(worst) => {
                    let e = match out_event(
                        order.side,
                        &worst,
                        worst.quantity,
                        now_ts,
                        w.next_seq + 1,
                    ) {
                        Some(e) => e,
                        None => {
                            return Err(MatchError::ArithmeticOverflow);
                        },
                    };
                    if w.next_seq + 1 == u64::MAX {
                        return Err(MatchError::ArithmeticOverflow);
                    }
                    Ok(
                        Rest {
                            posted_lots: lots,
                            posted_lock: lock,
                            inserted: true,
                            order_id: w.next_seq,
                            evicted: Some(e),
                            next_seq: w.next_seq + 2,
                        },
                    )
                },
            }
        },
    }
}

/// True where the books, the queue, the market and the position are each
/// well-formed, the two sides are the two sides of one book, and every
/// resting order has a sequence number that the market has handed out.
pub open spec fn engine_ok(
    bids: &BookSide,
    asks: &BookSide,
    queue: &EventQueue,
    market: &Market,
) -> bool {
    &&& bids.wf()
    &&& asks.wf()
    &&& bids.side == Side::Bid
    &&& asks.side == Side::Ask
    &&& queue.wf()
    &&& market.wf()
    &&& seqs_under(bids@, market.seq_num)
    &&& seqs_under(asks@, market.seq_num)
}

/// Places `order`: matches it against the opposite side in price-time
/// priority, rests what remains where the order type allows, and applies
/// the trades to the taker's position. `funds` is what the owner's token
/// account can pay in. On an error nothing changes.
pub fn place_order(
    order: &IncomingOrder,
    bids: &mut BookSide,
    asks: &mut BookSide,
    queue: &mut EventQueue,
    market: &mut Market,
    position: &mut Position,
    funds: i64,
    oracle_price_lots: Option<i64>,
    now_ts: u64,
) -> (r: Result<PlacementOutcome, MatchError>)
    requires
        engine_ok(old(bids), old(asks), old(queue), old(market)),
        old(position).wf(),
    ensures
        engine_ok(final(bids), final(asks), final(queue), final(market)),
        final(position).wf(),
        final(bids).capacity == old(bids).capacity,
        final(asks).capacity == old(asks).capacity,
        final(queue).capacity == old(queue).capacity,
        match place_spec(
            *order,
            if order.side == Side::Bid {
                old(asks)@
            } else {
                old(bids)@
            },
            if order.side == Side::Bid {
                old(bids)@
            } else {
                old(asks)@
            },
            if order.side == Side::Bid {
                old(bids).capacity
            } else {
                old(asks).capacity
            },
            old(queue).capacity,
            *old(market),
            *old(position),
            funds,
            oracle_price_lots,
            now_ts,
        ) {
            Err(e) => {
                &&& r == Err::<PlacementOutcome, MatchError>(e)
                &&& final(bids)@ == old(bids)@
                &&& final(asks)@ == old(asks)@
                &&& final(queue)@ == old(queue)@
                &&& final(queue).flagged@ == old(queue).flagged@
                &&& *final(market) == *old(market)
                &&& *final(position) == *old(position)
            },
            Ok(p) => {
                &&& r == Ok::<PlacementOutcome, MatchError>(p.outcome)
                &&& final(bids)@ == (if order.side == Side::Bid {
                    p.own
                } else {
                    p.opposite
                })
                &&& final(asks)@ == (if order.side == Side::Bid {
                    p.opposite
                } else {
                    p.own
                })
                &&& (final(queue)@, final(queue).flagged@) == pushed_upto(
                    (old(queue)@, old(queue).flagged@),
                    old(queue).capacity,
                    p.events,
                    p.events.len() as int,
                )
                &&& *final(market) == p.market
                &&& *final(position) == p.position
            },
        },
{
    let is_bid = match order.side {
        Side::Bid => true,
        Side::Ask => false,
    };
    if is_bid {
        place_on(order, asks, bids, queue, market, position, funds, oracle_price_lots, now_ts)
    } else {
        place_on(order, bids, asks, queue, market, position, funds, oracle_price_lots, now_ts)
    }
}

/// Places `order` with the two sides named by their part: the side it
/// trades against and the side it rests on.
fn place_on(
    order: &IncomingOrder,
    opposite: &mut BookSide,
    own: &mut BookSide,
    queue: &mut EventQueue,
    market: &mut Market,
    position: &mut Position,
    funds: i64,
    oracle_price_lots: Option<i64>,
    now_ts: u64,
) -> (r: Result<PlacementOutcome, MatchError>)
    requires
        old(opposite).wf(),
        old(own).wf(),
        old(opposite).side == order.side.inverted(),
        old(own).side == order.side,
        old(queue).wf(),
        old(market).wf(),
        old(position).wf(),
        seqs_under(old(opposite)@, old(market).seq_num),
        seqs_under(old(own)@, old(market).seq_num),
    ensures
        final(opposite).wf(),
        final(own).wf(),
        final(opposite).side == old(opposite).side,
        final(own).side == old(own).side,
        final(opposite).capacity == old(opposite).capacity,
        final(own).capacity == old(own).capacity,
        final(queue).wf(),
        final(queue).capacity == old(queue).capacity,
        final(market).wf(),
        final(position).wf(),
        seqs_under(final(opposite)@, final(market).seq_num),
        seqs_under(final(own)@, final(market).seq_num),
        match place_spec(
            *order,
            old(opposite)@,
            old(own)@,
            old(own).capacity,
            old(queue).capacity,
            *old(market),
            *old(position),
            funds,
            oracle_price_lots,
            now_ts,
        ) {
            Err(e) => {
                &&& r == Err::<PlacementOutcome, MatchError>(e)
                &&& final(opposite)@ == old(opposite)@
                &&& final(own)@ == old(own)@
                &&& final(queue)@ == old(queue)@
                &&& final(queue).flagged@ == old(queue).flagged@
                &&& *final(market) == *old(market)
                &&& *final(position) == *old(position)
            },
            Ok(p) => {
                &&& r == Ok::<PlacementOutcome, MatchError>(p.outcome)
                &&& final(opposite)@ == p.opposite
                &&& final(own)@ == p.own
                &&& (final(queue)@, final(queue).flagged@) == pushed_upto(
                    (old(queue)@, old(queue).flagged@),
                    old(queue).capacity,
                    p.events,
                    p.events.len() as int,
                )
                &&& *final(market) == p.market
                &&& *final(position) == p.position
            },
        },
{
    if order.max_base_lots < 1 || order.max_quote_lots_including_fees < 1 {
        return Err(MatchError::InvalidQuantity);
    }
    if order.is_pegged && order.peg_limit < 1 {
        return Err(MatchError::InvalidPrice);
    }
    if !order.is_pegged && order.price_lots < 1 {
        return Err(MatchError::InvalidPrice);
    }
    if order.is_pegged && oracle_price_lots.is_none() {
        return Err(MatchError::OracleUnavailable);
    }
    let mut taker = *order;
    let opposite_now: Vec<Order>;
    let mut own_next: BookSide;
    match oracle_price_lots {
        Some(p) => {
            if order.is_pegged {
                taker.price_lots = peg_price(order.side, p, order.peg_offset, order.peg_limit);
            }
            opposite_now = opposite.reanchored_orders(p);
            own_next =
            BookSide { side: own.side, capacity: own.capacity, orders: own.reanchored_orders(p) };
        },
        None => {
            opposite_now = copy_orders(&opposite.orders);
            own_next =
            BookSide { side: own.side, capacity: own.capacity, orders: copy_orders(&own.orders) };
        },
    }
    let c = MatchContext {
        market: *market,
        taker,
        now_ts,
        has_oracle: oracle_price_lots.is_some(),
    };
    let w = walk_book(&opposite_now, opposite.side, &c, market.seq_num);
    proof {
        lemma_walk_keeps_book(
            opposite_now@,
            opposite_now@.len() as int,
            opposite.side,
            c,
            market.seq_num,
        );
    }
    match w.error {
        Some(e) => {
            return Err(e);
        },
        None => {},
    }
    let is_fok = match order.order_type {
        OrderType::FillOrKill => true,
        _ => false,
    };
    if is_fok && w.remaining > 0 {
        return Err(MatchError::WouldNotFullyFill);
    }
    let ghost own_now = own_next@;
    let rest = match rest_remainder(&taker, &w, &mut own_next, market, now_ts) {
        Ok(rest) => rest,
        Err(e) => {
            return Err(e);
        },
    };
    let (next_position, deposit) = match position.apply_taker(
        order.side,
        &w.totals,
        rest.posted_lots,
        rest.posted_lock,
    ) {
        Some(x) => x,
        None => {
            return Err(MatchError::ArithmeticOverflow);
        },
    };
    if deposit > funds {
        return Err(MatchError::InsufficientFunds);
    }
    let share = referrer_share(w.totals.taker_fees);
    let fees_accrued = match checked_sum(market.fees_accrued, w.totals.fees_to_market) {
        Some(x) => x,
        None => {
            return Err(MatchError::ArithmeticOverflow);
        },
    };
    let held = match checked_sum(market.referrer_rebates_accrued, share) {
        Some(x) => x,
        None => {
            return Err(MatchError::ArithmeticOverflow);
        },
    };
    let Walk { kept, events, totals, .. } = w;
    let mut events = events;
    match rest.evicted {
        Some(e) => {
            events.push(e);
        },
        None => {},
    }
    if events.len() > 0 && queue.capacity == 0 {
        return Err(MatchError::QueueFull);
    }
    proof {
        assert(fees_accrued >= 0) by {
            crate::matching_laws::lemma_walk_totals(
                opposite_now@,
                opposite_now@.len() as int,
                opposite.side,
                c,
                market.seq_num,
            );
        }
    }
    opposite.orders = kept;
    own.orders = own_next.orders;
    queue.push_all(&events);
    market.fees_accrued = fees_accrued;
    market.referrer_rebates_accrued = held;
    market.seq_num = rest.next_seq;
    *position = next_position;
    Ok(
        PlacementOutcome {
            base_lots_matched: totals.base_lots,
            quote_lots_matched: totals.quote_lots,
            quote_native_matched: totals.quote_native,
            taker_fees: totals.taker_fees,
            posted_lots: rest.posted_lots,
            inserted: rest.inserted,
            order_id: rest.order_id,
            deposit_native: deposit,
        },
    )
}

} // verus!
