use vstd::prelude::*;
use crate::book_side::{book_ok, lemma_resorted, resorted, total_quantity};
use crate::event_queue::Event;
use crate::lots::referrer_share_spec;
use crate::market::Market;
use crate::matching::{walk_spec, IncomingOrder, MatchContext};
use crate::matching_laws::{
    all_untradeable, fills_by_the_rules, fills_in_full, fills_in_priority, fills_within_limit,
    left_over, lemma_fills_in_full, lemma_fills_in_priority, lemma_fills_within_limit, lemma_no_self_fill,
    lemma_nothing_tradeable_left, lemma_remaining_bound, lemma_remaining_live, lemma_sums_prefix,
    lemma_totals_are_sums, lemma_walk_keeps_book, live_quantity, no_self_fills, sums, taker_sign,
};
use crate::order::Order;
use crate::placement::{place_spec, Placement};
use crate::types::MatchError;
use crate::position::Position;
use crate::types::{OrderType, Side};

verus! {

/// The order as it is matched, and what stays the same through its pass.
pub open spec fn pass_context(
    order: IncomingOrder,
    market: Market,
    oracle_price_lots: Option<i64>,
    now_ts: u64,
) -> MatchContext {
    MatchContext {
        market,
        taker: order.anchored(oracle_price_lots),
        now_ts,
        has_oracle: oracle_price_lots.is_some(),
    }
}

/// The opposite side as the pass walks it: re-anchored where there is an
/// oracle price.
pub open spec fn walked_book(
    order: IncomingOrder,
    opposite: Seq<Order>,
    oracle_price_lots: Option<i64>,
) -> Seq<Order> {
    match oracle_price_lots {
        Some(p) => resorted(order.side.inverted(), opposite, p),
        None => opposite,
    }
}

/// What holds of every placement that succeeds, whatever the book, the
/// order and the oracle price:
/// the fills are in price-time priority; no fill has the taker on both
/// sides; every fill moves what the market's rules give for its price and
/// quantity; the market's fees grow by exactly the taker fees less the
/// maker rebates of the fills, and never shrink; what the accounts may
/// claim for referrers grows by a fifth of the taker fees, rounded down;
/// the taker's quote position falls by exactly the taker fees; the
/// lots taken wait, signed, to be folded into the taker's position; the
/// position stays well-formed, so that no free balance is negative, and
/// no free balance has shrunk; what has to be paid in is all that the
/// placement costs, and no more than the funds it was given; and a
/// fill-or-kill order is only placed where the opposite side holds at
/// least as many lots as it asks for.
pub proof fn lemma_placement(
    order: IncomingOrder,
    opposite: Seq<Order>,
    own: Seq<Order>,
    own_capacity: usize,
    queue_capacity: usize,
    market: Market,
    position: Position,
    funds: i64,
    oracle_price_lots: Option<i64>,
    now_ts: u64,
)
    requires
        book_ok(order.side.inverted(), opposite),
        market.wf(),
        position.wf(),
    ensures
        place_spec(
            order,
            opposite,
            own,
            own_capacity,
            queue_capacity,
            market,
            position,
            funds,
            oracle_price_lots,
            now_ts,
        ) matches Ok(p) ==> {
            &&& fills_in_priority(order.side.inverted(), p.events)
            &&& no_self_fills(p.events, order.owner)
            &&& fills_by_the_rules(p.events, market)
            &&& p.market.fees_accrued == market.fees_accrued + sums(p.events).fees_at_match
            &&& p.market.referrer_rebates_accrued == market.referrer_rebates_accrued
                + referrer_share_spec(sums(p.events).taker_fees)
            &&& p.position.referrer_rebates_available == position.referrer_rebates_available
                + referrer_share_spec(sums(p.events).taker_fees)
            &&& p.market.fees_accrued >= market.fees_accrued
            &&& p.position.quote_position_native == position.quote_position_native - sums(
                p.events,
            ).taker_fees
            &&& p.position.base_position_lots == position.base_position_lots
            &&& p.position.taker_base_lots == position.taker_base_lots + taker_sign(
                order.side,
                sums(p.events).base_lots,
            )
            &&& p.outcome.base_lots_matched == sums(p.events).base_lots
            &&& p.outcome.taker_fees == sums(p.events).taker_fees
            &&& p.position.wf()
            &&& p.position.base_free_native >= position.base_free_native
            &&& p.position.quote_free_native >= position.quote_free_native
            &&& 0 <= p.outcome.deposit_native <= funds
            &&& order.order_type == OrderType::FillOrKill ==> total_quantity(
                opposite,
                opposite.len() as int,
            ) >= order.max_base_lots
        },
{
    let r = place_spec(
        order,
        opposite,
        own,
        own_capacity,
        queue_capacity,
        market,
        position,
        funds,
        oracle_price_lots,
        now_ts,
    );
    if let Ok(p) = r {
        let side = order.side.inverted();
        let taker = order.anchored(oracle_price_lots);
        let c = MatchContext { market, taker, now_ts, has_oracle: oracle_price_lots.is_some() };
        let book = match oracle_price_lots {
            Some(x) => resorted(side, opposite, x),
            None => opposite,
        };
        if let Some(x) = oracle_price_lots {
            lemma_resorted(side, opposite, opposite.len() as int, x);
        }
        let n = book.len() as int;
        let w = walk_spec(book, side, c, market.seq_num);
        lemma_walk_keeps_book(book, n, side, c, market.seq_num);
        lemma_fills_in_priority(book, n, side, c, market.seq_num);
        lemma_no_self_fill(book, n, side, c, market.seq_num);
        lemma_totals_are_sums(book, n, side, c, market.seq_num);
        lemma_remaining_bound(book, n, side, c, market.seq_num);

        crate::matching_laws::lemma_walk_totals(book, n, side, c, market.seq_num);
        if p.events != w.events {
            let e = p.events.last();
            assert(p.events == w.events.push(e));
            assert(e is Out);
            lemma_sums_prefix(p.events, w.events, w.events.len() as int);
            assert forall|a: int, b: int| 0 <= a < b < p.events.len() implies match (
                #[trigger] p.events[a],
                #[trigger] p.events[b],
            ) {
                (Event::Fill(x), Event::Fill(y)) => crate::matching_laws::fill_before(
                    side,
                    x.price_lots,
                    x.maker_order_id,
                    y.price_lots,
                    y.maker_order_id,
                ),
                _ => true,
            } by {
                if b < w.events.len() {
                    assert(p.events[a] == w.events[a]);
                    assert(p.events[b] == w.events[b]);
                }
            }
            assert forall|i: int| 0 <= i < p.events.len() implies match #[trigger] p.events[i] {
                Event::Fill(f) => f.taker == order.owner && f.maker != order.owner,
                Event::Out(_) => true,
            } by {
                if i < w.events.len() {
                    assert(p.events[i] == w.events[i]);
                }
            }

            assert forall|i: int| 0 <= i < p.events.len() implies match #[trigger] p.events[i] {
                Event::Fill(f) => market.fill_amounts_spec(f.price_lots as int, f.quantity as int)
                    matches Some(a) && a.quantity == f.quantity && a.quote_native
                    == f.quote_native && a.taker_fee == f.taker_fee && a.maker_fee == f.maker_fee,
                Event::Out(_) => true,
            } by {
                if i < w.events.len() {
                    assert(p.events[i] == w.events[i]);
                }
            }
        }
    }
}

/// The pass that a placement makes over the opposite side.
pub open spec fn placed_walk(
    order: IncomingOrder,
    opposite: Seq<Order>,
    market: Market,
    oracle_price_lots: Option<i64>,
    now_ts: u64,
) -> crate::matching::WalkView {
    walk_spec(
        walked_book(order, opposite, oracle_price_lots),
        order.side.inverted(),
        pass_context(order, market, oracle_price_lots, now_ts),
        market.seq_num,
    )
}

/// What a placement that succeeds has of its pass: the pass has not
/// failed; the opposite side is what the pass kept; the events are those of
/// the pass and, where an order was evicted for the one that rests, one
/// event more for it, which is no fill; an order that rests was left with
/// lots and not cancelled; and a fill-or-kill order was left with none.
pub proof fn lemma_placed_walk(
    order: IncomingOrder,
    opposite: Seq<Order>,
    own: Seq<Order>,
    own_capacity: usize,
    queue_capacity: usize,
    market: Market,
    position: Position,
    funds: i64,
    oracle_price_lots: Option<i64>,
    now_ts: u64,
)
    requires
        book_ok(order.side.inverted(), opposite),
    ensures
        place_spec(
            order,
            opposite,
            own,
            own_capacity,
            queue_capacity,
            market,
            position,
            funds,
            oracle_price_lots,
            now_ts,
        ) matches Ok(p) ==> {
            let w = placed_walk(order, opposite, market, oracle_price_lots, now_ts);
            &&& w.error.is_none()
            &&& p.opposite == w.kept
            &&& p.position.taker_base_lots == position.taker_base_lots + taker_sign(
                order.side,
                w.totals.base_lots as int,
            )
            &&& p.position.taker_quote_lots == position.taker_quote_lots - taker_sign(
                order.side,
                w.totals.quote_lots as int,
            )
            &&& p.position.base_position_lots == position.base_position_lots
            &&& p.position.quote_position_native == position.quote_position_native
                - w.totals.taker_fees
            &&& p.events == w.events || (p.events.len() == w.events.len() + 1 && p.events
                == w.events.push(p.events.last()) && p.events.last() is Out)
            &&& p.outcome.inserted ==> left_over(w)
            &&& order.order_type == OrderType::FillOrKill ==> w.remaining == 0
        },
{
    let r = place_spec(
        order,
        opposite,
        own,
        own_capacity,
        queue_capacity,
        market,
        position,
        funds,
        oracle_price_lots,
        now_ts,
    );
    if let Ok(p) = r {
        let side = order.side.inverted();
        let book = walked_book(order, opposite, oracle_price_lots);
        if let Some(x) = oracle_price_lots {
            lemma_resorted(side, opposite, opposite.len() as int, x);
        }
        let c = pass_context(order, market, oracle_price_lots, now_ts);
        lemma_walk_keeps_book(book, book.len() as int, side, c, market.seq_num);
        let w = placed_walk(order, opposite, market, oracle_price_lots, now_ts);
        if p.events != w.events {
            assert(p.events == w.events.push(p.events.last()));
        }
    }
}

/// `events` with one event more that is no fill has the fills of `events`.
pub proof fn lemma_one_more_out(events: Seq<Event>, more: Seq<Event>, side: Side, limit: i64)
    requires
        more.len() == events.len() + 1,
        more == events.push(more.last()),
        more.last() is Out,
    ensures
        fills_within_limit(side, events, limit) ==> fills_within_limit(side, more, limit),
        fills_in_full(events) ==> fills_in_full(more),
        sums(more) == sums(events),
{
    lemma_sums_prefix(more, events, events.len() as int);
    if fills_within_limit(side, events, limit) {
        assert forall|i: int| 0 <= i < more.len() implies match #[trigger] more[i] {
            Event::Fill(f) => crate::order::price_crosses(side, f.price_lots, limit),
            Event::Out(_) => true,
        } by {
            if i < events.len() {
                assert(more[i] == events[i]);
            }
        }
    }
    if fills_in_full(events) {
        assert forall|a: int, b: int| 0 <= a < b < more.len() implies match (
            #[trigger] more[a],
            #[trigger] more[b],
        ) {
            (Event::Fill(x), Event::Fill(_)) => x.maker_out,
            _ => true,
        } by {
            if b < events.len() {
                assert(more[a] == events[a]);
                assert(more[b] == events[b]);
            }
        }
    }
}

/// Price-time priority of every placement that succeeds, beside the order
/// of its fills: no fill is at a price beyond the order's limit; every
/// fill but the last has used its resting order up, so that an order is
/// touched only after all before it are used up; where what is left of
/// the order rests, nothing that it could have traded with is left on the
/// opposite side; and a fill-or-kill order is only placed where the
/// opposite side, as the pass walks it, holds at least as many lots as the
/// order asks for in live orders within its limit.
pub proof fn lemma_placement_priority(
    order: IncomingOrder,
    opposite: Seq<Order>,
    own: Seq<Order>,
    own_capacity: usize,
    queue_capacity: usize,
    market: Market,
    position: Position,
    funds: i64,
    oracle_price_lots: Option<i64>,
    now_ts: u64,
)
    requires
        book_ok(order.side.inverted(), opposite),
    ensures
        place_spec(
            order,
            opposite,
            own,
            own_capacity,
            queue_capacity,
            market,
            position,
            funds,
            oracle_price_lots,
            now_ts,
        ) matches Ok(p) ==> {
            &&& fills_within_limit(
                order.side.inverted(),
                p.events,
                order.anchored(oracle_price_lots).price_lots,
            )
            &&& fills_in_full(p.events)
            &&& p.outcome.inserted ==> all_untradeable(
                p.opposite,
                order.side.inverted(),
                pass_context(order, market, oracle_price_lots, now_ts),
            )
            &&& order.order_type == OrderType::FillOrKill ==> live_quantity(
                walked_book(order, opposite, oracle_price_lots),
                opposite.len() as int,
                order.side.inverted(),
                pass_context(order, market, oracle_price_lots, now_ts),
            ) >= order.max_base_lots
        },
{
    let r = place_spec(
        order,
        opposite,
        own,
        own_capacity,
        queue_capacity,
        market,
        position,
        funds,
        oracle_price_lots,
        now_ts,
    );
    if let Ok(p) = r {
        let side = order.side.inverted();
        let c = pass_context(order, market, oracle_price_lots, now_ts);
        let book = walked_book(order, opposite, oracle_price_lots);
        if let Some(x) = oracle_price_lots {
            lemma_resorted(side, opposite, opposite.len() as int, x);
        }
        let n = book.len() as int;
        let w = placed_walk(order, opposite, market, oracle_price_lots, now_ts);
        lemma_placed_walk(
            order,
            opposite,
            own,
            own_capacity,
            queue_capacity,
            market,
            position,
            funds,
            oracle_price_lots,
            now_ts,
        );
        lemma_fills_within_limit(book, n, side, c, market.seq_num);
        lemma_fills_in_full(book, n, side, c, market.seq_num);
        lemma_nothing_tradeable_left(book, n, side, c, market.seq_num);
        lemma_remaining_live(book, n, side, c, market.seq_num);
        if p.events != w.events {
            lemma_one_more_out(w.events, p.events, side, c.taker.price_lots);
        }
    }
}

/// When the refusal of a fill-or-kill order is `WouldNotFullyFill`, and no
/// other. An order that is not refused before the book is looked at, and
/// whose pass does not fail, is refused with exactly that error where the
/// opposite side, as the pass walks it, holds fewer lots than the order
/// asks for in live orders within its limit; and also wherever the pass
/// leaves it with lots.
pub proof fn lemma_fill_or_kill(
    order: IncomingOrder,
    opposite: Seq<Order>,
    own: Seq<Order>,
    own_capacity: usize,
    queue_capacity: usize,
    market: Market,
    position: Position,
    funds: i64,
    oracle_price_lots: Option<i64>,
    now_ts: u64,
)
    requires
        book_ok(order.side.inverted(), opposite),
        order.order_type == OrderType::FillOrKill,
        order.refusal(oracle_price_lots).is_none(),
        placed_walk(order, opposite, market, oracle_price_lots, now_ts).error.is_none(),
    ensures
        placed_walk(order, opposite, market, oracle_price_lots, now_ts).remaining > 0
            ==> place_spec(
            order,
            opposite,
            own,
            own_capacity,
            queue_capacity,
            market,
            position,
            funds,
            oracle_price_lots,
            now_ts,
        ) == Err::<Placement, MatchError>(MatchError::WouldNotFullyFill),
        live_quantity(
            walked_book(order, opposite, oracle_price_lots),
            opposite.len() as int,
            order.side.inverted(),
            pass_context(order, market, oracle_price_lots, now_ts),
        ) < order.max_base_lots ==> place_spec(
            order,
            opposite,
            own,
            own_capacity,
            queue_capacity,
            market,
            position,
            funds,
            oracle_price_lots,
            now_ts,
        ) == Err::<Placement, MatchError>(MatchError::WouldNotFullyFill),
{
    let side = order.side.inverted();
    let c = pass_context(order, market, oracle_price_lots, now_ts);
    let book = walked_book(order, opposite, oracle_price_lots);
    if let Some(x) = oracle_price_lots {
        lemma_resorted(side, opposite, opposite.len() as int, x);
    }
    lemma_remaining_live(book, book.len() as int, side, c, market.seq_num);
}

/// A placement without a fill charges nothing and moves no position: the
/// market's fees, what the accounts may claim for referrers, the taker's
/// base and quote positions, the lots that wait to be folded and the
/// taker's share for a referrer are as they were. So it is where the
/// incoming order meets only orders of its own account, whatever it chose
/// for that case.
pub proof fn lemma_no_fill_no_fee(
    order: IncomingOrder,
    opposite: Seq<Order>,
    own: Seq<Order>,
    own_capacity: usize,
    queue_capacity: usize,
    market: Market,
    position: Position,
    funds: i64,
    oracle_price_lots: Option<i64>,
    now_ts: u64,
)
    requires
        book_ok(order.side.inverted(), opposite),
        market.wf(),
        position.wf(),
    ensures
        place_spec(
            order,
            opposite,
            own,
            own_capacity,
            queue_capacity,
            market,
            position,
            funds,
            oracle_price_lots,
            now_ts,
        ) matches Ok(p) ==> (crate::matching_laws::no_fills(p.events) ==> {
            &&& p.market.fees_accrued == market.fees_accrued
            &&& p.market.referrer_rebates_accrued == market.referrer_rebates_accrued
            &&& p.position.base_position_lots == position.base_position_lots
            &&& p.position.quote_position_native == position.quote_position_native
            &&& p.position.taker_base_lots == position.taker_base_lots
            &&& p.position.taker_quote_lots == position.taker_quote_lots
            &&& p.position.referrer_rebates_available == position.referrer_rebates_available
            &&& p.outcome.base_lots_matched == 0
            &&& p.outcome.taker_fees == 0
        }),
        (forall|i: int| 0 <= i < opposite.len() ==> (#[trigger] opposite[i]).owner == order.owner)
            ==> (place_spec(
            order,
            opposite,
            own,
            own_capacity,
            queue_capacity,
            market,
            position,
            funds,
            oracle_price_lots,
            now_ts,
        ) matches Ok(p) ==> crate::matching_laws::no_fills(p.events)),
{
    let r = place_spec(
        order,
        opposite,
        own,
        own_capacity,
        queue_capacity,
        market,
        position,
        funds,
        oracle_price_lots,
        now_ts,
    );
    if let Ok(p) = r {
        lemma_placement(
            order,
            opposite,
            own,
            own_capacity,
            queue_capacity,
            market,
            position,
            funds,
            oracle_price_lots,
            now_ts,
        );
        lemma_placement_taker(
            order,
            opposite,
            own,
            own_capacity,
            queue_capacity,
            market,
            position,
            funds,
            oracle_price_lots,
            now_ts,
        );
        if crate::matching_laws::no_fills(p.events) {
            crate::matching_laws::lemma_sums_no_fills(p.events, p.events.len() as int);
        }
        // a fill with the taker on both sides there is none: where every
        // order is the taker's own, there is no fill at all
        assert(no_self_fills(p.events, order.owner));
        if forall|i: int| 0 <= i < opposite.len() ==> (#[trigger] opposite[i]).owner == order.owner {
            let side = order.side.inverted();
            let c = pass_context(order, market, oracle_price_lots, now_ts);
            let book = walked_book(order, opposite, oracle_price_lots);
            if let Some(x) = oracle_price_lots {
                lemma_resorted(side, opposite, opposite.len() as int, x);
                crate::book_side::lemma_resorted_owners(
                    side,
                    opposite,
                    opposite.len() as int,
                    x,
                    order.owner,
                );
            }
            crate::matching_laws::lemma_own_book_no_fills(
                book,
                book.len() as int,
                side,
                c,
                market.seq_num,
            );
            lemma_placed_walk(
                order,
                opposite,
                own,
                own_capacity,
                queue_capacity,
                market,
                position,
                funds,
                oracle_price_lots,
                now_ts,
            );
            let w = placed_walk(order, opposite, market, oracle_price_lots, now_ts);
            if p.events != w.events {
                assert forall|i: int| 0 <= i < p.events.len() implies (#[trigger] p.events[i])
                    is Out by {
                    if i < w.events.len() {
                        assert(p.events[i] == w.events[i]);
                    }
                }
            }
        }
    }
}

/// No placement spends more quote than its order allows: the quote lots
/// traded, and the quote lots that what rests would trade for at the
/// order's price, are together at most the quote lots of the order.
pub proof fn lemma_placement_quote(
    order: IncomingOrder,
    opposite: Seq<Order>,
    own: Seq<Order>,
    own_capacity: usize,
    queue_capacity: usize,
    market: Market,
    position: Position,
    funds: i64,
    oracle_price_lots: Option<i64>,
    now_ts: u64,
)
    requires
        book_ok(order.side.inverted(), opposite),
        market.wf(),
    ensures
        place_spec(
            order,
            opposite,
            own,
            own_capacity,
            queue_capacity,
            market,
            position,
            funds,
            oracle_price_lots,
            now_ts,
        ) matches Ok(p) ==> 0 <= p.outcome.quote_lots_matched && p.outcome.quote_lots_matched
            + p.outcome.posted_lots * order.anchored(oracle_price_lots).price_lots
            <= order.max_quote_lots_including_fees,
{
    let r = place_spec(
        order,
        opposite,
        own,
        own_capacity,
        queue_capacity,
        market,
        position,
        funds,
        oracle_price_lots,
        now_ts,
    );
    if let Ok(p) = r {
        let side = order.side.inverted();
        let c = pass_context(order, market, oracle_price_lots, now_ts);
        let book = walked_book(order, opposite, oracle_price_lots);
        if let Some(x) = oracle_price_lots {
            lemma_resorted(side, opposite, opposite.len() as int, x);
        }
        let n = book.len() as int;
        let w = placed_walk(order, opposite, market, oracle_price_lots, now_ts);
        lemma_walk_keeps_book(book, n, side, c, market.seq_num);
        crate::matching_laws::lemma_quote_spent(book, n, side, c, market.seq_num);
        let price = c.taker.price_lots as int;
        let left = w.quote_left as int;
        let lots = p.outcome.posted_lots as int;
        assert(w.error.is_none());
        assert(p.outcome.quote_lots_matched == w.totals.quote_lots);
        assert(left >= 0);
        assert(w.totals.quote_lots + left == order.max_quote_lots_including_fees);
        if lots > 0 {
            assert(lots == c.taker.resting_lots(w.remaining, w.quote_left));
            assert(lots * price <= left) by (nonlinear_arith)
                requires
                    1 <= lots <= left / price,
                    1 <= price <= left,
            ;
        } else {
            assert(lots == 0);
            assert(lots * price == 0) by (nonlinear_arith)
                requires
                    lots == 0,
            ;
        }
        assert(p.outcome.posted_lots * c.taker.price_lots <= left);
    }
}

/// The taker's side of value conservation, for every placement that
/// succeeds: the lots taken wait in the position, signed; and once they
/// are folded into a position that had none waiting, the taker's base and
/// quote positions have moved by exactly the sums of the taker's deltas
/// over the fills. The makers' side is `lemma_match_conserves`.
pub proof fn lemma_placement_taker(
    order: IncomingOrder,
    opposite: Seq<Order>,
    own: Seq<Order>,
    own_capacity: usize,
    queue_capacity: usize,
    market: Market,
    position: Position,
    funds: i64,
    oracle_price_lots: Option<i64>,
    now_ts: u64,
)
    requires
        book_ok(order.side.inverted(), opposite),
        market.wf(),
        position.wf(),
    ensures
        place_spec(
            order,
            opposite,
            own,
            own_capacity,
            queue_capacity,
            market,
            position,
            funds,
            oracle_price_lots,
            now_ts,
        ) matches Ok(p) ==> {
            let total = sums(p.events);
            &&& p.position.taker_base_lots == position.taker_base_lots + taker_sign(
                order.side,
                total.base_lots,
            )
            &&& p.position.taker_quote_lots == position.taker_quote_lots - taker_sign(
                order.side,
                total.quote_lots,
            )
            &&& total.taker_base_delta == taker_sign(order.side, total.base_lots)
            &&& total.taker_quote_delta == -taker_sign(order.side, total.quote_native)
                - total.taker_fees
            &&& position.taker_base_lots == 0 && position.taker_quote_lots == 0
                ==> (p.position.taker_settled_spec(market.quote_lot_size) matches Some(folded)
                ==> folded.base_position_lots == position.base_position_lots
                + total.taker_base_delta && folded.quote_position_native
                == position.quote_position_native + total.taker_quote_delta)
        },
{
    let r = place_spec(
        order,
        opposite,
        own,
        own_capacity,
        queue_capacity,
        market,
        position,
        funds,
        oracle_price_lots,
        now_ts,
    );
    if let Ok(p) = r {
        let side = order.side.inverted();
        let c = pass_context(order, market, oracle_price_lots, now_ts);
        let book = walked_book(order, opposite, oracle_price_lots);
        if let Some(x) = oracle_price_lots {
            lemma_resorted(side, opposite, opposite.len() as int, x);
        }
        let n = book.len() as int;
        let w = placed_walk(order, opposite, market, oracle_price_lots, now_ts);
        lemma_placed_walk(
            order,
            opposite,
            own,
            own_capacity,
            queue_capacity,
            market,
            position,
            funds,
            oracle_price_lots,
            now_ts,
        );
        lemma_totals_are_sums(book, n, side, c, market.seq_num);
        crate::matching_laws::lemma_taker_sums(book, n, side, c, market.seq_num);
        if p.events != w.events {
            lemma_one_more_out(w.events, p.events, side, c.taker.price_lots);
        }
        let total = sums(w.events);
        let qls = market.quote_lot_size as int;
        assert(taker_sign(order.side, total.quote_lots) * qls == taker_sign(
            order.side,
            total.quote_native,
        )) by (nonlinear_arith)
            requires
                total.quote_native == total.quote_lots * qls,
        ;
        if position.taker_base_lots == 0 && position.taker_quote_lots == 0 {
            let waiting = p.position.taker_quote_lots as int;
            assert(waiting * qls == -taker_sign(order.side, total.quote_native))
                by (nonlinear_arith)
                requires
                    waiting == -taker_sign(order.side, total.quote_lots),
                    taker_sign(order.side, total.quote_lots) * qls == taker_sign(
                        order.side,
                        total.quote_native,
                    ),
            ;
        }
    }
}

/// What a placement asks to be paid in is never negative and never more
/// than the funds it was given.
pub proof fn lemma_deposit(
    order: IncomingOrder,
    opposite: Seq<Order>,
    own: Seq<Order>,
    own_capacity: usize,
    queue_capacity: usize,
    market: Market,
    position: Position,
    funds: i64,
    oracle_price_lots: Option<i64>,
    now_ts: u64,
)
    requires
        position.wf(),
    ensures
        place_spec(
            order,
            opposite,
            own,
            own_capacity,
            queue_capacity,
            market,
            position,
            funds,
            oracle_price_lots,
            now_ts,
        ) matches Ok(p) ==> 0 <= p.outcome.deposit_native <= funds,
{
}

} // verus!
