use vstd::prelude::*;
use crate::address::AccountRef;
use crate::book_side::{book_ok, kept_before_rest, seqs_under, total_quantity};
use crate::event_queue::Event;
use crate::matching::{lemma_step_ok, walk_upto, MatchContext, WalkView};
use crate::order::{better, price_better, price_crosses, Order};
use crate::types::Side;

verus! {

/// What the pass keeps is a well-formed book again: the orders it leaves
/// are in the order they were in, none twice, each with at least one lot.
pub proof fn lemma_walk_keeps_book(
    book: Seq<Order>,
    n: int,
    side: Side,
    c: MatchContext,
    first_seq: u64,
)
    requires
        book_ok(side, book),
        0 <= n <= book.len(),
        c.taker.max_base_lots >= 1,
    ensures
        walk_upto(book, n, side, c, first_seq).ok(),
        book_ok(side, walk_upto(book, n, side, c, first_seq).kept),
        walk_upto(book, n, side, c, first_seq).kept.len() <= n,
        walk_upto(book, n, side, c, first_seq).next_seq >= first_seq,
        kept_before_rest(side, walk_upto(book, n, side, c, first_seq).kept, book, n),
        forall|bound: u64|
            seqs_under(book, bound) ==> seqs_under(
                walk_upto(book, n, side, c, first_seq).kept,
                bound,
            ),
    decreases n,
{
    if n > 0 {
        lemma_walk_keeps_book(book, n - 1, side, c, first_seq);
        let w0 = walk_upto(book, n - 1, side, c, first_seq);
        let o = book[n - 1];
        let w1 = w0.step(o, side, c);
        lemma_step_ok(w0, o, side, c);
        assert(o.valid());
        if w1.kept != w0.kept {
            // the step kept the order, whole or in part
            let kept_o = w1.kept.last();
            assert(w1.kept == w0.kept.push(kept_o));
            assert(kept_o.price_lots == o.price_lots && kept_o.seq_num == o.seq_num);
            assert(kept_o.valid());
            assert forall|i: int, j: int| 0 <= i < j < w1.kept.len() implies #[trigger] better(
                side,
                w1.kept[i],
                w1.kept[j],
            ) by {
                if j < w0.kept.len() {
                    assert(better(side, w0.kept[i], w0.kept[j]));
                } else {
                    assert(better(side, w0.kept[i], book[n - 1]));
                }
            }
            assert forall|i: int, j: int| 0 <= i < j < w1.kept.len() implies (
            #[trigger] w1.kept[i]).seq_num != (#[trigger] w1.kept[j]).seq_num by {
                if j < w0.kept.len() {
                    assert(w0.kept[i].seq_num != w0.kept[j].seq_num);
                } else {
                    assert(better(side, w0.kept[i], book[n - 1]));
                }
            }
            assert forall|i: int| 0 <= i < w1.kept.len() implies (#[trigger] w1.kept[i]).valid() by {
                if i < w0.kept.len() {
                    assert(w0.kept[i].valid());
                }
            }
            assert forall|k: int, j: int|
                0 <= k < w1.kept.len() && n <= j < book.len() implies better(
                side,
                #[trigger] w1.kept[k],
                #[trigger] book[j],
            ) && w1.kept[k].seq_num != book[j].seq_num by {
                if k < w0.kept.len() {
                    assert(better(side, w0.kept[k], book[j]));
                } else {
                    assert(better(side, book[n - 1], book[j]));
                    assert(book[n - 1].seq_num != book[j].seq_num);
                }
            }
            assert forall|bound: u64| seqs_under(book, bound) implies seqs_under(
                w1.kept,
                bound,
            ) by {
                assert(book[n - 1].seq_num < bound);
                assert forall|i: int| 0 <= i < w1.kept.len() implies (#[trigger] w1.kept[i]).seq_num
                    < bound by {
                    if i < w0.kept.len() {
                        assert(w0.kept[i].seq_num < bound);
                    }
                }
            }
        } else {
            assert forall|k: int, j: int|
                0 <= k < w1.kept.len() && n <= j < book.len() implies better(
                side,
                #[trigger] w1.kept[k],
                #[trigger] book[j],
            ) && w1.kept[k].seq_num != book[j].seq_num by {
                assert(better(side, w0.kept[k], book[j]));
            }
        }
    }
}

/// What a step does to the totals: nothing, where it makes no fill; and
/// where it makes one, it adds the amounts that the market's rules give
/// for the resting order's price and the lots of the fill, which are the
/// amounts of the fill event.
pub proof fn lemma_step_totals(w: WalkView, o: Order, side: Side, c: MatchContext)
    requires
        w.ok(),
        o.valid(),
    ensures
        ({
            let v = w.step(o, side, c);
            if v.events.len() == w.events.len() + 1 && v.events.last() is Fill {
                &&& c.market.fill_amounts_spec(o.price_lots as int, w.fill_lots(o) as int)
                    matches Some(f) && crate::matching::totals_add_spec(w.totals, f) == Some(
                    v.totals,
                ) && (v.events.last() matches Event::Fill(e) && e.price_lots == o.price_lots
                    && e.quantity == w.fill_lots(o) && e.quantity == f.quantity && e.quote_native
                    == f.quote_native && e.taker_fee == f.taker_fee && e.maker_fee == f.maker_fee)
            } else {
                v.totals == w.totals
            }
        }),
{
}

/// The fees of a pass are never negative: what it adds to the market's fees
/// is the taker's fees less the makers' rebates, and no rebate is more
/// than the fee it is paid from.
pub proof fn lemma_walk_totals(book: Seq<Order>, n: int, side: Side, c: MatchContext, first_seq: u64)
    requires
        book_ok(side, book),
        0 <= n <= book.len(),
        c.market.wf(),
        c.taker.max_base_lots >= 1,
    ensures
        ({
            let t = walk_upto(book, n, side, c, first_seq).totals;
            &&& t.base_lots >= 0
            &&& t.quote_lots >= 0
            &&& t.base_native >= 0
            &&& t.quote_native >= 0
            &&& 0 <= t.fees_to_market <= t.taker_fees <= t.quote_native
        }),
    decreases n,
{
    if n > 0 {
        lemma_walk_totals(book, n - 1, side, c, first_seq);
        lemma_walk_keeps_book(book, n - 1, side, c, first_seq);
        let w0 = walk_upto(book, n - 1, side, c, first_seq);
        let o = book[n - 1];
        assert(o.valid());
        lemma_step_totals(w0, o, side, c);
        c.market.lemma_fill_amounts(o.price_lots as int, w0.fill_lots(o) as int);
    }
}

/// No fill is a trade of the taker with itself.
pub open spec fn no_self_fills(events: Seq<Event>, taker: AccountRef) -> bool {
    forall|i: int|
        0 <= i < events.len() ==> match #[trigger] events[i] {
            Event::Fill(f) => f.taker == taker && f.maker != taker,
            Event::Out(_) => true,
        }
}

/// True where a fill at `price` against the order `order_id` goes before a
/// fill, or an order, at `other_price` with the number `other_id`: its price
/// is better, or the prices are equal and its order came first.
pub open spec fn fill_before(side: Side, price: i64, order_id: u64, other_price: i64, other_id: u64) -> bool {
    price_better(side, price, other_price) || (price == other_price && order_id < other_id)
}

/// The fills are in price-time priority: of two fills, the earlier is at
/// the better price, or at the same price against the order that came
/// first.
pub open spec fn fills_in_priority(side: Side, events: Seq<Event>) -> bool {
    forall|a: int, b: int|
        0 <= a < b < events.len() ==> match (#[trigger] events[a], #[trigger] events[b]) {
            (Event::Fill(x), Event::Fill(y)) => fill_before(
                side,
                x.price_lots,
                x.maker_order_id,
                y.price_lots,
                y.maker_order_id,
            ),
            _ => true,
        }
}

/// Every fill goes before every order of `book` from `n` on.
pub open spec fn fills_before_rest(side: Side, events: Seq<Event>, book: Seq<Order>, n: int) -> bool {
    forall|a: int, j: int|
        0 <= a < events.len() && n <= j < book.len() ==> match #[trigger] events[a] {
            Event::Fill(x) => fill_before(
                side,
                x.price_lots,
                x.maker_order_id,
                (#[trigger] book[j]).price_lots,
                book[j].seq_num,
            ),
            Event::Out(_) => true,
        }
}

/// What a step adds to the events: nothing, or one event; and where that
/// is a fill, it is a trade at the price of the order looked at, against
/// that order, between its owner and the taker, who are not the same, of
/// as many lots as both have and the quote buys: unless the incoming order
/// ran out of quote, the lots that it still looked for, or all of the
/// resting order, whichever is less. A fill that does not use the resting
/// order up ends the pass.
pub proof fn lemma_step_events(w: WalkView, o: Order, side: Side, c: MatchContext)
    requires
        w.ok(),
        o.valid(),
    ensures
        ({
            let v = w.step(o, side, c);
            ||| v.events == w.events
            ||| {
                &&& v.events.len() == w.events.len() + 1
                &&& v.events == w.events.push(v.events.last())
                &&& match v.events.last() {
                    Event::Fill(f) => {
                        &&& f.maker == o.owner
                        &&& f.taker == c.taker.owner
                        &&& f.maker != f.taker
                        &&& f.price_lots == o.price_lots
                        &&& f.maker_order_id == o.seq_num
                        &&& f.taker_side == c.taker.side
                        &&& !o.is_expired(c.now_ts)
                        &&& price_crosses(side, o.price_lots, c.taker.price_lots)
                        &&& !w.stopped
                        &&& f.quantity <= crate::matching::min_lots(w.remaining, o.quantity)
                        &&& !v.cancelled ==> f.quantity == crate::matching::min_lots(
                            w.remaining,
                            o.quantity,
                        )
                        &&& f.quantity >= 1
                        &&& f.price_lots * f.quantity <= w.quote_left
                        &&& v.quote_left == w.quote_left - f.price_lots * f.quantity
                        &&& v.remaining == w.remaining - f.quantity
                        &&& f.maker_out == (f.quantity == o.quantity)
                        &&& !f.maker_out ==> v.stopped
                        &&& !f.maker_out && !v.cancelled ==> v.remaining == 0
                    },
                    Event::Out(_) => true,
                }
            }
        }),
{
    let v = w.step(o, side, c);
    if v.events != w.events {
        assert(v.events.len() == w.events.len() + 1);
        assert(v.events =~= w.events.push(v.events.last()));
        if v.events.last() is Fill {
            lemma_fill_lots(w, o);
        }
    }
}

/// The lots of a fill are at least one, at most what both orders have, and
/// cost no more quote than is left.
pub proof fn lemma_fill_lots(w: WalkView, o: Order)
    requires
        w.ok(),
        !w.stopped,
        w.error.is_none(),
        o.valid(),
        w.quote_left >= o.price_lots,
    ensures
        1 <= w.fill_lots(o) <= crate::matching::min_lots(w.remaining, o.quantity),
        o.price_lots * w.fill_lots(o) <= w.quote_left,
{
    let left = w.quote_left as int;
    let price = o.price_lots as int;
    let by_quote = left / price;
    assert(1 <= by_quote <= left && by_quote * price <= left) by (nonlinear_arith)
        requires
            1 <= price <= left,
            by_quote == left / price,
    ;
    let q = w.fill_lots(o) as int;
    assert(price * q <= left) by (nonlinear_arith)
        requires
            1 <= q <= by_quote,
            by_quote * price <= left,
            price >= 1,
    ;
}

/// A pass that has stopped or failed stays so and adds no event.
pub proof fn lemma_step_after_stop(w: WalkView, o: Order, side: Side, c: MatchContext)
    requires
        w.stopped || w.error.is_some(),
    ensures
        w.step(o, side, c).events == w.events,
        w.step(o, side, c).stopped || w.step(o, side, c).error.is_some(),
        w.step(o, side, c).remaining == w.remaining,
        w.step(o, side, c).cancelled == w.cancelled,
{
}

/// Every fill but the last has used its resting order up.
pub open spec fn fills_in_full(events: Seq<Event>) -> bool {
    forall|a: int, b: int|
        0 <= a < b < events.len() ==> match (#[trigger] events[a], #[trigger] events[b]) {
            (Event::Fill(x), Event::Fill(_)) => x.maker_out,
            _ => true,
        }
}

/// Every fill has used its resting order up.
pub open spec fn all_fills_out(events: Seq<Event>) -> bool {
    forall|a: int|
        0 <= a < events.len() ==> match #[trigger] events[a] {
            Event::Fill(x) => x.maker_out,
            Event::Out(_) => true,
        }
}

/// A resting order is touched only after all before it are used up: of the
/// fills of a pass, every one but the last has taken all of its resting
/// order, and a fill that has not is the end of the pass.
pub proof fn lemma_fills_in_full(book: Seq<Order>, n: int, side: Side, c: MatchContext, first_seq: u64)
    requires
        book_ok(side, book),
        0 <= n <= book.len(),
        c.taker.max_base_lots >= 1,
    ensures
        fills_in_full(walk_upto(book, n, side, c, first_seq).events),
        ({
            let w = walk_upto(book, n, side, c, first_seq);
            !w.stopped && w.error.is_none() ==> all_fills_out(w.events)
        }),
    decreases n,
{
    if n > 0 {
        lemma_fills_in_full(book, n - 1, side, c, first_seq);
        lemma_walk_keeps_book(book, n - 1, side, c, first_seq);
        let w0 = walk_upto(book, n - 1, side, c, first_seq);
        let o = book[n - 1];
        assert(o.valid());
        lemma_step_events(w0, o, side, c);
        let w1 = w0.step(o, side, c);
        if w0.stopped || w0.error.is_some() {
            lemma_step_after_stop(w0, o, side, c);
        } else {
            assert forall|a: int, b: int| 0 <= a < b < w1.events.len() implies match (
                #[trigger] w1.events[a],
                #[trigger] w1.events[b],
            ) {
                (Event::Fill(x), Event::Fill(_)) => x.maker_out,
                _ => true,
            } by {
                assert(w1.events[a] == w0.events[a]);
            }
            if !w1.stopped && w1.error.is_none() {
                assert forall|a: int| 0 <= a < w1.events.len() implies match #[trigger] w1.events[a] {
                    Event::Fill(x) => x.maker_out,
                    Event::Out(_) => true,
                } by {
                    if a < w0.events.len() {
                        assert(w1.events[a] == w0.events[a]);
                    }
                }
            }
        }
    }
}

/// The incoming order trades with `o` where it comes to it: the order is
/// live, within the limit, not the taker's own, and not pegged in a pass
/// without an oracle price.
pub open spec fn trades_with(o: Order, side: Side, c: MatchContext) -> bool {
    &&& !o.is_expired(c.now_ts)
    &&& !untradeable(o, side, c)
    &&& o.owner != c.taker.owner
}

/// The quantities of the first two fills. Where the two best orders of
/// the opposite side are ones that the incoming order trades with, and it
/// does not run out of quote, the
/// first is filled with as many lots as the incoming order asks for, or
/// with all it has, whichever is less; the second is touched only where
/// the first is used up, and is filled with what the incoming order then
/// still asks for, or with all it has, whichever is less. So it is for two
/// orders at one price, where the first is the one that came first, and
/// for two orders at different prices, where the first is the one better
/// priced, whatever its sequence number.
pub proof fn lemma_first_two_fills(book: Seq<Order>, side: Side, c: MatchContext, first_seq: u64)
    requires
        book_ok(side, book),
        book.len() >= 2,
        c.taker.max_base_lots >= 1,
        trades_with(book[0], side, c),
        trades_with(book[1], side, c),
        walk_upto(book, 2, side, c, first_seq).error.is_none(),
        !walk_upto(book, 2, side, c, first_seq).cancelled,
    ensures
        ({
            let w = walk_upto(book, 2, side, c, first_seq);
            let asked = c.taker.max_base_lots;
            let first = crate::matching::min_lots(asked, book[0].quantity);
            &&& w.events.len() >= 1
            &&& w.events[0] matches Event::Fill(f) && f.maker_order_id == book[0].seq_num
                && f.price_lots == book[0].price_lots && f.quantity == first
            &&& asked <= book[0].quantity ==> w.events.len() == 1 && w.remaining == 0
            &&& asked > book[0].quantity ==> w.events.len() == 2 && (w.events[1] matches Event::Fill(
                g,
            ) && g.maker_order_id == book[1].seq_num && g.price_lots == book[1].price_lots
                && g.quantity == crate::matching::min_lots(
                (asked - first) as i64,
                book[1].quantity,
            ) && w.remaining == asked - first - g.quantity)
        }),
{
    reveal_with_fuel(walk_upto, 3);
    let w0 = walk_upto(book, 0, side, c, first_seq);
    let w1 = walk_upto(book, 1, side, c, first_seq);
    let w2 = walk_upto(book, 2, side, c, first_seq);
    assert(book[0].valid());
    assert(book[1].valid());
    assert(w0 == WalkView::start(c, first_seq));
    assert(w1 == w0.step(book[0], side, c));
    assert(w2 == w1.step(book[1], side, c));
    assert(w1.error.is_none());
    lemma_step_events(w0, book[0], side, c);
    lemma_step_ok(w0, book[0], side, c);
    lemma_step_events(w1, book[1], side, c);
    assert(w1.events.len() == 1);
    if w1.stopped {
        lemma_step_after_stop(w1, book[1], side, c);
    }
}

/// The quote of a pass is never overspent: in a pass that has not failed,
/// the quote lots traded and the quote lots left make up the quote lots
/// that the incoming order came with.
pub proof fn lemma_quote_spent(book: Seq<Order>, n: int, side: Side, c: MatchContext, first_seq: u64)
    requires
        book_ok(side, book),
        0 <= n <= book.len(),
        c.market.wf(),
        c.taker.max_base_lots >= 1,
    ensures
        ({
            let w = walk_upto(book, n, side, c, first_seq);
            &&& w.error.is_none() ==> w.totals.quote_lots + w.quote_left
                == c.taker.max_quote_lots_including_fees && w.totals.quote_lots >= 0
            &&& c.taker.max_quote_lots_including_fees >= 0 ==> w.quote_left >= 0
        }),
    decreases n,
{
    if n > 0 {
        lemma_quote_spent(book, n - 1, side, c, first_seq);
        lemma_walk_keeps_book(book, n - 1, side, c, first_seq);
        let w0 = walk_upto(book, n - 1, side, c, first_seq);
        let o = book[n - 1];
        assert(o.valid());
        lemma_step_events(w0, o, side, c);
        c.market.lemma_fill_amounts(o.price_lots as int, w0.fill_lots(o) as int);
    }
}

/// No event is a fill.
pub open spec fn no_fills(events: Seq<Event>) -> bool {
    forall|i: int| 0 <= i < events.len() ==> (#[trigger] events[i]) is Out
}

/// Events without a fill sum to nothing.
pub proof fn lemma_sums_no_fills(events: Seq<Event>, n: int)
    requires
        0 <= n <= events.len(),
        no_fills(events),
    ensures
        sums_upto(events, n) == (Sums {
            base_lots: 0,
            quote_lots: 0,
            quote_native: 0,
            taker_fees: 0,
            fees_at_match: 0,
            taker_base_delta: 0,
            taker_quote_delta: 0,
        }),
    decreases n,
{
    if n > 0 {
        lemma_sums_no_fills(events, n - 1);
        assert(events[n - 1] is Out);
    }
}

/// An order that meets only orders of its own account makes no fill.
pub proof fn lemma_own_book_no_fills(
    book: Seq<Order>,
    n: int,
    side: Side,
    c: MatchContext,
    first_seq: u64,
)
    requires
        book_ok(side, book),
        0 <= n <= book.len(),
        c.taker.max_base_lots >= 1,
        forall|i: int| 0 <= i < book.len() ==> (#[trigger] book[i]).owner == c.taker.owner,
    ensures
        no_fills(walk_upto(book, n, side, c, first_seq).events),
    decreases n,
{
    if n > 0 {
        lemma_own_book_no_fills(book, n - 1, side, c, first_seq);
        lemma_walk_keeps_book(book, n - 1, side, c, first_seq);
        let w0 = walk_upto(book, n - 1, side, c, first_seq);
        assert(book[n - 1].valid());
        lemma_step_events(w0, book[n - 1], side, c);
        let w1 = w0.step(book[n - 1], side, c);
        assert forall|i: int| 0 <= i < w1.events.len() implies (#[trigger] w1.events[i]) is Out by {
            if i < w0.events.len() {
                assert(w1.events[i] == w0.events[i]);
            }
        }
    }
}

/// No fill is at a price beyond `limit`.
pub open spec fn fills_within_limit(side: Side, events: Seq<Event>, limit: i64) -> bool {
    forall|i: int|
        0 <= i < events.len() ==> match #[trigger] events[i] {
            Event::Fill(f) => price_crosses(side, f.price_lots, limit),
            Event::Out(_) => true,
        }
}

/// No fill of a pass is at a price beyond the incoming order's limit.
pub proof fn lemma_fills_within_limit(
    book: Seq<Order>,
    n: int,
    side: Side,
    c: MatchContext,
    first_seq: u64,
)
    requires
        book_ok(side, book),
        0 <= n <= book.len(),
        c.taker.max_base_lots >= 1,
    ensures
        fills_within_limit(side, walk_upto(book, n, side, c, first_seq).events, c.taker.price_lots),
    decreases n,
{
    if n > 0 {
        lemma_fills_within_limit(book, n - 1, side, c, first_seq);
        lemma_walk_keeps_book(book, n - 1, side, c, first_seq);
        let w0 = walk_upto(book, n - 1, side, c, first_seq);
        assert(book[n - 1].valid());
        lemma_step_events(w0, book[n - 1], side, c);
        let w1 = w0.step(book[n - 1], side, c);
        assert forall|i: int| 0 <= i < w1.events.len() implies match #[trigger] w1.events[i] {
            Event::Fill(f) => price_crosses(side, f.price_lots, c.taker.price_lots),
            Event::Out(_) => true,
        } by {
            if i < w0.events.len() {
                assert(w1.events[i] == w0.events[i]);
            }
        }
    }
}

/// The incoming order cannot trade with `o`: its price is beyond the
/// limit, or it is pegged and the pass has no oracle price.
pub open spec fn untradeable(o: Order, side: Side, c: MatchContext) -> bool {
    (o.is_pegged && !c.has_oracle) || !price_crosses(side, o.price_lots, c.taker.price_lots)
}

/// The incoming order cannot trade with any of `orders`.
pub open spec fn all_untradeable(orders: Seq<Order>, side: Side, c: MatchContext) -> bool {
    forall|k: int| 0 <= k < orders.len() ==> untradeable(#[trigger] orders[k], side, c)
}

/// Every order of `book` from `n` on is beyond the limit.
pub open spec fn rest_beyond_limit(book: Seq<Order>, n: int, side: Side, c: MatchContext) -> bool {
    forall|j: int|
        n <= j < book.len() ==> !price_crosses(
            side,
            (#[trigger] book[j]).price_lots,
            c.taker.price_lots,
        )
}

/// The pass has not failed, the incoming order was not cancelled, and it
/// is left with lots to look for.
pub open spec fn left_over(w: WalkView) -> bool {
    w.error.is_none() && !w.cancelled && w.remaining > 0
}

/// Nothing better priced is left behind: where the incoming order is left
/// with lots and was not cancelled, it could not have traded with any
/// order that the pass has kept; and where the pass has stopped all the
/// same, every order that it has not yet looked at is beyond the limit.
pub proof fn lemma_nothing_tradeable_left(
    book: Seq<Order>,
    n: int,
    side: Side,
    c: MatchContext,
    first_seq: u64,
)
    requires
        book_ok(side, book),
        0 <= n <= book.len(),
        c.taker.max_base_lots >= 1,
    ensures
        ({
            let w = walk_upto(book, n, side, c, first_seq);
            left_over(w) ==> all_untradeable(w.kept, side, c) && (w.stopped ==> rest_beyond_limit(
                book,
                n,
                side,
                c,
            ))
        }),
    decreases n,
{
    if n > 0 {
        lemma_nothing_tradeable_left(book, n - 1, side, c, first_seq);
        lemma_walk_keeps_book(book, n - 1, side, c, first_seq);
        let w0 = walk_upto(book, n - 1, side, c, first_seq);
        let o = book[n - 1];
        assert(o.valid());
        let w1 = w0.step(o, side, c);
        if left_over(w1) {
            assert(left_over(w0));
            if w0.stopped {
                assert(!price_crosses(side, book[n - 1].price_lots, c.taker.price_lots));
            }
            assert forall|k: int| 0 <= k < w1.kept.len() implies untradeable(
                #[trigger] w1.kept[k],
                side,
                c,
            ) by {
                if k < w0.kept.len() {
                    assert(w1.kept[k] == w0.kept[k]);
                } else {
                    assert(w1.kept[k] == o);
                }
            }
            if w1.stopped {
                assert forall|j: int| n <= j < book.len() implies !price_crosses(
                    side,
                    (#[trigger] book[j]).price_lots,
                    c.taker.price_lots,
                ) by {
                    if w0.stopped {
                        assert(rest_beyond_limit(book, n - 1, side, c));
                    } else {
                        assert(better(side, book[n - 1], book[j]));
                    }
                }
            }
        }
    }
}

/// Total quantity of those of the first `n` orders of `book` that the
/// incoming order can trade with: live, within the limit, and not pegged
/// in a pass without an oracle price.
pub open spec fn live_quantity(book: Seq<Order>, n: int, side: Side, c: MatchContext) -> int
    decreases n,
{
    if n <= 0 {
        0
    } else {
        live_quantity(book, n - 1, side, c) + (if !book[n - 1].is_expired(c.now_ts)
            && !untradeable(book[n - 1], side, c) {
            book[n - 1].quantity as int
        } else {
            0
        })
    }
}

/// An order cannot take more than is there for it: what the incoming
/// order still looks for is at least what it came for less the quantity
/// of the orders, among those looked at, that it could trade with.
pub proof fn lemma_remaining_live(
    book: Seq<Order>,
    n: int,
    side: Side,
    c: MatchContext,
    first_seq: u64,
)
    requires
        book_ok(side, book),
        0 <= n <= book.len(),
        c.taker.max_base_lots >= 1,
    ensures
        ({
            let w = walk_upto(book, n, side, c, first_seq);
            w.error.is_none() ==> w.remaining >= c.taker.max_base_lots - live_quantity(
                book,
                n,
                side,
                c,
            )
        }),
        live_quantity(book, n, side, c) >= 0,
    decreases n,
{
    if n > 0 {
        lemma_remaining_live(book, n - 1, side, c, first_seq);
        lemma_walk_keeps_book(book, n - 1, side, c, first_seq);
        assert(book[n - 1].valid());
    }
}

/// Self-trade safety: whatever the taker chose for the case, no pass
/// produces a fill whose maker and taker are the same account.
pub proof fn lemma_no_self_fill(book: Seq<Order>, n: int, side: Side, c: MatchContext, first_seq: u64)
    requires
        book_ok(side, book),
        0 <= n <= book.len(),
        c.taker.max_base_lots >= 1,
    ensures
        no_self_fills(walk_upto(book, n, side, c, first_seq).events, c.taker.owner),
    decreases n,
{
    if n > 0 {
        lemma_no_self_fill(book, n - 1, side, c, first_seq);
        lemma_walk_keeps_book(book, n - 1, side, c, first_seq);
        let w0 = walk_upto(book, n - 1, side, c, first_seq);
        assert(book[n - 1].valid());
        lemma_step_events(w0, book[n - 1], side, c);
        let w1 = w0.step(book[n - 1], side, c);
        assert forall|i: int| 0 <= i < w1.events.len() implies match #[trigger] w1.events[i] {
            Event::Fill(f) => f.taker == c.taker.owner && f.maker != c.taker.owner,
            Event::Out(_) => true,
        } by {
            if i < w0.events.len() {
                assert(w1.events[i] == w0.events[i]);
            }
        }
    }
}

/// Price-time priority: the fills of a pass come in the order of the book.
/// Of two fills, the earlier is at the better price, or at the same price
/// against the order with the lower sequence number; and every fill goes
/// before every order that the pass has not yet looked at.
pub proof fn lemma_fills_in_priority(
    book: Seq<Order>,
    n: int,
    side: Side,
    c: MatchContext,
    first_seq: u64,
)
    requires
        book_ok(side, book),
        0 <= n <= book.len(),
        c.taker.max_base_lots >= 1,
    ensures
        fills_in_priority(side, walk_upto(book, n, side, c, first_seq).events),
        fills_before_rest(side, walk_upto(book, n, side, c, first_seq).events, book, n),
    decreases n,
{
    if n > 0 {
        lemma_fills_in_priority(book, n - 1, side, c, first_seq);
        lemma_walk_keeps_book(book, n - 1, side, c, first_seq);
        let w0 = walk_upto(book, n - 1, side, c, first_seq);
        let o = book[n - 1];
        assert(o.valid());
        lemma_step_events(w0, o, side, c);
        let w1 = w0.step(o, side, c);
        assert forall|a: int, b: int| 0 <= a < b < w1.events.len() implies match (
            #[trigger] w1.events[a],
            #[trigger] w1.events[b],
        ) {
            (Event::Fill(x), Event::Fill(y)) => fill_before(
                side,
                x.price_lots,
                x.maker_order_id,
                y.price_lots,
                y.maker_order_id,
            ),
            _ => true,
        } by {
            if b < w0.events.len() {
                assert(w1.events[a] == w0.events[a]);
                assert(w1.events[b] == w0.events[b]);
            } else {
                assert(w1.events[a] == w0.events[a]);
            }
        }
        assert forall|a: int, j: int| 0 <= a < w1.events.len() && n <= j < book.len() implies match
            #[trigger] w1.events[a] {
            Event::Fill(x) => fill_before(
                side,
                x.price_lots,
                x.maker_order_id,
                (#[trigger] book[j]).price_lots,
                book[j].seq_num,
            ),
            Event::Out(_) => true,
        } by {
            if a < w0.events.len() {
                assert(w1.events[a] == w0.events[a]);
            } else {
                assert(better(side, book[n - 1], book[j]));
            }
        }
    }
}

/// Every order is a pegged order, in a pass that has no oracle price.
pub open spec fn only_passed_over(kept: Seq<Order>, c: MatchContext) -> bool {
    forall|k: int| 0 <= k < kept.len() ==> (#[trigger] kept[k]).is_pegged && !c.has_oracle
}

/// Nothing is left behind: as long as the incoming order still looks for
/// lots, every order that the pass has kept is one it could not trade
/// with, a pegged order in a pass without an oracle price. Every other
/// order it came to was traded in full, went out, or stopped the pass.
pub proof fn lemma_nothing_left_behind(
    book: Seq<Order>,
    n: int,
    side: Side,
    c: MatchContext,
    first_seq: u64,
)
    requires
        book_ok(side, book),
        0 <= n <= book.len(),
        c.taker.max_base_lots >= 1,
    ensures
        !walk_upto(book, n, side, c, first_seq).stopped && walk_upto(
            book,
            n,
            side,
            c,
            first_seq,
        ).error.is_none() ==> only_passed_over(walk_upto(book, n, side, c, first_seq).kept, c),
    decreases n,
{
    if n > 0 {
        lemma_nothing_left_behind(book, n - 1, side, c, first_seq);
        lemma_walk_keeps_book(book, n - 1, side, c, first_seq);
        let w0 = walk_upto(book, n - 1, side, c, first_seq);
        let o = book[n - 1];
        assert(o.valid());
        let w1 = w0.step(o, side, c);
        if !w1.stopped && w1.error.is_none() {
            assert(!w0.stopped && w0.error.is_none());
            assert forall|k: int| 0 <= k < w1.kept.len() implies (#[trigger] w1.kept[k]).is_pegged
                && !c.has_oracle by {
                if k < w0.kept.len() {
                    assert(w1.kept[k] == w0.kept[k]);
                } else {
                    assert(w1.kept[k] == o);
                }
            }
            assert(only_passed_over(w1.kept, c));
        }
    }
}

/// What the fills among some events moved, in sum.
pub struct Sums {
    /// Base lots traded.
    pub base_lots: int,
    /// Quote lots traded: price times quantity.
    pub quote_lots: int,
    /// Native quote units traded, before fees.
    pub quote_native: int,
    /// Fees charged to the taker.
    pub taker_fees: int,
    /// What the market took when the matches were made: the taker's fees
    /// less the makers' rebates.
    pub fees_at_match: int,
    /// Change of the taker's base position, in lots.
    pub taker_base_delta: int,
    /// Change of the taker's quote position, in native units, fees included.
    pub taker_quote_delta: int,
}

/// Change of the taker's base position that `lots` lots taken make; and,
/// negated, the change of the taker's quote that `lots` units traded make.
pub open spec fn taker_sign(side: Side, lots: int) -> int {
    match side {
        Side::Bid => lots,
        Side::Ask => -lots,
    }
}

/// The sums over the fills among the first `n` of `events`.
pub open spec fn sums_upto(events: Seq<Event>, n: int) -> Sums
    decreases n,
{
    if n <= 0 {
        Sums {
            base_lots: 0,
            quote_lots: 0,
            quote_native: 0,
            taker_fees: 0,
            fees_at_match: 0,
            taker_base_delta: 0,
            taker_quote_delta: 0,
        }
    } else {
        let s = sums_upto(events, n - 1);
        match events[n - 1] {
            Event::Fill(f) => Sums {
                base_lots: s.base_lots + f.quantity,
                quote_lots: s.quote_lots + f.price_lots * f.quantity,
                quote_native: s.quote_native + f.quote_native,
                taker_fees: s.taker_fees + f.taker_fee,
                fees_at_match: s.fees_at_match + f.fees_at_match(),
                taker_base_delta: s.taker_base_delta + f.taker_base_delta(),
                taker_quote_delta: s.taker_quote_delta + f.taker_quote_delta(),
            },
            Event::Out(_) => s,
        }
    }
}

/// The sums over the fills among `events`.
pub open spec fn sums(events: Seq<Event>) -> Sums {
    sums_upto(events, events.len() as int)
}

/// The sums over the first `n` events look at those events only.
pub proof fn lemma_sums_prefix(a: Seq<Event>, b: Seq<Event>, n: int)
    requires
        0 <= n <= a.len(),
        n <= b.len(),
        forall|i: int| 0 <= i < n ==> a[i] == b[i],
    ensures
        sums_upto(a, n) == sums_upto(b, n),
    decreases n,
{
    if n > 0 {
        lemma_sums_prefix(a, b, n - 1);
    }
}

/// Every fill of a pass moves what the market's rules say a trade of its
/// quantity at its price moves.
pub open spec fn fills_by_the_rules(events: Seq<Event>, market: crate::market::Market) -> bool {
    forall|i: int|
        0 <= i < events.len() ==> match #[trigger] events[i] {
            Event::Fill(f) => market.fill_amounts_spec(f.price_lots as int, f.quantity as int)
                matches Some(a) && a.quantity == f.quantity && a.quote_native == f.quote_native
                && a.taker_fee == f.taker_fee && a.maker_fee == f.maker_fee,
            Event::Out(_) => true,
        }
}

/// Every fill is a trade of a taker on `side`.
pub open spec fn fills_of_taker_side(events: Seq<Event>, side: Side) -> bool {
    forall|i: int|
        0 <= i < events.len() ==> match #[trigger] events[i] {
            Event::Fill(f) => f.taker_side == side,
            Event::Out(_) => true,
        }
}

/// Every fill of a pass names the side of the incoming order as the
/// taker's.
pub proof fn lemma_fills_taker_side(
    book: Seq<Order>,
    n: int,
    side: Side,
    c: MatchContext,
    first_seq: u64,
)
    requires
        book_ok(side, book),
        0 <= n <= book.len(),
        c.taker.max_base_lots >= 1,
    ensures
        fills_of_taker_side(walk_upto(book, n, side, c, first_seq).events, c.taker.side),
    decreases n,
{
    if n > 0 {
        lemma_fills_taker_side(book, n - 1, side, c, first_seq);
        lemma_walk_keeps_book(book, n - 1, side, c, first_seq);
        let w0 = walk_upto(book, n - 1, side, c, first_seq);
        assert(book[n - 1].valid());
        lemma_step_events(w0, book[n - 1], side, c);
        let w1 = w0.step(book[n - 1], side, c);
        assert forall|i: int| 0 <= i < w1.events.len() implies match #[trigger] w1.events[i] {
            Event::Fill(f) => f.taker_side == c.taker.side,
            Event::Out(_) => true,
        } by {
            if i < w0.events.len() {
                assert(w1.events[i] == w0.events[i]);
            }
        }
    }
}

/// Summed over fills that follow the market's rules and have their taker
/// on `side`, the quote traded is the quote lots traded in native units,
/// the taker's base position moves by the lots traded, and the taker's
/// quote position by the quote traded and the taker's fees.
pub proof fn lemma_sums_of_fills(events: Seq<Event>, n: int, side: Side, market: crate::market::Market)
    requires
        0 <= n <= events.len(),
        market.wf(),
        fills_by_the_rules(events, market),
        fills_of_taker_side(events, side),
    ensures
        sums_upto(events, n).quote_native == sums_upto(events, n).quote_lots
            * market.quote_lot_size,
        sums_upto(events, n).taker_base_delta == taker_sign(side, sums_upto(events, n).base_lots),
        sums_upto(events, n).taker_quote_delta == -taker_sign(
            side,
            sums_upto(events, n).quote_native,
        ) - sums_upto(events, n).taker_fees,
    decreases n,
{
    if n > 0 {
        lemma_sums_of_fills(events, n - 1, side, market);
        let s0 = sums_upto(events, n - 1);
        match events[n - 1] {
            Event::Fill(f) => {
                market.lemma_fill_amounts(f.price_lots as int, f.quantity as int);
                let lots = f.price_lots * f.quantity;
                let qls = market.quote_lot_size as int;
                assert(f.quote_native == lots * qls);
                assert((s0.quote_lots + lots) * qls == s0.quote_lots * qls + lots * qls)
                    by (nonlinear_arith);
            },
            Event::Out(_) => {},
        }
    }
}

/// In a pass that has not failed, the quote lots of the totals are those
/// of the fills.
pub proof fn lemma_quote_lots_sum(
    book: Seq<Order>,
    n: int,
    side: Side,
    c: MatchContext,
    first_seq: u64,
)
    requires
        book_ok(side, book),
        0 <= n <= book.len(),
        c.market.wf(),
        c.taker.max_base_lots >= 1,
    ensures
        walk_upto(book, n, side, c, first_seq).error.is_none() ==> walk_upto(
            book,
            n,
            side,
            c,
            first_seq,
        ).totals.quote_lots == sums(walk_upto(book, n, side, c, first_seq).events).quote_lots,
    decreases n,
{
    if n > 0 {
        lemma_quote_lots_sum(book, n - 1, side, c, first_seq);
        lemma_walk_keeps_book(book, n - 1, side, c, first_seq);
        let w0 = walk_upto(book, n - 1, side, c, first_seq);
        let o = book[n - 1];
        assert(o.valid());
        let w1 = w0.step(o, side, c);
        lemma_step_events(w0, o, side, c);
        let q = w0.fill_lots(o);
        c.market.lemma_fill_amounts(o.price_lots as int, q as int);
        if w1.events != w0.events {
            lemma_sums_prefix(w1.events, w0.events, w0.events.len() as int);
        }
    }
}

/// Summed over the fills of a pass, the taker's base position moves by
/// the lots traded and the taker's quote position by the quote traded and
/// the taker's fees; the quote traded is the quote lots traded in native
/// units; and in a pass that has not failed the quote lots of the totals
/// are those of the fills.
pub proof fn lemma_taker_sums(book: Seq<Order>, n: int, side: Side, c: MatchContext, first_seq: u64)
    requires
        book_ok(side, book),
        0 <= n <= book.len(),
        c.market.wf(),
        c.taker.max_base_lots >= 1,
    ensures
        sums(walk_upto(book, n, side, c, first_seq).events).quote_native == sums(
            walk_upto(book, n, side, c, first_seq).events,
        ).quote_lots * c.market.quote_lot_size,
        sums(walk_upto(book, n, side, c, first_seq).events).taker_base_delta == taker_sign(
            c.taker.side,
            sums(walk_upto(book, n, side, c, first_seq).events).base_lots,
        ),
        sums(walk_upto(book, n, side, c, first_seq).events).taker_quote_delta == -taker_sign(
            c.taker.side,
            sums(walk_upto(book, n, side, c, first_seq).events).quote_native,
        ) - sums(walk_upto(book, n, side, c, first_seq).events).taker_fees,
        walk_upto(book, n, side, c, first_seq).error.is_none() ==> walk_upto(
            book,
            n,
            side,
            c,
            first_seq,
        ).totals.quote_lots == sums(walk_upto(book, n, side, c, first_seq).events).quote_lots,
{
    let events = walk_upto(book, n, side, c, first_seq).events;
    lemma_totals_are_sums(book, n, side, c, first_seq);
    lemma_fills_taker_side(book, n, side, c, first_seq);
    lemma_sums_of_fills(events, events.len() as int, c.taker.side, c.market);
    lemma_quote_lots_sum(book, n, side, c, first_seq);
}

/// The totals of a pass that has not failed are the sums over its fills,
/// and each fill moves what the market's rules give for its price and
/// quantity.
pub proof fn lemma_totals_are_sums(
    book: Seq<Order>,
    n: int,
    side: Side,
    c: MatchContext,
    first_seq: u64,
)
    requires
        book_ok(side, book),
        0 <= n <= book.len(),
        c.market.wf(),
        c.taker.max_base_lots >= 1,
    ensures
        ({
            let w = walk_upto(book, n, side, c, first_seq);
            let s = sums(w.events);
            &&& fills_by_the_rules(w.events, c.market)
            &&& w.error.is_none() ==> {
                &&& w.totals.base_lots == s.base_lots
                &&& w.totals.quote_native == s.quote_native
                &&& w.totals.taker_fees == s.taker_fees
                &&& w.totals.fees_to_market == s.fees_at_match
            }
        }),
    decreases n,
{
    if n > 0 {
        lemma_totals_are_sums(book, n - 1, side, c, first_seq);
        lemma_walk_keeps_book(book, n - 1, side, c, first_seq);
        let w0 = walk_upto(book, n - 1, side, c, first_seq);
        let o = book[n - 1];
        assert(o.valid());
        let w1 = w0.step(o, side, c);
        lemma_step_events(w0, o, side, c);
        lemma_step_totals(w0, o, side, c);
        if w1.events != w0.events {
            lemma_sums_prefix(w1.events, w0.events, w0.events.len() as int);
        }
        assert forall|i: int| 0 <= i < w1.events.len() implies match #[trigger] w1.events[i] {
            Event::Fill(f) => c.market.fill_amounts_spec(f.price_lots as int, f.quantity as int)
                matches Some(a) && a.quantity == f.quantity && a.quote_native == f.quote_native
                && a.taker_fee == f.taker_fee && a.maker_fee == f.maker_fee,
            Event::Out(_) => true,
        } by {
            if i < w0.events.len() {
                assert(w1.events[i] == w0.events[i]);
            }
        }
    }
}

/// An order cannot take more than rests: what the incoming order still
/// looks for is at least what it came for less all that the pass has
/// looked at.
pub proof fn lemma_remaining_bound(
    book: Seq<Order>,
    n: int,
    side: Side,
    c: MatchContext,
    first_seq: u64,
)
    requires
        book_ok(side, book),
        0 <= n <= book.len(),
        c.taker.max_base_lots >= 1,
    ensures
        ({
            let w = walk_upto(book, n, side, c, first_seq);
            w.error.is_none() ==> w.remaining >= c.taker.max_base_lots - total_quantity(book, n)
        }),
        total_quantity(book, n) >= 0,
    decreases n,
{
    if n > 0 {
        lemma_remaining_bound(book, n - 1, side, c, first_seq);
        lemma_walk_keeps_book(book, n - 1, side, c, first_seq);
        assert(book[n - 1].valid());
    }
}

} // verus!
