use vstd::prelude::*;
use crate::address::AccountRef;
use crate::book_side::book_ok;
use crate::event_queue::{Event, FillEvent, OutEvent};
use crate::lots::{checked_product, fits_i64, narrow};
use crate::market::{FillAmounts, Market};
use crate::order::{price_crosses, Order};
use crate::position::TakerTotals;
use crate::types::{MatchError, OrderType, SelfTradeBehavior, Side};

verus! {

/// An order as it comes in, before it has a sequence number.
#[derive(Clone, Copy, Debug)]
pub struct IncomingOrder {
    /// The open-orders account that places the order.
    pub owner: AccountRef,
    pub side: Side,
    /// Worst price the order trades at, in quote lots per base lot. A pegged
    /// order takes its price from the oracle instead.
    pub price_lots: i64,
    /// Base lots to trade.
    pub max_base_lots: i64,
    /// Most quote lots that the order may trade and rest for, each lot
    /// counted at the price it trades or rests at. Fees are charged in
    /// native units on what is traded and are not counted against it.
    pub max_quote_lots_including_fees: i64,
    pub order_type: OrderType,
    pub self_trade_behavior: SelfTradeBehavior,
    pub client_order_id: u64,
    /// Time after which what rests of the order no longer counts; zero for
    /// none.
    pub expiry_timestamp: u64,
    pub is_pegged: bool,
    pub peg_offset: i64,
    pub peg_limit: i64,
}

/// What stays the same through one pass over the book.
#[derive(Clone, Copy, Debug)]
pub struct MatchContext {
    pub market: Market,
    pub taker: IncomingOrder,
    pub now_ts: u64,
    /// Whether the pass was given an oracle price. Without one, pegged
    /// resting orders are passed over.
    pub has_oracle: bool,
}

/// The state of a pass over the opposite side of the book.
pub struct WalkView {
    /// Base lots the incoming order still looks for.
    pub remaining: i64,
    /// Quote lots the incoming order may still trade or rest for.
    pub quote_left: i64,
    /// Set once the incoming order trades no further.
    pub stopped: bool,
    /// Set where what remains of the incoming order must not rest: it was
    /// cancelled against a resting order of its own account, or it has not
    /// the quote left for the lots it came to.
    pub cancelled: bool,
    pub error: Option<MatchError>,
    /// The resting orders that stay, in book order.
    pub kept: Seq<Order>,
    /// The events the pass produced, oldest first.
    pub events: Seq<Event>,
    pub totals: TakerTotals,
    /// Sequence number of the next event.
    pub next_seq: u64,
}

/// The state of a pass over the opposite side of the book, as the engine
/// holds it.
#[derive(Debug)]
pub struct Walk {
    pub remaining: i64,
    pub quote_left: i64,
    pub stopped: bool,
    pub cancelled: bool,
    pub error: Option<MatchError>,
    pub kept: Vec<Order>,
    pub events: Vec<Event>,
    pub totals: TakerTotals,
    pub next_seq: u64,
}

impl View for Walk {
    type V = WalkView;

    open spec fn view(&self) -> WalkView {
        WalkView {
            remaining: self.remaining,
            quote_left: self.quote_left,
            stopped: self.stopped,
            cancelled: self.cancelled,
            error: self.error,
            kept: self.kept@,
            events: self.events@,
            totals: self.totals,
            next_seq: self.next_seq,
        }
    }
}

/// The event that records that `quantity` lots of `o` left the book
/// untraded, with what they unlock. `None` where the amount does not fit.
pub open spec fn out_event_spec(
    book_side: Side,
    o: Order,
    quantity: i64,
    now_ts: u64,
    seq_num: u64,
) -> Option<Event> {
    let amount = quantity * o.unit_lock;
    if quantity >= 0 && o.unit_lock >= 0 && fits_i64(amount) {
        Some(
            Event::Out(
                OutEvent {
                    owner: o.owner,
                    side: book_side,
                    order_id: o.seq_num,
                    quantity,
                    base_free: if book_side == Side::Ask {
                        amount as i64
                    } else {
                        0
                    },
                    quote_free: if book_side == Side::Bid {
                        amount as i64
                    } else {
                        0
                    },
                    timestamp: now_ts,
                    seq_num,
                },
            ),
        )
    } else {
        None
    }
}

/// Builds the event for `quantity` lots of `o` that left the book untraded.
pub fn out_event(book_side: Side, o: &Order, quantity: i64, now_ts: u64, seq_num: u64) -> (r:
    Option<Event>)
    ensures
        r == out_event_spec(book_side, *o, quantity, now_ts, seq_num),
{
    if quantity < 0 || o.unit_lock < 0 {
        return None;
    }
    let amount = match checked_product(quantity, o.unit_lock) {
        Some(a) => a,
        None => {
            return None;
        },
    };
    let (base_free, quote_free): (i64, i64) = match book_side {
        Side::Ask => (amount, 0),
        Side::Bid => (0, amount),
    };
    Some(
        Event::Out(
            OutEvent {
                owner: o.owner,
                side: book_side,
                order_id: o.seq_num,
                quantity,
                base_free,
                quote_free,
                timestamp: now_ts,
                seq_num,
            },
        ),
    )
}

/// The totals with one more fill. `None` where a sum does not fit.
pub open spec fn totals_add_spec(t: TakerTotals, f: FillAmounts) -> Option<TakerTotals> {
    if fits_i64(t.base_lots + f.quantity) && fits_i64(t.quote_lots + f.quote_lots) && fits_i64(
        t.base_native + f.base_native,
    ) && fits_i64(t.quote_native + f.quote_native) && fits_i64(t.taker_fees + f.taker_fee)
        && fits_i64(t.fees_to_market + f.fees_at_match()) {
        Some(
            TakerTotals {
                base_lots: (t.base_lots + f.quantity) as i64,
                quote_lots: (t.quote_lots + f.quote_lots) as i64,
                base_native: (t.base_native + f.base_native) as i64,
                quote_native: (t.quote_native + f.quote_native) as i64,
                taker_fees: (t.taker_fees + f.taker_fee) as i64,
                fees_to_market: (t.fees_to_market + f.fees_at_match()) as i64,
            },
        )
    } else {
        None
    }
}

/// Adds one fill to the totals.
pub fn totals_add(t: &TakerTotals, f: &FillAmounts) -> (r: Option<TakerTotals>)
    ensures
        r == totals_add_spec(*t, *f),
{
    let base_lots = match narrow(t.base_lots as i128 + f.quantity as i128) {
        Some(v) => v,
        None => {
            return None;
        },
    };
    let quote_lots = match narrow(t.quote_lots as i128 + f.quote_lots as i128) {
        Some(v) => v,
        None => {
            return None;
        },
    };
    let base_native = match narrow(t.base_native as i128 + f.base_native as i128) {
        Some(v) => v,
        None => {
            return None;
        },
    };
    let quote_native = match narrow(t.quote_native as i128 + f.quote_native as i128) {
        Some(v) => v,
        None => {
            return None;
        },
    };
    let taker_fees = match narrow(t.taker_fees as i128 + f.taker_fee as i128) {
        Some(v) => v,
        None => {
            return None;
        },
    };
    let at_match: i128 = if f.maker_fee < 0 {
        f.taker_fee as i128 + f.maker_fee as i128
    } else {
        f.taker_fee as i128
    };
    let fees_to_market = match narrow(t.fees_to_market as i128 + at_match) {
        Some(v) => v,
        None => {
            return None;
        },
    };
    Some(TakerTotals { base_lots, quote_lots, base_native, quote_native, taker_fees, fees_to_market })
}

/// The event that records a trade of `f` against the resting order `o`.
pub open spec fn fill_event_spec(
    o: Order,
    f: FillAmounts,
    release: (i64, i64),
    c: MatchContext,
    seq_num: u64,
) -> Event {
    Event::Fill(
        FillEvent {
            maker: o.owner,
            taker: c.taker.owner,
            taker_side: c.taker.side,
            maker_out: f.quantity == o.quantity,
            maker_order_id: o.seq_num,
            price_lots: o.price_lots,
            quantity: f.quantity,
            quote_native: f.quote_native,
            maker_fee: f.maker_fee,
            taker_fee: f.taker_fee,
            maker_base_free: release.0,
            maker_quote_free: release.1,
            timestamp: c.now_ts,
            seq_num,
        },
    )
}

/// The smaller of two quantities.
pub open spec fn min_lots(a: i64, b: i64) -> i64 {
    if a < b {
        a
    } else {
        b
    }
}

impl WalkView {
    /// The state before the first resting order is looked at.
    pub open spec fn start(c: MatchContext, first_seq: u64) -> WalkView {
        WalkView {
            remaining: c.taker.max_base_lots,
            quote_left: c.taker.max_quote_lots_including_fees,
            stopped: false,
            cancelled: false,
            error: None,
            kept: Seq::empty(),
            events: Seq::empty(),
            totals: TakerTotals::zero(),
            next_seq: first_seq,
        }
    }

    /// While the incoming order still trades, it looks for at least one lot.
    pub open spec fn ok(self) -> bool {
        &&& self.remaining >= 0
        &&& (!self.stopped && self.error.is_none()) ==> self.remaining >= 1
    }

    pub open spec fn failed(self, e: MatchError) -> WalkView {
        WalkView { error: Some(e), ..self }
    }

    pub open spec fn keeping(self, o: Order) -> WalkView {
        WalkView { kept: self.kept.push(o), ..self }
    }

    /// The state after `quantity` lots of `o` left the book untraded: one
    /// more event. An amount or a sequence number that does not fit fails
    /// the pass.
    pub open spec fn after_out(self, book_side: Side, o: Order, quantity: i64, c: MatchContext) -> WalkView {
        match out_event_spec(book_side, o, quantity, c.now_ts, self.next_seq) {
            Some(e) => if self.next_seq < u64::MAX {
                WalkView { events: self.events.push(e), next_seq: (self.next_seq + 1) as u64, ..self }
            } else {
                self.failed(MatchError::ArithmeticOverflow)
            },
            None => self.failed(MatchError::ArithmeticOverflow),
        }
    }

    /// The state after the incoming order shrank by `quantity` lots against
    /// `o`, of which what is left, if anything, stays on the book.
    pub open spec fn after_taking(self, o: Order, quantity: i64) -> WalkView {
        WalkView {
            remaining: (self.remaining - quantity) as i64,
            stopped: self.remaining - quantity == 0,
            kept: if quantity < o.quantity {
                self.kept.push(Order { quantity: (o.quantity - quantity) as i64, ..o })
            } else {
                self.kept
            },
            ..self
        }
    }

    /// The state after the incoming order met a resting order of its own
    /// account.
    pub open spec fn after_self_trade(self, book_side: Side, o: Order, c: MatchContext) -> WalkView {
        match c.taker.self_trade_behavior {
            SelfTradeBehavior::Reject => self.failed(MatchError::SelfTradeReject),
            SelfTradeBehavior::CancelResting => self.after_out(book_side, o, o.quantity, c),
            SelfTradeBehavior::CancelIncoming => WalkView {
                stopped: true,
                cancelled: true,
                ..self.keeping(o)
            },
            SelfTradeBehavior::DecrementBoth => {
                let q = min_lots(self.remaining, o.quantity);
                let w = self.after_out(book_side, o, q, c);
                if w.error.is_some() {
                    w
                } else {
                    w.after_taking(o, q)
                }
            },
        }
    }

    /// The lots that the incoming order takes of `o`: as many as both have,
    /// as far as the quote goes at the resting order's price.
    pub open spec fn fill_lots(self, o: Order) -> i64 {
        let wanted = min_lots(self.remaining, o.quantity);
        if self.quote_left as int / o.price_lots as int >= wanted {
            wanted
        } else {
            (self.quote_left as int / o.price_lots as int) as i64
        }
    }

    /// The state after the incoming order came to `o`, an order it trades
    /// with. It takes as many lots as both have, at the resting order's
    /// price, as far as its quote goes. Where the quote does not buy one
    /// lot at that price, nothing is traded and the pass ends; where it
    /// buys fewer lots than both have, those are traded and the pass ends.
    /// Either way what remains of the incoming order does not rest.
    pub open spec fn after_fill(self, book_side: Side, o: Order, c: MatchContext) -> WalkView {
        let wanted = min_lots(self.remaining, o.quantity);
        if self.quote_left < o.price_lots {
            WalkView { stopped: true, cancelled: true, ..self.keeping(o) }
        } else {
            let q = self.fill_lots(o);
            match c.market.fill_amounts_spec(o.price_lots as int, q as int) {
                None => self.failed(MatchError::ArithmeticOverflow),
                Some(f) => match (
                    Market::maker_release_spec(book_side, f, o.unit_lock as int),
                    totals_add_spec(self.totals, f),
                ) {
                    (Some(release), Some(t)) => if self.next_seq < u64::MAX {
                        let v = WalkView {
                            events: self.events.push(
                                fill_event_spec(o, f, release, c, self.next_seq),
                            ),
                            totals: t,
                            next_seq: (self.next_seq + 1) as u64,
                            quote_left: (self.quote_left - f.quote_lots) as i64,
                            ..self
                        }.after_taking(o, q);
                        if q < wanted {
                            WalkView { stopped: true, cancelled: true, ..v }
                        } else {
                            v
                        }
                    } else {
                        self.failed(MatchError::ArithmeticOverflow)
                    },
                    _ => self.failed(MatchError::ArithmeticOverflow),
                },
            }
        }
    }

    /// The state after the resting order `o` was looked at. A pass that
    /// failed stays as it is. Once the incoming order has stopped, every
    /// order stays. Before that: an expired order goes out; a pegged order
    /// is passed over where there is no oracle price; the first order
    /// whose price is beyond the limit stops the pass; an order of the
    /// taker's own account is handled as the taker chose; any other order
    /// trades.
    pub open spec fn step(self, o: Order, book_side: Side, c: MatchContext) -> WalkView {
        if self.error.is_some() {
            self
        } else if self.stopped {
            self.keeping(o)
        } else if o.is_expired(c.now_ts) {
            self.after_out(book_side, o, o.quantity, c)
        } else if o.is_pegged && !c.has_oracle {
            self.keeping(o)
        } else if !price_crosses(book_side, o.price_lots, c.taker.price_lots) {
            WalkView { stopped: true, ..self.keeping(o) }
        } else if o.owner == c.taker.owner {
            self.after_self_trade(book_side, o, c)
        } else {
            self.after_fill(book_side, o, c)
        }
    }
}

/// The state of the pass after the first `n` orders of `book`.
pub open spec fn walk_upto(
    book: Seq<Order>,
    n: int,
    book_side: Side,
    c: MatchContext,
    first_seq: u64,
) -> WalkView
    decreases n,
{
    if n <= 0 {
        WalkView::start(c, first_seq)
    } else {
        walk_upto(book, n - 1, book_side, c, first_seq).step(book[n - 1], book_side, c)
    }
}

/// The state of the pass over the whole of `book`.
pub open spec fn walk_spec(book: Seq<Order>, book_side: Side, c: MatchContext, first_seq: u64) -> WalkView {
    walk_upto(book, book.len() as int, book_side, c, first_seq)
}

impl Walk {
    fn start(c: &MatchContext, first_seq: u64) -> (w: Walk)
        ensures
            w@ == WalkView::start(*c, first_seq),
    {
        Walk {
            remaining: c.taker.max_base_lots,
            quote_left: c.taker.max_quote_lots_including_fees,
            stopped: false,
            cancelled: false,
            error: None,
            kept: Vec::new(),
            events: Vec::new(),
            totals: TakerTotals::none(),
            next_seq: first_seq,
        }
    }

    fn note_out(&mut self, book_side: Side, o: &Order, quantity: i64, c: &MatchContext)
        ensures
            final(self)@ == old(self)@.after_out(book_side, *o, quantity, *c),
    {
        match out_event(book_side, o, quantity, c.now_ts, self.next_seq) {
            Some(e) => {
                if self.next_seq < u64::MAX {
                    self.events.push(e);
                    self.next_seq = self.next_seq + 1;
                } else {
                    self.error = Some(MatchError::ArithmeticOverflow);
                }
            },
            None => {
                self.error = Some(MatchError::ArithmeticOverflow);
            },
        }
    }

    fn take(&mut self, o: &Order, quantity: i64)
        requires
            0 <= quantity <= old(self).remaining,
            quantity <= o.quantity,
        ensures
            final(self)@ == old(self)@.after_taking(*o, quantity),
    {
        self.remaining = self.remaining - quantity;
        self.stopped = self.remaining == 0;
        if quantity < o.quantity {
            let mut rest = *o;
            rest.quantity = o.quantity - quantity;
            self.kept.push(rest);
        }
    }

    fn self_trade(&mut self, book_side: Side, o: &Order, c: &MatchContext)
        requires
            old(self)@.ok(),
            !old(self).stopped,
            old(self).error.is_none(),
            o.valid(),
        ensures
            final(self)@ == old(self)@.after_self_trade(book_side, *o, *c),
    {
        match c.taker.self_trade_behavior {
            SelfTradeBehavior::Reject => {
                self.error = Some(MatchError::SelfTradeReject);
            },
            SelfTradeBehavior::CancelResting => {
                self.note_out(book_side, o, o.quantity, c);
            },
            SelfTradeBehavior::CancelIncoming => {
                self.kept.push(*o);
                self.stopped = true;
                self.cancelled = true;
            },
            SelfTradeBehavior::DecrementBoth => {
                let q = if self.remaining < o.quantity {
                    self.remaining
                } else {
                    o.quantity
                };
                self.note_out(book_side, o, q, c);
                if self.error.is_none() {
                    self.take(o, q);
                }
            },
        }
    }

    fn fill(&mut self, book_side: Side, o: &Order, c: &MatchContext)
        requires
            old(self)@.ok(),
            !old(self).stopped,
            old(self).error.is_none(),
            o.valid(),
            c.market.wf(),
        ensures
            final(self)@ == old(self)@.after_fill(book_side, *o, *c),
    {
        let wanted = if self.remaining < o.quantity {
            self.remaining
        } else {
            o.quantity
        };
        if self.quote_left < o.price_lots {
            self.kept.push(*o);
            self.stopped = true;
            self.cancelled = true;
            return ;
        }
        let by_quote = self.quote_left / o.price_lots;
        proof {
            let left = self.quote_left as int;
            let price = o.price_lots as int;
            assert(1 <= left / price <= left && (left / price) * price <= left)
                by (nonlinear_arith)
                requires
                    1 <= price <= left,
            ;
        }
        let q = if by_quote < wanted {
            by_quote
        } else {
            wanted
        };
        let f = match c.market.fill_amounts(o.price_lots, q) {
            Some(f) => f,
            None => {
                self.error = Some(MatchError::ArithmeticOverflow);
                return ;
            },
        };
        let release = Market::maker_release(book_side, &f, o.unit_lock);
        let totals = totals_add(&self.totals, &f);
        match (release, totals) {
            (Some(rel), Some(t)) => {
                if self.next_seq < u64::MAX {
                    let e = Event::Fill(
                        FillEvent {
                            maker: o.owner,
                            taker: c.taker.owner,
                            taker_side: c.taker.side,
                            maker_out: q == o.quantity,
                            maker_order_id: o.seq_num,
                            price_lots: o.price_lots,
                            quantity: q,
                            quote_native: f.quote_native,
                            maker_fee: f.maker_fee,
                            taker_fee: f.taker_fee,
                            maker_base_free: rel.0,
                            maker_quote_free: rel.1,
                            timestamp: c.now_ts,
                            seq_num: self.next_seq,
                        },
                    );
                    proof {
                        c.market.lemma_fill_amounts(o.price_lots as int, q as int);
                        let left = self.quote_left as int;
                        let price = o.price_lots as int;
                        assert(price * q <= left) by (nonlinear_arith)
                            requires
                                1 <= q <= left / price,
                                (left / price) * price <= left,
                                price >= 1,
                        ;
                    }
                    self.events.push(e);
                    self.totals = t;
                    self.next_seq = self.next_seq + 1;
                    self.quote_left = self.quote_left - f.quote_lots;
                    self.take(o, q);
                    if q < wanted {
                        self.stopped = true;
                        self.cancelled = true;
                    }
                } else {
                    self.error = Some(MatchError::ArithmeticOverflow);
                }
            },
            _ => {
                self.error = Some(MatchError::ArithmeticOverflow);
            },
        }
    }

    fn step(&mut self, o: &Order, book_side: Side, c: &MatchContext)
        requires
            old(self)@.ok(),
            o.valid(),
            c.market.wf(),
        ensures
            final(self)@ == old(self)@.step(*o, book_side, *c),
            final(self)@.ok(),
    {
        proof {
            lemma_step_ok(self@, *o, book_side, *c);
        }
        if self.error.is_some() {
        } else if self.stopped {
            self.kept.push(*o);
        } else if o.expired(c.now_ts) {
            self.note_out(book_side, o, o.quantity, c);
        } else if o.is_pegged && !c.has_oracle {
            self.kept.push(*o);
        } else if !o.crosses(book_side, c.taker.price_lots) {
            self.kept.push(*o);
            self.stopped = true;
        } else if o.owner == c.taker.owner {
            self.self_trade(book_side, o, c);
        } else {
            self.fill(book_side, o, c);
        }
    }
}

/// A step keeps the pass in order.
pub proof fn lemma_step_ok(w: WalkView, o: Order, book_side: Side, c: MatchContext)
    requires
        w.ok(),
        o.valid(),
    ensures
        w.step(o, book_side, c).ok(),
        w.step(o, book_side, c).next_seq >= w.next_seq,
        w.step(o, book_side, c).kept.len() <= w.kept.len() + 1,
{
}

/// Walks the whole of `book`, the opposite side of the incoming order, best
/// order first.
pub fn walk_book(book: &Vec<Order>, book_side: Side, c: &MatchContext, first_seq: u64) -> (w: Walk)
    requires
        book_ok(book_side, book@),
        c.market.wf(),
        c.taker.max_base_lots >= 1,
    ensures
        w@ == walk_spec(book@, book_side, *c, first_seq),
{
    let mut w = Walk::start(c, first_seq);
    let mut i: usize = 0;
    while i < book.len()
        invariant
            i <= book@.len(),
            book_ok(book_side, book@),
            c.market.wf(),
            w@ == walk_upto(book@, i as int, book_side, *c, first_seq),
            w@.ok(),
        decreases book@.len() - i,
    {
        w.step(&book[i], book_side, c);
        i += 1;
    }
    w
}

} // verus!
