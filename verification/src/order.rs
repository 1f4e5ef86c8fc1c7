use vstd::prelude::*;
use crate::address::AccountRef;
use crate::types::Side;

verus! {

/// An order resting on one side of the book.
#[derive(Clone, Copy, Debug)]
pub struct Order {
    /// The open-orders account that placed the order.
    pub owner: AccountRef,
    /// Time priority, and the id under which the order is cancelled.
    pub seq_num: u64,
    /// Id chosen by the owner.
    pub client_order_id: u64,
    /// Price in quote lots per base lot; for a pegged order the price it was
    /// last anchored at.
    pub price_lots: i64,
    /// Base lots still open.
    pub quantity: i64,
    /// Time after which the order no longer counts; zero for none.
    pub expiry_timestamp: u64,
    /// Whether the price follows the oracle.
    pub is_pegged: bool,
    /// Offset from the oracle price, in lots.
    pub peg_offset: i64,
    /// Price that a pegged order never goes beyond: the highest a bid pays,
    /// the lowest an ask takes.
    pub peg_limit: i64,
    /// Native units that one open lot keeps locked: quote for a bid, base for
    /// an ask.
    pub unit_lock: i64,
}

/// The price of a pegged order when the oracle stands at `oracle_price_lots`:
/// oracle plus offset, held at the limit, and never under one lot.
pub open spec fn peg_price_spec(side: Side, oracle_price_lots: int, offset: int, limit: int) -> int {
    let raw = oracle_price_lots + offset;
    let held = match side {
        Side::Bid => if raw < limit {
            raw
        } else {
            limit
        },
        Side::Ask => if raw > limit {
            raw
        } else {
            limit
        },
    };
    if held < 1 {
        1
    } else if held > i64::MAX {
        i64::MAX as int
    } else {
        held
    }
}

/// Computes the price of a pegged order from the oracle price.
pub fn peg_price(side: Side, oracle_price_lots: i64, offset: i64, limit: i64) -> (r: i64)
    ensures
        r == peg_price_spec(side, oracle_price_lots as int, offset as int, limit as int),
        r >= 1,
{
    let raw: i128 = oracle_price_lots as i128 + offset as i128;
    let lim: i128 = limit as i128;
    let held: i128 = match side {
        Side::Bid => if raw < lim {
            raw
        } else {
            lim
        },
        Side::Ask => if raw > lim {
            raw
        } else {
            lim
        },
    };
    if held < 1 {
        1
    } else if held > i64::MAX as i128 {
        i64::MAX
    } else {
        held as i64
    }
}

/// True where a resting price on `book_side` is within the limit of an
/// order coming from the other side.
pub open spec fn price_crosses(book_side: Side, resting_price: i64, limit: i64) -> bool {
    match book_side {
        Side::Bid => resting_price >= limit,
        Side::Ask => resting_price <= limit,
    }
}

/// True where price `a` is strictly better than price `b` on `side`: higher
/// for a bid, lower for an ask.
pub open spec fn price_better(side: Side, a: i64, b: i64) -> bool {
    match side {
        Side::Bid => a > b,
        Side::Ask => a < b,
    }
}

/// Price-time priority: `a` goes before `b` where its price is better, or
/// the prices are equal and it came first.
pub open spec fn better(side: Side, a: Order, b: Order) -> bool {
    price_better(side, a.price_lots, b.price_lots) || (a.price_lots == b.price_lots && a.seq_num
        < b.seq_num)
}

impl Order {
    /// Price, quantity and limit are positive.
    pub open spec fn valid(&self) -> bool {
        &&& self.price_lots >= 1
        &&& self.quantity >= 1
        &&& self.unit_lock >= 0
        &&& self.is_pegged ==> self.peg_limit >= 1
    }

    pub open spec fn is_expired(&self, now_ts: u64) -> bool {
        self.expiry_timestamp != 0 && now_ts > self.expiry_timestamp
    }

    /// True once `now_ts` is past the order's expiry.
    pub fn expired(&self, now_ts: u64) -> (r: bool)
        ensures
            r == self.is_expired(now_ts),
    {
        self.expiry_timestamp != 0 && now_ts > self.expiry_timestamp
    }

    /// The order as it stands when the oracle is at `oracle_price_lots`: a
    /// pegged order at its new price, any other unchanged.
    pub open spec fn reanchored(self, side: Side, oracle_price_lots: i64) -> Order {
        if self.is_pegged {
            Order {
                price_lots: peg_price_spec(
                    side,
                    oracle_price_lots as int,
                    self.peg_offset as int,
                    self.peg_limit as int,
                ) as i64,
                ..self
            }
        } else {
            self
        }
    }

    /// Moves a pegged order to the price the oracle gives it.
    pub fn reanchor(&self, side: Side, oracle_price_lots: i64) -> (r: Order)
        ensures
            r == self.reanchored(side, oracle_price_lots),
            self.valid() ==> r.valid(),
    {
        if self.is_pegged {
            let mut o = *self;
            o.price_lots = peg_price(side, oracle_price_lots, self.peg_offset, self.peg_limit);
            o
        } else {
            *self
        }
    }

    /// True where the resting order's price is within `limit`.
    pub fn crosses(&self, book_side: Side, limit: i64) -> (r: bool)
        ensures
            r == price_crosses(book_side, self.price_lots, limit),
    {
        match book_side {
            Side::Bid => self.price_lots >= limit,
            Side::Ask => self.price_lots <= limit,
        }
    }

    /// True where this order goes before `other` on `side`.
    pub fn goes_before(&self, side: Side, other: &Order) -> (r: bool)
        ensures
            r == better(side, *self, *other),
    {
        let by_price = match side {
            Side::Bid => self.price_lots > other.price_lots,
            Side::Ask => self.price_lots < other.price_lots,
        };
        by_price || (self.price_lots == other.price_lots && self.seq_num < other.seq_num)
    }
}

} // verus!
