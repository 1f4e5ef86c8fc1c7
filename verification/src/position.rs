use vstd::prelude::*;
use crate::address::AccountRef;
use crate::event_queue::{FillEvent, OutEvent};
use crate::lots::{
    fits_i64, lemma_product_fits, narrow, narrow_nonneg, nonneg_i64, referrer_share,
    referrer_share_spec,
};
use crate::types::Side;

verus! {

/// What one open-orders account holds in one market.
#[derive(Clone, Copy, Debug, PartialEq, Eq, Structural)]
pub struct Position {
    /// Base lots that rest on the bid side.
    pub bids_base_lots: i64,
    /// Base lots that rest on the ask side.
    pub asks_base_lots: i64,
    /// Net base lots traded and settled.
    pub base_position_lots: i64,
    /// Net native quote units traded and settled, fees included.
    pub quote_position_native: i64,
    /// Base lots taken and not yet folded into the position: bought lots
    /// count up, sold lots down.
    pub taker_base_lots: i64,
    /// Quote lots taken and not yet folded into the position: lots received
    /// count up, lots paid down.
    pub taker_quote_lots: i64,
    /// Native base units free to withdraw.
    pub base_free_native: i64,
    /// Native quote units free to withdraw.
    pub quote_free_native: i64,
    /// What a referrer may claim at the next settlement: of each taker fee
    /// charged to the account since the last one, the referrers' part.
    pub referrer_rebates_available: i64,
}

/// What a placement took from the book, summed over its fills.
#[derive(Clone, Copy, Debug, PartialEq, Eq, Structural)]
pub struct TakerTotals {
    pub base_lots: i64,
    pub quote_lots: i64,
    pub base_native: i64,
    pub quote_native: i64,
    /// Fees charged to the taker.
    pub taker_fees: i64,
    /// What the market's fees grew by: taker fees less maker rebates.
    pub fees_to_market: i64,
}

/// An open-orders account: who it belongs to and what it holds.
#[derive(Clone, Copy, Debug)]
pub struct OpenOrdersAccount {
    /// The account's own address; orders and events name their owner by it.
    pub address: AccountRef,
    /// The wallet that may act for the account.
    pub owner: AccountRef,
    pub position: Position,
}

impl TakerTotals {
    pub open spec fn zero() -> TakerTotals {
        TakerTotals {
            base_lots: 0,
            quote_lots: 0,
            base_native: 0,
            quote_native: 0,
            taker_fees: 0,
            fees_to_market: 0,
        }
    }

    /// Nothing taken.
    pub fn none() -> (r: TakerTotals)
        ensures
            r == TakerTotals::zero(),
    {
        TakerTotals {
            base_lots: 0,
            quote_lots: 0,
            base_native: 0,
            quote_native: 0,
            taker_fees: 0,
            fees_to_market: 0,
        }
    }
}

impl FillEvent {
    /// Change of the maker's base position, in lots.
    pub open spec fn maker_base_delta(self) -> int {
        match self.taker_side {
            Side::Bid => -(self.quantity as int),
            Side::Ask => self.quantity as int,
        }
    }

    /// Change of the maker's quote position, in native units.
    pub open spec fn maker_quote_delta(self) -> int {
        match self.taker_side {
            Side::Bid => self.quote_native as int - self.maker_fee,
            Side::Ask => -(self.quote_native as int) - self.maker_fee,
        }
    }

    /// Change of the taker's base position, in lots.
    pub open spec fn taker_base_delta(self) -> int {
        match self.taker_side {
            Side::Bid => self.quantity as int,
            Side::Ask => -(self.quantity as int),
        }
    }

    /// Change of the taker's quote position, in native units.
    pub open spec fn taker_quote_delta(self) -> int {
        match self.taker_side {
            Side::Bid => -(self.quote_native as int) - self.taker_fee,
            Side::Ask => self.quote_native as int - self.taker_fee,
        }
    }

    /// What the event adds to the market's fees when it is applied: the
    /// maker's fee, where it is one.
    pub open spec fn fees_at_consume(self) -> int {
        if self.maker_fee > 0 {
            self.maker_fee as int
        } else {
            0
        }
    }

    /// What the match added to the market's fees when it was made.
    pub open spec fn fees_at_match(self) -> int {
        if self.maker_fee < 0 {
            self.taker_fee + self.maker_fee
        } else {
            self.taker_fee as int
        }
    }

    /// A fill creates no value: the base that one party gains the other
    /// loses, and the quote that the two parties lose between them is what
    /// the market's fees gain, at the match and when the event is applied.
    pub proof fn lemma_value_conservation(self)
        ensures
            self.taker_base_delta() + self.maker_base_delta() == 0,
            self.taker_quote_delta() + self.maker_quote_delta() + self.fees_at_match()
                + self.fees_at_consume() == 0,
            self.fees_at_match() + self.fees_at_consume() == self.taker_fee + self.maker_fee,
    {
    }
}

impl Position {
    pub open spec fn zero() -> Position {
        Position {
            bids_base_lots: 0,
            asks_base_lots: 0,
            base_position_lots: 0,
            quote_position_native: 0,
            taker_base_lots: 0,
            taker_quote_lots: 0,
            base_free_native: 0,
            quote_free_native: 0,
            referrer_rebates_available: 0,
        }
    }

    /// Reserved lots, free balances and the referrer's share are never
    /// negative.
    pub open spec fn wf(&self) -> bool {
        &&& self.bids_base_lots >= 0
        &&& self.asks_base_lots >= 0
        &&& self.base_free_native >= 0
        &&& self.quote_free_native >= 0
        &&& self.referrer_rebates_available >= 0
    }

    /// A position that holds nothing.
    pub fn new() -> (r: Position)
        ensures
            r == Position::zero(),
            r.wf(),
    {
        Position {
            bids_base_lots: 0,
            asks_base_lots: 0,
            base_position_lots: 0,
            quote_position_native: 0,
            taker_base_lots: 0,
            taker_quote_lots: 0,
            base_free_native: 0,
            quote_free_native: 0,
            referrer_rebates_available: 0,
        }
    }

    /// The position after `base` and `quote` native units were paid in.
    /// `None` for a negative amount or a balance that would not fit.
    pub open spec fn deposit_spec(self, base: i64, quote: i64) -> Option<Position> {
        if base >= 0 && quote >= 0 && fits_i64(self.base_free_native + base) && fits_i64(
            self.quote_free_native + quote,
        ) {
            Some(
                Position {
                    base_free_native: (self.base_free_native + base) as i64,
                    quote_free_native: (self.quote_free_native + quote) as i64,
                    ..self
                },
            )
        } else {
            None
        }
    }

    /// Adds a deposit to the free balances.
    pub fn deposit(&self, base: i64, quote: i64) -> (r: Option<Position>)
        requires
            self.wf(),
        ensures
            r == self.deposit_spec(base, quote),
            r matches Some(p) ==> p.wf(),
    {
        if base < 0 || quote < 0 {
            return None;
        }
        let b = match narrow(self.base_free_native as i128 + base as i128) {
            Some(v) => v,
            None => {
                return None;
            },
        };
        let q = match narrow(self.quote_free_native as i128 + quote as i128) {
            Some(v) => v,
            None => {
                return None;
            },
        };
        let mut p = *self;
        p.base_free_native = b;
        p.quote_free_native = q;
        Some(p)
    }

    /// The position of a maker after the fill `e` was applied: the resting
    /// lots shrink, the position moves by the trade and the maker's fee, and
    /// the free balances grow by what the event hands back. `None` where
    /// fewer lots rest than the event fills, the event would take from a
    /// free balance, or an amount does not fit.
    pub open spec fn maker_fill_spec(self, e: FillEvent) -> Option<Position> {
        let maker_bid = e.taker_side == Side::Ask;
        let bids = self.bids_base_lots - (if maker_bid {
            e.quantity as int
        } else {
            0
        });
        let asks = self.asks_base_lots - (if maker_bid {
            0
        } else {
            e.quantity as int
        });
        let base_position = self.base_position_lots + e.maker_base_delta();
        let quote_position = self.quote_position_native + e.maker_quote_delta();
        let base_free = self.base_free_native + e.maker_base_free;
        let quote_free = self.quote_free_native + e.maker_quote_free;
        if e.quantity >= 0 && e.maker_base_free >= 0 && e.maker_quote_free >= 0 && nonneg_i64(
            bids,
        ).is_some() && nonneg_i64(asks).is_some() && fits_i64(base_position) && fits_i64(
            quote_position,
        ) && fits_i64(base_free) && fits_i64(quote_free) {
            Some(
                Position {
                    bids_base_lots: bids as i64,
                    asks_base_lots: asks as i64,
                    base_position_lots: base_position as i64,
                    quote_position_native: quote_position as i64,
                    base_free_native: base_free as i64,
                    quote_free_native: quote_free as i64,
                    ..self
                },
            )
        } else {
            None
        }
    }

    /// Applies a fill to the maker's position.
    pub fn apply_maker_fill(&self, e: &FillEvent) -> (r: Option<Position>)
        requires
            self.wf(),
        ensures
            r == self.maker_fill_spec(*e),
            r matches Some(p) ==> p.wf(),
    {
        if e.quantity < 0 || e.maker_base_free < 0 || e.maker_quote_free < 0 {
            return None;
        }
        let maker_bid = match e.taker_side {
            Side::Ask => true,
            Side::Bid => false,
        };
        let q: i128 = e.quantity as i128;
        let (bids_raw, asks_raw, base_raw, quote_raw): (i128, i128, i128, i128) = if maker_bid {
            (
                self.bids_base_lots as i128 - q,
                self.asks_base_lots as i128,
                self.base_position_lots as i128 + q,
                self.quote_position_native as i128 - e.quote_native as i128 - e.maker_fee as i128,
            )
        } else {
            (
                self.bids_base_lots as i128,
                self.asks_base_lots as i128 - q,
                self.base_position_lots as i128 - q,
                self.quote_position_native as i128 + e.quote_native as i128 - e.maker_fee as i128,
            )
        };
        let bids = match narrow_nonneg(bids_raw) {
            Some(v) => v,
            None => {
                return None;
            },
        };
        let asks = match narrow_nonneg(asks_raw) {
            Some(v) => v,
            None => {
                return None;
            },
        };
        let base_position = match narrow(base_raw) {
            Some(v) => v,
            None => {
                return None;
            },
        };
        let quote_position = match narrow(quote_raw) {
            Some(v) => v,
            None => {
                return None;
            },
        };
        let base_free = match narrow(self.base_free_native as i128 + e.maker_base_free as i128) {
            Some(v) => v,
            None => {
                return None;
            },
        };
        let quote_free = match narrow(self.quote_free_native as i128 + e.maker_quote_free as i128) {
            Some(v) => v,
            None => {
                return None;
            },
        };
        let mut p = *self;
        p.bids_base_lots = bids;
        p.asks_base_lots = asks;
        p.base_position_lots = base_position;
        p.quote_position_native = quote_position;
        p.base_free_native = base_free;
        p.quote_free_native = quote_free;
        Some(p)
    }

    /// The position of an owner after lots of theirs left the book untraded:
    /// the resting lots shrink and what they locked is free again. `None`
    /// where fewer lots rest than went out, the event would take from a free
    /// balance, or an amount does not fit.
    pub open spec fn out_spec(self, e: OutEvent) -> Option<Position> {
        let bids = self.bids_base_lots - (if e.side == Side::Bid {
            e.quantity as int
        } else {
            0
        });
        let asks = self.asks_base_lots - (if e.side == Side::Bid {
            0
        } else {
            e.quantity as int
        });
        let base_free = self.base_free_native + e.base_free;
        let quote_free = self.quote_free_native + e.quote_free;
        if e.quantity >= 0 && e.base_free >= 0 && e.quote_free >= 0 && nonneg_i64(bids).is_some()
            && nonneg_i64(asks).is_some() && fits_i64(base_free) && fits_i64(quote_free) {
            Some(
                Position {
                    bids_base_lots: bids as i64,
                    asks_base_lots: asks as i64,
                    base_free_native: base_free as i64,
                    quote_free_native: quote_free as i64,
                    ..self
                },
            )
        } else {
            None
        }
    }

    /// Applies to the owner's position that lots of theirs left the book.
    pub fn apply_out(&self, e: &OutEvent) -> (r: Option<Position>)
        requires
            self.wf(),
        ensures
            r == self.out_spec(*e),
            r matches Some(p) ==> p.wf(),
    {
        if e.quantity < 0 || e.base_free < 0 || e.quote_free < 0 {
            return None;
        }
        let q: i128 = e.quantity as i128;
        let (bids_raw, asks_raw): (i128, i128) = match e.side {
            Side::Bid => (self.bids_base_lots as i128 - q, self.asks_base_lots as i128),
            Side::Ask => (self.bids_base_lots as i128, self.asks_base_lots as i128 - q),
        };
        let bids = match narrow_nonneg(bids_raw) {
            Some(v) => v,
            None => {
                return None;
            },
        };
        let asks = match narrow_nonneg(asks_raw) {
            Some(v) => v,
            None => {
                return None;
            },
        };
        let base_free = match narrow(self.base_free_native as i128 + e.base_free as i128) {
            Some(v) => v,
            None => {
                return None;
            },
        };
        let quote_free = match narrow(self.quote_free_native as i128 + e.quote_free as i128) {
            Some(v) => v,
            None => {
                return None;
            },
        };
        let mut p = *self;
        p.bids_base_lots = bids;
        p.asks_base_lots = asks;
        p.base_free_native = base_free;
        p.quote_free_native = quote_free;
        Some(p)
    }

    /// What the placement has to pay in: for a bid the quote it took, the
    /// fee on it and what the rest locks; for an ask the base it sold and
    /// what the rest locks.
    pub open spec fn taker_cost(side: Side, t: TakerTotals, posted_lock: i64) -> int {
        match side {
            Side::Bid => t.quote_native + t.taker_fees + posted_lock,
            Side::Ask => t.base_native + posted_lock,
        }
    }

    /// The position of a taker after a placement that took `t` from the
    /// book and left `posted_lots` lots resting, which lock `posted_lock`
    /// native units; with it the native amount that has to be paid in from
    /// outside, in the currency the side pays with: all that the placement
    /// costs, for the free balances are only ever paid out by a settlement.
    /// What was bought or received is free at once; the fee is charged at
    /// once; the lots taken wait to be folded into the position. `None`
    /// where an amount is negative or does not fit.
    pub open spec fn taker_spec(
        self,
        side: Side,
        t: TakerTotals,
        posted_lots: i64,
        posted_lock: i64,
    ) -> Option<(Position, i64)> {
        let is_bid = side == Side::Bid;
        let cost = Position::taker_cost(side, t, posted_lock);
        let base_free = if is_bid {
            self.base_free_native + t.base_native
        } else {
            self.base_free_native as int
        };
        let quote_free = if is_bid {
            self.quote_free_native as int
        } else {
            self.quote_free_native + t.quote_native - t.taker_fees
        };
        let taker_base = if is_bid {
            self.taker_base_lots + t.base_lots
        } else {
            self.taker_base_lots - t.base_lots
        };
        let taker_quote = if is_bid {
            self.taker_quote_lots - t.quote_lots
        } else {
            self.taker_quote_lots + t.quote_lots
        };
        let quote_position = self.quote_position_native - t.taker_fees;
        let bids = self.bids_base_lots + (if is_bid {
            posted_lots as int
        } else {
            0
        });
        let asks = self.asks_base_lots + (if is_bid {
            0
        } else {
            posted_lots as int
        });
        let rebates = self.referrer_rebates_available + referrer_share_spec(t.taker_fees as int);
        if t.base_lots >= 0 && t.quote_lots >= 0 && t.base_native >= 0 && t.quote_native >= 0 && 0
            <= t.taker_fees <= t.quote_native && posted_lots >= 0 && posted_lock >= 0 && fits_i64(
            cost,
        ) && fits_i64(base_free) && fits_i64(quote_free) && fits_i64(taker_base) && fits_i64(
            taker_quote,
        ) && fits_i64(quote_position) && fits_i64(bids) && fits_i64(asks) && fits_i64(rebates) {
            Some(
                (
                    Position {
                        bids_base_lots: bids as i64,
                        asks_base_lots: asks as i64,
                        base_position_lots: self.base_position_lots,
                        quote_position_native: quote_position as i64,
                        taker_base_lots: taker_base as i64,
                        taker_quote_lots: taker_quote as i64,
                        base_free_native: base_free as i64,
                        quote_free_native: quote_free as i64,
                        referrer_rebates_available: rebates as i64,
                    },
                    cost as i64,
                ),
            )
        } else {
            None
        }
    }

    /// Applies a placement to the taker's position and says what has to be
    /// paid in.
    pub fn apply_taker(&self, side: Side, t: &TakerTotals, posted_lots: i64, posted_lock: i64) -> (r:
        Option<(Position, i64)>)
        requires
            self.wf(),
        ensures
            r == self.taker_spec(side, *t, posted_lots, posted_lock),
            r matches Some((p, deposit)) ==> p.wf() && deposit >= 0,
    {
        if t.base_lots < 0 || t.quote_lots < 0 || t.base_native < 0 || t.quote_native < 0
            || t.taker_fees < 0 || t.taker_fees > t.quote_native || posted_lots < 0 || posted_lock
            < 0 {
            return None;
        }
        let is_bid = match side {
            Side::Bid => true,
            Side::Ask => false,
        };
        let cost_raw: i128 = if is_bid {
            t.quote_native as i128 + t.taker_fees as i128 + posted_lock as i128
        } else {
            t.base_native as i128 + posted_lock as i128
        };
        let cost = match narrow(cost_raw) {
            Some(v) => v,
            None => {
                return None;
            },
        };
        let base_free_raw: i128 = if is_bid {
            self.base_free_native as i128 + t.base_native as i128
        } else {
            self.base_free_native as i128
        };
        let quote_free_raw: i128 = if is_bid {
            self.quote_free_native as i128
        } else {
            self.quote_free_native as i128 + t.quote_native as i128 - t.taker_fees as i128
        };
        let taker_base_raw: i128 = if is_bid {
            self.taker_base_lots as i128 + t.base_lots as i128
        } else {
            self.taker_base_lots as i128 - t.base_lots as i128
        };
        let taker_quote_raw: i128 = if is_bid {
            self.taker_quote_lots as i128 - t.quote_lots as i128
        } else {
            self.taker_quote_lots as i128 + t.quote_lots as i128
        };
        let (bids_raw, asks_raw): (i128, i128) = if is_bid {
            (self.bids_base_lots as i128 + posted_lots as i128, self.asks_base_lots as i128)
        } else {
            (self.bids_base_lots as i128, self.asks_base_lots as i128 + posted_lots as i128)
        };
        let base_free = match narrow(base_free_raw) {
            Some(v) => v,
            None => {
                return None;
            },
        };
        let quote_free = match narrow(quote_free_raw) {
            Some(v) => v,
            None => {
                return None;
            },
        };
        let taker_base = match narrow(taker_base_raw) {
            Some(v) => v,
            None => {
                return None;
            },
        };
        let taker_quote = match narrow(taker_quote_raw) {
            Some(v) => v,
            None => {
                return None;
            },
        };
        let quote_position = match narrow(
            self.quote_position_native as i128 - t.taker_fees as i128,
        ) {
            Some(v) => v,
            None => {
                return None;
            },
        };
        let bids = match narrow(bids_raw) {
            Some(v) => v,
            None => {
                return None;
            },
        };
        let asks = match narrow(asks_raw) {
            Some(v) => v,
            None => {
                return None;
            },
        };
        let rebates = match narrow(
            self.referrer_rebates_available as i128 + referrer_share(t.taker_fees) as i128,
        ) {
            Some(v) => v,
            None => {
                return None;
            },
        };
        Some(
            (
                Position {
                    bids_base_lots: bids,
                    asks_base_lots: asks,
                    base_position_lots: self.base_position_lots,
                    quote_position_native: quote_position,
                    taker_base_lots: taker_base,
                    taker_quote_lots: taker_quote,
                    base_free_native: base_free,
                    quote_free_native: quote_free,
                    referrer_rebates_available: rebates,
                },
                cost,
            ),
        )
    }

    /// The position after the lots taken were folded into it: base lots as
    /// they are, quote lots in native units. `None` where an amount does not
    /// fit.
    pub open spec fn taker_settled_spec(self, quote_lot_size: i64) -> Option<Position> {
        let base_position = self.base_position_lots + self.taker_base_lots;
        let quote_position = self.quote_position_native + self.taker_quote_lots * quote_lot_size;
        if fits_i64(base_position) && fits_i64(quote_position) {
            Some(
                Position {
                    base_position_lots: base_position as i64,
                    quote_position_native: quote_position as i64,
                    taker_base_lots: 0,
                    taker_quote_lots: 0,
                    ..self
                },
            )
        } else {
            None
        }
    }

    /// Folds the lots taken into the position.
    pub fn settle_taker_fills(&self, quote_lot_size: i64) -> (r: Option<Position>)
        requires
            self.wf(),
        ensures
            r == self.taker_settled_spec(quote_lot_size),
            r matches Some(p) ==> p.wf(),
    {
        proof {
            lemma_product_fits(self.taker_quote_lots as int, quote_lot_size as int);
        }
        let base_position = match narrow(
            self.base_position_lots as i128 + self.taker_base_lots as i128,
        ) {
            Some(v) => v,
            None => {
                return None;
            },
        };
        let quote_position = match narrow(
            self.quote_position_native as i128 + (self.taker_quote_lots as i128) * (
            quote_lot_size as i128),
        ) {
            Some(v) => v,
            None => {
                return None;
            },
        };
        let mut p = *self;
        p.base_position_lots = base_position;
        p.quote_position_native = quote_position;
        p.taker_base_lots = 0;
        p.taker_quote_lots = 0;
        Some(p)
    }

    /// The position with nothing free to withdraw and nothing for a
    /// referrer to claim.
    pub open spec fn withdrawn(self) -> Position {
        Position {
            base_free_native: 0,
            quote_free_native: 0,
            referrer_rebates_available: 0,
            ..self
        }
    }
}

/// Index of the first account of `accounts` whose address is `address`.
pub fn find_account(accounts: &Vec<OpenOrdersAccount>, address: &AccountRef) -> (r: Option<usize>)
    ensures
        r == first_account(accounts@, *address),
        r matches Some(i) ==> i < accounts@.len() && accounts@[i as int].address == *address,
{
    let mut i: usize = 0;
    while i < accounts.len()
        invariant
            i <= accounts@.len(),
            forall|j: int| 0 <= j < i ==> (#[trigger] accounts@[j]).address != *address,
            first_account(accounts@, *address) == first_account_from(accounts@, *address, i as int),
        decreases accounts@.len() - i,
    {
        if accounts[i].address == *address {
            return Some(i);
        }
        i += 1;
    }
    None
}

/// Index of the first account at or after `from` whose address is `address`.
pub open spec fn first_account_from(s: Seq<OpenOrdersAccount>, address: AccountRef, from: int) -> Option<
    usize,
>
    decreases s.len() - from,
{
    if from < 0 || from >= s.len() {
        None
    } else if s[from].address == address {
        Some(from as usize)
    } else {
        first_account_from(s, address, from + 1)
    }
}

/// Index of the first account whose address is `address`.
pub open spec fn first_account(s: Seq<OpenOrdersAccount>, address: AccountRef) -> Option<usize> {
    first_account_from(s, address, 0)
}

/// What the first `n` accounts may together claim for referrers.
pub open spec fn claims_upto(s: Seq<OpenOrdersAccount>, n: int) -> int
    decreases n,
{
    if n <= 0 {
        0
    } else {
        claims_upto(s, n - 1) + s[n - 1].position.referrer_rebates_available
    }
}

/// What the accounts may together claim for referrers.
pub open spec fn claims(s: Seq<OpenOrdersAccount>) -> int {
    claims_upto(s, s.len() as int)
}

/// Accounts with the same shares claim the same.
pub proof fn lemma_claims_same(a: Seq<OpenOrdersAccount>, b: Seq<OpenOrdersAccount>, n: int)
    requires
        0 <= n <= a.len(),
        n <= b.len(),
        forall|i: int|
            0 <= i < n ==> (#[trigger] a[i]).position.referrer_rebates_available
                == b[i].position.referrer_rebates_available,
    ensures
        claims_upto(a, n) == claims_upto(b, n),
    decreases n,
{
    if n > 0 {
        lemma_claims_same(a, b, n - 1);
    }
}

/// Another share for one account changes the claims by the difference.
pub proof fn lemma_claims_update(s: Seq<OpenOrdersAccount>, k: int, account: OpenOrdersAccount, n: int)
    requires
        0 <= k < s.len(),
        0 <= n <= s.len(),
    ensures
        claims_upto(s.update(k, account), n) == claims_upto(s, n) + (if k < n {
            account.position.referrer_rebates_available
                - s[k].position.referrer_rebates_available
        } else {
            0
        }),
    decreases n,
{
    if n > 0 {
        lemma_claims_update(s, k, account, n - 1);
    }
}

/// One more account adds its share to the claims.
pub proof fn lemma_claims_push(s: Seq<OpenOrdersAccount>, account: OpenOrdersAccount)
    ensures
        claims(s.push(account)) == claims(s) + account.position.referrer_rebates_available,
{
    lemma_claims_same(s.push(account), s, s.len() as int);
}

/// Where no share is negative, no account claims more than all together.
pub proof fn lemma_claims_cover(s: Seq<OpenOrdersAccount>, k: int, n: int)
    requires
        accounts_ok(s),
        0 <= n <= s.len(),
    ensures
        claims_upto(s, n) >= 0,
        0 <= k < n ==> s[k].position.referrer_rebates_available <= claims_upto(s, n),
    decreases n,
{
    if n > 0 {
        lemma_claims_cover(s, k, n - 1);
    }
}

/// Every account is well-formed.
pub open spec fn accounts_ok(s: Seq<OpenOrdersAccount>) -> bool {
    forall|i: int| 0 <= i < s.len() ==> (#[trigger] s[i]).position.wf()
}

} // verus!
