use vstd::prelude::*;
use crate::address::AccountRef;
use crate::lots::{
    checked_diff, checked_i64, checked_product, checked_sum, fee_ceil, fee_ceil_spec, fee_floor,
    fee_floor_spec, fits_i64, is_rate, lemma_fee_bounds, lemma_fee_monotonic,
    lemma_fee_of_multiple, lots_to_native, FEES_SCALE_FACTOR,
};
use crate::types::Side;

verus! {

/// One market: its static parameters and its running totals.
#[derive(Clone, Copy, Debug)]
pub struct Market {
    /// Native base units in one base lot.
    pub base_lot_size: i64,
    /// Native quote units in one quote lot.
    pub quote_lot_size: i64,
    /// Fee rate charged to makers; negative where makers are paid a rebate.
    pub maker_fee: i64,
    /// Fee rate charged to takers.
    pub taker_fee: i64,
    /// The only identity that may sweep the fees.
    pub collect_fee_admin: AccountRef,
    /// Fees, in native quote units, that wait to be swept. They grow with
    /// every match and every fill applied, by the taker's fee less the
    /// maker's rebate and by the maker's fee; they fall where they are
    /// swept, and where a settlement pays a referrer out of them.
    pub fees_accrued: i64,
    /// What the accounts of the market may yet claim for referrers, in
    /// native quote units: the sum of their shares. A settlement that names
    /// a referrer pays the account's share out of the fees.
    pub referrer_rebates_accrued: i64,
    /// Next sequence number; orders and events draw their numbers here.
    pub seq_num: u64,
}

/// What one match moves, in lots and in native units.
#[derive(Clone, Copy, Debug)]
pub struct FillAmounts {
    /// Base lots traded.
    pub quantity: i64,
    /// Quote lots traded: price times quantity.
    pub quote_lots: i64,
    /// Native base units traded.
    pub base_native: i64,
    /// Native quote units traded, before fees.
    pub quote_native: i64,
    /// Fee the taker pays, in native quote units.
    pub taker_fee: i64,
    /// Fee the maker pays, in native quote units; negative for a rebate.
    pub maker_fee: i64,
}

impl FillAmounts {
    /// Change of the taker's base position, in lots.
    pub open spec fn taker_base_delta(self, taker_side: Side) -> int {
        match taker_side {
            Side::Bid => self.quantity as int,
            Side::Ask => -(self.quantity as int),
        }
    }

    /// Change of the maker's base position, in lots.
    pub open spec fn maker_base_delta(self, taker_side: Side) -> int {
        match taker_side {
            Side::Bid => -(self.quantity as int),
            Side::Ask => self.quantity as int,
        }
    }

    /// Change of the taker's quote position, in native units, fee included.
    pub open spec fn taker_quote_delta(self, taker_side: Side) -> int {
        match taker_side {
            Side::Bid => -(self.quote_native as int) - self.taker_fee,
            Side::Ask => self.quote_native as int - self.taker_fee,
        }
    }

    /// Change of the maker's quote position, in native units, fee or rebate
    /// included.
    pub open spec fn maker_quote_delta(self, taker_side: Side) -> int {
        match taker_side {
            Side::Bid => self.quote_native as int - self.maker_fee,
            Side::Ask => -(self.quote_native as int) - self.maker_fee,
        }
    }

    /// What the market's fees grow by when the match is made: the taker's fee
    /// less the maker's rebate.
    pub open spec fn fees_at_match(self) -> int {
        if self.maker_fee < 0 {
            self.taker_fee + self.maker_fee
        } else {
            self.taker_fee as int
        }
    }

    /// What the market's fees grow by when the maker's side is applied: the
    /// maker's fee, where it is one.
    pub open spec fn fees_at_consume(self) -> int {
        if self.maker_fee > 0 {
            self.maker_fee as int
        } else {
            0
        }
    }

    /// Total growth of the market's fees through the match.
    pub open spec fn fees_delta(self) -> int {
        self.fees_at_match() + self.fees_at_consume()
    }

    /// A match creates no value: what the two parties' positions gain, the
    /// one loses to the other or to the fees.
    pub proof fn lemma_value_conservation(self, taker_side: Side)
        ensures
            self.taker_base_delta(taker_side) + self.maker_base_delta(taker_side) == 0,
            self.taker_quote_delta(taker_side) + self.maker_quote_delta(taker_side)
                + self.fees_delta() == 0,
            self.fees_delta() == self.taker_fee + self.maker_fee,
    {
    }
}

impl Market {
    /// Lot sizes are positive, the taker rate lies between 0% and 100%, the
    /// maker rate is at most 100% and a maker rebate is never more than the
    /// taker fee.
    pub open spec fn params_valid(
        base_lot_size: i64,
        quote_lot_size: i64,
        maker_fee: i64,
        taker_fee: i64,
    ) -> bool {
        &&& base_lot_size > 0
        &&& quote_lot_size > 0
        &&& is_rate(taker_fee as int)
        &&& -taker_fee <= maker_fee <= FEES_SCALE_FACTOR
    }

    pub open spec fn wf(&self) -> bool {
        &&& Market::params_valid(
            self.base_lot_size,
            self.quote_lot_size,
            self.maker_fee,
            self.taker_fee,
        )
        &&& self.fees_accrued >= 0
        &&& self.referrer_rebates_accrued >= 0
    }

    /// A market with the given parameters, no fees accrued, nothing to
    /// claim for referrers and the sequence counter at zero; `None` where
    /// the parameters are not valid.
    pub fn new(
        base_lot_size: i64,
        quote_lot_size: i64,
        maker_fee: i64,
        taker_fee: i64,
        collect_fee_admin: AccountRef,
    ) -> (r: Option<Market>)
        ensures
            r.is_some() == Market::params_valid(base_lot_size, quote_lot_size, maker_fee, taker_fee),
            r matches Some(m) ==> m.wf() && m == (Market {
                base_lot_size,
                quote_lot_size,
                maker_fee,
                taker_fee,
                collect_fee_admin,
                fees_accrued: 0,
                referrer_rebates_accrued: 0,
                seq_num: 0,
            }),
    {
        if base_lot_size <= 0 || quote_lot_size <= 0 || taker_fee < 0 || taker_fee
            > FEES_SCALE_FACTOR || maker_fee > FEES_SCALE_FACTOR || maker_fee < -taker_fee {
            return None;
        }
        Some(
            Market {
                base_lot_size,
                quote_lot_size,
                maker_fee,
                taker_fee,
                collect_fee_admin,
                fees_accrued: 0,
                referrer_rebates_accrued: 0,
                seq_num: 0,
            },
        )
    }

    /// The maker's fee on `quote_native`: rounded up where the maker pays,
    /// the rebate rounded down and negated where the maker is paid.
    pub open spec fn maker_fee_spec(&self, quote_native: int) -> int {
        if self.maker_fee >= 0 {
            fee_ceil_spec(quote_native, self.maker_fee as int)
        } else {
            -fee_floor_spec(quote_native, -(self.maker_fee as int))
        }
    }

    /// The amounts that a match of `quantity` lots at `price_lots` moves.
    /// `None` where price or quantity is not positive or an amount does not
    /// fit in 64 bits.
    pub open spec fn fill_amounts_spec(&self, price_lots: int, quantity: int) -> Option<
        FillAmounts,
    > {
        let quote_lots = price_lots * quantity;
        let quote_native = quote_lots * self.quote_lot_size;
        let base_native = quantity * self.base_lot_size;
        if price_lots < 1 || quantity < 1 || !fits_i64(quote_lots) || !fits_i64(quote_native)
            || !fits_i64(base_native) {
            None
        } else {
            Some(
                FillAmounts {
                    quantity: quantity as i64,
                    quote_lots: quote_lots as i64,
                    base_native: base_native as i64,
                    quote_native: quote_native as i64,
                    taker_fee: fee_ceil_spec(quote_native, self.taker_fee as int) as i64,
                    maker_fee: self.maker_fee_spec(quote_native) as i64,
                },
            )
        }
    }

    /// Every amount of a match is bounded by the traded quote: the fees are
    /// not negative in sum, the taker's fee covers the maker's rebate, and no
    /// fee exceeds what is traded.
    pub proof fn lemma_fill_amounts(&self, price_lots: int, quantity: int)
        requires
            self.wf(),
        ensures
            self.fill_amounts_spec(price_lots, quantity) matches Some(f) ==> {
                &&& f.quantity == quantity
                &&& f.quote_lots == price_lots * quantity
                &&& f.quote_native == price_lots * quantity * self.quote_lot_size
                &&& f.base_native == quantity * self.base_lot_size
                &&& f.quote_lots >= 1
                &&& f.quote_native >= 1
                &&& f.base_native >= 1
                &&& f.taker_fee == fee_ceil_spec(f.quote_native as int, self.taker_fee as int)
                &&& f.maker_fee == self.maker_fee_spec(f.quote_native as int)
                &&& 0 <= f.taker_fee <= f.quote_native
                &&& -f.taker_fee <= f.maker_fee <= f.quote_native
                &&& f.fees_at_match() >= 0
                &&& f.fees_at_consume() >= 0
            },
    {
        if let Some(f) = self.fill_amounts_spec(price_lots, quantity) {
            let quote_lots = price_lots * quantity;
            let quote_native = quote_lots * self.quote_lot_size;
            assert(quote_lots >= 1) by (nonlinear_arith)
                requires
                    price_lots >= 1,
                    quantity >= 1,
                    quote_lots == price_lots * quantity,
            ;
            assert(quote_native >= 1) by (nonlinear_arith)
                requires
                    quote_lots >= 1,
                    self.quote_lot_size >= 1,
                    quote_native == quote_lots * self.quote_lot_size,
            ;
            assert(quantity * self.base_lot_size >= quantity) by (nonlinear_arith)
                requires
                    quantity >= 1,
                    self.base_lot_size >= 1,
            ;
            lemma_fee_bounds(quote_native, self.taker_fee as int);
            if self.maker_fee >= 0 {
                lemma_fee_bounds(quote_native, self.maker_fee as int);
            } else {
                lemma_fee_bounds(quote_native, -(self.maker_fee as int));
                lemma_fee_monotonic(
                    quote_native,
                    -(self.maker_fee as int),
                    quote_native,
                    self.taker_fee as int,
                );
            }
        }
    }

    /// Computes what a match of `quantity` lots at `price_lots` moves.
    pub fn fill_amounts(&self, price_lots: i64, quantity: i64) -> (r: Option<FillAmounts>)
        requires
            self.wf(),
        ensures
            r == self.fill_amounts_spec(price_lots as int, quantity as int),
    {
        proof {
            self.lemma_fill_amounts(price_lots as int, quantity as int);
        }
        if price_lots < 1 || quantity < 1 {
            return None;
        }
        let quote_lots = match checked_product(price_lots, quantity) {
            Some(x) => x,
            None => {
                return None;
            },
        };
        let quote_native = match lots_to_native(quote_lots, self.quote_lot_size) {
            Some(x) => x,
            None => {
                return None;
            },
        };
        let base_native = match lots_to_native(quantity, self.base_lot_size) {
            Some(x) => x,
            None => {
                return None;
            },
        };
        let taker_fee = match fee_ceil(quote_native, self.taker_fee) {
            Some(x) => x,
            None => {
                return None;
            },
        };
        let maker_fee = if self.maker_fee >= 0 {
            match fee_ceil(quote_native, self.maker_fee) {
                Some(x) => x,
                None => {
                    return None;
                },
            }
        } else {
            match fee_floor(quote_native, -self.maker_fee) {
                Some(x) => -x,
                None => {
                    return None;
                },
            }
        };
        Some(FillAmounts { quantity, quote_lots, base_native, quote_native, taker_fee, maker_fee })
    }

    /// The rate at which a resting bid reserves quote for fees: the higher of
    /// the two fee rates.
    pub open spec fn reserve_rate(&self) -> int {
        if self.maker_fee > self.taker_fee {
            self.maker_fee as int
        } else {
            self.taker_fee as int
        }
    }

    /// What one resting lot locks: for a bid the quote of one lot at
    /// `price_lots` and the fee reserve on it, in native quote units; for an
    /// ask one lot in native base units.
    pub open spec fn unit_lock_spec(&self, side: Side, price_lots: int) -> Option<i64> {
        match side {
            Side::Bid => {
                let unit = price_lots * self.quote_lot_size;
                if price_lots < 1 || !fits_i64(unit) {
                    None
                } else {
                    checked_i64(unit + fee_ceil_spec(unit, self.reserve_rate()))
                }
            },
            Side::Ask => Some(self.base_lot_size),
        }
    }

    /// Computes what one resting lot locks; `None` where the price is not
    /// positive or the amount does not fit.
    pub fn unit_lock(&self, side: Side, price_lots: i64) -> (r: Option<i64>)
        requires
            self.wf(),
        ensures
            r == self.unit_lock_spec(side, price_lots as int),
    {
        match side {
            Side::Ask => Some(self.base_lot_size),
            Side::Bid => {
                if price_lots < 1 {
                    return None;
                }
                let unit = match lots_to_native(price_lots, self.quote_lot_size) {
                    Some(x) => x,
                    None => {
                        return None;
                    },
                };
                proof {
                    assert(price_lots as int * self.quote_lot_size as int >= 1)
                        by (nonlinear_arith)
                        requires
                            price_lots >= 1,
                            self.quote_lot_size >= 1,
                    ;
                }
                let rate = if self.maker_fee > self.taker_fee {
                    self.maker_fee
                } else {
                    self.taker_fee
                };
                match fee_ceil(unit, rate) {
                    Some(fee) => checked_sum(unit, fee),
                    None => None,
                }
            },
        }
    }

    /// The quote, in native units, that a maker is handed back when `f` fills
    /// a resting order of theirs that locked `unit_lock` per lot: for a bid
    /// what it locked beyond price and fee, for an ask the quote it sold for
    /// less its fee.
    pub open spec fn maker_release_quote(maker_side: Side, f: FillAmounts, unit_lock: int) -> int {
        match maker_side {
            Side::Bid => f.quantity * unit_lock - f.quote_native - f.maker_fee,
            Side::Ask => f.quote_native - f.maker_fee,
        }
    }

    /// What a maker is handed back, free to withdraw, when `f` fills a resting
    /// order of theirs: base and quote, in native units. A bid gets the base
    /// it bought, an ask no base. `None` where the lock does not cover price
    /// and fee, or the quote does not fit.
    pub open spec fn maker_release_spec(maker_side: Side, f: FillAmounts, unit_lock: int) -> Option<
        (i64, i64),
    > {
        let quote = Market::maker_release_quote(maker_side, f, unit_lock);
        if 0 <= quote && fits_i64(quote) {
            Some(
                (
                    match maker_side {
                        Side::Bid => f.base_native,
                        Side::Ask => 0i64,
                    },
                    quote as i64,
                ),
            )
        } else {
            None
        }
    }

    /// Computes what a maker is handed back when `f` fills a resting order of
    /// theirs.
    pub fn maker_release(maker_side: Side, f: &FillAmounts, unit_lock: i64) -> (r: Option<
        (i64, i64),
    >)
        ensures
            r == Market::maker_release_spec(maker_side, *f, unit_lock as int),
    {
        match maker_side {
            Side::Bid => {
                proof {
                    crate::lots::lemma_product_fits(f.quantity as int, unit_lock as int);
                }
                let locked: i128 = (f.quantity as i128) * (unit_lock as i128);
                let left: i128 = locked - (f.quote_native as i128) - (f.maker_fee as i128);
                if left < 0 {
                    None
                } else {
                    match crate::lots::narrow(left) {
                        Some(l) => Some((f.base_native, l)),
                        None => None,
                    }
                }
            },
            Side::Ask => {
                match checked_diff(f.quote_native, f.maker_fee) {
                    Some(got) => if got >= 0 {
                        Some((0, got))
                    } else {
                        None
                    },
                    None => None,
                }
            },
        }
    }

    /// The lock of a resting order always covers a fill at or under the price
    /// it was locked at: the maker is never left with a negative release.
    pub proof fn lemma_lock_covers_fill(
        &self,
        maker_side: Side,
        lock_price: int,
        price_lots: int,
        quantity: int,
    )
        requires
            self.wf(),
            1 <= price_lots <= lock_price,
            self.unit_lock_spec(maker_side, lock_price).is_some(),
            self.fill_amounts_spec(price_lots, quantity).is_some(),
        ensures
            Market::maker_release_quote(
                maker_side,
                self.fill_amounts_spec(price_lots, quantity).unwrap(),
                self.unit_lock_spec(maker_side, lock_price).unwrap() as int,
            ) >= 0,
    {
        let f = self.fill_amounts_spec(price_lots, quantity).unwrap();
        let lock = self.unit_lock_spec(maker_side, lock_price).unwrap() as int;
        self.lemma_fill_amounts(price_lots, quantity);
        match maker_side {
            Side::Ask => {},
            Side::Bid => {
                let qls = self.quote_lot_size as int;
                let unit = lock_price * qls;
                let rate = self.reserve_rate();
                let reserve = fee_ceil_spec(unit, rate);
                let qn = f.quote_native as int;
                assert(unit >= 1) by (nonlinear_arith)
                    requires
                        lock_price >= 1,
                        qls >= 1,
                        unit == lock_price * qls,
                ;
                assert(qn == quantity * (price_lots * qls)) by (nonlinear_arith)
                    requires
                        qn == price_lots * quantity * qls,
                ;
                assert(qn <= quantity * unit) by (nonlinear_arith)
                    requires
                        qn == quantity * (price_lots * qls),
                        unit == lock_price * qls,
                        price_lots <= lock_price,
                        quantity >= 1,
                        qls >= 1,
                ;
                lemma_fee_of_multiple(quantity, unit, rate);
                let fee_cap = fee_ceil_spec(quantity * unit, rate);
                assert(quantity * lock == quantity * unit + quantity * reserve)
                    by (nonlinear_arith)
                    requires
                        lock == unit + reserve,
                ;
                if self.maker_fee >= 0 {
                    lemma_fee_monotonic(qn, self.maker_fee as int, quantity * unit, rate);
                } else {
                    lemma_fee_bounds(unit, rate);
                    assert(quantity * reserve >= 0) by (nonlinear_arith)
                        requires
                            quantity >= 1,
                            reserve >= 0,
                    ;
                }
                let left = quantity * lock - qn - f.maker_fee;
                assert(0 <= left);
            },
        }
    }
}

} // verus!
