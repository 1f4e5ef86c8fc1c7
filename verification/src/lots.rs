use vstd::prelude::*;

verus! {

/// Fee rates are fixed-point numbers with six decimal digits: a rate of
/// `FEES_SCALE_FACTOR` is 100%.
pub const FEES_SCALE_FACTOR: i64 = 1_000_000;

/// Of the taker fee that a placement is charged, one part in this many is
/// a referrer's, where the taker's settlement names one.
pub const REFERRER_REBATE_DIVISOR: i64 = 5;

pub open spec fn fits_i64(x: int) -> bool {
    i64::MIN <= x <= i64::MAX
}

/// `x` as a machine integer, where it is one.
pub open spec fn checked_i64(x: int) -> Option<i64> {
    if fits_i64(x) {
        Some(x as i64)
    } else {
        None
    }
}

/// The product of two 64-bit integers always fits in 128 bits.
pub proof fn lemma_product_fits(a: int, b: int)
    requires
        fits_i64(a),
        fits_i64(b),
    ensures
        -0x4000_0000_0000_0000_0000_0000_0000_0000 <= a * b
            <= 0x4000_0000_0000_0000_0000_0000_0000_0000,
{
    assert(-0x4000_0000_0000_0000_0000_0000_0000_0000 <= a * b
        <= 0x4000_0000_0000_0000_0000_0000_0000_0000) by (nonlinear_arith)
        requires
            -0x8000_0000_0000_0000 <= a <= 0x8000_0000_0000_0000,
            -0x8000_0000_0000_0000 <= b <= 0x8000_0000_0000_0000,
    ;
}

pub fn narrow(x: i128) -> (r: Option<i64>)
    ensures
        r == checked_i64(x as int),
{
    if x < i64::MIN as i128 || x > i64::MAX as i128 {
        None
    } else {
        Some(x as i64)
    }
}

/// Sum that reports overflow instead of wrapping.
pub fn checked_sum(a: i64, b: i64) -> (r: Option<i64>)
    ensures
        r == checked_i64(a + b),
{
    narrow(a as i128 + b as i128)
}

/// Difference that reports overflow instead of wrapping.
pub fn checked_diff(a: i64, b: i64) -> (r: Option<i64>)
    ensures
        r == checked_i64(a - b),
{
    narrow(a as i128 - b as i128)
}

/// Product that reports overflow instead of wrapping.
pub fn checked_product(a: i64, b: i64) -> (r: Option<i64>)
    ensures
        r == checked_i64(a * b),
{
    proof {
        lemma_product_fits(a as int, b as int);
    }
    narrow((a as i128) * (b as i128))
}

/// Native amount of `lots` lots of `lot_size` native units each.
pub open spec fn lots_to_native_spec(lots: int, lot_size: int) -> Option<i64> {
    checked_i64(lots * lot_size)
}

/// Converts a quantity in lots into native units; `None` where the amount
/// does not fit.
pub fn lots_to_native(lots: i64, lot_size: i64) -> (r: Option<i64>)
    ensures
        r == lots_to_native_spec(lots as int, lot_size as int),
{
    checked_product(lots, lot_size)
}

/// The lots that a native amount is, where it is a whole number of them.
pub open spec fn native_to_lots_spec(native: int, lot_size: int) -> Option<i64> {
    if lot_size > 0 && native >= 0 && native % lot_size == 0 && fits_i64(native / lot_size) {
        Some((native / lot_size) as i64)
    } else {
        None
    }
}

/// Converts a native amount into lots. `None` for a negative amount, a lot
/// size that is not positive, or an amount that is not a multiple of the lot
/// size.
pub fn native_to_lots(native: i64, lot_size: i64) -> (r: Option<i64>)
    ensures
        r == native_to_lots_spec(native as int, lot_size as int),
        r matches Some(l) ==> l * lot_size == native,
{
    if lot_size <= 0 || native < 0 {
        return None;
    }
    if native % lot_size != 0 {
        return None;
    }
    let l: i64 = native / lot_size;
    proof {
        assert(0 <= native as int / lot_size as int <= native) by (nonlinear_arith)
            requires
                native >= 0,
                lot_size > 0,
        ;
        assert(l * lot_size == native) by (nonlinear_arith)
            requires
                l == native as int / lot_size as int,
                native as int % lot_size as int == 0,
                lot_size > 0,
        ;
    }
    Some(l)
}

/// The whole lots contained in a native amount.
pub open spec fn native_to_lots_floor_spec(native: int, lot_size: int) -> Option<i64> {
    if lot_size > 0 && native >= 0 {
        Some((native / lot_size) as i64)
    } else {
        None
    }
}

/// Converts a native amount into lots, rounding down. `None` for a negative
/// amount or a lot size that is not positive.
pub fn native_to_lots_floor(native: i64, lot_size: i64) -> (r: Option<i64>)
    ensures
        r == native_to_lots_floor_spec(native as int, lot_size as int),
        r matches Some(l) ==> 0 <= l && l * lot_size <= native < (l + 1) * lot_size,
{
    if lot_size <= 0 || native < 0 {
        return None;
    }
    let l: i64 = native / lot_size;
    proof {
        let n = native as int;
        let s = lot_size as int;
        assert(0 <= n / s && (n / s) * s <= n < (n / s + 1) * s) by (nonlinear_arith)
            requires
                n >= 0,
                s > 0,
        ;
    }
    Some(l)
}

/// `amount * rate / FEES_SCALE_FACTOR`, rounded up.
pub open spec fn fee_ceil_spec(amount: int, rate: int) -> int {
    (amount * rate + FEES_SCALE_FACTOR - 1) / (FEES_SCALE_FACTOR as int)
}

/// `amount * rate / FEES_SCALE_FACTOR`, rounded down.
pub open spec fn fee_floor_spec(amount: int, rate: int) -> int {
    (amount * rate) / (FEES_SCALE_FACTOR as int)
}

/// True where `rate` is a fee rate between 0% and 100%.
pub open spec fn is_rate(rate: int) -> bool {
    0 <= rate <= FEES_SCALE_FACTOR
}

/// A fee rounded up lies between the fee rounded down and the amount it is
/// charged on, and is never under the exact fee.
pub proof fn lemma_fee_bounds(amount: int, rate: int)
    requires
        amount >= 0,
        is_rate(rate),
    ensures
        0 <= fee_floor_spec(amount, rate) <= fee_ceil_spec(amount, rate) <= amount,
        fee_floor_spec(amount, rate) * FEES_SCALE_FACTOR <= amount * rate,
        amount * rate <= fee_ceil_spec(amount, rate) * FEES_SCALE_FACTOR,
        fee_ceil_spec(amount, rate) <= fee_floor_spec(amount, rate) + 1,
{
    let s: int = FEES_SCALE_FACTOR as int;
    let p: int = amount * rate;
    assert(0 <= p <= amount * s) by (nonlinear_arith)
        requires
            amount >= 0,
            0 <= rate <= s,
            p == amount * rate,
    ;
    let f = p / s;
    let c = (p + s - 1) / s;
    assert(0 <= f && f * s <= p < (f + 1) * s) by (nonlinear_arith)
        requires
            p >= 0,
            s > 0,
            f == p / s,
    ;
    assert(c * s <= p + s - 1 < (c + 1) * s) by (nonlinear_arith)
        requires
            p + s - 1 >= 0,
            s > 0,
            c == (p + s - 1) / s,
    ;
    assert(f <= c <= f + 1 && p <= c * s && c <= amount) by (nonlinear_arith)
        requires
            f * s <= p < (f + 1) * s,
            c * s <= p + s - 1 < (c + 1) * s,
            p <= amount * s,
            s > 0,
    ;
}

/// A fee grows with the amount and with the rate.
pub proof fn lemma_fee_monotonic(a1: int, r1: int, a2: int, r2: int)
    requires
        0 <= a1 <= a2,
        0 <= r1 <= r2,
    ensures
        fee_ceil_spec(a1, r1) <= fee_ceil_spec(a2, r2),
        fee_floor_spec(a1, r1) <= fee_floor_spec(a2, r2),
        fee_floor_spec(a1, r1) <= fee_ceil_spec(a2, r2),
{
    let s: int = FEES_SCALE_FACTOR as int;
    let p1 = a1 * r1;
    let p2 = a2 * r2;
    assert(0 <= p1 <= p2) by (nonlinear_arith)
        requires
            0 <= a1 <= a2,
            0 <= r1 <= r2,
            p1 == a1 * r1,
            p2 == a2 * r2,
    ;
    assert((p1 + s - 1) / s <= (p2 + s - 1) / s && p1 / s <= p2 / s && p1 / s <= (p2 + s - 1) / s)
        by (nonlinear_arith)
        requires
            0 <= p1 <= p2,
            s > 0,
    ;
}

/// The fee on `q` units together is at most `q` times the fee on one unit.
pub proof fn lemma_fee_of_multiple(q: int, unit: int, rate: int)
    requires
        q >= 0,
        unit >= 0,
        rate >= 0,
    ensures
        fee_ceil_spec(q * unit, rate) <= q * fee_ceil_spec(unit, rate),
{
    let s: int = FEES_SCALE_FACTOR as int;
    let c = fee_ceil_spec(unit, rate);
    let p = unit * rate;
    assert(p >= 0) by (nonlinear_arith)
        requires
            unit >= 0,
            rate >= 0,
            p == unit * rate,
    ;
    assert(p <= c * s) by (nonlinear_arith)
        requires
            p >= 0,
            s > 0,
            c == (p + s - 1) / s,
    ;
    let total = (q * unit) * rate;
    assert(total == q * p) by (nonlinear_arith)
        requires
            total == (q * unit) * rate,
            p == unit * rate,
    ;
    assert((total + s - 1) / s <= q * c) by (nonlinear_arith)
        requires
            total == q * p,
            p <= c * s,
            q >= 0,
            s > 0,
    ;
}

/// The fee on `amount` at `rate`, rounded up in the protocol's favour.
/// `None` for a negative amount or a rate outside 0% to 100%.
pub fn fee_ceil(amount: i64, rate: i64) -> (r: Option<i64>)
    ensures
        r == (if amount >= 0 && is_rate(rate as int) {
            Some(fee_ceil_spec(amount as int, rate as int) as i64)
        } else {
            None
        }),
        r matches Some(f) ==> 0 <= f <= amount && f == fee_ceil_spec(amount as int, rate as int),
{
    if amount < 0 || rate < 0 || rate > FEES_SCALE_FACTOR {
        return None;
    }
    proof {
        lemma_product_fits(amount as int, rate as int);
        lemma_fee_bounds(amount as int, rate as int);
        assert(amount as int * rate as int >= 0) by (nonlinear_arith)
            requires
                amount >= 0,
                rate >= 0,
        ;
    }
    let p: i128 = (amount as i128) * (rate as i128);
    let c: i128 = (p + (FEES_SCALE_FACTOR as i128 - 1)) / (FEES_SCALE_FACTOR as i128);
    Some(c as i64)
}

/// The share of `amount` at `rate` that is owed to a trader, rounded down.
/// `None` for a negative amount or a rate outside 0% to 100%.
pub fn fee_floor(amount: i64, rate: i64) -> (r: Option<i64>)
    ensures
        r == (if amount >= 0 && is_rate(rate as int) {
            Some(fee_floor_spec(amount as int, rate as int) as i64)
        } else {
            None
        }),
        r matches Some(f) ==> 0 <= f <= amount && f == fee_floor_spec(amount as int, rate as int),
{
    if amount < 0 || rate < 0 || rate > FEES_SCALE_FACTOR {
        return None;
    }
    proof {
        lemma_product_fits(amount as int, rate as int);
        lemma_fee_bounds(amount as int, rate as int);
        assert(amount as int * rate as int >= 0) by (nonlinear_arith)
            requires
                amount >= 0,
                rate >= 0,
        ;
    }
    let p: i128 = (amount as i128) * (rate as i128);
    let c: i128 = p / (FEES_SCALE_FACTOR as i128);
    Some(c as i64)
}

/// The part of a fee that a referrer is paid.
pub open spec fn referrer_share_spec(fee: int) -> int {
    if fee >= 0 {
        fee / (REFERRER_REBATE_DIVISOR as int)
    } else {
        0
    }
}

/// The part of `fee` that a referrer is paid: a fixed fraction of it, rounded
/// down; nothing of a fee that is not positive.
pub fn referrer_share(fee: i64) -> (r: i64)
    ensures
        r == referrer_share_spec(fee as int),
        0 <= r,
        fee >= 0 ==> r <= fee,
{
    if fee >= 0 {
        fee / REFERRER_REBATE_DIVISOR
    } else {
        0
    }
}

/// `x` as a machine integer, where it is one and not negative.
pub open spec fn nonneg_i64(x: int) -> Option<i64> {
    if 0 <= x <= i64::MAX {
        Some(x as i64)
    } else {
        None
    }
}

pub fn narrow_nonneg(x: i128) -> (r: Option<i64>)
    ensures
        r == nonneg_i64(x as int),
{
    if x < 0 || x > i64::MAX as i128 {
        None
    } else {
        Some(x as i64)
    }
}

} // verus!
