use vstd::prelude::*;
use fixed::types::I80F48;
use crate::lots::checked_i64;
use crate::market::Market;

verus! {

/// Number of fractional bits of a `Decimal`.
pub const DECIMAL_FRAC_BITS: u32 = 48;

/// The bits of the decimal 1.
pub const DECIMAL_ONE: i128 = 0x1_0000_0000_0000;

/// A signed fixed-point number with 48 fractional bits: its value is
/// `bits / 2^48`. Oracle prices come in this form.
#[derive(Clone, Copy, Debug, PartialEq, Eq, Structural)]
pub struct Decimal {
    pub bits: i128,
}

pub open spec fn fits_i128(x: int) -> bool {
    i128::MIN <= x <= i128::MAX
}

/// Quotient of `a` by `b`, rounded towards zero.
pub open spec fn trunc_div(a: int, b: int) -> int {
    if b == 0 {
        0
    } else if (a >= 0) == (b > 0) {
        (if a >= 0 {
            a
        } else {
            -a
        }) / (if b >= 0 {
            b
        } else {
            -b
        })
    } else {
        -((if a >= 0 {
            a
        } else {
            -a
        }) / (if b >= 0 {
            b
        } else {
            -b
        }))
    }
}

/// Product of the decimal with bits `bits` and the integer `rhs`, as bits.
/// Calls `I80F48::checked_mul_int` of the crate `fixed`, which multiplies
/// the bits by the integer and answers `None` where the product does not
/// fit in 128 bits.
#[verifier::external_body]
fn decimal_times_int(bits: i128, rhs: i128) -> (r: Option<i128>)
    ensures
        r == (if fits_i128(bits * rhs) {
            Some((bits * rhs) as i128)
        } else {
            None
        }),
{
    I80F48::from_bits(bits).checked_mul_int(rhs).map(|x| x.to_bits())
}

/// Quotient of the decimal with bits `bits` by the integer `rhs`, as bits.
/// Calls `I80F48::checked_div_int` of the crate `fixed`, which divides the
/// bits by the integer, rounding towards zero, and answers `None` for a
/// zero divisor and where the quotient does not fit in 128 bits.
#[verifier::external_body]
fn decimal_over_int(bits: i128, rhs: i128) -> (r: Option<i128>)
    ensures
        r == (if rhs != 0 && fits_i128(trunc_div(bits as int, rhs as int)) {
            Some(trunc_div(bits as int, rhs as int) as i128)
        } else {
            None
        }),
{
    I80F48::from_bits(bits).checked_div_int(rhs).map(|x| x.to_bits())
}

/// The decimal with bits `bits` as an integer, rounded towards minus
/// infinity. Calls `I80F48::checked_to_num` of the crate `fixed` for `i64`,
/// which discards the fractional bits and answers `None` where the
/// integer does not fit in 64 bits.
#[verifier::external_body]
fn decimal_floor(bits: i128) -> (r: Option<i64>)
    ensures
        r == checked_i64(bits as int / (DECIMAL_ONE as int)),
{
    I80F48::from_bits(bits).checked_to_num::<i64>()
}

impl Decimal {
    /// The decimal 1.
    pub fn one() -> (r: Decimal)
        ensures
            r.bits == DECIMAL_ONE,
    {
        Decimal { bits: DECIMAL_ONE }
    }

    /// The decimal that is the integer `x`.
    pub fn from_int(x: i64) -> (r: Decimal)
        ensures
            r.bits == x * DECIMAL_ONE,
    {
        proof {
            assert(-0x8000_0000_0000_0000_0000_0000_0000 <= (x as int) * 0x1_0000_0000_0000
                <= 0x8000_0000_0000_0000_0000_0000_0000) by (nonlinear_arith)
                requires
                    -0x8000_0000_0000_0000 <= x <= 0x8000_0000_0000_0000,
            ;
        }
        Decimal { bits: (x as i128) * DECIMAL_ONE }
    }

    /// The integer part of the decimal, rounded towards minus infinity:
    /// the greatest integer that is not above it. `None` where it does not
    /// fit in 64 bits.
    pub fn floor(&self) -> (r: Option<i64>)
        ensures
            r == checked_i64(self.bits as int / (DECIMAL_ONE as int)),
    {
        decimal_floor(self.bits)
    }
}

/// The price in lots that a price in native units is: quote lots per base
/// lot for native quote units per native base unit. The price is
/// multiplied by the base lot size, divided by the quote lot size and
/// rounded down. `None` where an intermediate result or the price in lots
/// does not fit.
pub open spec fn native_price_to_lot_spec(price: Decimal, base_lot_size: i64, quote_lot_size: i64) -> Option<
    i64,
> {
    let scaled = price.bits * base_lot_size;
    let ratio = trunc_div(scaled, quote_lot_size as int);
    if quote_lot_size == 0 || !fits_i128(scaled) || !fits_i128(ratio) {
        None
    } else {
        checked_i64(ratio / (DECIMAL_ONE as int))
    }
}

impl Market {
    /// Converts an oracle price, in native quote units per native base
    /// unit, into quote lots per base lot.
    pub fn native_price_to_lot(&self, price: Decimal) -> (r: Option<i64>)
        ensures
            r == native_price_to_lot_spec(price, self.base_lot_size, self.quote_lot_size),
    {
        let scaled = match decimal_times_int(price.bits, self.base_lot_size as i128) {
            Some(x) => x,
            None => {
                return None;
            },
        };
        let ratio = match decimal_over_int(scaled, self.quote_lot_size as i128) {
            Some(x) => x,
            None => {
                return None;
            },
        };
        decimal_floor(ratio)
    }
}

/// For a price that is not negative and positive lot sizes, the price in
/// lots is the exact ratio rounded down: the greatest number of lots `l`
/// with `l * quote_lot_size * 2^48 <= price.bits * base_lot_size`.
pub proof fn lemma_native_price_to_lot(price: Decimal, base_lot_size: i64, quote_lot_size: i64)
    requires
        price.bits >= 0,
        base_lot_size > 0,
        quote_lot_size > 0,
    ensures
        native_price_to_lot_spec(price, base_lot_size, quote_lot_size) matches Some(l) ==> 0 <= l
            && l * quote_lot_size * DECIMAL_ONE <= price.bits * base_lot_size < (l + 1)
            * quote_lot_size * DECIMAL_ONE,
{
    let scaled = price.bits * base_lot_size;
    let q = quote_lot_size as int;
    let one = DECIMAL_ONE as int;
    if let Some(l) = native_price_to_lot_spec(price, base_lot_size, quote_lot_size) {
        assert(scaled >= 0) by (nonlinear_arith)
            requires
                price.bits >= 0,
                base_lot_size > 0,
                scaled == price.bits * base_lot_size,
        ;
        let ratio = scaled / q;
        assert(trunc_div(scaled, q) == ratio);
        assert(0 <= ratio && ratio * q <= scaled < (ratio + 1) * q) by (nonlinear_arith)
            requires
                scaled >= 0,
                q > 0,
                ratio == scaled / q,
        ;
        let lots = ratio / one;
        assert(0 <= lots && lots * one <= ratio < (lots + 1) * one) by (nonlinear_arith)
            requires
                ratio >= 0,
                one > 0,
                lots == ratio / one,
        ;
        assert(lots * q * one <= scaled) by (nonlinear_arith)
            requires
                lots * one <= ratio,
                ratio * q <= scaled,
                q > 0,
        ;
        assert(scaled < (lots + 1) * q * one) by (nonlinear_arith)
            requires
                ratio + 1 <= (lots + 1) * one,
                scaled < (ratio + 1) * q,
                q > 0,
        ;
    }
}

} // verus!
