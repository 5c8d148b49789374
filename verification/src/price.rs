//! The price conversion engine.
//!
//! A pool reports its instantaneous price as `sqrt_price_x96`: the square root
//! of the token1-per-token0 price, as a fixed-point number with 96 fractional
//! bits. Converting it for a caller's `(base, quote)` pair means squaring,
//! rescaling by the difference of the two tokens' decimal scales, and
//! inverting when the pair order disagrees with the pool's own token order.
//!
//! The result is an exact rational number: no precision is lost through the
//! square or the divisions, however wide the price.

use vstd::prelude::*;
use vstd::arithmetic::power::{lemma_pow0, lemma_pow_positive, pow};
use vstd::arithmetic::power2::{lemma_pow2_pos, pow2};
use crate::bignum::BigNat;

verus! {

/// A 160-bit on-chain account or contract identifier, split into machine
/// words: the high 64 bits, the middle 64, and the low 32.
#[derive(Clone, Copy, PartialEq, Eq, Structural, Debug)]
pub struct Address {
    pub hi: u64,
    pub mid: u64,
    pub lo: u32,
}

/// One asset: its identifying address and its decimal scale.
#[derive(Clone, Copy, PartialEq, Eq, Structural, Debug)]
pub struct Token {
    pub address: Address,
    pub decimals: u8,
}

/// The ordered pair the caller wants priced: how many `quote` one `base` is
/// worth. The order reflects display intent and may disagree with the pool's
/// internal token ordering. Immutable once built; watchers only read it.
#[derive(Clone, Copy, PartialEq, Eq, Structural, Debug)]
pub struct TokenPair {
    pub base: Token,
    pub quote: Token,
}

/// Degenerate numeric input to the price conversion. The offending event is
/// reported and skipped; it never aborts a stream.
#[derive(Clone, Copy, PartialEq, Eq, Structural, Debug)]
pub enum ConversionError {
    ZeroSqrtPrice,
}

/// An exact price: the rational number `num / den`.
pub struct Price {
    pub num: BigNat,
    pub den: BigNat,
}

/// The decimal-scale difference of a pair, `base.decimals - quote.decimals`.
pub open spec fn decimal_diff(pair: TokenPair) -> int {
    pair.base.decimals - pair.quote.decimals
}

/// The numerator of the exact price for a squared-and-scaled conversion:
/// `s` is the raw `sqrt_price_x96` value, `d` the decimal difference, and
/// `aligned` whether the pool's token 0 is the pair's base. The price itself
/// is `price_num / price_den`, that is `(s/2^96)^2 / 10^d` when aligned and
/// its reciprocal with the sign of `d` flipped otherwise.
pub open spec fn price_num(s: nat, d: int, aligned: bool) -> int {
    if aligned {
        if d >= 0 {
            (s * s) as int
        } else {
            s * s * pow(10, (-d) as nat)
        }
    } else {
        if d >= 0 {
            pow2(192) as int
        } else {
            pow2(192) * pow(10, (-d) as nat)
        }
    }
}

/// The denominator matching [`price_num`].
pub open spec fn price_den(s: nat, d: int, aligned: bool) -> int {
    if aligned {
        if d >= 0 {
            pow2(192) * pow(10, d as nat)
        } else {
            pow2(192) as int
        }
    } else {
        if d >= 0 {
            s * s * pow(10, d as nat)
        } else {
            (s * s) as int
        }
    }
}

impl Price {
    /// A price is well formed when its denominator is positive.
    pub open spec fn wf(&self) -> bool {
        self.den@ > 0
    }

    /// Whether two prices denote the same rational number.
    pub fn same_value(&self, other: &Price) -> (r: bool)
        ensures
            r == (self.num@ * other.den@ == other.num@ * self.den@),
    {
        let left = self.num.times(&other.den);
        let right = other.num.times(&self.den);
        left.eq_value(&right)
    }

    /// Whether the product of two prices is exactly one.
    pub fn is_reciprocal_of(&self, other: &Price) -> (r: bool)
        ensures
            r == (self.num@ * other.num@ == self.den@ * other.den@),
    {
        let left = self.num.times(&other.num);
        let right = self.den.times(&other.den);
        left.eq_value(&right)
    }
}

/// Converts a pool's raw square-root price into the exact decimal price for
/// the caller's pair.
///
/// Let `raw = (sqrt_price_x96 / 2^96)^2`, the pool's native token1-per-token0
/// price, and `d = base.decimals - quote.decimals`. When the pool's token 0
/// is the pair's base the result is `raw / 10^d`; otherwise the pool's native
/// orientation is the reverse of the requested one, so the result is
/// `1 / (raw / 10^(-d))`. A zero `sqrt_price_x96` has no meaningful price and
/// is reported as a [`ConversionError`], never a panic.
pub fn compute_price(pair: &TokenPair, sqrt_price_x96: &BigNat, pool_token0: Address) -> (r:
    Result<Price, ConversionError>)
    ensures
        r is Err <==> sqrt_price_x96@ == 0,
        r matches Ok(p) ==> {
            &&& p.num@ == price_num(
                sqrt_price_x96@,
                decimal_diff(*pair),
                pool_token0 == pair.base.address,
            )
            &&& p.den@ == price_den(
                sqrt_price_x96@,
                decimal_diff(*pair),
                pool_token0 == pair.base.address,
            )
            &&& p.wf()
        },
{
    if sqrt_price_x96.is_zero() {
        return Err(ConversionError::ZeroSqrtPrice);
    }
    let ghost s = sqrt_price_x96@;
    let d: i32 = pair.base.decimals as i32 - pair.quote.decimals as i32;
    let sq = sqrt_price_x96.times(sqrt_price_x96);
    let scale = BigNat::x96_squared_scale();
    let aligned = pool_token0 == pair.base.address;
    proof {
        lemma_pow2_pos(192);
        assert(s * s > 0) by (nonlinear_arith)
            requires s > 0;
    }
    let price = if aligned {
        if d >= 0 {
            let tens = BigNat::pow10(d as u32);
            let den = scale.times(&tens);
            proof {
                lemma_pow_positive(10, d as nat);
                assert(pow2(192) * pow(10, d as nat) > 0) by (nonlinear_arith)
                    requires pow2(192) > 0, pow(10, d as nat) > 0;
            }
            Price { num: sq, den }
        } else {
            let tens = BigNat::pow10((-d) as u32);
            let num = sq.times(&tens);
            Price { num, den: scale }
        }
    } else {
        if d >= 0 {
            let tens = BigNat::pow10(d as u32);
            let den = sq.times(&tens);
            proof {
                lemma_pow_positive(10, d as nat);
                assert(s * s * pow(10, d as nat) > 0) by (nonlinear_arith)
                    requires s * s > 0, pow(10, d as nat) > 0;
            }
            Price { num: scale, den }
        } else {
            let tens = BigNat::pow10((-d) as u32);
            let num = scale.times(&tens);
            Price { num, den: sq }
        }
    };
    Ok(price)
}

/// Price orientation: when the pool's token 0 is the pair's base and the two
/// tokens have equal decimal scales, the price is exactly the pool's native
/// `(sqrt_price_x96 / 2^96)^2`, with no rescaling.
pub proof fn lemma_price_orientation(s: nat)
    ensures
        price_num(s, 0, true) == s * s,
        price_den(s, 0, true) == pow2(192),
{
    lemma_pow0(10);
}

/// Inversion symmetry: the price computed for `(base, quote)` and the price
/// computed for `(quote, base)` from the same event and pool are exact
/// reciprocals; swapping the pair negates the decimal difference and flips
/// the orientation flag, and the cross-products of the two rationals agree,
/// so their product is exactly one.
pub proof fn lemma_inversion_symmetry(s: nat, d: int)
    ensures
        price_num(s, d, true) * price_num(s, -d, false)
            == price_den(s, d, true) * price_den(s, -d, false),
{
    lemma_pow0(10);
    if d >= 0 {
        if d == 0 {
            assert((s * s) * (pow2(192) as int)
                == (pow2(192) * pow(10, 0)) * (s * s * pow(10, 0))) by (nonlinear_arith)
                requires pow(10, 0) == 1;
        } else {
            assert((s * s) * (pow2(192) * pow(10, d as nat))
                == (pow2(192) * pow(10, d as nat)) * (s * s)) by (nonlinear_arith);
        }
    } else {
        assert((s * s * pow(10, (-d) as nat)) * (pow2(192) as int)
            == (pow2(192) as int) * (s * s * pow(10, (-d) as nat))) by (nonlinear_arith);
    }
}

/// Decimal scaling: against a pair of tokens with 18 and 6 decimals, the
/// aligned price differs from the equal-decimals price of the same event by
/// exactly the factor `10^12`: `price(pair) * 10^12 == price(flat)` as
/// rationals, stated by cross-multiplication.
pub proof fn lemma_decimal_scaling(s: nat, pair: TokenPair, flat: TokenPair)
    requires
        pair.base.decimals == 18,
        pair.quote.decimals == 6,
        flat.base.decimals == flat.quote.decimals,
    ensures
        price_num(s, decimal_diff(pair), true) * pow(10, 12)
            * price_den(s, decimal_diff(flat), true)
            == price_num(s, decimal_diff(flat), true) * price_den(s, decimal_diff(pair), true),
{
    lemma_pow0(10);
    assert(decimal_diff(pair) == 12);
    assert(decimal_diff(flat) == 0);
    assert((s * s) * pow(10, 12) * (pow2(192) * pow(10, 0))
        == (s * s) * (pow2(192) * pow(10, 12))) by (nonlinear_arith)
        requires pow(10, 0) == 1;
}

} // verus!
