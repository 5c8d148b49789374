//! The price conversion engine on concrete pairs and events.

use poolwatch::bignum::BigNat;
use poolwatch::price::{compute_price, Address, ConversionError, Price, Token, TokenPair};

fn addr(tag: u32) -> Address {
    Address { hi: 0, mid: 0, lo: tag }
}

fn token(tag: u32, decimals: u8) -> Token {
    Token { address: addr(tag), decimals }
}

/// `sqrt_price_x96` encoding the square root `m`, that is, `m * 2^96`.
fn sqrt_x96(m: u64) -> BigNat {
    // m * 2^32 fits a limb only for small m; build it as (m * 2^32) * 2^64.
    BigNat::from_u64(m << 32).shifted(1)
}

fn one_to_one() -> Price {
    Price { num: BigNat::from_u64(1), den: BigNat::from_u64(1) }
}

#[test]
fn orientation_equal_decimals_is_raw_price() {
    let pair = TokenPair { base: token(1, 18), quote: token(2, 18) };
    // sqrt price of exactly 1: the price is exactly (2^96/2^96)^2 == 1.
    let p = compute_price(&pair, &sqrt_x96(1), addr(1)).unwrap();
    assert!(p.same_value(&one_to_one()));
    // sqrt price of exactly 2: the price is exactly 4.
    let p4 = compute_price(&pair, &sqrt_x96(2), addr(1)).unwrap();
    let four = Price { num: BigNat::from_u64(4), den: BigNat::from_u64(1) };
    assert!(p4.same_value(&four));
    assert!(!p4.same_value(&one_to_one()));
}

#[test]
fn misaligned_pair_is_inverted() {
    let pair = TokenPair { base: token(1, 18), quote: token(2, 18) };
    // The pool's token 0 is the quote, so a native price of 4 reads back
    // as 1/4 for the caller's order.
    let p = compute_price(&pair, &sqrt_x96(2), addr(2)).unwrap();
    let quarter = Price { num: BigNat::from_u64(1), den: BigNat::from_u64(4) };
    assert!(p.same_value(&quarter));
}

#[test]
fn inversion_symmetry_concrete() {
    let base = token(1, 18);
    let quote = token(2, 6);
    let forward = TokenPair { base, quote };
    let backward = TokenPair { base: quote, quote: base };
    let sqrt = sqrt_x96(777);
    let p1 = compute_price(&forward, &sqrt, base.address).unwrap();
    let p2 = compute_price(&backward, &sqrt, base.address).unwrap();
    // Same event, same pool: the two orientations are exact reciprocals.
    assert!(p1.is_reciprocal_of(&p2));
    assert!(p2.is_reciprocal_of(&p1));
}

#[test]
fn decimal_scaling_is_ten_to_the_twelve() {
    let scaled_pair = TokenPair { base: token(1, 18), quote: token(2, 6) };
    let flat_pair = TokenPair { base: token(1, 9), quote: token(2, 9) };
    let sqrt = sqrt_x96(1);
    let scaled = compute_price(&scaled_pair, &sqrt, addr(1)).unwrap();
    let flat = compute_price(&flat_pair, &sqrt, addr(1)).unwrap();
    // With 18 vs 6 decimals the price is exactly 10^12 smaller than the
    // equal-decimals price of the same event.
    let trillionth = Price { num: BigNat::from_u64(1), den: BigNat::pow10(12) };
    assert!(scaled.same_value(&trillionth));
    assert!(flat.same_value(&one_to_one()));
    // scaled * 10^12 == flat, compared exactly by cross-multiplication.
    let lhs = scaled.num.times(&BigNat::pow10(12)).times(&flat.den);
    let rhs = flat.num.times(&scaled.den);
    assert!(lhs.eq_value(&rhs));
}

#[test]
fn negative_decimal_difference_scales_up() {
    let pair = TokenPair { base: token(1, 6), quote: token(2, 18) };
    let p = compute_price(&pair, &sqrt_x96(1), addr(1)).unwrap();
    let trillion = Price { num: BigNat::pow10(12), den: BigNat::from_u64(1) };
    assert!(p.same_value(&trillion));
}

#[test]
fn zero_sqrt_price_is_a_conversion_error() {
    let pair = TokenPair { base: token(1, 18), quote: token(2, 6) };
    let zero = BigNat::from_u64(0);
    match compute_price(&pair, &zero, addr(1)) {
        Err(ConversionError::ZeroSqrtPrice) => {}
        Ok(_) => panic!("a zero sqrt price must not convert"),
    }
    // A zero with many zero limbs is still zero.
    let wide_zero = BigNat { limbs: vec![0, 0, 0] };
    assert!(compute_price(&pair, &wide_zero, addr(2)).is_err());
    // The smallest nonzero input converts.
    assert!(compute_price(&pair, &BigNat::from_u64(1), addr(1)).is_ok());
}
