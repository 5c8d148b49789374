//! Exact-value checks for the limb arithmetic the price engine rests on.

use poolwatch::bignum::BigNat;

#[test]
fn from_u64_round_trip() {
    let a = BigNat::from_u64(42);
    let b = BigNat::from_u64(42);
    let c = BigNat::from_u64(43);
    assert!(a.eq_value(&b));
    assert!(!a.eq_value(&c));
    assert!(!a.is_zero());
    assert!(BigNat::from_u64(0).is_zero());
}

#[test]
fn eq_value_ignores_trailing_zero_limbs() {
    let padded = BigNat { limbs: vec![5, 0, 0] };
    let bare = BigNat::from_u64(5);
    assert!(padded.eq_value(&bare));
    assert!(bare.eq_value(&padded));
    let zero_padded = BigNat { limbs: vec![0, 0] };
    assert!(zero_padded.is_zero());
    assert!(zero_padded.eq_value(&BigNat::from_u64(0)));
}

#[test]
fn plus_carries_across_limbs() {
    let max = BigNat::from_u64(u64::MAX);
    let one = BigNat::from_u64(1);
    let sum = max.plus(&one);
    // 2^64 is limb 1 set to one.
    let expected = BigNat { limbs: vec![0, 1] };
    assert!(sum.eq_value(&expected));
}

#[test]
fn times_full_width() {
    let max = BigNat::from_u64(u64::MAX);
    let sq = max.times(&max);
    // (2^64 - 1)^2 == 2^128 - 2^65 + 1.
    let expected = BigNat { limbs: vec![1, 0xFFFF_FFFF_FFFF_FFFE] };
    assert!(sq.eq_value(&expected));
}

#[test]
fn shifted_is_limb_shift() {
    let five = BigNat::from_u64(5);
    let shifted = five.shifted(2);
    let expected = BigNat { limbs: vec![0, 0, 5] };
    assert!(shifted.eq_value(&expected));
}

#[test]
fn pow10_small_and_large() {
    assert!(BigNat::pow10(0).eq_value(&BigNat::from_u64(1)));
    assert!(BigNat::pow10(3).eq_value(&BigNat::from_u64(1000)));
    let ten_ten = BigNat::pow10(10);
    assert!(ten_ten.eq_value(&BigNat::from_u64(10_000_000_000)));
    // 10^20 splits across two limbs; it must agree with 10^10 * 10^10.
    let twenty = BigNat::pow10(20);
    assert!(twenty.eq_value(&ten_ten.times(&ten_ten)));
}

#[test]
fn empty_limbs_are_zero() {
    let empty = BigNat { limbs: vec![] };
    assert!(empty.is_zero());
    assert!(empty.eq_value(&BigNat::from_u64(0)));
    assert!(empty.plus(&BigNat::from_u64(7)).eq_value(&BigNat::from_u64(7)));
    assert!(empty.times(&BigNat::from_u64(7)).is_zero());
}

#[test]
fn x96_squared_scale_is_two_to_192() {
    let scale = BigNat::x96_squared_scale();
    let expected = BigNat { limbs: vec![0, 0, 0, 1] };
    assert!(scale.eq_value(&expected));
}
