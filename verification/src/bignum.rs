//! Arbitrary-precision unsigned integers, stored as little-endian sequences of
//! 64-bit limbs.
//!
//! Squaring a price with 96 fractional bits and scaling it by a power of ten
//! overflows every machine integer, so the price engine works on these instead.
//! Every operation carries an exact contract over the mathematical value of the
//! limbs, so nothing is lost to rounding anywhere in the pipeline.

use vstd::prelude::*;
use vstd::arithmetic::div_mod::{lemma_fundamental_div_mod, lemma_fundamental_div_mod_converse};
use vstd::arithmetic::mul::{lemma_mul_inequality, lemma_mul_is_commutative};
use vstd::arithmetic::power::pow;
use vstd::arithmetic::power2::{lemma2_to64, lemma_pow2_adds, lemma_pow2_pos, pow2};

verus! {

/// The numeric value of a little-endian limb sequence: limb `i` contributes
/// `s[i] * 2^(64*i)`.
pub open spec fn limbs_value(s: Seq<u64>) -> nat
    decreases s.len(),
{
    if s.len() == 0 {
        0
    } else {
        (s.first() + pow2(64) * limbs_value(s.drop_first())) as nat
    }
}

/// An unsigned integer of arbitrary size. The representation is not
/// normalized: trailing zero limbs are allowed and do not change the value.
pub struct BigNat {
    pub limbs: Vec<u64>,
}

impl View for BigNat {
    type V = nat;

    open spec fn view(&self) -> nat {
        limbs_value(self.limbs@)
    }
}

/// Appending a limb adds its weighted value.
pub proof fn lemma_value_push(s: Seq<u64>, x: u64)
    ensures
        limbs_value(s.push(x)) == limbs_value(s) + x * pow2(64 * s.len()),
    decreases s.len(),
{
    lemma2_to64();
    assert(limbs_value(Seq::<u64>::empty()) == 0);
    if s.len() == 0 {
        assert(s.push(x).drop_first() =~= Seq::<u64>::empty());
        assert(s.push(x).first() == x);
        assert(limbs_value(s.push(x)) == x + pow2(64) * 0);
        assert(x * pow2(0) == x * 1);
    } else {
        lemma_value_push(s.drop_first(), x);
        assert(s.push(x).drop_first() =~= s.drop_first().push(x));
        assert(s.push(x).first() == s.first());
        let rest = limbs_value(s.drop_first());
        let p = pow2((64 * (s.len() - 1)) as nat);
        assert(limbs_value(s.drop_first().push(x)) == rest + x * p);
        assert(pow2(64) * (rest + x * p) == pow2(64) * rest + pow2(64) * (x * p))
            by (nonlinear_arith);
        assert(pow2(64) * (x * p) == x * (pow2(64) * p)) by (nonlinear_arith);
        lemma_pow2_adds(64, (64 * (s.len() - 1)) as nat);
        assert(64 + 64 * (s.len() - 1) == 64 * s.len());
    }
}

/// The value of the first `i + 1` limbs extends the value of the first `i`.
pub proof fn lemma_value_take_succ(s: Seq<u64>, i: int)
    requires
        0 <= i < s.len(),
    ensures
        limbs_value(s.take(i + 1)) == limbs_value(s.take(i)) + s[i] * pow2((64 * i) as nat),
{
    assert(s.take(i + 1) =~= s.take(i).push(s[i]));
    lemma_value_push(s.take(i), s[i]);
}

/// Trailing zero limbs do not change the value.
pub proof fn lemma_value_pad(s: Seq<u64>, k: nat)
    ensures
        limbs_value(s + Seq::new(k, |j: int| 0u64)) == limbs_value(s),
    decreases k,
{
    if k == 0 {
        assert(s + Seq::new(0, |j: int| 0u64) =~= s);
    } else {
        lemma_value_pad(s.push(0u64), (k - 1) as nat);
        assert(s.push(0u64) + Seq::new((k - 1) as nat, |j: int| 0u64)
            =~= s + Seq::new(k, |j: int| 0u64));
        lemma_value_push(s, 0u64);
    }
}

/// Prepending `k` zero limbs multiplies the value by `2^(64*k)`.
pub proof fn lemma_value_zeros_prefix(k: nat, s: Seq<u64>)
    ensures
        limbs_value(Seq::new(k, |j: int| 0u64) + s) == pow2(64 * k) * limbs_value(s),
    decreases k,
{
    lemma2_to64();
    if k == 0 {
        assert(Seq::new(0, |j: int| 0u64) + s =~= s);
        assert(pow2(0) * limbs_value(s) == limbs_value(s));
    } else {
        let z = Seq::new(k, |j: int| 0u64) + s;
        assert(z.len() > 0);
        assert(z.first() == 0);
        assert(z.drop_first() =~= Seq::new((k - 1) as nat, |j: int| 0u64) + s);
        lemma_value_zeros_prefix((k - 1) as nat, s);
        let p = pow2((64 * (k - 1)) as nat);
        assert(limbs_value(z) == pow2(64) * (p * limbs_value(s)));
        assert(pow2(64) * (p * limbs_value(s)) == (pow2(64) * p) * limbs_value(s))
            by (nonlinear_arith);
        lemma_pow2_adds(64, (64 * (k - 1)) as nat);
        assert(64 + 64 * (k - 1) == 64 * k);
        assert(pow2((64 * k) as nat) == pow2(64) * p);
    }
}

/// A limb sequence has value zero exactly when every limb is zero.
pub proof fn lemma_value_zero(s: Seq<u64>)
    ensures
        (limbs_value(s) == 0) <==> (forall|i: int| 0 <= i < s.len() ==> s[i] == 0),
    decreases s.len(),
{
    if s.len() > 0 {
        lemma_value_zero(s.drop_first());
        lemma_pow2_pos(64);
        let rest = limbs_value(s.drop_first());
        assert(rest > 0 ==> pow2(64) * rest >= pow2(64)) by (nonlinear_arith)
            requires pow2(64) > 0;
        if limbs_value(s) == 0 {
            assert(s.first() == 0 && rest == 0);
            assert forall|i: int| 0 <= i < s.len() implies s[i] == 0 by {
                if i >= 1 {
                    assert(s.drop_first()[i - 1] == 0);
                }
            }
        }
        if forall|i: int| 0 <= i < s.len() ==> s[i] == 0 {
            assert forall|i: int| 0 <= i < s.drop_first().len() implies s.drop_first()[i] == 0 by {
                assert(s[i + 1] == 0);
            }
            assert(rest == 0);
            assert(s.first() == 0);
            assert(limbs_value(s) == 0);
        }
    }
}

/// Limb sequences of equal length with equal values are the same sequence.
pub proof fn lemma_value_injective(s1: Seq<u64>, s2: Seq<u64>)
    requires
        s1.len() == s2.len(),
        limbs_value(s1) == limbs_value(s2),
    ensures
        s1 =~= s2,
    decreases s1.len(),
{
    if s1.len() > 0 {
        lemma2_to64();
        let b = pow2(64) as int;
        let v = limbs_value(s1) as int;
        let r1 = limbs_value(s1.drop_first()) as int;
        let r2 = limbs_value(s2.drop_first()) as int;
        assert(v == r1 * b + s1.first()) by {
            lemma_mul_is_commutative(b, r1);
        }
        assert(v == r2 * b + s2.first()) by {
            lemma_mul_is_commutative(b, r2);
        }
        lemma_fundamental_div_mod_converse(v, b, r1, s1.first() as int);
        lemma_fundamental_div_mod_converse(v, b, r2, s2.first() as int);
        assert(s1.first() == s2.first());
        assert(r1 == r2);
        lemma_value_injective(s1.drop_first(), s2.drop_first());
        assert(forall|i: int| 1 <= i < s1.len() ==> s1[i] == s1.drop_first()[i - 1]
            && s2[i] == s2.drop_first()[i - 1]);
    }
}

impl BigNat {
    /// The number with the given single-limb value.
    pub fn from_u64(x: u64) -> (r: BigNat)
        ensures
            r@ == x,
    {
        let mut limbs: Vec<u64> = Vec::new();
        limbs.push(x);
        proof {
            let s = limbs@;
            assert(s.len() == 1);
            assert(s.first() == x);
            assert(s.drop_first() =~= Seq::<u64>::empty());
            assert(limbs_value(s.drop_first()) == 0);
            assert(limbs_value(s) == s.first() + pow2(64) * limbs_value(s.drop_first()));
            assert(limbs_value(s) == x);
        }
        BigNat { limbs }
    }

    /// Whether the value is zero.
    pub fn is_zero(&self) -> (r: bool)
        ensures
            r == (self@ == 0),
    {
        let mut i: usize = 0;
        while i < self.limbs.len()
            invariant
                i <= self.limbs.len(),
                forall|j: int| 0 <= j < i ==> self.limbs@[j] == 0,
            decreases self.limbs.len() - i,
        {
            if self.limbs[i] != 0 {
                proof {
                    lemma_value_zero(self.limbs@);
                }
                return false;
            }
            i = i + 1;
        }
        proof {
            lemma_value_zero(self.limbs@);
        }
        true
    }

    /// Whether two numbers have the same value, regardless of how many
    /// trailing zero limbs either representation carries.
    pub fn eq_value(&self, other: &BigNat) -> (r: bool)
        ensures
            r == (self@ == other@),
    {
        let la: usize = self.limbs.len();
        let lb: usize = other.limbs.len();
        let n: usize = if la > lb { la } else { lb };
        let ghost pa = self.limbs@ + Seq::new((n - la) as nat, |j: int| 0u64);
        let ghost pb = other.limbs@ + Seq::new((n - lb) as nat, |j: int| 0u64);
        proof {
            lemma_value_pad(self.limbs@, (n - la) as nat);
            lemma_value_pad(other.limbs@, (n - lb) as nat);
        }
        let mut i: usize = 0;
        while i < n
            invariant
                i <= n,
                la <= n && lb <= n,
                la == self.limbs.len() && lb == other.limbs.len(),
                pa == self.limbs@ + Seq::new((n - la) as nat, |j: int| 0u64),
                pb == other.limbs@ + Seq::new((n - lb) as nat, |j: int| 0u64),
                limbs_value(pa) == self@ && limbs_value(pb) == other@,
                forall|j: int| 0 <= j < i ==> pa[j] == pb[j],
            decreases n - i,
        {
            let ai: u64 = if i < la { self.limbs[i] } else { 0 };
            let bi: u64 = if i < lb { other.limbs[i] } else { 0 };
            if ai != bi {
                proof {
                    assert(pa[i as int] == ai && pb[i as int] == bi);
                    if self@ == other@ {
                        lemma_value_injective(pa, pb);
                    }
                }
                return false;
            }
            i = i + 1;
        }
        proof {
            assert(pa =~= pb);
        }
        true
    }

    /// The sum of two numbers.
    pub fn plus(&self, other: &BigNat) -> (r: BigNat)
        ensures
            r@ == self@ + other@,
    {
        let la: usize = self.limbs.len();
        let lb: usize = other.limbs.len();
        let n: usize = if la > lb { la } else { lb };
        let ghost pa = self.limbs@ + Seq::new((n - la) as nat, |j: int| 0u64);
        let ghost pb = other.limbs@ + Seq::new((n - lb) as nat, |j: int| 0u64);
        proof {
            lemma_value_pad(self.limbs@, (n - la) as nat);
            lemma_value_pad(other.limbs@, (n - lb) as nat);
            lemma2_to64();
            assert(limbs_value(Seq::<u64>::empty()) == 0);
            assert(pa.take(0) =~= Seq::<u64>::empty());
            assert(pb.take(0) =~= Seq::<u64>::empty());
        }
        let mut out: Vec<u64> = Vec::new();
        let mut carry: u64 = 0;
        let mut i: usize = 0;
        while i < n
            invariant
                i <= n,
                la <= n && lb <= n,
                la == self.limbs.len() && lb == other.limbs.len(),
                pa == self.limbs@ + Seq::new((n - la) as nat, |j: int| 0u64),
                pb == other.limbs@ + Seq::new((n - lb) as nat, |j: int| 0u64),
                limbs_value(pa) == self@ && limbs_value(pb) == other@,
                pow2(64) == 0x10000000000000000,
                out.len() == i,
                carry <= 1,
                limbs_value(out@) + carry * pow2((64 * i) as nat)
                    == limbs_value(pa.take(i as int)) + limbs_value(pb.take(i as int)),
            decreases n - i,
        {
            let ai: u64 = if i < la { self.limbs[i] } else { 0 };
            let bi: u64 = if i < lb { other.limbs[i] } else { 0 };
            proof {
                assert(pa[i as int] == ai && pb[i as int] == bi);
            }
            let sum: u128 = ai as u128 + bi as u128 + carry as u128;
            let lo: u64 = (sum % 0x10000000000000000u128) as u64;
            let hi: u64 = (sum / 0x10000000000000000u128) as u64;
            proof {
                lemma_fundamental_div_mod(sum as int, 0x10000000000000000);
                assert(hi <= 1);
                let p = pow2((64 * i) as nat);
                lemma_value_push(out@, lo);
                lemma_value_take_succ(pa, i as int);
                lemma_value_take_succ(pb, i as int);
                assert(limbs_value(out@.push(lo)) + hi * (pow2(64) * p)
                    == limbs_value(pa.take(i as int + 1)) + limbs_value(pb.take(i as int + 1)))
                    by (nonlinear_arith)
                    requires
                        limbs_value(out@.push(lo)) == limbs_value(out@) + lo * p,
                        limbs_value(out@) + carry * p
                            == limbs_value(pa.take(i as int)) + limbs_value(pb.take(i as int)),
                        limbs_value(pa.take(i as int + 1))
                            == limbs_value(pa.take(i as int)) + ai * p,
                        limbs_value(pb.take(i as int + 1))
                            == limbs_value(pb.take(i as int)) + bi * p,
                        ai + bi + carry == hi * pow2(64) + lo,
                ;
                lemma_pow2_adds(64, (64 * i) as nat);
                assert(64 + 64 * i == 64 * (i + 1));
            }
            out.push(lo);
            carry = hi;
            i = i + 1;
        }
        proof {
            assert(pa.take(n as int) =~= pa);
            assert(pb.take(n as int) =~= pb);
            assert(limbs_value(out@) + carry * pow2((64 * i) as nat) == self@ + other@);
        }
        if carry != 0 {
            let ghost oldout = out@;
            proof {
                lemma_value_push(out@, carry);
            }
            out.push(carry);
            proof {
                assert(out@ == oldout.push(carry));
                assert(64 * oldout.len() == (64 * i) as nat);
                assert(limbs_value(out@)
                    == limbs_value(oldout) + carry * pow2((64 * i) as nat));
                assert(limbs_value(out@) == self@ + other@);
            }
        }
        BigNat { limbs: out }
    }

    /// The product with a single limb.
    pub fn times_limb(&self, d: u64) -> (r: BigNat)
        ensures
            r@ == self@ * d,
    {
        let ghost s = self.limbs@;
        proof {
            lemma2_to64();
            assert(limbs_value(Seq::<u64>::empty()) == 0);
            assert(s.take(0) =~= Seq::<u64>::empty());
        }
        let mut out: Vec<u64> = Vec::new();
        let mut carry: u64 = 0;
        let mut i: usize = 0;
        while i < self.limbs.len()
            invariant
                i <= self.limbs.len(),
                s == self.limbs@,
                pow2(64) == 0x10000000000000000,
                out.len() == i,
                limbs_value(out@) + carry * pow2((64 * i) as nat)
                    == limbs_value(s.take(i as int)) * d,
            decreases self.limbs.len() - i,
        {
            let ai: u64 = self.limbs[i];
            proof {
                lemma_mul_inequality(ai as int, 0xffffffffffffffff, d as int);
                lemma_mul_inequality(d as int, 0xffffffffffffffff, 0xffffffffffffffff);
                lemma_mul_is_commutative(d as int, 0xffffffffffffffff);
                assert(ai as int * d as int <= 0xffffffffffffffff * 0xffffffffffffffff);
            }
            let prod: u128 = ai as u128 * d as u128 + carry as u128;
            let lo: u64 = (prod % 0x10000000000000000u128) as u64;
            let hi: u64 = (prod / 0x10000000000000000u128) as u64;
            proof {
                lemma_fundamental_div_mod(prod as int, 0x10000000000000000);
                let p = pow2((64 * i) as nat);
                lemma_value_push(out@, lo);
                lemma_value_take_succ(s, i as int);
                assert(limbs_value(out@.push(lo)) + hi * (pow2(64) * p)
                    == limbs_value(s.take(i as int + 1)) * d)
                    by (nonlinear_arith)
                    requires
                        limbs_value(out@.push(lo)) == limbs_value(out@) + lo * p,
                        limbs_value(out@) + carry * p == limbs_value(s.take(i as int)) * d,
                        limbs_value(s.take(i as int + 1))
                            == limbs_value(s.take(i as int)) + ai * p,
                        ai * d + carry == hi * pow2(64) + lo,
                ;
                lemma_pow2_adds(64, (64 * i) as nat);
                assert(64 + 64 * i == 64 * (i + 1));
            }
            out.push(lo);
            carry = hi;
            i = i + 1;
        }
        proof {
            assert(s.take(self.limbs.len() as int) =~= s);
        }
        if carry != 0 {
            proof {
                lemma_value_push(out@, carry);
            }
            out.push(carry);
        }
        BigNat { limbs: out }
    }

    /// The value shifted left by `k` whole limbs, that is, multiplied by
    /// `2^(64*k)`.
    pub fn shifted(&self, k: usize) -> (r: BigNat)
        ensures
            r@ == pow2((64 * k) as nat) * self@,
    {
        let mut limbs: Vec<u64> = Vec::new();
        let mut i: usize = 0;
        while i < k
            invariant
                i <= k,
                limbs@ =~= Seq::new(i as nat, |j: int| 0u64),
            decreases k - i,
        {
            limbs.push(0);
            i = i + 1;
        }
        let mut j: usize = 0;
        while j < self.limbs.len()
            invariant
                j <= self.limbs.len(),
                limbs@ =~= Seq::new(k as nat, |t: int| 0u64) + self.limbs@.take(j as int),
            decreases self.limbs.len() - j,
        {
            limbs.push(self.limbs[j]);
            j = j + 1;
        }
        proof {
            assert(limbs@ =~= Seq::new(k as nat, |t: int| 0u64) + self.limbs@);
            lemma_value_zeros_prefix(k as nat, self.limbs@);
        }
        BigNat { limbs }
    }

    /// The product of two numbers.
    pub fn times(&self, other: &BigNat) -> (r: BigNat)
        ensures
            r@ == self@ * other@,
    {
        let ghost s = other.limbs@;
        let mut acc = BigNat::from_u64(0);
        proof {
            assert(limbs_value(Seq::<u64>::empty()) == 0);
            assert(s.take(0) =~= Seq::<u64>::empty());
            assert(self@ * 0 == 0) by (nonlinear_arith);
        }
        let mut i: usize = 0;
        while i < other.limbs.len()
            invariant
                i <= other.limbs.len(),
                s == other.limbs@,
                acc@ == self@ * limbs_value(s.take(i as int)),
            decreases other.limbs.len() - i,
        {
            let part = self.times_limb(other.limbs[i]);
            let shifted_part = part.shifted(i);
            let next = acc.plus(&shifted_part);
            proof {
                let bi = s[i as int];
                let p = pow2((64 * i) as nat);
                lemma_value_take_succ(s, i as int);
                assert(self@ * limbs_value(s.take(i as int)) + p * (self@ * bi)
                    == self@ * limbs_value(s.take(i as int + 1)))
                    by (nonlinear_arith)
                    requires
                        limbs_value(s.take(i as int + 1))
                            == limbs_value(s.take(i as int)) + bi * p,
                ;
            }
            acc = next;
            i = i + 1;
        }
        proof {
            assert(s.take(other.limbs.len() as int) =~= s);
        }
        acc
    }

    /// Ten raised to the given power.
    pub fn pow10(k: u32) -> (r: BigNat)
        ensures
            r@ == pow(10, k as nat),
    {
        let mut r = BigNat::from_u64(1);
        proof {
            vstd::arithmetic::power::lemma_pow0(10);
        }
        let mut i: u32 = 0;
        while i < k
            invariant
                i <= k,
                r@ == pow(10, i as nat),
            decreases k - i,
        {
            let next = r.times_limb(10);
            proof {
                vstd::arithmetic::power::lemma_pow1(10);
                vstd::arithmetic::power::lemma_pow_adds(10, i as nat, 1);
            }
            r = next;
            i = i + 1;
        }
        r
    }

    /// The fixed-point scale of a square-root price squared: `2^192`, since the
    /// encoding carries 96 fractional bits and the price squares it.
    pub fn x96_squared_scale() -> (r: BigNat)
        ensures
            r@ == pow2(192),
    {
        let one = BigNat::from_u64(1);
        let r = one.shifted(3);
        proof {
            assert(pow2(192) * 1 == pow2(192));
        }
        r
    }
}

} // verus!
