//! The finite ring of integers modulo the Mersenne prime 2^31 - 1.
//!
//! Every element is kept fully reduced: the stored value is always in
//! `[0, MODULUS)`.  Addition and multiplication reduce their results with a
//! branch-free fold that exploits `2^31 == 1 (mod MODULUS)`, never a 64-bit
//! modulo instruction.

use vstd::prelude::*;
use vstd::arithmetic::div_mod::{
    lemma_add_mod_noop, lemma_fundamental_div_mod, lemma_mod_add_multiples_vanish,
    lemma_mod_bound, lemma_mod_twice, lemma_mul_mod_noop_general, lemma_small_mod,
    lemma_sub_mod_noop,
};
use vstd::arithmetic::power::{lemma_pow1, lemma_pow_adds, pow};
use vstd::arithmetic::power2::{lemma2_to64, lemma2_to64_rest, pow2};
use vstd::bits::{
    lemma_u32_low_bits_mask_is_mod, lemma_u32_shr_is_div, lemma_u64_low_bits_mask_is_mod,
    lemma_u64_shr_is_div,
};

verus! {

/// The modulus: the Mersenne prime 2^31 - 1.
pub const MODULUS: u32 = 2147483647;

/// Reduction of an integer into the ring: the representative in `[0, MODULUS)`.
pub open spec fn mred(x: int) -> int {
    x % (MODULUS as int)
}

/// Ring addition on representatives.
pub open spec fn madd(a: int, b: int) -> int {
    (a + b) % (MODULUS as int)
}

/// Ring subtraction on representatives.
pub open spec fn msub(a: int, b: int) -> int {
    (a - b) % (MODULUS as int)
}

/// Ring multiplication on representatives.
pub open spec fn mmul(a: int, b: int) -> int {
    (a * b) % (MODULUS as int)
}

/// Ring negation on representatives.
pub open spec fn mneg(a: int) -> int {
    (-a) % (MODULUS as int)
}

/// Whether a ring element has a multiplicative inverse.
pub open spec fn m_invertible(a: int) -> bool {
    exists|y: int| 0 <= y < MODULUS && mmul(a, y) == 1
}

/// The multiplicative inverse of a ring element (meaningful when
/// `m_invertible` holds; inverses are unique, see `lemma_minv_unique`).
pub open spec fn minv(a: int) -> int {
    choose|y: int| 0 <= y < MODULUS && mmul(a, y) == 1
}

/// A ring element: an unsigned integer kept reduced modulo 2^31 - 1.
#[derive(Clone, Copy, Debug, PartialEq, Eq, Structural)]
pub struct Mod231(pub u32);

impl View for Mod231 {
    type V = int;

    open spec fn view(&self) -> int {
        self.0 as int
    }
}

impl Mod231 {
    /// The representation invariant: the stored value is fully reduced.
    pub open spec fn wf(&self) -> bool {
        self.0 < MODULUS
    }
}

/// Fold the high bit onto the low 31 bits, then subtract the modulus until
/// reduced.  Correct because 2^31 is congruent to 1 modulo 2^31 - 1.
#[inline]
pub fn modulo(v: u32) -> (r: u32)
    ensures
        r == mred(v as int),
{
    let mut v: u32 = v;
    proof {
        lemma_mod_bound(v as int, MODULUS as int);
        if v < MODULUS {
            lemma_small_mod(v as nat, MODULUS as nat);
        }
    }
    if v >= MODULUS {
        let ghost v0: int = v as int;
        proof {
            lemma_u32_shr_is_div(v, 31);
            lemma_u32_low_bits_mask_is_mod(v, 31);
            vstd::bits::lemma_low_bits_mask_values();
            lemma2_to64();
            lemma_fundamental_div_mod(v as int, pow2(31) as int);
            // v = (v >> 31) * 2^31 + (v & MODULUS), and 2^31 == MODULUS + 1,
            // so v == (v >> 31) * MODULUS + ((v >> 31) + (v & MODULUS)).
            assert(v as int == (v as int / pow2(31) as int) * (MODULUS as int)
                + ((v >> 31) as int + (v & MODULUS) as int)) by {
                assert(pow2(31) == 0x80000000) by {
                    lemma2_to64_rest();
                }
            };
            lemma_mod_add_multiples_vanish(
                (v >> 31) as int + (v & MODULUS) as int,
                MODULUS as int,
            );
            assert(mred(((v >> 31) + (v & MODULUS)) as int) == mred(v as int)) by {
                lemma_mod_multiples_vanish_general(
                    v as int / pow2(31) as int,
                    (v >> 31) as int + (v & MODULUS) as int,
                );
            };
        }
        v = (v >> 31) + (v & MODULUS);
        while v >= MODULUS
            invariant
                mred(v as int) == mred(v0),
            decreases v,
        {
            proof {
                lemma_mod_add_multiples_vanish((v - MODULUS) as int, MODULUS as int);
            }
            v = v - MODULUS;
        }
        proof {
            lemma_small_mod(v as nat, MODULUS as nat);
        }
    }
    v
}

/// `x + k * MODULUS` and `x` have the same reduction, for any integer `k`.
proof fn lemma_mod_multiples_vanish_general(k: int, x: int)
    ensures
        mred(k * (MODULUS as int) + x) == mred(x),
{
    vstd::arithmetic::div_mod::lemma_mod_multiples_vanish(k, x, MODULUS as int);
}

/// Reduce a 64-bit value, with the same high/low folding done on 64 bits.
#[inline]
pub fn normalize_u64(v: u64) -> (r: u32)
    ensures
        r == mred(v as int),
{
    let mut v: u64 = v;
    let ghost v0: int = v as int;
    proof {
        lemma_mod_bound(v as int, MODULUS as int);
        if v < MODULUS as u64 {
            lemma_small_mod(v as nat, MODULUS as nat);
        }
    }
    if v >= MODULUS as u64 {
        proof {
            lemma_u64_shr_is_div(v, 31);
            lemma_u64_low_bits_mask_is_mod(v, 31);
            vstd::bits::lemma_low_bits_mask_values();
            lemma2_to64();
            lemma_fundamental_div_mod(v as int, pow2(31) as int);
            assert(v as int == (v as int / pow2(31) as int) * (MODULUS as int)
                + ((v >> 31) as int + (v & (MODULUS as u64)) as int)) by {
                assert(pow2(31) == 0x80000000) by {
                    lemma2_to64_rest();
                }
            };
            lemma_mod_multiples_vanish_general(
                v as int / pow2(31) as int,
                (v >> 31) as int + (v & (MODULUS as u64)) as int,
            );
        }
        v = (v >> 31) + (v & (MODULUS as u64));
        while v >= MODULUS as u64
            invariant
                mred(v as int) == mred(v0),
            decreases v,
        {
            proof {
                lemma_mod_add_multiples_vanish((v - MODULUS) as int, MODULUS as int);
            }
            v = v - MODULUS as u64;
        }
        proof {
            lemma_small_mod(v as nat, MODULUS as nat);
        }
    }
    v as u32
}

/// Same folding as `modulo`.
#[inline]
pub fn normalize(x: u32) -> (r: u32)
    ensures
        r == mred(x as int),
{
    modulo(x)
}

impl Mod231 {
    /// The additive identity.
    pub fn zero() -> (r: Self)
        ensures
            r.wf(),
            r@ == 0,
    {
        Mod231(0)
    }

    /// The multiplicative identity.
    pub fn one() -> (r: Self)
        ensures
            r.wf(),
            r@ == 1,
    {
        Mod231(1)
    }

    /// Whether this is the additive identity.
    pub fn is_zero(&self) -> (r: bool)
        ensures
            r == (self@ == 0),
    {
        self.0 == 0
    }

    /// Whether this is the multiplicative identity.
    pub fn is_one(&self) -> (r: bool)
        ensures
            r == (self@ == 1),
    {
        self.0 == 1
    }

    /// Ring addition.
    pub fn add(self, other: Self) -> (r: Self)
        requires
            self.wf(),
            other.wf(),
        ensures
            r.wf(),
            r@ == madd(self@, other@),
    {
        proof {
            lemma_mod_bound((self@ + other@) as int, MODULUS as int);
        }
        Mod231(normalize(self.0 + other.0))
    }

    /// Ring negation.
    pub fn neg(self) -> (r: Self)
        requires
            self.wf(),
        ensures
            r.wf(),
            r@ == mneg(self@),
    {
        proof {
            lemma_small_mod(self.0 as nat, MODULUS as nat);
            lemma_mod_add_multiples_vanish(-(self@), MODULUS as int);
            lemma_mod_bound(-(self@), MODULUS as int);
            if self.0 == 0 {
                lemma_small_mod(0nat, MODULUS as nat);
            } else {
                lemma_small_mod((MODULUS - self.0) as nat, MODULUS as nat);
            }
        }
        Mod231(modulo(MODULUS - normalize(self.0)))
    }

    /// Ring subtraction, as addition of the negation.
    pub fn sub(self, other: Self) -> (r: Self)
        requires
            self.wf(),
            other.wf(),
        ensures
            r.wf(),
            r@ == msub(self@, other@),
    {
        let r = Mod231(normalize(self.0 + other.neg().0));
        proof {
            lemma_add_mod_noop(self@, -(other@), MODULUS as int);
            lemma_small_mod(self.0 as nat, MODULUS as nat);
            lemma_mod_twice(self@ - other@, MODULUS as int);
            lemma_mod_bound(self@ - other@, MODULUS as int);
        }
        r
    }

    /// Ring multiplication: the 62-bit product is reduced on 64 bits.
    pub fn mul(self, other: Self) -> (r: Self)
        requires
            self.wf(),
            other.wf(),
        ensures
            r.wf(),
            r@ == mmul(self@, other@),
    {
        proof {
            lemma_mod_bound(self@ * other@, MODULUS as int);
            vstd::arithmetic::mul::lemma_mul_upper_bound(
                self@,
                (MODULUS - 1) as int,
                other@,
                (MODULUS - 1) as int,
            );
            vstd::arithmetic::mul::lemma_mul_nonnegative(self@, other@);
        }
        Mod231(normalize_u64(self.0 as u64 * other.0 as u64))
    }
}

/// Congruence helpers: the reduced operations depend only on the residues of
/// their arguments, and always produce a reduced result.
pub proof fn lemma_mred_small(a: int)
    requires
        0 <= a < MODULUS,
    ensures
        mred(a) == a,
{
    lemma_small_mod(a as nat, MODULUS as nat);
}

/// Reduction is idempotent.
pub proof fn lemma_mred_idem(a: int)
    ensures
        mred(mred(a)) == mred(a),
        0 <= mred(a) < MODULUS,
{
    lemma_mod_twice(a, MODULUS as int);
    lemma_mod_bound(a, MODULUS as int);
}

/// Addition respects congruence.
pub proof fn lemma_madd_noop(a: int, b: int)
    ensures
        madd(mred(a), mred(b)) == madd(a, b),
        0 <= madd(a, b) < MODULUS,
{
    lemma_add_mod_noop(a, b, MODULUS as int);
    lemma_mod_twice(a + b, MODULUS as int);
    lemma_mod_bound(a + b, MODULUS as int);
}

/// Subtraction respects congruence.
pub proof fn lemma_msub_noop(a: int, b: int)
    ensures
        msub(mred(a), mred(b)) == msub(a, b),
        0 <= msub(a, b) < MODULUS,
{
    lemma_sub_mod_noop(a, b, MODULUS as int);
    lemma_mod_twice(a - b, MODULUS as int);
    lemma_mod_bound(a - b, MODULUS as int);
}

/// Multiplication respects congruence.
pub proof fn lemma_mmul_noop(a: int, b: int)
    ensures
        mmul(mred(a), mred(b)) == mmul(a, b),
        0 <= mmul(a, b) < MODULUS,
{
    lemma_mul_mod_noop_general(a, b, MODULUS as int);
    lemma_mod_twice(a * b, MODULUS as int);
    lemma_mod_bound(a * b, MODULUS as int);
}

/// Negation respects congruence.
pub proof fn lemma_mneg_noop(a: int)
    ensures
        mneg(mred(a)) == mneg(a),
        0 <= mneg(a) < MODULUS,
{
    lemma_sub_mod_noop(0, a, MODULUS as int);
    lemma_mod_twice(-a, MODULUS as int);
    lemma_mod_bound(-a, MODULUS as int);
    assert(msub(0, mred(a)) == msub(0, a));
}

/// Multiplication of residues is associative.
pub proof fn lemma_mmul_assoc(a: int, b: int, c: int)
    ensures
        mmul(mmul(a, b), c) == mmul(a, mmul(b, c)),
{
    vstd::arithmetic::div_mod::lemma_mul_mod_noop_left(a * b, c, MODULUS as int);
    vstd::arithmetic::div_mod::lemma_mul_mod_noop_right(a, b * c, MODULUS as int);
    vstd::arithmetic::mul::lemma_mul_is_associative(a, b, c);
}

/// Multiplication of residues is commutative.
pub proof fn lemma_mmul_comm(a: int, b: int)
    ensures
        mmul(a, b) == mmul(b, a),
{
    vstd::arithmetic::mul::lemma_mul_is_commutative(a, b);
}

/// A ring element has at most one inverse.
pub proof fn lemma_minv_unique(a: int, y1: int, y2: int)
    requires
        0 <= y1 < MODULUS,
        0 <= y2 < MODULUS,
        mmul(a, y1) == 1,
        mmul(a, y2) == 1,
    ensures
        y1 == y2,
{
    // y1 == y1 * (a * y2) == (y1 * a) * y2 == y2 modulo MODULUS.
    lemma_mmul_assoc(y1, a, y2);
    lemma_mmul_comm(y1, a);
    lemma_mmul_noop(y1 * a, y2);
    lemma_mmul_noop(a, y2);
    lemma_mred_small(y1);
    lemma_mred_small(y2);
    assert(mmul(y1, mmul(a, y2)) == mmul(y1, 1));
    assert(mmul(y1, 1) == mred(y1 * 1));
    assert(mmul(mmul(y1, a), y2) == mmul(1, y2));
    assert(mmul(1, y2) == mred(1 * y2));
}

/// Any concrete inverse witness identifies the `minv` function's value.
pub proof fn lemma_minv_works(a: int, w: int)
    requires
        0 <= w < MODULUS,
        mmul(a, w) == 1,
    ensures
        m_invertible(a),
        minv(a) == w,
        mmul(a, minv(a)) == 1,
        mmul(minv(a), a) == 1,
{
    assert(m_invertible(a));
    let y = choose|y: int| 0 <= y < MODULUS && mmul(a, y) == 1;
    lemma_minv_unique(a, y, w);
    lemma_mmul_comm(a, w);
}

/// The multiplicative-inverse law: from any inverse witness for `x`, both
/// `x * invert(x) == one` and `invert(invert(x)) == x` follow.
pub proof fn lemma_ring_inverse(x: int, w: int)
    requires
        0 <= x < MODULUS,
        0 <= w < MODULUS,
        mmul(x, w) == 1,
    ensures
        m_invertible(x),
        mmul(x, minv(x)) == 1,
        mmul(minv(x), x) == 1,
        minv(minv(x)) == x,
{
    lemma_minv_works(x, w);
    lemma_mmul_comm(x, w);
    lemma_minv_works(w, x);
}

/// Subtraction is addition of the negation.
pub proof fn lemma_msub_is_add_neg(x: int, y: int)
    ensures
        madd(x, mneg(y)) == msub(x, y),
{
    lemma_madd_noop(x, -y);
    lemma_mred_idem(x);
    lemma_mred_idem(-y);
    lemma_msub_noop(0, y);
}

/// Double negation is the identity on reduced ring elements.
pub proof fn lemma_double_neg(x: int)
    requires
        0 <= x < MODULUS,
    ensures
        mneg(mneg(x)) == x,
{
    lemma_mneg_noop(x);
    lemma_sub_mod_noop(0, -x, MODULUS as int);
    lemma_mod_twice(x, MODULUS as int);
    lemma_mred_small(x);
    assert(mneg(mneg(x)) == mred(mred(x))) by {
        assert(msub(0, mred(-x)) == msub(0, -x));
    };
}

/// Relies on `modinverse::modinverse`: for a positive modulus `m` it returns
/// the inverse of `a` modulo `m` in the canonical range `[0, m)` when
/// `gcd(a, m) == 1`, and `None` when no inverse exists.  The modulus
/// 2147483647 = 2^31 - 1 is prime, so every `a` with `0 < a < MODULUS` is
/// coprime to it and the call returns `Some`.
#[verifier::external_body]
fn mod_inverse_u32(a: u32) -> (r: u32)
    requires
        0 < a < MODULUS,
    ensures
        r < MODULUS,
        mmul(a as int, r as int) == 1,
{
    modinverse::modinverse(a as i64, MODULUS as i64).unwrap() as u32
}

impl Mod231 {
    /// The multiplicative inverse, or `None` exactly for zero.
    pub fn try_invert(&self) -> (r: Option<Mod231>)
        requires
            self.wf(),
        ensures
            (r is Some) == (self@ != 0),
            r matches Some(v) ==> {
                &&& v.wf()
                &&& v@ == minv(self@)
                &&& mmul(self@, v@) == 1
                &&& mmul(v@, self@) == 1
                &&& m_invertible(self@)
            },
    {
        if self.0 == 0 {
            None
        } else {
            let w = mod_inverse_u32(self.0);
            proof {
                lemma_minv_works(self@, w as int);
            }
            Some(Mod231(w))
        }
    }

    /// The multiplicative inverse of a nonzero element.
    pub fn recip(&self) -> (r: Mod231)
        requires
            self.wf(),
            self@ != 0,
        ensures
            r.wf(),
            r@ == minv(self@),
            mmul(self@, r@) == 1,
            mmul(r@, self@) == 1,
    {
        match self.try_invert() {
            Some(v) => v,
            None => vstd::pervasive::unreached(),
        }
    }

    /// Division: multiplication by the inverse of the divisor.
    pub fn div(self, other: Self) -> (r: Self)
        requires
            self.wf(),
            other.wf(),
            other@ != 0,
        ensures
            r.wf(),
            r@ == mmul(self@, minv(other@)),
    {
        self.mul(other.recip())
    }
}

/// The candidate square root: `a^((MODULUS + 1) / 4)`, where
/// `(MODULUS + 1) / 4 == 2^29`.
pub open spec fn sqrt_cand(a: int) -> int {
    pow(a, pow2(29)) % (MODULUS as int)
}

/// Raise a ring element to the power 2^29 by 29 squarings.
fn pow_2_29(a: Mod231) -> (r: Mod231)
    requires
        a.wf(),
    ensures
        r.wf(),
        r@ == sqrt_cand(a@),
{
    let mut x: Mod231 = a;
    let mut n: u32 = 0;
    proof {
        lemma_pow1(a@);
        vstd::arithmetic::power2::lemma_pow2_unfold(1);
        assert(pow2(0) == 1) by {
            lemma2_to64();
        };
        lemma_mred_small(a@);
    }
    while n < 29
        invariant
            n <= 29,
            x.wf(),
            a.wf(),
            x@ == pow(a@, pow2(n as nat)) % (MODULUS as int),
        decreases 29 - n,
    {
        proof {
            let p = pow(a@, pow2(n as nat));
            lemma_mul_mod_noop_general(p, p, MODULUS as int);
            lemma_pow_adds(a@, pow2(n as nat), pow2(n as nat));
            vstd::arithmetic::power2::lemma_pow2_unfold((n + 1) as nat);
            assert(pow2(n as nat) + pow2(n as nat) == pow2((n + 1) as nat));
        }
        x = x.mul(x);
        n = n + 1;
    }
    x
}

/// Try to solve `x^2 == a` in the ring.  Since `MODULUS == 3 (mod 4)`, the
/// solution, if one exists, is `a^((MODULUS + 1) / 4)`; the candidate is
/// verified by squaring.
pub fn try_sqrt(a: Mod231) -> (r: Option<Mod231>)
    requires
        a.wf(),
    ensures
        r == if mmul(sqrt_cand(a@), sqrt_cand(a@)) == a@ {
            Some(Mod231(sqrt_cand(a@) as u32))
        } else {
            None::<Mod231>
        },
        r matches Some(x) ==> x.wf() && mmul(x@, x@) == a@,
{
    let x = pow_2_29(a);
    if x.mul(x) == a {
        Some(x)
    } else {
        None
    }
}

impl From<u32> for Mod231 {
    /// Reduces the input into the ring.
    fn from(x: u32) -> (r: Self) {
        proof {
            lemma_mod_bound(x as int, MODULUS as int);
        }
        Mod231(normalize(x))
    }
}

impl vstd::std_specs::convert::FromSpecImpl<u32> for Mod231 {
    open spec fn obeys_from_spec() -> bool {
        true
    }

    open spec fn from_spec(x: u32) -> Self {
        Mod231((mred(x as int)) as u32)
    }
}

} // verus!

verus! {

impl crate::Invertible for Mod231 {
    open spec fn inv_wf(&self) -> bool {
        self.wf()
    }

    open spec fn spec_invertible(&self) -> bool {
        self@ != 0
    }

    open spec fn spec_inverse(&self) -> Mod231 {
        Mod231(minv(self@) as u32)
    }

    fn try_invert(&self) -> (r: Option<Mod231>) {
        let r = Mod231::try_invert(self);
        proof {
            if self@ != 0 {
                match r {
                    Some(v) => {
                        assert(v == self.spec_inverse());
                    },
                    None => {
                    },
                }
            }
        }
        r
    }

    fn invert(&self) -> (r: Mod231) {
        self.recip()
    }
}

} // verus!
