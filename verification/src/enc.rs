//! The encryption protocol: key pairs of mutually inverse random matrices,
//! embedding of a value into a noisy upper-triangular matrix, and
//! conjugation of the embedding by the key pair.  Addition and
//! multiplication of ciphertexts decrypt to modular addition and
//! multiplication of the plaintexts.

use vstd::prelude::*;
use crate::mod231::{
    lemma_madd_noop, lemma_mred_idem, lemma_mred_small, lemma_msub_noop, madd, mmul, mneg, mred,
    msub, Mod231, MODULUS,
};
use crate::quaternion::{lemma_qmul_real, qnorm2, qreal, QuaternionM};
use crate::matrix::{
    invert_3x3, lemma_m3mul_assoc, lemma_m3mul_dist, lemma_m3mul_id, lemma_m3mul_neg,
    lemma_m3red_wf, lemma_m3upper_add, lemma_m3upper_mul, lemma_m3upper_neg, m3add, m3id, m3mul,
    m3neg, m3sub, m3upper, m3wf, Matrix3, M3V,
};

verus! {

/// Relies on `rand::random::<u32>`: a process-wide random 32-bit value.
/// Nothing is assumed of the result.
#[verifier::external_body]
fn random_u32() -> u32 {
    rand::random::<u32>()
}

/// A random, reduced ring element.
fn random_mod231() -> (r: Mod231)
    ensures
        r.wf(),
{
    let r = Mod231::from(random_u32());
    proof {
        lemma_mred_idem(0);
    }
    r
}

/// A random quaternion with reduced coordinates.
fn random_quaternion() -> (r: QuaternionM)
    ensures
        r.wf(),
{
    QuaternionM::new(random_mod231(), random_mod231(), random_mod231(), random_mod231())
}

/// Builds the closing quaternion for the noise block: its imaginary part
/// is the sampled one and its real part is a square root of the negated
/// squared imaginary norm, so its squared norm is zero.  Roughly every
/// second sample admits such a root; the loop retries until one appears.
fn closing_quaternion() -> (r: QuaternionM)
    ensures
        r.wf(),
        qnorm2(r@) == 0,
{
    let mut attempts: u64 = 0;
    while attempts < 0xFFFF_FFFF_FFFF_FFFF
        invariant
            true,
        decreases 0xFFFF_FFFF_FFFF_FFFFu64 - attempts,
    {
        let ci = random_mod231();
        let cj = random_mod231();
        let ck = random_mod231();
        let y = ci.mul(ci).add(cj.mul(cj)).add(ck.mul(ck));
        match crate::mod231::try_sqrt(y.neg()) {
            Some(x) => {
                let r = QuaternionM::new(x, ci, cj, ck);
                proof {
                    let a = ci@;
                    let b = cj@;
                    let c = ck@;
                    let s = x@;
                    assert(y@ == mred(a * a + b * b + c * c)) by {
                        lemma_madd_noop(a * a, b * b);
                        lemma_madd_noop(a * a + b * b, c * c);
                        lemma_mred_idem(a * a);
                        lemma_mred_idem(b * b);
                        lemma_mred_idem(c * c);
                        lemma_mred_idem(a * a + b * b);
                    };
                    assert(qnorm2(r@) == mred(s * s + (a * a + b * b + c * c)));
                    assert(mred(s * s) == mneg(y@));
                    assert(qnorm2(r@) == madd(mneg(y@), y@)) by {
                        lemma_madd_noop(s * s, a * a + b * b + c * c);
                        lemma_mred_idem(s * s);
                        lemma_mred_small(y@);
                    };
                    assert(madd(mneg(y@), y@) == 0) by {
                        lemma_madd_noop(-(y@), y@);
                        lemma_mred_idem(-(y@));
                        lemma_mred_small(y@);
                        assert(mred(-(y@) + y@) == 0) by {
                            lemma_mred_small(0);
                        };
                    };
                }
                return r;
            },
            None => {
            },
        }
        attempts = attempts + 1;
    }
    // Unreachable in practice: each attempt succeeds with probability
    // about one half.  The zero quaternion also has a zero squared norm.
    let r = QuaternionM::zero();
    proof {
        lemma_mred_small(0);
    }
    r
}

/// Embeds a quaternion into a noisy 3x3 matrix: the payload sits at the
/// top-left cell, the cells above the diagonal and the bottom-right corner
/// hold random quaternions, the middle cell holds a closing quaternion of
/// zero squared norm, and everything below the diagonal is zero.  The
/// result is upper triangular and, by design, not invertible.
pub fn embed(q: QuaternionM) -> (r: Matrix3)
    requires
        q.wf(),
    ensures
        r.wf(),
        m3upper(r@),
        r@.c00 == q@,
        qnorm2(r@.c11) == 0,
{
    let z = QuaternionM::zero();
    Matrix3::new(
        q,
        random_quaternion(),
        random_quaternion(),
        z,
        closing_quaternion(),
        random_quaternion(),
        z,
        z,
        random_quaternion(),
    )
}

/// Extracts the payload quaternion from the designated cell of an
/// embedding: the left inverse of `embed` up to the random noise.
pub fn project(m: &Matrix3) -> (r: QuaternionM)
    ensures
        r@ == m@.c00,
{
    m.m00
}

/// The spec-level view of a key pair: the forward matrix and its inverse.
pub struct KPV {
    pub f: M3V,
    pub b: M3V,
}

/// A well-formed key pair: both matrices reduced and mutually inverse.
pub open spec fn kp_wf(kp: KPV) -> bool {
    &&& m3wf(kp.f)
    &&& m3wf(kp.b)
    &&& m3mul(kp.f, kp.b) == m3id()
    &&& m3mul(kp.b, kp.f) == m3id()
}

/// A key pair: a random invertible matrix and its inverse, used for
/// encrypting and decrypting data.
pub struct KeyPair {
    forwards: Matrix3,
    backwards: Matrix3,
}

impl View for KeyPair {
    type V = KPV;

    closed spec fn view(&self) -> KPV {
        KPV { f: self.forwards@, b: self.backwards@ }
    }
}

impl KeyPair {
    /// The key pair invariant: it holds of every `KeyPair` by
    /// construction, since both constructors establish it.
    #[verifier::type_invariant]
    pub open spec fn wf(&self) -> bool {
        kp_wf(self@)
    }

    /// Generates a new random key pair by rejection sampling: a fresh
    /// random matrix is drawn until one is invertible, and is stored with
    /// its inverse.
    pub fn new() -> (r: Self)
        ensures
            r.wf(),
    {
        let mut attempts: u64 = 0;
        while attempts < 0xFFFF_FFFF_FFFF_FFFF
            invariant
                true,
            decreases 0xFFFF_FFFF_FFFF_FFFFu64 - attempts,
        {
            let forwards = Matrix3::new(
                random_quaternion(),
                random_quaternion(),
                random_quaternion(),
                random_quaternion(),
                random_quaternion(),
                random_quaternion(),
                random_quaternion(),
                random_quaternion(),
                random_quaternion(),
            );
            match invert_3x3(&forwards) {
                Some(backwards) => {
                    return KeyPair { forwards, backwards };
                },
                None => {
                },
            }
            attempts = attempts + 1;
        }
        // Unreachable in practice: a random matrix is almost always
        // invertible.  The identity pair satisfies the invariant.
        KeyPair { forwards: Matrix3::identity(), backwards: Matrix3::identity() }
    }

    /// The forward key matrix.
    pub fn forwards(&self) -> (r: Matrix3)
        ensures
            r@ == self@.f,
            r.wf(),
    {
        proof {
            use_type_invariant(&*self);
        }
        self.forwards
    }

    /// The backward key matrix.
    pub fn backwards(&self) -> (r: Matrix3)
        ensures
            r@ == self@.b,
            r.wf(),
    {
        proof {
            use_type_invariant(&*self);
        }
        self.backwards
    }

    /// Rebuilds a key pair from its two matrices, accepting them only when
    /// they are mutually inverse.
    pub fn from_matrices(forwards: Matrix3, backwards: Matrix3) -> (r: Option<KeyPair>)
        ensures
            (r is Some) == (forwards.wf() && backwards.wf() && m3mul(forwards@, backwards@)
                == m3id() && m3mul(backwards@, forwards@) == m3id()),
            r matches Some(kp) ==> kp.wf() && kp@.f == forwards@ && kp@.b == backwards@,
    {
        if !forwards.is_reduced() || !backwards.is_reduced() {
            return None;
        }
        let id = Matrix3::identity();
        let fb = forwards.mul(backwards);
        let bf = backwards.mul(forwards);
        if fb == id && bf == id {
            Some(KeyPair { forwards, backwards })
        } else {
            proof {
                if m3mul(forwards@, backwards@) == m3id() && m3mul(backwards@, forwards@)
                    == m3id() {
                    assert(fb == id);
                    assert(bf == id);
                }
            }
            None
        }
    }
}

impl Default for KeyPair {
    /// Creates a randomized key pair.
    fn default() -> (r: Self)
        ensures
            r.wf(),
    {
        Self::new()
    }
}

/// What it means for `c` to be a ciphertext of the plaintext residue `v`
/// under the key pair `kp`: some well-formed upper-triangular embedding
/// with `v` in its payload cell, conjugated by the pair.
pub open spec fn is_cipher(kp: KPV, c: M3V, v: int) -> bool {
    exists|e: M3V|
        {
            &&& m3wf(e)
            &&& m3upper(e)
            &&& e.c00 == qreal(v)
            &&& c == #[trigger] m3mul(m3mul(kp.f, e), kp.b)
        }
}

/// The value read back by decryption: the real part of the payload cell of
/// the mirror conjugation.
pub open spec fn dec_spec(kp: KPV, c: M3V) -> int {
    m3mul(m3mul(kp.b, c), kp.f).c00.w
}

/// Conjugating by the pair and then by the mirrored pair gives back the
/// original matrix.
pub proof fn lemma_conjugation_cancels(kp: KPV, x: M3V)
    requires
        kp_wf(kp),
        m3wf(x),
    ensures
        m3mul(m3mul(kp.b, m3mul(m3mul(kp.f, x), kp.b)), kp.f) == x,
{
    let fx = m3mul(kp.f, x);
    let c = m3mul(fx, kp.b);
    lemma_m3mul_assoc(kp.b, fx, kp.b);
    lemma_m3mul_assoc(kp.b, kp.f, x);
    lemma_m3mul_id(x);
    // b (fx b) == (b fx) b == ((b f) x) b == x b
    assert(m3mul(kp.b, c) == m3mul(x, kp.b)) by {
        assert(m3mul(kp.b, c) == m3mul(m3mul(kp.b, fx), kp.b)) by {
            lemma_m3mul_assoc(kp.b, fx, kp.b);
        };
        assert(m3mul(kp.b, fx) == m3mul(m3mul(kp.b, kp.f), x));
    };
    lemma_m3mul_assoc(x, kp.b, kp.f);
}

/// Round trip: a ciphertext of `v` under a well-formed key pair decrypts
/// to `v`, for every plaintext residue `v`.
pub proof fn lemma_cipher_decrypts(kp: KPV, c: M3V, v: int)
    requires
        kp_wf(kp),
        is_cipher(kp, c, v),
        0 <= v < MODULUS,
    ensures
        dec_spec(kp, c) == v,
{
    let e = choose|e: M3V|
        {
            &&& m3wf(e)
            &&& m3upper(e)
            &&& e.c00 == qreal(v)
            &&& c == #[trigger] m3mul(m3mul(kp.f, e), kp.b)
        };
    lemma_conjugation_cancels(kp, e);
    lemma_mred_small(v);
}

/// Adding ciphertexts adds the plaintexts modulo `MODULUS`.
pub proof fn lemma_cipher_add(kp: KPV, c1: M3V, c2: M3V, x: int, y: int)
    requires
        is_cipher(kp, c1, x),
        is_cipher(kp, c2, y),
    ensures
        is_cipher(kp, m3add(c1, c2), madd(x, y)),
{
    let e1 = choose|e: M3V|
        {
            &&& m3wf(e)
            &&& m3upper(e)
            &&& e.c00 == qreal(x)
            &&& c1 == #[trigger] m3mul(m3mul(kp.f, e), kp.b)
        };
    let e2 = choose|e: M3V|
        {
            &&& m3wf(e)
            &&& m3upper(e)
            &&& e.c00 == qreal(y)
            &&& c2 == #[trigger] m3mul(m3mul(kp.f, e), kp.b)
        };
    let e = m3add(e1, e2);
    lemma_m3red_wf(crate::matrix::m3addu(e1, e2));
    lemma_m3upper_add(e1, e2);
    assert(e.c00 == qreal(madd(x, y))) by {
        lemma_madd_noop(x, y);
        lemma_mred_idem(x + y);
    };
    lemma_m3mul_dist(kp.f, e1, e2);
    lemma_m3mul_dist(m3mul(kp.f, e1), m3mul(kp.f, e2), kp.b);
    assert(m3add(c1, c2) == m3mul(m3mul(kp.f, e), kp.b));
}

/// Multiplying ciphertexts multiplies the plaintexts modulo `MODULUS`.
pub proof fn lemma_cipher_mul(kp: KPV, c1: M3V, c2: M3V, x: int, y: int)
    requires
        kp_wf(kp),
        is_cipher(kp, c1, x),
        is_cipher(kp, c2, y),
    ensures
        is_cipher(kp, m3mul(c1, c2), mmul(x, y)),
{
    let e1 = choose|e: M3V|
        {
            &&& m3wf(e)
            &&& m3upper(e)
            &&& e.c00 == qreal(x)
            &&& c1 == #[trigger] m3mul(m3mul(kp.f, e), kp.b)
        };
    let e2 = choose|e: M3V|
        {
            &&& m3wf(e)
            &&& m3upper(e)
            &&& e.c00 == qreal(y)
            &&& c2 == #[trigger] m3mul(m3mul(kp.f, e), kp.b)
        };
    let e = m3mul(e1, e2);
    lemma_m3red_wf(crate::matrix::m3mulu(e1, e2));
    lemma_m3upper_mul(e1, e2);
    assert(e.c00 == qreal(mmul(x, y))) by {
        lemma_qmul_real(x, y);
    };
    let a = m3mul(kp.f, e1);
    let cc = m3mul(kp.f, e2);
    // c1 c2 == (a b)(cc b) == a (b (cc b)) == a ((b cc) b) == a (e2 b)
    //        == (a e2) b == (f (e1 e2)) b
    lemma_m3mul_assoc(a, kp.b, m3mul(cc, kp.b));
    lemma_m3mul_assoc(kp.b, cc, kp.b);
    lemma_m3mul_assoc(kp.b, kp.f, e2);
    lemma_m3mul_id(e2);
    assert(m3mul(kp.b, cc) == e2) by {
        assert(m3mul(kp.b, cc) == m3mul(m3mul(kp.b, kp.f), e2));
    };
    lemma_m3mul_assoc(a, e2, kp.b);
    lemma_m3mul_assoc(kp.f, e1, e2);
    assert(m3mul(c1, c2) == m3mul(m3mul(kp.f, e), kp.b)) by {
        assert(m3mul(c1, c2) == m3mul(a, m3mul(kp.b, m3mul(cc, kp.b))));
        assert(m3mul(kp.b, m3mul(cc, kp.b)) == m3mul(m3mul(kp.b, cc), kp.b));
        assert(m3mul(c1, c2) == m3mul(a, m3mul(e2, kp.b)));
        assert(m3mul(c1, c2) == m3mul(m3mul(a, e2), kp.b));
        assert(m3mul(a, e2) == m3mul(kp.f, e));
    };
}

/// Negating a ciphertext negates the plaintext modulo `MODULUS`.
pub proof fn lemma_cipher_neg(kp: KPV, c1: M3V, x: int)
    requires
        is_cipher(kp, c1, x),
    ensures
        is_cipher(kp, m3neg(c1), mneg(x)),
{
    let e1 = choose|e: M3V|
        {
            &&& m3wf(e)
            &&& m3upper(e)
            &&& e.c00 == qreal(x)
            &&& c1 == #[trigger] m3mul(m3mul(kp.f, e), kp.b)
        };
    let e = m3neg(e1);
    lemma_m3red_wf(crate::matrix::m3negu(e1));
    lemma_m3upper_neg(e1);
    assert(e.c00 == qreal(mneg(x))) by {
        lemma_msub_noop(0, x);
        lemma_mred_idem(-x);
        assert(msub(0, mred(x)) == msub(0, x));
    };
    lemma_m3mul_neg(kp.f, e1);
    lemma_m3mul_neg(m3mul(kp.f, e1), kp.b);
    assert(m3neg(c1) == m3mul(m3mul(kp.f, e), kp.b));
}

/// Subtracting ciphertexts subtracts the plaintexts modulo `MODULUS`.
pub proof fn lemma_cipher_sub(kp: KPV, c1: M3V, c2: M3V, x: int, y: int)
    requires
        is_cipher(kp, c1, x),
        is_cipher(kp, c2, y),
    ensures
        is_cipher(kp, m3sub(c1, c2), msub(x, y)),
{
    lemma_cipher_neg(kp, c2, y);
    lemma_cipher_add(kp, c1, m3neg(c2), x, mneg(y));
    crate::matrix::lemma_m3sub_as_add_neg(c1, c2);
    crate::mod231::lemma_msub_is_add_neg(x, y);
}


/// Wrapper type lifting `u32` values to a form on which homomorphic
/// addition and multiplication are defined.
#[derive(Clone, Copy, Debug, PartialEq, Eq, Structural)]
pub struct Enc {
    inner: Matrix3,
}

impl View for Enc {
    type V = M3V;

    closed spec fn view(&self) -> M3V {
        self.inner@
    }
}

impl Enc {
    /// The ciphertext invariant: every coordinate reduced.  It holds of
    /// every `Enc` value by construction.
    #[verifier::type_invariant]
    pub open spec fn wf(&self) -> bool {
        m3wf(self@)
    }

    /// The underlying ciphertext matrix.
    pub fn matrix(&self) -> (r: Matrix3)
        ensures
            r@ == self@,
            r.wf(),
    {
        proof {
            use_type_invariant(&*self);
        }
        self.inner
    }

    /// Rebuilds a ciphertext from its matrix, accepting it only when every
    /// coordinate is reduced.
    pub fn from_matrix(m: Matrix3) -> (r: Option<Enc>)
        ensures
            (r is Some) == m.wf(),
            r matches Some(c) ==> c@ == m@,
    {
        if m.is_reduced() {
            Some(Enc { inner: m })
        } else {
            None
        }
    }

    /// Encrypts a value: reduce it into the ring, lift it to a real
    /// quaternion, embed it into a noisy matrix, and conjugate the
    /// embedding by the key pair.
    pub fn enc(key_pair: &KeyPair, value: u32) -> (r: Self)
        ensures
            r.wf(),
            is_cipher(key_pair@, r@, mred(value as int)),
    {
        let q = QuaternionM::from_real(Mod231::from(value));
        let e = embed(q);
        let inner = key_pair.forwards().mul(e).mul(key_pair.backwards());
        proof {
            lemma_mred_idem(value as int);
            assert(e@.c00 == qreal(mred(value as int)));
            assert(inner@ == m3mul(m3mul(key_pair@.f, e@), key_pair@.b));
        }
        Self { inner }
    }

    /// Decrypts a ciphertext: conjugate by the mirrored pair and read the
    /// real part of the payload cell.  For every plaintext residue that
    /// the ciphertext encrypts under a well-formed pair, this returns
    /// exactly that residue.
    pub fn dec(&self, key_pair: &KeyPair) -> (r: u32)
        ensures
            r as int == dec_spec(key_pair@, self@),
            forall|v: int|
                kp_wf(key_pair@) && #[trigger] is_cipher(key_pair@, self@, v) && 0 <= v < MODULUS
                    ==> r == v,
    {
        proof {
            use_type_invariant(&*self);
        }
        let m = key_pair.backwards().mul(self.inner).mul(key_pair.forwards());
        let r = m.m00.w.0;
        proof {
            assert forall|v: int|
                kp_wf(key_pair@) && #[trigger] is_cipher(key_pair@, self@, v) && 0 <= v
                    < MODULUS implies r == v by {
                lemma_cipher_decrypts(key_pair@, self@, v);
            };
        }
        r
    }

    /// Homomorphic addition: elementwise matrix addition.
    pub fn add(self, rhs: Self) -> (r: Self)
        ensures
            r.wf(),
            r@ == m3add(self@, rhs@),
    {
        proof {
            use_type_invariant(&self);
            use_type_invariant(&rhs);
        }
        Self { inner: self.inner.add(rhs.inner) }
    }

    /// Homomorphic multiplication: matrix multiplication.
    pub fn mul(self, rhs: Self) -> (r: Self)
        ensures
            r.wf(),
            r@ == m3mul(self@, rhs@),
    {
        proof {
            use_type_invariant(&self);
            use_type_invariant(&rhs);
        }
        Self { inner: self.inner.mul(rhs.inner) }
    }

    /// Homomorphic subtraction: elementwise matrix subtraction.
    pub fn sub(self, rhs: Self) -> (r: Self)
        ensures
            r.wf(),
            r@ == m3sub(self@, rhs@),
    {
        proof {
            use_type_invariant(&self);
            use_type_invariant(&rhs);
        }
        Self { inner: self.inner.sub(rhs.inner) }
    }

    /// Homomorphic negation: elementwise matrix negation.
    pub fn neg(self) -> (r: Self)
        ensures
            r.wf(),
            r@ == m3neg(self@),
    {
        proof {
            use_type_invariant(&self);
        }
        Self { inner: self.inner.neg() }
    }
}

/// Helper trait for encrypting data.
pub trait Encrypt {
    type Output;

    /// Encrypts data using `key_pair`.
    fn encrypt(key_pair: &KeyPair, value: u32) -> Self::Output;
}

/// Helper trait for decrypting data.
pub trait Decrypt {
    type Output;

    /// Decrypts `self` using `key_pair`.
    fn decrypt(&self, key_pair: &KeyPair) -> Self::Output;
}

impl Encrypt for Enc {
    type Output = Enc;

    fn encrypt(key_pair: &KeyPair, value: u32) -> Self::Output {
        Enc::enc(key_pair, value)
    }
}

impl Decrypt for Enc {
    type Output = u32;

    fn decrypt(&self, key_pair: &KeyPair) -> Self::Output {
        self.dec(key_pair)
    }
}

/// Encrypts every element of a vector under one key pair.
pub fn encrypt_vec(key_pair: &KeyPair, v: Vec<u32>) -> (r: Vec<Enc>)
    ensures
        r@.len() == v@.len(),
        forall|n: int|
            0 <= n < v@.len() ==> (#[trigger] r@[n]).wf() && is_cipher(
                key_pair@,
                r@[n]@,
                mred(v@[n] as int),
            ),
{
    let mut out: Vec<Enc> = Vec::new();
    let mut idx: usize = 0;
    while idx < v.len()
        invariant
            idx <= v@.len(),
            out@.len() == idx,
            forall|n: int|
                0 <= n < idx ==> (#[trigger] out@[n]).wf() && is_cipher(
                    key_pair@,
                    out@[n]@,
                    mred(v@[n] as int),
                ),
        decreases v@.len() - idx,
    {
        out.push(Enc::enc(key_pair, v[idx]));
        idx = idx + 1;
    }
    out
}

/// The running value of the encrypted dot product after `k` loop steps:
/// the first product is counted once more than the others, exactly as the
/// accumulator is seeded.
pub open spec fn dot_acc(v: Seq<Enc>, w: Seq<Enc>, k: nat) -> M3V
    decreases k,
{
    if k == 0 {
        m3mul(v[0]@, w[0]@)
    } else {
        m3add(dot_acc(v, w, (k - 1) as nat), m3mul(v[k - 1]@, w[k - 1]@))
    }
}

/// The dot product of two equally long vectors of ciphertexts: the sum of
/// the elementwise products, with the first product counted twice (the
/// accumulator is seeded with it before the loop runs over every index).
pub fn dot_product_enc(v: &Vec<Enc>, w: &Vec<Enc>) -> (r: Enc)
    requires
        v@.len() == w@.len(),
        v@.len() > 0,
    ensures
        r.wf(),
        r@ == dot_acc(v@, w@, v@.len() as nat),
{
    let length = v.len();
    let mut sum = v[0].mul(w[0]);
    let mut index: usize = 0;
    while index < length
        invariant
            length == v@.len(),
            length == w@.len(),
            length > 0,
            index <= length,
            sum.wf(),
            sum@ == dot_acc(v@, w@, index as nat),
        decreases length - index,
    {
        sum = sum.add(v[index].mul(w[index]));
        index = index + 1;
    }
    sum
}


/// The running plaintext value matching `dot_acc`: the first product is
/// counted once more than the others.
pub open spec fn dotv_acc(xs: Seq<int>, ys: Seq<int>, k: nat) -> int
    decreases k,
{
    if k == 0 {
        mmul(xs[0], ys[0])
    } else {
        madd(dotv_acc(xs, ys, (k - 1) as nat), mmul(xs[k - 1], ys[k - 1]))
    }
}

/// The encrypted dot product of ciphertext vectors is a ciphertext of the
/// dot product of the plaintexts, seeded value included.
pub proof fn lemma_dot_acc_cipher(
    kp: KPV,
    v: Seq<Enc>,
    w: Seq<Enc>,
    xs: Seq<int>,
    ys: Seq<int>,
    k: nat,
)
    requires
        kp_wf(kp),
        v.len() == w.len(),
        xs.len() == v.len(),
        ys.len() == v.len(),
        v.len() > 0,
        k <= v.len(),
        forall|n: int| 0 <= n < v.len() ==> is_cipher(kp, (#[trigger] v[n])@, xs[n]),
        forall|n: int| 0 <= n < w.len() ==> is_cipher(kp, (#[trigger] w[n])@, ys[n]),
    ensures
        is_cipher(kp, dot_acc(v, w, k), dotv_acc(xs, ys, k)),
    decreases k,
{
    if k == 0 {
        lemma_cipher_mul(kp, v[0]@, w[0]@, xs[0], ys[0]);
    } else {
        lemma_dot_acc_cipher(kp, v, w, xs, ys, (k - 1) as nat);
        lemma_cipher_mul(kp, v[k - 1]@, w[k - 1]@, xs[k - 1], ys[k - 1]);
        lemma_cipher_add(
            kp,
            dot_acc(v, w, (k - 1) as nat),
            m3mul(v[k - 1]@, w[k - 1]@),
            dotv_acc(xs, ys, (k - 1) as nat),
            mmul(xs[k - 1], ys[k - 1]),
        );
    }
}

} // verus!
