//! Quaternions over the modular ring, with the Hamilton product.
//!
//! The specification works in two layers.  `QV` is a quaternion of
//! unbounded integers; the unreduced operations (`qaddu`, `qmulu`, ...) are
//! plain polynomial arithmetic, where the ring laws are proved.  The reduced
//! operations (`qadd`, `qmul`, ...) reduce every coordinate modulo
//! `MODULUS`; congruence lemmas transport each law from the unreduced layer.

use vstd::prelude::*;
use vstd::arithmetic::mul::{lemma_mul_is_associative, lemma_mul_is_commutative, lemma_mul_is_distributive_add, lemma_mul_is_distributive_add_other_way, lemma_mul_is_distributive_sub_other_way, lemma_mul_unary_negation};
use crate::mod231::{
    lemma_madd_noop, lemma_mmul_noop, lemma_mneg_noop, lemma_mred_idem, lemma_mred_small,
    lemma_msub_noop, minv, mmul, mred, msub, Mod231, MODULUS,
};

verus! {

/// Spec-level quaternion: four integer coordinates, `w` the real part.
pub struct QV {
    pub w: int,
    pub i: int,
    pub j: int,
    pub k: int,
}

/// Unreduced coordinatewise sum.
pub open spec fn qaddu(a: QV, b: QV) -> QV {
    QV { w: a.w + b.w, i: a.i + b.i, j: a.j + b.j, k: a.k + b.k }
}

/// Unreduced coordinatewise negation.
pub open spec fn qnegu(a: QV) -> QV {
    QV { w: -a.w, i: -a.i, j: -a.j, k: -a.k }
}

/// Unreduced Hamilton product.
pub open spec fn qmulu(a: QV, b: QV) -> QV {
    QV {
        w: a.w * b.w - a.i * b.i - a.j * b.j - a.k * b.k,
        i: a.j * b.k - a.k * b.j + a.i * b.w + a.w * b.i,
        j: a.k * b.i - a.i * b.k + a.j * b.w + a.w * b.j,
        k: a.i * b.j - a.j * b.i + a.k * b.w + a.w * b.k,
    }
}

/// Unreduced conjugate: the imaginary part negated.
pub open spec fn qconju(a: QV) -> QV {
    QV { w: a.w, i: -a.i, j: -a.j, k: -a.k }
}

/// Unreduced real quaternion.
pub open spec fn qrealu(x: int) -> QV {
    QV { w: x, i: 0, j: 0, k: 0 }
}

/// Unreduced squared norm.
pub open spec fn qnorm2u(a: QV) -> int {
    a.w * a.w + a.i * a.i + a.j * a.j + a.k * a.k
}

/// Coordinatewise reduction modulo `MODULUS`.
pub open spec fn qred(a: QV) -> QV {
    QV { w: mred(a.w), i: mred(a.i), j: mred(a.j), k: mred(a.k) }
}

/// Whether every coordinate is fully reduced.
pub open spec fn qwf(a: QV) -> bool {
    &&& 0 <= a.w < MODULUS
    &&& 0 <= a.i < MODULUS
    &&& 0 <= a.j < MODULUS
    &&& 0 <= a.k < MODULUS
}

/// Reduced sum.
pub open spec fn qadd(a: QV, b: QV) -> QV {
    qred(qaddu(a, b))
}

/// Reduced difference.
pub open spec fn qsub(a: QV, b: QV) -> QV {
    qred(qaddu(a, qnegu(b)))
}

/// Reduced negation.
pub open spec fn qneg(a: QV) -> QV {
    qred(qnegu(a))
}

/// Reduced Hamilton product.
pub open spec fn qmul(a: QV, b: QV) -> QV {
    qred(qmulu(a, b))
}

/// Reduced conjugate.
pub open spec fn qconj(a: QV) -> QV {
    qred(qconju(a))
}

/// The zero quaternion.
pub open spec fn qzero() -> QV {
    QV { w: 0, i: 0, j: 0, k: 0 }
}

/// The identity quaternion.
pub open spec fn qone() -> QV {
    QV { w: 1, i: 0, j: 0, k: 0 }
}

/// The real quaternion with the given (reduced) real part.
pub open spec fn qreal(x: int) -> QV {
    QV { w: mred(x), i: 0, j: 0, k: 0 }
}

/// Reduced squared norm.
pub open spec fn qnorm2(a: QV) -> int {
    mred(qnorm2u(a))
}

/// The spec-level quaternion inverse (meaningful when the squared norm is
/// nonzero).
pub open spec fn qinv_spec(q: QV) -> QV {
    qmul(qreal(minv(qnorm2(q))), qconj(q))
}

// ---------------------------------------------------------------------
// Congruence: the reduced operations depend only on coordinate residues.
// ---------------------------------------------------------------------

/// A reduced quaternion is well formed, and reduction fixes well-formed ones.
pub proof fn lemma_qred_wf(a: QV)
    ensures
        qwf(qred(a)),
        qwf(a) ==> qred(a) == a,
{
    lemma_mred_idem(a.w);
    lemma_mred_idem(a.i);
    lemma_mred_idem(a.j);
    lemma_mred_idem(a.k);
    if qwf(a) {
        lemma_mred_small(a.w);
        lemma_mred_small(a.i);
        lemma_mred_small(a.j);
        lemma_mred_small(a.k);
    }
}

/// Reducing the arguments of an unreduced sum does not change its reduction.
pub proof fn lemma_qaddu_noop(a: QV, b: QV)
    ensures
        qred(qaddu(qred(a), qred(b))) == qred(qaddu(a, b)),
{
    lemma_madd_noop(a.w, b.w);
    lemma_madd_noop(a.i, b.i);
    lemma_madd_noop(a.j, b.j);
    lemma_madd_noop(a.k, b.k);
}

/// Reducing the argument of an unreduced negation does not change its
/// reduction.
pub proof fn lemma_qnegu_noop(a: QV)
    ensures
        qred(qnegu(qred(a))) == qred(qnegu(a)),
{
    lemma_mneg_noop(a.w);
    lemma_mneg_noop(a.i);
    lemma_mneg_noop(a.j);
    lemma_mneg_noop(a.k);
}

/// Congruent summands have congruent sums.
proof fn lemma_mred_add_cong(x1: int, y1: int, x2: int, y2: int)
    requires
        mred(x1) == mred(x2),
        mred(y1) == mred(y2),
    ensures
        mred(x1 + y1) == mred(x2 + y2),
{
    vstd::arithmetic::div_mod::lemma_add_mod_noop(x1, y1, MODULUS as int);
    vstd::arithmetic::div_mod::lemma_add_mod_noop(x2, y2, MODULUS as int);
}

/// Congruent values have congruent negations.
proof fn lemma_mred_neg_cong(x: int, y: int)
    requires
        mred(x) == mred(y),
    ensures
        mred(-x) == mred(-y),
{
    vstd::arithmetic::div_mod::lemma_sub_mod_noop(0, x, MODULUS as int);
    vstd::arithmetic::div_mod::lemma_sub_mod_noop(0, y, MODULUS as int);
}

/// Congruent summands, four at a time, have congruent sums.
proof fn lemma_mred_sum4_cong(
    s1: int, t1: int,
    s2: int, t2: int,
    s3: int, t3: int,
    s4: int, t4: int,
)
    requires
        mred(s1) == mred(t1),
        mred(s2) == mred(t2),
        mred(s3) == mred(t3),
        mred(s4) == mred(t4),
    ensures
        mred(s1 + s2 + s3 + s4) == mred(t1 + t2 + t3 + t4),
{
    lemma_mred_add_cong(s1, s2, t1, t2);
    lemma_mred_add_cong(s1 + s2, s3, t1 + t2, t3);
    lemma_mred_add_cong(s1 + s2 + s3, s4, t1 + t2 + t3, t4);
}

/// A product, or its negation, depends modulo `MODULUS` only on the
/// residues of its factors.
proof fn lemma_mred_prod_cong(x: int, y: int)
    ensures
        mred(mred(x) * mred(y)) == mred(x * y),
        mred(-(mred(x) * mred(y))) == mred(-(x * y)),
{
    lemma_mmul_noop(x, y);
    lemma_mred_neg_cong(mred(x) * mred(y), x * y);
}

/// Reducing the arguments of an unreduced product does not change its
/// reduction.
pub proof fn lemma_qmulu_noop(a: QV, b: QV)
    ensures
        qred(qmulu(qred(a), qred(b))) == qred(qmulu(a, b)),
{
    let ra = qred(a);
    let rb = qred(b);
    lemma_mred_prod_cong(a.w, b.w);
    lemma_mred_prod_cong(a.i, b.i);
    lemma_mred_prod_cong(a.j, b.j);
    lemma_mred_prod_cong(a.k, b.k);
    lemma_mred_prod_cong(a.w, b.i);
    lemma_mred_prod_cong(a.w, b.j);
    lemma_mred_prod_cong(a.w, b.k);
    lemma_mred_prod_cong(a.i, b.w);
    lemma_mred_prod_cong(a.j, b.w);
    lemma_mred_prod_cong(a.k, b.w);
    lemma_mred_prod_cong(a.i, b.j);
    lemma_mred_prod_cong(a.j, b.i);
    lemma_mred_prod_cong(a.i, b.k);
    lemma_mred_prod_cong(a.k, b.i);
    lemma_mred_prod_cong(a.j, b.k);
    lemma_mred_prod_cong(a.k, b.j);
    assert(mred(qmulu(ra, rb).w) == mred(qmulu(a, b).w)) by {
        lemma_mred_sum4_cong(
            ra.w * rb.w, a.w * b.w,
            -(ra.i * rb.i), -(a.i * b.i),
            -(ra.j * rb.j), -(a.j * b.j),
            -(ra.k * rb.k), -(a.k * b.k),
        );
        assert(qmulu(ra, rb).w == ra.w * rb.w + (-(ra.i * rb.i)) + (-(ra.j * rb.j)) + (-(ra.k
            * rb.k)));
        assert(qmulu(a, b).w == a.w * b.w + (-(a.i * b.i)) + (-(a.j * b.j)) + (-(a.k * b.k)));
    };
    assert(mred(qmulu(ra, rb).i) == mred(qmulu(a, b).i)) by {
        lemma_mred_sum4_cong(
            ra.j * rb.k, a.j * b.k,
            -(ra.k * rb.j), -(a.k * b.j),
            ra.i * rb.w, a.i * b.w,
            ra.w * rb.i, a.w * b.i,
        );
        assert(qmulu(ra, rb).i == ra.j * rb.k + (-(ra.k * rb.j)) + ra.i * rb.w + ra.w * rb.i);
        assert(qmulu(a, b).i == a.j * b.k + (-(a.k * b.j)) + a.i * b.w + a.w * b.i);
    };
    assert(mred(qmulu(ra, rb).j) == mred(qmulu(a, b).j)) by {
        lemma_mred_sum4_cong(
            ra.k * rb.i, a.k * b.i,
            -(ra.i * rb.k), -(a.i * b.k),
            ra.j * rb.w, a.j * b.w,
            ra.w * rb.j, a.w * b.j,
        );
        assert(qmulu(ra, rb).j == ra.k * rb.i + (-(ra.i * rb.k)) + ra.j * rb.w + ra.w * rb.j);
        assert(qmulu(a, b).j == a.k * b.i + (-(a.i * b.k)) + a.j * b.w + a.w * b.j);
    };
    assert(mred(qmulu(ra, rb).k) == mred(qmulu(a, b).k)) by {
        lemma_mred_sum4_cong(
            ra.i * rb.j, a.i * b.j,
            -(ra.j * rb.i), -(a.j * b.i),
            ra.k * rb.w, a.k * b.w,
            ra.w * rb.k, a.w * b.k,
        );
        assert(qmulu(ra, rb).k == ra.i * rb.j + (-(ra.j * rb.i)) + ra.k * rb.w + ra.w * rb.k);
        assert(qmulu(a, b).k == a.i * b.j + (-(a.j * b.i)) + a.k * b.w + a.w * b.k);
    };
}

/// Reduction is idempotent on quaternions.
pub proof fn lemma_qred_idem(a: QV)
    ensures
        qred(qred(a)) == qred(a),
{
    lemma_mred_idem(a.w);
    lemma_mred_idem(a.i);
    lemma_mred_idem(a.j);
    lemma_mred_idem(a.k);
}

/// Congruent quaternions have congruent sums.
pub proof fn lemma_qaddu_cong(x1: QV, y1: QV, x2: QV, y2: QV)
    requires
        qred(x1) == qred(x2),
        qred(y1) == qred(y2),
    ensures
        qred(qaddu(x1, y1)) == qred(qaddu(x2, y2)),
{
    lemma_mred_add_cong(x1.w, y1.w, x2.w, y2.w);
    lemma_mred_add_cong(x1.i, y1.i, x2.i, y2.i);
    lemma_mred_add_cong(x1.j, y1.j, x2.j, y2.j);
    lemma_mred_add_cong(x1.k, y1.k, x2.k, y2.k);
}

/// Congruent quaternions have congruent products.
pub proof fn lemma_qmulu_cong(x1: QV, y1: QV, x2: QV, y2: QV)
    requires
        qred(x1) == qred(x2),
        qred(y1) == qred(y2),
    ensures
        qred(qmulu(x1, y1)) == qred(qmulu(x2, y2)),
{
    lemma_qmulu_noop(x1, y1);
    lemma_qmulu_noop(x2, y2);
}

/// Folding a three-term unreduced sum through stepwise reduced addition.
pub proof fn lemma_qadd3(x: QV, y: QV, z: QV)
    ensures
        qadd(qadd(qred(x), qred(y)), qred(z)) == qred(qaddu(x, qaddu(y, z))),
{
    lemma_madd_noop(x.w, y.w);
    lemma_madd_noop(x.w + y.w, z.w);
    lemma_madd_noop(x.i, y.i);
    lemma_madd_noop(x.i + y.i, z.i);
    lemma_madd_noop(x.j, y.j);
    lemma_madd_noop(x.j + y.j, z.j);
    lemma_madd_noop(x.k, y.k);
    lemma_madd_noop(x.k + y.k, z.k);
}

// ---------------------------------------------------------------------
// Ring laws at the unreduced layer: plain polynomial identities.
// ---------------------------------------------------------------------

#[verifier::rlimit(50)]
proof fn lemma_qmulu_assoc_axis_w(a: QV, b: QV, t: int)
    ensures
        qmulu(qmulu(a, b), QV { w: t, i: 0, j: 0, k: 0 })
            == qmulu(a, qmulu(b, QV { w: t, i: 0, j: 0, k: 0 })),
{
    lemma_axis_dist(a, b, t);
}

#[verifier::rlimit(50)]
proof fn lemma_qmulu_assoc_axis_i(a: QV, b: QV, t: int)
    ensures
        qmulu(qmulu(a, b), QV { w: 0, i: t, j: 0, k: 0 })
            == qmulu(a, qmulu(b, QV { w: 0, i: t, j: 0, k: 0 })),
{
    lemma_axis_dist(a, b, t);
}

#[verifier::rlimit(50)]
proof fn lemma_qmulu_assoc_axis_j(a: QV, b: QV, t: int)
    ensures
        qmulu(qmulu(a, b), QV { w: 0, i: 0, j: t, k: 0 })
            == qmulu(a, qmulu(b, QV { w: 0, i: 0, j: t, k: 0 })),
{
    lemma_axis_dist(a, b, t);
}

#[verifier::rlimit(50)]
proof fn lemma_qmulu_assoc_axis_k(a: QV, b: QV, t: int)
    ensures
        qmulu(qmulu(a, b), QV { w: 0, i: 0, j: 0, k: t })
            == qmulu(a, qmulu(b, QV { w: 0, i: 0, j: 0, k: t })),
{
    lemma_axis_dist(a, b, t);
}

/// Shared arithmetic facts for the axis cases of associativity: every
/// four-term coordinate of `qmulu(a, b)` distributes over `t`, every
/// monomial reassociates, and negations move through products.
proof fn lemma_axis_dist(a: QV, b: QV, t: int)
    ensures
        (a.w * b.w - a.i * b.i - a.j * b.j - a.k * b.k) * t
            == a.w * (b.w * t) - a.i * (b.i * t) - a.j * (b.j * t) - a.k * (b.k * t),
        (a.j * b.k - a.k * b.j + a.i * b.w + a.w * b.i) * t
            == a.j * (b.k * t) - a.k * (b.j * t) + a.i * (b.w * t) + a.w * (b.i * t),
        (a.k * b.i - a.i * b.k + a.j * b.w + a.w * b.j) * t
            == a.k * (b.i * t) - a.i * (b.k * t) + a.j * (b.w * t) + a.w * (b.j * t),
        (a.i * b.j - a.j * b.i + a.k * b.w + a.w * b.k) * t
            == a.i * (b.j * t) - a.j * (b.i * t) + a.k * (b.w * t) + a.w * (b.k * t),
        forall|x: int, y: int| #[trigger] (x * (-y)) == -(x * y),
{
    lemma_mul_is_distributive_sub_other_way(t, a.w * b.w - a.i * b.i - a.j * b.j, a.k * b.k);
    lemma_mul_is_distributive_sub_other_way(t, a.w * b.w - a.i * b.i, a.j * b.j);
    lemma_mul_is_distributive_sub_other_way(t, a.w * b.w, a.i * b.i);
    lemma_mul_is_distributive_add_other_way(t, a.j * b.k - a.k * b.j + a.i * b.w, a.w * b.i);
    lemma_mul_is_distributive_add_other_way(t, a.j * b.k - a.k * b.j, a.i * b.w);
    lemma_mul_is_distributive_sub_other_way(t, a.j * b.k, a.k * b.j);
    lemma_mul_is_distributive_add_other_way(t, a.k * b.i - a.i * b.k + a.j * b.w, a.w * b.j);
    lemma_mul_is_distributive_add_other_way(t, a.k * b.i - a.i * b.k, a.j * b.w);
    lemma_mul_is_distributive_sub_other_way(t, a.k * b.i, a.i * b.k);
    lemma_mul_is_distributive_add_other_way(t, a.i * b.j - a.j * b.i + a.k * b.w, a.w * b.k);
    lemma_mul_is_distributive_add_other_way(t, a.i * b.j - a.j * b.i, a.k * b.w);
    lemma_mul_is_distributive_sub_other_way(t, a.i * b.j, a.j * b.i);
    lemma_mul_is_associative(a.w, b.w, t);
    lemma_mul_is_associative(a.i, b.i, t);
    lemma_mul_is_associative(a.j, b.j, t);
    lemma_mul_is_associative(a.k, b.k, t);
    lemma_mul_is_associative(a.j, b.k, t);
    lemma_mul_is_associative(a.k, b.j, t);
    lemma_mul_is_associative(a.i, b.w, t);
    lemma_mul_is_associative(a.w, b.i, t);
    lemma_mul_is_associative(a.k, b.i, t);
    lemma_mul_is_associative(a.i, b.k, t);
    lemma_mul_is_associative(a.j, b.w, t);
    lemma_mul_is_associative(a.w, b.j, t);
    lemma_mul_is_associative(a.i, b.j, t);
    lemma_mul_is_associative(a.j, b.i, t);
    lemma_mul_is_associative(a.k, b.w, t);
    lemma_mul_is_associative(a.w, b.k, t);
    assert forall|x: int, y: int| #[trigger] (x * (-y)) == -(x * y) by {
        lemma_mul_unary_negation(x, y);
    };
}

/// The Hamilton product is associative (unreduced layer).  Proved by
/// splitting the right factor along the four axes and using that the
/// product is linear in its right argument.
pub proof fn lemma_qmulu_assoc(a: QV, b: QV, c: QV)
    ensures
        qmulu(qmulu(a, b), c) == qmulu(a, qmulu(b, c)),
{
    let cw = QV { w: c.w, i: 0, j: 0, k: 0 };
    let ci = QV { w: 0, i: c.i, j: 0, k: 0 };
    let cj = QV { w: 0, i: 0, j: c.j, k: 0 };
    let ck = QV { w: 0, i: 0, j: 0, k: c.k };
    let ab = qmulu(a, b);
    assert(c == qaddu(qaddu(cw, ci), qaddu(cj, ck)));
    lemma_qmulu_assoc_axis_w(a, b, c.w);
    lemma_qmulu_assoc_axis_i(a, b, c.i);
    lemma_qmulu_assoc_axis_j(a, b, c.j);
    lemma_qmulu_assoc_axis_k(a, b, c.k);
    // Expand qmulu(ab, c) along the axes of c.
    lemma_qmulu_distl(ab, qaddu(cw, ci), qaddu(cj, ck));
    lemma_qmulu_distl(ab, cw, ci);
    lemma_qmulu_distl(ab, cj, ck);
    // Expand qmulu(b, c) along the axes of c, then qmulu(a, -) over the sum.
    lemma_qmulu_distl(b, qaddu(cw, ci), qaddu(cj, ck));
    lemma_qmulu_distl(b, cw, ci);
    lemma_qmulu_distl(b, cj, ck);
    lemma_qmulu_distl(a, qaddu(qmulu(b, cw), qmulu(b, ci)), qaddu(qmulu(b, cj), qmulu(b, ck)));
    lemma_qmulu_distl(a, qmulu(b, cw), qmulu(b, ci));
    lemma_qmulu_distl(a, qmulu(b, cj), qmulu(b, ck));
}

/// The Hamilton product distributes over addition on the left (unreduced).
#[verifier::rlimit(50)]
pub proof fn lemma_qmulu_distl(a: QV, b: QV, c: QV)
    ensures
        qmulu(a, qaddu(b, c)) == qaddu(qmulu(a, b), qmulu(a, c)),
{
    lemma_mul_is_distributive_add(a.w, b.w, c.w);
    lemma_mul_is_distributive_add(a.w, b.i, c.i);
    lemma_mul_is_distributive_add(a.w, b.j, c.j);
    lemma_mul_is_distributive_add(a.w, b.k, c.k);
    lemma_mul_is_distributive_add(a.i, b.w, c.w);
    lemma_mul_is_distributive_add(a.i, b.i, c.i);
    lemma_mul_is_distributive_add(a.i, b.j, c.j);
    lemma_mul_is_distributive_add(a.i, b.k, c.k);
    lemma_mul_is_distributive_add(a.j, b.w, c.w);
    lemma_mul_is_distributive_add(a.j, b.i, c.i);
    lemma_mul_is_distributive_add(a.j, b.j, c.j);
    lemma_mul_is_distributive_add(a.j, b.k, c.k);
    lemma_mul_is_distributive_add(a.k, b.w, c.w);
    lemma_mul_is_distributive_add(a.k, b.i, c.i);
    lemma_mul_is_distributive_add(a.k, b.j, c.j);
    lemma_mul_is_distributive_add(a.k, b.k, c.k);
}

/// The Hamilton product distributes over addition on the right (unreduced).
#[verifier::rlimit(50)]
pub proof fn lemma_qmulu_distr(a: QV, b: QV, c: QV)
    ensures
        qmulu(qaddu(a, b), c) == qaddu(qmulu(a, c), qmulu(b, c)),
{
    lemma_mul_is_distributive_add_other_way(c.w, a.w, b.w);
    lemma_mul_is_distributive_add_other_way(c.i, a.w, b.w);
    lemma_mul_is_distributive_add_other_way(c.j, a.w, b.w);
    lemma_mul_is_distributive_add_other_way(c.k, a.w, b.w);
    lemma_mul_is_distributive_add_other_way(c.w, a.i, b.i);
    lemma_mul_is_distributive_add_other_way(c.i, a.i, b.i);
    lemma_mul_is_distributive_add_other_way(c.j, a.i, b.i);
    lemma_mul_is_distributive_add_other_way(c.k, a.i, b.i);
    lemma_mul_is_distributive_add_other_way(c.w, a.j, b.j);
    lemma_mul_is_distributive_add_other_way(c.i, a.j, b.j);
    lemma_mul_is_distributive_add_other_way(c.j, a.j, b.j);
    lemma_mul_is_distributive_add_other_way(c.k, a.j, b.j);
    lemma_mul_is_distributive_add_other_way(c.w, a.k, b.k);
    lemma_mul_is_distributive_add_other_way(c.i, a.k, b.k);
    lemma_mul_is_distributive_add_other_way(c.j, a.k, b.k);
    lemma_mul_is_distributive_add_other_way(c.k, a.k, b.k);
}

/// Negation commutes with the Hamilton product (unreduced).
#[verifier::rlimit(50)]
pub proof fn lemma_qmulu_neg(a: QV, b: QV)
    ensures
        qmulu(qnegu(a), b) == qnegu(qmulu(a, b)),
        qmulu(a, qnegu(b)) == qnegu(qmulu(a, b)),
{
    lemma_mul_unary_negation(a.w, b.w);
    lemma_mul_unary_negation(a.w, b.i);
    lemma_mul_unary_negation(a.w, b.j);
    lemma_mul_unary_negation(a.w, b.k);
    lemma_mul_unary_negation(a.i, b.w);
    lemma_mul_unary_negation(a.i, b.i);
    lemma_mul_unary_negation(a.i, b.j);
    lemma_mul_unary_negation(a.i, b.k);
    lemma_mul_unary_negation(a.j, b.w);
    lemma_mul_unary_negation(a.j, b.i);
    lemma_mul_unary_negation(a.j, b.j);
    lemma_mul_unary_negation(a.j, b.k);
    lemma_mul_unary_negation(a.k, b.w);
    lemma_mul_unary_negation(a.k, b.i);
    lemma_mul_unary_negation(a.k, b.j);
    lemma_mul_unary_negation(a.k, b.k);
}

/// The identity and zero quaternions act as expected (unreduced).
pub proof fn lemma_qmulu_units(a: QV)
    ensures
        qmulu(qone(), a) == a,
        qmulu(a, qone()) == a,
        qmulu(qzero(), a) == qzero(),
        qmulu(a, qzero()) == qzero(),
        qaddu(a, qzero()) == a,
        qaddu(qzero(), a) == a,
{
}

/// Real quaternions multiply as their real parts, and commute with
/// everything (unreduced).
#[verifier::rlimit(50)]
pub proof fn lemma_qmulu_real(x: int, a: QV)
    ensures
        qmulu(qrealu(x), a) == qmulu(a, qrealu(x)),
        qmulu(qrealu(x), a) == (QV { w: x * a.w, i: x * a.i, j: x * a.j, k: x * a.k }),
{
    lemma_mul_is_commutative(x, a.w);
    lemma_mul_is_commutative(x, a.i);
    lemma_mul_is_commutative(x, a.j);
    lemma_mul_is_commutative(x, a.k);
}

/// A quaternion times its conjugate is the real quaternion of its squared
/// norm (unreduced), on both sides.
#[verifier::rlimit(50)]
pub proof fn lemma_qmulu_conj(a: QV)
    ensures
        qmulu(a, qconju(a)) == qrealu(qnorm2u(a)),
        qmulu(qconju(a), a) == qrealu(qnorm2u(a)),
{
    lemma_mul_unary_negation(a.w, a.i);
    lemma_mul_unary_negation(a.w, a.j);
    lemma_mul_unary_negation(a.w, a.k);
    lemma_mul_unary_negation(a.i, a.i);
    lemma_mul_unary_negation(a.j, a.j);
    lemma_mul_unary_negation(a.k, a.k);
    lemma_mul_unary_negation(a.i, a.j);
    lemma_mul_unary_negation(a.j, a.i);
    lemma_mul_unary_negation(a.i, a.k);
    lemma_mul_unary_negation(a.k, a.i);
    lemma_mul_unary_negation(a.j, a.k);
    lemma_mul_unary_negation(a.k, a.j);
    lemma_mul_unary_negation(a.i, a.w);
    lemma_mul_unary_negation(a.j, a.w);
    lemma_mul_unary_negation(a.k, a.w);
    lemma_mul_is_commutative(a.w, a.i);
    lemma_mul_is_commutative(a.w, a.j);
    lemma_mul_is_commutative(a.w, a.k);
    lemma_mul_is_commutative(a.i, a.j);
    lemma_mul_is_commutative(a.i, a.k);
    lemma_mul_is_commutative(a.j, a.k);
}

// ---------------------------------------------------------------------
// Ring laws at the reduced layer.
// ---------------------------------------------------------------------

/// Reduced addition is commutative.
pub proof fn lemma_qadd_comm(a: QV, b: QV)
    ensures
        qadd(a, b) == qadd(b, a),
{
}

/// Reduced multiplication is associative, for arbitrary arguments.
pub proof fn lemma_qmul_assoc(a: QV, b: QV, c: QV)
    ensures
        qmul(qmul(a, b), c) == qmul(a, qmul(b, c)),
{
    let ab = qmulu(a, b);
    let bc = qmulu(b, c);
    lemma_qmulu_noop(qred(ab), c);
    lemma_qred_wf(ab);
    lemma_qred_wf(qred(ab));
    lemma_qmulu_noop(ab, c);
    lemma_qmulu_noop(a, qred(bc));
    lemma_qred_wf(bc);
    lemma_qmulu_noop(a, bc);
    lemma_qmulu_assoc(a, b, c);
    assert(qred(qred(ab)) == qred(ab));
    assert(qred(qred(bc)) == qred(bc));
    assert(qmul(qmul(a, b), c) == qred(qmulu(qred(ab), c)));
    assert(qred(qmulu(qred(ab), c)) == qred(qmulu(qred(qred(ab)), qred(c))));
    assert(qred(qmulu(qred(ab), qred(c))) == qred(qmulu(ab, c)));
}

/// The identity quaternion is a two-sided unit for reduced
/// multiplication on well-formed quaternions.
pub proof fn lemma_qmul_one(a: QV)
    requires
        qwf(a),
    ensures
        qmul(qone(), a) == a,
        qmul(a, qone()) == a,
{
    lemma_qmulu_units(a);
    lemma_qred_wf(a);
}

/// Negation moves through reduced multiplication on either side.
pub proof fn lemma_qmul_neg(a: QV, b: QV)
    ensures
        qmul(a, qneg(b)) == qneg(qmul(a, b)),
        qmul(qneg(a), b) == qneg(qmul(a, b)),
{
    let nb = qnegu(b);
    lemma_qred_idem(a);
    lemma_qred_idem(nb);
    lemma_qmulu_noop(a, qred(nb));
    lemma_qmulu_noop(a, nb);
    lemma_qmulu_neg(a, b);
    lemma_qnegu_noop(qmulu(a, b));
    assert(qmul(a, qneg(b)) == qred(qmulu(a, nb))) by {
        assert(qred(qmulu(qred(a), qred(qred(nb)))) == qred(qmulu(a, qred(nb))));
        assert(qred(qmulu(qred(a), qred(nb))) == qred(qmulu(a, nb)));
    };
    let na = qnegu(a);
    lemma_qred_idem(na);
    lemma_qred_idem(b);
    lemma_qmulu_noop(qred(na), b);
    lemma_qmulu_noop(na, b);
    assert(qmul(qneg(a), b) == qred(qmulu(na, b))) by {
        assert(qred(qmulu(qred(qred(na)), qred(b))) == qred(qmulu(qred(na), b)));
        assert(qred(qmulu(qred(na), qred(b))) == qred(qmulu(na, b)));
    };
}

/// Reduced subtraction is addition of the reduced negation.
pub proof fn lemma_qsub_add_neg(a: QV, b: QV)
    ensures
        qsub(a, b) == qadd(a, qneg(b)),
{
    lemma_qnegu_noop(b);
    lemma_qred_idem(a);
    lemma_qaddu_cong(a, qred(qnegu(b)), a, qnegu(b));
}

/// Adding a quaternion and its reduced negation gives zero.
pub proof fn lemma_qadd_neg_cancel(a: QV)
    ensures
        qadd(a, qneg(a)) == qzero(),
        qadd(qneg(a), a) == qzero(),
{
    lemma_qnegu_noop(a);
    lemma_qred_idem(a);
    lemma_qaddu_cong(a, qred(qnegu(a)), a, qnegu(a));
    lemma_qaddu_cong(qred(qnegu(a)), a, qnegu(a), a);
    lemma_mred_small(0);
}

/// Reduced multiplication distributes over reduced subtraction on the
/// left factor.
#[verifier::rlimit(100)]
#[verifier::spinoff_prover]
pub proof fn lemma_qmul_dist_sub_left(a: QV, b: QV, c: QV)
    ensures
        qmul(a, qsub(b, c)) == qsub(qmul(a, b), qmul(a, c)),
{
    let s = qaddu(b, qnegu(c));
    lemma_qred_idem(a);
    lemma_qred_idem(s);
    lemma_qmulu_noop(a, qred(s));
    lemma_qmulu_noop(a, s);
    lemma_qmulu_distl(a, b, qnegu(c));
    lemma_qmulu_neg(a, c);
    assert(qmul(a, qsub(b, c)) == qred(qaddu(qmulu(a, b), qnegu(qmulu(a, c))))) by {
        assert(qred(qmulu(qred(a), qred(qred(s)))) == qred(qmulu(a, qred(s))));
        assert(qred(qmulu(qred(a), qred(s))) == qred(qmulu(a, s)));
        assert(qmulu(a, s) == qaddu(qmulu(a, b), qnegu(qmulu(a, c))));
    };
    assert(qsub(qmul(a, b), qmul(a, c)) == qred(qaddu(qmulu(a, b), qnegu(qmulu(a, c))))) by {
        lemma_qnegu_noop(qmulu(a, c));
        lemma_qaddu_cong(
            qred(qmulu(a, b)),
            qnegu(qred(qmulu(a, c))),
            qmulu(a, b),
            qnegu(qmulu(a, c)),
        );
    };
}

/// Reduced multiplication distributes over reduced subtraction on the
/// right factor.
#[verifier::rlimit(100)]
#[verifier::spinoff_prover]
pub proof fn lemma_qmul_dist_sub_right(a: QV, b: QV, c: QV)
    ensures
        qmul(qsub(a, b), c) == qsub(qmul(a, c), qmul(b, c)),
{
    let s2 = qaddu(a, qnegu(b));
    lemma_qred_idem(c);
    lemma_qred_idem(s2);
    lemma_qmulu_noop(qred(s2), c);
    lemma_qmulu_noop(s2, c);
    lemma_qmulu_distr(a, qnegu(b), c);
    lemma_qmulu_neg(b, c);
    assert(qmul(qsub(a, b), c) == qred(qaddu(qmulu(a, c), qnegu(qmulu(b, c))))) by {
        assert(qred(qmulu(qred(qred(s2)), qred(c))) == qred(qmulu(qred(s2), c)));
        assert(qred(qmulu(qred(s2), qred(c))) == qred(qmulu(s2, c)));
        assert(qmulu(s2, c) == qaddu(qmulu(a, c), qnegu(qmulu(b, c))));
    };
    assert(qsub(qmul(a, c), qmul(b, c)) == qred(qaddu(qmulu(a, c), qnegu(qmulu(b, c))))) by {
        lemma_qnegu_noop(qmulu(b, c));
        lemma_qaddu_cong(
            qred(qmulu(a, c)),
            qnegu(qred(qmulu(b, c))),
            qmulu(a, c),
            qnegu(qmulu(b, c)),
        );
    };
}

/// Reduced multiplication distributes over reduced addition on the left
/// factor.
#[verifier::rlimit(100)]
#[verifier::spinoff_prover]
pub proof fn lemma_qmul_dist_add_left(a: QV, b: QV, c: QV)
    ensures
        qmul(a, qadd(b, c)) == qadd(qmul(a, b), qmul(a, c)),
{
    let s = qaddu(b, c);
    lemma_qred_idem(a);
    lemma_qred_idem(s);
    lemma_qmulu_noop(a, qred(s));
    lemma_qmulu_noop(a, s);
    lemma_qmulu_distl(a, b, c);
    assert(qmul(a, qadd(b, c)) == qred(qaddu(qmulu(a, b), qmulu(a, c)))) by {
        assert(qred(qmulu(qred(a), qred(qred(s)))) == qred(qmulu(a, qred(s))));
        assert(qred(qmulu(qred(a), qred(s))) == qred(qmulu(a, s)));
    };
    lemma_qaddu_cong(qred(qmulu(a, b)), qred(qmulu(a, c)), qmulu(a, b), qmulu(a, c));
    lemma_qred_idem(qmulu(a, b));
    lemma_qred_idem(qmulu(a, c));
}

/// Reduced multiplication distributes over reduced addition on the right
/// factor.
#[verifier::rlimit(100)]
#[verifier::spinoff_prover]
pub proof fn lemma_qmul_dist_add_right(a: QV, b: QV, c: QV)
    ensures
        qmul(qadd(a, b), c) == qadd(qmul(a, c), qmul(b, c)),
{
    let s = qaddu(a, b);
    lemma_qred_idem(c);
    lemma_qred_idem(s);
    lemma_qmulu_noop(qred(s), c);
    lemma_qmulu_noop(s, c);
    lemma_qmulu_distr(a, b, c);
    assert(qmul(qadd(a, b), c) == qred(qaddu(qmulu(a, c), qmulu(b, c)))) by {
        assert(qred(qmulu(qred(qred(s)), qred(c))) == qred(qmulu(qred(s), c)));
        assert(qred(qmulu(qred(s), qred(c))) == qred(qmulu(s, c)));
    };
    lemma_qaddu_cong(qred(qmulu(a, c)), qred(qmulu(b, c)), qmulu(a, c), qmulu(b, c));
    lemma_qred_idem(qmulu(a, c));
    lemma_qred_idem(qmulu(b, c));
}

/// The sum of two reduced negations is the negation of the sum.
pub proof fn lemma_qadd_neg_neg(s: QV, t: QV)
    ensures
        qadd(qneg(s), qneg(t)) == qneg(qadd(s, t)),
{
    lemma_madd_noop(-s.w, -t.w);
    lemma_madd_noop(-s.i, -t.i);
    lemma_madd_noop(-s.j, -t.j);
    lemma_madd_noop(-s.k, -t.k);
    lemma_mneg_noop(s.w + t.w);
    lemma_mneg_noop(s.i + t.i);
    lemma_mneg_noop(s.j + t.j);
    lemma_mneg_noop(s.k + t.k);
}

/// Sums of reduced differences are the difference of the sums.
pub proof fn lemma_qadd_sub_sub(a: QV, b: QV, c: QV, d: QV)
    ensures
        qadd(qsub(a, b), qsub(c, d)) == qsub(qadd(a, c), qadd(b, d)),
{
    lemma_madd_noop(a.w - b.w, c.w - d.w);
    lemma_madd_noop(a.i - b.i, c.i - d.i);
    lemma_madd_noop(a.j - b.j, c.j - d.j);
    lemma_madd_noop(a.k - b.k, c.k - d.k);
    lemma_msub_noop(a.w + c.w, b.w + d.w);
    lemma_msub_noop(a.i + c.i, b.i + d.i);
    lemma_msub_noop(a.j + c.j, b.j + d.j);
    lemma_msub_noop(a.k + c.k, b.k + d.k);
}

/// Four-term reduced sums may be regrouped across the middle.
pub proof fn lemma_qadd4_swap(w: QV, x: QV, y: QV, z: QV)
    ensures
        qadd(qadd(w, x), qadd(y, z)) == qadd(qadd(w, y), qadd(x, z)),
{
    lemma_madd_noop(w.w + x.w, y.w + z.w);
    lemma_madd_noop(w.i + x.i, y.i + z.i);
    lemma_madd_noop(w.j + x.j, y.j + z.j);
    lemma_madd_noop(w.k + x.k, y.k + z.k);
    lemma_madd_noop(w.w + y.w, x.w + z.w);
    lemma_madd_noop(w.i + y.i, x.i + z.i);
    lemma_madd_noop(w.j + y.j, x.j + z.j);
    lemma_madd_noop(w.k + y.k, x.k + z.k);
}

/// Zero is absorbing and neutral for the reduced operations on well-formed
/// quaternions.
pub proof fn lemma_q_zero_laws(a: QV)
    requires
        qwf(a),
    ensures
        qmul(a, qzero()) == qzero(),
        qmul(qzero(), a) == qzero(),
        qadd(a, qzero()) == a,
        qadd(qzero(), a) == a,
{
    lemma_qmulu_units(a);
    lemma_qred_wf(a);
    lemma_qred_wf(qzero());
}

/// Real quaternions multiply as their (reduced) real parts.
pub proof fn lemma_qmul_real(x: int, y: int)
    ensures
        qmul(qreal(x), qreal(y)) == qreal(mmul(x, y)),
        qmul(qreal(x), qreal(y)) == qreal(x * y),
{
    lemma_qmulu_real(mred(x), qrealu(mred(y)));
    lemma_mmul_noop(x, y);
    lemma_mred_idem(x * y);
    assert(qmulu(qrealu(mred(x)), qrealu(mred(y))).w == mred(x) * mred(y));
    assert(qred(qmulu(qreal(x), qreal(y))).w == mred(mred(x) * mred(y)));
    assert(mred(0int) == 0) by {
        lemma_mred_small(0);
    };
}

/// Double negation is the identity on well-formed quaternions.
pub proof fn lemma_qneg_neg(a: QV)
    requires
        qwf(a),
    ensures
        qneg(qneg(a)) == a,
{
    lemma_qnegu_noop(qnegu(a));
    lemma_qred_wf(a);
    assert(qnegu(qnegu(a)) == a);
}

/// A quaternion times its reduced conjugate is the real quaternion of its
/// squared norm.
pub proof fn lemma_qmul_conj(a: QV)
    requires
        qwf(a),
    ensures
        qmul(a, qconj(a)) == qreal(qnorm2(a)),
        qmul(qconj(a), a) == qreal(qnorm2(a)),
{
    lemma_qmulu_conj(a);
    lemma_qmulu_noop(a, qconju(a));
    lemma_qmulu_noop(qconju(a), a);
    lemma_qred_wf(a);
    lemma_qred_wf(qconju(a));
    lemma_mred_idem(qnorm2u(a));
    lemma_mred_small(0);
    assert(qmul(a, qconj(a)) == qred(qmulu(qred(a), qred(qconju(a)))));
    assert(qred(qmulu(a, qconju(a))) == qred(qrealu(qnorm2u(a))));
}

/// The quaternion inverse law: if `s` inverts the squared norm of a
/// well-formed quaternion `q`, then `real(s) * conj(q)` is a two-sided
/// inverse of `q`.
pub proof fn lemma_q_inverse(q: QV, s: int)
    requires
        qwf(q),
        0 <= s < MODULUS,
        mmul(qnorm2(q), s) == 1,
    ensures
        qmul(q, qmul(qreal(s), qconj(q))) == qone(),
        qmul(qmul(qreal(s), qconj(q)), q) == qone(),
{
    let cj = qconj(q);
    let rs = qreal(s);
    lemma_qred_wf(qconju(q));
    lemma_mred_small(s);
    // Right inverse: q * (real(s) * conj(q)) == (q * conj(q)) * real(s) ...
    // real quaternions commute with everything at the reduced layer:
    assert(qmul(rs, cj) == qmul(cj, rs)) by {
        lemma_qmulu_real(mred(s), cj);
        assert(qrealu(mred(s)) == rs);
    };
    lemma_qmul_assoc(q, cj, rs);
    lemma_qmul_conj(q);
    assert(qmul(q, qmul(cj, rs)) == qmul(qmul(q, cj), rs));
    assert(qmul(qreal(qnorm2(q)), rs) == qone()) by {
        lemma_qmul_real(qnorm2(q), s);
        lemma_mred_small(1);
        assert(qreal(mmul(qnorm2(q), s)) == qone());
    };
    assert(qmul(qmul(q, cj), rs) == qmul(qreal(qnorm2(q)), rs));

    // Left inverse: (real(s) * conj(q)) * q == real(s) * (conj(q) * q).
    lemma_qmul_assoc(rs, cj, q);
    assert(qmul(rs, qmul(cj, q)) == qmul(qmul(rs, cj), q));
    assert(qmul(rs, qreal(qnorm2(q))) == qone()) by {
        lemma_qmul_real(s, qnorm2(q));
        lemma_mred_small(1);
        crate::mod231::lemma_mmul_comm(s, qnorm2(q));
        assert(qreal(mmul(s, qnorm2(q))) == qone());
    };
}

} // verus!

verus! {

/// A vector of three ring elements: the imaginary part of a quaternion.
#[derive(Clone, Copy, Debug, PartialEq, Eq, Structural)]
pub struct Vector3 {
    pub x: Mod231,
    pub y: Mod231,
    pub z: Mod231,
}

/// A quaternion over the modular ring: `w + x*i + y*j + z*k`.
#[derive(Clone, Copy, Debug, PartialEq, Eq, Structural)]
pub struct QuaternionM {
    pub w: Mod231,
    pub i: Mod231,
    pub j: Mod231,
    pub k: Mod231,
}

impl View for QuaternionM {
    type V = QV;

    open spec fn view(&self) -> QV {
        QV { w: self.w@, i: self.i@, j: self.j@, k: self.k@ }
    }
}

impl QuaternionM {
    /// The representation invariant: every coordinate is reduced.
    pub open spec fn wf(&self) -> bool {
        qwf(self@)
    }

    /// Builds a quaternion from its four coordinates.
    pub fn new(w: Mod231, i: Mod231, j: Mod231, k: Mod231) -> (r: Self)
        ensures
            r@ == (QV { w: w@, i: i@, j: j@, k: k@ }),
    {
        QuaternionM { w, i, j, k }
    }

    /// Builds a quaternion from a real part and an imaginary vector.
    pub fn from_parts(w: Mod231, ijk: Vector3) -> (r: Self)
        ensures
            r@ == (QV { w: w@, i: ijk.x@, j: ijk.y@, k: ijk.z@ }),
    {
        Self::new(w, ijk.x, ijk.y, ijk.z)
    }

    /// Builds a real quaternion: the imaginary part is zero.
    pub fn from_real(w: Mod231) -> (r: Self)
        ensures
            r@ == (QV { w: w@, i: 0, j: 0, k: 0 }),
            w.wf() ==> r@ == qreal(w@),
    {
        proof {
            if w.wf() {
                lemma_mred_small(w@);
            }
        }
        Self::new(w, Mod231(0), Mod231(0), Mod231(0))
    }

    /// Builds an imaginary quaternion: the real part is zero.
    pub fn from_imag(ijk: Vector3) -> (r: Self)
        ensures
            r@ == (QV { w: 0, i: ijk.x@, j: ijk.y@, k: ijk.z@ }),
    {
        Self::from_parts(Mod231(0), ijk)
    }

    /// The imaginary part.
    pub fn imag(&self) -> (r: Vector3)
        ensures
            r.x == self.i,
            r.y == self.j,
            r.z == self.k,
    {
        Vector3 { x: self.i, y: self.j, z: self.k }
    }

    /// The zero quaternion.
    pub fn zero() -> (r: Self)
        ensures
            r@ == qzero(),
            r.wf(),
    {
        Self::new(Mod231(0), Mod231(0), Mod231(0), Mod231(0))
    }

    /// The identity quaternion.
    pub fn one() -> (r: Self)
        ensures
            r@ == qone(),
            r.wf(),
    {
        Self::new(Mod231(1), Mod231(0), Mod231(0), Mod231(0))
    }

    /// Whether this is the zero quaternion.
    pub fn is_zero(&self) -> (r: bool)
        ensures
            r == (self@ == qzero()),
    {
        self.w.0 == 0 && self.i.0 == 0 && self.j.0 == 0 && self.k.0 == 0
    }

    /// Whether this is the identity quaternion.
    pub fn is_one(&self) -> (r: bool)
        ensures
            r == (self@ == qone()),
    {
        self.w.0 == 1 && self.i.0 == 0 && self.j.0 == 0 && self.k.0 == 0
    }

    /// Coordinatewise sum.
    pub fn add(self, other: Self) -> (r: Self)
        requires
            self.wf(),
            other.wf(),
        ensures
            r.wf(),
            r@ == qadd(self@, other@),
    {
        QuaternionM {
            w: self.w.add(other.w),
            i: self.i.add(other.i),
            j: self.j.add(other.j),
            k: self.k.add(other.k),
        }
    }

    /// Coordinatewise difference.
    pub fn sub(self, other: Self) -> (r: Self)
        requires
            self.wf(),
            other.wf(),
        ensures
            r.wf(),
            r@ == qsub(self@, other@),
    {
        let r = QuaternionM {
            w: self.w.sub(other.w),
            i: self.i.sub(other.i),
            j: self.j.sub(other.j),
            k: self.k.sub(other.k),
        };
        proof {
            assert(msub(self@.w, other@.w) == mred(self@.w + (-other@.w)));
            assert(msub(self@.i, other@.i) == mred(self@.i + (-other@.i)));
            assert(msub(self@.j, other@.j) == mred(self@.j + (-other@.j)));
            assert(msub(self@.k, other@.k) == mred(self@.k + (-other@.k)));
        }
        r
    }

    /// Coordinatewise negation.
    pub fn neg(self) -> (r: Self)
        requires
            self.wf(),
        ensures
            r.wf(),
            r@ == qneg(self@),
    {
        QuaternionM {
            w: self.w.neg(),
            i: self.i.neg(),
            j: self.j.neg(),
            k: self.k.neg(),
        }
    }

    /// The conjugate: the imaginary part negated.
    pub fn conjugate(&self) -> (r: Self)
        requires
            self.wf(),
        ensures
            r.wf(),
            r@ == qconj(self@),
    {
        let r = QuaternionM { w: self.w, i: self.i.neg(), j: self.j.neg(), k: self.k.neg() };
        proof {
            lemma_mred_small(self@.w);
        }
        r
    }

    /// The Hamilton product.
    pub fn mul(self, other: Self) -> (r: Self)
        requires
            self.wf(),
            other.wf(),
        ensures
            r.wf(),
            r@ == qmul(self@, other@),
    {
        let a = self;
        let b = other;
        let w = a.w.mul(b.w).sub(a.i.mul(b.i)).sub(a.j.mul(b.j)).sub(a.k.mul(b.k));
        let i = a.j.mul(b.k).sub(a.k.mul(b.j)).add(a.i.mul(b.w)).add(a.w.mul(b.i));
        let j = a.k.mul(b.i).sub(a.i.mul(b.k)).add(a.j.mul(b.w)).add(a.w.mul(b.j));
        let k = a.i.mul(b.j).sub(a.j.mul(b.i)).add(a.k.mul(b.w)).add(a.w.mul(b.k));
        let r = QuaternionM { w, i, j, k };
        proof {
            let av = a@;
            let bv = b@;
            lemma_mmul_noop(av.w, bv.w);
            assert(w@ == mred(av.w * bv.w - av.i * bv.i - av.j * bv.j - av.k * bv.k)) by {
                lemma_msub_noop(av.w * bv.w, av.i * bv.i);
                lemma_msub_noop(av.w * bv.w - av.i * bv.i, av.j * bv.j);
                lemma_msub_noop(av.w * bv.w - av.i * bv.i - av.j * bv.j, av.k * bv.k);
                lemma_mred_small(mmul(av.w, bv.w));
                lemma_mred_small(mmul(av.i, bv.i));
                lemma_mred_small(mmul(av.j, bv.j));
                lemma_mred_small(mmul(av.k, bv.k));
            };
            assert(i@ == mred(av.j * bv.k - av.k * bv.j + av.i * bv.w + av.w * bv.i)) by {
                lemma_msub_noop(av.j * bv.k, av.k * bv.j);
                lemma_madd_noop(av.j * bv.k - av.k * bv.j, av.i * bv.w);
                lemma_madd_noop(av.j * bv.k - av.k * bv.j + av.i * bv.w, av.w * bv.i);
                lemma_mred_small(mmul(av.j, bv.k));
                lemma_mred_small(mmul(av.k, bv.j));
                lemma_mred_small(mmul(av.i, bv.w));
                lemma_mred_small(mmul(av.w, bv.i));
            };
            assert(j@ == mred(av.k * bv.i - av.i * bv.k + av.j * bv.w + av.w * bv.j)) by {
                lemma_msub_noop(av.k * bv.i, av.i * bv.k);
                lemma_madd_noop(av.k * bv.i - av.i * bv.k, av.j * bv.w);
                lemma_madd_noop(av.k * bv.i - av.i * bv.k + av.j * bv.w, av.w * bv.j);
                lemma_mred_small(mmul(av.k, bv.i));
                lemma_mred_small(mmul(av.i, bv.k));
                lemma_mred_small(mmul(av.j, bv.w));
                lemma_mred_small(mmul(av.w, bv.j));
            };
            assert(k@ == mred(av.i * bv.j - av.j * bv.i + av.k * bv.w + av.w * bv.k)) by {
                lemma_msub_noop(av.i * bv.j, av.j * bv.i);
                lemma_madd_noop(av.i * bv.j - av.j * bv.i, av.k * bv.w);
                lemma_madd_noop(av.i * bv.j - av.j * bv.i + av.k * bv.w, av.w * bv.k);
                lemma_mred_small(mmul(av.i, bv.j));
                lemma_mred_small(mmul(av.j, bv.i));
                lemma_mred_small(mmul(av.k, bv.w));
                lemma_mred_small(mmul(av.w, bv.k));
            };
        }
        r
    }

    /// The squared norm: the real part of `self * conjugate(self)`.
    pub fn norm2(&self) -> (r: Mod231)
        requires
            self.wf(),
        ensures
            r.wf(),
            r@ == qnorm2(self@),
    {
        let r = self.mul(self.conjugate()).w;
        proof {
            lemma_qmul_conj(self@);
            lemma_mred_idem(qnorm2u(self@));
        }
        r
    }

    /// Multiplication by a real quaternion on the left.
    pub fn scale(&self, w: Mod231) -> (r: Self)
        requires
            self.wf(),
            w.wf(),
        ensures
            r.wf(),
            r@ == qmul(qreal(w@), self@),
    {
        let r = Self::from_real(w).mul(*self);
        proof {
            lemma_mred_small(w@);
        }
        r
    }

    /// Whether every coordinate is reduced, checked at run time.
    pub fn is_reduced(&self) -> (r: bool)
        ensures
            r == self.wf(),
    {
        self.w.0 < MODULUS && self.i.0 < MODULUS && self.j.0 < MODULUS && self.k.0 < MODULUS
    }

    /// The multiplicative inverse, where the squared norm is invertible.
    pub fn try_invert(&self) -> (r: Option<QuaternionM>)
        requires
            self.wf(),
        ensures
            (r is Some) == (qnorm2(self@) != 0),
            r matches Some(v) ==> {
                &&& v.wf()
                &&& v@ == qmul(qreal(minv(qnorm2(self@))), qconj(self@))
                &&& qmul(self@, v@) == qone()
                &&& qmul(v@, self@) == qone()
            },
    {
        let norm = self.norm2();
        match norm.try_invert() {
            None => None,
            Some(renorm) => {
                proof {
                    lemma_q_inverse(self@, renorm@);
                }
                Some(self.conjugate().scale(renorm))
            },
        }
    }
}

} // verus!

verus! {

impl From<Mod231> for QuaternionM {
    /// Lifts a ring element to the real quaternion with that real part.
    fn from(w: Mod231) -> (r: Self) {
        proof {
            crate::mod231::lemma_mred_idem(w@);
            if w.wf() {
                lemma_mred_small(w@);
            }
        }
        Self::from_real(w)
    }
}

impl vstd::std_specs::convert::FromSpecImpl<Mod231> for QuaternionM {
    open spec fn obeys_from_spec() -> bool {
        true
    }

    open spec fn from_spec(w: Mod231) -> Self {
        QuaternionM { w, i: Mod231(0), j: Mod231(0), k: Mod231(0) }
    }
}

impl crate::Invertible for QuaternionM {
    open spec fn inv_wf(&self) -> bool {
        self.wf()
    }

    open spec fn spec_invertible(&self) -> bool {
        qnorm2(self@) != 0
    }

    open spec fn spec_inverse(&self) -> QuaternionM {
        QuaternionM {
            w: Mod231(qinv_spec(self@).w as u32),
            i: Mod231(qinv_spec(self@).i as u32),
            j: Mod231(qinv_spec(self@).j as u32),
            k: Mod231(qinv_spec(self@).k as u32),
        }
    }

    fn try_invert(&self) -> (r: Option<QuaternionM>) {
        let r = QuaternionM::try_invert(self);
        proof {
            match r {
                Some(v) => {
                    assert(v@ == qinv_spec(self@));
                    assert(v == self.spec_inverse());
                },
                None => {
                },
            }
        }
        r
    }

    fn invert(&self) -> (r: QuaternionM) {
        let r = match QuaternionM::try_invert(self) {
            Some(v) => v,
            None => vstd::pervasive::unreached(),
        };
        proof {
            assert(r@ == qinv_spec(self@));
        }
        r
    }
}

} // verus!
