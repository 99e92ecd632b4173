//! Fixed-size 2x2 and 3x3 matrices of quaternions, with the block
//! Schur-complement inversion used for key generation and decryption.
//!
//! As with quaternions, the specification has an unreduced layer (`m3addu`,
//! `m3mulu`, ...) of plain polynomial arithmetic and a reduced layer
//! (`m3add`, `m3mul`, ...) that reduces every coordinate; congruence lemmas
//! carry the matrix ring laws from one to the other.

use vstd::prelude::*;
use crate::mod231::Mod231;
use crate::quaternion::{
    lemma_qadd4_swap, lemma_qadd_neg_neg, lemma_qadd_sub_sub, lemma_qmul_dist_add_left,
    lemma_qmul_dist_add_right, lemma_q_zero_laws,
    lemma_qadd_comm, lemma_qadd_neg_cancel, lemma_qmul_assoc, lemma_qmul_dist_sub_left,
    lemma_qmul_dist_sub_right, lemma_qmul_neg, lemma_qmul_one, lemma_qsub_add_neg,
    lemma_qadd3, lemma_qaddu_cong, lemma_qaddu_noop, lemma_qmulu_assoc, lemma_qmulu_cong,
    lemma_qmulu_distl, lemma_qmulu_distr, lemma_qmulu_neg, lemma_qmulu_units, lemma_qnegu_noop,
    lemma_qred_idem, lemma_qred_wf, qadd, qaddu, qinv_spec, qmul, qmulu, qneg, qnegu, qnorm2,
    qone, qred, qsub, qwf, qzero, QuaternionM, QV,
};

verus! {

/// Spec-level 2x2 matrix of quaternions, row major.
pub struct M2V {
    pub c00: QV,
    pub c01: QV,
    pub c10: QV,
    pub c11: QV,
}

/// Spec-level 3x3 matrix of quaternions, row major.
pub struct M3V {
    pub c00: QV,
    pub c01: QV,
    pub c02: QV,
    pub c10: QV,
    pub c11: QV,
    pub c12: QV,
    pub c20: QV,
    pub c21: QV,
    pub c22: QV,
}

/// Unreduced dot product of two triples of quaternions.
pub open spec fn qdot3(x0: QV, x1: QV, x2: QV, y0: QV, y1: QV, y2: QV) -> QV {
    qaddu(qmulu(x0, y0), qaddu(qmulu(x1, y1), qmulu(x2, y2)))
}

/// Unreduced dot product of two pairs of quaternions.
pub open spec fn qdot2(x0: QV, x1: QV, y0: QV, y1: QV) -> QV {
    qaddu(qmulu(x0, y0), qmulu(x1, y1))
}

/// Unreduced coordinatewise sum.
pub open spec fn m3addu(a: M3V, b: M3V) -> M3V {
    M3V {
        c00: qaddu(a.c00, b.c00),
        c01: qaddu(a.c01, b.c01),
        c02: qaddu(a.c02, b.c02),
        c10: qaddu(a.c10, b.c10),
        c11: qaddu(a.c11, b.c11),
        c12: qaddu(a.c12, b.c12),
        c20: qaddu(a.c20, b.c20),
        c21: qaddu(a.c21, b.c21),
        c22: qaddu(a.c22, b.c22),
    }
}

/// Unreduced coordinatewise negation.
pub open spec fn m3negu(a: M3V) -> M3V {
    M3V {
        c00: qnegu(a.c00),
        c01: qnegu(a.c01),
        c02: qnegu(a.c02),
        c10: qnegu(a.c10),
        c11: qnegu(a.c11),
        c12: qnegu(a.c12),
        c20: qnegu(a.c20),
        c21: qnegu(a.c21),
        c22: qnegu(a.c22),
    }
}

/// Unreduced matrix product.
pub open spec fn m3mulu(a: M3V, b: M3V) -> M3V {
    M3V {
        c00: qdot3(a.c00, a.c01, a.c02, b.c00, b.c10, b.c20),
        c01: qdot3(a.c00, a.c01, a.c02, b.c01, b.c11, b.c21),
        c02: qdot3(a.c00, a.c01, a.c02, b.c02, b.c12, b.c22),
        c10: qdot3(a.c10, a.c11, a.c12, b.c00, b.c10, b.c20),
        c11: qdot3(a.c10, a.c11, a.c12, b.c01, b.c11, b.c21),
        c12: qdot3(a.c10, a.c11, a.c12, b.c02, b.c12, b.c22),
        c20: qdot3(a.c20, a.c21, a.c22, b.c00, b.c10, b.c20),
        c21: qdot3(a.c20, a.c21, a.c22, b.c01, b.c11, b.c21),
        c22: qdot3(a.c20, a.c21, a.c22, b.c02, b.c12, b.c22),
    }
}

/// Coordinatewise reduction.
pub open spec fn m3red(a: M3V) -> M3V {
    M3V {
        c00: qred(a.c00),
        c01: qred(a.c01),
        c02: qred(a.c02),
        c10: qred(a.c10),
        c11: qred(a.c11),
        c12: qred(a.c12),
        c20: qred(a.c20),
        c21: qred(a.c21),
        c22: qred(a.c22),
    }
}

/// Whether every cell is fully reduced.
pub open spec fn m3wf(a: M3V) -> bool {
    &&& qwf(a.c00)
    &&& qwf(a.c01)
    &&& qwf(a.c02)
    &&& qwf(a.c10)
    &&& qwf(a.c11)
    &&& qwf(a.c12)
    &&& qwf(a.c20)
    &&& qwf(a.c21)
    &&& qwf(a.c22)
}

/// Reduced sum.
pub open spec fn m3add(a: M3V, b: M3V) -> M3V {
    m3red(m3addu(a, b))
}

/// Reduced difference.
pub open spec fn m3sub(a: M3V, b: M3V) -> M3V {
    m3red(m3addu(a, m3negu(b)))
}

/// Reduced negation.
pub open spec fn m3neg(a: M3V) -> M3V {
    m3red(m3negu(a))
}

/// Reduced product.
pub open spec fn m3mul(a: M3V, b: M3V) -> M3V {
    m3red(m3mulu(a, b))
}

/// The identity matrix.
pub open spec fn m3id() -> M3V {
    M3V {
        c00: qone(),
        c01: qzero(),
        c02: qzero(),
        c10: qzero(),
        c11: qone(),
        c12: qzero(),
        c20: qzero(),
        c21: qzero(),
        c22: qone(),
    }
}

/// The zero matrix.
pub open spec fn m3zero() -> M3V {
    M3V {
        c00: qzero(),
        c01: qzero(),
        c02: qzero(),
        c10: qzero(),
        c11: qzero(),
        c12: qzero(),
        c20: qzero(),
        c21: qzero(),
        c22: qzero(),
    }
}

/// Whether the matrix is upper triangular: all cells below the diagonal are
/// zero.  Embeddings have this shape, and it is preserved by sum and
/// product, which keeps the payload cell clean under ciphertext arithmetic.
pub open spec fn m3upper(a: M3V) -> bool {
    &&& a.c10 == qzero()
    &&& a.c20 == qzero()
    &&& a.c21 == qzero()
}

// ---------------------------------------------------------------------
// Congruence between the layers.
// ---------------------------------------------------------------------

/// A reduced matrix is well formed, and reduction fixes well-formed ones.
#[verifier::rlimit(100)]
#[verifier::spinoff_prover]
pub proof fn lemma_m3red_wf(a: M3V)
    ensures
        m3wf(m3red(a)),
        m3wf(a) ==> m3red(a) == a,
{
    lemma_qred_wf(a.c00);
    lemma_qred_wf(a.c01);
    lemma_qred_wf(a.c02);
    lemma_qred_wf(a.c10);
    lemma_qred_wf(a.c11);
    lemma_qred_wf(a.c12);
    lemma_qred_wf(a.c20);
    lemma_qred_wf(a.c21);
    lemma_qred_wf(a.c22);
}

/// One product cell: congruent rows and columns give congruent cells.
#[verifier::rlimit(100)]
#[verifier::spinoff_prover]
proof fn lemma_qdot3_cong(
    x0: QV, x1: QV, x2: QV, y0: QV, y1: QV, y2: QV,
    x0b: QV, x1b: QV, x2b: QV, y0b: QV, y1b: QV, y2b: QV,
)
    requires
        qred(x0) == qred(x0b),
        qred(x1) == qred(x1b),
        qred(x2) == qred(x2b),
        qred(y0) == qred(y0b),
        qred(y1) == qred(y1b),
        qred(y2) == qred(y2b),
    ensures
        qred(qdot3(x0, x1, x2, y0, y1, y2)) == qred(qdot3(x0b, x1b, x2b, y0b, y1b, y2b)),
{
    lemma_qmulu_cong(x0, y0, x0b, y0b);
    lemma_qmulu_cong(x1, y1, x1b, y1b);
    lemma_qmulu_cong(x2, y2, x2b, y2b);
    lemma_qaddu_cong(qmulu(x1, y1), qmulu(x2, y2), qmulu(x1b, y1b), qmulu(x2b, y2b));
    lemma_qaddu_cong(
        qmulu(x0, y0),
        qaddu(qmulu(x1, y1), qmulu(x2, y2)),
        qmulu(x0b, y0b),
        qaddu(qmulu(x1b, y1b), qmulu(x2b, y2b)),
    );
}

/// Reducing the arguments of an unreduced matrix product does not change
/// its reduction.
#[verifier::rlimit(100)]
#[verifier::spinoff_prover]
pub proof fn lemma_m3mulu_noop(a: M3V, b: M3V)
    ensures
        m3red(m3mulu(m3red(a), m3red(b))) == m3red(m3mulu(a, b)),
{
    let ra = m3red(a);
    let rb = m3red(b);
    assert(qred(m3mulu(ra, rb).c00) == qred(m3mulu(a, b).c00)) by {
        lemma_qred_idem(a.c00);
        lemma_qred_idem(a.c01);
        lemma_qred_idem(a.c02);
        lemma_qred_idem(b.c00);
        lemma_qred_idem(b.c10);
        lemma_qred_idem(b.c20);
        lemma_qdot3_cong(
            ra.c00, ra.c01, ra.c02, rb.c00, rb.c10, rb.c20,
            a.c00, a.c01, a.c02, b.c00, b.c10, b.c20,
        );
    };
    assert(qred(m3mulu(ra, rb).c01) == qred(m3mulu(a, b).c01)) by {
        lemma_qred_idem(a.c00);
        lemma_qred_idem(a.c01);
        lemma_qred_idem(a.c02);
        lemma_qred_idem(b.c01);
        lemma_qred_idem(b.c11);
        lemma_qred_idem(b.c21);
        lemma_qdot3_cong(
            ra.c00, ra.c01, ra.c02, rb.c01, rb.c11, rb.c21,
            a.c00, a.c01, a.c02, b.c01, b.c11, b.c21,
        );
    };
    assert(qred(m3mulu(ra, rb).c02) == qred(m3mulu(a, b).c02)) by {
        lemma_qred_idem(a.c00);
        lemma_qred_idem(a.c01);
        lemma_qred_idem(a.c02);
        lemma_qred_idem(b.c02);
        lemma_qred_idem(b.c12);
        lemma_qred_idem(b.c22);
        lemma_qdot3_cong(
            ra.c00, ra.c01, ra.c02, rb.c02, rb.c12, rb.c22,
            a.c00, a.c01, a.c02, b.c02, b.c12, b.c22,
        );
    };
    assert(qred(m3mulu(ra, rb).c10) == qred(m3mulu(a, b).c10)) by {
        lemma_qred_idem(a.c10);
        lemma_qred_idem(a.c11);
        lemma_qred_idem(a.c12);
        lemma_qred_idem(b.c00);
        lemma_qred_idem(b.c10);
        lemma_qred_idem(b.c20);
        lemma_qdot3_cong(
            ra.c10, ra.c11, ra.c12, rb.c00, rb.c10, rb.c20,
            a.c10, a.c11, a.c12, b.c00, b.c10, b.c20,
        );
    };
    assert(qred(m3mulu(ra, rb).c11) == qred(m3mulu(a, b).c11)) by {
        lemma_qred_idem(a.c10);
        lemma_qred_idem(a.c11);
        lemma_qred_idem(a.c12);
        lemma_qred_idem(b.c01);
        lemma_qred_idem(b.c11);
        lemma_qred_idem(b.c21);
        lemma_qdot3_cong(
            ra.c10, ra.c11, ra.c12, rb.c01, rb.c11, rb.c21,
            a.c10, a.c11, a.c12, b.c01, b.c11, b.c21,
        );
    };
    assert(qred(m3mulu(ra, rb).c12) == qred(m3mulu(a, b).c12)) by {
        lemma_qred_idem(a.c10);
        lemma_qred_idem(a.c11);
        lemma_qred_idem(a.c12);
        lemma_qred_idem(b.c02);
        lemma_qred_idem(b.c12);
        lemma_qred_idem(b.c22);
        lemma_qdot3_cong(
            ra.c10, ra.c11, ra.c12, rb.c02, rb.c12, rb.c22,
            a.c10, a.c11, a.c12, b.c02, b.c12, b.c22,
        );
    };
    assert(qred(m3mulu(ra, rb).c20) == qred(m3mulu(a, b).c20)) by {
        lemma_qred_idem(a.c20);
        lemma_qred_idem(a.c21);
        lemma_qred_idem(a.c22);
        lemma_qred_idem(b.c00);
        lemma_qred_idem(b.c10);
        lemma_qred_idem(b.c20);
        lemma_qdot3_cong(
            ra.c20, ra.c21, ra.c22, rb.c00, rb.c10, rb.c20,
            a.c20, a.c21, a.c22, b.c00, b.c10, b.c20,
        );
    };
    assert(qred(m3mulu(ra, rb).c21) == qred(m3mulu(a, b).c21)) by {
        lemma_qred_idem(a.c20);
        lemma_qred_idem(a.c21);
        lemma_qred_idem(a.c22);
        lemma_qred_idem(b.c01);
        lemma_qred_idem(b.c11);
        lemma_qred_idem(b.c21);
        lemma_qdot3_cong(
            ra.c20, ra.c21, ra.c22, rb.c01, rb.c11, rb.c21,
            a.c20, a.c21, a.c22, b.c01, b.c11, b.c21,
        );
    };
    assert(qred(m3mulu(ra, rb).c22) == qred(m3mulu(a, b).c22)) by {
        lemma_qred_idem(a.c20);
        lemma_qred_idem(a.c21);
        lemma_qred_idem(a.c22);
        lemma_qred_idem(b.c02);
        lemma_qred_idem(b.c12);
        lemma_qred_idem(b.c22);
        lemma_qdot3_cong(
            ra.c20, ra.c21, ra.c22, rb.c02, rb.c12, rb.c22,
            a.c20, a.c21, a.c22, b.c02, b.c12, b.c22,
        );
    };
}

/// Reducing the arguments of an unreduced matrix sum does not change its
/// reduction.
#[verifier::rlimit(100)]
#[verifier::spinoff_prover]
pub proof fn lemma_m3addu_noop(a: M3V, b: M3V)
    ensures
        m3red(m3addu(m3red(a), m3red(b))) == m3red(m3addu(a, b)),
{
    let ra = m3red(a);
    let rb = m3red(b);
    assert(qred(m3addu(ra, rb).c00) == qred(m3addu(a, b).c00)) by {
        lemma_qred_idem(a.c00);
        lemma_qred_idem(b.c00);
        lemma_qaddu_cong(qred(a.c00), qred(b.c00), a.c00, b.c00);
    };
    assert(qred(m3addu(ra, rb).c01) == qred(m3addu(a, b).c01)) by {
        lemma_qred_idem(a.c01);
        lemma_qred_idem(b.c01);
        lemma_qaddu_cong(qred(a.c01), qred(b.c01), a.c01, b.c01);
    };
    assert(qred(m3addu(ra, rb).c02) == qred(m3addu(a, b).c02)) by {
        lemma_qred_idem(a.c02);
        lemma_qred_idem(b.c02);
        lemma_qaddu_cong(qred(a.c02), qred(b.c02), a.c02, b.c02);
    };
    assert(qred(m3addu(ra, rb).c10) == qred(m3addu(a, b).c10)) by {
        lemma_qred_idem(a.c10);
        lemma_qred_idem(b.c10);
        lemma_qaddu_cong(qred(a.c10), qred(b.c10), a.c10, b.c10);
    };
    assert(qred(m3addu(ra, rb).c11) == qred(m3addu(a, b).c11)) by {
        lemma_qred_idem(a.c11);
        lemma_qred_idem(b.c11);
        lemma_qaddu_cong(qred(a.c11), qred(b.c11), a.c11, b.c11);
    };
    assert(qred(m3addu(ra, rb).c12) == qred(m3addu(a, b).c12)) by {
        lemma_qred_idem(a.c12);
        lemma_qred_idem(b.c12);
        lemma_qaddu_cong(qred(a.c12), qred(b.c12), a.c12, b.c12);
    };
    assert(qred(m3addu(ra, rb).c20) == qred(m3addu(a, b).c20)) by {
        lemma_qred_idem(a.c20);
        lemma_qred_idem(b.c20);
        lemma_qaddu_cong(qred(a.c20), qred(b.c20), a.c20, b.c20);
    };
    assert(qred(m3addu(ra, rb).c21) == qred(m3addu(a, b).c21)) by {
        lemma_qred_idem(a.c21);
        lemma_qred_idem(b.c21);
        lemma_qaddu_cong(qred(a.c21), qred(b.c21), a.c21, b.c21);
    };
    assert(qred(m3addu(ra, rb).c22) == qred(m3addu(a, b).c22)) by {
        lemma_qred_idem(a.c22);
        lemma_qred_idem(b.c22);
        lemma_qaddu_cong(qred(a.c22), qred(b.c22), a.c22, b.c22);
    };
}


// ---------------------------------------------------------------------
// Matrix ring laws at the unreduced layer.
// ---------------------------------------------------------------------

/// Associativity of one cell of a triple matrix product: a row of the
/// left factor, the full middle factor, and a column of the right factor.
#[verifier::rlimit(100)]
#[verifier::spinoff_prover]
proof fn lemma_qdot3_assoc(
    a0: QV, a1: QV, a2: QV,
    b00: QV, b01: QV, b02: QV,
    b10: QV, b11: QV, b12: QV,
    b20: QV, b21: QV, b22: QV,
    c0: QV, c1: QV, c2: QV,
)
    ensures
        qdot3(
            qdot3(a0, a1, a2, b00, b10, b20),
            qdot3(a0, a1, a2, b01, b11, b21),
            qdot3(a0, a1, a2, b02, b12, b22),
            c0, c1, c2,
        ) == qdot3(
            a0, a1, a2,
            qdot3(b00, b01, b02, c0, c1, c2),
            qdot3(b10, b11, b12, c0, c1, c2),
            qdot3(b20, b21, b22, c0, c1, c2),
        ),
{
    lemma_qmulu_distr(qmulu(a0, b00), qaddu(qmulu(a1, b10), qmulu(a2, b20)), c0);
    lemma_qmulu_distr(qmulu(a1, b10), qmulu(a2, b20), c0);
    lemma_qmulu_distr(qmulu(a0, b01), qaddu(qmulu(a1, b11), qmulu(a2, b21)), c1);
    lemma_qmulu_distr(qmulu(a1, b11), qmulu(a2, b21), c1);
    lemma_qmulu_distr(qmulu(a0, b02), qaddu(qmulu(a1, b12), qmulu(a2, b22)), c2);
    lemma_qmulu_distr(qmulu(a1, b12), qmulu(a2, b22), c2);
    lemma_qmulu_assoc(a0, b00, c0);
    lemma_qmulu_assoc(a1, b10, c0);
    lemma_qmulu_assoc(a2, b20, c0);
    lemma_qmulu_assoc(a0, b01, c1);
    lemma_qmulu_assoc(a1, b11, c1);
    lemma_qmulu_assoc(a2, b21, c1);
    lemma_qmulu_assoc(a0, b02, c2);
    lemma_qmulu_assoc(a1, b12, c2);
    lemma_qmulu_assoc(a2, b22, c2);
    lemma_qmulu_distl(a0, qmulu(b00, c0), qaddu(qmulu(b01, c1), qmulu(b02, c2)));
    lemma_qmulu_distl(a0, qmulu(b01, c1), qmulu(b02, c2));
    lemma_qmulu_distl(a1, qmulu(b10, c0), qaddu(qmulu(b11, c1), qmulu(b12, c2)));
    lemma_qmulu_distl(a1, qmulu(b11, c1), qmulu(b12, c2));
    lemma_qmulu_distl(a2, qmulu(b20, c0), qaddu(qmulu(b21, c1), qmulu(b22, c2)));
    lemma_qmulu_distl(a2, qmulu(b21, c1), qmulu(b22, c2));
}

/// The unreduced matrix product is associative.
#[verifier::rlimit(100)]
#[verifier::spinoff_prover]
pub proof fn lemma_m3mulu_assoc(a: M3V, b: M3V, c: M3V)
    ensures
        m3mulu(m3mulu(a, b), c) == m3mulu(a, m3mulu(b, c)),
{
    assert(m3mulu(m3mulu(a, b), c).c00 == m3mulu(a, m3mulu(b, c)).c00) by {
        lemma_qdot3_assoc(
            a.c00, a.c01, a.c02,
            b.c00, b.c01, b.c02,
            b.c10, b.c11, b.c12,
            b.c20, b.c21, b.c22,
            c.c00, c.c10, c.c20,
        );
    };
    assert(m3mulu(m3mulu(a, b), c).c01 == m3mulu(a, m3mulu(b, c)).c01) by {
        lemma_qdot3_assoc(
            a.c00, a.c01, a.c02,
            b.c00, b.c01, b.c02,
            b.c10, b.c11, b.c12,
            b.c20, b.c21, b.c22,
            c.c01, c.c11, c.c21,
        );
    };
    assert(m3mulu(m3mulu(a, b), c).c02 == m3mulu(a, m3mulu(b, c)).c02) by {
        lemma_qdot3_assoc(
            a.c00, a.c01, a.c02,
            b.c00, b.c01, b.c02,
            b.c10, b.c11, b.c12,
            b.c20, b.c21, b.c22,
            c.c02, c.c12, c.c22,
        );
    };
    assert(m3mulu(m3mulu(a, b), c).c10 == m3mulu(a, m3mulu(b, c)).c10) by {
        lemma_qdot3_assoc(
            a.c10, a.c11, a.c12,
            b.c00, b.c01, b.c02,
            b.c10, b.c11, b.c12,
            b.c20, b.c21, b.c22,
            c.c00, c.c10, c.c20,
        );
    };
    assert(m3mulu(m3mulu(a, b), c).c11 == m3mulu(a, m3mulu(b, c)).c11) by {
        lemma_qdot3_assoc(
            a.c10, a.c11, a.c12,
            b.c00, b.c01, b.c02,
            b.c10, b.c11, b.c12,
            b.c20, b.c21, b.c22,
            c.c01, c.c11, c.c21,
        );
    };
    assert(m3mulu(m3mulu(a, b), c).c12 == m3mulu(a, m3mulu(b, c)).c12) by {
        lemma_qdot3_assoc(
            a.c10, a.c11, a.c12,
            b.c00, b.c01, b.c02,
            b.c10, b.c11, b.c12,
            b.c20, b.c21, b.c22,
            c.c02, c.c12, c.c22,
        );
    };
    assert(m3mulu(m3mulu(a, b), c).c20 == m3mulu(a, m3mulu(b, c)).c20) by {
        lemma_qdot3_assoc(
            a.c20, a.c21, a.c22,
            b.c00, b.c01, b.c02,
            b.c10, b.c11, b.c12,
            b.c20, b.c21, b.c22,
            c.c00, c.c10, c.c20,
        );
    };
    assert(m3mulu(m3mulu(a, b), c).c21 == m3mulu(a, m3mulu(b, c)).c21) by {
        lemma_qdot3_assoc(
            a.c20, a.c21, a.c22,
            b.c00, b.c01, b.c02,
            b.c10, b.c11, b.c12,
            b.c20, b.c21, b.c22,
            c.c01, c.c11, c.c21,
        );
    };
    assert(m3mulu(m3mulu(a, b), c).c22 == m3mulu(a, m3mulu(b, c)).c22) by {
        lemma_qdot3_assoc(
            a.c20, a.c21, a.c22,
            b.c00, b.c01, b.c02,
            b.c10, b.c11, b.c12,
            b.c20, b.c21, b.c22,
            c.c02, c.c12, c.c22,
        );
    };
}

/// The identity matrix is a two-sided unit for the unreduced product.
#[verifier::rlimit(100)]
#[verifier::spinoff_prover]
pub proof fn lemma_m3mulu_id(a: M3V)
    ensures
        m3mulu(m3id(), a) == a,
        m3mulu(a, m3id()) == a,
{
    lemma_qmulu_units(a.c00);
    lemma_qmulu_units(a.c01);
    lemma_qmulu_units(a.c02);
    lemma_qmulu_units(a.c10);
    lemma_qmulu_units(a.c11);
    lemma_qmulu_units(a.c12);
    lemma_qmulu_units(a.c20);
    lemma_qmulu_units(a.c21);
    lemma_qmulu_units(a.c22);
}

/// The unreduced product distributes over the unreduced sum on the left.
#[verifier::rlimit(100)]
#[verifier::spinoff_prover]
pub proof fn lemma_m3mulu_distl(a: M3V, b: M3V, c: M3V)
    ensures
        m3mulu(a, m3addu(b, c)) == m3addu(m3mulu(a, b), m3mulu(a, c)),
{
    lemma_qmulu_distl(a.c00, b.c00, c.c00);
    lemma_qmulu_distl(a.c01, b.c10, c.c10);
    lemma_qmulu_distl(a.c02, b.c20, c.c20);
    lemma_qmulu_distl(a.c00, b.c01, c.c01);
    lemma_qmulu_distl(a.c01, b.c11, c.c11);
    lemma_qmulu_distl(a.c02, b.c21, c.c21);
    lemma_qmulu_distl(a.c00, b.c02, c.c02);
    lemma_qmulu_distl(a.c01, b.c12, c.c12);
    lemma_qmulu_distl(a.c02, b.c22, c.c22);
    lemma_qmulu_distl(a.c10, b.c00, c.c00);
    lemma_qmulu_distl(a.c11, b.c10, c.c10);
    lemma_qmulu_distl(a.c12, b.c20, c.c20);
    lemma_qmulu_distl(a.c10, b.c01, c.c01);
    lemma_qmulu_distl(a.c11, b.c11, c.c11);
    lemma_qmulu_distl(a.c12, b.c21, c.c21);
    lemma_qmulu_distl(a.c10, b.c02, c.c02);
    lemma_qmulu_distl(a.c11, b.c12, c.c12);
    lemma_qmulu_distl(a.c12, b.c22, c.c22);
    lemma_qmulu_distl(a.c20, b.c00, c.c00);
    lemma_qmulu_distl(a.c21, b.c10, c.c10);
    lemma_qmulu_distl(a.c22, b.c20, c.c20);
    lemma_qmulu_distl(a.c20, b.c01, c.c01);
    lemma_qmulu_distl(a.c21, b.c11, c.c11);
    lemma_qmulu_distl(a.c22, b.c21, c.c21);
    lemma_qmulu_distl(a.c20, b.c02, c.c02);
    lemma_qmulu_distl(a.c21, b.c12, c.c12);
    lemma_qmulu_distl(a.c22, b.c22, c.c22);
}

/// The unreduced product distributes over the unreduced sum on the right.
#[verifier::rlimit(100)]
#[verifier::spinoff_prover]
pub proof fn lemma_m3mulu_distr(a: M3V, b: M3V, c: M3V)
    ensures
        m3mulu(m3addu(a, b), c) == m3addu(m3mulu(a, c), m3mulu(b, c)),
{
    lemma_qmulu_distr(a.c00, b.c00, c.c00);
    lemma_qmulu_distr(a.c01, b.c01, c.c10);
    lemma_qmulu_distr(a.c02, b.c02, c.c20);
    lemma_qmulu_distr(a.c00, b.c00, c.c01);
    lemma_qmulu_distr(a.c01, b.c01, c.c11);
    lemma_qmulu_distr(a.c02, b.c02, c.c21);
    lemma_qmulu_distr(a.c00, b.c00, c.c02);
    lemma_qmulu_distr(a.c01, b.c01, c.c12);
    lemma_qmulu_distr(a.c02, b.c02, c.c22);
    lemma_qmulu_distr(a.c10, b.c10, c.c00);
    lemma_qmulu_distr(a.c11, b.c11, c.c10);
    lemma_qmulu_distr(a.c12, b.c12, c.c20);
    lemma_qmulu_distr(a.c10, b.c10, c.c01);
    lemma_qmulu_distr(a.c11, b.c11, c.c11);
    lemma_qmulu_distr(a.c12, b.c12, c.c21);
    lemma_qmulu_distr(a.c10, b.c10, c.c02);
    lemma_qmulu_distr(a.c11, b.c11, c.c12);
    lemma_qmulu_distr(a.c12, b.c12, c.c22);
    lemma_qmulu_distr(a.c20, b.c20, c.c00);
    lemma_qmulu_distr(a.c21, b.c21, c.c10);
    lemma_qmulu_distr(a.c22, b.c22, c.c20);
    lemma_qmulu_distr(a.c20, b.c20, c.c01);
    lemma_qmulu_distr(a.c21, b.c21, c.c11);
    lemma_qmulu_distr(a.c22, b.c22, c.c21);
    lemma_qmulu_distr(a.c20, b.c20, c.c02);
    lemma_qmulu_distr(a.c21, b.c21, c.c12);
    lemma_qmulu_distr(a.c22, b.c22, c.c22);
}

/// Negation moves through the unreduced product on either side.
#[verifier::rlimit(100)]
#[verifier::spinoff_prover]
pub proof fn lemma_m3mulu_neg(a: M3V, b: M3V)
    ensures
        m3mulu(a, m3negu(b)) == m3negu(m3mulu(a, b)),
        m3mulu(m3negu(a), b) == m3negu(m3mulu(a, b)),
{
    lemma_qmulu_neg(a.c00, b.c00);
    lemma_qmulu_neg(a.c01, b.c10);
    lemma_qmulu_neg(a.c02, b.c20);
    lemma_qmulu_neg(a.c00, b.c01);
    lemma_qmulu_neg(a.c01, b.c11);
    lemma_qmulu_neg(a.c02, b.c21);
    lemma_qmulu_neg(a.c00, b.c02);
    lemma_qmulu_neg(a.c01, b.c12);
    lemma_qmulu_neg(a.c02, b.c22);
    lemma_qmulu_neg(a.c10, b.c00);
    lemma_qmulu_neg(a.c11, b.c10);
    lemma_qmulu_neg(a.c12, b.c20);
    lemma_qmulu_neg(a.c10, b.c01);
    lemma_qmulu_neg(a.c11, b.c11);
    lemma_qmulu_neg(a.c12, b.c21);
    lemma_qmulu_neg(a.c10, b.c02);
    lemma_qmulu_neg(a.c11, b.c12);
    lemma_qmulu_neg(a.c12, b.c22);
    lemma_qmulu_neg(a.c20, b.c00);
    lemma_qmulu_neg(a.c21, b.c10);
    lemma_qmulu_neg(a.c22, b.c20);
    lemma_qmulu_neg(a.c20, b.c01);
    lemma_qmulu_neg(a.c21, b.c11);
    lemma_qmulu_neg(a.c22, b.c21);
    lemma_qmulu_neg(a.c20, b.c02);
    lemma_qmulu_neg(a.c21, b.c12);
    lemma_qmulu_neg(a.c22, b.c22);
}

/// Matrix reduction is idempotent.
pub proof fn lemma_m3red_idem(a: M3V)
    ensures
        m3red(m3red(a)) == m3red(a),
{
    lemma_qred_idem(a.c00);
    lemma_qred_idem(a.c01);
    lemma_qred_idem(a.c02);
    lemma_qred_idem(a.c10);
    lemma_qred_idem(a.c11);
    lemma_qred_idem(a.c12);
    lemma_qred_idem(a.c20);
    lemma_qred_idem(a.c21);
    lemma_qred_idem(a.c22);
}

/// Reducing the argument of an unreduced matrix negation does not change
/// its reduction.
pub proof fn lemma_m3negu_noop(a: M3V)
    ensures
        m3red(m3negu(m3red(a))) == m3red(m3negu(a)),
{
    lemma_qnegu_noop(a.c00);
    lemma_qnegu_noop(a.c01);
    lemma_qnegu_noop(a.c02);
    lemma_qnegu_noop(a.c10);
    lemma_qnegu_noop(a.c11);
    lemma_qnegu_noop(a.c12);
    lemma_qnegu_noop(a.c20);
    lemma_qnegu_noop(a.c21);
    lemma_qnegu_noop(a.c22);
}


// ---------------------------------------------------------------------
// Matrix ring laws at the reduced layer.
// ---------------------------------------------------------------------

/// The reduced matrix product is associative.
#[verifier::rlimit(100)]
#[verifier::spinoff_prover]
pub proof fn lemma_m3mul_assoc(a: M3V, b: M3V, c: M3V)
    ensures
        m3mul(m3mul(a, b), c) == m3mul(a, m3mul(b, c)),
{
    let ab = m3mulu(a, b);
    let bc = m3mulu(b, c);
    lemma_m3red_idem(ab);
    lemma_m3red_idem(bc);
    lemma_m3red_idem(c);
    lemma_m3red_idem(a);
    lemma_m3mulu_noop(m3red(ab), c);
    lemma_m3mulu_noop(ab, c);
    lemma_m3mulu_noop(a, m3red(bc));
    lemma_m3mulu_noop(a, bc);
    lemma_m3mulu_assoc(a, b, c);
    assert(m3red(m3mulu(m3red(ab), c)) == m3red(m3mulu(ab, c))) by {
        assert(m3red(m3mulu(m3red(m3red(ab)), m3red(c))) == m3red(m3mulu(m3red(ab), c)));
        assert(m3red(m3mulu(m3red(ab), m3red(c))) == m3red(m3mulu(ab, c)));
    };
    assert(m3red(m3mulu(a, m3red(bc))) == m3red(m3mulu(a, bc))) by {
        assert(m3red(m3mulu(m3red(a), m3red(m3red(bc)))) == m3red(m3mulu(a, m3red(bc))));
        assert(m3red(m3mulu(m3red(a), m3red(bc))) == m3red(m3mulu(a, bc)));
    };
}

/// The identity matrix is a two-sided unit for the reduced product on
/// well-formed matrices.
pub proof fn lemma_m3mul_id(a: M3V)
    requires
        m3wf(a),
    ensures
        m3mul(m3id(), a) == a,
        m3mul(a, m3id()) == a,
{
    lemma_m3mulu_id(a);
    lemma_m3red_wf(a);
}

/// The reduced product distributes over the reduced sum.
#[verifier::rlimit(100)]
#[verifier::spinoff_prover]
pub proof fn lemma_m3mul_dist(a: M3V, b: M3V, c: M3V)
    ensures
        m3mul(a, m3add(b, c)) == m3add(m3mul(a, b), m3mul(a, c)),
        m3mul(m3add(a, b), c) == m3add(m3mul(a, c), m3mul(b, c)),
{
    let s = m3addu(b, c);
    lemma_m3red_idem(s);
    lemma_m3red_idem(a);
    lemma_m3mulu_noop(a, m3red(s));
    lemma_m3mulu_noop(a, s);
    lemma_m3mulu_distl(a, b, c);
    lemma_m3addu_noop(m3mulu(a, b), m3mulu(a, c));
    assert(m3mul(a, m3add(b, c)) == m3red(m3mulu(a, s))) by {
        assert(m3red(m3mulu(m3red(a), m3red(m3red(s)))) == m3red(m3mulu(a, m3red(s))));
        assert(m3red(m3mulu(m3red(a), m3red(s))) == m3red(m3mulu(a, s)));
    };

    let s2 = m3addu(a, b);
    lemma_m3red_idem(s2);
    lemma_m3red_idem(c);
    lemma_m3mulu_noop(m3red(s2), c);
    lemma_m3mulu_noop(s2, c);
    lemma_m3mulu_distr(a, b, c);
    lemma_m3addu_noop(m3mulu(a, c), m3mulu(b, c));
    assert(m3mul(m3add(a, b), c) == m3red(m3mulu(s2, c))) by {
        assert(m3red(m3mulu(m3red(m3red(s2)), m3red(c))) == m3red(m3mulu(m3red(s2), c)));
        assert(m3red(m3mulu(m3red(s2), m3red(c))) == m3red(m3mulu(s2, c)));
    };
}

/// Negation moves through the reduced product on either side.
#[verifier::rlimit(100)]
#[verifier::spinoff_prover]
pub proof fn lemma_m3mul_neg(a: M3V, b: M3V)
    ensures
        m3mul(a, m3neg(b)) == m3neg(m3mul(a, b)),
        m3mul(m3neg(a), b) == m3neg(m3mul(a, b)),
{
    let nb = m3negu(b);
    lemma_m3red_idem(nb);
    lemma_m3red_idem(a);
    lemma_m3mulu_noop(a, m3red(nb));
    lemma_m3mulu_noop(a, nb);
    lemma_m3mulu_neg(a, b);
    lemma_m3negu_noop(m3mulu(a, b));
    assert(m3mul(a, m3neg(b)) == m3red(m3mulu(a, nb))) by {
        assert(m3red(m3mulu(m3red(a), m3red(m3red(nb)))) == m3red(m3mulu(a, m3red(nb))));
        assert(m3red(m3mulu(m3red(a), m3red(nb))) == m3red(m3mulu(a, nb)));
    };
    assert(m3red(m3negu(m3mulu(a, b))) == m3neg(m3mul(a, b)));

    let na = m3negu(a);
    lemma_m3red_idem(na);
    lemma_m3red_idem(b);
    lemma_m3mulu_noop(m3red(na), b);
    lemma_m3mulu_noop(na, b);
    assert(m3mul(m3neg(a), b) == m3red(m3mulu(na, b))) by {
        assert(m3red(m3mulu(m3red(m3red(na)), m3red(b))) == m3red(m3mulu(m3red(na), b)));
        assert(m3red(m3mulu(m3red(na), m3red(b))) == m3red(m3mulu(na, b)));
    };
}

// ---------------------------------------------------------------------
// Upper-triangular matrices: the shape of embeddings.
// ---------------------------------------------------------------------

/// The reduced sum of upper-triangular matrices is upper triangular, and
/// its payload cell is the sum of the payload cells.
pub proof fn lemma_m3upper_add(a: M3V, b: M3V)
    requires
        m3upper(a),
        m3upper(b),
    ensures
        m3upper(m3add(a, b)),
        m3add(a, b).c00 == qadd(a.c00, b.c00),
{
    crate::mod231::lemma_mred_small(0);
}

/// The reduced product of well-formed upper-triangular matrices is upper
/// triangular, and its payload cell is the product of the payload cells.
#[verifier::rlimit(100)]
#[verifier::spinoff_prover]
pub proof fn lemma_m3upper_mul(a: M3V, b: M3V)
    requires
        m3upper(a),
        m3upper(b),
    ensures
        m3upper(m3mul(a, b)),
        m3mul(a, b).c00 == qmul(a.c00, b.c00),
{
    lemma_qmulu_units(a.c00);
    lemma_qmulu_units(a.c01);
    lemma_qmulu_units(a.c02);
    lemma_qmulu_units(a.c11);
    lemma_qmulu_units(a.c12);
    lemma_qmulu_units(a.c22);
    lemma_qmulu_units(b.c00);
    lemma_qmulu_units(b.c01);
    lemma_qmulu_units(b.c02);
    lemma_qmulu_units(b.c11);
    lemma_qmulu_units(b.c12);
    lemma_qmulu_units(b.c22);
    crate::mod231::lemma_mred_small(0);
    assert(m3mulu(a, b).c10 == qzero());
    assert(m3mulu(a, b).c20 == qzero());
    assert(m3mulu(a, b).c21 == qzero());
    assert(m3mulu(a, b).c00 == qmulu(a.c00, b.c00));
}

/// Reduced subtraction is addition of the reduced negation.
#[verifier::rlimit(100)]
#[verifier::spinoff_prover]
pub proof fn lemma_m3sub_as_add_neg(a: M3V, b: M3V)
    ensures
        m3sub(a, b) == m3add(a, m3neg(b)),
{
    let nb = m3negu(b);
    lemma_m3addu_noop(a, nb);
    lemma_m3addu_noop(a, m3red(nb));
    lemma_m3red_idem(a);
    lemma_m3red_idem(nb);
    assert(m3add(a, m3neg(b)) == m3red(m3addu(m3red(a), m3red(m3red(nb)))));
    assert(m3red(m3addu(m3red(a), m3red(nb))) == m3red(m3addu(a, nb)));
}

/// The reduced negation of an upper-triangular matrix is upper triangular.
pub proof fn lemma_m3upper_neg(a: M3V)
    requires
        m3upper(a),
    ensures
        m3upper(m3neg(a)),
{
    crate::mod231::lemma_mred_small(0);
}


// ---------------------------------------------------------------------
// Executable matrices.
// ---------------------------------------------------------------------

/// A 2x2 matrix of quaternions, row major.
#[derive(Clone, Copy, Debug, PartialEq, Eq, Structural)]
pub struct Matrix2 {
    pub m00: QuaternionM,
    pub m01: QuaternionM,
    pub m10: QuaternionM,
    pub m11: QuaternionM,
}

/// A 3x3 matrix of quaternions, row major.
#[derive(Clone, Copy, Debug, PartialEq, Eq, Structural)]
pub struct Matrix3 {
    pub m00: QuaternionM,
    pub m01: QuaternionM,
    pub m02: QuaternionM,
    pub m10: QuaternionM,
    pub m11: QuaternionM,
    pub m12: QuaternionM,
    pub m20: QuaternionM,
    pub m21: QuaternionM,
    pub m22: QuaternionM,
}

impl View for Matrix2 {
    type V = M2V;

    open spec fn view(&self) -> M2V {
        M2V { c00: self.m00@, c01: self.m01@, c10: self.m10@, c11: self.m11@ }
    }
}

impl View for Matrix3 {
    type V = M3V;

    open spec fn view(&self) -> M3V {
        M3V {
            c00: self.m00@,
            c01: self.m01@,
            c02: self.m02@,
            c10: self.m10@,
            c11: self.m11@,
            c12: self.m12@,
            c20: self.m20@,
            c21: self.m21@,
            c22: self.m22@,
        }
    }
}

/// Unreduced 2x2 product.
pub open spec fn m2mulu(a: M2V, b: M2V) -> M2V {
    M2V {
        c00: qdot2(a.c00, a.c01, b.c00, b.c10),
        c01: qdot2(a.c00, a.c01, b.c01, b.c11),
        c10: qdot2(a.c10, a.c11, b.c00, b.c10),
        c11: qdot2(a.c10, a.c11, b.c01, b.c11),
    }
}

/// Coordinatewise reduction of a 2x2 matrix.
pub open spec fn m2red(a: M2V) -> M2V {
    M2V { c00: qred(a.c00), c01: qred(a.c01), c10: qred(a.c10), c11: qred(a.c11) }
}

/// Reduced 2x2 product.
pub open spec fn m2mul(a: M2V, b: M2V) -> M2V {
    m2red(m2mulu(a, b))
}

/// The 2x2 identity matrix.
pub open spec fn m2id() -> M2V {
    M2V { c00: qone(), c01: qzero(), c10: qzero(), c11: qone() }
}

/// Whether every cell of a 2x2 matrix is fully reduced.
pub open spec fn m2wf(a: M2V) -> bool {
    &&& qwf(a.c00)
    &&& qwf(a.c01)
    &&& qwf(a.c10)
    &&& qwf(a.c11)
}

impl Matrix2 {
    /// The representation invariant: every cell is reduced.
    pub open spec fn wf(&self) -> bool {
        m2wf(self@)
    }

    /// Builds a matrix from its four cells, row major.
    pub fn new(m00: QuaternionM, m01: QuaternionM, m10: QuaternionM, m11: QuaternionM) -> (r:
        Self)
        ensures
            r@ == (M2V { c00: m00@, c01: m01@, c10: m10@, c11: m11@ }),
    {
        Matrix2 { m00, m01, m10, m11 }
    }

    /// The identity matrix.
    pub fn identity() -> (r: Self)
        ensures
            r@ == m2id(),
            r.wf(),
    {
        Matrix2 {
            m00: QuaternionM::one(),
            m01: QuaternionM::zero(),
            m10: QuaternionM::zero(),
            m11: QuaternionM::one(),
        }
    }

    /// The matrix product.
    pub fn mul(self, other: Self) -> (r: Self)
        requires
            self.wf(),
            other.wf(),
        ensures
            r.wf(),
            r@ == m2mul(self@, other@),
    {
        let r = Matrix2 {
            m00: self.m00.mul(other.m00).add(self.m01.mul(other.m10)),
            m01: self.m00.mul(other.m01).add(self.m01.mul(other.m11)),
            m10: self.m10.mul(other.m00).add(self.m11.mul(other.m10)),
            m11: self.m10.mul(other.m01).add(self.m11.mul(other.m11)),
        };
        proof {
            lemma_qaddu_noop(qmulu(self@.c00, other@.c00), qmulu(self@.c01, other@.c10));
            lemma_qaddu_noop(qmulu(self@.c00, other@.c01), qmulu(self@.c01, other@.c11));
            lemma_qaddu_noop(qmulu(self@.c10, other@.c00), qmulu(self@.c11, other@.c10));
            lemma_qaddu_noop(qmulu(self@.c10, other@.c01), qmulu(self@.c11, other@.c11));
        }
        r
    }
}

impl Matrix3 {
    /// The representation invariant: every cell is reduced.
    pub open spec fn wf(&self) -> bool {
        m3wf(self@)
    }

    /// Builds a matrix from its nine cells, row major.
    #[verifier::rlimit(50)]
    pub fn new(
        m00: QuaternionM, m01: QuaternionM, m02: QuaternionM,
        m10: QuaternionM, m11: QuaternionM, m12: QuaternionM,
        m20: QuaternionM, m21: QuaternionM, m22: QuaternionM,
    ) -> (r: Self)
        ensures
            r@ == (M3V {
                c00: m00@, c01: m01@, c02: m02@,
                c10: m10@, c11: m11@, c12: m12@,
                c20: m20@, c21: m21@, c22: m22@,
            }),
    {
        Matrix3 { m00, m01, m02, m10, m11, m12, m20, m21, m22 }
    }

    /// The zero matrix.
    pub fn zero() -> (r: Self)
        ensures
            r@ == m3zero(),
            r.wf(),
    {
        let z = QuaternionM::zero();
        Matrix3 { m00: z, m01: z, m02: z, m10: z, m11: z, m12: z, m20: z, m21: z, m22: z }
    }

    /// The identity matrix.
    pub fn identity() -> (r: Self)
        ensures
            r@ == m3id(),
            r.wf(),
    {
        let z = QuaternionM::zero();
        let e = QuaternionM::one();
        Matrix3 { m00: e, m01: z, m02: z, m10: z, m11: e, m12: z, m20: z, m21: z, m22: e }
    }

    /// Coordinatewise sum.
    #[verifier::rlimit(50)]
    pub fn add(self, other: Self) -> (r: Self)
        requires
            self.wf(),
            other.wf(),
        ensures
            r.wf(),
            r@ == m3add(self@, other@),
    {
        Matrix3 {
            m00: self.m00.add(other.m00),
            m01: self.m01.add(other.m01),
            m02: self.m02.add(other.m02),
            m10: self.m10.add(other.m10),
            m11: self.m11.add(other.m11),
            m12: self.m12.add(other.m12),
            m20: self.m20.add(other.m20),
            m21: self.m21.add(other.m21),
            m22: self.m22.add(other.m22),
        }
    }

    /// Coordinatewise difference.
    #[verifier::rlimit(50)]
    pub fn sub(self, other: Self) -> (r: Self)
        requires
            self.wf(),
            other.wf(),
        ensures
            r.wf(),
            r@ == m3sub(self@, other@),
    {
        Matrix3 {
            m00: self.m00.sub(other.m00),
            m01: self.m01.sub(other.m01),
            m02: self.m02.sub(other.m02),
            m10: self.m10.sub(other.m10),
            m11: self.m11.sub(other.m11),
            m12: self.m12.sub(other.m12),
            m20: self.m20.sub(other.m20),
            m21: self.m21.sub(other.m21),
            m22: self.m22.sub(other.m22),
        }
    }

    /// Coordinatewise negation.
    #[verifier::rlimit(50)]
    pub fn neg(self) -> (r: Self)
        requires
            self.wf(),
        ensures
            r.wf(),
            r@ == m3neg(self@),
    {
        Matrix3 {
            m00: self.m00.neg(),
            m01: self.m01.neg(),
            m02: self.m02.neg(),
            m10: self.m10.neg(),
            m11: self.m11.neg(),
            m12: self.m12.neg(),
            m20: self.m20.neg(),
            m21: self.m21.neg(),
            m22: self.m22.neg(),
        }
    }

    /// Whether every cell is reduced, checked at run time.
    pub fn is_reduced(&self) -> (r: bool)
        ensures
            r == self.wf(),
    {
        self.m00.is_reduced() && self.m01.is_reduced() && self.m02.is_reduced()
            && self.m10.is_reduced() && self.m11.is_reduced() && self.m12.is_reduced()
            && self.m20.is_reduced() && self.m21.is_reduced() && self.m22.is_reduced()
    }

    /// The matrix product.
    #[verifier::rlimit(100)]
    #[verifier::spinoff_prover]
    pub fn mul(self, other: Self) -> (r: Self)
        requires
            self.wf(),
            other.wf(),
        ensures
            r.wf(),
            r@ == m3mul(self@, other@),
    {
        let r = Matrix3 {
            m00: self.m00.mul(other.m00).add(self.m01.mul(other.m10)).add(self.m02.mul(other.m20)),
            m01: self.m00.mul(other.m01).add(self.m01.mul(other.m11)).add(self.m02.mul(other.m21)),
            m02: self.m00.mul(other.m02).add(self.m01.mul(other.m12)).add(self.m02.mul(other.m22)),
            m10: self.m10.mul(other.m00).add(self.m11.mul(other.m10)).add(self.m12.mul(other.m20)),
            m11: self.m10.mul(other.m01).add(self.m11.mul(other.m11)).add(self.m12.mul(other.m21)),
            m12: self.m10.mul(other.m02).add(self.m11.mul(other.m12)).add(self.m12.mul(other.m22)),
            m20: self.m20.mul(other.m00).add(self.m21.mul(other.m10)).add(self.m22.mul(other.m20)),
            m21: self.m20.mul(other.m01).add(self.m21.mul(other.m11)).add(self.m22.mul(other.m21)),
            m22: self.m20.mul(other.m02).add(self.m21.mul(other.m12)).add(self.m22.mul(other.m22))
        };
        proof {
            lemma_qadd3(qmulu(self@.c00, other@.c00), qmulu(self@.c01, other@.c10), qmulu(self@.c02, other@.c20));
            lemma_qadd3(qmulu(self@.c00, other@.c01), qmulu(self@.c01, other@.c11), qmulu(self@.c02, other@.c21));
            lemma_qadd3(qmulu(self@.c00, other@.c02), qmulu(self@.c01, other@.c12), qmulu(self@.c02, other@.c22));
            lemma_qadd3(qmulu(self@.c10, other@.c00), qmulu(self@.c11, other@.c10), qmulu(self@.c12, other@.c20));
            lemma_qadd3(qmulu(self@.c10, other@.c01), qmulu(self@.c11, other@.c11), qmulu(self@.c12, other@.c21));
            lemma_qadd3(qmulu(self@.c10, other@.c02), qmulu(self@.c11, other@.c12), qmulu(self@.c12, other@.c22));
            lemma_qadd3(qmulu(self@.c20, other@.c00), qmulu(self@.c21, other@.c10), qmulu(self@.c22, other@.c20));
            lemma_qadd3(qmulu(self@.c20, other@.c01), qmulu(self@.c21, other@.c11), qmulu(self@.c22, other@.c21));
            lemma_qadd3(qmulu(self@.c20, other@.c02), qmulu(self@.c21, other@.c12), qmulu(self@.c22, other@.c22));
            lemma_m3red_wf(m3mulu(self@, other@));
        }
        r
    }
}


// ---------------------------------------------------------------------
// Block Schur-complement inversion.
// ---------------------------------------------------------------------

/// Every reduced product is well formed.
proof fn lemma_qwf_mul(u: QV, v: QV)
    ensures
        qwf(qmul(u, v)),
{
    lemma_qred_wf(qmulu(u, v));
}

/// One reduced cell of a 2x2 product, written with reduced operations.
#[verifier::rlimit(100)]
#[verifier::spinoff_prover]
proof fn lemma_qdot2_red(u1: QV, v1: QV, u2: QV, v2: QV)
    ensures
        qred(qdot2(u1, u2, v1, v2)) == qadd(qmul(u1, v1), qmul(u2, v2)),
{
    lemma_qaddu_cong(
        qred(qmulu(u1, v1)),
        qred(qmulu(u2, v2)),
        qmulu(u1, v1),
        qmulu(u2, v2),
    );
    lemma_qred_idem(qmulu(u1, v1));
    lemma_qred_idem(qmulu(u2, v2));
}

/// Every reduced sum is well formed.
proof fn lemma_qwf_add(u: QV, v: QV)
    ensures
        qwf(qadd(u, v)),
{
    lemma_qred_wf(qaddu(u, v));
}

/// A row times a matrix-column product reassociates: `b (M c) == (b M) c`
/// on two-component rows and columns.
#[verifier::rlimit(100)]
#[verifier::spinoff_prover]
proof fn lemma_row_mat_col(
    b0: QV, b1: QV,
    m00: QV, m01: QV, m10: QV, m11: QV,
    c0: QV, c1: QV,
)
    ensures
        qadd(
            qmul(b0, qadd(qmul(m00, c0), qmul(m01, c1))),
            qmul(b1, qadd(qmul(m10, c0), qmul(m11, c1))),
        ) == qadd(
            qmul(qadd(qmul(b0, m00), qmul(b1, m10)), c0),
            qmul(qadd(qmul(b0, m01), qmul(b1, m11)), c1),
        ),
{
    lemma_qmul_dist_add_left(b0, qmul(m00, c0), qmul(m01, c1));
    lemma_qmul_dist_add_left(b1, qmul(m10, c0), qmul(m11, c1));
    lemma_qmul_dist_add_right(qmul(b0, m00), qmul(b1, m10), c0);
    lemma_qmul_dist_add_right(qmul(b0, m01), qmul(b1, m11), c1);
    lemma_qmul_assoc(b0, m00, c0);
    lemma_qmul_assoc(b0, m01, c1);
    lemma_qmul_assoc(b1, m10, c0);
    lemma_qmul_assoc(b1, m11, c1);
    lemma_qadd4_swap(
        qmul(b0, qmul(m00, c0)),
        qmul(b0, qmul(m01, c1)),
        qmul(b1, qmul(m10, c0)),
        qmul(b1, qmul(m11, c1)),
    );
}

/// A common right factor comes out of a two-term sum of triple products.
proof fn lemma_factor_right(u0: QV, u1: QV, v0: QV, v1: QV, z: QV)
    ensures
        qadd(qmul(u0, qmul(v0, z)), qmul(u1, qmul(v1, z))) == qmul(
            qadd(qmul(u0, v0), qmul(u1, v1)),
            z,
        ),
{
    lemma_qmul_assoc(u0, v0, z);
    lemma_qmul_assoc(u1, v1, z);
    lemma_qmul_dist_add_right(qmul(u0, v0), qmul(u1, v1), z);
}

/// A common left factor comes out of a two-term sum of triple products.
proof fn lemma_factor_left(x: QV, u0: QV, v0: QV, u1: QV, v1: QV)
    ensures
        qadd(qmul(qmul(x, u0), v0), qmul(qmul(x, u1), v1)) == qmul(
            x,
            qadd(qmul(u0, v0), qmul(u1, v1)),
        ),
{
    lemma_qmul_assoc(x, u0, v0);
    lemma_qmul_assoc(x, u1, v1);
    lemma_qmul_dist_add_left(x, qmul(u0, v0), qmul(u1, v1));
}

/// One reduced cell of a 3x3 product, written with reduced operations.
#[verifier::rlimit(100)]
#[verifier::spinoff_prover]
proof fn lemma_qdot3_red(u1: QV, v1: QV, u2: QV, v2: QV, u3: QV, v3: QV)
    ensures
        qred(qdot3(u1, u2, u3, v1, v2, v3)) == qadd(
            qmul(u1, v1),
            qadd(qmul(u2, v2), qmul(u3, v3)),
        ),
{
    lemma_qaddu_cong(
        qred(qmulu(u2, v2)),
        qred(qmulu(u3, v3)),
        qmulu(u2, v2),
        qmulu(u3, v3),
    );
    lemma_qred_idem(qmulu(u2, v2));
    lemma_qred_idem(qmulu(u3, v3));
    lemma_qaddu_cong(
        qred(qmulu(u1, v1)),
        qred(qaddu(qmulu(u2, v2), qmulu(u3, v3))),
        qmulu(u1, v1),
        qaddu(qmulu(u2, v2), qmulu(u3, v3)),
    );
    lemma_qred_idem(qmulu(u1, v1));
    lemma_qred_idem(qaddu(qmulu(u2, v2), qmulu(u3, v3)));
}

/// The key exchange identity behind the non-commutative Schur inverse:
/// with `x` and `y` the two complements, `xi * b * di == ai * b * yi`.
#[verifier::rlimit(100)]
#[verifier::spinoff_prover]
proof fn lemma_schur2_swap(a: QV, b: QV, c: QV, d: QV, ai: QV, di: QV, xi: QV, yi: QV)
    requires
        qwf(a) && qwf(b) && qwf(c) && qwf(d),
        qwf(ai) && qwf(di) && qwf(xi) && qwf(yi),
        qmul(a, ai) == qone() && qmul(ai, a) == qone(),
        qmul(d, di) == qone() && qmul(di, d) == qone(),
        qmul(qsub(a, qmul(qmul(b, di), c)), xi) == qone(),
        qmul(xi, qsub(a, qmul(qmul(b, di), c))) == qone(),
        qmul(qsub(d, qmul(qmul(c, ai), b)), yi) == qone(),
        qmul(yi, qsub(d, qmul(qmul(c, ai), b))) == qone(),
    ensures
        qmul(qmul(xi, b), di) == qmul(qmul(ai, b), yi),
{
    let p = qmul(qmul(b, di), c);
    let x = qsub(a, p);
    let q = qmul(qmul(c, ai), b);
    let y = qsub(d, q);
    lemma_qwf_mul(b, di);
    lemma_qwf_mul(ai, b);
    // Step 1: (b di) y == x (ai b).
    assert(qmul(qmul(b, di), y) == qmul(x, qmul(ai, b))) by {
        lemma_qmul_dist_sub_left(qmul(b, di), d, q);
        lemma_qmul_assoc(b, di, d);
        lemma_qmul_one(b);
        lemma_qmul_assoc(qmul(b, di), qmul(c, ai), b);
        lemma_qmul_assoc(qmul(b, di), c, ai);
        lemma_qmul_dist_sub_right(a, p, qmul(ai, b));
        lemma_qmul_assoc(a, ai, b);
        lemma_qmul_assoc(p, ai, b);
        assert(qmul(qmul(b, di), d) == b);
        assert(qmul(a, qmul(ai, b)) == b);
        assert(qmul(qmul(b, di), q) == qmul(qmul(p, ai), b));
        assert(qmul(p, qmul(ai, b)) == qmul(qmul(p, ai), b));
    };
    // Step 2: multiply by yi on the right and xi on the left.
    let w = qmul(qmul(b, di), y);
    assert(qmul(w, yi) == qmul(b, di)) by {
        lemma_qmul_assoc(qmul(b, di), y, yi);
        lemma_qmul_one(qmul(b, di));
    };
    assert(qmul(w, yi) == qmul(qmul(x, qmul(ai, b)), yi));
    assert(qmul(xi, qmul(w, yi)) == qmul(qmul(ai, b), yi)) by {
        lemma_qmul_assoc(xi, qmul(x, qmul(ai, b)), yi);
        lemma_qmul_assoc(xi, x, qmul(ai, b));
        lemma_qmul_one(qmul(ai, b));
        assert(qmul(xi, qmul(x, qmul(ai, b))) == qmul(ai, b));
    };
    lemma_qmul_assoc(xi, b, di);
}

/// The mirror exchange identity: `di * c * xi == yi * c * ai`.
#[verifier::rlimit(100)]
#[verifier::spinoff_prover]
proof fn lemma_schur2_swap_mirror(a: QV, b: QV, c: QV, d: QV, ai: QV, di: QV, xi: QV, yi: QV)
    requires
        qwf(a) && qwf(b) && qwf(c) && qwf(d),
        qwf(ai) && qwf(di) && qwf(xi) && qwf(yi),
        qmul(a, ai) == qone() && qmul(ai, a) == qone(),
        qmul(d, di) == qone() && qmul(di, d) == qone(),
        qmul(qsub(a, qmul(qmul(b, di), c)), xi) == qone(),
        qmul(xi, qsub(a, qmul(qmul(b, di), c))) == qone(),
        qmul(qsub(d, qmul(qmul(c, ai), b)), yi) == qone(),
        qmul(yi, qsub(d, qmul(qmul(c, ai), b))) == qone(),
    ensures
        qmul(qmul(di, c), xi) == qmul(qmul(yi, c), ai),
{
    let p = qmul(qmul(b, di), c);
    let x = qsub(a, p);
    let q = qmul(qmul(c, ai), b);
    let y = qsub(d, q);
    lemma_qwf_mul(di, c);
    lemma_qwf_mul(c, ai);
    // Step 1: y (di c) == (c ai) x.
    assert(qmul(y, qmul(di, c)) == qmul(qmul(c, ai), x)) by {
        lemma_qmul_dist_sub_right(d, q, qmul(di, c));
        lemma_qmul_assoc(d, di, c);
        lemma_qmul_one(c);
        lemma_qmul_assoc(qmul(c, ai), b, qmul(di, c));
        lemma_qmul_assoc(b, di, c);
        lemma_qmul_dist_sub_left(qmul(c, ai), a, p);
        lemma_qmul_assoc(c, ai, a);
        assert(qmul(d, qmul(di, c)) == c);
        assert(qmul(qmul(c, ai), a) == c);
        assert(qmul(q, qmul(di, c)) == qmul(qmul(c, ai), p));
    };
    // Step 2: multiply by xi on the right and yi on the left.
    let w = qmul(y, qmul(di, c));
    assert(qmul(w, xi) == qmul(c, ai)) by {
        assert(qmul(w, xi) == qmul(qmul(qmul(c, ai), x), xi));
        lemma_qmul_assoc(qmul(c, ai), x, xi);
        lemma_qmul_one(qmul(c, ai));
    };
    assert(qmul(yi, qmul(w, xi)) == qmul(qmul(di, c), xi)) by {
        lemma_qmul_assoc(yi, y, qmul(qmul(di, c), xi));
        lemma_qmul_assoc(y, qmul(di, c), xi);
        lemma_qwf_mul(qmul(di, c), xi);
        lemma_qmul_one(qmul(qmul(di, c), xi));
        assert(qmul(w, xi) == qmul(y, qmul(qmul(di, c), xi)));
        assert(qmul(yi, qmul(w, xi)) == qmul(qmul(yi, y), qmul(qmul(di, c), xi)));
    };
    lemma_qmul_assoc(yi, c, ai);
    assert(qmul(yi, qmul(c, ai)) == qmul(qmul(yi, c), ai));
}

/// The Schur-complement formula produces a two-sided inverse: with the
/// four pivots `a`, `d`, `x`, `y` invertible, the assembled matrix
/// multiplies with the original to the identity on both sides.
#[verifier::rlimit(100)]
#[verifier::spinoff_prover]
proof fn lemma_schur2_inverse(a: QV, b: QV, c: QV, d: QV, ai: QV, di: QV, xi: QV, yi: QV)
    requires
        qwf(a) && qwf(b) && qwf(c) && qwf(d),
        qwf(ai) && qwf(di) && qwf(xi) && qwf(yi),
        qmul(a, ai) == qone() && qmul(ai, a) == qone(),
        qmul(d, di) == qone() && qmul(di, d) == qone(),
        qmul(qsub(a, qmul(qmul(b, di), c)), xi) == qone(),
        qmul(xi, qsub(a, qmul(qmul(b, di), c))) == qone(),
        qmul(qsub(d, qmul(qmul(c, ai), b)), yi) == qone(),
        qmul(yi, qsub(d, qmul(qmul(c, ai), b))) == qone(),
    ensures
        m2mul(
            M2V { c00: a, c01: b, c10: c, c11: d },
            M2V {
                c00: xi,
                c01: qmul(qmul(qneg(xi), b), di),
                c10: qmul(qmul(qneg(di), c), xi),
                c11: yi,
            },
        ) == m2id(),
        m2mul(
            M2V {
                c00: xi,
                c01: qmul(qmul(qneg(xi), b), di),
                c10: qmul(qmul(qneg(di), c), xi),
                c11: yi,
            },
            M2V { c00: a, c01: b, c10: c, c11: d },
        ) == m2id(),
{
    let p = qmul(qmul(b, di), c);
    let x = qsub(a, p);
    let q = qmul(qmul(c, ai), b);
    let y = qsub(d, q);
    let s01 = qmul(qmul(qneg(xi), b), di);
    let s10 = qmul(qmul(qneg(di), c), xi);
    lemma_schur2_swap(a, b, c, d, ai, di, xi, yi);
    lemma_schur2_swap_mirror(a, b, c, d, ai, di, xi, yi);
    let w = qmul(qmul(xi, b), di);
    let v = qmul(qmul(di, c), xi);
    // The off-diagonal entries are negations of the exchange products.
    assert(s01 == qneg(w)) by {
        lemma_qmul_neg(xi, b);
        lemma_qmul_neg(qmul(xi, b), di);
    };
    assert(s10 == qneg(v)) by {
        lemma_qmul_neg(di, c);
        lemma_qmul_neg(qmul(di, c), xi);
    };
    // Row 0 of M * S.
    assert(qadd(qmul(a, xi), qmul(b, s10)) == qone()) by {
        assert(qmul(b, s10) == qneg(qmul(p, xi))) by {
            lemma_qmul_neg(b, v);
            lemma_qmul_assoc(b, qmul(di, c), xi);
            lemma_qmul_assoc(b, di, c);
        };
        lemma_qsub_add_neg(qmul(a, xi), qmul(p, xi));
        lemma_qmul_dist_sub_right(a, p, xi);
    };
    assert(qadd(qmul(a, s01), qmul(b, yi)) == qzero()) by {
        assert(qmul(a, s01) == qneg(qmul(b, yi))) by {
            lemma_qmul_neg(a, w);
            assert(w == qmul(qmul(ai, b), yi));
            lemma_qmul_assoc(a, qmul(ai, b), yi);
            lemma_qmul_assoc(a, ai, b);
            lemma_qmul_one(b);
            assert(qmul(a, qmul(ai, b)) == b);
        };
        lemma_qadd_neg_cancel(qmul(b, yi));
    };
    // Row 1 of M * S.
    assert(qadd(qmul(c, xi), qmul(d, s10)) == qzero()) by {
        assert(qmul(d, s10) == qneg(qmul(c, xi))) by {
            lemma_qmul_neg(d, v);
            lemma_qmul_assoc(d, qmul(di, c), xi);
            lemma_qmul_assoc(d, di, c);
            lemma_qmul_one(c);
            assert(qmul(d, qmul(di, c)) == c);
        };
        lemma_qadd_neg_cancel(qmul(c, xi));
    };
    assert(qadd(qmul(c, s01), qmul(d, yi)) == qone()) by {
        assert(qmul(c, s01) == qneg(qmul(q, yi))) by {
            lemma_qmul_neg(c, w);
            assert(w == qmul(qmul(ai, b), yi));
            lemma_qmul_assoc(c, qmul(ai, b), yi);
            lemma_qmul_assoc(c, ai, b);
        };
        lemma_qadd_comm(qneg(qmul(q, yi)), qmul(d, yi));
        lemma_qsub_add_neg(qmul(d, yi), qmul(q, yi));
        lemma_qmul_dist_sub_right(d, q, yi);
    };
    // Row 0 of S * M.
    assert(qadd(qmul(xi, a), qmul(s01, c)) == qone()) by {
        assert(qmul(s01, c) == qneg(qmul(xi, p))) by {
            lemma_qmul_neg(w, c);
            lemma_qmul_assoc(xi, b, di);
            lemma_qmul_assoc(xi, qmul(b, di), c);
        };
        lemma_qsub_add_neg(qmul(xi, a), qmul(xi, p));
        lemma_qmul_dist_sub_left(xi, a, p);
    };
    assert(qadd(qmul(xi, b), qmul(s01, d)) == qzero()) by {
        assert(qmul(s01, d) == qneg(qmul(xi, b))) by {
            lemma_qmul_neg(w, d);
            lemma_qmul_assoc(qmul(xi, b), di, d);
            lemma_qwf_mul(xi, b);
            lemma_qmul_one(qmul(xi, b));
        };
        lemma_qadd_neg_cancel(qmul(xi, b));
    };
    // Row 1 of S * M.
    assert(qadd(qmul(s10, a), qmul(yi, c)) == qzero()) by {
        assert(qmul(s10, a) == qneg(qmul(yi, c))) by {
            lemma_qmul_neg(v, a);
            assert(v == qmul(qmul(yi, c), ai));
            lemma_qmul_assoc(qmul(yi, c), ai, a);
            lemma_qwf_mul(yi, c);
            lemma_qmul_one(qmul(yi, c));
        };
        lemma_qadd_neg_cancel(qmul(yi, c));
    };
    assert(qadd(qmul(s10, b), qmul(yi, d)) == qone()) by {
        assert(qmul(s10, b) == qneg(qmul(yi, q))) by {
            lemma_qmul_neg(v, b);
            assert(v == qmul(qmul(yi, c), ai));
            lemma_qmul_assoc(yi, c, qmul(ai, b));
            lemma_qmul_assoc(qmul(yi, c), ai, b);
            lemma_qmul_assoc(c, ai, b);
        };
        lemma_qadd_comm(qneg(qmul(yi, q)), qmul(yi, d));
        lemma_qsub_add_neg(qmul(yi, d), qmul(yi, q));
        lemma_qmul_dist_sub_left(yi, d, q);
    };
    // Assemble the four cells of each product.
    lemma_qdot2_red(a, xi, b, s10);
    lemma_qdot2_red(a, s01, b, yi);
    lemma_qdot2_red(c, xi, d, s10);
    lemma_qdot2_red(c, s01, d, yi);
    lemma_qdot2_red(xi, a, s01, c);
    lemma_qdot2_red(xi, b, s01, d);
    lemma_qdot2_red(s10, a, yi, c);
    lemma_qdot2_red(s10, b, yi, d);
}

/// The 2x2 Schur-complement inverse candidate, mirroring the computation:
/// `None` as soon as one of `a`, `d`, or the two complements has no inverse.
pub open spec fn inv2_cand(m: M2V) -> Option<M2V> {
    let a = m.c00;
    let b = m.c01;
    let c = m.c10;
    let d = m.c11;
    if qnorm2(a) == 0 {
        None
    } else if qnorm2(d) == 0 {
        None
    } else {
        let ai = qinv_spec(a);
        let di = qinv_spec(d);
        let x = qsub(a, qmul(qmul(b, di), c));
        let y = qsub(d, qmul(qmul(c, ai), b));
        if qnorm2(x) == 0 {
            None
        } else if qnorm2(y) == 0 {
            None
        } else {
            let xi = qinv_spec(x);
            let yi = qinv_spec(y);
            Some(M2V {
                c00: xi,
                c01: qmul(qmul(qneg(xi), b), di),
                c10: qmul(qmul(qneg(di), c), xi),
                c11: yi,
            })
        }
    }
}

/// Inverts a 2x2 matrix by the Schur-complement formula; the result is
/// proved to be a two-sided inverse, and a matrix whose pivots are not
/// invertible gives `None`, never a panic.
pub fn invert_2x2(matrix: &Matrix2) -> (r: Option<Matrix2>)
    requires
        matrix.wf(),
    ensures
        (r is Some) == (inv2_cand(matrix@) is Some),
        r matches Some(v) ==> {
            &&& Some(v@) == inv2_cand(matrix@)
            &&& v.wf()
            &&& m2mul(matrix@, v@) == m2id()
            &&& m2mul(v@, matrix@) == m2id()
        },
{
    let a = matrix.m00;
    let b = matrix.m01;
    let c = matrix.m10;
    let d = matrix.m11;
    let a_inv = match a.try_invert() {
        Some(v) => v,
        None => {
            return None;
        },
    };
    let d_inv = match d.try_invert() {
        Some(v) => v,
        None => {
            return None;
        },
    };
    let x = a.sub(b.mul(d_inv).mul(c));
    let y = d.sub(c.mul(a_inv).mul(b));
    let x_inv = match x.try_invert() {
        Some(v) => v,
        None => {
            return None;
        },
    };
    let y_inv = match y.try_invert() {
        Some(v) => v,
        None => {
            return None;
        },
    };
    let cand = Matrix2::new(
        x_inv,
        x_inv.neg().mul(b).mul(d_inv),
        d_inv.neg().mul(c).mul(x_inv),
        y_inv,
    );
    proof {
        lemma_schur2_inverse(a@, b@, c@, d@, a_inv@, d_inv@, x_inv@, y_inv@);
    }
    Some(cand)
}

/// The row form of the exchange identity in the 1+2 block split:
/// `xi * (b di) == (ai b) * yi`, componentwise.
#[verifier::rlimit(100)]
#[verifier::spinoff_prover]
proof fn lemma_schur3_row_swap(a: QV, b0: QV, b1: QV, c0: QV, c1: QV, d00: QV, d01: QV, d10: QV, d11: QV, ai: QV, di00: QV, di01: QV, di10: QV, di11: QV, xi: QV, yi00: QV, yi01: QV, yi10: QV, yi11: QV)
    requires
        qwf(a) && qwf(b0) && qwf(b1) && qwf(c0) && qwf(c1) && qwf(d00) && qwf(d01) && qwf(d10) && qwf(d11),
        qwf(ai) && qwf(di00) && qwf(di01) && qwf(di10) && qwf(di11) && qwf(xi) && qwf(yi00) && qwf(yi01) && qwf(yi10) && qwf(yi11),
        qmul(a, ai) == qone() && qmul(ai, a) == qone(),
        qmul(qsub(a, qadd(qmul(qadd(qmul(b0, di00), qmul(b1, di10)), c0), qmul(qadd(qmul(b0, di01), qmul(b1, di11)), c1))), xi) == qone() && qmul(xi, qsub(a, qadd(qmul(qadd(qmul(b0, di00), qmul(b1, di10)), c0), qmul(qadd(qmul(b0, di01), qmul(b1, di11)), c1)))) == qone(),
        qadd(qmul(d00, di00), qmul(d01, di10)) == qone(),
        qadd(qmul(d00, di01), qmul(d01, di11)) == qzero(),
        qadd(qmul(d10, di00), qmul(d11, di10)) == qzero(),
        qadd(qmul(d10, di01), qmul(d11, di11)) == qone(),
        qadd(qmul(di00, d00), qmul(di01, d10)) == qone(),
        qadd(qmul(di00, d01), qmul(di01, d11)) == qzero(),
        qadd(qmul(di10, d00), qmul(di11, d10)) == qzero(),
        qadd(qmul(di10, d01), qmul(di11, d11)) == qone(),
        qadd(qmul(qsub(d00, qmul(qmul(c0, ai), b0)), yi00), qmul(qsub(d01, qmul(qmul(c0, ai), b1)), yi10)) == qone(),
        qadd(qmul(qsub(d00, qmul(qmul(c0, ai), b0)), yi01), qmul(qsub(d01, qmul(qmul(c0, ai), b1)), yi11)) == qzero(),
        qadd(qmul(qsub(d10, qmul(qmul(c1, ai), b0)), yi00), qmul(qsub(d11, qmul(qmul(c1, ai), b1)), yi10)) == qzero(),
        qadd(qmul(qsub(d10, qmul(qmul(c1, ai), b0)), yi01), qmul(qsub(d11, qmul(qmul(c1, ai), b1)), yi11)) == qone(),
        qadd(qmul(yi00, qsub(d00, qmul(qmul(c0, ai), b0))), qmul(yi01, qsub(d10, qmul(qmul(c1, ai), b0)))) == qone(),
        qadd(qmul(yi00, qsub(d01, qmul(qmul(c0, ai), b1))), qmul(yi01, qsub(d11, qmul(qmul(c1, ai), b1)))) == qzero(),
        qadd(qmul(yi10, qsub(d00, qmul(qmul(c0, ai), b0))), qmul(yi11, qsub(d10, qmul(qmul(c1, ai), b0)))) == qzero(),
        qadd(qmul(yi10, qsub(d01, qmul(qmul(c0, ai), b1))), qmul(yi11, qsub(d11, qmul(qmul(c1, ai), b1)))) == qone(),
    ensures
        qmul(xi, qadd(qmul(b0, di00), qmul(b1, di10))) == qadd(qmul(qmul(ai, b0), yi00), qmul(qmul(ai, b1), yi10)),
        qmul(xi, qadd(qmul(b0, di01), qmul(b1, di11))) == qadd(qmul(qmul(ai, b0), yi01), qmul(qmul(ai, b1), yi11)),
{
    assert(qadd(qmul(qadd(qmul(b0, di00), qmul(b1, di10)), qsub(d00, qmul(qmul(c0, ai), b0))), qmul(qadd(qmul(b0, di01), qmul(b1, di11)), qsub(d10, qmul(qmul(c1, ai), b0)))) == qmul(qsub(a, qadd(qmul(qadd(qmul(b0, di00), qmul(b1, di10)), c0), qmul(qadd(qmul(b0, di01), qmul(b1, di11)), c1))), qmul(ai, b0))) by {
        lemma_qmul_dist_sub_left(qadd(qmul(b0, di00), qmul(b1, di10)), d00, qmul(qmul(c0, ai), b0));
        lemma_qmul_dist_sub_left(qadd(qmul(b0, di01), qmul(b1, di11)), d10, qmul(qmul(c1, ai), b0));
        lemma_qadd_sub_sub(
            qmul(qadd(qmul(b0, di00), qmul(b1, di10)), d00),
            qmul(qadd(qmul(b0, di00), qmul(b1, di10)), qmul(qmul(c0, ai), b0)),
            qmul(qadd(qmul(b0, di01), qmul(b1, di11)), d10),
            qmul(qadd(qmul(b0, di01), qmul(b1, di11)), qmul(qmul(c1, ai), b0)),
        );
        lemma_row_mat_col(b0, b1, di00, di01, di10, di11, d00, d10);
        lemma_qmul_one(b0);
        lemma_qmul_one(b1);
        lemma_q_zero_laws(b0);
        lemma_q_zero_laws(b1);
        lemma_qmul_assoc(c0, ai, b0);
        lemma_qmul_assoc(c1, ai, b0);
        lemma_factor_right(qadd(qmul(b0, di00), qmul(b1, di10)), qadd(qmul(b0, di01), qmul(b1, di11)), c0, c1, qmul(ai, b0));
        lemma_qmul_dist_sub_right(a, qadd(qmul(qadd(qmul(b0, di00), qmul(b1, di10)), c0), qmul(qadd(qmul(b0, di01), qmul(b1, di11)), c1)), qmul(ai, b0));
        lemma_qmul_assoc(a, ai, b0);
        lemma_qmul_one(b0);
    };
    assert(qadd(qmul(qadd(qmul(b0, di00), qmul(b1, di10)), qsub(d01, qmul(qmul(c0, ai), b1))), qmul(qadd(qmul(b0, di01), qmul(b1, di11)), qsub(d11, qmul(qmul(c1, ai), b1)))) == qmul(qsub(a, qadd(qmul(qadd(qmul(b0, di00), qmul(b1, di10)), c0), qmul(qadd(qmul(b0, di01), qmul(b1, di11)), c1))), qmul(ai, b1))) by {
        lemma_qmul_dist_sub_left(qadd(qmul(b0, di00), qmul(b1, di10)), d01, qmul(qmul(c0, ai), b1));
        lemma_qmul_dist_sub_left(qadd(qmul(b0, di01), qmul(b1, di11)), d11, qmul(qmul(c1, ai), b1));
        lemma_qadd_sub_sub(
            qmul(qadd(qmul(b0, di00), qmul(b1, di10)), d01),
            qmul(qadd(qmul(b0, di00), qmul(b1, di10)), qmul(qmul(c0, ai), b1)),
            qmul(qadd(qmul(b0, di01), qmul(b1, di11)), d11),
            qmul(qadd(qmul(b0, di01), qmul(b1, di11)), qmul(qmul(c1, ai), b1)),
        );
        lemma_row_mat_col(b0, b1, di00, di01, di10, di11, d01, d11);
        lemma_qmul_one(b0);
        lemma_qmul_one(b1);
        lemma_q_zero_laws(b0);
        lemma_q_zero_laws(b1);
        lemma_qmul_assoc(c0, ai, b1);
        lemma_qmul_assoc(c1, ai, b1);
        lemma_factor_right(qadd(qmul(b0, di00), qmul(b1, di10)), qadd(qmul(b0, di01), qmul(b1, di11)), c0, c1, qmul(ai, b1));
        lemma_qmul_dist_sub_right(a, qadd(qmul(qadd(qmul(b0, di00), qmul(b1, di10)), c0), qmul(qadd(qmul(b0, di01), qmul(b1, di11)), c1)), qmul(ai, b1));
        lemma_qmul_assoc(a, ai, b1);
        lemma_qmul_one(b1);
    };
    assert(qmul(xi, qadd(qmul(b0, di00), qmul(b1, di10))) == qadd(qmul(qmul(ai, b0), yi00), qmul(qmul(ai, b1), yi10))) by {
        lemma_row_mat_col(
            qadd(qmul(b0, di00), qmul(b1, di10)),
            qadd(qmul(b0, di01), qmul(b1, di11)),
            qsub(d00, qmul(qmul(c0, ai), b0)), qsub(d01, qmul(qmul(c0, ai), b1)), qsub(d10, qmul(qmul(c1, ai), b0)), qsub(d11, qmul(qmul(c1, ai), b1)),
            yi00, yi10,
        );
        lemma_qwf_add(qmul(b0, di00), qmul(b1, di10));
        lemma_qwf_add(qmul(b0, di00), qmul(b1, di10));
        lemma_qwf_add(qmul(b0, di01), qmul(b1, di11));
        lemma_qmul_one(qadd(qmul(b0, di00), qmul(b1, di10)));
        lemma_qmul_one(qadd(qmul(b0, di01), qmul(b1, di11)));
        lemma_q_zero_laws(qadd(qmul(b0, di00), qmul(b1, di10)));
        lemma_q_zero_laws(qadd(qmul(b0, di01), qmul(b1, di11)));
        lemma_factor_left(qsub(a, qadd(qmul(qadd(qmul(b0, di00), qmul(b1, di10)), c0), qmul(qadd(qmul(b0, di01), qmul(b1, di11)), c1))), qmul(ai, b0), yi00, qmul(ai, b1), yi10);
        lemma_qmul_assoc(xi, qsub(a, qadd(qmul(qadd(qmul(b0, di00), qmul(b1, di10)), c0), qmul(qadd(qmul(b0, di01), qmul(b1, di11)), c1))), qadd(qmul(qmul(ai, b0), yi00), qmul(qmul(ai, b1), yi10)));
        lemma_qwf_mul(qmul(ai, b0), yi00);
        lemma_qwf_mul(qmul(ai, b1), yi10);
        lemma_qwf_add(qmul(qmul(ai, b0), yi00), qmul(qmul(ai, b1), yi10));
        lemma_qmul_one(qadd(qmul(qmul(ai, b0), yi00), qmul(qmul(ai, b1), yi10)));
    };
    assert(qmul(xi, qadd(qmul(b0, di01), qmul(b1, di11))) == qadd(qmul(qmul(ai, b0), yi01), qmul(qmul(ai, b1), yi11))) by {
        lemma_row_mat_col(
            qadd(qmul(b0, di00), qmul(b1, di10)),
            qadd(qmul(b0, di01), qmul(b1, di11)),
            qsub(d00, qmul(qmul(c0, ai), b0)), qsub(d01, qmul(qmul(c0, ai), b1)), qsub(d10, qmul(qmul(c1, ai), b0)), qsub(d11, qmul(qmul(c1, ai), b1)),
            yi01, yi11,
        );
        lemma_qwf_add(qmul(b0, di01), qmul(b1, di11));
        lemma_qwf_add(qmul(b0, di00), qmul(b1, di10));
        lemma_qwf_add(qmul(b0, di01), qmul(b1, di11));
        lemma_qmul_one(qadd(qmul(b0, di00), qmul(b1, di10)));
        lemma_qmul_one(qadd(qmul(b0, di01), qmul(b1, di11)));
        lemma_q_zero_laws(qadd(qmul(b0, di00), qmul(b1, di10)));
        lemma_q_zero_laws(qadd(qmul(b0, di01), qmul(b1, di11)));
        lemma_factor_left(qsub(a, qadd(qmul(qadd(qmul(b0, di00), qmul(b1, di10)), c0), qmul(qadd(qmul(b0, di01), qmul(b1, di11)), c1))), qmul(ai, b0), yi01, qmul(ai, b1), yi11);
        lemma_qmul_assoc(xi, qsub(a, qadd(qmul(qadd(qmul(b0, di00), qmul(b1, di10)), c0), qmul(qadd(qmul(b0, di01), qmul(b1, di11)), c1))), qadd(qmul(qmul(ai, b0), yi01), qmul(qmul(ai, b1), yi11)));
        lemma_qwf_mul(qmul(ai, b0), yi01);
        lemma_qwf_mul(qmul(ai, b1), yi11);
        lemma_qwf_add(qmul(qmul(ai, b0), yi01), qmul(qmul(ai, b1), yi11));
        lemma_qmul_one(qadd(qmul(qmul(ai, b0), yi01), qmul(qmul(ai, b1), yi11)));
    };
}

/// The column form of the exchange identity in the 1+2 block split:
/// `(di c) * xi == yi * (c ai)`, componentwise.
#[verifier::rlimit(100)]
#[verifier::spinoff_prover]
proof fn lemma_schur3_col_swap(a: QV, b0: QV, b1: QV, c0: QV, c1: QV, d00: QV, d01: QV, d10: QV, d11: QV, ai: QV, di00: QV, di01: QV, di10: QV, di11: QV, xi: QV, yi00: QV, yi01: QV, yi10: QV, yi11: QV)
    requires
        qwf(a) && qwf(b0) && qwf(b1) && qwf(c0) && qwf(c1) && qwf(d00) && qwf(d01) && qwf(d10) && qwf(d11),
        qwf(ai) && qwf(di00) && qwf(di01) && qwf(di10) && qwf(di11) && qwf(xi) && qwf(yi00) && qwf(yi01) && qwf(yi10) && qwf(yi11),
        qmul(a, ai) == qone() && qmul(ai, a) == qone(),
        qmul(qsub(a, qadd(qmul(qadd(qmul(b0, di00), qmul(b1, di10)), c0), qmul(qadd(qmul(b0, di01), qmul(b1, di11)), c1))), xi) == qone() && qmul(xi, qsub(a, qadd(qmul(qadd(qmul(b0, di00), qmul(b1, di10)), c0), qmul(qadd(qmul(b0, di01), qmul(b1, di11)), c1)))) == qone(),
        qadd(qmul(d00, di00), qmul(d01, di10)) == qone(),
        qadd(qmul(d00, di01), qmul(d01, di11)) == qzero(),
        qadd(qmul(d10, di00), qmul(d11, di10)) == qzero(),
        qadd(qmul(d10, di01), qmul(d11, di11)) == qone(),
        qadd(qmul(di00, d00), qmul(di01, d10)) == qone(),
        qadd(qmul(di00, d01), qmul(di01, d11)) == qzero(),
        qadd(qmul(di10, d00), qmul(di11, d10)) == qzero(),
        qadd(qmul(di10, d01), qmul(di11, d11)) == qone(),
        qadd(qmul(qsub(d00, qmul(qmul(c0, ai), b0)), yi00), qmul(qsub(d01, qmul(qmul(c0, ai), b1)), yi10)) == qone(),
        qadd(qmul(qsub(d00, qmul(qmul(c0, ai), b0)), yi01), qmul(qsub(d01, qmul(qmul(c0, ai), b1)), yi11)) == qzero(),
        qadd(qmul(qsub(d10, qmul(qmul(c1, ai), b0)), yi00), qmul(qsub(d11, qmul(qmul(c1, ai), b1)), yi10)) == qzero(),
        qadd(qmul(qsub(d10, qmul(qmul(c1, ai), b0)), yi01), qmul(qsub(d11, qmul(qmul(c1, ai), b1)), yi11)) == qone(),
        qadd(qmul(yi00, qsub(d00, qmul(qmul(c0, ai), b0))), qmul(yi01, qsub(d10, qmul(qmul(c1, ai), b0)))) == qone(),
        qadd(qmul(yi00, qsub(d01, qmul(qmul(c0, ai), b1))), qmul(yi01, qsub(d11, qmul(qmul(c1, ai), b1)))) == qzero(),
        qadd(qmul(yi10, qsub(d00, qmul(qmul(c0, ai), b0))), qmul(yi11, qsub(d10, qmul(qmul(c1, ai), b0)))) == qzero(),
        qadd(qmul(yi10, qsub(d01, qmul(qmul(c0, ai), b1))), qmul(yi11, qsub(d11, qmul(qmul(c1, ai), b1)))) == qone(),
    ensures
        qmul(qadd(qmul(di00, c0), qmul(di01, c1)), xi) == qadd(qmul(qmul(yi00, c0), ai), qmul(qmul(yi01, c1), ai)),
        qmul(qadd(qmul(di10, c0), qmul(di11, c1)), xi) == qadd(qmul(qmul(yi10, c0), ai), qmul(qmul(yi11, c1), ai)),
{
    assert(qadd(qmul(qsub(d00, qmul(qmul(c0, ai), b0)), qadd(qmul(di00, c0), qmul(di01, c1))), qmul(qsub(d01, qmul(qmul(c0, ai), b1)), qadd(qmul(di10, c0), qmul(di11, c1)))) == qmul(qmul(c0, ai), qsub(a, qadd(qmul(qadd(qmul(b0, di00), qmul(b1, di10)), c0), qmul(qadd(qmul(b0, di01), qmul(b1, di11)), c1))))) by {
        lemma_qmul_dist_sub_right(d00, qmul(qmul(c0, ai), b0), qadd(qmul(di00, c0), qmul(di01, c1)));
        lemma_qmul_dist_sub_right(d01, qmul(qmul(c0, ai), b1), qadd(qmul(di10, c0), qmul(di11, c1)));
        lemma_qadd_sub_sub(
            qmul(d00, qadd(qmul(di00, c0), qmul(di01, c1))),
            qmul(qmul(qmul(c0, ai), b0), qadd(qmul(di00, c0), qmul(di01, c1))),
            qmul(d01, qadd(qmul(di10, c0), qmul(di11, c1))),
            qmul(qmul(qmul(c0, ai), b1), qadd(qmul(di10, c0), qmul(di11, c1))),
        );
        lemma_row_mat_col(d00, d01, di00, di01, di10, di11, c0, c1);
        lemma_qmul_one(c0);
        lemma_qmul_one(c1);
        lemma_q_zero_laws(c0);
        lemma_q_zero_laws(c1);
        lemma_qmul_assoc(qmul(c0, ai), b0, qadd(qmul(di00, c0), qmul(di01, c1)));
        lemma_qmul_assoc(qmul(c0, ai), b1, qadd(qmul(di10, c0), qmul(di11, c1)));
        lemma_factor_left(qmul(c0, ai), b0, qadd(qmul(di00, c0), qmul(di01, c1)), b1, qadd(qmul(di10, c0), qmul(di11, c1)));
        lemma_row_mat_col(b0, b1, di00, di01, di10, di11, c0, c1);
        lemma_qmul_dist_sub_left(qmul(c0, ai), a, qadd(qmul(qadd(qmul(b0, di00), qmul(b1, di10)), c0), qmul(qadd(qmul(b0, di01), qmul(b1, di11)), c1)));
        lemma_qmul_assoc(c0, ai, a);
        lemma_qmul_one(c0);
    };
    assert(qadd(qmul(qsub(d10, qmul(qmul(c1, ai), b0)), qadd(qmul(di00, c0), qmul(di01, c1))), qmul(qsub(d11, qmul(qmul(c1, ai), b1)), qadd(qmul(di10, c0), qmul(di11, c1)))) == qmul(qmul(c1, ai), qsub(a, qadd(qmul(qadd(qmul(b0, di00), qmul(b1, di10)), c0), qmul(qadd(qmul(b0, di01), qmul(b1, di11)), c1))))) by {
        lemma_qmul_dist_sub_right(d10, qmul(qmul(c1, ai), b0), qadd(qmul(di00, c0), qmul(di01, c1)));
        lemma_qmul_dist_sub_right(d11, qmul(qmul(c1, ai), b1), qadd(qmul(di10, c0), qmul(di11, c1)));
        lemma_qadd_sub_sub(
            qmul(d10, qadd(qmul(di00, c0), qmul(di01, c1))),
            qmul(qmul(qmul(c1, ai), b0), qadd(qmul(di00, c0), qmul(di01, c1))),
            qmul(d11, qadd(qmul(di10, c0), qmul(di11, c1))),
            qmul(qmul(qmul(c1, ai), b1), qadd(qmul(di10, c0), qmul(di11, c1))),
        );
        lemma_row_mat_col(d10, d11, di00, di01, di10, di11, c0, c1);
        lemma_qmul_one(c0);
        lemma_qmul_one(c1);
        lemma_q_zero_laws(c0);
        lemma_q_zero_laws(c1);
        lemma_qmul_assoc(qmul(c1, ai), b0, qadd(qmul(di00, c0), qmul(di01, c1)));
        lemma_qmul_assoc(qmul(c1, ai), b1, qadd(qmul(di10, c0), qmul(di11, c1)));
        lemma_factor_left(qmul(c1, ai), b0, qadd(qmul(di00, c0), qmul(di01, c1)), b1, qadd(qmul(di10, c0), qmul(di11, c1)));
        lemma_row_mat_col(b0, b1, di00, di01, di10, di11, c0, c1);
        lemma_qmul_dist_sub_left(qmul(c1, ai), a, qadd(qmul(qadd(qmul(b0, di00), qmul(b1, di10)), c0), qmul(qadd(qmul(b0, di01), qmul(b1, di11)), c1)));
        lemma_qmul_assoc(c1, ai, a);
        lemma_qmul_one(c1);
    };
    assert(qmul(qadd(qmul(di00, c0), qmul(di01, c1)), xi) == qadd(qmul(qmul(yi00, c0), ai), qmul(qmul(yi01, c1), ai))) by {
        lemma_row_mat_col(
            yi00, yi01,
            qsub(d00, qmul(qmul(c0, ai), b0)), qsub(d01, qmul(qmul(c0, ai), b1)), qsub(d10, qmul(qmul(c1, ai), b0)), qsub(d11, qmul(qmul(c1, ai), b1)),
            qadd(qmul(di00, c0), qmul(di01, c1)), qadd(qmul(di10, c0), qmul(di11, c1)),
        );
        lemma_qwf_add(qmul(di00, c0), qmul(di01, c1));
        lemma_qwf_add(qmul(di00, c0), qmul(di01, c1));
        lemma_qwf_add(qmul(di10, c0), qmul(di11, c1));
        lemma_qmul_one(qadd(qmul(di00, c0), qmul(di01, c1)));
        lemma_qmul_one(qadd(qmul(di10, c0), qmul(di11, c1)));
        lemma_q_zero_laws(qadd(qmul(di00, c0), qmul(di01, c1)));
        lemma_q_zero_laws(qadd(qmul(di10, c0), qmul(di11, c1)));
        lemma_factor_right(yi00, yi01, qmul(c0, ai), qmul(c1, ai), qsub(a, qadd(qmul(qadd(qmul(b0, di00), qmul(b1, di10)), c0), qmul(qadd(qmul(b0, di01), qmul(b1, di11)), c1))));
        lemma_qmul_assoc(qadd(qmul(yi00, qmul(c0, ai)), qmul(yi01, qmul(c1, ai))), qsub(a, qadd(qmul(qadd(qmul(b0, di00), qmul(b1, di10)), c0), qmul(qadd(qmul(b0, di01), qmul(b1, di11)), c1))), xi);
        lemma_qwf_mul(yi00, qmul(c0, ai));
        lemma_qwf_mul(yi01, qmul(c1, ai));
        lemma_qwf_add(qmul(yi00, qmul(c0, ai)), qmul(yi01, qmul(c1, ai)));
        lemma_qmul_one(qadd(qmul(yi00, qmul(c0, ai)), qmul(yi01, qmul(c1, ai))));
        lemma_qmul_assoc(yi00, c0, ai);
        lemma_qmul_assoc(yi01, c1, ai);
    };
    assert(qmul(qadd(qmul(di10, c0), qmul(di11, c1)), xi) == qadd(qmul(qmul(yi10, c0), ai), qmul(qmul(yi11, c1), ai))) by {
        lemma_row_mat_col(
            yi10, yi11,
            qsub(d00, qmul(qmul(c0, ai), b0)), qsub(d01, qmul(qmul(c0, ai), b1)), qsub(d10, qmul(qmul(c1, ai), b0)), qsub(d11, qmul(qmul(c1, ai), b1)),
            qadd(qmul(di00, c0), qmul(di01, c1)), qadd(qmul(di10, c0), qmul(di11, c1)),
        );
        lemma_qwf_add(qmul(di10, c0), qmul(di11, c1));
        lemma_qwf_add(qmul(di00, c0), qmul(di01, c1));
        lemma_qwf_add(qmul(di10, c0), qmul(di11, c1));
        lemma_qmul_one(qadd(qmul(di00, c0), qmul(di01, c1)));
        lemma_qmul_one(qadd(qmul(di10, c0), qmul(di11, c1)));
        lemma_q_zero_laws(qadd(qmul(di00, c0), qmul(di01, c1)));
        lemma_q_zero_laws(qadd(qmul(di10, c0), qmul(di11, c1)));
        lemma_factor_right(yi10, yi11, qmul(c0, ai), qmul(c1, ai), qsub(a, qadd(qmul(qadd(qmul(b0, di00), qmul(b1, di10)), c0), qmul(qadd(qmul(b0, di01), qmul(b1, di11)), c1))));
        lemma_qmul_assoc(qadd(qmul(yi10, qmul(c0, ai)), qmul(yi11, qmul(c1, ai))), qsub(a, qadd(qmul(qadd(qmul(b0, di00), qmul(b1, di10)), c0), qmul(qadd(qmul(b0, di01), qmul(b1, di11)), c1))), xi);
        lemma_qwf_mul(yi10, qmul(c0, ai));
        lemma_qwf_mul(yi11, qmul(c1, ai));
        lemma_qwf_add(qmul(yi10, qmul(c0, ai)), qmul(yi11, qmul(c1, ai)));
        lemma_qmul_one(qadd(qmul(yi10, qmul(c0, ai)), qmul(yi11, qmul(c1, ai))));
        lemma_qmul_assoc(yi10, c0, ai);
        lemma_qmul_assoc(yi11, c1, ai);
    };
}

/// The nine cells of the original matrix times the Schur candidate.
#[verifier::rlimit(100)]
#[verifier::spinoff_prover]
proof fn lemma_schur3_cells_left(a: QV, b0: QV, b1: QV, c0: QV, c1: QV, d00: QV, d01: QV, d10: QV, d11: QV, ai: QV, di00: QV, di01: QV, di10: QV, di11: QV, xi: QV, yi00: QV, yi01: QV, yi10: QV, yi11: QV)
    requires
        qwf(a) && qwf(b0) && qwf(b1) && qwf(c0) && qwf(c1) && qwf(d00) && qwf(d01) && qwf(d10) && qwf(d11),
        qwf(ai) && qwf(di00) && qwf(di01) && qwf(di10) && qwf(di11) && qwf(xi) && qwf(yi00) && qwf(yi01) && qwf(yi10) && qwf(yi11),
        qmul(a, ai) == qone() && qmul(ai, a) == qone(),
        qmul(qsub(a, qadd(qmul(qadd(qmul(b0, di00), qmul(b1, di10)), c0), qmul(qadd(qmul(b0, di01), qmul(b1, di11)), c1))), xi) == qone() && qmul(xi, qsub(a, qadd(qmul(qadd(qmul(b0, di00), qmul(b1, di10)), c0), qmul(qadd(qmul(b0, di01), qmul(b1, di11)), c1)))) == qone(),
        qadd(qmul(d00, di00), qmul(d01, di10)) == qone(),
        qadd(qmul(d00, di01), qmul(d01, di11)) == qzero(),
        qadd(qmul(d10, di00), qmul(d11, di10)) == qzero(),
        qadd(qmul(d10, di01), qmul(d11, di11)) == qone(),
        qadd(qmul(di00, d00), qmul(di01, d10)) == qone(),
        qadd(qmul(di00, d01), qmul(di01, d11)) == qzero(),
        qadd(qmul(di10, d00), qmul(di11, d10)) == qzero(),
        qadd(qmul(di10, d01), qmul(di11, d11)) == qone(),
        qadd(qmul(qsub(d00, qmul(qmul(c0, ai), b0)), yi00), qmul(qsub(d01, qmul(qmul(c0, ai), b1)), yi10)) == qone(),
        qadd(qmul(qsub(d00, qmul(qmul(c0, ai), b0)), yi01), qmul(qsub(d01, qmul(qmul(c0, ai), b1)), yi11)) == qzero(),
        qadd(qmul(qsub(d10, qmul(qmul(c1, ai), b0)), yi00), qmul(qsub(d11, qmul(qmul(c1, ai), b1)), yi10)) == qzero(),
        qadd(qmul(qsub(d10, qmul(qmul(c1, ai), b0)), yi01), qmul(qsub(d11, qmul(qmul(c1, ai), b1)), yi11)) == qone(),
        qadd(qmul(yi00, qsub(d00, qmul(qmul(c0, ai), b0))), qmul(yi01, qsub(d10, qmul(qmul(c1, ai), b0)))) == qone(),
        qadd(qmul(yi00, qsub(d01, qmul(qmul(c0, ai), b1))), qmul(yi01, qsub(d11, qmul(qmul(c1, ai), b1)))) == qzero(),
        qadd(qmul(yi10, qsub(d00, qmul(qmul(c0, ai), b0))), qmul(yi11, qsub(d10, qmul(qmul(c1, ai), b0)))) == qzero(),
        qadd(qmul(yi10, qsub(d01, qmul(qmul(c0, ai), b1))), qmul(yi11, qsub(d11, qmul(qmul(c1, ai), b1)))) == qone(),
    ensures
        qadd(qmul(a, xi), qadd(qmul(b0, qmul(qadd(qmul(qneg(di00), c0), qmul(qneg(di01), c1)), xi)), qmul(b1, qmul(qadd(qmul(qneg(di10), c0), qmul(qneg(di11), c1)), xi)))) == qone(),
        qadd(qmul(a, qmul(qneg(xi), qadd(qmul(b0, di00), qmul(b1, di10)))), qadd(qmul(b0, yi00), qmul(b1, yi10))) == qzero(),
        qadd(qmul(a, qmul(qneg(xi), qadd(qmul(b0, di01), qmul(b1, di11)))), qadd(qmul(b0, yi01), qmul(b1, yi11))) == qzero(),
        qadd(qmul(c0, xi), qadd(qmul(d00, qmul(qadd(qmul(qneg(di00), c0), qmul(qneg(di01), c1)), xi)), qmul(d01, qmul(qadd(qmul(qneg(di10), c0), qmul(qneg(di11), c1)), xi)))) == qzero(),
        qadd(qmul(c1, xi), qadd(qmul(d10, qmul(qadd(qmul(qneg(di00), c0), qmul(qneg(di01), c1)), xi)), qmul(d11, qmul(qadd(qmul(qneg(di10), c0), qmul(qneg(di11), c1)), xi)))) == qzero(),
        qadd(qmul(c0, qmul(qneg(xi), qadd(qmul(b0, di00), qmul(b1, di10)))), qadd(qmul(d00, yi00), qmul(d01, yi10))) == qone(),
        qadd(qmul(c0, qmul(qneg(xi), qadd(qmul(b0, di01), qmul(b1, di11)))), qadd(qmul(d00, yi01), qmul(d01, yi11))) == qzero(),
        qadd(qmul(c1, qmul(qneg(xi), qadd(qmul(b0, di00), qmul(b1, di10)))), qadd(qmul(d10, yi00), qmul(d11, yi10))) == qzero(),
        qadd(qmul(c1, qmul(qneg(xi), qadd(qmul(b0, di01), qmul(b1, di11)))), qadd(qmul(d10, yi01), qmul(d11, yi11))) == qone(),
{
    lemma_schur3_row_swap(a, b0, b1, c0, c1, d00, d01, d10, d11, ai, di00, di01, di10, di11, xi, yi00, yi01, yi10, yi11);
    assert(qadd(qmul(a, xi), qadd(qmul(b0, qmul(qadd(qmul(qneg(di00), c0), qmul(qneg(di01), c1)), xi)), qmul(b1, qmul(qadd(qmul(qneg(di10), c0), qmul(qneg(di11), c1)), xi)))) == qone()) by {
        lemma_qmul_neg(di00, c0);
        lemma_qmul_neg(di01, c1);
        lemma_qadd_neg_neg(qmul(di00, c0), qmul(di01, c1));
        lemma_qmul_neg(qadd(qmul(di00, c0), qmul(di01, c1)), xi);
        lemma_qmul_neg(di10, c0);
        lemma_qmul_neg(di11, c1);
        lemma_qadd_neg_neg(qmul(di10, c0), qmul(di11, c1));
        lemma_qmul_neg(qadd(qmul(di10, c0), qmul(di11, c1)), xi);
        lemma_qmul_neg(b0, qmul(qadd(qmul(di00, c0), qmul(di01, c1)), xi));
        lemma_qmul_assoc(b0, qadd(qmul(di00, c0), qmul(di01, c1)), xi);
        lemma_qmul_neg(b1, qmul(qadd(qmul(di10, c0), qmul(di11, c1)), xi));
        lemma_qmul_assoc(b1, qadd(qmul(di10, c0), qmul(di11, c1)), xi);
        lemma_qadd_neg_neg(qmul(qmul(b0, qadd(qmul(di00, c0), qmul(di01, c1))), xi), qmul(qmul(b1, qadd(qmul(di10, c0), qmul(di11, c1))), xi));
        lemma_qmul_dist_add_right(qmul(b0, qadd(qmul(di00, c0), qmul(di01, c1))), qmul(b1, qadd(qmul(di10, c0), qmul(di11, c1))), xi);
        lemma_row_mat_col(b0, b1, di00, di01, di10, di11, c0, c1);
        lemma_qsub_add_neg(qmul(a, xi), qmul(qadd(qmul(qadd(qmul(b0, di00), qmul(b1, di10)), c0), qmul(qadd(qmul(b0, di01), qmul(b1, di11)), c1)), xi));
        lemma_qmul_dist_sub_right(a, qadd(qmul(qadd(qmul(b0, di00), qmul(b1, di10)), c0), qmul(qadd(qmul(b0, di01), qmul(b1, di11)), c1)), xi);
    };
    assert(qadd(qmul(a, qmul(qneg(xi), qadd(qmul(b0, di00), qmul(b1, di10)))), qadd(qmul(b0, yi00), qmul(b1, yi10))) == qzero()) by {
        lemma_qmul_neg(xi, qadd(qmul(b0, di00), qmul(b1, di10)));
        lemma_qmul_neg(a, qadd(qmul(qmul(ai, b0), yi00), qmul(qmul(ai, b1), yi10)));
        lemma_factor_left(a, qmul(ai, b0), yi00, qmul(ai, b1), yi10);
        lemma_qmul_assoc(a, ai, b0);
        lemma_qmul_assoc(a, ai, b1);
        lemma_qmul_one(b0);
        lemma_qmul_one(b1);
        lemma_qadd_neg_cancel(qadd(qmul(b0, yi00), qmul(b1, yi10)));
    };
    assert(qadd(qmul(a, qmul(qneg(xi), qadd(qmul(b0, di01), qmul(b1, di11)))), qadd(qmul(b0, yi01), qmul(b1, yi11))) == qzero()) by {
        lemma_qmul_neg(xi, qadd(qmul(b0, di01), qmul(b1, di11)));
        lemma_qmul_neg(a, qadd(qmul(qmul(ai, b0), yi01), qmul(qmul(ai, b1), yi11)));
        lemma_factor_left(a, qmul(ai, b0), yi01, qmul(ai, b1), yi11);
        lemma_qmul_assoc(a, ai, b0);
        lemma_qmul_assoc(a, ai, b1);
        lemma_qmul_one(b0);
        lemma_qmul_one(b1);
        lemma_qadd_neg_cancel(qadd(qmul(b0, yi01), qmul(b1, yi11)));
    };
    assert(qadd(qmul(c0, xi), qadd(qmul(d00, qmul(qadd(qmul(qneg(di00), c0), qmul(qneg(di01), c1)), xi)), qmul(d01, qmul(qadd(qmul(qneg(di10), c0), qmul(qneg(di11), c1)), xi)))) == qzero()) by {
        lemma_qmul_neg(di00, c0);
        lemma_qmul_neg(di01, c1);
        lemma_qadd_neg_neg(qmul(di00, c0), qmul(di01, c1));
        lemma_qmul_neg(qadd(qmul(di00, c0), qmul(di01, c1)), xi);
        lemma_qmul_neg(d00, qmul(qadd(qmul(di00, c0), qmul(di01, c1)), xi));
        lemma_qmul_assoc(d00, qadd(qmul(di00, c0), qmul(di01, c1)), xi);
        lemma_qmul_neg(di10, c0);
        lemma_qmul_neg(di11, c1);
        lemma_qadd_neg_neg(qmul(di10, c0), qmul(di11, c1));
        lemma_qmul_neg(qadd(qmul(di10, c0), qmul(di11, c1)), xi);
        lemma_qmul_neg(d01, qmul(qadd(qmul(di10, c0), qmul(di11, c1)), xi));
        lemma_qmul_assoc(d01, qadd(qmul(di10, c0), qmul(di11, c1)), xi);
        lemma_qadd_neg_neg(qmul(qmul(d00, qadd(qmul(di00, c0), qmul(di01, c1))), xi), qmul(qmul(d01, qadd(qmul(di10, c0), qmul(di11, c1))), xi));
        lemma_qmul_dist_add_right(qmul(d00, qadd(qmul(di00, c0), qmul(di01, c1))), qmul(d01, qadd(qmul(di10, c0), qmul(di11, c1))), xi);
        lemma_row_mat_col(d00, d01, di00, di01, di10, di11, c0, c1);
        lemma_qmul_one(c0);
        lemma_qmul_one(c1);
        lemma_q_zero_laws(c0);
        lemma_q_zero_laws(c1);
        lemma_qadd_neg_cancel(qmul(c0, xi));
    };
    assert(qadd(qmul(c1, xi), qadd(qmul(d10, qmul(qadd(qmul(qneg(di00), c0), qmul(qneg(di01), c1)), xi)), qmul(d11, qmul(qadd(qmul(qneg(di10), c0), qmul(qneg(di11), c1)), xi)))) == qzero()) by {
        lemma_qmul_neg(di00, c0);
        lemma_qmul_neg(di01, c1);
        lemma_qadd_neg_neg(qmul(di00, c0), qmul(di01, c1));
        lemma_qmul_neg(qadd(qmul(di00, c0), qmul(di01, c1)), xi);
        lemma_qmul_neg(d10, qmul(qadd(qmul(di00, c0), qmul(di01, c1)), xi));
        lemma_qmul_assoc(d10, qadd(qmul(di00, c0), qmul(di01, c1)), xi);
        lemma_qmul_neg(di10, c0);
        lemma_qmul_neg(di11, c1);
        lemma_qadd_neg_neg(qmul(di10, c0), qmul(di11, c1));
        lemma_qmul_neg(qadd(qmul(di10, c0), qmul(di11, c1)), xi);
        lemma_qmul_neg(d11, qmul(qadd(qmul(di10, c0), qmul(di11, c1)), xi));
        lemma_qmul_assoc(d11, qadd(qmul(di10, c0), qmul(di11, c1)), xi);
        lemma_qadd_neg_neg(qmul(qmul(d10, qadd(qmul(di00, c0), qmul(di01, c1))), xi), qmul(qmul(d11, qadd(qmul(di10, c0), qmul(di11, c1))), xi));
        lemma_qmul_dist_add_right(qmul(d10, qadd(qmul(di00, c0), qmul(di01, c1))), qmul(d11, qadd(qmul(di10, c0), qmul(di11, c1))), xi);
        lemma_row_mat_col(d10, d11, di00, di01, di10, di11, c0, c1);
        lemma_qmul_one(c0);
        lemma_qmul_one(c1);
        lemma_q_zero_laws(c0);
        lemma_q_zero_laws(c1);
        lemma_qadd_neg_cancel(qmul(c1, xi));
    };
    assert(qadd(qmul(c0, qmul(qneg(xi), qadd(qmul(b0, di00), qmul(b1, di10)))), qadd(qmul(d00, yi00), qmul(d01, yi10))) == qone()) by {
        lemma_qmul_neg(xi, qadd(qmul(b0, di00), qmul(b1, di10)));
        lemma_qmul_neg(c0, qadd(qmul(qmul(ai, b0), yi00), qmul(qmul(ai, b1), yi10)));
        lemma_factor_left(c0, qmul(ai, b0), yi00, qmul(ai, b1), yi10);
        lemma_qmul_assoc(c0, ai, b0);
        lemma_qmul_assoc(c0, ai, b1);
        lemma_qadd_comm(qneg(qadd(qmul(qmul(qmul(c0, ai), b0), yi00), qmul(qmul(qmul(c0, ai), b1), yi10))), qadd(qmul(d00, yi00), qmul(d01, yi10)));
        lemma_qsub_add_neg(qadd(qmul(d00, yi00), qmul(d01, yi10)), qadd(qmul(qmul(qmul(c0, ai), b0), yi00), qmul(qmul(qmul(c0, ai), b1), yi10)));
        lemma_qadd_sub_sub(qmul(d00, yi00), qmul(qmul(qmul(c0, ai), b0), yi00), qmul(d01, yi10), qmul(qmul(qmul(c0, ai), b1), yi10));
        lemma_qmul_dist_sub_right(d00, qmul(qmul(c0, ai), b0), yi00);
        lemma_qmul_dist_sub_right(d01, qmul(qmul(c0, ai), b1), yi10);
    };
    assert(qadd(qmul(c0, qmul(qneg(xi), qadd(qmul(b0, di01), qmul(b1, di11)))), qadd(qmul(d00, yi01), qmul(d01, yi11))) == qzero()) by {
        lemma_qmul_neg(xi, qadd(qmul(b0, di01), qmul(b1, di11)));
        lemma_qmul_neg(c0, qadd(qmul(qmul(ai, b0), yi01), qmul(qmul(ai, b1), yi11)));
        lemma_factor_left(c0, qmul(ai, b0), yi01, qmul(ai, b1), yi11);
        lemma_qmul_assoc(c0, ai, b0);
        lemma_qmul_assoc(c0, ai, b1);
        lemma_qadd_comm(qneg(qadd(qmul(qmul(qmul(c0, ai), b0), yi01), qmul(qmul(qmul(c0, ai), b1), yi11))), qadd(qmul(d00, yi01), qmul(d01, yi11)));
        lemma_qsub_add_neg(qadd(qmul(d00, yi01), qmul(d01, yi11)), qadd(qmul(qmul(qmul(c0, ai), b0), yi01), qmul(qmul(qmul(c0, ai), b1), yi11)));
        lemma_qadd_sub_sub(qmul(d00, yi01), qmul(qmul(qmul(c0, ai), b0), yi01), qmul(d01, yi11), qmul(qmul(qmul(c0, ai), b1), yi11));
        lemma_qmul_dist_sub_right(d00, qmul(qmul(c0, ai), b0), yi01);
        lemma_qmul_dist_sub_right(d01, qmul(qmul(c0, ai), b1), yi11);
    };
    assert(qadd(qmul(c1, qmul(qneg(xi), qadd(qmul(b0, di00), qmul(b1, di10)))), qadd(qmul(d10, yi00), qmul(d11, yi10))) == qzero()) by {
        lemma_qmul_neg(xi, qadd(qmul(b0, di00), qmul(b1, di10)));
        lemma_qmul_neg(c1, qadd(qmul(qmul(ai, b0), yi00), qmul(qmul(ai, b1), yi10)));
        lemma_factor_left(c1, qmul(ai, b0), yi00, qmul(ai, b1), yi10);
        lemma_qmul_assoc(c1, ai, b0);
        lemma_qmul_assoc(c1, ai, b1);
        lemma_qadd_comm(qneg(qadd(qmul(qmul(qmul(c1, ai), b0), yi00), qmul(qmul(qmul(c1, ai), b1), yi10))), qadd(qmul(d10, yi00), qmul(d11, yi10)));
        lemma_qsub_add_neg(qadd(qmul(d10, yi00), qmul(d11, yi10)), qadd(qmul(qmul(qmul(c1, ai), b0), yi00), qmul(qmul(qmul(c1, ai), b1), yi10)));
        lemma_qadd_sub_sub(qmul(d10, yi00), qmul(qmul(qmul(c1, ai), b0), yi00), qmul(d11, yi10), qmul(qmul(qmul(c1, ai), b1), yi10));
        lemma_qmul_dist_sub_right(d10, qmul(qmul(c1, ai), b0), yi00);
        lemma_qmul_dist_sub_right(d11, qmul(qmul(c1, ai), b1), yi10);
    };
    assert(qadd(qmul(c1, qmul(qneg(xi), qadd(qmul(b0, di01), qmul(b1, di11)))), qadd(qmul(d10, yi01), qmul(d11, yi11))) == qone()) by {
        lemma_qmul_neg(xi, qadd(qmul(b0, di01), qmul(b1, di11)));
        lemma_qmul_neg(c1, qadd(qmul(qmul(ai, b0), yi01), qmul(qmul(ai, b1), yi11)));
        lemma_factor_left(c1, qmul(ai, b0), yi01, qmul(ai, b1), yi11);
        lemma_qmul_assoc(c1, ai, b0);
        lemma_qmul_assoc(c1, ai, b1);
        lemma_qadd_comm(qneg(qadd(qmul(qmul(qmul(c1, ai), b0), yi01), qmul(qmul(qmul(c1, ai), b1), yi11))), qadd(qmul(d10, yi01), qmul(d11, yi11)));
        lemma_qsub_add_neg(qadd(qmul(d10, yi01), qmul(d11, yi11)), qadd(qmul(qmul(qmul(c1, ai), b0), yi01), qmul(qmul(qmul(c1, ai), b1), yi11)));
        lemma_qadd_sub_sub(qmul(d10, yi01), qmul(qmul(qmul(c1, ai), b0), yi01), qmul(d11, yi11), qmul(qmul(qmul(c1, ai), b1), yi11));
        lemma_qmul_dist_sub_right(d10, qmul(qmul(c1, ai), b0), yi01);
        lemma_qmul_dist_sub_right(d11, qmul(qmul(c1, ai), b1), yi11);
    };
}

/// The nine cells of the Schur candidate times the original matrix.
#[verifier::rlimit(100)]
#[verifier::spinoff_prover]
proof fn lemma_schur3_cells_right(a: QV, b0: QV, b1: QV, c0: QV, c1: QV, d00: QV, d01: QV, d10: QV, d11: QV, ai: QV, di00: QV, di01: QV, di10: QV, di11: QV, xi: QV, yi00: QV, yi01: QV, yi10: QV, yi11: QV)
    requires
        qwf(a) && qwf(b0) && qwf(b1) && qwf(c0) && qwf(c1) && qwf(d00) && qwf(d01) && qwf(d10) && qwf(d11),
        qwf(ai) && qwf(di00) && qwf(di01) && qwf(di10) && qwf(di11) && qwf(xi) && qwf(yi00) && qwf(yi01) && qwf(yi10) && qwf(yi11),
        qmul(a, ai) == qone() && qmul(ai, a) == qone(),
        qmul(qsub(a, qadd(qmul(qadd(qmul(b0, di00), qmul(b1, di10)), c0), qmul(qadd(qmul(b0, di01), qmul(b1, di11)), c1))), xi) == qone() && qmul(xi, qsub(a, qadd(qmul(qadd(qmul(b0, di00), qmul(b1, di10)), c0), qmul(qadd(qmul(b0, di01), qmul(b1, di11)), c1)))) == qone(),
        qadd(qmul(d00, di00), qmul(d01, di10)) == qone(),
        qadd(qmul(d00, di01), qmul(d01, di11)) == qzero(),
        qadd(qmul(d10, di00), qmul(d11, di10)) == qzero(),
        qadd(qmul(d10, di01), qmul(d11, di11)) == qone(),
        qadd(qmul(di00, d00), qmul(di01, d10)) == qone(),
        qadd(qmul(di00, d01), qmul(di01, d11)) == qzero(),
        qadd(qmul(di10, d00), qmul(di11, d10)) == qzero(),
        qadd(qmul(di10, d01), qmul(di11, d11)) == qone(),
        qadd(qmul(qsub(d00, qmul(qmul(c0, ai), b0)), yi00), qmul(qsub(d01, qmul(qmul(c0, ai), b1)), yi10)) == qone(),
        qadd(qmul(qsub(d00, qmul(qmul(c0, ai), b0)), yi01), qmul(qsub(d01, qmul(qmul(c0, ai), b1)), yi11)) == qzero(),
        qadd(qmul(qsub(d10, qmul(qmul(c1, ai), b0)), yi00), qmul(qsub(d11, qmul(qmul(c1, ai), b1)), yi10)) == qzero(),
        qadd(qmul(qsub(d10, qmul(qmul(c1, ai), b0)), yi01), qmul(qsub(d11, qmul(qmul(c1, ai), b1)), yi11)) == qone(),
        qadd(qmul(yi00, qsub(d00, qmul(qmul(c0, ai), b0))), qmul(yi01, qsub(d10, qmul(qmul(c1, ai), b0)))) == qone(),
        qadd(qmul(yi00, qsub(d01, qmul(qmul(c0, ai), b1))), qmul(yi01, qsub(d11, qmul(qmul(c1, ai), b1)))) == qzero(),
        qadd(qmul(yi10, qsub(d00, qmul(qmul(c0, ai), b0))), qmul(yi11, qsub(d10, qmul(qmul(c1, ai), b0)))) == qzero(),
        qadd(qmul(yi10, qsub(d01, qmul(qmul(c0, ai), b1))), qmul(yi11, qsub(d11, qmul(qmul(c1, ai), b1)))) == qone(),
    ensures
        qadd(qmul(xi, a), qadd(qmul(qmul(qneg(xi), qadd(qmul(b0, di00), qmul(b1, di10))), c0), qmul(qmul(qneg(xi), qadd(qmul(b0, di01), qmul(b1, di11))), c1))) == qone(),
        qadd(qmul(xi, b0), qadd(qmul(qmul(qneg(xi), qadd(qmul(b0, di00), qmul(b1, di10))), d00), qmul(qmul(qneg(xi), qadd(qmul(b0, di01), qmul(b1, di11))), d10))) == qzero(),
        qadd(qmul(xi, b1), qadd(qmul(qmul(qneg(xi), qadd(qmul(b0, di00), qmul(b1, di10))), d01), qmul(qmul(qneg(xi), qadd(qmul(b0, di01), qmul(b1, di11))), d11))) == qzero(),
        qadd(qmul(qmul(qadd(qmul(qneg(di00), c0), qmul(qneg(di01), c1)), xi), a), qadd(qmul(yi00, c0), qmul(yi01, c1))) == qzero(),
        qadd(qmul(qmul(qadd(qmul(qneg(di10), c0), qmul(qneg(di11), c1)), xi), a), qadd(qmul(yi10, c0), qmul(yi11, c1))) == qzero(),
        qadd(qmul(qmul(qadd(qmul(qneg(di00), c0), qmul(qneg(di01), c1)), xi), b0), qadd(qmul(yi00, d00), qmul(yi01, d10))) == qone(),
        qadd(qmul(qmul(qadd(qmul(qneg(di00), c0), qmul(qneg(di01), c1)), xi), b1), qadd(qmul(yi00, d01), qmul(yi01, d11))) == qzero(),
        qadd(qmul(qmul(qadd(qmul(qneg(di10), c0), qmul(qneg(di11), c1)), xi), b0), qadd(qmul(yi10, d00), qmul(yi11, d10))) == qzero(),
        qadd(qmul(qmul(qadd(qmul(qneg(di10), c0), qmul(qneg(di11), c1)), xi), b1), qadd(qmul(yi10, d01), qmul(yi11, d11))) == qone(),
{
    lemma_schur3_col_swap(a, b0, b1, c0, c1, d00, d01, d10, d11, ai, di00, di01, di10, di11, xi, yi00, yi01, yi10, yi11);
    assert(qadd(qmul(xi, a), qadd(qmul(qmul(qneg(xi), qadd(qmul(b0, di00), qmul(b1, di10))), c0), qmul(qmul(qneg(xi), qadd(qmul(b0, di01), qmul(b1, di11))), c1))) == qone()) by {
        lemma_qmul_neg(xi, qadd(qmul(b0, di00), qmul(b1, di10)));
        lemma_qmul_neg(qmul(xi, qadd(qmul(b0, di00), qmul(b1, di10))), c0);
        lemma_qmul_assoc(xi, qadd(qmul(b0, di00), qmul(b1, di10)), c0);
        lemma_qmul_neg(xi, qadd(qmul(b0, di01), qmul(b1, di11)));
        lemma_qmul_neg(qmul(xi, qadd(qmul(b0, di01), qmul(b1, di11))), c1);
        lemma_qmul_assoc(xi, qadd(qmul(b0, di01), qmul(b1, di11)), c1);
        lemma_qadd_neg_neg(qmul(xi, qmul(qadd(qmul(b0, di00), qmul(b1, di10)), c0)), qmul(xi, qmul(qadd(qmul(b0, di01), qmul(b1, di11)), c1)));
        lemma_qmul_dist_add_left(xi, qmul(qadd(qmul(b0, di00), qmul(b1, di10)), c0), qmul(qadd(qmul(b0, di01), qmul(b1, di11)), c1));
        lemma_qsub_add_neg(qmul(xi, a), qmul(xi, qadd(qmul(qadd(qmul(b0, di00), qmul(b1, di10)), c0), qmul(qadd(qmul(b0, di01), qmul(b1, di11)), c1))));
        lemma_qmul_dist_sub_left(xi, a, qadd(qmul(qadd(qmul(b0, di00), qmul(b1, di10)), c0), qmul(qadd(qmul(b0, di01), qmul(b1, di11)), c1)));
    };
    assert(qadd(qmul(xi, b0), qadd(qmul(qmul(qneg(xi), qadd(qmul(b0, di00), qmul(b1, di10))), d00), qmul(qmul(qneg(xi), qadd(qmul(b0, di01), qmul(b1, di11))), d10))) == qzero()) by {
        lemma_qmul_neg(xi, qadd(qmul(b0, di00), qmul(b1, di10)));
        lemma_qmul_neg(qmul(xi, qadd(qmul(b0, di00), qmul(b1, di10))), d00);
        lemma_qmul_assoc(xi, qadd(qmul(b0, di00), qmul(b1, di10)), d00);
        lemma_qmul_neg(xi, qadd(qmul(b0, di01), qmul(b1, di11)));
        lemma_qmul_neg(qmul(xi, qadd(qmul(b0, di01), qmul(b1, di11))), d10);
        lemma_qmul_assoc(xi, qadd(qmul(b0, di01), qmul(b1, di11)), d10);
        lemma_qadd_neg_neg(qmul(xi, qmul(qadd(qmul(b0, di00), qmul(b1, di10)), d00)), qmul(xi, qmul(qadd(qmul(b0, di01), qmul(b1, di11)), d10)));
        lemma_qmul_dist_add_left(xi, qmul(qadd(qmul(b0, di00), qmul(b1, di10)), d00), qmul(qadd(qmul(b0, di01), qmul(b1, di11)), d10));
        lemma_row_mat_col(b0, b1, di00, di01, di10, di11, d00, d10);
        lemma_qmul_one(b0);
        lemma_qmul_one(b1);
        lemma_q_zero_laws(b0);
        lemma_q_zero_laws(b1);
        lemma_qadd_neg_cancel(qmul(xi, b0));
    };
    assert(qadd(qmul(xi, b1), qadd(qmul(qmul(qneg(xi), qadd(qmul(b0, di00), qmul(b1, di10))), d01), qmul(qmul(qneg(xi), qadd(qmul(b0, di01), qmul(b1, di11))), d11))) == qzero()) by {
        lemma_qmul_neg(xi, qadd(qmul(b0, di00), qmul(b1, di10)));
        lemma_qmul_neg(qmul(xi, qadd(qmul(b0, di00), qmul(b1, di10))), d01);
        lemma_qmul_assoc(xi, qadd(qmul(b0, di00), qmul(b1, di10)), d01);
        lemma_qmul_neg(xi, qadd(qmul(b0, di01), qmul(b1, di11)));
        lemma_qmul_neg(qmul(xi, qadd(qmul(b0, di01), qmul(b1, di11))), d11);
        lemma_qmul_assoc(xi, qadd(qmul(b0, di01), qmul(b1, di11)), d11);
        lemma_qadd_neg_neg(qmul(xi, qmul(qadd(qmul(b0, di00), qmul(b1, di10)), d01)), qmul(xi, qmul(qadd(qmul(b0, di01), qmul(b1, di11)), d11)));
        lemma_qmul_dist_add_left(xi, qmul(qadd(qmul(b0, di00), qmul(b1, di10)), d01), qmul(qadd(qmul(b0, di01), qmul(b1, di11)), d11));
        lemma_row_mat_col(b0, b1, di00, di01, di10, di11, d01, d11);
        lemma_qmul_one(b0);
        lemma_qmul_one(b1);
        lemma_q_zero_laws(b0);
        lemma_q_zero_laws(b1);
        lemma_qadd_neg_cancel(qmul(xi, b1));
    };
    assert(qadd(qmul(qmul(qadd(qmul(qneg(di00), c0), qmul(qneg(di01), c1)), xi), a), qadd(qmul(yi00, c0), qmul(yi01, c1))) == qzero()) by {
        lemma_qmul_neg(di00, c0);
        lemma_qmul_neg(di01, c1);
        lemma_qadd_neg_neg(qmul(di00, c0), qmul(di01, c1));
        lemma_qmul_neg(qadd(qmul(di00, c0), qmul(di01, c1)), xi);
        lemma_qmul_neg(qadd(qmul(qmul(yi00, c0), ai), qmul(qmul(yi01, c1), ai)), a);
        lemma_qmul_dist_add_right(qmul(qmul(yi00, c0), ai), qmul(qmul(yi01, c1), ai), a);
        lemma_qmul_assoc(qmul(yi00, c0), ai, a);
        lemma_qmul_assoc(qmul(yi01, c1), ai, a);
        lemma_qwf_mul(yi00, c0);
        lemma_qwf_mul(yi01, c1);
        lemma_qmul_one(qmul(yi00, c0));
        lemma_qmul_one(qmul(yi01, c1));
        lemma_qadd_neg_cancel(qadd(qmul(yi00, c0), qmul(yi01, c1)));
    };
    assert(qadd(qmul(qmul(qadd(qmul(qneg(di10), c0), qmul(qneg(di11), c1)), xi), a), qadd(qmul(yi10, c0), qmul(yi11, c1))) == qzero()) by {
        lemma_qmul_neg(di10, c0);
        lemma_qmul_neg(di11, c1);
        lemma_qadd_neg_neg(qmul(di10, c0), qmul(di11, c1));
        lemma_qmul_neg(qadd(qmul(di10, c0), qmul(di11, c1)), xi);
        lemma_qmul_neg(qadd(qmul(qmul(yi10, c0), ai), qmul(qmul(yi11, c1), ai)), a);
        lemma_qmul_dist_add_right(qmul(qmul(yi10, c0), ai), qmul(qmul(yi11, c1), ai), a);
        lemma_qmul_assoc(qmul(yi10, c0), ai, a);
        lemma_qmul_assoc(qmul(yi11, c1), ai, a);
        lemma_qwf_mul(yi10, c0);
        lemma_qwf_mul(yi11, c1);
        lemma_qmul_one(qmul(yi10, c0));
        lemma_qmul_one(qmul(yi11, c1));
        lemma_qadd_neg_cancel(qadd(qmul(yi10, c0), qmul(yi11, c1)));
    };
    assert(qadd(qmul(qmul(qadd(qmul(qneg(di00), c0), qmul(qneg(di01), c1)), xi), b0), qadd(qmul(yi00, d00), qmul(yi01, d10))) == qone()) by {
        lemma_qmul_neg(di00, c0);
        lemma_qmul_neg(di01, c1);
        lemma_qadd_neg_neg(qmul(di00, c0), qmul(di01, c1));
        lemma_qmul_neg(qadd(qmul(di00, c0), qmul(di01, c1)), xi);
        lemma_qmul_neg(qadd(qmul(qmul(yi00, c0), ai), qmul(qmul(yi01, c1), ai)), b0);
        lemma_qmul_dist_add_right(qmul(qmul(yi00, c0), ai), qmul(qmul(yi01, c1), ai), b0);
        lemma_qmul_assoc(qmul(yi00, c0), ai, b0);
        lemma_qmul_assoc(qmul(yi01, c1), ai, b0);
        lemma_qmul_assoc(yi00, c0, qmul(ai, b0));
        lemma_qmul_assoc(yi01, c1, qmul(ai, b0));
        lemma_qmul_assoc(c0, ai, b0);
        lemma_qmul_assoc(c1, ai, b0);
        lemma_qadd_comm(qneg(qadd(qmul(yi00, qmul(qmul(c0, ai), b0)), qmul(yi01, qmul(qmul(c1, ai), b0)))), qadd(qmul(yi00, d00), qmul(yi01, d10)));
        lemma_qsub_add_neg(qadd(qmul(yi00, d00), qmul(yi01, d10)), qadd(qmul(yi00, qmul(qmul(c0, ai), b0)), qmul(yi01, qmul(qmul(c1, ai), b0))));
        lemma_qadd_sub_sub(qmul(yi00, d00), qmul(yi00, qmul(qmul(c0, ai), b0)), qmul(yi01, d10), qmul(yi01, qmul(qmul(c1, ai), b0)));
        lemma_qmul_dist_sub_left(yi00, d00, qmul(qmul(c0, ai), b0));
        lemma_qmul_dist_sub_left(yi01, d10, qmul(qmul(c1, ai), b0));
    };
    assert(qadd(qmul(qmul(qadd(qmul(qneg(di00), c0), qmul(qneg(di01), c1)), xi), b1), qadd(qmul(yi00, d01), qmul(yi01, d11))) == qzero()) by {
        lemma_qmul_neg(di00, c0);
        lemma_qmul_neg(di01, c1);
        lemma_qadd_neg_neg(qmul(di00, c0), qmul(di01, c1));
        lemma_qmul_neg(qadd(qmul(di00, c0), qmul(di01, c1)), xi);
        lemma_qmul_neg(qadd(qmul(qmul(yi00, c0), ai), qmul(qmul(yi01, c1), ai)), b1);
        lemma_qmul_dist_add_right(qmul(qmul(yi00, c0), ai), qmul(qmul(yi01, c1), ai), b1);
        lemma_qmul_assoc(qmul(yi00, c0), ai, b1);
        lemma_qmul_assoc(qmul(yi01, c1), ai, b1);
        lemma_qmul_assoc(yi00, c0, qmul(ai, b1));
        lemma_qmul_assoc(yi01, c1, qmul(ai, b1));
        lemma_qmul_assoc(c0, ai, b1);
        lemma_qmul_assoc(c1, ai, b1);
        lemma_qadd_comm(qneg(qadd(qmul(yi00, qmul(qmul(c0, ai), b1)), qmul(yi01, qmul(qmul(c1, ai), b1)))), qadd(qmul(yi00, d01), qmul(yi01, d11)));
        lemma_qsub_add_neg(qadd(qmul(yi00, d01), qmul(yi01, d11)), qadd(qmul(yi00, qmul(qmul(c0, ai), b1)), qmul(yi01, qmul(qmul(c1, ai), b1))));
        lemma_qadd_sub_sub(qmul(yi00, d01), qmul(yi00, qmul(qmul(c0, ai), b1)), qmul(yi01, d11), qmul(yi01, qmul(qmul(c1, ai), b1)));
        lemma_qmul_dist_sub_left(yi00, d01, qmul(qmul(c0, ai), b1));
        lemma_qmul_dist_sub_left(yi01, d11, qmul(qmul(c1, ai), b1));
    };
    assert(qadd(qmul(qmul(qadd(qmul(qneg(di10), c0), qmul(qneg(di11), c1)), xi), b0), qadd(qmul(yi10, d00), qmul(yi11, d10))) == qzero()) by {
        lemma_qmul_neg(di10, c0);
        lemma_qmul_neg(di11, c1);
        lemma_qadd_neg_neg(qmul(di10, c0), qmul(di11, c1));
        lemma_qmul_neg(qadd(qmul(di10, c0), qmul(di11, c1)), xi);
        lemma_qmul_neg(qadd(qmul(qmul(yi10, c0), ai), qmul(qmul(yi11, c1), ai)), b0);
        lemma_qmul_dist_add_right(qmul(qmul(yi10, c0), ai), qmul(qmul(yi11, c1), ai), b0);
        lemma_qmul_assoc(qmul(yi10, c0), ai, b0);
        lemma_qmul_assoc(qmul(yi11, c1), ai, b0);
        lemma_qmul_assoc(yi10, c0, qmul(ai, b0));
        lemma_qmul_assoc(yi11, c1, qmul(ai, b0));
        lemma_qmul_assoc(c0, ai, b0);
        lemma_qmul_assoc(c1, ai, b0);
        lemma_qadd_comm(qneg(qadd(qmul(yi10, qmul(qmul(c0, ai), b0)), qmul(yi11, qmul(qmul(c1, ai), b0)))), qadd(qmul(yi10, d00), qmul(yi11, d10)));
        lemma_qsub_add_neg(qadd(qmul(yi10, d00), qmul(yi11, d10)), qadd(qmul(yi10, qmul(qmul(c0, ai), b0)), qmul(yi11, qmul(qmul(c1, ai), b0))));
        lemma_qadd_sub_sub(qmul(yi10, d00), qmul(yi10, qmul(qmul(c0, ai), b0)), qmul(yi11, d10), qmul(yi11, qmul(qmul(c1, ai), b0)));
        lemma_qmul_dist_sub_left(yi10, d00, qmul(qmul(c0, ai), b0));
        lemma_qmul_dist_sub_left(yi11, d10, qmul(qmul(c1, ai), b0));
    };
    assert(qadd(qmul(qmul(qadd(qmul(qneg(di10), c0), qmul(qneg(di11), c1)), xi), b1), qadd(qmul(yi10, d01), qmul(yi11, d11))) == qone()) by {
        lemma_qmul_neg(di10, c0);
        lemma_qmul_neg(di11, c1);
        lemma_qadd_neg_neg(qmul(di10, c0), qmul(di11, c1));
        lemma_qmul_neg(qadd(qmul(di10, c0), qmul(di11, c1)), xi);
        lemma_qmul_neg(qadd(qmul(qmul(yi10, c0), ai), qmul(qmul(yi11, c1), ai)), b1);
        lemma_qmul_dist_add_right(qmul(qmul(yi10, c0), ai), qmul(qmul(yi11, c1), ai), b1);
        lemma_qmul_assoc(qmul(yi10, c0), ai, b1);
        lemma_qmul_assoc(qmul(yi11, c1), ai, b1);
        lemma_qmul_assoc(yi10, c0, qmul(ai, b1));
        lemma_qmul_assoc(yi11, c1, qmul(ai, b1));
        lemma_qmul_assoc(c0, ai, b1);
        lemma_qmul_assoc(c1, ai, b1);
        lemma_qadd_comm(qneg(qadd(qmul(yi10, qmul(qmul(c0, ai), b1)), qmul(yi11, qmul(qmul(c1, ai), b1)))), qadd(qmul(yi10, d01), qmul(yi11, d11)));
        lemma_qsub_add_neg(qadd(qmul(yi10, d01), qmul(yi11, d11)), qadd(qmul(yi10, qmul(qmul(c0, ai), b1)), qmul(yi11, qmul(qmul(c1, ai), b1))));
        lemma_qadd_sub_sub(qmul(yi10, d01), qmul(yi10, qmul(qmul(c0, ai), b1)), qmul(yi11, d11), qmul(yi11, qmul(qmul(c1, ai), b1)));
        lemma_qmul_dist_sub_left(yi10, d01, qmul(qmul(c0, ai), b1));
        lemma_qmul_dist_sub_left(yi11, d11, qmul(qmul(c1, ai), b1));
    };
}

/// The 1+2 block Schur formula produces a two-sided inverse of the full
/// 3x3 matrix whenever the four pivots are invertible.
#[verifier::rlimit(100)]
#[verifier::spinoff_prover]
proof fn lemma_schur3_inverse(a: QV, b0: QV, b1: QV, c0: QV, c1: QV, d00: QV, d01: QV, d10: QV, d11: QV, ai: QV, di00: QV, di01: QV, di10: QV, di11: QV, xi: QV, yi00: QV, yi01: QV, yi10: QV, yi11: QV)
    requires
        qwf(a) && qwf(b0) && qwf(b1) && qwf(c0) && qwf(c1) && qwf(d00) && qwf(d01) && qwf(d10) && qwf(d11),
        qwf(ai) && qwf(di00) && qwf(di01) && qwf(di10) && qwf(di11) && qwf(xi) && qwf(yi00) && qwf(yi01) && qwf(yi10) && qwf(yi11),
        qmul(a, ai) == qone() && qmul(ai, a) == qone(),
        qmul(qsub(a, qadd(qmul(qadd(qmul(b0, di00), qmul(b1, di10)), c0), qmul(qadd(qmul(b0, di01), qmul(b1, di11)), c1))), xi) == qone() && qmul(xi, qsub(a, qadd(qmul(qadd(qmul(b0, di00), qmul(b1, di10)), c0), qmul(qadd(qmul(b0, di01), qmul(b1, di11)), c1)))) == qone(),
        qadd(qmul(d00, di00), qmul(d01, di10)) == qone(),
        qadd(qmul(d00, di01), qmul(d01, di11)) == qzero(),
        qadd(qmul(d10, di00), qmul(d11, di10)) == qzero(),
        qadd(qmul(d10, di01), qmul(d11, di11)) == qone(),
        qadd(qmul(di00, d00), qmul(di01, d10)) == qone(),
        qadd(qmul(di00, d01), qmul(di01, d11)) == qzero(),
        qadd(qmul(di10, d00), qmul(di11, d10)) == qzero(),
        qadd(qmul(di10, d01), qmul(di11, d11)) == qone(),
        qadd(qmul(qsub(d00, qmul(qmul(c0, ai), b0)), yi00), qmul(qsub(d01, qmul(qmul(c0, ai), b1)), yi10)) == qone(),
        qadd(qmul(qsub(d00, qmul(qmul(c0, ai), b0)), yi01), qmul(qsub(d01, qmul(qmul(c0, ai), b1)), yi11)) == qzero(),
        qadd(qmul(qsub(d10, qmul(qmul(c1, ai), b0)), yi00), qmul(qsub(d11, qmul(qmul(c1, ai), b1)), yi10)) == qzero(),
        qadd(qmul(qsub(d10, qmul(qmul(c1, ai), b0)), yi01), qmul(qsub(d11, qmul(qmul(c1, ai), b1)), yi11)) == qone(),
        qadd(qmul(yi00, qsub(d00, qmul(qmul(c0, ai), b0))), qmul(yi01, qsub(d10, qmul(qmul(c1, ai), b0)))) == qone(),
        qadd(qmul(yi00, qsub(d01, qmul(qmul(c0, ai), b1))), qmul(yi01, qsub(d11, qmul(qmul(c1, ai), b1)))) == qzero(),
        qadd(qmul(yi10, qsub(d00, qmul(qmul(c0, ai), b0))), qmul(yi11, qsub(d10, qmul(qmul(c1, ai), b0)))) == qzero(),
        qadd(qmul(yi10, qsub(d01, qmul(qmul(c0, ai), b1))), qmul(yi11, qsub(d11, qmul(qmul(c1, ai), b1)))) == qone(),
    ensures
        m3mul(M3V { c00: a, c01: b0, c02: b1, c10: c0, c11: d00, c12: d01, c20: c1, c21: d10, c22: d11 }, M3V { c00: xi, c01: qmul(qneg(xi), qadd(qmul(b0, di00), qmul(b1, di10))), c02: qmul(qneg(xi), qadd(qmul(b0, di01), qmul(b1, di11))), c10: qmul(qadd(qmul(qneg(di00), c0), qmul(qneg(di01), c1)), xi), c11: yi00, c12: yi01, c20: qmul(qadd(qmul(qneg(di10), c0), qmul(qneg(di11), c1)), xi), c21: yi10, c22: yi11 }) == m3id(),
        m3mul(M3V { c00: xi, c01: qmul(qneg(xi), qadd(qmul(b0, di00), qmul(b1, di10))), c02: qmul(qneg(xi), qadd(qmul(b0, di01), qmul(b1, di11))), c10: qmul(qadd(qmul(qneg(di00), c0), qmul(qneg(di01), c1)), xi), c11: yi00, c12: yi01, c20: qmul(qadd(qmul(qneg(di10), c0), qmul(qneg(di11), c1)), xi), c21: yi10, c22: yi11 }, M3V { c00: a, c01: b0, c02: b1, c10: c0, c11: d00, c12: d01, c20: c1, c21: d10, c22: d11 }) == m3id(),
{
    lemma_schur3_cells_left(a, b0, b1, c0, c1, d00, d01, d10, d11, ai, di00, di01, di10, di11, xi, yi00, yi01, yi10, yi11);
    lemma_schur3_cells_right(a, b0, b1, c0, c1, d00, d01, d10, d11, ai, di00, di01, di10, di11, xi, yi00, yi01, yi10, yi11);
    lemma_qdot3_red(a, xi, b0, qmul(qadd(qmul(qneg(di00), c0), qmul(qneg(di01), c1)), xi), b1, qmul(qadd(qmul(qneg(di10), c0), qmul(qneg(di11), c1)), xi));
    lemma_qdot3_red(a, qmul(qneg(xi), qadd(qmul(b0, di00), qmul(b1, di10))), b0, yi00, b1, yi10);
    lemma_qdot3_red(a, qmul(qneg(xi), qadd(qmul(b0, di01), qmul(b1, di11))), b0, yi01, b1, yi11);
    lemma_qdot3_red(c0, xi, d00, qmul(qadd(qmul(qneg(di00), c0), qmul(qneg(di01), c1)), xi), d01, qmul(qadd(qmul(qneg(di10), c0), qmul(qneg(di11), c1)), xi));
    lemma_qdot3_red(c0, qmul(qneg(xi), qadd(qmul(b0, di00), qmul(b1, di10))), d00, yi00, d01, yi10);
    lemma_qdot3_red(c0, qmul(qneg(xi), qadd(qmul(b0, di01), qmul(b1, di11))), d00, yi01, d01, yi11);
    lemma_qdot3_red(c1, xi, d10, qmul(qadd(qmul(qneg(di00), c0), qmul(qneg(di01), c1)), xi), d11, qmul(qadd(qmul(qneg(di10), c0), qmul(qneg(di11), c1)), xi));
    lemma_qdot3_red(c1, qmul(qneg(xi), qadd(qmul(b0, di00), qmul(b1, di10))), d10, yi00, d11, yi10);
    lemma_qdot3_red(c1, qmul(qneg(xi), qadd(qmul(b0, di01), qmul(b1, di11))), d10, yi01, d11, yi11);
    lemma_qdot3_red(xi, a, qmul(qneg(xi), qadd(qmul(b0, di00), qmul(b1, di10))), c0, qmul(qneg(xi), qadd(qmul(b0, di01), qmul(b1, di11))), c1);
    lemma_qdot3_red(xi, b0, qmul(qneg(xi), qadd(qmul(b0, di00), qmul(b1, di10))), d00, qmul(qneg(xi), qadd(qmul(b0, di01), qmul(b1, di11))), d10);
    lemma_qdot3_red(xi, b1, qmul(qneg(xi), qadd(qmul(b0, di00), qmul(b1, di10))), d01, qmul(qneg(xi), qadd(qmul(b0, di01), qmul(b1, di11))), d11);
    lemma_qdot3_red(qmul(qadd(qmul(qneg(di00), c0), qmul(qneg(di01), c1)), xi), a, yi00, c0, yi01, c1);
    lemma_qdot3_red(qmul(qadd(qmul(qneg(di00), c0), qmul(qneg(di01), c1)), xi), b0, yi00, d00, yi01, d10);
    lemma_qdot3_red(qmul(qadd(qmul(qneg(di00), c0), qmul(qneg(di01), c1)), xi), b1, yi00, d01, yi01, d11);
    lemma_qdot3_red(qmul(qadd(qmul(qneg(di10), c0), qmul(qneg(di11), c1)), xi), a, yi10, c0, yi11, c1);
    lemma_qdot3_red(qmul(qadd(qmul(qneg(di10), c0), qmul(qneg(di11), c1)), xi), b0, yi10, d00, yi11, d10);
    lemma_qdot3_red(qmul(qadd(qmul(qneg(di10), c0), qmul(qneg(di11), c1)), xi), b1, yi10, d01, yi11, d11);
}

/// Bridges the matrix-level inverse facts of the block pieces to the
/// full 3x3 Schur inverse.
#[verifier::rlimit(100)]
#[verifier::spinoff_prover]
proof fn lemma_schur3_bridge(mv: M3V, ai: QV, div: M2V, xiv: QV, yiv: M2V)
    requires
        m3wf(mv),
        qwf(ai) && qwf(xiv),
        m2wf(div) && m2wf(yiv),
        qmul(mv.c00, ai) == qone() && qmul(ai, mv.c00) == qone(),
        m2mul(M2V { c00: mv.c11, c01: mv.c12, c10: mv.c21, c11: mv.c22 }, div) == m2id(),
        m2mul(div, M2V { c00: mv.c11, c01: mv.c12, c10: mv.c21, c11: mv.c22 }) == m2id(),
        qmul(qsub(mv.c00, qadd(qmul(qadd(qmul(mv.c01, div.c00), qmul(mv.c02, div.c10)), mv.c10), qmul(qadd(qmul(mv.c01, div.c01), qmul(mv.c02, div.c11)), mv.c20))), xiv) == qone() && qmul(xiv, qsub(mv.c00, qadd(qmul(qadd(qmul(mv.c01, div.c00), qmul(mv.c02, div.c10)), mv.c10), qmul(qadd(qmul(mv.c01, div.c01), qmul(mv.c02, div.c11)), mv.c20)))) == qone(),
        m2mul(M2V { c00: qsub(mv.c11, qmul(qmul(mv.c10, ai), mv.c01)), c01: qsub(mv.c12, qmul(qmul(mv.c10, ai), mv.c02)), c10: qsub(mv.c21, qmul(qmul(mv.c20, ai), mv.c01)), c11: qsub(mv.c22, qmul(qmul(mv.c20, ai), mv.c02)) }, yiv) == m2id(),
        m2mul(yiv, M2V { c00: qsub(mv.c11, qmul(qmul(mv.c10, ai), mv.c01)), c01: qsub(mv.c12, qmul(qmul(mv.c10, ai), mv.c02)), c10: qsub(mv.c21, qmul(qmul(mv.c20, ai), mv.c01)), c11: qsub(mv.c22, qmul(qmul(mv.c20, ai), mv.c02)) }) == m2id(),
    ensures
        m3mul(mv, M3V {
            c00: xiv,
            c01: qmul(qneg(xiv), qadd(qmul(mv.c01, div.c00), qmul(mv.c02, div.c10))),
            c02: qmul(qneg(xiv), qadd(qmul(mv.c01, div.c01), qmul(mv.c02, div.c11))),
            c10: qmul(qadd(qmul(qneg(div.c00), mv.c10), qmul(qneg(div.c01), mv.c20)), xiv),
            c11: yiv.c00,
            c12: yiv.c01,
            c20: qmul(qadd(qmul(qneg(div.c10), mv.c10), qmul(qneg(div.c11), mv.c20)), xiv),
            c21: yiv.c10,
            c22: yiv.c11,
        }) == m3id(),
        m3mul(M3V {
            c00: xiv,
            c01: qmul(qneg(xiv), qadd(qmul(mv.c01, div.c00), qmul(mv.c02, div.c10))),
            c02: qmul(qneg(xiv), qadd(qmul(mv.c01, div.c01), qmul(mv.c02, div.c11))),
            c10: qmul(qadd(qmul(qneg(div.c00), mv.c10), qmul(qneg(div.c01), mv.c20)), xiv),
            c11: yiv.c00,
            c12: yiv.c01,
            c20: qmul(qadd(qmul(qneg(div.c10), mv.c10), qmul(qneg(div.c11), mv.c20)), xiv),
            c21: yiv.c10,
            c22: yiv.c11,
        }, mv) == m3id(),
{
    lemma_qdot2_red(mv.c11, div.c00, mv.c12, div.c10);
    lemma_qdot2_red(mv.c11, div.c01, mv.c12, div.c11);
    lemma_qdot2_red(mv.c21, div.c00, mv.c22, div.c10);
    lemma_qdot2_red(mv.c21, div.c01, mv.c22, div.c11);
    lemma_qdot2_red(div.c00, mv.c11, div.c01, mv.c21);
    lemma_qdot2_red(div.c00, mv.c12, div.c01, mv.c22);
    lemma_qdot2_red(div.c10, mv.c11, div.c11, mv.c21);
    lemma_qdot2_red(div.c10, mv.c12, div.c11, mv.c22);
    lemma_qdot2_red(qsub(mv.c11, qmul(qmul(mv.c10, ai), mv.c01)), yiv.c00, qsub(mv.c12, qmul(qmul(mv.c10, ai), mv.c02)), yiv.c10);
    lemma_qdot2_red(qsub(mv.c11, qmul(qmul(mv.c10, ai), mv.c01)), yiv.c01, qsub(mv.c12, qmul(qmul(mv.c10, ai), mv.c02)), yiv.c11);
    lemma_qdot2_red(qsub(mv.c21, qmul(qmul(mv.c20, ai), mv.c01)), yiv.c00, qsub(mv.c22, qmul(qmul(mv.c20, ai), mv.c02)), yiv.c10);
    lemma_qdot2_red(qsub(mv.c21, qmul(qmul(mv.c20, ai), mv.c01)), yiv.c01, qsub(mv.c22, qmul(qmul(mv.c20, ai), mv.c02)), yiv.c11);
    lemma_qdot2_red(yiv.c00, qsub(mv.c11, qmul(qmul(mv.c10, ai), mv.c01)), yiv.c01, qsub(mv.c21, qmul(qmul(mv.c20, ai), mv.c01)));
    lemma_qdot2_red(yiv.c00, qsub(mv.c12, qmul(qmul(mv.c10, ai), mv.c02)), yiv.c01, qsub(mv.c22, qmul(qmul(mv.c20, ai), mv.c02)));
    lemma_qdot2_red(yiv.c10, qsub(mv.c11, qmul(qmul(mv.c10, ai), mv.c01)), yiv.c11, qsub(mv.c21, qmul(qmul(mv.c20, ai), mv.c01)));
    lemma_qdot2_red(yiv.c10, qsub(mv.c12, qmul(qmul(mv.c10, ai), mv.c02)), yiv.c11, qsub(mv.c22, qmul(qmul(mv.c20, ai), mv.c02)));
    lemma_schur3_inverse(
        mv.c00,
        mv.c01,
        mv.c02,
        mv.c10,
        mv.c20,
        mv.c11,
        mv.c12,
        mv.c21,
        mv.c22,
        ai,
        div.c00,
        div.c01,
        div.c10,
        div.c11,
        xiv,
        yiv.c00,
        yiv.c01,
        yiv.c10,
        yiv.c11,
    );
}

/// The 3x3 inverse candidate: a 1+2 block split, with the 2x2 blocks
/// inverted through the verified 2x2 path.
pub open spec fn inv3_cand(m: M3V) -> Option<M3V> {
    let a = m.c00;
    if qnorm2(a) == 0 {
        None
    } else {
        let ai = qinv_spec(a);
        let d = M2V { c00: m.c11, c01: m.c12, c10: m.c21, c11: m.c22 };
        match inv2_cand(d) {
            None => None,
            Some(di) => {
                let bd0 = qadd(qmul(m.c01, di.c00), qmul(m.c02, di.c10));
                let bd1 = qadd(qmul(m.c01, di.c01), qmul(m.c02, di.c11));
                let x = qsub(a, qadd(qmul(bd0, m.c10), qmul(bd1, m.c20)));
                let y = M2V {
                    c00: qsub(d.c00, qmul(qmul(m.c10, ai), m.c01)),
                    c01: qsub(d.c01, qmul(qmul(m.c10, ai), m.c02)),
                    c10: qsub(d.c10, qmul(qmul(m.c20, ai), m.c01)),
                    c11: qsub(d.c11, qmul(qmul(m.c20, ai), m.c02)),
                };
                if qnorm2(x) == 0 {
                    None
                } else {
                    let xi = qinv_spec(x);
                    match inv2_cand(y) {
                        None => None,
                        Some(yi) => {
                            let r2a = qadd(qmul(qneg(di.c00), m.c10), qmul(qneg(di.c01), m.c20));
                            let r2b = qadd(qmul(qneg(di.c10), m.c10), qmul(qneg(di.c11), m.c20));
                            Some(M3V {
                                c00: xi,
                                c01: qmul(qneg(xi), bd0),
                                c02: qmul(qneg(xi), bd1),
                                c10: qmul(r2a, xi),
                                c11: yi.c00,
                                c12: yi.c01,
                                c20: qmul(r2b, xi),
                                c21: yi.c10,
                                c22: yi.c11,
                            })
                        },
                    }
                }
            },
        }
    }
}

/// Inverts a 3x3 matrix by a recursive 1+2 block decomposition on top of
/// the 2x2 Schur formula; the result is proved to be a two-sided inverse,
/// and a matrix whose pivots are not invertible gives `None`, never a
/// panic.
#[verifier::rlimit(100)]
#[verifier::spinoff_prover]
pub fn invert_3x3(matrix: &Matrix3) -> (r: Option<Matrix3>)
    requires
        matrix.wf(),
    ensures
        (r is Some) == (inv3_cand(matrix@) is Some),
        r matches Some(v) ==> {
            &&& Some(v@) == inv3_cand(matrix@)
            &&& v.wf()
            &&& m3mul(matrix@, v@) == m3id()
            &&& m3mul(v@, matrix@) == m3id()
        },
{
    let a = matrix.m00;
    let a_inv = match a.try_invert() {
        Some(v) => v,
        None => {
            return None;
        },
    };
    let d = Matrix2::new(matrix.m11, matrix.m12, matrix.m21, matrix.m22);
    let d_inv = match invert_2x2(&d) {
        Some(v) => v,
        None => {
            return None;
        },
    };
    let bd0 = matrix.m01.mul(d_inv.m00).add(matrix.m02.mul(d_inv.m10));
    let bd1 = matrix.m01.mul(d_inv.m01).add(matrix.m02.mul(d_inv.m11));
    let x = a.sub(bd0.mul(matrix.m10).add(bd1.mul(matrix.m20)));
    let y = Matrix2::new(
        d.m00.sub(matrix.m10.mul(a_inv).mul(matrix.m01)),
        d.m01.sub(matrix.m10.mul(a_inv).mul(matrix.m02)),
        d.m10.sub(matrix.m20.mul(a_inv).mul(matrix.m01)),
        d.m11.sub(matrix.m20.mul(a_inv).mul(matrix.m02)),
    );
    let x_inv = match x.try_invert() {
        Some(v) => v,
        None => {
            return None;
        },
    };
    let y_inv = match invert_2x2(&y) {
        Some(v) => v,
        None => {
            return None;
        },
    };
    let r2a = d_inv.m00.neg().mul(matrix.m10).add(d_inv.m01.neg().mul(matrix.m20));
    let r2b = d_inv.m10.neg().mul(matrix.m10).add(d_inv.m11.neg().mul(matrix.m20));
    let cand = Matrix3::new(
        x_inv,
        x_inv.neg().mul(bd0),
        x_inv.neg().mul(bd1),
        r2a.mul(x_inv),
        y_inv.m00,
        y_inv.m01,
        r2b.mul(x_inv),
        y_inv.m10,
        y_inv.m11,
    );
    proof {
        lemma_schur3_bridge(matrix@, a_inv@, d_inv@, x_inv@, y_inv@);
    }
    Some(cand)
}

/// A matrix whose middle diagonal cell has a vanishing squared norm is
/// never inverted: the embedding noise is built exactly so, which keeps
/// embeddings deliberately singular.
pub proof fn lemma_middle_norm_zero_not_invertible(m: M3V)
    requires
        qnorm2(m.c11) == 0,
    ensures
        inv3_cand(m) is None,
{
}

} // verus!
