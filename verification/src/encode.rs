//! Encoding of plain values into noisy embedding matrices, without a key:
//! the unkeyed half of the protocol, on which conjugation by a key pair
//! then acts.

use vstd::prelude::*;
use crate::mod231::Mod231;
use crate::quaternion::{qreal, QuaternionM};
use crate::matrix::{m3add, m3mul, m3upper, m3wf, Matrix3, M3V};
use crate::enc::{embed, KeyPair};

verus! {

/// Helper trait for encoding a `T` into `Self`.
pub trait Encode<T>: Sized {
    /// Encodes `value` into `Self`.
    fn encode(value: T) -> Self;
}

/// Helper trait for decoding `Self` into a `T`.
pub trait Decode<T> {
    /// Decodes `self` into a `T`.
    fn decode(&self) -> T;
}

/// A noisy embedding matrix of a plain value: the unkeyed ciphertext form,
/// on which the ring operations are defined.
#[derive(Clone, Copy, Debug, PartialEq, Eq, Structural)]
pub struct Encoded {
    inner: Matrix3,
}

impl View for Encoded {
    type V = M3V;

    closed spec fn view(&self) -> M3V {
        self.inner@
    }
}

impl Encoded {
    /// The invariant: every coordinate reduced.  It holds of every
    /// `Encoded` value by construction.
    #[verifier::type_invariant]
    pub open spec fn wf(&self) -> bool {
        m3wf(self@)
    }

    /// Encodes a value as a noisy upper-triangular embedding.
    pub fn enc(value: u32) -> (r: Self)
        ensures
            m3upper(r@),
            r@.c00 == qreal(value as int),
    {
        let q = QuaternionM::from_real(Mod231::from(value));
        let e = embed(q);
        proof {
            crate::mod231::lemma_mred_idem(value as int);
        }
        Self { inner: e }
    }

    /// Reads the encoded value back from the payload cell.
    pub fn dec(&self) -> (r: u32)
        ensures
            r as int == self@.c00.w,
    {
        self.inner.m00.w.0
    }

    /// The underlying matrix.
    pub fn matrix(&self) -> (r: Matrix3)
        ensures
            r@ == self@,
            r.wf(),
    {
        proof {
            use_type_invariant(&*self);
        }
        self.inner
    }

    /// Rebuilds an encoding from a matrix, accepting it only when every
    /// coordinate is reduced.
    pub fn from_matrix(m: Matrix3) -> (r: Option<Encoded>)
        ensures
            (r is Some) == m.wf(),
            r matches Some(c) ==> c@ == m@,
    {
        if m.is_reduced() {
            Some(Encoded { inner: m })
        } else {
            None
        }
    }

    /// The encoding of zero.
    pub fn zero() -> (r: Self)
        ensures
            m3upper(r@),
            r@.c00 == qreal(0),
    {
        Self::enc(0)
    }

    /// The encoding of one.
    pub fn one() -> (r: Self)
        ensures
            m3upper(r@),
            r@.c00 == qreal(1),
    {
        Self::enc(1)
    }

    /// Whether the payload quaternion is zero.
    pub fn is_zero(&self) -> (r: bool)
        ensures
            r == (self@.c00 == crate::quaternion::qzero()),
    {
        self.inner.m00.is_zero()
    }

    /// Whether the payload quaternion is one.
    pub fn is_one(&self) -> (r: bool)
        ensures
            r == (self@.c00 == crate::quaternion::qone()),
    {
        self.inner.m00.is_one()
    }

    /// Elementwise sum of the underlying matrices.
    pub fn add(self, rhs: Self) -> (r: Self)
        ensures
            r@ == m3add(self@, rhs@),
    {
        proof {
            use_type_invariant(&self);
            use_type_invariant(&rhs);
        }
        Self { inner: self.inner.add(rhs.inner) }
    }

    /// Product of the underlying matrices.
    pub fn mul(self, rhs: Self) -> (r: Self)
        ensures
            r@ == m3mul(self@, rhs@),
    {
        proof {
            use_type_invariant(&self);
            use_type_invariant(&rhs);
        }
        Self { inner: self.inner.mul(rhs.inner) }
    }

    /// Encrypts the encoding: conjugation by the key pair.
    pub fn encrypt(&self, key_pair: &KeyPair) -> (r: Self)
        ensures
            r@ == m3mul(m3mul(key_pair@.f, self@), key_pair@.b),
    {
        proof {
            use_type_invariant(&*self);
        }
        let inner = key_pair.forwards().mul(self.inner).mul(key_pair.backwards());
        proof {
            crate::matrix::lemma_m3mul_assoc(key_pair@.f, self@, key_pair@.b);
        }
        Self { inner }
    }

    /// Decrypts the encoding: the mirror conjugation.
    pub fn decrypt(&self, key_pair: &KeyPair) -> (r: Self)
        ensures
            r@ == m3mul(m3mul(key_pair@.b, self@), key_pair@.f),
    {
        proof {
            use_type_invariant(&*self);
        }
        let inner = key_pair.backwards().mul(self.inner).mul(key_pair.forwards());
        Self { inner }
    }
}

impl Encode<u32> for Encoded {
    fn encode(value: u32) -> Self {
        Self::enc(value)
    }
}

impl Decode<u32> for Encoded {
    fn decode(&self) -> u32 {
        self.dec()
    }
}

} // verus!
