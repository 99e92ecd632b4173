//! A homomorphic encryption scheme over the Mersenne-prime ring Z/(2^31 - 1):
//! quaternions over the ring are embedded into noisy 3x3 matrices and
//! conjugated by a random invertible key matrix, so that addition and
//! multiplication of ciphertexts decrypt to modular addition and
//! multiplication of the plaintexts.

use vstd::prelude::*;

pub mod mod231;
pub mod quaternion;
pub mod matrix;
pub mod enc;
pub mod encode;
pub mod vector;

pub use crate::enc::{
    dot_product_enc, embed, encrypt_vec, project, Decrypt, Enc, Encrypt, KeyPair,
};
pub use crate::encode::{Decode, Encode, Encoded};
pub use crate::matrix::{invert_2x2, invert_3x3, Matrix2, Matrix3};
pub use crate::mod231::{normalize, try_sqrt, Mod231, MODULUS};
pub use crate::quaternion::{QuaternionM, Vector3};
pub use crate::vector::{Vector, Vector4};

verus! {

/// The capability of (possibly) having a multiplicative inverse.
pub trait Invertible: Sized {
    /// Whether the inversion methods may be called on this value.
    spec fn inv_wf(&self) -> bool;

    /// Whether this value has an inverse.
    spec fn spec_invertible(&self) -> bool;

    /// The inverse, meaningful when `spec_invertible` holds.
    spec fn spec_inverse(&self) -> Self;

    /// The inverse, or `None` when there is none.
    fn try_invert(&self) -> (r: Option<Self>)
        requires
            self.inv_wf(),
        ensures
            (r is Some) == self.spec_invertible(),
            r matches Some(v) ==> v == self.spec_inverse(),
    ;

    /// The inverse of a value known to have one.
    fn invert(&self) -> (r: Self)
        requires
            self.inv_wf(),
            self.spec_invertible(),
        ensures
            r == self.spec_inverse(),
    ;
}

} // verus!
