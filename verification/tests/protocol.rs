//! Tests of the matrices, the inversion, and the encryption protocol.

use gmorph::matrix::{invert_2x2, invert_3x3, Matrix2, Matrix3};
use gmorph::mod231::{Mod231, MODULUS};
use gmorph::enc::{embed, encrypt_vec, dot_product_enc, project};
use gmorph::quaternion::QuaternionM;
use gmorph::{Decode, Decrypt, Enc, Encode, Encoded, Encrypt, KeyPair};

fn q(w: u32, i: u32, j: u32, k: u32) -> QuaternionM {
    QuaternionM::new(Mod231(w), Mod231(i), Mod231(j), Mod231(k))
}

#[test]
fn identity() {
    let key_pair = KeyPair::default();
    assert_eq!(
        key_pair.forwards().mul(key_pair.backwards()),
        key_pair.backwards().mul(key_pair.forwards())
    )
}

#[test]
fn idempotence() {
    let key_pair = KeyPair::default();
    assert_eq!(1, Enc::encrypt(&key_pair, 1).decrypt(&key_pair));
}

#[test]
fn key_pair_is_mutually_inverse() {
    let key_pair = KeyPair::new();
    let id = Matrix3::identity();
    assert_eq!(key_pair.forwards().mul(key_pair.backwards()), id);
    assert_eq!(key_pair.backwards().mul(key_pair.forwards()), id);
}

#[test]
fn round_trip_various_values() {
    let key_pair = KeyPair::new();
    for v in [0u32, 1, 2, 45, 362880, MODULUS - 1] {
        assert_eq!(v, Enc::encrypt(&key_pair, v).decrypt(&key_pair));
    }
    // Values at or above the modulus decrypt to their residue.
    assert_eq!(0, Enc::encrypt(&key_pair, MODULUS).decrypt(&key_pair));
    assert_eq!(1, Enc::encrypt(&key_pair, MODULUS + 1).decrypt(&key_pair));
}

#[test]
fn homomorphic_add_and_mul() {
    let key_pair = KeyPair::new();
    let x = Enc::encrypt(&key_pair, 1000);
    let y = Enc::encrypt(&key_pair, 234);
    assert_eq!(1234, x.add(y).decrypt(&key_pair));
    assert_eq!(234000, x.mul(y).decrypt(&key_pair));
    // Addition wraps around the modulus.
    let a = Enc::encrypt(&key_pair, MODULUS - 1);
    let b = Enc::encrypt(&key_pair, 5);
    assert_eq!(4, a.add(b).decrypt(&key_pair));
    // So does multiplication: (MODULUS - 1) * 5 == -5.
    assert_eq!(MODULUS - 5, a.mul(b).decrypt(&key_pair));
}

#[test]
fn homomorphic_sub_and_neg() {
    let key_pair = KeyPair::new();
    let x = Enc::encrypt(&key_pair, 10);
    let y = Enc::encrypt(&key_pair, 14);
    assert_eq!(MODULUS - 4, x.sub(y).decrypt(&key_pair));
    assert_eq!(4, y.sub(x).decrypt(&key_pair));
    assert_eq!(MODULUS - 10, x.neg().decrypt(&key_pair));
}

#[test]
fn fold_nine_values_with_add_gives_45() {
    let key_pair = KeyPair::new();
    let encs: Vec<Enc> = (1..10).map(|v| Enc::encrypt(&key_pair, v)).collect();
    let zero = Enc::encrypt(&key_pair, 0);
    let sum = encs.iter().fold(zero, |acc, x| acc.add(*x));
    assert_eq!(45, sum.decrypt(&key_pair));
}

#[test]
fn fold_nine_values_with_mul_gives_362880() {
    let key_pair = KeyPair::new();
    let encs: Vec<Enc> = (1..10).map(|v| Enc::encrypt(&key_pair, v)).collect();
    let one = Enc::encrypt(&key_pair, 1);
    let product = encs.iter().fold(one, |acc, x| acc.mul(*x));
    assert_eq!(362880, product.decrypt(&key_pair));
}

#[test]
fn embedding_projects_back() {
    let payload = q(123, 456, 789, 0);
    let m = embed(payload);
    assert_eq!(project(&m), payload);
    // The cells below the diagonal are zero, and the middle noise cell
    // has a vanishing squared norm.
    assert_eq!(m.m10, QuaternionM::zero());
    assert_eq!(m.m20, QuaternionM::zero());
    assert_eq!(m.m21, QuaternionM::zero());
    assert_eq!(m.m11.norm2(), Mod231(0));
}

#[test]
fn embedding_is_singular() {
    let m = embed(q(7, 0, 0, 0));
    assert_eq!(invert_3x3(&m), None);
}

#[test]
fn invert_2x2_quaternion_units() {
    // The matrix [[k, j], [i, 1]] is invertible: its Schur complements
    // are 2k and 2, both of nonzero norm.
    let m = Matrix2::new(q(0, 0, 0, 1), q(0, 0, 1, 0), q(0, 1, 0, 0), q(1, 0, 0, 0));
    let inv = invert_2x2(&m).expect("matrix is invertible");
    let id = Matrix2::identity();
    assert_eq!(m.mul(inv), id);
    assert_eq!(inv.mul(m), id);
}

#[test]
fn invert_2x2_rejects_singular() {
    let z = QuaternionM::zero();
    let m = Matrix2::new(z, z, z, z);
    assert_eq!(invert_2x2(&m), None);
    // A leading block without inverse is rejected even when the matrix
    // itself is invertible: [[0, 1], [1, 0]].
    let m = Matrix2::new(z, QuaternionM::one(), QuaternionM::one(), z);
    assert_eq!(invert_2x2(&m), None);
}

#[test]
fn invert_3x3_diagonal() {
    let z = QuaternionM::zero();
    let two = q(2, 0, 0, 0);
    let m = Matrix3::new(two, z, z, z, two, z, z, z, two);
    let inv = invert_3x3(&m).expect("a diagonal of units is invertible");
    let id = Matrix3::identity();
    assert_eq!(m.mul(inv), id);
    assert_eq!(inv.mul(m), id);
    assert_eq!(invert_3x3(&Matrix3::zero()), None);
}

#[test]
fn matrix3_ring_operations() {
    let id = Matrix3::identity();
    let z = Matrix3::zero();
    assert_eq!(id.mul(id), id);
    assert_eq!(id.add(z), id);
    assert_eq!(id.sub(id), z);
    assert_eq!(z.neg(), z);
    assert!(id.is_reduced());
}

#[test]
fn key_pair_from_matrices() {
    let kp = KeyPair::new();
    let f = kp.forwards();
    let b = kp.backwards();
    let rebuilt = KeyPair::from_matrices(f, b).expect("a generated pair is accepted");
    assert_eq!(rebuilt.forwards(), f);
    assert_eq!(rebuilt.backwards(), b);
    // A mismatched pair is rejected.
    let two = QuaternionM::new(Mod231(2), Mod231(0), Mod231(0), Mod231(0));
    let z = QuaternionM::zero();
    let not_inverse = Matrix3::new(
        two,
        z,
        z,
        z,
        QuaternionM::one(),
        z,
        z,
        z,
        QuaternionM::one(),
    );
    assert!(KeyPair::from_matrices(Matrix3::identity(), not_inverse).is_none());
}

#[test]
fn enc_matrix_round_trip() {
    let key_pair = KeyPair::new();
    let e = Enc::encrypt(&key_pair, 77);
    let rebuilt = Enc::from_matrix(e.matrix()).expect("ciphertext matrices are reduced");
    assert_eq!(77, rebuilt.decrypt(&key_pair));
}

#[test]
fn encrypt_vec_and_dot_product() {
    let key_pair = KeyPair::new();
    let x = encrypt_vec(&key_pair, vec![1, 2, 3]);
    let y = encrypt_vec(&key_pair, vec![2, 4, 6]);
    assert_eq!(x.len(), 3);
    for (e, v) in x.iter().zip([1u32, 2, 3]) {
        assert_eq!(v, e.decrypt(&key_pair));
    }
    // The accumulator is seeded with the first product, which therefore
    // counts twice: 1*2 + (1*2 + 2*4 + 3*6) == 30.
    let d = dot_product_enc(&x, &y);
    assert_eq!(30, d.decrypt(&key_pair));
}

#[test]
fn encoded_encode_decode() {
    let e = Encoded::encode(45u32);
    let got: u32 = e.decode();
    assert_eq!(45, got);
    assert!(Encoded::zero().is_zero());
    assert!(Encoded::one().is_one());
    let e = Encoded::encode(MODULUS);
    assert_eq!(e, Encoded::from_matrix(e.matrix()).unwrap());
    assert_eq!(0u32, e.decode());
}

#[test]
fn encoded_encrypt_fold_gives_45() {
    let key_pair = KeyPair::default();
    let enc: Vec<_> = (1..10).map(|x| Encoded::encode(x).encrypt(&key_pair)).collect();
    let folded = enc
        .into_iter()
        .fold(Encoded::zero().encrypt(&key_pair), |acc, x| acc.add(x));
    let given: u32 = folded.decrypt(&key_pair).decode();
    let expected: u32 = (1..10).sum();
    assert_eq!(expected, given, "the sums should be equal, and equal to 45");
}
