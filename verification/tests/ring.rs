//! Tests of the modular ring, quaternions, and small vectors.

use gmorph::mod231::{modulo, normalize, normalize_u64, try_sqrt, Mod231, MODULUS};
use gmorph::quaternion::{QuaternionM, Vector3};
use gmorph::vector::Vector4;
use gmorph::Invertible;

#[test]
fn test_sqrt() {
    for i in 10..20 {
        let a = Mod231(i);
        let r = try_sqrt(a);
        println!("a = {:?}, r = {:?}", a, r);
        if let Some(x) = r {
            assert_eq!(x.mul(x), a);
        }
    }
}

#[test]
fn sqrt_exact_cases() {
    // 4 is always a square; its root must square back to 4.
    let r = try_sqrt(Mod231(4)).expect("4 has a square root");
    assert_eq!(r.mul(r), Mod231(4));
    // MODULUS - 1 is -1; since MODULUS == 3 (mod 4), -1 has no square root.
    assert_eq!(try_sqrt(Mod231(MODULUS - 1)), None);
    // 0 and 1 are their own roots.
    assert_eq!(try_sqrt(Mod231(0)), Some(Mod231(0)));
    assert_eq!(try_sqrt(Mod231(1)), Some(Mod231(1)));
}

#[test]
fn normalize_folds_correctly() {
    assert_eq!(normalize(0), 0);
    assert_eq!(normalize(MODULUS - 1), MODULUS - 1);
    assert_eq!(normalize(MODULUS), 0);
    assert_eq!(normalize(MODULUS + 1), 1);
    // 2^32 - 1 == 2 * MODULUS + 1, so it reduces to 1.
    assert_eq!(modulo(u32::MAX), 1);
    // 2^64 == 2^2 * (2^31)^2 and 2^31 == 1 (mod MODULUS), so
    // 2^64 - 1 reduces to 3.
    assert_eq!(normalize_u64(u64::MAX), 3);
    assert_eq!(normalize_u64(MODULUS as u64 * MODULUS as u64), 0);
}

#[test]
fn ring_arithmetic_exact() {
    let a = Mod231(MODULUS - 1);
    let b = Mod231(5);
    assert_eq!(a.add(b), Mod231(4));
    assert_eq!(b.add(b), Mod231(10));
    assert_eq!(b.sub(a), Mod231(6));
    assert_eq!(a.sub(b), Mod231(MODULUS - 6));
    assert_eq!(a.mul(b), Mod231(MODULUS - 5));
    assert_eq!(Mod231(3).mul(Mod231(7)), Mod231(21));
    assert_eq!(b.neg(), Mod231(MODULUS - 5));
    assert_eq!(Mod231(0).neg(), Mod231(0));
    assert_eq!(Mod231::from(MODULUS), Mod231(0));
    assert_eq!(Mod231::from(7), Mod231(7));
    assert_eq!(Mod231::zero(), Mod231(0));
    assert_eq!(Mod231::one(), Mod231(1));
    assert!(Mod231(0).is_zero());
    assert!(Mod231(1).is_one());
}

#[test]
fn ring_double_negation() {
    for v in [0u32, 1, 2, 12345, MODULUS - 1] {
        let x = Mod231(v);
        assert_eq!(x.neg().neg(), x);
    }
}

#[test]
fn ring_inverse_laws() {
    for v in [1u32, 2, 3, 12345, MODULUS - 1] {
        let x = Mod231(v);
        let inv = x.recip();
        assert_eq!(x.mul(inv), Mod231(1));
        assert_eq!(inv.mul(x), Mod231(1));
        assert_eq!(inv.recip(), x);
    }
    assert_eq!(Mod231::try_invert(&Mod231(0)), None);
    // Division is multiplication by the inverse.
    assert_eq!(Mod231(10).div(Mod231(2)), Mod231(5));
    assert_eq!(Mod231(1).div(Mod231(2)).mul(Mod231(2)), Mod231(1));
    // The trait form agrees with the inherent form.
    assert_eq!(Invertible::invert(&Mod231(2)), Mod231(2).recip());
    assert!(Invertible::try_invert(&Mod231(0)).is_none());
}

#[test]
fn quaternion_construction() {
    let q = QuaternionM::new(Mod231(1), Mod231(2), Mod231(3), Mod231(4));
    assert_eq!(q.w, Mod231(1));
    assert_eq!(q.i, Mod231(2));
    assert_eq!(q.j, Mod231(3));
    assert_eq!(q.k, Mod231(4));
    let imag = q.imag();
    assert_eq!(imag, Vector3 { x: Mod231(2), y: Mod231(3), z: Mod231(4) });
    assert_eq!(QuaternionM::from_parts(Mod231(1), imag), q);
    assert_eq!(
        QuaternionM::from_real(Mod231(7)),
        QuaternionM::new(Mod231(7), Mod231(0), Mod231(0), Mod231(0))
    );
    assert_eq!(
        QuaternionM::from_imag(imag),
        QuaternionM::new(Mod231(0), Mod231(2), Mod231(3), Mod231(4))
    );
    assert!(QuaternionM::zero().is_zero());
    assert!(QuaternionM::one().is_one());
}

#[test]
fn quaternion_hamilton_product() {
    let one = QuaternionM::one();
    let i = QuaternionM::new(Mod231(0), Mod231(1), Mod231(0), Mod231(0));
    let j = QuaternionM::new(Mod231(0), Mod231(0), Mod231(1), Mod231(0));
    let k = QuaternionM::new(Mod231(0), Mod231(0), Mod231(0), Mod231(1));
    let minus_one = QuaternionM::new(Mod231(MODULUS - 1), Mod231(0), Mod231(0), Mod231(0));
    // The defining relations i^2 == j^2 == k^2 == ijk == -1.
    assert_eq!(i.mul(i), minus_one);
    assert_eq!(j.mul(j), minus_one);
    assert_eq!(k.mul(k), minus_one);
    assert_eq!(i.mul(j), k);
    assert_eq!(j.mul(i), k.neg());
    assert_eq!(j.mul(k), i);
    assert_eq!(k.mul(i), j);
    assert_eq!(one.mul(i), i);
    // Norm of 1 + 2i + 3j + 4k is 30.
    let q = QuaternionM::new(Mod231(1), Mod231(2), Mod231(3), Mod231(4));
    assert_eq!(q.norm2(), Mod231(30));
    // Conjugation negates the imaginary part.
    let c = q.conjugate();
    assert_eq!(c.w, Mod231(1));
    assert_eq!(c.i, Mod231(MODULUS - 2));
    // Scaling multiplies every coordinate.
    let s = q.scale(Mod231(10));
    assert_eq!(s, QuaternionM::new(Mod231(10), Mod231(20), Mod231(30), Mod231(40)));
    // Addition and subtraction are coordinatewise.
    assert_eq!(q.add(q), QuaternionM::new(Mod231(2), Mod231(4), Mod231(6), Mod231(8)));
    assert_eq!(q.sub(q), QuaternionM::zero());
}

#[test]
fn quaternion_inverse_laws() {
    let q = QuaternionM::new(Mod231(1), Mod231(2), Mod231(3), Mod231(4));
    let inv = QuaternionM::try_invert(&q).expect("norm 30 is invertible");
    assert_eq!(q.mul(inv), QuaternionM::one());
    assert_eq!(inv.mul(q), QuaternionM::one());
    // A nonzero quaternion of zero squared norm has no inverse: pick a
    // w with w^2 == -(i^2 + j^2), as the embedding noise does.
    let mut found = false;
    'search: for ci in 1u32..40 {
        for cj in 1u32..40 {
            let (a, b) = (Mod231(ci), Mod231(cj));
            if let Some(x) = try_sqrt(a.mul(a).add(b.mul(b)).neg()) {
                let q0 = QuaternionM::new(x, a, b, Mod231(0));
                assert_eq!(q0.norm2(), Mod231(0));
                assert_eq!(QuaternionM::try_invert(&q0), None);
                found = true;
                break 'search;
            }
        }
    }
    assert!(found, "some small pair must admit a root of -(i^2 + j^2)");
    assert_eq!(QuaternionM::try_invert(&QuaternionM::zero()), None);
    // The trait form agrees with the inherent form.
    assert_eq!(Invertible::invert(&q), inv);
}

#[test]
fn quaternion_double_negation() {
    let q = QuaternionM::new(Mod231(0), Mod231(2), Mod231(MODULUS - 1), Mod231(4));
    assert_eq!(q.neg().neg(), q);
}

#[test]
fn vector4_from_iter() {
    let v: Vec<u32> = vec![5, 6];
    let r = Vector4::from_iter(&v, 0);
    assert_eq!(r.data, [5, 6, 0, 0]);
    let w: Vec<u32> = vec![1, 2, 3, 4, 5];
    let r = Vector4::from_iter(&w, 9);
    assert_eq!(r.data, [1, 2, 3, 4]);
    let e: Vec<u32> = vec![];
    let r = Vector4::from_iter(&e, 7);
    assert_eq!(r.data, [7, 7, 7, 7]);
}
