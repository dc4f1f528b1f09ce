use hydra_dqea::field::Scalar;
use hydra_dqea::interpolation::{ith_lagrange_coefficient, LagrangeError};

fn s(v: u64) -> Scalar {
    Scalar::from_u64(v)
}

/// The field order minus three, as limbs.
fn minus_three() -> Scalar {
    Scalar {
        l0: 0xfffffffefffffffe,
        l1: 0x53bda402fffe5bfe,
        l2: 0x3339d80809a1d805,
        l3: 0x73eda753299d7d48,
    }
}

#[test]
fn lagrange_coefficients_at_zero_for_one_two_three() {
    let xs = vec![s(1), s(2), s(3)];
    assert_eq!(ith_lagrange_coefficient(&xs, 0, s(0)), Ok(s(3)));
    assert_eq!(ith_lagrange_coefficient(&xs, 1, s(0)), Ok(minus_three()));
    assert_eq!(ith_lagrange_coefficient(&xs, 2, s(0)), Ok(s(1)));
}

#[test]
fn lagrange_coefficient_is_one_at_its_own_point() {
    let xs = vec![s(4), s(9), s(11), s(20)];
    for i in 0..xs.len() {
        assert_eq!(ith_lagrange_coefficient(&xs, i, xs[i]), Ok(s(1)));
    }
}

#[test]
fn lagrange_coefficient_is_zero_at_other_points() {
    let xs = vec![s(4), s(9), s(11), s(20)];
    for i in 0..xs.len() {
        for k in 0..xs.len() {
            if k != i {
                assert_eq!(ith_lagrange_coefficient(&xs, i, xs[k]), Ok(s(0)));
            }
        }
    }
}

#[test]
fn lagrange_coefficients_sum_to_one() {
    let xs = vec![s(1), s(2), s(3)];
    let tau = s(17);
    // L0(17) = (15*14)/2 = 105, L1(17) = (16*14)/(-1) = -224, L2(17) = (16*15)/2 = 120.
    assert_eq!(ith_lagrange_coefficient(&xs, 0, tau), Ok(s(105)));
    assert_eq!(ith_lagrange_coefficient(&xs, 2, tau), Ok(s(120)));
    let l1 = ith_lagrange_coefficient(&xs, 1, tau).unwrap();
    assert_eq!(l1.l1, 0x53bda402fffe5bfe);
    assert_eq!(l1.l0, 0xffffffff00000001 - 224);
}

#[test]
fn lagrange_single_point_is_one() {
    let xs = vec![s(42)];
    assert_eq!(ith_lagrange_coefficient(&xs, 0, s(5)), Ok(s(1)));
}

#[test]
fn lagrange_empty_input() {
    let xs: Vec<Scalar> = Vec::new();
    assert_eq!(ith_lagrange_coefficient(&xs, 0, s(0)), Err(LagrangeError::EmptyInput));
}

#[test]
fn lagrange_index_out_of_range() {
    let xs = vec![s(1), s(2)];
    assert_eq!(ith_lagrange_coefficient(&xs, 2, s(0)), Err(LagrangeError::IndexOutOfRange));
}

#[test]
fn lagrange_duplicate_point() {
    let xs = vec![s(1), s(2), s(1)];
    assert_eq!(ith_lagrange_coefficient(&xs, 0, s(0)), Err(LagrangeError::DuplicatePoint));
    assert_eq!(ith_lagrange_coefficient(&xs, 2, s(0)), Err(LagrangeError::DuplicatePoint));
    let ys = vec![s(5), s(2), s(2)];
    assert_eq!(ith_lagrange_coefficient(&ys, 1, s(0)), Err(LagrangeError::DuplicatePoint));
}

#[test]
fn lagrange_duplicates_elsewhere_are_not_checked() {
    // Only the points equal to the chosen one are refused.
    let ys = vec![s(5), s(2), s(2)];
    assert_eq!(ith_lagrange_coefficient(&ys, 0, s(5)), Ok(s(1)));
    assert_eq!(ith_lagrange_coefficient(&ys, 0, s(2)), Ok(s(0)));
}

#[test]
fn lagrange_interpolates_a_quadratic() {
    // p(x) = 2 + 3x + x^2 at the points 1, 4, 6, evaluated at 10.
    let xs = vec![s(1), s(4), s(6)];
    let p = |x: u64| 2 + 3 * x + x * x;
    let tau = s(10);
    let mut acc = ark_bls12_381::Fr::from(0u64);
    let mut total = ark_bls12_381::Fr::from(0u64);
    for i in 0..3 {
        let l = ith_lagrange_coefficient(&xs, i, tau).unwrap();
        let lf = <ark_bls12_381::Fr as ark_ff::PrimeField>::from_repr(ark_ff::BigInteger256([l.l0, l.l1, l.l2, l.l3])).unwrap();
        acc += lf * ark_bls12_381::Fr::from(p([1, 4, 6][i]));
        total += lf;
    }
    assert_eq!(acc, ark_bls12_381::Fr::from(p(10)));
    assert_eq!(total, ark_bls12_381::Fr::from(1u64));
}
