use ark_bls12_381::{Fr, G1Affine, G1Projective, G2Affine};
use ark_ec::{AffineCurve, ProjectiveCurve};
use ark_ff::{BigInteger256, One, PrimeField, Zero};
use ark_serialize::{CanonicalDeserialize, CanonicalSerialize};
use hydra_dqea::commitment::{commit, dqea_setup, setup, PcError, Poly};
use hydra_dqea::field::Scalar;

fn s(v: u64) -> Scalar {
    Scalar::from_u64(v)
}

fn to_fr(x: &Scalar) -> Fr {
    Fr::from_repr(BigInteger256([x.l0, x.l1, x.l2, x.l3])).unwrap()
}

fn g1_bytes(p: G1Affine) -> Vec<u8> {
    let mut out = Vec::new();
    p.serialize(&mut out).unwrap();
    out
}

#[test]
fn setup_of_degree_zero_fails() {
    let mut rng = ark_std::test_rng();
    assert!(matches!(setup(0, &mut rng), Err(PcError::DegreeTooLarge { degree: 0, max_degree: 0 })));
}

#[test]
fn setup_powers_of_gamma() {
    let mut rng = ark_std::test_rng();
    let srs = setup(3, &mut rng).unwrap();
    assert_eq!(srs.max_degree, 3);
    assert_eq!(srs.gamma_g_powers.len(), 4);
    assert_eq!(srs.gamma_h_powers.len(), 4);
    let g = G1Affine::deserialize(&srs.g.bytes[..]).unwrap();
    let h = G2Affine::deserialize(&srs.h.bytes[..]).unwrap();
    let gamma = to_fr(&srs.gamma_secret_for_demo_only);
    let mut cur = Fr::one();
    for k in 0..4 {
        assert_eq!(srs.gamma_g_powers[k].bytes, g1_bytes(g.mul(cur.into_repr()).into_affine()));
        let mut hb = Vec::new();
        h.mul(cur.into_repr()).into_affine().serialize(&mut hb).unwrap();
        assert_eq!(srs.gamma_h_powers[k].bytes, hb);
        cur *= gamma;
    }
    assert_eq!(srs.gamma_g_powers[0].bytes, srs.g.bytes);
    assert_eq!(srs.gamma_h_powers[0].bytes, srs.h.bytes);
    assert_ne!(srs.gamma_g_powers[1].bytes, srs.g.bytes);
}

#[test]
fn dqea_setup_has_the_threshold_degree() {
    let mut rng = ark_std::test_rng();
    let srs = dqea_setup(2, &mut rng);
    assert_eq!(srs.max_degree, 2);
    assert_eq!(srs.gamma_g_powers.len(), 3);
}

#[test]
fn poly_trims_trailing_zeros() {
    let p = Poly::from_coefficients_vec(vec![s(1), s(0), s(2), s(0), s(0)]);
    assert_eq!(p.coeffs, vec![s(1), s(0), s(2)]);
    assert_eq!(p.degree(), 2);
    let z = Poly::from_coefficients_vec(vec![s(0), s(0)]);
    assert!(z.coeffs.is_empty());
    assert_eq!(z.degree(), 0);
    let c = Poly::from_coefficients_vec(vec![s(5)]);
    assert_eq!(c.degree(), 0);
}

#[test]
fn commit_is_the_weighted_sum_of_powers() {
    let mut rng = ark_std::test_rng();
    let srs = setup(3, &mut rng).unwrap();
    let coeffs = vec![s(3), s(0), s(7)];
    let poly = Poly::from_coefficients_vec(coeffs.clone());
    let c = commit(&srs, &poly).unwrap();
    let mut acc = G1Projective::zero();
    for (l, coeff) in coeffs.iter().enumerate() {
        let base = G1Affine::deserialize(&srs.gamma_g_powers[l].bytes[..]).unwrap();
        acc += base.mul(to_fr(coeff).into_repr());
    }
    assert_eq!(c.0.bytes, g1_bytes(acc.into_affine()));
    // It is the secret polynomial evaluated at gamma, times g.
    let gamma = to_fr(&srs.gamma_secret_for_demo_only);
    let value = Fr::from(3u64) + Fr::from(7u64) * gamma * gamma;
    let g = G1Affine::deserialize(&srs.g.bytes[..]).unwrap();
    assert_eq!(c.0.bytes, g1_bytes(g.mul(value.into_repr()).into_affine()));
}

#[test]
fn commit_to_zero_is_the_point_at_infinity() {
    let mut rng = ark_std::test_rng();
    let srs = setup(2, &mut rng).unwrap();
    let c = commit(&srs, &Poly::from_coefficients_vec(vec![])).unwrap();
    assert_eq!(c.0.bytes, g1_bytes(G1Affine::zero()));
    assert_eq!(c.0.bytes.len(), 48);
    assert_eq!(c.0.bytes[47], 0x40);
}

#[test]
fn commit_degree_too_large() {
    let mut rng = ark_std::test_rng();
    let srs = setup(2, &mut rng).unwrap();
    let poly = Poly::from_coefficients_vec(vec![s(1), s(1), s(1), s(1)]);
    assert!(matches!(commit(&srs, &poly), Err(PcError::DegreeTooLarge { degree: 3, max_degree: 2 })));
    let ok = Poly::from_coefficients_vec(vec![s(1), s(1), s(1)]);
    assert!(commit(&srs, &ok).is_ok());
}

#[test]
fn setup_of_degree_zero_draws_nothing() {
    let mut rng = ark_std::test_rng();
    let before = rng.clone();
    assert!(setup(0, &mut rng).is_err());
    assert!(rng == before);
    let _ = setup(1, &mut rng).unwrap();
    assert!(rng != before);
}

#[test]
fn commit_is_linear_in_the_polynomial() {
    let mut rng = ark_std::test_rng();
    let srs = setup(3, &mut rng).unwrap();
    let cp = commit(&srs, &Poly::from_coefficients_vec(vec![s(3), s(0), s(7)])).unwrap();
    let cq = commit(&srs, &Poly::from_coefficients_vec(vec![s(1), s(2)])).unwrap();
    let csum = commit(&srs, &Poly::from_coefficients_vec(vec![s(4), s(2), s(7)])).unwrap();
    let a = G1Affine::deserialize(&cp.0.bytes[..]).unwrap();
    let b = G1Affine::deserialize(&cq.0.bytes[..]).unwrap();
    let mut acc = a.into_projective();
    acc.add_assign_mixed(&b);
    assert_eq!(csum.0.bytes, g1_bytes(acc.into_affine()));
    let cscaled = commit(&srs, &Poly::from_coefficients_vec(vec![s(15), s(0), s(35)])).unwrap();
    assert_eq!(cscaled.0.bytes, g1_bytes(a.mul(Fr::from(5u64).into_repr()).into_affine()));
}
