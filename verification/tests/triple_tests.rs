use ark_bls12_381::Fr;
use ark_ff::{BigInteger256, PrimeField};
use hydra_dqea::field::Scalar;
use hydra_dqea::triple::{gen_beaver_triple_n_n, share_secret_n_n, shares_from_randomness, AdditiveShares};

fn s(v: u64) -> Scalar {
    Scalar::from_u64(v)
}

fn to_fr(x: &Scalar) -> Fr {
    Fr::from_repr(BigInteger256([x.l0, x.l1, x.l2, x.l3])).unwrap()
}

fn sum_fr(shares: &AdditiveShares) -> Fr {
    shares.shares.iter().fold(Fr::from(0u64), |acc, x| acc + to_fr(x))
}

#[test]
fn reconstruct_adds_the_shares() {
    let shares = AdditiveShares { shares: vec![s(3), s(4), s(10)] };
    assert_eq!(shares.reconstruct(), s(17));
    assert_eq!(shares.len(), 3);
}

#[test]
fn reconstruct_of_no_shares_is_zero() {
    let shares = AdditiveShares { shares: Vec::new() };
    assert_eq!(shares.reconstruct(), s(0));
    assert_eq!(shares.len(), 0);
}

#[test]
fn reconstruct_wraps_around_the_modulus() {
    // (p - 3) + 5 = 2 in the field.
    let minus_three = Scalar {
        l0: 0xfffffffefffffffe,
        l1: 0x53bda402fffe5bfe,
        l2: 0x3339d80809a1d805,
        l3: 0x73eda753299d7d48,
    };
    let shares = AdditiveShares { shares: vec![minus_three, s(5)] };
    assert_eq!(shares.reconstruct(), s(2));
}

#[test]
fn shares_from_randomness_completes_the_sum() {
    let r = shares_from_randomness(s(10), vec![s(3), s(4)]);
    assert_eq!(r.shares.len(), 3);
    assert_eq!(r.shares[0], s(3));
    assert_eq!(r.shares[1], s(4));
    assert_eq!(r.shares[2], s(3));
    assert_eq!(r.reconstruct(), s(10));
}

#[test]
fn shares_from_randomness_last_share_wraps() {
    // 1 - 4 = p - 3.
    let r = shares_from_randomness(s(1), vec![s(4)]);
    assert_eq!(r.shares[1].l0, 0xfffffffefffffffe);
    assert_eq!(r.shares[1].l3, 0x73eda753299d7d48);
    assert_eq!(r.reconstruct(), s(1));
}

#[test]
fn share_secret_reconstructs_the_secret() {
    let mut rng = ark_std::test_rng();
    for n in 1..6 {
        let secret = s(123456789 + n as u64);
        let shares = share_secret_n_n(secret, n, &mut rng);
        assert_eq!(shares.len(), n);
        assert_eq!(shares.reconstruct(), secret);
        assert_eq!(sum_fr(&shares), to_fr(&secret));
    }
}

#[test]
fn share_secret_with_one_party_is_the_secret() {
    let mut rng = ark_std::test_rng();
    let shares = share_secret_n_n(s(99), 1, &mut rng);
    assert_eq!(shares.shares, vec![s(99)]);
}

#[test]
fn share_secret_draws_random_shares() {
    let mut rng = ark_std::test_rng();
    let shares = share_secret_n_n(s(0), 3, &mut rng);
    assert_ne!(shares.shares[0], s(0));
    assert_ne!(shares.shares[0], shares.shares[1]);
}

#[test]
fn beaver_triple_multiplies() {
    let mut rng = ark_std::test_rng();
    let t = gen_beaver_triple_n_n(4, &mut rng);
    assert_eq!(t.a.len(), 4);
    assert_eq!(t.b.len(), 4);
    assert_eq!(t.c.len(), 4);
    let a = t.a.reconstruct();
    let b = t.b.reconstruct();
    let c = t.c.reconstruct();
    assert_eq!(to_fr(&c), to_fr(&a) * to_fr(&b));
    assert_ne!(a, s(0));
}

#[test]
fn share_secret_with_one_party_draws_nothing() {
    let mut rng = ark_std::test_rng();
    let before = rng.clone();
    let shares = share_secret_n_n(s(5), 1, &mut rng);
    assert_eq!(shares.shares, vec![s(5)]);
    assert!(rng == before);
}
