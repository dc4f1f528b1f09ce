//! A KZG-style polynomial commitment over BLS12-381: a structured
//! reference string of powers of a secret `gamma` in both groups, and
//! commitments to polynomials in the first group.

use vstd::prelude::*;
use ark_bls12_381::{Fr, G1Affine, G1Projective, G2Affine, G2Projective};
use ark_ec::{AffineCurve, ProjectiveCurve};
use ark_ff::{BigInteger256, PrimeField, Zero};
use ark_serialize::{CanonicalDeserialize, CanonicalSerialize};
use ark_std::UniformRand;
use ark_std::rand::rngs::StdRng;
use crate::field::{Scalar, modulus, fadd, fmul, fr_mul, random_scalar};
use crate::interpolation::all_wf;
use crate::codec::scalar_values;
use vstd::arithmetic::div_mod::lemma_small_mod;
use crate::poly::{fpow, coef, poly_eval, coeffs_sum, coeffs_scale, lemma_poly_eval_reduced, lemma_poly_eval_add,
    lemma_poly_eval_extend, lemma_poly_eval_scale};

verus! {

/// The compressed serialization of the G1 point that `bytes` hold (read
/// with `CanonicalDeserialize::deserialize`), or `None`.
pub uninterp spec fn g1_decode(bytes: Seq<u8>) -> Option<Seq<u8>>;

/// The compressed serialization of the G2 point that `bytes` hold, or
/// `None`.
pub uninterp spec fn g2_decode(bytes: Seq<u8>) -> Option<Seq<u8>>;

/// The point `k * P` in G1, for the point `P` that `p` encodes, compressed.
pub uninterp spec fn g1_scalar_mul(p: Seq<u8>, k: nat) -> Seq<u8>;

/// The point `k * P` in G2, for the point `P` that `p` encodes, compressed.
pub uninterp spec fn g2_scalar_mul(p: Seq<u8>, k: nat) -> Seq<u8>;

/// The sum in G1 of the points that `a` and `b` encode, compressed.
pub uninterp spec fn g1_sum(a: Seq<u8>, b: Seq<u8>) -> Seq<u8>;

/// The compressed serialization of the point at infinity of G1: 48 zero
/// bytes but for the infinity flag (bit 6) of the last one.
pub open spec fn g1_identity_bytes() -> Seq<u8> {
    Seq::new(48, |i: int| if i == 47 { 0x40u8 } else { 0u8 })
}

/// A point of G1, as its compressed serialization.
pub struct G1Point {
    pub bytes: Vec<u8>,
}

/// A point of G2, as its compressed serialization.
pub struct G2Point {
    pub bytes: Vec<u8>,
}

impl G1Point {
    /// The bytes are the compressed serialization of a point.
    pub open spec fn wf(&self) -> bool {
        g1_decode(self.bytes@) == Some(self.bytes@)
    }
}

impl G2Point {
    /// The bytes are the compressed serialization of a point.
    pub open spec fn wf(&self) -> bool {
        g2_decode(self.bytes@) == Some(self.bytes@)
    }
}

/// `G1Projective::rand(rng).into_affine()`: some point of G1 drawn from
/// `rng`. Which one is not stated.
#[verifier::external_body]
fn g1_random(rng: &mut StdRng) -> (r: G1Point)
    ensures
        g1_decode(r.bytes@) == Some(r.bytes@),
{
    let mut out = Vec::new();
    G1Projective::rand(rng).into_affine().serialize(&mut out).unwrap();
    G1Point { bytes: out }
}

/// `G2Projective::rand(rng).into_affine()`: some point of G2 drawn from
/// `rng`. Which one is not stated.
#[verifier::external_body]
fn g2_random(rng: &mut StdRng) -> (r: G2Point)
    ensures
        g2_decode(r.bytes@) == Some(r.bytes@),
{
    let mut out = Vec::new();
    G2Projective::rand(rng).into_affine().serialize(&mut out).unwrap();
    G2Point { bytes: out }
}

/// `AffineCurve::mul` in G1, made affine: `k * P`. As a group law of the
/// prime-order group G1: multiplying by one gives `P` back, and multiplying
/// `s * X` by `k` gives `(s k mod r) * X`.
#[verifier::external_body]
fn g1_mul(p: &G1Point, k: &Scalar) -> (r: G1Point)
    requires
        p.wf(),
        k.wf(),
    ensures
        r.bytes@ == g1_scalar_mul(p.bytes@, k.value()),
        g1_decode(r.bytes@) == Some(r.bytes@),
        k.value() == 1 ==> r.bytes@ == p.bytes@,
        forall|x: Seq<u8>, s: nat| g1_decode(x) == Some(x) && p.bytes@ == #[trigger] g1_scalar_mul(x, s)
            ==> r.bytes@ == g1_scalar_mul(x, fmul(s, k.value())),
{
    let a = G1Affine::deserialize(&p.bytes[..]).unwrap();
    let x = Fr::from_repr(BigInteger256([k.l0, k.l1, k.l2, k.l3])).unwrap();
    let mut out = Vec::new();
    a.mul(x.into_repr()).into_affine().serialize(&mut out).unwrap();
    G1Point { bytes: out }
}

/// `AffineCurve::mul` in G2, made affine: `k * P`; multiplying by one gives
/// `P` back.
#[verifier::external_body]
fn g2_mul(p: &G2Point, k: &Scalar) -> (r: G2Point)
    requires
        p.wf(),
        k.wf(),
    ensures
        r.bytes@ == g2_scalar_mul(p.bytes@, k.value()),
        g2_decode(r.bytes@) == Some(r.bytes@),
        k.value() == 1 ==> r.bytes@ == p.bytes@,
{
    let a = G2Affine::deserialize(&p.bytes[..]).unwrap();
    let x = Fr::from_repr(BigInteger256([k.l0, k.l1, k.l2, k.l3])).unwrap();
    let mut out = Vec::new();
    a.mul(x.into_repr()).into_affine().serialize(&mut out).unwrap();
    G2Point { bytes: out }
}

/// Addition in G1 (`add_assign_mixed` on `G1Projective`), made affine. As a
/// group law of the prime-order group G1: `s * X + t * X` is
/// `(s + t mod r) * X`.
#[verifier::external_body]
fn g1_add(a: &G1Point, b: &G1Point) -> (r: G1Point)
    requires
        a.wf(),
        b.wf(),
    ensures
        r.bytes@ == g1_sum(a.bytes@, b.bytes@),
        g1_decode(r.bytes@) == Some(r.bytes@),
        forall|x: Seq<u8>, s: nat, t: nat|
            #![trigger g1_scalar_mul(x, s), g1_scalar_mul(x, t)]
            g1_decode(x) == Some(x) && a.bytes@ == g1_scalar_mul(x, s) && b.bytes@ == g1_scalar_mul(x, t)
            ==> r.bytes@ == g1_scalar_mul(x, fadd(s, t)),
{
    let x = G1Affine::deserialize(&a.bytes[..]).unwrap();
    let y = G1Affine::deserialize(&b.bytes[..]).unwrap();
    let mut acc = x.into_projective();
    acc.add_assign_mixed(&y);
    let mut out = Vec::new();
    acc.into_affine().serialize(&mut out).unwrap();
    G1Point { bytes: out }
}

/// `G1Projective::zero()`, made affine: the point at infinity, which is
/// `0 * X` for every point `X`.
#[verifier::external_body]
fn g1_zero() -> (r: G1Point)
    ensures
        r.bytes@ == g1_identity_bytes(),
        g1_decode(r.bytes@) == Some(r.bytes@),
        forall|x: Seq<u8>| g1_decode(x) == Some(x) ==> #[trigger] g1_scalar_mul(x, 0) == r.bytes@,
{
    let mut out = Vec::new();
    G1Projective::zero().into_affine().serialize(&mut out).unwrap();
    G1Point { bytes: out }
}

/// The structured reference string: generators `g` and `h`, and
/// `gamma^k * g`, `gamma^k * h` for `k` up to `max_degree`.
pub struct Srs {
    pub g: G1Point,
    pub h: G2Point,
    pub gamma_g_powers: Vec<G1Point>,
    pub gamma_h_powers: Vec<G2Point>,
    pub max_degree: usize,
    pub gamma_secret_for_demo_only: Scalar,
}

impl Srs {
    /// What committing needs: a valid point for every degree up to
    /// `max_degree`.
    pub open spec fn commit_ready(&self) -> bool {
        &&& self.gamma_g_powers@.len() > self.max_degree
        &&& forall|k: int| 0 <= k < self.gamma_g_powers@.len() ==> #[trigger] self.gamma_g_powers@[k].wf()
    }

    /// Each list holds the powers `0..=max_degree` of `gamma` times its
    /// generator; the first is the generator itself.
    pub open spec fn wf(&self) -> bool {
        &&& self.g.wf()
        &&& self.h.wf()
        &&& self.gamma_secret_for_demo_only.wf()
        &&& self.gamma_g_powers@.len() == self.max_degree + 1
        &&& self.gamma_h_powers@.len() == self.max_degree + 1
        &&& self.gamma_g_powers@[0].bytes@ == self.g.bytes@
        &&& self.gamma_h_powers@[0].bytes@ == self.h.bytes@
        &&& forall|k: int| 0 <= k <= self.max_degree ==> {
            &&& #[trigger] self.gamma_g_powers@[k].wf()
            &&& self.gamma_g_powers@[k].bytes@
                == g1_scalar_mul(self.g.bytes@, fpow(self.gamma_secret_for_demo_only.value(), k as nat))
        }
        &&& forall|k: int| 0 <= k <= self.max_degree ==> {
            &&& #[trigger] self.gamma_h_powers@[k].wf()
            &&& self.gamma_h_powers@[k].bytes@
                == g2_scalar_mul(self.h.bytes@, fpow(self.gamma_secret_for_demo_only.value(), k as nat))
        }
    }
}

/// A commitment to a polynomial: a point of G1.
pub struct Commitment(pub G1Point);

/// A share of a secret: a field element.
pub struct Share(pub Scalar);

/// An opening witness: a point of G1 and a point of G2.
pub struct Witness(pub G1Point, pub G2Point);

/// Why a commitment operation failed.
#[derive(Debug, PartialEq, Eq)]
pub enum PcError {
    DegreeTooLarge { degree: usize, max_degree: usize },
    PointAtRootDivision,
    InconsistentInputLengths,
    EmptyInput,
}

/// Draws the reference string for polynomials of degree up to
/// `max_degree`: random generators, a random secret `gamma`, and its
/// powers times each generator.
pub fn setup(max_degree: usize, rng: &mut StdRng) -> (r: Result<Srs, PcError>)
    requires
        max_degree < usize::MAX,
    ensures
        max_degree == 0 <==> r == Err::<Srs, PcError>(PcError::DegreeTooLarge { degree: 0, max_degree: 0 }),
        max_degree > 0 ==> (r matches Ok(srs) && srs.wf() && srs.commit_ready() && srs.max_degree == max_degree),
        max_degree == 0 ==> *final(rng) == *old(rng),
{
    if max_degree == 0 {
        return Err(PcError::DegreeTooLarge { degree: 0, max_degree: 0 });
    }
    let g = g1_random(rng);
    let h = g2_random(rng);
    let gamma = random_scalar(rng);

    let mut gamma_g_powers: Vec<G1Point> = Vec::new();
    let mut cur = Scalar::from_u64(1);
    let mut k: usize = 0;
    while k <= max_degree
        invariant
            max_degree < usize::MAX,
            k <= max_degree + 1,
            g.wf(),
            gamma.wf(),
            cur.wf(),
            cur.value() == fpow(gamma.value(), k as nat),
            gamma_g_powers@.len() == k,
            k > 0 ==> gamma_g_powers@[0].bytes@ == g.bytes@,
            forall|j: int| 0 <= j < k ==> {
                &&& #[trigger] gamma_g_powers@[j].wf()
                &&& gamma_g_powers@[j].bytes@ == g1_scalar_mul(g.bytes@, fpow(gamma.value(), j as nat))
            },
        decreases max_degree + 1 - k,
    {
        gamma_g_powers.push(g1_mul(&g, &cur));
        cur = fr_mul(&cur, &gamma);
        k = k + 1;
    }

    let mut gamma_h_powers: Vec<G2Point> = Vec::new();
    let mut cur2 = Scalar::from_u64(1);
    let mut k2: usize = 0;
    while k2 <= max_degree
        invariant
            max_degree < usize::MAX,
            k2 <= max_degree + 1,
            h.wf(),
            gamma.wf(),
            cur2.wf(),
            cur2.value() == fpow(gamma.value(), k2 as nat),
            gamma_h_powers@.len() == k2,
            k2 > 0 ==> gamma_h_powers@[0].bytes@ == h.bytes@,
            forall|j: int| 0 <= j < k2 ==> {
                &&& #[trigger] gamma_h_powers@[j].wf()
                &&& gamma_h_powers@[j].bytes@ == g2_scalar_mul(h.bytes@, fpow(gamma.value(), j as nat))
            },
        decreases max_degree + 1 - k2,
    {
        gamma_h_powers.push(g2_mul(&h, &cur2));
        cur2 = fr_mul(&cur2, &gamma);
        k2 = k2 + 1;
    }

    let srs = Srs { g, h, gamma_g_powers, gamma_h_powers, max_degree, gamma_secret_for_demo_only: gamma };
    assert(srs.wf());
    assert(srs.commit_ready());
    Ok(srs)
}

/// The reference string for threshold `thresh_num`.
pub fn dqea_setup(thresh_num: usize, rng: &mut StdRng) -> (r: Srs)
    requires
        1 <= thresh_num < usize::MAX,
    ensures
        r.wf(),
        r.commit_ready(),
        r.max_degree == thresh_num,
{
    match setup(thresh_num, rng) {
        Ok(srs) => srs,
        Err(_) => vstd::pervasive::unreached(),
    }
}


/// Every coefficient is zero.
pub open spec fn coeffs_all_zero(c: Seq<Scalar>) -> bool {
    forall|i: int| 0 <= i < c.len() ==> #[trigger] c[i].value() == 0
}

/// The degree of the polynomial with coefficients `c` (lowest first): zero
/// for the zero polynomial, otherwise the index of the last coefficient.
pub open spec fn coeffs_degree(c: Seq<Scalar>) -> nat {
    if coeffs_all_zero(c) {
        0
    } else {
        (c.len() - 1) as nat
    }
}

/// The length of `c` once its trailing zero coefficients are removed.
pub open spec fn trimmed_len(c: Seq<Scalar>) -> nat
    decreases c.len(),
{
    if c.len() == 0 {
        0
    } else if c.last().value() == 0 {
        trimmed_len(c.drop_last())
    } else {
        c.len()
    }
}

/// A univariate polynomial over the scalar field, by its coefficients,
/// lowest degree first.
pub struct Poly {
    pub coeffs: Vec<Scalar>,
}

impl Poly {
    /// Each coefficient is a field element, and the last one is not zero
    /// unless all are.
    pub open spec fn wf(&self) -> bool {
        &&& all_wf(self.coeffs@)
        &&& (coeffs_all_zero(self.coeffs@) || self.coeffs@.last().value() != 0)
    }

    /// The polynomial with the given coefficients, trailing zeros removed.
    pub fn from_coefficients_vec(coeffs: Vec<Scalar>) -> (r: Poly)
        requires
            all_wf(coeffs@),
        ensures
            r.wf(),
            r.coeffs@ == coeffs@.take(trimmed_len(coeffs@) as int),
            forall|i: int| r.coeffs@.len() <= i < coeffs@.len() ==> #[trigger] coeffs@[i].value() == 0,
    {
        let mut c = coeffs;
        let ghost orig = c@;
        proof { lemma_trimmed_len_bound(orig); }
        while c.len() > 0 && c[c.len() - 1].l0 == 0 && c[c.len() - 1].l1 == 0
            && c[c.len() - 1].l2 == 0 && c[c.len() - 1].l3 == 0
            invariant
                all_wf(orig),
                trimmed_len(orig) <= c@.len() <= orig.len(),
                c@ == orig.take(c@.len() as int),
                trimmed_len(c@) == trimmed_len(orig),
            decreases c@.len(),
        {
            c.pop();
            proof { lemma_trimmed_len_bound(c@); }
        }
        proof {
            if c@.len() > 0 {
                assert(trimmed_len(c@) == c@.len());
            } else {
                assert(coeffs_all_zero(c@));
            }
        }
        Poly { coeffs: c }
    }

    /// The degree: zero for the zero polynomial, otherwise the index of the
    /// last coefficient.
    pub fn degree(&self) -> (r: usize)
        requires
            self.wf(),
        ensures
            r == coeffs_degree(self.coeffs@),
    {
        let n = self.coeffs.len();
        if n == 0 {
            return 0;
        }
        let last = self.coeffs[n - 1];
        if last.l0 == 0 && last.l1 == 0 && last.l2 == 0 && last.l3 == 0 {
            0
        } else {
            proof { assert(self.coeffs@[n - 1].value() != 0); }
            n - 1
        }
    }
}

/// Trimming removes exactly the trailing zero coefficients: what is cut
/// off is all zero, and what is kept ends in a nonzero coefficient.
pub proof fn lemma_trimmed_len_bound(c: Seq<Scalar>)
    ensures
        trimmed_len(c) <= c.len(),
        trimmed_len(c) == 0 ==> coeffs_all_zero(c),
        trimmed_len(c) > 0 ==> c[trimmed_len(c) - 1].value() != 0,
        forall|i: int| trimmed_len(c) <= i < c.len() ==> #[trigger] c[i].value() == 0,
    decreases c.len(),
{
    if c.len() > 0 && c.last().value() == 0 {
        let d = c.drop_last();
        lemma_trimmed_len_bound(d);
        assert forall|i: int| trimmed_len(c) <= i < c.len() implies #[trigger] c[i].value() == 0 by {
            if i < d.len() {
                assert(d[i] == c[i]);
            }
        }
        if trimmed_len(c) == 0 {
            assert forall|i: int| 0 <= i < c.len() implies #[trigger] c[i].value() == 0 by {
                if i < d.len() {
                    assert(d[i] == c[i]);
                }
            }
        }
    }
}

/// The commitment that `commit` folds up after the first `n` coefficients:
/// the sum of `c[l] * (gamma^l * g)` over the nonzero coefficients, starting
/// from the point at infinity.
pub open spec fn commit_acc(powers: Seq<G1Point>, c: Seq<Scalar>, n: nat) -> Seq<u8>
    decreases n,
{
    if n == 0 {
        g1_identity_bytes()
    } else {
        let prev = commit_acc(powers, c, (n - 1) as nat);
        let coeff = c[n - 1];
        if coeff.value() == 0 {
            prev
        } else {
            g1_sum(prev, g1_scalar_mul(powers[n - 1].bytes@, coeff.value()))
        }
    }
}

/// Committing is linear. With `commit` giving `g1_scalar_mul(g, p(gamma))`,
/// the commitment to `p + q` is `(p(gamma) + q(gamma)) * g`, and the
/// commitment to `k * p` is `(k p(gamma)) * g`; `g1_add` and `g1_mul` state
/// that these are the sum of the two commitments and `k` times the first.
pub proof fn lemma_commit_homomorphic(g: Seq<u8>, gamma: nat, a: Seq<nat>, b: Seq<nat>, k: nat)
    ensures
        g1_scalar_mul(g, poly_eval(coeffs_sum(a, b), gamma, coeffs_sum(a, b).len()))
            == g1_scalar_mul(g, fadd(poly_eval(a, gamma, a.len()), poly_eval(b, gamma, b.len()))),
        g1_scalar_mul(g, poly_eval(coeffs_scale(k, a), gamma, a.len()))
            == g1_scalar_mul(g, fmul(k, poly_eval(a, gamma, a.len()))),
{
    let n = coeffs_sum(a, b).len();
    lemma_poly_eval_add(a, b, gamma, n);
    lemma_poly_eval_extend(a, gamma, n);
    lemma_poly_eval_extend(b, gamma, n);
    lemma_poly_eval_scale(k, a, gamma, a.len());
}

/// Commits to `poly`: `Err(DegreeTooLarge)` exactly when its degree exceeds
/// the reference string's, otherwise the sum of each nonzero coefficient
/// times the matching power of `gamma` times `g`.
pub fn commit(srs: &Srs, poly: &Poly) -> (r: Result<Commitment, PcError>)
    requires
        srs.commit_ready(),
        poly.wf(),
    ensures
        coeffs_degree(poly.coeffs@) > srs.max_degree <==> r == Err::<Commitment, PcError>(
            PcError::DegreeTooLarge {
                degree: coeffs_degree(poly.coeffs@) as usize,
                max_degree: srs.max_degree,
            },
        ),
        coeffs_degree(poly.coeffs@) <= srs.max_degree ==> {
            &&& r matches Ok(c)
            &&& c.0.wf()
            &&& c.0.bytes@ == commit_acc(srs.gamma_g_powers@, poly.coeffs@, poly.coeffs@.len())
            &&& srs.wf() ==> c.0.bytes@ == g1_scalar_mul(
                srs.g.bytes@,
                poly_eval(scalar_values(poly.coeffs@), srs.gamma_secret_for_demo_only.value(), poly.coeffs@.len()),
            )
            &&& coeffs_all_zero(poly.coeffs@) ==> c.0.bytes@ == g1_identity_bytes()
        },
{
    let degree = poly.degree();
    if degree > srs.max_degree {
        return Err(PcError::DegreeTooLarge { degree, max_degree: srs.max_degree });
    }
    let mut acc = g1_zero();
    let ghost g = srs.g.bytes@;
    let ghost gamma = srs.gamma_secret_for_demo_only.value();
    let ghost cs = scalar_values(poly.coeffs@);
    proof {
        if srs.wf() {
            assert(g1_scalar_mul(g, 0) == acc.bytes@);
        }
    }
    let n = poly.coeffs.len();
    let mut l: usize = 0;
    while l < n
        invariant
            srs.commit_ready(),
            poly.wf(),
            g == srs.g.bytes@,
            gamma == srs.gamma_secret_for_demo_only.value(),
            cs == scalar_values(poly.coeffs@),
            n == poly.coeffs@.len(),
            coeffs_degree(poly.coeffs@) <= srs.max_degree,
            l <= n,
            acc.wf(),
            acc.bytes@ == commit_acc(srs.gamma_g_powers@, poly.coeffs@, l as nat),
            srs.wf() ==> acc.bytes@ == g1_scalar_mul(g, poly_eval(cs, gamma, l as nat)),
            (forall|j: int| 0 <= j < l ==> #[trigger] poly.coeffs@[j].value() == 0)
                ==> acc.bytes@ == g1_identity_bytes(),
        decreases n - l,
    {
        let coeff = poly.coeffs[l];
        let ghost e = poly_eval(cs, gamma, l as nat);
        let ghost pw = fpow(gamma, l as nat);
        proof {
            lemma_poly_eval_reduced(cs, gamma, l as nat);
            assert(coef(cs, l as int) == poly.coeffs@[l as int].value());
        }
        if coeff.l0 == 0 && coeff.l1 == 0 && coeff.l2 == 0 && coeff.l3 == 0 {
            proof {
                assert(pw * 0 == 0) by (nonlinear_arith);
                lemma_small_mod(e, modulus());
                assert(poly_eval(cs, gamma, (l + 1) as nat) == e);
            }
            l = l + 1;
        } else {
            proof {
                assert(poly.coeffs@[l as int].value() != 0);
                assert(!coeffs_all_zero(poly.coeffs@));
                assert(all_wf(poly.coeffs@));
                assert(poly.coeffs@[l as int].wf());
                assert(srs.gamma_g_powers@[l as int].wf());
                if srs.wf() {
                    assert(srs.gamma_g_powers@[l as int].bytes@ == g1_scalar_mul(g, pw));
                }
            }
            let term = g1_mul(&srs.gamma_g_powers[l], &coeff);
            proof {
                if srs.wf() {
                    assert(term.bytes@ == g1_scalar_mul(g, fmul(pw, coeff.value())));
                }
            }
            acc = g1_add(&acc, &term);
            proof {
                if srs.wf() {
                    assert(acc.bytes@ == g1_scalar_mul(g, fadd(e, fmul(pw, coeff.value()))));
                    assert(poly_eval(cs, gamma, (l + 1) as nat) == fadd(e, fmul(pw, coeff.value())));
                }
            }
            l = l + 1;
        }
    }
    proof {
        if coeffs_all_zero(poly.coeffs@) {
            assert(forall|j: int| 0 <= j < l ==> #[trigger] poly.coeffs@[j].value() == 0);
        }
    }
    Ok(Commitment(acc))
}

} // verus!
