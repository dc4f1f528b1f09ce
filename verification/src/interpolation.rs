//! Lagrange basis coefficients over the scalar field.

use vstd::prelude::*;
use vstd::arithmetic::div_mod::{lemma_mul_mod_noop_left, lemma_mul_mod_noop_right, lemma_small_mod};
use vstd::arithmetic::mul::lemma_mul_is_associative;
use crate::field::{Scalar, modulus, fadd, fmul, fsub, fr_mul, fr_sub, fr_inverse};
use crate::poly::{order, coef, poly_eval, coeffs_sum, coeffs_scale, mul_linear, invertible, lemma_fadd_is, lemma_fmul_is,
    lemma_fsub_is, lemma_small, lemma_poly_eval_reduced, lemma_poly_eval_add, lemma_poly_eval_extend,
    lemma_poly_eval_scale, lemma_poly_eval_mul_linear, lemma_vanishing, lemma_congruent_mul};

verus! {

/// Why a Lagrange coefficient could not be computed.
#[derive(Debug, PartialEq, Eq)]
pub enum LagrangeError {
    EmptyInput,
    IndexOutOfRange,
    DuplicatePoint,
}

/// The product of `tau - xs[j]` over the indices `j < n` other than `i`,
/// in the field.
pub open spec fn lagrange_num(xs: Seq<Scalar>, i: int, tau: nat, n: int) -> nat
    decreases n,
{
    if n <= 0 {
        1
    } else if n - 1 == i {
        lagrange_num(xs, i, tau, n - 1)
    } else {
        fmul(lagrange_num(xs, i, tau, n - 1), fsub(tau, xs[n - 1].value()))
    }
}

/// The denominator of the `i`-th basis polynomial: the product of
/// `xs[i] - xs[j]` over all `j` other than `i`.
pub open spec fn lagrange_den(xs: Seq<Scalar>, i: int) -> nat {
    lagrange_num(xs, i, xs[i].value(), xs.len() as int)
}

/// Some other point equals the `i`-th one.
pub open spec fn has_duplicate_of(xs: Seq<Scalar>, i: int) -> bool {
    exists|j: int| 0 <= j < xs.len() && j != i && xs[j] == xs[i]
}

/// The multiplicative inverse of `a` in the field (meaningful when `a` is
/// invertible).
pub open spec fn finv(a: nat) -> nat {
    choose|v: nat| v < modulus() && fmul(a, v) == 1
}

/// The value at `tau` of the `i`-th Lagrange basis polynomial for the
/// points `xs`.
pub open spec fn lagrange_coefficient(xs: Seq<Scalar>, i: int, tau: nat) -> nat {
    fmul(lagrange_num(xs, i, tau, xs.len() as int), finv(lagrange_den(xs, i)))
}

/// All points are canonical field elements.
pub open spec fn all_wf(xs: Seq<Scalar>) -> bool {
    forall|k: int| 0 <= k < xs.len() ==> #[trigger] xs[k].wf()
}

/// An element has at most one inverse below the modulus.
pub proof fn lemma_inverse_unique(a: nat, v: nat, w: nat)
    requires
        v < modulus(),
        w < modulus(),
        fmul(a, v) == 1,
        fmul(a, w) == 1,
    ensures
        v == w,
{
    let p = modulus() as int;
    // v == v * (a * w) == (v * a) * w == w   (mod p)
    lemma_mul_mod_noop_right(v as int, (a * w) as int, p);
    lemma_mul_is_associative(v as int, a as int, w as int);
    lemma_mul_mod_noop_left((v * a) as int, w as int, p);
    assert(((v * a) as int) % p == 1) by {
        assert(v * a == a * v) by (nonlinear_arith);
    }
    lemma_small_mod(v, modulus());
    lemma_small_mod(w, modulus());
}

/// The inverse that `Field::inverse` hands back is `finv`.
pub proof fn lemma_finv_is_inverse(a: nat, v: nat)
    requires
        v < modulus(),
        fmul(a, v) == 1,
    ensures
        finv(a) == v,
{
    let w = finv(a);
    assert(w < modulus() && fmul(a, w) == 1);
    lemma_inverse_unique(a, v, w);
}

/// `ith_lagrange_coefficient` computes the value at `tau` of the `i`-th
/// Lagrange basis polynomial for the interpolation points `xs`.
pub fn ith_lagrange_coefficient(xs: &[Scalar], i: usize, tau: Scalar) -> (r: Result<Scalar, LagrangeError>)
    requires
        all_wf(xs@),
        tau.wf(),
    ensures
        xs@.len() == 0 ==> r == Err::<Scalar, LagrangeError>(LagrangeError::EmptyInput),
        xs@.len() > 0 && i >= xs@.len() ==> r == Err::<Scalar, LagrangeError>(LagrangeError::IndexOutOfRange),
        xs@.len() > 0 && i < xs@.len() ==> {
            &&& (r == Err::<Scalar, LagrangeError>(LagrangeError::DuplicatePoint)
                <==> (has_duplicate_of(xs@, i as int) || lagrange_den(xs@, i as int) == 0))
            &&& r is Ok <==> !(has_duplicate_of(xs@, i as int) || lagrange_den(xs@, i as int) == 0)
            &&& r matches Ok(c) ==> c.wf() && c.value() == lagrange_coefficient(xs@, i as int, tau.value())
            &&& r is Ok ==> finv(lagrange_den(xs@, i as int)) < modulus()
                && fmul(lagrange_den(xs@, i as int), finv(lagrange_den(xs@, i as int))) == 1
        },
{
    if xs.len() == 0 {
        return Err(LagrangeError::EmptyInput);
    }
    if i >= xs.len() {
        return Err(LagrangeError::IndexOutOfRange);
    }
    let x_i = xs[i];
    let mut num = Scalar::from_u64(1);
    let mut den = Scalar::from_u64(1);
    let mut j: usize = 0;
    while j < xs.len()
        invariant
            all_wf(xs@),
            tau.wf(),
            i < xs@.len(),
            x_i == xs@[i as int],
            j <= xs@.len(),
            num.wf(),
            den.wf(),
            num.value() == lagrange_num(xs@, i as int, tau.value(), j as int),
            den.value() == lagrange_num(xs@, i as int, x_i.value(), j as int),
            forall|k: int| 0 <= k < j && k != i ==> xs@[k] != xs@[i as int],
        decreases xs.len() - j,
    {
        if j != i {
            let x_j = xs[j];
            assert(x_j.wf());
            if x_j == x_i {
                return Err(LagrangeError::DuplicatePoint);
            }
            num = fr_mul(&num, &fr_sub(&tau, &x_j));
            den = fr_mul(&den, &fr_sub(&x_i, &x_j));
        }
        j = j + 1;
    }
    assert(!has_duplicate_of(xs@, i as int));
    match fr_inverse(&den) {
        None => Err(LagrangeError::DuplicatePoint),
        Some(inv) => {
            proof {
                lemma_finv_is_inverse(den.value(), inv.value());
            }
            Ok(fr_mul(&num, &inv))
        },
    }
}


/// A product over the points vanishes at `tau = xs[k]` once it has passed
/// the factor `tau - xs[k]`.
proof fn lemma_num_vanishes_at_node(xs: Seq<Scalar>, i: int, k: int, n: int)
    requires
        0 <= k < n,
        k != i,
    ensures
        lagrange_num(xs, i, xs[k].value(), n) == 0,
    decreases n,
{
    let t = xs[k].value();
    if n - 1 == k {
        assert(fsub(t, t) == 0);
        let acc = lagrange_num(xs, i, t, n - 1);
        assert(acc * 0 == 0) by (nonlinear_arith);
    } else {
        lemma_num_vanishes_at_node(xs, i, k, n - 1);
        if n - 1 != i {
            let f = fsub(t, xs[n - 1].value());
            assert(0 * f == 0) by (nonlinear_arith);
        }
    }
}

/// The `i`-th Lagrange basis polynomial is one at its own point `xs[i]`,
/// wherever its denominator is invertible.
pub proof fn lemma_lagrange_one_at_own_point(xs: Seq<Scalar>, i: int)
    requires
        0 <= i < xs.len(),
        exists|v: nat| v < modulus() && fmul(lagrange_den(xs, i), v) == 1,
    ensures
        lagrange_coefficient(xs, i, xs[i].value()) == 1,
{
    let d = lagrange_den(xs, i);
    let v = choose|v: nat| v < modulus() && fmul(d, v) == 1;
    lemma_finv_is_inverse(d, v);
}

/// The `i`-th Lagrange basis polynomial vanishes at every other point
/// `xs[k]`.
pub proof fn lemma_lagrange_zero_at_other_point(xs: Seq<Scalar>, i: int, k: int)
    requires
        0 <= k < xs.len(),
        k != i,
    ensures
        lagrange_coefficient(xs, i, xs[k].value()) == 0,
{
    lemma_num_vanishes_at_node(xs, i, k, xs.len() as int);
    let w = finv(lagrange_den(xs, i));
    assert(0 * w == 0) by (nonlinear_arith);
}


/// The coefficients of the numerator of the `i`-th basis polynomial over the
/// first `m` points: the product of `(x - xs[j])` for `j < m` other than `i`.
pub open spec fn num_coeffs(xs: Seq<Scalar>, i: int, m: int) -> Seq<nat>
    decreases m,
{
    if m <= 0 {
        seq![1nat]
    } else if m - 1 == i {
        num_coeffs(xs, i, m - 1)
    } else {
        mul_linear(num_coeffs(xs, i, m - 1), xs[m - 1].value())
    }
}

/// The numerator coefficients evaluate to the numerator.
proof fn lemma_num_coeffs(xs: Seq<Scalar>, i: int, m: int, t: nat)
    requires
        0 <= i,
        0 <= m,
    ensures
        num_coeffs(xs, i, m).len() == if i < m { m } else { m + 1 },
        poly_eval(num_coeffs(xs, i, m), t, num_coeffs(xs, i, m).len()) == lagrange_num(xs, i, t, m),
    decreases m,
{
    if m == 0 {
        let one = seq![1nat];
        assert(poly_eval(one, t, 0) == 0);
        assert(coef(one, 0) == 1);
        lemma_small_mod(1, modulus());
        lemma_small_mod(0, modulus());
        lemma_fmul_is(1, 1, 1, 1);
        lemma_fadd_is(0, 1, 0, 1);
        assert(poly_eval(one, t, 1) == fadd(0, fmul(1, 1)));
    } else if m - 1 == i {
        lemma_num_coeffs(xs, i, m - 1, t);
    } else {
        lemma_num_coeffs(xs, i, m - 1, t);
        lemma_poly_eval_mul_linear(num_coeffs(xs, i, m - 1), xs[m - 1].value(), t);
    }
}

/// The coefficients of the interpolating polynomial, summed over the first
/// `k` points: each numerator scaled by the value over its denominator.
pub open spec fn interp_coeffs(xs: Seq<Scalar>, vals: Seq<nat>, k: int) -> Seq<nat>
    decreases k,
{
    if k <= 0 {
        Seq::empty()
    } else {
        coeffs_sum(
            interp_coeffs(xs, vals, k - 1),
            coeffs_scale(fmul(finv(lagrange_den(xs, k - 1)), vals[k - 1]), num_coeffs(xs, k - 1, xs.len() as int)),
        )
    }
}

/// The sum over the first `k` points of the basis value at `tau` times the
/// given value at that point.
pub open spec fn lagrange_sum(xs: Seq<Scalar>, vals: Seq<nat>, tau: nat, k: int) -> nat
    decreases k,
{
    if k <= 0 {
        0
    } else {
        fadd(lagrange_sum(xs, vals, tau, k - 1), fmul(lagrange_coefficient(xs, k - 1, tau), vals[k - 1]))
    }
}

/// The interpolating coefficients evaluate to the Lagrange sum.
proof fn lemma_interp_coeffs(xs: Seq<Scalar>, vals: Seq<nat>, k: int, t: nat)
    requires
        0 <= k <= xs.len(),
    ensures
        interp_coeffs(xs, vals, k).len() <= xs.len(),
        poly_eval(interp_coeffs(xs, vals, k), t, xs.len() as nat) == lagrange_sum(xs, vals, t, k),
    decreases k,
{
    let n = xs.len() as nat;
    if k == 0 {
        assert(poly_eval(Seq::<nat>::empty(), t, n) == 0) by {
            lemma_poly_eval_extend(Seq::<nat>::empty(), t, n);
        }
    } else {
        let i = k - 1;
        lemma_interp_coeffs(xs, vals, i, t);
        let prev = interp_coeffs(xs, vals, i);
        let num = num_coeffs(xs, i, n as int);
        lemma_num_coeffs(xs, i, n as int, t);
        let f = finv(lagrange_den(xs, i));
        let v = vals[i];
        let w = fmul(f, v);
        lemma_poly_eval_add(prev, coeffs_scale(w, num), t, n);
        lemma_poly_eval_scale(w, num, t, n);
        let nv = lagrange_num(xs, i, t, n as int);
        let fi = f as int;
        let vi = v as int;
        let ni = nv as int;
        lemma_fmul_is(f, v, fi, vi);
        lemma_fmul_is(w, nv, fi * vi, ni);
        lemma_fmul_is(nv, f, ni, fi);
        lemma_fmul_is(fmul(nv, f), v, ni * fi, vi);
        assert(fi * vi * ni == ni * fi * vi) by (nonlinear_arith);
        assert(lagrange_coefficient(xs, i, t) == fmul(nv, f));
    }
}

/// At the `k`-th point the Lagrange sum picks out the `k`-th value.
proof fn lemma_lagrange_sum_at_node(xs: Seq<Scalar>, vals: Seq<nat>, k: int, j: int)
    requires
        0 <= k < xs.len(),
        0 <= j <= xs.len(),
        vals.len() == xs.len(),
        forall|i: int| 0 <= i < vals.len() ==> #[trigger] vals[i] < modulus(),
        invertible(lagrange_den(xs, k)),
    ensures
        lagrange_sum(xs, vals, xs[k].value(), j) == if j > k { vals[k] } else { 0 },
    decreases j,
{
    if j > 0 {
        let i = j - 1;
        lemma_lagrange_sum_at_node(xs, vals, k, i);
        let prev = lagrange_sum(xs, vals, xs[k].value(), i);
        let v = vals[i];
        lemma_small(v);
        lemma_small_mod(0, modulus());
        lemma_small_mod(1, modulus());
        if i == k {
            lemma_lagrange_one_at_own_point(xs, k);
            lemma_fmul_is(1, v, 1, v as int);
            lemma_fadd_is(0, v, 0, v as int);
        } else {
            lemma_lagrange_zero_at_other_point(xs, i, k);
            lemma_fmul_is(0, v, 0, v as int);
            assert(0 * (v as int) == 0) by (nonlinear_arith);
            lemma_small(prev);
            lemma_fadd_is(prev, 0, prev as int, 0);
        }
    }
}

/// The factors of an invertible numerator are invertible.
proof fn lemma_num_factors_invertible(xs: Seq<Scalar>, i: int, tau: nat, m: int)
    requires
        invertible(lagrange_num(xs, i, tau, m)),
    ensures
        forall|j: int| 0 <= j < m && j != i ==> #[trigger] invertible(fsub(tau, xs[j].value())),
    decreases m,
{
    if m > 0 && m - 1 != i {
        let p = lagrange_num(xs, i, tau, m - 1);
        let f = fsub(tau, xs[m - 1].value());
        let v = choose|v: nat| v < modulus() && fmul(fmul(p, f), v) == 1;
        let (pi, fi, vi) = (p as int, f as int, v as int);
        lemma_fmul_is(p, f, pi, fi);
        lemma_fmul_is(fmul(p, f), v, pi * fi, vi);
        lemma_fmul_is(f, v, fi, vi);
        lemma_fmul_is(p, fmul(f, v), pi, fi * vi);
        lemma_fmul_is(p, v, pi, vi);
        lemma_fmul_is(f, fmul(p, v), fi, pi * vi);
        assert(pi * fi * vi == pi * (fi * vi)) by (nonlinear_arith);
        assert(pi * fi * vi == fi * (pi * vi)) by (nonlinear_arith);
        assert(fmul(p, fmul(f, v)) == 1);
        assert(fmul(f, fmul(p, v)) == 1);
        lemma_num_factors_invertible(xs, i, tau, m - 1);
    } else if m > 0 {
        lemma_num_factors_invertible(xs, i, tau, m - 1);
    }
}

/// The value at each point of the polynomial with coefficients `c`.
pub open spec fn values_at(c: Seq<nat>, xs: Seq<Scalar>) -> Seq<nat> {
    Seq::new(xs.len(), |i: int| poly_eval(c, xs[i].value(), c.len()))
}

/// The sum of the first `k` basis values at `tau`.
pub open spec fn lagrange_total(xs: Seq<Scalar>, tau: nat, k: int) -> nat
    decreases k,
{
    if k <= 0 {
        0
    } else {
        fadd(lagrange_total(xs, tau, k - 1), lagrange_coefficient(xs, k - 1, tau))
    }
}

/// Lagrange interpolation: for points whose denominators are invertible
/// (which holds for distinct points in a field), and any polynomial `p` of
/// degree below the number of points, the sum over the points of the basis
/// value at `tau` times `p` at the point is `p(tau)`.
pub proof fn lemma_lagrange_interpolates(xs: Seq<Scalar>, c: Seq<nat>, tau: nat)
    requires
        xs.len() >= 1,
        c.len() <= xs.len(),
        forall|i: int| 0 <= i < xs.len() ==> #[trigger] invertible(lagrange_den(xs, i)),
    ensures
        lagrange_sum(xs, values_at(c, xs), tau, xs.len() as int) == poly_eval(c, tau, c.len()),
{
    let n = xs.len() as nat;
    let vals = values_at(c, xs);
    let m = order();
    assert forall|i: int| 0 <= i < vals.len() implies #[trigger] vals[i] < modulus() by {
        lemma_poly_eval_reduced(c, xs[i].value(), c.len());
    }
    let ip = interp_coeffs(xs, vals, n as int);
    let neg = coeffs_scale((modulus() - 1) as nat, c);
    let q = coeffs_sum(ip, neg);
    lemma_interp_coeffs(xs, vals, n as int, 0);
    let pts = Seq::new(n, |k: int| xs[k].value());
    // q(x) is the Lagrange sum at x minus p(x)
    assert forall|x: nat| #[trigger] poly_eval(q, x, n) == fadd(
        lagrange_sum(xs, vals, x, n as int),
        fmul((modulus() - 1) as nat, poly_eval(c, x, c.len())),
    ) by {
        lemma_interp_coeffs(xs, vals, n as int, x);
        lemma_poly_eval_add(ip, neg, x, n);
        lemma_poly_eval_scale((modulus() - 1) as nat, c, x, n);
        lemma_poly_eval_extend(c, x, n);
    }
    assert((-1int) % m == m - 1);
    assert forall|k: int| 0 <= k < n implies #[trigger] poly_eval(q, pts[k], n) == 0 by {
        let x = xs[k].value();
        assert(pts[k] == x);
        assert(invertible(lagrange_den(xs, k)));
        lemma_lagrange_sum_at_node(xs, vals, k, n as int);
        let p = vals[k];
        assert(p == poly_eval(c, x, c.len()));
        let pi = p as int;
        lemma_small(p);
        lemma_small((modulus() - 1) as nat);
        lemma_fmul_is((modulus() - 1) as nat, p, -1, pi);
        lemma_fadd_is(p, fmul((modulus() - 1) as nat, p), pi, -1 * pi);
        assert(pi + -1 * pi == 0);
        lemma_small_mod(0, modulus());
    }
    assert forall|j: int, k: int| 0 <= j < n && 0 <= k < n && j != k implies #[trigger] invertible(
        fsub(pts[j], pts[k]),
    ) by {
        assert(invertible(lagrange_den(xs, j)));
        assert(lagrange_den(xs, j) == lagrange_num(xs, j, xs[j].value(), n as int));
        lemma_num_factors_invertible(xs, j, xs[j].value(), n as int);
        assert(invertible(fsub(xs[j].value(), xs[k].value())));
    }
    assert(q.len() <= n);
    lemma_vanishing(q, pts, n);
    let s = lagrange_sum(xs, vals, tau, n as int);
    let p = poly_eval(c, tau, c.len());
    assert(poly_eval(q, tau, n) == 0);
    lemma_poly_eval_reduced(c, tau, c.len());
    lemma_small(p);
    lemma_small((modulus() - 1) as nat);
    lemma_fmul_is((modulus() - 1) as nat, p, -1, p as int);
    lemma_fadd_is(s, fmul((modulus() - 1) as nat, p), s as int, -1 * (p as int));
    lemma_small_mod(0, modulus());
    assert(s < modulus());
    assert(((s as int) - (p as int)) % m == 0);
}


/// With every value one, the Lagrange sum is the sum of the basis values.
proof fn lemma_lagrange_sum_ones(xs: Seq<Scalar>, vals: Seq<nat>, tau: nat, k: int)
    requires
        0 <= k <= vals.len(),
        forall|i: int| 0 <= i < vals.len() ==> #[trigger] vals[i] == 1,
    ensures
        lagrange_sum(xs, vals, tau, k) == lagrange_total(xs, tau, k),
    decreases k,
{
    if k > 0 {
        lemma_lagrange_sum_ones(xs, vals, tau, k - 1);
        let l = lagrange_coefficient(xs, k - 1, tau);
        assert(vals[k - 1] == 1);
        lemma_small(l);
        lemma_small_mod(1, modulus());
        lemma_fmul_is(l, 1, l as int, 1);
    }
}

/// The basis values at any `tau` sum to one, for points whose denominators
/// are invertible (which holds for distinct points in a field).
pub proof fn lemma_lagrange_sum_to_one(xs: Seq<Scalar>, tau: nat)
    requires
        xs.len() >= 1,
        forall|i: int| 0 <= i < xs.len() ==> #[trigger] invertible(lagrange_den(xs, i)),
    ensures
        lagrange_total(xs, tau, xs.len() as int) == 1,
{
    let one = seq![1nat];
    assert forall|x: nat| #[trigger] poly_eval(one, x, 1) == 1 by {
        assert(poly_eval(one, x, 0) == 0);
        assert(coef(one, 0) == 1);
        lemma_small_mod(1, modulus());
        lemma_small_mod(0, modulus());
        lemma_fmul_is(1, 1, 1, 1);
        lemma_fadd_is(0, 1, 0, 1);
        assert(poly_eval(one, x, 1) == fadd(0, fmul(1, 1)));
    }
    let vals = values_at(one, xs);
    assert forall|i: int| 0 <= i < vals.len() implies #[trigger] vals[i] == 1 by {
        assert(vals[i] == poly_eval(one, xs[i].value(), 1));
    }
    lemma_lagrange_interpolates(xs, one, tau);
    lemma_lagrange_sum_ones(xs, vals, tau, xs.len() as int);
}

} // verus!
