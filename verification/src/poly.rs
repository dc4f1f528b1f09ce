//! Polynomials over the BLS12-381 scalar field, by their coefficients
//! (lowest degree first), and the algebra of their values.

use vstd::prelude::*;
use vstd::arithmetic::div_mod::{lemma_add_mod_noop, lemma_mul_mod_noop, lemma_mod_twice, lemma_small_mod};
use crate::field::{modulus, fadd, fsub, fmul};
use vstd::arithmetic::power::pow;

verus! {

/// `gamma` to the power `k` in the field.
pub open spec fn fpow(gamma: nat, k: nat) -> nat
    decreases k,
{
    if k == 0 {
        1
    } else {
        fmul(fpow(gamma, (k - 1) as nat), gamma)
    }
}

/// The coefficient of degree `i`: zero beyond the given ones.
pub open spec fn coef(c: Seq<nat>, i: int) -> nat {
    if 0 <= i < c.len() {
        c[i]
    } else {
        0
    }
}

/// The polynomial with coefficients `c` (lowest first), cut to its first
/// `n` terms, evaluated at `x` in the field.
pub open spec fn poly_eval(c: Seq<nat>, x: nat, n: nat) -> nat
    decreases n,
{
    if n == 0 {
        0
    } else {
        fadd(poly_eval(c, x, (n - 1) as nat), fmul(fpow(x, (n - 1) as nat), coef(c, n - 1)))
    }
}

/// The coefficients of the sum of two polynomials.
pub open spec fn coeffs_sum(a: Seq<nat>, b: Seq<nat>) -> Seq<nat> {
    Seq::new(
        if a.len() >= b.len() { a.len() } else { b.len() },
        |i: int| fadd(coef(a, i), coef(b, i)),
    )
}

/// The coefficients of `k` times a polynomial.
pub open spec fn coeffs_scale(k: nat, a: Seq<nat>) -> Seq<nat> {
    a.map_values(|v: nat| fmul(k, v))
}

/// Sums are congruent when their terms are.
pub proof fn lemma_congruent_add(a: int, b: int, a2: int, b2: int)
    requires
        a % (modulus() as int) == a2 % (modulus() as int),
        b % (modulus() as int) == b2 % (modulus() as int),
    ensures
        (a + b) % (modulus() as int) == (a2 + b2) % (modulus() as int),
{
    let m = modulus() as int;
    lemma_add_mod_noop(a, b, m);
    lemma_add_mod_noop(a2, b2, m);
}

/// Products are congruent when their factors are.
pub proof fn lemma_congruent_mul(a: int, b: int, a2: int, b2: int)
    requires
        a % (modulus() as int) == a2 % (modulus() as int),
        b % (modulus() as int) == b2 % (modulus() as int),
    ensures
        (a * b) % (modulus() as int) == (a2 * b2) % (modulus() as int),
{
    let m = modulus() as int;
    lemma_mul_mod_noop(a, b, m);
    lemma_mul_mod_noop(a2, b2, m);
}

/// A value reduced modulo the field order is congruent to itself.
pub proof fn lemma_reduced(a: int)
    ensures
        (a % (modulus() as int)) % (modulus() as int) == a % (modulus() as int),
{
    lemma_mod_twice(a, modulus() as int);
}

/// Evaluations are below the field order.
pub proof fn lemma_poly_eval_reduced(c: Seq<nat>, x: nat, n: nat)
    ensures
        poly_eval(c, x, n) < modulus(),
{
}

/// Terms past the last coefficient add nothing.
pub proof fn lemma_poly_eval_extend(c: Seq<nat>, x: nat, n: nat)
    requires
        n >= c.len(),
    ensures
        poly_eval(c, x, n) == poly_eval(c, x, c.len()),
    decreases n,
{
    if n > c.len() {
        lemma_poly_eval_extend(c, x, (n - 1) as nat);
        let e = poly_eval(c, x, (n - 1) as nat);
        let p = fpow(x, (n - 1) as nat);
        assert(p * 0 == 0) by (nonlinear_arith);
        lemma_small_mod(e, modulus());
    }
}

/// Evaluation is additive in the coefficients.
pub proof fn lemma_poly_eval_add(a: Seq<nat>, b: Seq<nat>, x: nat, n: nat)
    ensures
        poly_eval(coeffs_sum(a, b), x, n) == fadd(poly_eval(a, x, n), poly_eval(b, x, n)),
    decreases n,
{
    let m = modulus() as int;
    if n == 0 {
        assert(fadd(0, 0) == 0);
    } else {
        let k = (n - 1) as nat;
        lemma_poly_eval_add(a, b, x, k);
        let ea = poly_eval(a, x, k) as int;
        let eb = poly_eval(b, x, k) as int;
        let p = fpow(x, k) as int;
        let ca = coef(a, k as int) as int;
        let cb = coef(b, k as int) as int;
        assert(coef(coeffs_sum(a, b), k as int) == fadd(ca as nat, cb as nat));
        // left: ((ea + eb) % m + (p * ((ca + cb) % m)) % m) % m
        lemma_reduced(ea + eb);
        lemma_reduced(ca + cb);
        lemma_congruent_mul(p, (ca + cb) % m, p, ca + cb);
        lemma_reduced(p * ((ca + cb) % m));
        lemma_congruent_add((ea + eb) % m, (p * ((ca + cb) % m)) % m, ea + eb, p * (ca + cb));
        // right: ((ea + (p * ca) % m) % m + (eb + (p * cb) % m) % m) % m
        lemma_reduced(p * ca);
        lemma_reduced(p * cb);
        lemma_congruent_add(ea, (p * ca) % m, ea, p * ca);
        lemma_congruent_add(eb, (p * cb) % m, eb, p * cb);
        lemma_reduced(ea + (p * ca) % m);
        lemma_reduced(eb + (p * cb) % m);
        lemma_congruent_add((ea + (p * ca) % m) % m, (eb + (p * cb) % m) % m, ea + p * ca, eb + p * cb);
        assert(p * (ca + cb) == p * ca + p * cb) by (nonlinear_arith);
        assert(ea + eb + p * (ca + cb) == (ea + p * ca) + (eb + p * cb));
    }
}

/// Evaluation commutes with scaling the coefficients.
pub proof fn lemma_poly_eval_scale(k: nat, a: Seq<nat>, x: nat, n: nat)
    ensures
        poly_eval(coeffs_scale(k, a), x, n) == fmul(k, poly_eval(a, x, n)),
    decreases n,
{
    let m = modulus() as int;
    if n == 0 {
        assert(k * 0 == 0) by (nonlinear_arith);
    } else {
        let j = (n - 1) as nat;
        lemma_poly_eval_scale(k, a, x, j);
        let e = poly_eval(a, x, j) as int;
        let p = fpow(x, j) as int;
        let c = coef(a, j as int) as int;
        let ki = k as int;
        if j < a.len() {
            assert(coef(coeffs_scale(k, a), j as int) == fmul(k, c as nat));
        } else {
            assert(coef(coeffs_scale(k, a), j as int) == 0);
            assert(c == 0);
            assert(ki * 0 == 0) by (nonlinear_arith);
            lemma_small_mod(0, modulus());
        }
        assert(coef(coeffs_scale(k, a), j as int) == fmul(k, c as nat));
        // left: ((ki * e) % m + (p * ((ki * c) % m)) % m) % m
        lemma_reduced(ki * e);
        lemma_reduced(ki * c);
        lemma_congruent_mul(p, (ki * c) % m, p, ki * c);
        lemma_reduced(p * ((ki * c) % m));
        lemma_congruent_add((ki * e) % m, (p * ((ki * c) % m)) % m, ki * e, p * (ki * c));
        // right: (ki * ((e + (p * c) % m) % m)) % m
        lemma_reduced(p * c);
        lemma_congruent_add(e, (p * c) % m, e, p * c);
        lemma_reduced(e + (p * c) % m);
        lemma_congruent_mul(ki, (e + (p * c) % m) % m, ki, e + p * c);
        assert(ki * e + p * (ki * c) == ki * (e + p * c)) by (nonlinear_arith);
    }
}


/// The field order as an integer.
pub open spec fn order() -> int {
    modulus() as int
}

/// A field sum is the reduced integer sum of anything congruent to its
/// terms.
pub proof fn lemma_fadd_is(a: nat, b: nat, x: int, y: int)
    requires
        (a as int) % order() == x % order(),
        (b as int) % order() == y % order(),
    ensures
        fadd(a, b) as int == (x + y) % order(),
        (fadd(a, b) as int) % order() == (x + y) % order(),
{
    lemma_congruent_add(a as int, b as int, x, y);
    lemma_reduced(x + y);
}

/// A field product is the reduced integer product of anything congruent to
/// its factors.
pub proof fn lemma_fmul_is(a: nat, b: nat, x: int, y: int)
    requires
        (a as int) % order() == x % order(),
        (b as int) % order() == y % order(),
    ensures
        fmul(a, b) as int == (x * y) % order(),
        (fmul(a, b) as int) % order() == (x * y) % order(),
{
    lemma_congruent_mul(a as int, b as int, x, y);
    lemma_reduced(x * y);
}

/// A field difference is the reduced integer difference of anything
/// congruent to its terms.
pub proof fn lemma_fsub_is(a: nat, b: nat, x: int, y: int)
    requires
        (a as int) % order() == x % order(),
        (b as int) % order() == y % order(),
    ensures
        fsub(a, b) as int == (x - y) % order(),
        (fsub(a, b) as int) % order() == (x - y) % order(),
{
    lemma_congruent_mul(-1, b as int, -1, y);
    lemma_congruent_add(a as int, -1 * b, x, -1 * y);
    assert(a + -1 * b == a - b);
    assert(x + -1 * y == x - y);
    lemma_reduced(x - y);
}

/// A value below the field order is its own residue.
pub proof fn lemma_small(a: nat)
    requires
        a < modulus(),
    ensures
        (a as int) % order() == a as int,
{
    lemma_small_mod(a, modulus());
}

/// Powers are field values.
pub proof fn lemma_fpow_reduced(x: nat, k: nat)
    ensures
        fpow(x, k) < modulus(),
{
}

/// Two coefficient sequences that agree below `n` evaluate alike to `n`
/// terms.
pub proof fn lemma_poly_eval_congr(a: Seq<nat>, b: Seq<nat>, x: nat, n: nat)
    requires
        forall|i: int| 0 <= i < n ==> coef(a, i) == coef(b, i),
    ensures
        poly_eval(a, x, n) == poly_eval(b, x, n),
    decreases n,
{
    if n > 0 {
        lemma_poly_eval_congr(a, b, x, (n - 1) as nat);
        assert(coef(a, n - 1) == coef(b, n - 1));
    }
}

/// The negation of `a` in the field.
pub open spec fn fneg(a: nat) -> nat {
    fsub(0, a)
}

/// The coefficients of `x` times a polynomial.
pub open spec fn shift(c: Seq<nat>) -> Seq<nat> {
    seq![0nat] + c
}

/// The coefficients of `(x - a)` times a polynomial.
pub open spec fn mul_linear(c: Seq<nat>, a: nat) -> Seq<nat> {
    coeffs_sum(shift(c), coeffs_scale(fneg(a), c))
}

/// Multiplying the coefficients up by one degree multiplies the value by
/// `x`.
pub proof fn lemma_poly_eval_shift(c: Seq<nat>, x: nat, n: nat)
    ensures
        poly_eval(shift(c), x, n + 1) == fmul(x, poly_eval(c, x, n)),
    decreases n,
{
    if n == 0 {
        assert(coef(shift(c), 0) == 0);
        assert(fpow(x, 0) * 0 == 0) by (nonlinear_arith);
        assert(x * 0 == 0) by (nonlinear_arith);
        lemma_small_mod(0, modulus());
        assert(poly_eval(shift(c), x, 0) == 0);
        assert(fpow(x, 0) == 1);
        assert(fmul(1, 0) == 0);
        assert(fadd(0, 0) == 0);
        assert(poly_eval(shift(c), x, 1) == fadd(0, fmul(fpow(x, 0), coef(shift(c), 0))));
        assert(poly_eval(shift(c), x, 1) == 0);
        assert(fmul(x, 0) == 0);
    } else {
        let k = (n - 1) as nat;
        lemma_poly_eval_shift(c, x, k);
        let e = poly_eval(c, x, k) as int;
        let p = fpow(x, k) as int;
        let cc = coef(c, k as int) as int;
        let xi = x as int;
        assert(coef(shift(c), n as int) == cc);
        lemma_poly_eval_reduced(c, x, k);
        lemma_fpow_reduced(x, k);
        lemma_small(e as nat);
        lemma_small(p as nat);
        lemma_fmul_is(x, e as nat, xi, e);
        lemma_fmul_is(p as nat, x, p, xi);
        lemma_fmul_is(fmul(p as nat, x), cc as nat, p * xi, cc);
        lemma_fadd_is(fmul(x, e as nat), fmul(fmul(p as nat, x), cc as nat), xi * e, p * xi * cc);
        lemma_fmul_is(p as nat, cc as nat, p, cc);
        lemma_fadd_is(e as nat, fmul(p as nat, cc as nat), e, p * cc);
        lemma_fmul_is(x, fadd(e as nat, fmul(p as nat, cc as nat)), xi, e + p * cc);
        assert(xi * e + p * xi * cc == xi * (e + p * cc)) by (nonlinear_arith);
        assert(fpow(x, n) == fmul(p as nat, x));
        assert(poly_eval(shift(c), x, n) == fmul(x, e as nat));
        assert(poly_eval(shift(c), x, n + 1) == fadd(fmul(x, e as nat), fmul(fmul(p as nat, x), cc as nat)));
        assert(poly_eval(c, x, n) == fadd(e as nat, fmul(p as nat, cc as nat)));
    }
}

/// Multiplying by `(x - a)` multiplies the value by `(x - a)`.
pub proof fn lemma_poly_eval_mul_linear(c: Seq<nat>, a: nat, x: nat)
    ensures
        mul_linear(c, a).len() == c.len() + 1,
        poly_eval(mul_linear(c, a), x, c.len() + 1) == fmul(poly_eval(c, x, c.len()), fsub(x, a)),
{
    let n = c.len();
    let s = shift(c);
    let t = coeffs_scale(fneg(a), c);
    lemma_poly_eval_add(s, t, x, n + 1);
    lemma_poly_eval_shift(c, x, n);
    lemma_poly_eval_extend(t, x, n + 1);
    lemma_poly_eval_scale(fneg(a), c, x, n);
    let e = poly_eval(c, x, n) as int;
    let xi = x as int;
    let ai = a as int;
    lemma_poly_eval_reduced(c, x, n);
    lemma_small(e as nat);
    lemma_fsub_is(0, a, 0, ai);
    lemma_fmul_is(x, e as nat, xi, e);
    lemma_fmul_is(fneg(a), e as nat, 0 - ai, e);
    lemma_fadd_is(fmul(x, e as nat), fmul(fneg(a), e as nat), xi * e, (0 - ai) * e);
    lemma_fsub_is(x, a, xi, ai);
    lemma_fmul_is(e as nat, fsub(x, a), e, xi - ai);
    assert(xi * e + (0 - ai) * e == e * (xi - ai)) by (nonlinear_arith);
}


/// The coefficients of `x^(k-1) + x^(k-2) r + ... + r^(k-1)`.
pub open spec fn geo(r: nat, k: nat) -> Seq<nat>
    decreases k,
{
    if k == 0 {
        Seq::empty()
    } else {
        coeffs_sum(shift(geo(r, (k - 1) as nat)), seq![fpow(r, (k - 1) as nat)])
    }
}

/// `x^k - r^k` is `(x - r)` times the geometric sum.
pub proof fn lemma_geo(r: nat, x: nat, k: nat)
    ensures
        geo(r, k).len() == k,
        fpow(x, k) == fadd(fmul(fsub(x, r), poly_eval(geo(r, k), x, k)), fpow(r, k)),
    decreases k,
{
    let xi = x as int;
    let ri = r as int;
    if k == 0 {
        assert(poly_eval(geo(r, 0), x, 0) == 0);
        lemma_fsub_is(x, r, xi, ri);
        lemma_fmul_is(fsub(x, r), 0, xi - ri, 0);
        assert((xi - ri) * 0 == 0) by (nonlinear_arith);
        lemma_small_mod(0, modulus());
        lemma_small_mod(1, modulus());
        lemma_fadd_is(0, 1, 0, 1);
    } else {
        let j = (k - 1) as nat;
        lemma_geo(r, x, j);
        let g = geo(r, j);
        let top = seq![fpow(r, j)];
        lemma_poly_eval_add(shift(g), top, x, k);
        lemma_poly_eval_shift(g, x, j);
        lemma_poly_eval_extend(top, x, k);
        let rj = fpow(r, j) as int;
        let xj = fpow(x, j) as int;
        lemma_fpow_reduced(r, j);
        lemma_fpow_reduced(x, j);
        lemma_small(rj as nat);
        lemma_small(xj as nat);
        assert(poly_eval(top, x, 0) == 0);
        assert(fpow(x, 0) == 1);
        assert(coef(top, 0) == rj);
        assert(fmul(1, rj as nat) == rj) by {
            lemma_small(rj as nat);
        }
        assert(fadd(0, rj as nat) == rj);
        assert(poly_eval(top, x, 1) == rj);
        let gv = poly_eval(g, x, j) as int;
        lemma_poly_eval_reduced(g, x, j);
        lemma_small(gv as nat);
        let d = fsub(x, r);
        lemma_fsub_is(x, r, xi, ri);
        // previous step: x^j == (x - r) gv + r^j
        lemma_fmul_is(d, gv as nat, xi - ri, gv);
        lemma_fadd_is(fmul(d, gv as nat), rj as nat, (xi - ri) * gv, rj);
        // x^k == x^j * x
        lemma_fmul_is(xj as nat, x, (xi - ri) * gv + rj, xi);
        // new sum: x * gv + r^j
        lemma_fmul_is(x, gv as nat, xi, gv);
        lemma_fadd_is(fmul(x, gv as nat), rj as nat, xi * gv, rj);
        let nv = fadd(fmul(x, gv as nat), rj as nat);
        assert(poly_eval(geo(r, k), x, k) == nv);
        lemma_fmul_is(d, nv, xi - ri, xi * gv + rj);
        lemma_fmul_is(rj as nat, r, rj, ri);
        lemma_fadd_is(fmul(d, nv), fmul(rj as nat, r), (xi - ri) * (xi * gv + rj), rj * ri);
        assert(((xi - ri) * gv + rj) * xi == (xi - ri) * (xi * gv + rj) + rj * ri) by (nonlinear_arith);
        assert(fpow(x, k) == fmul(xj as nat, x));
        assert(fpow(r, k) == fmul(rj as nat, r));
    }
}


/// The quotient of the first `n` terms of `q` by `(x - r)`.
pub open spec fn divide(q: Seq<nat>, r: nat, n: nat) -> Seq<nat>
    decreases n,
{
    if n == 0 {
        Seq::empty()
    } else {
        coeffs_sum(divide(q, r, (n - 1) as nat), coeffs_scale(coef(q, n - 1), geo(r, (n - 1) as nat)))
    }
}

/// Division by `(x - r)` leaves the value at `r` as its remainder.
pub proof fn lemma_divide(q: Seq<nat>, r: nat, x: nat, n: nat)
    ensures
        divide(q, r, n).len() == if n == 0 { 0 } else { n - 1 },
        poly_eval(q, x, n) == fadd(fmul(fsub(x, r), poly_eval(divide(q, r, n), x, n)), poly_eval(q, r, n)),
    decreases n,
{
    let xi = x as int;
    let ri = r as int;
    let d = fsub(x, r);
    lemma_fsub_is(x, r, xi, ri);
    if n == 0 {
        assert(poly_eval(divide(q, r, 0), x, 0) == 0);
        lemma_fmul_is(d, 0, xi - ri, 0);
        assert((xi - ri) * 0 == 0) by (nonlinear_arith);
        lemma_small_mod(0, modulus());
        lemma_fadd_is(0, 0, 0, 0);
    } else {
        let k = (n - 1) as nat;
        lemma_divide(q, r, x, k);
        let dk = divide(q, r, k);
        let c = coef(q, k as int);
        let g = geo(r, k);
        let sg = coeffs_scale(c, g);
        lemma_geo(r, x, k);
        lemma_poly_eval_add(dk, sg, x, n);
        lemma_poly_eval_extend(dk, x, n);
        lemma_poly_eval_extend(dk, x, k);
        lemma_poly_eval_extend(sg, x, n);
        lemma_poly_eval_scale(c, g, x, k);
        let dv = poly_eval(dk, x, k) as int;
        let gv = poly_eval(g, x, k) as int;
        let qx = poly_eval(q, x, k) as int;
        let qr = poly_eval(q, r, k) as int;
        let xk = fpow(x, k) as int;
        let rk = fpow(r, k) as int;
        let ci = c as int;
        lemma_poly_eval_reduced(dk, x, k);
        lemma_poly_eval_reduced(g, x, k);
        lemma_poly_eval_reduced(q, x, k);
        lemma_poly_eval_reduced(q, r, k);
        lemma_fpow_reduced(x, k);
        lemma_fpow_reduced(r, k);
        lemma_small(dv as nat);
        lemma_small(gv as nat);
        lemma_small(qx as nat);
        lemma_small(qr as nat);
        lemma_small(xk as nat);
        lemma_small(rk as nat);
        // q(x, k) == d dv + qr
        lemma_fmul_is(d, dv as nat, xi - ri, dv);
        lemma_fadd_is(fmul(d, dv as nat), qr as nat, (xi - ri) * dv, qr);
        // x^k == d gv + r^k
        lemma_fmul_is(d, gv as nat, xi - ri, gv);
        lemma_fadd_is(fmul(d, gv as nat), rk as nat, (xi - ri) * gv, rk);
        // left side
        lemma_fmul_is(xk as nat, c, (xi - ri) * gv + rk, ci);
        lemma_fadd_is(qx as nat, fmul(xk as nat, c), (xi - ri) * dv + qr, ((xi - ri) * gv + rk) * ci);
        assert(poly_eval(q, x, n) == fadd(qx as nat, fmul(xk as nat, c)));
        // right side
        lemma_fmul_is(c, gv as nat, ci, gv);
        lemma_fadd_is(dv as nat, fmul(c, gv as nat), dv, ci * gv);
        let nv = fadd(dv as nat, fmul(c, gv as nat));
        assert(poly_eval(divide(q, r, n), x, n) == nv);
        lemma_fmul_is(d, nv, xi - ri, dv + ci * gv);
        lemma_fmul_is(rk as nat, c, rk, ci);
        lemma_fadd_is(qr as nat, fmul(rk as nat, c), qr, rk * ci);
        assert(poly_eval(q, r, n) == fadd(qr as nat, fmul(rk as nat, c)));
        lemma_fadd_is(fmul(d, nv), fadd(qr as nat, fmul(rk as nat, c)), (xi - ri) * (dv + ci * gv), qr + rk * ci);
        assert((xi - ri) * dv + qr + ((xi - ri) * gv + rk) * ci == (xi - ri) * (dv + ci * gv) + (qr + rk * ci))
            by (nonlinear_arith);
    }
}


/// `a` has an inverse in the field.
pub open spec fn invertible(a: nat) -> bool {
    exists|v: nat| v < modulus() && fmul(a, v) == 1
}

/// A product with an invertible factor vanishes only when the other factor
/// does.
pub proof fn lemma_cancel(a: nat, y: nat)
    requires
        invertible(a),
        y < modulus(),
        fmul(a, y) == 0,
    ensures
        y == 0,
{
    let v = choose|v: nat| v < modulus() && fmul(a, v) == 1;
    let ai = a as int;
    let yi = y as int;
    let vi = v as int;
    lemma_fmul_is(a, v, ai, vi);
    lemma_fmul_is(a, y, ai, yi);
    lemma_small_mod(1, modulus());
    lemma_small_mod(0, modulus());
    lemma_congruent_mul(yi, ai * vi, yi, 1);
    lemma_congruent_mul(ai * yi, vi, 0, vi);
    assert(yi * (ai * vi) == (ai * yi) * vi) by (nonlinear_arith);
    assert(0 * vi == 0) by (nonlinear_arith);
    lemma_small(y);
}

/// A polynomial with fewer than `n` coefficients that vanishes at `n`
/// points whose differences are all invertible vanishes everywhere.
pub proof fn lemma_vanishing(q: Seq<nat>, pts: Seq<nat>, n: nat)
    requires
        q.len() <= n,
        pts.len() == n,
        forall|j: int, k: int| 0 <= j < n && 0 <= k < n && j != k ==> #[trigger] invertible(fsub(pts[j], pts[k])),
        forall|k: int| 0 <= k < n ==> #[trigger] poly_eval(q, pts[k], n) == 0,
    ensures
        forall|x: nat| #[trigger] poly_eval(q, x, n) == 0,
    decreases n,
{
    if n > 0 {
        let m = (n - 1) as nat;
        let r = pts[m as int];
        let d = divide(q, r, n);
        let pts2 = pts.take(m as int);
        assert forall|k: int| 0 <= k < m implies #[trigger] poly_eval(d, pts2[k], m) == 0 by {
            let p = pts[k];
            assert(pts2[k] == p);
            lemma_divide(q, r, p, n);
            lemma_poly_eval_extend(d, p, n);
            lemma_poly_eval_extend(d, p, m);
            let y = poly_eval(d, p, m);
            lemma_poly_eval_reduced(d, p, m);
            assert(poly_eval(q, r, n) == 0) by {
                assert(pts[m as int] == r);
            }
            assert(poly_eval(q, p, n) == 0);
            let z = fmul(fsub(p, r), y);
            lemma_small(z);
            lemma_small_mod(0, modulus());
            lemma_fadd_is(z, 0, z as int, 0);
            assert(invertible(fsub(pts[k], pts[m as int])));
            lemma_cancel(fsub(p, r), y);
        }
        assert forall|j: int, k: int| 0 <= j < m && 0 <= k < m && j != k implies #[trigger] invertible(
            fsub(pts2[j], pts2[k]),
        ) by {
            assert(pts2[j] == pts[j] && pts2[k] == pts[k]);
            assert(invertible(fsub(pts[j], pts[k])));
        }
        lemma_divide(q, r, r, n);
        lemma_vanishing(d, pts2, m);
        assert forall|x: nat| #[trigger] poly_eval(q, x, n) == 0 by {
            lemma_divide(q, r, x, n);
            lemma_poly_eval_extend(d, x, n);
            lemma_poly_eval_extend(d, x, m);
            assert(poly_eval(d, x, m) == 0);
            assert(poly_eval(q, r, n) == 0) by {
                assert(pts[m as int] == r);
            }
            let di = fsub(x, r) as int;
            lemma_fmul_is(fsub(x, r), 0, di, 0);
            assert(di * 0 == 0) by (nonlinear_arith);
            lemma_small_mod(0, modulus());
            lemma_fadd_is(0, 0, 0, 0);
        }
    }
}


/// Powers in the field are integer powers reduced modulo the field order.
pub proof fn lemma_fpow_is_pow(x: nat, k: nat)
    ensures
        fpow(x, k) as int == pow(x as int, k) % order(),
    decreases k,
{
    reveal(pow);
    if k == 0 {
        lemma_small_mod(1, modulus());
    } else {
        let j = (k - 1) as nat;
        lemma_fpow_is_pow(x, j);
        assert(pow(x as int, k) == x * pow(x as int, j));
        assert(fpow(x, k) == fmul(fpow(x, j), x));
        lemma_reduced(pow(x as int, j));
        lemma_fmul_is(fpow(x, j), x, pow(x as int, j), x as int);
        assert(pow(x as int, j) * x == x * pow(x as int, j)) by (nonlinear_arith);
    }
}

/// The integer value of the first `n` terms of a polynomial.
pub open spec fn int_poly(c: Seq<nat>, x: nat, n: nat) -> int
    decreases n,
{
    if n == 0 {
        0
    } else {
        int_poly(c, x, (n - 1) as nat) + coef(c, n - 1) * pow(x as int, (n - 1) as nat)
    }
}

/// A polynomial's value in the field is the integer sum of its terms
/// `c_i x^i`, reduced modulo the field order.
pub proof fn lemma_poly_eval_is_sum(c: Seq<nat>, x: nat, n: nat)
    ensures
        poly_eval(c, x, n) as int == int_poly(c, x, n) % order(),
    decreases n,
{
    if n == 0 {
        lemma_small_mod(0, modulus());
    } else {
        let j = (n - 1) as nat;
        lemma_poly_eval_is_sum(c, x, j);
        lemma_fpow_is_pow(x, j);
        let cc = coef(c, j as int);
        let pw = pow(x as int, j);
        lemma_reduced(int_poly(c, x, j));
        lemma_reduced(pw);
        lemma_fmul_is(fpow(x, j), cc, pw, cc as int);
        lemma_fadd_is(poly_eval(c, x, j), fmul(fpow(x, j), cc), int_poly(c, x, j), pw * cc);
        assert(pw * cc == cc * pw) by (nonlinear_arith);
    }
}

} // verus!
