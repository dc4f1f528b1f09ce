//! (n, n) additive secret sharing and Beaver multiplication triples.

use vstd::prelude::*;
use vstd::arithmetic::div_mod::{lemma_add_mod_noop_right, lemma_small_mod};
use ark_std::rand::rngs::StdRng;
use crate::field::{Scalar, modulus, fadd, fsub, fmul, fr_add, fr_sub, fr_mul, random_scalar};
use crate::interpolation::all_wf;
use crate::poly::{order, lemma_fadd_is, lemma_reduced};

verus! {

/// The sum in the field of the values in `s`, added from the front.
pub open spec fn sum_values(s: Seq<Scalar>) -> nat
    decreases s.len(),
{
    if s.len() == 0 {
        0
    } else {
        fadd(sum_values(s.drop_last()), s.last().value())
    }
}

/// Shares whose sum in the field is the shared secret.
#[derive(Clone, Debug)]
pub struct AdditiveShares {
    pub shares: Vec<Scalar>,
}

impl AdditiveShares {
    /// Every share is a canonical field element.
    pub open spec fn wf(&self) -> bool {
        all_wf(self.shares@)
    }

    /// The secret that the shares stand for.
    pub open spec fn secret(&self) -> nat {
        sum_values(self.shares@)
    }

    /// Adds up the shares, recovering the secret.
    pub fn reconstruct(&self) -> (r: Scalar)
        requires
            self.wf(),
        ensures
            r.wf(),
            r.value() == self.secret(),
    {
        let mut acc = Scalar::from_u64(0);
        let mut k: usize = 0;
        while k < self.shares.len()
            invariant
                self.wf(),
                k <= self.shares@.len(),
                acc.wf(),
                acc.value() == sum_values(self.shares@.take(k as int)),
            decreases self.shares.len() - k,
        {
            assert(self.shares@.take(k as int + 1).drop_last() =~= self.shares@.take(k as int));
            assert(self.shares@[k as int].wf());
            acc = fr_add(&acc, &self.shares[k]);
            k = k + 1;
        }
        assert(self.shares@.take(k as int) =~= self.shares@);
        acc
    }

    /// The number of shares.
    pub fn len(&self) -> (r: usize)
        ensures
            r == self.shares@.len(),
    {
        self.shares.len()
    }
}

/// The shares of a Beaver triple `(a, b, c)` with `c = a * b`.
#[derive(Clone, Debug)]
pub struct BeaverTripleShares {
    pub a: AdditiveShares,
    pub b: AdditiveShares,
    pub c: AdditiveShares,
}

/// Adding the difference `s - t` to `t` gives back `s`, for a canonical `s`.
proof fn lemma_add_back_difference(t: nat, s: nat)
    requires
        s < modulus(),
    ensures
        fadd(t, fsub(s, t)) == s,
{
    let p = modulus() as int;
    lemma_add_mod_noop_right(t as int, s - t, p);
    lemma_small_mod(s, modulus());
}

/// Completes `randomness` with the one share that makes the sum equal to
/// `secret`.
pub fn shares_from_randomness(secret: Scalar, randomness: Vec<Scalar>) -> (r: AdditiveShares)
    requires
        secret.wf(),
        all_wf(randomness@),
    ensures
        r.wf(),
        r.shares@.len() == randomness@.len() + 1,
        r.shares@.drop_last() == randomness@,
        r.shares@.last().value() == fsub(secret.value(), sum_values(randomness@)),
        r.secret() == secret.value(),
{
    let mut shares = randomness;
    let ghost rand = shares@;
    let mut sum = Scalar::from_u64(0);
    let mut k: usize = 0;
    while k < shares.len()
        invariant
            shares@ == rand,
            all_wf(rand),
            k <= rand.len(),
            sum.wf(),
            sum.value() == sum_values(rand.take(k as int)),
        decreases shares.len() - k,
    {
        assert(rand.take(k as int + 1).drop_last() =~= rand.take(k as int));
        assert(rand[k as int].wf());
        sum = fr_add(&sum, &shares[k]);
        k = k + 1;
    }
    assert(rand.take(k as int) =~= rand);
    let last = fr_sub(&secret, &sum);
    shares.push(last);
    proof {
        assert(shares@.drop_last() =~= rand);
        lemma_add_back_difference(sum.value(), secret.value());
    }
    AdditiveShares { shares }
}

/// Shares `secret` among `thres_num` parties: all shares but the last are
/// drawn at random, the last one makes the sum equal to `secret`.
pub fn share_secret_n_n(secret: Scalar, thres_num: usize, rng: &mut StdRng) -> (r: AdditiveShares)
    requires
        secret.wf(),
        thres_num >= 1,
    ensures
        r.wf(),
        r.shares@.len() == thres_num,
        r.shares@.last().value() == fsub(secret.value(), sum_values(r.shares@.drop_last())),
        r.secret() == secret.value(),
        thres_num == 1 ==> *final(rng) == *old(rng),
{
    let mut randomness: Vec<Scalar> = Vec::new();
    let mut k: usize = 0;
    while k < thres_num - 1
        invariant
            thres_num >= 1,
            k <= thres_num - 1,
            randomness@.len() == k,
            all_wf(randomness@),
            thres_num == 1 ==> *rng == *old(rng),
        decreases thres_num - 1 - k,
    {
        let s = random_scalar(rng);
        randomness.push(s);
        k = k + 1;
    }
    shares_from_randomness(secret, randomness)
}

/// A trusted dealer draws `a` and `b` at random, sets `c = a * b`, and
/// shares each of them among `thres_num` parties.
pub fn gen_beaver_triple_n_n(thres_num: usize, rng: &mut StdRng) -> (r: BeaverTripleShares)
    requires
        thres_num >= 1,
    ensures
        r.a.wf(),
        r.b.wf(),
        r.c.wf(),
        r.a.shares@.len() == thres_num,
        r.b.shares@.len() == thres_num,
        r.c.shares@.len() == thres_num,
        r.a.secret() < modulus(),
        r.b.secret() < modulus(),
        r.c.secret() == fmul(r.a.secret(), r.b.secret()),
{
    let a = random_scalar(rng);
    let b = random_scalar(rng);
    let c = fr_mul(&a, &b);
    BeaverTripleShares {
        a: share_secret_n_n(a, thres_num, rng),
        b: share_secret_n_n(b, thres_num, rng),
        c: share_secret_n_n(c, thres_num, rng),
    }
}


/// The plain integer sum of the shares' values.
pub open spec fn int_sum(s: Seq<Scalar>) -> int
    decreases s.len(),
{
    if s.len() == 0 {
        0
    } else {
        int_sum(s.drop_last()) + s.last().value()
    }
}

/// The secret that shares stand for is the integer sum of their values
/// reduced modulo the field order.
pub proof fn lemma_sum_values_is_sum(s: Seq<Scalar>)
    ensures
        sum_values(s) as int == int_sum(s) % order(),
    decreases s.len(),
{
    if s.len() == 0 {
        lemma_small_mod(0, modulus());
    } else {
        lemma_sum_values_is_sum(s.drop_last());
        let v = s.last().value();
        lemma_reduced(int_sum(s.drop_last()));
        lemma_fadd_is(sum_values(s.drop_last()), v, int_sum(s.drop_last()), v as int);
    }
}

} // verus!
