//! Elements of the BLS12-381 scalar field, held as four little-endian
//! 64-bit limbs, and the field operations on them.

use vstd::prelude::*;
use ark_bls12_381::Fr;
use ark_ff::{BigInteger256, Field, PrimeField, UniformRand};
use ark_serialize::{CanonicalDeserialize, CanonicalSerialize};
use ark_std::rand::rngs::StdRng;
use num_bigint::BigUint;

verus! {

/// The order of the BLS12-381 scalar field.
pub open spec fn modulus() -> nat {
    52435875175126190479447740508185965837690552500527637822603658699938581184513nat
}

/// Field addition on canonical representatives.
pub open spec fn fadd(a: nat, b: nat) -> nat {
    (a + b) % modulus()
}

/// Field subtraction on canonical representatives.
pub open spec fn fsub(a: nat, b: nat) -> nat {
    ((a - b) % (modulus() as int)) as nat
}

/// Field multiplication on canonical representatives.
pub open spec fn fmul(a: nat, b: nat) -> nat {
    (a * b) % modulus()
}

/// A field element, stored as the little-endian limbs of its canonical
/// representative.
#[derive(Clone, Copy, Debug, PartialEq, Eq, Structural)]
pub struct Scalar {
    pub l0: u64,
    pub l1: u64,
    pub l2: u64,
    pub l3: u64,
}

impl Scalar {
    /// The integer that the limbs spell.
    pub open spec fn value(self) -> nat {
        self.l0 as nat + self.l1 as nat * 0x1_0000_0000_0000_0000nat
            + self.l2 as nat * 0x1_0000_0000_0000_0000_0000_0000_0000_0000nat
            + self.l3 as nat * 0x1_0000_0000_0000_0000_0000_0000_0000_0000_0000_0000_0000_0000nat
    }

    /// The limbs hold a canonical representative, below the modulus.
    pub open spec fn wf(self) -> bool {
        self.value() < modulus()
    }

    /// Whether the limbs hold a canonical representative: compares them with
    /// the modulus' limbs, most significant first.
    pub fn is_canonical(&self) -> (r: bool)
        ensures
            r == self.wf(),
    {
        if self.l3 != 0x73eda753299d7d48 {
            return self.l3 < 0x73eda753299d7d48;
        }
        if self.l2 != 0x3339d80809a1d805 {
            return self.l2 < 0x3339d80809a1d805;
        }
        if self.l1 != 0x53bda402fffe5bfe {
            return self.l1 < 0x53bda402fffe5bfe;
        }
        self.l0 < 0xffffffff00000001
    }

    /// The field element with the given small value.
    pub fn from_u64(v: u64) -> (r: Scalar)
        ensures
            r.wf(),
            r.value() == v,
    {
        Scalar { l0: v, l1: 0, l2: 0, l3: 0 }
    }
}

/// `Fr::add` on canonical representatives: the sum modulo the field order.
#[verifier::external_body]
pub(crate) fn fr_add(a: &Scalar, b: &Scalar) -> (r: Scalar)
    requires
        a.wf(),
        b.wf(),
    ensures
        r.wf(),
        r.value() == fadd(a.value(), b.value()),
{
    let x = Fr::from_repr(BigInteger256([a.l0, a.l1, a.l2, a.l3])).unwrap();
    let y = Fr::from_repr(BigInteger256([b.l0, b.l1, b.l2, b.l3])).unwrap();
    let z = (x + y).into_repr().0;
    Scalar { l0: z[0], l1: z[1], l2: z[2], l3: z[3] }
}


/// `Fr::sub` on canonical representatives: the difference modulo the field
/// order.
#[verifier::external_body]
pub(crate) fn fr_sub(a: &Scalar, b: &Scalar) -> (r: Scalar)
    requires
        a.wf(),
        b.wf(),
    ensures
        r.wf(),
        r.value() == fsub(a.value(), b.value()),
{
    let x = Fr::from_repr(BigInteger256([a.l0, a.l1, a.l2, a.l3])).unwrap();
    let y = Fr::from_repr(BigInteger256([b.l0, b.l1, b.l2, b.l3])).unwrap();
    let z = (x - y).into_repr().0;
    Scalar { l0: z[0], l1: z[1], l2: z[2], l3: z[3] }
}

/// `Fr::mul` on canonical representatives: the product modulo the field
/// order.
#[verifier::external_body]
pub(crate) fn fr_mul(a: &Scalar, b: &Scalar) -> (r: Scalar)
    requires
        a.wf(),
        b.wf(),
    ensures
        r.wf(),
        r.value() == fmul(a.value(), b.value()),
{
    let x = Fr::from_repr(BigInteger256([a.l0, a.l1, a.l2, a.l3])).unwrap();
    let y = Fr::from_repr(BigInteger256([b.l0, b.l1, b.l2, b.l3])).unwrap();
    let z = (x * y).into_repr().0;
    Scalar { l0: z[0], l1: z[1], l2: z[2], l3: z[3] }
}

/// `Field::inverse` of `Fr`: `None` exactly for zero, otherwise an element
/// whose product with the argument is one.
#[verifier::external_body]
pub(crate) fn fr_inverse(a: &Scalar) -> (r: Option<Scalar>)
    requires
        a.wf(),
    ensures
        r is None <==> a.value() == 0,
        r matches Some(v) ==> v.wf() && fmul(a.value(), v.value()) == 1,
{
    let x = Fr::from_repr(BigInteger256([a.l0, a.l1, a.l2, a.l3])).unwrap();
    match x.inverse() {
        Some(y) => {
            let z = y.into_repr().0;
            Some(Scalar { l0: z[0], l1: z[1], l2: z[2], l3: z[3] })
        },
        None => None,
    }
}

/// The random number generator that field elements and points are drawn
/// from.
#[verifier::external_type_specification]
#[verifier::external_body]
pub struct ExStdRng(StdRng);

/// `UniformRand::rand` for `Fr`: some field element drawn from `rng`.
/// Nothing is stated of which one.
#[verifier::external_body]
pub(crate) fn random_scalar(rng: &mut StdRng) -> (r: Scalar)
    ensures
        r.wf(),
{
    let z = Fr::rand(rng).into_repr().0;
    Scalar { l0: z[0], l1: z[1], l2: z[2], l3: z[3] }
}

/// The integer that a big-endian byte string spells.
pub open spec fn be_value(bytes: Seq<u8>) -> nat
    decreases bytes.len(),
{
    if bytes.len() == 0 {
        0
    } else {
        be_value(bytes.drop_last()) * 256 + bytes.last() as nat
    }
}

/// The integer that a little-endian byte string spells.
pub open spec fn le_value(bytes: Seq<u8>) -> nat
    decreases bytes.len(),
{
    if bytes.len() == 0 {
        0
    } else {
        bytes[0] as nat + 256 * le_value(bytes.drop_first())
    }
}

/// `Fr::from(BigUint::from_bytes_be(bytes))`: the big-endian integer that
/// the bytes spell, reduced modulo the field order.
#[verifier::external_body]
pub(crate) fn scalar_from_be_bytes(bytes: &[u8]) -> (r: Scalar)
    ensures
        r.wf(),
        r.value() == be_value(bytes@) % modulus(),
{
    let z = Fr::from(BigUint::from_bytes_be(bytes)).into_repr().0;
    Scalar { l0: z[0], l1: z[1], l2: z[2], l3: z[3] }
}

/// The lowest `len` bytes of `n`, least significant first.
pub open spec fn le_bytes(n: nat, len: nat) -> Seq<u8>
    decreases len,
{
    if len == 0 {
        Seq::empty()
    } else {
        seq![(n % 256) as u8] + le_bytes(n / 256, (len - 1) as nat)
    }
}

/// `CanonicalSerialize::serialize_uncompressed` of `Fr`: the canonical
/// representative as 32 little-endian bytes.
#[verifier::external_body]
pub(crate) fn encode_scalar(a: &Scalar) -> (r: Vec<u8>)
    requires
        a.wf(),
    ensures
        r@ == le_bytes(a.value(), 32),
{
    let x = Fr::from_repr(BigInteger256([a.l0, a.l1, a.l2, a.l3])).unwrap();
    let mut bytes = Vec::new();
    x.serialize_uncompressed(&mut bytes).unwrap();
    bytes
}

/// `CanonicalDeserialize::deserialize_uncompressed` of `Fr`: reads the first
/// 32 bytes as a little-endian integer and accepts it when it is below the
/// field order.
#[verifier::external_body]
pub(crate) fn scalar_from_bytes(bytes: &[u8]) -> (r: Option<Scalar>)
    ensures
        r is Some <==> (bytes@.len() >= 32 && le_value(bytes@.take(32)) < modulus()),
        r matches Some(v) ==> v.value() == le_value(bytes@.take(32)),
{
    match Fr::deserialize_uncompressed(bytes) {
        Ok(x) => {
            let z = x.into_repr().0;
            Some(Scalar { l0: z[0], l1: z[1], l2: z[2], l3: z[3] })
        },
        Err(_) => None,
    }
}

/// `256` to the power `len`.
pub open spec fn pow256(len: nat) -> nat
    decreases len,
{
    if len == 0 {
        1
    } else {
        256 * pow256((len - 1) as nat)
    }
}

/// Little-endian bytes spell back the integer they were taken from.
pub proof fn lemma_le_bytes_value(n: nat, len: nat)
    requires
        n < pow256(len),
    ensures
        le_bytes(n, len).len() == len,
        le_value(le_bytes(n, len)) == n,
    decreases len,
{
    if len > 0 {
        let q = n / 256;
        let r = n % 256;
        assert(n == 256 * q + r && r < 256) by (nonlinear_arith)
            requires
                q == n / 256,
                r == n % 256;
        assert(q < pow256((len - 1) as nat)) by (nonlinear_arith)
            requires
                n == 256 * q + r,
                r < 256,
                n < 256 * pow256((len - 1) as nat);
        lemma_le_bytes_value(q, (len - 1) as nat);
        let b = le_bytes(n, len);
        assert(b.drop_first() =~= le_bytes(q, (len - 1) as nat));
    }
}

/// The field order is below `256^32`.
pub proof fn lemma_modulus_fits_32_bytes()
    ensures
        modulus() < pow256(32),
{
    reveal_with_fuel(pow256, 33);
}

} // verus!
