//! The device-attestation records: the device's measured state, the
//! verifier's response, the device configuration that feeds the proof
//! circuit, and the evidence that reaches the relying party.

use vstd::prelude::*;
use vstd::string::StringSliceAdditionalSpecFns;
use vstd::utf8::encode_utf8;
use vstd::seq_lib::lemma_concat_associative;
use ark_bls12_381::Fr;
use ark_ff::{BigInteger256, PrimeField};
use arkworks_native_gadgets::poseidon::{FieldHasher, Poseidon, PoseidonParameters};
use arkworks_native_gadgets::poseidon::sbox::PoseidonSbox;
use arkworks_utils::{bytes_matrix_to_f, bytes_vec_to_f, Curve};
use arkworks_utils::poseidon_params::setup_poseidon_params;
use crate::field::{Scalar, modulus, be_value, le_bytes, le_value, scalar_from_be_bytes, encode_scalar,
    lemma_modulus_fits_32_bytes, lemma_le_bytes_value};
use crate::interpolation::all_wf;
use crate::poseidon_constants::{bls381_x5_3_round_keys, bls381_x5_3_mds};
use crate::codec::{u64_from_be, lemma_u64_bytes_roundtrip, scalar_values, lemma_field_same_name_injective, Duration, u64_be_bytes, field_enc, push_u64_be, push_all, append_field};
use crate::keys::{SigningKey, VerifyingKey, Signature, Groth16Proof, Groth16VerifyingKey,
    secp256k1_public_key, ecdsa_sign, signature_der, random_signing_key, verifying_key_of,
    sign_message, encode_signature};

verus! {

/// `FieldHasher::hash` of arkworks-native-gadgets' `Poseidon` on the two
/// inputs `a` and `b`, under the parameters given by the round constants,
/// the MDS matrix, the numbers of full and partial rounds, the width and
/// the S-box exponent.
pub uninterp spec fn poseidon_hash2(
    round_keys: Seq<nat>,
    mds: Seq<Seq<nat>>,
    full_rounds: nat,
    partial_rounds: nat,
    width: nat,
    exp: int,
    a: nat,
    b: nat,
) -> nat;

/// The parameters of a Poseidon hash over the BLS12-381 scalar field: the
/// round constants, the MDS matrix, the numbers of full and partial rounds,
/// the width (inputs plus one) and the S-box exponent.
pub struct PoseidonHasher {
    pub round_keys: Vec<Scalar>,
    pub mds_matrix: Vec<Vec<Scalar>>,
    pub full_rounds: u8,
    pub partial_rounds: u8,
    pub width: u8,
    pub exp: i8,
}

impl PoseidonHasher {
    /// Parameters with which hashing two inputs cannot fail: a width of at
    /// least three, a round constant for every state entry of every round, a
    /// square MDS matrix covering the state, and an exponent of 3, 5 or 17.
    pub open spec fn wf(&self) -> bool {
        &&& self.width >= 3
        &&& all_wf(self.round_keys@)
        &&& self.round_keys@.len() >= (self.full_rounds + self.partial_rounds) * self.width
        &&& self.mds_matrix@.len() >= self.width
        &&& forall|i: int| 0 <= i < self.mds_matrix@.len() ==> {
            &&& #[trigger] self.mds_matrix@[i]@.len() >= self.width
            &&& all_wf(self.mds_matrix@[i]@)
        }
        &&& (self.exp == 3 || self.exp == 5 || self.exp == 17)
    }

    /// The MDS matrix as values.
    pub open spec fn mds_values(&self) -> Seq<Seq<nat>> {
        self.mds_matrix@.map_values(|row: Vec<Scalar>| scalar_values(row@))
    }

    /// The hash of `a` and `b` under these parameters.
    pub open spec fn hash_spec(&self, a: nat, b: nat) -> nat {
        poseidon_hash2(
            scalar_values(self.round_keys@),
            self.mds_values(),
            self.full_rounds as nat,
            self.partial_rounds as nat,
            self.width as nat,
            self.exp as int,
            a,
            b,
        )
    }

    /// The parameters for hashing two inputs over BLS12-381 with S-box
    /// `x^5`: 8 full and 57 partial rounds, width 3, and the published round
    /// constants and MDS matrix.
    pub fn new() -> (r: PoseidonHasher)
        ensures
            r.wf(),
            r.full_rounds == 8,
            r.partial_rounds == 57,
            r.width == 3,
            r.exp == 5,
            r.round_keys@.len() == 195,
            r.mds_matrix@.len() == 3,
            scalar_values(r.round_keys@) == bls381_x5_3_round_keys(),
            r.mds_values() == bls381_x5_3_mds(),
    {
        Self::bls381_x5_3()
    }

    /// `setup_poseidon_params(Curve::Bls381, 5, 3)` of arkworks-utils, its
    /// hex constants read as field elements (`bytes_vec_to_f`,
    /// `bytes_matrix_to_f`): 8 full and 57 partial rounds, width 3, S-box
    /// `x^5`, and the 195 round constants and 3 by 3 MDS matrix of
    /// `bls381_x5_3.rs` (all below the field order, so read unchanged).
    #[verifier::external_body]
    fn bls381_x5_3() -> (r: PoseidonHasher)
        ensures
            r.wf(),
            r.full_rounds == 8,
            r.partial_rounds == 57,
            r.width == 3,
            r.exp == 5,
            r.round_keys@.len() == 195,
            r.mds_matrix@.len() == 3,
            scalar_values(r.round_keys@) == bls381_x5_3_round_keys(),
            r.mds_values() == bls381_x5_3_mds(),
    {
        let data = setup_poseidon_params(Curve::Bls381, 5, 3).unwrap();
        let s = |x: &Fr| { let z = x.into_repr().0; Scalar { l0: z[0], l1: z[1], l2: z[2], l3: z[3] } };
        let rounds: Vec<Fr> = bytes_vec_to_f(&data.rounds);
        let mds: Vec<Vec<Fr>> = bytes_matrix_to_f(&data.mds);
        PoseidonHasher {
            round_keys: rounds.iter().map(s).collect(),
            mds_matrix: mds.iter().map(|row| row.iter().map(s).collect()).collect(),
            full_rounds: data.full_rounds, partial_rounds: data.partial_rounds, width: data.width, exp: data.exp,
        }
    }

    /// `FieldHasher::hash` of `Poseidon` with these parameters on `[a, b]`.
    /// With a width of at least three two inputs are accepted, every index
    /// into the constants is in range, and the S-box cannot fail.
    #[verifier::external_body]
    pub(crate) fn hash2(&self, a: &Scalar, b: &Scalar) -> (r: Scalar)
        requires
            self.wf(),
            a.wf(),
            b.wf(),
        ensures
            r.wf(),
            r.value() == poseidon_hash2(
                scalar_values(self.round_keys@),
                self.mds_values(),
                self.full_rounds as nat,
                self.partial_rounds as nat,
                self.width as nat,
                self.exp as int,
                a.value(),
                b.value(),
            ),
    {
        let f = |s: &Scalar| Fr::from_repr(BigInteger256([s.l0, s.l1, s.l2, s.l3])).unwrap();
        let mds = self.mds_matrix.iter().map(|row| row.iter().map(f).collect()).collect();
        let params = PoseidonParameters::new(self.round_keys.iter().map(f).collect(), mds,
            self.full_rounds, self.partial_rounds, self.width, PoseidonSbox(self.exp));
        let z = Poseidon::new(params).hash(&[f(a), f(b)]).unwrap().into_repr().0;
        Scalar { l0: z[0], l1: z[1], l2: z[2], l3: z[3] }
    }
}

/// The authorisation value of a device: the hash chain over its public
/// key, its measurement, its start time and its validity period.
pub open spec fn authorized_infor_spec(h: PoseidonHasher, ar: nat, pk: nat, time: nat, peri: nat) -> nat {
    h.hash_spec(h.hash_spec(h.hash_spec(pk, ar), time), peri)
}

/// The Merkle leaf of a device: the hash of its measurement and secret key,
/// hashed with its public key.
pub open spec fn merkle_leaf_spec(h: PoseidonHasher, ar: nat, sk: nat, pk: nat) -> nat {
    h.hash_spec(h.hash_spec(ar, sk), pk)
}


/// The authorisation value is the Poseidon hash of the public key and the
/// measurement (in that order), hashed with the start time, hashed with the
/// period, for all values.
pub proof fn lemma_authorized_infor_chain(h: PoseidonHasher, ar: nat, pk: nat, time: nat, peri: nat)
    ensures
        authorized_infor_spec(h, ar, pk, time, peri) == poseidon_hash2(
            scalar_values(h.round_keys@), h.mds_values(), h.full_rounds as nat, h.partial_rounds as nat, h.width as nat, h.exp as int,
            poseidon_hash2(scalar_values(h.round_keys@), h.mds_values(), h.full_rounds as nat, h.partial_rounds as nat, h.width as nat, h.exp as int, poseidon_hash2(scalar_values(h.round_keys@), h.mds_values(), h.full_rounds as nat, h.partial_rounds as nat, h.width as nat, h.exp as int, pk, ar), time),
            peri,
        ),
{
}

/// The Merkle leaf is the Poseidon hash of the measurement and the secret
/// key (in that order), hashed with the public key, for all values.
pub proof fn lemma_merkle_leaf_chain(h: PoseidonHasher, ar: nat, sk: nat, pk: nat)
    ensures
        merkle_leaf_spec(h, ar, sk, pk) == poseidon_hash2(scalar_values(h.round_keys@), h.mds_values(), h.full_rounds as nat, h.partial_rounds as nat, h.width as nat, h.exp as int, poseidon_hash2(scalar_values(h.round_keys@), h.mds_values(), h.full_rounds as nat, h.partial_rounds as nat, h.width as nat, h.exp as int, ar, sk), pk),
{
}

/// The field element that a byte string spells big-endian.
pub open spec fn bytes_to_field(b: Seq<u8>) -> nat {
    be_value(b) % modulus()
}

/// A secp256k1 key pair.
pub struct KeyInfor {
    pub signing_key: SigningKey,
    pub verifying_key: VerifyingKey,
}

impl KeyInfor {
    /// The public key belongs to the secret key.
    pub open spec fn wf(&self) -> bool {
        &&& self.signing_key.wf()
        &&& self.verifying_key.wf()
        &&& self.verifying_key.sec1@ == secp256k1_public_key(self.signing_key.bytes@)
    }

    /// A fresh random key pair.
    pub fn new() -> (r: KeyInfor)
        ensures
            r.wf(),
    {
        let signing_key = random_signing_key();
        let verifying_key = verifying_key_of(&signing_key);
        KeyInfor { signing_key, verifying_key }
    }
}

/// What a device reports about itself.
pub struct DeviceClientInfor {
    pub verifying_key: VerifyingKey,
    pub measured_value: String,
    pub merkle_leaf: Scalar,
    pub evidence: Vec<u8>,
}

impl DeviceClientInfor {
    /// The report of a device with public key `vk`, Merkle leaf `leaf` and
    /// measurement `measure` (read from the device's measurement file).
    pub fn new(vk: VerifyingKey, leaf: Scalar, measure: String) -> (r: DeviceClientInfor)
        ensures
            r.verifying_key == vk,
            r.merkle_leaf == leaf,
            r.measured_value == measure,
            r.evidence@ == seq![32u8, 35u8, 35u8],
    {
        DeviceClientInfor { verifying_key: vk, merkle_leaf: leaf, measured_value: measure, evidence: vec![32, 35, 35] }
    }
}

/// The verifier's answer to a device: its validity window and, once
/// granted, the verifier's signature and the device's Merkle path.
pub struct ResponseDeviceInfor {
    pub timestamp: Duration,
    pub period: Duration,
    pub verifying_key: VerifyingKey,
    pub sig: Option<Signature>,
    pub shrubs_path: Option<Vec<Scalar>>,
    pub shrubs_tag: Option<Vec<bool>>,
}

/// The validity period that the verifier grants: 100 days, in seconds.
pub const VALIDITY_PERIOD_SECS: u64 = 8640000;

impl ResponseDeviceInfor {
    /// A response for the device with public key `pk`, issued at `now`
    /// (the time since the Unix epoch), valid for the standard period.
    pub fn new(pk: VerifyingKey, now: Duration) -> (r: ResponseDeviceInfor)
        ensures
            r.timestamp == now,
            r.period == (Duration { secs: VALIDITY_PERIOD_SECS, nanos: 0 }),
            r.verifying_key == pk,
            r.sig is None,
            r.shrubs_path is None,
            r.shrubs_tag is None,
    {
        ResponseDeviceInfor {
            timestamp: now,
            period: Duration::from_secs(VALIDITY_PERIOD_SECS),
            verifying_key: pk,
            sig: None,
            shrubs_path: None,
            shrubs_tag: None,
        }
    }

    /// Records the verifier's signature.
    pub fn set_signature(&mut self, sig: &Signature)
        ensures
            final(self).sig matches Some(s) && s.bytes@ == sig.bytes@,
            final(self).timestamp == old(self).timestamp,
            final(self).period == old(self).period,
            final(self).verifying_key == old(self).verifying_key,
            final(self).shrubs_path == old(self).shrubs_path,
            final(self).shrubs_tag == old(self).shrubs_tag,
    {
        self.sig = Some(sig.copy());
    }

    /// Records the device's Merkle path and its direction tags.
    pub fn set_shrubs_path_and_tag(&mut self, path: Vec<Scalar>, tag: Vec<bool>)
        ensures
            final(self).shrubs_path == Some(path),
            final(self).shrubs_tag == Some(tag),
            final(self).timestamp == old(self).timestamp,
            final(self).period == old(self).period,
            final(self).verifying_key == old(self).verifying_key,
            final(self).sig == old(self).sig,
    {
        self.shrubs_path = Some(path);
        self.shrubs_tag = Some(tag);
    }
}

/// The message that the verifier signs for a device: its compressed public
/// key, then the start time and the period in whole seconds, big-endian.
pub open spec fn verifier_message(device: ResponseDeviceInfor) -> Seq<u8> {
    device.verifying_key.sec1@ + u64_be_bytes(device.timestamp.secs) + u64_be_bytes(device.period.secs)
}

/// The message the verifier signs is the 33-byte compressed device key,
/// then the start time in whole seconds (eight big-endian bytes), then the
/// period in whole seconds (eight big-endian bytes).
pub proof fn lemma_verifier_message_layout(d: ResponseDeviceInfor)
    requires
        d.verifying_key.sec1@.len() == 33,
    ensures
        verifier_message(d).len() == 49,
        verifier_message(d).subrange(0, 33) == d.verifying_key.sec1@,
        u64_from_be(verifier_message(d).subrange(33, 41)) == d.timestamp.secs,
        u64_from_be(verifier_message(d).subrange(41, 49)) == d.period.secs,
{
    let m = verifier_message(d);
    assert(m.subrange(0, 33) =~= d.verifying_key.sec1@);
    assert(m.subrange(33, 41) =~= u64_be_bytes(d.timestamp.secs));
    assert(m.subrange(41, 49) =~= u64_be_bytes(d.period.secs));
    lemma_u64_bytes_roundtrip(d.timestamp.secs);
    lemma_u64_bytes_roundtrip(d.period.secs);
}

/// The signed message does not depend on the fraction of a second in the
/// start time: responses that agree on the key, the whole seconds and the
/// period get the same message.
pub proof fn lemma_verifier_message_ignores_nanos(d1: ResponseDeviceInfor, d2: ResponseDeviceInfor)
    requires
        d1.verifying_key.sec1@ == d2.verifying_key.sec1@,
        d1.timestamp.secs == d2.timestamp.secs,
        d1.period.secs == d2.period.secs,
    ensures
        verifier_message(d1) == verifier_message(d2),
{
}

/// The verifier signs the device's public key and validity window.
pub fn verifier_compute_sig(verifier_key: &KeyInfor, device_time: &ResponseDeviceInfor) -> (r: Signature)
    requires
        verifier_key.wf(),
    ensures
        r.wf(),
        r.bytes@ == ecdsa_sign(verifier_key.signing_key.bytes@, verifier_message(*device_time)),
{
    let mut msg: Vec<u8> = Vec::new();
    push_all(&mut msg, device_time.verifying_key.sec1.as_slice());
    push_u64_be(&mut msg, device_time.timestamp.as_secs());
    push_u64_be(&mut msg, device_time.period.as_secs());
    assert(msg@ =~= verifier_message(*device_time));
    sign_message(&verifier_key.signing_key, msg.as_slice())
}

/// The authorisation value that the verifier computes for a device from
/// field elements: `H(H(H(pk, ar), time), peri)`.
pub fn generate_verifier_authoried_infor(ar: Scalar, pk: Scalar, time: Scalar, peri: Scalar, hasher: &PoseidonHasher) -> (r: Scalar)
    requires
        hasher.wf(),
        ar.wf(),
        pk.wf(),
        time.wf(),
        peri.wf(),
    ensures
        r.wf(),
        r.value() == authorized_infor_spec(*hasher, ar.value(), pk.value(), time.value(), peri.value()),
        r.value() == poseidon_hash2(
            scalar_values(hasher.round_keys@), hasher.mds_values(), hasher.full_rounds as nat, hasher.partial_rounds as nat, hasher.width as nat, hasher.exp as int,
            poseidon_hash2(
                scalar_values(hasher.round_keys@), hasher.mds_values(), hasher.full_rounds as nat, hasher.partial_rounds as nat, hasher.width as nat, hasher.exp as int,
                poseidon_hash2(scalar_values(hasher.round_keys@), hasher.mds_values(), hasher.full_rounds as nat, hasher.partial_rounds as nat, hasher.width as nat, hasher.exp as int, pk.value(), ar.value()),
                time.value(),
            ),
            peri.value(),
        ),
{
    let temp_1 = hasher.hash2(&pk, &ar);
    let temp_2 = hasher.hash2(&temp_1, &time);
    hasher.hash2(&temp_2, &peri)
}

/// The authorisation value of a device, from its report and the
/// verifier's response.
pub fn generate_device_authoried_infor(devices_infor: &DeviceClientInfor, devices_time: &ResponseDeviceInfor, hasher: &PoseidonHasher) -> (r: Scalar)
    requires
        hasher.wf(),
    ensures
        r.wf(),
        r.value() == authorized_infor_spec(
            *hasher,
            bytes_to_field(encode_utf8(devices_infor.measured_value@)),
            bytes_to_field(devices_infor.verifying_key.sec1@),
            devices_time.timestamp.secs as nat,
            devices_time.period.secs as nat,
        ),
{
    let pk = scalar_from_be_bytes(devices_infor.verifying_key.sec1.as_slice());
    let ar = scalar_from_be_bytes(devices_infor.measured_value.as_str().as_bytes());
    let time = Scalar::from_u64(devices_time.timestamp.as_secs());
    let peri = Scalar::from_u64(devices_time.period.as_secs());
    generate_verifier_authoried_infor(ar, pk, time, peri, hasher)
}


/// The configuration of a device: its keys, its measured state, its
/// validity window and what the verifier granted it.
pub struct DeviceConfigInfor {
    pub signing_key: SigningKey,
    pub verifying_key: VerifyingKey,
    pub measured_value: Scalar,
    pub timestamp: Scalar,
    pub period: Scalar,
    pub merkle_leaf: Scalar,
    pub merkle_path: Option<Vec<Scalar>>,
    pub merkle_tag: Option<Vec<bool>>,
    pub authorized_infor: Scalar,
    pub signature: Option<Signature>,
}

impl DeviceConfigInfor {
    /// The public inputs of the device's proof: its public key as a field
    /// element, the Merkle root, its authorisation value, its start time
    /// and its validity period.
    pub fn gen_public_inputs(&self, root: &[Scalar]) -> (r: Vec<Scalar>)
        ensures
            r@.len() == root@.len() + 4,
            r@[0].wf(),
            r@[0].value() == bytes_to_field(self.verifying_key.sec1@),
            r@ == seq![r@[0]] + root@ + seq![self.authorized_infor, self.timestamp, self.period],
    {
        let mut public_inputs: Vec<Scalar> = Vec::new();
        public_inputs.push(scalar_from_be_bytes(self.verifying_key.sec1.as_slice()));
        let mut k: usize = 0;
        while k < root.len()
            invariant
                k <= root@.len(),
                public_inputs@.len() == k + 1,
                public_inputs@[0].wf(),
                public_inputs@[0].value() == bytes_to_field(self.verifying_key.sec1@),
                public_inputs@.drop_first() == root@.take(k as int),
            decreases root.len() - k,
        {
            public_inputs.push(root[k]);
            k = k + 1;
            assert(public_inputs@.drop_first() =~= root@.take(k as int));
        }
        public_inputs.push(self.authorized_infor);
        public_inputs.push(self.timestamp);
        public_inputs.push(self.period);
        assert(root@.take(k as int) =~= root@);
        assert(public_inputs@ =~= seq![public_inputs@[0]] + root@ + seq![self.authorized_infor, self.timestamp, self.period]);
        public_inputs
    }

    /// The configuration of a device from its key pair, its report and the
    /// verifier's response: the keys and the measurement as field elements,
    /// the window in whole seconds, and the authorisation value over them.
    pub fn new(dev_key: KeyInfor, dev_cli: DeviceClientInfor, dec_res: ResponseDeviceInfor, hasher: &PoseidonHasher) -> (r: DeviceConfigInfor)
        requires
            hasher.wf(),
        ensures
            r.signing_key == dev_key.signing_key,
            r.verifying_key == dev_key.verifying_key,
            r.measured_value.wf(),
            r.measured_value.value() == bytes_to_field(encode_utf8(dev_cli.measured_value@)),
            r.timestamp.wf(),
            r.timestamp.value() == dec_res.timestamp.secs,
            r.period.wf(),
            r.period.value() == dec_res.period.secs,
            r.merkle_leaf == dev_cli.merkle_leaf,
            r.authorized_infor.wf(),
            r.authorized_infor.value() == authorized_infor_spec(
                *hasher,
                r.measured_value.value(),
                bytes_to_field(dev_key.verifying_key.sec1@),
                r.timestamp.value(),
                r.period.value(),
            ),
            r.merkle_path == dec_res.shrubs_path,
            r.merkle_tag == dec_res.shrubs_tag,
            r.signature == dec_res.sig,
    {
        let pk = scalar_from_be_bytes(dev_key.verifying_key.sec1.as_slice());
        let ar = scalar_from_be_bytes(dev_cli.measured_value.as_str().as_bytes());
        let time = Scalar::from_u64(dec_res.timestamp.as_secs());
        let peri = Scalar::from_u64(dec_res.period.as_secs());
        let leaf = dev_cli.merkle_leaf;
        let output = generate_verifier_authoried_infor(ar, pk, time, peri, hasher);
        DeviceConfigInfor {
            signing_key: dev_key.signing_key,
            verifying_key: dev_key.verifying_key,
            measured_value: ar,
            timestamp: time,
            period: peri,
            merkle_leaf: leaf,
            authorized_infor: output,
            merkle_path: dec_res.shrubs_path,
            merkle_tag: dec_res.shrubs_tag,
            signature: dec_res.sig,
        }
    }
}

/// The Merkle leaf of a device from its key pair and its measurement
/// `measure` (read from the device's measurement file).
pub fn generate_device_merkle_leaf(device_key: &KeyInfor, hasher: &PoseidonHasher, measure: &str) -> (r: Scalar)
    requires
        hasher.wf(),
    ensures
        r.wf(),
        r.value() == merkle_leaf_spec(
            *hasher,
            bytes_to_field(encode_utf8(measure@)),
            bytes_to_field(device_key.signing_key.bytes@),
            bytes_to_field(device_key.verifying_key.sec1@),
        ),
        r.value() == poseidon_hash2(
            scalar_values(hasher.round_keys@), hasher.mds_values(), hasher.full_rounds as nat, hasher.partial_rounds as nat, hasher.width as nat, hasher.exp as int,
            poseidon_hash2(
                scalar_values(hasher.round_keys@), hasher.mds_values(), hasher.full_rounds as nat, hasher.partial_rounds as nat, hasher.width as nat, hasher.exp as int,
                bytes_to_field(encode_utf8(measure@)),
                bytes_to_field(device_key.signing_key.bytes@),
            ),
            bytes_to_field(device_key.verifying_key.sec1@),
        ),
{
    let sk = scalar_from_be_bytes(device_key.signing_key.bytes.as_slice());
    let pk = scalar_from_be_bytes(device_key.verifying_key.sec1.as_slice());
    let ar = scalar_from_be_bytes(measure.as_bytes());
    let c = hasher.hash2(&ar, &sk);
    hasher.hash2(&c, &pk)
}

/// What a device sends to the relying party: its proof, the key that
/// checks it, the verifier's signature, the device's public key and the
/// public values of the proof.
pub struct EvidenceReply {
    pub proof: Groth16Proof,
    pub vk: Groth16VerifyingKey,
    pub sig: Signature,
    pub pk: VerifyingKey,
    pub timestamp: Scalar,
    pub period: Scalar,
    pub authorized_infor: Scalar,
}

/// The name of a signed field, as bytes.
pub open spec fn field_name(s: &str) -> Seq<u8> {
    encode_utf8(s@)
}

impl EvidenceReply {
    /// The field elements are canonical and the signature is valid.
    pub open spec fn wf(&self) -> bool {
        &&& self.timestamp.wf()
        &&& self.period.wf()
        &&& self.authorized_infor.wf()
        &&& self.sig.wf()
    }

    /// The evidence of a device from its proof, the proof's verifying key
    /// and the device's configuration, which must hold the verifier's
    /// signature.
    pub fn new(proof: Groth16Proof, vk: Groth16VerifyingKey, dev_config: &DeviceConfigInfor) -> (r: EvidenceReply)
        requires
            dev_config.signature is Some,
        ensures
            r.proof == proof,
            r.vk == vk,
            r.sig.bytes@ == dev_config.signature->Some_0.bytes@,
            r.pk.sec1@ == dev_config.verifying_key.sec1@,
            r.timestamp == dev_config.timestamp,
            r.period == dev_config.period,
            r.authorized_infor == dev_config.authorized_infor,
    {
        let sig = match &dev_config.signature {
            Some(s) => s.copy(),
            None => vstd::pervasive::unreached(),
        };
        EvidenceReply {
            proof,
            vk,
            sig,
            pk: dev_config.verifying_key.copy(),
            timestamp: dev_config.timestamp,
            period: dev_config.period,
            authorized_infor: dev_config.authorized_infor,
        }
    }

    /// The raw bytes of the evidence, one field after another with no
    /// framing.
    pub open spec fn raw_bytes(&self) -> Seq<u8> {
        self.proof.bytes@ + self.vk.bytes@ + self.sig.bytes@ + self.pk.sec1@
            + le_bytes(self.timestamp.value(), 32) + le_bytes(self.period.value(), 32)
            + le_bytes(self.authorized_infor.value(), 32)
    }

    /// The bytes that a device signs: every field under its name, each name
    /// and value with its length in front.
    pub open spec fn signing_bytes(&self) -> Seq<u8> {
        field_enc(field_name("proof"), self.proof.bytes@)
            + field_enc(field_name("vk"), self.vk.bytes@)
            + field_enc(field_name("sig"), signature_der(self.sig.bytes@))
            + field_enc(field_name("pk"), self.pk.sec1@)
            + field_enc(field_name("timestamp"), le_bytes(self.timestamp.value(), 32))
            + field_enc(field_name("period"), le_bytes(self.period.value(), 32))
            + field_enc(field_name("authorized_infor"), le_bytes(self.authorized_infor.value(), 32))
    }

    /// Concatenates the fields' raw bytes.
    pub fn to_bytes(&self) -> (r: Vec<u8>)
        requires
            self.wf(),
        ensures
            r@ == self.raw_bytes(),
            self.pk.wf() ==> r@.len() == self.proof.bytes@.len() + self.vk.bytes@.len() + 193,
    {
        let mut bytes: Vec<u8> = Vec::new();
        push_all(&mut bytes, self.proof.bytes.as_slice());
        push_all(&mut bytes, self.vk.bytes.as_slice());
        push_all(&mut bytes, self.sig.bytes.as_slice());
        push_all(&mut bytes, self.pk.sec1.as_slice());
        let t = encode_scalar(&self.timestamp);
        push_all(&mut bytes, t.as_slice());
        let p = encode_scalar(&self.period);
        push_all(&mut bytes, p.as_slice());
        let a = encode_scalar(&self.authorized_infor);
        push_all(&mut bytes, a.as_slice());
        assert(bytes@ =~= self.raw_bytes());
        proof {
            lemma_modulus_fits_32_bytes();
            lemma_le_bytes_value(self.timestamp.value(), 32);
            lemma_le_bytes_value(self.period.value(), 32);
            lemma_le_bytes_value(self.authorized_infor.value(), 32);
        }
        bytes
    }

    /// Writes every field under its name, for signing.
    pub fn to_signing_bytes_all_fields(&self) -> (r: Vec<u8>)
        requires
            self.wf(),
        ensures
            r@ == self.signing_bytes(),
    {
        let mut out: Vec<u8> = Vec::new();
        append_field(&mut out, "proof".as_bytes(), self.proof.bytes.as_slice());
        append_field(&mut out, "vk".as_bytes(), self.vk.bytes.as_slice());
        let sig_der = encode_signature(&self.sig);
        append_field(&mut out, "sig".as_bytes(), sig_der.as_slice());
        append_field(&mut out, "pk".as_bytes(), self.pk.sec1.as_slice());
        let t = encode_scalar(&self.timestamp);
        append_field(&mut out, "timestamp".as_bytes(), t.as_slice());
        let p = encode_scalar(&self.period);
        append_field(&mut out, "period".as_bytes(), p.as_slice());
        let a = encode_scalar(&self.authorized_infor);
        append_field(&mut out, "authorized_infor".as_bytes(), a.as_slice());
        assert(out@ =~= self.signing_bytes());
        out
    }
}

/// The raw bytes of an evidence reply are laid out as the proof, the
/// verifying key, the 64 signature bytes, the 33 public-key bytes, and then
/// the timestamp, the period and the authorisation value, each as 32
/// little-endian bytes, in that order.
pub proof fn lemma_raw_bytes_layout(e: EvidenceReply)
    requires
        e.wf(),
        e.pk.sec1@.len() == 33,
    ensures
        ({
            let r = e.raw_bytes();
            let a = e.proof.bytes@.len() as int;
            let o = a + e.vk.bytes@.len();
            &&& r.len() == o + 193
            &&& r.subrange(0, a) == e.proof.bytes@
            &&& r.subrange(a, o) == e.vk.bytes@
            &&& r.subrange(o, o + 64) == e.sig.bytes@
            &&& r.subrange(o + 64, o + 97) == e.pk.sec1@
            &&& le_value(r.subrange(o + 97, o + 129)) == e.timestamp.value()
            &&& le_value(r.subrange(o + 129, o + 161)) == e.period.value()
            &&& le_value(r.subrange(o + 161, o + 193)) == e.authorized_infor.value()
        }),
{
    let r = e.raw_bytes();
    let a = e.proof.bytes@.len() as int;
    let o = a + e.vk.bytes@.len();
    lemma_modulus_fits_32_bytes();
    lemma_le_bytes_value(e.timestamp.value(), 32);
    lemma_le_bytes_value(e.period.value(), 32);
    lemma_le_bytes_value(e.authorized_infor.value(), 32);
    assert(r.subrange(0, a) =~= e.proof.bytes@);
    assert(r.subrange(a, o) =~= e.vk.bytes@);
    assert(r.subrange(o, o + 64) =~= e.sig.bytes@);
    assert(r.subrange(o + 64, o + 97) =~= e.pk.sec1@);
    assert(r.subrange(o + 97, o + 129) =~= le_bytes(e.timestamp.value(), 32));
    assert(r.subrange(o + 129, o + 161) =~= le_bytes(e.period.value(), 32));
    assert(r.subrange(o + 161, o + 193) =~= le_bytes(e.authorized_infor.value(), 32));
}

/// The bytes a device signs are seven named fields in this order: the
/// proof, the verifying key, the DER signature, the public key, and the
/// timestamp, the period and the authorisation value as 32 little-endian
/// bytes each; each name and each value has its length in front.
pub proof fn lemma_signing_bytes_layout(e: EvidenceReply)
    requires
        e.wf(),
    ensures
        e.signing_bytes() == field_enc(field_name("proof"), e.proof.bytes@)
            + field_enc(field_name("vk"), e.vk.bytes@)
            + field_enc(field_name("sig"), signature_der(e.sig.bytes@))
            + field_enc(field_name("pk"), e.pk.sec1@)
            + field_enc(field_name("timestamp"), le_bytes(e.timestamp.value(), 32))
            + field_enc(field_name("period"), le_bytes(e.period.value(), 32))
            + field_enc(field_name("authorized_infor"), le_bytes(e.authorized_infor.value(), 32)),
        le_value(le_bytes(e.timestamp.value(), 32)) == e.timestamp.value(),
        le_value(le_bytes(e.period.value(), 32)) == e.period.value(),
        le_value(le_bytes(e.authorized_infor.value(), 32)) == e.authorized_infor.value(),
{
    lemma_modulus_fits_32_bytes();
    lemma_le_bytes_value(e.timestamp.value(), 32);
    lemma_le_bytes_value(e.period.value(), 32);
    lemma_le_bytes_value(e.authorized_infor.value(), 32);
}

/// Fixed-width encodings of canonical field elements are distinct.
proof fn lemma_scalar_encoding_injective(a: Scalar, b: Scalar)
    requires
        a.wf(),
        b.wf(),
        le_bytes(a.value(), 32) == le_bytes(b.value(), 32),
    ensures
        a == b,
{
    lemma_modulus_fits_32_bytes();
    lemma_le_bytes_value(a.value(), 32);
    lemma_le_bytes_value(b.value(), 32);
}

/// Seven named fields, written one after the other, determine their data.
proof fn lemma_seven_fields_injective(
    n1: Seq<u8>, n2: Seq<u8>, n3: Seq<u8>, n4: Seq<u8>, n5: Seq<u8>, n6: Seq<u8>, n7: Seq<u8>,
    a1: Seq<u8>, a2: Seq<u8>, a3: Seq<u8>, a4: Seq<u8>, a5: Seq<u8>, a6: Seq<u8>, a7: Seq<u8>,
    b1: Seq<u8>, b2: Seq<u8>, b3: Seq<u8>, b4: Seq<u8>, b5: Seq<u8>, b6: Seq<u8>, b7: Seq<u8>,
)
    requires
        a1.len() <= u64::MAX, a2.len() <= u64::MAX, a3.len() <= u64::MAX, a4.len() <= u64::MAX,
        a5.len() <= u64::MAX, a6.len() <= u64::MAX, a7.len() <= u64::MAX,
        b1.len() <= u64::MAX, b2.len() <= u64::MAX, b3.len() <= u64::MAX, b4.len() <= u64::MAX,
        b5.len() <= u64::MAX, b6.len() <= u64::MAX, b7.len() <= u64::MAX,
        field_enc(n1, a1) + field_enc(n2, a2) + field_enc(n3, a3) + field_enc(n4, a4) + field_enc(n5, a5)
            + field_enc(n6, a6) + field_enc(n7, a7)
            == field_enc(n1, b1) + field_enc(n2, b2) + field_enc(n3, b3) + field_enc(n4, b4) + field_enc(n5, b5)
            + field_enc(n6, b6) + field_enc(n7, b7),
    ensures
        a1 == b1, a2 == b2, a3 == b3, a4 == b4, a5 == b5, a6 == b6, a7 == b7,
{
    let e = Seq::<u8>::empty();
    let (f1, f2, f3, f4, f5, f6, f7) = (field_enc(n1, a1), field_enc(n2, a2), field_enc(n3, a3),
        field_enc(n4, a4), field_enc(n5, a5), field_enc(n6, a6), field_enc(n7, a7));
    let (g1, g2, g3, g4, g5, g6, g7) = (field_enc(n1, b1), field_enc(n2, b2), field_enc(n3, b3),
        field_enc(n4, b4), field_enc(n5, b5), field_enc(n6, b6), field_enc(n7, b7));
    let (s6, s5, s4, s3, s2) = (f6 + f7, f5 + (f6 + f7), f4 + (f5 + (f6 + f7)), f3 + (f4 + (f5 + (f6 + f7))),
        f2 + (f3 + (f4 + (f5 + (f6 + f7)))));
    let (u6, u5, u4, u3, u2) = (g6 + g7, g5 + (g6 + g7), g4 + (g5 + (g6 + g7)), g3 + (g4 + (g5 + (g6 + g7))),
        g2 + (g3 + (g4 + (g5 + (g6 + g7)))));
    lemma_concat_associative(f1 + f2 + f3 + f4 + f5, f6, f7);
    lemma_concat_associative(f1 + f2 + f3 + f4, f5, s6);
    lemma_concat_associative(f1 + f2 + f3, f4, s5);
    lemma_concat_associative(f1 + f2, f3, s4);
    lemma_concat_associative(f1, f2, s3);
    lemma_concat_associative(g1 + g2 + g3 + g4 + g5, g6, g7);
    lemma_concat_associative(g1 + g2 + g3 + g4, g5, u6);
    lemma_concat_associative(g1 + g2 + g3, g4, u5);
    lemma_concat_associative(g1 + g2, g3, u4);
    lemma_concat_associative(g1, g2, u3);
    assert(f1 + s2 == g1 + u2);
    lemma_field_same_name_injective(n1, a1, s2, b1, u2);
    lemma_field_same_name_injective(n2, a2, s3, b2, u3);
    lemma_field_same_name_injective(n3, a3, s4, b3, u4);
    lemma_field_same_name_injective(n4, a4, s5, b4, u5);
    lemma_field_same_name_injective(n5, a5, s6, b5, u6);
    lemma_field_same_name_injective(n6, a6, f7, b6, g7);
    assert(f7 + e =~= f7);
    assert(g7 + e =~= g7);
    lemma_field_same_name_injective(n7, a7, e, b7, e);
}

/// The bytes that a device signs determine every field of the evidence: two
/// valid evidence replies with the same signing bytes agree on the proof,
/// the verifying key, the signature, the public key, the timestamp, the
/// period and the authorisation value.
pub proof fn lemma_signing_bytes_injective(e1: EvidenceReply, e2: EvidenceReply)
    requires
        e1.wf(),
        e2.wf(),
        e1.proof.bytes@.len() <= u64::MAX,
        e2.proof.bytes@.len() <= u64::MAX,
        e1.vk.bytes@.len() <= u64::MAX,
        e2.vk.bytes@.len() <= u64::MAX,
        e1.pk.sec1@.len() <= u64::MAX,
        e2.pk.sec1@.len() <= u64::MAX,
        signature_der(e1.sig.bytes@).len() <= u64::MAX,
        signature_der(e2.sig.bytes@).len() <= u64::MAX,
        e1.signing_bytes() == e2.signing_bytes(),
    ensures
        e1.proof.bytes@ == e2.proof.bytes@,
        e1.vk.bytes@ == e2.vk.bytes@,
        e1.sig.bytes@ == e2.sig.bytes@,
        e1.pk.sec1@ == e2.pk.sec1@,
        e1.timestamp == e2.timestamp,
        e1.period == e2.period,
        e1.authorized_infor == e2.authorized_infor,
{
    lemma_modulus_fits_32_bytes();
    lemma_le_bytes_value(e1.timestamp.value(), 32);
    lemma_le_bytes_value(e2.timestamp.value(), 32);
    lemma_le_bytes_value(e1.period.value(), 32);
    lemma_le_bytes_value(e2.period.value(), 32);
    lemma_le_bytes_value(e1.authorized_infor.value(), 32);
    lemma_le_bytes_value(e2.authorized_infor.value(), 32);
    lemma_seven_fields_injective(
        field_name("proof"), field_name("vk"), field_name("sig"), field_name("pk"),
        field_name("timestamp"), field_name("period"), field_name("authorized_infor"),
        e1.proof.bytes@, e1.vk.bytes@, signature_der(e1.sig.bytes@), e1.pk.sec1@,
        le_bytes(e1.timestamp.value(), 32), le_bytes(e1.period.value(), 32), le_bytes(e1.authorized_infor.value(), 32),
        e2.proof.bytes@, e2.vk.bytes@, signature_der(e2.sig.bytes@), e2.pk.sec1@,
        le_bytes(e2.timestamp.value(), 32), le_bytes(e2.period.value(), 32), le_bytes(e2.authorized_infor.value(), 32),
    );
    lemma_scalar_encoding_injective(e1.timestamp, e2.timestamp);
    lemma_scalar_encoding_injective(e1.period, e2.period);
    lemma_scalar_encoding_injective(e1.authorized_infor, e2.authorized_infor);
}

/// What the verifier publishes: the Merkle root and its own public key.
pub struct PublicContext {
    pub root: Vec<Scalar>,
    pub verifier_pk: VerifyingKey,
}

} // verus!
