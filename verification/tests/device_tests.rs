use ark_bls12_381::{Bls12_381, Fr};
use ark_ff::{BigInteger256, PrimeField};
use ark_serialize::CanonicalSerialize;
use arkworks_native_gadgets::poseidon::sbox::PoseidonSbox;
use arkworks_native_gadgets::poseidon::{FieldHasher, Poseidon, PoseidonParameters};
use arkworks_utils::poseidon_params::setup_poseidon_params;
use arkworks_utils::{bytes_matrix_to_f, bytes_vec_to_f, Curve};
use hydra_dqea::codec::{append_len_bytes, Duration};
use hydra_dqea::device::{
    generate_device_authoried_infor, generate_device_merkle_leaf, generate_verifier_authoried_infor,
    verifier_compute_sig, DeviceClientInfor, DeviceConfigInfor, EvidenceReply, KeyInfor, PoseidonHasher,
    ResponseDeviceInfor, VALIDITY_PERIOD_SECS,
};
use hydra_dqea::field::Scalar;
use hydra_dqea::keys::{decode_ark_vk, decode_proof};
use hydra_dqea::records::decode_key_infor;
use num_bigint::BigUint;

fn s(v: u64) -> Scalar {
    Scalar::from_u64(v)
}

fn to_fr(x: &Scalar) -> Fr {
    Fr::from_repr(BigInteger256([x.l0, x.l1, x.l2, x.l3])).unwrap()
}

fn from_fr(x: Fr) -> Scalar {
    let z = x.into_repr().0;
    Scalar { l0: z[0], l1: z[1], l2: z[2], l3: z[3] }
}

fn be_fr(bytes: &[u8]) -> Fr {
    Fr::from(BigUint::from_bytes_be(bytes))
}

fn reference_hasher() -> Poseidon<Fr> {
    let data = setup_poseidon_params(Curve::Bls381, 5, 3).unwrap();
    let params = PoseidonParameters::new(
        bytes_vec_to_f(&data.rounds),
        bytes_matrix_to_f(&data.mds),
        data.full_rounds,
        data.partial_rounds,
        data.width,
        PoseidonSbox(data.exp),
    );
    Poseidon::new(params)
}

fn fixed_key(byte: u8) -> KeyInfor {
    let mut img = Vec::new();
    append_len_bytes(&mut img, &[byte; 32]);
    decode_key_infor(img).ok().unwrap()
}

#[test]
fn verifier_authorized_infor_is_the_hash_chain() {
    let hasher = PoseidonHasher::new();
    let reference = reference_hasher();
    let (ar, pk, time, peri) = (s(11), s(22), s(1_700_000_000), s(8640000));
    let out = generate_verifier_authoried_infor(ar, pk, time, peri, &hasher);
    let t1 = reference.hash(&[to_fr(&pk), to_fr(&ar)]).unwrap();
    let t2 = reference.hash(&[t1, to_fr(&time)]).unwrap();
    let expected = reference.hash(&[t2, to_fr(&peri)]).unwrap();
    assert_eq!(out, from_fr(expected));
    assert_ne!(out, peri);
}

#[test]
fn authorized_infor_depends_on_every_input() {
    let hasher = PoseidonHasher::new();
    let base = generate_verifier_authoried_infor(s(1), s(2), s(3), s(4), &hasher);
    assert_ne!(base, generate_verifier_authoried_infor(s(5), s(2), s(3), s(4), &hasher));
    assert_ne!(base, generate_verifier_authoried_infor(s(1), s(5), s(3), s(4), &hasher));
    assert_ne!(base, generate_verifier_authoried_infor(s(1), s(2), s(5), s(4), &hasher));
    assert_ne!(base, generate_verifier_authoried_infor(s(1), s(2), s(3), s(5), &hasher));
    assert_eq!(base, generate_verifier_authoried_infor(s(1), s(2), s(3), s(4), &hasher));
}

#[test]
fn device_and_verifier_agree_on_authorized_infor() {
    let hasher = PoseidonHasher::new();
    let device = fixed_key(4);
    let cli = DeviceClientInfor::new(device.verifying_key.copy(), s(1), "measured state".to_string());
    let resp = ResponseDeviceInfor::new(device.verifying_key.copy(), Duration::new(1_700_000_000, 999));
    let from_device = generate_device_authoried_infor(&cli, &resp, &hasher);
    let ar = from_fr(be_fr("measured state".as_bytes()));
    let pk = from_fr(be_fr(&device.verifying_key.sec1));
    let from_verifier = generate_verifier_authoried_infor(ar, pk, s(1_700_000_000), s(VALIDITY_PERIOD_SECS), &hasher);
    assert_eq!(from_device, from_verifier);
}

#[test]
fn merkle_leaf_is_the_hash_of_measure_secret_and_public_key() {
    let hasher = PoseidonHasher::new();
    let reference = reference_hasher();
    let device = fixed_key(8);
    let leaf = generate_device_merkle_leaf(&device, &hasher, "abc");
    let ar = be_fr(b"abc");
    let sk = be_fr(&device.signing_key.bytes);
    let pk = be_fr(&device.verifying_key.sec1);
    let c = reference.hash(&[ar, sk]).unwrap();
    assert_eq!(leaf, from_fr(reference.hash(&[c, pk]).unwrap()));
}

#[test]
fn response_new_sets_the_validity_window() {
    let device = fixed_key(4);
    let r = ResponseDeviceInfor::new(device.verifying_key.copy(), Duration::new(50, 7));
    assert_eq!(r.timestamp, Duration::new(50, 7));
    assert_eq!(r.period, Duration::from_secs(8640000));
    assert!(r.sig.is_none() && r.shrubs_path.is_none() && r.shrubs_tag.is_none());
}

#[test]
fn response_setters_change_one_field_each() {
    let verifier = fixed_key(3);
    let device = fixed_key(4);
    let mut r = ResponseDeviceInfor::new(device.verifying_key.copy(), Duration::new(50, 0));
    let sig = verifier_compute_sig(&verifier, &r);
    r.set_signature(&sig);
    assert_eq!(r.sig.as_ref().unwrap().bytes, sig.bytes);
    assert!(r.shrubs_path.is_none());
    r.set_shrubs_path_and_tag(vec![s(1)], vec![true]);
    assert_eq!(r.shrubs_path, Some(vec![s(1)]));
    assert_eq!(r.shrubs_tag, Some(vec![true]));
    assert_eq!(r.sig.as_ref().unwrap().bytes, sig.bytes);
    assert_eq!(r.timestamp, Duration::new(50, 0));
}

fn device_config(hasher: &PoseidonHasher) -> (DeviceConfigInfor, Vec<u8>, Vec<u8>) {
    let verifier = fixed_key(3);
    let device = fixed_key(4);
    let sk = device.signing_key.bytes.clone();
    let pk = device.verifying_key.sec1.clone();
    let cli = DeviceClientInfor::new(device.verifying_key.copy(), s(99), "state".to_string());
    let mut resp = ResponseDeviceInfor::new(device.verifying_key.copy(), Duration::new(1000, 0));
    let sig = verifier_compute_sig(&verifier, &resp);
    resp.set_signature(&sig);
    resp.set_shrubs_path_and_tag(vec![s(5), s(6)], vec![false, true]);
    (DeviceConfigInfor::new(device, cli, resp, hasher), sk, pk)
}

#[test]
fn device_config_new_derives_the_field_values() {
    let hasher = PoseidonHasher::new();
    let (cfg, sk, pk) = device_config(&hasher);
    assert_eq!(cfg.signing_key.bytes, sk);
    assert_eq!(cfg.verifying_key.sec1, pk);
    assert_eq!(cfg.measured_value, from_fr(be_fr(b"state")));
    assert_eq!(cfg.timestamp, s(1000));
    assert_eq!(cfg.period, s(8640000));
    assert_eq!(cfg.merkle_leaf, s(99));
    assert_eq!(cfg.merkle_path, Some(vec![s(5), s(6)]));
    assert_eq!(cfg.merkle_tag, Some(vec![false, true]));
    assert!(cfg.signature.is_some());
    let expected = generate_verifier_authoried_infor(
        cfg.measured_value,
        from_fr(be_fr(&pk)),
        s(1000),
        s(8640000),
        &hasher,
    );
    assert_eq!(cfg.authorized_infor, expected);
}

#[test]
fn public_inputs_layout() {
    let hasher = PoseidonHasher::new();
    let (cfg, _, pk) = device_config(&hasher);
    let root = vec![s(21), s(22), s(23)];
    let inputs = cfg.gen_public_inputs(&root);
    assert_eq!(inputs.len(), 7);
    assert_eq!(inputs[0], from_fr(be_fr(&pk)));
    assert_eq!(&inputs[1..4], &root[..]);
    assert_eq!(inputs[4], cfg.authorized_infor);
    assert_eq!(inputs[5], cfg.timestamp);
    assert_eq!(inputs[6], cfg.period);
    assert_eq!(cfg.gen_public_inputs(&[]).len(), 4);
}

fn reply(cfg: &DeviceConfigInfor) -> (EvidenceReply, Vec<u8>, Vec<u8>) {
    let mut p = Vec::new();
    ark_groth16::Proof::<Bls12_381>::default().serialize_uncompressed(&mut p).unwrap();
    let mut v = Vec::new();
    ark_groth16::VerifyingKey::<Bls12_381>::default().serialize_uncompressed(&mut v).unwrap();
    let r = EvidenceReply::new(decode_proof(&p).ok().unwrap(), decode_ark_vk(&v).ok().unwrap(), cfg);
    (r, p, v)
}

#[test]
fn evidence_reply_copies_the_configuration() {
    let hasher = PoseidonHasher::new();
    let (cfg, _, pk) = device_config(&hasher);
    let (r, _, _) = reply(&cfg);
    assert_eq!(r.sig.bytes, cfg.signature.as_ref().unwrap().bytes);
    assert_eq!(r.pk.sec1, pk);
    assert_eq!(r.timestamp, cfg.timestamp);
    assert_eq!(r.period, cfg.period);
    assert_eq!(r.authorized_infor, cfg.authorized_infor);
}

#[test]
fn evidence_reply_raw_bytes() {
    let hasher = PoseidonHasher::new();
    let (cfg, _, pk) = device_config(&hasher);
    let (r, p, v) = reply(&cfg);
    let bytes = r.to_bytes();
    let mut expected = p.clone();
    expected.extend_from_slice(&v);
    expected.extend_from_slice(&r.sig.bytes);
    expected.extend_from_slice(&pk);
    for x in [r.timestamp, r.period, r.authorized_infor] {
        let mut b = Vec::new();
        to_fr(&x).serialize_uncompressed(&mut b).unwrap();
        expected.extend_from_slice(&b);
    }
    assert_eq!(bytes, expected);
    assert_eq!(bytes.len(), p.len() + v.len() + 64 + 33 + 96);
}

#[test]
fn evidence_reply_signing_bytes() {
    let hasher = PoseidonHasher::new();
    let (cfg, _, pk) = device_config(&hasher);
    let (r, p, v) = reply(&cfg);
    let bytes = r.to_signing_bytes_all_fields();
    let der = k256::ecdsa::Signature::from_slice(&r.sig.bytes).unwrap().to_der().as_bytes().to_vec();
    let mut expected = Vec::new();
    let mut field = |name: &[u8], data: &[u8]| {
        expected.extend_from_slice(&(name.len() as u64).to_be_bytes());
        expected.extend_from_slice(name);
        expected.extend_from_slice(&(data.len() as u64).to_be_bytes());
        expected.extend_from_slice(data);
    };
    let enc = |x: &Scalar| {
        let mut b = Vec::new();
        to_fr(x).serialize_uncompressed(&mut b).unwrap();
        b
    };
    field(b"proof", &p);
    field(b"vk", &v);
    field(b"sig", &der);
    field(b"pk", &pk);
    field(b"timestamp", &enc(&r.timestamp));
    field(b"period", &enc(&r.period));
    field(b"authorized_infor", &enc(&r.authorized_infor));
    assert_eq!(bytes, expected);
}

#[test]
fn poseidon_parameters_are_the_published_ones() {
    let h = PoseidonHasher::new();
    assert_eq!((h.full_rounds, h.partial_rounds, h.width, h.exp), (8, 57, 3, 5));
    assert_eq!(h.round_keys.len(), 195);
    assert_eq!(
        h.round_keys[0],
        Scalar { l0: 0x9540d1f250910880, l1: 0xff4a2c3bc81d42e0, l2: 0xf74905cc7dae4ca9, l3: 0x6c4ffa723eaf1a7b }
    );
    assert_eq!(
        h.round_keys[194],
        Scalar { l0: 0xc5e2e835aaeff725, l1: 0x8d07c668ef25a36b, l2: 0x77897b56e1c43297, l3: 0x57b33094aeff8283 }
    );
    assert_eq!(
        h.mds_matrix[2][2],
        Scalar { l0: 0x1cedbbf782daef54, l1: 0x2c1fc9721f6c5099, l2: 0x55852059f707370e, l3: 0x569e2c206119e894 }
    );
}

#[test]
fn signing_bytes_differ_when_a_field_differs() {
    let hasher = PoseidonHasher::new();
    let (cfg, _, _) = device_config(&hasher);
    let (r1, _, _) = reply(&cfg);
    let (mut r2, _, _) = reply(&cfg);
    assert_eq!(r1.to_signing_bytes_all_fields(), r2.to_signing_bytes_all_fields());
    r2.period = s(8640001);
    assert_ne!(r1.to_signing_bytes_all_fields(), r2.to_signing_bytes_all_fields());
    let (mut r3, _, _) = reply(&cfg);
    r3.authorized_infor = s(1);
    assert_ne!(r1.to_signing_bytes_all_fields(), r3.to_signing_bytes_all_fields());
}
