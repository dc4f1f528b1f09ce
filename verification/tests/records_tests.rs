use ark_bls12_381::Bls12_381;
use ark_serialize::CanonicalSerialize;
use hydra_dqea::codec::{append_len_bytes, push_u32_be, push_u64_be, Cursor, DecodeError, Duration};
use hydra_dqea::device::{DeviceClientInfor, EvidenceReply, KeyInfor, PublicContext, ResponseDeviceInfor};
use hydra_dqea::field::Scalar;
use hydra_dqea::keys::{
    append_option_signature, append_signature, append_verifying_key, decode_ark_vk, decode_proof,
    decode_signature, encode_ark_vk, encode_proof, read_option_signature, read_signature,
    read_verifying_key, Signature, VerifyingKey,
};
use hydra_dqea::records::{
    decode_device_client_infor, decode_evidence_bundle, decode_key_infor, decode_public_context,
    decode_response_device_infor, encode_device_client_infor, encode_evidence_bundle, encode_key_infor,
    encode_public_context, encode_response_device_infor, response_duration_overflows,
};
use hydra_dqea::device::verifier_compute_sig;
use k256::ecdsa::signature::Verifier;

fn s(v: u64) -> Scalar {
    Scalar::from_u64(v)
}

fn key_image(sk: &[u8]) -> Vec<u8> {
    let mut out = Vec::new();
    append_len_bytes(&mut out, sk);
    out
}

fn fixed_key(byte: u8) -> KeyInfor {
    decode_key_infor(key_image(&[byte; 32])).ok().unwrap()
}

fn k256_public(sk: &[u8]) -> Vec<u8> {
    let k = k256::ecdsa::SigningKey::from_slice(sk).unwrap();
    k256::ecdsa::VerifyingKey::from(&k).to_encoded_point(true).as_bytes().to_vec()
}

fn proof_bytes() -> Vec<u8> {
    let mut out = Vec::new();
    ark_groth16::Proof::<Bls12_381>::default().serialize_uncompressed(&mut out).unwrap();
    out
}

fn ark_vk_bytes() -> Vec<u8> {
    let mut out = Vec::new();
    ark_groth16::VerifyingKey::<Bls12_381>::default().serialize_uncompressed(&mut out).unwrap();
    out
}

fn signed_response(key: &KeyInfor, device: &KeyInfor) -> (ResponseDeviceInfor, Signature) {
    let mut resp = ResponseDeviceInfor::new(device.verifying_key.copy(), Duration::new(1_700_000_000, 5));
    let sig = verifier_compute_sig(key, &resp);
    resp.set_signature(&sig);
    (resp, sig)
}

#[test]
fn key_infor_roundtrip() {
    let sk = [7u8; 32];
    let k = decode_key_infor(key_image(&sk)).ok().unwrap();
    assert_eq!(k.signing_key.bytes, sk.to_vec());
    assert_eq!(k.verifying_key.sec1, k256_public(&sk));
    assert_eq!(encode_key_infor(&k), key_image(&sk));
}

#[test]
fn key_infor_random_roundtrip() {
    let k = KeyInfor::new();
    assert_eq!(k.signing_key.bytes.len(), 32);
    assert_eq!(k.verifying_key.sec1, k256_public(&k.signing_key.bytes));
    let back = decode_key_infor(encode_key_infor(&k)).ok().unwrap();
    assert_eq!(back.signing_key.bytes, k.signing_key.bytes);
    assert_eq!(back.verifying_key.sec1, k.verifying_key.sec1);
}

#[test]
fn key_infor_errors() {
    assert_eq!(decode_key_infor(key_image(&[1u8; 31])).err(), Some(DecodeError::InvalidSigningKeyLength(31)));
    assert_eq!(decode_key_infor(key_image(&[1u8; 33])).err(), Some(DecodeError::InvalidSigningKeyLength(33)));
    assert_eq!(decode_key_infor(key_image(&[0u8; 32])).err(), Some(DecodeError::InvalidSigningKey));
    assert_eq!(decode_key_infor(key_image(&[0xffu8; 32])).err(), Some(DecodeError::InvalidSigningKey));
    assert_eq!(decode_key_infor(vec![0, 0, 0]).err(), Some(DecodeError::UnexpectedEnd));
}

#[test]
fn verifier_signature_verifies() {
    let verifier = fixed_key(3);
    let device = fixed_key(4);
    let resp = ResponseDeviceInfor::new(device.verifying_key.copy(), Duration::new(1000, 0));
    let sig = verifier_compute_sig(&verifier, &resp);
    let mut msg = device.verifying_key.sec1.clone();
    msg.extend_from_slice(&1000u64.to_be_bytes());
    msg.extend_from_slice(&8640000u64.to_be_bytes());
    let vk = k256::ecdsa::VerifyingKey::from_sec1_bytes(&verifier.verifying_key.sec1).unwrap();
    let k_sig = k256::ecdsa::Signature::from_slice(&sig.bytes).unwrap();
    assert!(vk.verify(&msg, &k_sig).is_ok());
    let again = verifier_compute_sig(&verifier, &resp);
    assert_eq!(again.bytes, sig.bytes);
}

#[test]
fn signature_der_roundtrip() {
    let verifier = fixed_key(3);
    let device = fixed_key(4);
    let (_, sig) = signed_response(&verifier, &device);
    let mut out = Vec::new();
    append_signature(&mut out, &sig);
    // The stored form is DER, not the raw 64 bytes.
    assert_ne!(out.len(), 8 + 64);
    assert_eq!(out[8], 0x30);
    let mut c = Cursor::new(out);
    let back = read_signature(&mut c).ok().unwrap();
    assert_eq!(back.bytes, sig.bytes);
}

#[test]
fn signature_invalid() {
    assert_eq!(decode_signature(&[1, 2, 3]).err(), Some(DecodeError::InvalidSignature));
    let mut out = Vec::new();
    append_len_bytes(&mut out, &[0x30, 0x00]);
    assert_eq!(read_signature(&mut Cursor::new(out)).err(), Some(DecodeError::InvalidSignature));
}

#[test]
fn option_signature_roundtrip() {
    let verifier = fixed_key(3);
    let device = fixed_key(4);
    let (_, sig) = signed_response(&verifier, &device);
    let mut out = Vec::new();
    append_option_signature(&mut out, &None);
    append_option_signature(&mut out, &Some(sig.copy()));
    let mut c = Cursor::new(out);
    assert!(read_option_signature(&mut c).ok().unwrap().is_none());
    assert_eq!(read_option_signature(&mut c).ok().unwrap().unwrap().bytes, sig.bytes);
    assert_eq!(read_option_signature(&mut Cursor::new(vec![3])).err(), Some(DecodeError::InvalidTag(3)));
}

#[test]
fn verifying_key_roundtrip_and_recompression() {
    let device = fixed_key(9);
    let mut out = Vec::new();
    append_verifying_key(&mut out, &device.verifying_key);
    let back = read_verifying_key(&mut Cursor::new(out)).ok().unwrap();
    assert_eq!(back.sec1, device.verifying_key.sec1);
    // An uncompressed key is read back in its compressed form.
    let k = k256::ecdsa::SigningKey::from_slice(&[9u8; 32]).unwrap();
    let uncompressed = k256::ecdsa::VerifyingKey::from(&k).to_encoded_point(false).as_bytes().to_vec();
    assert_eq!(uncompressed.len(), 65);
    let mut img = Vec::new();
    append_len_bytes(&mut img, &uncompressed);
    let read = read_verifying_key(&mut Cursor::new(img)).ok().unwrap();
    assert_eq!(read.sec1, device.verifying_key.sec1);
}

#[test]
fn verifying_key_invalid() {
    let bad = VerifyingKey { sec1: vec![5u8; 33] };
    let mut img2 = Vec::new();
    append_verifying_key(&mut img2, &bad);
    assert_eq!(read_verifying_key(&mut Cursor::new(img2)).err(), Some(DecodeError::InvalidVerifyingKey));
}

#[test]
fn proof_and_ark_vk_roundtrip() {
    let p = decode_proof(&proof_bytes()).ok().unwrap();
    assert_eq!(encode_proof(&p), proof_bytes());
    let v = decode_ark_vk(&ark_vk_bytes()).ok().unwrap();
    assert_eq!(encode_ark_vk(&v), ark_vk_bytes());
    assert_eq!(decode_proof(&[1, 2, 3]).err(), Some(DecodeError::InvalidProof));
    assert_eq!(decode_ark_vk(&[1, 2, 3]).err(), Some(DecodeError::InvalidArkVerifyingKey));
}

#[test]
fn device_client_roundtrip() {
    let device = fixed_key(5);
    let v = DeviceClientInfor::new(device.verifying_key.copy(), s(77), "firmware v1.2".to_string());
    assert_eq!(v.evidence, vec![32, 35, 35]);
    let bytes = encode_device_client_infor(&v);
    let back = decode_device_client_infor(bytes).ok().unwrap();
    assert_eq!(back.verifying_key.sec1, v.verifying_key.sec1);
    assert_eq!(back.measured_value, "firmware v1.2");
    assert_eq!(back.merkle_leaf, s(77));
    assert_eq!(back.evidence, vec![32, 35, 35]);
}

#[test]
fn device_client_truncated() {
    let device = fixed_key(5);
    let v = DeviceClientInfor::new(device.verifying_key.copy(), s(77), "m".to_string());
    let mut bytes = encode_device_client_infor(&v);
    bytes.truncate(bytes.len() - 1);
    assert_eq!(decode_device_client_infor(bytes).err(), Some(DecodeError::UnexpectedEnd));
}

#[test]
fn public_context_roundtrip() {
    let verifier = fixed_key(6);
    let ctx = PublicContext { root: vec![s(1), s(2), s(3)], verifier_pk: verifier.verifying_key.copy() };
    let back = decode_public_context(encode_public_context(&ctx)).ok().unwrap();
    assert_eq!(back.root, ctx.root);
    assert_eq!(back.verifier_pk.sec1, ctx.verifier_pk.sec1);
}

#[test]
fn response_roundtrip() {
    let verifier = fixed_key(3);
    let device = fixed_key(4);
    let (mut resp, sig) = signed_response(&verifier, &device);
    resp.set_shrubs_path_and_tag(vec![s(10), s(11)], vec![true, false]);
    let bytes = encode_response_device_infor(&resp);
    assert!(!response_duration_overflows(&bytes));
    let back = decode_response_device_infor(bytes).ok().unwrap();
    assert_eq!(back.verifying_key.sec1, device.verifying_key.sec1);
    assert_eq!(back.timestamp, Duration::new(1_700_000_000, 5));
    assert_eq!(back.period, Duration::from_secs(8640000));
    assert_eq!(back.sig.unwrap().bytes, sig.bytes);
    assert_eq!(back.shrubs_path, Some(vec![s(10), s(11)]));
    assert_eq!(back.shrubs_tag, Some(vec![true, false]));
}

#[test]
fn response_without_options_roundtrip() {
    let device = fixed_key(4);
    let resp = ResponseDeviceInfor::new(device.verifying_key.copy(), Duration::new(12, 0));
    let back = decode_response_device_infor(encode_response_device_infor(&resp)).ok().unwrap();
    assert!(back.sig.is_none());
    assert!(back.shrubs_path.is_none());
    assert!(back.shrubs_tag.is_none());
    assert_eq!(back.timestamp.as_secs(), 12);
}

#[test]
fn response_duration_overflow_is_detected() {
    let device = fixed_key(4);
    let mut bytes = Vec::new();
    append_verifying_key(&mut bytes, &device.verifying_key);
    push_u64_be(&mut bytes, u64::MAX);
    push_u32_be(&mut bytes, 2_000_000_000);
    assert!(response_duration_overflows(&bytes));
}

#[test]
fn evidence_bundle_roundtrip() {
    let verifier = fixed_key(3);
    let device = fixed_key(4);
    let (_, sig) = signed_response(&verifier, &device);
    let reply = EvidenceReply {
        proof: decode_proof(&proof_bytes()).ok().unwrap(),
        vk: decode_ark_vk(&ark_vk_bytes()).ok().unwrap(),
        sig: sig.copy(),
        pk: device.verifying_key.copy(),
        timestamp: s(1_700_000_000),
        period: s(8640000),
        authorized_infor: s(424242),
    };
    let bytes = encode_evidence_bundle(&reply, &sig);
    let (back, dev_sig) = decode_evidence_bundle(bytes).ok().unwrap();
    assert_eq!(back.proof.bytes, reply.proof.bytes);
    assert_eq!(back.vk.bytes, reply.vk.bytes);
    assert_eq!(back.sig.bytes, sig.bytes);
    assert_eq!(back.pk.sec1, device.verifying_key.sec1);
    assert_eq!(back.timestamp, s(1_700_000_000));
    assert_eq!(back.period, s(8640000));
    assert_eq!(back.authorized_infor, s(424242));
    assert_eq!(dev_sig.bytes, sig.bytes);
}

#[test]
fn evidence_bundle_bad_proof() {
    let mut bytes = Vec::new();
    append_len_bytes(&mut bytes, &[1, 2, 3]);
    assert_eq!(decode_evidence_bundle(bytes).err(), Some(DecodeError::InvalidProof));
}

#[test]
fn signature_validity_check() {
    let verifier = fixed_key(3);
    let device = fixed_key(4);
    let (_, sig) = signed_response(&verifier, &device);
    assert!(sig.is_valid());
    assert!(!Signature { bytes: vec![0u8; 64] }.is_valid());
    assert!(!Signature { bytes: vec![1u8; 63] }.is_valid());
    assert!(!Signature { bytes: vec![0xffu8; 64] }.is_valid());
    assert_eq!(device.verifying_key.sec1.len(), 33);
}
