//! The byte images in which the attestation records are stored and read
//! back.

use vstd::prelude::*;
use vstd::utf8::encode_utf8;
use vstd::seq_lib::lemma_concat_associative;
use crate::field::{Scalar, modulus};
use crate::interpolation::all_wf;
use crate::codec::{Cursor, duration_overflows_at, DecodeError, Duration, len_bytes_enc, parse_len_bytes, string_enc, parse_string,
    scalar_enc, parse_scalar, scalar_values, scalar_vec_enc, parse_scalar_vec, duration_enc, parse_duration,
    duration_overflows, option_scalar_vec_enc, parse_option_scalar_vec, option_bool_vec_enc, parse_option_bool_vec,
    opt_scalar_values, opt_all_wf, opt_view, append_len_bytes, read_len_bytes, append_string, read_string,
    append_scalar, read_scalar, append_scalar_vec, read_scalar_vec, append_duration, read_duration,
    append_option_scalar_vec, read_option_scalar_vec, append_option_bool_vec, read_option_bool_vec,
    lemma_len_bytes_roundtrip, lemma_string_roundtrip, lemma_scalar_roundtrip, lemma_scalar_vec_roundtrip,
    lemma_duration_roundtrip, lemma_option_scalar_vec_roundtrip, lemma_option_bool_vec_roundtrip};
use crate::keys::{copy_bytes, groth16_proof_decode, groth16_vk_decode, signature_from_der, sec1_decode, VerifyingKey, Signature, Groth16Proof, Groth16VerifyingKey, signing_key_bytes_valid, parse_verifying_key,
    signature_enc, parse_signature, option_signature_enc, parse_option_signature, opt_signature_bytes,
    parse_proof, parse_ark_vk, signature_der, signing_key_from_bytes, verifying_key_of, append_verifying_key,
    read_verifying_key, append_signature, read_signature, append_option_signature, read_option_signature,
    append_proof, read_proof, append_ark_vk, read_ark_vk, lemma_verifying_key_roundtrip,
    lemma_option_signature_roundtrip};
use crate::codec::{scalars_enc, lemma_scalars_layout, u64_from_be, u32_from_be, u64_be_bytes, u32_be_bytes, lemma_u64_bytes_roundtrip,
    lemma_u32_bytes_roundtrip};
use crate::keys::secp256k1_order;
use crate::field::{be_value, le_value, le_bytes, lemma_le_bytes_value, lemma_modulus_fits_32_bytes};
use crate::device::{KeyInfor, DeviceClientInfor, ResponseDeviceInfor, PublicContext, EvidenceReply};

verus! {

/// The stored image of a key pair: the secret key, length-prefixed.
pub fn encode_key_infor(key: &KeyInfor) -> (r: Vec<u8>)
    ensures
        r@ == len_bytes_enc(key.signing_key.bytes@),
{
    let mut out: Vec<u8> = Vec::new();
    append_len_bytes(&mut out, key.signing_key.bytes.as_slice());
    out
}

/// Reading a key pair's image: the secret key's bytes, or why they are not
/// one.
pub open spec fn parse_key_infor(s: Seq<u8>) -> Result<Seq<u8>, DecodeError> {
    match parse_len_bytes(s) {
        Ok((b, _)) => if b.len() != 32 {
            Err(DecodeError::InvalidSigningKeyLength(b.len() as usize))
        } else if !signing_key_bytes_valid(b) {
            Err(DecodeError::InvalidSigningKey)
        } else {
            Ok(b)
        },
        Err(e) => Err(e),
    }
}

/// Reads a key pair from its image; the public key is derived from the
/// secret key.
pub fn decode_key_infor(bytes: Vec<u8>) -> (r: Result<KeyInfor, DecodeError>)
    ensures
        match r {
            Ok(k) => k.wf() && parse_key_infor(bytes@) == Ok::<Seq<u8>, DecodeError>(k.signing_key.bytes@),
            Err(e) => parse_key_infor(bytes@) == Err::<Seq<u8>, DecodeError>(e),
        },
{
    let mut cursor = Cursor::new(bytes);
    let sk_bytes = read_len_bytes(&mut cursor)?;
    if sk_bytes.len() != 32 {
        return Err(DecodeError::InvalidSigningKeyLength(sk_bytes.len()));
    }
    let signing_key = match signing_key_from_bytes(sk_bytes.as_slice()) {
        Some(k) => k,
        None => return Err(DecodeError::InvalidSigningKey),
    };
    let verifying_key = verifying_key_of(&signing_key);
    Ok(KeyInfor { signing_key, verifying_key })
}

/// The stored image of a device report: public key, measurement, Merkle
/// leaf and evidence, each length-prefixed.
pub open spec fn device_client_enc(vk: Seq<u8>, measured: Seq<char>, leaf: nat, evidence: Seq<u8>) -> Seq<u8> {
    len_bytes_enc(vk) + string_enc(measured) + scalar_enc(leaf) + len_bytes_enc(evidence)
}

/// Reading a device report's image.
pub open spec fn parse_device_client(s: Seq<u8>) -> Result<(Seq<u8>, Seq<char>, nat, Seq<u8>), DecodeError> {
    match parse_verifying_key(s) {
        Ok((vk, t1)) => match parse_string(t1) {
            Ok((m, t2)) => match parse_scalar(t2) {
                Ok((leaf, t3)) => match parse_len_bytes(t3) {
                    Ok((ev, _)) => Ok((vk, m, leaf, ev)),
                    Err(e) => Err(e),
                },
                Err(e) => Err(e),
            },
            Err(e) => Err(e),
        },
        Err(e) => Err(e),
    }
}

/// Writes a device report.
pub fn encode_device_client_infor(value: &DeviceClientInfor) -> (r: Vec<u8>)
    requires
        value.merkle_leaf.wf(),
    ensures
        r@ == device_client_enc(value.verifying_key.sec1@, value.measured_value@, value.merkle_leaf.value(), value.evidence@),
{
    let mut out: Vec<u8> = Vec::new();
    append_verifying_key(&mut out, &value.verifying_key);
    append_string(&mut out, value.measured_value.as_str());
    append_scalar(&mut out, &value.merkle_leaf);
    append_len_bytes(&mut out, value.evidence.as_slice());
    out
}

/// Reads a device report.
pub fn decode_device_client_infor(bytes: Vec<u8>) -> (r: Result<DeviceClientInfor, DecodeError>)
    ensures
        match r {
            Ok(v) => v.verifying_key.wf() && v.merkle_leaf.wf() && parse_device_client(bytes@)
                == Ok::<(Seq<u8>, Seq<char>, nat, Seq<u8>), DecodeError>(
                    (v.verifying_key.sec1@, v.measured_value@, v.merkle_leaf.value(), v.evidence@)),
            Err(e) => parse_device_client(bytes@) == Err::<(Seq<u8>, Seq<char>, nat, Seq<u8>), DecodeError>(e),
        },
{
    let mut cursor = Cursor::new(bytes);
    let verifying_key = read_verifying_key(&mut cursor)?;
    let measured_value = read_string(&mut cursor)?;
    let merkle_leaf = read_scalar(&mut cursor)?;
    let evidence = read_len_bytes(&mut cursor)?;
    Ok(DeviceClientInfor { verifying_key, measured_value, merkle_leaf, evidence })
}

/// The stored image of the verifier's public context: the Merkle root and
/// the verifier's public key.
pub open spec fn public_context_enc(root: Seq<nat>, pk: Seq<u8>) -> Seq<u8> {
    scalar_vec_enc(root) + len_bytes_enc(pk)
}

/// Reading the public context's image.
pub open spec fn parse_public_context(s: Seq<u8>) -> Result<(Seq<nat>, Seq<u8>), DecodeError> {
    match parse_scalar_vec(s) {
        Ok((root, t)) => match parse_verifying_key(t) {
            Ok((pk, _)) => Ok((root, pk)),
            Err(e) => Err(e),
        },
        Err(e) => Err(e),
    }
}

/// Writes the public context.
pub fn encode_public_context(value: &PublicContext) -> (r: Vec<u8>)
    requires
        all_wf(value.root@),
    ensures
        r@ == public_context_enc(scalar_values(value.root@), value.verifier_pk.sec1@),
{
    let mut out: Vec<u8> = Vec::new();
    append_scalar_vec(&mut out, value.root.as_slice());
    append_verifying_key(&mut out, &value.verifier_pk);
    out
}

/// Reads the public context.
pub fn decode_public_context(bytes: Vec<u8>) -> (r: Result<PublicContext, DecodeError>)
    ensures
        match r {
            Ok(v) => all_wf(v.root@) && v.verifier_pk.wf() && parse_public_context(bytes@)
                == Ok::<(Seq<nat>, Seq<u8>), DecodeError>((scalar_values(v.root@), v.verifier_pk.sec1@)),
            Err(e) => parse_public_context(bytes@) == Err::<(Seq<nat>, Seq<u8>), DecodeError>(e),
        },
{
    let mut cursor = Cursor::new(bytes);
    let root = read_scalar_vec(&mut cursor)?;
    let verifier_pk = read_verifying_key(&mut cursor)?;
    Ok(PublicContext { root, verifier_pk })
}

/// The stored image of an evidence bundle: the evidence's fields and then
/// the device's signature over it.
pub open spec fn evidence_bundle_enc(e: EvidenceReply, device_sig: Seq<u8>) -> Seq<u8> {
    len_bytes_enc(e.proof.bytes@) + len_bytes_enc(e.vk.bytes@) + signature_enc(e.sig.bytes@)
        + len_bytes_enc(e.pk.sec1@) + scalar_enc(e.timestamp.value()) + scalar_enc(e.period.value())
        + scalar_enc(e.authorized_infor.value()) + signature_enc(device_sig)
}

/// What an evidence bundle's image holds: proof, verifying key, verifier
/// signature, device public key, the three field elements, and the device
/// signature.
pub struct EvidenceImage {
    pub proof: Seq<u8>,
    pub vk: Seq<u8>,
    pub sig: Seq<u8>,
    pub pk: Seq<u8>,
    pub timestamp: nat,
    pub period: nat,
    pub authorized_infor: nat,
    pub device_sig: Seq<u8>,
}

/// Reading the first half of an evidence bundle's image: proof,
/// verifying key, verifier signature and device public key.
pub open spec fn parse_evidence_head(s: Seq<u8>) -> Result<(Seq<u8>, Seq<u8>, Seq<u8>, Seq<u8>, Seq<u8>), DecodeError> {
    match parse_proof(s) {
        Err(e) => Err(e),
        Ok((proof, t1)) => match parse_ark_vk(t1) {
            Err(e) => Err(e),
            Ok((vk, t2)) => match parse_signature(t2) {
                Err(e) => Err(e),
                Ok((sig, t3)) => match parse_verifying_key(t3) {
                    Err(e) => Err(e),
                    Ok((pk, t4)) => Ok((proof, vk, sig, pk, t4)),
                },
            },
        },
    }
}

/// Reading the second half of an evidence bundle's image: the three field
/// elements and the device signature.
pub open spec fn parse_evidence_tail(s: Seq<u8>) -> Result<(nat, nat, nat, Seq<u8>), DecodeError> {
    match parse_scalar(s) {
        Err(e) => Err(e),
        Ok((timestamp, t1)) => match parse_scalar(t1) {
            Err(e) => Err(e),
            Ok((period, t2)) => match parse_scalar(t2) {
                Err(e) => Err(e),
                Ok((authorized_infor, t3)) => match parse_signature(t3) {
                    Err(e) => Err(e),
                    Ok((device_sig, _)) => Ok((timestamp, period, authorized_infor, device_sig)),
                },
            },
        },
    }
}

/// Reading an evidence bundle's image.
pub open spec fn parse_evidence_bundle(s: Seq<u8>) -> Result<EvidenceImage, DecodeError> {
    match parse_evidence_head(s) {
        Err(e) => Err(e),
        Ok((proof, vk, sig, pk, t)) => match parse_evidence_tail(t) {
            Err(e) => Err(e),
            Ok((timestamp, period, authorized_infor, device_sig)) => Ok(EvidenceImage {
                proof, vk, sig, pk, timestamp, period, authorized_infor, device_sig,
            }),
        },
    }
}

/// The image that an evidence bundle is read back as.
pub open spec fn evidence_image(e: EvidenceReply, device_sig: Seq<u8>) -> EvidenceImage {
    EvidenceImage {
        proof: e.proof.bytes@,
        vk: e.vk.bytes@,
        sig: e.sig.bytes@,
        pk: e.pk.sec1@,
        timestamp: e.timestamp.value(),
        period: e.period.value(),
        authorized_infor: e.authorized_infor.value(),
        device_sig,
    }
}

/// Writes an evidence bundle.
pub fn encode_evidence_bundle(evidence_reply: &EvidenceReply, device_signature: &Signature) -> (r: Vec<u8>)
    requires
        evidence_reply.wf(),
        device_signature.wf(),
    ensures
        r@ == evidence_bundle_enc(*evidence_reply, device_signature.bytes@),
{
    let mut out: Vec<u8> = Vec::new();
    append_proof(&mut out, &evidence_reply.proof);
    append_ark_vk(&mut out, &evidence_reply.vk);
    append_signature(&mut out, &evidence_reply.sig);
    append_verifying_key(&mut out, &evidence_reply.pk);
    append_scalar(&mut out, &evidence_reply.timestamp);
    append_scalar(&mut out, &evidence_reply.period);
    append_scalar(&mut out, &evidence_reply.authorized_infor);
    append_signature(&mut out, device_signature);
    out
}

fn read_evidence_head(cursor: &mut Cursor) -> (r: Result<(Groth16Proof, Groth16VerifyingKey, Signature, VerifyingKey), DecodeError>)
    requires
        old(cursor).wf(),
    ensures
        final(cursor).wf(),
        match r {
            Ok((p, v, s, k)) => p.wf() && v.wf() && s.wf() && k.wf() && parse_evidence_head(old(cursor).rest())
                == Ok::<(Seq<u8>, Seq<u8>, Seq<u8>, Seq<u8>, Seq<u8>), DecodeError>((p.bytes@, v.bytes@, s.bytes@, k.sec1@, final(cursor).rest())),
            Err(e) => parse_evidence_head(old(cursor).rest()) == Err::<(Seq<u8>, Seq<u8>, Seq<u8>, Seq<u8>, Seq<u8>), DecodeError>(e),
        },
{
    let proof = read_proof(cursor)?;
    let vk = read_ark_vk(cursor)?;
    let sig = read_signature(cursor)?;
    let pk = read_verifying_key(cursor)?;
    Ok((proof, vk, sig, pk))
}

fn read_evidence_tail(cursor: &mut Cursor) -> (r: Result<(Scalar, Scalar, Scalar, Signature), DecodeError>)
    requires
        old(cursor).wf(),
    ensures
        final(cursor).wf(),
        match r {
            Ok((t, p, a, s)) => t.wf() && p.wf() && a.wf() && s.wf() && parse_evidence_tail(old(cursor).rest())
                == Ok::<(nat, nat, nat, Seq<u8>), DecodeError>((t.value(), p.value(), a.value(), s.bytes@)),
            Err(e) => parse_evidence_tail(old(cursor).rest()) == Err::<(nat, nat, nat, Seq<u8>), DecodeError>(e),
        },
{
    let timestamp = read_scalar(cursor)?;
    let period = read_scalar(cursor)?;
    let authorized_infor = read_scalar(cursor)?;
    let device_signature = read_signature(cursor)?;
    Ok((timestamp, period, authorized_infor, device_signature))
}

/// Reads an evidence bundle.
pub fn decode_evidence_bundle(bytes: Vec<u8>) -> (r: Result<(EvidenceReply, Signature), DecodeError>)
    ensures
        match r {
            Ok((e, s)) => e.wf() && s.wf() && e.proof.wf() && e.vk.wf() && e.pk.wf()
                && parse_evidence_bundle(bytes@) == Ok::<EvidenceImage, DecodeError>(evidence_image(e, s.bytes@)),
            Err(e) => parse_evidence_bundle(bytes@) == Err::<EvidenceImage, DecodeError>(e),
        },
{
    let mut cursor = Cursor::new(bytes);
    let (proof, vk, sig, pk) = read_evidence_head(&mut cursor)?;
    let (timestamp, period, authorized_infor, device_signature) = read_evidence_tail(&mut cursor)?;
    Ok((EvidenceReply { proof, vk, sig, pk, timestamp, period, authorized_infor }, device_signature))
}


/// The stored image of a verifier response: device public key, start time,
/// period, and the optional signature, Merkle path and path tags.
pub open spec fn response_enc(vk: Seq<u8>, ts: Duration, period: Duration, sig: Option<Seq<u8>>,
    path: Option<Seq<nat>>, tag: Option<Seq<bool>>) -> Seq<u8> {
    len_bytes_enc(vk) + duration_enc(ts) + duration_enc(period) + option_signature_enc(sig)
        + option_scalar_vec_enc(path) + option_bool_vec_enc(tag)
}

/// What a verifier response's image holds.
pub struct ResponseImage {
    pub vk: Seq<u8>,
    pub timestamp: Duration,
    pub period: Duration,
    pub sig: Option<Seq<u8>>,
    pub path: Option<Seq<nat>>,
    pub tag: Option<Seq<bool>>,
}

/// Reading the first half of a verifier response's image: public key,
/// start time and period.
pub open spec fn parse_response_head(s: Seq<u8>) -> Result<(Seq<u8>, Duration, Duration, Seq<u8>), DecodeError> {
    match parse_verifying_key(s) {
        Err(e) => Err(e),
        Ok((vk, t1)) => match parse_duration(t1) {
            Err(e) => Err(e),
            Ok((timestamp, t2)) => match parse_duration(t2) {
                Err(e) => Err(e),
                Ok((period, t3)) => Ok((vk, timestamp, period, t3)),
            },
        },
    }
}

/// Reading the second half of a verifier response's image: the optional
/// signature, Merkle path and path tags.
pub open spec fn parse_response_tail(s: Seq<u8>) -> Result<(Option<Seq<u8>>, Option<Seq<nat>>, Option<Seq<bool>>), DecodeError> {
    match parse_option_signature(s) {
        Err(e) => Err(e),
        Ok((sig, t4)) => match parse_option_scalar_vec(t4) {
            Err(e) => Err(e),
            Ok((path, t5)) => match parse_option_bool_vec(t5) {
                Err(e) => Err(e),
                Ok((tag, _)) => Ok((sig, path, tag)),
            },
        },
    }
}

/// Reading a verifier response's image.
pub open spec fn parse_response(s: Seq<u8>) -> Result<ResponseImage, DecodeError> {
    match parse_response_head(s) {
        Err(e) => Err(e),
        Ok((vk, timestamp, period, t)) => match parse_response_tail(t) {
            Err(e) => Err(e),
            Ok((sig, path, tag)) => Ok(ResponseImage { vk, timestamp, period, sig, path, tag }),
        },
    }
}

/// One of the two durations in a response's image carries over past the
/// largest number of seconds (reading it would panic).
pub open spec fn response_duration_overflow(s: Seq<u8>) -> bool {
    match parse_verifying_key(s) {
        Ok((_, t1)) => duration_overflows(t1) || match parse_duration(t1) {
            Ok((_, t2)) => duration_overflows(t2),
            Err(_) => false,
        },
        Err(_) => false,
    }
}

/// The image that a response is read back as.
pub open spec fn response_image(v: ResponseDeviceInfor) -> ResponseImage {
    ResponseImage {
        vk: v.verifying_key.sec1@,
        timestamp: v.timestamp,
        period: v.period,
        sig: opt_signature_bytes(v.sig),
        path: opt_scalar_values(v.shrubs_path),
        tag: opt_view(v.shrubs_tag),
    }
}

/// Writes a verifier response.
pub fn encode_response_device_infor(value: &ResponseDeviceInfor) -> (r: Vec<u8>)
    requires
        value.sig matches Some(s) ==> s.wf(),
        opt_all_wf(value.shrubs_path),
    ensures
        r@ == response_enc(value.verifying_key.sec1@, value.timestamp, value.period, opt_signature_bytes(value.sig),
            opt_scalar_values(value.shrubs_path), opt_view(value.shrubs_tag)),
{
    let mut out: Vec<u8> = Vec::new();
    append_verifying_key(&mut out, &value.verifying_key);
    append_duration(&mut out, value.timestamp);
    append_duration(&mut out, value.period);
    append_option_signature(&mut out, &value.sig);
    append_option_scalar_vec(&mut out, &value.shrubs_path);
    append_option_bool_vec(&mut out, &value.shrubs_tag);
    out
}

/// Whether reading a response's image would run into a duration that
/// carries over past the largest number of seconds.
pub fn response_duration_overflows(bytes: &Vec<u8>) -> (r: bool)
    ensures
        r == response_duration_overflow(bytes@),
{
    let mut cursor = Cursor::new(copy_bytes(bytes));
    match read_verifying_key(&mut cursor) {
        Err(_) => false,
        Ok(_) => {
            if duration_overflows_at(&cursor) {
                true
            } else {
                match read_duration(&mut cursor) {
                    Err(_) => false,
                    Ok(_) => duration_overflows_at(&cursor),
                }
            }
        },
    }
}

/// Reads a verifier response.
pub fn decode_response_device_infor(bytes: Vec<u8>) -> (r: Result<ResponseDeviceInfor, DecodeError>)
    requires
        !response_duration_overflow(bytes@),
    ensures
        match r {
            Ok(v) => v.verifying_key.wf() && v.timestamp.wf() && v.period.wf() && (v.sig matches Some(s) ==> s.wf())
                && opt_all_wf(v.shrubs_path)
                && parse_response(bytes@) == Ok::<ResponseImage, DecodeError>(response_image(v)),
            Err(e) => parse_response(bytes@) == Err::<ResponseImage, DecodeError>(e),
        },
{
    let mut cursor = Cursor::new(bytes);
    let verifying_key = read_verifying_key(&mut cursor)?;
    let timestamp = read_duration(&mut cursor)?;
    let period = read_duration(&mut cursor)?;
    let sig = read_option_signature(&mut cursor)?;
    let shrubs_path = read_option_scalar_vec(&mut cursor)?;
    let shrubs_tag = read_option_bool_vec(&mut cursor)?;
    Ok(ResponseDeviceInfor { timestamp, period, verifying_key, sig, shrubs_path, shrubs_tag })
}


/// A key pair written with `encode_key_infor` reads back with the same
/// secret key (and so, by `KeyInfor::wf`, the same public key).
pub proof fn lemma_key_infor_roundtrip(k: KeyInfor)
    requires
        k.wf(),
    ensures
        parse_key_infor(len_bytes_enc(k.signing_key.bytes@)) == Ok::<Seq<u8>, DecodeError>(k.signing_key.bytes@),
{
    let b = k.signing_key.bytes@;
    lemma_len_bytes_roundtrip(b, Seq::empty());
    assert(len_bytes_enc(b) + Seq::<u8>::empty() =~= len_bytes_enc(b));
}

/// Two valid key pairs with the same secret key have the same public key.
pub proof fn lemma_key_infor_determined_by_secret(a: KeyInfor, b: KeyInfor)
    requires
        a.wf(),
        b.wf(),
        a.signing_key.bytes@ == b.signing_key.bytes@,
    ensures
        a.verifying_key.sec1@ == b.verifying_key.sec1@,
{
}

/// A device report written with `encode_device_client_infor` reads back as
/// itself.
pub proof fn lemma_device_client_roundtrip(v: DeviceClientInfor)
    requires
        v.verifying_key.wf(),
        v.merkle_leaf.wf(),
        v.verifying_key.sec1@.len() <= u64::MAX,
        encode_utf8(v.measured_value@).len() <= u64::MAX,
        v.evidence@.len() <= u64::MAX,
    ensures
        parse_device_client(device_client_enc(v.verifying_key.sec1@, v.measured_value@, v.merkle_leaf.value(), v.evidence@))
            == Ok::<(Seq<u8>, Seq<char>, nat, Seq<u8>), DecodeError>(
                (v.verifying_key.sec1@, v.measured_value@, v.merkle_leaf.value(), v.evidence@)),
{
    let a = len_bytes_enc(v.verifying_key.sec1@);
    let b = string_enc(v.measured_value@);
    let c = scalar_enc(v.merkle_leaf.value());
    let d = len_bytes_enc(v.evidence@);
    let e = Seq::<u8>::empty();
    assert(device_client_enc(v.verifying_key.sec1@, v.measured_value@, v.merkle_leaf.value(), v.evidence@)
        =~= a + (b + (c + (d + e))));
    lemma_verifying_key_roundtrip(v.verifying_key, b + (c + (d + e)));
    lemma_string_roundtrip(v.measured_value@, c + (d + e));
    lemma_scalar_roundtrip(v.merkle_leaf.value(), d + e);
    lemma_len_bytes_roundtrip(v.evidence@, e);
}

/// The public context written with `encode_public_context` reads back as
/// itself.
pub proof fn lemma_public_context_roundtrip(v: PublicContext)
    requires
        all_wf(v.root@),
        v.root@.len() <= u64::MAX,
        v.verifier_pk.wf(),
        v.verifier_pk.sec1@.len() <= u64::MAX,
    ensures
        parse_public_context(public_context_enc(scalar_values(v.root@), v.verifier_pk.sec1@))
            == Ok::<(Seq<nat>, Seq<u8>), DecodeError>((scalar_values(v.root@), v.verifier_pk.sec1@)),
{
    let vs = scalar_values(v.root@);
    let e = Seq::<u8>::empty();
    assert forall|k: int| 0 <= k < vs.len() implies #[trigger] vs[k] < modulus() by {
        assert(v.root@[k].wf());
    }
    assert(public_context_enc(vs, v.verifier_pk.sec1@) =~= scalar_vec_enc(vs) + (len_bytes_enc(v.verifier_pk.sec1@) + e));
    lemma_scalar_vec_roundtrip(vs, len_bytes_enc(v.verifier_pk.sec1@) + e);
    lemma_verifying_key_roundtrip(v.verifier_pk, e);
}

proof fn lemma_evidence_head_roundtrip(proof: Seq<u8>, vk: Seq<u8>, sig: Seq<u8>, pk: Seq<u8>, rest: Seq<u8>)
    requires
        groth16_proof_decode(proof) == Some(proof),
        groth16_vk_decode(vk) == Some(vk),
        signature_from_der(signature_der(sig)) == Some(sig),
        sec1_decode(pk) == Some(pk),
        proof.len() <= u64::MAX,
        vk.len() <= u64::MAX,
        pk.len() <= u64::MAX,
        signature_der(sig).len() <= u64::MAX,
    ensures
        parse_evidence_head(len_bytes_enc(proof) + len_bytes_enc(vk) + signature_enc(sig) + len_bytes_enc(pk) + rest)
            == Ok::<(Seq<u8>, Seq<u8>, Seq<u8>, Seq<u8>, Seq<u8>), DecodeError>((proof, vk, sig, pk, rest)),
{
    let p1 = len_bytes_enc(proof);
    let p2 = len_bytes_enc(vk);
    let p3 = signature_enc(sig);
    let p4 = len_bytes_enc(pk);
    let t3 = p4 + rest;
    let t2 = p3 + t3;
    let t1 = p2 + t2;
    lemma_concat_associative(p1 + p2 + p3, p4, rest);
    lemma_concat_associative(p1 + p2, p3, t3);
    lemma_concat_associative(p1, p2, t2);
    lemma_len_bytes_roundtrip(proof, t1);
    lemma_len_bytes_roundtrip(vk, t2);
    lemma_len_bytes_roundtrip(signature_der(sig), t3);
    lemma_len_bytes_roundtrip(pk, rest);
    assert(parse_proof(p1 + t1) == Ok::<(Seq<u8>, Seq<u8>), DecodeError>((proof, t1)));
    assert(parse_ark_vk(t1) == Ok::<(Seq<u8>, Seq<u8>), DecodeError>((vk, t2)));
    assert(parse_signature(t2) == Ok::<(Seq<u8>, Seq<u8>), DecodeError>((sig, t3)));
    assert(parse_verifying_key(t3) == Ok::<(Seq<u8>, Seq<u8>), DecodeError>((pk, rest)));
}

proof fn lemma_evidence_tail_roundtrip(ts: nat, period: nat, auth: nat, dsig: Seq<u8>)
    requires
        ts < modulus(),
        period < modulus(),
        auth < modulus(),
        signature_from_der(signature_der(dsig)) == Some(dsig),
        signature_der(dsig).len() <= u64::MAX,
    ensures
        parse_evidence_tail(scalar_enc(ts) + scalar_enc(period) + scalar_enc(auth) + signature_enc(dsig))
            == Ok::<(nat, nat, nat, Seq<u8>), DecodeError>((ts, period, auth, dsig)),
{
    let p5 = scalar_enc(ts);
    let p6 = scalar_enc(period);
    let p7 = scalar_enc(auth);
    let p8 = signature_enc(dsig);
    let e = Seq::<u8>::empty();
    let t6 = p7 + p8;
    let t5 = p6 + t6;
    assert(p8 + e =~= p8);
    lemma_concat_associative(p5 + p6, p7, p8);
    lemma_concat_associative(p5, p6, t6);
    lemma_scalar_roundtrip(ts, t5);
    lemma_scalar_roundtrip(period, t6);
    lemma_scalar_roundtrip(auth, p8);
    lemma_len_bytes_roundtrip(signature_der(dsig), e);
    assert(parse_scalar(p5 + t5) == Ok::<(nat, Seq<u8>), DecodeError>((ts, t5)));
    assert(parse_scalar(t5) == Ok::<(nat, Seq<u8>), DecodeError>((period, t6)));
    assert(parse_scalar(t6) == Ok::<(nat, Seq<u8>), DecodeError>((auth, p8)));
    assert(parse_signature(p8) == Ok::<(Seq<u8>, Seq<u8>), DecodeError>((dsig, e)));
}

/// An evidence bundle written with `encode_evidence_bundle` reads back as
/// itself.
pub proof fn lemma_evidence_bundle_roundtrip(ev: EvidenceReply, device_sig: Signature)
    requires
        ev.wf(),
        ev.proof.wf(),
        ev.vk.wf(),
        ev.pk.wf(),
        device_sig.wf(),
        ev.proof.bytes@.len() <= u64::MAX,
        ev.vk.bytes@.len() <= u64::MAX,
        ev.pk.sec1@.len() <= u64::MAX,
        signature_der(ev.sig.bytes@).len() <= u64::MAX,
        signature_der(device_sig.bytes@).len() <= u64::MAX,
    ensures
        parse_evidence_bundle(evidence_bundle_enc(ev, device_sig.bytes@))
            == Ok::<EvidenceImage, DecodeError>(evidence_image(ev, device_sig.bytes@)),
{
    let rest = scalar_enc(ev.timestamp.value()) + scalar_enc(ev.period.value())
        + scalar_enc(ev.authorized_infor.value()) + signature_enc(device_sig.bytes@);
    assert(evidence_bundle_enc(ev, device_sig.bytes@) =~= len_bytes_enc(ev.proof.bytes@) + len_bytes_enc(ev.vk.bytes@)
        + signature_enc(ev.sig.bytes@) + len_bytes_enc(ev.pk.sec1@) + rest);
    lemma_evidence_head_roundtrip(ev.proof.bytes@, ev.vk.bytes@, ev.sig.bytes@, ev.pk.sec1@, rest);
    lemma_evidence_tail_roundtrip(ev.timestamp.value(), ev.period.value(), ev.authorized_infor.value(), device_sig.bytes@);
}

proof fn lemma_response_head_roundtrip(v: ResponseDeviceInfor, rest: Seq<u8>)
    requires
        v.verifying_key.wf(),
        v.timestamp.wf(),
        v.period.wf(),
        v.verifying_key.sec1@.len() <= u64::MAX,
    ensures
        !response_duration_overflow(len_bytes_enc(v.verifying_key.sec1@) + duration_enc(v.timestamp) + duration_enc(v.period) + rest),
        parse_response_head(len_bytes_enc(v.verifying_key.sec1@) + duration_enc(v.timestamp) + duration_enc(v.period) + rest)
            == Ok::<(Seq<u8>, Duration, Duration, Seq<u8>), DecodeError>((v.verifying_key.sec1@, v.timestamp, v.period, rest)),
{
    let p1 = len_bytes_enc(v.verifying_key.sec1@);
    let p2 = duration_enc(v.timestamp);
    let p3 = duration_enc(v.period);
    let t2 = p3 + rest;
    let t1 = p2 + t2;
    lemma_concat_associative(p1 + p2, p3, rest);
    lemma_concat_associative(p1, p2, t2);
    lemma_verifying_key_roundtrip(v.verifying_key, t1);
    lemma_duration_roundtrip(v.timestamp, t2);
    lemma_duration_roundtrip(v.period, rest);
}

proof fn lemma_response_tail_roundtrip(v: ResponseDeviceInfor)
    requires
        v.sig matches Some(s) ==> s.wf() && signature_der(s.bytes@).len() <= u64::MAX,
        opt_all_wf(v.shrubs_path),
        v.shrubs_path matches Some(p) ==> p@.len() <= u64::MAX,
        v.shrubs_tag matches Some(t) ==> t@.len() <= u64::MAX,
    ensures
        parse_response_tail(option_signature_enc(opt_signature_bytes(v.sig)) + option_scalar_vec_enc(opt_scalar_values(v.shrubs_path))
            + option_bool_vec_enc(opt_view(v.shrubs_tag)))
            == Ok::<(Option<Seq<u8>>, Option<Seq<nat>>, Option<Seq<bool>>), DecodeError>(
                (opt_signature_bytes(v.sig), opt_scalar_values(v.shrubs_path), opt_view(v.shrubs_tag))),
{
    let p4 = option_signature_enc(opt_signature_bytes(v.sig));
    let p5 = option_scalar_vec_enc(opt_scalar_values(v.shrubs_path));
    let p6 = option_bool_vec_enc(opt_view(v.shrubs_tag));
    let e = Seq::<u8>::empty();
    let t5 = p6 + e;
    let t4 = p5 + t5;
    assert(p6 + e =~= p6);
    lemma_concat_associative(p4, p5, p6);
    lemma_option_signature_roundtrip(v.sig, t4);
    match v.shrubs_path {
        Some(p) => {
            let vs = scalar_values(p@);
            assert forall|k: int| 0 <= k < vs.len() implies #[trigger] vs[k] < modulus() by {
                assert(p@[k].wf());
            }
        },
        None => {},
    }
    lemma_option_scalar_vec_roundtrip(opt_scalar_values(v.shrubs_path), t5);
    lemma_option_bool_vec_roundtrip(opt_view(v.shrubs_tag), e);
}

/// A verifier response written with `encode_response_device_infor` can be
/// read (no duration overflows) and reads back as itself.
pub proof fn lemma_response_roundtrip(v: ResponseDeviceInfor)
    requires
        v.verifying_key.wf(),
        v.timestamp.wf(),
        v.period.wf(),
        v.sig matches Some(s) ==> s.wf() && signature_der(s.bytes@).len() <= u64::MAX,
        opt_all_wf(v.shrubs_path),
        v.shrubs_path matches Some(p) ==> p@.len() <= u64::MAX,
        v.shrubs_tag matches Some(t) ==> t@.len() <= u64::MAX,
        v.verifying_key.sec1@.len() <= u64::MAX,
    ensures
        !response_duration_overflow(response_enc(v.verifying_key.sec1@, v.timestamp, v.period,
            opt_signature_bytes(v.sig), opt_scalar_values(v.shrubs_path), opt_view(v.shrubs_tag))),
        parse_response(response_enc(v.verifying_key.sec1@, v.timestamp, v.period, opt_signature_bytes(v.sig),
            opt_scalar_values(v.shrubs_path), opt_view(v.shrubs_tag)))
            == Ok::<ResponseImage, DecodeError>(response_image(v)),
{
    let rest = option_signature_enc(opt_signature_bytes(v.sig)) + option_scalar_vec_enc(opt_scalar_values(v.shrubs_path))
        + option_bool_vec_enc(opt_view(v.shrubs_tag));
    assert(response_enc(v.verifying_key.sec1@, v.timestamp, v.period, opt_signature_bytes(v.sig),
        opt_scalar_values(v.shrubs_path), opt_view(v.shrubs_tag))
        =~= len_bytes_enc(v.verifying_key.sec1@) + duration_enc(v.timestamp) + duration_enc(v.period) + rest);
    lemma_response_head_roundtrip(v, rest);
    lemma_response_tail_roundtrip(v);
}


/// The stored image of a verifier response starts with the length 33 and
/// the 33-byte device key, then the start time and the period, each as
/// whole seconds (eight big-endian bytes) and nanoseconds (four big-endian
/// bytes), then the tag byte of the signature: 1 when there is one, 0 when
/// there is none.
pub proof fn lemma_response_layout(vk: Seq<u8>, ts: Duration, period: Duration, sig: Option<Seq<u8>>,
    path: Option<Seq<nat>>, tag: Option<Seq<bool>>)
    requires
        vk.len() == 33,
    ensures
        ({
            let r = response_enc(vk, ts, period, sig, path, tag);
            &&& r.len() > 65
            &&& u64_from_be(r.subrange(0, 8)) == 33
            &&& r.subrange(8, 41) == vk
            &&& u64_from_be(r.subrange(41, 49)) == ts.secs
            &&& u32_from_be(r.subrange(49, 53)) == ts.nanos
            &&& u64_from_be(r.subrange(53, 61)) == period.secs
            &&& u32_from_be(r.subrange(61, 65)) == period.nanos
            &&& r[65] == (if sig is Some { 1u8 } else { 0u8 })
        }),
{
    let r = response_enc(vk, ts, period, sig, path, tag);
    let os = option_signature_enc(sig);
    assert(os.len() >= 1 && os[0] == (if sig is Some { 1u8 } else { 0u8 }));
    assert(r.subrange(0, 8) =~= u64_be_bytes(33));
    assert(r.subrange(8, 41) =~= vk);
    assert(r.subrange(41, 49) =~= u64_be_bytes(ts.secs));
    assert(r.subrange(49, 53) =~= u32_be_bytes(ts.nanos));
    assert(r.subrange(53, 61) =~= u64_be_bytes(period.secs));
    assert(r.subrange(61, 65) =~= u32_be_bytes(period.nanos));
    assert(r[65] == os[0]);
    lemma_u64_bytes_roundtrip(33);
    lemma_u64_bytes_roundtrip(ts.secs);
    lemma_u32_bytes_roundtrip(ts.nanos);
    lemma_u64_bytes_roundtrip(period.secs);
    lemma_u32_bytes_roundtrip(period.nanos);
}

/// The stored image of a device report is the length 33 and the 33-byte
/// device key, then the length and UTF-8 bytes of the measurement, then the
/// length 32 and the 32 little-endian bytes of the Merkle leaf, then the
/// length and bytes of the evidence.
pub proof fn lemma_device_client_layout(vk: Seq<u8>, measured: Seq<char>, leaf: nat, evidence: Seq<u8>)
    requires
        vk.len() == 33,
        leaf < modulus(),
        encode_utf8(measured).len() <= u64::MAX,
        evidence.len() <= u64::MAX,
    ensures
        ({
            let r = device_client_enc(vk, measured, leaf, evidence);
            let l = encode_utf8(measured).len() as int;
            &&& r.len() == 97 + l + evidence.len()
            &&& u64_from_be(r.subrange(0, 8)) == 33
            &&& r.subrange(8, 41) == vk
            &&& u64_from_be(r.subrange(41, 49)) == l
            &&& r.subrange(49, 49 + l) == encode_utf8(measured)
            &&& u64_from_be(r.subrange(49 + l, 57 + l)) == 32
            &&& le_value(r.subrange(57 + l, 89 + l)) == leaf
            &&& u64_from_be(r.subrange(89 + l, 97 + l)) == evidence.len()
            &&& r.subrange(97 + l, r.len() as int) == evidence
        }),
{
    let r = device_client_enc(vk, measured, leaf, evidence);
    let u = encode_utf8(measured);
    let l = u.len() as int;
    lemma_modulus_fits_32_bytes();
    lemma_le_bytes_value(leaf, 32);
    assert(r.subrange(0, 8) =~= u64_be_bytes(33));
    assert(r.subrange(8, 41) =~= vk);
    assert(r.subrange(41, 49) =~= u64_be_bytes(l as u64));
    assert(r.subrange(49, 49 + l) =~= u);
    assert(r.subrange(49 + l, 57 + l) =~= u64_be_bytes(32));
    assert(r.subrange(57 + l, 89 + l) =~= le_bytes(leaf, 32));
    assert(r.subrange(89 + l, 97 + l) =~= u64_be_bytes(evidence.len() as u64));
    assert(r.subrange(97 + l, r.len() as int) =~= evidence);
    lemma_u64_bytes_roundtrip(33);
    lemma_u64_bytes_roundtrip(32);
    lemma_u64_bytes_roundtrip(l as u64);
    lemma_u64_bytes_roundtrip(evidence.len() as u64);
}

/// The stored image of an evidence bundle is, each with its length in
/// front: the proof, the verifying key, the verifier's DER signature, the
/// 33-byte device key, the timestamp, the period and the authorisation
/// value (32 little-endian bytes each, in that order), then the device's DER
/// signature.
#[verifier::spinoff_prover]
#[verifier::rlimit(100)]
pub proof fn lemma_evidence_bundle_layout(e: EvidenceReply, device_sig: Seq<u8>)
    requires
        e.wf(),
        e.pk.sec1@.len() == 33,
        e.proof.bytes@.len() <= u64::MAX,
        e.vk.bytes@.len() <= u64::MAX,
        signature_der(e.sig.bytes@).len() <= u64::MAX,
    ensures
        ({
            let r = evidence_bundle_enc(e, device_sig);
            let a = e.proof.bytes@.len() as int;
            let b = e.vk.bytes@.len() as int;
            let d = signature_der(e.sig.bytes@).len() as int;
            let o = 24 + a + b + d;
            &&& r.len() >= o + 161
            &&& u64_from_be(r.subrange(0, 8)) == a
            &&& r.subrange(8, 8 + a) == e.proof.bytes@
            &&& u64_from_be(r.subrange(8 + a, 16 + a)) == b
            &&& r.subrange(16 + a, 16 + a + b) == e.vk.bytes@
            &&& u64_from_be(r.subrange(16 + a + b, 24 + a + b)) == d
            &&& r.subrange(24 + a + b, o) == signature_der(e.sig.bytes@)
            &&& u64_from_be(r.subrange(o, o + 8)) == 33
            &&& r.subrange(o + 8, o + 41) == e.pk.sec1@
            &&& u64_from_be(r.subrange(o + 41, o + 49)) == 32
            &&& le_value(r.subrange(o + 49, o + 81)) == e.timestamp.value()
            &&& u64_from_be(r.subrange(o + 81, o + 89)) == 32
            &&& le_value(r.subrange(o + 89, o + 121)) == e.period.value()
            &&& u64_from_be(r.subrange(o + 121, o + 129)) == 32
            &&& le_value(r.subrange(o + 129, o + 161)) == e.authorized_infor.value()
            &&& r.subrange(o + 161, r.len() as int) == signature_enc(device_sig)
        }),
{
    let r = evidence_bundle_enc(e, device_sig);
    let a = e.proof.bytes@.len() as int;
    let b = e.vk.bytes@.len() as int;
    let der = signature_der(e.sig.bytes@);
    let d = der.len() as int;
    let o = 24 + a + b + d;
    lemma_modulus_fits_32_bytes();
    lemma_le_bytes_value(e.timestamp.value(), 32);
    lemma_le_bytes_value(e.period.value(), 32);
    lemma_le_bytes_value(e.authorized_infor.value(), 32);
    assert(r.subrange(0, 8) =~= u64_be_bytes(a as u64));
    assert(r.subrange(8, 8 + a) =~= e.proof.bytes@);
    assert(r.subrange(8 + a, 16 + a) =~= u64_be_bytes(b as u64));
    assert(r.subrange(16 + a, 16 + a + b) =~= e.vk.bytes@);
    assert(r.subrange(16 + a + b, 24 + a + b) =~= u64_be_bytes(d as u64));
    assert(r.subrange(24 + a + b, o) =~= der);
    assert(r.subrange(o, o + 8) =~= u64_be_bytes(33));
    assert(r.subrange(o + 8, o + 41) =~= e.pk.sec1@);
    assert(r.subrange(o + 41, o + 49) =~= u64_be_bytes(32));
    assert(r.subrange(o + 49, o + 81) =~= le_bytes(e.timestamp.value(), 32));
    assert(r.subrange(o + 81, o + 89) =~= u64_be_bytes(32));
    assert(r.subrange(o + 89, o + 121) =~= le_bytes(e.period.value(), 32));
    assert(r.subrange(o + 121, o + 129) =~= u64_be_bytes(32));
    assert(r.subrange(o + 129, o + 161) =~= le_bytes(e.authorized_infor.value(), 32));
    assert(r.subrange(o + 161, r.len() as int) =~= signature_enc(device_sig));
    lemma_u64_bytes_roundtrip(a as u64);
    lemma_u64_bytes_roundtrip(b as u64);
    lemma_u64_bytes_roundtrip(d as u64);
    lemma_u64_bytes_roundtrip(33);
    lemma_u64_bytes_roundtrip(32);
}


/// The stored image of the public context is the number of root elements
/// (eight big-endian bytes), each element as the length 32 and its 32
/// little-endian bytes, then the length 33 and the 33-byte verifier key.
pub proof fn lemma_public_context_layout(root: Seq<nat>, pk: Seq<u8>)
    requires
        root.len() <= u64::MAX,
        forall|k: int| 0 <= k < root.len() ==> #[trigger] root[k] < modulus(),
        pk.len() == 33,
    ensures
        ({
            let r = public_context_enc(root, pk);
            let n = root.len() as int;
            &&& r.len() == 8 + 40 * n + 41
            &&& u64_from_be(r.subrange(0, 8)) == n
            &&& forall|k: int| 0 <= k < n ==> le_value(#[trigger] r.subrange(16 + 40 * k, 48 + 40 * k)) == root[k]
            &&& u64_from_be(r.subrange(8 + 40 * n, 16 + 40 * n)) == 33
            &&& r.subrange(16 + 40 * n, 49 + 40 * n) == pk
        }),
{
    let r = public_context_enc(root, pk);
    let n = root.len() as int;
    let se = scalars_enc(root);
    lemma_scalars_layout(root);
    assert(r == u64_be_bytes(n as u64) + se + len_bytes_enc(pk));
    assert(r.subrange(0, 8) =~= u64_be_bytes(n as u64));
    assert forall|k: int| 0 <= k < n implies le_value(#[trigger] r.subrange(16 + 40 * k, 48 + 40 * k)) == root[k] by {
        assert(le_value(se.subrange(40 * k + 8, 40 * k + 40)) == root[k]) by {
            assert(u64_from_be(se.subrange(40 * k, 40 * k + 8)) == 32);
        }
        assert(r.subrange(16 + 40 * k, 48 + 40 * k) =~= se.subrange(40 * k + 8, 40 * k + 40));
    }
    assert(r.subrange(8 + 40 * n, 16 + 40 * n) =~= u64_be_bytes(33));
    assert(r.subrange(16 + 40 * n, 49 + 40 * n) =~= pk);
    lemma_u64_bytes_roundtrip(n as u64);
    lemma_u64_bytes_roundtrip(33);
}


/// Reading a key pair's image accepts exactly a 32-byte secret key in
/// `1..n`: any other length is refused with that length, and 32 bytes
/// outside `1..n` are refused as an invalid key.
pub proof fn lemma_key_image_checks(sk: Seq<u8>, tail: Seq<u8>)
    requires
        sk.len() <= u64::MAX,
    ensures
        sk.len() != 32 ==> parse_key_infor(len_bytes_enc(sk) + tail)
            == Err::<Seq<u8>, DecodeError>(DecodeError::InvalidSigningKeyLength(sk.len() as usize)),
        sk.len() == 32 && !(0 < be_value(sk) < secp256k1_order()) ==> parse_key_infor(len_bytes_enc(sk) + tail)
            == Err::<Seq<u8>, DecodeError>(DecodeError::InvalidSigningKey),
        sk.len() == 32 && 0 < be_value(sk) < secp256k1_order() ==> parse_key_infor(len_bytes_enc(sk) + tail)
            == Ok::<Seq<u8>, DecodeError>(sk),
{
    lemma_len_bytes_roundtrip(sk, tail);
}

} // verus!
