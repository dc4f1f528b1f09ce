//! secp256k1 keys and ECDSA signatures, and Groth16 proofs and verifying
//! keys over BLS12-381, each held as its standard byte encoding.

use vstd::prelude::*;
use k256::ecdsa::signature::Signer;
use ark_serialize::{CanonicalDeserialize, CanonicalSerialize};
use ark_bls12_381::Bls12_381;
use rand_core::OsRng;
use crate::field::be_value;
use crate::codec::{Cursor, DecodeError, len_bytes_rest, lemma_reader_positions, len_bytes_enc, parse_len_bytes, append_len_bytes, read_len_bytes, read_exact, lemma_len_bytes_roundtrip};

verus! {

/// The order of the secp256k1 group.
pub open spec fn secp256k1_order() -> nat {
    0xFFFFFFFFFFFFFFFFFFFFFFFFFFFFFFFEBAAEDCE6AF48A03BBFD25E8CD0364141nat
}

/// 32 big-endian bytes of a secret scalar in `1..n`.
pub open spec fn signing_key_bytes_valid(b: Seq<u8>) -> bool {
    b.len() == 32 && 0 < be_value(b) < secp256k1_order()
}

/// 64 bytes `r || s` of two big-endian scalars in `1..n`.
pub open spec fn signature_bytes_valid(b: Seq<u8>) -> bool {
    &&& b.len() == 64
    &&& 0 < be_value(b.take(32)) < secp256k1_order()
    &&& 0 < be_value(b.skip(32)) < secp256k1_order()
}

/// `VerifyingKey::from_sec1_bytes` followed by `to_encoded_point(true)`:
/// the compressed SEC1 encoding of the public key that `bytes` encode, or
/// `None` when they encode none.
pub uninterp spec fn sec1_decode(bytes: Seq<u8>) -> Option<Seq<u8>>;

/// The compressed SEC1 encoding of the public key of a secret key.
pub uninterp spec fn secp256k1_public_key(sk: Seq<u8>) -> Seq<u8>;

/// The ECDSA/SHA-256 signature (RFC 6979 nonces) of `msg` under `sk`, as
/// `r || s`.
pub uninterp spec fn ecdsa_sign(sk: Seq<u8>, msg: Seq<u8>) -> Seq<u8>;

/// The ASN.1 DER encoding of the signature `r || s`.
pub uninterp spec fn signature_der(sig: Seq<u8>) -> Seq<u8>;

/// The signature `r || s` that a DER string holds, or `None`.
pub uninterp spec fn signature_from_der(bytes: Seq<u8>) -> Option<Seq<u8>>;

/// The uncompressed serialization of the Groth16 proof that `bytes`
/// hold, or `None`.
pub uninterp spec fn groth16_proof_decode(bytes: Seq<u8>) -> Option<Seq<u8>>;

/// The uncompressed serialization of the Groth16 verifying key that
/// `bytes` hold, or `None`.
pub uninterp spec fn groth16_vk_decode(bytes: Seq<u8>) -> Option<Seq<u8>>;

/// A secp256k1 secret key, as its 32 big-endian bytes.
pub struct SigningKey {
    pub bytes: Vec<u8>,
}

/// A secp256k1 public key, as its 33-byte compressed SEC1 encoding.
pub struct VerifyingKey {
    pub sec1: Vec<u8>,
}

/// An ECDSA signature over secp256k1, as the 64 bytes `r || s`.
pub struct Signature {
    pub bytes: Vec<u8>,
}

/// A Groth16 proof over BLS12-381, as its uncompressed serialization.
pub struct Groth16Proof {
    pub bytes: Vec<u8>,
}

/// A Groth16 verifying key over BLS12-381, as its uncompressed
/// serialization.
pub struct Groth16VerifyingKey {
    pub bytes: Vec<u8>,
}

impl SigningKey {
    /// The bytes are a secret scalar in `1..n`.
    pub open spec fn wf(&self) -> bool {
        signing_key_bytes_valid(self.bytes@)
    }

    /// A copy of the key.
    pub fn copy(&self) -> (r: SigningKey)
        ensures
            r.bytes@ == self.bytes@,
    {
        SigningKey { bytes: copy_bytes(&self.bytes) }
    }
}

impl VerifyingKey {
    /// The bytes are the 33-byte compressed encoding of a public key.
    pub open spec fn wf(&self) -> bool {
        &&& sec1_decode(self.sec1@) == Some(self.sec1@)
        &&& self.sec1@.len() == 33
    }

    /// A copy of the key.
    pub fn copy(&self) -> (r: VerifyingKey)
        ensures
            r.sec1@ == self.sec1@,
    {
        VerifyingKey { sec1: copy_bytes(&self.sec1) }
    }
}

impl Signature {
    /// Valid `r || s` bytes, whose DER encoding reads back as themselves.
    pub open spec fn wf(&self) -> bool {
        &&& signature_bytes_valid(self.bytes@)
        &&& signature_from_der(signature_der(self.bytes@)) == Some(self.bytes@)
    }

    /// Whether the bytes are a valid signature `r || s`.
    pub fn is_valid(&self) -> (r: bool)
        ensures
            r == self.wf(),
    {
        signature_bytes_accepted(self.bytes.as_slice())
    }

    /// A copy of the signature.
    pub fn copy(&self) -> (r: Signature)
        ensures
            r.bytes@ == self.bytes@,
    {
        Signature { bytes: copy_bytes(&self.bytes) }
    }
}

impl Groth16Proof {
    /// The bytes are the canonical serialization of a proof.
    pub open spec fn wf(&self) -> bool {
        groth16_proof_decode(self.bytes@) == Some(self.bytes@)
    }
}

impl Groth16VerifyingKey {
    /// The bytes are the canonical serialization of a verifying key.
    pub open spec fn wf(&self) -> bool {
        groth16_vk_decode(self.bytes@) == Some(self.bytes@)
    }
}

/// `SigningKey::<Secp256k1>::random(&mut OsRng)`: a fresh secret key from
/// the operating system's randomness. Which one is not stated.
#[verifier::external_body]
pub(crate) fn random_signing_key() -> (r: SigningKey)
    ensures
        r.wf(),
{
    let sk = k256::ecdsa::SigningKey::random(&mut OsRng);
    SigningKey { bytes: sk.to_bytes().to_vec() }
}

/// `SigningKey::from_bytes`: accepts exactly the secret scalars in `1..n`.
#[verifier::external_body]
pub(crate) fn signing_key_from_bytes(bytes: &[u8]) -> (r: Option<SigningKey>)
    requires
        bytes@.len() == 32,
    ensures
        r is Some <==> signing_key_bytes_valid(bytes@),
        r matches Some(k) ==> k.bytes@ == bytes@,
{
    match k256::ecdsa::SigningKey::from_slice(bytes) {
        Ok(sk) => Some(SigningKey { bytes: sk.to_bytes().to_vec() }),
        Err(_) => None,
    }
}

/// `VerifyingKey::from(&signing_key)` followed by
/// `to_encoded_point(true)`: the compressed public key (33 bytes: a tag and
/// the x coordinate), which decodes back to itself.
#[verifier::external_body]
pub(crate) fn verifying_key_of(sk: &SigningKey) -> (r: VerifyingKey)
    requires
        sk.wf(),
    ensures
        r.sec1@ == secp256k1_public_key(sk.bytes@),
        sec1_decode(r.sec1@) == Some(r.sec1@),
        r.sec1@.len() == 33,
{
    let k = k256::ecdsa::SigningKey::from_slice(&sk.bytes).unwrap();
    let vk = k256::ecdsa::VerifyingKey::from(&k);
    VerifyingKey { sec1: vk.to_encoded_point(true).as_bytes().to_vec() }
}

/// `Signer::sign` of a secp256k1 signing key: the deterministic ECDSA
/// signature of `msg`, as `r || s`.
#[verifier::external_body]
pub(crate) fn sign_message(sk: &SigningKey, msg: &[u8]) -> (r: Signature)
    requires
        sk.wf(),
    ensures
        r.bytes@ == ecdsa_sign(sk.bytes@, msg@),
        signature_bytes_valid(r.bytes@),
        signature_from_der(signature_der(r.bytes@)) == Some(r.bytes@),
{
    let k = k256::ecdsa::SigningKey::from_slice(&sk.bytes).unwrap();
    let sig: k256::ecdsa::Signature = k.sign(msg);
    Signature { bytes: sig.to_bytes().to_vec() }
}

/// `Signature::to_der`: the DER encoding, which `from_der` reads back as the
/// same signature.
#[verifier::external_body]
pub(crate) fn encode_signature(value: &Signature) -> (r: Vec<u8>)
    requires
        value.wf(),
    ensures
        r@ == signature_der(value.bytes@),
        signature_from_der(r@) == Some(value.bytes@),
{
    let sig = k256::ecdsa::Signature::from_slice(&value.bytes).unwrap();
    sig.to_der().as_bytes().to_vec()
}

/// `Signature::from_slice`: accepts exactly 64 bytes `r || s` whose two
/// scalars lie in `1..n`; the DER encoding of such a signature reads back as
/// the same signature.
#[verifier::external_body]
fn signature_bytes_accepted(bytes: &[u8]) -> (r: bool)
    ensures
        r == signature_bytes_valid(bytes@),
        r ==> signature_from_der(signature_der(bytes@)) == Some(bytes@),
{
    k256::ecdsa::Signature::from_slice(bytes).is_ok()
}

/// `Signature::from_der`: the signature that the DER string holds.
#[verifier::external_body]
fn signature_from_der_bytes(bytes: &[u8]) -> (r: Option<Signature>)
    ensures
        r matches Some(s) ==> Some(s.bytes@) == signature_from_der(bytes@) && signature_bytes_valid(s.bytes@)
            && signature_from_der(signature_der(s.bytes@)) == Some(s.bytes@),
        r is None <==> signature_from_der(bytes@) is None,
{
    match k256::ecdsa::Signature::from_der(bytes) {
        Ok(sig) => Some(Signature { bytes: sig.to_bytes().to_vec() }),
        Err(_) => None,
    }
}

/// `VerifyingKey::from_sec1_bytes`: the public key that the bytes encode,
/// re-encoded compressed (33 bytes); that encoding decodes back to itself.
#[verifier::external_body]
fn verifying_key_from_sec1(bytes: &[u8]) -> (r: Option<VerifyingKey>)
    ensures
        r matches Some(k) ==> Some(k.sec1@) == sec1_decode(bytes@) && sec1_decode(k.sec1@) == Some(k.sec1@)
            && k.sec1@.len() == 33,
        r is None <==> sec1_decode(bytes@) is None,
{
    match k256::ecdsa::VerifyingKey::from_sec1_bytes(bytes) {
        Ok(vk) => Some(VerifyingKey { sec1: vk.to_encoded_point(true).as_bytes().to_vec() }),
        Err(_) => None,
    }
}

/// `Proof::<Bls12_381>::deserialize_uncompressed`, re-serialized: the proof
/// that the bytes hold; its serialization reads back as itself.
#[verifier::external_body]
fn groth16_proof_from_bytes(bytes: &[u8]) -> (r: Option<Groth16Proof>)
    ensures
        r matches Some(p) ==> Some(p.bytes@) == groth16_proof_decode(bytes@) && groth16_proof_decode(p.bytes@) == Some(p.bytes@),
        r is None <==> groth16_proof_decode(bytes@) is None,
{
    match ark_groth16::Proof::<Bls12_381>::deserialize_uncompressed(bytes) {
        Ok(p) => {
            let mut out = Vec::new();
            p.serialize_uncompressed(&mut out).unwrap();
            Some(Groth16Proof { bytes: out })
        },
        Err(_) => None,
    }
}

/// `VerifyingKey::<Bls12_381>::deserialize_uncompressed` of Groth16,
/// re-serialized: the key that the bytes hold; its serialization reads back
/// as itself.
#[verifier::external_body]
fn groth16_vk_from_bytes(bytes: &[u8]) -> (r: Option<Groth16VerifyingKey>)
    ensures
        r matches Some(p) ==> Some(p.bytes@) == groth16_vk_decode(bytes@) && groth16_vk_decode(p.bytes@) == Some(p.bytes@),
        r is None <==> groth16_vk_decode(bytes@) is None,
{
    match ark_groth16::VerifyingKey::<Bls12_381>::deserialize_uncompressed(bytes) {
        Ok(p) => {
            let mut out = Vec::new();
            p.serialize_uncompressed(&mut out).unwrap();
            Some(Groth16VerifyingKey { bytes: out })
        },
        Err(_) => None,
    }
}


/// Reads a DER-encoded signature.
pub fn decode_signature(bytes: &[u8]) -> (r: Result<Signature, DecodeError>)
    ensures
        r is Ok <==> signature_from_der(bytes@) is Some,
        r matches Ok(s) ==> s.wf() && Some(s.bytes@) == signature_from_der(bytes@),
        r matches Err(e) ==> e == DecodeError::InvalidSignature,
{
    match signature_from_der_bytes(bytes) {
        Some(s) => Ok(s),
        None => Err(DecodeError::InvalidSignature),
    }
}

/// A signature as its DER encoding with the length in front.
pub open spec fn signature_enc(sig: Seq<u8>) -> Seq<u8> {
    len_bytes_enc(signature_der(sig))
}

/// Reading a length-prefixed DER signature from the front of `s`.
pub open spec fn parse_signature(s: Seq<u8>) -> Result<(Seq<u8>, Seq<u8>), DecodeError> {
    match parse_len_bytes(s) {
        Ok((b, t)) => match signature_from_der(b) {
            Some(sig) => Ok((sig, t)),
            None => Err(DecodeError::InvalidSignature),
        },
        Err(e) => Err(e),
    }
}

/// Appends the length-prefixed DER encoding of a signature.
pub fn append_signature(out: &mut Vec<u8>, value: &Signature)
    requires
        value.wf(),
    ensures
        final(out)@ == old(out)@ + signature_enc(value.bytes@),
{
    let der = encode_signature(value);
    append_len_bytes(out, der.as_slice());
}

/// Reads a length-prefixed DER signature.
pub fn read_signature(cursor: &mut Cursor) -> (r: Result<Signature, DecodeError>)
    requires
        old(cursor).wf(),
    ensures
        final(cursor).wf(),
        final(cursor).data@ == old(cursor).data@,
        final(cursor).rest() == len_bytes_rest(old(cursor).rest()),
        match r {
            Ok(v) => v.wf() && parse_signature(old(cursor).rest()) == Ok::<(Seq<u8>, Seq<u8>), DecodeError>((v.bytes@, final(cursor).rest())),
            Err(e) => parse_signature(old(cursor).rest()) == Err::<(Seq<u8>, Seq<u8>), DecodeError>(e),
        },
{
    let bytes = read_len_bytes(cursor)?;
    decode_signature(bytes.as_slice())
}

/// The bytes of an optional signature.
pub open spec fn opt_signature_bytes(o: Option<Signature>) -> Option<Seq<u8>> {
    match o {
        Some(s) => Some(s.bytes@),
        None => None,
    }
}

/// An optional signature as a tag byte and, when present, the signature.
pub open spec fn option_signature_enc(o: Option<Seq<u8>>) -> Seq<u8> {
    match o {
        None => seq![0u8],
        Some(sig) => seq![1u8] + signature_enc(sig),
    }
}

/// Reading an optional signature from the front of `s`.
pub open spec fn parse_option_signature(s: Seq<u8>) -> Result<(Option<Seq<u8>>, Seq<u8>), DecodeError> {
    if s.len() == 0 {
        Err(DecodeError::UnexpectedEnd)
    } else if s[0] == 0 {
        Ok((None, s.drop_first()))
    } else if s[0] == 1 {
        match parse_signature(s.drop_first()) {
            Ok((v, t)) => Ok((Some(v), t)),
            Err(e) => Err(e),
        }
    } else {
        Err(DecodeError::InvalidTag(s[0]))
    }
}

/// What is left of `s` after reading an optional signature, whether or not
/// the reading succeeds.
pub open spec fn option_signature_rest(s: Seq<u8>) -> Seq<u8> {
    if s.len() == 0 {
        Seq::empty()
    } else if s[0] == 1 {
        len_bytes_rest(s.drop_first())
    } else {
        s.drop_first()
    }
}

/// Appends a tag byte and, when present, the signature.
pub fn append_option_signature(out: &mut Vec<u8>, value: &Option<Signature>)
    requires
        value matches Some(s) ==> s.wf(),
    ensures
        final(out)@ == old(out)@ + option_signature_enc(opt_signature_bytes(*value)),
{
    match value {
        Some(sig) => {
            out.push(1);
            append_signature(out, sig);
        },
        None => out.push(0),
    }
    assert(out@ =~= old(out)@ + option_signature_enc(opt_signature_bytes(*value)));
}

/// Reads a tag byte and, when it says so, a signature.
pub fn read_option_signature(cursor: &mut Cursor) -> (r: Result<Option<Signature>, DecodeError>)
    requires
        old(cursor).wf(),
    ensures
        final(cursor).wf(),
        final(cursor).data@ == old(cursor).data@,
        final(cursor).rest() == option_signature_rest(old(cursor).rest()),
        match r {
            Ok(v) => (v matches Some(s) ==> s.wf()) && parse_option_signature(old(cursor).rest())
                == Ok::<(Option<Seq<u8>>, Seq<u8>), DecodeError>((opt_signature_bytes(v), final(cursor).rest())),
            Err(e) => parse_option_signature(old(cursor).rest()) == Err::<(Option<Seq<u8>>, Seq<u8>), DecodeError>(e),
        },
{
    let ghost s = cursor.rest();
    let tag = read_exact(cursor, 1)?;
    proof {
        assert(s.drop_first() == cursor.rest());
    }
    if tag[0] == 0 {
        Ok(None)
    } else if tag[0] == 1 {
        let v = read_signature(cursor)?;
        Ok(Some(v))
    } else {
        Err(DecodeError::InvalidTag(tag[0]))
    }
}

/// Reading a length-prefixed SEC1 public key from the front of `s`.
pub open spec fn parse_verifying_key(s: Seq<u8>) -> Result<(Seq<u8>, Seq<u8>), DecodeError> {
    match parse_len_bytes(s) {
        Ok((b, t)) => match sec1_decode(b) {
            Some(k) => Ok((k, t)),
            None => Err(DecodeError::InvalidVerifyingKey),
        },
        Err(e) => Err(e),
    }
}

/// Appends the length-prefixed compressed encoding of a public key.
pub fn append_verifying_key(out: &mut Vec<u8>, value: &VerifyingKey)
    ensures
        final(out)@ == old(out)@ + len_bytes_enc(value.sec1@),
{
    append_len_bytes(out, value.sec1.as_slice());
}

/// Reads a length-prefixed SEC1 public key.
pub fn read_verifying_key(cursor: &mut Cursor) -> (r: Result<VerifyingKey, DecodeError>)
    requires
        old(cursor).wf(),
    ensures
        final(cursor).wf(),
        final(cursor).data@ == old(cursor).data@,
        final(cursor).rest() == len_bytes_rest(old(cursor).rest()),
        match r {
            Ok(v) => v.wf() && parse_verifying_key(old(cursor).rest()) == Ok::<(Seq<u8>, Seq<u8>), DecodeError>((v.sec1@, final(cursor).rest())),
            Err(e) => parse_verifying_key(old(cursor).rest()) == Err::<(Seq<u8>, Seq<u8>), DecodeError>(e),
        },
{
    let bytes = read_len_bytes(cursor)?;
    match verifying_key_from_sec1(bytes.as_slice()) {
        Some(k) => Ok(k),
        None => Err(DecodeError::InvalidVerifyingKey),
    }
}

/// A copy of a byte vector.
pub fn copy_bytes(v: &Vec<u8>) -> (r: Vec<u8>)
    ensures
        r@ == v@,
{
    let mut r: Vec<u8> = Vec::new();
    let mut k: usize = 0;
    while k < v.len()
        invariant
            k <= v@.len(),
            r@ == v@.take(k as int),
        decreases v.len() - k,
    {
        r.push(v[k]);
        k = k + 1;
        assert(r@ =~= v@.take(k as int));
    }
    assert(v@.take(k as int) =~= v@);
    r
}

/// The uncompressed serialization of a Groth16 proof.
pub fn encode_proof(value: &Groth16Proof) -> (r: Vec<u8>)
    ensures
        r@ == value.bytes@,
{
    copy_bytes(&value.bytes)
}

/// Reads a Groth16 proof from its uncompressed serialization.
pub fn decode_proof(bytes: &[u8]) -> (r: Result<Groth16Proof, DecodeError>)
    ensures
        r is Ok <==> groth16_proof_decode(bytes@) is Some,
        r matches Ok(p) ==> p.wf() && Some(p.bytes@) == groth16_proof_decode(bytes@),
        r matches Err(e) ==> e == DecodeError::InvalidProof,
{
    match groth16_proof_from_bytes(bytes) {
        Some(p) => Ok(p),
        None => Err(DecodeError::InvalidProof),
    }
}

/// Reading a length-prefixed Groth16 proof from the front of `s`.
pub open spec fn parse_proof(s: Seq<u8>) -> Result<(Seq<u8>, Seq<u8>), DecodeError> {
    match parse_len_bytes(s) {
        Ok((b, t)) => match groth16_proof_decode(b) {
            Some(p) => Ok((p, t)),
            None => Err(DecodeError::InvalidProof),
        },
        Err(e) => Err(e),
    }
}

/// Appends the length-prefixed serialization of a Groth16 proof.
pub fn append_proof(out: &mut Vec<u8>, value: &Groth16Proof)
    ensures
        final(out)@ == old(out)@ + len_bytes_enc(value.bytes@),
{
    let bytes = encode_proof(value);
    append_len_bytes(out, bytes.as_slice());
}

/// Reads a length-prefixed Groth16 proof.
pub fn read_proof(cursor: &mut Cursor) -> (r: Result<Groth16Proof, DecodeError>)
    requires
        old(cursor).wf(),
    ensures
        final(cursor).wf(),
        final(cursor).data@ == old(cursor).data@,
        final(cursor).rest() == len_bytes_rest(old(cursor).rest()),
        match r {
            Ok(v) => v.wf() && parse_proof(old(cursor).rest()) == Ok::<(Seq<u8>, Seq<u8>), DecodeError>((v.bytes@, final(cursor).rest())),
            Err(e) => parse_proof(old(cursor).rest()) == Err::<(Seq<u8>, Seq<u8>), DecodeError>(e),
        },
{
    let bytes = read_len_bytes(cursor)?;
    decode_proof(bytes.as_slice())
}

/// The uncompressed serialization of a Groth16 verifying key.
pub fn encode_ark_vk(value: &Groth16VerifyingKey) -> (r: Vec<u8>)
    ensures
        r@ == value.bytes@,
{
    copy_bytes(&value.bytes)
}

/// Reads a Groth16 verifying key from its uncompressed serialization.
pub fn decode_ark_vk(bytes: &[u8]) -> (r: Result<Groth16VerifyingKey, DecodeError>)
    ensures
        r is Ok <==> groth16_vk_decode(bytes@) is Some,
        r matches Ok(p) ==> p.wf() && Some(p.bytes@) == groth16_vk_decode(bytes@),
        r matches Err(e) ==> e == DecodeError::InvalidArkVerifyingKey,
{
    match groth16_vk_from_bytes(bytes) {
        Some(p) => Ok(p),
        None => Err(DecodeError::InvalidArkVerifyingKey),
    }
}

/// Reading a length-prefixed Groth16 verifying key from the front of `s`.
pub open spec fn parse_ark_vk(s: Seq<u8>) -> Result<(Seq<u8>, Seq<u8>), DecodeError> {
    match parse_len_bytes(s) {
        Ok((b, t)) => match groth16_vk_decode(b) {
            Some(p) => Ok((p, t)),
            None => Err(DecodeError::InvalidArkVerifyingKey),
        },
        Err(e) => Err(e),
    }
}

/// Appends the length-prefixed serialization of a Groth16 verifying key.
pub fn append_ark_vk(out: &mut Vec<u8>, value: &Groth16VerifyingKey)
    ensures
        final(out)@ == old(out)@ + len_bytes_enc(value.bytes@),
{
    let bytes = encode_ark_vk(value);
    append_len_bytes(out, bytes.as_slice());
}

/// Reads a length-prefixed Groth16 verifying key.
pub fn read_ark_vk(cursor: &mut Cursor) -> (r: Result<Groth16VerifyingKey, DecodeError>)
    requires
        old(cursor).wf(),
    ensures
        final(cursor).wf(),
        final(cursor).data@ == old(cursor).data@,
        final(cursor).rest() == len_bytes_rest(old(cursor).rest()),
        match r {
            Ok(v) => v.wf() && parse_ark_vk(old(cursor).rest()) == Ok::<(Seq<u8>, Seq<u8>), DecodeError>((v.bytes@, final(cursor).rest())),
            Err(e) => parse_ark_vk(old(cursor).rest()) == Err::<(Seq<u8>, Seq<u8>), DecodeError>(e),
        },
{
    let bytes = read_len_bytes(cursor)?;
    decode_ark_vk(bytes.as_slice())
}

/// A valid signature written with `append_signature` reads back as itself.
pub proof fn lemma_signature_roundtrip(sig: Signature, tail: Seq<u8>)
    requires
        sig.wf(),
        signature_der(sig.bytes@).len() <= u64::MAX,
    ensures
        parse_signature(signature_enc(sig.bytes@) + tail) == Ok::<(Seq<u8>, Seq<u8>), DecodeError>((sig.bytes@, tail)),
{
    lemma_len_bytes_roundtrip(signature_der(sig.bytes@), tail);
}

/// An optional valid signature reads back as itself.
pub proof fn lemma_option_signature_roundtrip(o: Option<Signature>, tail: Seq<u8>)
    requires
        o matches Some(s) ==> s.wf() && signature_der(s.bytes@).len() <= u64::MAX,
    ensures
        parse_option_signature(option_signature_enc(opt_signature_bytes(o)) + tail)
            == Ok::<(Option<Seq<u8>>, Seq<u8>), DecodeError>((opt_signature_bytes(o), tail)),
{
    let s = option_signature_enc(opt_signature_bytes(o)) + tail;
    match o {
        None => {
            assert(s.drop_first() =~= tail);
        },
        Some(sig) => {
            assert(s.drop_first() =~= signature_enc(sig.bytes@) + tail);
            lemma_signature_roundtrip(sig, tail);
        },
    }
}

/// A public key written with `append_verifying_key` reads back as itself.
pub proof fn lemma_verifying_key_roundtrip(vk: VerifyingKey, tail: Seq<u8>)
    requires
        vk.wf(),
        vk.sec1@.len() <= u64::MAX,
    ensures
        parse_verifying_key(len_bytes_enc(vk.sec1@) + tail) == Ok::<(Seq<u8>, Seq<u8>), DecodeError>((vk.sec1@, tail)),
{
    lemma_len_bytes_roundtrip(vk.sec1@, tail);
}

/// A proof written with `append_proof` reads back as itself.
pub proof fn lemma_proof_roundtrip(p: Groth16Proof, tail: Seq<u8>)
    requires
        p.wf(),
        p.bytes@.len() <= u64::MAX,
    ensures
        parse_proof(len_bytes_enc(p.bytes@) + tail) == Ok::<(Seq<u8>, Seq<u8>), DecodeError>((p.bytes@, tail)),
{
    lemma_len_bytes_roundtrip(p.bytes@, tail);
}

/// A verifying key written with `append_ark_vk` reads back as itself.
pub proof fn lemma_ark_vk_roundtrip(p: Groth16VerifyingKey, tail: Seq<u8>)
    requires
        p.wf(),
        p.bytes@.len() <= u64::MAX,
    ensures
        parse_ark_vk(len_bytes_enc(p.bytes@) + tail) == Ok::<(Seq<u8>, Seq<u8>), DecodeError>((p.bytes@, tail)),
{
    lemma_len_bytes_roundtrip(p.bytes@, tail);
}


/// An optional signature is stored as the byte 0 for none, or the byte 1
/// and then the length-prefixed DER signature; a reader takes 0 as none and
/// 1 as some.
pub proof fn lemma_option_signature_layout(sig: Signature, tail: Seq<u8>)
    requires
        sig.wf(),
        signature_der(sig.bytes@).len() <= u64::MAX,
    ensures
        option_signature_enc(None) == seq![0u8],
        option_signature_enc(Some(sig.bytes@)) == seq![1u8] + signature_enc(sig.bytes@),
        parse_option_signature(seq![0u8] + tail) == Ok::<(Option<Seq<u8>>, Seq<u8>), DecodeError>((None, tail)),
        parse_option_signature(seq![1u8] + signature_enc(sig.bytes@) + tail)
            == Ok::<(Option<Seq<u8>>, Seq<u8>), DecodeError>((Some(sig.bytes@), tail)),
{
    let s0 = seq![0u8] + tail;
    let s1 = seq![1u8] + signature_enc(sig.bytes@) + tail;
    assert(s0.drop_first() =~= tail);
    assert(s1.drop_first() =~= signature_enc(sig.bytes@) + tail);
    assert(s1[0] == 1u8);
    lemma_signature_roundtrip(sig, tail);
}


/// An invalid option tag before a signature is consumed and reading stops
/// there; a valid signature's image is consumed whole.
pub proof fn lemma_option_signature_rest(sig: Seq<u8>, b: u8, t: Seq<u8>)
    requires
        b > 1,
        signature_der(sig).len() <= u64::MAX,
    ensures
        option_signature_rest(seq![b] + t) == t,
        option_signature_rest(seq![1u8] + signature_enc(sig) + t) == t,
        option_signature_rest(seq![0u8] + t) == t,
{
    assert((seq![b] + t).drop_first() =~= t);
    assert((seq![b] + t)[0] == b);
    assert((seq![0u8] + t).drop_first() =~= t);
    assert((seq![0u8] + t)[0] == 0u8);
    let s1 = seq![1u8] + signature_enc(sig) + t;
    assert(s1[0] == 1u8);
    assert(s1.drop_first() =~= len_bytes_enc(signature_der(sig)) + t);
    lemma_reader_positions(Seq::empty(), 0, signature_der(sig), t, 2, 1);
}

} // verus!
