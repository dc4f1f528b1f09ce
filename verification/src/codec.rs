//! The length-prefixed binary format in which attestation records are
//! stored: big-endian integers, length-prefixed byte strings, tagged
//! options, and a cursor that reads them back.

use vstd::prelude::*;
use vstd::utf8::{valid_utf8, decode_utf8, encode_utf8, encode_utf8_valid_utf8, encode_utf8_decode_utf8};
use vstd::string::StringSliceAdditionalSpecFns;
use crate::field::{Scalar, modulus, le_value, le_bytes, encode_scalar, scalar_from_bytes, lemma_le_bytes_value, lemma_modulus_fits_32_bytes};
use crate::interpolation::all_wf;

verus! {

/// Why a byte string could not be read back.
#[derive(Debug, PartialEq, Eq)]
pub enum DecodeError {
    /// The input ended before the value did.
    UnexpectedEnd,
    /// A string's bytes are not UTF-8.
    InvalidUtf8,
    /// A boolean byte other than 0 or 1.
    InvalidBool(u8),
    /// An option tag other than 0 or 1.
    InvalidTag(u8),
    /// Bytes that do not hold a canonical field element.
    InvalidScalar,
    /// Bytes that do not hold a DER-encoded ECDSA signature.
    InvalidSignature,
    /// Bytes that do not hold a SEC1-encoded secp256k1 public key.
    InvalidVerifyingKey,
    /// A secp256k1 secret key whose length is not 32 bytes.
    InvalidSigningKeyLength(usize),
    /// 32 bytes that are not a secp256k1 secret key.
    InvalidSigningKey,
    /// Bytes that do not hold a Groth16 proof.
    InvalidProof,
    /// Bytes that do not hold a Groth16 verifying key.
    InvalidArkVerifyingKey,
}

/// The eight big-endian bytes of `n`.
pub open spec fn u64_be_bytes(n: u64) -> Seq<u8> {
    seq![
        (n >> 56u64) as u8, (n >> 48u64) as u8, (n >> 40u64) as u8, (n >> 32u64) as u8,
        (n >> 24u64) as u8, (n >> 16u64) as u8, (n >> 8u64) as u8, n as u8,
    ]
}

/// The four big-endian bytes of `n`.
pub open spec fn u32_be_bytes(n: u32) -> Seq<u8> {
    seq![(n >> 24u32) as u8, (n >> 16u32) as u8, (n >> 8u32) as u8, n as u8]
}

/// The integer that eight big-endian bytes spell.
pub open spec fn u64_from_be(b: Seq<u8>) -> u64 {
    ((b[0] as u64) << 56u64) | ((b[1] as u64) << 48u64) | ((b[2] as u64) << 40u64) | ((b[3] as u64) << 32u64)
        | ((b[4] as u64) << 24u64) | ((b[5] as u64) << 16u64) | ((b[6] as u64) << 8u64) | (b[7] as u64)
}

/// The integer that four big-endian bytes spell.
pub open spec fn u32_from_be(b: Seq<u8>) -> u32 {
    ((b[0] as u32) << 24u32) | ((b[1] as u32) << 16u32) | ((b[2] as u32) << 8u32) | (b[3] as u32)
}

/// Eight big-endian bytes read back as the integer they were taken from.
pub proof fn lemma_u64_bytes_roundtrip(n: u64)
    ensures
        u64_from_be(u64_be_bytes(n)) == n,
{
    let b0 = (n >> 56u64) as u8;
    let b1 = (n >> 48u64) as u8;
    let b2 = (n >> 40u64) as u8;
    let b3 = (n >> 32u64) as u8;
    let b4 = (n >> 24u64) as u8;
    let b5 = (n >> 16u64) as u8;
    let b6 = (n >> 8u64) as u8;
    let b7 = n as u8;
    assert(((b0 as u64) << 56u64) | ((b1 as u64) << 48u64) | ((b2 as u64) << 40u64) | ((b3 as u64) << 32u64)
        | ((b4 as u64) << 24u64) | ((b5 as u64) << 16u64) | ((b6 as u64) << 8u64) | (b7 as u64) == n)
        by (bit_vector)
        requires
            b0 == (n >> 56u64) as u8, b1 == (n >> 48u64) as u8, b2 == (n >> 40u64) as u8,
            b3 == (n >> 32u64) as u8, b4 == (n >> 24u64) as u8, b5 == (n >> 16u64) as u8,
            b6 == (n >> 8u64) as u8, b7 == n as u8;
}

/// Four big-endian bytes read back as the integer they were taken from.
pub proof fn lemma_u32_bytes_roundtrip(n: u32)
    ensures
        u32_from_be(u32_be_bytes(n)) == n,
{
    let b0 = (n >> 24u32) as u8;
    let b1 = (n >> 16u32) as u8;
    let b2 = (n >> 8u32) as u8;
    let b3 = n as u8;
    assert(((b0 as u32) << 24u32) | ((b1 as u32) << 16u32) | ((b2 as u32) << 8u32) | (b3 as u32) == n)
        by (bit_vector)
        requires
            b0 == (n >> 24u32) as u8, b1 == (n >> 16u32) as u8, b2 == (n >> 8u32) as u8, b3 == n as u8;
}

/// Appends the eight big-endian bytes of `n`.
pub fn push_u64_be(out: &mut Vec<u8>, n: u64)
    ensures
        final(out)@ == old(out)@ + u64_be_bytes(n),
{
    out.push((n >> 56u64) as u8);
    out.push((n >> 48u64) as u8);
    out.push((n >> 40u64) as u8);
    out.push((n >> 32u64) as u8);
    out.push((n >> 24u64) as u8);
    out.push((n >> 16u64) as u8);
    out.push((n >> 8u64) as u8);
    out.push(n as u8);
    assert(out@ =~= old(out)@ + u64_be_bytes(n));
}

/// Appends the four big-endian bytes of `n`.
pub fn push_u32_be(out: &mut Vec<u8>, n: u32)
    ensures
        final(out)@ == old(out)@ + u32_be_bytes(n),
{
    out.push((n >> 24u32) as u8);
    out.push((n >> 16u32) as u8);
    out.push((n >> 8u32) as u8);
    out.push(n as u8);
    assert(out@ =~= old(out)@ + u32_be_bytes(n));
}

/// Appends every byte of `bytes`.
pub fn push_all(out: &mut Vec<u8>, bytes: &[u8])
    ensures
        final(out)@ == old(out)@ + bytes@,
{
    let mut k: usize = 0;
    while k < bytes.len()
        invariant
            k <= bytes@.len(),
            out@ == old(out)@ + bytes@.take(k as int),
        decreases bytes.len() - k,
    {
        out.push(bytes[k]);
        k = k + 1;
        assert(out@ =~= old(out)@ + bytes@.take(k as int));
    }
    assert(bytes@.take(k as int) =~= bytes@);
}

/// A byte string preceded by its length as eight big-endian bytes.
pub open spec fn len_bytes_enc(bytes: Seq<u8>) -> Seq<u8> {
    u64_be_bytes(bytes.len() as u64) + bytes
}

/// A named field: the name and then the data, each with its length in
/// front.
pub open spec fn field_enc(name: Seq<u8>, data: Seq<u8>) -> Seq<u8> {
    len_bytes_enc(name) + len_bytes_enc(data)
}

/// Appends `field_name` and `field_data`, each preceded by its length.
pub fn append_field(out: &mut Vec<u8>, field_name: &[u8], field_data: &[u8])
    ensures
        final(out)@ == old(out)@ + field_enc(field_name@, field_data@),
{
    push_u64_be(out, field_name.len() as u64);
    push_all(out, field_name);
    push_u64_be(out, field_data.len() as u64);
    push_all(out, field_data);
    assert(out@ =~= old(out)@ + field_enc(field_name@, field_data@));
}

/// Appends `bytes` preceded by its length.
pub fn append_len_bytes(out: &mut Vec<u8>, bytes: &[u8])
    ensures
        final(out)@ == old(out)@ + len_bytes_enc(bytes@),
{
    push_u64_be(out, bytes.len() as u64);
    push_all(out, bytes);
    assert(out@ =~= old(out)@ + len_bytes_enc(bytes@));
}

/// A position in a byte string that is being read from the front.
pub struct Cursor {
    pub data: Vec<u8>,
    pub pos: usize,
}

impl Cursor {
    /// A cursor at the start of `data`.
    pub fn new(data: Vec<u8>) -> (r: Cursor)
        ensures
            r.wf(),
            r.data@ == data@,
            r.rest() == data@,
    {
        let r = Cursor { data, pos: 0 };
        assert(r.rest() =~= r.data@);
        r
    }

    /// The position lies within the data.
    pub open spec fn wf(&self) -> bool {
        self.pos <= self.data@.len()
    }

    /// The bytes that are still to be read.
    pub open spec fn rest(&self) -> Seq<u8> {
        self.data@.subrange(self.pos as int, self.data@.len() as int)
    }
}

/// Reading `n` bytes from the front of `s`: they and what follows them.
pub open spec fn parse_exact(s: Seq<u8>, n: nat) -> Result<(Seq<u8>, Seq<u8>), DecodeError> {
    if s.len() >= n {
        Ok((s.take(n as int), s.skip(n as int)))
    } else {
        Err(DecodeError::UnexpectedEnd)
    }
}

/// Reading a big-endian `u64` from the front of `s`.
pub open spec fn parse_u64(s: Seq<u8>) -> Result<(u64, Seq<u8>), DecodeError> {
    if s.len() >= 8 {
        Ok((u64_from_be(s.take(8)), s.skip(8)))
    } else {
        Err(DecodeError::UnexpectedEnd)
    }
}

/// Reading a big-endian `u32` from the front of `s`.
pub open spec fn parse_u32(s: Seq<u8>) -> Result<(u32, Seq<u8>), DecodeError> {
    if s.len() >= 4 {
        Ok((u32_from_be(s.take(4)), s.skip(4)))
    } else {
        Err(DecodeError::UnexpectedEnd)
    }
}

/// Reading a length-prefixed byte string from the front of `s`.
#[verifier::opaque]
pub open spec fn parse_len_bytes(s: Seq<u8>) -> Result<(Seq<u8>, Seq<u8>), DecodeError> {
    match parse_u64(s) {
        Ok((n, t)) => parse_exact(t, n as nat),
        Err(e) => Err(e),
    }
}

/// What is left of `s` after reading `n` bytes: nothing when `s` is too
/// short, for the reader then stands at the end of its input.
pub open spec fn exact_rest(s: Seq<u8>, n: nat) -> Seq<u8> {
    if s.len() >= n {
        s.skip(n as int)
    } else {
        Seq::empty()
    }
}

/// What is left of `s` after reading a length-prefixed byte string, whether
/// or not the reading succeeds.
pub open spec fn len_bytes_rest(s: Seq<u8>) -> Seq<u8> {
    if s.len() >= 8 {
        exact_rest(s.skip(8), u64_from_be(s.take(8)) as nat)
    } else {
        Seq::empty()
    }
}

/// Reads the next `n` bytes.
pub fn read_exact(cursor: &mut Cursor, n: usize) -> (r: Result<Vec<u8>, DecodeError>)
    requires
        old(cursor).wf(),
    ensures
        final(cursor).wf(),
        final(cursor).data@ == old(cursor).data@,
        final(cursor).rest() == exact_rest(old(cursor).rest(), n as nat),
        match r {
            Ok(v) => parse_exact(old(cursor).rest(), n as nat) == Ok::<(Seq<u8>, Seq<u8>), DecodeError>((v@, final(cursor).rest())),
            Err(e) => parse_exact(old(cursor).rest(), n as nat) == Err::<(Seq<u8>, Seq<u8>), DecodeError>(e),
        },
{
    if cursor.data.len() - cursor.pos < n {
        cursor.pos = cursor.data.len();
        assert(cursor.rest() =~= Seq::<u8>::empty());
        return Err(DecodeError::UnexpectedEnd);
    }
    let mut v: Vec<u8> = Vec::new();
    let start = cursor.pos;
    let mut k: usize = 0;
    while k < n
        invariant
            cursor.wf(),
            cursor.data@ == old(cursor).data@,
            cursor.pos == start,
            start == old(cursor).pos,
            start + n <= cursor.data@.len(),
            cursor.data@.len() <= usize::MAX,
            k <= n,
            v@ == cursor.data@.subrange(start as int, start + k),
        decreases n - k,
    {
        v.push(cursor.data[start + k]);
        k = k + 1;
        assert(v@ =~= cursor.data@.subrange(start as int, start + k));
    }
    cursor.pos = start + n;
    assert(v@ =~= old(cursor).rest().take(n as int));
    assert(cursor.rest() =~= old(cursor).rest().skip(n as int));
    Ok(v)
}

/// Reads a big-endian `u64`.
pub fn read_u64(cursor: &mut Cursor) -> (r: Result<u64, DecodeError>)
    requires
        old(cursor).wf(),
    ensures
        final(cursor).wf(),
        final(cursor).data@ == old(cursor).data@,
        final(cursor).rest() == exact_rest(old(cursor).rest(), 8),
        match r {
            Ok(v) => parse_u64(old(cursor).rest()) == Ok::<(u64, Seq<u8>), DecodeError>((v, final(cursor).rest())),
            Err(e) => parse_u64(old(cursor).rest()) == Err::<(u64, Seq<u8>), DecodeError>(e),
        },
{
    let b = read_exact(cursor, 8)?;
    let v = ((b[0] as u64) << 56u64) | ((b[1] as u64) << 48u64) | ((b[2] as u64) << 40u64)
        | ((b[3] as u64) << 32u64) | ((b[4] as u64) << 24u64) | ((b[5] as u64) << 16u64)
        | ((b[6] as u64) << 8u64) | (b[7] as u64);
    Ok(v)
}

/// Reads a big-endian `u32`.
pub fn read_u32(cursor: &mut Cursor) -> (r: Result<u32, DecodeError>)
    requires
        old(cursor).wf(),
    ensures
        final(cursor).wf(),
        final(cursor).data@ == old(cursor).data@,
        final(cursor).rest() == exact_rest(old(cursor).rest(), 4),
        match r {
            Ok(v) => parse_u32(old(cursor).rest()) == Ok::<(u32, Seq<u8>), DecodeError>((v, final(cursor).rest())),
            Err(e) => parse_u32(old(cursor).rest()) == Err::<(u32, Seq<u8>), DecodeError>(e),
        },
{
    let b = read_exact(cursor, 4)?;
    let v = ((b[0] as u32) << 24u32) | ((b[1] as u32) << 16u32) | ((b[2] as u32) << 8u32) | (b[3] as u32);
    Ok(v)
}

/// Reads a length-prefixed byte string.
pub fn read_len_bytes(cursor: &mut Cursor) -> (r: Result<Vec<u8>, DecodeError>)
    requires
        old(cursor).wf(),
    ensures
        final(cursor).wf(),
        final(cursor).data@ == old(cursor).data@,
        final(cursor).rest() == len_bytes_rest(old(cursor).rest()),
        match r {
            Ok(v) => parse_len_bytes(old(cursor).rest()) == Ok::<(Seq<u8>, Seq<u8>), DecodeError>((v@, final(cursor).rest())),
            Err(e) => parse_len_bytes(old(cursor).rest()) == Err::<(Seq<u8>, Seq<u8>), DecodeError>(e),
        },
{
    proof {
        reveal(parse_len_bytes);
    }
    let ghost s = cursor.rest();
    let len = read_u64(cursor)?;
    if len > (cursor.data.len() - cursor.pos) as u64 {
        cursor.pos = cursor.data.len();
        assert(cursor.rest() =~= Seq::<u8>::empty());
        return Err(DecodeError::UnexpectedEnd);
    }
    proof {
        assert(s.take(8) =~= s.subrange(0, 8));
    }
    read_exact(cursor, len as usize)
}


/// `String::from_utf8`: the string whose UTF-8 encoding the bytes are, or
/// `None` when they are not valid UTF-8.
#[verifier::external_body]
fn string_from_utf8(bytes: Vec<u8>) -> (r: Option<String>)
    ensures
        r is Some <==> valid_utf8(bytes@),
        r matches Some(s) ==> s@ == decode_utf8(bytes@),
{
    String::from_utf8(bytes).ok()
}

/// A string as its UTF-8 bytes with their length in front.
pub open spec fn string_enc(s: Seq<char>) -> Seq<u8> {
    len_bytes_enc(encode_utf8(s))
}

/// Reading a length-prefixed UTF-8 string from the front of `s`.
pub open spec fn parse_string(s: Seq<u8>) -> Result<(Seq<char>, Seq<u8>), DecodeError> {
    match parse_len_bytes(s) {
        Ok((b, t)) => if valid_utf8(b) {
            Ok((decode_utf8(b), t))
        } else {
            Err(DecodeError::InvalidUtf8)
        },
        Err(e) => Err(e),
    }
}

/// Appends the UTF-8 bytes of `value` preceded by their length.
pub fn append_string(out: &mut Vec<u8>, value: &str)
    ensures
        final(out)@ == old(out)@ + string_enc(value@),
{
    append_len_bytes(out, value.as_bytes());
}

/// Reads a length-prefixed UTF-8 string.
pub fn read_string(cursor: &mut Cursor) -> (r: Result<String, DecodeError>)
    requires
        old(cursor).wf(),
    ensures
        final(cursor).wf(),
        final(cursor).data@ == old(cursor).data@,
        final(cursor).rest() == len_bytes_rest(old(cursor).rest()),
        match r {
            Ok(v) => parse_string(old(cursor).rest()) == Ok::<(Seq<char>, Seq<u8>), DecodeError>((v@, final(cursor).rest())),
            Err(e) => parse_string(old(cursor).rest()) == Err::<(Seq<char>, Seq<u8>), DecodeError>(e),
        },
{
    let bytes = read_len_bytes(cursor)?;
    match string_from_utf8(bytes) {
        Some(s) => Ok(s),
        None => Err(DecodeError::InvalidUtf8),
    }
}

/// A span of time: whole seconds and the nanoseconds beyond them.
#[derive(Clone, Copy, Debug, PartialEq, Eq, Structural)]
pub struct Duration {
    pub secs: u64,
    pub nanos: u32,
}

/// Nanoseconds in a second.
pub const NANOS_PER_SEC: u32 = 1_000_000_000;

impl Duration {
    /// The nanoseconds lie below one second.
    pub open spec fn wf(&self) -> bool {
        self.nanos < NANOS_PER_SEC
    }

    /// The duration of `secs` seconds and `nanos` nanoseconds, whole seconds
    /// in `nanos` carried over into the seconds.
    pub fn new(secs: u64, nanos: u32) -> (r: Duration)
        requires
            secs + nanos / NANOS_PER_SEC <= u64::MAX,
        ensures
            r.wf(),
            r == normalized_duration(secs, nanos),
    {
        Duration { secs: secs + (nanos / NANOS_PER_SEC) as u64, nanos: nanos % NANOS_PER_SEC }
    }

    /// The duration of `secs` whole seconds.
    pub fn from_secs(secs: u64) -> (r: Duration)
        ensures
            r.wf(),
            r.secs == secs,
            r.nanos == 0,
    {
        Duration { secs, nanos: 0 }
    }

    /// The whole seconds.
    pub fn as_secs(&self) -> (r: u64)
        ensures
            r == self.secs,
    {
        self.secs
    }

    /// The nanoseconds beyond the whole seconds.
    pub fn subsec_nanos(&self) -> (r: u32)
        ensures
            r == self.nanos,
    {
        self.nanos
    }
}

/// `Duration::new(secs, nanos)` as a value.
pub open spec fn normalized_duration(secs: u64, nanos: u32) -> Duration {
    Duration { secs: (secs + nanos / NANOS_PER_SEC) as u64, nanos: nanos % NANOS_PER_SEC }
}

/// A duration as its seconds (eight bytes) and nanoseconds (four bytes),
/// big-endian.
pub open spec fn duration_enc(d: Duration) -> Seq<u8> {
    u64_be_bytes(d.secs) + u32_be_bytes(d.nanos)
}

/// Reading a duration from the front of `s`.
pub open spec fn parse_duration(s: Seq<u8>) -> Result<(Duration, Seq<u8>), DecodeError> {
    match parse_u64(s) {
        Ok((secs, t)) => match parse_u32(t) {
            Ok((nanos, u)) => Ok((normalized_duration(secs, nanos), u)),
            Err(e) => Err(e),
        },
        Err(e) => Err(e),
    }
}

/// The seconds and nanoseconds at the front of `s` carry over past the
/// largest `u64` number of seconds.
pub open spec fn duration_overflows(s: Seq<u8>) -> bool {
    s.len() >= 12 && u64_from_be(s.take(8)) + u32_from_be(s.skip(8).take(4)) / NANOS_PER_SEC > u64::MAX
}

/// Whether the seconds and nanoseconds at the cursor would carry over past
/// the largest number of seconds.
pub fn duration_overflows_at(cursor: &Cursor) -> (r: bool)
    requires
        cursor.wf(),
    ensures
        r == duration_overflows(cursor.rest()),
{
    if cursor.data.len() - cursor.pos < 12 {
        return false;
    }
    let d = &cursor.data;
    let p = cursor.pos;
    let secs = ((d[p] as u64) << 56u64) | ((d[p + 1] as u64) << 48u64) | ((d[p + 2] as u64) << 40u64)
        | ((d[p + 3] as u64) << 32u64) | ((d[p + 4] as u64) << 24u64) | ((d[p + 5] as u64) << 16u64)
        | ((d[p + 6] as u64) << 8u64) | (d[p + 7] as u64);
    let nanos = ((d[p + 8] as u32) << 24u32) | ((d[p + 9] as u32) << 16u32) | ((d[p + 10] as u32) << 8u32)
        | (d[p + 11] as u32);
    proof {
        let rest = cursor.rest();
        assert(rest.take(8) =~= d@.subrange(p as int, p + 8));
        assert(rest.skip(8).take(4) =~= d@.subrange(p + 8, p + 12));
    }
    (secs as u128) + ((nanos / NANOS_PER_SEC) as u128) > (u64::MAX as u128)
}

/// Appends a duration's seconds and nanoseconds.
pub fn append_duration(out: &mut Vec<u8>, value: Duration)
    ensures
        final(out)@ == old(out)@ + duration_enc(value),
{
    push_u64_be(out, value.as_secs());
    push_u32_be(out, value.subsec_nanos());
    assert(out@ =~= old(out)@ + duration_enc(value));
}

/// Reads a duration.
pub fn read_duration(cursor: &mut Cursor) -> (r: Result<Duration, DecodeError>)
    requires
        old(cursor).wf(),
        !duration_overflows(old(cursor).rest()),
    ensures
        final(cursor).wf(),
        final(cursor).data@ == old(cursor).data@,
        final(cursor).rest() == exact_rest(old(cursor).rest(), 12),
        match r {
            Ok(v) => parse_duration(old(cursor).rest()) == Ok::<(Duration, Seq<u8>), DecodeError>((v, final(cursor).rest())),
            Err(e) => parse_duration(old(cursor).rest()) == Err::<(Duration, Seq<u8>), DecodeError>(e),
        },
{
    let ghost s0 = cursor.rest();
    let secs = read_u64(cursor)?;
    let ghost s1 = cursor.rest();
    proof {
        assert(s0.skip(8) == s1);
        if s1.len() >= 4 {
            assert(s1.skip(4) =~= s0.skip(12));
        }
    }
    let nanos = read_u32(cursor)?;
    proof {
        assert(s1.take(4) =~= s0.skip(8).take(4));
    }
    Ok(Duration::new(secs, nanos))
}

/// A boolean as one byte.
pub open spec fn bool_byte(b: bool) -> u8 {
    if b { 1 } else { 0 }
}

/// Booleans as their bytes, without a count.
pub open spec fn bools_enc(v: Seq<bool>) -> Seq<u8> {
    Seq::new(v.len(), |i: int| bool_byte(v[i]))
}

/// Booleans as a count (eight bytes) and one byte each.
pub open spec fn bool_vec_enc(v: Seq<bool>) -> Seq<u8> {
    u64_be_bytes(v.len() as u64) + bools_enc(v)
}

/// Reading `n` boolean bytes from the front of `s`.
pub open spec fn parse_bools(s: Seq<u8>, n: nat) -> Result<(Seq<bool>, Seq<u8>), DecodeError>
    decreases n,
{
    if n == 0 {
        Ok((Seq::empty(), s))
    } else if s.len() == 0 {
        Err(DecodeError::UnexpectedEnd)
    } else if s[0] == 0 || s[0] == 1 {
        match parse_bools(s.drop_first(), (n - 1) as nat) {
            Ok((v, t)) => Ok((seq![s[0] == 1] + v, t)),
            Err(e) => Err(e),
        }
    } else {
        Err(DecodeError::InvalidBool(s[0]))
    }
}

/// Reading a counted boolean sequence from the front of `s`.
pub open spec fn parse_bool_vec(s: Seq<u8>) -> Result<(Seq<bool>, Seq<u8>), DecodeError> {
    match parse_u64(s) {
        Ok((n, t)) => parse_bools(t, n as nat),
        Err(e) => Err(e),
    }
}

/// What is left of `s` after reading up to `n` boolean bytes: the reading
/// stops after an invalid byte, or at the end of the input.
pub open spec fn bools_rest(s: Seq<u8>, n: nat) -> Seq<u8>
    decreases n,
{
    if n == 0 {
        s
    } else if s.len() == 0 {
        Seq::empty()
    } else if s[0] == 0 || s[0] == 1 {
        bools_rest(s.drop_first(), (n - 1) as nat)
    } else {
        s.drop_first()
    }
}

/// What is left of `s` after reading a counted sequence of booleans,
/// whether or not the reading succeeds.
pub open spec fn bool_vec_rest(s: Seq<u8>) -> Seq<u8> {
    if s.len() >= 8 {
        bools_rest(s.skip(8), u64_from_be(s.take(8)) as nat)
    } else {
        Seq::empty()
    }
}

/// What is left of `s` after reading an optional boolean sequence.
pub open spec fn option_bool_vec_rest(s: Seq<u8>) -> Seq<u8> {
    if s.len() == 0 {
        Seq::empty()
    } else if s[0] == 1 {
        bool_vec_rest(s.drop_first())
    } else {
        s.drop_first()
    }
}

/// Appends the count of `values` and then one byte per boolean.
pub fn append_bool_vec(out: &mut Vec<u8>, values: &[bool])
    ensures
        final(out)@ == old(out)@ + bool_vec_enc(values@),
{
    push_u64_be(out, values.len() as u64);
    let ghost start = out@;
    let mut k: usize = 0;
    while k < values.len()
        invariant
            k <= values@.len(),
            out@ == start + bools_enc(values@.take(k as int)),
        decreases values.len() - k,
    {
        let b: u8 = if values[k] { 1 } else { 0 };
        out.push(b);
        k = k + 1;
        assert(out@ =~= start + bools_enc(values@.take(k as int)));
    }
    assert(values@.take(k as int) =~= values@);
    assert(out@ =~= old(out)@ + bool_vec_enc(values@));
}

/// What is read of `n` booleans, after `acc` has been read already.
pub open spec fn after_prefix(acc: Seq<bool>, r: Result<(Seq<bool>, Seq<u8>), DecodeError>) -> Result<(Seq<bool>, Seq<u8>), DecodeError> {
    match r {
        Ok((v, t)) => Ok((acc + v, t)),
        Err(e) => Err(e),
    }
}

/// Reads a counted sequence of booleans.
pub fn read_bool_vec(cursor: &mut Cursor) -> (r: Result<Vec<bool>, DecodeError>)
    requires
        old(cursor).wf(),
    ensures
        final(cursor).wf(),
        final(cursor).data@ == old(cursor).data@,
        final(cursor).rest() == bool_vec_rest(old(cursor).rest()),
        match r {
            Ok(v) => parse_bool_vec(old(cursor).rest()) == Ok::<(Seq<bool>, Seq<u8>), DecodeError>((v@, final(cursor).rest())),
            Err(e) => parse_bool_vec(old(cursor).rest()) == Err::<(Seq<bool>, Seq<u8>), DecodeError>(e),
        },
{
    let ghost s0 = cursor.rest();
    let len = read_u64(cursor)?;
    let ghost t0 = cursor.rest();
    proof {
        assert(s0.take(8) =~= s0.subrange(0, 8));
    }
    let mut values: Vec<bool> = Vec::new();
    let mut k: u64 = 0;
    while k < len
        invariant
            cursor.wf(),
            cursor.data@ == old(cursor).data@,
            k <= len,
            parse_bool_vec(old(cursor).rest()) == parse_bools(t0, len as nat),
            parse_bools(t0, len as nat) == after_prefix(values@, parse_bools(cursor.rest(), (len - k) as nat)),
            bool_vec_rest(old(cursor).rest()) == bools_rest(t0, len as nat),
            bools_rest(t0, len as nat) == bools_rest(cursor.rest(), (len - k) as nat),
        decreases len - k,
    {
        let ghost s = cursor.rest();
        let ghost prev = values@;
        let ghost m = (len - k) as nat;
        let b = read_exact(cursor, 1)?;
        let byte = b[0];
        proof {
            assert(s.drop_first() == cursor.rest());
            assert(s[0] == byte);
        }
        if byte == 0 {
            values.push(false);
        } else if byte == 1 {
            values.push(true);
        } else {
            return Err(DecodeError::InvalidBool(byte));
        }
        proof {
            let inner = parse_bools(cursor.rest(), (m - 1) as nat);
            assert(parse_bools(s, m) == match inner {
                Ok((v, t)) => Ok((seq![s[0] == 1] + v, t)),
                Err(e) => Err::<(Seq<bool>, Seq<u8>), DecodeError>(e),
            });
            assert(values@ == prev.push(s[0] == 1));
            match inner {
                Ok((v, t)) => {
                    assert(values@ + v =~= prev + (seq![s[0] == 1] + v));
                },
                Err(e) => {},
            }
            assert(after_prefix(prev, parse_bools(s, m)) == after_prefix(values@, inner));
            assert((len - (k + 1)) as nat == (m - 1) as nat);
        }
        k = k + 1;
    }
    proof {
        assert(values@ + Seq::<bool>::empty() =~= values@);
    }
    Ok(values)
}

/// An optional boolean sequence as a tag byte and, when present, the
/// counted sequence.
pub open spec fn option_bool_vec_enc(o: Option<Seq<bool>>) -> Seq<u8> {
    match o {
        None => seq![0u8],
        Some(v) => seq![1u8] + bool_vec_enc(v),
    }
}

/// Reading an optional boolean sequence from the front of `s`.
pub open spec fn parse_option_bool_vec(s: Seq<u8>) -> Result<(Option<Seq<bool>>, Seq<u8>), DecodeError> {
    if s.len() == 0 {
        Err(DecodeError::UnexpectedEnd)
    } else if s[0] == 0 {
        Ok((None, s.drop_first()))
    } else if s[0] == 1 {
        match parse_bool_vec(s.drop_first()) {
            Ok((v, t)) => Ok((Some(v), t)),
            Err(e) => Err(e),
        }
    } else {
        Err(DecodeError::InvalidTag(s[0]))
    }
}

/// The view of an optional vector.
pub open spec fn opt_view<T>(o: Option<Vec<T>>) -> Option<Seq<T>> {
    match o {
        Some(v) => Some(v@),
        None => None,
    }
}

/// Appends a tag byte and, when present, the counted booleans.
pub fn append_option_bool_vec(out: &mut Vec<u8>, values: &Option<Vec<bool>>)
    ensures
        final(out)@ == old(out)@ + option_bool_vec_enc(opt_view(*values)),
{
    match values {
        Some(values) => {
            out.push(1);
            append_bool_vec(out, values.as_slice());
        },
        None => out.push(0),
    }
    assert(out@ =~= old(out)@ + option_bool_vec_enc(opt_view(*values)));
}

/// Reads a tag byte and, when it says so, a counted sequence of booleans.
pub fn read_option_bool_vec(cursor: &mut Cursor) -> (r: Result<Option<Vec<bool>>, DecodeError>)
    requires
        old(cursor).wf(),
    ensures
        final(cursor).wf(),
        final(cursor).data@ == old(cursor).data@,
        final(cursor).rest() == option_bool_vec_rest(old(cursor).rest()),
        match r {
            Ok(v) => parse_option_bool_vec(old(cursor).rest()) == Ok::<(Option<Seq<bool>>, Seq<u8>), DecodeError>((opt_view(v), final(cursor).rest())),
            Err(e) => parse_option_bool_vec(old(cursor).rest()) == Err::<(Option<Seq<bool>>, Seq<u8>), DecodeError>(e),
        },
{
    let ghost s = cursor.rest();
    let tag = read_exact(cursor, 1)?;
    proof {
        assert(s.drop_first() == cursor.rest());
    }
    if tag[0] == 0 {
        Ok(None)
    } else if tag[0] == 1 {
        let v = read_bool_vec(cursor)?;
        Ok(Some(v))
    } else {
        Err(DecodeError::InvalidTag(tag[0]))
    }
}


/// A `u64` written big-endian reads back as itself, leaving what follows.
pub proof fn lemma_u64_roundtrip(n: u64, tail: Seq<u8>)
    ensures
        parse_u64(u64_be_bytes(n) + tail) == Ok::<(u64, Seq<u8>), DecodeError>((n, tail)),
{
    let s = u64_be_bytes(n) + tail;
    assert(s.take(8) =~= u64_be_bytes(n));
    assert(s.skip(8) =~= tail);
    lemma_u64_bytes_roundtrip(n);
}

/// A `u32` written big-endian reads back as itself, leaving what follows.
pub proof fn lemma_u32_roundtrip(n: u32, tail: Seq<u8>)
    ensures
        parse_u32(u32_be_bytes(n) + tail) == Ok::<(u32, Seq<u8>), DecodeError>((n, tail)),
{
    let s = u32_be_bytes(n) + tail;
    assert(s.take(4) =~= u32_be_bytes(n));
    assert(s.skip(4) =~= tail);
    lemma_u32_bytes_roundtrip(n);
}

/// A length-prefixed byte string reads back as itself.
pub proof fn lemma_len_bytes_roundtrip(bytes: Seq<u8>, tail: Seq<u8>)
    requires
        bytes.len() <= u64::MAX,
    ensures
        parse_len_bytes(len_bytes_enc(bytes) + tail) == Ok::<(Seq<u8>, Seq<u8>), DecodeError>((bytes, tail)),
{
    reveal(parse_len_bytes);
    let n = bytes.len() as u64;
    assert(len_bytes_enc(bytes) + tail =~= u64_be_bytes(n) + (bytes + tail));
    lemma_u64_roundtrip(n, bytes + tail);
    assert((bytes + tail).take(n as int) =~= bytes);
    assert((bytes + tail).skip(n as int) =~= tail);
}

/// A named field reads back as its name and then its data.
pub proof fn lemma_field_roundtrip(name: Seq<u8>, data: Seq<u8>, tail: Seq<u8>)
    requires
        name.len() <= u64::MAX,
        data.len() <= u64::MAX,
    ensures
        parse_len_bytes(field_enc(name, data) + tail)
            == Ok::<(Seq<u8>, Seq<u8>), DecodeError>((name, len_bytes_enc(data) + tail)),
        parse_len_bytes(len_bytes_enc(data) + tail) == Ok::<(Seq<u8>, Seq<u8>), DecodeError>((data, tail)),
{
    assert(field_enc(name, data) + tail =~= len_bytes_enc(name) + (len_bytes_enc(data) + tail));
    lemma_len_bytes_roundtrip(name, len_bytes_enc(data) + tail);
    lemma_len_bytes_roundtrip(data, tail);
}

/// Two fields under the same name that begin two equal byte strings hold
/// the same data and are followed by the same bytes.
pub proof fn lemma_field_same_name_injective(name: Seq<u8>, d1: Seq<u8>, t1: Seq<u8>, d2: Seq<u8>, t2: Seq<u8>)
    requires
        d1.len() <= u64::MAX,
        d2.len() <= u64::MAX,
        field_enc(name, d1) + t1 == field_enc(name, d2) + t2,
    ensures
        d1 == d2,
        t1 == t2,
{
    let a = len_bytes_enc(name);
    let x1 = len_bytes_enc(d1) + t1;
    let x2 = len_bytes_enc(d2) + t2;
    assert(field_enc(name, d1) + t1 =~= a + x1);
    assert(field_enc(name, d2) + t2 =~= a + x2);
    assert((a + x1).skip(a.len() as int) =~= x1);
    assert((a + x2).skip(a.len() as int) =~= x2);
    lemma_len_bytes_roundtrip(d1, t1);
    lemma_len_bytes_roundtrip(d2, t2);
}

/// A string written with `append_string` reads back as itself.
pub proof fn lemma_string_roundtrip(s: Seq<char>, tail: Seq<u8>)
    requires
        encode_utf8(s).len() <= u64::MAX,
    ensures
        parse_string(string_enc(s) + tail) == Ok::<(Seq<char>, Seq<u8>), DecodeError>((s, tail)),
{
    lemma_len_bytes_roundtrip(encode_utf8(s), tail);
    encode_utf8_valid_utf8(s);
    encode_utf8_decode_utf8(s);
}

/// A duration written with `append_duration` reads back as itself, and
/// reading it cannot overflow.
pub proof fn lemma_duration_roundtrip(d: Duration, tail: Seq<u8>)
    requires
        d.wf(),
    ensures
        !duration_overflows(duration_enc(d) + tail),
        parse_duration(duration_enc(d) + tail) == Ok::<(Duration, Seq<u8>), DecodeError>((d, tail)),
{
    let s = duration_enc(d) + tail;
    assert(s =~= u64_be_bytes(d.secs) + (u32_be_bytes(d.nanos) + tail));
    lemma_u64_roundtrip(d.secs, u32_be_bytes(d.nanos) + tail);
    lemma_u32_roundtrip(d.nanos, tail);
    assert(s.take(8) =~= u64_be_bytes(d.secs));
    assert(s.skip(8).take(4) =~= u32_be_bytes(d.nanos));
    lemma_u64_bytes_roundtrip(d.secs);
    lemma_u32_bytes_roundtrip(d.nanos);
}

/// Boolean bytes read back as the booleans.
proof fn lemma_bools_roundtrip(v: Seq<bool>, tail: Seq<u8>)
    ensures
        parse_bools(bools_enc(v) + tail, v.len()) == Ok::<(Seq<bool>, Seq<u8>), DecodeError>((v, tail)),
    decreases v.len(),
{
    if v.len() == 0 {
        assert(bools_enc(v) + tail =~= tail);
        assert(v =~= Seq::<bool>::empty());
    } else {
        let s = bools_enc(v) + tail;
        assert(s.drop_first() =~= bools_enc(v.drop_first()) + tail);
        lemma_bools_roundtrip(v.drop_first(), tail);
        assert(seq![s[0] == 1] + v.drop_first() =~= v);
    }
}

/// A counted boolean sequence reads back as itself.
pub proof fn lemma_bool_vec_roundtrip(v: Seq<bool>, tail: Seq<u8>)
    requires
        v.len() <= u64::MAX,
    ensures
        parse_bool_vec(bool_vec_enc(v) + tail) == Ok::<(Seq<bool>, Seq<u8>), DecodeError>((v, tail)),
{
    assert(bool_vec_enc(v) + tail =~= u64_be_bytes(v.len() as u64) + (bools_enc(v) + tail));
    lemma_u64_roundtrip(v.len() as u64, bools_enc(v) + tail);
    lemma_bools_roundtrip(v, tail);
}

/// An optional boolean sequence reads back as itself.
pub proof fn lemma_option_bool_vec_roundtrip(o: Option<Seq<bool>>, tail: Seq<u8>)
    requires
        o matches Some(v) ==> v.len() <= u64::MAX,
    ensures
        parse_option_bool_vec(option_bool_vec_enc(o) + tail)
            == Ok::<(Option<Seq<bool>>, Seq<u8>), DecodeError>((o, tail)),
{
    let s = option_bool_vec_enc(o) + tail;
    match o {
        None => {
            assert(s.drop_first() =~= tail);
        },
        Some(v) => {
            assert(s.drop_first() =~= bool_vec_enc(v) + tail);
            lemma_bool_vec_roundtrip(v, tail);
        },
    }
}


/// Reads a field element from its 32 little-endian bytes (more may follow
/// and are ignored).
pub fn decode_scalar(bytes: &[u8]) -> (r: Result<Scalar, DecodeError>)
    ensures
        r is Ok <==> (bytes@.len() >= 32 && le_value(bytes@.take(32)) < modulus()),
        r matches Ok(v) ==> v.wf() && v.value() == le_value(bytes@.take(32)),
        r matches Err(e) ==> e == DecodeError::InvalidScalar,
{
    match scalar_from_bytes(bytes) {
        Some(v) => Ok(v),
        None => Err(DecodeError::InvalidScalar),
    }
}

/// A field element as its 32 little-endian bytes with their length in
/// front.
pub open spec fn scalar_enc(v: nat) -> Seq<u8> {
    len_bytes_enc(le_bytes(v, 32))
}

/// Reading a length-prefixed field element from the front of `s`.
pub open spec fn parse_scalar(s: Seq<u8>) -> Result<(nat, Seq<u8>), DecodeError> {
    match parse_len_bytes(s) {
        Ok((b, t)) => if b.len() >= 32 && le_value(b.take(32)) < modulus() {
            Ok((le_value(b.take(32)), t))
        } else {
            Err(DecodeError::InvalidScalar)
        },
        Err(e) => Err(e),
    }
}

/// Appends the length-prefixed encoding of a field element.
pub fn append_scalar(out: &mut Vec<u8>, value: &Scalar)
    requires
        value.wf(),
    ensures
        final(out)@ == old(out)@ + scalar_enc(value.value()),
{
    let bytes = encode_scalar(value);
    append_len_bytes(out, bytes.as_slice());
}

/// Reads a length-prefixed field element.
pub fn read_scalar(cursor: &mut Cursor) -> (r: Result<Scalar, DecodeError>)
    requires
        old(cursor).wf(),
    ensures
        final(cursor).wf(),
        final(cursor).data@ == old(cursor).data@,
        final(cursor).rest() == len_bytes_rest(old(cursor).rest()),
        match r {
            Ok(v) => v.wf() && parse_scalar(old(cursor).rest()) == Ok::<(nat, Seq<u8>), DecodeError>((v.value(), final(cursor).rest())),
            Err(e) => parse_scalar(old(cursor).rest()) == Err::<(nat, Seq<u8>), DecodeError>(e),
        },
{
    let bytes = read_len_bytes(cursor)?;
    decode_scalar(bytes.as_slice())
}

/// The values of a sequence of field elements.
pub open spec fn scalar_values(v: Seq<Scalar>) -> Seq<nat> {
    v.map_values(|x: Scalar| x.value())
}

/// Field elements, one after another, without a count.
pub open spec fn scalars_enc(vs: Seq<nat>) -> Seq<u8>
    decreases vs.len(),
{
    if vs.len() == 0 {
        Seq::empty()
    } else {
        scalar_enc(vs[0]) + scalars_enc(vs.drop_first())
    }
}

/// A count (eight bytes) and then the field elements.
pub open spec fn scalar_vec_enc(vs: Seq<nat>) -> Seq<u8> {
    u64_be_bytes(vs.len() as u64) + scalars_enc(vs)
}

proof fn lemma_scalars_enc_push(vs: Seq<nat>, x: nat)
    ensures
        scalars_enc(vs.push(x)) == scalars_enc(vs) + scalar_enc(x),
    decreases vs.len(),
{
    if vs.len() == 0 {
        assert(vs.push(x).drop_first() =~= Seq::<nat>::empty());
        assert(vs.push(x)[0] == x);
        assert(scalars_enc(Seq::<nat>::empty()) =~= Seq::<u8>::empty());
        assert(scalars_enc(vs) =~= Seq::<u8>::empty());
        assert(scalars_enc(vs.push(x)) =~= scalar_enc(x) + Seq::<u8>::empty());
    } else {
        assert(vs.push(x).drop_first() =~= vs.drop_first().push(x));
        lemma_scalars_enc_push(vs.drop_first(), x);
        assert(scalars_enc(vs.push(x)) =~= scalars_enc(vs) + scalar_enc(x));
    }
}

/// Reading `n` field elements from the front of `s`.
pub open spec fn parse_scalars(s: Seq<u8>, n: nat) -> Result<(Seq<nat>, Seq<u8>), DecodeError>
    decreases n,
{
    if n == 0 {
        Ok((Seq::empty(), s))
    } else {
        match parse_scalar(s) {
            Ok((v, t)) => match parse_scalars(t, (n - 1) as nat) {
                Ok((vs, u)) => Ok((seq![v] + vs, u)),
                Err(e) => Err(e),
            },
            Err(e) => Err(e),
        }
    }
}

/// What is left of `s` after reading up to `n` field elements: the reading
/// stops after the first one that fails.
pub open spec fn scalars_rest(s: Seq<u8>, n: nat) -> Seq<u8>
    decreases n,
{
    if n == 0 {
        s
    } else if parse_scalar(s) is Ok {
        scalars_rest(len_bytes_rest(s), (n - 1) as nat)
    } else {
        len_bytes_rest(s)
    }
}

/// What is left of `s` after reading a counted sequence of field elements,
/// whether or not the reading succeeds.
pub open spec fn scalar_vec_rest(s: Seq<u8>) -> Seq<u8> {
    if s.len() >= 8 {
        scalars_rest(s.skip(8), u64_from_be(s.take(8)) as nat)
    } else {
        Seq::empty()
    }
}

/// What is left of `s` after reading an optional sequence of field
/// elements.
pub open spec fn option_scalar_vec_rest(s: Seq<u8>) -> Seq<u8> {
    if s.len() == 0 {
        Seq::empty()
    } else if s[0] == 1 {
        scalar_vec_rest(s.drop_first())
    } else {
        s.drop_first()
    }
}

/// Reading a counted sequence of field elements from the front of `s`.
pub open spec fn parse_scalar_vec(s: Seq<u8>) -> Result<(Seq<nat>, Seq<u8>), DecodeError> {
    match parse_u64(s) {
        Ok((n, t)) => parse_scalars(t, n as nat),
        Err(e) => Err(e),
    }
}

/// Appends the count of `values` and then each field element.
pub fn append_scalar_vec(out: &mut Vec<u8>, values: &[Scalar])
    requires
        all_wf(values@),
    ensures
        final(out)@ == old(out)@ + scalar_vec_enc(scalar_values(values@)),
{
    push_u64_be(out, values.len() as u64);
    let ghost start = out@;
    let mut k: usize = 0;
    while k < values.len()
        invariant
            all_wf(values@),
            k <= values@.len(),
            out@ == start + scalars_enc(scalar_values(values@.take(k as int))),
        decreases values.len() - k,
    {
        proof {
            assert(values@[k as int].wf());
            assert(scalar_values(values@.take(k as int + 1))
                =~= scalar_values(values@.take(k as int)).push(values@[k as int].value()));
            lemma_scalars_enc_push(scalar_values(values@.take(k as int)), values@[k as int].value());
        }
        append_scalar(out, &values[k]);
        k = k + 1;
    }
    assert(values@.take(k as int) =~= values@);
    assert(out@ =~= old(out)@ + scalar_vec_enc(scalar_values(values@)));
}

/// What is read of `n` field elements, after `acc` has been read already.
pub open spec fn after_scalar_prefix(acc: Seq<nat>, r: Result<(Seq<nat>, Seq<u8>), DecodeError>) -> Result<(Seq<nat>, Seq<u8>), DecodeError> {
    match r {
        Ok((v, t)) => Ok((acc + v, t)),
        Err(e) => Err(e),
    }
}

/// Reads a counted sequence of field elements.
pub fn read_scalar_vec(cursor: &mut Cursor) -> (r: Result<Vec<Scalar>, DecodeError>)
    requires
        old(cursor).wf(),
    ensures
        final(cursor).wf(),
        final(cursor).data@ == old(cursor).data@,
        final(cursor).rest() == scalar_vec_rest(old(cursor).rest()),
        match r {
            Ok(v) => all_wf(v@) && parse_scalar_vec(old(cursor).rest())
                == Ok::<(Seq<nat>, Seq<u8>), DecodeError>((scalar_values(v@), final(cursor).rest())),
            Err(e) => parse_scalar_vec(old(cursor).rest()) == Err::<(Seq<nat>, Seq<u8>), DecodeError>(e),
        },
{
    let ghost s0 = cursor.rest();
    let len = read_u64(cursor)?;
    let ghost t0 = cursor.rest();
    proof {
        assert(s0.take(8) =~= s0.subrange(0, 8));
    }
    let mut values: Vec<Scalar> = Vec::new();
    let mut k: u64 = 0;
    while k < len
        invariant
            cursor.wf(),
            cursor.data@ == old(cursor).data@,
            k <= len,
            all_wf(values@),
            parse_scalar_vec(old(cursor).rest()) == parse_scalars(t0, len as nat),
            parse_scalars(t0, len as nat)
                == after_scalar_prefix(scalar_values(values@), parse_scalars(cursor.rest(), (len - k) as nat)),
            scalar_vec_rest(old(cursor).rest()) == scalars_rest(t0, len as nat),
            scalars_rest(t0, len as nat) == scalars_rest(cursor.rest(), (len - k) as nat),
        decreases len - k,
    {
        let ghost s = cursor.rest();
        let ghost prev = scalar_values(values@);
        let ghost m = (len - k) as nat;
        let x = read_scalar(cursor)?;
        values.push(x);
        proof {
            let inner = parse_scalars(cursor.rest(), (m - 1) as nat);
            assert(scalar_values(values@) =~= prev.push(x.value()));
            match inner {
                Ok((v, t)) => {
                    assert(scalar_values(values@) + v =~= prev + (seq![x.value()] + v));
                },
                Err(e) => {},
            }
            assert(after_scalar_prefix(prev, parse_scalars(s, m))
                == after_scalar_prefix(scalar_values(values@), inner));
            assert((len - (k + 1)) as nat == (m - 1) as nat);
        }
        k = k + 1;
    }
    proof {
        assert(scalar_values(values@) + Seq::<nat>::empty() =~= scalar_values(values@));
    }
    Ok(values)
}

/// An optional sequence of field elements as a tag byte and, when present,
/// the counted sequence.
pub open spec fn option_scalar_vec_enc(o: Option<Seq<nat>>) -> Seq<u8> {
    match o {
        None => seq![0u8],
        Some(v) => seq![1u8] + scalar_vec_enc(v),
    }
}

/// Reading an optional sequence of field elements from the front of `s`.
pub open spec fn parse_option_scalar_vec(s: Seq<u8>) -> Result<(Option<Seq<nat>>, Seq<u8>), DecodeError> {
    if s.len() == 0 {
        Err(DecodeError::UnexpectedEnd)
    } else if s[0] == 0 {
        Ok((None, s.drop_first()))
    } else if s[0] == 1 {
        match parse_scalar_vec(s.drop_first()) {
            Ok((v, t)) => Ok((Some(v), t)),
            Err(e) => Err(e),
        }
    } else {
        Err(DecodeError::InvalidTag(s[0]))
    }
}

/// The values of an optional sequence of field elements.
pub open spec fn opt_scalar_values(o: Option<Vec<Scalar>>) -> Option<Seq<nat>> {
    match o {
        Some(v) => Some(scalar_values(v@)),
        None => None,
    }
}

/// Every element of an optional sequence is canonical.
pub open spec fn opt_all_wf(o: Option<Vec<Scalar>>) -> bool {
    o matches Some(v) ==> all_wf(v@)
}

/// Appends a tag byte and, when present, the counted field elements.
pub fn append_option_scalar_vec(out: &mut Vec<u8>, values: &Option<Vec<Scalar>>)
    requires
        opt_all_wf(*values),
    ensures
        final(out)@ == old(out)@ + option_scalar_vec_enc(opt_scalar_values(*values)),
{
    match values {
        Some(values) => {
            out.push(1);
            append_scalar_vec(out, values.as_slice());
        },
        None => out.push(0),
    }
    assert(out@ =~= old(out)@ + option_scalar_vec_enc(opt_scalar_values(*values)));
}

/// Reads a tag byte and, when it says so, a counted sequence of field
/// elements.
pub fn read_option_scalar_vec(cursor: &mut Cursor) -> (r: Result<Option<Vec<Scalar>>, DecodeError>)
    requires
        old(cursor).wf(),
    ensures
        final(cursor).wf(),
        final(cursor).data@ == old(cursor).data@,
        final(cursor).rest() == option_scalar_vec_rest(old(cursor).rest()),
        match r {
            Ok(v) => opt_all_wf(v) && parse_option_scalar_vec(old(cursor).rest())
                == Ok::<(Option<Seq<nat>>, Seq<u8>), DecodeError>((opt_scalar_values(v), final(cursor).rest())),
            Err(e) => parse_option_scalar_vec(old(cursor).rest()) == Err::<(Option<Seq<nat>>, Seq<u8>), DecodeError>(e),
        },
{
    let ghost s = cursor.rest();
    let tag = read_exact(cursor, 1)?;
    proof {
        assert(s.drop_first() == cursor.rest());
    }
    if tag[0] == 0 {
        Ok(None)
    } else if tag[0] == 1 {
        let v = read_scalar_vec(cursor)?;
        Ok(Some(v))
    } else {
        Err(DecodeError::InvalidTag(tag[0]))
    }
}

/// A field element written with `append_scalar` reads back as itself.
pub proof fn lemma_scalar_roundtrip(v: nat, tail: Seq<u8>)
    requires
        v < modulus(),
    ensures
        parse_scalar(scalar_enc(v) + tail) == Ok::<(nat, Seq<u8>), DecodeError>((v, tail)),
{
    lemma_modulus_fits_32_bytes();
    lemma_le_bytes_value(v, 32);
    lemma_len_bytes_roundtrip(le_bytes(v, 32), tail);
    assert(le_bytes(v, 32).take(32) =~= le_bytes(v, 32));
}

proof fn lemma_scalars_roundtrip(vs: Seq<nat>, tail: Seq<u8>)
    requires
        forall|k: int| 0 <= k < vs.len() ==> #[trigger] vs[k] < modulus(),
    ensures
        parse_scalars(scalars_enc(vs) + tail, vs.len()) == Ok::<(Seq<nat>, Seq<u8>), DecodeError>((vs, tail)),
    decreases vs.len(),
{
    if vs.len() == 0 {
        assert(scalars_enc(vs) + tail =~= tail);
        assert(vs =~= Seq::<nat>::empty());
    } else {
        let rest = scalars_enc(vs.drop_first()) + tail;
        assert(scalars_enc(vs) + tail =~= scalar_enc(vs[0]) + rest);
        lemma_scalar_roundtrip(vs[0], rest);
        lemma_scalars_roundtrip(vs.drop_first(), tail);
        assert(seq![vs[0]] + vs.drop_first() =~= vs);
    }
}

/// A counted sequence of field elements reads back as itself.
pub proof fn lemma_scalar_vec_roundtrip(vs: Seq<nat>, tail: Seq<u8>)
    requires
        vs.len() <= u64::MAX,
        forall|k: int| 0 <= k < vs.len() ==> #[trigger] vs[k] < modulus(),
    ensures
        parse_scalar_vec(scalar_vec_enc(vs) + tail) == Ok::<(Seq<nat>, Seq<u8>), DecodeError>((vs, tail)),
{
    assert(scalar_vec_enc(vs) + tail =~= u64_be_bytes(vs.len() as u64) + (scalars_enc(vs) + tail));
    lemma_u64_roundtrip(vs.len() as u64, scalars_enc(vs) + tail);
    lemma_scalars_roundtrip(vs, tail);
}

/// An optional sequence of field elements reads back as itself.
pub proof fn lemma_option_scalar_vec_roundtrip(o: Option<Seq<nat>>, tail: Seq<u8>)
    requires
        o matches Some(vs) ==> vs.len() <= u64::MAX && forall|k: int| 0 <= k < vs.len() ==> #[trigger] vs[k] < modulus(),
    ensures
        parse_option_scalar_vec(option_scalar_vec_enc(o) + tail)
            == Ok::<(Option<Seq<nat>>, Seq<u8>), DecodeError>((o, tail)),
{
    let s = option_scalar_vec_enc(o) + tail;
    match o {
        None => {
            assert(s.drop_first() =~= tail);
        },
        Some(v) => {
            assert(s.drop_first() =~= scalar_vec_enc(v) + tail);
            lemma_scalar_vec_roundtrip(v, tail);
        },
    }
}


/// Big-endian order: the eight bytes of `n` weigh `256^7` down to `1`.
pub proof fn lemma_u64_be_layout(n: u64)
    ensures
        u64_be_bytes(n).len() == 8,
        n as int == u64_be_bytes(n)[0] * 0x100000000000000int + u64_be_bytes(n)[1] * 0x1000000000000int
            + u64_be_bytes(n)[2] * 0x10000000000int + u64_be_bytes(n)[3] * 0x100000000int
            + u64_be_bytes(n)[4] * 0x1000000int + u64_be_bytes(n)[5] * 0x10000int
            + u64_be_bytes(n)[6] * 0x100int + u64_be_bytes(n)[7] as int,
{
    let b = u64_be_bytes(n);
    let (b0, b1, b2, b3, b4, b5, b6, b7) = (b[0], b[1], b[2], b[3], b[4], b[5], b[6], b[7]);
    assert(b0 == (n >> 56u64) as u8 && b7 == n as u8);
    assert(n as int == b0 * 0x100000000000000int + b1 * 0x1000000000000int + b2 * 0x10000000000int
        + b3 * 0x100000000int + b4 * 0x1000000int + b5 * 0x10000int + b6 * 0x100int + b7 as int) by (bit_vector)
        requires
            b0 == (n >> 56u64) as u8, b1 == (n >> 48u64) as u8, b2 == (n >> 40u64) as u8,
            b3 == (n >> 32u64) as u8, b4 == (n >> 24u64) as u8, b5 == (n >> 16u64) as u8,
            b6 == (n >> 8u64) as u8, b7 == n as u8;
}

/// Big-endian order: the four bytes of `n` weigh `256^3` down to `1`.
pub proof fn lemma_u32_be_layout(n: u32)
    ensures
        u32_be_bytes(n).len() == 4,
        n as int == u32_be_bytes(n)[0] * 0x1000000int + u32_be_bytes(n)[1] * 0x10000int
            + u32_be_bytes(n)[2] * 0x100int + u32_be_bytes(n)[3] as int,
{
    let b = u32_be_bytes(n);
    let (b0, b1, b2, b3) = (b[0], b[1], b[2], b[3]);
    assert(n as int == b0 * 0x1000000int + b1 * 0x10000int + b2 * 0x100int + b3 as int) by (bit_vector)
        requires
            b0 == (n >> 24u32) as u8, b1 == (n >> 16u32) as u8, b2 == (n >> 8u32) as u8, b3 == n as u8;
}

/// A length-prefixed byte string is its length as eight big-endian bytes,
/// then the bytes themselves.
pub proof fn lemma_len_bytes_layout(bytes: Seq<u8>)
    requires
        bytes.len() <= u64::MAX,
    ensures
        len_bytes_enc(bytes).len() == bytes.len() + 8,
        u64_from_be(len_bytes_enc(bytes).take(8)) == bytes.len(),
        len_bytes_enc(bytes).skip(8) == bytes,
{
    let e = len_bytes_enc(bytes);
    assert(e.take(8) =~= u64_be_bytes(bytes.len() as u64));
    assert(e.skip(8) =~= bytes);
    lemma_u64_bytes_roundtrip(bytes.len() as u64);
}

/// A duration is stored as its whole seconds (eight big-endian bytes) and
/// then its nanoseconds (four big-endian bytes).
pub proof fn lemma_duration_layout(d: Duration)
    ensures
        duration_enc(d).len() == 12,
        u64_from_be(duration_enc(d).take(8)) == d.secs,
        u32_from_be(duration_enc(d).skip(8)) == d.nanos,
{
    let e = duration_enc(d);
    assert(e.take(8) =~= u64_be_bytes(d.secs));
    assert(e.skip(8) =~= u32_be_bytes(d.nanos));
    lemma_u64_bytes_roundtrip(d.secs);
    lemma_u32_bytes_roundtrip(d.nanos);
}

/// Booleans are stored as a count and then one byte each: 1 for true and
/// 0 for false; a reader takes exactly those two bytes.
pub proof fn lemma_bool_vec_layout(v: Seq<bool>, b: u8, tail: Seq<u8>)
    requires
        v.len() <= u64::MAX,
    ensures
        bool_vec_enc(v).len() == v.len() + 8,
        u64_from_be(bool_vec_enc(v).take(8)) == v.len(),
        forall|i: int| 0 <= i < v.len() ==> #[trigger] bool_vec_enc(v)[i + 8] == (if v[i] { 1u8 } else { 0u8 }),
        parse_bools(seq![1u8] + tail, 1) == Ok::<(Seq<bool>, Seq<u8>), DecodeError>((seq![true], tail)),
        parse_bools(seq![0u8] + tail, 1) == Ok::<(Seq<bool>, Seq<u8>), DecodeError>((seq![false], tail)),
        b > 1 ==> parse_bools(seq![b] + tail, 1) == Err::<(Seq<bool>, Seq<u8>), DecodeError>(DecodeError::InvalidBool(b)),
{
    let e = bool_vec_enc(v);
    assert(e.take(8) =~= u64_be_bytes(v.len() as u64));
    lemma_u64_bytes_roundtrip(v.len() as u64);
    assert forall|i: int| 0 <= i < v.len() implies #[trigger] e[i + 8] == (if v[i] { 1u8 } else { 0u8 }) by {
        assert(e[i + 8] == bools_enc(v)[i]);
    }
    let s1 = seq![1u8] + tail;
    let s0 = seq![0u8] + tail;
    let sb = seq![b] + tail;
    assert(s1.drop_first() =~= tail);
    assert(s0.drop_first() =~= tail);
    assert(sb[0] == b);
    assert(s1[0] == 1u8);
    assert(s0[0] == 0u8);
    assert(parse_bools(tail, 0) == Ok::<(Seq<bool>, Seq<u8>), DecodeError>((Seq::<bool>::empty(), tail)));
    assert(seq![true] + Seq::<bool>::empty() =~= seq![true]);
    assert(seq![false] + Seq::<bool>::empty() =~= seq![false]);
}

/// An optional boolean sequence is stored as the byte 0 for none, or the
/// byte 1 and then the sequence; a reader takes 0 as none and 1 as some.
pub proof fn lemma_option_bool_vec_layout(v: Seq<bool>, tail: Seq<u8>)
    requires
        v.len() <= u64::MAX,
    ensures
        option_bool_vec_enc(None) == seq![0u8],
        option_bool_vec_enc(Some(v)) == seq![1u8] + bool_vec_enc(v),
        parse_option_bool_vec(seq![0u8] + tail) == Ok::<(Option<Seq<bool>>, Seq<u8>), DecodeError>((None, tail)),
        parse_option_bool_vec(seq![1u8] + bool_vec_enc(v) + tail)
            == Ok::<(Option<Seq<bool>>, Seq<u8>), DecodeError>((Some(v), tail)),
{
    let s0 = seq![0u8] + tail;
    let s1 = seq![1u8] + bool_vec_enc(v) + tail;
    assert(s0.drop_first() =~= tail);
    assert(s1.drop_first() =~= bool_vec_enc(v) + tail);
    assert(s1[0] == 1u8);
    lemma_bool_vec_roundtrip(v, tail);
}

/// An optional sequence of field elements is stored as the byte 0 for
/// none, or the byte 1 and then the counted sequence; a reader takes 0 as
/// none and 1 as some.
pub proof fn lemma_option_scalar_vec_layout(vs: Seq<nat>, tail: Seq<u8>)
    requires
        vs.len() <= u64::MAX,
        forall|k: int| 0 <= k < vs.len() ==> #[trigger] vs[k] < modulus(),
    ensures
        option_scalar_vec_enc(None) == seq![0u8],
        option_scalar_vec_enc(Some(vs)) == seq![1u8] + scalar_vec_enc(vs),
        parse_option_scalar_vec(seq![0u8] + tail) == Ok::<(Option<Seq<nat>>, Seq<u8>), DecodeError>((None, tail)),
        parse_option_scalar_vec(seq![1u8] + scalar_vec_enc(vs) + tail)
            == Ok::<(Option<Seq<nat>>, Seq<u8>), DecodeError>((Some(vs), tail)),
{
    let s0 = seq![0u8] + tail;
    let s1 = seq![1u8] + scalar_vec_enc(vs) + tail;
    assert(s0.drop_first() =~= tail);
    assert(s1.drop_first() =~= scalar_vec_enc(vs) + tail);
    assert(s1[0] == 1u8);
    lemma_scalar_vec_roundtrip(vs, tail);
}

/// A field element is stored as the length 32 (eight big-endian bytes) and
/// then its 32 little-endian bytes, which spell its value.
pub proof fn lemma_scalar_layout(v: nat)
    requires
        v < modulus(),
    ensures
        scalar_enc(v).len() == 40,
        u64_from_be(scalar_enc(v).take(8)) == 32,
        le_value(scalar_enc(v).skip(8)) == v,
{
    lemma_modulus_fits_32_bytes();
    lemma_le_bytes_value(v, 32);
    lemma_len_bytes_layout(le_bytes(v, 32));
}


/// Field elements one after another take 40 bytes each: the length 32,
/// then the 32 little-endian bytes of the value.
pub proof fn lemma_scalars_layout(vs: Seq<nat>)
    requires
        forall|k: int| 0 <= k < vs.len() ==> #[trigger] vs[k] < modulus(),
    ensures
        scalars_enc(vs).len() == 40 * vs.len(),
        forall|k: int| 0 <= k < vs.len() ==> {
            &&& u64_from_be(#[trigger] scalars_enc(vs).subrange(40 * k, 40 * k + 8)) == 32
            &&& le_value(scalars_enc(vs).subrange(40 * k + 8, 40 * k + 40)) == vs[k]
        },
    decreases vs.len(),
{
    if vs.len() > 0 {
        let rest = vs.drop_first();
        assert forall|k: int| 0 <= k < rest.len() implies #[trigger] rest[k] < modulus() by {
            assert(rest[k] == vs[k + 1]);
        }
        lemma_scalars_layout(rest);
        lemma_scalar_layout(vs[0]);
        let e = scalars_enc(vs);
        let h = scalar_enc(vs[0]);
        let t = scalars_enc(rest);
        assert(e == h + t);
        assert forall|k: int| 0 <= k < vs.len() implies {
            &&& u64_from_be(#[trigger] e.subrange(40 * k, 40 * k + 8)) == 32
            &&& le_value(e.subrange(40 * k + 8, 40 * k + 40)) == vs[k]
        } by {
            if k == 0 {
                assert(e.subrange(0, 8) =~= h.take(8));
                assert(e.subrange(8, 40) =~= h.skip(8));
            } else {
                let j = k - 1;
                assert(rest[j] == vs[k]);
                assert(u64_from_be(t.subrange(40 * j, 40 * j + 8)) == 32);
                assert(e.subrange(40 * k, 40 * k + 8) =~= t.subrange(40 * j, 40 * j + 8));
                assert(e.subrange(40 * k + 8, 40 * k + 40) =~= t.subrange(40 * j + 8, 40 * j + 40));
            }
        }
    }
}


/// A duration built from seconds and nanoseconds keeps the total number of
/// nanoseconds and carries whole seconds out of the nanoseconds.
pub proof fn lemma_normalized_duration(secs: u64, nanos: u32)
    requires
        secs + nanos / NANOS_PER_SEC <= u64::MAX,
    ensures
        normalized_duration(secs, nanos).nanos < 1_000_000_000,
        normalized_duration(secs, nanos).secs * 1_000_000_000 + normalized_duration(secs, nanos).nanos
            == secs * 1_000_000_000 + nanos,
{
    let d = normalized_duration(secs, nanos);
    assert(nanos == (nanos / 1_000_000_000u32) * 1_000_000_000 + nanos % 1_000_000_000u32);
    assert(d.secs == secs + nanos / 1_000_000_000u32);
}


/// A named field is the name's length (eight big-endian bytes), the name,
/// the data's length (eight big-endian bytes) and the data.
pub proof fn lemma_field_layout(name: Seq<u8>, data: Seq<u8>)
    requires
        name.len() <= u64::MAX,
        data.len() <= u64::MAX,
    ensures
        ({
            let f = field_enc(name, data);
            let l = name.len() as int;
            &&& f.len() == 16 + l + data.len()
            &&& u64_from_be(f.subrange(0, 8)) == l
            &&& f.subrange(8, 8 + l) == name
            &&& u64_from_be(f.subrange(8 + l, 16 + l)) == data.len()
            &&& f.subrange(16 + l, f.len() as int) == data
        }),
{
    let f = field_enc(name, data);
    let l = name.len() as int;
    assert(f.subrange(0, 8) =~= u64_be_bytes(l as u64));
    assert(f.subrange(8, 8 + l) =~= name);
    assert(f.subrange(8 + l, 16 + l) =~= u64_be_bytes(data.len() as u64));
    assert(f.subrange(16 + l, f.len() as int) =~= data);
    lemma_u64_bytes_roundtrip(l as u64);
    lemma_u64_bytes_roundtrip(data.len() as u64);
}


/// Where a reader stands afterwards: reading past the end leaves it at the
/// end; a length-prefixed string leaves it just after the string; an
/// invalid boolean byte or option tag is consumed and reading stops there.
pub proof fn lemma_reader_positions(s: Seq<u8>, n: nat, bytes: Seq<u8>, t: Seq<u8>, b: u8, k: nat)
    requires
        bytes.len() <= u64::MAX,
        b > 1,
        k >= 1,
    ensures
        s.len() < n ==> exact_rest(s, n).len() == 0,
        s.len() >= n ==> exact_rest(s, n) == s.subrange(n as int, s.len() as int),
        s.len() < 8 ==> len_bytes_rest(s).len() == 0,
        len_bytes_rest(len_bytes_enc(bytes) + t) == t,
        bools_rest(seq![b] + t, k) == t,
        option_bool_vec_rest(seq![b] + t) == t,
        option_scalar_vec_rest(seq![b] + t) == t,
{
    let e = len_bytes_enc(bytes) + t;
    assert(e.take(8) =~= u64_be_bytes(bytes.len() as u64));
    lemma_u64_bytes_roundtrip(bytes.len() as u64);
    assert(e.skip(8) =~= bytes + t);
    assert((bytes + t).skip(bytes.len() as int) =~= t);
    assert((seq![b] + t).drop_first() =~= t);
    assert((seq![b] + t)[0] == b);
}


} // verus!
