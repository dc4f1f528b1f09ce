use hydra_dqea::codec::{
    append_bool_vec, append_duration, append_field, append_len_bytes, append_option_bool_vec,
    append_option_scalar_vec, append_scalar, append_scalar_vec, append_string, decode_scalar,
    duration_overflows_at, push_u32_be, push_u64_be, read_bool_vec, read_duration, read_exact,
    read_len_bytes, read_option_bool_vec, read_option_scalar_vec, read_scalar, read_scalar_vec,
    read_string, read_u32, read_u64, Cursor, DecodeError, Duration,
};
use hydra_dqea::field::Scalar;

fn s(v: u64) -> Scalar {
    Scalar::from_u64(v)
}

#[test]
fn append_field_layout() {
    let mut out = Vec::new();
    append_field(&mut out, b"vk", &[7, 8, 9]);
    assert_eq!(out, vec![0, 0, 0, 0, 0, 0, 0, 2, b'v', b'k', 0, 0, 0, 0, 0, 0, 0, 3, 7, 8, 9]);
}

#[test]
fn append_field_keeps_what_was_there() {
    let mut out = vec![1, 2];
    append_field(&mut out, b"", &[]);
    assert_eq!(out.len(), 2 + 16);
    assert_eq!(&out[..2], &[1, 2]);
}

#[test]
fn append_len_bytes_layout() {
    let mut out = vec![0xaa];
    append_len_bytes(&mut out, &[1, 2, 3]);
    assert_eq!(out, vec![0xaa, 0, 0, 0, 0, 0, 0, 0, 3, 1, 2, 3]);
}

#[test]
fn push_big_endian() {
    let mut out = Vec::new();
    push_u64_be(&mut out, 0x0102030405060708);
    push_u32_be(&mut out, 0x0a0b0c0d);
    assert_eq!(out, vec![1, 2, 3, 4, 5, 6, 7, 8, 0x0a, 0x0b, 0x0c, 0x0d]);
}

#[test]
fn read_exact_takes_bytes_in_order() {
    let mut c = Cursor::new(vec![1, 2, 3, 4, 5]);
    assert_eq!(read_exact(&mut c, 2), Ok(vec![1, 2]));
    assert_eq!(read_exact(&mut c, 3), Ok(vec![3, 4, 5]));
    assert_eq!(read_exact(&mut c, 0), Ok(vec![]));
    assert_eq!(read_exact(&mut c, 1), Err(DecodeError::UnexpectedEnd));
}

#[test]
fn read_exact_too_long_keeps_nothing() {
    let mut c = Cursor::new(vec![1, 2, 3]);
    assert_eq!(read_exact(&mut c, 4), Err(DecodeError::UnexpectedEnd));
}

#[test]
fn read_u64_and_u32() {
    let mut c = Cursor::new(vec![0, 0, 0, 0, 0, 0, 1, 2, 0, 0, 0, 9, 1]);
    assert_eq!(read_u64(&mut c), Ok(258));
    assert_eq!(read_u32(&mut c), Ok(9));
    assert_eq!(read_u32(&mut c), Err(DecodeError::UnexpectedEnd));
}

#[test]
fn u64_roundtrip_extremes() {
    for n in [0u64, 1, 255, 256, u64::MAX] {
        let mut out = Vec::new();
        push_u64_be(&mut out, n);
        let mut c = Cursor::new(out);
        assert_eq!(read_u64(&mut c), Ok(n));
    }
}

#[test]
fn len_bytes_roundtrip() {
    let mut out = Vec::new();
    append_len_bytes(&mut out, &[9, 8, 7]);
    append_len_bytes(&mut out, &[]);
    let mut c = Cursor::new(out);
    assert_eq!(read_len_bytes(&mut c), Ok(vec![9, 8, 7]));
    assert_eq!(read_len_bytes(&mut c), Ok(vec![]));
    assert_eq!(read_len_bytes(&mut c), Err(DecodeError::UnexpectedEnd));
}

#[test]
fn len_bytes_huge_length_is_refused() {
    let mut c = Cursor::new(vec![0xff, 0xff, 0xff, 0xff, 0xff, 0xff, 0xff, 0xff, 1, 2]);
    assert_eq!(read_len_bytes(&mut c), Err(DecodeError::UnexpectedEnd));
}

#[test]
fn string_roundtrip() {
    let mut out = Vec::new();
    append_string(&mut out, "héllo");
    append_string(&mut out, "");
    let mut c = Cursor::new(out);
    assert_eq!(read_string(&mut c), Ok("héllo".to_string()));
    assert_eq!(read_string(&mut c), Ok(String::new()));
}

#[test]
fn string_invalid_utf8() {
    let mut out = Vec::new();
    append_len_bytes(&mut out, &[0xff, 0xfe]);
    let mut c = Cursor::new(out);
    assert_eq!(read_string(&mut c), Err(DecodeError::InvalidUtf8));
}

#[test]
fn duration_roundtrip() {
    let d = Duration::new(1_700_000_000, 123_456_789);
    let mut out = Vec::new();
    append_duration(&mut out, d);
    assert_eq!(out.len(), 12);
    let mut c = Cursor::new(out);
    assert!(!duration_overflows_at(&c));
    assert_eq!(read_duration(&mut c), Ok(d));
}

#[test]
fn duration_new_carries_nanoseconds() {
    let d = Duration::new(5, 2_500_000_000);
    assert_eq!(d.as_secs(), 7);
    assert_eq!(d.subsec_nanos(), 500_000_000);
    let e = Duration::from_secs(8640000);
    assert_eq!(e.as_secs(), 8640000);
    assert_eq!(e.subsec_nanos(), 0);
}

#[test]
fn read_duration_normalizes() {
    let mut out = Vec::new();
    push_u64_be(&mut out, 3);
    push_u32_be(&mut out, 1_000_000_001);
    let mut c = Cursor::new(out);
    assert_eq!(read_duration(&mut c), Ok(Duration::new(4, 1)));
}

#[test]
fn duration_overflow_is_detected() {
    let mut out = Vec::new();
    push_u64_be(&mut out, u64::MAX);
    push_u32_be(&mut out, 1_000_000_000);
    let c = Cursor::new(out);
    assert!(duration_overflows_at(&c));
    let mut fine = Vec::new();
    push_u64_be(&mut fine, u64::MAX);
    push_u32_be(&mut fine, 999_999_999);
    assert!(!duration_overflows_at(&Cursor::new(fine)));
}

#[test]
fn duration_truncated() {
    let mut c = Cursor::new(vec![0, 0, 0, 0, 0, 0, 0, 1, 0, 0]);
    assert_eq!(read_duration(&mut c), Err(DecodeError::UnexpectedEnd));
}

#[test]
fn bool_vec_roundtrip() {
    let values = vec![true, false, false, true];
    let mut out = Vec::new();
    append_bool_vec(&mut out, &values);
    assert_eq!(out, vec![0, 0, 0, 0, 0, 0, 0, 4, 1, 0, 0, 1]);
    let mut c = Cursor::new(out);
    assert_eq!(read_bool_vec(&mut c), Ok(values));
}

#[test]
fn bool_vec_invalid_byte() {
    let mut c = Cursor::new(vec![0, 0, 0, 0, 0, 0, 0, 2, 1, 2]);
    assert_eq!(read_bool_vec(&mut c), Err(DecodeError::InvalidBool(2)));
}

#[test]
fn bool_vec_truncated() {
    let mut c = Cursor::new(vec![0, 0, 0, 0, 0, 0, 0, 3, 1, 0]);
    assert_eq!(read_bool_vec(&mut c), Err(DecodeError::UnexpectedEnd));
}

#[test]
fn option_bool_vec_roundtrip() {
    for v in [None, Some(vec![]), Some(vec![true, true, false])] {
        let mut out = Vec::new();
        append_option_bool_vec(&mut out, &v);
        let mut c = Cursor::new(out);
        assert_eq!(read_option_bool_vec(&mut c), Ok(v));
    }
}

#[test]
fn option_bool_vec_tags() {
    let mut out = Vec::new();
    append_option_bool_vec(&mut out, &None);
    assert_eq!(out, vec![0]);
    let mut c = Cursor::new(vec![5]);
    assert_eq!(read_option_bool_vec(&mut c), Err(DecodeError::InvalidTag(5)));
    let mut e = Cursor::new(vec![]);
    assert_eq!(read_option_bool_vec(&mut e), Err(DecodeError::UnexpectedEnd));
}

#[test]
fn scalar_encoding_is_little_endian() {
    let mut out = Vec::new();
    append_scalar(&mut out, &s(0x0102));
    assert_eq!(out.len(), 8 + 32);
    assert_eq!(&out[..8], &[0, 0, 0, 0, 0, 0, 0, 32]);
    assert_eq!(out[8], 0x02);
    assert_eq!(out[9], 0x01);
    assert!(out[10..].iter().all(|b| *b == 0));
}

#[test]
fn scalar_roundtrip() {
    let big = Scalar { l0: 11, l1: 22, l2: 33, l3: 0x73eda753299d7d47 };
    let mut out = Vec::new();
    append_scalar(&mut out, &big);
    append_scalar(&mut out, &s(5));
    let mut c = Cursor::new(out);
    assert_eq!(read_scalar(&mut c), Ok(big));
    assert_eq!(read_scalar(&mut c), Ok(s(5)));
}

#[test]
fn decode_scalar_reads_the_first_32_bytes() {
    let mut bytes = vec![0u8; 40];
    bytes[0] = 7;
    bytes[35] = 9;
    assert_eq!(decode_scalar(&bytes), Ok(s(7)));
    assert_eq!(decode_scalar(&bytes[..31]), Err(DecodeError::InvalidScalar));
}

#[test]
fn decode_scalar_refuses_the_modulus() {
    // The modulus itself, little-endian.
    let p: [u64; 4] = [0xffffffff00000001, 0x53bda402fffe5bfe, 0x3339d80809a1d805, 0x73eda753299d7d48];
    let mut bytes = Vec::new();
    for limb in p {
        bytes.extend_from_slice(&limb.to_le_bytes());
    }
    assert_eq!(decode_scalar(&bytes), Err(DecodeError::InvalidScalar));
    bytes[0] = 0;
    assert_eq!(decode_scalar(&bytes).map(|v| v.l0), Ok(0xffffffff00000000));
}

#[test]
fn scalar_vec_roundtrip() {
    let values = vec![s(1), s(2), s(3)];
    let mut out = Vec::new();
    append_scalar_vec(&mut out, &values);
    assert_eq!(out.len(), 8 + 3 * 40);
    let mut c = Cursor::new(out);
    assert_eq!(read_scalar_vec(&mut c), Ok(values));
}

#[test]
fn scalar_vec_bad_element() {
    let mut out = Vec::new();
    push_u64_be(&mut out, 1);
    append_len_bytes(&mut out, &[1, 2, 3]);
    let mut c = Cursor::new(out);
    assert_eq!(read_scalar_vec(&mut c), Err(DecodeError::InvalidScalar));
}

#[test]
fn option_scalar_vec_roundtrip() {
    for v in [None, Some(vec![]), Some(vec![s(9), s(10)])] {
        let mut out = Vec::new();
        append_option_scalar_vec(&mut out, &v);
        let mut c = Cursor::new(out);
        assert_eq!(read_option_scalar_vec(&mut c), Ok(v));
    }
    let mut c = Cursor::new(vec![2]);
    assert_eq!(read_option_scalar_vec(&mut c), Err(DecodeError::InvalidTag(2)));
}

#[test]
fn cursor_after_errors() {
    // The length and the byte are consumed before the UTF-8 check fails.
    let mut c = Cursor::new(vec![0, 0, 0, 0, 0, 0, 0, 1, 255, 7]);
    assert_eq!(read_string(&mut c), Err(DecodeError::InvalidUtf8));
    assert_eq!(c.pos, 9);
    // Running out of input leaves the cursor at the end.
    let mut d = Cursor::new(vec![1, 2, 3]);
    assert_eq!(read_exact(&mut d, 4), Err(DecodeError::UnexpectedEnd));
    assert_eq!(d.pos, 3);
    let mut e = Cursor::new(vec![0, 0, 0, 0, 0, 0, 0, 9, 1, 2]);
    assert_eq!(read_len_bytes(&mut e), Err(DecodeError::UnexpectedEnd));
    assert_eq!(e.pos, 10);
    // A bad boolean is consumed, and reading stops there.
    let mut f = Cursor::new(vec![0, 0, 0, 0, 0, 0, 0, 3, 1, 5, 0, 0]);
    assert_eq!(read_bool_vec(&mut f), Err(DecodeError::InvalidBool(5)));
    assert_eq!(f.pos, 10);
    // A bad option tag is consumed.
    let mut g = Cursor::new(vec![4, 0]);
    assert_eq!(read_option_bool_vec(&mut g), Err(DecodeError::InvalidTag(4)));
    assert_eq!(g.pos, 1);
}

#[test]
fn scalar_canonical_check() {
    assert!(s(0).is_canonical());
    let below = Scalar { l0: 0xffffffff00000000, l1: 0x53bda402fffe5bfe, l2: 0x3339d80809a1d805, l3: 0x73eda753299d7d48 };
    assert!(below.is_canonical());
    let modulus = Scalar { l0: 0xffffffff00000001, ..below };
    assert!(!modulus.is_canonical());
    let high = Scalar { l0: 0, l1: 0, l2: 0, l3: u64::MAX };
    assert!(!high.is_canonical());
    let mid = Scalar { l0: u64::MAX, l1: u64::MAX, l2: 0x3339d80809a1d804, l3: 0x73eda753299d7d48 };
    assert!(mid.is_canonical());
}
