use ragnarok_auth::codec::{
    read_cstring, read_fixed, read_opcode, read_u16_le, read_u32_le, write_bytes, write_le,
    write_padded, write_u16_le, write_u32_le, write_u8, write_zeros, DecodeError,
};
use ragnarok_auth::text::{decode_text_field, encode_text_field, str_equal};

#[test]
fn opcode_is_little_endian() {
    assert_eq!(read_opcode(&[0x64, 0x00]), Ok(0x0064));
    assert_eq!(read_opcode(&[0x87, 0x01]), Ok(0x0187));
    assert_eq!(read_opcode(&[0xc4, 0x0a, 0xff]), Ok(0x0ac4));
    assert_eq!(read_opcode(&[0x34, 0x12]), Ok(0x1234));
}

#[test]
fn opcode_needs_two_bytes() {
    assert_eq!(read_opcode(&[]), Err(DecodeError::Truncated));
    assert_eq!(read_opcode(&[0x64]), Err(DecodeError::Truncated));
}

#[test]
fn read_u16_le_at_offsets() {
    let buf: [u8; 5] = [0x01, 0x02, 0x03, 0x04, 0xff];
    assert_eq!(read_u16_le(&buf, 0), Ok(0x0201));
    assert_eq!(read_u16_le(&buf, 1), Ok(0x0302));
    assert_eq!(read_u16_le(&buf, 3), Ok(0xff04));
    assert_eq!(read_u16_le(&buf, 4), Err(DecodeError::Truncated));
    assert_eq!(read_u16_le(&buf, usize::MAX), Err(DecodeError::Truncated));
}

#[test]
fn read_u32_le_at_offsets() {
    let buf: [u8; 6] = [0x44, 0x33, 0x22, 0x11, 0xff, 0xff];
    assert_eq!(read_u32_le(&buf, 0), Ok(0x11223344));
    assert_eq!(read_u32_le(&buf, 2), Ok(0xffff1122));
    assert_eq!(read_u32_le(&buf, 3), Err(DecodeError::Truncated));
    assert_eq!(read_u32_le(&[0xff, 0xff, 0xff, 0xff], 0), Ok(u32::MAX));
}

#[test]
fn read_fixed_copies_the_range() {
    let buf: [u8; 5] = [1, 2, 3, 4, 5];
    assert_eq!(read_fixed(&buf, 1, 3), Ok(vec![2, 3, 4]));
    assert_eq!(read_fixed(&buf, 0, 5), Ok(vec![1, 2, 3, 4, 5]));
    assert_eq!(read_fixed(&buf, 5, 0), Ok(vec![]));
    assert_eq!(read_fixed(&buf, 3, 3), Err(DecodeError::Truncated));
    assert_eq!(read_fixed(&buf, 6, 0), Err(DecodeError::Truncated));
    assert_eq!(read_fixed(&buf, usize::MAX, 2), Err(DecodeError::Truncated));
}

#[test]
fn cstring_stops_at_first_nul() {
    let field: [u8; 8] = [b'a', b'b', 0, b'c', b'd', 0, 0, 0];
    assert_eq!(read_cstring(&field, 8), Ok("ab".to_string()));
}

#[test]
fn cstring_without_nul_takes_the_whole_field() {
    let field: [u8; 4] = [b'u', b's', b'e', b'r'];
    assert_eq!(read_cstring(&field, 4), Ok("user".to_string()));
    assert_eq!(read_cstring(&field, 24), Ok("user".to_string()));
}

#[test]
fn cstring_is_cut_at_max_len() {
    let field: [u8; 6] = [b'a', b'b', b'c', b'd', b'e', b'f'];
    assert_eq!(read_cstring(&field, 3), Ok("abc".to_string()));
    assert_eq!(read_cstring(&field, 0), Ok(String::new()));
}

#[test]
fn cstring_of_empty_field_is_empty() {
    assert_eq!(read_cstring(&[], 24), Ok(String::new()));
    assert_eq!(read_cstring(&[0, 0, 0], 3), Ok(String::new()));
}

#[test]
fn cstring_rejects_invalid_text() {
    assert_eq!(read_cstring(&[0xff, 0xfe, 0], 3), Err(DecodeError::InvalidText));
    assert_eq!(read_cstring(&[b'a', 0xc3], 2), Err(DecodeError::InvalidText));
}

#[test]
fn cstring_ignores_invalid_bytes_after_the_nul() {
    assert_eq!(read_cstring(&[b'o', b'k', 0, 0xff, 0xfe], 5), Ok("ok".to_string()));
}

#[test]
fn cstring_decodes_multi_byte_text() {
    let field: [u8; 6] = [0xc3, 0xa9, 0xe2, 0x82, 0xac, 0];
    assert_eq!(read_cstring(&field, 6), Ok("\u{e9}\u{20ac}".to_string()));
}

#[test]
fn write_le_writes_low_bytes_first() {
    let mut out: Vec<u8> = vec![0xaa];
    write_le(&mut out, 0x11223344, 4);
    assert_eq!(out, vec![0xaa, 0x44, 0x33, 0x22, 0x11]);
    let mut two: Vec<u8> = Vec::new();
    write_le(&mut two, 0x11223344, 2);
    assert_eq!(two, vec![0x44, 0x33]);
    let mut none: Vec<u8> = Vec::new();
    write_le(&mut none, 0x11223344, 0);
    assert_eq!(none, Vec::<u8>::new());
}

#[test]
fn write_le_pads_wide_fields_with_zero() {
    let mut out: Vec<u8> = Vec::new();
    write_le(&mut out, 0x0102, 6);
    assert_eq!(out, vec![0x02, 0x01, 0, 0, 0, 0]);
}

#[test]
fn write_fixed_width_integers() {
    let mut out: Vec<u8> = Vec::new();
    write_u8(&mut out, 0x7f);
    write_u16_le(&mut out, 0x0ac4);
    write_u32_le(&mut out, 0x1d266809);
    assert_eq!(out, vec![0x7f, 0xc4, 0x0a, 0x09, 0x68, 0x26, 0x1d]);
}

#[test]
fn integers_survive_write_and_read() {
    let values: [u32; 5] = [0, 1, 0xff, 0x0100_0000, u32::MAX];
    for v in values {
        let mut out: Vec<u8> = Vec::new();
        write_u32_le(&mut out, v);
        assert_eq!(read_u32_le(&out, 0), Ok(v));
    }
    let shorts: [u16; 4] = [0, 0x00ff, 0x0100, u16::MAX];
    for v in shorts {
        let mut out: Vec<u8> = Vec::new();
        write_u16_le(&mut out, v);
        assert_eq!(read_u16_le(&out, 0), Ok(v));
        assert_eq!(read_opcode(&out), Ok(v));
    }
}

#[test]
fn write_bytes_and_zeros_append() {
    let mut out: Vec<u8> = vec![9];
    write_bytes(&mut out, &[1, 2, 3]);
    write_zeros(&mut out, 2);
    write_bytes(&mut out, &[]);
    write_zeros(&mut out, 0);
    assert_eq!(out, vec![9, 1, 2, 3, 0, 0]);
}

#[test]
fn write_padded_fills_the_field() {
    let mut out: Vec<u8> = vec![7];
    assert!(write_padded(&mut out, b"abc", 5));
    assert_eq!(out, vec![7, b'a', b'b', b'c', 0, 0]);
    assert!(write_padded(&mut out, b"xy", 2));
    assert_eq!(out, vec![7, b'a', b'b', b'c', 0, 0, b'x', b'y']);
}

#[test]
fn write_padded_refuses_text_that_does_not_fit() {
    let mut out: Vec<u8> = vec![7];
    assert!(!write_padded(&mut out, b"abcdef", 5));
    assert_eq!(out, vec![7]);
}

#[test]
fn text_field_round_trip() {
    let mut out: Vec<u8> = Vec::new();
    assert!(encode_text_field(&mut out, "Cerberus", 20));
    assert_eq!(out.len(), 20);
    assert_eq!(&out[..8], b"Cerberus");
    assert!(out[8..].iter().all(|b| *b == 0));
    assert_eq!(decode_text_field(&out), Ok("Cerberus".to_string()));
}

#[test]
fn text_field_of_full_width_has_no_terminator() {
    let mut out: Vec<u8> = Vec::new();
    assert!(encode_text_field(&mut out, "abcd", 4));
    assert_eq!(out, b"abcd".to_vec());
    assert_eq!(decode_text_field(&out), Ok("abcd".to_string()));
}

#[test]
fn text_field_counts_bytes_not_characters() {
    let mut out: Vec<u8> = Vec::new();
    assert!(!encode_text_field(&mut out, "\u{20ac}\u{20ac}", 5));
    assert!(out.is_empty());
    assert!(encode_text_field(&mut out, "\u{20ac}\u{20ac}", 6));
    assert_eq!(decode_text_field(&out), Ok("\u{20ac}\u{20ac}".to_string()));
}

#[test]
fn text_field_is_cut_at_an_embedded_nul() {
    let mut out: Vec<u8> = Vec::new();
    assert!(encode_text_field(&mut out, "ab\0cd", 8));
    assert_eq!(out, vec![b'a', b'b', 0, b'c', b'd', 0, 0, 0]);
    assert_eq!(decode_text_field(&out), Ok("ab".to_string()));
}

#[test]
fn str_equal_compares_texts() {
    assert!(str_equal("000fail", "000fail"));
    assert!(!str_equal("000fail", "000failpassword"));
    assert!(!str_equal("abc", "abd"));
    assert!(str_equal("", ""));
    assert!(!str_equal("", "a"));
}
