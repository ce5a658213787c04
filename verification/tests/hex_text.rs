use digest_tool::hex::{decode_digest, encode_hex, hex_val, same_digest};

#[test]
fn hex_val_accepts_all_digit_forms() {
    assert_eq!(hex_val(b'0').unwrap(), 0);
    assert_eq!(hex_val(b'9').unwrap(), 9);
    assert_eq!(hex_val(b'a').unwrap(), 10);
    assert_eq!(hex_val(b'f').unwrap(), 15);
    assert_eq!(hex_val(b'A').unwrap(), 10);
    assert_eq!(hex_val(b'F').unwrap(), 15);
}

#[test]
fn hex_val_names_the_byte_in_decimal() {
    assert_eq!(hex_val(b'g').unwrap_err(), "invalid hex char '103'");
    assert_eq!(hex_val(b' ').unwrap_err(), "invalid hex char '32'");
    assert_eq!(hex_val(0).unwrap_err(), "invalid hex char '0'");
    assert_eq!(hex_val(255).unwrap_err(), "invalid hex char '255'");
}

#[test]
fn decode_digest_decodes_pairs() {
    let mut buf = Vec::new();
    assert!(decode_digest("00ff7A", &mut buf).is_ok());
    assert_eq!(buf, vec![0x00, 0xff, 0x7a]);
}

#[test]
fn decode_digest_appends_to_the_buffer() {
    let mut buf = vec![1, 2];
    assert!(decode_digest("0a", &mut buf).is_ok());
    assert_eq!(buf, vec![1, 2, 10]);
}

#[test]
fn decode_digest_ignores_an_odd_last_digit() {
    let mut buf = Vec::new();
    assert!(decode_digest("abc", &mut buf).is_ok());
    assert_eq!(buf, vec![0xab]);
    let mut buf = Vec::new();
    assert!(decode_digest("abz", &mut buf).is_ok());
    assert_eq!(buf, vec![0xab]);
}

#[test]
fn decode_digest_stops_at_a_bad_byte() {
    let mut buf = Vec::new();
    let e = decode_digest("abcx12", &mut buf).unwrap_err();
    assert_eq!(e, "invalid hex char '120'");
    assert_eq!(buf, vec![0xab]);
}

#[test]
fn decode_digest_reports_the_first_byte_of_a_non_ascii_char() {
    let mut buf = Vec::new();
    let e = decode_digest("é0", &mut buf).unwrap_err();
    assert_eq!(e, "invalid hex char '195'");
    assert!(buf.is_empty());
}

#[test]
fn decode_digest_of_empty_text_is_empty() {
    let mut buf = Vec::new();
    assert!(decode_digest("", &mut buf).is_ok());
    assert!(buf.is_empty());
}

#[test]
fn encode_hex_is_lower_case_high_half_first() {
    assert_eq!(encode_hex(&[0x00, 0x0f, 0xf0, 0xab]), b"000ff0ab".to_vec());
    assert!(encode_hex(&[]).is_empty());
}

#[test]
fn decode_of_encode_gives_back_the_bytes() {
    let data: Vec<u8> = (0..=255u8).collect();
    let text = String::from_utf8(encode_hex(&data)).unwrap();
    let mut buf = Vec::new();
    assert!(decode_digest(&text, &mut buf).is_ok());
    assert_eq!(buf, data);
}

#[test]
fn same_digest_compares_bytes() {
    assert!(same_digest(&[1, 2, 3], &[1, 2, 3]));
    assert!(!same_digest(&[1, 2, 3], &[1, 2, 4]));
    assert!(!same_digest(&[1, 2], &[1, 2, 3]));
    assert!(same_digest(&[], &[]));
}
