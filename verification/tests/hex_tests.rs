use absentis::errors::CodecError;
use absentis::hex::{decode, encode, encode_bare, u64_to_hex, Hex};
use absentis::numtext::{be_bytes_to_u64, parse_u32, parse_u64, u64_to_dec};

#[test]
fn it_should_make_hex_strings() {
    let hex_str = "0xff"; // 255

    let mut test_str = u64_to_hex(255_i32 as u64);
    assert_eq!(hex_str, &test_str);

    test_str = u64_to_hex(255_u32 as u64);
    assert_eq!(hex_str, &test_str);

    test_str = u64_to_hex(255_u64);
    assert_eq!(hex_str, &test_str);

    test_str = u64_to_hex(255_usize as u64);
    assert_eq!(hex_str, &test_str);
}

#[test]
fn encode_prefixes_and_pads_each_byte() {
    assert_eq!(encode(&[]), "0x");
    assert_eq!(encode(&[0x00]), "0x00");
    assert_eq!(encode(&[0x0f, 0xff]), "0x0fff");
    assert_eq!(encode(&[0xde, 0xad, 0xbe, 0xef]), "0xdeadbeef");
}

#[test]
fn decode_inverts_encode() {
    let cases: Vec<Vec<u8>> = vec![
        vec![],
        vec![0x00],
        vec![0xff],
        vec![0x01, 0x02, 0x03],
        vec![0xde, 0xad, 0xbe, 0xef, 0x00],
    ];
    for b in cases {
        let text = encode(&b);
        assert_eq!(decode(&text), Ok(b));
    }
}

#[test]
fn decode_pads_odd_length_input() {
    // an odd digit count gets one zero nibble on the left
    assert_eq!(decode("0xfff"), decode("0x0fff"));
    assert_eq!(decode("0xfff"), Ok(vec![0x0f, 0xff]));
}

#[test]
fn decode_takes_bare_and_mixed_case_digits() {
    assert_eq!(decode("ff"), Ok(vec![0xff]));
    assert_eq!(decode("0xAbCd"), Ok(vec![0xab, 0xcd]));
    assert_eq!(decode(""), Ok(vec![]));
    assert_eq!(decode("0x"), Ok(vec![]));
}

#[test]
fn decode_rejects_non_hex_characters() {
    assert_eq!(decode("0xzz"), Err(CodecError::InvalidDigit));
    assert_eq!(decode("0x12g4"), Err(CodecError::InvalidDigit));
    assert_eq!(decode("hello"), Err(CodecError::InvalidDigit));
}

#[test]
fn hex_type_round_trips_through_text() {
    let h = Hex::from_text("0x4b7").expect("valid hex");
    assert_eq!(h.to_bytes(), vec![0x04, 0xb7]);
    assert_eq!(h.to_text(), "0x04b7");
}

#[test]
fn bare_encoding_has_no_prefix() {
    assert_eq!(encode_bare(&[0xab, 0x01]), "ab01");
    assert_eq!(encode_bare(&[]), "");
}

#[test]
fn hex_quantities_render_minimally() {
    assert_eq!(u64_to_hex(0), "0x0");
    assert_eq!(u64_to_hex(1207), "0x4b7");
    assert_eq!(u64_to_hex(u64::MAX), "0xffffffffffffffff");
}

#[test]
fn decimal_rendering_is_exact() {
    assert_eq!(u64_to_dec(0), "0");
    assert_eq!(u64_to_dec(1000000), "1000000");
    assert_eq!(u64_to_dec(u64::MAX), "18446744073709551615");
}

#[test]
fn decimal_parsing_accepts_exactly_digit_runs_in_range() {
    assert_eq!(parse_u64("0"), Some(0));
    assert_eq!(parse_u64("988725"), Some(988725));
    assert_eq!(parse_u64("18446744073709551615"), Some(u64::MAX));
    assert_eq!(parse_u64("18446744073709551616"), None);
    assert_eq!(parse_u64(""), None);
    assert_eq!(parse_u64("12a"), None);
    assert_eq!(parse_u64("-3"), None);
    assert_eq!(parse_u32("4294967295"), Some(u32::MAX));
    assert_eq!(parse_u32("4294967296"), None);
}

#[test]
fn big_endian_bytes_read_back_as_numbers() {
    assert_eq!(be_bytes_to_u64(&[]), Some(0));
    assert_eq!(be_bytes_to_u64(&[0x04, 0xb7]), Some(1207));
    assert_eq!(be_bytes_to_u64(&[0x00, 0x00, 0x01]), Some(1));
    assert_eq!(
        be_bytes_to_u64(&[0xff, 0xff, 0xff, 0xff, 0xff, 0xff, 0xff, 0xff]),
        Some(u64::MAX)
    );
    assert_eq!(
        be_bytes_to_u64(&[0x01, 0x00, 0x00, 0x00, 0x00, 0x00, 0x00, 0x00, 0x00]),
        None
    );
}
