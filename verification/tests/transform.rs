use serialterm::endian::{i16_from_bits, i32_from_bits, u16_from_le, u32_from_le, words32_from_le};
use serialterm::text::{push_digits, push_notation, Radix};
use serialterm::transform::{ConvertFrom, InvalidConvertFrom, Output};

fn text_of(mode: ConvertFrom, bytes: &[u8]) -> String {
    match mode.transform(bytes) {
        Output::Text(text) => String::from_utf8(text).unwrap(),
        Output::FloatBits(_) => panic!("text expected"),
    }
}

#[test]
fn raw_passes_bytes_through() {
    let bytes = [0u8, 1, 2, 0xff, b'a', b' ', b',', b'\n'];
    match ConvertFrom::Raw.transform(&bytes) {
        Output::Text(text) => assert_eq!(text, bytes.to_vec()),
        Output::FloatBits(_) => panic!("text expected"),
    }
}

#[test]
fn hex_has_no_padding() {
    assert_eq!(text_of(ConvertFrom::Hex, &[0x0a, 0xff]), "aff");
    assert_eq!(text_of(ConvertFrom::Hex, &[0x00, 0xff]), "0ff");
    assert_eq!(text_of(ConvertFrom::Hex, &[0x10, 0x0f, 0x7b]), "10f7b");
}

#[test]
fn binary_has_no_padding() {
    assert_eq!(text_of(ConvertFrom::Binary, &[0, 1, 2, 5, 255]), "011010111111111");
    assert_eq!(text_of(ConvertFrom::Binary, &[128]), "10000000");
}

#[test]
fn uint16_reads_little_endian() {
    assert_eq!(text_of(ConvertFrom::UInt16, &[0x01, 0x00]), "1");
    assert_eq!(text_of(ConvertFrom::UInt16, &[0x00, 0x01]), "256");
    assert_eq!(text_of(ConvertFrom::UInt16, &[0xff, 0xff, 0x34, 0x12]), "655354660");
}

#[test]
fn int16_reads_twos_complement() {
    assert_eq!(text_of(ConvertFrom::Int16, &[0xff, 0xff]), "-1");
    assert_eq!(text_of(ConvertFrom::Int16, &[0x00, 0x80]), "-32768");
    assert_eq!(text_of(ConvertFrom::Int16, &[0xff, 0x7f, 0x02, 0x00]), "327672");
}

#[test]
fn int32_matches_direct_decoding() {
    let values: [i32; 6] = [0, 1, -1, i32::MIN, i32::MAX, -123456789];
    let mut bytes = Vec::new();
    let mut expected = String::new();
    for v in values {
        bytes.extend_from_slice(&v.to_le_bytes());
        expected.push_str(&format!("{}", v));
    }
    assert_eq!(text_of(ConvertFrom::Int32, &bytes), expected);
}

#[test]
fn uint32_matches_direct_decoding() {
    let values: [u32; 5] = [0, 1, 0x8000_0000, u32::MAX, 3141592653];
    let mut bytes = Vec::new();
    let mut expected = String::new();
    for v in values {
        bytes.extend_from_slice(&v.to_le_bytes());
        expected.push_str(&format!("{}", v));
    }
    assert_eq!(text_of(ConvertFrom::UInt32, &bytes), expected);
}

#[test]
fn int32_drops_incomplete_group() {
    let bytes = [0x2a, 0x00, 0x00, 0x00, 0x07, 0x00];
    assert_eq!(text_of(ConvertFrom::Int32, &bytes), "42");
    assert_eq!(text_of(ConvertFrom::Int32, &bytes[..3]), "");
    assert_eq!(text_of(ConvertFrom::UInt16, &[0x01, 0x00, 0x05]), "1");
}

#[test]
fn float32_hands_out_bit_patterns() {
    let mut bytes = Vec::new();
    bytes.extend_from_slice(&1.5f32.to_le_bytes());
    bytes.extend_from_slice(&(-0.25f32).to_le_bytes());
    bytes.push(0x11);
    match ConvertFrom::Float32.transform(&bytes) {
        Output::FloatBits(words) => {
            assert_eq!(words, vec![1.5f32.to_bits(), (-0.25f32).to_bits()]);
            let shown: Vec<String> =
                words.iter().map(|w| format!("{}", f32::from_bits(*w))).collect();
            assert_eq!(shown.concat(), "1.5-0.25");
        }
        Output::Text(_) => panic!("bit patterns expected"),
    }
}

#[test]
fn empty_input_gives_empty_output() {
    let modes = [
        ConvertFrom::Raw,
        ConvertFrom::Hex,
        ConvertFrom::Binary,
        ConvertFrom::Int32,
        ConvertFrom::UInt32,
        ConvertFrom::Int16,
        ConvertFrom::UInt16,
    ];
    for mode in modes {
        assert_eq!(text_of(mode, &[]), "");
    }
    match ConvertFrom::Float32.transform(&[]) {
        Output::FloatBits(words) => assert!(words.is_empty()),
        Output::Text(_) => panic!("bit patterns expected"),
    }
}

#[test]
fn hex_and_binary_match_std_formatting() {
    for b in 0..=255u8 {
        assert_eq!(text_of(ConvertFrom::Hex, &[b]), format!("{:x}", b));
        assert_eq!(text_of(ConvertFrom::Binary, &[b]), format!("{:b}", b));
    }
}

#[test]
fn int16_matches_std_formatting() {
    for w in [0u16, 1, 9, 10, 99, 100, 0x7fff, 0x8000, 0x8001, 0xfffe, 0xffff, 12345, 54321] {
        let bytes = w.to_le_bytes();
        assert_eq!(text_of(ConvertFrom::UInt16, &bytes), format!("{}", w));
        assert_eq!(text_of(ConvertFrom::Int16, &bytes), format!("{}", w as i16));
    }
}

#[test]
fn mode_words_are_case_insensitive() {
    assert_eq!(ConvertFrom::from_str("NON"), Ok(ConvertFrom::Raw));
    assert_eq!(ConvertFrom::from_str("HEX"), Ok(ConvertFrom::Hex));
    assert_eq!(ConvertFrom::from_str("BIN"), Ok(ConvertFrom::Binary));
    assert_eq!(ConvertFrom::from_str("INT"), Ok(ConvertFrom::Int32));
    assert_eq!(ConvertFrom::from_str("UINT"), Ok(ConvertFrom::UInt32));
    assert_eq!(ConvertFrom::from_str("SHR"), Ok(ConvertFrom::Int16));
    assert_eq!(ConvertFrom::from_str("USHR"), Ok(ConvertFrom::UInt16));
    assert_eq!(ConvertFrom::from_str("FLT"), Ok(ConvertFrom::Float32));
    assert_eq!(ConvertFrom::from_str("hex"), Ok(ConvertFrom::Hex));
    assert_eq!(ConvertFrom::from_str("uShR"), Ok(ConvertFrom::UInt16));
}

#[test]
fn unknown_mode_word_is_rejected() {
    assert_eq!(ConvertFrom::from_str(""), Err(InvalidConvertFrom));
    assert_eq!(ConvertFrom::from_str("HEXX"), Err(InvalidConvertFrom));
    assert_eq!(ConvertFrom::from_str("HE"), Err(InvalidConvertFrom));
    assert_eq!(ConvertFrom::from_str("FLOAT"), Err(InvalidConvertFrom));
    assert_eq!(ConvertFrom::from_str("h\u{e9}x"), Err(InvalidConvertFrom));
    assert_eq!(InvalidConvertFrom.message(), "ConvertFrom got invalid value");
}

#[test]
fn default_mode_is_no_conversion() {
    assert_eq!(ConvertFrom::default(), ConvertFrom::Raw);
}

#[test]
fn digits_in_each_radix() {
    let mut out = vec![b'>'];
    push_digits(&mut out, 0, Radix::Decimal);
    push_digits(&mut out, 255, Radix::Hex);
    push_digits(&mut out, 5, Radix::Binary);
    push_digits(&mut out, u64::MAX, Radix::Decimal);
    assert_eq!(String::from_utf8(out).unwrap(), ">0ff10118446744073709551615");
}

#[test]
fn notation_of_signed_extremes() {
    let mut out = Vec::new();
    push_notation(&mut out, i64::MIN, Radix::Decimal);
    push_notation(&mut out, i64::MAX, Radix::Decimal);
    push_notation(&mut out, -255, Radix::Hex);
    assert_eq!(
        String::from_utf8(out).unwrap(),
        "-92233720368547758089223372036854775807-ff"
    );
}

#[test]
fn little_endian_words() {
    assert_eq!(u16_from_le(0x34, 0x12), 0x1234);
    assert_eq!(u32_from_le(0x78, 0x56, 0x34, 0x12), 0x1234_5678);
    assert_eq!(u32_from_le(0xff, 0xff, 0xff, 0xff), u32::MAX);
    assert_eq!(i16_from_bits(0x8000), i16::MIN);
    assert_eq!(i16_from_bits(0xffff), -1);
    assert_eq!(i16_from_bits(0x7fff), i16::MAX);
    assert_eq!(i32_from_bits(0x8000_0000), i32::MIN);
    assert_eq!(i32_from_bits(0xffff_ffff), -1);
    assert_eq!(i32_from_bits(0x7fff_ffff), i32::MAX);
    assert_eq!(
        words32_from_le(&[1, 0, 0, 0, 0, 1, 0, 0, 9, 9]),
        vec![1u32, 256u32]
    );
}
