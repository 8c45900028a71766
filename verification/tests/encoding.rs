use ged_io::encoding::{
    decode_ansel, decode_gedcom_bytes, detect_encoding, encode_ansel, encode_to_bytes, parse_encoding_value,
    GedcomEncoding,
};

#[test]
fn test_detect_utf8_bom() {
    let bytes = [0xEF, 0xBB, 0xBF, b'0', b' ', b'H', b'E', b'A', b'D'];
    assert_eq!(detect_encoding(&bytes), GedcomEncoding::Utf8);
}

#[test]
fn test_detect_utf16_le_bom() {
    let bytes = [0xFF, 0xFE, b'0', 0x00, b' ', 0x00];
    assert_eq!(detect_encoding(&bytes), GedcomEncoding::Utf16Le);
}

#[test]
fn test_detect_utf16_be_bom() {
    let bytes = [0xFE, 0xFF, 0x00, b'0', 0x00, b' '];
    assert_eq!(detect_encoding(&bytes), GedcomEncoding::Utf16Be);
}

#[test]
fn test_detect_ascii() {
    let bytes = b"0 HEAD\n1 GEDC\n2 VERS 5.5\n0 TRLR\n";
    assert_eq!(detect_encoding(bytes), GedcomEncoding::Ascii);
}

#[test]
fn test_detect_utf8_from_char_tag() {
    let bytes = b"0 HEAD\n1 CHAR UTF-8\n0 TRLR\n";
    assert_eq!(detect_encoding(bytes), GedcomEncoding::Utf8);
}

#[test]
fn test_detect_iso8859_1_from_char_tag() {
    let bytes = b"0 HEAD\n1 CHAR ISO-8859-1\n0 TRLR\n";
    assert_eq!(detect_encoding(bytes), GedcomEncoding::Iso8859_1);
}

#[test]
fn test_detect_iso8859_15_from_char_tag() {
    let bytes = b"0 HEAD\n1 CHAR ISO-8859-15\n0 TRLR\n";
    assert_eq!(detect_encoding(bytes), GedcomEncoding::Iso8859_15);
}

#[test]
fn test_decode_utf8() {
    let bytes = "0 HEAD\n1 NAME José García\n0 TRLR\n".as_bytes();
    let (content, encoding) = decode_gedcom_bytes(bytes).unwrap();
    assert_eq!(encoding, GedcomEncoding::Utf8);
    assert!(content.contains("José García"));
}

#[test]
fn test_decode_utf8_with_bom() {
    let mut bytes = vec![0xEF, 0xBB, 0xBF];
    bytes.extend_from_slice(b"0 HEAD\n1 NAME Test\n0 TRLR\n");
    let (content, encoding) = decode_gedcom_bytes(&bytes).unwrap();
    assert_eq!(encoding, GedcomEncoding::Utf8);
    assert!(content.starts_with("0 HEAD"));
}

#[test]
fn test_decode_iso8859_1() {
    let bytes = b"0 HEAD\n1 CHAR ISO-8859-1\n1 NAME Jos\xE9\n0 TRLR\n";
    let (content, encoding) = decode_gedcom_bytes(bytes).unwrap();
    assert_eq!(encoding, GedcomEncoding::Iso8859_1);
    assert!(content.contains("José"));
}

#[test]
fn test_decode_iso8859_15() {
    let bytes = b"0 HEAD\n1 CHAR ISO-8859-15\n1 NOTE 10\xA4\n0 TRLR\n";
    let (content, encoding) = decode_gedcom_bytes(bytes).unwrap();
    assert_eq!(encoding, GedcomEncoding::Iso8859_15);
    assert!(content.contains("10€"));
}

#[test]
fn test_decode_utf16_le() {
    let content = "0 HEAD\n1 NAME Test\n0 TRLR\n";
    let mut bytes = vec![0xFF, 0xFE];
    for c in content.encode_utf16() {
        bytes.extend_from_slice(&c.to_le_bytes());
    }
    let (decoded, encoding) = decode_gedcom_bytes(&bytes).unwrap();
    assert_eq!(encoding, GedcomEncoding::Utf16Le);
    assert!(decoded.contains("HEAD"));
}

#[test]
fn test_decode_utf16_be() {
    let content = "0 HEAD\n1 NAME Test\n0 TRLR\n";
    let mut bytes = vec![0xFE, 0xFF];
    for c in content.encode_utf16() {
        bytes.extend_from_slice(&c.to_be_bytes());
    }
    let (decoded, encoding) = decode_gedcom_bytes(&bytes).unwrap();
    assert_eq!(encoding, GedcomEncoding::Utf16Be);
    assert!(decoded.contains("HEAD"));
}

#[test]
fn test_encode_to_utf8() {
    let content = "0 HEAD\n1 NAME José\n0 TRLR\n";
    let bytes = encode_to_bytes(content, GedcomEncoding::Utf8).unwrap();
    assert_eq!(bytes, content.as_bytes());
}

#[test]
fn test_encode_to_utf16_le() {
    let content = "Test";
    let bytes = encode_to_bytes(content, GedcomEncoding::Utf16Le).unwrap();
    assert_eq!(bytes[0], 0xFF);
    assert_eq!(bytes[1], 0xFE);
    assert_eq!(bytes[2], 0x54);
    assert_eq!(bytes[3], 0x00);
}

#[test]
fn test_encode_to_utf16_be() {
    let content = "Test";
    let bytes = encode_to_bytes(content, GedcomEncoding::Utf16Be).unwrap();
    assert_eq!(bytes[0], 0xFE);
    assert_eq!(bytes[1], 0xFF);
    assert_eq!(bytes[2], 0x00);
    assert_eq!(bytes[3], 0x54);
}

#[test]
fn test_roundtrip_utf16_le() {
    let original = "0 HEAD\n1 NAME José García\n0 TRLR\n";
    let encoded = encode_to_bytes(original, GedcomEncoding::Utf16Le).unwrap();
    let (decoded, _) = decode_gedcom_bytes(&encoded).unwrap();
    assert_eq!(decoded, original);
}

#[test]
fn test_roundtrip_utf16_be() {
    let original = "0 HEAD\n1 NAME José García\n0 TRLR\n";
    let encoded = encode_to_bytes(original, GedcomEncoding::Utf16Be).unwrap();
    let (decoded, _) = decode_gedcom_bytes(&encoded).unwrap();
    assert_eq!(decoded, original);
}

#[test]
fn test_encoding_display() {
    assert_eq!(GedcomEncoding::Utf8.to_display_string(), "UTF-8");
    assert_eq!(GedcomEncoding::Utf16Le.to_display_string(), "UTF-16LE");
    assert_eq!(GedcomEncoding::Utf16Be.to_display_string(), "UTF-16BE");
    assert_eq!(GedcomEncoding::Iso8859_1.to_display_string(), "ISO-8859-1");
    assert_eq!(GedcomEncoding::Iso8859_15.to_display_string(), "ISO-8859-15");
    assert_eq!(GedcomEncoding::Ascii.to_display_string(), "ASCII");
    assert_eq!(GedcomEncoding::Ansel.to_display_string(), "ANSEL");
    assert_eq!(GedcomEncoding::Unknown.to_display_string(), "Unknown");
}

#[test]
fn test_ansel_decode_basic() {
    let bytes = b"0 HEAD\n1 NAME John Smith\n0 TRLR\n";
    let result = decode_ansel(bytes).unwrap();
    assert_eq!(result, "0 HEAD\n1 NAME John Smith\n0 TRLR\n");
}

#[test]
fn test_ansel_decode_special_chars() {
    let bytes = &[0xA1, 0xA2, 0xB5, 0xB2];
    let result = decode_ansel(bytes).unwrap();
    assert_eq!(result, "ŁØæø");
}

#[test]
fn test_ansel_decode_diacritics() {
    let bytes = &[0xE2, b'e'];
    let result = decode_ansel(bytes).unwrap();
    assert_eq!(result, "e\u{0301}");
}

#[test]
fn test_ansel_decode_jose() {
    let bytes = &[b'J', b'o', b's', 0xE2, b'e'];
    let result = decode_ansel(bytes).unwrap();
    assert_eq!(result, "Jose\u{0301}");
}

#[test]
fn test_ansel_decode_multiple_diacritics() {
    let bytes = &[0xE3, 0xE8, b'a'];
    let result = decode_ansel(bytes).unwrap();
    assert_eq!(result, "a\u{0302}\u{0308}");
}

#[test]
fn test_ansel_encode_basic() {
    let content = "John Smith";
    let bytes = encode_ansel(content).unwrap();
    assert_eq!(bytes, b"John Smith");
}

#[test]
fn test_ansel_encode_special_chars() {
    let content = "Łódź";
    let bytes = encode_ansel(content).unwrap();
    assert_eq!(bytes, &[0xA1, 0xE2, b'o', b'd', 0xE2, b'z']);
}

#[test]
fn test_ansel_encode_precomposed() {
    let content = "José García";
    let bytes = encode_ansel(content).unwrap();
    assert_eq!(bytes, &[b'J', b'o', b's', 0xE2, b'e', b' ', b'G', b'a', b'r', b'c', 0xE2, b'i', b'a']);
}

#[test]
fn test_ansel_roundtrip_special() {
    let original_bytes = &[0xA1, 0xB1, 0xA5, 0xB5];
    let decoded = decode_ansel(original_bytes).unwrap();
    assert_eq!(decoded, "ŁłÆæ");
    let encoded = encode_ansel(&decoded).unwrap();
    assert_eq!(encoded, original_bytes);
}

#[test]
fn test_ansel_with_char_tag() {
    let bytes = b"0 HEAD\n1 CHAR ANSEL\n0 TRLR\n";
    let encoding = detect_encoding(bytes);
    assert_eq!(encoding, GedcomEncoding::Ansel);
}

#[test]
fn test_decode_gedcom_ansel() {
    let mut bytes = b"0 HEAD\n1 CHAR ANSEL\n1 NAME Jos".to_vec();
    bytes.extend_from_slice(&[0xE2, b'e']);
    bytes.extend_from_slice(b"\n0 TRLR\n");
    let (content, encoding) = decode_gedcom_bytes(&bytes).unwrap();
    assert_eq!(encoding, GedcomEncoding::Ansel);
    assert!(content.contains("Jose\u{0301}"));
}

#[test]
fn test_parse_encoding_values() {
    assert_eq!(parse_encoding_value("UTF-8"), Some(GedcomEncoding::Utf8));
    assert_eq!(parse_encoding_value("utf-8"), Some(GedcomEncoding::Utf8));
    assert_eq!(parse_encoding_value("UTF8"), Some(GedcomEncoding::Utf8));
    assert_eq!(parse_encoding_value("ISO-8859-1"), Some(GedcomEncoding::Iso8859_1));
    assert_eq!(parse_encoding_value("LATIN1"), Some(GedcomEncoding::Iso8859_1));
    assert_eq!(parse_encoding_value("ISO-8859-15"), Some(GedcomEncoding::Iso8859_15));
    assert_eq!(parse_encoding_value("LATIN9"), Some(GedcomEncoding::Iso8859_15));
    assert_eq!(parse_encoding_value("UNICODE"), Some(GedcomEncoding::Utf16Le));
    assert_eq!(parse_encoding_value("ASCII"), Some(GedcomEncoding::Ascii));
    assert_eq!(parse_encoding_value("ANSEL"), Some(GedcomEncoding::Ansel));
    assert_eq!(parse_encoding_value("UNKNOWN"), None);
}

#[test]
fn ansel_plain_bytes_read_back_unchanged() {
    let bytes: Vec<u8> = vec![b'J', b'o', b's', 0xE2, b'e', b' ', 0xA5, 0xE8, 0xE3, b'a', 0xB1];
    let text = ged_io::encoding::decode_ansel(&bytes).unwrap();
    assert_eq!(ged_io::encoding::encode_ansel(&text).unwrap(), bytes);
}

#[test]
fn utf8_text_reads_back_unchanged() {
    let text = "0 HEAD\n1 NAME Zoë /Ångström/\n0 TRLR\n";
    let bytes = ged_io::encoding::encode_to_bytes(text, ged_io::GedcomEncoding::Utf8).unwrap();
    let (back, enc) =
        ged_io::encoding::decode_with_encoding(&bytes, ged_io::GedcomEncoding::Utf8).unwrap();
    assert_eq!(back, text);
    assert_eq!(enc, ged_io::GedcomEncoding::Utf8);
    let with_mark = "\u{FEFF}0 HEAD";
    let bytes = ged_io::encoding::encode_to_bytes(with_mark, ged_io::GedcomEncoding::Utf8).unwrap();
    let (back, _) =
        ged_io::encoding::decode_with_encoding(&bytes, ged_io::GedcomEncoding::Utf8).unwrap();
    assert_eq!(back, "0 HEAD");
}
