use bi_parser::bi_core::decimal::{parse_i64, parse_u64, parse_usize, push_decimal, push_decimal_signed};
use bi_parser::bi_core::error::BiError;
use bi_parser::bi_core::text::{ascii_text, text_of};
use bi_parser::bi_core::types::{BiField, FieldMarker};
use bi_parser::parser::error::BiParserError;
use bi_parser::parser::reader::{decode_field, BiReader};
use bi_parser::validator::error::BiValidationError;
use bi_parser::validator::utils::{validate_blob, validate_field_name, validate_integer, validate_marker};
use bi_parser::writer::writer::{encode_field, BiWriter};

fn read_all(bytes: &[u8], validate: bool) -> Vec<BiField> {
    let mut reader = BiReader::new(bytes.to_vec());
    let mut fields = Vec::new();
    while reader.remaining_len() > 0 {
        fields.push(reader.read_field(validate).unwrap());
    }
    fields
}

fn decimal(n: u128) -> Vec<u8> {
    let mut out = Vec::new();
    push_decimal(&mut out, n);
    out
}

fn decimal_signed(i: i64) -> Vec<u8> {
    let mut out = Vec::new();
    push_decimal_signed(&mut out, i);
    out
}

#[test]
fn marker_bytes_map_to_kinds() {
    assert_eq!(FieldMarker::from_byte(b'i'), Some(FieldMarker::Integer));
    assert_eq!(FieldMarker::from_byte(b's'), Some(FieldMarker::SignedInteger));
    assert_eq!(FieldMarker::from_byte(b'b'), Some(FieldMarker::Blob));
    assert_eq!(FieldMarker::from_byte(b'x'), None);
    assert_eq!(FieldMarker::from_byte(b':'), None);
    assert_eq!(FieldMarker::Integer.to_byte(), b'i');
    assert_eq!(FieldMarker::SignedInteger.to_byte(), b's');
    assert_eq!(FieldMarker::Blob.to_byte(), b'b');
}

#[test]
fn decimal_text_is_canonical() {
    assert_eq!(decimal(0), b"0");
    assert_eq!(decimal(7), b"7");
    assert_eq!(decimal(10), b"10");
    assert_eq!(decimal(42), b"42");
    assert_eq!(decimal(u64::MAX as u128), b"18446744073709551615");
    assert_eq!(decimal(u64::MAX as u128 + 1), b"18446744073709551616");
    assert_eq!(decimal_signed(0), b"0");
    assert_eq!(decimal_signed(-1), b"-1");
    assert_eq!(decimal_signed(i64::MAX), b"9223372036854775807");
    assert_eq!(decimal_signed(i64::MIN), b"-9223372036854775808");
}

#[test]
fn unsigned_text_parses_like_the_standard_library() {
    let cases: [&str; 16] = [
        "", "0", "00", "007", "42", "+42", "+", "-", "-0", "-1", "4 2", "42 ", " 42",
        "18446744073709551615", "18446744073709551616", "99999999999999999999999",
    ];
    for text in cases {
        assert_eq!(parse_u64(text.as_bytes()), text.parse::<u64>().ok(), "{:?}", text);
        assert_eq!(parse_usize(text.as_bytes()), text.parse::<usize>().ok(), "{:?}", text);
    }
    assert_eq!(parse_u64(b"18446744073709551615"), Some(u64::MAX));
    assert_eq!(parse_u64(b"18446744073709551616"), None);
    assert_eq!(parse_u64(b"+7"), Some(7));
    assert_eq!(parse_u64(&[0xff, 0x31]), None);
}

#[test]
fn signed_text_parses_like_the_standard_library() {
    let cases: [&str; 17] = [
        "", "0", "-0", "+0", "--1", "+-1", "-+1", "-", "+", "12a3", "-123", "+123",
        "9223372036854775807", "9223372036854775808", "-9223372036854775808",
        "-9223372036854775809", "000000000000000000000000000001",
    ];
    for text in cases {
        assert_eq!(parse_i64(text.as_bytes()), text.parse::<i64>().ok(), "{:?}", text);
    }
    assert_eq!(parse_i64(b"-9223372036854775808"), Some(i64::MIN));
    assert_eq!(parse_i64(b"9223372036854775807"), Some(i64::MAX));
    assert_eq!(parse_i64(b"-9223372036854775809"), None);
}

#[test]
fn text_of_decodes_utf8_and_refuses_the_rest() {
    assert_eq!(text_of(b"count").unwrap(), "count");
    assert_eq!(text_of("h\u{e9}llo \u{4e16}".as_bytes()).unwrap(), "h\u{e9}llo \u{4e16}");
    assert_eq!(text_of(b"").unwrap(), "");
    assert!(text_of(&[0xff, 0xff]).is_err());
    assert!(text_of(&[0xc3]).is_err());
    assert!(text_of(&[0xed, 0xa0, 0x80]).is_err());
    assert_eq!(ascii_text(b"12345"), "12345");
}

#[test]
fn marker_checks_come_in_order() {
    assert!(matches!(
        validate_marker([b'#', b'n', b'x'], true),
        Err(BiValidationError::InvalidMarkerSymbol('#'))
    ));
    assert!(matches!(
        validate_marker([b':', b'n', b'x'], true),
        Err(BiValidationError::InvalidMarkerFormat(_))
    ));
    assert!(matches!(
        validate_marker([b':', b'n', b' '], true),
        Err(BiValidationError::InvalidMarkerType('n'))
    ));
    assert!(validate_marker([b':', b'n', b' '], false).is_ok());
    assert!(validate_marker([b':', b's', b' '], true).is_ok());
    match validate_marker([b':', b'i', b'x'], false) {
        Err(BiValidationError::InvalidMarkerFormat(msg)) => {
            assert_eq!(msg, "expected single space after marker")
        }
        other => panic!("unexpected {:?}", other),
    }
}

#[test]
fn validator_messages_carry_context() {
    match validate_field_name(b"") {
        Err(BiValidationError::InvalidFieldName(msg)) => assert_eq!(msg, "empty field name"),
        other => panic!("unexpected {:?}", other),
    }
    assert!(matches!(
        validate_field_name(&[b'a', 0xff]),
        Err(BiValidationError::Utf8Error(_))
    ));
    match validate_integer(b"") {
        Err(BiValidationError::InvalidInteger(msg)) => assert_eq!(msg, "empty integer"),
        other => panic!("unexpected {:?}", other),
    }
    match validate_integer(b"12a3") {
        Err(BiValidationError::InvalidInteger(msg)) => assert_eq!(msg, "12a3"),
        other => panic!("unexpected {:?}", other),
    }
    assert!(matches!(
        validate_integer(&[0x31, 0xff]),
        Err(BiValidationError::InvalidInteger(_))
    ));
    assert!(validate_integer(b"000123").is_ok());
    assert!(validate_integer(b"18446744073709551616").is_err());
}

#[test]
fn blob_check_tells_length_from_terminator() {
    assert!(validate_blob(b"\n", 0).is_ok());
    assert!(validate_blob(b"hello\n", 5).is_ok());
    match validate_blob(b"hello\n", 3) {
        Err(BiValidationError::InvalidBlob(msg)) => {
            assert_eq!(msg, "actual size (6) doesn't match expected size (4)")
        }
        other => panic!("unexpected {:?}", other),
    }
    match validate_blob(b"hello!", 5) {
        Err(BiValidationError::InvalidBlob(msg)) => assert_eq!(msg, "missing trailing newline"),
        other => panic!("unexpected {:?}", other),
    }
    match validate_blob(b"", usize::MAX) {
        Err(BiValidationError::InvalidBlob(msg)) => assert_eq!(
            msg,
            format!("actual size (0) doesn't match expected size ({})", usize::MAX as u128 + 1)
        ),
        other => panic!("unexpected {:?}", other),
    }
}

#[test]
fn every_kind_of_field_round_trips() {
    let fields = vec![
        BiField::Integer { name: b"count".to_vec(), value: 0 },
        BiField::Integer { name: b"big".to_vec(), value: u64::MAX },
        BiField::SignedInteger { name: b"returncode".to_vec(), value: -1 },
        BiField::SignedInteger { name: b"low".to_vec(), value: i64::MIN },
        BiField::SignedInteger { name: b"high".to_vec(), value: i64::MAX },
        BiField::Blob { name: b"empty".to_vec(), data: vec![] },
        BiField::Blob { name: b"stdout".to_vec(), data: b"a b\n:i x 1\n\n".to_vec() },
        BiField::Blob { name: "n\u{e4}me".as_bytes().to_vec(), data: vec![0, 255, 10, 32] },
    ];
    for validate in [true, false] {
        let mut writer = BiWriter::new(Vec::new());
        for field in &fields {
            writer.write_field(field, validate).unwrap();
        }
        let bytes = writer.into_inner();
        assert_eq!(read_all(&bytes, true), fields);
        assert_eq!(read_all(&bytes, false), fields);
    }
}

#[test]
fn zero_length_blob_round_trips() {
    let field = BiField::Blob { name: b"empty".to_vec(), data: vec![] };
    assert_eq!(encode_field(&field, true).unwrap(), b":b empty 0\n\n");
    let (res, consumed) = decode_field(b":b empty 0\n\n", true);
    assert_eq!(res.unwrap(), field);
    assert_eq!(consumed, 12);
}

#[test]
fn signed_field_is_written_and_read() {
    let field = BiField::SignedInteger { name: b"returncode".to_vec(), value: -127 };
    assert_eq!(encode_field(&field, true).unwrap(), b":s returncode -127\n");
    let mut reader = BiReader::new(b":s returncode -127\n:s z +5\n".to_vec());
    assert_eq!(reader.read_field_default().unwrap(), field);
    assert_eq!(
        reader.read_field_default().unwrap(),
        BiField::SignedInteger { name: b"z".to_vec(), value: 5 }
    );
    assert_eq!(reader.remaining_len(), 0);
    let mut negative = BiReader::new(b":i n -1\n".to_vec());
    assert!(matches!(
        negative.read_field(false).unwrap_err(),
        BiError::ParseError(BiParserError::ValidationError(BiValidationError::InvalidInteger(_)))
    ));
}

#[test]
fn reader_stops_behind_each_field() {
    let mut reader = BiReader::new(b":i a 1\n:b b 2\nxy\n:s c -3\ntail".to_vec());
    assert_eq!(reader.remaining_len(), 29);
    reader.read_field_default().unwrap();
    assert_eq!(reader.remaining_len(), 22);
    reader.read_field_default().unwrap();
    assert_eq!(reader.remaining_len(), 12);
    reader.read_field_default().unwrap();
    assert_eq!(reader.remaining_len(), 4);
    assert!(matches!(
        reader.read_field_default().unwrap_err(),
        BiError::ParseError(BiParserError::ValidationError(
            BiValidationError::InvalidMarkerSymbol('t')
        ))
    ));
    assert_eq!(reader.remaining_len(), 1);
    assert!(matches!(
        reader.read_field_default().unwrap_err(),
        BiError::ParseError(BiParserError::UnexpectedEof(_))
    ));
    assert_eq!(reader.remaining_len(), 0);
}

#[test]
fn wrong_symbol_fails_whatever_follows() {
    for tail in ["i count 42\n", "x\n", "  ", "b data 5\nhello\n"] {
        let text = format!("#{}", tail);
        let (res, consumed) = decode_field(text.as_bytes(), true);
        assert!(matches!(
            res.unwrap_err(),
            BiParserError::ValidationError(BiValidationError::InvalidMarkerSymbol('#'))
        ));
        assert_eq!(consumed, 3);
    }
}

#[test]
fn unknown_type_fails_with_and_without_validation() {
    for validate in [true, false] {
        let (res, consumed) = decode_field(b":x name 1\n", validate);
        assert!(matches!(
            res.unwrap_err(),
            BiParserError::ValidationError(BiValidationError::InvalidMarkerType('x'))
        ));
        assert_eq!(consumed, 3);
    }
}

#[test]
fn without_validation_only_structure_is_checked() {
    let (res, consumed) = decode_field(b"#i;count 42\n", false);
    assert_eq!(res.unwrap(), BiField::Integer { name: b"count".to_vec(), value: 42 });
    assert_eq!(consumed, 12);
    let (res, consumed) = decode_field(b"#i  42\n", false);
    assert_eq!(res.unwrap(), BiField::Integer { name: vec![], value: 42 });
    assert_eq!(consumed, 7);
    let (res, _) = decode_field(b":b data 3\nhello\n", false);
    assert_eq!(res.unwrap(), BiField::Blob { name: b"data".to_vec(), data: b"hel".to_vec() });
    let (res, _) = decode_field(&[b':', b'i', b' ', b'n', b' ', 0xff, b'\n'], false);
    assert!(matches!(
        res.unwrap_err(),
        BiParserError::ValidationError(BiValidationError::Utf8Error(_))
    ));
    let (res, _) = decode_field(&[b':', b'i', b' ', b'n', b' ', 0xff, b'\n'], true);
    assert!(matches!(
        res.unwrap_err(),
        BiParserError::ValidationError(BiValidationError::InvalidInteger(_))
    ));
}

#[test]
fn truncation_inside_a_field_is_a_read_error() {
    let whole: [&[u8]; 3] = [b":i count 42\n", b":s code -7\n", b":b data 5\nhello\n"];
    for bytes in whole {
        for validate in [true, false] {
            for k in 0..bytes.len() {
                let (res, consumed) = decode_field(&bytes[..k], validate);
                assert_eq!(consumed, k);
                if k < 3 {
                    assert!(matches!(res.unwrap_err(), BiParserError::UnexpectedEof(_)));
                } else {
                    assert!(matches!(res.unwrap_err(), BiParserError::ReadError(_)));
                }
            }
            assert!(decode_field(bytes, validate).0.is_ok());
        }
    }
}

#[test]
fn writer_commits_whole_fields_only() {
    let mut writer = BiWriter::new(b"head".to_vec());
    let bad = BiField::Blob { name: vec![], data: b"x".to_vec() };
    assert!(writer.write_field(&bad, true).is_err());
    assert_eq!(writer.as_bytes(), b"head");
    writer.write_field(&bad, false).unwrap();
    assert_eq!(writer.as_bytes(), b"head:b  1\nx\n");
    match encode_field(&bad, true) {
        Err(bi_parser::writer::error::BiWriterError::ValidationError(
            BiValidationError::InvalidFieldName(_),
        )) => {}
        other => panic!("unexpected {:?}", other),
    }
}
