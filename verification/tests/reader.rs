use bi_parser::bi_core::error::BiError;
use bi_parser::bi_core::types::BiField;
use bi_parser::parser::error::BiParserError;
use bi_parser::parser::reader::BiReader;
use bi_parser::validator::error::BiValidationError;

fn create_reader(content: &str) -> BiReader {
    BiReader::new(content.as_bytes().to_vec())
}

#[test]
fn test_read_integer_field() {
    let mut reader = create_reader(":i count 42\n");
    let field = reader.read_field_default().unwrap();

    match field {
        BiField::Integer { name, value } => {
            assert_eq!(name, b"count");
            assert_eq!(value, 42);
        }
        _ => panic!("Expected integer field"),
    }
}

#[test]
fn test_read_blob_field() {
    let mut reader = create_reader(":b data 5\nhello\n");
    let field = reader.read_field_default().unwrap();

    match field {
        BiField::Blob { name, data } => {
            assert_eq!(name, b"data");
            assert_eq!(data, b"hello");
        }
        _ => panic!("Expected blob field"),
    }
}

#[test]
fn test_invalid_marker() {
    let mut reader = create_reader("#i count 42\n");
    assert!(matches!(
        reader.read_field_default().unwrap_err(),
        BiError::ParseError(BiParserError::ValidationError(
            BiValidationError::InvalidMarkerSymbol('#')
        ))
    ));
}

#[test]
fn test_invalid_marker_type() {
    let mut reader = create_reader(":x count 42\n");
    assert!(matches!(
        reader.read_field_default().unwrap_err(),
        BiError::ParseError(BiParserError::ValidationError(
            BiValidationError::InvalidMarkerType('x')
        ))
    ));
}

#[test]
fn test_invalid_integer_value() {
    let mut reader = create_reader(":i count abc\n");
    assert!(matches!(
        reader.read_field_default().unwrap_err(),
        BiError::ParseError(BiParserError::ValidationError(
            BiValidationError::InvalidInteger(_)
        ))
    ));
}

#[test]
fn test_blob_wrong_size() {
    let mut reader = create_reader(":b data 3\nhello\n");
    assert!(matches!(
        reader.read_field_default().unwrap_err(),
        BiError::ParseError(BiParserError::ValidationError(
            BiValidationError::InvalidBlob(_)
        ))
    ));

    let mut reader2 = create_reader(":b data 10\nhello\n");
    assert!(matches!(
        reader2.read_field_default().unwrap_err(),
        BiError::ParseError(BiParserError::ReadError(_))
    ));
}

#[test]
fn test_blob_missing_newline() {
    let mut reader = create_reader(":b data 5\nhello");
    assert!(matches!(
        reader.read_field_default().unwrap_err(),
        BiError::ParseError(BiParserError::ReadError(_))
    ));
}

#[test]
fn test_unexpected_eof() {
    let mut reader = create_reader(":b");
    assert!(matches!(
        reader.read_field_default().unwrap_err(),
        BiError::ParseError(BiParserError::UnexpectedEof(_))
    ));
}

#[test]
fn test_no_validation() {
    // Text that is no number fails without validation too.
    let mut reader = create_reader(":i count abc\n");
    assert!(reader.read_field(false).is_err());
}

#[test]
fn test_empty_field_name() {
    let mut reader = create_reader(":i  42\n");
    assert!(matches!(
        reader.read_field_default().unwrap_err(),
        BiError::ParseError(BiParserError::ValidationError(
            BiValidationError::InvalidFieldName(_)
        ))
    ));
}
