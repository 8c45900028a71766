use ged_io::GedcomError;

#[test]
fn test_parse_error_display() {
    let err = GedcomError::ParseError { line: 10, message: "Unexpected token".to_string() };
    assert_eq!(err.to_display_string(), "Parse error at line 10: Unexpected token");
}

#[test]
fn test_invalid_format_display() {
    let err = GedcomError::InvalidFormat("Missing header".to_string());
    assert_eq!(err.to_display_string(), "Invalid GEDCOM format: Missing header");
}

#[test]
fn test_encoding_error_display() {
    let err = GedcomError::EncodingError("Invalid UTF-8 sequence".to_string());
    assert_eq!(err.to_display_string(), "Encoding error: Invalid UTF-8 sequence");
}

#[test]
fn test_invalid_tag_display() {
    let err = GedcomError::InvalidTag { line: 15, tag: "BADTAG".to_string() };
    assert_eq!(err.to_display_string(), "Invalid tag at line 15: 'BADTAG'");
}

#[test]
fn test_unexpected_level_display() {
    let err = GedcomError::UnexpectedLevel { line: 20, expected: 1, found: 3 };
    assert_eq!(err.to_display_string(), "Unexpected level at line 20: expected 1, found 3");
}

#[test]
fn test_missing_required_value_display() {
    let err = GedcomError::MissingRequiredValue { line: 25, tag: "NAME".to_string() };
    assert_eq!(err.to_display_string(), "Missing required value for tag 'NAME' at line 25");
}

#[test]
fn test_invalid_value_format_display() {
    let err = GedcomError::InvalidValueFormat {
        line: 30,
        value: "not-a-date".to_string(),
        expected_format: "DD MMM YYYY".to_string(),
    };
    assert_eq!(
        err.to_display_string(),
        "Invalid value format at line 30: 'not-a-date' (expected DD MMM YYYY)"
    );
}

#[test]
fn test_file_size_limit_exceeded_display() {
    let err = GedcomError::FileSizeLimitExceeded { size: 10_000_000, max_size: 5_000_000 };
    assert_eq!(
        err.to_display_string(),
        "File size limit exceeded: 10000000 bytes (max: 5000000 bytes)"
    );
}

#[test]
fn test_io_error_display() {
    let err = GedcomError::IoError("File not found".to_string());
    assert_eq!(err.to_display_string(), "I/O error: File not found");
}

#[test]
fn test_error_trait_implementation() {
    let err = GedcomError::ParseError { line: 1, message: "test".to_string() };
    assert!(err.to_display_string().contains("Parse error"));
}

#[test]
fn test_io_error_conversion() {
    let io_err = std::io::Error::new(std::io::ErrorKind::NotFound, "file not found");
    let gedcom_err: GedcomError = io_err.into();
    match gedcom_err {
        GedcomError::IoError(msg) => assert!(msg.contains("not found")),
        _ => panic!("Expected IoError variant"),
    }
}
