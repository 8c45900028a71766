use ged_io::{GedcomBuilder, GedcomError, ParserConfig};

#[test]
fn test_builder_default() {
    let builder = GedcomBuilder::new();
    assert!(!builder.config().strict_mode);
    assert!(!builder.config().validate_references);
    assert!(!builder.config().ignore_unknown_tags);
    assert!(!builder.config().encoding_detection);
    assert!(!builder.config().date_validation);
    assert!(builder.config().max_file_size.is_none());
    assert!(builder.config().preserve_formatting);
}

#[test]
fn test_builder_fluent_api() {
    let builder = GedcomBuilder::new()
        .strict_mode(true)
        .validate_references(true)
        .ignore_unknown_tags(true)
        .encoding_detection(true)
        .date_validation(true)
        .max_file_size(1_000_000)
        .preserve_formatting(false);

    assert!(builder.config().strict_mode);
    assert!(builder.config().validate_references);
    assert!(builder.config().ignore_unknown_tags);
    assert!(builder.config().encoding_detection);
    assert!(builder.config().date_validation);
    assert_eq!(builder.config().max_file_size, Some(1_000_000));
    assert!(!builder.config().preserve_formatting);
}

#[test]
fn test_builder_build_minimal() {
    let sample = "0 HEAD\n1 GEDC\n2 VERS 5.5\n0 TRLR";
    let result = GedcomBuilder::new().build_from_str(sample);
    assert!(result.is_ok());
}

#[test]
fn test_builder_with_individuals() {
    let sample = "\
        0 HEAD\n\
        1 GEDC\n\
        2 VERS 5.5\n\
        0 @I1@ INDI\n\
        1 NAME John /Doe/\n\
        0 TRLR";

    let data = GedcomBuilder::new().build_from_str(sample).unwrap();

    assert_eq!(data.individuals.len(), 1);
}

#[test]
fn test_builder_validate_references_error() {
    let sample = "\
        0 HEAD\n\
        1 GEDC\n\
        2 VERS 5.5\n\
        0 @F1@ FAM\n\
        1 HUSB @I_NONEXISTENT@\n\
        0 TRLR";

    let result = GedcomBuilder::new()
        .validate_references(true)
        .build_from_str(sample);

    assert!(result.is_err());
}

#[test]
fn test_builder_validate_references_success() {
    let sample = "\
        0 HEAD\n\
        1 GEDC\n\
        2 VERS 5.5\n\
        0 @I1@ INDI\n\
        1 NAME John /Doe/\n\
        0 @F1@ FAM\n\
        1 HUSB @I1@\n\
        0 TRLR";

    let result = GedcomBuilder::new()
        .validate_references(true)
        .build_from_str(sample);

    assert!(result.is_ok());
}

#[test]
fn test_parser_config_clone() {
    let config = ParserConfig {
        strict_mode: true,
        validate_references: true,
        ignore_unknown_tags: true,
        encoding_detection: true,
        date_validation: true,
        max_file_size: Some(1000),
        preserve_formatting: false,
    };
    let cloned = config.clone();
    assert_eq!(config.strict_mode, cloned.strict_mode);
    assert_eq!(config.validate_references, cloned.validate_references);
    assert_eq!(config.date_validation, cloned.date_validation);
    assert_eq!(config.max_file_size, cloned.max_file_size);
    assert_eq!(config.preserve_formatting, cloned.preserve_formatting);
}

#[test]
fn test_builder_max_file_size_exceeded() {
    let large_content = "0 HEAD\n1 GEDC\n2 VERS 5.5\n".to_string()
        + &"0 @I1@ INDI\n1 NAME Test /Person/\n".repeat(100)
        + "0 TRLR";

    let result = GedcomBuilder::new()
        .max_file_size(100)
        .build_from_str(&large_content);

    match result {
        Err(GedcomError::FileSizeLimitExceeded { size, max_size }) => {
            assert!(size > 100);
            assert_eq!(max_size, 100);
        }
        _ => panic!("Expected FileSizeLimitExceeded error"),
    }
}

#[test]
fn test_builder_clone() {
    let builder = GedcomBuilder::new().strict_mode(true);
    let cloned = builder.clone();
    assert!(cloned.config().strict_mode);
}

#[test]
fn builder_size_limit_counts_bytes_exactly() {
    let content = "0 HEAD\n0 TRLR";
    assert_eq!(content.len(), 13);
    assert!(GedcomBuilder::new().max_file_size(13).build_from_str(content).is_ok());
    match GedcomBuilder::new().max_file_size(12).build_from_str(content) {
        Err(GedcomError::FileSizeLimitExceeded { size, max_size }) => {
            assert_eq!(size, 13);
            assert_eq!(max_size, 12);
        }
        _ => panic!("expected the size limit to be reported"),
    }
}

#[test]
fn builder_reports_dangling_child_reference() {
    let sample = "0 HEAD\n0 @I1@ INDI\n0 @F1@ FAM\n1 HUSB @I1@\n1 CHIL @I9@\n0 TRLR";
    let data = GedcomBuilder::new().build_from_str(sample).unwrap();
    assert!(GedcomBuilder::new().validate_references_internal(&data).is_err());
    let ok = "0 HEAD\n0 @I1@ INDI\n0 @I9@ INDI\n0 @F1@ FAM\n1 HUSB @I1@\n1 CHIL @I9@\n0 TRLR";
    let data = GedcomBuilder::new().build_from_str(ok).unwrap();
    assert!(GedcomBuilder::new().validate_references_internal(&data).is_ok());
}
