use std::io::Write;

use ged_io::gedzip::{read_gedzip, GedzipError, GedzipReader, GEDCOM_FILENAME};

fn zip_entries(entries: &[(&str, &[u8])]) -> Vec<u8> {
    let cursor = std::io::Cursor::new(Vec::new());
    let mut zip = zip::ZipWriter::new(cursor);
    let options = zip::write::SimpleFileOptions::default();
    for (name, bytes) in entries {
        zip.start_file(*name, options).unwrap();
        zip.write_all(bytes).unwrap();
    }
    zip.finish().unwrap().into_inner()
}

const MINIMAL: &[u8] = b"0 HEAD\n1 GEDC\n2 VERS 7.0\n0 TRLR";

#[test]
fn test_write_and_read_minimal_gedzip() {
    let bytes = zip_entries(&[(GEDCOM_FILENAME, MINIMAL)]);
    let parsed = read_gedzip(&bytes).expect("Failed to read GEDZIP");
    assert!(parsed.is_gedcom_7());
}

#[test]
fn test_gedzip_with_media_files() {
    let bytes = zip_entries(&[
        (GEDCOM_FILENAME, MINIMAL),
        ("test.txt", b"Hello, World!"),
        ("photos/image.jpg", &[0xFF, 0xD8, 0xFF, 0xE0]),
    ]);
    let mut reader = GedzipReader::new(bytes).expect("Failed to create reader");

    assert!(reader.contains_file(GEDCOM_FILENAME));
    assert!(reader.contains_file("test.txt"));
    assert!(reader.contains_file("photos/image.jpg"));

    let media_files = reader.media_files();
    assert_eq!(media_files.len(), 2);

    let txt_content = reader
        .read_media_file("test.txt")
        .expect("Failed to read test.txt");
    assert_eq!(txt_content, b"Hello, World!");
}

#[test]
fn test_missing_gedcom_file() {
    let bytes = zip_entries(&[("other.txt", b"test")]);
    let result = GedzipReader::new(bytes);
    assert!(matches!(result, Err(GedzipError::MissingGedcomFile)));
}

#[test]
fn test_reader_len_and_is_empty() {
    let bytes = zip_entries(&[(GEDCOM_FILENAME, MINIMAL)]);
    let reader = GedzipReader::new(bytes).expect("Failed to create reader");
    assert_eq!(reader.len(), 1);
    assert!(reader.is_empty());

    let bytes = zip_entries(&[(GEDCOM_FILENAME, MINIMAL), ("test.txt", b"test")]);
    let reader = GedzipReader::new(bytes).expect("Failed to create reader");
    assert_eq!(reader.len(), 2);
    assert!(!reader.is_empty());
}

#[test]
fn test_gedzip_roundtrip_with_individuals() {
    let source = "0 HEAD
1 GEDC
2 VERS 7.0
0 @I1@ INDI
1 NAME John /Doe/
1 SEX M
0 @I2@ INDI
1 NAME Jane /Doe/
1 SEX F
0 @F1@ FAM
1 HUSB @I1@
1 WIFE @I2@
0 TRLR";
    let bytes = zip_entries(&[(GEDCOM_FILENAME, source.as_bytes())]);
    let parsed = read_gedzip(&bytes).expect("Failed to read");
    assert_eq!(parsed.individuals.len(), 2);
    assert_eq!(parsed.families.len(), 1);
}

#[test]
fn test_read_missing_media_file() {
    let bytes = zip_entries(&[(GEDCOM_FILENAME, MINIMAL)]);
    let mut reader = GedzipReader::new(bytes).expect("Failed to create reader");
    let result = reader.read_media_file("nonexistent.jpg");
    assert!(matches!(result, Err(GedzipError::MissingMediaFile(_))));
}

#[test]
fn gedzip_entry_bytes_and_names_read_back() {
    let bytes = zip_entries(&[("a.txt", b"x"), (GEDCOM_FILENAME, MINIMAL), ("b.bin", &[1, 2, 3])]);
    let mut reader = GedzipReader::new(bytes).expect("reader");
    assert_eq!(reader.read_gedcom_bytes().unwrap(), MINIMAL.to_vec());
    assert_eq!(reader.media_files(), vec!["a.txt", "b.bin"]);
    assert_eq!(reader.file_names().len(), 3);
    assert!(!reader.contains_file("c.txt"));
}

#[test]
fn gedzip_garbage_is_a_zip_error() {
    assert!(matches!(GedzipReader::new(vec![1, 2, 3, 4]), Err(GedzipError::ZipError(_))));
}
