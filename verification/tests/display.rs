use ged_io::types::individual::name::Name;
use ged_io::types::note::Note;
use ged_io::{DisplayText, Gedcom, ImprovedDebug};

#[test]
fn test_gedcom_data_improved_debug() {
    let sample = "\
        0 HEAD\n\
        1 GEDC\n\
        2 VERS 5.5\n\
        0 @I1@ INDI\n\
        1 NAME John /Doe/\n\
        0 @I2@ INDI\n\
        1 NAME Jane /Doe/\n\
        0 @F1@ FAM\n\
        1 HUSB @I1@\n\
        1 WIFE @I2@\n\
        0 TRLR";

    let mut gedcom = Gedcom::new(sample.chars()).unwrap();
    let data = gedcom.parse_data().unwrap();

    let debug_output = format!("{:?}", data.debug());
    assert!(debug_output.contains("GedcomData"));
    assert!(debug_output.contains("[2 records]"));
    assert!(debug_output.contains("[1 records]"));
}

#[test]
fn test_individual_improved_debug() {
    let sample = "\
        0 HEAD\n\
        1 GEDC\n\
        2 VERS 5.5\n\
        0 @I1@ INDI\n\
        1 NAME John /Doe/\n\
        1 SEX M\n\
        1 BIRT\n\
        2 DATE 1 JAN 1900\n\
        0 TRLR";

    let mut gedcom = Gedcom::new(sample.chars()).unwrap();
    let data = gedcom.parse_data().unwrap();

    let debug_output = format!("{:?}", data.individuals[0].debug());
    assert!(debug_output.contains("Individual"));
    assert!(debug_output.contains("@I1@"));
    assert!(debug_output.contains("John /Doe/"));
    assert!(debug_output.contains("Male"));
    assert!(debug_output.contains("[1 events]"));
}

#[test]
fn test_family_improved_debug() {
    let sample = "\
        0 HEAD\n\
        1 GEDC\n\
        2 VERS 5.5\n\
        0 @F1@ FAM\n\
        1 HUSB @I1@\n\
        1 WIFE @I2@\n\
        1 CHIL @I3@\n\
        1 CHIL @I4@\n\
        0 TRLR";

    let mut gedcom = Gedcom::new(sample.chars()).unwrap();
    let data = gedcom.parse_data().unwrap();

    let debug_output = format!("{:?}", data.families[0].debug());
    assert!(debug_output.contains("Family"));
    assert!(debug_output.contains("@F1@"));
    assert!(debug_output.contains("@I1@"));
    assert!(debug_output.contains("@I2@"));
    assert!(debug_output.contains("[2 children]"));
}

#[test]
fn test_source_improved_debug() {
    let sample = "\
        0 HEAD\n\
        1 GEDC\n\
        2 VERS 5.5\n\
        0 @S1@ SOUR\n\
        1 TITL Census Records\n\
        1 AUTH Government\n\
        0 TRLR";

    let mut gedcom = Gedcom::new(sample.chars()).unwrap();
    let data = gedcom.parse_data().unwrap();

    let debug_output = format!("{:?}", data.sources[0].debug());
    assert!(debug_output.contains("Source"));
    assert!(debug_output.contains("@S1@"));
    assert!(debug_output.contains("Census Records"));
    assert!(debug_output.contains("Government"));
}

#[test]
fn test_header_improved_debug() {
    let sample = "\
        0 HEAD\n\
        1 GEDC\n\
        2 VERS 5.5\n\
        1 SOUR TestApp\n\
        2 NAME Test Application\n\
        1 CHAR UTF-8\n\
        0 TRLR";

    let mut gedcom = Gedcom::new(sample.chars()).unwrap();
    let data = gedcom.parse_data().unwrap();

    let header = data.header.as_ref().unwrap();
    let debug_output = format!("{:?}", header.debug());
    assert!(debug_output.contains("Header"));
    assert!(debug_output.contains("5.5"));
    assert!(debug_output.contains("UTF-8"));
}

#[test]
fn test_note_truncation_in_debug() {
    let long_content = "A".repeat(100);
    let note = Note {
        value: Some(long_content),
        mime: None,
        translation: None,
        citation: None,
        language: None,
    };

    let debug_output = format!("{:?}", note.debug());
    assert!(debug_output.contains("..."));
    assert!(!debug_output.contains(&"A".repeat(100)));
}

#[test]
fn test_name_improved_debug() {
    let name = Name {
        value: Some("John /Doe/".to_string()),
        given: Some("John".to_string()),
        surname: Some("Doe".to_string()),
        prefix: None,
        surname_prefix: None,
        note: None,
        suffix: Some("Jr.".to_string()),
        source: Vec::new(),
        ..Name::default()
    };

    let debug_output = format!("{:?}", name.debug());
    assert!(debug_output.contains("Name"));
    assert!(debug_output.contains("John /Doe/"));
    assert!(debug_output.contains("given"));
    assert!(debug_output.contains("surname"));
    assert!(debug_output.contains("Jr."));
}

#[test]
fn test_gedcom_data_display() {
    let sample = "\
        0 HEAD\n\
        1 GEDC\n\
        2 VERS 5.5\n\
        0 @I1@ INDI\n\
        1 NAME John /Doe/\n\
        1 SEX M\n\
        0 TRLR";

    let mut gedcom = Gedcom::new(sample.chars()).unwrap();
    let data = gedcom.parse_data().unwrap();

    let display = data.to_display_string();
    assert!(display.contains("GEDCOM Data"));
    assert!(display.contains("Individuals (1)"));
    assert!(display.contains("John Doe"));
}

#[test]
fn test_individual_display() {
    let sample = "\
        0 HEAD\n\
        1 GEDC\n\
        2 VERS 5.5\n\
        0 @I1@ INDI\n\
        1 NAME Jane /Smith/\n\
        1 SEX F\n\
        1 BIRT\n\
        2 DATE 15 MAR 1985\n\
        0 TRLR";

    let mut gedcom = Gedcom::new(sample.chars()).unwrap();
    let data = gedcom.parse_data().unwrap();

    let display = data.individuals[0].to_display_string();
    assert!(display.contains("@I1@"));
    assert!(display.contains("Jane Smith"));
    assert!(display.contains("Female"));
    assert!(display.contains("b. 15 MAR 1985"));
}

#[test]
fn test_family_display() {
    let sample = "\
        0 HEAD\n\
        1 GEDC\n\
        2 VERS 5.5\n\
        0 @F1@ FAM\n\
        1 HUSB @I1@\n\
        1 WIFE @I2@\n\
        1 CHIL @I3@\n\
        1 MARR\n\
        2 DATE 1 JUN 2000\n\
        0 TRLR";

    let mut gedcom = Gedcom::new(sample.chars()).unwrap();
    let data = gedcom.parse_data().unwrap();

    let display = data.families[0].to_display_string();
    assert!(display.contains("@F1@"));
    assert!(display.contains("@I1@"));
    assert!(display.contains("@I2@"));
    assert!(display.contains("1 child(ren)"));
    assert!(display.contains("m. 1 JUN 2000"));
}

#[test]
fn test_name_display() {
    let sample = "\
        0 HEAD\n\
        1 GEDC\n\
        2 VERS 5.5\n\
        0 @I1@ INDI\n\
        1 NAME Robert /Johnson/ Jr.\n\
        0 TRLR";

    let mut gedcom = Gedcom::new(sample.chars()).unwrap();
    let data = gedcom.parse_data().unwrap();

    let name = data.individuals[0].name.as_ref().unwrap();
    let display = name.to_display_string();
    assert!(display.contains("Robert"));
    assert!(display.contains("Johnson"));
    assert!(!display.contains('/'));
}

#[test]
fn test_source_display() {
    let sample = "\
        0 HEAD\n\
        1 GEDC\n\
        2 VERS 5.5\n\
        0 @S1@ SOUR\n\
        1 TITL Census Records 1900\n\
        1 AUTH Government\n\
        0 TRLR";

    let mut gedcom = Gedcom::new(sample.chars()).unwrap();
    let data = gedcom.parse_data().unwrap();

    let display = data.sources[0].to_display_string();
    assert!(display.contains("@S1@"));
    assert!(display.contains("Census Records 1900"));
    assert!(display.contains("by Government"));
}

#[test]
fn test_header_display() {
    let sample = "\
        0 HEAD\n\
        1 GEDC\n\
        2 VERS 5.5\n\
        1 SOUR MyApp\n\
        2 NAME My Application\n\
        1 CHAR UTF-8\n\
        0 TRLR";

    let mut gedcom = Gedcom::new(sample.chars()).unwrap();
    let data = gedcom.parse_data().unwrap();

    let header = data.header.as_ref().unwrap();
    let display = header.to_display_string();
    assert!(display.contains("Header"));
    assert!(display.contains("GEDCOM 5.5"));
}

#[test]
fn test_note_display_truncation() {
    let long_note = "A".repeat(200);
    let note = Note {
        value: Some(long_note),
        mime: None,
        translation: None,
        citation: None,
        language: None,
    };

    let display = note.to_display_string();
    assert!(display.ends_with("..."));
    assert!(display.len() < 110);
}

#[test]
fn display_exact_texts() {
    let sample = "0 HEAD\n1 GEDC\n2 VERS 5.5\n1 SOUR App\n2 NAME The App\n1 CHAR UTF-8\n\
        0 @I1@ INDI\n1 NAME Jane /Smith/\n1 SEX F\n1 BIRT\n2 DATE 1 JAN 1900\n1 DEAT\n2 DATE 2 FEB 1980\n\
        0 @F1@ FAM\n1 HUSB @I1@\n1 CHIL @I2@\n1 CHIL @I3@\n1 MARR\n2 DATE 3 MAR 1920\n\
        0 @R1@ REPO\n1 NAME Archive\n1 ADDR Main St\n2 CITY Springfield\n\
        0 @S1@ SOUR\n1 ABBR Census\n\
        0 TRLR";
    let data = Gedcom::new(sample.chars()).unwrap().parse_data().unwrap();
    assert_eq!(
        data.header.as_ref().unwrap().to_display_string(),
        "Header (GEDCOM 5.5) - Source: The App [UTF-8]"
    );
    assert_eq!(
        data.individuals[0].to_display_string(),
        "@I1@ Jane Smith (Female), b. 1 JAN 1900, d. 2 FEB 1980"
    );
    assert_eq!(
        data.families[0].to_display_string(),
        "@F1@ Partner 1: @I1@ [2 child(ren)], m. 3 MAR 1920"
    );
    assert_eq!(data.repositories[0].to_display_string(), "@R1@ Archive, Springfield");
    assert_eq!(data.sources[0].to_display_string(), "@S1@ Census");
    let all = data.to_display_string();
    assert!(all.starts_with("GEDCOM Data\n============\nHeader (GEDCOM 5.5)"));
    assert!(all.contains("\nIndividuals (1):\n  @I1@ Jane Smith"));
    assert!(all.contains("\nRepositories (1):\n  @R1@ Archive, Springfield\n"));
}

#[test]
fn display_of_name_from_parts_and_empty_note() {
    let name = Name {
        value: None,
        prefix: Some("Dr.".to_string()),
        given: Some("Ann".to_string()),
        surname: Some("Lee".to_string()),
        ..Name::default()
    };
    assert_eq!(name.to_display_string(), "Dr. Ann Lee");
    assert_eq!(Name::default().to_display_string(), "(Unknown)");
    let note = Note { value: None, mime: None, translation: None, citation: None, language: None };
    assert_eq!(note.to_display_string(), "(Empty Note)");
    let short = Note { value: Some("Short".to_string()), ..note.clone() };
    assert_eq!(short.to_display_string(), "Short");
}

#[test]
fn debug_listing_exact_form() {
    let note = Note {
        value: Some("A".repeat(60)),
        mime: Some("text/plain".to_string()),
        translation: None,
        citation: None,
        language: None,
    };
    assert_eq!(
        note.debug(),
        format!("Note {{ value: \"{}...\", mime: \"text/plain\", .. }}", "A".repeat(50))
    );
    let empty = Note { value: None, mime: None, translation: None, citation: None, language: None };
    assert_eq!(empty.debug(), "Note { .. }");
    let data = Gedcom::new("0 HEAD\n0 TRLR".chars()).unwrap().parse_data().unwrap();
    assert_eq!(data.debug(), "GedcomData { header: \"Some(...)\" }");
}
