use ged_io::types::gedcom7::{NonEvent, Phrase, SortDate};
use ged_io::types::header::schema::{Schema, TagDefinition};
use ged_io::types::individual::name::{NameType, NameVariation};
use ged_io::types::lds::{LdsOrdinanceStatus, LdsOrdinanceType};
use ged_io::types::place::{MapCoordinates, PlaceVariation};
use ged_io::types::repository::Repository;
use ged_io::types::shared_note::{remove_html_tags, ExternalId, NoteTranslation};

#[test]
fn test_sort_date_with_value() {
    let sort_date = SortDate::with_value("1818");
    assert_eq!(sort_date.value, Some("1818".to_string()));
    assert!(sort_date.time.is_none());
    assert!(sort_date.phrase.is_none());
}

#[test]
fn test_non_event_for_event() {
    let non_event = NonEvent::for_event("MARR");
    assert_eq!(non_event.event_type, "MARR");
    assert_eq!(non_event.event_description(), "Marriage");
}

#[test]
fn test_non_event_description() {
    assert_eq!(NonEvent::for_event("MARR").event_description(), "Marriage");
    assert_eq!(NonEvent::for_event("CHR").event_description(), "Christening");
    assert_eq!(NonEvent::for_event("BAPM").event_description(), "Baptism");
    assert_eq!(NonEvent::for_event("BURI").event_description(), "Burial");
    assert_eq!(NonEvent::for_event("CUSTOM").event_description(), "CUSTOM");
}

#[test]
fn test_phrase_with_value() {
    let phrase = Phrase::with_value("The Ides of March");
    assert_eq!(phrase.value, "The Ides of March");
}

#[test]
fn test_tag_definition_new() {
    let def = TagDefinition::new("_SKYPEID", "http://xmlns.com/foaf/0.1/skypeID");
    assert_eq!(def.tag, "_SKYPEID");
    assert_eq!(def.uri, "http://xmlns.com/foaf/0.1/skypeID");
}

#[test]
fn test_tag_definition_from_payload() {
    let def = TagDefinition::from_payload("_SKYPEID http://xmlns.com/foaf/0.1/skypeID");
    assert!(def.is_some());
    let def = def.unwrap();
    assert_eq!(def.tag, "_SKYPEID");
    assert_eq!(def.uri, "http://xmlns.com/foaf/0.1/skypeID");
}

#[test]
fn test_tag_definition_from_payload_with_spaces_in_uri() {
    let def = TagDefinition::from_payload("_TAG http://example.com/path with spaces");
    assert!(def.is_some());
    let def = def.unwrap();
    assert_eq!(def.tag, "_TAG");
    assert_eq!(def.uri, "http://example.com/path with spaces");
}

#[test]
fn test_tag_definition_from_payload_invalid() {
    assert!(TagDefinition::from_payload("").is_none());
    assert!(TagDefinition::from_payload("_TAG").is_none());
    assert!(TagDefinition::from_payload(" ").is_none());
}

#[test]
fn test_tag_definition_to_payload() {
    let def = TagDefinition::new("_SKYPEID", "http://xmlns.com/foaf/0.1/skypeID");
    assert_eq!(def.to_payload(), "_SKYPEID http://xmlns.com/foaf/0.1/skypeID");
}

#[test]
fn test_tag_definition_is_valid_extension_tag() {
    assert!(TagDefinition::new("_VALID", "http://example.com").is_valid_extension_tag());
    assert!(TagDefinition::new("_A", "http://example.com").is_valid_extension_tag());
    assert!(!TagDefinition::new("INVALID", "http://example.com").is_valid_extension_tag());
    assert!(!TagDefinition::new("_", "http://example.com").is_valid_extension_tag());
    assert!(!TagDefinition::new("", "http://example.com").is_valid_extension_tag());
}

#[test]
fn test_schema_find_uri() {
    let mut schema = Schema::default();
    schema.add_definition(TagDefinition::new("_TAG1", "http://example.com/tag1"));
    schema.add_definition(TagDefinition::new("_TAG2", "http://example.com/tag2"));
    assert_eq!(schema.find_uri("_TAG1"), Some("http://example.com/tag1"));
    assert_eq!(schema.find_uri("_TAG2"), Some("http://example.com/tag2"));
    assert_eq!(schema.find_uri("_NOTFOUND"), None);
}

#[test]
fn test_schema_find_tags_by_uri() {
    let mut schema = Schema::default();
    schema.add_definition(TagDefinition::new("_TAG1", "http://example.com/shared"));
    schema.add_definition(TagDefinition::new("_TAG2", "http://example.com/shared"));
    schema.add_definition(TagDefinition::new("_TAG3", "http://example.com/other"));
    let tags = schema.find_tags_by_uri("http://example.com/shared");
    assert_eq!(tags.len(), 2);
    assert!(tags.contains(&"_TAG1"));
    assert!(tags.contains(&"_TAG2"));
    let tags = schema.find_tags_by_uri("http://example.com/notfound");
    assert!(tags.is_empty());
}

#[test]
fn test_schema_is_empty_and_len() {
    let mut schema = Schema::default();
    assert!(schema.is_empty());
    assert_eq!(schema.len(), 0);
    schema.add_definition(TagDefinition::new("_TAG", "http://example.com"));
    assert!(!schema.is_empty());
    assert_eq!(schema.len(), 1);
}

#[test]
fn test_name_type_parse() {
    assert_eq!(NameType::parse("BIRTH"), NameType::Aka);
    assert_eq!(NameType::parse("MARRIED"), NameType::Married);
    assert_eq!(NameType::parse("MAIDEN"), NameType::Maiden);
    assert_eq!(NameType::parse("custom"), NameType::Other("custom".to_string()));
}

#[test]
fn test_name_type_as_str() {
    assert_eq!(NameType::Birth.as_str(), "BIRTH");
    assert_eq!(NameType::Married.as_str(), "MARRIED");
    assert_eq!(NameType::Other("custom".to_string()).as_str(), "custom");
}

#[test]
fn test_name_variation_with_type() {
    let variation = NameVariation::with_type("Tanaka /Hanako/", "romaji");
    assert_eq!(variation.value, "Tanaka /Hanako/");
    assert_eq!(variation.variation_type, Some("romaji".to_string()));
}

#[test]
fn test_ordinance_type_from_tag() {
    assert_eq!(LdsOrdinanceType::from_tag("BAPL"), Some(LdsOrdinanceType::Baptism));
    assert_eq!(LdsOrdinanceType::from_tag("CONL"), Some(LdsOrdinanceType::Confirmation));
    assert_eq!(LdsOrdinanceType::from_tag("INIL"), Some(LdsOrdinanceType::Initiatory));
    assert_eq!(LdsOrdinanceType::from_tag("ENDL"), Some(LdsOrdinanceType::Endowment));
    assert_eq!(LdsOrdinanceType::from_tag("SLGC"), Some(LdsOrdinanceType::SealingChild));
    assert_eq!(LdsOrdinanceType::from_tag("SLGS"), Some(LdsOrdinanceType::SealingSpouse));
    assert_eq!(LdsOrdinanceType::from_tag("INVALID"), None);
}

#[test]
fn test_ordinance_type_to_tag() {
    assert_eq!(LdsOrdinanceType::Baptism.to_tag(), "BAPL");
    assert_eq!(LdsOrdinanceType::Confirmation.to_tag(), "CONL");
    assert_eq!(LdsOrdinanceType::Initiatory.to_tag(), "INIL");
    assert_eq!(LdsOrdinanceType::Endowment.to_tag(), "ENDL");
    assert_eq!(LdsOrdinanceType::SealingChild.to_tag(), "SLGC");
    assert_eq!(LdsOrdinanceType::SealingSpouse.to_tag(), "SLGS");
}

#[test]
fn test_ordinance_type_is_gedcom_7_only() {
    assert!(!LdsOrdinanceType::Baptism.is_gedcom_7_only());
    assert!(!LdsOrdinanceType::Confirmation.is_gedcom_7_only());
    assert!(LdsOrdinanceType::Initiatory.is_gedcom_7_only());
    assert!(!LdsOrdinanceType::Endowment.is_gedcom_7_only());
    assert!(!LdsOrdinanceType::SealingChild.is_gedcom_7_only());
    assert!(!LdsOrdinanceType::SealingSpouse.is_gedcom_7_only());
}

#[test]
fn test_ordinance_type_description() {
    assert_eq!(LdsOrdinanceType::Baptism.description(), "LDS Baptism");
    assert_eq!(LdsOrdinanceType::Initiatory.description(), "LDS Initiatory");
}

#[test]
fn test_ordinance_status_parse() {
    assert_eq!(LdsOrdinanceStatus::parse("BIC"), Some(LdsOrdinanceStatus::BornInCovenant));
    assert_eq!(LdsOrdinanceStatus::parse("COMPLETED"), Some(LdsOrdinanceStatus::Completed));
    assert_eq!(LdsOrdinanceStatus::parse("STILLBORN"), Some(LdsOrdinanceStatus::Stillborn));
    assert_eq!(LdsOrdinanceStatus::parse("INVALID"), None);
}

#[test]
fn test_ordinance_status_to_gedcom_value() {
    assert_eq!(LdsOrdinanceStatus::BornInCovenant.to_gedcom_value(), "BIC");
    assert_eq!(LdsOrdinanceStatus::Completed.to_gedcom_value(), "COMPLETED");
    assert_eq!(LdsOrdinanceStatus::Stillborn.to_gedcom_value(), "STILLBORN");
}

#[test]
fn test_is_individual_ordinance() {
    assert!(LdsOrdinanceType::Baptism.is_individual_ordinance());
    assert!(LdsOrdinanceType::Confirmation.is_individual_ordinance());
    assert!(LdsOrdinanceType::Initiatory.is_individual_ordinance());
    assert!(LdsOrdinanceType::Endowment.is_individual_ordinance());
    assert!(LdsOrdinanceType::SealingChild.is_individual_ordinance());
    assert!(!LdsOrdinanceType::SealingSpouse.is_individual_ordinance());
}

#[test]
fn test_map_coordinates_is_complete() {
    let complete = MapCoordinates::with_coordinates("N50.0", "E4.0");
    assert!(complete.is_complete());
    let incomplete = MapCoordinates { latitude: Some("N50.0".to_string()), longitude: None };
    assert!(!incomplete.is_complete());
}

#[test]
fn test_place_variation_with_type() {
    let variation = PlaceVariation::with_type("東京", "kana");
    assert_eq!(variation.value, "東京");
    assert_eq!(variation.variation_type, Some("kana".to_string()));
}

#[test]
fn test_repository_with_name() {
    let repo = Repository::with_name("@R1@", "Test Repository");
    assert_eq!(repo.xref, Some("@R1@".to_string()));
    assert_eq!(repo.name, Some("Test Repository".to_string()));
}

#[test]
fn test_repository_has_contact_info() {
    let mut repo = Repository::default();
    assert!(!repo.has_contact_info());
    repo.add_phone("555-1234".to_string());
    assert!(repo.has_contact_info());
}

#[test]
fn test_note_translation_is_valid() {
    let valid1 = NoteTranslation::new("text", Some("text/plain"), None);
    assert!(valid1.is_valid());
    let valid2 = NoteTranslation::new("text", None, Some("en"));
    assert!(valid2.is_valid());
    let valid3 = NoteTranslation::new("text", Some("text/html"), Some("en"));
    assert!(valid3.is_valid());
    let invalid = NoteTranslation::new("text", None, None);
    assert!(!invalid.is_valid());
}

#[test]
fn test_external_id() {
    let exid = ExternalId::new("12345", Some("https://example.com/person/"));
    assert_eq!(exid.id, "12345");
    assert_eq!(exid.type_uri, Some("https://example.com/person/".to_string()));
    assert_eq!(exid.full_url(), Some("https://example.com/person/12345".to_string()));
    let exid_no_type = ExternalId::new("12345", None);
    assert_eq!(exid_no_type.full_url(), None);
}

#[test]
fn test_remove_html_tags() {
    assert_eq!(remove_html_tags("Hello <b>world</b>!"), "Hello world!");
    assert_eq!(remove_html_tags("<p>Paragraph</p>"), "Paragraph");
    assert_eq!(remove_html_tags("No tags here"), "No tags here");
    assert_eq!(remove_html_tags("<>Empty tag<>"), "Empty tag");
}

#[test]
fn test_tag_definition_payload_reads_back() {
    let def = TagDefinition::new("_LOC", "https://example.org/loc");
    let back = TagDefinition::from_payload(def.to_payload().as_str()).unwrap();
    assert_eq!(back, def);
}
