use ged_io::tokenizer::Tokenizer;
use ged_io::types::individual::name::NameType;
use ged_io::types::lds::{LdsOrdinance, LdsOrdinanceStatus, LdsOrdinanceType};
use ged_io::types::place::Place;
use ged_io::types::repository::citation::Citation;
use ged_io::types::shared_note::{NoteTranslation, SharedNote, ExternalId};
use ged_io::types::GedcomData;
use ged_io::Gedcom;

fn parse(sample: &str) -> GedcomData {
    let mut doc = Gedcom::new(sample.chars()).unwrap();
    doc.parse_data().unwrap()
}

#[test]
fn lib_test_parse_minimal_document() {
    let sample = "\
       0 HEAD\n\
       1 GEDC\n\
       2 VERS 5.5\n\
       0 TRLR";
    let data = parse(sample);
    let head = data.header.unwrap();
    let gedc = head.gedcom.unwrap();
    assert_eq!(gedc.version.unwrap(), "5.5");
}

#[test]
fn lib_test_parse_all_record_types() {
    let sample = "\
        0 HEAD\n\
        1 GEDC\n\
        2 VERS 5.5\n\
        0 @SUBMITTER@ SUBM\n\
        0 @PERSON1@ INDI\n\
        0 @FAMILY1@ FAM\n\
        0 @R1@ REPO\n\
        0 @SOURCE1@ SOUR\n\
        0 @MEDIA1@ OBJE\n\
        0 _MYOWNTAG This is a non-standard tag. Not recommended but allowed\n\
        0 TRLR";
    let data = parse(sample);
    assert_eq!(data.submitters.len(), 1);
    assert_eq!(data.submitters[0].xref.as_ref().unwrap(), "@SUBMITTER@");
    assert_eq!(data.individuals.len(), 1);
    assert_eq!(data.individuals[0].xref.as_ref().unwrap(), "@PERSON1@");
    assert_eq!(data.families.len(), 1);
    assert_eq!(data.families[0].xref.as_ref().unwrap(), "@FAMILY1@");
    assert_eq!(data.repositories.len(), 1);
    assert_eq!(data.repositories[0].xref.as_ref().unwrap(), "@R1@");
    assert_eq!(data.sources.len(), 1);
    assert_eq!(data.sources[0].xref.as_ref().unwrap(), "@SOURCE1@");
}

#[test]
fn test_parse_gedcom_7_shared_note() {
    let sample = "\
        0 HEAD\n\
        1 GEDC\n\
        2 VERS 7.0\n\
        0 @N1@ SNOTE This is a shared note\n\
        0 TRLR";
    let data = parse(sample);
    assert_eq!(data.shared_notes.len(), 1);
    assert_eq!(data.shared_notes[0].xref.as_ref().unwrap(), "@N1@");
    assert_eq!(data.shared_notes[0].text, "This is a shared note");
    assert!(data.is_gedcom_7());
}

#[test]
fn test_parse_gedcom_7_with_schema() {
    let sample = "\
        0 HEAD\n\
        1 GEDC\n\
        2 VERS 7.0\n\
        1 SCHMA\n\
        2 TAG _CUSTOM http://example.com/custom\n\
        0 TRLR";
    let data = parse(sample);
    assert!(data.is_gedcom_7());
    let header = data.header.unwrap();
    assert!(header.schema.is_some());
    assert_eq!(
        header.find_extension_uri("_CUSTOM"),
        Some("http://example.com/custom")
    );
}

fn parse_with_tokenizer(sample: &str) -> GedcomData {
    let mut tokenizer = Tokenizer::new(sample.chars());
    tokenizer.next_token().unwrap();
    GedcomData::new(&mut tokenizer, 0).unwrap()
}

#[test]
fn test_parse_shared_note() {
    let sample = "\
        0 HEAD\n\
        1 GEDC\n\
        2 VERS 7.0\n\
        0 @N1@ SNOTE This is a shared note.\n\
        0 TRLR";
    let data = parse_with_tokenizer(sample);
    assert_eq!(data.shared_notes.len(), 1);
    let note = &data.shared_notes[0];
    assert_eq!(note.xref, Some("@N1@".to_string()));
    assert_eq!(note.text, "This is a shared note.");
}

#[test]
fn test_is_gedcom_7() {
    let sample_v7 = "\
        0 HEAD\n\
        1 GEDC\n\
        2 VERS 7.0\n\
        0 @N1@ SNOTE Test note\n\
        0 TRLR";
    let data = parse_with_tokenizer(sample_v7);
    assert!(data.is_gedcom_7());
    assert!(!data.is_gedcom_5());
}

#[test]
fn test_is_gedcom_5() {
    let sample_v5 = "\
        0 HEAD\n\
        1 GEDC\n\
        2 VERS 5.5.1\n\
        0 TRLR";
    let data = parse_with_tokenizer(sample_v5);
    assert!(!data.is_gedcom_7());
    assert!(data.is_gedcom_5());
}

#[test]
fn test_find_shared_note() {
    let sample = "\
        0 HEAD\n\
        1 GEDC\n\
        2 VERS 7.0\n\
        0 @N1@ SNOTE First note\n\
        0 @N2@ SNOTE Second note\n\
        0 TRLR";
    let data = parse_with_tokenizer(sample);
    assert!(data.find_shared_note("@N1@").is_some());
    assert!(data.find_shared_note("@N2@").is_some());
    assert!(data.find_shared_note("@N3@").is_none());
}

#[test]
fn test_total_records_includes_shared_notes() {
    let sample = "\
        0 HEAD\n\
        1 GEDC\n\
        2 VERS 7.0\n\
        0 @I1@ INDI\n\
        0 @N1@ SNOTE Test note\n\
        0 TRLR";
    let data = parse_with_tokenizer(sample);
    assert_eq!(data.total_records(), 2);
}

#[test]
fn test_parse_event_with_cause() {
    let sample = "\
        0 HEAD\n\
        1 GEDC\n\
        2 VERS 5.5.1\n\
        0 @I1@ INDI\n\
        1 NAME John /Doe/\n\
        1 DEAT Y\n\
        2 DATE 15 MAR 1900\n\
        2 PLAC New York, NY\n\
        2 CAUS Heart failure\n\
        0 TRLR";
    let data = parse(sample);
    let death = &data.individuals[0].events[0];
    assert_eq!(death.cause.as_ref().unwrap(), "Heart failure");
}

#[test]
fn test_parse_event_with_restriction() {
    let sample = "\
        0 HEAD\n\
        1 GEDC\n\
        2 VERS 7.0\n\
        0 @I1@ INDI\n\
        1 NAME John /Doe/\n\
        1 BIRT\n\
        2 DATE 1 JAN 1950\n\
        2 RESN confidential\n\
        0 TRLR";
    let data = parse(sample);
    let birth = &data.individuals[0].events[0];
    assert_eq!(birth.restriction.as_ref().unwrap(), "confidential");
}

#[test]
fn test_parse_event_with_age() {
    let sample = "\
        0 HEAD\n\
        1 GEDC\n\
        2 VERS 5.5.1\n\
        0 @I1@ INDI\n\
        1 NAME John /Doe/\n\
        1 DEAT Y\n\
        2 DATE 15 MAR 1900\n\
        2 AGE 75y 3m\n\
        0 TRLR";
    let data = parse(sample);
    let death = &data.individuals[0].events[0];
    assert_eq!(death.age.as_ref().unwrap(), "75y 3m");
}

#[test]
fn test_parse_event_with_agency() {
    let sample = "\
        0 HEAD\n\
        1 GEDC\n\
        2 VERS 5.5.1\n\
        0 @I1@ INDI\n\
        1 NAME John /Doe/\n\
        1 GRAD\n\
        2 DATE 15 JUN 1970\n\
        2 AGNC Harvard University\n\
        0 TRLR";
    let data = parse(sample);
    let grad = &data.individuals[0].events[0];
    assert_eq!(grad.agency.as_ref().unwrap(), "Harvard University");
}

#[test]
fn test_parse_event_with_religion() {
    let sample = "\
        0 HEAD\n\
        1 GEDC\n\
        2 VERS 5.5.1\n\
        0 @I1@ INDI\n\
        1 NAME John /Doe/\n\
        1 CHR\n\
        2 DATE 1 FEB 1950\n\
        2 RELI Catholic\n\
        0 TRLR";
    let data = parse(sample);
    let chr = &data.individuals[0].events[0];
    assert_eq!(chr.religion.as_ref().unwrap(), "Catholic");
}

#[test]
fn test_parse_event_with_all_new_fields() {
    let sample = "\
        0 HEAD\n\
        1 GEDC\n\
        2 VERS 7.0\n\
        0 @I1@ INDI\n\
        1 NAME John /Doe/\n\
        1 DEAT Y\n\
        2 DATE 15 MAR 1900\n\
        2 PLAC Boston, MA\n\
        2 CAUS Pneumonia\n\
        2 AGE 80y\n\
        2 AGNC Massachusetts General Hospital\n\
        2 RESN privacy\n\
        0 TRLR";
    let data = parse(sample);
    let death = &data.individuals[0].events[0];
    assert_eq!(death.cause.as_ref().unwrap(), "Pneumonia");
    assert_eq!(death.age.as_ref().unwrap(), "80y");
    assert_eq!(death.agency.as_ref().unwrap(), "Massachusetts General Hospital");
    assert_eq!(death.restriction.as_ref().unwrap(), "privacy");
}

#[test]
fn test_parse_header_record() {
    let sample = "\
        0 HEAD\n\
        1 GEDC\n\
        2 VERS 5.5\n\
        1 DEST Destination of transmission\n\
        1 SUBM @SUBMITTER@\n\
        1 SUBN @SUBMISSION@\n\
        1 FILE ALLGED.GED\n\
        1 LANG language\n\
        0 TRLR";
    let data = parse(sample);
    let header = data.header.as_ref().unwrap();
    assert_eq!(header.destination.as_ref().unwrap(), "Destination of transmission");
    assert_eq!(header.submitter_tag.as_ref().unwrap(), "@SUBMITTER@");
    assert_eq!(header.submission_tag.as_ref().unwrap(), "@SUBMISSION@");
    assert_eq!(header.language.as_ref().unwrap().as_str(), "language");
    assert_eq!(header.filename.as_ref().unwrap(), "ALLGED.GED");
    assert!(!header.is_gedcom_7());
}

#[test]
fn test_parse_header_with_schema() {
    let sample = "\
        0 HEAD\n\
        1 GEDC\n\
        2 VERS 7.0\n\
        1 SCHMA\n\
        2 TAG _SKYPEID http://xmlns.com/foaf/0.1/skypeID\n\
        2 TAG _MEMBER http://xmlns.com/foaf/0.1/member\n\
        0 TRLR";
    let data = parse(sample);
    let header = data.header.unwrap();
    assert!(header.is_gedcom_7());
    assert!(header.schema.is_some());
    let schema = header.schema.unwrap();
    assert_eq!(schema.len(), 2);
    assert_eq!(schema.find_uri("_SKYPEID"), Some("http://xmlns.com/foaf/0.1/skypeID"));
    assert_eq!(schema.find_uri("_MEMBER"), Some("http://xmlns.com/foaf/0.1/member"));
}

#[test]
fn test_header_version() {
    let data = parse("0 HEAD\n1 GEDC\n2 VERS 5.5.1\n0 TRLR");
    let header = data.header.unwrap();
    assert_eq!(header.version(), Some("5.5.1"));
    assert!(!header.is_gedcom_7());
}

#[test]
fn test_header_version_7() {
    let data = parse("0 HEAD\n1 GEDC\n2 VERS 7.0\n0 TRLR");
    let header = data.header.unwrap();
    assert_eq!(header.version(), Some("7.0"));
    assert!(header.is_gedcom_7());
}

#[test]
fn test_find_extension_uri() {
    let sample = "\
        0 HEAD\n\
        1 GEDC\n\
        2 VERS 7.0\n\
        1 SCHMA\n\
        2 TAG _TEST http://example.com/test\n\
        0 TRLR";
    let data = parse(sample);
    let header = data.header.unwrap();
    assert_eq!(header.find_extension_uri("_TEST"), Some("http://example.com/test"));
    assert_eq!(header.find_extension_uri("_NOTFOUND"), None);
}

#[test]
fn test_parse_gedcom_meta_record() {
    let sample = "\
        0 HEAD\n\
        1 GEDC\n\
        2 VERS 5.5\n\
        2 FORM LINEAGE-LINKED\n\
        0 TRLR";
    let data = parse(sample);
    let head_gedc = data.header.unwrap().gedcom.unwrap();
    assert_eq!(head_gedc.version.unwrap(), "5.5");
    assert_eq!(head_gedc.form.unwrap(), "LINEAGE-LINKED");
}

#[test]
fn test_parse_header_place_record() {
    let sample = "\
        0 HEAD\n\
        1 GEDC\n\
        2 VERS 5.5\n\
        1 PLAC\n\
        2 FORM City, County, State, Country\n\
        0 TRLR";
    let data = parse(sample);
    let h_plac = data.header.unwrap().place.unwrap();
    assert_eq!(h_plac.form[0], "City");
    assert_eq!(h_plac.form[1], "County");
    assert_eq!(h_plac.form[2], "State");
    assert_eq!(h_plac.form[3], "Country");
}

#[test]
fn test_parse_association() {
    let sample = "\
        0 HEAD\n\
        1 CHAR UTF-8\n\
        0 @I1@ INDI\n\
        1 NAME John /DOE/\n\
        1 ASSO @I2@\n\
        2 RELA FRIEND\n\
        2 TYPE COWORKER\n\
        0 TRLR";
    let data = parse(sample);
    let individual = &data.individuals[0];
    assert_eq!(individual.associations.len(), 1);
    assert_eq!(individual.associations[0].xref, "@I2@");
    assert_eq!(individual.associations[0].relationship.clone().unwrap(), "FRIEND");
    assert_eq!(individual.associations[0].association_type.clone().unwrap(), "COWORKER");
}

#[test]
fn test_parse_attribute_with_restriction() {
    let sample = "\
        0 HEAD\n\
        1 GEDC\n\
        2 VERS 7.0\n\
        0 @I1@ INDI\n\
        1 NAME John /Doe/\n\
        1 OCCU Software Engineer\n\
        2 DATE FROM 2010 TO 2020\n\
        2 RESN privacy\n\
        0 TRLR";
    let data = parse(sample);
    let occu = &data.individuals[0].attributes[0];
    assert_eq!(occu.value.as_ref().unwrap(), "Software Engineer");
    assert_eq!(occu.restriction.as_ref().unwrap(), "privacy");
}

#[test]
fn test_parse_name_with_type() {
    let sample = "\
        0 HEAD\n\
        1 GEDC\n\
        2 VERS 7.0\n\
        0 @I1@ INDI\n\
        1 NAME Mary /Smith/\n\
        2 TYPE MAIDEN\n\
        2 GIVN Mary\n\
        2 SURN Smith\n\
        0 TRLR";
    let data = parse(sample);
    let name = data.individuals[0].name.as_ref().unwrap();
    assert_eq!(name.name_type, Some(NameType::Maiden));
    assert_eq!(name.given.as_ref().unwrap(), "Mary");
    assert_eq!(name.surname.as_ref().unwrap(), "Smith");
}

#[test]
fn test_parse_name_with_phonetic() {
    let sample = "\
        0 HEAD\n\
        1 GEDC\n\
        2 VERS 7.0\n\
        0 @I1@ INDI\n\
        1 NAME 山田 /太郎/\n\
        2 FONE Yamada /Taro/\n\
        3 TYPE romaji\n\
        3 GIVN Taro\n\
        3 SURN Yamada\n\
        0 TRLR";
    let data = parse(sample);
    let name = data.individuals[0].name.as_ref().unwrap();
    assert!(name.has_phonetic());
    assert_eq!(name.phonetic.len(), 1);
    assert_eq!(name.phonetic[0].value, "Yamada /Taro/");
    assert_eq!(name.phonetic[0].variation_type, Some("romaji".to_string()));
    assert_eq!(name.phonetic[0].given, Some("Taro".to_string()));
    assert_eq!(name.phonetic[0].surname, Some("Yamada".to_string()));
}

#[test]
fn test_parse_name_with_romanized() {
    let sample = "\
        0 HEAD\n\
        1 GEDC\n\
        2 VERS 7.0\n\
        0 @I1@ INDI\n\
        1 NAME 王 /小明/\n\
        2 ROMN Wang /Xiaoming/\n\
        3 TYPE pinyin\n\
        0 TRLR";
    let data = parse(sample);
    let name = data.individuals[0].name.as_ref().unwrap();
    assert!(name.has_romanized());
    assert_eq!(name.romanized.len(), 1);
    assert_eq!(name.romanized[0].value, "Wang /Xiaoming/");
    assert_eq!(name.romanized[0].variation_type, Some("pinyin".to_string()));
}

#[test]
fn test_name_full_name() {
    let mut name = ged_io::types::individual::name::Name::default();
    name.value = Some("John /Doe/".to_string());
    assert_eq!(name.full_name(), Some("John Doe".to_string()));
}

#[test]
fn test_ordinance_with_builder() {
    let ordinance = LdsOrdinance::with_type(LdsOrdinanceType::Initiatory)
        .with_date("15 MAR 1990")
        .with_temple("SLAKE")
        .with_status(LdsOrdinanceStatus::Completed);

    assert_eq!(ordinance.ordinance_type, Some(LdsOrdinanceType::Initiatory));
    assert_eq!(ordinance.date.as_ref().unwrap().value, Some("15 MAR 1990".to_string()));
    assert_eq!(ordinance.temple, Some("SLAKE".to_string()));
    assert_eq!(ordinance.status, Some(LdsOrdinanceStatus::Completed));
    assert!(ordinance.is_completed());
    assert!(ordinance.is_gedcom_7_only());
}

#[test]
fn test_ordinance_is_completed() {
    let mut ordinance = LdsOrdinance {
        status: Some(LdsOrdinanceStatus::Completed),
        ..Default::default()
    };
    assert!(ordinance.is_completed());

    ordinance.status = Some(LdsOrdinanceStatus::BicCompleted);
    assert!(ordinance.is_completed());

    ordinance.status = Some(LdsOrdinanceStatus::Pre1970);
    assert!(ordinance.is_completed());

    ordinance.status = Some(LdsOrdinanceStatus::Submitted);
    assert!(!ordinance.is_completed());

    ordinance.status = None;
    assert!(!ordinance.is_completed());
}

#[test]
fn test_parse_multimedia_record() {
    let sample = "\
        0 HEAD\n\
        1 GEDC\n\
        2 VERS 5.5\n\
        2 FORM LINEAGE-LINKED\n\
        0 @MEDIA1@ OBJE\n\
        1 FILE /home/user/media/file_name.bmp\n\
        1 TITL A Title\n\
        1 RIN Automated Id\n\
        0 TRLR";
    let data = parse(sample);
    assert_eq!(data.multimedia.len(), 1);
    let obje = &data.multimedia[0];
    assert_eq!(obje.xref.as_ref().unwrap(), "@MEDIA1@");
    assert_eq!(obje.title.as_ref().unwrap(), "A Title");
    assert_eq!(obje.automated_record_id.as_ref().unwrap(), "Automated Id");
}

#[test]
fn test_parse_multimedia_link() {
    let sample = "\
        0 HEAD\n\
        1 CHAR UTF-8\n\
        1 SOUR Ancestry.com Family Trees\n\
        2 VERS (2010.3)\n\
        2 NAME Ancestry.com Family Trees\n\
        2 CORP Ancestry.com\n\
        1 GEDC\n\
        2 VERS 5.5\n\
        2 FORM LINEAGE-LINKED\n\
        0 OBJE\n\
        1 FILE http://trees.ancestry.com/rd?f=image&guid=Xxxxxxxx-Xxxx-Xxxx-Xxxx-Xxxxxxxxxxxx&tid=Xxxxxxxx&pid=1\n\
        1 FORM jpg\n\
        1 TITL In Prague\n\
        0 TRLR";
    let data = parse(sample);
    assert_eq!(data.multimedia.len(), 1);
    let obje = &data.multimedia[0];
    assert_eq!(obje.title.as_ref().unwrap(), "In Prague");
    let form = obje.form.as_ref().unwrap();
    assert_eq!(form.value.as_ref().unwrap(), "jpg");
    let file = obje.file.as_ref().unwrap();
    assert_eq!(
        file.value.as_ref().unwrap(),
        "http://trees.ancestry.com/rd?f=image&guid=Xxxxxxxx-Xxxx-Xxxx-Xxxx-Xxxxxxxxxxxx&tid=Xxxxxxxx&pid=1"
    );
}

#[test]
fn test_parse_multimedia_file_ref_record() {
    let sample = "\
         0 HEAD\n\
         1 GEDC\n\
         2 VERS 5.5\n\
         0 @MEDIA1@ OBJE\n\
         1 FILE /home/user/media/file_name.bmp\n\
         2 FORM bmp\n\
         3 TYPE photo
         2 TITL A Bitmap\n\
         0 TRLR";
    let data = parse(sample);
    assert_eq!(data.multimedia.len(), 1);
    let file = data.multimedia[0].file.as_ref().unwrap();
    assert_eq!(file.value.as_ref().unwrap(), "/home/user/media/file_name.bmp");
    assert_eq!(file.title.as_ref().unwrap(), "A Bitmap");
    let form = file.form.as_ref().unwrap();
    assert_eq!(form.value.as_ref().unwrap(), "bmp");
    assert_eq!(form.source_media_type.as_ref().unwrap(), "photo");
}

#[test]
fn test_parse_multimedia_format_record() {
    let sample = "\
        0 HEAD\n\
        1 GEDC\n\
        2 VERS 5.5\n\
        0 @MEDIA1@ OBJE\n\
        1 FILE /home/user/media/file_name.bmp\n\
        2 FORM bmp\n\
        3 TYPE photo
        0 TRLR";
    let data = parse(sample);
    assert_eq!(data.multimedia.len(), 1);
    let file = data.multimedia[0].file.as_ref().unwrap();
    let form = file.form.as_ref().unwrap();
    assert_eq!(form.value.as_ref().unwrap(), "bmp");
    assert_eq!(form.source_media_type.as_ref().unwrap(), "photo");
}

#[test]
fn test_parse_user_reference_number_record() {
    let sample = "\
        0 HEAD\n\
        1 GEDC\n\
        2 VERS 5.5\n\
        2 FORM LINEAGE-LINKED\n\
        0 @MEDIA1@ OBJE\n\
        1 FILE /home/user/media/file_name.bmp\n\
        1 REFN 000\n\
        2 TYPE User Reference Type\n\
        0 TRLR";
    let data = parse(sample);
    assert_eq!(data.multimedia.len(), 1);
    let user_ref = data.multimedia[0].user_reference_number.as_ref().unwrap();
    assert_eq!(user_ref.value.as_ref().unwrap(), "000");
    assert_eq!(user_ref.user_reference_type.as_ref().unwrap(), "User Reference Type");
}

#[test]
fn test_place_with_value() {
    let place = Place::with_value("New York, New York, USA");
    assert_eq!(place.value, Some("New York, New York, USA".to_string()));
}

#[test]
fn test_place_jurisdictions() {
    let place = Place::with_value("City, County, State, Country");
    let jurisdictions = place.jurisdictions();
    assert_eq!(jurisdictions, vec!["City", "County", "State", "Country"]);
}

#[test]
fn test_parse_repository_with_contact_info() {
    let sample = "\
        0 HEAD\n\
        1 GEDC\n\
        2 VERS 5.5.1\n\
        0 @R1@ REPO\n\
        1 NAME National Archives\n\
        1 ADDR 700 Pennsylvania Avenue NW\n\
        2 CITY Washington\n\
        2 STAE DC\n\
        2 POST 20408\n\
        2 CTRY USA\n\
        1 PHON +1-866-272-6272\n\
        1 EMAIL inquire@nara.gov\n\
        1 WWW https://www.archives.gov\n\
        0 TRLR";
    let data = parse(sample);
    assert_eq!(data.repositories.len(), 1);
    let repo = &data.repositories[0];
    assert_eq!(repo.xref.as_ref().unwrap(), "@R1@");
    assert_eq!(repo.name.as_ref().unwrap(), "National Archives");
    assert!(repo.address.is_some());
    assert_eq!(repo.phone.len(), 1);
    assert_eq!(repo.phone[0], "+1-866-272-6272");
    assert_eq!(repo.email.len(), 1);
    assert_eq!(repo.email[0], "inquire@nara.gov");
    assert_eq!(repo.website.len(), 1);
    assert_eq!(repo.website[0], "https://www.archives.gov");
    assert!(repo.has_contact_info());
}

#[test]
fn test_parse_repository_with_notes() {
    let sample = "\
        0 HEAD\n\
        1 GEDC\n\
        2 VERS 7.0\n\
        0 @R1@ REPO\n\
        1 NAME Family History Library\n\
        1 NOTE The largest genealogical library in the world.\n\
        1 UID http://example.org/repo/fhl\n\
        0 TRLR";
    let data = parse(sample);
    let repo = &data.repositories[0];
    assert_eq!(repo.notes.len(), 1);
    assert!(repo.notes[0].value.as_ref().unwrap().contains("largest genealogical"));
    assert_eq!(repo.uid.as_ref().unwrap(), "http://example.org/repo/fhl");
}

#[test]
fn test_parse_repository_with_change_date() {
    let sample = "\
        0 HEAD\n\
        1 GEDC\n\
        2 VERS 5.5.1\n\
        0 @R1@ REPO\n\
        1 NAME State Archives\n\
        1 CHAN\n\
        2 DATE 1 JAN 2024\n\
        3 TIME 12:00:00\n\
        1 RIN 12345\n\
        1 REFN REF-001\n\
        0 TRLR";
    let data = parse(sample);
    let repo = &data.repositories[0];
    assert!(repo.change_date.is_some());
    let date = repo.change_date.as_ref().unwrap().date.as_ref().unwrap();
    assert_eq!(date.value.as_ref().unwrap(), "1 JAN 2024");
    assert_eq!(repo.automated_record_id.as_ref().unwrap(), "12345");
    assert_eq!(repo.user_reference_number.as_ref().unwrap(), "REF-001");
}

#[test]
fn test_citation_for_repository() {
    let citation = Citation::for_repository("@R1@");
    assert_eq!(citation.xref, "@R1@");
    assert!(citation.call_number.is_none());
    assert!(citation.media_type.is_none());
}

#[test]
fn test_citation_set_call_number() {
    let mut citation = Citation::for_repository("@R1@");
    citation.set_call_number("FHL Film 123456");
    assert!(citation.has_call_number());
    assert_eq!(citation.call_number.as_ref().unwrap(), "FHL Film 123456");
}

#[test]
fn test_citation_set_media_type() {
    let mut citation = Citation::for_repository("@R1@");
    citation.set_media_type("film");
    assert!(citation.has_media_type());
    assert_eq!(citation.media_type.as_ref().unwrap(), "film");
}

#[test]
fn test_shared_note_with_text() {
    let note = SharedNote::with_text("@N1@", "This is a test note.");
    assert_eq!(note.xref, Some("@N1@".to_string()));
    assert_eq!(note.text, "This is a test note.");
}

#[test]
fn test_is_html_and_plain_text() {
    let mut note = SharedNote::default();
    assert!(note.is_plain_text());
    assert!(!note.is_html());

    note.mime = Some("text/plain".to_string());
    assert!(note.is_plain_text());
    assert!(!note.is_html());

    note.mime = Some("text/html".to_string());
    assert!(!note.is_plain_text());
    assert!(note.is_html());
}

#[test]
fn test_to_plain_text_from_html() {
    let mut note = SharedNote::default();
    note.mime = Some("text/html".to_string());
    note.text = "<p>Hello <b>world</b>!</p><br>New line &amp; more &lt;text&gt;".to_string();

    let plain = note.to_plain_text();
    assert!(plain.contains("Hello"));
    assert!(plain.contains("world"));
    assert!(plain.contains("New line"));
    assert!(plain.contains("& more <text>"));
    assert!(!plain.contains("<b>"));
    assert!(!plain.contains("</b>"));
}

#[test]
fn test_to_plain_text_already_plain() {
    let mut note = SharedNote::default();
    note.text = "Plain text content".to_string();
    assert_eq!(note.to_plain_text(), "Plain text content");
}

#[test]
fn test_add_methods() {
    let mut note = SharedNote::default();
    note.add_translation(NoteTranslation::new("Translated", None, Some("de")));
    assert_eq!(note.translations.len(), 1);
    note.add_external_id(ExternalId::new("123", None));
    assert_eq!(note.external_ids.len(), 1);
}

#[test]
fn test_parse_source_citation_with_even_and_role() {
    let sample = "\
        0 HEAD\n\
        1 GEDC\n\
        2 VERS 5.5.1\n\
        0 @S1@ SOUR\n\
        1 TITL Birth Records\n\
        0 @I1@ INDI\n\
        1 NAME John /Doe/\n\
        1 BIRT\n\
        2 DATE 1 JAN 1900\n\
        2 SOUR @S1@\n\
        3 PAGE Page 42\n\
        3 EVEN BIRT\n\
        3 ROLE CHIL\n\
        0 TRLR";
    let data = parse(sample);
    let birt = &data.individuals[0].events[0];
    let sour = &birt.citations[0];
    assert_eq!(sour.xref, "@S1@");
    assert_eq!(sour.page.as_ref().unwrap(), "Page 42");
    assert_eq!(sour.event_type.as_ref().unwrap(), "BIRT");
    assert_eq!(sour.role.as_ref().unwrap(), "CHIL");
}

#[test]
fn unknown_individual_tag_is_a_parse_error() {
    let sample = "0 HEAD\n1 GEDC\n2 VERS 5.5\n0 @I1@ INDI\n1 BOGUS x\n0 TRLR";
    let mut doc = Gedcom::new(sample.chars()).unwrap();
    assert!(doc.parse_data().is_err());
}

#[test]
fn text_not_starting_with_a_level_is_refused() {
    assert!(Gedcom::new("HEAD".chars()).is_err());
}

#[test]
fn test_gedcom_new_needs_a_level_first() {
    assert!(Gedcom::new("0 HEAD".chars()).is_ok());
    assert!(matches!(Gedcom::new("HEAD".chars()), Err(ged_io::GedcomError::ParseError { .. })));
    assert!(matches!(Gedcom::new("256 HEAD".chars()), Err(ged_io::GedcomError::ParseError { .. })));
}

#[test]
fn test_unexpected_token_is_named_in_the_message() {
    let mut t = Tokenizer::from_str("0 @I1@ INDI\n");
    t.next_token().unwrap();
    match t.take_line_value() {
        Err(ged_io::GedcomError::ParseError { message, .. }) => {
            assert_eq!(message, "Expected LineValue, found Pointer(\"@I1@\")")
        }
        other => panic!("unexpected result: {:?}", other),
    }
}

#[test]
fn test_name_type_reads_back_its_text() {
    assert_eq!(NameType::parse("married"), NameType::Married);
    assert_eq!(NameType::parse("BIRTH"), NameType::Aka);
    assert_eq!(NameType::parse(NameType::Maiden.as_str()), NameType::Maiden);
}
