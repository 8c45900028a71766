use ged_io::tokenizer::{Token, Tokenizer};
use ged_io::types::date::change_date::ChangeDate;
use ged_io::types::gedcom7::NonEvent;
use ged_io::types::header::meta::HeadMeta;
use ged_io::types::header::place::HeadPlac;
use ged_io::types::header::schema::Schema;
use ged_io::types::header::Header;
use ged_io::types::note::Note;
use ged_io::{Gedcom, GedcomBuilder, GedcomError};

fn at_tag(text: &str) -> Tokenizer {
    let mut t = Tokenizer::new(text.chars());
    t.next_token().unwrap();
    t.next_token().unwrap();
    t
}

#[test]
fn take_token_returns_the_popped_token() {
    let mut t = Tokenizer::new("0 HEAD".chars());
    t.next_token().unwrap();
    assert_eq!(*t.current_token(), Token::Level(0));
    assert_eq!(t.take_token().unwrap(), Token::Level(0));
    assert_eq!(*t.current_token(), Token::Tag("HEAD".to_string()));
}

#[test]
fn change_date_reads_date_time_and_note() {
    let mut t = at_tag("1 CHAN\n2 DATE 1 APR 1998\n3 TIME 12:34:56.789\n2 NOTE A note\n1 X");
    let c = ChangeDate::new(&mut t, 1).unwrap();
    let d = c.date.as_ref().unwrap();
    assert_eq!(d.value.as_deref(), Some("1 APR 1998"));
    assert_eq!(d.time.as_deref(), Some("12:34:56.789"));
    assert_eq!(c.note.as_ref().unwrap().value.as_deref(), Some("A note"));
    assert_eq!(*t.current_token(), Token::Level(1));
}

#[test]
fn change_date_keeps_the_last_date() {
    let mut t = at_tag("1 CHAN\n2 DATE 1 APR 1998\n2 DATE 2 MAY 1999\n0 TRLR");
    let c = ChangeDate::new(&mut t, 1).unwrap();
    assert_eq!(c.date.as_ref().unwrap().value.as_deref(), Some("2 MAY 1999"));
    assert!(c.note.is_none());
}

#[test]
fn note_joins_continued_lines() {
    let mut t = at_tag("1 NOTE first\n2 CONC part\n2 CONT next\n2 MIME text/plain\n2 LANG en\n1 X");
    let n = Note::new(&mut t, 1).unwrap();
    assert_eq!(n.value.as_deref(), Some("firstpart\nnext"));
    assert_eq!(n.mime.as_deref(), Some("text/plain"));
    assert_eq!(n.language.as_deref(), Some("en"));
    assert!(n.translation.is_none());
    assert!(n.citation.is_none());
    assert_eq!(*t.current_token(), Token::Level(1));
}

#[test]
fn empty_note_has_no_text() {
    let mut t = at_tag("1 NOTE\n0 TRLR");
    let n = Note::new(&mut t, 1).unwrap();
    assert!(n.value.is_none());
}

#[test]
fn note_rejects_an_unknown_line() {
    let mut t = at_tag("1 NOTE text\n2 DATE 1 APR 1998\n0 TRLR");
    assert!(Note::new(&mut t, 1).is_err());
}

#[test]
fn header_reads_its_lines() {
    let mut t = at_tag(
        "0 HEAD\n1 GEDC\n2 VERS 5.5\n1 DEST Destination of transmission\n1 SUBM @SUBMITTER@\n1 FILE ALLGED.GED\n1 LANG language\n0 TRLR",
    );
    let h = Header::new(&mut t, 0).unwrap();
    assert_eq!(h.destination.as_deref(), Some("Destination of transmission"));
    assert_eq!(h.submitter_tag.as_deref(), Some("@SUBMITTER@"));
    assert_eq!(h.filename.as_deref(), Some("ALLGED.GED"));
    assert_eq!(h.language.as_deref(), Some("language"));
    assert_eq!(h.version(), Some("5.5"));
    assert!(!h.is_gedcom_7());
    assert_eq!(*t.current_token(), Token::Level(0));
}

#[test]
fn head_meta_reads_version_and_form() {
    let mut t = at_tag("1 GEDC\n2 VERS 5.5\n2 FORM LINEAGE-LINKED\n0 TRLR");
    let m = HeadMeta::new(&mut t, 1).unwrap();
    assert_eq!(m.version.as_deref(), Some("5.5"));
    assert_eq!(m.form.as_deref(), Some("LINEAGE-LINKED"));
}

#[test]
fn head_meta_rejects_another_form() {
    let mut t = at_tag("1 GEDC\n2 VERS 5.5\n2 FORM OTHER\n0 TRLR");
    assert!(HeadMeta::new(&mut t, 1).is_err());
}

#[test]
fn head_place_splits_the_form() {
    let mut t = at_tag("1 PLAC\n2 FORM City, County, State, Country\n0 TRLR");
    let p = HeadPlac::new(&mut t, 1).unwrap();
    assert_eq!(p.form, vec!["City", "County", "State", "Country"]);
    assert_eq!(*t.current_token(), Token::Level(0));
}

#[test]
fn schema_skips_an_invalid_definition() {
    let mut t = at_tag(
        "1 SCHMA\n2 TAG _SKYPEID http://xmlns.com/foaf/0.1/skypeID\n2 TAG _BAD\n2 TAG _MEMBER http://xmlns.com/foaf/0.1/member\n0 TRLR",
    );
    let s = Schema::new(&mut t, 1).unwrap();
    assert_eq!(s.len(), 2);
    assert_eq!(s.find_uri("_MEMBER"), Some("http://xmlns.com/foaf/0.1/member"));
}

#[test]
fn non_event_reads_type_and_date() {
    let mut t = at_tag("1 NO MARR\n2 DATE BEF 1900\n1 X");
    let n = NonEvent::new(&mut t, 1).unwrap();
    assert_eq!(n.event_type, "MARR");
    assert_eq!(n.date.as_ref().unwrap().value.as_deref(), Some("BEF 1900"));
    assert_eq!(*t.current_token(), Token::Level(1));
}

#[test]
fn parsed_individuals_keep_their_names() {
    let sample = "0 HEAD\n1 GEDC\n2 VERS 5.5\n0 @I1@ INDI\n1 NAME Ann /Smith/\n1 SEX F\n0 @I2@ INDI\n1 NAME Bob /Jones/\n0 TRLR";
    let mut doc = Gedcom::new(sample.chars()).unwrap();
    let data = doc.parse_data().unwrap();
    assert_eq!(data.individuals.len(), 2);
    assert_eq!(data.individuals[0].name.as_ref().unwrap().value.as_deref(), Some("Ann /Smith/"));
    assert_eq!(data.individuals[1].name.as_ref().unwrap().value.as_deref(), Some("Bob /Jones/"));
    assert_eq!(data.header.unwrap().gedcom.unwrap().version.as_deref(), Some("5.5"));
}

#[test]
fn parsed_records_keep_their_lines() {
    let sample = "0 HEAD\n0 @F1@ FAM\n1 HUSB @I1@\n1 WIFE @I2@\n1 CHIL @I3@\n0 @R1@ REPO\n1 NAME Library\n1 PHON 555\n1 PHON 556\n1 NOTE About it\n0 @U1@ SUBM\n1 NAME Ann\n1 LANG English\n1 EMAIL a@b.c\n0 @N1@ SUBN\n1 FAMF file.ged\n1 TEMP SLAKE\n1 ANCE 3\n0 TRLR";
    let mut doc = Gedcom::new(sample.chars()).unwrap();
    let data = doc.parse_data().unwrap();
    let f = &data.families[0];
    assert_eq!(f.individual1.as_deref(), Some("@I1@"));
    assert_eq!(f.individual2.as_deref(), Some("@I2@"));
    assert_eq!(f.children, vec!["@I3@".to_string()]);
    let r = &data.repositories[0];
    assert_eq!(r.name.as_deref(), Some("Library"));
    assert_eq!(r.phone, vec!["555".to_string(), "556".to_string()]);
    assert_eq!(r.notes.len(), 1);
    assert_eq!(r.notes[0].value.as_deref(), Some("About it"));
    let u = &data.submitters[0];
    assert_eq!(u.name.as_deref(), Some("Ann"));
    assert_eq!(u.language.as_deref(), Some("English"));
    assert_eq!(u.email, vec!["a@b.c".to_string()]);
    let n = &data.submissions[0];
    assert_eq!(n.family_file_name.as_deref(), Some("file.ged"));
    assert_eq!(n.temple_code.as_deref(), Some("SLAKE"));
    assert_eq!(n.ancestor_generations.as_deref(), Some("3"));
}

#[test]
fn parsed_shared_note_keeps_its_lines() {
    let sample = "0 HEAD\n0 @N1@ SNOTE Some text\n1 CONT more\n1 MIME text/html\n1 LANG en\n1 TRAN Trans\n1 EXID 123\n1 SOUR @S1@\n0 TRLR";
    let mut doc = Gedcom::new(sample.chars()).unwrap();
    let data = doc.parse_data().unwrap();
    let n = &data.shared_notes[0];
    assert_eq!(n.xref.as_deref(), Some("@N1@"));
    assert_eq!(n.text, "Some text\nmore");
    assert_eq!(n.mime.as_deref(), Some("text/html"));
    assert_eq!(n.language.as_deref(), Some("en"));
    assert_eq!(n.translations.len(), 1);
    assert_eq!(n.translations[0].text, "Trans");
    assert_eq!(n.external_ids.len(), 1);
    assert_eq!(n.external_ids[0].id, "123");
    assert_eq!(n.source_citations.len(), 1);
}

#[test]
fn parsed_multimedia_keeps_its_lines() {
    let sample = "0 HEAD\n0 @M1@ OBJE\n1 FILE photo.jpg\n1 TITL First\n1 TITL Second\n1 RIN 42\n1 NOTE Seen\n2 CONT here\n0 TRLR";
    let mut doc = Gedcom::new(sample.chars()).unwrap();
    let data = doc.parse_data().unwrap();
    let m = &data.multimedia[0];
    assert_eq!(m.xref.as_deref(), Some("@M1@"));
    assert!(m.file.is_some());
    assert_eq!(m.title.as_deref(), Some("Second"));
    assert_eq!(m.automated_record_id.as_deref(), Some("42"));
    assert_eq!(m.note_structure.as_ref().unwrap().value.as_deref(), Some("Seen\nhere"));
    assert!(m.form.is_none());
    assert!(m.change_date.is_none());
}

#[test]
fn parsed_source_keeps_its_lines() {
    let sample = "0 HEAD\n0 @S1@ SOUR\n1 TITL A long\n2 CONC er title\n1 AUTH Someone\n1 ABBR Short\n1 PUBL Press\n1 RFN 77\n1 NOTE Kept\n1 REPO @R1@\n1 DATA\n2 AGNC Office\n0 TRLR";
    let mut doc = Gedcom::new(sample.chars()).unwrap();
    let data = doc.parse_data().unwrap();
    let s = &data.sources[0];
    assert_eq!(s.xref.as_deref(), Some("@S1@"));
    assert_eq!(s.title.as_deref(), Some("A longer title"));
    assert_eq!(s.author.as_deref(), Some("Someone"));
    assert_eq!(s.abbreviation.as_deref(), Some("Short"));
    assert_eq!(s.publication_facts.as_deref(), Some("Press"));
    assert_eq!(s.submitter_registered_rfn.as_deref(), Some("77"));
    assert_eq!(s.notes.len(), 1);
    assert_eq!(s.notes[0].value.as_deref(), Some("Kept"));
    assert_eq!(s.repo_citations.len(), 1);
    assert_eq!(s.data.agency.as_deref(), Some("Office"));
    assert!(s.citation_from_source.is_none());
}

#[test]
fn checked_build_reports_the_first_missing_reference() {
    let sample = "0 HEAD\n0 @I1@ INDI\n1 FAMS @F1@\n0 @F1@ FAM\n1 HUSB @I1@\n1 WIFE @I9@\n1 CHIL @I8@\n0 TRLR";
    let r = GedcomBuilder::new().validate_references(true).build_from_str(sample);
    match r {
        Err(GedcomError::InvalidFormat(m)) => assert_eq!(m, "Family references non-existent individual: @I9@"),
        other => panic!("unexpected result: {:?}", other.is_ok()),
    }
}

#[test]
fn checked_build_reports_a_missing_family() {
    let sample = "0 HEAD\n0 @I1@ INDI\n1 FAMC @F7@\n0 TRLR";
    let r = GedcomBuilder::new().validate_references(true).build(sample.chars());
    match r {
        Err(GedcomError::InvalidFormat(m)) => assert_eq!(m, "Individual references non-existent family: @F7@"),
        other => panic!("unexpected result: {:?}", other.is_ok()),
    }
}

#[test]
fn checked_build_succeeds_when_references_resolve() {
    let sample = "0 HEAD\n0 @I1@ INDI\n1 FAMS @F1@\n0 @I2@ INDI\n1 FAMC @F1@\n0 @F1@ FAM\n1 HUSB @I1@\n1 CHIL @I2@\n0 TRLR";
    let d = GedcomBuilder::new().validate_references(true).build_from_str(sample).unwrap();
    assert_eq!(d.individuals.len(), 2);
    assert_eq!(d.individuals[0].families.len(), 1);
    assert_eq!(d.individuals[0].families[0].xref, "@F1@");
}

#[test]
fn parsed_family_keeps_its_details() {
    let sample = "0 HEAD\n0 @F1@ FAM\n1 HUSB @I1@\n1 MARR\n2 DATE 1 JAN 1900\n2 PLAC Town\n1 NOTE Married\n1 NCHI 2\n1 RIN 5\n1 EXID x1\n1 CHAN\n2 DATE 2 FEB 2000\n0 TRLR";
    let data = Gedcom::new(sample.chars()).unwrap().parse_data().unwrap();
    let f = &data.families[0];
    assert_eq!(f.events.len(), 1);
    assert_eq!(f.events[0].date.as_ref().unwrap().value.as_deref(), Some("1 JAN 1900"));
    assert_eq!(f.events[0].place.as_ref().unwrap().value.as_deref(), Some("Town"));
    assert_eq!(f.notes[0].value.as_deref(), Some("Married"));
    assert_eq!(f.num_children.as_deref(), Some("2"));
    assert_eq!(f.automated_record_id.as_deref(), Some("5"));
    assert_eq!(f.external_ids, vec!["x1".to_string()]);
    assert_eq!(f.change_date.as_ref().unwrap().date.as_ref().unwrap().value.as_deref(), Some("2 FEB 2000"));
}

#[test]
fn parsed_individual_events_keep_their_details() {
    let sample = "0 HEAD\n0 @I1@ INDI\n1 BIRT\n2 DATE 3 MAR 1850\n2 NOTE Born at home\n1 ASSO @I2@\n2 RELA Godfather\n1 NOTE About her\n0 TRLR";
    let data = Gedcom::new(sample.chars()).unwrap().parse_data().unwrap();
    let i = &data.individuals[0];
    assert_eq!(i.events[0].date.as_ref().unwrap().value.as_deref(), Some("3 MAR 1850"));
    assert_eq!(i.events[0].note.as_ref().unwrap().value.as_deref(), Some("Born at home"));
    assert_eq!(i.associations.len(), 1);
    assert_eq!(i.associations[0].relationship.as_deref(), Some("Godfather"));
    assert_eq!(i.note.as_ref().unwrap().value.as_deref(), Some("About her"));
}

#[test]
fn parsed_citations_name_their_sources() {
    let sample = "0 HEAD\n0 @I1@ INDI\n1 SOUR @S1@\n1 DEAT\n2 SOUR @S2@\n2 SDATE 1900\n0 @F1@ FAM\n1 SOUR @S3@\n0 TRLR";
    let data = Gedcom::new(sample.chars()).unwrap().parse_data().unwrap();
    let i = &data.individuals[0];
    assert_eq!(i.source[0].xref, "@S1@");
    assert_eq!(i.events[0].citations[0].xref, "@S2@");
    assert_eq!(i.events[0].sort_date.as_ref().unwrap().value.as_deref(), Some("1900"));
    assert_eq!(data.families[0].sources[0].xref, "@S3@");
}
