use ged_io::types::event::util::HasEvents;
use ged_io::types::submission::Submission;
use ged_io::Gedcom;

#[test]
fn gedcom_test_parse_minimal_document() {
    let sample = "\
       0 HEAD\n\
       1 GEDC\n\
       2 VERS 5.5\n\
       0 TRLR";
    let mut doc = Gedcom::new(sample.chars()).unwrap();
    let data = doc.parse_data().unwrap();
    let head = data.header.unwrap();
    let gedc = head.gedcom.unwrap();
    assert_eq!(gedc.version.unwrap(), "5.5");
}

#[test]
fn gedcom_test_parse_all_record_types() {
    let sample = "\
        0 HEAD\n\
        1 GEDC\n\
        2 VERS 5.5\n\
        0 @SUBMITTER@ SUBM\n\
        0 @PERSON1@ INDI\n\
        0 @FAMILY1@ FAM\n\
        0 @R1@ REPO\n\
        0 @SOURCE1@ SOUR\n\
        0 @MEDIA1@ OBJE\n\
        0 _MYOWNTAG This is a non-standard tag. Not recommended but allowed\n\
        0 TRLR";
    let mut doc = Gedcom::new(sample.chars()).unwrap();
    let data = doc.parse_data().unwrap();
    assert_eq!(data.submitters.len(), 1);
    assert_eq!(data.submitters[0].xref.as_ref().unwrap(), "@SUBMITTER@");
    assert_eq!(data.individuals.len(), 1);
    assert_eq!(data.individuals[0].xref.as_ref().unwrap(), "@PERSON1@");
    assert_eq!(data.families.len(), 1);
    assert_eq!(data.families[0].xref.as_ref().unwrap(), "@FAMILY1@");
    assert_eq!(data.repositories.len(), 1);
    assert_eq!(data.repositories[0].xref.as_ref().unwrap(), "@R1@");
    assert_eq!(data.sources.len(), 1);
    assert_eq!(data.sources[0].xref.as_ref().unwrap(), "@SOURCE1@");
}

#[test]
fn test_parse_date_record() {
    let sample = "\
        0 HEAD\n\
        1 GEDC\n\
        2 VERS 5.5\n\
        1 DATE 2 Oct 2019\n\
        2 TIME 0:00:00\n\
        0 @I1@ INDI\n\
        1 NAME Ancestor\n\
        1 BIRT\n\
        2 DATE BEF 1828\n\
        1 RESI\n\
        2 PLAC 100 Broadway, New York, NY 10005\n\
        2 DATE from 1900 to 1905\n\
        0 TRLR";
    let mut doc = Gedcom::new(sample.chars()).unwrap();
    let data = doc.parse_data().unwrap();
    let head_date = data.header.unwrap().date.unwrap();
    assert_eq!(head_date.value.unwrap(), "2 Oct 2019");
    let birt_date = data.individuals[0].events[0].date.as_ref().unwrap();
    assert_eq!(birt_date.value.as_ref().unwrap(), "BEF 1828");
    let resi_date = data.individuals[0].events[1].date.as_ref().unwrap();
    assert_eq!(resi_date.value.as_ref().unwrap(), "from 1900 to 1905");
}

#[test]
fn test_parse_change_date_record() {
    let sample = "\
        0 HEAD\n\
        1 GEDC\n\
        2 VERS 5.5\n\
        2 FORM LINEAGE-LINKED\n\
        0 @MEDIA1@ OBJE\n\
        1 FILE /home/user/media/file_name.bmp\n\
        1 CHAN\n\
        2 DATE 1 APR 1998\n\
        3 TIME 12:34:56.789\n\
        2 NOTE A note\n\
        0 TRLR";
    let mut doc = Gedcom::new(sample.chars()).unwrap();
    let data = doc.parse_data().unwrap();
    assert_eq!(data.multimedia.len(), 1);
    let obje = &data.multimedia[0];
    let chan = obje.change_date.as_ref().unwrap();
    let date = chan.date.as_ref().unwrap();
    assert_eq!(date.value.as_ref().unwrap(), "1 APR 1998");
    assert_eq!(date.time.as_ref().unwrap(), "12:34:56.789");
    let chan_note = chan.note.as_ref().unwrap();
    assert_eq!(chan_note.value.as_ref().unwrap(), "A note");
}

#[test]
fn test_parse_encoding_record() {
    let sample = "\
        0 HEAD\n\
        1 GEDC\n\
        2 VERS 5.5\n\
        1 CHAR ASCII\n\
        2 VERS Version number of ASCII (whatever it means)\n\
        0 TRLR";
    let mut doc = Gedcom::new(sample.chars()).unwrap();
    let data = doc.parse_data().unwrap();
    let h_char = data.header.unwrap().encoding.unwrap();
    assert_eq!(h_char.value.unwrap(), "ASCII");
    assert_eq!(h_char.version.unwrap(), "Version number of ASCII (whatever it means)");
}

#[test]
fn test_parse_header_source_record() {
    let sample = "\
        0 HEAD\n\
        1 GEDC\n\
        2 VERS 5.5\n\
        1 SOUR SOURCE_NAME\n\
        2 VERS Version number of source-program\n\
        2 NAME Name of source-program\n\
        0 TRLR";
    let mut doc = Gedcom::new(sample.chars()).unwrap();
    let data = doc.parse_data().unwrap();
    let sour = data.header.unwrap().source.unwrap();
    assert_eq!(sour.value.unwrap(), "SOURCE_NAME");
    let vers = sour.version.unwrap();
    assert_eq!(vers, "Version number of source-program");
    let name = sour.name.unwrap();
    assert_eq!(name, "Name of source-program");
}

#[test]
fn test_parse_individual_record() {
    let sample = "\
       0 HEAD\n\
       1 GEDC\n\
       2 VERS 5.5\n\
       0 @PERSON1@ INDI\n\
       1 NAME John Doe\n\
       1 SEX M\n\
       0 TRLR";
    let mut doc = Gedcom::new(sample.chars()).unwrap();
    let data = doc.parse_data().unwrap();
    let indi = &data.individuals[0];
    assert_eq!(indi.xref.as_ref().unwrap(), "@PERSON1@");
    assert_eq!(indi.name.as_ref().unwrap().value.as_ref().unwrap(), "John Doe");
    assert_eq!(indi.sex.as_ref().unwrap().value.to_display_string(), "Male");
}

#[test]
fn test_parse_gender_record() {
    let sample = "\
        0 HEAD\n\
        1 GEDC\n\
        2 VERS 5.5\n\
        0 @PERSON1@ INDI\n\
        1 SEX M
        2 FACT A fact about an individual's gen
        3 CONC der
        2 SOUR @CITATION1@
        3 PAGE Page
        4 CONC : 132
        3 _MYOWNTAG This is a non-standard tag. Not recommended but allowed
        0 TRLR";
    let mut doc = Gedcom::new(sample.chars()).unwrap();
    let data = doc.parse_data().unwrap();
    let sex = data.individuals[0].sex.as_ref().unwrap();
    assert_eq!(sex.value.to_display_string(), "Male");
    assert_eq!(sex.fact.as_ref().unwrap(), "A fact about an individual's gender");
    assert_eq!(sex.sources[0].xref, "@CITATION1@");
    assert_eq!(sex.sources[0].page.as_ref().unwrap(), "Page: 132");
}

#[test]
fn test_parse_family_link_record() {
    let sample = "\
       0 HEAD\n\
       1 GEDC\n\
       2 VERS 5.5\n\
       0 @PERSON1@ INDI\n\
       1 NAME given name\n\
       1 SEX M\n\
       1 ADOP\n\
       2 DATE CAL 31 DEC 1897\n\
       2 FAMC @ADOPTIVE_PARENTS@\n\
       3 PEDI adopted
       3 ADOP BOTH\n\
       3 STAT proven
       0 TRLR";
    let mut doc = Gedcom::new(sample.chars()).unwrap();
    let data = doc.parse_data().unwrap();
    let famc = data.individuals[0].events[0].family_link.as_ref().unwrap();
    assert_eq!(famc.xref, "@ADOPTIVE_PARENTS@");
    assert_eq!(famc.family_link_type.to_display_string(), "Child");
    assert_eq!(famc.pedigree_linkage_type.as_ref().unwrap().to_display_string(), "Adopted");
    assert_eq!(famc.child_linkage_status.as_ref().unwrap().to_display_string(), "Proven");
    assert_eq!(famc.adopted_by.as_ref().unwrap().to_display_string(), "Both");
}

#[test]
fn test_parse_name_record() {
    let sample = "\
       0 HEAD\n\
       1 GEDC\n\
       2 VERS 5.5\n\
       0 @PERSON1@ INDI\n\
       1 NAME John Doe\n\
       0 TRLR";
    let mut doc = Gedcom::new(sample.chars()).unwrap();
    let data = doc.parse_data().unwrap();
    let indi = &data.individuals[0];
    assert_eq!(indi.xref.as_ref().unwrap(), "@PERSON1@");
    assert_eq!(indi.name.as_ref().unwrap().value.as_ref().unwrap(), "John Doe");
}

#[test]
fn test_parse_attribute_detail_record() {
    let sample = "\
       0 HEAD\n\
       1 GEDC\n\
       2 VERS 5.5\n\
       0 @PERSON1@ INDI\n\
       1 DSCR Physical description\n\
       2 DATE 31 DEC 1997\n\
       2 PLAC The place\n\
       2 SOUR @SOURCE1@\n\
       3 PAGE 42\n\
       3 DATA\n\
       4 DATE 31 DEC 1900\n\
       4 TEXT a sample text\n\
       5 CONT Sample text continued here. The word TE\n\
       5 CONC ST should not be broken!\n\
       3 QUAY 3\n\
       3 NOTE A note\n\
       4 CONT Note continued here. The word TE\n\
       4 CONC ST should not be broken!\n\
       2 NOTE PHY_DESCRIPTION event note (the physical characteristics of a person, place, or thing)\n\
       3 CONT Note continued here. The word TE\n\
       3 CONC ST should not be broken!\n\
       0 TRLR";
    let mut doc = Gedcom::new(sample.chars()).unwrap();
    let data = doc.parse_data().unwrap();
    assert_eq!(data.individuals.len(), 1);
    let attr = &data.individuals[0].attributes[0];
    assert_eq!(attr.attribute.to_display_string(), "PhysicalDescription");
    assert_eq!(attr.value.as_ref().unwrap(), "Physical description");
    assert_eq!(attr.date.as_ref().unwrap().value.as_ref().unwrap(), "31 DEC 1997");
    assert_eq!(attr.place.as_ref().unwrap().value.as_ref().unwrap(), "The place");
    let a_sour = &data.individuals[0].attributes[0].sources[0];
    assert_eq!(a_sour.page.as_ref().unwrap(), "42");
    assert_eq!(
        a_sour.data.as_ref().unwrap().date.as_ref().unwrap().value.as_ref().unwrap(),
        "31 DEC 1900"
    );
    assert_eq!(
        a_sour.data.as_ref().unwrap().text.as_ref().unwrap().value.as_ref().unwrap(),
        "a sample text\nSample text continued here. The word TEST should not be broken!"
    );
    assert_eq!(a_sour.certainty_assessment.as_ref().unwrap().to_display_string(), "Direct");
    assert_eq!(
        a_sour.note.as_ref().unwrap().value.as_ref().unwrap(),
        "A note\nNote continued here. The word TEST should not be broken!"
    );
}

#[test]
fn test_parse_source_citation_record() {
    let sample = "\
        0 HEAD\n\
        1 GEDC\n\
        2 VERS 5.5\n\
        2 FORM LINEAGE-LINKED\n\
        0 @PERSON1@ INDI\n\
        1 SOUR @SOURCE1@\n\
        2 PAGE 42\n\
        0 TRLR";
    let mut ged = Gedcom::new(sample.chars()).unwrap();
    let data = ged.parse_data().unwrap();
    assert_eq!(data.individuals[0].source[0].xref, "@SOURCE1@");
    assert_eq!(data.individuals[0].source[0].page.as_ref().unwrap(), "42");
}

#[test]
fn test_parse_source_citation_data_record() {
    let sample = "\
        0 HEAD\n\
        1 GEDC\n\
        2 VERS 5.5\n\
        2 FORM LINEAGE-LINKED\n\
        0 @PERSON1@ INDI\n\
        1 SOUR @SOURCE1@\n\
        2 PAGE 42\n\
        2 DATA\n\
        3 DATE BEF 1 JAN 1900\n\
        0 TRLR";
    let mut ged = Gedcom::new(sample.chars()).unwrap();
    let data = ged.parse_data().unwrap();
    let citation_data = data.individuals[0].source[0].data.as_ref().unwrap();
    assert_eq!(citation_data.date.as_ref().unwrap().value.as_ref().unwrap(), "BEF 1 JAN 1900");
}

#[test]
fn test_parse_text_from_source_record() {
    let sample = "\
        0 HEAD\n\
        1 GEDC\n\
        2 VERS 5.5\n\
        2 FORM LINEAGE-LINKED\n\
        0 @PERSON1@ INDI\n\
        1 SOUR @SOURCE1@\n\
        2 PAGE 42\n\
        2 DATA\n\
        3 DATE BEF 1 JAN 1900\n\
        3 TEXT a sample text\n\
        4 CONT Sample text continued here. The word TE\n\
        4 CONC ST should not be broken!\n\
        0 TRLR";
    let mut ged = Gedcom::new(sample.chars()).unwrap();
    let data = ged.parse_data().unwrap();
    let citation_data = data.individuals[0].source[0].data.as_ref().unwrap();
    assert_eq!(
        citation_data.text.as_ref().unwrap().value.as_ref().unwrap(),
        "a sample text\nSample text continued here. The word TEST should not be broken!"
    );
}

#[test]
fn test_parse_certainty_assessment_record() {
    let sample = "\
        0 HEAD\n\
        1 GEDC\n\
        2 VERS 5.5\n\
        2 FORM LINEAGE-LINKED\n\
        0 @PERSON1@ INDI\n\
        1 SOUR @SOURCE1@\n\
        2 PAGE 42\n\
        2 QUAY 1\n\
        0 TRLR";
    let mut ged = Gedcom::new(sample.chars()).unwrap();
    let data = ged.parse_data().unwrap();
    let quay = data.individuals[0].source[0].certainty_assessment.as_ref().unwrap();
    assert_eq!(quay.get_int().unwrap(), 1);
}

#[test]
fn test_parse_submission_record() {
    let sample = "\
       0 HEAD\n\
       1 GEDC\n\
       2 VERS 5.5\n\
       0 @SUBMISSION@ SUBN\n\
       1 SUBM @SUBMITTER@\n\
       1 FAMF NameOfFamilyFile\n\
       1 TEMP LDS\n\
       1 ANCE 1\n\
       1 DESC 1\n\
       1 ORDI LDS\n\
       1 RIN 12345\n\
       1 CHAN\n\
       2 DATE 1 APR 1998\n\
       3 TIME 12:34:56.789\n\
       1 _MYCUSTOMTAG Some custom data here\n\
       1 _ANOTHER_TAG Another piece of custom data\n\
       0 TRLR";
    let mut doc = Gedcom::new(sample.chars()).unwrap();
    let data = doc.parse_data().unwrap();
    let mut submissions = data.submissions;
    assert_eq!(submissions.len() > 0, true);
    let first_submission = submissions.remove(0);
    let Submission {
        submitter_ref,
        family_file_name,
        temple_code,
        custom,
        ancestor_generations,
        descendant_generations,
        ordinance_process_flag,
        automated_record_id,
        change_date,
        ..
    } = first_submission;
    assert_eq!(submitter_ref.unwrap(), "@SUBMITTER@");
    assert_eq!(family_file_name.unwrap(), "NameOfFamilyFile");
    assert_eq!(temple_code.unwrap(), "LDS");
    assert_eq!(ancestor_generations.unwrap(), "1");
    assert_eq!(descendant_generations.unwrap(), "1");
    assert_eq!(ordinance_process_flag.unwrap(), "LDS");
    assert_eq!(automated_record_id.unwrap(), "12345");
    let date = change_date.unwrap().date.unwrap();
    assert_eq!(date.value.unwrap(), "1 APR 1998");
    assert_eq!(date.time.unwrap(), "12:34:56.789");
    assert_eq!(custom[0].tag, "_MYCUSTOMTAG");
    assert_eq!(custom[0].value.as_ref().unwrap(), "Some custom data here");
    assert_eq!(custom[0].children.len() < 1, true);
    assert_eq!(custom[1].tag, "_ANOTHER_TAG");
    assert_eq!(custom[1].value.as_ref().unwrap(), "Another piece of custom data");
    assert_eq!(custom[1].children.len() < 1, true);
}

#[test]
fn test_event_dates_and_places() {
    let sample = "\
        0 HEAD\n\
        1 GEDC\n\
        2 VERS 5.5\n\
        0 @I1@ INDI\n\
        1 BIRT\n\
        2 DATE 1 JAN 1900\n\
        2 PLAC Paris, France\n\
        1 RESI\n\
        2 PLAC\n\
        3 FORM City\n\
        1 DEAT\n\
        2 PLAC Lyon\n\
        1 BURI\n\
        2 DATE 5 MAR 1970\n\
        0 TRLR";
    let mut doc = Gedcom::new(sample.chars()).unwrap();
    let data = doc.parse_data().unwrap();
    let person = &data.individuals[0];

    let dates = person.dates();
    assert_eq!(dates.len(), 2);
    assert_eq!(dates[0].value.as_deref(), Some("1 JAN 1900"));
    assert_eq!(dates[1].value.as_deref(), Some("5 MAR 1970"));

    let places = person.places();
    assert_eq!(places.len(), 3);
    assert_eq!(places[0].value.as_deref(), Some("Paris, France"));
    assert_eq!(places[1].value.as_deref(), Some(""));
    assert_eq!(places[1].form.as_deref(), Some("City"));
    assert_eq!(places[2].value.as_deref(), Some("Lyon"));

    assert_eq!(
        person.place_names(),
        vec!["Paris, France".to_string(), String::new(), "Lyon".to_string()]
    );
}

#[test]
fn test_records_are_the_lines_at_level_zero() {
    let sample = "\
        0 HEAD\n\
        1 GEDC\n\
        2 VERS 5.5\n\
        0 @F1@ FAM\n\
        1 HUSB @I1@\n\
        0 @I1@ INDI\n\
        1 NAME John /Doe/\n\
        0 _CUSTOM value\n\
        1 _SUB x\n\
        0 @I2@ INDI\n\
        0 @S1@ SOUR\n\
        1 TITL A book\n\
        0 TRLR";
    let mut doc = Gedcom::new(sample.chars()).unwrap();
    let data = doc.parse_data().unwrap();
    assert!(data.header.is_some());
    assert_eq!(data.families.len(), 1);
    assert_eq!(data.families[0].xref.as_deref(), Some("@F1@"));
    assert_eq!(data.individuals.len(), 2);
    assert_eq!(data.individuals[0].xref.as_deref(), Some("@I1@"));
    assert_eq!(data.individuals[1].xref.as_deref(), Some("@I2@"));
    assert_eq!(data.custom_data.len(), 1);
    assert_eq!(data.custom_data[0].tag, "_CUSTOM");
    assert_eq!(data.sources.len(), 1);
    assert_eq!(data.sources[0].xref.as_deref(), Some("@S1@"));
}

#[test]
fn test_source_event_is_read_from_the_next_line() {
    // The event of an EVEN line is read from the line after it, here a line
    // at level 0, which the event takes as its note.
    let sample = "\
        0 HEAD\n\
        1 GEDC\n\
        2 VERS 5.5\n\
        0 @S1@ SOUR\n\
        1 DATA\n\
        2 EVEN BIRT\n\
        0 NOTE stray\n\
        0 @I1@ INDI\n\
        0 TRLR";
    let mut doc = Gedcom::new(sample.chars()).unwrap();
    let data = doc.parse_data().unwrap();
    assert_eq!(data.sources.len(), 1);
    assert_eq!(data.individuals.len(), 1);
    assert_eq!(data.individuals[0].xref.as_deref(), Some("@I1@"));
}
