use ged_io::parser::Parser;
use ged_io::tokenizer::Tokenizer;
use ged_io::types::address::Address;
use ged_io::types::corporation::Corporation;
use ged_io::types::date::Date;
use ged_io::types::family::Family;
use ged_io::types::gedcom7::{Crop, SortDate};
use ged_io::types::individual::name::NameVariation;
use ged_io::types::note::Note;
use ged_io::types::place::MapCoordinates;
use ged_io::types::source::citation::Citation;
use ged_io::types::source::text::Text;
use ged_io::{GedcomBuilder, GedcomError};

/// A tokenizer standing at the tag of the first line of `text`.
fn at_first_tag(text: &str) -> Tokenizer {
    let mut t = Tokenizer::from_str(text);
    t.next_token().unwrap();
    t.next_token().unwrap();
    t
}

#[test]
fn test_address_text_and_pieces() {
    let mut t = at_first_tag(
        "1 ADDR 123 Main St\n2 CONT Apt 4\n2 CONC Back\n2 CITY Springfield\n2 POST 12345\n2 CTRY USA\n1 NOTE x\n",
    );
    let a = Address::new(&mut t, 1).unwrap();
    assert_eq!(a.value.as_deref(), Some("123 Main St\nApt 4\nBack"));
    assert_eq!(a.city.as_deref(), Some("Springfield"));
    assert_eq!(a.post.as_deref(), Some("12345"));
    assert_eq!(a.country.as_deref(), Some("USA"));
    assert_eq!(a.adr1, None);
}

#[test]
fn test_address_without_text() {
    let mut t = at_first_tag("1 ADDR\n2 CITY Lyon\n1 NOTE x\n");
    let a = Address::new(&mut t, 1).unwrap();
    assert_eq!(a.value, None);
    assert_eq!(a.city.as_deref(), Some("Lyon"));
}

#[test]
fn test_text_joined_over_lines() {
    let mut t = at_first_tag("3 TEXT a\n4 CONC b\n4 CONT c\n3 PAGE 1\n");
    let x = Text::new(&mut t, 3).unwrap();
    assert_eq!(x.value.as_deref(), Some("ab\nc"));
}

#[test]
fn test_name_variation_passes_over_other_tags() {
    let mut t = at_first_tag("2 FONE spelled\n3 TYPE kana\n3 GIVN g\n3 ZZZZ ignored\n3 NICK n\n2 SURN x\n");
    let v = NameVariation::new(&mut t, 2).unwrap();
    assert_eq!(v.value, "spelled");
    assert_eq!(v.variation_type.as_deref(), Some("kana"));
    assert_eq!(v.given.as_deref(), Some("g"));
    assert_eq!(v.nickname.as_deref(), Some("n"));
    assert_eq!(v.surname, None);
}

#[test]
fn test_map_coordinates_latest_values() {
    let mut t = at_first_tag("3 MAP\n4 LATI N1\n4 LONG W2\n4 LATI S3\n3 NOTE x\n");
    let m = MapCoordinates::new(&mut t, 3).unwrap();
    assert_eq!(m.latitude.as_deref(), Some("S3"));
    assert_eq!(m.longitude.as_deref(), Some("W2"));
}

#[test]
fn test_sort_date_time_and_phrase() {
    let mut t = at_first_tag("2 SDATE 1 JAN 2000\n3 TIME 12:00\n3 PHRASE about noon\n2 NOTE x\n");
    let d = SortDate::new(&mut t, 2).unwrap();
    assert_eq!(d.value.as_deref(), Some("1 JAN 2000"));
    assert_eq!(d.time.as_deref(), Some("12:00"));
    assert_eq!(d.phrase.as_deref(), Some("about noon"));
}

#[test]
fn test_date_refuses_other_tags() {
    let mut t = at_first_tag("2 DATE 1 JAN 2000\n3 ZZZ x\n2 NOTE y\n");
    match Date::new(&mut t, 2) {
        Err(GedcomError::ParseError { message, .. }) => assert_eq!(message, "Unhandled Date Tag: ZZZ"),
        other => panic!("unexpected result: {:?}", other.map(|d| d.value)),
    }
}

#[test]
fn test_corporation_refuses_unknown_tag() {
    let mut t = at_first_tag("2 CORP Acme\n3 PHON 555\n3 ZZZ x\n2 NOTE y\n");
    match Corporation::new(&mut t, 2) {
        Err(GedcomError::ParseError { message, .. }) => assert_eq!(message, "Unhandled Corporation Tag: ZZZ"),
        other => panic!("unexpected result: {:?}", other.map(|c| c.value)),
    }
}

#[test]
fn test_corporation_reads_its_lines() {
    let mut t = at_first_tag("2 CORP Acme\n3 PHON 555\n3 WWW example.org\n2 NOTE y\n");
    let c = Corporation::new(&mut t, 2).unwrap();
    assert_eq!(c.value.as_deref(), Some("Acme"));
    assert_eq!(c.phone.as_deref(), Some("555"));
    assert_eq!(c.website.as_deref(), Some("example.org"));
}

#[test]
fn test_note_refuses_unknown_tag() {
    let mut t = at_first_tag("1 NOTE hello\n2 ZZZ x\n1 NAME y\n");
    match Note::new(&mut t, 1) {
        Err(GedcomError::ParseError { message, .. }) => assert_eq!(message, "Unhandled Note Tag: ZZZ"),
        other => panic!("unexpected result: {:?}", other.map(|n| n.value)),
    }
}

#[test]
fn test_citation_passes_over_unknown_tag() {
    let mut t = at_first_tag("1 SOUR @S1@\n2 ZZZ x\n2 PAGE 12\n1 NAME y\n");
    let c = Citation::new(&mut t, 1).unwrap();
    assert_eq!(c.xref, "@S1@");
    assert_eq!(c.page.as_deref(), Some("12"));
}

#[test]
fn test_crop_refuses_a_value_that_is_no_number() {
    let mut t = at_first_tag("3 CROP\n4 TOP abc\n3 TITL x\n");
    assert!(matches!(Crop::new(&mut t, 3), Err(GedcomError::InvalidValueFormat { .. })));
}

#[test]
fn test_family_with_two_first_partners_fails() {
    let text = "0 HEAD\n0 @F1@ FAM\n1 HUSB @I1@\n1 HUSB @I2@\n0 TRLR\n";
    match GedcomBuilder::new().build_from_str(text) {
        Err(GedcomError::ParseError { message, .. }) => assert_eq!(message, "First individual of family already exists."),
        other => panic!("unexpected result: {:?}", other.is_ok()),
    }
}

#[test]
fn test_family_with_one_partner_of_each_succeeds() {
    let text = "0 HEAD\n0 @F1@ FAM\n1 HUSB @I1@\n1 WIFE @I2@\n1 CHIL @I3@\n0 TRLR\n";
    let data = GedcomBuilder::new().build_from_str(text).unwrap();
    assert_eq!(data.families.len(), 1);
    assert_eq!(data.families[0].individual1.as_deref(), Some("@I1@"));
    assert_eq!(data.families[0].individual2.as_deref(), Some("@I2@"));
}

/// A tokenizer standing at the tag of a record line with an xref.
fn at_record_tag(text: &str) -> Tokenizer {
    let mut t = Tokenizer::from_str(text);
    t.next_token().unwrap();
    t.next_token().unwrap();
    t.next_token().unwrap();
    t
}

#[test]
fn test_family_parse_refuses_a_second_first_partner() {
    let mut t = at_record_tag("0 @F1@ FAM\n1 HUSB @I2@\n0 TRLR\n");
    let mut f = Family::default();
    f.individual1 = Some("@I1@".to_string());
    match f.parse(&mut t, 0) {
        Err(GedcomError::ParseError { message, .. }) => assert_eq!(message, "First individual of family already exists."),
        other => panic!("unexpected result: {:?}", other.is_ok()),
    }
}

#[test]
fn test_family_parse_adds_to_what_it_holds() {
    let mut t = at_record_tag("0 @F1@ FAM\n1 WIFE @I2@\n1 CHIL @I3@\n0 TRLR\n");
    let mut f = Family::default();
    f.individual1 = Some("@I1@".to_string());
    f.parse(&mut t, 0).unwrap();
    assert_eq!(f.individual1.as_deref(), Some("@I1@"));
    assert_eq!(f.individual2.as_deref(), Some("@I2@"));
    assert_eq!(f.children, vec!["@I3@".to_string()]);
}
