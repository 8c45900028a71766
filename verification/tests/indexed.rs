use ged_io::indexed::IndexedGedcomData;
use ged_io::types::GedcomData;
use ged_io::GedcomBuilder;

fn create_test_data() -> GedcomData {
    let source = "0 HEAD\n\
        1 GEDC\n\
        2 VERS 5.5\n\
        0 @I1@ INDI\n\
        1 NAME John /Doe/\n\
        1 SEX M\n\
        0 @I2@ INDI\n\
        1 NAME Jane /Doe/\n\
        1 SEX F\n\
        0 @I3@ INDI\n\
        1 NAME Jimmy /Doe/\n\
        0 @F1@ FAM\n\
        1 HUSB @I1@\n\
        1 WIFE @I2@\n\
        1 CHIL @I3@\n\
        0 @S1@ SOUR\n\
        1 TITL Birth Records\n\
        0 @R1@ REPO\n\
        1 NAME Library\n\
        0 TRLR";
    GedcomBuilder::new().build_from_str(source).unwrap()
}

#[test]
fn test_indexed_creation() {
    let data = create_test_data();
    let indexed = IndexedGedcomData::from(data);

    assert_eq!(indexed.individual_count(), 3);
    assert_eq!(indexed.family_count(), 1);
}

#[test]
fn test_find_individual() {
    let data = create_test_data();
    let indexed = IndexedGedcomData::from(data);

    let john = indexed.find_individual("@I1@");
    assert!(john.is_some());
    assert_eq!(john.unwrap().full_name(), Some("John Doe".to_string()));

    let none = indexed.find_individual("@I999@");
    assert!(none.is_none());
}

#[test]
fn test_find_family() {
    let data = create_test_data();
    let indexed = IndexedGedcomData::from(data);

    let family = indexed.find_family("@F1@");
    assert!(family.is_some());
    assert_eq!(family.unwrap().individual1, Some("@I1@".to_string()));
}

#[test]
fn test_find_source() {
    let data = create_test_data();
    let indexed = IndexedGedcomData::from(data);

    let source = indexed.find_source("@S1@");
    assert!(source.is_some());
}

#[test]
fn test_find_repository() {
    let data = create_test_data();
    let indexed = IndexedGedcomData::from(data);

    let repo = indexed.find_repository("@R1@");
    assert!(repo.is_some());
}

#[test]
fn test_get_children() {
    let data = create_test_data();
    let indexed = IndexedGedcomData::from(data);

    let family = indexed.find_family("@F1@").unwrap();
    let children = indexed.get_children(family);

    assert_eq!(children.len(), 1);
    assert_eq!(children[0].full_name(), Some("Jimmy Doe".to_string()));
}

#[test]
fn test_get_parents() {
    let data = create_test_data();
    let indexed = IndexedGedcomData::from(data);

    let family = indexed.find_family("@F1@").unwrap();
    let parents = indexed.get_parents(family);

    assert_eq!(parents.len(), 2);
}

#[test]
fn test_get_spouse() {
    let data = create_test_data();
    let indexed = IndexedGedcomData::from(data);

    let family = indexed.find_family("@F1@").unwrap();
    let spouse = indexed.get_spouse("@I1@", family);

    assert!(spouse.is_some());
    assert_eq!(spouse.unwrap().full_name(), Some("Jane Doe".to_string()));
}

#[test]
fn test_index_stats() {
    let data = create_test_data();
    let indexed = IndexedGedcomData::from(data);

    let stats = indexed.index_stats();
    assert_eq!(stats.individual_index_size, 3);
    assert_eq!(stats.family_index_size, 1);
    assert_eq!(stats.source_index_size, 1);
    assert_eq!(stats.repository_index_size, 1);
    assert_eq!(stats.total(), 6);
}

#[test]
fn test_into_inner() {
    let data = create_test_data();
    let indexed = IndexedGedcomData::from(data);
    let recovered = indexed.into_inner();

    assert_eq!(recovered.individuals.len(), 3);
}

#[test]
fn test_data_reference() {
    let data = create_test_data();
    let indexed = IndexedGedcomData::from(data);
    let data_ref = indexed.data();

    assert_eq!(data_ref.individuals.len(), 3);
}

#[test]
fn index_keeps_last_record_of_a_repeated_xref() {
    let source = "0 HEAD\n0 @I1@ INDI\n1 NAME First /One/\n0 @I1@ INDI\n1 NAME Second /One/\n0 @I2@ INDI\n0 TRLR";
    let data = GedcomBuilder::new().build_from_str(source).unwrap();
    assert_eq!(
        data.find_individual("@I1@").unwrap().full_name(),
        Some("First One".to_string())
    );
    let indexed = IndexedGedcomData::new(data);
    assert_eq!(
        indexed.find_individual("@I1@").unwrap().full_name(),
        Some("Second One".to_string())
    );
    let stats = indexed.index_stats();
    assert_eq!(stats.individual_index_size, 2);
    assert_eq!(stats.total(), 2);
}

#[test]
fn index_agrees_with_search_when_xrefs_are_unique() {
    let data = create_test_data();
    let expected: Vec<Option<String>> = ["@I1@", "@I2@", "@I3@", "@I4@"]
        .iter()
        .map(|x| data.find_individual(x).and_then(|i| i.full_name()))
        .collect();
    let indexed = IndexedGedcomData::new(data);
    let found: Vec<Option<String>> = ["@I1@", "@I2@", "@I3@", "@I4@"]
        .iter()
        .map(|x| indexed.find_individual(x).and_then(|i| i.full_name()))
        .collect();
    assert_eq!(expected, found);
    assert!(indexed.find_submitter("@U1@").is_none());
    assert!(indexed.find_multimedia("@M1@").is_none());
}
