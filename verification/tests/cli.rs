use ged_io::cli::{
    choose_action, extract_first_last_name, individuals_matching, parse_args, show_individual,
    CliAction,
};
use ged_io::Gedcom;

fn argv(items: &[&str]) -> Vec<String> {
    items.iter().map(|s| s.to_string()).collect()
}

#[test]
fn cli_parses_options_and_file() {
    let args = parse_args(&argv(&["ged_io", "--individual-lastname", "doe", "family.ged"])).unwrap();
    assert_eq!(args.filename.as_deref(), Some("family.ged"));
    assert_eq!(args.individual_lastname.as_deref(), Some("doe"));
    assert!(args.individual_firstname.is_none());
    assert!(!args.help);
    let args = parse_args(&argv(&["ged_io", "-h"])).unwrap();
    assert!(args.help);
}

#[test]
fn cli_usage_errors() {
    assert_eq!(
        parse_args(&argv(&["ged_io", "--individual"])).unwrap_err(),
        "--individual expects an XREF"
    );
    assert_eq!(parse_args(&argv(&["ged_io", "--bogus"])).unwrap_err(), "Unknown option: --bogus");
    assert_eq!(
        parse_args(&argv(&["ged_io", "a.ged", "b.ged"])).unwrap_err(),
        "Found more args than expected: [\"a.ged\", \"b.ged\"]\nHint: this tool expects exactly one .ged file path (quote it if it contains spaces), for example:\nged_io --individual-lastname \"/path/with spaces/family.ged\""
    );
}

#[test]
fn cli_first_and_last_names() {
    assert_eq!(
        extract_first_last_name("John Paul /Doe/"),
        (Some("John Paul".to_string()), Some("Doe".to_string()))
    );
    assert_eq!(extract_first_last_name("Cher"), (None, Some("Cher".to_string())));
    assert_eq!(extract_first_last_name("  / "), (None, None));
}

#[test]
fn cli_chooses_action() {
    let help = parse_args(&argv(&["ged_io", "--help"])).unwrap();
    assert!(matches!(choose_action(&help), Ok(CliAction::Help)));
    let none = parse_args(&argv(&["ged_io"])).unwrap();
    assert_eq!(choose_action(&none).err().unwrap(), "Missing filename.");
    let show = parse_args(&argv(&["ged_io", "--individual", "@I1@", "f.ged"])).unwrap();
    match choose_action(&show) {
        Ok(CliAction::Show { filename, xref }) => {
            assert_eq!(filename, "f.ged");
            assert_eq!(xref, "@I1@");
        }
        _ => panic!("expected to show an individual"),
    }
    let stats = parse_args(&argv(&["ged_io", "f.ged"])).unwrap();
    assert!(matches!(choose_action(&stats), Ok(CliAction::Stats { .. })));
}

#[test]
fn cli_filters_and_shows_individuals() {
    let text = "0 HEAD\n0 @I1@ INDI\n1 NAME John /Doe/\n0 @I2@ INDI\n1 NAME Jane /Smith/\n0 @I3@ INDI\n0 TRLR";
    let data = Gedcom::new(text.chars()).unwrap().parse_data().unwrap();
    let found = individuals_matching(&data, &Some("DO".to_string()), &None);
    assert_eq!(found.len(), 1);
    assert_eq!(found[0].xref.as_deref(), Some("@I1@"));
    let found = individuals_matching(&data, &None, &Some("ja".to_string()));
    assert_eq!(found.len(), 1);
    assert_eq!(found[0].xref.as_deref(), Some("@I2@"));
    let found = individuals_matching(&data, &Some("unknown".to_string()), &None);
    assert_eq!(found.len(), 1);
    assert_eq!(found[0].xref.as_deref(), Some("@I3@"));
    assert_eq!(show_individual(&data, "@I2@").unwrap(), "@I2@ Jane Smith");
    assert_eq!(show_individual(&data, "@I9@").unwrap_err(), "Individual not found: @I9@");
}
