use std::io::{BufRead, BufReader};

use ged_io::stream::{GedcomRecord, LineRead, StreamState, StreamStep};
use ged_io::tokenizer::StreamTokenizer;
use ged_io::types::GedcomData;
use ged_io::GedcomError;

fn next_line<R: BufRead>(reader: &mut R) -> LineRead {
    let mut line = String::new();
    match reader.read_line(&mut line) {
        Ok(0) => LineRead::End,
        Ok(_) => LineRead::Line(line),
        Err(e) => LineRead::Failed {
            invalid_data: e.kind() == std::io::ErrorKind::InvalidData,
            message: e.to_string(),
        },
    }
}

fn open_stream<R: BufRead>(mut reader: R) -> Result<(R, StreamState), GedcomError> {
    let first = next_line(&mut reader);
    let state = StreamState::start(first)?;
    Ok((reader, state))
}

fn next_record<R: BufRead>(
    reader: &mut R,
    state: &mut StreamState,
) -> Option<Result<GedcomRecord, GedcomError>> {
    let mut step = state.begin_next();
    loop {
        match step {
            StreamStep::Done => return None,
            StreamStep::Yield(r) => return Some(r),
            StreamStep::NeedLine => {
                let read = next_line(reader);
                step = state.feed(read);
            }
        }
    }
}

fn all_records(text: &str) -> Result<Vec<GedcomRecord>, GedcomError> {
    let (mut reader, mut state) = open_stream(BufReader::new(text.as_bytes()))?;
    let mut out = Vec::new();
    while let Some(r) = next_record(&mut reader, &mut state) {
        out.push(r?);
    }
    Ok(out)
}

#[test]
fn test_stream_parser_basic() {
    let gedcom = "0 HEAD\n1 GEDC\n2 VERS 5.5\n0 @I1@ INDI\n1 NAME John /Doe/\n0 TRLR";
    let records = all_records(gedcom).unwrap();

    assert_eq!(records.len(), 2);
    assert!(records[0].is_header());
    assert!(records[1].is_individual());
}

#[test]
fn test_stream_parser_multiple_records() {
    let gedcom = "\
        0 HEAD\n\
        1 GEDC\n\
        2 VERS 5.5\n\
        0 @I1@ INDI\n\
        1 NAME John /Doe/\n\
        0 @I2@ INDI\n\
        1 NAME Jane /Doe/\n\
        0 @F1@ FAM\n\
        1 HUSB @I1@\n\
        1 WIFE @I2@\n\
        0 TRLR";
    let records = all_records(gedcom).unwrap();

    assert_eq!(records.len(), 4);
    assert!(records[0].is_header());
    assert!(records[1].is_individual());
    assert!(records[2].is_individual());
    assert!(records[3].is_family());

    let indi1 = records[1].as_individual().unwrap();
    assert_eq!(indi1.xref.as_deref(), Some("@I1@"));

    let indi2 = records[2].as_individual().unwrap();
    assert_eq!(indi2.xref.as_deref(), Some("@I2@"));
}

#[test]
fn test_stream_parser_collect_to_gedcom_data() {
    let gedcom = "\
        0 HEAD\n\
        1 GEDC\n\
        2 VERS 5.5\n\
        0 @I1@ INDI\n\
        1 NAME John /Doe/\n\
        0 @F1@ FAM\n\
        0 TRLR";
    let data = GedcomData::from_records(all_records(gedcom).unwrap());

    assert!(data.header.is_some());
    assert_eq!(data.individuals.len(), 1);
    assert_eq!(data.families.len(), 1);
}

#[test]
fn test_stream_parser_utf16_rejected() {
    let bytes: &[u8] = &[0xFF, 0xFE, b'0', 0, b' ', 0];
    let reader = BufReader::new(bytes);
    let result = open_stream(reader);

    assert!(result.is_err());
    if let Err(GedcomError::EncodingError(msg)) = result {
        assert!(
            msg.contains("UTF-8") || msg.contains("UTF-16"),
            "Expected encoding error message, got: {}",
            msg
        );
    } else {
        panic!("Expected EncodingError");
    }
}

#[test]
fn test_stream_parser_missing_trlr() {
    let gedcom = "0 HEAD\n1 GEDC\n2 VERS 5.5\n0 @I1@ INDI\n1 NAME John /Doe/\n";
    let records = all_records(gedcom).unwrap();

    assert_eq!(records.len(), 2);
}

#[test]
fn test_stream_parser_with_sources() {
    let gedcom = "\
        0 HEAD\n\
        1 GEDC\n\
        2 VERS 5.5\n\
        0 @S1@ SOUR\n\
        1 TITL Birth Certificate\n\
        0 @R1@ REPO\n\
        1 NAME Local Archives\n\
        0 TRLR";
    let records = all_records(gedcom).unwrap();

    assert_eq!(records.len(), 3);
    assert!(records[1].as_source().is_some());
    assert!(records[2].as_repository().is_some());
}

#[test]
fn test_gedcom_record_conversion_methods() {
    let gedcom = "0 HEAD\n1 GEDC\n2 VERS 5.5\n0 @I1@ INDI\n0 TRLR";
    let records = all_records(gedcom).unwrap();

    assert!(records[0].as_header().is_some());
    assert!(records[0].as_individual().is_none());
    assert!(records[1].as_individual().is_some());
    assert!(records[1].as_header().is_none());

    assert!(records[0].is_header());
    assert!(!records[0].is_individual());
    assert!(records[1].is_individual());
    assert!(!records[1].is_header());
}

#[test]
fn test_stream_parser_with_cont_conc() {
    let gedcom = "\
        0 HEAD\n\
        1 GEDC\n\
        2 VERS 5.5\n\
        0 @I1@ INDI\n\
        1 NAME John /Doe/\n\
        1 NOTE This is a long note that spans\n\
        2 CONT multiple lines using CONT\n\
        2 CONC and CONC tags.\n\
        0 TRLR";
    let records = all_records(gedcom).unwrap();

    assert_eq!(records.len(), 2);
    let indi = records[1].as_individual().unwrap();
    assert!(indi.note.is_some());
}

#[test]
fn test_stream_parser_empty_file() {
    let records = all_records("").unwrap();

    assert_eq!(records.len(), 0);
}

#[test]
fn test_stream_parser_only_trlr() {
    let records = all_records("0 TRLR\n").unwrap();

    assert_eq!(records.len(), 0);
}

#[test]
fn test_stream_parser_custom_tag() {
    let gedcom = "\
        0 HEAD\n\
        1 GEDC\n\
        2 VERS 5.5\n\
        0 _CUSTOM MyValue\n\
        1 _SUB SubValue\n\
        0 TRLR";
    let records = all_records(gedcom).unwrap();

    assert_eq!(records.len(), 2);
    if let GedcomRecord::CustomData(c) = &records[1] {
        assert_eq!(c.tag, "_CUSTOM");
        assert_eq!(c.value.as_deref(), Some("MyValue"));
    } else {
        panic!("Expected CustomData");
    }
}

#[test]
fn stream_read_failure_is_io_error() {
    let first = LineRead::Failed { invalid_data: false, message: "disk gone".to_string() };
    match StreamState::start(first) {
        Err(GedcomError::IoError(m)) => assert_eq!(m, "disk gone"),
        _ => panic!("expected an I/O error"),
    }
}

#[test]
fn stream_drops_leading_byte_order_mark() {
    let records = all_records("\u{FEFF}0 HEAD\n1 GEDC\n2 VERS 5.5\n0 TRLR\n").unwrap();
    assert_eq!(records.len(), 1);
    assert!(records[0].is_header());
}

#[test]
fn stream_stops_at_trailer_with_text_after() {
    let records = all_records("0 HEAD\n0 TRLR extra\n0 @I1@ INDI\n").unwrap();
    assert_eq!(records.len(), 1);
}

fn stream_tokens(text: &str) -> Result<Vec<ged_io::tokenizer::Token>, GedcomError> {
    let mut reader = BufReader::new(text.as_bytes());
    let mut t = StreamTokenizer::start(next_line(&mut reader))?;
    let mut out = Vec::new();
    loop {
        while t.needs_line() {
            let read = next_line(&mut reader);
            t.feed(read)?;
        }
        t.next_token()?;
        out.push(t.current_token().clone());
        if t.done() {
            return Ok(out);
        }
    }
}

fn whole_tokens(text: &str) -> Vec<ged_io::tokenizer::Token> {
    let mut t = ged_io::tokenizer::Tokenizer::from_str(text);
    let mut out = Vec::new();
    loop {
        t.next_token().unwrap();
        out.push(t.current_token().clone());
        if t.done() {
            return out;
        }
    }
}

#[test]
fn stream_tokenizer_gives_the_tokens_of_the_whole_text() {
    let text = "0 HEAD\n1 GEDC\n2 VERS 5.5\n0 @I1@ INDI\n1 NAME John /Doe/\n1 _CUSTOM x\n0 TRLR\n";
    let streamed = stream_tokens(text).unwrap();
    assert_eq!(streamed, whole_tokens(text));
    assert_eq!(streamed[0], ged_io::tokenizer::Token::Level(0));
    assert_eq!(streamed[1], ged_io::tokenizer::Token::Tag("HEAD".to_string()));
    assert_eq!(*streamed.last().unwrap(), ged_io::tokenizer::Token::EOF);
}

#[test]
fn stream_tokenizer_takes_values_and_continued_text() {
    let text = "0 @N1@ NOTE first\n1 CONT second\n1 CONC  third\n0 TRLR\n";
    let mut reader = BufReader::new(text.as_bytes());
    let mut t = StreamTokenizer::start(next_line(&mut reader)).unwrap();
    while t.needs_line() {
        let read = next_line(&mut reader);
        t.feed(read).unwrap();
    }
    t.next_token().unwrap();
    while t.needs_line() {
        let read = next_line(&mut reader);
        t.feed(read).unwrap();
    }
    t.next_token().unwrap();
    while t.needs_line() {
        let read = next_line(&mut reader);
        t.feed(read).unwrap();
    }
    t.next_token().unwrap();
    assert_eq!(*t.current_token(), ged_io::tokenizer::Token::Tag("NOTE".to_string()));
    while !t.input_has_ended() {
        let read = next_line(&mut reader);
        t.feed(read).unwrap();
    }
    assert_eq!(t.take_continued_text(0).unwrap(), "first\nsecondthird");
    assert_eq!(*t.current_token(), ged_io::tokenizer::Token::Level(0));
}
