use taotie_parsers::artifact::{link_plain_lines, ParserOutcome};
use taotie_parsers::{FakeParser, ParserError, ParserInput};

fn input(path: &str, artifact_type: &str, bytes: &[u8]) -> ParserInput {
    ParserInput {
        case_id: "case_1".into(),
        source_file_id: "file_1".into(),
        object_ref: "raw://sha256/demo".into(),
        original_path: path.into(),
        artifact_type: artifact_type.into(),
        parse_run_id: "parse_1".into(),
        bytes: bytes.to_vec(),
    }
}

#[test]
fn fake_parser_emits_lineage_and_raw_records() {
    let parser = FakeParser;
    let outcome = parser.parse(input("demo.log", "text_log", b"INFO start\nERROR stop\n")).unwrap();
    let ParserOutcome::Parsed(parsed) = outcome else {
        panic!("expected parsed outcome");
    };
    assert_eq!(parsed.events.len(), 2);
    assert_eq!(parsed.raw_records.len(), 2);
    assert_eq!(parsed.events[1].severity, "high");
    assert_eq!(parsed.events[0].line_number, parsed.raw_records[0].line_number);
}

#[test]
fn fake_parser_reports_unsupported() {
    let parser = FakeParser;
    let outcome = parser.parse(input("demo.evtx", "evtx", b"ignored")).unwrap();
    assert!(matches!(outcome, ParserOutcome::Unsupported { .. }));
}

#[test]
fn plain_lines_skip_blanks_and_keep_numbers() {
    let long = "x".repeat(130);
    let text = format!("\n  \nWARN disk\r\n{long}\n");
    let outcome = FakeParser.parse(input("a.TXT", "text_log", text.as_bytes())).unwrap();
    let ParserOutcome::Parsed(parsed) = outcome else {
        panic!("expected parsed outcome");
    };
    assert_eq!(parsed.events.len(), 2);
    assert_eq!(parsed.events[0].line_number, 1);
    assert_eq!(parsed.events[0].severity, "medium");
    assert_eq!(parsed.events[0].message_full, "WARN disk");
    assert_eq!(parsed.events[1].line_number, 2);
    assert_eq!(parsed.events[1].severity, "info");
    assert_eq!(parsed.events[1].message_short, "x".repeat(120));
    assert_eq!(parsed.events[1].message_full, long);
    assert_eq!(parsed.raw_records[1].line, long);
}

#[test]
fn plain_parser_failures() {
    match FakeParser.parse(input("a.fake", "x", b"  \n\n")) {
        Err(ParserError::Failed(m)) => assert_eq!(m, "fake parser found no non-empty lines"),
        _ => panic!("expected failure"),
    }
    match FakeParser.parse(input("a.log", "x", &[0xff, 0xfe])) {
        Err(ParserError::Failed(m)) => assert!(m.starts_with("input is not utf-8: ")),
        _ => panic!("expected failure"),
    }
    match FakeParser.parse(input("a.evtx", "x", b"ok")) {
        Ok(ParserOutcome::Unsupported { reason }) => {
            assert_eq!(reason, "fake parser supports only .txt, .log, and .fake files")
        }
        _ => panic!("expected unsupported"),
    }
}

#[test]
fn plain_lines_linked_by_ids_and_time() {
    let outcome = FakeParser.parse(input("demo.log", "text_log", b"INFO start\nERROR stop\n")).unwrap();
    let ParserOutcome::Parsed(parsed) = outcome else {
        panic!("expected parsed outcome");
    };
    let ids = vec![
        ("event_a".to_string(), "rawrec_a".to_string()),
        ("event_b".to_string(), "rawrec_b".to_string()),
    ];
    let links = link_plain_lines(&parsed, &ids, 0, 0).expect("links");
    assert_eq!(links.len(), 2);
    assert_eq!(links[1].line_number, 2);
    assert_eq!(links[1].event_id, "event_b");
    assert_eq!(links[1].raw_record_ref, "rawrec_b");
    assert_eq!(links[0].event_time, "1970-01-01T00:00:00+00:00");
    assert_eq!(links[1].event_time, "1970-01-01T00:00:01+00:00");
    assert!(link_plain_lines(&parsed, &ids[..1], 0, 0).is_none());
    assert!(link_plain_lines(&parsed, &ids, i64::MAX, 0).is_none());
}
