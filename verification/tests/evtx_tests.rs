use taotie_parsers::evtx_record::{evtx_record_summary, evtx_tally, parse_evtx_bytes};
use taotie_parsers::ParserError;

const LOGON: &str = "<Event><System><Provider Name=\"Microsoft-Windows-Security-Auditing\"/>\
<EventID>4624</EventID><TimeCreated SystemTime=\"2021-03-04T05:06:07.123Z\"/>\
<EventRecordID>99</EventRecordID><Channel>Security</Channel><Computer>HOST1</Computer></System>\
<EventData><Data Name=\"TargetUserName\">alice</Data><Data Name=\"IpAddress\">10.0.0.5</Data>\
<Data Name=\"LogonType\">10</Data></EventData></Event>";

#[test]
fn logon_record_summary() {
    let s = evtx_record_summary(LOGON, Some(5), "fallback");
    assert_eq!(s.event_code.as_deref(), Some("4624"));
    assert_eq!(s.time_original.as_deref(), Some("2021-03-04T05:06:07.123Z"));
    assert_eq!(s.event_time, "2021-03-04T05:06:07.123+00:00");
    assert_eq!(s.host.as_deref(), Some("HOST1"));
    assert_eq!(s.provider.as_deref(), Some("Microsoft-Windows-Security-Auditing"));
    assert_eq!(s.channel.as_deref(), Some("Security"));
    assert_eq!(s.user_name.as_deref(), Some("alice"));
    assert_eq!(s.ip.as_deref(), Some("10.0.0.5"));
    assert_eq!(s.action, "logon_success");
    assert_eq!(s.semantics.labels, vec!["rdp_logon_type_10"]);
    assert_eq!(s.severity, "medium");
    assert_eq!(s.message, "EventID 4624 logon_success user=alice ip=10.0.0.5 logon_type=10");
    assert_eq!(s.record_id.as_deref(), Some("99"));
    assert!(s.has_context);
    assert_eq!(s.data.len(), 3);
}

#[test]
fn bare_record_uses_fallbacks() {
    let s = evtx_record_summary("<Event></Event>", Some(7), "2020-01-01T00:00:00+00:00");
    assert_eq!(s.event_code, None);
    assert_eq!(s.event_time, "2020-01-01T00:00:00+00:00");
    assert_eq!(s.action, "observed");
    assert_eq!(s.severity, "info");
    assert_eq!(s.record_id.as_deref(), Some("7"));
    assert!(s.has_context);
    let t = evtx_record_summary("<Event></Event>", None, "x");
    assert_eq!(t.record_id, None);
    assert!(!t.has_context);
}

#[test]
fn tally_counts_failures() {
    let results = vec![
        Err("e1".to_string()),
        Ok((1u64, "<x/>".to_string())),
        Err("e2".to_string()),
    ];
    let t = evtx_tally(&results).unwrap();
    assert_eq!(t.records, vec![(1u64, "<x/>".to_string())]);
    assert_eq!(t.failed_count, 2);
    assert_eq!(t.sample_errors, vec!["e1", "e2"]);
}

#[test]
fn tally_without_records_fails() {
    let results: Vec<Result<(u64, String), String>> =
        (1..=7).map(|i| Err(format!("e{i}"))).collect();
    match evtx_tally(&results) {
        Err(ParserError::Failed(message)) => assert_eq!(
            message,
            "native EVTX parser produced no records; failed_records=7; errors=e1 | e2 | e3 | e4 | e5"
        ),
        other => panic!("unexpected result: {other:?}"),
    }
    match evtx_tally(&Vec::new()) {
        Err(ParserError::Failed(message)) => assert_eq!(
            message,
            "native EVTX parser produced no records; failed_records=0; errors="
        ),
        other => panic!("unexpected result: {other:?}"),
    }
}

#[test]
fn non_evtx_bytes_fail_to_open() {
    match parse_evtx_bytes(b"definitely not an event log") {
        Err(ParserError::Failed(message)) => {
            assert!(message.starts_with("native EVTX open failed: "), "{message}")
        }
        other => panic!("unexpected result: {other:?}"),
    }
}
