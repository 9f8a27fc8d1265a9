use taotie_parsers::datetime::{
    event_time_search_terms, is_plausible_forensic_time, line_timestamp_confident,
    normalize_datetime, normalize_numeric_datetime, signed_string, split_leading_timestamp,
};
use taotie_parsers::semantics::{
    enrich_message_with_semantics, evtx_semantic_severity, evtx_semantics,
    semantic_label_contains,
};

fn pairs(items: &[(&str, &str)]) -> Vec<(String, String)> {
    items.iter().map(|(k, v)| (k.to_string(), v.to_string())).collect()
}

const TIME: &str = "2021-03-04T05:06:07+00:00";

#[test]
fn kerberoast_ticket_is_flagged() {
    let data = pairs(&[("TicketEncryptionType", "0x17"), ("ServiceName", "MSSQLSvc")]);
    let s = evtx_semantics(Some("4769"), Some("Microsoft-Windows-Security-Auditing"), None, &data, TIME, None);
    assert_eq!(s.event_family, Some("kerberos"));
    assert_eq!(s.event_kind, Some("kerberos_tgs_request"));
    assert_eq!(
        s.labels,
        vec!["kerberoast_candidate", "kerberos_rc4_ticket", "kerberos_tgs_req"]
    );
    assert_eq!(s.ticket_encryption_name, Some("rc4_hmac"));
    assert!(s.ticket_encryption_weak);
    assert!(semantic_label_contains(&s, "kerberoast_candidate"));
    assert!(!semantic_label_contains(&s, "psexec_service"));
    assert_eq!(evtx_semantic_severity("medium", &s), "high");
    assert_eq!(evtx_semantic_severity("critical", &s), "high");
}

#[test]
fn krbtgt_service_is_not_kerberoast() {
    let data = pairs(&[("TicketEncryptionType", "0x17"), ("ServiceName", "krbtgt")]);
    let s = evtx_semantics(Some("4769"), None, None, &data, TIME, None);
    assert_eq!(s.labels, vec!["kerberos_rc4_ticket", "kerberos_tgs_req"]);
}

#[test]
fn asrep_roast_candidate() {
    let data = pairs(&[("PreAuthType", "0")]);
    let s = evtx_semantics(Some("4768"), None, None, &data, TIME, None);
    assert_eq!(s.labels, vec!["asrep_roast_candidate", "kerberos_as_req"]);
    assert_eq!(s.pre_auth_type.as_deref(), Some("0"));
}

#[test]
fn rdp_logon_raises_low_severity_only() {
    let data = pairs(&[("LogonType", "10")]);
    let s = evtx_semantics(Some("4624"), None, None, &data, TIME, None);
    assert_eq!(s.event_family, Some("remote_access"));
    assert_eq!(s.event_kind, Some("rdp_logon_success"));
    assert_eq!(s.logon_type_name, Some("remote_interactive"));
    assert_eq!(s.labels, vec!["rdp_logon_type_10"]);
    assert_eq!(evtx_semantic_severity("info", &s), "medium");
    assert_eq!(evtx_semantic_severity("critical", &s), "critical");
}

#[test]
fn firewall_block_outbound() {
    let data = pairs(&[("Direction", "Outbound"), ("Action", "Block")]);
    let s = evtx_semantics(Some("5157"), None, None, &data, TIME, None);
    assert_eq!(s.event_family, Some("firewall"));
    assert_eq!(s.event_kind, Some("firewall_connection_blocked"));
    assert_eq!(
        s.labels,
        vec!["firewall_block", "firewall_connection_blocked", "firewall_outbound"]
    );
    assert_eq!(s.firewall_direction.as_deref(), Some("outbound"));
    assert_eq!(s.firewall_action.as_deref(), Some("blocked"));
    assert_eq!(evtx_semantic_severity("info", &s), "high");
}

#[test]
fn psexec_service_and_pipe() {
    let data = pairs(&[("ServiceName", "PSEXESVC"), ("PipeName", "\\PSEXESVC-abc")]);
    let s = evtx_semantics(Some("7045"), Some("Service Control Manager"), None, &data, TIME, None);
    assert_eq!(s.event_family, Some("lateral_movement"));
    assert_eq!(s.event_kind, Some("psexec_service_observed"));
    assert_eq!(
        s.labels,
        vec!["named_pipe_observed", "psexec_named_pipe", "psexec_service"]
    );
    assert_eq!(evtx_semantic_severity("info", &s), "high");
}

#[test]
fn quiet_event_has_no_labels() {
    let empty: Vec<(String, String)> = Vec::new();
    let s = evtx_semantics(Some("4624"), None, None, &empty, TIME, Some("03/04/2021 05:06:07"));
    assert_eq!(s.event_family, None);
    assert_eq!(s.event_kind, None);
    assert!(s.labels.is_empty());
    assert_eq!(evtx_semantic_severity("low", &s), "low");
    assert_eq!(
        s.time_search_terms,
        vec![
            "2021-03-04T05:06:07+00:00",
            "03/04/2021 05:06:07",
            "2021-03-04 05:06:07 UTC",
            "2021/03/04 05:06:07",
            "04/03/2021 05:06:07",
            "1614834367",
        ]
    );
}

#[test]
fn enrich_appends_missing_values_once() {
    let data = pairs(&[("ServiceName", "MSSQLSvc"), ("RuleName", "Allow SQL")]);
    let s = evtx_semantics(Some("4769"), None, None, &data, TIME, None);
    let message = enrich_message_with_semantics("EventID 4769 rule Allow SQL".to_string(), &s);
    assert_eq!(message, "EventID 4769 rule Allow SQL service=MSSQLSvc");
    let again = enrich_message_with_semantics(message.clone(), &s);
    assert_eq!(again, message);
}

#[test]
fn search_terms_skip_unparsable_times() {
    assert_eq!(event_time_search_terms("not a time", None), vec!["not a time"]);
    assert_eq!(event_time_search_terms("  ", Some("")), Vec::<String>::new());
}

#[test]
fn datetime_normalization() {
    assert_eq!(normalize_numeric_datetime("1600000000"), Some("2020-09-13T12:26:40+00:00".to_string()));
    assert_eq!(normalize_numeric_datetime("1600000000123"), Some("2020-09-13T12:26:40+00:00".to_string()));
    assert_eq!(normalize_numeric_datetime("1600000000.5"), Some("2020-09-13T12:26:40+00:00".to_string()));
    assert_eq!(normalize_numeric_datetime("123"), None);
    assert_eq!(normalize_numeric_datetime("9999999999"), None);
    assert_eq!(normalize_datetime("2021-03-04T05:06:07+02:00"), Some("2021-03-04T03:06:07+00:00".to_string()));
    assert_eq!(normalize_datetime("\"2021/03/04 05:06:07\""), Some("2021-03-04T05:06:07+00:00".to_string()));
    assert_eq!(normalize_datetime("2021-03-04 05:06:07 +0100"), Some("2021-03-04T04:06:07+00:00".to_string()));
    assert_eq!(normalize_datetime("1601-01-01 00:00:00"), None);
    assert_eq!(normalize_datetime("-"), None);
    assert_eq!(normalize_datetime("yesterday"), None);
}

#[test]
fn plausible_forensic_time_window() {
    assert!(is_plausible_forensic_time("2021-01-01T00:00:00Z"));
    assert!(!is_plausible_forensic_time("1980-01-01T00:00:00Z"));
    assert!(!is_plausible_forensic_time("2101-01-01T00:00:00Z"));
    assert!(!is_plausible_forensic_time("garbage"));
}

#[test]
fn leading_timestamp_split() {
    assert_eq!(
        split_leading_timestamp("2021-03-04 05:06:07 user logged in"),
        (Some("2021-03-04 05:06:07".to_string()), "user logged in".to_string())
    );
    assert_eq!(
        split_leading_timestamp("  no time here  "),
        (None, "no time here".to_string())
    );
    assert!(line_timestamp_confident("[2021-03-04 05:06:07] started"));
    assert!(!line_timestamp_confident("started"));
    assert_eq!(signed_string(-42), "-42");
    assert_eq!(signed_string(7), "7");
}
