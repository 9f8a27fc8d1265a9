use taotie_parsers::events::{
    defender_event_action, defender_event_severity, defender_message, defender_text_action,
    defender_text_severity, format_event_message, normalize_firewall_action,
    normalize_firewall_direction, windows_event_action, windows_event_action_provider,
    windows_event_severity,
};

fn pairs(items: &[(&str, &str)]) -> Vec<(String, String)> {
    items.iter().map(|(k, v)| (k.to_string(), v.to_string())).collect()
}

#[test]
fn windows_event_action_by_id() {
    assert_eq!(windows_event_action(Some("4624")), "logon_success");
    assert_eq!(windows_event_action(Some(" 4625 ")), "logon_failure");
    assert_eq!(windows_event_action(Some("1102")), "audit_log_cleared");
    assert_eq!(windows_event_action(Some("7045")), "service_installed");
    assert_eq!(windows_event_action(Some("9999")), "windows_event");
    assert_eq!(windows_event_action(Some("abc")), "observed");
    assert_eq!(windows_event_action(None), "observed");
}

#[test]
fn windows_event_severity_prefers_level() {
    assert_eq!(windows_event_severity(Some("4624"), Some("Critical")), "critical");
    assert_eq!(windows_event_severity(Some("4624"), Some("Error")), "high");
    assert_eq!(windows_event_severity(Some("4624"), Some("Warning")), "medium");
    assert_eq!(windows_event_severity(Some("1102"), Some("Information")), "critical");
    assert_eq!(windows_event_severity(Some("4625"), None), "high");
    assert_eq!(windows_event_severity(Some("4672"), None), "medium");
    assert_eq!(windows_event_severity(Some("4624"), None), "info");
}

#[test]
fn provider_specific_actions() {
    let empty: Vec<(String, String)> = Vec::new();
    assert_eq!(
        windows_event_action_provider(Some("22"), Some("Microsoft-Windows-Sysmon"), &empty),
        "dns_query"
    );
    assert_eq!(
        windows_event_action_provider(Some("26"), Some("Microsoft-Windows-Sysmon"), &empty),
        "file_deleted"
    );
    assert_eq!(
        windows_event_action_provider(Some("106"), Some("Microsoft-Windows-TaskScheduler"), &empty),
        "scheduled_task_created"
    );
    assert_eq!(
        windows_event_action_provider(Some("7036"), Some("Service Control Manager"), &empty),
        "service_state_changed"
    );
    assert_eq!(
        windows_event_action_provider(Some("1116"), Some("Microsoft-Windows-Windows Defender"), &empty),
        "defender_threat_detected"
    );
    assert_eq!(
        windows_event_action_provider(Some("5157"), Some("Microsoft-Windows-Security-Auditing"), &empty),
        "firewall_connection_blocked"
    );
    assert_eq!(
        windows_event_action_provider(Some("4688"), None, &empty),
        "process_created"
    );
}

#[test]
fn defender_text_classification() {
    assert_eq!(defender_text_action("Threat detected in file"), "defender_threat_detected");
    assert_eq!(defender_text_action("Item moved to quarantine"), "defender_remediation_action");
    assert_eq!(defender_text_action("Policy update"), "defender_configuration_changed");
    assert_eq!(defender_text_action("Quick scan started"), "defender_scan");
    assert_eq!(defender_text_action("engine failure"), "defender_error");
    assert_eq!(defender_text_action("heartbeat"), "defender_mplog_observed");
    assert_eq!(defender_text_severity("Severe threat"), "critical");
    assert_eq!(defender_text_severity("malware found"), "high");
    assert_eq!(defender_text_severity("quarantine done"), "medium");
    assert_eq!(defender_text_severity("heartbeat"), "info");
}

#[test]
fn defender_event_action_and_severity() {
    assert_eq!(defender_event_action(Some("1116"), None), "defender_threat_detected");
    assert_eq!(defender_event_action(Some("1121"), None), "defender_threat_status_changed");
    assert_eq!(defender_event_action(Some("42"), None), "defender_operational_event");
    assert_eq!(defender_event_action(None, None), "defender_event");
    let data = pairs(&[("Action", "Quarantine")]);
    assert_eq!(
        defender_event_action(None, Some(&data)),
        "defender_remediation_action"
    );
    assert_eq!(defender_event_severity(Some("1116"), None, None), "high");
    assert_eq!(defender_event_severity(Some("5007"), None, None), "medium");
    assert_eq!(defender_event_severity(Some("1000"), Some("Critical"), None), "critical");
    let severe = pairs(&[("Threat Severity", "Severe")]);
    assert_eq!(defender_event_severity(Some("1000"), None, Some(&severe)), "critical");
    assert_eq!(defender_event_severity(Some("1000"), None, None), "info");
}

#[test]
fn defender_message_lists_parts() {
    let data = pairs(&[("Status", "Quarantined")]);
    assert_eq!(
        defender_message(
            Some("1116"),
            "defender_threat_detected",
            Some("Trojan:Win32/X"),
            Some("C:\\evil.exe"),
            Some(&data)
        ),
        "EventID 1116 defender_threat_detected threat=Trojan:Win32/X path=C:\\evil.exe status=Quarantined"
    );
    assert_eq!(defender_message(None, "defender_event", None, None, None), "defender_event");
}

#[test]
fn firewall_normalization() {
    assert_eq!(normalize_firewall_direction("Outbound"), Some("outbound"));
    assert_eq!(normalize_firewall_direction("%%14592"), Some("inbound"));
    assert_eq!(normalize_firewall_direction("1"), Some("inbound"));
    assert_eq!(normalize_firewall_direction("x"), None);
    assert_eq!(normalize_firewall_action(" Block "), Some("blocked"));
    assert_eq!(normalize_firewall_action("3"), Some("allowed"));
    assert_eq!(normalize_firewall_action("unknown"), None);
}

#[test]
fn event_message_lists_known_fields() {
    let data = pairs(&[
        ("TargetUserName", "alice"),
        ("IpAddress", "10.0.0.5"),
        ("LogonType", "3"),
    ]);
    assert_eq!(
        format_event_message(Some("4624"), "logon_success", &data),
        "EventID 4624 logon_success user=alice ip=10.0.0.5 logon_type=3"
    );
    let empty: Vec<(String, String)> = Vec::new();
    assert_eq!(format_event_message(None, "observed", &empty), "observed");
}
