use taotie_parsers::csv::csv_rows;
use taotie_parsers::csv_event::evtx_csv_row_fields;
use taotie_parsers::extract::{extract_domain_like, looks_like_domain};
use taotie_parsers::filezilla::decode_base64_utf8;
use taotie_parsers::registry::registry_signals_from_strings;
use taotie_parsers::row::ascii_icontains_at;
use taotie_parsers::xml::split_csv_line;

#[test]
fn csv_row_becomes_event_fields() {
    let text = "TimeCreated,Event ID,Computer,Provider,Channel,TargetUserName,IpAddress,LogonType,NewProcessName,Level\n\
2021-03-04 05:06:07,4624,HOST1,Microsoft-Windows-Security-Auditing,Security,alice,10.0.0.5,10,C:\\Windows\\explorer.exe,Information\n";
    let rows = csv_rows(text);
    assert_eq!(rows.len(), 1);
    let f = evtx_csv_row_fields(&rows[0], "fallback");
    assert_eq!(f.event_code.as_deref(), Some("4624"));
    assert_eq!(f.time_original.as_deref(), Some("2021-03-04 05:06:07"));
    assert_eq!(f.event_time, "2021-03-04T05:06:07+00:00");
    assert_eq!(f.host.as_deref(), Some("HOST1"));
    assert_eq!(f.provider.as_deref(), Some("Microsoft-Windows-Security-Auditing"));
    assert_eq!(f.channel.as_deref(), Some("Security"));
    assert_eq!(f.user_name.as_deref(), Some("alice"));
    assert_eq!(f.ip.as_deref(), Some("10.0.0.5"));
    assert_eq!(f.process_name.as_deref(), Some("explorer.exe"));
    assert_eq!(f.file_path.as_deref(), Some("C:\\Windows\\explorer.exe"));
    assert_eq!(f.level.as_deref(), Some("Information"));
    assert_eq!(f.action, "logon_success");
    assert_eq!(f.semantics.labels, vec!["rdp_logon_type_10"]);
    assert_eq!(f.severity, "medium");
    assert_eq!(f.logon_type.as_deref(), Some("10"));
    assert_eq!(
        f.message,
        "EventID 4624 logon_success user=alice process=C:\\Windows\\explorer.exe ip=10.0.0.5 logon_type=10"
    );
}

#[test]
fn csv_row_message_column_wins_and_time_falls_back() {
    let rows = csv_rows("EventID,Message,Level\n1102,The audit log was cleared,Warning\n");
    let f = evtx_csv_row_fields(&rows[0], "2020-01-01T00:00:00+00:00");
    assert_eq!(f.time_original, None);
    assert_eq!(f.event_time, "2020-01-01T00:00:00+00:00");
    assert_eq!(f.action, "audit_log_cleared");
    assert_eq!(f.message, "The audit log was cleared");
    assert_eq!(f.severity, "medium");
}

#[test]
fn icontains_finds_least_offset() {
    assert_eq!(ascii_icontains_at(b"xxnt authority\\a", b"NT AUTHORITY\\"), Some(2));
    assert_eq!(ascii_icontains_at(b"abab", b"AB"), Some(0));
    assert_eq!(ascii_icontains_at(b"abab", b"x"), None);
}

#[test]
fn registry_signals_of_nothing_are_none() {
    assert!(registry_signals_from_strings(&[], "registry_hive").is_empty());
    let strings: Vec<String> = ["Software\\Microsoft\\Windows\\CurrentVersion\\Explorer\\RecentDocs", "report.docx"]
        .iter()
        .map(|s| s.to_string())
        .collect();
    let signals = registry_signals_from_strings(&strings, "registry_hive");
    assert!(signals.iter().any(|s| s.action == "registry_recentdocs_document"));
    for s in &signals {
        if s.action == "registry_recentdocs_document" || s.action == "registry_shellbag_folder" {
            assert_eq!(s.process_name, None);
        }
    }
}

#[test]
fn domains_are_domains() {
    let line = "2026-01-01 00:00:00 INFO powershell.exe connected 10.0.0.5 https://evil.example.test/a.ps1 C:\\Users\\jdoe\\Downloads\\a.ps1";
    let d = extract_domain_like(line).unwrap();
    assert_eq!(d, "evil.example.test");
    assert!(looks_like_domain(&d));
    assert_eq!(extract_domain_like("10.0.0.5 cmd.exe"), None);
}

#[test]
fn csv_field_count_follows_unquoted_commas() {
    assert_eq!(split_csv_line(r#"a, "b,c" ,"say ""hi""""#), vec!["a", "b,c", r#"say "hi""#]);
    assert_eq!(split_csv_line(",,"), vec!["", "", ""]);
    assert_eq!(split_csv_line("\"x,y,z\""), vec!["x,y,z"]);
}

#[test]
fn base64_examples() {
    assert_eq!(decode_base64_utf8("c2VjcmV0"), Some("secret".to_string()));
    assert_eq!(decode_base64_utf8("aGk="), Some("hi".to_string()));
    assert_eq!(decode_base64_utf8("c2V*"), None);
}

#[test]
fn csv_fields_are_trimmed() {
    let fields = split_csv_line("  a ,\t\"  b  \" ,c\t");
    assert_eq!(fields, vec!["a", "b", "c"]);
    for f in &fields {
        assert_eq!(f.trim(), f.as_str());
    }
}

#[test]
fn base64_round_trip_each_padding() {
    assert_eq!(decode_base64_utf8("Zm9vYmFy"), Some("foobar".to_string()));
    assert_eq!(decode_base64_utf8("Zm9vYmE="), Some("fooba".to_string()));
    assert_eq!(decode_base64_utf8("Zm9vYg=="), Some("foob".to_string()));
    assert_eq!(decode_base64_utf8("w6lsw6h2ZQ=="), Some("élève".to_string()));
}
