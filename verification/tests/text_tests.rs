use taotie_parsers::row::{
    ascii_icontains_at, audit_subcategory_name, audit_subcategory_name_from_id, cell,
    decimal_string, evtx_file_path, evtx_process_name, evtx_user_name, first_event_field,
    first_named, joined_event_fields, labeled_event_value, logon_type_name, push_unique_term,
    row_map, ticket_encryption_type_name,
};
use taotie_parsers::textlog::{
    extract_command_hint, extract_http_log_fields, extract_label_value, extract_username_hint,
    is_http_method,
};
use taotie_parsers::xml::{
    decode_xml_entities, extract_attr, extract_named_data, extract_xml_attr_in_tag,
    extract_xml_blocks, extract_xml_tag, split_csv_line, xml_event_chunks,
};

fn pairs(items: &[(&str, &str)]) -> Vec<(String, String)> {
    items.iter().map(|(k, v)| (k.to_string(), v.to_string())).collect()
}

#[test]
fn xml_entities_decode_in_order() {
    assert_eq!(decode_xml_entities("&lt;a&gt; &quot;b&quot; &apos;c&apos; &amp;"), "<a> \"b\" 'c' &");
    assert_eq!(decode_xml_entities("&amp;lt;"), "&lt;");
}

#[test]
fn xml_tags_and_attributes() {
    let text = "<Event><System><Provider Name=\"Sysmon\" Guid=\"{x}\"/><EventID>1</EventID></System></Event>";
    assert_eq!(extract_xml_tag(text, "EventID"), Some("1".to_string()));
    assert_eq!(extract_xml_tag(text, "Missing"), None);
    assert_eq!(extract_xml_attr_in_tag(text, "Provider", "Name"), Some("Sysmon".to_string()));
    assert_eq!(extract_attr("<x a=\"1 &amp; 2\">", "a"), Some("1 & 2".to_string()));
    assert_eq!(extract_attr("<x a=\"\">", "a"), None);
    assert_eq!(xml_event_chunks(&format!("{text}junk{text}<Event>")), vec![text.to_string(), text.to_string()]);
    assert_eq!(
        extract_xml_blocks("<Data Name=\"a\">1</Data><Data>2</Data>", "Data"),
        vec!["<Data Name=\"a\">1</Data>".to_string(), "<Data>2</Data>".to_string()]
    );
}

#[test]
fn xml_named_data() {
    let text = "<Data Name=\"User\">alice</Data><Data>x &amp; y</Data><Data Name=\"Empty\"></Data>";
    let data = extract_named_data(text);
    assert_eq!(data.len(), 2);
    assert!(data.contains(&("User".to_string(), "alice".to_string())));
    assert!(data.contains(&("Data2".to_string(), "x & y".to_string())));
}

#[test]
fn csv_fields_with_quotes() {
    assert_eq!(
        split_csv_line("a, \"b,c\" ,\"say \"\"hi\"\"\",,"),
        vec!["a", "b,c", "say \"hi\"", "", ""]
    );
    assert_eq!(split_csv_line(""), vec![""]);
}

#[test]
fn row_lookups() {
    let row = pairs(&[("targetusername", "bob"), ("Image", "C:\\x\\run.exe"), ("Blank", "-")]);
    assert_eq!(cell(&row, &["Target User Name"]), Some("bob".to_string()));
    assert_eq!(cell(&row, &["Image"]), None);
    assert_eq!(first_named(&row, &["image"]), Some("C:\\x\\run.exe".to_string()));
    assert_eq!(first_named(&row, &["Blank", "TargetUserName"]), Some("bob".to_string()));
    assert_eq!(evtx_user_name(&row), Some("bob".to_string()));
    assert_eq!(evtx_process_name(&row), Some("run.exe".to_string()));
    assert_eq!(evtx_file_path(&row), Some("C:\\x\\run.exe".to_string()));
}

#[test]
fn embedded_and_joined_fields() {
    let row = pairs(&[("Message", "Subject: x\nAccount Name: carol\nLogon Type: 3")]);
    assert_eq!(labeled_event_value("Logon Type: 3", "LogonType"), Some("3".to_string()));
    assert_eq!(first_event_field(&row, &["AccountName"]), Some("carol".to_string()));
    assert_eq!(first_event_field(&row, &["Missing"]), None);
    let joined = pairs(&[("A", "one"), ("B", "one"), ("C", "two")]);
    assert_eq!(joined_event_fields(&joined, &["A", "B", "C"]), Some("one ¦ two".to_string()));
    assert_eq!(joined_event_fields(&joined, &["Z"]), None);
}

#[test]
fn audit_and_code_tables() {
    assert_eq!(
        audit_subcategory_name_from_id("{0cce9227-69ae-11d9-bed3-505054503030}"),
        Some("Other Object Access Events")
    );
    assert_eq!(audit_subcategory_name_from_id("%%12804"), Some("Other Object Access Events"));
    assert_eq!(audit_subcategory_name_from_id("other"), None);
    assert_eq!(
        audit_subcategory_name(&pairs(&[("SubcategoryGuid", "12804")])),
        Some("Other Object Access Events".to_string())
    );
    assert_eq!(audit_subcategory_name(&pairs(&[("Category", "Logon")])), Some("Logon".to_string()));
    assert_eq!(logon_type_name(" 10 "), Some("remote_interactive"));
    assert_eq!(logon_type_name("6"), None);
    assert_eq!(ticket_encryption_type_name("0x12"), Some("aes256_cts_hmac_sha1_96"));
    assert_eq!(ticket_encryption_type_name("0x17"), Some("rc4_hmac"));
    assert_eq!(ticket_encryption_type_name("99"), None);
}

#[test]
fn small_row_helpers() {
    let headers = vec!["A".to_string(), "B".to_string(), "C".to_string()];
    let cells = vec!["1".to_string(), "null".to_string()];
    assert_eq!(row_map(&headers, &cells), pairs(&[("A", "1")]));
    assert_eq!(decimal_string(0), "0");
    assert_eq!(decimal_string(18446744073709551615), "18446744073709551615");
    assert_eq!(ascii_icontains_at(b"xxHeLLo", b"hello"), Some(2));
    assert_eq!(ascii_icontains_at(b"abc", b""), None);
    assert_eq!(ascii_icontains_at(b"ab", b"abc"), None);
    let mut terms = Vec::new();
    push_unique_term(&mut terms, " a ");
    push_unique_term(&mut terms, "a");
    push_unique_term(&mut terms, "  ");
    push_unique_term(&mut terms, "b");
    assert_eq!(terms, vec!["a", "b"]);
}

#[test]
fn text_log_hints() {
    assert_eq!(
        extract_http_log_fields("2024-01-01 get /a 200 443"),
        (Some("GET".to_string()), Some(200))
    );
    assert_eq!(extract_http_log_fields("no method 200"), (None, None));
    assert!(is_http_method("Patch"));
    assert!(!is_http_method("FETCH"));
    assert_eq!(extract_username_hint("login for alice ok"), Some("alice".to_string()));
    assert_eq!(
        extract_username_hint("Failed password for invalid user root from 1.2.3.4"),
        Some("root from 1.2.3.4".to_string())
    );
    assert_eq!(extract_username_hint("nothing here"), None);
    assert_eq!(extract_command_hint("ran cmd.exe /c whoami"), Some(".exe /c whoami".to_string()));
    assert_eq!(extract_command_hint("x powershell -enc AAA"), Some("powershell -enc AAA".to_string()));
    assert_eq!(extract_command_hint("quiet"), None);
    assert_eq!(
        extract_label_value("Path: C:\\a.txt; Size: 3", &["Size", "Path"]),
        Some("3".to_string())
    );
}
