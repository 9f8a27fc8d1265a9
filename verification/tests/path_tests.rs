use taotie_parsers::filezilla::{decode_base64_utf8, normalize_filezilla_remote_path};
use taotie_parsers::paths::{
    extract_path_like_candidates, extract_path_near_label, extract_recent_document_candidate,
    extract_shellbag_folder_candidate, is_recent_document_name, sanitize_path_candidate,
};
use taotie_parsers::registry::{registry_key_hint, registry_signals_from_strings};

#[test]
fn filezilla_remote_paths() {
    assert_eq!(
        normalize_filezilla_remote_path("1 0 4 home 4 user"),
        Some("/home/user".to_string())
    );
    assert_eq!(normalize_filezilla_remote_path("/var/www"), Some("/var/www".to_string()));
    assert_eq!(normalize_filezilla_remote_path("1 0"), None);
    assert_eq!(normalize_filezilla_remote_path("   "), None);
}

#[test]
fn base64_decoding() {
    assert_eq!(decode_base64_utf8("aGVsbG8="), Some("hello".to_string()));
    assert_eq!(decode_base64_utf8("aGVs bG8="), Some("hello".to_string()));
    assert_eq!(decode_base64_utf8("!!"), None);
    assert_eq!(decode_base64_utf8("IA=="), None);
    assert_eq!(decode_base64_utf8("/w=="), None);
}

#[test]
fn path_candidates_are_distinct_and_ordered() {
    assert_eq!(
        extract_path_like_candidates("run C:\\Tools\\a.exe,C:\\Tools\\a.exe /usr/bin/x"),
        vec!["C:\\Tools\\a.exe".to_string(), "/usr/bin/x".to_string()]
    );
    assert!(extract_path_like_candidates("nothing here").is_empty());
}

#[test]
fn path_candidate_is_cut_after_executable_suffix() {
    assert_eq!(
        sanitize_path_candidate("\"C:\\Windows\\System32\\cmd.exe:Zone.Identifier\""),
        Some("C:\\Windows\\System32\\cmd.exe".to_string())
    );
    assert_eq!(sanitize_path_candidate("hello"), None);
}

#[test]
fn path_near_label() {
    assert_eq!(
        extract_path_near_label("Loaded ImagePath: C:\\svc\\x.sys now", &["ImagePath"]),
        Some("C:\\svc\\x.sys".to_string())
    );
    assert_eq!(extract_path_near_label("no label", &["ImagePath"]), None);
}

#[test]
fn recent_documents() {
    assert!(is_recent_document_name("Report.DOCX"));
    assert!(!is_recent_document_name(".docx"));
    assert!(!is_recent_document_name("notes"));
    assert_eq!(
        extract_recent_document_candidate("opened {Report.pdf}."),
        Some("Report.pdf".to_string())
    );
    assert_eq!(extract_recent_document_candidate("nothing"), None);
}

#[test]
fn shellbag_folders() {
    assert_eq!(
        extract_shellbag_folder_candidate("BagMRU Software\\x C:\\Users\\bob\\Desktop"),
        Some("C:\\Users\\bob\\Desktop".to_string())
    );
    assert_eq!(
        extract_shellbag_folder_candidate("/tmp/downloads"),
        Some("/tmp/downloads".to_string())
    );
    assert_eq!(extract_shellbag_folder_candidate("/tmp/other"), None);
}

#[test]
fn registry_key_hints() {
    assert_eq!(registry_key_hint("nothing"), None);
    assert_eq!(
        registry_key_hint("xx Winlogon yy"),
        Some("xx Winlogon yy".to_string())
    );
}

#[test]
fn registry_run_key_signal() {
    let strings = vec![
        "Software\\Microsoft\\CurrentVersion\\Run".to_string(),
        "Updater".to_string(),
        "C:\\Users\\bob\\AppData\\evil.exe".to_string(),
    ];
    let context = "Software\\Microsoft\\CurrentVersion\\Run Updater C:\\Users\\bob\\AppData\\evil.exe";
    let signals = registry_signals_from_strings(&strings, "registry");
    assert_eq!(signals.len(), 1);
    let s = &signals[0];
    assert_eq!(s.action, "registry_run_key_persistence");
    assert_eq!(s.severity, "high");
    assert_eq!(s.key_hint, context);
    assert_eq!(s.value_hint, context);
    assert_eq!(s.file_path.as_deref(), Some("C:\\Users\\bob\\AppData\\evil.exe"));
    assert_eq!(s.process_name.as_deref(), Some("evil.exe"));
    assert_eq!(s.url, None);
    assert_eq!(s.hash, None);
}

#[test]
fn registry_quiet_strings_give_no_signal() {
    let strings = vec!["hello".to_string(), "world".to_string()];
    assert!(registry_signals_from_strings(&strings, "registry").is_empty());
}
