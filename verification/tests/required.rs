use taotie_parsers::mft::{detect_mft_record_size, mft_path_for_record, mft_path_map, MftNativeRecord};
use taotie_parsers::row::{process_identity, sanitize_account_name};
use std::collections::HashMap;

fn map(pairs: &[(&str, &str)]) -> Vec<(String, String)> {
    pairs
        .iter()
        .map(|(k, v)| (k.to_string(), v.to_string()))
        .collect()
}

#[test]
fn process_identity_sysmon_eid1_uses_guid_and_child_pid() {
    // Sysmon EID 1: ProcessId is the child, ParentProcessId the parent; GUIDs present.
    let row = map(&[
        ("ProcessGuid", "{aaaa-1111}"),
        ("ProcessId", "4321"),
        ("ParentProcessGuid", "{bbbb-2222}"),
        ("ParentProcessId", "1000"),
    ]);
    let (pid, guid, ppid, pguid) = process_identity(&row);
    assert_eq!(pid.as_deref(), Some("4321"));
    assert_eq!(guid.as_deref(), Some("{aaaa-1111}"));
    assert_eq!(ppid.as_deref(), Some("1000"));
    assert_eq!(pguid.as_deref(), Some("{bbbb-2222}"));
}

#[test]
fn process_identity_security_4688_maps_new_pid_to_child_and_hex_to_decimal() {
    // Security 4688: NewProcessId is the child, ProcessId is the creator/parent.
    // Both are hex and must normalize to decimal. No GUIDs available.
    let row = map(&[("NewProcessId", "0x1a4"), ("ProcessId", "0x2b8")]);
    let (pid, guid, ppid, pguid) = process_identity(&row);
    assert_eq!(pid.as_deref(), Some("420")); // 0x1a4
    assert_eq!(ppid.as_deref(), Some("696")); // 0x2b8
    assert!(guid.is_none());
    assert!(pguid.is_none());
}

#[test]
fn sanitize_account_name_strips_evtx_garbage_prefix() {
    assert_eq!(
        sanitize_account_name("\u{2d75}\u{c01c}\u{f7f6}NT AUTHORITY\\NETWORK SERVICE"),
        "NT AUTHORITY\\NETWORK SERVICE"
    );
    assert_eq!(
        sanitize_account_name("\u{2f22}\u{57aa}0\u{4256b}NT AUTHORITY\\NETWORK SERVICE"),
        "NT AUTHORITY\\NETWORK SERVICE"
    );
    for clean in [
        "NT AUTHORITY\\NETWORK SERVICE",
        "NT AUTHORITY\\SYSTEM",
        "NT SERVICE\\MSSQLSERVER",
        "BUILTIN\\Administrators",
    ] {
        assert_eq!(sanitize_account_name(clean), clean);
    }
    for legit in ["田中太郎", "CORP\\山田", "Администратор", "moveitsvc"] {
        assert_eq!(sanitize_account_name(legit), legit);
    }
    assert_eq!(sanitize_account_name("\u{2d75}\u{c01c}"), "\u{2d75}\u{c01c}");
}

fn test_mft_record(
    record_number: u64,
    parent_record_number: Option<u64>,
    file_name: &str,
) -> MftNativeRecord {
    test_mft_record_with_sequences(
        record_number,
        1,
        parent_record_number,
        parent_record_number.map(|_| 1),
        file_name,
    )
}

fn test_mft_record_with_sequences(
    record_number: u64,
    sequence_number: u16,
    parent_record_number: Option<u64>,
    parent_sequence_number: Option<u16>,
    file_name: &str,
) -> MftNativeRecord {
    MftNativeRecord {
        record_number,
        record_offset: record_number * 1024,
        record_size: 1024,
        sequence_number,
        in_use: true,
        is_directory: false,
        parent_record_number,
        parent_sequence_number,
        file_name: Some(file_name.to_string()),
        file_namespace: None,
        file_attributes: None,
        allocated_size: None,
        file_size: None,
        si_created: None,
        si_modified: None,
        si_record_changed: None,
        si_accessed: None,
        fn_created: None,
        fn_modified: None,
        fn_record_changed: None,
        fn_accessed: None,
        attribute_count: 0,
        attributes: Vec::new(),
        resident_contents: Vec::new(),
        data_runs: Vec::new(),
    }
}

#[test]
fn mft_path_reconstruction_breaks_parent_cycles() {
    let records = vec![
        test_mft_record(1, Some(2), "child.txt"),
        test_mft_record(2, Some(1), "parent"),
    ];
    let map = mft_path_map(&records);
    let mut cache = HashMap::new();
    let path = mft_path_for_record(1, &map, &mut cache).unwrap();

    assert!(path.ends_with("child.txt"));
    assert!(path.len() < 64);
    assert!(!path.contains("child.txt\\parent\\child.txt"));
}

#[test]
fn mft_path_reconstruction_rejects_stale_parent_sequence() {
    let records = vec![
        test_mft_record_with_sequences(10, 7, Some(5), Some(99), "child.aspx"),
        test_mft_record_with_sequences(5, 3, None, None, "old_parent"),
    ];
    let map = mft_path_map(&records);
    let mut cache = HashMap::new();
    let path = mft_path_for_record(10, &map, &mut cache).unwrap();

    assert_eq!(path, "child.aspx");
}

#[test]
fn mft_path_reconstruction_accepts_matching_parent_sequence() {
    let records = vec![
        test_mft_record_with_sequences(10, 7, Some(5), Some(3), "child.aspx"),
        test_mft_record_with_sequences(5, 3, None, None, "inetpub"),
    ];
    let map = mft_path_map(&records);
    let mut cache = HashMap::new();
    let path = mft_path_for_record(10, &map, &mut cache).unwrap();

    assert_eq!(path, "inetpub\\child.aspx");
}

#[test]
fn mft_record_size_detection_prefers_smallest_dense_file_boundary() {
    let mut mft_1024 = vec![0u8; 1024 * 32];
    for chunk in mft_1024.chunks_exact_mut(1024) {
        chunk[..4].copy_from_slice(b"FILE");
    }
    for index in [3usize, 17, 29] {
        mft_1024[index * 1024..index * 1024 + 4].copy_from_slice(b"BAAD");
    }
    assert_eq!(detect_mft_record_size(&mft_1024), Some(1024));

    let mut mft_4096 = vec![0u8; 4096 * 32];
    for chunk in mft_4096.chunks_exact_mut(4096) {
        chunk[..4].copy_from_slice(b"FILE");
    }
    assert_eq!(detect_mft_record_size(&mft_4096), Some(4096));
}
