use taotie_parsers::events::{defender_event_severity, windows_event_severity};
use taotie_parsers::filezilla::normalize_filezilla_remote_path;
use taotie_parsers::mft::MftNativeRecord;
use taotie_parsers::mft_select::select_mft_record_indices_for_events;
use taotie_parsers::paths::extract_path_like_candidates;
use taotie_parsers::prefetch::{
    prefetch_layout, prefetch_run_count_with_offset, sort_sections_by_offset,
    PrefetchSectionSummary,
};
use taotie_parsers::registry::registry_signals_from_strings;
use taotie_parsers::row::{normalize_pid, sanitize_account_name};
use taotie_parsers::semantics::{enrich_message_with_semantics, evtx_semantics};
use taotie_parsers::strings::extract_forensic_strings;
use taotie_parsers::textlog::truncate;

fn record(index: u64, in_use: bool, name: &str) -> MftNativeRecord {
    MftNativeRecord {
        record_number: index,
        record_offset: index * 1024,
        record_size: 1024,
        sequence_number: 1,
        in_use,
        is_directory: false,
        parent_record_number: None,
        parent_sequence_number: None,
        file_name: Some(name.to_string()),
        file_namespace: None,
        file_attributes: None,
        allocated_size: None,
        file_size: None,
        si_created: None,
        si_modified: None,
        si_record_changed: None,
        si_accessed: None,
        fn_created: None,
        fn_modified: None,
        fn_record_changed: None,
        fn_accessed: None,
        attribute_count: 0,
        attributes: Vec::new(),
        resident_contents: Vec::new(),
        data_runs: Vec::new(),
    }
}

#[test]
fn sanitize_account_twice_is_once() {
    for value in [
        "\u{2d75}\u{c01c}NT AUTHORITY\\SYSTEM",
        "garbageBUILTIN\\Users",
        "plain",
        "",
    ] {
        let once = sanitize_account_name(value);
        assert_eq!(sanitize_account_name(&once), once);
    }
    assert_eq!(sanitize_account_name("CORP\\alice"), "CORP\\alice");
}

#[test]
fn path_candidates_have_no_duplicates() {
    let found = extract_path_like_candidates("C:\\a.exe C:\\a.exe /x /x C:\\b.dll");
    assert_eq!(found, vec!["C:\\a.exe", "/x", "C:\\b.dll"]);
}

#[test]
fn forensic_strings_are_distinct_and_limited() {
    let bytes = b"alpha\x00beta1\x00alpha\x00gamma\x00delta";
    let all = extract_forensic_strings(bytes, 100);
    assert_eq!(all, vec!["alpha", "beta1", "gamma", "delta"]);
    assert_eq!(extract_forensic_strings(bytes, 2).len(), 2);
    assert_eq!(extract_forensic_strings(bytes, 0).len(), 1);
}

#[test]
fn registry_signal_keys_are_distinct() {
    let strings: Vec<String> = ["CurrentVersion\\Run", "a", "C:\\x\\evil.exe", "CurrentVersion\\Run"]
        .iter()
        .map(|s| s.to_string())
        .collect();
    let signals = registry_signals_from_strings(&strings, "registry");
    for (i, a) in signals.iter().enumerate() {
        for b in &signals[i + 1..] {
            assert!(
                !(a.action == b.action
                    && a.key_hint.to_ascii_lowercase() == b.key_hint.to_ascii_lowercase()
                    && a.file_path == b.file_path
                    && a.hash == b.hash)
            );
        }
    }
}

#[test]
fn enriched_message_starts_with_message() {
    let data = vec![("PipeName".to_string(), "\\evil".to_string())];
    let s = evtx_semantics(Some("18"), Some("Microsoft-Windows-Sysmon"), None, &data, "x", None);
    let out = enrich_message_with_semantics("pipe connected".to_string(), &s);
    assert!(out.starts_with("pipe connected"));
    assert_eq!(out, "pipe connected pipe=\\evil");
}

#[test]
fn truncation_bounds() {
    assert_eq!(truncate("abcdef", 3), "abc...");
    assert_eq!(truncate("abc", 3), "abc");
    assert_eq!(truncate("日本語テキスト", 2), "日本...");
    assert_eq!(truncate("", 0), "");
}

#[test]
fn critical_level_wins() {
    for id in [None, Some("4624"), Some("1116"), Some("bogus")] {
        assert_eq!(windows_event_severity(id, Some("CRITICAL")), "critical");
        assert_eq!(defender_event_severity(id, Some("Critical"), None), "critical");
    }
}

#[test]
fn run_count_lies_in_range() {
    let layout = prefetch_layout(Some(30));
    let mut bytes = vec![0u8; 0x100];
    for (offset, value) in [(0xd0usize, 0u32), (0x98, 100_001), (0x90, 100_000)] {
        bytes[offset..offset + 4].copy_from_slice(&value.to_le_bytes());
    }
    let (count, offset) = prefetch_run_count_with_offset(&bytes, &layout).unwrap();
    assert_eq!((count, offset), (100_000, 0x90));
    assert!(layout.run_count_offsets.contains(&offset));
}

#[test]
fn filezilla_paths_are_absolute() {
    for value in ["1 0 4 home", "a b c", "1 2 3 4 5", "//x//"] {
        if let Some(path) = normalize_filezilla_remote_path(value) {
            assert!(path.starts_with('/'));
        }
    }
    assert_eq!(normalize_filezilla_remote_path("a b c"), Some("/a/b/c".to_string()));
}

#[test]
fn sections_sort_by_offset_and_keep_all() {
    let make = |name: &'static str, offset: usize| PrefetchSectionSummary {
        name,
        offset,
        length: 1,
        count: None,
        length_source: "explicit_size",
    };
    let sorted = sort_sections_by_offset(vec![make("c", 30), make("a", 10), make("b", 20), make("d", 10)]);
    let order: Vec<(&str, usize)> = sorted.iter().map(|s| (s.name, s.offset)).collect();
    assert_eq!(order.len(), 4);
    assert!(order.windows(2).all(|w| w[0].1 <= w[1].1));
    let mut names: Vec<&str> = order.iter().map(|(n, _)| *n).collect();
    names.sort();
    assert_eq!(names, vec!["a", "b", "c", "d"]);
}

#[test]
fn decimal_pids_are_kept() {
    assert_eq!(normalize_pid(Some("4321".to_string())), Some("4321".to_string()));
    assert_eq!(normalize_pid(Some("0x10".to_string())), Some("16".to_string()));
    assert_eq!(normalize_pid(Some(" - ".to_string())), None);
    assert_eq!(normalize_pid(None), None);
}

#[test]
fn small_mft_selects_everything() {
    let records = vec![record(0, true, "a.txt"), record(1, false, "b.exe")];
    assert_eq!(select_mft_record_indices_for_events(&records), vec![0, 1]);
}

#[test]
fn large_mft_selection_is_bounded_and_increasing() {
    let mut records = Vec::new();
    for i in 0..50_001u64 {
        let name = if i % 7 == 0 { "tool.exe" } else { "plain.txt" };
        records.push(record(i, i % 3 != 0, name));
    }
    let chosen = select_mft_record_indices_for_events(&records);
    assert!(chosen.len() <= 10_000);
    assert!(!chosen.is_empty());
    assert!(chosen.windows(2).all(|w| w[0] < w[1]));
    assert!(chosen.iter().all(|&i| i < records.len()));
}

#[test]
fn sanitized_account_is_suffix_at_first_marker() {
    let v = "junk nt service\\x NT AUTHORITY\\SYSTEM";
    let r = sanitize_account_name(v);
    assert!(v.ends_with(&r));
    assert_eq!(r, "nt service\\x NT AUTHORITY\\SYSTEM");
}
