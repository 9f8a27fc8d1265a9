use std::collections::HashMap;
use taotie_parsers::mft::{
    mft_path_map, MftAttributeSummary, MftDataRunSummary, MftNativeRecord,
    MftResidentContentSummary,
};
use taotie_parsers::mft_report::{mft_record_path, mft_record_report, mft_records_report};
use taotie_parsers::onedrive::onedrive_signals;

fn record(number: u64, name: Option<&str>) -> MftNativeRecord {
    MftNativeRecord {
        record_number: number,
        record_offset: number * 1024,
        record_size: 1024,
        sequence_number: 1,
        in_use: true,
        is_directory: false,
        parent_record_number: None,
        parent_sequence_number: None,
        file_name: name.map(|n| n.to_string()),
        file_namespace: None,
        file_attributes: None,
        allocated_size: None,
        file_size: None,
        si_created: None,
        si_modified: None,
        si_record_changed: None,
        si_accessed: None,
        fn_created: None,
        fn_modified: None,
        fn_record_changed: None,
        fn_accessed: None,
        attribute_count: 0,
        attributes: Vec::new(),
        resident_contents: Vec::new(),
        data_runs: Vec::new(),
    }
}

#[test]
fn mft_record_paths_fall_back_to_name_then_number() {
    let named = record(5, Some("a.txt"));
    let unnamed = record(6, None);
    let map = mft_path_map(&[]);
    let mut cache = HashMap::new();
    assert_eq!(mft_record_path(&named, &map, &mut cache), "a.txt");
    assert_eq!(mft_record_path(&unnamed, &map, &mut cache), "$MFT_RECORD_6");
}

#[test]
fn mft_record_report_for_deleted_file_with_stream() {
    let mut r = record(7, Some("a.txt"));
    r.in_use = false;
    r.si_created = Some("2021-01-01T00:00:00+00:00".to_string());
    r.fn_created = Some("2020-01-01T00:00:00+00:00".to_string());
    r.attributes = vec![
        MftAttributeSummary { attr_type_name: "DATA", non_resident: true },
        MftAttributeSummary { attr_type_name: "FILE_NAME", non_resident: false },
    ];
    r.data_runs = vec![
        MftDataRunSummary { vcn_start: 0, cluster_count: 10, lcn: Some(100), sparse: false },
        MftDataRunSummary { vcn_start: 10, cluster_count: 5, lcn: None, sparse: true },
    ];
    r.resident_contents = vec![MftResidentContentSummary {
        attribute_id: Some(3),
        attr_type_name: "DATA",
        name: Some("Zone.Identifier".to_string()),
        value_offset: 0,
        value_length: 26,
        sha256: "00".to_string(),
        text_preview: None,
        host_url: Some("http://x.test/a".to_string()),
        zone_id: Some("3".to_string()),
        referrer_url: None,
        stream_kind: "ads",
    }];
    let report = mft_record_report(&r, "C:\\Users\\bob\\a.txt");
    assert_eq!(report.path, "C:\\Users\\bob\\a.txt");
    assert_eq!(report.user_name.as_deref(), Some("bob"));
    assert_eq!(report.data_run_count, 2);
    assert_eq!(report.non_resident_attribute_count, 1);
    assert_eq!(report.sparse_data_run_count, 1);
    assert_eq!(report.data_run_total_clusters, 15);
    assert_eq!(report.first_data_run.unwrap().lcn, Some(100));
    assert!(report.structure_available);
    assert!(report.deleted);
    assert_eq!(report.severity, "medium");
    assert_eq!(report.time_events.len(), 2);
    assert_eq!(report.time_events[0].action, "mft_created");
    assert_eq!(report.time_events[0].time_source, "standard_information");
    assert_eq!(report.time_events[0].message, "MFT mft_created: record=7 deleted=true");
    assert_eq!(report.time_events[1].action, "mft_filename_created");
    assert_eq!(report.time_events[1].time_source, "file_name");
    assert_eq!(report.time_events[1].event_time, "2020-01-01T00:00:00+00:00");
    assert_eq!(report.content_events.len(), 1);
    let c = &report.content_events[0];
    assert_eq!(c.action, "mft_ads_resident_content_observed");
    assert_eq!(c.stream_path, "C:\\Users\\bob\\a.txt:Zone.Identifier");
    assert_eq!(c.severity, "medium");
    assert_eq!(
        c.message,
        "MFT ADS resident content observed: record=7 stream=Zone.Identifier HostUrl=http://x.test/a ZoneId=3"
    );
    assert_eq!(c.url.as_deref(), Some("http://x.test/a"));
}

#[test]
fn mft_totals_wrap_like_unsigned_sums() {
    let mut r = record(1, Some("big"));
    r.data_runs = vec![
        MftDataRunSummary { vcn_start: 0, cluster_count: u64::MAX, lcn: Some(1), sparse: false },
        MftDataRunSummary { vcn_start: 0, cluster_count: 2, lcn: Some(1), sparse: false },
    ];
    let report = mft_record_report(&r, "big");
    assert_eq!(report.data_run_total_clusters, 1);
    assert_eq!(report.severity, "info");
    assert_eq!(report.time_events.len(), 0);
}

#[test]
fn onedrive_lines_are_reported_once() {
    let text = "2021-03-04 05:06:07 Uploading file C:\\Users\\bob\\OneDrive\\doc.txt\n\n\
2021-03-04 05:06:07 Uploading file C:\\Users\\bob\\OneDrive\\doc.txt\nplain\n";
    let path = "C:\\Users\\bob\\AppData\\Local\\Microsoft\\OneDrive\\logs\\SyncEngine.odl";
    let signals = onedrive_signals(path, b"", Some(text));
    assert_eq!(signals.len(), 2);
    let first = &signals[0];
    assert!(first.from_line);
    assert_eq!(first.index, 0);
    assert_eq!(first.time_original.as_deref(), Some("2021-03-04 05:06:07"));
    assert_eq!(first.event_time.as_deref(), Some("2021-03-04T05:06:07+00:00"));
    assert_eq!(first.message, "Uploading file C:\\Users\\bob\\OneDrive\\doc.txt");
    assert_eq!(first.action, "onedrive_upload_observed");
    assert!(first.timestamp_confident);
    let second = &signals[1];
    assert_eq!(second.index, 2);
    assert_eq!(second.text, "plain");
    assert_eq!(second.time_original, None);
    assert_eq!(second.message, "plain");
    assert_eq!(second.file_path.as_deref(), Some(path));
    assert!(!second.timestamp_confident);
}

#[test]
fn onedrive_binary_strings() {
    let bytes = b"\x00\x01OneDrive sync started\x00\x02boring text\x00\x03OneDrive sync started\x00";
    let signals = onedrive_signals("C:\\x\\log.odl", bytes, None);
    assert_eq!(signals.len(), 1);
    assert!(!signals[0].from_line);
    assert_eq!(signals[0].message, "OneDrive signal: OneDrive sync started");
    assert_eq!(signals[0].file_path.as_deref(), Some("C:\\x\\log.odl"));
    assert_eq!(signals[0].event_time, None);
}

#[test]
fn mft_records_report_walks_parents() {
    let mut root = record(5, Some("."));
    root.parent_record_number = Some(5);
    let mut dir = record(40, Some("Users"));
    dir.parent_record_number = Some(5);
    dir.parent_sequence_number = Some(1);
    let mut file = record(41, Some("a.txt"));
    file.parent_record_number = Some(40);
    file.parent_sequence_number = Some(1);
    let report = mft_records_report(&[root, dir, file]);
    assert_eq!(report.total_record_count, 3);
    assert_eq!(report.selected_record_count, 3);
    assert_eq!(report.omitted_record_count, None);
    let paths: Vec<&str> = report.reports.iter().map(|r| r.path.as_str()).collect();
    assert_eq!(paths, vec!["", "Users", "Users\\a.txt"]);
}

#[test]
fn mft_records_report_of_nothing() {
    let report = mft_records_report(&[]);
    assert_eq!(report.total_record_count, 0);
    assert!(report.reports.is_empty());
}
