use taotie_parsers::csv::csv_rows;
use taotie_parsers::lnk_meta::lnk_summary;
use taotie_parsers::mft::parse_mft_records;
use taotie_parsers::route::ParseRoute;
use taotie_parsers::scca::{
    prefetch_binary_summary, prefetch_export_summary, summarize_prefetch_binary,
    summarize_prefetch_core,
};
use taotie_parsers::task::scheduled_task_summary;
use taotie_parsers::usn::parse_usn_records;
use taotie_parsers::{ParserError, ParserInput, StructuredArtifactParser};

fn filetime_of_unix(seconds: u64) -> u64 {
    seconds * 10_000_000 + 116_444_736_000_000_000
}

fn utf16(text: &str) -> Vec<u8> {
    text.encode_utf16().flat_map(|unit| unit.to_le_bytes()).collect()
}

fn put_u32(bytes: &mut [u8], at: usize, value: u32) {
    bytes[at..at + 4].copy_from_slice(&value.to_le_bytes());
}

fn input(path: &str, artifact_type: &str, bytes: &[u8]) -> ParserInput {
    ParserInput {
        case_id: "case".to_string(),
        source_file_id: "source".to_string(),
        object_ref: "object".to_string(),
        original_path: path.to_string(),
        artifact_type: artifact_type.to_string(),
        parse_run_id: "run".to_string(),
        bytes: bytes.to_vec(),
    }
}

fn usn_record(name: &str, file_reference: u64) -> Vec<u8> {
    let mut r = vec![0u8; 96];
    put_u32(&mut r, 0, 96);
    r[4..6].copy_from_slice(&2u16.to_le_bytes());
    r[8..16].copy_from_slice(&file_reference.to_le_bytes());
    r[16..24].copy_from_slice(&5u64.to_le_bytes());
    r[24..32].copy_from_slice(&1000i64.to_le_bytes());
    r[32..40].copy_from_slice(&filetime_of_unix(1_609_459_200).to_le_bytes());
    put_u32(&mut r, 40, 0x100);
    put_u32(&mut r, 52, 0x20);
    let encoded = utf16(name);
    r[56..58].copy_from_slice(&(encoded.len() as u16).to_le_bytes());
    r[58..60].copy_from_slice(&60u16.to_le_bytes());
    r[60..60 + encoded.len()].copy_from_slice(&encoded);
    r
}

#[test]
fn usn_journal_scan_skips_gaps() {
    let mut bytes = usn_record("a.txt", 0x0005_0000_0000_002a);
    bytes.extend([0u8; 8]);
    bytes.extend(usn_record("b.txt", 43));
    let records = parse_usn_records(&bytes);
    assert_eq!(records.len(), 2);
    assert_eq!(records[0].record_index, 1);
    assert_eq!(records[0].record_offset, 0);
    assert_eq!(records[0].file_reference, 42);
    assert_eq!(records[0].parent_file_reference, 5);
    assert_eq!(records[0].usn, 1000);
    assert_eq!(records[0].timestamp.as_deref(), Some("2021-01-01T00:00:00+00:00"));
    assert_eq!(records[0].reason, 0x100);
    assert_eq!(records[0].file_attributes, 0x20);
    assert_eq!(records[0].file_name, "a.txt");
    assert_eq!(records[1].record_index, 2);
    assert_eq!(records[1].record_offset, 104);
    assert_eq!(records[1].file_name, "b.txt");
    assert!(parse_usn_records(&[0u8; 59]).is_empty());
}

#[test]
fn mft_image_records_by_position() {
    let mut bytes = vec![0u8; 3 * 1024];
    bytes[0..4].copy_from_slice(b"FILE");
    bytes[2048..2052].copy_from_slice(b"FILE");
    let records = parse_mft_records(&bytes).unwrap();
    assert_eq!(records.len(), 2);
    assert_eq!(records[0].record_number, 0);
    assert_eq!(records[1].record_number, 2);
    assert_eq!(records[1].record_offset, 2048);
    assert_eq!(records[1].record_size, 1024);
    match parse_mft_records(&[0u8; 2048]) {
        Err(ParserError::Failed(message)) => {
            assert_eq!(message, "native $MFT parser could not detect record size")
        }
        other => panic!("unexpected result: {other:?}"),
    }
}

#[test]
fn csv_rows_use_the_first_nonblank_line_as_header() {
    let rows = csv_rows("\n Event ID , Computer \n\n4624,\"host, one\"\n4625\n");
    assert_eq!(rows.len(), 2);
    assert_eq!(
        rows[0],
        vec![
            ("eventid".to_string(), "4624".to_string()),
            ("computer".to_string(), "host, one".to_string())
        ]
    );
    assert_eq!(rows[1], vec![("eventid".to_string(), "4625".to_string())]);
    assert!(csv_rows("  \n\n").is_empty());
    assert!(csv_rows("only,header").is_empty());
}

#[test]
fn scheduled_task_with_encoded_powershell() {
    let text = "<Task><RegistrationInfo><Author>CORP\\admin</Author><URI>\\Updater</URI></RegistrationInfo>\
<Triggers><CalendarTrigger><StartBoundary>2021-03-04T05:06:07</StartBoundary></CalendarTrigger></Triggers>\
<Principals><Principal><UserId>S-1-5-18</UserId></Principal></Principals>\
<Actions><Exec><Command>powershell.exe</Command><Arguments>-enc AAAA</Arguments></Exec></Actions></Task>";
    let s = scheduled_task_summary("C:\\Windows\\System32\\Tasks\\Updater", text);
    assert_eq!(s.uri.as_deref(), Some("\\Updater"));
    assert_eq!(s.task_name, "\\Updater");
    assert_eq!(s.author.as_deref(), Some("CORP\\admin"));
    assert_eq!(s.user_id.as_deref(), Some("S-1-5-18"));
    assert_eq!(s.command_line, "powershell.exe -enc AAAA");
    assert_eq!(s.process_name.as_deref(), Some("powershell.exe"));
    assert_eq!(s.file_path, "powershell.exe");
    assert_eq!(s.severity, "high");
    assert_eq!(s.action, "scheduled_task_suspicious_exec");
    assert_eq!(s.event_time.as_deref(), Some("2021-03-04T05:06:07+00:00"));
    assert_eq!(
        s.message,
        "Scheduled task observed: \\Updater command=powershell.exe -enc AAAA"
    );
    let exec = s.exec_event.as_ref().expect("exec event");
    assert_eq!(exec.action, "scheduled_task_exec_action");
    assert_eq!(exec.severity, "high");
    assert_eq!(exec.time_kind, "scheduled_task_exec_action_observed");
    assert_eq!(exec.message, "Scheduled task exec action: \\Updater command=powershell.exe -enc AAAA");
    let trigger = s.trigger_event.as_ref().expect("trigger event");
    assert_eq!(trigger.action, "scheduled_task_trigger_observed");
    assert_eq!(trigger.severity, "info");
    assert_eq!(trigger.message, "Scheduled task trigger observed: 2021-03-04T05:06:07");
}

#[test]
fn scheduled_task_without_command() {
    let s = scheduled_task_summary("C:\\Users\\bob\\Tasks\\Daily", "<Task></Task>");
    assert_eq!(s.uri.as_deref(), Some("Daily"));
    assert_eq!(s.task_name, "Daily");
    assert_eq!(s.command_line, "");
    assert_eq!(s.file_path, "C:\\Users\\bob\\Tasks\\Daily");
    assert_eq!(s.severity, "info");
    assert_eq!(s.action, "scheduled_task_observed");
    assert_eq!(s.message, "Scheduled task observed: Daily");
    assert_eq!(s.event_time, None);
    assert!(s.exec_event.is_none());
    assert!(s.trigger_event.is_none());
}

#[test]
fn shortcut_summaries() {
    let mut bytes = vec![0u8; 0x4c];
    bytes[0..4].copy_from_slice(&0x4cu32.to_le_bytes());
    bytes[0x14..0x18].copy_from_slice(&0xa8u32.to_le_bytes());
    bytes[0x1c..0x24].copy_from_slice(&filetime_of_unix(1_577_836_800).to_le_bytes());
    for text in ["..\\a.exe", "-x"] {
        bytes.extend((text.len() as u16).to_le_bytes());
        bytes.extend(utf16(text));
    }
    bytes.extend([0u8; 4]);
    let s = lnk_summary("C:\\Users\\bob\\Desktop\\a.lnk", &bytes);
    assert!(s.metadata.header_valid);
    assert_eq!(s.target.as_deref(), Some("..\\a.exe"));
    assert_eq!(s.process_name.as_deref(), Some("a.exe"));
    assert_eq!(s.event_time.as_deref(), Some("2020-01-01T00:00:00+00:00"));
    assert_eq!(s.action, "lnk_target_executable_observed");
    assert_eq!(s.severity, "medium");
    assert_eq!(s.target_severity, Some("medium"));
    assert_eq!(s.message, "LNK observed: C:\\Users\\bob\\Desktop\\a.lnk -> ..\\a.exe");

    let guessed = lnk_summary("C:\\x\\Report.pdf.lnk", b"\x00\x01");
    assert!(!guessed.metadata.header_valid);
    assert_eq!(guessed.target.as_deref(), Some("Report.pdf"));
    assert_eq!(guessed.action, "lnk_observed");
    assert_eq!(guessed.severity, "info");
    assert_eq!(guessed.target_severity, Some("low"));
    assert_eq!(guessed.event_time, None);
    assert_eq!(guessed.message, "LNK observed: C:\\x\\Report.pdf.lnk -> Report.pdf");
}

fn legacy_prefetch() -> Vec<u8> {
    let mut bytes = vec![0u8; 0x100];
    put_u32(&mut bytes, 0, 23);
    bytes[4..8].copy_from_slice(b"SCCA");
    put_u32(&mut bytes, 0x98, 2);
    bytes[0x80..0x88].copy_from_slice(&filetime_of_unix(1_609_459_200).to_le_bytes());
    bytes
}

const PF_PATH: &str = "C:\\Windows\\Prefetch\\CMD.EXE-AABBCCDD.pf";

#[test]
fn prefetch_structure_summary_for_legacy_file() {
    let bytes = legacy_prefetch();
    let s = prefetch_binary_summary(PF_PATH, &bytes, None);
    assert_eq!(s.process_name, "cmd.exe");
    assert_eq!(s.version, Some(23));
    assert_eq!(s.structure.run_count, Some(2));
    assert_eq!(s.run_times, vec!["2021-01-01T00:00:00+00:00".to_string()]);
    assert_eq!(s.prefetch_file_name.as_deref(), Some("CMD.EXE-AABBCCDD.pf"));
    assert_eq!(s.prefetch_hash.as_deref(), Some("aabbccdd"));
    assert_eq!(s.suspicion.as_deref(), Some("lolbin_or_script_interpreter_execution"));
    assert_eq!(s.severity, "medium");
    assert_eq!(s.offset_basis, "raw_object");
    assert_eq!(s.message, "Prefetch execution: cmd.exe run_count=2");

    // prefetch_core passes raw SCCA bytes through, and cannot decode version 23.
    let through = summarize_prefetch_binary(PF_PATH, &bytes);
    assert_eq!(through.offset_basis, "scca_decompressed");
    assert_eq!(through.run_times, s.run_times);
    assert!(summarize_prefetch_core(PF_PATH, &bytes).is_none());
    let unknown = summarize_prefetch_binary("C:\\x\\odd.pf", b"\x00\x01\x02");
    assert_eq!(unknown.offset_basis, "raw_object");
    assert_eq!(unknown.message, "Prefetch file observed: C:\\x\\odd.pf");
}

#[test]
fn prefetch_core_summary_for_version_30() {
    let mut bytes = vec![0u8; 0x200];
    put_u32(&mut bytes, 0, 30);
    bytes[4..8].copy_from_slice(b"SCCA");
    let exe = utf16("TOOL.EXE");
    bytes[16..16 + exe.len()].copy_from_slice(&exe);
    let names = utf16("\\VOLUME{X}\\USERS\\BOB\\APPDATA\\A.DLL\0\\VOLUME{X}\\TOOLS\\TOOL.EXE\0");
    put_u32(&mut bytes, 84 + 16, 0x100);
    put_u32(&mut bytes, 84 + 20, names.len() as u32);
    bytes[0x100..0x100 + names.len()].copy_from_slice(&names);
    put_u32(&mut bytes, 84 + 24, 0x180);
    put_u32(&mut bytes, 84 + 28, 1);
    bytes[128..136].copy_from_slice(&filetime_of_unix(1_609_459_200).to_le_bytes());
    put_u32(&mut bytes, 84 + 124, 3);
    let device = utf16("\\VOLUME{X}");
    put_u32(&mut bytes, 0x180, 0x60);
    put_u32(&mut bytes, 0x184, 10);
    bytes[0x188..0x190].copy_from_slice(&(filetime_of_unix(1_577_836_800) as i64).to_le_bytes());
    put_u32(&mut bytes, 0x190, 0xabcd);
    bytes[0x1e0..0x1e0 + device.len()].copy_from_slice(&device);

    let s = summarize_prefetch_core("C:\\Windows\\Prefetch\\TOOL.EXE-1234ABCD.pf", &bytes).unwrap();
    assert_eq!(s.process_name, "TOOL.EXE");
    assert_eq!(s.prefetch_hash.as_deref(), Some("1234abcd"));
    assert_eq!(
        s.referenced_files,
        vec!["\\VOLUME{X}\\USERS\\BOB\\APPDATA\\A.DLL".to_string()]
    );
    assert_eq!(s.suspicion.as_deref(), Some("referenced_file_in_user_writable_path"));
    assert_eq!(s.severity, "medium");
    assert_eq!(s.container, "scca_raw");
    assert_eq!(s.decompressed_size, None);
    assert_eq!(s.version_family, "windows_10_v30");
    assert!(s.structure.is_some());
    assert_eq!(s.volume_strings, vec!["\\VOLUME{X}".to_string()]);
    assert_eq!(s.volume_serials, vec!["0000ABCD".to_string()]);
    assert_eq!(s.volume_creation_times, vec!["2020-01-01T00:00:00+00:00".to_string()]);
    assert_eq!(s.run_times, vec!["2021-01-01T00:00:00+00:00".to_string()]);
    assert_eq!(s.message, "Prefetch execution: TOOL.EXE run_count=3");
}

#[test]
fn prefetch_export_row_summary() {
    let row: Vec<(String, String)> = [
        ("executablename", "CMD.EXE"),
        ("sourcefilename", "C:\\Windows\\Prefetch\\CMD.EXE-AABBCCDD.pf"),
        ("runcount", "5"),
        ("lastrun", "2021-03-04 05:06:07"),
        ("previousrun0", "garbage"),
        ("fullpath", "C:\\Windows\\System32\\cmd.exe"),
    ]
    .iter()
    .map(|(k, v)| (k.to_string(), v.to_string()))
    .collect();
    let s = prefetch_export_summary("C:\\exports\\pecmd.csv", &row);
    assert_eq!(s.executable, "CMD.EXE");
    assert_eq!(s.file_path, "C:\\Windows\\System32\\cmd.exe");
    assert_eq!(s.process_name.as_deref(), Some("CMD.EXE"));
    assert_eq!(s.run_count.as_deref(), Some("5"));
    assert_eq!(s.run_count_value, Some(5));
    assert_eq!(s.prefetch_file_name.as_deref(), Some("CMD.EXE-AABBCCDD.pf"));
    assert_eq!(s.prefetch_hash.as_deref(), Some("aabbccdd"));
    assert_eq!(s.severity, "medium");
    assert_eq!(s.runs.len(), 1);
    assert_eq!(s.runs[0].time_kind, "prefetch_last_run");
    assert_eq!(s.runs[0].time_original, "2021-03-04 05:06:07");
    assert_eq!(s.runs[0].event_time, "2021-03-04T05:06:07+00:00");
    assert_eq!(s.target, "CMD.EXE");
    assert_eq!(s.run_message, "Prefetch execution: CMD.EXE run_count=5");
    assert_eq!(s.observed_time_original, "");
    assert_eq!(s.observed_time, None);
    assert_eq!(s.observed_message, "Prefetch execution observed: CMD.EXE");

    let bare: Vec<(String, String)> = vec![("runcount".to_string(), "-1".to_string())];
    let b = prefetch_export_summary("C:\\x\\export.csv", &bare);
    assert_eq!(b.executable, "C:\\x\\export.csv");
    assert_eq!(b.run_count_value, None);
    assert_eq!(b.process_name.as_deref(), Some("export.csv"));
}

#[test]
fn parser_routes() {
    let parser = StructuredArtifactParser;
    assert!(matches!(parser.route(&input("  ", "evtx", b"ElfFile\0")), ParseRoute::Unsupported));
    assert!(matches!(parser.route(&input("C:\\logs\\Security.evtx", "evtx", b"ElfFile\0rest")), ParseRoute::Evtx));
    assert!(matches!(parser.route(&input("C:\\x\\a.lnk", "lnk", &[0x4c, 0, 0, 0])), ParseRoute::Lnk));
    assert!(matches!(parser.route(&input("C:\\$MFT", "mft", b"FILE0")), ParseRoute::Mft));
    assert!(matches!(
        parser.route(&input("C:\\Windows\\Prefetch\\X.EXE-1.pf", "prefetch", &legacy_prefetch())),
        ParseRoute::PrefetchBinary
    ));
    match parser.route(&input("C:\\x\\NTUSER.DAT", "registry_hive", b"regf....")) {
        ParseRoute::RegistryStrings { artifact_type } => assert_eq!(artifact_type, "registry_hive"),
        other => panic!("unexpected route: {other:?}"),
    }
    match parser.route(&input("C:\\x\\sync.log", "onedrive_log", b"line one")) {
        ParseRoute::Onedrive { text } => assert_eq!(text.as_deref(), Some("line one")),
        other => panic!("unexpected route: {other:?}"),
    }
    let compressed = [
        31u8, 139, 8, 0, 0, 0, 0, 0, 2, 3, 203, 72, 205, 201, 201, 87, 72, 175, 202, 44, 0, 0, 25,
        106, 210, 223, 10, 0, 0, 0,
    ];
    match parser.route(&input("C:\\x\\app.log.gz", "text_log", &compressed)) {
        ParseRoute::GzipText { text } => assert_eq!(text, "hello gzip"),
        other => panic!("unexpected route: {other:?}"),
    }
    match parser.route(&input("C:\\x\\broken.gz", "text_log", b"\x1f\x8bnot really")) {
        ParseRoute::GzipFailed { message } => {
            assert!(message.starts_with("gzip decode failed: parse failed: gzip decode failed: "))
        }
        other => panic!("unexpected route: {other:?}"),
    }
    match parser.route(&input("C:\\x\\notes.txt", "", b"plain words")) {
        ParseRoute::Detected { artifact_type, text } => {
            assert_eq!(text, "plain words");
            assert!(!artifact_type.is_empty());
        }
        other => panic!("unexpected route: {other:?}"),
    }
    assert!(matches!(
        parser.route(&input("C:\\x\\blob.bin", "", &[0u8, 1, 2, 3, 4, 5, 6, 7, 8, 9, 10, 11])),
        ParseRoute::FileMetadata
    ));
}

#[test]
fn parser_error_text() {
    assert_eq!(ParserError::Failed("x".to_string()).to_text(), "parse failed: x");
    assert_eq!(
        ParserError::Unsupported("y".to_string()).to_text(),
        "artifact is unsupported: y"
    );
}
