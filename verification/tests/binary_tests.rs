use taotie_parsers::ese::{ese_page_table_name_hints, ese_tag_value_preview};
use taotie_parsers::lnk_meta::parse_lnk_metadata;
use taotie_parsers::mft::{apply_mft_fixup, mft_attribute_type_name, parse_mft_data_runs};
use taotie_parsers::prefetch::{
    prefetch_header_executable_name, prefetch_layout, prefetch_run_count_with_offset,
    prefetch_run_time_entries, read_prefetch_filename_string,
};
use taotie_parsers::strings::{
    ascii_preview_for_metadata, extract_ascii_strings_with_offsets, extract_forensic_strings,
    extract_utf16le_strings_with_offsets, sanitize_display_text,
};

fn filetime_of_unix(seconds: u64) -> u64 {
    seconds * 10_000_000 + 116_444_736_000_000_000
}

fn utf16(text: &str) -> Vec<u8> {
    text.encode_utf16().flat_map(|unit| unit.to_le_bytes()).collect()
}

#[test]
fn prefetch_layouts_by_version() {
    let v23 = prefetch_layout(Some(23));
    assert_eq!(v23.family, "windows_vista_7_v23");
    assert_eq!(v23.file_metrics_entry_size, 32);
    assert_eq!(v23.run_count_offsets, vec![0x98, 0x90]);
    assert_eq!(v23.run_time_offsets, vec![0x80, 0x78]);
    let v30 = prefetch_layout(Some(30));
    assert_eq!(v30.trace_chain_entry_size, 8);
    assert_eq!(prefetch_layout(Some(31)).family, "windows_11_v31");
    assert_eq!(prefetch_layout(None).family, "unknown_prefetch_layout");
    assert_eq!(prefetch_layout(Some(17)).run_count_offsets, vec![0x90]);
}

#[test]
fn prefetch_run_count_skips_implausible_values() {
    let layout = prefetch_layout(Some(23));
    let mut bytes = vec![0u8; 0x100];
    bytes[0x90..0x94].copy_from_slice(&5u32.to_le_bytes());
    assert_eq!(prefetch_run_count_with_offset(&bytes, &layout), Some((5, 0x90)));
    bytes[0x98..0x9c].copy_from_slice(&7u32.to_le_bytes());
    assert_eq!(prefetch_run_count_with_offset(&bytes, &layout), Some((7, 0x98)));
    bytes[0x98..0x9c].copy_from_slice(&200_000u32.to_le_bytes());
    assert_eq!(prefetch_run_count_with_offset(&bytes, &layout), Some((5, 0x90)));
    assert_eq!(prefetch_run_count_with_offset(&bytes[..0x90], &layout), None);
}

#[test]
fn prefetch_run_times_newest_first() {
    let layout = prefetch_layout(Some(23));
    let mut bytes = vec![0u8; 0x100];
    bytes[0x80..0x88].copy_from_slice(&filetime_of_unix(1_577_836_800).to_le_bytes());
    bytes[0x78..0x80].copy_from_slice(&filetime_of_unix(1_609_459_200).to_le_bytes());
    let entries = prefetch_run_time_entries(&bytes, &layout);
    assert_eq!(entries.len(), 2);
    assert_eq!(entries[0].execution_index, 0);
    assert_eq!(entries[0].offset, 0x78);
    assert_eq!(entries[0].timestamp, "2021-01-01T00:00:00+00:00");
    assert_eq!(entries[1].execution_index, 1);
    assert_eq!(entries[1].offset, 0x80);
    assert_eq!(entries[1].timestamp, "2020-01-01T00:00:00+00:00");
}

#[test]
fn prefetch_header_name_and_filename_strings() {
    let mut bytes = vec![0u8; 0x4c];
    let name = utf16("CMD.EXE");
    bytes[0x10..0x10 + name.len()].copy_from_slice(&name);
    assert_eq!(prefetch_header_executable_name(&bytes), Some("CMD.EXE".to_string()));
    assert_eq!(prefetch_header_executable_name(&bytes[..0x4b]), None);

    let mut table = utf16("AB");
    table.extend(utf16("\\X.DLL"));
    assert_eq!(read_prefetch_filename_string(&table, 0, 4, 6), Some("\\X.DLL".to_string()));
    assert_eq!(read_prefetch_filename_string(&table, 0, 0, 0), None);
    assert_eq!(read_prefetch_filename_string(&table, 0, 100, 2), None);
}

#[test]
fn ese_strings() {
    assert_eq!(ese_tag_value_preview(b"\x00\x01abc\x00defgh"), Some("defgh".to_string()));
    assert_eq!(ese_tag_value_preview(b"\x00ab\x00"), None);
    assert_eq!(
        ese_page_table_name_hints(b"MSysObjects\x00randomdata\x00WebCacheTable\x00"),
        vec!["MSysObjects".to_string(), "WebCacheTable".to_string()]
    );
}

#[test]
fn string_extraction() {
    assert_eq!(
        extract_ascii_strings_with_offsets(b"\x00abcd\x01xy\x02hello world"),
        vec![(1, "abcd".to_string()), (9, "hello world".to_string())]
    );
    assert_eq!(
        extract_utf16le_strings_with_offsets(b"A\x00B\x00C\x00D\x00\x00\x00"),
        vec![(0, "ABCD".to_string())]
    );
    assert_eq!(
        extract_forensic_strings(b"abcd\x00abcd\x00xyz\x00", 10),
        vec!["abcd".to_string()]
    );
    assert_eq!(
        extract_forensic_strings(b"abcd\x00efgh\x00", 1),
        vec!["abcd".to_string()]
    );
    assert_eq!(sanitize_display_text("a\u{0}\u{1}  b\u{fffd}c "), "a b c");
    assert_eq!(ascii_preview_for_metadata(&[b'a', 0, b'\n', 0xff]), "a \n ");
}

#[test]
fn mft_data_runs_decode_deltas() {
    let runs = parse_mft_data_runs(&[0x21, 0x10, 0x00, 0x01, 0x11, 0x05, 0xff, 0x01, 0x08, 0x00]);
    assert_eq!(runs.len(), 3);
    assert_eq!((runs[0].vcn_start, runs[0].cluster_count, runs[0].lcn, runs[0].sparse), (0, 16, Some(256), false));
    assert_eq!((runs[1].vcn_start, runs[1].cluster_count, runs[1].lcn, runs[1].sparse), (16, 5, Some(255), false));
    assert_eq!((runs[2].vcn_start, runs[2].cluster_count, runs[2].lcn, runs[2].sparse), (21, 8, None, true));
    assert!(parse_mft_data_runs(&[0x00, 0x11]).is_empty());
}

#[test]
fn mft_fixup_restores_sector_tails() {
    let mut record = vec![0u8; 1024];
    record[4..6].copy_from_slice(&0x30u16.to_le_bytes());
    record[6..8].copy_from_slice(&3u16.to_le_bytes());
    record[0x30..0x36].copy_from_slice(&[0xaa, 0xbb, 0x11, 0x22, 0x33, 0x44]);
    record[510] = 0xaa;
    record[511] = 0xbb;
    let fixed = apply_mft_fixup(&record).unwrap();
    assert_eq!(&fixed[510..512], &[0x11, 0x22]);
    assert_eq!(&fixed[1022..1024], &[0x33, 0x44]);
    assert_eq!(&fixed[..510], &record[..510]);
    record[6..8].copy_from_slice(&1u16.to_le_bytes());
    assert_eq!(apply_mft_fixup(&record), None);
    assert_eq!(mft_attribute_type_name(0x30), "FILE_NAME");
    assert_eq!(mft_attribute_type_name(0x31), "UNKNOWN");
}

#[test]
fn lnk_metadata_from_string_data() {
    let mut bytes = vec![0u8; 0x4c];
    bytes[0..4].copy_from_slice(&0x4cu32.to_le_bytes());
    bytes[0x14..0x18].copy_from_slice(&0xa8u32.to_le_bytes());
    bytes[0x34..0x38].copy_from_slice(&1234u32.to_le_bytes());
    bytes[0x1c..0x24].copy_from_slice(&filetime_of_unix(1_577_836_800).to_le_bytes());
    for text in ["..\\a.exe", "-x"] {
        bytes.extend((text.len() as u16).to_le_bytes());
        bytes.extend(utf16(text));
    }
    bytes.extend([0u8; 4]);
    let meta = parse_lnk_metadata(&bytes);
    assert!(meta.header_valid);
    assert_eq!(meta.link_flags, Some(0xa8));
    assert_eq!(meta.file_size, Some(1234));
    assert_eq!(meta.created_at.as_deref(), Some("2020-01-01T00:00:00+00:00"));
    assert_eq!(meta.accessed_at, None);
    assert_eq!(meta.relative_path.as_deref(), Some("..\\a.exe"));
    assert_eq!(meta.arguments.as_deref(), Some("-x"));
    assert_eq!(meta.working_dir, None);
    assert_eq!(meta.target_path.as_deref(), Some("..\\a.exe"));
    assert_eq!(meta.machine_id_hint, None);
    assert!(meta.extra_data_blocks.is_empty());

    let invalid = parse_lnk_metadata(&bytes[..0x4b]);
    assert!(!invalid.header_valid);
    assert_eq!(invalid.link_flags, None);
}

#[test]
fn data_runs_are_continuous() {
    let runs = parse_mft_data_runs(&[0x11, 0x04, 0x20, 0x01, 0x03, 0x21, 0x02, 0x10, 0x00, 0x00]);
    assert_eq!(runs.len(), 3);
    assert_eq!(runs[0].vcn_start, 0);
    assert_eq!(runs[0].lcn, Some(32));
    for w in runs.windows(2) {
        assert_eq!(w[1].vcn_start, w[0].vcn_start + w[0].cluster_count);
    }
    for r in &runs {
        assert_eq!(r.sparse, r.lcn.is_none());
    }
    assert!(runs[1].sparse);
}
