use taotie_parsers::decode::{
    be_units_of, clean_opt, decode_text, decode_text_lossless, decode_utf16, decode_utf16le_lossy,
    decompress_gzip, filetime_i64_rfc3339, filetime_u64_rfc3339, format_guid_le, ini_value,
    le_units_of, lnk_hex, read_filetime_rfc3339, sha256_hex,
};
use taotie_parsers::ParserError;

#[test]
fn decode_utf16_accepts_valid_units() {
    let units = [0x0048u16, 0x0069, 0xd83d, 0xde00];
    assert_eq!(decode_utf16(&units).unwrap(), "Hi\u{1F600}");
}

#[test]
fn decode_utf16_rejects_lone_surrogate() {
    match decode_utf16(&[0x0041, 0xd800]) {
        Err(ParserError::Failed(message)) => assert_eq!(
            message,
            "input is not supported utf-16: invalid utf-16: lone surrogate found"
        ),
        other => panic!("unexpected result: {other:?}"),
    }
}

#[test]
fn unit_readers_pair_bytes_and_drop_odd_tail() {
    assert_eq!(le_units_of(&[0x41, 0x00, 0x42, 0x01, 0x7f]), vec![0x0041, 0x0142]);
    assert_eq!(be_units_of(&[0x00, 0x41, 0x01, 0x42]), vec![0x0041, 0x0142]);
}

#[test]
fn decode_text_reads_utf8_and_boms() {
    assert_eq!(decode_text(b"plain text").unwrap(), "plain text");
    assert_eq!(decode_text(&[0xff, 0xfe, 0x41, 0x00, 0x42, 0x00]).unwrap(), "AB");
    assert_eq!(decode_text(&[0xfe, 0xff, 0x00, 0x41, 0x00, 0x42]).unwrap(), "AB");
}

#[test]
fn decode_text_sniffs_utf16le_without_bom() {
    let mut bytes = Vec::new();
    for ch in "utf sixteen text here".chars() {
        bytes.push(ch as u8);
        bytes.push(0);
    }
    assert_eq!(decode_text(&bytes).unwrap(), "utf sixteen text here");
}

#[test]
fn decode_text_falls_back_to_shift_jis() {
    assert_eq!(decode_text(&[0x93, 0xfa, 0x96, 0x7b]).unwrap(), "日本");
}

#[test]
fn decode_text_reports_undecodable_bytes() {
    match decode_text(&[0x41, 0xfd]) {
        Err(ParserError::Failed(message)) => assert_eq!(
            message,
            "input is not supported text: invalid utf-8 sequence of 1 bytes from index 1"
        ),
        other => panic!("unexpected result: {other:?}"),
    }
}

#[test]
fn decode_text_lossless_filters_binary_noise() {
    assert_eq!(decode_text_lossless(&[]), Some(String::new()));
    assert_eq!(decode_text_lossless(b"hello\nworld"), Some("hello\nworld".to_string()));
    assert_eq!(decode_text_lossless(&[1, 2, 3, 4, 5, 6, 7, 8, 0x41]), None);
}

#[test]
fn decompress_gzip_inflates_and_reports_errors() {
    let compressed = [
        31u8, 139, 8, 0, 0, 0, 0, 0, 2, 3, 203, 72, 205, 201, 201, 87, 72, 175, 202, 44, 0, 0, 25,
        106, 210, 223, 10, 0, 0, 0,
    ];
    assert_eq!(decompress_gzip(&compressed).unwrap(), b"hello gzip".to_vec());
    match decompress_gzip(b"not gzip at all") {
        Err(ParserError::Failed(message)) => assert!(message.starts_with("gzip decode failed: ")),
        other => panic!("unexpected result: {other:?}"),
    }
}

#[test]
fn utf16le_lossy_trims_nuls_and_space() {
    assert_eq!(decode_utf16le_lossy(&[0x20, 0, 0x41, 0, 0x42, 0, 0, 0, 0, 0]), "AB");
}

#[test]
fn filetime_conversions() {
    assert_eq!(filetime_u64_rfc3339(0), None);
    assert_eq!(filetime_u64_rfc3339(1), None);
    assert_eq!(
        filetime_u64_rfc3339(116_444_736_000_000_000),
        Some("1970-01-01T00:00:00+00:00".to_string())
    );
    assert_eq!(
        filetime_u64_rfc3339(132_000_000_000_000_000),
        Some("2019-04-17T18:40:00+00:00".to_string())
    );
    assert_eq!(filetime_i64_rfc3339(-5), None);
    assert_eq!(
        filetime_i64_rfc3339(116_444_736_010_000_000),
        Some("1970-01-01T00:00:01+00:00".to_string())
    );
    let bytes = 116_444_736_010_000_000u64.to_le_bytes();
    let mut padded = vec![0u8, 0];
    padded.extend_from_slice(&bytes);
    assert_eq!(
        read_filetime_rfc3339(&padded, 2),
        Some("1970-01-01T00:00:01+00:00".to_string())
    );
    assert_eq!(read_filetime_rfc3339(&padded, 3), None);
}

#[test]
fn hex_and_digest_renderings() {
    assert_eq!(lnk_hex(&[0x00, 0xab, 0x10]), "00ab10");
    assert_eq!(
        sha256_hex(b"abc"),
        "ba7816bf8f01cfea414140de5dae2223b00361a396177a9cb410ff61f20015ad"
    );
    assert_eq!(
        sha256_hex(b""),
        "e3b0c44298fc1c149afbf4c8996fb92427ae41e4649b934ca495991b7852b855"
    );
    let guid = [
        0x01, 0x14, 0x02, 0x00, 0x00, 0x00, 0x00, 0x00, 0xc0, 0x00, 0x00, 0x00, 0x00, 0x00, 0x00,
        0x46,
    ];
    assert_eq!(format_guid_le(&guid), "00021401-0000-0000-c000-000000000046");
    assert_eq!(format_guid_le(&guid[..15]), "");
}

#[test]
fn clean_opt_drops_placeholders() {
    assert_eq!(clean_opt(Some("  \"value\" ".to_string())), Some("value".to_string()));
    assert_eq!(clean_opt(Some("-".to_string())), None);
    assert_eq!(clean_opt(Some("NULL".to_string())), None);
    assert_eq!(clean_opt(Some("n/a".to_string())), None);
    assert_eq!(clean_opt(Some("None".to_string())), None);
    assert_eq!(clean_opt(None), None);
}

#[test]
fn ini_value_finds_key_case_insensitively() {
    let text = "[Section]\nURL=http://example.test/a\nOther = x";
    assert_eq!(ini_value(text, "url"), Some("http://example.test/a".to_string()));
    assert_eq!(ini_value(text, "other"), Some("x".to_string()));
    assert_eq!(ini_value(text, "missing"), None);
}

#[test]
fn guid_shape() {
    let g = format_guid_le(&[0x9f, 0x4c, 0x28, 0x9f, 0x89, 0x39, 0x4c, 0x8e, 0xbc, 0x0c, 0x15, 0x5f, 0xa9, 0xf4, 0x94, 0xe4, 0x77]);
    assert_eq!(g, "9f284c9f-3989-8e4c-bc0c-155fa9f494e4");
    assert_eq!(g.len(), 36);
    for (i, c) in g.chars().enumerate() {
        if [8, 13, 18, 23].contains(&i) {
            assert_eq!(c, '-');
        } else {
            assert!(c.is_ascii_hexdigit() && !c.is_ascii_uppercase());
        }
    }
}
