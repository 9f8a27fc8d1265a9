//! The calls into `chrono`, `sha2`, `encoding_rs` and the standard library whose
//! results the decoders build on. Each contract here is trusted, not proved.
use vstd::prelude::*;
use vstd::utf8::{decode_utf8, valid_utf8};
use chrono::TimeZone;
use std::fmt::Write;
use sha2::Digest;
use crate::decode::opt_view;
use crate::scca::{opt_bytes, opt_info_view, PrefetchCoreInfo, PrefetchVolume};
use crate::evtx_record::result_views;

verus! {

/// The RFC 3339 text that `chrono` gives for a UTC instant `secs` seconds and
/// `nanos` nanoseconds after the Unix epoch, or none outside its range.
pub uninterp spec fn rfc3339_of_timestamp(secs: int, nanos: int) -> Option<Seq<char>>;

/// `chrono::Utc.timestamp_opt(secs, nanos)`, kept when it is a single instant, and
/// rendered by `DateTime::to_rfc3339`. The contract only ties the result to the
/// arguments; the calendar arithmetic and the text layout are left unstated.
#[verifier::external_body]
pub(crate) fn utc_rfc3339(secs: i64, nanos: u32) -> (r: Option<String>)
    ensures
        match r {
            Some(s) => rfc3339_of_timestamp(secs as int, nanos as int) == Some(s@),
            None => rfc3339_of_timestamp(secs as int, nanos as int) is None,
        },
{
    match chrono::Utc.timestamp_opt(secs, nanos).single() {
        Some(instant) => Some(instant.to_rfc3339()),
        None => None,
    }
}

/// The SHA-256 digest of a byte sequence.
pub uninterp spec fn sha256_of(b: Seq<u8>) -> Seq<u8>;

/// `sha2::Sha256::digest`: a function of the input alone, 32 bytes long. The
/// compression function itself is left unstated.
#[verifier::external_body]
pub(crate) fn sha256_digest(b: &[u8]) -> (r: Vec<u8>)
    ensures
        r@ == sha256_of(b@),
        r@.len() == 32,
{
    sha2::Sha256::digest(b).to_vec()
}

/// `char::from_u32`: a character exactly for the Unicode scalar values.
#[verifier::external_body]
pub(crate) fn char_from_u32(v: u32) -> (r: Option<char>)
    ensures
        r is Some <==> (v <= 0xd7ff || (0xe000 <= v && v <= 0x10ffff)),
        r matches Some(c) ==> c as u32 == v && c == v as char,
{
    char::from_u32(v)
}

/// The text that `String::from_utf8_lossy` makes of a byte sequence.
pub uninterp spec fn utf8_lossy_text(b: Seq<u8>) -> Seq<char>;

/// `String::from_utf8_lossy`: valid UTF-8 is decoded as it stands; how invalid
/// sequences are replaced by U+FFFD is left unstated.
#[verifier::external_body]
pub(crate) fn utf8_lossy(b: &[u8]) -> (r: String)
    ensures
        r@ == utf8_lossy_text(b@),
        valid_utf8(b@) ==> r@ == decode_utf8(b@),
{
    String::from_utf8_lossy(b).into_owned()
}

/// The message that `std::str::Utf8Error` displays for invalid input.
pub uninterp spec fn utf8_error_text(b: Seq<u8>) -> Seq<char>;

/// `std::str::from_utf8`: the text exactly when the bytes are valid UTF-8, else
/// the error's display text, which is left unstated.
#[verifier::external_body]
pub(crate) fn utf8_text(b: &[u8]) -> (r: Result<String, String>)
    ensures
        r is Ok <==> valid_utf8(b@),
        r matches Ok(s) ==> s@ == decode_utf8(b@),
        r matches Err(e) ==> e@ == utf8_error_text(b@),
{
    match std::str::from_utf8(b) {
        Ok(s) => Ok(s.to_string()),
        Err(e) => Err(e.to_string()),
    }
}

/// The text and the error flag that `encoding_rs` gives when decoding as Shift_JIS.
pub uninterp spec fn shift_jis_decoded(b: Seq<u8>) -> (Seq<char>, bool);

/// `encoding_rs::SHIFT_JIS.decode`: BOM sniffing, Shift_JIS decoding with
/// replacement characters, and whether any sequence was malformed. The decoding
/// table is left unstated.
#[verifier::external_body]
pub(crate) fn shift_jis_decode(b: &[u8]) -> (r: (String, bool))
    ensures
        (r.0@, r.1) == shift_jis_decoded(b@),
{
    let (text, _, had_errors) = encoding_rs::SHIFT_JIS.decode(b);
    (text.into_owned(), had_errors)
}

/// The UTC instant of an RFC 3339 text, rendered in RFC 3339, when `chrono`
/// accepts the text.
pub uninterp spec fn rfc3339_utc_text(s: Seq<char>) -> Option<Seq<char>>;

/// `chrono::DateTime::parse_from_rfc3339`, converted to UTC with `with_timezone`
/// and rendered by `to_rfc3339`. The contract ties the result to the text alone;
/// the grammar and the calendar are left unstated.
#[verifier::external_body]
pub(crate) fn rfc3339_to_utc(s: &str) -> (r: Option<String>)
    ensures
        opt_view(r) == rfc3339_utc_text(s@),
{
    match chrono::DateTime::parse_from_rfc3339(s) {
        Ok(dt) => Some(dt.with_timezone(&chrono::Utc).to_rfc3339()),
        Err(_) => None,
    }
}

/// The calendar year of an RFC 3339 text, in its own offset, when `chrono`
/// accepts the text.
pub uninterp spec fn rfc3339_year_of(s: Seq<char>) -> Option<int>;

/// `chrono::DateTime::parse_from_rfc3339` followed by `Datelike::year`.
#[verifier::external_body]
pub(crate) fn rfc3339_year(s: &str) -> (r: Option<i32>)
    ensures
        match r {
            Some(y) => rfc3339_year_of(s@) == Some(y as int),
            None => rfc3339_year_of(s@) is None,
        },
{
    match chrono::DateTime::parse_from_rfc3339(s) {
        Ok(dt) => Some(chrono::Datelike::year(&dt)),
        Err(_) => None,
    }
}

/// The UTC instant of a text read with a `strftime` format that carries an
/// offset, rendered in RFC 3339.
pub uninterp spec fn offset_format_utc_text(s: Seq<char>, fmt: Seq<char>) -> Option<Seq<char>>;

/// `chrono::DateTime::parse_from_str`, converted to UTC and rendered by
/// `to_rfc3339`. The format language is left unstated.
#[verifier::external_body]
pub(crate) fn offset_format_to_utc(s: &str, fmt: &str) -> (r: Option<String>)
    ensures
        opt_view(r) == offset_format_utc_text(s@, fmt@),
{
    match chrono::DateTime::parse_from_str(s, fmt) {
        Ok(dt) => Some(dt.with_timezone(&chrono::Utc).to_rfc3339()),
        Err(_) => None,
    }
}

/// A text read with a `strftime` format without offset, taken as UTC and rendered
/// in RFC 3339.
pub uninterp spec fn naive_format_utc_text(s: Seq<char>, fmt: Seq<char>) -> Option<Seq<char>>;

/// `chrono::NaiveDateTime::parse_from_str`, placed in UTC with
/// `Utc.from_utc_datetime` and rendered by `to_rfc3339`.
#[verifier::external_body]
pub(crate) fn naive_format_to_utc(s: &str, fmt: &str) -> (r: Option<String>)
    ensures
        opt_view(r) == naive_format_utc_text(s@, fmt@),
{
    match chrono::NaiveDateTime::parse_from_str(s, fmt) {
        Ok(dt) => Some(chrono::Utc.from_utc_datetime(&dt).to_rfc3339()),
        Err(_) => None,
    }
}

/// An RFC 3339 text, converted to UTC, rendered with a `strftime` format; none
/// when the text is not RFC 3339 or the format cannot be rendered.
pub uninterp spec fn rfc3339_utc_formatted(s: Seq<char>, fmt: Seq<char>) -> Option<Seq<char>>;

/// `chrono::DateTime::parse_from_rfc3339`, then `with_timezone(&Utc)` and
/// `format(fmt)` written into a string with `write!`; a format that chrono
/// cannot render makes the write fail, which gives none instead of a panic.
#[verifier::external_body]
pub(crate) fn rfc3339_format_utc(s: &str, fmt: &str) -> (r: Option<String>)
    ensures
        opt_view(r) == rfc3339_utc_formatted(s@, fmt@),
{
    match chrono::DateTime::parse_from_rfc3339(s) {
        Ok(dt) => {
            let mut out = String::new();
            match write!(out, "{}", dt.with_timezone(&chrono::Utc).format(fmt)) {
                Ok(()) => Some(out),
                Err(_) => None,
            }
        },
        Err(_) => None,
    }
}

/// The Unix time, in seconds, of an RFC 3339 text.
pub uninterp spec fn rfc3339_unix_seconds(s: Seq<char>) -> Option<int>;

/// `chrono::DateTime::parse_from_rfc3339` followed by `timestamp`.
#[verifier::external_body]
pub(crate) fn rfc3339_timestamp(s: &str) -> (r: Option<i64>)
    ensures
        match r {
            Some(t) => rfc3339_unix_seconds(s@) == Some(t as int),
            None => rfc3339_unix_seconds(s@) is None,
        },
{
    match chrono::DateTime::parse_from_rfc3339(s) {
        Ok(dt) => Some(dt.timestamp()),
        Err(_) => None,
    }
}

/// What gzip decoding of some bytes gives: the decompressed bytes, or the text
/// of the error that stopped it.
pub uninterp spec fn gunzip_of(b: Seq<u8>) -> Result<Seq<u8>, Seq<char>>;

/// `flate2::read::GzDecoder` over the bytes, read to the end with
/// `std::io::Read::read_to_end`; the error is rendered with `to_string`. The
/// format itself is left unstated.
#[verifier::external_body]
pub(crate) fn gunzip(b: &[u8]) -> (r: Result<Vec<u8>, String>)
    ensures
        match r {
            Ok(v) => gunzip_of(b@) == Ok::<Seq<u8>, Seq<char>>(v@),
            Err(e) => gunzip_of(b@) == Err::<Seq<u8>, Seq<char>>(e@),
        },
{
    let mut decoder = flate2::read::GzDecoder::new(b);
    let mut out = Vec::new();
    match std::io::Read::read_to_end(&mut decoder, &mut out) {
        Ok(_) => Ok(out),
        Err(error) => Err(error.to_string()),
    }
}


/// What `prefetch_core::decompress` gives for some bytes: the `SCCA` payload, or
/// none when they are not a prefetch container it can open.
pub uninterp spec fn scca_payload(b: Seq<u8>) -> Option<Seq<u8>>;

/// `prefetch_core::decompress`, its error dropped. As its source shows: fewer
/// than eight bytes are refused; bytes with `SCCA` at offset 4 come back
/// unchanged; other bytes are refused unless they start with `MAM\x04`, whose
/// Xpress-Huffman payload is decompressed (left unstated).
#[verifier::external_body]
pub(crate) fn prefetch_decompress(b: &[u8]) -> (r: Option<Vec<u8>>)
    ensures
        opt_bytes(r) == scca_payload(b@),
        b@.len() < 8 ==> r is None,
        b@.len() >= 8 && b@.subrange(4, 8) == seq![0x53u8, 0x43u8, 0x43u8, 0x41u8] ==> opt_bytes(r)
            == Some(b@),
        b@.len() >= 8 && b@.subrange(4, 8) != seq![0x53u8, 0x43u8, 0x43u8, 0x41u8]
            && b@.subrange(0, 4) != seq![0x4du8, 0x41u8, 0x4du8, 0x04u8] ==> r is None,
{
    prefetch_core::decompress(b).ok()
}

/// What `prefetch_core::parse` reads from some bytes, as plain values: the format
/// version, the executable, the run count, the last run times, the volumes
/// (device path, serial, creation time) and the loaded files.
pub uninterp spec fn prefetch_info_of(b: Seq<u8>) -> Option<
    (u32, Seq<char>, u32, Seq<i64>, Seq<(Seq<char>, u32, i64)>, Seq<Seq<char>>),
>;

/// `prefetch_core::parse`, its result copied field by field and its error
/// dropped. As its source shows, it decompresses first and decodes only
/// versions 30 and 31, keeps at most eight run times, all positive, and at most
/// 64 volumes; the record layout itself is left unstated.
#[verifier::external_body]
pub(crate) fn prefetch_parse(b: &[u8]) -> (r: Option<PrefetchCoreInfo>)
    ensures
        opt_info_view(r) == prefetch_info_of(b@),
        r is Some ==> scca_payload(b@) is Some,
        r matches Some(i) ==> (i.version == 30 || i.version == 31) && i.last_run_times@.len() <= 8
            && (forall|k: int| 0 <= k < i.last_run_times@.len() ==> #[trigger] i.last_run_times@[k] > 0)
            && i.volumes@.len() <= 64,
{
    match prefetch_core::parse(b) {
        Ok(info) => Some(PrefetchCoreInfo {
            version: info.version,
            executable: info.executable,
            run_count: info.run_count,
            last_run_times: info.last_run_times,
            volumes: info.volumes.into_iter().map(|v| PrefetchVolume { device_path: v.device_path, serial: v.serial, creation_time: v.creation_time }).collect(),
            filenames: info.filenames,
        }),
        Err(_) => None,
    }
}


/// What the `evtx` crate renders of an event log file's bytes: the text of the
/// error that stops it opening the file, or each record in order, as its id and
/// XML or as the text of the error that stopped it rendering.
pub uninterp spec fn evtx_results_of(b: Seq<u8>) -> Result<
    Seq<Result<(u64, Seq<char>), Seq<char>>>,
    Seq<char>,
>;

/// `evtx::EvtxParser::from_buffer` and `records`, each record taken as its
/// `event_record_id` and XML `data` and each error by its `to_string`. The file
/// format and the XML rendering are left unstated. That the crate returns on
/// every input is not shown either: its source reports malformed input as
/// errors, but holds `expect` calls whose conditions were not all traced.
#[verifier::external_body]
pub(crate) fn evtx_rendered_records(b: &[u8]) -> (r: Result<Vec<Result<(u64, String), String>>, String>)
    ensures
        match r {
            Ok(v) => evtx_results_of(b@) == Ok::<_, Seq<char>>(result_views(v@)),
            Err(e) => evtx_results_of(b@) == Err::<Seq<Result<(u64, Seq<char>), Seq<char>>>, _>(e@),
        },
{
    match evtx::EvtxParser::from_buffer(b.to_vec()) {
        Ok(mut parser) => Ok(parser.records().map(|record| record.map(|x| (x.event_record_id, x.data)).map_err(|e| e.to_string())).collect()),
        Err(e) => Err(e.to_string()),
    }
}

/// A string holding exactly the given characters.
///
/// `FromIterator<&char> for String` collects the characters in order,
/// as the standard library documents.
#[verifier::external_body]
pub(crate) fn string_from(v: &[char]) -> (r: String)
    ensures
        r@ == v@,
{
    v.iter().collect()
}

} // verus!
