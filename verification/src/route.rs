//! Which reader the structured parser hands an input to: the decisions it takes
//! on the declared type, the path and the content, in order, before any reading.
use vstd::prelude::*;
use crate::artifact::{
    binary_metadata_type, gzip_input, is_binary_metadata_artifact, is_windows_search_log_path,
    looks_like_gzip, looks_like_mft_binary, mft_binary, usn_journal, windows_search_log_path,
};
use crate::binary::{
    bytes_start, evtx_binary, looks_like_evtx_binary, looks_like_prefetch_binary, prefetch_binary,
    regf_magic, regf_magic_bytes, sqlite_magic, sqlite_magic_bytes, starts_with_bytes,
};
use crate::decode::{
    decode_text, decode_text_lossless, decoded_text, decoded_text_lossless, decompress_gzip,
    gzip_result, opt_view, text_result,
};
use crate::detect::{detect_structured_artifact, structured_kind};
use crate::text::{
    chars_of, concat_str, contains, contains_str, ends_with, ends_with_str, eq_str, lower, lower_of,
    trim,
};
use crate::usn::{looks_like_usn_journal_binary, usn_record_in_head};
use crate::{ParserError, ParserInput, StructuredArtifactParser};

verus! {

/// The reader an input goes to, with what the decision already produced.
#[derive(Debug)]
pub enum ParseRoute {
    /// No original evidence path: the input is not parsed.
    Unsupported,
    /// Gzip data from OneDrive, decompressed, with its text when it has one.
    GzipOnedrive { bytes: Vec<u8>, text: Option<String> },
    /// Gzip data whose decompressed bytes are text: read as a text log.
    GzipText { text: String },
    /// Gzip data whose decompressed bytes are not text: scanned for strings.
    GzipStrings { bytes: Vec<u8> },
    /// Gzip data that could not be decompressed: kept as metadata with this message.
    GzipFailed { message: String },
    Evtx,
    Mft,
    UsnJournal,
    PrefetchBinary,
    /// A registry hive, scanned for strings as this kind of artifact.
    RegistryStrings { artifact_type: &'static str },
    FilezillaQueue,
    Onedrive { text: Option<String> },
    WindowsSearchText { text: String },
    WindowsSearchStrings,
    NetworkCapture,
    RecoveryMetadata,
    DatabaseStrings,
    Lnk,
    JumpList,
    BinaryMetadata,
    DefenderStrings,
    /// Text content, read as the kind of artifact detected from it.
    Detected { artifact_type: String, text: String },
    /// Nothing else applies: kept as metadata.
    FileMetadata,
}

/// The text of a decoding, when it succeeded.
pub open spec fn ok_text(r: Result<Seq<char>, Seq<char>>) -> Option<Seq<char>> {
    match r {
        Ok(t) => Some(t),
        Err(_) => None,
    }
}

/// The text that `ParserError` displays.
pub open spec fn error_text(e: ParserError) -> Seq<char> {
    match e {
        ParserError::Unsupported(m) => "artifact is unsupported: "@ + m@,
        ParserError::Failed(m) => "parse failed: "@ + m@,
    }
}

impl ParserError {
    /// The text of the error, as it is displayed.
    pub fn to_text(&self) -> (r: String)
        ensures
            r@ == error_text(*self),
    {
        match self {
            ParserError::Unsupported(m) => concat_str("artifact is unsupported: ", m.as_str()),
            ParserError::Failed(m) => concat_str("parse failed: ", m.as_str()),
        }
    }
}

/// Where gzip data goes once decompressed to `d`.
pub open spec fn gzip_route_ok(t: Seq<char>, l: Seq<char>, d: Seq<u8>, r: ParseRoute) -> bool {
    if t == "onedrive_log"@ || contains(l, "onedrive"@) {
        r matches ParseRoute::GzipOnedrive { bytes, text } && bytes@ == d && opt_view(text) == ok_text(
            decoded_text(d),
        )
    } else if decoded_text(d) is Ok {
        r matches ParseRoute::GzipText { text } && Ok::<Seq<char>, Seq<char>>(text@) == decoded_text(d)
    } else {
        r matches ParseRoute::GzipStrings { bytes } && bytes@ == d
    }
}

/// The decisions on binary content, after gzip.
pub open spec fn binary_route_ok(t: Seq<char>, p: Seq<char>, b: Seq<u8>, r: ParseRoute) -> bool {
    let l = lower(p);
    if evtx_binary(b) {
        r is Evtx
    } else if mft_binary(p, t, b) {
        r is Mft
    } else if t == "usn_jrnl"@ && usn_journal(p, t) && usn_record_in_head(b) {
        r is UsnJournal
    } else if (t == "prefetch"@ || ends_with(l, ".pf"@) || contains(l, "/prefetch/"@) || contains(
        l,
        "\\prefetch\\"@,
    )) && prefetch_binary(b) {
        r is PrefetchBinary
    } else if (t == "amcache"@ || contains(l, "amcache"@)) && bytes_start(b, regf_magic()) {
        r matches ParseRoute::RegistryStrings { artifact_type } && artifact_type@ == "amcache"@
    } else if t == "registry_hive"@ && bytes_start(b, regf_magic()) {
        r matches ParseRoute::RegistryStrings { artifact_type } && artifact_type@ == "registry_hive"@
    } else if t == "filezilla"@ && bytes_start(b, sqlite_magic()) {
        r is FilezillaQueue
    } else {
        declared_route_ok(t, p, b, r)
    }
}

/// The decisions on the declared type and the text, after the binary formats.
pub open spec fn declared_route_ok(t: Seq<char>, p: Seq<char>, b: Seq<u8>, r: ParseRoute) -> bool {
    let l = lower(p);
    let text = decoded_text_lossless(b);
    if t == "onedrive_log"@ {
        r matches ParseRoute::Onedrive { text: x } && opt_view(x) == text
    } else if t == "windows_search_log"@ || windows_search_log_path(l) {
        match text {
            Some(x) => r matches ParseRoute::WindowsSearchText { text: y } && y@ == x,
            None => r is WindowsSearchStrings,
        }
    } else if t == "network_capture"@ {
        r is NetworkCapture
    } else if t == "credential_store"@ || t == "document"@ || t == "archive"@ {
        r is RecoveryMetadata
    } else if t == "browser"@ && (bytes_start(b, sqlite_magic()) || text is None) {
        r is DatabaseStrings
    } else if t == "web_cache"@ || t == "webcache"@ || t == "srum"@ || t == "ese"@ || t
        == "sqlite"@ {
        r is DatabaseStrings
    } else if t == "lnk"@ || ends_with(l, ".lnk"@) {
        r is Lnk
    } else if t == "jump_list"@ {
        r is JumpList
    } else if binary_metadata_type(t) {
        r is BinaryMetadata
    } else if (t == "defender"@ || t == "defender_mplog"@ || t == "defender_operational"@)
        && text is None {
        r is DefenderStrings
    } else {
        match text {
            Some(x) => r matches ParseRoute::Detected { artifact_type, text: y } && y@ == x
                && artifact_type@ == structured_kind(t, p, x),
            None => r is FileMetadata,
        }
    }
}

/// Where an input with declared type `t`, path `p` and bytes `b` goes.
pub open spec fn route_ok(t: Seq<char>, p: Seq<char>, b: Seq<u8>, r: ParseRoute) -> bool {
    if trim(p).len() == 0 {
        r is Unsupported
    } else if gzip_input(p, b) {
        match gzip_result(b) {
            Ok(d) => gzip_route_ok(t, lower(p), d, r),
            Err(m) => r matches ParseRoute::GzipFailed { message } && message@ == "gzip decode failed: "@
                + "parse failed: "@ + m,
        }
    } else {
        binary_route_ok(t, p, b, r)
    }
}

fn is_type(t: &[char], names: &[&str]) -> (r: bool)
    ensures
        r == exists|i: int| 0 <= i < names@.len() && t@ == (#[trigger] names@[i])@,
{
    let mut i: usize = 0;
    while i < names.len()
        invariant
            i <= names@.len(),
            forall|k: int| 0 <= k < i ==> t@ != (#[trigger] names@[k])@,
        decreases names@.len() - i,
    {
        if eq_str(t, names[i]) {
            return true;
        }
        i = i + 1;
    }
    false
}

fn gzip_route(input: &ParserInput, lower_path: &[char], bytes: Vec<u8>) -> (r: ParseRoute)
    ensures
        gzip_route_ok(input.artifact_type@, lower_path@, bytes@, r),
{
    let t = chars_of(input.artifact_type.as_str());
    if eq_str(t.as_slice(), "onedrive_log") || contains_str(lower_path, "onedrive") {
        let text = match decode_text(bytes.as_slice()) {
            Ok(s) => Some(s),
            Err(_) => None,
        };
        return ParseRoute::GzipOnedrive { bytes, text };
    }
    match decode_text(bytes.as_slice()) {
        Ok(text) => ParseRoute::GzipText { text },
        Err(_) => ParseRoute::GzipStrings { bytes },
    }
}

fn declared_route(input: &ParserInput, t: &[char], l: &[char]) -> (r: ParseRoute)
    requires
        t@ == input.artifact_type@,
        l@ == lower(input.original_path@),
    ensures
        declared_route_ok(input.artifact_type@, input.original_path@, input.bytes@, r),
{
    let bytes = input.bytes.as_slice();
    if eq_str(t, "onedrive_log") {
        return ParseRoute::Onedrive { text: decode_text_lossless(bytes) };
    }
    if eq_str(t, "windows_search_log") || is_windows_search_log_path(
        crate::text::string_from(l).as_str(),
    ) {
        return match decode_text_lossless(bytes) {
            Some(text) => ParseRoute::WindowsSearchText { text },
            None => ParseRoute::WindowsSearchStrings,
        };
    }
    if eq_str(t, "network_capture") {
        return ParseRoute::NetworkCapture;
    }
    let recovery = ["credential_store", "document", "archive"];
    if is_type(t, &recovery) {
        return ParseRoute::RecoveryMetadata;
    }
    if eq_str(t, "browser") && (starts_with_bytes(bytes, &sqlite_magic_bytes())
        || decode_text_lossless(bytes).is_none()) {
        return ParseRoute::DatabaseStrings;
    }
    let databases = ["web_cache", "webcache", "srum", "ese", "sqlite"];
    if is_type(t, &databases) {
        return ParseRoute::DatabaseStrings;
    }
    if eq_str(t, "lnk") || ends_with_str(l, ".lnk") {
        return ParseRoute::Lnk;
    }
    if eq_str(t, "jump_list") {
        return ParseRoute::JumpList;
    }
    if is_binary_metadata_artifact(input.artifact_type.as_str()) {
        return ParseRoute::BinaryMetadata;
    }
    let defender = ["defender", "defender_mplog", "defender_operational"];
    let text = decode_text_lossless(bytes);
    if is_type(t, &defender) && text.is_none() {
        return ParseRoute::DefenderStrings;
    }
    match text {
        Some(text) => {
            let artifact_type = detect_structured_artifact(input, text.as_str());
            ParseRoute::Detected { artifact_type, text }
        },
        None => ParseRoute::FileMetadata,
    }
}

impl StructuredArtifactParser {
    /// The reader that `input` goes to, in the order the parser decides: no
    /// path, gzip, the binary formats, the declared types, then what the text
    /// is detected to be.
    pub fn route(&self, input: &ParserInput) -> (r: ParseRoute)
        ensures
            route_ok(input.artifact_type@, input.original_path@, input.bytes@, r),
    {
        if !self.supports(input) {
            return ParseRoute::Unsupported;
        }
        let t = chars_of(input.artifact_type.as_str());
        let l = lower_of(input.original_path.as_str());
        let bytes = input.bytes.as_slice();
        if looks_like_gzip(input) {
            return match decompress_gzip(bytes) {
                Ok(d) => gzip_route(input, l.as_slice(), d),
                Err(e) => {
                    let shown = e.to_text();
                    let message = concat_str("gzip decode failed: ", shown.as_str());
                    proof {
                        if let ParserError::Failed(m) = e {
                            assert(message@ =~= "gzip decode failed: "@ + "parse failed: "@ + m@);
                        }
                    }
                    ParseRoute::GzipFailed { message }
                },
            };
        }
        if looks_like_evtx_binary(bytes) {
            return ParseRoute::Evtx;
        }
        if looks_like_mft_binary(input) {
            return ParseRoute::Mft;
        }
        if eq_str(t.as_slice(), "usn_jrnl") && looks_like_usn_journal_binary(input) {
            return ParseRoute::UsnJournal;
        }
        if (eq_str(t.as_slice(), "prefetch") || ends_with_str(l.as_slice(), ".pf") || contains_str(
            l.as_slice(),
            "/prefetch/",
        ) || contains_str(l.as_slice(), "\\prefetch\\")) && looks_like_prefetch_binary(bytes) {
            return ParseRoute::PrefetchBinary;
        }
        let regf = regf_magic_bytes();
        if (eq_str(t.as_slice(), "amcache") || contains_str(l.as_slice(), "amcache"))
            && starts_with_bytes(bytes, &regf) {
            return ParseRoute::RegistryStrings { artifact_type: "amcache" };
        }
        if eq_str(t.as_slice(), "registry_hive") && starts_with_bytes(bytes, &regf) {
            return ParseRoute::RegistryStrings { artifact_type: "registry_hive" };
        }
        if eq_str(t.as_slice(), "filezilla") && starts_with_bytes(bytes, &sqlite_magic_bytes()) {
            return ParseRoute::FilezillaQueue;
        }
        declared_route(input, t.as_slice(), l.as_slice())
    }
}

} // verus!
