//! Prefetch files as a whole: what `prefetch_core` decodes of a Windows 10/11
//! prefetch file, and, when it cannot, what the structure reader recovers from
//! the raw or decompressed `SCCA` bytes; each summarised into the executable,
//! its run times and the files it loaded.
use vstd::prelude::*;
use crate::artifact::{file_name_from_path, file_name_of};
use crate::binary::{
    bytes_start, le32, mam_magic, prefetch_container, prefetch_container_kind,
    prefetch_mam_declared_size, prefetch_version, prefetch_version_of,
};
use crate::classify::{
    prefetch_executable, prefetch_executable_from_path, prefetch_hash, prefetch_hash_from_filename,
    prefetch_referenced_files, prefetch_severity, prefetch_severity_of, prefetch_suspicion,
    prefetch_suspicion_of, referenced_files_from,
};
use crate::datetime::{is_plausible_forensic_time, plausible_forensic_time};
use crate::decode::{filetime_i64_rfc3339, filetime_text, opt_view};
use crate::external::{prefetch_decompress, prefetch_info_of, prefetch_parse, scca_payload};
use crate::prefetch::{
    executable_from_strings, extract_prefetch_executable_from_strings, parse_prefetch_structure,
    prefetch_structure_of, PrefetchStructure,
};
use crate::row::{decimal_string, decimal_text, vec_strings};
use crate::strings::{all_strings, extract_interesting_strings, interesting_from, string_views};
use crate::text::{chars_of, concat_str, string_from, string_of, trim, trim_str, upper, upper_chars};
use crate::usn::{hex8, hex_digits};
use crate::row::{cell, cell_value, entries};
use crate::text::{parse_int, parse_i64, views};
use crate::datetime::{datetime_text, normalize_datetime};
use crate::prefetch::{export_row_references, prefetch_referenced_files_from_export_row};

verus! {

// ---------------------------------------------------------------------------
// What prefetch_core decodes
// ---------------------------------------------------------------------------
/// A volume that a prefetch file names.
#[derive(Debug, Clone)]
pub struct PrefetchVolume {
    pub device_path: String,
    pub serial: u32,
    /// The volume's creation time, as a raw FILETIME.
    pub creation_time: i64,
}

/// What `prefetch_core` reads from a Windows 10/11 prefetch file.
#[derive(Debug, Clone)]
pub struct PrefetchCoreInfo {
    pub version: u32,
    pub executable: String,
    pub run_count: u32,
    /// The most recent run times, newest first, as raw FILETIMEs.
    pub last_run_times: Vec<i64>,
    pub volumes: Vec<PrefetchVolume>,
    /// The files loaded during the traced runs.
    pub filenames: Vec<String>,
}

pub open spec fn volume_view(v: PrefetchVolume) -> (Seq<char>, u32, i64) {
    (v.device_path@, v.serial, v.creation_time)
}

/// The decoded prefetch information as plain values.
pub open spec fn info_view(i: PrefetchCoreInfo) -> (
    u32,
    Seq<char>,
    u32,
    Seq<i64>,
    Seq<(Seq<char>, u32, i64)>,
    Seq<Seq<char>>,
) {
    (
        i.version,
        i.executable@,
        i.run_count,
        i.last_run_times@,
        i.volumes@.map_values(|v: PrefetchVolume| volume_view(v)),
        string_views(i.filenames@),
    )
}

pub open spec fn opt_info_view(o: Option<PrefetchCoreInfo>) -> Option<
    (u32, Seq<char>, u32, Seq<i64>, Seq<(Seq<char>, u32, i64)>, Seq<Seq<char>>),
> {
    match o {
        Some(i) => Some(info_view(i)),
        None => None,
    }
}

pub open spec fn opt_bytes(o: Option<Vec<u8>>) -> Option<Seq<u8>> {
    match o {
        Some(v) => Some(v@),
        None => None,
    }
}

// ---------------------------------------------------------------------------
// Pieces shared by both summaries
// ---------------------------------------------------------------------------
/// The hash part of a prefetch file's name, read from its file name.
pub open spec fn prefetch_hash_of_path(path: Seq<char>) -> Option<Seq<char>> {
    prefetch_hash(
        match file_name_of(path) {
            Some(n) => n,
            None => path,
        },
    )
}

/// The family name of a format version that `prefetch_core` decodes.
pub open spec fn core_family(version: u32) -> Seq<char> {
    if version == 30 {
        "windows_10_v30"@
    } else if version == 31 {
        "windows_11_v31"@
    } else {
        "unknown_prefetch_layout"@
    }
}

/// The non-empty device paths of some volumes.
pub open spec fn volume_paths(vs: Seq<(Seq<char>, u32, i64)>) -> Seq<Seq<char>>
    decreases vs.len(),
{
    if vs.len() == 0 {
        Seq::empty()
    } else {
        let prev = volume_paths(vs.drop_last());
        if vs.last().0.len() > 0 {
            prev.push(vs.last().0)
        } else {
            prev
        }
    }
}

/// The creation times of some volumes that read as times.
pub open spec fn volume_times(vs: Seq<(Seq<char>, u32, i64)>) -> Seq<Seq<char>>
    decreases vs.len(),
{
    if vs.len() == 0 {
        Seq::empty()
    } else {
        let prev = volume_times(vs.drop_last());
        match filetime_text(vs.last().2 as int) {
            Some(t) => prev.push(t),
            None => prev,
        }
    }
}

/// The run times among some FILETIMEs that read as plausible times.
pub open spec fn core_run_times(ts: Seq<i64>) -> Seq<Seq<char>>
    decreases ts.len(),
{
    if ts.len() == 0 {
        Seq::empty()
    } else {
        let prev = core_run_times(ts.drop_last());
        match filetime_text(ts.last() as int) {
            Some(t) => if plausible_forensic_time(t) {
                prev.push(t)
            } else {
                prev
            },
            None => prev,
        }
    }
}

fn prefetch_hash_for(original_path: &str) -> (r: Option<String>)
    ensures
        opt_view(r) == prefetch_hash_of_path(original_path@),
{
    match file_name_from_path(original_path) {
        Some(n) => prefetch_hash_from_filename(n.as_str()),
        None => prefetch_hash_from_filename(original_path),
    }
}

fn suspicion_text(s: &Option<String>) -> (r: Option<&str>)
    ensures
        crate::classify::str_view(r) == opt_view(*s),
{
    match s {
        Some(v) => Some(v.as_str()),
        None => None,
    }
}

fn volume_path_list(vs: &[PrefetchVolume]) -> (r: Vec<String>)
    ensures
        string_views(r@) == volume_paths(vs@.map_values(|v: PrefetchVolume| volume_view(v))),
{
    let ghost all = vs@.map_values(|v: PrefetchVolume| volume_view(v));
    let mut out: Vec<String> = Vec::new();
    let mut i: usize = 0;
    while i < vs.len()
        invariant
            i <= vs@.len(),
            all == vs@.map_values(|v: PrefetchVolume| volume_view(v)),
            string_views(out@) == volume_paths(all.take(i as int)),
        decreases vs@.len() - i,
    {
        assert(all.take(i + 1).drop_last() =~= all.take(i as int));
        if chars_of(vs[i].device_path.as_str()).len() > 0 {
            let ghost prev = string_views(out@);
            out.push(vs[i].device_path.clone());
            assert(string_views(out@) =~= prev.push(vs@[i as int].device_path@));
        }
        i = i + 1;
    }
    assert(all.take(vs@.len() as int) =~= all);
    out
}

fn volume_serial_list(vs: &[PrefetchVolume]) -> (r: Vec<String>)
    ensures
        string_views(r@) == vs@.map_values(|v: PrefetchVolume| upper(hex_digits(v.serial as nat, 8))),
{
    let mut out: Vec<String> = Vec::new();
    let mut i: usize = 0;
    while i < vs.len()
        invariant
            i <= vs@.len(),
            string_views(out@) == vs@.take(i as int).map_values(
                |v: PrefetchVolume| upper(hex_digits(v.serial as nat, 8)),
            ),
        decreases vs@.len() - i,
    {
        let digits = hex8(vs[i].serial);
        let up = upper_chars(digits.as_slice());
        let ghost prev = string_views(out@);
        out.push(string_from(up.as_slice()));
        assert(string_views(out@) =~= prev.push(upper(hex_digits(vs@[i as int].serial as nat, 8))));
        assert(vs@.take(i + 1).map_values(|v: PrefetchVolume| upper(hex_digits(v.serial as nat, 8)))
            =~= vs@.take(i as int).map_values(|v: PrefetchVolume| upper(hex_digits(v.serial as nat, 8))).push(
            upper(hex_digits(vs@[i as int].serial as nat, 8)),
        ));
        i = i + 1;
    }
    assert(vs@.take(vs@.len() as int) =~= vs@);
    out
}

fn volume_time_list(vs: &[PrefetchVolume]) -> (r: Vec<String>)
    ensures
        string_views(r@) == volume_times(vs@.map_values(|v: PrefetchVolume| volume_view(v))),
{
    let ghost all = vs@.map_values(|v: PrefetchVolume| volume_view(v));
    let mut out: Vec<String> = Vec::new();
    let mut i: usize = 0;
    while i < vs.len()
        invariant
            i <= vs@.len(),
            all == vs@.map_values(|v: PrefetchVolume| volume_view(v)),
            string_views(out@) == volume_times(all.take(i as int)),
        decreases vs@.len() - i,
    {
        assert(all.take(i + 1).drop_last() =~= all.take(i as int));
        match filetime_i64_rfc3339(vs[i].creation_time) {
            Some(t) => {
                let ghost prev = string_views(out@);
                out.push(t);
                assert(string_views(out@) =~= prev.push(out@.last()@));
            },
            None => {},
        }
        i = i + 1;
    }
    assert(all.take(vs@.len() as int) =~= all);
    out
}

fn run_time_list(ts: &[i64]) -> (r: Vec<String>)
    ensures
        string_views(r@) == core_run_times(ts@),
{
    let mut out: Vec<String> = Vec::new();
    let mut i: usize = 0;
    while i < ts.len()
        invariant
            i <= ts@.len(),
            string_views(out@) == core_run_times(ts@.take(i as int)),
        decreases ts@.len() - i,
    {
        assert(ts@.take(i + 1).drop_last() =~= ts@.take(i as int));
        match filetime_i64_rfc3339(ts[i]) {
            Some(t) => {
                if is_plausible_forensic_time(t.as_str()) {
                    let ghost prev = string_views(out@);
                    out.push(t);
                    assert(string_views(out@) =~= prev.push(out@.last()@));
                }
            },
            None => {},
        }
        i = i + 1;
    }
    assert(ts@.take(ts@.len() as int) =~= ts@);
    out
}

/// `head`, the process name, ` run_count=` and the count.
fn run_count_message(head: &str, process_name: &str, run_count: u32) -> (r: String)
    ensures
        r@ == head@ + process_name@ + " run_count="@ + decimal_text(run_count as nat),
{
    let a = concat_str(head, process_name);
    let b = concat_str(a.as_str(), " run_count=");
    let n = decimal_string(run_count as u64);
    concat_str(b.as_str(), n.as_str())
}

// ---------------------------------------------------------------------------
// Summary of what prefetch_core decoded
// ---------------------------------------------------------------------------
/// A prefetch file as `prefetch_core` decoded it, summarised.
#[derive(Debug, Clone)]
pub struct PrefetchCoreSummary {
    pub process_name: String,
    pub prefetch_file_name: Option<String>,
    pub prefetch_hash: Option<String>,
    pub referenced_files: Vec<String>,
    pub suspicion: Option<String>,
    pub severity: &'static str,
    pub container: &'static str,
    pub decompressed_size: Option<u32>,
    pub version_family: &'static str,
    /// The structure read from the decompressed bytes, when they could be had.
    pub structure: Option<PrefetchStructure>,
    pub volume_strings: Vec<String>,
    /// Each volume's serial number as eight upper-case hexadecimal digits.
    pub volume_serials: Vec<String>,
    pub volume_creation_times: Vec<String>,
    pub run_times: Vec<String>,
    pub message: String,
}

/// The process a decoded prefetch file is about: the executable it names, else
/// the one its file name gives, else the path itself.
pub open spec fn core_process_name(path: Seq<char>, executable: Seq<char>) -> Seq<char> {
    if trim(executable).len() == 0 {
        match prefetch_executable(path) {
            Some(p) => p,
            None => path,
        }
    } else {
        executable
    }
}

/// What the summary of a decoded prefetch file holds, for the file at `path`
/// with bytes `b`, the decoded information `info`, and the decompressed bytes.
pub open spec fn core_summary_of(
    path: Seq<char>,
    b: Seq<u8>,
    info: (u32, Seq<char>, u32, Seq<i64>, Seq<(Seq<char>, u32, i64)>, Seq<Seq<char>>),
    decoded: Option<Seq<u8>>,
    s: PrefetchCoreSummary,
) -> bool {
    let process = core_process_name(path, info.1);
    let referenced = referenced_files_from(info.5, 0, Seq::empty());
    let run_times = core_run_times(info.3);
    &&& s.process_name@ == process
    &&& opt_view(s.prefetch_file_name) == file_name_of(path)
    &&& opt_view(s.prefetch_hash) == prefetch_hash_of_path(path)
    &&& string_views(s.referenced_files@) == referenced
    &&& opt_view(s.suspicion) == prefetch_suspicion_of(process, referenced)
    &&& s.severity@ == prefetch_severity_of(prefetch_suspicion_of(process, referenced))
    &&& s.container@ == prefetch_container(b)
    &&& (match s.decompressed_size {
        Some(v) => bytes_start(b, mam_magic()) && b.len() >= 8 && v == le32(b, 4),
        None => !(bytes_start(b, mam_magic()) && b.len() >= 8),
    })
    &&& s.version_family@ == core_family(info.0)
    &&& (match decoded {
        Some(d) => s.structure matches Some(st) && prefetch_structure_of(d, Some(info.0), st),
        None => s.structure is None,
    })
    &&& string_views(s.volume_strings@) == volume_paths(info.4)
    &&& string_views(s.volume_serials@) == info.4.map_values(
        |v: (Seq<char>, u32, i64)| upper(hex_digits(v.1 as nat, 8)),
    )
    &&& string_views(s.volume_creation_times@) == volume_times(info.4)
    &&& string_views(s.run_times@) == run_times
    &&& s.message@ == (if run_times.len() > 0 {
        "Prefetch execution: "@ + process + " run_count="@ + decimal_text(info.2 as nat)
    } else {
        "Prefetch file decoded without run time: "@ + process + " run_count="@ + decimal_text(
            info.2 as nat,
        )
    })
}

/// The summary of a prefetch file at `original_path` with bytes `bytes`, from
/// what `prefetch_core` decoded of it and the decompressed bytes, if any.
pub fn prefetch_core_summary(
    original_path: &str,
    bytes: &[u8],
    info: &PrefetchCoreInfo,
    decoded: Option<&[u8]>,
) -> (r: PrefetchCoreSummary)
    ensures
        core_summary_of(
            original_path@,
            bytes@,
            info_view(*info),
            match decoded {
                Some(d) => Some(d@),
                None => None,
            },
            r,
        ),
{
    let process_name = if trim_str(info.executable.as_str()).len() == 0 {
        match prefetch_executable_from_path(original_path) {
            Some(p) => p,
            None => string_of(original_path),
        }
    } else {
        info.executable.clone()
    };
    proof {
        assert(process_name@ == core_process_name(original_path@, info.executable@));
    }
    let prefetch_file_name = file_name_from_path(original_path);
    let prefetch_hash = prefetch_hash_for(original_path);
    let referenced_files = prefetch_referenced_files(info.filenames.as_slice());
    let suspicion = prefetch_suspicion(process_name.as_str(), referenced_files.as_slice());
    let severity = prefetch_severity(suspicion_text(&suspicion));
    let container = prefetch_container_kind(bytes);
    let decompressed_size = prefetch_mam_declared_size(bytes);
    let version_family = if info.version == 30 {
        "windows_10_v30"
    } else if info.version == 31 {
        "windows_11_v31"
    } else {
        "unknown_prefetch_layout"
    };
    let structure = match decoded {
        Some(d) => Some(parse_prefetch_structure(d, Some(info.version))),
        None => None,
    };
    let volume_strings = volume_path_list(info.volumes.as_slice());
    let volume_serials = volume_serial_list(info.volumes.as_slice());
    proof {
        assert(info.volumes@.map_values(|v: PrefetchVolume| upper(hex_digits(v.serial as nat, 8)))
            =~= info.volumes@.map_values(|v: PrefetchVolume| volume_view(v)).map_values(
            |v: (Seq<char>, u32, i64)| upper(hex_digits(v.1 as nat, 8)),
        ));
    }
    let volume_creation_times = volume_time_list(info.volumes.as_slice());
    let run_times = run_time_list(info.last_run_times.as_slice());
    let message = if run_times.len() > 0 {
        run_count_message("Prefetch execution: ", process_name.as_str(), info.run_count)
    } else {
        run_count_message(
            "Prefetch file decoded without run time: ",
            process_name.as_str(),
            info.run_count,
        )
    };
    PrefetchCoreSummary {
        process_name,
        prefetch_file_name,
        prefetch_hash,
        referenced_files,
        suspicion,
        severity,
        container,
        decompressed_size,
        version_family,
        structure,
        volume_strings,
        volume_serials,
        volume_creation_times,
        run_times,
        message,
    }
}

/// Decodes the prefetch file `bytes` found at `original_path` with
/// `prefetch_core` and summarises it; none when `prefetch_core` cannot decode it.
pub fn summarize_prefetch_core(original_path: &str, bytes: &[u8]) -> (r: Option<PrefetchCoreSummary>)
    ensures
        r is Some <==> prefetch_info_of(bytes@) is Some,
        r matches Some(s) ==> prefetch_info_of(bytes@) matches Some(info) && core_summary_of(
            original_path@,
            bytes@,
            info,
            scca_payload(bytes@),
            s,
        ),
{
    match prefetch_parse(bytes) {
        Some(info) => {
            let decoded = prefetch_decompress(bytes);
            let summary = match &decoded {
                Some(d) => prefetch_core_summary(original_path, bytes, &info, Some(d.as_slice())),
                None => prefetch_core_summary(original_path, bytes, &info, None),
            };
            Some(summary)
        },
        None => None,
    }
}

// ---------------------------------------------------------------------------
// Summary of what the structure reader recovers
// ---------------------------------------------------------------------------
/// A prefetch file that `prefetch_core` could not decode, summarised from what the
/// structure reader recovers of its (decompressed, where possible) bytes.
#[derive(Debug, Clone)]
pub struct PrefetchBinarySummary {
    pub process_name: String,
    pub strings: Vec<String>,
    pub referenced_files: Vec<String>,
    pub version: Option<u32>,
    pub structure: PrefetchStructure,
    pub run_times: Vec<String>,
    pub prefetch_file_name: Option<String>,
    pub prefetch_hash: Option<String>,
    pub suspicion: Option<String>,
    pub severity: &'static str,
    /// `scca_decompressed` when the offsets are those of decompressed bytes,
    /// else `raw_object`.
    pub offset_basis: &'static str,
    /// The message of each run event, or of the single event without run times.
    pub message: String,
}

/// What the summary of a prefetch file at `path` with bytes `b` holds, when
/// its structure is read from `d` (`decompressed` tells whether `d` came from
/// decompression).
pub open spec fn binary_summary_of(
    path: Seq<char>,
    b: Seq<u8>,
    d: Seq<u8>,
    decompressed: bool,
    s: PrefetchBinarySummary,
) -> bool {
    let process = match prefetch_executable(path) {
        Some(p) => p,
        None => match executable_from_strings(b) {
            Some(p) => p,
            None => path,
        },
    };
    let strings = interesting_from(all_strings(d), 0, Seq::empty(), 64);
    let referenced = referenced_files_from(strings, 0, Seq::empty());
    &&& s.process_name@ == process
    &&& string_views(s.strings@) == strings
    &&& string_views(s.referenced_files@) == referenced
    &&& (match s.version {
        Some(v) => prefetch_version_of(d) == Some(v as int),
        None => prefetch_version_of(d) is None,
    })
    &&& prefetch_structure_of(d, s.version, s.structure)
    &&& s.run_times@.len() == s.structure.run_time_entries@.len()
    &&& forall|k: int|
        0 <= k < s.run_times@.len() ==> #[trigger] s.run_times@[k]@
            == s.structure.run_time_entries@[k].timestamp@
    &&& opt_view(s.prefetch_file_name) == file_name_of(path)
    &&& opt_view(s.prefetch_hash) == prefetch_hash_of_path(path)
    &&& opt_view(s.suspicion) == prefetch_suspicion_of(process, referenced)
    &&& s.severity@ == prefetch_severity_of(prefetch_suspicion_of(process, referenced))
    &&& s.offset_basis@ == (if decompressed {
        "scca_decompressed"@
    } else {
        "raw_object"@
    })
    &&& s.message@ == (if s.run_times@.len() > 0 {
        match s.structure.run_count {
            Some(n) => "Prefetch execution: "@ + process + " run_count="@ + decimal_text(n as nat),
            None => "Prefetch execution: "@ + process,
        }
    } else {
        "Prefetch file observed: "@ + process
    })
}

/// The summary of a prefetch file at `original_path` with bytes `bytes`, read
/// from `decoded` when decompression gave bytes, else from `bytes` themselves.
pub fn prefetch_binary_summary(original_path: &str, bytes: &[u8], decoded: Option<&[u8]>) -> (r:
    PrefetchBinarySummary)
    ensures
        binary_summary_of(
            original_path@,
            bytes@,
            match decoded {
                Some(d) => d@,
                None => bytes@,
            },
            decoded is Some,
            r,
        ),
{
    let d: &[u8] = match decoded {
        Some(d) => d,
        None => bytes,
    };
    let process_name = match prefetch_executable_from_path(original_path) {
        Some(p) => p,
        None => match extract_prefetch_executable_from_strings(bytes) {
            Some(p) => p,
            None => string_of(original_path),
        },
    };
    let strings = extract_interesting_strings(d, 64);
    let referenced_files = prefetch_referenced_files(strings.as_slice());
    let version = prefetch_version(d);
    let structure = parse_prefetch_structure(d, version);
    let mut run_times: Vec<String> = Vec::new();
    let mut i: usize = 0;
    while i < structure.run_time_entries.len()
        invariant
            i <= structure.run_time_entries@.len(),
            run_times@.len() == i,
            forall|k: int|
                0 <= k < i ==> #[trigger] run_times@[k]@ == structure.run_time_entries@[k].timestamp@,
        decreases structure.run_time_entries@.len() - i,
    {
        run_times.push(structure.run_time_entries[i].timestamp.clone());
        i = i + 1;
    }
    let prefetch_file_name = file_name_from_path(original_path);
    let prefetch_hash = prefetch_hash_for(original_path);
    let suspicion = prefetch_suspicion(process_name.as_str(), referenced_files.as_slice());
    let severity = prefetch_severity(suspicion_text(&suspicion));
    let offset_basis = match decoded {
        Some(_) => "scca_decompressed",
        None => "raw_object",
    };
    let message = if run_times.len() > 0 {
        match structure.run_count {
            Some(n) => run_count_message("Prefetch execution: ", process_name.as_str(), n),
            None => concat_str("Prefetch execution: ", process_name.as_str()),
        }
    } else {
        concat_str("Prefetch file observed: ", process_name.as_str())
    };
    PrefetchBinarySummary {
        process_name,
        strings,
        referenced_files,
        version,
        structure,
        run_times,
        prefetch_file_name,
        prefetch_hash,
        suspicion,
        severity,
        offset_basis,
        message,
    }
}

/// Summarises a prefetch file that `prefetch_core` could not decode: its
/// structure is read from the bytes that `prefetch_core` decompresses, or from
/// the bytes themselves when they cannot be decompressed.
pub fn summarize_prefetch_binary(original_path: &str, bytes: &[u8]) -> (r: PrefetchBinarySummary)
    ensures
        binary_summary_of(
            original_path@,
            bytes@,
            match scca_payload(bytes@) {
                Some(d) => d,
                None => bytes@,
            },
            scca_payload(bytes@) is Some,
            r,
        ),
{
    match prefetch_decompress(bytes) {
        Some(d) => prefetch_binary_summary(original_path, bytes, Some(d.as_slice())),
        None => prefetch_binary_summary(original_path, bytes, None),
    }
}


// ---------------------------------------------------------------------------
// Prefetch exports
// ---------------------------------------------------------------------------
/// What `str::parse::<u32>` makes of a text: a decimal number, with an optional
/// `+`, that fits in 32 bits.
pub open spec fn u32_text(s: Seq<char>) -> Option<int> {
    if s.len() > 0 && s[0] == '-' {
        None
    } else {
        match parse_int(s) {
            Some(v) => if v <= u32::MAX {
                Some(v)
            } else {
                None
            },
            None => None,
        }
    }
}

fn parse_u32_text(s: &str) -> (r: Option<u32>)
    ensures
        match r {
            Some(v) => u32_text(s@) == Some(v as int),
            None => u32_text(s@) is None,
        },
{
    let c = chars_of(s);
    if c.len() > 0 && c[0] == '-' {
        return None;
    }
    match parse_i64(c.as_slice()) {
        Some(v) => {
            if v >= 0 && v <= 0xffff_ffff {
                Some(v as u32)
            } else {
                proof {
                    let signed = s@.len() > 0 && (s@[0] == '+' || s@[0] == '-');
                    let d = if signed {
                        s@.drop_first()
                    } else {
                        s@
                    };
                    crate::text::lemma_decimal_value_nonneg(d);
                }
                None
            }
        },
        None => None,
    }
}

pub open spec fn executable_columns() -> Seq<Seq<char>> {
    seq![
        "executable"@,
        "executablename"@,
        "application"@,
        "processname"@,
        "filename"@,
        "sourcefilename"@,
        "path"@,
        "fullpath"@,
        "filepath"@,
    ]
}

pub open spec fn file_path_columns() -> Seq<Seq<char>> {
    seq![
        "fullpath"@,
        "filepath"@,
        "path"@,
        "executable"@,
        "executablename"@,
        "filename"@,
        "sourcefilename"@,
    ]
}

pub open spec fn process_columns() -> Seq<Seq<char>> {
    seq!["executablename"@, "executable"@, "processname"@, "application"@]
}

pub open spec fn host_columns() -> Seq<Seq<char>> {
    seq!["computername"@, "computer"@, "host"@, "hostname"@]
}

pub open spec fn user_columns() -> Seq<Seq<char>> {
    seq!["username"@, "user"@, "profile"@]
}

pub open spec fn hash_columns() -> Seq<Seq<char>> {
    seq!["hash"@, "sha1"@, "sha256"@, "md5"@]
}

pub open spec fn observed_time_columns() -> Seq<Seq<char>> {
    seq!["timestamp"@, "datetime"@, "time"@, "sourcecreated"@, "sourcemodified"@]
}

/// The run-time columns of a prefetch export, each with the kind of run it records.
pub open spec fn run_time_columns() -> Seq<(Seq<char>, Seq<char>)> {
    seq![
        ("lastrun"@, "prefetch_last_run"@),
        ("lastruntime"@, "prefetch_last_run"@),
        ("lastrun0"@, "prefetch_last_run"@),
        ("previousrun0"@, "prefetch_previous_run"@),
        ("previousrun1"@, "prefetch_previous_run"@),
        ("previousrun2"@, "prefetch_previous_run"@),
        ("previousrun3"@, "prefetch_previous_run"@),
        ("previousrun4"@, "prefetch_previous_run"@),
        ("previousrun5"@, "prefetch_previous_run"@),
        ("previousrun6"@, "prefetch_previous_run"@),
        ("previousrun7"@, "prefetch_previous_run"@),
    ]
}

/// The runs a row records, column by column: the kind, the text as written and
/// its time in UTC, for each run-time column whose text reads as a time.
pub open spec fn export_runs(
    row: Seq<(Seq<char>, Seq<char>)>,
    cols: Seq<(Seq<char>, Seq<char>)>,
) -> Seq<(Seq<char>, Seq<char>, Seq<char>)>
    decreases cols.len(),
{
    if cols.len() == 0 {
        Seq::empty()
    } else {
        let prev = export_runs(row, cols.drop_last());
        match cell_value(row, seq![cols.last().0]) {
            Some(t) => match datetime_text(t) {
                Some(e) => prev.push((cols.last().1, t, e)),
                None => prev,
            },
            None => prev,
        }
    }
}

/// One run that a prefetch export records.
#[derive(Debug, Clone)]
pub struct PrefetchExportRun {
    pub time_kind: &'static str,
    pub time_original: String,
    pub event_time: String,
}

pub open spec fn run_view(r: PrefetchExportRun) -> (Seq<char>, Seq<char>, Seq<char>) {
    (r.time_kind@, r.time_original@, r.event_time@)
}

/// One row of a prefetch export (PECmd and the like), summarised.
#[derive(Debug, Clone)]
pub struct PrefetchExportSummary {
    pub executable: String,
    pub file_path: String,
    pub process_name: Option<String>,
    pub host: Option<String>,
    pub user_name: Option<String>,
    pub hash: Option<String>,
    pub run_count: Option<String>,
    pub run_count_value: Option<u32>,
    pub prefetch_file_name: Option<String>,
    pub prefetch_hash: Option<String>,
    pub referenced_files: Vec<String>,
    pub suspicion: Option<String>,
    pub severity: &'static str,
    /// The runs the row records, in column order.
    pub runs: Vec<PrefetchExportRun>,
    /// What the events name as the program: its process name, else its path.
    pub target: String,
    /// The message of each run event.
    pub run_message: String,
    /// Without runs: the time text of the row, and its time in UTC.
    pub observed_time_original: String,
    pub observed_time: Option<String>,
    pub observed_message: String,
}

/// What the summary of row `r` of a prefetch export found at `path` holds.
pub open spec fn export_summary_of(
    path: Seq<char>,
    r: Seq<(Seq<char>, Seq<char>)>,
    s: PrefetchExportSummary,
) -> bool {
    let exe = match cell_value(r, executable_columns()) {
        Some(v) => v,
        None => path,
    };
    let file_path = match cell_value(r, file_path_columns()) {
        Some(v) => v,
        None => exe,
    };
    let process = match cell_value(r, process_columns()) {
        Some(v) => Some(v),
        None => file_name_of(exe),
    };
    let pf_name = match cell_value(r, seq!["sourcefilename"@]) {
        Some(n) => match file_name_of(n) {
            Some(f) => Some(f),
            None => file_name_of(exe),
        },
        None => file_name_of(exe),
    };
    let referenced = export_row_references(r, Some(file_path), exe);
    let suspicion = prefetch_suspicion_of(
        match process {
            Some(v) => v,
            None => exe,
        },
        referenced,
    );
    let target = match process {
        Some(v) => v,
        None => file_path,
    };
    let observed = match cell_value(r, observed_time_columns()) {
        Some(t) => t,
        None => Seq::empty(),
    };
    &&& s.executable@ == exe
    &&& s.file_path@ == file_path
    &&& opt_view(s.process_name) == process
    &&& opt_view(s.host) == cell_value(r, host_columns())
    &&& opt_view(s.user_name) == cell_value(r, user_columns())
    &&& opt_view(s.hash) == cell_value(r, hash_columns())
    &&& opt_view(s.run_count) == cell_value(r, seq!["runcount"@, "run_count"@])
    &&& (match s.run_count_value {
        Some(v) => opt_view(s.run_count) matches Some(t) && u32_text(t) == Some(v as int),
        None => !(opt_view(s.run_count) matches Some(t) && u32_text(t) is Some),
    })
    &&& opt_view(s.prefetch_file_name) == pf_name
    &&& opt_view(s.prefetch_hash) == prefetch_hash(
        match pf_name {
            Some(n) => n,
            None => exe,
        },
    )
    &&& string_views(s.referenced_files@) == referenced
    &&& opt_view(s.suspicion) == suspicion
    &&& s.severity@ == prefetch_severity_of(suspicion)
    &&& s.runs@.map_values(|x: PrefetchExportRun| run_view(x)) == export_runs(r, run_time_columns())
    &&& s.target@ == target
    &&& s.run_message@ == (match opt_view(s.run_count) {
        Some(c) => "Prefetch execution: "@ + target + " run_count="@ + c,
        None => "Prefetch execution: "@ + target,
    })
    &&& s.observed_time_original@ == observed
    &&& opt_view(s.observed_time) == datetime_text(observed)
    &&& s.observed_message@ == "Prefetch execution observed: "@ + target
}

fn cell_or(row: &[(String, String)], names: &[&str], fallback: &str) -> (r: String)
    ensures
        r@ == (match cell_value(entries(row@), views(names@)) {
            Some(v) => v,
            None => fallback@,
        }),
{
    match cell(row, names) {
        Some(v) => v,
        None => string_of(fallback),
    }
}

fn export_run_list(row: &[(String, String)]) -> (r: Vec<PrefetchExportRun>)
    ensures
        r@.map_values(|x: PrefetchExportRun| run_view(x)) == export_runs(entries(row@), run_time_columns()),
{
    let cols: [(&str, &'static str); 11] = [
        ("lastrun", "prefetch_last_run"),
        ("lastruntime", "prefetch_last_run"),
        ("lastrun0", "prefetch_last_run"),
        ("previousrun0", "prefetch_previous_run"),
        ("previousrun1", "prefetch_previous_run"),
        ("previousrun2", "prefetch_previous_run"),
        ("previousrun3", "prefetch_previous_run"),
        ("previousrun4", "prefetch_previous_run"),
        ("previousrun5", "prefetch_previous_run"),
        ("previousrun6", "prefetch_previous_run"),
        ("previousrun7", "prefetch_previous_run"),
    ];
    let ghost cv = cols@.map_values(|p: (&str, &'static str)| (p.0@, p.1@));
    assert(cv =~= run_time_columns());
    let ghost rv = entries(row@);
    let mut out: Vec<PrefetchExportRun> = Vec::new();
    let mut i: usize = 0;
    while i < 11
        invariant
            i <= 11,
            cols@.len() == 11,
            cv == cols@.map_values(|p: (&str, &'static str)| (p.0@, p.1@)),
            rv == entries(row@),
            out@.map_values(|x: PrefetchExportRun| run_view(x)) == export_runs(rv, cv.take(i as int)),
        decreases 11 - i,
    {
        let (column, kind) = cols[i];
        assert(cv.take(i + 1).drop_last() =~= cv.take(i as int));
        assert(cv.take(i + 1).last() == (column@, kind@));
        let names = [column];
        assert(views(names@) =~= seq![column@]);
        match cell(row, &names) {
            Some(t) => match normalize_datetime(t.as_str()) {
                Some(e) => {
                    let ghost prev = out@.map_values(|x: PrefetchExportRun| run_view(x));
                    out.push(PrefetchExportRun { time_kind: kind, time_original: t, event_time: e });
                    assert(out@.map_values(|x: PrefetchExportRun| run_view(x)) =~= prev.push(
                        run_view(out@.last()),
                    ));
                },
                None => {},
            },
            None => {},
        }
        i = i + 1;
    }
    assert(cv.take(11) =~= cv);
    out
}

/// The summary of one row of a prefetch export found at `original_path`.
pub fn prefetch_export_summary(original_path: &str, row: &[(String, String)]) -> (r:
    PrefetchExportSummary)
    ensures
        export_summary_of(original_path@, entries(row@), r),
{
    let ghost rv = entries(row@);
    let exe_names = [
        "executable",
        "executablename",
        "application",
        "processname",
        "filename",
        "sourcefilename",
        "path",
        "fullpath",
        "filepath",
    ];
    assert(views(exe_names@) =~= executable_columns());
    let executable = cell_or(row, &exe_names, original_path);
    let path_names = [
        "fullpath",
        "filepath",
        "path",
        "executable",
        "executablename",
        "filename",
        "sourcefilename",
    ];
    assert(views(path_names@) =~= file_path_columns());
    let file_path = cell_or(row, &path_names, executable.as_str());
    let process_names = ["executablename", "executable", "processname", "application"];
    assert(views(process_names@) =~= process_columns());
    let process_name = match cell(row, &process_names) {
        Some(v) => Some(v),
        None => file_name_from_path(executable.as_str()),
    };
    let host_names = ["computername", "computer", "host", "hostname"];
    assert(views(host_names@) =~= host_columns());
    let host = cell(row, &host_names);
    let user_names = ["username", "user", "profile"];
    assert(views(user_names@) =~= user_columns());
    let user_name = cell(row, &user_names);
    let hash_names = ["hash", "sha1", "sha256", "md5"];
    assert(views(hash_names@) =~= hash_columns());
    let hash = cell(row, &hash_names);
    let count_names = ["runcount", "run_count"];
    assert(views(count_names@) =~= seq!["runcount"@, "run_count"@]);
    let run_count = cell(row, &count_names);
    let run_count_value = match &run_count {
        Some(t) => parse_u32_text(t.as_str()),
        None => None,
    };
    let source_names = ["sourcefilename"];
    assert(views(source_names@) =~= seq!["sourcefilename"@]);
    let prefetch_file_name = match cell(row, &source_names) {
        Some(n) => match file_name_from_path(n.as_str()) {
            Some(f) => Some(f),
            None => file_name_from_path(executable.as_str()),
        },
        None => file_name_from_path(executable.as_str()),
    };
    let prefetch_hash = match &prefetch_file_name {
        Some(n) => prefetch_hash_from_filename(n.as_str()),
        None => prefetch_hash_from_filename(executable.as_str()),
    };
    let referenced_files = prefetch_referenced_files_from_export_row(
        row,
        Some(file_path.as_str()),
        executable.as_str(),
    );
    let suspicion = match &process_name {
        Some(p) => prefetch_suspicion(p.as_str(), referenced_files.as_slice()),
        None => prefetch_suspicion(executable.as_str(), referenced_files.as_slice()),
    };
    let severity = prefetch_severity(suspicion_text(&suspicion));
    let runs = export_run_list(row);
    let target = match &process_name {
        Some(p) => string_of(p.as_str()),
        None => string_of(file_path.as_str()),
    };
    let head = concat_str("Prefetch execution: ", target.as_str());
    let run_message = match &run_count {
        Some(c) => {
            let labelled = concat_str(head.as_str(), " run_count=");
            concat_str(labelled.as_str(), c.as_str())
        },
        None => head,
    };
    let time_names = ["timestamp", "datetime", "time", "sourcecreated", "sourcemodified"];
    assert(views(time_names@) =~= observed_time_columns());
    let observed_time_original = cell_or(row, &time_names, "");
    proof {
        reveal_strlit("");
        assert(""@ =~= Seq::<char>::empty());
    }
    let observed_time = normalize_datetime(observed_time_original.as_str());
    let observed_message = concat_str("Prefetch execution observed: ", target.as_str());
    PrefetchExportSummary {
        executable,
        file_path,
        process_name,
        host,
        user_name,
        hash,
        run_count,
        run_count_value,
        prefetch_file_name,
        prefetch_hash,
        referenced_files,
        suspicion,
        severity,
        runs,
        target,
        run_message,
        observed_time_original,
        observed_time,
        observed_message,
    }
}

} // verus!
