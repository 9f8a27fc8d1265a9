//! Native NTFS `$MFT` record decoding: record-size detection, update-sequence
//! fixups, data runs, attributes and path reconstruction.
use vstd::prelude::*;
use vstd::string::*;
use crate::decode::{
    clean, clean_opt, clean_view, decode_utf16le_lossy, filetime_text, hex_of, ini_lookup, ini_value,
    lines, opt_view, read_filetime_rfc3339, sha256_hex, utf16le_field,
};
use crate::external::{sha256_of, utf8_lossy, utf8_lossy_text};
use crate::text::{chars_of, is_control, lower, slice_to_vec, string_from, trim, trim_chars};
use std::collections::{HashMap, HashSet};
use crate::binary::{
    bytes_at, bytes_at_exec, bytes_start, file_magic, file_magic_bytes, fits, starts_with_bytes, le16, le32, le64, le_int, le_value,
    lemma_le_value_bound, read_le_int, read_le_uint, read_u16_le, read_u32_le, read_u64_le,
};

verus! {

/// One attribute of a record: its type name and whether its value lives outside the record.
#[derive(Clone, Copy, Debug)]
pub struct MftAttributeSummary {
    pub attr_type_name: &'static str,
    pub non_resident: bool,
}

/// One decoded data run.
#[derive(Clone, Copy, Debug)]
pub struct MftDataRunSummary {
    pub vcn_start: u64,
    pub cluster_count: u64,
    pub lcn: Option<i64>,
    pub sparse: bool,
}

/// The name of an NTFS attribute type code.
pub open spec fn attribute_type_name(t: u32) -> Seq<char> {
    if t == 0x10 {
        "STANDARD_INFORMATION"@
    } else if t == 0x20 {
        "ATTRIBUTE_LIST"@
    } else if t == 0x30 {
        "FILE_NAME"@
    } else if t == 0x40 {
        "OBJECT_ID"@
    } else if t == 0x50 {
        "SECURITY_DESCRIPTOR"@
    } else if t == 0x60 {
        "VOLUME_NAME"@
    } else if t == 0x70 {
        "VOLUME_INFORMATION"@
    } else if t == 0x80 {
        "DATA"@
    } else if t == 0x90 {
        "INDEX_ROOT"@
    } else if t == 0xa0 {
        "INDEX_ALLOCATION"@
    } else if t == 0xb0 {
        "BITMAP"@
    } else if t == 0xc0 {
        "REPARSE_POINT"@
    } else if t == 0xd0 {
        "EA_INFORMATION"@
    } else if t == 0xe0 {
        "EA"@
    } else if t == 0x100 {
        "LOGGED_UTILITY_STREAM"@
    } else {
        "UNKNOWN"@
    }
}

pub fn mft_attribute_type_name(attr_type: u32) -> (r: &'static str)
    ensures
        r@ == attribute_type_name(attr_type),
{
    match attr_type {
        0x10 => "STANDARD_INFORMATION",
        0x20 => "ATTRIBUTE_LIST",
        0x30 => "FILE_NAME",
        0x40 => "OBJECT_ID",
        0x50 => "SECURITY_DESCRIPTOR",
        0x60 => "VOLUME_NAME",
        0x70 => "VOLUME_INFORMATION",
        0x80 => "DATA",
        0x90 => "INDEX_ROOT",
        0xa0 => "INDEX_ALLOCATION",
        0xb0 => "BITMAP",
        0xc0 => "REPARSE_POINT",
        0xd0 => "EA_INFORMATION",
        0xe0 => "EA",
        0x100 => "LOGGED_UTILITY_STREAM",
        _ => "UNKNOWN",
    }
}

// ---------------------------------------------------------------------------
// Record size detection
// ---------------------------------------------------------------------------
/// How many leading records of size `c` are sampled.
pub open spec fn mft_sample_count(len: int, c: int) -> int {
    if len / c < 256 {
        len / c
    } else {
        256
    }
}

/// How many of the first `n` records of size `c` start with `FILE`.
pub open spec fn mft_file_count(b: Seq<u8>, c: int, n: int) -> int
    decreases n,
{
    if n <= 0 {
        0
    } else {
        mft_file_count(b, c, n - 1) + if bytes_at(b, file_magic(), (n - 1) * c) {
            1int
        } else {
            0int
        }
    }
}

/// The density score of record size `c`: ten thousand times the share of sampled
/// records that start with `FILE`, or none when no sampled record does.
pub open spec fn mft_score(b: Seq<u8>, c: int) -> Option<int> {
    if b.len() < c {
        None
    } else {
        let n = mft_sample_count(b.len() as int, c);
        let f = mft_file_count(b, c, n);
        if f == 0 {
            None
        } else {
            Some(f * 10000 / n)
        }
    }
}

/// The record size of an `$MFT` image: 1024 when its score reaches 7500, else the
/// better scored of 1024 and 4096, the smaller on a tie.
pub open spec fn mft_record_size(b: Seq<u8>) -> Option<usize> {
    match mft_score(b, 1024) {
        Some(a) => if a >= 7500 {
            Some(1024)
        } else {
            match mft_score(b, 4096) {
                Some(d) => if d > a {
                    Some(4096)
                } else {
                    Some(1024)
                },
                None => Some(1024),
            }
        },
        None => match mft_score(b, 4096) {
            Some(_) => Some(4096),
            None => None,
        },
    }
}

fn mft_candidate_score(bytes: &[u8], c: usize) -> (r: Option<usize>)
    requires
        c == 1024 || c == 4096,
    ensures
        match r {
            Some(v) => mft_score(bytes@, c as int) == Some(v as int),
            None => mft_score(bytes@, c as int) is None,
        },
{
    if bytes.len() < c {
        return None;
    }
    let n: usize = if bytes.len() / c < 256 {
        bytes.len() / c
    } else {
        256
    };
    assert(n * c <= bytes.len()) by (nonlinear_arith)
        requires
            n <= bytes.len() / c,
            c > 0,
    ;
    let magic = file_magic_bytes();
    let mut k: usize = 0;
    let mut off: usize = 0;
    let mut f: usize = 0;
    while k < n
        invariant
            k <= n,
            n * c <= bytes.len(),
            n <= 256,
            c == 1024 || c == 4096,
            off == k * c,
            f == mft_file_count(bytes@, c as int, k as int),
            f <= k,
            magic@ == file_magic(),
        decreases n - k,
    {
        assert((k + 1) * c <= n * c) by (nonlinear_arith)
            requires
                k + 1 <= n,
                c > 0,
        ;
        assert((k + 1) * c == k * c + c) by (nonlinear_arith);
        if bytes_at_exec(bytes, &magic, off) {
            f = f + 1;
        }
        k = k + 1;
        off = off + c;
    }
    if f == 0 {
        return None;
    }
    Some(f * 10000 / n)
}

pub fn detect_mft_record_size(bytes: &[u8]) -> (r: Option<usize>)
    ensures
        r == mft_record_size(bytes@),
{
    let small = mft_candidate_score(bytes, 1024);
    let large = mft_candidate_score(bytes, 4096);
    match small {
        Some(a) => {
            if a >= 7500 {
                Some(1024)
            } else {
                match large {
                    Some(d) => if d > a {
                        Some(4096)
                    } else {
                        Some(1024)
                    },
                    None => Some(1024),
                }
            }
        },
        None => match large {
            Some(_) => Some(4096),
            None => None,
        },
    }
}

// ---------------------------------------------------------------------------
// Update sequence fixup
// ---------------------------------------------------------------------------
/// The update sequence array of a record is usable.
pub open spec fn fixup_ok(r: Seq<u8>) -> bool {
    &&& r.len() >= 8
    &&& le16(r, 6) >= 2
    &&& le16(r, 4) + le16(r, 6) * 2 <= r.len()
    &&& (le16(r, 6) - 1) * 512 <= r.len()
}

/// Byte `j` of a record after its fixup: the last two bytes of each protected
/// sector are replaced by that sector's entry of the update sequence array.
pub open spec fn fixup_byte(r: Seq<u8>, j: int, upto: int) -> u8 {
    let off = le16(r, 4);
    if (j + 2) % 512 == 0 && 1 <= (j + 2) / 512 < upto {
        r[off + 2 * ((j + 2) / 512)]
    } else if (j + 1) % 512 == 0 && 1 <= (j + 1) / 512 < upto {
        r[off + 2 * ((j + 1) / 512) + 1]
    } else {
        r[j]
    }
}

pub open spec fn fixed_record(r: Seq<u8>) -> Seq<u8> {
    Seq::new(r.len(), |j: int| fixup_byte(r, j, le16(r, 6)))
}

pub fn apply_mft_fixup(record: &[u8]) -> (r: Option<Vec<u8>>)
    ensures
        match r {
            Some(v) => fixup_ok(record@) && v@ == fixed_record(record@),
            None => !fixup_ok(record@),
        },
{
    let usa_offset = match read_u16_le(record, 4) {
        Some(v) => v as usize,
        None => return None,
    };
    let usa_count = match read_u16_le(record, 6) {
        Some(v) => v as usize,
        None => return None,
    };
    if usa_count < 2 || usa_offset + usa_count * 2 > record.len() {
        return None;
    }
    let mut fixed = slice_bytes(record, 0, record.len());
    let mut s: usize = 1;
    while s < usa_count
        invariant
            1 <= s <= usa_count,
            record@.len() >= 8,
            usa_offset == le16(record@, 4),
            usa_count == le16(record@, 6),
            usa_offset + usa_count * 2 <= record@.len(),
            (s - 1) * 512 <= record@.len(),
            fixed@.len() == record@.len(),
            forall|j: int| 0 <= j < record@.len() ==> fixed@[j] == fixup_byte(record@, j, s as int),
        decreases usa_count - s,
    {
        let sector_end = s * 512;
        if sector_end > fixed.len() {
            return None;
        }
        let rep = usa_offset + s * 2;
        fixed.set(sector_end - 2, record[rep]);
        fixed.set(sector_end - 1, record[rep + 1]);
        assert forall|j: int| 0 <= j < record@.len() implies fixed@[j] == fixup_byte(
            record@,
            j,
            s + 1,
        ) by {
            if j == sector_end - 2 {
                assert((j + 2) / 512 == s);
            } else if j == sector_end - 1 {
                assert((j + 1) / 512 == s);
                assert((j + 2) % 512 != 0);
            } else {
                assert(!((j + 2) % 512 == 0 && (j + 2) / 512 == s));
                assert(!((j + 1) % 512 == 0 && (j + 1) / 512 == s));
            }
        }
        s = s + 1;
    }
    assert(fixed@ =~= fixed_record(record@));
    Some(fixed)
}

// ---------------------------------------------------------------------------
// Data runs
// ---------------------------------------------------------------------------
/// `a + b` clamped to the range of `i64`.
pub open spec fn sat_i64(a: int, b: int) -> i64 {
    if a + b > i64::MAX {
        i64::MAX
    } else if a + b < i64::MIN {
        i64::MIN
    } else {
        (a + b) as i64
    }
}

/// `a + b` clamped to the range of `u64`.
pub open spec fn sat_u64(a: int, b: int) -> u64 {
    if a + b > u64::MAX {
        u64::MAX
    } else {
        (a + b) as u64
    }
}

/// The data runs decoded from `b[cursor..]`, given the running LCN and VCN and
/// how many runs are already decoded; decoding stops at a zero header, a
/// malformed header, a truncated run, or sixteen runs.
pub open spec fn data_runs_from(b: Seq<u8>, cursor: int, lcn: i64, vcn: u64, count: int) -> Seq<
    MftDataRunSummary,
>
    decreases b.len() - cursor,
{
    if cursor < 0 || cursor >= b.len() || count >= 16 {
        Seq::empty()
    } else {
        let header = b[cursor];
        let c1 = cursor + 1;
        let ls = header % 16;
        let os = header / 16;
        if header == 0 || ls == 0 || ls > 8 || os > 8 || c1 + ls + os > b.len() {
            Seq::empty()
        } else {
            let cc = le_value(b.subrange(c1, c1 + ls)) as u64;
            let run = if os == 0 {
                MftDataRunSummary { vcn_start: vcn, cluster_count: cc, lcn: None, sparse: true }
            } else {
                MftDataRunSummary {
                    vcn_start: vcn,
                    cluster_count: cc,
                    lcn: Some(sat_i64(lcn as int, le_int(b.subrange(c1 + ls, c1 + ls + os)))),
                    sparse: false,
                }
            };
            let next_lcn = match run.lcn {
                Some(l) => l,
                None => lcn,
            };
            seq![run] + data_runs_from(b, c1 + ls + os, next_lcn, sat_u64(vcn as int, cc as int), count + 1)
        }
    }
}

pub fn parse_mft_data_runs(bytes: &[u8]) -> (r: Vec<MftDataRunSummary>)
    ensures
        r@ == data_runs_from(bytes@, 0, 0, 0, 0),
{
    let mut out: Vec<MftDataRunSummary> = Vec::new();
    let mut cursor: usize = 0;
    let mut current_lcn: i64 = 0;
    let mut current_vcn: u64 = 0;
    while cursor < bytes.len() && out.len() < 16
        invariant
            cursor <= bytes.len(),
            out@.len() <= 16,
            data_runs_from(bytes@, 0, 0, 0, 0) == out@ + data_runs_from(
                bytes@,
                cursor as int,
                current_lcn,
                current_vcn,
                out@.len() as int,
            ),
        decreases bytes.len() - cursor,
    {
        let header = bytes[cursor];
        let c1 = cursor + 1;
        if header == 0 {
            assert(data_runs_from(bytes@, cursor as int, current_lcn, current_vcn, out@.len() as int)
                =~= Seq::<MftDataRunSummary>::empty());
            assert(out@ + Seq::<MftDataRunSummary>::empty() =~= out@);
            return out;
        }
        let length_size = (header % 16) as usize;
        let offset_size = (header / 16) as usize;
        if length_size == 0 || length_size > 8 || offset_size > 8 || length_size + offset_size
            > bytes.len() - c1 {
            assert(data_runs_from(bytes@, cursor as int, current_lcn, current_vcn, out@.len() as int)
                =~= Seq::<MftDataRunSummary>::empty());
            assert(out@ + Seq::<MftDataRunSummary>::empty() =~= out@);
            return out;
        }
        let count_slice = slice_bytes(bytes, c1, c1 + length_size);
        let cluster_count = read_le_uint(count_slice.as_slice());
        proof {
            assert(count_slice@.take(length_size as int) =~= count_slice@);
            lemma_le_value_bound(count_slice@);
        }
        let next = c1 + length_size + offset_size;
        let run = if offset_size == 0 {
            MftDataRunSummary {
                vcn_start: current_vcn,
                cluster_count,
                lcn: None,
                sparse: true,
            }
        } else {
            let delta_slice = slice_bytes(bytes, c1 + length_size, next);
            let delta = read_le_int(delta_slice.as_slice());
            current_lcn = match current_lcn.checked_add(delta) {
                Some(v) => v,
                None => if delta > 0 {
                    i64::MAX
                } else {
                    i64::MIN
                },
            };
            MftDataRunSummary {
                vcn_start: current_vcn,
                cluster_count,
                lcn: Some(current_lcn),
                sparse: false,
            }
        };
        let ghost prev = out@;
        out.push(run);
        current_vcn = current_vcn.saturating_add(cluster_count);
        assert(out@ + data_runs_from(bytes@, next as int, current_lcn, current_vcn, out@.len() as int)
            =~= prev + (seq![run] + data_runs_from(
            bytes@,
            next as int,
            current_lcn,
            current_vcn,
            out@.len() as int,
        )));
        cursor = next;
    }
    assert(data_runs_from(bytes@, cursor as int, current_lcn, current_vcn, out@.len() as int)
        =~= Seq::<MftDataRunSummary>::empty());
    assert(out@ + Seq::<MftDataRunSummary>::empty() =~= out@);
    out
}

/// A copy of `b[a..e]`.
pub fn slice_bytes(b: &[u8], a: usize, e: usize) -> (r: Vec<u8>)
    requires
        a <= e <= b.len(),
    ensures
        r@ == b@.subrange(a as int, e as int),
{
    let mut out: Vec<u8> = Vec::new();
    let mut i: usize = a;
    while i < e
        invariant
            a <= i <= e <= b.len(),
            out@ =~= b@.subrange(a as int, i as int),
        decreases e - i,
    {
        out.push(b[i]);
        i = i + 1;
    }
    out
}

// ---------------------------------------------------------------------------
// Decoded records
// ---------------------------------------------------------------------------
/// A resident `$DATA` value worth reporting: a named stream or readable text.
#[derive(Clone, Debug)]
pub struct MftResidentContentSummary {
    pub attribute_id: Option<u16>,
    pub attr_type_name: &'static str,
    pub name: Option<String>,
    pub value_offset: usize,
    pub value_length: usize,
    pub sha256: String,
    pub text_preview: Option<String>,
    pub host_url: Option<String>,
    pub zone_id: Option<String>,
    pub referrer_url: Option<String>,
    pub stream_kind: &'static str,
}

/// One decoded `$MFT` record.
#[derive(Clone, Debug)]
pub struct MftNativeRecord {
    pub record_number: u64,
    pub record_offset: u64,
    pub record_size: usize,
    pub sequence_number: u16,
    pub in_use: bool,
    pub is_directory: bool,
    pub parent_record_number: Option<u64>,
    pub parent_sequence_number: Option<u16>,
    pub file_name: Option<String>,
    pub file_namespace: Option<u8>,
    pub file_attributes: Option<u32>,
    pub allocated_size: Option<u64>,
    pub file_size: Option<u64>,
    pub si_created: Option<String>,
    pub si_modified: Option<String>,
    pub si_record_changed: Option<String>,
    pub si_accessed: Option<String>,
    pub fn_created: Option<String>,
    pub fn_modified: Option<String>,
    pub fn_record_changed: Option<String>,
    pub fn_accessed: Option<String>,
    pub attribute_count: usize,
    pub attributes: Vec<MftAttributeSummary>,
    pub resident_contents: Vec<MftResidentContentSummary>,
    pub data_runs: Vec<MftDataRunSummary>,
}

// ---------------------------------------------------------------------------
// Path reconstruction
// ---------------------------------------------------------------------------
/// What path reconstruction needs of a record.
#[derive(Clone, Debug)]
pub struct MftPathEntry {
    pub sequence_number: u16,
    pub parent_record_number: Option<u64>,
    pub parent_sequence_number: Option<u16>,
    pub file_name: Option<String>,
}

pub open spec fn path_entry_of(r: MftNativeRecord) -> MftPathEntry {
    MftPathEntry {
        sequence_number: r.sequence_number,
        parent_record_number: r.parent_record_number,
        parent_sequence_number: r.parent_sequence_number,
        file_name: r.file_name,
    }
}

/// Records keyed by record number; a later record replaces an earlier one with the same number.
pub open spec fn path_map_of(records: Seq<MftNativeRecord>) -> Map<u64, MftPathEntry>
    decreases records.len(),
{
    if records.len() == 0 {
        Map::empty()
    } else {
        path_map_of(records.drop_last()).insert(
            records.last().record_number,
            path_entry_of(records.last()),
        )
    }
}

fn clone_opt_string(s: &Option<String>) -> (r: Option<String>)
    ensures
        r == *s,
{
    match s {
        Some(v) => Some(v.clone()),
        None => None,
    }
}

pub fn mft_path_map(records: &[MftNativeRecord]) -> (r: HashMap<u64, MftPathEntry>)
    ensures
        r@ == path_map_of(records@),
{
    broadcast use vstd::std_specs::hash::group_hash_axioms;

    let mut out: HashMap<u64, MftPathEntry> = HashMap::new();
    let mut i: usize = 0;
    while i < records.len()
        invariant
            i <= records.len(),
            out@ == path_map_of(records@.subrange(0, i as int)),
        decreases records.len() - i,
    {
        let record = &records[i];
        let entry = MftPathEntry {
            sequence_number: record.sequence_number,
            parent_record_number: record.parent_record_number,
            parent_sequence_number: record.parent_sequence_number,
            file_name: clone_opt_string(&record.file_name),
        };
        out.insert(record.record_number, entry);
        assert(records@.subrange(0, i + 1).drop_last() =~= records@.subrange(0, i as int));
        i = i + 1;
    }
    assert(records@.subrange(0, records@.len() as int) =~= records@);
    out
}

/// The views of the cached paths.
pub open spec fn cache_view(c: Map<u64, String>) -> Map<u64, Seq<char>> {
    c.map_values(|s: String| s@)
}

/// The parent that a record's path is built under: its recorded parent, provided that
/// parent is known and its sequence number matches the one the child recorded.
pub open spec fn trusted_parent(m: Map<u64, MftPathEntry>, e: MftPathEntry) -> Option<u64> {
    match e.parent_record_number {
        Some(p) => if m.contains_key(p) && e.parent_sequence_number == Some(
            m[p].sequence_number,
        ) {
            Some(p)
        } else {
            None
        },
        None => None,
    }
}

/// A parent path joined with a name by a backslash; an empty parent path is the root.
pub open spec fn join_path(parent: Option<Seq<char>>, name: Seq<char>) -> Seq<char> {
    match parent {
        Some(p) => if p.len() == 0 {
            name
        } else {
            p + "\\"@ + name
        },
        None => name,
    }
}

/// The path of record `rec` and the cache after computing it, given the cache, the
/// records on the current walk and the walk depth: a cached path is reused; a record
/// already on the walk, or a walk deeper than 64, yields none; the root (named `.`
/// or its own parent) yields the empty path; otherwise the name is joined under the
/// path of the trusted parent, or stands alone.
pub open spec fn path_inner(
    m: Map<u64, MftPathEntry>,
    c: Map<u64, Seq<char>>,
    v: Set<u64>,
    rec: u64,
    depth: int,
) -> (Option<Seq<char>>, Map<u64, Seq<char>>)
    decreases 65 - depth,
{
    if depth > 64 || depth < 0 {
        (None, c)
    } else if c.contains_key(rec) {
        (Some(c[rec]), c)
    } else if v.contains(rec) {
        (None, c)
    } else if !m.contains_key(rec) {
        (None, c)
    } else {
        let e = m[rec];
        match e.file_name {
            None => (None, c),
            Some(name) => if name@ == "."@ || e.parent_record_number == Some(rec) {
                (Some(Seq::empty()), c.insert(rec, Seq::empty()))
            } else {
                match trusted_parent(m, e) {
                    Some(p) => {
                        let (pp, c2) = path_inner(m, c, v.insert(rec), p, depth + 1);
                        let path = join_path(pp, name@);
                        (Some(path), c2.insert(rec, path))
                    },
                    None => (Some(name@), c.insert(rec, name@)),
                }
            },
        }
    }
}

pub fn mft_path_for_record_inner(
    record_number: u64,
    map: &HashMap<u64, MftPathEntry>,
    cache: &mut HashMap<u64, String>,
    visiting: &mut HashSet<u64>,
    depth: usize,
) -> (r: Option<String>)
    ensures
        ({
            let (p, c) = path_inner(
                map@,
                cache_view(old(cache)@),
                old(visiting)@,
                record_number,
                depth as int,
            );
            &&& match r {
                Some(s) => p == Some(s@),
                None => p is None,
            }
            &&& cache_view(final(cache)@) == c
        }),
        final(visiting)@ == old(visiting)@,
    decreases 65 - depth,
{
    broadcast use vstd::std_specs::hash::group_hash_axioms;

    if depth > 64 {
        return None;
    }
    match cache.get(&record_number) {
        Some(value) => {
            return Some(value.clone());
        },
        None => {},
    }
    if visiting.contains(&record_number) {
        return None;
    }
    let entry = match map.get(&record_number) {
        Some(e) => e,
        None => {
            return None;
        },
    };
    let name = match &entry.file_name {
        Some(n) => n.clone(),
        None => {
            return None;
        },
    };
    if text_is_dot(name.as_str()) || entry.parent_record_number == Some(record_number) {
        let empty = String::new();
        let ghost c0 = cache@;
        cache.insert(record_number, empty.clone());
        assert(cache_view(cache@) =~= cache_view(c0).insert(record_number, Seq::empty()));
        return Some(empty);
    }
    let parent = match entry.parent_record_number {
        Some(p) => match map.get(&p) {
            Some(pe) => match entry.parent_sequence_number {
                Some(ps) => if ps == pe.sequence_number {
                    Some(p)
                } else {
                    None
                },
                None => None,
            },
            None => None,
        },
        None => None,
    };
    assert(parent == trusted_parent(map@, map@[record_number]));
    let path = match parent {
        Some(p) => {
            visiting.insert(record_number);
            let parent_path = mft_path_for_record_inner(p, map, cache, visiting, depth + 1);
            visiting.remove(&record_number);
            assert(visiting@ =~= old(visiting)@);
            match parent_path {
                Some(pp) => if pp.as_str().is_empty() {
                    name
                } else {
                    let mut joined = pp;
                    joined.append("\\");
                    joined.append(name.as_str());
                    joined
                },
                None => name,
            }
        },
        None => name,
    };
    let ghost c1 = cache@;
    cache.insert(record_number, path.clone());
    assert(cache_view(cache@) =~= cache_view(c1).insert(record_number, path@));
    Some(path)
}

fn text_is_dot(s: &str) -> (r: bool)
    ensures
        r == (s@ == "."@),
{
    let v = crate::text::chars_of(s);
    crate::text::eq_str(v.as_slice(), ".")
}

pub fn mft_path_for_record(
    record_number: u64,
    map: &HashMap<u64, MftPathEntry>,
    cache: &mut HashMap<u64, String>,
) -> (r: Option<String>)
    ensures
        ({
            let (p, c) = path_inner(
                map@,
                cache_view(old(cache)@),
                Set::empty(),
                record_number,
                0,
            );
            &&& match r {
                Some(s) => p == Some(s@),
                None => p is None,
            }
            &&& cache_view(final(cache)@) == c
        }),
{
    let mut visiting: HashSet<u64> = HashSet::new();
    mft_path_for_record_inner(record_number, map, cache, &mut visiting, 0)
}

/// A cached path is answered from the cache, which stays as it was.
pub proof fn law_cached_path_reused(
    m: Map<u64, MftPathEntry>,
    c: Map<u64, Seq<char>>,
    v: Set<u64>,
    rec: u64,
    depth: int,
)
    requires
        0 <= depth <= 64,
        c.contains_key(rec),
    ensures
        path_inner(m, c, v, rec, depth) == (Some(c[rec]), c),
{
}

/// Path reconstruction only adds to the cache, and records every path it returns
/// under the record it was asked for.
pub proof fn law_cache_grows_and_records(
    m: Map<u64, MftPathEntry>,
    c: Map<u64, Seq<char>>,
    v: Set<u64>,
    rec: u64,
    depth: int,
)
    ensures
        ({
            let (p, c2) = path_inner(m, c, v, rec, depth);
            &&& c.submap_of(c2)
            &&& p matches Some(path) ==> c2.contains_key(rec) && c2[rec] == path
        }),
    decreases 65 - depth,
{
    if depth > 64 || depth < 0 || c.contains_key(rec) || v.contains(rec) || !m.contains_key(rec) {
    } else {
        let e = m[rec];
        match e.file_name {
            None => {},
            Some(name) => {
                if name@ == "."@ || e.parent_record_number == Some(rec) {
                } else {
                    match trusted_parent(m, e) {
                        Some(p) => {
                            law_cache_grows_and_records(m, c, v.insert(rec), p, depth + 1);
                        },
                        None => {},
                    }
                }
            },
        }
    }
}

/// A path computed afresh ends with the record's own file name.
pub proof fn law_path_ends_with_own_name(
    m: Map<u64, MftPathEntry>,
    c: Map<u64, Seq<char>>,
    v: Set<u64>,
    rec: u64,
    depth: int,
    name: String,
)
    requires
        0 <= depth <= 64,
        !c.contains_key(rec),
        !v.contains(rec),
        m.contains_key(rec),
        m[rec].file_name == Some(name),
        name@ != "."@,
        m[rec].parent_record_number != Some(rec),
    ensures
        path_inner(m, c, v, rec, depth).0 matches Some(path) && crate::text::ends_with(
            path,
            name@,
        ),
{
    let e = m[rec];
    match trusted_parent(m, e) {
        Some(p) => {
            let (pp, c2) = path_inner(m, c, v.insert(rec), p, depth + 1);
            match pp {
                Some(x) => {
                    if x.len() != 0 {
                        let path = x + "\\"@ + name@;
                        assert(path.subrange(path.len() - name@.len(), path.len() as int)
                            =~= name@);
                    } else {
                        assert(name@.subrange(0, name@.len() as int) =~= name@);
                    }
                },
                None => {
                    assert(name@.subrange(0, name@.len() as int) =~= name@);
                },
            }
        },
        None => {
            assert(name@.subrange(0, name@.len() as int) =~= name@);
        },
    }
}

/// A record whose recorded parent is unknown, or whose recorded parent sequence number
/// does not match that parent's, is placed at the root: its path is its name alone.
pub proof fn law_stale_parent_rejected(
    m: Map<u64, MftPathEntry>,
    c: Map<u64, Seq<char>>,
    v: Set<u64>,
    rec: u64,
    depth: int,
    name: String,
)
    requires
        0 <= depth <= 64,
        !c.contains_key(rec),
        !v.contains(rec),
        m.contains_key(rec),
        m[rec].file_name == Some(name),
        name@ != "."@,
        m[rec].parent_record_number != Some(rec),
        trusted_parent(m, m[rec]) is None,
    ensures
        path_inner(m, c, v, rec, depth).0 == Some(name@),
{
}

/// A record on the current walk is not entered again, so a cycle of parents ends.
pub proof fn law_cycle_breaks(
    m: Map<u64, MftPathEntry>,
    c: Map<u64, Seq<char>>,
    v: Set<u64>,
    rec: u64,
    depth: int,
)
    requires
        !c.contains_key(rec),
        v.contains(rec),
    ensures
        path_inner(m, c, v, rec, depth) == (None::<Seq<char>>, c),
{
}

// ---------------------------------------------------------------------------
// Attribute values
// ---------------------------------------------------------------------------
/// A decoded `$FILE_NAME` attribute.
#[derive(Clone, Debug)]
pub struct MftFileNameAttribute {
    pub parent_record_number: u64,
    pub parent_sequence_number: u16,
    pub file_name: String,
    pub namespace: u8,
    pub file_attributes: u32,
    pub allocated_size: u64,
    pub file_size: u64,
    pub created: Option<String>,
    pub modified: Option<String>,
    pub record_changed: Option<String>,
    pub accessed: Option<String>,
}

/// The name bytes of a `$FILE_NAME` value: `v[64]` UTF-16 code units from offset 66.
pub open spec fn fn_name_bytes(v: Seq<u8>) -> Seq<u8> {
    v.subrange(66, 66 + 2 * v[64])
}

/// A `$FILE_NAME` value decodes: it holds the fixed part, the whole name, and the
/// name is not empty once decoded.
#[verifier::opaque]
pub open spec fn fn_value_ok(v: Seq<u8>) -> bool {
    v.len() >= 66 && 66 + 2 * v[64] <= v.len() && utf16le_field(fn_name_bytes(v)).len() > 0
}

/// `a` is the decoding of the `$FILE_NAME` value `v`.
#[verifier::opaque]
pub open spec fn fn_attr_of(v: Seq<u8>, a: MftFileNameAttribute) -> bool {
    let parent = le64(v, 0);
    &&& a.parent_record_number == parent % 0x1_0000_0000_0000
    &&& a.parent_sequence_number == parent / 0x1_0000_0000_0000
    &&& a.file_name@ == utf16le_field(fn_name_bytes(v))
    &&& a.namespace == v[65]
    &&& a.file_attributes == le32(v, 56)
    &&& a.allocated_size == le64(v, 40)
    &&& a.file_size == le64(v, 48)
    &&& opt_view(a.created) == filetime_text(le64(v, 8))
    &&& opt_view(a.modified) == filetime_text(le64(v, 16))
    &&& opt_view(a.record_changed) == filetime_text(le64(v, 24))
    &&& opt_view(a.accessed) == filetime_text(le64(v, 32))
}

pub fn parse_mft_file_name_attribute(value: &[u8]) -> (r: Option<MftFileNameAttribute>)
    ensures
        r is Some <==> fn_value_ok(value@),
        r matches Some(a) ==> fn_attr_of(value@, a),
{
    reveal(fn_value_ok);
    reveal(fn_attr_of);
    if value.len() < 66 {
        return None;
    }
    let parent_reference = read_u64_le(value, 0).unwrap();
    let name_len = value[64] as usize;
    let namespace = value[65];
    let name_end = 66 + name_len * 2;
    if name_end > value.len() {
        return None;
    }
    let name_bytes = slice_bytes(value, 66, name_end);
    let name = decode_utf16le_lossy(name_bytes.as_slice());
    if name.as_str().is_empty() {
        return None;
    }
    Some(
        MftFileNameAttribute {
            parent_record_number: crate::binary::file_reference_record_number(parent_reference),
            parent_sequence_number: crate::binary::file_reference_sequence_number(parent_reference),
            file_name: name,
            namespace,
            file_attributes: read_u32_le(value, 56).unwrap(),
            allocated_size: read_u64_le(value, 40).unwrap(),
            file_size: read_u64_le(value, 48).unwrap(),
            created: read_filetime_rfc3339(value, 8),
            modified: read_filetime_rfc3339(value, 16),
            record_changed: read_filetime_rfc3339(value, 24),
            accessed: read_filetime_rfc3339(value, 32),
        },
    )
}

/// The name of the attribute at `o`: `name_len` UTF-16 code units at `o + name_offset`,
/// when they lie inside both the attribute and the record, cleaned.
pub open spec fn attribute_name(
    f: Seq<u8>,
    o: int,
    attr_len: int,
    name_len: int,
    name_offset: int,
) -> Option<Seq<char>> {
    let start = o + name_offset;
    let end = start + 2 * name_len;
    if name_len == 0 || name_offset >= attr_len || end > o + attr_len || end > f.len() || start < 0 {
        None
    } else {
        clean(utf16le_field(f.subrange(start, end)))
    }
}

pub fn read_mft_attribute_name(
    record: &[u8],
    attr_offset: usize,
    attr_len: usize,
    name_len: usize,
    name_offset: usize,
) -> (r: Option<String>)
    ensures
        opt_view(r) == attribute_name(
            record@,
            attr_offset as int,
            attr_len as int,
            name_len as int,
            name_offset as int,
        ),
{
    if name_len == 0 {
        return None;
    }
    let total = record.len();
    assert(record@.len() == total);
    let start = match attr_offset.checked_add(name_offset) {
        Some(v) => v,
        None => {
            assert(attr_offset + name_offset + 2 * name_len > record@.len());
            return None;
        },
    };
    let byte_len = match name_len.checked_mul(2) {
        Some(v) => v,
        None => {
            assert(attr_offset + name_offset + 2 * name_len > record@.len());
            return None;
        },
    };
    let end = match start.checked_add(byte_len) {
        Some(v) => v,
        None => {
            assert(attr_offset + name_offset + 2 * name_len > record@.len());
            return None;
        },
    };
    let limit = attr_offset.saturating_add(attr_len);
    if name_offset >= attr_len || end > limit || end > record.len() {
        return None;
    }
    let raw = slice_bytes(record, start, end);
    let decoded = decode_utf16le_lossy(raw.as_slice());
    clean_opt(Some(decoded))
}

// ---------------------------------------------------------------------------
// Resident text previews
// ---------------------------------------------------------------------------
/// Control characters other than line breaks and tabs replaced by spaces.
pub open spec fn blank_controls(t: Seq<char>) -> Seq<char> {
    t.map_values(
        |c: char|
            if is_control(c) && c != '\n' && c != '\r' && c != '\t' {
                ' '
            } else {
                c
            },
    )
}

/// A readable preview of resident text: controls blanked, trimmed, at most 4096
/// characters, or none when nothing is left.
pub open spec fn resident_preview(t: Seq<char>) -> Option<Seq<char>> {
    let c = trim(blank_controls(t));
    if c.len() == 0 {
        None
    } else {
        Some(c.take(if c.len() < 4096 { c.len() as int } else { 4096 }))
    }
}

pub fn clean_resident_preview(text: &str) -> (r: Option<String>)
    ensures
        opt_view(r) == resident_preview(text@),
{
    let v = chars_of(text);
    let mut blanked: Vec<char> = Vec::new();
    let mut i: usize = 0;
    while i < v.len()
        invariant
            i <= v.len(),
            blanked@ =~= blank_controls(v@.subrange(0, i as int)),
        decreases v.len() - i,
    {
        let ch = v[i];
        if crate::text::char_is_control(ch) && ch != '\n' && ch != '\r' && ch != '\t' {
            blanked.push(' ');
        } else {
            blanked.push(ch);
        }
        i = i + 1;
    }
    assert(v@.subrange(0, v@.len() as int) =~= v@);
    let t = trim_chars(blanked.as_slice());
    if t.len() == 0 {
        return None;
    }
    let n = if t.len() < 4096 {
        t.len()
    } else {
        4096
    };
    let kept = slice_to_vec(t.as_slice(), 0, n);
    assert(kept@ =~= t@.take(n as int));
    Some(string_from(kept.as_slice()))
}

/// Non-zero bytes at even indices below `n`.
pub open spec fn even_nonzero(v: Seq<u8>, n: int) -> int
    decreases n,
{
    if n <= 0 {
        0
    } else {
        even_nonzero(v, n - 1) + if (n - 1) % 2 == 0 && v[n - 1] != 0 {
            1int
        } else {
            0int
        }
    }
}

/// Zero bytes at odd indices below `n`.
pub open spec fn odd_zero(v: Seq<u8>, n: int) -> int
    decreases n,
{
    if n <= 0 {
        0
    } else {
        odd_zero(v, n - 1) + if (n - 1) % 2 == 1 && v[n - 1] == 0 {
            1int
        } else {
            0int
        }
    }
}

/// ASCII graphic bytes and ASCII white space (space, tab, line feed, form feed,
/// carriage return) below `n`.
pub open spec fn printable_count(v: Seq<u8>, n: int) -> int
    decreases n,
{
    if n <= 0 {
        0
    } else {
        printable_count(v, n - 1) + if (0x21 <= v[n - 1] <= 0x7e) || v[n - 1] == 0x20 || v[n
            - 1] == 0x09 || v[n - 1] == 0x0a || v[n - 1] == 0x0c || v[n - 1] == 0x0d {
            1int
        } else {
            0int
        }
    }
}

/// The text preview of a resident value: read as UTF-16LE when more than two even
/// bytes are non-zero and at least half the odd bytes are zero; else as UTF-8 when
/// at least 70% of its bytes are printable ASCII.
pub open spec fn resident_text(v: Seq<u8>) -> Option<Seq<char>> {
    let n = v.len() as int;
    if n >= 4 && even_nonzero(v, n) > 2 && odd_zero(v, n) * 2 >= n / 2 {
        resident_preview(utf16le_field(v))
    } else if printable_count(v, n) * 100 < n * 70 {
        None
    } else {
        resident_preview(utf8_lossy_text(v))
    }
}

pub fn resident_text_preview(value: &[u8]) -> (r: Option<String>)
    ensures
        opt_view(r) == resident_text(value@),
{
    let mut even: usize = 0;
    let mut odd: usize = 0;
    let mut printable: usize = 0;
    let mut i: usize = 0;
    while i < value.len()
        invariant
            i <= value.len(),
            even == even_nonzero(value@, i as int),
            odd == odd_zero(value@, i as int),
            printable == printable_count(value@, i as int),
            even <= i && odd <= i && printable <= i,
        decreases value.len() - i,
    {
        let b = value[i];
        if i % 2 == 0 && b != 0 {
            even = even + 1;
        }
        if i % 2 == 1 && b == 0 {
            odd = odd + 1;
        }
        if (0x21 <= b && b <= 0x7e) || b == 0x20 || b == 0x09 || b == 0x0a || b == 0x0c || b
            == 0x0d {
            printable = printable + 1;
        }
        i = i + 1;
    }
    if value.len() >= 4 && even > 2 && odd as u128 * 2 >= (value.len() / 2) as u128 {
        let text = decode_utf16le_lossy(value);
        return clean_resident_preview(text.as_str());
    }
    if (printable as u128) * 100 < (value.len() as u128) * 70 {
        return None;
    }
    let text = utf8_lossy(value);
    clean_resident_preview(text.as_str())
}

/// The summary of a resident `$DATA` value of at most 64 KiB at `value_offset`: kept
/// for a named stream (`ads`) or for readable text (`resident_data`), with the
/// zone-identifier keys read from the text.
#[verifier::opaque]
pub open spec fn resident_summary_of(
    attr_type: u32,
    attribute_id: Option<u16>,
    kind_name: &'static str,
    name: Option<Seq<char>>,
    value_offset: usize,
    value: Seq<u8>,
    s: MftResidentContentSummary,
) -> bool {
    let preview = resident_text(value);
    let keys = match preview {
        Some(t) => lines(t),
        None => Seq::empty(),
    };
    let named = name matches Some(n) && n.len() > 0;
    &&& s.attribute_id == attribute_id
    &&& s.attr_type_name == kind_name
    &&& opt_view(s.name) == name
    &&& s.value_offset == value_offset
    &&& s.value_length == value.len()
    &&& s.sha256@ == hex_of(sha256_of(value))
    &&& opt_view(s.text_preview) == preview
    &&& opt_view(s.host_url) == match ini_lookup(keys, "HostUrl"@) {
        Some(u) => Some(u),
        None => ini_lookup(keys, "HostURL"@),
    }
    &&& opt_view(s.referrer_url) == match ini_lookup(keys, "ReferrerUrl"@) {
        Some(u) => Some(u),
        None => ini_lookup(keys, "ReferrerURL"@),
    }
    &&& opt_view(s.zone_id) == ini_lookup(keys, "ZoneId"@)
    &&& s.stream_kind@ == if named {
        "ads"@
    } else {
        "resident_data"@
    }
}

/// A resident value is summarized: unnamed `$DATA` of 1 to 65536 bytes that is a
/// named stream or has a text preview.
#[verifier::opaque]
pub open spec fn resident_summarized(attr_type: u32, name: Option<Seq<char>>, value: Seq<u8>) -> bool {
    &&& attr_type == 0x80
    &&& 0 < value.len() <= 65536
    &&& (name matches Some(n) && n.len() > 0) || resident_text(value) is Some
}

pub fn summarize_mft_resident_content(
    attr_type: u32,
    attribute_id: Option<u16>,
    kind_name: &'static str,
    name: Option<String>,
    value_offset: usize,
    value: &[u8],
) -> (r: Option<MftResidentContentSummary>)
    ensures
        r is Some <==> resident_summarized(attr_type, opt_view(name), value@),
        r matches Some(s) ==> s.attr_type_name == kind_name,
        r matches Some(s) ==> resident_summary_of(
            attr_type,
            attribute_id,
            kind_name,
            opt_view(name),
            value_offset,
            value@,
            s,
        ),
{
    reveal(resident_summarized);
    reveal(resident_summary_of);
    if attr_type != 0x80 || value.len() == 0 || value.len() > 64 * 1024 {
        return None;
    }
    let text_preview = resident_text_preview(value);
    let named_stream = match &name {
        Some(n) => !n.as_str().is_empty(),
        None => false,
    };
    if !named_stream && text_preview.is_none() {
        return None;
    }
    let text_for_keys: String = match &text_preview {
        Some(t) => t.clone(),
        None => String::new(),
    };
    proof {
        if text_preview is None {
            assert(lines(text_for_keys@) =~= Seq::<Seq<char>>::empty());
        }
    }
    let host_url = match ini_value(text_for_keys.as_str(), "HostUrl") {
        Some(u) => Some(u),
        None => ini_value(text_for_keys.as_str(), "HostURL"),
    };
    let referrer_url = match ini_value(text_for_keys.as_str(), "ReferrerUrl") {
        Some(u) => Some(u),
        None => ini_value(text_for_keys.as_str(), "ReferrerURL"),
    };
    let zone_id = ini_value(text_for_keys.as_str(), "ZoneId");
    let stream_kind = if named_stream {
        "ads"
    } else {
        "resident_data"
    };
    Some(
        MftResidentContentSummary {
            attribute_id,
            attr_type_name: kind_name,
            name,
            value_offset,
            value_length: value.len(),
            sha256: sha256_hex(value),
            text_preview,
            host_url,
            zone_id,
            referrer_url,
            stream_kind,
        },
    )
}

/// How strongly a file-name namespace is preferred: Win32, then Win32+DOS, POSIX, DOS.
pub open spec fn namespace_rank(ns: u8) -> int {
    if ns == 1 {
        0
    } else if ns == 3 {
        1
    } else if ns == 0 {
        2
    } else if ns == 2 {
        3
    } else {
        4
    }
}

fn namespace_rank_exec(ns: u8) -> (r: u8)
    ensures
        r == namespace_rank(ns),
{
    match ns {
        1 => 0,
        3 => 1,
        0 => 2,
        2 => 3,
        _ => 4,
    }
}

/// The index of the first name with the best namespace rank.
pub open spec fn best_name_index(names: Seq<MftFileNameAttribute>) -> Option<int>
    decreases names.len(),
{
    if names.len() == 0 {
        None
    } else {
        match best_name_index(names.drop_last()) {
            Some(k) => if namespace_rank(names.last().namespace) < namespace_rank(
                names[k].namespace,
            ) {
                Some(names.len() - 1)
            } else {
                Some(k)
            },
            None => Some(names.len() - 1),
        }
    }
}

pub fn select_mft_file_name(file_names: &[MftFileNameAttribute]) -> (r: Option<
    &MftFileNameAttribute,
>)
    ensures
        match r {
            Some(a) => best_name_index(file_names@) matches Some(k) && *a == file_names@[k],
            None => best_name_index(file_names@) is None,
        },
{
    let mut best: Option<usize> = None;
    let mut i: usize = 0;
    while i < file_names.len()
        invariant
            i <= file_names.len(),
            match best {
                Some(k) => k < i && best_name_index(file_names@.subrange(0, i as int)) == Some(
                    k as int,
                ),
                None => i == 0,
            },
        decreases file_names.len() - i,
    {
        let ghost pre = file_names@.subrange(0, i + 1);
        assert(pre.drop_last() =~= file_names@.subrange(0, i as int));
        best = match best {
            Some(k) => if namespace_rank_exec(file_names[i].namespace) < namespace_rank_exec(
                file_names[k].namespace,
            ) {
                Some(i)
            } else {
                Some(k)
            },
            None => Some(i),
        };
        i = i + 1;
    }
    assert(file_names@.subrange(0, file_names@.len() as int) =~= file_names@);
    match best {
        Some(k) => Some(&file_names[k]),
        None => None,
    }
}

// ---------------------------------------------------------------------------
// Record decoding
// ---------------------------------------------------------------------------
/// `b` is `a` with the `$STANDARD_INFORMATION` value `v` applied: a value of at least
/// 32 bytes sets the four timestamps, and one of at least 36 bytes the attributes.
pub open spec fn si_applied(v: Seq<u8>, a: MftNativeRecord, b: MftNativeRecord) -> bool {
    if v.len() < 32 {
        b == a
    } else {
        &&& opt_view(b.si_created) == filetime_text(le64(v, 0))
        &&& opt_view(b.si_modified) == filetime_text(le64(v, 8))
        &&& opt_view(b.si_record_changed) == filetime_text(le64(v, 16))
        &&& opt_view(b.si_accessed) == filetime_text(le64(v, 24))
        &&& b.file_attributes == if v.len() >= 36 {
            Some(le32(v, 32) as u32)
        } else {
            a.file_attributes
        }
        &&& b == MftNativeRecord {
            si_created: b.si_created,
            si_modified: b.si_modified,
            si_record_changed: b.si_record_changed,
            si_accessed: b.si_accessed,
            file_attributes: b.file_attributes,
            ..a
        }
    }
}

pub fn parse_mft_standard_information(value: &[u8], out: &mut MftNativeRecord)
    ensures
        si_applied(value@, *old(out), *final(out)),
{
    if value.len() < 32 {
        return;
    }
    out.si_created = read_filetime_rfc3339(value, 0);
    out.si_modified = read_filetime_rfc3339(value, 8);
    out.si_record_changed = read_filetime_rfc3339(value, 16);
    out.si_accessed = read_filetime_rfc3339(value, 24);
    if value.len() >= 36 {
        out.file_attributes = match read_u32_le(value, 32) {
            Some(v) => Some(v),
            None => out.file_attributes,
        };
    }
}

/// The attribute offsets of a record, from `o` while a 16-byte header fits below
/// `limit`, up to the end marker or a malformed length.
pub open spec fn mft_attr_offsets(f: Seq<u8>, o: int, limit: int) -> Seq<int>
    decreases f.len() - o,
{
    if o < 0 || o + 16 > limit || limit > f.len() {
        Seq::empty()
    } else if le32(f, o) == 0xffff_ffff {
        Seq::empty()
    } else {
        let len = le32(f, o + 4);
        if len < 16 || o + len > f.len() {
            Seq::empty()
        } else {
            seq![o] + mft_attr_offsets(f, o + len, limit)
        }
    }
}

/// The offsets of the attributes, walked from `o` below `limit`.
fn mft_attribute_offsets(f: &[u8], o: usize, limit: usize) -> (r: Vec<usize>)
    requires
        limit <= f.len(),
    ensures
        r@.map_values(|x: usize| x as int) == mft_attr_offsets(f@, o as int, limit as int),
        forall|k: int| 0 <= k < r@.len() ==> attr_ok(f@, #[trigger] r@[k] as int),
{
    let mut out: Vec<usize> = Vec::new();
    let mut offset = o;
    while offset <= limit && limit - offset >= 16
        invariant
            limit <= f.len(),
            mft_attr_offsets(f@, o as int, limit as int) == out@.map_values(|x: usize| x as int)
                + mft_attr_offsets(f@, offset as int, limit as int),
            forall|k: int| 0 <= k < out@.len() ==> attr_ok(f@, #[trigger] out@[k] as int),
        decreases f.len() - offset,
    {
        let attr_type = read_u32_le(f, offset).unwrap();
        if attr_type == 0xffff_ffff {
            assert(mft_attr_offsets(f@, offset as int, limit as int) =~= Seq::<int>::empty());
            assert(out@.map_values(|x: usize| x as int) + Seq::<int>::empty() =~= out@.map_values(
                |x: usize| x as int,
            ));
            return out;
        }
        let attr_len = read_u32_le(f, offset + 4).unwrap() as usize;
        if attr_len < 16 || attr_len > f.len() - offset {
            assert(mft_attr_offsets(f@, offset as int, limit as int) =~= Seq::<int>::empty());
            assert(out@.map_values(|x: usize| x as int) + Seq::<int>::empty() =~= out@.map_values(
                |x: usize| x as int,
            ));
            return out;
        }
        let ghost prev = out@.map_values(|x: usize| x as int);
        out.push(offset);
        assert(out@.map_values(|x: usize| x as int) =~= prev.push(offset as int));
        assert(prev + mft_attr_offsets(f@, offset as int, limit as int) =~= prev.push(
            offset as int,
        ) + mft_attr_offsets(f@, offset + attr_len, limit as int));
        offset = offset + attr_len;
    }
    assert(mft_attr_offsets(f@, offset as int, limit as int) =~= Seq::<int>::empty());
    assert(out@.map_values(|x: usize| x as int) + Seq::<int>::empty() =~= out@.map_values(
        |x: usize| x as int,
    ));
    out
}

/// The attribute at `o` has a well-formed header inside the record.
pub open spec fn attr_ok(f: Seq<u8>, o: int) -> bool {
    0 <= o && o + 16 <= f.len() && le32(f, o + 4) >= 16 && o + le32(f, o + 4) <= f.len()
}

pub open spec fn attr_non_resident(f: Seq<u8>, o: int) -> bool {
    f[o + 8] != 0
}

pub open spec fn attr_name_at(f: Seq<u8>, o: int) -> Option<Seq<char>> {
    attribute_name(f, o, le32(f, o + 4), f[o + 9] as int, le16(f, o + 10))
}

/// The bounds of the resident value of the attribute at `o`, when they lie in the record.
pub open spec fn resident_range(f: Seq<u8>, o: int) -> Option<(int, int)> {
    if !attr_non_resident(f, o) && o + 24 <= f.len() {
        let vs = o + le16(f, o + 20);
        let ve = vs + le32(f, o + 16);
        if vs <= f.len() && ve <= f.len() {
            Some((vs, ve))
        } else {
            None
        }
    } else {
        None
    }
}

/// What walking the attributes has gathered so far.
pub struct MftAttributeWalk {
    pub count: int,
    pub summaries: Seq<(Seq<char>, bool)>,
    pub resident: Seq<int>,
    pub names: Seq<Seq<u8>>,
    pub si: Option<Seq<u8>>,
    pub si_attributes: Option<u32>,
    pub data_size: Option<u64>,
    pub data_allocated: Option<u64>,
    pub runs: Seq<MftDataRunSummary>,
}

pub open spec fn walk_start() -> MftAttributeWalk {
    MftAttributeWalk {
        count: 0,
        summaries: Seq::empty(),
        resident: Seq::empty(),
        names: Seq::empty(),
        si: None,
        si_attributes: None,
        data_size: None,
        data_allocated: None,
        runs: Seq::empty(),
    }
}

/// The data runs of the non-resident attribute at `o`, read from its run-list offset
/// up to the end of the attribute.
#[verifier::opaque]
pub open spec fn attr_runs(f: Seq<u8>, o: int) -> Seq<MftDataRunSummary> {
    let rs = o + le16(f, o + 32);
    let end = if o + le32(f, o + 4) < f.len() {
        o + le32(f, o + 4)
    } else {
        f.len() as int
    };
    if rs < o + le32(f, o + 4) && rs < f.len() {
        data_runs_from(f.subrange(rs, end), 0, 0, 0, 0)
    } else {
        Seq::empty()
    }
}

/// Every attribute is counted and summarized.
pub open spec fn stage_summary(f: Seq<u8>, w: MftAttributeWalk, o: int) -> MftAttributeWalk {
    MftAttributeWalk {
        count: w.count + 1,
        summaries: w.summaries.push(
            (attribute_type_name(le32(f, o) as u32), attr_non_resident(f, o)),
        ),
        ..w
    }
}

/// A summarized resident value is recorded by its offset.
pub open spec fn stage_content(f: Seq<u8>, w: MftAttributeWalk, o: int, v: Seq<u8>) -> MftAttributeWalk {
    if resident_summarized(le32(f, o) as u32, attr_name_at(f, o), v) {
        MftAttributeWalk { resident: w.resident.push(o), ..w }
    } else {
        w
    }
}

/// A `$STANDARD_INFORMATION` value of at least 32 bytes is kept.
pub open spec fn stage_si(f: Seq<u8>, w: MftAttributeWalk, o: int, v: Seq<u8>) -> MftAttributeWalk {
    if le32(f, o) == 0x10 && v.len() >= 32 {
        MftAttributeWalk {
            si: Some(v),
            si_attributes: if v.len() >= 36 {
                Some(le32(v, 32) as u32)
            } else {
                w.si_attributes
            },
            ..w
        }
    } else {
        w
    }
}

/// A decodable `$FILE_NAME` value is kept.
pub open spec fn stage_name(f: Seq<u8>, w: MftAttributeWalk, o: int, v: Seq<u8>) -> MftAttributeWalk {
    if le32(f, o) == 0x30 && fn_value_ok(v) {
        MftAttributeWalk { names: w.names.push(v), ..w }
    } else {
        w
    }
}

/// The first unnamed resident `$DATA` gives the size by its value length.
pub open spec fn stage_resident_size(f: Seq<u8>, w: MftAttributeWalk, o: int) -> MftAttributeWalk {
    if le32(f, o) == 0x80 && f[o + 9] == 0 && w.data_size is None {
        MftAttributeWalk { data_size: Some(le32(f, o + 16) as u64), ..w }
    } else {
        w
    }
}

pub open spec fn stage_resident(f: Seq<u8>, w: MftAttributeWalk, o: int, v: Seq<u8>) -> MftAttributeWalk {
    stage_resident_size(f, stage_name(f, stage_si(f, stage_content(f, w, o, v), o, v), o, v), o)
}

/// A non-resident `$DATA` contributes its runs; the first unnamed one gives the real
/// and the allocated size.
pub open spec fn stage_non_resident(f: Seq<u8>, w: MftAttributeWalk, o: int) -> MftAttributeWalk {
    if attr_non_resident(f, o) && o + 64 <= f.len() && le32(f, o) == 0x80 {
        let unnamed = f[o + 9] == 0;
        MftAttributeWalk {
            data_size: if unnamed && w.data_size is None {
                Some(le64(f, o + 48) as u64)
            } else {
                w.data_size
            },
            data_allocated: if unnamed && w.data_allocated is None {
                Some(le64(f, o + 40) as u64)
            } else {
                w.data_allocated
            },
            runs: w.runs + attr_runs(f, o),
            ..w
        }
    } else {
        w
    }
}

/// One attribute folded into the walk.
pub open spec fn walk_step(f: Seq<u8>, w: MftAttributeWalk, o: int) -> MftAttributeWalk {
    let w1 = stage_summary(f, w, o);
    match resident_range(f, o) {
        Some((vs, ve)) => stage_resident(f, w1, o, f.subrange(vs, ve)),
        None => stage_non_resident(f, w1, o),
    }
}

pub open spec fn walk(f: Seq<u8>, offs: Seq<int>) -> MftAttributeWalk
    decreases offs.len(),
{
    if offs.len() == 0 {
        walk_start()
    } else {
        walk_step(f, walk(f, offs.drop_last()), offs.last())
    }
}

/// The resident content summary `c` describes the attribute at `o`.
pub open spec fn resident_content_of(f: Seq<u8>, o: int, c: MftResidentContentSummary) -> bool {
    match resident_range(f, o) {
        Some((vs, ve)) => {
            &&& c.attr_type_name@ == attribute_type_name(le32(f, o) as u32)
            &&& resident_summary_of(
                le32(f, o) as u32,
                Some(le16(f, o + 14) as u16),
                c.attr_type_name,
                attr_name_at(f, o),
                vs as usize,
                f.subrange(vs, ve),
                c,
            )
        },
        None => false,
    }
}

/// Loop state of the attribute walk, held apart from the record being built.
pub struct MftAttrState {
    pub count: usize,
    pub attributes: Vec<MftAttributeSummary>,
    pub contents: Vec<MftResidentContentSummary>,
    pub si: MftNativeRecord,
    pub names: Vec<MftFileNameAttribute>,
    pub data_size: Option<u64>,
    pub data_allocated: Option<u64>,
    pub runs: Vec<MftDataRunSummary>,
}

/// The four `$STANDARD_INFORMATION` timestamps agree with the kept value.
#[verifier::opaque]
pub open spec fn si_times(
    si: Option<Seq<u8>>,
    created: Option<String>,
    modified: Option<String>,
    changed: Option<String>,
    accessed: Option<String>,
) -> bool {
    match si {
        Some(v) => {
            &&& opt_view(created) == filetime_text(le64(v, 0))
            &&& opt_view(modified) == filetime_text(le64(v, 8))
            &&& opt_view(changed) == filetime_text(le64(v, 16))
            &&& opt_view(accessed) == filetime_text(le64(v, 24))
        },
        None => {
            &&& created is None
            &&& modified is None
            &&& changed is None
            &&& accessed is None
        },
    }
}

#[verifier::opaque]
pub open spec fn si_of(si: Option<Seq<u8>>, si_attributes: Option<u32>, r: MftNativeRecord) -> bool {
    &&& si_times(si, r.si_created, r.si_modified, r.si_record_changed, r.si_accessed)
    &&& r.file_attributes == si_attributes
}

#[verifier::opaque]
pub open spec fn summaries_of(summaries: Seq<(Seq<char>, bool)>, a: Seq<MftAttributeSummary>) -> bool {
    &&& a.len() == summaries.len()
    &&& forall|k: int|
        0 <= k < summaries.len() ==> (#[trigger] a[k]).attr_type_name@ == summaries[k].0
            && a[k].non_resident == summaries[k].1
}

#[verifier::opaque]
pub open spec fn contents_of(f: Seq<u8>, resident: Seq<int>, c: Seq<MftResidentContentSummary>) -> bool {
    &&& c.len() == resident.len()
    &&& forall|k: int| 0 <= k < resident.len() ==> resident_content_of(f, resident[k], #[trigger] c[k])
}

#[verifier::opaque]
pub open spec fn names_of(names: Seq<Seq<u8>>, n: Seq<MftFileNameAttribute>) -> bool {
    &&& n.len() == names.len()
    &&& forall|k: int| 0 <= k < names.len() ==> fn_attr_of(names[k], #[trigger] n[k])
}

/// The loop state agrees with the walk `w`.
pub open spec fn state_of(f: Seq<u8>, w: MftAttributeWalk, st: MftAttrState) -> bool {
    &&& st.count == w.count
    &&& summaries_of(w.summaries, st.attributes@)
    &&& contents_of(f, w.resident, st.contents@)
    &&& si_of(w.si, w.si_attributes, st.si)
    &&& names_of(w.names, st.names@)
    &&& st.data_size == w.data_size
    &&& st.data_allocated == w.data_allocated
    &&& st.runs@ == w.runs
}

fn apply_resident_content(
    f: &[u8],
    o: usize,
    vs: usize,
    value: &[u8],
    attr_type: u32,
    attr_name: Option<String>,
    attribute_id: Option<u16>,
    kind: &'static str,
    st: &mut MftAttrState,
    Ghost(w): Ghost<MftAttributeWalk>,
)
    requires
        attr_ok(f@, o as int),
        resident_range(f@, o as int) == Some((vs as int, vs + value@.len())),
        value@ == f@.subrange(vs as int, vs + value@.len()),
        attr_type == le32(f@, o as int),
        opt_view(attr_name) == attr_name_at(f@, o as int),
        attribute_id == Some(le16(f@, o + 14) as u16),
        kind@ == attribute_type_name(attr_type),
        contents_of(f@, w.resident, old(st).contents@),
    ensures
        contents_of(f@, stage_content(f@, w, o as int, value@).resident, final(st).contents@),
        final(st).count == old(st).count,
        final(st).attributes == old(st).attributes,
        final(st).si == old(st).si,
        final(st).names == old(st).names,
        final(st).data_size == old(st).data_size,
        final(st).data_allocated == old(st).data_allocated,
        final(st).runs == old(st).runs,
{
    reveal(contents_of);
    match summarize_mft_resident_content(attr_type, attribute_id, kind, attr_name, vs, value) {
        Some(content) => {
            st.contents.push(content);
        },
        None => {},
    }
}

fn apply_resident_name(value: &[u8], attr_type: u32, names: &mut Vec<MftFileNameAttribute>, Ghost(w): Ghost<MftAttributeWalk>, Ghost(f): Ghost<Seq<u8>>, Ghost(o): Ghost<int>)
    requires
        attr_type == le32(f, o),
        names_of(w.names, old(names)@),
    ensures
        names_of(stage_name(f, w, o, value@).names, final(names)@),
{
    reveal(names_of);
    if attr_type == 0x30 {
        match parse_mft_file_name_attribute(value) {
            Some(file_name) => {
                names.push(file_name);
            },
            None => {},
        }
    }
}

fn apply_resident_si(value: &[u8], attr_type: u32, si: &mut MftNativeRecord, Ghost(w): Ghost<MftAttributeWalk>, Ghost(f): Ghost<Seq<u8>>, Ghost(o): Ghost<int>)
    requires
        attr_type == le32(f, o),
        si_of(w.si, w.si_attributes, *old(si)),
    ensures
        si_of(stage_si(f, w, o, value@).si, stage_si(f, w, o, value@).si_attributes, *final(si)),
{
    reveal(si_of);
    reveal(si_times);
    if attr_type == 0x10 {
        parse_mft_standard_information(value, si);
    }
}

fn apply_resident_value(
    f: &[u8],
    o: usize,
    vs: usize,
    value: &[u8],
    attr_type: u32,
    name_len: usize,
    attr_name: Option<String>,
    attribute_id: Option<u16>,
    kind: &'static str,
    st: &mut MftAttrState,
    Ghost(w): Ghost<MftAttributeWalk>,
)
    requires
        attr_ok(f@, o as int),
        resident_range(f@, o as int) == Some((vs as int, vs + value@.len())),
        value@ == f@.subrange(vs as int, vs + value@.len()),
        attr_type == le32(f@, o as int),
        name_len == f@[o + 9],
        opt_view(attr_name) == attr_name_at(f@, o as int),
        attribute_id == Some(le16(f@, o + 14) as u16),
        kind@ == attribute_type_name(attr_type),
        state_of(f@, w, *old(st)),
    ensures
        state_of(f@, stage_resident(f@, w, o as int, value@), *final(st)),
{
    let ghost v = value@;
    let ghost w1 = stage_content(f@, w, o as int, v);
    apply_resident_content(f, o, vs, value, attr_type, attr_name, attribute_id, kind, st, Ghost(w));
    assert(state_of(f@, w1, *st));
    let ghost w2 = stage_si(f@, w1, o as int, v);
    apply_resident_si(value, attr_type, &mut st.si, Ghost(w1), Ghost(f@), Ghost(o as int));
    assert(state_of(f@, w2, *st));
    let ghost w3 = stage_name(f@, w2, o as int, v);
    apply_resident_name(value, attr_type, &mut st.names, Ghost(w2), Ghost(f@), Ghost(o as int));
    assert(state_of(f@, w3, *st));
    if attr_type == 0x80 && name_len == 0 && st.data_size.is_none() {
        st.data_size = Some(value.len() as u64);
    }
}

fn apply_non_resident(
    f: &[u8],
    o: usize,
    attr_type: u32,
    attr_len: usize,
    name_len: usize,
    st: &mut MftAttrState,
    Ghost(w): Ghost<MftAttributeWalk>,
)
    requires
        attr_ok(f@, o as int),
        resident_range(f@, o as int) is None,
        attr_type == le32(f@, o as int),
        attr_len == le32(f@, o + 4),
        name_len == f@[o + 9],
        state_of(f@, w, *old(st)),
    ensures
        state_of(f@, stage_non_resident(f@, w, o as int), *final(st)),
{
    let total = f.len();
    assert(f@.len() == total);
    if f[o + 8] != 0 && f.len() - o >= 64 && attr_type == 0x80 {
        let run_offset = read_u16_le(f, o + 32).unwrap() as usize;
        if name_len == 0 {
            if st.data_size.is_none() {
                st.data_size = read_u64_le(f, o + 48);
            }
            if st.data_allocated.is_none() {
                st.data_allocated = read_u64_le(f, o + 40);
            }
        }
        proof {
            reveal(attr_runs);
        }
        if run_offset < attr_len && o + run_offset < f.len() {
            let runlist_start = o + run_offset;
            let end = if attr_len < f.len() - o {
                o + attr_len
            } else {
                f.len()
            };
            let runs_bytes = slice_bytes(f, runlist_start, end);
            let mut runs = parse_mft_data_runs(runs_bytes.as_slice());
            st.runs.append(&mut runs);
        } else {
            assert(attr_runs(f@, o as int) =~= Seq::<MftDataRunSummary>::empty());
            assert(st.runs@ + Seq::<MftDataRunSummary>::empty() =~= st.runs@);
        }
    }
}

#[verifier::rlimit(50)]
fn apply_attribute(f: &[u8], o: usize, st: &mut MftAttrState, Ghost(w): Ghost<MftAttributeWalk>)
    requires
        attr_ok(f@, o as int),
        old(st).count < usize::MAX,
        state_of(f@, w, *old(st)),
    ensures
        state_of(f@, walk_step(f@, w, o as int), *final(st)),
{
    let total = f.len();
    assert(f@.len() == total);
    let attr_type = read_u32_le(f, o).unwrap();
    let attr_len = read_u32_le(f, o + 4).unwrap() as usize;
    let non_resident = f[o + 8] != 0;
    let name_len = f[o + 9] as usize;
    let name_offset = read_u16_le(f, o + 10).unwrap() as usize;
    let attribute_id = read_u16_le(f, o + 14);
    let attr_name = read_mft_attribute_name(f, o, attr_len, name_len, name_offset);
    let kind = mft_attribute_type_name(attr_type);
    st.count = st.count + 1;
    st.attributes.push(MftAttributeSummary { attr_type_name: kind, non_resident });
    let ghost w1 = stage_summary(f@, w, o as int);
    assert(summaries_of(w1.summaries, st.attributes@)) by {
        reveal(summaries_of);
    }
    assert(state_of(f@, w1, *st));
    let mut resident = false;
    if !non_resident && f.len() - o >= 24 {
        let value_len = read_u32_le(f, o + 16).unwrap() as usize;
        let value_offset = read_u16_le(f, o + 20).unwrap() as usize;
        if value_offset <= f.len() - o && value_len <= f.len() - (o + value_offset) {
            let value_start = o + value_offset;
            let value = slice_bytes(f, value_start, value_start + value_len);
            apply_resident_value(
                f,
                o,
                value_start,
                value.as_slice(),
                attr_type,
                name_len,
                attr_name,
                attribute_id,
                kind,
                st,
                Ghost(w1),
            );
            resident = true;
        }
    }
    if !resident {
        apply_non_resident(f, o, attr_type, attr_len, name_len, st, Ghost(w1));
    }
}

/// The record with its update sequence applied when the array is usable.
pub open spec fn mft_fixed(record: Seq<u8>) -> Seq<u8> {
    if fixup_ok(record) {
        fixed_record(record)
    } else {
        record
    }
}

/// The index of the first file-name value with the best namespace rank.
pub open spec fn best_value_index(vals: Seq<Seq<u8>>) -> Option<int>
    decreases vals.len(),
{
    if vals.len() == 0 {
        None
    } else {
        match best_value_index(vals.drop_last()) {
            Some(k) => if namespace_rank(vals.last()[65]) < namespace_rank(vals[k][65]) {
                Some(vals.len() - 1)
            } else {
                Some(k)
            },
            None => Some(vals.len() - 1),
        }
    }
}

proof fn lemma_best_index_agrees(names: Seq<MftFileNameAttribute>, vals: Seq<Seq<u8>>)
    requires
        names.len() == vals.len(),
        forall|k: int| 0 <= k < vals.len() ==> (#[trigger] names[k]).namespace == vals[k][65],
    ensures
        best_name_index(names) == best_value_index(vals),
        best_value_index(vals) matches Some(k) ==> 0 <= k < vals.len(),
    decreases names.len(),
{
    if names.len() > 0 {
        let n0 = names.drop_last();
        let v0 = vals.drop_last();
        assert forall|k: int| 0 <= k < v0.len() implies (#[trigger] n0[k]).namespace
            == v0[k][65] by {
            assert(n0[k] == names[k]);
            assert(v0[k] == vals[k]);
        }
        lemma_best_index_agrees(n0, v0);
        assert(names.last() == names[names.len() - 1]);
        assert(names.last().namespace == vals.last()[65]);
        match best_value_index(v0) {
            Some(k) => {
                assert(names[k].namespace == vals[k][65]);
                assert(n0[k] == names[k]);
                assert(v0[k] == vals[k]);
            },
            None => {},
        }
    }
}

/// The name-derived fields of `out`, from the best `$FILE_NAME` value, with the
/// `$DATA` sizes taking precedence.
#[verifier::opaque]
pub open spec fn record_names_of(w: MftAttributeWalk, out: MftNativeRecord) -> bool {
    match best_value_index(w.names) {
        Some(k) => {
            let v = w.names[k];
            &&& out.parent_record_number == Some((le64(v, 0) % 0x1_0000_0000_0000) as u64)
            &&& out.parent_sequence_number == Some((le64(v, 0) / 0x1_0000_0000_0000) as u16)
            &&& opt_view(out.file_name) == Some(utf16le_field(fn_name_bytes(v)))
            &&& out.file_namespace == Some(v[65])
            &&& out.file_attributes == Some(le32(v, 56) as u32)
            &&& opt_view(out.fn_created) == filetime_text(le64(v, 8))
            &&& opt_view(out.fn_modified) == filetime_text(le64(v, 16))
            &&& opt_view(out.fn_record_changed) == filetime_text(le64(v, 24))
            &&& opt_view(out.fn_accessed) == filetime_text(le64(v, 32))
            &&& out.file_size == Some(
                match w.data_size {
                    Some(d) => d,
                    None => le64(v, 48) as u64,
                },
            )
            &&& out.allocated_size == Some(
                match w.data_allocated {
                    Some(d) => d,
                    None => le64(v, 40) as u64,
                },
            )
        },
        None => {
            &&& out.parent_record_number is None
            &&& out.parent_sequence_number is None
            &&& out.file_name is None
            &&& out.file_namespace is None
            &&& out.file_attributes == w.si_attributes
            &&& out.fn_created is None
            &&& out.fn_modified is None
            &&& out.fn_record_changed is None
            &&& out.fn_accessed is None
            &&& out.file_size == w.data_size
            &&& out.allocated_size == w.data_allocated
        },
    }
}

/// The walk over all attributes of a fixed-up record.
pub open spec fn record_walk(f: Seq<u8>) -> MftAttributeWalk {
    let limit = if le32(f, 0x18) < f.len() {
        le32(f, 0x18)
    } else {
        f.len() as int
    };
    walk(f, mft_attr_offsets(f, le16(f, 0x14), limit))
}

fn apply_best_file_name(
    out: &mut MftNativeRecord,
    names: &[MftFileNameAttribute],
    data_size: Option<u64>,
    data_allocated: Option<u64>,
    Ghost(w): Ghost<MftAttributeWalk>,
)
    requires
        names_of(w.names, names@),
        old(out).parent_record_number is None,
        old(out).parent_sequence_number is None,
        old(out).file_name is None,
        old(out).file_namespace is None,
        old(out).file_attributes == w.si_attributes,
        old(out).fn_created is None,
        old(out).fn_modified is None,
        old(out).fn_record_changed is None,
        old(out).fn_accessed is None,
        old(out).file_size is None,
        old(out).allocated_size is None,
        data_size == w.data_size,
        data_allocated == w.data_allocated,
    ensures
        record_names_of(w, *final(out)),
        *final(out) == (MftNativeRecord {
            parent_record_number: final(out).parent_record_number,
            parent_sequence_number: final(out).parent_sequence_number,
            file_name: final(out).file_name,
            file_namespace: final(out).file_namespace,
            file_attributes: final(out).file_attributes,
            fn_created: final(out).fn_created,
            fn_modified: final(out).fn_modified,
            fn_record_changed: final(out).fn_record_changed,
            fn_accessed: final(out).fn_accessed,
            file_size: final(out).file_size,
            allocated_size: final(out).allocated_size,
            ..*old(out)
        }),
{
    proof {
        reveal(names_of);
        reveal(record_names_of);
        assert forall|k: int| 0 <= k < w.names.len() implies (#[trigger] names@[k]).namespace
            == w.names[k][65] by {
            reveal(fn_attr_of);
            assert(fn_attr_of(w.names[k], names@[k]));
        }
        lemma_best_index_agrees(names@, w.names);
    }
    match select_mft_file_name(names) {
        Some(file_name) => {
            proof {
                reveal(fn_attr_of);
                let k = best_value_index(w.names)->0;
                assert(fn_attr_of(w.names[k], names@[k]));
            }
            out.parent_record_number = Some(file_name.parent_record_number);
            out.parent_sequence_number = Some(file_name.parent_sequence_number);
            out.file_name = Some(file_name.file_name.clone());
            out.file_namespace = Some(file_name.namespace);
            out.file_attributes = Some(file_name.file_attributes);
            out.allocated_size = Some(file_name.allocated_size);
            out.file_size = Some(file_name.file_size);
            out.fn_created = clone_opt_string(&file_name.created);
            out.fn_modified = clone_opt_string(&file_name.modified);
            out.fn_record_changed = clone_opt_string(&file_name.record_changed);
            out.fn_accessed = clone_opt_string(&file_name.accessed);
        },
        None => {},
    }
    match data_size {
        Some(actual) => {
            out.file_size = Some(actual);
        },
        None => {},
    }
    match data_allocated {
        Some(allocated) => {
            out.allocated_size = Some(allocated);
        },
        None => {},
    }
}

/// `out` is the decoding of `record`, read as record `number` of `size` bytes.
pub open spec fn mft_record_of(
    record: Seq<u8>,
    number: u64,
    size: usize,
    out: MftNativeRecord,
) -> bool {
    let f = mft_fixed(record);
    let w = record_walk(f);
    let flags = le16(f, 0x16);
    &&& out.record_number == number
    &&& out.record_offset == if number * size > u64::MAX {
        u64::MAX
    } else {
        (number * size) as u64
    }
    &&& out.record_size == size
    &&& out.sequence_number == le16(f, 0x10)
    &&& out.in_use == (flags % 2 == 1)
    &&& out.is_directory == (flags / 2 % 2 == 1)
    &&& out.attribute_count == w.count
    &&& summaries_of(w.summaries, out.attributes@)
    &&& contents_of(f, w.resident, out.resident_contents@)
    &&& si_times(w.si, out.si_created, out.si_modified, out.si_record_changed, out.si_accessed)
    &&& out.data_runs@ == w.runs
    &&& record_names_of(w, out)
}

fn empty_record(record_number: u64, record_size: usize) -> (r: MftNativeRecord)
    ensures
        r.record_number == record_number,
        r.record_size == record_size,
        r.si_created is None && r.si_modified is None && r.si_record_changed is None
            && r.si_accessed is None,
        r.file_attributes is None,
        r.attributes@.len() == 0,
        r.resident_contents@.len() == 0,
        r.data_runs@.len() == 0,
{
    MftNativeRecord {
        record_number,
        record_offset: 0,
        record_size,
        sequence_number: 0,
        in_use: false,
        is_directory: false,
        parent_record_number: None,
        parent_sequence_number: None,
        file_name: None,
        file_namespace: None,
        file_attributes: None,
        allocated_size: None,
        file_size: None,
        si_created: None,
        si_modified: None,
        si_record_changed: None,
        si_accessed: None,
        fn_created: None,
        fn_modified: None,
        fn_record_changed: None,
        fn_accessed: None,
        attribute_count: 0,
        attributes: Vec::new(),
        resident_contents: Vec::new(),
        data_runs: Vec::new(),
    }
}

/// Walks all attributes of the fixed-up record `f`.
fn walk_attributes(f: &[u8], record_number: u64, record_size: usize) -> (st: MftAttrState)
    requires
        f@.len() >= 48,
    ensures
        state_of(f@, record_walk(f@), st),
{
    let first_attr_offset = read_u16_le(f, 0x14).unwrap() as usize;
    let bytes_used = read_u32_le(f, 0x18).unwrap() as usize;
    let limit = if bytes_used < f.len() {
        bytes_used
    } else {
        f.len()
    };
    let offsets = mft_attribute_offsets(f, first_attr_offset, limit);
    let ghost offs = offsets@.map_values(|x: usize| x as int);
    let mut st = MftAttrState {
        count: 0,
        attributes: Vec::new(),
        contents: Vec::new(),
        si: empty_record(record_number, record_size),
        names: Vec::new(),
        data_size: None,
        data_allocated: None,
        runs: Vec::new(),
    };
    assert(state_of(f@, walk_start(), st)) by {
        reveal(summaries_of);
        reveal(contents_of);
        reveal(si_of);
        reveal(si_times);
        reveal(names_of);
    }
    assert(offs.subrange(0, 0) =~= Seq::<int>::empty());
    let mut i: usize = 0;
    while i < offsets.len()
        invariant
            i <= offsets@.len(),
            offs == offsets@.map_values(|x: usize| x as int),
            forall|k: int| 0 <= k < offsets@.len() ==> attr_ok(f@, #[trigger] offsets@[k] as int),
            st.count == i,
            state_of(f@, walk(f@, offs.subrange(0, i as int)), st),
        decreases offsets@.len() - i,
    {
        let o = offsets[i];
        let ghost w = walk(f@, offs.subrange(0, i as int));
        apply_attribute(f, o, &mut st, Ghost(w));
        assert(offs.subrange(0, i + 1).drop_last() =~= offs.subrange(0, i as int));
        assert(offs.subrange(0, i + 1).last() == o as int);
        i = i + 1;
    }
    assert(offs.subrange(0, offs.len() as int) =~= offs);
    st
}

#[verifier::rlimit(50)]
pub fn parse_mft_record(record: &[u8], record_number: u64, record_size: usize) -> (r: Option<
    MftNativeRecord,
>)
    ensures
        r is Some <==> record@.len() >= 48 && bytes_start(record@, file_magic()),
        r matches Some(out) ==> mft_record_of(record@, record_number, record_size, out),
{
    if record.len() < 48 || !starts_with_bytes(record, &file_magic_bytes()) {
        return None;
    }
    let fixed = match apply_mft_fixup(record) {
        Some(v) => v,
        None => slice_bytes(record, 0, record.len()),
    };
    assert(fixed@ == mft_fixed(record@));
    let flags = read_u16_le(&fixed, 0x16).unwrap();
    let sequence_number = read_u16_le(&fixed, 0x10).unwrap();
    let record_offset = match record_number.checked_mul(record_size as u64) {
        Some(v) => v,
        None => u64::MAX,
    };
    let st = walk_attributes(fixed.as_slice(), record_number, record_size);
    let ghost w = record_walk(fixed@);
    proof {
        reveal(si_of);
    }
    let mut out = MftNativeRecord {
        record_number,
        record_offset,
        record_size,
        sequence_number,
        in_use: flags % 2 == 1,
        is_directory: (flags / 2) % 2 == 1,
        parent_record_number: None,
        parent_sequence_number: None,
        file_name: None,
        file_namespace: None,
        file_attributes: st.si.file_attributes,
        allocated_size: None,
        file_size: None,
        si_created: st.si.si_created,
        si_modified: st.si.si_modified,
        si_record_changed: st.si.si_record_changed,
        si_accessed: st.si.si_accessed,
        fn_created: None,
        fn_modified: None,
        fn_record_changed: None,
        fn_accessed: None,
        attribute_count: st.count,
        attributes: st.attributes,
        resident_contents: st.contents,
        data_runs: st.runs,
    };
    apply_best_file_name(&mut out, st.names.as_slice(), st.data_size, st.data_allocated, Ghost(w));
    Some(out)
}


/// The whole chunks of `c` bytes from `start` on that hold a record, each with
/// its position (counting from `idx`) and its offset.
pub open spec fn mft_chunks_kept(b: Seq<u8>, c: int, start: int, idx: int) -> Seq<(int, int)>
    decreases b.len() - start,
{
    if c <= 0 || start < 0 || b.len() - start < c {
        Seq::empty()
    } else {
        let chunk = b.subrange(start, start + c);
        let rest = mft_chunks_kept(b, c, start + c, idx + 1);
        if chunk.len() >= 48 && bytes_start(chunk, file_magic()) {
            seq![(idx, start)] + rest
        } else {
            rest
        }
    }
}

/// The records of an `$MFT` image: the record size is detected, then each whole
/// chunk of that size that holds a record is decoded, numbered by its position.
/// Without a detectable record size the image is refused.
pub fn parse_mft_records(bytes: &[u8]) -> (r: Result<Vec<MftNativeRecord>, crate::ParserError>)
    ensures
        match r {
            Err(e) => mft_record_size(bytes@) is None && (e matches crate::ParserError::Failed(m)
                && m@ == "native $MFT parser could not detect record size"@),
            Ok(v) => mft_record_size(bytes@) matches Some(c) && v@.len() == mft_chunks_kept(
                bytes@,
                c as int,
                0,
                0,
            ).len() && forall|i: int|
                0 <= i < v@.len() ==> {
                    let k = #[trigger] mft_chunks_kept(bytes@, c as int, 0, 0)[i];
                    mft_record_of(bytes@.subrange(k.1, k.1 + c), k.0 as u64, c, v@[i])
                },
        },
{
    let size = match detect_mft_record_size(bytes) {
        Some(c) => c,
        None => {
            return Err(
                crate::ParserError::Failed(
                    "native $MFT parser could not detect record size".to_string(),
                ),
            );
        },
    };
    let ghost all = mft_chunks_kept(bytes@, size as int, 0, 0);
    let ghost mut found: Seq<(int, int)> = Seq::empty();
    let mut records: Vec<MftNativeRecord> = Vec::new();
    let mut start: usize = 0;
    let mut idx: usize = 0;
    assert(all =~= found + mft_chunks_kept(bytes@, size as int, 0, 0));
    while start <= bytes.len() && bytes.len() - start >= size
        invariant
            size == 1024 || size == 4096,
            start <= bytes@.len(),
            idx <= start,
            all == mft_chunks_kept(bytes@, size as int, 0, 0),
            all == found + mft_chunks_kept(bytes@, size as int, start as int, idx as int),
            records@.len() == found.len(),
            forall|i: int|
                0 <= i < records@.len() ==> {
                    let k = #[trigger] found[i];
                    mft_record_of(bytes@.subrange(k.1, k.1 + size), k.0 as u64, size, records@[i])
                },
        decreases bytes@.len() - start,
    {
        let chunk = slice_bytes(bytes, start, start + size);
        let ghost rest = mft_chunks_kept(bytes@, size as int, start + size, idx + 1);
        match parse_mft_record(chunk.as_slice(), idx as u64, size) {
            Some(record) => {
                proof {
                    assert(all =~= found.push((idx as int, start as int)) + rest);
                    found = found.push((idx as int, start as int));
                }
                records.push(record);
            },
            None => {},
        }
        start = start + size;
        idx = idx + 1;
    }
    assert(mft_chunks_kept(bytes@, size as int, start as int, idx as int) =~= Seq::<(int, int)>::empty());
    assert(all =~= found);
    Ok(records)
}

} // verus!
