//! Windows Prefetch files: the layout of each format version and the fields read
//! from the header and its sections.
use vstd::prelude::*;
use crate::artifact::{file_name_from_path, file_name_of};
use crate::binary::{
    fits, le16, le32, le64, read_u16_le, read_u32_le, read_u64_le, read_u8, u16_at, u32_at,
    u64_at, u8_at,
};
use crate::decode::{
    clean, clean_opt, decode_utf16le_lossy, filetime_text, opt_view, read_filetime_rfc3339,
    utf16le_field,
};
use crate::datetime::{is_plausible_forensic_time, plausible_forensic_time};
use crate::order::{lemma_text_lt_total, lemma_text_lt_transitive, text_less, text_lt};
use crate::extract::{exec_name, is_executable_name};
use crate::mft::slice_bytes;
use crate::strings::{
    all_strings, clean_string, extract_interesting_strings, extract_utf16le_strings,
    interesting_from, run_texts, string_views, utf16_runs,
};
use crate::classify::{prefetch_referenced_files, referenced_files_from};
use crate::paths::{extract_path_like_candidates, path_candidates};
use crate::row::{entries, vec_strings};
use crate::text::{
    eq_str, ends_with, ends_with_str, eq_ignore_case, eq_ignore_case_chars,
    chars_of, contains, contains_str, lower, lower_chars, string_from, trim, trim_chars, trim_set,
    trim_set_chars, utf8_len, utf8_len_of,
};

verus! {

// ---------------------------------------------------------------------------
// Layouts
// ---------------------------------------------------------------------------
/// Where a Prefetch format version keeps its fields.
#[derive(Debug, Clone)]
pub struct PrefetchLayout {
    pub family: &'static str,
    pub file_metrics_entry_size: usize,
    pub trace_chain_entry_size: usize,
    /// The offsets that may hold the run count, most likely first.
    pub run_count_offsets: Vec<usize>,
    /// The offsets that may hold last-run FILETIMEs.
    pub run_time_offsets: Vec<usize>,
}

/// The layout of a format version, as plain values: family name, entry sizes of
/// the file metrics and trace chain arrays, run count offsets and run time
/// offsets. Versions other than 17, 23, 26, 30 and 31 are read as version 30.
pub open spec fn layout_of(version: Option<u32>) -> (Seq<char>, int, int, Seq<usize>, Seq<usize>) {
    let late_times = seq![0x80usize, 0x88, 0x90, 0x98, 0xa0, 0xa8, 0xb0, 0xb8, 0x78];
    let late_counts = seq![0xd0usize, 0x98, 0x90];
    match version {
        Some(17) => ("windows_xp_2003_v17"@, 20, 12, seq![0x90usize], seq![0x78usize]),
        Some(23) => ("windows_vista_7_v23"@, 32, 12, seq![0x98usize, 0x90], seq![0x80usize, 0x78]),
        Some(26) => ("windows_8_8_1_v26"@, 32, 12, late_counts, late_times),
        Some(30) => ("windows_10_11_v30"@, 32, 8, late_counts, late_times),
        Some(31) => ("windows_11_v31"@, 32, 8, late_counts, late_times),
        _ => ("unknown_prefetch_layout"@, 32, 8, late_counts, late_times),
    }
}

pub open spec fn layout_view(l: PrefetchLayout) -> (Seq<char>, int, int, Seq<usize>, Seq<usize>) {
    (
        l.family@,
        l.file_metrics_entry_size as int,
        l.trace_chain_entry_size as int,
        l.run_count_offsets@,
        l.run_time_offsets@,
    )
}

fn late_run_times() -> (r: Vec<usize>)
    ensures
        r@ == seq![0x80usize, 0x88, 0x90, 0x98, 0xa0, 0xa8, 0xb0, 0xb8, 0x78],
{
    let mut v: Vec<usize> = Vec::new();
    v.push(0x80);
    v.push(0x88);
    v.push(0x90);
    v.push(0x98);
    v.push(0xa0);
    v.push(0xa8);
    v.push(0xb0);
    v.push(0xb8);
    v.push(0x78);
    assert(v@ =~= seq![0x80usize, 0x88, 0x90, 0x98, 0xa0, 0xa8, 0xb0, 0xb8, 0x78]);
    v
}

fn offsets3(a: usize, b: usize, c: usize) -> (r: Vec<usize>)
    ensures
        r@ == seq![a, b, c],
{
    let mut v: Vec<usize> = Vec::new();
    v.push(a);
    v.push(b);
    v.push(c);
    assert(v@ =~= seq![a, b, c]);
    v
}

fn offsets2(a: usize, b: usize) -> (r: Vec<usize>)
    ensures
        r@ == seq![a, b],
{
    let mut v: Vec<usize> = Vec::new();
    v.push(a);
    v.push(b);
    assert(v@ =~= seq![a, b]);
    v
}

fn offsets1(a: usize) -> (r: Vec<usize>)
    ensures
        r@ == seq![a],
{
    let mut v: Vec<usize> = Vec::new();
    v.push(a);
    assert(v@ =~= seq![a]);
    v
}

pub fn prefetch_layout(version: Option<u32>) -> (r: PrefetchLayout)
    ensures
        layout_view(r) == layout_of(version),
{
    match version {
        Some(17) => PrefetchLayout {
            family: "windows_xp_2003_v17",
            file_metrics_entry_size: 20,
            trace_chain_entry_size: 12,
            run_count_offsets: offsets1(0x90),
            run_time_offsets: offsets1(0x78),
        },
        Some(23) => PrefetchLayout {
            family: "windows_vista_7_v23",
            file_metrics_entry_size: 32,
            trace_chain_entry_size: 12,
            run_count_offsets: offsets2(0x98, 0x90),
            run_time_offsets: offsets2(0x80, 0x78),
        },
        Some(26) => PrefetchLayout {
            family: "windows_8_8_1_v26",
            file_metrics_entry_size: 32,
            trace_chain_entry_size: 12,
            run_count_offsets: offsets3(0xd0, 0x98, 0x90),
            run_time_offsets: late_run_times(),
        },
        Some(30) => PrefetchLayout {
            family: "windows_10_11_v30",
            file_metrics_entry_size: 32,
            trace_chain_entry_size: 8,
            run_count_offsets: offsets3(0xd0, 0x98, 0x90),
            run_time_offsets: late_run_times(),
        },
        Some(31) => PrefetchLayout {
            family: "windows_11_v31",
            file_metrics_entry_size: 32,
            trace_chain_entry_size: 8,
            run_count_offsets: offsets3(0xd0, 0x98, 0x90),
            run_time_offsets: late_run_times(),
        },
        _ => PrefetchLayout {
            family: "unknown_prefetch_layout",
            file_metrics_entry_size: 32,
            trace_chain_entry_size: 8,
            run_count_offsets: offsets3(0xd0, 0x98, 0x90),
            run_time_offsets: late_run_times(),
        },
    }
}

// ---------------------------------------------------------------------------
// Header fields
// ---------------------------------------------------------------------------
/// The executable name stored in the header at 0x10..0x4c, as UTF-16LE, when it
/// has at least three bytes in UTF-8 once NULs and white space are trimmed.
pub open spec fn header_executable_name(b: Seq<u8>) -> Option<Seq<char>> {
    if b.len() < 0x4c {
        None
    } else {
        let t = trim(trim_set(utf16le_field(b.subrange(0x10, 0x4c)), seq!['\0']));
        if utf8_len(t) >= 3 {
            Some(t)
        } else {
            None
        }
    }
}

pub fn prefetch_header_executable_name(bytes: &[u8]) -> (r: Option<String>)
    ensures
        opt_view(r) == header_executable_name(bytes@),
{
    if bytes.len() < 0x4c {
        return None;
    }
    let field = slice_bytes(bytes, 0x10, 0x4c);
    let name = decode_utf16le_lossy(field.as_slice());
    let nc = chars_of(name.as_str());
    let nul = ['\0'];
    assert(nul@ =~= seq!['\0']);
    let a = trim_set_chars(nc.as_slice(), &nul);
    let t = trim_chars(a.as_slice());
    if utf8_len_of(t.as_slice()) >= 3 {
        Some(string_from(t.as_slice()))
    } else {
        None
    }
}

/// The run count: the value at the first of the layout's offsets that holds one
/// between 1 and 100000, with that offset; none when an offset before it cannot
/// be read.
pub open spec fn run_count_from(b: Seq<u8>, offs: Seq<usize>, i: int) -> Option<(int, int)>
    decreases offs.len() - i,
{
    if i < 0 || i >= offs.len() {
        None
    } else if !fits(b, offs[i] as int, 4) {
        None
    } else if 1 <= le32(b, offs[i] as int) <= 100_000 {
        Some((le32(b, offs[i] as int), offs[i] as int))
    } else {
        run_count_from(b, offs, i + 1)
    }
}

pub fn prefetch_run_count_with_offset(bytes: &[u8], layout: &PrefetchLayout) -> (r: Option<(u32, usize)>)
    ensures
        match r {
            Some((v, o)) => run_count_from(bytes@, layout.run_count_offsets@, 0) == Some(
                (v as int, o as int),
            ),
            None => run_count_from(bytes@, layout.run_count_offsets@, 0) is None,
        },
{
    let offs = &layout.run_count_offsets;
    let mut i: usize = 0;
    while i < offs.len()
        invariant
            i <= offs.len(),
            offs@ == layout.run_count_offsets@,
            run_count_from(bytes@, offs@, 0) == run_count_from(bytes@, offs@, i as int),
        decreases offs.len() - i,
    {
        let off = offs[i];
        let value = match read_u32_le(bytes, off) {
            Some(v) => v,
            None => {
                return None;
            },
        };
        if 1 <= value && value <= 100_000 {
            return Some((value, off));
        }
        i = i + 1;
    }
    None
}

// ---------------------------------------------------------------------------
// Strings
// ---------------------------------------------------------------------------
/// A string that names a volume device.
pub open spec fn volume_text(v: Seq<char>) -> bool {
    let l = lower(v);
    contains(l, "\\device\\"@) || contains(l, "\\volume"@) || contains(l, "harddiskvolume"@)
}

/// The first eight volume strings of `vs[i..]`, after `acc`.
pub open spec fn volume_strings_from(vs: Seq<Seq<char>>, i: int, acc: Seq<Seq<char>>) -> Seq<
    Seq<char>,
>
    decreases vs.len() - i,
{
    if i < 0 || i >= vs.len() || acc.len() >= 8 {
        acc
    } else if volume_text(vs[i]) {
        volume_strings_from(vs, i + 1, acc.push(vs[i]))
    } else {
        volume_strings_from(vs, i + 1, acc)
    }
}

pub fn extract_prefetch_volume_strings(bytes: &[u8]) -> (r: Vec<String>)
    ensures
        string_views(r@) == volume_strings_from(run_texts(utf16_runs(bytes@)), 0, Seq::empty()),
{
    let vs = extract_utf16le_strings(bytes);
    let ghost all = string_views(vs@);
    let mut out: Vec<String> = Vec::new();
    assert(string_views(out@) =~= Seq::<Seq<char>>::empty());
    let mut i: usize = 0;
    while i < vs.len() && out.len() < 8
        invariant
            i <= vs.len(),
            all == string_views(vs@),
            all == run_texts(utf16_runs(bytes@)),
            volume_strings_from(all, 0, Seq::empty()) == volume_strings_from(
                all,
                i as int,
                string_views(out@),
            ),
        decreases vs.len() - i,
    {
        assert(all[i as int] == vs@[i as int]@);
        let c = chars_of(vs[i].as_str());
        let l = lower_chars(c.as_slice());
        if contains_str(l.as_slice(), "\\device\\") || contains_str(l.as_slice(), "\\volume")
            || contains_str(l.as_slice(), "harddiskvolume") {
            let ghost prev = string_views(out@);
            out.push(string_from(c.as_slice()));
            assert(string_views(out@) =~= prev.push(all[i as int]));
        }
        i = i + 1;
    }
    out
}

/// The first executable name among `vs[i..]`.
pub open spec fn first_exec_name(vs: Seq<Seq<char>>, i: int) -> Option<Seq<char>>
    decreases vs.len() - i,
{
    if i < 0 || i >= vs.len() {
        None
    } else if exec_name(vs[i]) {
        Some(vs[i])
    } else {
        first_exec_name(vs, i + 1)
    }
}

/// The executable named among the first 64 interesting strings, by its file name
/// when it has one.
pub open spec fn executable_from_strings(b: Seq<u8>) -> Option<Seq<char>> {
    match first_exec_name(interesting_from(all_strings(b), 0, Seq::empty(), 64), 0) {
        None => None,
        Some(v) => match file_name_of(v) {
            Some(n) => Some(n),
            None => Some(v),
        },
    }
}

pub fn extract_prefetch_executable_from_strings(bytes: &[u8]) -> (r: Option<String>)
    ensures
        opt_view(r) == executable_from_strings(bytes@),
{
    let vs = extract_interesting_strings(bytes, 64);
    let ghost all = string_views(vs@);
    let mut i: usize = 0;
    while i < vs.len()
        invariant
            i <= vs.len(),
            all == string_views(vs@),
            all == interesting_from(all_strings(bytes@), 0, Seq::empty(), 64),
            first_exec_name(all, 0) == first_exec_name(all, i as int),
        decreases vs.len() - i,
    {
        assert(all[i as int] == vs@[i as int]@);
        if is_executable_name(vs[i].as_str()) {
            return match file_name_from_path(vs[i].as_str()) {
                Some(n) => Some(n),
                None => Some(vs[i].clone()),
            };
        }
        i = i + 1;
    }
    None
}

/// A name in the filename strings section, `char_count` UTF-16 characters at
/// `base + relative`, cleaned; when that runs past the data, the same count at
/// `base + 2 * relative`, as some writers count the offset in characters.
pub open spec fn prefetch_filename_at(b: Seq<u8>, base: int, relative: int, char_count: int) -> Option<
    Seq<char>,
> {
    let byte_len = 2 * char_count;
    let start = base + relative;
    let end = start + byte_len;
    let fs = base + 2 * relative;
    let fe = fs + byte_len;
    if char_count == 0 || char_count > 4096 || start > usize::MAX || end > usize::MAX {
        None
    } else if end <= b.len() {
        clean(utf16le_field(b.subrange(start, end)))
    } else if 2 * relative > usize::MAX || fs > usize::MAX || fe > usize::MAX || fe > b.len() {
        None
    } else {
        clean(utf16le_field(b.subrange(fs, fe)))
    }
}

pub fn read_prefetch_filename_string(
    bytes: &[u8],
    filename_strings_offset: usize,
    relative_offset: usize,
    char_count: usize,
) -> (r: Option<String>)
    ensures
        opt_view(r) == prefetch_filename_at(
            bytes@,
            filename_strings_offset as int,
            relative_offset as int,
            char_count as int,
        ),
{
    if char_count == 0 || char_count > 4096 {
        return None;
    }
    let start = match filename_strings_offset.checked_add(relative_offset) {
        Some(v) => v,
        None => {
            return None;
        },
    };
    let byte_len = char_count * 2;
    let end = match start.checked_add(byte_len) {
        Some(v) => v,
        None => {
            return None;
        },
    };
    if end <= bytes.len() {
        let field = slice_bytes(bytes, start, end);
        return clean_opt(Some(decode_utf16le_lossy(field.as_slice())));
    }
    let fallback_relative = match relative_offset.checked_mul(2) {
        Some(v) => v,
        None => {
            return None;
        },
    };
    let fallback_start = match filename_strings_offset.checked_add(fallback_relative) {
        Some(v) => v,
        None => {
            return None;
        },
    };
    let fallback_end = match fallback_start.checked_add(byte_len) {
        Some(v) => v,
        None => {
            return None;
        },
    };
    if fallback_end <= bytes.len() {
        let field = slice_bytes(bytes, fallback_start, fallback_end);
        clean_opt(Some(decode_utf16le_lossy(field.as_slice())))
    } else {
        None
    }
}

// ---------------------------------------------------------------------------
// Files referenced by an exported row
// ---------------------------------------------------------------------------
/// Some member of `acc` equals `c` ignoring ASCII case.
pub open spec fn has_ieq(acc: Seq<Seq<char>>, c: Seq<char>) -> bool {
    exists|k: int| 0 <= k < acc.len() && eq_ignore_case(#[trigger] acc[k], c)
}

/// A candidate to leave out: the Prefetch file itself, the primary file, the
/// executable, or one already taken (ignoring ASCII case).
pub open spec fn skipped_reference(
    c: Seq<char>,
    primary: Option<Seq<char>>,
    exe: Seq<char>,
    acc: Seq<Seq<char>>,
) -> bool {
    let l = lower(c);
    ||| ends_with(l, ".pf"@)
    ||| contains(l, "\\prefetch\\"@)
    ||| contains(l, "/prefetch/"@)
    ||| (primary matches Some(p) && eq_ignore_case(p, c))
    ||| eq_ignore_case(exe, c)
    ||| has_ieq(acc, c)
}

pub open spec fn add_references(
    cs: Seq<Seq<char>>,
    j: int,
    acc: Seq<Seq<char>>,
    primary: Option<Seq<char>>,
    exe: Seq<char>,
) -> Seq<Seq<char>>
    decreases cs.len() - j,
{
    if j < 0 || j >= cs.len() {
        acc
    } else if skipped_reference(cs[j], primary, exe, acc) {
        add_references(cs, j + 1, acc, primary, exe)
    } else {
        add_references(cs, j + 1, acc.push(cs[j]), primary, exe)
    }
}

/// The path candidates of the values `vs[i..]`, in order, after `acc`.
pub open spec fn references_from(
    vs: Seq<Seq<char>>,
    i: int,
    acc: Seq<Seq<char>>,
    primary: Option<Seq<char>>,
    exe: Seq<char>,
) -> Seq<Seq<char>>
    decreases vs.len() - i,
{
    if i < 0 || i >= vs.len() {
        acc
    } else {
        references_from(
            vs,
            i + 1,
            add_references(path_candidates(vs[i]), 0, acc, primary, exe),
            primary,
            exe,
        )
    }
}

pub open spec fn row_values(row: Seq<(Seq<char>, Seq<char>)>) -> Seq<Seq<char>> {
    row.map_values(|e: (Seq<char>, Seq<char>)| e.1)
}

/// The files that an exported Prefetch row references, from the paths in its
/// values, in the order of its cells.
pub open spec fn export_row_references(
    row: Seq<(Seq<char>, Seq<char>)>,
    primary: Option<Seq<char>>,
    exe: Seq<char>,
) -> Seq<Seq<char>> {
    referenced_files_from(references_from(row_values(row), 0, Seq::empty(), primary, exe), 0, Seq::empty())
}

fn has_ieq_exec(acc: &Vec<String>, c: &[char]) -> (r: bool)
    ensures
        r == has_ieq(vec_strings(acc@), c@),
{
    let mut k: usize = 0;
    while k < acc.len()
        invariant
            k <= acc.len(),
            forall|j: int| 0 <= j < k ==> !eq_ignore_case(#[trigger] vec_strings(acc@)[j], c@),
        decreases acc.len() - k,
    {
        let a = chars_of(acc[k].as_str());
        assert(vec_strings(acc@)[k as int] == a@);
        if eq_ignore_case_chars(a.as_slice(), c) {
            return true;
        }
        k = k + 1;
    }
    false
}

fn add_references_exec(
    cs: &Vec<String>,
    acc: &mut Vec<String>,
    primary: Option<&str>,
    exe: &str,
)
    ensures
        vec_strings(final(acc)@) == add_references(
            vec_strings(cs@),
            0,
            vec_strings(old(acc)@),
            match primary {
                Some(p) => Some(p@),
                None => None,
            },
            exe@,
        ),
{
    let ghost pv = match primary {
        Some(p) => Some(p@),
        None => None::<Seq<char>>,
    };
    let ghost all = vec_strings(cs@);
    let ec = chars_of(exe);
    let mut j: usize = 0;
    while j < cs.len()
        invariant
            j <= cs.len(),
            all == vec_strings(cs@),
            ec@ == exe@,
            pv == (match primary {
                Some(p) => Some(p@),
                None => None::<Seq<char>>,
            }),
            add_references(all, 0, vec_strings(old(acc)@), pv, exe@) == add_references(
                all,
                j as int,
                vec_strings(acc@),
                pv,
                exe@,
            ),
        decreases cs.len() - j,
    {
        let c = chars_of(cs[j].as_str());
        assert(all[j as int] == c@);
        let l = lower_chars(c.as_slice());
        let skip_primary = match primary {
            Some(p) => {
                let pc = chars_of(p);
                eq_ignore_case_chars(pc.as_slice(), c.as_slice())
            },
            None => false,
        };
        let skip = ends_with_str(l.as_slice(), ".pf") || contains_str(l.as_slice(), "\\prefetch\\")
            || contains_str(l.as_slice(), "/prefetch/") || skip_primary || eq_ignore_case_chars(
            ec.as_slice(),
            c.as_slice(),
        ) || has_ieq_exec(acc, c.as_slice());
        if !skip {
            let ghost prev = vec_strings(acc@);
            acc.push(cs[j].clone());
            assert(vec_strings(acc@) =~= prev.push(all[j as int]));
        }
        j = j + 1;
    }
}

pub fn prefetch_referenced_files_from_export_row(
    row: &[(String, String)],
    primary_file_path: Option<&str>,
    executable: &str,
) -> (r: Vec<String>)
    ensures
        vec_strings(r@) == export_row_references(
            entries(row@),
            match primary_file_path {
                Some(p) => Some(p@),
                None => None,
            },
            executable@,
        ),
{
    let ghost pv = match primary_file_path {
        Some(p) => Some(p@),
        None => None::<Seq<char>>,
    };
    let ghost vs = row_values(entries(row@));
    let mut candidates: Vec<String> = Vec::new();
    assert(vec_strings(candidates@) =~= Seq::<Seq<char>>::empty());
    let mut i: usize = 0;
    while i < row.len()
        invariant
            i <= row.len(),
            vs == row_values(entries(row@)),
            vs.len() == row@.len(),
            pv == (match primary_file_path {
                Some(p) => Some(p@),
                None => None::<Seq<char>>,
            }),
            references_from(vs, 0, Seq::empty(), pv, executable@) == references_from(
                vs,
                i as int,
                vec_strings(candidates@),
                pv,
                executable@,
            ),
        decreases row.len() - i,
    {
        assert(vs[i as int] == row@[i as int].1@);
        let cs = extract_path_like_candidates(row[i].1.as_str());
        assert(vec_strings(cs@) == string_views(cs@));
        add_references_exec(&cs, &mut candidates, primary_file_path, executable);
        i = i + 1;
    }
    prefetch_referenced_files(candidates.as_slice())
}

// ---------------------------------------------------------------------------
// Sections
// ---------------------------------------------------------------------------
/// Where one of the arrays of a Prefetch file lies, as its header declares it.
/// `length_source` tells how the length was found: `explicit_size`,
/// `count_estimate`, or `next_section_delta` (from the next section's offset).
#[derive(Debug, Clone, Copy)]
pub struct PrefetchSectionSummary {
    pub name: &'static str,
    pub offset: usize,
    pub length: usize,
    pub count: Option<u32>,
    pub length_source: &'static str,
}

pub open spec fn section_view(s: PrefetchSectionSummary) -> (Seq<char>, int, int, Option<u32>, Seq<char>) {
    (s.name@, s.offset as int, s.length as int, s.count, s.length_source@)
}

pub open spec fn section_views(v: Seq<PrefetchSectionSummary>) -> Seq<(Seq<char>, int, int, Option<u32>, Seq<char>)> {
    v.map_values(|s: PrefetchSectionSummary| section_view(s))
}

/// The section named `name` whose offset, count and (when `explicit` holds) size
/// the header keeps at `off_field`, `count_field` and `count_field` itself; none
/// when its offset is unreadable, below 84 or past the data. A length that is
/// zero or runs past the data is left to be found later.
pub open spec fn section_at(
    b: Seq<u8>,
    name: Seq<char>,
    off_field: int,
    count_field: int,
    explicit: bool,
    entry_size: int,
) -> Option<(Seq<char>, int, int, Option<u32>, Seq<char>)> {
    match u32_at(b, off_field) {
        None => None,
        Some(off) => if off < 84 || off >= b.len() {
            None
        } else {
            let count = u32_at(b, count_field);
            let length: int = if explicit {
                match u32_at(b, count_field) {
                    Some(v) => v as int,
                    None => 0,
                }
            } else {
                match count {
                    Some(c) => if c * entry_size > usize::MAX {
                        usize::MAX as int
                    } else {
                        c * entry_size
                    },
                    None => 0,
                }
            };
            let source = if explicit {
                "explicit_size"@
            } else {
                "count_estimate"@
            };
            if length == 0 || off + length > b.len() {
                Some((name, off as int, 0, count, "pending_next_section_delta"@))
            } else {
                Some((name, off as int, length, count, source))
            }
        },
    }
}

pub open spec fn opt_seq<T>(o: Option<T>) -> Seq<T> {
    match o {
        Some(x) => seq![x],
        None => Seq::empty(),
    }
}

/// The sections a header declares: file metrics, trace chains, filename strings
/// and volumes, in that order.
pub open spec fn section_candidates(b: Seq<u8>, metrics_size: int, chain_size: int) -> Seq<
    (Seq<char>, int, int, Option<u32>, Seq<char>),
> {
    opt_seq(section_at(b, "file_metrics"@, 0x54, 0x58, false, metrics_size)) + opt_seq(
        section_at(b, "trace_chains"@, 0x5c, 0x60, false, chain_size),
    ) + opt_seq(section_at(b, "filename_strings"@, 0x64, 0x68, true, 0)) + opt_seq(
        section_at(b, "volumes"@, 0x6c, 0x70, false, 96),
    )
}

fn section_exec(
    bytes: &[u8],
    name: &'static str,
    off_field: usize,
    count_field: usize,
    explicit: bool,
    entry_size: usize,
) -> (r: Option<PrefetchSectionSummary>)
    ensures
        match r {
            Some(x) => section_at(bytes@, name@, off_field as int, count_field as int, explicit, entry_size as int)
                == Some(section_view(x)),
            None => section_at(bytes@, name@, off_field as int, count_field as int, explicit, entry_size as int)
                is None,
        },
{
    let offset = match read_u32_le(bytes, off_field) {
        Some(v) => v as usize,
        None => {
            return None;
        },
    };
    if offset < 84 || offset >= bytes.len() {
        return None;
    }
    let count = read_u32_le(bytes, count_field);
    let mut length: usize = if explicit {
        match read_u32_le(bytes, count_field) {
            Some(v) => v as usize,
            None => 0,
        }
    } else {
        match count {
            Some(c) => match (c as usize).checked_mul(entry_size) {
                Some(v) => v,
                None => usize::MAX,
            },
            None => 0,
        }
    };
    let mut source: &'static str = if explicit {
        "explicit_size"
    } else {
        "count_estimate"
    };
    if length == 0 || length > bytes.len() - offset {
        length = 0;
        source = "pending_next_section_delta";
    }
    Some(PrefetchSectionSummary { name, offset, length, count, length_source: source })
}

fn push_opt_section(out: &mut Vec<PrefetchSectionSummary>, s: Option<PrefetchSectionSummary>)
    ensures
        section_views(final(out)@) == section_views(old(out)@) + opt_seq(
            match s {
                Some(x) => Some(section_view(x)),
                None => None,
            },
        ),
{
    let ghost prev = section_views(out@);
    match s {
        Some(x) => {
            out.push(x);
            assert(section_views(out@) =~= prev + seq![section_view(x)]);
        },
        None => {
            assert(section_views(out@) =~= prev + Seq::empty());
        },
    }
}

pub fn prefetch_section_candidates(bytes: &[u8], layout: &PrefetchLayout) -> (r: Vec<PrefetchSectionSummary>)
    ensures
        section_views(r@) == section_candidates(
            bytes@,
            layout.file_metrics_entry_size as int,
            layout.trace_chain_entry_size as int,
        ),
{
    let mut out: Vec<PrefetchSectionSummary> = Vec::new();
    assert(section_views(out@) =~= Seq::empty());
    push_opt_section(
        &mut out,
        section_exec(bytes, "file_metrics", 0x54, 0x58, false, layout.file_metrics_entry_size),
    );
    push_opt_section(
        &mut out,
        section_exec(bytes, "trace_chains", 0x5c, 0x60, false, layout.trace_chain_entry_size),
    );
    push_opt_section(&mut out, section_exec(bytes, "filename_strings", 0x64, 0x68, true, 0));
    push_opt_section(&mut out, section_exec(bytes, "volumes", 0x6c, 0x70, false, 96));
    out
}

/// `x` placed after every section whose offset is at most its own.
pub open spec fn insert_by_offset(
    t: Seq<(Seq<char>, int, int, Option<u32>, Seq<char>)>,
    x: (Seq<char>, int, int, Option<u32>, Seq<char>),
) -> Seq<(Seq<char>, int, int, Option<u32>, Seq<char>)>
    decreases t.len(),
{
    if t.len() == 0 {
        seq![x]
    } else if t.last().1 <= x.1 {
        t.push(x)
    } else {
        insert_by_offset(t.drop_last(), x).push(t.last())
    }
}

/// Sections ordered by offset; those with equal offsets keep their order.
pub open spec fn sorted_by_offset(s: Seq<(Seq<char>, int, int, Option<u32>, Seq<char>)>) -> Seq<
    (Seq<char>, int, int, Option<u32>, Seq<char>),
>
    decreases s.len(),
{
    if s.len() == 0 {
        Seq::empty()
    } else {
        insert_by_offset(sorted_by_offset(s.drop_last()), s.last())
    }
}

fn insert_section(out: &mut Vec<PrefetchSectionSummary>, x: PrefetchSectionSummary)
    ensures
        section_views(final(out)@) == insert_by_offset(section_views(old(out)@), section_view(x)),
{
    let ghost t = section_views(out@);
    let mut p: usize = out.len();
    assert(t.take(p as int) =~= t);
    assert(t.skip(p as int) =~= Seq::empty());
    assert(t + Seq::empty() =~= t);
    while p > 0 && out[p - 1].offset > x.offset
        invariant
            p <= out.len(),
            t == section_views(out@),
            insert_by_offset(t, section_view(x)) == insert_by_offset(t.take(p as int), section_view(x))
                + t.skip(p as int),
        decreases p,
    {
        let ghost tp = t.take(p as int);
        assert(tp.last() == t[p - 1]);
        assert(tp.drop_last() =~= t.take(p - 1));
        assert(t.skip(p - 1) =~= seq![t[p - 1]] + t.skip(p as int));
        assert(insert_by_offset(t.take(p - 1), section_view(x)).push(t[p - 1]) + t.skip(p as int)
            =~= insert_by_offset(t.take(p - 1), section_view(x)) + t.skip(p - 1));
        p = p - 1;
    }
    proof {
        let tp = t.take(p as int);
        if p > 0 {
            assert(tp.last() == t[p - 1]);
            assert(insert_by_offset(tp, section_view(x)) == tp.push(section_view(x)));
        } else {
            assert(tp.len() == 0);
        }
    }
    out.insert(p, x);
    assert(section_views(out@) =~= t.take(p as int).push(section_view(x)) + t.skip(p as int));
}

pub fn sort_sections_by_offset(sections: Vec<PrefetchSectionSummary>) -> (r: Vec<PrefetchSectionSummary>)
    ensures
        section_views(r@) == sorted_by_offset(section_views(sections@)),
{
    let ghost s = section_views(sections@);
    let mut out: Vec<PrefetchSectionSummary> = Vec::new();
    let mut i: usize = 0;
    assert(section_views(out@) =~= sorted_by_offset(s.take(0)));
    while i < sections.len()
        invariant
            i <= sections.len(),
            s == section_views(sections@),
            section_views(out@) == sorted_by_offset(s.take(i as int)),
        decreases sections.len() - i,
    {
        assert(s.take(i + 1).drop_last() =~= s.take(i as int));
        assert(s.take(i + 1).last() == section_view(sections@[i as int]));
        insert_section(&mut out, sections[i]);
        i = i + 1;
    }
    assert(s.take(sections.len() as int) =~= s);
    out
}

/// The offset of the first section after `i` that starts after it, else the end
/// of the data.
pub open spec fn next_offset_from(
    t: Seq<(Seq<char>, int, int, Option<u32>, Seq<char>)>,
    i: int,
    j: int,
    end: int,
) -> int
    decreases t.len() - j,
{
    if j < 0 || j >= t.len() {
        end
    } else if t[j].1 > t[i].1 {
        t[j].1
    } else {
        next_offset_from(t, i, j + 1, end)
    }
}

/// Section `i` with a missing length taken from the distance to the next
/// section, at most 512 KiB.
pub open spec fn filled_section(t: Seq<(Seq<char>, int, int, Option<u32>, Seq<char>)>, i: int, end: int) -> (
    Seq<char>,
    int,
    int,
    Option<u32>,
    Seq<char>,
) {
    if t[i].2 == 0 {
        let n = next_offset_from(t, i, i + 1, end);
        let d = if n > t[i].1 {
            n - t[i].1
        } else {
            0
        };
        (t[i].0, t[i].1, if d < 524288 { d } else { 524288int }, t[i].3, "next_section_delta"@)
    } else {
        t[i]
    }
}

pub open spec fn filled_sections(t: Seq<(Seq<char>, int, int, Option<u32>, Seq<char>)>, end: int) -> Seq<
    (Seq<char>, int, int, Option<u32>, Seq<char>),
> {
    Seq::new(t.len(), |i: int| filled_section(t, i, end))
}

fn next_offset_exec(sections: &Vec<PrefetchSectionSummary>, i: usize, end: usize) -> (r: usize)
    requires
        i < sections.len(),
    ensures
        r == next_offset_from(section_views(sections@), i as int, i + 1, end as int),
{
    let ghost t = section_views(sections@);
    let mut j: usize = i + 1;
    while j < sections.len()
        invariant
            i < j <= sections.len(),
            t == section_views(sections@),
            next_offset_from(t, i as int, i + 1, end as int) == next_offset_from(t, i as int, j as int, end as int),
        decreases sections.len() - j,
    {
        if sections[j].offset > sections[i].offset {
            return sections[j].offset;
        }
        j = j + 1;
    }
    end
}

pub fn fill_section_lengths(sections: &mut Vec<PrefetchSectionSummary>, end: usize)
    ensures
        section_views(final(sections)@) == filled_sections(section_views(old(sections)@), end as int),
{
    let ghost t = section_views(sections@);
    let mut i: usize = 0;
    while i < sections.len()
        invariant
            i <= sections.len(),
            sections@.len() == t.len(),
            t == section_views(old(sections)@),
            forall|k: int| 0 <= k < sections@.len() ==> #[trigger] sections@[k].offset == t[k].1,
            forall|k: int| 0 <= k < i ==> section_view(#[trigger] sections@[k]) == filled_section(t, k, end as int),
            forall|k: int| i <= k < sections@.len() ==> section_view(#[trigger] sections@[k]) == t[k],
        decreases sections.len() - i,
    {
        if sections[i].length == 0 {
            let mut sec = sections[i];
            let next = {
                let ghost cur = section_views(sections@);
                assert forall|k: int| 0 <= k < cur.len() implies #[trigger] cur[k].1 == t[k].1 by {
                    assert(cur[k] == section_view(sections@[k]));
                }
                assert(next_offset_from(cur, i as int, i + 1, end as int) == next_offset_from(t, i as int, i + 1, end as int)) by {
                    lemma_next_offset_same(cur, t, i as int, i + 1, end as int);
                }
                next_offset_exec(sections, i, end)
            };
            let d = if next > sec.offset {
                next - sec.offset
            } else {
                0
            };
            sec.length = if d < 512 * 1024 {
                d
            } else {
                512 * 1024
            };
            sec.length_source = "next_section_delta";
            sections.set(i, sec);
        }
        i = i + 1;
    }
    assert(section_views(sections@) =~= filled_sections(t, end as int));
}

proof fn lemma_next_offset_same(
    a: Seq<(Seq<char>, int, int, Option<u32>, Seq<char>)>,
    b: Seq<(Seq<char>, int, int, Option<u32>, Seq<char>)>,
    i: int,
    j: int,
    end: int,
)
    requires
        a.len() == b.len(),
        0 <= i < a.len(),
        forall|k: int| 0 <= k < a.len() ==> #[trigger] a[k].1 == b[k].1,
    ensures
        next_offset_from(a, i, j, end) == next_offset_from(b, i, j, end),
    decreases a.len() - j,
{
    if 0 <= j < a.len() {
        assert(a[j].1 == b[j].1);
        assert(a[i].1 == b[i].1);
        lemma_next_offset_same(a, b, i, j + 1, end);
    }
}

// ---------------------------------------------------------------------------
// Run times
// ---------------------------------------------------------------------------
/// A recorded execution time: where it was read and the instant in RFC 3339;
/// the most recent has index 0.
#[derive(Debug, Clone)]
pub struct PrefetchRunTimeEntry {
    pub execution_index: usize,
    pub offset: usize,
    pub timestamp: String,
}

pub open spec fn filetime_at(b: Seq<u8>, o: int) -> Option<Seq<char>> {
    if fits(b, o, 8) {
        filetime_text(le64(b, o))
    } else {
        None
    }
}

pub open spec fn stamp_texts(v: Seq<(int, Seq<char>)>) -> Seq<Seq<char>> {
    v.map_values(|e: (int, Seq<char>)| e.1)
}

/// The plausible run times at the offsets `offs[i..]`, each instant once, after
/// `acc`, with the offsets they were read at.
pub open spec fn run_times_from(b: Seq<u8>, offs: Seq<usize>, i: int, acc: Seq<(int, Seq<char>)>) -> Seq<
    (int, Seq<char>),
>
    decreases offs.len() - i,
{
    if i < 0 || i >= offs.len() {
        acc
    } else {
        match filetime_at(b, offs[i] as int) {
            None => run_times_from(b, offs, i + 1, acc),
            Some(t) => if !plausible_forensic_time(t) || stamp_texts(acc).contains(t) {
                run_times_from(b, offs, i + 1, acc)
            } else {
                run_times_from(b, offs, i + 1, acc.push((offs[i] as int, t)))
            },
        }
    }
}

pub open spec fn pair_views(v: Seq<(usize, String)>) -> Seq<(int, Seq<char>)> {
    v.map_values(|e: (usize, String)| (e.0 as int, e.1@))
}

/// Later instants first; no two alike.
pub open spec fn newest_first(v: Seq<(int, Seq<char>)>) -> bool {
    forall|i: int, j: int| 0 <= i < j < v.len() ==> text_lt(#[trigger] v[j].1, #[trigger] v[i].1)
}

fn stamp_known(v: &Vec<(usize, String)>, t: &[char]) -> (r: bool)
    ensures
        r == stamp_texts(pair_views(v@)).contains(t@),
{
    let ghost ts = stamp_texts(pair_views(v@));
    let mut k: usize = 0;
    while k < v.len()
        invariant
            k <= v.len(),
            ts == stamp_texts(pair_views(v@)),
            forall|j: int| 0 <= j < k ==> #[trigger] ts[j] != t@,
        decreases v.len() - k,
    {
        let e = chars_of(v[k].1.as_str());
        assert(ts[k as int] == e@);
        if crate::text::seq_eq(e.as_slice(), t) {
            return true;
        }
        k = k + 1;
    }
    false
}

fn insert_newest_first(v: &mut Vec<(usize, String)>, x: (usize, String))
    requires
        newest_first(pair_views(old(v)@)),
        !stamp_texts(pair_views(old(v)@)).contains(x.1@),
    ensures
        newest_first(pair_views(final(v)@)),
        pair_views(final(v)@).to_set() == pair_views(old(v)@).to_set().insert((x.0 as int, x.1@)),
        pair_views(final(v)@).len() == pair_views(old(v)@).len() + 1,
{
    let ghost s = pair_views(v@);
    let ghost xv = (x.0 as int, x.1@);
    let xc = chars_of(x.1.as_str());
    let mut p: usize = 0;
    while p < v.len()
        invariant
            p <= v.len(),
            s == pair_views(v@),
            newest_first(s),
            xc@ == x.1@,
            forall|k: int| 0 <= k < p ==> text_lt(x.1@, #[trigger] s[k].1),
        ensures
            p <= v.len(),
            s == pair_views(v@),
            forall|k: int| 0 <= k < p ==> text_lt(x.1@, #[trigger] s[k].1),
            p < v.len() ==> !text_lt(x.1@, s[p as int].1),
        decreases v.len() - p,
    {
        let e = chars_of(v[p].1.as_str());
        assert(s[p as int].1 == e@);
        if !text_less(xc.as_slice(), e.as_slice()) {
            break;
        }
        p = p + 1;
    }
    if p < v.len() {
        proof {
            lemma_text_lt_total(s[p as int].1, x.1@);
            assert(stamp_texts(s)[p as int] == s[p as int].1);
            assert(s[p as int].1 != x.1@);
            assert forall|k: int| p <= k < s.len() implies text_lt(#[trigger] s[k].1, x.1@) by {
                if k > p {
                    lemma_text_lt_transitive(s[k].1, s[p as int].1, x.1@);
                }
            }
        }
    }
    v.insert(p, x);
    proof {
        let t = pair_views(v@);
        assert(t =~= s.insert(p as int, xv));
        assert forall|i: int, j: int| 0 <= i < j < t.len() implies text_lt(
            #[trigger] t[j].1,
            #[trigger] t[i].1,
        ) by {
            if j < p {
            } else if j == p {
            } else if i < p {
                assert(text_lt(s[j - 1].1, x.1@));
                lemma_text_lt_transitive(t[j].1, x.1@, t[i].1);
            } else if i == p {
                assert(text_lt(s[j - 1].1, x.1@));
            } else {
            }
        }
        assert(t.to_set() =~= s.to_set().insert(xv)) by {
            assert forall|y: (int, Seq<char>)| t.to_set().contains(y) implies s.to_set().insert(xv).contains(y) by {
                let k = choose|k: int| 0 <= k < t.len() && t[k] == y;
                if k < p {
                    assert(s[k] == y);
                } else if k > p {
                    assert(s[k - 1] == y);
                }
            }
            assert forall|y: (int, Seq<char>)| s.to_set().insert(xv).contains(y) implies t.to_set().contains(y) by {
                if y == xv {
                    assert(t[p as int] == y);
                } else {
                    let k = choose|k: int| 0 <= k < s.len() && s[k] == y;
                    if k < p {
                        assert(t[k] == y);
                    } else {
                        assert(t[k + 1] == y);
                    }
                }
            }
        }
    }
}

pub open spec fn entry_pair(e: PrefetchRunTimeEntry) -> (int, Seq<char>) {
    (e.offset as int, e.timestamp@)
}

/// No two entries carry the same instant.
pub open spec fn distinct_stamps(v: Seq<(int, Seq<char>)>) -> bool {
    forall|x: int, y: int| 0 <= x < y < v.len() ==> #[trigger] v[x].1 != #[trigger] v[y].1
}

proof fn lemma_distinct_push(acc: Seq<(int, Seq<char>)>, e: (int, Seq<char>))
    requires
        distinct_stamps(acc),
        !stamp_texts(acc).contains(e.1),
    ensures
        distinct_stamps(acc.push(e)),
{
    let n = acc.push(e);
    assert forall|x: int, y: int| 0 <= x < y < n.len() implies #[trigger] n[x].1 != #[trigger] n[y].1 by {
        if y == acc.len() {
            assert(stamp_texts(acc)[x] == acc[x].1);
        } else {
            assert(n[x] == acc[x] && n[y] == acc[y]);
        }
    }
}

proof fn lemma_run_times_distinct(b: Seq<u8>, offs: Seq<usize>, i: int, acc: Seq<(int, Seq<char>)>)
    requires
        distinct_stamps(acc),
    ensures
        distinct_stamps(run_times_from(b, offs, i, acc)),
    decreases offs.len() - i,
{
    if 0 <= i < offs.len() {
        match filetime_at(b, offs[i] as int) {
            None => lemma_run_times_distinct(b, offs, i + 1, acc),
            Some(t) => if !plausible_forensic_time(t) || stamp_texts(acc).contains(t) {
                lemma_run_times_distinct(b, offs, i + 1, acc)
            } else {
                lemma_distinct_push(acc, (offs[i] as int, t));
                lemma_run_times_distinct(b, offs, i + 1, acc.push((offs[i] as int, t)));
            },
        }
    }
}

fn collect_run_times(bytes: &[u8], offs: &Vec<usize>) -> (r: Vec<(usize, String)>)
    ensures
        pair_views(r@) == run_times_from(bytes@, offs@, 0, Seq::empty()),
        distinct_stamps(pair_views(r@)),
{
    let mut found: Vec<(usize, String)> = Vec::new();
    assert(pair_views(found@) =~= Seq::<(int, Seq<char>)>::empty());
    let mut i: usize = 0;
    while i < offs.len()
        invariant
            i <= offs.len(),
            run_times_from(bytes@, offs@, 0, Seq::empty()) == run_times_from(
                bytes@,
                offs@,
                i as int,
                pair_views(found@),
            ),
        decreases offs.len() - i,
    {
        let off = offs[i];
        match read_filetime_rfc3339(bytes, off) {
            None => {},
            Some(v) => {
                let vc = chars_of(v.as_str());
                if is_plausible_forensic_time(v.as_str()) && !stamp_known(&found, vc.as_slice()) {
                    let ghost prev = pair_views(found@);
                    found.push((off, v));
                    assert(pair_views(found@) =~= prev.push((off as int, vc@)));
                }
            },
        }
        i = i + 1;
    }
    proof {
        lemma_run_times_distinct(bytes@, offs@, 0, Seq::empty());
    }
    found
}

fn sort_newest_first(found: &Vec<(usize, String)>) -> (r: Vec<(usize, String)>)
    requires
        distinct_stamps(pair_views(found@)),
    ensures
        newest_first(pair_views(r@)),
        pair_views(r@).to_set() == pair_views(found@).to_set(),
        pair_views(r@).len() == pair_views(found@).len(),
{
    let ghost fv = pair_views(found@);
    let mut sorted: Vec<(usize, String)> = Vec::new();
    let mut k: usize = 0;
    assert(pair_views(sorted@).to_set() =~= fv.take(0).to_set());
    while k < found.len()
        invariant
            k <= found.len(),
            fv == pair_views(found@),
            distinct_stamps(fv),
            newest_first(pair_views(sorted@)),
            pair_views(sorted@).to_set() == fv.take(k as int).to_set(),
            pair_views(sorted@).len() == k,
        decreases found.len() - k,
    {
        let ghost before = fv.take(k as int);
        let ghost sv = pair_views(sorted@);
        proof {
            before.lemma_push_to_set_commute(fv[k as int]);
            assert(fv.take(k + 1) =~= before.push(fv[k as int]));
            if stamp_texts(sv).contains(fv[k as int].1) {
                let j = choose|j: int| 0 <= j < sv.len() && stamp_texts(sv)[j] == fv[k as int].1;
                let y = sv[j];
                assert(sv.to_set().contains(y));
                assert(before.to_set().contains(y));
                let m = choose|m: int| 0 <= m < before.len() && before[m] == y;
                assert(fv[m].1 == fv[k as int].1);
            }
        }
        let x = (found[k].0, found[k].1.clone());
        insert_newest_first(&mut sorted, x);
        k = k + 1;
    }
    assert(fv.take(found.len() as int) =~= fv);
    sorted
}

pub fn prefetch_run_time_entries(bytes: &[u8], layout: &PrefetchLayout) -> (r: Vec<PrefetchRunTimeEntry>)
    ensures
        ({
            let found = run_times_from(bytes@, layout.run_time_offsets@, 0, Seq::empty());
            let got = r@.map_values(|e: PrefetchRunTimeEntry| entry_pair(e));
            &&& got.len() == found.len()
            &&& got.to_set() == found.to_set()
            &&& newest_first(got)
            &&& forall|k: int| 0 <= k < r@.len() ==> #[trigger] r@[k].execution_index == k
        }),
{
    let found = collect_run_times(bytes, &layout.run_time_offsets);
    let sorted = sort_newest_first(&found);
    let mut out: Vec<PrefetchRunTimeEntry> = Vec::new();
    let mut j: usize = 0;
    while j < sorted.len()
        invariant
            j <= sorted.len(),
            out@.len() == j,
            forall|m: int| 0 <= m < j ==> #[trigger] out@[m].execution_index == m,
            forall|m: int| 0 <= m < j ==> entry_pair(#[trigger] out@[m]) == pair_views(sorted@)[m],
        decreases sorted.len() - j,
    {
        out.push(PrefetchRunTimeEntry {
            execution_index: j,
            offset: sorted[j].0,
            timestamp: sorted[j].1.clone(),
        });
        j = j + 1;
    }
    assert(out@.map_values(|e: PrefetchRunTimeEntry| entry_pair(e)) =~= pair_views(sorted@));
    out
}

// ---------------------------------------------------------------------------
// File metrics and trace chains
// ---------------------------------------------------------------------------
/// An entry of the file metrics array: timings, where its file name lies in the
/// filename strings section, flags, the file's MFT reference, and its name.
#[derive(Debug, Clone)]
pub struct PrefetchFileMetricEntry {
    pub index: usize,
    pub offset: usize,
    pub length: usize,
    pub prefetch_start_time_ms: Option<u32>,
    pub prefetch_duration_ms: Option<u32>,
    pub average_duration_ms: Option<u32>,
    pub filename_string_offset: Option<u32>,
    pub filename_string_char_count: Option<u32>,
    pub flags: Option<u32>,
    pub file_reference: Option<u64>,
    pub filename: Option<String>,
}

pub open spec fn metric_view(e: PrefetchFileMetricEntry) -> (
    int,
    int,
    int,
    Option<u32>,
    Option<u32>,
    Option<u32>,
    Option<u32>,
    Option<u32>,
    Option<u32>,
    Option<u64>,
    Option<Seq<char>>,
) {
    (
        e.index as int,
        e.offset as int,
        e.length as int,
        e.prefetch_start_time_ms,
        e.prefetch_duration_ms,
        e.average_duration_ms,
        e.filename_string_offset,
        e.filename_string_char_count,
        e.flags,
        e.file_reference,
        opt_view(e.filename),
    )
}

/// The entry at `off`: version 17 has no average duration and no file reference;
/// a zero reference counts as none. The name is read when the header gives the
/// filename strings section and the entry its offset and length.
pub open spec fn metric_at(b: Seq<u8>, v17: bool, names: Option<u32>, idx: int, off: int, size: int) -> (
    int,
    int,
    int,
    Option<u32>,
    Option<u32>,
    Option<u32>,
    Option<u32>,
    Option<u32>,
    Option<u32>,
    Option<u64>,
    Option<Seq<char>>,
) {
    let fso = if v17 {
        u32_at(b, off + 8)
    } else {
        u32_at(b, off + 12)
    };
    let fsc = if v17 {
        u32_at(b, off + 12)
    } else {
        u32_at(b, off + 16)
    };
    let fref = if v17 {
        None
    } else {
        match u64_at(b, off + 24) {
            Some(r) => if r != 0 {
                Some(r)
            } else {
                None
            },
            None => None,
        }
    };
    let name = match (names, fso, fsc) {
        (Some(base), Some(rel), Some(chars)) => prefetch_filename_at(
            b,
            base as int,
            rel as int,
            chars as int,
        ),
        _ => None,
    };
    (
        idx,
        off,
        size,
        u32_at(b, off),
        u32_at(b, off + 4),
        if v17 {
            None
        } else {
            u32_at(b, off + 8)
        },
        fso,
        fsc,
        if v17 {
            u32_at(b, off + 16)
        } else {
            u32_at(b, off + 20)
        },
        fref,
        name,
    )
}

/// The entries `idx..n` of the array at `start`, stopping at the first that runs
/// past the data.
pub open spec fn metrics_from(
    b: Seq<u8>,
    v17: bool,
    names: Option<u32>,
    start: int,
    size: int,
    idx: int,
    n: int,
) -> Seq<
    (
        int,
        int,
        int,
        Option<u32>,
        Option<u32>,
        Option<u32>,
        Option<u32>,
        Option<u32>,
        Option<u32>,
        Option<u64>,
        Option<Seq<char>>,
    ),
>
    decreases n - idx,
{
    if idx < 0 || idx >= n || start + idx * size + size > b.len() {
        Seq::empty()
    } else {
        seq![metric_at(b, v17, names, idx, start + idx * size, size)] + metrics_from(
            b,
            v17,
            names,
            start,
            size,
            idx + 1,
            n,
        )
    }
}

/// The first 64 entries of the file metrics array the header declares at 0x54,
/// with its count at 0x58; none when the array is missing or empty.
pub open spec fn file_metrics(b: Seq<u8>, version: Option<u32>, size: int) -> Seq<
    (
        int,
        int,
        int,
        Option<u32>,
        Option<u32>,
        Option<u32>,
        Option<u32>,
        Option<u32>,
        Option<u32>,
        Option<u64>,
        Option<Seq<char>>,
    ),
> {
    match u32_at(b, 0x54) {
        None => Seq::empty(),
        Some(start) => {
            let count: int = match u32_at(b, 0x58) {
                Some(c) => c as int,
                None => 0,
            };
            if start < 84 || start >= b.len() || count == 0 {
                Seq::empty()
            } else {
                metrics_from(
                    b,
                    version == Some(17u32),
                    u32_at(b, 0x64),
                    start as int,
                    size,
                    0,
                    if count < 64 {
                        count
                    } else {
                        64
                    },
                )
            }
        },
    }
}

fn u32_plus(bytes: &[u8], off: usize, k: usize) -> (r: Option<u32>)
    ensures
        r == u32_at(bytes@, off + k),
{
    if k > usize::MAX - off {
        assert(bytes@.len() == bytes.len());
        return None;
    }
    read_u32_le(bytes, off + k)
}

fn u16_plus(bytes: &[u8], off: usize, k: usize) -> (r: Option<u16>)
    ensures
        r == u16_at(bytes@, off + k),
{
    if k > usize::MAX - off {
        assert(bytes@.len() == bytes.len());
        return None;
    }
    read_u16_le(bytes, off + k)
}

fn u8_plus(bytes: &[u8], off: usize, k: usize) -> (r: Option<u8>)
    ensures
        r == u8_at(bytes@, off + k),
{
    if k > usize::MAX - off {
        assert(bytes@.len() == bytes.len());
        return None;
    }
    read_u8(bytes, off + k)
}

fn u64_nonzero_plus(bytes: &[u8], off: usize, k: usize) -> (r: Option<u64>)
    ensures
        r == (match u64_at(bytes@, off + k) {
            Some(v) => if v != 0 {
                Some(v)
            } else {
                None
            },
            None => None,
        }),
{
    if k > usize::MAX - off {
        assert(bytes@.len() == bytes.len());
        return None;
    }
    let r = read_u64_le(bytes, off + k);
    match r {
        Some(v) => if v != 0 {
            Some(v)
        } else {
            None
        },
        None => None,
    }
}

fn metric_exec(
    bytes: &[u8],
    v17: bool,
    names: Option<u32>,
    idx: usize,
    off: usize,
    size: usize,
) -> (r: PrefetchFileMetricEntry)
    requires
        off + size <= bytes.len(),
    ensures
        metric_view(r) == metric_at(bytes@, v17, names, idx as int, off as int, size as int),
{
    let fso = if v17 {
        u32_plus(bytes, off, 8)
    } else {
        u32_plus(bytes, off, 12)
    };
    let fsc = if v17 {
        u32_plus(bytes, off, 12)
    } else {
        u32_plus(bytes, off, 16)
    };
    let fref = if v17 {
        None
    } else {
        u64_nonzero_plus(bytes, off, 24)
    };
    let filename = match (names, fso, fsc) {
        (Some(base), Some(rel), Some(chars)) => read_prefetch_filename_string(
            bytes,
            base as usize,
            rel as usize,
            chars as usize,
        ),
        _ => None,
    };
    PrefetchFileMetricEntry {
        index: idx,
        offset: off,
        length: size,
        prefetch_start_time_ms: read_u32_le(bytes, off),
        prefetch_duration_ms: u32_plus(bytes, off, 4),
        average_duration_ms: if v17 {
            None
        } else {
            u32_plus(bytes, off, 8)
        },
        filename_string_offset: fso,
        filename_string_char_count: fsc,
        flags: if v17 {
            u32_plus(bytes, off, 16)
        } else {
            u32_plus(bytes, off, 20)
        },
        file_reference: fref,
        filename,
    }
}

pub fn parse_prefetch_file_metrics(bytes: &[u8], version: Option<u32>, layout: &PrefetchLayout) -> (r: Vec<
    PrefetchFileMetricEntry,
>)
    ensures
        r@.map_values(|e: PrefetchFileMetricEntry| metric_view(e)) == file_metrics(
            bytes@,
            version,
            layout.file_metrics_entry_size as int,
        ),
{
    let mut out: Vec<PrefetchFileMetricEntry> = Vec::new();
    assert(out@.map_values(|e: PrefetchFileMetricEntry| metric_view(e)) =~= Seq::empty());
    let start = match read_u32_le(bytes, 0x54) {
        Some(v) => v as usize,
        None => {
            return out;
        },
    };
    let count: usize = match read_u32_le(bytes, 0x58) {
        Some(c) => c as usize,
        None => 0,
    };
    let names = read_u32_le(bytes, 0x64);
    if start < 84 || start >= bytes.len() || count == 0 {
        return out;
    }
    let size = layout.file_metrics_entry_size;
    let n = if count < 64 {
        count
    } else {
        64
    };
    let v17 = match version {
        Some(v) => v == 17,
        None => false,
    };
    let mut idx: usize = 0;
    while idx < n
        invariant
            idx <= n <= 64,
            start < bytes.len(),
            v17 == (version == Some(17u32)),
            file_metrics(bytes@, version, size as int) == out@.map_values(
                |e: PrefetchFileMetricEntry| metric_view(e),
            ) + metrics_from(bytes@, v17, names, start as int, size as int, idx as int, n as int),
        ensures
            file_metrics(bytes@, version, size as int) == out@.map_values(
                |e: PrefetchFileMetricEntry| metric_view(e),
            ) + metrics_from(bytes@, v17, names, start as int, size as int, idx as int, n as int),
            metrics_from(bytes@, v17, names, start as int, size as int, idx as int, n as int) =~= Seq::empty(),
        decreases n - idx,
    {
        let room = bytes.len() - start;
        let fits_entry = match idx.checked_mul(size) {
            Some(a) => a <= room && size <= room - a,
            None => false,
        };
        proof {
            if idx * size > usize::MAX {
                assert(idx * size >= 0);
            }
        }
        if !fits_entry {
            assert(start + idx * size + size > bytes.len()) by (nonlinear_arith)
                requires
                    !fits_entry,
                    fits_entry == (idx * size <= usize::MAX && idx * size <= room && size <= room - idx * size),
                    room == bytes.len() - start,
                    idx * size >= 0,
                    size >= 0,
            ;
            break;
        }
        let off = start + idx * size;
        let ghost prev = out@.map_values(|e: PrefetchFileMetricEntry| metric_view(e));
        let e = metric_exec(bytes, v17, names, idx, off, size);
        out.push(e);
        assert(out@.map_values(|e: PrefetchFileMetricEntry| metric_view(e)) =~= prev.push(metric_view(e)));
        assert(prev.push(metric_view(e)) + metrics_from(bytes@, v17, names, start as int, size as int, idx + 1, n as int)
            =~= prev + metrics_from(bytes@, v17, names, start as int, size as int, idx as int, n as int));
        idx = idx + 1;
    }
    assert(out@.map_values(|e: PrefetchFileMetricEntry| metric_view(e)) + Seq::empty() =~= out@.map_values(
        |e: PrefetchFileMetricEntry| metric_view(e),
    ));
    out
}

/// An entry of the trace chain array.
#[derive(Debug, Clone, Copy)]
pub struct PrefetchTraceChainEntry {
    pub index: usize,
    pub offset: usize,
    pub length: usize,
    pub next_index: Option<u32>,
    pub block_load_count: Option<u32>,
    pub unknown_flags: Option<u8>,
    pub sample_duration_ms: Option<u8>,
    pub unknown_value: Option<u16>,
}

pub open spec fn chain_view(e: PrefetchTraceChainEntry) -> (int, int, int, Option<u32>, Option<u32>, Option<u8>, Option<u8>, Option<u16>) {
    (
        e.index as int,
        e.offset as int,
        e.length as int,
        e.next_index,
        e.block_load_count,
        e.unknown_flags,
        e.sample_duration_ms,
        e.unknown_value,
    )
}

/// The entry at `off`: in the compact layout (versions 30 and 31, or unknown)
/// there is no next index; in the older one a next index of `u32::MAX` means
/// none.
pub open spec fn chain_at(b: Seq<u8>, compact: bool, idx: int, off: int, size: int) -> (
    int,
    int,
    int,
    Option<u32>,
    Option<u32>,
    Option<u8>,
    Option<u8>,
    Option<u16>,
) {
    if compact {
        (idx, off, size, None, u32_at(b, off), u8_at(b, off + 4), u8_at(b, off + 5), u16_at(b, off + 6))
    } else {
        (
            idx,
            off,
            size,
            match u32_at(b, off) {
                Some(v) => if v != u32::MAX {
                    Some(v)
                } else {
                    None
                },
                None => None,
            },
            u32_at(b, off + 4),
            u8_at(b, off + 8),
            u8_at(b, off + 9),
            u16_at(b, off + 10),
        )
    }
}

pub open spec fn chains_from(b: Seq<u8>, compact: bool, start: int, size: int, idx: int, n: int) -> Seq<
    (int, int, int, Option<u32>, Option<u32>, Option<u8>, Option<u8>, Option<u16>),
>
    decreases n - idx,
{
    if idx < 0 || idx >= n || start + idx * size + size > b.len() {
        Seq::empty()
    } else {
        seq![chain_at(b, compact, idx, start + idx * size, size)] + chains_from(
            b,
            compact,
            start,
            size,
            idx + 1,
            n,
        )
    }
}

/// Version 30, 31 or unknown: the compact trace chain layout.
pub open spec fn compact_chains(version: Option<u32>) -> bool {
    version == Some(30u32) || version == Some(31u32) || version is None
}

/// The first 64 entries of the trace chain array the header declares at 0x5c,
/// with its count at 0x60.
pub open spec fn trace_chains(b: Seq<u8>, version: Option<u32>, size: int) -> Seq<
    (int, int, int, Option<u32>, Option<u32>, Option<u8>, Option<u8>, Option<u16>),
> {
    match u32_at(b, 0x5c) {
        None => Seq::empty(),
        Some(start) => {
            let count: int = match u32_at(b, 0x60) {
                Some(c) => c as int,
                None => 0,
            };
            if start < 84 || start >= b.len() || count == 0 {
                Seq::empty()
            } else {
                chains_from(
                    b,
                    compact_chains(version),
                    start as int,
                    size,
                    0,
                    if count < 64 {
                        count
                    } else {
                        64
                    },
                )
            }
        },
    }
}

fn chain_exec(bytes: &[u8], compact: bool, idx: usize, off: usize, size: usize) -> (r: PrefetchTraceChainEntry)
    ensures
        chain_view(r) == chain_at(bytes@, compact, idx as int, off as int, size as int),
{
    if compact {
        PrefetchTraceChainEntry {
            index: idx,
            offset: off,
            length: size,
            next_index: None,
            block_load_count: u32_plus(bytes, off, 0),
            unknown_flags: u8_plus(bytes, off, 4),
            sample_duration_ms: u8_plus(bytes, off, 5),
            unknown_value: u16_plus(bytes, off, 6),
        }
    } else {
        let next = match u32_plus(bytes, off, 0) {
            Some(v) => if v != u32::MAX {
                Some(v)
            } else {
                None
            },
            None => None,
        };
        PrefetchTraceChainEntry {
            index: idx,
            offset: off,
            length: size,
            next_index: next,
            block_load_count: u32_plus(bytes, off, 4),
            unknown_flags: u8_plus(bytes, off, 8),
            sample_duration_ms: u8_plus(bytes, off, 9),
            unknown_value: u16_plus(bytes, off, 10),
        }
    }
}

pub fn parse_prefetch_trace_chains(bytes: &[u8], version: Option<u32>, layout: &PrefetchLayout) -> (r: Vec<
    PrefetchTraceChainEntry,
>)
    ensures
        r@.map_values(|e: PrefetchTraceChainEntry| chain_view(e)) == trace_chains(
            bytes@,
            version,
            layout.trace_chain_entry_size as int,
        ),
{
    let mut out: Vec<PrefetchTraceChainEntry> = Vec::new();
    assert(out@.map_values(|e: PrefetchTraceChainEntry| chain_view(e)) =~= Seq::empty());
    let start = match read_u32_le(bytes, 0x5c) {
        Some(v) => v as usize,
        None => {
            return out;
        },
    };
    let count: usize = match read_u32_le(bytes, 0x60) {
        Some(c) => c as usize,
        None => 0,
    };
    if start < 84 || start >= bytes.len() || count == 0 {
        return out;
    }
    let size = layout.trace_chain_entry_size;
    let n = if count < 64 {
        count
    } else {
        64
    };
    let compact = match version {
        Some(v) => v == 30 || v == 31,
        None => true,
    };
    let mut idx: usize = 0;
    while idx < n
        invariant
            idx <= n <= 64,
            start < bytes.len(),
            compact == compact_chains(version),
            trace_chains(bytes@, version, size as int) == out@.map_values(
                |e: PrefetchTraceChainEntry| chain_view(e),
            ) + chains_from(bytes@, compact, start as int, size as int, idx as int, n as int),
        ensures
            trace_chains(bytes@, version, size as int) == out@.map_values(
                |e: PrefetchTraceChainEntry| chain_view(e),
            ) + chains_from(bytes@, compact, start as int, size as int, idx as int, n as int),
            chains_from(bytes@, compact, start as int, size as int, idx as int, n as int) =~= Seq::empty(),
        decreases n - idx,
    {
        let room = bytes.len() - start;
        let fits_entry = match idx.checked_mul(size) {
            Some(a) => a <= room && size <= room - a,
            None => false,
        };
        proof {
            if idx * size > usize::MAX {
                assert(idx * size >= 0);
            }
        }
        if !fits_entry {
            assert(start + idx * size + size > bytes.len()) by (nonlinear_arith)
                requires
                    !fits_entry,
                    fits_entry == (idx * size <= usize::MAX && idx * size <= room && size <= room - idx * size),
                    room == bytes.len() - start,
                    idx * size >= 0,
                    size >= 0,
            ;
            break;
        }
        let off = start + idx * size;
        let ghost prev = out@.map_values(|e: PrefetchTraceChainEntry| chain_view(e));
        let e = chain_exec(bytes, compact, idx, off, size);
        out.push(e);
        assert(out@.map_values(|e: PrefetchTraceChainEntry| chain_view(e)) =~= prev.push(chain_view(e)));
        assert(prev.push(chain_view(e)) + chains_from(bytes@, compact, start as int, size as int, idx + 1, n as int)
            =~= prev + chains_from(bytes@, compact, start as int, size as int, idx as int, n as int));
        idx = idx + 1;
    }
    assert(out@.map_values(|e: PrefetchTraceChainEntry| chain_view(e)) + Seq::empty() =~= out@.map_values(
        |e: PrefetchTraceChainEntry| chain_view(e),
    ));
    out
}

// ---------------------------------------------------------------------------
// The whole structure
// ---------------------------------------------------------------------------
/// What the header and sections of a decompressed Prefetch file say.
#[derive(Debug, Clone)]
pub struct PrefetchStructure {
    pub version_family: &'static str,
    pub file_size_header: Option<u32>,
    pub executable_name_header: Option<String>,
    pub sections: Vec<PrefetchSectionSummary>,
    pub volume_strings: Vec<String>,
    pub file_metrics: Vec<PrefetchFileMetricEntry>,
    pub file_metrics_count: u32,
    pub trace_chains: Vec<PrefetchTraceChainEntry>,
    pub trace_chain_count: u32,
    pub run_count: Option<u32>,
    pub run_count_offset: Option<usize>,
    pub run_time_entries: Vec<PrefetchRunTimeEntry>,
}

/// The file size the header gives at 0x0c, when it is at least 84 and at most
/// 4 KiB beyond the data.
pub open spec fn header_file_size(b: Seq<u8>) -> Option<u32> {
    match u32_at(b, 0x0c) {
        Some(v) => if v >= 84 && v <= (if b.len() + 4096 > usize::MAX {
            usize::MAX as int
        } else {
            b.len() + 4096int
        }) {
            Some(v)
        } else {
            None
        },
        None => None,
    }
}

/// The first section named `volumes`.
pub open spec fn volumes_section(t: Seq<(Seq<char>, int, int, Option<u32>, Seq<char>)>, i: int) -> Option<
    (int, int),
>
    decreases t.len() - i,
{
    if i < 0 || i >= t.len() {
        None
    } else if t[i].0 == "volumes"@ {
        Some((t[i].1, t[i].2))
    } else {
        volumes_section(t, i + 1)
    }
}

/// The volume strings of the volumes section, when there is one.
pub open spec fn section_volume_strings(b: Seq<u8>, t: Seq<(Seq<char>, int, int, Option<u32>, Seq<char>)>) -> Seq<
    Seq<char>,
> {
    match volumes_section(t, 0) {
        Some((off, len)) => {
            let end = if off + len < b.len() {
                off + len
            } else {
                b.len() as int
            };
            if 0 <= off <= end {
                volume_strings_from(run_texts(utf16_runs(b.subrange(off, end))), 0, Seq::empty())
            } else {
                Seq::empty()
            }
        },
        None => Seq::empty(),
    }
}

fn section_volume_strings_exec(bytes: &[u8], sections: &Vec<PrefetchSectionSummary>) -> (r: Vec<String>)
    ensures
        string_views(r@) == section_volume_strings(bytes@, section_views(sections@)),
{
    let ghost t = section_views(sections@);
    let mut i: usize = 0;
    while i < sections.len()
        invariant
            i <= sections.len(),
            t == section_views(sections@),
            volumes_section(t, 0) == volumes_section(t, i as int),
        decreases sections.len() - i,
    {
        let sec = sections[i];
        assert(t[i as int] == section_view(sec));
        if eq_str(chars_of(sec.name).as_slice(), "volumes") {
            let start = sec.offset;
            let end = if sec.length < bytes.len() && start < bytes.len() - sec.length {
                start + sec.length
            } else {
                bytes.len()
            };
            if start <= end {
                let part = slice_bytes(bytes, start, end);
                return extract_prefetch_volume_strings(part.as_slice());
            } else {
                let v: Vec<String> = Vec::new();
                assert(string_views(v@) =~= Seq::<Seq<char>>::empty());
                return v;
            }
        }
        i = i + 1;
    }
    let v: Vec<String> = Vec::new();
    assert(string_views(v@) =~= Seq::<Seq<char>>::empty());
    v
}

/// What the structure read from `b` for a format `version` holds: the layout's
/// family, the header fields, the sections in order of offset with their lengths
/// filled, the volume strings, file metrics and trace chains, the run count, and
/// the run times newest first.
pub open spec fn prefetch_structure_of(b: Seq<u8>, version: Option<u32>, r: PrefetchStructure) -> bool {
    let layout = layout_of(version);
    let sections = filled_sections(
        sorted_by_offset(section_candidates(b, layout.1, layout.2)),
        b.len() as int,
    );
    let found = run_times_from(b, layout.4, 0, Seq::empty());
    let got = r.run_time_entries@.map_values(|e: PrefetchRunTimeEntry| entry_pair(e));
    &&& r.version_family@ == layout.0
    &&& r.file_size_header == header_file_size(b)
    &&& opt_view(r.executable_name_header) == header_executable_name(b)
    &&& section_views(r.sections@) == sections
    &&& string_views(r.volume_strings@) == section_volume_strings(b, sections)
    &&& r.file_metrics@.map_values(|e: PrefetchFileMetricEntry| metric_view(e)) == file_metrics(
        b,
        version,
        layout.1,
    )
    &&& r.file_metrics_count == (match u32_at(b, 0x58) {
        Some(c) => c,
        None => 0,
    })
    &&& r.trace_chains@.map_values(|e: PrefetchTraceChainEntry| chain_view(e)) == trace_chains(
        b,
        version,
        layout.2,
    )
    &&& r.trace_chain_count == (match u32_at(b, 0x60) {
        Some(c) => c,
        None => 0,
    })
    &&& (match run_count_from(b, layout.3, 0) {
        Some((v, o)) => r.run_count == Some(v as u32) && r.run_count_offset == Some(o as usize),
        None => r.run_count is None && r.run_count_offset is None,
    })
    &&& got.len() == found.len()
    &&& got.to_set() == found.to_set()
    &&& newest_first(got)
    &&& forall|k: int| 0 <= k < r.run_time_entries@.len() ==> #[trigger] r.run_time_entries@[k].execution_index == k
}

pub fn parse_prefetch_structure(bytes: &[u8], version: Option<u32>) -> (r: PrefetchStructure)
    ensures
        prefetch_structure_of(bytes@, version, r),
{
    let layout = prefetch_layout(version);
    let limit = if bytes.len() > usize::MAX - 4096 {
        usize::MAX
    } else {
        bytes.len() + 4096
    };
    let file_size_header = match read_u32_le(bytes, 0x0c) {
        Some(v) => if v >= 84 && (v as usize) <= limit {
            Some(v)
        } else {
            None
        },
        None => None,
    };
    let executable_name_header = prefetch_header_executable_name(bytes);
    let candidates = prefetch_section_candidates(bytes, &layout);
    let mut sections = sort_sections_by_offset(candidates);
    fill_section_lengths(&mut sections, bytes.len());
    let volume_strings = section_volume_strings_exec(bytes, &sections);
    let (run_count, run_count_offset) = match prefetch_run_count_with_offset(bytes, &layout) {
        Some((v, o)) => (Some(v), Some(o)),
        None => (None, None),
    };
    let run_time_entries = prefetch_run_time_entries(bytes, &layout);
    let file_metrics = parse_prefetch_file_metrics(bytes, version, &layout);
    let file_metrics_count = match read_u32_le(bytes, 0x58) {
        Some(c) => c,
        None => 0,
    };
    let trace_chains = parse_prefetch_trace_chains(bytes, version, &layout);
    let trace_chain_count = match read_u32_le(bytes, 0x60) {
        Some(c) => c,
        None => 0,
    };
    PrefetchStructure {
        version_family: layout.family,
        file_size_header,
        executable_name_header,
        sections,
        volume_strings,
        file_metrics,
        file_metrics_count,
        trace_chains,
        trace_chain_count,
        run_count,
        run_count_offset,
        run_time_entries,
    }
}

} // verus!
