//! Windows shortcut (`.lnk`) files: the header, the link target ID list, the
//! link info with its volume and network share, the string data, and the extra
//! data blocks with their tracker and property store, read into plain values.
use vstd::prelude::*;
use crate::binary::{fits, le32, read_u16_le, read_u32_le, u16_at, u32_at};
use crate::datetime::{is_plausible_forensic_time, plausible_forensic_time};
use crate::decode::{filetime_text, hex_of, lnk_hex, opt_view, read_filetime_rfc3339};
use crate::extract::{exec_name, looks_like_path, looks_like_url, is_executable_name, path_text, url_text};
use crate::lnk::{
    ascii_at, candidate_views, counted_string, extra_block_name, guid_records_from, guid_texts,
    guid_values_from, join_target, lnk_extra_data_signature_name, lnk_guid_candidate_records,
    lnk_guid_candidates, lnk_join_target, lnk_machine_id_hint, lnk_property_id_near,
    lnk_property_key, lnk_property_text_candidates, lnk_property_value_hint, machine_from,
    property_candidates, property_id_near, property_key, read_lnk_ascii_at, read_lnk_counted_string,
    read_lnk_utf16_at, utf16_at, value_hint_from, LnkTextCandidate,
};
use crate::mft::slice_bytes;
use crate::strings::{
    all_strings, clean_string, display_text, extract_interesting_strings, interesting_from,
    string_views,
};
use crate::text::{chars_of, eq_str, starts_with, string_from, utf8_len, utf8_len_of};

verus! {

// ---------------------------------------------------------------------------
// Property store entries
// ---------------------------------------------------------------------------
/// A property named in a property store block, with a hint of its value.
#[derive(Debug, Clone)]
pub struct LnkPropertyStoreEntry {
    pub key: String,
    pub value_hint: Option<String>,
    pub format_id: Option<String>,
    pub property_id: Option<u32>,
    pub value_offset: Option<usize>,
    pub value_length: Option<usize>,
}

pub open spec fn entry_view(e: LnkPropertyStoreEntry) -> (
    Seq<char>,
    Option<Seq<char>>,
    Option<Seq<char>>,
    Option<u32>,
    Option<usize>,
    Option<usize>,
) {
    (e.key@, opt_view(e.value_hint), opt_view(e.format_id), e.property_id, e.value_offset, e.value_length)
}

pub open spec fn entry_views(v: Seq<LnkPropertyStoreEntry>) -> Seq<
    (Seq<char>, Option<Seq<char>>, Option<Seq<char>>, Option<u32>, Option<usize>, Option<usize>),
> {
    v.map_values(|e: LnkPropertyStoreEntry| entry_view(e))
}

/// `x` placed after every candidate whose offset is at most its own.
pub open spec fn insert_candidate(t: Seq<(int, Seq<char>, Seq<char>)>, x: (int, Seq<char>, Seq<char>)) -> Seq<
    (int, Seq<char>, Seq<char>),
>
    decreases t.len(),
{
    if t.len() == 0 {
        seq![x]
    } else if t.last().0 <= x.0 {
        t.push(x)
    } else {
        insert_candidate(t.drop_last(), x).push(t.last())
    }
}

/// Candidates ordered by offset; equal offsets keep their order.
pub open spec fn candidates_by_offset(s: Seq<(int, Seq<char>, Seq<char>)>) -> Seq<(int, Seq<char>, Seq<char>)>
    decreases s.len(),
{
    if s.len() == 0 {
        Seq::empty()
    } else {
        insert_candidate(candidates_by_offset(s.drop_last()), s.last())
    }
}

fn clone_candidate(c: &LnkTextCandidate) -> (r: LnkTextCandidate)
    ensures
        candidate_views(seq![r]) == candidate_views(seq![*c]),
{
    let r = LnkTextCandidate { offset: c.offset, value: c.value.clone(), encoding: c.encoding };
    assert(candidate_views(seq![r]) =~= candidate_views(seq![*c]));
    r
}

fn insert_candidate_exec(out: &mut Vec<LnkTextCandidate>, x: LnkTextCandidate)
    ensures
        candidate_views(final(out)@) == insert_candidate(candidate_views(old(out)@), candidate_views(seq![x])[0]),
{
    let ghost t = candidate_views(out@);
    let ghost xv = candidate_views(seq![x])[0];
    let mut p: usize = out.len();
    assert(t.take(p as int) =~= t);
    assert(t.skip(p as int) =~= Seq::empty());
    assert(t + Seq::empty() =~= t);
    while p > 0 && out[p - 1].offset > x.offset
        invariant
            p <= out.len(),
            t == candidate_views(out@),
            xv == candidate_views(seq![x])[0],
            xv.0 == x.offset,
            insert_candidate(t, xv) == insert_candidate(t.take(p as int), xv) + t.skip(p as int),
        decreases p,
    {
        let ghost tp = t.take(p as int);
        assert(tp.last() == t[p - 1]);
        assert(tp.drop_last() =~= t.take(p - 1));
        assert(t.skip(p - 1) =~= seq![t[p - 1]] + t.skip(p as int));
        assert(insert_candidate(t.take(p - 1), xv).push(t[p - 1]) + t.skip(p as int) =~= insert_candidate(
            t.take(p - 1),
            xv,
        ) + t.skip(p - 1));
        p = p - 1;
    }
    proof {
        let tp = t.take(p as int);
        if p > 0 {
            assert(tp.last() == t[p - 1]);
            assert(insert_candidate(tp, xv) == tp.push(xv));
        } else {
            assert(tp.len() == 0);
        }
    }
    out.insert(p, x);
    assert(candidate_views(out@) =~= t.take(p as int).push(xv) + t.skip(p as int));
}

fn sort_candidates(cs: &Vec<LnkTextCandidate>) -> (r: Vec<LnkTextCandidate>)
    ensures
        candidate_views(r@) == candidates_by_offset(candidate_views(cs@)),
{
    let ghost s = candidate_views(cs@);
    let mut out: Vec<LnkTextCandidate> = Vec::new();
    let mut i: usize = 0;
    assert(candidate_views(out@) =~= candidates_by_offset(s.take(0)));
    while i < cs.len()
        invariant
            i <= cs.len(),
            s == candidate_views(cs@),
            candidate_views(out@) == candidates_by_offset(s.take(i as int)),
        decreases cs.len() - i,
    {
        assert(s.take(i + 1).drop_last() =~= s.take(i as int));
        assert(s.take(i + 1).last() == s[i as int]);
        let c = clone_candidate(&cs[i]);
        assert(candidate_views(seq![cs@[i as int]])[0] == s[i as int]);
        insert_candidate_exec(&mut out, c);
        i = i + 1;
    }
    assert(s.take(cs.len() as int) =~= s);
    out
}

/// The key of a candidate: a property name it contains, else a generic key when
/// it is a path, URL or executable name.
pub open spec fn entry_key(value: Seq<char>) -> Option<Seq<char>> {
    match property_key(value) {
        Some(k) => Some(k),
        None => if path_text(value) || url_text(value) || exec_name(value) {
            Some("lnk.property.value"@)
        } else {
            None
        },
    }
}

/// The first GUID of a block, taken as the format id of its properties.
pub open spec fn first_guid(block: Seq<u8>) -> Option<Seq<char>> {
    let rs = guid_records_from(block, 8, Seq::empty());
    if rs.len() > 0 {
        Some(rs[0].1)
    } else {
        None
    }
}

/// The entry of candidate `i`.
pub open spec fn entry_at(block: Seq<u8>, abs: int, cs: Seq<(int, Seq<char>, Seq<char>)>, i: int) -> (
    Seq<char>,
    Option<Seq<char>>,
    Option<Seq<char>>,
    Option<u32>,
    Option<usize>,
    Option<usize>,
) {
    let c = cs[i];
    (
        entry_key(c.1).unwrap(),
        value_hint_from(cs, i + 1),
        first_guid(block),
        match property_id_near(block, c.0) {
            Some(p) => Some(p as u32),
            None => None,
        },
        Some(if abs + c.0 > usize::MAX {
            (abs + c.0 - usize::MAX - 1) as usize
        } else {
            (abs + c.0) as usize
        }),
        Some((utf8_len(c.1) * if c.2 == "utf16le"@ {
            2int
        } else {
            1int
        }) as usize),
    )
}

/// The entries of candidates `i..`, after `acc`, at most 24.
pub open spec fn entries_from(
    block: Seq<u8>,
    abs: int,
    cs: Seq<(int, Seq<char>, Seq<char>)>,
    i: int,
    acc: Seq<(Seq<char>, Option<Seq<char>>, Option<Seq<char>>, Option<u32>, Option<usize>, Option<usize>)>,
) -> Seq<(Seq<char>, Option<Seq<char>>, Option<Seq<char>>, Option<u32>, Option<usize>, Option<usize>)>
    decreases cs.len() - i,
{
    if i < 0 || i >= cs.len() {
        acc
    } else if entry_key(cs[i].1) is None {
        entries_from(block, abs, cs, i + 1, acc)
    } else if acc.len() + 1 >= 24 {
        acc.push(entry_at(block, abs, cs, i))
    } else {
        entries_from(block, abs, cs, i + 1, acc.push(entry_at(block, abs, cs, i)))
    }
}

/// The properties of a property store block at `abs` in its file.
pub open spec fn property_entries(block: Seq<u8>, abs: int) -> Seq<
    (Seq<char>, Option<Seq<char>>, Option<Seq<char>>, Option<u32>, Option<usize>, Option<usize>),
> {
    entries_from(block, abs, candidates_by_offset(property_candidates(block)), 0, Seq::empty())
}

fn entry_key_exec(value: &String) -> (r: Option<String>)
    ensures
        opt_view(r) == entry_key(value@),
{
    match lnk_property_key(value.as_str()) {
        Some(k) => Some(k),
        None => if looks_like_path(value.as_str()) || looks_like_url(value.as_str())
            || is_executable_name(value.as_str()) {
            Some(crate::text::string_of("lnk.property.value"))
        } else {
            None
        },
    }
}

fn entry_exec(
    block: &[u8],
    abs: usize,
    cands: &Vec<LnkTextCandidate>,
    i: usize,
    key: String,
    guid: &Option<String>,
) -> (r: LnkPropertyStoreEntry)
    requires
        i < cands.len(),
        entry_key(cands@[i as int].value@) == Some(key@),
        opt_view(*guid) == first_guid(block@),
    ensures
        entry_view(r) == entry_at(block@, abs as int, candidate_views(cands@), i as int),
{
    let ghost cs = candidate_views(cands@);
    assert(cs[i as int] == (cands@[i as int].offset as int, cands@[i as int].value@, cands@[i as int].encoding@));
    let c = &cands[i];
    let hint = lnk_property_value_hint(cands.as_slice(), i);
    let pid = lnk_property_id_near(block, c.offset);
    let vc = chars_of(c.value.as_str());
    let n = utf8_len_of(vc.as_slice());
    let mult: u128 = if eq_str(chars_of(c.encoding).as_slice(), "utf16le") {
        2
    } else {
        1
    };
    proof {
        crate::text::lemma_utf8_len_bound(vc@);
    }
    assert(n <= 4 * usize::MAX);
    let len_u128: u128 = n * mult;
    let value_length = #[verifier::truncate] (len_u128 as usize);
    LnkPropertyStoreEntry {
        key,
        value_hint: hint,
        format_id: guid.clone(),
        property_id: pid,
        value_offset: Some(abs.wrapping_add(c.offset)),
        value_length: Some(value_length),
    }
}

pub fn parse_lnk_property_store_entries(block: &[u8], absolute_block_offset: usize) -> (r: Vec<
    LnkPropertyStoreEntry,
>)
    ensures
        entry_views(r@) == property_entries(block@, absolute_block_offset as int),
{
    let records = lnk_guid_candidate_records(block);
    let guid = if records.len() > 0 {
        assert(crate::strings::run_views(records@)[0] == (records@[0].0 as int, records@[0].1@));
        Some(records[0].1.clone())
    } else {
        None
    };
    let raw = lnk_property_text_candidates(block);
    let cands = sort_candidates(&raw);
    let ghost cs = candidate_views(cands@);
    let mut entries: Vec<LnkPropertyStoreEntry> = Vec::new();
    assert(entry_views(entries@) =~= Seq::empty());
    let mut i: usize = 0;
    while i < cands.len()
        invariant
            i <= cands.len(),
            cs == candidate_views(cands@),
            cs == candidates_by_offset(property_candidates(block@)),
            opt_view(guid) == first_guid(block@),
            property_entries(block@, absolute_block_offset as int) == entries_from(
                block@,
                absolute_block_offset as int,
                cs,
                i as int,
                entry_views(entries@),
            ),
        decreases cands.len() - i,
    {
        assert(cs[i as int].1 == cands@[i as int].value@);
        match entry_key_exec(&cands[i].value) {
            None => {},
            Some(key) => {
                let e = entry_exec(block, absolute_block_offset, &cands, i, key, &guid);
                let ghost prev = entry_views(entries@);
                entries.push(e);
                assert(entry_views(entries@) =~= prev.push(entry_view(e)));
                if entries.len() >= 24 {
                    return entries;
                }
            },
        }
        i = i + 1;
    }
    entries
}

// ---------------------------------------------------------------------------
// Extra data blocks
// ---------------------------------------------------------------------------
/// An extra data block: its signature and name, where it lies, its strings, and
/// for a property store its GUIDs and properties.
#[derive(Debug, Clone)]
pub struct LnkExtraDataBlockSummary {
    pub signature: u32,
    pub signature_name: &'static str,
    pub offset: usize,
    pub length: usize,
    pub strings: Vec<String>,
    pub guid_candidates: Vec<String>,
    pub property_entries: Vec<LnkPropertyStoreEntry>,
}

pub struct BlockModel {
    pub signature: u32,
    pub signature_name: Seq<char>,
    pub offset: int,
    pub length: int,
    pub strings: Seq<Seq<char>>,
    pub guid_candidates: Seq<Seq<char>>,
    pub property_entries: Seq<(Seq<char>, Option<Seq<char>>, Option<Seq<char>>, Option<u32>, Option<usize>, Option<usize>)>,
}

pub open spec fn block_view(b: LnkExtraDataBlockSummary) -> BlockModel {
    BlockModel {
        signature: b.signature,
        signature_name: b.signature_name@,
        offset: b.offset as int,
        length: b.length as int,
        strings: string_views(b.strings@),
        guid_candidates: string_views(b.guid_candidates@),
        property_entries: entry_views(b.property_entries@),
    }
}

pub open spec fn block_views(v: Seq<LnkExtraDataBlockSummary>) -> Seq<BlockModel> {
    v.map_values(|b: LnkExtraDataBlockSummary| block_view(b))
}

/// The summary of the block of `size` bytes at `off`.
pub open spec fn block_summary(b: Seq<u8>, off: int, size: int, sig: u32) -> BlockModel {
    let block = b.subrange(off, off + size);
    BlockModel {
        signature: sig,
        signature_name: extra_block_name(sig),
        offset: off,
        length: size,
        strings: interesting_from(all_strings(block), 0, Seq::empty(), 12),
        guid_candidates: if sig == 0xa0000009u32 {
            guid_values_from(guid_texts(guid_records_from(block, 8, Seq::empty())), 0, Seq::empty())
        } else {
            Seq::empty()
        },
        property_entries: if sig == 0xa0000009u32 {
            property_entries(block, off)
        } else {
            Seq::empty()
        },
    }
}

pub fn parse_lnk_extra_data_block_summary(bytes: &[u8], offset: usize, block_size: usize, signature: u32) -> (r: LnkExtraDataBlockSummary)
    requires
        offset + block_size <= bytes@.len(),
    ensures
        block_view(r) == block_summary(bytes@, offset as int, block_size as int, signature),
{
    assert(bytes@.len() == bytes.len());
    let block = slice_bytes(bytes, offset, offset + block_size);
    let strings = extract_interesting_strings(block.as_slice(), 12);
    let store = signature == 0xa0000009;
    let guid_candidates = if store {
        lnk_guid_candidates(block.as_slice())
    } else {
        let v: Vec<String> = Vec::new();
        assert(string_views(v@) =~= Seq::empty());
        v
    };
    let property_entries = if store {
        parse_lnk_property_store_entries(block.as_slice(), offset)
    } else {
        let v: Vec<LnkPropertyStoreEntry> = Vec::new();
        assert(entry_views(v@) =~= Seq::empty());
        v
    };
    LnkExtraDataBlockSummary {
        signature,
        signature_name: lnk_extra_data_signature_name(signature),
        offset,
        length: block_size,
        strings,
        guid_candidates,
        property_entries,
    }
}

// ---------------------------------------------------------------------------
// Metadata
// ---------------------------------------------------------------------------
/// What a shortcut file says of its target and of the machine it was made on.
#[derive(Debug, Clone)]
pub struct LnkMetadata {
    pub header_valid: bool,
    pub link_flags: Option<u32>,
    pub file_size: Option<u32>,
    pub created_at: Option<String>,
    pub accessed_at: Option<String>,
    pub modified_at: Option<String>,
    pub target_path: Option<String>,
    pub local_base_path: Option<String>,
    pub common_path_suffix: Option<String>,
    pub relative_path: Option<String>,
    pub working_dir: Option<String>,
    pub arguments: Option<String>,
    pub drive_serial: Option<String>,
    pub volume_label: Option<String>,
    pub network_share_path: Option<String>,
    pub network_device_name: Option<String>,
    pub network_provider_type: Option<u32>,
    pub machine_id_hint: Option<String>,
    pub tracker_machine_id: Option<String>,
    pub tracker_droid: Option<String>,
    pub tracker_droid_birth: Option<String>,
    pub extra_data_blocks: Vec<LnkExtraDataBlockSummary>,
}

/// The metadata as plain values.
pub struct LnkModel {
    pub header_valid: bool,
    pub link_flags: Option<u32>,
    pub file_size: Option<u32>,
    pub created_at: Option<Seq<char>>,
    pub accessed_at: Option<Seq<char>>,
    pub modified_at: Option<Seq<char>>,
    pub target_path: Option<Seq<char>>,
    pub local_base_path: Option<Seq<char>>,
    pub common_path_suffix: Option<Seq<char>>,
    pub relative_path: Option<Seq<char>>,
    pub working_dir: Option<Seq<char>>,
    pub arguments: Option<Seq<char>>,
    pub drive_serial: Option<Seq<char>>,
    pub volume_label: Option<Seq<char>>,
    pub network_share_path: Option<Seq<char>>,
    pub network_device_name: Option<Seq<char>>,
    pub network_provider_type: Option<u32>,
    pub machine_id_hint: Option<Seq<char>>,
    pub tracker_machine_id: Option<Seq<char>>,
    pub tracker_droid: Option<Seq<char>>,
    pub tracker_droid_birth: Option<Seq<char>>,
    pub extra_data_blocks: Seq<BlockModel>,
}

impl View for LnkMetadata {
    type V = LnkModel;

    open spec fn view(&self) -> LnkModel {
        LnkModel {
            header_valid: self.header_valid,
            link_flags: self.link_flags,
            file_size: self.file_size,
            created_at: opt_view(self.created_at),
            accessed_at: opt_view(self.accessed_at),
            modified_at: opt_view(self.modified_at),
            target_path: opt_view(self.target_path),
            local_base_path: opt_view(self.local_base_path),
            common_path_suffix: opt_view(self.common_path_suffix),
            relative_path: opt_view(self.relative_path),
            working_dir: opt_view(self.working_dir),
            arguments: opt_view(self.arguments),
            drive_serial: opt_view(self.drive_serial),
            volume_label: opt_view(self.volume_label),
            network_share_path: opt_view(self.network_share_path),
            network_device_name: opt_view(self.network_device_name),
            network_provider_type: self.network_provider_type,
            machine_id_hint: opt_view(self.machine_id_hint),
            tracker_machine_id: opt_view(self.tracker_machine_id),
            tracker_droid: opt_view(self.tracker_droid),
            tracker_droid_birth: opt_view(self.tracker_droid_birth),
            extra_data_blocks: block_views(self.extra_data_blocks@),
        }
    }
}

pub open spec fn empty_model() -> LnkModel {
    LnkModel {
        header_valid: false,
        link_flags: None,
        file_size: None,
        created_at: None,
        accessed_at: None,
        modified_at: None,
        target_path: None,
        local_base_path: None,
        common_path_suffix: None,
        relative_path: None,
        working_dir: None,
        arguments: None,
        drive_serial: None,
        volume_label: None,
        network_share_path: None,
        network_device_name: None,
        network_provider_type: None,
        machine_id_hint: None,
        tracker_machine_id: None,
        tracker_droid: None,
        tracker_droid_birth: None,
        extra_data_blocks: Seq::empty(),
    }
}

pub fn empty_lnk_metadata() -> (r: LnkMetadata)
    ensures
        r@ == empty_model(),
{
    let r = LnkMetadata {
        header_valid: false,
        link_flags: None,
        file_size: None,
        created_at: None,
        accessed_at: None,
        modified_at: None,
        target_path: None,
        local_base_path: None,
        common_path_suffix: None,
        relative_path: None,
        working_dir: None,
        arguments: None,
        drive_serial: None,
        volume_label: None,
        network_share_path: None,
        network_device_name: None,
        network_provider_type: None,
        machine_id_hint: None,
        tracker_machine_id: None,
        tracker_droid: None,
        tracker_droid_birth: None,
        extra_data_blocks: Vec::new(),
    };
    assert(block_views(r.extra_data_blocks@) =~= Seq::empty());
    r
}

pub open spec fn u32_or_zero(b: Seq<u8>, o: int) -> int {
    match u32_at(b, o) {
        Some(v) => v as int,
        None => 0,
    }
}

fn u32_or_zero_exec(bytes: &[u8], off: usize, k: usize) -> (r: usize)
    ensures
        r == u32_or_zero(bytes@, off + k),
{
    if k > usize::MAX - off {
        assert(bytes@.len() == bytes.len());
        return 0;
    }
    match read_u32_le(bytes, off + k) {
        Some(v) => v as usize,
        None => 0,
    }
}

/// The volume id at `off`: the drive serial number in hexadecimal when not zero,
/// and the volume label.
pub open spec fn volume_step(b: Seq<u8>, off: int, end: int, m: LnkModel) -> LnkModel {
    if off + 0x10 > end {
        m
    } else {
        let m1 = match u32_at(b, off + 8) {
            Some(s) => if s != 0 {
                LnkModel { drive_serial: Some(crate::usn::hex_digits(s as nat, 8)), ..m }
            } else {
                m
            },
            None => m,
        };
        match ascii_at(b, off, u32_or_zero(b, off + 0x0c), end) {
            Some(l) => LnkModel { volume_label: Some(l), ..m1 },
            None => m1,
        }
    }
}

pub fn parse_lnk_volume_id(bytes: &[u8], offset: usize, end: usize, out: &mut LnkMetadata)
    ensures
        final(out)@ == volume_step(bytes@, offset as int, end as int, old(out)@),
{
    if offset > end || end - offset < 0x10 {
        return;
    }
    match read_u32_le(bytes, offset + 8) {
        Some(serial) => if serial != 0 {
            let h = crate::usn::hex8(serial);
            out.drive_serial = Some(string_from(h.as_slice()));
        },
        None => {},
    }
    let label_offset = u32_or_zero_exec(bytes, offset, 0x0c);
    if let Some(label) = read_lnk_ascii_at(bytes, offset, label_offset, end) {
        out.volume_label = Some(label);
    }
}

/// The common network relative link at `off`: the provider type, the share and
/// the device, in Unicode when the block is large enough to hold it.
pub open spec fn network_step(b: Seq<u8>, off: int, end: int, m: LnkModel) -> LnkModel {
    if off + 0x14 > end {
        m
    } else {
        let size = u32_or_zero(b, off);
        if size < 0x14 || off + size > end {
            m
        } else {
            let be = off + size;
            let m1 = LnkModel {
                network_provider_type: match u32_at(b, off + 0x10) {
                    Some(v) => if v != 0 {
                        Some(v)
                    } else {
                        None
                    },
                    None => None,
                },
                ..m
            };
            let m2 = match ascii_at(b, off, u32_or_zero(b, off + 0x08), be) {
                Some(v) => LnkModel { network_share_path: Some(v), ..m1 },
                None => m1,
            };
            let m3 = match ascii_at(b, off, u32_or_zero(b, off + 0x0c), be) {
                Some(v) => LnkModel { network_device_name: Some(v), ..m2 },
                None => m2,
            };
            if size >= 0x1c {
                let m4 = match utf16_at(b, off, u32_or_zero(b, off + 0x14), be) {
                    Some(v) => LnkModel { network_share_path: Some(v), ..m3 },
                    None => m3,
                };
                match utf16_at(b, off, u32_or_zero(b, off + 0x18), be) {
                    Some(v) => LnkModel { network_device_name: Some(v), ..m4 },
                    None => m4,
                }
            } else {
                m3
            }
        }
    }
}

pub fn parse_lnk_common_network_relative_link(bytes: &[u8], offset: usize, end: usize, out: &mut LnkMetadata)
    ensures
        final(out)@ == network_step(bytes@, offset as int, end as int, old(out)@),
{
    if offset > end || end - offset < 0x14 {
        return;
    }
    let size = u32_or_zero_exec(bytes, offset, 0);
    if size < 0x14 || size > end - offset {
        return;
    }
    let block_end = offset + size;
    let net_name_offset = u32_or_zero_exec(bytes, offset, 0x08);
    let device_name_offset = u32_or_zero_exec(bytes, offset, 0x0c);
    out.network_provider_type = match read_u32_le(bytes, offset + 0x10) {
        Some(v) => if v != 0 {
            Some(v)
        } else {
            None
        },
        None => None,
    };
    if let Some(value) = read_lnk_ascii_at(bytes, offset, net_name_offset, block_end) {
        out.network_share_path = Some(value);
    }
    if let Some(value) = read_lnk_ascii_at(bytes, offset, device_name_offset, block_end) {
        out.network_device_name = Some(value);
    }
    if size >= 0x1c {
        let net_unicode = u32_or_zero_exec(bytes, offset, 0x14);
        let device_unicode = u32_or_zero_exec(bytes, offset, 0x18);
        if let Some(value) = read_lnk_utf16_at(bytes, offset, net_unicode, block_end) {
            out.network_share_path = Some(value);
        }
        if let Some(value) = read_lnk_utf16_at(bytes, offset, device_unicode, block_end) {
            out.network_device_name = Some(value);
        }
    }
}

/// The link info at `off`, with its size: the local base path and volume when
/// flag 1 is set, the common path suffix, the network link when flag 2 is set,
/// and the Unicode paths when the header is large enough to hold their offsets.
pub open spec fn link_info_step(b: Seq<u8>, off: int, m: LnkModel) -> (LnkModel, Option<int>) {
    match u32_at(b, off) {
        None => (m, None),
        Some(size) => if size < 0x1c || off + size > b.len() {
            (m, None)
        } else {
            let end = off + size;
            let flags: u32 = match u32_at(b, off + 8) {
                Some(f) => f,
                None => 0,
            };
            let vo = u32_or_zero(b, off + 0x0c);
            let m1 = if flags & 1 != 0 {
                let ma = match ascii_at(b, off, u32_or_zero(b, off + 0x10), end) {
                    Some(v) => LnkModel { local_base_path: Some(v), ..m },
                    None => m,
                };
                if vo > 0 {
                    volume_step(b, off + vo, end, ma)
                } else {
                    ma
                }
            } else {
                m
            };
            let m2 = match ascii_at(b, off, u32_or_zero(b, off + 0x18), end) {
                Some(v) => LnkModel { common_path_suffix: Some(v), ..m1 },
                None => m1,
            };
            let no = u32_or_zero(b, off + 0x14);
            let m3 = if flags & 2 != 0 && no > 0 {
                network_step(b, off + no, end, m2)
            } else {
                m2
            };
            let m4 = if u32_or_zero(b, off + 4) >= 0x24 {
                let ma = match utf16_at(b, off, u32_or_zero(b, off + 0x1c), end) {
                    Some(v) => LnkModel { local_base_path: Some(v), ..m3 },
                    None => m3,
                };
                match utf16_at(b, off, u32_or_zero(b, off + 0x20), end) {
                    Some(v) => LnkModel { common_path_suffix: Some(v), ..ma },
                    None => ma,
                }
            } else {
                m3
            };
            (m4, Some(size as int))
        },
    }
}

pub fn parse_lnk_link_info(bytes: &[u8], offset: usize, out: &mut LnkMetadata) -> (r: Option<usize>)
    ensures
        (final(out)@, match r {
            Some(v) => Some(v as int),
            None => None,
        }) == link_info_step(bytes@, offset as int, old(out)@),
{
    let size = match read_u32_le(bytes, offset) {
        Some(v) => v as usize,
        None => {
            return None;
        },
    };
    if size < 0x1c || size > bytes.len() - offset {
        return None;
    }
    let end = offset + size;
    let header_size = u32_or_zero_exec(bytes, offset, 4);
    let flags: u32 = match read_u32_le(bytes, offset + 8) {
        Some(f) => f,
        None => 0,
    };
    let volume_offset = u32_or_zero_exec(bytes, offset, 0x0c);
    let local_base_offset = u32_or_zero_exec(bytes, offset, 0x10);
    let network_offset = u32_or_zero_exec(bytes, offset, 0x14);
    let suffix_offset = u32_or_zero_exec(bytes, offset, 0x18);
    if flags & 1 != 0 {
        if let Some(value) = read_lnk_ascii_at(bytes, offset, local_base_offset, end) {
            out.local_base_path = Some(value);
        }
        if volume_offset > 0 {
            if volume_offset <= usize::MAX - offset {
                parse_lnk_volume_id(bytes, offset + volume_offset, end, out);
            }
        }
    }
    if let Some(value) = read_lnk_ascii_at(bytes, offset, suffix_offset, end) {
        out.common_path_suffix = Some(value);
    }
    if flags & 2 != 0 && network_offset > 0 {
        if network_offset <= usize::MAX - offset {
            parse_lnk_common_network_relative_link(bytes, offset + network_offset, end, out);
        }
    }
    if header_size >= 0x24 {
        let local_unicode = u32_or_zero_exec(bytes, offset, 0x1c);
        let suffix_unicode = u32_or_zero_exec(bytes, offset, 0x20);
        if let Some(value) = read_lnk_utf16_at(bytes, offset, local_unicode, end) {
            out.local_base_path = Some(value);
        }
        if let Some(value) = read_lnk_utf16_at(bytes, offset, suffix_unicode, end) {
            out.common_path_suffix = Some(value);
        }
    }
    Some(size)
}

/// The string data field of slot `k`: name string, relative path, working
/// directory, arguments, icon location, present when its flag is set.
pub open spec fn string_flag(k: int) -> u32 {
    if k == 0 {
        0x4
    } else if k == 1 {
        0x8
    } else if k == 2 {
        0x10
    } else if k == 3 {
        0x20
    } else {
        0x40
    }
}

/// The string data from slot `k` on, read from `off`; reading stops at the first
/// string that cannot be read. The end offset comes with the result.
pub open spec fn string_data_from(b: Seq<u8>, off: int, flags: u32, m: LnkModel, k: int) -> (LnkModel, int)
    decreases 5 - k,
{
    if k < 0 || k >= 5 {
        (m, off)
    } else if flags & string_flag(k) == 0 {
        string_data_from(b, off, flags, m, k + 1)
    } else {
        match counted_string(b, off, flags & 0x80 != 0) {
            None => (m, off),
            Some((v, next)) => {
                let m1 = if k == 1 {
                    LnkModel { relative_path: Some(v), ..m }
                } else if k == 2 {
                    LnkModel { working_dir: Some(v), ..m }
                } else if k == 3 {
                    LnkModel { arguments: Some(v), ..m }
                } else {
                    m
                };
                string_data_from(b, next, flags, m1, k + 1)
            },
        }
    }
}

pub fn parse_lnk_string_data(bytes: &[u8], offset: usize, flags: u32, out: &mut LnkMetadata) -> (r: usize)
    ensures
        (final(out)@, r as int) == string_data_from(bytes@, offset as int, flags, old(out)@, 0),
{
    let is_unicode = flags & 0x80 != 0;
    let mut off = offset;
    let mut k: usize = 0;
    while k < 5
        invariant
            k <= 5,
            is_unicode == (flags & 0x80 != 0),
            string_data_from(bytes@, offset as int, flags, old(out)@, 0) == string_data_from(
                bytes@,
                off as int,
                flags,
                out@,
                k as int,
            ),
        decreases 5 - k,
    {
        let flag: u32 = if k == 0 {
            0x4
        } else if k == 1 {
            0x8
        } else if k == 2 {
            0x10
        } else if k == 3 {
            0x20
        } else {
            0x40
        };
        assert(flag == string_flag(k as int));
        if flags & flag != 0 {
            match read_lnk_counted_string(bytes, off, is_unicode) {
                None => {
                    return off;
                },
                Some((value, next)) => {
                    off = next;
                    if k == 1 {
                        out.relative_path = Some(value);
                    } else if k == 2 {
                        out.working_dir = Some(value);
                    } else if k == 3 {
                        out.arguments = Some(value);
                    }
                },
            }
        }
        k = k + 1;
    }
    off
}

/// The tracker block at `off`: the machine name (NULs and white space trimmed,
/// when not empty) and the two object ids in hexadecimal.
pub open spec fn tracker_step(b: Seq<u8>, off: int, size: int, m: LnkModel) -> LnkModel {
    if size < 0x60 || off + 0x60 > b.len() {
        m
    } else {
        let machine = clean_string(display_text(crate::external::utf8_lossy_text(b.subrange(off + 0x10, off + 0x20))));
        let m1 = if machine.len() > 0 {
            LnkModel { tracker_machine_id: Some(machine), ..m }
        } else {
            m
        };
        LnkModel {
            tracker_droid: Some(hex_of(b.subrange(off + 0x20, off + 0x40))),
            tracker_droid_birth: Some(hex_of(b.subrange(off + 0x40, off + 0x60))),
            ..m1
        }
    }
}

pub fn parse_lnk_tracker_data_block(bytes: &[u8], offset: usize, block_size: usize, out: &mut LnkMetadata)
    ensures
        final(out)@ == tracker_step(bytes@, offset as int, block_size as int, old(out)@),
{
    if block_size < 0x60 || offset > bytes.len() || bytes.len() - offset < 0x60 {
        return;
    }
    let raw = slice_bytes(bytes, offset + 0x10, offset + 0x20);
    let lossy = crate::external::utf8_lossy(raw.as_slice());
    let shown = crate::strings::sanitize_display_text(lossy.as_str());
    let nul = ['\0'];
    assert(nul@ =~= seq!['\0']);
    let a = crate::text::trim_set_chars(chars_of(shown.as_str()).as_slice(), &nul);
    let machine = crate::text::trim_chars(a.as_slice());
    if machine.len() > 0 {
        out.tracker_machine_id = Some(string_from(machine.as_slice()));
    }
    let droid = slice_bytes(bytes, offset + 0x20, offset + 0x40);
    out.tracker_droid = Some(lnk_hex(droid.as_slice()));
    let birth = slice_bytes(bytes, offset + 0x40, offset + 0x60);
    out.tracker_droid_birth = Some(lnk_hex(birth.as_slice()));
}

/// The extra data blocks from `off` on: each block starts with its size and
/// signature; the list ends at a size of zero or one that does not fit.
pub open spec fn extra_data_from(b: Seq<u8>, off: int, m: LnkModel) -> LnkModel
    decreases b.len() - off,
{
    if off < 0 || off + 8 > b.len() {
        m
    } else {
        let size = u32_or_zero(b, off);
        if size < 8 || off + size > b.len() {
            m
        } else {
            let sig: u32 = match u32_at(b, off + 4) {
                Some(v) => v,
                None => 0,
            };
            let m1 = LnkModel { extra_data_blocks: m.extra_data_blocks.push(block_summary(b, off, size, sig)), ..m };
            let m2 = if sig == 0xa0000003u32 {
                tracker_step(b, off, size, m1)
            } else {
                m1
            };
            extra_data_from(b, off + size, m2)
        }
    }
}

#[verifier::rlimit(30)]
pub fn parse_lnk_extra_data(bytes: &[u8], offset: usize, out: &mut LnkMetadata)
    ensures
        final(out)@ == extra_data_from(bytes@, offset as int, old(out)@),
{
    let mut off = offset;
    while off <= bytes.len() && bytes.len() - off >= 8
        invariant
            extra_data_from(bytes@, offset as int, old(out)@) == extra_data_from(bytes@, off as int, out@),
        ensures
            extra_data_from(bytes@, offset as int, old(out)@) == out@,
        decreases bytes.len() - off,
    {
        let block_size = u32_or_zero_exec(bytes, off, 0);
        if block_size < 8 || block_size > bytes.len() - off {
            break;
        }
        let signature: u32 = match read_u32_le(bytes, off + 4) {
            Some(v) => v,
            None => 0,
        };
        let summary = parse_lnk_extra_data_block_summary(bytes, off, block_size, signature);
        let ghost prev = out@;
        out.extra_data_blocks.push(summary);
        assert(block_views(out.extra_data_blocks@) =~= prev.extra_data_blocks.push(block_view(summary)));
        if signature == 0xa0000003 {
            parse_lnk_tracker_data_block(bytes, off, block_size, out);
        }
        off = off + block_size;
    }
}

/// An optional time kept when plausible.
pub open spec fn plausible_time(t: Option<Seq<char>>) -> Option<Seq<char>> {
    match t {
        Some(v) => if plausible_forensic_time(v) {
            Some(v)
        } else {
            None
        },
        None => None,
    }
}

pub open spec fn filetime_opt(b: Seq<u8>, o: int) -> Option<Seq<char>> {
    if fits(b, o, 8) {
        filetime_text(crate::binary::le64(b, o))
    } else {
        None
    }
}

pub open spec fn or_opt(a: Option<Seq<char>>, b: Option<Seq<char>>) -> Option<Seq<char>> {
    match a {
        Some(x) => Some(x),
        None => b,
    }
}

/// The metadata of a shortcut file: nothing unless its header is valid; else the
/// header fields and times, then the ID list skipped, the link info, the string
/// data and the extra data read in order; the machine from the tracker block or
/// a machine name among its strings; and the target path from the local or
/// network base path and suffix, the relative path or the local base path.
pub open spec fn lnk_metadata(b: Seq<u8>) -> LnkModel {
    if b.len() < 0x4c || u32_at(b, 0) != Some(0x4cu32) {
        empty_model()
    } else {
        let flags: u32 = match u32_at(b, 0x14) {
            Some(f) => f,
            None => 0,
        };
        let m0 = LnkModel {
            header_valid: true,
            link_flags: Some(flags),
            file_size: match u32_at(b, 0x34) {
                Some(v) => if v > 0 {
                    Some(v)
                } else {
                    None
                },
                None => None,
            },
            created_at: plausible_time(filetime_opt(b, 0x1c)),
            accessed_at: plausible_time(filetime_opt(b, 0x24)),
            modified_at: plausible_time(filetime_opt(b, 0x2c)),
            ..empty_model()
        };
        let off0: int = 0x4c;
        let off1: int = if flags & 1 != 0 {
            match u16_at(b, off0) {
                Some(n) => off0 + 2 + n,
                None => off0,
            }
        } else {
            off0
        };
        let (m1, off2) = if flags & 2 != 0 {
            let (mi, sz) = link_info_step(b, off1, m0);
            (
                mi,
                match sz {
                    Some(z) => off1 + z,
                    None => off1,
                },
            )
        } else {
            (m0, off1)
        };
        let (m2, off3) = string_data_from(b, off2, flags, m1, 0);
        let m3 = extra_data_from(b, off3, m2);
        let m4 = LnkModel {
            machine_id_hint: or_opt(m3.tracker_machine_id, machine_from(all_strings(b), 0)),
            ..m3
        };
        if m4.target_path is None {
            LnkModel {
                target_path: or_opt(
                    join_target(m4.local_base_path, m4.common_path_suffix),
                    or_opt(
                        join_target(m4.network_share_path, m4.common_path_suffix),
                        or_opt(m4.relative_path, m4.local_base_path),
                    ),
                ),
                ..m4
            }
        } else {
            m4
        }
    }
}

fn plausible_time_exec(t: Option<String>) -> (r: Option<String>)
    ensures
        opt_view(r) == plausible_time(opt_view(t)),
{
    match t {
        Some(v) => if is_plausible_forensic_time(v.as_str()) {
            Some(v)
        } else {
            None
        },
        None => None,
    }
}

fn or_clone(a: &Option<String>, b: &Option<String>) -> (r: Option<String>)
    ensures
        opt_view(r) == or_opt(opt_view(*a), opt_view(*b)),
{
    match a {
        Some(x) => Some(x.clone()),
        None => b.clone(),
    }
}

fn opt_str<'a>(o: &'a Option<String>) -> (r: Option<&'a str>)
    ensures
        crate::lnk::str_view(r) == opt_view(*o),
{
    match o {
        Some(s) => Some(s.as_str()),
        None => None,
    }
}

pub fn parse_lnk_metadata(bytes: &[u8]) -> (r: LnkMetadata)
    ensures
        r@ == lnk_metadata(bytes@),
{
    let mut out = empty_lnk_metadata();
    if bytes.len() < 0x4c || read_u32_le(bytes, 0) != Some(0x4cu32) {
        return out;
    }
    out.header_valid = true;
    let flags: u32 = match read_u32_le(bytes, 0x14) {
        Some(f) => f,
        None => 0,
    };
    out.link_flags = Some(flags);
    out.file_size = match read_u32_le(bytes, 0x34) {
        Some(v) => if v > 0 {
            Some(v)
        } else {
            None
        },
        None => None,
    };
    out.created_at = plausible_time_exec(read_filetime_rfc3339(bytes, 0x1c));
    out.accessed_at = plausible_time_exec(read_filetime_rfc3339(bytes, 0x24));
    out.modified_at = plausible_time_exec(read_filetime_rfc3339(bytes, 0x2c));
    let mut offset: usize = 0x4c;
    if flags & 1 != 0 {
        if let Some(n) = read_u16_le(bytes, offset) {
            offset = offset + 2 + n as usize;
        }
    }
    if flags & 2 != 0 {
        if let Some(size) = parse_lnk_link_info(bytes, offset, &mut out) {
            offset = offset + size;
        }
    }
    offset = parse_lnk_string_data(bytes, offset, flags, &mut out);
    parse_lnk_extra_data(bytes, offset, &mut out);
    let hint = match &out.tracker_machine_id {
        Some(t) => Some(t.clone()),
        None => lnk_machine_id_hint(bytes),
    };
    out.machine_id_hint = hint;
    if out.target_path.is_none() {
        let first = lnk_join_target(opt_str(&out.local_base_path), opt_str(&out.common_path_suffix));
        let second = lnk_join_target(opt_str(&out.network_share_path), opt_str(&out.common_path_suffix));
        let third = or_clone(&out.relative_path, &out.local_base_path);
        let t = match first {
            Some(x) => Some(x),
            None => match second {
                Some(x) => Some(x),
                None => third,
            },
        };
        out.target_path = t;
    }
    out
}


// ---------------------------------------------------------------------------
// Shortcut summary
// ---------------------------------------------------------------------------
/// What a shortcut file is reported as: its metadata, the strings sampled from
/// it, the target it points at, and the action, severity and message of the
/// shortcut and of its target.
#[derive(Debug, Clone)]
pub struct LnkSummary {
    pub metadata: LnkMetadata,
    pub strings: Vec<String>,
    pub target: Option<String>,
    pub process_name: Option<String>,
    /// When the shortcut was last modified, or else created.
    pub event_time: Option<String>,
    pub action: &'static str,
    pub severity: &'static str,
    pub message: String,
    /// The severity of the target reference, when there is a target.
    pub target_severity: Option<&'static str>,
}

/// The first string that looks like a path.
pub open spec fn first_path(ss: Seq<Seq<char>>) -> Option<Seq<char>>
    decreases ss.len(),
{
    if ss.len() == 0 {
        None
    } else if path_text(ss[0]) {
        Some(ss[0])
    } else {
        first_path(ss.drop_first())
    }
}

/// The target of a shortcut: the one its metadata names, else the first path
/// among its strings, else one guessed from the shortcut's own name.
pub open spec fn shortcut_target(path: Seq<char>, m: LnkModel, ss: Seq<Seq<char>>) -> Option<Seq<char>> {
    match m.target_path {
        Some(t) => Some(t),
        None => match first_path(ss) {
            Some(p) => Some(p),
            None => crate::classify::lnk_target(path),
        },
    }
}

fn first_path_of(strings: &[String]) -> (r: Option<String>)
    ensures
        opt_view(r) == first_path(string_views(strings@)),
{
    let ghost ss = string_views(strings@);
    let mut i: usize = 0;
    assert(ss.subrange(0, ss.len() as int) =~= ss);
    while i < strings.len()
        invariant
            i <= strings@.len(),
            ss == string_views(strings@),
            first_path(ss) == first_path(ss.subrange(i as int, ss.len() as int)),
        decreases strings@.len() - i,
    {
        let ghost rest = ss.subrange(i as int, ss.len() as int);
        assert(rest[0] == strings@[i as int]@);
        assert(rest.drop_first() =~= ss.subrange(i + 1, ss.len() as int));
        if looks_like_path(strings[i].as_str()) {
            return Some(strings[i].clone());
        }
        i = i + 1;
    }
    assert(ss.subrange(i as int, ss.len() as int) =~= Seq::<Seq<char>>::empty());
    None
}

/// The summary of the shortcut file `bytes` found at `original_path`.
pub fn lnk_summary(original_path: &str, bytes: &[u8]) -> (r: LnkSummary)
    ensures
        r.metadata@ == lnk_metadata(bytes@),
        string_views(r.strings@) == interesting_from(all_strings(bytes@), 0, Seq::empty(), 48),
        opt_view(r.target) == shortcut_target(
            original_path@,
            lnk_metadata(bytes@),
            string_views(r.strings@),
        ),
        opt_view(r.process_name) == (match opt_view(r.target) {
            Some(t) => crate::artifact::file_name_of(t),
            None => None,
        }),
        opt_view(r.event_time) == (match lnk_metadata(bytes@).modified_at {
            Some(m) => Some(m),
            None => lnk_metadata(bytes@).created_at,
        }),
        r.action@ == (if opt_view(r.target) matches Some(t) && exec_name(t) {
            "lnk_target_executable_observed"@
        } else {
            "lnk_observed"@
        }),
        r.severity@ == (if opt_view(r.target) matches Some(t) && (
        crate::extract::suspicious_path_text(t) || exec_name(t)) {
            "medium"@
        } else {
            "info"@
        }),
        r.message@ == (match opt_view(r.target) {
            Some(t) => "LNK observed: "@ + original_path@ + " -> "@ + t,
            None => "LNK observed: "@ + original_path@,
        }),
        match opt_view(r.target) {
            Some(t) => r.target_severity matches Some(s) && s@ == (if crate::extract::suspicious_path_text(t)
                || exec_name(t) {
                "medium"@
            } else {
                "low"@
            }),
            None => r.target_severity is None,
        },
{
    let metadata = parse_lnk_metadata(bytes);
    let strings = extract_interesting_strings(bytes, 48);
    let target = match &metadata.target_path {
        Some(t) => Some(t.clone()),
        None => match first_path_of(strings.as_slice()) {
            Some(p) => Some(p),
            None => crate::classify::lnk_target_from_name(original_path),
        },
    };
    let process_name = match &target {
        Some(t) => crate::artifact::file_name_from_path(t.as_str()),
        None => None,
    };
    let event_time = match &metadata.modified_at {
        Some(m) => Some(m.clone()),
        None => match &metadata.created_at {
            Some(c) => Some(c.clone()),
            None => None,
        },
    };
    let (action, severity, target_severity, message) = match &target {
        Some(t) => {
            let exe = is_executable_name(t.as_str());
            let flagged = crate::extract::suspicious_path(t.as_str()) || exe;
            let head = crate::text::concat_str("LNK observed: ", original_path);
            let arrow = crate::text::concat_str(head.as_str(), " -> ");
            (
                if exe {
                    "lnk_target_executable_observed"
                } else {
                    "lnk_observed"
                },
                if flagged {
                    "medium"
                } else {
                    "info"
                },
                Some(
                    if flagged {
                        "medium"
                    } else {
                        "low"
                    },
                ),
                crate::text::concat_str(arrow.as_str(), t.as_str()),
            )
        },
        None => (
            "lnk_observed",
            "info",
            None,
            crate::text::concat_str("LNK observed: ", original_path),
        ),
    };
    LnkSummary {
        metadata,
        strings,
        target,
        process_name,
        event_time,
        action,
        severity,
        message,
        target_severity,
    }
}

} // verus!
