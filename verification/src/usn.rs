//! The NTFS change journal (`$UsnJrnl:$J`): one record in version 2, 3 or 4
//! layout, its reason flags, and the action a reason stands for.
use vstd::prelude::*;
use crate::artifact::usn_journal;
use crate::binary::{fits, le16, le32, le64, le64_signed, read_i64_le, read_u16_le, read_u32_le, read_u64_le};
use crate::decode::{decode_utf16le_lossy, filetime_text, hex_digit, opt_view, read_filetime_rfc3339, utf16le_field};
use crate::text::{chars_of, contains, contains_str, joined, lower, lower_of, push_all, string_from};
use crate::ParserInput;

verus! {

// ---------------------------------------------------------------------------
// Record layout
// ---------------------------------------------------------------------------
/// Offsets, within a record of version `major`, of the parent reference, the
/// USN, the time stamp, the reason, the source info, the security id, the file
/// attributes, the name length and the name offset.
pub open spec fn usn_layout(major: int) -> (int, int, int, int, int, int, int, int, int) {
    if major == 2 {
        (16, 24, 32, 40, 44, 48, 52, 56, 58)
    } else {
        (24, 40, 48, 56, 60, 64, 68, 72, 74)
    }
}

/// The bytes of the record at `o` that hold its name.
pub open spec fn usn_name_bytes(b: Seq<u8>, o: int) -> Seq<u8> {
    let l = usn_layout(le16(b, o + 4));
    let name_len = le16(b, o + l.7);
    let name_off = le16(b, o + l.8);
    b.subrange(o + name_off, o + name_off + name_len)
}

/// A record starts at `o`: a length from 60 to 65536 bytes that fits, a minor
/// version up to 4, a major version 2, 3 or 4 whose fields are present, and a
/// non-empty, even-length name inside the record that decodes to some text.
#[verifier::opaque]
pub open spec fn usn_record_valid(b: Seq<u8>, o: int) -> bool {
    let len = le32(b, o);
    let major = le16(b, o + 4);
    let l = usn_layout(major);
    &&& fits(b, o, 4)
    &&& 60 <= len <= 65536
    &&& o + len <= b.len()
    &&& fits(b, o + 4, 2)
    &&& fits(b, o + 6, 2)
    &&& le16(b, o + 6) <= 4
    &&& (major == 2 || major == 3 || major == 4)
    &&& fits(b, o + 8, 8)
    &&& fits(b, o + l.0, 8)
    &&& fits(b, o + l.1, 8)
    &&& fits(b, o + l.7, 2)
    &&& fits(b, o + l.8, 2)
    &&& le16(b, o + l.7) != 0
    &&& le16(b, o + l.7) % 2 == 0
    &&& le16(b, o + l.8) + le16(b, o + l.7) <= len
    &&& utf16le_field(usn_name_bytes(b, o)).len() > 0
}

/// A 32-bit field that reads as zero when it is past the end.
pub open spec fn le32_or_zero(b: Seq<u8>, o: int) -> int {
    if fits(b, o, 4) {
        le32(b, o)
    } else {
        0
    }
}

/// One change-journal record.
#[derive(Debug, Clone)]
pub struct UsnNativeRecord {
    pub record_index: usize,
    pub record_offset: usize,
    pub record_length: usize,
    pub major_version: u16,
    pub file_reference: u64,
    pub parent_file_reference: u64,
    pub usn: i64,
    pub timestamp: Option<String>,
    pub reason: u32,
    pub source_info: u32,
    pub security_id: u32,
    pub file_attributes: u32,
    pub file_name: String,
}

/// What the record at `o` holds, as read by `parse_usn_record_at`.
pub open spec fn usn_record_read(b: Seq<u8>, o: int, idx: int, rec: UsnNativeRecord) -> bool {
    let l = usn_layout(le16(b, o + 4));
    &&& rec.record_index == idx
    &&& rec.record_offset == o
    &&& rec.record_length == le32(b, o)
    &&& rec.major_version == le16(b, o + 4)
    &&& rec.file_reference == le64(b, o + 8) % 0x1_0000_0000_0000
    &&& rec.parent_file_reference == le64(b, o + l.0) % 0x1_0000_0000_0000
    &&& rec.usn == le64_signed(b, o + l.1)
    &&& opt_view(rec.timestamp) == (if fits(b, o + l.2, 8) {
        filetime_text(le64(b, o + l.2))
    } else {
        None
    })
    &&& rec.reason == le32_or_zero(b, o + l.3)
    &&& rec.source_info == le32_or_zero(b, o + l.4)
    &&& rec.security_id == le32_or_zero(b, o + l.5)
    &&& rec.file_attributes == le32_or_zero(b, o + l.6)
    &&& rec.file_name@ == utf16le_field(usn_name_bytes(b, o))
}

fn u32_or_zero(bytes: &[u8], offset: usize) -> (r: u32)
    ensures
        r == le32_or_zero(bytes@, offset as int),
{
    match read_u32_le(bytes, offset) {
        Some(v) => v,
        None => 0,
    }
}

/// The change-journal record at `offset`, with its length; none when no valid
/// record starts there.
pub fn parse_usn_record_at(bytes: &[u8], offset: usize, record_index: usize) -> (r: Option<
    (UsnNativeRecord, usize),
>)
    ensures
        match r {
            Some((rec, len)) => usn_record_valid(bytes@, offset as int) && len == le32(
                bytes@,
                offset as int,
            ) && usn_record_read(bytes@, offset as int, record_index as int, rec),
            None => !usn_record_valid(bytes@, offset as int),
        },
{
    reveal(usn_record_valid);
    let length = match read_u32_le(bytes, offset) {
        Some(v) => v as usize,
        None => {
            return None;
        },
    };
    if length < 60 || length > 65536 || length > bytes.len() - offset {
        return None;
    }
    let major = match read_u16_le(bytes, offset + 4) {
        Some(v) => v,
        None => {
            return None;
        },
    };
    let minor = match read_u16_le(bytes, offset + 6) {
        Some(v) => v,
        None => {
            return None;
        },
    };
    if minor > 4 {
        return None;
    }
    let (po, uo, to, ro, so, sco, ao, nlo, noo): (
        usize,
        usize,
        usize,
        usize,
        usize,
        usize,
        usize,
        usize,
        usize,
    ) = if major == 2 {
        (16, 24, 32, 40, 44, 48, 52, 56, 58)
    } else if major == 3 || major == 4 {
        (24, 40, 48, 56, 60, 64, 68, 72, 74)
    } else {
        return None;
    };
    let ghost l = usn_layout(major as int);
    assert(l == (po as int, uo as int, to as int, ro as int, so as int, sco as int, ao as int, nlo as int, noo as int));
    let file_reference = match read_u64_le(bytes, offset + 8) {
        Some(v) => v,
        None => {
            return None;
        },
    };
    let parent = match read_u64_le(bytes, offset + po) {
        Some(v) => v,
        None => {
            return None;
        },
    };
    let usn = match read_i64_le(bytes, offset + uo) {
        Some(v) => v,
        None => {
            return None;
        },
    };
    let nl_at = match offset.checked_add(nlo) {
        Some(p) => p,
        None => {
            return None;
        },
    };
    let no_at = match offset.checked_add(noo) {
        Some(p) => p,
        None => {
            return None;
        },
    };
    let name_len = match read_u16_le(bytes, nl_at) {
        Some(v) => v as usize,
        None => {
            return None;
        },
    };
    let name_off = match read_u16_le(bytes, no_at) {
        Some(v) => v as usize,
        None => {
            return None;
        },
    };
    if name_len == 0 || name_len % 2 != 0 || name_off + name_len > length {
        return None;
    }
    let name_start = offset + name_off;
    let name_end = name_start + name_len;
    let mut name_bytes: Vec<u8> = Vec::new();
    let mut i = name_start;
    while i < name_end
        invariant
            name_start <= i <= name_end,
            name_end <= bytes@.len(),
            name_bytes@ == bytes@.subrange(name_start as int, i as int),
        decreases name_end - i,
    {
        name_bytes.push(bytes[i]);
        i = i + 1;
    }
    let file_name = decode_utf16le_lossy(name_bytes.as_slice());
    if file_name.as_str().is_empty() {
        return None;
    }
    let rec = UsnNativeRecord {
        record_index,
        record_offset: offset,
        record_length: length,
        major_version: major,
        file_reference: crate::binary::file_reference_record_number(file_reference),
        parent_file_reference: crate::binary::file_reference_record_number(parent),
        usn,
        timestamp: read_filetime_rfc3339(bytes, offset + to),
        reason: u32_or_zero(bytes, offset + ro),
        source_info: u32_or_zero(bytes, offset + so),
        security_id: u32_or_zero(bytes, offset + sco),
        file_attributes: u32_or_zero(bytes, offset + ao),
        file_name,
    };
    Some((rec, length))
}

/// The offsets, from `o` on, at which a scan of the journal finds records: after
/// a record the scan moves on by its length, elsewhere by eight bytes, and it
/// stops when fewer than sixty bytes are left.
pub open spec fn usn_scan_offsets(b: Seq<u8>, o: int) -> Seq<int>
    decreases b.len() - o,
{
    if o < 0 || o + 60 > b.len() {
        Seq::empty()
    } else if usn_record_valid(b, o) {
        proof {
            reveal(usn_record_valid);
        }
        let step = if le32(b, o) > 8 {
            le32(b, o)
        } else {
            8
        };
        seq![o] + usn_scan_offsets(b, o + step)
    } else {
        usn_scan_offsets(b, o + 8)
    }
}

/// Every record of a change journal, in order: the `i`-th found (counting from
/// one) is read at the `i`-th offset of the scan.
pub fn parse_usn_records(bytes: &[u8]) -> (r: Vec<UsnNativeRecord>)
    ensures
        r@.len() == usn_scan_offsets(bytes@, 0).len(),
        forall|i: int|
            0 <= i < r@.len() ==> usn_record_read(
                bytes@,
                #[trigger] usn_scan_offsets(bytes@, 0)[i],
                i + 1,
                r@[i],
            ),
{
    let ghost all = usn_scan_offsets(bytes@, 0);
    let ghost mut found: Seq<int> = Seq::empty();
    let mut records: Vec<UsnNativeRecord> = Vec::new();
    let mut offset: usize = 0;
    assert(all =~= found + usn_scan_offsets(bytes@, 0));
    while offset <= bytes.len() && bytes.len() - offset >= 60
        invariant
            offset <= bytes@.len(),
            all == usn_scan_offsets(bytes@, 0),
            all == found + usn_scan_offsets(bytes@, offset as int),
            records@.len() == found.len(),
            records@.len() <= offset,
            forall|i: int|
                0 <= i < records@.len() ==> usn_record_read(
                    bytes@,
                    #[trigger] found[i],
                    i + 1,
                    records@[i],
                ),
        decreases bytes@.len() - offset,
    {
        let index = records.len() + 1;
        match parse_usn_record_at(bytes, offset, index) {
            Some((record, length)) => {
                let step = if length > 8 {
                    length
                } else {
                    8
                };
                proof {
                    reveal(usn_record_valid);
                    assert(usn_scan_offsets(bytes@, offset as int) == seq![offset as int]
                        + usn_scan_offsets(bytes@, offset + step));
                    assert(all =~= found.push(offset as int) + usn_scan_offsets(
                        bytes@,
                        offset + step,
                    ));
                    found = found.push(offset as int);
                }
                records.push(record);
                offset = offset + step;
            },
            None => {
                assert(usn_scan_offsets(bytes@, offset as int) == usn_scan_offsets(
                    bytes@,
                    offset + 8,
                ));
                offset = offset + 8;
            },
        }
    }
    assert(usn_scan_offsets(bytes@, offset as int) =~= Seq::<int>::empty());
    assert(all =~= found);
    records
}

/// Whether a record starts at `o` or a later multiple of eight from it, with
/// sixty bytes before `limit`.
pub open spec fn usn_scan(b: Seq<u8>, o: int, limit: int) -> bool
    decreases limit - o,
{
    if o + 60 > limit {
        false
    } else if usn_record_valid(b, o) {
        true
    } else {
        usn_scan(b, o + 8, limit)
    }
}

/// Whether a record starts at some multiple of eight in the first 64 KiB.
pub open spec fn usn_record_in_head(b: Seq<u8>) -> bool {
    usn_scan(
        b,
        0,
        if b.len() < 65536 {
            b.len() as int
        } else {
            65536
        },
    )
}

fn usn_record_starts(bytes: &[u8], offset: usize) -> (r: bool)
    ensures
        r == usn_record_valid(bytes@, offset as int),
{
    parse_usn_record_at(bytes, offset, 1).is_some()
}

/// A change journal, by type or path, with a record in its first 64 KiB.
pub fn looks_like_usn_journal_binary(input: &ParserInput) -> (r: bool)
    ensures
        r == (usn_journal(input.original_path@, input.artifact_type@) && usn_record_in_head(
            input.bytes@,
        )),
{
    if !crate::artifact::looks_like_usn_journal(input) {
        return false;
    }
    let bytes = input.bytes.as_slice();
    let limit = if bytes.len() < 65536 {
        bytes.len()
    } else {
        65536
    };
    let mut offset: usize = 0;
    while offset + 60 <= limit
        invariant
            limit <= 65536,
            limit == (if bytes@.len() < 65536 {
                bytes@.len() as int
            } else {
                65536
            }),
            bytes@ == input.bytes@,
            offset <= 65536,
            usn_journal(input.original_path@, input.artifact_type@),
            usn_record_in_head(bytes@) == usn_scan(bytes@, offset as int, limit as int),
        decreases limit - offset,
    {
        if usn_record_starts(bytes, offset) {
            return true;
        }
        offset = offset + 8;
    }
    false
}

// ---------------------------------------------------------------------------
// Reasons
// ---------------------------------------------------------------------------
/// The reason flags a journal record can carry, with their names.
pub open spec fn usn_flags() -> Seq<(u32, Seq<char>)> {
    seq![
        (0x0000_0001u32, "DATA_OVERWRITE"@),
        (0x0000_0002u32, "DATA_EXTEND"@),
        (0x0000_0004u32, "DATA_TRUNCATION"@),
        (0x0000_0010u32, "NAMED_DATA_OVERWRITE"@),
        (0x0000_0020u32, "NAMED_DATA_EXTEND"@),
        (0x0000_0040u32, "NAMED_DATA_TRUNCATION"@),
        (0x0000_0100u32, "FILE_CREATE"@),
        (0x0000_0200u32, "FILE_DELETE"@),
        (0x0000_0400u32, "EA_CHANGE"@),
        (0x0000_0800u32, "SECURITY_CHANGE"@),
        (0x0000_1000u32, "RENAME_OLD_NAME"@),
        (0x0000_2000u32, "RENAME_NEW_NAME"@),
        (0x0000_4000u32, "INDEXABLE_CHANGE"@),
        (0x0000_8000u32, "BASIC_INFO_CHANGE"@),
        (0x0001_0000u32, "HARD_LINK_CHANGE"@),
        (0x0002_0000u32, "COMPRESSION_CHANGE"@),
        (0x0004_0000u32, "ENCRYPTION_CHANGE"@),
        (0x0008_0000u32, "OBJECT_ID_CHANGE"@),
        (0x0010_0000u32, "REPARSE_POINT_CHANGE"@),
        (0x0020_0000u32, "STREAM_CHANGE"@),
        (0x8000_0000u32, "CLOSE"@),
    ]
}

/// The names of the flags of `fs` set in `reason`, in order.
pub open spec fn set_flag_names(reason: u32, fs: Seq<(u32, Seq<char>)>) -> Seq<Seq<char>>
    decreases fs.len(),
{
    if fs.len() == 0 {
        Seq::empty()
    } else {
        let rest = set_flag_names(reason, fs.drop_last());
        if reason & fs.last().0 != 0 {
            rest.push(fs.last().1)
        } else {
            rest
        }
    }
}

/// The `n` lowest hexadecimal digits of `v`, lower-case, most significant first.
pub open spec fn hex_digits(v: nat, n: nat) -> Seq<char>
    decreases n,
{
    if n == 0 {
        Seq::empty()
    } else {
        hex_digits(v / 16, (n - 1) as nat).push(hex_digit((v % 16) as int))
    }
}

/// The names of the reasons set, joined by `|`; `0x` and eight hexadecimal
/// digits when none is known.
pub open spec fn reason_text(reason: u32) -> Seq<char> {
    let names = set_flag_names(reason, usn_flags());
    if names.len() == 0 {
        "0x"@ + hex_digits(reason as nat, 8)
    } else {
        joined(names, "|"@)
    }
}

pub(crate) fn hex8(v: u32) -> (r: Vec<char>)
    ensures
        r@ == hex_digits(v as nat, 8),
{
    let mut x: u32 = v;
    let mut out: Vec<char> = Vec::new();
    let mut k: usize = 0;
    while k < 8
        invariant
            k <= 8,
            hex_digits(v as nat, 8) == hex_digits(x as nat, (8 - k) as nat) + out@,
        decreases 8 - k,
    {
        let d = (x % 16) as u8;
        let c = if d < 10 {
            (d + 48) as char
        } else {
            (d + 87) as char
        };
        assert(c == hex_digit((x as nat % 16) as int));
        let ghost prev = out@;
        out.insert(0, c);
        assert(out@ =~= seq![c] + prev);
        assert(hex_digits(x as nat, (8 - k) as nat) == hex_digits(
            (x / 16) as nat,
            (8 - k - 1) as nat,
        ).push(c));
        assert(hex_digits((x / 16) as nat, (8 - k - 1) as nat).push(c) + prev =~= hex_digits(
            (x / 16) as nat,
            (8 - k - 1) as nat,
        ) + out@);
        x = x / 16;
        k = k + 1;
    }
    assert(hex_digits(x as nat, 0) =~= Seq::<char>::empty());
    assert(Seq::<char>::empty() + out@ =~= out@);
    out
}

/// The reason flags of a journal record, by name, joined by `|`; the value in
/// hexadecimal when none of them is set.
pub fn usn_reason_flags(reason: u32) -> (r: String)
    ensures
        r@ == reason_text(reason),
{
    let flags: [(u32, &str); 21] = [
        (0x0000_0001, "DATA_OVERWRITE"),
        (0x0000_0002, "DATA_EXTEND"),
        (0x0000_0004, "DATA_TRUNCATION"),
        (0x0000_0010, "NAMED_DATA_OVERWRITE"),
        (0x0000_0020, "NAMED_DATA_EXTEND"),
        (0x0000_0040, "NAMED_DATA_TRUNCATION"),
        (0x0000_0100, "FILE_CREATE"),
        (0x0000_0200, "FILE_DELETE"),
        (0x0000_0400, "EA_CHANGE"),
        (0x0000_0800, "SECURITY_CHANGE"),
        (0x0000_1000, "RENAME_OLD_NAME"),
        (0x0000_2000, "RENAME_NEW_NAME"),
        (0x0000_4000, "INDEXABLE_CHANGE"),
        (0x0000_8000, "BASIC_INFO_CHANGE"),
        (0x0001_0000, "HARD_LINK_CHANGE"),
        (0x0002_0000, "COMPRESSION_CHANGE"),
        (0x0004_0000, "ENCRYPTION_CHANGE"),
        (0x0008_0000, "OBJECT_ID_CHANGE"),
        (0x0010_0000, "REPARSE_POINT_CHANGE"),
        (0x0020_0000, "STREAM_CHANGE"),
        (0x8000_0000, "CLOSE"),
    ];
    let ghost fs = flags@.map_values(|p: (u32, &str)| (p.0, p.1@));
    assert(fs =~= usn_flags());
    let mut out: Vec<char> = Vec::new();
    let mut count: usize = 0;
    let mut i: usize = 0;
    while i < 21
        invariant
            i <= 21,
            fs == flags@.map_values(|p: (u32, &str)| (p.0, p.1@)),
            count == set_flag_names(reason, fs.subrange(0, i as int)).len(),
            count <= i,
            out@ == joined(set_flag_names(reason, fs.subrange(0, i as int)), "|"@),
        decreases 21 - i,
    {
        let (flag, name) = flags[i];
        assert(fs.subrange(0, i + 1).drop_last() =~= fs.subrange(0, i as int));
        assert(fs.subrange(0, i + 1).last() == (flag, name@));
        let ghost names = set_flag_names(reason, fs.subrange(0, i as int));
        assert(names.push(name@).drop_last() =~= names);
        if reason & flag != 0 {
            let nv = chars_of(name);
            if count > 0 {
                let bar = chars_of("|");
                push_all(&mut out, bar.as_slice());
            }
            push_all(&mut out, nv.as_slice());
            count = count + 1;
        }
        i = i + 1;
    }
    assert(fs.subrange(0, 21) =~= fs);
    if count == 0 {
        let mut h = chars_of("0x");
        let d = hex8(reason);
        push_all(&mut h, d.as_slice());
        string_from(h.as_slice())
    } else {
        string_from(out.as_slice())
    }
}

/// The action a journal reason stands for: deletion, rename, creation, data
/// change, or any other change.
pub open spec fn usn_action_of(reason: Option<Seq<char>>) -> Seq<char> {
    let l = lower(
        match reason {
            Some(r) => r,
            None => Seq::empty(),
        },
    );
    if contains(l, "delete"@) {
        "usn_deleted"@
    } else if contains(l, "rename"@) {
        "usn_renamed"@
    } else if contains(l, "create"@) {
        "usn_created"@
    } else if contains(l, "overwrite"@) || contains(l, "extend"@) || contains(l, "truncate"@)
        || contains(l, "data"@) {
        "usn_modified"@
    } else {
        "usn_changed"@
    }
}

pub open spec fn str_view(o: Option<&str>) -> Option<Seq<char>> {
    match o {
        Some(s) => Some(s@),
        None => None,
    }
}

pub fn usn_action(reason: Option<&str>) -> (r: String)
    ensures
        r@ == usn_action_of(str_view(reason)),
{
    let lv = match reason {
        Some(s) => lower_of(s),
        None => Vec::new(),
    };
    assert(reason is None ==> lv@ =~= lower(Seq::<char>::empty()));
    let l = lv.as_slice();
    let a = if contains_str(l, "delete") {
        "usn_deleted"
    } else if contains_str(l, "rename") {
        "usn_renamed"
    } else if contains_str(l, "create") {
        "usn_created"
    } else if contains_str(l, "overwrite") || contains_str(l, "extend") || contains_str(
        l,
        "truncate",
    ) || contains_str(l, "data") {
        "usn_modified"
    } else {
        "usn_changed"
    };
    crate::text::string_of(a)
}

} // verus!
