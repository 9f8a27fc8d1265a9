//! Pieces of Windows shortcut (`.lnk`) files: extra-data block names, GUIDs
//! and property-store strings in a block, counted and NUL-terminated strings,
//! and the target path.
use vstd::prelude::*;
use crate::binary::{fits, le16, le32, read_u16_le, read_u32_le};
use crate::decode::{decode_utf16le_lossy, format_guid_le, guid_text, opt_view, utf16le_field};
use crate::external::{utf8_lossy, utf8_lossy_text};
use crate::extract::{exec_name, exec_name_chars, path_text, path_text_chars, url_text, url_text_chars};
use crate::strings::{
    all_strings, all_strings_exec, ascii_runs, display_text, display_text_chars, run_views,
    string_views, utf16_runs, extract_ascii_strings_with_offsets,
    extract_utf16le_strings_with_offsets,
};
use crate::text::{
    chars_of, concat_chars, contains, contains_str, ends_with, ends_with_chars, is_ascii_alnum,
    is_ascii_alpha, lower, lower_chars, seq_eq, slice_to_vec, starts_with, starts_with_str,
    string_from, string_of, trim, trim_chars, trim_end_set, trim_set, trim_set_chars, utf8_len,
    utf8_len_of, char_is_ascii_alnum, char_is_ascii_alpha,
};
use crate::textlog::{truncated, truncated_chars};

verus! {

// ---------------------------------------------------------------------------
// Extra data blocks
// ---------------------------------------------------------------------------
/// The name of an extra-data block signature.
pub open spec fn extra_block_name(sig: u32) -> Seq<char> {
    if sig == 0xa0000001 {
        "EnvironmentVariableDataBlock"@
    } else if sig == 0xa0000002 {
        "ConsoleDataBlock"@
    } else if sig == 0xa0000003 {
        "TrackerDataBlock"@
    } else if sig == 0xa0000004 {
        "ConsoleFEDataBlock"@
    } else if sig == 0xa0000005 {
        "SpecialFolderDataBlock"@
    } else if sig == 0xa0000006 {
        "DarwinDataBlock"@
    } else if sig == 0xa0000007 {
        "IconEnvironmentDataBlock"@
    } else if sig == 0xa0000008 {
        "ShimDataBlock"@
    } else if sig == 0xa0000009 {
        "PropertyStoreDataBlock"@
    } else if sig == 0xa000000b {
        "KnownFolderDataBlock"@
    } else if sig == 0xa000000c {
        "VistaAndAboveIDListDataBlock"@
    } else {
        "UnknownExtraDataBlock"@
    }
}

pub fn lnk_extra_data_signature_name(signature: u32) -> (r: &'static str)
    ensures
        r@ == extra_block_name(signature),
{
    if signature == 0xa0000001 {
        "EnvironmentVariableDataBlock"
    } else if signature == 0xa0000002 {
        "ConsoleDataBlock"
    } else if signature == 0xa0000003 {
        "TrackerDataBlock"
    } else if signature == 0xa0000004 {
        "ConsoleFEDataBlock"
    } else if signature == 0xa0000005 {
        "SpecialFolderDataBlock"
    } else if signature == 0xa0000006 {
        "DarwinDataBlock"
    } else if signature == 0xa0000007 {
        "IconEnvironmentDataBlock"
    } else if signature == 0xa0000008 {
        "ShimDataBlock"
    } else if signature == 0xa0000009 {
        "PropertyStoreDataBlock"
    } else if signature == 0xa000000b {
        "KnownFolderDataBlock"
    } else if signature == 0xa000000c {
        "VistaAndAboveIDListDataBlock"
    } else {
        "UnknownExtraDataBlock"
    }
}

// ---------------------------------------------------------------------------
// GUIDs in a block
// ---------------------------------------------------------------------------
pub open spec fn any_nonzero(b: Seq<u8>) -> bool {
    exists|k: int| 0 <= k < b.len() && #[trigger] b[k] != 0
}

pub open spec fn guid_texts(rs: Seq<(int, Seq<char>)>) -> Seq<Seq<char>> {
    rs.map_values(|r: (int, Seq<char>)| r.1)
}

/// The GUIDs read every four bytes from offset `off` on, those not all zero and
/// not seen before, with their offsets; at most sixteen.
pub open spec fn guid_records_from(b: Seq<u8>, off: int, acc: Seq<(int, Seq<char>)>) -> Seq<
    (int, Seq<char>),
>
    decreases b.len() - off,
{
    if off < 0 || off + 16 > b.len() || acc.len() >= 16 {
        acc
    } else {
        let g = b.subrange(off, off + 16);
        let v = guid_text(g);
        if any_nonzero(g) && !guid_texts(acc).contains(v) {
            guid_records_from(b, off + 4, acc.push((off, v)))
        } else {
            guid_records_from(b, off + 4, acc)
        }
    }
}

fn any_nonzero_exec(b: &[u8], start: usize) -> (r: bool)
    requires
        start + 16 <= b.len(),
    ensures
        r == any_nonzero(b@.subrange(start as int, start + 16)),
{
    let ghost g = b@.subrange(start as int, start + 16);
    let mut k: usize = 0;
    while k < 16
        invariant
            k <= 16,
            start + 16 <= b.len(),
            g == b@.subrange(start as int, start + 16),
            forall|j: int| 0 <= j < k ==> #[trigger] g[j] == 0,
        decreases 16 - k,
    {
        if b[start + k] != 0 {
            assert(g[k as int] != 0);
            return true;
        }
        k = k + 1;
    }
    false
}

fn contains_guid(v: &Vec<(usize, String)>, x: &[char]) -> (r: bool)
    ensures
        r == guid_texts(run_views(v@)).contains(x@),
{
    let ghost ts = guid_texts(run_views(v@));
    let mut i: usize = 0;
    while i < v.len()
        invariant
            i <= v.len(),
            ts == guid_texts(run_views(v@)),
            ts.len() == v@.len(),
            forall|j: int| 0 <= j < i ==> #[trigger] ts[j] != x@,
        decreases v.len() - i,
    {
        let e = chars_of(v[i].1.as_str());
        assert(ts[i as int] == v@[i as int].1@);
        if seq_eq(e.as_slice(), x) {
            return true;
        }
        i = i + 1;
    }
    false
}

/// The distinct GUIDs of a block, from offset 8 every four bytes, with their
/// offsets; at most sixteen.
pub fn lnk_guid_candidate_records(block: &[u8]) -> (r: Vec<(usize, String)>)
    ensures
        run_views(r@) == guid_records_from(block@, 8, Seq::empty()),
{
    let mut out: Vec<(usize, String)> = Vec::new();
    assert(run_views(out@) =~= Seq::<(int, Seq<char>)>::empty());
    let mut off: usize = 8;
    while off <= block.len() && block.len() - off >= 16 && out.len() < 16
        invariant
            off >= 8,
            guid_records_from(block@, 8, Seq::empty()) == guid_records_from(
                block@,
                off as int,
                run_views(out@),
            ),
        decreases block.len() + 4 - off,
    {
        let nz = any_nonzero_exec(block, off);
        let g = slice_to_vec_u8(block, off, off + 16);
        let value = format_guid_le(g.as_slice());
        let vc = chars_of(value.as_str());
        if nz && !contains_guid(&out, vc.as_slice()) {
            let ghost prev = run_views(out@);
            out.push((off, value));
            assert(run_views(out@) =~= prev.push((off as int, guid_text(block@.subrange(off as int, off + 16)))));
        }
        off = off + 4;
    }
    out
}

fn slice_to_vec_u8(b: &[u8], s: usize, e: usize) -> (r: Vec<u8>)
    requires
        s <= e <= b.len(),
    ensures
        r@ == b@.subrange(s as int, e as int),
{
    let mut out: Vec<u8> = Vec::new();
    let mut i = s;
    while i < e
        invariant
            s <= i <= e <= b.len(),
            out@ == b@.subrange(s as int, i as int),
        decreases e - i,
    {
        out.push(b[i]);
        i = i + 1;
    }
    out
}

/// The distinct GUID texts of a block, at most eight.
pub open spec fn guid_values_from(rs: Seq<Seq<char>>, i: int, acc: Seq<Seq<char>>) -> Seq<Seq<char>>
    decreases rs.len() - i,
{
    if i < 0 || i >= rs.len() {
        acc
    } else {
        let next = if acc.contains(rs[i]) {
            acc
        } else {
            acc.push(rs[i])
        };
        if next.len() >= 8 {
            next
        } else {
            guid_values_from(rs, i + 1, next)
        }
    }
}

pub fn lnk_guid_candidates(block: &[u8]) -> (r: Vec<String>)
    ensures
        string_views(r@) == guid_values_from(
            guid_texts(guid_records_from(block@, 8, Seq::empty())),
            0,
            Seq::empty(),
        ),
{
    let recs = lnk_guid_candidate_records(block);
    let ghost rs = guid_texts(run_views(recs@));
    let mut out: Vec<String> = Vec::new();
    assert(string_views(out@) =~= Seq::<Seq<char>>::empty());
    let mut i: usize = 0;
    while i < recs.len()
        invariant
            i <= recs.len(),
            rs == guid_texts(run_views(recs@)),
            rs == guid_texts(guid_records_from(block@, 8, Seq::empty())),
            rs.len() == recs@.len(),
            guid_values_from(rs, 0, Seq::empty()) == guid_values_from(
                rs,
                i as int,
                string_views(out@),
            ),
        decreases recs.len() - i,
    {
        assert(rs[i as int] == recs@[i as int].1@);
        let v = chars_of(recs[i].1.as_str());
        let ghost before = string_views(out@);
        if !crate::strings::contains_chars_vec_pub(&out, v.as_slice()) {
            out.push(recs[i].1.clone());
            assert(string_views(out@) =~= before.push(rs[i as int]));
        }
        if out.len() >= 8 {
            assert(guid_values_from(rs, i as int, before) == string_views(out@));
            return out;
        }
        i = i + 1;
    }
    out
}

// ---------------------------------------------------------------------------
// Property store text
// ---------------------------------------------------------------------------
/// A string found in a property store block.
#[derive(Debug, Clone)]
pub struct LnkTextCandidate {
    pub offset: usize,
    pub value: String,
    pub encoding: &'static str,
}

pub open spec fn candidate_views(v: Seq<LnkTextCandidate>) -> Seq<(int, Seq<char>, Seq<char>)> {
    v.map_values(|c: LnkTextCandidate| (c.offset as int, c.value@, c.encoding@))
}

pub open spec fn any_alnum(v: Seq<char>) -> bool {
    exists|k: int| 0 <= k < v.len() && is_ascii_alnum(#[trigger] v[k])
}

/// A property-store string worth keeping.
pub open spec fn property_text(value: Seq<char>) -> bool {
    let v = trim(value);
    utf8_len(v) >= 4 && (starts_with(v, "System."@) || contains(v, "AppUserModel"@) || path_text(v)
        || url_text(v) || exec_name(v) || (utf8_len(v) <= 260 && any_alnum(v)))
}

/// The kept strings of runs, tagged with an encoding.
pub open spec fn tagged(rs: Seq<(int, Seq<char>)>, enc: Seq<char>) -> Seq<(int, Seq<char>, Seq<char>)>
    decreases rs.len(),
{
    if rs.len() == 0 {
        Seq::empty()
    } else {
        let prev = tagged(rs.drop_last(), enc);
        if property_text(rs.last().1) {
            prev.push((rs.last().0, rs.last().1, enc))
        } else {
            prev
        }
    }
}

/// The strings of a property store block worth keeping: ASCII ones first, then
/// UTF-16LE ones, with their offsets.
pub open spec fn property_candidates(b: Seq<u8>) -> Seq<(int, Seq<char>, Seq<char>)> {
    tagged(ascii_runs(b), "ascii"@) + tagged(utf16_runs(b), "utf16le"@)
}

fn any_alnum_exec(v: &[char]) -> (r: bool)
    ensures
        r == any_alnum(v@),
{
    let mut i: usize = 0;
    while i < v.len()
        invariant
            i <= v.len(),
            forall|k: int| 0 <= k < i ==> !is_ascii_alnum(#[trigger] v@[k]),
        decreases v.len() - i,
    {
        if char_is_ascii_alnum(v[i]) {
            return true;
        }
        i = i + 1;
    }
    false
}

fn property_text_exec(value: &String) -> (r: bool)
    ensures
        r == property_text(value@),
{
    let c = chars_of(value.as_str());
    let tv = trim_chars(c.as_slice());
    let v = tv.as_slice();
    let n = utf8_len_of(v);
    n >= 4 && (starts_with_str(v, "System.") || contains_str(v, "AppUserModel") || path_text_chars(v)
        || url_text_chars(v) || exec_name_chars(v) || (n <= 260 && any_alnum_exec(v)))
}

fn push_tagged(out: &mut Vec<LnkTextCandidate>, runs: Vec<(usize, String)>, enc: &'static str)
    ensures
        candidate_views(final(out)@) == candidate_views(old(out)@) + tagged(run_views(runs@), enc@),
{
    let mut i: usize = 0;
    let ghost base = candidate_views(out@);
    assert(run_views(runs@).subrange(0, 0) =~= Seq::<(int, Seq<char>)>::empty());
    while i < runs.len()
        invariant
            i <= runs.len(),
            candidate_views(out@) == base + tagged(run_views(runs@).subrange(0, i as int), enc@),
        decreases runs.len() - i,
    {
        let ghost rs = run_views(runs@).subrange(0, i + 1);
        assert(rs.drop_last() =~= run_views(runs@).subrange(0, i as int));
        assert(rs.last() == (runs@[i as int].0 as int, runs@[i as int].1@));
        if property_text_exec(&runs[i].1) {
            let ghost prev = candidate_views(out@);
            out.push(
                LnkTextCandidate { offset: runs[i].0, value: runs[i].1.clone(), encoding: enc },
            );
            assert(candidate_views(out@) =~= prev.push(
                (runs@[i as int].0 as int, runs@[i as int].1@, enc@),
            ));
        }
        i = i + 1;
    }
    assert(run_views(runs@).subrange(0, runs@.len() as int) =~= run_views(runs@));
}

pub fn lnk_property_text_candidates(block: &[u8]) -> (r: Vec<LnkTextCandidate>)
    ensures
        candidate_views(r@) == property_candidates(block@),
{
    let mut out: Vec<LnkTextCandidate> = Vec::new();
    assert(candidate_views(out@) =~= Seq::<(int, Seq<char>, Seq<char>)>::empty());
    push_tagged(&mut out, extract_ascii_strings_with_offsets(block), "ascii");
    push_tagged(&mut out, extract_utf16le_strings_with_offsets(block), "utf16le");
    assert(Seq::<(int, Seq<char>, Seq<char>)>::empty() + tagged(ascii_runs(block@), "ascii"@) + tagged(
        utf16_runs(block@),
        "utf16le"@,
    ) =~= property_candidates(block@));
    out
}

/// The property key a string names.
pub open spec fn property_key(value: Seq<char>) -> Option<Seq<char>> {
    let t = trim(trim_set(value, seq!['\0']));
    let l = lower(t);
    if starts_with(t, "System."@) && utf8_len(t) <= 160 {
        Some(t)
    } else if contains(l, "appusermodel"@) {
        Some("System.AppUserModel.ID"@)
    } else if contains(l, "targetparsingpath"@) {
        Some("System.Link.TargetParsingPath"@)
    } else if contains(l, "itemnamedisplay"@) {
        Some("System.ItemNameDisplay"@)
    } else {
        None
    }
}

pub fn lnk_property_key(value: &str) -> (r: Option<String>)
    ensures
        opt_view(r) == property_key(value@),
{
    let c = chars_of(value);
    let nul = ['\0'];
    assert(nul@ =~= seq!['\0']);
    let a = trim_set_chars(c.as_slice(), &nul);
    let t = trim_chars(a.as_slice());
    let l = lower_chars(t.as_slice());
    if starts_with_str(t.as_slice(), "System.") && utf8_len_of(t.as_slice()) <= 160 {
        Some(string_from(t.as_slice()))
    } else if contains_str(l.as_slice(), "appusermodel") {
        Some(string_of("System.AppUserModel.ID"))
    } else if contains_str(l.as_slice(), "targetparsingpath") {
        Some(string_of("System.Link.TargetParsingPath"))
    } else if contains_str(l.as_slice(), "itemnamedisplay") {
        Some(string_of("System.ItemNameDisplay"))
    } else {
        None
    }
}

/// The value that follows a key among the candidates: the first later one that
/// is not itself a key and is two bytes or more, cut to 220 characters.
pub open spec fn value_hint_from(cs: Seq<(int, Seq<char>, Seq<char>)>, i: int) -> Option<Seq<char>>
    decreases cs.len() - i,
{
    if i < 0 || i >= cs.len() {
        None
    } else {
        let v = trim(cs[i].1);
        if starts_with(v, "System."@) || contains(v, "AppUserModel"@) {
            value_hint_from(cs, i + 1)
        } else if utf8_len(v) >= 2 {
            Some(truncated(v, 220))
        } else {
            value_hint_from(cs, i + 1)
        }
    }
}

pub fn lnk_property_value_hint(candidates: &[LnkTextCandidate], idx: usize) -> (r: Option<String>)
    ensures
        opt_view(r) == (if idx < usize::MAX {
            value_hint_from(candidate_views(candidates@), idx + 1)
        } else {
            None
        }),
{
    if idx == usize::MAX {
        return None;
    }
    let ghost cs = candidate_views(candidates@);
    let mut i = idx + 1;
    while i < candidates.len()
        invariant
            idx + 1 <= i,
            cs == candidate_views(candidates@),
            value_hint_from(cs, idx + 1) == value_hint_from(cs, i as int),
        decreases candidates.len() - i,
    {
        assert(cs[i as int].1 == candidates@[i as int].value@);
        let c = chars_of(candidates[i].value.as_str());
        let tv = trim_chars(c.as_slice());
        let v = tv.as_slice();
        if starts_with_str(v, "System.") || contains_str(v, "AppUserModel") {
            i = i + 1;
        } else if utf8_len_of(v) >= 2 {
            let t = truncated_chars(v, 220);
            return Some(string_from(t.as_slice()));
        } else {
            i = i + 1;
        }
    }
    None
}

/// The first 32-bit value from 1 to 100000 at an offset in `[lo, hi]`.
pub open spec fn property_id_from(b: Seq<u8>, o: int, hi: int) -> Option<int>
    decreases hi + 1 - o,
{
    if o > hi {
        None
    } else if fits(b, o, 4) && 1 <= le32(b, o) <= 100000 {
        Some(le32(b, o))
    } else {
        property_id_from(b, o + 1, hi)
    }
}

pub open spec fn sat_sub(a: int, b: int) -> int {
    if a >= b {
        a - b
    } else {
        0
    }
}

/// The property id stored in the sixteen bytes before a string.
pub open spec fn property_id_near(b: Seq<u8>, off: int) -> Option<int> {
    property_id_from(b, sat_sub(off, 16), sat_sub(off, 4))
}

pub fn lnk_property_id_near(block: &[u8], offset: usize) -> (r: Option<u32>)
    ensures
        match r {
            Some(v) => property_id_near(block@, offset as int) == Some(v as int),
            None => property_id_near(block@, offset as int) is None,
        },
{
    let lo = if offset >= 16 {
        offset - 16
    } else {
        0
    };
    let hi = if offset >= 4 {
        offset - 4
    } else {
        0
    };
    let mut o = lo;
    while o <= hi
        invariant
            lo <= o <= hi + 1,
            hi < usize::MAX,
            property_id_near(block@, offset as int) == property_id_from(block@, o as int, hi as int),
            lo == sat_sub(offset as int, 16),
            hi == sat_sub(offset as int, 4),
        decreases hi + 1 - o,
    {
        match read_u32_le(block, o) {
            Some(v) => if 1 <= v && v <= 100000 {
                return Some(v);
            },
            None => {},
        }
        o = o + 1;
    }
    None
}

// ---------------------------------------------------------------------------
// Strings at offsets
// ---------------------------------------------------------------------------
/// A string prefixed by its length in characters: UTF-16LE text, or bytes
/// shown as display text; with the offset after it.
pub open spec fn counted_string(b: Seq<u8>, off: int, unicode: bool) -> Option<(Seq<char>, int)> {
    if !fits(b, off, 2) {
        None
    } else {
        let start = off + 2;
        let len = if unicode {
            2 * le16(b, off)
        } else {
            le16(b, off)
        };
        let end = start + len;
        if end > b.len() {
            None
        } else if unicode {
            Some((utf16le_field(b.subrange(start, end)), end))
        } else {
            Some((display_text(utf8_lossy_text(b.subrange(start, end))), end))
        }
    }
}

pub fn read_lnk_counted_string(bytes: &[u8], offset: usize, is_unicode: bool) -> (r: Option<
    (String, usize),
>)
    ensures
        match r {
            Some((s, e)) => counted_string(bytes@, offset as int, is_unicode) == Some(
                (s@, e as int),
            ),
            None => counted_string(bytes@, offset as int, is_unicode) is None,
        },
{
    let count = read_u16_le(bytes, offset);
    if count.is_none() {
        return None;
    }
    let chars = count.unwrap() as usize;
    assert(offset + 2 <= bytes.len());
    let start = offset + 2;
    let byte_len = if is_unicode {
        chars * 2
    } else {
        chars
    };
    if byte_len > bytes.len() - start {
        return None;
    }
    let end = start + byte_len;
    let raw = slice_to_vec_u8(bytes, start, end);
    let value = if is_unicode {
        decode_utf16le_lossy(raw.as_slice())
    } else {
        let lossy = utf8_lossy(raw.as_slice());
        let lc = chars_of(lossy.as_str());
        let d = display_text_chars(lc.as_slice());
        string_from(d.as_slice())
    };
    Some((value, end))
}

/// The first index at or after `i` and before `max` that holds a zero byte, or
/// `max`.
pub open spec fn nul_from(b: Seq<u8>, i: int, max: int) -> int
    decreases max - i,
{
    if i >= max {
        max
    } else if b[i] == 0 {
        i
    } else {
        nul_from(b, i + 1, max)
    }
}

/// The NUL-terminated ASCII string at `base + relative`, within `end`, shown as
/// display text; none when the offset is zero, out of range, or the text is
/// empty.
pub open spec fn ascii_at(b: Seq<u8>, base: int, relative: int, end: int) -> Option<Seq<char>> {
    let start = base + relative;
    if relative == 0 || start > usize::MAX || start >= end || start >= b.len() {
        None
    } else {
        let max = if end < b.len() {
            end
        } else {
            b.len() as int
        };
        let v = display_text(utf8_lossy_text(b.subrange(start, nul_from(b, start, max))));
        if v.len() == 0 {
            None
        } else {
            Some(v)
        }
    }
}

pub fn read_lnk_ascii_at(bytes: &[u8], base: usize, relative: usize, end: usize) -> (r: Option<String>)
    ensures
        opt_view(r) == ascii_at(bytes@, base as int, relative as int, end as int),
{
    if relative == 0 {
        return None;
    }
    let start = match base.checked_add(relative) {
        Some(s) => s,
        None => {
            return None;
        },
    };
    if start >= end || start >= bytes.len() {
        return None;
    }
    let max = if end < bytes.len() {
        end
    } else {
        bytes.len()
    };
    let mut nul = start;
    while nul < max && bytes[nul] != 0
        invariant
            start <= nul <= max,
            max <= bytes.len(),
            nul_from(bytes@, start as int, max as int) == nul_from(bytes@, nul as int, max as int),
        decreases max - nul,
    {
        nul = nul + 1;
    }
    let raw = slice_to_vec_u8(bytes, start, nul);
    let lossy = utf8_lossy(raw.as_slice());
    let lc = chars_of(lossy.as_str());
    let d = display_text_chars(lc.as_slice());
    if d.len() == 0 {
        None
    } else {
        Some(string_from(d.as_slice()))
    }
}

/// The first even offset at or after `c` (stepping by two from `start`) before
/// `max` where two zero bytes are, or where fewer than two bytes are left.
pub open spec fn utf16_end_from(b: Seq<u8>, c: int, max: int) -> int
    decreases max - c,
{
    if c + 1 >= max {
        c
    } else if b[c] == 0 && b[c + 1] == 0 {
        c
    } else {
        utf16_end_from(b, c + 2, max)
    }
}

/// The NUL-terminated UTF-16LE string at `base + relative`, within `end`; none
/// when the offset is zero, out of range, or the text is empty.
pub open spec fn utf16_at(b: Seq<u8>, base: int, relative: int, end: int) -> Option<Seq<char>> {
    let start = base + relative;
    if relative == 0 || start > usize::MAX || start + 2 > end || start + 2 > b.len() {
        None
    } else {
        let max = if end < b.len() {
            end
        } else {
            b.len() as int
        };
        let v = utf16le_field(b.subrange(start, utf16_end_from(b, start, max)));
        if v.len() == 0 {
            None
        } else {
            Some(v)
        }
    }
}

pub fn read_lnk_utf16_at(bytes: &[u8], base: usize, relative: usize, end: usize) -> (r: Option<String>)
    ensures
        opt_view(r) == utf16_at(bytes@, base as int, relative as int, end as int),
{
    if relative == 0 {
        return None;
    }
    let start = match base.checked_add(relative) {
        Some(s) => s,
        None => {
            return None;
        },
    };
    if start > end || end - start < 2 || start > bytes.len() || bytes.len() - start < 2 {
        return None;
    }
    let max = if end < bytes.len() {
        end
    } else {
        bytes.len()
    };
    let mut cursor = start;
    while max - cursor > 1
        invariant
            start <= cursor <= max,
            max <= bytes.len(),
            utf16_end_from(bytes@, start as int, max as int) == utf16_end_from(
                bytes@,
                cursor as int,
                max as int,
            ),
        ensures
            start <= cursor <= max,
            utf16_end_from(bytes@, start as int, max as int) == cursor,
        decreases max - cursor,
    {
        if bytes[cursor] == 0 && bytes[cursor + 1] == 0 {
            break ;
        }
        cursor = cursor + 2;
    }
    let raw = slice_to_vec_u8(bytes, start, cursor);
    let v = decode_utf16le_lossy(raw.as_slice());
    if v.as_str().is_empty() {
        None
    } else {
        Some(v)
    }
}

// ---------------------------------------------------------------------------
// Targets and machines
// ---------------------------------------------------------------------------
/// The target of a shortcut from its base path and suffix: the base when the
/// suffix is empty or already ends it, else both joined by `\\`.
pub open spec fn join_target(base: Option<Seq<char>>, suffix: Option<Seq<char>>) -> Option<Seq<char>> {
    match base {
        None => None,
        Some(b) => {
            let t = trim(b);
            let s = trim_set(
                match suffix {
                    Some(x) => x,
                    None => Seq::empty(),
                },
                seq!['\\', '/'],
            );
            if t.len() == 0 {
                None
            } else if s.len() == 0 || ends_with(t, s) {
                Some(t)
            } else {
                Some(trim_end_set(t, seq!['\\', '/']) + seq!['\\'] + s)
            }
        },
    }
}

pub open spec fn str_view(o: Option<&str>) -> Option<Seq<char>> {
    match o {
        Some(s) => Some(s@),
        None => None,
    }
}

pub fn lnk_join_target(base: Option<&str>, suffix: Option<&str>) -> (r: Option<String>)
    ensures
        opt_view(r) == join_target(str_view(base), str_view(suffix)),
{
    let b = match base {
        Some(b) => b,
        None => {
            return None;
        },
    };
    let bv = chars_of(b);
    let t = trim_chars(bv.as_slice());
    if t.len() == 0 {
        return None;
    }
    let sv: Vec<char> = match suffix {
        Some(x) => chars_of(x),
        None => Vec::new(),
    };
    assert(suffix is None ==> sv@ =~= Seq::<char>::empty());
    let seps = ['\\', '/'];
    assert(seps@ =~= seq!['\\', '/']);
    let s = trim_set_chars(sv.as_slice(), &seps);
    if s.len() == 0 || ends_with_chars(t.as_slice(), s.as_slice()) {
        return Some(string_from(t.as_slice()));
    }
    let mut j = t.len();
    assert(t@.subrange(0, j as int) =~= t@);
    while j > 0 && (t[j - 1] == '\\' || t[j - 1] == '/')
        invariant
            j <= t.len(),
            trim_end_set(t@, seq!['\\', '/']) == trim_end_set(t@.subrange(0, j as int), seq!['\\', '/']),
        decreases j,
    {
        assert(t@.subrange(0, j as int).drop_last() =~= t@.subrange(0, j - 1));
        j = j - 1;
    }
    let head = slice_to_vec(t.as_slice(), 0, j);
    let bs = ['\\'];
    let a = concat_chars(head.as_slice(), &bs);
    let out = concat_chars(a.as_slice(), s.as_slice());
    assert(bs@ =~= seq!['\\']);
    Some(string_from(out.as_slice()))
}

/// A machine name: 3 to 32 letters, digits, `-` or `_`, at least one a letter.
pub open spec fn machine_name(v: Seq<char>) -> bool {
    3 <= utf8_len(v) <= 32 && (forall|k: int| 0 <= k < v.len() ==> (is_ascii_alnum(#[trigger] v[k])
        || v[k] == '-' || v[k] == '_')) && exists|k: int| 0 <= k < v.len() && is_ascii_alpha(#[trigger] v[k])
}

/// The first trimmed string of a block that is a machine name.
pub open spec fn machine_from(vs: Seq<Seq<char>>, i: int) -> Option<Seq<char>>
    decreases vs.len() - i,
{
    if i < 0 || i >= vs.len() {
        None
    } else if machine_name(trim(vs[i])) {
        Some(trim(vs[i]))
    } else {
        machine_from(vs, i + 1)
    }
}

fn machine_name_exec(v: &[char]) -> (r: bool)
    ensures
        r == machine_name(v@),
{
    let n = utf8_len_of(v);
    if n < 3 || n > 32 {
        return false;
    }
    let mut i: usize = 0;
    let mut alpha = false;
    while i < v.len()
        invariant
            i <= v.len(),
            forall|k: int| 0 <= k < i ==> (is_ascii_alnum(#[trigger] v@[k]) || v@[k] == '-' || v@[k]
                == '_'),
            alpha <==> exists|k: int| 0 <= k < i && is_ascii_alpha(#[trigger] v@[k]),
        decreases v.len() - i,
    {
        let c = v[i];
        if !(char_is_ascii_alnum(c) || c == '-' || c == '_') {
            return false;
        }
        if char_is_ascii_alpha(c) {
            alpha = true;
        }
        i = i + 1;
    }
    alpha
}

pub fn lnk_machine_id_hint(bytes: &[u8]) -> (r: Option<String>)
    ensures
        opt_view(r) == machine_from(all_strings(bytes@), 0),
{
    let vs = all_strings_exec(bytes);
    let ghost all = string_views(vs@);
    let mut i: usize = 0;
    while i < vs.len()
        invariant
            i <= vs.len(),
            all == string_views(vs@),
            all == all_strings(bytes@),
            machine_from(all, 0) == machine_from(all, i as int),
        decreases vs.len() - i,
    {
        assert(all[i as int] == vs@[i as int]@);
        let c = chars_of(vs[i].as_str());
        let t = trim_chars(c.as_slice());
        if machine_name_exec(t.as_slice()) {
            return Some(string_from(t.as_slice()));
        }
        i = i + 1;
    }
    None
}

} // verus!
