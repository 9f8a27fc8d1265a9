//! ESE (Extensible Storage Engine) databases: the header fields, the first pages
//! and the tags of each page, read without a database engine.
use vstd::prelude::*;
use crate::binary::{
    u16_at, u32_at, u64_at, ese_page_size, ese_signature_from, find_ese_signature, fits, infer_ese_page_size, le16, le32,
    le64, read_u16_le, read_u32_le, read_u64_le,
};
use crate::decode::opt_view;
use crate::mft::slice_bytes;
use crate::strings::{all_strings, all_strings_exec, string_views};
use crate::text::{
    chars_of, contains, contains_str, lower, lower_chars, string_from, utf8_len, utf8_len_of,
};
use crate::textlog::{truncate, truncated};

verus! {

// ---------------------------------------------------------------------------
// Strings of a page or a value
// ---------------------------------------------------------------------------
/// The first string of some data (ASCII ones first) of at least four bytes.
pub open spec fn first_long_string(vs: Seq<Seq<char>>, i: int) -> Option<Seq<char>>
    decreases vs.len() - i,
{
    if i < 0 || i >= vs.len() {
        None
    } else if utf8_len(vs[i]) >= 4 {
        Some(vs[i])
    } else {
        first_long_string(vs, i + 1)
    }
}

/// A preview of a tag's value: its first string of four bytes or more, cut to 160
/// characters.
pub open spec fn tag_value_preview(b: Seq<u8>) -> Option<Seq<char>> {
    match first_long_string(all_strings(b), 0) {
        Some(s) => Some(truncated(s, 160)),
        None => None,
    }
}

pub fn ese_tag_value_preview(bytes: &[u8]) -> (r: Option<String>)
    ensures
        opt_view(r) == tag_value_preview(bytes@),
{
    let vs = all_strings_exec(bytes);
    let ghost all = string_views(vs@);
    let mut i: usize = 0;
    while i < vs.len()
        invariant
            i <= vs.len(),
            all == string_views(vs@),
            all == all_strings(bytes@),
            first_long_string(all, 0) == first_long_string(all, i as int),
        decreases vs.len() - i,
    {
        assert(all[i as int] == vs@[i as int]@);
        let c = chars_of(vs[i].as_str());
        if utf8_len_of(c.as_slice()) >= 4 {
            return Some(truncate(vs[i].as_str(), 160));
        }
        i = i + 1;
    }
    None
}

/// A string that may name a table of a known database.
pub open spec fn table_like(v: Seq<char>) -> bool {
    let l = lower(v);
    contains(l, "table"@) || contains(l, "container_"@) || contains(l, "msys"@) || contains(
        l,
        "sru"@,
    ) || contains(l, "webcache"@) || contains(l, "history"@) || contains(l, "url"@)
}

/// The table names of `vs[i..]` not yet in `acc`, each cut to 180 characters; at
/// most twelve.
pub open spec fn table_hints_from(vs: Seq<Seq<char>>, i: int, acc: Seq<Seq<char>>) -> Seq<
    Seq<char>,
>
    decreases vs.len() - i,
{
    if i < 0 || i >= vs.len() {
        acc
    } else if !table_like(vs[i]) || acc.contains(vs[i]) {
        table_hints_from(vs, i + 1, acc)
    } else {
        let next = acc.push(truncated(vs[i], 180));
        if next.len() >= 12 {
            next
        } else {
            table_hints_from(vs, i + 1, next)
        }
    }
}

pub open spec fn table_hints(page: Seq<u8>) -> Seq<Seq<char>> {
    table_hints_from(all_strings(page), 0, Seq::empty())
}

pub fn ese_page_table_name_hints(page: &[u8]) -> (r: Vec<String>)
    ensures
        string_views(r@) == table_hints(page@),
{
    let vs = all_strings_exec(page);
    let ghost all = string_views(vs@);
    let mut out: Vec<String> = Vec::new();
    assert(string_views(out@) =~= Seq::<Seq<char>>::empty());
    let mut i: usize = 0;
    while i < vs.len()
        invariant
            i <= vs.len(),
            all == string_views(vs@),
            all == all_strings(page@),
            table_hints(page@) == table_hints_from(all, i as int, string_views(out@)),
        decreases vs.len() - i,
    {
        assert(all[i as int] == vs@[i as int]@);
        let c = chars_of(vs[i].as_str());
        let l = lower_chars(c.as_slice());
        let s = l.as_slice();
        let table = contains_str(s, "table") || contains_str(s, "container_") || contains_str(
            s,
            "msys",
        ) || contains_str(s, "sru") || contains_str(s, "webcache") || contains_str(s, "history")
            || contains_str(s, "url");
        if table && !crate::strings::contains_chars_vec_pub(&out, c.as_slice()) {
            let ghost prev = string_views(out@);
            let t = truncate(vs[i].as_str(), 180);
            out.push(t);
            assert(string_views(out@) =~= prev.push(truncated(all[i as int], 180)));
            if out.len() >= 12 {
                return out;
            }
        }
        i = i + 1;
    }
    out
}

// ---------------------------------------------------------------------------
// Tags
// ---------------------------------------------------------------------------
/// A tag of a page: where its value lies and a preview of it.
#[derive(Debug, Clone)]
pub struct EseTagSummary {
    pub tag_index: usize,
    pub offset: usize,
    pub absolute_offset: usize,
    pub length: usize,
    pub flags_hint: u16,
    pub value_preview: Option<String>,
}

pub open spec fn tag_view(t: EseTagSummary) -> (int, int, int, int, int, Option<Seq<char>>) {
    (
        t.tag_index as int,
        t.offset as int,
        t.absolute_offset as int,
        t.length as int,
        t.flags_hint as int,
        opt_view(t.value_preview),
    )
}

pub open spec fn tag_views(v: Seq<EseTagSummary>) -> Seq<(int, int, int, int, int, Option<Seq<char>>)> {
    v.map_values(|t: EseTagSummary| tag_view(t))
}

/// The tags `i..count` of a page whose tag array of `count` four-byte entries
/// ends the page, starting at `area`. An entry holds a 13-bit offset with three
/// flag bits above it, then a length; empty tags and those that leave the page are
/// skipped.
pub open spec fn tags_from(page: Seq<u8>, po: int, count: int, area: int, i: int) -> Seq<
    (int, int, int, int, int, Option<Seq<char>>),
>
    decreases count - i,
{
    if i < 0 || i >= count {
        Seq::empty()
    } else {
        let entry = area + 4 * i;
        let raw = le16(page, entry);
        let off = raw % 8192;
        let len = le16(page, entry + 2);
        if len == 0 || off >= page.len() || off + len > page.len() {
            tags_from(page, po, count, area, i + 1)
        } else {
            seq![
                (i, off, po + off, len, raw / 8192, tag_value_preview(page.subrange(off, off + len))),
            ] + tags_from(page, po, count, area, i + 1)
        }
    }
}

/// The tags of a page at offset `po`: none unless the page declares, at byte 22,
/// between 1 and 256 tags that fit in it.
pub open spec fn page_tags(page: Seq<u8>, po: int) -> Seq<(int, int, int, int, int, Option<Seq<char>>)> {
    if !fits(page, 22, 2) {
        Seq::empty()
    } else {
        let count = le16(page, 22);
        if count == 0 || count > 256 || count * 4 > page.len() {
            Seq::empty()
        } else {
            tags_from(page, po, count, page.len() - count * 4, 0)
        }
    }
}

proof fn lemma_tag_bits(raw: u16)
    by (bit_vector)
    ensures
        raw & 0x1fff == raw % 8192,
        raw >> 13u16 == raw / 8192,
{
}

pub fn parse_ese_page_tags(page: &[u8], page_offset: usize) -> (r: Vec<EseTagSummary>)
    requires
        page_offset + page@.len() <= usize::MAX,
    ensures
        tag_views(r@) == page_tags(page@, page_offset as int),
{
    let count = match read_u16_le(page, 22) {
        Some(v) => v as usize,
        None => {
            return Vec::new();
        },
    };
    if count == 0 || count > 256 || count * 4 > page.len() {
        return Vec::new();
    }
    let area = page.len() - count * 4;
    let ghost tc = count as int;
    let mut out: Vec<EseTagSummary> = Vec::new();
    let mut i: usize = 0;
    assert(tag_views(out@) =~= Seq::<(int, int, int, int, int, Option<Seq<char>>)>::empty());
    while i < count
        invariant
            i <= count <= 256,
            count * 4 <= page.len(),
            area == page.len() - count * 4,
            page_offset + page@.len() <= usize::MAX,
            page_tags(page@, page_offset as int) == tag_views(out@) + tags_from(
                page@,
                page_offset as int,
                count as int,
                area as int,
                i as int,
            ),
        decreases count - i,
    {
        let entry = area + i * 4;
        let raw = read_u16_le(page, entry).unwrap();
        let len16 = read_u16_le(page, entry + 2).unwrap();
        proof {
            lemma_tag_bits(raw);
        }
        let offset = (raw & 0x1fff) as usize;
        let flags = raw >> 13;
        let length = len16 as usize;
        let ghost rest = tags_from(page@, page_offset as int, count as int, area as int, i + 1);
        if length == 0 || offset >= page.len() || length > page.len() - offset {
            assert(tags_from(page@, page_offset as int, count as int, area as int, i as int) == rest);
        } else {
            let value = slice_bytes(page, offset, offset + length);
            let preview = ese_tag_value_preview(value.as_slice());
            let ghost prev = tag_views(out@);
            let tag = EseTagSummary {
                tag_index: i,
                offset,
                absolute_offset: page_offset + offset,
                length,
                flags_hint: flags,
                value_preview: preview,
            };
            out.push(tag);
            assert(tag_views(out@) =~= prev.push(tag_view(tag)));
            assert(tag_views(out@) + rest =~= prev + tags_from(
                page@,
                page_offset as int,
                count as int,
                area as int,
                i as int,
            ));
        }
        i = i + 1;
    }
    assert(tag_views(out@) + tags_from(page@, page_offset as int, count as int, area as int, count as int)
        =~= tag_views(out@));
    out
}

// ---------------------------------------------------------------------------
// Structure
// ---------------------------------------------------------------------------
/// One of the first pages of a database.
#[derive(Debug, Clone)]
pub struct EsePageSummary {
    pub page_number: usize,
    pub offset: usize,
    pub length: usize,
    pub checksum_hint: Option<u32>,
    pub page_number_hint: Option<u32>,
    pub dbtime_hint: Option<u64>,
    pub flags_hint: Option<u32>,
    pub tag_count_hint: Option<u16>,
    pub nonzero_bytes: usize,
    pub tags: Vec<EseTagSummary>,
    pub table_name_hints: Vec<String>,
}

/// What the header and the first pages of a database say.
#[derive(Debug, Clone)]
pub struct EseStructure {
    pub page_size: Option<usize>,
    pub page_count: Option<usize>,
    pub signature_offset: Option<usize>,
    pub pages: Vec<EsePageSummary>,
}

/// The number of non-zero bytes.
pub open spec fn nonzero_count(b: Seq<u8>) -> nat
    decreases b.len(),
{
    if b.len() == 0 {
        0
    } else {
        nonzero_count(b.drop_last()) + if b.last() != 0 {
            1nat
        } else {
            0nat
        }
    }
}

/// The page size: the header's value at 0xec when it is a valid ESE page size,
/// else the largest page size that divides the file length.
pub open spec fn ese_declared_page_size(b: Seq<u8>) -> Option<usize> {
    match u32_at(b, 0xec) {
        Some(v) => if v == 2048 || v == 4096 || v == 8192 || v == 16384 || v == 32768 {
            Some(v as usize)
        } else {
            ese_page_size(b.len() as int)
        },
        None => ese_page_size(b.len() as int),
    }
}

/// Summary `p` describes page `n` of size `size` of the file `b`.
pub open spec fn page_summary_of(b: Seq<u8>, n: int, size: int, p: EsePageSummary) -> bool {
    let page = b.subrange(n * size, n * size + size);
    &&& p.page_number == n
    &&& p.offset == n * size
    &&& p.length == size
    &&& p.checksum_hint == u32_at(page, 0)
    &&& p.page_number_hint == u32_at(page, 4)
    &&& p.dbtime_hint == u64_at(page, 8)
    &&& p.flags_hint == u32_at(page, 20)
    &&& p.tag_count_hint == u16_at(page, 22)
    &&& p.nonzero_bytes == nonzero_count(page)
    &&& tag_views(p.tags@) == page_tags(page, n * size)
    &&& string_views(p.table_name_hints@) == table_hints(page)
}

fn nonzero_bytes_exec(b: &[u8]) -> (r: usize)
    ensures
        r == nonzero_count(b@),
{
    let mut n: usize = 0;
    let mut i: usize = 0;
    while i < b.len()
        invariant
            i <= b.len(),
            n == nonzero_count(b@.take(i as int)),
            n <= i,
        decreases b.len() - i,
    {
        assert(b@.take(i + 1).drop_last() =~= b@.take(i as int));
        if b[i] != 0 {
            n = n + 1;
        }
        i = i + 1;
    }
    assert(b@.take(b.len() as int) =~= b@);
    n
}

fn page_summary(bytes: &[u8], n: usize, size: usize) -> (r: EsePageSummary)
    requires
        n * size + size <= bytes.len(),
    ensures
        page_summary_of(bytes@, n as int, size as int, r),
{
    let offset = n * size;
    let page = slice_bytes(bytes, offset, offset + size);
    let p = page.as_slice();
    EsePageSummary {
        page_number: n,
        offset,
        length: size,
        checksum_hint: read_u32_le(p, 0),
        page_number_hint: read_u32_le(p, 4),
        dbtime_hint: read_u64_le(p, 8),
        flags_hint: read_u32_le(p, 20),
        tag_count_hint: read_u16_le(p, 22),
        nonzero_bytes: nonzero_bytes_exec(p),
        tags: parse_ese_page_tags(p, offset),
        table_name_hints: ese_page_table_name_hints(p),
    }
}

pub fn parse_ese_structure(bytes: &[u8]) -> (r: EseStructure)
    ensures
        r.signature_offset == (match ese_signature_from(bytes@, 0) {
            Some(i) => Some(i as usize),
            None => None::<usize>,
        }),
        r.page_size == ese_declared_page_size(bytes@),
        r.page_count == (match ese_declared_page_size(bytes@) {
            Some(size) => if (bytes@.len() as int) / (size as int) > 0 {
                Some(((bytes@.len() as int) / (size as int)) as usize)
            } else {
                None
            },
            None => None,
        }),
        r.pages@.len() == (match r.page_count {
            Some(c) => if c < 8 {
                c as int
            } else {
                8
            },
            None => 0,
        }),
        forall|k: int|
            0 <= k < r.pages@.len() ==> page_summary_of(
                bytes@,
                k,
                r.page_size.unwrap() as int,
                #[trigger] r.pages@[k],
            ),
{
    let signature_offset = find_ese_signature(bytes);
    let declared = match read_u32_le(bytes, 0xec) {
        Some(v) => if v == 2048 || v == 4096 || v == 8192 || v == 16384 || v == 32768 {
            Some(v as usize)
        } else {
            None
        },
        None => None,
    };
    let page_size = match declared {
        Some(v) => Some(v),
        None => infer_ese_page_size(bytes),
    };
    let page_count = match page_size {
        Some(size) => {
            assert(size > 0);
            let c = bytes.len() / size;
            if c > 0 {
                Some(c)
            } else {
                None
            }
        },
        None => None,
    };
    let mut pages: Vec<EsePageSummary> = Vec::new();
    match (page_size, page_count) {
        (Some(size), Some(count)) => {
            let limit = if count < 8 {
                count
            } else {
                8
            };
            let mut n: usize = 0;
            while n < limit
                invariant
                    n <= limit <= count,
                    size > 0,
                    count == (bytes@.len() as int) / (size as int),
                    pages@.len() == n,
                    forall|k: int|
                        0 <= k < n ==> page_summary_of(bytes@, k, size as int, #[trigger] pages@[k]),
                decreases limit - n,
            {
                assert(n * size + size <= bytes.len()) by (nonlinear_arith)
                    requires
                        n < count,
                        count == (bytes@.len() as int) / (size as int),
                        size > 0,
                ;
                let p = page_summary(bytes, n, size);
                pages.push(p);
                n = n + 1;
            }
        },
        _ => {},
    }
    EseStructure { page_size, page_count, signature_offset, pages }
}

} // verus!
