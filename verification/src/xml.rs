//! Reading exported Windows event XML and CSV lines without a full parser:
//! entity decoding, tags, attributes, `<Data>` items, event chunks and quoted
//! CSV fields.
use vstd::prelude::*;
use crate::decode::{clean, clean_chars, opt_view};
use crate::row::{
    decimal_string, decimal_text, distinct_names, entries, lemma_row_put, row_index, row_index_exec,
    row_put,
};
use crate::text::{
    chars_of, concat_chars, find_from, find_from_chars, match_at, push_all, seq_eq, slice_to_vec,
    string_from, trim, trim_chars, vviews,
};

verus! {

// ---------------------------------------------------------------------------
// Entities
// ---------------------------------------------------------------------------
/// `s[i..]` with every occurrence of a non-empty `p` replaced by `r`, left to
/// right, as `str::replace` does.
pub open spec fn replace_from(s: Seq<char>, p: Seq<char>, r: Seq<char>, i: int) -> Seq<char>
    decreases s.len() - i,
{
    if i < 0 || i > s.len() || p.len() == 0 {
        Seq::empty()
    } else {
        match find_from(s, p, i) {
            Some(k) => if i <= k && k + p.len() <= s.len() {
                s.subrange(i, k) + r + replace_from(s, p, r, k + p.len())
            } else {
                Seq::empty()
            },
            None => s.subrange(i, s.len() as int),
        }
    }
}

pub open spec fn replace_all(s: Seq<char>, p: Seq<char>, r: Seq<char>) -> Seq<char> {
    if p.len() == 0 {
        s
    } else {
        replace_from(s, p, r, 0)
    }
}

/// The five predefined XML entities decoded, `&amp;` last.
pub open spec fn xml_decoded(s: Seq<char>) -> Seq<char> {
    replace_all(
        replace_all(
            replace_all(
                replace_all(replace_all(s, "&lt;"@, "<"@), "&gt;"@, ">"@),
                "&quot;"@,
                "\""@,
            ),
            "&apos;"@,
            "'"@,
        ),
        "&amp;"@,
        "&"@,
    )
}

pub proof fn lemma_find_from_bounds(h: Seq<char>, n: Seq<char>, i: int)
    ensures
        match find_from(h, n, i) {
            Some(k) => i <= k && k + n.len() <= h.len() && match_at(h, n, k),
            None => true,
        },
    decreases h.len() - i,
{
    if !(i < 0 || i + n.len() > h.len()) && !match_at(h, n, i) {
        lemma_find_from_bounds(h, n, i + 1);
    }
}

fn replace_chars(s: &[char], p: &str, r: &str) -> (out: Vec<char>)
    ensures
        out@ == replace_all(s@, p@, r@),
{
    let pv = chars_of(p);
    let rv = chars_of(r);
    if pv.len() == 0 {
        return slice_to_vec(s, 0, s.len());
    }
    let mut out: Vec<char> = Vec::new();
    let mut i: usize = 0;
    assert(s@.subrange(0, s@.len() as int) =~= s@);
    while i <= s.len()
        invariant
            i <= s.len(),
            pv@ == p@,
            rv@ == r@,
            pv@.len() > 0,
            replace_all(s@, p@, r@) == out@ + replace_from(s@, p@, r@, i as int),
        decreases s.len() + 1 - i,
    {
        proof {
            lemma_find_from_bounds(s@, p@, i as int);
        }
        match find_from_chars(s, pv.as_slice(), i) {
            Some(k) => {
                let head = slice_to_vec(s, i, k);
                let ghost prev = out@;
                push_all(&mut out, head.as_slice());
                push_all(&mut out, rv.as_slice());
                assert(prev + replace_from(s@, p@, r@, i as int) =~= out@ + replace_from(
                    s@,
                    p@,
                    r@,
                    k + pv.len(),
                ));
                i = k + pv.len();
            },
            None => {
                let tail = slice_to_vec(s, i, s.len());
                let ghost prev = out@;
                push_all(&mut out, tail.as_slice());
                assert(prev + replace_from(s@, p@, r@, i as int) =~= out@);
                return out;
            },
        }
    }
    out
}

pub(crate) fn xml_decode_chars(s: &[char]) -> (r: Vec<char>)
    ensures
        r@ == xml_decoded(s@),
{
    let a = replace_chars(s, "&lt;", "<");
    let b = replace_chars(a.as_slice(), "&gt;", ">");
    let c = replace_chars(b.as_slice(), "&quot;", "\"");
    let d = replace_chars(c.as_slice(), "&apos;", "'");
    replace_chars(d.as_slice(), "&amp;", "&")
}

/// A value with the predefined XML entities decoded.
pub fn decode_xml_entities(value: &str) -> (r: String)
    ensures
        r@ == xml_decoded(value@),
{
    let v = chars_of(value);
    let d = xml_decode_chars(v.as_slice());
    string_from(d.as_slice())
}

// ---------------------------------------------------------------------------
// Tags and attributes
// ---------------------------------------------------------------------------
/// The cleaned, decoded value of the attribute `attr` in the text of a tag.
pub open spec fn attr_value(t: Seq<char>, attr: Seq<char>) -> Option<Seq<char>> {
    let pat = attr + "=\""@;
    match find_from(t, pat, 0) {
        Some(k) => {
            let start = k + pat.len();
            match find_from(t, "\""@, start) {
                Some(end) => clean(xml_decoded(t.subrange(start, end))),
                None => None,
            }
        },
        None => None,
    }
}

pub(crate) fn attr_chars(t: &[char], attr: &str) -> (r: Option<Vec<char>>)
    ensures
        match r {
            Some(v) => attr_value(t@, attr@) == Some(v@),
            None => attr_value(t@, attr@) is None,
        },
{
    let av = chars_of(attr);
    let q = chars_of("=\"");
    let pat = concat_chars(av.as_slice(), q.as_slice());
    proof {
        lemma_find_from_bounds(t@, pat@, 0);
    }
    let k = match find_from_chars(t, pat.as_slice(), 0) {
        Some(k) => k,
        None => {
            return None;
        },
    };
    assert(k + pat.len() <= t.len());
    let start = k + pat.len();
    let dq = chars_of("\"");
    proof {
        lemma_find_from_bounds(t@, dq@, start as int);
    }
    let end = match find_from_chars(t, dq.as_slice(), start) {
        Some(e) => e,
        None => {
            return None;
        },
    };
    let raw = slice_to_vec(t, start, end);
    let dec = xml_decode_chars(raw.as_slice());
    clean_chars(dec.as_slice())
}

/// The cleaned, decoded value of an attribute in the text of a tag.
pub fn extract_attr(tag_text: &str, attr: &str) -> (r: Option<String>)
    ensures
        opt_view(r) == attr_value(tag_text@, attr@),
{
    let t = chars_of(tag_text);
    match attr_chars(t.as_slice(), attr) {
        Some(v) => Some(string_from(v.as_slice())),
        None => None,
    }
}

/// The cleaned, decoded text between the first `<tag` and the next `</tag>`.
pub open spec fn tag_value(t: Seq<char>, tag: Seq<char>) -> Option<Seq<char>> {
    match find_from(t, "<"@ + tag, 0) {
        Some(start) => match find_from(t, ">"@, start) {
            Some(gt) => match find_from(t, "</"@ + tag + ">"@, gt + 1) {
                Some(end) => clean(xml_decoded(t.subrange(gt + 1, end))),
                None => None,
            },
            None => None,
        },
        None => None,
    }
}

fn open_tag(tag: &str) -> (r: Vec<char>)
    ensures
        r@ == "<"@ + tag@,
{
    let lt = chars_of("<");
    let tv = chars_of(tag);
    concat_chars(lt.as_slice(), tv.as_slice())
}

fn close_tag(tag: &str) -> (r: Vec<char>)
    ensures
        r@ == "</"@ + tag@ + ">"@,
{
    let a = chars_of("</");
    let tv = chars_of(tag);
    let b = chars_of(">");
    let ab = concat_chars(a.as_slice(), tv.as_slice());
    concat_chars(ab.as_slice(), b.as_slice())
}

pub fn extract_xml_tag(text: &str, tag: &str) -> (r: Option<String>)
    ensures
        opt_view(r) == tag_value(text@, tag@),
{
    let t = chars_of(text);
    let t = t.as_slice();
    let open = open_tag(tag);
    let close = close_tag(tag);
    let gt = chars_of(">");
    proof {
        lemma_find_from_bounds(t@, open@, 0);
    }
    let start = match find_from_chars(t, open.as_slice(), 0) {
        Some(s) => s,
        None => {
            return None;
        },
    };
    proof {
        lemma_find_from_bounds(t@, gt@, start as int);
    }
    let g = match find_from_chars(t, gt.as_slice(), start) {
        Some(g) => g,
        None => {
            return None;
        },
    };
    proof {
        reveal_strlit(">");
    }
    assert(gt@.len() == 1);
    assert(g < t.len());
    proof {
        lemma_find_from_bounds(t@, close@, g + 1);
    }
    let end = match find_from_chars(t, close.as_slice(), g + 1) {
        Some(e) => e,
        None => {
            return None;
        },
    };
    let raw = slice_to_vec(t, g + 1, end);
    let dec = xml_decode_chars(raw.as_slice());
    match clean_chars(dec.as_slice()) {
        Some(v) => Some(string_from(v.as_slice())),
        None => None,
    }
}

/// The value of `attr` in the first `<tag ...>`.
pub open spec fn tag_attr_value(t: Seq<char>, tag: Seq<char>, attr: Seq<char>) -> Option<Seq<char>> {
    match find_from(t, "<"@ + tag, 0) {
        Some(start) => match find_from(t, ">"@, start) {
            Some(end) => attr_value(t.subrange(start, end + 1), attr),
            None => None,
        },
        None => None,
    }
}

pub fn extract_xml_attr_in_tag(text: &str, tag: &str, attr: &str) -> (r: Option<String>)
    ensures
        opt_view(r) == tag_attr_value(text@, tag@, attr@),
{
    let t = chars_of(text);
    let t = t.as_slice();
    let open = open_tag(tag);
    let gt = chars_of(">");
    proof {
        lemma_find_from_bounds(t@, open@, 0);
    }
    let start = match find_from_chars(t, open.as_slice(), 0) {
        Some(s) => s,
        None => {
            return None;
        },
    };
    proof {
        reveal_strlit(">");
        lemma_find_from_bounds(t@, gt@, start as int);
    }
    let end = match find_from_chars(t, gt.as_slice(), start) {
        Some(e) => e,
        None => {
            return None;
        },
    };
    let tag_text = slice_to_vec(t, start, end + 1);
    match attr_chars(tag_text.as_slice(), attr) {
        Some(v) => Some(string_from(v.as_slice())),
        None => None,
    }
}

// ---------------------------------------------------------------------------
// Repeated elements
// ---------------------------------------------------------------------------
/// The `<tag ...>...</tag>` blocks of `t[off..]`, in order, each from its
/// opening to its closing tag.
pub open spec fn blocks_from(t: Seq<char>, open: Seq<char>, close: Seq<char>, off: int) -> Seq<
    Seq<char>,
>
    decreases t.len() - off,
{
    if off < 0 || off > t.len() || close.len() == 0 {
        Seq::empty()
    } else {
        match find_from(t, open, off) {
            Some(start) => match find_from(t, ">"@, start) {
                Some(g) => match find_from(t, close, g + 1) {
                    Some(e) => if off <= start && start <= g && g + 1 <= e && e + close.len()
                        <= t.len() {
                        seq![t.subrange(start, e + close.len())] + blocks_from(
                            t,
                            open,
                            close,
                            e + close.len(),
                        )
                    } else {
                        Seq::empty()
                    },
                    None => Seq::empty(),
                },
                None => Seq::empty(),
            },
            None => Seq::empty(),
        }
    }
}

fn blocks_chars(t: &[char], open: &[char], close: &[char]) -> (r: Vec<Vec<char>>)
    requires
        close@.len() > 0,
    ensures
        vviews(r@) == blocks_from(t@, open@, close@, 0),
{
    let gt = chars_of(">");
    let mut out: Vec<Vec<char>> = Vec::new();
    let mut off: usize = 0;
    while off <= t.len()
        invariant
            off <= t.len(),
            gt@ == ">"@,
            close@.len() > 0,
            blocks_from(t@, open@, close@, 0) == vviews(out@) + blocks_from(
                t@,
                open@,
                close@,
                off as int,
            ),
        decreases t.len() + 1 - off,
    {
        proof {
            lemma_find_from_bounds(t@, open@, off as int);
        }
        let start = match find_from_chars(t, open, off) {
            Some(s) => s,
            None => {
                assert(vviews(out@) + blocks_from(t@, open@, close@, off as int) =~= vviews(
                    out@,
                ));
                return out;
            },
        };
        proof {
            lemma_find_from_bounds(t@, gt@, start as int);
        }
        let g = match find_from_chars(t, gt.as_slice(), start) {
            Some(g) => g,
            None => {
                assert(vviews(out@) + blocks_from(t@, open@, close@, off as int) =~= vviews(
                    out@,
                ));
                return out;
            },
        };
        proof {
            reveal_strlit(">");
            lemma_find_from_bounds(t@, close@, g + 1);
        }
        let e = match find_from_chars(t, close, g + 1) {
            Some(e) => e,
            None => {
                assert(vviews(out@) + blocks_from(t@, open@, close@, off as int) =~= vviews(
                    out@,
                ));
                return out;
            },
        };
        let block = slice_to_vec(t, start, e + close.len());
        let ghost prev = vviews(out@);
        out.push(block);
        assert(vviews(out@) =~= prev.push(t@.subrange(start as int, e + close.len())));
        assert(prev + blocks_from(t@, open@, close@, off as int) =~= vviews(out@) + blocks_from(
            t@,
            open@,
            close@,
            e + close.len(),
        ));
        off = e + close.len();
    }
    out
}

fn strings_of(v: Vec<Vec<char>>) -> (r: Vec<String>)
    ensures
        crate::row::vec_strings(r@) == vviews(v@),
{
    let mut out: Vec<String> = Vec::new();
    let mut i: usize = 0;
    while i < v.len()
        invariant
            i <= v.len(),
            crate::row::vec_strings(out@) == vviews(v@).subrange(0, i as int),
        decreases v.len() - i,
    {
        let ghost prev = crate::row::vec_strings(out@);
        out.push(string_from(v[i].as_slice()));
        assert(crate::row::vec_strings(out@) =~= prev.push(v@[i as int]@));
        assert(vviews(v@).subrange(0, i + 1) =~= vviews(v@).subrange(0, i as int).push(
            v@[i as int]@,
        ));
        i = i + 1;
    }
    assert(vviews(v@).subrange(0, v@.len() as int) =~= vviews(v@));
    out
}

/// The `<tag ...>...</tag>` blocks of a text, in order.
pub fn extract_xml_blocks(text: &str, tag: &str) -> (r: Vec<String>)
    ensures
        crate::row::vec_strings(r@) == blocks_from(text@, "<"@ + tag@, "</"@ + tag@ + ">"@, 0),
{
    let t = chars_of(text);
    let open = open_tag(tag);
    let close = close_tag(tag);
    proof {
        reveal_strlit("</");
    }
    let bs = blocks_chars(t.as_slice(), open.as_slice(), close.as_slice());
    strings_of(bs)
}

/// The `<Event ...>...</Event>` chunks of `t[off..]`, in order.
pub open spec fn event_chunks_from(t: Seq<char>, off: int) -> Seq<Seq<char>>
    decreases t.len() - off,
{
    if off < 0 || off > t.len() {
        Seq::empty()
    } else {
        match find_from(t, "<Event"@, off) {
            Some(start) => match find_from(t, "</Event>"@, start) {
                Some(e) => if off <= start && start <= e && "</Event>"@.len() > 0 && e
                    + "</Event>"@.len() <= t.len() {
                    seq![t.subrange(start, e + "</Event>"@.len())] + event_chunks_from(
                        t,
                        e + "</Event>"@.len(),
                    )
                } else {
                    Seq::empty()
                },
                None => Seq::empty(),
            },
            None => Seq::empty(),
        }
    }
}

/// The `<Event ...>...</Event>` chunks of an XML export, in order.
pub fn xml_event_chunks(text: &str) -> (r: Vec<String>)
    ensures
        crate::row::vec_strings(r@) == event_chunks_from(text@, 0),
{
    let tv = chars_of(text);
    let t = tv.as_slice();
    let open = chars_of("<Event");
    let close = chars_of("</Event>");
    proof {
        reveal_strlit("</Event>");
    }
    let mut out: Vec<Vec<char>> = Vec::new();
    let mut off: usize = 0;
    while off <= t.len()
        invariant
            off <= t.len(),
            t@ == text@,
            open@ == "<Event"@,
            close@ == "</Event>"@,
            close@.len() > 0,
            event_chunks_from(t@, 0) == vviews(out@) + event_chunks_from(t@, off as int),
        decreases t.len() + 1 - off,
    {
        proof {
            lemma_find_from_bounds(t@, open@, off as int);
        }
        let start = match find_from_chars(t, open.as_slice(), off) {
            Some(s) => s,
            None => {
                assert(vviews(out@) + event_chunks_from(t@, off as int) =~= vviews(out@));
                return strings_of(out);
            },
        };
        proof {
            lemma_find_from_bounds(t@, close@, start as int);
        }
        let e = match find_from_chars(t, close.as_slice(), start) {
            Some(e) => e,
            None => {
                assert(vviews(out@) + event_chunks_from(t@, off as int) =~= vviews(out@));
                return strings_of(out);
            },
        };
        let chunk = slice_to_vec(t, start, e + close.len());
        let ghost prev = vviews(out@);
        out.push(chunk);
        assert(vviews(out@) =~= prev.push(t@.subrange(start as int, e + close.len())));
        assert(prev + event_chunks_from(t@, off as int) =~= vviews(out@) + event_chunks_from(
            t@,
            e + close.len(),
        ));
        off = e + close.len();
    }
    strings_of(out)
}

// ---------------------------------------------------------------------------
// CSV
// ---------------------------------------------------------------------------
/// The trimmed fields of `s[i..]`, given the current field and whether a
/// quote is open: commas outside quotes separate, `""` inside quotes is a
/// quote, and quotes themselves are dropped.
pub open spec fn csv_from(
    s: Seq<char>,
    i: int,
    cur: Seq<char>,
    quoted: bool,
    acc: Seq<Seq<char>>,
) -> Seq<Seq<char>>
    decreases s.len() - i,
{
    if i < 0 || i >= s.len() {
        acc.push(trim(cur))
    } else {
        let c = s[i];
        if c == '"' && quoted && i + 1 < s.len() && s[i + 1] == '"' {
            csv_from(s, i + 2, cur.push('"'), quoted, acc)
        } else if c == '"' {
            csv_from(s, i + 1, cur, !quoted, acc)
        } else if c == ',' && !quoted {
            csv_from(s, i + 1, Seq::empty(), quoted, acc.push(trim(cur)))
        } else {
            csv_from(s, i + 1, cur.push(c), quoted, acc)
        }
    }
}

pub open spec fn csv_fields(line: Seq<char>) -> Seq<Seq<char>> {
    csv_from(line, 0, Seq::empty(), false, Seq::empty())
}

/// The fields of one CSV line, trimmed, with quotes honoured.
pub fn split_csv_line(line: &str) -> (r: Vec<String>)
    ensures
        crate::row::vec_strings(r@) == csv_fields(line@),
{
    let lv = chars_of(line);
    let s = lv.as_slice();
    let mut fields: Vec<Vec<char>> = Vec::new();
    let mut cur: Vec<char> = Vec::new();
    let mut quoted = false;
    let mut i: usize = 0;
    assert(vviews(fields@) =~= Seq::<Seq<char>>::empty());
    assert(cur@ =~= Seq::<char>::empty());
    while i < s.len()
        invariant
            i <= s.len(),
            s@ == line@,
            csv_fields(line@) == csv_from(s@, i as int, cur@, quoted, vviews(fields@)),
        decreases s.len() - i,
    {
        let c = s[i];
        if c == '"' && quoted && i + 1 < s.len() && s[i + 1] == '"' {
            cur.push('"');
            i = i + 2;
        } else if c == '"' {
            quoted = !quoted;
            i = i + 1;
        } else if c == ',' && !quoted {
            let t = trim_chars(cur.as_slice());
            let ghost prev = vviews(fields@);
            fields.push(t);
            assert(vviews(fields@) =~= prev.push(trim(cur@)));
            cur = Vec::new();
            assert(cur@ =~= Seq::<char>::empty());
            i = i + 1;
        } else {
            cur.push(c);
            i = i + 1;
        }
    }
    let t = trim_chars(cur.as_slice());
    let ghost prev = vviews(fields@);
    fields.push(t);
    assert(vviews(fields@) =~= prev.push(trim(cur@)));
    strings_of(fields)
}

// ---------------------------------------------------------------------------
// Event data
// ---------------------------------------------------------------------------
/// One `<Data>` item found at or after `off`, when there is one whose tag and
/// closing tag are present: where the search goes on, the item's name (its
/// `Name` attribute, or `Data` and `count + 1`), and its value when it has a
/// meaningful one.
#[verifier::opaque]
pub open spec fn data_step(t: Seq<char>, off: int, count: nat) -> Option<
    (int, Seq<char>, Option<Seq<char>>),
> {
    match find_from(t, "<Data"@, off) {
        None => None,
        Some(start) => match find_from(t, ">"@, start) {
            None => None,
            Some(g) => {
                let name = match attr_value(t.subrange(start, g + 1), "Name"@) {
                    Some(n) => n,
                    None => "Data"@ + decimal_text(count + 1),
                };
                match find_from(t, "</Data>"@, g + 1) {
                    None => None,
                    Some(e) => Some(
                        (e + "</Data>"@.len(), name, clean(xml_decoded(t.subrange(g + 1, e)))),
                    ),
                }
            },
        },
    }
}

/// The `<Data>` items of `t[off..]` added to `acc`, in order; a later item
/// replaces an earlier one of the same name.
pub open spec fn named_data_from(t: Seq<char>, off: int, acc: Seq<(Seq<char>, Seq<char>)>) -> Seq<
    (Seq<char>, Seq<char>),
>
    decreases t.len() - off,
{
    if off < 0 || off > t.len() {
        acc
    } else {
        match data_step(t, off, acc.len()) {
            None => acc,
            Some((next, name, value)) => if off < next <= t.len() {
                named_data_from(
                    t,
                    next,
                    match value {
                        Some(v) => row_put(acc, name, v),
                        None => acc,
                    },
                )
            } else {
                acc
            },
        }
    }
}

fn data_step_exec(t: &[char], off: usize, count: usize) -> (r: Option<
    (usize, Vec<char>, Option<Vec<char>>),
>)
    requires
        off <= t.len(),
        count <= off,
    ensures
        match r {
            None => data_step(t@, off as int, count as nat) is None,
            Some((next, name, value)) => off < next <= t.len() && data_step(
                t@,
                off as int,
                count as nat,
            ) == Some(
                (
                    next as int,
                    name@,
                    match value {
                        Some(v) => Some(v@),
                        None => None::<Seq<char>>,
                    },
                ),
            ),
        },
{
    reveal(data_step);
    let open = chars_of("<Data");
    let close = chars_of("</Data>");
    let gt = chars_of(">");
    proof {
        reveal_strlit("</Data>");
        reveal_strlit("<Data");
        reveal_strlit(">");
        lemma_find_from_bounds(t@, open@, off as int);
    }
    let start = match find_from_chars(t, open.as_slice(), off) {
        Some(s) => s,
        None => {
            return None;
        },
    };
    proof {
        lemma_find_from_bounds(t@, gt@, start as int);
    }
    let g = match find_from_chars(t, gt.as_slice(), start) {
        Some(g) => g,
        None => {
            return None;
        },
    };
    let tag_text = slice_to_vec(t, start, g + 1);
    let name: Vec<char> = match attr_chars(tag_text.as_slice(), "Name") {
        Some(n) => n,
        None => {
            let d = chars_of("Data");
            let n = decimal_string((count + 1) as u64);
            let nv = chars_of(n.as_str());
            concat_chars(d.as_slice(), nv.as_slice())
        },
    };
    proof {
        lemma_find_from_bounds(t@, close@, g + 1);
    }
    let e = match find_from_chars(t, close.as_slice(), g + 1) {
        Some(e) => e,
        None => {
            return None;
        },
    };
    let raw = slice_to_vec(t, g + 1, e);
    let dec = xml_decode_chars(raw.as_slice());
    let value = clean_chars(dec.as_slice());
    Some((e + close.len(), name, value))
}

/// The named `<Data>` items of an event, in order of first appearance.
pub fn extract_named_data(text: &str) -> (r: Vec<(String, String)>)
    ensures
        entries(r@) == named_data_from(text@, 0, Seq::empty()),
        distinct_names(entries(r@)),
{
    let tv = chars_of(text);
    let t = tv.as_slice();
    let mut out: Vec<(String, String)> = Vec::new();
    assert(entries(out@) =~= Seq::<(Seq<char>, Seq<char>)>::empty());
    let mut off: usize = 0;
    while off <= t.len()
        invariant
            off <= t.len(),
            t@ == text@,
            out@.len() <= off,
            distinct_names(entries(out@)),
            named_data_from(t@, 0, Seq::empty()) == named_data_from(t@, off as int, entries(out@)),
        decreases t.len() + 1 - off,
    {
        assert(entries(out@).len() == out@.len());
        let (next, name, value) = match data_step_exec(t, off, out.len()) {
            Some(step) => step,
            None => {
                return out;
            },
        };
        match value {
            Some(v) => {
                let ghost prev = entries(out@);
                proof {
                    lemma_row_put(prev, name@, v@);
                }
                match row_index_exec(&out, name.as_slice()) {
                    Some(j) => {
                        out.set(j, (string_from(name.as_slice()), string_from(v.as_slice())));
                        assert(entries(out@) =~= prev.update(j as int, (name@, v@)));
                    },
                    None => {
                        out.push((string_from(name.as_slice()), string_from(v.as_slice())));
                        assert(entries(out@) =~= prev.push((name@, v@)));
                    },
                }
            },
            None => {},
        }
        off = next;
    }
    out
}

} // verus!
