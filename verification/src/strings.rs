//! Printable strings in binary data: runs of ASCII bytes and of UTF-16LE
//! units, with their offsets; the strings worth reporting; and display
//! cleanup of decoded text.
use vstd::prelude::*;
use crate::decode::{le_units, le_units_of};
use crate::extract::interesting_text;
use crate::text::{
    chars_of, is_ws, char_is_ws, slice_to_vec, string_from, trim, trim_chars, trim_set,
    trim_set_chars, utf8_len, utf8_len_of, vviews,
};
use crate::textlog::{truncated, truncated_chars};

verus! {

// ---------------------------------------------------------------------------
// Runs of printable characters
// ---------------------------------------------------------------------------
/// A printable ASCII byte: graphic, space or tab.
pub open spec fn printable_byte(b: u8) -> bool {
    (0x21 <= b <= 0x7e) || b == 0x20 || b == 0x09
}

/// A UTF-16 unit of a printable ASCII character: graphic, space or tab.
pub open spec fn printable_unit(u: u16) -> bool {
    (0x21 <= u <= 0x7e) || u == 0x20 || u == 0x09
}

pub open spec fn byte_chars(b: Seq<u8>) -> Seq<char> {
    b.map_values(|x: u8| x as char)
}

pub open spec fn unit_chars(u: Seq<u16>) -> Seq<char> {
    u.map_values(|x: u16| x as char)
}

/// The run `b[start..i]` when it is four bytes or more.
pub open spec fn byte_run(b: Seq<u8>, start: int, i: int) -> Seq<(int, Seq<char>)> {
    if i - start >= 4 {
        seq![(start, byte_chars(b.subrange(start, i)))]
    } else {
        Seq::empty()
    }
}

/// The runs of printable bytes of four or more in `b[i..]`, with their
/// offsets, given that the current run began at `start`.
pub open spec fn byte_runs_from(b: Seq<u8>, i: int, start: int) -> Seq<(int, Seq<char>)>
    decreases b.len() - i,
{
    if i < 0 || i >= b.len() {
        byte_run(b, start, b.len() as int)
    } else if printable_byte(b[i]) {
        byte_runs_from(b, i + 1, start)
    } else {
        byte_run(b, start, i) + byte_runs_from(b, i + 1, i + 1)
    }
}

pub open spec fn ascii_runs(b: Seq<u8>) -> Seq<(int, Seq<char>)> {
    byte_runs_from(b, 0, 0)
}

pub open spec fn unit_run(u: Seq<u16>, start: int, i: int) -> Seq<(int, Seq<char>)> {
    if i - start >= 4 {
        seq![(2 * start, unit_chars(u.subrange(start, i)))]
    } else {
        Seq::empty()
    }
}

/// The runs of printable units of four or more in `u[i..]`, with their byte
/// offsets, given that the current run began at unit `start`.
pub open spec fn unit_runs_from(u: Seq<u16>, i: int, start: int) -> Seq<(int, Seq<char>)>
    decreases u.len() - i,
{
    if i < 0 || i >= u.len() {
        unit_run(u, start, u.len() as int)
    } else if printable_unit(u[i]) {
        unit_runs_from(u, i + 1, start)
    } else {
        unit_run(u, start, i) + unit_runs_from(u, i + 1, i + 1)
    }
}

pub open spec fn utf16_runs(b: Seq<u8>) -> Seq<(int, Seq<char>)> {
    unit_runs_from(le_units(b), 0, 0)
}

pub open spec fn run_texts(rs: Seq<(int, Seq<char>)>) -> Seq<Seq<char>> {
    rs.map_values(|r: (int, Seq<char>)| r.1)
}

pub open spec fn run_views(v: Seq<(usize, String)>) -> Seq<(int, Seq<char>)> {
    v.map_values(|r: (usize, String)| (r.0 as int, r.1@))
}

pub open spec fn string_views(v: Seq<String>) -> Seq<Seq<char>> {
    v.map_values(|s: String| s@)
}

fn byte_chars_exec(b: &[u8], start: usize, end: usize) -> (r: String)
    requires
        start <= end <= b.len(),
    ensures
        r@ == byte_chars(b@.subrange(start as int, end as int)),
{
    let mut out: Vec<char> = Vec::new();
    let mut i = start;
    while i < end
        invariant
            start <= i <= end <= b.len(),
            out@ == byte_chars(b@.subrange(start as int, i as int)),
        decreases end - i,
    {
        out.push(b[i] as char);
        assert(byte_chars(b@.subrange(start as int, i + 1)) =~= byte_chars(
            b@.subrange(start as int, i as int),
        ).push(b[i as int] as char));
        i = i + 1;
    }
    string_from(out.as_slice())
}

fn unit_chars_exec(u: &[u16], start: usize, end: usize) -> (r: String)
    requires
        start <= end <= u.len(),
        forall|k: int| start <= k < end ==> printable_unit(#[trigger] u@[k]),
    ensures
        r@ == unit_chars(u@.subrange(start as int, end as int)),
{
    let mut out: Vec<char> = Vec::new();
    let mut i = start;
    while i < end
        invariant
            start <= i <= end <= u.len(),
            out@ == unit_chars(u@.subrange(start as int, i as int)),
            forall|k: int| start <= k < end ==> printable_unit(#[trigger] u@[k]),
        decreases end - i,
    {
        assert(printable_unit(u@[i as int]));
        let c = (u[i] as u8) as char;
        assert(c == u[i as int] as char);
        out.push(c);
        assert(unit_chars(u@.subrange(start as int, i + 1)) =~= unit_chars(
            u@.subrange(start as int, i as int),
        ).push(u[i as int] as char));
        i = i + 1;
    }
    string_from(out.as_slice())
}

/// The runs of four or more printable ASCII bytes, with their offsets.
pub fn extract_ascii_strings_with_offsets(bytes: &[u8]) -> (r: Vec<(usize, String)>)
    ensures
        run_views(r@) == ascii_runs(bytes@),
{
    let mut out: Vec<(usize, String)> = Vec::new();
    let mut start: usize = 0;
    let mut i: usize = 0;
    assert(run_views(out@) =~= Seq::<(int, Seq<char>)>::empty());
    while i < bytes.len()
        invariant
            start <= i <= bytes.len(),
            ascii_runs(bytes@) == run_views(out@) + byte_runs_from(bytes@, i as int, start as int),
        decreases bytes.len() - i,
    {
        let b = bytes[i];
        if (0x21 <= b && b <= 0x7e) || b == 0x20 || b == 0x09 {
            i = i + 1;
        } else {
            let ghost prev = run_views(out@);
            if i - start >= 4 {
                let text = byte_chars_exec(bytes, start, i);
                out.push((start, text));
                assert(run_views(out@) =~= prev + byte_run(bytes@, start as int, i as int));
            } else {
                assert(run_views(out@) =~= prev + byte_run(bytes@, start as int, i as int));
            }
            assert(prev + (byte_run(bytes@, start as int, i as int) + byte_runs_from(
                bytes@,
                i + 1,
                i + 1,
            )) =~= run_views(out@) + byte_runs_from(bytes@, i + 1, i + 1));
            i = i + 1;
            start = i;
        }
    }
    let ghost prev = run_views(out@);
    if bytes.len() - start >= 4 {
        let text = byte_chars_exec(bytes, start, bytes.len());
        out.push((start, text));
    }
    assert(run_views(out@) =~= prev + byte_run(bytes@, start as int, bytes@.len() as int));
    out
}

/// The runs of four or more printable ASCII characters in UTF-16LE, with the
/// byte offsets at which they start.
pub fn extract_utf16le_strings_with_offsets(bytes: &[u8]) -> (r: Vec<(usize, String)>)
    ensures
        run_views(r@) == utf16_runs(bytes@),
{
    let u = le_units_of(bytes);
    let mut out: Vec<(usize, String)> = Vec::new();
    let mut start: usize = 0;
    let mut i: usize = 0;
    assert(run_views(out@) =~= Seq::<(int, Seq<char>)>::empty());
    while i < u.len()
        invariant
            start <= i <= u.len(),
            u@ == le_units(bytes@),
            u@.len() == bytes@.len() / 2,
            forall|k: int| start <= k < i ==> printable_unit(#[trigger] u@[k]),
            utf16_runs(bytes@) == run_views(out@) + unit_runs_from(u@, i as int, start as int),
        decreases u.len() - i,
    {
        let x = u[i];
        if (0x21 <= x && x <= 0x7e) || x == 0x20 || x == 0x09 {
            i = i + 1;
        } else {
            let ghost prev = run_views(out@);
            if i - start >= 4 {
                let text = unit_chars_exec(u.as_slice(), start, i);
                assert(start * 2 <= bytes.len());
                out.push((start * 2, text));
                assert(run_views(out@) =~= prev + unit_run(u@, start as int, i as int));
            } else {
                assert(run_views(out@) =~= prev + unit_run(u@, start as int, i as int));
            }
            assert(prev + (unit_run(u@, start as int, i as int) + unit_runs_from(
                u@,
                i + 1,
                i + 1,
            )) =~= run_views(out@) + unit_runs_from(u@, i + 1, i + 1));
            i = i + 1;
            start = i;
        }
    }
    let ghost prev = run_views(out@);
    if u.len() - start >= 4 {
        let text = unit_chars_exec(u.as_slice(), start, u.len());
        assert(start * 2 <= bytes.len());
        out.push((start * 2, text));
    }
    assert(run_views(out@) =~= prev + unit_run(u@, start as int, u@.len() as int));
    out
}

fn texts_of(runs: Vec<(usize, String)>) -> (r: Vec<String>)
    ensures
        string_views(r@) == run_texts(run_views(runs@)),
{
    let mut out: Vec<String> = Vec::new();
    let mut i: usize = 0;
    while i < runs.len()
        invariant
            i <= runs.len(),
            string_views(out@) == run_texts(run_views(runs@)).subrange(0, i as int),
        decreases runs.len() - i,
    {
        let ghost prev = string_views(out@);
        out.push(runs[i].1.clone());
        assert(string_views(out@) =~= prev.push(runs@[i as int].1@));
        assert(run_texts(run_views(runs@)).subrange(0, i + 1) =~= run_texts(run_views(runs@)).subrange(
            0,
            i as int,
        ).push(runs@[i as int].1@));
        i = i + 1;
    }
    assert(run_texts(run_views(runs@)).subrange(0, runs@.len() as int) =~= run_texts(
        run_views(runs@),
    ));
    out
}

/// The runs of four or more printable ASCII bytes.
pub fn extract_ascii_strings(bytes: &[u8]) -> (r: Vec<String>)
    ensures
        string_views(r@) == run_texts(ascii_runs(bytes@)),
{
    texts_of(extract_ascii_strings_with_offsets(bytes))
}

/// The runs of four or more printable ASCII characters in UTF-16LE.
pub fn extract_utf16le_strings(bytes: &[u8]) -> (r: Vec<String>)
    ensures
        string_views(r@) == run_texts(utf16_runs(bytes@)),
{
    texts_of(extract_utf16le_strings_with_offsets(bytes))
}

/// The ASCII strings of some data, then its UTF-16LE strings.
pub open spec fn all_strings(b: Seq<u8>) -> Seq<Seq<char>> {
    run_texts(ascii_runs(b)) + run_texts(utf16_runs(b))
}

pub(crate) fn all_strings_exec(bytes: &[u8]) -> (r: Vec<String>)
    ensures
        string_views(r@) == all_strings(bytes@),
{
    let mut a = extract_ascii_strings(bytes);
    let b = extract_utf16le_strings(bytes);
    let ghost first = string_views(a@);
    let mut i: usize = 0;
    while i < b.len()
        invariant
            i <= b.len(),
            string_views(a@) == first + string_views(b@).subrange(0, i as int),
        decreases b.len() - i,
    {
        let ghost prev = string_views(a@);
        a.push(b[i].clone());
        assert(string_views(a@) =~= prev.push(b@[i as int]@));
        assert(first + string_views(b@).subrange(0, i + 1) =~= (first + string_views(b@).subrange(
            0,
            i as int,
        )).push(b@[i as int]@));
        i = i + 1;
    }
    assert(string_views(b@).subrange(0, b@.len() as int) =~= string_views(b@));
    a
}

/// A string with NUL characters and white space trimmed from both ends.
pub open spec fn clean_string(v: Seq<char>) -> Seq<char> {
    trim(trim_set(v, seq!['\0']))
}

/// The strings worth reporting, at most `limit` (one more when `limit` is
/// zero), cut to 300 characters, without repeats, in order.
pub open spec fn interesting_from(vs: Seq<Seq<char>>, i: int, acc: Seq<Seq<char>>, limit: int) -> Seq<Seq<char>>
    decreases vs.len() - i,
{
    if i < 0 || i >= vs.len() {
        acc
    } else {
        let v = clean_string(vs[i]);
        if utf8_len(v) < 4 || acc.contains(v) {
            interesting_from(vs, i + 1, acc, limit)
        } else {
            let next = if interesting_text(v) {
                acc.push(truncated(v, 300))
            } else {
                acc
            };
            if next.len() >= limit {
                next
            } else {
                interesting_from(vs, i + 1, next, limit)
            }
        }
    }
}

fn clean_string_exec(v: &String) -> (r: Vec<char>)
    ensures
        r@ == clean_string(v@),
{
    let c = chars_of(v.as_str());
    let nul = ['\0'];
    assert(nul@ =~= seq!['\0']);
    let a = trim_set_chars(c.as_slice(), &nul);
    trim_chars(a.as_slice())
}

fn contains_chars_vec(v: &Vec<String>, x: &[char]) -> (r: bool)
    ensures
        r == string_views(v@).contains(x@),
{
    let mut i: usize = 0;
    while i < v.len()
        invariant
            i <= v.len(),
            forall|j: int| 0 <= j < i ==> #[trigger] string_views(v@)[j] != x@,
        decreases v.len() - i,
    {
        let e = chars_of(v[i].as_str());
        if crate::text::seq_eq(e.as_slice(), x) {
            assert(string_views(v@)[i as int] == x@);
            return true;
        }
        i = i + 1;
    }
    assert forall|j: int| 0 <= j < string_views(v@).len() implies #[trigger] string_views(v@)[j]
        != x@ by {}
    false
}

pub(crate) fn contains_chars_vec_pub(v: &Vec<String>, x: &[char]) -> (r: bool)
    ensures
        r == string_views(v@).contains(x@),
{
    contains_chars_vec(v, x)
}

/// The printable strings of some data worth reporting.
pub fn extract_interesting_strings(bytes: &[u8], limit: usize) -> (r: Vec<String>)
    ensures
        string_views(r@) == interesting_from(all_strings(bytes@), 0, Seq::empty(), limit as int),
{
    let vs = all_strings_exec(bytes);
    let ghost all = string_views(vs@);
    let mut out: Vec<String> = Vec::new();
    assert(string_views(out@) =~= Seq::<Seq<char>>::empty());
    let mut i: usize = 0;
    while i < vs.len()
        invariant
            i <= vs.len(),
            all == string_views(vs@),
            all == all_strings(bytes@),
            interesting_from(all, 0, Seq::empty(), limit as int) == interesting_from(
                all,
                i as int,
                string_views(out@),
                limit as int,
            ),
        decreases vs.len() - i,
    {
        assert(all[i as int] == vs@[i as int]@);
        let v = clean_string_exec(&vs[i]);
        if utf8_len_of(v.as_slice()) < 4 || contains_chars_vec(&out, v.as_slice()) {
            i = i + 1;
            continue;
        }
        if crate::extract::looks_interesting_string(string_from(v.as_slice()).as_str()) {
            let t = truncated_chars(v.as_slice(), 300);
            let ghost prev = string_views(out@);
            out.push(string_from(t.as_slice()));
            assert(string_views(out@) =~= prev.push(truncated(v@, 300)));
        }
        if out.len() >= limit {
            return out;
        }
        i = i + 1;
    }
    out
}

// ---------------------------------------------------------------------------
// Previews and display text
// ---------------------------------------------------------------------------
/// A byte shown as itself when printable or a line break or tab, else as a space.
pub open spec fn preview_char(b: u8) -> char {
    if (0x21 <= b <= 0x7e) || b == 0x20 || b == 0x0d || b == 0x0a || b == 0x09 {
        b as char
    } else {
        ' '
    }
}

/// The first 4096 bytes shown as text.
pub open spec fn ascii_preview(b: Seq<u8>) -> Seq<char> {
    let n = if b.len() < 4096 {
        b.len() as int
    } else {
        4096
    };
    Seq::new(n as nat, |i: int| preview_char(b[i]))
}

pub fn ascii_preview_for_metadata(bytes: &[u8]) -> (r: String)
    ensures
        r@ == ascii_preview(bytes@),
{
    let n = if bytes.len() < 4096 {
        bytes.len()
    } else {
        4096
    };
    let mut out: Vec<char> = Vec::new();
    let mut i: usize = 0;
    while i < n
        invariant
            i <= n,
            n <= bytes.len(),
            n == (if bytes@.len() < 4096 {
                bytes@.len() as int
            } else {
                4096
            }),
            out@ == Seq::new(i as nat, |k: int| preview_char(bytes@[k])),
        decreases n - i,
    {
        let b = bytes[i];
        let c = if (0x21 <= b && b <= 0x7e) || b == 0x20 || b == 0x0d || b == 0x0a || b == 0x09 {
            b as char
        } else {
            ' '
        };
        out.push(c);
        assert(out@ =~= Seq::new((i + 1) as nat, |k: int| preview_char(bytes@[k])));
        i = i + 1;
    }
    string_from(out.as_slice())
}

/// Characters that display as a space: the replacement character and
/// control characters other than tab and line breaks.
pub open spec fn display_noise(c: char) -> bool {
    c == '\u{fffd}' || ('\u{0}' <= c && c <= '\u{8}') || c == '\u{b}' || c == '\u{c}' || (
    '\u{e}' <= c && c <= '\u{1f}') || ('\u{7f}' <= c && c <= '\u{9f}')
}

pub open spec fn display_char(c: char) -> char {
    if display_noise(c) {
        ' '
    } else {
        c
    }
}

/// `s[i..]` appended to `acc` with noise shown as spaces and every run of
/// white space made one space.
pub open spec fn squeezed_from(s: Seq<char>, i: int, prev_space: bool, acc: Seq<char>) -> Seq<char>
    decreases s.len() - i,
{
    if i < 0 || i >= s.len() {
        acc
    } else {
        let r = display_char(s[i]);
        if is_ws(r) {
            if prev_space {
                squeezed_from(s, i + 1, true, acc)
            } else {
                squeezed_from(s, i + 1, true, acc.push(' '))
            }
        } else {
            squeezed_from(s, i + 1, false, acc.push(r))
        }
    }
}

/// Text made fit for display: noise as spaces, white space squeezed, trimmed.
pub open spec fn display_text(s: Seq<char>) -> Seq<char> {
    trim(squeezed_from(s, 0, false, Seq::empty()))
}

pub(crate) fn display_text_chars(s: &[char]) -> (r: Vec<char>)
    ensures
        r@ == display_text(s@),
{
    let mut out: Vec<char> = Vec::new();
    let mut prev = false;
    let mut i: usize = 0;
    while i < s.len()
        invariant
            i <= s.len(),
            squeezed_from(s@, 0, false, Seq::empty()) == squeezed_from(s@, i as int, prev, out@),
        decreases s.len() - i,
    {
        let c = s[i];
        let noise = c == '\u{fffd}' || ('\u{0}' <= c && c <= '\u{8}') || c == '\u{b}' || c
            == '\u{c}' || ('\u{e}' <= c && c <= '\u{1f}') || ('\u{7f}' <= c && c <= '\u{9f}');
        let r = if noise {
            ' '
        } else {
            c
        };
        if char_is_ws(r) {
            if !prev {
                out.push(' ');
                prev = true;
            }
        } else {
            out.push(r);
            prev = false;
        }
        i = i + 1;
    }
    trim_chars(out.as_slice())
}

pub fn sanitize_display_text(value: &str) -> (r: String)
    ensures
        r@ == display_text(value@),
{
    let v = chars_of(value);
    let d = display_text_chars(v.as_slice());
    string_from(d.as_slice())
}

/// The strings of some data, NULs and white space trimmed, of 4 to 2048 bytes,
/// without repeats, in order; at most `limit` (one when `limit` is zero).
pub open spec fn forensic_from(vs: Seq<Seq<char>>, i: int, acc: Seq<Seq<char>>, limit: int) -> Seq<
    Seq<char>,
>
    decreases vs.len() - i,
{
    if i < 0 || i >= vs.len() {
        acc
    } else {
        let v = clean_string(vs[i]);
        if utf8_len(v) < 4 || utf8_len(v) > 2048 || acc.contains(v) {
            forensic_from(vs, i + 1, acc, limit)
        } else if acc.len() + 1 >= limit {
            acc.push(v)
        } else {
            forensic_from(vs, i + 1, acc.push(v), limit)
        }
    }
}

pub fn extract_forensic_strings(bytes: &[u8], limit: usize) -> (r: Vec<String>)
    ensures
        string_views(r@) == forensic_from(all_strings(bytes@), 0, Seq::empty(), limit as int),
{
    let vs = all_strings_exec(bytes);
    let ghost all = string_views(vs@);
    let mut out: Vec<String> = Vec::new();
    assert(string_views(out@) =~= Seq::<Seq<char>>::empty());
    let mut i: usize = 0;
    while i < vs.len()
        invariant
            i <= vs.len(),
            all == string_views(vs@),
            all == all_strings(bytes@),
            forensic_from(all, 0, Seq::empty(), limit as int) == forensic_from(
                all,
                i as int,
                string_views(out@),
                limit as int,
            ),
        decreases vs.len() - i,
    {
        assert(all[i as int] == vs@[i as int]@);
        let v = clean_string_exec(&vs[i]);
        let n = utf8_len_of(v.as_slice());
        if n < 4 || n > 2048 || contains_chars_vec(&out, v.as_slice()) {
            i = i + 1;
            continue;
        }
        let ghost prev = string_views(out@);
        out.push(string_from(v.as_slice()));
        assert(string_views(out@) =~= prev.push(v@));
        if out.len() >= limit {
            return out;
        }
        i = i + 1;
    }
    out
}

} // verus!
