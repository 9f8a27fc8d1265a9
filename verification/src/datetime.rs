//! Timestamps written as text: epoch counts, RFC 3339 and the layouts that logs
//! and exports use, normalised to RFC 3339 in UTC; and a timestamp leading a line.
use vstd::prelude::*;
use crate::decode::opt_view;
use crate::external::{
    naive_format_to_utc, naive_format_utc_text, offset_format_to_utc, offset_format_utc_text,
    rfc3339_of_timestamp, rfc3339_to_utc, rfc3339_unix_seconds, rfc3339_utc_formatted,
    rfc3339_utc_text, rfc3339_year, rfc3339_year_of,
    utc_rfc3339,
};
use crate::row::{join_strings, vec_strings};
use crate::text::{
    all_digits, char_is_ascii_digit, char_is_ws, chars_of, decimal_value, eq_str,
    first_segment, first_segment_of, is_ascii_digit, is_ws, joined, push_all, slice_to_vec,
    starts_with, starts_with_str, string_from, trim, trim_chars, trim_end_set,
    trim_end_set_chars, trim_set, trim_set_chars, trim_start_set, trim_start_set_chars, views,
    vviews, words, words_of,
};

verus! {

// ---------------------------------------------------------------------------
// Epoch counts
// ---------------------------------------------------------------------------
/// The seconds since 1970 that a count of 10 or more digits stands for, by its
/// length: FILETIME ticks (18 digits or more, after 1970), WebKit microseconds
/// (16 or more, after 1970), Unix microseconds, milliseconds, or seconds.
pub open spec fn epoch_seconds(len: int, p: int) -> int {
    if len >= 18 && p > 116_444_736_000_000_000 {
        (p - 116_444_736_000_000_000) / 10_000_000
    } else if len >= 16 && p > 11_644_473_600_000_000 {
        (p - 11_644_473_600_000_000) / 1_000_000
    } else if len >= 16 {
        p / 1_000_000
    } else if len >= 13 {
        p / 1_000
    } else {
        p
    }
}

/// A numeric timestamp (the integer part of the value) as RFC 3339, when it falls
/// between 1990 and 2100.
pub open spec fn numeric_datetime(value: Seq<char>) -> Option<Seq<char>> {
    let integer = trim(first_segment(trim(value), seq!['.']));
    let p = decimal_value(integer);
    let secs = epoch_seconds(integer.len() as int, p);
    if integer.len() < 10 || !all_digits(integer) || p > i128::MAX {
        None
    } else if secs < 631_152_000 || secs > 4_102_444_800 {
        None
    } else {
        rfc3339_of_timestamp(secs, 0)
    }
}

/// The value of a run of decimal digits when it is at most `limit`.
fn decimal_at_most(s: &[char], limit: u128) -> (r: Option<u128>)
    requires
        all_digits(s@),
    ensures
        match r {
            Some(v) => v == decimal_value(s@) && v <= limit,
            None => decimal_value(s@) > limit,
        },
{
    let mut acc: u128 = 0;
    let mut i: usize = 0;
    while i < s.len()
        invariant
            i <= s.len(),
            all_digits(s@),
            acc == decimal_value(s@.subrange(0, i as int)),
            acc <= limit,
        decreases s.len() - i,
    {
        let ghost prev = s@.subrange(0, i as int);
        assert(s@.subrange(0, i + 1).drop_last() =~= prev);
        assert(is_ascii_digit(s@[i as int]));
        let d = (s[i] as u32 - 48) as u128;
        if d > limit || acc > (limit - d) / 10 {
            proof {
                assert(decimal_value(s@.subrange(0, i + 1)) > limit);
                lemma_decimal_prefix_grows(s@, i as int + 1);
            }
            return None;
        }
        acc = acc * 10 + d;
        i = i + 1;
    }
    assert(s@.subrange(0, s@.len() as int) =~= s@);
    Some(acc)
}

/// A longer run of digits is worth at least as much as its prefix.
proof fn lemma_decimal_prefix_grows(s: Seq<char>, k: int)
    requires
        all_digits(s),
        0 <= k <= s.len(),
    ensures
        decimal_value(s.subrange(0, k)) <= decimal_value(s),
    decreases s.len() - k,
{
    if k < s.len() {
        lemma_decimal_prefix_grows(s, k + 1);
        let a = s.subrange(0, k);
        let b = s.subrange(0, k + 1);
        assert(b.drop_last() =~= a);
        assert(is_ascii_digit(s[k]));
        crate::text::lemma_decimal_value_nonneg(a);
    } else {
        assert(s.subrange(0, k) =~= s);
    }
}

pub fn normalize_numeric_datetime(value: &str) -> (r: Option<String>)
    ensures
        opt_view(r) == numeric_datetime(value@),
{
    let v = chars_of(value);
    let t = trim_chars(v.as_slice());
    let dot = ['.'];
    assert(dot@ =~= seq!['.']);
    let head = first_segment_of(t.as_slice(), &dot);
    let integer = trim_chars(head.as_slice());
    let n = integer.len();
    if n < 10 || !crate::extract::all_digits_chars(integer.as_slice()) {
        return None;
    }
    let parsed = match decimal_at_most(integer.as_slice(), 0x7fff_ffff_ffff_ffff_ffff_ffff_ffff_ffffu128) {
        Some(p) => p,
        None => {
            return None;
        },
    };
    let seconds: u128 = if n >= 18 && parsed > 116_444_736_000_000_000 {
        (parsed - 116_444_736_000_000_000) / 10_000_000
    } else if n >= 16 && parsed > 11_644_473_600_000_000 {
        (parsed - 11_644_473_600_000_000) / 1_000_000
    } else if n >= 16 {
        parsed / 1_000_000
    } else if n >= 13 {
        parsed / 1_000
    } else {
        parsed
    };
    if seconds < 631_152_000 || seconds > 4_102_444_800 {
        return None;
    }
    utc_rfc3339(seconds as i64, 0)
}

// ---------------------------------------------------------------------------
// Text layouts
// ---------------------------------------------------------------------------
pub open spec fn offset_formats() -> Seq<Seq<char>> {
    seq![
        "%Y-%m-%dT%H:%M:%S%.f %z"@,
        "%Y-%m-%dT%H:%M:%S %z"@,
        "%Y-%m-%dT%H:%M:%S%.f%z"@,
        "%Y-%m-%dT%H:%M:%S%z"@,
        "%Y-%m-%d %H:%M:%S%.f %z"@,
        "%Y-%m-%d %H:%M:%S %z"@,
        "%Y/%m/%d %H:%M:%S%.f %z"@,
        "%m/%d/%Y %H:%M:%S%.f %z"@,
        "%m-%d-%Y %H:%M:%S%.f %z"@,
    ]
}

pub open spec fn naive_formats() -> Seq<Seq<char>> {
    seq![
        "%Y-%m-%dT%H:%M:%S%.f"@,
        "%Y-%m-%dT%H:%M:%S"@,
        "%Y-%m-%d %H:%M:%S%.f"@,
        "%Y-%m-%d %H:%M:%S"@,
        "%Y/%m/%d %H:%M:%S%.f"@,
        "%Y/%m/%d %H:%M:%S"@,
        "%m/%d/%Y %H:%M:%S%.f"@,
        "%m/%d/%Y %H:%M:%S"@,
        "%m-%d-%Y %H:%M:%S%.f"@,
        "%m-%d-%Y %H:%M:%S"@,
    ]
}

/// The reading of `v` under the first of `fs[i..]` that accepts it, with an
/// offset (`offset`) or taken as UTC.
pub open spec fn first_format(v: Seq<char>, fs: Seq<Seq<char>>, i: int, offset: bool) -> Option<
    Seq<char>,
>
    decreases fs.len() - i,
{
    if i < 0 || i >= fs.len() {
        None
    } else {
        let r = if offset {
            offset_format_utc_text(v, fs[i])
        } else {
            naive_format_utc_text(v, fs[i])
        };
        match r {
            Some(t) => Some(t),
            None => first_format(v, fs, i + 1, offset),
        }
    }
}

/// A timestamp as RFC 3339 in UTC: trimmed of white space and quotes; none when
/// empty, `-`, or a zero date of 0001 or 1601; else the first reading that
/// succeeds: a numeric timestamp, RFC 3339, a layout with an offset, a layout
/// taken as UTC.
pub open spec fn datetime_text(value: Seq<char>) -> Option<Seq<char>> {
    let v = trim_set(trim(value), seq!['"']);
    if v.len() == 0 || v == "-"@ || starts_with(v, "0001-01-01"@) || starts_with(v, "1601-01-01"@) {
        None
    } else {
        match numeric_datetime(v) {
            Some(t) => Some(t),
            None => match rfc3339_utc_text(v) {
                Some(t) => Some(t),
                None => match first_format(v, offset_formats(), 0, true) {
                    Some(t) => Some(t),
                    None => first_format(v, naive_formats(), 0, false),
                },
            },
        }
    }
}

fn first_format_exec(v: &str, fs: &[&str], offset: bool) -> (r: Option<String>)
    ensures
        opt_view(r) == first_format(v@, views(fs@), 0, offset),
{
    let mut i: usize = 0;
    while i < fs.len()
        invariant
            i <= fs.len(),
            first_format(v@, views(fs@), 0, offset) == first_format(v@, views(fs@), i as int, offset),
        decreases fs.len() - i,
    {
        assert(views(fs@)[i as int] == fs@[i as int]@);
        let r = if offset {
            offset_format_to_utc(v, fs[i])
        } else {
            naive_format_to_utc(v, fs[i])
        };
        match r {
            Some(t) => {
                return Some(t);
            },
            None => {},
        }
        i = i + 1;
    }
    None
}

pub fn normalize_datetime(value: &str) -> (r: Option<String>)
    ensures
        opt_view(r) == datetime_text(value@),
{
    let vc = chars_of(value);
    let t = trim_chars(vc.as_slice());
    let quote = ['"'];
    assert(quote@ =~= seq!['"']);
    let v = trim_set_chars(t.as_slice(), &quote);
    if v.len() == 0 || eq_str(v.as_slice(), "-") || starts_with_str(v.as_slice(), "0001-01-01")
        || starts_with_str(v.as_slice(), "1601-01-01") {
        return None;
    }
    let vs = string_from(v.as_slice());
    if let Some(dt) = normalize_numeric_datetime(vs.as_str()) {
        return Some(dt);
    }
    if let Some(dt) = rfc3339_to_utc(vs.as_str()) {
        return Some(dt);
    }
    let offset_fmts = [
        "%Y-%m-%dT%H:%M:%S%.f %z",
        "%Y-%m-%dT%H:%M:%S %z",
        "%Y-%m-%dT%H:%M:%S%.f%z",
        "%Y-%m-%dT%H:%M:%S%z",
        "%Y-%m-%d %H:%M:%S%.f %z",
        "%Y-%m-%d %H:%M:%S %z",
        "%Y/%m/%d %H:%M:%S%.f %z",
        "%m/%d/%Y %H:%M:%S%.f %z",
        "%m-%d-%Y %H:%M:%S%.f %z",
    ];
    assert(views(offset_fmts@) =~= offset_formats());
    if let Some(dt) = first_format_exec(vs.as_str(), &offset_fmts, true) {
        return Some(dt);
    }
    let naive_fmts = [
        "%Y-%m-%dT%H:%M:%S%.f",
        "%Y-%m-%dT%H:%M:%S",
        "%Y-%m-%d %H:%M:%S%.f",
        "%Y-%m-%d %H:%M:%S",
        "%Y/%m/%d %H:%M:%S%.f",
        "%Y/%m/%d %H:%M:%S",
        "%m/%d/%Y %H:%M:%S%.f",
        "%m/%d/%Y %H:%M:%S",
        "%m-%d-%Y %H:%M:%S%.f",
        "%m-%d-%Y %H:%M:%S",
    ];
    assert(views(naive_fmts@) =~= naive_formats());
    first_format_exec(vs.as_str(), &naive_fmts, false)
}

/// An RFC 3339 timestamp whose year, in its own offset, lies between 1990 and 2100.
pub open spec fn plausible_forensic_time(value: Seq<char>) -> bool {
    match rfc3339_year_of(value) {
        Some(y) => 1990 <= y <= 2100,
        None => false,
    }
}

pub fn is_plausible_forensic_time(value: &str) -> (r: bool)
    ensures
        r == plausible_forensic_time(value@),
{
    match rfc3339_year(value) {
        Some(y) => 1990 <= y && y <= 2100,
        None => false,
    }
}

// ---------------------------------------------------------------------------
// A timestamp leading a line
// ---------------------------------------------------------------------------
/// What may separate a leading timestamp from the rest of its line.
pub open spec fn stamp_punct(c: char) -> bool {
    c == ']' || c == ':' || c == '-' || is_ws(c)
}

pub open spec fn trim_stamp_punct(s: Seq<char>) -> Seq<char>
    decreases s.len(),
{
    if s.len() > 0 && stamp_punct(s[0]) {
        trim_stamp_punct(s.drop_first())
    } else {
        s
    }
}

/// The lengths, longest first, tried for a timestamp at the start of a line.
pub open spec fn stamp_lengths() -> Seq<int> {
    seq![33int, 29, 26, 25, 24, 23, 22, 19]
}

/// A timestamp in the first two words of a line, and the rest of the words.
pub open spec fn two_word_stamp(line: Seq<char>, trimmed: Seq<char>) -> (Option<Seq<char>>, Seq<char>) {
    let ws = words(trimmed);
    if ws.len() >= 2 && datetime_text(ws[0] + " "@ + ws[1]) is Some {
        let rest = joined(ws.subrange(2, ws.len() as int), " "@);
        (
            Some(ws[0] + " "@ + ws[1]),
            if rest.len() == 0 {
                line
            } else {
                rest
            },
        )
    } else {
        (None, trim(line))
    }
}

/// The first prefix of `trimmed`, of one of the lengths `lens[i..]`, that reads
/// as a timestamp (white space and closing brackets trimmed), with the rest of
/// the line; else a timestamp in the first two words.
pub open spec fn stamp_from(line: Seq<char>, trimmed: Seq<char>, lens: Seq<int>, i: int) -> (
    Option<Seq<char>>,
    Seq<char>,
)
    decreases lens.len() - i,
{
    if i < 0 || i >= lens.len() {
        two_word_stamp(line, trimmed)
    } else {
        let n = lens[i];
        let cand = trim_end_set(trim(trimmed.take(n)), seq![']']);
        if trimmed.len() >= n && datetime_text(cand) is Some {
            let rest = trim(trim_stamp_punct(trimmed.skip(n)));
            (
                Some(cand),
                if rest.len() == 0 {
                    line
                } else {
                    rest
                },
            )
        } else {
            stamp_from(line, trimmed, lens, i + 1)
        }
    }
}

/// A timestamp leading a line, opening brackets skipped, and the rest of the line
/// (the whole line when nothing follows); none and the trimmed line when no
/// prefix reads as a timestamp.
pub open spec fn leading_timestamp(line: Seq<char>) -> (Option<Seq<char>>, Seq<char>) {
    stamp_from(line, trim_start_set(trim(line), seq!['[']), stamp_lengths(), 0)
}

fn trim_stamp_punct_chars(s: &[char]) -> (r: Vec<char>)
    ensures
        r@ == trim_stamp_punct(s@),
{
    let mut i: usize = 0;
    assert(s@.subrange(0, s@.len() as int) =~= s@);
    while i < s.len() && (s[i] == ']' || s[i] == ':' || s[i] == '-' || char_is_ws(s[i]))
        invariant
            i <= s.len(),
            trim_stamp_punct(s@) == trim_stamp_punct(s@.subrange(i as int, s@.len() as int)),
        decreases s.len() - i,
    {
        assert(s@.subrange(i as int, s@.len() as int).drop_first() =~= s@.subrange(
            i + 1,
            s@.len() as int,
        ));
        i = i + 1;
    }
    slice_to_vec(s, i, s.len())
}

fn two_word_stamp_exec(line: &str, trimmed: &[char]) -> (r: (Option<String>, String))
    ensures
        (opt_view(r.0), r.1@) == two_word_stamp(line@, trimmed@),
{
    let ws = words_of(trimmed);
    let ghost wv = words(trimmed@);
    assert(vviews(ws@) == wv);
    if ws.len() >= 2 {
        assert(wv[0] == ws@[0]@);
        assert(wv[1] == ws@[1]@);
        let mut cand: Vec<char> = Vec::new();
        push_all(&mut cand, ws[0].as_slice());
        cand.push(' ');
        push_all(&mut cand, ws[1].as_slice());
        proof {
            reveal_strlit(" ");
        }
        assert(cand@ =~= wv[0] + " "@ + wv[1]);
        let cs = string_from(cand.as_slice());
        if normalize_datetime(cs.as_str()).is_some() {
            let mut rest_parts: Vec<String> = Vec::new();
            let mut k: usize = 2;
            while k < ws.len()
                invariant
                    2 <= k <= ws.len(),
                    wv == vviews(ws@),
                    vec_strings(rest_parts@) == wv.subrange(2, k as int),
                decreases ws.len() - k,
            {
                let ghost prev = vec_strings(rest_parts@);
                rest_parts.push(string_from(ws[k].as_slice()));
                assert(vec_strings(rest_parts@) =~= prev.push(wv[k as int]));
                assert(wv.subrange(2, k + 1) =~= wv.subrange(2, k as int).push(wv[k as int]));
                k = k + 1;
            }
            let rest = join_strings(&rest_parts, " ");
            if rest.len() == 0 {
                return (Some(cs), crate::text::string_of(line));
            } else {
                return (Some(cs), string_from(rest.as_slice()));
            }
        }
    }
    let lc = chars_of(line);
    let t = trim_chars(lc.as_slice());
    (None, string_from(t.as_slice()))
}

pub fn split_leading_timestamp(line: &str) -> (r: (Option<String>, String))
    ensures
        (opt_view(r.0), r.1@) == leading_timestamp(line@),
{
    let lc = chars_of(line);
    let t0 = trim_chars(lc.as_slice());
    let open = ['['];
    assert(open@ =~= seq!['[']);
    let trimmed = trim_start_set_chars(t0.as_slice(), &open);
    let lens: [usize; 8] = [33, 29, 26, 25, 24, 23, 22, 19];
    let close = [']'];
    assert(close@ =~= seq![']']);
    let ghost ls = stamp_lengths();
    let mut i: usize = 0;
    while i < 8
        invariant
            i <= 8,
            ls == stamp_lengths(),
            forall|j: int| 0 <= j < 8 ==> ls[j] == lens@[j] as int,
            close@ == seq![']'],
            trimmed@ == trim_start_set(trim(line@), seq!['[']),
            leading_timestamp(line@) == stamp_from(line@, trimmed@, ls, i as int),
        decreases 8 - i,
    {
        let n = lens[i];
        if trimmed.len() >= n {
            let head = slice_to_vec(trimmed.as_slice(), 0, n);
            assert(head@ =~= trimmed@.take(n as int));
            let ht = trim_chars(head.as_slice());
            let cand = trim_end_set_chars(ht.as_slice(), &close);
            let cs = string_from(cand.as_slice());
            if normalize_datetime(cs.as_str()).is_some() {
                let tail = slice_to_vec(trimmed.as_slice(), n, trimmed.len());
                assert(tail@ =~= trimmed@.skip(n as int));
                let p = trim_stamp_punct_chars(tail.as_slice());
                let rest = trim_chars(p.as_slice());
                if rest.len() == 0 {
                    return (Some(cs), crate::text::string_of(line));
                } else {
                    return (Some(cs), string_from(rest.as_slice()));
                }
            }
        }
        i = i + 1;
    }
    two_word_stamp_exec(line, trimmed.as_slice())
}

pub fn line_timestamp_confident(line: &str) -> (r: bool)
    ensures
        r == (leading_timestamp(line@).0 is Some),
{
    let (stamp, _) = split_leading_timestamp(line);
    stamp.is_some()
}

// ---------------------------------------------------------------------------
// Search terms
// ---------------------------------------------------------------------------
/// A signed number in decimal, as `to_string` writes it.
pub open spec fn signed_text(n: int) -> Seq<char> {
    if n < 0 {
        seq!['-'] + crate::row::decimal_text((-n) as nat)
    } else {
        crate::row::decimal_text(n as nat)
    }
}

pub fn signed_string(n: i64) -> (r: String)
    ensures
        r@ == signed_text(n as int),
{
    if n < 0 {
        let m: u64 = if n == i64::MIN {
            0x8000_0000_0000_0000u64
        } else {
            (-n) as u64
        };
        let d = crate::row::decimal_string(m);
        let dc = chars_of(d.as_str());
        let mut out: Vec<char> = Vec::new();
        out.push('-');
        push_all(&mut out, dc.as_slice());
        assert(out@ =~= seq!['-'] + crate::row::decimal_text((-n) as nat));
        string_from(out.as_slice())
    } else {
        crate::row::decimal_string(n as u64)
    }
}

/// `value` trimmed, added to the terms when it is not empty and not there yet.
pub open spec fn add_term(terms: Seq<Seq<char>>, value: Seq<char>) -> Seq<Seq<char>> {
    if trim(value).len() > 0 && !terms.contains(trim(value)) {
        terms.push(trim(value))
    } else {
        terms
    }
}

pub open spec fn add_opt_term(terms: Seq<Seq<char>>, value: Option<Seq<char>>) -> Seq<Seq<char>> {
    match value {
        Some(v) => add_term(terms, v),
        None => terms,
    }
}

pub open spec fn search_formats() -> Seq<Seq<char>> {
    seq!["%Y-%m-%d %H:%M:%S UTC"@, "%Y/%m/%d %H:%M:%S"@, "%d/%m/%Y %H:%M:%S"@, "%m/%d/%Y %H:%M:%S"@]
}

/// The texts under which an event's time may be searched for: the UTC time, the
/// original text, and, when the UTC time is RFC 3339, four common layouts of it
/// and its Unix time; without repeats.
pub open spec fn time_search_terms(utc: Seq<char>, original: Option<Seq<char>>) -> Seq<Seq<char>> {
    let base = add_opt_term(add_term(Seq::empty(), utc), original);
    let fs = search_formats();
    match rfc3339_utc_formatted(utc, fs[0]) {
        None => base,
        Some(f0) => add_opt_term(
            add_opt_term(
                add_opt_term(
                    add_opt_term(add_term(base, f0), rfc3339_utc_formatted(utc, fs[1])),
                    rfc3339_utc_formatted(utc, fs[2]),
                ),
                rfc3339_utc_formatted(utc, fs[3]),
            ),
            match rfc3339_unix_seconds(utc) {
                Some(t) => Some(signed_text(t)),
                None => None,
            },
        ),
    }
}

fn push_opt_term(terms: &mut Vec<String>, value: Option<String>)
    ensures
        vec_strings(final(terms)@) == add_opt_term(vec_strings(old(terms)@), opt_view(value)),
{
    match value {
        Some(v) => crate::row::push_unique_term(terms, v.as_str()),
        None => {},
    }
}

pub fn event_time_search_terms(event_time_utc: &str, time_original: Option<&str>) -> (r: Vec<String>)
    ensures
        vec_strings(r@) == time_search_terms(
            event_time_utc@,
            match time_original {
                Some(o) => Some(o@),
                None => None,
            },
        ),
{
    let mut terms: Vec<String> = Vec::new();
    assert(vec_strings(terms@) =~= Seq::<Seq<char>>::empty());
    crate::row::push_unique_term(&mut terms, event_time_utc);
    if let Some(original) = time_original {
        crate::row::push_unique_term(&mut terms, original);
    }
    let fs = ["%Y-%m-%d %H:%M:%S UTC", "%Y/%m/%d %H:%M:%S", "%d/%m/%Y %H:%M:%S", "%m/%d/%Y %H:%M:%S"];
    assert(views(fs@) =~= search_formats());
    assert(search_formats()[0] == fs[0]@);
    if let Some(f0) = crate::external::rfc3339_format_utc(event_time_utc, fs[0]) {
        crate::row::push_unique_term(&mut terms, f0.as_str());
        push_opt_term(&mut terms, crate::external::rfc3339_format_utc(event_time_utc, fs[1]));
        push_opt_term(&mut terms, crate::external::rfc3339_format_utc(event_time_utc, fs[2]));
        push_opt_term(&mut terms, crate::external::rfc3339_format_utc(event_time_utc, fs[3]));
        let ts = match crate::external::rfc3339_timestamp(event_time_utc) {
            Some(t) => Some(signed_string(t)),
            None => None,
        };
        push_opt_term(&mut terms, ts);
    }
    terms
}

} // verus!
