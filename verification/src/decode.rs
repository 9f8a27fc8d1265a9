//! Text decoding of raw fields: UTF-16LE, lines, `key=value` pairs, FILETIME
//! stamps, hexadecimal renderings and value cleaning.
use vstd::prelude::*;
use crate::binary::{le64, fits, read_u64_le};
use crate::external::{
    char_from_u32, rfc3339_of_timestamp, sha256_digest, sha256_of, shift_jis_decode,
    shift_jis_decoded, utc_rfc3339, utf8_error_text, utf8_text,
};
use crate::artifact::{cjk_or_kana, is_cjk_or_kana};
use vstd::utf8::{decode_utf8, valid_utf8};
use crate::text::{
    chars_of, eq_ignore_case, eq_ignore_case_chars, eq_str, field_end, field_end_exec, lower,
    slice_to_vec, string_from, trim, trim_chars, trim_end_set, trim_set, trim_set_chars,
    vviews,
};
use crate::ParserError;

verus! {

// ---------------------------------------------------------------------------
// UTF-16
// ---------------------------------------------------------------------------
pub open spec fn is_high_surrogate(u: u16) -> bool {
    0xd800 <= u && u <= 0xdbff
}

pub open spec fn is_low_surrogate(u: u16) -> bool {
    0xdc00 <= u && u <= 0xdfff
}

/// The scalar value of a surrogate pair.
pub open spec fn pair_value(h: u16, l: u16) -> int {
    0x10000 + (h - 0xd800) * 0x400 + (l - 0xdc00)
}

/// UTF-16 decoding in which each unpaired surrogate becomes U+FFFD, as
/// `String::from_utf16_lossy` decodes.
pub open spec fn utf16_lossy(u: Seq<u16>) -> Seq<char>
    decreases u.len(),
{
    if u.len() == 0 {
        Seq::empty()
    } else if u.len() >= 2 && is_high_surrogate(u[0]) && is_low_surrogate(u[1]) {
        seq![pair_value(u[0], u[1]) as char] + utf16_lossy(u.subrange(2, u.len() as int))
    } else if is_high_surrogate(u[0]) || is_low_surrogate(u[0]) {
        seq!['\u{fffd}'] + utf16_lossy(u.drop_first())
    } else {
        seq![u[0] as char] + utf16_lossy(u.drop_first())
    }
}

/// The code units hold no unpaired surrogate.
pub open spec fn utf16_valid(u: Seq<u16>) -> bool
    decreases u.len(),
{
    if u.len() == 0 {
        true
    } else if u.len() >= 2 && is_high_surrogate(u[0]) && is_low_surrogate(u[1]) {
        utf16_valid(u.subrange(2, u.len() as int))
    } else if is_high_surrogate(u[0]) || is_low_surrogate(u[0]) {
        false
    } else {
        utf16_valid(u.drop_first())
    }
}

/// The little-endian code units of a byte sequence; an odd last byte is ignored.
pub open spec fn le_units(b: Seq<u8>) -> Seq<u16> {
    Seq::new(b.len() / 2, |k: int| (b[2 * k] + 256 * b[2 * k + 1]) as u16)
}

/// Decodes code units; the flag tells whether every surrogate was paired.
fn utf16_decode_units(u: &[u16]) -> (r: (Vec<char>, bool))
    ensures
        r.0@ == utf16_lossy(u@),
        r.1 == utf16_valid(u@),
{
    let mut out: Vec<char> = Vec::new();
    let mut valid = true;
    let mut i: usize = 0;
    assert(u@.subrange(0, u@.len() as int) =~= u@);
    while i < u.len()
        invariant
            i <= u.len(),
            utf16_lossy(u@) == out@ + utf16_lossy(u@.subrange(i as int, u@.len() as int)),
            utf16_valid(u@) == (valid && utf16_valid(u@.subrange(i as int, u@.len() as int))),
        decreases u.len() - i,
    {
        let ghost rest = u@.subrange(i as int, u@.len() as int);
        let x = u[i];
        if i + 1 < u.len() && 0xd800 <= x && x <= 0xdbff && 0xdc00 <= u[i + 1] && u[i + 1]
            <= 0xdfff {
            let y = u[i + 1];
            assert(((x - 0xd800) as u32) * 0x400 <= 0xffc00) by (nonlinear_arith)
                requires
                    x <= 0xdbff,
                    x >= 0xd800,
            ;
            let v: u32 = 0x10000 + ((x - 0xd800) as u32) * 0x400 + ((y - 0xdc00) as u32);
            let c = char_from_u32(v).unwrap();
            assert(rest[0] == x && rest[1] == y);
            assert(v == pair_value(x, y));
            assert(c == pair_value(x, y) as char);
            assert(rest.subrange(2, rest.len() as int) =~= u@.subrange(i + 2, u@.len() as int));
            assert(utf16_lossy(rest) == seq![c] + utf16_lossy(u@.subrange(i + 2, u@.len() as int)));
            let ghost prev = out@;
            out.push(c);
            assert(prev + (seq![c] + utf16_lossy(u@.subrange(i + 2, u@.len() as int))) =~= out@
                + utf16_lossy(u@.subrange(i + 2, u@.len() as int)));
            i = i + 2;
        } else {
            assert(rest.drop_first() =~= u@.subrange(i + 1, u@.len() as int));
            assert(rest[0] == x);
            let c = if 0xd800 <= x && x <= 0xdfff {
                valid = false;
                '\u{fffd}'
            } else {
                let d = char_from_u32(x as u32).unwrap();
                assert(d == x as char);
                d
            };
            assert(utf16_lossy(rest) == seq![c] + utf16_lossy(u@.subrange(i + 1, u@.len() as int)));
            let ghost prev = out@;
            out.push(c);
            assert(prev + (seq![c] + utf16_lossy(u@.subrange(i + 1, u@.len() as int))) =~= out@
                + utf16_lossy(u@.subrange(i + 1, u@.len() as int)));
            i = i + 1;
        }
    }
    assert(out@ + utf16_lossy(u@.subrange(i as int, u@.len() as int)) =~= out@);
    (out, valid)
}

/// The little-endian code units of a byte slice.
pub fn le_units_of(bytes: &[u8]) -> (r: Vec<u16>)
    ensures
        r@ == le_units(bytes@),
{
    let mut out: Vec<u16> = Vec::new();
    let n = bytes.len() / 2;
    let mut k: usize = 0;
    while k < n
        invariant
            k <= n,
            n == bytes@.len() / 2,
            out@.len() == k,
            forall|j: int| 0 <= j < k ==> out@[j] == le_units(bytes@)[j],
        decreases n - k,
    {
        assert(2 * k + 1 < bytes.len());
        let v = bytes[2 * k] as u16 + (bytes[2 * k + 1] as u16) * 256;
        out.push(v);
        k = k + 1;
    }
    assert(out@ =~= le_units(bytes@));
    out
}

/// The UTF-16LE text of a field, NULs at its end and white space at both ends removed.
pub open spec fn utf16le_field(b: Seq<u8>) -> Seq<char> {
    trim(trim_end_set(utf16_lossy(le_units(b)), seq!['\0']))
}

pub fn decode_utf16le_lossy(bytes: &[u8]) -> (r: String)
    ensures
        r@ == utf16le_field(bytes@),
{
    let units = le_units_of(bytes);
    let (chars, _) = utf16_decode_units(units.as_slice());
    let mut j: usize = chars.len();
    assert(chars@.subrange(0, chars@.len() as int) =~= chars@);
    while j > 0 && chars[j - 1] == '\0'
        invariant
            j <= chars@.len(),
            trim_end_set(chars@, seq!['\0']) == trim_end_set(chars@.subrange(0, j as int), seq!['\0']),
        decreases j,
    {
        assert(seq!['\0'].contains('\0')) by {
            assert(seq!['\0'][0] == '\0');
        }
        assert(chars@.subrange(0, j as int).drop_last() =~= chars@.subrange(0, j - 1));
        j = j - 1;
    }
    proof {
        if j > 0 {
            assert(!seq!['\0'].contains(chars@[j - 1])) by {
                if seq!['\0'].contains(chars@[j - 1]) {
                    let k = choose|k: int| 0 <= k < 1 && seq!['\0'][k] == chars@[j - 1];
                }
            }
        }
    }
    let kept = slice_to_vec(chars.as_slice(), 0, j);
    let t = trim_chars(kept.as_slice());
    string_from(t.as_slice())
}

/// The failure message of strict UTF-16 decoding.
pub open spec fn utf16_failure() -> Seq<char> {
    "input is not supported utf-16: invalid utf-16: lone surrogate found"@
}

/// Strict UTF-16 decoding: the text, or a failure when a surrogate is unpaired.
pub open spec fn utf16_decoded(u: Seq<u16>) -> Result<Seq<char>, Seq<char>> {
    if utf16_valid(u) {
        Ok(utf16_lossy(u))
    } else {
        Err(utf16_failure())
    }
}

/// A parser's result over its model: the text, or the message of a failure.
pub open spec fn text_result(r: Result<String, ParserError>) -> Result<Seq<char>, Seq<char>> {
    match r {
        Ok(s) => Ok(s@),
        Err(ParserError::Failed(m)) => Err(m@),
        Err(ParserError::Unsupported(m)) => Err(m@),
    }
}

/// Strict UTF-16 decoding: the text, or a failure when a surrogate is unpaired.
pub fn decode_utf16(units: &[u16]) -> (r: Result<String, ParserError>)
    ensures
        r is Ok <==> utf16_valid(units@),
        r matches Ok(s) ==> s@ == utf16_lossy(units@),
        !(r matches Err(ParserError::Unsupported(_))),
        text_result(r) == utf16_decoded(units@),
{
    let (chars, valid) = utf16_decode_units(units);
    if valid {
        Ok(string_from(chars.as_slice()))
    } else {
        Err(
            ParserError::Failed(
                crate::text::string_of(
                    "input is not supported utf-16: invalid utf-16: lone surrogate found",
                ),
            ),
        )
    }
}

// ---------------------------------------------------------------------------
// Whole-file text
// ---------------------------------------------------------------------------
/// The big-endian code units of a byte sequence; an odd last byte is ignored.
pub open spec fn be_units(b: Seq<u8>) -> Seq<u16> {
    Seq::new(b.len() / 2, |k: int| (256 * b[2 * k] + b[2 * k + 1]) as u16)
}

/// The big-endian code units of a byte slice.
pub fn be_units_of(bytes: &[u8]) -> (r: Vec<u16>)
    ensures
        r@ == be_units(bytes@),
{
    let mut out: Vec<u16> = Vec::new();
    let n = bytes.len() / 2;
    let mut k: usize = 0;
    while k < n
        invariant
            k <= n,
            n == bytes@.len() / 2,
            out@.len() == k,
            forall|j: int| 0 <= j < k ==> out@[j] == be_units(bytes@)[j],
        decreases n - k,
    {
        assert(2 * k + 1 < bytes.len());
        let v = (bytes[2 * k] as u16) * 256 + bytes[2 * k + 1] as u16;
        out.push(v);
        k = k + 1;
    }
    assert(out@ =~= be_units(bytes@));
    out
}

/// The number of zero bytes in a byte sequence.
pub open spec fn zero_count(b: Seq<u8>) -> nat
    decreases b.len(),
{
    if b.len() == 0 {
        0
    } else {
        zero_count(b.drop_last()) + if b.last() == 0 {
            1nat
        } else {
            0nat
        }
    }
}

/// The bytes begin with the given two.
pub open spec fn starts_with_pair(b: Seq<u8>, x: u8, y: u8) -> bool {
    b.len() >= 2 && b[0] == x && b[1] == y
}

/// Many zero bytes among the first 256, and an even length: UTF-16LE without a mark.
pub open spec fn looks_utf16le(b: Seq<u8>) -> bool {
    zero_count(b.take(if b.len() < 256 { b.len() as int } else { 256 })) > 16 && b.len() % 2 == 0
}

/// How the whole of a text file is decoded: by its byte order mark as UTF-16; as
/// UTF-16LE when it holds many zero bytes; as UTF-8 when it is valid UTF-8; else as
/// Shift_JIS, which fails when that decoding met malformed input.
pub open spec fn decoded_text(b: Seq<u8>) -> Result<Seq<char>, Seq<char>> {
    if starts_with_pair(b, 0xff, 0xfe) {
        utf16_decoded(le_units(b.subrange(2, b.len() as int)))
    } else if starts_with_pair(b, 0xfe, 0xff) {
        utf16_decoded(be_units(b.subrange(2, b.len() as int)))
    } else if looks_utf16le(b) {
        utf16_decoded(le_units(b))
    } else if valid_utf8(b) {
        Ok(decode_utf8(b))
    } else if shift_jis_decoded(b).1 {
        Err("input is not supported text: "@ + utf8_error_text(b))
    } else {
        Ok(shift_jis_decoded(b).0)
    }
}

fn zero_count_prefix(bytes: &[u8], limit: usize) -> (r: usize)
    requires
        limit <= bytes.len(),
    ensures
        r == zero_count(bytes@.take(limit as int)),
{
    let mut n: usize = 0;
    let mut i: usize = 0;
    while i < limit
        invariant
            i <= limit <= bytes.len(),
            n == zero_count(bytes@.take(i as int)),
            n <= i,
        decreases limit - i,
    {
        assert(bytes@.take(i + 1).drop_last() =~= bytes@.take(i as int));
        if bytes[i] == 0 {
            n = n + 1;
        }
        i = i + 1;
    }
    n
}

pub fn decode_text(bytes: &[u8]) -> (r: Result<String, ParserError>)
    ensures
        !(r matches Err(ParserError::Unsupported(_))),
        text_result(r) == decoded_text(bytes@),
{
    let n = bytes.len();
    if n >= 2 && bytes[0] == 0xff && bytes[1] == 0xfe {
        let rest = crate::mft::slice_bytes(bytes, 2, n);
        let units = le_units_of(rest.as_slice());
        return decode_utf16(units.as_slice());
    }
    if n >= 2 && bytes[0] == 0xfe && bytes[1] == 0xff {
        let rest = crate::mft::slice_bytes(bytes, 2, n);
        let units = be_units_of(rest.as_slice());
        return decode_utf16(units.as_slice());
    }
    let limit = if n < 256 {
        n
    } else {
        256
    };
    let zeros = zero_count_prefix(bytes, limit);
    if zeros > 16 && n % 2 == 0 {
        let units = le_units_of(bytes);
        return decode_utf16(units.as_slice());
    }
    match utf8_text(bytes) {
        Ok(s) => Ok(s),
        Err(e) => {
            let (decoded, had_errors) = shift_jis_decode(bytes);
            if had_errors {
                Err(ParserError::Failed(crate::text::concat_str("input is not supported text: ", e.as_str())))
            } else {
                Ok(decoded)
            }
        },
    }
}

/// The characters that count as disturbing in decoded text: U+FFFD and the C0 and
/// C1 controls other than tab, line feed and carriage return.
pub open spec fn suspicious_char(c: char) -> bool {
    c == '\u{fffd}' || c <= '\u{8}' || c == '\u{b}' || c == '\u{c}' || ('\u{e}' <= c && c
        <= '\u{1f}') || ('\u{7f}' <= c && c <= '\u{9f}')
}

pub open spec fn non_control_char(c: char) -> bool {
    !crate::text::is_control(c) || c == '\n' || c == '\r' || c == '\t'
}

pub open spec fn signal_char(c: char) -> bool {
    crate::text::is_ascii_alnum(c) || cjk_or_kana(c)
}

/// The number of characters of `s` of which `p` holds.
pub open spec fn count_where(s: Seq<char>, p: spec_fn(char) -> bool) -> nat
    decreases s.len(),
{
    if s.len() == 0 {
        0
    } else {
        count_where(s.drop_last(), p) + if p(s.last()) {
            1nat
        } else {
            0nat
        }
    }
}

/// Decoded text reads as text: at least 90% printable, at most 1% U+FFFD, at most
/// 5% stray controls, and, from 80 characters on, at least 10% letters and digits
/// (ASCII or CJK); percentages rounded down over at least one character.
pub open spec fn readable_text(s: Seq<char>) -> bool {
    let total: nat = if s.len() == 0 { 1 } else { s.len() };
    &&& count_where(s, |c: char| non_control_char(c)) * 100 / total >= 90
    &&& count_where(s, |c: char| c == '\u{fffd}') * 100 / total <= 1
    &&& count_where(s, |c: char| suspicious_char(c)) * 100 / total <= 5
    &&& (total < 80 || count_where(s, |c: char| signal_char(c)) * 100 / total >= 10)
}

/// Text decoding that keeps only text that reads as text; a byte order mark
/// vouches for it.
pub open spec fn decoded_text_lossless(b: Seq<u8>) -> Option<Seq<char>> {
    if b.len() == 0 {
        Some(Seq::empty())
    } else {
        match decoded_text(b) {
            Ok(t) => if starts_with_pair(b, 0xff, 0xfe) || starts_with_pair(b, 0xfe, 0xff)
                || readable_text(t) {
                Some(t)
            } else {
                None
            },
            Err(_) => None,
        }
    }
}

fn readable_text_exec(s: &[char]) -> (r: bool)
    ensures
        r == readable_text(s@),
{
    let mut total: usize = 0;
    let mut non_control: usize = 0;
    let mut replacement: usize = 0;
    let mut suspicious: usize = 0;
    let mut signal: usize = 0;
    let ghost pn = |c: char| non_control_char(c);
    let ghost pr = |c: char| c == '\u{fffd}';
    let ghost ps = |c: char| suspicious_char(c);
    let ghost pg = |c: char| signal_char(c);
    while total < s.len()
        invariant
            total <= s.len(),
            non_control == count_where(s@.take(total as int), pn),
            replacement == count_where(s@.take(total as int), pr),
            suspicious == count_where(s@.take(total as int), ps),
            signal == count_where(s@.take(total as int), pg),
            non_control <= total,
            replacement <= total,
            suspicious <= total,
            signal <= total,
            pn == (|c: char| non_control_char(c)),
            pr == (|c: char| c == '\u{fffd}'),
            ps == (|c: char| suspicious_char(c)),
            pg == (|c: char| signal_char(c)),
        decreases s.len() - total,
    {
        let ch = s[total];
        assert(s@.take(total + 1).drop_last() =~= s@.take(total as int));
        assert(s@.take(total + 1).last() == ch);
        if !(ch <= '\u{1f}' || ('\u{7f}' <= ch && ch <= '\u{9f}')) || ch == '\n' || ch == '\r'
            || ch == '\t' {
            non_control = non_control + 1;
        }
        if ch == '\u{fffd}' {
            replacement = replacement + 1;
        }
        if ch == '\u{fffd}' || ch <= '\u{8}' || ch == '\u{b}' || ch == '\u{c}' || ('\u{e}' <= ch
            && ch <= '\u{1f}') || ('\u{7f}' <= ch && ch <= '\u{9f}') {
            suspicious = suspicious + 1;
        }
        if (('0' <= ch && ch <= '9') || ('a' <= ch && ch <= 'z') || ('A' <= ch && ch <= 'Z'))
            || is_cjk_or_kana(ch) {
            signal = signal + 1;
        }
        total = total + 1;
    }
    assert(s@.take(total as int) =~= s@);
    let t: u128 = if total == 0 {
        1
    } else {
        total as u128
    };
    let nc = non_control as u128 * 100;
    let rp = replacement as u128 * 100;
    let sp = suspicious as u128 * 100;
    let sg = signal as u128 * 100;
    nc / t >= 90 && rp / t <= 1 && sp / t <= 5 && (t < 80 || sg / t >= 10)
}

pub fn decode_text_lossless(bytes: &[u8]) -> (r: Option<String>)
    ensures
        opt_view(r) == decoded_text_lossless(bytes@),
{
    if bytes.len() == 0 {
        return Some(String::new());
    }
    let bom = bytes.len() >= 2 && ((bytes[0] == 0xff && bytes[1] == 0xfe) || (bytes[0] == 0xfe
        && bytes[1] == 0xff));
    match decode_text(bytes) {
        Ok(text) => {
            if bom {
                return Some(text);
            }
            let cs = chars_of(text.as_str());
            if readable_text_exec(cs.as_slice()) {
                Some(text)
            } else {
                None
            }
        },
        Err(_) => None,
    }
}

/// Gzip-compressed data decompressed, or the failure with the decoder's message.
pub open spec fn gzip_result(b: Seq<u8>) -> Result<Seq<u8>, Seq<char>> {
    match crate::external::gunzip_of(b) {
        Ok(v) => Ok(v),
        Err(e) => Err("gzip decode failed: "@ + e),
    }
}

pub fn decompress_gzip(bytes: &[u8]) -> (r: Result<Vec<u8>, ParserError>)
    ensures
        match r {
            Ok(v) => gzip_result(bytes@) == Ok::<Seq<u8>, Seq<char>>(v@),
            Err(ParserError::Failed(m)) => gzip_result(bytes@) == Err::<Seq<u8>, Seq<char>>(m@),
            Err(ParserError::Unsupported(_)) => false,
        },
{
    match crate::external::gunzip(bytes) {
        Ok(v) => Ok(v),
        Err(e) => Err(ParserError::Failed(crate::text::concat_str("gzip decode failed: ", e.as_str()))),
    }
}

// ---------------------------------------------------------------------------
// Cleaning
// ---------------------------------------------------------------------------
/// A value trimmed of white space and quotes, or none when nothing meaningful is
/// left: empty, `-`, or `null`, `n/a`, `none` in any ASCII case.
pub open spec fn clean(s: Seq<char>) -> Option<Seq<char>> {
    let t = trim_set(trim(s), seq!['"']);
    if t.len() == 0 || t == "-"@ || eq_ignore_case(t, "null"@) || eq_ignore_case(t, "n/a"@)
        || eq_ignore_case(t, "none"@) {
        None
    } else {
        Some(t)
    }
}

pub open spec fn clean_view(v: Option<String>) -> Option<Seq<char>> {
    match v {
        Some(s) => clean(s@),
        None => None,
    }
}

/// The cleaned characters of a value.
pub fn clean_chars(s: &[char]) -> (r: Option<Vec<char>>)
    ensures
        match r {
            Some(v) => clean(s@) == Some(v@),
            None => clean(s@) is None,
        },
{
    let t0 = trim_chars(s);
    let quote = ['"'];
    assert(quote@ == seq!['"']);
    let t = trim_set_chars(t0.as_slice(), &quote);
    if t.len() == 0 || eq_str(t.as_slice(), "-") || ci_eq(t.as_slice(), "null") || ci_eq(
        t.as_slice(),
        "n/a",
    ) || ci_eq(t.as_slice(), "none") {
        None
    } else {
        Some(t)
    }
}

fn ci_eq(a: &[char], b: &str) -> (r: bool)
    ensures
        r == eq_ignore_case(a@, b@),
{
    let bv = chars_of(b);
    eq_ignore_case_chars(a, bv.as_slice())
}

pub fn clean_opt(value: Option<String>) -> (r: Option<String>)
    ensures
        match r {
            Some(v) => clean_view(value) == Some(v@),
            None => clean_view(value) is None,
        },
{
    match value {
        None => None,
        Some(s) => {
            let v = chars_of(s.as_str());
            match clean_chars(v.as_slice()) {
                Some(t) => Some(string_from(t.as_slice())),
                None => None,
            }
        },
    }
}

// ---------------------------------------------------------------------------
// Lines and key=value pairs
// ---------------------------------------------------------------------------
/// A line with one trailing carriage return removed.
pub open spec fn strip_cr(l: Seq<char>) -> Seq<char> {
    if l.len() > 0 && l.last() == '\r' {
        l.drop_last()
    } else {
        l
    }
}

/// The lines of `s[i..]`, as `str::lines` yields them: split at `\n`, a `\r` before
/// a `\n` dropped, and no empty line after a final `\n`.
pub open spec fn lines_from(s: Seq<char>, i: int) -> Seq<Seq<char>>
    decreases s.len() - i,
{
    if i < 0 || i >= s.len() {
        Seq::empty()
    } else {
        let j = field_end(s, false, seq!['\n'], i);
        if j < i || j >= s.len() {
            seq![s.subrange(i, s.len() as int)]
        } else {
            seq![strip_cr(s.subrange(i, j))] + lines_from(s, j + 1)
        }
    }
}

pub open spec fn lines(s: Seq<char>) -> Seq<Seq<char>> {
    lines_from(s, 0)
}

pub fn lines_of(s: &[char]) -> (r: Vec<Vec<char>>)
    ensures
        vviews(r@) == lines(s@),
{
    let mut out: Vec<Vec<char>> = Vec::new();
    let nl = ['\n'];
    assert(nl@ == seq!['\n']);
    let mut i: usize = 0;
    while i < s.len()
        invariant
            i <= s.len(),
            nl@ == seq!['\n'],
            lines(s@) == vviews(out@) + lines_from(s@, i as int),
        decreases s.len() - i,
    {
        let j = field_end_exec(s, false, &nl, i);
        let ghost prev = vviews(out@);
        if j >= s.len() {
            let w = slice_to_vec(s, i, s.len());
            out.push(w);
            assert(vviews(out@) =~= prev.push(s@.subrange(i as int, s@.len() as int)));
            assert(prev + lines_from(s@, i as int) =~= vviews(out@));
            return out;
        }
        let end = if j > i && s[j - 1] == '\r' {
            j - 1
        } else {
            j
        };
        let w = slice_to_vec(s, i, end);
        assert(w@ =~= strip_cr(s@.subrange(i as int, j as int)));
        out.push(w);
        assert(vviews(out@) =~= prev.push(strip_cr(s@.subrange(i as int, j as int))));
        assert(prev + lines_from(s@, i as int) =~= vviews(out@) + lines_from(s@, j + 1));
        i = j + 1;
    }
    assert(lines_from(s@, i as int) =~= Seq::<Seq<char>>::empty());
    assert(vviews(out@) + lines_from(s@, i as int) =~= vviews(out@));
    out
}

/// The halves of `l` around its first `c`.
pub open spec fn split_once(l: Seq<char>, c: char) -> Option<(Seq<char>, Seq<char>)> {
    let j = field_end(l, false, seq![c], 0);
    if j >= l.len() {
        None
    } else {
        Some((l.subrange(0, j), l.subrange(j + 1, l.len() as int)))
    }
}

pub fn split_once_exec(l: &[char], c: char) -> (r: Option<(Vec<char>, Vec<char>)>)
    ensures
        match r {
            Some((a, b)) => split_once(l@, c) == Some((a@, b@)),
            None => split_once(l@, c) is None,
        },
{
    let cs = [c];
    assert(cs@ == seq![c]);
    let j = field_end_exec(l, false, &cs, 0);
    if j >= l.len() {
        None
    } else {
        Some((slice_to_vec(l, 0, j), slice_to_vec(l, j + 1, l.len())))
    }
}

/// The value of the first `key=value` line whose key, trimmed, matches `key` up to
/// ASCII case, cleaned.
pub open spec fn ini_lookup(ls: Seq<Seq<char>>, key: Seq<char>) -> Option<Seq<char>>
    decreases ls.len(),
{
    if ls.len() == 0 {
        None
    } else {
        match split_once(ls[0], '=') {
            Some((left, right)) => if eq_ignore_case(trim(left), key) {
                clean(trim(right))
            } else {
                ini_lookup(ls.drop_first(), key)
            },
            None => ini_lookup(ls.drop_first(), key),
        }
    }
}

pub fn ini_value(text: &str, key: &str) -> (r: Option<String>)
    ensures
        match r {
            Some(v) => ini_lookup(lines(text@), key@) == Some(v@),
            None => ini_lookup(lines(text@), key@) is None,
        },
{
    let tv = chars_of(text);
    let kv = chars_of(key);
    let ls = lines_of(tv.as_slice());
    let mut i: usize = 0;
    assert(vviews(ls@).subrange(0, ls@.len() as int) =~= vviews(ls@));
    while i < ls.len()
        invariant
            i <= ls@.len(),
            vviews(ls@) == lines(text@),
            kv@ == key@,
            ini_lookup(lines(text@), key@) == ini_lookup(
                vviews(ls@).subrange(i as int, ls@.len() as int),
                key@,
            ),
        decreases ls.len() - i,
    {
        let ghost rest = vviews(ls@).subrange(i as int, ls@.len() as int);
        assert(rest[0] == ls@[i as int]@);
        assert(rest.drop_first() =~= vviews(ls@).subrange(i + 1, ls@.len() as int));
        match split_once_exec(ls[i].as_slice(), '=') {
            Some((left, right)) => {
                let tl = trim_chars(left.as_slice());
                if eq_ignore_case_chars(tl.as_slice(), kv.as_slice()) {
                    let tr = trim_chars(right.as_slice());
                    return match clean_chars(tr.as_slice()) {
                        Some(v) => Some(string_from(v.as_slice())),
                        None => None,
                    };
                }
            },
            None => {},
        }
        i = i + 1;
    }
    None
}

// ---------------------------------------------------------------------------
// FILETIME
// ---------------------------------------------------------------------------
/// 100-nanosecond intervals between 1601-01-01 and the Unix epoch.
pub open spec fn filetime_epoch() -> int {
    116_444_736_000_000_000
}

/// The RFC 3339 text of a FILETIME, or none for zero or a time before 1970.
pub open spec fn filetime_text(ft: int) -> Option<Seq<char>> {
    if ft == 0 || ft < filetime_epoch() {
        None
    } else {
        rfc3339_of_timestamp((ft - filetime_epoch()) / 10_000_000, ((ft - filetime_epoch()) % 10_000_000) * 100)
    }
}

pub open spec fn opt_view(o: Option<String>) -> Option<Seq<char>> {
    match o {
        Some(s) => Some(s@),
        None => None,
    }
}

pub fn filetime_u64_rfc3339(filetime: u64) -> (r: Option<String>)
    ensures
        opt_view(r) == filetime_text(filetime as int),
{
    if filetime == 0 || filetime < 116_444_736_000_000_000 {
        return None;
    }
    let unix = filetime - 116_444_736_000_000_000;
    let seconds = (unix / 10_000_000) as i64;
    let nanos = ((unix % 10_000_000) * 100) as u32;
    utc_rfc3339(seconds, nanos)
}

pub fn filetime_i64_rfc3339(filetime: i64) -> (r: Option<String>)
    ensures
        opt_view(r) == filetime_text(filetime as int),
{
    if filetime < 0 {
        return None;
    }
    filetime_u64_rfc3339(filetime as u64)
}

pub fn read_filetime_rfc3339(bytes: &[u8], offset: usize) -> (r: Option<String>)
    ensures
        opt_view(r) == if fits(bytes@, offset as int, 8) {
            filetime_text(le64(bytes@, offset as int))
        } else {
            None
        },
{
    match read_u64_le(bytes, offset) {
        Some(ft) => filetime_u64_rfc3339(ft),
        None => None,
    }
}

// ---------------------------------------------------------------------------
// Hexadecimal
// ---------------------------------------------------------------------------
/// The lower-case hexadecimal digit of a value below sixteen.
pub open spec fn hex_digit(n: int) -> char {
    if n < 10 {
        (n + 48) as char
    } else {
        (n + 87) as char
    }
}

/// Two lower-case hexadecimal digits per byte.
pub open spec fn hex_of(b: Seq<u8>) -> Seq<char>
    decreases b.len(),
{
    if b.len() == 0 {
        Seq::empty()
    } else {
        hex_of(b.drop_last()) + seq![hex_digit(b.last() as int / 16), hex_digit(b.last() as int % 16)]
    }
}

fn hex_digit_exec(n: u8) -> (c: char)
    requires
        n < 16,
    ensures
        c == hex_digit(n as int),
{
    if n < 10 {
        (n + 48) as char
    } else {
        (n + 87) as char
    }
}

fn push_hex(out: &mut Vec<char>, b: &[u8])
    ensures
        final(out)@ == old(out)@ + hex_of(b@),
{
    let mut i: usize = 0;
    assert(b@.subrange(0, 0) =~= Seq::<u8>::empty());
    assert(old(out)@ + hex_of(Seq::<u8>::empty()) =~= old(out)@);
    while i < b.len()
        invariant
            i <= b.len(),
            out@ == old(out)@ + hex_of(b@.subrange(0, i as int)),
        decreases b.len() - i,
    {
        let x = b[i];
        let ghost prev = out@;
        out.push(hex_digit_exec(x / 16));
        out.push(hex_digit_exec(x % 16));
        assert(b@.subrange(0, i + 1).drop_last() =~= b@.subrange(0, i as int));
        assert(out@ =~= prev + seq![hex_digit(x as int / 16), hex_digit(x as int % 16)]);
        i = i + 1;
    }
    assert(b@.subrange(0, b@.len() as int) =~= b@);
}

pub fn lnk_hex(bytes: &[u8]) -> (r: String)
    ensures
        r@ == hex_of(bytes@),
{
    let mut out: Vec<char> = Vec::new();
    push_hex(&mut out, bytes);
    assert(Seq::<char>::empty() + hex_of(bytes@) =~= hex_of(bytes@));
    string_from(out.as_slice())
}

/// The lower-case hexadecimal SHA-256 digest of a byte sequence.
pub fn sha256_hex(bytes: &[u8]) -> (r: String)
    ensures
        r@ == hex_of(sha256_of(bytes@)),
{
    let digest = sha256_digest(bytes);
    lnk_hex(digest.as_slice())
}

/// A little-endian GUID in its registry form, or empty when fewer than sixteen bytes are given.
pub open spec fn guid_text(b: Seq<u8>) -> Seq<char> {
    if b.len() < 16 {
        Seq::empty()
    } else {
        hex_of(seq![b[3], b[2], b[1], b[0]]) + "-"@ + hex_of(seq![b[5], b[4]]) + "-"@ + hex_of(
            seq![b[7], b[6]],
        ) + "-"@ + hex_of(b.subrange(8, 10)) + "-"@ + hex_of(b.subrange(10, 16))
    }
}

pub fn format_guid_le(bytes: &[u8]) -> (r: String)
    ensures
        r@ == guid_text(bytes@),
{
    if bytes.len() < 16 {
        return String::new();
    }
    let d1 = [bytes[3], bytes[2], bytes[1], bytes[0]];
    let d2 = [bytes[5], bytes[4]];
    let d3 = [bytes[7], bytes[6]];
    let d4 = [bytes[8], bytes[9]];
    let d5 = [bytes[10], bytes[11], bytes[12], bytes[13], bytes[14], bytes[15]];
    assert(d4@ =~= bytes@.subrange(8, 10));
    assert(d5@ =~= bytes@.subrange(10, 16));
    let dash = chars_of("-");
    let mut out: Vec<char> = Vec::new();
    push_hex(&mut out, &d1);
    out.append(&mut dash.clone());
    push_hex(&mut out, &d2);
    out.append(&mut dash.clone());
    push_hex(&mut out, &d3);
    out.append(&mut dash.clone());
    push_hex(&mut out, &d4);
    out.append(&mut dash.clone());
    push_hex(&mut out, &d5);
    assert(out@ =~= guid_text(bytes@));
    string_from(out.as_slice())
}

} // verus!
