//! FileZilla's stored values: base64 fields and remote paths written as counted
//! segments.
use vstd::prelude::*;
use vstd::utf8::{decode_utf8, valid_utf8};
use crate::decode::{clean, clean_opt, opt_view};
use crate::external::utf8_text;
use crate::row::{join_strings, vec_strings};
use crate::text::{
    all_digits, char_is_ascii_digit, chars_of, decimal_value, eq_str, is_ascii_digit, joined,
    string_from, trim_set, trim_set_chars, vviews, words, words_of,
};

verus! {

// ---------------------------------------------------------------------------
// Base64
// ---------------------------------------------------------------------------
/// The ASCII white space that `u8::is_ascii_whitespace` accepts.
pub open spec fn ascii_ws(c: char) -> bool {
    c == ' ' || c == '\t' || c == '\n' || c == '\u{c}' || c == '\r'
}

/// The value of a character of the standard base64 alphabet.
pub open spec fn b64_value(c: char) -> Option<int> {
    if 'A' <= c && c <= 'Z' {
        Some(c as int - 65)
    } else if 'a' <= c && c <= 'z' {
        Some(c as int - 97 + 26)
    } else if '0' <= c && c <= '9' {
        Some(c as int - 48 + 52)
    } else if c == '+' {
        Some(62)
    } else if c == '/' {
        Some(63)
    } else {
        None
    }
}

/// The values of the characters of `s[i..]` before the first `=`, white space
/// skipped, appended to `acc`; none when any other character comes first.
pub open spec fn b64_values(s: Seq<char>, i: int, acc: Seq<int>) -> Option<Seq<int>>
    decreases s.len() - i,
{
    if i < 0 || i >= s.len() {
        Some(acc)
    } else if ascii_ws(s[i]) {
        b64_values(s, i + 1, acc)
    } else if s[i] == '=' {
        Some(acc)
    } else {
        match b64_value(s[i]) {
            None => None,
            Some(v) => b64_values(s, i + 1, acc.push(v)),
        }
    }
}

/// Byte `k` of the decoding: each four values give three bytes, made of their
/// 6-bit groups read most significant first.
pub open spec fn b64_byte(vals: Seq<int>, k: int) -> int {
    let j = 4 * (k / 3) + k % 3;
    if k % 3 == 0 {
        vals[j] * 4 + vals[j + 1] / 16
    } else if k % 3 == 1 {
        (vals[j] % 16) * 16 + vals[j + 1] / 4
    } else {
        (vals[j] % 4) * 64 + vals[j + 1]
    }
}

/// The bytes that base64 values decode to; bits left over at the end, fewer than
/// eight, are dropped.
pub open spec fn b64_bytes(vals: Seq<int>) -> Seq<u8> {
    Seq::new((6 * vals.len() / 8) as nat, |k: int| b64_byte(vals, k) as u8)
}

/// A base64 field decoded and read as UTF-8 text, then cleaned; none when the
/// field holds a character outside the alphabet before its padding, when the
/// bytes are not UTF-8, or when nothing meaningful is left.
pub open spec fn base64_text(s: Seq<char>) -> Option<Seq<char>> {
    match b64_values(s, 0, Seq::empty()) {
        None => None,
        Some(vals) => if valid_utf8(b64_bytes(vals)) {
            clean(decode_utf8(b64_bytes(vals)))
        } else {
            None
        },
    }
}

proof fn lemma_b64_step1(b: u32, v: u32, nb: u32)
    by (bit_vector)
    requires
        b < 64,
        v < 64,
        nb == (b << 6u32) | v,
    ensures
        (nb >> 4u8) & 0xff == b * 4 + v / 16,
        1u32 << 4u8 == 16,
        nb & 15 == v % 16,
{
}

proof fn lemma_b64_step2(b: u32, v: u32, nb: u32)
    by (bit_vector)
    requires
        b < 16,
        v < 64,
        nb == (b << 6u32) | v,
    ensures
        (nb >> 2u8) & 0xff == b * 16 + v / 4,
        1u32 << 2u8 == 4,
        nb & 3 == v % 4,
{
}

proof fn lemma_b64_step3(b: u32, v: u32, nb: u32)
    by (bit_vector)
    requires
        b < 4,
        v < 64,
        nb == (b << 6u32) | v,
    ensures
        (nb >> 0u8) & 0xff == b * 64 + v,
{
}

proof fn lemma_b64_step0(v: u32, nb: u32)
    by (bit_vector)
    requires
        v < 64,
        nb == (0u32 << 6u32) | v,
    ensures
        nb == v,
{
}

fn b64_value_exec(c: char) -> (r: Option<u32>)
    ensures
        match r {
            Some(v) => b64_value(c) == Some(v as int) && v < 64,
            None => b64_value(c) is None,
        },
{
    if 'A' <= c && c <= 'Z' {
        Some(c as u32 - 65)
    } else if 'a' <= c && c <= 'z' {
        Some(c as u32 - 97 + 26)
    } else if '0' <= c && c <= '9' {
        Some(c as u32 - 48 + 52)
    } else if c == '+' {
        Some(62)
    } else if c == '/' {
        Some(63)
    } else {
        None
    }
}

/// The decoder's state after `vals`: the bits not yet emitted and how many.
pub open spec fn b64_state(vals: Seq<int>, buffer: int, bits: int) -> bool {
    let n = vals.len();
    &&& n % 4 == 0 ==> bits == 0 && buffer == 0
    &&& n % 4 == 1 ==> bits == 6 && buffer == vals[n - 1]
    &&& n % 4 == 2 ==> bits == 4 && buffer == vals[n - 1] % 16
    &&& n % 4 == 3 ==> bits == 2 && buffer == vals[n - 1] % 4
}

fn b64_decode_bytes(s: &[char]) -> (r: Option<Vec<u8>>)
    ensures
        match r {
            Some(out) => exists|vals: Seq<int>|
                b64_values(s@, 0, Seq::empty()) == Some(vals) && out@ == b64_bytes(vals),
            None => b64_values(s@, 0, Seq::empty()) is None,
        },
{
    let mut out: Vec<u8> = Vec::new();
    let mut buffer: u32 = 0;
    let mut bit_count: u8 = 0;
    let ghost mut vals: Seq<int> = Seq::empty();
    let mut i: usize = 0;
    while i < s.len()
        invariant
            i <= s.len(),
            b64_values(s@, 0, Seq::empty()) == b64_values(s@, i as int, vals),
            forall|j: int| 0 <= j < vals.len() ==> 0 <= #[trigger] vals[j] < 64,
            b64_state(vals, buffer as int, bit_count as int),
            out@.len() == 6 * vals.len() / 8,
            forall|k: int| 0 <= k < out@.len() ==> #[trigger] out@[k] == b64_byte(vals, k) as u8,
        ensures
            b64_values(s@, 0, Seq::empty()) == Some(vals),
            out@ =~= b64_bytes(vals),
        decreases s.len() - i,
    {
        let c = s[i];
        if c == ' ' || c == '\t' || c == '\n' || c == '\u{c}' || c == '\r' {
            i = i + 1;
            continue ;
        }
        if c == '=' {
            break ;
        }
        let v = match b64_value_exec(c) {
            Some(v) => v,
            None => {
                return None;
            },
        };
        let ghost old_vals = vals;
        let ghost n = old_vals.len() as int;
        let ghost k = out@.len() as int;
        proof {
            vals = vals.push(v as int);
            assert(n == 4 * (n / 4) + n % 4);
        }
        let nb = (buffer << 6u32) | v;
        bit_count = bit_count + 6;
        if bit_count >= 8 {
            bit_count = bit_count - 8;
            proof {
                if n % 4 == 1 {
                    lemma_b64_step1(buffer, v, nb);
                    assert(k == 3 * (n / 4));
                } else if n % 4 == 2 {
                    lemma_b64_step2(buffer, v, nb);
                    assert(k == 3 * (n / 4) + 1);
                } else {
                    lemma_b64_step3(buffer, v, nb);
                    assert(k == 3 * (n / 4) + 2);
                }
                assert(4 * (k / 3) + k % 3 == n - 1);
                assert(vals[n - 1] == old_vals[n - 1]);
                assert(vals[n] == v);
            }
            out.push(((nb >> bit_count) & 0xff) as u8);
            if bit_count > 0 {
                buffer = nb & ((1u32 << bit_count) - 1);
            } else {
                buffer = 0;
            }
            proof {
                assert forall|j: int| 0 <= j < out@.len() implies #[trigger] out@[j] == b64_byte(vals, j) as u8 by {
                    if j < k {
                        assert(4 * (j / 3) + j % 3 + 1 < n);
                    }
                }
            }
        } else {
            proof {
                lemma_b64_step0(v, nb);
                assert(k == 3 * (n / 4));
                assert forall|j: int| 0 <= j < out@.len() implies #[trigger] out@[j] == b64_byte(vals, j) as u8 by {
                    assert(4 * (j / 3) + j % 3 + 1 < n);
                }
            }
            buffer = nb;
        }
        i = i + 1;
    }
    Some(out)
}

pub fn decode_base64_utf8(value: &str) -> (r: Option<String>)
    ensures
        opt_view(r) == base64_text(value@),
{
    let cs = chars_of(value);
    match b64_decode_bytes(cs.as_slice()) {
        None => None,
        Some(out) => match utf8_text(out.as_slice()) {
            Ok(t) => clean_opt(Some(t)),
            Err(_) => None,
        },
    }
}

// ---------------------------------------------------------------------------
// Remote paths
// ---------------------------------------------------------------------------
/// What `str::parse::<usize>` accepts: an optional `+`, then one or more decimal
/// digits whose value fits in a `usize`.
pub open spec fn parses_usize(s: Seq<char>) -> bool {
    let d = if s.len() > 0 && s[0] == '+' {
        s.drop_first()
    } else {
        s
    };
    d.len() > 0 && all_digits(d) && decimal_value(d) <= usize::MAX
}

fn parses_usize_exec(s: &[char]) -> (r: bool)
    ensures
        r == parses_usize(s@),
{
    let n = s.len();
    let start: usize = if n > 0 && s[0] == '+' {
        1
    } else {
        0
    };
    let ghost d = if start == 1 {
        s@.drop_first()
    } else {
        s@
    };
    assert(d =~= s@.subrange(start as int, n as int));
    if start >= n {
        return false;
    }
    let limit: u128 = usize::MAX as u128;
    let mut acc: u128 = 0;
    let mut over = false;
    let mut i: usize = start;
    while i < n
        invariant
            start <= i <= n,
            n == s@.len(),
            start == 0 || start == 1,
            start == 1 <==> (s@.len() > 0 && s@[0] == '+'),
            d == s@.subrange(start as int, n as int),
            d == (if s@.len() > 0 && s@[0] == '+' {
                s@.drop_first()
            } else {
                s@
            }),
            all_digits(s@.subrange(start as int, i as int)),
            !over ==> acc == decimal_value(s@.subrange(start as int, i as int)),
            !over ==> acc <= limit,
            over ==> decimal_value(s@.subrange(start as int, i as int)) > limit,
            limit == usize::MAX,
        decreases n - i,
    {
        let c = s[i];
        if !char_is_ascii_digit(c) {
            assert(!all_digits(d)) by {
                assert(d[i - start] == c);
            }
            return false;
        }
        let ghost prev = s@.subrange(start as int, i as int);
        let ghost next = s@.subrange(start as int, i + 1);
        assert(next.drop_last() =~= prev);
        assert(next.last() == c);
        assert(all_digits(next)) by {
            assert forall|k: int| 0 <= k < next.len() implies is_ascii_digit(#[trigger] next[k]) by {
                if k < prev.len() {
                    assert(next[k] == prev[k]);
                }
            }
        }
        proof {
            crate::text::lemma_decimal_value_nonneg(prev);
        }
        if !over {
            let dv = (c as u32 - 48) as u128;
            acc = acc * 10 + dv;
            if acc > limit {
                over = true;
            }
        }
        i = i + 1;
    }
    !over
}

/// The path segments of FileZilla's `count segment count segment ...` form, from
/// token `i` on: a numeric token is a length, and the token after it a segment;
/// any other token is a segment itself. Slashes at either end are removed.
pub open spec fn remote_segments(ts: Seq<Seq<char>>, i: int) -> Seq<Seq<char>>
    decreases ts.len() - i,
{
    if i < 0 || i >= ts.len() {
        Seq::empty()
    } else if parses_usize(ts[i]) {
        if i + 1 < ts.len() {
            seq![trim_set(ts[i + 1], seq!['/'])] + remote_segments(ts, i + 2)
        } else {
            Seq::empty()
        }
    } else {
        seq![trim_set(ts[i], seq!['/'])] + remote_segments(ts, i + 1)
    }
}

/// A segment worth keeping: not empty, and neither `0` nor `1`.
pub open spec fn kept_segment(p: Seq<char>) -> bool {
    p.len() > 0 && p != "0"@ && p != "1"@
}

/// The segments worth keeping, in order.
pub open spec fn kept_segments(ps: Seq<Seq<char>>) -> Seq<Seq<char>>
    decreases ps.len(),
{
    if ps.len() == 0 {
        Seq::empty()
    } else if kept_segment(ps.last()) {
        kept_segments(ps.drop_last()).push(ps.last())
    } else {
        kept_segments(ps.drop_last())
    }
}

/// A FileZilla remote path as an absolute `/`-separated path. A leading number
/// followed by two or more tokens is the server type and its first field, and is
/// skipped.
pub open spec fn filezilla_remote_path(v: Seq<char>) -> Option<Seq<char>> {
    let ts = words(v);
    let start = if ts.len() > 2 && parses_usize(ts[0]) {
        2
    } else {
        0
    };
    let ps = kept_segments(remote_segments(ts, start));
    if ts.len() == 0 || ps.len() == 0 {
        None
    } else {
        Some(seq!['/'] + joined(ps, seq!['/']))
    }
}

fn push_segment(parts: &mut Vec<String>, seg: &[char])
    ensures
        vec_strings(final(parts)@) == vec_strings(old(parts)@) + seq![trim_set(seg@, seq!['/'])],
{
    let slash = ['/'];
    assert(slash@ == seq!['/']);
    let t = trim_set_chars(seg, &slash);
    let ghost prev = vec_strings(parts@);
    parts.push(string_from(t.as_slice()));
    assert(vec_strings(parts@) =~= prev + seq![t@]);
}

pub fn normalize_filezilla_remote_path(value: &str) -> (r: Option<String>)
    ensures
        opt_view(r) == filezilla_remote_path(value@),
{
    let vc = chars_of(value);
    let tokens = words_of(vc.as_slice());
    let ghost ts = words(value@);
    assert(vviews(tokens@) == ts);
    if tokens.len() == 0 {
        return None;
    }
    assert(ts[0] == tokens@[0]@);
    let mut idx: usize = if tokens.len() > 2 && parses_usize_exec(tokens[0].as_slice()) {
        2
    } else {
        0
    };
    let ghost start = idx as int;
    let mut parts: Vec<String> = Vec::new();
    while idx < tokens.len()
        invariant
            idx <= tokens.len(),
            ts == vviews(tokens@),
            ts.len() == tokens@.len(),
            remote_segments(ts, start) == vec_strings(parts@) + remote_segments(ts, idx as int),
        decreases tokens.len() - idx,
    {
        assert(ts[idx as int] == tokens@[idx as int]@);
        if parses_usize_exec(tokens[idx].as_slice()) {
            if idx + 1 < tokens.len() {
                assert(ts[idx + 1] == tokens@[idx + 1]@);
                push_segment(&mut parts, tokens[idx + 1].as_slice());
                idx = idx + 2;
            } else {
                idx = tokens.len();
            }
        } else {
            push_segment(&mut parts, tokens[idx].as_slice());
            idx = idx + 1;
        }
    }
    assert(vec_strings(parts@) =~= remote_segments(ts, start));
    let mut kept: Vec<String> = Vec::new();
    let mut i: usize = 0;
    while i < parts.len()
        invariant
            i <= parts.len(),
            vec_strings(kept@) == kept_segments(vec_strings(parts@).take(i as int)),
        decreases parts.len() - i,
    {
        let pc = chars_of(parts[i].as_str());
        assert(vec_strings(parts@).take(i + 1).drop_last() =~= vec_strings(parts@).take(i as int));
        assert(vec_strings(parts@).take(i + 1).last() == pc@);
        if pc.len() > 0 && !eq_str(pc.as_slice(), "0") && !eq_str(pc.as_slice(), "1") {
            let ghost prev = vec_strings(kept@);
            kept.push(string_from(pc.as_slice()));
            assert(vec_strings(kept@) =~= prev.push(pc@));
        }
        i = i + 1;
    }
    assert(vec_strings(parts@).take(parts@.len() as int) =~= vec_strings(parts@));
    if kept.len() == 0 {
        return None;
    }
    let j = join_strings(&kept, "/");
    proof {
        reveal_strlit("/");
        assert("/"@ =~= seq!['/']);
    }
    let mut out: Vec<char> = Vec::new();
    out.push('/');
    crate::text::push_all(&mut out, j.as_slice());
    assert(out@ =~= seq!['/'] + j@);
    Some(string_from(out.as_slice()))
}

} // verus!
