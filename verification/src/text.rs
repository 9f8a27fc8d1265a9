//! Character-level text model shared by the classifiers: ASCII case folding,
//! substring search, trimming and splitting, each stated over `Seq<char>` and
//! implemented over `&[char]`.
use vstd::prelude::*;
pub(crate) use crate::external::string_from;

verus! {

// ---------------------------------------------------------------------------
// Character classes
// ---------------------------------------------------------------------------
/// The ASCII lower-case form of one character; every other character is kept.
pub open spec fn lower_char(c: char) -> char {
    if 'A' <= c && c <= 'Z' {
        ((c as u32) + 32) as char
    } else {
        c
    }
}

/// The ASCII upper-case form of one character; every other character is kept.
pub open spec fn upper_char(c: char) -> char {
    if 'a' <= c && c <= 'z' {
        ((c as u32) - 32) as char
    } else {
        c
    }
}

/// Unicode `White_Space`, as `char::is_whitespace` tests it.
pub open spec fn is_ws(c: char) -> bool {
    ('\u{9}' <= c && c <= '\u{d}') || c == ' ' || c == '\u{85}' || c == '\u{a0}' || c
        == '\u{1680}' || ('\u{2000}' <= c && c <= '\u{200a}') || c == '\u{2028}' || c
        == '\u{2029}' || c == '\u{202f}' || c == '\u{205f}' || c == '\u{3000}'
}

/// The general category `Cc`, as `char::is_control` tests it.
pub open spec fn is_control(c: char) -> bool {
    c <= '\u{1f}' || ('\u{7f}' <= c && c <= '\u{9f}')
}

pub open spec fn is_ascii_digit(c: char) -> bool {
    '0' <= c && c <= '9'
}

pub open spec fn is_ascii_alpha(c: char) -> bool {
    ('a' <= c && c <= 'z') || ('A' <= c && c <= 'Z')
}

pub open spec fn is_ascii_alnum(c: char) -> bool {
    is_ascii_digit(c) || is_ascii_alpha(c)
}

pub open spec fn is_ascii_hex(c: char) -> bool {
    is_ascii_digit(c) || ('a' <= c && c <= 'f') || ('A' <= c && c <= 'F')
}

/// Printable ASCII other than space.
pub open spec fn is_ascii_graphic(c: char) -> bool {
    '!' <= c && c <= '~'
}

pub fn char_is_ws(c: char) -> (r: bool)
    ensures
        r == is_ws(c),
{
    ('\u{9}' <= c && c <= '\u{d}') || c == ' ' || c == '\u{85}' || c == '\u{a0}' || c
        == '\u{1680}' || ('\u{2000}' <= c && c <= '\u{200a}') || c == '\u{2028}' || c
        == '\u{2029}' || c == '\u{202f}' || c == '\u{205f}' || c == '\u{3000}'
}

pub fn char_is_control(c: char) -> (r: bool)
    ensures
        r == is_control(c),
{
    c <= '\u{1f}' || ('\u{7f}' <= c && c <= '\u{9f}')
}

pub fn char_is_ascii_digit(c: char) -> (r: bool)
    ensures
        r == is_ascii_digit(c),
{
    '0' <= c && c <= '9'
}

pub fn char_is_ascii_alpha(c: char) -> (r: bool)
    ensures
        r == is_ascii_alpha(c),
{
    ('a' <= c && c <= 'z') || ('A' <= c && c <= 'Z')
}

pub fn char_is_ascii_alnum(c: char) -> (r: bool)
    ensures
        r == is_ascii_alnum(c),
{
    char_is_ascii_digit(c) || char_is_ascii_alpha(c)
}

pub fn char_is_ascii_hex(c: char) -> (r: bool)
    ensures
        r == is_ascii_hex(c),
{
    char_is_ascii_digit(c) || ('a' <= c && c <= 'f') || ('A' <= c && c <= 'F')
}

pub fn char_lower(c: char) -> (r: char)
    ensures
        r == lower_char(c),
{
    if 'A' <= c && c <= 'Z' {
        ((c as u8) + 32) as char
    } else {
        c
    }
}

pub fn char_upper(c: char) -> (r: char)
    ensures
        r == upper_char(c),
{
    if 'a' <= c && c <= 'z' {
        ((c as u8) - 32) as char
    } else {
        c
    }
}

// ---------------------------------------------------------------------------
// Whole-text predicates
// ---------------------------------------------------------------------------
/// The ASCII lower-case form of a text.
pub open spec fn lower(s: Seq<char>) -> Seq<char> {
    s.map_values(|c: char| lower_char(c))
}

/// The ASCII upper-case form of a text.
pub open spec fn upper(s: Seq<char>) -> Seq<char> {
    s.map_values(|c: char| upper_char(c))
}

/// `n` occurs in `h` starting at index `i`.
pub open spec fn match_at(h: Seq<char>, n: Seq<char>, i: int) -> bool {
    0 <= i && i + n.len() <= h.len() && h.subrange(i, i + n.len()) =~= n
}

/// The first index, at or after `i`, where `n` occurs in `h`.
pub open spec fn find_from(h: Seq<char>, n: Seq<char>, i: int) -> Option<int>
    decreases h.len() - i,
{
    if i < 0 || i + n.len() > h.len() {
        None
    } else if match_at(h, n, i) {
        Some(i)
    } else {
        find_from(h, n, i + 1)
    }
}

/// The first index where `n` occurs in `h`.
pub open spec fn find(h: Seq<char>, n: Seq<char>) -> Option<int> {
    find_from(h, n, 0)
}

pub open spec fn contains(h: Seq<char>, n: Seq<char>) -> bool {
    find(h, n) is Some
}

pub open spec fn contains_char(h: Seq<char>, c: char) -> bool {
    h.contains(c)
}

pub open spec fn starts_with(h: Seq<char>, n: Seq<char>) -> bool {
    n.len() <= h.len() && h.subrange(0, n.len() as int) =~= n
}

pub open spec fn ends_with(h: Seq<char>, n: Seq<char>) -> bool {
    n.len() <= h.len() && h.subrange(h.len() - n.len(), h.len() as int) =~= n
}

/// The views of a list of string slices.
pub open spec fn views(ns: Seq<&str>) -> Seq<Seq<char>> {
    ns.map_values(|s: &str| s@)
}

pub open spec fn contains_any(h: Seq<char>, ns: Seq<Seq<char>>) -> bool {
    exists|k: int| 0 <= k < ns.len() && contains(h, #[trigger] ns[k])
}

pub open spec fn ends_with_any(h: Seq<char>, ns: Seq<Seq<char>>) -> bool {
    exists|k: int| 0 <= k < ns.len() && ends_with(h, #[trigger] ns[k])
}

pub open spec fn starts_with_any(h: Seq<char>, ns: Seq<Seq<char>>) -> bool {
    exists|k: int| 0 <= k < ns.len() && starts_with(h, #[trigger] ns[k])
}

pub open spec fn equals_any(h: Seq<char>, ns: Seq<Seq<char>>) -> bool {
    ns.contains(h)
}

/// Equality up to ASCII case, as `eq_ignore_ascii_case` tests it.
pub open spec fn eq_ignore_case(a: Seq<char>, b: Seq<char>) -> bool {
    lower(a) == lower(b)
}

// ---------------------------------------------------------------------------
// Trimming
// ---------------------------------------------------------------------------
pub open spec fn trim_start(s: Seq<char>) -> Seq<char>
    decreases s.len(),
{
    if s.len() > 0 && is_ws(s[0]) {
        trim_start(s.drop_first())
    } else {
        s
    }
}

pub open spec fn trim_end(s: Seq<char>) -> Seq<char>
    decreases s.len(),
{
    if s.len() > 0 && is_ws(s.last()) {
        trim_end(s.drop_last())
    } else {
        s
    }
}

/// White space removed at both ends, as `str::trim` does.
pub open spec fn trim(s: Seq<char>) -> Seq<char> {
    trim_end(trim_start(s))
}

/// The characters of `cs` removed from the start of `s`.
pub open spec fn trim_start_set(s: Seq<char>, cs: Seq<char>) -> Seq<char>
    decreases s.len(),
{
    if s.len() > 0 && cs.contains(s[0]) {
        trim_start_set(s.drop_first(), cs)
    } else {
        s
    }
}

/// The characters of `cs` removed from the end of `s`.
pub open spec fn trim_end_set(s: Seq<char>, cs: Seq<char>) -> Seq<char>
    decreases s.len(),
{
    if s.len() > 0 && cs.contains(s.last()) {
        trim_end_set(s.drop_last(), cs)
    } else {
        s
    }
}

/// The characters of `cs` removed from both ends, as `str::trim_matches` does.
pub open spec fn trim_set(s: Seq<char>, cs: Seq<char>) -> Seq<char> {
    trim_end_set(trim_start_set(s, cs), cs)
}

// ---------------------------------------------------------------------------
// Conversions at the boundary
// ---------------------------------------------------------------------------
/// The characters of a string slice.
pub fn chars_of(s: &str) -> (r: Vec<char>)
    ensures
        r@ == s@,
{
    let mut out: Vec<char> = Vec::new();
    for c in it: s.chars()
        invariant
            out@ == it.seq().subrange(0, it.index() as int),
    {
        out.push(c);
    }
    out
}

/// A string holding the characters of a literal.
pub fn string_of(s: &str) -> (r: String)
    ensures
        r@ == s@,
{
    let v = chars_of(s);
    string_from(v.as_slice())
}

// ---------------------------------------------------------------------------
// Case folding
// ---------------------------------------------------------------------------
pub fn lower_chars(s: &[char]) -> (r: Vec<char>)
    ensures
        r@ == lower(s@),
{
    let mut out: Vec<char> = Vec::new();
    let mut i: usize = 0;
    while i < s.len()
        invariant
            i <= s.len(),
            out@ =~= lower(s@.subrange(0, i as int)),
        decreases s.len() - i,
    {
        let l = char_lower(s[i]);
        out.push(l);
        assert(lower(s@.subrange(0, i + 1)) =~= lower(s@.subrange(0, i as int)).push(l));
        i = i + 1;
    }
    assert(s@.subrange(0, s@.len() as int) =~= s@);
    out
}

pub fn upper_chars(s: &[char]) -> (r: Vec<char>)
    ensures
        r@ == upper(s@),
{
    let mut out: Vec<char> = Vec::new();
    let mut i: usize = 0;
    while i < s.len()
        invariant
            i <= s.len(),
            out@ =~= upper(s@.subrange(0, i as int)),
        decreases s.len() - i,
    {
        let l = char_upper(s[i]);
        out.push(l);
        assert(upper(s@.subrange(0, i + 1)) =~= upper(s@.subrange(0, i as int)).push(l));
        i = i + 1;
    }
    assert(s@.subrange(0, s@.len() as int) =~= s@);
    out
}

/// The ASCII lower-case characters of a string slice.
pub fn lower_of(s: &str) -> (r: Vec<char>)
    ensures
        r@ == lower(s@),
{
    let v = chars_of(s);
    lower_chars(v.as_slice())
}

// ---------------------------------------------------------------------------
// Comparison and search
// ---------------------------------------------------------------------------
pub fn seq_eq(a: &[char], b: &[char]) -> (r: bool)
    ensures
        r == (a@ == b@),
{
    if a.len() != b.len() {
        return false;
    }
    let mut i: usize = 0;
    while i < a.len()
        invariant
            a.len() == b.len(),
            i <= a.len(),
            forall|k: int| 0 <= k < i ==> a@[k] == b@[k],
        decreases a.len() - i,
    {
        if a[i] != b[i] {
            return false;
        }
        i = i + 1;
    }
    assert(a@ =~= b@);
    true
}

pub fn eq_str(a: &[char], b: &str) -> (r: bool)
    ensures
        r == (a@ == b@),
{
    let bv = chars_of(b);
    seq_eq(a, bv.as_slice())
}

pub fn eq_ignore_case_chars(a: &[char], b: &[char]) -> (r: bool)
    ensures
        r == eq_ignore_case(a@, b@),
{
    let la = lower_chars(a);
    let lb = lower_chars(b);
    seq_eq(la.as_slice(), lb.as_slice())
}

pub fn match_at_exec(h: &[char], n: &[char], i: usize) -> (r: bool)
    ensures
        r == match_at(h@, n@, i as int),
{
    if n.len() > h.len() || i > h.len() - n.len() {
        return false;
    }
    let mut k: usize = 0;
    while k < n.len()
        invariant
            i + n.len() <= h.len(),
            k <= n.len(),
            forall|j: int| 0 <= j < k ==> h@[i + j] == n@[j],
        decreases n.len() - k,
    {
        if h[i + k] != n[k] {
            assert(h@.subrange(i as int, i + n.len())[k as int] != n@[k as int]);
            return false;
        }
        k = k + 1;
    }
    assert(h@.subrange(i as int, i + n.len()) =~= n@);
    true
}

proof fn lemma_find_from_none(h: Seq<char>, n: Seq<char>, i: int)
    requires
        0 <= i,
        i + n.len() > h.len(),
    ensures
        find_from(h, n, i) is None,
{
}

/// The first index at or after `start` where `n` occurs in `h`.
pub fn find_from_chars(h: &[char], n: &[char], start: usize) -> (r: Option<usize>)
    ensures
        match r {
            Some(i) => find_from(h@, n@, start as int) == Some(i as int) && match_at(
                h@,
                n@,
                i as int,
            ),
            None => find_from(h@, n@, start as int) is None,
        },
{
    if n.len() > h.len() {
        return None;
    }
    let last = h.len() - n.len();
    let mut i: usize = start;
    while i <= last
        invariant
            last == h.len() - n.len(),
            start <= i,
            find_from(h@, n@, start as int) == find_from(h@, n@, i as int),
        decreases last + 1 - i,
    {
        if match_at_exec(h, n, i) {
            return Some(i);
        }
        i = i + 1;
    }
    None
}

pub fn find_chars(h: &[char], n: &[char]) -> (r: Option<usize>)
    ensures
        match r {
            Some(i) => find(h@, n@) == Some(i as int) && match_at(h@, n@, i as int),
            None => find(h@, n@) is None,
        },
{
    find_from_chars(h, n, 0)
}

pub fn find_str(h: &[char], n: &str) -> (r: Option<usize>)
    ensures
        match r {
            Some(i) => find(h@, n@) == Some(i as int) && match_at(h@, n@, i as int),
            None => find(h@, n@) is None,
        },
{
    let nv = chars_of(n);
    find_chars(h, nv.as_slice())
}

pub fn contains_chars(h: &[char], n: &[char]) -> (r: bool)
    ensures
        r == contains(h@, n@),
{
    find_chars(h, n).is_some()
}

pub fn contains_str(h: &[char], n: &str) -> (r: bool)
    ensures
        r == contains(h@, n@),
{
    let nv = chars_of(n);
    contains_chars(h, nv.as_slice())
}

pub fn contains_char_exec(h: &[char], c: char) -> (r: bool)
    ensures
        r == contains_char(h@, c),
{
    let mut i: usize = 0;
    while i < h.len()
        invariant
            i <= h.len(),
            forall|k: int| 0 <= k < i ==> h@[k] != c,
        decreases h.len() - i,
    {
        if h[i] == c {
            assert(h@[i as int] == c);
            return true;
        }
        i = i + 1;
    }
    false
}

pub fn starts_with_chars(h: &[char], n: &[char]) -> (r: bool)
    ensures
        r == starts_with(h@, n@),
{
    if n.len() > h.len() {
        return false;
    }
    match_at_exec(h, n, 0)
}

pub fn starts_with_str(h: &[char], n: &str) -> (r: bool)
    ensures
        r == starts_with(h@, n@),
{
    let nv = chars_of(n);
    starts_with_chars(h, nv.as_slice())
}

pub fn ends_with_chars(h: &[char], n: &[char]) -> (r: bool)
    ensures
        r == ends_with(h@, n@),
{
    if n.len() > h.len() {
        return false;
    }
    match_at_exec(h, n, h.len() - n.len())
}

pub fn ends_with_str(h: &[char], n: &str) -> (r: bool)
    ensures
        r == ends_with(h@, n@),
{
    let nv = chars_of(n);
    ends_with_chars(h, nv.as_slice())
}

pub fn contains_any_str(h: &[char], ns: &[&str]) -> (r: bool)
    ensures
        r == contains_any(h@, views(ns@)),
{
    let mut i: usize = 0;
    while i < ns.len()
        invariant
            i <= ns.len(),
            forall|k: int| 0 <= k < i ==> !contains(h@, #[trigger] views(ns@)[k]),
        decreases ns.len() - i,
    {
        if contains_str(h, ns[i]) {
            assert(contains(h@, views(ns@)[i as int]));
            return true;
        }
        i = i + 1;
    }
    false
}

pub fn ends_with_any_str(h: &[char], ns: &[&str]) -> (r: bool)
    ensures
        r == ends_with_any(h@, views(ns@)),
{
    let mut i: usize = 0;
    while i < ns.len()
        invariant
            i <= ns.len(),
            forall|k: int| 0 <= k < i ==> !ends_with(h@, #[trigger] views(ns@)[k]),
        decreases ns.len() - i,
    {
        if ends_with_str(h, ns[i]) {
            assert(ends_with(h@, views(ns@)[i as int]));
            return true;
        }
        i = i + 1;
    }
    false
}

pub fn starts_with_any_str(h: &[char], ns: &[&str]) -> (r: bool)
    ensures
        r == starts_with_any(h@, views(ns@)),
{
    let mut i: usize = 0;
    while i < ns.len()
        invariant
            i <= ns.len(),
            forall|k: int| 0 <= k < i ==> !starts_with(h@, #[trigger] views(ns@)[k]),
        decreases ns.len() - i,
    {
        if starts_with_str(h, ns[i]) {
            assert(starts_with(h@, views(ns@)[i as int]));
            return true;
        }
        i = i + 1;
    }
    false
}

pub fn equals_any_str(h: &[char], ns: &[&str]) -> (r: bool)
    ensures
        r == equals_any(h@, views(ns@)),
{
    let mut i: usize = 0;
    while i < ns.len()
        invariant
            i <= ns.len(),
            forall|k: int| 0 <= k < i ==> h@ != #[trigger] views(ns@)[k],
        decreases ns.len() - i,
    {
        if eq_str(h, ns[i]) {
            assert(views(ns@)[i as int] == h@);
            return true;
        }
        i = i + 1;
    }
    false
}

// ---------------------------------------------------------------------------
// Trimming
// ---------------------------------------------------------------------------
pub fn slice_to_vec(s: &[char], a: usize, b: usize) -> (r: Vec<char>)
    requires
        a <= b <= s.len(),
    ensures
        r@ == s@.subrange(a as int, b as int),
{
    let mut out: Vec<char> = Vec::new();
    let mut i: usize = a;
    while i < b
        invariant
            a <= i <= b <= s.len(),
            out@ =~= s@.subrange(a as int, i as int),
        decreases b - i,
    {
        out.push(s[i]);
        i = i + 1;
    }
    out
}

/// Index of the first character that is not white space.
pub fn trim_start_index(s: &[char]) -> (i: usize)
    ensures
        i <= s.len(),
        trim_start(s@) == s@.subrange(i as int, s@.len() as int),
{
    let mut i: usize = 0;
    assert(s@.subrange(0, s@.len() as int) =~= s@);
    while i < s.len() && char_is_ws(s[i])
        invariant
            i <= s.len(),
            trim_start(s@) == trim_start(s@.subrange(i as int, s@.len() as int)),
        decreases s.len() - i,
    {
        assert(s@.subrange(i as int, s@.len() as int).drop_first() =~= s@.subrange(
            i + 1,
            s@.len() as int,
        ));
        i = i + 1;
    }
    i
}

/// Index just past the last character of `s[..end]` that is not white space.
pub fn trim_end_index(s: &[char], start: usize) -> (j: usize)
    requires
        start <= s.len(),
    ensures
        start <= j <= s.len(),
        trim_end(s@.subrange(start as int, s@.len() as int)) == s@.subrange(
            start as int,
            j as int,
        ),
{
    let mut j: usize = s.len();
    while j > start && char_is_ws(s[j - 1])
        invariant
            start <= j <= s.len(),
            trim_end(s@.subrange(start as int, s@.len() as int)) == trim_end(
                s@.subrange(start as int, j as int),
            ),
        decreases j,
    {
        assert(s@.subrange(start as int, j as int).drop_last() =~= s@.subrange(
            start as int,
            j - 1,
        ));
        j = j - 1;
    }
    j
}

pub fn trim_chars(s: &[char]) -> (r: Vec<char>)
    ensures
        r@ == trim(s@),
{
    let i = trim_start_index(s);
    let j = trim_end_index(s, i);
    slice_to_vec(s, i, j)
}

pub fn trim_str(s: &str) -> (r: Vec<char>)
    ensures
        r@ == trim(s@),
{
    let v = chars_of(s);
    trim_chars(v.as_slice())
}

pub fn trim_start_set_chars(s: &[char], cs: &[char]) -> (r: Vec<char>)
    ensures
        r@ == trim_start_set(s@, cs@),
{
    let mut i: usize = 0;
    assert(s@.subrange(0, s@.len() as int) =~= s@);
    while i < s.len() && contains_char_exec(cs, s[i])
        invariant
            i <= s.len(),
            trim_start_set(s@, cs@) == trim_start_set(s@.subrange(i as int, s@.len() as int), cs@),
        decreases s.len() - i,
    {
        assert(s@.subrange(i as int, s@.len() as int).drop_first() =~= s@.subrange(
            i + 1,
            s@.len() as int,
        ));
        i = i + 1;
    }
    slice_to_vec(s, i, s.len())
}

pub fn trim_end_set_chars(s: &[char], cs: &[char]) -> (r: Vec<char>)
    ensures
        r@ == trim_end_set(s@, cs@),
{
    let mut j: usize = s.len();
    assert(s@.subrange(0, s@.len() as int) =~= s@);
    while j > 0 && contains_char_exec(cs, s[j - 1])
        invariant
            j <= s.len(),
            trim_end_set(s@, cs@) == trim_end_set(s@.subrange(0, j as int), cs@),
        decreases j,
    {
        assert(s@.subrange(0, j as int).drop_last() =~= s@.subrange(0, j - 1));
        j = j - 1;
    }
    slice_to_vec(s, 0, j)
}

pub fn trim_set_chars(s: &[char], cs: &[char]) -> (r: Vec<char>)
    ensures
        r@ == trim_set(s@, cs@),
{
    let mut i: usize = 0;
    assert(s@.subrange(0, s@.len() as int) =~= s@);
    while i < s.len() && contains_char_exec(cs, s[i])
        invariant
            i <= s.len(),
            trim_start_set(s@, cs@) == trim_start_set(s@.subrange(i as int, s@.len() as int), cs@),
        decreases s.len() - i,
    {
        assert(s@.subrange(i as int, s@.len() as int).drop_first() =~= s@.subrange(
            i + 1,
            s@.len() as int,
        ));
        i = i + 1;
    }
    let mut j: usize = s.len();
    while j > i && contains_char_exec(cs, s[j - 1])
        invariant
            i <= j <= s.len(),
            trim_end_set(s@.subrange(i as int, s@.len() as int), cs@) == trim_end_set(
                s@.subrange(i as int, j as int),
                cs@,
            ),
        decreases j,
    {
        assert(s@.subrange(i as int, j as int).drop_last() =~= s@.subrange(i as int, j - 1));
        j = j - 1;
    }
    slice_to_vec(s, i, j)
}

// ---------------------------------------------------------------------------
// Splitting
// ---------------------------------------------------------------------------
/// The first index at or after `i` that holds no white space.
pub open spec fn skip_ws(s: Seq<char>, i: int) -> int
    decreases s.len() - i,
{
    if 0 <= i < s.len() && is_ws(s[i]) {
        skip_ws(s, i + 1)
    } else {
        i
    }
}

/// The first index at or after `i` that holds white space, or the end.
pub open spec fn word_end(s: Seq<char>, i: int) -> int
    decreases s.len() - i,
{
    if 0 <= i < s.len() && !is_ws(s[i]) {
        word_end(s, i + 1)
    } else {
        i
    }
}

/// The white-space separated words of `s[i..]`, as `split_whitespace` yields them.
pub open spec fn words_from(s: Seq<char>, i: int) -> Seq<Seq<char>>
    decreases s.len() - i,
{
    let a = skip_ws(s, i);
    if i < 0 || a < i || a >= s.len() {
        Seq::empty()
    } else {
        let b = word_end(s, a);
        if b <= a || b > s.len() {
            Seq::empty()
        } else {
            seq![s.subrange(a, b)] + words_from(s, b)
        }
    }
}

pub open spec fn words(s: Seq<char>) -> Seq<Seq<char>> {
    words_from(s, 0)
}

/// `c` separates fields: white space when `ws` holds, or a member of `cs`.
pub open spec fn is_sep(c: char, ws: bool, cs: Seq<char>) -> bool {
    (ws && is_ws(c)) || cs.contains(c)
}

/// The first separator index at or after `i`, or the end.
pub open spec fn field_end(s: Seq<char>, ws: bool, cs: Seq<char>, i: int) -> int
    decreases s.len() - i,
{
    if 0 <= i < s.len() && !is_sep(s[i], ws, cs) {
        field_end(s, ws, cs, i + 1)
    } else {
        i
    }
}

/// The fields of `s[i..]` between separators, empty ones included, as `str::split` yields them.
pub open spec fn fields_from(s: Seq<char>, ws: bool, cs: Seq<char>, i: int) -> Seq<Seq<char>>
    decreases s.len() - i,
{
    if i < 0 || i > s.len() {
        Seq::empty()
    } else {
        let j = field_end(s, ws, cs, i);
        if j < i || j >= s.len() {
            seq![s.subrange(i, s.len() as int)]
        } else {
            seq![s.subrange(i, j)] + fields_from(s, ws, cs, j + 1)
        }
    }
}

pub open spec fn fields(s: Seq<char>, ws: bool, cs: Seq<char>) -> Seq<Seq<char>> {
    fields_from(s, ws, cs, 0)
}

pub fn char_is_sep(c: char, ws: bool, cs: &[char]) -> (r: bool)
    ensures
        r == is_sep(c, ws, cs@),
{
    (ws && char_is_ws(c)) || contains_char_exec(cs, c)
}

pub fn skip_ws_exec(s: &[char], i: usize) -> (a: usize)
    requires
        i <= s.len(),
    ensures
        i <= a <= s.len(),
        a == skip_ws(s@, i as int),
        a < s.len() ==> !is_ws(s@[a as int]),
{
    let mut a = i;
    while a < s.len() && char_is_ws(s[a])
        invariant
            i <= a <= s.len(),
            skip_ws(s@, i as int) == skip_ws(s@, a as int),
        decreases s.len() - a,
    {
        a = a + 1;
    }
    a
}

pub fn word_end_exec(s: &[char], i: usize) -> (b: usize)
    requires
        i <= s.len(),
    ensures
        i <= b <= s.len(),
        b == word_end(s@, i as int),
        i < s.len() && !is_ws(s@[i as int]) ==> b > i,
{
    let mut b = i;
    while b < s.len() && !char_is_ws(s[b])
        invariant
            i <= b <= s.len(),
            word_end(s@, i as int) == word_end(s@, b as int),
            b > i ==> !is_ws(s@[i as int]),
        decreases s.len() - b,
    {
        b = b + 1;
    }
    b
}

pub fn field_end_exec(s: &[char], ws: bool, cs: &[char], i: usize) -> (j: usize)
    requires
        i <= s.len(),
    ensures
        i <= j <= s.len(),
        j == field_end(s@, ws, cs@, i as int),
{
    let mut j = i;
    while j < s.len() && !char_is_sep(s[j], ws, cs)
        invariant
            i <= j <= s.len(),
            field_end(s@, ws, cs@, i as int) == field_end(s@, ws, cs@, j as int),
        decreases s.len() - j,
    {
        j = j + 1;
    }
    j
}

/// The views of a list of character vectors.
pub open spec fn vviews(v: Seq<Vec<char>>) -> Seq<Seq<char>> {
    v.map_values(|w: Vec<char>| w@)
}

/// The white-space separated words of a text.
pub fn words_of(s: &[char]) -> (r: Vec<Vec<char>>)
    ensures
        vviews(r@) == words(s@),
{
    let mut out: Vec<Vec<char>> = Vec::new();
    let mut i: usize = 0;
    while i < s.len()
        invariant
            i <= s.len(),
            words(s@) == vviews(out@) + words_from(s@, i as int),
        decreases s.len() - i,
    {
        let a = skip_ws_exec(s, i);
        if a >= s.len() {
            assert(words_from(s@, i as int) =~= Seq::<Seq<char>>::empty());
            assert(vviews(out@) + words_from(s@, i as int) =~= vviews(out@));
            return out;
        }
        let b = word_end_exec(s, a);
        let w = slice_to_vec(s, a, b);
        let ghost prev = vviews(out@);
        out.push(w);
        assert(vviews(out@) =~= prev.push(s@.subrange(a as int, b as int)));
        assert(words_from(s@, i as int) == seq![s@.subrange(a as int, b as int)] + words_from(
            s@,
            b as int,
        ));
        assert(prev + words_from(s@, i as int) =~= prev.push(s@.subrange(a as int, b as int))
            + words_from(s@, b as int));
        i = b;
    }
    assert(words_from(s@, i as int) =~= Seq::<Seq<char>>::empty());
    assert(vviews(out@) + words_from(s@, i as int) =~= vviews(out@));
    out
}

/// The fields of a text between separators, empty ones included.
pub fn fields_of(s: &[char], ws: bool, cs: &[char]) -> (r: Vec<Vec<char>>)
    ensures
        vviews(r@) == fields(s@, ws, cs@),
        r@.len() >= 1,
{
    let mut out: Vec<Vec<char>> = Vec::new();
    let mut i: usize = 0;
    loop
        invariant
            i <= s.len(),
            fields(s@, ws, cs@) == vviews(out@) + fields_from(s@, ws, cs@, i as int),
        decreases s.len() - i,
    {
        let j = field_end_exec(s, ws, cs, i);
        let w = slice_to_vec(s, i, j);
        let ghost prev = vviews(out@);
        out.push(w);
        assert(vviews(out@) =~= prev.push(s@.subrange(i as int, j as int)));
        if j >= s.len() {
            assert(fields_from(s@, ws, cs@, i as int) == seq![s@.subrange(i as int, j as int)]);
            assert(prev + fields_from(s@, ws, cs@, i as int) =~= vviews(out@));
            return out;
        }
        assert(fields_from(s@, ws, cs@, i as int) == seq![s@.subrange(i as int, j as int)]
            + fields_from(s@, ws, cs@, j + 1));
        assert(prev + fields_from(s@, ws, cs@, i as int) =~= prev.push(
            s@.subrange(i as int, j as int),
        ) + fields_from(s@, ws, cs@, j + 1));
        i = j + 1;
    }
}

// ---------------------------------------------------------------------------
// Searching from the end
// ---------------------------------------------------------------------------
/// The last index before `i` that holds a member of `cs`, or -1.
pub open spec fn rfind_sep(s: Seq<char>, cs: Seq<char>, i: int) -> int
    decreases i,
{
    if i <= 0 || i > s.len() {
        -1
    } else if cs.contains(s[i - 1]) {
        i - 1
    } else {
        rfind_sep(s, cs, i - 1)
    }
}

/// What follows the last member of `cs` in `s`, or all of `s`: the first item
/// that `str::rsplit` yields.
pub open spec fn last_segment(s: Seq<char>, cs: Seq<char>) -> Seq<char> {
    s.subrange(rfind_sep(s, cs, s.len() as int) + 1, s.len() as int)
}

/// What precedes the first member of `cs` in `s`, or all of `s`: the first item
/// that `str::split` yields.
pub open spec fn first_segment(s: Seq<char>, cs: Seq<char>) -> Seq<char> {
    s.subrange(0, field_end(s, false, cs, 0))
}

pub proof fn lemma_rfind_sep_range(s: Seq<char>, cs: Seq<char>, i: int)
    requires
        0 <= i <= s.len(),
    ensures
        -1 <= rfind_sep(s, cs, i) < i,
        rfind_sep(s, cs, i) >= 0 ==> cs.contains(s[rfind_sep(s, cs, i)]),
    decreases i,
{
    if i > 0 && !cs.contains(s[i - 1]) {
        lemma_rfind_sep_range(s, cs, i - 1);
    }
}

pub proof fn lemma_field_end_range(s: Seq<char>, ws: bool, cs: Seq<char>, i: int)
    requires
        0 <= i <= s.len(),
    ensures
        i <= field_end(s, ws, cs, i) <= s.len(),
    decreases s.len() - i,
{
    if 0 <= i < s.len() && !is_sep(s[i], ws, cs) {
        lemma_field_end_range(s, ws, cs, i + 1);
    }
}

pub fn rfind_sep_exec(s: &[char], cs: &[char], i: usize) -> (r: Option<usize>)
    requires
        i <= s.len(),
    ensures
        match r {
            Some(k) => k < i && k as int == rfind_sep(s@, cs@, i as int),
            None => rfind_sep(s@, cs@, i as int) == -1,
        },
{
    let mut j = i;
    while j > 0
        invariant
            j <= i <= s.len(),
            rfind_sep(s@, cs@, i as int) == rfind_sep(s@, cs@, j as int),
        decreases j,
    {
        if contains_char_exec(cs, s[j - 1]) {
            return Some(j - 1);
        }
        j = j - 1;
    }
    None
}

pub fn last_segment_of(s: &[char], cs: &[char]) -> (r: Vec<char>)
    ensures
        r@ == last_segment(s@, cs@),
{
    let start = match rfind_sep_exec(s, cs, s.len()) {
        Some(k) => k + 1,
        None => 0,
    };
    slice_to_vec(s, start, s.len())
}

pub fn first_segment_of(s: &[char], cs: &[char]) -> (r: Vec<char>)
    ensures
        r@ == first_segment(s@, cs@),
{
    let j = field_end_exec(s, false, cs, 0);
    slice_to_vec(s, 0, j)
}

// ---------------------------------------------------------------------------
// Joining
// ---------------------------------------------------------------------------
pub fn concat_chars(a: &[char], b: &[char]) -> (r: Vec<char>)
    ensures
        r@ == a@ + b@,
{
    let mut out: Vec<char> = Vec::new();
    let mut i: usize = 0;
    while i < a.len()
        invariant
            i <= a.len(),
            out@ == a@.subrange(0, i as int),
        decreases a.len() - i,
    {
        out.push(a[i]);
        i = i + 1;
    }
    let mut j: usize = 0;
    while j < b.len()
        invariant
            j <= b.len(),
            out@ == a@ + b@.subrange(0, j as int),
        decreases b.len() - j,
    {
        out.push(b[j]);
        j = j + 1;
    }
    assert(a@.subrange(0, a@.len() as int) =~= a@);
    assert(b@.subrange(0, b@.len() as int) =~= b@);
    out
}

/// Two texts, one after the other.
pub fn concat_str(a: &str, b: &str) -> (r: String)
    ensures
        r@ == a@ + b@,
{
    let av = chars_of(a);
    let bv = chars_of(b);
    let v = concat_chars(av.as_slice(), bv.as_slice());
    string_from(v.as_slice())
}

/// A text of at least two bytes in UTF-8: two characters or more, or one
/// outside ASCII.
pub open spec fn utf8_len_at_least_two(s: Seq<char>) -> bool {
    s.len() >= 2 || (s.len() == 1 && s[0] as u32 >= 0x80)
}

// ---------------------------------------------------------------------------
// Decimal integers
// ---------------------------------------------------------------------------
/// The value of a run of decimal digits.
pub open spec fn decimal_value(s: Seq<char>) -> int
    decreases s.len(),
{
    if s.len() == 0 {
        0
    } else {
        decimal_value(s.drop_last()) * 10 + (s.last() as int - 48)
    }
}

pub open spec fn all_digits(s: Seq<char>) -> bool {
    forall|k: int| 0 <= k < s.len() ==> is_ascii_digit(#[trigger] s[k])
}

/// What `str::parse::<i64>` gives: an optional sign, then one or more decimal
/// digits, whose value fits in an `i64`.
pub open spec fn parse_int(s: Seq<char>) -> Option<int> {
    let signed = s.len() > 0 && (s[0] == '+' || s[0] == '-');
    let d = if signed {
        s.drop_first()
    } else {
        s
    };
    let v = if signed && s[0] == '-' {
        -decimal_value(d)
    } else {
        decimal_value(d)
    };
    if d.len() == 0 || !all_digits(d) || v < i64::MIN || v > i64::MAX {
        None
    } else {
        Some(v)
    }
}

pub proof fn lemma_decimal_value_nonneg(s: Seq<char>)
    requires
        all_digits(s),
    ensures
        decimal_value(s) >= 0,
    decreases s.len(),
{
    if s.len() > 0 {
        assert(is_ascii_digit(s[s.len() - 1]));
        assert(all_digits(s.drop_last()));
        lemma_decimal_value_nonneg(s.drop_last());
    }
}

/// A decimal integer, as `str::parse::<i64>` reads it.
pub fn parse_i64(s: &[char]) -> (r: Option<i64>)
    ensures
        match r {
            Some(v) => parse_int(s@) == Some(v as int),
            None => parse_int(s@) is None,
        },
{
    let n = s.len();
    if n == 0 {
        return None;
    }
    let mut start: usize = 0;
    let mut neg = false;
    if s[0] == '+' {
        start = 1;
    } else if s[0] == '-' {
        start = 1;
        neg = true;
    }
    let ghost d = if start == 1 {
        s@.drop_first()
    } else {
        s@
    };
    assert(d =~= s@.subrange(start as int, n as int));
    if start == n {
        assert(s@.drop_first().len() == 0);
        return None;
    }
    let limit: u128 = 0x8000_0000_0000_0000;
    let mut acc: u128 = 0;
    let mut over = false;
    let mut i: usize = start;
    while i < n
        invariant
            start <= i <= n,
            n == s@.len(),
            n > 0,
            start == 0 || start == 1,
            start == 1 <==> (s@[0] == '+' || s@[0] == '-'),
            neg <==> (start == 1 && s@[0] == '-'),
            all_digits(s@.subrange(start as int, i as int)),
            !over ==> acc == decimal_value(s@.subrange(start as int, i as int)),
            !over ==> acc <= limit,
            over ==> decimal_value(s@.subrange(start as int, i as int)) > limit,
            limit == 0x8000_0000_0000_0000u128,
        decreases n - i,
    {
        let c = s[i];
        if !char_is_ascii_digit(c) {
            assert(!all_digits(s@.subrange(start as int, n as int))) by {
                assert(s@.subrange(start as int, n as int)[i - start] == c);
            }
            return None;
        }
        let ghost prev = s@.subrange(start as int, i as int);
        let ghost next = s@.subrange(start as int, i + 1);
        assert(next.drop_last() =~= prev);
        assert(next.last() == c);
        assert(all_digits(next)) by {
            assert forall|k: int| 0 <= k < next.len() implies is_ascii_digit(#[trigger] next[k]) by {
                if k < prev.len() {
                    assert(next[k] == prev[k]);
                }
            }
        }
        proof {
            lemma_decimal_value_nonneg(prev);
        }
        if !over {
            let dv = (c as u32 - 48) as u128;
            acc = acc * 10 + dv;
            if acc > limit {
                over = true;
            }
        }
        i = i + 1;
    }
    if over {
        return None;
    }
    if neg {
        if acc == limit {
            Some(i64::MIN)
        } else {
            let m = acc as i64;
            Some(-m)
        }
    } else if acc < limit {
        Some(acc as i64)
    } else {
        None
    }
}

// ---------------------------------------------------------------------------
// First match in a list of parts
// ---------------------------------------------------------------------------
/// The first `f(p)` that is some, over the parts in order.
pub open spec fn first_some(
    parts: Seq<Seq<char>>,
    f: spec_fn(Seq<char>) -> Option<Seq<char>>,
) -> Option<Seq<char>>
    decreases parts.len(),
{
    if parts.len() == 0 {
        None
    } else {
        match f(parts[0]) {
            Some(v) => Some(v),
            None => first_some(parts.drop_first(), f),
        }
    }
}

pub proof fn lemma_first_some_step(
    parts: Seq<Seq<char>>,
    f: spec_fn(Seq<char>) -> Option<Seq<char>>,
    i: int,
)
    requires
        0 <= i < parts.len(),
    ensures
        first_some(parts.subrange(i, parts.len() as int), f) == (match f(parts[i]) {
            Some(v) => Some(v),
            None => first_some(parts.subrange(i + 1, parts.len() as int), f),
        }),
{
    let rest = parts.subrange(i, parts.len() as int);
    assert(rest[0] == parts[i]);
    assert(rest.drop_first() =~= parts.subrange(i + 1, parts.len() as int));
}

pub proof fn lemma_first_some_ends(parts: Seq<Seq<char>>, f: spec_fn(Seq<char>) -> Option<Seq<char>>)
    ensures
        first_some(parts.subrange(0, parts.len() as int), f) == first_some(parts, f),
        first_some(parts.subrange(parts.len() as int, parts.len() as int), f) is None,
{
    assert(parts.subrange(0, parts.len() as int) =~= parts);
    assert(parts.subrange(parts.len() as int, parts.len() as int).len() == 0);
}

// ---------------------------------------------------------------------------
// Trimming what is not in a set
// ---------------------------------------------------------------------------
pub open spec fn trim_start_outside(s: Seq<char>, keep: Seq<char>) -> Seq<char>
    decreases s.len(),
{
    if s.len() > 0 && !keep.contains(s[0]) {
        trim_start_outside(s.drop_first(), keep)
    } else {
        s
    }
}

pub open spec fn trim_end_outside(s: Seq<char>, keep: Seq<char>) -> Seq<char>
    decreases s.len(),
{
    if s.len() > 0 && !keep.contains(s.last()) {
        trim_end_outside(s.drop_last(), keep)
    } else {
        s
    }
}

/// `s` without the characters outside `keep` at either end.
pub open spec fn trim_outside(s: Seq<char>, keep: Seq<char>) -> Seq<char> {
    trim_end_outside(trim_start_outside(s, keep), keep)
}

pub fn trim_outside_chars(s: &[char], keep: &[char]) -> (r: Vec<char>)
    ensures
        r@ == trim_outside(s@, keep@),
{
    let mut i: usize = 0;
    assert(s@.subrange(0, s@.len() as int) =~= s@);
    while i < s.len() && !contains_char_exec(keep, s[i])
        invariant
            i <= s.len(),
            trim_start_outside(s@, keep@) == trim_start_outside(
                s@.subrange(i as int, s@.len() as int),
                keep@,
            ),
        decreases s.len() - i,
    {
        assert(s@.subrange(i as int, s@.len() as int).drop_first() =~= s@.subrange(
            i + 1,
            s@.len() as int,
        ));
        i = i + 1;
    }
    let ghost t = s@.subrange(i as int, s@.len() as int);
    let mut j: usize = s.len();
    assert(t.subrange(0, (j - i) as int) =~= t);
    while j > i && !contains_char_exec(keep, s[j - 1])
        invariant
            i <= j <= s.len(),
            t == s@.subrange(i as int, s@.len() as int),
            trim_start_outside(s@, keep@) == t,
            trim_end_outside(t, keep@) == trim_end_outside(t.subrange(0, (j - i) as int), keep@),
        decreases j,
    {
        assert(t.subrange(0, (j - i) as int).drop_last() =~= t.subrange(0, (j - 1 - i) as int));
        j = j - 1;
    }
    assert(t.subrange(0, (j - i) as int) =~= s@.subrange(i as int, j as int));
    slice_to_vec(s, i, j)
}

// ---------------------------------------------------------------------------
// UTF-8 length
// ---------------------------------------------------------------------------
/// The number of bytes UTF-8 encodes one character in.
pub open spec fn utf8_width(c: char) -> nat {
    if (c as u32) < 0x80 {
        1
    } else if (c as u32) < 0x800 {
        2
    } else if (c as u32) < 0x10000 {
        3
    } else {
        4
    }
}

/// The length of a text in UTF-8, as `str::len` counts it.
pub open spec fn utf8_len(s: Seq<char>) -> nat
    decreases s.len(),
{
    if s.len() == 0 {
        0
    } else {
        utf8_len(s.drop_last()) + utf8_width(s.last())
    }
}

/// A text takes at most four bytes per character in UTF-8.
pub proof fn lemma_utf8_len_bound(s: Seq<char>)
    ensures
        utf8_len(s) <= 4 * s.len(),
    decreases s.len(),
{
    if s.len() > 0 {
        lemma_utf8_len_bound(s.drop_last());
    }
}

pub fn utf8_len_of(s: &[char]) -> (r: u128)
    ensures
        r == utf8_len(s@),
{
    let mut total: u128 = 0;
    let mut i: usize = 0;
    while i < s.len()
        invariant
            i <= s.len(),
            total == utf8_len(s@.subrange(0, i as int)),
            total <= 4 * i,
        decreases s.len() - i,
    {
        assert(s@.subrange(0, i + 1).drop_last() =~= s@.subrange(0, i as int));
        let v = s[i] as u32;
        let w: u128 = if v < 0x80 {
            1
        } else if v < 0x800 {
            2
        } else if v < 0x10000 {
            3
        } else {
            4
        };
        total = total + w;
        i = i + 1;
    }
    assert(s@.subrange(0, s@.len() as int) =~= s@);
    total
}

// ---------------------------------------------------------------------------
// Joining lists
// ---------------------------------------------------------------------------
/// Texts joined with a separator between them.
pub open spec fn joined(parts: Seq<Seq<char>>, sep: Seq<char>) -> Seq<char>
    decreases parts.len(),
{
    if parts.len() == 0 {
        Seq::empty()
    } else if parts.len() == 1 {
        parts[0]
    } else {
        joined(parts.drop_last(), sep) + sep + parts.last()
    }
}

pub fn push_all(out: &mut Vec<char>, s: &[char])
    ensures
        final(out)@ == old(out)@ + s@,
{
    let mut i: usize = 0;
    while i < s.len()
        invariant
            i <= s.len(),
            out@ == old(out)@ + s@.subrange(0, i as int),
        decreases s.len() - i,
    {
        out.push(s[i]);
        i = i + 1;
    }
    assert(s@.subrange(0, s@.len() as int) =~= s@);
}

} // verus!
