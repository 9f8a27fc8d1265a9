//! Named values of one event or export row: looking fields up by name,
//! process identity, account names, and the small code tables of Windows
//! security events.
//!
//! A row is a list of (name, value) pairs in the order they were read; the
//! names of a row built by `row_map` are distinct.
use vstd::prelude::*;
use crate::artifact::{file_name_chars, normalize_chars, normalized};
use crate::decode::{clean, clean_chars, opt_view, split_once, split_once_exec};
use crate::extract::{all_hex, all_hex_chars, name_or_self};
use crate::text::{
    all_digits, char_is_ascii_digit, contains_char_exec, is_ascii_digit, joined, push_all,
    chars_of, concat_chars, eq_str, fields, fields_of, find, find_chars, lower, lower_chars, seq_eq,
    slice_to_vec, starts_with, string_from, trim, trim_chars, trim_set, trim_set_chars, upper,
    upper_chars, views, vviews, lemma_first_some_ends,
};

verus! {

// ---------------------------------------------------------------------------
// Rows
// ---------------------------------------------------------------------------
/// The (name, value) texts of a row.
pub open spec fn entries(row: Seq<(String, String)>) -> Seq<(Seq<char>, Seq<char>)> {
    row.map_values(|p: (String, String)| (p.0@, p.1@))
}

/// The value of the first entry named exactly `k`.
pub open spec fn row_get(row: Seq<(Seq<char>, Seq<char>)>, k: Seq<char>) -> Option<Seq<char>>
    decreases row.len(),
{
    if row.len() == 0 {
        None
    } else if row[0].0 == k {
        Some(row[0].1)
    } else {
        row_get(row.drop_first(), k)
    }
}

/// The value of the first entry whose name normalises to `n`.
pub open spec fn row_get_normalized(row: Seq<(Seq<char>, Seq<char>)>, n: Seq<char>) -> Option<
    Seq<char>,
>
    decreases row.len(),
{
    if row.len() == 0 {
        None
    } else if normalized(row[0].0) == n {
        Some(row[0].1)
    } else {
        row_get_normalized(row.drop_first(), n)
    }
}

pub open spec fn clean_of(v: Option<Seq<char>>) -> Option<Seq<char>> {
    match v {
        Some(s) => clean(s),
        None => None,
    }
}

/// The first of `names` whose normalised form is the exact name of an entry
/// with a meaningful value, that value cleaned.
pub open spec fn cell_value(row: Seq<(Seq<char>, Seq<char>)>, names: Seq<Seq<char>>) -> Option<
    Seq<char>,
>
    decreases names.len(),
{
    if names.len() == 0 {
        None
    } else {
        match clean_of(row_get(row, normalized(names[0]))) {
            Some(v) => Some(v),
            None => cell_value(row, names.drop_first()),
        }
    }
}

/// The first of `names` that matches, after normalising both, the name of an
/// entry with a meaningful value, that value cleaned.
pub open spec fn named_value(row: Seq<(Seq<char>, Seq<char>)>, names: Seq<Seq<char>>) -> Option<
    Seq<char>,
>
    decreases names.len(),
{
    if names.len() == 0 {
        None
    } else {
        match clean_of(row_get_normalized(row, normalized(names[0]))) {
            Some(v) => Some(v),
            None => named_value(row, names.drop_first()),
        }
    }
}

fn row_find(row: &[(String, String)], key: &[char], normalize: bool) -> (r: Option<usize>)
    ensures
        match r {
            Some(i) => i < row@.len() && Some(entries(row@)[i as int].1) == (if normalize {
                row_get_normalized(entries(row@), key@)
            } else {
                row_get(entries(row@), key@)
            }),
            None => (if normalize {
                row_get_normalized(entries(row@), key@)
            } else {
                row_get(entries(row@), key@)
            }) is None,
        },
{
    let ghost es = entries(row@);
    assert(es.subrange(0, es.len() as int) =~= es);
    let mut i: usize = 0;
    while i < row.len()
        invariant
            i <= row.len(),
            es == entries(row@),
            es.len() == row@.len(),
            !normalize ==> row_get(es, key@) == row_get(es.subrange(i as int, es.len() as int), key@),
            normalize ==> row_get_normalized(es, key@) == row_get_normalized(
                es.subrange(i as int, es.len() as int),
                key@,
            ),
        decreases row.len() - i,
    {
        let ghost rest = es.subrange(i as int, es.len() as int);
        assert(rest[0] == es[i as int]);
        assert(rest.drop_first() =~= es.subrange(i + 1, es.len() as int));
        assert(es[i as int] == (row@[i as int].0@, row@[i as int].1@));
        let kv = chars_of(row[i].0.as_str());
        let hit = if normalize {
            let nk = normalize_chars(kv.as_slice());
            seq_eq(nk.as_slice(), key)
        } else {
            seq_eq(kv.as_slice(), key)
        };
        if hit {
            return Some(i);
        }
        i = i + 1;
    }
    assert(es.subrange(i as int, es.len() as int).len() == 0);
    None
}

fn lookup_names(row: &[(String, String)], names: &[&str], normalize: bool) -> (r: Option<String>)
    ensures
        opt_view(r) == (if normalize {
            named_value(entries(row@), views(names@))
        } else {
            cell_value(entries(row@), views(names@))
        }),
{
    let ghost ns = views(names@);
    let ghost es = entries(row@);
    assert(ns.subrange(0, ns.len() as int) =~= ns);
    let mut i: usize = 0;
    while i < names.len()
        invariant
            i <= names.len(),
            ns == views(names@),
            es == entries(row@),
            ns.len() == names@.len(),
            normalize ==> named_value(es, ns) == named_value(es, ns.subrange(i as int, ns.len() as int)),
            !normalize ==> cell_value(es, ns) == cell_value(es, ns.subrange(i as int, ns.len() as int)),
        decreases names.len() - i,
    {
        let ghost rest = ns.subrange(i as int, ns.len() as int);
        assert(rest[0] == names@[i as int]@);
        assert(rest.drop_first() =~= ns.subrange(i + 1, ns.len() as int));
        let nv = chars_of(names[i]);
        let key = normalize_chars(nv.as_slice());
        match row_find(row, key.as_slice(), normalize) {
            Some(j) => {
                assert(es[j as int] == (row@[j as int].0@, row@[j as int].1@));
                let vv = chars_of(row[j].1.as_str());
                match clean_chars(vv.as_slice()) {
                    Some(c) => {
                        return Some(string_from(c.as_slice()));
                    },
                    None => {},
                }
            },
            None => {},
        }
        i = i + 1;
    }
    assert(ns.subrange(i as int, ns.len() as int).len() == 0);
    None
}

/// The first of `names`, normalised, that is the exact name of an entry with
/// a meaningful value; that value, cleaned.
pub fn cell(row: &[(String, String)], names: &[&str]) -> (r: Option<String>)
    ensures
        opt_view(r) == cell_value(entries(row@), views(names@)),
{
    lookup_names(row, names, false)
}

pub fn first_flat(row: &[(String, String)], names: &[&str]) -> (r: Option<String>)
    ensures
        opt_view(r) == cell_value(entries(row@), views(names@)),
{
    cell(row, names)
}

/// The first of `names` that matches the normalised name of an entry with a
/// meaningful value; that value, cleaned.
pub fn first_named(row: &[(String, String)], names: &[&str]) -> (r: Option<String>)
    ensures
        opt_view(r) == named_value(entries(row@), views(names@)),
{
    lookup_names(row, names, true)
}

/// The rows of a table: each header with the cell in the same column, when the
/// cell holds a meaningful value; a later header replaces an earlier one of
/// the same name.
pub open spec fn row_of(headers: Seq<Seq<char>>, cells: Seq<Seq<char>>, n: int) -> Seq<
    (Seq<char>, Seq<char>),
>
    decreases n,
{
    if n <= 0 {
        Seq::empty()
    } else {
        let prev = row_of(headers, cells, n - 1);
        let h = headers[n - 1];
        let v = if n - 1 < cells.len() {
            clean(cells[n - 1])
        } else {
            None
        };
        match v {
            Some(c) => row_put(prev, h, c),
            None => prev,
        }
    }
}

/// `row` with `k` set to `v`: in place when present, else at the end.
pub open spec fn row_put(row: Seq<(Seq<char>, Seq<char>)>, k: Seq<char>, v: Seq<char>) -> Seq<
    (Seq<char>, Seq<char>),
> {
    match row_index(row, k) {
        Some(i) => row.update(i, (k, v)),
        None => row.push((k, v)),
    }
}

/// The index of the entry named `k`.
pub open spec fn row_index(row: Seq<(Seq<char>, Seq<char>)>, k: Seq<char>) -> Option<int> {
    if exists|i: int| 0 <= i < row.len() && #[trigger] row[i].0 == k {
        Some(choose|i: int| 0 <= i < row.len() && #[trigger] row[i].0 == k)
    } else {
        None
    }
}

pub open spec fn distinct_names(row: Seq<(Seq<char>, Seq<char>)>) -> bool {
    forall|i: int, j: int| 0 <= i < j < row.len() ==> #[trigger] row[i].0 != #[trigger] row[j].0
}

pub open spec fn vec_strings(v: Seq<String>) -> Seq<Seq<char>> {
    v.map_values(|s: String| s@)
}

pub proof fn lemma_row_put(row: Seq<(Seq<char>, Seq<char>)>, k: Seq<char>, v: Seq<char>)
    requires
        distinct_names(row),
    ensures
        distinct_names(row_put(row, k, v)),
{
    match row_index(row, k) {
        Some(i) => {
            let r2 = row.update(i, (k, v));
            assert forall|a: int, b: int| 0 <= a < b < r2.len() implies #[trigger] r2[a].0
                != #[trigger] r2[b].0 by {
                assert(row[a].0 != row[b].0);
            }
        },
        None => {
            let r2 = row.push((k, v));
            assert forall|a: int, b: int| 0 <= a < b < r2.len() implies #[trigger] r2[a].0
                != #[trigger] r2[b].0 by {
                if b == row.len() {
                    assert(row[a].0 != k);
                } else {
                    assert(row[a].0 != row[b].0);
                }
            }
        },
    }
}

pub(crate) fn row_index_exec(row: &Vec<(String, String)>, k: &[char]) -> (r: Option<usize>)
    requires
        distinct_names(entries(row@)),
    ensures
        match r {
            Some(i) => i < row@.len() && row_index(entries(row@), k@) == Some(i as int),
            None => row_index(entries(row@), k@) is None,
        },
{
    let ghost es = entries(row@);
    let mut i: usize = 0;
    while i < row.len()
        invariant
            i <= row.len(),
            es == entries(row@),
            es.len() == row@.len(),
            distinct_names(es),
            forall|j: int| 0 <= j < i ==> #[trigger] es[j].0 != k@,
        decreases row.len() - i,
    {
        assert(es[i as int] == (row@[i as int].0@, row@[i as int].1@));
        let kv = chars_of(row[i].0.as_str());
        if seq_eq(kv.as_slice(), k) {
            assert(es[i as int].0 == k@);
            let ghost c = choose|j: int| 0 <= j < es.len() && #[trigger] es[j].0 == k@;
            assert(es[c].0 == k@);
            assert(c == i) by {
                if c != i {
                    if c < i {
                        assert(es[c].0 != es[i as int].0);
                    } else {
                        assert(es[i as int].0 != es[c].0);
                    }
                }
            }
            return Some(i);
        }
        i = i + 1;
    }
    None
}

/// A row from a header line and a line of cells: each header with the cell in
/// its column, when that cell holds a meaningful value.
pub fn row_map(headers: &[String], cells: &[String]) -> (r: Vec<(String, String)>)
    ensures
        entries(r@) == row_of(vec_strings(headers@), vec_strings(cells@), headers@.len() as int),
        distinct_names(entries(r@)),
{
    let ghost hs = vec_strings(headers@);
    let ghost cs = vec_strings(cells@);
    let mut out: Vec<(String, String)> = Vec::new();
    assert(entries(out@) =~= Seq::<(Seq<char>, Seq<char>)>::empty());
    let mut i: usize = 0;
    while i < headers.len()
        invariant
            i <= headers.len(),
            hs == vec_strings(headers@),
            cs == vec_strings(cells@),
            entries(out@) == row_of(hs, cs, i as int),
            distinct_names(entries(out@)),
        decreases headers.len() - i,
    {
        let ghost prev = entries(out@);
        let value = if i < cells.len() {
            let cv = chars_of(cells[i].as_str());
            clean_chars(cv.as_slice())
        } else {
            None
        };
        match value {
            Some(c) => {
                let hv = chars_of(headers[i].as_str());
                proof {
                    lemma_row_put(prev, hs[i as int], c@);
                }
                match row_index_exec(&out, hv.as_slice()) {
                    Some(j) => {
                        out.set(j, (headers[i].clone(), string_from(c.as_slice())));
                        assert(entries(out@) =~= prev.update(j as int, (hs[i as int], c@)));
                    },
                    None => {
                        out.push((headers[i].clone(), string_from(c.as_slice())));
                        assert(entries(out@) =~= prev.push((hs[i as int], c@)));
                    },
                }
            },
            None => {},
        }
        i = i + 1;
    }
    out
}

// ---------------------------------------------------------------------------
// Values embedded in text
// ---------------------------------------------------------------------------
/// A segment of embedded fields, with white space and quotes removed.
pub open spec fn segment_text(s: Seq<char>) -> Seq<char> {
    trim(trim_set(trim_set(trim(s), seq!['"']), seq!['\'']))
}

/// A segment split at its first `:`, or else its first `=`.
pub open spec fn key_value(s: Seq<char>) -> Option<(Seq<char>, Seq<char>)> {
    match split_once(s, ':') {
        Some(kv) => Some(kv),
        None => split_once(s, '='),
    }
}

/// The value of the first segment whose key normalises to `wanted`.
pub open spec fn labeled_from(segs: Seq<Seq<char>>, wanted: Seq<char>) -> Option<Seq<char>>
    decreases segs.len(),
{
    if segs.len() == 0 {
        None
    } else {
        match key_value(segment_text(segs[0])) {
            Some((k, v)) => if normalized(k) == wanted {
                clean(trim_set(trim(v), seq!['"']))
            } else {
                labeled_from(segs.drop_first(), wanted)
            },
            None => labeled_from(segs.drop_first(), wanted),
        }
    }
}

/// The value labelled `name` among the `key: value` or `key=value` segments of
/// a text, separated by `¦` or line breaks.
pub open spec fn labeled_value(text: Seq<char>, name: Seq<char>) -> Option<Seq<char>> {
    labeled_from(fields(text, false, seq!['¦', '\n', '\r']), normalized(name))
}

pub fn labeled_event_value(text: &str, name: &str) -> (r: Option<String>)
    ensures
        opt_view(r) == labeled_value(text@, name@),
{
    let tv = chars_of(text);
    let nv = chars_of(name);
    let wanted = normalize_chars(nv.as_slice());
    let seps = ['¦', '\n', '\r'];
    assert(seps@ =~= seq!['¦', '\n', '\r']);
    let segs = fields_of(tv.as_slice(), false, &seps);
    let ghost ss = vviews(segs@);
    assert(ss.subrange(0, ss.len() as int) =~= ss);
    let dq = ['"'];
    assert(dq@ =~= seq!['"']);
    let sq = ['\''];
    assert(sq@ =~= seq!['\'']);
    let mut i: usize = 0;
    while i < segs.len()
        invariant
            i <= segs.len(),
            ss == vviews(segs@),
            ss == fields(text@, false, seq!['¦', '\n', '\r']),
            wanted@ == normalized(name@),
            dq@ == seq!['"'],
            sq@ == seq!['\''],
            labeled_value(text@, name@) == labeled_from(ss.subrange(i as int, ss.len() as int), wanted@),
        decreases segs.len() - i,
    {
        let ghost rest = ss.subrange(i as int, ss.len() as int);
        assert(rest[0] == segs@[i as int]@);
        assert(rest.drop_first() =~= ss.subrange(i + 1, ss.len() as int));
        let a = trim_chars(segs[i].as_slice());
        let b = trim_set_chars(a.as_slice(), &dq);
        let c = trim_set_chars(b.as_slice(), &sq);
        let seg = trim_chars(c.as_slice());
        let kv = match split_once_exec(seg.as_slice(), ':') {
            Some(kv) => Some(kv),
            None => split_once_exec(seg.as_slice(), '='),
        };
        match kv {
            Some((k, v)) => {
                let nk = normalize_chars(k.as_slice());
                if seq_eq(nk.as_slice(), wanted.as_slice()) {
                    let tv2 = trim_chars(v.as_slice());
                    let tv3 = trim_set_chars(tv2.as_slice(), &dq);
                    return match clean_chars(tv3.as_slice()) {
                        Some(x) => Some(string_from(x.as_slice())),
                        None => None,
                    };
                }
            },
            None => {},
        }
        i = i + 1;
    }
    assert(ss.subrange(i as int, ss.len() as int).len() == 0);
    None
}

/// The first value, over the entries in order and `names` in order, that
/// labels one of `names` inside an entry's value.
pub open spec fn embedded_from(
    vals: Seq<Seq<char>>,
    names: Seq<Seq<char>>,
) -> Option<Seq<char>>
    decreases vals.len(),
{
    if vals.len() == 0 {
        None
    } else {
        match embedded_in(vals[0], names) {
            Some(v) => Some(v),
            None => embedded_from(vals.drop_first(), names),
        }
    }
}

pub open spec fn embedded_in(text: Seq<char>, names: Seq<Seq<char>>) -> Option<Seq<char>>
    decreases names.len(),
{
    if names.len() == 0 {
        None
    } else {
        match labeled_value(text, names[0]) {
            Some(v) => Some(v),
            None => embedded_in(text, names.drop_first()),
        }
    }
}

pub open spec fn row_values(row: Seq<(Seq<char>, Seq<char>)>) -> Seq<Seq<char>> {
    row.map_values(|p: (Seq<char>, Seq<char>)| p.1)
}

fn embedded_in_exec(text: &str, names: &[&str]) -> (r: Option<String>)
    ensures
        opt_view(r) == embedded_in(text@, views(names@)),
{
    let ghost ns = views(names@);
    assert(ns.subrange(0, ns.len() as int) =~= ns);
    let mut i: usize = 0;
    while i < names.len()
        invariant
            i <= names.len(),
            ns == views(names@),
            embedded_in(text@, ns) == embedded_in(text@, ns.subrange(i as int, ns.len() as int)),
        decreases names.len() - i,
    {
        let ghost rest = ns.subrange(i as int, ns.len() as int);
        assert(rest[0] == names@[i as int]@);
        assert(rest.drop_first() =~= ns.subrange(i + 1, ns.len() as int));
        match labeled_event_value(text, names[i]) {
            Some(v) => {
                return Some(v);
            },
            None => {},
        }
        i = i + 1;
    }
    assert(ns.subrange(i as int, ns.len() as int).len() == 0);
    None
}

/// The first of `names` labelled inside the value of an entry, over the
/// entries in order.
pub fn embedded_event_field(row: &[(String, String)], names: &[&str]) -> (r: Option<String>)
    ensures
        opt_view(r) == embedded_from(row_values(entries(row@)), views(names@)),
{
    let ghost vs = row_values(entries(row@));
    assert(vs.subrange(0, vs.len() as int) =~= vs);
    let mut i: usize = 0;
    while i < row.len()
        invariant
            i <= row.len(),
            vs == row_values(entries(row@)),
            vs.len() == row@.len(),
            embedded_from(vs, views(names@)) == embedded_from(
                vs.subrange(i as int, vs.len() as int),
                views(names@),
            ),
        decreases row.len() - i,
    {
        let ghost rest = vs.subrange(i as int, vs.len() as int);
        assert(rest[0] == row@[i as int].1@);
        assert(rest.drop_first() =~= vs.subrange(i + 1, vs.len() as int));
        match embedded_in_exec(row[i].1.as_str(), names) {
            Some(v) => {
                return Some(v);
            },
            None => {},
        }
        i = i + 1;
    }
    assert(vs.subrange(i as int, vs.len() as int).len() == 0);
    None
}

pub open spec fn event_field(row: Seq<(Seq<char>, Seq<char>)>, names: Seq<Seq<char>>) -> Option<
    Seq<char>,
> {
    match named_value(row, names) {
        Some(v) => Some(v),
        None => embedded_from(row_values(row), names),
    }
}

/// A named field of an event, or one labelled inside another field's value.
pub fn first_event_field(row: &[(String, String)], names: &[&str]) -> (r: Option<String>)
    ensures
        opt_view(r) == event_field(entries(row@), views(names@)),
{
    match first_named(row, names) {
        Some(v) => Some(v),
        None => embedded_event_field(row, names),
    }
}

// ---------------------------------------------------------------------------
// Process identifiers
// ---------------------------------------------------------------------------
pub open spec fn hex_digit_value(c: char) -> int {
    if '0' <= c && c <= '9' {
        c as int - 48
    } else if 'a' <= c && c <= 'f' {
        c as int - 87
    } else {
        c as int - 55
    }
}

/// The value of a run of hexadecimal digits.
pub open spec fn hex_value(s: Seq<char>) -> int
    decreases s.len(),
{
    if s.len() == 0 {
        0
    } else {
        hex_value(s.drop_last()) * 16 + hex_digit_value(s.last())
    }
}

/// What `u64::from_str_radix(s, 16)` gives: an optional `+`, then one or more
/// hexadecimal digits, whose value fits in a `u64`.
pub open spec fn parse_hex_u64(s: Seq<char>) -> Option<int> {
    let d = if s.len() > 0 && s[0] == '+' {
        s.drop_first()
    } else {
        s
    };
    if d.len() == 0 || !all_hex(d) || hex_value(d) > u64::MAX {
        None
    } else {
        Some(hex_value(d))
    }
}

/// The decimal digits of a number, as `to_string` writes it.
pub open spec fn decimal_text(n: nat) -> Seq<char>
    decreases n,
{
    if n < 10 {
        seq![(n + 48) as char]
    } else {
        decimal_text(n / 10).push(((n % 10) + 48) as char)
    }
}

pub open spec fn hex_prefixed(t: Seq<char>) -> bool {
    t.len() >= 2 && t[0] == '0' && (t[1] == 'x' || t[1] == 'X')
}

/// A process id as text: `0x`-prefixed hexadecimal turned into decimal,
/// anything else cleaned.
pub open spec fn pid_text(p: Seq<char>) -> Option<Seq<char>> {
    let t = trim(p);
    if hex_prefixed(t) {
        match parse_hex_u64(t.subrange(2, t.len() as int)) {
            Some(n) => Some(decimal_text(n as nat)),
            None => clean(t),
        }
    } else {
        clean(t)
    }
}

pub open spec fn pid_of(o: Option<Seq<char>>) -> Option<Seq<char>> {
    match o {
        Some(p) => pid_text(p),
        None => None,
    }
}

proof fn lemma_hex_value_nonneg(s: Seq<char>)
    requires
        all_hex(s),
    ensures
        hex_value(s) >= 0,
    decreases s.len(),
{
    if s.len() > 0 {
        assert(crate::text::is_ascii_hex(s[s.len() - 1]));
        assert(all_hex(s.drop_last())) by {
            assert forall|k: int| 0 <= k < s.drop_last().len() implies crate::text::is_ascii_hex(
                #[trigger] s.drop_last()[k],
            ) by {
                assert(s.drop_last()[k] == s[k]);
            }
        }
        lemma_hex_value_nonneg(s.drop_last());
    }
}

fn parse_hex_u64_exec(s: &[char]) -> (r: Option<u64>)
    ensures
        match r {
            Some(v) => parse_hex_u64(s@) == Some(v as int),
            None => parse_hex_u64(s@) is None,
        },
{
    let start: usize = if s.len() > 0 && s[0] == '+' {
        1
    } else {
        0
    };
    let ghost d = if start == 1 {
        s@.drop_first()
    } else {
        s@
    };
    assert(d =~= s@.subrange(start as int, s@.len() as int));
    if start == s.len() {
        return None;
    }
    let mut acc: u128 = 0;
    let mut over = false;
    let mut i: usize = start;
    while i < s.len()
        invariant
            start <= i <= s.len(),
            start == 0 || start == 1,
            start == 1 <==> (s@.len() > 0 && s@[0] == '+'),
            all_hex(s@.subrange(start as int, i as int)),
            !over ==> acc == hex_value(s@.subrange(start as int, i as int)),
            !over ==> acc <= u64::MAX,
            over ==> hex_value(s@.subrange(start as int, i as int)) > u64::MAX,
        decreases s.len() - i,
    {
        let c = s[i];
        if !crate::text::char_is_ascii_hex(c) {
            assert(!all_hex(s@.subrange(start as int, s@.len() as int))) by {
                assert(s@.subrange(start as int, s@.len() as int)[i - start] == c);
            }
            return None;
        }
        let ghost prev = s@.subrange(start as int, i as int);
        let ghost next = s@.subrange(start as int, i + 1);
        assert(next.drop_last() =~= prev);
        assert(all_hex(next)) by {
            assert forall|k: int| 0 <= k < next.len() implies crate::text::is_ascii_hex(
                #[trigger] next[k],
            ) by {
                if k < prev.len() {
                    assert(next[k] == prev[k]);
                }
            }
        }
        proof {
            lemma_hex_value_nonneg(prev);
        }
        if !over {
            let dv: u128 = if '0' <= c && c <= '9' {
                (c as u32 - 48) as u128
            } else if 'a' <= c && c <= 'f' {
                (c as u32 - 87) as u128
            } else {
                (c as u32 - 55) as u128
            };
            acc = acc * 16 + dv;
            if acc > 0xffff_ffff_ffff_ffff {
                over = true;
            }
        }
        i = i + 1;
    }
    if over {
        None
    } else {
        Some(acc as u64)
    }
}

/// The decimal digits of a number.
pub fn decimal_string(n: u64) -> (r: String)
    ensures
        r@ == decimal_text(n as nat),
{
    let mut x: u64 = n;
    let mut out: Vec<char> = Vec::new();
    while x >= 10
        invariant
            decimal_text(n as nat) == decimal_text(x as nat) + out@,
        decreases x,
    {
        let c = ((x % 10) as u8 + 48) as char;
        let ghost prev = out@;
        out.insert(0, c);
        assert(decimal_text(x as nat) == decimal_text((x / 10) as nat).push(c));
        assert(decimal_text((x / 10) as nat).push(c) + prev =~= decimal_text((x / 10) as nat)
            + out@);
        x = x / 10;
    }
    let c = (x as u8 + 48) as char;
    let ghost prev = out@;
    out.insert(0, c);
    assert(decimal_text(x as nat) =~= seq![c]);
    assert(seq![c] + prev =~= out@);
    string_from(out.as_slice())
}

/// A process id that may be hexadecimal (`0x1a4`) or decimal, in decimal.
pub fn normalize_pid(pid: Option<String>) -> (r: Option<String>)
    ensures
        opt_view(r) == pid_of(opt_view_raw(pid)),
{
    let p = match pid {
        Some(p) => p,
        None => {
            return None;
        },
    };
    let pv = chars_of(p.as_str());
    let t = trim_chars(pv.as_slice());
    if t.len() >= 2 && t[0] == '0' && (t[1] == 'x' || t[1] == 'X') {
        let hex = slice_to_vec(t.as_slice(), 2, t.len());
        match parse_hex_u64_exec(hex.as_slice()) {
            Some(n) => {
                return Some(decimal_string(n));
            },
            None => {},
        }
    }
    match clean_chars(t.as_slice()) {
        Some(c) => Some(string_from(c.as_slice())),
        None => None,
    }
}

/// The text of an optional string, as it is.
pub open spec fn opt_view_raw(o: Option<String>) -> Option<Seq<char>> {
    match o {
        Some(s) => Some(s@),
        None => None,
    }
}

/// Process id, process GUID, parent process id and parent GUID of an event:
/// in a Security 4688 event `NewProcessId` is the process and `ProcessId` its
/// creator; otherwise (Sysmon) `ProcessId` is the process and
/// `ParentProcessId` its parent. Ids are given in decimal.
pub open spec fn process_identity_of(row: Seq<(Seq<char>, Seq<char>)>) -> (
    Option<Seq<char>>,
    Option<Seq<char>>,
    Option<Seq<char>>,
    Option<Seq<char>>,
) {
    let guid = named_value(row, seq!["ProcessGuid"@]);
    let parent_guid = named_value(row, seq!["ParentProcessGuid"@]);
    let new_pid = named_value(row, seq!["NewProcessId"@]);
    let pid = if new_pid is Some {
        new_pid
    } else {
        named_value(row, seq!["ProcessId"@])
    };
    let parent = if new_pid is Some {
        named_value(row, seq!["ProcessId"@, "CreatorProcessId"@])
    } else {
        named_value(row, seq!["ParentProcessId"@])
    };
    (pid_of(pid), guid, pid_of(parent), parent_guid)
}

pub fn process_identity(row: &[(String, String)]) -> (r: (
    Option<String>,
    Option<String>,
    Option<String>,
    Option<String>,
))
    ensures
        (opt_view(r.0), opt_view(r.1), opt_view(r.2), opt_view(r.3)) == process_identity_of(
            entries(row@),
        ),
{
    let a = ["ProcessGuid"];
    assert(views(a@) =~= seq!["ProcessGuid"@]);
    let process_guid = first_named(row, &a);
    let b = ["ParentProcessGuid"];
    assert(views(b@) =~= seq!["ParentProcessGuid"@]);
    let parent_process_guid = first_named(row, &b);
    let c = ["NewProcessId"];
    assert(views(c@) =~= seq!["NewProcessId"@]);
    let new_pid = first_named(row, &c);
    let (process_id, parent_process_id) = if new_pid.is_some() {
        let d = ["ProcessId", "CreatorProcessId"];
        assert(views(d@) =~= seq!["ProcessId"@, "CreatorProcessId"@]);
        (new_pid, first_named(row, &d))
    } else {
        let e = ["ProcessId"];
        assert(views(e@) =~= seq!["ProcessId"@]);
        let f = ["ParentProcessId"];
        assert(views(f@) =~= seq!["ParentProcessId"@]);
        (first_named(row, &e), first_named(row, &f))
    };
    assert(opt_view_raw(process_id) == opt_view(process_id));
    assert(opt_view_raw(parent_process_id) == opt_view(parent_process_id));
    (
        normalize_pid(process_id),
        process_guid,
        normalize_pid(parent_process_id),
        parent_process_guid,
    )
}

// ---------------------------------------------------------------------------
// Joined fields
// ---------------------------------------------------------------------------
/// The values of `names`, each looked up alone, in order, without repeats.
pub open spec fn distinct_named(row: Seq<(Seq<char>, Seq<char>)>, names: Seq<Seq<char>>) -> Seq<
    Seq<char>,
>
    decreases names.len(),
{
    if names.len() == 0 {
        Seq::empty()
    } else {
        let acc = distinct_named(row, names.drop_last());
        match named_value(row, seq![names.last()]) {
            Some(v) => if acc.contains(v) {
                acc
            } else {
                acc.push(v)
            },
            None => acc,
        }
    }
}

/// The distinct values of `names`, joined by ` ¦ `; none when there are none.
pub open spec fn joined_fields(row: Seq<(Seq<char>, Seq<char>)>, names: Seq<Seq<char>>) -> Option<
    Seq<char>,
> {
    let parts = distinct_named(row, names);
    if parts.len() == 0 {
        None
    } else {
        Some(joined(parts, " ¦ "@))
    }
}

fn contains_string(v: &Vec<String>, x: &String) -> (r: bool)
    ensures
        r == vec_strings(v@).contains(x@),
{
    let xs = chars_of(x.as_str());
    let mut i: usize = 0;
    while i < v.len()
        invariant
            i <= v.len(),
            xs@ == x@,
            forall|j: int| 0 <= j < i ==> #[trigger] vec_strings(v@)[j] != x@,
        decreases v.len() - i,
    {
        let e = chars_of(v[i].as_str());
        if seq_eq(e.as_slice(), xs.as_slice()) {
            assert(vec_strings(v@)[i as int] == x@);
            return true;
        }
        i = i + 1;
    }
    assert forall|j: int| 0 <= j < vec_strings(v@).len() implies #[trigger] vec_strings(v@)[j]
        != x@ by {}
    false
}

pub(crate) fn contains_string_pub(v: &Vec<String>, x: &String) -> (r: bool)
    ensures
        r == vec_strings(v@).contains(x@),
{
    contains_string(v, x)
}

pub(crate) fn join_strings(parts: &Vec<String>, sep: &str) -> (r: Vec<char>)
    ensures
        r@ == joined(vec_strings(parts@), sep@),
{
    let sv = chars_of(sep);
    let mut out: Vec<char> = Vec::new();
    let mut i: usize = 0;
    while i < parts.len()
        invariant
            i <= parts.len(),
            sv@ == sep@,
            out@ == joined(vec_strings(parts@).subrange(0, i as int), sep@),
        decreases parts.len() - i,
    {
        let ghost prev = vec_strings(parts@).subrange(0, i as int);
        assert(vec_strings(parts@).subrange(0, i + 1).drop_last() =~= prev);
        let pv = chars_of(parts[i].as_str());
        if i > 0 {
            push_all(&mut out, sv.as_slice());
        }
        push_all(&mut out, pv.as_slice());
        i = i + 1;
    }
    assert(vec_strings(parts@).subrange(0, parts@.len() as int) =~= vec_strings(parts@));
    out
}

pub fn joined_event_fields(row: &[(String, String)], names: &[&str]) -> (r: Option<String>)
    ensures
        opt_view(r) == joined_fields(entries(row@), views(names@)),
{
    let ghost ns = views(names@);
    let ghost es = entries(row@);
    let mut parts: Vec<String> = Vec::new();
    let mut i: usize = 0;
    assert(vec_strings(parts@) =~= distinct_named(es, ns.subrange(0, 0)));
    while i < names.len()
        invariant
            i <= names.len(),
            ns == views(names@),
            es == entries(row@),
            vec_strings(parts@) == distinct_named(es, ns.subrange(0, i as int)),
        decreases names.len() - i,
    {
        let one = [names[i]];
        assert(views(one@) =~= seq![ns[i as int]]);
        assert(ns.subrange(0, i + 1).drop_last() =~= ns.subrange(0, i as int));
        assert(ns.subrange(0, i + 1).last() == ns[i as int]);
        match first_named(row, &one) {
            Some(v) => {
                if !contains_string(&parts, &v) {
                    let ghost prev = vec_strings(parts@);
                    parts.push(v);
                    assert(vec_strings(parts@) =~= prev.push(v@));
                }
            },
            None => {},
        }
        i = i + 1;
    }
    assert(ns.subrange(0, ns.len() as int) =~= ns);
    if parts.len() == 0 {
        None
    } else {
        let j = join_strings(&parts, " ¦ ");
        Some(string_from(j.as_slice()))
    }
}

// ---------------------------------------------------------------------------
// Account names
// ---------------------------------------------------------------------------
/// The ASCII lower-case form of a byte.
pub open spec fn lower_byte(b: u8) -> u8 {
    if 65 <= b <= 90 {
        (b + 32) as u8
    } else {
        b
    }
}

/// `n` occurs in `h` at `i`, ignoring ASCII case.
pub open spec fn bytes_ieq_at(h: Seq<u8>, n: Seq<u8>, i: int) -> bool {
    0 <= i && i + n.len() <= h.len() && forall|j: int| 0 <= j < n.len() ==> #[trigger] lower_byte(h[i + j]) == lower_byte(n[j])
}

/// The first index, at or after `i`, where `n` occurs in `h` ignoring ASCII case.
pub open spec fn ifind_bytes_from(h: Seq<u8>, n: Seq<u8>, i: int) -> Option<int>
    decreases h.len() - i,
{
    if i < 0 || i + n.len() > h.len() {
        None
    } else if bytes_ieq_at(h, n, i) {
        Some(i)
    } else {
        ifind_bytes_from(h, n, i + 1)
    }
}

/// The earliest offset of a non-empty `n` in `h`, ignoring ASCII case.
pub open spec fn ifind_bytes(h: Seq<u8>, n: Seq<u8>) -> Option<int> {
    if n.len() == 0 {
        None
    } else {
        ifind_bytes_from(h, n, 0)
    }
}

fn bytes_ieq_at_exec(h: &[u8], n: &[u8], i: usize) -> (r: bool)
    requires
        i + n.len() <= h.len(),
    ensures
        r == bytes_ieq_at(h@, n@, i as int),
{
    let mut j: usize = 0;
    while j < n.len()
        invariant
            j <= n.len(),
            i + n.len() <= h.len(),
            forall|k: int| 0 <= k < j ==> #[trigger] lower_byte(h@[i + k]) == lower_byte(n@[k]),
        decreases n.len() - j,
    {
        let a = h[i + j];
        let b = n[j];
        let la = if 65 <= a && a <= 90 {
            a + 32
        } else {
            a
        };
        let lb = if 65 <= b && b <= 90 {
            b + 32
        } else {
            b
        };
        if la != lb {
            assert(lower_byte(h@[i + j]) != lower_byte(n@[j as int]));
            return false;
        }
        j = j + 1;
    }
    true
}

/// The earliest byte offset of `needle` in `haystack`, ignoring ASCII case.
pub fn ascii_icontains_at(haystack: &[u8], needle: &[u8]) -> (r: Option<usize>)
    ensures
        match r {
            Some(i) => ifind_bytes(haystack@, needle@) == Some(i as int),
            None => ifind_bytes(haystack@, needle@) is None,
        },
{
    if needle.len() == 0 || haystack.len() < needle.len() {
        return None;
    }
    let last = haystack.len() - needle.len();
    let mut i: usize = 0;
    while i <= last
        invariant
            last == haystack.len() - needle.len(),
            needle.len() > 0,
            ifind_bytes(haystack@, needle@) == ifind_bytes_from(haystack@, needle@, i as int),
        decreases last + 1 - i,
    {
        if bytes_ieq_at_exec(haystack, needle, i) {
            return Some(i);
        }
        i = i + 1;
    }
    None
}

pub open spec fn account_markers() -> Seq<Seq<char>> {
    seq![
        "NT AUTHORITY\\"@,
        "NT SERVICE\\"@,
        "BUILTIN\\"@,
        "NT VIRTUAL MACHINE\\"@,
        "FONT DRIVER HOST\\"@,
        "WINDOW MANAGER\\"@,
    ]
}

/// The earliest index at which one of `ms` occurs in `v`, ignoring ASCII case.
pub open spec fn earliest_marker(v: Seq<char>, ms: Seq<Seq<char>>) -> Option<int>
    decreases ms.len(),
{
    if ms.len() == 0 {
        None
    } else {
        let rest = earliest_marker(v, ms.drop_last());
        match find(lower(v), lower(ms.last())) {
            Some(p) => match rest {
                Some(q) => Some(
                    if p < q {
                        p
                    } else {
                        q
                    },
                ),
                None => Some(p),
            },
            None => rest,
        }
    }
}

/// An account name from the text before a reserved Windows account domain
/// (`NT AUTHORITY\`, `BUILTIN\`, ...) removed; unchanged when there is none
/// or it starts the name.
pub open spec fn sanitized_account(v: Seq<char>) -> Seq<char> {
    match earliest_marker(v, account_markers()) {
        Some(p) => if p > 0 {
            v.subrange(p, v.len() as int)
        } else {
            v
        },
        None => v,
    }
}

pub fn sanitize_account_name(value: &str) -> (r: String)
    ensures
        r@ == sanitized_account(value@),
{
    let v = chars_of(value);
    let lv = lower_chars(v.as_slice());
    let markers = [
        "NT AUTHORITY\\",
        "NT SERVICE\\",
        "BUILTIN\\",
        "NT VIRTUAL MACHINE\\",
        "FONT DRIVER HOST\\",
        "WINDOW MANAGER\\",
    ];
    assert(views(markers@) =~= account_markers());
    let mut cut: Option<usize> = None;
    let mut i: usize = 0;
    while i < 6
        invariant
            i <= 6,
            views(markers@) == account_markers(),
            lv@ == lower(v@),
            v@ == value@,
            match cut {
                Some(c) => earliest_marker(v@, account_markers().subrange(0, i as int)) == Some(
                    c as int,
                ) && c < v@.len(),
                None => earliest_marker(v@, account_markers().subrange(0, i as int)) is None,
            },
        decreases 6 - i,
    {
        let ghost ms = account_markers().subrange(0, i + 1);
        assert(ms.drop_last() =~= account_markers().subrange(0, i as int));
        assert(ms.last() == markers@[i as int]@);
        let mv = chars_of(markers[i]);
        let lm = lower_chars(mv.as_slice());
        match find_chars(lv.as_slice(), lm.as_slice()) {
            Some(p) => {
                assert(lower(v@).len() == v@.len());
                proof {
                    if lm@.len() == 0 {
                        assert(false) by {
                            reveal_strlit("NT AUTHORITY\\");
                            reveal_strlit("NT SERVICE\\");
                            reveal_strlit("BUILTIN\\");
                            reveal_strlit("NT VIRTUAL MACHINE\\");
                            reveal_strlit("FONT DRIVER HOST\\");
                            reveal_strlit("WINDOW MANAGER\\");
                        }
                    }
                }
                cut = match cut {
                    Some(c) => Some(
                        if p < c {
                            p
                        } else {
                            c
                        },
                    ),
                    None => Some(p),
                };
            },
            None => {},
        }
        i = i + 1;
    }
    assert(account_markers().subrange(0, 6) =~= account_markers());
    match cut {
        Some(p) => if p > 0 {
            let tail = slice_to_vec(v.as_slice(), p, v.len());
            string_from(tail.as_slice())
        } else {
            string_from(v.as_slice())
        },
        None => string_from(v.as_slice()),
    }
}

// ---------------------------------------------------------------------------
// Event fields
// ---------------------------------------------------------------------------
pub open spec fn user_name_fields() -> Seq<Seq<char>> {
    seq!["TargetUserName"@, "SubjectUserName"@, "AccountName"@, "UserName"@, "User"@, "UserId"@]
}

/// The account of an event, with any garbage before a reserved domain removed.
pub open spec fn event_user(row: Seq<(Seq<char>, Seq<char>)>) -> Option<Seq<char>> {
    match named_value(row, user_name_fields()) {
        Some(v) => clean(sanitized_account(v)),
        None => None,
    }
}

pub fn evtx_user_name(data: &[(String, String)]) -> (r: Option<String>)
    ensures
        opt_view(r) == event_user(entries(data@)),
{
    let names = ["TargetUserName", "SubjectUserName", "AccountName", "UserName", "User", "UserId"];
    assert(views(names@) =~= user_name_fields());
    match first_named(data, &names) {
        Some(v) => {
            let s = sanitize_account_name(v.as_str());
            let sv = chars_of(s.as_str());
            match clean_chars(sv.as_slice()) {
                Some(c) => Some(string_from(c.as_slice())),
                None => None,
            }
        },
        None => None,
    }
}

pub open spec fn process_name_fields() -> Seq<Seq<char>> {
    seq![
        "NewProcessName"@,
        "ProcessName"@,
        "Image"@,
        "Application"@,
        "ServiceFileName"@,
        "SourceImage"@,
        "ParentImage"@,
    ]
}

/// The process of an event, as a file name.
pub open spec fn event_process(row: Seq<(Seq<char>, Seq<char>)>) -> Option<Seq<char>> {
    match named_value(row, process_name_fields()) {
        Some(v) => Some(name_or_self(v)),
        None => None,
    }
}

pub fn evtx_process_name(data: &[(String, String)]) -> (r: Option<String>)
    ensures
        opt_view(r) == event_process(entries(data@)),
{
    let names = [
        "NewProcessName",
        "ProcessName",
        "Image",
        "Application",
        "ServiceFileName",
        "SourceImage",
        "ParentImage",
    ];
    assert(views(names@) =~= process_name_fields());
    match first_named(data, &names) {
        Some(v) => {
            let vv = chars_of(v.as_str());
            match file_name_chars(vv.as_slice()) {
                Some(n) => Some(string_from(n.as_slice())),
                None => Some(v),
            }
        },
        None => None,
    }
}

pub open spec fn file_path_fields() -> Seq<Seq<char>> {
    seq![
        "NewProcessName"@,
        "ProcessName"@,
        "Image"@,
        "ObjectName"@,
        "TargetFilename"@,
        "ImageLoaded"@,
        "Path"@,
        "FullPath"@,
        "ServiceFileName"@,
        "SourceImage"@,
        "TargetImage"@,
    ]
}

pub fn evtx_file_path(data: &[(String, String)]) -> (r: Option<String>)
    ensures
        opt_view(r) == named_value(entries(data@), file_path_fields()),
{
    let names = [
        "NewProcessName",
        "ProcessName",
        "Image",
        "ObjectName",
        "TargetFilename",
        "ImageLoaded",
        "Path",
        "FullPath",
        "ServiceFileName",
        "SourceImage",
        "TargetImage",
    ];
    assert(views(names@) =~= file_path_fields());
    first_named(data, &names)
}

/// The audit subcategory that a GUID or message id stands for.
pub open spec fn audit_name_of_id(v: Seq<char>) -> Option<Seq<char>> {
    let n = upper(trim_set(trim(v), seq!['{', '}']));
    if n == "0CCE9227-69AE-11D9-BED3-505054503030"@ || n == "%%12804"@ || n == "12804"@ {
        Some("Other Object Access Events"@)
    } else {
        None
    }
}

pub fn audit_subcategory_name_from_id(value: &str) -> (r: Option<&'static str>)
    ensures
        match r {
            Some(s) => audit_name_of_id(value@) == Some(s@),
            None => audit_name_of_id(value@) is None,
        },
{
    let v = chars_of(value);
    let t = trim_chars(v.as_slice());
    let braces = ['{', '}'];
    assert(braces@ =~= seq!['{', '}']);
    let t2 = trim_set_chars(t.as_slice(), &braces);
    let n = upper_chars(t2.as_slice());
    if eq_str(n.as_slice(), "0CCE9227-69AE-11D9-BED3-505054503030") || eq_str(
        n.as_slice(),
        "%%12804",
    ) || eq_str(n.as_slice(), "12804") {
        Some("Other Object Access Events")
    } else {
        None
    }
}

/// The audit subcategory of an event: named, else from its id, else its
/// category.
pub open spec fn audit_subcategory(row: Seq<(Seq<char>, Seq<char>)>) -> Option<Seq<char>> {
    match event_field(row, seq!["SubcategoryName"@, "Subcategory"@]) {
        Some(v) => Some(v),
        None => match (match event_field(row, seq!["SubcategoryGuid"@, "SubcategoryId"@]) {
            Some(id) => audit_name_of_id(id),
            None => None,
        }) {
            Some(n) => Some(n),
            None => event_field(row, seq!["Category"@]),
        },
    }
}

pub fn audit_subcategory_name(data: &[(String, String)]) -> (r: Option<String>)
    ensures
        opt_view(r) == audit_subcategory(entries(data@)),
{
    let a = ["SubcategoryName", "Subcategory"];
    assert(views(a@) =~= seq!["SubcategoryName"@, "Subcategory"@]);
    match first_event_field(data, &a) {
        Some(v) => {
            return Some(v);
        },
        None => {},
    }
    let b = ["SubcategoryGuid", "SubcategoryId"];
    assert(views(b@) =~= seq!["SubcategoryGuid"@, "SubcategoryId"@]);
    match first_event_field(data, &b) {
        Some(id) => match audit_subcategory_name_from_id(id.as_str()) {
            Some(n) => {
                return Some(crate::text::string_of(n));
            },
            None => {},
        },
        None => {},
    }
    let c = ["Category"];
    assert(views(c@) =~= seq!["Category"@]);
    first_event_field(data, &c)
}

// ---------------------------------------------------------------------------
// Code tables
// ---------------------------------------------------------------------------
/// The name of a Windows logon type.
pub open spec fn logon_type(v: Seq<char>) -> Option<Seq<char>> {
    let t = trim(v);
    if t == "2"@ {
        Some("interactive"@)
    } else if t == "3"@ {
        Some("network"@)
    } else if t == "4"@ {
        Some("batch"@)
    } else if t == "5"@ {
        Some("service"@)
    } else if t == "7"@ {
        Some("unlock"@)
    } else if t == "8"@ {
        Some("network_cleartext"@)
    } else if t == "9"@ {
        Some("new_credentials"@)
    } else if t == "10"@ {
        Some("remote_interactive"@)
    } else if t == "11"@ {
        Some("cached_interactive"@)
    } else {
        None
    }
}

pub open spec fn static_view(r: Option<&'static str>) -> Option<Seq<char>> {
    match r {
        Some(s) => Some(s@),
        None => None,
    }
}

pub fn logon_type_name(value: &str) -> (r: Option<&'static str>)
    ensures
        static_view(r) == logon_type(value@),
{
    let v = chars_of(value);
    let tv = trim_chars(v.as_slice());
    let t = tv.as_slice();
    if eq_str(t, "2") {
        Some("interactive")
    } else if eq_str(t, "3") {
        Some("network")
    } else if eq_str(t, "4") {
        Some("batch")
    } else if eq_str(t, "5") {
        Some("service")
    } else if eq_str(t, "7") {
        Some("unlock")
    } else if eq_str(t, "8") {
        Some("network_cleartext")
    } else if eq_str(t, "9") {
        Some("new_credentials")
    } else if eq_str(t, "10") {
        Some("remote_interactive")
    } else if eq_str(t, "11") {
        Some("cached_interactive")
    } else {
        None
    }
}

/// `t` without every leading `0x`.
pub open spec fn strip_hex_prefixes(t: Seq<char>) -> Seq<char>
    decreases t.len(),
{
    if t.len() >= 2 && t[0] == '0' && t[1] == 'x' {
        strip_hex_prefixes(t.subrange(2, t.len() as int))
    } else {
        t
    }
}

/// The name of a Kerberos ticket encryption type.
pub open spec fn ticket_encryption(v: Seq<char>) -> Option<Seq<char>> {
    let t = lower(strip_hex_prefixes(trim(v)));
    if t == "1"@ {
        Some("des_cbc_crc"@)
    } else if t == "3"@ {
        Some("des_cbc_md5"@)
    } else if t == "11"@ {
        Some("aes128_cts_hmac_sha1_96"@)
    } else if t == "12"@ {
        Some("aes256_cts_hmac_sha1_96"@)
    } else if t == "17"@ {
        Some("rc4_hmac"@)
    } else if t == "18"@ {
        Some("aes256_cts_hmac_sha1_96"@)
    } else if t == "23"@ {
        Some("rc4_hmac"@)
    } else {
        None
    }
}

pub fn ticket_encryption_type_name(value: &str) -> (r: Option<&'static str>)
    ensures
        static_view(r) == ticket_encryption(value@),
{
    let v = chars_of(value);
    let tv = trim_chars(v.as_slice());
    let mut i: usize = 0;
    assert(tv@.subrange(0, tv@.len() as int) =~= tv@);
    while tv.len() - i >= 2 && tv[i] == '0' && tv[i + 1] == 'x'
        invariant
            i <= tv.len(),
            strip_hex_prefixes(tv@) == strip_hex_prefixes(tv@.subrange(i as int, tv@.len() as int)),
        decreases tv.len() - i,
    {
        assert(tv@.subrange(i as int, tv@.len() as int).subrange(2, (tv@.len() - i) as int)
            =~= tv@.subrange(i + 2, tv@.len() as int));
        i = i + 2;
    }
    let rest = slice_to_vec(tv.as_slice(), i, tv.len());
    let lv = lower_chars(rest.as_slice());
    let t = lv.as_slice();
    if eq_str(t, "1") {
        Some("des_cbc_crc")
    } else if eq_str(t, "3") {
        Some("des_cbc_md5")
    } else if eq_str(t, "11") {
        Some("aes128_cts_hmac_sha1_96")
    } else if eq_str(t, "12") {
        Some("aes256_cts_hmac_sha1_96")
    } else if eq_str(t, "17") {
        Some("rc4_hmac")
    } else if eq_str(t, "18") {
        Some("aes256_cts_hmac_sha1_96")
    } else if eq_str(t, "23") {
        Some("rc4_hmac")
    } else {
        None
    }
}

/// Adds a search term, trimmed, unless it is blank or already present.
pub fn push_unique_term(terms: &mut Vec<String>, value: &str)
    ensures
        vec_strings(final(terms)@) == (if trim(value@).len() > 0 && !vec_strings(
            old(terms)@,
        ).contains(trim(value@)) {
            vec_strings(old(terms)@).push(trim(value@))
        } else {
            vec_strings(old(terms)@)
        }),
{
    let v = chars_of(value);
    let t = trim_chars(v.as_slice());
    if t.len() == 0 {
        return;
    }
    let ts = string_from(t.as_slice());
    if contains_string(terms, &ts) {
        return;
    }
    let ghost prev = vec_strings(terms@);
    terms.push(ts);
    assert(vec_strings(terms@) =~= prev.push(t@));
}

} // verus!
