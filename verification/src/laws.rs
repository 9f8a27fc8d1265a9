//! Properties that hold across the library's functions, for every input.
use vstd::prelude::*;
use crate::decode::clean;
use crate::row::{account_markers, earliest_marker, sanitized_account};
use crate::text::{find, find_from, lower, match_at, trim, trim_set};
use vstd::set_lib::lemma_map_size;

verus! {

// ---------------------------------------------------------------------------
// Searching
// ---------------------------------------------------------------------------
proof fn lemma_find_from_found(h: Seq<char>, n: Seq<char>, i: int)
    ensures
        find_from(h, n, i) matches Some(p) ==> i <= p && match_at(h, n, p),
    decreases h.len() - i,
{
    if !(i < 0 || i + n.len() > h.len()) && !match_at(h, n, i) {
        lemma_find_from_found(h, n, i + 1);
    }
}

proof fn lemma_find_at_start(h: Seq<char>, n: Seq<char>)
    requires
        match_at(h, n, 0),
    ensures
        find(h, n) == Some(0int),
{
}

/// The earliest marker found is where some marker is found, and no marker is
/// found before it.
proof fn lemma_earliest_marker(v: Seq<char>, ms: Seq<Seq<char>>)
    ensures
        earliest_marker(v, ms) matches Some(p) ==> p >= 0 && exists|k: int|
            0 <= k < ms.len() && #[trigger] find(lower(v), lower(ms[k])) == Some(p),
        earliest_marker(v, ms) is None ==> forall|k: int|
            0 <= k < ms.len() ==> #[trigger] find(lower(v), lower(ms[k])) is None,
    decreases ms.len(),
{
    if ms.len() > 0 {
        let d = ms.drop_last();
        lemma_earliest_marker(v, d);
        lemma_find_from_found(lower(v), lower(ms.last()), 0);
        assert forall|k: int| 0 <= k < d.len() implies #[trigger] d[k] == ms[k] by {}
        if let Some(p) = earliest_marker(v, d) {
            let k = choose|k: int| 0 <= k < d.len() && #[trigger] find(lower(v), lower(d[k])) == Some(p);
            assert(find(lower(v), lower(ms[k])) == Some(p));
        }
        assert(find(lower(v), lower(ms[ms.len() - 1])) == find(lower(v), lower(ms.last())));
        if earliest_marker(v, ms) is None {
            assert forall|k: int| 0 <= k < ms.len() implies #[trigger] find(lower(v), lower(ms[k])) is None by {
                if k < d.len() {
                    assert(d[k] == ms[k]);
                    assert(find(lower(v), lower(d[k])) is None);
                }
            }
        }
    }
}

/// A marker found at the start makes the earliest marker the start.
proof fn lemma_earliest_at_start(v: Seq<char>, ms: Seq<Seq<char>>, k: int)
    requires
        0 <= k < ms.len(),
        find(lower(v), lower(ms[k])) == Some(0int),
    ensures
        earliest_marker(v, ms) == Some(0int),
    decreases ms.len(),
{
    let d = ms.drop_last();
    lemma_find_from_found(lower(v), lower(ms.last()), 0);
    if k < ms.len() - 1 {
        assert(d[k] == ms[k]);
        lemma_earliest_at_start(v, d, k);
    } else {
        lemma_earliest_marker(v, d);
    }
}

/// Sanitising an account name twice gives what sanitising it once gives: once
/// the text before a reserved domain is dropped, the domain starts the name.
pub proof fn law_sanitize_account_idempotent(v: Seq<char>)
    ensures
        sanitized_account(sanitized_account(v)) == sanitized_account(v),
{
    let ms = account_markers();
    lemma_earliest_marker(v, ms);
    if let Some(p) = earliest_marker(v, ms) {
        if p > 0 {
            let w = v.subrange(p, v.len() as int);
            let k = choose|k: int| 0 <= k < ms.len() && #[trigger] find(lower(v), lower(ms[k])) == Some(p);
            lemma_find_from_found(lower(v), lower(ms[k]), 0);
            assert(lower(w) =~= lower(v).subrange(p, v.len() as int));
            assert(match_at(lower(w), lower(ms[k]), 0)) by {
                assert(lower(w).subrange(0, lower(ms[k]).len() as int) =~= lower(v).subrange(
                    p,
                    p + lower(ms[k]).len(),
                ));
            }
            lemma_find_at_start(lower(w), lower(ms[k]));
            lemma_earliest_at_start(w, ms, k);
        }
    }
}

/// An account name in which no reserved domain occurs is returned unchanged.
pub proof fn law_sanitize_account_without_marker(v: Seq<char>)
    requires
        forall|k: int| 0 <= k < account_markers().len() ==> find(lower(v), lower(#[trigger] account_markers()[k])) is None,
    ensures
        sanitized_account(v) == v,
{
    let ms = account_markers();
    lemma_earliest_marker(v, ms);
    if let Some(p) = earliest_marker(v, ms) {
        let k = choose|k: int| 0 <= k < ms.len() && #[trigger] find(lower(v), lower(ms[k])) == Some(p);
        assert(find(lower(v), lower(account_markers()[k])) is None);
    }
}

proof fn lemma_find_from_least(h: Seq<char>, n: Seq<char>, i: int)
    requires
        i >= 0,
    ensures
        match find_from(h, n, i) {
            Some(p) => forall|q: int| i <= q < p ==> !#[trigger] match_at(h, n, q),
            None => forall|q: int| i <= q ==> !#[trigger] match_at(h, n, q),
        },
    decreases h.len() - i,
{
    if !(i + n.len() > h.len()) && !match_at(h, n, i) {
        lemma_find_from_least(h, n, i + 1);
    }
}

/// No marker occurs before the earliest marker.
proof fn lemma_earliest_least(v: Seq<char>, ms: Seq<Seq<char>>)
    ensures
        earliest_marker(v, ms) matches Some(p) ==> forall|k: int, q: int|
            0 <= k < ms.len() && 0 <= q < p ==> !#[trigger] match_at(lower(v), lower(ms[k]), q),
    decreases ms.len(),
{
    if ms.len() > 0 {
        let d = ms.drop_last();
        lemma_earliest_least(v, d);
        lemma_earliest_marker(v, d);
        lemma_find_from_least(lower(v), lower(ms.last()), 0);
        if let Some(p) = earliest_marker(v, ms) {
            assert forall|k: int, q: int| 0 <= k < ms.len() && 0 <= q < p implies !#[trigger] match_at(
                lower(v),
                lower(ms[k]),
                q,
            ) by {
                if k == ms.len() - 1 {
                    assert(ms[k] == ms.last());
                } else {
                    assert(ms[k] == d[k]);
                    if earliest_marker(v, d) is None {
                        assert(find(lower(v), lower(d[k])) is None);
                        lemma_find_from_least(lower(v), lower(d[k]), 0);
                    }
                }
            }
        }
    }
}

/// Sanitising an account name keeps a suffix of it. When that suffix is not
/// the whole name, it starts at the least offset, past the first character, at
/// which a reserved domain occurs, ignoring ASCII case.
pub proof fn law_sanitize_account_suffix(v: Seq<char>)
    ensures
        sanitized_account(v).len() <= v.len(),
        sanitized_account(v) == v.subrange(v.len() - sanitized_account(v).len(), v.len() as int),
        sanitized_account(v) != v ==> {
            let p = v.len() - sanitized_account(v).len();
            &&& p > 0
            &&& exists|k: int| 0 <= k < account_markers().len() && #[trigger] match_at(
                lower(v),
                lower(account_markers()[k]),
                p,
            )
            &&& forall|k: int, q: int|
                0 <= k < account_markers().len() && 0 <= q < p ==> !#[trigger] match_at(
                    lower(v),
                    lower(account_markers()[k]),
                    q,
                )
        },
{
    let ms = account_markers();
    lemma_earliest_marker(v, ms);
    lemma_earliest_least(v, ms);
    assert(v.subrange(0, v.len() as int) =~= v);
    if let Some(p) = earliest_marker(v, ms) {
        let k = choose|k: int| 0 <= k < ms.len() && #[trigger] find(lower(v), lower(ms[k])) == Some(p);
        lemma_find_from_found(lower(v), lower(ms[k]), 0);
        if p > 0 {
            assert(p <= v.len()) by {
                assert(lower(v).len() == v.len());
            }
            assert(match_at(lower(v), lower(account_markers()[k]), p));
        }
    }
}

// ---------------------------------------------------------------------------
// Lists without repeats
// ---------------------------------------------------------------------------
/// No two items alike.
pub open spec fn no_repeats<T>(s: Seq<T>) -> bool {
    forall|i: int, j: int| 0 <= i < j < s.len() ==> s[i] != s[j]
}

proof fn lemma_push_no_repeats<T>(s: Seq<T>, x: T)
    requires
        no_repeats(s),
        !s.contains(x),
    ensures
        no_repeats(s.push(x)),
{
    assert forall|i: int, j: int| 0 <= i < j < s.push(x).len() implies s.push(x)[i] != s.push(x)[j] by {
        if j == s.len() {
            assert(s.push(x)[i] == s[i]);
        }
    }
}

proof fn lemma_path_candidates_from(ts: Seq<Seq<char>>, i: int, acc: Seq<Seq<char>>)
    requires
        no_repeats(acc),
    ensures
        no_repeats(crate::paths::path_candidates_from(ts, i, acc)),
    decreases ts.len() - i,
{
    if 0 <= i < ts.len() {
        match crate::extract::path_candidate(ts[i]) {
            Some(c) => if acc.contains(c) {
                lemma_path_candidates_from(ts, i + 1, acc);
            } else {
                lemma_push_no_repeats(acc, c);
                lemma_path_candidates_from(ts, i + 1, acc.push(c));
            },
            None => lemma_path_candidates_from(ts, i + 1, acc),
        }
    }
}

/// The path candidates of a message hold no path twice.
pub proof fn law_path_candidates_distinct(m: Seq<char>)
    ensures
        no_repeats(crate::paths::path_candidates(m)),
{
    lemma_path_candidates_from(crate::extract::tokens(m), 0, Seq::empty());
}

proof fn lemma_forensic_from(vs: Seq<Seq<char>>, i: int, acc: Seq<Seq<char>>, limit: int)
    requires
        no_repeats(acc),
        acc.len() <= if limit < 1 { 1 } else { limit },
        acc.len() < if limit < 1 { 1 } else { limit } || i >= vs.len() || i < 0,
    ensures
        no_repeats(crate::strings::forensic_from(vs, i, acc, limit)),
        crate::strings::forensic_from(vs, i, acc, limit).len() <= if limit < 1 { 1 } else { limit },
    decreases vs.len() - i,
{
    if 0 <= i < vs.len() {
        let v = crate::strings::clean_string(vs[i]);
        if crate::text::utf8_len(v) < 4 || crate::text::utf8_len(v) > 2048 || acc.contains(v) {
            lemma_forensic_from(vs, i + 1, acc, limit);
        } else {
            lemma_push_no_repeats(acc, v);
            if acc.len() + 1 < limit {
                lemma_forensic_from(vs, i + 1, acc.push(v), limit);
            }
        }
    }
}

/// The forensic strings of some data hold no string twice, and there are at most
/// `limit` of them (one when `limit` is zero).
pub proof fn law_forensic_strings_distinct_and_bounded(b: Seq<u8>, limit: usize)
    ensures
        no_repeats(crate::strings::forensic_from(crate::strings::all_strings(b), 0, Seq::empty(), limit as int)),
        crate::strings::forensic_from(crate::strings::all_strings(b), 0, Seq::empty(), limit as int).len()
            <= if limit < 1 { 1 } else { limit as int },
{
    lemma_forensic_from(crate::strings::all_strings(b), 0, Seq::empty(), limit as int);
}

proof fn lemma_dedup_signals(
    cs: Seq<
        (
            Seq<char>,
            Seq<char>,
            Seq<char>,
            Seq<char>,
            Option<Seq<char>>,
            Option<Seq<char>>,
            Option<Seq<char>>,
            Option<Seq<char>>,
        ),
    >,
)
    ensures
        no_repeats(crate::registry::dedup_signals(cs).map_values(|s| crate::registry::signal_key(s))),
    decreases cs.len(),
{
    if cs.len() > 0 {
        lemma_dedup_signals(cs.drop_last());
        let d = crate::registry::dedup_signals(cs.drop_last());
        let keys = d.map_values(|s| crate::registry::signal_key(s));
        if !keys.contains(crate::registry::signal_key(cs.last())) {
            lemma_push_no_repeats(keys, crate::registry::signal_key(cs.last()));
            assert(d.push(cs.last()).map_values(|s| crate::registry::signal_key(s)) =~= keys.push(
                crate::registry::signal_key(cs.last()),
            ));
        }
    }
}

/// No two signals read from a hive share a key: an action, key hint and file (or
/// process) seen once are reported once.
pub proof fn law_registry_signal_keys_distinct(ss: Seq<Seq<char>>, t: Seq<char>)
    ensures
        no_repeats(crate::registry::registry_signals(ss, t).map_values(|s| crate::registry::signal_key(s))),
{
    lemma_dedup_signals(crate::registry::candidate_signals(ss, t, ss.len() as int));
}

// ---------------------------------------------------------------------------
// Messages and texts
// ---------------------------------------------------------------------------
proof fn lemma_enrich_prefix(m: Seq<char>, l: Seq<char>, v: Option<Seq<char>>)
    ensures
        crate::semantics::enrich_with(m, l, v).len() >= m.len(),
        crate::semantics::enrich_with(m, l, v).subrange(0, m.len() as int) == m,
{
    let r = crate::semantics::enrich_with(m, l, v);
    assert(r.subrange(0, m.len() as int) =~= m);
}

proof fn lemma_prefix_trans(a: Seq<char>, b: Seq<char>, c: Seq<char>)
    requires
        b.len() >= a.len(),
        b.subrange(0, a.len() as int) == a,
        c.len() >= b.len(),
        c.subrange(0, b.len() as int) == b,
    ensures
        c.len() >= a.len(),
        c.subrange(0, a.len() as int) == a,
{
    assert(c.subrange(0, a.len() as int) =~= b.subrange(0, a.len() as int));
}

/// A message enriched with an event's semantics keeps the message as its start.
pub proof fn law_enriched_message_extends(m: Seq<char>, sem: crate::semantics::EvtxSemantics)
    ensures
        crate::text::starts_with(crate::semantics::enriched_message(m, sem), m),
{
    let m1 = crate::semantics::enrich_with(m, "service"@, crate::decode::opt_view(sem.service_name));
    let m2 = crate::semantics::enrich_with(m1, "rule"@, crate::decode::opt_view(sem.rule_name));
    let m3 = crate::semantics::enrich_with(m2, "direction"@, crate::decode::opt_view(sem.firewall_direction));
    let m4 = crate::semantics::enrich_with(m3, "action"@, crate::decode::opt_view(sem.firewall_action));
    let m5 = crate::semantics::enrich_with(m4, "audit_subcategory"@, crate::decode::opt_view(sem.audit_subcategory));
    let m6 = crate::semantics::enrich_with(m5, "pipe"@, crate::decode::opt_view(sem.pipe_name));
    lemma_enrich_prefix(m, "service"@, crate::decode::opt_view(sem.service_name));
    lemma_enrich_prefix(m1, "rule"@, crate::decode::opt_view(sem.rule_name));
    lemma_enrich_prefix(m2, "direction"@, crate::decode::opt_view(sem.firewall_direction));
    lemma_enrich_prefix(m3, "action"@, crate::decode::opt_view(sem.firewall_action));
    lemma_enrich_prefix(m4, "audit_subcategory"@, crate::decode::opt_view(sem.audit_subcategory));
    lemma_enrich_prefix(m5, "pipe"@, crate::decode::opt_view(sem.pipe_name));
    lemma_prefix_trans(m, m1, m2);
    lemma_prefix_trans(m, m2, m3);
    lemma_prefix_trans(m, m3, m4);
    lemma_prefix_trans(m, m4, m5);
    lemma_prefix_trans(m, m5, m6);
    assert(m6 == crate::semantics::enriched_message(m, sem));
    assert(m6.subrange(0, m.len() as int) =~= m);
}

/// A truncated text has at most `n` characters and the three-dot mark, and a text
/// of at most `n` characters is left as it is.
pub proof fn law_truncated_bounds(s: Seq<char>, n: nat)
    ensures
        crate::textlog::truncated(s, n).len() <= n + 3,
        s.len() <= n ==> crate::textlog::truncated(s, n) == s,
        s.len() > n ==> crate::textlog::truncated(s, n).subrange(0, n as int) == s.subrange(0, n as int),
{
    reveal_strlit("...");
    if s.len() > n {
        let t = crate::textlog::truncated(s, n);
        assert(t.subrange(0, n as int) =~= s.subrange(0, n as int));
    }
}

/// A level naming a critical condition makes a Windows event critical, whatever
/// its id.
pub proof fn law_critical_level_overrides_id(id: Option<int>, level: Seq<char>)
    requires
        crate::text::contains(lower(level), "critical"@),
    ensures
        crate::events::windows_severity(id, Some(level)) == "critical"@,
        crate::events::defender_severity(id, Some(level), None) == "critical"@,
{
}

/// A run count comes from one of the layout's offsets and lies between 1 and
/// 100000.
pub proof fn law_run_count_in_range(b: Seq<u8>, offs: Seq<usize>, i: int)
    ensures
        crate::prefetch::run_count_from(b, offs, i) matches Some((v, o)) ==> 1 <= v <= 100_000
            && offs.contains(o as usize),
    decreases offs.len() - i,
{
    if 0 <= i < offs.len() {
        law_run_count_in_range(b, offs, i + 1);
        assert(offs.contains(offs[i]));
    }
}

/// A FileZilla remote path is absolute: it starts with `/`.
pub proof fn law_filezilla_path_absolute(v: Seq<char>)
    ensures
        crate::filezilla::filezilla_remote_path(v) matches Some(p) ==> p.len() > 0 && p[0] == '/',
{
}

// ---------------------------------------------------------------------------
// Prefetch sections
// ---------------------------------------------------------------------------
proof fn lemma_insert_by_offset(
    t: Seq<(Seq<char>, int, int, Option<u32>, Seq<char>)>,
    x: (Seq<char>, int, int, Option<u32>, Seq<char>),
)
    requires
        forall|i: int, j: int| 0 <= i < j < t.len() ==> #[trigger] t[i].1 <= #[trigger] t[j].1,
    ensures
        ({
            let r = crate::prefetch::insert_by_offset(t, x);
            &&& forall|i: int, j: int| 0 <= i < j < r.len() ==> #[trigger] r[i].1 <= #[trigger] r[j].1
            &&& r.to_multiset() == t.to_multiset().insert(x)
            &&& r.len() == t.len() + 1
            &&& forall|i: int| 0 <= i < r.len() ==> (#[trigger] r[i] == x || t.contains(r[i]))
        }),
    decreases t.len(),
{
    broadcast use vstd::seq_lib::group_to_multiset_ensures;

    if t.len() == 0 {
        assert(seq![x] =~= Seq::<(Seq<char>, int, int, Option<u32>, Seq<char>)>::empty().push(x));
    } else if t.last().1 <= x.1 {
    } else {
        let d = t.drop_last();
        lemma_insert_by_offset(d, x);
        let ri = crate::prefetch::insert_by_offset(d, x);
        let r = ri.push(t.last());
        assert(t =~= d.push(t.last()));
        assert forall|i: int| 0 <= i < ri.len() implies #[trigger] ri[i].1 <= t.last().1 by {
            if ri[i] != x {
                let k = choose|k: int| 0 <= k < d.len() && d[k] == ri[i];
                assert(t[k] == d[k]);
            }
        }
        assert forall|i: int, j: int| 0 <= i < j < r.len() implies #[trigger] r[i].1 <= #[trigger] r[j].1 by {
            if j == ri.len() {
                assert(r[i] == ri[i]);
            } else {
                assert(r[i] == ri[i] && r[j] == ri[j]);
            }
        }
        assert forall|i: int| 0 <= i < r.len() implies (#[trigger] r[i] == x || t.contains(r[i])) by {
            if i < ri.len() {
                if ri[i] != x {
                    let k = choose|k: int| 0 <= k < d.len() && d[k] == ri[i];
                    assert(t[k] == d[k]);
                }
            } else {
                assert(t[t.len() - 1] == t.last());
            }
        }
        assert(r.to_multiset() =~= ri.to_multiset().insert(t.last()));
        assert(t.to_multiset() =~= d.to_multiset().insert(t.last()));
    }
}

/// Sorting sections by offset yields them in non-decreasing order of offset, each
/// section as often as before.
pub proof fn law_sections_sorted(s: Seq<(Seq<char>, int, int, Option<u32>, Seq<char>)>)
    ensures
        ({
            let r = crate::prefetch::sorted_by_offset(s);
            &&& forall|i: int, j: int| 0 <= i < j < r.len() ==> #[trigger] r[i].1 <= #[trigger] r[j].1
            &&& r.to_multiset() == s.to_multiset()
        }),
    decreases s.len(),
{
    broadcast use vstd::seq_lib::group_to_multiset_ensures;

    if s.len() > 0 {
        law_sections_sorted(s.drop_last());
        lemma_insert_by_offset(crate::prefetch::sorted_by_offset(s.drop_last()), s.last());
        assert(s =~= s.drop_last().push(s.last()));
    } else {
        assert(s.to_multiset() =~= vstd::multiset::Multiset::empty());
        assert(crate::prefetch::sorted_by_offset(s).to_multiset() =~= vstd::multiset::Multiset::empty());
    }
}

// ---------------------------------------------------------------------------
// Process ids
// ---------------------------------------------------------------------------
proof fn lemma_decimal_text_digits(n: nat)
    ensures
        crate::row::decimal_text(n).len() >= 1,
        forall|k: int| 0 <= k < crate::row::decimal_text(n).len() ==> crate::text::is_ascii_digit(
            #[trigger] crate::row::decimal_text(n)[k],
        ),
    decreases n,
{
    if n >= 10 {
        lemma_decimal_text_digits(n / 10);
        let d = crate::row::decimal_text(n / 10);
        let c = ((n % 10) + 48) as char;
        assert(crate::row::decimal_text(n) == d.push(c));
        assert forall|k: int| 0 <= k < d.push(c).len() implies crate::text::is_ascii_digit(#[trigger] d.push(c)[k]) by {
            if k < d.len() {
                assert(d.push(c)[k] == d[k]);
            }
        }
    }
}

/// A decimal process id is kept as it is.
pub proof fn law_decimal_pid_unchanged(n: nat)
    ensures
        crate::row::pid_text(crate::row::decimal_text(n)) == Some(crate::row::decimal_text(n)),
{
    let t = crate::row::decimal_text(n);
    lemma_decimal_text_digits(n);
    assert(!crate::text::is_ws(t[0]));
    assert(!crate::text::is_ws(t.last()));
    assert(crate::text::trim_start(t) == t);
    assert(crate::text::trim_end(t) == t);
    assert(trim(t) == t);
    assert(!crate::row::hex_prefixed(t)) by {
        if t.len() >= 2 {
            assert(crate::text::is_ascii_digit(t[1]));
        }
    }
    assert(!seq!['"'].contains(t[0])) by {
        if seq!['"'].contains(t[0]) {
            let k = choose|k: int| 0 <= k < 1 && seq!['"'][k] == t[0];
        }
    }
    assert(!seq!['"'].contains(t.last())) by {
        if seq!['"'].contains(t.last()) {
            let k = choose|k: int| 0 <= k < 1 && seq!['"'][k] == t.last();
        }
    }
    assert(crate::text::trim_start_set(t, seq!['"']) == t);
    assert(crate::text::trim_end_set(t, seq!['"']) == t);
    assert(trim_set(t, seq!['"']) == t);
    reveal_strlit("-");
    reveal_strlit("null");
    reveal_strlit("n/a");
    reveal_strlit("none");
    assert(t != "-"@) by {
        if t == "-"@ {
            assert(t[0] == '-');
        }
    }
    assert(lower(t)[0] == t[0]);
    assert(!crate::text::eq_ignore_case(t, "null"@)) by {
        if lower(t) == lower("null"@) {
            assert(lower("null"@)[0] == 'n');
        }
    }
    assert(!crate::text::eq_ignore_case(t, "n/a"@)) by {
        if lower(t) == lower("n/a"@) {
            assert(lower("n/a"@)[0] == 'n');
        }
    }
    assert(!crate::text::eq_ignore_case(t, "none"@)) by {
        if lower(t) == lower("none"@) {
            assert(lower("none"@)[0] == 'n');
        }
    }
}

// ---------------------------------------------------------------------------
// MFT records chosen for events
// ---------------------------------------------------------------------------
proof fn lemma_count_equal_mono(ps: Seq<Option<int>>, m: int, n: int, v: int)
    requires
        0 <= m <= n,
    ensures
        crate::mft_select::count_equal(ps, m, v) <= crate::mft_select::count_equal(ps, n, v),
    decreases n - m,
{
    if m < n {
        lemma_count_equal_mono(ps, m, n - 1, v);
    }
}

proof fn lemma_count_equal_step(ps: Seq<Option<int>>, i: int, n: int, v: int)
    requires
        0 <= i < n,
        ps[i] == Some(v),
    ensures
        crate::mft_select::count_equal(ps, n, v) >= crate::mft_select::count_equal(ps, i, v) + 1,
{
    lemma_count_equal_mono(ps, i + 1, n, v);
}

proof fn lemma_count_below_grows(ps: Seq<Option<int>>, n: int, p: int, q: int)
    requires
        p < q,
        n >= 0,
    ensures
        crate::mft_select::count_below(ps, n, q) >= crate::mft_select::count_below(ps, n, p)
            + crate::mft_select::count_equal(ps, n, p),
    decreases n,
{
    if n > 0 {
        lemma_count_below_grows(ps, n - 1, p, q);
    }
}

proof fn lemma_rank_order(ps: Seq<Option<int>>, i: int, j: int)
    requires
        0 <= i < j < ps.len(),
        ps[i] is Some,
        ps[j] is Some,
    ensures
        crate::mft_select::event_rank(ps, i) != crate::mft_select::event_rank(ps, j),
{
    let n = ps.len() as int;
    let p = ps[i]->0;
    let q = ps[j]->0;
    if p == q {
        lemma_count_equal_step(ps, i, j, p);
    } else if p < q {
        lemma_count_equal_step(ps, i, n, p);
        lemma_count_below_grows(ps, n, p, q);
    } else {
        lemma_count_equal_step(ps, j, n, q);
        lemma_count_equal_mono(ps, j, n, q);
        lemma_count_below_grows(ps, n, q, p);
        lemma_count_equal_mono(ps, i, n, p);
    }
}

proof fn lemma_selected_indices(ps: Seq<Option<int>>, n: int)
    requires
        0 <= n <= ps.len(),
    ensures
        ({
            let s = crate::mft_select::selected_indices(ps, n);
            &&& forall|a: int, b: int| 0 <= a < b < s.len() ==> #[trigger] s[a] < #[trigger] s[b]
            &&& forall|k: int| 0 <= k < s.len() ==> 0 <= #[trigger] s[k] < n
            &&& forall|i: int| 0 <= i < n ==> (s.contains(i) <==> crate::mft_select::selected_for_events(ps, i))
        }),
    decreases n,
{
    if n > 0 {
        lemma_selected_indices(ps, n - 1);
        let d = crate::mft_select::selected_indices(ps, n - 1);
        let s = crate::mft_select::selected_indices(ps, n);
        if crate::mft_select::selected_for_events(ps, n - 1) {
            assert(s =~= d.push(n - 1));
            assert(s[s.len() - 1] == n - 1);
        } else {
            assert(s =~= d);
        }
        assert forall|i: int| 0 <= i < n implies (s.contains(i) <==> crate::mft_select::selected_for_events(ps, i)) by {
            if i < n - 1 {
                if s.contains(i) {
                    let k = choose|k: int| 0 <= k < s.len() && s[k] == i;
                    if k < d.len() {
                        assert(d[k] == i);
                    }
                }
                if d.contains(i) {
                    let k = choose|k: int| 0 <= k < d.len() && d[k] == i;
                    assert(s[k] == i);
                }
            } else {
                if s.contains(i) {
                    let k = choose|k: int| 0 <= k < s.len() && s[k] == i;
                    if k < d.len() {
                        assert(d[k] < n - 1);
                    }
                }
            }
        }
    }
}

/// With more than fifty thousand records, at most ten thousand are chosen for
/// events, and the chosen indices come in increasing order.
pub proof fn law_mft_selection_bounded(rs: Seq<crate::mft::MftNativeRecord>)
    ensures
        rs.len() > 50000 ==> crate::mft_select::event_selection(rs).len() <= 10000,
        forall|a: int, b: int|
            0 <= a < b < crate::mft_select::event_selection(rs).len() ==> #[trigger] crate::mft_select::event_selection(rs)[a]
                < #[trigger] crate::mft_select::event_selection(rs)[b],
{
    let ps = crate::mft_select::priorities(rs);
    if rs.len() <= 50000 {
        return;
    }
    let n = rs.len() as int;
    assert(ps.len() == n);
    lemma_selected_indices(ps, n);
    let s = crate::mft_select::selected_indices(ps, n);
    let sel = s.to_set();
    let f = |i: int| crate::mft_select::event_rank(ps, i);
    assert(vstd::relations::injective_on(f, sel)) by {
        assert forall|x: int, y: int| sel.contains(x) && sel.contains(y) && #[trigger] f(x) == #[trigger] f(y) implies x == y by {
            assert(crate::mft_select::selected_for_events(ps, x));
            assert(crate::mft_select::selected_for_events(ps, y));
            if x < y {
                lemma_rank_order(ps, x, y);
            } else if y < x {
                lemma_rank_order(ps, y, x);
            }
        }
    }
    s.unique_seq_to_set();
    vstd::set_lib::lemma_map_size(sel, sel.map(f), f);
    vstd::set_lib::lemma_int_range(0, 10000);
    assert(sel.map(f).subset_of(vstd::set_lib::set_int_range(0, 10000))) by {
        assert forall|r: int| sel.map(f).contains(r) implies vstd::set_lib::set_int_range(0, 10000).contains(r) by {
            let x = choose|x: int| sel.contains(x) && f(x) == r;
            assert(crate::mft_select::selected_for_events(ps, x));
            assert(crate::mft_select::event_rank(ps, x) >= 0);
        }
    }
    vstd::set_lib::lemma_len_subset(sel.map(f), vstd::set_lib::set_int_range(0, 10000));
}


// ---------------------------------------------------------------------------
// Record scans
// ---------------------------------------------------------------------------
/// The change-journal scan finds records in increasing order of offset, each at
/// or after where the scan started.
pub proof fn law_usn_offsets_increasing(b: Seq<u8>, o: int)
    ensures
        forall|i: int| 0 <= i < crate::usn::usn_scan_offsets(b, o).len() ==> o <= #[trigger] crate::usn::usn_scan_offsets(b, o)[i],
        forall|i: int, j: int|
            0 <= i < j < crate::usn::usn_scan_offsets(b, o).len() ==> #[trigger] crate::usn::usn_scan_offsets(b, o)[i]
                < #[trigger] crate::usn::usn_scan_offsets(b, o)[j],
    decreases b.len() - o,
{
    let s = crate::usn::usn_scan_offsets(b, o);
    if !(o < 0 || o + 60 > b.len()) {
        if crate::usn::usn_record_valid(b, o) {
            reveal(crate::usn::usn_record_valid);
            let step = if crate::binary::le32(b, o) > 8 {
                crate::binary::le32(b, o)
            } else {
                8
            };
            law_usn_offsets_increasing(b, o + step);
            let rest = crate::usn::usn_scan_offsets(b, o + step);
            assert(s =~= seq![o] + rest);
            assert forall|i: int| 0 <= i < s.len() implies o <= #[trigger] s[i] by {
                if i > 0 {
                    assert(s[i] == rest[i - 1]);
                }
            }
            assert forall|i: int, j: int| 0 <= i < j < s.len() implies #[trigger] s[i] < #[trigger] s[j] by {
                assert(s[j] == rest[j - 1]);
                if i > 0 {
                    assert(s[i] == rest[i - 1]);
                }
            }
        } else {
            law_usn_offsets_increasing(b, o + 8);
            assert(s == crate::usn::usn_scan_offsets(b, o + 8));
        }
    } else {
        assert(s.len() == 0);
    }
}

/// The records of an `$MFT` image come in increasing order of position, each
/// from a whole chunk inside the image.
pub proof fn law_mft_chunks_in_order(b: Seq<u8>, c: int, start: int, idx: int)
    requires
        c > 0,
        start >= 0,
    ensures
        forall|i: int| 0 <= i < crate::mft::mft_chunks_kept(b, c, start, idx).len() ==> {
            let k = #[trigger] crate::mft::mft_chunks_kept(b, c, start, idx)[i];
            &&& idx <= k.0
            &&& start <= k.1
            &&& k.1 + c <= b.len()
        },
        forall|i: int, j: int|
            0 <= i < j < crate::mft::mft_chunks_kept(b, c, start, idx).len() ==> (#[trigger] crate::mft::mft_chunks_kept(b, c, start, idx)[i]).0
                < (#[trigger] crate::mft::mft_chunks_kept(b, c, start, idx)[j]).0,
    decreases b.len() - start,
{
    let s = crate::mft::mft_chunks_kept(b, c, start, idx);
    if !(b.len() - start < c) {
        law_mft_chunks_in_order(b, c, start + c, idx + 1);
        let rest = crate::mft::mft_chunks_kept(b, c, start + c, idx + 1);
        let chunk = b.subrange(start, start + c);
        if chunk.len() >= 48 && crate::binary::bytes_start(chunk, crate::binary::file_magic()) {
            assert(s =~= seq![(idx, start)] + rest);
            assert forall|i: int| 0 <= i < s.len() implies {
                let k = #[trigger] s[i];
                &&& idx <= k.0
                &&& start <= k.1
                &&& k.1 + c <= b.len()
            } by {
                if i > 0 {
                    assert(s[i] == rest[i - 1]);
                }
            }
            assert forall|i: int, j: int| 0 <= i < j < s.len() implies (#[trigger] s[i]).0 < (#[trigger] s[j]).0 by {
                assert(s[j] == rest[j - 1]);
                if i > 0 {
                    assert(s[i] == rest[i - 1]);
                }
            }
        } else {
            assert(s == rest);
        }
    }
}

// ---------------------------------------------------------------------------
// OneDrive signals
// ---------------------------------------------------------------------------
proof fn lemma_picked(items: Seq<(bool, int, Seq<char>)>)
    ensures
        no_repeats(crate::onedrive::picked(items).0),
        crate::onedrive::picked(items).0 == crate::onedrive::picked(items).1.map_values(
            |it: (bool, int, Seq<char>)| crate::onedrive::item_key(it),
        ),
    decreases items.len(),
{
    if items.len() > 0 {
        lemma_picked(items.drop_last());
        let (seen, out) = crate::onedrive::picked(items.drop_last());
        let it = items.last();
        if !(!crate::onedrive::considered(it) || seen.contains(crate::onedrive::item_key(it))) {
            lemma_push_no_repeats(seen, crate::onedrive::item_key(it));
            assert(out.push(it).map_values(|it: (bool, int, Seq<char>)| crate::onedrive::item_key(it))
                =~= seen.push(crate::onedrive::item_key(it)));
        }
    }
}

/// A OneDrive log gives at most twelve thousand signals, and no two of them
/// share a key: the same line, or the same string, is reported once.
pub proof fn law_onedrive_signals_once(items: Seq<(bool, int, Seq<char>)>)
    ensures
        crate::onedrive::capped(crate::onedrive::picked(items).1).len() <= 12000,
        no_repeats(
            crate::onedrive::capped(crate::onedrive::picked(items).1).map_values(
                |it: (bool, int, Seq<char>)| crate::onedrive::item_key(it),
            ),
        ),
{
    lemma_picked(items);
    let p = crate::onedrive::picked(items).1;
    let keys = p.map_values(|it: (bool, int, Seq<char>)| crate::onedrive::item_key(it));
    let c = crate::onedrive::capped(p);
    let ck = c.map_values(|it: (bool, int, Seq<char>)| crate::onedrive::item_key(it));
    assert forall|i: int, j: int| 0 <= i < j < ck.len() implies ck[i] != ck[j] by {
        assert(ck[i] == keys[i]);
        assert(ck[j] == keys[j]);
    }
}


// ---------------------------------------------------------------------------
// Case-insensitive search
// ---------------------------------------------------------------------------
proof fn lemma_ifind_from(h: Seq<u8>, n: Seq<u8>, i: int)
    requires
        i >= 0,
    ensures
        match crate::row::ifind_bytes_from(h, n, i) {
            Some(p) => i <= p && crate::row::bytes_ieq_at(h, n, p) && forall|k: int|
                i <= k < p ==> !#[trigger] crate::row::bytes_ieq_at(h, n, k),
            None => forall|k: int| i <= k ==> !#[trigger] crate::row::bytes_ieq_at(h, n, k),
        },
    decreases h.len() - i,
{
    if !(i + n.len() > h.len()) && !crate::row::bytes_ieq_at(h, n, i) {
        lemma_ifind_from(h, n, i + 1);
    }
}

/// The case-insensitive search gives the least offset at which a non-empty
/// needle occurs, ignoring ASCII case, and nothing when there is none.
pub proof fn law_icontains_least_offset(h: Seq<u8>, n: Seq<u8>)
    ensures
        match crate::row::ifind_bytes(h, n) {
            Some(p) => n.len() > 0 && crate::row::bytes_ieq_at(h, n, p) && forall|k: int|
                0 <= k < p ==> !#[trigger] crate::row::bytes_ieq_at(h, n, k),
            None => n.len() == 0 || forall|k: int| 0 <= k ==> !#[trigger] crate::row::bytes_ieq_at(h, n, k),
        },
{
    if n.len() > 0 {
        lemma_ifind_from(h, n, 0);
    }
}

// ---------------------------------------------------------------------------
// Registry signals
// ---------------------------------------------------------------------------
/// A signal whose action came from a class of its context, and that names no
/// process for a recent document or a shell folder.
pub open spec fn registry_signal_ok(
    ss: Seq<Seq<char>>,
    t: Seq<char>,
    x: (
        Seq<char>,
        Seq<char>,
        Seq<char>,
        Seq<char>,
        Option<Seq<char>>,
        Option<Seq<char>>,
        Option<Seq<char>>,
        Option<Seq<char>>,
    ),
) -> bool {
    &&& exists|idx: int| 0 <= idx < ss.len() && #[trigger] crate::classify::registry_classes(
        lower(crate::registry::context_at(ss, idx)),
        t,
    ).contains((x.0, x.1))
    &&& (x.0 == "registry_recentdocs_document"@ || x.0 == "registry_shellbag_folder"@) ==> x.4 is None
}

proof fn lemma_signal_of_fields(ctx: Seq<char>, value: Seq<char>, action: Seq<char>, severity: Seq<char>)
    ensures
        crate::registry::signal_of(ctx, value, action, severity).0 == action,
        crate::registry::signal_of(ctx, value, action, severity).1 == severity,
        (action == "registry_recentdocs_document"@ || action == "registry_shellbag_folder"@)
            ==> crate::registry::signal_of(ctx, value, action, severity).4 is None,
{
    reveal(crate::registry::signal_of);
}

#[verifier::rlimit(40)]
proof fn lemma_signals_at_ok(ss: Seq<Seq<char>>, t: Seq<char>, idx: int)
    requires
        0 <= idx < ss.len(),
    ensures
        forall|m: int| 0 <= m < crate::registry::signals_at(ss, idx, t).len() ==> registry_signal_ok(
            ss,
            t,
            #[trigger] crate::registry::signals_at(ss, idx, t)[m],
        ),
{
    let ctx = crate::registry::context_at(ss, idx);
    let classes = crate::classify::registry_classes(lower(ctx), t);
    let here = crate::registry::signals_at(ss, idx, t);
    reveal(crate::registry::signals_at);
    assert forall|m: int| 0 <= m < here.len() implies registry_signal_ok(ss, t, #[trigger] here[m]) by {
        let c = classes[m];
        assert(here[m] == crate::registry::signal_of(ctx, ss[idx], c.0, c.1));
        lemma_signal_of_fields(ctx, ss[idx], c.0, c.1);
        assert(classes.contains(c));
        assert(crate::classify::registry_classes(lower(crate::registry::context_at(ss, idx)), t).contains(
            (here[m].0, here[m].1),
        ));
    }
}

proof fn lemma_candidates_ok(ss: Seq<Seq<char>>, t: Seq<char>, n: int)
    requires
        n <= ss.len(),
    ensures
        forall|k: int| 0 <= k < crate::registry::candidate_signals(ss, t, n).len() ==> registry_signal_ok(
            ss,
            t,
            #[trigger] crate::registry::candidate_signals(ss, t, n)[k],
        ),
    decreases n,
{
    if n > 0 {
        lemma_candidates_ok(ss, t, n - 1);
        lemma_signals_at_ok(ss, t, n - 1);
        let prev = crate::registry::candidate_signals(ss, t, n - 1);
        let here = crate::registry::signals_at(ss, n - 1, t);
        let all = crate::registry::candidate_signals(ss, t, n);
        assert(all == prev + here);
        assert forall|k: int| 0 <= k < all.len() implies registry_signal_ok(ss, t, #[trigger] all[k]) by {
            if k >= prev.len() {
                assert(all[k] == here[k - prev.len()]);
            } else {
                assert(all[k] == prev[k]);
            }
        }
    }
}

proof fn lemma_dedup_keeps_members(
    cs: Seq<
        (
            Seq<char>,
            Seq<char>,
            Seq<char>,
            Seq<char>,
            Option<Seq<char>>,
            Option<Seq<char>>,
            Option<Seq<char>>,
            Option<Seq<char>>,
        ),
    >,
)
    ensures
        forall|k: int| 0 <= k < crate::registry::dedup_signals(cs).len() ==> cs.contains(
            #[trigger] crate::registry::dedup_signals(cs)[k],
        ),
        crate::registry::dedup_signals(cs).len() <= cs.len(),
    decreases cs.len(),
{
    if cs.len() > 0 {
        lemma_dedup_keeps_members(cs.drop_last());
        let d = crate::registry::dedup_signals(cs.drop_last());
        let r = crate::registry::dedup_signals(cs);
        assert forall|k: int| 0 <= k < r.len() implies cs.contains(#[trigger] r[k]) by {
            if k < d.len() {
                assert(r[k] == d[k]);
                let j = choose|j: int| 0 <= j < cs.drop_last().len() && cs.drop_last()[j] == d[k];
                assert(cs[j] == d[k]);
            } else {
                assert(r[k] == cs.last());
                assert(cs[cs.len() - 1] == cs.last());
            }
        }
    }
}

/// The signals of no strings are none; each signal's action and severity are a
/// class of the context of some string; and a recent document or a shell folder
/// names no process.
pub proof fn law_registry_signals_sound(ss: Seq<Seq<char>>, t: Seq<char>)
    ensures
        ss.len() == 0 ==> crate::registry::registry_signals(ss, t).len() == 0,
        forall|k: int| 0 <= k < crate::registry::registry_signals(ss, t).len() ==> registry_signal_ok(
            ss,
            t,
            #[trigger] crate::registry::registry_signals(ss, t)[k],
        ),
{
    let cs = crate::registry::candidate_signals(ss, t, ss.len() as int);
    lemma_candidates_ok(ss, t, ss.len() as int);
    lemma_dedup_keeps_members(cs);
    let r = crate::registry::registry_signals(ss, t);
    assert forall|k: int| 0 <= k < r.len() implies registry_signal_ok(ss, t, #[trigger] r[k]) by {
        let j = choose|j: int| 0 <= j < cs.len() && cs[j] == r[k];
        assert(registry_signal_ok(ss, t, cs[j]));
    }
}

// ---------------------------------------------------------------------------
// Domains
// ---------------------------------------------------------------------------
proof fn lemma_first_domain(parts: Seq<Seq<char>>)
    ensures
        crate::text::first_some(parts, crate::extract::domain_of_token_fn()) matches Some(d)
            ==> crate::extract::domain_text(d),
    decreases parts.len(),
{
    if parts.len() > 0 {
        lemma_first_domain(parts.drop_first());
    }
}

/// A domain taken from a text always looks like a domain.
pub proof fn law_domain_like_is_domain(text: Seq<char>)
    ensures
        crate::extract::domain_like(text) matches Some(d) ==> crate::extract::domain_text(d),
{
    lemma_first_domain(crate::extract::tokens(text));
}

// ---------------------------------------------------------------------------
// CSV fields
// ---------------------------------------------------------------------------
/// How many commas outside quotes follow position `i`, a quote being open or not.
pub open spec fn separators(s: Seq<char>, i: int, quoted: bool) -> nat
    decreases s.len() - i,
{
    if i < 0 || i >= s.len() {
        0
    } else if s[i] == '"' && quoted && i + 1 < s.len() && s[i + 1] == '"' {
        separators(s, i + 2, quoted)
    } else if s[i] == '"' {
        separators(s, i + 1, !quoted)
    } else if s[i] == ',' && !quoted {
        separators(s, i + 1, quoted) + 1
    } else {
        separators(s, i + 1, quoted)
    }
}

proof fn lemma_csv_count(s: Seq<char>, i: int, cur: Seq<char>, quoted: bool, acc: Seq<Seq<char>>)
    ensures
        crate::xml::csv_from(s, i, cur, quoted, acc).len() == acc.len() + 1 + separators(s, i, quoted),
    decreases s.len() - i,
{
    if !(i < 0 || i >= s.len()) {
        let c = s[i];
        if c == '"' && quoted && i + 1 < s.len() && s[i + 1] == '"' {
            lemma_csv_count(s, i + 2, cur.push('"'), quoted, acc);
        } else if c == '"' {
            lemma_csv_count(s, i + 1, cur, !quoted, acc);
        } else if c == ',' && !quoted {
            lemma_csv_count(s, i + 1, Seq::empty(), quoted, acc.push(trim(cur)));
        } else {
            lemma_csv_count(s, i + 1, cur.push(c), quoted, acc);
        }
    }
}

/// A CSV line has one field more than it has commas outside quotes.
pub proof fn law_csv_field_count(line: Seq<char>)
    ensures
        crate::xml::csv_fields(line).len() == 1 + separators(line, 0, false),
{
    lemma_csv_count(line, 0, Seq::empty(), false, Seq::empty());
}

/// Neither end of `f` is white space.
pub open spec fn is_trimmed(f: Seq<char>) -> bool {
    f.len() > 0 ==> !crate::text::is_ws(f[0]) && !crate::text::is_ws(f.last())
}

proof fn lemma_trim_start_head(s: Seq<char>)
    ensures
        crate::text::trim_start(s).len() > 0 ==> !crate::text::is_ws(crate::text::trim_start(s)[0]),
    decreases s.len(),
{
    if s.len() > 0 && crate::text::is_ws(s[0]) {
        lemma_trim_start_head(s.drop_first());
    }
}

proof fn lemma_trim_end_prefix(s: Seq<char>)
    ensures
        crate::text::trim_end(s).len() <= s.len(),
        crate::text::trim_end(s) =~= s.subrange(0, crate::text::trim_end(s).len() as int),
        crate::text::trim_end(s).len() > 0 ==> !crate::text::is_ws(crate::text::trim_end(s).last()),
    decreases s.len(),
{
    if s.len() > 0 && crate::text::is_ws(s.last()) {
        lemma_trim_end_prefix(s.drop_last());
    }
}

proof fn lemma_trim_is_trimmed(s: Seq<char>)
    ensures
        is_trimmed(trim(s)),
{
    let a = crate::text::trim_start(s);
    lemma_trim_start_head(s);
    lemma_trim_end_prefix(a);
    let b = crate::text::trim_end(a);
    if b.len() > 0 {
        assert(b[0] == a[0]);
    }
}

proof fn lemma_csv_trimmed(s: Seq<char>, i: int, cur: Seq<char>, quoted: bool, acc: Seq<Seq<char>>)
    requires
        forall|k: int| 0 <= k < acc.len() ==> is_trimmed(#[trigger] acc[k]),
    ensures
        forall|k: int|
            0 <= k < crate::xml::csv_from(s, i, cur, quoted, acc).len() ==> is_trimmed(
                #[trigger] crate::xml::csv_from(s, i, cur, quoted, acc)[k],
            ),
    decreases s.len() - i,
{
    if i < 0 || i >= s.len() {
        lemma_trim_is_trimmed(cur);
        let out = acc.push(trim(cur));
        assert(crate::xml::csv_from(s, i, cur, quoted, acc) == out);
        assert forall|k: int| 0 <= k < out.len() implies is_trimmed(#[trigger] out[k]) by {
            if k < acc.len() {
                assert(out[k] == acc[k]);
            }
        }
    } else {
        let c = s[i];
        if c == '"' && quoted && i + 1 < s.len() && s[i + 1] == '"' {
            lemma_csv_trimmed(s, i + 2, cur.push('"'), quoted, acc);
            assert(crate::xml::csv_from(s, i, cur, quoted, acc) == crate::xml::csv_from(s, i + 2, cur.push('"'), quoted, acc));
        } else if c == '"' {
            lemma_csv_trimmed(s, i + 1, cur, !quoted, acc);
            assert(crate::xml::csv_from(s, i, cur, quoted, acc) == crate::xml::csv_from(s, i + 1, cur, !quoted, acc));
        } else if c == ',' && !quoted {
            lemma_trim_is_trimmed(cur);
            let next = acc.push(trim(cur));
            assert forall|k: int| 0 <= k < next.len() implies is_trimmed(#[trigger] next[k]) by {
                if k < acc.len() {
                    assert(next[k] == acc[k]);
                }
            }
            lemma_csv_trimmed(s, i + 1, Seq::empty(), quoted, next);
            assert(crate::xml::csv_from(s, i, cur, quoted, acc) == crate::xml::csv_from(s, i + 1, Seq::empty(), quoted, next));
        } else {
            lemma_csv_trimmed(s, i + 1, cur.push(c), quoted, acc);
            assert(crate::xml::csv_from(s, i, cur, quoted, acc) == crate::xml::csv_from(s, i + 1, cur.push(c), quoted, acc));
        }
    }
}

/// Every field of a CSV line is trimmed: it neither begins nor ends with
/// white space.
pub proof fn law_csv_fields_trimmed(line: Seq<char>)
    ensures
        forall|k: int|
            0 <= k < crate::xml::csv_fields(line).len() ==> is_trimmed(
                #[trigger] crate::xml::csv_fields(line)[k],
            ),
{
    lemma_csv_trimmed(line, 0, Seq::empty(), false, Seq::empty());
}

// ---------------------------------------------------------------------------
// MFT selection by rank
// ---------------------------------------------------------------------------
proof fn lemma_rank_less(ps: Seq<Option<int>>, a: int, b: int)
    requires
        0 <= a < ps.len(),
        0 <= b < ps.len(),
        ps[a] is Some,
        ps[b] is Some,
        ps[a]->0 < ps[b]->0 || (ps[a]->0 == ps[b]->0 && a < b),
    ensures
        crate::mft_select::event_rank(ps, a) < crate::mft_select::event_rank(ps, b),
{
    let n = ps.len() as int;
    let p = ps[a]->0;
    let q = ps[b]->0;
    if p == q {
        lemma_count_equal_step(ps, a, b, p);
    } else {
        lemma_count_equal_step(ps, a, n, p);
        lemma_count_below_grows(ps, n, p, q);
    }
}

/// Up to fifty thousand records, every record is chosen, in order. Beyond,
/// every chosen record has a priority, and comes before every record with a
/// priority that is not chosen, by priority and then by index.
pub proof fn law_mft_selection_by_rank(rs: Seq<crate::mft::MftNativeRecord>)
    ensures
        rs.len() <= 50000 ==> crate::mft_select::event_selection(rs) == Seq::new(
            rs.len(),
            |i: int| i,
        ),
        rs.len() > 50000 ==> ({
            let ps = crate::mft_select::priorities(rs);
            let v = crate::mft_select::event_selection(rs);
            &&& forall|k: int| 0 <= k < v.len() ==> ps[#[trigger] v[k]] is Some
            &&& forall|i: int, j: int|
                #![trigger v.contains(i), ps[j]]
                v.contains(i) && 0 <= j < rs.len() && ps[j] is Some && !v.contains(j) ==> (ps[i]->0
                    < ps[j]->0 || (ps[i]->0 == ps[j]->0 && i < j))
        }),
{
    if rs.len() > 50000 {
        let ps = crate::mft_select::priorities(rs);
        let n = rs.len() as int;
        lemma_selected_indices(ps, n);
        let v = crate::mft_select::event_selection(rs);
        assert forall|k: int| 0 <= k < v.len() implies ps[#[trigger] v[k]] is Some by {
            assert(v.contains(v[k]));
            assert(crate::mft_select::selected_for_events(ps, v[k]));
        }
        assert forall|i: int, j: int|
            v.contains(i) && 0 <= j < rs.len() && ps[j] is Some && !v.contains(j) implies (ps[i]->0
                < ps[j]->0 || (ps[i]->0 == ps[j]->0 && i < j)) by {
            let k = choose|k: int| 0 <= k < v.len() && v[k] == i;
            assert(0 <= i < n);
            assert(crate::mft_select::selected_for_events(ps, i));
            assert(!crate::mft_select::selected_for_events(ps, j));
            if ps[j]->0 < ps[i]->0 || (ps[j]->0 == ps[i]->0 && j < i) {
                lemma_rank_less(ps, j, i);
            }
            if i == j {
                assert(v.contains(j));
            }
        }
    }
}


// ---------------------------------------------------------------------------
// MFT selection size
// ---------------------------------------------------------------------------
/// How many of the first `m` records have a priority.
pub open spec fn count_some(ps: Seq<Option<int>>, m: int) -> nat
    decreases m,
{
    if m <= 0 {
        0
    } else {
        count_some(ps, m - 1) + if ps[m - 1] is Some {
            1nat
        } else {
            0nat
        }
    }
}

/// The records below `m` that have a priority.
pub open spec fn with_priority(ps: Seq<Option<int>>, m: int) -> Set<int> {
    Set::new(|i: int| 0 <= i < m && ps[i] is Some)
}

proof fn lemma_count_some_set(ps: Seq<Option<int>>, m: int)
    requires
        m >= 0,
    ensures
        with_priority(ps, m).finite(),
        with_priority(ps, m).len() == count_some(ps, m),
    decreases m,
{
    if m == 0 {
        assert(with_priority(ps, 0) =~= Set::<int>::empty());
    } else {
        lemma_count_some_set(ps, m - 1);
        if ps[m - 1] is Some {
            assert(with_priority(ps, m) =~= with_priority(ps, m - 1).insert(m - 1));
        } else {
            assert(with_priority(ps, m) =~= with_priority(ps, m - 1));
        }
    }
}

proof fn lemma_below_equal_some(ps: Seq<Option<int>>, m: int, p: int)
    requires
        m >= 0,
    ensures
        crate::mft_select::count_below(ps, m, p) + crate::mft_select::count_equal(ps, m, p) <= count_some(ps, m),
    decreases m,
{
    if m > 0 {
        lemma_below_equal_some(ps, m - 1, p);
    }
}

/// Beyond fifty thousand records, the number chosen is the smaller of ten
/// thousand and the number of records with a priority.
pub proof fn law_mft_selection_count(rs: Seq<crate::mft::MftNativeRecord>)
    ensures
        rs.len() > 50000 ==> crate::mft_select::event_selection(rs).len() == (if with_priority(
            crate::mft_select::priorities(rs),
            rs.len() as int,
        ).len() < 10000 {
            with_priority(crate::mft_select::priorities(rs), rs.len() as int).len()
        } else {
            10000
        }),
{
    if rs.len() > 50000 {
        let ps = crate::mft_select::priorities(rs);
        let n = rs.len() as int;
        let sset = with_priority(ps, n);
        lemma_count_some_set(ps, n);
        let c = count_some(ps, n) as int;
        let k: int = if c < 10000 { c } else { 10000 };
        let f = |i: int| crate::mft_select::event_rank(ps, i);
        assert(vstd::relations::injective_on(f, sset)) by {
            assert forall|x: int, y: int| sset.contains(x) && sset.contains(y) && #[trigger] f(x) == #[trigger] f(y) implies x == y by {
                if x < y {
                    lemma_rank_order(ps, x, y);
                } else if y < x {
                    lemma_rank_order(ps, y, x);
                }
            }
        }
        let ranks = sset.map(f);
        lemma_map_size(sset, ranks, f);
        vstd::set_lib::lemma_int_range(0, c);
        assert(ranks.subset_of(vstd::set_lib::set_int_range(0, c))) by {
            assert forall|r: int| ranks.contains(r) implies vstd::set_lib::set_int_range(0, c).contains(r) by {
                let i = choose|i: int| sset.contains(i) && f(i) == r;
                let p = ps[i]->0;
                lemma_below_equal_some(ps, n, p);
                lemma_count_equal_step(ps, i, n, p);
            }
        }
        vstd::set_lib::lemma_subset_equality(ranks, vstd::set_lib::set_int_range(0, c));
        let sel = Set::new(|i: int| 0 <= i < n && crate::mft_select::selected_for_events(ps, i));
        assert(sel.subset_of(sset));
        vstd::set_lib::lemma_len_subset(sel, sset);
        assert(vstd::relations::injective_on(f, sel));
        assert(sel.map(f) =~= vstd::set_lib::set_int_range(0, k)) by {
            assert forall|r: int| sel.map(f).contains(r) implies vstd::set_lib::set_int_range(0, k).contains(r) by {
                let i = choose|i: int| sel.contains(i) && f(i) == r;
                assert(ranks.contains(f(i)));
            }
            assert forall|r: int| vstd::set_lib::set_int_range(0, k).contains(r) implies sel.map(f).contains(r) by {
                assert(vstd::set_lib::set_int_range(0, c).contains(r));
                assert(ranks.contains(r));
                let i = choose|i: int| sset.contains(i) && f(i) == r;
                assert(sel.contains(i));
            }
        }
        lemma_map_size(sel, vstd::set_lib::set_int_range(0, k), f);
        vstd::set_lib::lemma_int_range(0, k);
        lemma_selected_indices(ps, n);
        let v = crate::mft_select::selected_indices(ps, n);
        assert(v.no_duplicates()) by {
            assert forall|a: int, b: int| 0 <= a < v.len() && 0 <= b < v.len() && a != b implies v[a] != v[b] by {
                if a < b {
                    assert(v[a] < v[b]);
                } else {
                    assert(v[b] < v[a]);
                }
            }
        }
        v.unique_seq_to_set();
        assert(v.to_set() =~= sel) by {
            assert forall|i: int| v.to_set().contains(i) implies sel.contains(i) by {
                let j = choose|j: int| 0 <= j < v.len() && v[j] == i;
                assert(v.contains(i));
            }
            assert forall|i: int| sel.contains(i) implies v.to_set().contains(i) by {
                assert(v.contains(i));
            }
        }
        assert(crate::mft_select::event_selection(rs) == v);
    }
}

// ---------------------------------------------------------------------------
// Base64 round trip
// ---------------------------------------------------------------------------
/// The character of the standard base64 alphabet for the 6-bit value `v`.
pub open spec fn b64_char(v: int) -> char {
    if v < 26 {
        (65 + v) as char
    } else if v < 52 {
        (97 + v - 26) as char
    } else if v < 62 {
        (48 + v - 52) as char
    } else if v == 62 {
        '+'
    } else {
        '/'
    }
}

/// Byte `i` of `b`, or zero past its end.
pub open spec fn byte_or_zero(b: Seq<u8>, i: int) -> int {
    if 0 <= i < b.len() {
        b[i] as int
    } else {
        0
    }
}

/// The 6-bit value at position `i` of the encoding of `b`: each three bytes
/// give four values, read most significant bit first.
pub open spec fn b64_enc_value(b: Seq<u8>, i: int) -> int {
    let g = i / 4;
    let b0 = byte_or_zero(b, 3 * g);
    let b1 = byte_or_zero(b, 3 * g + 1);
    let b2 = byte_or_zero(b, 3 * g + 2);
    if i % 4 == 0 {
        b0 / 4
    } else if i % 4 == 1 {
        (b0 % 4) * 16 + b1 / 16
    } else if i % 4 == 2 {
        (b1 % 16) * 4 + b2 / 64
    } else {
        b2 % 64
    }
}

/// How many characters encode `n` bytes, padding left out.
pub open spec fn b64_enc_len(n: int) -> int {
    4 * (n / 3) + if n % 3 == 1 {
        2int
    } else if n % 3 == 2 {
        3int
    } else {
        0int
    }
}

pub open spec fn b64_enc_values(b: Seq<u8>) -> Seq<int> {
    Seq::new(b64_enc_len(b.len() as int) as nat, |i: int| b64_enc_value(b, i))
}

/// The `=` signs that pad the encoding of `n` bytes.
pub open spec fn b64_padding(n: int) -> Seq<char> {
    if n % 3 == 1 {
        seq!['=', '=']
    } else if n % 3 == 2 {
        seq!['=']
    } else {
        Seq::empty()
    }
}

/// The standard base64 encoding of `b` (RFC 4648), with padding.
pub open spec fn b64_encode(b: Seq<u8>) -> Seq<char> {
    b64_enc_values(b).map_values(|v: int| b64_char(v)) + b64_padding(b.len() as int)
}

proof fn lemma_b64_char_value(v: int)
    requires
        0 <= v < 64,
    ensures
        crate::filezilla::b64_value(b64_char(v)) == Some(v),
        !crate::filezilla::ascii_ws(b64_char(v)),
        b64_char(v) != '=',
{
}

proof fn lemma_b64_scan(vs: Seq<int>, pad: Seq<char>, i: int)
    requires
        0 <= i <= vs.len(),
        forall|k: int| 0 <= k < vs.len() ==> 0 <= #[trigger] vs[k] < 64,
        pad.len() == 0 || pad[0] == '=',
    ensures
        crate::filezilla::b64_values(vs.map_values(|v: int| b64_char(v)) + pad, i, vs.take(i))
            == Some(vs),
    decreases vs.len() - i,
{
    let s = vs.map_values(|v: int| b64_char(v)) + pad;
    if i < vs.len() {
        lemma_b64_char_value(vs[i]);
        assert(s[i] == b64_char(vs[i]));
        assert(vs.take(i).push(vs[i]) =~= vs.take(i + 1));
        lemma_b64_scan(vs, pad, i + 1);
    } else {
        assert(vs.take(i) =~= vs);
        if pad.len() > 0 {
            assert(s[i] == pad[0]);
        }
    }
}

proof fn lemma_b64_enc_range(b: Seq<u8>, i: int)
    ensures
        0 <= b64_enc_value(b, i) < 64,
{
    let g = i / 4;
    let b0 = byte_or_zero(b, 3 * g);
    let b1 = byte_or_zero(b, 3 * g + 1);
    let b2 = byte_or_zero(b, 3 * g + 2);
    assert(0 <= b0 < 256 && 0 <= b1 < 256 && 0 <= b2 < 256);
}

proof fn lemma_b64_byte_back(b: Seq<u8>, k: int)
    requires
        0 <= k < b.len(),
    ensures
        crate::filezilla::b64_byte(b64_enc_values(b), k) == b[k] as int,
{
    let vals = b64_enc_values(b);
    let n = b.len() as int;
    let q = k / 3;
    let r = k % 3;
    let j = 4 * q + r;
    assert(k == 3 * q + r && 0 <= r < 3);
    assert(j + 1 < b64_enc_len(n));
    assert(j / 4 == q && j % 4 == r);
    assert((j + 1) / 4 == q && (j + 1) % 4 == r + 1);
    assert(vals[j] == b64_enc_value(b, j));
    assert(vals[j + 1] == b64_enc_value(b, j + 1));
    let b0 = byte_or_zero(b, 3 * q);
    let b1 = byte_or_zero(b, 3 * q + 1);
    let b2 = byte_or_zero(b, 3 * q + 2);
    assert(0 <= b0 < 256 && 0 <= b1 < 256 && 0 <= b2 < 256);
    assert(byte_or_zero(b, k) == b[k] as int);
    if r == 0 {
        assert((b0 / 4) * 4 + ((b0 % 4) * 16 + b1 / 16) / 16 == b0) by (nonlinear_arith)
            requires
                0 <= b0 < 256,
                0 <= b1 < 256,
        ;
    } else if r == 1 {
        assert((((b0 % 4) * 16 + b1 / 16) % 16) * 16 + ((b1 % 16) * 4 + b2 / 64) / 4 == b1)
            by (nonlinear_arith)
            requires
                0 <= b0 < 256,
                0 <= b1 < 256,
                0 <= b2 < 256,
        ;
    } else {
        assert((((b1 % 16) * 4 + b2 / 64) % 4) * 64 + b2 % 64 == b2) by (nonlinear_arith)
            requires
                0 <= b1 < 256,
                0 <= b2 < 256,
        ;
    }
}

proof fn lemma_b64_bytes_back(b: Seq<u8>)
    ensures
        crate::filezilla::b64_bytes(b64_enc_values(b)) == b,
{
    let vals = b64_enc_values(b);
    let n = b.len() as int;
    assert(6 * b64_enc_len(n) / 8 == n);
    let out = crate::filezilla::b64_bytes(vals);
    assert forall|k: int| 0 <= k < n implies #[trigger] out[k] == b[k] by {
        lemma_b64_byte_back(b, k);
    }
    assert(out =~= b);
}

/// Decoding the standard base64 encoding of a text's UTF-8 bytes gives the
/// text back, for every text that cleaning leaves as it is.
pub proof fn law_base64_round_trip(s: Seq<char>)
    requires
        clean(s) == Some(s),
    ensures
        crate::filezilla::base64_text(b64_encode(vstd::utf8::encode_utf8(s))) == Some(s),
{
    let b = vstd::utf8::encode_utf8(s);
    let vals = b64_enc_values(b);
    assert forall|k: int| 0 <= k < vals.len() implies 0 <= #[trigger] vals[k] < 64 by {
        lemma_b64_enc_range(b, k);
    }
    lemma_b64_scan(vals, b64_padding(b.len() as int), 0);
    assert(vals.take(0) =~= Seq::<int>::empty());
    lemma_b64_bytes_back(b);
    vstd::utf8::encode_utf8_valid_utf8(s);
    vstd::utf8::encode_utf8_decode_utf8(s);
}

// ---------------------------------------------------------------------------
// JSON fields by name
// ---------------------------------------------------------------------------
/// No two pairs share a name.
pub open spec fn names_distinct(out: Seq<(Seq<char>, Seq<char>)>) -> bool {
    forall|k: int, l: int| 0 <= k < l < out.len() ==> #[trigger] out[k].0 != #[trigger] out[l].0
}

proof fn lemma_kept_first(out: Seq<(Seq<char>, Seq<char>)>, p: (Seq<char>, Seq<char>))
    requires
        names_distinct(out),
    ensures
        names_distinct(crate::json::kept_first(out, p)),
        crate::json::has_name(crate::json::kept_first(out, p), p.0),
        crate::json::kept_first(out, p).len() >= out.len(),
        crate::json::kept_first(out, p).take(out.len() as int) == out,
{
    let r = crate::json::kept_first(out, p);
    if !crate::json::has_name(out, p.0) {
        assert(r[out.len() as int].0 == p.0);
        assert forall|k: int, l: int| 0 <= k < l < r.len() implies #[trigger] r[k].0 != #[trigger] r[l].0 by {
            if l == out.len() {
                assert(r[k] == out[k]);
                assert(r[l] == p);
            } else {
                assert(r[k] == out[k] && r[l] == out[l]);
            }
        }
    }
    assert(r.take(out.len() as int) =~= out);
}

proof fn lemma_kept_all(out: Seq<(Seq<char>, Seq<char>)>, ps: Seq<(Seq<char>, Seq<char>)>)
    requires
        names_distinct(out),
    ensures
        names_distinct(crate::json::kept_all(out, ps)),
        crate::json::kept_all(out, ps).len() >= out.len(),
        crate::json::kept_all(out, ps).take(out.len() as int) == out,
        forall|k: int| 0 <= k < ps.len() ==> crate::json::has_name(crate::json::kept_all(out, ps), #[trigger] ps[k].0),
    decreases ps.len(),
{
    if ps.len() > 0 {
        let o1 = crate::json::kept_first(out, ps[0]);
        lemma_kept_first(out, ps[0]);
        lemma_kept_all(o1, ps.drop_first());
        let r = crate::json::kept_all(out, ps);
        assert(r == crate::json::kept_all(o1, ps.drop_first()));
        assert(r.take(out.len() as int) =~= r.take(o1.len() as int).take(out.len() as int));
        assert forall|k: int| 0 <= k < ps.len() implies crate::json::has_name(r, #[trigger] ps[k].0) by {
            if k == 0 {
                let j = choose|j: int| 0 <= j < o1.len() && #[trigger] o1[j].0 == ps[0].0;
                assert(r[j] == r.take(o1.len() as int)[j]);
                assert(r[j].0 == ps[0].0);
            } else {
                assert(ps[k] == ps.drop_first()[k - 1]);
            }
        }
    }
}

/// Flattening a JSON value into pairs whose names are distinct keeps them
/// distinct, leaves the pairs already there as they were, and gives every
/// scalar field of the value a pair under its name: the first value of a name
/// is the one kept.
pub proof fn law_flatten_first_value_kept(out: Seq<(Seq<char>, Seq<char>)>, v: crate::json::JsonNode)
    requires
        names_distinct(out),
    ensures
        names_distinct(crate::json::kept_all(out, crate::json::named_scalars(v))),
        crate::json::kept_all(out, crate::json::named_scalars(v)).take(out.len() as int) == out,
        forall|k: int|
            0 <= k < crate::json::named_scalars(v).len() ==> crate::json::has_name(
                crate::json::kept_all(out, crate::json::named_scalars(v)),
                #[trigger] crate::json::named_scalars(v)[k].0,
            ),
{
    lemma_kept_all(out, crate::json::named_scalars(v));
}

// ---------------------------------------------------------------------------
// MFT path walk
// ---------------------------------------------------------------------------
#[verifier::spinoff_prover]
/// The path walk only adds to the cache: every cached path stays as it was.
/// A walk deeper than 64 finds nothing and changes nothing, and a path that is
/// found is left in the cache under its record.
pub proof fn law_path_walk_keeps_cache(
    m: Map<u64, crate::mft::MftPathEntry>,
    c: Map<u64, Seq<char>>,
    v: Set<u64>,
    rec: u64,
    depth: int,
)
    ensures
        ({
            let (p, c2) = crate::mft::path_inner(m, c, v, rec, depth);
            &&& forall|k: u64| c.contains_key(k) ==> #[trigger] c2.contains_key(k) && c2[k] == c[k]
            &&& depth > 64 ==> p is None && c2 == c
            &&& p matches Some(s) ==> c2.contains_key(rec) && c2[rec] == s
        }),
    decreases 65 - depth,
{
    if !(depth > 64 || depth < 0) && !c.contains_key(rec) && !v.contains(rec) && m.contains_key(rec) {
        let e = m[rec];
        if let Some(name) = e.file_name {
            if !(name@ == "."@ || e.parent_record_number == Some(rec)) {
                if let Some(par) = crate::mft::trusted_parent(m, e) {
                    law_path_walk_keeps_cache(m, c, v.insert(rec), par, depth + 1);
                    let (pp, cr) = crate::mft::path_inner(m, c, v.insert(rec), par, depth + 1);
                    let path = crate::mft::join_path(pp, name@);
                    assert(crate::mft::path_inner(m, c, v, rec, depth) == (
                        Some(path),
                        cr.insert(rec, path),
                    ));
                    assert forall|k: u64| c.contains_key(k) implies #[trigger] cr.insert(
                        rec,
                        path,
                    ).contains_key(k) && cr.insert(rec, path)[k] == c[k] by {
                        assert(k != rec);
                        assert(cr.contains_key(k));
                    }
                }
            }
        }
    }
}

// ---------------------------------------------------------------------------
// Routing
// ---------------------------------------------------------------------------
/// The structured parser declines an input exactly when its original path is
/// blank; every other input is routed to some reader.
pub proof fn law_route_unsupported_iff_blank_path(
    t: Seq<char>,
    p: Seq<char>,
    b: Seq<u8>,
    r: crate::route::ParseRoute,
)
    requires
        crate::route::route_ok(t, p, b, r),
    ensures
        (r is Unsupported) <==> trim(p).len() == 0,
{
}

// ---------------------------------------------------------------------------
// GUIDs
// ---------------------------------------------------------------------------
pub open spec fn is_lower_hex(c: char) -> bool {
    ('0' <= c && c <= '9') || ('a' <= c && c <= 'f')
}

proof fn lemma_hex_of_shape(b: Seq<u8>)
    ensures
        crate::decode::hex_of(b).len() == 2 * b.len(),
        forall|i: int| 0 <= i < 2 * b.len() ==> is_lower_hex(#[trigger] crate::decode::hex_of(b)[i]),
    decreases b.len(),
{
    if b.len() > 0 {
        lemma_hex_of_shape(b.drop_last());
        let h = crate::decode::hex_of(b);
        let h0 = crate::decode::hex_of(b.drop_last());
        let x = b.last() as int;
        assert(h == h0 + seq![crate::decode::hex_digit(x / 16), crate::decode::hex_digit(x % 16)]);
        assert forall|i: int| 0 <= i < 2 * b.len() implies is_lower_hex(#[trigger] h[i]) by {
            if i < h0.len() {
                assert(h[i] == h0[i]);
            }
        }
    }
}

/// A GUID read from sixteen bytes or more renders as 36 characters: lower-case
/// hexadecimal digits with dashes at 8, 13, 18 and 23. Bytes past the sixteenth
/// are ignored, and fewer than sixteen render as nothing.
pub proof fn law_guid_shape(b: Seq<u8>)
    ensures
        b.len() < 16 ==> crate::decode::guid_text(b).len() == 0,
        b.len() >= 16 ==> {
            let g = crate::decode::guid_text(b);
            &&& g.len() == 36
            &&& g == crate::decode::guid_text(b.take(16))
            &&& forall|i: int|
                0 <= i < 36 ==> (if i == 8 || i == 13 || i == 18 || i == 23 {
                    #[trigger] g[i] == '-'
                } else {
                    is_lower_hex(g[i])
                })
        },
{
    if b.len() >= 16 {
        reveal_strlit("-");
        let a = seq![b[3], b[2], b[1], b[0]];
        let c2 = seq![b[5], b[4]];
        let c3 = seq![b[7], b[6]];
        let c4 = b.subrange(8, 10);
        let c5 = b.subrange(10, 16);
        lemma_hex_of_shape(a);
        lemma_hex_of_shape(c2);
        lemma_hex_of_shape(c3);
        lemma_hex_of_shape(c4);
        lemma_hex_of_shape(c5);
        let t = b.take(16);
        assert(t.subrange(8, 10) =~= c4);
        assert(t.subrange(10, 16) =~= c5);
        let d = "-"@;
        let g = crate::decode::guid_text(b);
        let ha = crate::decode::hex_of(a);
        let h2 = crate::decode::hex_of(c2);
        let h3 = crate::decode::hex_of(c3);
        let h4 = crate::decode::hex_of(c4);
        let h5 = crate::decode::hex_of(c5);
        assert(g == ha + d + h2 + d + h3 + d + h4 + d + h5);
        assert forall|i: int| 0 <= i < 36 implies (if i == 8 || i == 13 || i == 18 || i == 23 {
            #[trigger] g[i] == '-'
        } else {
            is_lower_hex(g[i])
        }) by {
            if i < 8 {
                assert(g[i] == ha[i]);
            } else if i == 8 {
            } else if i < 13 {
                assert(g[i] == h2[i - 9]);
            } else if i == 13 {
            } else if i < 18 {
                assert(g[i] == h3[i - 14]);
            } else if i == 18 {
            } else if i < 23 {
                assert(g[i] == h4[i - 19]);
            } else if i == 23 {
            } else {
                assert(g[i] == h5[i - 24]);
            }
        }
    }
}

// ---------------------------------------------------------------------------
// Data runs
// ---------------------------------------------------------------------------
proof fn lemma_runs_shape(b: Seq<u8>, cursor: int, lcn: i64, vcn: u64, count: int)
    requires
        0 <= count <= 16,
    ensures
        ({
            let rs = crate::mft::data_runs_from(b, cursor, lcn, vcn, count);
            &&& rs.len() <= 16 - count
            &&& rs.len() > 0 ==> rs[0].vcn_start == vcn
            &&& forall|i: int| 0 <= i < rs.len() ==> (#[trigger] rs[i]).sparse == rs[i].lcn is None
            &&& forall|i: int|
                0 <= i < rs.len() - 1 ==> #[trigger] rs[i + 1].vcn_start == crate::mft::sat_u64(
                    rs[i].vcn_start as int,
                    rs[i].cluster_count as int,
                )
        }),
    decreases b.len() - cursor,
{
    if !(cursor < 0 || cursor >= b.len() || count >= 16) {
        let header = b[cursor];
        let c1 = cursor + 1;
        let ls = header % 16;
        let os = header / 16;
        if !(header == 0 || ls == 0 || ls > 8 || os > 8 || c1 + ls + os > b.len()) {
            let rs = crate::mft::data_runs_from(b, cursor, lcn, vcn, count);
            let run = rs[0];
            let next_lcn = match run.lcn {
                Some(l) => l,
                None => lcn,
            };
            let next_vcn = crate::mft::sat_u64(vcn as int, run.cluster_count as int);
            let tail = crate::mft::data_runs_from(b, c1 + ls + os, next_lcn, next_vcn, count + 1);
            lemma_runs_shape(b, c1 + ls + os, next_lcn, next_vcn, count + 1);
            assert(rs == seq![run] + tail);
            assert forall|i: int| 0 <= i < rs.len() implies (#[trigger] rs[i]).sparse == rs[i].lcn is None by {
                if i > 0 {
                    assert(rs[i] == tail[i - 1]);
                }
            }
            assert forall|i: int| 0 <= i < rs.len() - 1 implies #[trigger] rs[i + 1].vcn_start
                == crate::mft::sat_u64(rs[i].vcn_start as int, rs[i].cluster_count as int) by {
                assert(rs[i + 1] == tail[i]);
                if i > 0 {
                    let j = i - 1;
                    assert(rs[i] == tail[j]);
                    assert(tail[j + 1].vcn_start == crate::mft::sat_u64(
                        tail[j].vcn_start as int,
                        tail[j].cluster_count as int,
                    ));
                } else {
                    assert(tail[0].vcn_start == next_vcn);
                }
            }
        }
    }
}

/// The data runs of a run list number at most sixteen; the first starts at
/// VCN zero and each next one where the one before ends (saturating); a run is
/// sparse exactly when it has no cluster number.
pub proof fn law_data_runs_continuous(b: Seq<u8>)
    ensures
        ({
            let rs = crate::mft::data_runs_from(b, 0, 0, 0, 0);
            &&& rs.len() <= 16
            &&& rs.len() > 0 ==> rs[0].vcn_start == 0
            &&& forall|i: int| 0 <= i < rs.len() ==> (#[trigger] rs[i]).sparse == rs[i].lcn is None
            &&& forall|i: int|
                0 <= i < rs.len() - 1 ==> #[trigger] rs[i + 1].vcn_start == crate::mft::sat_u64(
                    rs[i].vcn_start as int,
                    rs[i].cluster_count as int,
                )
        }),
{
    lemma_runs_shape(b, 0, 0, 0, 0);
}

// ---------------------------------------------------------------------------
// MFT record header
// ---------------------------------------------------------------------------
proof fn lemma_walk_counts(f: Seq<u8>, offs: Seq<int>)
    ensures
        crate::mft::walk(f, offs).count == crate::mft::walk(f, offs).summaries.len(),
    decreases offs.len(),
{
    if offs.len() > 0 {
        lemma_walk_counts(f, offs.drop_last());
    }
}

proof fn lemma_flag_bits(lo: u8, hi: u8)
    ensures
        (lo as int + 256 * hi) % 2 == lo as int % 2,
        (lo as int + 256 * hi) / 2 % 2 == lo as int / 2 % 2,
{
    assert((lo as int + 256 * hi) % 2 == lo as int % 2) by (nonlinear_arith);
    assert((lo as int + 256 * hi) / 2 == lo as int / 2 + 128 * hi) by (nonlinear_arith);
    assert((lo as int / 2 + 128 * hi) % 2 == lo as int / 2 % 2) by (nonlinear_arith);
}

/// A parsed MFT record takes its sequence number and its in-use and directory
/// flags from the record's raw bytes (the fixup only rewrites sector ends), and
/// counts exactly the attributes it lists.
pub proof fn law_mft_record_header_from_raw(
    record: Seq<u8>,
    number: u64,
    size: usize,
    out: crate::mft::MftNativeRecord,
)
    requires
        record.len() >= 48,
        crate::mft::mft_record_of(record, number, size, out),
    ensures
        out.sequence_number == crate::binary::le16(record, 0x10),
        out.in_use == (record[0x16] % 2 == 1),
        out.is_directory == (record[0x16] / 2 % 2 == 1),
        out.attribute_count == out.attributes@.len(),
{
    let f = crate::mft::mft_fixed(record);
    if crate::mft::fixup_ok(record) {
        let up = crate::binary::le16(record, 6);
        assert(f[0x10] == crate::mft::fixup_byte(record, 0x10, up));
        assert(f[0x11] == crate::mft::fixup_byte(record, 0x11, up));
        assert(f[0x16] == crate::mft::fixup_byte(record, 0x16, up));
        assert(f[0x17] == crate::mft::fixup_byte(record, 0x17, up));
    }
    assert(f[0x10] == record[0x10] && f[0x11] == record[0x11]);
    assert(f[0x16] == record[0x16] && f[0x17] == record[0x17]);
    lemma_flag_bits(record[0x16], record[0x17]);
    let w = crate::mft::record_walk(f);
    let limit = if crate::binary::le32(f, 0x18) < f.len() {
        crate::binary::le32(f, 0x18)
    } else {
        f.len() as int
    };
    let offs = crate::mft::mft_attr_offsets(f, crate::binary::le16(f, 0x14), limit);
    lemma_walk_counts(f, offs);
    assert(w == crate::mft::walk(f, offs));
    assert(w.count == w.summaries.len());
    assert(crate::mft::summaries_of(w.summaries, out.attributes@));
    reveal(crate::mft::summaries_of);
    assert(out.attributes@.len() == w.summaries.len());
    assert(out.attribute_count == w.count);
}

// ---------------------------------------------------------------------------
// USN reason names
// ---------------------------------------------------------------------------
proof fn lemma_flag_names_contain(reason: u32, fs: Seq<(u32, Seq<char>)>, x: Seq<char>)
    ensures
        crate::usn::set_flag_names(reason, fs).contains(x) <==> exists|k: int|
            0 <= k < fs.len() && #[trigger] fs[k].1 == x && reason & fs[k].0 != 0,
    decreases fs.len(),
{
    if fs.len() > 0 {
        let d = fs.drop_last();
        lemma_flag_names_contain(reason, d, x);
        let rest = crate::usn::set_flag_names(reason, d);
        if exists|k: int| 0 <= k < fs.len() && #[trigger] fs[k].1 == x && reason & fs[k].0 != 0 {
            let k = choose|k: int| 0 <= k < fs.len() && #[trigger] fs[k].1 == x && reason & fs[k].0 != 0;
            if k < d.len() {
                assert(d[k] == fs[k]);
                assert(rest.contains(x));
                if reason & fs.last().0 != 0 {
                    let j = choose|j: int| 0 <= j < rest.len() && rest[j] == x;
                    assert(rest.push(fs.last().1)[j] == x);
                }
            } else {
                assert(rest.push(fs.last().1)[rest.len() as int] == x);
            }
        } else {
            if rest.contains(x) {
                let k = choose|k: int| 0 <= k < d.len() && #[trigger] d[k].1 == x && reason & d[k].0 != 0;
                assert(fs[k] == d[k]);
            }
            if reason & fs.last().0 != 0 {
                if rest.push(fs.last().1).contains(x) {
                    let j = choose|j: int| 0 <= j < rest.push(fs.last().1).len() && rest.push(fs.last().1)[j] == x;
                    if j < rest.len() {
                        assert(rest[j] == x);
                    } else {
                        assert(fs[fs.len() - 1].1 == x);
                    }
                }
            }
        }
    }
}

/// The names of the flags of `fs`, pairwise distinct.
pub open spec fn flag_names_distinct(fs: Seq<(u32, Seq<char>)>) -> bool {
    forall|i: int, j: int| 0 <= i < fs.len() && 0 <= j < fs.len() && i != j ==> #[trigger] fs[i].1 != #[trigger] fs[j].1
}

/// The reason of a journal record is read by the NTFS names of its bits: each
/// name occurs among the names of a reason exactly when its bit is set (so
/// `0x100` is `FILE_CREATE`, `0x200` is `FILE_DELETE` and `0x80000000` is
/// `CLOSE`). The text of a reason is those names joined by `|`, or `0x` and
/// eight hexadecimal digits when no named bit is set.
pub proof fn law_usn_reason_names(reason: u32)
    ensures
        crate::usn::set_flag_names(reason, crate::usn::usn_flags()).contains("DATA_OVERWRITE"@) <==> reason & 0x00000001u32 != 0,
        crate::usn::set_flag_names(reason, crate::usn::usn_flags()).contains("DATA_EXTEND"@) <==> reason & 0x00000002u32 != 0,
        crate::usn::set_flag_names(reason, crate::usn::usn_flags()).contains("DATA_TRUNCATION"@) <==> reason & 0x00000004u32 != 0,
        crate::usn::set_flag_names(reason, crate::usn::usn_flags()).contains("NAMED_DATA_OVERWRITE"@) <==> reason & 0x00000010u32 != 0,
        crate::usn::set_flag_names(reason, crate::usn::usn_flags()).contains("NAMED_DATA_EXTEND"@) <==> reason & 0x00000020u32 != 0,
        crate::usn::set_flag_names(reason, crate::usn::usn_flags()).contains("NAMED_DATA_TRUNCATION"@) <==> reason & 0x00000040u32 != 0,
        crate::usn::set_flag_names(reason, crate::usn::usn_flags()).contains("FILE_CREATE"@) <==> reason & 0x00000100u32 != 0,
        crate::usn::set_flag_names(reason, crate::usn::usn_flags()).contains("FILE_DELETE"@) <==> reason & 0x00000200u32 != 0,
        crate::usn::set_flag_names(reason, crate::usn::usn_flags()).contains("EA_CHANGE"@) <==> reason & 0x00000400u32 != 0,
        crate::usn::set_flag_names(reason, crate::usn::usn_flags()).contains("SECURITY_CHANGE"@) <==> reason & 0x00000800u32 != 0,
        crate::usn::set_flag_names(reason, crate::usn::usn_flags()).contains("RENAME_OLD_NAME"@) <==> reason & 0x00001000u32 != 0,
        crate::usn::set_flag_names(reason, crate::usn::usn_flags()).contains("RENAME_NEW_NAME"@) <==> reason & 0x00002000u32 != 0,
        crate::usn::set_flag_names(reason, crate::usn::usn_flags()).contains("INDEXABLE_CHANGE"@) <==> reason & 0x00004000u32 != 0,
        crate::usn::set_flag_names(reason, crate::usn::usn_flags()).contains("BASIC_INFO_CHANGE"@) <==> reason & 0x00008000u32 != 0,
        crate::usn::set_flag_names(reason, crate::usn::usn_flags()).contains("HARD_LINK_CHANGE"@) <==> reason & 0x00010000u32 != 0,
        crate::usn::set_flag_names(reason, crate::usn::usn_flags()).contains("COMPRESSION_CHANGE"@) <==> reason & 0x00020000u32 != 0,
        crate::usn::set_flag_names(reason, crate::usn::usn_flags()).contains("ENCRYPTION_CHANGE"@) <==> reason & 0x00040000u32 != 0,
        crate::usn::set_flag_names(reason, crate::usn::usn_flags()).contains("OBJECT_ID_CHANGE"@) <==> reason & 0x00080000u32 != 0,
        crate::usn::set_flag_names(reason, crate::usn::usn_flags()).contains("REPARSE_POINT_CHANGE"@) <==> reason & 0x00100000u32 != 0,
        crate::usn::set_flag_names(reason, crate::usn::usn_flags()).contains("STREAM_CHANGE"@) <==> reason & 0x00200000u32 != 0,
        crate::usn::set_flag_names(reason, crate::usn::usn_flags()).contains("CLOSE"@) <==> reason & 0x80000000u32 != 0,
        crate::usn::set_flag_names(reason, crate::usn::usn_flags()).len() > 0 ==> crate::usn::reason_text(reason)
            == crate::text::joined(crate::usn::set_flag_names(reason, crate::usn::usn_flags()), "|"@),
        crate::usn::set_flag_names(reason, crate::usn::usn_flags()).len() == 0 ==> crate::usn::reason_text(reason)
            == "0x"@ + crate::usn::hex_digits(reason as nat, 8),
{
    reveal_strlit("DATA_OVERWRITE");
    reveal_strlit("DATA_EXTEND");
    reveal_strlit("DATA_TRUNCATION");
    reveal_strlit("NAMED_DATA_OVERWRITE");
    reveal_strlit("NAMED_DATA_EXTEND");
    reveal_strlit("NAMED_DATA_TRUNCATION");
    reveal_strlit("FILE_CREATE");
    reveal_strlit("FILE_DELETE");
    reveal_strlit("EA_CHANGE");
    reveal_strlit("SECURITY_CHANGE");
    reveal_strlit("RENAME_OLD_NAME");
    reveal_strlit("RENAME_NEW_NAME");
    reveal_strlit("INDEXABLE_CHANGE");
    reveal_strlit("BASIC_INFO_CHANGE");
    reveal_strlit("HARD_LINK_CHANGE");
    reveal_strlit("COMPRESSION_CHANGE");
    reveal_strlit("ENCRYPTION_CHANGE");
    reveal_strlit("OBJECT_ID_CHANGE");
    reveal_strlit("REPARSE_POINT_CHANGE");
    reveal_strlit("STREAM_CHANGE");
    reveal_strlit("CLOSE");
    let fs = crate::usn::usn_flags();
    assert(flag_names_distinct(fs)) by {
        assert forall|i: int, j: int| 0 <= i < fs.len() && 0 <= j < fs.len() && i != j implies #[trigger] fs[i].1 != #[trigger] fs[j].1 by {
            if fs[i].1 == fs[j].1 {
                assert(fs[i].1.len() == fs[j].1.len());
                assert(fs[i].1[0] == fs[j].1[0]);
                assert(fs[i].1[1] == fs[j].1[1]);
                assert(fs[i].1[5] == fs[j].1[5]);
                assert(fs[i].1[6] == fs[j].1[6]);
                assert(fs[i].1[7] == fs[j].1[7]);
                assert(fs[i].1[fs[i].1.len() - 1] == fs[j].1[fs[j].1.len() - 1]);
            }
        }
    }
    lemma_flag_names_contain(reason, fs, "DATA_OVERWRITE"@);
    assert(fs[0].1 == "DATA_OVERWRITE"@ && fs[0].0 == 0x00000001u32);
    lemma_flag_names_contain(reason, fs, "DATA_EXTEND"@);
    assert(fs[1].1 == "DATA_EXTEND"@ && fs[1].0 == 0x00000002u32);
    lemma_flag_names_contain(reason, fs, "DATA_TRUNCATION"@);
    assert(fs[2].1 == "DATA_TRUNCATION"@ && fs[2].0 == 0x00000004u32);
    lemma_flag_names_contain(reason, fs, "NAMED_DATA_OVERWRITE"@);
    assert(fs[3].1 == "NAMED_DATA_OVERWRITE"@ && fs[3].0 == 0x00000010u32);
    lemma_flag_names_contain(reason, fs, "NAMED_DATA_EXTEND"@);
    assert(fs[4].1 == "NAMED_DATA_EXTEND"@ && fs[4].0 == 0x00000020u32);
    lemma_flag_names_contain(reason, fs, "NAMED_DATA_TRUNCATION"@);
    assert(fs[5].1 == "NAMED_DATA_TRUNCATION"@ && fs[5].0 == 0x00000040u32);
    lemma_flag_names_contain(reason, fs, "FILE_CREATE"@);
    assert(fs[6].1 == "FILE_CREATE"@ && fs[6].0 == 0x00000100u32);
    lemma_flag_names_contain(reason, fs, "FILE_DELETE"@);
    assert(fs[7].1 == "FILE_DELETE"@ && fs[7].0 == 0x00000200u32);
    lemma_flag_names_contain(reason, fs, "EA_CHANGE"@);
    assert(fs[8].1 == "EA_CHANGE"@ && fs[8].0 == 0x00000400u32);
    lemma_flag_names_contain(reason, fs, "SECURITY_CHANGE"@);
    assert(fs[9].1 == "SECURITY_CHANGE"@ && fs[9].0 == 0x00000800u32);
    lemma_flag_names_contain(reason, fs, "RENAME_OLD_NAME"@);
    assert(fs[10].1 == "RENAME_OLD_NAME"@ && fs[10].0 == 0x00001000u32);
    lemma_flag_names_contain(reason, fs, "RENAME_NEW_NAME"@);
    assert(fs[11].1 == "RENAME_NEW_NAME"@ && fs[11].0 == 0x00002000u32);
    lemma_flag_names_contain(reason, fs, "INDEXABLE_CHANGE"@);
    assert(fs[12].1 == "INDEXABLE_CHANGE"@ && fs[12].0 == 0x00004000u32);
    lemma_flag_names_contain(reason, fs, "BASIC_INFO_CHANGE"@);
    assert(fs[13].1 == "BASIC_INFO_CHANGE"@ && fs[13].0 == 0x00008000u32);
    lemma_flag_names_contain(reason, fs, "HARD_LINK_CHANGE"@);
    assert(fs[14].1 == "HARD_LINK_CHANGE"@ && fs[14].0 == 0x00010000u32);
    lemma_flag_names_contain(reason, fs, "COMPRESSION_CHANGE"@);
    assert(fs[15].1 == "COMPRESSION_CHANGE"@ && fs[15].0 == 0x00020000u32);
    lemma_flag_names_contain(reason, fs, "ENCRYPTION_CHANGE"@);
    assert(fs[16].1 == "ENCRYPTION_CHANGE"@ && fs[16].0 == 0x00040000u32);
    lemma_flag_names_contain(reason, fs, "OBJECT_ID_CHANGE"@);
    assert(fs[17].1 == "OBJECT_ID_CHANGE"@ && fs[17].0 == 0x00080000u32);
    lemma_flag_names_contain(reason, fs, "REPARSE_POINT_CHANGE"@);
    assert(fs[18].1 == "REPARSE_POINT_CHANGE"@ && fs[18].0 == 0x00100000u32);
    lemma_flag_names_contain(reason, fs, "STREAM_CHANGE"@);
    assert(fs[19].1 == "STREAM_CHANGE"@ && fs[19].0 == 0x00200000u32);
    lemma_flag_names_contain(reason, fs, "CLOSE"@);
    assert(fs[20].1 == "CLOSE"@ && fs[20].0 == 0x80000000u32);
}

// ---------------------------------------------------------------------------
// Logon types
// ---------------------------------------------------------------------------
/// A logon type is named by the Windows logon type table, blanks around it
/// ignored: 2 interactive, 3 network, 4 batch, 5 service, 7 unlock, 8 network
/// with clear-text credentials, 9 new credentials, 10 remote interactive and 11
/// cached interactive; any other value has no name.
pub proof fn law_logon_type_names(v: Seq<char>)
    ensures
        crate::row::logon_type(v) == Some("interactive"@) <==> trim(v) == "2"@,
        crate::row::logon_type(v) == Some("network"@) <==> trim(v) == "3"@,
        crate::row::logon_type(v) == Some("batch"@) <==> trim(v) == "4"@,
        crate::row::logon_type(v) == Some("service"@) <==> trim(v) == "5"@,
        crate::row::logon_type(v) == Some("unlock"@) <==> trim(v) == "7"@,
        crate::row::logon_type(v) == Some("network_cleartext"@) <==> trim(v) == "8"@,
        crate::row::logon_type(v) == Some("new_credentials"@) <==> trim(v) == "9"@,
        crate::row::logon_type(v) == Some("remote_interactive"@) <==> trim(v) == "10"@,
        crate::row::logon_type(v) == Some("cached_interactive"@) <==> trim(v) == "11"@,
        crate::row::logon_type(v) is None <==> !(trim(v) == "2"@ || trim(v) == "3"@ || trim(v) == "4"@ || trim(v) == "5"@ || trim(v) == "7"@ || trim(v) == "8"@ || trim(v) == "9"@ || trim(v) == "10"@ || trim(v) == "11"@),
{
    reveal_strlit("interactive");
    reveal_strlit("2");
    reveal_strlit("network");
    reveal_strlit("3");
    reveal_strlit("batch");
    reveal_strlit("4");
    reveal_strlit("service");
    reveal_strlit("5");
    reveal_strlit("unlock");
    reveal_strlit("7");
    reveal_strlit("network_cleartext");
    reveal_strlit("8");
    reveal_strlit("new_credentials");
    reveal_strlit("9");
    reveal_strlit("remote_interactive");
    reveal_strlit("10");
    reveal_strlit("cached_interactive");
    reveal_strlit("11");
    assert("2"@[0] != "3"@[0]);
    assert("2"@[0] != "4"@[0]);
    assert("2"@[0] != "5"@[0]);
    assert("2"@[0] != "7"@[0]);
    assert("2"@[0] != "8"@[0]);
    assert("2"@[0] != "9"@[0]);
    assert("2"@.len() != "10"@.len());
    assert("2"@.len() != "11"@.len());
    assert("3"@[0] != "4"@[0]);
    assert("3"@[0] != "5"@[0]);
    assert("3"@[0] != "7"@[0]);
    assert("3"@[0] != "8"@[0]);
    assert("3"@[0] != "9"@[0]);
    assert("3"@.len() != "10"@.len());
    assert("3"@.len() != "11"@.len());
    assert("4"@[0] != "5"@[0]);
    assert("4"@[0] != "7"@[0]);
    assert("4"@[0] != "8"@[0]);
    assert("4"@[0] != "9"@[0]);
    assert("4"@.len() != "10"@.len());
    assert("4"@.len() != "11"@.len());
    assert("5"@[0] != "7"@[0]);
    assert("5"@[0] != "8"@[0]);
    assert("5"@[0] != "9"@[0]);
    assert("5"@.len() != "10"@.len());
    assert("5"@.len() != "11"@.len());
    assert("7"@[0] != "8"@[0]);
    assert("7"@[0] != "9"@[0]);
    assert("7"@.len() != "10"@.len());
    assert("7"@.len() != "11"@.len());
    assert("8"@[0] != "9"@[0]);
    assert("8"@.len() != "10"@.len());
    assert("8"@.len() != "11"@.len());
    assert("9"@.len() != "10"@.len());
    assert("9"@.len() != "11"@.len());
    assert("10"@[1] != "11"@[1]);
    assert("interactive"@.len() != "network"@.len());
    assert("interactive"@.len() != "batch"@.len());
    assert("interactive"@.len() != "service"@.len());
    assert("interactive"@.len() != "unlock"@.len());
    assert("interactive"@.len() != "network_cleartext"@.len());
    assert("interactive"@.len() != "new_credentials"@.len());
    assert("interactive"@.len() != "remote_interactive"@.len());
    assert("interactive"@.len() != "cached_interactive"@.len());
    assert("network"@.len() != "batch"@.len());
    assert("network"@[0] != "service"@[0]);
    assert("network"@.len() != "unlock"@.len());
    assert("network"@.len() != "network_cleartext"@.len());
    assert("network"@.len() != "new_credentials"@.len());
    assert("network"@.len() != "remote_interactive"@.len());
    assert("network"@.len() != "cached_interactive"@.len());
    assert("batch"@.len() != "service"@.len());
    assert("batch"@.len() != "unlock"@.len());
    assert("batch"@.len() != "network_cleartext"@.len());
    assert("batch"@.len() != "new_credentials"@.len());
    assert("batch"@.len() != "remote_interactive"@.len());
    assert("batch"@.len() != "cached_interactive"@.len());
    assert("service"@.len() != "unlock"@.len());
    assert("service"@.len() != "network_cleartext"@.len());
    assert("service"@.len() != "new_credentials"@.len());
    assert("service"@.len() != "remote_interactive"@.len());
    assert("service"@.len() != "cached_interactive"@.len());
    assert("unlock"@.len() != "network_cleartext"@.len());
    assert("unlock"@.len() != "new_credentials"@.len());
    assert("unlock"@.len() != "remote_interactive"@.len());
    assert("unlock"@.len() != "cached_interactive"@.len());
    assert("network_cleartext"@.len() != "new_credentials"@.len());
    assert("network_cleartext"@.len() != "remote_interactive"@.len());
    assert("network_cleartext"@.len() != "cached_interactive"@.len());
    assert("new_credentials"@.len() != "remote_interactive"@.len());
    assert("new_credentials"@.len() != "cached_interactive"@.len());
    assert("remote_interactive"@[0] != "cached_interactive"@[0]);
}

// ---------------------------------------------------------------------------
// MFT file-name choice
// ---------------------------------------------------------------------------
proof fn lemma_best_name_least(names: Seq<crate::mft::MftFileNameAttribute>)
    ensures
        names.len() == 0 <==> crate::mft::best_name_index(names) is None,
        crate::mft::best_name_index(names) matches Some(k) ==> {
            &&& 0 <= k < names.len()
            &&& forall|j: int| 0 <= j < names.len() ==> crate::mft::namespace_rank(names[k].namespace)
                <= crate::mft::namespace_rank(#[trigger] names[j].namespace)
            &&& forall|j: int| 0 <= j < k ==> crate::mft::namespace_rank(names[k].namespace)
                < crate::mft::namespace_rank(#[trigger] names[j].namespace)
        },
    decreases names.len(),
{
    if names.len() > 0 {
        let d = names.drop_last();
        lemma_best_name_least(d);
        assert forall|j: int| 0 <= j < d.len() implies #[trigger] d[j] == names[j] by {}
        let n = names.len() - 1;
        let rl = crate::mft::namespace_rank(names[n].namespace);
        assert(names.last() == names[n]);
        match crate::mft::best_name_index(d) {
            Some(k0) => {
                let r0 = crate::mft::namespace_rank(d[k0].namespace);
                if rl < r0 {
                    assert(crate::mft::best_name_index(names) == Some(n));
                    assert forall|j: int| 0 <= j < names.len() implies rl <= crate::mft::namespace_rank(
                        #[trigger] names[j].namespace,
                    ) by {
                        if j < n {
                            assert(crate::mft::namespace_rank(d[j].namespace) >= r0);
                        }
                    }
                    assert forall|j: int| 0 <= j < n implies rl < crate::mft::namespace_rank(
                        #[trigger] names[j].namespace,
                    ) by {
                        assert(crate::mft::namespace_rank(d[j].namespace) >= r0);
                    }
                } else {
                    assert(crate::mft::best_name_index(names) == Some(k0));
                    assert(names[k0] == d[k0]);
                    assert forall|j: int| 0 <= j < names.len() implies r0 <= crate::mft::namespace_rank(
                        #[trigger] names[j].namespace,
                    ) by {
                        if j < n {
                            assert(crate::mft::namespace_rank(d[j].namespace) >= r0);
                        }
                    }
                    assert forall|j: int| 0 <= j < k0 implies r0 < crate::mft::namespace_rank(
                        #[trigger] names[j].namespace,
                    ) by {
                        assert(crate::mft::namespace_rank(d[j].namespace) > r0);
                    }
                }
            },
            None => {
                assert(d.len() == 0);
                assert(crate::mft::best_name_index(names) == Some(0int));
            },
        }
    }
}

/// The name a record is reported under follows the NTFS namespaces: a Win32
/// name (namespace 1) wins; without one, a Win32-and-DOS name (3); without
/// either, a POSIX name (0); a DOS 8.3 name (2) only when none of those exists.
/// Among names of the chosen namespace the first is taken, and a record with
/// names always gets one.
pub proof fn law_mft_file_name_preference(names: Seq<crate::mft::MftFileNameAttribute>)
    ensures
        names.len() == 0 <==> crate::mft::best_name_index(names) is None,
        crate::mft::best_name_index(names) matches Some(k) ==> {
            let ns = names[k].namespace;
            &&& 0 <= k < names.len()
            &&& (exists|j: int| 0 <= j < names.len() && #[trigger] names[j].namespace == 1) ==> ns == 1
            &&& (exists|j: int| 0 <= j < names.len() && #[trigger] names[j].namespace == 3) ==> (ns == 1
                || ns == 3)
            &&& (exists|j: int| 0 <= j < names.len() && #[trigger] names[j].namespace == 0) ==> (ns == 1
                || ns == 3 || ns == 0)
            &&& (exists|j: int| 0 <= j < names.len() && #[trigger] names[j].namespace == 2) ==> (ns == 1
                || ns == 3 || ns == 0 || ns == 2)
            &&& (ns == 0 || ns == 1 || ns == 2 || ns == 3) ==> forall|j: int|
                0 <= j < k ==> #[trigger] names[j].namespace != ns
        },
{
    lemma_best_name_least(names);
    if let Some(k) = crate::mft::best_name_index(names) {
        if exists|j: int| 0 <= j < names.len() && #[trigger] names[j].namespace == 1 {
            let j = choose|j: int| 0 <= j < names.len() && #[trigger] names[j].namespace == 1;
            assert(crate::mft::namespace_rank(names[j].namespace) == 0);
        }
        if exists|j: int| 0 <= j < names.len() && #[trigger] names[j].namespace == 3 {
            let j = choose|j: int| 0 <= j < names.len() && #[trigger] names[j].namespace == 3;
            assert(crate::mft::namespace_rank(names[j].namespace) == 1);
        }
        if exists|j: int| 0 <= j < names.len() && #[trigger] names[j].namespace == 0 {
            let j = choose|j: int| 0 <= j < names.len() && #[trigger] names[j].namespace == 0;
            assert(crate::mft::namespace_rank(names[j].namespace) == 2);
        }
        if exists|j: int| 0 <= j < names.len() && #[trigger] names[j].namespace == 2 {
            let j = choose|j: int| 0 <= j < names.len() && #[trigger] names[j].namespace == 2;
            assert(crate::mft::namespace_rank(names[j].namespace) == 3);
        }
    }
}

// ---------------------------------------------------------------------------
// Text-log authentication failures
// ---------------------------------------------------------------------------
/// A line that is not web traffic (no HTTP request in it, and not from a web
/// server log) is an authentication failure, of medium severity, exactly when
/// its lower-cased text holds one of the failure markers: a failed password, a
/// failure audit, an invalid user, a failed logon, event 4625 or an
/// authentication failure.
pub proof fn law_auth_failure_lines(
    src: Seq<char>,
    line: Seq<char>,
    l: Seq<char>,
    has_url: bool,
    ps_process: bool,
    has_ip: bool,
)
    requires
        crate::textlog::http_fields(line).0 is None,
        !crate::textlog::web_server_path(lower(src)),
    ensures
        (crate::text::contains(l, "failed password"@) || crate::text::contains(l, "failure audit"@) || crate::text::contains(l, "invalid user"@) || crate::text::contains(l, "logon failed"@) || crate::text::contains(l, "4625"@) || crate::text::contains(l, "authentication failure"@)) ==> (crate::textlog::text_class(src, line, l, has_url, ps_process, has_ip) matches Some(c)
            && c.0 == "authentication"@ && c.1 == "auth_failure"@ && c.3 == "medium"@),
        (crate::textlog::text_class(src, line, l, has_url, ps_process, has_ip) matches Some(c) && c.1
            == "auth_failure"@) ==> (crate::text::contains(l, "failed password"@) || crate::text::contains(l, "failure audit"@) || crate::text::contains(l, "invalid user"@) || crate::text::contains(l, "logon failed"@) || crate::text::contains(l, "4625"@) || crate::text::contains(l, "authentication failure"@)),
{
    reveal_strlit("auth_failure");
    reveal_strlit("auth_success");
    reveal_strlit("privilege_use");
    reveal_strlit("suspicious_powershell");
    reveal_strlit("powershell_activity");
    reveal_strlit("file_transfer");
    reveal_strlit("log_clearing");
    reveal_strlit("file_deletion");
    reveal_strlit("suspicious_http_request");
    reveal_strlit("http_request");
    assert("auth_failure"@.len() != "auth_success"@.len() || "auth_failure"@[5] != "auth_success"@[5]);
    assert("auth_failure"@[0] != "privilege_use"@[0]);
    assert("auth_failure"@[0] != "suspicious_powershell"@[0]);
    assert("auth_failure"@[0] != "powershell_activity"@[0]);
    assert("auth_failure"@[0] != "file_transfer"@[0]);
    assert("auth_failure"@[0] != "log_clearing"@[0]);
    assert("auth_failure"@[0] != "file_deletion"@[0]);
    assert("auth_failure"@[0] != "suspicious_http_request"@[0]);
    assert("auth_failure"@[0] != "http_request"@[0]);
}

// ---------------------------------------------------------------------------
// Plain-text line severity
// ---------------------------------------------------------------------------
/// A plain log line is of high severity exactly when it mentions ERROR or FAIL
/// in any ASCII case; otherwise of medium severity exactly when it mentions
/// WARN in any ASCII case; otherwise informational.
pub proof fn law_plain_line_severity(line: Seq<char>)
    ensures
        ({
            let u = crate::text::upper(line);
            let err = crate::text::contains(u, "ERROR"@) || crate::text::contains(u, "FAIL"@);
            let warn = crate::text::contains(u, "WARN"@);
            &&& crate::artifact::line_severity(line) == "high"@ <==> err
            &&& crate::artifact::line_severity(line) == "medium"@ <==> !err && warn
            &&& crate::artifact::line_severity(line) == "info"@ <==> !err && !warn
        }),
{
    reveal_strlit("high");
    reveal_strlit("medium");
    reveal_strlit("info");
    assert("high"@.len() != "medium"@.len());
    assert("high"@[0] != "info"@[0]);
    assert("medium"@.len() != "info"@.len());
}

/// Among lines that are not web traffic and hold no failure marker, a line is
/// a successful authentication, of informational severity, exactly when it
/// holds a success marker: an accepted password, a successful logon, a logon
/// success, event 4624 or an opened session. Without one, a line is a use of
/// privilege, of medium severity, exactly when it mentions sudo, su, runas or
/// a privilege escalation.
pub proof fn law_auth_success_and_privilege_lines(
    src: Seq<char>,
    line: Seq<char>,
    l: Seq<char>,
    has_url: bool,
    ps_process: bool,
    has_ip: bool,
)
    requires
        crate::textlog::http_fields(line).0 is None,
        !crate::textlog::web_server_path(lower(src)),
        !(crate::text::contains(l, "failed password"@) || crate::text::contains(l, "failure audit"@) || crate::text::contains(l, "invalid user"@) || crate::text::contains(l, "logon failed"@) || crate::text::contains(l, "4625"@) || crate::text::contains(l, "authentication failure"@)),
    ensures
        (crate::text::contains(l, "accepted password"@) || crate::text::contains(l, "successful logon"@) || crate::text::contains(l, "logon success"@) || crate::text::contains(l, "4624"@) || crate::text::contains(l, "session opened"@)) ==> (crate::textlog::text_class(src, line, l, has_url, ps_process, has_ip) matches Some(c)
            && c.0 == "authentication"@ && c.1 == "auth_success"@ && c.3 == "info"@),
        !(crate::text::contains(l, "accepted password"@) || crate::text::contains(l, "successful logon"@) || crate::text::contains(l, "logon success"@) || crate::text::contains(l, "4624"@) || crate::text::contains(l, "session opened"@)) ==> ((crate::text::contains(l, " sudo:"@) || crate::text::contains(l, "sudo "@) || crate::text::contains(l, " su:"@) || crate::text::contains(l, "runas"@) || crate::text::contains(l, "privilege escalation"@)) <==> (crate::textlog::text_class(src, line, l, has_url, ps_process, has_ip) matches Some(c)
            && c.0 == "authentication"@ && c.1 == "privilege_use"@ && c.3 == "medium"@)),
{
    reveal_strlit("authentication");
    reveal_strlit("privilege_use");
    reveal_strlit("powershell");
    reveal_strlit("file_transfer");
    reveal_strlit("tamper_or_deletion");
    assert("authentication"@[0] != "powershell"@[0]);
    assert("authentication"@[0] != "file_transfer"@[0]);
    assert("authentication"@[0] != "tamper_or_deletion"@[0]);
}

// ---------------------------------------------------------------------------
// MFT attribute types
// ---------------------------------------------------------------------------
/// An attribute type code is named by the NTFS attribute table: 0x10
/// `STANDARD_INFORMATION`, 0x30 `FILE_NAME`, 0x80 `DATA` and so on; every other
/// code is `UNKNOWN`.
pub proof fn law_attribute_type_names(t: u32)
    ensures
        crate::mft::attribute_type_name(t) == "STANDARD_INFORMATION"@ <==> t == 0x10,
        crate::mft::attribute_type_name(t) == "ATTRIBUTE_LIST"@ <==> t == 0x20,
        crate::mft::attribute_type_name(t) == "FILE_NAME"@ <==> t == 0x30,
        crate::mft::attribute_type_name(t) == "OBJECT_ID"@ <==> t == 0x40,
        crate::mft::attribute_type_name(t) == "SECURITY_DESCRIPTOR"@ <==> t == 0x50,
        crate::mft::attribute_type_name(t) == "VOLUME_NAME"@ <==> t == 0x60,
        crate::mft::attribute_type_name(t) == "VOLUME_INFORMATION"@ <==> t == 0x70,
        crate::mft::attribute_type_name(t) == "DATA"@ <==> t == 0x80,
        crate::mft::attribute_type_name(t) == "INDEX_ROOT"@ <==> t == 0x90,
        crate::mft::attribute_type_name(t) == "INDEX_ALLOCATION"@ <==> t == 0xa0,
        crate::mft::attribute_type_name(t) == "BITMAP"@ <==> t == 0xb0,
        crate::mft::attribute_type_name(t) == "REPARSE_POINT"@ <==> t == 0xc0,
        crate::mft::attribute_type_name(t) == "EA_INFORMATION"@ <==> t == 0xd0,
        crate::mft::attribute_type_name(t) == "EA"@ <==> t == 0xe0,
        crate::mft::attribute_type_name(t) == "LOGGED_UTILITY_STREAM"@ <==> t == 0x100,
        crate::mft::attribute_type_name(t) == "UNKNOWN"@ <==> !(t == 0x10 || t == 0x20 || t == 0x30 || t == 0x40 || t == 0x50 || t == 0x60 || t == 0x70 || t == 0x80 || t == 0x90 || t == 0xa0 || t == 0xb0 || t == 0xc0 || t == 0xd0 || t == 0xe0 || t == 0x100),
{
    reveal_strlit("ATTRIBUTE_LIST");
    reveal_strlit("BITMAP");
    reveal_strlit("DATA");
    reveal_strlit("EA");
    reveal_strlit("EA_INFORMATION");
    reveal_strlit("FILE_NAME");
    reveal_strlit("INDEX_ALLOCATION");
    reveal_strlit("INDEX_ROOT");
    reveal_strlit("LOGGED_UTILITY_STREAM");
    reveal_strlit("OBJECT_ID");
    reveal_strlit("REPARSE_POINT");
    reveal_strlit("SECURITY_DESCRIPTOR");
    reveal_strlit("STANDARD_INFORMATION");
    reveal_strlit("UNKNOWN");
    reveal_strlit("VOLUME_INFORMATION");
    reveal_strlit("VOLUME_NAME");
    assert("STANDARD_INFORMATION"@.len() != "ATTRIBUTE_LIST"@.len());
    assert("STANDARD_INFORMATION"@.len() != "FILE_NAME"@.len());
    assert("STANDARD_INFORMATION"@.len() != "OBJECT_ID"@.len());
    assert("STANDARD_INFORMATION"@.len() != "SECURITY_DESCRIPTOR"@.len());
    assert("STANDARD_INFORMATION"@.len() != "VOLUME_NAME"@.len());
    assert("STANDARD_INFORMATION"@.len() != "VOLUME_INFORMATION"@.len());
    assert("STANDARD_INFORMATION"@.len() != "DATA"@.len());
    assert("STANDARD_INFORMATION"@.len() != "INDEX_ROOT"@.len());
    assert("STANDARD_INFORMATION"@.len() != "INDEX_ALLOCATION"@.len());
    assert("STANDARD_INFORMATION"@.len() != "BITMAP"@.len());
    assert("STANDARD_INFORMATION"@.len() != "REPARSE_POINT"@.len());
    assert("STANDARD_INFORMATION"@.len() != "EA_INFORMATION"@.len());
    assert("STANDARD_INFORMATION"@.len() != "EA"@.len());
    assert("STANDARD_INFORMATION"@.len() != "LOGGED_UTILITY_STREAM"@.len());
    assert("STANDARD_INFORMATION"@.len() != "UNKNOWN"@.len());
    assert("ATTRIBUTE_LIST"@.len() != "FILE_NAME"@.len());
    assert("ATTRIBUTE_LIST"@.len() != "OBJECT_ID"@.len());
    assert("ATTRIBUTE_LIST"@.len() != "SECURITY_DESCRIPTOR"@.len());
    assert("ATTRIBUTE_LIST"@.len() != "VOLUME_NAME"@.len());
    assert("ATTRIBUTE_LIST"@.len() != "VOLUME_INFORMATION"@.len());
    assert("ATTRIBUTE_LIST"@.len() != "DATA"@.len());
    assert("ATTRIBUTE_LIST"@.len() != "INDEX_ROOT"@.len());
    assert("ATTRIBUTE_LIST"@.len() != "INDEX_ALLOCATION"@.len());
    assert("ATTRIBUTE_LIST"@.len() != "BITMAP"@.len());
    assert("ATTRIBUTE_LIST"@.len() != "REPARSE_POINT"@.len());
    assert("ATTRIBUTE_LIST"@[0] != "EA_INFORMATION"@[0]);
    assert("ATTRIBUTE_LIST"@.len() != "EA"@.len());
    assert("ATTRIBUTE_LIST"@.len() != "LOGGED_UTILITY_STREAM"@.len());
    assert("ATTRIBUTE_LIST"@.len() != "UNKNOWN"@.len());
    assert("FILE_NAME"@[0] != "OBJECT_ID"@[0]);
    assert("FILE_NAME"@.len() != "SECURITY_DESCRIPTOR"@.len());
    assert("FILE_NAME"@.len() != "VOLUME_NAME"@.len());
    assert("FILE_NAME"@.len() != "VOLUME_INFORMATION"@.len());
    assert("FILE_NAME"@.len() != "DATA"@.len());
    assert("FILE_NAME"@.len() != "INDEX_ROOT"@.len());
    assert("FILE_NAME"@.len() != "INDEX_ALLOCATION"@.len());
    assert("FILE_NAME"@.len() != "BITMAP"@.len());
    assert("FILE_NAME"@.len() != "REPARSE_POINT"@.len());
    assert("FILE_NAME"@.len() != "EA_INFORMATION"@.len());
    assert("FILE_NAME"@.len() != "EA"@.len());
    assert("FILE_NAME"@.len() != "LOGGED_UTILITY_STREAM"@.len());
    assert("FILE_NAME"@.len() != "UNKNOWN"@.len());
    assert("OBJECT_ID"@.len() != "SECURITY_DESCRIPTOR"@.len());
    assert("OBJECT_ID"@.len() != "VOLUME_NAME"@.len());
    assert("OBJECT_ID"@.len() != "VOLUME_INFORMATION"@.len());
    assert("OBJECT_ID"@.len() != "DATA"@.len());
    assert("OBJECT_ID"@.len() != "INDEX_ROOT"@.len());
    assert("OBJECT_ID"@.len() != "INDEX_ALLOCATION"@.len());
    assert("OBJECT_ID"@.len() != "BITMAP"@.len());
    assert("OBJECT_ID"@.len() != "REPARSE_POINT"@.len());
    assert("OBJECT_ID"@.len() != "EA_INFORMATION"@.len());
    assert("OBJECT_ID"@.len() != "EA"@.len());
    assert("OBJECT_ID"@.len() != "LOGGED_UTILITY_STREAM"@.len());
    assert("OBJECT_ID"@.len() != "UNKNOWN"@.len());
    assert("SECURITY_DESCRIPTOR"@.len() != "VOLUME_NAME"@.len());
    assert("SECURITY_DESCRIPTOR"@.len() != "VOLUME_INFORMATION"@.len());
    assert("SECURITY_DESCRIPTOR"@.len() != "DATA"@.len());
    assert("SECURITY_DESCRIPTOR"@.len() != "INDEX_ROOT"@.len());
    assert("SECURITY_DESCRIPTOR"@.len() != "INDEX_ALLOCATION"@.len());
    assert("SECURITY_DESCRIPTOR"@.len() != "BITMAP"@.len());
    assert("SECURITY_DESCRIPTOR"@.len() != "REPARSE_POINT"@.len());
    assert("SECURITY_DESCRIPTOR"@.len() != "EA_INFORMATION"@.len());
    assert("SECURITY_DESCRIPTOR"@.len() != "EA"@.len());
    assert("SECURITY_DESCRIPTOR"@.len() != "LOGGED_UTILITY_STREAM"@.len());
    assert("SECURITY_DESCRIPTOR"@.len() != "UNKNOWN"@.len());
    assert("VOLUME_NAME"@.len() != "VOLUME_INFORMATION"@.len());
    assert("VOLUME_NAME"@.len() != "DATA"@.len());
    assert("VOLUME_NAME"@.len() != "INDEX_ROOT"@.len());
    assert("VOLUME_NAME"@.len() != "INDEX_ALLOCATION"@.len());
    assert("VOLUME_NAME"@.len() != "BITMAP"@.len());
    assert("VOLUME_NAME"@.len() != "REPARSE_POINT"@.len());
    assert("VOLUME_NAME"@.len() != "EA_INFORMATION"@.len());
    assert("VOLUME_NAME"@.len() != "EA"@.len());
    assert("VOLUME_NAME"@.len() != "LOGGED_UTILITY_STREAM"@.len());
    assert("VOLUME_NAME"@.len() != "UNKNOWN"@.len());
    assert("VOLUME_INFORMATION"@.len() != "DATA"@.len());
    assert("VOLUME_INFORMATION"@.len() != "INDEX_ROOT"@.len());
    assert("VOLUME_INFORMATION"@.len() != "INDEX_ALLOCATION"@.len());
    assert("VOLUME_INFORMATION"@.len() != "BITMAP"@.len());
    assert("VOLUME_INFORMATION"@.len() != "REPARSE_POINT"@.len());
    assert("VOLUME_INFORMATION"@.len() != "EA_INFORMATION"@.len());
    assert("VOLUME_INFORMATION"@.len() != "EA"@.len());
    assert("VOLUME_INFORMATION"@.len() != "LOGGED_UTILITY_STREAM"@.len());
    assert("VOLUME_INFORMATION"@.len() != "UNKNOWN"@.len());
    assert("DATA"@.len() != "INDEX_ROOT"@.len());
    assert("DATA"@.len() != "INDEX_ALLOCATION"@.len());
    assert("DATA"@.len() != "BITMAP"@.len());
    assert("DATA"@.len() != "REPARSE_POINT"@.len());
    assert("DATA"@.len() != "EA_INFORMATION"@.len());
    assert("DATA"@.len() != "EA"@.len());
    assert("DATA"@.len() != "LOGGED_UTILITY_STREAM"@.len());
    assert("DATA"@.len() != "UNKNOWN"@.len());
    assert("INDEX_ROOT"@.len() != "INDEX_ALLOCATION"@.len());
    assert("INDEX_ROOT"@.len() != "BITMAP"@.len());
    assert("INDEX_ROOT"@.len() != "REPARSE_POINT"@.len());
    assert("INDEX_ROOT"@.len() != "EA_INFORMATION"@.len());
    assert("INDEX_ROOT"@.len() != "EA"@.len());
    assert("INDEX_ROOT"@.len() != "LOGGED_UTILITY_STREAM"@.len());
    assert("INDEX_ROOT"@.len() != "UNKNOWN"@.len());
    assert("INDEX_ALLOCATION"@.len() != "BITMAP"@.len());
    assert("INDEX_ALLOCATION"@.len() != "REPARSE_POINT"@.len());
    assert("INDEX_ALLOCATION"@.len() != "EA_INFORMATION"@.len());
    assert("INDEX_ALLOCATION"@.len() != "EA"@.len());
    assert("INDEX_ALLOCATION"@.len() != "LOGGED_UTILITY_STREAM"@.len());
    assert("INDEX_ALLOCATION"@.len() != "UNKNOWN"@.len());
    assert("BITMAP"@.len() != "REPARSE_POINT"@.len());
    assert("BITMAP"@.len() != "EA_INFORMATION"@.len());
    assert("BITMAP"@.len() != "EA"@.len());
    assert("BITMAP"@.len() != "LOGGED_UTILITY_STREAM"@.len());
    assert("BITMAP"@.len() != "UNKNOWN"@.len());
    assert("REPARSE_POINT"@.len() != "EA_INFORMATION"@.len());
    assert("REPARSE_POINT"@.len() != "EA"@.len());
    assert("REPARSE_POINT"@.len() != "LOGGED_UTILITY_STREAM"@.len());
    assert("REPARSE_POINT"@.len() != "UNKNOWN"@.len());
    assert("EA_INFORMATION"@.len() != "EA"@.len());
    assert("EA_INFORMATION"@.len() != "LOGGED_UTILITY_STREAM"@.len());
    assert("EA_INFORMATION"@.len() != "UNKNOWN"@.len());
    assert("EA"@.len() != "LOGGED_UTILITY_STREAM"@.len());
    assert("EA"@.len() != "UNKNOWN"@.len());
    assert("LOGGED_UTILITY_STREAM"@.len() != "UNKNOWN"@.len());
}

// ---------------------------------------------------------------------------
// USN actions
// ---------------------------------------------------------------------------
/// The action of a journal reason, read in any ASCII case: a deletion wins,
/// then a rename, then a creation, then a data change (overwrite, extension,
/// truncation or data); anything else, or no reason, is a change.
pub proof fn law_usn_action_precedence(reason: Option<Seq<char>>)
    ensures
        ({
            let l = lower(
                match reason {
                    Some(r) => r,
                    None => Seq::empty(),
                },
            );
            let del = crate::text::contains(l, "delete"@);
            let ren = crate::text::contains(l, "rename"@);
            let cre = crate::text::contains(l, "create"@);
            let dat = crate::text::contains(l, "overwrite"@) || crate::text::contains(l, "extend"@)
                || crate::text::contains(l, "truncate"@) || crate::text::contains(l, "data"@);
            &&& crate::usn::usn_action_of(reason) == "usn_deleted"@ <==> del
            &&& crate::usn::usn_action_of(reason) == "usn_renamed"@ <==> !del && ren
            &&& crate::usn::usn_action_of(reason) == "usn_created"@ <==> !del && !ren && cre
            &&& crate::usn::usn_action_of(reason) == "usn_modified"@ <==> !del && !ren && !cre && dat
            &&& crate::usn::usn_action_of(reason) == "usn_changed"@ <==> !del && !ren && !cre && !dat
        }),
{
    reveal_strlit("usn_changed");
    reveal_strlit("usn_created");
    reveal_strlit("usn_deleted");
    reveal_strlit("usn_modified");
    reveal_strlit("usn_renamed");
    assert("usn_deleted"@[4] != "usn_renamed"@[4]);
    assert("usn_deleted"@[4] != "usn_created"@[4]);
    assert("usn_deleted"@.len() != "usn_modified"@.len());
    assert("usn_deleted"@[4] != "usn_changed"@[4]);
    assert("usn_renamed"@[4] != "usn_created"@[4]);
    assert("usn_renamed"@.len() != "usn_modified"@.len());
    assert("usn_renamed"@[4] != "usn_changed"@[4]);
    assert("usn_created"@.len() != "usn_modified"@.len());
    assert("usn_created"@[5] != "usn_changed"@[5]);
    assert("usn_modified"@.len() != "usn_changed"@.len());
}

// ---------------------------------------------------------------------------
// Windows event ids
// ---------------------------------------------------------------------------
/// A Windows event id names its action by the Security and System event
/// tables: 4624 a successful logon, 4625 a failed logon, 4634 a logoff, 4688
/// (or Sysmon 1) a created process, 4697 or 7045 an installed service, 1102 a
/// cleared audit log, and so on; other ids are a plain Windows event, and no id
/// is an observation.
pub proof fn law_windows_event_actions(n: int)
    ensures
        crate::events::windows_action(Some(n)) == "logon_success"@ <==> (n == 4624),
        crate::events::windows_action(Some(n)) == "logon_failure"@ <==> (n == 4625),
        crate::events::windows_action(Some(n)) == "logoff"@ <==> (n == 4634),
        crate::events::windows_action(Some(n)) == "explicit_credentials"@ <==> (n == 4648),
        crate::events::windows_action(Some(n)) == "special_privileges_assigned"@ <==> (n == 4672),
        crate::events::windows_action(Some(n)) == "process_created"@ <==> (n == 4688 || n == 1),
        crate::events::windows_action(Some(n)) == "process_exited"@ <==> (n == 4689),
        crate::events::windows_action(Some(n)) == "service_installed"@ <==> (n == 4697 || n == 7045),
        crate::events::windows_action(Some(n)) == "user_created"@ <==> (n == 4720),
        crate::events::windows_action(Some(n)) == "user_deleted"@ <==> (n == 4726),
        crate::events::windows_action(Some(n)) == "group_member_added"@ <==> (n == 4732),
        crate::events::windows_action(Some(n)) == "group_member_removed"@ <==> (n == 4733),
        crate::events::windows_action(Some(n)) == "audit_log_cleared"@ <==> (n == 1102),
        crate::events::windows_action(Some(n)) == "network_connection"@ <==> (n == 3),
        crate::events::windows_action(Some(n)) == "file_created"@ <==> (n == 11),
        crate::events::windows_action(Some(n)) == "windows_event"@ <==> !(n == 4624 || n == 4625 || n == 4634 || n == 4648 || n == 4672 || n == 4688 || n == 1 || n == 4689 || n == 4697 || n == 7045 || n == 4720 || n == 4726 || n == 4732 || n == 4733 || n == 1102 || n == 3 || n == 11),
        crate::events::windows_action(None) == "observed"@,
{
    reveal_strlit("audit_log_cleared");
    reveal_strlit("explicit_credentials");
    reveal_strlit("file_created");
    reveal_strlit("group_member_added");
    reveal_strlit("group_member_removed");
    reveal_strlit("logoff");
    reveal_strlit("logon_failure");
    reveal_strlit("logon_success");
    reveal_strlit("network_connection");
    reveal_strlit("observed");
    reveal_strlit("process_created");
    reveal_strlit("process_exited");
    reveal_strlit("service_installed");
    reveal_strlit("special_privileges_assigned");
    reveal_strlit("user_created");
    reveal_strlit("user_deleted");
    reveal_strlit("windows_event");
    assert("logon_success"@[6] != "logon_failure"@[6]);
    assert("logon_success"@.len() != "logoff"@.len());
    assert("logon_success"@.len() != "explicit_credentials"@.len());
    assert("logon_success"@.len() != "special_privileges_assigned"@.len());
    assert("logon_success"@.len() != "process_created"@.len());
    assert("logon_success"@.len() != "process_exited"@.len());
    assert("logon_success"@.len() != "service_installed"@.len());
    assert("logon_success"@.len() != "user_created"@.len());
    assert("logon_success"@.len() != "user_deleted"@.len());
    assert("logon_success"@.len() != "group_member_added"@.len());
    assert("logon_success"@.len() != "group_member_removed"@.len());
    assert("logon_success"@.len() != "audit_log_cleared"@.len());
    assert("logon_success"@.len() != "network_connection"@.len());
    assert("logon_success"@.len() != "file_created"@.len());
    assert("logon_success"@[0] != "windows_event"@[0]);
    assert("logon_success"@.len() != "observed"@.len());
    assert("logon_failure"@.len() != "logoff"@.len());
    assert("logon_failure"@.len() != "explicit_credentials"@.len());
    assert("logon_failure"@.len() != "special_privileges_assigned"@.len());
    assert("logon_failure"@.len() != "process_created"@.len());
    assert("logon_failure"@.len() != "process_exited"@.len());
    assert("logon_failure"@.len() != "service_installed"@.len());
    assert("logon_failure"@.len() != "user_created"@.len());
    assert("logon_failure"@.len() != "user_deleted"@.len());
    assert("logon_failure"@.len() != "group_member_added"@.len());
    assert("logon_failure"@.len() != "group_member_removed"@.len());
    assert("logon_failure"@.len() != "audit_log_cleared"@.len());
    assert("logon_failure"@.len() != "network_connection"@.len());
    assert("logon_failure"@.len() != "file_created"@.len());
    assert("logon_failure"@[0] != "windows_event"@[0]);
    assert("logon_failure"@.len() != "observed"@.len());
    assert("logoff"@.len() != "explicit_credentials"@.len());
    assert("logoff"@.len() != "special_privileges_assigned"@.len());
    assert("logoff"@.len() != "process_created"@.len());
    assert("logoff"@.len() != "process_exited"@.len());
    assert("logoff"@.len() != "service_installed"@.len());
    assert("logoff"@.len() != "user_created"@.len());
    assert("logoff"@.len() != "user_deleted"@.len());
    assert("logoff"@.len() != "group_member_added"@.len());
    assert("logoff"@.len() != "group_member_removed"@.len());
    assert("logoff"@.len() != "audit_log_cleared"@.len());
    assert("logoff"@.len() != "network_connection"@.len());
    assert("logoff"@.len() != "file_created"@.len());
    assert("logoff"@.len() != "windows_event"@.len());
    assert("logoff"@.len() != "observed"@.len());
    assert("explicit_credentials"@.len() != "special_privileges_assigned"@.len());
    assert("explicit_credentials"@.len() != "process_created"@.len());
    assert("explicit_credentials"@.len() != "process_exited"@.len());
    assert("explicit_credentials"@.len() != "service_installed"@.len());
    assert("explicit_credentials"@.len() != "user_created"@.len());
    assert("explicit_credentials"@.len() != "user_deleted"@.len());
    assert("explicit_credentials"@.len() != "group_member_added"@.len());
    assert("explicit_credentials"@[0] != "group_member_removed"@[0]);
    assert("explicit_credentials"@.len() != "audit_log_cleared"@.len());
    assert("explicit_credentials"@.len() != "network_connection"@.len());
    assert("explicit_credentials"@.len() != "file_created"@.len());
    assert("explicit_credentials"@.len() != "windows_event"@.len());
    assert("explicit_credentials"@.len() != "observed"@.len());
    assert("special_privileges_assigned"@.len() != "process_created"@.len());
    assert("special_privileges_assigned"@.len() != "process_exited"@.len());
    assert("special_privileges_assigned"@.len() != "service_installed"@.len());
    assert("special_privileges_assigned"@.len() != "user_created"@.len());
    assert("special_privileges_assigned"@.len() != "user_deleted"@.len());
    assert("special_privileges_assigned"@.len() != "group_member_added"@.len());
    assert("special_privileges_assigned"@.len() != "group_member_removed"@.len());
    assert("special_privileges_assigned"@.len() != "audit_log_cleared"@.len());
    assert("special_privileges_assigned"@.len() != "network_connection"@.len());
    assert("special_privileges_assigned"@.len() != "file_created"@.len());
    assert("special_privileges_assigned"@.len() != "windows_event"@.len());
    assert("special_privileges_assigned"@.len() != "observed"@.len());
    assert("process_created"@.len() != "process_exited"@.len());
    assert("process_created"@.len() != "service_installed"@.len());
    assert("process_created"@.len() != "user_created"@.len());
    assert("process_created"@.len() != "user_deleted"@.len());
    assert("process_created"@.len() != "group_member_added"@.len());
    assert("process_created"@.len() != "group_member_removed"@.len());
    assert("process_created"@.len() != "audit_log_cleared"@.len());
    assert("process_created"@.len() != "network_connection"@.len());
    assert("process_created"@.len() != "file_created"@.len());
    assert("process_created"@.len() != "windows_event"@.len());
    assert("process_created"@.len() != "observed"@.len());
    assert("process_exited"@.len() != "service_installed"@.len());
    assert("process_exited"@.len() != "user_created"@.len());
    assert("process_exited"@.len() != "user_deleted"@.len());
    assert("process_exited"@.len() != "group_member_added"@.len());
    assert("process_exited"@.len() != "group_member_removed"@.len());
    assert("process_exited"@.len() != "audit_log_cleared"@.len());
    assert("process_exited"@.len() != "network_connection"@.len());
    assert("process_exited"@.len() != "file_created"@.len());
    assert("process_exited"@.len() != "windows_event"@.len());
    assert("process_exited"@.len() != "observed"@.len());
    assert("service_installed"@.len() != "user_created"@.len());
    assert("service_installed"@.len() != "user_deleted"@.len());
    assert("service_installed"@.len() != "group_member_added"@.len());
    assert("service_installed"@.len() != "group_member_removed"@.len());
    assert("service_installed"@[0] != "audit_log_cleared"@[0]);
    assert("service_installed"@.len() != "network_connection"@.len());
    assert("service_installed"@.len() != "file_created"@.len());
    assert("service_installed"@.len() != "windows_event"@.len());
    assert("service_installed"@.len() != "observed"@.len());
    assert("user_created"@[5] != "user_deleted"@[5]);
    assert("user_created"@.len() != "group_member_added"@.len());
    assert("user_created"@.len() != "group_member_removed"@.len());
    assert("user_created"@.len() != "audit_log_cleared"@.len());
    assert("user_created"@.len() != "network_connection"@.len());
    assert("user_created"@[0] != "file_created"@[0]);
    assert("user_created"@.len() != "windows_event"@.len());
    assert("user_created"@.len() != "observed"@.len());
    assert("user_deleted"@.len() != "group_member_added"@.len());
    assert("user_deleted"@.len() != "group_member_removed"@.len());
    assert("user_deleted"@.len() != "audit_log_cleared"@.len());
    assert("user_deleted"@.len() != "network_connection"@.len());
    assert("user_deleted"@[0] != "file_created"@[0]);
    assert("user_deleted"@.len() != "windows_event"@.len());
    assert("user_deleted"@.len() != "observed"@.len());
    assert("group_member_added"@.len() != "group_member_removed"@.len());
    assert("group_member_added"@.len() != "audit_log_cleared"@.len());
    assert("group_member_added"@[0] != "network_connection"@[0]);
    assert("group_member_added"@.len() != "file_created"@.len());
    assert("group_member_added"@.len() != "windows_event"@.len());
    assert("group_member_added"@.len() != "observed"@.len());
    assert("group_member_removed"@.len() != "audit_log_cleared"@.len());
    assert("group_member_removed"@.len() != "network_connection"@.len());
    assert("group_member_removed"@.len() != "file_created"@.len());
    assert("group_member_removed"@.len() != "windows_event"@.len());
    assert("group_member_removed"@.len() != "observed"@.len());
    assert("audit_log_cleared"@.len() != "network_connection"@.len());
    assert("audit_log_cleared"@.len() != "file_created"@.len());
    assert("audit_log_cleared"@.len() != "windows_event"@.len());
    assert("audit_log_cleared"@.len() != "observed"@.len());
    assert("network_connection"@.len() != "file_created"@.len());
    assert("network_connection"@.len() != "windows_event"@.len());
    assert("network_connection"@.len() != "observed"@.len());
    assert("file_created"@.len() != "windows_event"@.len());
    assert("file_created"@.len() != "observed"@.len());
    assert("windows_event"@.len() != "observed"@.len());
}

/// When the level names no severity, a Windows event's severity follows its
/// id: 1102 (audit log cleared) is critical; 4625, 4697, 7045, 5152 and 5157
/// are high; the privilege, group, policy, Kerberos and firewall ids are
/// medium; any other id, or none, is informational. A level naming a severity
/// decides instead.
pub proof fn law_windows_event_severity(n: Option<int>, level: Option<Seq<char>>)
    ensures
        crate::events::level_severity(level) matches Some(s) ==> crate::events::windows_severity(n, level) == s,
        crate::events::level_severity(level) is None ==> ({
            let sv = crate::events::windows_severity(n, level);
            &&& sv == "critical"@ <==> n == Some(1102int)
            &&& sv == "high"@ <==> (n matches Some(n) && (n == 4625 || n == 4697 || n == 7045 || n == 5152 || n == 5157))
            &&& sv == "medium"@ <==> (n matches Some(n) && (n == 4648 || n == 4672 || n == 4732 || n == 4733 || n == 4719 || n == 4768 || n == 4769 || n == 4946 || n == 4947 || n == 4948 || n == 4949 || n == 4950 || n == 4954 || n == 5156))
            &&& sv == "info"@ <==> !(n matches Some(n) && (n == 1102 || n == 4625 || n == 4697 || n == 7045 || n == 5152 || n == 5157 || n == 4648 || n == 4672 || n == 4732 || n == 4733 || n == 4719 || n == 4768 || n == 4769 || n == 4946 || n == 4947 || n == 4948 || n == 4949 || n == 4950 || n == 4954 || n == 5156))
        }),
{
    reveal_strlit("critical");
    reveal_strlit("high");
    reveal_strlit("info");
    reveal_strlit("medium");
    assert("critical"@.len() != "high"@.len());
    assert("critical"@.len() != "medium"@.len());
    assert("critical"@.len() != "info"@.len());
    assert("high"@.len() != "medium"@.len());
    assert("high"@[0] != "info"@[0]);
    assert("medium"@.len() != "info"@.len());
}

/// A level names a severity in any ASCII case: critical when it says critical,
/// else high when it says error or fail, else medium when it says warn, else
/// none.
pub proof fn law_level_severity(level: Seq<char>)
    ensures
        ({
            let lw = lower(level);
            let cr = crate::text::contains(lw, "critical"@);
            let er = crate::text::contains(lw, "error"@) || crate::text::contains(lw, "fail"@);
            let wa = crate::text::contains(lw, "warn"@);
            &&& crate::events::level_severity(Some(level)) == Some("critical"@) <==> cr
            &&& crate::events::level_severity(Some(level)) == Some("high"@) <==> !cr && er
            &&& crate::events::level_severity(Some(level)) == Some("medium"@) <==> !cr && !er && wa
            &&& crate::events::level_severity(Some(level)) is None <==> !cr && !er && !wa
        }),
        crate::events::level_severity(None) is None,
{
    reveal_strlit("critical");
    reveal_strlit("high");
    reveal_strlit("info");
    reveal_strlit("medium");
    assert("critical"@.len() != "high"@.len());
    assert("critical"@.len() != "medium"@.len());
    assert("critical"@.len() != "info"@.len());
    assert("high"@.len() != "medium"@.len());
    assert("high"@[0] != "info"@[0]);
    assert("medium"@.len() != "info"@.len());
}

// ---------------------------------------------------------------------------
// Sysmon event ids
// ---------------------------------------------------------------------------
/// A Sysmon event id names its action by the Sysmon event table: 1 a created
/// process, 2 a changed file creation time, 3 a network connection, 7 a loaded
/// image, 8 a remote thread, 10 a process access, 11 a created file, 12 to 14
/// registry changes, 15 a file stream, 17 and 18 named pipes, 22 a DNS query,
/// 23 and 26 a deleted file; other ids read as Windows events.
pub proof fn law_sysmon_event_actions(n: int)
    ensures
        crate::events::sysmon_action(Some(n)) == "file_create_time_changed"@ <==> (n == 2),
        crate::events::sysmon_action(Some(n)) == "image_loaded"@ <==> (n == 7),
        crate::events::sysmon_action(Some(n)) == "remote_thread_created"@ <==> (n == 8),
        crate::events::sysmon_action(Some(n)) == "process_accessed"@ <==> (n == 10),
        crate::events::sysmon_action(Some(n)) == "registry_object_created_deleted"@ <==> (n == 12),
        crate::events::sysmon_action(Some(n)) == "registry_value_set"@ <==> (n == 13),
        crate::events::sysmon_action(Some(n)) == "registry_object_renamed"@ <==> (n == 14),
        crate::events::sysmon_action(Some(n)) == "file_stream_created"@ <==> (n == 15),
        crate::events::sysmon_action(Some(n)) == "named_pipe_created"@ <==> (n == 17),
        crate::events::sysmon_action(Some(n)) == "named_pipe_connected"@ <==> (n == 18),
        crate::events::sysmon_action(Some(n)) == "dns_query"@ <==> (n == 22),
        crate::events::sysmon_action(Some(n)) == "file_deleted"@ <==> (n == 23 || n == 26),
        n == 1 ==> crate::events::sysmon_action(Some(n)) == "process_created"@,
        n == 3 ==> crate::events::sysmon_action(Some(n)) == "network_connection"@,
        n == 11 ==> crate::events::sysmon_action(Some(n)) == "file_created"@,
        !(n == 2 || n == 7 || n == 8 || n == 10 || n == 12 || n == 13 || n == 14 || n == 15 || n == 17 || n == 18 || n == 22 || n == 23 || n == 26 || n == 1 || n == 3 || n == 11) ==> crate::events::sysmon_action(Some(n))
            == crate::events::windows_action(Some(n)),
{
    reveal_strlit("audit_log_cleared");
    reveal_strlit("dns_query");
    reveal_strlit("explicit_credentials");
    reveal_strlit("file_create_time_changed");
    reveal_strlit("file_created");
    reveal_strlit("file_deleted");
    reveal_strlit("file_stream_created");
    reveal_strlit("group_member_added");
    reveal_strlit("group_member_removed");
    reveal_strlit("image_loaded");
    reveal_strlit("logoff");
    reveal_strlit("logon_failure");
    reveal_strlit("logon_success");
    reveal_strlit("named_pipe_connected");
    reveal_strlit("named_pipe_created");
    reveal_strlit("network_connection");
    reveal_strlit("observed");
    reveal_strlit("process_accessed");
    reveal_strlit("process_created");
    reveal_strlit("process_exited");
    reveal_strlit("registry_object_created_deleted");
    reveal_strlit("registry_object_renamed");
    reveal_strlit("registry_value_set");
    reveal_strlit("remote_thread_created");
    reveal_strlit("service_installed");
    reveal_strlit("special_privileges_assigned");
    reveal_strlit("user_created");
    reveal_strlit("user_deleted");
    reveal_strlit("windows_event");
    assert("file_create_time_changed"@.len() != "image_loaded"@.len());
    assert("file_create_time_changed"@.len() != "remote_thread_created"@.len());
    assert("file_create_time_changed"@.len() != "process_accessed"@.len());
    assert("file_create_time_changed"@.len() != "registry_object_created_deleted"@.len());
    assert("file_create_time_changed"@.len() != "registry_value_set"@.len());
    assert("file_create_time_changed"@.len() != "registry_object_renamed"@.len());
    assert("file_create_time_changed"@.len() != "file_stream_created"@.len());
    assert("file_create_time_changed"@.len() != "named_pipe_created"@.len());
    assert("file_create_time_changed"@.len() != "named_pipe_connected"@.len());
    assert("file_create_time_changed"@.len() != "dns_query"@.len());
    assert("file_create_time_changed"@.len() != "file_deleted"@.len());
    assert("file_create_time_changed"@.len() != "logon_success"@.len());
    assert("file_create_time_changed"@.len() != "logon_failure"@.len());
    assert("file_create_time_changed"@.len() != "logoff"@.len());
    assert("file_create_time_changed"@.len() != "explicit_credentials"@.len());
    assert("file_create_time_changed"@.len() != "special_privileges_assigned"@.len());
    assert("file_create_time_changed"@.len() != "process_created"@.len());
    assert("file_create_time_changed"@.len() != "process_exited"@.len());
    assert("file_create_time_changed"@.len() != "service_installed"@.len());
    assert("file_create_time_changed"@.len() != "user_created"@.len());
    assert("file_create_time_changed"@.len() != "user_deleted"@.len());
    assert("file_create_time_changed"@.len() != "group_member_added"@.len());
    assert("file_create_time_changed"@.len() != "group_member_removed"@.len());
    assert("file_create_time_changed"@.len() != "audit_log_cleared"@.len());
    assert("file_create_time_changed"@.len() != "network_connection"@.len());
    assert("file_create_time_changed"@.len() != "file_created"@.len());
    assert("file_create_time_changed"@.len() != "windows_event"@.len());
    assert("file_create_time_changed"@.len() != "observed"@.len());
    assert("image_loaded"@.len() != "remote_thread_created"@.len());
    assert("image_loaded"@.len() != "process_accessed"@.len());
    assert("image_loaded"@.len() != "registry_object_created_deleted"@.len());
    assert("image_loaded"@.len() != "registry_value_set"@.len());
    assert("image_loaded"@.len() != "registry_object_renamed"@.len());
    assert("image_loaded"@.len() != "file_stream_created"@.len());
    assert("image_loaded"@.len() != "named_pipe_created"@.len());
    assert("image_loaded"@.len() != "named_pipe_connected"@.len());
    assert("image_loaded"@.len() != "dns_query"@.len());
    assert("image_loaded"@[0] != "file_deleted"@[0]);
    assert("image_loaded"@.len() != "logon_success"@.len());
    assert("image_loaded"@.len() != "logon_failure"@.len());
    assert("image_loaded"@.len() != "logoff"@.len());
    assert("image_loaded"@.len() != "explicit_credentials"@.len());
    assert("image_loaded"@.len() != "special_privileges_assigned"@.len());
    assert("image_loaded"@.len() != "process_created"@.len());
    assert("image_loaded"@.len() != "process_exited"@.len());
    assert("image_loaded"@.len() != "service_installed"@.len());
    assert("image_loaded"@[0] != "user_created"@[0]);
    assert("image_loaded"@[0] != "user_deleted"@[0]);
    assert("image_loaded"@.len() != "group_member_added"@.len());
    assert("image_loaded"@.len() != "group_member_removed"@.len());
    assert("image_loaded"@.len() != "audit_log_cleared"@.len());
    assert("image_loaded"@.len() != "network_connection"@.len());
    assert("image_loaded"@[0] != "file_created"@[0]);
    assert("image_loaded"@.len() != "windows_event"@.len());
    assert("image_loaded"@.len() != "observed"@.len());
    assert("remote_thread_created"@.len() != "process_accessed"@.len());
    assert("remote_thread_created"@.len() != "registry_object_created_deleted"@.len());
    assert("remote_thread_created"@.len() != "registry_value_set"@.len());
    assert("remote_thread_created"@.len() != "registry_object_renamed"@.len());
    assert("remote_thread_created"@.len() != "file_stream_created"@.len());
    assert("remote_thread_created"@.len() != "named_pipe_created"@.len());
    assert("remote_thread_created"@.len() != "named_pipe_connected"@.len());
    assert("remote_thread_created"@.len() != "dns_query"@.len());
    assert("remote_thread_created"@.len() != "file_deleted"@.len());
    assert("remote_thread_created"@.len() != "logon_success"@.len());
    assert("remote_thread_created"@.len() != "logon_failure"@.len());
    assert("remote_thread_created"@.len() != "logoff"@.len());
    assert("remote_thread_created"@.len() != "explicit_credentials"@.len());
    assert("remote_thread_created"@.len() != "special_privileges_assigned"@.len());
    assert("remote_thread_created"@.len() != "process_created"@.len());
    assert("remote_thread_created"@.len() != "process_exited"@.len());
    assert("remote_thread_created"@.len() != "service_installed"@.len());
    assert("remote_thread_created"@.len() != "user_created"@.len());
    assert("remote_thread_created"@.len() != "user_deleted"@.len());
    assert("remote_thread_created"@.len() != "group_member_added"@.len());
    assert("remote_thread_created"@.len() != "group_member_removed"@.len());
    assert("remote_thread_created"@.len() != "audit_log_cleared"@.len());
    assert("remote_thread_created"@.len() != "network_connection"@.len());
    assert("remote_thread_created"@.len() != "file_created"@.len());
    assert("remote_thread_created"@.len() != "windows_event"@.len());
    assert("remote_thread_created"@.len() != "observed"@.len());
    assert("process_accessed"@.len() != "registry_object_created_deleted"@.len());
    assert("process_accessed"@.len() != "registry_value_set"@.len());
    assert("process_accessed"@.len() != "registry_object_renamed"@.len());
    assert("process_accessed"@.len() != "file_stream_created"@.len());
    assert("process_accessed"@.len() != "named_pipe_created"@.len());
    assert("process_accessed"@.len() != "named_pipe_connected"@.len());
    assert("process_accessed"@.len() != "dns_query"@.len());
    assert("process_accessed"@.len() != "file_deleted"@.len());
    assert("process_accessed"@.len() != "logon_success"@.len());
    assert("process_accessed"@.len() != "logon_failure"@.len());
    assert("process_accessed"@.len() != "logoff"@.len());
    assert("process_accessed"@.len() != "explicit_credentials"@.len());
    assert("process_accessed"@.len() != "special_privileges_assigned"@.len());
    assert("process_accessed"@.len() != "process_created"@.len());
    assert("process_accessed"@.len() != "process_exited"@.len());
    assert("process_accessed"@.len() != "service_installed"@.len());
    assert("process_accessed"@.len() != "user_created"@.len());
    assert("process_accessed"@.len() != "user_deleted"@.len());
    assert("process_accessed"@.len() != "group_member_added"@.len());
    assert("process_accessed"@.len() != "group_member_removed"@.len());
    assert("process_accessed"@.len() != "audit_log_cleared"@.len());
    assert("process_accessed"@.len() != "network_connection"@.len());
    assert("process_accessed"@.len() != "file_created"@.len());
    assert("process_accessed"@.len() != "windows_event"@.len());
    assert("process_accessed"@.len() != "observed"@.len());
    assert("registry_object_created_deleted"@.len() != "registry_value_set"@.len());
    assert("registry_object_created_deleted"@.len() != "registry_object_renamed"@.len());
    assert("registry_object_created_deleted"@.len() != "file_stream_created"@.len());
    assert("registry_object_created_deleted"@.len() != "named_pipe_created"@.len());
    assert("registry_object_created_deleted"@.len() != "named_pipe_connected"@.len());
    assert("registry_object_created_deleted"@.len() != "dns_query"@.len());
    assert("registry_object_created_deleted"@.len() != "file_deleted"@.len());
    assert("registry_object_created_deleted"@.len() != "logon_success"@.len());
    assert("registry_object_created_deleted"@.len() != "logon_failure"@.len());
    assert("registry_object_created_deleted"@.len() != "logoff"@.len());
    assert("registry_object_created_deleted"@.len() != "explicit_credentials"@.len());
    assert("registry_object_created_deleted"@.len() != "special_privileges_assigned"@.len());
    assert("registry_object_created_deleted"@.len() != "process_created"@.len());
    assert("registry_object_created_deleted"@.len() != "process_exited"@.len());
    assert("registry_object_created_deleted"@.len() != "service_installed"@.len());
    assert("registry_object_created_deleted"@.len() != "user_created"@.len());
    assert("registry_object_created_deleted"@.len() != "user_deleted"@.len());
    assert("registry_object_created_deleted"@.len() != "group_member_added"@.len());
    assert("registry_object_created_deleted"@.len() != "group_member_removed"@.len());
    assert("registry_object_created_deleted"@.len() != "audit_log_cleared"@.len());
    assert("registry_object_created_deleted"@.len() != "network_connection"@.len());
    assert("registry_object_created_deleted"@.len() != "file_created"@.len());
    assert("registry_object_created_deleted"@.len() != "windows_event"@.len());
    assert("registry_object_created_deleted"@.len() != "observed"@.len());
    assert("registry_value_set"@.len() != "registry_object_renamed"@.len());
    assert("registry_value_set"@.len() != "file_stream_created"@.len());
    assert("registry_value_set"@[0] != "named_pipe_created"@[0]);
    assert("registry_value_set"@.len() != "named_pipe_connected"@.len());
    assert("registry_value_set"@.len() != "dns_query"@.len());
    assert("registry_value_set"@.len() != "file_deleted"@.len());
    assert("registry_value_set"@.len() != "logon_success"@.len());
    assert("registry_value_set"@.len() != "logon_failure"@.len());
    assert("registry_value_set"@.len() != "logoff"@.len());
    assert("registry_value_set"@.len() != "explicit_credentials"@.len());
    assert("registry_value_set"@.len() != "special_privileges_assigned"@.len());
    assert("registry_value_set"@.len() != "process_created"@.len());
    assert("registry_value_set"@.len() != "process_exited"@.len());
    assert("registry_value_set"@.len() != "service_installed"@.len());
    assert("registry_value_set"@.len() != "user_created"@.len());
    assert("registry_value_set"@.len() != "user_deleted"@.len());
    assert("registry_value_set"@[0] != "group_member_added"@[0]);
    assert("registry_value_set"@.len() != "group_member_removed"@.len());
    assert("registry_value_set"@.len() != "audit_log_cleared"@.len());
    assert("registry_value_set"@[0] != "network_connection"@[0]);
    assert("registry_value_set"@.len() != "file_created"@.len());
    assert("registry_value_set"@.len() != "windows_event"@.len());
    assert("registry_value_set"@.len() != "observed"@.len());
    assert("registry_object_renamed"@.len() != "file_stream_created"@.len());
    assert("registry_object_renamed"@.len() != "named_pipe_created"@.len());
    assert("registry_object_renamed"@.len() != "named_pipe_connected"@.len());
    assert("registry_object_renamed"@.len() != "dns_query"@.len());
    assert("registry_object_renamed"@.len() != "file_deleted"@.len());
    assert("registry_object_renamed"@.len() != "logon_success"@.len());
    assert("registry_object_renamed"@.len() != "logon_failure"@.len());
    assert("registry_object_renamed"@.len() != "logoff"@.len());
    assert("registry_object_renamed"@.len() != "explicit_credentials"@.len());
    assert("registry_object_renamed"@.len() != "special_privileges_assigned"@.len());
    assert("registry_object_renamed"@.len() != "process_created"@.len());
    assert("registry_object_renamed"@.len() != "process_exited"@.len());
    assert("registry_object_renamed"@.len() != "service_installed"@.len());
    assert("registry_object_renamed"@.len() != "user_created"@.len());
    assert("registry_object_renamed"@.len() != "user_deleted"@.len());
    assert("registry_object_renamed"@.len() != "group_member_added"@.len());
    assert("registry_object_renamed"@.len() != "group_member_removed"@.len());
    assert("registry_object_renamed"@.len() != "audit_log_cleared"@.len());
    assert("registry_object_renamed"@.len() != "network_connection"@.len());
    assert("registry_object_renamed"@.len() != "file_created"@.len());
    assert("registry_object_renamed"@.len() != "windows_event"@.len());
    assert("registry_object_renamed"@.len() != "observed"@.len());
    assert("file_stream_created"@.len() != "named_pipe_created"@.len());
    assert("file_stream_created"@.len() != "named_pipe_connected"@.len());
    assert("file_stream_created"@.len() != "dns_query"@.len());
    assert("file_stream_created"@.len() != "file_deleted"@.len());
    assert("file_stream_created"@.len() != "logon_success"@.len());
    assert("file_stream_created"@.len() != "logon_failure"@.len());
    assert("file_stream_created"@.len() != "logoff"@.len());
    assert("file_stream_created"@.len() != "explicit_credentials"@.len());
    assert("file_stream_created"@.len() != "special_privileges_assigned"@.len());
    assert("file_stream_created"@.len() != "process_created"@.len());
    assert("file_stream_created"@.len() != "process_exited"@.len());
    assert("file_stream_created"@.len() != "service_installed"@.len());
    assert("file_stream_created"@.len() != "user_created"@.len());
    assert("file_stream_created"@.len() != "user_deleted"@.len());
    assert("file_stream_created"@.len() != "group_member_added"@.len());
    assert("file_stream_created"@.len() != "group_member_removed"@.len());
    assert("file_stream_created"@.len() != "audit_log_cleared"@.len());
    assert("file_stream_created"@.len() != "network_connection"@.len());
    assert("file_stream_created"@.len() != "file_created"@.len());
    assert("file_stream_created"@.len() != "windows_event"@.len());
    assert("file_stream_created"@.len() != "observed"@.len());
    assert("named_pipe_created"@.len() != "named_pipe_connected"@.len());
    assert("named_pipe_created"@.len() != "dns_query"@.len());
    assert("named_pipe_created"@.len() != "file_deleted"@.len());
    assert("named_pipe_created"@.len() != "logon_success"@.len());
    assert("named_pipe_created"@.len() != "logon_failure"@.len());
    assert("named_pipe_created"@.len() != "logoff"@.len());
    assert("named_pipe_created"@.len() != "explicit_credentials"@.len());
    assert("named_pipe_created"@.len() != "special_privileges_assigned"@.len());
    assert("named_pipe_created"@.len() != "process_created"@.len());
    assert("named_pipe_created"@.len() != "process_exited"@.len());
    assert("named_pipe_created"@.len() != "service_installed"@.len());
    assert("named_pipe_created"@.len() != "user_created"@.len());
    assert("named_pipe_created"@.len() != "user_deleted"@.len());
    assert("named_pipe_created"@[0] != "group_member_added"@[0]);
    assert("named_pipe_created"@.len() != "group_member_removed"@.len());
    assert("named_pipe_created"@.len() != "audit_log_cleared"@.len());
    assert("named_pipe_created"@[1] != "network_connection"@[1]);
    assert("named_pipe_created"@.len() != "file_created"@.len());
    assert("named_pipe_created"@.len() != "windows_event"@.len());
    assert("named_pipe_created"@.len() != "observed"@.len());
    assert("named_pipe_connected"@.len() != "dns_query"@.len());
    assert("named_pipe_connected"@.len() != "file_deleted"@.len());
    assert("named_pipe_connected"@.len() != "logon_success"@.len());
    assert("named_pipe_connected"@.len() != "logon_failure"@.len());
    assert("named_pipe_connected"@.len() != "logoff"@.len());
    assert("named_pipe_connected"@[0] != "explicit_credentials"@[0]);
    assert("named_pipe_connected"@.len() != "special_privileges_assigned"@.len());
    assert("named_pipe_connected"@.len() != "process_created"@.len());
    assert("named_pipe_connected"@.len() != "process_exited"@.len());
    assert("named_pipe_connected"@.len() != "service_installed"@.len());
    assert("named_pipe_connected"@.len() != "user_created"@.len());
    assert("named_pipe_connected"@.len() != "user_deleted"@.len());
    assert("named_pipe_connected"@.len() != "group_member_added"@.len());
    assert("named_pipe_connected"@[0] != "group_member_removed"@[0]);
    assert("named_pipe_connected"@.len() != "audit_log_cleared"@.len());
    assert("named_pipe_connected"@.len() != "network_connection"@.len());
    assert("named_pipe_connected"@.len() != "file_created"@.len());
    assert("named_pipe_connected"@.len() != "windows_event"@.len());
    assert("named_pipe_connected"@.len() != "observed"@.len());
    assert("dns_query"@.len() != "file_deleted"@.len());
    assert("dns_query"@.len() != "logon_success"@.len());
    assert("dns_query"@.len() != "logon_failure"@.len());
    assert("dns_query"@.len() != "logoff"@.len());
    assert("dns_query"@.len() != "explicit_credentials"@.len());
    assert("dns_query"@.len() != "special_privileges_assigned"@.len());
    assert("dns_query"@.len() != "process_created"@.len());
    assert("dns_query"@.len() != "process_exited"@.len());
    assert("dns_query"@.len() != "service_installed"@.len());
    assert("dns_query"@.len() != "user_created"@.len());
    assert("dns_query"@.len() != "user_deleted"@.len());
    assert("dns_query"@.len() != "group_member_added"@.len());
    assert("dns_query"@.len() != "group_member_removed"@.len());
    assert("dns_query"@.len() != "audit_log_cleared"@.len());
    assert("dns_query"@.len() != "network_connection"@.len());
    assert("dns_query"@.len() != "file_created"@.len());
    assert("dns_query"@.len() != "windows_event"@.len());
    assert("dns_query"@.len() != "observed"@.len());
    assert("file_deleted"@.len() != "logon_success"@.len());
    assert("file_deleted"@.len() != "logon_failure"@.len());
    assert("file_deleted"@.len() != "logoff"@.len());
    assert("file_deleted"@.len() != "explicit_credentials"@.len());
    assert("file_deleted"@.len() != "special_privileges_assigned"@.len());
    assert("file_deleted"@.len() != "process_created"@.len());
    assert("file_deleted"@.len() != "process_exited"@.len());
    assert("file_deleted"@.len() != "service_installed"@.len());
    assert("file_deleted"@[0] != "user_created"@[0]);
    assert("file_deleted"@[0] != "user_deleted"@[0]);
    assert("file_deleted"@.len() != "group_member_added"@.len());
    assert("file_deleted"@.len() != "group_member_removed"@.len());
    assert("file_deleted"@.len() != "audit_log_cleared"@.len());
    assert("file_deleted"@.len() != "network_connection"@.len());
    assert("file_deleted"@[5] != "file_created"@[5]);
    assert("file_deleted"@.len() != "windows_event"@.len());
    assert("file_deleted"@.len() != "observed"@.len());
    assert("logon_success"@[6] != "logon_failure"@[6]);
    assert("logon_success"@.len() != "logoff"@.len());
    assert("logon_success"@.len() != "explicit_credentials"@.len());
    assert("logon_success"@.len() != "special_privileges_assigned"@.len());
    assert("logon_success"@.len() != "process_created"@.len());
    assert("logon_success"@.len() != "process_exited"@.len());
    assert("logon_success"@.len() != "service_installed"@.len());
    assert("logon_success"@.len() != "user_created"@.len());
    assert("logon_success"@.len() != "user_deleted"@.len());
    assert("logon_success"@.len() != "group_member_added"@.len());
    assert("logon_success"@.len() != "group_member_removed"@.len());
    assert("logon_success"@.len() != "audit_log_cleared"@.len());
    assert("logon_success"@.len() != "network_connection"@.len());
    assert("logon_success"@.len() != "file_created"@.len());
    assert("logon_success"@[0] != "windows_event"@[0]);
    assert("logon_success"@.len() != "observed"@.len());
    assert("logon_failure"@.len() != "logoff"@.len());
    assert("logon_failure"@.len() != "explicit_credentials"@.len());
    assert("logon_failure"@.len() != "special_privileges_assigned"@.len());
    assert("logon_failure"@.len() != "process_created"@.len());
    assert("logon_failure"@.len() != "process_exited"@.len());
    assert("logon_failure"@.len() != "service_installed"@.len());
    assert("logon_failure"@.len() != "user_created"@.len());
    assert("logon_failure"@.len() != "user_deleted"@.len());
    assert("logon_failure"@.len() != "group_member_added"@.len());
    assert("logon_failure"@.len() != "group_member_removed"@.len());
    assert("logon_failure"@.len() != "audit_log_cleared"@.len());
    assert("logon_failure"@.len() != "network_connection"@.len());
    assert("logon_failure"@.len() != "file_created"@.len());
    assert("logon_failure"@[0] != "windows_event"@[0]);
    assert("logon_failure"@.len() != "observed"@.len());
    assert("logoff"@.len() != "explicit_credentials"@.len());
    assert("logoff"@.len() != "special_privileges_assigned"@.len());
    assert("logoff"@.len() != "process_created"@.len());
    assert("logoff"@.len() != "process_exited"@.len());
    assert("logoff"@.len() != "service_installed"@.len());
    assert("logoff"@.len() != "user_created"@.len());
    assert("logoff"@.len() != "user_deleted"@.len());
    assert("logoff"@.len() != "group_member_added"@.len());
    assert("logoff"@.len() != "group_member_removed"@.len());
    assert("logoff"@.len() != "audit_log_cleared"@.len());
    assert("logoff"@.len() != "network_connection"@.len());
    assert("logoff"@.len() != "file_created"@.len());
    assert("logoff"@.len() != "windows_event"@.len());
    assert("logoff"@.len() != "observed"@.len());
    assert("explicit_credentials"@.len() != "special_privileges_assigned"@.len());
    assert("explicit_credentials"@.len() != "process_created"@.len());
    assert("explicit_credentials"@.len() != "process_exited"@.len());
    assert("explicit_credentials"@.len() != "service_installed"@.len());
    assert("explicit_credentials"@.len() != "user_created"@.len());
    assert("explicit_credentials"@.len() != "user_deleted"@.len());
    assert("explicit_credentials"@.len() != "group_member_added"@.len());
    assert("explicit_credentials"@[0] != "group_member_removed"@[0]);
    assert("explicit_credentials"@.len() != "audit_log_cleared"@.len());
    assert("explicit_credentials"@.len() != "network_connection"@.len());
    assert("explicit_credentials"@.len() != "file_created"@.len());
    assert("explicit_credentials"@.len() != "windows_event"@.len());
    assert("explicit_credentials"@.len() != "observed"@.len());
    assert("special_privileges_assigned"@.len() != "process_created"@.len());
    assert("special_privileges_assigned"@.len() != "process_exited"@.len());
    assert("special_privileges_assigned"@.len() != "service_installed"@.len());
    assert("special_privileges_assigned"@.len() != "user_created"@.len());
    assert("special_privileges_assigned"@.len() != "user_deleted"@.len());
    assert("special_privileges_assigned"@.len() != "group_member_added"@.len());
    assert("special_privileges_assigned"@.len() != "group_member_removed"@.len());
    assert("special_privileges_assigned"@.len() != "audit_log_cleared"@.len());
    assert("special_privileges_assigned"@.len() != "network_connection"@.len());
    assert("special_privileges_assigned"@.len() != "file_created"@.len());
    assert("special_privileges_assigned"@.len() != "windows_event"@.len());
    assert("special_privileges_assigned"@.len() != "observed"@.len());
    assert("process_created"@.len() != "process_exited"@.len());
    assert("process_created"@.len() != "service_installed"@.len());
    assert("process_created"@.len() != "user_created"@.len());
    assert("process_created"@.len() != "user_deleted"@.len());
    assert("process_created"@.len() != "group_member_added"@.len());
    assert("process_created"@.len() != "group_member_removed"@.len());
    assert("process_created"@.len() != "audit_log_cleared"@.len());
    assert("process_created"@.len() != "network_connection"@.len());
    assert("process_created"@.len() != "file_created"@.len());
    assert("process_created"@.len() != "windows_event"@.len());
    assert("process_created"@.len() != "observed"@.len());
    assert("process_exited"@.len() != "service_installed"@.len());
    assert("process_exited"@.len() != "user_created"@.len());
    assert("process_exited"@.len() != "user_deleted"@.len());
    assert("process_exited"@.len() != "group_member_added"@.len());
    assert("process_exited"@.len() != "group_member_removed"@.len());
    assert("process_exited"@.len() != "audit_log_cleared"@.len());
    assert("process_exited"@.len() != "network_connection"@.len());
    assert("process_exited"@.len() != "file_created"@.len());
    assert("process_exited"@.len() != "windows_event"@.len());
    assert("process_exited"@.len() != "observed"@.len());
    assert("service_installed"@.len() != "user_created"@.len());
    assert("service_installed"@.len() != "user_deleted"@.len());
    assert("service_installed"@.len() != "group_member_added"@.len());
    assert("service_installed"@.len() != "group_member_removed"@.len());
    assert("service_installed"@[0] != "audit_log_cleared"@[0]);
    assert("service_installed"@.len() != "network_connection"@.len());
    assert("service_installed"@.len() != "file_created"@.len());
    assert("service_installed"@.len() != "windows_event"@.len());
    assert("service_installed"@.len() != "observed"@.len());
    assert("user_created"@[5] != "user_deleted"@[5]);
    assert("user_created"@.len() != "group_member_added"@.len());
    assert("user_created"@.len() != "group_member_removed"@.len());
    assert("user_created"@.len() != "audit_log_cleared"@.len());
    assert("user_created"@.len() != "network_connection"@.len());
    assert("user_created"@[0] != "file_created"@[0]);
    assert("user_created"@.len() != "windows_event"@.len());
    assert("user_created"@.len() != "observed"@.len());
    assert("user_deleted"@.len() != "group_member_added"@.len());
    assert("user_deleted"@.len() != "group_member_removed"@.len());
    assert("user_deleted"@.len() != "audit_log_cleared"@.len());
    assert("user_deleted"@.len() != "network_connection"@.len());
    assert("user_deleted"@[0] != "file_created"@[0]);
    assert("user_deleted"@.len() != "windows_event"@.len());
    assert("user_deleted"@.len() != "observed"@.len());
    assert("group_member_added"@.len() != "group_member_removed"@.len());
    assert("group_member_added"@.len() != "audit_log_cleared"@.len());
    assert("group_member_added"@[0] != "network_connection"@[0]);
    assert("group_member_added"@.len() != "file_created"@.len());
    assert("group_member_added"@.len() != "windows_event"@.len());
    assert("group_member_added"@.len() != "observed"@.len());
    assert("group_member_removed"@.len() != "audit_log_cleared"@.len());
    assert("group_member_removed"@.len() != "network_connection"@.len());
    assert("group_member_removed"@.len() != "file_created"@.len());
    assert("group_member_removed"@.len() != "windows_event"@.len());
    assert("group_member_removed"@.len() != "observed"@.len());
    assert("audit_log_cleared"@.len() != "network_connection"@.len());
    assert("audit_log_cleared"@.len() != "file_created"@.len());
    assert("audit_log_cleared"@.len() != "windows_event"@.len());
    assert("audit_log_cleared"@.len() != "observed"@.len());
    assert("network_connection"@.len() != "file_created"@.len());
    assert("network_connection"@.len() != "windows_event"@.len());
    assert("network_connection"@.len() != "observed"@.len());
    assert("file_created"@.len() != "windows_event"@.len());
    assert("file_created"@.len() != "observed"@.len());
    assert("windows_event"@.len() != "observed"@.len());
}

// ---------------------------------------------------------------------------
// Scheduled task severity
// ---------------------------------------------------------------------------
/// A task's command line is informational when empty; otherwise high exactly
/// when, in any ASCII case, it runs a script host or LOLBin (PowerShell, cmd,
/// wscript, cscript, mshta, rundll32, regsvr32, bitsadmin, certutil), encodes
/// or downloads a command, names a URL, or runs from a temporary, profile,
/// program-data or public folder; medium otherwise.
pub proof fn law_task_severity(cmd: Seq<char>)
    ensures
        ({
            let l = lower(cmd);
            let hi = crate::text::contains(l, "powershell"@) || crate::text::contains(l, "pwsh"@) || crate::text::contains(l, "cmd.exe"@) || crate::text::contains(l, "wscript"@) || crate::text::contains(l, "cscript"@) || crate::text::contains(l, "mshta"@) || crate::text::contains(l, "rundll32"@) || crate::text::contains(l, "regsvr32"@) || crate::text::contains(l, "bitsadmin"@) || crate::text::contains(l, "certutil"@) || crate::text::contains(l, "-enc"@) || crate::text::contains(l, "-encodedcommand"@) || crate::text::contains(l, "downloadstring"@) || crate::text::contains(l, "http://"@) || crate::text::contains(l, "https://"@) || crate::text::contains(l, "\\temp\\"@) || crate::text::contains(l, "\\appdata\\"@) || crate::text::contains(l, "\\programdata\\"@) || crate::text::contains(l, "\\public\\"@);
            &&& crate::classify::task_severity(cmd) == "info"@ <==> cmd.len() == 0
            &&& crate::classify::task_severity(cmd) == "high"@ <==> cmd.len() > 0 && hi
            &&& crate::classify::task_severity(cmd) == "medium"@ <==> cmd.len() > 0 && !hi
        }),
{
    reveal_strlit("high");
    reveal_strlit("info");
    reveal_strlit("medium");
    assert("info"@[0] != "high"@[0]);
    assert("info"@.len() != "medium"@.len());
    assert("high"@.len() != "medium"@.len());
    assert(lower(cmd).len() == cmd.len());
}

/// Among lines that are not web traffic and name no authentication or
/// privilege use: a line that mentions PowerShell (or comes from a PowerShell
/// process) is PowerShell activity, suspicious and high exactly when it encodes,
/// decodes or downloads a command; otherwise a line that mentions a transfer
/// tool or verb, with a URL, an address, an executable or a script, is a file
/// transfer, high exactly when it names a payload file; otherwise a line that
/// mentions clearing logs or deleting is tampering, a high log clearing exactly
/// when it clears event logs; and any other line is not classified.
pub proof fn law_activity_lines(
    src: Seq<char>,
    line: Seq<char>,
    l: Seq<char>,
    has_url: bool,
    ps_process: bool,
    has_ip: bool,
)
    requires
        crate::textlog::http_fields(line).0 is None,
        !crate::textlog::web_server_path(lower(src)),
        !(crate::text::contains(l, "failed password"@) || crate::text::contains(l, "failure audit"@) || crate::text::contains(l, "invalid user"@) || crate::text::contains(l, "logon failed"@) || crate::text::contains(l, "4625"@) || crate::text::contains(l, "authentication failure"@)),
        !(crate::text::contains(l, "accepted password"@) || crate::text::contains(l, "successful logon"@) || crate::text::contains(l, "logon success"@) || crate::text::contains(l, "4624"@) || crate::text::contains(l, "session opened"@)),
        !(crate::text::contains(l, " sudo:"@) || crate::text::contains(l, "sudo "@) || crate::text::contains(l, " su:"@) || crate::text::contains(l, "runas"@) || crate::text::contains(l, "privilege escalation"@)),
    ensures
        ((crate::text::contains(l, "powershell"@) || crate::text::contains(l, "encodedcommand"@) || crate::text::contains(l, " -enc "@) || crate::text::contains(l, "frombase64string"@) || crate::text::contains(l, "iex "@) || crate::text::contains(l, "invoke-webrequest"@) || crate::text::contains(l, "downloadstring"@) || crate::text::contains(l, "start-bitstransfer"@)) || ps_process) ==> (crate::textlog::text_class(src, line, l, has_url, ps_process, has_ip) matches Some(c) && c.0 == "powershell"@
            && (c.1 == "suspicious_powershell"@ <==> (crate::text::contains(l, "encodedcommand"@) || crate::text::contains(l, " -enc "@) || crate::text::contains(l, "frombase64string"@) || crate::text::contains(l, "downloadstring"@) || crate::text::contains(l, "iex "@)))
            && (c.1 == "powershell_activity"@ <==> !(crate::text::contains(l, "encodedcommand"@) || crate::text::contains(l, " -enc "@) || crate::text::contains(l, "frombase64string"@) || crate::text::contains(l, "downloadstring"@) || crate::text::contains(l, "iex "@)))
            && (c.3 == "high"@ <==> (crate::text::contains(l, "encodedcommand"@) || crate::text::contains(l, " -enc "@) || crate::text::contains(l, "frombase64string"@) || crate::text::contains(l, "downloadstring"@) || crate::text::contains(l, "iex "@))) && (c.3 == "medium"@ <==> !(crate::text::contains(l, "encodedcommand"@) || crate::text::contains(l, " -enc "@) || crate::text::contains(l, "frombase64string"@) || crate::text::contains(l, "downloadstring"@) || crate::text::contains(l, "iex "@)))),
        !((crate::text::contains(l, "powershell"@) || crate::text::contains(l, "encodedcommand"@) || crate::text::contains(l, " -enc "@) || crate::text::contains(l, "frombase64string"@) || crate::text::contains(l, "iex "@) || crate::text::contains(l, "invoke-webrequest"@) || crate::text::contains(l, "downloadstring"@) || crate::text::contains(l, "start-bitstransfer"@)) || ps_process) && (crate::text::contains(l, "curl "@) || crate::text::contains(l, "wget "@) || crate::text::contains(l, "bitsadmin"@) || crate::text::contains(l, "certutil"@) || crate::text::contains(l, "download"@) || crate::text::contains(l, "upload"@) || crate::text::contains(l, "put "@) || crate::text::contains(l, "get "@) || crate::text::contains(l, "file transfer"@)) && (has_url || has_ip || crate::text::contains(l, ".exe"@)
            || crate::text::contains(l, ".ps1"@)) ==> (crate::textlog::text_class(src, line, l, has_url, ps_process, has_ip) matches Some(c) && c.0 == "file_transfer"@
            && c.1 == "file_transfer"@ && (c.3 == "high"@ <==> (crate::text::contains(l, ".exe"@) || crate::text::contains(l, ".dll"@) || crate::text::contains(l, ".ps1"@) || crate::text::contains(l, ".bat"@) || crate::text::contains(l, ".cmd"@))) && (c.3 == "medium"@ <==> !(crate::text::contains(l, ".exe"@) || crate::text::contains(l, ".dll"@) || crate::text::contains(l, ".ps1"@) || crate::text::contains(l, ".bat"@) || crate::text::contains(l, ".cmd"@)))),
        !((crate::text::contains(l, "powershell"@) || crate::text::contains(l, "encodedcommand"@) || crate::text::contains(l, " -enc "@) || crate::text::contains(l, "frombase64string"@) || crate::text::contains(l, "iex "@) || crate::text::contains(l, "invoke-webrequest"@) || crate::text::contains(l, "downloadstring"@) || crate::text::contains(l, "start-bitstransfer"@)) || ps_process) && !((crate::text::contains(l, "curl "@) || crate::text::contains(l, "wget "@) || crate::text::contains(l, "bitsadmin"@) || crate::text::contains(l, "certutil"@) || crate::text::contains(l, "download"@) || crate::text::contains(l, "upload"@) || crate::text::contains(l, "put "@) || crate::text::contains(l, "get "@) || crate::text::contains(l, "file transfer"@)) && (has_url || has_ip || crate::text::contains(l, ".exe"@)
            || crate::text::contains(l, ".ps1"@))) && (crate::text::contains(l, "wevtutil cl"@) || crate::text::contains(l, "event log cleared"@) || crate::text::contains(l, "cleared the security log"@) || crate::text::contains(l, "delete"@) || crate::text::contains(l, "deleted"@) || crate::text::contains(l, "removed"@) || crate::text::contains(l, "rmdir"@) || crate::text::contains(l, "rm -rf"@)) ==> (crate::textlog::text_class(src, line, l, has_url, ps_process, has_ip) matches Some(c)
            && c.0 == "tamper_or_deletion"@ && (c.1 == "log_clearing"@ <==> (crate::text::contains(l, "wevtutil"@) || crate::text::contains(l, "event log cleared"@) || crate::text::contains(l, "cleared the security log"@)))
            && (c.1 == "file_deletion"@ <==> !(crate::text::contains(l, "wevtutil"@) || crate::text::contains(l, "event log cleared"@) || crate::text::contains(l, "cleared the security log"@))) && (c.3 == "high"@ <==> (crate::text::contains(l, "wevtutil"@) || crate::text::contains(l, "event log cleared"@) || crate::text::contains(l, "cleared the security log"@)))),
        !((crate::text::contains(l, "powershell"@) || crate::text::contains(l, "encodedcommand"@) || crate::text::contains(l, " -enc "@) || crate::text::contains(l, "frombase64string"@) || crate::text::contains(l, "iex "@) || crate::text::contains(l, "invoke-webrequest"@) || crate::text::contains(l, "downloadstring"@) || crate::text::contains(l, "start-bitstransfer"@)) || ps_process) && !((crate::text::contains(l, "curl "@) || crate::text::contains(l, "wget "@) || crate::text::contains(l, "bitsadmin"@) || crate::text::contains(l, "certutil"@) || crate::text::contains(l, "download"@) || crate::text::contains(l, "upload"@) || crate::text::contains(l, "put "@) || crate::text::contains(l, "get "@) || crate::text::contains(l, "file transfer"@)) && (has_url || has_ip || crate::text::contains(l, ".exe"@)
            || crate::text::contains(l, ".ps1"@))) && !(crate::text::contains(l, "wevtutil cl"@) || crate::text::contains(l, "event log cleared"@) || crate::text::contains(l, "cleared the security log"@) || crate::text::contains(l, "delete"@) || crate::text::contains(l, "deleted"@) || crate::text::contains(l, "removed"@) || crate::text::contains(l, "rmdir"@) || crate::text::contains(l, "rm -rf"@)) ==> crate::textlog::text_class(src, line, l, has_url, ps_process, has_ip) is None,
{
    reveal_strlit("file_deletion");
    reveal_strlit("file_transfer");
    reveal_strlit("high");
    reveal_strlit("log_clearing");
    reveal_strlit("medium");
    reveal_strlit("powershell");
    reveal_strlit("powershell_activity");
    reveal_strlit("suspicious_powershell");
    reveal_strlit("tamper_or_deletion");
    assert("powershell"@.len() != "suspicious_powershell"@.len());
    assert("powershell"@.len() != "powershell_activity"@.len());
    assert("powershell"@.len() != "file_transfer"@.len());
    assert("powershell"@.len() != "tamper_or_deletion"@.len());
    assert("powershell"@.len() != "log_clearing"@.len());
    assert("powershell"@.len() != "file_deletion"@.len());
    assert("powershell"@.len() != "high"@.len());
    assert("powershell"@.len() != "medium"@.len());
    assert("suspicious_powershell"@.len() != "powershell_activity"@.len());
    assert("suspicious_powershell"@.len() != "file_transfer"@.len());
    assert("suspicious_powershell"@.len() != "tamper_or_deletion"@.len());
    assert("suspicious_powershell"@.len() != "log_clearing"@.len());
    assert("suspicious_powershell"@.len() != "file_deletion"@.len());
    assert("suspicious_powershell"@.len() != "high"@.len());
    assert("suspicious_powershell"@.len() != "medium"@.len());
    assert("powershell_activity"@.len() != "file_transfer"@.len());
    assert("powershell_activity"@.len() != "tamper_or_deletion"@.len());
    assert("powershell_activity"@.len() != "log_clearing"@.len());
    assert("powershell_activity"@.len() != "file_deletion"@.len());
    assert("powershell_activity"@.len() != "high"@.len());
    assert("powershell_activity"@.len() != "medium"@.len());
    assert("file_transfer"@.len() != "tamper_or_deletion"@.len());
    assert("file_transfer"@.len() != "log_clearing"@.len());
    assert("file_transfer"@[5] != "file_deletion"@[5]);
    assert("file_transfer"@.len() != "high"@.len());
    assert("file_transfer"@.len() != "medium"@.len());
    assert("tamper_or_deletion"@.len() != "log_clearing"@.len());
    assert("tamper_or_deletion"@.len() != "file_deletion"@.len());
    assert("tamper_or_deletion"@.len() != "high"@.len());
    assert("tamper_or_deletion"@.len() != "medium"@.len());
    assert("log_clearing"@.len() != "file_deletion"@.len());
    assert("log_clearing"@.len() != "high"@.len());
    assert("log_clearing"@.len() != "medium"@.len());
    assert("file_deletion"@.len() != "high"@.len());
    assert("file_deletion"@.len() != "medium"@.len());
    assert("high"@.len() != "medium"@.len());
}

/// A log path is a web server's exactly when, lower-cased, it names IIS
/// (`w3svc`, `u_ex`, `inetpub`, `iis`, `httperr`) or an `access.log`.
pub proof fn law_web_server_paths(sl: Seq<char>)
    ensures
        crate::textlog::web_server_path(sl) <==> (crate::text::contains(sl, "w3svc"@) || crate::text::contains(sl, "u_ex"@) || crate::text::contains(sl, "inetpub"@) || crate::text::contains(sl, "iis"@) || crate::text::contains(sl, "httperr"@) || crate::text::contains(sl, "access.log"@)),
{
}

/// A line holding an HTTP request, or from a web server log and naming a URL or
/// an address, is web access. It is a suspicious request of medium severity
/// exactly when its status is 400 or more or it holds a command, an exec, a web
/// shell, PowerShell, mimikatz, an upload or download path, a script page or a
/// path traversal; an ordinary informational request otherwise.
pub proof fn law_web_access_lines(
    src: Seq<char>,
    line: Seq<char>,
    l: Seq<char>,
    has_url: bool,
    ps_process: bool,
    has_ip: bool,
)
    requires
        crate::textlog::http_fields(line).0 is Some || (crate::textlog::web_server_path(lower(src))
            && (has_url || has_ip)),
    ensures
        ({
            let bad = (match crate::textlog::http_fields(line).1 {
                Some(v) => v >= 400,
                None => false,
            }) || (crate::text::contains(l, "cmd="@) || crate::text::contains(l, "exec"@) || crate::text::contains(l, "webshell"@) || crate::text::contains(l, "powershell"@) || crate::text::contains(l, "mimikatz"@) || crate::text::contains(l, "/upload"@) || crate::text::contains(l, "/download"@) || crate::text::contains(l, ".aspx"@) || crate::text::contains(l, ".ashx"@) || crate::text::contains(l, ".php"@) || crate::text::contains(l, "../"@) || crate::text::contains(l, "%2e%2e"@));
            crate::textlog::text_class(src, line, l, has_url, ps_process, has_ip) matches Some(c) && c.0 == "web_access"@ && c.2 == "http_request_observed"@
                && (c.1 == "suspicious_http_request"@ <==> bad) && (c.1 == "http_request"@ <==> !bad)
                && (c.3 == "medium"@ <==> bad) && (c.3 == "info"@ <==> !bad)
                && c.4 == crate::textlog::http_fields(line).0 && c.5 == crate::textlog::http_fields(line).1
        }),
{
    reveal_strlit("http_request");
    reveal_strlit("http_request_observed");
    reveal_strlit("info");
    reveal_strlit("medium");
    reveal_strlit("suspicious_http_request");
    reveal_strlit("web_access");
    assert("web_access"@.len() != "suspicious_http_request"@.len());
    assert("web_access"@.len() != "http_request"@.len());
    assert("web_access"@.len() != "http_request_observed"@.len());
    assert("web_access"@.len() != "medium"@.len());
    assert("web_access"@.len() != "info"@.len());
    assert("suspicious_http_request"@.len() != "http_request"@.len());
    assert("suspicious_http_request"@.len() != "http_request_observed"@.len());
    assert("suspicious_http_request"@.len() != "medium"@.len());
    assert("suspicious_http_request"@.len() != "info"@.len());
    assert("http_request"@.len() != "http_request_observed"@.len());
    assert("http_request"@.len() != "medium"@.len());
    assert("http_request"@.len() != "info"@.len());
    assert("http_request_observed"@.len() != "medium"@.len());
    assert("http_request_observed"@.len() != "info"@.len());
    assert("medium"@.len() != "info"@.len());
}

// ---------------------------------------------------------------------------
// Severity scales
// ---------------------------------------------------------------------------
/// A Hayabusa level reads, in any ASCII case, by its prefix: `crit` is
/// critical, `high` high, `med` (or any mention of a warning) medium, `low`
/// low, and anything else informational.
pub proof fn law_hayabusa_levels(level: Seq<char>)
    ensures
        ({
            let l = lower(level);
            let cr = crate::text::starts_with(l, "crit"@);
            let hi = crate::text::starts_with(l, "high"@);
            let me = crate::text::starts_with(l, "med"@) || crate::text::contains(l, "warn"@);
            let lo = crate::text::starts_with(l, "low"@);
            &&& crate::classify::hayabusa_severity(level) == "critical"@ <==> cr
            &&& crate::classify::hayabusa_severity(level) == "high"@ <==> !cr && hi
            &&& crate::classify::hayabusa_severity(level) == "medium"@ <==> !cr && !hi && me
            &&& crate::classify::hayabusa_severity(level) == "low"@ <==> !cr && !hi && !me && lo
            &&& crate::classify::hayabusa_severity(level) == "info"@ <==> !cr && !hi && !me && !lo
        }),
{
    reveal_strlit("critical");
    reveal_strlit("high");
    reveal_strlit("info");
    reveal_strlit("low");
    reveal_strlit("medium");
    assert("critical"@.len() != "high"@.len());
    assert("critical"@.len() != "medium"@.len());
    assert("critical"@.len() != "low"@.len());
    assert("critical"@.len() != "info"@.len());
    assert("high"@.len() != "medium"@.len());
    assert("high"@.len() != "low"@.len());
    assert("high"@[0] != "info"@[0]);
    assert("medium"@.len() != "low"@.len());
    assert("medium"@.len() != "info"@.len());
    assert("low"@.len() != "info"@.len());
}

/// What an event's semantics say raises its severity: roasting candidates,
/// PsExec and blocked traffic make it high; outbound traffic, audit policy
/// changes and RDP logons make it at least medium, keeping a critical or high
/// one; otherwise it stays as it was.
pub proof fn law_semantic_severity(base: Seq<char>, sem: crate::semantics::EvtxSemantics)
    ensures
        (crate::semantics::has_label(sem, "asrep_roast_candidate"@) || crate::semantics::has_label(sem, "kerberoast_candidate"@) || crate::semantics::has_label(sem, "psexec_service"@) || crate::semantics::has_label(sem, "psexec_named_pipe"@) || crate::semantics::has_label(sem, "firewall_block"@)) ==> crate::semantics::semantic_severity(base, sem) == "high"@,
        !(crate::semantics::has_label(sem, "asrep_roast_candidate"@) || crate::semantics::has_label(sem, "kerberoast_candidate"@) || crate::semantics::has_label(sem, "psexec_service"@) || crate::semantics::has_label(sem, "psexec_named_pipe"@) || crate::semantics::has_label(sem, "firewall_block"@)) && (crate::semantics::has_label(sem, "firewall_outbound"@) || crate::semantics::has_label(sem, "audit_policy_changed"@) || crate::semantics::has_label(sem, "system_audit_policy_changed"@) || crate::semantics::has_label(sem, "rdp_logon_type_10"@)) ==> crate::semantics::semantic_severity(base, sem) == (if base == "critical"@
            || base == "high"@ {
            base
        } else {
            "medium"@
        }),
        !(crate::semantics::has_label(sem, "asrep_roast_candidate"@) || crate::semantics::has_label(sem, "kerberoast_candidate"@) || crate::semantics::has_label(sem, "psexec_service"@) || crate::semantics::has_label(sem, "psexec_named_pipe"@) || crate::semantics::has_label(sem, "firewall_block"@)) && !(crate::semantics::has_label(sem, "firewall_outbound"@) || crate::semantics::has_label(sem, "audit_policy_changed"@) || crate::semantics::has_label(sem, "system_audit_policy_changed"@) || crate::semantics::has_label(sem, "rdp_logon_type_10"@)) ==> crate::semantics::semantic_severity(base, sem) == base,
{
}

/// The plain-text parser takes the files whose name ends, in any ASCII case,
/// with `.txt`, `.log` or `.fake`.
pub proof fn law_plain_text_paths(path: Seq<char>)
    ensures
        crate::artifact::plain_text_path(path) <==> (crate::text::ends_with(lower(path), ".txt"@)
            || crate::text::ends_with(lower(path), ".log"@) || crate::text::ends_with(lower(path), ".fake"@)),
{
}

} // verus!
