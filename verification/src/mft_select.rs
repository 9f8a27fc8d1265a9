//! Which MFT records become events when a volume has too many: a priority
//! for each record, and the selection of the best ten thousand.
use vstd::prelude::*;
use crate::mft::{MftAttributeSummary, MftNativeRecord, MftResidentContentSummary};
use crate::text::{chars_of, contains, contains_str, ends_with, ends_with_str, eq_str, lower, lower_chars, seq_eq, string_from, string_of};

verus! {

// ---------------------------------------------------------------------------
// File names
// ---------------------------------------------------------------------------

pub open spec fn critical_name_words(l: Seq<char>) -> bool {
    ||| contains(l, "moveit"@)
    ||| contains(l, "move.aspx"@)
    ||| contains(l, "moveit.asp"@)
    ||| contains(l, "webshell"@)
    ||| contains(l, "shell"@)
    ||| contains(l, "payload"@)
    ||| contains(l, "beacon"@)
    ||| contains(l, "mimikatz"@)
    ||| contains(l, "rubeus"@)
    ||| contains(l, "sharphound"@)
    ||| contains(l, "bloodhound"@)
    ||| contains(l, "powershell"@)
    ||| contains(l, "cmd.exe"@)
    ||| contains(l, "wscript"@)
    ||| contains(l, "cscript"@)
    ||| contains(l, "psexec"@)
    ||| contains(l, "procdump"@)
    ||| contains(l, "lsass"@)
    ||| contains(l, "ntds.dit"@)
    ||| contains(l, "sam"@)
    ||| contains(l, "system"@)
    ||| contains(l, "security"@)
    ||| contains(l, "consolehost_history"@)
}

pub(crate) fn critical_name_words_exec(l: &[char]) -> (r: bool)
    ensures
        r == critical_name_words(l@),
{
    contains_str(l, "moveit")
        || contains_str(l, "move.aspx")
        || contains_str(l, "moveit.asp")
        || contains_str(l, "webshell")
        || contains_str(l, "shell")
        || contains_str(l, "payload")
        || contains_str(l, "beacon")
        || contains_str(l, "mimikatz")
        || contains_str(l, "rubeus")
        || contains_str(l, "sharphound")
        || contains_str(l, "bloodhound")
        || contains_str(l, "powershell")
        || contains_str(l, "cmd.exe")
        || contains_str(l, "wscript")
        || contains_str(l, "cscript")
        || contains_str(l, "psexec")
        || contains_str(l, "procdump")
        || contains_str(l, "lsass")
        || contains_str(l, "ntds.dit")
        || contains_str(l, "sam")
        || contains_str(l, "system")
        || contains_str(l, "security")
        || contains_str(l, "consolehost_history")
}

/// A (lower-cased) file name that names attack tooling or credential stores.
pub open spec fn critical_name(l: Seq<char>) -> bool {
    l.len() > 0 && critical_name_words(l)
}

pub fn mft_filename_has_critical_name(lower: &str) -> (r: bool)
    ensures
        r == critical_name(lower@),
{
    let l = chars_of(lower);
    l.len() > 0 && critical_name_words_exec(l.as_slice())
}


/// A web page or script.
pub open spec fn web_or_script_ext(l: Seq<char>) -> bool {
    ||| ends_with(l, ".aspx"@)
    ||| ends_with(l, ".asp"@)
    ||| ends_with(l, ".ashx"@)
    ||| ends_with(l, ".asmx"@)
    ||| ends_with(l, ".php"@)
    ||| ends_with(l, ".jsp"@)
    ||| ends_with(l, ".ps1"@)
    ||| ends_with(l, ".psm1"@)
    ||| ends_with(l, ".bat"@)
    ||| ends_with(l, ".cmd"@)
    ||| ends_with(l, ".vbs"@)
    ||| ends_with(l, ".vbe"@)
    ||| ends_with(l, ".js"@)
    ||| ends_with(l, ".jse"@)
    ||| ends_with(l, ".hta"@)
}

pub(crate) fn web_or_script_ext_exec(l: &[char]) -> (r: bool)
    ensures
        r == web_or_script_ext(l@),
{
    ends_with_str(l, ".aspx")
        || ends_with_str(l, ".asp")
        || ends_with_str(l, ".ashx")
        || ends_with_str(l, ".asmx")
        || ends_with_str(l, ".php")
        || ends_with_str(l, ".jsp")
        || ends_with_str(l, ".ps1")
        || ends_with_str(l, ".psm1")
        || ends_with_str(l, ".bat")
        || ends_with_str(l, ".cmd")
        || ends_with_str(l, ".vbs")
        || ends_with_str(l, ".vbe")
        || ends_with_str(l, ".js")
        || ends_with_str(l, ".jse")
        || ends_with_str(l, ".hta")
}

pub fn mft_filename_has_web_or_script_extension(lower: &str) -> (r: bool)
    ensures
        r == web_or_script_ext(lower@),
{
    let l = chars_of(lower);
    web_or_script_ext_exec(l.as_slice())
}


/// An executable, shortcut, archive, dump or credential store.
pub open spec fn execution_or_archive_ext(l: Seq<char>) -> bool {
    ||| ends_with(l, ".exe"@)
    ||| ends_with(l, ".msi"@)
    ||| ends_with(l, ".scr"@)
    ||| ends_with(l, ".lnk"@)
    ||| ends_with(l, ".pf"@)
    ||| ends_with(l, ".kdbx"@)
    ||| ends_with(l, ".zip"@)
    ||| ends_with(l, ".rar"@)
    ||| ends_with(l, ".7z"@)
    ||| ends_with(l, ".tar"@)
    ||| ends_with(l, ".gz"@)
    ||| ends_with(l, ".cab"@)
    ||| ends_with(l, ".evtx"@)
    ||| ends_with(l, ".dmp"@)
    ||| ends_with(l, ".kirbi"@)
    ||| ends_with(l, ".dit"@)
    ||| ends_with(l, ".config"@)
    ||| ends_with(l, ".history"@)
}

pub(crate) fn execution_or_archive_ext_exec(l: &[char]) -> (r: bool)
    ensures
        r == execution_or_archive_ext(l@),
{
    ends_with_str(l, ".exe")
        || ends_with_str(l, ".msi")
        || ends_with_str(l, ".scr")
        || ends_with_str(l, ".lnk")
        || ends_with_str(l, ".pf")
        || ends_with_str(l, ".kdbx")
        || ends_with_str(l, ".zip")
        || ends_with_str(l, ".rar")
        || ends_with_str(l, ".7z")
        || ends_with_str(l, ".tar")
        || ends_with_str(l, ".gz")
        || ends_with_str(l, ".cab")
        || ends_with_str(l, ".evtx")
        || ends_with_str(l, ".dmp")
        || ends_with_str(l, ".kirbi")
        || ends_with_str(l, ".dit")
        || ends_with_str(l, ".config")
        || ends_with_str(l, ".history")
}

pub fn mft_filename_has_execution_or_archive_extension(lower: &str) -> (r: bool)
    ensures
        r == execution_or_archive_ext(lower@),
{
    let l = chars_of(lower);
    execution_or_archive_ext_exec(l.as_slice())
}

/// A library or driver.
pub open spec fn platform_binary_ext(l: Seq<char>) -> bool {
    ends_with(l, ".dll"@) || ends_with(l, ".sys"@)
}

pub fn mft_filename_has_platform_binary_extension(lower: &str) -> (r: bool)
    ensures
        r == platform_binary_ext(lower@),
{
    let l = chars_of(lower);
    ends_with_str(l.as_slice(), ".dll") || ends_with_str(l.as_slice(), ".sys")
}

pub open spec fn interesting_ext(l: Seq<char>) -> bool {
    web_or_script_ext(l) || execution_or_archive_ext(l) || platform_binary_ext(l)
}

pub fn mft_filename_has_interesting_extension(lower: &str) -> (r: bool)
    ensures
        r == interesting_ext(lower@),
{
    mft_filename_has_web_or_script_extension(lower) || mft_filename_has_execution_or_archive_extension(
        lower,
    ) || mft_filename_has_platform_binary_extension(lower)
}

// ---------------------------------------------------------------------------
// Record facts
// ---------------------------------------------------------------------------
pub open spec fn ostr(o: Option<String>) -> Option<Seq<char>> {
    match o {
        Some(s) => Some(s@),
        None => None,
    }
}

/// Both times present and different.
pub open spec fn times_differ(a: Option<String>, b: Option<String>) -> bool {
    match (a, b) {
        (Some(x), Some(y)) => x@ != y@,
        _ => false,
    }
}

/// A $STANDARD_INFORMATION time that differs from the matching $FILE_NAME time.
pub open spec fn si_fn_mismatch(r: MftNativeRecord) -> bool {
    ||| times_differ(r.si_created, r.fn_created)
    ||| times_differ(r.si_modified, r.fn_modified)
    ||| times_differ(r.si_record_changed, r.fn_record_changed)
    ||| times_differ(r.si_accessed, r.fn_accessed)
}

fn times_differ_exec(a: &Option<String>, b: &Option<String>) -> (r: bool)
    ensures
        r == times_differ(*a, *b),
{
    match (a, b) {
        (Some(x), Some(y)) => {
            let xv = chars_of(x.as_str());
            let yv = chars_of(y.as_str());
            !seq_eq(xv.as_slice(), yv.as_slice())
        },
        _ => false,
    }
}

pub fn mft_si_fn_timestamp_mismatch(record: &MftNativeRecord) -> (r: bool)
    ensures
        r == si_fn_mismatch(*record),
{
    times_differ_exec(&record.si_created, &record.fn_created) || times_differ_exec(
        &record.si_modified,
        &record.fn_modified,
    ) || times_differ_exec(&record.si_record_changed, &record.fn_record_changed)
        || times_differ_exec(&record.si_accessed, &record.fn_accessed)
}

/// The attribute type names of a record, each once, in order of first
/// appearance.
pub open spec fn distinct_types(attrs: Seq<MftAttributeSummary>) -> Seq<Seq<char>>
    decreases attrs.len(),
{
    if attrs.len() == 0 {
        Seq::empty()
    } else {
        let prev = distinct_types(attrs.drop_last());
        let t = attrs.last().attr_type_name@;
        if prev.contains(t) {
            prev
        } else {
            prev.push(t)
        }
    }
}

pub open spec fn static_views(v: Seq<&'static str>) -> Seq<Seq<char>> {
    v.map_values(|s: &'static str| s@)
}

fn contains_static(v: &Vec<&'static str>, x: &'static str) -> (r: bool)
    ensures
        r == static_views(v@).contains(x@),
{
    let mut i: usize = 0;
    while i < v.len()
        invariant
            i <= v.len(),
            forall|j: int| 0 <= j < i ==> #[trigger] static_views(v@)[j] != x@,
        decreases v.len() - i,
    {
        let a = chars_of(v[i]);
        let b = chars_of(x);
        if seq_eq(a.as_slice(), b.as_slice()) {
            assert(static_views(v@)[i as int] == x@);
            return true;
        }
        i = i + 1;
    }
    assert forall|j: int| 0 <= j < static_views(v@).len() implies #[trigger] static_views(v@)[j]
        != x@ by {}
    false
}

pub fn mft_attribute_types(attributes: &[MftAttributeSummary]) -> (r: Vec<&'static str>)
    ensures
        static_views(r@) == distinct_types(attributes@),
{
    let mut out: Vec<&'static str> = Vec::new();
    let mut i: usize = 0;
    assert(static_views(out@) =~= distinct_types(attributes@.subrange(0, 0)));
    while i < attributes.len()
        invariant
            i <= attributes.len(),
            static_views(out@) == distinct_types(attributes@.subrange(0, i as int)),
        decreases attributes.len() - i,
    {
        assert(attributes@.subrange(0, i + 1).drop_last() =~= attributes@.subrange(0, i as int));
        let t = attributes[i].attr_type_name;
        if !contains_static(&out, t) {
            let ghost prev = static_views(out@);
            out.push(t);
            assert(static_views(out@) =~= prev.push(t@));
        }
        i = i + 1;
    }
    assert(attributes@.subrange(0, attributes@.len() as int) =~= attributes@);
    out
}

/// The time shown for resident content: the first known of the
/// $STANDARD_INFORMATION and $FILE_NAME modification and creation times, else
/// the epoch.
pub open spec fn resident_event_time(r: MftNativeRecord) -> Seq<char> {
    match ostr(r.si_modified) {
        Some(t) => t,
        None => match ostr(r.fn_modified) {
            Some(t) => t,
            None => match ostr(r.si_created) {
                Some(t) => t,
                None => match ostr(r.fn_created) {
                    Some(t) => t,
                    None => "1970-01-01T00:00:00+00:00"@,
                },
            },
        },
    }
}

pub fn mft_resident_event_time(record: &MftNativeRecord) -> (r: String)
    ensures
        r@ == resident_event_time(*record),
{
    match &record.si_modified {
        Some(t) => t.clone(),
        None => match &record.fn_modified {
            Some(t) => t.clone(),
            None => match &record.si_created {
                Some(t) => t.clone(),
                None => match &record.fn_created {
                    Some(t) => t.clone(),
                    None => string_of("1970-01-01T00:00:00+00:00"),
                },
            },
        },
    }
}

// ---------------------------------------------------------------------------
// Priorities
// ---------------------------------------------------------------------------
/// Resident content that is an alternate data stream or names a download URL.
pub open spec fn stream_item(c: MftResidentContentSummary) -> bool {
    c.stream_kind@ == "ads"@ || c.host_url is Some
}

pub open spec fn has_stream_content(cs: Seq<MftResidentContentSummary>) -> bool {
    exists|k: int| 0 <= k < cs.len() && #[trigger] stream_item(cs[k])
}

/// The lower-cased file name of a record, empty when it has none.
pub open spec fn record_name(r: MftNativeRecord) -> Seq<char> {
    lower(
        match ostr(r.file_name) {
            Some(n) => n,
            None => Seq::empty(),
        },
    )
}

/// How urgently a record deserves an event (lower first); none when it does
/// not: streams 0, critical names 1, web pages and scripts 2, executables and
/// archives 3, libraries 8, time mismatches 10, deleted interesting files 20,
/// other deleted files 30, and the first 1024 records 80.
pub open spec fn record_priority(r: MftNativeRecord, idx: int) -> Option<int> {
    let l = record_name(r);
    if has_stream_content(r.resident_contents@) {
        Some(0)
    } else if critical_name(l) {
        Some(1)
    } else if web_or_script_ext(l) {
        Some(2)
    } else if execution_or_archive_ext(l) {
        Some(3)
    } else if platform_binary_ext(l) {
        Some(8)
    } else if si_fn_mismatch(r) {
        Some(10)
    } else if !r.in_use && interesting_ext(l) {
        Some(20)
    } else if !r.in_use {
        Some(30)
    } else if idx < 1024 {
        Some(80)
    } else {
        None
    }
}

fn has_stream_content_exec(cs: &Vec<MftResidentContentSummary>) -> (r: bool)
    ensures
        r == has_stream_content(cs@),
{
    let mut i: usize = 0;
    while i < cs.len()
        invariant
            i <= cs.len(),
            forall|k: int| 0 <= k < i ==> !#[trigger] stream_item(cs@[k]),
        decreases cs.len() - i,
    {
        let kind = chars_of(cs[i].stream_kind);
        if eq_str(kind.as_slice(), "ads") || cs[i].host_url.is_some() {
            assert(stream_item(cs@[i as int]));
            return true;
        }
        assert(!stream_item(cs@[i as int]));
        i = i + 1;
    }
    false
}

pub fn mft_record_event_priority(record: &MftNativeRecord, record_index: usize) -> (r: Option<u8>)
    ensures
        match r {
            Some(p) => record_priority(*record, record_index as int) == Some(p as int),
            None => record_priority(*record, record_index as int) is None,
        },
{
    let name: Vec<char> = match &record.file_name {
        Some(n) => chars_of(n.as_str()),
        None => Vec::new(),
    };
    assert(record.file_name is None ==> name@ =~= Seq::<char>::empty());
    let lv = lower_chars(name.as_slice());
    let ls = string_from(lv.as_slice());
    let l = ls.as_str();
    if has_stream_content_exec(&record.resident_contents) {
        return Some(0);
    }
    if mft_filename_has_critical_name(l) {
        return Some(1);
    }
    if mft_filename_has_web_or_script_extension(l) {
        return Some(2);
    }
    if mft_filename_has_execution_or_archive_extension(l) {
        return Some(3);
    }
    if mft_filename_has_platform_binary_extension(l) {
        return Some(8);
    }
    if mft_si_fn_timestamp_mismatch(record) {
        return Some(10);
    }
    if !record.in_use && mft_filename_has_interesting_extension(l) {
        return Some(20);
    }
    if !record.in_use {
        return Some(30);
    }
    if record_index < 1024 {
        return Some(80);
    }
    None
}

// ---------------------------------------------------------------------------
// Selection
// ---------------------------------------------------------------------------
/// The priority of each record, by index.
pub open spec fn priorities(rs: Seq<MftNativeRecord>) -> Seq<Option<int>> {
    Seq::new(rs.len(), |i: int| record_priority(rs[i], i))
}

/// How many of the first `n` records have a priority below `v`.
pub open spec fn count_below(ps: Seq<Option<int>>, n: int, v: int) -> nat
    decreases n,
{
    if n <= 0 {
        0
    } else {
        count_below(ps, n - 1, v) + (match ps[n - 1] {
            Some(p) => if p < v {
                1nat
            } else {
                0nat
            },
            None => 0nat,
        })
    }
}

/// How many of the first `n` records have priority `v`.
pub open spec fn count_equal(ps: Seq<Option<int>>, n: int, v: int) -> nat
    decreases n,
{
    if n <= 0 {
        0
    } else {
        count_equal(ps, n - 1, v) + (if ps[n - 1] == Some(v) {
            1nat
        } else {
            0nat
        })
    }
}

/// The place of record `i` when the records with a priority are ordered by
/// priority, then by index.
pub open spec fn event_rank(ps: Seq<Option<int>>, i: int) -> int {
    let p = ps[i]->0;
    (count_below(ps, ps.len() as int, p) + count_equal(ps, i, p)) as int
}

/// Record `i` is among the ten thousand first in that order.
pub open spec fn selected_for_events(ps: Seq<Option<int>>, i: int) -> bool {
    ps[i] is Some && event_rank(ps, i) < 10000
}

/// The selected indices below `n`, in increasing order.
pub open spec fn selected_indices(ps: Seq<Option<int>>, n: int) -> Seq<int>
    decreases n,
{
    if n <= 0 {
        Seq::empty()
    } else {
        selected_indices(ps, n - 1) + (if selected_for_events(ps, n - 1) {
            seq![n - 1]
        } else {
            Seq::empty()
        })
    }
}

/// The records that become events: all of them up to fifty thousand, else the
/// ten thousand first by priority and index, in index order.
pub open spec fn event_selection(rs: Seq<MftNativeRecord>) -> Seq<int> {
    if rs.len() <= 50000 {
        Seq::new(rs.len(), |i: int| i)
    } else {
        selected_indices(priorities(rs), rs.len() as int)
    }
}

pub open spec fn index_views(v: Seq<usize>) -> Seq<int> {
    v.map_values(|i: usize| i as int)
}

pub open spec fn prio_views(v: Seq<Option<u8>>) -> Seq<Option<int>> {
    v.map_values(|o: Option<u8>| match o {
        Some(p) => Some(p as int),
        None => None,
    })
}

proof fn lemma_priority_bound(r: MftNativeRecord, idx: int)
    ensures
        match record_priority(r, idx) {
            Some(p) => 0 <= p <= 80,
            None => true,
        },
{
}

proof fn lemma_count_equal_bound(ps: Seq<Option<int>>, n: int, v: int)
    requires
        0 <= n,
    ensures
        count_equal(ps, n, v) <= n,
    decreases n,
{
    if n > 0 {
        lemma_count_equal_bound(ps, n - 1, v);
    }
}

fn count_below_exec(ps: &Vec<Option<u8>>, v: u8) -> (r: usize)
    ensures
        r == count_below(prio_views(ps@), ps@.len() as int, v as int),
{
    let ghost pv = prio_views(ps@);
    let mut c: usize = 0;
    let mut j: usize = 0;
    while j < ps.len()
        invariant
            j <= ps.len(),
            pv == prio_views(ps@),
            c == count_below(pv, j as int, v as int),
            c <= j,
        decreases ps.len() - j,
    {
        match ps[j] {
            Some(p) => if p < v {
                c = c + 1;
            },
            None => {},
        }
        j = j + 1;
    }
    c
}

pub fn select_mft_record_indices_for_events(records: &[MftNativeRecord]) -> (r: Vec<usize>)
    ensures
        index_views(r@) == event_selection(records@),
{
    let n = records.len();
    let mut out: Vec<usize> = Vec::new();
    if n <= 50000 {
        let mut i: usize = 0;
        while i < n
            invariant
                i <= n,
                n == records@.len(),
                index_views(out@) == Seq::new(i as nat, |k: int| k),
            decreases n - i,
        {
            let ghost prev = index_views(out@);
            out.push(i);
            assert(index_views(out@) =~= prev.push(i as int));
            assert(index_views(out@) =~= Seq::new((i + 1) as nat, |k: int| k));
            i = i + 1;
        }
        return out;
    }
    let ghost want = priorities(records@);
    let mut ps: Vec<Option<u8>> = Vec::new();
    let mut i: usize = 0;
    while i < n
        invariant
            i <= n,
            n == records@.len(),
            want == priorities(records@),
            prio_views(ps@) == want.subrange(0, i as int),
        decreases n - i,
    {
        let p = mft_record_event_priority(&records[i], i);
        let ghost prev = prio_views(ps@);
        ps.push(p);
        assert(prio_views(ps@) =~= prev.push(want[i as int]));
        assert(want.subrange(0, i + 1) =~= want.subrange(0, i as int).push(want[i as int]));
        i = i + 1;
    }
    assert(want.subrange(0, n as int) =~= want);
    let ghost pv = prio_views(ps@);
    assert(forall|k: int| 0 <= k < pv.len() ==> match #[trigger] pv[k] {
        Some(p) => 0 <= p <= 80,
        None => true,
    }) by {
        assert forall|k: int| 0 <= k < pv.len() implies match #[trigger] pv[k] {
            Some(p) => 0 <= p <= 80,
            None => true,
        } by {
            lemma_priority_bound(records@[k], k);
        }
    }
    let mut below: Vec<usize> = Vec::new();
    let mut v: u8 = 0;
    while v <= 80
        invariant
            v <= 81,
            below@.len() == v,
            pv == prio_views(ps@),
            forall|w: int| 0 <= w < v ==> #[trigger] below@[w] == count_below(pv, pv.len() as int, w),
        decreases 81 - v,
    {
        let c = count_below_exec(&ps, v);
        below.push(c);
        v = v + 1;
    }
    let mut seen: Vec<usize> = Vec::new();
    let mut w: usize = 0;
    while w < 81
        invariant
            w <= 81,
            seen@.len() == w,
            forall|x: int| 0 <= x < w ==> #[trigger] seen@[x] == 0,
        decreases 81 - w,
    {
        seen.push(0);
        w = w + 1;
    }
    let mut i: usize = 0;
    assert(index_views(out@) =~= selected_indices(pv, 0));
    while i < n
        invariant
            i <= n,
            n == ps@.len(),
            pv == prio_views(ps@),
            pv == priorities(records@),
            below@.len() == 81,
            seen@.len() == 81,
            forall|k: int| 0 <= k < pv.len() ==> match #[trigger] pv[k] {
                Some(p) => 0 <= p <= 80,
                None => true,
            },
            forall|x: int| 0 <= x < 81 ==> #[trigger] below@[x] == count_below(pv, pv.len() as int, x),
            forall|x: int| 0 <= x < 81 ==> #[trigger] seen@[x] == count_equal(pv, i as int, x),
            index_views(out@) == selected_indices(pv, i as int),
        decreases n - i,
    {
        let ghost prev_out = index_views(out@);
        assert(pv[i as int] == match ps@[i as int] {
            Some(p) => Some(p as int),
            None => None::<int>,
        });
        match ps[i] {
            Some(p) => {
                let pu = p as usize;
                let b = below[pu];
                let s = seen[pu];
                proof {
                    lemma_count_equal_bound(pv, i as int, p as int);
                }
                if b < 10000 && s < 10000 - b {
                    out.push(i);
                    assert(index_views(out@) =~= prev_out.push(i as int));
                } else {
                    assert(index_views(out@) =~= prev_out);
                }
                assert(selected_indices(pv, i + 1) =~= selected_indices(pv, i as int) + (
                if selected_for_events(pv, i as int) {
                    seq![i as int]
                } else {
                    Seq::empty()
                }));
                seen.set(pu, s + 1);
                assert forall|x: int| 0 <= x < 81 implies #[trigger] seen@[x] == count_equal(
                    pv,
                    i + 1,
                    x,
                ) by {
                    if x == p as int {
                    } else {
                    }
                }
            },
            None => {
                assert(selected_indices(pv, i + 1) =~= selected_indices(pv, i as int));
                assert forall|x: int| 0 <= x < 81 implies #[trigger] seen@[x] == count_equal(
                    pv,
                    i + 1,
                    x,
                ) by {}
            },
        }
        i = i + 1;
    }
    out
}

} // verus!
