//! What each selected `$MFT` record is reported as: its path, its timestamps as
//! events, its data-run statistics and its resident contents.
use vstd::prelude::*;
use std::collections::HashMap;
use crate::classify::{user_from_path, user_of_path};
use crate::decode::opt_view;
use crate::mft::{
    cache_view, mft_path_for_record, path_inner, MftDataRunSummary, MftNativeRecord, MftPathEntry,
    MftResidentContentSummary,
};
use crate::mft_select::{
    index_views,    distinct_types, mft_attribute_types, mft_resident_event_time, mft_si_fn_timestamp_mismatch,
    resident_event_time, si_fn_mismatch, static_views,
};
use crate::row::{decimal_string, decimal_text};
use crate::text::{chars_of, concat_str, eq_str, string_of};

verus! {

// ---------------------------------------------------------------------------
// Path
// ---------------------------------------------------------------------------
/// The path a record is reported under, given the one rebuilt from its parents.
pub open spec fn record_path_text(record: MftNativeRecord, p: Option<Seq<char>>) -> Seq<char> {
    match p {
        Some(s) => s,
        None => match opt_view(record.file_name) {
            Some(f) => f,
            None => "$MFT_RECORD_"@ + decimal_text(record.record_number as nat),
        },
    }
}

/// The path a record is reported under: the one rebuilt from its parents, else
/// its own name, else `$MFT_RECORD_` and its number.
pub fn mft_record_path(
    record: &MftNativeRecord,
    map: &HashMap<u64, MftPathEntry>,
    cache: &mut HashMap<u64, String>,
) -> (r: String)
    ensures
        ({
            let (p, c) = path_inner(
                map@,
                cache_view(old(cache)@),
                Set::empty(),
                record.record_number,
                0,
            );
            &&& r@ == record_path_text(*record, p)
            &&& cache_view(final(cache)@) == c
        }),
{
    match mft_path_for_record(record.record_number, map, cache) {
        Some(p) => p,
        None => match &record.file_name {
            Some(f) => string_of(f.as_str()),
            None => {
                let n = decimal_string(record.record_number);
                concat_str("$MFT_RECORD_", n.as_str())
            },
        },
    }
}

// ---------------------------------------------------------------------------
// Timestamp events
// ---------------------------------------------------------------------------
/// One timestamp of a record, reported as an event.
#[derive(Debug, Clone)]
pub struct MftTimeEvent {
    pub action: &'static str,
    /// `standard_information` or `file_name`.
    pub time_source: &'static str,
    pub event_time: String,
    pub message: String,
}

/// The eight timestamps of a record, in order, each with its action and source.
pub open spec fn time_fields(r: MftNativeRecord) -> Seq<(Option<Seq<char>>, Seq<char>, Seq<char>)> {
    seq![
        (opt_view(r.si_created), "mft_created"@, "standard_information"@),
        (opt_view(r.si_modified), "mft_modified"@, "standard_information"@),
        (opt_view(r.si_record_changed), "mft_record_changed"@, "standard_information"@),
        (opt_view(r.si_accessed), "mft_accessed"@, "standard_information"@),
        (opt_view(r.fn_created), "mft_filename_created"@, "file_name"@),
        (opt_view(r.fn_modified), "mft_filename_modified"@, "file_name"@),
        (opt_view(r.fn_record_changed), "mft_filename_record_changed"@, "file_name"@),
        (opt_view(r.fn_accessed), "mft_filename_accessed"@, "file_name"@),
    ]
}

/// The message of a timestamp event.
pub open spec fn time_message(action: Seq<char>, number: u64, deleted: bool) -> Seq<char> {
    let base = "MFT "@ + action + ": record="@ + decimal_text(number as nat);
    if deleted {
        base + " deleted=true"@
    } else {
        base
    }
}

/// The events of the timestamps that are present: action, source, time, message.
pub open spec fn time_events_of(
    fs: Seq<(Option<Seq<char>>, Seq<char>, Seq<char>)>,
    number: u64,
    deleted: bool,
) -> Seq<(Seq<char>, Seq<char>, Seq<char>, Seq<char>)>
    decreases fs.len(),
{
    if fs.len() == 0 {
        Seq::empty()
    } else {
        let prev = time_events_of(fs.drop_last(), number, deleted);
        match fs.last().0 {
            Some(t) => prev.push((fs.last().1, fs.last().2, t, time_message(fs.last().1, number, deleted))),
            None => prev,
        }
    }
}

pub open spec fn time_event_view(e: MftTimeEvent) -> (Seq<char>, Seq<char>, Seq<char>, Seq<char>) {
    (e.action@, e.time_source@, e.event_time@, e.message@)
}

fn time_message_exec(action: &str, number: u64, deleted: bool) -> (r: String)
    ensures
        r@ == time_message(action@, number, deleted),
{
    let a = concat_str("MFT ", action);
    let b = concat_str(a.as_str(), ": record=");
    let n = decimal_string(number);
    let base = concat_str(b.as_str(), n.as_str());
    if deleted {
        concat_str(base.as_str(), " deleted=true")
    } else {
        base
    }
}

fn time_event_list(record: &MftNativeRecord) -> (r: Vec<MftTimeEvent>)
    ensures
        r@.map_values(|e: MftTimeEvent| time_event_view(e)) == time_events_of(
            time_fields(*record),
            record.record_number,
            !record.in_use,
        ),
{
    let fields: [(&Option<String>, &'static str, &'static str); 8] = [
        (&record.si_created, "mft_created", "standard_information"),
        (&record.si_modified, "mft_modified", "standard_information"),
        (&record.si_record_changed, "mft_record_changed", "standard_information"),
        (&record.si_accessed, "mft_accessed", "standard_information"),
        (&record.fn_created, "mft_filename_created", "file_name"),
        (&record.fn_modified, "mft_filename_modified", "file_name"),
        (&record.fn_record_changed, "mft_filename_record_changed", "file_name"),
        (&record.fn_accessed, "mft_filename_accessed", "file_name"),
    ];
    let ghost fv = fields@.map_values(
        |f: (&Option<String>, &'static str, &'static str)| (opt_view(*f.0), f.1@, f.2@),
    );
    assert(fv =~= time_fields(*record));
    let deleted = !record.in_use;
    let mut out: Vec<MftTimeEvent> = Vec::new();
    let mut i: usize = 0;
    while i < 8
        invariant
            i <= 8,
            fields@.len() == 8,
            deleted == !record.in_use,
            fv == fields@.map_values(
                |f: (&Option<String>, &'static str, &'static str)| (opt_view(*f.0), f.1@, f.2@),
            ),
            out@.map_values(|e: MftTimeEvent| time_event_view(e)) == time_events_of(
                fv.take(i as int),
                record.record_number,
                deleted,
            ),
        decreases 8 - i,
    {
        let (time, action, source) = fields[i];
        assert(fv.take(i + 1).drop_last() =~= fv.take(i as int));
        assert(fv.take(i + 1).last() == (opt_view(*time), action@, source@));
        match time {
            Some(t) => {
                let ghost prev = out@.map_values(|e: MftTimeEvent| time_event_view(e));
                let message = time_message_exec(action, record.record_number, deleted);
                out.push(
                    MftTimeEvent {
                        action,
                        time_source: source,
                        event_time: string_of(t.as_str()),
                        message,
                    },
                );
                assert(out@.map_values(|e: MftTimeEvent| time_event_view(e)) =~= prev.push(
                    time_event_view(out@.last()),
                ));
            },
            None => {},
        }
        i = i + 1;
    }
    assert(fv.take(8) =~= fv);
    out
}

// ---------------------------------------------------------------------------
// Resident content events
// ---------------------------------------------------------------------------
/// One resident content of a record, reported as an event.
#[derive(Debug, Clone)]
pub struct MftContentEvent {
    pub action: &'static str,
    /// The record's path, with the stream's name after a colon when it has one.
    pub stream_path: String,
    pub severity: &'static str,
    pub message: String,
    pub url: Option<String>,
    pub sha256: String,
}

/// The event of one resident content of record `number` at `path`: action,
/// stream path, severity, message, URL and digest.
pub open spec fn content_event_of(c: MftResidentContentSummary, path: Seq<char>, number: u64) -> (
    Seq<char>,
    Seq<char>,
    Seq<char>,
    Seq<char>,
    Option<Seq<char>>,
    Seq<char>,
) {
    let ads = c.stream_kind@ == "ads"@;
    let n = decimal_text(number as nat);
    let len = decimal_text(c.value_length as nat);
    (
        if ads {
            "mft_ads_resident_content_observed"@
        } else {
            "mft_resident_data_observed"@
        },
        match opt_view(c.name) {
            Some(name) => path + ":"@ + name,
            None => path,
        },
        if c.host_url is Some || ads {
            "medium"@
        } else {
            "info"@
        },
        match (opt_view(c.name), opt_view(c.host_url)) {
            (Some(name), Some(h)) => "MFT ADS resident content observed: record="@ + n + " stream="@
                + name + " HostUrl="@ + h + " ZoneId="@ + match opt_view(c.zone_id) {
                Some(z) => z,
                None => "-"@,
            },
            (Some(name), None) => "MFT ADS resident content observed: record="@ + n + " stream="@
                + name + " length="@ + len,
            (None, _) => "MFT resident DATA content observed: record="@ + n + " length="@ + len,
        },
        match opt_view(c.host_url) {
            Some(h) => Some(h),
            None => opt_view(c.referrer_url),
        },
        c.sha256@,
    )
}

pub open spec fn content_event_view(e: MftContentEvent) -> (
    Seq<char>,
    Seq<char>,
    Seq<char>,
    Seq<char>,
    Option<Seq<char>>,
    Seq<char>,
) {
    (e.action@, e.stream_path@, e.severity@, e.message@, opt_view(e.url), e.sha256@)
}

fn join4(a: &str, b: &str, c: &str, d: &str) -> (r: String)
    ensures
        r@ == a@ + b@ + c@ + d@,
{
    let ab = concat_str(a, b);
    let abc = concat_str(ab.as_str(), c);
    concat_str(abc.as_str(), d)
}

fn content_event(c: &MftResidentContentSummary, path: &str, number: u64) -> (r: MftContentEvent)
    ensures
        content_event_view(r) == content_event_of(*c, path@, number),
{
    let ads = eq_str(chars_of(c.stream_kind).as_slice(), "ads");
    let n = decimal_string(number);
    let len = decimal_string(c.value_length as u64);
    let stream_path = match &c.name {
        Some(name) => {
            let with_colon = concat_str(path, ":");
            concat_str(with_colon.as_str(), name.as_str())
        },
        None => string_of(path),
    };
    let message = match (&c.name, &c.host_url) {
        (Some(name), Some(h)) => {
            let head = join4("MFT ADS resident content observed: record=", n.as_str(), " stream=", name.as_str());
            let zone = match &c.zone_id {
                Some(z) => string_of(z.as_str()),
                None => string_of("-"),
            };
            let with_url = join4(head.as_str(), " HostUrl=", h.as_str(), " ZoneId=");
            concat_str(with_url.as_str(), zone.as_str())
        },
        (Some(name), None) => {
            let head = join4("MFT ADS resident content observed: record=", n.as_str(), " stream=", name.as_str());
            let labelled = concat_str(head.as_str(), " length=");
            concat_str(labelled.as_str(), len.as_str())
        },
        (None, _) => join4("MFT resident DATA content observed: record=", n.as_str(), " length=", len.as_str()),
    };
    let url = match &c.host_url {
        Some(h) => Some(string_of(h.as_str())),
        None => match &c.referrer_url {
            Some(u) => Some(string_of(u.as_str())),
            None => None,
        },
    };
    MftContentEvent {
        action: if ads {
            "mft_ads_resident_content_observed"
        } else {
            "mft_resident_data_observed"
        },
        stream_path,
        severity: if c.host_url.is_some() || ads {
            "medium"
        } else {
            "info"
        },
        message,
        url,
        sha256: string_of(c.sha256.as_str()),
    }
}


/// The events of the first four resident contents of a record.
pub open spec fn content_events_of(r: MftNativeRecord, path: Seq<char>) -> Seq<
    (Seq<char>, Seq<char>, Seq<char>, Seq<char>, Option<Seq<char>>, Seq<char>),
> {
    let cs = if r.resident_contents@.len() > 4 {
        r.resident_contents@.take(4)
    } else {
        r.resident_contents@
    };
    cs.map_values(|c: MftResidentContentSummary| content_event_of(c, path, r.record_number))
}

// ---------------------------------------------------------------------------
// Record report
// ---------------------------------------------------------------------------
/// What a selected record is reported as.
#[derive(Debug, Clone)]
pub struct MftRecordReport {
    pub path: String,
    pub user_name: Option<String>,
    pub attribute_types: Vec<&'static str>,
    pub data_run_count: usize,
    pub non_resident_attribute_count: usize,
    pub first_data_run: Option<MftDataRunSummary>,
    pub sparse_data_run_count: usize,
    /// The clusters of all data runs, summed modulo 2^64.
    pub data_run_total_clusters: u64,
    pub structure_available: bool,
    pub deleted: bool,
    pub si_fn_timestamp_mismatch: bool,
    /// The severity of the timestamp events: `medium` for a deleted record.
    pub severity: &'static str,
    pub time_events: Vec<MftTimeEvent>,
    /// When the resident contents are reported.
    pub content_time: String,
    pub content_events: Vec<MftContentEvent>,
}

/// How many attributes live outside the record.
pub open spec fn non_resident_count(a: Seq<crate::mft::MftAttributeSummary>) -> nat
    decreases a.len(),
{
    if a.len() == 0 {
        0
    } else {
        non_resident_count(a.drop_last()) + if a.last().non_resident {
            1nat
        } else {
            0nat
        }
    }
}

/// How many data runs are sparse.
pub open spec fn sparse_count(d: Seq<MftDataRunSummary>) -> nat
    decreases d.len(),
{
    if d.len() == 0 {
        0
    } else {
        sparse_count(d.drop_last()) + if d.last().sparse {
            1nat
        } else {
            0nat
        }
    }
}

/// The clusters of some data runs, summed.
pub open spec fn cluster_total(d: Seq<MftDataRunSummary>) -> nat
    decreases d.len(),
{
    if d.len() == 0 {
        0
    } else {
        cluster_total(d.drop_last()) + d.last().cluster_count as nat
    }
}

proof fn lemma_count_bounds(a: Seq<crate::mft::MftAttributeSummary>, d: Seq<MftDataRunSummary>)
    ensures
        non_resident_count(a) <= a.len(),
        sparse_count(d) <= d.len(),
    decreases a.len() + d.len(),
{
    if a.len() > 0 {
        lemma_count_bounds(a.drop_last(), d);
    }
    if d.len() > 0 {
        lemma_count_bounds(a, d.drop_last());
    }
}

/// `r` is the report of `record` under `path`.
pub open spec fn record_report_of(record: MftNativeRecord, path: Seq<char>, r: MftRecordReport) -> bool {
    &&& r.path@ == path
    &&& opt_view(r.user_name) == user_of_path(path)
    &&& static_views(r.attribute_types@) == distinct_types(record.attributes@)
    &&& r.data_run_count == record.data_runs@.len()
    &&& r.non_resident_attribute_count == non_resident_count(record.attributes@)
    &&& r.first_data_run == (if record.data_runs@.len() > 0 {
        Some(record.data_runs@[0])
    } else {
        None
    })
    &&& r.sparse_data_run_count == sparse_count(record.data_runs@)
    &&& r.data_run_total_clusters == cluster_total(record.data_runs@) % 0x1_0000_0000_0000_0000
    &&& r.structure_available == (record.attributes@.len() > 0 || record.data_runs@.len() > 0)
    &&& r.deleted == !record.in_use
    &&& r.si_fn_timestamp_mismatch == si_fn_mismatch(record)
    &&& r.severity@ == (if record.in_use {
        "info"@
    } else {
        "medium"@
    })
    &&& r.time_events@.map_values(|e: MftTimeEvent| time_event_view(e)) == time_events_of(
        time_fields(record),
        record.record_number,
        !record.in_use,
    )
    &&& r.content_time@ == resident_event_time(record)
    &&& r.content_events@.map_values(|e: MftContentEvent| content_event_view(e)) == content_events_of(
        record,
        path,
    )
}

/// The report of `record`, reported under `path`.
pub fn mft_record_report(record: &MftNativeRecord, path: &str) -> (r: MftRecordReport)
    ensures
        record_report_of(*record, path@, r),
{
    let mut non_resident: usize = 0;
    let mut i: usize = 0;
    proof {
        lemma_count_bounds(record.attributes@, record.data_runs@);
    }
    while i < record.attributes.len()
        invariant
            i <= record.attributes@.len(),
            non_resident == non_resident_count(record.attributes@.take(i as int)),
            non_resident <= i,
        decreases record.attributes@.len() - i,
    {
        assert(record.attributes@.take(i + 1).drop_last() =~= record.attributes@.take(i as int));
        if record.attributes[i].non_resident {
            non_resident = non_resident + 1;
        }
        i = i + 1;
    }
    assert(record.attributes@.take(record.attributes@.len() as int) =~= record.attributes@);
    let mut sparse: usize = 0;
    let mut total: u64 = 0;
    let mut j: usize = 0;
    while j < record.data_runs.len()
        invariant
            j <= record.data_runs@.len(),
            sparse == sparse_count(record.data_runs@.take(j as int)),
            sparse <= j,
            total == cluster_total(record.data_runs@.take(j as int)) % 0x1_0000_0000_0000_0000,
        decreases record.data_runs@.len() - j,
    {
        let run = record.data_runs[j];
        assert(record.data_runs@.take(j + 1).drop_last() =~= record.data_runs@.take(j as int));
        if run.sparse {
            sparse = sparse + 1;
        }
        let ghost before = cluster_total(record.data_runs@.take(j as int));
        total = total.wrapping_add(run.cluster_count);
        assert(total == (before + run.cluster_count) % 0x1_0000_0000_0000_0000) by (nonlinear_arith)
            requires
                total == (if (before % 0x1_0000_0000_0000_0000) + run.cluster_count > u64::MAX {
                    (before % 0x1_0000_0000_0000_0000) + run.cluster_count - 0x1_0000_0000_0000_0000
                } else {
                    (before % 0x1_0000_0000_0000_0000) + run.cluster_count
                }),
                before >= 0,
        ;
        j = j + 1;
    }
    assert(record.data_runs@.take(record.data_runs@.len() as int) =~= record.data_runs@);
    let first_data_run = if record.data_runs.len() > 0 {
        Some(record.data_runs[0])
    } else {
        None
    };
    let mut content_events: Vec<MftContentEvent> = Vec::new();
    let limit: usize = if record.resident_contents.len() > 4 {
        4
    } else {
        record.resident_contents.len()
    };
    let ghost cs = if record.resident_contents@.len() > 4 {
        record.resident_contents@.take(4)
    } else {
        record.resident_contents@
    };
    let mut k: usize = 0;
    while k < limit
        invariant
            k <= limit,
            limit == cs.len(),
            limit <= record.resident_contents@.len(),
            cs == (if record.resident_contents@.len() > 4 {
                record.resident_contents@.take(4)
            } else {
                record.resident_contents@
            }),
            content_events@.map_values(|e: MftContentEvent| content_event_view(e)) == cs.take(
                k as int,
            ).map_values(|c: MftResidentContentSummary| content_event_of(c, path@, record.record_number)),
        decreases limit - k,
    {
        let e = content_event(&record.resident_contents[k], path, record.record_number);
        let ghost prev = content_events@.map_values(|e: MftContentEvent| content_event_view(e));
        content_events.push(e);
        assert(cs[k as int] == record.resident_contents@[k as int]);
        assert(content_events@.map_values(|e: MftContentEvent| content_event_view(e)) =~= prev.push(
            content_event_of(cs[k as int], path@, record.record_number),
        ));
        assert(cs.take(k + 1).map_values(
            |c: MftResidentContentSummary| content_event_of(c, path@, record.record_number),
        ) =~= cs.take(k as int).map_values(
            |c: MftResidentContentSummary| content_event_of(c, path@, record.record_number),
        ).push(content_event_of(cs[k as int], path@, record.record_number)));
        k = k + 1;
    }
    assert(cs.take(limit as int) =~= cs);
    MftRecordReport {
        path: string_of(path),
        user_name: user_from_path(path),
        attribute_types: mft_attribute_types(record.attributes.as_slice()),
        data_run_count: record.data_runs.len(),
        non_resident_attribute_count: non_resident,
        first_data_run,
        sparse_data_run_count: sparse,
        data_run_total_clusters: total,
        structure_available: record.attributes.len() > 0 || record.data_runs.len() > 0,
        deleted: !record.in_use,
        si_fn_timestamp_mismatch: mft_si_fn_timestamp_mismatch(record),
        severity: if record.in_use {
            "info"
        } else {
            "medium"
        },
        time_events: time_event_list(record),
        content_time: mft_resident_event_time(record),
        content_events,
    }
}

// ---------------------------------------------------------------------------
// All records
// ---------------------------------------------------------------------------
/// What a whole `$MFT` image is reported as: how many records it has, how many
/// were selected, how many were left out when the selection is smaller (the
/// selection summary), and the report of each selected record.
pub struct MftArtifactReport {
    pub total_record_count: usize,
    pub selected_record_count: usize,
    pub omitted_record_count: Option<usize>,
    pub reports: Vec<MftRecordReport>,
}

/// The paths of the records at `sel`, in order, the path cache `c` carried
/// from one to the next.
pub open spec fn selected_paths(
    m: Map<u64, MftPathEntry>,
    c: Map<u64, Seq<char>>,
    rs: Seq<MftNativeRecord>,
    sel: Seq<int>,
) -> Seq<Seq<char>>
    decreases sel.len(),
{
    if sel.len() == 0 {
        Seq::empty()
    } else {
        let rec = rs[sel[0]];
        let (p, c2) = path_inner(m, c, Set::empty(), rec.record_number, 0);
        seq![record_path_text(rec, p)] + selected_paths(m, c2, rs, sel.drop_first())
    }
}

proof fn lemma_selected_in_range(ps: Seq<Option<int>>, n: int)
    ensures
        forall|k: int|
            0 <= k < crate::mft_select::selected_indices(ps, n).len() ==> 0
                <= #[trigger] crate::mft_select::selected_indices(ps, n)[k] < n,
    decreases n,
{
    if n > 0 {
        lemma_selected_in_range(ps, n - 1);
        let a = crate::mft_select::selected_indices(ps, n - 1);
        let v = crate::mft_select::selected_indices(ps, n);
        assert forall|k: int| 0 <= k < v.len() implies 0 <= #[trigger] v[k] < n by {
            if k < a.len() {
                assert(v[k] == a[k]);
            }
        }
    }
}

/// The report of every record of an `$MFT` image that is selected for events,
/// in selection order, each under the path rebuilt from its parents.
pub fn mft_records_report(records: &[MftNativeRecord]) -> (r: MftArtifactReport)
    ensures
        ({
            let sel = crate::mft_select::event_selection(records@);
            let paths = selected_paths(
                crate::mft::path_map_of(records@),
                Map::empty(),
                records@,
                sel,
            );
            &&& r.total_record_count == records@.len()
            &&& r.selected_record_count == sel.len()
            &&& r.omitted_record_count == (if sel.len() < records@.len() {
                Some((records@.len() - sel.len()) as usize)
            } else {
                None
            })
            &&& r.reports@.len() == sel.len()
            &&& forall|k: int|
                0 <= k < sel.len() ==> record_report_of(
                    records@[sel[k]],
                    paths[k],
                    #[trigger] r.reports@[k],
                )
        }),
{
    broadcast use vstd::std_specs::hash::group_hash_axioms;

    let sel = crate::mft_select::select_mft_record_indices_for_events(records);
    let ghost s = crate::mft_select::event_selection(records@);
    proof {
        if records@.len() > 50000 {
            lemma_selected_in_range(crate::mft_select::priorities(records@), records@.len() as int);
        }
        assert forall|k: int| 0 <= k < s.len() implies 0 <= #[trigger] s[k] < records@.len() by {}
    }
    let map = crate::mft::mft_path_map(records);
    let mut cache: HashMap<u64, String> = HashMap::new();
    let ghost m = crate::mft::path_map_of(records@);
    let ghost all = selected_paths(m, Map::empty(), records@, s);
    assert(cache_view(cache@) =~= Map::<u64, Seq<char>>::empty());
    assert(s.skip(0) =~= s);
    let ghost mut done: Seq<Seq<char>> = Seq::empty();
    let mut reports: Vec<MftRecordReport> = Vec::new();
    let mut i: usize = 0;
    while i < sel.len()
        invariant
            i <= sel@.len(),
            index_views(sel@) == s,
            map@ == m,
            forall|k: int| 0 <= k < s.len() ==> 0 <= #[trigger] s[k] < records@.len(),
            done.len() == i,
            reports@.len() == i,
            all == done + selected_paths(m, cache_view(cache@), records@, s.skip(i as int)),
            forall|k: int| 0 <= k < i ==> record_report_of(records@[s[k]], done[k], #[trigger] reports@[k]),
        decreases sel@.len() - i,
    {
        let idx = sel[i];
        assert(s[i as int] == idx as int);
        let ghost rest = s.skip(i as int);
        assert(rest[0] == s[i as int]);
        assert(rest.drop_first() =~= s.skip(i + 1));
        let path = mft_record_path(&records[idx], &map, &mut cache);
        let report = mft_record_report(&records[idx], path.as_str());
        proof {
            let old_done = done;
            done = done.push(path@);
            assert(all == done + selected_paths(m, cache_view(cache@), records@, s.skip(i + 1))) by {
                assert(old_done.push(path@) + selected_paths(m, cache_view(cache@), records@, s.skip(i + 1))
                    =~= old_done + (seq![path@] + selected_paths(m, cache_view(cache@), records@, s.skip(i + 1))));
            }
        }
        let ghost old_reports = reports@;
        reports.push(report);
        proof {
            assert forall|k: int| 0 <= k < i + 1 implies record_report_of(records@[s[k]], done[k], #[trigger] reports@[k]) by {
                if k < i {
                    assert(reports@[k] == old_reports[k]);
                }
            }
        }
        i = i + 1;
    }
    assert(s.skip(i as int) =~= Seq::<int>::empty());
    assert(all =~= done);
    let total = records.len();
    let selected = sel.len();
    let omitted = if selected < total {
        Some(total - selected)
    } else {
        None
    };
    MftArtifactReport {
        total_record_count: total,
        selected_record_count: selected,
        omitted_record_count: omitted,
        reports,
    }
}

} // verus!
