//! Windows event log records: the records the `evtx` crate renders from a log
//! file, how many failed, and what each record's XML says as an event.
use vstd::prelude::*;
use crate::decode::{clean, clean_opt, opt_view};
use crate::events::{
    event_message, event_number, format_event_message, provider_action, windows_event_action_provider,
    windows_event_severity, windows_severity,
};
use crate::external::{evtx_rendered_records, evtx_results_of};
use crate::datetime::{datetime_text, normalize_datetime};
use crate::row::{
    decimal_string, decimal_text, entries, event_process, event_user, evtx_file_path,
    evtx_process_name, evtx_user_name, file_path_fields, first_named, named_value, process_identity,
    process_identity_of,
};
use crate::semantics::{
    enrich_message_with_semantics, enriched_message, evtx_semantic_severity, evtx_semantics,
    semantic_severity, semantics_of, EvtxSemantics,
};
use crate::text::{concat_str, string_of, views};
use crate::xml::{
    extract_named_data, extract_xml_attr_in_tag, extract_xml_tag, named_data_from, tag_attr_value,
    tag_value,
};
use crate::ParserError;

verus! {

// ---------------------------------------------------------------------------
// The records of a log
// ---------------------------------------------------------------------------
/// The records rendered from a log, with how many failed to render and the
/// messages of the first five failures.
#[derive(Debug, Clone)]
pub struct EvtxTally {
    /// Each record's id and XML, in order.
    pub records: Vec<(u64, String)>,
    pub failed_count: usize,
    pub sample_errors: Vec<String>,
}

/// The records that rendered, in order.
pub open spec fn rendered_of(rs: Seq<Result<(u64, Seq<char>), Seq<char>>>) -> Seq<(u64, Seq<char>)>
    decreases rs.len(),
{
    if rs.len() == 0 {
        Seq::empty()
    } else {
        match rs.last() {
            Ok(r) => rendered_of(rs.drop_last()).push(r),
            Err(_) => rendered_of(rs.drop_last()),
        }
    }
}

/// The messages of the records that failed, in order.
pub open spec fn failures_of(rs: Seq<Result<(u64, Seq<char>), Seq<char>>>) -> Seq<Seq<char>>
    decreases rs.len(),
{
    if rs.len() == 0 {
        Seq::empty()
    } else {
        match rs.last() {
            Ok(_) => failures_of(rs.drop_last()),
            Err(e) => failures_of(rs.drop_last()).push(e),
        }
    }
}

/// Some texts joined by ` | `.
pub open spec fn bar_joined(es: Seq<Seq<char>>) -> Seq<char>
    decreases es.len(),
{
    if es.len() == 0 {
        Seq::empty()
    } else if es.len() == 1 {
        es[0]
    } else {
        bar_joined(es.drop_last()) + " | "@ + es.last()
    }
}

/// The failure message of a log in which no record rendered.
pub open spec fn no_records_message(fails: Seq<Seq<char>>) -> Seq<char> {
    "native EVTX parser produced no records; failed_records="@ + decimal_text(fails.len() as nat)
        + "; errors="@ + bar_joined(if fails.len() > 5 {
        fails.take(5)
    } else {
        fails
    })
}

pub open spec fn result_views(rs: Seq<Result<(u64, String), String>>) -> Seq<
    Result<(u64, Seq<char>), Seq<char>>,
> {
    rs.map_values(
        |r: Result<(u64, String), String>| match r {
            Ok((id, x)) => Ok((id, x@)),
            Err(e) => Err(e@),
        },
    )
}

pub open spec fn record_views(rs: Seq<(u64, String)>) -> Seq<(u64, Seq<char>)> {
    rs.map_values(|r: (u64, String)| (r.0, r.1@))
}

/// The tally of rendered records: an error when none rendered, else the
/// records, the number of failures and the first five failure messages.
pub fn evtx_tally(results: &Vec<Result<(u64, String), String>>) -> (r: Result<EvtxTally, ParserError>)
    ensures
        ({
            let rs = result_views(results@);
            let fails = failures_of(rs);
            match r {
                Err(e) => rendered_of(rs).len() == 0 && (e matches ParserError::Failed(m) && m@
                    == no_records_message(fails)),
                Ok(t) => rendered_of(rs).len() > 0 && record_views(t.records@) == rendered_of(rs)
                    && t.failed_count == fails.len() && crate::row::vec_strings(t.sample_errors@) == (
                if fails.len() > 5 {
                    fails.take(5)
                } else {
                    fails
                }),
            }
        }),
{
    let ghost rs = result_views(results@);
    let mut records: Vec<(u64, String)> = Vec::new();
    let mut failed_count: usize = 0;
    let mut sample_errors: Vec<String> = Vec::new();
    let mut i: usize = 0;
    while i < results.len()
        invariant
            i <= results@.len(),
            rs == result_views(results@),
            record_views(records@) == rendered_of(rs.take(i as int)),
            failed_count == failures_of(rs.take(i as int)).len(),
            failed_count <= i,
            crate::row::vec_strings(sample_errors@) == (if failures_of(rs.take(i as int)).len() > 5 {
                failures_of(rs.take(i as int)).take(5)
            } else {
                failures_of(rs.take(i as int))
            }),
        decreases results@.len() - i,
    {
        assert(rs.take(i + 1).drop_last() =~= rs.take(i as int));
        assert(rs.take(i + 1).last() == rs[i as int]);
        let ghost before = failures_of(rs.take(i as int));
        match &results[i] {
            Ok((id, xml)) => {
                let ghost prev = record_views(records@);
                records.push((*id, xml.clone()));
                assert(record_views(records@) =~= prev.push((*id, xml@)));
            },
            Err(e) => {
                let ghost after = before.push(e@);
                if sample_errors.len() < 5 {
                    let ghost prev = crate::row::vec_strings(sample_errors@);
                    sample_errors.push(e.clone());
                    assert(crate::row::vec_strings(sample_errors@) =~= prev.push(e@));
                    assert(after.len() <= 5 ==> after =~= before.push(e@));
                    assert(after.len() > 5 ==> after.take(5) =~= before.push(e@));
                } else {
                    assert(after.take(5) =~= (if before.len() > 5 {
                        before.take(5)
                    } else {
                        before
                    }));
                }
                failed_count = failed_count + 1;
            },
        }
        i = i + 1;
    }
    assert(rs.take(results@.len() as int) =~= rs);
    if records.len() == 0 {
        let count = decimal_string(failed_count as u64);
        let mut joined = String::new();
        let mut k: usize = 0;
        let ghost shown = crate::row::vec_strings(sample_errors@);
        while k < sample_errors.len()
            invariant
                k <= sample_errors@.len(),
                shown == crate::row::vec_strings(sample_errors@),
                joined@ == bar_joined(shown.take(k as int)),
            decreases sample_errors@.len() - k,
        {
            assert(shown.take(k + 1).drop_last() =~= shown.take(k as int));
            if k == 0 {
                joined = string_of(sample_errors[0].as_str());
                assert(shown.take(1) =~= seq![shown[0]]);
            } else {
                let with_bar = concat_str(joined.as_str(), " | ");
                joined = concat_str(with_bar.as_str(), sample_errors[k].as_str());
            }
            k = k + 1;
        }
        assert(shown.take(sample_errors@.len() as int) =~= shown);
        let head = concat_str("native EVTX parser produced no records; failed_records=", count.as_str());
        let with_label = concat_str(head.as_str(), "; errors=");
        let message = concat_str(with_label.as_str(), joined.as_str());
        return Err(ParserError::Failed(message));
    }
    Ok(EvtxTally { records, failed_count, sample_errors })
}

/// The records of an event log file, rendered to XML by the `evtx` crate; an
/// error when the file cannot be opened as an event log or no record renders.
pub fn parse_evtx_bytes(bytes: &[u8]) -> (r: Result<EvtxTally, ParserError>)
    ensures
        match evtx_results_of(bytes@) {
            Err(e) => r matches Err(ParserError::Failed(m)) && m@ == "native EVTX open failed: "@ + e,
            Ok(rs) => match r {
                Err(e) => rendered_of(rs).len() == 0 && (e matches ParserError::Failed(m) && m@
                    == no_records_message(failures_of(rs))),
                Ok(t) => rendered_of(rs).len() > 0 && record_views(t.records@) == rendered_of(rs)
                    && t.failed_count == failures_of(rs).len(),
            },
        },
{
    match evtx_rendered_records(bytes) {
        Err(e) => Err(ParserError::Failed(concat_str("native EVTX open failed: ", e.as_str()))),
        Ok(results) => evtx_tally(&results),
    }
}

// ---------------------------------------------------------------------------
// One record as an event
// ---------------------------------------------------------------------------
/// What one event record says.
#[derive(Debug, Clone)]
pub struct EvtxRecordSummary {
    pub data: Vec<(String, String)>,
    pub event_code: Option<String>,
    pub time_original: Option<String>,
    /// The record's time in UTC, or the fallback when it has none that reads.
    pub event_time: String,
    pub host: Option<String>,
    pub provider: Option<String>,
    pub channel: Option<String>,
    pub user_name: Option<String>,
    pub process_name: Option<String>,
    pub file_path: Option<String>,
    pub ip: Option<String>,
    pub url: Option<String>,
    pub hash: Option<String>,
    pub action: String,
    pub semantics: EvtxSemantics,
    pub severity: &'static str,
    pub message: String,
    pub record_id: Option<String>,
    pub process_id: Option<String>,
    pub process_guid: Option<String>,
    pub parent_process_id: Option<String>,
    pub parent_process_guid: Option<String>,
    /// Whether the record names an event, provider, channel or record id, and so
    /// gives a context event too.
    pub has_context: bool,
}

/// An optional text, cleaned.
pub open spec fn cleaned(o: Option<Seq<char>>) -> Option<Seq<char>> {
    match o {
        Some(v) => clean(v),
        None => None,
    }
}

/// The first of two optional texts that is present.
pub open spec fn either(a: Option<Seq<char>>, b: Option<Seq<char>>) -> Option<Seq<char>> {
    if a is Some {
        a
    } else {
        b
    }
}

/// What the summary of record `x` says, with `native_id` the id the reader gave
/// it and `fallback` the time to use when the record has none.
pub open spec fn record_summary_of(
    x: Seq<char>,
    native_id: Option<u64>,
    fallback: Seq<char>,
    s: EvtxRecordSummary,
) -> bool {
    let row = named_data_from(x, 0, Seq::empty());
    let code = either(
        cleaned(tag_value(x, "EventID"@)),
        named_value(row, seq!["EventID"@, "Id"@]),
    );
    let time = either(
        cleaned(tag_attr_value(x, "TimeCreated"@, "SystemTime"@)),
        named_value(row, seq!["TimeCreated"@, "SystemTime"@, "UtcTime"@]),
    );
    let event_time = match time {
        Some(t) => match datetime_text(t) {
            Some(u) => u,
            None => fallback,
        },
        None => fallback,
    };
    let provider = tag_attr_value(x, "Provider"@, "Name"@);
    let channel = tag_value(x, "Channel"@);
    let action = provider_action(code, provider, row);
    let record_id = either(
        tag_value(x, "EventRecordID"@),
        match native_id {
            Some(n) => Some(decimal_text(n as nat)),
            None => None,
        },
    );
    let ids = process_identity_of(row);
    &&& entries(s.data@) == row
    &&& opt_view(s.event_code) == code
    &&& opt_view(s.time_original) == time
    &&& s.event_time@ == event_time
    &&& opt_view(s.host) == either(
        cleaned(tag_value(x, "Computer"@)),
        named_value(row, seq!["Computer"@, "MachineName"@, "Host"@]),
    )
    &&& opt_view(s.provider) == provider
    &&& opt_view(s.channel) == channel
    &&& opt_view(s.user_name) == event_user(row)
    &&& opt_view(s.process_name) == event_process(row)
    &&& opt_view(s.file_path) == either(named_value(row, file_path_fields()), event_process(row))
    &&& opt_view(s.ip) == named_value(
        row,
        seq!["IpAddress"@, "SourceNetworkAddress"@, "ClientAddress"@, "SourceIp"@],
    )
    &&& opt_view(s.url) == named_value(
        row,
        seq!["Url"@, "URL"@, "QueryName"@, "DestinationUrl"@, "SourceUrl"@],
    )
    &&& opt_view(s.hash) == named_value(row, seq!["Hash"@, "Hashes"@, "SHA256"@, "SHA1"@, "MD5"@])
    &&& s.action@ == action
    &&& semantics_of(code, provider, channel, row, event_time, time, s.semantics)
    &&& s.severity@ == semantic_severity(windows_severity(event_number(code), None), s.semantics)
    &&& s.message@ == enriched_message(event_message(code, action, row), s.semantics)
    &&& opt_view(s.record_id) == record_id
    &&& (opt_view(s.process_id), opt_view(s.process_guid), opt_view(s.parent_process_id), opt_view(
        s.parent_process_guid,
    )) == ids
    &&& s.has_context == (code is Some || provider is Some || channel is Some || record_id is Some)
}

fn or_else(a: Option<String>, b: Option<String>) -> (r: Option<String>)
    ensures
        opt_view(r) == either(opt_view(a), opt_view(b)),
{
    match a {
        Some(v) => Some(v),
        None => b,
    }
}

fn as_str(o: &Option<String>) -> (r: Option<&str>)
    ensures
        crate::classify::str_view(r) == opt_view(*o),
{
    match o {
        Some(v) => Some(v.as_str()),
        None => None,
    }
}

fn cleaned_exec(o: Option<String>) -> (r: Option<String>)
    ensures
        opt_view(r) == cleaned(opt_view(o)),
{
    clean_opt(o)
}

/// What event record `xml` says, with `native_record_id` the id its reader gave
/// it and `fallback_time` the time to use when it has none that reads.
pub fn evtx_record_summary(xml: &str, native_record_id: Option<u64>, fallback_time: &str) -> (r:
    EvtxRecordSummary)
    ensures
        record_summary_of(xml@, native_record_id, fallback_time@, r),
{
    let data = extract_named_data(xml);
    let id_names = ["EventID", "Id"];
    assert(views(id_names@) =~= seq!["EventID"@, "Id"@]);
    let event_code = or_else(cleaned_exec(extract_xml_tag(xml, "EventID")), first_named(&data, &id_names));
    let time_names = ["TimeCreated", "SystemTime", "UtcTime"];
    assert(views(time_names@) =~= seq!["TimeCreated"@, "SystemTime"@, "UtcTime"@]);
    let time_original = or_else(
        cleaned_exec(extract_xml_attr_in_tag(xml, "TimeCreated", "SystemTime")),
        first_named(&data, &time_names),
    );
    let event_time = match &time_original {
        Some(t) => match normalize_datetime(t.as_str()) {
            Some(u) => u,
            None => string_of(fallback_time),
        },
        None => string_of(fallback_time),
    };
    let host_names = ["Computer", "MachineName", "Host"];
    assert(views(host_names@) =~= seq!["Computer"@, "MachineName"@, "Host"@]);
    let host = or_else(cleaned_exec(extract_xml_tag(xml, "Computer")), first_named(&data, &host_names));
    let provider = extract_xml_attr_in_tag(xml, "Provider", "Name");
    let channel = extract_xml_tag(xml, "Channel");
    let user_name = evtx_user_name(&data);
    let process_name = evtx_process_name(&data);
    let process_copy = match &process_name {
        Some(p) => Some(string_of(p.as_str())),
        None => None,
    };
    let file_path = or_else(evtx_file_path(&data), process_copy);
    let ip_names = ["IpAddress", "SourceNetworkAddress", "ClientAddress", "SourceIp"];
    assert(views(ip_names@) =~= seq!["IpAddress"@, "SourceNetworkAddress"@, "ClientAddress"@, "SourceIp"@]);
    let ip = first_named(&data, &ip_names);
    let url_names = ["Url", "URL", "QueryName", "DestinationUrl", "SourceUrl"];
    assert(views(url_names@) =~= seq!["Url"@, "URL"@, "QueryName"@, "DestinationUrl"@, "SourceUrl"@]);
    let url = first_named(&data, &url_names);
    let hash_names = ["Hash", "Hashes", "SHA256", "SHA1", "MD5"];
    assert(views(hash_names@) =~= seq!["Hash"@, "Hashes"@, "SHA256"@, "SHA1"@, "MD5"@]);
    let hash = first_named(&data, &hash_names);
    let action = windows_event_action_provider(as_str(&event_code), as_str(&provider), &data);
    let semantics = evtx_semantics(
        as_str(&event_code),
        as_str(&provider),
        as_str(&channel),
        &data,
        event_time.as_str(),
        as_str(&time_original),
    );
    let severity = evtx_semantic_severity(windows_event_severity(as_str(&event_code), None), &semantics);
    let message = enrich_message_with_semantics(
        format_event_message(as_str(&event_code), action.as_str(), &data),
        &semantics,
    );
    let record_id = or_else(
        extract_xml_tag(xml, "EventRecordID"),
        match native_record_id {
            Some(n) => Some(decimal_string(n)),
            None => None,
        },
    );
    let (process_id, process_guid, parent_process_id, parent_process_guid) = process_identity(&data);
    let has_context = event_code.is_some() || provider.is_some() || channel.is_some()
        || record_id.is_some();
    EvtxRecordSummary {
        data,
        event_code,
        time_original,
        event_time,
        host,
        provider,
        channel,
        user_name,
        process_name,
        file_path,
        ip,
        url,
        hash,
        action,
        semantics,
        severity,
        message,
        record_id,
        process_id,
        process_guid,
        parent_process_id,
        parent_process_guid,
        has_context,
    }
}

} // verus!
