//! Event log exports as CSV: which columns of a row feed which field of the
//! event it becomes.
use vstd::prelude::*;
use crate::artifact::{file_name_from_path, file_name_of};
use crate::datetime::{datetime_text, normalize_datetime};
use crate::decode::opt_view;
use crate::events::{
    event_message, event_number, format_event_message, provider_action, windows_event_action_provider,
    windows_event_severity, windows_severity,
};
use crate::extract::{extract_hash_like, hash_like, name_or_self};
use crate::row::{
    cell, cell_value, entries, event_field, first_event_field, joined_event_fields, joined_fields,
    process_identity, process_identity_of,
};
use crate::semantics::{
    enrich_message_with_semantics, enriched_message, evtx_semantic_severity, evtx_semantics,
    semantic_severity, semantics_of, EvtxSemantics,
};
use crate::text::{string_of, views};

verus! {

/// What one row of an event log export says as an event.
#[derive(Debug, Clone)]
pub struct CsvEventFields {
    pub event_code: Option<String>,
    pub time_original: Option<String>,
    /// The row's time in UTC, or the fallback when it has none that reads.
    pub event_time: String,
    pub host: Option<String>,
    pub user_name: Option<String>,
    pub process_name: Option<String>,
    pub file_path: Option<String>,
    pub ip: Option<String>,
    pub level: Option<String>,
    pub provider: Option<String>,
    pub channel: Option<String>,
    pub action: String,
    pub semantics: EvtxSemantics,
    pub severity: &'static str,
    pub message: String,
    pub url: Option<String>,
    pub hash: Option<String>,
    pub process_id: Option<String>,
    pub process_guid: Option<String>,
    pub parent_process_id: Option<String>,
    pub parent_process_guid: Option<String>,
    pub record_id: Option<String>,
    pub parent_process: Option<String>,
    pub command_line: Option<String>,
    pub logon_id: Option<String>,
    pub logon_type: Option<String>,
    pub service_name: Option<String>,
    pub task_name: Option<String>,
    pub threat_name: Option<String>,
}

pub open spec fn user_columns() -> Seq<Seq<char>> {
    seq![
        "targetusername"@,
        "subjectusername"@,
        "accountname"@,
        "username"@,
        "user"@,
        "userid"@,
    ]
}

pub open spec fn process_columns() -> Seq<Seq<char>> {
    seq![
        "newprocessname"@,
        "processname"@,
        "image"@,
        "application"@,
        "process"@,
        "sourceimage"@,
        "parentimage"@,
    ]
}

pub open spec fn file_columns() -> Seq<Seq<char>> {
    seq![
        "newprocessname"@,
        "processname"@,
        "image"@,
        "objectname"@,
        "targetfilename"@,
        "imageloaded"@,
        "path"@,
        "fullpath"@,
        "filepath"@,
        "sourceimage"@,
        "targetimage"@,
    ]
}

pub open spec fn time_columns() -> Seq<Seq<char>> {
    seq![
        "timecreated"@,
        "systemtime"@,
        "utctime"@,
        "timestamp"@,
        "datetime"@,
        "eventtimeutc"@,
    ]
}

pub open spec fn message_columns() -> Seq<Seq<char>> {
    seq!["message"@, "rendereddescription"@, "details"@, "extrafieldinfo"@]
}

/// The first of two optional texts that is present.
pub open spec fn first_of(a: Option<Seq<char>>, b: Option<Seq<char>>) -> Option<Seq<char>> {
    if a is Some {
        a
    } else {
        b
    }
}

/// What the event of row `r` says, with `fallback` the time to use when the
/// row has none that reads.
pub open spec fn csv_event_of(r: Seq<(Seq<char>, Seq<char>)>, fallback: Seq<char>, s: CsvEventFields) -> bool {
    let code = cell_value(r, seq!["eventid"@, "id"@, "eventcode"@]);
    let time = cell_value(r, time_columns());
    let event_time = match time {
        Some(t) => match datetime_text(t) {
            Some(u) => u,
            None => fallback,
        },
        None => fallback,
    };
    let process = match event_field(r, process_columns()) {
        Some(v) => Some(name_or_self(v)),
        None => None,
    };
    let level = cell_value(r, seq!["level"@, "leveldisplayname"@, "severity"@]);
    let provider = cell_value(r, seq!["provider"@, "providername"@, "source"@]);
    let channel = cell_value(r, seq!["channel"@, "logname"@]);
    let action = provider_action(code, provider, r);
    let base = match joined_fields(r, message_columns()) {
        Some(m) => m,
        None => event_message(code, action, r),
    };
    let message = enriched_message(base, s.semantics);
    &&& opt_view(s.event_code) == code
    &&& opt_view(s.time_original) == time
    &&& s.event_time@ == event_time
    &&& opt_view(s.host) == cell_value(r, seq!["computer"@, "machinename"@, "host"@, "hostname"@])
    &&& opt_view(s.user_name) == event_field(r, user_columns())
    &&& opt_view(s.process_name) == process
    &&& opt_view(s.file_path) == first_of(event_field(r, file_columns()), process)
    &&& opt_view(s.ip) == event_field(
        r,
        seq!["ipaddress"@, "sourcenetworkaddress"@, "clientaddress"@, "sourceip"@, "ip"@],
    )
    &&& opt_view(s.level) == level
    &&& opt_view(s.provider) == provider
    &&& opt_view(s.channel) == channel
    &&& s.action@ == action
    &&& semantics_of(code, provider, channel, r, event_time, time, s.semantics)
    &&& s.severity@ == semantic_severity(windows_severity(event_number(code), level), s.semantics)
    &&& s.message@ == message
    &&& opt_view(s.url) == event_field(r, seq!["url"@, "queryname"@, "destinationurl"@, "sourceurl"@])
    &&& opt_view(s.hash) == first_of(
        event_field(r, seq!["hash"@, "hashes"@, "sha256"@, "sha1"@, "md5"@]),
        hash_like(message),
    )
    &&& (opt_view(s.process_id), opt_view(s.process_guid), opt_view(s.parent_process_id), opt_view(
        s.parent_process_guid,
    )) == process_identity_of(r)
    &&& opt_view(s.record_id) == cell_value(r, seq!["eventrecordid"@, "recordid"@])
    &&& opt_view(s.parent_process) == cell_value(
        r,
        seq!["parentimage"@, "parentprocessname"@, "parentcommandline"@],
    )
    &&& opt_view(s.command_line) == cell_value(r, seq!["commandline"@, "processcommandline"@])
    &&& opt_view(s.logon_id) == cell_value(r, seq!["logonid"@, "targetlogonid"@, "subjectlogonid"@])
    &&& opt_view(s.logon_type) == cell_value(r, seq!["logontype"@])
    &&& opt_view(s.service_name) == cell_value(r, seq!["servicename"@])
    &&& opt_view(s.task_name) == cell_value(r, seq!["taskname"@, "taskcontent"@])
    &&& opt_view(s.threat_name) == event_field(r, seq!["ThreatName"@, "Threat Name"@, "Threat"@])
}

fn or_else(a: Option<String>, b: Option<String>) -> (r: Option<String>)
    ensures
        opt_view(r) == first_of(opt_view(a), opt_view(b)),
{
    match a {
        Some(v) => Some(v),
        None => b,
    }
}

fn as_str(o: &Option<String>) -> (r: Option<&str>)
    ensures
        crate::classify::str_view(r) == opt_view(*o),
{
    match o {
        Some(v) => Some(v.as_str()),
        None => None,
    }
}

/// The event fields of one row of an event log export (as `csv_rows` gives it),
/// with `fallback_time` the time to use when the row has none that reads.
pub fn evtx_csv_row_fields(row: &[(String, String)], fallback_time: &str) -> (r: CsvEventFields)
    ensures
        csv_event_of(entries(row@), fallback_time@, r),
{
    let code_names = ["eventid", "id", "eventcode"];
    assert(views(code_names@) =~= seq!["eventid"@, "id"@, "eventcode"@]);
    let event_code = cell(row, &code_names);
    let time_names = ["timecreated", "systemtime", "utctime", "timestamp", "datetime", "eventtimeutc"];
    assert(views(time_names@) =~= time_columns());
    let time_original = cell(row, &time_names);
    let event_time = match &time_original {
        Some(t) => match normalize_datetime(t.as_str()) {
            Some(u) => u,
            None => string_of(fallback_time),
        },
        None => string_of(fallback_time),
    };
    let host_names = ["computer", "machinename", "host", "hostname"];
    assert(views(host_names@) =~= seq!["computer"@, "machinename"@, "host"@, "hostname"@]);
    let host = cell(row, &host_names);
    let user_names = ["targetusername", "subjectusername", "accountname", "username", "user", "userid"];
    assert(views(user_names@) =~= user_columns());
    let user_name = first_event_field(row, &user_names);
    let process_names = [
        "newprocessname",
        "processname",
        "image",
        "application",
        "process",
        "sourceimage",
        "parentimage",
    ];
    assert(views(process_names@) =~= process_columns());
    let process_name = match first_event_field(row, &process_names) {
        Some(v) => match file_name_from_path(v.as_str()) {
            Some(n) => Some(n),
            None => Some(v),
        },
        None => None,
    };
    let file_names = [
        "newprocessname",
        "processname",
        "image",
        "objectname",
        "targetfilename",
        "imageloaded",
        "path",
        "fullpath",
        "filepath",
        "sourceimage",
        "targetimage",
    ];
    assert(views(file_names@) =~= file_columns());
    let process_copy = match &process_name {
        Some(p) => Some(string_of(p.as_str())),
        None => None,
    };
    let file_path = or_else(first_event_field(row, &file_names), process_copy);
    let ip_names = ["ipaddress", "sourcenetworkaddress", "clientaddress", "sourceip", "ip"];
    assert(views(ip_names@) =~= seq!["ipaddress"@, "sourcenetworkaddress"@, "clientaddress"@, "sourceip"@, "ip"@]);
    let ip = first_event_field(row, &ip_names);
    let level_names = ["level", "leveldisplayname", "severity"];
    assert(views(level_names@) =~= seq!["level"@, "leveldisplayname"@, "severity"@]);
    let level = cell(row, &level_names);
    let provider_names = ["provider", "providername", "source"];
    assert(views(provider_names@) =~= seq!["provider"@, "providername"@, "source"@]);
    let provider = cell(row, &provider_names);
    let action = windows_event_action_provider(as_str(&event_code), as_str(&provider), row);
    let channel_names = ["channel", "logname"];
    assert(views(channel_names@) =~= seq!["channel"@, "logname"@]);
    let channel = cell(row, &channel_names);
    let semantics = evtx_semantics(
        as_str(&event_code),
        as_str(&provider),
        as_str(&channel),
        row,
        event_time.as_str(),
        as_str(&time_original),
    );
    let severity = evtx_semantic_severity(
        windows_event_severity(as_str(&event_code), as_str(&level)),
        &semantics,
    );
    let message_names = ["message", "rendereddescription", "details", "extrafieldinfo"];
    assert(views(message_names@) =~= message_columns());
    let base = match joined_event_fields(row, &message_names) {
        Some(m) => m,
        None => format_event_message(as_str(&event_code), action.as_str(), row),
    };
    let message = enrich_message_with_semantics(base, &semantics);
    let url_names = ["url", "queryname", "destinationurl", "sourceurl"];
    assert(views(url_names@) =~= seq!["url"@, "queryname"@, "destinationurl"@, "sourceurl"@]);
    let url = first_event_field(row, &url_names);
    let hash_names = ["hash", "hashes", "sha256", "sha1", "md5"];
    assert(views(hash_names@) =~= seq!["hash"@, "hashes"@, "sha256"@, "sha1"@, "md5"@]);
    let hash = or_else(first_event_field(row, &hash_names), extract_hash_like(message.as_str()));
    let (process_id, process_guid, parent_process_id, parent_process_guid) = process_identity(row);
    let record_names = ["eventrecordid", "recordid"];
    assert(views(record_names@) =~= seq!["eventrecordid"@, "recordid"@]);
    let parent_names = ["parentimage", "parentprocessname", "parentcommandline"];
    assert(views(parent_names@) =~= seq!["parentimage"@, "parentprocessname"@, "parentcommandline"@]);
    let command_names = ["commandline", "processcommandline"];
    assert(views(command_names@) =~= seq!["commandline"@, "processcommandline"@]);
    let logon_id_names = ["logonid", "targetlogonid", "subjectlogonid"];
    assert(views(logon_id_names@) =~= seq!["logonid"@, "targetlogonid"@, "subjectlogonid"@]);
    let logon_type_names = ["logontype"];
    assert(views(logon_type_names@) =~= seq!["logontype"@]);
    let service_names = ["servicename"];
    assert(views(service_names@) =~= seq!["servicename"@]);
    let task_names = ["taskname", "taskcontent"];
    assert(views(task_names@) =~= seq!["taskname"@, "taskcontent"@]);
    let threat_names = ["ThreatName", "Threat Name", "Threat"];
    assert(views(threat_names@) =~= seq!["ThreatName"@, "Threat Name"@, "Threat"@]);
    CsvEventFields {
        event_code,
        time_original,
        event_time,
        host,
        user_name,
        process_name,
        file_path,
        ip,
        level,
        provider,
        channel,
        action,
        semantics,
        severity,
        message,
        url,
        hash,
        process_id,
        process_guid,
        parent_process_id,
        parent_process_guid,
        record_id: cell(row, &record_names),
        parent_process: cell(row, &parent_names),
        command_line: cell(row, &command_names),
        logon_id: cell(row, &logon_id_names),
        logon_type: cell(row, &logon_type_names),
        service_name: cell(row, &service_names),
        task_name: cell(row, &task_names),
        threat_name: first_event_field(row, &threat_names),
    }
}

} // verus!
