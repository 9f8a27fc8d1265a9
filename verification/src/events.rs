//! What Windows, Sysmon, Task Scheduler, Defender and firewall events mean: their
//! actions, severities and one-line messages, from event ids and event data.
use vstd::prelude::*;
use crate::decode::opt_view;
use crate::row::{
    audit_subcategory, audit_subcategory_name, entries, event_field, first_event_field,
    first_named, join_strings, named_value, sanitize_account_name, sanitized_account, vec_strings,
};
use crate::text::{
    chars_of, concat_str, contains, contains_any, contains_any_str, contains_str, eq_str, joined,
    lower, lower_chars, parse_i64, parse_int, string_of, trim, trim_chars, views,
};
use crate::textlog::{extract_label_value, first_label_value, truncate, truncated};

verus! {

// ---------------------------------------------------------------------------
// Event ids and levels
// ---------------------------------------------------------------------------
pub open spec fn str_view(o: Option<&str>) -> Option<Seq<char>> {
    match o {
        Some(s) => Some(s@),
        None => None,
    }
}

/// An event id as an integer: the text, trimmed, read as an `i64`.
pub open spec fn event_number(id: Option<Seq<char>>) -> Option<int> {
    match id {
        Some(s) => parse_int(trim(s)),
        None => None,
    }
}

fn event_number_exec(event_id: Option<&str>) -> (r: Option<i64>)
    ensures
        match r {
            Some(v) => event_number(str_view(event_id)) == Some(v as int),
            None => event_number(str_view(event_id)) is None,
        },
{
    match event_id {
        Some(s) => {
            let c = chars_of(s);
            let t = trim_chars(c.as_slice());
            parse_i64(t.as_slice())
        },
        None => None,
    }
}

/// The severity a level names: critical, high for errors and failures, medium
/// for warnings.
pub open spec fn level_severity(level: Option<Seq<char>>) -> Option<Seq<char>> {
    match level {
        Some(l) => {
            let lw = lower(l);
            if contains(lw, "critical"@) {
                Some("critical"@)
            } else if contains(lw, "error"@) || contains(lw, "fail"@) {
                Some("high"@)
            } else if contains(lw, "warn"@) {
                Some("medium"@)
            } else {
                None
            }
        },
        None => None,
    }
}

fn level_severity_exec(level: Option<&str>) -> (r: Option<&'static str>)
    ensures
        match r {
            Some(s) => level_severity(str_view(level)) == Some(s@),
            None => level_severity(str_view(level)) is None,
        },
{
    match level {
        Some(l) => {
            let c = chars_of(l);
            let lw = lower_chars(c.as_slice());
            if contains_str(lw.as_slice(), "critical") {
                Some("critical")
            } else if contains_str(lw.as_slice(), "error") || contains_str(lw.as_slice(), "fail") {
                Some("high")
            } else if contains_str(lw.as_slice(), "warn") {
                Some("medium")
            } else {
                None
            }
        },
        None => None,
    }
}

// ---------------------------------------------------------------------------
// Windows events
// ---------------------------------------------------------------------------
/// The action of a Windows Security or System event by its id.
pub open spec fn windows_action(id: Option<int>) -> Seq<char> {
    match id {
        None => "observed"@,
        Some(n) => if n == 4624 {
            "logon_success"@
        } else if n == 4625 {
            "logon_failure"@
        } else if n == 4634 {
            "logoff"@
        } else if n == 4648 {
            "explicit_credentials"@
        } else if n == 4672 {
            "special_privileges_assigned"@
        } else if n == 4688 || n == 1 {
            "process_created"@
        } else if n == 4689 {
            "process_exited"@
        } else if n == 4697 || n == 7045 {
            "service_installed"@
        } else if n == 4720 {
            "user_created"@
        } else if n == 4726 {
            "user_deleted"@
        } else if n == 4732 {
            "group_member_added"@
        } else if n == 4733 {
            "group_member_removed"@
        } else if n == 1102 {
            "audit_log_cleared"@
        } else if n == 3 {
            "network_connection"@
        } else if n == 11 {
            "file_created"@
        } else {
            "windows_event"@
        },
    }
}

fn windows_action_str(id: Option<i64>) -> (r: &'static str)
    ensures
        r@ == windows_action(match id {
            Some(v) => Some(v as int),
            None => None,
        }),
{
    match id {
        None => "observed",
        Some(n) => if n == 4624 {
            "logon_success"
        } else if n == 4625 {
            "logon_failure"
        } else if n == 4634 {
            "logoff"
        } else if n == 4648 {
            "explicit_credentials"
        } else if n == 4672 {
            "special_privileges_assigned"
        } else if n == 4688 || n == 1 {
            "process_created"
        } else if n == 4689 {
            "process_exited"
        } else if n == 4697 || n == 7045 {
            "service_installed"
        } else if n == 4720 {
            "user_created"
        } else if n == 4726 {
            "user_deleted"
        } else if n == 4732 {
            "group_member_added"
        } else if n == 4733 {
            "group_member_removed"
        } else if n == 1102 {
            "audit_log_cleared"
        } else if n == 3 {
            "network_connection"
        } else if n == 11 {
            "file_created"
        } else {
            "windows_event"
        },
    }
}

pub fn windows_event_action(event_id: Option<&str>) -> (r: String)
    ensures
        r@ == windows_action(event_number(str_view(event_id))),
{
    string_of(windows_action_str(event_number_exec(event_id)))
}

/// The severity of a Windows event: by its level when the level names one, else
/// by its id.
pub open spec fn windows_severity(id: Option<int>, level: Option<Seq<char>>) -> Seq<char> {
    match level_severity(level) {
        Some(s) => s,
        None => match id {
            Some(n) => if n == 1102 {
                "critical"@
            } else if n == 4625 || n == 4697 || n == 7045 || n == 5152 || n == 5157 {
                "high"@
            } else if n == 4648 || n == 4672 || n == 4732 || n == 4733 || n == 4719 || n == 4768
                || n == 4769 || n == 4946 || n == 4947 || n == 4948 || n == 4949 || n == 4950 || n
                == 4954 || n == 5156 {
                "medium"@
            } else {
                "info"@
            },
            None => "info"@,
        },
    }
}

pub fn windows_event_severity(event_id: Option<&str>, level: Option<&str>) -> (r: &'static str)
    ensures
        r@ == windows_severity(event_number(str_view(event_id)), str_view(level)),
{
    if let Some(s) = level_severity_exec(level) {
        return s;
    }
    match event_number_exec(event_id) {
        Some(n) => if n == 1102 {
            "critical"
        } else if n == 4625 || n == 4697 || n == 7045 || n == 5152 || n == 5157 {
            "high"
        } else if n == 4648 || n == 4672 || n == 4732 || n == 4733 || n == 4719 || n == 4768 || n
            == 4769 || n == 4946 || n == 4947 || n == 4948 || n == 4949 || n == 4950 || n == 4954
            || n == 5156 {
            "medium"
        } else {
            "info"
        },
        None => "info",
    }
}

/// The action of a Sysmon event by its id.
pub open spec fn sysmon_action(id: Option<int>) -> Seq<char> {
    match id {
        Some(n) => if n == 1 {
            "process_created"@
        } else if n == 2 {
            "file_create_time_changed"@
        } else if n == 3 {
            "network_connection"@
        } else if n == 7 {
            "image_loaded"@
        } else if n == 8 {
            "remote_thread_created"@
        } else if n == 10 {
            "process_accessed"@
        } else if n == 11 {
            "file_created"@
        } else if n == 12 {
            "registry_object_created_deleted"@
        } else if n == 13 {
            "registry_value_set"@
        } else if n == 14 {
            "registry_object_renamed"@
        } else if n == 15 {
            "file_stream_created"@
        } else if n == 17 {
            "named_pipe_created"@
        } else if n == 18 {
            "named_pipe_connected"@
        } else if n == 22 {
            "dns_query"@
        } else if n == 23 || n == 26 {
            "file_deleted"@
        } else {
            windows_action(id)
        },
        None => windows_action(id),
    }
}

/// The action of a Task Scheduler event by its id.
pub open spec fn task_action(id: Option<int>) -> Seq<char> {
    match id {
        Some(n) => if n == 106 || n == 4698 {
            "scheduled_task_created"@
        } else if n == 140 || n == 4702 {
            "scheduled_task_updated"@
        } else if n == 141 || n == 4699 {
            "scheduled_task_deleted"@
        } else if n == 200 || n == 201 {
            "scheduled_task_action_started"@
        } else if n == 102 || n == 203 {
            "scheduled_task_completed"@
        } else {
            windows_action(id)
        },
        None => windows_action(id),
    }
}

/// The action of a Service Control Manager event by its id.
pub open spec fn service_action(id: Option<int>) -> Seq<char> {
    match id {
        Some(n) => if n == 7045 {
            "service_installed"@
        } else if n == 7036 {
            "service_state_changed"@
        } else if n == 7030 || n == 7040 {
            "service_config_changed"@
        } else {
            windows_action(id)
        },
        None => windows_action(id),
    }
}

/// The action of another event by its id: scheduled tasks, Kerberos, firewall
/// and audit policy events among the Security log's.
pub open spec fn security_action(id: Option<int>) -> Seq<char> {
    match id {
        Some(n) => if n == 4698 {
            "scheduled_task_created"@
        } else if n == 4699 {
            "scheduled_task_deleted"@
        } else if n == 4702 {
            "scheduled_task_updated"@
        } else if n == 4724 {
            "password_reset_attempt"@
        } else if n == 4768 {
            "kerberos_tgt_requested"@
        } else if n == 4769 {
            "kerberos_service_ticket_requested"@
        } else if n == 4771 {
            "kerberos_preauth_failed"@
        } else if n == 4946 || n == 2004 {
            "firewall_rule_added"@
        } else if n == 4947 || n == 2005 {
            "firewall_rule_modified"@
        } else if n == 4948 || n == 2006 {
            "firewall_rule_deleted"@
        } else if n == 4949 || n == 4950 || n == 4954 {
            "firewall_policy_changed"@
        } else if n == 5156 {
            "firewall_connection_allowed"@
        } else if n == 5152 || n == 5157 {
            "firewall_connection_blocked"@
        } else if n == 4719 || n == 4902 || n == 4904 || n == 4905 || n == 4906 || n == 4907 || n
            == 4908 || n == 4912 {
            "audit_policy_changed"@
        } else if n == 4703 {
            "privilege_rights_changed"@
        } else if n == 5136 {
            "directory_object_modified"@
        } else {
            windows_action(id)
        },
        None => windows_action(id),
    }
}

/// The action of an event by its provider and id: Defender's own actions, then
/// Sysmon's, Task Scheduler's, the Service Control Manager's, else the Security
/// log's.
pub open spec fn provider_action(
    id_text: Option<Seq<char>>,
    provider: Option<Seq<char>>,
    row: Seq<(Seq<char>, Seq<char>)>,
) -> Seq<char> {
    let p = lower(
        match provider {
            Some(v) => v,
            None => Seq::empty(),
        },
    );
    let id = event_number(id_text);
    if contains(p, "defender"@) {
        defender_action(id, Some(row))
    } else if contains(p, "sysmon"@) {
        sysmon_action(id)
    } else if contains(p, "taskscheduler"@) || contains(p, "task-scheduler"@) {
        task_action(id)
    } else if contains(p, "service control manager"@) {
        service_action(id)
    } else {
        security_action(id)
    }
}

fn sysmon_action_str(id: Option<i64>) -> (r: &'static str)
    ensures
        r@ == sysmon_action(match id {
            Some(v) => Some(v as int),
            None => None,
        }),
{
    match id {
        Some(n) => if n == 1 {
            "process_created"
        } else if n == 2 {
            "file_create_time_changed"
        } else if n == 3 {
            "network_connection"
        } else if n == 7 {
            "image_loaded"
        } else if n == 8 {
            "remote_thread_created"
        } else if n == 10 {
            "process_accessed"
        } else if n == 11 {
            "file_created"
        } else if n == 12 {
            "registry_object_created_deleted"
        } else if n == 13 {
            "registry_value_set"
        } else if n == 14 {
            "registry_object_renamed"
        } else if n == 15 {
            "file_stream_created"
        } else if n == 17 {
            "named_pipe_created"
        } else if n == 18 {
            "named_pipe_connected"
        } else if n == 22 {
            "dns_query"
        } else if n == 23 || n == 26 {
            "file_deleted"
        } else {
            windows_action_str(id)
        },
        None => windows_action_str(id),
    }
}

fn task_action_str(id: Option<i64>) -> (r: &'static str)
    ensures
        r@ == task_action(match id {
            Some(v) => Some(v as int),
            None => None,
        }),
{
    match id {
        Some(n) => if n == 106 || n == 4698 {
            "scheduled_task_created"
        } else if n == 140 || n == 4702 {
            "scheduled_task_updated"
        } else if n == 141 || n == 4699 {
            "scheduled_task_deleted"
        } else if n == 200 || n == 201 {
            "scheduled_task_action_started"
        } else if n == 102 || n == 203 {
            "scheduled_task_completed"
        } else {
            windows_action_str(id)
        },
        None => windows_action_str(id),
    }
}

fn service_action_str(id: Option<i64>) -> (r: &'static str)
    ensures
        r@ == service_action(match id {
            Some(v) => Some(v as int),
            None => None,
        }),
{
    match id {
        Some(n) => if n == 7045 {
            "service_installed"
        } else if n == 7036 {
            "service_state_changed"
        } else if n == 7030 || n == 7040 {
            "service_config_changed"
        } else {
            windows_action_str(id)
        },
        None => windows_action_str(id),
    }
}

fn security_action_str(id: Option<i64>) -> (r: &'static str)
    ensures
        r@ == security_action(match id {
            Some(v) => Some(v as int),
            None => None,
        }),
{
    match id {
        Some(n) => if n == 4698 {
            "scheduled_task_created"
        } else if n == 4699 {
            "scheduled_task_deleted"
        } else if n == 4702 {
            "scheduled_task_updated"
        } else if n == 4724 {
            "password_reset_attempt"
        } else if n == 4768 {
            "kerberos_tgt_requested"
        } else if n == 4769 {
            "kerberos_service_ticket_requested"
        } else if n == 4771 {
            "kerberos_preauth_failed"
        } else if n == 4946 || n == 2004 {
            "firewall_rule_added"
        } else if n == 4947 || n == 2005 {
            "firewall_rule_modified"
        } else if n == 4948 || n == 2006 {
            "firewall_rule_deleted"
        } else if n == 4949 || n == 4950 || n == 4954 {
            "firewall_policy_changed"
        } else if n == 5156 {
            "firewall_connection_allowed"
        } else if n == 5152 || n == 5157 {
            "firewall_connection_blocked"
        } else if n == 4719 || n == 4902 || n == 4904 || n == 4905 || n == 4906 || n == 4907 || n
            == 4908 || n == 4912 {
            "audit_policy_changed"
        } else if n == 4703 {
            "privilege_rights_changed"
        } else if n == 5136 {
            "directory_object_modified"
        } else {
            windows_action_str(id)
        },
        None => windows_action_str(id),
    }
}

pub fn windows_event_action_provider(
    event_id: Option<&str>,
    provider: Option<&str>,
    data: &[(String, String)],
) -> (r: String)
    ensures
        r@ == provider_action(str_view(event_id), str_view(provider), entries(data@)),
{
    let pc = match provider {
        Some(p) => chars_of(p),
        None => Vec::new(),
    };
    let p = lower_chars(pc.as_slice());
    let id = event_number_exec(event_id);
    if contains_str(p.as_slice(), "defender") {
        return defender_event_action(event_id, Some(data));
    }
    if contains_str(p.as_slice(), "sysmon") {
        return string_of(sysmon_action_str(id));
    }
    if contains_str(p.as_slice(), "taskscheduler") || contains_str(p.as_slice(), "task-scheduler") {
        return string_of(task_action_str(id));
    }
    if contains_str(p.as_slice(), "service control manager") {
        return string_of(service_action_str(id));
    }
    string_of(security_action_str(id))
}

// ---------------------------------------------------------------------------
// Defender
// ---------------------------------------------------------------------------
/// The action a Defender log line describes.
pub open spec fn defender_text_action_of(m: Seq<char>) -> Seq<char> {
    let l = lower(m);
    if contains(l, "threat"@) || contains(l, "malware"@) || contains(l, "detected"@) {
        "defender_threat_detected"@
    } else if contains(l, "quarantine"@) || contains(l, "remediat"@) || contains(l, "clean"@)
        || contains(l, "remove"@) {
        "defender_remediation_action"@
    } else if contains(l, "configuration"@) || contains(l, "preference"@) || contains(
        l,
        "setting"@,
    ) || contains(l, "policy"@) {
        "defender_configuration_changed"@
    } else if contains(l, "scan"@) {
        "defender_scan"@
    } else if contains(l, "error"@) || contains(l, "fail"@) {
        "defender_error"@
    } else {
        "defender_mplog_observed"@
    }
}

fn defender_text_action_str(m: &[char]) -> (r: &'static str)
    ensures
        r@ == defender_text_action_of(m@),
{
    let lc = lower_chars(m);
    let l = lc.as_slice();
    if contains_str(l, "threat") || contains_str(l, "malware") || contains_str(l, "detected") {
        "defender_threat_detected"
    } else if contains_str(l, "quarantine") || contains_str(l, "remediat") || contains_str(
        l,
        "clean",
    ) || contains_str(l, "remove") {
        "defender_remediation_action"
    } else if contains_str(l, "configuration") || contains_str(l, "preference") || contains_str(
        l,
        "setting",
    ) || contains_str(l, "policy") {
        "defender_configuration_changed"
    } else if contains_str(l, "scan") {
        "defender_scan"
    } else if contains_str(l, "error") || contains_str(l, "fail") {
        "defender_error"
    } else {
        "defender_mplog_observed"
    }
}

pub fn defender_text_action(message: &str) -> (r: String)
    ensures
        r@ == defender_text_action_of(message@),
{
    let m = chars_of(message);
    string_of(defender_text_action_str(m.as_slice()))
}

/// The severity a Defender log line describes.
pub open spec fn defender_text_severity_of(m: Seq<char>) -> Seq<char> {
    let l = lower(m);
    if contains(l, "severe"@) || contains(l, "critical"@) {
        "critical"@
    } else if contains(l, "threat"@) || contains(l, "malware"@) || contains(l, "detected"@)
        || contains(l, "error"@) || contains(l, "fail"@) {
        "high"@
    } else if contains(l, "quarantine"@) || contains(l, "remediat"@) || contains(
        l,
        "configuration"@,
    ) || contains(l, "policy"@) {
        "medium"@
    } else {
        "info"@
    }
}

fn defender_text_severity_chars(m: &[char]) -> (r: &'static str)
    ensures
        r@ == defender_text_severity_of(m@),
{
    let lc = lower_chars(m);
    let l = lc.as_slice();
    if contains_str(l, "severe") || contains_str(l, "critical") {
        "critical"
    } else if contains_str(l, "threat") || contains_str(l, "malware") || contains_str(l, "detected")
        || contains_str(l, "error") || contains_str(l, "fail") {
        "high"
    } else if contains_str(l, "quarantine") || contains_str(l, "remediat") || contains_str(
        l,
        "configuration",
    ) || contains_str(l, "policy") {
        "medium"
    } else {
        "info"
    }
}

pub fn defender_text_severity(message: &str) -> (r: &'static str)
    ensures
        r@ == defender_text_severity_of(message@),
{
    let m = chars_of(message);
    defender_text_severity_chars(m.as_slice())
}

pub open spec fn action_names() -> Seq<Seq<char>> {
    seq!["Action"@, "Category"@, "EventName"@, "EventType"@, "Status"@]
}

/// The action of a Defender event: by its id, or, without an id, by what its
/// action, category, name, type or status says.
pub open spec fn defender_action(id: Option<int>, row: Option<Seq<(Seq<char>, Seq<char>)>>) -> Seq<
    char,
> {
    match id {
        Some(n) => if n == 1000 {
            "defender_scan_started"@
        } else if n == 1001 {
            "defender_scan_completed"@
        } else if n == 1002 {
            "defender_scan_stopped"@
        } else if n == 1116 {
            "defender_threat_detected"@
        } else if n == 1117 {
            "defender_remediation_action"@
        } else if n == 1118 {
            "defender_remediation_failed"@
        } else if n == 1119 {
            "defender_remediation_succeeded"@
        } else if n == 1120 || n == 1121 {
            "defender_threat_status_changed"@
        } else if n == 5007 {
            "defender_configuration_changed"@
        } else if n == 5013 {
            "defender_tamper_or_config_blocked"@
        } else {
            "defender_operational_event"@
        },
        None => match row {
            Some(r) => match named_value(r, action_names()) {
                Some(v) => defender_text_action_of(v),
                None => "defender_event"@,
            },
            None => "defender_event"@,
        },
    }
}

pub open spec fn rows_view(data: Option<&[(String, String)]>) -> Option<Seq<(Seq<char>, Seq<char>)>> {
    match data {
        Some(d) => Some(entries(d@)),
        None => None,
    }
}

pub fn defender_event_action(event_id: Option<&str>, data: Option<&[(String, String)]>) -> (r: String)
    ensures
        r@ == defender_action(event_number(str_view(event_id)), rows_view(data)),
{
    match event_number_exec(event_id) {
        Some(n) => string_of(
            if n == 1000 {
                "defender_scan_started"
            } else if n == 1001 {
                "defender_scan_completed"
            } else if n == 1002 {
                "defender_scan_stopped"
            } else if n == 1116 {
                "defender_threat_detected"
            } else if n == 1117 {
                "defender_remediation_action"
            } else if n == 1118 {
                "defender_remediation_failed"
            } else if n == 1119 {
                "defender_remediation_succeeded"
            } else if n == 1120 || n == 1121 {
                "defender_threat_status_changed"
            } else if n == 5007 {
                "defender_configuration_changed"
            } else if n == 5013 {
                "defender_tamper_or_config_blocked"
            } else {
                "defender_operational_event"
            },
        ),
        None => match data {
            Some(d) => {
                let names = ["Action", "Category", "EventName", "EventType", "Status"];
                assert(views(names@) =~= action_names());
                match first_named(d, &names) {
                    Some(v) => defender_text_action(v.as_str()),
                    None => string_of("defender_event"),
                }
            },
            None => string_of("defender_event"),
        },
    }
}

pub open spec fn severity_names() -> Seq<Seq<char>> {
    seq!["Severity"@, "Threat Severity"@, "ThreatSeverity"@]
}

/// The severity of a Defender event: by its level, by its id, else by the
/// severity its data names.
pub open spec fn defender_severity(
    id: Option<int>,
    level: Option<Seq<char>>,
    row: Option<Seq<(Seq<char>, Seq<char>)>>,
) -> Seq<char> {
    match level_severity(level) {
        Some(s) => s,
        None => {
            let by_data = match row {
                Some(r) => match event_field(r, severity_names()) {
                    Some(v) => defender_text_severity_of(v),
                    None => "info"@,
                },
                None => "info"@,
            };
            match id {
                Some(n) => if n == 1116 || n == 1118 || n == 5013 {
                    "high"@
                } else if n == 1117 || n == 1119 || n == 1120 || n == 1121 || n == 5007 {
                    "medium"@
                } else {
                    by_data
                },
                None => by_data,
            }
        },
    }
}

fn severity_from_data(data: Option<&[(String, String)]>) -> (r: &'static str)
    ensures
        r@ == (match rows_view(data) {
            Some(r) => match event_field(r, severity_names()) {
                Some(v) => defender_text_severity_of(v),
                None => "info"@,
            },
            None => "info"@,
        }),
{
    match data {
        Some(d) => {
            let names = ["Severity", "Threat Severity", "ThreatSeverity"];
            assert(views(names@) =~= severity_names());
            match first_event_field(d, &names) {
                Some(v) => defender_text_severity(v.as_str()),
                None => "info",
            }
        },
        None => "info",
    }
}

pub fn defender_event_severity(
    event_id: Option<&str>,
    level: Option<&str>,
    data: Option<&[(String, String)]>,
) -> (r: &'static str)
    ensures
        r@ == defender_severity(event_number(str_view(event_id)), str_view(level), rows_view(data)),
{
    if let Some(s) = level_severity_exec(level) {
        return s;
    }
    match event_number_exec(event_id) {
        Some(n) => if n == 1116 || n == 1118 || n == 5013 {
            "high"
        } else if n == 1117 || n == 1119 || n == 1120 || n == 1121 || n == 5007 {
            "medium"
        } else {
            severity_from_data(data)
        },
        None => severity_from_data(data),
    }
}

/// `prefix` and the value, as a one-element list, when there is a value.
pub open spec fn opt_part(prefix: Seq<char>, v: Option<Seq<char>>) -> Seq<Seq<char>> {
    match v {
        Some(x) => seq![prefix + x],
        None => Seq::empty(),
    }
}

fn push_opt_part(parts: &mut Vec<String>, prefix: &str, v: Option<String>)
    ensures
        vec_strings(final(parts)@) == vec_strings(old(parts)@) + opt_part(prefix@, opt_view(v)),
{
    let ghost prev = vec_strings(parts@);
    match v {
        Some(x) => {
            let s = concat_str(prefix, x.as_str());
            parts.push(s);
            assert(vec_strings(parts@) =~= prev + seq![prefix@ + x@]);
        },
        None => {
            assert(prev + opt_part(prefix@, None) =~= prev);
        },
    }
}

pub open spec fn status_names() -> Seq<Seq<char>> {
    seq!["Status"@, "Action Status"@, "ActionStatus"@]
}

/// A one-line description of a Defender event: its id, action, threat, path and
/// status, separated by spaces.
pub open spec fn defender_message_of(
    code: Option<Seq<char>>,
    action: Seq<char>,
    threat: Option<Seq<char>>,
    path: Option<Seq<char>>,
    row: Option<Seq<(Seq<char>, Seq<char>)>>,
) -> Seq<char> {
    let status = match row {
        Some(r) => event_field(r, status_names()),
        None => None,
    };
    joined(
        opt_part("EventID "@, code) + seq![action] + opt_part("threat="@, threat) + opt_part(
            "path="@,
            path,
        ) + opt_part("status="@, status),
        " "@,
    )
}

fn opt_string(o: Option<&str>) -> (r: Option<String>)
    ensures
        opt_view(r) == str_view(o),
{
    match o {
        Some(s) => Some(string_of(s)),
        None => None,
    }
}

pub fn defender_message(
    event_code: Option<&str>,
    action: &str,
    threat: Option<&str>,
    path: Option<&str>,
    data: Option<&[(String, String)]>,
) -> (r: String)
    ensures
        r@ == defender_message_of(
            str_view(event_code),
            action@,
            str_view(threat),
            str_view(path),
            rows_view(data),
        ),
{
    let mut parts: Vec<String> = Vec::new();
    assert(vec_strings(parts@) =~= Seq::<Seq<char>>::empty());
    push_opt_part(&mut parts, "EventID ", opt_string(event_code));
    let ghost p1 = vec_strings(parts@);
    parts.push(string_of(action));
    assert(vec_strings(parts@) =~= p1 + seq![action@]);
    push_opt_part(&mut parts, "threat=", opt_string(threat));
    push_opt_part(&mut parts, "path=", opt_string(path));
    let status = match data {
        Some(d) => {
            let names = ["Status", "Action Status", "ActionStatus"];
            assert(views(names@) =~= status_names());
            first_event_field(d, &names)
        },
        None => None,
    };
    push_opt_part(&mut parts, "status=", status);
    let j = join_strings(&parts, " ");
    crate::text::string_from(j.as_slice())
}

pub open spec fn process_hint_labels() -> Seq<Seq<char>> {
    seq!["Process Name"@, "ProcessName"@, "Process"@, "Image"@]
}

pub fn defender_process_hint(message: &str) -> (r: Option<String>)
    ensures
        opt_view(r) == first_label_value(message@, process_hint_labels()),
{
    let labels = ["Process Name", "ProcessName", "Process", "Image"];
    assert(views(labels@) =~= process_hint_labels());
    extract_label_value(message, &labels)
}

// ---------------------------------------------------------------------------
// Firewall
// ---------------------------------------------------------------------------
/// The direction a firewall field names, by word, audit code or number.
pub open spec fn firewall_direction(v: Seq<char>) -> Option<Seq<char>> {
    let l = lower(v);
    if contains(l, "out"@) || contains(l, "%%14593"@) || l == "2"@ {
        Some("outbound"@)
    } else if contains(l, "in"@) || contains(l, "%%14592"@) || l == "1"@ {
        Some("inbound"@)
    } else {
        None
    }
}

pub fn normalize_firewall_direction(value: &str) -> (r: Option<&'static str>)
    ensures
        match r {
            Some(s) => firewall_direction(value@) == Some(s@),
            None => firewall_direction(value@) is None,
        },
{
    let c = chars_of(value);
    let lc = lower_chars(c.as_slice());
    let l = lc.as_slice();
    if contains_str(l, "out") || contains_str(l, "%%14593") || eq_str(l, "2") {
        Some("outbound")
    } else if contains_str(l, "in") || contains_str(l, "%%14592") || eq_str(l, "1") {
        Some("inbound")
    } else {
        None
    }
}

/// The verdict a firewall field names, by word, audit code or number.
pub open spec fn firewall_action(v: Seq<char>) -> Option<Seq<char>> {
    let l = lower(trim(v));
    if contains(l, "block"@) || contains(l, "deny"@) || contains(l, "%%14598"@) || l == "2"@ {
        Some("blocked"@)
    } else if contains(l, "allow"@) || contains(l, "permit"@) || contains(l, "%%14597"@) || l
        == "3"@ {
        Some("allowed"@)
    } else {
        None
    }
}

pub fn normalize_firewall_action(value: &str) -> (r: Option<&'static str>)
    ensures
        match r {
            Some(s) => firewall_action(value@) == Some(s@),
            None => firewall_action(value@) is None,
        },
{
    let c = chars_of(value);
    let t = trim_chars(c.as_slice());
    let lc = lower_chars(t.as_slice());
    let l = lc.as_slice();
    if contains_str(l, "block") || contains_str(l, "deny") || contains_str(l, "%%14598") || eq_str(
        l,
        "2",
    ) {
        Some("blocked")
    } else if contains_str(l, "allow") || contains_str(l, "permit") || contains_str(l, "%%14597")
        || eq_str(l, "3") {
        Some("allowed")
    } else {
        None
    }
}

// ---------------------------------------------------------------------------
// Messages
// ---------------------------------------------------------------------------
pub open spec fn message_user_names() -> Seq<Seq<char>> {
    seq!["TargetUserName"@, "SubjectUserName"@, "AccountName"@, "UserName"@, "User"@]
}

pub open spec fn message_process_names() -> Seq<Seq<char>> {
    seq!["NewProcessName"@, "ProcessName"@, "Image"@, "Application"@]
}

pub open spec fn message_ip_names() -> Seq<Seq<char>> {
    seq!["IpAddress"@, "SourceNetworkAddress"@, "ClientAddress"@]
}

/// The labelled details of a message, and the fields each is read from; the audit
/// subcategory is read by name or by id.
pub open spec fn detail_labels() -> Seq<(Seq<char>, Seq<Seq<char>>)> {
    seq![
        ("logon_type"@, seq!["LogonType"@]),
        ("ticket_encryption"@, seq!["TicketEncryptionType"@]),
        ("preauth"@, seq!["PreAuthType"@, "PreAuthenticationType"@]),
        ("service"@, seq!["ServiceName"@]),
        ("rule"@, seq!["RuleName"@, "Rule Name"@, "Name"@]),
        ("direction"@, seq!["Direction"@]),
        ("audit_subcategory"@, seq!["SubcategoryName"@, "Subcategory"@]),
        ("pipe"@, seq!["PipeName"@]),
        ("command"@, seq!["CommandLine"@, "ProcessCommandLine"@]),
    ]
}

pub open spec fn map_opt(o: Option<Seq<char>>, f: spec_fn(Seq<char>) -> Seq<char>) -> Option<Seq<char>> {
    match o {
        Some(v) => Some(f(v)),
        None => None,
    }
}

/// The value of a labelled detail in the event data.
pub open spec fn detail_value(row: Seq<(Seq<char>, Seq<char>)>, l: (Seq<char>, Seq<Seq<char>>)) -> Option<
    Seq<char>,
> {
    if l.0 == "audit_subcategory"@ {
        audit_subcategory(row)
    } else {
        event_field(row, l.1)
    }
}

/// A labelled detail as `label=value`, the value cut to 120 characters.
pub open spec fn detail_part(row: Seq<(Seq<char>, Seq<char>)>, l: (Seq<char>, Seq<Seq<char>>)) -> Seq<
    Seq<char>,
> {
    opt_part(l.0 + "="@, map_opt(detail_value(row, l), |x: Seq<char>| truncated(x, 120)))
}

/// The details `ls[i..]` present in the event data.
pub open spec fn detail_parts(row: Seq<(Seq<char>, Seq<char>)>, ls: Seq<(Seq<char>, Seq<Seq<char>>)>, i: int) -> Seq<
    Seq<char>,
>
    decreases ls.len() - i,
{
    if i < 0 || i >= ls.len() {
        Seq::empty()
    } else {
        detail_part(row, ls[i]) + detail_parts(row, ls, i + 1)
    }
}

/// A one-line description of an event: its id, action, user (sanitised), process,
/// address and labelled details, separated by spaces.
pub open spec fn event_message(code: Option<Seq<char>>, action: Seq<char>, row: Seq<(Seq<char>, Seq<char>)>) -> Seq<
    char,
> {
    joined(
        opt_part("EventID "@, code) + seq![action] + opt_part(
            "user="@,
            map_opt(event_field(row, message_user_names()), |u: Seq<char>| sanitized_account(u)),
        ) + opt_part("process="@, event_field(row, message_process_names())) + opt_part(
            "ip="@,
            event_field(row, message_ip_names()),
        ) + detail_parts(row, detail_labels(), 0),
        " "@,
    )
}

fn detail_exec(data: &[(String, String)], label: &str, names: &[&str]) -> (r: Option<String>)
    ensures
        vec_strings(
            match r {
                Some(x) => seq![x],
                None => Seq::<String>::empty(),
            },
        ) == detail_part(entries(data@), (label@, views(names@))),
{
    let lc = chars_of(label);
    let v = if eq_str(lc.as_slice(), "audit_subcategory") {
        audit_subcategory_name(data)
    } else {
        first_event_field(data, names)
    };
    match v {
        Some(x) => {
            let t = truncate(x.as_str(), 120);
            let head = concat_str(label, "=");
            let s = concat_str(head.as_str(), t.as_str());
            assert(vec_strings(seq![s]) =~= seq![label@ + "="@ + truncated(x@, 120)]);
            Some(s)
        },
        None => {
            assert(vec_strings(Seq::<String>::empty()) =~= Seq::<Seq<char>>::empty());
            None
        },
    }
}

pub open spec fn label_views(ls: Seq<(&str, &[&str])>) -> Seq<(Seq<char>, Seq<Seq<char>>)> {
    ls.map_values(|l: (&str, &[&str])| (l.0@, views(l.1@)))
}

fn detail_parts_exec(data: &[(String, String)], ls: &[(&str, &[&str])], parts: &mut Vec<String>)
    ensures
        vec_strings(final(parts)@) == vec_strings(old(parts)@) + detail_parts(
            entries(data@),
            label_views(ls@),
            0,
        ),
{
    let ghost row = entries(data@);
    let ghost lv = label_views(ls@);
    let mut i: usize = 0;
    assert(vec_strings(old(parts)@) + detail_parts(row, lv, 0) == vec_strings(parts@)
        + detail_parts(row, lv, 0));
    while i < ls.len()
        invariant
            i <= ls.len(),
            row == entries(data@),
            lv == label_views(ls@),
            vec_strings(old(parts)@) + detail_parts(row, lv, 0) == vec_strings(parts@)
                + detail_parts(row, lv, i as int),
        decreases ls.len() - i,
    {
        let (label, names) = ls[i];
        assert(lv[i as int] == (label@, views(names@)));
        let d = detail_exec(data, label, names);
        let ghost prev = vec_strings(parts@);
        let ghost dp = detail_part(row, lv[i as int]);
        match d {
            Some(x) => {
                parts.push(x);
                assert(vec_strings(parts@) =~= prev + dp);
            },
            None => {
                assert(vec_strings(parts@) =~= prev + dp);
            },
        }
        assert(detail_parts(row, lv, i as int) == dp + detail_parts(row, lv, i + 1));
        assert(prev + (dp + detail_parts(row, lv, i + 1)) =~= (prev + dp) + detail_parts(
            row,
            lv,
            i + 1,
        ));
        i = i + 1;
    }
    assert(detail_parts(row, lv, ls.len() as int) =~= Seq::<Seq<char>>::empty());
    assert(vec_strings(parts@) + Seq::<Seq<char>>::empty() =~= vec_strings(parts@));
}

pub fn format_event_message(event_code: Option<&str>, action: &str, data: &[(String, String)]) -> (r: String)
    ensures
        r@ == event_message(str_view(event_code), action@, entries(data@)),
{
    let user_names = ["TargetUserName", "SubjectUserName", "AccountName", "UserName", "User"];
    assert(views(user_names@) =~= message_user_names());
    let process_names = ["NewProcessName", "ProcessName", "Image", "Application"];
    assert(views(process_names@) =~= message_process_names());
    let ip_names = ["IpAddress", "SourceNetworkAddress", "ClientAddress"];
    assert(views(ip_names@) =~= message_ip_names());
    let user = first_event_field(data, &user_names);
    let process = first_event_field(data, &process_names);
    let ip = first_event_field(data, &ip_names);
    let mut parts: Vec<String> = Vec::new();
    assert(vec_strings(parts@) =~= Seq::<Seq<char>>::empty());
    push_opt_part(&mut parts, "EventID ", opt_string(event_code));
    let ghost p1 = vec_strings(parts@);
    parts.push(string_of(action));
    assert(vec_strings(parts@) =~= p1 + seq![action@]);
    let sanitized = match user {
        Some(u) => Some(sanitize_account_name(u.as_str())),
        None => None,
    };
    push_opt_part(&mut parts, "user=", sanitized);
    push_opt_part(&mut parts, "process=", process);
    push_opt_part(&mut parts, "ip=", ip);
    let a0: &[&str] = &["LogonType"];
    let a1: &[&str] = &["TicketEncryptionType"];
    let a2: &[&str] = &["PreAuthType", "PreAuthenticationType"];
    let a3: &[&str] = &["ServiceName"];
    let a4: &[&str] = &["RuleName", "Rule Name", "Name"];
    let a5: &[&str] = &["Direction"];
    let a6: &[&str] = &["SubcategoryName", "Subcategory"];
    let a7: &[&str] = &["PipeName"];
    let a8: &[&str] = &["CommandLine", "ProcessCommandLine"];
    let ls: [(&str, &[&str]); 9] = [
        ("logon_type", a0),
        ("ticket_encryption", a1),
        ("preauth", a2),
        ("service", a3),
        ("rule", a4),
        ("direction", a5),
        ("audit_subcategory", a6),
        ("pipe", a7),
        ("command", a8),
    ];
    assert(label_views(ls@) =~= detail_labels()) by {
        assert(views(a0@) =~= seq!["LogonType"@]);
        assert(views(a1@) =~= seq!["TicketEncryptionType"@]);
        assert(views(a2@) =~= seq!["PreAuthType"@, "PreAuthenticationType"@]);
        assert(views(a3@) =~= seq!["ServiceName"@]);
        assert(views(a4@) =~= seq!["RuleName"@, "Rule Name"@, "Name"@]);
        assert(views(a5@) =~= seq!["Direction"@]);
        assert(views(a6@) =~= seq!["SubcategoryName"@, "Subcategory"@]);
        assert(views(a7@) =~= seq!["PipeName"@]);
        assert(views(a8@) =~= seq!["CommandLine"@, "ProcessCommandLine"@]);
    }
    detail_parts_exec(data, &ls, &mut parts);
    let j = join_strings(&parts, " ");
    crate::text::string_from(j.as_slice())
}

// ---------------------------------------------------------------------------
// Database strings
// ---------------------------------------------------------------------------
pub open spec fn download_words() -> Seq<Seq<char>> {
    seq!["download"@, ".exe"@, ".ps1"@, ".zip"@]
}

pub open spec fn srum_words() -> Seq<Seq<char>> {
    seq!["appresource"@, "energy"@, "interface"@, "resource"@, "recordoffset"@, "autoinc"@]
}

/// What a string found in a database says, by the kind of database and whether a
/// URL or a process was read from it; `lower` is the string in lower case.
pub open spec fn database_action(t: Seq<char>, lower: Seq<char>, has_url: bool, has_process: bool) -> Seq<
    char,
> {
    if t == "browser"@ {
        if has_url && contains_any(lower, download_words()) {
            "browser_download_observed"@
        } else if has_url {
            "browser_url_observed"@
        } else if has_process {
            "browser_process_string_observed"@
        } else {
            "browser_artifact_string_observed"@
        }
    } else if t == "web_cache"@ {
        if has_url && contains_any(lower, download_words()) {
            "webcache_download_observed"@
        } else if has_url {
            "webcache_url_observed"@
        } else {
            "webcache_cache_artifact_observed"@
        }
    } else if t == "srum"@ {
        if has_process {
            "srum_process_resource_observed"@
        } else if has_url || contains(lower, "network"@) {
            "srum_network_resource_observed"@
        } else if contains_any(lower, srum_words()) {
            "srum_schema_or_resource_observed"@
        } else {
            "srum_resource_observed"@
        }
    } else if t == "sqlite"@ {
        if has_url {
            "sqlite_url_observed"@
        } else {
            "sqlite_artifact_string_observed"@
        }
    } else {
        "ese_artifact_string_observed"@
    }
}

pub fn database_string_action(
    artifact_type: &str,
    lower: &str,
    url: Option<&str>,
    process_name: Option<&str>,
) -> (r: &'static str)
    ensures
        r@ == database_action(artifact_type@, lower@, url is Some, process_name is Some),
{
    let t = chars_of(artifact_type);
    let lc = chars_of(lower);
    let l = lc.as_slice();
    let dl = ["download", ".exe", ".ps1", ".zip"];
    assert(views(dl@) =~= download_words());
    if eq_str(t.as_slice(), "browser") {
        if url.is_some() && contains_any_str(l, &dl) {
            "browser_download_observed"
        } else if url.is_some() {
            "browser_url_observed"
        } else if process_name.is_some() {
            "browser_process_string_observed"
        } else {
            "browser_artifact_string_observed"
        }
    } else if eq_str(t.as_slice(), "web_cache") {
        if url.is_some() && contains_any_str(l, &dl) {
            "webcache_download_observed"
        } else if url.is_some() {
            "webcache_url_observed"
        } else {
            "webcache_cache_artifact_observed"
        }
    } else if eq_str(t.as_slice(), "srum") {
        let sw = ["appresource", "energy", "interface", "resource", "recordoffset", "autoinc"];
        assert(views(sw@) =~= srum_words());
        if process_name.is_some() {
            "srum_process_resource_observed"
        } else if url.is_some() || contains_str(l, "network") {
            "srum_network_resource_observed"
        } else if contains_any_str(l, &sw) {
            "srum_schema_or_resource_observed"
        } else {
            "srum_resource_observed"
        }
    } else if eq_str(t.as_slice(), "sqlite") {
        if url.is_some() {
            "sqlite_url_observed"
        } else {
            "sqlite_artifact_string_observed"
        }
    } else {
        "ese_artifact_string_observed"
    }
}

pub open spec fn hostile_words() -> Seq<Seq<char>> {
    seq![
        "powershell"@, "cmd.exe"@, "rundll32"@, "regsvr32"@, "mshta"@, "mimikatz"@, "lsass"@,
        "malware"@, "trojan"@,
    ]
}

/// The severity of a database string: high when it names an attacker's tool,
/// medium in browser, cache, SRUM and SQLite databases, else info.
pub open spec fn database_severity(t: Seq<char>, lower: Seq<char>) -> Seq<char> {
    if contains_any(lower, hostile_words()) {
        "high"@
    } else if t == "browser"@ || t == "web_cache"@ || t == "srum"@ || t == "sqlite"@ {
        "medium"@
    } else {
        "info"@
    }
}

pub fn database_signal_severity(artifact_type: &str, lower: &str) -> (r: &'static str)
    ensures
        r@ == database_severity(artifact_type@, lower@),
{
    let t = chars_of(artifact_type);
    let lc = chars_of(lower);
    let hw = [
        "powershell",
        "cmd.exe",
        "rundll32",
        "regsvr32",
        "mshta",
        "mimikatz",
        "lsass",
        "malware",
        "trojan",
    ];
    assert(views(hw@) =~= hostile_words());
    if contains_any_str(lc.as_slice(), &hw) {
        "high"
    } else if eq_str(t.as_slice(), "browser") || eq_str(t.as_slice(), "web_cache") || eq_str(
        t.as_slice(),
        "srum",
    ) || eq_str(t.as_slice(), "sqlite") {
        "medium"
    } else {
        "info"
    }
}

} // verus!
