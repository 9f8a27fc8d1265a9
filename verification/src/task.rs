//! Scheduled task definitions (Task Scheduler XML): what a task runs, as whom,
//! when it starts, and how suspicious its command line looks.
use vstd::prelude::*;
use crate::artifact::{file_name_from_path, file_name_of};
use crate::classify::{scheduled_task_severity, task_severity, user_from_path, user_of_path};
use crate::datetime::{datetime_text, normalize_datetime};
use crate::decode::opt_view;
use crate::extract::{extract_hash_like, extract_url_like, hash_like, url_like};
use crate::text::{chars_of, concat_str, eq_str, string_of, trim, trim_str};
use crate::xml::{extract_xml_tag, tag_value};

verus! {

/// What a scheduled task definition says, and how it is reported.
#[derive(Debug, Clone)]
pub struct ScheduledTaskSummary {
    pub task_name: String,
    pub uri: Option<String>,
    pub author: Option<String>,
    pub description: Option<String>,
    pub user_id: Option<String>,
    pub logon_type: Option<String>,
    pub run_level: Option<String>,
    pub enabled: Option<String>,
    pub hidden: Option<String>,
    pub start_boundary: Option<String>,
    pub command: Option<String>,
    pub arguments: Option<String>,
    pub working_directory: Option<String>,
    /// The command and its arguments, joined by a space.
    pub command_line: String,
    pub process_name: Option<String>,
    pub file_path: String,
    pub url: Option<String>,
    pub hash: Option<String>,
    pub severity: &'static str,
    pub action: &'static str,
    pub message: String,
    /// The start boundary in UTC, when it reads as a date and time.
    pub event_time: Option<String>,
    /// The event of the task's exec action, when its command line is not blank.
    pub exec_event: Option<TaskFollowUpEvent>,
    /// The event of the task's trigger, when it has a start boundary.
    pub trigger_event: Option<TaskFollowUpEvent>,
}

/// An event a task definition gives besides its own: how its time is known,
/// its action, its severity and its message.
#[derive(Debug, Clone)]
pub struct TaskFollowUpEvent {
    pub time_kind: &'static str,
    pub action: &'static str,
    pub severity: &'static str,
    pub message: String,
}

/// The exec-action event of a task named `name` with command line `cl`.
pub open spec fn exec_event_of(name: Seq<char>, cl: Seq<char>, e: Option<TaskFollowUpEvent>) -> bool {
    if trim(cl).len() == 0 {
        e is None
    } else {
        e matches Some(x) && x.time_kind@ == "scheduled_task_exec_action_observed"@
            && x.action@ == "scheduled_task_exec_action"@ && x.severity@ == task_severity(cl)
            && x.message@ == "Scheduled task exec action: "@ + name + " command="@ + cl
    }
}

/// The trigger event of a task with start boundary `sb`.
pub open spec fn trigger_event_of(sb: Option<Seq<char>>, e: Option<TaskFollowUpEvent>) -> bool {
    match sb {
        None => e is None,
        Some(b) => e matches Some(x) && x.time_kind@ == "scheduled_task_trigger_boundary"@
            && x.action@ == "scheduled_task_trigger_observed"@ && x.severity@ == "info"@
            && x.message@ == "Scheduled task trigger observed: "@ + b,
    }
}

/// A command and its arguments, joined by a space where both are present.
pub open spec fn command_line_of(c: Option<Seq<char>>, a: Option<Seq<char>>) -> Seq<char> {
    match (c, a) {
        (Some(c), Some(a)) => c + " "@ + a,
        (Some(c), None) => c,
        (None, Some(a)) => a,
        (None, None) => Seq::empty(),
    }
}

/// The process a command runs: its file name, or the command itself.
pub open spec fn task_process_of(c: Option<Seq<char>>) -> Option<Seq<char>> {
    match c {
        Some(c) => match file_name_of(c) {
            Some(n) => Some(n),
            None => Some(c),
        },
        None => None,
    }
}

/// The message of a task: its name, and its command line when there is one.
pub open spec fn task_message_of(name: Seq<char>, command_line: Seq<char>) -> Seq<char> {
    if trim(command_line).len() == 0 {
        "Scheduled task observed: "@ + name
    } else {
        "Scheduled task observed: "@ + name + " command="@ + command_line
    }
}

fn first_or(a: Option<String>, b: Option<String>) -> (r: Option<String>)
    ensures
        opt_view(r) == (if a is Some { opt_view(a) } else { opt_view(b) }),
{
    match a {
        Some(v) => Some(v),
        None => b,
    }
}

fn joined_command(c: &Option<String>, a: &Option<String>) -> (r: String)
    ensures
        r@ == command_line_of(opt_view(*c), opt_view(*a)),
{
    match (c, a) {
        (Some(c), Some(a)) => {
            let head = concat_str(c.as_str(), " ");
            concat_str(head.as_str(), a.as_str())
        },
        (Some(c), None) => string_of(c.as_str()),
        (None, Some(a)) => string_of(a.as_str()),
        (None, None) => String::new(),
    }
}

/// The summary of a scheduled task definition `text` found at `original_path`.
/// Each element is read from its XML tag; the task's name falls back to the file
/// name, its user to the profile in the path, and its file to the path itself.
pub fn scheduled_task_summary(original_path: &str, text: &str) -> (r: ScheduledTaskSummary)
    ensures
        opt_view(r.uri) == (if tag_value(text@, "URI"@) is Some {
            tag_value(text@, "URI"@)
        } else {
            file_name_of(original_path@)
        }),
        r.task_name@ == (match opt_view(r.uri) {
            Some(u) => u,
            None => original_path@,
        }),
        opt_view(r.author) == tag_value(text@, "Author"@),
        opt_view(r.description) == tag_value(text@, "Description"@),
        opt_view(r.user_id) == (if tag_value(text@, "UserId"@) is Some {
            tag_value(text@, "UserId"@)
        } else {
            user_of_path(original_path@)
        }),
        opt_view(r.logon_type) == tag_value(text@, "LogonType"@),
        opt_view(r.run_level) == tag_value(text@, "RunLevel"@),
        opt_view(r.enabled) == tag_value(text@, "Enabled"@),
        opt_view(r.hidden) == tag_value(text@, "Hidden"@),
        opt_view(r.start_boundary) == tag_value(text@, "StartBoundary"@),
        opt_view(r.command) == tag_value(text@, "Command"@),
        opt_view(r.arguments) == tag_value(text@, "Arguments"@),
        opt_view(r.working_directory) == tag_value(text@, "WorkingDirectory"@),
        r.command_line@ == command_line_of(opt_view(r.command), opt_view(r.arguments)),
        opt_view(r.process_name) == task_process_of(opt_view(r.command)),
        r.file_path@ == (match opt_view(r.command) {
            Some(c) => c,
            None => original_path@,
        }),
        opt_view(r.url) == url_like(r.command_line@),
        opt_view(r.hash) == hash_like(r.command_line@),
        r.severity@ == task_severity(r.command_line@),
        r.action@ == (if task_severity(r.command_line@) == "high"@ {
            "scheduled_task_suspicious_exec"@
        } else {
            "scheduled_task_observed"@
        }),
        r.message@ == task_message_of(r.task_name@, r.command_line@),
        opt_view(r.event_time) == (match opt_view(r.start_boundary) {
            Some(s) => datetime_text(s),
            None => None,
        }),
        exec_event_of(r.task_name@, r.command_line@, r.exec_event),
        trigger_event_of(opt_view(r.start_boundary), r.trigger_event),
{
    let uri = first_or(extract_xml_tag(text, "URI"), file_name_from_path(original_path));
    let author = extract_xml_tag(text, "Author");
    let description = extract_xml_tag(text, "Description");
    let user_id = first_or(extract_xml_tag(text, "UserId"), user_from_path(original_path));
    let logon_type = extract_xml_tag(text, "LogonType");
    let run_level = extract_xml_tag(text, "RunLevel");
    let enabled = extract_xml_tag(text, "Enabled");
    let hidden = extract_xml_tag(text, "Hidden");
    let start_boundary = extract_xml_tag(text, "StartBoundary");
    let command = extract_xml_tag(text, "Command");
    let arguments = extract_xml_tag(text, "Arguments");
    let working_directory = extract_xml_tag(text, "WorkingDirectory");
    let command_line = joined_command(&command, &arguments);
    let event_time = match &start_boundary {
        Some(s) => normalize_datetime(s.as_str()),
        None => None,
    };
    let process_name = match &command {
        Some(c) => match file_name_from_path(c.as_str()) {
            Some(n) => Some(n),
            None => Some(string_of(c.as_str())),
        },
        None => None,
    };
    let file_path = match &command {
        Some(c) => string_of(c.as_str()),
        None => string_of(original_path),
    };
    let url = extract_url_like(command_line.as_str());
    let hash = extract_hash_like(command_line.as_str());
    let severity = scheduled_task_severity(command_line.as_str());
    let action = if eq_str(chars_of(severity).as_slice(), "high") {
        "scheduled_task_suspicious_exec"
    } else {
        "scheduled_task_observed"
    };
    let task_name = match &uri {
        Some(u) => string_of(u.as_str()),
        None => string_of(original_path),
    };
    let head = concat_str("Scheduled task observed: ", task_name.as_str());
    let blank = trim_str(command_line.as_str()).len() == 0;
    let message = if blank {
        head
    } else {
        let with_label = concat_str(head.as_str(), " command=");
        concat_str(with_label.as_str(), command_line.as_str())
    };
    let exec_event = if blank {
        None
    } else {
        let a = concat_str("Scheduled task exec action: ", task_name.as_str());
        let b = concat_str(a.as_str(), " command=");
        Some(
            TaskFollowUpEvent {
                time_kind: "scheduled_task_exec_action_observed",
                action: "scheduled_task_exec_action",
                severity,
                message: concat_str(b.as_str(), command_line.as_str()),
            },
        )
    };
    let trigger_event = match &start_boundary {
        Some(b) => Some(
            TaskFollowUpEvent {
                time_kind: "scheduled_task_trigger_boundary",
                action: "scheduled_task_trigger_observed",
                severity: "info",
                message: concat_str("Scheduled task trigger observed: ", b.as_str()),
            },
        ),
        None => None,
    };
    ScheduledTaskSummary {
        task_name,
        uri,
        author,
        description,
        user_id,
        logon_type,
        run_level,
        enabled,
        hidden,
        start_boundary,
        command,
        arguments,
        working_directory,
        command_line,
        process_name,
        file_path,
        url,
        hash,
        severity,
        action,
        message,
        event_time,
        exec_event,
        trigger_event,
    }
}

} // verus!
