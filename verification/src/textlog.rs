//! Reading one line of a text log: labelled values, HTTP request fields, user
//! and command hints, and the classification of the line into a log family.
use vstd::prelude::*;
use crate::decode::{clean, clean_chars, opt_view};
use crate::text::{
    chars_of, concat_chars, concat_str, contains, contains_str, ends_with, ends_with_str,
    eq_ignore_case, eq_ignore_case_chars, find, find_chars, find_str, first_segment,
    first_segment_of, is_ascii_alnum, is_ws, lower, lower_chars, lower_of, parse_i64, parse_int,
    seq_eq, slice_to_vec, string_from, string_of, trim, trim_chars, upper, upper_chars,
    utf8_len_at_least_two, views, vviews, words, words_of, char_is_ascii_alnum, char_is_ws,
    eq_str,
};

verus! {

// ---------------------------------------------------------------------------
// Labelled values
// ---------------------------------------------------------------------------
pub open spec fn label_sep_char(c: char) -> bool {
    c == ':' || c == '=' || is_ws(c)
}

/// `s` without its leading `:`, `=` and white space.
pub open spec fn skip_label_seps(s: Seq<char>) -> Seq<char>
    decreases s.len(),
{
    if s.len() > 0 && label_sep_char(s[0]) {
        skip_label_seps(s.drop_first())
    } else {
        s
    }
}

/// The value after the first occurrence of `label` (in any ASCII case): past
/// `:`, `=` and white space, up to `;`, `,` or a tab, cleaned.
pub open spec fn label_value(msg: Seq<char>, label: Seq<char>) -> Option<Seq<char>> {
    match find(lower(msg), lower(label)) {
        Some(k) => clean(
            trim(
                first_segment(
                    skip_label_seps(msg.subrange(k + label.len(), msg.len() as int)),
                    seq![';', ',', '\t'],
                ),
            ),
        ),
        None => None,
    }
}

/// The value of the first label, in the order given, that yields one.
pub open spec fn first_label_value(msg: Seq<char>, labels: Seq<Seq<char>>) -> Option<Seq<char>>
    decreases labels.len(),
{
    if labels.len() == 0 {
        None
    } else {
        match label_value(msg, labels[0]) {
            Some(v) => Some(v),
            None => first_label_value(msg, labels.drop_first()),
        }
    }
}

fn skip_label_seps_exec(s: &[char]) -> (r: Vec<char>)
    ensures
        r@ == skip_label_seps(s@),
{
    let mut i: usize = 0;
    assert(s@.subrange(0, s@.len() as int) =~= s@);
    while i < s.len() && (s[i] == ':' || s[i] == '=' || char_is_ws(s[i]))
        invariant
            i <= s.len(),
            skip_label_seps(s@) == skip_label_seps(s@.subrange(i as int, s@.len() as int)),
        decreases s.len() - i,
    {
        assert(s@.subrange(i as int, s@.len() as int).drop_first() =~= s@.subrange(
            i + 1,
            s@.len() as int,
        ));
        i = i + 1;
    }
    slice_to_vec(s, i, s.len())
}

fn label_value_exec(msg: &[char], label: &str) -> (r: Option<Vec<char>>)
    ensures
        match r {
            Some(v) => label_value(msg@, label@) == Some(v@),
            None => label_value(msg@, label@) is None,
        },
{
    let lm = lower_chars(msg);
    let ll = lower_of(label);
    match find_chars(lm.as_slice(), ll.as_slice()) {
        None => None,
        Some(k) => {
            assert(lower(msg@).len() == msg@.len());
            assert(k + ll.len() <= msg.len());
            let after = slice_to_vec(msg, k + ll.len(), msg.len());
            let rest = skip_label_seps_exec(after.as_slice());
            let stops = [';', ',', '\t'];
            assert(stops@ =~= seq![';', ',', '\t']);
            let seg = first_segment_of(rest.as_slice(), &stops);
            let t = trim_chars(seg.as_slice());
            clean_chars(t.as_slice())
        },
    }
}

pub(crate) fn first_label_value_exec(msg: &[char], labels: &[&str]) -> (r: Option<Vec<char>>)
    ensures
        match r {
            Some(v) => first_label_value(msg@, views(labels@)) == Some(v@),
            None => first_label_value(msg@, views(labels@)) is None,
        },
{
    let mut i: usize = 0;
    assert(views(labels@).subrange(0, labels@.len() as int) =~= views(labels@));
    while i < labels.len()
        invariant
            i <= labels.len(),
            first_label_value(msg@, views(labels@)) == first_label_value(
                msg@,
                views(labels@).subrange(i as int, labels@.len() as int),
            ),
        decreases labels.len() - i,
    {
        let ghost rest = views(labels@).subrange(i as int, labels@.len() as int);
        assert(rest[0] == labels@[i as int]@);
        assert(rest.drop_first() =~= views(labels@).subrange(i + 1, labels@.len() as int));
        match label_value_exec(msg, labels[i]) {
            Some(v) => {
                return Some(v);
            },
            None => {},
        }
        i = i + 1;
    }
    assert(views(labels@).subrange(i as int, labels@.len() as int) =~= Seq::<Seq<char>>::empty());
    None
}

/// The value of the first of `labels` found in `message`: after the label,
/// past `:`, `=` and white space, up to `;`, `,` or a tab, cleaned.
pub fn extract_label_value(message: &str, labels: &[&str]) -> (r: Option<String>)
    ensures
        opt_view(r) == first_label_value(message@, views(labels@)),
{
    let m = chars_of(message);
    match first_label_value_exec(m.as_slice(), labels) {
        Some(v) => Some(string_from(v.as_slice())),
        None => None,
    }
}

// ---------------------------------------------------------------------------
// HTTP request fields
// ---------------------------------------------------------------------------
/// An HTTP method name, in any ASCII case.
pub open spec fn http_method_word(w: Seq<char>) -> bool {
    let u = upper(w);
    ||| u == "GET"@
    ||| u == "POST"@
    ||| u == "PUT"@
    ||| u == "DELETE"@
    ||| u == "HEAD"@
    ||| u == "OPTIONS"@
    ||| u == "PATCH"@
    ||| u == "TRACE"@
}

/// The index of the first word, at or after `i`, that is an HTTP method.
pub open spec fn method_index(ws: Seq<Seq<char>>, i: int) -> Option<int>
    decreases ws.len() - i,
{
    if i < 0 || i >= ws.len() {
        None
    } else if http_method_word(ws[i]) {
        Some(i)
    } else {
        method_index(ws, i + 1)
    }
}

/// A word read as an HTTP status: an integer from 100 to 599, not a port.
pub open spec fn status_value(w: Seq<char>) -> Option<int> {
    match parse_int(w) {
        Some(v) => if 100 <= v <= 599 && v != 80 && v != 443 {
            Some(v)
        } else {
            None
        },
        None => None,
    }
}

/// The status of the last word in `ws[lo..j]` that reads as one.
pub open spec fn last_status(ws: Seq<Seq<char>>, lo: int, j: int) -> Option<int>
    decreases j - lo,
{
    if j <= lo || j > ws.len() || lo < 0 {
        None
    } else {
        match status_value(ws[j - 1]) {
            Some(v) => Some(v),
            None => last_status(ws, lo, j - 1),
        }
    }
}

/// The method (upper-cased) of a request line, and the last status after it.
pub open spec fn http_fields(line: Seq<char>) -> (Option<Seq<char>>, Option<int>) {
    let ws = words(line);
    match method_index(ws, 0) {
        Some(i) => (Some(upper(ws[i])), last_status(ws, i + 1, ws.len() as int)),
        None => (None, None),
    }
}

fn http_method_chars(w: &[char]) -> (r: bool)
    ensures
        r == http_method_word(w@),
{
    let u = upper_chars(w);
    let u = u.as_slice();
    eq_str(u, "GET") || eq_str(u, "POST") || eq_str(u, "PUT") || eq_str(u, "DELETE") || eq_str(
        u,
        "HEAD",
    ) || eq_str(u, "OPTIONS") || eq_str(u, "PATCH") || eq_str(u, "TRACE")
}

/// Whether a word names an HTTP method, in any ASCII case.
pub fn is_http_method(value: &str) -> (r: bool)
    ensures
        r == http_method_word(value@),
{
    let v = chars_of(value);
    http_method_chars(v.as_slice())
}

fn status_value_exec(w: &[char]) -> (r: Option<i64>)
    ensures
        match r {
            Some(v) => status_value(w@) == Some(v as int),
            None => status_value(w@) is None,
        },
{
    match parse_i64(w) {
        Some(v) => if 100 <= v && v <= 599 && v != 80 && v != 443 {
            Some(v)
        } else {
            None
        },
        None => None,
    }
}

fn method_index_exec(parts: &Vec<Vec<char>>) -> (r: Option<usize>)
    ensures
        match r {
            Some(i) => i < parts@.len() && method_index(vviews(parts@), 0) == Some(i as int),
            None => method_index(vviews(parts@), 0) is None,
        },
{
    let ghost ws = vviews(parts@);
    let mut idx: usize = 0;
    while idx < parts.len()
        invariant
            idx <= parts.len(),
            ws == vviews(parts@),
            method_index(ws, 0) == method_index(ws, idx as int),
        decreases parts.len() - idx,
    {
        assert(ws[idx as int] == parts@[idx as int]@);
        if http_method_chars(parts[idx].as_slice()) {
            return Some(idx);
        }
        idx = idx + 1;
    }
    None
}

/// The HTTP method of a request line (upper-cased), and the last word after it
/// that reads as a status from 100 to 599 other than 443.
pub fn extract_http_log_fields(line: &str) -> (r: (Option<String>, Option<i64>))
    ensures
        opt_view(r.0) == http_fields(line@).0,
        match r.1 {
            Some(v) => http_fields(line@).1 == Some(v as int),
            None => http_fields(line@).1 is None,
        },
{
    let lv = chars_of(line);
    let parts = words_of(lv.as_slice());
    let ghost ws = vviews(parts@);
    let idx = match method_index_exec(&parts) {
        Some(i) => i,
        None => {
            return (None, None);
        },
    };
    assert(ws[idx as int] == parts@[idx as int]@);
    let u = upper_chars(parts[idx].as_slice());
    let method = string_from(u.as_slice());
    let mut j: usize = parts.len();
    let lo = idx + 1;
    while j > lo
        invariant
            lo <= j <= parts.len(),
            lo == idx + 1,
            idx < parts.len(),
            ws == vviews(parts@),
            ws == words(line@),
            method_index(ws, 0) == Some(idx as int),
            method@ == upper(ws[idx as int]),
            last_status(ws, lo as int, parts.len() as int) == last_status(ws, lo as int, j as int),
        decreases j,
    {
        match status_value_exec(parts[j - 1].as_slice()) {
            Some(v) => {
                return (Some(method), Some(v));
            },
            None => {},
        }
        j = j - 1;
    }
    (Some(method), None)
}

// ---------------------------------------------------------------------------
// User and command hints
// ---------------------------------------------------------------------------
/// Characters kept at the ends of a user-name candidate.
pub open spec fn name_char(c: char) -> bool {
    is_ascii_alnum(c) || c == '_' || c == '-' || c == '.'
}

pub open spec fn trim_start_names(s: Seq<char>) -> Seq<char>
    decreases s.len(),
{
    if s.len() > 0 && !name_char(s[0]) {
        trim_start_names(s.drop_first())
    } else {
        s
    }
}

pub open spec fn trim_end_names(s: Seq<char>) -> Seq<char>
    decreases s.len(),
{
    if s.len() > 0 && !name_char(s.last()) {
        trim_end_names(s.drop_last())
    } else {
        s
    }
}

/// `s` without the characters at either end that cannot be part of a name.
pub open spec fn trim_names(s: Seq<char>) -> Seq<char> {
    trim_end_names(trim_start_names(s))
}

/// The first white-space separated word, or the empty text.
pub open spec fn first_word(s: Seq<char>) -> Seq<char> {
    let ws = words(s);
    if ws.len() > 0 {
        ws[0]
    } else {
        Seq::empty()
    }
}

/// The name-like word after the first occurrence of `marker` in the lower-cased
/// line, when it is at least two bytes long.
pub open spec fn marker_name(line: Seq<char>, marker: Seq<char>) -> Option<Seq<char>> {
    match find(lower(line), marker) {
        Some(p) => {
            let c = trim_names(first_word(line.subrange(p + marker.len(), line.len() as int)));
            if utf8_len_at_least_two(c) {
                Some(c)
            } else {
                None
            }
        },
        None => None,
    }
}

pub open spec fn user_labels() -> Seq<Seq<char>> {
    seq![
        "UserName"@,
        "Username"@,
        "User"@,
        "Account Name"@,
        "TargetUserName"@,
        "SubjectUserName"@,
        "user"@,
    ]
}

/// A user name named in a line: a labelled value, or the word after `for`,
/// `user` or `account`.
pub open spec fn username_hint(line: Seq<char>) -> Option<Seq<char>> {
    match first_label_value(line, user_labels()) {
        Some(v) => Some(v),
        None => match marker_name(line, " for "@) {
            Some(c) => Some(c),
            None => match marker_name(line, " user "@) {
                Some(c) => Some(c),
                None => marker_name(line, " account "@),
            },
        },
    }
}

/// At most `n` characters of `s`, with `...` after them when some were cut.
pub open spec fn truncated(s: Seq<char>, n: nat) -> Seq<char> {
    if s.len() > n {
        s.subrange(0, n as int) + "..."@
    } else {
        s
    }
}

pub open spec fn command_labels() -> Seq<Seq<char>> {
    seq!["CommandLine"@, "Command"@, "cmd"@, "command"@]
}

pub open spec fn command_markers() -> Seq<Seq<char>> {
    seq!["powershell"@, "cmd.exe"@, "curl "@, "wget "@, "certutil"@, "bitsadmin"@]
}

/// The line from the first of `ms`, in the order given, that occurs in it.
pub open spec fn marker_tail(line: Seq<char>, ms: Seq<Seq<char>>) -> Option<Seq<char>>
    decreases ms.len(),
{
    if ms.len() == 0 {
        None
    } else {
        match find(lower(line), ms[0]) {
            Some(p) => Some(truncated(line.subrange(p, line.len() as int), 240)),
            None => marker_tail(line, ms.drop_first()),
        }
    }
}

/// A command named in a line: a labelled value, or the line from a known tool
/// name on.
pub open spec fn command_hint(line: Seq<char>) -> Option<Seq<char>> {
    match first_label_value(line, command_labels()) {
        Some(v) => Some(v),
        None => marker_tail(line, command_markers()),
    }
}

fn trim_names_exec(s: &[char]) -> (r: Vec<char>)
    ensures
        r@ == trim_names(s@),
{
    let mut i: usize = 0;
    assert(s@.subrange(0, s@.len() as int) =~= s@);
    while i < s.len() && !(char_is_ascii_alnum(s[i]) || s[i] == '_' || s[i] == '-' || s[i]
        == '.')
        invariant
            i <= s.len(),
            trim_start_names(s@) == trim_start_names(s@.subrange(i as int, s@.len() as int)),
        decreases s.len() - i,
    {
        assert(s@.subrange(i as int, s@.len() as int).drop_first() =~= s@.subrange(
            i + 1,
            s@.len() as int,
        ));
        i = i + 1;
    }
    let ghost t = s@.subrange(i as int, s@.len() as int);
    let mut j: usize = s.len();
    assert(t.subrange(0, (j - i) as int) =~= t);
    while j > i && !(char_is_ascii_alnum(s[j - 1]) || s[j - 1] == '_' || s[j - 1] == '-' || s[j
        - 1] == '.')
        invariant
            i <= j <= s.len(),
            t == s@.subrange(i as int, s@.len() as int),
            trim_start_names(s@) == t,
            trim_end_names(t) == trim_end_names(t.subrange(0, (j - i) as int)),
        decreases j,
    {
        assert(t.subrange(0, (j - i) as int).drop_last() =~= t.subrange(0, (j - 1 - i) as int));
        j = j - 1;
    }
    assert(t.subrange(0, (j - i) as int) =~= s@.subrange(i as int, j as int));
    slice_to_vec(s, i, j)
}

fn marker_name_exec(line: &[char], lower_line: &[char], marker: &str) -> (r: Option<Vec<char>>)
    requires
        lower_line@ == lower(line@),
    ensures
        match r {
            Some(v) => marker_name(line@, marker@) == Some(v@),
            None => marker_name(line@, marker@) is None,
        },
{
    let mv = chars_of(marker);
    match find_chars(lower_line, mv.as_slice()) {
        None => None,
        Some(p) => {
            assert(lower(line@).len() == line@.len());
            assert(p + mv.len() <= line.len());
            let rest = slice_to_vec(line, p + mv.len(), line.len());
            let ws = words_of(rest.as_slice());
            let w: Vec<char> = if ws.len() > 0 {
                slice_to_vec(ws[0].as_slice(), 0, ws[0].len())
            } else {
                Vec::new()
            };
            assert(w@ == first_word(rest@)) by {
                if ws@.len() > 0 {
                    assert(ws[0]@.subrange(0, ws[0]@.len() as int) =~= ws[0]@);
                    assert(vviews(ws@)[0] == ws@[0]@);
                } else {
                    assert(w@ =~= Seq::<char>::empty());
                }
            }
            let c = trim_names_exec(w.as_slice());
            if c.len() >= 2 || (c.len() == 1 && c[0] as u32 >= 0x80) {
                Some(c)
            } else {
                None
            }
        },
    }
}

/// A user name named in a line: the value of a user label, or the word after
/// ` for `, ` user ` or ` account `.
pub fn extract_username_hint(line: &str) -> (r: Option<String>)
    ensures
        opt_view(r) == username_hint(line@),
{
    let lv = chars_of(line);
    let labels = [
        "UserName",
        "Username",
        "User",
        "Account Name",
        "TargetUserName",
        "SubjectUserName",
        "user",
    ];
    assert(views(labels@) =~= user_labels());
    match first_label_value_exec(lv.as_slice(), &labels) {
        Some(v) => {
            return Some(string_from(v.as_slice()));
        },
        None => {},
    }
    let ll = lower_chars(lv.as_slice());
    match marker_name_exec(lv.as_slice(), ll.as_slice(), " for ") {
        Some(c) => {
            return Some(string_from(c.as_slice()));
        },
        None => {},
    }
    match marker_name_exec(lv.as_slice(), ll.as_slice(), " user ") {
        Some(c) => {
            return Some(string_from(c.as_slice()));
        },
        None => {},
    }
    match marker_name_exec(lv.as_slice(), ll.as_slice(), " account ") {
        Some(c) => Some(string_from(c.as_slice())),
        None => None,
    }
}

pub(crate) fn truncated_chars(s: &[char], n: usize) -> (r: Vec<char>)
    ensures
        r@ == truncated(s@, n as nat),
{
    if s.len() > n {
        let head = slice_to_vec(s, 0, n);
        let dots = chars_of("...");
        concat_chars(head.as_slice(), dots.as_slice())
    } else {
        slice_to_vec(s, 0, s.len())
    }
}

/// At most `max_chars` characters of a text, with `...` after them when some
/// were cut.
pub fn truncate(value: &str, max_chars: usize) -> (r: String)
    ensures
        r@ == truncated(value@, max_chars as nat),
{
    let v = chars_of(value);
    let t = truncated_chars(v.as_slice(), max_chars);
    string_from(t.as_slice())
}

/// A command named in a line: the value of a command label, or the line from
/// the first known tool name on, cut to 240 characters.
pub fn extract_command_hint(line: &str) -> (r: Option<String>)
    ensures
        opt_view(r) == command_hint(line@),
{
    let lv = chars_of(line);
    let labels = ["CommandLine", "Command", "cmd", "command"];
    assert(views(labels@) =~= command_labels());
    match first_label_value_exec(lv.as_slice(), &labels) {
        Some(v) => {
            return Some(string_from(v.as_slice()));
        },
        None => {},
    }
    let ll = lower_chars(lv.as_slice());
    let markers = ["powershell", "cmd.exe", "curl ", "wget ", "certutil", "bitsadmin"];
    assert(views(markers@) =~= command_markers());
    let mut i: usize = 0;
    assert(views(markers@).subrange(0, 6) =~= command_markers());
    while i < 6
        invariant
            i <= 6,
            ll@ == lower(lv@),
            lv@ == line@,
            views(markers@) == command_markers(),
            command_hint(line@) == marker_tail(line@, views(markers@).subrange(i as int, 6)),
        decreases 6 - i,
    {
        let ghost rest = views(markers@).subrange(i as int, 6);
        assert(rest[0] == markers@[i as int]@);
        assert(rest.drop_first() =~= views(markers@).subrange(i + 1, 6));
        match find_str(ll.as_slice(), markers[i]) {
            Some(p) => {
                let tail = slice_to_vec(lv.as_slice(), p, lv.len());
                let t = truncated_chars(tail.as_slice(), 240);
                return Some(string_from(t.as_slice()));
            },
            None => {},
        }
        i = i + 1;
    }
    None
}

// ---------------------------------------------------------------------------
// Log families
// ---------------------------------------------------------------------------
/// What a text-log line was recognised as.
#[derive(Debug, Clone)]
pub struct TextLogClassification {
    pub log_family: &'static str,
    pub classification: &'static str,
    pub action_suffix: &'static str,
    pub severity: &'static str,
    pub http_method: Option<String>,
    pub http_status: Option<i64>,
    pub username: Option<String>,
    pub command_hint: Option<String>,
}

/// Family, classification, action suffix, severity, HTTP method and status,
/// user name and command hint.
pub type TextClassView = (
    Seq<char>,
    Seq<char>,
    Seq<char>,
    Seq<char>,
    Option<Seq<char>>,
    Option<int>,
    Option<Seq<char>>,
    Option<Seq<char>>,
);

pub open spec fn status_view(o: Option<i64>) -> Option<int> {
    match o {
        Some(v) => Some(v as int),
        None => None,
    }
}

impl View for TextLogClassification {
    type V = TextClassView;

    open spec fn view(&self) -> TextClassView {
        (
            self.log_family@,
            self.classification@,
            self.action_suffix@,
            self.severity@,
            opt_view(self.http_method),
            status_view(self.http_status),
            opt_view(self.username),
            opt_view(self.command_hint),
        )
    }
}

/// A log path of a web server.
pub open spec fn web_server_path(sl: Seq<char>) -> bool {
    ||| contains(sl, "w3svc"@)
    ||| contains(sl, "u_ex"@)
    ||| contains(sl, "inetpub"@)
    ||| contains(sl, "iis"@)
    ||| contains(sl, "httperr"@)
    ||| contains(sl, "access.log"@)
}

pub open spec fn suspicious_request_text(l: Seq<char>) -> bool {
    ||| contains(l, "cmd="@)
    ||| contains(l, "exec"@)
    ||| contains(l, "webshell"@)
    ||| contains(l, "powershell"@)
    ||| contains(l, "mimikatz"@)
    ||| contains(l, "/upload"@)
    ||| contains(l, "/download"@)
    ||| contains(l, ".aspx"@)
    ||| contains(l, ".ashx"@)
    ||| contains(l, ".php"@)
    ||| contains(l, "../"@)
    ||| contains(l, "%2e%2e"@)
}

pub open spec fn auth_failure_text(l: Seq<char>) -> bool {
    ||| contains(l, "failed password"@)
    ||| contains(l, "failure audit"@)
    ||| contains(l, "invalid user"@)
    ||| contains(l, "logon failed"@)
    ||| contains(l, "4625"@)
    ||| contains(l, "authentication failure"@)
}

pub open spec fn auth_success_text(l: Seq<char>) -> bool {
    ||| contains(l, "accepted password"@)
    ||| contains(l, "successful logon"@)
    ||| contains(l, "logon success"@)
    ||| contains(l, "4624"@)
    ||| contains(l, "session opened"@)
}

pub open spec fn privilege_text(l: Seq<char>) -> bool {
    ||| contains(l, " sudo:"@)
    ||| contains(l, "sudo "@)
    ||| contains(l, " su:"@)
    ||| contains(l, "runas"@)
    ||| contains(l, "privilege escalation"@)
}

pub open spec fn powershell_text(l: Seq<char>) -> bool {
    ||| contains(l, "powershell"@)
    ||| contains(l, "encodedcommand"@)
    ||| contains(l, " -enc "@)
    ||| contains(l, "frombase64string"@)
    ||| contains(l, "iex "@)
    ||| contains(l, "invoke-webrequest"@)
    ||| contains(l, "downloadstring"@)
    ||| contains(l, "start-bitstransfer"@)
}

/// Encoded or downloaded PowerShell.
pub open spec fn obfuscated_powershell_text(l: Seq<char>) -> bool {
    ||| contains(l, "encodedcommand"@)
    ||| contains(l, " -enc "@)
    ||| contains(l, "frombase64string"@)
    ||| contains(l, "downloadstring"@)
    ||| contains(l, "iex "@)
}

pub open spec fn transfer_text(l: Seq<char>) -> bool {
    ||| contains(l, "curl "@)
    ||| contains(l, "wget "@)
    ||| contains(l, "bitsadmin"@)
    ||| contains(l, "certutil"@)
    ||| contains(l, "download"@)
    ||| contains(l, "upload"@)
    ||| contains(l, "put "@)
    ||| contains(l, "get "@)
    ||| contains(l, "file transfer"@)
}

pub open spec fn payload_text(l: Seq<char>) -> bool {
    ||| contains(l, ".exe"@)
    ||| contains(l, ".dll"@)
    ||| contains(l, ".ps1"@)
    ||| contains(l, ".bat"@)
    ||| contains(l, ".cmd"@)
}

pub open spec fn tamper_text(l: Seq<char>) -> bool {
    ||| contains(l, "wevtutil cl"@)
    ||| contains(l, "event log cleared"@)
    ||| contains(l, "cleared the security log"@)
    ||| contains(l, "delete"@)
    ||| contains(l, "deleted"@)
    ||| contains(l, "removed"@)
    ||| contains(l, "rmdir"@)
    ||| contains(l, "rm -rf"@)
}

pub open spec fn log_clearing_text(l: Seq<char>) -> bool {
    contains(l, "wevtutil"@) || contains(l, "event log cleared"@) || contains(
        l,
        "cleared the security log"@,
    )
}

/// A process name of PowerShell, in any ASCII case.
pub open spec fn powershell_process(p: Option<&str>) -> bool {
    match p {
        Some(n) => eq_ignore_case(n@, "powershell.exe"@) || eq_ignore_case(n@, "pwsh.exe"@),
        None => false,
    }
}

/// The classification of a text-log line from `src` (`l` is the line
/// lower-cased), the first family that applies: web access, failed or
/// successful authentication, privilege use, PowerShell, file transfer, then
/// tampering or deletion.
pub open spec fn text_class(
    src: Seq<char>,
    line: Seq<char>,
    l: Seq<char>,
    has_url: bool,
    ps_process: bool,
    has_ip: bool,
) -> Option<TextClassView> {
    let method = http_fields(line).0;
    let status = http_fields(line).1;
    let web = method is Some || web_server_path(lower(src));
    if web && (method is Some || has_url || has_ip) {
        let suspicious = (match status {
            Some(v) => v >= 400,
            None => false,
        }) || suspicious_request_text(l);
        Some(
            (
                "web_access"@,
                if suspicious {
                    "suspicious_http_request"@
                } else {
                    "http_request"@
                },
                "http_request_observed"@,
                if suspicious {
                    "medium"@
                } else {
                    "info"@
                },
                method,
                status,
                username_hint(line),
                command_hint(line),
            ),
        )
    } else if auth_failure_text(l) {
        Some(
            (
                "authentication"@,
                "auth_failure"@,
                "auth_failure_observed"@,
                "medium"@,
                None,
                None,
                username_hint(line),
                None,
            ),
        )
    } else if auth_success_text(l) {
        Some(
            (
                "authentication"@,
                "auth_success"@,
                "auth_success_observed"@,
                "info"@,
                None,
                None,
                username_hint(line),
                None,
            ),
        )
    } else if privilege_text(l) {
        Some(
            (
                "authentication"@,
                "privilege_use"@,
                "privilege_use_observed"@,
                "medium"@,
                None,
                None,
                username_hint(line),
                command_hint(line),
            ),
        )
    } else if powershell_text(l) || ps_process {
        let obfuscated = obfuscated_powershell_text(l);
        Some(
            (
                "powershell"@,
                if obfuscated {
                    "suspicious_powershell"@
                } else {
                    "powershell_activity"@
                },
                "powershell_activity_observed"@,
                if obfuscated {
                    "high"@
                } else {
                    "medium"@
                },
                None,
                None,
                username_hint(line),
                command_hint(line),
            ),
        )
    } else if transfer_text(l) && (has_url || has_ip || contains(l, ".exe"@) || contains(
        l,
        ".ps1"@,
    )) {
        Some(
            (
                "file_transfer"@,
                "file_transfer"@,
                "file_transfer_observed"@,
                if payload_text(l) {
                    "high"@
                } else {
                    "medium"@
                },
                None,
                None,
                username_hint(line),
                command_hint(line),
            ),
        )
    } else if tamper_text(l) {
        let clearing = log_clearing_text(l);
        Some(
            (
                "tamper_or_deletion"@,
                if clearing {
                    "log_clearing"@
                } else {
                    "file_deletion"@
                },
                "tamper_or_deletion_observed"@,
                if clearing {
                    "high"@
                } else {
                    "medium"@
                },
                None,
                None,
                username_hint(line),
                command_hint(line),
            ),
        )
    } else {
        None
    }
}

fn web_server_path_exec(sl: &[char]) -> (r: bool)
    ensures
        r == web_server_path(sl@),
{
    contains_str(sl, "w3svc") || contains_str(sl, "u_ex") || contains_str(sl, "inetpub")
        || contains_str(sl, "iis") || contains_str(sl, "httperr") || contains_str(sl, "access.log")
}

fn suspicious_request_exec(l: &[char]) -> (r: bool)
    ensures
        r == suspicious_request_text(l@),
{
    contains_str(l, "cmd=") || contains_str(l, "exec") || contains_str(l, "webshell")
        || contains_str(l, "powershell") || contains_str(l, "mimikatz") || contains_str(
        l,
        "/upload",
    ) || contains_str(l, "/download") || contains_str(l, ".aspx") || contains_str(l, ".ashx")
        || contains_str(l, ".php") || contains_str(l, "../") || contains_str(l, "%2e%2e")
}

fn auth_failure_exec(l: &[char]) -> (r: bool)
    ensures
        r == auth_failure_text(l@),
{
    contains_str(l, "failed password") || contains_str(l, "failure audit") || contains_str(
        l,
        "invalid user",
    ) || contains_str(l, "logon failed") || contains_str(l, "4625") || contains_str(
        l,
        "authentication failure",
    )
}

fn auth_success_exec(l: &[char]) -> (r: bool)
    ensures
        r == auth_success_text(l@),
{
    contains_str(l, "accepted password") || contains_str(l, "successful logon") || contains_str(
        l,
        "logon success",
    ) || contains_str(l, "4624") || contains_str(l, "session opened")
}

fn privilege_exec(l: &[char]) -> (r: bool)
    ensures
        r == privilege_text(l@),
{
    contains_str(l, " sudo:") || contains_str(l, "sudo ") || contains_str(l, " su:")
        || contains_str(l, "runas") || contains_str(l, "privilege escalation")
}

fn powershell_exec(l: &[char]) -> (r: bool)
    ensures
        r == powershell_text(l@),
{
    contains_str(l, "powershell") || contains_str(l, "encodedcommand") || contains_str(l, " -enc ")
        || contains_str(l, "frombase64string") || contains_str(l, "iex ") || contains_str(
        l,
        "invoke-webrequest",
    ) || contains_str(l, "downloadstring") || contains_str(l, "start-bitstransfer")
}

fn obfuscated_powershell_exec(l: &[char]) -> (r: bool)
    ensures
        r == obfuscated_powershell_text(l@),
{
    contains_str(l, "encodedcommand") || contains_str(l, " -enc ") || contains_str(
        l,
        "frombase64string",
    ) || contains_str(l, "downloadstring") || contains_str(l, "iex ")
}

fn transfer_exec(l: &[char]) -> (r: bool)
    ensures
        r == transfer_text(l@),
{
    contains_str(l, "curl ") || contains_str(l, "wget ") || contains_str(l, "bitsadmin")
        || contains_str(l, "certutil") || contains_str(l, "download") || contains_str(l, "upload")
        || contains_str(l, "put ") || contains_str(l, "get ") || contains_str(l, "file transfer")
}

fn payload_exec(l: &[char]) -> (r: bool)
    ensures
        r == payload_text(l@),
{
    contains_str(l, ".exe") || contains_str(l, ".dll") || contains_str(l, ".ps1") || contains_str(
        l,
        ".bat",
    ) || contains_str(l, ".cmd")
}

fn tamper_exec(l: &[char]) -> (r: bool)
    ensures
        r == tamper_text(l@),
{
    contains_str(l, "wevtutil cl") || contains_str(l, "event log cleared") || contains_str(
        l,
        "cleared the security log",
    ) || contains_str(l, "delete") || contains_str(l, "deleted") || contains_str(l, "removed")
        || contains_str(l, "rmdir") || contains_str(l, "rm -rf")
}

fn log_clearing_exec(l: &[char]) -> (r: bool)
    ensures
        r == log_clearing_text(l@),
{
    contains_str(l, "wevtutil") || contains_str(l, "event log cleared") || contains_str(
        l,
        "cleared the security log",
    )
}

fn powershell_process_exec(p: Option<&str>) -> (r: bool)
    ensures
        r == powershell_process(p),
{
    match p {
        Some(n) => {
            let nv = chars_of(n);
            let a = chars_of("powershell.exe");
            let b = chars_of("pwsh.exe");
            eq_ignore_case_chars(nv.as_slice(), a.as_slice()) || eq_ignore_case_chars(
                nv.as_slice(),
                b.as_slice(),
            )
        },
        None => false,
    }
}

/// The family a text-log line belongs to, with what was read from it; none
/// when no family applies. `lower` is the line lower-cased.
pub fn classify_text_log(
    source_path: &str,
    line: &str,
    lower: &str,
    url: Option<&str>,
    process_name: Option<&str>,
    ip: Option<&str>,
) -> (r: Option<TextLogClassification>)
    ensures
        match r {
            Some(c) => text_class(
                source_path@,
                line@,
                lower@,
                url is Some,
                powershell_process(process_name),
                ip is Some,
            ) == Some(c@),
            None => text_class(
                source_path@,
                line@,
                lower@,
                url is Some,
                powershell_process(process_name),
                ip is Some,
            ) is None,
        },
{
    let sl = lower_of(source_path);
    let l = chars_of(lower);
    let l = l.as_slice();
    let (http_method, http_status) = extract_http_log_fields(line);
    let web = http_method.is_some() || web_server_path_exec(sl.as_slice());
    if web && (http_method.is_some() || url.is_some() || ip.is_some()) {
        let bad_status = match http_status {
            Some(v) => v >= 400,
            None => false,
        };
        let suspicious = bad_status || suspicious_request_exec(l);
        return Some(
            TextLogClassification {
                log_family: "web_access",
                classification: if suspicious {
                    "suspicious_http_request"
                } else {
                    "http_request"
                },
                action_suffix: "http_request_observed",
                severity: if suspicious {
                    "medium"
                } else {
                    "info"
                },
                http_method,
                http_status,
                username: extract_username_hint(line),
                command_hint: extract_command_hint(line),
            },
        );
    }
    if auth_failure_exec(l) {
        return Some(
            TextLogClassification {
                log_family: "authentication",
                classification: "auth_failure",
                action_suffix: "auth_failure_observed",
                severity: "medium",
                http_method: None,
                http_status: None,
                username: extract_username_hint(line),
                command_hint: None,
            },
        );
    }
    if auth_success_exec(l) {
        return Some(
            TextLogClassification {
                log_family: "authentication",
                classification: "auth_success",
                action_suffix: "auth_success_observed",
                severity: "info",
                http_method: None,
                http_status: None,
                username: extract_username_hint(line),
                command_hint: None,
            },
        );
    }
    if privilege_exec(l) {
        return Some(
            TextLogClassification {
                log_family: "authentication",
                classification: "privilege_use",
                action_suffix: "privilege_use_observed",
                severity: "medium",
                http_method: None,
                http_status: None,
                username: extract_username_hint(line),
                command_hint: extract_command_hint(line),
            },
        );
    }
    if powershell_exec(l) || powershell_process_exec(process_name) {
        let obfuscated = obfuscated_powershell_exec(l);
        return Some(
            TextLogClassification {
                log_family: "powershell",
                classification: if obfuscated {
                    "suspicious_powershell"
                } else {
                    "powershell_activity"
                },
                action_suffix: "powershell_activity_observed",
                severity: if obfuscated {
                    "high"
                } else {
                    "medium"
                },
                http_method: None,
                http_status: None,
                username: extract_username_hint(line),
                command_hint: extract_command_hint(line),
            },
        );
    }
    if transfer_exec(l) && (url.is_some() || ip.is_some() || contains_str(l, ".exe")
        || contains_str(l, ".ps1")) {
        return Some(
            TextLogClassification {
                log_family: "file_transfer",
                classification: "file_transfer",
                action_suffix: "file_transfer_observed",
                severity: if payload_exec(l) {
                    "high"
                } else {
                    "medium"
                },
                http_method: None,
                http_status: None,
                username: extract_username_hint(line),
                command_hint: extract_command_hint(line),
            },
        );
    }
    if tamper_exec(l) {
        let clearing = log_clearing_exec(l);
        return Some(
            TextLogClassification {
                log_family: "tamper_or_deletion",
                classification: if clearing {
                    "log_clearing"
                } else {
                    "file_deletion"
                },
                action_suffix: "tamper_or_deletion_observed",
                severity: if clearing {
                    "high"
                } else {
                    "medium"
                },
                http_method: None,
                http_status: None,
                username: extract_username_hint(line),
                command_hint: extract_command_hint(line),
            },
        );
    }
    None
}

// ---------------------------------------------------------------------------
// Actions
// ---------------------------------------------------------------------------
/// The action of a text line of type `t`: downloads, uploads, processes, URLs,
/// network use, deletions and warnings, in that order, else `d`.
pub open spec fn line_action(
    t: Seq<char>,
    d: Seq<char>,
    l: Seq<char>,
    has_url: bool,
    has_process: bool,
    has_ip: bool,
) -> Seq<char> {
    if contains(l, "download"@) {
        t + "_download_observed"@
    } else if contains(l, "upload"@) || contains(l, "exfil"@) {
        t + "_upload_observed"@
    } else if has_process || contains(l, "process created"@) || contains(l, "process start"@) {
        t + "_process_observed"@
    } else if has_url {
        t + "_url_observed"@
    } else if has_ip || contains(l, "connect"@) || contains(l, "network"@) || contains(
        l,
        "socket"@,
    ) {
        t + "_network_observed"@
    } else if contains(l, "delete"@) || contains(l, "removed"@) {
        t + "_delete_observed"@
    } else if contains(l, "error"@) || contains(l, "fail"@) || contains(l, "warning"@) {
        t + "_warning_observed"@
    } else {
        d
    }
}

pub fn text_line_action(
    artifact_type: &str,
    default_action: &str,
    lower: &str,
    url: Option<&str>,
    process_name: Option<&str>,
    ip: Option<&str>,
) -> (r: String)
    ensures
        r@ == line_action(
            artifact_type@,
            default_action@,
            lower@,
            url is Some,
            process_name is Some,
            ip is Some,
        ),
{
    let lv = chars_of(lower);
    let l = lv.as_slice();
    if contains_str(l, "download") {
        concat_str(artifact_type, "_download_observed")
    } else if contains_str(l, "upload") || contains_str(l, "exfil") {
        concat_str(artifact_type, "_upload_observed")
    } else if process_name.is_some() || contains_str(l, "process created") || contains_str(
        l,
        "process start",
    ) {
        concat_str(artifact_type, "_process_observed")
    } else if url.is_some() {
        concat_str(artifact_type, "_url_observed")
    } else if ip.is_some() || contains_str(l, "connect") || contains_str(l, "network")
        || contains_str(l, "socket") {
        concat_str(artifact_type, "_network_observed")
    } else if contains_str(l, "delete") || contains_str(l, "removed") {
        concat_str(artifact_type, "_delete_observed")
    } else if contains_str(l, "error") || contains_str(l, "fail") || contains_str(l, "warning") {
        concat_str(artifact_type, "_warning_observed")
    } else {
        string_of(default_action)
    }
}

/// The action of a classified line: the family's action, unless the line's own
/// action was more specific.
pub open spec fn classified_action(
    t: Seq<char>,
    d: Seq<char>,
    base: Seq<char>,
    suffix: Option<Seq<char>>,
) -> Seq<char> {
    match suffix {
        None => base,
        Some(sfx) => {
            let keeps_transfer = (sfx == "powershell_activity_observed"@ || sfx
                == "file_transfer_observed"@) && (ends_with(base, "_download_observed"@)
                || ends_with(base, "_upload_observed"@));
            if keeps_transfer {
                base
            } else if base == d || ends_with(base, "_warning_observed"@) || ends_with(
                base,
                "_process_observed"@,
            ) || sfx == "auth_failure_observed"@ || sfx == "auth_success_observed"@ || sfx
                == "privilege_use_observed"@ || sfx == "http_request_observed"@ || sfx
                == "tamper_or_deletion_observed"@ {
                t + "_"@ + sfx
            } else {
                base
            }
        },
    }
}

pub open spec fn suffix_of(c: Option<&TextLogClassification>) -> Option<Seq<char>> {
    match c {
        Some(c) => Some(c.action_suffix@),
        None => None,
    }
}

pub fn classified_text_action(
    artifact_type: &str,
    default_action: &str,
    base_action: String,
    classification: Option<&TextLogClassification>,
) -> (r: String)
    ensures
        r@ == classified_action(
            artifact_type@,
            default_action@,
            base_action@,
            suffix_of(classification),
        ),
{
    let c = match classification {
        Some(c) => c,
        None => {
            return base_action;
        },
    };
    let bv = chars_of(base_action.as_str());
    let b = bv.as_slice();
    let sv = chars_of(c.action_suffix);
    let sfx = sv.as_slice();
    let keeps_transfer = (eq_str(sfx, "powershell_activity_observed") || eq_str(
        sfx,
        "file_transfer_observed",
    )) && (ends_with_str(b, "_download_observed") || ends_with_str(b, "_upload_observed"));
    if keeps_transfer {
        return base_action;
    }
    if eq_str(b, default_action) || ends_with_str(b, "_warning_observed") || ends_with_str(
        b,
        "_process_observed",
    ) || eq_str(sfx, "auth_failure_observed") || eq_str(sfx, "auth_success_observed") || eq_str(
        sfx,
        "privilege_use_observed",
    ) || eq_str(sfx, "http_request_observed") || eq_str(sfx, "tamper_or_deletion_observed") {
        let head = concat_str(artifact_type, "_");
        concat_str(head.as_str(), c.action_suffix)
    } else {
        base_action
    }
}

/// The action of a line of a text document of type `t`.
pub open spec fn document_action(t: Seq<char>, l: Seq<char>, has_url: bool) -> Seq<char> {
    if contains(l, "download"@) {
        t + "_download_signal"@
    } else if contains(l, "upload"@) {
        t + "_upload_signal"@
    } else if contains(l, "cookie"@) {
        t + "_cookie_signal"@
    } else if contains(l, "cache"@) || contains(l, "history"@) || contains(l, "visited"@) {
        t + "_web_activity_signal"@
    } else if contains(l, "onedrive"@) || contains(l, "sync"@) {
        t + "_sync_signal"@
    } else if has_url {
        t + "_url_signal"@
    } else {
        t + "_content_signal"@
    }
}

pub fn text_document_action(artifact_type: &str, lower: &str, url: Option<&str>) -> (r: String)
    ensures
        r@ == document_action(artifact_type@, lower@, url is Some),
{
    let lv = chars_of(lower);
    let l = lv.as_slice();
    if contains_str(l, "download") {
        concat_str(artifact_type, "_download_signal")
    } else if contains_str(l, "upload") {
        concat_str(artifact_type, "_upload_signal")
    } else if contains_str(l, "cookie") {
        concat_str(artifact_type, "_cookie_signal")
    } else if contains_str(l, "cache") || contains_str(l, "history") || contains_str(l, "visited") {
        concat_str(artifact_type, "_web_activity_signal")
    } else if contains_str(l, "onedrive") || contains_str(l, "sync") {
        concat_str(artifact_type, "_sync_signal")
    } else if url.is_some() {
        concat_str(artifact_type, "_url_signal")
    } else {
        concat_str(artifact_type, "_content_signal")
    }
}

/// Execution tools are high, transfers and errors medium, anything else
/// informational.
pub open spec fn document_severity(l: Seq<char>) -> Seq<char> {
    if contains(l, "powershell"@) || contains(l, "cmd.exe"@) || contains(l, "rundll32"@)
        || contains(l, "regsvr32"@) || contains(l, "mshta"@) || contains(l, "mimikatz"@)
        || contains(l, "lsass"@) {
        "high"@
    } else if contains(l, "download"@) || contains(l, "upload"@) || contains(l, "error"@)
        || contains(l, "fail"@) || contains(l, "warning"@) {
        "medium"@
    } else {
        "info"@
    }
}

pub fn text_document_signal_severity(lower: &str) -> (r: &'static str)
    ensures
        r@ == document_severity(lower@),
{
    let lv = chars_of(lower);
    let l = lv.as_slice();
    if contains_str(l, "powershell") || contains_str(l, "cmd.exe") || contains_str(l, "rundll32")
        || contains_str(l, "regsvr32") || contains_str(l, "mshta") || contains_str(l, "mimikatz")
        || contains_str(l, "lsass") {
        "high"
    } else if contains_str(l, "download") || contains_str(l, "upload") || contains_str(l, "error")
        || contains_str(l, "fail") || contains_str(l, "warning") {
        "medium"
    } else {
        "info"
    }
}

} // verus!
